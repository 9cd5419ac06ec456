//! Raw on-chain call results, decoded.
//!
//! The reserve-listing view returns an ABI-encoded dynamic array of
//! `(string symbol, address)` pairs; that shape is decoded through `ethabi`
//! behind a trusted wrapper.  The reserve-data view returns a static tuple
//! of twelve unsigned 32-byte words, decoded here directly and verified
//! against the big-endian word values of the raw bytes.

use vstd::prelude::*;
use ethabi::{ParamType, Token};

verus! {

/// Identity of one lending-market reserve, read fresh from the contract at
/// every block: reserve sets change over time.
pub struct ReserveDescriptor {
    /// Ticker symbol as the contract reports it.
    pub symbol: String,
    /// The reserve's 20-byte on-chain address.
    pub address: Vec<u8>,
}

/// Numeric state of one reserve at one block, in the order the data-provider
/// view returns the words.  Words beyond `u128` (or, for the timestamp,
/// beyond `u64`) are rejected at decode time as malformed.
pub struct ReserveData {
    pub unbacked: u128,
    pub accrued_to_treasury_scaled: u128,
    pub total_a_token: u128,
    pub total_stable_debt: u128,
    pub total_variable_debt: u128,
    pub liquidity_rate: u128,
    pub variable_borrow_rate: u128,
    pub stable_borrow_rate: u128,
    pub average_stable_borrow_rate: u128,
    pub liquidity_index: u128,
    pub variable_borrow_index: u128,
    pub last_update_timestamp: u64,
}

/// Value of a byte string read as a big-endian unsigned integer.
pub open spec fn be_value(s: Seq<u8>) -> int
    decreases s.len(),
{
    if s.len() == 0 {
        0
    } else {
        be_value(s.drop_last()) * 256 + s.last()
    }
}

/// 256 to the `n`th power.
pub open spec fn pow256(n: nat) -> int
    decreases n,
{
    if n == 0 {
        1
    } else {
        256 * pow256((n - 1) as nat)
    }
}

/// The `i`th 32-byte word of an ABI-encoded call result.
pub open spec fn abi_word(raw: Seq<u8>, i: int) -> int {
    be_value(raw.subrange(32 * i, 32 * i + 32))
}

/// Big-endian values are bounded by the length of their byte string.
pub proof fn lemma_be_value_bound(s: Seq<u8>)
    ensures
        0 <= be_value(s) < pow256(s.len()),
    decreases s.len(),
{
    if s.len() > 0 {
        lemma_be_value_bound(s.drop_last());
    }
}

/// `pow256` grows with its exponent.
pub proof fn lemma_pow256_monotone(a: nat, b: nat)
    requires
        a <= b,
    ensures
        pow256(a) <= pow256(b),
    decreases b,
{
    if a < b {
        lemma_pow256_monotone(a, (b - 1) as nat);
        assert(pow256((b - 1) as nat) >= 1) by {
            lemma_pow256_positive((b - 1) as nat);
        };
    }
}

/// `pow256` is positive.
pub proof fn lemma_pow256_positive(n: nat)
    ensures
        pow256(n) >= 1,
    decreases n,
{
    if n > 0 {
        lemma_pow256_positive((n - 1) as nat);
    }
}

/// An all-zero byte string has value zero.
pub proof fn lemma_be_value_zeros(s: Seq<u8>)
    requires
        forall|i: int| 0 <= i < s.len() ==> s[i] == 0,
    ensures
        be_value(s) == 0,
    decreases s.len(),
{
    if s.len() > 0 {
        assert(forall|i: int| 0 <= i < s.drop_last().len() ==> #[trigger] s.drop_last()[i] == 0);
        lemma_be_value_zeros(s.drop_last());
    }
}

/// Leading zero bytes do not change a big-endian value.
pub proof fn lemma_be_value_skip_zeros(s: Seq<u8>, k: int)
    requires
        0 <= k <= s.len(),
        forall|i: int| 0 <= i < k ==> s[i] == 0,
    ensures
        be_value(s) == be_value(s.skip(k)),
    decreases s.len(),
{
    if k == s.len() {
        lemma_be_value_zeros(s);
        assert(s.skip(k) =~= Seq::<u8>::empty());
    } else if s.len() > 0 {
        assert(forall|i: int| 0 <= i < s.drop_last().len() ==> #[trigger] s.drop_last()[i] == s[i]);
        lemma_be_value_skip_zeros(s.drop_last(), k);
        assert(s.drop_last().skip(k) =~= s.skip(k).drop_last());
        assert(s.skip(k).last() == s.last());
    }
}

/// A nonzero byte at position `i` forces a value of at least
/// `pow256(len - 1 - i)`.
pub proof fn lemma_be_value_lower(s: Seq<u8>, i: int)
    requires
        0 <= i < s.len(),
        s[i] >= 1,
    ensures
        be_value(s) >= pow256((s.len() - 1 - i) as nat),
    decreases s.len(),
{
    if i == s.len() - 1 {
        lemma_be_value_bound(s.drop_last());
    } else {
        assert(s.drop_last()[i] == s[i]);
        lemma_be_value_lower(s.drop_last(), i);
        assert(be_value(s) >= be_value(s.drop_last()) * 256) by {
            assert(s.last() >= 0);
        };
        assert(be_value(s.drop_last()) * 256 >= pow256((s.len() - 2 - i) as nat) * 256);
    }
}

/// Read the `k`th 32-byte word as a `u128`; fails exactly when the word is
/// too large for one.
fn read_word_u128(raw: &[u8], k: usize) -> (r: Option<u128>)
    requires
        k <= 11,
        32 * (k as int) + 32 <= raw@.len(),
    ensures
        (r is Some) <==> abi_word(raw@, k as int) < pow256(16),
        r matches Some(v) ==> v as int == abi_word(raw@, k as int),
{
    let base: usize = 32 * k;
    let ghost w = raw@.subrange(32 * (k as int), 32 * (k as int) + 32);
    let mut i: usize = 0;
    while i < 16
        invariant
            base == 32 * (k as int),
            32 * (k as int) + 32 <= raw@.len(),
            w == raw@.subrange(32 * (k as int), 32 * (k as int) + 32),
            0 <= i <= 16,
            forall|j: int| 0 <= j < i ==> w[j] == 0,
        decreases 16 - i,
    {
        if raw[base + i] != 0 {
            proof {
                assert(w[i as int] == raw@[base + i]);
                lemma_be_value_lower(w, i as int);
                lemma_pow256_monotone(16, (w.len() - 1 - i) as nat);
            }
            return None;
        }
        assert(w[i as int] == raw@[base + i]);
        i = i + 1;
    }
    let mut acc: u128 = 0;
    let mut j: usize = 16;
    proof {
        assert(forall|m: int| 0 <= m < 16 ==> #[trigger] w.take(16)[m] == w[m]);
        lemma_be_value_zeros(w.take(16));
    }
    while j < 32
        invariant
            base == 32 * (k as int),
            32 * (k as int) + 32 <= raw@.len(),
            w == raw@.subrange(32 * (k as int), 32 * (k as int) + 32),
            forall|m: int| 0 <= m < 16 ==> w[m] == 0,
            16 <= j <= 32,
            acc == be_value(w.take(j as int)),
            acc < pow256((j - 16) as nat),
        decreases 32 - j,
    {
        let b = raw[base + j];
        proof {
            assert(w[j as int] == raw@[base + j]);
            lemma_pow256_monotone((j - 15) as nat, 16);
            assert(pow256(16) == 0x100000000000000000000000000000000) by {
                reveal_with_fuel(pow256, 17);
            };
            assert(w.take(j + 1).drop_last() =~= w.take(j as int));
            assert(w.take(j + 1).last() == w[j as int]);
        }
        acc = acc * 256 + (b as u128);
        j = j + 1;
    }
    proof {
        assert(w.take(32) =~= w);
        lemma_be_value_skip_zeros(w, 16);
        lemma_be_value_bound(w.skip(16));
        assert(pow256(16) == 0x100000000000000000000000000000000) by {
            reveal_with_fuel(pow256, 17);
        };
    }
    Some(acc)
}

/// The reserve-data result is well formed: at least twelve words, the first
/// eleven fitting a `u128` and the timestamp word fitting a `u64`.
pub open spec fn reserve_words_ok(raw: Seq<u8>) -> bool {
    &&& raw.len() >= 384
    &&& forall|i: int| 0 <= i < 11 ==> abi_word(raw, i) < pow256(16)
    &&& abi_word(raw, 11) <= u64::MAX
}

/// The reserve state a well-formed reserve-data result denotes.
pub open spec fn reserve_data_of(raw: Seq<u8>) -> ReserveData {
    ReserveData {
        unbacked: abi_word(raw, 0) as u128,
        accrued_to_treasury_scaled: abi_word(raw, 1) as u128,
        total_a_token: abi_word(raw, 2) as u128,
        total_stable_debt: abi_word(raw, 3) as u128,
        total_variable_debt: abi_word(raw, 4) as u128,
        liquidity_rate: abi_word(raw, 5) as u128,
        variable_borrow_rate: abi_word(raw, 6) as u128,
        stable_borrow_rate: abi_word(raw, 7) as u128,
        average_stable_borrow_rate: abi_word(raw, 8) as u128,
        liquidity_index: abi_word(raw, 9) as u128,
        variable_borrow_index: abi_word(raw, 10) as u128,
        last_update_timestamp: abi_word(raw, 11) as u64,
    }
}

/// Decode a reserve-data call result: twelve big-endian words in contract
/// order.  Succeeds exactly on well-formed input, and then returns the word
/// values themselves.
pub fn decode_reserve_data(raw: &[u8]) -> (r: Option<ReserveData>)
    ensures
        (r is Some) <==> reserve_words_ok(raw@),
        r matches Some(d) ==> d == reserve_data_of(raw@),
{
    if raw.len() < 384 {
        return None;
    }
    let mut words: Vec<u128> = Vec::new();
    let mut k: usize = 0;
    while k < 11
        invariant
            raw@.len() >= 384,
            0 <= k <= 11,
            words@.len() == k,
            forall|i: int| 0 <= i < k ==> abi_word(raw@, i) < pow256(16),
            forall|i: int| 0 <= i < k ==> #[trigger] words@[i] == abi_word(raw@, i),
        decreases 11 - k,
    {
        match read_word_u128(raw, k) {
            Some(v) => {
                words.push(v);
            },
            None => {
                return None;
            },
        }
        k = k + 1;
    }
    let ts_word = match read_word_u128(raw, 11) {
        Some(v) => v,
        None => {
            proof {
                assert(pow256(16) > u64::MAX) by {
                    reveal_with_fuel(pow256, 17);
                };
            }
            return None;
        },
    };
    if ts_word > 0xFFFF_FFFF_FFFF_FFFF {
        return None;
    }
    Some(
        ReserveData {
            unbacked: words[0],
            accrued_to_treasury_scaled: words[1],
            total_a_token: words[2],
            total_stable_debt: words[3],
            total_variable_debt: words[4],
            liquidity_rate: words[5],
            variable_borrow_rate: words[6],
            stable_borrow_rate: words[7],
            average_stable_borrow_rate: words[8],
            liquidity_index: words[9],
            variable_borrow_index: words[10],
            last_update_timestamp: ts_word as u64,
        },
    )
}

/// What the reserve-listing view's ABI-encoded result denotes: the decoded
/// `(symbol, address)` pairs, if the bytes decode at all.  The outcome is a
/// function of the raw bytes alone.
pub uninterp spec fn decoded_reserve_list(raw: Seq<u8>) -> Option<Seq<(Seq<char>, Seq<u8>)>>;

/// Relies on `ethabi::decode` for the reserve-listing result, a dynamic
/// array of `(string, address)` tuples; an `ethabi` address is exactly 20
/// bytes, and decoding is a pure function of the input bytes.
#[verifier::external_body]
fn decode_reserve_list_raw(raw: &[u8]) -> (r: Option<Vec<ReserveDescriptor>>)
    ensures
        (r is Some) <==> decoded_reserve_list(raw@) is Some,
        r matches Some(v) ==> ({
            &&& Some(v@.map_values(|d: ReserveDescriptor| (d.symbol@, d.address@)))
                == decoded_reserve_list(raw@)
            &&& forall|i: int| 0 <= i < v@.len() ==> #[trigger] v@[i].address@.len() == 20
        }),
{
    let pair = ParamType::Tuple(vec![ParamType::String, ParamType::Address]);
    let mut tokens = ethabi::decode(&[ParamType::Array(Box::new(pair))], raw).ok()?;
    let items = match tokens.pop()? { Token::Array(a) => a, _ => return None };
    items.into_iter().map(|t| match t {
        Token::Tuple(f) => match (f.get(0), f.get(1)) {
            (Some(Token::String(s)), Some(Token::Address(a))) =>
                Some(ReserveDescriptor { symbol: s.clone(), address: a.as_bytes().to_vec() }),
            _ => None,
        },
        _ => None,
    }).collect()
}

/// Decode the reserve-listing call result into reserve descriptors.  A
/// failure here fails the whole block: no record may be written for a block
/// whose reserve set is unknown.
pub fn decode_reserve_list(raw: &[u8]) -> (r: Option<Vec<ReserveDescriptor>>)
    ensures
        (r is Some) <==> decoded_reserve_list(raw@) is Some,
        r matches Some(v) ==> ({
            &&& Some(v@.map_values(|d: ReserveDescriptor| (d.symbol@, d.address@)))
                == decoded_reserve_list(raw@)
            &&& forall|i: int| 0 <= i < v@.len() ==> #[trigger] v@[i].address@.len() == 20
        }),
{
    decode_reserve_list_raw(raw)
}

} // verus!
