//! Decimal and hexadecimal text forms of the integers the pipeline moves
//! around: block numbers arrive as hex quantities, the checkpoint file and
//! the record sink hold decimal digit strings.

use vstd::prelude::*;
use vstd::arithmetic::div_mod::lemma_fundamental_div_mod;

verus! {

// ---------------------------------------------------------------------------
// Decimal digit strings
// ---------------------------------------------------------------------------

/// `b` is an ASCII decimal digit.
pub open spec fn is_dec_digit(b: u8) -> bool {
    0x30 <= b && b <= 0x39
}

/// Numeric value of an ASCII decimal digit.
pub open spec fn dec_digit_val(b: u8) -> int {
    b as int - 0x30
}

/// Every byte of `s` is an ASCII decimal digit.
pub open spec fn all_dec_digits(s: Seq<u8>) -> bool {
    forall|i: int| 0 <= i < s.len() ==> is_dec_digit(s[i])
}

/// Value of a decimal digit string, most significant digit first.
pub open spec fn dec_value(s: Seq<u8>) -> int
    decreases s.len(),
{
    if s.len() == 0 {
        0
    } else {
        dec_value(s.drop_last()) * 10 + dec_digit_val(s.last())
    }
}

/// The canonical decimal form of `n`: most significant digit first, no
/// leading zero except for `n == 0` itself.
pub open spec fn dec_rep(n: int) -> Seq<u8>
    decreases n,
{
    if n < 10 {
        seq![(0x30 + n) as u8]
    } else {
        dec_rep(n / 10).push((0x30 + n % 10) as u8)
    }
}

/// The canonical decimal form really is a digit string whose value is `n`.
pub proof fn lemma_dec_rep_value(n: int)
    requires
        0 <= n,
    ensures
        dec_rep(n).len() >= 1,
        all_dec_digits(dec_rep(n)),
        dec_value(dec_rep(n)) == n,
        n >= 1 ==> dec_rep(n)[0] != 0x30,
    decreases n,
{
    if n < 10 {
        let s = dec_rep(n);
        assert(s.drop_last() =~= Seq::<u8>::empty());
        assert(dec_value(Seq::<u8>::empty()) == 0);
        assert(dec_value(s) == dec_digit_val(s.last()));
    } else {
        lemma_dec_rep_value(n / 10);
        lemma_fundamental_div_mod(n, 10);
        let s = dec_rep(n / 10);
        let d = (0x30 + n % 10) as u8;
        assert(s.push(d).drop_last() =~= s);
        assert(s.push(d).last() == d);
        assert(forall|i: int| 0 <= i < s.push(d).len() ==> is_dec_digit(#[trigger] s.push(d)[i]))
            by {
            assert(forall|i: int| 0 <= i < s.len() ==> #[trigger] s.push(d)[i] == s[i]);
        };
        assert(dec_value(s.push(d)) == n);
        assert(s.push(d)[0] == s[0]);
    }
}

/// Digit strings have non-negative values.
pub proof fn lemma_dec_value_nonneg(s: Seq<u8>)
    requires
        all_dec_digits(s),
    ensures
        dec_value(s) >= 0,
    decreases s.len(),
{
    if s.len() > 0 {
        assert(forall|i: int| 0 <= i < s.drop_last().len() ==> is_dec_digit(
            #[trigger] s.drop_last()[i],
        ));
        lemma_dec_value_nonneg(s.drop_last());
    }
}

/// A digit string is worth at least any of its prefixes.
pub proof fn lemma_dec_value_prefix(s: Seq<u8>, k: int)
    requires
        all_dec_digits(s),
        0 <= k <= s.len(),
    ensures
        dec_value(s.take(k)) <= dec_value(s),
    decreases s.len(),
{
    if k == s.len() {
        assert(s.take(k) =~= s);
    } else {
        assert(forall|i: int| 0 <= i < s.drop_last().len() ==> is_dec_digit(
            #[trigger] s.drop_last()[i],
        ));
        assert(s.drop_last().take(k) =~= s.take(k));
        lemma_dec_value_prefix(s.drop_last(), k);
        lemma_dec_value_nonneg(s.drop_last());
    }
}

/// Render `n` in its canonical decimal form.
pub fn u128_to_dec(n: u128) -> (r: Vec<u8>)
    ensures
        r@ == dec_rep(n as int),
    decreases n,
{
    if n < 10 {
        let mut v: Vec<u8> = Vec::new();
        v.push(0x30u8 + n as u8);
        assert(v@ =~= dec_rep(n as int));
        v
    } else {
        proof {
            lemma_fundamental_div_mod(n as int, 10);
        }
        let mut v = u128_to_dec(n / 10);
        v.push(0x30u8 + (n % 10) as u8);
        assert(v@ =~= dec_rep(n as int));
        v
    }
}

/// What parsing a decimal digit string yields: the value, if the string is a
/// non-empty run of digits whose value fits in a `u64`; nothing otherwise.
pub open spec fn parse_dec_spec(s: Seq<u8>) -> Option<u64> {
    if s.len() >= 1 && all_dec_digits(s) && dec_value(s) <= u64::MAX {
        Some(dec_value(s) as u64)
    } else {
        None
    }
}

/// Parse a decimal digit string into a `u64`.
pub fn parse_dec_u64(s: &[u8]) -> (r: Option<u64>)
    ensures
        r == parse_dec_spec(s@),
{
    if s.len() == 0 {
        return None;
    }
    let mut acc: u64 = 0;
    let mut i: usize = 0;
    while i < s.len()
        invariant
            0 <= i <= s@.len(),
            s@.len() >= 1,
            all_dec_digits(s@.take(i as int)),
            acc == dec_value(s@.take(i as int)),
        decreases s@.len() - i,
    {
        let b = s[i];
        if b < 0x30 || b > 0x39 {
            assert(!is_dec_digit(s@[i as int]));
            assert(!all_dec_digits(s@));
            return None;
        }
        let d = (b - 0x30) as u64;
        let stepped = match acc.checked_mul(10) {
            Some(m) => m.checked_add(d),
            None => None,
        };
        proof {
            assert(s@.take(i + 1).drop_last() =~= s@.take(i as int));
            assert(s@.take(i + 1).last() == s@[i as int]);
            assert(forall|j: int| 0 <= j < i + 1 ==> is_dec_digit(#[trigger] s@.take(i + 1)[j]));
        }
        match stepped {
            Some(next) => {
                acc = next;
            },
            None => {
                proof {
                    assert(dec_value(s@.take(i + 1)) > u64::MAX);
                    if all_dec_digits(s@) {
                        lemma_dec_value_prefix(s@, i + 1);
                    }
                }
                return None;
            },
        }
        i = i + 1;
    }
    assert(s@.take(i as int) =~= s@);
    Some(acc)
}

// ---------------------------------------------------------------------------
// Hexadecimal quantities
// ---------------------------------------------------------------------------

/// `b` is an ASCII hexadecimal digit, either case.
pub open spec fn is_hex_digit(b: u8) -> bool {
    (0x30 <= b && b <= 0x39) || (0x61 <= b && b <= 0x66) || (0x41 <= b && b <= 0x46)
}

/// Numeric value of an ASCII hexadecimal digit.
pub open spec fn hex_digit_val(b: u8) -> int {
    if 0x30 <= b && b <= 0x39 {
        b as int - 0x30
    } else if 0x61 <= b && b <= 0x66 {
        b as int - 0x61 + 10
    } else {
        b as int - 0x41 + 10
    }
}

/// Every byte of `s` is an ASCII hexadecimal digit.
pub open spec fn all_hex_digits(s: Seq<u8>) -> bool {
    forall|i: int| 0 <= i < s.len() ==> is_hex_digit(s[i])
}

/// Value of a hexadecimal digit string, most significant digit first.
pub open spec fn hex_value(s: Seq<u8>) -> int
    decreases s.len(),
{
    if s.len() == 0 {
        0
    } else {
        hex_value(s.drop_last()) * 16 + hex_digit_val(s.last())
    }
}

/// `s` without one leading `0x`, if it carries one.
pub open spec fn strip_hex_prefix(s: Seq<u8>) -> Seq<u8> {
    if s.len() >= 2 && s[0] == 0x30 && s[1] == 0x78 {
        s.skip(2)
    } else {
        s
    }
}

/// What parsing a hexadecimal quantity yields: the value of the digits after
/// an optional `0x` prefix, if they are non-empty and fit in a `u64`.
pub open spec fn parse_hex_spec(s: Seq<u8>) -> Option<u64> {
    let body = strip_hex_prefix(s);
    if body.len() >= 1 && all_hex_digits(body) && hex_value(body) <= u64::MAX {
        Some(hex_value(body) as u64)
    } else {
        None
    }
}

/// Hexadecimal digit strings have non-negative values.
pub proof fn lemma_hex_value_nonneg(s: Seq<u8>)
    requires
        all_hex_digits(s),
    ensures
        hex_value(s) >= 0,
    decreases s.len(),
{
    if s.len() > 0 {
        assert(forall|i: int| 0 <= i < s.drop_last().len() ==> is_hex_digit(
            #[trigger] s.drop_last()[i],
        ));
        lemma_hex_value_nonneg(s.drop_last());
    }
}

/// A hexadecimal digit string is worth at least any of its prefixes.
pub proof fn lemma_hex_value_prefix(s: Seq<u8>, k: int)
    requires
        all_hex_digits(s),
        0 <= k <= s.len(),
    ensures
        hex_value(s.take(k)) <= hex_value(s),
    decreases s.len(),
{
    if k == s.len() {
        assert(s.take(k) =~= s);
    } else {
        assert(forall|i: int| 0 <= i < s.drop_last().len() ==> is_hex_digit(
            #[trigger] s.drop_last()[i],
        ));
        assert(s.drop_last().take(k) =~= s.take(k));
        lemma_hex_value_prefix(s.drop_last(), k);
        lemma_hex_value_nonneg(s.drop_last());
    }
}

/// Parse a hexadecimal quantity, with an optional `0x` prefix, into a `u64`.
pub fn parse_hex_u64(s: &[u8]) -> (r: Option<u64>)
    ensures
        r == parse_hex_spec(s@),
{
    let start: usize = if s.len() >= 2 && s[0] == 0x30 && s[1] == 0x78 {
        2
    } else {
        0
    };
    let ghost body = strip_hex_prefix(s@);
    proof {
        assert(body =~= s@.skip(start as int));
    }
    if s.len() == start {
        return None;
    }
    let mut acc: u64 = 0;
    let mut i: usize = start;
    while i < s.len()
        invariant
            start <= i <= s@.len(),
            s@.len() > start,
            body == s@.skip(start as int),
            body == strip_hex_prefix(s@),
            all_hex_digits(body.take(i - start)),
            acc == hex_value(body.take(i - start)),
        decreases s@.len() - i,
    {
        let b = s[i];
        let d: u64 = if b >= 0x30 && b <= 0x39 {
            (b - 0x30) as u64
        } else if b >= 0x61 && b <= 0x66 {
            (b - 0x61 + 10) as u64
        } else if b >= 0x41 && b <= 0x46 {
            (b - 0x41 + 10) as u64
        } else {
            assert(body[i - start] == s@[i as int]);
            assert(!is_hex_digit(body[i - start]));
            assert(!all_hex_digits(body));
            return None;
        };
        assert(d == hex_digit_val(s@[i as int]));
        let stepped = match acc.checked_mul(16) {
            Some(m) => m.checked_add(d),
            None => None,
        };
        proof {
            assert(body.take(i - start + 1).drop_last() =~= body.take(i - start));
            assert(body.take(i - start + 1).last() == body[i - start]);
            assert(body[i - start] == s@[i as int]);
            assert(forall|j: int| 0 <= j < i - start + 1 ==> is_hex_digit(
                #[trigger] body.take(i - start + 1)[j],
            ));
        }
        match stepped {
            Some(next) => {
                acc = next;
            },
            None => {
                proof {
                    assert(hex_value(body.take(i - start + 1)) > u64::MAX);
                    if all_hex_digits(body) {
                        lemma_hex_value_prefix(body, i - start + 1);
                    }
                }
                return None;
            },
        }
        i = i + 1;
    }
    assert(body.take(i - start) =~= body);
    Some(acc)
}

/// The lowercase hexadecimal character of a nibble.
pub open spec fn hex_char(n: int) -> u8 {
    if n < 10 {
        (0x30 + n) as u8
    } else {
        (0x61 + (n - 10)) as u8
    }
}

/// Lowercase hexadecimal rendering of a byte string: two characters per
/// byte, high nibble first.
pub open spec fn hex_of_bytes(s: Seq<u8>) -> Seq<u8> {
    Seq::new(
        2 * s.len(),
        |i: int|
            if i % 2 == 0 {
                hex_char(s[i / 2] as int / 16)
            } else {
                hex_char(s[i / 2] as int % 16)
            },
    )
}

/// Render a byte string as `0x` followed by its lowercase hexadecimal form.
pub fn bytes_to_hex_prefixed(s: &[u8]) -> (r: Vec<u8>)
    ensures
        r@ == seq![0x30u8, 0x78u8] + hex_of_bytes(s@),
{
    let mut r: Vec<u8> = Vec::new();
    r.push(0x30);
    r.push(0x78);
    let mut i: usize = 0;
    while i < s.len()
        invariant
            0 <= i <= s@.len(),
            r@ == seq![0x30u8, 0x78u8] + hex_of_bytes(s@.take(i as int)),
        decreases s@.len() - i,
    {
        let b = s[i];
        let hi: u8 = b / 16;
        let lo: u8 = b % 16;
        let hc: u8 = if hi < 10 {
            0x30 + hi
        } else {
            0x61 + (hi - 10)
        };
        let lc: u8 = if lo < 10 {
            0x30 + lo
        } else {
            0x61 + (lo - 10)
        };
        assert(hc == hex_char(s@[i as int] as int / 16));
        assert(lc == hex_char(s@[i as int] as int % 16));
        r.push(hc);
        r.push(lc);
        assert(r@ =~= seq![0x30u8, 0x78u8] + hex_of_bytes(s@.take(i + 1)));
        i = i + 1;
    }
    assert(s@.take(i as int) =~= s@);
    r
}

} // verus!
