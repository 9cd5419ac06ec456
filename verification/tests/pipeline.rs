use reserve_ingest::coordinator::Coordinator;
use reserve_ingest::processor::ingest_block;
use reserve_ingest::reserve::{decode_reserve_data, decode_reserve_list, ReserveDescriptor};

/// An ABI-encoded reserve-data result: twelve 32-byte big-endian words.
fn reserve_data_bytes(words: [u128; 12]) -> Vec<u8> {
    let mut out = Vec::new();
    for w in words {
        out.extend_from_slice(&[0u8; 16]);
        out.extend_from_slice(&w.to_be_bytes());
    }
    out
}

fn sample_words() -> [u128; 12] {
    [
        1,                                      // unbacked
        2,                                      // accrued to treasury
        100,                                    // total aToken
        20,                                     // total stable debt
        30,                                     // total variable debt
        50_000_000_000_000_000_000_000_000,     // liquidity rate: 0.05 ray
        80_000_000_000_000_000_000_000_000,     // variable borrow rate: 0.08 ray
        3,                                      // stable borrow rate
        4,                                      // average stable borrow rate
        5,                                      // liquidity index
        6,                                      // variable borrow index
        1_700_000_000,                          // last update timestamp
    ]
}

fn descriptor(symbol: &str, byte: u8) -> ReserveDescriptor {
    ReserveDescriptor { symbol: symbol.to_owned(), address: vec![byte; 20] }
}

#[test]
fn reserve_data_decodes_word_for_word() {
    let raw = reserve_data_bytes(sample_words());
    let d = decode_reserve_data(&raw).expect("well-formed words must decode");
    assert_eq!(d.unbacked, 1);
    assert_eq!(d.accrued_to_treasury_scaled, 2);
    assert_eq!(d.total_a_token, 100);
    assert_eq!(d.total_stable_debt, 20);
    assert_eq!(d.total_variable_debt, 30);
    assert_eq!(d.liquidity_rate, 50_000_000_000_000_000_000_000_000);
    assert_eq!(d.variable_borrow_rate, 80_000_000_000_000_000_000_000_000);
    assert_eq!(d.stable_borrow_rate, 3);
    assert_eq!(d.average_stable_borrow_rate, 4);
    assert_eq!(d.liquidity_index, 5);
    assert_eq!(d.variable_borrow_index, 6);
    assert_eq!(d.last_update_timestamp, 1_700_000_000);
}

#[test]
fn reserve_data_rejects_malformed_input() {
    // Too short for twelve words.
    assert!(decode_reserve_data(&[0u8; 383]).is_none());
    // A word beyond u128: nonzero byte among the high sixteen.
    let mut raw = reserve_data_bytes(sample_words());
    raw[32 * 3] = 1;
    assert!(decode_reserve_data(&raw).is_none());
    // A timestamp beyond u64.
    let mut words = sample_words();
    words[11] = u128::from(u64::MAX) + 1;
    assert!(decode_reserve_data(&reserve_data_bytes(words)).is_none());
}

#[test]
fn reserve_list_decodes_symbols_and_addresses() {
    let encoded = ethabi::encode(&[ethabi::Token::Array(vec![
        ethabi::Token::Tuple(vec![
            ethabi::Token::String("USDC".to_owned()),
            ethabi::Token::Address(ethabi::Address::from_slice(&[0x11; 20])),
        ]),
        ethabi::Token::Tuple(vec![
            ethabi::Token::String("WETH".to_owned()),
            ethabi::Token::Address(ethabi::Address::from_slice(&[0x22; 20])),
        ]),
    ])]);
    let reserves = decode_reserve_list(&encoded).expect("encoded list must decode");
    assert_eq!(reserves.len(), 2);
    assert_eq!(reserves[0].symbol, "USDC");
    assert_eq!(reserves[0].address, vec![0x11; 20]);
    assert_eq!(reserves[1].symbol, "WETH");
    assert_eq!(reserves[1].address, vec![0x22; 20]);
}

#[test]
fn reserve_list_rejects_garbage() {
    assert!(decode_reserve_list(&[0xde, 0xad, 0xbe, 0xef]).is_none());
}

#[test]
fn one_failed_reserve_is_isolated() {
    // Three reserves at block 200; the middle fetch fails.
    let mut c = Coordinator::new(12, None);
    let reserves = Some(vec![
        descriptor("USDC", 0x11),
        descriptor("WETH", 0x22),
        descriptor("DAI", 0x33),
    ]);
    let good = reserve_data_bytes(sample_words());
    let raws = vec![Some(good.clone()), None, Some(good)];
    let out = ingest_block(&mut c, 200, &reserves, &raws);
    assert_eq!(out.records.len(), 3);
    assert!(out.records[0].is_some());
    assert!(out.records[1].is_none());
    assert!(out.records[2].is_some());
    assert!(out.confirmed);
    assert_eq!(out.checkpoint, Some(200));
    assert_eq!(c.last_confirmed_block(), 200);
}

#[test]
fn failed_enumeration_confirms_nothing() {
    let mut c = Coordinator::new(12, None);
    assert!(c.submit(300));
    assert_eq!(c.next_block(), Some(300));
    let out = ingest_block(&mut c, 300, &None, &Vec::new());
    assert!(out.records.is_empty());
    assert!(!out.confirmed);
    assert_eq!(out.checkpoint, None);
    assert_eq!(c.last_confirmed_block(), 0, "checkpoint unchanged");
    // The block stays eligible: a later notification resubmits it.
    assert!(c.submit(300));
    assert_eq!(c.next_block(), Some(300));
}

#[test]
fn out_of_order_notifications_are_processed_in_order() {
    // Notifications arrive as [105, 103, 105, 104]; processing must confirm
    // 103, 104, 105 with the duplicate collapsed.
    let mut c = Coordinator::new(12, None);
    for b in [105, 103, 105, 104] {
        assert!(c.submit(b));
    }
    let good = reserve_data_bytes(sample_words());
    let mut confirmed = Vec::new();
    while let Some(block) = c.next_block() {
        let reserves = Some(vec![descriptor("USDC", 0x11)]);
        let raws = vec![Some(good.clone())];
        let out = ingest_block(&mut c, block, &reserves, &raws);
        assert!(out.confirmed);
        confirmed.push(block);
    }
    assert_eq!(confirmed, vec![103, 104, 105]);
    assert_eq!(c.last_confirmed_block(), 105);
}

#[test]
fn record_fields_are_exact() {
    let mut c = Coordinator::new(12, None);
    let reserves = Some(vec![descriptor("USDC", 0xab)]);
    let raws = vec![Some(reserve_data_bytes(sample_words()))];
    let out = ingest_block(&mut c, 42, &reserves, &raws);
    let rec = out.records[0].as_ref().expect("record must be produced");
    assert_eq!(rec.chain, "Base Mainnet");
    assert_eq!(rec.market, "Aave");
    assert_eq!(rec.version, "3");
    assert_eq!(rec.token_symbol, "USDC");
    assert_eq!(rec.token_address, b"0xabababababababababababababababababababab".to_vec());
    assert_eq!(rec.block, 42);
    assert_eq!(rec.total_supply, b"100".to_vec());
    assert_eq!(rec.total_borrow, b"50".to_vec());
    assert_eq!(rec.utilization_rate, 50_000_000, "50 of 100 supplied: 50%");
    assert_eq!(rec.supply_rate, 5_000_000, "0.05 ray: 5%");
    assert_eq!(rec.borrow_rate, 8_000_000, "0.08 ray: 8%");
}
