use hylo_jupiter::{
    operation_to_quote, quote, Address, OperationOutput, QuoteError, UFix64, HYLOSOL, JITOSOL,
};

fn mint(b: u8) -> Address {
    Address::new([b; 32])
}

fn op(fee: u64, base: u64) -> OperationOutput {
    OperationOutput {
        in_amount: UFix64::new(1_000_000_000, -9),
        out_amount: UFix64::new(987_654_321, -6),
        fee_amount: UFix64::new(fee, -9),
        fee_base: UFix64::new(base, -9),
        fee_mint: mint(7),
    }
}

#[test]
fn quote_keeps_raw_magnitudes() {
    let q = operation_to_quote(op(5, 100)).unwrap();
    assert_eq!(q.in_amount, 1_000_000_000);
    assert_eq!(q.out_amount, 987_654_321);
    assert_eq!(q.fee_amount, 5);
    assert_eq!(q.fee_mint.bytes, [7u8; 32]);
    assert_eq!((q.fee_pct.mantissa, q.fee_pct.scale), (5, 2));
}

#[test]
fn quote_with_zero_fee_base() {
    let q = operation_to_quote(op(42, 0)).unwrap();
    assert_eq!(q.fee_amount, 42);
    assert_eq!((q.fee_pct.mantissa, q.fee_pct.scale), (0, 0));
}

#[test]
fn quote_hands_the_amount_at_the_input_exponent() {
    let q = quote::<JITOSOL, _>(
        |x: UFix64| {
            assert_eq!(x.exp, -9);
            Ok(OperationOutput { in_amount: x, ..op(1, 4) })
        },
        250,
    )
    .unwrap();
    assert_eq!(q.in_amount, 250);
    assert_eq!((q.fee_pct.mantissa, q.fee_pct.scale), (25, 2));
}

#[test]
fn quote_passes_operation_errors_on() {
    let r = quote::<HYLOSOL, _>(|_x: UFix64| Err(QuoteError::Operation("insufficient reserves".to_string())), 10);
    match r {
        Err(QuoteError::Operation(m)) => assert_eq!(m, "insufficient reserves"),
        other => panic!("unexpected {:?}", other),
    }
}
