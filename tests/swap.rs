use hylo_jupiter::{validate_swap_params, Address, SwapError, SwapMode, SwapParams};

fn params(swap_mode: SwapMode, missing_dynamic_accounts_as_default: bool) -> SwapParams {
    SwapParams {
        swap_mode,
        in_amount: 1_000,
        out_amount: 0,
        source_mint: Address::new([1; 32]),
        destination_mint: Address::new([2; 32]),
        source_token_account: Address::new([3; 32]),
        destination_token_account: Address::new([4; 32]),
        token_transfer_authority: Address::new([5; 32]),
        user: Address::new([6; 32]),
        payer: Address::new([7; 32]),
        jupiter_program_id: Address::new([8; 32]),
        missing_dynamic_accounts_as_default,
    }
}

#[test]
fn exact_out_is_refused() {
    let p = params(SwapMode::ExactOut, false);
    let e = validate_swap_params(&p).unwrap_err();
    assert_eq!(e, SwapError::ExactOutNotSupported);
    assert_eq!(e.message(), "ExactOut not supported");
    assert_eq!(validate_swap_params(&params(SwapMode::ExactOut, true)).unwrap_err(), SwapError::ExactOutNotSupported);
}

#[test]
fn default_dynamic_accounts_are_refused() {
    let p = params(SwapMode::ExactIn, true);
    let e = validate_swap_params(&p).unwrap_err();
    assert_eq!(e, SwapError::DynamicAccountsNotSupported);
    assert_eq!(e.message(), "Dynamic accounts replacement not supported");
}

#[test]
fn exact_in_is_handed_back() {
    let p = params(SwapMode::ExactIn, false);
    let r = validate_swap_params(&p).unwrap();
    assert!(std::ptr::eq(r, &p));
    assert_eq!(r.in_amount, 1_000);
}
