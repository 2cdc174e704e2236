use vstd::prelude::*;

use crate::account::Address;

verus! {

/// Which side of a swap the caller fixes.
#[derive(Clone, Copy, Debug, PartialEq, Eq, Structural)]
pub enum SwapMode {
    /// The input amount is given and the output is computed.
    ExactIn,
    /// The output amount is given and the input is computed.
    ExactOut,
}

/// A swap request from the routing host.
#[derive(Clone, Copy, Debug)]
pub struct SwapParams {
    pub swap_mode: SwapMode,
    pub in_amount: u64,
    pub out_amount: u64,
    pub source_mint: Address,
    pub destination_mint: Address,
    pub source_token_account: Address,
    pub destination_token_account: Address,
    /// The user or the program authority over the source token account.
    pub token_transfer_authority: Address,
    /// The user making the swap.
    pub user: Address,
    /// Who pays for the extra SOL the swap's accounts need.
    pub payer: Address,
    pub jupiter_program_id: Address,
    /// Whether missing dynamic accounts may be replaced by the default address.
    pub missing_dynamic_accounts_as_default: bool,
}

/// Why a swap request is refused.
#[derive(Clone, Copy, Debug, PartialEq, Eq, Structural)]
pub enum SwapError {
    /// Only exact-in swaps are quoted.
    ExactOutNotSupported,
    /// Every account must be resolved; placeholders are refused.
    DynamicAccountsNotSupported,
}

impl SwapError {
    pub open spec fn message_spec(&self) -> Seq<char> {
        match self {
            SwapError::ExactOutNotSupported => "ExactOut not supported"@,
            SwapError::DynamicAccountsNotSupported => "Dynamic accounts replacement not supported"@,
        }
    }

    /// The cause, in words.
    pub fn message(&self) -> (r: String)
        ensures
            r@ == self.message_spec(),
    {
        match self {
            SwapError::ExactOutNotSupported => "ExactOut not supported".to_owned(),
            SwapError::DynamicAccountsNotSupported => "Dynamic accounts replacement not supported".to_owned(),
        }
    }
}

/// Accepts an exact-in request that asks for no placeholder accounts, and
/// hands it back as it came.
pub fn validate_swap_params<'a>(params: &'a SwapParams) -> (r: Result<&'a SwapParams, SwapError>)
    ensures
        params.swap_mode == SwapMode::ExactOut ==> r == Err::<&SwapParams, SwapError>(
            SwapError::ExactOutNotSupported,
        ),
        params.swap_mode == SwapMode::ExactIn && params.missing_dynamic_accounts_as_default ==> r
            == Err::<&SwapParams, SwapError>(SwapError::DynamicAccountsNotSupported),
        params.swap_mode == SwapMode::ExactIn && !params.missing_dynamic_accounts_as_default ==> r
            == Ok::<&SwapParams, SwapError>(params),
{
    if params.swap_mode == SwapMode::ExactOut {
        Err(SwapError::ExactOutNotSupported)
    } else if params.missing_dynamic_accounts_as_default {
        Err(SwapError::DynamicAccountsNotSupported)
    } else {
        Ok(params)
    }
}

} // verus!
