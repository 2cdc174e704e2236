//! Quoting adapter of the Hylo protocol for the Jupiter routing host: fee
//! percentages, quote assembly, account lookup and swap-parameter checks.

mod account;
mod decimal;
mod quote;
mod swap;
mod tokens;

pub use account::{account_map_get, account_spl_get, AccountError, AccountMap, Address};
pub use decimal::{
    decimal_from_quotient, fee_pct_decimal, pow10, Decimal, QuoteError, UFix64,
};
pub use quote::{operation_to_quote, quote, OperationOutput, Quote};
pub use swap::{validate_swap_params, SwapError, SwapMode, SwapParams};
pub use tokens::{TokenMint, HYLOSOL, JITOSOL, LST};
