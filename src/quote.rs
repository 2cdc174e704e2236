use vstd::prelude::*;

use crate::account::Address;
use crate::decimal::{fee_pct_decimal, fee_pct_spec, Decimal, QuoteError, UFix64};
use crate::tokens::TokenMint;

verus! {

/// What the protocol state computes for one exact-in operation.
#[derive(Clone, Copy, Debug)]
pub struct OperationOutput {
    pub in_amount: UFix64,
    pub out_amount: UFix64,
    pub fee_amount: UFix64,
    pub fee_base: UFix64,
    pub fee_mint: Address,
}

impl OperationOutput {
    /// The fee and its base are amounts of the same token.
    pub open spec fn wf(&self) -> bool {
        self.fee_amount.exp == self.fee_base.exp
    }
}

/// A quote for the routing host: raw magnitudes, the fee's token and the
/// fee's share of its base.
#[derive(Clone, Copy, Debug)]
pub struct Quote {
    pub in_amount: u64,
    pub out_amount: u64,
    pub fee_amount: u64,
    pub fee_mint: Address,
    pub fee_pct: Decimal,
}

/// The quote made from `op`.
pub open spec fn quote_spec(op: OperationOutput) -> Result<Quote, QuoteError> {
    match fee_pct_spec(op.fee_amount.bits, op.fee_base.bits) {
        Ok(fee_pct) => Ok(
            Quote {
                in_amount: op.in_amount.bits,
                out_amount: op.out_amount.bits,
                fee_amount: op.fee_amount.bits,
                fee_mint: op.fee_mint,
                fee_pct,
            },
        ),
        Err(e) => Err(e),
    }
}

/// Turns an operation's output into a quote.
pub fn operation_to_quote(op: OperationOutput) -> (r: Result<Quote, QuoteError>)
    requires
        op.wf(),
    ensures
        r == quote_spec(op),
        r matches Ok(q) ==> {
            &&& q.in_amount == op.in_amount.bits
            &&& q.out_amount == op.out_amount.bits
            &&& q.fee_amount == op.fee_amount.bits
            &&& q.fee_mint == op.fee_mint
        },
        op.fee_base.bits != 0 ==> (r matches Ok(q) && q.fee_pct.approximates(
            op.fee_amount.bits as int,
            op.fee_base.bits as int,
        )),
{
    let fee_pct = match fee_pct_decimal(op.fee_amount, op.fee_base) {
        Ok(d) => d,
        Err(e) => {
            return Err(e);
        },
    };
    Ok(
        Quote {
            in_amount: op.in_amount.bits,
            out_amount: op.out_amount.bits,
            fee_amount: op.fee_amount.bits,
            fee_mint: op.fee_mint,
            fee_pct,
        },
    )
}

/// The quote made from what the protocol state returned.
pub open spec fn quote_of_output(res: Result<OperationOutput, QuoteError>) -> Result<
    Quote,
    QuoteError,
> {
    match res {
        Ok(op) => quote_spec(op),
        Err(e) => Err(e),
    }
}

/// An exact-in quote of `amount` of the token `IN`: `output` is the protocol
/// state's operation for the chosen pair, handed the amount at `IN`'s
/// exponent.
pub fn quote<IN: TokenMint, F: Fn(UFix64) -> Result<OperationOutput, QuoteError>>(
    output: F,
    amount: u64,
) -> (r: Result<Quote, QuoteError>)
    requires
        forall|x: UFix64| #[trigger] output.requires((x,)),
        forall|x: UFix64, res: Result<OperationOutput, QuoteError>|
            output.ensures((x,), res) ==> (res matches Ok(op) ==> op.wf()),
    ensures
        exists|res: Result<OperationOutput, QuoteError>|
            output.ensures((UFix64 { bits: amount, exp: IN::exp_spec() },), res) && r
                == quote_of_output(res),
{
    let x = UFix64::new(amount, IN::exp());
    let res = output(x);
    let ghost called = res;
    let r = match res {
        Ok(op) => operation_to_quote(op),
        Err(e) => Err(e),
    };
    assert(output.ensures((x,), called) && r == quote_of_output(called));
    r
}

} // verus!
