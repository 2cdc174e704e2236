use vstd::prelude::*;

verus! {

/// A token type whose amounts carry a fixed decimal exponent.
pub trait TokenMint {
    /// The exponent of the token's amounts.
    spec fn exp_spec() -> i8;

    fn exp() -> (r: i8)
        ensures
            r == Self::exp_spec(),
    ;
}

/// A liquid staking token: its amounts carry nine decimal places.
pub trait LST: TokenMint {
    proof fn lemma_nine_decimals()
        ensures
            Self::exp_spec() == -9,
    ;
}

/// Jito's staked SOL.
pub struct JITOSOL;

/// Hylo's staked SOL.
pub struct HYLOSOL;

impl TokenMint for JITOSOL {
    open spec fn exp_spec() -> i8 {
        -9i8
    }

    fn exp() -> (r: i8) {
        -9
    }
}

impl LST for JITOSOL {
    proof fn lemma_nine_decimals() {
    }
}

impl TokenMint for HYLOSOL {
    open spec fn exp_spec() -> i8 {
        -9i8
    }

    fn exp() -> (r: i8) {
        -9
    }
}

impl LST for HYLOSOL {
    proof fn lemma_nine_decimals() {
    }
}

} // verus!
