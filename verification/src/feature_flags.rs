//! Features that an account can have.

use vstd::prelude::*;

verus! {

/// A feature of an account.
#[derive(Debug, Clone, Copy, PartialEq, Eq, Structural)]
pub enum FeatureFlag {
    /// The account may be in debt. Charges are still recorded, and caps of keys
    /// still hold.
    AllowNegativeBalance,
}

impl FeatureFlag {
    /// The feature's name in the database.
    pub fn as_str(self) -> (r: &'static str)
        ensures
            r@ == "ALLOW_NEGATIVE_BALANCE"@,
    {
        match self {
            FeatureFlag::AllowNegativeBalance => "ALLOW_NEGATIVE_BALANCE",
        }
    }
}

}
