use vstd::prelude::*;

verus! {

/// What an index-fund app keeps: the address of its liquidity token and of the account
/// controller that manages it.
#[derive(Clone, Debug)]
pub struct State {
    pub liquidity_token_addr: String,
    pub manager_addr: String,
}

} // verus!
