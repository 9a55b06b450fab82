use vstd::prelude::*;

use crate::astroport::SwapOperation;
use crate::osmosis::SwapAmountInRoute;

verus! {

/// An account or contract address. Produced only by `Addr::unchecked`, which
/// the host calls after it has validated the text.
#[derive(Clone, Debug)]
pub struct Addr {
    value: String,
}

impl View for Addr {
    type V = Seq<char>;

    closed spec fn view(&self) -> Seq<char> {
        self.value@
    }
}

impl Addr {
    /// An address with the given text, taken as valid.
    pub fn unchecked(s: &str) -> (r: Addr)
        ensures
            r@ == s@,
    {
        Addr { value: String::from_str(s) }
    }

    pub fn as_str(&self) -> (r: &str)
        ensures
            r@ == self@,
    {
        self.value.as_str()
    }

    /// A copy of the address.
    pub fn duplicate(&self) -> (r: Addr)
        ensures
            r@ == self@,
    {
        Addr { value: self.value.clone() }
    }
}

/// An amount of one denom.
#[derive(Clone, Debug)]
pub struct Coin {
    pub denom: String,
    pub amount: u128,
}

impl Coin {
    /// A copy of the coin.
    pub fn duplicate(&self) -> (r: Coin)
        ensures
            r == *self,
    {
        Coin { denom: self.denom.clone(), amount: self.amount }
    }
}

/// An instruction that a contract hands to the host to run after it returns.
#[derive(Clone, Debug)]
pub enum CosmosMsg {
    /// Run a chain of Astroport swap operations through the router, paying `funds`.
    AstroportSwap { router: Addr, operations: Vec<SwapOperation>, funds: Vec<Coin> },
    /// Swap `token_in` through the Osmosis pools of `routes`, receiving at least
    /// `token_out_min_amount`.
    OsmosisSwap {
        sender: Addr,
        routes: Vec<SwapAmountInRoute>,
        token_in: Coin,
        token_out_min_amount: u128,
    },
    /// Call the swapper contract at `contract_addr` to settle a swap to `recipient`.
    TransferResult { contract_addr: Addr, recipient: Addr, denom_in: String, denom_out: String },
    /// Send coins to an address.
    BankSend { to_address: Addr, amount: Vec<Coin> },
}

} // verus!
