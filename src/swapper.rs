use vstd::prelude::*;

use crate::decimal::Decimal;
use crate::error::{check_view, ContractError, ErrorView};
use crate::route::{PoolDenoms, Route};
use crate::types::{Addr, Coin, CosmosMsg};

verus! {

/// A stored route with the pair of denoms it serves.
pub struct RouteEntry<R> {
    pub denom_in: String,
    pub denom_out: String,
    pub route: R,
}

/// The pair of denoms an entry serves.
pub open spec fn entry_key<R>(e: RouteEntry<R>) -> (Seq<char>, Seq<char>) {
    (e.denom_in@, e.denom_out@)
}

/// The routes held by a sequence of entries, keyed by their pair of denoms.
pub open spec fn route_map<R>(entries: Seq<RouteEntry<R>>) -> Map<(Seq<char>, Seq<char>), R>
    decreases entries.len(),
{
    if entries.len() == 0 {
        Map::empty()
    } else {
        route_map(entries.drop_last()).insert(entry_key(entries.last()), entries.last().route)
    }
}

/// No two entries serve the same pair of denoms.
pub open spec fn keys_unique<R>(entries: Seq<RouteEntry<R>>) -> bool {
    forall|i: int, j: int|
        0 <= i < entries.len() && 0 <= j < entries.len() && i != j ==> entry_key(entries[i])
            != entry_key(entries[j])
}

proof fn lemma_route_map_lookup<R>(entries: Seq<RouteEntry<R>>, k: (Seq<char>, Seq<char>))
    requires
        keys_unique(entries),
    ensures
        route_map(entries).contains_key(k) <==> exists|i: int|
            0 <= i < entries.len() && entry_key(#[trigger] entries[i]) == k,
        forall|i: int|
            0 <= i < entries.len() && entry_key(#[trigger] entries[i]) == k ==> route_map(entries)[k]
                == entries[i].route,
    decreases entries.len(),
{
    if entries.len() > 0 {
        let init = entries.drop_last();
        let n = entries.len() - 1;
        assert(keys_unique(init));
        lemma_route_map_lookup(init, k);
        if entry_key(entries[n]) == k {
            assert(route_map(entries).contains_key(k));
        } else {
            if route_map(init).contains_key(k) {
                let i = choose|i: int| 0 <= i < init.len() && entry_key(#[trigger] init[i]) == k;
                assert(entries[i] == init[i]);
            }
            if exists|i: int| 0 <= i < entries.len() && entry_key(#[trigger] entries[i]) == k {
                let i = choose|i: int| 0 <= i < entries.len() && entry_key(#[trigger] entries[i]) == k;
                assert(init[i] == entries[i]);
            }
        }
        assert forall|i: int|
            0 <= i < entries.len() && entry_key(#[trigger] entries[i]) == k implies route_map(
            entries,
        )[k] == entries[i].route by {
            if i < n {
                assert(init[i] == entries[i]);
            }
        }
    }
}

proof fn lemma_route_map_update<R>(entries: Seq<RouteEntry<R>>, i: int, e: RouteEntry<R>)
    requires
        keys_unique(entries),
        0 <= i < entries.len(),
        entry_key(entries[i]) == entry_key(e),
    ensures
        route_map(entries.update(i, e)) =~= route_map(entries).insert(entry_key(e), e.route),
        keys_unique(entries.update(i, e)),
    decreases entries.len(),
{
    let upd = entries.update(i, e);
    if i == entries.len() - 1 {
        assert(upd.drop_last() =~= entries.drop_last());
    } else {
        assert(upd.drop_last() =~= entries.drop_last().update(i, e));
        assert(keys_unique(entries.drop_last()));
        lemma_route_map_update(entries.drop_last(), i, e);
        assert(entry_key(entries.last()) != entry_key(e));
    }
}

/// The route-keeping part of a swapper contract: its owner and the route for
/// each pair of denoms.
pub struct SwapBase<R> {
    /// The only address that may store routes.
    owner: Addr,
    routes: Vec<RouteEntry<R>>,
}

pub open spec fn unauthorized<R>(user: Seq<char>, action: Seq<char>) -> ErrorView {
    ErrorView::Unauthorized { user, action }
}

impl<R: Route> SwapBase<R> {
    /// The stored routes by pair of denoms.
    pub closed spec fn spec_routes(&self) -> Map<(Seq<char>, Seq<char>), R> {
        route_map(self.routes@)
    }

    /// The text of the owner's address.
    pub closed spec fn spec_owner(&self) -> Seq<char> {
        self.owner@
    }

    pub fn owner(&self) -> (r: &Addr)
        ensures
            r@ == self.spec_owner(),
    {
        &self.owner
    }

    /// Each pair of denoms is stored at most once.
    pub closed spec fn wf(&self) -> bool {
        keys_unique(self.routes@)
    }

    /// A swapper owned by `owner`, with no routes.
    pub fn instantiate(owner: Addr) -> (r: SwapBase<R>)
        ensures
            r.wf(),
            r.spec_owner() == owner@,
            r.spec_routes() == Map::<(Seq<char>, Seq<char>), R>::empty(),
    {
        SwapBase { owner, routes: Vec::new() }
    }

    /// The index of the entry for the pair, if one is stored.
    fn find(&self, denom_in: &str, denom_out: &str) -> (r: Option<usize>)
        requires
            self.wf(),
        ensures
            match r {
                Some(i) => i < self.routes@.len() && entry_key(self.routes@[i as int]) == (
                denom_in@,
                denom_out@,
                ) && self.spec_routes().contains_key((denom_in@, denom_out@))
                    && self.spec_routes()[(denom_in@, denom_out@)] == self.routes@[i as int].route,
                None => !self.spec_routes().contains_key((denom_in@, denom_out@)),
            },
    {
        let din = String::from_str(denom_in);
        let dout = String::from_str(denom_out);
        let mut i: usize = 0;
        while i < self.routes.len()
            invariant
                i <= self.routes@.len(),
                self.wf(),
                din@ == denom_in@,
                dout@ == denom_out@,
                forall|j: int| 0 <= j < i ==> entry_key(#[trigger] self.routes@[j]) != (denom_in@, denom_out@),
            decreases self.routes.len() - i,
        {
            if self.routes[i].denom_in == din && self.routes[i].denom_out == dout {
                assert(entry_key(self.routes@[i as int]) == (denom_in@, denom_out@));
                proof {
                    lemma_route_map_lookup(self.routes@, (denom_in@, denom_out@));
                }
                return Some(i);
            }
            i = i + 1;
        }
        proof {
            lemma_route_map_lookup(self.routes@, (denom_in@, denom_out@));
        }
        None
    }

    /// The route stored for the pair of denoms.
    pub fn query_route(&self, denom_in: &str, denom_out: &str) -> (r: Result<&R, ContractError>)
        requires
            self.wf(),
        ensures
            match r {
                Ok(route) => self.spec_routes().contains_key((denom_in@, denom_out@))
                    && self.spec_routes()[(denom_in@, denom_out@)] == *route,
                Err(e) => !self.spec_routes().contains_key((denom_in@, denom_out@))
                    && e@ == (ErrorView::RouteNotFound { denom_in: denom_in@, denom_out: denom_out@ }),
            },
    {
        match self.find(denom_in, denom_out) {
            Some(i) => Ok(&self.routes[i].route),
            None => Err(
                ContractError::RouteNotFound {
                    denom_in: String::from_str(denom_in),
                    denom_out: String::from_str(denom_out),
                },
            ),
        }
    }

    /// Stores `route` for the pair of denoms, replacing any route stored for
    /// it. Only the owner may do so, and only with a route that leads from
    /// `denom_in` to `denom_out` through the given pools.
    pub fn set_route(
        &mut self,
        sender: &Addr,
        denom_in: String,
        denom_out: String,
        route: R,
        pools: &Vec<PoolDenoms>,
    ) -> (r: Result<(), ContractError>)
        requires
            old(self).wf(),
        ensures
            final(self).wf(),
            final(self).spec_owner() == old(self).spec_owner(),
            (check_view(r), final(self).spec_routes()) == set_route_outcome(
                old(self).spec_owner(),
                old(self).spec_routes(),
                sender@,
                denom_in@,
                denom_out@,
                route,
                pools@,
            ),
    {
        let owner = String::from_str(self.owner.as_str());
        let caller = String::from_str(sender.as_str());
        if !(owner == caller) {
            return Err(
                ContractError::Unauthorized {
                    user: caller,
                    action: String::from_str("set route"),
                },
            );
        }
        route.validate(pools, denom_in.as_str(), denom_out.as_str())?;
        match self.find(denom_in.as_str(), denom_out.as_str()) {
            Some(i) => {
                let entry = RouteEntry { denom_in, denom_out, route };
                proof {
                    lemma_route_map_update(self.routes@, i as int, entry);
                }
                self.routes.set(i, entry);
            },
            None => {
                proof {
                    lemma_route_map_lookup(self.routes@, (denom_in@, denom_out@));
                }
                let entry = RouteEntry { denom_in, denom_out, route };
                let ghost before = self.routes@;
                self.routes.push(entry);
                assert(self.routes@.drop_last() =~= before);
                assert(keys_unique(self.routes@)) by {
                    assert forall|a: int, b: int|
                        0 <= a < self.routes@.len() && 0 <= b < self.routes@.len() && a != b
                            implies entry_key(self.routes@[a]) != entry_key(self.routes@[b]) by {
                        if a < before.len() && b < before.len() {
                            assert(self.routes@[a] == before[a]);
                            assert(self.routes@[b] == before[b]);
                        } else if a < before.len() {
                            assert(self.routes@[a] == before[a]);
                        } else {
                            assert(self.routes@[b] == before[b]);
                        }
                    }
                }
            },
        }
        Ok(())
    }

    /// The instructions that swap `coin_in` into `denom_out` along the stored
    /// route and then have the contract settle the proceeds to `sender`:
    /// first the route's swap instruction, then a call of the contract to itself.
    pub fn swap_exact_in(
        &self,
        contract: &Addr,
        sender: &Addr,
        coin_in: &Coin,
        denom_out: &str,
        slippage: Decimal,
        step_prices: &Vec<Decimal>,
    ) -> (r: Result<Vec<CosmosMsg>, ContractError>)
        requires
            self.wf(),
        ensures
            !self.spec_routes().contains_key((coin_in.denom@, denom_out@)) ==> check_view_msgs(r)
                == Some(
                ErrorView::RouteNotFound { denom_in: coin_in.denom@, denom_out: denom_out@ },
            ),
            self.spec_routes().contains_key((coin_in.denom@, denom_out@)) ==> {
                let route = self.spec_routes()[(coin_in.denom@, denom_out@)];
                match r {
                    Ok(msgs) => {
                        &&& route.spec_swap_error(*coin_in, slippage, step_prices@) is None
                        &&& msgs@.len() == 2
                        &&& route.spec_swap_msg(
                            contract@,
                            *coin_in,
                            slippage,
                            step_prices@,
                            msgs@[0],
                        )
                        &&& is_transfer_msg(
                            msgs@[1],
                            contract@,
                            sender@,
                            coin_in.denom@,
                            denom_out@,
                        )
                    },
                    Err(e) => route.spec_swap_error(*coin_in, slippage, step_prices@) == Some(e@),
                }
            },
    {
        let route = self.query_route(coin_in.denom.as_str(), denom_out)?;
        let swap_msg = route.build_exact_in_swap_msg(contract, coin_in, slippage, step_prices)?;
        let transfer_msg = CosmosMsg::TransferResult {
            contract_addr: contract.duplicate(),
            recipient: sender.duplicate(),
            denom_in: coin_in.denom.clone(),
            denom_out: String::from_str(denom_out),
        };
        let mut msgs: Vec<CosmosMsg> = Vec::new();
        msgs.push(swap_msg);
        msgs.push(transfer_msg);
        Ok(msgs)
    }

    /// Settles a swap: sends `recipient` the contract's non-zero balances of
    /// the two denoms. Only the contract itself may ask for this.
    /// Settling a swap is an internal callback: only the contract itself may
    /// ask for it.
    pub fn authorize_transfer(&self, contract: &Addr, sender: &Addr) -> (r: Result<(), ContractError>)
        ensures
            sender@ == contract@ <==> r is Ok,
            r matches Err(e) ==> e@ == unauthorized::<R>(sender@, "transfer result"@),
    {
        let own = String::from_str(contract.as_str());
        let caller = String::from_str(sender.as_str());
        if !(own == caller) {
            return Err(
                ContractError::Unauthorized {
                    user: caller,
                    action: String::from_str("transfer result"),
                },
            );
        }
        Ok(())
    }

    pub fn transfer_result(
        &self,
        contract: &Addr,
        sender: &Addr,
        recipient: Addr,
        denom_in_balance: Coin,
        denom_out_balance: Coin,
    ) -> (r: Result<CosmosMsg, ContractError>)
        ensures
            sender@ != contract@ ==> (r matches Err(e) && e@ == unauthorized::<R>(
                sender@,
                "transfer result"@,
            )),
            sender@ == contract@ ==> (r matches Ok(m) && is_bank_send(
                m,
                recipient@,
                nonzero_coins(denom_in_balance, denom_out_balance),
            )),
    {
        self.authorize_transfer(contract, sender)?;
        let mut amount: Vec<Coin> = Vec::new();
        let ghost a = denom_in_balance;
        let ghost b = denom_out_balance;
        if denom_in_balance.amount != 0 {
            amount.push(denom_in_balance);
        }
        if denom_out_balance.amount != 0 {
            amount.push(denom_out_balance);
        }
        assert(amount@ =~= nonzero_coins(a, b));
        Ok(CosmosMsg::BankSend { to_address: recipient, amount })
    }
}

/// The error of a fallible computation of instructions, seen through its view.
pub open spec fn check_view_msgs(r: Result<Vec<CosmosMsg>, ContractError>) -> Option<ErrorView> {
    match r {
        Ok(_) => None,
        Err(e) => Some(e@),
    }
}

/// Whether `msg` is the contract's call to itself that settles a swap of
/// `denom_in` into `denom_out` to `recipient`.
pub open spec fn is_transfer_msg(
    msg: CosmosMsg,
    contract: Seq<char>,
    recipient: Seq<char>,
    denom_in: Seq<char>,
    denom_out: Seq<char>,
) -> bool {
    match msg {
        CosmosMsg::TransferResult { contract_addr, recipient: to, denom_in: i, denom_out: o } => {
            &&& contract_addr@ == contract
            &&& to@ == recipient
            &&& i@ == denom_in
            &&& o@ == denom_out
        },
        _ => false,
    }
}

/// Whether `msg` sends exactly `amount` to `to`.
pub open spec fn is_bank_send(msg: CosmosMsg, to: Seq<char>, amount: Seq<Coin>) -> bool {
    match msg {
        CosmosMsg::BankSend { to_address, amount: a } => to_address@ == to && a@ == amount,
        _ => false,
    }
}

/// The two balances, in order, without those that are zero.
pub open spec fn nonzero_coins(a: Coin, b: Coin) -> Seq<Coin> {
    if a.amount != 0 && b.amount != 0 {
        seq![a, b]
    } else if a.amount != 0 {
        seq![a]
    } else if b.amount != 0 {
        seq![b]
    } else {
        Seq::empty()
    }
}

/// What storing a route does: the error, if any, and the routes afterwards.
/// Only the owner may store a route, and only one that leads from `denom_in`
/// to `denom_out`; it replaces any route stored for that pair.
pub open spec fn set_route_outcome<R: Route>(
    owner: Seq<char>,
    routes: Map<(Seq<char>, Seq<char>), R>,
    sender: Seq<char>,
    denom_in: Seq<char>,
    denom_out: Seq<char>,
    route: R,
    pools: Seq<PoolDenoms>,
) -> (Option<ErrorView>, Map<(Seq<char>, Seq<char>), R>) {
    if sender != owner {
        (Some(unauthorized::<R>(sender, "set route"@)), routes)
    } else {
        match route.spec_validate(pools, denom_in, denom_out) {
            Some(e) => (Some(e), routes),
            None => (None, routes.insert((denom_in, denom_out), route)),
        }
    }
}

/// Storing the same route a second time succeeds whenever the first time did,
/// and leaves the routes exactly as the first time left them.
pub proof fn lemma_set_route_idempotent<R: Route>(
    owner: Seq<char>,
    routes: Map<(Seq<char>, Seq<char>), R>,
    sender: Seq<char>,
    denom_in: Seq<char>,
    denom_out: Seq<char>,
    route: R,
    pools: Seq<PoolDenoms>,
)
    requires
        set_route_outcome(owner, routes, sender, denom_in, denom_out, route, pools).0 is None,
    ensures
        ({
            let once = set_route_outcome(owner, routes, sender, denom_in, denom_out, route, pools).1;
            set_route_outcome(owner, once, sender, denom_in, denom_out, route, pools) == (
                None::<ErrorView>,
                once,
            )
        }),
{
    let once = routes.insert((denom_in, denom_out), route);
    assert(once.insert((denom_in, denom_out), route) =~= once);
}

} // verus!
