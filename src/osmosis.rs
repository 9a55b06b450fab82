use vstd::prelude::*;

use crate::decimal::{
    decimal_mul_spec, digits, mul_ratio_spec, u64_to_string, uint_multiply_ratio, Decimal,
    DECIMAL_FRACTIONAL,
};
use crate::error::{ContractError, ErrorView};
use crate::route::{
    contains_denom, empty_route_reason, route_error, texts, validate_route, PoolDenoms, Route,
    RouteStep,
};
use crate::types::{Addr, Coin, CosmosMsg};

verus! {

/// One hop of an Osmosis route: the pool to swap through and the denom to receive.
#[derive(Clone, Debug)]
pub struct SwapAmountInRoute {
    pub pool_id: u64,
    pub token_out_denom: String,
}

pub fn copy_swap_amount_in_route(s: &SwapAmountInRoute) -> (r: SwapAmountInRoute)
    ensures
        r == *s,
{
    SwapAmountInRoute { pool_id: s.pool_id, token_out_denom: s.token_out_denom.clone() }
}

/// A step of an Osmosis route.
#[derive(Clone, Debug)]
pub struct OsmosisRouteStep(pub SwapAmountInRoute);

/// The contents of the first pool with the given id.
pub open spec fn find_pool(pools: Seq<PoolDenoms>, pool_id: u64) -> Option<PoolDenoms>
    decreases pools.len(),
{
    if pools.len() == 0 {
        None
    } else if pools[0].pool_id == pool_id {
        Some(pools[0])
    } else {
        find_pool(pools.drop_first(), pool_id)
    }
}

/// The denoms of the first pool with the given id, if one is listed.
pub fn pool_liquidity_denoms(pools: &Vec<PoolDenoms>, pool_id: u64) -> (r: Option<&Vec<String>>)
    ensures
        match find_pool(pools@, pool_id) {
            None => r is None,
            Some(p) => r == Some(&p.denoms),
        },
{
    let mut i: usize = 0;
    assert(pools@.skip(0) =~= pools@);
    while i < pools.len()
        invariant
            i <= pools@.len(),
            find_pool(pools@, pool_id) == find_pool(pools@.skip(i as int), pool_id),
        decreases pools.len() - i,
    {
        assert(pools@.skip(i as int)[0] == pools@[i as int]);
        assert(pools@.skip(i as int).drop_first() =~= pools@.skip(i + 1));
        if pools[i].pool_id == pool_id {
            return Some(&pools[i].denoms);
        }
        i = i + 1;
    }
    assert(pools@.skip(i as int) =~= Seq::<PoolDenoms>::empty());
    None
}

pub open spec fn pool_not_found_reason(pool_id: u64) -> Seq<char> {
    "pool "@ + digits(pool_id as nat) + " not found"@
}

pub open spec fn pool_missing_input_reason(pool_id: u64, denom: Seq<char>) -> Seq<char> {
    "pool "@ + digits(pool_id as nat) + " does not contain input denom "@ + denom
}

pub open spec fn pool_missing_output_reason(pool_id: u64, denom: Seq<char>) -> Seq<char> {
    "pool "@ + digits(pool_id as nat) + " does not contain output denom "@ + denom
}

fn pool_reason(pool_id: u64, tail: &str) -> (r: String)
    ensures
        r@ == "pool "@ + digits(pool_id as nat) + tail@,
{
    let mut s = String::from_str("pool ");
    let id = u64_to_string(pool_id);
    s.append(id.as_str());
    s.append(tail);
    s
}

impl OsmosisRouteStep {
    pub fn ask_denom(&self) -> (r: String)
        ensures
            r@ == self.0.token_out_denom@,
    {
        self.0.token_out_denom.clone()
    }
}

impl RouteStep for OsmosisRouteStep {
    open spec fn spec_denom_out(&self) -> Result<Seq<char>, ErrorView> {
        Ok(self.0.token_out_denom@)
    }

    /// The pool must be listed and hold both the input and the output denom.
    open spec fn spec_validate(&self, pools: Seq<PoolDenoms>, denom_in: Seq<char>) -> Option<
        ErrorView,
    > {
        match find_pool(pools, self.0.pool_id) {
            None => Some(ErrorView::InvalidRoute { reason: pool_not_found_reason(self.0.pool_id) }),
            Some(p) => if !texts(p.denoms@).contains(denom_in) {
                Some(
                    ErrorView::InvalidRoute {
                        reason: pool_missing_input_reason(self.0.pool_id, denom_in),
                    },
                )
            } else if !texts(p.denoms@).contains(self.0.token_out_denom@) {
                Some(
                    ErrorView::InvalidRoute {
                        reason: pool_missing_output_reason(
                            self.0.pool_id,
                            self.0.token_out_denom@,
                        ),
                    },
                )
            } else {
                None
            },
        }
    }

    fn denom_out(&self) -> (r: Result<String, ContractError>) {
        Ok(self.ask_denom())
    }

    fn validate(&self, pools: &Vec<PoolDenoms>, denom_in: &str) -> (r: Result<(), ContractError>) {
        let pool_id = self.0.pool_id;
        let denoms = match pool_liquidity_denoms(pools, pool_id) {
            Some(d) => d,
            None => {
                return Err(
                    ContractError::InvalidRoute { reason: pool_reason(pool_id, " not found") },
                );
            },
        };
        let din = String::from_str(denom_in);
        if !contains_denom(denoms, &din) {
            let mut reason = pool_reason(pool_id, " does not contain input denom ");
            reason.append(denom_in);
            return Err(ContractError::InvalidRoute { reason });
        }
        let ask = self.ask_denom();
        if !contains_denom(denoms, &ask) {
            let mut reason = pool_reason(pool_id, " does not contain output denom ");
            reason.append(ask.as_str());
            return Err(ContractError::InvalidRoute { reason });
        }
        Ok(())
    }
}

/// A route through Osmosis pools.
#[derive(Clone, Debug)]
pub struct OsmosisRoute(pub Vec<OsmosisRouteStep>);

/// The hops of a sequence of steps.
pub open spec fn step_routes(steps: Seq<OsmosisRouteStep>) -> Seq<SwapAmountInRoute> {
    steps.map_values(|s: OsmosisRouteStep| s.0)
}

/// The product of the first prices, starting from one, rounded down after
/// each multiplication; `None` once one overflows.
pub open spec fn price_product(prices: Seq<Decimal>) -> Option<int>
    decreases prices.len(),
{
    if prices.len() == 0 {
        Some(DECIMAL_FRACTIONAL as int)
    } else {
        match price_product(prices.drop_last()) {
            None => None,
            Some(p) => decimal_mul_spec(p, prices.last().atomics as int),
        }
    }
}

/// The amount of the output denom that `amount_in` buys at the product of the
/// hop prices, rounded down; `None` on overflow.
pub open spec fn out_amount_spec(amount_in: u128, prices: Seq<Decimal>) -> Option<int> {
    match price_product(prices) {
        None => None,
        Some(p) => mul_ratio_spec(amount_in as int, p, DECIMAL_FRACTIONAL as int),
    }
}

/// How much of the last hop's denom `coin_in` yields, given the recent price of
/// each hop: the input amount times the product of the prices, rounded down.
pub fn query_out_amount(coin_in: &Coin, step_prices: &Vec<Decimal>) -> (r: Result<
    u128,
    ContractError,
>)
    ensures
        match r {
            Ok(v) => out_amount_spec(coin_in.amount, step_prices@) == Some(v as int),
            Err(e) => out_amount_spec(coin_in.amount, step_prices@) is None && e@ == ErrorView::Overflow,
        },
{
    let mut price = Decimal::one();
    let mut i: usize = 0;
    assert(step_prices@.take(0) =~= Seq::<Decimal>::empty());
    while i < step_prices.len()
        invariant
            i <= step_prices@.len(),
            price_product(step_prices@.take(i as int)) == Some(price.atomics as int),
        decreases step_prices.len() - i,
    {
        assert(step_prices@.take(i + 1).drop_last() =~= step_prices@.take(i as int));
        assert(step_prices@.take(i + 1).last() == step_prices@[i as int]);
        match price.checked_mul(step_prices[i]) {
            Some(p) => {
                price = p;
            },
            None => {
                proof {
                    lemma_product_stays_none(step_prices@, i + 1);
                }
                return Err(ContractError::Overflow);
            },
        }
        i = i + 1;
    }
    assert(step_prices@.take(i as int) =~= step_prices@);
    match uint_multiply_ratio(coin_in.amount, price.atomics, DECIMAL_FRACTIONAL) {
        Some(v) => Ok(v),
        None => Err(ContractError::Overflow),
    }
}

/// Once the product of a prefix overflows, so does that of every longer prefix.
proof fn lemma_product_stays_none(prices: Seq<Decimal>, k: int)
    requires
        0 <= k <= prices.len(),
        price_product(prices.take(k)) is None,
    ensures
        price_product(prices) is None,
    decreases prices.len() - k,
{
    if k < prices.len() {
        assert(prices.take(k + 1).drop_last() =~= prices.take(k));
        lemma_product_stays_none(prices, k + 1);
    } else {
        assert(prices.take(k) =~= prices);
    }
}

/// The text of the remaining steps appended to `acc`.
pub open spec fn osmosis_text(steps: Seq<OsmosisRouteStep>, acc: Seq<char>, first: bool) -> Seq<char>
    decreases steps.len(),
{
    if steps.len() == 0 {
        acc
    } else {
        let sep = if first { Seq::<char>::empty() } else { "|"@ };
        osmosis_text(
            steps.drop_first(),
            acc + sep + digits(steps[0].0.pool_id as nat) + ":"@ + steps[0].0.token_out_denom@,
            false,
        )
    }
}

/// The minimum output accepted for an estimated output and a slippage:
/// the estimate times `1 - slippage`, rounded down.
pub open spec fn min_out_spec(out_amount: int, slippage: Decimal) -> Option<int> {
    mul_ratio_spec(out_amount, DECIMAL_FRACTIONAL - slippage.atomics, DECIMAL_FRACTIONAL as int)
}

impl OsmosisRoute {
    /// The hops of the route, in order.
    pub fn swap_routes(&self) -> (r: Vec<SwapAmountInRoute>)
        ensures
            r@ == step_routes(self.0@),
    {
        let mut out: Vec<SwapAmountInRoute> = Vec::new();
        let mut i: usize = 0;
        while i < self.0.len()
            invariant
                i <= self.0@.len(),
                out@ == step_routes(self.0@.take(i as int)),
            decreases self.0.len() - i,
        {
            out.push(copy_swap_amount_in_route(&self.0[i].0));
            assert(self.0@.take(i + 1) =~= self.0@.take(i as int).push(self.0@[i as int]));
            assert(step_routes(self.0@.take(i + 1)) =~= step_routes(self.0@.take(i as int)).push(
                self.0@[i as int].0,
            ));
            i = i + 1;
        }
        assert(self.0@.take(self.0@.len() as int) =~= self.0@);
        out
    }
}

impl Route for OsmosisRoute {
    open spec fn spec_validate(
        &self,
        pools: Seq<PoolDenoms>,
        denom_in: Seq<char>,
        denom_out: Seq<char>,
    ) -> Option<ErrorView> {
        route_error(self.0@, pools, denom_in, denom_out)
    }

    open spec fn spec_swap_error(
        &self,
        coin_in: Coin,
        slippage: Decimal,
        step_prices: Seq<Decimal>,
    ) -> Option<ErrorView> {
        if self.0@.len() == 0 {
            Some(ErrorView::InvalidRoute { reason: empty_route_reason() })
        } else {
            match out_amount_spec(coin_in.amount, step_prices) {
                None => Some(ErrorView::Overflow),
                Some(out) => if slippage.atomics > DECIMAL_FRACTIONAL {
                    Some(ErrorView::InvalidSlippage)
                } else {
                    match min_out_spec(out, slippage) {
                        None => Some(ErrorView::Overflow),
                        Some(_) => None,
                    }
                },
            }
        }
    }

    /// A pool-manager swap of `coin_in` along every hop, sent by the contract,
    /// that asks for at least the estimate less the slippage.
    open spec fn spec_swap_msg(
        &self,
        contract: Seq<char>,
        coin_in: Coin,
        slippage: Decimal,
        step_prices: Seq<Decimal>,
        msg: CosmosMsg,
    ) -> bool {
        match msg {
            CosmosMsg::OsmosisSwap { sender, routes, token_in, token_out_min_amount } => {
                &&& sender@ == contract
                &&& routes@ == step_routes(self.0@)
                &&& token_in == coin_in
                &&& match out_amount_spec(coin_in.amount, step_prices) {
                    Some(out) => min_out_spec(out, slippage) == Some(token_out_min_amount as int),
                    None => false,
                }
            },
            _ => false,
        }
    }

    fn validate(&self, pools: &Vec<PoolDenoms>, denom_in: &str, denom_out: &str) -> (r: Result<
        (),
        ContractError,
    >) {
        validate_route(&self.0, pools, denom_in, denom_out)
    }

    fn build_exact_in_swap_msg(
        &self,
        contract: &Addr,
        coin_in: &Coin,
        slippage: Decimal,
        step_prices: &Vec<Decimal>,
    ) -> (r: Result<CosmosMsg, ContractError>) {
        if self.0.len() == 0 {
            return Err(
                ContractError::InvalidRoute {
                    reason: String::from_str("the route must contain at least one step"),
                },
            );
        }
        let out_amount = query_out_amount(coin_in, step_prices)?;
        if slippage.atomics > DECIMAL_FRACTIONAL {
            return Err(ContractError::InvalidSlippage);
        }
        let min_out_amount = match uint_multiply_ratio(
            out_amount,
            DECIMAL_FRACTIONAL - slippage.atomics,
            DECIMAL_FRACTIONAL,
        ) {
            Some(v) => v,
            None => {
                return Err(ContractError::Overflow);
            },
        };
        Ok(
            CosmosMsg::OsmosisSwap {
                sender: contract.duplicate(),
                routes: self.swap_routes(),
                token_in: coin_in.duplicate(),
                token_out_min_amount: min_out_amount,
            },
        )
    }

    /// The hops as `pool_id:denom_out`, joined by `|`.
    open spec fn spec_display(&self) -> Result<Seq<char>, ErrorView> {
        Ok(osmosis_text(self.0@, Seq::<char>::empty(), true))
    }

    fn to_display_string(&self) -> (r: Result<String, ContractError>) {
        let mut text = String::new();
        let mut i: usize = 0;
        assert(self.0@.skip(0) =~= self.0@);
        while i < self.0.len()
            invariant
                i <= self.0@.len(),
                osmosis_text(self.0@, Seq::<char>::empty(), true) == osmosis_text(
                    self.0@.skip(i as int),
                    text@,
                    i == 0,
                ),
            decreases self.0.len() - i,
        {
            assert(self.0@.skip(i as int)[0] == self.0@[i as int]);
            assert(self.0@.skip(i as int).drop_first() =~= self.0@.skip(i + 1));
            if i > 0 {
                text.append("|");
            }
            let id = u64_to_string(self.0[i].0.pool_id);
            text.append(id.as_str());
            text.append(":");
            text.append(self.0[i].0.token_out_denom.as_str());
            i = i + 1;
        }
        assert(self.0@.skip(i as int) =~= Seq::<OsmosisRouteStep>::empty());
        Ok(text)
    }
}

} // verus!
