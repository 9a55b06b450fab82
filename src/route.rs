use vstd::prelude::*;

use crate::decimal::Decimal;
use crate::error::{check_view, concat3, str_view, ContractError, ErrorView};
use crate::types::{Addr, Coin, CosmosMsg};

verus! {

/// The denoms that a liquidity pool holds, as read from the chain.
#[derive(Clone, Debug)]
pub struct PoolDenoms {
    pub pool_id: u64,
    pub denoms: Vec<String>,
}

/// One hop of a swap route.
pub trait RouteStep: Sized {
    /// The denom the step swaps into, or why it has none.
    spec fn spec_denom_out(&self) -> Result<Seq<char>, ErrorView>;

    /// Why the step cannot take `denom_in`, given the pools' contents; `None` when it can.
    spec fn spec_validate(&self, pools: Seq<PoolDenoms>, denom_in: Seq<char>) -> Option<ErrorView>;

    /// Get the output denom of the step.
    fn denom_out(&self) -> (r: Result<String, ContractError>)
        ensures
            str_view(r) == self.spec_denom_out(),
    ;

    /// Check that the step can be taken with `denom_in` as its input.
    fn validate(&self, pools: &Vec<PoolDenoms>, denom_in: &str) -> (r: Result<(), ContractError>)
        ensures
            check_view(r) == self.spec_validate(pools@, denom_in@),
    ;
}

/// A stored swap route between two denoms.
pub trait Route: Sized {
    /// Why the route does not lead from `denom_in` to `denom_out`; `None` when it does.
    spec fn spec_validate(
        &self,
        pools: Seq<PoolDenoms>,
        denom_in: Seq<char>,
        denom_out: Seq<char>,
    ) -> Option<ErrorView>;

    /// Why no swap instruction can be built for `coin_in`; `None` when one can.
    spec fn spec_swap_error(
        &self,
        coin_in: Coin,
        slippage: Decimal,
        step_prices: Seq<Decimal>,
    ) -> Option<ErrorView>;

    /// Whether `msg` is the swap instruction for `coin_in`, sent by `contract`.
    spec fn spec_swap_msg(
        &self,
        contract: Seq<char>,
        coin_in: Coin,
        slippage: Decimal,
        step_prices: Seq<Decimal>,
        msg: CosmosMsg,
    ) -> bool;

    /// Determine whether the route is valid, given a pair of input and output
    /// denoms and the contents of the pools it names.
    fn validate(&self, pools: &Vec<PoolDenoms>, denom_in: &str, denom_out: &str) -> (r: Result<
        (),
        ContractError,
    >)
        ensures
            check_view(r) == self.spec_validate(pools@, denom_in@, denom_out@),
    ;

    /// Build the instruction that swaps `coin_in` along the route. `step_prices`
    /// holds the recent price of each hop, where the route needs them.
    fn build_exact_in_swap_msg(
        &self,
        contract: &Addr,
        coin_in: &Coin,
        slippage: Decimal,
        step_prices: &Vec<Decimal>,
    ) -> (r: Result<CosmosMsg, ContractError>)
        ensures
            match r {
                Ok(m) => self.spec_swap_error(*coin_in, slippage, step_prices@) is None
                    && self.spec_swap_msg(contract@, *coin_in, slippage, step_prices@, m),
                Err(e) => self.spec_swap_error(*coin_in, slippage, step_prices@) == Some(e@),
            },
    ;

    /// The route as text, or why it has none.
    spec fn spec_display(&self) -> Result<Seq<char>, ErrorView>;

    /// The route as text, as recorded when it is stored.
    fn to_display_string(&self) -> (r: Result<String, ContractError>)
        ensures
            str_view(r) == self.spec_display(),
    ;
}

pub open spec fn empty_route_reason() -> Seq<char> {
    "the route must contain at least one step"@
}

pub open spec fn loop_reason(denom: Seq<char>) -> Seq<char> {
    "route contains a loop: denom "@ + denom + " seen twice"@
}

pub open spec fn output_mismatch_reason(actual: Seq<char>, expected: Seq<char>) -> Seq<char> {
    "the route's output denom "@ + actual + " does not match the desired output "@ + expected
}

/// The texts of a sequence of strings.
pub open spec fn texts(v: Seq<String>) -> Seq<Seq<char>> {
    v.map_values(|s: String| s@)
}

/// Follows the steps from `prev`, where `seen` holds the denoms already reached:
/// the last denom reached, or the first error met.
pub open spec fn walk<S: RouteStep>(
    steps: Seq<S>,
    pools: Seq<PoolDenoms>,
    prev: Seq<char>,
    seen: Seq<Seq<char>>,
) -> Result<Seq<char>, ErrorView>
    decreases steps.len(),
{
    if steps.len() == 0 {
        Ok(prev)
    } else {
        match steps[0].spec_validate(pools, prev) {
            Some(e) => Err(e),
            None => match steps[0].spec_denom_out() {
                Err(e) => Err(e),
                Ok(ask) => if seen.contains(ask) {
                    Err(ErrorView::InvalidRoute { reason: loop_reason(ask) })
                } else {
                    walk(steps.drop_first(), pools, ask, seen.push(ask))
                },
            },
        }
    }
}

/// Why the steps do not form a route from `denom_in` to `denom_out`; `None`
/// when they do.
pub open spec fn route_error<S: RouteStep>(
    steps: Seq<S>,
    pools: Seq<PoolDenoms>,
    denom_in: Seq<char>,
    denom_out: Seq<char>,
) -> Option<ErrorView> {
    if steps.len() == 0 {
        Some(ErrorView::InvalidRoute { reason: empty_route_reason() })
    } else {
        match walk(steps, pools, denom_in, seq![denom_in]) {
            Err(e) => Some(e),
            Ok(last) => if last == denom_out {
                None
            } else {
                Some(ErrorView::InvalidRoute { reason: output_mismatch_reason(last, denom_out) })
            },
        }
    }
}

/// Whether `d` is among the strings of `v`.
pub fn contains_denom(v: &Vec<String>, d: &String) -> (r: bool)
    ensures
        r == texts(v@).contains(d@),
{
    let mut i: usize = 0;
    while i < v.len()
        invariant
            i <= v.len(),
            forall|j: int| 0 <= j < i ==> v@[j]@ != d@,
        decreases v.len() - i,
    {
        if v[i] == *d {
            assert(texts(v@)[i as int] == d@);
            return true;
        }
        i = i + 1;
    }
    assert(!texts(v@).contains(d@)) by {
        if texts(v@).contains(d@) {
            let k = choose|k: int| 0 <= k < texts(v@).len() && texts(v@)[k] == d@;
            assert(v@[k]@ == d@);
        }
    }
    false
}

/// Checks that `steps` lead from `denom_in` to `denom_out`: there is at least
/// one step, each step takes the denom the previous one produced, no denom is
/// reached twice (counting `denom_in`), and the last step produces `denom_out`.
pub fn validate_route<S: RouteStep>(
    steps: &Vec<S>,
    pools: &Vec<PoolDenoms>,
    denom_in: &str,
    denom_out: &str,
) -> (r: Result<(), ContractError>)
    ensures
        check_view(r) == route_error(steps@, pools@, denom_in@, denom_out@),
{
    if steps.len() == 0 {
        return Err(
            ContractError::InvalidRoute {
                reason: String::from_str("the route must contain at least one step"),
            },
        );
    }
    let mut prev: String = String::from_str(denom_in);
    let mut seen: Vec<String> = Vec::new();
    seen.push(String::from_str(denom_in));
    assert(texts(seen@) =~= seq![denom_in@]);
    assert(steps@.skip(0) =~= steps@);
    let mut i: usize = 0;
    while i < steps.len()
        invariant
            0 < steps.len(),
            i <= steps.len(),
            walk(steps@, pools@, denom_in@, seq![denom_in@]) == walk(
                steps@.skip(i as int),
                pools@,
                prev@,
                texts(seen@),
            ),
        decreases steps.len() - i,
    {
        let step = &steps[i];
        assert(steps@.skip(i as int)[0] == steps@[i as int]);
        assert(steps@.skip(i as int).drop_first() =~= steps@.skip(i + 1));
        step.validate(pools, prev.as_str())?;
        let ask = step.denom_out()?;
        if contains_denom(&seen, &ask) {
            return Err(
                ContractError::InvalidRoute {
                    reason: concat3("route contains a loop: denom ", ask.as_str(), " seen twice"),
                },
            );
        }
        let ghost old_seen = seen@;
        seen.push(ask.clone());
        assert(texts(seen@) =~= texts(old_seen).push(ask@));
        prev = ask;
        i = i + 1;
    }
    assert(steps@.skip(steps.len() as int) =~= Seq::<S>::empty());
    let wanted = String::from_str(denom_out);
    if !(prev == wanted) {
        let mut reason = concat3("the route's output denom ", prev.as_str(), " does not match the desired output ");
        reason.append(denom_out);
        return Err(ContractError::InvalidRoute { reason });
    }
    Ok(())
}

/// The denom reached after the first `i` steps when starting from `start`:
/// `start` itself, then what step `i - 1` produces.
pub open spec fn reached<S: RouteStep>(steps: Seq<S>, start: Seq<char>, i: int) -> Seq<char> {
    if i == 0 {
        start
    } else {
        steps[i - 1].spec_denom_out()->Ok_0
    }
}

/// The denoms reached by the first `k` steps, `start` included.
pub open spec fn reached_upto<S: RouteStep>(steps: Seq<S>, start: Seq<char>, k: int) -> Seq<
    Seq<char>,
> {
    Seq::new((k + 1) as nat, |i: int| reached(steps, start, i))
}

/// Each of the first `k` steps accepts the denom reached before it and
/// produces a denom.
pub open spec fn steps_hold_upto<S: RouteStep>(
    steps: Seq<S>,
    pools: Seq<PoolDenoms>,
    start: Seq<char>,
    k: int,
) -> bool {
    forall|i: int|
        0 <= i < k ==> (#[trigger] steps[i]).spec_validate(pools, reached(steps, start, i)) is None
            && steps[i].spec_denom_out() is Ok
}

/// The first `k` steps form a chain from `start` on which no denom is reached twice.
pub open spec fn chain_upto<S: RouteStep>(
    steps: Seq<S>,
    pools: Seq<PoolDenoms>,
    start: Seq<char>,
    k: int,
) -> bool {
    &&& 0 <= k <= steps.len()
    &&& steps_hold_upto(steps, pools, start, k)
    &&& reached_upto(steps, start, k).no_duplicates()
}

proof fn lemma_walk_prefix<S: RouteStep>(
    steps: Seq<S>,
    pools: Seq<PoolDenoms>,
    start: Seq<char>,
    k: int,
)
    requires
        chain_upto(steps, pools, start, k),
    ensures
        walk(steps, pools, start, seq![start]) == walk(
            steps.skip(k),
            pools,
            reached(steps, start, k),
            reached_upto(steps, start, k),
        ),
    decreases k,
{
    if k == 0 {
        assert(steps.skip(0) =~= steps);
        assert(reached_upto(steps, start, 0) =~= seq![start]);
    } else {
        let m = k - 1;
        assert(reached_upto(steps, start, m) =~= reached_upto(steps, start, k).take(k));
        assert(reached_upto(steps, start, m).no_duplicates()) by {
            let big = reached_upto(steps, start, k);
            let small = reached_upto(steps, start, m);
            assert forall|a: int, b: int|
                0 <= a < small.len() && 0 <= b < small.len() && a != b implies small[a]
                != small[b] by {
                assert(small[a] == big[a] && small[b] == big[b]);
            }
        }
        lemma_walk_prefix(steps, pools, start, m);
        let rest = steps.skip(m);
        assert(rest[0] == steps[m]);
        assert(rest.drop_first() =~= steps.skip(k));
        let seen = reached_upto(steps, start, m);
        let a = reached(steps, start, k);
        assert(steps[m].spec_validate(pools, reached(steps, start, m)) is None);
        assert(!seen.contains(a)) by {
            let big = reached_upto(steps, start, k);
            if seen.contains(a) {
                let x = choose|x: int| 0 <= x < seen.len() && seen[x] == a;
                assert(big[x] == big[k]);
            }
        }
        assert(seen.push(a) =~= reached_upto(steps, start, k));
    }
}

/// Validation fails with a loop error naming the denom when a step produces
/// a denom already reached, after steps that form a loop-free chain.
pub proof fn lemma_loop_is_reported<S: RouteStep>(
    steps: Seq<S>,
    pools: Seq<PoolDenoms>,
    denom_in: Seq<char>,
    denom_out: Seq<char>,
    k: int,
)
    requires
        chain_upto(steps, pools, denom_in, k),
        k < steps.len(),
        steps[k].spec_validate(pools, reached(steps, denom_in, k)) is None,
        steps[k].spec_denom_out() is Ok,
        reached_upto(steps, denom_in, k).contains(steps[k].spec_denom_out()->Ok_0),
    ensures
        route_error(steps, pools, denom_in, denom_out) == Some(
            ErrorView::InvalidRoute { reason: loop_reason(steps[k].spec_denom_out()->Ok_0) },
        ),
{
    lemma_walk_prefix(steps, pools, denom_in, k);
    assert(steps.skip(k)[0] == steps[k]);
}

/// Validation fails naming both denoms when the steps form a loop-free chain
/// that ends on a denom other than `denom_out`.
pub proof fn lemma_wrong_end_is_reported<S: RouteStep>(
    steps: Seq<S>,
    pools: Seq<PoolDenoms>,
    denom_in: Seq<char>,
    denom_out: Seq<char>,
)
    requires
        steps.len() > 0,
        chain_upto(steps, pools, denom_in, steps.len() as int),
        reached(steps, denom_in, steps.len() as int) != denom_out,
    ensures
        route_error(steps, pools, denom_in, denom_out) == Some(
            ErrorView::InvalidRoute {
                reason: output_mismatch_reason(
                    reached(steps, denom_in, steps.len() as int),
                    denom_out,
                ),
            },
        ),
{
    lemma_walk_prefix(steps, pools, denom_in, steps.len() as int);
    assert(steps.skip(steps.len() as int) =~= Seq::<S>::empty());
}

proof fn lemma_valid_route_extends<S: RouteStep>(
    steps: Seq<S>,
    pools: Seq<PoolDenoms>,
    denom_in: Seq<char>,
    denom_out: Seq<char>,
    k: int,
)
    requires
        route_error(steps, pools, denom_in, denom_out) is None,
        chain_upto(steps, pools, denom_in, k),
    ensures
        chain_upto(steps, pools, denom_in, steps.len() as int),
    decreases steps.len() - k,
{
    if k < steps.len() {
        lemma_walk_prefix(steps, pools, denom_in, k);
        let rest = steps.skip(k);
        assert(rest[0] == steps[k]);
        let seen = reached_upto(steps, denom_in, k);
        let a = steps[k].spec_denom_out()->Ok_0;
        assert(steps[k].spec_validate(pools, reached(steps, denom_in, k)) is None);
        assert(steps[k].spec_denom_out() is Ok);
        assert(!seen.contains(a));
        let next = reached_upto(steps, denom_in, k + 1);
        assert(next =~= seen.push(a));
        assert(next.no_duplicates()) by {
            assert forall|x: int, y: int|
                0 <= x < next.len() && 0 <= y < next.len() && x != y implies next[x]
                != next[y] by {
                if x < seen.len() && y < seen.len() {
                    assert(next[x] == seen[x] && next[y] == seen[y]);
                } else if x < seen.len() {
                    assert(next[x] == seen[x]);
                    assert(seen.contains(seen[x]));
                } else {
                    assert(next[y] == seen[y]);
                    assert(seen.contains(seen[y]));
                }
            }
        }
        assert(steps_hold_upto(steps, pools, denom_in, k + 1)) by {
            assert forall|i: int| 0 <= i < k + 1 implies (#[trigger] steps[i]).spec_validate(
                pools,
                reached(steps, denom_in, i),
            ) is None && steps[i].spec_denom_out() is Ok by {
                if i < k {
                    assert(steps_hold_upto(steps, pools, denom_in, k));
                }
            }
        }
        lemma_valid_route_extends(steps, pools, denom_in, denom_out, k + 1);
    }
}

/// Validation succeeds exactly when there is at least one step, each step
/// accepts the denom reached before it, no denom is reached twice (counting
/// `denom_in`), and the last denom reached is `denom_out`.
pub proof fn lemma_route_valid_iff_chain<S: RouteStep>(
    steps: Seq<S>,
    pools: Seq<PoolDenoms>,
    denom_in: Seq<char>,
    denom_out: Seq<char>,
)
    ensures
        route_error(steps, pools, denom_in, denom_out) is None <==> {
            &&& steps.len() > 0
            &&& chain_upto(steps, pools, denom_in, steps.len() as int)
            &&& reached(steps, denom_in, steps.len() as int) == denom_out
        },
{
    let n = steps.len() as int;
    assert(reached_upto(steps, denom_in, 0) =~= seq![denom_in]);
    assert(chain_upto(steps, pools, denom_in, 0));
    if route_error(steps, pools, denom_in, denom_out) is None {
        lemma_valid_route_extends(steps, pools, denom_in, denom_out, 0);
    }
    if n > 0 && chain_upto(steps, pools, denom_in, n) {
        lemma_walk_prefix(steps, pools, denom_in, n);
        assert(steps.skip(n) =~= Seq::<S>::empty());
    }
}

} // verus!
