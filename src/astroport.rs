use vstd::prelude::*;

use crate::error::{ContractError, ErrorView};
use crate::decimal::Decimal;
use crate::route::{empty_route_reason, route_error, validate_route, PoolDenoms, Route, RouteStep};
use crate::types::{Addr, Coin, CosmosMsg};

verus! {

/// An asset as Astroport names it.
#[derive(Clone, Debug)]
pub enum AssetInfo {
    /// A CW20 token contract.
    Token { contract_addr: String },
    /// A native denom.
    NativeToken { denom: String },
}

/// One operation of the Astroport router.
#[derive(Clone, Debug)]
pub enum SwapOperation {
    NativeSwap { offer_denom: String, ask_denom: String },
    AstroSwap { offer_asset_info: AssetInfo, ask_asset_info: AssetInfo },
}

pub fn copy_asset_info(a: &AssetInfo) -> (r: AssetInfo)
    ensures
        r == *a,
{
    match a {
        AssetInfo::Token { contract_addr } => AssetInfo::Token {
            contract_addr: contract_addr.clone(),
        },
        AssetInfo::NativeToken { denom } => AssetInfo::NativeToken { denom: denom.clone() },
    }
}

pub fn copy_swap_operation(op: &SwapOperation) -> (r: SwapOperation)
    ensures
        r == *op,
{
    match op {
        SwapOperation::NativeSwap { offer_denom, ask_denom } => SwapOperation::NativeSwap {
            offer_denom: offer_denom.clone(),
            ask_denom: ask_denom.clone(),
        },
        SwapOperation::AstroSwap { offer_asset_info, ask_asset_info } => SwapOperation::AstroSwap {
            offer_asset_info: copy_asset_info(offer_asset_info),
            ask_asset_info: copy_asset_info(ask_asset_info),
        },
    }
}

/// A step of an Astroport route: one router operation.
#[derive(Clone, Debug)]
pub struct AstroportRouteStep(pub SwapOperation);

pub open spec fn native_swap_reason() -> Seq<char> {
    "Astroport NativeSwap is not supported"@
}

pub open spec fn cw20_reason() -> Seq<char> {
    "Cw20 tokens are not supported"@
}

pub open spec fn input_mismatch_reason(denom_in: Seq<char>) -> Seq<char> {
    "Swap operation does not contain input denom "@ + denom_in
}

/// The (offer, ask) denoms of an operation between two native denoms, or why
/// the operation is not supported.
pub open spec fn spec_denoms(op: SwapOperation) -> Result<(Seq<char>, Seq<char>), ErrorView> {
    match op {
        SwapOperation::NativeSwap { .. } => Err(
            ErrorView::InvalidRoute { reason: native_swap_reason() },
        ),
        SwapOperation::AstroSwap { offer_asset_info, ask_asset_info } => match (
            offer_asset_info,
            ask_asset_info,
        ) {
            (AssetInfo::NativeToken { denom: o }, AssetInfo::NativeToken { denom: a }) => Ok(
                (o@, a@),
            ),
            _ => Err(ErrorView::InvalidRoute { reason: cw20_reason() }),
        },
    }
}

impl AstroportRouteStep {
    pub fn to_swap_operation(&self) -> (r: SwapOperation)
        ensures
            r == self.0,
    {
        copy_swap_operation(&self.0)
    }

    /// Returns the (offer, ask) denoms of the swap operation.
    pub fn denoms(&self) -> (r: Result<(String, String), ContractError>)
        ensures
            match r {
                Ok((o, a)) => spec_denoms(self.0) == Ok::<(Seq<char>, Seq<char>), ErrorView>(
                    (o@, a@),
                ),
                Err(e) => spec_denoms(self.0) == Err::<(Seq<char>, Seq<char>), ErrorView>(e@),
            },
    {
        match &self.0 {
            SwapOperation::NativeSwap { .. } => Err(
                ContractError::InvalidRoute {
                    reason: String::from_str("Astroport NativeSwap is not supported"),
                },
            ),
            SwapOperation::AstroSwap { offer_asset_info, ask_asset_info } => match (
                offer_asset_info,
                ask_asset_info,
            ) {
                (
                    AssetInfo::NativeToken { denom: offer_denom },
                    AssetInfo::NativeToken { denom: ask_denom },
                ) => Ok((offer_denom.clone(), ask_denom.clone())),
                _ => Err(
                    ContractError::InvalidRoute {
                        reason: String::from_str("Cw20 tokens are not supported"),
                    },
                ),
            },
        }
    }
}

impl RouteStep for AstroportRouteStep {
    open spec fn spec_denom_out(&self) -> Result<Seq<char>, ErrorView> {
        match spec_denoms(self.0) {
            Ok((_, a)) => Ok(a),
            Err(e) => Err(e),
        }
    }

    open spec fn spec_validate(&self, pools: Seq<PoolDenoms>, denom_in: Seq<char>) -> Option<
        ErrorView,
    > {
        match spec_denoms(self.0) {
            Err(e) => Some(e),
            Ok((o, _)) => if o == denom_in {
                None
            } else {
                Some(ErrorView::InvalidRoute { reason: input_mismatch_reason(denom_in) })
            },
        }
    }

    fn denom_out(&self) -> (r: Result<String, ContractError>) {
        let (_, ask) = self.denoms()?;
        Ok(ask)
    }

    fn validate(&self, pools: &Vec<PoolDenoms>, denom_in: &str) -> (r: Result<(), ContractError>) {
        let (offer, _) = self.denoms()?;
        let wanted = String::from_str(denom_in);
        if !(offer == wanted) {
            let mut reason = String::from_str("Swap operation does not contain input denom ");
            reason.append(denom_in);
            return Err(ContractError::InvalidRoute { reason });
        }
        Ok(())
    }
}

/// A route through the Astroport router.
#[derive(Clone, Debug)]
pub struct AstroportRoute {
    pub router: Addr,
    pub steps: Vec<AstroportRouteStep>,
}

/// The router operations of a sequence of steps.
pub open spec fn step_operations(steps: Seq<AstroportRouteStep>) -> Seq<SwapOperation> {
    steps.map_values(|s: AstroportRouteStep| s.0)
}

impl AstroportRoute {
    pub fn new(router: Addr, steps: Vec<AstroportRouteStep>) -> (r: AstroportRoute)
        ensures
            r.router == router,
            r.steps == steps,
    {
        AstroportRoute { router, steps }
    }

    /// The router operations of the steps, in order.
    pub fn operations(&self) -> (r: Vec<SwapOperation>)
        ensures
            r@ == step_operations(self.steps@),
    {
        let mut ops: Vec<SwapOperation> = Vec::new();
        let mut i: usize = 0;
        while i < self.steps.len()
            invariant
                i <= self.steps@.len(),
                ops@ == step_operations(self.steps@.take(i as int)),
            decreases self.steps.len() - i,
        {
            ops.push(self.steps[i].to_swap_operation());
            assert(self.steps@.take(i + 1) =~= self.steps@.take(i as int).push(self.steps@[i as int]));
            assert(step_operations(self.steps@.take(i + 1)) =~= step_operations(self.steps@.take(i as int)).push(self.steps@[i as int].0));
            i = i + 1;
        }
        assert(self.steps@.take(self.steps@.len() as int) =~= self.steps@);
        ops
    }

}

impl Route for AstroportRoute {
    open spec fn spec_validate(
        &self,
        pools: Seq<PoolDenoms>,
        denom_in: Seq<char>,
        denom_out: Seq<char>,
    ) -> Option<ErrorView> {
        route_error(self.steps@, pools, denom_in, denom_out)
    }

    open spec fn spec_swap_error(
        &self,
        coin_in: Coin,
        slippage: Decimal,
        step_prices: Seq<Decimal>,
    ) -> Option<ErrorView> {
        if self.steps@.len() == 0 {
            Some(ErrorView::InvalidRoute { reason: empty_route_reason() })
        } else {
            None
        }
    }

    /// One router message with every operation, paid with `coin_in`. No
    /// minimum is asked of the output.
    open spec fn spec_swap_msg(
        &self,
        contract: Seq<char>,
        coin_in: Coin,
        slippage: Decimal,
        step_prices: Seq<Decimal>,
        msg: CosmosMsg,
    ) -> bool {
        msg matches CosmosMsg::AstroportSwap { router, operations, funds }
            && router@ == self.router@ && operations@ == step_operations(self.steps@)
            && funds@ == seq![coin_in]
    }

    fn validate(&self, pools: &Vec<PoolDenoms>, denom_in: &str, denom_out: &str) -> (r: Result<
        (),
        ContractError,
    >) {
        validate_route(&self.steps, pools, denom_in, denom_out)
    }

    fn build_exact_in_swap_msg(
        &self,
        contract: &Addr,
        coin_in: &Coin,
        slippage: Decimal,
        step_prices: &Vec<Decimal>,
    ) -> (r: Result<CosmosMsg, ContractError>) {
        if self.steps.len() == 0 {
            return Err(
                ContractError::InvalidRoute {
                    reason: String::from_str("the route must contain at least one step"),
                },
            );
        }
        let mut funds: Vec<Coin> = Vec::new();
        funds.push(coin_in.duplicate());
        assert(funds@ =~= seq![*coin_in]);
        Ok(
            CosmosMsg::AstroportSwap {
                router: self.router.duplicate(),
                operations: self.operations(),
                funds,
            },
        )
    }

    /// The steps as `offer:ask`, joined by `|`.
    open spec fn spec_display(&self) -> Result<Seq<char>, ErrorView> {
        route_text(self.steps@)
    }

    fn to_display_string(&self) -> (r: Result<String, ContractError>) {
        let mut text = String::new();
        let mut i: usize = 0;
        assert(self.steps@.skip(0) =~= self.steps@);
        while i < self.steps.len()
            invariant
                i <= self.steps@.len(),
                route_text(self.steps@) == continue_text(self.steps@.skip(i as int), text@, i == 0),
            decreases self.steps.len() - i,
        {
            assert(self.steps@.skip(i as int)[0] == self.steps@[i as int]);
            assert(self.steps@.skip(i as int).drop_first() =~= self.steps@.skip(i + 1));
            let (offer, ask) = self.steps[i].denoms()?;
            if i > 0 {
                text.append("|");
            }
            text.append(offer.as_str());
            text.append(":");
            text.append(ask.as_str());
            i = i + 1;
        }
        assert(self.steps@.skip(i as int) =~= Seq::<AstroportRouteStep>::empty());
        Ok(text)
    }
}

/// The text of the remaining steps appended to `acc`; `first` tells whether no
/// step has been written yet.
pub open spec fn continue_text(steps: Seq<AstroportRouteStep>, acc: Seq<char>, first: bool) -> Result<
    Seq<char>,
    ErrorView,
>
    decreases steps.len(),
{
    if steps.len() == 0 {
        Ok(acc)
    } else {
        match spec_denoms(steps[0].0) {
            Err(e) => Err(e),
            Ok((o, a)) => {
                let sep = if first { Seq::<char>::empty() } else { "|"@ };
                continue_text(steps.drop_first(), acc + sep + o + ":"@ + a, false)
            },
        }
    }
}

/// The text of a route: each step as `offer:ask`, joined by `|`; the first
/// unsupported step's error otherwise.
pub open spec fn route_text(steps: Seq<AstroportRouteStep>) -> Result<Seq<char>, ErrorView> {
    continue_text(steps, Seq::<char>::empty(), true)
}

/// The offer denom of a supported step.
pub open spec fn offer_of(s: AstroportRouteStep) -> Seq<char> {
    spec_denoms(s.0)->Ok_0.0
}

/// The ask denom of a supported step.
pub open spec fn ask_of(s: AstroportRouteStep) -> Seq<char> {
    spec_denoms(s.0)->Ok_0.1
}

/// The ask denoms of the steps, in order.
pub open spec fn asks(steps: Seq<AstroportRouteStep>) -> Seq<Seq<char>> {
    steps.map_values(|s: AstroportRouteStep| ask_of(s))
}

/// Every step swaps between two native denoms, the first offers `start`, each
/// later one offers what the one before asked for, and no denom occurs twice in
/// `seen` followed by the asks.
pub open spec fn continuous_from(
    steps: Seq<AstroportRouteStep>,
    start: Seq<char>,
    seen: Seq<Seq<char>>,
) -> bool {
    &&& forall|i: int| 0 <= i < steps.len() ==> (#[trigger] spec_denoms(steps[i].0)) is Ok
    &&& forall|i: int|
        0 <= i < steps.len() ==> #[trigger] offer_of(steps[i]) == if i == 0 {
            start
        } else {
            ask_of(steps[i - 1])
        }
    &&& (seen + asks(steps)).no_duplicates()
}

/// The steps form a path from `denom_in` to `denom_out`: at least one step,
/// each between native denoms and taking what the previous one produced, the
/// first taking `denom_in`, the last producing `denom_out`, and no denom
/// reached twice, counting `denom_in`.
pub open spec fn is_path(steps: Seq<AstroportRouteStep>, denom_in: Seq<char>, denom_out: Seq<char>) -> bool {
    &&& steps.len() > 0
    &&& continuous_from(steps, denom_in, seq![denom_in])
    &&& ask_of(steps.last()) == denom_out
}

proof fn lemma_walk_is_continuous(
    steps: Seq<AstroportRouteStep>,
    pools: Seq<PoolDenoms>,
    prev: Seq<char>,
    seen: Seq<Seq<char>>,
)
    requires
        seen.no_duplicates(),
    ensures
        crate::route::walk(steps, pools, prev, seen) is Ok <==> continuous_from(steps, prev, seen),
        crate::route::walk(steps, pools, prev, seen) is Ok ==> crate::route::walk(
            steps,
            pools,
            prev,
            seen,
        )->Ok_0 == if steps.len() == 0 {
            prev
        } else {
            ask_of(steps.last())
        },
    decreases steps.len(),
{
    if steps.len() == 0 {
        assert(seen + asks(steps) =~= seen);
    } else {
        let s = steps[0];
        let rest = steps.drop_first();
        let a = ask_of(s);
        assert(seen + asks(steps) =~= seen.push(a) + asks(rest));
        if spec_denoms(s.0) is Ok && offer_of(s) == prev && !seen.contains(a) {
            assert(seen.push(a).no_duplicates()) by {
                assert forall|i: int, j: int|
                    0 <= i < seen.push(a).len() && 0 <= j < seen.push(a).len() && i != j implies seen.push(
                    a,
                )[i] != seen.push(a)[j] by {
                    if i < seen.len() && j < seen.len() {
                    } else if i < seen.len() {
                        assert(seen.contains(seen[i]));
                    } else {
                        assert(seen.contains(seen[j]));
                    }
                }
            }
            lemma_walk_is_continuous(rest, pools, a, seen.push(a));
            if continuous_from(rest, a, seen.push(a)) {
                assert forall|i: int| 0 <= i < steps.len() implies (#[trigger] spec_denoms(
                    steps[i].0,
                )) is Ok by {
                    if i > 0 {
                        assert(steps[i] == rest[i - 1]);
                    }
                }
                assert forall|i: int| 0 <= i < steps.len() implies #[trigger] offer_of(steps[i]) == if i == 0 {
                    prev
                } else {
                    ask_of(steps[i - 1])
                } by {
                    if i > 0 {
                        assert(steps[i] == rest[i - 1]);
                        assert(offer_of(rest[i - 1]) == if i - 1 == 0 {
                            a
                        } else {
                            ask_of(rest[i - 2])
                        });
                        if i > 1 {
                            assert(steps[i - 1] == rest[i - 2]);
                        }
                    }
                }
            }
            if continuous_from(steps, prev, seen) {
                assert forall|i: int| 0 <= i < rest.len() implies (#[trigger] spec_denoms(
                    rest[i].0,
                )) is Ok by {
                    assert(rest[i] == steps[i + 1]);
                }
                assert forall|i: int| 0 <= i < rest.len() implies #[trigger] offer_of(rest[i]) == if i == 0 {
                    a
                } else {
                    ask_of(rest[i - 1])
                } by {
                    assert(rest[i] == steps[i + 1]);
                    assert(offer_of(steps[i + 1]) == ask_of(steps[i]));
                    if i > 0 {
                        assert(rest[i - 1] == steps[i]);
                    }
                }
            }
            if rest.len() > 0 {
                assert(rest.last() == steps.last());
            }
        } else {
            if continuous_from(steps, prev, seen) {
                assert(spec_denoms(steps[0].0) is Ok);
                assert(offer_of(steps[0]) == prev);
                if seen.contains(a) {
                    let k = choose|k: int| 0 <= k < seen.len() && seen[k] == a;
                    let all = seen.push(a) + asks(rest);
                    assert(all[k] == all[seen.len() as int]);
                }
            }
        }
    }
}

/// `validate` accepts a route exactly when its steps form a path from
/// `denom_in` to `denom_out` on which no denom is reached twice.
pub proof fn lemma_validate_iff_path(
    route: AstroportRoute,
    pools: Seq<PoolDenoms>,
    denom_in: Seq<char>,
    denom_out: Seq<char>,
)
    ensures
        route.spec_validate(pools, denom_in, denom_out) is None <==> is_path(
            route.steps@,
            denom_in,
            denom_out,
        ),
{
    let steps = route.steps@;
    if steps.len() > 0 {
        assert(seq![denom_in].no_duplicates());
        lemma_walk_is_continuous(steps, pools, denom_in, seq![denom_in]);
    }
}

} // verus!
