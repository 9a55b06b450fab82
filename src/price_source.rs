use vstd::prelude::*;

use crate::decimal::{
    decimal_mul_spec, decimal_ratio_spec, decimal_text, digits, u64_to_string, Decimal,
};
use crate::error::{check_view, concat3, ContractError, ErrorView};
use crate::market::{
    checked_pow10, find_spot, find_twap, pow10, select_snapshot, select_twap_snapshot, spot_quote,
    twap_quote, PriceInputs, SpotQuote,
};
use crate::registry::PriceSources;
use crate::route::{contains_denom, texts};
use crate::types::Addr;

verus! {

/// How the price of a denom is obtained.
#[derive(Clone, Debug)]
pub enum WasmPriceSource<A> {
    /// Returns a fixed value.
    Fixed { price: Decimal },
    /// Astroport spot price: a one-unit swap simulated on the pair, then
    /// multiplied by the price of each route asset in turn.
    AstroportSpot { pair_address: A, route_assets: Vec<String> },
    /// Astroport TWAP price: the snapshot whose age is closest to `window_size`,
    /// among those within `tolerance` of it, then multiplied by the price of
    /// each route asset in turn.
    AstroportTwap { pair_address: A, window_size: u64, tolerance: u64, route_assets: Vec<String> },
}

/// A price source as submitted, with the pair address not yet validated.
pub type WasmPriceSourceUnchecked = WasmPriceSource<String>;

/// A price source as stored.
pub type WasmPriceSourceChecked = WasmPriceSource<Addr>;

pub open spec fn no_source_reason(denom: Seq<char>) -> Seq<char> {
    "No price source for route asset "@ + denom
}

pub open spec fn no_snapshot_reason(denom: Seq<char>) -> Seq<char> {
    "No TWAP snapshot within the window for "@ + denom
}

/// A price as atomics, or the error met, seen through views.
pub open spec fn price_view(r: Result<Decimal, ContractError>) -> Result<int, ErrorView> {
    match r {
        Ok(p) => Ok(p.atomics as int),
        Err(e) => Err(e@),
    }
}

/// The price a source gives `denom` before its route assets are applied, as
/// atomics, together with those route assets.
pub open spec fn base_price(inputs: PriceInputs, denom: Seq<char>, ps: WasmPriceSourceChecked) -> Result<
    (int, Seq<String>),
    ErrorView,
> {
    match ps {
        WasmPriceSource::Fixed { price } => Ok((price.atomics as int, Seq::empty())),
        WasmPriceSource::AstroportSpot { route_assets, .. } => match find_spot(inputs.spot@, denom) {
            None => Err(ErrorView::MissingQuote { denom }),
            Some(q) => if q.precision > 38 {
                Err(ErrorView::Overflow)
            } else {
                match decimal_ratio_spec(q.return_amount as int, pow10(q.precision as nat)) {
                    None => Err(ErrorView::Overflow),
                    Some(p) => Ok((p, route_assets@)),
                }
            },
        },
        WasmPriceSource::AstroportTwap { window_size, tolerance, route_assets, .. } => match find_twap(
            inputs.twap@,
            denom,
        ) {
            None => Err(ErrorView::MissingQuote { denom }),
            Some(snaps) => match select_snapshot(snaps, inputs.now, window_size, tolerance) {
                None => Err(ErrorView::InvalidPrice { reason: no_snapshot_reason(denom) }),
                Some(snap) => Ok((snap.price.atomics as int, route_assets@)),
            },
        },
    }
}

/// Multiplies `acc` by the price of each route asset in turn, left to right,
/// rounding down after each product. Each route asset's own route is followed
/// one level deeper; `fuel` bounds how deep.
pub open spec fn chain_price(
    sources: Map<Seq<char>, WasmPriceSourceChecked>,
    inputs: PriceInputs,
    acc: int,
    assets: Seq<String>,
    fuel: nat,
) -> Result<int, ErrorView>
    decreases fuel, assets.len(),
{
    if assets.len() == 0 {
        Ok(acc)
    } else {
        let d = assets[0]@;
        if !sources.contains_key(d) {
            Err(ErrorView::InvalidPrice { reason: no_source_reason(d) })
        } else if fuel == 0 {
            Err(ErrorView::PriceSourceTooDeep { denom: d })
        } else {
            match base_price(inputs, d, sources[d]) {
                Err(e) => Err(e),
                Ok((b, sub)) => match chain_price(sources, inputs, b, sub, (fuel - 1) as nat) {
                    Err(e) => Err(e),
                    Ok(p) => match decimal_mul_spec(acc, p) {
                        None => Err(ErrorView::Overflow),
                        Some(q) => chain_price(sources, inputs, q, assets.drop_first(), fuel),
                    },
                },
            }
        }
    }
}

/// The price that source `ps` gives `denom`, with the registry's size as the
/// bound on how deep route assets are followed.
pub open spec fn source_price(
    sources: Map<Seq<char>, WasmPriceSourceChecked>,
    depth: nat,
    inputs: PriceInputs,
    denom: Seq<char>,
    ps: WasmPriceSourceChecked,
) -> Result<int, ErrorView> {
    match base_price(inputs, denom, ps) {
        Err(e) => Err(e),
        Ok((b, sub)) => chain_price(sources, inputs, b, sub, depth),
    }
}

/// The price of `denom` from its registered source.
pub open spec fn registry_price(
    sources: Map<Seq<char>, WasmPriceSourceChecked>,
    depth: nat,
    inputs: PriceInputs,
    denom: Seq<char>,
) -> Result<int, ErrorView> {
    if !sources.contains_key(denom) {
        Err(ErrorView::PriceSourceNotFound { denom })
    } else {
        source_price(sources, depth, inputs, denom, sources[denom])
    }
}

/// The route assets handed back with a base price; none for a fixed price.
pub open spec fn assets_view(sub: Option<&Vec<String>>) -> Seq<String> {
    match sub {
        None => Seq::<String>::empty(),
        Some(v) => v@,
    }
}

fn base_price_exec<'a>(inputs: &PriceInputs, denom: &str, ps: &'a WasmPriceSourceChecked) -> (r: Result<
    (Decimal, Option<&'a Vec<String>>),
    ContractError,
>)
    ensures
        match r {
            Ok(t) => base_price(*inputs, denom@, *ps) == Ok::<(int, Seq<String>), ErrorView>(
                (t.0.atomics as int, assets_view(t.1)),
            ),
            Err(e) => base_price(*inputs, denom@, *ps) == Err::<(int, Seq<String>), ErrorView>(e@),
        },
{
    match ps {
        WasmPriceSource::Fixed { price } => Ok((*price, None)),
        WasmPriceSource::AstroportSpot { route_assets, .. } => {
            let q = match spot_quote(&inputs.spot, denom) {
                None => {
                    return Err(ContractError::MissingQuote { denom: String::from_str(denom) });
                },
                Some(q) => q,
            };
            let one = match checked_pow10(q.precision) {
                None => {
                    return Err(ContractError::Overflow);
                },
                Some(v) => v,
            };
            match Decimal::checked_from_ratio(q.return_amount, one) {
                None => Err(ContractError::Overflow),
                Some(p) => Ok((p, Some(route_assets))),
            }
        },
        WasmPriceSource::AstroportTwap { window_size, tolerance, route_assets, .. } => {
            let snaps = match twap_quote(&inputs.twap, denom) {
                None => {
                    return Err(ContractError::MissingQuote { denom: String::from_str(denom) });
                },
                Some(v) => v,
            };
            match select_twap_snapshot(snaps, inputs.now, *window_size, *tolerance) {
                None => {
                    let mut reason = String::from_str("No TWAP snapshot within the window for ");
                    reason.append(denom);
                    Err(ContractError::InvalidPrice { reason })
                },
                Some(snap) => Ok((snap.price, Some(route_assets))),
            }
        },
    }
}

impl PriceSources {
    /// Multiplies `acc` by the price of each route asset in turn.
    fn resolve_chain(&self, inputs: &PriceInputs, start: Decimal, assets: &Vec<String>, fuel: usize) -> (r:
        Result<Decimal, ContractError>)
        requires
            self.wf(),
        ensures
            price_view(r) == chain_price(
                self.spec_sources(),
                *inputs,
                start.atomics as int,
                assets@,
                fuel as nat,
            ),
        decreases fuel,
    {
        let mut acc = start;
        let mut i: usize = 0;
        assert(assets@.skip(0) =~= assets@);
        while i < assets.len()
            invariant
                self.wf(),
                i <= assets@.len(),
                chain_price(self.spec_sources(), *inputs, start.atomics as int, assets@, fuel as nat)
                    == chain_price(
                    self.spec_sources(),
                    *inputs,
                    acc.atomics as int,
                    assets@.skip(i as int),
                    fuel as nat,
                ),
            decreases assets.len() - i,
        {
            assert(assets@.skip(i as int)[0] == assets@[i as int]);
            assert(assets@.skip(i as int).drop_first() =~= assets@.skip(i + 1));
            let d = &assets[i];
            let ps = match self.get(d.as_str()) {
                None => {
                    let mut reason = String::from_str("No price source for route asset ");
                    reason.append(d.as_str());
                    return Err(ContractError::InvalidPrice { reason });
                },
                Some(ps) => ps,
            };
            if fuel == 0 {
                return Err(ContractError::PriceSourceTooDeep { denom: d.clone() });
            }
            let (b, sub) = base_price_exec(inputs, d.as_str(), ps)?;
            let p = match sub {
                None => {
                    assert(chain_price(
                        self.spec_sources(),
                        *inputs,
                        b.atomics as int,
                        Seq::<String>::empty(),
                        (fuel - 1) as nat,
                    ) == Ok::<int, ErrorView>(b.atomics as int));
                    b
                },
                Some(v) => self.resolve_chain(inputs, b, v, fuel - 1)?,
            };
            acc = match acc.checked_mul(p) {
                None => {
                    return Err(ContractError::Overflow);
                },
                Some(q) => q,
            };
            i = i + 1;
        }
        assert(assets@.skip(i as int) =~= Seq::<String>::empty());
        Ok(acc)
    }

    /// The price of `denom` from its registered source.
    pub fn query_price(&self, inputs: &PriceInputs, denom: &str, base_denom: &str) -> (r: Result<
        Decimal,
        ContractError,
    >)
        requires
            self.wf(),
        ensures
            price_view(r) == registry_price(self.spec_sources(), self.spec_len(), *inputs, denom@),
    {
        match self.get(denom) {
            None => Err(ContractError::PriceSourceNotFound { denom: String::from_str(denom) }),
            Some(ps) => ps.query_price(inputs, denom, base_denom, self),
        }
    }
}

impl WasmPriceSource<Addr> {
    /// The price this source gives `denom`, in the base denom: the pool's
    /// quote, then multiplied by the price of each route asset in turn.
    pub fn query_price(
        &self,
        inputs: &PriceInputs,
        denom: &str,
        base_denom: &str,
        price_sources: &PriceSources,
    ) -> (r: Result<Decimal, ContractError>)
        requires
            price_sources.wf(),
        ensures
            price_view(r) == source_price(
                price_sources.spec_sources(),
                price_sources.spec_len(),
                *inputs,
                denom@,
                *self,
            ),
    {
        let (b, sub) = base_price_exec(inputs, denom, self)?;
        match sub {
            None => Ok(b),
            Some(v) => price_sources.resolve_chain(inputs, b, v, price_sources.len()),
        }
    }
}

/// The route assets joined by commas.
pub open spec fn join_assets(assets: Seq<String>) -> Seq<char>
    decreases assets.len(),
{
    if assets.len() == 0 {
        Seq::empty()
    } else if assets.len() == 1 {
        assets[0]@
    } else {
        join_assets(assets.drop_last()) + ","@ + assets.last()@
    }
}

fn join_route_assets(assets: &Vec<String>) -> (r: String)
    ensures
        r@ == join_assets(assets@),
{
    let mut text = String::new();
    let mut i: usize = 0;
    assert(assets@.take(0) =~= Seq::<String>::empty());
    while i < assets.len()
        invariant
            i <= assets@.len(),
            text@ == join_assets(assets@.take(i as int)),
        decreases assets.len() - i,
    {
        assert(assets@.take(i + 1).drop_last() =~= assets@.take(i as int));
        assert(assets@.take(i + 1).last() == assets@[i as int]);
        if i > 0 {
            text.append(",");
        }
        text.append(assets[i].as_str());
        i = i + 1;
    }
    assert(assets@.take(i as int) =~= assets@);
    text
}

/// The text of a stored price source.
pub open spec fn source_text(ps: WasmPriceSourceChecked) -> Seq<char> {
    match ps {
        WasmPriceSource::Fixed { price } => "fixed:"@ + decimal_text(price.atomics),
        WasmPriceSource::AstroportSpot { pair_address, route_assets } => "astroport_spot:"@
            + pair_address@ + ". Route: "@ + join_assets(route_assets@),
        WasmPriceSource::AstroportTwap { pair_address, window_size, tolerance, route_assets } =>
            "astroport_twap:"@ + pair_address@ + ":"@ + digits(window_size as nat) + ":"@ + digits(
            tolerance as nat,
        ) + ". Route: "@ + join_assets(route_assets@),
    }
}

/// Whether every route asset has a registered price source.
pub open spec fn assets_registered(
    sources: Map<Seq<char>, WasmPriceSourceChecked>,
    assets: Seq<String>,
) -> bool {
    forall|i: int| 0 <= i < assets.len() ==> sources.contains_key(#[trigger] assets[i]@)
}

/// The first route asset without a registered price source.
pub open spec fn first_unregistered(
    sources: Map<Seq<char>, WasmPriceSourceChecked>,
    assets: Seq<String>,
) -> int {
    choose|i: int|
        0 <= i < assets.len() && !sources.contains_key(#[trigger] assets[i]@) && forall|j: int|
            0 <= j < i ==> sources.contains_key(#[trigger] assets[j]@)
}

pub open spec fn pair_missing_reason(denom: Seq<char>) -> Seq<char> {
    "pair does not contain denom "@ + denom
}

pub open spec fn last_not_base_reason(last: Seq<char>, base_denom: Seq<char>) -> Seq<char> {
    "last route asset "@ + last + " is not the base denom "@ + base_denom
}

/// Why a pool source for `denom` over a pair holding `pair` cannot be
/// registered with these route assets; `None` when it can. The pair must hold
/// `denom`. Without route assets it must also hold the base denom; with them,
/// it must hold the first route asset, the last must be the base denom, and
/// each must have a registered source.
pub open spec fn route_assets_error(
    sources: Map<Seq<char>, WasmPriceSourceChecked>,
    pair: Seq<Seq<char>>,
    denom: Seq<char>,
    base_denom: Seq<char>,
    assets: Seq<String>,
) -> Option<ErrorView> {
    if !pair.contains(denom) {
        Some(ErrorView::InvalidPriceSource { reason: pair_missing_reason(denom) })
    } else if assets.len() == 0 {
        if !pair.contains(base_denom) {
            Some(ErrorView::InvalidPriceSource { reason: pair_missing_reason(base_denom) })
        } else {
            None
        }
    } else if !pair.contains(assets[0]@) {
        Some(ErrorView::InvalidPriceSource { reason: pair_missing_reason(assets[0]@) })
    } else if assets.last()@ != base_denom {
        Some(
            ErrorView::InvalidPriceSource {
                reason: last_not_base_reason(assets.last()@, base_denom),
            },
        )
    } else if !assets_registered(sources, assets) {
        Some(
            ErrorView::InvalidPriceSource {
                reason: no_source_reason(assets[first_unregistered(sources, assets)]@),
            },
        )
    } else {
        None
    }
}

fn invalid_source(prefix: &str, denom: &str) -> (r: ContractError)
    ensures
        r@ == (ErrorView::InvalidPriceSource { reason: prefix@ + denom@ }),
{
    let mut reason = String::from_str(prefix);
    reason.append(denom);
    ContractError::InvalidPriceSource { reason }
}

impl PriceSources {
    /// Checks that every route asset has a registered price source.
    fn check_registered(&self, assets: &Vec<String>) -> (r: Result<(), ContractError>)
        requires
            self.wf(),
        ensures
            r is Ok <==> assets_registered(self.spec_sources(), assets@),
            r matches Err(e) ==> e@ == (ErrorView::InvalidPriceSource {
                reason: no_source_reason(
                    assets@[first_unregistered(self.spec_sources(), assets@)]@,
                ),
            }),
    {
        let mut i: usize = 0;
        while i < assets.len()
            invariant
                self.wf(),
                i <= assets@.len(),
                forall|j: int| 0 <= j < i ==> self.spec_sources().contains_key(#[trigger] assets@[j]@),
            decreases assets.len() - i,
        {
            if self.get(assets[i].as_str()).is_none() {
                proof {
                    let k = first_unregistered(self.spec_sources(), assets@);
                    assert(!self.spec_sources().contains_key(assets@[i as int]@));
                    if k != i {
                        if k < i {
                            assert(self.spec_sources().contains_key(assets@[k]@));
                        } else {
                            assert(self.spec_sources().contains_key(assets@[i as int]@));
                        }
                    }
                }
                return Err(invalid_source("No price source for route asset ", assets[i].as_str()));
            }
            i = i + 1;
        }
        Ok(())
    }

    /// Checks the route assets of a pool source for `denom` against the
    /// pair's denoms and the registry.
    fn check_route_assets(
        &self,
        pair_denoms: &Vec<String>,
        denom: &str,
        base_denom: &str,
        assets: &Vec<String>,
    ) -> (r: Result<(), ContractError>)
        requires
            self.wf(),
        ensures
            check_view(r) == route_assets_error(
                self.spec_sources(),
                texts(pair_denoms@),
                denom@,
                base_denom@,
                assets@,
            ),
    {
        let d = String::from_str(denom);
        if !contains_denom(pair_denoms, &d) {
            return Err(invalid_source("pair does not contain denom ", denom));
        }
        let base = String::from_str(base_denom);
        if assets.len() == 0 {
            if !contains_denom(pair_denoms, &base) {
                return Err(invalid_source("pair does not contain denom ", base_denom));
            }
            return Ok(());
        }
        if !contains_denom(pair_denoms, &assets[0]) {
            return Err(invalid_source("pair does not contain denom ", assets[0].as_str()));
        }
        let last = &assets[assets.len() - 1];
        if !(*last == base) {
            let mut reason = concat3("last route asset ", last.as_str(), " is not the base denom ");
            reason.append(base_denom);
            return Err(ContractError::InvalidPriceSource { reason });
        }
        self.check_registered(assets)
    }
}

impl WasmPriceSource<String> {
    /// The source as stored: its pair address taken as validated, once its
    /// route assets are found to fit the pair, whose denoms are
    /// `pair_denoms`, and the registry. A fixed source needs no pair.
    pub fn validate(
        self,
        denom: &str,
        base_denom: &str,
        price_sources: &PriceSources,
        pair_denoms: &Vec<String>,
    ) -> (r: Result<WasmPriceSourceChecked, ContractError>)
        requires
            price_sources.wf(),
        ensures
            match self {
                WasmPriceSource::Fixed { price } => r matches Ok(c) && c == (WasmPriceSource::<
                    Addr,
                >::Fixed { price }),
                WasmPriceSource::AstroportSpot { pair_address, route_assets } => {
                    &&& check_source_view(r) == route_assets_error(
                        price_sources.spec_sources(),
                        texts(pair_denoms@),
                        denom@,
                        base_denom@,
                        route_assets@,
                    )
                    &&& r matches Ok(c) ==> (c matches WasmPriceSource::AstroportSpot {
                        pair_address: a,
                        route_assets: ra,
                    } && a@ == pair_address@ && ra == route_assets)
                },
                WasmPriceSource::AstroportTwap {
                    pair_address,
                    window_size,
                    tolerance,
                    route_assets,
                } => {
                    &&& check_source_view(r) == route_assets_error(
                        price_sources.spec_sources(),
                        texts(pair_denoms@),
                        denom@,
                        base_denom@,
                        route_assets@,
                    )
                    &&& r matches Ok(c) ==> (c matches WasmPriceSource::AstroportTwap {
                        pair_address: a,
                        window_size: w,
                        tolerance: t,
                        route_assets: ra,
                    } && a@ == pair_address@ && w == window_size && t == tolerance && ra
                        == route_assets)
                },
            },
    {
        match self {
            WasmPriceSource::Fixed { price } => Ok(WasmPriceSource::Fixed { price }),
            WasmPriceSource::AstroportSpot { pair_address, route_assets } => {
                price_sources.check_route_assets(pair_denoms, denom, base_denom, &route_assets)?;
                Ok(
                    WasmPriceSource::AstroportSpot {
                        pair_address: Addr::unchecked(pair_address.as_str()),
                        route_assets,
                    },
                )
            },
            WasmPriceSource::AstroportTwap { pair_address, window_size, tolerance, route_assets } => {
                price_sources.check_route_assets(pair_denoms, denom, base_denom, &route_assets)?;
                Ok(
                    WasmPriceSource::AstroportTwap {
                        pair_address: Addr::unchecked(pair_address.as_str()),
                        window_size,
                        tolerance,
                        route_assets,
                    },
                )
            },
        }
    }
}

/// The error of a validation, if it failed, seen through its view.
pub open spec fn check_source_view(r: Result<WasmPriceSourceChecked, ContractError>) -> Option<
    ErrorView,
> {
    match r {
        Ok(_) => None,
        Err(e) => Some(e@),
    }
}

impl WasmPriceSource<Addr> {
    /// The source as text, such as `fixed:0.5` or
    /// `astroport_spot:<pair>. Route: <asset>,<asset>`.
    pub fn to_display_string(&self) -> (r: String)
        ensures
            r@ == source_text(*self),
    {
        match self {
            WasmPriceSource::Fixed { price } => {
                let mut text = String::from_str("fixed:");
                let p = price.to_display_string();
                text.append(p.as_str());
                text
            },
            WasmPriceSource::AstroportSpot { pair_address, route_assets } => {
                let mut text = String::from_str("astroport_spot:");
                text.append(pair_address.as_str());
                text.append(". Route: ");
                let joined = join_route_assets(route_assets);
                text.append(joined.as_str());
                text
            },
            WasmPriceSource::AstroportTwap { pair_address, window_size, tolerance, route_assets } => {
                let mut text = String::from_str("astroport_twap:");
                text.append(pair_address.as_str());
                text.append(":");
                let w = u64_to_string(*window_size);
                text.append(w.as_str());
                text.append(":");
                let t = u64_to_string(*tolerance);
                text.append(t.as_str());
                text.append(". Route: ");
                let joined = join_route_assets(route_assets);
                text.append(joined.as_str());
                text
            },
        }
    }
}

/// Multiplies `acc` by each price in turn, rounding down after each
/// product; `None` once a product overflows.
pub open spec fn fold_mul(acc: int, prices: Seq<Decimal>) -> Option<int>
    decreases prices.len(),
{
    if prices.len() == 0 {
        Some(acc)
    } else {
        match decimal_mul_spec(acc, prices[0].atomics as int) {
            None => None,
            Some(q) => fold_mul(q, prices.drop_first()),
        }
    }
}

/// A registered fixed price is the price of its denom, whatever the
/// liquidity data and the base denom.
pub proof fn lemma_fixed_price_is_exact(
    sources: Map<Seq<char>, WasmPriceSourceChecked>,
    depth: nat,
    inputs: PriceInputs,
    denom: Seq<char>,
    price: Decimal,
)
    requires
        sources.contains_key(denom),
        sources[denom] == (WasmPriceSource::<Addr>::Fixed { price }),
    ensures
        registry_price(sources, depth, inputs, denom) == Ok::<int, ErrorView>(price.atomics as int),
{
}

/// A spot source without route assets gives the pair's return for one whole
/// unit divided by that unit, exactly as fixed-point division rounds it.
pub proof fn lemma_spot_without_route_assets(
    sources: Map<Seq<char>, WasmPriceSourceChecked>,
    depth: nat,
    inputs: PriceInputs,
    denom: Seq<char>,
    pair_address: Addr,
    route_assets: Vec<String>,
    quote: SpotQuote,
)
    requires
        sources.contains_key(denom),
        sources[denom] == (WasmPriceSource::AstroportSpot { pair_address, route_assets }),
        route_assets@.len() == 0,
        find_spot(inputs.spot@, denom) == Some(quote),
        quote.precision <= 38,
    ensures
        registry_price(sources, depth, inputs, denom) == match decimal_ratio_spec(
            quote.return_amount as int,
            pow10(quote.precision as nat),
        ) {
            Some(p) => Ok::<int, ErrorView>(p),
            None => Err(ErrorView::Overflow),
        },
{
}

/// Following route assets that all have fixed prices multiplies the running
/// price by those prices in the order of the route.
pub proof fn lemma_fixed_route_chain(
    sources: Map<Seq<char>, WasmPriceSourceChecked>,
    inputs: PriceInputs,
    acc: int,
    assets: Seq<String>,
    prices: Seq<Decimal>,
    fuel: nat,
)
    requires
        fuel > 0,
        assets.len() == prices.len(),
        forall|i: int|
            0 <= i < assets.len() ==> sources.contains_key(#[trigger] assets[i]@) && sources[assets[i]@]
                == (WasmPriceSource::<Addr>::Fixed { price: prices[i] }),
    ensures
        chain_price(sources, inputs, acc, assets, fuel) == match fold_mul(acc, prices) {
            Some(p) => Ok::<int, ErrorView>(p),
            None => Err(ErrorView::Overflow),
        },
    decreases assets.len(),
{
    if assets.len() > 0 {
        let d = assets[0]@;
        assert(sources.contains_key(d));
        assert(chain_price(sources, inputs, prices[0].atomics as int, Seq::empty(), (fuel - 1) as nat)
            == Ok::<int, ErrorView>(prices[0].atomics as int));
        match decimal_mul_spec(acc, prices[0].atomics as int) {
            None => {},
            Some(q) => {
                assert forall|i: int| 0 <= i < assets.drop_first().len() implies sources.contains_key(
                    #[trigger] assets.drop_first()[i]@,
                ) && sources[assets.drop_first()[i]@] == (WasmPriceSource::<Addr>::Fixed {
                    price: prices.drop_first()[i],
                }) by {
                    assert(assets.drop_first()[i] == assets[i + 1]);
                }
                lemma_fixed_route_chain(
                    sources,
                    inputs,
                    q,
                    assets.drop_first(),
                    prices.drop_first(),
                    fuel,
                );
            },
        }
    }
}

/// The price of a spot source whose route assets all have fixed prices
/// `p1, ..., pn` is the spot price times `p1`, then times `p2`, and so on, in
/// the order of the route, each product rounded down.
pub proof fn lemma_spot_with_fixed_route(
    registry: PriceSources,
    inputs: PriceInputs,
    denom: Seq<char>,
    pair_address: Addr,
    route_assets: Vec<String>,
    prices: Seq<Decimal>,
    quote: SpotQuote,
    spot_price: int,
)
    requires
        registry.wf(),
        registry.spec_sources().contains_key(denom),
        registry.spec_sources()[denom] == (WasmPriceSource::AstroportSpot {
            pair_address,
            route_assets,
        }),
        find_spot(inputs.spot@, denom) == Some(quote),
        quote.precision <= 38,
        decimal_ratio_spec(quote.return_amount as int, pow10(quote.precision as nat)) == Some(
            spot_price,
        ),
        route_assets@.len() == prices.len(),
        forall|i: int|
            0 <= i < route_assets@.len() ==> registry.spec_sources().contains_key(
                #[trigger] route_assets@[i]@,
            ) && registry.spec_sources()[route_assets@[i]@] == (WasmPriceSource::<Addr>::Fixed {
                price: prices[i],
            }),
    ensures
        registry_price(registry.spec_sources(), registry.spec_len(), inputs, denom) == match fold_mul(
            spot_price,
            prices,
        ) {
            Some(p) => Ok::<int, ErrorView>(p),
            None => Err(ErrorView::Overflow),
        },
{
    registry.lemma_len_counts_denoms();
    lemma_fixed_route_chain(
        registry.spec_sources(),
        inputs,
        spot_price,
        route_assets@,
        prices,
        registry.spec_len(),
    );
}

/// The route assets a source names; none for a fixed price.
pub open spec fn route_assets_of(ps: WasmPriceSourceChecked) -> Seq<String> {
    match ps {
        WasmPriceSource::Fixed { .. } => Seq::empty(),
        WasmPriceSource::AstroportSpot { route_assets, .. } => route_assets@,
        WasmPriceSource::AstroportTwap { route_assets, .. } => route_assets@,
    }
}

/// `rank` orders the registered denoms so that every registered route asset
/// ranks below each denom whose source names it. Such a ranking exists exactly
/// when no chain of route assets leads back to where it started.
pub open spec fn ranks_route_assets(
    sources: Map<Seq<char>, WasmPriceSourceChecked>,
    rank: spec_fn(Seq<char>) -> nat,
) -> bool {
    forall|d: Seq<char>, i: int|
        sources.contains_key(d) && 0 <= i < route_assets_of(sources[d]).len()
            && sources.contains_key(#[trigger] route_assets_of(sources[d])[i]@) ==> rank(
            route_assets_of(sources[d])[i]@,
        ) < rank(d)
}

proof fn lemma_chain_within_depth(
    sources: Map<Seq<char>, WasmPriceSourceChecked>,
    rank: spec_fn(Seq<char>) -> nat,
    inputs: PriceInputs,
    acc: int,
    assets: Seq<String>,
    fuel: nat,
)
    requires
        ranks_route_assets(sources, rank),
        forall|i: int|
            0 <= i < assets.len() && sources.contains_key(#[trigger] assets[i]@) ==> rank(assets[i]@)
                < fuel,
    ensures
        !(chain_price(sources, inputs, acc, assets, fuel) is Err && chain_price(
            sources,
            inputs,
            acc,
            assets,
            fuel,
        )->Err_0 is PriceSourceTooDeep),
    decreases fuel, assets.len(),
{
    if assets.len() > 0 {
        let d = assets[0]@;
        if sources.contains_key(d) {
            assert(rank(d) < fuel);
            match base_price(inputs, d, sources[d]) {
                Err(_) => {},
                Ok((b, sub)) => {
                    assert(sub == route_assets_of(sources[d]));
                    assert forall|i: int|
                        0 <= i < sub.len() && sources.contains_key(#[trigger] sub[i]@) implies rank(
                        sub[i]@,
                    ) < (fuel - 1) as nat by {
                        assert(rank(route_assets_of(sources[d])[i]@) < rank(d));
                    }
                    lemma_chain_within_depth(sources, rank, inputs, b, sub, (fuel - 1) as nat);
                    match chain_price(sources, inputs, b, sub, (fuel - 1) as nat) {
                        Err(_) => {},
                        Ok(p) => match decimal_mul_spec(acc, p) {
                            None => {},
                            Some(q) => {
                                let rest = assets.drop_first();
                                assert forall|i: int|
                                    0 <= i < rest.len() && sources.contains_key(
                                        #[trigger] rest[i]@,
                                    ) implies rank(rest[i]@) < fuel by {
                                    assert(rest[i] == assets[i + 1]);
                                }
                                lemma_chain_within_depth(sources, rank, inputs, q, rest, fuel);
                            },
                        },
                    }
                },
            }
        }
    }
}

/// A registry whose denoms can be ranked as `ranks_route_assets` asks, with
/// every rank below `depth`, never reports `PriceSourceTooDeep`. A registry
/// without cycles of route assets has such a ranking below its number of
/// denoms, which `PriceSources::lemma_len_counts_denoms` shows is the depth
/// that `query_price` uses.
pub proof fn lemma_acyclic_registry_within_depth(
    sources: Map<Seq<char>, WasmPriceSourceChecked>,
    rank: spec_fn(Seq<char>) -> nat,
    depth: nat,
    inputs: PriceInputs,
    denom: Seq<char>,
)
    requires
        ranks_route_assets(sources, rank),
        forall|d: Seq<char>| sources.contains_key(d) ==> #[trigger] rank(d) < depth,
    ensures
        !(registry_price(sources, depth, inputs, denom) is Err && registry_price(
            sources,
            depth,
            inputs,
            denom,
        )->Err_0 is PriceSourceTooDeep),
{
    if sources.contains_key(denom) {
        match base_price(inputs, denom, sources[denom]) {
            Err(_) => {},
            Ok((b, sub)) => {
                assert(sub == route_assets_of(sources[denom]));
                assert forall|i: int|
                    0 <= i < sub.len() && sources.contains_key(#[trigger] sub[i]@) implies rank(
                    sub[i]@,
                ) < depth by {
                    assert(rank(route_assets_of(sources[denom])[i]@) < rank(denom));
                }
                lemma_chain_within_depth(sources, rank, inputs, b, sub, depth);
            },
        }
    }
}

} // verus!
