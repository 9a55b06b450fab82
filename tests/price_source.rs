use oracle_swapper::decimal::Decimal;
use oracle_swapper::error::ContractError;
use oracle_swapper::market::{select_twap_snapshot, PriceInputs, SpotQuote, TwapQuote, TwapSnapshot};
use oracle_swapper::price_source::{WasmPriceSource, WasmPriceSourceChecked, WasmPriceSourceUnchecked};
use oracle_swapper::registry::PriceSources;
use oracle_swapper::types::Addr;

fn half() -> Decimal {
    Decimal::checked_from_ratio(1u128, 2u128).unwrap()
}

fn no_inputs() -> PriceInputs {
    PriceInputs { now: 0, spot: vec![], twap: vec![] }
}

fn fixed(price: Decimal) -> WasmPriceSourceChecked {
    WasmPriceSource::Fixed { price }
}

fn spot(pair: &str, route_assets: Vec<&str>) -> WasmPriceSourceChecked {
    WasmPriceSource::AstroportSpot {
        pair_address: Addr::unchecked(pair),
        route_assets: route_assets.into_iter().map(|s| s.to_string()).collect(),
    }
}

fn spot_inputs(denom: &str, precision: u8, return_amount: u128) -> PriceInputs {
    PriceInputs {
        now: 0,
        spot: vec![SpotQuote { denom: denom.to_string(), precision, return_amount }],
        twap: vec![],
    }
}

#[test]
fn display_fixed_price_source() {
    let ps: WasmPriceSourceChecked = WasmPriceSource::Fixed { price: half() };
    assert_eq!(ps.to_display_string(), "fixed:0.5")
}

#[test]
fn display_spot_price_source() {
    let ps = WasmPriceSourceChecked::AstroportSpot {
        pair_address: Addr::unchecked("fake_addr"),
        route_assets: vec![],
    };
    assert_eq!(ps.to_display_string(), "astroport_spot:fake_addr. Route: ")
}

#[test]
fn display_spot_price_source_with_route() {
    let ps = WasmPriceSourceChecked::AstroportSpot {
        pair_address: Addr::unchecked("fake_addr"),
        route_assets: vec!["fake_asset1".to_string(), "fake_asset2".to_string()],
    };
    assert_eq!(ps.to_display_string(), "astroport_spot:fake_addr. Route: fake_asset1,fake_asset2")
}

#[test]
fn display_twap_price_source() {
    let ps = WasmPriceSourceChecked::AstroportTwap {
        pair_address: Addr::unchecked("pair"),
        window_size: 300,
        tolerance: 60,
        route_assets: vec!["uosmo".to_string()],
    };
    assert_eq!(ps.to_display_string(), "astroport_twap:pair:300:60. Route: uosmo")
}

#[test]
fn validate_fixed_price_source() {
    let ps: WasmPriceSourceUnchecked = WasmPriceSource::Fixed { price: half() };
    let price_sources = PriceSources::new();
    let denom = "uusd";
    let base_denom = "uusd";
    let res = ps.validate(denom, base_denom, &price_sources, &vec![]);
    assert!(res.is_ok());
}

fn pair() -> Vec<String> {
    vec!["uatom".to_string(), "uosmo".to_string()]
}

fn spot_unchecked(route_assets: Vec<&str>) -> WasmPriceSourceUnchecked {
    WasmPriceSource::AstroportSpot {
        pair_address: "pair".to_string(),
        route_assets: route_assets.into_iter().map(|s| s.to_string()).collect(),
    }
}

fn registered_osmo_and_usd() -> PriceSources {
    let mut sources = PriceSources::new();
    sources.set("usd".to_string(), fixed(Decimal::one()));
    sources.set("uosmo".to_string(), fixed(Decimal::checked_from_ratio(2u128, 1u128).unwrap()));
    sources
}

fn source_reason(r: Result<WasmPriceSourceChecked, ContractError>) -> String {
    match r {
        Err(ContractError::InvalidPriceSource { reason }) => reason,
        other => panic!("expected an invalid price source, got {:?}", other),
    }
}

#[test]
fn spot_route_through_pair_to_base_is_accepted() {
    let sources = registered_osmo_and_usd();
    let checked = spot_unchecked(vec!["uosmo", "usd"]).validate("uatom", "usd", &sources, &pair()).unwrap();
    assert_eq!(checked.to_display_string(), "astroport_spot:pair. Route: uosmo,usd");
}

#[test]
fn first_route_asset_must_be_in_pair() {
    let sources = registered_osmo_and_usd();
    assert_eq!(
        source_reason(spot_unchecked(vec!["usd"]).validate("uatom", "usd", &sources, &pair())),
        "pair does not contain denom usd"
    );
}

#[test]
fn last_route_asset_must_be_base_denom() {
    let sources = registered_osmo_and_usd();
    assert_eq!(
        source_reason(spot_unchecked(vec!["uosmo"]).validate("uatom", "usd", &sources, &pair())),
        "last route asset uosmo is not the base denom usd"
    );
}

#[test]
fn route_assets_need_registered_sources() {
    let sources = PriceSources::new();
    assert_eq!(
        source_reason(spot_unchecked(vec!["uosmo", "usd"]).validate("uatom", "usd", &sources, &pair())),
        "No price source for route asset uosmo"
    );
}

#[test]
fn pair_must_hold_denom_and_base_without_route_assets() {
    let sources = PriceSources::new();
    assert_eq!(
        source_reason(spot_unchecked(vec![]).validate("ujuno", "uosmo", &sources, &pair())),
        "pair does not contain denom ujuno"
    );
    assert_eq!(
        source_reason(spot_unchecked(vec![]).validate("uatom", "usd", &sources, &pair())),
        "pair does not contain denom usd"
    );
    let twap: WasmPriceSourceUnchecked = WasmPriceSource::AstroportTwap {
        pair_address: "pair".to_string(),
        window_size: 10,
        tolerance: 10,
        route_assets: vec!["uosmo".to_string(), "usd".to_string()],
    };
    assert!(twap.validate("uatom", "usd", &registered_osmo_and_usd(), &pair()).is_ok());
}

#[test]
fn test_set_fixed_price_source() {
    let mut sources = PriceSources::new();
    let denom = "usd";
    let ps: WasmPriceSourceUnchecked = WasmPriceSource::Fixed { price: Decimal::one() };
    let checked = ps.validate(denom, denom, &sources, &vec![]).unwrap();
    sources.set(denom.to_string(), checked);
    match sources.get(denom) {
        Some(WasmPriceSource::Fixed { price }) => assert_eq!(*price, Decimal::one()),
        other => panic!("unexpected {:?}", other),
    }
    assert_eq!(sources.len(), 1);
}

#[test]
fn remove_price_source() {
    let mut sources = PriceSources::new();
    let denom = "uusd";
    sources.set(denom.to_string(), fixed(Decimal::one()));
    sources.remove(denom);
    assert!(sources.get(denom).is_none());
    assert_eq!(sources.len(), 0);
}

#[test]
fn test_query_fixed_price() {
    let mut sources = PriceSources::new();
    let denom = "uusd";
    sources.set(denom.to_string(), fixed(Decimal::one()));
    let price = sources.query_price(&no_inputs(), denom, "uusd").unwrap();
    assert_eq!(price, Decimal::one());
}

#[test]
fn test_query_astroport_xyk_spot_price_without_route_asset() {
    let mut sources = PriceSources::new();
    let ps: WasmPriceSourceUnchecked = WasmPriceSource::AstroportSpot {
        pair_address: "pair_address".to_string(),
        route_assets: vec![],
    };
    let checked = ps.validate("uatom", "uosmo", &sources, &pair()).unwrap();
    sources.set("uatom".to_string(), checked);
    // The pair's simulated swap of one whole atom (10^6 uatom) returns 99_999 uosmo.
    let price = sources.query_price(&spot_inputs("uatom", 6, 99_999), "uatom", "uosmo").unwrap();
    assert_eq!(price, Decimal::raw(99_999_000_000_000_000));
}

#[test]
fn fixed_price_is_returned_for_any_base_denom() {
    let mut sources = PriceSources::new();
    sources.set("uusd".to_string(), fixed(half()));
    for base in ["uusd", "uosmo", ""] {
        let price = sources.query_price(&no_inputs(), "uusd", base).unwrap();
        assert_eq!(price, Decimal::raw(500_000_000_000_000_000));
    }
}

#[test]
fn spot_price_without_route_assets_is_return_over_one_unit() {
    let mut sources = PriceSources::new();
    sources.set("uatom".to_string(), spot("pair", vec![]));
    let price = sources.query_price(&spot_inputs("uatom", 6, 100_000), "uatom", "usd").unwrap();
    assert_eq!(price, Decimal::raw(100_000_000_000_000_000));
}

#[test]
fn spot_price_is_multiplied_by_route_assets_in_order() {
    let mut sources = PriceSources::new();
    sources.set("uosmo".to_string(), fixed(Decimal::checked_from_ratio(2u128, 1u128).unwrap()));
    sources.set("usd".to_string(), fixed(half()));
    sources.set("uatom".to_string(), spot("pair", vec!["uosmo", "usd"]));
    let price = sources.query_price(&spot_inputs("uatom", 6, 100_000), "uatom", "usd").unwrap();
    assert_eq!(price, Decimal::raw(100_000_000_000_000_000));
}

#[test]
fn reversing_route_assets_changes_a_rounded_price() {
    let two = Decimal::checked_from_ratio(2u128, 1u128).unwrap();
    let mut sources = PriceSources::new();
    sources.set("two".to_string(), fixed(two));
    sources.set("half".to_string(), fixed(half()));
    sources.set("a".to_string(), spot("pair", vec!["half", "two"]));
    sources.set("b".to_string(), spot("pair", vec!["two", "half"]));
    let inputs = PriceInputs {
        now: 0,
        spot: vec![
            SpotQuote { denom: "a".to_string(), precision: 18, return_amount: 1 },
            SpotQuote { denom: "b".to_string(), precision: 18, return_amount: 1 },
        ],
        twap: vec![],
    };
    assert_eq!(sources.query_price(&inputs, "a", "usd").unwrap(), Decimal::raw(0));
    assert_eq!(sources.query_price(&inputs, "b", "usd").unwrap(), Decimal::raw(1));
}

#[test]
fn missing_route_asset_source_names_the_denom() {
    let mut sources = PriceSources::new();
    sources.set("uatom".to_string(), spot("pair", vec!["uosmo"]));
    match sources.query_price(&spot_inputs("uatom", 6, 100_000), "uatom", "usd") {
        Err(ContractError::InvalidPrice { reason }) => {
            assert_eq!(reason, "No price source for route asset uosmo")
        }
        other => panic!("unexpected {:?}", other),
    }
}

#[test]
fn unregistered_denom_is_not_found() {
    let sources = PriceSources::new();
    assert!(matches!(
        sources.query_price(&no_inputs(), "uatom", "usd"),
        Err(ContractError::PriceSourceNotFound { .. })
    ));
}

#[test]
fn missing_spot_quote_is_reported() {
    let mut sources = PriceSources::new();
    sources.set("uatom".to_string(), spot("pair", vec![]));
    match sources.query_price(&no_inputs(), "uatom", "usd") {
        Err(ContractError::MissingQuote { denom }) => assert_eq!(denom, "uatom"),
        other => panic!("unexpected {:?}", other),
    }
}

#[test]
fn too_large_precision_overflows() {
    let mut sources = PriceSources::new();
    sources.set("uatom".to_string(), spot("pair", vec![]));
    assert!(matches!(
        sources.query_price(&spot_inputs("uatom", 39, 1), "uatom", "usd"),
        Err(ContractError::Overflow)
    ));
}

#[test]
fn route_multiplication_overflow_is_reported() {
    let mut sources = PriceSources::new();
    sources.set("big".to_string(), fixed(Decimal::raw(u128::MAX)));
    sources.set("uatom".to_string(), spot("pair", vec!["big"]));
    assert!(matches!(
        sources.query_price(&spot_inputs("uatom", 0, 10), "uatom", "usd"),
        Err(ContractError::Overflow)
    ));
}

#[test]
fn cyclic_route_assets_report_too_deep() {
    let mut sources = PriceSources::new();
    sources.set("a".to_string(), spot("pair_a", vec!["b"]));
    sources.set("b".to_string(), spot("pair_b", vec!["a"]));
    let inputs = PriceInputs {
        now: 0,
        spot: vec![
            SpotQuote { denom: "a".to_string(), precision: 0, return_amount: 1 },
            SpotQuote { denom: "b".to_string(), precision: 0, return_amount: 1 },
        ],
        twap: vec![],
    };
    assert!(matches!(
        sources.query_price(&inputs, "a", "usd"),
        Err(ContractError::PriceSourceTooDeep { .. })
    ));
}

fn snap(timestamp: u64, atomics: u128) -> TwapSnapshot {
    TwapSnapshot { timestamp, price: Decimal::raw(atomics) }
}

#[test]
fn twap_picks_snapshot_closest_to_window() {
    let snaps = vec![snap(600, 1), snap(680, 2), snap(700, 3), snap(760, 4)];
    let best = select_twap_snapshot(&snaps, 1000, 300, 60).unwrap();
    assert_eq!(best.timestamp, 700);
}

#[test]
fn twap_tie_prefers_more_recent_snapshot() {
    let snaps = vec![snap(690, 1), snap(710, 2)];
    let best = select_twap_snapshot(&snaps, 1000, 300, 60).unwrap();
    assert_eq!(best.timestamp, 710);
}

#[test]
fn twap_without_snapshot_in_window_fails() {
    let mut sources = PriceSources::new();
    sources.set(
        "uatom".to_string(),
        WasmPriceSource::AstroportTwap {
            pair_address: Addr::unchecked("pair"),
            window_size: 300,
            tolerance: 60,
            route_assets: vec![],
        },
    );
    let inputs = PriceInputs {
        now: 1000,
        spot: vec![],
        twap: vec![TwapQuote { denom: "uatom".to_string(), snapshots: vec![snap(100, 5)] }],
    };
    match sources.query_price(&inputs, "uatom", "usd") {
        Err(ContractError::InvalidPrice { reason }) => {
            assert_eq!(reason, "No TWAP snapshot within the window for uatom")
        }
        other => panic!("unexpected {:?}", other),
    }
}

#[test]
fn twap_price_goes_through_route_assets() {
    let mut sources = PriceSources::new();
    sources.set("usd".to_string(), fixed(half()));
    sources.set(
        "uatom".to_string(),
        WasmPriceSource::AstroportTwap {
            pair_address: Addr::unchecked("pair"),
            window_size: 300,
            tolerance: 60,
            route_assets: vec!["usd".to_string()],
        },
    );
    let inputs = PriceInputs {
        now: 1000,
        spot: vec![],
        twap: vec![TwapQuote {
            denom: "uatom".to_string(),
            snapshots: vec![snap(690, 8_000_000_000_000_000_000), snap(760, 2)],
        }],
    };
    let price = sources.query_price(&inputs, "uatom", "usd").unwrap();
    assert_eq!(price, Decimal::raw(4_000_000_000_000_000_000));
}
