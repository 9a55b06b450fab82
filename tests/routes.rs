use oracle_swapper::astroport::{AssetInfo, AstroportRoute, AstroportRouteStep, SwapOperation};
use oracle_swapper::decimal::Decimal;
use oracle_swapper::error::ContractError;
use oracle_swapper::osmosis::{query_out_amount, OsmosisRoute, OsmosisRouteStep, SwapAmountInRoute};
use oracle_swapper::route::{PoolDenoms, Route, RouteStep};
use oracle_swapper::types::{Addr, Coin, CosmosMsg};

fn native(offer: &str, ask: &str) -> AstroportRouteStep {
    AstroportRouteStep(SwapOperation::AstroSwap {
        offer_asset_info: AssetInfo::NativeToken { denom: offer.to_string() },
        ask_asset_info: AssetInfo::NativeToken { denom: ask.to_string() },
    })
}

fn astro(steps: Vec<AstroportRouteStep>) -> AstroportRoute {
    AstroportRoute::new(Addr::unchecked("router"), steps)
}

fn reason_of(r: Result<(), ContractError>) -> String {
    match r {
        Err(ContractError::InvalidRoute { reason }) => reason,
        other => panic!("expected an invalid route, got {:?}", other),
    }
}

#[test]
fn two_hop_route_is_valid_for_its_end_denoms() {
    let route = astro(vec![native("A", "B"), native("B", "C")]);
    assert!(route.validate(&vec![], "A", "C").is_ok());
}

#[test]
fn two_hop_route_fails_for_wrong_output() {
    let route = astro(vec![native("A", "B"), native("B", "C")]);
    assert_eq!(
        reason_of(route.validate(&vec![], "A", "B")),
        "the route's output denom C does not match the desired output B"
    );
}

#[test]
fn route_back_to_start_is_a_loop() {
    let route = astro(vec![native("A", "B"), native("B", "A")]);
    assert_eq!(reason_of(route.validate(&vec![], "A", "A")), "route contains a loop: denom A seen twice");
}

#[test]
fn empty_route_needs_a_step() {
    let route = astro(vec![]);
    let reason = reason_of(route.validate(&vec![], "A", "B"));
    assert!(reason.contains("at least one step"));
}

#[test]
fn step_asking_for_input_denom_is_a_loop() {
    let route = astro(vec![native("A", "A")]);
    assert_eq!(reason_of(route.validate(&vec![], "A", "A")), "route contains a loop: denom A seen twice");
}

#[test]
fn repeated_intermediate_hop_is_a_loop() {
    let route = astro(vec![native("A", "B"), native("B", "C"), native("C", "B"), native("B", "D")]);
    assert_eq!(reason_of(route.validate(&vec![], "A", "D")), "route contains a loop: denom B seen twice");
}

#[test]
fn discontinuous_route_is_rejected() {
    let route = astro(vec![native("A", "B"), native("C", "D")]);
    assert_eq!(
        reason_of(route.validate(&vec![], "A", "D")),
        "Swap operation does not contain input denom B"
    );
}

#[test]
fn native_swap_and_cw20_steps_are_rejected() {
    let route = astro(vec![AstroportRouteStep(SwapOperation::NativeSwap {
        offer_denom: "A".to_string(),
        ask_denom: "B".to_string(),
    })]);
    assert_eq!(reason_of(route.validate(&vec![], "A", "B")), "Astroport NativeSwap is not supported");
    let route = astro(vec![AstroportRouteStep(SwapOperation::AstroSwap {
        offer_asset_info: AssetInfo::NativeToken { denom: "A".to_string() },
        ask_asset_info: AssetInfo::Token { contract_addr: "cw20".to_string() },
    })]);
    assert_eq!(reason_of(route.validate(&vec![], "A", "B")), "Cw20 tokens are not supported");
}

#[test]
fn astroport_step_reports_its_denoms() {
    let step = native("uatom", "uosmo");
    assert_eq!(step.denoms().unwrap(), ("uatom".to_string(), "uosmo".to_string()));
    assert_eq!(step.denom_out().unwrap(), "uosmo");
    match step.to_swap_operation() {
        SwapOperation::AstroSwap { ask_asset_info: AssetInfo::NativeToken { denom }, .. } => {
            assert_eq!(denom, "uosmo")
        }
        other => panic!("unexpected {:?}", other),
    }
}

#[test]
fn astroport_route_display_joins_steps() {
    let route = astro(vec![native("uatom", "uosmo"), native("uosmo", "uusd")]);
    assert_eq!(route.to_display_string().unwrap(), "uatom:uosmo|uosmo:uusd");
}

#[test]
fn astroport_swap_msg_carries_all_operations() {
    let route = astro(vec![native("uatom", "uosmo"), native("uosmo", "uusd")]);
    let coin = Coin { denom: "uatom".to_string(), amount: 1_000 };
    let msg = route
        .build_exact_in_swap_msg(&Addr::unchecked("me"), &coin, Decimal::zero(), &vec![])
        .unwrap();
    match msg {
        CosmosMsg::AstroportSwap { router, operations, funds } => {
            assert_eq!(router.as_str(), "router");
            assert_eq!(operations.len(), 2);
            assert_eq!(funds.len(), 1);
            assert_eq!(funds[0].amount, 1_000);
        }
        other => panic!("unexpected {:?}", other),
    }
    let empty = astro(vec![]);
    assert!(empty
        .build_exact_in_swap_msg(&Addr::unchecked("me"), &coin, Decimal::zero(), &vec![])
        .is_err());
}

fn osmo_step(pool_id: u64, out: &str) -> OsmosisRouteStep {
    OsmosisRouteStep(SwapAmountInRoute { pool_id, token_out_denom: out.to_string() })
}

fn pools() -> Vec<PoolDenoms> {
    vec![
        PoolDenoms { pool_id: 1, denoms: vec!["uatom".to_string(), "uosmo".to_string()] },
        PoolDenoms { pool_id: 69, denoms: vec!["uosmo".to_string(), "uusdc".to_string()] },
    ]
}

#[test]
fn osmosis_route_checks_pool_contents() {
    let route = OsmosisRoute(vec![osmo_step(1, "uosmo"), osmo_step(69, "uusdc")]);
    assert!(route.validate(&pools(), "uatom", "uusdc").is_ok());
    assert_eq!(
        reason_of(route.validate(&pools(), "ujuno", "uusdc")),
        "pool 1 does not contain input denom ujuno"
    );
    let route = OsmosisRoute(vec![osmo_step(1, "uusdc")]);
    assert_eq!(
        reason_of(route.validate(&pools(), "uatom", "uusdc")),
        "pool 1 does not contain output denom uusdc"
    );
    let route = OsmosisRoute(vec![osmo_step(7, "uusdc")]);
    assert_eq!(reason_of(route.validate(&pools(), "uatom", "uusdc")), "pool 7 not found");
}

#[test]
fn osmosis_route_display_lists_pools() {
    let route = OsmosisRoute(vec![osmo_step(1, "uosmo"), osmo_step(69, "uusdc")]);
    assert_eq!(route.to_display_string().unwrap(), "1:uosmo|69:uusdc");
    assert_eq!(route.swap_routes().len(), 2);
    assert_eq!(route.0[1].ask_denom(), "uusdc");
}

#[test]
fn osmosis_out_amount_multiplies_hop_prices() {
    let coin = Coin { denom: "uatom".to_string(), amount: 1_000 };
    let prices = vec![
        Decimal::checked_from_ratio(3u128, 2u128).unwrap(),
        Decimal::checked_from_ratio(3u128, 1u128).unwrap(),
    ];
    assert_eq!(query_out_amount(&coin, &prices).unwrap(), 4_500);
    let huge = vec![Decimal::raw(u128::MAX), Decimal::raw(u128::MAX)];
    assert!(matches!(query_out_amount(&coin, &huge), Err(ContractError::Overflow)));
}

#[test]
fn osmosis_swap_msg_asks_for_estimate_less_slippage() {
    let route = OsmosisRoute(vec![osmo_step(1, "uosmo"), osmo_step(69, "uusdc")]);
    let coin = Coin { denom: "uatom".to_string(), amount: 1_000 };
    let prices = vec![
        Decimal::checked_from_ratio(3u128, 2u128).unwrap(),
        Decimal::checked_from_ratio(3u128, 1u128).unwrap(),
    ];
    let slippage = Decimal::checked_from_ratio(1u128, 100u128).unwrap();
    let msg = route.build_exact_in_swap_msg(&Addr::unchecked("me"), &coin, slippage, &prices).unwrap();
    match msg {
        CosmosMsg::OsmosisSwap { sender, routes, token_in, token_out_min_amount } => {
            assert_eq!(sender.as_str(), "me");
            assert_eq!(routes.len(), 2);
            assert_eq!(routes[1].pool_id, 69);
            assert_eq!(token_in.amount, 1_000);
            assert_eq!(token_out_min_amount, 4_455);
        }
        other => panic!("unexpected {:?}", other),
    }
}

#[test]
fn astroport_builder_ignores_slippage_above_one() {
    let route = astro(vec![native("uatom", "uosmo")]);
    let coin = Coin { denom: "uatom".to_string(), amount: 5 };
    let two = Decimal::checked_from_ratio(2u128, 1u128).unwrap();
    assert!(route.build_exact_in_swap_msg(&Addr::unchecked("me"), &coin, two, &vec![]).is_ok());
    let empty = astro(vec![]);
    match empty.build_exact_in_swap_msg(&Addr::unchecked("me"), &coin, two, &vec![]) {
        Err(ContractError::InvalidRoute { reason }) => {
            assert_eq!(reason, "the route must contain at least one step")
        }
        other => panic!("unexpected {:?}", other),
    }
}

#[test]
fn osmosis_builder_rejects_slippage_above_one() {
    let coin = Coin { denom: "uatom".to_string(), amount: 1_000 };
    let two = Decimal::checked_from_ratio(2u128, 1u128).unwrap();
    let route = OsmosisRoute(vec![osmo_step(1, "uosmo")]);
    let prices = vec![Decimal::one()];
    assert!(matches!(
        route.build_exact_in_swap_msg(&Addr::unchecked("me"), &coin, two, &prices),
        Err(ContractError::InvalidSlippage)
    ));
    let empty = OsmosisRoute(vec![]);
    assert!(matches!(
        empty.build_exact_in_swap_msg(&Addr::unchecked("me"), &coin, two, &prices),
        Err(ContractError::InvalidRoute { .. })
    ));
    let exact = route.build_exact_in_swap_msg(&Addr::unchecked("me"), &coin, Decimal::one(), &prices).unwrap();
    match exact {
        CosmosMsg::OsmosisSwap { token_out_min_amount, .. } => assert_eq!(token_out_min_amount, 0),
        other => panic!("unexpected {:?}", other),
    }
}

#[test]
fn osmosis_display_writes_pool_zero() {
    let route = OsmosisRoute(vec![osmo_step(0, "a"), osmo_step(1_234_567_890, "b")]);
    assert_eq!(route.to_display_string().unwrap(), "0:a|1234567890:b");
}
