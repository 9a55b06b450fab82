use oracle_swapper::astroport::{AssetInfo, AstroportRoute, AstroportRouteStep, SwapOperation};
use oracle_swapper::decimal::Decimal;
use oracle_swapper::error::ContractError;
use oracle_swapper::route::Route;
use oracle_swapper::swapper::SwapBase;
use oracle_swapper::types::{Addr, Coin, CosmosMsg};

fn native(offer: &str, ask: &str) -> AstroportRouteStep {
    AstroportRouteStep(SwapOperation::AstroSwap {
        offer_asset_info: AssetInfo::NativeToken { denom: offer.to_string() },
        ask_asset_info: AssetInfo::NativeToken { denom: ask.to_string() },
    })
}

fn route() -> AstroportRoute {
    AstroportRoute::new(Addr::unchecked("router"), vec![native("uosmo", "uatom"), native("uatom", "usd")])
}

fn swapper_with_route() -> SwapBase<AstroportRoute> {
    let owner = Addr::unchecked("owner");
    let mut base = SwapBase::instantiate(owner.duplicate());
    base.set_route(&owner, "uosmo".to_string(), "usd".to_string(), route(), &vec![]).unwrap();
    base
}

#[test]
fn setting_same_route_twice_keeps_one_route() {
    let owner = Addr::unchecked("owner");
    let mut base = SwapBase::instantiate(owner.duplicate());
    assert!(base.set_route(&owner, "uosmo".to_string(), "usd".to_string(), route(), &vec![]).is_ok());
    let first = base.query_route("uosmo", "usd").unwrap().to_display_string().unwrap();
    assert!(base.set_route(&owner, "uosmo".to_string(), "usd".to_string(), route(), &vec![]).is_ok());
    let second = base.query_route("uosmo", "usd").unwrap().to_display_string().unwrap();
    assert_eq!(first, second);
    assert_eq!(second, "uosmo:uatom|uatom:usd");
}

#[test]
fn only_owner_sets_routes() {
    let mut base = SwapBase::instantiate(Addr::unchecked("owner"));
    let err = base
        .set_route(&Addr::unchecked("mallory"), "uosmo".to_string(), "usd".to_string(), route(), &vec![])
        .unwrap_err();
    assert!(matches!(err, ContractError::Unauthorized { .. }));
    assert_eq!(err.message(), "mallory is not authorized to set route");
    assert!(base.query_route("uosmo", "usd").is_err());
}

#[test]
fn invalid_route_is_not_stored() {
    let owner = Addr::unchecked("owner");
    let mut base = SwapBase::instantiate(owner.duplicate());
    let err = base
        .set_route(&owner, "uosmo".to_string(), "uatom".to_string(), route(), &vec![])
        .unwrap_err();
    assert!(matches!(err, ContractError::InvalidRoute { .. }));
    assert!(matches!(
        base.query_route("uosmo", "uatom"),
        Err(ContractError::RouteNotFound { .. })
    ));
}

#[test]
fn swap_emits_swap_then_settlement() {
    let base = swapper_with_route();
    let contract = Addr::unchecked("swapper");
    let user = Addr::unchecked("user");
    let coin = Coin { denom: "uosmo".to_string(), amount: 1_000_000_000_000 };
    let msgs = base
        .swap_exact_in(&contract, &user, &coin, "usd", Decimal::zero(), &vec![])
        .unwrap();
    assert_eq!(msgs.len(), 2);
    assert!(matches!(msgs[0], CosmosMsg::AstroportSwap { .. }));
    match &msgs[1] {
        CosmosMsg::TransferResult { contract_addr, recipient, denom_in, denom_out } => {
            assert_eq!(contract_addr.as_str(), "swapper");
            assert_eq!(recipient.as_str(), "user");
            assert_eq!(denom_in, "uosmo");
            assert_eq!(denom_out, "usd");
        }
        other => panic!("unexpected {:?}", other),
    }
}

#[test]
fn swap_without_route_fails() {
    let base = swapper_with_route();
    let coin = Coin { denom: "uatom".to_string(), amount: 1 };
    let err = base
        .swap_exact_in(&Addr::unchecked("swapper"), &Addr::unchecked("u"), &coin, "usd", Decimal::zero(), &vec![])
        .unwrap_err();
    assert_eq!(err.message(), "No route found from uatom to usd");
}

#[test]
fn test_transfer_result() {
    let base = swapper_with_route();
    let admin = Addr::unchecked("admin");
    let denom_in = "uosmo".to_string();
    let denom_out = "usd".to_string();
    let err = base
        .transfer_result(
            &Addr::unchecked("swapper"),
            &admin,
            admin.duplicate(),
            Coin { denom: denom_in, amount: 1_000_000_000_000 },
            Coin { denom: denom_out, amount: 0 },
        )
        .unwrap_err();
    assert!(err.message().contains("is not authorized"));
}

#[test]
fn settlement_by_contract_sends_nonzero_balances() {
    let base = swapper_with_route();
    let contract = Addr::unchecked("swapper");
    let msg = base
        .transfer_result(
            &contract,
            &contract,
            Addr::unchecked("user"),
            Coin { denom: "uosmo".to_string(), amount: 0 },
            Coin { denom: "usd".to_string(), amount: 500 },
        )
        .unwrap();
    match msg {
        CosmosMsg::BankSend { to_address, amount } => {
            assert_eq!(to_address.as_str(), "user");
            assert_eq!(amount.len(), 1);
            assert_eq!(amount[0].denom, "usd");
            assert_eq!(amount[0].amount, 500);
        }
        other => panic!("unexpected {:?}", other),
    }
    let msg = base
        .transfer_result(
            &contract,
            &contract,
            Addr::unchecked("user"),
            Coin { denom: "uosmo".to_string(), amount: 3 },
            Coin { denom: "usd".to_string(), amount: 500 },
        )
        .unwrap();
    match msg {
        CosmosMsg::BankSend { amount, .. } => {
            assert_eq!(amount.len(), 2);
            assert_eq!(amount[0].denom, "uosmo");
        }
        other => panic!("unexpected {:?}", other),
    }
}

#[test]
fn swap_accepts_any_slippage_for_astroport() {
    let base = swapper_with_route();
    let coin = Coin { denom: "uosmo".to_string(), amount: 10 };
    let three = Decimal::checked_from_ratio(3u128, 1u128).unwrap();
    let msgs = base
        .swap_exact_in(&Addr::unchecked("swapper"), &Addr::unchecked("u"), &coin, "usd", three, &vec![])
        .unwrap();
    assert_eq!(msgs.len(), 2);
}

#[test]
fn only_contract_may_settle() {
    let base = swapper_with_route();
    let contract = Addr::unchecked("swapper");
    assert!(base.authorize_transfer(&contract, &contract).is_ok());
    let err = base.authorize_transfer(&contract, &Addr::unchecked("eve")).unwrap_err();
    assert_eq!(err.message(), "eve is not authorized to transfer result");
}
