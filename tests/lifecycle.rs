use warehouse_facility::contract::{
    accept_pledge, cancel_pledge, execute, execute_pledge, instantiate, propose_pledge, query,
    QueryResponse,
};
use warehouse_facility::contract_info::{ContractInfo, CONTRACT_TYPE, CONTRACT_VERSION};
use warehouse_facility::effects::{Coin, Effect, Entity, MarkerAccess};
use warehouse_facility::error::ContractError;
use warehouse_facility::msg::{Authorize, ExecuteMsg, InstantiateMsg, QueryMsg, Validate};
use warehouse_facility::rate::{marker_split, parse_advance_rate, parse_paydown_rate};
use warehouse_facility::state::{
    get_asset_ids, get_pledge_ids, load_asset, load_paydown, load_pledge, AssetState, Bound,
    Facility, PaydownState, PledgeState, Store,
};

const ORIGINATOR: &str = "contract_originator";
const WAREHOUSE: &str = "contract_warehouse";
const CONTRACT: &str = "contract_address";
const STABLE: &str = "test.denom.stable";

const PLEDGE_ID: &str = "c8a6a8b0-5a3e-4a57-9bb1-1d0d0c9f5a01";
const ASSET_1: &str = "0b8d4f62-6c38-4b0b-9a1e-2f7c3c3e8a11";
const ASSET_2: &str = "4f3a2c1d-0e9b-4c8a-8f7e-6d5c4b3a2f22";
const PAYDOWN_ID: &str = "7e6d5c4b-3a2f-4e1d-9c8b-7a6f5e4d3c33";

fn facility(advance_rate: &str) -> Facility {
    Facility {
        originator: ORIGINATOR.to_string(),
        warehouse: WAREHOUSE.to_string(),
        escrow_marker: "escrow_marker".to_string(),
        marker_denom: "test.denom.wf1".to_string(),
        stablecoin_denom: STABLE.to_string(),
        advance_rate: advance_rate.to_string(),
        paydown_rate: "102.25".to_string(),
    }
}

fn info() -> ContractInfo {
    ContractInfo::new(
        "contract_admin".to_string(),
        "contract_bind_name".to_string(),
        "contract_name".to_string(),
        "ver".to_string(),
        facility("75.125"),
    )
}

fn coins(amount: u128, denom: &str) -> Vec<Coin> {
    vec![Coin { denom: denom.to_string(), amount }]
}

fn pledge_state(store: &Store, id: &str) -> PledgeState {
    load_pledge(store, id).unwrap().state
}

fn fund_movements(effects: &[Effect]) -> Vec<(String, u128, String)> {
    effects
        .iter()
        .filter_map(|e| match e {
            Effect::SendFunds { to_address, amount, denom } => {
                Some((to_address.clone(), *amount, denom.clone()))
            }
            _ => None,
        })
        .collect()
}

fn propose_msg(id: &str, assets: &[&str], total_advance: u64, denom: &str) -> ExecuteMsg {
    ExecuteMsg::ProposePledge {
        id: id.to_string(),
        assets: assets.iter().map(|a| a.to_string()).collect(),
        total_advance,
        asset_marker_denom: denom.to_string(),
    }
}

fn proposed_store() -> Store {
    let mut store = Store::new();
    execute(
        &mut store,
        &info(),
        CONTRACT,
        ORIGINATOR,
        &vec![],
        propose_msg(PLEDGE_ID, &[ASSET_1, ASSET_2], 1000, "pool.p1"),
    )
    .unwrap();
    store
}

#[test]
fn contract_info_new_keeps_its_fields() {
    let contract_info = info();
    assert_eq!(contract_info.admin, "contract_admin");
    assert_eq!(contract_info.bind_name, "contract_bind_name");
    assert_eq!(contract_info.contract_name, "contract_name");
    assert_eq!(contract_info.version, "ver");
    assert_eq!(contract_info.contract_type, CONTRACT_TYPE);
    assert_eq!(contract_info.contract_version, CONTRACT_VERSION);
    assert_eq!(contract_info.facility.originator, "contract_originator");
    assert_eq!(contract_info.facility.warehouse, "contract_warehouse");
    assert_eq!(contract_info.facility.marker_denom, "test.denom.wf1");
    assert_eq!(contract_info.facility.stablecoin_denom, "test.denom.stable");
    assert_eq!(contract_info.facility.advance_rate, "75.125");
    assert_eq!(contract_info.facility.paydown_rate, "102.25");
}

#[test]
fn instantiate_splits_marker_supply() {
    let msg = InstantiateMsg {
        bind_name: "wf1.pb".to_string(),
        contract_name: "facility".to_string(),
        facility: facility("75.125"),
    };
    let out = instantiate(msg, "admin".to_string(), CONTRACT).unwrap();
    assert_eq!(out.split.supply, 100000);
    assert_eq!(out.split.to_warehouse, 75125);
    assert_eq!(out.split.to_originator, 24875);
    assert_eq!(out.split.to_warehouse + out.split.to_originator, out.split.supply);
    assert_eq!(out.contract_info.version, CONTRACT_VERSION);
    assert_eq!(out.effects.len(), 7);
    match &out.effects[1] {
        Effect::CreateMarker { supply, denom } => {
            assert_eq!(*supply, 100000);
            assert_eq!(denom, "test.denom.wf1");
        }
        e => panic!("unexpected effect: {:?}", e),
    }
    match &out.effects[5] {
        Effect::WithdrawCoins { amount, recipient, .. } => {
            assert_eq!(*amount, 75125);
            assert_eq!(recipient, WAREHOUSE);
        }
        e => panic!("unexpected effect: {:?}", e),
    }
    match &out.effects[6] {
        Effect::WithdrawCoins { amount, recipient, .. } => {
            assert_eq!(*amount, 24875);
            assert_eq!(recipient, ORIGINATOR);
        }
        e => panic!("unexpected effect: {:?}", e),
    }
}

#[test]
fn split_of_whole_and_fine_rates() {
    let full = marker_split(parse_advance_rate("100").unwrap());
    assert_eq!((full.supply, full.to_warehouse, full.to_originator), (100, 100, 0));
    let fine = marker_split(parse_advance_rate("0.001").unwrap());
    assert_eq!((fine.supply, fine.to_warehouse, fine.to_originator), (100000, 1, 99999));
    let padded = marker_split(parse_advance_rate("50.50").unwrap());
    assert_eq!(
        (padded.supply, padded.to_warehouse, padded.to_originator),
        (10000, 5050, 4950)
    );
}

#[test]
fn rates_out_of_range_are_refused() {
    assert!(parse_advance_rate("0").is_none());
    assert!(parse_advance_rate("-5").is_none());
    assert!(parse_advance_rate("100.001").is_none());
    assert!(parse_advance_rate("abc").is_none());
    assert!(parse_advance_rate("100.000").is_some());
    assert!(parse_paydown_rate("0").is_none());
    assert!(parse_paydown_rate("250").is_some());
}

#[test]
fn instantiate_collects_every_invalid_field() {
    let mut f = facility("150");
    f.originator = String::new();
    f.paydown_rate = "x".to_string();
    let msg = InstantiateMsg { bind_name: String::new(), contract_name: "c".to_string(), facility: f };
    match instantiate(msg, "admin".to_string(), CONTRACT) {
        Err(ContractError::InvalidFields { fields }) => assert_eq!(
            fields,
            vec![
                "bind_name".to_string(),
                "facility.originator".to_string(),
                "facility.advance_rate".to_string(),
                "facility.paydown_rate".to_string(),
            ]
        ),
        _ => panic!("expected invalid fields"),
    }
}

#[test]
fn execute_msg_validation_lists_all_fields() {
    let msg = propose_msg("X1", &["A1", ASSET_1, "A2"], 1000, "");
    match msg.validate() {
        Err(ContractError::InvalidFields { fields }) => assert_eq!(
            fields,
            vec![
                "id".to_string(),
                "asset".to_string(),
                "asset".to_string(),
                "asset_marker_denom".to_string(),
            ]
        ),
        _ => panic!("expected invalid fields"),
    }
    let empty = propose_msg(PLEDGE_ID, &[], 1, "pool");
    match empty.validate() {
        Err(ContractError::InvalidFields { fields }) => assert_eq!(fields, vec!["assets".to_string()]),
        _ => panic!("expected invalid fields"),
    }
    assert!(propose_msg(PLEDGE_ID, &[ASSET_1], 1, "pool").validate().is_ok());
    assert!(ExecuteMsg::AcceptPledge { id: PLEDGE_ID.to_uppercase() }.validate().is_ok());
}

#[test]
fn authorization_follows_the_party_table() {
    let ci = info();
    let id = PLEDGE_ID.to_string();
    assert!(ExecuteMsg::AcceptPledge { id: id.clone() }.authorize(&ci, WAREHOUSE).is_ok());
    assert!(matches!(
        ExecuteMsg::AcceptPledge { id: id.clone() }.authorize(&ci, ORIGINATOR),
        Err(ContractError::Unauthorized)
    ));
    assert!(ExecuteMsg::CancelPledge { id: id.clone() }.authorize(&ci, ORIGINATOR).is_ok());
    assert!(ExecuteMsg::ExecutePledge { id: id.clone() }.authorize(&ci, WAREHOUSE).is_err());
    assert!(ExecuteMsg::AcceptPaydown { id: id.clone() }.authorize(&ci, WAREHOUSE).is_ok());
    assert!(ExecuteMsg::ExecutePaydown { id }.authorize(&ci, "someone").is_err());
}

#[test]
fn scenario_propose_accept_execute() {
    let ci = info();
    let mut store = Store::new();
    let proposed = propose_pledge(
        &mut store,
        &ci,
        CONTRACT,
        "P1".to_string(),
        vec!["A1".to_string(), "A2".to_string()],
        1000,
        "pool.p1".to_string(),
    )
    .unwrap();
    assert_eq!(pledge_state(&store, "P1"), PledgeState::Proposed);
    assert_eq!(load_asset(&store, "A1").unwrap().state, AssetState::PledgeProposed);
    assert_eq!(load_asset(&store, "A2").unwrap().state, AssetState::PledgeProposed);
    assert_eq!(proposed.action, "propose_pledge");
    assert_eq!(proposed.effects.len(), 5);
    assert!(fund_movements(&proposed.effects).is_empty());
    match &proposed.effects[1] {
        Effect::GrantMarkerAccess { denom, address, permissions } => {
            assert_eq!(denom, "pool.p1");
            assert_eq!(address, CONTRACT);
            assert_eq!(permissions.len(), 7);
            assert_eq!(permissions[0], MarkerAccess::Admin);
        }
        e => panic!("unexpected effect: {:?}", e),
    }
    match &proposed.effects[4] {
        Effect::WithdrawCoins { amount, recipient, .. } => {
            assert_eq!(*amount, 1);
            assert_eq!(recipient, ORIGINATOR);
        }
        e => panic!("unexpected effect: {:?}", e),
    }

    let accepted = accept_pledge(&mut store, &ci, &coins(1000, STABLE), "P1".to_string()).unwrap();
    assert_eq!(pledge_state(&store, "P1"), PledgeState::Accepted);
    assert!(accepted.effects.is_empty());

    let executed = execute_pledge(&mut store, &ci, "P1".to_string()).unwrap();
    assert_eq!(pledge_state(&store, "P1"), PledgeState::Executed);
    assert_eq!(
        fund_movements(&executed.effects),
        vec![(ORIGINATOR.to_string(), 1000, STABLE.to_string())]
    );
    assert_eq!(executed.effects.len(), 1);
    match executed.entity {
        Entity::Pledge(p) => assert_eq!(p.state, PledgeState::Executed),
        _ => panic!("expected a pledge"),
    }
    assert_eq!(load_asset(&store, "A1").unwrap().state, AssetState::Inventory);
}

#[test]
fn scenario_cancel_proposed_pledge() {
    let ci = info();
    let mut store = Store::new();
    propose_pledge(&mut store, &ci, CONTRACT, "P2".to_string(), vec!["A3".to_string()], 500, "pool.p2".to_string())
        .unwrap();
    let cancelled = cancel_pledge(&mut store, &ci, "P2".to_string()).unwrap();
    assert_eq!(pledge_state(&store, "P2"), PledgeState::Cancelled);
    assert!(fund_movements(&cancelled.effects).is_empty());
    assert_eq!(cancelled.effects.len(), 3);
    assert!(matches!(&cancelled.effects[0], Effect::ReturnToMarker { amount: 1, .. }));
    assert!(matches!(&cancelled.effects[1], Effect::CancelMarker { .. }));
    assert!(matches!(&cancelled.effects[2], Effect::DestroyMarker { .. }));
    assert!(load_asset(&store, "A3").is_err());
}

#[test]
fn cancel_accepted_pledge_refunds_the_warehouse() {
    let ci = info();
    let mut store = Store::new();
    propose_pledge(&mut store, &ci, CONTRACT, "Q3".to_string(), vec!["A4".to_string()], 750, "pool.q3".to_string())
        .unwrap();
    accept_pledge(&mut store, &ci, &coins(750, STABLE), "Q3".to_string()).unwrap();
    let cancelled = cancel_pledge(&mut store, &ci, "Q3".to_string()).unwrap();
    assert_eq!(
        fund_movements(&cancelled.effects),
        vec![(WAREHOUSE.to_string(), 750, STABLE.to_string())]
    );
    // custody operations come before the refund
    assert!(matches!(cancelled.effects.last(), Some(Effect::SendFunds { .. })));
    assert_eq!(cancelled.effects.len(), 4);
}

#[test]
fn accept_by_originator_is_unauthorized() {
    let mut store = proposed_store();
    let r = execute(
        &mut store,
        &info(),
        CONTRACT,
        ORIGINATOR,
        &coins(1000, STABLE),
        ExecuteMsg::AcceptPledge { id: PLEDGE_ID.to_string() },
    );
    assert!(matches!(r, Err(ContractError::Unauthorized)));
    assert_eq!(pledge_state(&store, PLEDGE_ID), PledgeState::Proposed);
    // an unknown pledge gives the same answer: no record is read first
    let r = execute(
        &mut store,
        &info(),
        CONTRACT,
        ORIGINATOR,
        &vec![],
        ExecuteMsg::AcceptPledge { id: ASSET_1.to_string() },
    );
    assert!(matches!(r, Err(ContractError::Unauthorized)));
}

#[test]
fn invalid_message_fails_before_authorization() {
    let mut store = Store::new();
    let r = execute(
        &mut store,
        &info(),
        CONTRACT,
        "stranger",
        &vec![],
        ExecuteMsg::CancelPledge { id: "not-a-uuid".to_string() },
    );
    match r {
        Err(ContractError::InvalidFields { fields }) => assert_eq!(fields, vec!["id".to_string()]),
        _ => panic!("expected invalid fields"),
    }
}

#[test]
fn pledge_id_cannot_be_reused() {
    let mut store = proposed_store();
    let ci = info();
    execute(&mut store, &ci, CONTRACT, ORIGINATOR, &vec![], ExecuteMsg::CancelPledge { id: PLEDGE_ID.to_string() })
        .unwrap();
    let r = execute(&mut store, &ci, CONTRACT, ORIGINATOR, &vec![], propose_msg(PLEDGE_ID, &[ASSET_2], 5, "pool.x"));
    match r {
        Err(ContractError::PledgeAlreadyExists { id }) => assert_eq!(id, PLEDGE_ID),
        _ => panic!("expected a duplicate"),
    }
    assert_eq!(pledge_state(&store, PLEDGE_ID), PledgeState::Cancelled);
}

#[test]
fn assets_already_pledged_are_refused() {
    let mut store = proposed_store();
    let r = execute(
        &mut store,
        &info(),
        CONTRACT,
        ORIGINATOR,
        &vec![],
        propose_msg(PAYDOWN_ID, &[ASSET_2], 5, "pool.x"),
    );
    assert!(matches!(r, Err(ContractError::AssetsAlreadyPledged)));
    assert!(load_pledge(&store, PAYDOWN_ID).is_err());
}

#[test]
fn state_errors_leave_the_store_unchanged() {
    let ci = info();
    let mut store = proposed_store();
    let r = execute(&mut store, &ci, CONTRACT, ORIGINATOR, &vec![], ExecuteMsg::ExecutePledge { id: PLEDGE_ID.to_string() });
    assert!(matches!(r, Err(ContractError::StateError { .. })));
    assert_eq!(pledge_state(&store, PLEDGE_ID), PledgeState::Proposed);
    execute(&mut store, &ci, CONTRACT, WAREHOUSE, &coins(1000, STABLE), ExecuteMsg::AcceptPledge { id: PLEDGE_ID.to_string() })
        .unwrap();
    let r = execute(&mut store, &ci, CONTRACT, WAREHOUSE, &coins(1000, STABLE), ExecuteMsg::AcceptPledge { id: PLEDGE_ID.to_string() });
    assert!(matches!(r, Err(ContractError::StateError { .. })));
    execute(&mut store, &ci, CONTRACT, ORIGINATOR, &vec![], ExecuteMsg::ExecutePledge { id: PLEDGE_ID.to_string() })
        .unwrap();
    let r = execute(&mut store, &ci, CONTRACT, ORIGINATOR, &vec![], ExecuteMsg::CancelPledge { id: PLEDGE_ID.to_string() });
    assert!(matches!(r, Err(ContractError::StateError { .. })));
    assert_eq!(pledge_state(&store, PLEDGE_ID), PledgeState::Executed);
}

#[test]
fn accept_needs_the_exact_advance() {
    let ci = info();
    let mut store = proposed_store();
    let id = PLEDGE_ID.to_string();
    let r = execute(&mut store, &ci, CONTRACT, WAREHOUSE, &vec![], ExecuteMsg::AcceptPledge { id: id.clone() });
    assert!(matches!(r, Err(ContractError::MissingPledgeAdvanceFunds)));
    let r = execute(&mut store, &ci, CONTRACT, WAREHOUSE, &coins(999, STABLE), ExecuteMsg::AcceptPledge { id: id.clone() });
    match r {
        Err(ContractError::InsufficientPledgeAdvanceFunds { need, need_denom, received, received_denom }) => {
            assert_eq!(need, 1000);
            assert_eq!(need_denom, STABLE);
            assert_eq!(received, 999);
            assert_eq!(received_denom, STABLE);
        }
        _ => panic!("expected insufficient funds"),
    }
    let r = execute(&mut store, &ci, CONTRACT, WAREHOUSE, &coins(1001, STABLE), ExecuteMsg::AcceptPledge { id: id.clone() });
    assert!(matches!(r, Err(ContractError::InsufficientPledgeAdvanceFunds { .. })));
    let r = execute(&mut store, &ci, CONTRACT, WAREHOUSE, &coins(1000, "other"), ExecuteMsg::AcceptPledge { id: id.clone() });
    assert!(matches!(r, Err(ContractError::InsufficientPledgeAdvanceFunds { .. })));
    assert_eq!(pledge_state(&store, PLEDGE_ID), PledgeState::Proposed);
    let r = execute(&mut store, &ci, CONTRACT, WAREHOUSE, &coins(1000, STABLE), ExecuteMsg::AcceptPledge { id });
    assert!(r.is_ok());
    assert_eq!(pledge_state(&store, PLEDGE_ID), PledgeState::Accepted);
}

#[test]
fn unknown_pledge_is_not_found() {
    let mut store = Store::new();
    let r = execute(&mut store, &info(), CONTRACT, ORIGINATOR, &vec![], ExecuteMsg::ExecutePledge { id: PLEDGE_ID.to_string() });
    match r {
        Err(ContractError::PledgeNotFound { id }) => assert_eq!(id, PLEDGE_ID),
        _ => panic!("expected not found"),
    }
}

#[test]
fn paydown_lifecycle_closes_the_pledge() {
    let ci = info();
    let mut store = proposed_store();
    execute(&mut store, &ci, CONTRACT, WAREHOUSE, &coins(1000, STABLE), ExecuteMsg::AcceptPledge { id: PLEDGE_ID.to_string() })
        .unwrap();
    execute(&mut store, &ci, CONTRACT, ORIGINATOR, &vec![], ExecuteMsg::ExecutePledge { id: PLEDGE_ID.to_string() })
        .unwrap();
    let propose = ExecuteMsg::ProposePaydown {
        id: PAYDOWN_ID.to_string(),
        assets: vec![ASSET_1.to_string()],
        total_paydown: 400,
    };
    let r = execute(&mut store, &ci, CONTRACT, ORIGINATOR, &coins(300, STABLE), propose);
    assert!(matches!(r, Err(ContractError::InsufficientPaydownFunds { need: 400, received: 300, .. })));
    let propose = ExecuteMsg::ProposePaydown {
        id: PAYDOWN_ID.to_string(),
        assets: vec![ASSET_1.to_string()],
        total_paydown: 400,
    };
    execute(&mut store, &ci, CONTRACT, ORIGINATOR, &coins(400, STABLE), propose).unwrap();
    assert_eq!(load_asset(&store, ASSET_1).unwrap().state, AssetState::PaydownProposed);
    assert_eq!(load_paydown(&store, PAYDOWN_ID).unwrap().state, PaydownState::Proposed);
    execute(&mut store, &ci, CONTRACT, WAREHOUSE, &vec![], ExecuteMsg::AcceptPaydown { id: PAYDOWN_ID.to_string() })
        .unwrap();
    let done = execute(&mut store, &ci, CONTRACT, ORIGINATOR, &vec![], ExecuteMsg::ExecutePaydown { id: PAYDOWN_ID.to_string() })
        .unwrap();
    assert_eq!(
        fund_movements(&done.effects),
        vec![(WAREHOUSE.to_string(), 400, STABLE.to_string())]
    );
    assert_eq!(load_paydown(&store, PAYDOWN_ID).unwrap().state, PaydownState::Executed);
    assert_eq!(pledge_state(&store, PLEDGE_ID), PledgeState::Closed);
    assert!(load_asset(&store, ASSET_1).is_err());
    assert_eq!(load_asset(&store, ASSET_2).unwrap().state, AssetState::Inventory);
}

#[test]
fn paydown_needs_inventory_assets_and_refunds_on_cancel() {
    let ci = info();
    let mut store = proposed_store();
    let propose = ExecuteMsg::ProposePaydown {
        id: PAYDOWN_ID.to_string(),
        assets: vec![ASSET_1.to_string()],
        total_paydown: 400,
    };
    let r = execute(&mut store, &ci, CONTRACT, ORIGINATOR, &coins(400, STABLE), propose);
    assert!(matches!(r, Err(ContractError::AssetsNotInInventory)));
    execute(&mut store, &ci, CONTRACT, WAREHOUSE, &coins(1000, STABLE), ExecuteMsg::AcceptPledge { id: PLEDGE_ID.to_string() })
        .unwrap();
    execute(&mut store, &ci, CONTRACT, ORIGINATOR, &vec![], ExecuteMsg::ExecutePledge { id: PLEDGE_ID.to_string() })
        .unwrap();
    let propose = ExecuteMsg::ProposePaydown {
        id: PAYDOWN_ID.to_string(),
        assets: vec![ASSET_1.to_string()],
        total_paydown: 400,
    };
    let r = execute(&mut store, &ci, CONTRACT, ORIGINATOR, &vec![], propose);
    assert!(matches!(r, Err(ContractError::MissingPaydownFunds)));
    let propose = ExecuteMsg::ProposePaydown {
        id: PAYDOWN_ID.to_string(),
        assets: vec![ASSET_1.to_string()],
        total_paydown: 400,
    };
    execute(&mut store, &ci, CONTRACT, ORIGINATOR, &coins(400, STABLE), propose).unwrap();
    let cancelled = execute(&mut store, &ci, CONTRACT, ORIGINATOR, &vec![], ExecuteMsg::CancelPaydown { id: PAYDOWN_ID.to_string() })
        .unwrap();
    assert_eq!(
        fund_movements(&cancelled.effects),
        vec![(ORIGINATOR.to_string(), 400, STABLE.to_string())]
    );
    assert_eq!(load_asset(&store, ASSET_1).unwrap().state, AssetState::Inventory);
    assert_eq!(pledge_state(&store, PLEDGE_ID), PledgeState::Executed);
    let again = ExecuteMsg::ProposePaydown {
        id: PAYDOWN_ID.to_string(),
        assets: vec![ASSET_1.to_string()],
        total_paydown: 400,
    };
    let r = execute(&mut store, &ci, CONTRACT, ORIGINATOR, &coins(400, STABLE), again);
    assert!(matches!(r, Err(ContractError::PaydownAlreadyExists { .. })));
}

#[test]
fn listings_are_ascending_and_filtered() {
    let ci = info();
    let mut store = Store::new();
    for (id, asset) in [("K3", "A3"), ("K1", "A1"), ("K2", "A2")] {
        propose_pledge(&mut store, &ci, CONTRACT, id.to_string(), vec![asset.to_string()], 10, format!("pool.{}", id))
            .unwrap();
    }
    accept_pledge(&mut store, &ci, &coins(10, STABLE), "K2".to_string()).unwrap();
    assert_eq!(get_pledge_ids(&store, None, None, None), vec!["K1", "K2", "K3"]);
    assert_eq!(get_pledge_ids(&store, Some(PledgeState::Proposed), None, None), vec!["K1", "K3"]);
    assert_eq!(
        get_pledge_ids(&store, None, Some(Bound::Exclusive("K1".to_string())), Some(Bound::Inclusive("K3".to_string()))),
        vec!["K2", "K3"]
    );
    assert_eq!(
        get_pledge_ids(&store, None, Some(Bound::Inclusive("K1".to_string())), Some(Bound::Exclusive("K3".to_string()))),
        vec!["K1", "K2"]
    );
    assert_eq!(
        warehouse_facility::state::find_pledge_ids_with_assets(&store, vec!["A3".to_string(), "A9".to_string()], None, None, None),
        vec!["K3"]
    );
    assert_eq!(get_asset_ids(&store, Some(AssetState::PledgeProposed), None, None), vec!["A1", "A2", "A3"]);
    assert!(get_asset_ids(&store, Some(AssetState::Inventory), None, None).is_empty());
    match query(&store, &ci, QueryMsg::ListPledgeProposals).unwrap() {
        QueryResponse::Pledges(ps) => {
            let ids: Vec<String> = ps.into_iter().map(|p| p.id).collect();
            assert_eq!(ids, vec!["K1", "K3"]);
        }
        _ => panic!("expected pledges"),
    }
    assert!(matches!(query(&store, &ci, QueryMsg::GetPledge { id: "K9".to_string() }), Err(ContractError::PledgeNotFound { .. })));
}

#[test]
fn paydown_errors() {
    let ci = info();
    let mut store = Store::new();
    let r = execute(&mut store, &ci, CONTRACT, WAREHOUSE, &vec![], ExecuteMsg::AcceptPaydown { id: PAYDOWN_ID.to_string() });
    match r {
        Err(ContractError::PaydownNotFound { id }) => assert_eq!(id, PAYDOWN_ID),
        _ => panic!("expected not found"),
    }
    let mut store = proposed_store();
    execute(&mut store, &ci, CONTRACT, WAREHOUSE, &coins(1000, STABLE), ExecuteMsg::AcceptPledge { id: PLEDGE_ID.to_string() })
        .unwrap();
    execute(&mut store, &ci, CONTRACT, ORIGINATOR, &vec![], ExecuteMsg::ExecutePledge { id: PLEDGE_ID.to_string() })
        .unwrap();
    let propose = ExecuteMsg::ProposePaydown {
        id: PAYDOWN_ID.to_string(),
        assets: vec![ASSET_2.to_string()],
        total_paydown: 50,
    };
    execute(&mut store, &ci, CONTRACT, ORIGINATOR, &coins(50, STABLE), propose).unwrap();
    let r = execute(&mut store, &ci, CONTRACT, ORIGINATOR, &vec![], ExecuteMsg::ExecutePaydown { id: PAYDOWN_ID.to_string() });
    assert!(matches!(r, Err(ContractError::StateError { .. })));
    let r = execute(&mut store, &ci, CONTRACT, ORIGINATOR, &vec![], ExecuteMsg::AcceptPaydown { id: PAYDOWN_ID.to_string() });
    assert!(matches!(r, Err(ContractError::Unauthorized)));
    execute(&mut store, &ci, CONTRACT, WAREHOUSE, &vec![], ExecuteMsg::AcceptPaydown { id: PAYDOWN_ID.to_string() })
        .unwrap();
    let r = execute(&mut store, &ci, CONTRACT, WAREHOUSE, &vec![], ExecuteMsg::AcceptPaydown { id: PAYDOWN_ID.to_string() });
    assert!(matches!(r, Err(ContractError::StateError { .. })));
    assert_eq!(load_paydown(&store, PAYDOWN_ID).unwrap().state, PaydownState::Accepted);
}
