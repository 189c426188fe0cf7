//! The lifecycle engine: each action, once validated and authorized, reads
//! the store, decides, writes the store and returns the effects to perform.
//! A failing action writes nothing.
use vstd::prelude::*;
use crate::contract_info::{ContractInfo, CONTRACT_VERSION};
use crate::effects::{
    effect_views, is_paydown_view, is_pledge_view, pool_marker_release, pool_marker_release_effects,
    pool_marker_setup, pool_marker_setup_effects, push_send, send_funds, Coin, Effect, EffectView,
    Entity, MarkerAccess, Outcome,
};
use crate::error::ContractError;
use crate::keys::{find_key, has_key, lemma_lookup_at, sorted_by_key, Keyed};
use crate::msg::{Authorize, ExecuteMsg, InstantiateMsg, QueryMsg, Validate};
use crate::rate::{
    decimal_of, marker_split, marker_supply, parse_advance_rate, warehouse_share, MarkerSplit,
};
use crate::state::{
    asset_views, get_assets, get_paydown_ids, get_paydowns, get_pledge_ids, get_pledges,
    load_paydown, load_pledge, paydown_views, pledge_views, remove_assets, save_paydown,
    save_pledge, selected_assets, selected_paydowns, selected_pledges, set_assets_state,
    strings_view, Asset, AssetState, AssetView, Facility, Paydown, PaydownState, PaydownView,
    Pledge, PledgeState, PledgeView, Store,
};
use crate::utils::{shares_any, vec_has_any};

verus! {

/// Whether some asset of `assets` already has a record in the store.
pub open spec fn any_recorded(store: Store, assets: Seq<Seq<char>>) -> bool {
    exists|i: int| 0 <= i < assets.len() && #[trigger] store.asset(assets[i]) is Some
}

fn any_asset_recorded(store: &Store, assets: &Vec<String>) -> (r: bool)
    requires
        store.wf(),
    ensures
        r == any_recorded(*store, strings_view(assets@)),
{
    let ghost sv = strings_view(assets@);
    let mut i: usize = 0;
    while i < assets.len()
        invariant
            i <= assets@.len(),
            sv == strings_view(assets@),
            forall|j: int| 0 <= j < i ==> #[trigger] store.asset(sv[j]) is None,
        decreases assets@.len() - i,
    {
        match find_key(&store.assets, assets[i].as_str()) {
            Some(k) => {
                proof {
                    assert(sv[i as int] == assets@[i as int]@);
                    assert(has_key(store.assets@, sv[i as int]));
                    assert(store.asset(sv[i as int]) is Some);
                }
                return true;
            },
            None => {
                proof {
                    assert(sv[i as int] == assets@[i as int]@);
                }
            },
        }
        i = i + 1;
    }
    false
}

/// Every asset of `assets` holds a record with status `state`; every other
/// asset record is as in `before`.
pub open spec fn assets_set(
    before: Store,
    after: Store,
    assets: Seq<Seq<char>>,
    state: AssetState,
) -> bool {
    &&& forall|k: Seq<char>|
        #![trigger after.asset(k)]
        assets.contains(k) ==> (after.asset(k) matches Some(a) && a@ == AssetView { id: k, state })
    &&& forall|k: Seq<char>|
        #![trigger after.asset(k)]
        !assets.contains(k) ==> after.asset(k) == before.asset(k)
}

/// No asset of `assets` holds a record; every other asset record is as in `before`.
pub open spec fn assets_cleared(before: Store, after: Store, assets: Seq<Seq<char>>) -> bool {
    &&& forall|k: Seq<char>| #![trigger after.asset(k)] assets.contains(k) ==> after.asset(k) is None
    &&& forall|k: Seq<char>|
        #![trigger after.asset(k)]
        !assets.contains(k) ==> after.asset(k) == before.asset(k)
}

/// The pledge stored under `id` has view `v`; every other pledge and every
/// paydown is as in `before`.
pub open spec fn pledge_written(before: Store, after: Store, id: Seq<char>, v: PledgeView) -> bool {
    &&& after.pledge(id) matches Some(p) && p@ == v
    &&& forall|k: Seq<char>| k != id ==> after.pledge(k) == before.pledge(k)
    &&& after.paydowns == before.paydowns
}

pub open spec fn with_pledge_state(p: PledgeView, state: PledgeState) -> PledgeView {
    PledgeView { state, ..p }
}

/// The effects of cancelling a pledge: the pool marker is released, and an
/// escrowed advance goes back to the warehouse.
pub open spec fn cancel_pledge_effects(f: Facility, p: PledgeView) -> Seq<EffectView> {
    pool_marker_release(p.asset_marker_denom, f.originator@) + if p.state == PledgeState::Accepted {
        seq![send_funds(f.warehouse@, p.total_advance as u128, f.stablecoin_denom@)]
    } else {
        seq![]
    }
}

/// What proposing a pledge does.
pub open spec fn propose_pledge_done(
    before: Store,
    after: Store,
    contract_info: ContractInfo,
    contract_address: Seq<char>,
    id: String,
    assets: Vec<String>,
    total_advance: u64,
    asset_marker_denom: String,
    r: Result<Outcome, ContractError>,
) -> bool {
    &&& before.pledge(id@) is Some ==> (r matches Err(e) && (e matches ContractError::PledgeAlreadyExists { id: x } && x@ == id@))
    &&& before.pledge(id@) is None && any_recorded(before, strings_view(assets@)) ==> (r matches Err(e) && e is AssetsAlreadyPledged)
    &&& r is Ok <==> before.pledge(id@) is None && !any_recorded(before, strings_view(assets@))
    &&& r matches Ok(out) ==> {
        let v = PledgeView {
            id: id@,
            assets: strings_view(assets@),
            total_advance,
            asset_marker_denom: asset_marker_denom@,
            state: PledgeState::Proposed,
        };
        &&& pledge_written(before, after, id@, v)
        &&& assets_set(before, after, strings_view(assets@), AssetState::PledgeProposed)
        &&& is_pledge_view(out.entity, v)
        &&& effect_views(out.effects@) == pool_marker_setup(asset_marker_denom@, contract_address, contract_info.facility.originator@)
        &&& out.action@ == "propose_pledge"@
    }
}

/// What accepting a pledge does.
pub open spec fn accept_pledge_done(
    before: Store,
    after: Store,
    contract_info: ContractInfo,
    funds: Seq<Coin>,
    id: String,
    r: Result<Outcome, ContractError>,
) -> bool {
        match before.pledge(id@) {
            None => r matches Err(e) && (e matches ContractError::PledgeNotFound { id: x } && x@ == id@),
            Some(p) => {
                let stable = contract_info.facility.stablecoin_denom@;
                if p.state != PledgeState::Proposed {
                    r matches Err(e) && e is StateError
                } else if funds.len() == 0 {
                    r matches Err(e) && e is MissingPledgeAdvanceFunds
                } else if funds[0].denom@ != stable || funds[0].amount != p.total_advance {
                    r matches Err(e) && (e matches ContractError::InsufficientPledgeAdvanceFunds {
                        need, need_denom, received, received_denom }
                        && need == p.total_advance && need_denom@ == stable
                        && received == funds[0].amount && received_denom@ == funds[0].denom@)
                } else {
                    r matches Ok(out) && {
                        let v = with_pledge_state(p@, PledgeState::Accepted);
                        &&& pledge_written(before, after, id@, v)
                        &&& after.assets == before.assets
                        &&& is_pledge_view(out.entity, v)
                        &&& out.effects@.len() == 0
                        &&& out.action@ == "accept_pledge"@
                    }
                }
            },
        }
}

/// What cancelling a pledge does.
pub open spec fn cancel_pledge_done(
    before: Store,
    after: Store,
    contract_info: ContractInfo,
    id: String,
    r: Result<Outcome, ContractError>,
) -> bool {
        match before.pledge(id@) {
            None => r matches Err(e) && (e matches ContractError::PledgeNotFound { id: x } && x@ == id@),
            Some(p) => if p.state != PledgeState::Proposed && p.state != PledgeState::Accepted {
                r matches Err(e) && e is StateError
            } else {
                r matches Ok(out) && {
                    let v = with_pledge_state(p@, PledgeState::Cancelled);
                    &&& pledge_written(before, after, id@, v)
                    &&& assets_cleared(before, after, p@.assets)
                    &&& is_pledge_view(out.entity, v)
                    &&& effect_views(out.effects@) == cancel_pledge_effects(contract_info.facility, p@)
                    &&& out.action@ == "cancel_pledge"@
                }
            },
        }
}

/// What executing a pledge does.
pub open spec fn execute_pledge_done(
    before: Store,
    after: Store,
    contract_info: ContractInfo,
    id: String,
    r: Result<Outcome, ContractError>,
) -> bool {
        match before.pledge(id@) {
            None => r matches Err(e) && (e matches ContractError::PledgeNotFound { id: x } && x@ == id@),
            Some(p) => if p.state != PledgeState::Accepted {
                r matches Err(e) && e is StateError
            } else {
                r matches Ok(out) && {
                    let v = with_pledge_state(p@, PledgeState::Executed);
                    let f = contract_info.facility;
                    &&& pledge_written(before, after, id@, v)
                    &&& assets_set(before, after, p@.assets, AssetState::Inventory)
                    &&& is_pledge_view(out.entity, v)
                    &&& effect_views(out.effects@) == seq![send_funds(f.originator@, p.total_advance as u128, f.stablecoin_denom@)]
                    &&& out.action@ == "execute_pledge"@
                }
            },
        }
}

/// Proposes a pledge (`Proposed`), marks its assets `PledgeProposed`, and
/// sets up the pledge's pool marker.
pub fn propose_pledge(
    store: &mut Store,
    contract_info: &ContractInfo,
    contract_address: &str,
    id: String,
    assets: Vec<String>,
    total_advance: u64,
    asset_marker_denom: String,
) -> (r: Result<Outcome, ContractError>)
    requires
        old(store).wf(),
    ensures
        final(store).wf(),
        r is Err ==> *final(store) == *old(store),
        propose_pledge_done(*old(store), *final(store), *contract_info, contract_address@, id, assets, total_advance, asset_marker_denom, r),
{
    if let Some(_) = find_key(&store.pledges, id.as_str()) {
        return Err(ContractError::PledgeAlreadyExists { id });
    }
    if any_asset_recorded(store, &assets) {
        return Err(ContractError::AssetsAlreadyPledged);
    }
    let effects = pool_marker_setup_effects(&asset_marker_denom, contract_address, &contract_info.facility.originator);
    let pledge = Pledge {
        id,
        assets,
        total_advance,
        asset_marker_denom,
        state: PledgeState::Proposed,
    };
    let entity = pledge.duplicate();
    set_assets_state(store, AssetState::PledgeProposed, &pledge.assets);
    let ghost mid = *store;
    save_pledge(store, pledge);
    proof {
        assert forall|k: Seq<char>| #[trigger] store.asset(k) == mid.asset(k) by {}
    }
    Ok(Outcome { entity: Entity::Pledge(entity), effects, action: "propose_pledge".to_string() })
}

/// Accepts a `Proposed` pledge, whose advance must be attached as the first
/// coin, exactly in amount and denomination; the advance is then escrowed.
pub fn accept_pledge(
    store: &mut Store,
    contract_info: &ContractInfo,
    funds: &Vec<Coin>,
    id: String,
) -> (r: Result<Outcome, ContractError>)
    requires
        old(store).wf(),
    ensures
        final(store).wf(),
        r is Err ==> *final(store) == *old(store),
        accept_pledge_done(*old(store), *final(store), *contract_info, funds@, id, r),
{
    let mut pledge = match load_pledge(store, id.as_str()) {
        Ok(p) => p,
        Err(e) => return Err(e),
    };
    if pledge.state != PledgeState::Proposed {
        return Err(ContractError::StateError {
            error: "Unable to accept pledge: Pledge is not in the 'proposed' state.".to_string(),
        });
    }
    if funds.len() == 0 {
        return Err(ContractError::MissingPledgeAdvanceFunds);
    }
    let advance = &funds[0];
    let stable = &contract_info.facility.stablecoin_denom;
    if !(advance.denom == *stable) || advance.amount != pledge.total_advance as u128 {
        return Err(ContractError::InsufficientPledgeAdvanceFunds {
            need: pledge.total_advance as u128,
            need_denom: stable.clone(),
            received: advance.amount,
            received_denom: advance.denom.clone(),
        });
    }
    pledge.state = PledgeState::Accepted;
    let entity = pledge.duplicate();
    save_pledge(store, pledge);
    Ok(Outcome { entity: Entity::Pledge(entity), effects: Vec::new(), action: "accept_pledge".to_string() })
}

/// Cancels a `Proposed` or `Accepted` pledge: its pool marker is released,
/// its asset records are removed, and an escrowed advance is refunded to the
/// warehouse.
pub fn cancel_pledge(
    store: &mut Store,
    contract_info: &ContractInfo,
    id: String,
) -> (r: Result<Outcome, ContractError>)
    requires
        old(store).wf(),
    ensures
        final(store).wf(),
        r is Err ==> *final(store) == *old(store),
        cancel_pledge_done(*old(store), *final(store), *contract_info, id, r),
{
    let mut pledge = match load_pledge(store, id.as_str()) {
        Ok(p) => p,
        Err(e) => return Err(e),
    };
    let refund = match pledge.state {
        PledgeState::Proposed => false,
        PledgeState::Accepted => true,
        _ => {
            return Err(ContractError::StateError {
                error: "Unable to cancel pledge: Pledge is not in the 'proposed' or 'accepted' state.".to_string(),
            });
        },
    };
    let f = &contract_info.facility;
    let mut effects = pool_marker_release_effects(&pledge.asset_marker_denom, &f.originator);
    if refund {
        push_send(&mut effects, &f.warehouse, pledge.total_advance as u128, &f.stablecoin_denom);
    }
    proof {
        let p = old(store).pledge(id@)->Some_0;
        assert(effect_views(effects@) =~= cancel_pledge_effects(*f, p@));
    }
    remove_assets(store, &pledge.assets);
    let ghost mid = *store;
    pledge.state = PledgeState::Cancelled;
    let entity = pledge.duplicate();
    save_pledge(store, pledge);
    proof {
        assert forall|k: Seq<char>| #[trigger] store.asset(k) == mid.asset(k) by {}
    }
    Ok(Outcome { entity: Entity::Pledge(entity), effects, action: "cancel_pledge".to_string() })
}

/// Executes an `Accepted` pledge: the escrowed advance is disbursed to the
/// originator and the pledge's assets enter the inventory.
pub fn execute_pledge(
    store: &mut Store,
    contract_info: &ContractInfo,
    id: String,
) -> (r: Result<Outcome, ContractError>)
    requires
        old(store).wf(),
    ensures
        final(store).wf(),
        r is Err ==> *final(store) == *old(store),
        execute_pledge_done(*old(store), *final(store), *contract_info, id, r),
{
    let mut pledge = match load_pledge(store, id.as_str()) {
        Ok(p) => p,
        Err(e) => return Err(e),
    };
    if pledge.state != PledgeState::Accepted {
        return Err(ContractError::StateError {
            error: "Unable to execute pledge: Pledge is not in the 'accepted' state.".to_string(),
        });
    }
    let f = &contract_info.facility;
    let mut effects: Vec<Effect> = Vec::new();
    push_send(&mut effects, &f.originator, pledge.total_advance as u128, &f.stablecoin_denom);
    proof {
        assert(effect_views(effects@) =~= seq![send_funds(f.originator@, pledge.total_advance as u128, f.stablecoin_denom@)]);
    }
    set_assets_state(store, AssetState::Inventory, &pledge.assets);
    let ghost mid = *store;
    pledge.state = PledgeState::Executed;
    let entity = pledge.duplicate();
    save_pledge(store, pledge);
    proof {
        assert forall|k: Seq<char>| #[trigger] store.asset(k) == mid.asset(k) by {}
    }
    Ok(Outcome { entity: Entity::Pledge(entity), effects, action: "execute_pledge".to_string() })
}

/// Whether every asset of `assets` is recorded in the inventory.
pub open spec fn all_in_inventory(store: Store, assets: Seq<Seq<char>>) -> bool {
    forall|i: int|
        0 <= i < assets.len() ==> (#[trigger] store.asset(assets[i]) matches Some(a) && a.state
            == AssetState::Inventory)
}

fn assets_in_inventory(store: &Store, assets: &Vec<String>) -> (r: bool)
    requires
        store.wf(),
    ensures
        r == all_in_inventory(*store, strings_view(assets@)),
{
    let ghost sv = strings_view(assets@);
    let mut i: usize = 0;
    while i < assets.len()
        invariant
            i <= assets@.len(),
            store.wf(),
            sv == strings_view(assets@),
            forall|j: int|
                0 <= j < i ==> (#[trigger] store.asset(sv[j]) matches Some(a) && a.state
                    == AssetState::Inventory),
        decreases assets@.len() - i,
    {
        proof {
            assert(sv[i as int] == assets@[i as int]@);
        }
        match find_key(&store.assets, assets[i].as_str()) {
            Some(k) => {
                proof {
                    lemma_lookup_at(store.assets@, k as int);
                }
                if store.assets[k].state != AssetState::Inventory {
                    proof {
                        assert(store.asset(sv[i as int]) == Some(store.assets@[k as int]));
                    }
                    return false;
                }
            },
            None => {
                proof {
                    assert(store.asset(sv[i as int]) is None);
                }
                return false;
            },
        }
        i = i + 1;
    }
    true
}

/// The paydown stored under `id` has view `v`; every other paydown and every
/// pledge is as in `before`.
pub open spec fn paydown_written(before: Store, after: Store, id: Seq<char>, v: PaydownView) -> bool {
    &&& after.paydown(id) matches Some(p) && p@ == v
    &&& forall|k: Seq<char>| k != id ==> after.paydown(k) == before.paydown(k)
    &&& after.pledges == before.pledges
}

pub open spec fn with_paydown_state(p: PaydownView, state: PaydownState) -> PaydownView {
    PaydownView { state, ..p }
}

/// What proposing a paydown does.
pub open spec fn propose_paydown_done(
    before: Store,
    after: Store,
    contract_info: ContractInfo,
    funds: Seq<Coin>,
    id: String,
    assets: Vec<String>,
    total_paydown: u64,
    r: Result<Outcome, ContractError>,
) -> bool {
    let stable = contract_info.facility.stablecoin_denom@;
    let sv = strings_view(assets@);
    if before.paydown(id@) is Some {
        r matches Err(e) && (e matches ContractError::PaydownAlreadyExists { id: x } && x@ == id@)
    } else if !all_in_inventory(before, sv) {
        r matches Err(e) && e is AssetsNotInInventory
    } else if funds.len() == 0 {
        r matches Err(e) && e is MissingPaydownFunds
    } else if funds[0].denom@ != stable || funds[0].amount != total_paydown {
        r matches Err(e) && (e matches ContractError::InsufficientPaydownFunds {
            need,
            need_denom,
            received,
            received_denom,
        } && need == total_paydown && need_denom@ == stable && received == funds[0].amount
            && received_denom@ == funds[0].denom@)
    } else {
        r matches Ok(out) && {
            let v = PaydownView { id: id@, assets: sv, total_paydown, state: PaydownState::Proposed };
            &&& paydown_written(before, after, id@, v)
            &&& assets_set(before, after, sv, AssetState::PaydownProposed)
            &&& is_paydown_view(out.entity, v)
            &&& out.effects@.len() == 0
            &&& out.action@ == "propose_paydown"@
        }
    }
}

/// Proposes a paydown of inventory assets, whose amount must be attached as
/// the first coin; the funds are then escrowed and the assets marked
/// `PaydownProposed`.
pub fn propose_paydown(
    store: &mut Store,
    contract_info: &ContractInfo,
    funds: &Vec<Coin>,
    id: String,
    assets: Vec<String>,
    total_paydown: u64,
) -> (r: Result<Outcome, ContractError>)
    requires
        old(store).wf(),
    ensures
        final(store).wf(),
        r is Err ==> *final(store) == *old(store),
        propose_paydown_done(*old(store), *final(store), *contract_info, funds@, id, assets, total_paydown, r),
{
    if let Some(k) = find_key(&store.paydowns, id.as_str()) {
        proof {
            lemma_lookup_at(store.paydowns@, k as int);
        }
        return Err(ContractError::PaydownAlreadyExists { id });
    }
    if !assets_in_inventory(store, &assets) {
        return Err(ContractError::AssetsNotInInventory);
    }
    if funds.len() == 0 {
        return Err(ContractError::MissingPaydownFunds);
    }
    let paid = &funds[0];
    let stable = &contract_info.facility.stablecoin_denom;
    if !(paid.denom == *stable) || paid.amount != total_paydown as u128 {
        return Err(ContractError::InsufficientPaydownFunds {
            need: total_paydown as u128,
            need_denom: stable.clone(),
            received: paid.amount,
            received_denom: paid.denom.clone(),
        });
    }
    let paydown = Paydown { id, assets, total_paydown, state: PaydownState::Proposed };
    let entity = paydown.duplicate();
    set_assets_state(store, AssetState::PaydownProposed, &paydown.assets);
    let ghost mid = *store;
    save_paydown(store, paydown);
    proof {
        assert forall|k: Seq<char>| #[trigger] store.asset(k) == mid.asset(k) by {}
    }
    Ok(Outcome { entity: Entity::Paydown(entity), effects: Vec::new(), action: "propose_paydown".to_string() })
}

/// What accepting a paydown does.
pub open spec fn accept_paydown_done(
    before: Store,
    after: Store,
    id: String,
    r: Result<Outcome, ContractError>,
) -> bool {
    match before.paydown(id@) {
        None => r matches Err(e) && (e matches ContractError::PaydownNotFound { id: x } && x@ == id@),
        Some(p) => if p.state != PaydownState::Proposed {
            r matches Err(e) && e is StateError
        } else {
            r matches Ok(out) && {
                let v = with_paydown_state(p@, PaydownState::Accepted);
                &&& paydown_written(before, after, id@, v)
                &&& after.assets == before.assets
                &&& is_paydown_view(out.entity, v)
                &&& out.effects@.len() == 0
                &&& out.action@ == "accept_paydown"@
            }
        },
    }
}

/// Accepts a `Proposed` paydown.
pub fn accept_paydown(store: &mut Store, id: String) -> (r: Result<Outcome, ContractError>)
    requires
        old(store).wf(),
    ensures
        final(store).wf(),
        r is Err ==> *final(store) == *old(store),
        accept_paydown_done(*old(store), *final(store), id, r),
{
    let mut paydown = match load_paydown(store, id.as_str()) {
        Ok(p) => p,
        Err(e) => return Err(e),
    };
    if paydown.state != PaydownState::Proposed {
        return Err(ContractError::StateError {
            error: "Unable to accept paydown: Paydown is not in the 'proposed' state.".to_string(),
        });
    }
    paydown.state = PaydownState::Accepted;
    let entity = paydown.duplicate();
    save_paydown(store, paydown);
    Ok(Outcome { entity: Entity::Paydown(entity), effects: Vec::new(), action: "accept_paydown".to_string() })
}

/// What cancelling a paydown does.
pub open spec fn cancel_paydown_done(
    before: Store,
    after: Store,
    contract_info: ContractInfo,
    id: String,
    r: Result<Outcome, ContractError>,
) -> bool {
    match before.paydown(id@) {
        None => r matches Err(e) && (e matches ContractError::PaydownNotFound { id: x } && x@ == id@),
        Some(p) => if p.state != PaydownState::Proposed && p.state != PaydownState::Accepted {
            r matches Err(e) && e is StateError
        } else {
            r matches Ok(out) && {
                let v = with_paydown_state(p@, PaydownState::Cancelled);
                let f = contract_info.facility;
                &&& paydown_written(before, after, id@, v)
                &&& assets_set(before, after, p@.assets, AssetState::Inventory)
                &&& is_paydown_view(out.entity, v)
                &&& effect_views(out.effects@) == seq![send_funds(f.originator@, p.total_paydown as u128, f.stablecoin_denom@)]
                &&& out.action@ == "cancel_paydown"@
            }
        },
    }
}

/// Cancels a `Proposed` or `Accepted` paydown: the escrowed paydown goes
/// back to the originator and the assets return to the inventory.
pub fn cancel_paydown(
    store: &mut Store,
    contract_info: &ContractInfo,
    id: String,
) -> (r: Result<Outcome, ContractError>)
    requires
        old(store).wf(),
    ensures
        final(store).wf(),
        r is Err ==> *final(store) == *old(store),
        cancel_paydown_done(*old(store), *final(store), *contract_info, id, r),
{
    let mut paydown = match load_paydown(store, id.as_str()) {
        Ok(p) => p,
        Err(e) => return Err(e),
    };
    if paydown.state != PaydownState::Proposed && paydown.state != PaydownState::Accepted {
        return Err(ContractError::StateError {
            error: "Unable to cancel paydown: Paydown is not in the 'proposed' or 'accepted' state.".to_string(),
        });
    }
    let f = &contract_info.facility;
    let mut effects: Vec<Effect> = Vec::new();
    push_send(&mut effects, &f.originator, paydown.total_paydown as u128, &f.stablecoin_denom);
    proof {
        assert(effect_views(effects@) =~= seq![send_funds(f.originator@, paydown.total_paydown as u128, f.stablecoin_denom@)]);
    }
    set_assets_state(store, AssetState::Inventory, &paydown.assets);
    let ghost mid = *store;
    paydown.state = PaydownState::Cancelled;
    let entity = paydown.duplicate();
    save_paydown(store, paydown);
    proof {
        assert forall|k: Seq<char>| #[trigger] store.asset(k) == mid.asset(k) by {}
    }
    Ok(Outcome { entity: Entity::Paydown(entity), effects, action: "cancel_paydown".to_string() })
}

/// Whether paying down `assets` closes the pledge: it is executed and holds
/// one of them.
pub open spec fn closed_by(p: PledgeView, assets: Seq<Seq<char>>) -> bool {
    p.state == PledgeState::Executed && shares_any(p.assets, assets)
}

/// Every pledge that paying down `assets` closes is `Closed`; every other
/// pledge is as in `before`.
pub open spec fn pledges_closed(before: Store, after: Store, assets: Seq<Seq<char>>) -> bool {
    forall|k: Seq<char>|
        #![trigger after.pledge(k)]
        match before.pledge(k) {
            None => after.pledge(k) is None,
            Some(p) => if closed_by(p@, assets) {
                after.pledge(k) matches Some(q) && q@ == with_pledge_state(p@, PledgeState::Closed)
            } else {
                after.pledge(k) == Some(p)
            },
        }
}

fn close_pledges(store: &mut Store, assets: &Vec<String>)
    requires
        old(store).wf(),
    ensures
        final(store).wf(),
        final(store).assets == old(store).assets,
        final(store).paydowns == old(store).paydowns,
        pledges_closed(*old(store), *final(store), strings_view(assets@)),
{
    let ghost sv = strings_view(assets@);
    let ghost o = old(store).pledges@;
    let mut i: usize = 0;
    while i < store.pledges.len()
        invariant
            i <= store.pledges@.len(),
            store.pledges@.len() == o.len(),
            o == old(store).pledges@,
            sv == strings_view(assets@),
            store.assets == old(store).assets,
            store.paydowns == old(store).paydowns,
            forall|j: int| 0 <= j < o.len() ==> #[trigger] store.pledges@[j].key_of() == o[j].key_of(),
            forall|j: int|
                0 <= j < o.len() ==> if j < i && closed_by(o[j]@, sv) {
                    store.pledges@[j]@ == with_pledge_state(o[j]@, PledgeState::Closed)
                } else {
                    #[trigger] store.pledges@[j] == o[j]
                },
        decreases o.len() - i,
    {
        let closes = store.pledges[i].state == PledgeState::Executed
            && vec_has_any(store.pledges[i].assets.as_slice(), assets.as_slice());
        if closes {
            let mut p = store.pledges[i].duplicate();
            p.state = PledgeState::Closed;
            store.pledges.set(i, p);
        }
        i = i + 1;
    }
    proof {
        let s = store.pledges@;
        assert(sorted_by_key(s)) by {
            assert forall|a: int, b: int| 0 <= a < b < s.len() implies crate::keys::key_lt(
                s[a].key_of(),
                s[b].key_of(),
            ) by {
                assert(s[a].key_of() == o[a].key_of());
                assert(s[b].key_of() == o[b].key_of());
            }
        }
        assert forall|k: Seq<char>| #[trigger] store.pledge(k) == store.pledge(k) implies
            match old(store).pledge(k) {
                None => store.pledge(k) is None,
                Some(p) => if closed_by(p@, sv) {
                    store.pledge(k) matches Some(q) && q@ == with_pledge_state(p@, PledgeState::Closed)
                } else {
                    store.pledge(k) == Some(p)
                },
            } by {
            if has_key(o, k) {
                let j = choose|j: int| 0 <= j < o.len() && o[j].key_of() == k;
                assert(s[j].key_of() == k);
                lemma_lookup_at(o, j);
                lemma_lookup_at(s, j);
            } else if has_key(s, k) {
                let j = choose|j: int| 0 <= j < s.len() && s[j].key_of() == k;
                assert(o[j].key_of() == k);
            }
        }
    }
}

/// What executing a paydown does.
pub open spec fn execute_paydown_done(
    before: Store,
    after: Store,
    contract_info: ContractInfo,
    id: String,
    r: Result<Outcome, ContractError>,
) -> bool {
    match before.paydown(id@) {
        None => r matches Err(e) && (e matches ContractError::PaydownNotFound { id: x } && x@ == id@),
        Some(p) => if p.state != PaydownState::Accepted {
            r matches Err(e) && e is StateError
        } else {
            r matches Ok(out) && {
                let v = with_paydown_state(p@, PaydownState::Executed);
                let f = contract_info.facility;
                &&& after.paydown(id@) matches Some(q) && q@ == v
                &&& forall|k: Seq<char>| k != id@ ==> after.paydown(k) == before.paydown(k)
                &&& pledges_closed(before, after, p@.assets)
                &&& assets_cleared(before, after, p@.assets)
                &&& is_paydown_view(out.entity, v)
                &&& effect_views(out.effects@) == seq![send_funds(f.warehouse@, p.total_paydown as u128, f.stablecoin_denom@)]
                &&& out.action@ == "execute_paydown"@
            }
        },
    }
}

/// Executes an `Accepted` paydown: the escrowed paydown goes to the
/// warehouse, the assets leave the facility, and every executed pledge that
/// holds one of them is closed.
pub fn execute_paydown(
    store: &mut Store,
    contract_info: &ContractInfo,
    id: String,
) -> (r: Result<Outcome, ContractError>)
    requires
        old(store).wf(),
    ensures
        final(store).wf(),
        r is Err ==> *final(store) == *old(store),
        execute_paydown_done(*old(store), *final(store), *contract_info, id, r),
{
    let mut paydown = match load_paydown(store, id.as_str()) {
        Ok(p) => p,
        Err(e) => return Err(e),
    };
    if paydown.state != PaydownState::Accepted {
        return Err(ContractError::StateError {
            error: "Unable to execute paydown: Paydown is not in the 'accepted' state.".to_string(),
        });
    }
    let f = &contract_info.facility;
    let mut effects: Vec<Effect> = Vec::new();
    push_send(&mut effects, &f.warehouse, paydown.total_paydown as u128, &f.stablecoin_denom);
    proof {
        assert(effect_views(effects@) =~= seq![send_funds(f.warehouse@, paydown.total_paydown as u128, f.stablecoin_denom@)]);
    }
    close_pledges(store, &paydown.assets);
    let ghost closed = *store;
    remove_assets(store, &paydown.assets);
    let ghost mid = *store;
    paydown.state = PaydownState::Executed;
    let entity = paydown.duplicate();
    save_paydown(store, paydown);
    proof {
        assert forall|k: Seq<char>| #[trigger] store.asset(k) == mid.asset(k) by {}
        assert forall|k: Seq<char>| #[trigger] store.asset(k) == store.asset(k) implies
            (strings_view(old(store).paydown(id@)->Some_0.assets@).contains(k) ==> store.asset(k) is None)
            && (!strings_view(old(store).paydown(id@)->Some_0.assets@).contains(k) ==> store.asset(k) == old(store).asset(k)) by {
            assert(mid.asset(k) == store.asset(k));
            assert(closed.asset(k) == old(store).asset(k));
        }
        assert forall|k: Seq<char>| #[trigger] store.pledge(k) == closed.pledge(k) by {}
    }
    Ok(Outcome { entity: Entity::Paydown(entity), effects, action: "execute_paydown".to_string() })
}

/// What performing a message does: it fails on invalid fields, then on an
/// unentitled sender, and otherwise does what its action does. A failure
/// leaves the store as it was.
pub open spec fn execute_done(
    before: Store,
    after: Store,
    contract_info: ContractInfo,
    contract_address: Seq<char>,
    sender: Seq<char>,
    funds: Seq<Coin>,
    msg: ExecuteMsg,
    r: Result<Outcome, ContractError>,
) -> bool {
    &&& r is Err ==> after == before
    &&& msg.invalid_fields().len() > 0 ==> (r matches Err(e) && (e matches ContractError::InvalidFields { fields }
        && strings_view(fields@) == msg.invalid_fields()))
    &&& msg.invalid_fields().len() == 0 && sender != msg.authorized_sender(contract_info) ==> (r matches Err(e)
        && e is Unauthorized)
    &&& msg.invalid_fields().len() == 0 && sender == msg.authorized_sender(contract_info) ==> match msg {
        ExecuteMsg::ProposePledge { id, assets, total_advance, asset_marker_denom } =>
            propose_pledge_done(before, after, contract_info, contract_address, id, assets, total_advance, asset_marker_denom, r),
        ExecuteMsg::AcceptPledge { id } => accept_pledge_done(before, after, contract_info, funds, id, r),
        ExecuteMsg::CancelPledge { id } => cancel_pledge_done(before, after, contract_info, id, r),
        ExecuteMsg::ExecutePledge { id } => execute_pledge_done(before, after, contract_info, id, r),
        ExecuteMsg::ProposePaydown { id, assets, total_paydown } =>
            propose_paydown_done(before, after, contract_info, funds, id, assets, total_paydown, r),
        ExecuteMsg::AcceptPaydown { id } => accept_paydown_done(before, after, id, r),
        ExecuteMsg::CancelPaydown { id } => cancel_paydown_done(before, after, contract_info, id, r),
        ExecuteMsg::ExecutePaydown { id } => execute_paydown_done(before, after, contract_info, id, r),
    }
}

/// Validates the message, checks that the sender is the party entitled to
/// send it, then performs it. Validation failures come before authorization
/// failures, and both before any record is read.
pub fn execute(
    store: &mut Store,
    contract_info: &ContractInfo,
    contract_address: &str,
    sender: &str,
    funds: &Vec<Coin>,
    msg: ExecuteMsg,
) -> (r: Result<Outcome, ContractError>)
    requires
        old(store).wf(),
    ensures
        final(store).wf(),
        r is Err ==> *final(store) == *old(store),
        execute_done(*old(store), *final(store), *contract_info, contract_address@, sender@, funds@, msg, r),
{
    if let Err(e) = msg.validate() {
        return Err(e);
    }
    if let Err(e) = msg.authorize(contract_info, sender) {
        return Err(e);
    }
    match msg {
        ExecuteMsg::ProposePledge { id, assets, total_advance, asset_marker_denom } => propose_pledge(
            store,
            contract_info,
            contract_address,
            id,
            assets,
            total_advance,
            asset_marker_denom,
        ),
        ExecuteMsg::AcceptPledge { id } => accept_pledge(store, contract_info, funds, id),
        ExecuteMsg::CancelPledge { id } => cancel_pledge(store, contract_info, id),
        ExecuteMsg::ExecutePledge { id } => execute_pledge(store, contract_info, id),
        ExecuteMsg::ProposePaydown { id, assets, total_paydown } => propose_paydown(
            store,
            contract_info,
            funds,
            id,
            assets,
            total_paydown,
        ),
        ExecuteMsg::AcceptPaydown { id } => accept_paydown(store, id),
        ExecuteMsg::CancelPaydown { id } => cancel_paydown(store, contract_info, id),
        ExecuteMsg::ExecutePaydown { id } => execute_paydown(store, contract_info, id),
    }
}

/// The capabilities the contract takes on the facility marker.
pub open spec fn facility_marker_access() -> Seq<MarkerAccess> {
    seq![
        MarkerAccess::Admin,
        MarkerAccess::Delete,
        MarkerAccess::Deposit,
        MarkerAccess::Transfer,
        MarkerAccess::Withdraw,
    ]
}

/// The effects of instantiation: bind the name to the contract, create the
/// facility marker with the whole supply, grant the contract its rights,
/// finalize and activate the marker, then withdraw the two shares.
pub open spec fn instantiate_effects(
    bind_name: Seq<char>,
    contract: Seq<char>,
    f: Facility,
    split: MarkerSplit,
) -> Seq<EffectView> {
    let denom = f.marker_denom@;
    seq![
        EffectView::BindName { name: bind_name, address: contract },
        EffectView::CreateMarker { supply: split.supply, denom },
        EffectView::GrantMarkerAccess { denom, address: contract, permissions: facility_marker_access() },
        EffectView::FinalizeMarker { denom },
        EffectView::ActivateMarker { denom },
        EffectView::WithdrawCoins { marker_denom: denom, amount: split.to_warehouse, denom, recipient: f.warehouse@ },
        EffectView::WithdrawCoins { marker_denom: denom, amount: split.to_originator, denom, recipient: f.originator@ },
    ]
}

/// What instantiation records and hands out.
pub struct Instantiation {
    pub contract_info: ContractInfo,
    pub split: MarkerSplit,
    pub effects: Vec<Effect>,
}

/// Validates the instantiation message, records the contract info, and
/// computes the fixed split of the facility marker supply.
pub fn instantiate(msg: InstantiateMsg, admin: String, contract_address: &str) -> (r: Result<
    Instantiation,
    ContractError,
>)
    ensures
        r is Ok <==> msg.invalid_fields().len() == 0,
        r matches Err(e) ==> (e matches ContractError::InvalidFields { fields }
            && strings_view(fields@) == msg.invalid_fields()),
        r matches Ok(out) ==> {
            &&& decimal_of(msg.facility.advance_rate@) matches Some((m, e))
                && out.split.supply == marker_supply(e as nat)
                && out.split.to_warehouse == warehouse_share(m, e as nat)
                && out.split.to_warehouse == m
                && out.split.to_originator == out.split.supply - out.split.to_warehouse
            &&& out.contract_info.admin == admin
            &&& out.contract_info.bind_name == msg.bind_name
            &&& out.contract_info.contract_name == msg.contract_name
            &&& out.contract_info.version@ == CONTRACT_VERSION@
            &&& out.contract_info.facility == msg.facility
            &&& effect_views(out.effects@) == instantiate_effects(msg.bind_name@, contract_address@, msg.facility, out.split)
        },
{
    if let Err(e) = msg.validate() {
        return Err(e);
    }
    let rate = match parse_advance_rate(msg.facility.advance_rate.as_str()) {
        Some(rate) => rate,
        None => {
            return Err(ContractError::InvalidFields { fields: vec!["facility.advance_rate".to_string()] });
        },
    };
    let split = marker_split(rate);
    let f = &msg.facility;
    let denom = &f.marker_denom;
    let permissions = vec![
        MarkerAccess::Admin,
        MarkerAccess::Delete,
        MarkerAccess::Deposit,
        MarkerAccess::Transfer,
        MarkerAccess::Withdraw,
    ];
    proof {
        assert(permissions@ =~= facility_marker_access());
    }
    let effects = vec![
        Effect::BindName { name: msg.bind_name.clone(), address: contract_address.to_string() },
        Effect::CreateMarker { supply: split.supply, denom: denom.clone() },
        Effect::GrantMarkerAccess { denom: denom.clone(), address: contract_address.to_string(), permissions },
        Effect::FinalizeMarker { denom: denom.clone() },
        Effect::ActivateMarker { denom: denom.clone() },
        Effect::WithdrawCoins {
            marker_denom: denom.clone(),
            amount: split.to_warehouse,
            denom: denom.clone(),
            recipient: f.warehouse.clone(),
        },
        Effect::WithdrawCoins {
            marker_denom: denom.clone(),
            amount: split.to_originator,
            denom: denom.clone(),
            recipient: f.originator.clone(),
        },
    ];
    proof {
        assert(effect_views(effects@) =~= instantiate_effects(msg.bind_name@, contract_address@, msg.facility, split));
    }
    let contract_info = ContractInfo::new(
        admin,
        msg.bind_name,
        msg.contract_name,
        CONTRACT_VERSION.to_string(),
        msg.facility,
    );
    Ok(Instantiation { contract_info, split, effects })
}

/// The answer to a query.
pub enum QueryResponse {
    ContractInfo(ContractInfo),
    Facility(Facility),
    Pledge(Pledge),
    Paydown(Paydown),
    Ids(Vec<String>),
    Pledges(Vec<Pledge>),
    Paydowns(Vec<Paydown>),
    Assets(Vec<Asset>),
}

/// The facility agreement.
pub fn get_facility_info(contract_info: &ContractInfo) -> (r: Facility)
    ensures
        r == contract_info.facility,
{
    contract_info.facility.duplicate()
}

/// The pledge stored under `id`.
pub fn get_pledge(store: &Store, id: String) -> (r: Result<Pledge, ContractError>)
    requires
        store.wf(),
    ensures
        match store.pledge(id@) {
            Some(p) => r matches Ok(q) && q@ == p@,
            None => r matches Err(e) && (e matches ContractError::PledgeNotFound { id: x } && x@ == id@),
        },
{
    load_pledge(store, id.as_str())
}

/// The identifiers of all pledges, in ascending order.
pub fn list_pledge_ids(store: &Store) -> (r: Vec<String>)
    ensures
        strings_view(r@) == selected_pledges(*store, None, None, None, None).map_values(
            |p: PledgeView| p.id,
        ),
{
    get_pledge_ids(store, None, None, None)
}

/// All pledges, in ascending identifier order.
pub fn list_pledges(store: &Store) -> (r: Vec<Pledge>)
    ensures
        pledge_views(r@) == selected_pledges(*store, None, None, None, None),
{
    get_pledges(store, None, None, None)
}

/// What a query answers.
pub open spec fn query_answer(
    store: Store,
    contract_info: ContractInfo,
    msg: QueryMsg,
    r: Result<QueryResponse, ContractError>,
) -> bool {
    match msg {
        QueryMsg::GetContractInfo => r matches Ok(QueryResponse::ContractInfo(c)) && c == contract_info,
        QueryMsg::GetFacilityInfo => r matches Ok(QueryResponse::Facility(f)) && f
            == contract_info.facility,
        QueryMsg::GetPledge { id } => match store.pledge(id@) {
            Some(p) => r matches Ok(QueryResponse::Pledge(q)) && q@ == p@,
            None => r matches Err(e) && e is PledgeNotFound,
        },
        QueryMsg::ListPledgeIds => r matches Ok(QueryResponse::Ids(v)) && strings_view(v@)
            == selected_pledges(store, None, None, None, None).map_values(|p: PledgeView| p.id),
        QueryMsg::ListPledges => r matches Ok(QueryResponse::Pledges(v)) && pledge_views(v@)
            == selected_pledges(store, None, None, None, None),
        QueryMsg::ListPledgeProposals => r matches Ok(QueryResponse::Pledges(v)) && pledge_views(v@)
            == selected_pledges(store, Some(PledgeState::Proposed), None, None, None),
        QueryMsg::ListPaydownIds => r matches Ok(QueryResponse::Ids(v)) && strings_view(v@)
            == selected_paydowns(store, None, None, None).map_values(|p: PaydownView| p.id),
        QueryMsg::ListPaydowns => r matches Ok(QueryResponse::Paydowns(v)) && paydown_views(v@)
            == selected_paydowns(store, None, None, None),
        QueryMsg::ListPaydownProposals => r matches Ok(QueryResponse::Paydowns(v)) && paydown_views(
            v@,
        ) == selected_paydowns(store, Some(PaydownState::Proposed), None, None),
        QueryMsg::GetPaydown { id } => match store.paydown(id@) {
            Some(p) => r matches Ok(QueryResponse::Paydown(q)) && q@ == p@,
            None => r matches Err(e) && e is PaydownNotFound,
        },
        QueryMsg::ListAssets => r matches Ok(QueryResponse::Assets(v)) && asset_views(v@)
            == selected_assets(store, None, None, None, None),
        QueryMsg::ListInventory => r matches Ok(QueryResponse::Assets(v)) && asset_views(v@)
            == selected_assets(store, Some(AssetState::Inventory), None, None, None),
    }
}

/// Answers a read-only query; no authorization is needed.
pub fn query(store: &Store, contract_info: &ContractInfo, msg: QueryMsg) -> (r: Result<
    QueryResponse,
    ContractError,
>)
    requires
        store.wf(),
    ensures
        query_answer(*store, *contract_info, msg, r),
{
    match msg {
        QueryMsg::GetContractInfo => Ok(QueryResponse::ContractInfo(contract_info.duplicate())),
        QueryMsg::GetFacilityInfo => Ok(QueryResponse::Facility(get_facility_info(contract_info))),
        QueryMsg::GetPledge { id } => match get_pledge(store, id) {
            Ok(p) => Ok(QueryResponse::Pledge(p)),
            Err(e) => Err(e),
        },
        QueryMsg::ListPledgeIds => Ok(QueryResponse::Ids(list_pledge_ids(store))),
        QueryMsg::ListPledges => Ok(QueryResponse::Pledges(list_pledges(store))),
        QueryMsg::ListPledgeProposals => Ok(
            QueryResponse::Pledges(get_pledges(store, Some(PledgeState::Proposed), None, None)),
        ),
        QueryMsg::ListPaydownIds => Ok(QueryResponse::Ids(get_paydown_ids(store, None, None, None))),
        QueryMsg::ListPaydowns => Ok(QueryResponse::Paydowns(get_paydowns(store, None, None, None))),
        QueryMsg::ListPaydownProposals => Ok(
            QueryResponse::Paydowns(get_paydowns(store, Some(PaydownState::Proposed), None, None)),
        ),
        QueryMsg::GetPaydown { id } => match load_paydown(store, id.as_str()) {
            Ok(p) => Ok(QueryResponse::Paydown(p)),
            Err(e) => Err(e),
        },
        QueryMsg::ListAssets => Ok(QueryResponse::Assets(get_assets(store, None, None, None))),
        QueryMsg::ListInventory => Ok(
            QueryResponse::Assets(get_assets(store, Some(AssetState::Inventory), None, None)),
        ),
    }
}

} // verus!
