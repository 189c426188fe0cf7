//! Facts that hold of every run of the engine, proved from the contracts of
//! the functions they speak of.
use vstd::prelude::*;
use crate::contract::{
    accept_pledge_done, cancel_pledge_done, cancel_pledge_effects, execute_done,
    execute_pledge_done, propose_pledge_done,
};
use crate::contract_info::ContractInfo;
use crate::effects::{effect_views, is_fund_movement, send_funds, Coin, EffectView, Outcome};
use crate::error::ContractError;
use crate::msg::ExecuteMsg;
use crate::keys::{key_lt, lemma_filter_sorted, Keyed};
use crate::rate::{advance_rate_ok, lemma_split_exact, marker_supply, warehouse_share, MarkerSplit};
use crate::state::{
    asset_selected, asset_views, paydown_selected, paydown_views, pledge_selected, pledge_views,
    selected_assets, selected_paydowns, selected_pledges, AssetState, Asset, Bound, Paydown, PaydownState, Pledge, PledgeState, Store,
};

verus! {

/// The facility marker split is a partition of the supply: for every valid
/// advance rate, the warehouse's and the originator's shares add up to the
/// whole supply, neither is negative, and the warehouse's share is exactly
/// the rate's mantissa, with nothing lost to rounding.
pub proof fn split_is_partition(mantissa: int, scale: nat, split: MarkerSplit)
    requires
        advance_rate_ok(mantissa, scale as int),
        split.supply == marker_supply(scale),
        split.to_warehouse == warehouse_share(mantissa, scale),
        split.to_originator == split.supply - split.to_warehouse,
    ensures
        split.to_warehouse + split.to_originator == split.supply,
        0 < split.to_warehouse <= split.supply,
        split.to_warehouse == mantissa,
{
    lemma_split_exact(mantissa, scale);
}

/// One action of any party, successful or not, taking `before` to `after`.
pub open spec fn action_step(before: Store, after: Store) -> bool {
    exists|
        ci: ContractInfo,
        addr: Seq<char>,
        sender: Seq<char>,
        funds: Seq<Coin>,
        msg: ExecuteMsg,
        r: Result<Outcome, ContractError>,
    | execute_done(before, after, ci, addr, sender, funds, msg, r)
}

/// Pledges are never deleted: whatever action is performed, a pledge stored
/// under `id` before is still stored under `id` after.
pub proof fn pledge_persists(before: Store, after: Store, id: Seq<char>)
    requires
        action_step(before, after),
        before.pledge(id) is Some,
    ensures
        after.pledge(id) is Some,
{
    let (ci, addr, sender, funds, msg, r) = choose|
        ci: ContractInfo,
        addr: Seq<char>,
        sender: Seq<char>,
        funds: Seq<Coin>,
        msg: ExecuteMsg,
        r: Result<Outcome, ContractError>,
    | execute_done(before, after, ci, addr, sender, funds, msg, r);
    if r is Ok {
        match msg {
            ExecuteMsg::ProposePledge { id: pid, .. } => {
                if pid@ != id {
                    assert(after.pledge(id) == before.pledge(id));
                }
            },
            ExecuteMsg::AcceptPledge { id: pid } => {
                if pid@ != id {
                    assert(after.pledge(id) == before.pledge(id));
                }
            },
            ExecuteMsg::CancelPledge { id: pid } => {
                if pid@ != id {
                    assert(after.pledge(id) == before.pledge(id));
                }
            },
            ExecuteMsg::ExecutePledge { id: pid } => {
                if pid@ != id {
                    assert(after.pledge(id) == before.pledge(id));
                }
            },
            ExecuteMsg::ExecutePaydown { .. } => {
                assert(after.pledge(id) is Some);
            },
            _ => {
                assert(after.pledges == before.pledges);
            },
        }
    }
}

/// An identifier, once successfully proposed, is never proposed again: after
/// a successful proposal of `id` and any run of further actions, a new
/// proposal of `id` fails as a duplicate.
pub proof fn pledge_id_never_reused(
    start: Store,
    run: Seq<Store>,
    ci: ContractInfo,
    addr: Seq<char>,
    id: String,
    assets: Vec<String>,
    total_advance: u64,
    denom: String,
    first: Result<Outcome, ContractError>,
    after: Store,
    id2: String,
    assets2: Vec<String>,
    total_advance2: u64,
    denom2: String,
    second: Result<Outcome, ContractError>,
)
    requires
        run.len() >= 1,
        propose_pledge_done(start, run[0], ci, addr, id, assets, total_advance, denom, first),
        first is Ok,
        forall|i: int| 0 <= i < run.len() - 1 ==> action_step(#[trigger] run[i], run[i + 1]),
        id2@ == id@,
        propose_pledge_done(run.last(), after, ci, addr, id2, assets2, total_advance2, denom2, second),
    ensures
        second matches Err(e) && e is PledgeAlreadyExists,
{
    persists_along(run, run.len() - 1, id@);
}

/// A pledge stored at the start of a run of actions is stored at every later point.
pub proof fn persists_along(run: Seq<Store>, k: int, id: Seq<char>)
    requires
        0 <= k < run.len(),
        run[0].pledge(id) is Some,
        forall|i: int| 0 <= i < run.len() - 1 ==> action_step(#[trigger] run[i], run[i + 1]),
    ensures
        run[k].pledge(id) is Some,
    decreases k,
{
    if k > 0 {
        persists_along(run, k - 1, id);
        pledge_persists(run[k - 1], run[k], id);
    }
}

/// Accepting succeeds only from `Proposed`; from any other status it fails
/// with a state error.
pub proof fn accept_only_from_proposed(
    before: Store,
    after: Store,
    ci: ContractInfo,
    funds: Seq<Coin>,
    id: String,
    r: Result<Outcome, ContractError>,
)
    requires
        accept_pledge_done(before, after, ci, funds, id, r),
    ensures
        r is Ok ==> (before.pledge(id@) matches Some(p) && p.state == PledgeState::Proposed),
        before.pledge(id@) matches Some(p) && p.state != PledgeState::Proposed ==> (r matches Err(e)
            && e is StateError),
{
}

/// Cancelling succeeds only from `Proposed` or `Accepted`; from any other
/// status it fails with a state error.
pub proof fn cancel_only_from_open(
    before: Store,
    after: Store,
    ci: ContractInfo,
    id: String,
    r: Result<Outcome, ContractError>,
)
    requires
        cancel_pledge_done(before, after, ci, id, r),
    ensures
        r is Ok ==> (before.pledge(id@) matches Some(p) && (p.state == PledgeState::Proposed
            || p.state == PledgeState::Accepted)),
        before.pledge(id@) matches Some(p) && p.state != PledgeState::Proposed && p.state
            != PledgeState::Accepted ==> (r matches Err(e) && e is StateError),
{
}

/// Executing succeeds only from `Accepted`; from any other status it fails
/// with a state error.
pub proof fn execute_only_from_accepted(
    before: Store,
    after: Store,
    ci: ContractInfo,
    id: String,
    r: Result<Outcome, ContractError>,
)
    requires
        execute_pledge_done(before, after, ci, id, r),
    ensures
        r is Ok ==> (before.pledge(id@) matches Some(p) && p.state == PledgeState::Accepted),
        before.pledge(id@) matches Some(p) && p.state != PledgeState::Accepted ==> (r matches Err(e)
            && e is StateError),
{
}

/// A failed action of any kind leaves every stored record as it was.
pub proof fn failure_changes_nothing(
    before: Store,
    after: Store,
    ci: ContractInfo,
    addr: Seq<char>,
    sender: Seq<char>,
    funds: Seq<Coin>,
    msg: ExecuteMsg,
    r: Result<Outcome, ContractError>,
)
    requires
        execute_done(before, after, ci, addr, sender, funds, msg, r),
        r is Err,
    ensures
        after == before,
{
}

/// Accepting a pledge succeeds only with exactly its advance, in the
/// facility's cash denomination, as the first attached coin; with any other
/// amount or denomination it fails and the pledge stays `Proposed`.
pub proof fn accept_needs_exact_advance(
    before: Store,
    after: Store,
    ci: ContractInfo,
    addr: Seq<char>,
    sender: Seq<char>,
    funds: Seq<Coin>,
    id: String,
    r: Result<Outcome, ContractError>,
)
    requires
        execute_done(before, after, ci, addr, sender, funds, ExecuteMsg::AcceptPledge { id }, r),
        before.pledge(id@) matches Some(p) && p.state == PledgeState::Proposed,
    ensures
        r is Ok ==> funds.len() > 0 && funds[0].amount == before.pledge(id@)->Some_0.total_advance
            && funds[0].denom@ == ci.facility.stablecoin_denom@,
        (funds.len() == 0 || funds[0].amount != before.pledge(id@)->Some_0.total_advance
            || funds[0].denom@ != ci.facility.stablecoin_denom@) ==> (r is Err && after.pledge(id@)
            == before.pledge(id@)),
{
}

/// The fund movements among a list of effects, in order.
pub open spec fn fund_movements(effects: Seq<EffectView>) -> Seq<EffectView> {
    effects.filter(|e: EffectView| is_fund_movement(e))
}

/// Cancelling a `Proposed` pledge moves no funds; cancelling an `Accepted`
/// one moves exactly one: its advance, back to the warehouse.
pub proof fn cancel_refund_policy(
    before: Store,
    after: Store,
    ci: ContractInfo,
    id: String,
    out: Outcome,
)
    requires
        cancel_pledge_done(before, after, ci, id, Ok(out)),
    ensures
        before.pledge(id@)->Some_0.state == PledgeState::Proposed ==> fund_movements(
            effect_views(out.effects@),
        ).len() == 0,
        before.pledge(id@)->Some_0.state == PledgeState::Accepted ==> fund_movements(
            effect_views(out.effects@),
        ) == seq![
            send_funds(
                ci.facility.warehouse@,
                before.pledge(id@)->Some_0.total_advance as u128,
                ci.facility.stablecoin_denom@,
            ),
        ],
{
    let p = before.pledge(id@)->Some_0;
    let s = cancel_pledge_effects(ci.facility, p@);
    assert(effect_views(out.effects@) == s);
    reveal_with_fuel(Seq::filter, 5);
    if p.state == PledgeState::Accepted {
        assert(s.len() == 4);
        assert(s.drop_last().drop_last().drop_last().drop_last() =~= Seq::<EffectView>::empty());
        assert(fund_movements(s) =~= seq![
            send_funds(ci.facility.warehouse@, p.total_advance as u128, ci.facility.stablecoin_denom@),
        ]);
    } else if p.state == PledgeState::Proposed {
        assert(s.len() == 3);
        assert(s.drop_last().drop_last().drop_last() =~= Seq::<EffectView>::empty());
        assert(fund_movements(s) =~= Seq::<EffectView>::empty());
    }
}

/// Listings come in strictly ascending identifier order, whatever the filters.
pub proof fn listings_ascending(
    store: Store,
    pledge_state: Option<PledgeState>,
    assets: Option<Seq<Seq<char>>>,
    asset_state: Option<AssetState>,
    asset_filter: Option<Seq<AssetState>>,
    paydown_state: Option<PaydownState>,
    min: Option<Bound>,
    max: Option<Bound>,
)
    requires
        store.wf(),
    ensures
        forall|i: int, j: int|
            0 <= i < j < selected_pledges(store, pledge_state, assets, min, max).len() ==> key_lt(
                selected_pledges(store, pledge_state, assets, min, max)[i].id,
                selected_pledges(store, pledge_state, assets, min, max)[j].id,
            ),
        forall|i: int, j: int|
            0 <= i < j < selected_assets(store, asset_state, asset_filter, min, max).len()
                ==> key_lt(
                selected_assets(store, asset_state, asset_filter, min, max)[i].id,
                selected_assets(store, asset_state, asset_filter, min, max)[j].id,
            ),
        forall|i: int, j: int|
            0 <= i < j < selected_paydowns(store, paydown_state, min, max).len() ==> key_lt(
                selected_paydowns(store, paydown_state, min, max)[i].id,
                selected_paydowns(store, paydown_state, min, max)[j].id,
            ),
{
    let pp = |p: Pledge| pledge_selected(p, pledge_state, assets, min, max);
    lemma_filter_sorted(store.pledges@, pp);
    let f = store.pledges@.filter(pp);
    assert(selected_pledges(store, pledge_state, assets, min, max) == pledge_views(f));
    assert forall|i: int, j: int| 0 <= i < j < f.len() implies key_lt(
        pledge_views(f)[i].id,
        pledge_views(f)[j].id,
    ) by {
        assert(key_lt(f[i].key_of(), f[j].key_of()));
    }
    let ap = |a: Asset| asset_selected(a, asset_state, asset_filter, min, max);
    lemma_filter_sorted(store.assets@, ap);
    let h = store.assets@.filter(ap);
    assert(selected_assets(store, asset_state, asset_filter, min, max) == asset_views(h));
    assert forall|i: int, j: int| 0 <= i < j < h.len() implies key_lt(
        asset_views(h)[i].id,
        asset_views(h)[j].id,
    ) by {
        assert(key_lt(h[i].key_of(), h[j].key_of()));
    }
    let dp = |p: Paydown| paydown_selected(p, paydown_state, min, max);
    lemma_filter_sorted(store.paydowns@, dp);
    let g = store.paydowns@.filter(dp);
    assert(selected_paydowns(store, paydown_state, min, max) == paydown_views(g));
    assert forall|i: int, j: int| 0 <= i < j < g.len() implies key_lt(
        paydown_views(g)[i].id,
        paydown_views(g)[j].id,
    ) by {
        assert(key_lt(g[i].key_of(), g[j].key_of()));
    }
}

/// Fund movements come last: no custody operation follows one.
pub open spec fn funds_last(s: Seq<EffectView>) -> bool {
    forall|i: int, j: int|
        0 <= i < j < s.len() && is_fund_movement(s[i]) ==> is_fund_movement(s[j])
}

/// In every successful action, custody operations come strictly before fund
/// movements.
pub proof fn custody_before_funds(
    before: Store,
    after: Store,
    ci: ContractInfo,
    addr: Seq<char>,
    sender: Seq<char>,
    funds: Seq<Coin>,
    msg: ExecuteMsg,
    out: Outcome,
)
    requires
        execute_done(before, after, ci, addr, sender, funds, msg, Ok(out)),
    ensures
        funds_last(effect_views(out.effects@)),
{
    let s = effect_views(out.effects@);
    match msg {
        ExecuteMsg::CancelPledge { id } => {
            let p = before.pledge(id@)->Some_0;
            assert(s == cancel_pledge_effects(ci.facility, p@));
            assert(forall|i: int| 0 <= i < 3 ==> !is_fund_movement(#[trigger] s[i]));
        },
        _ => {},
    }
}

} // verus!
