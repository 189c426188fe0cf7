//! The records of a facility and the store that keeps them: pledges, paydowns
//! and assets, each kept in ascending identifier order.
use vstd::prelude::*;
use crate::error::ContractError;
use crate::utils::{shares_any, vec_has_any};
use crate::keys::{
    find_key, key_less, key_lt, keys_of, lemma_filter_step, lemma_lookup_at, lookup,
    remove_key, sorted_by_key, upsert, Keyed,
};

verus! {

pub open spec fn strings_view(v: Seq<String>) -> Seq<Seq<char>> {
    v.map_values(|s: String| s@)
}

/// A copy of a list of strings.
pub fn copy_strings(v: &Vec<String>) -> (r: Vec<String>)
    ensures
        strings_view(r@) == strings_view(v@),
{
    let mut r: Vec<String> = Vec::new();
    let mut i: usize = 0;
    while i < v.len()
        invariant
            i <= v@.len(),
            strings_view(r@) =~= strings_view(v@.take(i as int)),
        decreases v@.len() - i,
    {
        let c = v[i].clone();
        proof {
            assert(c@ == v@[i as int]@);
        }
        let ghost before = r@;
        r.push(c);
        proof {
            assert(v@.take(i + 1) =~= v@.take(i as int).push(v@[i as int]));
            assert(strings_view(r@) =~= strings_view(before).push(c@));
            assert(strings_view(v@.take(i + 1)) =~= strings_view(v@.take(i as int)).push(c@));
        }
        i = i + 1;
    }
    proof {
        assert(v@.take(i as int) =~= v@);
    }
    r
}

/// The facility agreement, fixed at instantiation.
#[derive(Clone, Debug)]
pub struct Facility {
    /// The address of the originator.
    pub originator: String,
    /// The address of the warehouse provider.
    pub warehouse: String,
    /// The address of the escrow marker.
    pub escrow_marker: String,
    /// The denomination of the fractional-ownership marker of the facility.
    pub marker_denom: String,
    /// The cash denomination in which advances and paydowns are made.
    pub stablecoin_denom: String,
    /// The advance rate as a decimal percentage ("75.125" is 75.125%).
    pub advance_rate: String,
    /// The paydown rate as a decimal percentage.
    pub paydown_rate: String,
}

impl Facility {
    /// A copy of the facility agreement.
    pub fn duplicate(&self) -> (r: Facility)
        ensures
            r == *self,
    {
        Facility {
            originator: self.originator.clone(),
            warehouse: self.warehouse.clone(),
            escrow_marker: self.escrow_marker.clone(),
            marker_denom: self.marker_denom.clone(),
            stablecoin_denom: self.stablecoin_denom.clone(),
            advance_rate: self.advance_rate.clone(),
            paydown_rate: self.paydown_rate.clone(),
        }
    }
}

#[derive(Clone, Copy, Debug, PartialEq, Eq, Structural)]
pub enum PledgeState {
    /// The originator has proposed the pledge.
    Proposed,
    /// The warehouse has accepted the proposal and escrowed the advance.
    Accepted,
    /// The originator has cancelled the pledge.
    Cancelled,
    /// The originator has executed the pledge and received the advance.
    Executed,
    /// The pledged assets have been paid down.
    Closed,
}

#[derive(Clone, Debug)]
pub struct Pledge {
    pub id: String,
    pub assets: Vec<String>,
    pub total_advance: u64,
    pub asset_marker_denom: String,
    pub state: PledgeState,
}

pub struct PledgeView {
    pub id: Seq<char>,
    pub assets: Seq<Seq<char>>,
    pub total_advance: u64,
    pub asset_marker_denom: Seq<char>,
    pub state: PledgeState,
}

impl View for Pledge {
    type V = PledgeView;

    open spec fn view(&self) -> PledgeView {
        PledgeView {
            id: self.id@,
            assets: strings_view(self.assets@),
            total_advance: self.total_advance,
            asset_marker_denom: self.asset_marker_denom@,
            state: self.state,
        }
    }
}

impl Keyed for Pledge {
    open spec fn key_of(&self) -> Seq<char> {
        self.id@
    }

    fn key(&self) -> (r: &String) {
        &self.id
    }
}

impl Pledge {
    /// A copy of the pledge.
    pub fn duplicate(&self) -> (r: Pledge)
        ensures
            r@ == self@,
    {
        Pledge {
            id: self.id.clone(),
            assets: copy_strings(&self.assets),
            total_advance: self.total_advance,
            asset_marker_denom: self.asset_marker_denom.clone(),
            state: self.state,
        }
    }
}

#[derive(Clone, Copy, Debug, PartialEq, Eq, Structural)]
pub enum AssetState {
    /// A pledge proposal holds the asset.
    PledgeProposed,
    /// The asset is part of the facility inventory.
    Inventory,
    /// A paydown proposal holds the asset.
    PaydownProposed,
}

#[derive(Clone, Debug)]
pub struct Asset {
    pub id: String,
    pub state: AssetState,
}

pub struct AssetView {
    pub id: Seq<char>,
    pub state: AssetState,
}

impl View for Asset {
    type V = AssetView;

    open spec fn view(&self) -> AssetView {
        AssetView { id: self.id@, state: self.state }
    }
}

impl Keyed for Asset {
    open spec fn key_of(&self) -> Seq<char> {
        self.id@
    }

    fn key(&self) -> (r: &String) {
        &self.id
    }
}

impl Asset {
    /// A copy of the asset record.
    pub fn duplicate(&self) -> (r: Asset)
        ensures
            r@ == self@,
    {
        Asset { id: self.id.clone(), state: self.state }
    }
}

#[derive(Clone, Copy, Debug, PartialEq, Eq, Structural)]
pub enum PaydownState {
    /// The originator has proposed the paydown and escrowed its funds.
    Proposed,
    /// The warehouse has accepted the proposal.
    Accepted,
    /// The originator has cancelled the paydown.
    Cancelled,
    /// The originator has executed the paydown.
    Executed,
}

#[derive(Clone, Debug)]
pub struct Paydown {
    pub id: String,
    pub assets: Vec<String>,
    pub total_paydown: u64,
    pub state: PaydownState,
}

pub struct PaydownView {
    pub id: Seq<char>,
    pub assets: Seq<Seq<char>>,
    pub total_paydown: u64,
    pub state: PaydownState,
}

impl View for Paydown {
    type V = PaydownView;

    open spec fn view(&self) -> PaydownView {
        PaydownView {
            id: self.id@,
            assets: strings_view(self.assets@),
            total_paydown: self.total_paydown,
            state: self.state,
        }
    }
}

impl Keyed for Paydown {
    open spec fn key_of(&self) -> Seq<char> {
        self.id@
    }

    fn key(&self) -> (r: &String) {
        &self.id
    }
}

impl Paydown {
    /// A copy of the paydown.
    pub fn duplicate(&self) -> (r: Paydown)
        ensures
            r@ == self@,
    {
        Paydown {
            id: self.id.clone(),
            assets: copy_strings(&self.assets),
            total_paydown: self.total_paydown,
            state: self.state,
        }
    }
}

/// The persistent records of one facility. Each family is kept in strictly
/// ascending identifier order, so an identifier maps to at most one record.
pub struct Store {
    pub pledges: Vec<Pledge>,
    pub assets: Vec<Asset>,
    pub paydowns: Vec<Paydown>,
}

impl Store {
    pub open spec fn wf(&self) -> bool {
        &&& sorted_by_key(self.pledges@)
        &&& sorted_by_key(self.assets@)
        &&& sorted_by_key(self.paydowns@)
    }

    /// The stored pledge with identifier `id`.
    pub open spec fn pledge(&self, id: Seq<char>) -> Option<Pledge> {
        lookup(self.pledges@, id)
    }

    /// The stored asset record with identifier `id`.
    pub open spec fn asset(&self, id: Seq<char>) -> Option<Asset> {
        lookup(self.assets@, id)
    }

    /// The stored paydown with identifier `id`.
    pub open spec fn paydown(&self, id: Seq<char>) -> Option<Paydown> {
        lookup(self.paydowns@, id)
    }

    /// An empty store.
    pub fn new() -> (r: Store)
        ensures
            r.wf(),
            r.pledges@.len() == 0,
            r.assets@.len() == 0,
            r.paydowns@.len() == 0,
    {
        Store { pledges: Vec::new(), assets: Vec::new(), paydowns: Vec::new() }
    }
}

/// Loads the pledge stored under `key`.
pub fn load_pledge(store: &Store, key: &str) -> (r: Result<Pledge, ContractError>)
    requires
        store.wf(),
    ensures
        match r {
            Ok(p) => store.pledge(key@) matches Some(q) && p@ == q@,
            Err(e) => store.pledge(key@) is None && (e matches ContractError::PledgeNotFound { id } && id@ == key@),
        },
{
    match find_key(&store.pledges, key) {
        Some(i) => {
            proof {
                lemma_lookup_at(store.pledges@, i as int);
            }
            Ok(store.pledges[i].duplicate())
        },
        None => Err(ContractError::PledgeNotFound { id: key.to_string() }),
    }
}

/// Stores the pledge under its identifier, replacing any record held there.
pub fn save_pledge(store: &mut Store, pledge: Pledge)
    requires
        old(store).wf(),
    ensures
        final(store).wf(),
        final(store).pledge(pledge.id@) == Some(pledge),
        forall|k: Seq<char>| k != pledge.id@ ==> final(store).pledge(k) == old(store).pledge(k),
        final(store).assets == old(store).assets,
        final(store).paydowns == old(store).paydowns,
{
    upsert(&mut store.pledges, pledge);
}

/// Loads the asset record stored under `key`.
pub fn load_asset(store: &Store, key: &str) -> (r: Result<Asset, ContractError>)
    requires
        store.wf(),
    ensures
        match r {
            Ok(a) => store.asset(key@) matches Some(b) && a@ == b@,
            Err(e) => store.asset(key@) is None && (e matches ContractError::AssetNotFound { id } && id@ == key@),
        },
{
    match find_key(&store.assets, key) {
        Some(i) => {
            proof {
                lemma_lookup_at(store.assets@, i as int);
            }
            Ok(store.assets[i].duplicate())
        },
        None => Err(ContractError::AssetNotFound { id: key.to_string() }),
    }
}

/// Stores the asset record under its identifier, replacing any record held there.
pub fn save_asset(store: &mut Store, asset: Asset)
    requires
        old(store).wf(),
    ensures
        final(store).wf(),
        final(store).asset(asset.id@) == Some(asset),
        forall|k: Seq<char>| k != asset.id@ ==> final(store).asset(k) == old(store).asset(k),
        final(store).pledges == old(store).pledges,
        final(store).paydowns == old(store).paydowns,
{
    upsert(&mut store.assets, asset);
}

/// Removes the asset record stored under `key`, if any.
pub fn remove_asset(store: &mut Store, key: &str)
    requires
        old(store).wf(),
    ensures
        final(store).wf(),
        final(store).asset(key@) is None,
        forall|k: Seq<char>| k != key@ ==> final(store).asset(k) == old(store).asset(k),
        final(store).pledges == old(store).pledges,
        final(store).paydowns == old(store).paydowns,
{
    remove_key(&mut store.assets, key);
}

/// Records every asset of `ids` with the given status.
pub fn set_assets_state(store: &mut Store, state: AssetState, ids: &Vec<String>)
    requires
        old(store).wf(),
    ensures
        final(store).wf(),
        forall|k: Seq<char>|
            #![trigger final(store).asset(k)]
            strings_view(ids@).contains(k) ==> (final(store).asset(k) matches Some(a) && a@
                == AssetView { id: k, state }),
        forall|k: Seq<char>|
            #![trigger final(store).asset(k)]
            !strings_view(ids@).contains(k) ==> final(store).asset(k) == old(store).asset(k),
        final(store).pledges == old(store).pledges,
        final(store).paydowns == old(store).paydowns,
{
    let mut i: usize = 0;
    while i < ids.len()
        invariant
            i <= ids@.len(),
            store.wf(),
            forall|k: Seq<char>|
                #![trigger store.asset(k)]
                strings_view(ids@.take(i as int)).contains(k) ==> (store.asset(k) matches Some(a)
                    && a@ == AssetView { id: k, state }),
            forall|k: Seq<char>|
                #![trigger store.asset(k)]
                !strings_view(ids@.take(i as int)).contains(k) ==> store.asset(k) == old(
                    store,
                ).asset(k),
            store.pledges == old(store).pledges,
            store.paydowns == old(store).paydowns,
        decreases ids@.len() - i,
    {
        let id = ids[i].clone();
        let ghost k0 = id@;
        save_asset(store, Asset { id, state });
        proof {
            let prev = strings_view(ids@.take(i as int));
            let next = strings_view(ids@.take(i + 1));
            assert(next =~= prev.push(k0));
            assert(next[prev.len() as int] == k0);
            assert forall|k: Seq<char>| #[trigger] prev.contains(k) implies next.contains(k) by {
                let j = choose|j: int| 0 <= j < prev.len() && prev[j] == k;
                assert(next[j] == k);
            }
            assert forall|k: Seq<char>| #[trigger] next.contains(k) implies prev.contains(k) || k == k0 by {
                let j = choose|j: int| 0 <= j < next.len() && next[j] == k;
                if j < prev.len() {
                    assert(prev[j] == k);
                }
            }
        }
        i = i + 1;
    }
    proof {
        assert(ids@.take(i as int) =~= ids@);
    }
}

/// Removes the asset records of every asset of `ids`.
pub fn remove_assets(store: &mut Store, ids: &Vec<String>)
    requires
        old(store).wf(),
    ensures
        final(store).wf(),
        forall|k: Seq<char>|
            #![trigger final(store).asset(k)]
            strings_view(ids@).contains(k) ==> final(store).asset(k) is None,
        forall|k: Seq<char>|
            #![trigger final(store).asset(k)]
            !strings_view(ids@).contains(k) ==> final(store).asset(k) == old(store).asset(k),
        final(store).pledges == old(store).pledges,
        final(store).paydowns == old(store).paydowns,
{
    let mut i: usize = 0;
    while i < ids.len()
        invariant
            i <= ids@.len(),
            store.wf(),
            forall|k: Seq<char>|
                #![trigger store.asset(k)]
                strings_view(ids@.take(i as int)).contains(k) ==> store.asset(k) is None,
            forall|k: Seq<char>|
                #![trigger store.asset(k)]
                !strings_view(ids@.take(i as int)).contains(k) ==> store.asset(k) == old(
                    store,
                ).asset(k),
            store.pledges == old(store).pledges,
            store.paydowns == old(store).paydowns,
        decreases ids@.len() - i,
    {
        let ghost k0 = ids@[i as int]@;
        remove_asset(store, ids[i].as_str());
        proof {
            let prev = strings_view(ids@.take(i as int));
            let next = strings_view(ids@.take(i + 1));
            assert(next =~= prev.push(k0));
            assert(next[prev.len() as int] == k0);
            assert forall|k: Seq<char>| #[trigger] prev.contains(k) implies next.contains(k) by {
                let j = choose|j: int| 0 <= j < prev.len() && prev[j] == k;
                assert(next[j] == k);
            }
            assert forall|k: Seq<char>| #[trigger] next.contains(k) implies prev.contains(k) || k == k0 by {
                let j = choose|j: int| 0 <= j < next.len() && next[j] == k;
                if j < prev.len() {
                    assert(prev[j] == k);
                }
            }
        }
        i = i + 1;
    }
    proof {
        assert(ids@.take(i as int) =~= ids@);
    }
}

/// Loads the paydown stored under `key`.
pub fn load_paydown(store: &Store, key: &str) -> (r: Result<Paydown, ContractError>)
    requires
        store.wf(),
    ensures
        match r {
            Ok(p) => store.paydown(key@) matches Some(q) && p@ == q@,
            Err(e) => store.paydown(key@) is None && (e matches ContractError::PaydownNotFound { id } && id@ == key@),
        },
{
    match find_key(&store.paydowns, key) {
        Some(i) => {
            proof {
                lemma_lookup_at(store.paydowns@, i as int);
            }
            Ok(store.paydowns[i].duplicate())
        },
        None => Err(ContractError::PaydownNotFound { id: key.to_string() }),
    }
}

/// Stores the paydown under its identifier, replacing any record held there.
pub fn save_paydown(store: &mut Store, paydown: Paydown)
    requires
        old(store).wf(),
    ensures
        final(store).wf(),
        final(store).paydown(paydown.id@) == Some(paydown),
        forall|k: Seq<char>| k != paydown.id@ ==> final(store).paydown(k) == old(store).paydown(k),
        final(store).pledges == old(store).pledges,
        final(store).assets == old(store).assets,
{
    upsert(&mut store.paydowns, paydown);
}

/// One end of a key range.
#[derive(Clone, Debug)]
pub enum Bound {
    Inclusive(String),
    Exclusive(String),
}

/// Whether key `k` lies within the optional lower and upper bounds.
pub open spec fn in_bounds(k: Seq<char>, min: Option<Bound>, max: Option<Bound>) -> bool {
    &&& match min {
        None => true,
        Some(Bound::Inclusive(b)) => !key_lt(k, b@),
        Some(Bound::Exclusive(b)) => key_lt(b@, k),
    }
    &&& match max {
        None => true,
        Some(Bound::Inclusive(b)) => !key_lt(b@, k),
        Some(Bound::Exclusive(b)) => key_lt(k, b@),
    }
}

fn within_bounds(k: &str, min: &Option<Bound>, max: &Option<Bound>) -> (r: bool)
    ensures
        r == in_bounds(k@, *min, *max),
{
    let above = match min {
        None => true,
        Some(Bound::Inclusive(b)) => !key_less(k, b.as_str()),
        Some(Bound::Exclusive(b)) => key_less(b.as_str(), k),
    };
    let below = match max {
        None => true,
        Some(Bound::Inclusive(b)) => !key_less(b.as_str(), k),
        Some(Bound::Exclusive(b)) => key_less(k, b.as_str()),
    };
    above && below
}

pub open spec fn opt_strings_view(v: Option<Vec<String>>) -> Option<Seq<Seq<char>>> {
    match v {
        Some(a) => Some(strings_view(a@)),
        None => None,
    }
}

/// Whether a listing with these filters includes the pledge.
pub open spec fn pledge_selected(
    p: Pledge,
    state: Option<PledgeState>,
    assets: Option<Seq<Seq<char>>>,
    min: Option<Bound>,
    max: Option<Bound>,
) -> bool {
    &&& in_bounds(p.id@, min, max)
    &&& (state matches Some(s) ==> p.state == s)
    &&& (assets matches Some(a) ==> shares_any(strings_view(p.assets@), a))
}

pub open spec fn pledge_views(s: Seq<Pledge>) -> Seq<PledgeView> {
    s.map_values(|p: Pledge| p@)
}

/// The stored pledges that the filters select, in ascending identifier order.
pub open spec fn selected_pledges(
    store: Store,
    state: Option<PledgeState>,
    assets: Option<Seq<Seq<char>>>,
    min: Option<Bound>,
    max: Option<Bound>,
) -> Seq<PledgeView> {
    pledge_views(store.pledges@.filter(|p: Pledge| pledge_selected(p, state, assets, min, max)))
}

fn select_pledges(
    store: &Store,
    state: Option<PledgeState>,
    assets: Option<Vec<String>>,
    min: Option<Bound>,
    max: Option<Bound>,
) -> (r: Vec<Pledge>)
    ensures
        pledge_views(r@) == selected_pledges(*store, state, opt_strings_view(assets), min, max),
{
    let ghost pred = |p: Pledge| pledge_selected(p, state, opt_strings_view(assets), min, max);
    let mut r: Vec<Pledge> = Vec::new();
    let mut i: usize = 0;
    while i < store.pledges.len()
        invariant
            i <= store.pledges@.len(),
            pred == (|p: Pledge| pledge_selected(p, state, opt_strings_view(assets), min, max)),
            pledge_views(r@) =~= pledge_views(store.pledges@.take(i as int).filter(pred)),
        decreases store.pledges@.len() - i,
    {
        let p = &store.pledges[i];
        let in_range = within_bounds(p.id.as_str(), &min, &max);
        let state_ok = match state {
            Some(s) => p.state == s,
            None => true,
        };
        let assets_ok = match &assets {
            Some(a) => vec_has_any(p.assets.as_slice(), a.as_slice()),
            None => true,
        };
        proof {
            lemma_filter_step(store.pledges@, i as int, pred);
        }
        if in_range && state_ok && assets_ok {
            let ghost before = r@;
            let c = p.duplicate();
            r.push(c);
            proof {
                assert(pledge_views(r@) =~= pledge_views(before).push(c@));
                assert(pledge_views(store.pledges@.take(i as int).filter(pred).push(*p)) =~= pledge_views(
                    store.pledges@.take(i as int).filter(pred),
                ).push(p@));
            }
        }
        i = i + 1;
    }
    proof {
        assert(store.pledges@.take(i as int) =~= store.pledges@);
    }
    r
}

/// The identifiers of the stored pledges, optionally of one status, within
/// the bounds, in ascending order.
pub fn get_pledge_ids(
    store: &Store,
    state: Option<PledgeState>,
    min: Option<Bound>,
    max: Option<Bound>,
) -> (r: Vec<String>)
    ensures
        strings_view(r@) == selected_pledges(*store, state, None, min, max).map_values(
            |p: PledgeView| p.id,
        ),
{
    let ps = select_pledges(store, state, None, min, max);
    let r = keys_of(&ps);
    proof {
        assert(strings_view(r@) =~= pledge_views(ps@).map_values(|p: PledgeView| p.id));
    }
    r
}

/// The stored pledges, optionally of one status, within the bounds, in
/// ascending identifier order.
pub fn get_pledges(
    store: &Store,
    state: Option<PledgeState>,
    min: Option<Bound>,
    max: Option<Bound>,
) -> (r: Vec<Pledge>)
    ensures
        pledge_views(r@) == selected_pledges(*store, state, None, min, max),
{
    select_pledges(store, state, None, min, max)
}

/// The identifiers of the stored pledges that share an asset with `assets`,
/// optionally of one status, within the bounds, in ascending order.
pub fn find_pledge_ids_with_assets(
    store: &Store,
    assets: Vec<String>,
    state: Option<PledgeState>,
    min: Option<Bound>,
    max: Option<Bound>,
) -> (r: Vec<String>)
    ensures
        strings_view(r@) == selected_pledges(
            *store,
            state,
            Some(strings_view(assets@)),
            min,
            max,
        ).map_values(|p: PledgeView| p.id),
{
    let ps = select_pledges(store, state, Some(assets), min, max);
    let r = keys_of(&ps);
    proof {
        assert(strings_view(r@) =~= pledge_views(ps@).map_values(|p: PledgeView| p.id));
    }
    r
}

/// The stored pledges that share an asset with `assets`, optionally of one
/// status, within the bounds, in ascending identifier order.
pub fn find_pledges_with_assets(
    store: &Store,
    assets: Vec<String>,
    state: Option<PledgeState>,
    min: Option<Bound>,
    max: Option<Bound>,
) -> (r: Vec<Pledge>)
    ensures
        pledge_views(r@) == selected_pledges(*store, state, Some(strings_view(assets@)), min, max),
{
    select_pledges(store, state, Some(assets), min, max)
}

fn state_listed(filter: &Vec<AssetState>, s: AssetState) -> (r: bool)
    ensures
        r == filter@.contains(s),
{
    let mut i: usize = 0;
    while i < filter.len()
        invariant
            i <= filter@.len(),
            forall|j: int| 0 <= j < i ==> filter@[j] != s,
        decreases filter@.len() - i,
    {
        if filter[i] == s {
            return true;
        }
        i = i + 1;
    }
    false
}

/// Whether a listing with these filters includes the asset record.
pub open spec fn asset_selected(
    a: Asset,
    state: Option<AssetState>,
    filter: Option<Seq<AssetState>>,
    min: Option<Bound>,
    max: Option<Bound>,
) -> bool {
    &&& in_bounds(a.id@, min, max)
    &&& (state matches Some(s) ==> a.state == s)
    &&& (filter matches Some(f) ==> f.contains(a.state))
}

pub open spec fn asset_views(s: Seq<Asset>) -> Seq<AssetView> {
    s.map_values(|a: Asset| a@)
}

/// The stored asset records that the filters select, in ascending identifier order.
pub open spec fn selected_assets(
    store: Store,
    state: Option<AssetState>,
    filter: Option<Seq<AssetState>>,
    min: Option<Bound>,
    max: Option<Bound>,
) -> Seq<AssetView> {
    asset_views(store.assets@.filter(|a: Asset| asset_selected(a, state, filter, min, max)))
}

pub open spec fn opt_states_view(v: Option<Vec<AssetState>>) -> Option<Seq<AssetState>> {
    match v {
        Some(f) => Some(f@),
        None => None,
    }
}

fn select_assets(
    store: &Store,
    state: Option<AssetState>,
    filter: Option<Vec<AssetState>>,
    min: Option<Bound>,
    max: Option<Bound>,
) -> (r: Vec<Asset>)
    ensures
        asset_views(r@) == selected_assets(*store, state, opt_states_view(filter), min, max),
{
    let ghost pred = |a: Asset| asset_selected(a, state, opt_states_view(filter), min, max);
    let mut r: Vec<Asset> = Vec::new();
    let mut i: usize = 0;
    while i < store.assets.len()
        invariant
            i <= store.assets@.len(),
            pred == (|a: Asset| asset_selected(a, state, opt_states_view(filter), min, max)),
            asset_views(r@) =~= asset_views(store.assets@.take(i as int).filter(pred)),
        decreases store.assets@.len() - i,
    {
        let a = &store.assets[i];
        let in_range = within_bounds(a.id.as_str(), &min, &max);
        let state_ok = match state {
            Some(s) => a.state == s,
            None => true,
        };
        let filter_ok = match &filter {
            Some(f) => state_listed(f, a.state),
            None => true,
        };
        proof {
            lemma_filter_step(store.assets@, i as int, pred);
        }
        if in_range && state_ok && filter_ok {
            let ghost before = r@;
            let c = a.duplicate();
            r.push(c);
            proof {
                assert(asset_views(r@) =~= asset_views(before).push(c@));
                assert(asset_views(store.assets@.take(i as int).filter(pred).push(*a)) =~= asset_views(
                    store.assets@.take(i as int).filter(pred),
                ).push(a@));
            }
        }
        i = i + 1;
    }
    proof {
        assert(store.assets@.take(i as int) =~= store.assets@);
    }
    r
}

/// The identifiers of the stored assets, optionally of one status, within
/// the bounds, in ascending order.
pub fn get_asset_ids(
    store: &Store,
    state: Option<AssetState>,
    min: Option<Bound>,
    max: Option<Bound>,
) -> (r: Vec<String>)
    ensures
        strings_view(r@) == selected_assets(*store, state, None, min, max).map_values(
            |a: AssetView| a.id,
        ),
{
    let v = select_assets(store, state, None, min, max);
    let r = keys_of(&v);
    proof {
        assert(strings_view(r@) =~= asset_views(v@).map_values(|a: AssetView| a.id));
    }
    r
}

/// The identifiers of the stored assets whose status is one of `filter`,
/// within the bounds, in ascending order.
pub fn get_asset_ids_by_filter(
    store: &Store,
    filter: Vec<AssetState>,
    min: Option<Bound>,
    max: Option<Bound>,
) -> (r: Vec<String>)
    ensures
        strings_view(r@) == selected_assets(*store, None, Some(filter@), min, max).map_values(
            |a: AssetView| a.id,
        ),
{
    let v = select_assets(store, None, Some(filter), min, max);
    let r = keys_of(&v);
    proof {
        assert(strings_view(r@) =~= asset_views(v@).map_values(|a: AssetView| a.id));
    }
    r
}

/// The stored asset records, optionally of one status, within the bounds,
/// in ascending identifier order.
pub fn get_assets(
    store: &Store,
    state: Option<AssetState>,
    min: Option<Bound>,
    max: Option<Bound>,
) -> (r: Vec<Asset>)
    ensures
        asset_views(r@) == selected_assets(*store, state, None, min, max),
{
    select_assets(store, state, None, min, max)
}

/// The stored asset records whose status is one of `filter`, within the
/// bounds, in ascending identifier order.
pub fn get_assets_by_filter(
    store: &Store,
    filter: Vec<AssetState>,
    min: Option<Bound>,
    max: Option<Bound>,
) -> (r: Vec<Asset>)
    ensures
        asset_views(r@) == selected_assets(*store, None, Some(filter@), min, max),
{
    select_assets(store, None, Some(filter), min, max)
}

/// Whether a listing with these filters includes the paydown.
pub open spec fn paydown_selected(
    p: Paydown,
    state: Option<PaydownState>,
    min: Option<Bound>,
    max: Option<Bound>,
) -> bool {
    &&& in_bounds(p.id@, min, max)
    &&& (state matches Some(s) ==> p.state == s)
}

pub open spec fn paydown_views(s: Seq<Paydown>) -> Seq<PaydownView> {
    s.map_values(|p: Paydown| p@)
}

/// The stored paydowns that the filters select, in ascending identifier order.
pub open spec fn selected_paydowns(
    store: Store,
    state: Option<PaydownState>,
    min: Option<Bound>,
    max: Option<Bound>,
) -> Seq<PaydownView> {
    paydown_views(store.paydowns@.filter(|p: Paydown| paydown_selected(p, state, min, max)))
}

/// The stored paydowns, optionally of one status, within the bounds, in
/// ascending identifier order.
pub fn get_paydowns(
    store: &Store,
    state: Option<PaydownState>,
    min: Option<Bound>,
    max: Option<Bound>,
) -> (r: Vec<Paydown>)
    ensures
        paydown_views(r@) == selected_paydowns(*store, state, min, max),
{
    let ghost pred = |p: Paydown| paydown_selected(p, state, min, max);
    let mut r: Vec<Paydown> = Vec::new();
    let mut i: usize = 0;
    while i < store.paydowns.len()
        invariant
            i <= store.paydowns@.len(),
            pred == (|p: Paydown| paydown_selected(p, state, min, max)),
            paydown_views(r@) =~= paydown_views(store.paydowns@.take(i as int).filter(pred)),
        decreases store.paydowns@.len() - i,
    {
        let p = &store.paydowns[i];
        let in_range = within_bounds(p.id.as_str(), &min, &max);
        let state_ok = match state {
            Some(s) => p.state == s,
            None => true,
        };
        proof {
            lemma_filter_step(store.paydowns@, i as int, pred);
        }
        if in_range && state_ok {
            let ghost before = r@;
            let c = p.duplicate();
            r.push(c);
            proof {
                assert(paydown_views(r@) =~= paydown_views(before).push(c@));
                assert(paydown_views(store.paydowns@.take(i as int).filter(pred).push(*p)) =~= paydown_views(
                    store.paydowns@.take(i as int).filter(pred),
                ).push(p@));
            }
        }
        i = i + 1;
    }
    proof {
        assert(store.paydowns@.take(i as int) =~= store.paydowns@);
    }
    r
}

/// The identifiers of the stored paydowns, optionally of one status, within
/// the bounds, in ascending order.
pub fn get_paydown_ids(
    store: &Store,
    state: Option<PaydownState>,
    min: Option<Bound>,
    max: Option<Bound>,
) -> (r: Vec<String>)
    ensures
        strings_view(r@) == selected_paydowns(*store, state, min, max).map_values(
            |p: PaydownView| p.id,
        ),
{
    let v = get_paydowns(store, state, min, max);
    let r = keys_of(&v);
    proof {
        assert(strings_view(r@) =~= paydown_views(v@).map_values(|p: PaydownView| p.id));
    }
    r
}

} // verus!
