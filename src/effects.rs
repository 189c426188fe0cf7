//! The instructions the engine hands to the custody and fund collaborators.
use vstd::prelude::*;
use crate::state::{Paydown, PaydownView, Pledge, PledgeView};

verus! {

/// A capability on a marker.
#[derive(Clone, Copy, Debug, PartialEq, Eq, Structural)]
pub enum MarkerAccess {
    Admin,
    Burn,
    Delete,
    Deposit,
    Mint,
    Transfer,
    Withdraw,
}

/// One instruction for a collaborator. Custody (marker) instructions of an
/// action always come before its fund movements.
#[derive(Clone, Debug)]
pub enum Effect {
    /// Bind `name` to the contract's address.
    BindName { name: String, address: String },
    /// Create a restricted marker of `denom` holding `supply` units.
    CreateMarker { supply: u128, denom: String },
    /// Grant `address` the listed capabilities on the marker of `denom`.
    GrantMarkerAccess { denom: String, address: String, permissions: Vec<MarkerAccess> },
    /// Finalize the marker of `denom`.
    FinalizeMarker { denom: String },
    /// Activate the marker of `denom`.
    ActivateMarker { denom: String },
    /// Withdraw `amount` of `denom` from the marker of `marker_denom` to `recipient`.
    WithdrawCoins { marker_denom: String, amount: u128, denom: String, recipient: String },
    /// Move `amount` of `denom` from `from` back into the account of its own marker.
    ReturnToMarker { amount: u128, denom: String, from: String },
    /// Cancel the marker of `denom`.
    CancelMarker { denom: String },
    /// Destroy the marker of `denom`.
    DestroyMarker { denom: String },
    /// Send `amount` of `denom` from the contract's escrow to `to_address`.
    SendFunds { to_address: String, amount: u128, denom: String },
}

pub enum EffectView {
    BindName { name: Seq<char>, address: Seq<char> },
    CreateMarker { supply: u128, denom: Seq<char> },
    GrantMarkerAccess { denom: Seq<char>, address: Seq<char>, permissions: Seq<MarkerAccess> },
    FinalizeMarker { denom: Seq<char> },
    ActivateMarker { denom: Seq<char> },
    WithdrawCoins { marker_denom: Seq<char>, amount: u128, denom: Seq<char>, recipient: Seq<char> },
    ReturnToMarker { amount: u128, denom: Seq<char>, from: Seq<char> },
    CancelMarker { denom: Seq<char> },
    DestroyMarker { denom: Seq<char> },
    SendFunds { to_address: Seq<char>, amount: u128, denom: Seq<char> },
}

impl View for Effect {
    type V = EffectView;

    open spec fn view(&self) -> EffectView {
        match self {
            Effect::BindName { name, address } => EffectView::BindName {
                name: name@,
                address: address@,
            },
            Effect::CreateMarker { supply, denom } => EffectView::CreateMarker {
                supply: *supply,
                denom: denom@,
            },
            Effect::GrantMarkerAccess { denom, address, permissions } =>
                EffectView::GrantMarkerAccess {
                denom: denom@,
                address: address@,
                permissions: permissions@,
            },
            Effect::FinalizeMarker { denom } => EffectView::FinalizeMarker { denom: denom@ },
            Effect::ActivateMarker { denom } => EffectView::ActivateMarker { denom: denom@ },
            Effect::WithdrawCoins { marker_denom, amount, denom, recipient } =>
                EffectView::WithdrawCoins {
                marker_denom: marker_denom@,
                amount: *amount,
                denom: denom@,
                recipient: recipient@,
            },
            Effect::ReturnToMarker { amount, denom, from } => EffectView::ReturnToMarker {
                amount: *amount,
                denom: denom@,
                from: from@,
            },
            Effect::CancelMarker { denom } => EffectView::CancelMarker { denom: denom@ },
            Effect::DestroyMarker { denom } => EffectView::DestroyMarker { denom: denom@ },
            Effect::SendFunds { to_address, amount, denom } => EffectView::SendFunds {
                to_address: to_address@,
                amount: *amount,
                denom: denom@,
            },
        }
    }
}

pub open spec fn effect_views(s: Seq<Effect>) -> Seq<EffectView> {
    s.map_values(|e: Effect| e@)
}

/// Whether the effect moves funds (rather than custody).
pub open spec fn is_fund_movement(e: EffectView) -> bool {
    e is SendFunds
}

/// The capabilities the contract takes on a pledge's asset pool marker.
pub open spec fn pool_marker_access() -> Seq<MarkerAccess> {
    seq![
        MarkerAccess::Admin,
        MarkerAccess::Burn,
        MarkerAccess::Delete,
        MarkerAccess::Deposit,
        MarkerAccess::Mint,
        MarkerAccess::Transfer,
        MarkerAccess::Withdraw,
    ]
}

/// Creating a pledge's single-unit pool marker: create it, grant the
/// contract full rights, finalize and activate it, then withdraw the unit to
/// the originator as the receipt of the pledge.
pub open spec fn pool_marker_setup(
    denom: Seq<char>,
    contract: Seq<char>,
    originator: Seq<char>,
) -> Seq<EffectView> {
    seq![
        EffectView::CreateMarker { supply: 1, denom },
        EffectView::GrantMarkerAccess { denom, address: contract, permissions: pool_marker_access() },
        EffectView::FinalizeMarker { denom },
        EffectView::ActivateMarker { denom },
        EffectView::WithdrawCoins { marker_denom: denom, amount: 1, denom, recipient: originator },
    ]
}

/// Releasing a pledge's pool marker: return the unit from the originator to
/// the marker, then cancel and destroy the marker.
pub open spec fn pool_marker_release(denom: Seq<char>, originator: Seq<char>) -> Seq<EffectView> {
    seq![
        EffectView::ReturnToMarker { amount: 1, denom, from: originator },
        EffectView::CancelMarker { denom },
        EffectView::DestroyMarker { denom },
    ]
}

pub open spec fn send_funds(to: Seq<char>, amount: u128, denom: Seq<char>) -> EffectView {
    EffectView::SendFunds { to_address: to, amount, denom }
}

/// What a collaborator is handed back with each successful action.
pub enum Entity {
    Pledge(Pledge),
    Paydown(Paydown),
}

pub open spec fn is_pledge_view(e: Entity, v: PledgeView) -> bool {
    e matches Entity::Pledge(p) && p@ == v
}

pub open spec fn is_paydown_view(e: Entity, v: PaydownView) -> bool {
    e matches Entity::Paydown(p) && p@ == v
}

/// The result of a successful action: the updated entity, the effects to
/// perform in order, and a tag naming the action.
pub struct Outcome {
    pub entity: Entity,
    pub effects: Vec<Effect>,
    pub action: String,
}

/// Funds attached to a message.
#[derive(Clone, Debug)]
pub struct Coin {
    pub denom: String,
    pub amount: u128,
}

pub fn pool_marker_setup_effects(denom: &String, contract: &str, originator: &String) -> (r: Vec<
    Effect,
>)
    ensures
        effect_views(r@) == pool_marker_setup(denom@, contract@, originator@),
{
    let permissions = vec![
        MarkerAccess::Admin,
        MarkerAccess::Burn,
        MarkerAccess::Delete,
        MarkerAccess::Deposit,
        MarkerAccess::Mint,
        MarkerAccess::Transfer,
        MarkerAccess::Withdraw,
    ];
    proof {
        assert(permissions@ =~= pool_marker_access());
    }
    let r = vec![
        Effect::CreateMarker { supply: 1, denom: denom.clone() },
        Effect::GrantMarkerAccess {
            denom: denom.clone(),
            address: contract.to_string(),
            permissions,
        },
        Effect::FinalizeMarker { denom: denom.clone() },
        Effect::ActivateMarker { denom: denom.clone() },
        Effect::WithdrawCoins {
            marker_denom: denom.clone(),
            amount: 1,
            denom: denom.clone(),
            recipient: originator.clone(),
        },
    ];
    proof {
        assert(effect_views(r@) =~= pool_marker_setup(denom@, contract@, originator@));
    }
    r
}

pub fn pool_marker_release_effects(denom: &String, originator: &String) -> (r: Vec<Effect>)
    ensures
        effect_views(r@) == pool_marker_release(denom@, originator@),
{
    let r = vec![
        Effect::ReturnToMarker { amount: 1, denom: denom.clone(), from: originator.clone() },
        Effect::CancelMarker { denom: denom.clone() },
        Effect::DestroyMarker { denom: denom.clone() },
    ];
    proof {
        assert(effect_views(r@) =~= pool_marker_release(denom@, originator@));
    }
    r
}

/// Appends a fund movement.
pub fn push_send(effects: &mut Vec<Effect>, to: &String, amount: u128, denom: &String)
    ensures
        effect_views(final(effects)@) == effect_views(old(effects)@).push(
            send_funds(to@, amount, denom@),
        ),
{
    let ghost before = effects@;
    effects.push(Effect::SendFunds { to_address: to.clone(), amount, denom: denom.clone() });
    proof {
        assert(effect_views(effects@) =~= effect_views(before).push(send_funds(to@, amount, denom@)));
    }
}

} // verus!
