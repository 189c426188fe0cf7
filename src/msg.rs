//! The messages a facility accepts, their structural validation and the
//! party entitled to send each.
use vstd::prelude::*;
use crate::contract_info::ContractInfo;
use crate::error::ContractError;
use crate::keys::{key_eq, lemma_filter_step};
use crate::rate::{parse_advance_rate, parse_paydown_rate, valid_advance_rate, valid_paydown_rate};
use crate::state::{strings_view, Facility};

verus! {

/// Whether `uuid` reads the text as a unique identifier.
pub uninterp spec fn parses_as_uuid(s: Seq<char>) -> bool;

/// Relies on `uuid::Uuid::parse_str`: whether the text parses depends on the
/// text alone.
#[verifier::external_body]
fn is_uuid(s: &str) -> (r: bool)
    ensures
        r == parses_as_uuid(s@),
{
    uuid::Uuid::parse_str(s).is_ok()
}

pub trait Validate {
    /// The names of the structurally invalid fields, in the order checked.
    spec fn invalid_fields(&self) -> Seq<Seq<char>>;

    /// Fails with every invalid field name, or succeeds when there is none.
    fn validate(&self) -> (r: Result<(), ContractError>)
        ensures
            r is Ok <==> self.invalid_fields().len() == 0,
            r matches Err(e) ==> (e matches ContractError::InvalidFields { fields }
                && strings_view(fields@) == self.invalid_fields()),
    ;
}

pub trait Authorize {
    /// The address of the one party entitled to send the message.
    spec fn authorized_sender(&self, contract_info: ContractInfo) -> Seq<char>;

    /// Succeeds exactly when `sender` is the entitled party.
    fn authorize(&self, contract_info: &ContractInfo, sender: &str) -> (r: Result<
        (),
        ContractError,
    >)
        ensures
            r is Ok <==> sender@ == self.authorized_sender(*contract_info),
            r matches Err(e) ==> e is Unauthorized,
    ;
}

/// `name` when `bad` holds, else nothing.
pub open spec fn flag(bad: bool, name: Seq<char>) -> Seq<Seq<char>> {
    if bad {
        seq![name]
    } else {
        seq![]
    }
}

fn push_if(fields: &mut Vec<String>, bad: bool, name: &str)
    ensures
        strings_view(final(fields)@) == strings_view(old(fields)@) + flag(bad, name@),
{
    if bad {
        let ghost before = fields@;
        fields.push(name.to_string());
        proof {
            assert(strings_view(fields@) =~= strings_view(before) + flag(bad, name@));
        }
    } else {
        proof {
            assert(strings_view(fields@) =~= strings_view(fields@) + flag(bad, name@));
        }
    }
}

fn into_result(fields: Vec<String>) -> (r: Result<(), ContractError>)
    ensures
        r is Ok <==> fields@.len() == 0,
        r matches Err(e) ==> (e matches ContractError::InvalidFields { fields: f }
            && strings_view(f@) == strings_view(fields@)),
{
    if fields.len() == 0 {
        Ok(())
    } else {
        Err(ContractError::InvalidFields { fields })
    }
}

pub struct InstantiateMsg {
    pub bind_name: String,
    pub contract_name: String,
    pub facility: Facility,
}

impl Validate for InstantiateMsg {
    open spec fn invalid_fields(&self) -> Seq<Seq<char>> {
        flag(self.bind_name@.len() == 0, "bind_name"@)
        + flag(self.contract_name@.len() == 0, "contract_name"@)
        + flag(self.facility.originator@.len() == 0, "facility.originator"@)
        + flag(self.facility.warehouse@.len() == 0, "facility.warehouse"@)
        + flag(self.facility.escrow_marker@.len() == 0, "facility.escrow_marker"@)
        + flag(self.facility.marker_denom@.len() == 0, "facility.marker_denom"@)
        + flag(self.facility.stablecoin_denom@.len() == 0, "facility.stablecoin_denom"@)
        + flag(!valid_advance_rate(self.facility.advance_rate@), "facility.advance_rate"@)
        + flag(!valid_paydown_rate(self.facility.paydown_rate@), "facility.paydown_rate"@)
    }

    fn validate(&self) -> (r: Result<(), ContractError>) {
        let mut fields: Vec<String> = Vec::new();
        push_if(&mut fields, self.bind_name.as_str().unicode_len() == 0, "bind_name");
        push_if(&mut fields, self.contract_name.as_str().unicode_len() == 0, "contract_name");
        push_if(&mut fields, self.facility.originator.as_str().unicode_len() == 0, "facility.originator");
        push_if(&mut fields, self.facility.warehouse.as_str().unicode_len() == 0, "facility.warehouse");
        push_if(
            &mut fields,
            self.facility.escrow_marker.as_str().unicode_len() == 0,
            "facility.escrow_marker",
        );
        push_if(
            &mut fields,
            self.facility.marker_denom.as_str().unicode_len() == 0,
            "facility.marker_denom",
        );
        push_if(
            &mut fields,
            self.facility.stablecoin_denom.as_str().unicode_len() == 0,
            "facility.stablecoin_denom",
        );
        let advance = parse_advance_rate(self.facility.advance_rate.as_str());
        push_if(&mut fields, advance.is_none(), "facility.advance_rate");
        let paydown = parse_paydown_rate(self.facility.paydown_rate.as_str());
        push_if(&mut fields, paydown.is_none(), "facility.paydown_rate");
        proof {
            assert(strings_view(fields@) =~= self.invalid_fields());
        }
        into_result(fields)
    }
}

pub enum ExecuteMsg {
    /// Propose pledging assets to the facility (originator).
    ProposePledge {
        id: String,
        assets: Vec<String>,
        total_advance: u64,
        asset_marker_denom: String,
    },
    /// Accept a pledge proposal, attaching the advance (warehouse).
    AcceptPledge { id: String },
    /// Cancel a pledge (originator).
    CancelPledge { id: String },
    /// Execute an accepted pledge, disbursing the advance (originator).
    ExecutePledge { id: String },
    /// Propose paying down assets, attaching the paydown (originator).
    ProposePaydown { id: String, assets: Vec<String>, total_paydown: u64 },
    /// Accept a paydown proposal (warehouse).
    AcceptPaydown { id: String },
    /// Cancel a paydown (originator).
    CancelPaydown { id: String },
    /// Execute an accepted paydown, releasing the assets (originator).
    ExecutePaydown { id: String },
}

/// One `"asset"` for each element that is not a unique identifier.
pub open spec fn asset_errors(assets: Seq<Seq<char>>) -> Seq<Seq<char>> {
    assets.filter(|a: Seq<char>| !parses_as_uuid(a)).map_values(|a: Seq<char>| "asset"@)
}

pub open spec fn id_errors(id: Seq<char>) -> Seq<Seq<char>> {
    flag(!parses_as_uuid(id), "id"@)
}

fn push_asset_errors(fields: &mut Vec<String>, assets: &Vec<String>)
    ensures
        strings_view(final(fields)@) == strings_view(old(fields)@) + asset_errors(
            strings_view(assets@),
        ),
{
    let ghost sv = strings_view(assets@);
    let ghost pred = |a: Seq<char>| !parses_as_uuid(a);
    let mut i: usize = 0;
    while i < assets.len()
        invariant
            i <= assets@.len(),
            sv == strings_view(assets@),
            pred == (|a: Seq<char>| !parses_as_uuid(a)),
            strings_view(fields@) =~= strings_view(old(fields)@) + sv.take(i as int).filter(
                pred,
            ).map_values(|a: Seq<char>| "asset"@),
        decreases assets@.len() - i,
    {
        let ok = is_uuid(assets[i].as_str());
        proof {
            lemma_filter_step(sv, i as int, pred);
            assert(sv[i as int] == assets@[i as int]@);
        }
        let ghost before = fields@;
        push_if(fields, !ok, "asset");
        proof {
            let f = sv.take(i as int).filter(pred);
            if !ok {
                assert(sv.take(i + 1).filter(pred).map_values(|a: Seq<char>| "asset"@) =~= f.map_values(
                    |a: Seq<char>| "asset"@,
                ).push("asset"@));
            }
        }
        i = i + 1;
    }
    proof {
        assert(sv.take(i as int) =~= sv);
    }
}

impl Validate for ExecuteMsg {
    open spec fn invalid_fields(&self) -> Seq<Seq<char>> {
        match self {
            ExecuteMsg::ProposePledge { id, assets, total_advance, asset_marker_denom } => id_errors(
                id@,
            ) + flag(assets@.len() == 0, "assets"@) + asset_errors(strings_view(assets@)) + flag(
                asset_marker_denom@.len() == 0,
                "asset_marker_denom"@,
            ),
            ExecuteMsg::ProposePaydown { id, assets, total_paydown } => id_errors(id@) + flag(
                assets@.len() == 0,
                "assets"@,
            ) + asset_errors(strings_view(assets@)),
            ExecuteMsg::AcceptPledge { id } => id_errors(id@),
            ExecuteMsg::CancelPledge { id } => id_errors(id@),
            ExecuteMsg::ExecutePledge { id } => id_errors(id@),
            ExecuteMsg::AcceptPaydown { id } => id_errors(id@),
            ExecuteMsg::CancelPaydown { id } => id_errors(id@),
            ExecuteMsg::ExecutePaydown { id } => id_errors(id@),
        }
    }

    fn validate(&self) -> (r: Result<(), ContractError>) {
        let mut fields: Vec<String> = Vec::new();
        match self {
            ExecuteMsg::ProposePledge { id, assets, total_advance, asset_marker_denom } => {
                push_if(&mut fields, !is_uuid(id.as_str()), "id");
                push_if(&mut fields, assets.len() == 0, "assets");
                push_asset_errors(&mut fields, assets);
                push_if(&mut fields, asset_marker_denom.as_str().unicode_len() == 0, "asset_marker_denom");
            },
            ExecuteMsg::ProposePaydown { id, assets, total_paydown } => {
                push_if(&mut fields, !is_uuid(id.as_str()), "id");
                push_if(&mut fields, assets.len() == 0, "assets");
                push_asset_errors(&mut fields, assets);
            },
            ExecuteMsg::AcceptPledge { id } => {
                push_if(&mut fields, !is_uuid(id.as_str()), "id");
            },
            ExecuteMsg::CancelPledge { id } => {
                push_if(&mut fields, !is_uuid(id.as_str()), "id");
            },
            ExecuteMsg::ExecutePledge { id } => {
                push_if(&mut fields, !is_uuid(id.as_str()), "id");
            },
            ExecuteMsg::AcceptPaydown { id } => {
                push_if(&mut fields, !is_uuid(id.as_str()), "id");
            },
            ExecuteMsg::CancelPaydown { id } => {
                push_if(&mut fields, !is_uuid(id.as_str()), "id");
            },
            ExecuteMsg::ExecutePaydown { id } => {
                push_if(&mut fields, !is_uuid(id.as_str()), "id");
            },
        }
        proof {
            assert(strings_view(fields@) =~= self.invalid_fields());
        }
        into_result(fields)
    }
}

/// Whether the message is one the warehouse sends; the originator sends all others.
pub open spec fn sent_by_warehouse(msg: ExecuteMsg) -> bool {
    msg is AcceptPledge || msg is AcceptPaydown
}

impl Authorize for ExecuteMsg {
    open spec fn authorized_sender(&self, contract_info: ContractInfo) -> Seq<char> {
        if sent_by_warehouse(*self) {
            contract_info.facility.warehouse@
        } else {
            contract_info.facility.originator@
        }
    }

    fn authorize(&self, contract_info: &ContractInfo, sender: &str) -> (r: Result<(), ContractError>) {
        let party = match self {
            ExecuteMsg::AcceptPledge { .. } => &contract_info.facility.warehouse,
            ExecuteMsg::AcceptPaydown { .. } => &contract_info.facility.warehouse,
            _ => &contract_info.facility.originator,
        };
        if key_eq(party.as_str(), sender) {
            Ok(())
        } else {
            Err(ContractError::Unauthorized)
        }
    }
}

pub enum QueryMsg {
    /// The contract info.
    GetContractInfo,
    /// The facility agreement.
    GetFacilityInfo,
    /// One pledge.
    GetPledge { id: String },
    /// The identifiers of all pledges.
    ListPledgeIds,
    /// All pledges.
    ListPledges,
    /// The pledges awaiting acceptance.
    ListPledgeProposals,
    /// The identifiers of all paydowns.
    ListPaydownIds,
    /// All paydowns.
    ListPaydowns,
    /// The paydowns awaiting acceptance.
    ListPaydownProposals,
    /// One paydown.
    GetPaydown { id: String },
    /// Every asset the facility holds a record of.
    ListAssets,
    /// The assets in the facility inventory.
    ListInventory,
}

pub enum MigrateMsg {
    Migrate,
}

} // verus!
