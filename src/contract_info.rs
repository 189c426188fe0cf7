//! What the contract records about itself at instantiation.
use vstd::prelude::*;
use crate::state::Facility;

verus! {

pub const CONTRACT_TYPE: &'static str = "figure:smart-contracts.warehouse-facility";

pub const CONTRACT_VERSION: &'static str = "0.1.0";

#[derive(Clone, Debug)]
pub struct ContractInfo {
    pub admin: String,
    pub bind_name: String,
    pub contract_name: String,
    pub version: String,
    pub contract_type: String,
    pub contract_version: String,
    pub facility: Facility,
}

impl ContractInfo {
    pub fn new(
        admin: String,
        bind_name: String,
        contract_name: String,
        version: String,
        facility: Facility,
    ) -> (r: ContractInfo)
        ensures
            r.admin == admin,
            r.bind_name == bind_name,
            r.contract_name == contract_name,
            r.version == version,
            r.contract_type@ == CONTRACT_TYPE@,
            r.contract_version@ == CONTRACT_VERSION@,
            r.facility == facility,
    {
        ContractInfo {
            admin,
            bind_name,
            contract_name,
            version,
            contract_type: CONTRACT_TYPE.to_string(),
            contract_version: CONTRACT_VERSION.to_string(),
            facility,
        }
    }

    /// A copy of the contract info.
    pub fn duplicate(&self) -> (r: ContractInfo)
        ensures
            r == *self,
    {
        ContractInfo {
            admin: self.admin.clone(),
            bind_name: self.bind_name.clone(),
            contract_name: self.contract_name.clone(),
            version: self.version.clone(),
            contract_type: self.contract_type.clone(),
            contract_version: self.contract_version.clone(),
            facility: self.facility.duplicate(),
        }
    }
}

} // verus!
