//! The failures an action can end in.
use vstd::prelude::*;

verus! {

/// Why an action was refused. Every failure is terminal for the action and
/// leaves the stored records as they were.
#[derive(Debug)]
pub enum ContractError {
    /// The sender is not the party entitled to submit the action.
    Unauthorized,
    /// Every structurally invalid field of the message, in the order checked.
    InvalidFields { fields: Vec<String> },
    /// The entity is not in a status that permits the action.
    StateError { error: String },
    /// No pledge is stored under the identifier.
    PledgeNotFound { id: String },
    /// No paydown is stored under the identifier.
    PaydownNotFound { id: String },
    /// No asset is stored under the identifier.
    AssetNotFound { id: String },
    /// A pledge with the identifier was proposed before.
    PledgeAlreadyExists { id: String },
    /// One or more assets is already proposed, pledged or in the inventory.
    AssetsAlreadyPledged,
    /// No funds were attached to the pledge acceptance.
    MissingPledgeAdvanceFunds,
    /// The attached advance differs from the pledge's in amount or denomination.
    InsufficientPledgeAdvanceFunds {
        need: u128,
        need_denom: String,
        received: u128,
        received_denom: String,
    },
    /// No funds were attached to the paydown proposal.
    MissingPaydownFunds,
    /// The attached paydown differs from the proposal's in amount or denomination.
    InsufficientPaydownFunds {
        need: u128,
        need_denom: String,
        received: u128,
        received_denom: String,
    },
    /// A paydown with the identifier was proposed before.
    PaydownAlreadyExists { id: String },
    /// One or more assets is not in the facility inventory.
    AssetsNotInInventory,
}

} // verus!
