//! Empire requests of a region: founding an empire, donating to and
//! withdrawing from its treasury, and collecting a hexite capsule. Each is
//! checked here before its message goes to the global module.
use vstd::prelude::*;

use crate::items::{ItemStack, ItemType};

verus! {

/// How far (in small tiles) a player may stand from the foundry to collect
/// a hexite capsule.
pub const MAX_CAPSULE_DISTANCE: i32 = 3;

/// What founding an empire is checked against, in the order of the checks.
/// A field that is `None` was not found.
#[derive(Clone, Copy, Debug, PartialEq, Eq)]
pub struct EmpireCreateCheck {
    /// The player may still name things.
    pub naming_allowed: bool,
    /// The empire name is made of valid characters and short enough.
    pub name_valid: bool,
    pub already_member: bool,
    /// The owner of the claim of the building.
    pub claim_owner: Option<u64>,
    /// The building is already an empire's capital.
    pub already_capital: bool,
    /// An empire of that name exists.
    pub name_taken: bool,
    /// The empire of the claim's settlement (0 for none).
    pub settlement_empire: Option<u64>,
    /// Whether the chosen icon is a shape.
    pub icon_is_shape: Option<bool>,
    /// Whether the chosen shape is a shape.
    pub shape_is_shape: Option<bool>,
    pub colors_known: bool,
}

/// Why an empire request was refused.
#[derive(Clone, Copy, Debug, PartialEq, Eq, Structural)]
pub enum EmpireError {
    NamingSuspended,
    InvalidName,
    AlreadyInEmpire,
    NotAClaim,
    NotClaimOwner,
    AlreadyCapital,
    NameTaken,
    NoEmpireTech,
    ClaimInEmpire,
    InvalidIcon,
    InvalidShape,
    InvalidColors,
    InvalidPocket,
    PocketEmpty,
    InvalidItem,
    ItemNotDonatable,
    CargoNotDonatable,
    NoWithdrawPermission,
    ItemNotWithdrawable,
    CargoNotWithdrawable,
    TooFar,
    NoCapsulePermission,
    AlreadyCarryingCargo,
    NoRoom,
}

impl EmpireError {
    /// The message shown to the player.
    pub fn message(&self) -> (text: &'static str)
        ensures
            text == match *self {
                EmpireError::NamingSuspended => "Your naming privileges have been suspended",
                EmpireError::InvalidName => "Invalid characters in the empire name",
                EmpireError::AlreadyInEmpire => "Player is already a member of an empire",
                EmpireError::NotAClaim => "This is not a claim",
                EmpireError::NotClaimOwner => "Not the owner of this claim",
                EmpireError::AlreadyCapital => "Already the capital of an empire",
                EmpireError::NameTaken => "An empire with this name already exists",
                EmpireError::NoEmpireTech => "This claim does not have the tech to form an empire",
                EmpireError::ClaimInEmpire => "This claim is already part of an empire",
                EmpireError::InvalidIcon => "Invalid empire icon",
                EmpireError::InvalidShape => "Invalid empire shape",
                EmpireError::InvalidColors => "Invalid empire colors",
                EmpireError::InvalidPocket => "Invalid pocket index",
                EmpireError::PocketEmpty => "Pocket is empty",
                EmpireError::InvalidItem => "Invalid item",
                EmpireError::ItemNotDonatable => "This item can't be donated",
                EmpireError::CargoNotDonatable => "This cargo can't be donated",
                EmpireError::NoWithdrawPermission => "You don't have the permission to withdraw from the Empire treasury",
                EmpireError::ItemNotWithdrawable => "This item can't be withdrawn",
                EmpireError::CargoNotWithdrawable => "This cargo can't be withdrawn",
                EmpireError::TooFar => "Too far",
                EmpireError::NoCapsulePermission => "You don't have the permissions to collect a hexite capsule",
                EmpireError::AlreadyCarryingCargo => "Already carrying a cargo",
                EmpireError::NoRoom => "Not enough room in your inventory and nearby deployables",
            },
    {
        match self {
            EmpireError::NamingSuspended => "Your naming privileges have been suspended",
            EmpireError::InvalidName => "Invalid characters in the empire name",
            EmpireError::AlreadyInEmpire => "Player is already a member of an empire",
            EmpireError::NotAClaim => "This is not a claim",
            EmpireError::NotClaimOwner => "Not the owner of this claim",
            EmpireError::AlreadyCapital => "Already the capital of an empire",
            EmpireError::NameTaken => "An empire with this name already exists",
            EmpireError::NoEmpireTech => "This claim does not have the tech to form an empire",
            EmpireError::ClaimInEmpire => "This claim is already part of an empire",
            EmpireError::InvalidIcon => "Invalid empire icon",
            EmpireError::InvalidShape => "Invalid empire shape",
            EmpireError::InvalidColors => "Invalid empire colors",
            EmpireError::InvalidPocket => "Invalid pocket index",
            EmpireError::PocketEmpty => "Pocket is empty",
            EmpireError::InvalidItem => "Invalid item",
            EmpireError::ItemNotDonatable => "This item can't be donated",
            EmpireError::CargoNotDonatable => "This cargo can't be donated",
            EmpireError::NoWithdrawPermission => "You don't have the permission to withdraw from the Empire treasury",
            EmpireError::ItemNotWithdrawable => "This item can't be withdrawn",
            EmpireError::CargoNotWithdrawable => "This cargo can't be withdrawn",
            EmpireError::TooFar => "Too far",
            EmpireError::NoCapsulePermission => "You don't have the permissions to collect a hexite capsule",
            EmpireError::AlreadyCarryingCargo => "Already carrying a cargo",
            EmpireError::NoRoom => "Not enough room in your inventory and nearby deployables",
        }
    }
}

/// A donation sent to the empire's treasury.
#[derive(Clone, Copy, Debug, PartialEq, Eq)]
pub struct EmpireDonation {
    pub item_id: i32,
    pub count: u32,
    pub is_cargo: bool,
}

/// The verdict on founding an empire, checked in order.
pub open spec fn empire_create_verdict(c: EmpireCreateCheck, actor_id: u64) -> Result<(), EmpireError> {
    if !c.naming_allowed {
        Err(EmpireError::NamingSuspended)
    } else if !c.name_valid {
        Err(EmpireError::InvalidName)
    } else if c.already_member {
        Err(EmpireError::AlreadyInEmpire)
    } else if c.claim_owner is None {
        Err(EmpireError::NotAClaim)
    } else if c.claim_owner != Some(actor_id) {
        Err(EmpireError::NotClaimOwner)
    } else if c.already_capital {
        Err(EmpireError::AlreadyCapital)
    } else if c.name_taken {
        Err(EmpireError::NameTaken)
    } else if c.settlement_empire is None {
        Err(EmpireError::NoEmpireTech)
    } else if c.settlement_empire != Some(0u64) {
        Err(EmpireError::ClaimInEmpire)
    } else if c.icon_is_shape != Some(false) {
        Err(EmpireError::InvalidIcon)
    } else if c.shape_is_shape != Some(true) {
        Err(EmpireError::InvalidShape)
    } else if !c.colors_known {
        Err(EmpireError::InvalidColors)
    } else {
        Ok(())
    }
}

/// Checks a request to found an empire on the actor's claim, in order: the
/// actor may name things, the name is valid, the actor is in no empire, the
/// building holds a claim the actor owns, it is no capital yet, the name is
/// free, the claim's settlement has the tech and belongs to no empire, the
/// icon is an icon, the shape a shape, and both colors exist.
pub fn validate_empire_create(check: &EmpireCreateCheck, actor_id: u64) -> (verdict: Result<(), EmpireError>)
    ensures
        verdict == empire_create_verdict(*check, actor_id),
{
    if !check.naming_allowed {
        return Err(EmpireError::NamingSuspended);
    }
    if !check.name_valid {
        return Err(EmpireError::InvalidName);
    }
    if check.already_member {
        return Err(EmpireError::AlreadyInEmpire);
    }
    match check.claim_owner {
        None => return Err(EmpireError::NotAClaim),
        Some(owner) => {
            if owner != actor_id {
                return Err(EmpireError::NotClaimOwner);
            }
        },
    }
    if check.already_capital {
        return Err(EmpireError::AlreadyCapital);
    }
    if check.name_taken {
        return Err(EmpireError::NameTaken);
    }
    match check.settlement_empire {
        None => return Err(EmpireError::NoEmpireTech),
        Some(empire) => {
            if empire != 0 {
                return Err(EmpireError::ClaimInEmpire);
            }
        },
    }
    match check.icon_is_shape {
        Some(false) => {},
        _ => return Err(EmpireError::InvalidIcon),
    }
    match check.shape_is_shape {
        Some(true) => {},
        _ => return Err(EmpireError::InvalidShape),
    }
    if !check.colors_known {
        return Err(EmpireError::InvalidColors);
    }
    Ok(())
}

/// The currency an empire creation withdraws, as `(item id, quantity)`.
pub open spec fn creation_cost(currency_id: i32, shard_cost: i32) -> (i32, i32) {
    (currency_id, shard_cost)
}

/// The currency given back for the global module's answer to a creation:
/// `shard_cost` of `currency_id` when it refused, nothing when it accepted.
pub open spec fn creation_refund(refused: bool, currency_id: i32, shard_cost: i32) -> Option<(i32, i32)> {
    if refused {
        Some((currency_id, shard_cost))
    } else {
        None
    }
}

/// The empire currency creating an empire withdraws from the player (from
/// the inventory and nearby deployables): `shard_cost` of the item
/// `currency_id`, as an item, given as `(item id, quantity)`.
pub fn empire_creation_cost(currency_id: i32, shard_cost: i32) -> (cost: (i32, i32))
    ensures
        cost == creation_cost(currency_id, shard_cost),
{
    (currency_id, shard_cost)
}

/// What the global module's answer to an empire creation gives the player:
/// when it refused the creation, the empire currency the creation took back
/// (`shard_cost` of the item `currency_id`, as an item, not cargo), as
/// `(item id, quantity)`; when it accepted, nothing.
pub fn empire_creation_refund(refused: bool, currency_id: i32, shard_cost: i32) -> (refund: Option<(i32, i32)>)
    ensures
        refund == creation_refund(refused, currency_id, shard_cost),
{
    if refused {
        Some((currency_id, shard_cost))
    } else {
        None
    }
}

/// The verdict on a donation of the stack in a pocket, checked in order.
pub open spec fn donation_verdict(
    pocket_index: i32,
    pocket_count: usize,
    stack: Option<ItemStack>,
    is_empire_currency: Option<bool>,
) -> Result<EmpireDonation, EmpireError> {
    if pocket_index < 0 || pocket_index >= pocket_count {
        Err(EmpireError::InvalidPocket)
    } else if stack is None || stack->0.quantity <= 0 {
        Err(EmpireError::PocketEmpty)
    } else if stack->0.item_type == ItemType::Cargo {
        Err(EmpireError::CargoNotDonatable)
    } else if is_empire_currency is None {
        Err(EmpireError::InvalidItem)
    } else if is_empire_currency == Some(false) {
        Err(EmpireError::ItemNotDonatable)
    } else {
        Ok(EmpireDonation { item_id: stack->0.item_id, count: stack->0.quantity as u32, is_cargo: false })
    }
}

/// Checks a donation of the stack in an inventory pocket, in order: the
/// pocket index is within the inventory's `pocket_count` pockets, the pocket
/// holds a stack of positive quantity, and the stack is an item (not cargo)
/// whose description exists and is empire currency (`is_empire_currency`).
/// Returns what is sent to the treasury; the pocket is then emptied.
pub fn validate_empire_donation(
    pocket_index: i32,
    pocket_count: usize,
    stack: Option<ItemStack>,
    is_empire_currency: Option<bool>,
) -> (verdict: Result<EmpireDonation, EmpireError>)
    ensures
        verdict == donation_verdict(pocket_index, pocket_count, stack, is_empire_currency),
{
    if pocket_index < 0 || pocket_index as usize >= pocket_count {
        return Err(EmpireError::InvalidPocket);
    }
    let s = match stack {
        Some(s) => s,
        None => return Err(EmpireError::PocketEmpty),
    };
    if s.quantity <= 0 {
        return Err(EmpireError::PocketEmpty);
    }
    match s.item_type {
        ItemType::Cargo => return Err(EmpireError::CargoNotDonatable),
        ItemType::Item => {},
    }
    match is_empire_currency {
        None => Err(EmpireError::InvalidItem),
        Some(false) => Err(EmpireError::ItemNotDonatable),
        Some(true) => Ok(EmpireDonation { item_id: s.item_id, count: s.quantity as u32, is_cargo: false }),
    }
}

/// The verdict on a withdrawal, checked in order.
pub open spec fn withdrawal_verdict(
    has_permission: bool,
    item_id: i32,
    item_type: ItemType,
    is_empire_currency: Option<bool>,
    amount: u32,
) -> Result<EmpireDonation, EmpireError> {
    if !has_permission {
        Err(EmpireError::NoWithdrawPermission)
    } else if item_type == ItemType::Cargo {
        Err(EmpireError::CargoNotWithdrawable)
    } else if is_empire_currency is None {
        Err(EmpireError::InvalidItem)
    } else if is_empire_currency == Some(false) {
        Err(EmpireError::ItemNotWithdrawable)
    } else {
        Ok(EmpireDonation { item_id, count: amount, is_cargo: false })
    }
}

/// The stack a player receives for a granted withdrawal.
pub open spec fn received_stack(w: EmpireDonation) -> ItemStack {
    ItemStack {
        item_id: w.item_id,
        quantity: w.count as i32,
        item_type: if w.is_cargo {
            ItemType::Cargo
        } else {
            ItemType::Item
        },
        durability: None,
    }
}

/// Checks a withdrawal from the empire's treasury, in order: the actor may
/// withdraw empire currency, and the withdrawn thing is an item (not cargo)
/// whose description exists and is empire currency. Returns what is asked
/// of the treasury.
pub fn validate_empire_withdrawal(
    has_permission: bool,
    item_id: i32,
    item_type: ItemType,
    is_empire_currency: Option<bool>,
    amount: u32,
) -> (verdict: Result<EmpireDonation, EmpireError>)
    ensures
        verdict == withdrawal_verdict(has_permission, item_id, item_type, is_empire_currency, amount),
{
    if !has_permission {
        return Err(EmpireError::NoWithdrawPermission);
    }
    match item_type {
        ItemType::Cargo => return Err(EmpireError::CargoNotWithdrawable),
        ItemType::Item => {},
    }
    match is_empire_currency {
        None => Err(EmpireError::InvalidItem),
        Some(false) => Err(EmpireError::ItemNotWithdrawable),
        Some(true) => Ok(EmpireDonation { item_id, count: amount, is_cargo: false }),
    }
}

/// The stack a player receives once the treasury granted a withdrawal (the
/// count is taken as an `i32`, wrapping as a cast does).
pub fn withdrawn_stack(withdrawal: &EmpireDonation) -> (stack: ItemStack)
    ensures
        stack == received_stack(*withdrawal),
{
    ItemStack {
        item_id: withdrawal.item_id,
        quantity: #[verifier::truncate] (withdrawal.count as i32),
        item_type: if withdrawal.is_cargo {
            ItemType::Cargo
        } else {
            ItemType::Item
        },
        durability: None,
    }
}

/// Checks a request to collect a hexite capsule at a foundry, in order: the
/// player stands within reach, may collect capsules there, and, when already
/// carrying cargo, some nearby deployable inventory exists and one of them
/// has room for the capsule (`nearby_fits`, one entry per inventory).
pub fn validate_hexite_capsule_collection(
    distance: i32,
    has_permission: bool,
    carrying_cargo: bool,
    nearby_fits: &Vec<bool>,
) -> (verdict: Result<(), EmpireError>)
    ensures
        verdict == if distance > MAX_CAPSULE_DISTANCE {
            Err::<(), EmpireError>(EmpireError::TooFar)
        } else if !has_permission {
            Err(EmpireError::NoCapsulePermission)
        } else if carrying_cargo && nearby_fits@.len() == 0 {
            Err(EmpireError::AlreadyCarryingCargo)
        } else if carrying_cargo && forall|i: int| 0 <= i < nearby_fits@.len() ==> !#[trigger] nearby_fits@[i] {
            Err(EmpireError::NoRoom)
        } else {
            Ok(())
        },
{
    if distance > MAX_CAPSULE_DISTANCE {
        return Err(EmpireError::TooFar);
    }
    if !has_permission {
        return Err(EmpireError::NoCapsulePermission);
    }
    if carrying_cargo {
        if nearby_fits.len() == 0 {
            return Err(EmpireError::AlreadyCarryingCargo);
        }
        let mut any_fits = false;
        for i in 0..nearby_fits.len()
            invariant
                any_fits == exists|j: int| 0 <= j < i && #[trigger] nearby_fits@[j],
        {
            if nearby_fits[i] {
                any_fits = true;
            }
        }
        if !any_fits {
            return Err(EmpireError::NoRoom);
        }
    }
    Ok(())
}

/// A granted withdrawal of an amount that fits in an `i32` gives the player
/// exactly that amount of the withdrawn item.
pub proof fn law_granted_withdrawal_delivers_amount(
    has_permission: bool,
    item_id: i32,
    item_type: ItemType,
    is_empire_currency: Option<bool>,
    amount: u32,
)
    requires
        withdrawal_verdict(has_permission, item_id, item_type, is_empire_currency, amount) is Ok,
        amount <= i32::MAX,
    ensures
        received_stack(withdrawal_verdict(has_permission, item_id, item_type, is_empire_currency, amount)->Ok_0) == (ItemStack {
            item_id,
            quantity: amount as i32,
            item_type: ItemType::Item,
            durability: None,
        }),
{
}

/// What a donation takes from the pocket is what the same message gives
/// back as a stack (when the treasury refuses it, or grants it as a
/// withdrawal): the donated item, of the same kind, in the same quantity.
pub proof fn law_donation_gives_back_the_stack(
    pocket_index: i32,
    pocket_count: usize,
    stack: ItemStack,
    is_empire_currency: Option<bool>,
)
    requires
        donation_verdict(pocket_index, pocket_count, Some(stack), is_empire_currency) is Ok,
    ensures
        ({
            let back = received_stack(donation_verdict(pocket_index, pocket_count, Some(stack), is_empire_currency)->Ok_0);
            &&& back.item_id == stack.item_id
            &&& back.item_type == stack.item_type
            &&& back.quantity == stack.quantity
        }),
{
}

/// A refused empire creation gives the player back exactly the currency the
/// creation withdrew; an accepted one gives nothing back.
pub proof fn law_refused_creation_gives_back_its_cost(currency_id: i32, shard_cost: i32)
    ensures
        creation_refund(true, currency_id, shard_cost) == Some(creation_cost(currency_id, shard_cost)),
        creation_refund(false, currency_id, shard_cost) is None,
{
}

} // verus!
