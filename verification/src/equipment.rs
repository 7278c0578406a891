//! Equipment slots: the fixed slot layout, the skill charm and instrument
//! slots, and the migrations that bring stored slot lists up to that layout.
use vstd::prelude::*;

use crate::entities::EntityIdAllocator;
use crate::items::ItemStack;

verus! {

/// The kind of slot an equipped item occupies.
#[derive(Clone, Copy, Debug, PartialEq, Eq, Structural)]
pub enum EquipmentSlotType {
    MainHand,
    OffHand,
    HeadArtifact,
    TorsoArtifact,
    HandArtifact,
    FeetArtifact,
    HeadClothing,
    TorsoClothing,
    HandClothing,
    BeltClothing,
    LegClothing,
    FeetClothing,
    ForestryCharm,
    ForestryInstrument,
    CarpentryCharm,
    CarpentryInstrument,
    MasonryCharm,
    MasonryInstrument,
    MiningCharm,
    MiningInstrument,
    SmithingCharm,
    SmithingInstrument,
    LeatherworkingCharm,
    LeatherworkingInstrument,
    HuntingCharm,
    HuntingInstrument,
    TailoringCharm,
    TailoringInstrument,
    FarmingCharm,
    FarmingInstrument,
    FishingCharm,
    FishingInstrument,
    ForagingCharm,
    ForagingInstrument,
    ScholarCharm,
    ScholarInstrument,
    Unassigned,
}

/// The skills of the game.
#[derive(Clone, Copy, Debug, PartialEq, Eq, Structural)]
pub enum SkillType {
    NoSkill,
    Any,
    Forestry,
    Carpentry,
    Masonry,
    Mining,
    Smithing,
    Scholar,
    Leatherworking,
    Hunting,
    Tailoring,
    Farming,
    Fishing,
    Cooking,
    Foraging,
    Construction,
    Taming,
    Slayer,
    Merchanting,
    Sailing,
}

/// One slot of a player's equipment: its type and the item in it, if any.
#[derive(Clone, Copy, Debug, PartialEq, Eq)]
pub struct EquipmentSlot {
    pub item: Option<ItemStack>,
    pub primary: EquipmentSlotType,
}

/// A player's worn equipment.
#[derive(Debug)]
pub struct EquipmentState {
    pub entity_id: u64,
    pub equipment_slots: Vec<EquipmentSlot>,
}

/// A saved equipment loadout of a player.
#[derive(Debug)]
pub struct EquipmentPresetState {
    pub entity_id: u64,
    pub player_entity_id: u64,
    pub index: i32,
    pub active: bool,
    pub equipment_slots: Vec<EquipmentSlot>,
}

/// Number of slots of the full layout.
pub const EQUIPMENT_SLOT_COUNT: usize = 36;

/// The full slot layout, in slot-index order.
pub open spec fn all_slot_types() -> Seq<EquipmentSlotType> {
    seq![
        EquipmentSlotType::MainHand,
        EquipmentSlotType::OffHand,
        EquipmentSlotType::HeadArtifact,
        EquipmentSlotType::TorsoArtifact,
        EquipmentSlotType::HandArtifact,
        EquipmentSlotType::FeetArtifact,
        EquipmentSlotType::HeadClothing,
        EquipmentSlotType::TorsoClothing,
        EquipmentSlotType::HandClothing,
        EquipmentSlotType::BeltClothing,
        EquipmentSlotType::LegClothing,
        EquipmentSlotType::FeetClothing,
        EquipmentSlotType::ForestryCharm,
        EquipmentSlotType::ForestryInstrument,
        EquipmentSlotType::CarpentryCharm,
        EquipmentSlotType::CarpentryInstrument,
        EquipmentSlotType::MasonryCharm,
        EquipmentSlotType::MasonryInstrument,
        EquipmentSlotType::MiningCharm,
        EquipmentSlotType::MiningInstrument,
        EquipmentSlotType::SmithingCharm,
        EquipmentSlotType::SmithingInstrument,
        EquipmentSlotType::LeatherworkingCharm,
        EquipmentSlotType::LeatherworkingInstrument,
        EquipmentSlotType::HuntingCharm,
        EquipmentSlotType::HuntingInstrument,
        EquipmentSlotType::TailoringCharm,
        EquipmentSlotType::TailoringInstrument,
        EquipmentSlotType::FarmingCharm,
        EquipmentSlotType::FarmingInstrument,
        EquipmentSlotType::FishingCharm,
        EquipmentSlotType::FishingInstrument,
        EquipmentSlotType::ForagingCharm,
        EquipmentSlotType::ForagingInstrument,
        EquipmentSlotType::ScholarCharm,
        EquipmentSlotType::ScholarInstrument,
    ]
}

/// The slots that an equipment preset stores, in layout order.
pub open spec fn preset_slot_types() -> Seq<EquipmentSlotType> {
    seq![
        EquipmentSlotType::MainHand,
        EquipmentSlotType::OffHand,
        EquipmentSlotType::TorsoArtifact,
        EquipmentSlotType::HandArtifact,
        EquipmentSlotType::FeetArtifact,
        EquipmentSlotType::HeadClothing,
        EquipmentSlotType::TorsoClothing,
        EquipmentSlotType::HandClothing,
        EquipmentSlotType::BeltClothing,
        EquipmentSlotType::LegClothing,
        EquipmentSlotType::FeetClothing,
    ]
}

/// Position of a slot type in the full layout (-1 for `Unassigned`).
pub open spec fn layout_index(t: EquipmentSlotType) -> int {
    match t {
        EquipmentSlotType::MainHand => 0,
        EquipmentSlotType::OffHand => 1,
        EquipmentSlotType::HeadArtifact => 2,
        EquipmentSlotType::TorsoArtifact => 3,
        EquipmentSlotType::HandArtifact => 4,
        EquipmentSlotType::FeetArtifact => 5,
        EquipmentSlotType::HeadClothing => 6,
        EquipmentSlotType::TorsoClothing => 7,
        EquipmentSlotType::HandClothing => 8,
        EquipmentSlotType::BeltClothing => 9,
        EquipmentSlotType::LegClothing => 10,
        EquipmentSlotType::FeetClothing => 11,
        EquipmentSlotType::ForestryCharm => 12,
        EquipmentSlotType::ForestryInstrument => 13,
        EquipmentSlotType::CarpentryCharm => 14,
        EquipmentSlotType::CarpentryInstrument => 15,
        EquipmentSlotType::MasonryCharm => 16,
        EquipmentSlotType::MasonryInstrument => 17,
        EquipmentSlotType::MiningCharm => 18,
        EquipmentSlotType::MiningInstrument => 19,
        EquipmentSlotType::SmithingCharm => 20,
        EquipmentSlotType::SmithingInstrument => 21,
        EquipmentSlotType::LeatherworkingCharm => 22,
        EquipmentSlotType::LeatherworkingInstrument => 23,
        EquipmentSlotType::HuntingCharm => 24,
        EquipmentSlotType::HuntingInstrument => 25,
        EquipmentSlotType::TailoringCharm => 26,
        EquipmentSlotType::TailoringInstrument => 27,
        EquipmentSlotType::FarmingCharm => 28,
        EquipmentSlotType::FarmingInstrument => 29,
        EquipmentSlotType::FishingCharm => 30,
        EquipmentSlotType::FishingInstrument => 31,
        EquipmentSlotType::ForagingCharm => 32,
        EquipmentSlotType::ForagingInstrument => 33,
        EquipmentSlotType::ScholarCharm => 34,
        EquipmentSlotType::ScholarInstrument => 35,
        EquipmentSlotType::Unassigned => -1,
    }
}

/// The charm slot of a skill, for the skills that have one.
pub open spec fn charm_slot(skill: SkillType) -> Option<EquipmentSlotType> {
    match skill {
        SkillType::Forestry => Some(EquipmentSlotType::ForestryCharm),
        SkillType::Carpentry => Some(EquipmentSlotType::CarpentryCharm),
        SkillType::Masonry => Some(EquipmentSlotType::MasonryCharm),
        SkillType::Mining => Some(EquipmentSlotType::MiningCharm),
        SkillType::Smithing => Some(EquipmentSlotType::SmithingCharm),
        SkillType::Leatherworking => Some(EquipmentSlotType::LeatherworkingCharm),
        SkillType::Hunting => Some(EquipmentSlotType::HuntingCharm),
        SkillType::Tailoring => Some(EquipmentSlotType::TailoringCharm),
        SkillType::Farming => Some(EquipmentSlotType::FarmingCharm),
        SkillType::Fishing => Some(EquipmentSlotType::FishingCharm),
        SkillType::Foraging => Some(EquipmentSlotType::ForagingCharm),
        SkillType::Scholar => Some(EquipmentSlotType::ScholarCharm),
        _ => None,
    }
}

/// The instrument slot of a skill, for the skills that have one.
pub open spec fn instrument_slot(skill: SkillType) -> Option<EquipmentSlotType> {
    match skill {
        SkillType::Forestry => Some(EquipmentSlotType::ForestryInstrument),
        SkillType::Carpentry => Some(EquipmentSlotType::CarpentryInstrument),
        SkillType::Masonry => Some(EquipmentSlotType::MasonryInstrument),
        SkillType::Mining => Some(EquipmentSlotType::MiningInstrument),
        SkillType::Smithing => Some(EquipmentSlotType::SmithingInstrument),
        SkillType::Leatherworking => Some(EquipmentSlotType::LeatherworkingInstrument),
        SkillType::Hunting => Some(EquipmentSlotType::HuntingInstrument),
        SkillType::Tailoring => Some(EquipmentSlotType::TailoringInstrument),
        SkillType::Farming => Some(EquipmentSlotType::FarmingInstrument),
        SkillType::Fishing => Some(EquipmentSlotType::FishingInstrument),
        SkillType::Foraging => Some(EquipmentSlotType::ForagingInstrument),
        SkillType::Scholar => Some(EquipmentSlotType::ScholarInstrument),
        _ => None,
    }
}

/// An empty slot of the given type.
pub open spec fn empty_slot(t: EquipmentSlotType) -> EquipmentSlot {
    EquipmentSlot { item: None, primary: t }
}

/// The default equipment: one empty slot per layout entry.
pub open spec fn default_slots() -> Seq<EquipmentSlot> {
    all_slot_types().map_values(|t: EquipmentSlotType| empty_slot(t))
}

/// Some slot of `slots` has type `t`.
pub open spec fn has_slot_type(slots: Seq<EquipmentSlot>, t: EquipmentSlotType) -> bool {
    exists|i: int| 0 <= i < slots.len() && #[trigger] slots[i].primary == t
}

/// One step of the missing-slot migration: if no slot has type `t`, an empty
/// slot of type `t` fills position `index` (replacing an empty untyped slot
/// there, or inserted before the slot there), or is appended when `index` is
/// past the end.
pub open spec fn fill_slot_type(slots: Seq<EquipmentSlot>, index: int, t: EquipmentSlotType) -> Seq<EquipmentSlot> {
    if has_slot_type(slots, t) {
        slots
    } else if index < slots.len() {
        if slots[index].primary == EquipmentSlotType::Unassigned && slots[index].item is None {
            slots.update(index, empty_slot(t))
        } else {
            slots.insert(index, empty_slot(t))
        }
    } else {
        slots.push(empty_slot(t))
    }
}

/// The missing-slot migration applied to the first `n` layout entries.
pub open spec fn fill_missing_slot_types(slots: Seq<EquipmentSlot>, n: nat) -> Seq<EquipmentSlot>
    decreases n,
{
    if n == 0 {
        slots
    } else {
        let prev = fill_missing_slot_types(slots, (n - 1) as nat);
        fill_slot_type(prev, n - 1, all_slot_types()[n - 1])
    }
}

/// How many of the first `n` layout entries have no slot in `slots`.
pub open spec fn missing_slot_type_count(slots: Seq<EquipmentSlot>, n: nat) -> nat
    decreases n,
{
    if n == 0 {
        0
    } else {
        missing_slot_type_count(slots, (n - 1) as nat) + if has_slot_type(slots, all_slot_types()[n - 1]) {
            0nat
        } else {
            1nat
        }
    }
}

/// The slot list that the length migration produces: lists shorter than the
/// layout get the default slots of the missing positions appended.
pub open spec fn padded_slots(slots: Seq<EquipmentSlot>) -> Seq<EquipmentSlot> {
    if slots.len() >= EQUIPMENT_SLOT_COUNT {
        slots
    } else {
        slots + default_slots().skip(slots.len() as int)
    }
}

/// The slots in effect when `preset` is active: the preset's entry for each
/// preset slot type, the player's own entry for every other layout position.
pub open spec fn slots_with_preset(base: Seq<EquipmentSlot>, preset: Seq<EquipmentSlot>) -> Seq<EquipmentSlot> {
    Seq::new(
        EQUIPMENT_SLOT_COUNT as nat,
        |i: int|
            if preset_slot_types().contains(all_slot_types()[i]) {
                preset[i]
            } else {
                base[i]
            },
    )
}

/// Item ids of the occupied slots of the first `n` layout positions whose slot
/// sits at its own layout position, in layout order.
pub open spec fn equipped_slot_item_ids(slots: Seq<EquipmentSlot>, n: nat) -> Seq<i32>
    decreases n,
{
    if n == 0 {
        seq![]
    } else {
        let prev = equipped_slot_item_ids(slots, (n - 1) as nat);
        let slot = slots[n - 1];
        if slot.spec_item_id() > 0 && slot.primary == all_slot_types()[n - 1] {
            prev.push(slot.spec_item_id())
        } else {
            prev
        }
    }
}

pub open spec fn min_nat(a: nat, b: nat) -> nat {
    if a <= b {
        a
    } else {
        b
    }
}

impl EquipmentSlot {
    /// The id of the item in this slot, 0 when the slot is empty.
    pub open spec fn spec_item_id(self) -> i32 {
        match self.item {
            Some(item) => item.item_id,
            None => 0,
        }
    }

    pub fn item_id(&self) -> (id: i32)
        ensures
            id == self.spec_item_id(),
    {
        if let Some(item) = self.item {
            return item.item_id;
        }
        0
    }

    /// One empty slot per entry of the layout, in layout order.
    pub fn default_equipment_slots() -> (slots: Vec<EquipmentSlot>)
        ensures
            slots@ == default_slots(),
    {
        let types = Self::all_equipment_slots();
        let mut slots: Vec<EquipmentSlot> = Vec::new();
        for i in 0..types.len()
            invariant
                types@ == all_slot_types(),
                slots@ == default_slots().take(i as int),
        {
            slots.push(EquipmentSlot { item: None, primary: types[i] });
            assert(slots@ =~= default_slots().take(i + 1));
        }
        assert(default_slots().take(types@.len() as int) =~= default_slots());
        slots
    }

    /// The full slot layout, in slot-index order.
    pub fn all_equipment_slots() -> (types: Vec<EquipmentSlotType>)
        ensures
            types@ == all_slot_types(),
    {
        let types = vec![
            EquipmentSlotType::MainHand,
            EquipmentSlotType::OffHand,
            EquipmentSlotType::HeadArtifact,
            EquipmentSlotType::TorsoArtifact,
            EquipmentSlotType::HandArtifact,
            EquipmentSlotType::FeetArtifact,
            EquipmentSlotType::HeadClothing,
            EquipmentSlotType::TorsoClothing,
            EquipmentSlotType::HandClothing,
            EquipmentSlotType::BeltClothing,
            EquipmentSlotType::LegClothing,
            EquipmentSlotType::FeetClothing,
            EquipmentSlotType::ForestryCharm,
            EquipmentSlotType::ForestryInstrument,
            EquipmentSlotType::CarpentryCharm,
            EquipmentSlotType::CarpentryInstrument,
            EquipmentSlotType::MasonryCharm,
            EquipmentSlotType::MasonryInstrument,
            EquipmentSlotType::MiningCharm,
            EquipmentSlotType::MiningInstrument,
            EquipmentSlotType::SmithingCharm,
            EquipmentSlotType::SmithingInstrument,
            EquipmentSlotType::LeatherworkingCharm,
            EquipmentSlotType::LeatherworkingInstrument,
            EquipmentSlotType::HuntingCharm,
            EquipmentSlotType::HuntingInstrument,
            EquipmentSlotType::TailoringCharm,
            EquipmentSlotType::TailoringInstrument,
            EquipmentSlotType::FarmingCharm,
            EquipmentSlotType::FarmingInstrument,
            EquipmentSlotType::FishingCharm,
            EquipmentSlotType::FishingInstrument,
            EquipmentSlotType::ForagingCharm,
            EquipmentSlotType::ForagingInstrument,
            EquipmentSlotType::ScholarCharm,
            EquipmentSlotType::ScholarInstrument,
        ];
        assert(types@ =~= all_slot_types());
        types
    }

    /// The slots that an equipment preset stores, in layout order.
    pub fn equipment_preset_slots() -> (types: Vec<EquipmentSlotType>)
        ensures
            types@ == preset_slot_types(),
    {
        let types = vec![
            EquipmentSlotType::MainHand,
            EquipmentSlotType::OffHand,
            EquipmentSlotType::TorsoArtifact,
            EquipmentSlotType::HandArtifact,
            EquipmentSlotType::FeetArtifact,
            EquipmentSlotType::HeadClothing,
            EquipmentSlotType::TorsoClothing,
            EquipmentSlotType::HandClothing,
            EquipmentSlotType::BeltClothing,
            EquipmentSlotType::LegClothing,
            EquipmentSlotType::FeetClothing,
        ];
        assert(types@ =~= preset_slot_types());
        types
    }

    pub fn charm_for_skill(skill_type: SkillType) -> (slot: Option<EquipmentSlotType>)
        ensures
            slot == charm_slot(skill_type),
    {
        Some(
            match skill_type {
                SkillType::Forestry => EquipmentSlotType::ForestryCharm,
                SkillType::Carpentry => EquipmentSlotType::CarpentryCharm,
                SkillType::Masonry => EquipmentSlotType::MasonryCharm,
                SkillType::Mining => EquipmentSlotType::MiningCharm,
                SkillType::Smithing => EquipmentSlotType::SmithingCharm,
                SkillType::Leatherworking => EquipmentSlotType::LeatherworkingCharm,
                SkillType::Hunting => EquipmentSlotType::HuntingCharm,
                SkillType::Tailoring => EquipmentSlotType::TailoringCharm,
                SkillType::Farming => EquipmentSlotType::FarmingCharm,
                SkillType::Fishing => EquipmentSlotType::FishingCharm,
                SkillType::Foraging => EquipmentSlotType::ForagingCharm,
                SkillType::Scholar => EquipmentSlotType::ScholarCharm,
                _ => return None,
            },
        )
    }

    pub fn instrument_for_skill(skill_type: SkillType) -> (slot: Option<EquipmentSlotType>)
        ensures
            slot == instrument_slot(skill_type),
    {
        Some(
            match skill_type {
                SkillType::Forestry => EquipmentSlotType::ForestryInstrument,
                SkillType::Carpentry => EquipmentSlotType::CarpentryInstrument,
                SkillType::Masonry => EquipmentSlotType::MasonryInstrument,
                SkillType::Mining => EquipmentSlotType::MiningInstrument,
                SkillType::Smithing => EquipmentSlotType::SmithingInstrument,
                SkillType::Leatherworking => EquipmentSlotType::LeatherworkingInstrument,
                SkillType::Hunting => EquipmentSlotType::HuntingInstrument,
                SkillType::Tailoring => EquipmentSlotType::TailoringInstrument,
                SkillType::Farming => EquipmentSlotType::FarmingInstrument,
                SkillType::Fishing => EquipmentSlotType::FishingInstrument,
                SkillType::Foraging => EquipmentSlotType::ForagingInstrument,
                SkillType::Scholar => EquipmentSlotType::ScholarInstrument,
                _ => return None,
            },
        )
    }
}


/// Whether some slot of `slots` has type `slot_type`.
pub fn contains_slot_type(slots: &Vec<EquipmentSlot>, slot_type: EquipmentSlotType) -> (found: bool)
    ensures
        found == has_slot_type(slots@, slot_type),
{
    for i in 0..slots.len()
        invariant
            forall|j: int| 0 <= j < i ==> slots@[j].primary != slot_type,
    {
        if slots[i].primary == slot_type {
            return true;
        }
    }
    false
}

/// Adds an empty slot for every layout entry that no slot of
/// `equipment_slots` has. The slot for layout entry `k` goes to position `k`:
/// it replaces an empty untyped slot there, or is inserted before the slot
/// there, or is appended when the list is shorter. Returns how many slots
/// were added.
pub fn add_missing_equipment_slot_types(equipment_slots: &mut Vec<EquipmentSlot>) -> (added: usize)
    ensures
        final(equipment_slots)@ == fill_missing_slot_types(
            old(equipment_slots)@,
            EQUIPMENT_SLOT_COUNT as nat,
        ),
        added == missing_slot_type_count(old(equipment_slots)@, EQUIPMENT_SLOT_COUNT as nat),
{
    let ghost original = equipment_slots@;
    let types = EquipmentSlot::all_equipment_slots();
    let mut added: usize = 0;
    for slot_index in 0..types.len()
        invariant
            types@ == all_slot_types(),
            original == old(equipment_slots)@,
            equipment_slots@ == fill_missing_slot_types(original, slot_index as nat),
            added == missing_slot_type_count(original, slot_index as nat),
            added <= slot_index,
    {
        let slot_type = types[slot_index];
        proof {
            lemma_layout_index_of_layout();
            lemma_fill_preserves_later_types(original, slot_index as nat, slot_type);
        }
        if !contains_slot_type(equipment_slots, slot_type) {
            let missing_slot = EquipmentSlot { item: None, primary: slot_type };
            if slot_index < equipment_slots.len() {
                if equipment_slots[slot_index].primary == EquipmentSlotType::Unassigned
                    && equipment_slots[slot_index].item.is_none() {
                    equipment_slots.set(slot_index, missing_slot);
                } else {
                    equipment_slots.insert(slot_index, missing_slot);
                }
            } else {
                equipment_slots.push(missing_slot);
            }
            added = added + 1;
        }
    }
    added
}

/// Brings a slot list that is shorter than the layout up to its length by
/// appending the default slots of the missing positions. Returns whether the
/// list changed.
pub fn pad_equipment_slots(equipment_slots: &mut Vec<EquipmentSlot>) -> (changed: bool)
    ensures
        final(equipment_slots)@ == padded_slots(old(equipment_slots)@),
        changed == (old(equipment_slots)@.len() < EQUIPMENT_SLOT_COUNT),
{
    let defaults = EquipmentSlot::default_equipment_slots();
    let len = equipment_slots.len();
    if len >= defaults.len() {
        return false;
    }
    let ghost original = equipment_slots@;
    for i in len..defaults.len()
        invariant
            defaults@ == default_slots(),
            len == original.len(),
            len < EQUIPMENT_SLOT_COUNT,
            equipment_slots@ == original + default_slots().subrange(len as int, i as int),
    {
        equipment_slots.push(defaults[i]);
        assert(equipment_slots@ =~= original + default_slots().subrange(len as int, i + 1));
    }
    assert(default_slots().subrange(len as int, EQUIPMENT_SLOT_COUNT as int) =~= default_slots().skip(len as int));
    true
}

/// Item ids of everything the player has equipped: the occupied slots that sit
/// at their own layout position (layout order), then the toolbelt items.
pub fn equipped_item_ids(equipment_slots: &Vec<EquipmentSlot>, toolbelt_item_ids: &Vec<i32>) -> (ids: Vec<i32>)
    ensures
        ids@ == equipped_slot_item_ids(
            equipment_slots@,
            min_nat(EQUIPMENT_SLOT_COUNT as nat, equipment_slots@.len()),
        ) + toolbelt_item_ids@,
{
    let types = EquipmentSlot::all_equipment_slots();
    let n = if equipment_slots.len() < types.len() { equipment_slots.len() } else { types.len() };
    let mut ids: Vec<i32> = Vec::new();
    for i in 0..n
        invariant
            types@ == all_slot_types(),
            n <= equipment_slots@.len(),
            n <= EQUIPMENT_SLOT_COUNT,
            ids@ == equipped_slot_item_ids(equipment_slots@, i as nat),
    {
        let slot = equipment_slots[i];
        let item_id = slot.item_id();
        if item_id > 0 && slot.primary == types[i] {
            ids.push(item_id);
        }
    }
    let ghost slot_ids = ids@;
    for j in 0..toolbelt_item_ids.len()
        invariant
            ids@ == slot_ids + toolbelt_item_ids@.take(j as int),
    {
        ids.push(toolbelt_item_ids[j]);
        assert(ids@ =~= slot_ids + toolbelt_item_ids@.take(j + 1));
    }
    assert(toolbelt_item_ids@.take(toolbelt_item_ids@.len() as int) =~= toolbelt_item_ids@);
    ids
}

impl EquipmentState {
    /// The slots in effect for this player: with an active preset, the
    /// preset's entry for each preset slot type and the player's own entry for
    /// every other layout position; without one, the player's own slots.
    pub fn effective_equipment_slots(&self, active_preset: Option<&EquipmentPresetState>) -> (slots: Vec<EquipmentSlot>)
        requires
            active_preset is Some ==> {
                &&& self.equipment_slots@.len() >= EQUIPMENT_SLOT_COUNT
                &&& active_preset->0.equipment_slots@.len() >= EQUIPMENT_SLOT_COUNT
            },
        ensures
            slots@ == match active_preset {
                Some(preset) => slots_with_preset(self.equipment_slots@, preset.equipment_slots@),
                None => self.equipment_slots@,
            },
    {
        match active_preset {
            None => self.equipment_slots.clone(),
            Some(preset) => {
                let types = EquipmentSlot::all_equipment_slots();
                let preset_types = EquipmentSlot::equipment_preset_slots();
                let mut slots: Vec<EquipmentSlot> = Vec::new();
                for slot_index in 0..types.len()
                    invariant
                        types@ == all_slot_types(),
                        preset_types@ == preset_slot_types(),
                        self.equipment_slots@.len() >= EQUIPMENT_SLOT_COUNT,
                        preset.equipment_slots@.len() >= EQUIPMENT_SLOT_COUNT,
                        slots@ == slots_with_preset(self.equipment_slots@, preset.equipment_slots@).take(
                            slot_index as int,
                        ),
                {
                    let slot_type = types[slot_index];
                    let in_preset = contains_type(&preset_types, slot_type);
                    if in_preset {
                        slots.push(preset.equipment_slots[slot_index]);
                    } else {
                        slots.push(self.equipment_slots[slot_index]);
                    }
                    assert(slots@ =~= slots_with_preset(self.equipment_slots@, preset.equipment_slots@).take(
                        slot_index + 1,
                    ));
                }
                assert(slots_with_preset(self.equipment_slots@, preset.equipment_slots@).take(
                    EQUIPMENT_SLOT_COUNT as int,
                ) =~= slots_with_preset(self.equipment_slots@, preset.equipment_slots@));
                slots
            },
        }
    }
}

/// Whether `slot_type` occurs in `types`.
pub fn contains_type(types: &Vec<EquipmentSlotType>, slot_type: EquipmentSlotType) -> (found: bool)
    ensures
        found == types@.contains(slot_type),
{
    for i in 0..types.len()
        invariant
            forall|j: int| 0 <= j < i ==> types@[j] != slot_type,
    {
        if types[i] == slot_type {
            return true;
        }
    }
    false
}

impl EquipmentPresetState {
    /// The preset that acquiring a knowledge creates: none unless the
    /// knowledge unlocks a preset; otherwise an inactive preset with the
    /// default slots, numbered one past the player's existing presets.
    pub fn on_knowledge_acquired(
        knowledge_unlocks_preset: bool,
        player_entity_id: u64,
        existing_presets: usize,
        ids: &mut EntityIdAllocator,
    ) -> (preset: Option<EquipmentPresetState>)
        requires
            knowledge_unlocks_preset ==> old(ids).next_entity_id < u64::MAX,
            knowledge_unlocks_preset ==> (existing_presets as i32) < i32::MAX,
        ensures
            !knowledge_unlocks_preset ==> preset is None && *final(ids) == *old(ids),
            knowledge_unlocks_preset ==> (preset matches Some(p) && {
                &&& p.entity_id == old(ids).next_entity_id
                &&& final(ids).next_entity_id == old(ids).next_entity_id + 1
                &&& p.player_entity_id == player_entity_id
                &&& p.index == (existing_presets as i32) + 1
                &&& !p.active
                &&& p.equipment_slots@ == default_slots()
            }),
    {
        if !knowledge_unlocks_preset {
            return None;
        }
        let equipment_slots = EquipmentSlot::default_equipment_slots();
        let entity_id = ids.create_entity();
        Some(
            EquipmentPresetState {
                entity_id,
                player_entity_id,
                index: existing_presets as i32 + 1,
                active: false,
                equipment_slots,
            },
        )
    }
}

// ---------------------------------------------------------------------------
// Lemmas about the layout and the migrations
// ---------------------------------------------------------------------------

/// Every layout entry sits at its own layout index; `Unassigned` is not in
/// the layout.
pub proof fn lemma_layout_index_of_layout()
    ensures
        all_slot_types().len() == EQUIPMENT_SLOT_COUNT,
        forall|i: int| 0 <= i < EQUIPMENT_SLOT_COUNT ==> layout_index(#[trigger] all_slot_types()[i]) == i,
{
    assert forall|i: int| 0 <= i < EQUIPMENT_SLOT_COUNT implies layout_index(#[trigger] all_slot_types()[i]) == i by {
        if i < 12 {
        } else if i < 24 {
        } else {
        }
    }
}

/// One migration step keeps every type other than `Unassigned` that was present.
proof fn lemma_step_keeps_types(slots: Seq<EquipmentSlot>, index: int, t: EquipmentSlotType, u: EquipmentSlotType)
    requires
        0 <= index,
        u != EquipmentSlotType::Unassigned,
        has_slot_type(slots, u),
    ensures
        has_slot_type(fill_slot_type(slots, index, t), u),
{
    let after = fill_slot_type(slots, index, t);
    let i = choose|i: int| 0 <= i < slots.len() && #[trigger] slots[i].primary == u;
    if has_slot_type(slots, t) {
    } else if index < slots.len() {
        if slots[index].primary == EquipmentSlotType::Unassigned && slots[index].item is None {
            assert(i != index);
            assert(after[i].primary == u);
        } else {
            if i < index {
                assert(after[i].primary == u);
            } else {
                assert(after[i + 1].primary == u);
            }
        }
    } else {
        assert(after[i].primary == u);
    }
}

/// One migration step adds `t` and no other type.
proof fn lemma_step_adds_only(slots: Seq<EquipmentSlot>, index: int, t: EquipmentSlotType, u: EquipmentSlotType)
    requires
        0 <= index,
        u != EquipmentSlotType::Unassigned,
    ensures
        has_slot_type(fill_slot_type(slots, index, t), t),
        u != t ==> (has_slot_type(fill_slot_type(slots, index, t), u) == has_slot_type(slots, u)),
{
    let after = fill_slot_type(slots, index, t);
    if has_slot_type(slots, t) {
    } else if index < slots.len() {
        if slots[index].primary == EquipmentSlotType::Unassigned && slots[index].item is None {
            assert(after[index].primary == t);
            if u != t && has_slot_type(after, u) {
                let i = choose|i: int| 0 <= i < after.len() && #[trigger] after[i].primary == u;
                assert(slots[i].primary == u);
            }
        } else {
            assert(after[index].primary == t);
            if u != t && has_slot_type(after, u) {
                let i = choose|i: int| 0 <= i < after.len() && #[trigger] after[i].primary == u;
                if i < index {
                    assert(slots[i].primary == u);
                } else {
                    assert(slots[i - 1].primary == u);
                }
            }
        }
    } else {
        assert(after[slots.len() as int].primary == t);
        if u != t && has_slot_type(after, u) {
            let i = choose|i: int| 0 <= i < after.len() && #[trigger] after[i].primary == u;
            assert(slots[i].primary == u);
        }
    }
    if u != t && has_slot_type(slots, u) {
        lemma_step_keeps_types(slots, index, t, u);
    }
}

/// The first `n` steps of the migration leave the presence of every type that
/// comes later in the layout as it was.
proof fn lemma_fill_preserves_later_types(slots: Seq<EquipmentSlot>, n: nat, t: EquipmentSlotType)
    requires
        n <= EQUIPMENT_SLOT_COUNT,
        t != EquipmentSlotType::Unassigned,
        layout_index(t) >= n,
    ensures
        has_slot_type(fill_missing_slot_types(slots, n), t) == has_slot_type(slots, t),
    decreases n,
{
    if n > 0 {
        lemma_layout_index_of_layout();
        let k = (n - 1) as nat;
        lemma_fill_preserves_later_types(slots, k, t);
        let tk = all_slot_types()[k as int];
        assert(layout_index(tk) == k);
        assert(tk != t);
        lemma_step_adds_only(fill_missing_slot_types(slots, k), k as int, tk, t);
    }
}

/// After the first `n` steps, the first `n` layout entries are all present,
/// and every type other than `Unassigned` that was present still is.
proof fn lemma_fill_prefix_present(slots: Seq<EquipmentSlot>, n: nat)
    requires
        n <= EQUIPMENT_SLOT_COUNT,
    ensures
        forall|j: int| 0 <= j < n ==> has_slot_type(fill_missing_slot_types(slots, n), #[trigger] all_slot_types()[j]),
        forall|u: EquipmentSlotType|
            u != EquipmentSlotType::Unassigned && has_slot_type(slots, u) ==> has_slot_type(
                #[trigger] fill_missing_slot_types(slots, n),
                u,
            ),
    decreases n,
{
    lemma_layout_index_of_layout();
    if n > 0 {
        let k = (n - 1) as nat;
        lemma_fill_prefix_present(slots, k);
        let prev = fill_missing_slot_types(slots, k);
        let tk = all_slot_types()[k as int];
        assert(tk != EquipmentSlotType::Unassigned) by {
            assert(layout_index(tk) == k);
        }
        lemma_step_adds_only(prev, k as int, tk, tk);
        assert forall|j: int| 0 <= j < n implies has_slot_type(
            fill_missing_slot_types(slots, n),
            #[trigger] all_slot_types()[j],
        ) by {
            if j < k {
                let tj = all_slot_types()[j];
                assert(layout_index(tj) == j);
                lemma_step_keeps_types(prev, k as int, tk, tj);
            }
        }
        assert forall|u: EquipmentSlotType|
            u != EquipmentSlotType::Unassigned && has_slot_type(slots, u) implies has_slot_type(
            #[trigger] fill_missing_slot_types(slots, n),
            u,
        ) by {
            lemma_step_keeps_types(prev, k as int, tk, u);
        }
    }
}

/// When every one of the first `n` layout entries is present, the first `n`
/// steps change nothing and find nothing missing.
proof fn lemma_fill_complete_is_identity(slots: Seq<EquipmentSlot>, n: nat)
    requires
        n <= EQUIPMENT_SLOT_COUNT,
        forall|j: int| 0 <= j < n ==> has_slot_type(slots, #[trigger] all_slot_types()[j]),
    ensures
        fill_missing_slot_types(slots, n) == slots,
        missing_slot_type_count(slots, n) == 0,
    decreases n,
{
    if n > 0 {
        let k = (n - 1) as nat;
        lemma_fill_complete_is_identity(slots, k);
        assert(has_slot_type(slots, all_slot_types()[k as int]));
    }
}

// ---------------------------------------------------------------------------
// Laws
// ---------------------------------------------------------------------------

/// After the missing-slot migration every layout entry has a slot, and every
/// slot type other than `Unassigned` that the list had before it still has.
pub proof fn law_missing_slot_migration_completes(slots: Seq<EquipmentSlot>)
    ensures
        forall|t: EquipmentSlotType|
            all_slot_types().contains(t) ==> has_slot_type(
                fill_missing_slot_types(slots, EQUIPMENT_SLOT_COUNT as nat),
                t,
            ),
        forall|u: EquipmentSlotType|
            u != EquipmentSlotType::Unassigned && has_slot_type(slots, u) ==> has_slot_type(
                fill_missing_slot_types(slots, EQUIPMENT_SLOT_COUNT as nat),
                u,
            ),
{
    lemma_fill_prefix_present(slots, EQUIPMENT_SLOT_COUNT as nat);
    assert forall|t: EquipmentSlotType| all_slot_types().contains(t) implies has_slot_type(
        fill_missing_slot_types(slots, EQUIPMENT_SLOT_COUNT as nat),
        t,
    ) by {
        let j = choose|j: int| 0 <= j < all_slot_types().len() && all_slot_types()[j] == t;
        assert(has_slot_type(fill_missing_slot_types(slots, EQUIPMENT_SLOT_COUNT as nat), all_slot_types()[j]));
    }
}

/// Running the missing-slot migration a second time changes nothing and adds
/// no slot.
pub proof fn law_missing_slot_migration_idempotent(slots: Seq<EquipmentSlot>)
    ensures
        fill_missing_slot_types(fill_missing_slot_types(slots, EQUIPMENT_SLOT_COUNT as nat), EQUIPMENT_SLOT_COUNT as nat)
            == fill_missing_slot_types(slots, EQUIPMENT_SLOT_COUNT as nat),
        missing_slot_type_count(fill_missing_slot_types(slots, EQUIPMENT_SLOT_COUNT as nat), EQUIPMENT_SLOT_COUNT as nat)
            == 0,
{
    lemma_fill_prefix_present(slots, EQUIPMENT_SLOT_COUNT as nat);
    lemma_fill_complete_is_identity(
        fill_missing_slot_types(slots, EQUIPMENT_SLOT_COUNT as nat),
        EQUIPMENT_SLOT_COUNT as nat,
    );
}

/// The default slots already hold every layout entry: the missing-slot
/// migration leaves them as they are.
pub proof fn law_default_slots_complete()
    ensures
        fill_missing_slot_types(default_slots(), EQUIPMENT_SLOT_COUNT as nat) == default_slots(),
        missing_slot_type_count(default_slots(), EQUIPMENT_SLOT_COUNT as nat) == 0,
        default_slots().len() == EQUIPMENT_SLOT_COUNT,
{
    lemma_layout_index_of_layout();
    assert forall|j: int| 0 <= j < EQUIPMENT_SLOT_COUNT implies has_slot_type(
        default_slots(),
        #[trigger] all_slot_types()[j],
    ) by {
        assert(default_slots()[j].primary == all_slot_types()[j]);
    }
    lemma_fill_complete_is_identity(default_slots(), EQUIPMENT_SLOT_COUNT as nat);
}

/// The length migration leaves lists of full length alone, keeps every slot
/// of a shorter list in place, brings it to full length, and a second run
/// changes nothing.
pub proof fn law_padding(slots: Seq<EquipmentSlot>)
    ensures
        padded_slots(slots).len() >= EQUIPMENT_SLOT_COUNT,
        padded_slots(slots).len() == if slots.len() >= EQUIPMENT_SLOT_COUNT {
            slots.len()
        } else {
            EQUIPMENT_SLOT_COUNT as nat
        },
        forall|i: int| 0 <= i < slots.len() ==> #[trigger] padded_slots(slots)[i] == slots[i],
        padded_slots(padded_slots(slots)) == padded_slots(slots),
        padded_slots(Seq::empty()) == default_slots(),
{
    assert(default_slots().skip(0) =~= default_slots());
    assert(Seq::<EquipmentSlot>::empty() + default_slots() =~= default_slots());
}

/// Every skill with a charm slot also has an instrument slot and the other
/// way round; both are distinct layout entries, and different skills get
/// different slots.
pub proof fn law_skill_slots(a: SkillType, b: SkillType)
    ensures
        charm_slot(a) is Some <==> instrument_slot(a) is Some,
        charm_slot(a) matches Some(c) ==> all_slot_types().contains(c),
        instrument_slot(a) matches Some(i) ==> all_slot_types().contains(i),
        charm_slot(a) matches Some(c) ==> instrument_slot(a) != Some(c),
        a != b && charm_slot(a) is Some ==> charm_slot(a) != charm_slot(b) && instrument_slot(a) != instrument_slot(b),
{
    lemma_layout_index_of_layout();
    if let Some(c) = charm_slot(a) {
        assert(all_slot_types()[layout_index(c)] == c);
    }
    if let Some(i) = instrument_slot(a) {
        assert(all_slot_types()[layout_index(i)] == i);
    }
}

/// Preset slot types are layout entries, and no layout entry occurs twice.
pub proof fn law_layout_shape()
    ensures
        forall|t: EquipmentSlotType| preset_slot_types().contains(t) ==> all_slot_types().contains(t),
        forall|i: int, j: int|
            0 <= i < j < EQUIPMENT_SLOT_COUNT ==> all_slot_types()[i] != all_slot_types()[j],
        !all_slot_types().contains(EquipmentSlotType::Unassigned),
        default_slots().len() == EQUIPMENT_SLOT_COUNT,
{
    lemma_layout_index_of_layout();
    assert forall|t: EquipmentSlotType| preset_slot_types().contains(t) implies all_slot_types().contains(t) by {
        let j = choose|j: int| 0 <= j < preset_slot_types().len() && preset_slot_types()[j] == t;
        assert(all_slot_types()[layout_index(t)] == t);
    }
    assert forall|i: int, j: int| 0 <= i < j < EQUIPMENT_SLOT_COUNT implies all_slot_types()[i] != all_slot_types()[j] by {
        assert(layout_index(all_slot_types()[i]) == i);
        assert(layout_index(all_slot_types()[j]) == j);
    }
    if all_slot_types().contains(EquipmentSlotType::Unassigned) {
        let j = choose|j: int| 0 <= j < all_slot_types().len() && all_slot_types()[j] == EquipmentSlotType::Unassigned;
        assert(layout_index(all_slot_types()[j]) == j);
    }
}

/// An empty untyped slot: one the missing-slot migration may fill.
pub open spec fn is_placeholder(slot: EquipmentSlot) -> bool {
    slot.primary == EquipmentSlotType::Unassigned && slot.item is None
}

/// A slot that is no placeholder and whose type the list `original` had.
pub open spec fn kept_from(original: Seq<EquipmentSlot>) -> spec_fn(EquipmentSlot) -> bool {
    |slot: EquipmentSlot| !is_placeholder(slot) && has_slot_type(original, slot.primary)
}

/// The slots that are no placeholder.
pub open spec fn not_placeholder() -> spec_fn(EquipmentSlot) -> bool {
    |slot: EquipmentSlot| !is_placeholder(slot)
}

proof fn lemma_filter_single<A>(x: A, p: spec_fn(A) -> bool)
    ensures
        seq![x].filter(p) == if p(x) {
            seq![x]
        } else {
            Seq::<A>::empty()
        },
{
    reveal(Seq::filter);
    assert(seq![x] =~= Seq::<A>::empty().push(x));
    Seq::<A>::empty().lemma_filter_push(x, p);
    assert(Seq::<A>::empty().filter(p) =~= Seq::<A>::empty());
}

/// A migration step that writes a slot outside the filter, in place of a
/// slot outside it or in between, leaves the filtered list as it was.
proof fn lemma_step_keeps_filter(slots: Seq<EquipmentSlot>, index: int, t: EquipmentSlotType, p: spec_fn(EquipmentSlot) -> bool)
    requires
        0 <= index,
        !has_slot_type(slots, t) ==> !p(empty_slot(t)),
        forall|x: EquipmentSlot| is_placeholder(x) ==> !p(x),
    ensures
        fill_slot_type(slots, index, t).filter(p) == slots.filter(p),
{
    broadcast use vstd::seq_lib::group_seq_properties;

    let v = empty_slot(t);
    lemma_filter_single(v, p);
    if has_slot_type(slots, t) {
    } else if index < slots.len() {
        let a = slots.take(index);
        let b = slots.skip(index + 1);
        lemma_filter_single(slots[index], p);
        assert(slots =~= a + (seq![slots[index]] + b));
        Seq::filter_distributes_over_add(a, seq![slots[index]] + b, p);
        Seq::filter_distributes_over_add(seq![slots[index]], b, p);
        if is_placeholder(slots[index]) {
            assert(slots.update(index, v) =~= a + (seq![v] + b));
            Seq::filter_distributes_over_add(a, seq![v] + b, p);
            Seq::filter_distributes_over_add(seq![v], b, p);
            assert((seq![v] + b).filter(p) =~= b.filter(p));
            assert((seq![slots[index]] + b).filter(p) =~= b.filter(p));
        } else {
            assert(slots.insert(index, v) =~= a + (seq![v] + (seq![slots[index]] + b)));
            Seq::filter_distributes_over_add(a, seq![v] + (seq![slots[index]] + b), p);
            Seq::filter_distributes_over_add(seq![v], seq![slots[index]] + b, p);
            assert((seq![v] + (seq![slots[index]] + b)).filter(p) =~= (seq![slots[index]] + b).filter(p));
        }
    } else {
        slots.lemma_filter_push(v, p);
    }
}

proof fn lemma_fill_keeps_filter(slots: Seq<EquipmentSlot>, n: nat)
    requires
        n <= EQUIPMENT_SLOT_COUNT,
    ensures
        fill_missing_slot_types(slots, n).filter(kept_from(slots)) == slots.filter(kept_from(slots)),
    decreases n,
{
    if n > 0 {
        let k = (n - 1) as nat;
        lemma_fill_keeps_filter(slots, k);
        lemma_fill_prefix_present(slots, k);
        let prev = fill_missing_slot_types(slots, k);
        let t = all_slot_types()[k as int];
        assert(t != EquipmentSlotType::Unassigned);
        if !has_slot_type(prev, t) {
            assert(!has_slot_type(slots, t));
            assert(!kept_from(slots)(empty_slot(t)));
        }
        lemma_step_keeps_filter(prev, k as int, t, kept_from(slots));
    }
}

proof fn lemma_filter_agreeing<A>(s: Seq<A>, p: spec_fn(A) -> bool, q: spec_fn(A) -> bool)
    requires
        forall|i: int| 0 <= i < s.len() ==> p(#[trigger] s[i]) == q(s[i]),
    ensures
        s.filter(p) == s.filter(q),
    decreases s.len(),
{
    if s.len() > 0 {
        let init = s.drop_last();
        lemma_filter_agreeing(init, p, q);
        assert(s =~= init.push(s.last()));
        init.lemma_filter_push(s.last(), p);
        init.lemma_filter_push(s.last(), q);
    } else {
        reveal(Seq::filter);
        assert(s.filter(p) =~= s.filter(q));
    }
}

/// The missing-slot migration keeps every slot that is no empty placeholder,
/// in its relative order: leaving out the placeholders and the slots it
/// added (whose types the list lacked), the migrated list is the list's own
/// slots other than placeholders, in order.
pub proof fn law_missing_slot_migration_keeps_order(slots: Seq<EquipmentSlot>)
    ensures
        fill_missing_slot_types(slots, EQUIPMENT_SLOT_COUNT as nat).filter(kept_from(slots)) == slots.filter(
            not_placeholder(),
        ),
{
    lemma_fill_keeps_filter(slots, EQUIPMENT_SLOT_COUNT as nat);
    assert forall|i: int| 0 <= i < slots.len() implies kept_from(slots)(#[trigger] slots[i]) == not_placeholder()(slots[i]) by {
        assert(slots[i].primary == slots[i].primary);
        assert(has_slot_type(slots, slots[i].primary));
    }
    lemma_filter_agreeing(slots, kept_from(slots), not_placeholder());
}

/// A skill's instrument slot comes right after its charm slot in the layout.
pub proof fn law_instrument_follows_charm(skill: SkillType)
    ensures
        charm_slot(skill) is Some ==> {
            let c = charm_slot(skill)->0;
            &&& instrument_slot(skill) is Some
            &&& 0 <= layout_index(c) && layout_index(c) + 1 < all_slot_types().len()
            &&& all_slot_types()[layout_index(c)] == c
            &&& all_slot_types()[layout_index(c) + 1] == instrument_slot(skill)->0
        },
{
    lemma_layout_index_of_layout();
}

/// The layout entries that no slot of `slots` has.
pub open spec fn missing_slot_types(slots: Seq<EquipmentSlot>) -> Seq<EquipmentSlotType> {
    all_slot_types().filter(|t: EquipmentSlotType| !has_slot_type(slots, t))
}

proof fn lemma_missing_count_is_filter(slots: Seq<EquipmentSlot>, n: nat)
    requires
        n <= EQUIPMENT_SLOT_COUNT,
    ensures
        missing_slot_type_count(slots, n) == all_slot_types().take(n as int).filter(
            |t: EquipmentSlotType| !has_slot_type(slots, t),
        ).len(),
    decreases n,
{
    lemma_layout_index_of_layout();
    let p = |t: EquipmentSlotType| !has_slot_type(slots, t);
    if n == 0 {
        reveal(Seq::filter);
        assert(all_slot_types().take(0).filter(p) =~= Seq::<EquipmentSlotType>::empty());
    } else {
        lemma_missing_count_is_filter(slots, (n - 1) as nat);
        let prev = all_slot_types().take(n - 1);
        assert(all_slot_types().take(n as int) =~= prev.push(all_slot_types()[n - 1]));
        prev.lemma_filter_push(all_slot_types()[n - 1], p);
    }
}

/// The missing-slot migration adds exactly one slot per layout entry that no
/// slot had before it ran: it returns the number of those entries.
pub proof fn law_missing_slot_migration_counts_missing_types(slots: Seq<EquipmentSlot>)
    ensures
        missing_slot_type_count(slots, EQUIPMENT_SLOT_COUNT as nat) == missing_slot_types(slots).len(),
{
    lemma_layout_index_of_layout();
    lemma_missing_count_is_filter(slots, EQUIPMENT_SLOT_COUNT as nat);
    assert(all_slot_types().take(EQUIPMENT_SLOT_COUNT as int) =~= all_slot_types());
}

/// With an active preset, the preset supplies the hands, the torso, hand and
/// foot artifacts and the clothing; the head artifact and every skill's charm
/// and instrument stay the player's own slots.
pub proof fn law_preset_replaces_gear_but_not_head_artifact_or_tools(base: Seq<EquipmentSlot>, preset: Seq<EquipmentSlot>)
    requires
        base.len() >= EQUIPMENT_SLOT_COUNT,
        preset.len() >= EQUIPMENT_SLOT_COUNT,
    ensures
        slots_with_preset(base, preset).len() == EQUIPMENT_SLOT_COUNT,
        slots_with_preset(base, preset)[layout_index(EquipmentSlotType::HeadArtifact)] == base[layout_index(
            EquipmentSlotType::HeadArtifact,
        )],
        forall|skill: SkillType|
            #[trigger] charm_slot(skill) is Some ==> {
                &&& slots_with_preset(base, preset)[layout_index(charm_slot(skill)->0)] == base[layout_index(
                    charm_slot(skill)->0,
                )]
                &&& slots_with_preset(base, preset)[layout_index(instrument_slot(skill)->0)] == base[layout_index(
                    instrument_slot(skill)->0,
                )]
            },
        forall|t: EquipmentSlotType|
            (t == EquipmentSlotType::MainHand || t == EquipmentSlotType::OffHand || t == EquipmentSlotType::TorsoArtifact
                || t == EquipmentSlotType::HandArtifact || t == EquipmentSlotType::FeetArtifact || t
                == EquipmentSlotType::HeadClothing || t == EquipmentSlotType::TorsoClothing || t
                == EquipmentSlotType::HandClothing || t == EquipmentSlotType::BeltClothing || t
                == EquipmentSlotType::LegClothing || t == EquipmentSlotType::FeetClothing) ==> slots_with_preset(
                base,
                preset,
            )[#[trigger] layout_index(t)] == preset[layout_index(t)],
{
    lemma_layout_index_of_layout();
    let r = slots_with_preset(base, preset);
    let h = layout_index(EquipmentSlotType::HeadArtifact);
    assert(all_slot_types()[h] == EquipmentSlotType::HeadArtifact);
    assert(!preset_slot_types().contains(EquipmentSlotType::HeadArtifact)) by {
        if preset_slot_types().contains(EquipmentSlotType::HeadArtifact) {
            let j = choose|j: int| 0 <= j < preset_slot_types().len() && preset_slot_types()[j] == EquipmentSlotType::HeadArtifact;
            assert(false);
        }
    }
    assert forall|skill: SkillType| #[trigger] charm_slot(skill) is Some implies {
        &&& r[layout_index(charm_slot(skill)->0)] == base[layout_index(charm_slot(skill)->0)]
        &&& r[layout_index(instrument_slot(skill)->0)] == base[layout_index(instrument_slot(skill)->0)]
    } by {
        let c = charm_slot(skill)->0;
        let m = instrument_slot(skill)->0;
        assert(all_slot_types()[layout_index(c)] == c);
        assert(all_slot_types()[layout_index(m)] == m);
        assert(!preset_slot_types().contains(c)) by {
            if preset_slot_types().contains(c) {
                let j = choose|j: int| 0 <= j < preset_slot_types().len() && preset_slot_types()[j] == c;
                assert(false);
            }
        }
        assert(!preset_slot_types().contains(m)) by {
            if preset_slot_types().contains(m) {
                let j = choose|j: int| 0 <= j < preset_slot_types().len() && preset_slot_types()[j] == m;
                assert(false);
            }
        }
    }
    assert forall|t: EquipmentSlotType|
        (t == EquipmentSlotType::MainHand || t == EquipmentSlotType::OffHand || t == EquipmentSlotType::TorsoArtifact
            || t == EquipmentSlotType::HandArtifact || t == EquipmentSlotType::FeetArtifact || t
            == EquipmentSlotType::HeadClothing || t == EquipmentSlotType::TorsoClothing || t
            == EquipmentSlotType::HandClothing || t == EquipmentSlotType::BeltClothing || t
            == EquipmentSlotType::LegClothing || t == EquipmentSlotType::FeetClothing) implies r[#[trigger] layout_index(t)]
        == preset[layout_index(t)] by {
        assert(all_slot_types()[layout_index(t)] == t);
        let j = if t == EquipmentSlotType::MainHand {
            0int
        } else if t == EquipmentSlotType::OffHand {
            1
        } else if t == EquipmentSlotType::TorsoArtifact {
            2
        } else if t == EquipmentSlotType::HandArtifact {
            3
        } else if t == EquipmentSlotType::FeetArtifact {
            4
        } else if t == EquipmentSlotType::HeadClothing {
            5
        } else if t == EquipmentSlotType::TorsoClothing {
            6
        } else if t == EquipmentSlotType::HandClothing {
            7
        } else if t == EquipmentSlotType::BeltClothing {
            8
        } else if t == EquipmentSlotType::LegClothing {
            9
        } else {
            10
        };
        assert(preset_slot_types()[j] == t);
        assert(preset_slot_types().contains(t));
    }
}

} // verus!
