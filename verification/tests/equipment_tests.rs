use bitcraft_server::entities::EntityIdAllocator;
use bitcraft_server::equipment::{
    add_missing_equipment_slot_types, contains_slot_type, equipped_item_ids, pad_equipment_slots, EquipmentPresetState,
    EquipmentSlot, EquipmentSlotType, EquipmentState, SkillType, EQUIPMENT_SLOT_COUNT,
};
use bitcraft_server::items::{ItemStack, ItemType};

fn stack(item_id: i32) -> ItemStack {
    ItemStack { item_id, quantity: 1, item_type: ItemType::Item, durability: None }
}

#[test]
fn item_id_of_empty_and_filled_slot() {
    let empty = EquipmentSlot { item: None, primary: EquipmentSlotType::MainHand };
    let filled = EquipmentSlot { item: Some(stack(42)), primary: EquipmentSlotType::MainHand };
    assert_eq!(empty.item_id(), 0);
    assert_eq!(filled.item_id(), 42);
}

#[test]
fn layout_has_every_slot_once_in_order() {
    let types = EquipmentSlot::all_equipment_slots();
    assert_eq!(types.len(), EQUIPMENT_SLOT_COUNT);
    assert_eq!(types[0], EquipmentSlotType::MainHand);
    assert_eq!(types[1], EquipmentSlotType::OffHand);
    assert_eq!(types[12], EquipmentSlotType::ForestryCharm);
    assert_eq!(types[35], EquipmentSlotType::ScholarInstrument);
    for i in 0..types.len() {
        for j in (i + 1)..types.len() {
            assert_ne!(types[i], types[j]);
        }
    }
}

#[test]
fn default_slots_are_empty_and_follow_the_layout() {
    let slots = EquipmentSlot::default_equipment_slots();
    let types = EquipmentSlot::all_equipment_slots();
    assert_eq!(slots.len(), types.len());
    for (slot, t) in slots.iter().zip(types.iter()) {
        assert!(slot.item.is_none());
        assert_eq!(slot.primary, *t);
    }
}

#[test]
fn preset_slots_are_the_worn_slots_but_the_head_artifact() {
    let preset = EquipmentSlot::equipment_preset_slots();
    assert_eq!(preset.len(), 11);
    assert_eq!(preset[0], EquipmentSlotType::MainHand);
    assert_eq!(preset[2], EquipmentSlotType::TorsoArtifact);
    assert_eq!(preset[10], EquipmentSlotType::FeetClothing);
    assert!(!preset.contains(&EquipmentSlotType::HeadArtifact));
    assert!(!preset.contains(&EquipmentSlotType::ForestryCharm));
}

#[test]
fn charms_and_instruments_per_skill() {
    assert_eq!(EquipmentSlot::charm_for_skill(SkillType::Forestry), Some(EquipmentSlotType::ForestryCharm));
    assert_eq!(EquipmentSlot::charm_for_skill(SkillType::Scholar), Some(EquipmentSlotType::ScholarCharm));
    assert_eq!(EquipmentSlot::instrument_for_skill(SkillType::Fishing), Some(EquipmentSlotType::FishingInstrument));
    assert_eq!(EquipmentSlot::charm_for_skill(SkillType::Cooking), None);
    assert_eq!(EquipmentSlot::instrument_for_skill(SkillType::Sailing), None);
    assert_eq!(EquipmentSlot::charm_for_skill(SkillType::NoSkill), None);
}

#[test]
fn padding_extends_short_lists_with_default_slots() {
    let mut slots = vec![EquipmentSlot { item: Some(stack(7)), primary: EquipmentSlotType::MainHand }];
    let changed = pad_equipment_slots(&mut slots);
    assert!(changed);
    assert_eq!(slots.len(), EQUIPMENT_SLOT_COUNT);
    assert_eq!(slots[0].item_id(), 7);
    let defaults = EquipmentSlot::default_equipment_slots();
    assert_eq!(slots[1..], defaults[1..]);
    let again = pad_equipment_slots(&mut slots);
    assert!(!again);
    assert_eq!(slots.len(), EQUIPMENT_SLOT_COUNT);
}

#[test]
fn missing_slot_types_are_added_once() {
    let mut slots = vec![
        EquipmentSlot { item: None, primary: EquipmentSlotType::MainHand },
        EquipmentSlot { item: Some(stack(3)), primary: EquipmentSlotType::OffHand },
    ];
    let added = add_missing_equipment_slot_types(&mut slots);
    assert_eq!(added, EQUIPMENT_SLOT_COUNT - 2);
    assert_eq!(slots.len(), EQUIPMENT_SLOT_COUNT);
    for t in EquipmentSlot::all_equipment_slots() {
        assert!(contains_slot_type(&slots, t));
    }
    assert_eq!(slots[1].item_id(), 3);
    let added_again = add_missing_equipment_slot_types(&mut slots);
    assert_eq!(added_again, 0);
    assert_eq!(slots.len(), EQUIPMENT_SLOT_COUNT);
}

#[test]
fn equipped_ids_count_primary_slots_then_toolbelt() {
    let mut slots = EquipmentSlot::default_equipment_slots();
    slots[0].item = Some(stack(10));
    slots[1] = EquipmentSlot { item: Some(stack(11)), primary: EquipmentSlotType::MainHand };
    slots[2].item = Some(stack(12));
    let ids = equipped_item_ids(&slots, &vec![20, 21]);
    assert_eq!(ids, vec![10, 12, 20, 21]);
}

#[test]
fn active_preset_replaces_only_preset_slots() {
    let mut own = EquipmentSlot::default_equipment_slots();
    own[0].item = Some(stack(1));
    own[12].item = Some(stack(2));
    let mut preset_slots = EquipmentSlot::default_equipment_slots();
    preset_slots[0].item = Some(stack(100));
    preset_slots[12].item = Some(stack(200));
    let state = EquipmentState { entity_id: 1, equipment_slots: own };
    let preset = EquipmentPresetState { entity_id: 2, player_entity_id: 1, index: 1, active: true, equipment_slots: preset_slots };
    let slots = state.effective_equipment_slots(Some(&preset));
    assert_eq!(slots[0].item_id(), 100);
    assert_eq!(slots[12].item_id(), 2);
    let without = state.effective_equipment_slots(None);
    assert_eq!(without[0].item_id(), 1);
}

#[test]
fn knowledge_unlocking_a_preset_creates_it() {
    let mut ids = EntityIdAllocator { next_entity_id: 500 };
    let preset = EquipmentPresetState::on_knowledge_acquired(true, 9, 2, &mut ids).unwrap();
    assert_eq!(preset.entity_id, 500);
    assert_eq!(preset.player_entity_id, 9);
    assert_eq!(preset.index, 3);
    assert!(!preset.active);
    assert_eq!(preset.equipment_slots, EquipmentSlot::default_equipment_slots());
    assert_eq!(ids.next_entity_id, 501);
    let none = EquipmentPresetState::on_knowledge_acquired(false, 9, 2, &mut ids);
    assert!(none.is_none());
    assert_eq!(ids.next_entity_id, 501);
}

#[test]
fn missing_slot_migration_keeps_the_slots_in_order() {
    let unassigned = EquipmentSlot { item: None, primary: EquipmentSlotType::Unassigned };
    let held = EquipmentSlot { item: Some(stack(7)), primary: EquipmentSlotType::Unassigned };
    let off = EquipmentSlot { item: Some(stack(3)), primary: EquipmentSlotType::OffHand };
    let main = EquipmentSlot { item: Some(stack(4)), primary: EquipmentSlotType::MainHand };
    let mut slots = vec![unassigned.clone(), off.clone(), held.clone(), main.clone()];
    add_missing_equipment_slot_types(&mut slots);
    let kept: Vec<EquipmentSlot> = slots
        .iter()
        .filter(|s| !(s.primary == EquipmentSlotType::Unassigned && s.item.is_none()))
        .filter(|s| [EquipmentSlotType::Unassigned, EquipmentSlotType::OffHand, EquipmentSlotType::MainHand].contains(&s.primary))
        .cloned()
        .collect();
    assert_eq!(kept, vec![off, held, main]);
}

#[test]
fn instrument_slot_follows_charm_slot_in_the_layout() {
    let layout = EquipmentSlot::all_equipment_slots();
    let charm = EquipmentSlot::charm_for_skill(SkillType::Mining).unwrap();
    let at = layout.iter().position(|t| *t == charm).unwrap();
    assert_eq!(Some(layout[at + 1]), EquipmentSlot::instrument_for_skill(SkillType::Mining));
    assert_eq!(EquipmentSlot::instrument_for_skill(SkillType::Mining), Some(EquipmentSlotType::MiningInstrument));
}

#[test]
fn missing_slot_migration_adds_one_per_missing_type() {
    let mut slots = vec![EquipmentSlot { item: None, primary: EquipmentSlotType::ScholarCharm }];
    let missing = EquipmentSlot::all_equipment_slots().into_iter().filter(|t| !contains_slot_type(&slots, *t)).count();
    assert_eq!(add_missing_equipment_slot_types(&mut slots), missing);
    assert_eq!(add_missing_equipment_slot_types(&mut slots), 0);
}
