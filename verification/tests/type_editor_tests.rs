use std::collections::HashMap;
use ui_builder::type_editors::{EnumEditorState, EnumEditorView, StructEditorState, StructEditorView};
use ui_builder::type_system::{EnumDef, FieldType, StructDef, TypeSystem, VariantDef};

fn types() -> TypeSystem {
    TypeSystem {
        enums: vec![EnumDef {
            id: 10,
            name: "Mode".to_string(),
            variants: vec![
                VariantDef { id: 11, name: "Light".to_string() },
                VariantDef { id: 12, name: "Dark".to_string() },
            ],
        }],
        structs: vec![
            StructDef { id: 1, name: "User".to_string() },
            StructDef { id: 2, name: "Order".to_string() },
        ],
    }
}

#[test]
fn struct_sync_drops_removed_adds_new_and_renames_collapsed() {
    let ts = types();
    let mut view = StructEditorView::new();
    view.editor_states.push(StructEditorState::new(9, "Gone".to_string()));
    let mut expanded = StructEditorState::new(2, "Draft".to_string());
    expanded.is_expanded = true;
    view.editor_states.push(expanded);
    view.editor_states.push(StructEditorState::new(1, "Old".to_string()));
    view.sync_with_type_system(&ts);
    let ids: Vec<u128> = view.editor_states.iter().map(|s| s.struct_id).collect();
    assert_eq!(ids, vec![2, 1]);
    assert_eq!(view.editor_states[0].name_input, "Draft");
    assert_eq!(view.editor_states[1].name_input, "User");
}

#[test]
fn struct_sync_on_empty_panel_adds_every_struct_in_order() {
    let ts = types();
    let mut view = StructEditorView::new();
    view.sync_with_type_system(&ts);
    let names: Vec<String> = view.editor_states.iter().map(|s| s.name_input.clone()).collect();
    assert_eq!(names, vec!["User".to_string(), "Order".to_string()]);
    assert!(view.editor_states.iter().all(|s| !s.is_expanded && s.new_field_type == FieldType::String));
}

#[test]
fn enum_sync_keeps_pending_fields_of_existing_variants_only() {
    let ts = types();
    let mut view = EnumEditorView::new();
    let mut st = EnumEditorState::new(10, "Old".to_string());
    let mut names = HashMap::new();
    names.insert(11u128, "brightness".to_string());
    names.insert(99u128, "stale".to_string());
    st.new_variant_field_names = names;
    let mut kinds = HashMap::new();
    kinds.insert(11u128, FieldType::U32);
    st.new_variant_field_types = kinds;
    view.editor_states.push(st);
    view.editor_states.push(EnumEditorState::new(77, "Removed".to_string()));
    view.sync_with_type_system(&ts);
    assert_eq!(view.editor_states.len(), 1);
    let s = &view.editor_states[0];
    assert_eq!(s.name_input, "Mode");
    assert_eq!(s.new_variant_field_names.len(), 2);
    assert_eq!(s.new_variant_field_names.get(&11), Some(&"brightness".to_string()));
    assert_eq!(s.new_variant_field_names.get(&12), Some(&String::new()));
    assert_eq!(s.new_variant_field_names.get(&99), None);
    assert_eq!(s.new_variant_field_types.get(&11), Some(&FieldType::U32));
    assert_eq!(s.new_variant_field_types.get(&12), Some(&FieldType::String));
}

#[test]
fn enum_sync_leaves_an_expanded_name_alone() {
    let ts = types();
    let mut view = EnumEditorView::new();
    let mut st = EnumEditorState::new(10, "Typing".to_string());
    st.is_expanded = true;
    view.editor_states.push(st);
    view.sync_with_type_system(&ts);
    assert_eq!(view.editor_states[0].name_input, "Typing");
    assert_eq!(view.editor_states[0].new_variant_field_names.len(), 2);
}

use ui_builder::type_editors::{field_type_options, FieldTypeOption};

fn two_enums() -> TypeSystem {
    let mut ts = types();
    ts.enums.push(EnumDef { id: 20, name: "Size".to_string(), variants: vec![] });
    ts
}

#[test]
fn field_type_labels_name_custom_types_and_flag_unknown_ones() {
    let ts = types();
    assert_eq!(FieldTypeOption::from_field_type(&FieldType::CustomEnum(10), &ts).label, "Mode (enum)");
    assert_eq!(FieldTypeOption::from_field_type(&FieldType::CustomStruct(2), &ts).label, "Order (struct)");
    assert_eq!(FieldTypeOption::from_field_type(&FieldType::CustomEnum(3), &ts).label, "Unknown (enum)");
    assert_eq!(FieldTypeOption::from_field_type(&FieldType::U64, &ts).label, "u64");
}

#[test]
fn payload_type_options_leave_out_the_owning_enum() {
    let ts = two_enums();
    let opts = field_type_options(&ts, 10, None);
    let types: Vec<FieldType> = opts.iter().map(|o| o.field_type).collect();
    assert_eq!(types.len(), 9 + 1 + 2);
    assert_eq!(types[0], FieldType::String);
    assert_eq!(types[8], FieldType::Bool);
    assert_eq!(types[9], FieldType::CustomEnum(20));
    assert_eq!(&types[10..], &[FieldType::CustomStruct(1), FieldType::CustomStruct(2)]);
}

#[test]
fn payload_type_options_keep_a_selected_owning_enum_and_append_an_unknown_selection() {
    let ts = two_enums();
    let opts = field_type_options(&ts, 10, Some(FieldType::CustomEnum(10)));
    let types: Vec<FieldType> = opts.iter().map(|o| o.field_type).collect();
    assert_eq!(types[9], FieldType::CustomEnum(10));
    assert_eq!(types.len(), 13);
    let opts = field_type_options(&ts, 10, Some(FieldType::CustomStruct(99)));
    assert_eq!(opts.len(), 13);
    assert_eq!(opts[12].field_type, FieldType::CustomStruct(99));
    assert_eq!(opts[12].label, "Unknown (struct)");
    let opts = field_type_options(&ts, 10, Some(FieldType::I32));
    assert_eq!(opts.len(), 12);
}

#[test]
fn syncing_twice_is_the_same_as_syncing_once() {
    let ts = types();
    let mut view = EnumEditorView::new();
    let mut st = EnumEditorState::new(10, "Old".to_string());
    st.new_variant_field_names.insert(11, "x".to_string());
    view.editor_states.push(st);
    view.sync_with_type_system(&ts);
    let once: Vec<(u128, String, usize)> = view
        .editor_states
        .iter()
        .map(|s| (s.enum_id, s.name_input.clone(), s.new_variant_field_names.len()))
        .collect();
    view.sync_with_type_system(&ts);
    let twice: Vec<(u128, String, usize)> = view
        .editor_states
        .iter()
        .map(|s| (s.enum_id, s.name_input.clone(), s.new_variant_field_names.len()))
        .collect();
    assert_eq!(once, twice);
    assert_eq!(view.editor_states[0].new_variant_field_names.get(&11), Some(&"x".to_string()));

    let mut structs = StructEditorView::new();
    structs.sync_with_type_system(&ts);
    let first: Vec<(u128, String)> = structs.editor_states.iter().map(|s| (s.struct_id, s.name_input.clone())).collect();
    structs.sync_with_type_system(&ts);
    let second: Vec<(u128, String)> = structs.editor_states.iter().map(|s| (s.struct_id, s.name_input.clone())).collect();
    assert_eq!(first, second);
}

use ui_builder::type_panels::{new_enum_name, new_struct_name, EnumPanelEvent, StructPanelEvent};

#[test]
fn new_type_names_count_from_one_past_the_existing_ones() {
    assert_eq!(new_enum_name(0), "NewEnum1");
    assert_eq!(new_enum_name(4), "NewEnum5");
    assert_eq!(new_struct_name(1), "NewStruct2");
}

#[test]
fn created_enum_is_synced_in_and_expanded() {
    let ts = types();
    let mut view = EnumEditorView::new();
    view.update(EnumPanelEvent::Created(Ok(10)), &ts);
    assert_eq!(view.editor_states.len(), 1);
    assert!(view.editor_states[0].is_expanded);
    view.update(EnumPanelEvent::Created(Err("taken".to_string())), &ts);
    assert_eq!(view.editor_states.len(), 1);
}

#[test]
fn enum_panel_edits_clear_errors_and_refusals_show_them() {
    let ts = types();
    let mut view = EnumEditorView::new();
    view.sync_with_type_system(&ts);
    view.update(EnumPanelEvent::Renamed(10, Err("name taken".to_string())), &ts);
    assert_eq!(view.editor_states[0].validation_error, Some("name taken".to_string()));
    view.update(EnumPanelEvent::NewVariantInputChanged(10, "Dim".to_string()), &ts);
    assert_eq!(view.editor_states[0].new_variant_input, "Dim");
    assert_eq!(view.editor_states[0].validation_error, None);
    view.update(EnumPanelEvent::ToggleExpanded(10), &ts);
    assert!(view.editor_states[0].is_expanded);
    view.update(EnumPanelEvent::Renamed(10, Ok(())), &ts);
    assert!(!view.editor_states[0].is_expanded);
    view.update(EnumPanelEvent::FieldNameInputChanged(10, 11, "level".to_string()), &ts);
    view.update(EnumPanelEvent::FieldTypeChanged(10, 11, FieldType::U32), &ts);
    assert_eq!(view.editor_states[0].new_variant_field_names.get(&11), Some(&"level".to_string()));
    view.update(EnumPanelEvent::VariantFieldAdded(10, 11, Ok(())), &ts);
    assert_eq!(view.editor_states[0].new_variant_field_names.get(&11), Some(&String::new()));
    assert_eq!(view.editor_states[0].new_variant_field_types.get(&11), Some(&FieldType::String));
    view.update(EnumPanelEvent::VariantAdded(10, Ok(())), &ts);
    assert_eq!(view.editor_states[0].new_variant_input, "");
    assert_eq!(view.name_to_save(10), Some("Mode".to_string()));
    assert_eq!(view.name_to_save(3), None);
}

#[test]
fn struct_panel_saves_collapse_and_added_fields_reset_the_inputs() {
    let ts = types();
    let mut view = StructEditorView::new();
    view.update(StructPanelEvent::Created(Ok(2)), &ts);
    assert!(view.editor_states[1].is_expanded);
    view.update(StructPanelEvent::NewFieldNameInputChanged(2, "total".to_string()), &ts);
    view.update(StructPanelEvent::NewFieldTypeChanged(2, FieldType::F64), &ts);
    view.update(StructPanelEvent::FieldAdded(2, Err("duplicate".to_string())), &ts);
    assert_eq!(view.editor_states[1].validation_error, Some("duplicate".to_string()));
    view.update(StructPanelEvent::NewFieldTypeChanged(2, FieldType::F64), &ts);
    assert_eq!(view.editor_states[1].validation_error, Some("duplicate".to_string()));
    view.update(StructPanelEvent::FieldAdded(2, Ok(())), &ts);
    assert_eq!(view.editor_states[1].new_field_name_input, "");
    assert_eq!(view.editor_states[1].new_field_type, FieldType::String);
    assert_eq!(view.editor_states[1].validation_error, None);
    view.update(StructPanelEvent::Saved(2, Ok(())), &ts);
    assert!(!view.editor_states[1].is_expanded);
    view.update(StructPanelEvent::FieldEdited(1, Err("bad".to_string())), &ts);
    assert_eq!(view.editor_states[0].validation_error, Some("bad".to_string()));
    view.update(StructPanelEvent::FieldEdited(1, Ok(())), &ts);
    assert_eq!(view.editor_states[0].validation_error, Some("bad".to_string()));
}
