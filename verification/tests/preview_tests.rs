use ui_builder::add_views::{AppView, StateEntry, StateKey, ViewMap};
use ui_builder::preview::{
    apply_date_picker_time, date_picker_is_open, format_date_picker_time, generic_overlay_is_open,
    resolve_view_reference_target_view_id, resolve_with_canonical,
};
use ui_builder::values::ActionValue;
use ui_builder::widgets::{Widget, WidgetProperties, WidgetType};

fn view_reference_widget(widget_id: u64, widget_name: &str, primary_view_id: u128, extra_view_ids: Vec<u128>) -> Widget {
    let mut properties = WidgetProperties::new();
    properties.widget_name = widget_name.to_string();
    properties.referenced_view_id = Some(primary_view_id);
    properties.extra_view_ids = extra_view_ids;
    Widget { id: widget_id, widget_type: WidgetType::ViewReference, depth: 0, properties }
}

#[test]
fn resolve_view_reference_target_uses_selection_state_when_present() {
    let owner_id = uuid::Uuid::new_v4().as_u128();
    let primary_id = uuid::Uuid::new_v4().as_u128();
    let secondary_id = uuid::Uuid::new_v4().as_u128();
    let mut owner = AppView::with_id(owner_id, "Owner".to_string(), 0);
    let primary = AppView::with_id(primary_id, "Primary".to_string(), 1);
    let secondary = AppView::with_id(secondary_id, "Secondary".to_string(), 2);
    let widget = view_reference_widget(9, "nav", primary_id, vec![secondary_id]);

    owner.custom_state_values.push(StateEntry {
        key: StateKey::ViewSelection { view_id: owner_id, field_name: "nav_selection".to_string() },
        value: ActionValue::EnumVariant {
            enum_name: "NavSelection".to_string(),
            variant: "Secondary".to_string(),
        },
    });

    let mut views = ViewMap::new();
    views.insert(owner);
    views.insert(primary);
    views.insert(secondary);
    let resolved = resolve_view_reference_target_view_id(&widget, Some(owner_id), &views);
    assert_eq!(resolved, Some(secondary_id));
}

#[test]
fn resolve_view_reference_target_defaults_to_primary_without_selection_state() {
    let owner_id = uuid::Uuid::new_v4().as_u128();
    let primary_id = uuid::Uuid::new_v4().as_u128();
    let secondary_id = uuid::Uuid::new_v4().as_u128();
    let owner = AppView::with_id(owner_id, "Owner".to_string(), 0);
    let primary = AppView::with_id(primary_id, "Primary".to_string(), 1);
    let secondary = AppView::with_id(secondary_id, "Secondary".to_string(), 2);
    let widget = view_reference_widget(11, "nav", primary_id, vec![secondary_id]);

    let mut views = ViewMap::new();
    views.insert(owner);
    views.insert(primary);
    views.insert(secondary);
    let resolved = resolve_view_reference_target_view_id(&widget, Some(owner_id), &views);
    assert_eq!(resolved, Some(primary_id));
}

#[test]
fn resolve_view_reference_target_prefers_canonical_widget_identity_state() {
    let owner_id = uuid::Uuid::new_v4().as_u128();
    let primary_id = uuid::Uuid::new_v4().as_u128();
    let secondary_id = uuid::Uuid::new_v4().as_u128();
    let mut owner = AppView::with_id(owner_id, "Owner".to_string(), 0);
    let primary = AppView::with_id(primary_id, "Primary".to_string(), 1);
    let secondary = AppView::with_id(secondary_id, "Renamed Secondary".to_string(), 2);
    let widget = view_reference_widget(42, "nav", primary_id, vec![secondary_id]);

    // Legacy selection points to primary, but canonical target should win.
    owner.custom_state_values.push(StateEntry {
        key: StateKey::ViewSelection { view_id: owner_id, field_name: "nav_selection".to_string() },
        value: ActionValue::EnumVariant {
            enum_name: "NavSelection".to_string(),
            variant: "Primary".to_string(),
        },
    });
    owner.custom_state_values.push(StateEntry {
        key: StateKey::ViewReferenceSelection { view_id: owner_id, widget_id: 42 },
        value: ActionValue::String(uuid::Uuid::from_u128(secondary_id).to_string()),
    });

    let mut views = ViewMap::new();
    views.insert(owner);
    views.insert(primary);
    views.insert(secondary);
    let resolved = resolve_view_reference_target_view_id(&widget, Some(owner_id), &views);
    assert_eq!(resolved, Some(secondary_id));
}

#[test]
fn canonical_selection_outside_the_targets_is_ignored() {
    let mut views = ViewMap::new();
    views.insert(AppView::with_id(1, "Owner".to_string(), 0));
    views.insert(AppView::with_id(2, "Primary".to_string(), 1));
    views.insert(AppView::with_id(3, "Secondary".to_string(), 2));
    let widget = view_reference_widget(4, "", 2, vec![3]);
    assert_eq!(resolve_with_canonical(&widget, Some(1), &views, Some(3)), Some(3));
    assert_eq!(resolve_with_canonical(&widget, Some(1), &views, Some(1)), Some(2));
    assert_eq!(resolve_with_canonical(&widget, None, &views, Some(3)), Some(2));
    let single = view_reference_widget(5, "", 3, vec![]);
    assert_eq!(resolve_with_canonical(&single, Some(1), &views, Some(2)), Some(3));
}

#[test]
fn canonical_text_that_is_not_an_id_falls_back_to_primary() {
    let mut owner = AppView::with_id(1, "Owner".to_string(), 0);
    owner.custom_state_values.push(StateEntry {
        key: StateKey::ViewReferenceSelection { view_id: 1, widget_id: 4 },
        value: ActionValue::String("not an id".to_string()),
    });
    let mut views = ViewMap::new();
    views.insert(owner);
    views.insert(AppView::with_id(2, "Primary".to_string(), 1));
    views.insert(AppView::with_id(3, "Secondary".to_string(), 2));
    let widget = view_reference_widget(4, "", 2, vec![3]);
    assert_eq!(resolve_view_reference_target_view_id(&widget, Some(1), &views), Some(2));
}

#[test]
fn legacy_selection_uses_primary_view_name_when_widget_is_unnamed() {
    let mut owner = AppView::with_id(1, "Owner".to_string(), 0);
    owner.custom_state_values.push(StateEntry {
        key: StateKey::ViewSelection { view_id: 1, field_name: "main_menu_selection".to_string() },
        value: ActionValue::String("SettingsPage".to_string()),
    });
    let mut views = ViewMap::new();
    views.insert(owner);
    views.insert(AppView::with_id(2, " Main Menu ".to_string(), 1));
    views.insert(AppView::with_id(3, "Settings Page".to_string(), 2));
    let widget = view_reference_widget(4, "   ", 2, vec![3]);
    assert_eq!(resolve_view_reference_target_view_id(&widget, Some(1), &views), Some(3));
}

fn view_with_popups(id: u128) -> AppView {
    let mut v = AppView::with_id(id, "Main".to_string(), 0);
    let mut overlay = Widget { id: 1, widget_type: WidgetType::GenericOverlay, depth: 1, properties: WidgetProperties::new() };
    overlay.properties.generic_overlay_initially_open = true;
    let picker = Widget { id: 2, widget_type: WidgetType::DatePicker, depth: 1, properties: WidgetProperties::new() };
    v.hierarchy.widgets.push(overlay);
    v.hierarchy.widgets.push(picker);
    v.hierarchy.next_id = 3;
    v
}

#[test]
fn popups_read_state_then_initial_flag() {
    let mut v = view_with_popups(8);
    v.custom_state_values.push(StateEntry {
        key: StateKey::DatePickerOpen { view_id: 8, widget_id: 2 },
        value: ActionValue::Bool(true),
    });
    let mut views = ViewMap::new();
    views.insert(v);
    assert!(generic_overlay_is_open(Some(8), &views, 1));
    assert!(date_picker_is_open(Some(8), &views, 2));
    assert!(!date_picker_is_open(Some(8), &views, 9));
    assert!(!generic_overlay_is_open(None, &views, 1));
    assert!(!generic_overlay_is_open(Some(7), &views, 1));
}

#[test]
fn overlay_state_overrides_initial_flag() {
    let mut v = view_with_popups(8);
    v.custom_state_values.push(StateEntry {
        key: StateKey::GenericOverlayOpen { view_id: 8, widget_id: 1 },
        value: ActionValue::Bool(false),
    });
    let mut views = ViewMap::new();
    views.insert(v);
    assert!(!generic_overlay_is_open(Some(8), &views, 1));
}

#[test]
fn date_picker_time_label() {
    assert_eq!(format_date_picker_time(0, 5), "12:05 AM");
    assert_eq!(format_date_picker_time(12, 0), "12:00 PM");
    assert_eq!(format_date_picker_time(13, 30), "01:30 PM");
    assert_eq!(format_date_picker_time(9, 45), "09:45 AM");
    assert_eq!(format_date_picker_time(23, 59), "11:59 PM");
}

#[test]
fn date_picker_time_is_capped() {
    let mut w = Widget { id: 1, widget_type: WidgetType::DatePicker, depth: 0, properties: WidgetProperties::new() };
    apply_date_picker_time(&mut w, 30, 75);
    assert_eq!(w.properties.date_picker_initial_hour, 23);
    assert_eq!(w.properties.date_picker_initial_minute, 59);
    apply_date_picker_time(&mut w, 7, 15);
    assert_eq!(w.properties.date_picker_initial_hour, 7);
    assert_eq!(w.properties.date_picker_initial_minute, 15);
}

use ui_builder::add_views::CustomStateField;
use ui_builder::add_views::CustomFieldType;
use ui_builder::preview::{
    selected_widget_style_name, should_use_alternate_style, style_condition_matches, value_matches_expected,
};
use ui_builder::values::ActionValueType;

#[test]
fn expected_values_match_like_generated_code() {
    assert!(value_matches_expected(&ActionValue::Bool(true), " TRUE ", false));
    assert!(!value_matches_expected(&ActionValue::Bool(true), "false", false));
    assert!(value_matches_expected(&ActionValue::Bool(false), "False", false));
    assert!(value_matches_expected(&ActionValue::String("admin".to_string()), "\"admin\"", false));
    assert!(value_matches_expected(&ActionValue::String("admin".to_string()), "admin", false));
    assert!(value_matches_expected(&ActionValue::String("Admin".to_string()), "Role::Admin", false));
    assert!(!value_matches_expected(&ActionValue::String("admin".to_string()), "\"", false));
    let variant = ActionValue::EnumVariant { enum_name: "Role".to_string(), variant: "User".to_string() };
    assert!(value_matches_expected(&variant, "User", false));
    assert!(value_matches_expected(&variant, " Role::User ", false));
    assert!(!value_matches_expected(&variant, "Other::User", false));
    assert!(value_matches_expected(&ActionValue::Number(0), "0", true));
    assert!(!value_matches_expected(&ActionValue::Number(0), "0", false));
}

#[test]
fn alternate_style_follows_its_condition() {
    let mut view = AppView::with_id(1, "Main".to_string(), 0);
    view.custom_state.push(CustomStateField {
        id: 7,
        name: "mode".to_string(),
        display_name: "mode".to_string(),
        field_type: CustomFieldType {
            label: "String".to_string(),
            value_type: ActionValueType::String,
            default_expr: "String::new()".to_string(),
        },
        default_expr: "String::new()".to_string(),
    });
    view.custom_state_values.push(StateEntry { key: StateKey::Custom(7), value: ActionValue::String("dark".to_string()) });
    let mut views = ViewMap::new();
    views.insert(view);

    assert!(style_condition_matches(Some(1), &views, &"mode".to_string(), "dark", false));
    assert!(!style_condition_matches(Some(1), &views, &"mode".to_string(), "light", false));
    assert!(!style_condition_matches(Some(1), &views, &"other".to_string(), "dark", false));

    let mut w = Widget { id: 3, widget_type: WidgetType::Button, depth: 1, properties: WidgetProperties::new() };
    w.properties.custom_style_name = Some("base".to_string());
    assert!(!should_use_alternate_style(&w, Some(1), &views, false));
    w.properties.active_style_name = Some("alt".to_string());
    assert!(should_use_alternate_style(&w, Some(1), &views, false));
    w.properties.style_condition_field = Some(" mode ".to_string());
    assert!(!should_use_alternate_style(&w, Some(1), &views, false));
    w.properties.style_condition_value = Some(" dark ".to_string());
    assert!(should_use_alternate_style(&w, Some(1), &views, false));
    w.properties.style_condition_value = Some("light".to_string());
    assert!(!should_use_alternate_style(&w, Some(1), &views, false));
    w.properties.style_condition_field = Some("  ".to_string());
    assert!(!should_use_alternate_style(&w, Some(1), &views, false));

    assert_eq!(selected_widget_style_name(&w, true), Some("alt".to_string()));
    assert_eq!(selected_widget_style_name(&w, false), Some("base".to_string()));
    w.properties.active_style_name = None;
    assert_eq!(selected_widget_style_name(&w, true), Some("base".to_string()));
    w.properties.custom_style_name = None;
    assert_eq!(selected_widget_style_name(&w, true), None);
}
