use ui_builder::view_settings::{auto_state_base_name, collect_stateful_widgets, stateful_widget_type_label};
use ui_builder::widgets::{Widget, WidgetProperties, WidgetType};

fn widget(id: u64, widget_type: WidgetType, depth: usize) -> Widget {
    Widget { id, widget_type, depth, properties: WidgetProperties::new() }
}

#[test]
fn collect_stateful_widgets_matches_codegen_style_names() {
    let root = widget(1, WidgetType::Column, 0);
    let first = widget(2, WidgetType::TextInput, 1);
    let mut second = widget(3, WidgetType::TextInput, 1);
    second.properties.widget_name = "Search Box".to_string();
    let ws = vec![root, first, second];

    let rows = collect_stateful_widgets(&ws);

    assert_eq!(rows.len(), 2);
    assert_eq!(rows[0].generated_name, "text_input");
    assert_eq!(rows[1].generated_name, "search_box");
}

#[test]
fn collect_stateful_widgets_includes_generic_overlay_open_state() {
    let ws = vec![widget(1, WidgetType::Column, 0), widget(2, WidgetType::GenericOverlay, 1)];

    let rows = collect_stateful_widgets(&ws);

    assert_eq!(rows.len(), 1);
    assert_eq!(rows[0].generated_name, "genericoverlay");
    assert_eq!(rows[0].type_label, "bool");
}

#[test]
fn collect_stateful_widgets_includes_date_picker_open_state() {
    let ws = vec![widget(1, WidgetType::Column, 0), widget(2, WidgetType::DatePicker, 1)];

    let rows = collect_stateful_widgets(&ws);

    assert_eq!(rows.len(), 1);
    assert_eq!(rows[0].generated_name, "date_picker");
    assert_eq!(rows[0].type_label, "bool");
}

#[test]
fn unnamed_widgets_of_a_type_are_numbered_from_the_second() {
    let mut named = widget(4, WidgetType::Slider, 1);
    named.properties.widget_name = "  Volume Level ".to_string();
    let ws = vec![
        widget(1, WidgetType::Row, 0),
        widget(2, WidgetType::Slider, 1),
        widget(3, WidgetType::Checkbox, 1),
        named,
        widget(5, WidgetType::Slider, 1),
        widget(6, WidgetType::Slider, 1),
        widget(7, WidgetType::Text, 1),
    ];
    let rows = collect_stateful_widgets(&ws);
    let names: Vec<&str> = rows.iter().map(|r| r.generated_name.as_str()).collect();
    assert_eq!(names, vec!["slider", "checkbox", "volume_level", "slider_2", "slider_3"]);
    let labels: Vec<&str> = rows.iter().map(|r| r.type_label).collect();
    assert_eq!(labels, vec!["f32", "bool", "f32", "f32", "f32"]);
    let ids: Vec<u64> = rows.iter().map(|r| r.widget_id).collect();
    assert_eq!(ids, vec![2, 3, 4, 5, 6]);
}

#[test]
fn type_labels_and_base_names() {
    assert_eq!(stateful_widget_type_label(WidgetType::PickList), Some("Option<String>"));
    assert_eq!(stateful_widget_type_label(WidgetType::Radio), Some("usize"));
    assert_eq!(stateful_widget_type_label(WidgetType::Button), None);
    assert_eq!(auto_state_base_name(&widget(1, WidgetType::VerticalSlider, 0)), Some("vertical_slider".to_string()));
    assert_eq!(auto_state_base_name(&widget(1, WidgetType::Button, 0)), None);
    let mut named = widget(1, WidgetType::Toggler, 0);
    named.properties.widget_name = "Dark Mode".to_string();
    assert_eq!(auto_state_base_name(&named), Some("dark_mode".to_string()));
}
