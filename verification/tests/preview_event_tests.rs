use ui_builder::action_editor::{AppFlow, FlowTrigger, WidgetEventRow};
use ui_builder::add_views::{AppView, ViewMap};
use ui_builder::preview::{date_picker_is_open, generic_overlay_is_open, DateSelection, PickerDate};
use ui_builder::preview_events::{preview_update, PreviewAction, PreviewEvent, PropertyEdit};
use ui_builder::values::ActionValue;
use ui_builder::widgets::{Widget, WidgetProperties, WidgetType};

fn views_with_widgets() -> ViewMap {
    let mut v = AppView::with_id(8, "Main".to_string(), 0);
    v.hierarchy.widgets.push(Widget { id: 1, widget_type: WidgetType::GenericOverlay, depth: 1, properties: WidgetProperties::new() });
    v.hierarchy.widgets.push(Widget { id: 2, widget_type: WidgetType::DatePicker, depth: 1, properties: WidgetProperties::new() });
    v.hierarchy.widgets.push(Widget { id: 5, widget_type: WidgetType::TextInput, depth: 1, properties: WidgetProperties::new() });
    v.hierarchy.next_id = 6;
    let mut views = ViewMap::new();
    views.insert(v);
    views
}

fn flow_on(event: &str, view_id: u128, widget_id: u64, enabled: bool) -> AppFlow {
    let row = WidgetEventRow { id: 70, event_type: event.to_string(), target: Some((view_id, widget_id)) };
    let mut f = AppFlow::with_id(60, "f".to_string(), FlowTrigger::WidgetEvent { rows: vec![row] });
    f.enabled = enabled;
    f
}

#[test]
fn text_input_with_a_flow_runs_it_with_the_text() {
    let mut views = views_with_widgets();
    let flows = vec![flow_on("on_input", 8, 5, true)];
    match preview_update(&flows, &mut views, Some(8), PreviewEvent::TextInputChanged(5, "hi".to_string())) {
        PreviewAction::RunFlows { view_id, widget_id, event, payload } => {
            assert_eq!((view_id, widget_id), (8, 5));
            assert_eq!(event, "on_input");
            assert_eq!(payload.len(), 1);
            assert_eq!(payload[0].0, "text");
            assert!(matches!(&payload[0].1, ActionValue::String(s) if s == "hi"));
        }
        other => panic!("unexpected {:?}", other),
    }
}

#[test]
fn text_input_without_an_enabled_flow_becomes_a_property_edit() {
    let mut views = views_with_widgets();
    let flows = vec![flow_on("on_input", 8, 5, false), flow_on("on_submit", 8, 5, true)];
    match preview_update(&flows, &mut views, Some(8), PreviewEvent::TextInputChanged(5, "hi".to_string())) {
        PreviewAction::SetProperty { view_id: 8, widget_id: 5, edit: PropertyEdit::TextInputValue(v) } => assert_eq!(v, "hi"),
        other => panic!("unexpected {:?}", other),
    }
    assert!(matches!(
        preview_update(&flows, &mut views, Some(9), PreviewEvent::CheckboxToggled(5, true)),
        PreviewAction::Nothing
    ));
    assert!(matches!(
        preview_update(&flows, &mut views, None, PreviewEvent::CheckboxToggled(5, true)),
        PreviewAction::Nothing
    ));
}

#[test]
fn submit_and_button_press_only_start_flows() {
    let mut views = views_with_widgets();
    let flows = vec![flow_on("on_submit", 8, 5, true)];
    assert!(matches!(
        preview_update(&flows, &mut views, Some(8), PreviewEvent::Submitted(5)),
        PreviewAction::RunFlows { ref payload, .. } if payload.is_empty()
    ));
    assert!(matches!(preview_update(&flows, &mut views, Some(8), PreviewEvent::ButtonPressed(5)), PreviewAction::Nothing));
}

#[test]
fn slider_and_radio_hand_over_their_numbers() {
    let mut views = views_with_widgets();
    let flows = vec![flow_on("on_change", 8, 5, true)];
    let half = 0.5f32;
    match preview_update(&flows, &mut views, Some(8), PreviewEvent::SliderChanged(5, half.to_bits(), (half as f64).to_bits())) {
        PreviewAction::RunFlows { event, payload, .. } => {
            assert_eq!(event, "on_change");
            assert_eq!(payload[0].0, "value");
            assert!(matches!(payload[0].1, ActionValue::Number(b) if f64::from_bits(b) == 0.5));
        }
        other => panic!("unexpected {:?}", other),
    }
    assert!(matches!(
        preview_update(&flows, &mut views, Some(8), PreviewEvent::RadioSelected(5, 2, 2.0f64.to_bits())),
        PreviewAction::SetProperty { edit: PropertyEdit::RadioSelectedIndex(2), .. }
    ));
}

#[test]
fn overlay_toggles_are_remembered_and_read_back() {
    let mut views = views_with_widgets();
    let flows: Vec<AppFlow> = Vec::new();
    assert!(!generic_overlay_is_open(Some(8), &views, 1));
    preview_update(&flows, &mut views, Some(8), PreviewEvent::GenericOverlayToggled(1, true));
    assert!(generic_overlay_is_open(Some(8), &views, 1));
    preview_update(&flows, &mut views, Some(8), PreviewEvent::GenericOverlayToggled(1, false));
    assert!(!generic_overlay_is_open(Some(8), &views, 1));
    assert_eq!(views.get(8).unwrap().custom_state_values.len(), 1);
}

#[test]
fn date_pickers_open_close_and_store_picks() {
    let mut views = views_with_widgets();
    let flows: Vec<AppFlow> = Vec::new();
    preview_update(&flows, &mut views, Some(8), PreviewEvent::DatePickerOpenRequested(2));
    assert!(date_picker_is_open(Some(8), &views, 2));
    let sel = DateSelection::Single(Some(PickerDate { year: 2024, month: 5, day: 6 }));
    preview_update(&flows, &mut views, Some(8), PreviewEvent::DatePickerChangedWithTime(2, sel, 14, 70));
    let w = &views.get(8).unwrap().hierarchy.widgets[2];
    assert_eq!(w.properties.date_picker_initial_single_date, "2024-05-06");
    assert_eq!((w.properties.date_picker_initial_hour, w.properties.date_picker_initial_minute), (14, 59));
    preview_update(&flows, &mut views, Some(8), PreviewEvent::DatePickerClosed(2));
    assert!(!date_picker_is_open(Some(8), &views, 2));
}

use ui_builder::preview_events::{size_after_orientation, AxisSize, Orientation};

#[test]
fn a_space_fills_along_its_orientation() {
    assert_eq!(size_after_orientation(WidgetType::Space, Orientation::Horizontal), Some((AxisSize::Fill, AxisSize::Shrink)));
    assert_eq!(size_after_orientation(WidgetType::Space, Orientation::Vertical), Some((AxisSize::Shrink, AxisSize::Fill)));
    assert_eq!(size_after_orientation(WidgetType::TextInput, Orientation::Vertical), None);
}
