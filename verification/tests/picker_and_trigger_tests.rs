use ui_builder::preview::{apply_date_picker_selection, format_date_picker_button_label, year_first_date, DateSelection, PickerDate};
use ui_builder::widgets::{DatePickerSelectionMode, Widget, WidgetProperties, WidgetType};

fn date(year: i32, month: u32, day: u32) -> PickerDate {
    PickerDate { year, month, day }
}

#[test]
fn button_label_shows_a_single_date_month_first() {
    let sel = DateSelection::Single(Some(date(2024, 3, 7)));
    assert_eq!(format_date_picker_button_label(&sel, 0, 0, "Pick a date", false), "03/07/2024");
}

#[test]
fn button_label_appends_the_time_when_shown() {
    let sel = DateSelection::Single(Some(date(2024, 12, 25)));
    assert_eq!(format_date_picker_button_label(&sel, 13, 5, "Pick", true), "12/25/2024 01:05 PM");
}

#[test]
fn button_label_shows_ranges_and_open_ranges() {
    let full = DateSelection::Range { start: Some(date(2023, 1, 2)), end: Some(date(2023, 1, 9)) };
    assert_eq!(format_date_picker_button_label(&full, 0, 0, "Pick", false), "01/02/2023 -> 01/09/2023");
    let open = DateSelection::Range { start: Some(date(2023, 1, 2)), end: None };
    assert_eq!(format_date_picker_button_label(&open, 0, 30, "Pick", true), "01/02/2023 -> ... 12:30 AM");
}

#[test]
fn button_label_falls_back_to_the_placeholder() {
    assert_eq!(format_date_picker_button_label(&DateSelection::Single(None), 9, 0, "Pick a date", true), "Pick a date");
    let end_only = DateSelection::Range { start: None, end: Some(date(2023, 1, 9)) };
    assert_eq!(format_date_picker_button_label(&end_only, 9, 0, "Pick a date", false), "Pick a date");
}

#[test]
fn years_are_padded_to_four_digits_and_signed_outside_the_common_range() {
    assert_eq!(year_first_date(date(987, 6, 5)), "0987-06-05");
    assert_eq!(year_first_date(date(-44, 3, 15)), "-0044-03-15");
    assert_eq!(year_first_date(date(12345, 1, 1)), "+12345-01-01");
}

#[test]
fn applying_a_range_stores_both_ends_and_clears_the_single_date() {
    let mut w = Widget { id: 4, widget_type: WidgetType::DatePicker, depth: 1, properties: WidgetProperties::new() };
    w.properties.date_picker_initial_single_date = "2020-01-01".to_string();
    let sel = DateSelection::Range { start: Some(date(2024, 2, 29)), end: None };
    apply_date_picker_selection(&mut w, &sel);
    assert_eq!(w.properties.date_picker_mode, DatePickerSelectionMode::Range);
    assert_eq!(w.properties.date_picker_initial_single_date, "");
    assert_eq!(w.properties.date_picker_initial_range_start, "2024-02-29");
    assert_eq!(w.properties.date_picker_initial_range_end, "");
    assert_eq!(w.id, 4);
}

#[test]
fn applying_a_single_date_switches_back_to_single_mode() {
    let mut w = Widget { id: 4, widget_type: WidgetType::DatePicker, depth: 1, properties: WidgetProperties::new() };
    w.properties.date_picker_mode = DatePickerSelectionMode::Range;
    w.properties.date_picker_initial_range_start = "2024-01-01".to_string();
    w.properties.date_picker_initial_range_end = "2024-01-31".to_string();
    apply_date_picker_selection(&mut w, &DateSelection::Single(Some(date(2024, 7, 4))));
    assert_eq!(w.properties.date_picker_mode, DatePickerSelectionMode::Single);
    assert_eq!(w.properties.date_picker_initial_single_date, "2024-07-04");
    assert_eq!(w.properties.date_picker_initial_range_start, "");
    assert_eq!(w.properties.date_picker_initial_range_end, "");
}

use ui_builder::action_editor::{get_flow_trigger_info, AppFlow, FlowTrigger};

#[test]
fn trigger_info_copies_the_selected_flows_trigger() {
    let flows = vec![
        AppFlow::with_id(1, "a".to_string(), FlowTrigger::Callable),
        AppFlow::with_id(2, "b".to_string(), FlowTrigger::KeyCombo { key: "S".to_string(), ctrl: true, shift: false, alt: false }),
    ];
    match get_flow_trigger_info(&flows, Some(2)) {
        Some((id, FlowTrigger::KeyCombo { key, ctrl, shift, alt })) => {
            assert_eq!(id, 2);
            assert_eq!(key, "S");
            assert!(ctrl && !shift && !alt);
        }
        other => panic!("unexpected {:?}", other),
    }
    assert!(get_flow_trigger_info(&flows, Some(3)).is_none());
    assert!(get_flow_trigger_info(&flows, None).is_none());
}
