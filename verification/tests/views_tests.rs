use ui_builder::add_views::{
    apply_message, ensure_single_main_view, update, AppView, CustomFieldType, Message, ViewMap,
};
use ui_builder::values::ActionValueType;

fn three_views(main_id: u128, secondary_id: u128, tertiary_id: u128) -> ViewMap {
    let mut views = ViewMap::new();
    views.insert(AppView::with_id(main_id, "Main".to_string(), 0));
    views.insert(AppView::with_id(secondary_id, "Second".to_string(), 1));
    views.insert(AppView::with_id(tertiary_id, "Third".to_string(), 2));
    views
}

#[test]
fn removing_main_view_is_ignored() {
    let main_id = uuid::Uuid::new_v4().as_u128();
    let secondary_id = uuid::Uuid::new_v4().as_u128();
    let tertiary_id = uuid::Uuid::new_v4().as_u128();
    let mut views = three_views(main_id, secondary_id, tertiary_id);
    let mut selected_view_id = secondary_id;

    update(&mut views, &mut selected_view_id, Message::RemoveView(main_id));

    assert_eq!(views.len(), 3);
    assert!(views.contains_key(main_id));
    assert_eq!(selected_view_id, secondary_id);
    assert!(views.get(main_id).is_some_and(|view| view.is_main));
    assert!(views.get(secondary_id).is_some_and(|view| !view.is_main));
    assert!(views.get(tertiary_id).is_some_and(|view| !view.is_main));
}

#[test]
fn removing_non_main_view_keeps_main_view() {
    let main_id = uuid::Uuid::new_v4().as_u128();
    let secondary_id = uuid::Uuid::new_v4().as_u128();
    let tertiary_id = uuid::Uuid::new_v4().as_u128();
    let mut views = three_views(main_id, secondary_id, tertiary_id);
    let mut selected_view_id = secondary_id;

    update(&mut views, &mut selected_view_id, Message::RemoveView(secondary_id));

    assert_eq!(views.len(), 2);
    assert!(!views.contains_key(secondary_id));
    assert_eq!(selected_view_id, main_id);
    assert!(views.get(main_id).is_some_and(|view| view.is_main));
    assert!(views.get(tertiary_id).is_some_and(|view| !view.is_main));
}

#[test]
fn views_are_walked_in_id_order() {
    let mut views = ViewMap::new();
    views.insert(AppView::with_id(30, "C".to_string(), 0));
    views.insert(AppView::with_id(10, "A".to_string(), 1));
    views.insert(AppView::with_id(20, "B".to_string(), 2));
    let ids: Vec<u128> = views.as_vec().iter().map(|v| v.id).collect();
    assert_eq!(ids, vec![10, 20, 30]);
    // Inserting under an existing id replaces that view.
    views.insert(AppView::with_id(20, "B2".to_string(), 5));
    assert_eq!(views.len(), 3);
    assert_eq!(views.get(20).map(|v| v.name.clone()), Some("B2".to_string()));
}

#[test]
fn ensure_single_main_keeps_first_main_of_least_order() {
    let mut views = ViewMap::new();
    let mut a = AppView::with_id(1, "A".to_string(), 4);
    a.is_main = true;
    let mut b = AppView::with_id(2, "B".to_string(), 2);
    b.is_main = true;
    let mut c = AppView::with_id(3, "C".to_string(), 2);
    c.is_main = true;
    views.insert(a);
    views.insert(b);
    views.insert(c);
    ensure_single_main_view(&mut views);
    let marks: Vec<bool> = views.as_vec().iter().map(|v| v.is_main).collect();
    assert_eq!(marks, vec![false, true, false]);
}

#[test]
fn ensure_single_main_marks_least_order_when_none_is_main() {
    let mut views = ViewMap::new();
    views.insert(AppView::with_id(1, "A".to_string(), 3));
    views.insert(AppView::with_id(2, "B".to_string(), 1));
    views.insert(AppView::with_id(3, "C".to_string(), 2));
    ensure_single_main_view(&mut views);
    let marks: Vec<bool> = views.as_vec().iter().map(|v| v.is_main).collect();
    assert_eq!(marks, vec![false, true, false]);
}

#[test]
fn add_view_selects_new_view_after_the_others() {
    let mut views = ViewMap::new();
    views.insert(AppView::with_id(5, "Main".to_string(), 0));
    let mut selected = 5u128;
    apply_message(&mut views, &mut selected, Message::AddView, 7);
    assert_eq!(selected, 7);
    let v = views.get(7).expect("new view");
    assert_eq!(v.name, "New View");
    assert_eq!(v.order, 2);
    assert!(!v.is_main);
    assert_eq!(views.len(), 2);

    let before = views.len();
    update(&mut views, &mut selected, Message::AddView);
    assert_eq!(views.len(), before + 1);
    assert!(views.contains_key(selected));
}

#[test]
fn removing_the_only_view_is_ignored() {
    let mut views = ViewMap::new();
    views.insert(AppView::with_id(1, "Only".to_string(), 3));
    let mut selected = 1u128;
    update(&mut views, &mut selected, Message::RemoveView(1));
    assert_eq!(views.len(), 1);
    assert_eq!(selected, 1);
}

#[test]
fn rename_toggle_and_select() {
    let mut views = three_views(1, 2, 3);
    let mut selected = 1u128;
    update(&mut views, &mut selected, Message::RenameView(2, "Renamed".to_string()));
    assert_eq!(views.get(2).unwrap().name, "Renamed");
    update(&mut views, &mut selected, Message::ToggleExplain(3));
    assert!(views.get(3).unwrap().show_widget_bounds);
    update(&mut views, &mut selected, Message::ViewSelected(99));
    assert_eq!(selected, 1);
    update(&mut views, &mut selected, Message::ViewSelected(3));
    assert_eq!(selected, 3);
}

#[test]
fn custom_state_fields_are_added_edited_and_removed() {
    let mut views = three_views(1, 2, 3);
    let mut selected = 1u128;
    apply_message(&mut views, &mut selected, Message::AddCustomStateField(2), 100);
    apply_message(&mut views, &mut selected, Message::AddCustomStateField(2), 101);
    {
        let fields = &views.get(2).unwrap().custom_state;
        assert_eq!(fields.len(), 2);
        assert_eq!(fields[0].name, "field_1");
        assert_eq!(fields[1].name, "field_2");
        assert_eq!(fields[1].id, 101);
        assert_eq!(fields[0].default_expr, "String::new()");
    }
    update(&mut views, &mut selected, Message::SetCustomFieldName(2, 100, "user_name".to_string()));
    update(
        &mut views,
        &mut selected,
        Message::SetCustomFieldType(
            2,
            100,
            CustomFieldType {
                label: "bool".to_string(),
                value_type: ActionValueType::Bool,
                default_expr: "false".to_string(),
            },
        ),
    );
    {
        let f = &views.get(2).unwrap().custom_state[0];
        assert_eq!(f.name, "user_name");
        assert_eq!(f.display_name, "user name");
        assert_eq!(f.default_expr, "false");
        assert_eq!(f.field_type.value_type, ActionValueType::Bool);
    }
    update(&mut views, &mut selected, Message::SetCustomFieldDefault(2, 100, "true".to_string()));
    assert_eq!(views.get(2).unwrap().custom_state[0].default_expr, "true");
    update(&mut views, &mut selected, Message::RemoveCustomStateField(2, 100));
    let fields = &views.get(2).unwrap().custom_state;
    assert_eq!(fields.len(), 1);
    assert_eq!(fields[0].id, 101);
}
