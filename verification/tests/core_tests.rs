use ui_builder::conditions::{
    condition_operator_options, default_authored_condition, expression_source_options,
    normalize_authored_condition_rhs, selected_expression_source_option, AuthoredCondition,
    AuthoredValueSource, CompareOp, ConditionJoinMode, ExpressionSourceOption, StateFieldRef,
    StateRefSource, TriggerPort,
};
use ui_builder::naming::{
    field_name_of, numbered, parse_u64, pascal_case, snake_case, view_name_to_selection_variant,
};
use ui_builder::panes::{EditingStatus, LevelChoice, ThemePaneEnum, ViewSelection};
use ui_builder::values::{
    coerce_literal, default_action_value_for_type, default_value_for_type, parse_authored_rhs_text,
    read_bool_word, rhs_literal_matches_type_for_editor, ActionValue, ActionValueType,
};
use ui_builder::widgets::{get_available_types, Widget, WidgetHierarchy, WidgetProperties, WidgetType};

#[test]
fn selection_defaults_and_labels() {
    assert_eq!(ViewSelection::default(), ViewSelection::Main);
    assert_eq!(EditingStatus::default(), EditingStatus::Active);
    assert_eq!(ThemePaneEnum::TextInput.label(), "TextInput");
    let levels = LevelChoice::all();
    assert_eq!(levels.len(), 3);
    assert_eq!(levels[0].label(), "Normal");
}

fn hierarchy(widgets: Vec<(u64, WidgetType, usize)>) -> WidgetHierarchy {
    let next_id = widgets.iter().map(|w| w.0).max().unwrap_or(0) + 1;
    WidgetHierarchy {
        widgets: widgets
            .into_iter()
            .map(|(id, widget_type, depth)| Widget { id, widget_type, depth, properties: WidgetProperties::new() })
            .collect(),
        next_id,
    }
}

#[test]
fn available_child_types_follow_the_parent() {
    let h = hierarchy(vec![
        (0, WidgetType::Container, 0),
        (1, WidgetType::Column, 1),
        (2, WidgetType::Scrollable, 2),
        (3, WidgetType::MouseArea, 2),
        (4, WidgetType::Button, 3),
        (5, WidgetType::Tooltip, 2),
        (6, WidgetType::Text, 3),
    ]);
    // The root already has its one layout child.
    assert!(get_available_types(&h, &0).is_empty());
    let column = get_available_types(&h, &1);
    assert_eq!(column.len(), 25);
    assert!(column.contains(&WidgetType::ViewReference));
    assert_eq!(
        get_available_types(&h, &2),
        vec![WidgetType::Container, WidgetType::Column, WidgetType::Row, WidgetType::ViewReference]
    );
    // A mouse area takes one child and already has it.
    assert!(get_available_types(&h, &3).is_empty());
    // A tooltip takes two children and has one.
    let tooltip = get_available_types(&h, &5);
    assert_eq!(tooltip.len(), 21);
    assert!(!tooltip.contains(&WidgetType::Tooltip));
    assert!(get_available_types(&h, &4).is_empty());
    assert!(get_available_types(&h, &99).is_empty());
    let fresh = WidgetHierarchy::new(WidgetType::Container);
    assert_eq!(get_available_types(&fresh, &0), vec![WidgetType::Column, WidgetType::Row]);
}

#[test]
fn naming_rules() {
    assert_eq!(snake_case("MyView Name"), "my_view__name");
    assert_eq!(snake_case("already_snake"), "already_snake");
    assert_eq!(pascal_case("hello_world there"), "HelloWorldThere");
    assert_eq!(pascal_case("__a__b"), "AB");
    assert_eq!(field_name_of("  Search Box "), "search_box");
    assert_eq!(view_name_to_selection_variant(" Main Menu "), "MainMenu");
    assert_eq!(view_name_to_selection_variant("Renamed Secondary"), "RenamedSecondary");
    assert_eq!(numbered("flow_", 12), "flow_12");
    assert_eq!(numbered("arm ", 0), "arm 0");
}

#[test]
fn unsigned_numbers_are_read_like_std() {
    assert_eq!(parse_u64("250"), Some(250));
    assert_eq!(parse_u64("+42"), Some(42));
    assert_eq!(parse_u64("18446744073709551615"), Some(u64::MAX));
    assert_eq!(parse_u64("18446744073709551616"), None);
    assert_eq!(parse_u64(""), None);
    assert_eq!(parse_u64("+"), None);
    assert_eq!(parse_u64("12a"), None);
    assert_eq!(parse_u64(" 12"), None);
    for s in ["0", "007", "+9", "99999999999999999999", "-1", "1_000"] {
        assert_eq!(parse_u64(s), s.parse::<u64>().ok(), "{s}");
    }
}

#[test]
fn boolean_words() {
    assert_eq!(read_bool_word("  TRUE "), Some(true));
    assert_eq!(read_bool_word("False"), Some(false));
    assert_eq!(read_bool_word("yes"), None);
}

fn enum_type() -> ActionValueType {
    ActionValueType::Enum { enum_name: "Role".to_string(), variants: vec!["Admin".to_string(), "User".to_string()] }
}

#[test]
fn literal_defaults_and_coercion() {
    assert_eq!(default_action_value_for_type(&ActionValueType::Usize), ActionValue::Number(0));
    assert_eq!(default_value_for_type(&ActionValueType::Usize), ActionValue::String(String::new()));
    assert_eq!(
        default_value_for_type(&enum_type()),
        ActionValue::EnumVariant { enum_name: "Role".to_string(), variant: "Admin".to_string() }
    );
    let bits = 2.5f64.to_bits();
    assert_eq!(coerce_literal(ActionValue::Number(0), "2.5", Some(bits)), ActionValue::Number(bits));
    assert_eq!(coerce_literal(ActionValue::Number(7), "x", None), ActionValue::Number(0));
    assert_eq!(coerce_literal(ActionValue::Bool(false), "true", None), ActionValue::Bool(true));
    assert_eq!(coerce_literal(ActionValue::Bool(true), "TRUE", None), ActionValue::Bool(false));
    assert_eq!(
        coerce_literal(
            ActionValue::EnumVariant { enum_name: "Role".to_string(), variant: "Admin".to_string() },
            "User",
            None
        ),
        ActionValue::EnumVariant { enum_name: "Role".to_string(), variant: "User".to_string() }
    );
    assert_eq!(coerce_literal(ActionValue::String("a".to_string()), "b", None), ActionValue::String("b".to_string()));
}

#[test]
fn right_hand_side_text() {
    assert_eq!(parse_authored_rhs_text(&ActionValueType::Bool, " False ", None), ActionValue::Bool(false));
    assert_eq!(parse_authored_rhs_text(&ActionValueType::Bool, "maybe", None), ActionValue::String("maybe".to_string()));
    assert_eq!(parse_authored_rhs_text(&ActionValueType::F32, "x", None), ActionValue::String("x".to_string()));
    assert_eq!(parse_authored_rhs_text(&ActionValueType::F64, " 3 ", Some(3.0f64.to_bits())), ActionValue::Number(3.0f64.to_bits()));
    assert!(matches!(
        parse_authored_rhs_text(&enum_type(), "User", None),
        ActionValue::EnumVariant { ref variant, .. } if variant == "User"
    ));
    assert!(rhs_literal_matches_type_for_editor(&ActionValue::Number(0), &ActionValueType::Usize));
    assert!(!rhs_literal_matches_type_for_editor(&ActionValue::String(String::new()), &ActionValueType::Bool));
    assert!(!rhs_literal_matches_type_for_editor(
        &ActionValue::EnumVariant { enum_name: "Other".to_string(), variant: "A".to_string() },
        &enum_type()
    ));
}

#[test]
fn operators_and_normalization() {
    assert_eq!(
        condition_operator_options(&ActionValueType::Bool),
        vec![CompareOp::IsTrue, CompareOp::IsFalse, CompareOp::Eq, CompareOp::NotEq]
    );
    assert_eq!(condition_operator_options(&enum_type()), vec![CompareOp::Eq, CompareOp::NotEq]);
    let d = default_authored_condition();
    assert_eq!(d.operator, CompareOp::Eq);
    assert!(CompareOp::Eq.needs_rhs());
    assert!(!CompareOp::IsEmpty.needs_rhs());

    // A boolean left-hand side with a string operator falls back to its
    // first operator, which takes no right-hand side.
    let mut c = AuthoredCondition {
        lhs: AuthoredValueSource::TriggerInput { name: "checked".to_string(), value_type: ActionValueType::Bool },
        operator: CompareOp::Contains,
        rhs_literal: ActionValue::String("x".to_string()),
    };
    normalize_authored_condition_rhs(&mut c);
    assert_eq!(c.operator, CompareOp::IsTrue);
    assert_eq!(c.rhs_literal, ActionValue::String("x".to_string()));

    // A number compared with Eq gets a number on the right.
    let mut n = AuthoredCondition {
        lhs: AuthoredValueSource::TriggerInput { name: "value".to_string(), value_type: ActionValueType::F32 },
        operator: CompareOp::Gt,
        rhs_literal: ActionValue::String("x".to_string()),
    };
    normalize_authored_condition_rhs(&mut n);
    assert_eq!(n.operator, CompareOp::Gt);
    assert_eq!(n.rhs_literal, ActionValue::Number(0));
    let before = (n.operator, n.rhs_literal.clone());
    normalize_authored_condition_rhs(&mut n);
    assert_eq!((n.operator, n.rhs_literal.clone()), before);
    let _ = ConditionJoinMode::All;
}

#[test]
fn source_picker_options() {
    let field = StateFieldRef {
        view_id: 1,
        source: StateRefSource::Custom { field_id: 9, field_name: "count".to_string() },
        field_type: ActionValueType::Usize,
        display_name: "Main / count (custom)".to_string(),
    };
    let port = TriggerPort { name: "value".to_string(), value_type: ActionValueType::String };
    let opts = expression_source_options(&vec![field.clone()], &vec![port]);
    assert_eq!(opts.len(), 3);
    assert!(matches!(opts[0], ExpressionSourceOption::LiteralValue));
    assert!(matches!(&opts[1], ExpressionSourceOption::StateField(f) if *f == field));
    assert!(matches!(&opts[2], ExpressionSourceOption::TriggerInput { name, .. } if name == "value"));
    let chosen = selected_expression_source_option(&opts, &AuthoredValueSource::StateField(field.clone()));
    assert!(matches!(chosen, Some(ExpressionSourceOption::StateField(_))));
    let lit = ExpressionSourceOption::LiteralValue.to_source(None);
    assert_eq!(lit, AuthoredValueSource::Literal(ActionValue::String(String::new())));
    assert!(ExpressionSourceOption::LiteralValue.matches_source(&lit));
    assert!(selected_expression_source_option(&opts[..1].iter().map(|_| ExpressionSourceOption::LiteralValue).collect(), &AuthoredValueSource::StateField(field)).is_none());
}
