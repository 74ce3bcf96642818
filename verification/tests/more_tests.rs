use ui_builder::action_editor::{apply_graph_action, update, ActionEditorState, AppFlow, FlowTrigger, GraphAction, GraphEdge, Message};
use ui_builder::add_views::ViewMap;
use ui_builder::code_files::{code_to_copy, ordered_file_names};
use ui_builder::conditions::{AuthoredValueSource, ExpressionSourceOption};
use ui_builder::nodes::{
    authored_conditions_for_display, default_navigate_target_for_mode, ensure_authored_conditions_mut,
    infer_navigate_mode, update_node, ActionNodeData, ActionNodeKind, NavigateModeOption, NavigateTarget,
    NodeEditContext, NodeMessage, StateAssignment, ValueSource, ViewOption, ViewReferenceNavOption,
};
use ui_builder::theme_expr::{parse_theme_expression, PaletteFamily, PaletteShade, PaletteSlot};
use ui_builder::type_system::{sample_value_for_type, EnumDef, FieldType, StructDef, TypeSystem, VariantDef};
use ui_builder::values::{ActionValue, ActionValueType};
use ui_builder::conditions::StateFieldRef;
use ui_builder::conditions::StateRefSource;

#[test]
fn theme_expressions_name_palette_colours() {
    let r = parse_theme_expression("theme.extended_palette().primary.weak.text").expect("colour");
    assert_eq!((r.family, r.shade, r.slot), (PaletteFamily::Primary, PaletteShade::Weak, PaletteSlot::Text));
    assert_eq!(r.alpha_text, None);
    let r = parse_theme_expression("theme.extended_palette().background.strongest.color.scale_alpha(0.5)").expect("colour");
    assert_eq!((r.family, r.shade, r.slot), (PaletteFamily::Background, PaletteShade::Strongest, PaletteSlot::Color));
    assert_eq!(r.alpha_text.as_deref(), Some("0.5"));
    assert!(parse_theme_expression("danger.base.color").is_some());
    assert!(parse_theme_expression("danger.weaker.color").is_none());
    assert!(parse_theme_expression("primary.base").is_none());
    assert!(parse_theme_expression("accent.base.color").is_none());
    assert!(parse_theme_expression("").is_none());
}

#[test]
fn file_tabs_put_main_and_types_first() {
    let names = vec!["zeta.rs", "types.rs", "alpha.rs", "main.rs", "Beta.rs"].into_iter().map(String::from).collect();
    let ordered = ordered_file_names(names);
    assert_eq!(ordered, vec!["main.rs", "types.rs", "Beta.rs", "alpha.rs", "zeta.rs"]);
    let files = vec![("main.rs".to_string(), "fn main() {}".to_string()), ("types.rs".to_string(), "struct A;".to_string())];
    assert_eq!(code_to_copy(&files, &"types.rs".to_string()), "struct A;");
    assert_eq!(code_to_copy(&files, &"gone.rs".to_string()), "fn main() {}");
    assert_eq!(code_to_copy(&Vec::new(), &"gone.rs".to_string()), "");
}

#[test]
fn table_samples() {
    let ts = TypeSystem {
        enums: vec![EnumDef { id: 1, name: "Role".to_string(), variants: vec![VariantDef { id: 11, name: "Admin".to_string() }, VariantDef { id: 12, name: "User".to_string() }] }],
        structs: vec![StructDef { id: 2, name: "Point".to_string() }],
    };
    assert_eq!(sample_value_for_type(&FieldType::String, &ts, 4), "World");
    assert_eq!(sample_value_for_type(&FieldType::F64, &ts, 1), "3.14");
    assert_eq!(sample_value_for_type(&FieldType::F32, &ts, 2), format!("{}", 42.0f64));
    assert_eq!(sample_value_for_type(&FieldType::I64, &ts, 1), "-7");
    assert_eq!(sample_value_for_type(&FieldType::Usize, &ts, 5), "100");
    assert_eq!(sample_value_for_type(&FieldType::Bool, &ts, 3), "false");
    assert_eq!(sample_value_for_type(&FieldType::CustomEnum(1), &ts, 3), "User");
    assert_eq!(sample_value_for_type(&FieldType::CustomEnum(9), &ts, 3), "?");
    assert_eq!(sample_value_for_type(&FieldType::CustomStruct(2), &ts, 0), "Point::new()");
    assert_eq!(sample_value_for_type(&FieldType::CustomStruct(3), &ts, 0), "?");
}

fn ctx_with_options() -> NodeEditContext {
    NodeEditContext {
        first_view_id: Some(10),
        nav_options: vec![ViewReferenceNavOption {
            owner_view_id: 10,
            widget_id: 4,
            label: "Owner/nav".to_string(),
            targets: vec![ViewOption { id: 20, name: "A".to_string() }, ViewOption { id: 30, name: "B".to_string() }],
        }],
    }
}

#[test]
fn navigate_targets() {
    let ctx = ctx_with_options();
    assert_eq!(infer_navigate_mode(&vec![None, Some(NavigateTarget::AppView { view_id: 1 })]), NavigateModeOption::AppView);
    assert_eq!(
        infer_navigate_mode(&vec![None, Some(NavigateTarget::ViewReference { owner_view_id: 1, widget_id: 2, target_view_id: 3 })]),
        NavigateModeOption::ViewReference
    );
    assert_eq!(infer_navigate_mode(&vec![None]), NavigateModeOption::AppView);
    assert_eq!(
        default_navigate_target_for_mode(NavigateModeOption::ViewReference, &ctx),
        Some(NavigateTarget::ViewReference { owner_view_id: 10, widget_id: 4, target_view_id: 20 })
    );
    let mut node = ActionNodeData::new(1, ActionNodeKind::NavigateToView { targets: vec![None] });
    update_node(&mut node, NodeMessage::NavigateViewReferenceSelected(0, 10, 4), &ctx);
    update_node(&mut node, NodeMessage::NavigateViewReferenceTargetSelected(0, 30), &ctx);
    update_node(&mut node, NodeMessage::AddNavigateTarget, &ctx);
    update_node(&mut node, NodeMessage::RemoveNavigateTarget(1), &ctx);
    update_node(&mut node, NodeMessage::RemoveNavigateTarget(0), &ctx);
    let ActionNodeKind::NavigateToView { targets } = &node.kind else { panic!("expected navigate") };
    assert_eq!(targets, &vec![Some(NavigateTarget::ViewReference { owner_view_id: 10, widget_id: 4, target_view_id: 30 })]);
    update_node(&mut node, NodeMessage::NavigateModeSelected(NavigateModeOption::AppView), &ctx);
    let ActionNodeKind::NavigateToView { targets } = &node.kind else { panic!("expected navigate") };
    assert_eq!(targets, &vec![Some(NavigateTarget::AppView { view_id: 10 })]);
}

#[test]
fn match_arms_and_assignments() {
    let ctx = NodeEditContext { first_view_id: None, nav_options: Vec::new() };
    let mut m = ActionNodeData::new(3, ActionNodeKind::Match { arms: vec!["a".to_string(), "b".to_string()], enum_type: None });
    update_node(&mut m, NodeMessage::AddMatchArm, &ctx);
    update_node(&mut m, NodeMessage::SetMatchArm(0, "first".to_string()), &ctx);
    update_node(&mut m, NodeMessage::RemoveMatchArm(1), &ctx);
    let ActionNodeKind::Match { arms, .. } = &m.kind else { panic!("expected match") };
    assert_eq!(arms, &vec!["first".to_string(), "arm 3".to_string()]);

    let field = StateFieldRef {
        view_id: 1,
        source: StateRefSource::Custom { field_id: 5, field_name: "on".to_string() },
        field_type: ActionValueType::Bool,
        display_name: "Main / on (custom)".to_string(),
    };
    let mut s = ActionNodeData::new(
        4,
        ActionNodeKind::StateMutation {
            assignments: vec![StateAssignment { target: None, value_source: ValueSource::Literal(ActionValue::String(String::new())) }],
        },
    );
    update_node(&mut s, NodeMessage::StateMutationSetTarget(0, field), &ctx);
    update_node(&mut s, NodeMessage::StateMutationSetLiteralString(0, "true".to_string(), None), &ctx);
    update_node(&mut s, NodeMessage::StateMutationRemoveAssignment(0), &ctx);
    let ActionNodeKind::StateMutation { assignments } = &s.kind else { panic!("expected assignments") };
    assert_eq!(assignments.len(), 1);
    assert_eq!(assignments[0].value_source, ValueSource::Literal(ActionValue::Bool(true)));
    assert!(assignments[0].target.is_some());
}

#[test]
fn older_single_condition_moves_into_rows() {
    let mut node = ActionNodeData::new(5, ActionNodeKind::Conditional);
    assert_eq!(authored_conditions_for_display(&node).len(), 1);
    let mut legacy = ui_builder::conditions::default_authored_condition();
    legacy.lhs = ExpressionSourceOption::LiteralValue.to_source(Some(ActionValue::Bool(true)));
    node.authored_condition = Some(legacy);
    let shown = authored_conditions_for_display(&node);
    assert_eq!(shown[0].lhs, AuthoredValueSource::Literal(ActionValue::Bool(true)));
    ensure_authored_conditions_mut(&mut node);
    assert!(node.authored_condition.is_none());
    assert_eq!(node.authored_conditions.len(), 1);
    assert_eq!(node.authored_conditions[0].lhs, AuthoredValueSource::Literal(ActionValue::Bool(true)));
}

#[test]
fn graph_selection_edits_spare_the_trigger() {
    let mut g = AppFlow::with_id(7, "g".to_string(), FlowTrigger::Callable);
    g.nodes = vec![
        ActionNodeData::new(1, ActionNodeKind::Trigger { event_name: "entry".to_string() }),
        ActionNodeData::new(2, ActionNodeKind::Conditional),
        ActionNodeData::new(3, ActionNodeKind::CallFlow { flow_id: None }),
    ];
    g.z_order = vec![1, 2, 3];
    g.edges = vec![
        GraphEdge { from_node: 1, from_port: 0, to_node: 2, to_port: 0 },
        GraphEdge { from_node: 2, from_port: 1, to_node: 3, to_port: 0 },
        GraphEdge { from_node: 1, from_port: 1, to_node: 3, to_port: 1 },
    ];
    apply_graph_action(&mut g, GraphAction::SelectSingle { node_id: 1, additive: false });
    apply_graph_action(&mut g, GraphAction::SelectSingle { node_id: 2, additive: true });
    let selected: Vec<bool> = g.nodes.iter().map(|n| n.selected).collect();
    assert_eq!(selected, vec![true, true, false]);
    apply_graph_action(&mut g, GraphAction::ToggleSelectedEnabled);
    let enabled: Vec<bool> = g.nodes.iter().map(|n| n.enabled).collect();
    assert_eq!(enabled, vec![true, false, true]);
    assert_eq!(g.edges.len(), 3);
    apply_graph_action(&mut g, GraphAction::DeleteSelected);
    let ids: Vec<u64> = g.nodes.iter().map(|n| n.id).collect();
    assert_eq!(ids, vec![1, 3]);
    assert_eq!(g.z_order, vec![1, 3]);
    assert_eq!(g.edges, vec![GraphEdge { from_node: 1, from_port: 1, to_node: 3, to_port: 1 }]);
    apply_graph_action(&mut g, GraphAction::ClearSelection);
    assert!(g.nodes.iter().all(|n| !n.selected));

    let views = ViewMap::new();
    let mut flows = vec![AppFlow::with_id(8, "f".to_string(), FlowTrigger::Callable)];
    flows[0].nodes.push(ActionNodeData::new(2, ActionNodeKind::Conditional));
    let mut state = ActionEditorState::default();
    update(&views, &mut flows, &mut state, Message::Graph(GraphAction::SelectSingle { node_id: 2, additive: false }));
    assert!(!flows[0].nodes[1].selected);
    state.selected_flow_id = Some(8);
    update(&views, &mut flows, &mut state, Message::Graph(GraphAction::SelectSingle { node_id: 2, additive: false }));
    assert!(flows[0].nodes[1].selected);
}

use ui_builder::action_editor::update_with_type_system;
use ui_builder::add_views::{sorted_views, AppView, ViewSortMode};
use ui_builder::state_fields::{collect_all_widgets, count_all_widgets};
use ui_builder::widgets::{Widget, WidgetProperties, WidgetType};

#[test]
fn view_list_orders() {
    let mut views = ViewMap::new();
    views.insert(AppView::with_id(1, "beta".to_string(), 2));
    views.insert(AppView::with_id(2, "Alpha".to_string(), 1));
    views.insert(AppView::with_id(3, "alpha".to_string(), 2));
    assert_eq!(sorted_views(&views, ViewSortMode::InsertionOrder), vec![2, 1, 3]);
    assert_eq!(sorted_views(&views, ViewSortMode::MostRecentlyModified), vec![2, 1, 3]);
    assert_eq!(sorted_views(&views, ViewSortMode::Alphabetical), vec![2, 3, 1]);
}

#[test]
fn widget_picker_lists_every_widget() {
    let mut v = AppView::with_id(1, "Main".to_string(), 0);
    let mut named = Widget { id: 1, widget_type: WidgetType::Button, depth: 1, properties: WidgetProperties::new() };
    named.properties.widget_name = "Save".to_string();
    v.hierarchy.widgets.push(named);
    let mut views = ViewMap::new();
    views.insert(v);
    views.insert(AppView::with_id(2, "Other".to_string(), 1));
    let all = collect_all_widgets(&views);
    let labels: Vec<&str> = all.iter().map(|c| c.label.as_str()).collect();
    assert_eq!(labels, vec!["Main/Container", "Main/Save", "Other/Container"]);
    assert_eq!(count_all_widgets(&views), 3);
}

#[test]
fn enum_type_takes_arms_from_declared_enum() {
    let ts = TypeSystem {
        enums: vec![EnumDef { id: 1, name: "Role".to_string(), variants: vec![VariantDef { id: 11, name: "Admin".to_string() }, VariantDef { id: 12, name: "Guest".to_string() }] }],
        structs: vec![],
    };
    let views = ViewMap::new();
    let mut node = ActionNodeData::new(2, ActionNodeKind::Match { arms: vec!["x".to_string()], enum_type: None });
    node.authored_match_subject = Some(AuthoredValueSource::Literal(ActionValue::String(String::new())));
    let mut flows = vec![AppFlow::with_id(9, "f".to_string(), FlowTrigger::Callable)];
    flows[0].nodes.push(node);
    let mut state = ActionEditorState::default();
    state.selected_flow_id = Some(9);
    update_with_type_system(&views, &mut flows, &mut state, Message::Node(2, NodeMessage::SetMatchEnumType("Role".to_string())), &ts);
    match &flows[0].nodes[1].kind {
        ActionNodeKind::Match { arms, enum_type } => {
            assert_eq!(arms, &vec!["Admin".to_string(), "Guest".to_string()]);
            assert_eq!(enum_type.as_deref(), Some("Role"));
        },
        other => panic!("expected match, got {other:?}"),
    }
    assert_eq!(flows[0].nodes[1].authored_match_subject, Some(AuthoredValueSource::Literal(ActionValue::String(String::new()))));
    update_with_type_system(&views, &mut flows, &mut state, Message::Node(2, NodeMessage::SetMatchEnumType("Unknown".to_string())), &ts);
    match &flows[0].nodes[1].kind {
        ActionNodeKind::Match { arms, enum_type } => {
            assert_eq!(arms.len(), 2);
            assert_eq!(enum_type.as_deref(), Some("Unknown"));
        },
        other => panic!("expected match, got {other:?}"),
    }
    update_with_type_system(&views, &mut flows, &mut state, Message::AddFlow, &ts);
    assert_eq!(flows.len(), 2);
}

#[test]
fn picker_labels() {
    assert_eq!(NavigateModeOption::AppView.label(), "App View");
    assert_eq!(NavigateModeOption::ViewReference.label(), "View Reference");
    assert_eq!(ExpressionSourceOption::LiteralValue.label(), "Literal value");
    let t = ExpressionSourceOption::TriggerInput { name: "value".to_string(), value_type: ActionValueType::String };
    assert_eq!(t.label(), "Trigger: value");
}

use ui_builder::naming::is_whitespace;

#[test]
fn whitespace_matches_std_for_every_char() {
    for u in 0u32..=0x10FFFF {
        if let Some(c) = char::from_u32(u) {
            assert_eq!(is_whitespace(c), c.is_whitespace(), "U+{:04X}", u);
        }
    }
}

#[test]
fn the_palette_accessor_is_optional() {
    let a = parse_theme_expression("theme.extended_palette().danger.strong.color").expect("colour");
    let b = parse_theme_expression("danger.strong.color").expect("colour");
    assert_eq!((a.family, a.shade, a.slot), (b.family, b.shade, b.slot));
    assert_eq!((b.family, b.shade, b.slot), (PaletteFamily::Danger, PaletteShade::Strong, PaletteSlot::Color));
    assert!(parse_theme_expression("palette.background.base.text").is_none());
}
