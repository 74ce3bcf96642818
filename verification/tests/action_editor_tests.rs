use ui_builder::action_editor::{
    all_event_types, apply_message, has_action_graph, move_widget_event_row, trigger_for_kind_label, update,
    ActionEditorState, AppFlow, FlowTrigger, Message, WidgetEventRow,
};
use ui_builder::add_views::{AppView, CustomFieldType, CustomStateField, ViewMap};
use ui_builder::conditions::{AuthoredValueSource, CompareOp, ConditionJoinMode, ExpressionSourceOption, StateRefSource};
use ui_builder::nodes::{ActionNodeData, ActionNodeKind, NavigateModeOption, NavigateTarget, NodeMessage};
use ui_builder::state_fields::{collect_state_fields, collect_view_reference_nav_options, node_edit_context};
use ui_builder::values::{ActionValue, ActionValueType};
use ui_builder::widgets::{Widget, WidgetProperties, WidgetType};

fn widget(id: u64, widget_type: WidgetType, depth: usize) -> Widget {
    Widget { id, widget_type, depth, properties: WidgetProperties::new() }
}

fn owner_views_with_single_view_reference(owner_view_id: u128, primary_view_id: u128, secondary_view_id: u128) -> (ViewMap, u64) {
    let mut owner_view = AppView::with_id(owner_view_id, "Owner".to_string(), 0);
    owner_view.hierarchy.widgets.push(widget(1, WidgetType::Column, 1));
    let mut view_ref = widget(2, WidgetType::ViewReference, 2);
    view_ref.properties.widget_name = "Main Pane".to_string();
    view_ref.properties.referenced_view_id = Some(primary_view_id);
    view_ref.properties.extra_view_ids = vec![secondary_view_id];
    owner_view.hierarchy.widgets.push(view_ref);
    owner_view.hierarchy.next_id = 3;

    let mut views = ViewMap::new();
    views.insert(owner_view);
    views.insert(AppView::with_id(primary_view_id, "Primary".to_string(), 1));
    views.insert(AppView::with_id(secondary_view_id, "Secondary".to_string(), 2));
    (views, 2)
}

fn single_view_with_widget(widget_type: WidgetType) -> (ViewMap, u128, u64) {
    let view_id = uuid::Uuid::new_v4().as_u128();
    let mut view = AppView::with_id(view_id, "Main".to_string(), 0);
    view.hierarchy.widgets.push(widget(1, WidgetType::Column, 1));
    view.hierarchy.widgets.push(widget(2, widget_type, 2));
    view.hierarchy.next_id = 3;
    let mut views = ViewMap::new();
    views.insert(view);
    (views, view_id, 2)
}

fn flow_with_node(node: ActionNodeData) -> (Vec<AppFlow>, ActionEditorState) {
    let mut flows = vec![AppFlow::new("flow".to_string(), FlowTrigger::Callable)];
    flows[0].nodes.push(node);
    let mut state = ActionEditorState::default();
    state.selected_flow_id = Some(flows[0].id);
    (flows, state)
}

fn node_of(flows: &[AppFlow], id: u64) -> &ActionNodeData {
    flows[0].nodes.iter().find(|n| n.id == id).expect("node")
}

#[test]
fn set_call_flow_target_updates_node_with_stable_flow_id() {
    let all_views = ViewMap::new();
    let target_id = uuid::Uuid::new_v4().as_u128();
    let (mut flows, mut state) = flow_with_node(ActionNodeData::new(2, ActionNodeKind::CallFlow { flow_id: None }));

    update(&all_views, &mut flows, &mut state, Message::Node(2, NodeMessage::SetCallFlowTarget(target_id)));

    match &node_of(&flows, 2).kind {
        ActionNodeKind::CallFlow { flow_id } => assert_eq!(*flow_id, Some(target_id)),
        other => panic!("expected CallFlow, got {other:?}"),
    }
}

#[test]
fn navigate_mode_selected_updates_all_rows_to_app_view_mode() {
    let owner_id = uuid::Uuid::new_v4().as_u128();
    let primary_id = uuid::Uuid::new_v4().as_u128();
    let secondary_id = uuid::Uuid::new_v4().as_u128();
    let (all_views, view_ref_id) = owner_views_with_single_view_reference(owner_id, primary_id, secondary_id);
    let node = ActionNodeData::new(
        2,
        ActionNodeKind::NavigateToView {
            targets: vec![
                Some(NavigateTarget::ViewReference {
                    owner_view_id: owner_id,
                    widget_id: view_ref_id,
                    target_view_id: primary_id,
                }),
                None,
            ],
        },
    );
    let (mut flows, mut state) = flow_with_node(node);

    update(&all_views, &mut flows, &mut state, Message::Node(2, NodeMessage::NavigateModeSelected(NavigateModeOption::AppView)));

    let ActionNodeKind::NavigateToView { targets } = &node_of(&flows, 2).kind else {
        panic!("expected NavigateToView");
    };
    assert_eq!(targets.len(), 2);
    assert!(matches!(
        targets[0],
        Some(NavigateTarget::AppView { view_id }) if all_views.contains_key(view_id)
    ));
    assert!(matches!(
        targets[1],
        Some(NavigateTarget::AppView { view_id }) if all_views.contains_key(view_id)
    ));
}

#[test]
fn add_navigate_target_uses_current_node_mode_default() {
    let owner_id = uuid::Uuid::new_v4().as_u128();
    let primary_id = uuid::Uuid::new_v4().as_u128();
    let secondary_id = uuid::Uuid::new_v4().as_u128();
    let (all_views, view_ref_id) = owner_views_with_single_view_reference(owner_id, primary_id, secondary_id);
    let node = ActionNodeData::new(
        2,
        ActionNodeKind::NavigateToView {
            targets: vec![Some(NavigateTarget::ViewReference {
                owner_view_id: owner_id,
                widget_id: view_ref_id,
                target_view_id: primary_id,
            })],
        },
    );
    let (mut flows, mut state) = flow_with_node(node);

    update(&all_views, &mut flows, &mut state, Message::Node(2, NodeMessage::AddNavigateTarget));

    let ActionNodeKind::NavigateToView { targets } = &node_of(&flows, 2).kind else {
        panic!("expected NavigateToView");
    };
    assert_eq!(targets.len(), 2);
    assert!(matches!(targets[1], Some(NavigateTarget::ViewReference { .. })));
}

fn rhs_number(raw: &str) -> Option<u64> {
    raw.trim().parse::<f64>().ok().map(f64::to_bits)
}

#[test]
fn conditional_authoring_messages_support_multiple_rows_and_join_mode() {
    let all_views = ViewMap::new();
    let (mut flows, mut state) = flow_with_node(ActionNodeData::new(2, ActionNodeKind::Conditional));
    let edits = vec![
        NodeMessage::AddConditionalRow,
        NodeMessage::SetConditionalJoinMode(ConditionJoinMode::Any),
        NodeMessage::SetConditionalSource(0, ExpressionSourceOption::LiteralValue),
        NodeMessage::SetConditionalOperator(0, CompareOp::Eq),
        NodeMessage::SetConditionalRhsText(0, "admin@example.com".to_string(), rhs_number("admin@example.com")),
        NodeMessage::SetConditionalSource(1, ExpressionSourceOption::LiteralValue),
        NodeMessage::SetConditionalOperator(1, CompareOp::IsNotEmpty),
        NodeMessage::RemoveConditionalRow(1),
    ];
    for edit in edits {
        update(&all_views, &mut flows, &mut state, Message::Node(2, edit));
    }

    let node = node_of(&flows, 2);
    assert_eq!(node.authored_condition_join, ConditionJoinMode::Any);
    assert_eq!(node.authored_conditions.len(), 1);
    let condition = node.authored_conditions.first().expect("condition row");
    assert!(matches!(condition.lhs, AuthoredValueSource::Literal(_)));
    assert_eq!(condition.operator, CompareOp::Eq);
    assert_eq!(condition.rhs_literal, ActionValue::String("admin@example.com".to_string()));
}

#[test]
fn match_subject_authoring_messages_support_enum_literal_subjects() {
    let all_views = ViewMap::new();
    let mut node = ActionNodeData::new(
        2,
        ActionNodeKind::Match { arms: vec!["Admin".to_string(), "User".to_string()], enum_type: None },
    );
    node.authored_match_subject = Some(AuthoredValueSource::Literal(ActionValue::String(String::new())));
    let (mut flows, mut state) = flow_with_node(node);

    update(&all_views, &mut flows, &mut state, Message::Node(2, NodeMessage::SetMatchEnumType("Role".to_string())));
    update(&all_views, &mut flows, &mut state, Message::Node(2, NodeMessage::SetMatchSubjectSource(ExpressionSourceOption::LiteralValue)));
    update(&all_views, &mut flows, &mut state, Message::Node(2, NodeMessage::SetMatchSubjectLiteral("User".to_string(), None)));

    let node = node_of(&flows, 2);
    assert!(matches!(
        node.authored_match_subject,
        Some(AuthoredValueSource::Literal(ActionValue::EnumVariant {
            ref enum_name,
            ref variant,
        })) if enum_name == "Role" && variant == "User"
    ));
}

#[test]
fn set_row_event_type_preserves_target_when_widget_supports_new_event() {
    let (all_views, view_id, widget_id) = single_view_with_widget(WidgetType::MouseArea);
    let mut row = WidgetEventRow::new();
    row.event_type = "on_press".to_string();
    row.target = Some((view_id, widget_id));
    let row_id = row.id;
    let mut flows = vec![AppFlow::new("flow".to_string(), FlowTrigger::WidgetEvent { rows: vec![row] })];
    let flow_id = flows[0].id;
    let mut state = ActionEditorState::default();
    state.selected_flow_id = Some(flow_id);

    // A mouse area with press and release handlers supports "on_release".
    update(&all_views, &mut flows, &mut state, Message::SetRowEventType(flow_id, row_id, "on_release".to_string(), true));

    let FlowTrigger::WidgetEvent { rows } = &flows[0].trigger else {
        panic!("expected widget event trigger");
    };
    assert_eq!(rows.len(), 1);
    assert_eq!(rows[0].event_type, "on_release");
    assert_eq!(rows[0].target, Some((view_id, widget_id)));
}

#[test]
fn set_row_event_type_clears_target_when_widget_lacks_new_event() {
    let (all_views, view_id, widget_id) = single_view_with_widget(WidgetType::Button);
    let mut row = WidgetEventRow::new();
    row.event_type = "on_press".to_string();
    row.target = Some((view_id, widget_id));
    let row_id = row.id;
    let mut flows = vec![AppFlow::new("flow".to_string(), FlowTrigger::WidgetEvent { rows: vec![row] })];
    let flow_id = flows[0].id;
    let mut state = ActionEditorState::default();
    state.selected_flow_id = Some(flow_id);

    // A button has no "on_toggle" event.
    update(&all_views, &mut flows, &mut state, Message::SetRowEventType(flow_id, row_id, "on_toggle".to_string(), false));

    let FlowTrigger::WidgetEvent { rows } = &flows[0].trigger else {
        panic!("expected widget event trigger");
    };
    assert_eq!(rows.len(), 1);
    assert_eq!(rows[0].event_type, "on_toggle");
    assert_eq!(rows[0].target, None);
}

#[test]
fn widget_event_drag_updates_drop_target_and_clears_on_end() {
    let (all_views, view_id, widget_id) = single_view_with_widget(WidgetType::Button);
    let mut row_a = WidgetEventRow::new();
    row_a.target = Some((view_id, widget_id));
    let mut row_b = WidgetEventRow::new();
    row_b.target = Some((view_id, widget_id));
    let (a_id, b_id) = (row_a.id, row_b.id);
    let mut flows = vec![AppFlow::new("flow".to_string(), FlowTrigger::WidgetEvent { rows: vec![row_a, row_b] })];
    let flow_id = flows[0].id;
    let mut state = ActionEditorState::default();
    state.selected_flow_id = Some(flow_id);

    update(&all_views, &mut flows, &mut state, Message::StartWidgetEventRowDrag(flow_id, a_id));
    assert_eq!(state.widget_event_row_dragging, Some((flow_id, a_id)));
    assert_eq!(state.widget_event_row_drop_target, Some((flow_id, a_id)));

    update(&all_views, &mut flows, &mut state, Message::HoverWidgetEventRow(flow_id, b_id));
    assert_eq!(state.widget_event_row_drop_target, Some((flow_id, b_id)));

    update(&all_views, &mut flows, &mut state, Message::EndWidgetEventRowDrag);
    assert_eq!(state.widget_event_row_dragging, None);
    assert_eq!(state.widget_event_row_drop_target, None);
}

#[test]
fn collect_state_fields_includes_generic_overlay_open_field() {
    let (all_views, view_id, widget_id) = single_view_with_widget(WidgetType::GenericOverlay);

    let fields = collect_state_fields(&all_views);
    let overlay_field = fields.iter().find(|field| {
        field.view_id == view_id
            && matches!(
                &field.source,
                StateRefSource::Widget { widget_id: source_widget_id, field_suffix }
                    if *source_widget_id == widget_id && field_suffix == "_open"
            )
    });

    assert!(overlay_field.is_some(), "expected generic overlay open state field");
    assert_eq!(overlay_field.map(|field| field.field_type == ActionValueType::Bool), Some(true));
}

#[test]
fn collect_state_fields_includes_date_picker_open_field() {
    let (all_views, view_id, widget_id) = single_view_with_widget(WidgetType::DatePicker);

    let fields = collect_state_fields(&all_views);
    let date_picker_field = fields.iter().find(|field| {
        field.view_id == view_id
            && matches!(
                &field.source,
                StateRefSource::Widget { widget_id: source_widget_id, field_suffix }
                    if *source_widget_id == widget_id && field_suffix == "_open"
            )
    });

    assert!(date_picker_field.is_some(), "expected date picker open state field");
    assert_eq!(date_picker_field.map(|field| field.field_type == ActionValueType::Bool), Some(true));
}

#[test]
fn state_fields_list_widget_selection_and_custom_fields() {
    let (mut views, _) = owner_views_with_single_view_reference(1, 2, 3);
    let mut owner = AppView::with_id(1, "Owner".to_string(), 0);
    owner.hierarchy = views.get(1).unwrap().hierarchy.clone();
    owner.hierarchy.widgets.push(widget(3, WidgetType::Slider, 2));
    owner.custom_state.push(CustomStateField {
        id: 77,
        name: "user_role".to_string(),
        display_name: "user role".to_string(),
        field_type: CustomFieldType {
            label: "bool".to_string(),
            value_type: ActionValueType::Bool,
            default_expr: "false".to_string(),
        },
        default_expr: "false".to_string(),
    });
    views.insert(owner);
    let fields = collect_state_fields(&views);
    let names: Vec<&str> = fields.iter().map(|f| f.display_name.as_str()).collect();
    assert_eq!(
        names,
        vec![
            "Owner / Slider / value",
            "Owner / main_pane (view selection)",
            "Owner / user role (custom)",
        ]
    );
    match &fields[1].field_type {
        ActionValueType::Enum { enum_name, variants } => {
            assert_eq!(enum_name, "MainPaneSelection");
            assert_eq!(variants, &vec!["Primary".to_string(), "Secondary".to_string()]);
        },
        other => panic!("expected an enum type, got {other:?}"),
    }
    assert!(matches!(&fields[1].source, StateRefSource::ViewSelection { widget_id: 2, field_name } if field_name == "main_pane_selection"));
}

#[test]
fn nav_options_are_labelled_and_sorted() {
    let (mut views, _) = owner_views_with_single_view_reference(1, 2, 3);
    let mut other = AppView::with_id(4, "Alpha".to_string(), 3);
    let mut r = widget(5, WidgetType::ViewReference, 1);
    r.properties.referenced_view_id = Some(3);
    r.properties.extra_view_ids = vec![3, 2, 99];
    other.hierarchy.widgets.push(r);
    let mut single = widget(6, WidgetType::ViewReference, 1);
    single.properties.referenced_view_id = Some(2);
    single.properties.extra_view_ids = vec![2];
    other.hierarchy.widgets.push(single);
    views.insert(other);
    let opts = collect_view_reference_nav_options(&views);
    let labels: Vec<&str> = opts.iter().map(|o| o.label.as_str()).collect();
    assert_eq!(labels, vec!["Alpha/widget_5", "Owner/Main Pane"]);
    let targets: Vec<u128> = opts[0].targets.iter().map(|t| t.id).collect();
    assert_eq!(targets, vec![3, 2]);
    assert_eq!(opts[0].targets[0].name, "Secondary");
    let ctx = node_edit_context(&views);
    assert_eq!(ctx.first_view_id, Some(1));
    assert_eq!(ctx.nav_options.len(), 2);
}

#[test]
fn flows_are_added_renamed_and_deleted() {
    let views = ViewMap::new();
    let mut flows: Vec<AppFlow> = Vec::new();
    let mut state = ActionEditorState::default();
    apply_message(&views, &mut flows, &mut state, Message::AddFlow, 11, 0);
    apply_message(&views, &mut flows, &mut state, Message::AddFlow, 12, 0);
    assert_eq!(flows.len(), 2);
    assert_eq!(flows[1].name, "flow_2");
    assert_eq!(state.selected_flow_id, Some(12));
    update(&views, &mut flows, &mut state, Message::SetFlowName(11, "login".to_string()));
    assert_eq!(flows[0].name, "login");
    update(&views, &mut flows, &mut state, Message::SelectFlow(99));
    assert_eq!(state.selected_flow_id, Some(12));
    update(&views, &mut flows, &mut state, Message::DeleteFlow(12));
    assert_eq!(flows.len(), 1);
    assert_eq!(state.selected_flow_id, None);
    update(&views, &mut flows, &mut state, Message::SetFlowSearch("log".to_string()));
    assert_eq!(state.flow_search, "log");
}

#[test]
fn trigger_kinds_and_settings() {
    let views = ViewMap::new();
    let mut flows = vec![AppFlow::with_id(5, "f".to_string(), FlowTrigger::Callable)];
    let mut state = ActionEditorState::default();
    assert_eq!(flows[0].trigger.kind_label(), "Callable");
    apply_message(&views, &mut flows, &mut state, Message::SetFlowTriggerKind(5, "Timer".to_string()), 0, 0);
    assert!(matches!(flows[0].trigger, FlowTrigger::Timer { interval_ms: 1000 }));
    update(&views, &mut flows, &mut state, Message::SetFlowTimerInterval(5, "250".to_string()));
    assert!(matches!(flows[0].trigger, FlowTrigger::Timer { interval_ms: 250 }));
    update(&views, &mut flows, &mut state, Message::SetFlowTimerInterval(5, "fast".to_string()));
    assert!(matches!(flows[0].trigger, FlowTrigger::Timer { interval_ms: 250 }));
    update(&views, &mut flows, &mut state, Message::SetFlowTriggerKind(5, "Key Combo".to_string()));
    update(&views, &mut flows, &mut state, Message::SetFlowKeyComboKey(5, "S".to_string()));
    update(&views, &mut flows, &mut state, Message::SetFlowKeyComboMods(5, true, false, true));
    match &flows[0].trigger {
        FlowTrigger::KeyCombo { key, ctrl, shift, alt } => {
            assert_eq!(key, "S");
            assert!(*ctrl && !*shift && *alt);
        },
        other => panic!("expected a key combo, got {other:?}"),
    }
    apply_message(&views, &mut flows, &mut state, Message::SetFlowTriggerKind(5, "Widget Event".to_string()), 0, 42);
    match &flows[0].trigger {
        FlowTrigger::WidgetEvent { rows } => {
            assert_eq!(rows.len(), 1);
            assert_eq!(rows[0].id, 42);
            assert_eq!(rows[0].event_type, "on_press");
            assert_eq!(rows[0].target, None);
        },
        other => panic!("expected widget events, got {other:?}"),
    }
    assert_eq!(flows[0].trigger.kind_label(), "Widget Event");
    apply_message(&views, &mut flows, &mut state, Message::SetFlowTriggerKind(5, "Nope".to_string()), 0, 0);
    assert!(matches!(flows[0].trigger, FlowTrigger::Callable));
    assert!(matches!(trigger_for_kind_label("Timer", 1), FlowTrigger::Timer { interval_ms: 1000 }));
}

#[test]
fn rows_are_added_retargeted_and_removed_and_removal_ends_its_drag() {
    let views = ViewMap::new();
    let mut flows = vec![AppFlow::with_id(5, "f".to_string(), FlowTrigger::WidgetEvent { rows: Vec::new() })];
    let mut state = ActionEditorState::default();
    apply_message(&views, &mut flows, &mut state, Message::AddWidgetEventRow(5), 0, 1);
    apply_message(&views, &mut flows, &mut state, Message::AddWidgetEventRow(5), 0, 2);
    update(&views, &mut flows, &mut state, Message::SetRowTarget(5, 2, Some((9, 4))));
    update(&views, &mut flows, &mut state, Message::StartWidgetEventRowDrag(5, 1));
    update(&views, &mut flows, &mut state, Message::RemoveWidgetEventRow(5, 1));
    assert_eq!(state.widget_event_row_dragging, None);
    assert_eq!(state.widget_event_row_drop_target, None);
    match &flows[0].trigger {
        FlowTrigger::WidgetEvent { rows } => {
            assert_eq!(rows.len(), 1);
            assert_eq!(rows[0].id, 2);
            assert_eq!(rows[0].target, Some((9, 4)));
        },
        other => panic!("expected widget events, got {other:?}"),
    }
    assert!(has_action_graph(&flows, 9, 4, "on_press"));
    assert!(!has_action_graph(&flows, 9, 4, "on_release"));
    flows[0].enabled = false;
    assert!(!has_action_graph(&flows, 9, 4, "on_press"));
}

#[test]
fn moving_a_row_puts_it_at_the_target_and_keeps_all_rows() {
    let mut rows: Vec<WidgetEventRow> = (1..=4u128).map(WidgetEventRow::with_id).collect();
    move_widget_event_row(&mut rows, 1, 3);
    let ids: Vec<u128> = rows.iter().map(|r| r.id).collect();
    assert_eq!(ids, vec![2, 3, 1, 4]);
    move_widget_event_row(&mut rows, 4, 2);
    let ids: Vec<u128> = rows.iter().map(|r| r.id).collect();
    assert_eq!(ids, vec![4, 2, 3, 1]);
    move_widget_event_row(&mut rows, 4, 99);
    let ids: Vec<u128> = rows.iter().map(|r| r.id).collect();
    assert_eq!(ids, vec![4, 2, 3, 1]);
}

#[test]
fn hover_reorders_rows_of_the_dragged_flow_only() {
    let views = ViewMap::new();
    let rows: Vec<WidgetEventRow> = (1..=3u128).map(WidgetEventRow::with_id).collect();
    let mut flows = vec![AppFlow::with_id(5, "f".to_string(), FlowTrigger::WidgetEvent { rows })];
    let mut state = ActionEditorState::default();
    update(&views, &mut flows, &mut state, Message::HoverWidgetEventRow(5, 3));
    assert_eq!(state.widget_event_row_drop_target, None);
    update(&views, &mut flows, &mut state, Message::StartWidgetEventRowDrag(5, 3));
    update(&views, &mut flows, &mut state, Message::HoverWidgetEventRow(5, 1));
    let FlowTrigger::WidgetEvent { rows } = &flows[0].trigger else { panic!("expected widget events") };
    let ids: Vec<u128> = rows.iter().map(|r| r.id).collect();
    assert_eq!(ids, vec![3, 1, 2]);
}

#[test]
fn event_type_list() {
    let names = all_event_types();
    assert_eq!(names.len(), 20);
    assert_eq!(names[0], "on_press");
    assert_eq!(names[19], "on_move");
    assert!(names.contains(&"on_option_hovered".to_string()));
}

use ui_builder::action_editor::GraphEdge;
use ui_builder::nodes::{StateAssignment, ValueSource};

#[test]
fn set_flow_trigger_kind_rebuilds_trigger_ports_immediately() {
    let all_views = ViewMap::new();
    let mut flows = vec![AppFlow::new("flow".to_string(), FlowTrigger::Callable)];
    let flow_id = flows[0].id;
    let mut state = ActionEditorState::default();
    // Keep unselected to verify SetFlowTriggerKind does not rely on selected-flow sync.
    state.selected_flow_id = None;

    let set_state = ActionNodeData::new(
        2,
        ActionNodeKind::StateMutation {
            assignments: vec![StateAssignment {
                target: None,
                value_source: ValueSource::Literal(ActionValue::String(String::new())),
            }],
        },
    );
    let set_state_flow_in: u128 = 0;
    flows[0].nodes.push(set_state);
    flows[0].z_order.push(2);

    let trigger_flow_out = flows[0]
        .nodes
        .iter()
        .find(|n| n.is_trigger())
        .and_then(|n| n.ports_out.first())
        .copied()
        .expect("trigger flow_out");
    flows[0].edges.push(GraphEdge { from_node: 1, from_port: trigger_flow_out, to_node: 2, to_port: set_state_flow_in });
    assert_eq!(flows[0].edges.len(), 1);

    update(&all_views, &mut flows, &mut state, Message::SetFlowTriggerKind(flow_id, "Widget Event".to_string()));

    let trigger = flows[0].nodes.iter().find(|n| n.is_trigger()).expect("trigger node");
    // Default WidgetEvent trigger row has no target, so no flow output ports.
    assert!(trigger.ports_out.is_empty());
    // Old edge was pruned because its trigger source port no longer exists.
    assert!(flows[0].edges.is_empty());
}

#[test]
fn a_new_flow_holds_its_trigger_node() {
    let f = AppFlow::with_id(3, "f".to_string(), FlowTrigger::Timer { interval_ms: 500 });
    assert_eq!(f.nodes.len(), 1);
    assert_eq!(f.nodes[0].id, 1);
    assert!(f.nodes[0].is_trigger());
    assert_eq!(f.nodes[0].ports_out, vec![0]);
    assert_eq!(f.z_order, vec![1]);
    assert!(f.edges.is_empty());
}

#[test]
fn targeting_a_row_gives_the_selected_flows_trigger_a_port_and_untargeting_drops_its_edges() {
    let views = ViewMap::new();
    let mut flows = vec![AppFlow::with_id(5, "f".to_string(), FlowTrigger::WidgetEvent { rows: Vec::new() })];
    let mut state = ActionEditorState::default();
    state.selected_flow_id = Some(5);
    apply_message(&views, &mut flows, &mut state, Message::AddWidgetEventRow(5), 0, 77);
    assert!(flows[0].nodes[0].ports_out.is_empty());
    apply_message(&views, &mut flows, &mut state, Message::SetRowTarget(5, 77, Some((9, 4))), 0, 0);
    assert_eq!(flows[0].nodes[0].ports_out, vec![77]);
    flows[0].edges.push(GraphEdge { from_node: 1, from_port: 77, to_node: 2, to_port: 0 });
    apply_message(&views, &mut flows, &mut state, Message::SetRowTarget(5, 77, None), 0, 0);
    assert!(flows[0].nodes[0].ports_out.is_empty());
    assert!(flows[0].edges.is_empty());
}
