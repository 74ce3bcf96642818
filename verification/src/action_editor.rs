//! Flows and the action editor: each flow has a trigger and an action graph;
//! the editor selects a flow, edits its trigger (with drag-to-reorder of
//! widget-event rows) and applies node edits to the selected flow's graph.

use vstd::prelude::*;
use crate::add_views::ViewMap;
use crate::ids::fresh_id;
use crate::naming::{numbered, decimal_spec, parse_u64, u64_reading};
use crate::nodes::{ActionNodeData, ActionNodeKind, KindV, NodeMessage, NodeV, node_after, node_message_ok, update_node};
use crate::state_fields::{edit_context_spec, node_edit_context};
use crate::type_system::{TypeSystem, enum_by_name};

verus! {

/// The first position of `x` in `s`, if any.
pub open spec fn first_index_of<T>(s: Seq<T>, x: T) -> Option<int>
    decreases s.len(),
{
    if s.len() == 0 {
        None
    } else if s[0] == x {
        Some(0)
    } else {
        match first_index_of(s.drop_first(), x) {
            Some(k) => Some(k + 1),
            None => None,
        }
    }
}

/// `x` first occurs at `i` when it is there and nowhere before.
pub proof fn lemma_first_index_at<T>(s: Seq<T>, x: T, i: int)
    requires
        0 <= i < s.len(),
        s[i] == x,
        forall|j: int| 0 <= j < i ==> s[j] != x,
    ensures
        first_index_of(s, x) == Some(i),
    decreases i,
{
    if i > 0 {
        lemma_first_index_at(s.drop_first(), x, i - 1);
    }
}

/// `x` has no position when it occurs nowhere.
pub proof fn lemma_first_index_none<T>(s: Seq<T>, x: T)
    requires
        forall|j: int| 0 <= j < s.len() ==> s[j] != x,
    ensures
        first_index_of(s, x) is None,
    decreases s.len(),
{
    if s.len() > 0 {
        lemma_first_index_none(s.drop_first(), x);
    }
}

/// A found position is in range and holds `x`, with no `x` before it.
pub proof fn lemma_first_index_some<T>(s: Seq<T>, x: T)
    ensures
        first_index_of(s, x) matches Some(k) ==> 0 <= k < s.len() && s[k] == x
            && forall|j: int| 0 <= j < k ==> s[j] != x,
        first_index_of(s, x) is None ==> forall|j: int| 0 <= j < s.len() ==> s[j] != x,
    decreases s.len(),
{
    if s.len() > 0 {
        lemma_first_index_some(s.drop_first(), x);
        if s[0] != x {
            assert forall|j: int| 1 <= j < s.len() implies s.drop_first()[j - 1] == s[j] by {}
        }
    }
}

/// One row of a widget-event trigger: an event of a widget (by view id and
/// widget id) that starts the flow.
#[derive(Debug)]
pub struct WidgetEventRow {
    pub id: u128,
    pub event_type: String,
    pub target: Option<(u128, u64)>,
}

/// Mathematical form of a [`WidgetEventRow`].
pub struct RowV {
    pub id: u128,
    pub event_type: Seq<char>,
    pub target: Option<(u128, u64)>,
}

impl View for WidgetEventRow {
    type V = RowV;

    open spec fn view(&self) -> RowV {
        RowV { id: self.id, event_type: self.event_type@, target: self.target }
    }
}

/// The views of a list of rows.
pub open spec fn rows_view(v: Seq<WidgetEventRow>) -> Seq<RowV> {
    v.map_values(|r: WidgetEventRow| r@)
}

/// The ids of a list of rows.
pub open spec fn row_ids(v: Seq<RowV>) -> Seq<u128> {
    v.map_values(|r: RowV| r.id)
}

impl WidgetEventRow {
    /// A row for the press event, with no widget chosen yet.
    pub fn with_id(id: u128) -> (r: Self)
        ensures
            r@ == (RowV { id, event_type: "on_press"@, target: None }),
    {
        WidgetEventRow { id, event_type: "on_press".to_string(), target: None }
    }

    /// A row as [`WidgetEventRow::with_id`] makes it, under a new random id.
    pub fn new() -> (r: Self)
        ensures
            r@.event_type == "on_press"@,
            r@.target is None,
    {
        WidgetEventRow::with_id(fresh_id())
    }
}

/// What starts a flow.
#[derive(Debug)]
pub enum FlowTrigger {
    /// Started by another flow's call node.
    Callable,
    /// Started by any of the listed widget events.
    WidgetEvent { rows: Vec<WidgetEventRow> },
    /// Started every `interval_ms` milliseconds.
    Timer { interval_ms: u64 },
    /// Started by a key with modifiers.
    KeyCombo { key: String, ctrl: bool, shift: bool, alt: bool },
}

/// Mathematical form of a [`FlowTrigger`].
pub enum TriggerV {
    Callable,
    WidgetEvent { rows: Seq<RowV> },
    Timer { interval_ms: u64 },
    KeyCombo { key: Seq<char>, ctrl: bool, shift: bool, alt: bool },
}

impl View for FlowTrigger {
    type V = TriggerV;

    open spec fn view(&self) -> TriggerV {
        match self {
            FlowTrigger::Callable => TriggerV::Callable,
            FlowTrigger::WidgetEvent { rows } => TriggerV::WidgetEvent { rows: rows_view(rows@) },
            FlowTrigger::Timer { interval_ms } => TriggerV::Timer { interval_ms: *interval_ms },
            FlowTrigger::KeyCombo { key, ctrl, shift, alt } => TriggerV::KeyCombo {
                key: key@,
                ctrl: *ctrl,
                shift: *shift,
                alt: *alt,
            },
        }
    }
}

/// The label of a trigger kind, as the kind picker shows it.
pub open spec fn kind_label_spec(t: TriggerV) -> Seq<char> {
    match t {
        TriggerV::Callable => "Callable"@,
        TriggerV::WidgetEvent { .. } => "Widget Event"@,
        TriggerV::Timer { .. } => "Timer"@,
        TriggerV::KeyCombo { .. } => "Key Combo"@,
    }
}

/// The fresh trigger of the kind labelled `label` (a callable trigger for
/// an unknown label): a widget-event trigger starts with one default row
/// (`row_id`), a timer with one second, a key combo with no key.
pub open spec fn kind_trigger_spec(label: Seq<char>, row_id: u128) -> TriggerV {
    if label == "Widget Event"@ {
        TriggerV::WidgetEvent { rows: seq![RowV { id: row_id, event_type: "on_press"@, target: None }] }
    } else if label == "Timer"@ {
        TriggerV::Timer { interval_ms: 1000 }
    } else if label == "Key Combo"@ {
        TriggerV::KeyCombo { key: Seq::empty(), ctrl: false, shift: false, alt: false }
    } else {
        TriggerV::Callable
    }
}

impl FlowTrigger {
    /// The label of this trigger's kind.
    pub fn kind_label(&self) -> (s: &'static str)
        ensures
            s@ == kind_label_spec(self@),
    {
        match self {
            FlowTrigger::Callable => "Callable",
            FlowTrigger::WidgetEvent { .. } => "Widget Event",
            FlowTrigger::Timer { .. } => "Timer",
            FlowTrigger::KeyCombo { .. } => "Key Combo",
        }
    }
}

/// The fresh trigger of the kind labelled `label` (see
/// [`kind_trigger_spec`]).
pub fn trigger_for_kind_label(label: &str, row_id: u128) -> (t: FlowTrigger)
    ensures
        t@ == kind_trigger_spec(label@, row_id),
{
    let l = label.to_string();
    if l == "Widget Event".to_string() {
        let rows = vec![WidgetEventRow::with_id(row_id)];
        proof {
            assert(rows_view(rows@) =~= seq![RowV { id: row_id, event_type: "on_press"@, target: None }]);
        }
        FlowTrigger::WidgetEvent { rows }
    } else if l == "Timer".to_string() {
        FlowTrigger::Timer { interval_ms: 1000 }
    } else if l == "Key Combo".to_string() {
        FlowTrigger::KeyCombo { key: String::new(), ctrl: false, shift: false, alt: false }
    } else {
        FlowTrigger::Callable
    }
}

/// A flow: a named action graph with its trigger.
#[derive(Debug)]
pub struct AppFlow {
    pub id: u128,
    pub name: String,
    pub enabled: bool,
    pub trigger: FlowTrigger,
    /// The nodes of the flow's action graph.
    pub nodes: Vec<ActionNodeData>,
    /// The connections between the nodes' ports.
    pub edges: Vec<GraphEdge>,
    /// The node ids in drawing order, bottom first.
    pub z_order: Vec<u64>,
}

/// A connection of the action graph, from an output port of one node to an
/// input port of another.
#[derive(Debug, Clone, Copy, PartialEq, Eq, Structural)]
pub struct GraphEdge {
    pub from_node: u64,
    pub from_port: u128,
    pub to_node: u64,
    pub to_port: u128,
}

/// Mathematical form of an [`AppFlow`].
pub struct FlowV {
    pub id: u128,
    pub name: Seq<char>,
    pub enabled: bool,
    pub trigger: TriggerV,
    pub nodes: Seq<NodeV>,
    pub edges: Seq<GraphEdge>,
    pub z_order: Seq<u64>,
}

/// The views of a list of nodes.
pub open spec fn nodes_view(v: Seq<ActionNodeData>) -> Seq<NodeV> {
    v.map_values(|n: ActionNodeData| n@)
}

impl View for AppFlow {
    type V = FlowV;

    open spec fn view(&self) -> FlowV {
        FlowV {
            id: self.id,
            name: self.name@,
            enabled: self.enabled,
            trigger: self.trigger@,
            nodes: nodes_view(self.nodes@),
            edges: self.edges@,
            z_order: self.z_order@,
        }
    }
}

/// The views of a list of flows.
pub open spec fn flows_view(v: Seq<AppFlow>) -> Seq<FlowV> {
    v.map_values(|f: AppFlow| f@)
}

/// The ids of a list of flows.
pub open spec fn flow_ids(v: Seq<FlowV>) -> Seq<u128> {
    v.map_values(|f: FlowV| f.id)
}

/// The ids of a list of nodes.
pub open spec fn node_ids(v: Seq<NodeV>) -> Seq<u64> {
    v.map_values(|n: NodeV| n.id)
}

impl AppFlow {
    /// A flow as [`new_flow_spec`] describes it.
    pub fn with_id(id: u128, name: String, trigger: FlowTrigger) -> (f: Self)
        ensures
            f@ == new_flow_spec(id, name@, trigger@),
    {
        let mut nodes: Vec<ActionNodeData> = Vec::new();
        nodes.push(ActionNodeData::new(1, ActionNodeKind::Trigger { event_name: "entry".to_string() }));
        let mut z_order: Vec<u64> = Vec::new();
        z_order.push(1);
        let mut f = AppFlow { id, name, enabled: true, trigger, nodes, edges: Vec::new(), z_order };
        proof {
            assert(nodes_view(f.nodes@) =~= seq![new_trigger_node_spec()]);
            assert(f@ == unsynced_new_flow(id, f.name@, f.trigger@));
        }
        sync_trigger_topology(&mut f);
        f
    }

    /// A flow as [`AppFlow::with_id`] makes it, under a new random id.
    pub fn new(name: String, trigger: FlowTrigger) -> (f: Self)
        ensures
            f@ == new_flow_spec(f@.id, name@, trigger@),
    {
        AppFlow::with_id(fresh_id(), name, trigger)
    }
}

/// What the action editor keeps between edits: the flow being edited, the
/// flows browser's filter, and the widget-event row being dragged with the
/// row it hovers (each as flow id and row id).
#[derive(Debug)]
pub struct ActionEditorState {
    pub selected_flow_id: Option<u128>,
    pub flow_search: String,
    pub widget_event_row_dragging: Option<(u128, u128)>,
    pub widget_event_row_drop_target: Option<(u128, u128)>,
}

/// Mathematical form of an [`ActionEditorState`].
pub struct EditorV {
    pub selected_flow_id: Option<u128>,
    pub flow_search: Seq<char>,
    pub dragging: Option<(u128, u128)>,
    pub drop_target: Option<(u128, u128)>,
}

impl View for ActionEditorState {
    type V = EditorV;

    open spec fn view(&self) -> EditorV {
        EditorV {
            selected_flow_id: self.selected_flow_id,
            flow_search: self.flow_search@,
            dragging: self.widget_event_row_dragging,
            drop_target: self.widget_event_row_drop_target,
        }
    }
}

impl Default for ActionEditorState {
    /// No flow selected, no filter, no drag.
    fn default() -> (s: Self)
        ensures
            s@ == (EditorV { selected_flow_id: None, flow_search: Seq::empty(), dragging: None, drop_target: None }),
    {
        ActionEditorState {
            selected_flow_id: None,
            flow_search: String::new(),
            widget_event_row_dragging: None,
            widget_event_row_drop_target: None,
        }
    }
}

/// Ends any drag in progress.
pub fn clear_interaction(state: &mut ActionEditorState)
    ensures
        final(state)@ == (EditorV { dragging: None, drop_target: None, ..old(state)@ }),
{
    state.widget_event_row_dragging = None;
    state.widget_event_row_drop_target = None;
}

/// The widget event names a trigger row can name.
pub open spec fn event_types_spec() -> Seq<Seq<char>> {
    seq![
        "on_press"@, "on_release"@, "on_double_click"@, "on_input"@, "on_submit"@, "on_paste"@,
        "on_toggle"@, "on_change"@, "on_select"@, "on_option_hovered"@, "on_open"@, "on_close"@,
        "on_right_press"@, "on_right_release"@, "on_middle_press"@, "on_middle_release"@,
        "on_scroll"@, "on_enter"@, "on_exit"@, "on_move"@,
    ]
}

/// The widget event names a trigger row can name (see
/// [`event_types_spec`]).
pub fn all_event_types() -> (v: Vec<String>)
    ensures
        crate::values::strs_view(v@) == event_types_spec(),
{
    let names: [&str; 20] = [
        "on_press", "on_release", "on_double_click", "on_input", "on_submit", "on_paste",
        "on_toggle", "on_change", "on_select", "on_option_hovered", "on_open", "on_close",
        "on_right_press", "on_right_release", "on_middle_press", "on_middle_release",
        "on_scroll", "on_enter", "on_exit", "on_move",
    ];
    let ghost spec_names = event_types_spec();
    let mut v: Vec<String> = Vec::new();
    let mut i: usize = 0;
    proof {
        assert(names@ =~= seq![
            "on_press", "on_release", "on_double_click", "on_input", "on_submit", "on_paste",
            "on_toggle", "on_change", "on_select", "on_option_hovered", "on_open", "on_close",
            "on_right_press", "on_right_release", "on_middle_press", "on_middle_release",
            "on_scroll", "on_enter", "on_exit", "on_move",
        ]);
    }
    while i < 20
        invariant
            names@.len() == 20,
            forall|k: int| 0 <= k < 20 ==> #[trigger] names@[k]@ == spec_names[k],
            spec_names == event_types_spec(),
            i <= 20,
            crate::values::strs_view(v@) == spec_names.subrange(0, i as int),
        decreases 20 - i,
    {
        let s = names[i].to_string();
        let ghost sv = s@;
        let ghost before = v@;
        v.push(s);
        i = i + 1;
        proof {
            assert(crate::values::strs_view(v@) =~= crate::values::strs_view(before).push(sv));
            assert(spec_names.subrange(0, i as int) =~= spec_names.subrange(0, i - 1).push(spec_names[i - 1]));
        }
    }
    proof {
        assert(spec_names.subrange(0, 20) =~= spec_names);
    }
    v
}

} // verus!

verus! {

/// The rows after dragging the row `drag_id` onto the row `target_id`: the
/// dragged row is taken out and put back at the target's position; nothing
/// changes when either row is missing or they are the same row.
pub open spec fn moved_rows(rows: Seq<RowV>, drag_id: u128, target_id: u128) -> Seq<RowV> {
    match (first_index_of(row_ids(rows), drag_id), first_index_of(row_ids(rows), target_id)) {
        (Some(from), Some(to)) => if from != to {
            rows.remove(from).insert(to, rows[from])
        } else {
            rows
        },
        _ => rows,
    }
}

/// The position of the first row with `id`.
pub fn find_row(rows: &Vec<WidgetEventRow>, id: u128) -> (r: Option<usize>)
    ensures
        match r {
            Some(k) => first_index_of(row_ids(rows_view(rows@)), id) == Some(k as int),
            None => first_index_of(row_ids(rows_view(rows@)), id) is None,
        },
{
    let ghost ids = row_ids(rows_view(rows@));
    let mut i: usize = 0;
    while i < rows.len()
        invariant
            ids == row_ids(rows_view(rows@)),
            i <= rows@.len(),
            forall|j: int| 0 <= j < i ==> ids[j] != id,
        decreases rows@.len() - i,
    {
        if rows[i].id == id {
            proof {
                lemma_first_index_at(ids, id, i as int);
            }
            return Some(i);
        }
        i = i + 1;
    }
    proof {
        lemma_first_index_none(ids, id);
    }
    None
}

/// Moves the dragged row to the hovered row's place (see [`moved_rows`]).
pub fn move_widget_event_row(rows: &mut Vec<WidgetEventRow>, drag_id: u128, target_id: u128)
    ensures
        rows_view(final(rows)@) == moved_rows(rows_view(old(rows)@), drag_id, target_id),
{
    let ghost r0 = rows_view(rows@);
    let from = find_row(rows, drag_id);
    let to = find_row(rows, target_id);
    if let (Some(from), Some(to)) = (from, to) {
        if from != to {
            proof {
                lemma_first_index_some(row_ids(r0), drag_id);
                lemma_first_index_some(row_ids(r0), target_id);
            }
            let row = rows.remove(from);
            let ghost rv = row@;
            let insert = if to < rows.len() { to } else { rows.len() };
            rows.insert(insert, row);
            proof {
                assert(rows_view(rows@) =~= r0.remove(from as int).insert(to as int, r0[from as int]));
            }
        }
    }
}

/// Dragging a row reorders the rows and loses none: the same rows remain,
/// as many as before, and the dragged row lands where the target row was.
pub proof fn law_row_move_is_a_reordering(rows: Seq<RowV>, drag_id: u128, target_id: u128)
    ensures
        moved_rows(rows, drag_id, target_id).len() == rows.len(),
        forall|r: RowV| rows.contains(r) <==> moved_rows(rows, drag_id, target_id).contains(r),
        first_index_of(row_ids(rows), drag_id) matches Some(from) ==> first_index_of(row_ids(rows), target_id) matches Some(to)
            ==> moved_rows(rows, drag_id, target_id)[to] == rows[from],
{
    lemma_first_index_some(row_ids(rows), drag_id);
    lemma_first_index_some(row_ids(rows), target_id);
    match (first_index_of(row_ids(rows), drag_id), first_index_of(row_ids(rows), target_id)) {
        (Some(from), Some(to)) => {
            if from != to {
                let m = rows.remove(from).insert(to, rows[from]);
                let rest = rows.remove(from);
                assert forall|r: RowV| rows.contains(r) <==> m.contains(r) by {
                    if rows.contains(r) {
                        let i = choose|i: int| 0 <= i < rows.len() && rows[i] == r;
                        if i == from {
                            assert(m[to] == r);
                        } else if i < from {
                            assert(rest[i] == r);
                            if i < to {
                                assert(m[i] == r);
                            } else {
                                assert(m[i + 1] == r);
                            }
                        } else {
                            assert(rest[i - 1] == r);
                            if i - 1 < to {
                                assert(m[i - 1] == r);
                            } else {
                                assert(m[i] == r);
                            }
                        }
                    }
                    if m.contains(r) {
                        let i = choose|i: int| 0 <= i < m.len() && m[i] == r;
                        if i == to {
                            assert(rows[from] == r);
                        } else {
                            let k = if i < to { i } else { i - 1 };
                            assert(rest[k] == r);
                            if k < from {
                                assert(rows[k] == r);
                            } else {
                                assert(rows[k + 1] == r);
                            }
                        }
                    }
                }
            }
        },
        _ => {},
    }
}

/// Whether some row of `rows` names `event_name` of the widget `widget_id`
/// of the view `view_id`.
pub open spec fn rows_name_event_spec(rows: Seq<RowV>, view_id: u128, widget_id: u64, event_name: Seq<char>) -> bool {
    exists|j: int| 0 <= j < rows.len() && #[trigger] rows[j].event_type == event_name
        && rows[j].target == Some((view_id, widget_id))
}

/// Whether the flow is enabled and starts on `event_name` of the widget.
pub open spec fn flow_starts_on(f: FlowV, view_id: u128, widget_id: u64, event_name: Seq<char>) -> bool {
    f.enabled && match f.trigger {
        TriggerV::WidgetEvent { rows } => rows_name_event_spec(rows, view_id, widget_id, event_name),
        _ => false,
    }
}

/// Whether an enabled flow starts on `event_name` of the widget `widget_id`
/// of the view `view_id`.
pub open spec fn has_action_graph_spec(fs: Seq<FlowV>, view_id: u128, widget_id: u64, event_name: Seq<char>) -> bool {
    exists|i: int| 0 <= i < fs.len() && #[trigger] flow_starts_on(fs[i], view_id, widget_id, event_name)
}

fn rows_name_event(rows: &Vec<WidgetEventRow>, view_id: u128, widget_id: u64, event_name: &str) -> (b: bool)
    ensures
        b == rows_name_event_spec(rows_view(rows@), view_id, widget_id, event_name@),
{
    let ev = event_name.to_string();
    let mut j: usize = 0;
    while j < rows.len()
        invariant
            ev@ == event_name@,
            j <= rows@.len(),
            forall|k: int| 0 <= k < j ==> !(#[trigger] rows_view(rows@)[k].event_type == event_name@
                && rows_view(rows@)[k].target == Some((view_id, widget_id))),
        decreases rows@.len() - j,
    {
        let hit = match rows[j].target {
            Some((v, w)) => v == view_id && w == widget_id,
            None => false,
        };
        if rows[j].event_type == ev && hit {
            proof {
                assert(rows_view(rows@)[j as int].event_type == event_name@);
            }
            return true;
        }
        j = j + 1;
    }
    false
}

/// Whether an enabled flow starts on `event_name` of the given widget (see
/// [`has_action_graph_spec`]).
pub fn has_action_graph(flows: &Vec<AppFlow>, view_id: u128, widget_id: u64, event_name: &str) -> (b: bool)
    ensures
        b == has_action_graph_spec(flows_view(flows@), view_id, widget_id, event_name@),
{
    let ghost fs = flows_view(flows@);
    let mut i: usize = 0;
    while i < flows.len()
        invariant
            fs == flows_view(flows@),
            i <= flows@.len(),
            forall|a: int| 0 <= a < i ==> !#[trigger] flow_starts_on(fs[a], view_id, widget_id, event_name@),
        decreases flows@.len() - i,
    {
        if flows[i].enabled {
            if let FlowTrigger::WidgetEvent { rows } = &flows[i].trigger {
                if rows_name_event(rows, view_id, widget_id, event_name) {
                    proof {
                        assert(flow_starts_on(fs[i as int], view_id, widget_id, event_name@));
                    }
                    return true;
                }
            }
        }
        i = i + 1;
    }
    false
}

} // verus!

verus! {

/// An edit in the action editor.
#[derive(Debug)]
pub enum Message {
    /// An authoring edit of a node (by id) of the selected flow's graph.
    Node(u64, NodeMessage),
    /// A selection edit on the selected flow's graph.
    Graph(GraphAction),
    SelectFlow(u128),
    AddFlow,
    DeleteFlow(u128),
    SetFlowSearch(String),
    SetFlowName(u128, String),
    /// Gives the flow a fresh trigger of the kind with this label.
    SetFlowTriggerKind(u128, String),
    /// The typed interval of a timer trigger; kept only when it reads as a
    /// number.
    SetFlowTimerInterval(u128, String),
    SetFlowKeyComboKey(u128, String),
    /// The control, shift and alt modifiers of a key-combo trigger.
    SetFlowKeyComboMods(u128, bool, bool, bool),
    AddWidgetEventRow(u128),
    /// Removes a row (flow id, row id).
    RemoveWidgetEventRow(u128, u128),
    /// Sets a row's event (flow id, row id, event); the last field says
    /// whether the widget the row targets supports the new event (the
    /// widgets' event tables live with the widget catalogue, outside this
    /// library).
    SetRowEventType(u128, u128, String, bool),
    SetRowTarget(u128, u128, Option<(u128, u64)>),
    StartWidgetEventRowDrag(u128, u128),
    /// The dragged row hovers over a row (flow id, row id).
    HoverWidgetEventRow(u128, u128),
    EndWidgetEventRowDrag,
}

/// A row after its event is set to `ev`: when the event changed and the
/// targeted widget does not support it, the target is cleared.
pub open spec fn row_with_event(r: RowV, ev: Seq<char>, supported: bool) -> RowV {
    RowV {
        event_type: ev,
        target: if r.event_type != ev && r.target is Some && !supported { None } else { r.target },
        ..r
    }
}

/// The rows of a widget-event trigger after an edit of one row (the first
/// with the id); other triggers are left alone.
pub open spec fn rows_edit(t: TriggerV, row_id: u128, f: spec_fn(RowV) -> RowV) -> TriggerV {
    match t {
        TriggerV::WidgetEvent { rows } => match first_index_of(row_ids(rows), row_id) {
            Some(k) => TriggerV::WidgetEvent { rows: rows.update(k, f(rows[k])) },
            None => t,
        },
        _ => t,
    }
}

/// A flow after a flow edit; `new_row_id` is the id a new row gets.
pub open spec fn flow_after(f: FlowV, msg: Message, new_row_id: u128) -> FlowV {
    match msg {
        Message::SetFlowName(_, name) => FlowV { name: name@, ..f },
        Message::SetFlowTriggerKind(_, label) => synced_topology(
            FlowV { trigger: kind_trigger_spec(label@, new_row_id), ..f },
        ),
        Message::SetFlowTimerInterval(_, raw) => match (f.trigger, u64_reading(raw@)) {
            (TriggerV::Timer { .. }, Some(v)) => FlowV { trigger: TriggerV::Timer { interval_ms: v }, ..f },
            _ => f,
        },
        Message::SetFlowKeyComboKey(_, key) => match f.trigger {
            TriggerV::KeyCombo { ctrl, shift, alt, .. } => FlowV {
                trigger: TriggerV::KeyCombo { key: key@, ctrl, shift, alt },
                ..f
            },
            _ => f,
        },
        Message::SetFlowKeyComboMods(_, ctrl, shift, alt) => match f.trigger {
            TriggerV::KeyCombo { key, .. } => FlowV { trigger: TriggerV::KeyCombo { key, ctrl, shift, alt }, ..f },
            _ => f,
        },
        Message::AddWidgetEventRow(_) => match f.trigger {
            TriggerV::WidgetEvent { rows } => FlowV {
                trigger: TriggerV::WidgetEvent {
                    rows: rows.push(RowV { id: new_row_id, event_type: "on_press"@, target: None }),
                },
                ..f
            },
            _ => f,
        },
        Message::RemoveWidgetEventRow(_, row_id) => match f.trigger {
            TriggerV::WidgetEvent { rows } => FlowV {
                trigger: TriggerV::WidgetEvent { rows: rows.filter(|r: RowV| r.id != row_id) },
                ..f
            },
            _ => f,
        },
        Message::SetRowEventType(_, row_id, ev, supported) => FlowV {
            trigger: rows_edit(f.trigger, row_id, |r: RowV| row_with_event(r, ev@, supported)),
            ..f
        },
        Message::SetRowTarget(_, row_id, target) => FlowV {
            trigger: rows_edit(f.trigger, row_id, |r: RowV| RowV { target, ..r }),
            ..f
        },
        _ => f,
    }
}

/// The flows with the first flow with `id` replaced by `g(flow)`.
pub open spec fn edit_flow(fs: Seq<FlowV>, id: u128, g: spec_fn(FlowV) -> FlowV) -> Seq<FlowV> {
    match first_index_of(flow_ids(fs), id) {
        Some(k) => fs.update(k, g(fs[k])),
        None => fs,
    }
}

/// The editor state with no drag in progress.
pub open spec fn cleared(st: EditorV) -> EditorV {
    EditorV { dragging: None, drop_target: None, ..st }
}

/// The flows and editor state right after an edit, before the selected
/// flow's trigger topology is brought in step (see [`update_spec`]).
pub open spec fn message_spec(
    vs: Seq<crate::add_views::AppView>,
    fs: Seq<FlowV>,
    st: EditorV,
    msg: Message,
    new_flow_id: u128,
    new_row_id: u128,
) -> (Seq<FlowV>, EditorV) {
    match msg {
        Message::Node(node_id, nm) => match st.selected_flow_id {
            Some(fid) => (
                edit_flow(fs, fid, |f: FlowV| match first_index_of(node_ids(f.nodes), node_id) {
                    Some(j) => FlowV {
                        nodes: f.nodes.update(j, node_after(f.nodes[j], nm, edit_context_spec(vs))),
                        ..f
                    },
                    None => f,
                }),
                st,
            ),
            None => (fs, st),
        },
        Message::Graph(a) => match st.selected_flow_id {
            Some(fid) => (edit_flow(fs, fid, |f: FlowV| graph_flow_after(f, a)), st),
            None => (fs, st),
        },
        Message::SelectFlow(id) => (
            fs,
            cleared(EditorV {
                selected_flow_id: if flow_ids(fs).contains(id) { Some(id) } else { st.selected_flow_id },
                ..st
            }),
        ),
        Message::AddFlow => (
            fs.push(new_flow_spec(new_flow_id, "flow_"@ + decimal_spec(fs.len() + 1), TriggerV::Callable)),
            cleared(EditorV { selected_flow_id: Some(new_flow_id), ..st }),
        ),
        Message::DeleteFlow(id) => (
            fs.filter(|f: FlowV| f.id != id),
            EditorV {
                selected_flow_id: if st.selected_flow_id == Some(id) { None } else { st.selected_flow_id },
                ..st
            },
        ),
        Message::SetFlowSearch(s) => (fs, EditorV { flow_search: s@, ..st }),
        Message::RemoveWidgetEventRow(fid, rid) => (
            edit_flow(fs, fid, |f: FlowV| flow_after(f, msg, new_row_id)),
            if st.dragging == Some((fid, rid)) { cleared(st) } else { st },
        ),
        Message::StartWidgetEventRowDrag(fid, rid) => (
            fs,
            EditorV { dragging: Some((fid, rid)), drop_target: Some((fid, rid)), ..st },
        ),
        Message::HoverWidgetEventRow(fid, target) => match st.dragging {
            Some((drag_fid, drag_rid)) => if drag_fid == fid {
                (
                    edit_flow(fs, fid, |f: FlowV| match f.trigger {
                        TriggerV::WidgetEvent { rows } => FlowV {
                            trigger: TriggerV::WidgetEvent { rows: moved_rows(rows, drag_rid, target) },
                            ..f
                        },
                        _ => f,
                    }),
                    EditorV { drop_target: Some((fid, target)), ..st },
                )
            } else {
                (fs, st)
            },
            None => (fs, st),
        },
        Message::EndWidgetEventRowDrag => (fs, cleared(st)),
        Message::SetFlowName(fid, _) | Message::SetFlowTriggerKind(fid, _) | Message::SetFlowTimerInterval(fid, _)
        | Message::SetFlowKeyComboKey(fid, _) | Message::SetFlowKeyComboMods(fid, _, _, _)
        | Message::AddWidgetEventRow(fid) | Message::SetRowEventType(fid, _, _, _)
        | Message::SetRowTarget(fid, _, _) => (edit_flow(fs, fid, |f: FlowV| flow_after(f, msg, new_row_id)), st),
    }
}

} // verus!

verus! {

/// Keeps the rows whose id is not `row_id`.
fn retain_rows(rows: &mut Vec<WidgetEventRow>, row_id: u128)
    ensures
        rows_view(final(rows)@) == rows_view(old(rows)@).filter(|r: RowV| r.id != row_id),
{
    let ghost rs = rows_view(rows@);
    let ghost pred = |r: RowV| r.id != row_id;
    let mut rest: Vec<WidgetEventRow> = Vec::new();
    std::mem::swap(&mut rest, rows);
    let n = rest.len();
    let mut k: usize = 0;
    proof {
        assert(rows_view(rows@) =~= rs.subrange(0, 0).filter(pred)) by {
            reveal(Seq::filter);
        }
    }
    while rest.len() > 0
        invariant
            pred == (|r: RowV| r.id != row_id),
            n == rs.len(),
            rest@.len() + k == n,
            rows_view(rest@) == rs.subrange(k as int, n as int),
            rows_view(rows@) == rs.subrange(0, k as int).filter(pred),
        decreases rest@.len(),
    {
        let ghost rest0 = rest@;
        proof {
            assert(rows_view(rest0)[0] == rs.subrange(k as int, n as int)[0]);
        }
        let r = rest.remove(0);
        let ghost rv = r@;
        let ghost s1 = rs.subrange(0, k + 1);
        let ghost before = rows@;
        proof {
            assert(rv == rs[k as int]);
            assert(rest@ =~= rest0.subrange(1, rest0.len() as int));
            assert(s1.drop_last() =~= rs.subrange(0, k as int));
            assert(s1.last() == rv);
            reveal(Seq::filter);
        }
        if r.id != row_id {
            rows.push(r);
            proof {
                assert(rows_view(rows@) =~= rows_view(before).push(rv));
            }
        }
        k = k + 1;
        proof {
            assert(rows_view(rest@) =~= rows_view(rest0).subrange(1, rest0.len() as int));
            assert(rows_view(rest@) =~= rs.subrange(k as int, n as int));
            assert(rows_view(rows@) =~= s1.filter(pred));
        }
    }
    proof {
        assert(rs.subrange(0, n as int) =~= rs);
    }
}

/// Applies `f` to the first row with `row_id` of a widget-event trigger.
fn edit_row(t: &mut FlowTrigger, row_id: u128, ev: Option<(String, bool)>, target: Option<Option<(u128, u64)>>)
    requires
        ev is Some != target is Some,
    ensures
        final(t)@ == rows_edit(old(t)@, row_id, |r: RowV| match (ev, target) {
            (Some((e, s)), _) => row_with_event(r, e@, s),
            (_, Some(tg)) => RowV { target: tg, ..r },
            _ => r,
        }),
{
    if let FlowTrigger::WidgetEvent { rows } = t {
        let ghost rs = rows_view(rows@);
        if let Some(k) = find_row(rows, row_id) {
            proof {
                lemma_first_index_some(row_ids(rs), row_id);
            }
            let mut r = rows.remove(k);
            match ev {
                Some((e, supported)) => {
                    let changed = r.event_type != e;
                    r.event_type = e;
                    if changed && r.target.is_some() && !supported {
                        r.target = None;
                    }
                },
                None => match target {
                    Some(tg) => {
                        r.target = tg;
                    },
                    None => {},
                },
            }
            let ghost rv = r@;
            rows.insert(k, r);
            proof {
                assert(rows_view(rows@) =~= rs.update(k as int, rv));
            }
        }
    }
}

/// Applies a flow edit to one flow (see [`flow_after`]).
pub fn apply_flow_edit(f: &mut AppFlow, msg: Message, new_row_id: u128)
    requires
        match msg {
            Message::AddWidgetEventRow(_) => match old(f)@.trigger {
                TriggerV::WidgetEvent { rows } => rows.len() < usize::MAX,
                _ => true,
            },
            _ => true,
        },
    ensures
        final(f)@ == flow_after(old(f)@, msg, new_row_id),
{
    match msg {
        Message::SetFlowName(_, name) => {
            f.name = name;
        },
        Message::SetFlowTriggerKind(_, label) => {
            f.trigger = trigger_for_kind_label(label.as_str(), new_row_id);
            sync_trigger_topology(f);
        },
        Message::SetFlowTimerInterval(_, raw) => {
            if let FlowTrigger::Timer { interval_ms } = &mut f.trigger {
                if let Some(v) = parse_u64(raw.as_str()) {
                    *interval_ms = v;
                }
            }
        },
        Message::SetFlowKeyComboKey(_, key) => {
            if let FlowTrigger::KeyCombo { key: k, .. } = &mut f.trigger {
                *k = key;
            }
        },
        Message::SetFlowKeyComboMods(_, ctrl, shift, alt) => {
            if let FlowTrigger::KeyCombo { ctrl: c, shift: s, alt: a, .. } = &mut f.trigger {
                *c = ctrl;
                *s = shift;
                *a = alt;
            }
        },
        Message::AddWidgetEventRow(_) => {
            if let FlowTrigger::WidgetEvent { rows } = &mut f.trigger {
                let ghost rs = rows_view(rows@);
                let r = WidgetEventRow::with_id(new_row_id);
                let ghost rv = r@;
                rows.push(r);
                proof {
                    assert(rows_view(rows@) =~= rs.push(rv));
                }
            }
        },
        Message::RemoveWidgetEventRow(_, row_id) => {
            if let FlowTrigger::WidgetEvent { rows } = &mut f.trigger {
                retain_rows(rows, row_id);
            }
        },
        Message::SetRowEventType(_, row_id, ev, supported) => {
            edit_row(&mut f.trigger, row_id, Some((ev, supported)), None);
        },
        Message::SetRowTarget(_, row_id, target) => {
            edit_row(&mut f.trigger, row_id, None, Some(target));
        },
        _ => {},
    }
}

} // verus!

verus! {

/// Whether an edit can be applied without failing: a node edit must be one
/// its node accepts (see [`node_message_ok`]), and counts must stay below
/// the machine's limits.
pub open spec fn edit_ok(fs: Seq<FlowV>, st: EditorV, msg: Message) -> bool {
    match msg {
        Message::Node(node_id, nm) => match st.selected_flow_id {
            Some(fid) => match first_index_of(flow_ids(fs), fid) {
                Some(k) => match first_index_of(node_ids(fs[k].nodes), node_id) {
                    Some(j) => node_message_ok(fs[k].nodes[j], nm),
                    None => true,
                },
                None => true,
            },
            None => true,
        },
        Message::AddFlow => fs.len() < u64::MAX,
        Message::AddWidgetEventRow(fid) => match first_index_of(flow_ids(fs), fid) {
            Some(k) => match fs[k].trigger {
                TriggerV::WidgetEvent { rows } => rows.len() < usize::MAX,
                _ => true,
            },
            None => true,
        },
        _ => true,
    }
}

/// The position of the first flow with `id`.
pub fn find_flow(flows: &Vec<AppFlow>, id: u128) -> (r: Option<usize>)
    ensures
        match r {
            Some(k) => first_index_of(flow_ids(flows_view(flows@)), id) == Some(k as int),
            None => first_index_of(flow_ids(flows_view(flows@)), id) is None,
        },
{
    let ghost ids = flow_ids(flows_view(flows@));
    let mut i: usize = 0;
    while i < flows.len()
        invariant
            ids == flow_ids(flows_view(flows@)),
            i <= flows@.len(),
            forall|j: int| 0 <= j < i ==> ids[j] != id,
        decreases flows@.len() - i,
    {
        if flows[i].id == id {
            proof {
                lemma_first_index_at(ids, id, i as int);
            }
            return Some(i);
        }
        i = i + 1;
    }
    proof {
        lemma_first_index_none(ids, id);
    }
    None
}

/// The position of the first node with `id`.
fn find_node(nodes: &Vec<ActionNodeData>, id: u64) -> (r: Option<usize>)
    ensures
        match r {
            Some(k) => first_index_of(node_ids(nodes_view(nodes@)), id) == Some(k as int),
            None => first_index_of(node_ids(nodes_view(nodes@)), id) is None,
        },
{
    let ghost ids = node_ids(nodes_view(nodes@));
    let mut i: usize = 0;
    while i < nodes.len()
        invariant
            ids == node_ids(nodes_view(nodes@)),
            i <= nodes@.len(),
            forall|j: int| 0 <= j < i ==> ids[j] != id,
        decreases nodes@.len() - i,
    {
        if nodes[i].id == id {
            proof {
                lemma_first_index_at(ids, id, i as int);
            }
            return Some(i);
        }
        i = i + 1;
    }
    proof {
        lemma_first_index_none(ids, id);
    }
    None
}

/// Keeps the flows whose id is not `id`.
fn retain_flows(flows: &mut Vec<AppFlow>, id: u128)
    ensures
        flows_view(final(flows)@) == flows_view(old(flows)@).filter(|f: FlowV| f.id != id),
{
    let ghost fs = flows_view(flows@);
    let ghost pred = |f: FlowV| f.id != id;
    let mut rest: Vec<AppFlow> = Vec::new();
    std::mem::swap(&mut rest, flows);
    let n = rest.len();
    let mut k: usize = 0;
    proof {
        assert(flows_view(flows@) =~= fs.subrange(0, 0).filter(pred)) by {
            reveal(Seq::filter);
        }
    }
    while rest.len() > 0
        invariant
            pred == (|f: FlowV| f.id != id),
            n == fs.len(),
            rest@.len() + k == n,
            flows_view(rest@) == fs.subrange(k as int, n as int),
            flows_view(flows@) == fs.subrange(0, k as int).filter(pred),
        decreases rest@.len(),
    {
        let ghost rest0 = rest@;
        proof {
            assert(flows_view(rest0)[0] == fs.subrange(k as int, n as int)[0]);
        }
        let f = rest.remove(0);
        let ghost fv = f@;
        let ghost s1 = fs.subrange(0, k + 1);
        let ghost before = flows@;
        proof {
            assert(fv == fs[k as int]);
            assert(rest@ =~= rest0.subrange(1, rest0.len() as int));
            assert(s1.drop_last() =~= fs.subrange(0, k as int));
            assert(s1.last() == fv);
            reveal(Seq::filter);
        }
        if f.id != id {
            flows.push(f);
            proof {
                assert(flows_view(flows@) =~= flows_view(before).push(fv));
            }
        }
        k = k + 1;
        proof {
            assert(flows_view(rest@) =~= flows_view(rest0).subrange(1, rest0.len() as int));
            assert(flows_view(rest@) =~= fs.subrange(k as int, n as int));
            assert(flows_view(flows@) =~= s1.filter(pred));
        }
    }
    proof {
        assert(fs.subrange(0, n as int) =~= fs);
    }
}

/// Applies a node edit to the node `node_id` of the flow at `k`.
fn edit_node_of_flow(flows: &mut Vec<AppFlow>, k: usize, node_id: u64, nm: NodeMessage, views: &ViewMap)
    requires
        views.wf(),
        k < old(flows)@.len(),
        match first_index_of(node_ids(old(flows)@[k as int]@.nodes), node_id) {
            Some(j) => node_message_ok(old(flows)@[k as int]@.nodes[j], nm),
            None => true,
        },
    ensures
        flows_view(final(flows)@) == flows_view(old(flows)@).update(
            k as int,
            match first_index_of(node_ids(old(flows)@[k as int]@.nodes), node_id) {
                Some(j) => FlowV {
                    nodes: old(flows)@[k as int]@.nodes.update(
                        j,
                        node_after(old(flows)@[k as int]@.nodes[j], nm, edit_context_spec(views@)),
                    ),
                    ..old(flows)@[k as int]@
                },
                None => old(flows)@[k as int]@,
            },
        ),
{
    let ghost fs = flows_view(flows@);
    let mut f = flows.remove(k);
    let ghost f0 = f@;
    if let Some(j) = find_node(&f.nodes, node_id) {
        let ctx = node_edit_context(views);
        let ghost ns = nodes_view(f.nodes@);
        proof {
            lemma_first_index_some(node_ids(ns), node_id);
            assert(ns[j as int] == f.nodes@[j as int]@);
        }
        let mut n = f.nodes.remove(j);
        update_node(&mut n, nm, &ctx);
        let ghost nv = n@;
        f.nodes.insert(j, n);
        proof {
            assert(nodes_view(f.nodes@) =~= ns.update(j as int, nv));
        }
    }
    let ghost f1 = f@;
    flows.insert(k, f);
    proof {
        assert(flows_view(flows@) =~= fs.update(k as int, f1));
    }
}

/// Applies a flow edit to the flow at `k`.
fn edit_flow_at(flows: &mut Vec<AppFlow>, k: usize, msg: Message, new_row_id: u128)
    requires
        k < old(flows)@.len(),
        match msg {
            Message::AddWidgetEventRow(_) => match old(flows)@[k as int]@.trigger {
                TriggerV::WidgetEvent { rows } => rows.len() < usize::MAX,
                _ => true,
            },
            _ => true,
        },
    ensures
        flows_view(final(flows)@) == flows_view(old(flows)@).update(
            k as int,
            flow_after(old(flows)@[k as int]@, msg, new_row_id),
        ),
{
    let ghost fs = flows_view(flows@);
    let mut f = flows.remove(k);
    apply_flow_edit(&mut f, msg, new_row_id);
    let ghost f1 = f@;
    flows.insert(k, f);
    proof {
        assert(flows_view(flows@) =~= fs.update(k as int, f1));
    }
}

} // verus!

verus! {

fn apply_edit(
    views: &ViewMap,
    flows: &mut Vec<AppFlow>,
    state: &mut ActionEditorState,
    msg: Message,
    new_flow_id: u128,
    new_row_id: u128,
)
    requires
        views.wf(),
        edit_ok(flows_view(old(flows)@), old(state)@, msg),
    ensures
        (flows_view(final(flows)@), final(state)@) == message_spec(
            views@,
            flows_view(old(flows)@),
            old(state)@,
            msg,
            new_flow_id,
            new_row_id,
        ),
{
    let ghost fs = flows_view(flows@);
    match msg {
        Message::Node(node_id, nm) => {
            if let Some(fid) = state.selected_flow_id {
                if let Some(k) = find_flow(flows, fid) {
                    proof {
                        lemma_first_index_some(flow_ids(fs), fid);
                        assert(fs[k as int] == flows@[k as int]@);
                    }
                    edit_node_of_flow(flows, k, node_id, nm, views);
                }
            }
        },
        Message::Graph(a) => {
            if let Some(fid) = state.selected_flow_id {
                if let Some(k) = find_flow(flows, fid) {
                    proof {
                        lemma_first_index_some(flow_ids(fs), fid);
                        assert(fs[k as int] == flows@[k as int]@);
                    }
                    let mut f = flows.remove(k);
                    apply_graph_action(&mut f, a);
                    let ghost f1 = f@;
                    flows.insert(k, f);
                    proof {
                        assert(flows_view(flows@) =~= fs.update(k as int, f1));
                    }
                }
            }
        },
        Message::SelectFlow(id) => {
            if let Some(_) = find_flow(flows, id) {
                state.selected_flow_id = Some(id);
                proof {
                    lemma_first_index_some(flow_ids(fs), id);
                }
            } else {
                proof {
                    lemma_first_index_some(flow_ids(fs), id);
                }
            }
            clear_interaction(state);
        },
        Message::AddFlow => {
            let n = flows.len() as u64 + 1;
            let f = AppFlow::with_id(new_flow_id, numbered("flow_", n), FlowTrigger::Callable);
            let ghost fv = f@;
            flows.push(f);
            state.selected_flow_id = Some(new_flow_id);
            clear_interaction(state);
            proof {
                assert(flows_view(flows@) =~= fs.push(fv));
            }
        },
        Message::DeleteFlow(id) => {
            retain_flows(flows, id);
            if state.selected_flow_id == Some(id) {
                state.selected_flow_id = None;
            }
        },
        Message::SetFlowSearch(s) => {
            state.flow_search = s;
        },
        Message::RemoveWidgetEventRow(fid, rid) => {
            if let Some(k) = find_flow(flows, fid) {
                proof {
                    lemma_first_index_some(flow_ids(fs), fid);
                    assert(fs[k as int] == flows@[k as int]@);
                }
                edit_flow_at(flows, k, msg, new_row_id);
            }
            if state.widget_event_row_dragging == Some((fid, rid)) {
                clear_interaction(state);
            }
        },
        Message::StartWidgetEventRowDrag(fid, rid) => {
            state.widget_event_row_dragging = Some((fid, rid));
            state.widget_event_row_drop_target = Some((fid, rid));
        },
        Message::HoverWidgetEventRow(fid, target) => {
            if let Some((drag_fid, drag_rid)) = state.widget_event_row_dragging {
                if drag_fid == fid {
                    state.widget_event_row_drop_target = Some((fid, target));
                    if let Some(k) = find_flow(flows, fid) {
                        proof {
                            lemma_first_index_some(flow_ids(fs), fid);
                            assert(fs[k as int] == flows@[k as int]@);
                        }
                        let mut f = flows.remove(k);
                        if let FlowTrigger::WidgetEvent { rows } = &mut f.trigger {
                            move_widget_event_row(rows, drag_rid, target);
                        }
                        let ghost f1 = f@;
                        flows.insert(k, f);
                        proof {
                            assert(flows_view(flows@) =~= fs.update(k as int, f1));
                        }
                    }
                }
            }
        },
        Message::EndWidgetEventRowDrag => {
            clear_interaction(state);
        },
        Message::SetFlowName(fid, _) | Message::SetFlowTriggerKind(fid, _) | Message::SetFlowTimerInterval(fid, _)
        | Message::SetFlowKeyComboKey(fid, _) | Message::SetFlowKeyComboMods(fid, _, _, _)
        | Message::AddWidgetEventRow(fid) | Message::SetRowEventType(fid, _, _, _)
        | Message::SetRowTarget(fid, _, _) => {
            if let Some(k) = find_flow(flows, fid) {
                proof {
                    lemma_first_index_some(flow_ids(fs), fid);
                    assert(fs[k as int] == flows@[k as int]@);
                }
                edit_flow_at(flows, k, msg, new_row_id);
            }
        },
    }
}

/// The flows and editor state after an edit: the edit itself (see
/// [`message_spec`]), then the trigger topology of the flow selected
/// afterwards brought in step with its trigger. `vs` are the project's
/// views (what node edits see of them); `new_flow_id` and `new_row_id` are
/// the ids a new flow or row gets.
pub open spec fn update_spec(
    vs: Seq<crate::add_views::AppView>,
    fs: Seq<FlowV>,
    st: EditorV,
    msg: Message,
    new_flow_id: u128,
    new_row_id: u128,
) -> (Seq<FlowV>, EditorV) {
    let (fs1, st1) = message_spec(vs, fs, st, msg, new_flow_id, new_row_id);
    (sync_selected(fs1, st1.selected_flow_id), st1)
}

/// Applies an edit of the action editor (see [`update_spec`]); `new_flow_id`
/// and `new_row_id` are the ids a new flow or row gets.
pub fn apply_message(
    views: &ViewMap,
    flows: &mut Vec<AppFlow>,
    state: &mut ActionEditorState,
    msg: Message,
    new_flow_id: u128,
    new_row_id: u128,
)
    requires
        views.wf(),
        edit_ok(flows_view(old(flows)@), old(state)@, msg),
    ensures
        (flows_view(final(flows)@), final(state)@) == update_spec(
            views@,
            flows_view(old(flows)@),
            old(state)@,
            msg,
            new_flow_id,
            new_row_id,
        ),
{
    apply_edit(views, flows, state, msg, new_flow_id, new_row_id);
    let ghost fs = flows_view(flows@);
    if let Some(fid) = state.selected_flow_id {
        if let Some(k) = find_flow(flows, fid) {
            proof {
                lemma_first_index_some(flow_ids(fs), fid);
                assert(fs[k as int] == flows@[k as int]@);
            }
            let mut f = flows.remove(k);
            sync_trigger_topology(&mut f);
            let ghost f1 = f@;
            flows.insert(k, f);
            proof {
                assert(flows_view(flows@) =~= fs.update(k as int, f1));
            }
        }
    }
}

/// Applies an edit of the action editor; a new flow or row gets a new
/// random id.
pub fn update(views: &ViewMap, flows: &mut Vec<AppFlow>, state: &mut ActionEditorState, msg: Message)
    requires
        views.wf(),
        edit_ok(flows_view(old(flows)@), old(state)@, msg),
    ensures
        exists|flow_id: u128, row_id: u128|
            (flows_view(final(flows)@), final(state)@) == #[trigger] update_spec(
                views@,
                flows_view(old(flows)@),
                old(state)@,
                msg,
                flow_id,
                row_id,
            ),
{
    let new_flow_id = match &msg {
        Message::AddFlow => fresh_id(),
        _ => 0,
    };
    let new_row_id = match &msg {
        Message::SetFlowTriggerKind(..) | Message::AddWidgetEventRow(_) => fresh_id(),
        _ => 0,
    };
    apply_message(views, flows, state, msg, new_flow_id, new_row_id);
}

} // verus!

verus! {

/// Deleting a flow leaves no flow with its id, keeps the other flows (in
/// step with their triggers) in order, and leaves no selection of it.
pub proof fn law_delete_flow_removes_it(vs: Seq<crate::add_views::AppView>, fs: Seq<FlowV>, st: EditorV, id: u128, a: u128, b: u128)
    requires
        flows_synced(fs),
    ensures
        ({
            let (nfs, nst) = update_spec(vs, fs, st, Message::DeleteFlow(id), a, b);
            &&& forall|i: int| 0 <= i < nfs.len() ==> nfs[i].id != id
            &&& nfs == fs.filter(|f: FlowV| f.id != id)
            &&& nst.selected_flow_id != Some(id)
        }),
{
    let nfs = fs.filter(|f: FlowV| f.id != id);
    assert forall|i: int| 0 <= i < nfs.len() implies nfs[i].id != id by {
        fs.lemma_filter_pred(|f: FlowV| f.id != id, i);
    }
    assert forall|i: int| 0 <= i < nfs.len() implies topology_synced(#[trigger] nfs[i]) by {
        fs.lemma_filter_contains_rev(|f: FlowV| f.id != id, nfs[i]);
        assert(nfs.contains(nfs[i]));
    }
    let st1 = message_spec(vs, fs, st, Message::DeleteFlow(id), a, b).1;
    lemma_synced_flows_unchanged(nfs, st1.selected_flow_id);
}

/// Adding a flow appends one new flow (see [`new_flow_spec`]) under the
/// new id, keeps the flows (in step with their triggers) before it, and
/// selects it.
pub proof fn law_add_flow_selects_it(vs: Seq<crate::add_views::AppView>, fs: Seq<FlowV>, st: EditorV, a: u128, b: u128)
    requires
        flows_synced(fs),
    ensures
        ({
            let (nfs, nst) = update_spec(vs, fs, st, Message::AddFlow, a, b);
            &&& nfs.len() == fs.len() + 1
            &&& nfs.last() == new_flow_spec(a, "flow_"@ + decimal_spec(fs.len() + 1), TriggerV::Callable)
            &&& nfs.subrange(0, fs.len() as int) == fs
            &&& nst.selected_flow_id == Some(a)
        }),
{
    let nf = new_flow_spec(a, "flow_"@ + decimal_spec(fs.len() + 1), TriggerV::Callable);
    law_topology_sync_is_idempotent(unsynced_new_flow(a, "flow_"@ + decimal_spec(fs.len() + 1), TriggerV::Callable));
    let fs1 = fs.push(nf);
    assert forall|i: int| 0 <= i < fs1.len() implies topology_synced(#[trigger] fs1[i]) by {
        if i < fs.len() {
            assert(fs1[i] == fs[i]);
        }
    }
    lemma_synced_flows_unchanged(fs1, Some(a));
    assert(fs1.subrange(0, fs.len() as int) =~= fs);
}

/// Ending a row drag leaves no drag and no drop target, and changes no flow
/// that is in step with its trigger.
pub proof fn law_end_drag_clears(vs: Seq<crate::add_views::AppView>, fs: Seq<FlowV>, st: EditorV, a: u128, b: u128)
    requires
        flows_synced(fs),
    ensures
        ({
            let (nfs, nst) = update_spec(vs, fs, st, Message::EndWidgetEventRowDrag, a, b);
            &&& nfs == fs
            &&& nst.dragging is None
            &&& nst.drop_target is None
        }),
{
    lemma_synced_flows_unchanged(fs, st.selected_flow_id);
}

/// On flows in step with their triggers, a node edit changes at most one
/// node: the node with that id in the selected flow; every other flow, and
/// every other node of that flow, stays as it was.
pub proof fn law_node_edit_is_local(
    vs: Seq<crate::add_views::AppView>,
    fs: Seq<FlowV>,
    st: EditorV,
    node_id: u64,
    nm: NodeMessage,
    a: u128,
    b: u128,
)
    requires
        flows_synced(fs),
    ensures
        ({
            let (nfs, nst) = update_spec(vs, fs, st, Message::Node(node_id, nm), a, b);
            &&& nst == st
            &&& nfs.len() == fs.len()
            &&& forall|i: int| 0 <= i < fs.len() && Some(fs[i].id) != st.selected_flow_id ==> nfs[i] == fs[i]
            &&& forall|i: int, j: int| 0 <= i < fs.len() && 0 <= j < fs[i].nodes.len() && fs[i].nodes[j].id != node_id
                ==> nfs[i].nodes[j] == fs[i].nodes[j]
            &&& forall|i: int| 0 <= i < fs.len() ==> nfs[i].nodes.len() == fs[i].nodes.len()
        }),
{
    if let Some(fid) = st.selected_flow_id {
        lemma_first_index_some(flow_ids(fs), fid);
        if let Some(k) = first_index_of(flow_ids(fs), fid) {
            lemma_first_index_some(node_ids(fs[k].nodes), node_id);
            assert(flow_ids(fs)[k] == fs[k].id);
            let fs1 = message_spec(vs, fs, st, Message::Node(node_id, nm), a, b).0;
            if let Some(j) = first_index_of(node_ids(fs[k].nodes), node_id) {
                assert(node_ids(fs[k].nodes)[j] == fs[k].nodes[j].id);
                assert(topology_synced(fs[k]));
                lemma_node_edit_keeps_sync(fs[k], j, nm, edit_context_spec(vs));
            }
            assert forall|i: int| 0 <= i < fs1.len() implies topology_synced(#[trigger] fs1[i]) by {
                if i != k {
                    assert(fs1[i] == fs[i]);
                }
            }
            lemma_synced_flows_unchanged(fs1, st.selected_flow_id);
        }
    }
}

} // verus!

verus! {

/// A selection edit on the graph canvas of the selected flow.
#[derive(Debug, Clone, Copy, PartialEq, Eq, Structural)]
pub enum GraphAction {
    /// Selects one node; with `additive` (shift held) the others stay
    /// selected, otherwise they are deselected.
    SelectSingle { node_id: u64, additive: bool },
    ClearSelection,
    /// Deletes the selected nodes, but never the trigger node.
    DeleteSelected,
    /// Enables or disables the selected nodes, but never the trigger node.
    ToggleSelectedEnabled,
}

/// A node after a selection edit that touches nodes one by one.
pub open spec fn node_after_action(n: NodeV, a: GraphAction) -> NodeV {
    match a {
        GraphAction::SelectSingle { node_id, additive } => NodeV {
            selected: if additive { n.selected || n.id == node_id } else { n.id == node_id },
            ..n
        },
        GraphAction::ClearSelection => NodeV { selected: false, ..n },
        GraphAction::ToggleSelectedEnabled => NodeV {
            enabled: if n.selected && !(n.kind is Trigger) { !n.enabled } else { n.enabled },
            ..n
        },
        GraphAction::DeleteSelected => n,
    }
}

/// Whether a node survives deleting the selection: it is not selected, or
/// it is a trigger.
pub open spec fn survives_delete(n: NodeV) -> bool {
    !n.selected || n.kind is Trigger
}

/// The ids that deleting the selection removes: those of the selected
/// nodes that are not triggers, in order.
pub open spec fn deleted_ids(nodes: Seq<NodeV>) -> Seq<u64> {
    node_ids(nodes.filter(|n: NodeV| !survives_delete(n)))
}

/// The nodes of a graph after a selection edit: deleting removes every node
/// whose id is a deleted id.
pub open spec fn graph_after(nodes: Seq<NodeV>, a: GraphAction) -> Seq<NodeV> {
    match a {
        GraphAction::DeleteSelected => nodes.filter(|n: NodeV| !deleted_ids(nodes).contains(n.id)),
        _ => nodes.map_values(|n: NodeV| node_after_action(n, a)),
    }
}

/// A flow after a selection edit of its graph: the nodes change as
/// [`graph_after`] says; deleting also drops every edge that starts or ends
/// at a deleted node, and the deleted nodes' places in the drawing order.
pub open spec fn graph_flow_after(f: FlowV, a: GraphAction) -> FlowV {
    let d = deleted_ids(f.nodes);
    match a {
        GraphAction::DeleteSelected => FlowV {
            nodes: graph_after(f.nodes, a),
            edges: f.edges.filter(|e: GraphEdge| !d.contains(e.from_node) && !d.contains(e.to_node)),
            z_order: f.z_order.filter(|id: u64| !d.contains(id)),
            ..f
        },
        _ => FlowV { nodes: graph_after(f.nodes, a), ..f },
    }
}

fn ids_contain(d: &Vec<u64>, x: u64) -> (b: bool)
    ensures
        b == d@.contains(x),
{
    let mut i: usize = 0;
    while i < d.len()
        invariant
            i <= d@.len(),
            forall|j: int| 0 <= j < i ==> d@[j] != x,
        decreases d@.len() - i,
    {
        if d[i] == x {
            return true;
        }
        i = i + 1;
    }
    false
}

fn collect_deleted_ids(nodes: &Vec<ActionNodeData>) -> (d: Vec<u64>)
    ensures
        d@ == deleted_ids(nodes_view(nodes@)),
{
    let ghost ns = nodes_view(nodes@);
    let ghost pred = |n: NodeV| !survives_delete(n);
    let mut d: Vec<u64> = Vec::new();
    let mut i: usize = 0;
    proof {
        reveal(Seq::filter);
        assert(ns.subrange(0, 0).filter(pred) =~= Seq::<NodeV>::empty());
        assert(node_ids(Seq::<NodeV>::empty()) =~= Seq::<u64>::empty());
    }
    while i < nodes.len()
        invariant
            pred == (|n: NodeV| !survives_delete(n)),
            ns == nodes_view(nodes@),
            i <= ns.len(),
            d@ == node_ids(ns.subrange(0, i as int).filter(pred)),
        decreases ns.len() - i,
    {
        let ghost s1 = ns.subrange(0, i + 1);
        let ghost f0 = ns.subrange(0, i as int).filter(pred);
        proof {
            assert(s1.drop_last() =~= ns.subrange(0, i as int));
            assert(s1.last() == ns[i as int]);
            assert(ns[i as int] == nodes@[i as int]@);
            reveal(Seq::filter);
        }
        if nodes[i].selected && !nodes[i].is_trigger() {
            d.push(nodes[i].id);
            proof {
                assert(s1.filter(pred) == f0.push(ns[i as int]));
                assert(node_ids(f0.push(ns[i as int])) =~= node_ids(f0).push(ns[i as int].id));
            }
        } else {
            proof {
                assert(s1.filter(pred) == f0);
            }
        }
        i = i + 1;
    }
    proof {
        assert(ns.subrange(0, ns.len() as int) =~= ns);
    }
    d
}

fn retain_nodes_outside(nodes: &mut Vec<ActionNodeData>, d: &Vec<u64>)
    ensures
        nodes_view(final(nodes)@) == nodes_view(old(nodes)@).filter(|n: NodeV| !d@.contains(n.id)),
{
    let ghost ns = nodes_view(nodes@);
    let ghost pred = |n: NodeV| !d@.contains(n.id);
    let mut rest: Vec<ActionNodeData> = Vec::new();
    std::mem::swap(&mut rest, nodes);
    let n = rest.len();
    let mut k: usize = 0;
    proof {
        assert(nodes_view(nodes@) =~= ns.subrange(0, 0).filter(pred)) by {
            reveal(Seq::filter);
        }
    }
    while rest.len() > 0
        invariant
            pred == (|n: NodeV| !d@.contains(n.id)),
            n == ns.len(),
            rest@.len() + k == n,
            nodes_view(rest@) == ns.subrange(k as int, n as int),
            nodes_view(nodes@) == ns.subrange(0, k as int).filter(pred),
        decreases rest@.len(),
    {
        let ghost rest0 = rest@;
        proof {
            assert(nodes_view(rest0)[0] == ns.subrange(k as int, n as int)[0]);
        }
        let node = rest.remove(0);
        let ghost nv = node@;
        let ghost s1 = ns.subrange(0, k + 1);
        let ghost before = nodes@;
        proof {
            assert(nv == ns[k as int]);
            assert(rest@ =~= rest0.subrange(1, rest0.len() as int));
            assert(s1.drop_last() =~= ns.subrange(0, k as int));
            assert(s1.last() == nv);
            reveal(Seq::filter);
        }
        if !ids_contain(d, node.id) {
            nodes.push(node);
            proof {
                assert(nodes_view(nodes@) =~= nodes_view(before).push(nv));
            }
        }
        k = k + 1;
        proof {
            assert(nodes_view(rest@) =~= nodes_view(rest0).subrange(1, rest0.len() as int));
            assert(nodes_view(rest@) =~= ns.subrange(k as int, n as int));
            assert(nodes_view(nodes@) =~= s1.filter(pred));
        }
    }
    proof {
        assert(ns.subrange(0, n as int) =~= ns);
    }
}

fn retain_edges_outside(edges: &Vec<GraphEdge>, d: &Vec<u64>) -> (r: Vec<GraphEdge>)
    ensures
        r@ == edges@.filter(|e: GraphEdge| !d@.contains(e.from_node) && !d@.contains(e.to_node)),
{
    let ghost pred = |e: GraphEdge| !d@.contains(e.from_node) && !d@.contains(e.to_node);
    let mut r: Vec<GraphEdge> = Vec::new();
    let mut i: usize = 0;
    proof {
        assert(r@ =~= edges@.subrange(0, 0).filter(pred)) by {
            reveal(Seq::filter);
        }
    }
    while i < edges.len()
        invariant
            pred == (|e: GraphEdge| !d@.contains(e.from_node) && !d@.contains(e.to_node)),
            i <= edges@.len(),
            r@ == edges@.subrange(0, i as int).filter(pred),
        decreases edges@.len() - i,
    {
        let e = edges[i];
        let ghost s1 = edges@.subrange(0, i + 1);
        proof {
            assert(s1.drop_last() =~= edges@.subrange(0, i as int));
            assert(s1.last() == e);
            reveal(Seq::filter);
        }
        if !ids_contain(d, e.from_node) && !ids_contain(d, e.to_node) {
            r.push(e);
        }
        i = i + 1;
        proof {
            assert(r@ =~= s1.filter(pred));
        }
    }
    proof {
        assert(edges@.subrange(0, edges@.len() as int) =~= edges@);
    }
    r
}

fn retain_ids_outside(ids: &Vec<u64>, d: &Vec<u64>) -> (r: Vec<u64>)
    ensures
        r@ == ids@.filter(|id: u64| !d@.contains(id)),
{
    let ghost pred = |id: u64| !d@.contains(id);
    let mut r: Vec<u64> = Vec::new();
    let mut i: usize = 0;
    proof {
        assert(r@ =~= ids@.subrange(0, 0).filter(pred)) by {
            reveal(Seq::filter);
        }
    }
    while i < ids.len()
        invariant
            pred == (|id: u64| !d@.contains(id)),
            i <= ids@.len(),
            r@ == ids@.subrange(0, i as int).filter(pred),
        decreases ids@.len() - i,
    {
        let x = ids[i];
        let ghost s1 = ids@.subrange(0, i + 1);
        proof {
            assert(s1.drop_last() =~= ids@.subrange(0, i as int));
            assert(s1.last() == x);
            reveal(Seq::filter);
        }
        if !ids_contain(d, x) {
            r.push(x);
        }
        i = i + 1;
        proof {
            assert(r@ =~= s1.filter(pred));
        }
    }
    proof {
        assert(ids@.subrange(0, ids@.len() as int) =~= ids@);
    }
    r
}

fn apply_to_each_node(nodes: &mut Vec<ActionNodeData>, a: GraphAction)
    requires
        !(a is DeleteSelected),
    ensures
        nodes_view(final(nodes)@) == graph_after(nodes_view(old(nodes)@), a),
{
    let ghost ns = nodes_view(nodes@);
    let mut i: usize = 0;
    while i < nodes.len()
        invariant
            !(a is DeleteSelected),
            nodes@.len() == ns.len(),
            i <= ns.len(),
            forall|j: int| 0 <= j < i ==> #[trigger] nodes_view(nodes@)[j] == node_after_action(ns[j], a),
            forall|j: int| i <= j < ns.len() ==> #[trigger] nodes_view(nodes@)[j] == ns[j],
        decreases ns.len() - i,
    {
        let ghost before = nodes_view(nodes@);
        proof {
            assert(before[i as int] == ns[i as int]);
            assert(before[i as int] == nodes@[i as int]@);
        }
        let mut node = nodes.remove(i);
        let ghost n0 = node@;
        match a {
            GraphAction::SelectSingle { node_id, additive } => {
                if additive {
                    if node.id == node_id {
                        node.selected = true;
                    }
                } else {
                    node.selected = node.id == node_id;
                }
            },
            GraphAction::ClearSelection => {
                node.selected = false;
            },
            GraphAction::ToggleSelectedEnabled => {
                if node.selected && !node.is_trigger() {
                    node.enabled = !node.enabled;
                }
            },
            GraphAction::DeleteSelected => {},
        }
        let ghost nv = node@;
        proof {
            assert(nv == node_after_action(n0, a));
        }
        nodes.insert(i, node);
        proof {
            assert(nodes_view(nodes@) =~= before.update(i as int, nv));
        }
        i = i + 1;
    }
    proof {
        assert(nodes_view(nodes@) =~= ns.map_values(|n: NodeV| node_after_action(n, a)));
    }
}

/// Applies a selection edit to the graph of a flow (see
/// [`graph_flow_after`]).
pub fn apply_graph_action(flow: &mut AppFlow, a: GraphAction)
    ensures
        final(flow)@ == graph_flow_after(old(flow)@, a),
{
    if let GraphAction::DeleteSelected = a {
        let d = collect_deleted_ids(&flow.nodes);
        retain_nodes_outside(&mut flow.nodes, &d);
        flow.edges = retain_edges_outside(&flow.edges, &d);
        flow.z_order = retain_ids_outside(&flow.z_order, &d);
    } else {
        apply_to_each_node(&mut flow.nodes, a);
    }
}

/// Whether no two nodes share an id.
pub open spec fn node_ids_distinct(nodes: Seq<NodeV>) -> bool {
    forall|i: int, j: int| 0 <= i < j < nodes.len() ==> nodes[i].id != nodes[j].id
}

/// Deleting the selection removes exactly the selected nodes that are not
/// triggers (so it keeps every trigger node), drops no other node, and
/// leaves no edge and no drawing-order entry that names a removed node.
pub proof fn law_delete_keeps_trigger(f: FlowV)
    requires
        node_ids_distinct(f.nodes),
    ensures
        forall|n: NodeV| #[trigger] graph_after(f.nodes, GraphAction::DeleteSelected).contains(n)
            <==> f.nodes.contains(n) && survives_delete(n),
        forall|e: GraphEdge| #[trigger] graph_flow_after(f, GraphAction::DeleteSelected).edges.contains(e)
            <==> f.edges.contains(e) && !deleted_ids(f.nodes).contains(e.from_node)
                && !deleted_ids(f.nodes).contains(e.to_node),
        forall|id: u64| #[trigger] graph_flow_after(f, GraphAction::DeleteSelected).z_order.contains(id)
            <==> f.z_order.contains(id) && !deleted_ids(f.nodes).contains(id),
{
    broadcast use vstd::seq_lib::group_filter_ensures;
    let nodes = f.nodes;
    let dpred = |n: NodeV| !survives_delete(n);
    let del = nodes.filter(dpred);
    let d = deleted_ids(nodes);
    let kpred = |n: NodeV| !d.contains(n.id);
    assert forall|n: NodeV| #[trigger] nodes.filter(kpred).contains(n)
        <==> nodes.contains(n) && survives_delete(n) by {
        if nodes.filter(kpred).contains(n) {
            nodes.lemma_filter_contains_rev(kpred, n);
            if !survives_delete(n) {
                let i = choose|i: int| 0 <= i < nodes.len() && nodes[i] == n;
                nodes.lemma_filter_contains(dpred, i);
                let k = choose|k: int| 0 <= k < del.len() && del[k] == n;
                assert(d[k] == n.id);
            }
        }
        if nodes.contains(n) && survives_delete(n) {
            let i = choose|i: int| 0 <= i < nodes.len() && nodes[i] == n;
            if d.contains(n.id) {
                let k = choose|k: int| 0 <= k < d.len() && d[k] == n.id;
                assert(d[k] == del[k].id);
                nodes.lemma_filter_contains_rev(dpred, del[k]);
                let j = choose|j: int| 0 <= j < nodes.len() && nodes[j] == del[k];
                assert(nodes[j].id == nodes[i].id);
                assert(i == j);
            }
            nodes.lemma_filter_contains(kpred, i);
        }
    }
    let epred = |e: GraphEdge| !d.contains(e.from_node) && !d.contains(e.to_node);
    assert forall|e: GraphEdge| #[trigger] f.edges.filter(epred).contains(e)
        <==> f.edges.contains(e) && epred(e) by {
        if f.edges.filter(epred).contains(e) {
            f.edges.lemma_filter_contains_rev(epred, e);
        }
        if f.edges.contains(e) && epred(e) {
            let i = choose|i: int| 0 <= i < f.edges.len() && f.edges[i] == e;
            f.edges.lemma_filter_contains(epred, i);
        }
    }
    let zpred = |id: u64| !d.contains(id);
    assert forall|id: u64| #[trigger] f.z_order.filter(zpred).contains(id)
        <==> f.z_order.contains(id) && zpred(id) by {
        if f.z_order.filter(zpred).contains(id) {
            f.z_order.lemma_filter_contains_rev(zpred, id);
        }
        if f.z_order.contains(id) && zpred(id) {
            let i = choose|i: int| 0 <= i < f.z_order.len() && f.z_order[i] == id;
            f.z_order.lemma_filter_contains(zpred, i);
        }
    }
}

/// Toggling the selection's enabled flag never touches a trigger node.
pub proof fn law_toggle_spares_trigger(nodes: Seq<NodeV>)
    ensures
        forall|i: int| 0 <= i < nodes.len() && nodes[i].kind is Trigger
            ==> #[trigger] graph_after(nodes, GraphAction::ToggleSelectedEnabled)[i] == nodes[i],
{
}

} // verus!

verus! {

/// A match node after its enum type is set to `name` with the project's
/// types at hand: its arms become the enum's variants when the enum is
/// declared; the subject is left as it is.
pub open spec fn match_enum_typed(n: NodeV, name: Seq<char>, ts: TypeSystem) -> NodeV {
    match n.kind {
        KindV::Match { arms, .. } => NodeV {
            kind: KindV::Match {
                arms: match enum_by_name(ts.enums@, name) {
                    Some(e) => crate::type_system::variant_names_spec(e),
                    None => arms,
                },
                enum_type: Some(name),
            },
            ..n
        },
        _ => n,
    }
}

/// The flows and editor state after an edit when the project's types are
/// at hand: setting a match node's enum type takes its arms from the
/// enum's variants (see [`match_enum_typed`]); every other edit is as in
/// [`update_spec`].
pub open spec fn update_with_types_spec(
    vs: Seq<crate::add_views::AppView>,
    fs: Seq<FlowV>,
    st: EditorV,
    msg: Message,
    ts: TypeSystem,
    new_flow_id: u128,
    new_row_id: u128,
) -> (Seq<FlowV>, EditorV) {
    match msg {
        Message::Node(node_id, NodeMessage::SetMatchEnumType(name)) => match st.selected_flow_id {
            Some(fid) => (
                edit_flow(fs, fid, |f: FlowV| match first_index_of(node_ids(f.nodes), node_id) {
                    Some(j) => FlowV { nodes: f.nodes.update(j, match_enum_typed(f.nodes[j], name@, ts)), ..f },
                    None => f,
                }),
                st,
            ),
            None => (fs, st),
        },
        _ => update_spec(vs, fs, st, msg, new_flow_id, new_row_id),
    }
}

fn set_match_enum_type(node: &mut ActionNodeData, name: String, type_system: &TypeSystem)
    ensures
        final(node)@ == match_enum_typed(old(node)@, name@, *type_system),
{
    if let ActionNodeKind::Match { arms, enum_type } = &mut node.kind {
        if let Some(e) = type_system.get_enum_by_name(&name) {
            *arms = e.variant_names();
        }
        *enum_type = Some(name);
    }
}

/// Applies an edit of the action editor with the project's types at hand
/// (see [`update_with_types_spec`]); a new flow or row gets a new random
/// id.
pub fn update_with_type_system(
    views: &ViewMap,
    flows: &mut Vec<AppFlow>,
    state: &mut ActionEditorState,
    msg: Message,
    type_system: &TypeSystem,
)
    requires
        views.wf(),
        edit_ok(flows_view(old(flows)@), old(state)@, msg),
    ensures
        exists|flow_id: u128, row_id: u128|
            (flows_view(final(flows)@), final(state)@) == #[trigger] update_with_types_spec(
                views@,
                flows_view(old(flows)@),
                old(state)@,
                msg,
                *type_system,
                flow_id,
                row_id,
            ),
{
    let ghost fs = flows_view(flows@);
    match msg {
        Message::Node(node_id, NodeMessage::SetMatchEnumType(name)) => {
            if let Some(fid) = state.selected_flow_id {
                if let Some(k) = find_flow(flows, fid) {
                    proof {
                        lemma_first_index_some(flow_ids(fs), fid);
                        assert(fs[k as int] == flows@[k as int]@);
                    }
                    let mut f = flows.remove(k);
                    let ghost f0 = f@;
                    if let Some(j) = find_node(&f.nodes, node_id) {
                        let ghost ns = nodes_view(f.nodes@);
                        proof {
                            lemma_first_index_some(node_ids(ns), node_id);
                            assert(ns[j as int] == f.nodes@[j as int]@);
                        }
                        let mut n = f.nodes.remove(j);
                        set_match_enum_type(&mut n, name, type_system);
                        let ghost nv = n@;
                        f.nodes.insert(j, n);
                        proof {
                            assert(nodes_view(f.nodes@) =~= ns.update(j as int, nv));
                        }
                    }
                    let ghost f1 = f@;
                    flows.insert(k, f);
                    proof {
                        assert(flows_view(flows@) =~= fs.update(k as int, f1));
                    }
                }
            }
            proof {
                assert(update_with_types_spec(views@, fs, old(state)@, msg, *type_system, 0, 0)
                    == (flows_view(flows@), state@));
            }
        },
        _ => {
            let new_flow_id = match &msg {
                Message::AddFlow => fresh_id(),
                _ => 0,
            };
            let new_row_id = match &msg {
                Message::SetFlowTriggerKind(..) | Message::AddWidgetEventRow(_) => fresh_id(),
                _ => 0,
            };
            apply_message(views, flows, state, msg, new_flow_id, new_row_id);
            proof {
                assert(update_with_types_spec(views@, fs, old(state)@, msg, *type_system, new_flow_id, new_row_id)
                    == (flows_view(flows@), state@));
            }
        },
    }
}

fn copy_rows(rows: &Vec<WidgetEventRow>) -> (r: Vec<WidgetEventRow>)
    ensures
        rows_view(r@) == rows_view(rows@),
{
    let mut r: Vec<WidgetEventRow> = Vec::new();
    let mut i: usize = 0;
    while i < rows.len()
        invariant
            i <= rows@.len(),
            rows_view(r@) == rows_view(rows@).subrange(0, i as int),
        decreases rows@.len() - i,
    {
        let row = WidgetEventRow { id: rows[i].id, event_type: rows[i].event_type.clone(), target: rows[i].target };
        let ghost before = r@;
        r.push(row);
        proof {
            assert(rows_view(r@) =~= rows_view(before).push(rows@[i as int]@));
            assert(rows_view(rows@).subrange(0, i + 1) =~= rows_view(rows@).subrange(0, i as int).push(
                rows@[i as int]@));
        }
        i = i + 1;
    }
    proof {
        assert(rows_view(rows@).subrange(0, rows@.len() as int) =~= rows_view(rows@));
    }
    r
}

fn copy_trigger(t: &FlowTrigger) -> (r: FlowTrigger)
    ensures
        r@ == t@,
{
    match t {
        FlowTrigger::Callable => FlowTrigger::Callable,
        FlowTrigger::WidgetEvent { rows } => FlowTrigger::WidgetEvent { rows: copy_rows(rows) },
        FlowTrigger::Timer { interval_ms } => FlowTrigger::Timer { interval_ms: *interval_ms },
        FlowTrigger::KeyCombo { key, ctrl, shift, alt } => FlowTrigger::KeyCombo {
            key: key.clone(),
            ctrl: *ctrl,
            shift: *shift,
            alt: *alt,
        },
    }
}

/// The selected flow's id and trigger, if a flow is selected and one with
/// that id exists (the first such flow).
pub open spec fn flow_trigger_info_spec(fs: Seq<FlowV>, selected: Option<u128>) -> Option<(u128, TriggerV)> {
    match selected {
        Some(fid) => match first_index_of(flow_ids(fs), fid) {
            Some(k) => Some((fid, fs[k].trigger)),
            None => None,
        },
        None => None,
    }
}

/// The selected flow's id and a copy of its trigger (see
/// [`flow_trigger_info_spec`]).
pub fn get_flow_trigger_info(flows: &Vec<AppFlow>, selected_flow_id: Option<u128>) -> (r: Option<(u128, FlowTrigger)>)
    ensures
        match r {
            Some((id, t)) => flow_trigger_info_spec(flows_view(flows@), selected_flow_id) == Some((id, t@)),
            None => flow_trigger_info_spec(flows_view(flows@), selected_flow_id) is None,
        },
{
    match selected_flow_id {
        Some(fid) => match find_flow(flows, fid) {
            Some(k) => {
                proof {
                    lemma_first_index_some(flow_ids(flows_view(flows@)), fid);
                }
                Some((fid, copy_trigger(&flows[k].trigger)))
            },
            None => None,
        },
        None => None,
    }
}

} // verus!

verus! {

/// The port id of the single flow output of a trigger that is not a
/// widget-event trigger.
pub open spec fn flow_out_port() -> u128 {
    0
}

/// The ids of the rows that name a widget, in order.
pub open spec fn targeted_row_ids(rows: Seq<RowV>) -> Seq<u128> {
    row_ids(rows.filter(|r: RowV| r.target is Some))
}

/// The flow output ports of a trigger node: one per widget-event row that
/// names a widget (the port has the row's id), or the single flow output of
/// any other trigger.
pub open spec fn trigger_ports_spec(t: TriggerV) -> Seq<u128> {
    match t {
        TriggerV::WidgetEvent { rows } => targeted_row_ids(rows),
        _ => seq![flow_out_port()],
    }
}

/// The ids of a graph's trigger nodes, in order.
pub open spec fn trigger_ids(nodes: Seq<NodeV>) -> Seq<u64> {
    node_ids(nodes.filter(|n: NodeV| n.kind is Trigger))
}

/// A node with its output ports set to `ports` when it is a trigger node.
pub open spec fn with_trigger_ports(n: NodeV, ports: Seq<u128>) -> NodeV {
    if n.kind is Trigger {
        NodeV { ports_out: ports, ..n }
    } else {
        n
    }
}

/// A flow with its trigger topology in step with its trigger: every trigger
/// node has the trigger's output ports, and every edge that leaves a trigger
/// node from a port the trigger no longer has is removed.
pub open spec fn synced_topology(f: FlowV) -> FlowV {
    let ports = trigger_ports_spec(f.trigger);
    let tids = trigger_ids(f.nodes);
    FlowV {
        nodes: f.nodes.map_values(|n: NodeV| with_trigger_ports(n, ports)),
        edges: f.edges.filter(|e: GraphEdge| !tids.contains(e.from_node) || ports.contains(e.from_port)),
        ..f
    }
}

/// The flows with the trigger topology of the first flow with id `sel`
/// brought in step (unchanged when nothing is selected).
pub open spec fn sync_selected(fs: Seq<FlowV>, sel: Option<u128>) -> Seq<FlowV> {
    match sel {
        Some(fid) => edit_flow(fs, fid, |f: FlowV| synced_topology(f)),
        None => fs,
    }
}

/// The trigger node a new flow starts with: node 1, unselected and enabled,
/// for the event "entry".
pub open spec fn new_trigger_node_spec() -> NodeV {
    NodeV {
        id: 1,
        kind: KindV::Trigger { event_name: "entry"@ },
        conditions: Seq::empty(),
        legacy_condition: None,
        join: crate::conditions::ConditionJoinMode::All,
        subject: None,
        selected: false,
        enabled: true,
        ports_out: Seq::empty(),
    }
}

/// A new flow before its trigger topology is set.
pub open spec fn unsynced_new_flow(id: u128, name: Seq<char>, t: TriggerV) -> FlowV {
    FlowV {
        id,
        name,
        enabled: true,
        trigger: t,
        nodes: seq![new_trigger_node_spec()],
        edges: Seq::empty(),
        z_order: seq![1u64],
    }
}

/// A new flow: enabled, with the given id, name and trigger, and a graph
/// that holds just its trigger node (see [`new_trigger_node_spec`]), with
/// the trigger's output ports and no edges.
pub open spec fn new_flow_spec(id: u128, name: Seq<char>, t: TriggerV) -> FlowV {
    synced_topology(unsynced_new_flow(id, name, t))
}

fn trigger_ports(t: &FlowTrigger) -> (p: Vec<u128>)
    ensures
        p@ == trigger_ports_spec(t@),
{
    match t {
        FlowTrigger::WidgetEvent { rows } => {
            let ghost rs = rows_view(rows@);
            let ghost pred = |r: RowV| r.target is Some;
            let mut p: Vec<u128> = Vec::new();
            let mut i: usize = 0;
            proof {
                reveal(Seq::filter);
                assert(rs.subrange(0, 0).filter(pred) =~= Seq::<RowV>::empty());
                assert(row_ids(Seq::<RowV>::empty()) =~= Seq::<u128>::empty());
            }
            while i < rows.len()
                invariant
                    pred == (|r: RowV| r.target is Some),
                    rs == rows_view(rows@),
                    i <= rs.len(),
                    p@ == row_ids(rs.subrange(0, i as int).filter(pred)),
                decreases rs.len() - i,
            {
                let ghost s1 = rs.subrange(0, i + 1);
                let ghost f0 = rs.subrange(0, i as int).filter(pred);
                proof {
                    assert(s1.drop_last() =~= rs.subrange(0, i as int));
                    assert(s1.last() == rs[i as int]);
                    assert(rs[i as int] == rows@[i as int]@);
                    reveal(Seq::filter);
                }
                if rows[i].target.is_some() {
                    p.push(rows[i].id);
                    proof {
                        assert(s1.filter(pred) == f0.push(rs[i as int]));
                        assert(row_ids(f0.push(rs[i as int])) =~= row_ids(f0).push(rs[i as int].id));
                    }
                } else {
                    proof {
                        assert(s1.filter(pred) == f0);
                    }
                }
                i = i + 1;
            }
            proof {
                assert(rs.subrange(0, rs.len() as int) =~= rs);
            }
            p
        },
        _ => {
            let mut p: Vec<u128> = Vec::new();
            p.push(0);
            proof {
                assert(p@ =~= seq![flow_out_port()]);
            }
            p
        },
    }
}

fn trigger_node_ids(nodes: &Vec<ActionNodeData>) -> (d: Vec<u64>)
    ensures
        d@ == trigger_ids(nodes_view(nodes@)),
{
    let ghost ns = nodes_view(nodes@);
    let ghost pred = |n: NodeV| n.kind is Trigger;
    let mut d: Vec<u64> = Vec::new();
    let mut i: usize = 0;
    proof {
        reveal(Seq::filter);
        assert(ns.subrange(0, 0).filter(pred) =~= Seq::<NodeV>::empty());
        assert(node_ids(Seq::<NodeV>::empty()) =~= Seq::<u64>::empty());
    }
    while i < nodes.len()
        invariant
            pred == (|n: NodeV| n.kind is Trigger),
            ns == nodes_view(nodes@),
            i <= ns.len(),
            d@ == node_ids(ns.subrange(0, i as int).filter(pred)),
        decreases ns.len() - i,
    {
        let ghost s1 = ns.subrange(0, i + 1);
        let ghost f0 = ns.subrange(0, i as int).filter(pred);
        proof {
            assert(s1.drop_last() =~= ns.subrange(0, i as int));
            assert(s1.last() == ns[i as int]);
            assert(ns[i as int] == nodes@[i as int]@);
            reveal(Seq::filter);
        }
        if nodes[i].is_trigger() {
            d.push(nodes[i].id);
            proof {
                assert(s1.filter(pred) == f0.push(ns[i as int]));
                assert(node_ids(f0.push(ns[i as int])) =~= node_ids(f0).push(ns[i as int].id));
            }
        } else {
            proof {
                assert(s1.filter(pred) == f0);
            }
        }
        i = i + 1;
    }
    proof {
        assert(ns.subrange(0, ns.len() as int) =~= ns);
    }
    d
}

fn copy_ports(p: &Vec<u128>) -> (r: Vec<u128>)
    ensures
        r@ == p@,
{
    let mut r: Vec<u128> = Vec::new();
    let mut i: usize = 0;
    while i < p.len()
        invariant
            i <= p@.len(),
            r@ == p@.subrange(0, i as int),
        decreases p@.len() - i,
    {
        r.push(p[i]);
        i = i + 1;
        proof {
            assert(r@ =~= p@.subrange(0, i as int));
        }
    }
    proof {
        assert(p@.subrange(0, p@.len() as int) =~= p@);
    }
    r
}

fn ports_contain(d: &Vec<u128>, x: u128) -> (b: bool)
    ensures
        b == d@.contains(x),
{
    let mut i: usize = 0;
    while i < d.len()
        invariant
            i <= d@.len(),
            forall|j: int| 0 <= j < i ==> d@[j] != x,
        decreases d@.len() - i,
    {
        if d[i] == x {
            return true;
        }
        i = i + 1;
    }
    false
}

/// Brings a flow's trigger topology in step with its trigger (see
/// [`synced_topology`]).
pub fn sync_trigger_topology(f: &mut AppFlow)
    ensures
        final(f)@ == synced_topology(old(f)@),
{
    let ghost f0 = f@;
    let ports = trigger_ports(&f.trigger);
    let tids = trigger_node_ids(&f.nodes);
    // Set the trigger nodes' ports.
    let ghost ns = nodes_view(f.nodes@);
    let mut i: usize = 0;
    while i < f.nodes.len()
        invariant
            f.nodes@.len() == ns.len(),
            i <= ns.len(),
            forall|j: int| 0 <= j < i ==> #[trigger] nodes_view(f.nodes@)[j] == with_trigger_ports(ns[j], ports@),
            forall|j: int| i <= j < ns.len() ==> #[trigger] nodes_view(f.nodes@)[j] == ns[j],
            f.trigger == old(f).trigger,
            f.edges == old(f).edges,
            f.id == old(f).id,
            f.name == old(f).name,
            f.enabled == old(f).enabled,
            f.z_order == old(f).z_order,
        decreases ns.len() - i,
    {
        let ghost before = nodes_view(f.nodes@);
        proof {
            assert(before[i as int] == ns[i as int]);
            assert(before[i as int] == f.nodes@[i as int]@);
        }
        let mut node = f.nodes.remove(i);
        if node.is_trigger() {
            node.ports_out = copy_ports(&ports);
        }
        let ghost nv = node@;
        proof {
            assert(nv == with_trigger_ports(ns[i as int], ports@));
        }
        f.nodes.insert(i, node);
        proof {
            assert(nodes_view(f.nodes@) =~= before.update(i as int, nv));
        }
        i = i + 1;
    }
    proof {
        assert(nodes_view(f.nodes@) =~= ns.map_values(|n: NodeV| with_trigger_ports(n, ports@)));
    }
    // Drop the edges that leave a trigger node from a port it lost.
    let ghost pred = |e: GraphEdge| !tids@.contains(e.from_node) || ports@.contains(e.from_port);
    let ghost es = f.edges@;
    let mut kept: Vec<GraphEdge> = Vec::new();
    let mut k: usize = 0;
    proof {
        assert(kept@ =~= es.subrange(0, 0).filter(pred)) by {
            reveal(Seq::filter);
        }
    }
    while k < f.edges.len()
        invariant
            pred == (|e: GraphEdge| !tids@.contains(e.from_node) || ports@.contains(e.from_port)),
            es == f.edges@,
            k <= es.len(),
            kept@ == es.subrange(0, k as int).filter(pred),
        decreases es.len() - k,
    {
        let e = f.edges[k];
        let ghost s1 = es.subrange(0, k + 1);
        proof {
            assert(s1.drop_last() =~= es.subrange(0, k as int));
            assert(s1.last() == e);
            reveal(Seq::filter);
        }
        if !ids_contain(&tids, e.from_node) || ports_contain(&ports, e.from_port) {
            kept.push(e);
        }
        k = k + 1;
        proof {
            assert(kept@ =~= s1.filter(pred));
        }
    }
    proof {
        assert(es.subrange(0, es.len() as int) =~= es);
    }
    f.edges = kept;
    proof {
        assert(f@ =~~= synced_topology(f0));
    }
}

} // verus!

verus! {

proof fn lemma_node_after_keeps_shape(n: NodeV, nm: NodeMessage, ctx: crate::nodes::ContextV)
    ensures
        node_after(n, nm, ctx).id == n.id,
        node_after(n, nm, ctx).ports_out == n.ports_out,
        (node_after(n, nm, ctx).kind is Trigger) == (n.kind is Trigger),
{
}

/// Whether a flow's trigger topology is in step with its trigger.
pub open spec fn topology_synced(f: FlowV) -> bool {
    synced_topology(f) == f
}

/// Whether every flow's trigger topology is in step with its trigger.
pub open spec fn flows_synced(fs: Seq<FlowV>) -> bool {
    forall|i: int| 0 <= i < fs.len() ==> topology_synced(#[trigger] fs[i])
}

/// What a flow in step with its trigger looks like: every trigger node has
/// the trigger's output ports, and every edge that leaves a trigger node
/// leaves from one of them.
pub open spec fn topology_in_step(f: FlowV) -> bool {
    &&& forall|i: int| 0 <= i < f.nodes.len() && (#[trigger] f.nodes[i]).kind is Trigger
        ==> f.nodes[i].ports_out == trigger_ports_spec(f.trigger)
    &&& forall|e: GraphEdge| #[trigger] f.edges.contains(e) && trigger_ids(f.nodes).contains(e.from_node)
        ==> trigger_ports_spec(f.trigger).contains(e.from_port)
}

proof fn lemma_trigger_ids_same(a: Seq<NodeV>, b: Seq<NodeV>)
    requires
        a.len() == b.len(),
        forall|i: int| 0 <= i < a.len() ==> #[trigger] a[i].id == b[i].id && ((a[i].kind is Trigger) == (
            b[i].kind is Trigger)),
    ensures
        trigger_ids(a) == trigger_ids(b),
    decreases a.len(),
{
    reveal(Seq::filter);
    if a.len() > 0 {
        let a0 = a.drop_last();
        let b0 = b.drop_last();
        assert forall|i: int| 0 <= i < a0.len() implies #[trigger] a0[i].id == b0[i].id && ((a0[i].kind is Trigger)
            == (b0[i].kind is Trigger)) by {
            assert(a0[i] == a[i] && b0[i] == b[i]);
        }
        lemma_trigger_ids_same(a0, b0);
        let pred = |n: NodeV| n.kind is Trigger;
        let fa = a0.filter(pred);
        let fb = b0.filter(pred);
        assert(a[a.len() - 1] == a.last() && b[b.len() - 1] == b.last());
        assert(a[a.len() - 1].id == b[a.len() - 1].id);
        assert(node_ids(fa) == node_ids(fb));
        if a.last().kind is Trigger {
            assert(a.filter(pred) == fa.push(a.last()));
            assert(b.filter(pred) == fb.push(b.last()));
            assert(node_ids(fa.push(a.last())) =~= node_ids(fa).push(a.last().id));
            assert(node_ids(fb.push(b.last())) =~= node_ids(fb).push(b.last().id));
        } else {
            assert(a.filter(pred) == fa);
            assert(b.filter(pred) == fb);
        }
    }
}

proof fn lemma_filter_keeps_every<A>(s: Seq<A>, pred: spec_fn(A) -> bool)
    requires
        forall|i: int| 0 <= i < s.len() ==> pred(#[trigger] s[i]),
    ensures
        s.filter(pred) == s,
    decreases s.len(),
{
    reveal(Seq::filter);
    if s.len() > 0 {
        let d = s.drop_last();
        assert forall|i: int| 0 <= i < d.len() implies pred(#[trigger] d[i]) by {
            assert(d[i] == s[i]);
        }
        lemma_filter_keeps_every(d, pred);
        assert(pred(s[s.len() - 1]));
        assert(d.push(s.last()) =~= s);
    }
}

/// Bringing a flow's topology in step twice is the same as once, and the
/// result is in step (see [`topology_in_step`]).
pub proof fn law_topology_sync_is_idempotent(f: FlowV)
    ensures
        topology_synced(synced_topology(f)),
        topology_in_step(synced_topology(f)),
{
    broadcast use vstd::seq_lib::group_filter_ensures;
    let ports = trigger_ports_spec(f.trigger);
    let g = synced_topology(f);
    lemma_trigger_ids_same(f.nodes, g.nodes);
    let tids = trigger_ids(f.nodes);
    let pred = |e: GraphEdge| !tids.contains(e.from_node) || ports.contains(e.from_port);
    assert forall|i: int| 0 <= i < g.edges.len() implies pred(#[trigger] g.edges[i]) by {
        f.edges.lemma_filter_pred(pred, i);
    }
    lemma_filter_keeps_every(g.edges, pred);
    assert(g.nodes.map_values(|n: NodeV| with_trigger_ports(n, ports)) =~= g.nodes);
    assert(synced_topology(g) =~~= g);
    assert forall|e: GraphEdge| #[trigger] g.edges.contains(e) && trigger_ids(g.nodes).contains(e.from_node)
        implies ports.contains(e.from_port) by {
        f.edges.lemma_filter_contains_rev(pred, e);
    }
}

proof fn lemma_synced_flows_unchanged(fs: Seq<FlowV>, sel: Option<u128>)
    requires
        flows_synced(fs),
    ensures
        sync_selected(fs, sel) == fs,
{
    if let Some(fid) = sel {
        lemma_first_index_some(flow_ids(fs), fid);
        if let Some(k) = first_index_of(flow_ids(fs), fid) {
            assert(topology_synced(fs[k]));
            assert(fs.update(k, synced_topology(fs[k])) =~= fs);
        }
    }
}

proof fn lemma_node_edit_keeps_sync(f: FlowV, j: int, nm: NodeMessage, ctx: crate::nodes::ContextV)
    requires
        topology_synced(f),
        0 <= j < f.nodes.len(),
    ensures
        topology_synced(FlowV { nodes: f.nodes.update(j, node_after(f.nodes[j], nm, ctx)), ..f }),
{
    let ports = trigger_ports_spec(f.trigger);
    let g = FlowV { nodes: f.nodes.update(j, node_after(f.nodes[j], nm, ctx)), ..f };
    lemma_node_after_keeps_shape(f.nodes[j], nm, ctx);
    assert forall|i: int| 0 <= i < f.nodes.len() implies #[trigger] f.nodes[i].id == g.nodes[i].id && ((
        f.nodes[i].kind is Trigger) == (g.nodes[i].kind is Trigger)) by {}
    lemma_trigger_ids_same(f.nodes, g.nodes);
    assert forall|i: int| 0 <= i < f.nodes.len() implies #[trigger] f.nodes[i] == with_trigger_ports(
        f.nodes[i], ports) by {
        assert(f.nodes.map_values(|n: NodeV| with_trigger_ports(n, ports))[i] == f.nodes[i]);
    }
    assert(g.nodes.map_values(|n: NodeV| with_trigger_ports(n, ports)) =~= g.nodes);
    assert(synced_topology(g) =~~= g);
}

/// After the trigger of a flow is changed, that flow is in step with its
/// new trigger: its trigger nodes carry the new trigger's output ports, and
/// no edge leaves a trigger node from a port the trigger no longer has.
pub proof fn law_trigger_change_syncs_topology(
    vs: Seq<crate::add_views::AppView>,
    fs: Seq<FlowV>,
    st: EditorV,
    fid: u128,
    label: String,
    a: u128,
    b: u128,
)
    ensures
        ({
            let nfs = update_spec(vs, fs, st, Message::SetFlowTriggerKind(fid, label), a, b).0;
            first_index_of(flow_ids(fs), fid) matches Some(k) ==> {
                &&& nfs[k].trigger == kind_trigger_spec(label@, b)
                &&& topology_in_step(nfs[k])
            }
        }),
{
    let msg = Message::SetFlowTriggerKind(fid, label);
    let fs1 = message_spec(vs, fs, st, msg, a, b).0;
    lemma_first_index_some(flow_ids(fs), fid);
    if let Some(k) = first_index_of(flow_ids(fs), fid) {
        let base = FlowV { trigger: kind_trigger_spec(label@, b), ..fs[k] };
        law_topology_sync_is_idempotent(base);
        assert(fs1[k] == synced_topology(base));
        assert(flow_ids(fs1) =~= flow_ids(fs));
        if let Some(sel) = st.selected_flow_id {
            lemma_first_index_some(flow_ids(fs1), sel);
        }
    }
}

/// A new flow holds exactly one node, its trigger node (node 1), which has
/// the trigger's output ports; it has no edges, and the trigger node is the
/// whole drawing order.
pub proof fn law_new_flow_has_trigger_node(id: u128, name: Seq<char>, t: TriggerV)
    ensures
        new_flow_spec(id, name, t).nodes.len() == 1,
        new_flow_spec(id, name, t).nodes[0].id == 1,
        new_flow_spec(id, name, t).nodes[0].kind is Trigger,
        new_flow_spec(id, name, t).nodes[0].ports_out == trigger_ports_spec(t),
        new_flow_spec(id, name, t).edges.len() == 0,
        new_flow_spec(id, name, t).z_order == seq![1u64],
{
    broadcast use vstd::seq_lib::group_filter_ensures;
    let f = unsynced_new_flow(id, name, t);
    reveal(Seq::filter);
    assert(f.edges.filter(|e: GraphEdge| !trigger_ids(f.nodes).contains(e.from_node) || trigger_ports_spec(
        t).contains(e.from_port)) =~= Seq::<GraphEdge>::empty());
}


/// Editing a trigger's settings sets exactly the setting edited: the key
/// combo's modifiers become the given control, shift and alt flags (its key
/// stays); its key becomes the given key (its modifiers stay); a timer's
/// interval becomes the typed number when it reads as one; a name edit
/// sets the name. None of these touches the flow's graph.
pub proof fn law_trigger_settings_follow_edits(
    f: FlowV,
    id: u128,
    ctrl: bool,
    shift: bool,
    alt: bool,
    key: String,
    raw: String,
    name: String,
    r: u128,
)
    ensures
        f.trigger matches TriggerV::KeyCombo { key: k, .. } ==> flow_after(
            f, Message::SetFlowKeyComboMods(id, ctrl, shift, alt), r).trigger == (TriggerV::KeyCombo {
            key: k,
            ctrl: ctrl,
            shift: shift,
            alt: alt,
        }),
        f.trigger matches TriggerV::KeyCombo { ctrl: c, shift: s, alt: a, .. } ==> flow_after(
            f, Message::SetFlowKeyComboKey(id, key), r).trigger == (TriggerV::KeyCombo {
            key: key@,
            ctrl: c,
            shift: s,
            alt: a,
        }),
        f.trigger is Timer && u64_reading(raw@) is Some ==> flow_after(f, Message::SetFlowTimerInterval(id, raw), r).trigger
            == (TriggerV::Timer { interval_ms: u64_reading(raw@)->0 }),
        u64_reading(raw@) is None ==> flow_after(f, Message::SetFlowTimerInterval(id, raw), r) == f,
        flow_after(f, Message::SetFlowName(id, name), r).name == name@,
        flow_after(f, Message::SetFlowKeyComboMods(id, ctrl, shift, alt), r).nodes == f.nodes,
        flow_after(f, Message::SetFlowKeyComboMods(id, ctrl, shift, alt), r).edges == f.edges,
        flow_after(f, Message::SetFlowKeyComboKey(id, key), r).edges == f.edges,
{
}

} // verus!
