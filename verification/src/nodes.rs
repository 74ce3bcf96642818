//! Action nodes and the editor's authoring edits on one node.

use vstd::prelude::*;
use crate::values::{
    ActionValue, ValueV, strs_view, coerce_literal,
    coerce_literal_spec, default_value_for_type, default_value_spec, parse_authored_rhs_text,
    parse_rhs_spec, read_bool_word, reads_true, reads_false, first_or_empty,
};
use crate::conditions::{
    AuthoredCondition, AuthoredValueSource, CompareOp, ConditionJoinMode, ConditionV,
    ExpressionSourceOption, StateFieldRef, StateFieldV, ValueSourceV,
    default_authored_condition, default_condition_spec, normalize_authored_condition_rhs,
    normalized_spec, option_to_source_spec, source_type_spec,
};
use crate::naming::{numbered, decimal_spec};

verus! {

/// Where a navigate action goes.
#[derive(Debug, Clone, Copy, PartialEq, Eq, Structural)]
pub enum NavigateTarget {
    /// Switch the app to a view.
    AppView { view_id: u128 },
    /// Switch what a view reference in `owner_view_id` shows.
    ViewReference { owner_view_id: u128, widget_id: u64, target_view_id: u128 },
}

/// The two kinds of navigate target a navigate node can hold.
#[derive(Debug, Clone, Copy, PartialEq, Eq, Structural)]
pub enum NavigateModeOption {
    AppView,
    ViewReference,
}

/// The mode of a list of navigate targets: that of the first target set,
/// or the app-view mode when none is set.
pub open spec fn navigate_mode_spec(targets: Seq<Option<NavigateTarget>>) -> NavigateModeOption
    decreases targets.len(),
{
    if targets.len() == 0 {
        NavigateModeOption::AppView
    } else {
        match targets[0] {
            Some(NavigateTarget::ViewReference { .. }) => NavigateModeOption::ViewReference,
            Some(NavigateTarget::AppView { .. }) => NavigateModeOption::AppView,
            None => navigate_mode_spec(targets.drop_first()),
        }
    }
}

/// The mode of a navigate node's targets.
pub fn infer_navigate_mode(targets: &Vec<Option<NavigateTarget>>) -> (m: NavigateModeOption)
    ensures
        m == navigate_mode_spec(targets@),
{
    let mut i: usize = 0;
    proof {
        assert(targets@.subrange(0, targets@.len() as int) =~= targets@);
    }
    while i < targets.len()
        invariant
            i <= targets@.len(),
            navigate_mode_spec(targets@) == navigate_mode_spec(targets@.subrange(i as int, targets@.len() as int)),
        decreases targets@.len() - i,
    {
        let ghost rest = targets@.subrange(i as int, targets@.len() as int);
        proof {
            assert(rest[0] == targets@[i as int]);
            assert(rest.drop_first() =~= targets@.subrange(i + 1, targets@.len() as int));
        }
        match targets[i] {
            Some(NavigateTarget::ViewReference { .. }) => return NavigateModeOption::ViewReference,
            Some(NavigateTarget::AppView { .. }) => return NavigateModeOption::AppView,
            None => {},
        }
        i = i + 1;
    }
    proof {
        assert(targets@.subrange(i as int, targets@.len() as int).len() == 0);
    }
    NavigateModeOption::AppView
}

/// Whether a target is of the given mode.
pub open spec fn target_in_mode(mode: NavigateModeOption, t: Option<NavigateTarget>) -> bool {
    match (mode, t) {
        (NavigateModeOption::AppView, Some(NavigateTarget::AppView { .. })) => true,
        (NavigateModeOption::ViewReference, Some(NavigateTarget::ViewReference { .. })) => true,
        _ => false,
    }
}

/// Where a state assignment takes its value from.
#[derive(Debug, PartialEq)]
pub enum ValueSource {
    FromPort,
    StateField(StateFieldRef),
    Literal(ActionValue),
}

/// Mathematical form of a [`ValueSource`].
pub enum AssignSourceV {
    FromPort,
    StateField(StateFieldV),
    Literal(ValueV),
}

impl View for ValueSource {
    type V = AssignSourceV;

    open spec fn view(&self) -> AssignSourceV {
        match self {
            ValueSource::FromPort => AssignSourceV::FromPort,
            ValueSource::StateField(f) => AssignSourceV::StateField(f@),
            ValueSource::Literal(v) => AssignSourceV::Literal(v@),
        }
    }
}

/// One assignment of a state-mutation node.
#[derive(Debug, PartialEq)]
pub struct StateAssignment {
    pub target: Option<StateFieldRef>,
    pub value_source: ValueSource,
}

/// Mathematical form of a [`StateAssignment`].
pub struct AssignmentV {
    pub target: Option<StateFieldV>,
    pub value_source: AssignSourceV,
}

impl View for StateAssignment {
    type V = AssignmentV;

    open spec fn view(&self) -> AssignmentV {
        AssignmentV {
            target: match &self.target {
                Some(f) => Some(f@),
                None => None,
            },
            value_source: self.value_source@,
        }
    }
}

/// What an action node does.
#[derive(Debug, PartialEq)]
pub enum ActionNodeKind {
    /// Entry node of a flow.
    Trigger { event_name: String },
    NavigateToView { targets: Vec<Option<NavigateTarget>> },
    StateMutation { assignments: Vec<StateAssignment> },
    /// Branches on its authored conditions.
    Conditional,
    /// Branches on a subject; the arms name string values or enum variants.
    Match { arms: Vec<String>, enum_type: Option<String> },
    CallFlow { flow_id: Option<u128> },
    /// A node kind that is no longer offered in the palette.
    Retired,
}

/// Mathematical form of an [`ActionNodeKind`].
pub enum KindV {
    Trigger { event_name: Seq<char> },
    NavigateToView { targets: Seq<Option<NavigateTarget>> },
    StateMutation { assignments: Seq<AssignmentV> },
    Conditional,
    Match { arms: Seq<Seq<char>>, enum_type: Option<Seq<char>> },
    CallFlow { flow_id: Option<u128> },
    Retired,
}

/// The views of a list of assignments.
pub open spec fn assignments_view(v: Seq<StateAssignment>) -> Seq<AssignmentV> {
    v.map_values(|a: StateAssignment| a@)
}

/// The views of a list of conditions.
pub open spec fn conditions_view(v: Seq<AuthoredCondition>) -> Seq<ConditionV> {
    v.map_values(|c: AuthoredCondition| c@)
}

impl View for ActionNodeKind {
    type V = KindV;

    open spec fn view(&self) -> KindV {
        match self {
            ActionNodeKind::Trigger { event_name } => KindV::Trigger { event_name: event_name@ },
            ActionNodeKind::NavigateToView { targets } => KindV::NavigateToView { targets: targets@ },
            ActionNodeKind::StateMutation { assignments } => KindV::StateMutation {
                assignments: assignments_view(assignments@),
            },
            ActionNodeKind::Conditional => KindV::Conditional,
            ActionNodeKind::Match { arms, enum_type } => KindV::Match {
                arms: strs_view(arms@),
                enum_type: match enum_type {
                    Some(s) => Some(s@),
                    None => None,
                },
            },
            ActionNodeKind::CallFlow { flow_id } => KindV::CallFlow { flow_id: *flow_id },
            ActionNodeKind::Retired => KindV::Retired,
        }
    }
}

/// One node of a flow's action graph.
#[derive(Debug)]
pub struct ActionNodeData {
    pub id: u64,
    pub kind: ActionNodeKind,
    /// Conditions of a conditional node, in row order.
    pub authored_conditions: Vec<AuthoredCondition>,
    /// A single condition kept by older projects; moved into
    /// `authored_conditions` on the first edit.
    pub authored_condition: Option<AuthoredCondition>,
    pub authored_condition_join: ConditionJoinMode,
    /// The subject a match node branches on.
    pub authored_match_subject: Option<AuthoredValueSource>,
    pub selected: bool,
    pub enabled: bool,
    /// The ids of the node's flow output ports (kept for the trigger node,
    /// whose outputs follow the flow's trigger).
    pub ports_out: Vec<u128>,
}

/// Mathematical form of an [`ActionNodeData`].
pub struct NodeV {
    pub id: u64,
    pub kind: KindV,
    pub conditions: Seq<ConditionV>,
    pub legacy_condition: Option<ConditionV>,
    pub join: ConditionJoinMode,
    pub subject: Option<ValueSourceV>,
    pub selected: bool,
    pub enabled: bool,
    pub ports_out: Seq<u128>,
}

impl View for ActionNodeData {
    type V = NodeV;

    open spec fn view(&self) -> NodeV {
        NodeV {
            id: self.id,
            kind: self.kind@,
            conditions: conditions_view(self.authored_conditions@),
            legacy_condition: match &self.authored_condition {
                Some(c) => Some(c@),
                None => None,
            },
            join: self.authored_condition_join,
            subject: match &self.authored_match_subject {
                Some(s) => Some(s@),
                None => None,
            },
            selected: self.selected,
            enabled: self.enabled,
            ports_out: self.ports_out@,
        }
    }
}

impl ActionNodeData {
    /// A fresh, unselected, enabled node of the given kind with no authored
    /// conditions, no match subject and no output ports.
    pub fn new(id: u64, kind: ActionNodeKind) -> (n: Self)
        ensures
            n@.id == id,
            n@.kind == kind@,
            n@.conditions == Seq::<ConditionV>::empty(),
            n@.legacy_condition is None,
            n@.join == ConditionJoinMode::All,
            n@.subject is None,
            !n@.selected,
            n@.enabled,
            n@.ports_out == Seq::<u128>::empty(),
    {
        let n = ActionNodeData {
            id,
            kind,
            authored_conditions: Vec::new(),
            authored_condition: None,
            authored_condition_join: ConditionJoinMode::All,
            authored_match_subject: None,
            selected: false,
            enabled: true,
            ports_out: Vec::new(),
        };
        proof {
            assert(conditions_view(n.authored_conditions@) =~= Seq::<ConditionV>::empty());
        }
        n
    }

    /// Whether this is the flow's trigger node.
    pub fn is_trigger(&self) -> (b: bool)
        ensures
            b == (self@.kind is Trigger),
    {
        matches!(self.kind, ActionNodeKind::Trigger { .. })
    }
}

/// The conditions the editor shows for a node: its rows, else its older
/// single condition, else one default row.
pub open spec fn conditions_for_display_spec(n: NodeV) -> Seq<ConditionV> {
    if n.conditions.len() > 0 {
        n.conditions
    } else {
        match n.legacy_condition {
            Some(c) => seq![c],
            None => seq![default_condition_spec()],
        }
    }
}

/// A copy of a list of conditions.
pub fn clone_conditions(v: &Vec<AuthoredCondition>) -> (r: Vec<AuthoredCondition>)
    ensures
        conditions_view(r@) == conditions_view(v@),
{
    let mut r: Vec<AuthoredCondition> = Vec::new();
    let mut i: usize = 0;
    while i < v.len()
        invariant
            i <= v@.len(),
            r@.len() == i,
            forall|j: int| 0 <= j < i ==> #[trigger] r@[j]@ == v@[j]@,
        decreases v@.len() - i,
    {
        r.push(v[i].clone());
        i = i + 1;
    }
    proof {
        assert(conditions_view(r@) =~= conditions_view(v@));
    }
    r
}

/// The conditions the editor shows for `node`.
pub fn authored_conditions_for_display(node: &ActionNodeData) -> (r: Vec<AuthoredCondition>)
    ensures
        conditions_view(r@) == conditions_for_display_spec(node@),
{
    if node.authored_conditions.len() > 0 {
        clone_conditions(&node.authored_conditions)
    } else if let Some(legacy) = &node.authored_condition {
        let r = vec![legacy.clone()];
        proof {
            assert(conditions_view(r@) =~= seq![legacy@]);
        }
        r
    } else {
        let r = vec![default_authored_condition()];
        proof {
            assert(conditions_view(r@) =~= seq![default_condition_spec()]);
        }
        r
    }
}

/// A node whose condition rows are guaranteed non-empty: with no rows, the
/// older single condition (or a default row) becomes the only row and the
/// single condition is cleared; with rows, the single condition is cleared.
pub open spec fn ensured_conditions_spec(n: NodeV) -> NodeV {
    NodeV {
        conditions: conditions_for_display_spec(n),
        legacy_condition: None,
        ..n
    }
}

/// Makes sure the node's condition rows hold at least one row (see
/// [`ensured_conditions_spec`]); edits of conditions go through the rows.
pub fn ensure_authored_conditions_mut(node: &mut ActionNodeData)
    ensures
        final(node)@ == ensured_conditions_spec(old(node)@),
{
    if node.authored_conditions.len() == 0 {
        let legacy = node.authored_condition.take();
        match legacy {
            Some(c) => node.authored_conditions.push(c),
            None => node.authored_conditions.push(default_authored_condition()),
        }
        proof {
            assert(conditions_view(node.authored_conditions@) =~= conditions_for_display_spec(old(node)@));
        }
    } else {
        node.authored_condition = None;
    }
}

} // verus!

verus! {

/// A view a navigate target can point at, with its name.
#[derive(Debug, PartialEq)]
pub struct ViewOption {
    pub id: u128,
    pub name: String,
}

/// A view reference (with more than one possible view) that a navigate node
/// can switch, with the label the picker shows and the views it can show.
#[derive(Debug, PartialEq)]
pub struct ViewReferenceNavOption {
    pub owner_view_id: u128,
    pub widget_id: u64,
    pub label: String,
    pub targets: Vec<ViewOption>,
}

/// What the node edits need to know of the views: the first view (in id
/// order) and the switchable view references (in label order).
pub struct NodeEditContext {
    pub first_view_id: Option<u128>,
    pub nav_options: Vec<ViewReferenceNavOption>,
}

/// Mathematical form of a [`ViewReferenceNavOption`].
pub struct NavOptionV {
    pub owner_view_id: u128,
    pub widget_id: u64,
    pub label: Seq<char>,
    pub targets: Seq<(u128, Seq<char>)>,
}

/// The mathematical form of a switchable view reference.
pub open spec fn nav_view(o: ViewReferenceNavOption) -> NavOptionV {
    NavOptionV {
        owner_view_id: o.owner_view_id,
        widget_id: o.widget_id,
        label: o.label@,
        targets: o.targets@.map_values(|t: ViewOption| (t.id, t.name@)),
    }
}

/// The mathematical forms of a list of switchable view references.
pub open spec fn navs_view(v: Seq<ViewReferenceNavOption>) -> Seq<NavOptionV> {
    v.map_values(|o: ViewReferenceNavOption| nav_view(o))
}

/// Mathematical form of a [`NodeEditContext`].
pub struct ContextV {
    pub first_view_id: Option<u128>,
    pub navs: Seq<NavOptionV>,
}

impl View for NodeEditContext {
    type V = ContextV;

    open spec fn view(&self) -> ContextV {
        ContextV { first_view_id: self.first_view_id, navs: navs_view(self.nav_options@) }
    }
}

/// The navigate target a new or reset row of the given mode starts with:
/// the first view for the app-view mode; the first target of the first
/// switchable view reference for the view-reference mode; none when there
/// is no such view.
pub open spec fn default_target_spec(mode: NavigateModeOption, ctx: ContextV) -> Option<NavigateTarget> {
    match mode {
        NavigateModeOption::AppView => match ctx.first_view_id {
            Some(v) => Some(NavigateTarget::AppView { view_id: v }),
            None => None,
        },
        NavigateModeOption::ViewReference => if ctx.navs.len() > 0 && ctx.navs[0].targets.len() > 0 {
            Some(NavigateTarget::ViewReference {
                owner_view_id: ctx.navs[0].owner_view_id,
                widget_id: ctx.navs[0].widget_id,
                target_view_id: ctx.navs[0].targets[0].0,
            })
        } else {
            None
        },
    }
}

/// The navigate target a new or reset row of mode `mode` starts with.
pub fn default_navigate_target_for_mode(mode: NavigateModeOption, ctx: &NodeEditContext) -> (r: Option<NavigateTarget>)
    ensures
        r == default_target_spec(mode, ctx@),
{
    match mode {
        NavigateModeOption::AppView => match ctx.first_view_id {
            Some(v) => Some(NavigateTarget::AppView { view_id: v }),
            None => None,
        },
        NavigateModeOption::ViewReference => {
            if ctx.nav_options.len() > 0 && ctx.nav_options[0].targets.len() > 0 {
                Some(NavigateTarget::ViewReference {
                    owner_view_id: ctx.nav_options[0].owner_view_id,
                    widget_id: ctx.nav_options[0].widget_id,
                    target_view_id: ctx.nav_options[0].targets[0].id,
                })
            } else {
                None
            }
        },
    }
}

/// The first view a switchable view reference can show: that of the first
/// option for `(owner, widget)` in `opts`, if any.
pub open spec fn nav_first_target_spec(opts: Seq<NavOptionV>, owner: u128, widget: u64) -> Option<u128>
    decreases opts.len(),
{
    if opts.len() == 0 {
        None
    } else if opts[0].owner_view_id == owner && opts[0].widget_id == widget {
        if opts[0].targets.len() > 0 { Some(opts[0].targets[0].0) } else { None }
    } else {
        nav_first_target_spec(opts.drop_first(), owner, widget)
    }
}

fn nav_first_target(opts: &Vec<ViewReferenceNavOption>, owner: u128, widget: u64) -> (r: Option<u128>)
    ensures
        r == nav_first_target_spec(navs_view(opts@), owner, widget),
{
    let ghost ns = navs_view(opts@);
    let mut i: usize = 0;
    proof {
        assert(ns.subrange(0, ns.len() as int) =~= ns);
    }
    while i < opts.len()
        invariant
            ns == navs_view(opts@),
            i <= opts@.len(),
            nav_first_target_spec(ns, owner, widget) == nav_first_target_spec(
                ns.subrange(i as int, ns.len() as int), owner, widget),
        decreases opts@.len() - i,
    {
        proof {
            let rest = ns.subrange(i as int, ns.len() as int);
            assert(rest[0] == nav_view(opts@[i as int]));
            assert(rest.drop_first() =~= ns.subrange(i + 1, ns.len() as int));
        }
        if opts[i].owner_view_id == owner && opts[i].widget_id == widget {
            if opts[i].targets.len() > 0 {
                proof {
                    assert(nav_view(opts@[i as int]).targets[0] == (opts@[i as int].targets@[0].id, opts@[i as int].targets@[0].name@));
                }
                return Some(opts[i].targets[0].id);
            } else {
                return None;
            }
        }
        i = i + 1;
    }
    None
}

/// An authoring edit of one node, as the node editors emit it. A `number`
/// is the bit pattern of what the typed text (trimmed where the field
/// trims) reads as an `f64`, when it reads as one.
#[derive(Debug)]
pub enum NodeMessage {
    NavigateModeSelected(NavigateModeOption),
    NavigateAppViewSelected(usize, u128),
    NavigateViewReferenceSelected(usize, u128, u64),
    NavigateViewReferenceTargetSelected(usize, u128),
    AddNavigateTarget,
    RemoveNavigateTarget(usize),
    StateMutationAddAssignment,
    StateMutationRemoveAssignment(usize),
    StateMutationSetTarget(usize, StateFieldRef),
    StateMutationSetLiteralString(usize, String, Option<u64>),
    StateMutationSetLiteralBool(usize, bool),
    StateMutationSetLiteralEnum(usize, String, String),
    AddConditionalRow,
    RemoveConditionalRow(usize),
    SetConditionalJoinMode(ConditionJoinMode),
    SetConditionalSource(usize, ExpressionSourceOption),
    SetConditionalOperator(usize, CompareOp),
    SetConditionalRhsText(usize, String, Option<u64>),
    SetConditionalRhsBool(usize, bool),
    AddMatchArm,
    RemoveMatchArm(usize),
    SetMatchArm(usize, String),
    SetMatchEnumType(String),
    ClearMatchEnumType,
    SetMatchSubjectSource(ExpressionSourceOption),
    SetMatchSubjectLiteral(String, Option<u64>),
    SetCallFlowTarget(u128),
}

/// Navigate targets after a mode change: targets of another mode (and
/// unset ones) become `default`.
pub open spec fn retarget_spec(targets: Seq<Option<NavigateTarget>>, mode: NavigateModeOption, default: Option<NavigateTarget>) -> Seq<Option<NavigateTarget>> {
    Seq::new(targets.len(), |i: int| if target_in_mode(mode, targets[i]) { targets[i] } else { default })
}

/// The node with condition row `idx` replaced by `c` after the rows were
/// ensured (no change when `idx` is past the rows).
pub open spec fn with_condition(n: NodeV, idx: int, c: ConditionV) -> NodeV {
    let e = ensured_conditions_spec(n);
    if 0 <= idx < e.conditions.len() {
        NodeV { conditions: e.conditions.update(idx, c), ..e }
    } else {
        e
    }
}

/// Condition row `idx` of the node after its rows were ensured.
pub open spec fn ensured_row(n: NodeV, idx: int) -> ConditionV {
    ensured_conditions_spec(n).conditions[idx]
}

/// The literal kept by a source, if it is a literal.
pub open spec fn literal_of(s: ValueSourceV) -> Option<ValueV> {
    match s {
        ValueSourceV::Literal(v) => Some(v),
        _ => None,
    }
}

/// The empty name, or the first arm.
pub open spec fn first_arm(arms: Seq<Seq<char>>) -> Seq<char> {
    if arms.len() > 0 { arms[0] } else { Seq::<char>::empty() }
}

/// A match subject literal after the user typed `raw`: a variant of the
/// node's enum type when it has one; otherwise a number stays a number when
/// `raw` reads as one, a boolean stays a boolean when `raw` reads as one,
/// a variant keeps its type, and anything else becomes the text.
pub open spec fn subject_literal_spec(value: ValueV, enum_type: Option<Seq<char>>, raw: Seq<char>, number: Option<u64>) -> ValueV {
    match enum_type {
        Some(t) => ValueV::EnumVariant { enum_name: t, variant: raw },
        None => match value {
            ValueV::Number(_) => match number {
                Some(b) => ValueV::Number(b),
                None => ValueV::String(raw),
            },
            ValueV::Bool(_) => if reads_true(raw) {
                ValueV::Bool(true)
            } else if reads_false(raw) {
                ValueV::Bool(false)
            } else {
                ValueV::String(raw)
            },
            ValueV::EnumVariant { enum_name, .. } => ValueV::EnumVariant { enum_name, variant: raw },
            ValueV::String(_) => ValueV::String(raw),
        },
    }
}

/// A new empty assignment: no target, the empty string literal.
pub open spec fn new_assignment_spec() -> AssignmentV {
    AssignmentV { target: None, value_source: AssignSourceV::Literal(ValueV::String(Seq::<char>::empty())) }
}

/// The node after an authoring edit; edits that do not apply to the node's
/// kind, or that name a row past the end, leave it as it is (condition
/// edits still move an older single condition into the rows).
pub open spec fn node_after(n: NodeV, msg: NodeMessage, ctx: ContextV) -> NodeV {
    match msg {
        NodeMessage::NavigateModeSelected(mode) => match n.kind {
            KindV::NavigateToView { targets } => NodeV {
                kind: KindV::NavigateToView {
                    targets: retarget_spec(targets, mode, default_target_spec(mode, ctx)),
                },
                ..n
            },
            _ => n,
        },
        NodeMessage::NavigateAppViewSelected(slot, view_id) => match n.kind {
            KindV::NavigateToView { targets } => if slot < targets.len() {
                NodeV {
                    kind: KindV::NavigateToView {
                        targets: targets.update(slot as int, Some(NavigateTarget::AppView { view_id })),
                    },
                    ..n
                }
            } else {
                n
            },
            _ => n,
        },
        NodeMessage::NavigateViewReferenceSelected(slot, owner, widget) => match (
            n.kind,
            nav_first_target_spec(ctx.navs, owner, widget),
        ) {
            (KindV::NavigateToView { targets }, Some(t)) => if slot < targets.len() {
                NodeV {
                    kind: KindV::NavigateToView {
                        targets: targets.update(
                            slot as int,
                            Some(NavigateTarget::ViewReference { owner_view_id: owner, widget_id: widget, target_view_id: t }),
                        ),
                    },
                    ..n
                }
            } else {
                n
            },
            _ => n,
        },
        NodeMessage::NavigateViewReferenceTargetSelected(slot, target) => match n.kind {
            KindV::NavigateToView { targets } => if slot < targets.len() {
                match targets[slot as int] {
                    Some(NavigateTarget::ViewReference { owner_view_id, widget_id, .. }) => NodeV {
                        kind: KindV::NavigateToView {
                            targets: targets.update(
                                slot as int,
                                Some(NavigateTarget::ViewReference { owner_view_id, widget_id, target_view_id: target }),
                            ),
                        },
                        ..n
                    },
                    _ => n,
                }
            } else {
                n
            },
            _ => n,
        },
        NodeMessage::AddNavigateTarget => match n.kind {
            KindV::NavigateToView { targets } => NodeV {
                kind: KindV::NavigateToView {
                    targets: targets.push(default_target_spec(navigate_mode_spec(targets), ctx)),
                },
                ..n
            },
            _ => n,
        },
        NodeMessage::RemoveNavigateTarget(slot) => match n.kind {
            KindV::NavigateToView { targets } => if targets.len() > 1 {
                NodeV { kind: KindV::NavigateToView { targets: targets.remove(slot as int) }, ..n }
            } else {
                n
            },
            _ => n,
        },
        NodeMessage::StateMutationAddAssignment => match n.kind {
            KindV::StateMutation { assignments } => NodeV {
                kind: KindV::StateMutation { assignments: assignments.push(new_assignment_spec()) },
                ..n
            },
            _ => n,
        },
        NodeMessage::StateMutationRemoveAssignment(idx) => match n.kind {
            KindV::StateMutation { assignments } => if assignments.len() > 1 && idx < assignments.len() {
                NodeV { kind: KindV::StateMutation { assignments: assignments.remove(idx as int) }, ..n }
            } else {
                n
            },
            _ => n,
        },
        NodeMessage::StateMutationSetTarget(idx, sf) => match n.kind {
            KindV::StateMutation { assignments } => if idx < assignments.len() {
                NodeV {
                    kind: KindV::StateMutation {
                        assignments: assignments.update(
                            idx as int,
                            AssignmentV {
                                target: Some(sf@),
                                value_source: AssignSourceV::Literal(default_value_spec(sf@.field_type)),
                            },
                        ),
                    },
                    ..n
                }
            } else {
                n
            },
            _ => n,
        },
        NodeMessage::StateMutationSetLiteralString(idx, raw, number) => match n.kind {
            KindV::StateMutation { assignments } => if idx < assignments.len() {
                match assignments[idx as int].value_source {
                    AssignSourceV::Literal(cur) => NodeV {
                        kind: KindV::StateMutation {
                            assignments: assignments.update(
                                idx as int,
                                AssignmentV {
                                    target: assignments[idx as int].target,
                                    value_source: AssignSourceV::Literal(coerce_literal_spec(cur, raw@, number)),
                                },
                            ),
                        },
                        ..n
                    },
                    _ => n,
                }
            } else {
                n
            },
            _ => n,
        },
        NodeMessage::StateMutationSetLiteralBool(idx, b) => match n.kind {
            KindV::StateMutation { assignments } => if idx < assignments.len() {
                NodeV {
                    kind: KindV::StateMutation {
                        assignments: assignments.update(
                            idx as int,
                            AssignmentV {
                                target: assignments[idx as int].target,
                                value_source: AssignSourceV::Literal(ValueV::Bool(b)),
                            },
                        ),
                    },
                    ..n
                }
            } else {
                n
            },
            _ => n,
        },
        NodeMessage::StateMutationSetLiteralEnum(idx, enum_name, variant) => match n.kind {
            KindV::StateMutation { assignments } => if idx < assignments.len() {
                NodeV {
                    kind: KindV::StateMutation {
                        assignments: assignments.update(
                            idx as int,
                            AssignmentV {
                                target: assignments[idx as int].target,
                                value_source: AssignSourceV::Literal(
                                    ValueV::EnumVariant { enum_name: enum_name@, variant: variant@ },
                                ),
                            },
                        ),
                    },
                    ..n
                }
            } else {
                n
            },
            _ => n,
        },
        NodeMessage::AddConditionalRow => {
            let e = ensured_conditions_spec(n);
            NodeV { conditions: e.conditions.push(default_condition_spec()), ..e }
        },
        NodeMessage::RemoveConditionalRow(idx) => {
            let e = ensured_conditions_spec(n);
            if e.conditions.len() > 1 && idx < e.conditions.len() {
                NodeV { conditions: e.conditions.remove(idx as int), ..e }
            } else {
                e
            }
        },
        NodeMessage::SetConditionalJoinMode(mode) => NodeV { join: mode, ..n },
        NodeMessage::SetConditionalSource(idx, opt) => {
            let c = ensured_row(n, idx as int);
            with_condition(
                n,
                idx as int,
                normalized_spec(ConditionV { lhs: option_to_source_spec(opt@, literal_of(c.lhs)), ..c }),
            )
        },
        NodeMessage::SetConditionalOperator(idx, op) => {
            let c = ensured_row(n, idx as int);
            with_condition(n, idx as int, normalized_spec(ConditionV { operator: op, ..c }))
        },
        NodeMessage::SetConditionalRhsText(idx, raw, number) => {
            let c = ensured_row(n, idx as int);
            with_condition(
                n,
                idx as int,
                ConditionV { rhs_literal: parse_rhs_spec(source_type_spec(c.lhs), raw@, number), ..c },
            )
        },
        NodeMessage::SetConditionalRhsBool(idx, b) => {
            let c = ensured_row(n, idx as int);
            with_condition(n, idx as int, ConditionV { rhs_literal: ValueV::Bool(b), ..c })
        },
        NodeMessage::AddMatchArm => match n.kind {
            KindV::Match { arms, enum_type } => NodeV {
                kind: KindV::Match { arms: arms.push("arm "@ + decimal_spec(arms.len() + 1)), enum_type },
                ..n
            },
            _ => n,
        },
        NodeMessage::RemoveMatchArm(idx) => match n.kind {
            KindV::Match { arms, enum_type } => if idx < arms.len() {
                NodeV { kind: KindV::Match { arms: arms.remove(idx as int), enum_type }, ..n }
            } else {
                n
            },
            _ => n,
        },
        NodeMessage::SetMatchArm(idx, value) => match n.kind {
            KindV::Match { arms, enum_type } => if idx < arms.len() {
                NodeV { kind: KindV::Match { arms: arms.update(idx as int, value@), enum_type }, ..n }
            } else {
                n
            },
            _ => n,
        },
        NodeMessage::SetMatchEnumType(name) => match n.kind {
            KindV::Match { arms, .. } => {
                let lit = ValueV::EnumVariant { enum_name: name@, variant: first_arm(arms) };
                NodeV {
                    kind: KindV::Match { arms, enum_type: Some(name@) },
                    subject: match n.subject {
                        Some(ValueSourceV::Literal(_)) => Some(ValueSourceV::Literal(lit)),
                        Some(other) => Some(other),
                        None => Some(ValueSourceV::Literal(lit)),
                    },
                    ..n
                }
            },
            _ => n,
        },
        NodeMessage::ClearMatchEnumType => match n.kind {
            KindV::Match { arms, .. } => NodeV { kind: KindV::Match { arms, enum_type: None }, ..n },
            _ => n,
        },
        NodeMessage::SetMatchSubjectSource(opt) => {
            let existing = match n.subject {
                Some(ValueSourceV::Literal(v)) => Some(v),
                _ => None,
            };
            let fallback = match existing {
                Some(v) => Some(v),
                None => if opt@ is LiteralValue {
                    match n.kind {
                        KindV::Match { arms, enum_type: Some(t) } => Some(
                            ValueV::EnumVariant { enum_name: t, variant: first_arm(arms) },
                        ),
                        _ => None,
                    }
                } else {
                    None
                },
            };
            NodeV { subject: Some(option_to_source_spec(opt@, fallback)), ..n }
        },
        NodeMessage::SetMatchSubjectLiteral(raw, number) => {
            let enum_type = match n.kind {
                KindV::Match { enum_type, .. } => enum_type,
                _ => None,
            };
            match n.subject {
                Some(ValueSourceV::Literal(v)) => NodeV {
                    subject: Some(ValueSourceV::Literal(subject_literal_spec(v, enum_type, raw@, number))),
                    ..n
                },
                _ => n,
            }
        },
        NodeMessage::SetCallFlowTarget(flow_id) => match n.kind {
            KindV::CallFlow { .. } => NodeV { kind: KindV::CallFlow { flow_id: Some(flow_id) }, ..n },
            _ => n,
        },
    }
}

/// Whether an edit can be applied without failing: removing a navigate
/// target from a node with more than one must name an existing one.
pub open spec fn node_message_ok(n: NodeV, msg: NodeMessage) -> bool {
    match (msg, n.kind) {
        (NodeMessage::RemoveNavigateTarget(slot), KindV::NavigateToView { targets }) =>
            targets.len() > 1 ==> slot < targets.len(),
        (NodeMessage::AddMatchArm, KindV::Match { arms, .. }) => arms.len() < usize::MAX,
        _ => true,
    }
}

} // verus!

verus! {

fn set_condition_row(node: &mut ActionNodeData, idx: usize, c: AuthoredCondition)
    requires
        idx < old(node).authored_conditions@.len(),
    ensures
        final(node)@ == (NodeV { conditions: old(node)@.conditions.update(idx as int, c@), ..old(node)@ }),
{
    node.authored_conditions.set(idx, c);
    proof {
        assert(conditions_view(node.authored_conditions@) =~= old(node)@.conditions.update(idx as int, c@));
    }
}

/// Whether `msg` is a navigate-target edit.
pub open spec fn is_navigate_edit(msg: NodeMessage) -> bool {
    msg is NavigateModeSelected
        || msg is NavigateAppViewSelected
        || msg is NavigateViewReferenceSelected
        || msg is NavigateViewReferenceTargetSelected
        || msg is AddNavigateTarget
        || msg is RemoveNavigateTarget
}

fn update_navigate(node: &mut ActionNodeData, msg: NodeMessage, ctx: &NodeEditContext)
    requires
        is_navigate_edit(msg),
        node_message_ok(old(node)@, msg),
    ensures
        final(node)@ == node_after(old(node)@, msg, ctx@),
{
    match msg {
        NodeMessage::NavigateModeSelected(mode) => {
            let default = default_navigate_target_for_mode(mode, ctx);
            if let ActionNodeKind::NavigateToView { targets } = &mut node.kind {
                let ghost t0 = targets@;
                let mut i: usize = 0;
                while i < targets.len()
                    invariant
                        i <= targets@.len(),
                        targets@.len() == t0.len(),
                        forall|j: int| 0 <= j < i ==> targets@[j] == retarget_spec(t0, mode, default)[j],
                        forall|j: int| i <= j < t0.len() ==> targets@[j] == t0[j],
                    decreases t0.len() - i,
                {
                    let keep = match (mode, targets[i]) {
                        (NavigateModeOption::AppView, Some(NavigateTarget::AppView { .. })) => true,
                        (NavigateModeOption::ViewReference, Some(NavigateTarget::ViewReference { .. })) => true,
                        _ => false,
                    };
                    if !keep {
                        targets.set(i, default);
                    }
                    i = i + 1;
                }
                proof {
                    assert(targets@ =~= retarget_spec(t0, mode, default));
                }
            }
        },
        NodeMessage::NavigateAppViewSelected(slot, view_id) => {
            if let ActionNodeKind::NavigateToView { targets } = &mut node.kind {
                if slot < targets.len() {
                    targets.set(slot, Some(NavigateTarget::AppView { view_id }));
                }
            }
        },
        NodeMessage::NavigateViewReferenceSelected(slot, owner, widget) => {
            let target = nav_first_target(&ctx.nav_options, owner, widget);
            if let Some(t) = target {
                if let ActionNodeKind::NavigateToView { targets } = &mut node.kind {
                    if slot < targets.len() {
                        targets.set(
                            slot,
                            Some(NavigateTarget::ViewReference { owner_view_id: owner, widget_id: widget, target_view_id: t }),
                        );
                    }
                }
            }
        },
        NodeMessage::NavigateViewReferenceTargetSelected(slot, target) => {
            if let ActionNodeKind::NavigateToView { targets } = &mut node.kind {
                if slot < targets.len() {
                    if let Some(NavigateTarget::ViewReference { owner_view_id, widget_id, .. }) = targets[slot] {
                        targets.set(
                            slot,
                            Some(NavigateTarget::ViewReference { owner_view_id, widget_id, target_view_id: target }),
                        );
                    }
                }
            }
        },
        NodeMessage::AddNavigateTarget => {
            if let ActionNodeKind::NavigateToView { targets } = &mut node.kind {
                let mode = infer_navigate_mode(targets);
                let d = default_navigate_target_for_mode(mode, ctx);
                targets.push(d);
            }
        },
        NodeMessage::RemoveNavigateTarget(slot) => {
            if let ActionNodeKind::NavigateToView { targets } = &mut node.kind {
                if targets.len() > 1 {
                    targets.remove(slot);
                }
            }
        },
        _ => {},
    }
}

/// Whether `msg` is a state-assignment edit.
pub open spec fn is_assignment_edit(msg: NodeMessage) -> bool {
    msg is StateMutationAddAssignment
        || msg is StateMutationRemoveAssignment
        || msg is StateMutationSetTarget
        || msg is StateMutationSetLiteralString
        || msg is StateMutationSetLiteralBool
        || msg is StateMutationSetLiteralEnum
}

fn update_assignment(node: &mut ActionNodeData, msg: NodeMessage, ctx: &NodeEditContext)
    requires
        is_assignment_edit(msg),
        node_message_ok(old(node)@, msg),
    ensures
        final(node)@ == node_after(old(node)@, msg, ctx@),
{
    match msg {
        NodeMessage::StateMutationAddAssignment => {
            if let ActionNodeKind::StateMutation { assignments } = &mut node.kind {
                let ghost a0 = assignments@;
                assignments.push(StateAssignment {
                    target: None,
                    value_source: ValueSource::Literal(ActionValue::String(String::new())),
                });
                proof {
                    assert(assignments_view(assignments@) =~= assignments_view(a0).push(new_assignment_spec()));
                }
            }
        },
        NodeMessage::StateMutationRemoveAssignment(idx) => {
            if let ActionNodeKind::StateMutation { assignments } = &mut node.kind {
                let ghost a0 = assignments@;
                if assignments.len() > 1 && idx < assignments.len() {
                    assignments.remove(idx);
                    proof {
                        assert(assignments_view(assignments@) =~= assignments_view(a0).remove(idx as int));
                    }
                }
            }
        },
        NodeMessage::StateMutationSetTarget(idx, sf) => {
            if let ActionNodeKind::StateMutation { assignments } = &mut node.kind {
                let ghost a0 = assignments@;
                if idx < assignments.len() {
                    let dv = default_value_for_type(&sf.field_type);
                    let a = StateAssignment { target: Some(sf), value_source: ValueSource::Literal(dv) };
                    let ghost av = a@;
                    assignments.set(idx, a);
                    proof {
                        assert(assignments_view(assignments@) =~= assignments_view(a0).update(idx as int, av));
                    }
                }
            }
        },
        NodeMessage::StateMutationSetLiteralString(idx, raw, number) => {
            if let ActionNodeKind::StateMutation { assignments } = &mut node.kind {
                let ghost a0 = assignments@;
                if idx < assignments.len() {
                    if let ValueSource::Literal(current) = &assignments[idx].value_source {
                        let nv = coerce_literal(current.clone(), raw.as_str(), number);
                        let t = match &assignments[idx].target {
                            Some(f) => Some(f.clone()),
                            None => None,
                        };
                        let a = StateAssignment { target: t, value_source: ValueSource::Literal(nv) };
                        let ghost av = a@;
                        assignments.set(idx, a);
                        proof {
                            assert(assignments_view(assignments@) =~= assignments_view(a0).update(idx as int, av));
                        }
                    }
                }
            }
        },
        NodeMessage::StateMutationSetLiteralBool(idx, b) => {
            if let ActionNodeKind::StateMutation { assignments } = &mut node.kind {
                let ghost a0 = assignments@;
                if idx < assignments.len() {
                    let t = match &assignments[idx].target {
                        Some(f) => Some(f.clone()),
                        None => None,
                    };
                    let a = StateAssignment { target: t, value_source: ValueSource::Literal(ActionValue::Bool(b)) };
                    let ghost av = a@;
                    assignments.set(idx, a);
                    proof {
                        assert(assignments_view(assignments@) =~= assignments_view(a0).update(idx as int, av));
                    }
                }
            }
        },
        NodeMessage::StateMutationSetLiteralEnum(idx, enum_name, variant) => {
            if let ActionNodeKind::StateMutation { assignments } = &mut node.kind {
                let ghost a0 = assignments@;
                if idx < assignments.len() {
                    let t = match &assignments[idx].target {
                        Some(f) => Some(f.clone()),
                        None => None,
                    };
                    let a = StateAssignment {
                        target: t,
                        value_source: ValueSource::Literal(ActionValue::EnumVariant { enum_name, variant }),
                    };
                    let ghost av = a@;
                    assignments.set(idx, a);
                    proof {
                        assert(assignments_view(assignments@) =~= assignments_view(a0).update(idx as int, av));
                    }
                }
            }
        },
        _ => {},
    }
}

/// Whether `msg` is a condition-row edit.
pub open spec fn is_condition_edit(msg: NodeMessage) -> bool {
    msg is AddConditionalRow
        || msg is RemoveConditionalRow
        || msg is SetConditionalJoinMode
        || msg is SetConditionalSource
        || msg is SetConditionalOperator
        || msg is SetConditionalRhsText
        || msg is SetConditionalRhsBool
}

fn update_condition(node: &mut ActionNodeData, msg: NodeMessage, ctx: &NodeEditContext)
    requires
        is_condition_edit(msg),
        node_message_ok(old(node)@, msg),
    ensures
        final(node)@ == node_after(old(node)@, msg, ctx@),
{
    match msg {
        NodeMessage::AddConditionalRow => {
            ensure_authored_conditions_mut(node);
            let ghost e = node@;
            node.authored_conditions.push(default_authored_condition());
            proof {
                assert(conditions_view(node.authored_conditions@) =~= e.conditions.push(default_condition_spec()));
            }
        },
        NodeMessage::RemoveConditionalRow(idx) => {
            ensure_authored_conditions_mut(node);
            let ghost e = node@;
            if node.authored_conditions.len() > 1 && idx < node.authored_conditions.len() {
                node.authored_conditions.remove(idx);
                proof {
                    assert(conditions_view(node.authored_conditions@) =~= e.conditions.remove(idx as int));
                }
            }
        },
        NodeMessage::SetConditionalJoinMode(mode) => {
            node.authored_condition_join = mode;
        },
        NodeMessage::SetConditionalSource(idx, opt) => {
            ensure_authored_conditions_mut(node);
            if idx < node.authored_conditions.len() {
                let mut c = node.authored_conditions[idx].clone();
                let existing = match &c.lhs {
                    AuthoredValueSource::Literal(v) => Some(v.clone()),
                    _ => None,
                };
                c.lhs = opt.to_source(existing);
                normalize_authored_condition_rhs(&mut c);
                set_condition_row(node, idx, c);
            }
        },
        NodeMessage::SetConditionalOperator(idx, op) => {
            ensure_authored_conditions_mut(node);
            if idx < node.authored_conditions.len() {
                let mut c = node.authored_conditions[idx].clone();
                c.operator = op;
                normalize_authored_condition_rhs(&mut c);
                set_condition_row(node, idx, c);
            }
        },
        NodeMessage::SetConditionalRhsText(idx, raw, number) => {
            ensure_authored_conditions_mut(node);
            if idx < node.authored_conditions.len() {
                let mut c = node.authored_conditions[idx].clone();
                let t = c.lhs.value_type();
                c.rhs_literal = parse_authored_rhs_text(&t, raw.as_str(), number);
                set_condition_row(node, idx, c);
            }
        },
        NodeMessage::SetConditionalRhsBool(idx, b) => {
            ensure_authored_conditions_mut(node);
            if idx < node.authored_conditions.len() {
                let mut c = node.authored_conditions[idx].clone();
                c.rhs_literal = ActionValue::Bool(b);
                set_condition_row(node, idx, c);
            }
        },
        _ => {},
    }
}

/// Whether `msg` is a match-node edit.
pub open spec fn is_match_node_edit(msg: NodeMessage) -> bool {
    msg is AddMatchArm
        || msg is RemoveMatchArm
        || msg is SetMatchArm
        || msg is SetMatchEnumType
        || msg is ClearMatchEnumType
        || msg is SetMatchSubjectSource
        || msg is SetMatchSubjectLiteral
}

fn update_match_node(node: &mut ActionNodeData, msg: NodeMessage, ctx: &NodeEditContext)
    requires
        is_match_node_edit(msg),
        node_message_ok(old(node)@, msg),
    ensures
        final(node)@ == node_after(old(node)@, msg, ctx@),
{
    match msg {
        NodeMessage::AddMatchArm => {
            if let ActionNodeKind::Match { arms, .. } = &mut node.kind {
                let ghost a0 = arms@;
                let n = (arms.len() + 1) as u64;
                let label = numbered("arm ", n);
                let ghost lv = label@;
                arms.push(label);
                proof {
                    assert(lv == "arm "@ + decimal_spec(a0.len() + 1));
                    assert(strs_view(arms@) =~= strs_view(a0).push("arm "@ + decimal_spec(a0.len() + 1)));
                }
            }
        },
        NodeMessage::RemoveMatchArm(idx) => {
            if let ActionNodeKind::Match { arms, .. } = &mut node.kind {
                let ghost a0 = arms@;
                if idx < arms.len() {
                    arms.remove(idx);
                    proof {
                        assert(strs_view(arms@) =~= strs_view(a0).remove(idx as int));
                    }
                }
            }
        },
        NodeMessage::SetMatchArm(idx, value) => {
            if let ActionNodeKind::Match { arms, .. } = &mut node.kind {
                let ghost a0 = arms@;
                if idx < arms.len() {
                    let ghost vv = value@;
                    arms.set(idx, value);
                    proof {
                        assert(strs_view(arms@) =~= strs_view(a0).update(idx as int, vv));
                    }
                }
            }
        },
        NodeMessage::SetMatchEnumType(name) => {
            let mut lit: Option<ActionValue> = None;
            if let ActionNodeKind::Match { arms, enum_type } = &mut node.kind {
                let variant = first_or_empty(arms);
                lit = Some(ActionValue::EnumVariant { enum_name: name.clone(), variant });
                *enum_type = Some(name);
            }
            if let Some(l) = lit {
                match &node.authored_match_subject {
                    Some(AuthoredValueSource::Literal(_)) | None => {
                        node.authored_match_subject = Some(AuthoredValueSource::Literal(l));
                    },
                    Some(_) => {},
                }
            }
        },
        NodeMessage::ClearMatchEnumType => {
            if let ActionNodeKind::Match { enum_type, .. } = &mut node.kind {
                *enum_type = None;
            }
        },
        NodeMessage::SetMatchSubjectSource(opt) => {
            let existing = match &node.authored_match_subject {
                Some(AuthoredValueSource::Literal(v)) => Some(v.clone()),
                _ => None,
            };
            let fallback = match existing {
                Some(v) => Some(v),
                None => {
                    if matches!(opt, ExpressionSourceOption::LiteralValue) {
                        match &node.kind {
                            ActionNodeKind::Match { arms, enum_type: Some(t) } => Some(
                                ActionValue::EnumVariant { enum_name: t.clone(), variant: first_or_empty(arms) },
                            ),
                            _ => None,
                        }
                    } else {
                        None
                    }
                },
            };
            node.authored_match_subject = Some(opt.to_source(fallback));
        },
        NodeMessage::SetMatchSubjectLiteral(raw, number) => {
            let enum_type: Option<String> = match &node.kind {
                ActionNodeKind::Match { enum_type, .. } => match enum_type {
                    Some(t) => Some(t.clone()),
                    None => None,
                },
                _ => None,
            };
            let newv: Option<ActionValue> = match &node.authored_match_subject {
                Some(AuthoredValueSource::Literal(value)) => Some(
                    match enum_type {
                        Some(t) => ActionValue::EnumVariant { enum_name: t, variant: raw },
                        None => match value {
                            ActionValue::Number(_) => match number {
                                Some(b) => ActionValue::Number(b),
                                None => ActionValue::String(raw),
                            },
                            ActionValue::Bool(_) => match read_bool_word(raw.as_str()) {
                                Some(b) => ActionValue::Bool(b),
                                None => ActionValue::String(raw),
                            },
                            ActionValue::EnumVariant { enum_name, .. } => ActionValue::EnumVariant {
                                enum_name: enum_name.clone(),
                                variant: raw,
                            },
                            ActionValue::String(_) => ActionValue::String(raw),
                        },
                    },
                ),
                _ => None,
            };
            if let Some(v) = newv {
                node.authored_match_subject = Some(AuthoredValueSource::Literal(v));
            }
        },
        _ => {},
    }
}

/// Whether `msg` is a call-flow edit.
pub open spec fn is_call_flow_edit(msg: NodeMessage) -> bool {
    msg is SetCallFlowTarget
}

fn update_call_flow(node: &mut ActionNodeData, msg: NodeMessage, ctx: &NodeEditContext)
    requires
        is_call_flow_edit(msg),
        node_message_ok(old(node)@, msg),
    ensures
        final(node)@ == node_after(old(node)@, msg, ctx@),
{
    match msg {
        NodeMessage::SetCallFlowTarget(flow_id) => {
            if let ActionNodeKind::CallFlow { flow_id: target } = &mut node.kind {
                *target = Some(flow_id);
            }
        },
        _ => {},
    }
}

/// Applies an authoring edit to `node` (see [`node_after`]).
pub fn update_node(node: &mut ActionNodeData, msg: NodeMessage, ctx: &NodeEditContext)
    requires
        node_message_ok(old(node)@, msg),
    ensures
        final(node)@ == node_after(old(node)@, msg, ctx@),
{
    match msg {
        NodeMessage::NavigateModeSelected(..)
        | NodeMessage::NavigateAppViewSelected(..)
        | NodeMessage::NavigateViewReferenceSelected(..)
        | NodeMessage::NavigateViewReferenceTargetSelected(..)
        | NodeMessage::AddNavigateTarget
        | NodeMessage::RemoveNavigateTarget(..) => update_navigate(node, msg, ctx),
        NodeMessage::StateMutationAddAssignment
        | NodeMessage::StateMutationRemoveAssignment(..)
        | NodeMessage::StateMutationSetTarget(..)
        | NodeMessage::StateMutationSetLiteralString(..)
        | NodeMessage::StateMutationSetLiteralBool(..)
        | NodeMessage::StateMutationSetLiteralEnum(..) => update_assignment(node, msg, ctx),
        NodeMessage::AddConditionalRow
        | NodeMessage::RemoveConditionalRow(..)
        | NodeMessage::SetConditionalJoinMode(..)
        | NodeMessage::SetConditionalSource(..)
        | NodeMessage::SetConditionalOperator(..)
        | NodeMessage::SetConditionalRhsText(..)
        | NodeMessage::SetConditionalRhsBool(..) => update_condition(node, msg, ctx),
        NodeMessage::AddMatchArm
        | NodeMessage::RemoveMatchArm(..)
        | NodeMessage::SetMatchArm(..)
        | NodeMessage::SetMatchEnumType(..)
        | NodeMessage::ClearMatchEnumType
        | NodeMessage::SetMatchSubjectSource(..)
        | NodeMessage::SetMatchSubjectLiteral(..) => update_match_node(node, msg, ctx),
        NodeMessage::SetCallFlowTarget(..) => update_call_flow(node, msg, ctx),
    }
}

} // verus!

verus! {

/// A condition-row edit leaves at least one row, and moves an older single
/// condition into the rows (join-mode edits leave the rows as they were).
pub proof fn law_condition_rows_never_empty(n: NodeV, msg: NodeMessage, ctx: ContextV)
    requires
        is_condition_edit(msg),
        !(msg is SetConditionalJoinMode),
    ensures
        node_after(n, msg, ctx).conditions.len() >= 1,
        node_after(n, msg, ctx).legacy_condition is None,
        node_after(n, msg, ctx).kind == n.kind,
{
}

/// A navigate node keeps at least one target through every edit it
/// accepts, and stays a navigate node.
pub proof fn law_navigate_targets_never_empty(n: NodeV, msg: NodeMessage, ctx: ContextV)
    requires
        node_message_ok(n, msg),
        n.kind matches KindV::NavigateToView { targets } && targets.len() >= 1,
    ensures
        node_after(n, msg, ctx).kind matches KindV::NavigateToView { targets } && targets.len() >= 1,
{
}

/// A state-mutation node keeps at least one assignment through every edit,
/// and stays a state-mutation node.
pub proof fn law_assignments_never_empty(n: NodeV, msg: NodeMessage, ctx: ContextV)
    requires
        n.kind matches KindV::StateMutation { assignments } && assignments.len() >= 1,
    ensures
        node_after(n, msg, ctx).kind matches KindV::StateMutation { assignments } && assignments.len() >= 1,
{
}

/// Switching a navigate node's mode makes every target one of that mode or
/// the mode's default: targets already of the mode stay, the others become
/// the default.
pub proof fn law_mode_switch_retargets(n: NodeV, mode: NavigateModeOption, ctx: ContextV)
    requires
        n.kind is NavigateToView,
    ensures
        node_after(n, NodeMessage::NavigateModeSelected(mode), ctx).kind matches KindV::NavigateToView { targets }
            && targets.len() == n.kind->NavigateToView_targets.len()
            && forall|i: int| 0 <= i < targets.len() ==> #[trigger] targets[i] == (if target_in_mode(
                mode,
                n.kind->NavigateToView_targets[i],
            ) {
                n.kind->NavigateToView_targets[i]
            } else {
                default_target_spec(mode, ctx)
            }),
{
}

/// Adding a navigate target appends the default of the node's current mode.
pub proof fn law_add_target_uses_current_mode(n: NodeV, ctx: ContextV)
    requires
        n.kind is NavigateToView,
    ensures
        node_after(n, NodeMessage::AddNavigateTarget, ctx).kind matches KindV::NavigateToView { targets }
            && targets == n.kind->NavigateToView_targets.push(
                default_target_spec(navigate_mode_spec(n.kind->NavigateToView_targets), ctx),
            ),
{
}

} // verus!

verus! {

impl NavigateModeOption {
    /// How the mode picker shows the mode.
    pub fn label(&self) -> (s: &'static str)
        ensures
            s@ == (match *self {
                NavigateModeOption::AppView => "App View"@,
                NavigateModeOption::ViewReference => "View Reference"@,
            }),
    {
        match self {
            NavigateModeOption::AppView => "App View",
            NavigateModeOption::ViewReference => "View Reference",
        }
    }
}

} // verus!
