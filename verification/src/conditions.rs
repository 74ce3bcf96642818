//! Authored conditions: state-field references, value sources, comparison
//! operators, and the editor's rules for keeping a condition consistent with
//! the type of its left-hand side.

use vstd::prelude::*;
use crate::values::{
    ActionValue, ActionValueType, ValueTypeV, ValueV, strs_view, value_type_eq, rhs_matches_spec,
    default_action_value_spec, default_action_value_for_type, rhs_literal_matches_type_for_editor,
};

verus! {

/// Comparison operator of an authored condition.
#[derive(Debug, Clone, Copy, PartialEq, Eq, Structural)]
pub enum CompareOp {
    Eq,
    NotEq,
    Lt,
    Gt,
    LtEq,
    GtEq,
    Contains,
    StartsWith,
    EndsWith,
    IsEmpty,
    IsNotEmpty,
    IsValidEmail,
    IsTrue,
    IsFalse,
}

/// Whether an operator compares against a right-hand side: the tests of
/// emptiness, e-mail validity and truth take none.
pub open spec fn needs_rhs_spec(op: CompareOp) -> bool {
    !(op is IsEmpty || op is IsNotEmpty || op is IsValidEmail || op is IsTrue || op is IsFalse)
}

impl CompareOp {
    /// Whether the operator compares against a right-hand side.
    pub fn needs_rhs(&self) -> (r: bool)
        ensures
            r == needs_rhs_spec(*self),
    {
        match self {
            CompareOp::IsEmpty | CompareOp::IsNotEmpty | CompareOp::IsValidEmail
            | CompareOp::IsTrue | CompareOp::IsFalse => false,
            _ => true,
        }
    }
}

/// How several conditions of one node combine.
#[derive(Debug, Clone, Copy, PartialEq, Eq, Structural)]
pub enum ConditionJoinMode {
    All,
    Any,
}

/// Where a state field lives.
#[derive(Debug, PartialEq)]
pub enum StateRefSource {
    /// State a widget keeps, named by a suffix such as `_value` or `_open`.
    Widget { widget_id: u64, field_suffix: String },
    /// A custom state field of the view.
    Custom { field_id: u128, field_name: String },
    /// The selected target of a view reference.
    ViewSelection { widget_id: u64, field_name: String },
}

/// Mathematical form of a [`StateRefSource`].
pub enum SourceRefV {
    Widget { widget_id: u64, field_suffix: Seq<char> },
    Custom { field_id: u128, field_name: Seq<char> },
    ViewSelection { widget_id: u64, field_name: Seq<char> },
}

impl View for StateRefSource {
    type V = SourceRefV;

    open spec fn view(&self) -> SourceRefV {
        match self {
            StateRefSource::Widget { widget_id, field_suffix } => SourceRefV::Widget {
                widget_id: *widget_id,
                field_suffix: field_suffix@,
            },
            StateRefSource::Custom { field_id, field_name } => SourceRefV::Custom {
                field_id: *field_id,
                field_name: field_name@,
            },
            StateRefSource::ViewSelection { widget_id, field_name } => SourceRefV::ViewSelection {
                widget_id: *widget_id,
                field_name: field_name@,
            },
        }
    }
}

impl Clone for StateRefSource {
    fn clone(&self) -> (r: Self)
        ensures
            r@ == self@,
    {
        match self {
            StateRefSource::Widget { widget_id, field_suffix } => StateRefSource::Widget {
                widget_id: *widget_id,
                field_suffix: field_suffix.clone(),
            },
            StateRefSource::Custom { field_id, field_name } => StateRefSource::Custom {
                field_id: *field_id,
                field_name: field_name.clone(),
            },
            StateRefSource::ViewSelection { widget_id, field_name } => StateRefSource::ViewSelection {
                widget_id: *widget_id,
                field_name: field_name.clone(),
            },
        }
    }
}

/// Whether two state sources are the same.
pub fn source_ref_eq(a: &StateRefSource, b: &StateRefSource) -> (r: bool)
    ensures
        r == (a@ == b@),
{
    match (a, b) {
        (
            StateRefSource::Widget { widget_id: wa, field_suffix: sa },
            StateRefSource::Widget { widget_id: wb, field_suffix: sb },
        ) => *wa == *wb && *sa == *sb,
        (
            StateRefSource::Custom { field_id: fa, field_name: na },
            StateRefSource::Custom { field_id: fb, field_name: nb },
        ) => *fa == *fb && *na == *nb,
        (
            StateRefSource::ViewSelection { widget_id: wa, field_name: na },
            StateRefSource::ViewSelection { widget_id: wb, field_name: nb },
        ) => *wa == *wb && *na == *nb,
        _ => false,
    }
}

/// A reference to one piece of view state, with its type and the label the
/// pickers show.
#[derive(Debug, PartialEq)]
pub struct StateFieldRef {
    pub view_id: u128,
    pub source: StateRefSource,
    pub field_type: ActionValueType,
    pub display_name: String,
}

/// Mathematical form of a [`StateFieldRef`].
pub struct StateFieldV {
    pub view_id: u128,
    pub source: SourceRefV,
    pub field_type: ValueTypeV,
    pub display_name: Seq<char>,
}

impl View for StateFieldRef {
    type V = StateFieldV;

    open spec fn view(&self) -> StateFieldV {
        StateFieldV {
            view_id: self.view_id,
            source: self.source@,
            field_type: self.field_type@,
            display_name: self.display_name@,
        }
    }
}

impl Clone for StateFieldRef {
    fn clone(&self) -> (r: Self)
        ensures
            r@ == self@,
    {
        StateFieldRef {
            view_id: self.view_id,
            source: self.source.clone(),
            field_type: self.field_type.clone(),
            display_name: self.display_name.clone(),
        }
    }
}

/// Whether two state-field references are the same.
pub fn state_field_eq(a: &StateFieldRef, b: &StateFieldRef) -> (r: bool)
    ensures
        r == (a@ == b@),
{
    a.view_id == b.view_id && source_ref_eq(&a.source, &b.source) && value_type_eq(
        &a.field_type,
        &b.field_type,
    ) && a.display_name == b.display_name
}

/// Where the left-hand side (or a match subject) takes its value from.
#[derive(Debug, PartialEq)]
pub enum AuthoredValueSource {
    /// A value the flow's trigger hands in.
    TriggerInput { name: String, value_type: ActionValueType },
    /// A state field.
    StateField(StateFieldRef),
    /// A literal.
    Literal(ActionValue),
}

/// Mathematical form of an [`AuthoredValueSource`].
pub enum ValueSourceV {
    TriggerInput { name: Seq<char>, value_type: ValueTypeV },
    StateField(StateFieldV),
    Literal(ValueV),
}

impl View for AuthoredValueSource {
    type V = ValueSourceV;

    open spec fn view(&self) -> ValueSourceV {
        match self {
            AuthoredValueSource::TriggerInput { name, value_type } => ValueSourceV::TriggerInput {
                name: name@,
                value_type: value_type@,
            },
            AuthoredValueSource::StateField(f) => ValueSourceV::StateField(f@),
            AuthoredValueSource::Literal(v) => ValueSourceV::Literal(v@),
        }
    }
}

impl Clone for AuthoredValueSource {
    fn clone(&self) -> (r: Self)
        ensures
            r@ == self@,
    {
        match self {
            AuthoredValueSource::TriggerInput { name, value_type } => AuthoredValueSource::TriggerInput {
                name: name.clone(),
                value_type: value_type.clone(),
            },
            AuthoredValueSource::StateField(f) => AuthoredValueSource::StateField(f.clone()),
            AuthoredValueSource::Literal(v) => AuthoredValueSource::Literal(v.clone()),
        }
    }
}

/// The type of the values a source yields. A literal's type is read off the
/// literal: a number is an `f64`, and an enum variant's type lists no
/// variants.
pub open spec fn source_type_spec(s: ValueSourceV) -> ValueTypeV {
    match s {
        ValueSourceV::TriggerInput { value_type, .. } => value_type,
        ValueSourceV::StateField(f) => f.field_type,
        ValueSourceV::Literal(v) => match v {
            ValueV::String(_) => ValueTypeV::String,
            ValueV::Number(_) => ValueTypeV::F64,
            ValueV::Bool(_) => ValueTypeV::Bool,
            ValueV::EnumVariant { enum_name, .. } => ValueTypeV::Enum {
                enum_name,
                variants: Seq::<Seq<char>>::empty(),
            },
        },
    }
}

impl AuthoredValueSource {
    /// The type of the values this source yields.
    pub fn value_type(&self) -> (t: ActionValueType)
        ensures
            t@ == source_type_spec(self@),
    {
        match self {
            AuthoredValueSource::TriggerInput { value_type, .. } => value_type.clone(),
            AuthoredValueSource::StateField(f) => f.field_type.clone(),
            AuthoredValueSource::Literal(v) => match v {
                ActionValue::String(_) => ActionValueType::String,
                ActionValue::Number(_) => ActionValueType::F64,
                ActionValue::Bool(_) => ActionValueType::Bool,
                ActionValue::EnumVariant { enum_name, .. } => {
                    let r = ActionValueType::Enum { enum_name: enum_name.clone(), variants: Vec::new() };
                    proof {
                        assert(strs_view(Seq::<String>::empty()) =~= Seq::<Seq<char>>::empty());
                    }
                    r
                },
            },
        }
    }
}

/// One authored comparison: `lhs operator rhs_literal`.
#[derive(Debug, PartialEq)]
pub struct AuthoredCondition {
    pub lhs: AuthoredValueSource,
    pub operator: CompareOp,
    pub rhs_literal: ActionValue,
}

/// Mathematical form of an [`AuthoredCondition`].
pub struct ConditionV {
    pub lhs: ValueSourceV,
    pub operator: CompareOp,
    pub rhs_literal: ValueV,
}

impl View for AuthoredCondition {
    type V = ConditionV;

    open spec fn view(&self) -> ConditionV {
        ConditionV { lhs: self.lhs@, operator: self.operator, rhs_literal: self.rhs_literal@ }
    }
}

impl Clone for AuthoredCondition {
    fn clone(&self) -> (r: Self)
        ensures
            r@ == self@,
    {
        AuthoredCondition {
            lhs: self.lhs.clone(),
            operator: self.operator,
            rhs_literal: self.rhs_literal.clone(),
        }
    }
}

/// The condition a new row starts with: the empty string literal compared
/// for equality with the empty string.
pub open spec fn default_condition_spec() -> ConditionV {
    ConditionV {
        lhs: ValueSourceV::Literal(ValueV::String(Seq::<char>::empty())),
        operator: CompareOp::Eq,
        rhs_literal: ValueV::String(Seq::<char>::empty()),
    }
}

/// The condition a new row starts with.
pub fn default_authored_condition() -> (c: AuthoredCondition)
    ensures
        c@ == default_condition_spec(),
{
    AuthoredCondition {
        lhs: AuthoredValueSource::Literal(ActionValue::String(String::new())),
        operator: CompareOp::Eq,
        rhs_literal: ActionValue::String(String::new()),
    }
}

/// The operators offered for a left-hand side of type `t`, in menu order.
pub open spec fn operator_options_spec(t: ValueTypeV) -> Seq<CompareOp> {
    match t {
        ValueTypeV::String => seq![
            CompareOp::Eq, CompareOp::NotEq, CompareOp::Contains, CompareOp::StartsWith,
            CompareOp::EndsWith, CompareOp::IsEmpty, CompareOp::IsNotEmpty, CompareOp::IsValidEmail,
        ],
        ValueTypeV::Bool => seq![CompareOp::IsTrue, CompareOp::IsFalse, CompareOp::Eq, CompareOp::NotEq],
        ValueTypeV::F32 | ValueTypeV::F64 | ValueTypeV::Usize => seq![
            CompareOp::Eq, CompareOp::NotEq, CompareOp::Lt, CompareOp::Gt, CompareOp::LtEq,
            CompareOp::GtEq,
        ],
        ValueTypeV::Enum { .. } => seq![CompareOp::Eq, CompareOp::NotEq],
    }
}

/// The operators offered for a left-hand side of type `lhs_type`.
pub fn condition_operator_options(lhs_type: &ActionValueType) -> (v: Vec<CompareOp>)
    ensures
        v@ == operator_options_spec(lhs_type@),
{
    match lhs_type {
        ActionValueType::String => vec![
            CompareOp::Eq, CompareOp::NotEq, CompareOp::Contains, CompareOp::StartsWith,
            CompareOp::EndsWith, CompareOp::IsEmpty, CompareOp::IsNotEmpty, CompareOp::IsValidEmail,
        ],
        ActionValueType::Bool => vec![CompareOp::IsTrue, CompareOp::IsFalse, CompareOp::Eq, CompareOp::NotEq],
        ActionValueType::F32 | ActionValueType::F64 | ActionValueType::Usize => vec![
            CompareOp::Eq, CompareOp::NotEq, CompareOp::Lt, CompareOp::Gt, CompareOp::LtEq,
            CompareOp::GtEq,
        ],
        ActionValueType::Enum { .. } => vec![CompareOp::Eq, CompareOp::NotEq],
    }
}

/// A condition brought in line with its left-hand side: an operator not
/// offered for the lhs type is replaced by the first offered one; then, if
/// the operator takes a right-hand side and the literal does not fit the
/// lhs type, the literal is replaced by the type's default.
pub open spec fn normalized_spec(c: ConditionV) -> ConditionV {
    let t = source_type_spec(c.lhs);
    let ops = operator_options_spec(t);
    let op = if ops.contains(c.operator) { c.operator } else { ops[0] };
    let rhs = if needs_rhs_spec(op) && !rhs_matches_spec(c.rhs_literal, t) {
        default_action_value_spec(t)
    } else {
        c.rhs_literal
    };
    ConditionV { lhs: c.lhs, operator: op, rhs_literal: rhs }
}

fn ops_contain(ops: &Vec<CompareOp>, op: CompareOp) -> (r: bool)
    ensures
        r == ops@.contains(op),
{
    let mut i: usize = 0;
    while i < ops.len()
        invariant
            i <= ops@.len(),
            forall|j: int| 0 <= j < i ==> ops@[j] != op,
        decreases ops@.len() - i,
    {
        if ops[i] == op {
            proof {
                assert(ops@[i as int] == op);
            }
            return true;
        }
        i = i + 1;
    }
    false
}

/// Brings `condition` in line with the type of its left-hand side (see
/// [`normalized_spec`]).
pub fn normalize_authored_condition_rhs(condition: &mut AuthoredCondition)
    ensures
        final(condition)@ == normalized_spec(old(condition)@),
{
    let lhs_type = condition.lhs.value_type();
    let valid_ops = condition_operator_options(&lhs_type);
    if !ops_contain(&valid_ops, condition.operator) {
        condition.operator = valid_ops[0];
    }
    if !condition.operator.needs_rhs() {
        return;
    }
    if !rhs_literal_matches_type_for_editor(&condition.rhs_literal, &lhs_type) {
        condition.rhs_literal = default_action_value_for_type(&lhs_type);
    }
}

/// A value a flow's trigger exposes to the nodes of the flow.
#[derive(Debug, PartialEq)]
pub struct TriggerPort {
    pub name: String,
    pub value_type: ActionValueType,
}

/// An entry of the value-source picker.
#[derive(Debug, PartialEq)]
pub enum ExpressionSourceOption {
    TriggerInput { name: String, value_type: ActionValueType },
    StateField(StateFieldRef),
    LiteralValue,
}

/// Mathematical form of an [`ExpressionSourceOption`].
pub enum SourceOptionV {
    TriggerInput { name: Seq<char>, value_type: ValueTypeV },
    StateField(StateFieldV),
    LiteralValue,
}

impl View for ExpressionSourceOption {
    type V = SourceOptionV;

    open spec fn view(&self) -> SourceOptionV {
        match self {
            ExpressionSourceOption::TriggerInput { name, value_type } => SourceOptionV::TriggerInput {
                name: name@,
                value_type: value_type@,
            },
            ExpressionSourceOption::StateField(f) => SourceOptionV::StateField(f@),
            ExpressionSourceOption::LiteralValue => SourceOptionV::LiteralValue,
        }
    }
}

impl Clone for ExpressionSourceOption {
    fn clone(&self) -> (r: Self)
        ensures
            r@ == self@,
    {
        match self {
            ExpressionSourceOption::TriggerInput { name, value_type } => ExpressionSourceOption::TriggerInput {
                name: name.clone(),
                value_type: value_type.clone(),
            },
            ExpressionSourceOption::StateField(f) => ExpressionSourceOption::StateField(f.clone()),
            ExpressionSourceOption::LiteralValue => ExpressionSourceOption::LiteralValue,
        }
    }
}

/// The source an option stands for; a literal keeps `existing` when given,
/// else starts as the empty string.
pub open spec fn option_to_source_spec(o: SourceOptionV, existing: Option<ValueV>) -> ValueSourceV {
    match o {
        SourceOptionV::TriggerInput { name, value_type } => ValueSourceV::TriggerInput { name, value_type },
        SourceOptionV::StateField(f) => ValueSourceV::StateField(f),
        SourceOptionV::LiteralValue => ValueSourceV::Literal(
            match existing {
                Some(v) => v,
                None => ValueV::String(Seq::<char>::empty()),
            },
        ),
    }
}

/// Whether an option stands for a source: the same trigger input (name and
/// type), the same state field, or any literal.
pub open spec fn option_matches_spec(o: SourceOptionV, s: ValueSourceV) -> bool {
    match (o, s) {
        (SourceOptionV::TriggerInput { name: an, value_type: at }, ValueSourceV::TriggerInput { name: bn, value_type: bt }) =>
            an == bn && at == bt,
        (SourceOptionV::StateField(a), ValueSourceV::StateField(b)) => a == b,
        (SourceOptionV::LiteralValue, ValueSourceV::Literal(_)) => true,
        _ => false,
    }
}

impl ExpressionSourceOption {
    /// The source this option stands for.
    pub fn to_source(&self, existing_literal: Option<ActionValue>) -> (s: AuthoredValueSource)
        ensures
            s@ == option_to_source_spec(
                self@,
                match existing_literal {
                    Some(v) => Some(v@),
                    None => None,
                },
            ),
    {
        match self {
            ExpressionSourceOption::TriggerInput { name, value_type } => AuthoredValueSource::TriggerInput {
                name: name.clone(),
                value_type: value_type.clone(),
            },
            ExpressionSourceOption::StateField(field) => AuthoredValueSource::StateField(field.clone()),
            ExpressionSourceOption::LiteralValue => AuthoredValueSource::Literal(
                match existing_literal {
                    Some(v) => v,
                    None => ActionValue::String(String::new()),
                },
            ),
        }
    }

    /// Whether this option stands for `source`.
    pub fn matches_source(&self, source: &AuthoredValueSource) -> (r: bool)
        ensures
            r == option_matches_spec(self@, source@),
    {
        match (self, source) {
            (
                ExpressionSourceOption::TriggerInput { name: a_name, value_type: a_type },
                AuthoredValueSource::TriggerInput { name: b_name, value_type: b_type },
            ) => *a_name == *b_name && value_type_eq(a_type, b_type),
            (ExpressionSourceOption::StateField(a), AuthoredValueSource::StateField(b)) => state_field_eq(a, b),
            (ExpressionSourceOption::LiteralValue, AuthoredValueSource::Literal(_)) => true,
            _ => false,
        }
    }
}

/// The picker entries: the literal first, then every state field, then every
/// trigger input, each list in its own order.
pub open spec fn source_options_spec(fields: Seq<StateFieldV>, ports: Seq<(Seq<char>, ValueTypeV)>) -> Seq<SourceOptionV> {
    seq![SourceOptionV::LiteralValue]
        + fields.map_values(|f: StateFieldV| SourceOptionV::StateField(f))
        + ports.map_values(|p: (Seq<char>, ValueTypeV)| SourceOptionV::TriggerInput { name: p.0, value_type: p.1 })
}

/// The views of a list of state-field references.
pub open spec fn fields_view(v: Seq<StateFieldRef>) -> Seq<StateFieldV> {
    v.map_values(|f: StateFieldRef| f@)
}

/// The views of a list of trigger ports.
pub open spec fn ports_view(v: Seq<TriggerPort>) -> Seq<(Seq<char>, ValueTypeV)> {
    v.map_values(|p: TriggerPort| (p.name@, p.value_type@))
}

/// The views of a list of picker entries.
pub open spec fn options_view(v: Seq<ExpressionSourceOption>) -> Seq<SourceOptionV> {
    v.map_values(|o: ExpressionSourceOption| o@)
}

/// The entries of the value-source picker.
pub fn expression_source_options(state_fields: &Vec<StateFieldRef>, trigger_output_ports: &Vec<TriggerPort>) -> (v: Vec<ExpressionSourceOption>)
    ensures
        options_view(v@) == source_options_spec(fields_view(state_fields@), ports_view(trigger_output_ports@)),
{
    let ghost target = source_options_spec(fields_view(state_fields@), ports_view(trigger_output_ports@));
    let mut options: Vec<ExpressionSourceOption> = Vec::new();
    options.push(ExpressionSourceOption::LiteralValue);
    let mut i: usize = 0;
    while i < state_fields.len()
        invariant
            i <= state_fields@.len(),
            options@.len() == 1 + i,
            forall|j: int| 0 <= j < 1 + i ==> #[trigger] options@[j]@ == target[j],
            target == source_options_spec(fields_view(state_fields@), ports_view(trigger_output_ports@)),
        decreases state_fields@.len() - i,
    {
        let o = ExpressionSourceOption::StateField(state_fields[i].clone());
        options.push(o);
        i = i + 1;
    }
    let mut k: usize = 0;
    while k < trigger_output_ports.len()
        invariant
            k <= trigger_output_ports@.len(),
            options@.len() == 1 + state_fields@.len() + k,
            forall|j: int| 0 <= j < 1 + state_fields@.len() + k ==> #[trigger] options@[j]@ == target[j],
            target == source_options_spec(fields_view(state_fields@), ports_view(trigger_output_ports@)),
        decreases trigger_output_ports@.len() - k,
    {
        let p = &trigger_output_ports[k];
        let o = ExpressionSourceOption::TriggerInput { name: p.name.clone(), value_type: p.value_type.clone() };
        options.push(o);
        k = k + 1;
    }
    proof {
        assert(options_view(options@) =~= target);
    }
    options
}

/// The picker entry that stands for `source`: the first entry that matches
/// it, if any.
pub fn selected_expression_source_option(options: &Vec<ExpressionSourceOption>, source: &AuthoredValueSource) -> (r: Option<ExpressionSourceOption>)
    ensures
        r is None <==> forall|j: int| 0 <= j < options@.len() ==> !option_matches_spec(#[trigger] options@[j]@, source@),
        r matches Some(o) ==> exists|i: int|
            0 <= i < options@.len() && option_matches_spec(options@[i]@, source@) && o@ == options@[i]@
                && forall|j: int| 0 <= j < i ==> !option_matches_spec(#[trigger] options@[j]@, source@),
{
    let mut i: usize = 0;
    while i < options.len()
        invariant
            i <= options@.len(),
            forall|j: int| 0 <= j < i ==> !option_matches_spec(#[trigger] options@[j]@, source@),
        decreases options@.len() - i,
    {
        if options[i].matches_source(source) {
            return Some(options[i].clone());
        }
        i = i + 1;
    }
    None
}

} // verus!

verus! {

/// After normalization a condition's operator is one offered for its
/// left-hand side's type, and when the operator compares against a
/// right-hand side, that literal fits the type; normalizing again changes
/// nothing.
pub proof fn law_normalized_condition_is_consistent(c: ConditionV)
    ensures
        operator_options_spec(source_type_spec(normalized_spec(c).lhs)).contains(normalized_spec(c).operator),
        needs_rhs_spec(normalized_spec(c).operator) ==> rhs_matches_spec(
            normalized_spec(c).rhs_literal,
            source_type_spec(normalized_spec(c).lhs),
        ),
        normalized_spec(normalized_spec(c)) == normalized_spec(c),
{
    let t = source_type_spec(c.lhs);
    let ops = operator_options_spec(t);
    assert(ops.len() > 0);
    assert(ops.contains(ops[0]));
}

} // verus!

verus! {

/// How the value-source picker shows an entry: "Trigger: " and the input's
/// name, "State: " and the field's label, or "Literal value".
pub open spec fn option_label_spec(o: SourceOptionV) -> Seq<char> {
    match o {
        SourceOptionV::TriggerInput { name, .. } => "Trigger: "@ + name,
        SourceOptionV::StateField(f) => "State: "@ + f.display_name,
        SourceOptionV::LiteralValue => "Literal value"@,
    }
}

impl ExpressionSourceOption {
    /// How the picker shows this entry (see [`option_label_spec`]).
    pub fn label(&self) -> (s: String)
        ensures
            s@ == option_label_spec(self@),
    {
        match self {
            ExpressionSourceOption::TriggerInput { name, .. } => {
                let mut cs = crate::naming::chars_of("Trigger: ");
                crate::state_fields::append_str(&mut cs, name.as_str());
                crate::naming::string_from_chars(&cs)
            },
            ExpressionSourceOption::StateField(f) => {
                let mut cs = crate::naming::chars_of("State: ");
                crate::state_fields::append_str(&mut cs, f.display_name.as_str());
                crate::naming::string_from_chars(&cs)
            },
            ExpressionSourceOption::LiteralValue => "Literal value".to_string(),
        }
    }
}

} // verus!
