//! What the enum and struct panels do with the user's edits and with the
//! outcome of the changes they ask of the type system.
//!
//! The type system performs (or refuses, with a message) each change; the
//! panel then updates its editor states from that outcome and from the
//! type system as it now stands.

use vstd::prelude::*;
use crate::action_editor::{first_index_of, lemma_first_index_at, lemma_first_index_none, lemma_first_index_some};
use crate::type_editors::{
    EnumEditorState, EnumEditorView, EnumStateV, StructEditorState, StructEditorView, StructStateV,
    enum_states_view, enum_sync_spec, law_enum_sync_matches_enums, law_struct_sync_matches_structs,
    struct_states_view, struct_sync_spec, texts_view,
};
use crate::naming::{decimal_spec, numbered};
use crate::type_system::{FieldType, TypeSystem};

verus! {

/// The position of the first enum state of the enum `id`.
pub open spec fn enum_state_pos(states: Seq<EnumStateV>, id: u128) -> Option<int> {
    first_index_of(states.map_values(|s: EnumStateV| s.enum_id), id)
}

/// The states after changing the first state of the enum `id` by `f`
/// (unchanged when there is none).
pub open spec fn edit_enum_state(
    states: Seq<EnumStateV>,
    id: u128,
    f: spec_fn(EnumStateV) -> EnumStateV,
) -> Seq<EnumStateV> {
    match enum_state_pos(states, id) {
        Some(i) => states.update(i, f(states[i])),
        None => states,
    }
}

/// An event of the enum panel: an edit of its own fields, or the outcome
/// of a change it asked of the type system.
#[derive(Debug)]
pub enum EnumPanelEvent {
    ToggleExpanded(u128),
    NameInputChanged(u128, String),
    NewVariantInputChanged(u128, String),
    /// The payload field name typed for a variant (enum id, variant id).
    FieldNameInputChanged(u128, u128, String),
    /// The payload field type picked for a variant (enum id, variant id).
    FieldTypeChanged(u128, u128, FieldType),
    /// A new enum was asked for: its id, or why it was refused.
    Created(Result<u128, String>),
    Deleted(u128, Result<(), String>),
    /// A rename, or a save of the name field.
    Renamed(u128, Result<(), String>),
    VariantAdded(u128, Result<(), String>),
    VariantRemoved(u128, Result<(), String>),
    /// A variant renamed, or a payload field removed, renamed or retyped.
    Edited(u128, Result<(), String>),
    /// A payload field added to a variant (enum id, variant id).
    VariantFieldAdded(u128, u128, Result<(), String>),
    /// An undo or redo.
    HistoryChanged,
}

/// The state with the message shown as its validation error.
pub open spec fn with_enum_error(s: EnumStateV, e: Seq<char>) -> EnumStateV {
    EnumStateV { validation_error: Some(e), ..s }
}

/// The enum panel's states after an event, `ts` being the type system after
/// the change: edits of a state's fields clear its error; a created enum
/// shows expanded after a sync; a deletion, an added or removed variant and
/// an undo or redo resync the panel (an added variant also clears the
/// variant field first); a rename collapses the state; an added payload
/// field resets the variant's pending field; a refused change shows its
/// message on the enum's state.
pub open spec fn enum_panel_spec(states: Seq<EnumStateV>, ev: EnumPanelEvent, ts: TypeSystem) -> Seq<EnumStateV> {
    match ev {
        EnumPanelEvent::ToggleExpanded(id) => edit_enum_state(states, id,
            |s: EnumStateV| EnumStateV { is_expanded: !s.is_expanded, validation_error: None, ..s }),
        EnumPanelEvent::NameInputChanged(id, v) => edit_enum_state(states, id,
            |s: EnumStateV| EnumStateV { name_input: v@, validation_error: None, ..s }),
        EnumPanelEvent::NewVariantInputChanged(id, v) => edit_enum_state(states, id,
            |s: EnumStateV| EnumStateV { new_variant_input: v@, validation_error: None, ..s }),
        EnumPanelEvent::FieldNameInputChanged(id, vid, v) => edit_enum_state(states, id,
            |s: EnumStateV| EnumStateV {
                new_variant_field_names: s.new_variant_field_names.insert(vid, v@),
                validation_error: None,
                ..s
            }),
        EnumPanelEvent::FieldTypeChanged(id, vid, t) => edit_enum_state(states, id,
            |s: EnumStateV| EnumStateV {
                new_variant_field_types: s.new_variant_field_types.insert(vid, t),
                validation_error: None,
                ..s
            }),
        EnumPanelEvent::Created(Ok(id)) => edit_enum_state(enum_sync_spec(states, ts), id,
            |s: EnumStateV| EnumStateV { is_expanded: true, ..s }),
        EnumPanelEvent::Created(Err(_)) => states,
        EnumPanelEvent::Deleted(_, Ok(_)) => enum_sync_spec(states, ts),
        EnumPanelEvent::Renamed(id, Ok(_)) => edit_enum_state(states, id,
            |s: EnumStateV| EnumStateV { validation_error: None, is_expanded: false, ..s }),
        EnumPanelEvent::VariantAdded(id, Ok(_)) => enum_sync_spec(edit_enum_state(states, id,
            |s: EnumStateV| EnumStateV { new_variant_input: Seq::empty(), validation_error: None, ..s }), ts),
        EnumPanelEvent::VariantRemoved(_, Ok(_)) => enum_sync_spec(states, ts),
        EnumPanelEvent::Edited(id, Ok(_)) => edit_enum_state(states, id,
            |s: EnumStateV| EnumStateV { validation_error: None, ..s }),
        EnumPanelEvent::VariantFieldAdded(id, vid, Ok(_)) => edit_enum_state(states, id,
            |s: EnumStateV| EnumStateV {
                validation_error: None,
                new_variant_field_names: s.new_variant_field_names.insert(vid, Seq::empty()),
                new_variant_field_types: s.new_variant_field_types.insert(vid, FieldType::String),
                ..s
            }),
        EnumPanelEvent::Deleted(id, Err(e)) => edit_enum_state(states, id, |s: EnumStateV| with_enum_error(s, e@)),
        EnumPanelEvent::Renamed(id, Err(e)) => edit_enum_state(states, id, |s: EnumStateV| with_enum_error(s, e@)),
        EnumPanelEvent::VariantAdded(id, Err(e)) => edit_enum_state(states, id, |s: EnumStateV| with_enum_error(s, e@)),
        EnumPanelEvent::VariantRemoved(id, Err(e)) => edit_enum_state(states, id, |s: EnumStateV| with_enum_error(s, e@)),
        EnumPanelEvent::Edited(id, Err(e)) => edit_enum_state(states, id, |s: EnumStateV| with_enum_error(s, e@)),
        EnumPanelEvent::VariantFieldAdded(id, _, Err(e)) => edit_enum_state(states, id,
            |s: EnumStateV| with_enum_error(s, e@)),
        EnumPanelEvent::HistoryChanged => enum_sync_spec(states, ts),
    }
}

fn find_enum_state(states: &Vec<EnumEditorState>, id: u128) -> (r: Option<usize>)
    ensures
        match r {
            Some(i) => enum_state_pos(enum_states_view(states@), id) == Some(i as int),
            None => enum_state_pos(enum_states_view(states@), id) is None,
        },
{
    let ghost ids = enum_states_view(states@).map_values(|s: EnumStateV| s.enum_id);
    let mut i: usize = 0;
    while i < states.len()
        invariant
            i <= states@.len(),
            ids == enum_states_view(states@).map_values(|s: EnumStateV| s.enum_id),
            forall|j: int| 0 <= j < i ==> ids[j] != id,
        decreases states@.len() - i,
    {
        proof {
            assert(ids[i as int] == states@[i as int].enum_id);
        }
        if states[i].enum_id == id {
            proof {
                lemma_first_index_at(ids, id, i as int);
            }
            return Some(i);
        }
        i = i + 1;
    }
    proof {
        lemma_first_index_none(ids, id);
    }
    None
}

/// Changes of one enum state.
enum EnumChange {
    Toggle,
    Name(String),
    VariantInput(String),
    FieldName(u128, String),
    FieldType(u128, FieldType),
    Expand,
    Error(String),
    ClearError,
    Collapse,
    VariantAdded,
    FieldAdded(u128),
}

spec fn enum_change_spec(c: EnumChange) -> spec_fn(EnumStateV) -> EnumStateV {
    match c {
        EnumChange::Toggle => |s: EnumStateV| EnumStateV { is_expanded: !s.is_expanded, validation_error: None, ..s },
        EnumChange::Name(v) => |s: EnumStateV| EnumStateV { name_input: v@, validation_error: None, ..s },
        EnumChange::VariantInput(v) => |s: EnumStateV| EnumStateV {
            new_variant_input: v@,
            validation_error: None,
            ..s
        },
        EnumChange::FieldName(vid, v) => |s: EnumStateV| EnumStateV {
            new_variant_field_names: s.new_variant_field_names.insert(vid, v@),
            validation_error: None,
            ..s
        },
        EnumChange::FieldType(vid, t) => |s: EnumStateV| EnumStateV {
            new_variant_field_types: s.new_variant_field_types.insert(vid, t),
            validation_error: None,
            ..s
        },
        EnumChange::Expand => |s: EnumStateV| EnumStateV { is_expanded: true, ..s },
        EnumChange::Error(e) => |s: EnumStateV| with_enum_error(s, e@),
        EnumChange::ClearError => |s: EnumStateV| EnumStateV { validation_error: None, ..s },
        EnumChange::Collapse => |s: EnumStateV| EnumStateV { validation_error: None, is_expanded: false, ..s },
        EnumChange::VariantAdded => |s: EnumStateV| EnumStateV {
            new_variant_input: Seq::empty(),
            validation_error: None,
            ..s
        },
        EnumChange::FieldAdded(vid) => |s: EnumStateV| EnumStateV {
            validation_error: None,
            new_variant_field_names: s.new_variant_field_names.insert(vid, Seq::empty()),
            new_variant_field_types: s.new_variant_field_types.insert(vid, FieldType::String),
            ..s
        },
    }
}

fn change_enum_state(st: &mut EnumEditorState, c: EnumChange)
    ensures
        final(st)@ == (enum_change_spec(c))(old(st)@),
{
    broadcast use vstd::std_specs::hash::group_hash_axioms;
    let ghost c0 = c;
    let ghost s0 = st@;
    match c {
        EnumChange::Toggle => {
            st.is_expanded = !st.is_expanded;
            st.validation_error = None;
        },
        EnumChange::Name(v) => {
            st.name_input = v;
            st.validation_error = None;
        },
        EnumChange::VariantInput(v) => {
            st.new_variant_input = v;
            st.validation_error = None;
        },
        EnumChange::FieldName(vid, v) => {
            let ghost m0 = st.new_variant_field_names@;
            let ghost vv = v@;
            st.new_variant_field_names.insert(vid, v);
            st.validation_error = None;
            proof {
                assert(texts_view(st.new_variant_field_names@) =~= texts_view(m0).insert(vid, vv));
            }
        },
        EnumChange::FieldType(vid, t) => {
            st.new_variant_field_types.insert(vid, t);
            st.validation_error = None;
        },
        EnumChange::Expand => {
            st.is_expanded = true;
        },
        EnumChange::Error(e) => {
            st.validation_error = Some(e);
        },
        EnumChange::ClearError => {
            st.validation_error = None;
        },
        EnumChange::Collapse => {
            st.validation_error = None;
            st.is_expanded = false;
        },
        EnumChange::VariantAdded => {
            st.new_variant_input = String::new();
            st.validation_error = None;
        },
        EnumChange::FieldAdded(vid) => {
            let ghost m0 = st.new_variant_field_names@;
            st.validation_error = None;
            st.new_variant_field_names.insert(vid, String::new());
            st.new_variant_field_types.insert(vid, FieldType::String);
            proof {
                assert(texts_view(st.new_variant_field_names@) =~= texts_view(m0).insert(vid, Seq::empty()));
            }
        },
    }
    proof {
        assert(st@ =~~= (enum_change_spec(c0))(s0));
    }
}

fn change_first_enum_state(states: &mut Vec<EnumEditorState>, id: u128, c: EnumChange)
    ensures
        enum_states_view(final(states)@) == edit_enum_state(enum_states_view(old(states)@), id, enum_change_spec(c)),
{
    let ghost c0 = c;
    if let Some(i) = find_enum_state(states, id) {
        let ghost before = enum_states_view(states@);
        proof {
            lemma_first_index_some(before.map_values(|s: EnumStateV| s.enum_id), id);
        }
        let mut st = states.remove(i);
        proof {
            assert(st@ == before[i as int]);
        }
        change_enum_state(&mut st, c);
        let ghost sv = st@;
        states.insert(i, st);
        proof {
            assert(enum_states_view(states@) =~= before.update(i as int, sv));
        }
    }
}

impl EnumEditorView {
    /// Handles an event of the enum panel, `type_system` being the type
    /// system after the change the event reports (see [`enum_panel_spec`]).
    pub fn update(&mut self, event: EnumPanelEvent, type_system: &TypeSystem)
        ensures
            enum_states_view(final(self).editor_states@) == enum_panel_spec(
                enum_states_view(old(self).editor_states@),
                event,
                *type_system,
            ),
    {
        match event {
            EnumPanelEvent::ToggleExpanded(id) => change_first_enum_state(&mut self.editor_states, id, EnumChange::Toggle),
            EnumPanelEvent::NameInputChanged(id, v) => change_first_enum_state(&mut self.editor_states, id, EnumChange::Name(v)),
            EnumPanelEvent::NewVariantInputChanged(id, v) => change_first_enum_state(
                &mut self.editor_states, id, EnumChange::VariantInput(v)),
            EnumPanelEvent::FieldNameInputChanged(id, vid, v) => change_first_enum_state(
                &mut self.editor_states, id, EnumChange::FieldName(vid, v)),
            EnumPanelEvent::FieldTypeChanged(id, vid, t) => change_first_enum_state(
                &mut self.editor_states, id, EnumChange::FieldType(vid, t)),
            EnumPanelEvent::Created(Ok(id)) => {
                self.sync_with_type_system(type_system);
                change_first_enum_state(&mut self.editor_states, id, EnumChange::Expand);
            },
            EnumPanelEvent::Created(Err(_)) => {},
            EnumPanelEvent::Deleted(_, Ok(_)) => self.sync_with_type_system(type_system),
            EnumPanelEvent::Renamed(id, Ok(_)) => change_first_enum_state(&mut self.editor_states, id, EnumChange::Collapse),
            EnumPanelEvent::VariantAdded(id, Ok(_)) => {
                change_first_enum_state(&mut self.editor_states, id, EnumChange::VariantAdded);
                self.sync_with_type_system(type_system);
            },
            EnumPanelEvent::VariantRemoved(_, Ok(_)) => self.sync_with_type_system(type_system),
            EnumPanelEvent::Edited(id, Ok(_)) => change_first_enum_state(&mut self.editor_states, id, EnumChange::ClearError),
            EnumPanelEvent::VariantFieldAdded(id, vid, Ok(_)) => change_first_enum_state(
                &mut self.editor_states, id, EnumChange::FieldAdded(vid)),
            EnumPanelEvent::Deleted(id, Err(e)) => change_first_enum_state(&mut self.editor_states, id, EnumChange::Error(e)),
            EnumPanelEvent::Renamed(id, Err(e)) => change_first_enum_state(&mut self.editor_states, id, EnumChange::Error(e)),
            EnumPanelEvent::VariantAdded(id, Err(e)) => change_first_enum_state(
                &mut self.editor_states, id, EnumChange::Error(e)),
            EnumPanelEvent::VariantRemoved(id, Err(e)) => change_first_enum_state(
                &mut self.editor_states, id, EnumChange::Error(e)),
            EnumPanelEvent::Edited(id, Err(e)) => change_first_enum_state(&mut self.editor_states, id, EnumChange::Error(e)),
            EnumPanelEvent::VariantFieldAdded(id, _, Err(e)) => change_first_enum_state(
                &mut self.editor_states, id, EnumChange::Error(e)),
            EnumPanelEvent::HistoryChanged => self.sync_with_type_system(type_system),
        }
    }
}

/// The position of the first struct state of the struct `id`.
pub open spec fn struct_state_pos(states: Seq<StructStateV>, id: u128) -> Option<int> {
    first_index_of(states.map_values(|s: StructStateV| s.struct_id), id)
}

/// The states after changing the first state of the struct `id` by `f`
/// (unchanged when there is none).
pub open spec fn edit_struct_state(
    states: Seq<StructStateV>,
    id: u128,
    f: spec_fn(StructStateV) -> StructStateV,
) -> Seq<StructStateV> {
    match struct_state_pos(states, id) {
        Some(i) => states.update(i, f(states[i])),
        None => states,
    }
}

/// An event of the struct panel: an edit of its own fields, or the
/// outcome of a change it asked of the type system.
#[derive(Debug)]
pub enum StructPanelEvent {
    ToggleExpanded(u128),
    NameInputChanged(u128, String),
    NewFieldNameInputChanged(u128, String),
    NewFieldTypeChanged(u128, FieldType),
    /// A new struct was asked for: its id, or why it was refused.
    Created(Result<u128, String>),
    Deleted(u128, Result<(), String>),
    Renamed(u128, Result<(), String>),
    /// The name field saved as the struct's name.
    Saved(u128, Result<(), String>),
    FieldAdded(u128, Result<(), String>),
    /// A field removed, renamed or retyped.
    FieldEdited(u128, Result<(), String>),
    /// An undo or redo.
    HistoryChanged,
}

/// The state with the message shown as its validation error.
pub open spec fn with_struct_error(s: StructStateV, e: Seq<char>) -> StructStateV {
    StructStateV { validation_error: Some(e), ..s }
}

/// The struct panel's states after an event, `ts` being the type system
/// after the change: edits of the toggle and text fields clear the state's
/// error (picking a type does not); a created struct shows expanded after a
/// sync; a deletion and an undo or redo resync the panel; a rename clears
/// the error, a save also collapses the state; an added field resets the
/// pending field; a refused change shows its message on the struct's state.
pub open spec fn struct_panel_spec(states: Seq<StructStateV>, ev: StructPanelEvent, ts: TypeSystem) -> Seq<StructStateV> {
    match ev {
        StructPanelEvent::ToggleExpanded(id) => edit_struct_state(states, id,
            |s: StructStateV| StructStateV { is_expanded: !s.is_expanded, validation_error: None, ..s }),
        StructPanelEvent::NameInputChanged(id, v) => edit_struct_state(states, id,
            |s: StructStateV| StructStateV { name_input: v@, validation_error: None, ..s }),
        StructPanelEvent::NewFieldNameInputChanged(id, v) => edit_struct_state(states, id,
            |s: StructStateV| StructStateV { new_field_name_input: v@, validation_error: None, ..s }),
        StructPanelEvent::NewFieldTypeChanged(id, t) => edit_struct_state(states, id,
            |s: StructStateV| StructStateV { new_field_type: t, ..s }),
        StructPanelEvent::Created(Ok(id)) => edit_struct_state(struct_sync_spec(states, ts), id,
            |s: StructStateV| StructStateV { is_expanded: true, ..s }),
        StructPanelEvent::Created(Err(_)) => states,
        StructPanelEvent::Deleted(_, Ok(_)) => struct_sync_spec(states, ts),
        StructPanelEvent::Renamed(id, Ok(_)) => edit_struct_state(states, id,
            |s: StructStateV| StructStateV { validation_error: None, ..s }),
        StructPanelEvent::Saved(id, Ok(_)) => edit_struct_state(states, id,
            |s: StructStateV| StructStateV { validation_error: None, is_expanded: false, ..s }),
        StructPanelEvent::FieldAdded(id, Ok(_)) => edit_struct_state(states, id,
            |s: StructStateV| StructStateV {
                new_field_name_input: Seq::empty(),
                new_field_type: FieldType::String,
                validation_error: None,
                ..s
            }),
        StructPanelEvent::FieldEdited(_, Ok(_)) => states,
        StructPanelEvent::Deleted(id, Err(e)) => edit_struct_state(states, id,
            |s: StructStateV| with_struct_error(s, e@)),
        StructPanelEvent::Renamed(id, Err(e)) => edit_struct_state(states, id,
            |s: StructStateV| with_struct_error(s, e@)),
        StructPanelEvent::Saved(id, Err(e)) => edit_struct_state(states, id,
            |s: StructStateV| with_struct_error(s, e@)),
        StructPanelEvent::FieldAdded(id, Err(e)) => edit_struct_state(states, id,
            |s: StructStateV| with_struct_error(s, e@)),
        StructPanelEvent::FieldEdited(id, Err(e)) => edit_struct_state(states, id,
            |s: StructStateV| with_struct_error(s, e@)),
        StructPanelEvent::HistoryChanged => struct_sync_spec(states, ts),
    }
}

fn find_struct_state(states: &Vec<StructEditorState>, id: u128) -> (r: Option<usize>)
    ensures
        match r {
            Some(i) => struct_state_pos(struct_states_view(states@), id) == Some(i as int),
            None => struct_state_pos(struct_states_view(states@), id) is None,
        },
{
    let ghost ids = struct_states_view(states@).map_values(|s: StructStateV| s.struct_id);
    let mut i: usize = 0;
    while i < states.len()
        invariant
            i <= states@.len(),
            ids == struct_states_view(states@).map_values(|s: StructStateV| s.struct_id),
            forall|j: int| 0 <= j < i ==> ids[j] != id,
        decreases states@.len() - i,
    {
        proof {
            assert(ids[i as int] == states@[i as int].struct_id);
        }
        if states[i].struct_id == id {
            proof {
                lemma_first_index_at(ids, id, i as int);
            }
            return Some(i);
        }
        i = i + 1;
    }
    proof {
        lemma_first_index_none(ids, id);
    }
    None
}

/// Changes of one struct state.
enum StructChange {
    Toggle,
    Name(String),
    FieldName(String),
    FieldType(FieldType),
    Expand,
    Error(String),
    ClearError,
    Collapse,
    FieldAdded,
}

spec fn struct_change_spec(c: StructChange) -> spec_fn(StructStateV) -> StructStateV {
    match c {
        StructChange::Toggle => |s: StructStateV| StructStateV {
            is_expanded: !s.is_expanded,
            validation_error: None,
            ..s
        },
        StructChange::Name(v) => |s: StructStateV| StructStateV { name_input: v@, validation_error: None, ..s },
        StructChange::FieldName(v) => |s: StructStateV| StructStateV {
            new_field_name_input: v@,
            validation_error: None,
            ..s
        },
        StructChange::FieldType(t) => |s: StructStateV| StructStateV { new_field_type: t, ..s },
        StructChange::Expand => |s: StructStateV| StructStateV { is_expanded: true, ..s },
        StructChange::Error(e) => |s: StructStateV| with_struct_error(s, e@),
        StructChange::ClearError => |s: StructStateV| StructStateV { validation_error: None, ..s },
        StructChange::Collapse => |s: StructStateV| StructStateV {
            validation_error: None,
            is_expanded: false,
            ..s
        },
        StructChange::FieldAdded => |s: StructStateV| StructStateV {
            new_field_name_input: Seq::empty(),
            new_field_type: FieldType::String,
            validation_error: None,
            ..s
        },
    }
}

fn change_struct_state(st: &mut StructEditorState, c: StructChange)
    ensures
        final(st)@ == (struct_change_spec(c))(old(st)@),
{
    let ghost c0 = c;
    let ghost s0 = st@;
    match c {
        StructChange::Toggle => {
            st.is_expanded = !st.is_expanded;
            st.validation_error = None;
        },
        StructChange::Name(v) => {
            st.name_input = v;
            st.validation_error = None;
        },
        StructChange::FieldName(v) => {
            st.new_field_name_input = v;
            st.validation_error = None;
        },
        StructChange::FieldType(t) => {
            st.new_field_type = t;
        },
        StructChange::Expand => {
            st.is_expanded = true;
        },
        StructChange::Error(e) => {
            st.validation_error = Some(e);
        },
        StructChange::ClearError => {
            st.validation_error = None;
        },
        StructChange::Collapse => {
            st.validation_error = None;
            st.is_expanded = false;
        },
        StructChange::FieldAdded => {
            st.new_field_name_input = String::new();
            st.new_field_type = FieldType::String;
            st.validation_error = None;
        },
    }
    proof {
        assert(st@ =~~= (struct_change_spec(c0))(s0));
    }
}

fn change_first_struct_state(states: &mut Vec<StructEditorState>, id: u128, c: StructChange)
    ensures
        struct_states_view(final(states)@) == edit_struct_state(
            struct_states_view(old(states)@), id, struct_change_spec(c)),
{
    if let Some(i) = find_struct_state(states, id) {
        let ghost before = struct_states_view(states@);
        proof {
            lemma_first_index_some(before.map_values(|s: StructStateV| s.struct_id), id);
        }
        let mut st = states.remove(i);
        proof {
            assert(st@ == before[i as int]);
        }
        change_struct_state(&mut st, c);
        let ghost sv = st@;
        states.insert(i, st);
        proof {
            assert(struct_states_view(states@) =~= before.update(i as int, sv));
        }
    }
}

impl StructEditorView {
    /// Handles an event of the struct panel, `type_system` being the type
    /// system after the change the event reports (see
    /// [`struct_panel_spec`]).
    pub fn update(&mut self, event: StructPanelEvent, type_system: &TypeSystem)
        ensures
            struct_states_view(final(self).editor_states@) == struct_panel_spec(
                struct_states_view(old(self).editor_states@),
                event,
                *type_system,
            ),
    {
        match event {
            StructPanelEvent::ToggleExpanded(id) => change_first_struct_state(
                &mut self.editor_states, id, StructChange::Toggle),
            StructPanelEvent::NameInputChanged(id, v) => change_first_struct_state(
                &mut self.editor_states, id, StructChange::Name(v)),
            StructPanelEvent::NewFieldNameInputChanged(id, v) => change_first_struct_state(
                &mut self.editor_states, id, StructChange::FieldName(v)),
            StructPanelEvent::NewFieldTypeChanged(id, t) => change_first_struct_state(
                &mut self.editor_states, id, StructChange::FieldType(t)),
            StructPanelEvent::Created(Ok(id)) => {
                self.sync_with_type_system(type_system);
                change_first_struct_state(&mut self.editor_states, id, StructChange::Expand);
            },
            StructPanelEvent::Created(Err(_)) => {},
            StructPanelEvent::Deleted(_, Ok(_)) => self.sync_with_type_system(type_system),
            StructPanelEvent::Renamed(id, Ok(_)) => change_first_struct_state(
                &mut self.editor_states, id, StructChange::ClearError),
            StructPanelEvent::Saved(id, Ok(_)) => change_first_struct_state(
                &mut self.editor_states, id, StructChange::Collapse),
            StructPanelEvent::FieldAdded(id, Ok(_)) => change_first_struct_state(
                &mut self.editor_states, id, StructChange::FieldAdded),
            StructPanelEvent::FieldEdited(_, Ok(_)) => {},
            StructPanelEvent::Deleted(id, Err(e)) => change_first_struct_state(
                &mut self.editor_states, id, StructChange::Error(e)),
            StructPanelEvent::Renamed(id, Err(e)) => change_first_struct_state(
                &mut self.editor_states, id, StructChange::Error(e)),
            StructPanelEvent::Saved(id, Err(e)) => change_first_struct_state(
                &mut self.editor_states, id, StructChange::Error(e)),
            StructPanelEvent::FieldAdded(id, Err(e)) => change_first_struct_state(
                &mut self.editor_states, id, StructChange::Error(e)),
            StructPanelEvent::FieldEdited(id, Err(e)) => change_first_struct_state(
                &mut self.editor_states, id, StructChange::Error(e)),
            StructPanelEvent::HistoryChanged => self.sync_with_type_system(type_system),
        }
    }
}

/// The name a new enum gets: "NewEnum" and one past the number of enums.
pub fn new_enum_name(enum_count: u64) -> (r: String)
    requires
        enum_count < u64::MAX,
    ensures
        r@ == "NewEnum"@ + decimal_spec(enum_count as nat + 1),
{
    numbered("NewEnum", enum_count + 1)
}

/// The name a new struct gets: "NewStruct" and one past the number of
/// structs.
pub fn new_struct_name(struct_count: u64) -> (r: String)
    requires
        struct_count < u64::MAX,
    ensures
        r@ == "NewStruct"@ + decimal_spec(struct_count as nat + 1),
{
    numbered("NewStruct", struct_count + 1)
}

impl EnumEditorView {
    /// The name typed into the name field of the enum `id`, which saving
    /// asks the type system to take; `None` when the enum has no state (and
    /// nothing is saved).
    pub fn name_to_save(&self, id: u128) -> (r: Option<String>)
        ensures
            match enum_state_pos(enum_states_view(self.editor_states@), id) {
                Some(i) => r matches Some(n) && n@ == enum_states_view(self.editor_states@)[i].name_input,
                None => r is None,
            },
    {
        match find_enum_state(&self.editor_states, id) {
            Some(i) => {
                proof {
                    lemma_first_index_some(enum_states_view(self.editor_states@).map_values(
                        |s: EnumStateV| s.enum_id), id);
                }
                Some(self.editor_states[i].name_input.clone())
            },
            None => None,
        }
    }
}

impl StructEditorView {
    /// The name typed into the name field of the struct `id`, which saving
    /// asks the type system to take; `None` when the struct has no state
    /// (and nothing is saved).
    pub fn name_to_save(&self, id: u128) -> (r: Option<String>)
        ensures
            match struct_state_pos(struct_states_view(self.editor_states@), id) {
                Some(i) => r matches Some(n) && n@ == struct_states_view(self.editor_states@)[i].name_input,
                None => r is None,
            },
    {
        match find_struct_state(&self.editor_states, id) {
            Some(i) => {
                proof {
                    lemma_first_index_some(struct_states_view(self.editor_states@).map_values(
                        |s: StructStateV| s.struct_id), id);
                }
                Some(self.editor_states[i].name_input.clone())
            },
            None => None,
        }
    }
}

/// After the type system creates an enum, the panel holds a state for it,
/// and that state is expanded.
pub proof fn law_created_enum_shows_expanded(states: Seq<EnumStateV>, ts: TypeSystem, id: u128)
    requires
        exists|i: int| 0 <= i < ts.enums@.len() && ts.enums@[i].id == id,
    ensures
        exists|k: int| 0 <= k < enum_panel_spec(states, EnumPanelEvent::Created(Ok(id)), ts).len()
            && #[trigger] enum_panel_spec(states, EnumPanelEvent::Created(Ok(id)), ts)[k].enum_id == id
            && enum_panel_spec(states, EnumPanelEvent::Created(Ok(id)), ts)[k].is_expanded,
{
    let synced = enum_sync_spec(states, ts);
    let i = choose|i: int| 0 <= i < ts.enums@.len() && ts.enums@[i].id == id;
    law_enum_sync_matches_enums(states, ts);
    assert(ts.enums@[i].id == id);
    let k0 = choose|k: int| 0 <= k < synced.len() && #[trigger] synced[k].enum_id == ts.enums@[i].id;
    let ids = synced.map_values(|s: EnumStateV| s.enum_id);
    assert(ids[k0] == id);
    lemma_first_index_some(ids, id);
    if enum_state_pos(synced, id) is None {
        assert(false);
    }
    let k = enum_state_pos(synced, id)->0;
    let r = enum_panel_spec(states, EnumPanelEvent::Created(Ok(id)), ts);
    assert(r[k].enum_id == id && r[k].is_expanded);
}

/// After the type system creates a struct, the panel holds a state for it,
/// and that state is expanded.
pub proof fn law_created_struct_shows_expanded(states: Seq<StructStateV>, ts: TypeSystem, id: u128)
    requires
        exists|i: int| 0 <= i < ts.structs@.len() && ts.structs@[i].id == id,
    ensures
        exists|k: int| 0 <= k < struct_panel_spec(states, StructPanelEvent::Created(Ok(id)), ts).len()
            && #[trigger] struct_panel_spec(states, StructPanelEvent::Created(Ok(id)), ts)[k].struct_id == id
            && struct_panel_spec(states, StructPanelEvent::Created(Ok(id)), ts)[k].is_expanded,
{
    let synced = struct_sync_spec(states, ts);
    let i = choose|i: int| 0 <= i < ts.structs@.len() && ts.structs@[i].id == id;
    law_struct_sync_matches_structs(states, ts);
    assert(ts.structs@[i].id == id);
    let k0 = choose|k: int| 0 <= k < synced.len() && #[trigger] synced[k].struct_id == ts.structs@[i].id;
    let ids = synced.map_values(|s: StructStateV| s.struct_id);
    assert(ids[k0] == id);
    lemma_first_index_some(ids, id);
    if struct_state_pos(synced, id) is None {
        assert(false);
    }
    let k = struct_state_pos(synced, id)->0;
    let r = struct_panel_spec(states, StructPanelEvent::Created(Ok(id)), ts);
    assert(r[k].struct_id == id && r[k].is_expanded);
}

} // verus!
