//! The editor panels of the user-defined types: one state per declared
//! struct or enum, kept in step with the project's types.

use vstd::prelude::*;
use std::collections::HashMap;
use crate::naming::{chars_of, string_from_chars};
use crate::state_fields::append_str;
use crate::type_system::{EnumDef, FieldType, StructDef, TypeSystem, VariantDef, enum_by_id, struct_by_id};

verus! {

/// The editor state of one struct.
#[derive(Debug)]
pub struct StructEditorState {
    pub struct_id: u128,
    pub is_expanded: bool,
    pub name_input: String,
    pub new_field_name_input: String,
    pub new_field_type: FieldType,
    pub validation_error: Option<String>,
}

/// Mathematical form of a [`StructEditorState`].
pub struct StructStateV {
    pub struct_id: u128,
    pub is_expanded: bool,
    pub name_input: Seq<char>,
    pub new_field_name_input: Seq<char>,
    pub new_field_type: FieldType,
    pub validation_error: Option<Seq<char>>,
}

impl View for StructEditorState {
    type V = StructStateV;

    open spec fn view(&self) -> StructStateV {
        StructStateV {
            struct_id: self.struct_id,
            is_expanded: self.is_expanded,
            name_input: self.name_input@,
            new_field_name_input: self.new_field_name_input@,
            new_field_type: self.new_field_type,
            validation_error: match &self.validation_error {
                Some(e) => Some(e@),
                None => None,
            },
        }
    }
}

/// A collapsed editor state for a struct, its name in the name field.
pub open spec fn new_struct_state(id: u128, name: Seq<char>) -> StructStateV {
    StructStateV {
        struct_id: id,
        is_expanded: false,
        name_input: name,
        new_field_name_input: Seq::empty(),
        new_field_type: FieldType::String,
        validation_error: None,
    }
}

impl StructEditorState {
    /// A collapsed editor state for a struct (see [`new_struct_state`]).
    pub fn new(struct_id: u128, struct_name: String) -> (s: Self)
        ensures
            s@ == new_struct_state(struct_id, struct_name@),
    {
        StructEditorState {
            struct_id,
            is_expanded: false,
            name_input: struct_name,
            new_field_name_input: String::new(),
            new_field_type: FieldType::String,
            validation_error: None,
        }
    }
}

/// The editor states of the struct panel.
#[derive(Debug)]
pub struct StructEditorView {
    pub editor_states: Vec<StructEditorState>,
}

/// The views of a list of struct states.
pub open spec fn struct_states_view(v: Seq<StructEditorState>) -> Seq<StructStateV> {
    v.map_values(|s: StructEditorState| s@)
}

/// The states after adding one for each declared struct (in declaration
/// order) that has none.
pub open spec fn add_struct_states(states: Seq<StructStateV>, defs: Seq<StructDef>) -> Seq<StructStateV>
    decreases defs.len(),
{
    if defs.len() == 0 {
        states
    } else {
        let a = add_struct_states(states, defs.drop_last());
        if exists|k: int| 0 <= k < a.len() && a[k].struct_id == defs.last().id {
            a
        } else {
            a.push(new_struct_state(defs.last().id, defs.last().name@))
        }
    }
}

/// A state with its name field showing the struct's current name, unless
/// the struct is being edited (expanded).
pub open spec fn refresh_struct_state(s: StructStateV, ts: TypeSystem) -> StructStateV {
    match struct_by_id(ts.structs@, s.struct_id) {
        Some(d) => if !s.is_expanded { StructStateV { name_input: d.name@, ..s } } else { s },
        None => s,
    }
}

/// The struct panel's states after syncing with the project's types: states
/// of removed structs go, new structs get a state, and collapsed states
/// show the current names.
pub open spec fn struct_sync_spec(states: Seq<StructStateV>, ts: TypeSystem) -> Seq<StructStateV> {
    add_struct_states(
        states.filter(|s: StructStateV| struct_by_id(ts.structs@, s.struct_id) is Some),
        ts.structs@,
    ).map_values(|s: StructStateV| refresh_struct_state(s, ts))
}

fn has_struct_state(states: &Vec<StructEditorState>, id: u128) -> (b: bool)
    ensures
        b == exists|k: int| 0 <= k < states@.len() && struct_states_view(states@)[k].struct_id == id,
{
    let mut i: usize = 0;
    while i < states.len()
        invariant
            i <= states@.len(),
            forall|k: int| 0 <= k < i ==> struct_states_view(states@)[k].struct_id != id,
        decreases states@.len() - i,
    {
        if states[i].struct_id == id {
            proof {
                assert(struct_states_view(states@)[i as int].struct_id == id);
            }
            return true;
        }
        i = i + 1;
    }
    false
}

impl StructEditorView {
    /// No states.
    pub fn new() -> (v: Self)
        ensures
            v.editor_states@.len() == 0,
    {
        StructEditorView { editor_states: Vec::new() }
    }

    /// Brings the states in step with the project's structs (see
    /// [`struct_sync_spec`]).
    pub fn sync_with_type_system(&mut self, type_system: &TypeSystem)
        ensures
            struct_states_view(final(self).editor_states@) == struct_sync_spec(
                struct_states_view(old(self).editor_states@),
                *type_system,
            ),
    {
        let ghost s0 = struct_states_view(self.editor_states@);
        let ghost pred = |s: StructStateV| struct_by_id(type_system.structs@, s.struct_id) is Some;
        // Keep the states of structs that still exist.
        let mut rest: Vec<StructEditorState> = Vec::new();
        std::mem::swap(&mut rest, &mut self.editor_states);
        let n = rest.len();
        let mut k: usize = 0;
        proof {
            assert(struct_states_view(self.editor_states@) =~= s0.subrange(0, 0).filter(pred)) by {
                reveal(Seq::filter);
            }
        }
        while rest.len() > 0
            invariant
                pred == (|s: StructStateV| struct_by_id(type_system.structs@, s.struct_id) is Some),
                n == s0.len(),
                rest@.len() + k == n,
                struct_states_view(rest@) == s0.subrange(k as int, n as int),
                struct_states_view(self.editor_states@) == s0.subrange(0, k as int).filter(pred),
            decreases rest@.len(),
        {
            let ghost rest0 = rest@;
            proof {
                assert(struct_states_view(rest0)[0] == s0.subrange(k as int, n as int)[0]);
            }
            let st = rest.remove(0);
            let ghost sv = st@;
            let ghost p1 = s0.subrange(0, k + 1);
            let ghost before = self.editor_states@;
            proof {
                assert(sv == s0[k as int]);
                assert(rest@ =~= rest0.subrange(1, rest0.len() as int));
                assert(p1.drop_last() =~= s0.subrange(0, k as int));
                assert(p1.last() == sv);
                reveal(Seq::filter);
            }
            if type_system.get_struct(st.struct_id).is_some() {
                self.editor_states.push(st);
                proof {
                    assert(struct_states_view(self.editor_states@) =~= struct_states_view(before).push(sv));
                }
            }
            k = k + 1;
            proof {
                assert(struct_states_view(rest@) =~= struct_states_view(rest0).subrange(1, rest0.len() as int));
                assert(struct_states_view(self.editor_states@) =~= p1.filter(pred));
            }
        }
        proof {
            assert(s0.subrange(0, n as int) =~= s0);
        }
        // Add a state for each struct that has none.
        let ghost kept = struct_states_view(self.editor_states@);
        let defs = &type_system.structs;
        let mut i: usize = 0;
        proof {
            assert(defs@.subrange(0, 0).len() == 0);
            assert(add_struct_states(kept, defs@.subrange(0, 0)) == kept);
        }
        while i < defs.len()
            invariant
                i <= defs@.len(),
                defs == &type_system.structs,
                struct_states_view(self.editor_states@) == add_struct_states(kept, defs@.subrange(0, i as int)),
            decreases defs@.len() - i,
        {
            let ghost p = defs@.subrange(0, i + 1);
            proof {
                assert(p.drop_last() =~= defs@.subrange(0, i as int));
                assert(p.last() == defs@[i as int]);
            }
            if !has_struct_state(&self.editor_states, defs[i].id) {
                let st = StructEditorState::new(defs[i].id, defs[i].name.clone());
                let ghost sv = st@;
                let ghost before = self.editor_states@;
                self.editor_states.push(st);
                proof {
                    assert(struct_states_view(self.editor_states@) =~= struct_states_view(before).push(sv));
                }
            }
            i = i + 1;
        }
        proof {
            assert(defs@.subrange(0, defs@.len() as int) =~= defs@);
        }
        // Show the current names in collapsed states.
        let ghost added = struct_states_view(self.editor_states@);
        let mut j: usize = 0;
        while j < self.editor_states.len()
            invariant
                self.editor_states@.len() == added.len(),
                j <= added.len(),
                forall|q: int| 0 <= q < j ==> #[trigger] struct_states_view(self.editor_states@)[q]
                    == refresh_struct_state(added[q], *type_system),
                forall|q: int| j <= q < added.len() ==> #[trigger] struct_states_view(self.editor_states@)[q] == added[q],
            decreases added.len() - j,
        {
            let ghost before = struct_states_view(self.editor_states@);
            proof {
                assert(before[j as int] == added[j as int]);
                assert(before[j as int] == self.editor_states@[j as int]@);
            }
            let mut st = self.editor_states.remove(j);
            let ghost s_old = st@;
            if let Some(d) = type_system.get_struct(st.struct_id) {
                if !st.is_expanded {
                    st.name_input = d.name.clone();
                }
            }
            let ghost sv = st@;
            proof {
                assert(sv == refresh_struct_state(s_old, *type_system));
            }
            self.editor_states.insert(j, st);
            proof {
                assert(struct_states_view(self.editor_states@) =~= before.update(j as int, sv));
            }
            j = j + 1;
        }
        proof {
            assert(struct_states_view(self.editor_states@) =~= added.map_values(
                |s: StructStateV| refresh_struct_state(s, *type_system)));
        }
    }
}

/// Whether one of `vs` has the id `id`.
pub open spec fn has_variant_id(vs: Seq<VariantDef>, id: u128) -> bool {
    exists|i: int| 0 <= i < vs.len() && vs[i].id == id
}

/// The texts of a map of strings.
pub open spec fn texts_view(m: Map<u128, String>) -> Map<u128, Seq<char>> {
    m.map_values(|s: String| s@)
}

/// The pending field names of an enum's variants after a sync: one per
/// variant of `vs`, kept where it was there, empty where it is new.
pub open spec fn synced_field_names(old: Map<u128, Seq<char>>, vs: Seq<VariantDef>) -> Map<u128, Seq<char>> {
    Map::new(
        |k: u128| has_variant_id(vs, k),
        |k: u128| if old.contains_key(k) { old[k] } else { Seq::empty() },
    )
}

/// The pending field types of an enum's variants after a sync: one per
/// variant of `vs`, kept where it was there, `String` where it is new.
pub open spec fn synced_field_types(old: Map<u128, FieldType>, vs: Seq<VariantDef>) -> Map<u128, FieldType> {
    Map::new(
        |k: u128| has_variant_id(vs, k),
        |k: u128| if old.contains_key(k) { old[k] } else { FieldType::String },
    )
}

proof fn lemma_has_variant_id_step(vs: Seq<VariantDef>, i: int, k: u128)
    requires
        0 <= i < vs.len(),
    ensures
        has_variant_id(vs.subrange(0, i + 1), k) == (has_variant_id(vs.subrange(0, i), k) || vs[i].id == k),
{
    let a = vs.subrange(0, i);
    let b = vs.subrange(0, i + 1);
    if has_variant_id(b, k) {
        let j = choose|j: int| 0 <= j < b.len() && b[j].id == k;
        if j < i {
            assert(a[j] == b[j]);
        }
    }
    if has_variant_id(a, k) {
        let j = choose|j: int| 0 <= j < a.len() && a[j].id == k;
        assert(b[j] == a[j]);
    }
    if vs[i].id == k {
        assert(b[i] == vs[i]);
    }
}

fn sync_field_names(old: &HashMap<u128, String>, vs: &Vec<VariantDef>) -> (r: HashMap<u128, String>)
    ensures
        texts_view(r@) == synced_field_names(texts_view(old@), vs@),
{
    broadcast use vstd::std_specs::hash::group_hash_axioms;
    let mut r: HashMap<u128, String> = HashMap::new();
    let mut i: usize = 0;
    proof {
        assert(texts_view(r@) =~= synced_field_names(texts_view(old@), vs@.subrange(0, 0)));
    }
    while i < vs.len()
        invariant
            i <= vs@.len(),
            texts_view(r@) == synced_field_names(texts_view(old@), vs@.subrange(0, i as int)),
        decreases vs@.len() - i,
    {
        let id = vs[i].id;
        let v = match old.get(&id) {
            Some(s) => s.clone(),
            None => String::new(),
        };
        proof {
            if old@.contains_key(id) {
                assert(v@ == texts_view(old@)[id]);
            } else {
                assert(!texts_view(old@).contains_key(id));
            }
        }
        let ghost before = r@;
        r.insert(id, v);
        proof {
            assert(texts_view(r@) =~= texts_view(before).insert(id, v@));
            assert(v@ == (if texts_view(old@).contains_key(id) { texts_view(old@)[id] } else { Seq::<char>::empty() }));
            let m0 = synced_field_names(texts_view(old@), vs@.subrange(0, i as int));
            let m1 = synced_field_names(texts_view(old@), vs@.subrange(0, i + 1));
            assert forall|k: u128| #[trigger] m1.contains_key(k) == m0.insert(id, v@).contains_key(k) by {
                lemma_has_variant_id_step(vs@, i as int, k);
            }
            assert forall|k: u128| #[trigger] m1.contains_key(k) implies m1[k] == m0.insert(id, v@)[k] by {
                lemma_has_variant_id_step(vs@, i as int, k);
                if k != id {
                    assert(m0.contains_key(k));
                }
            }
            assert(m1 =~= m0.insert(id, v@));
        }
        i = i + 1;
    }
    proof {
        assert(vs@.subrange(0, vs@.len() as int) =~= vs@);
    }
    r
}

fn sync_field_types(old: &HashMap<u128, FieldType>, vs: &Vec<VariantDef>) -> (r: HashMap<u128, FieldType>)
    ensures
        r@ == synced_field_types(old@, vs@),
{
    broadcast use vstd::std_specs::hash::group_hash_axioms;
    let mut r: HashMap<u128, FieldType> = HashMap::new();
    let mut i: usize = 0;
    proof {
        assert(r@ =~= synced_field_types(old@, vs@.subrange(0, 0)));
    }
    while i < vs.len()
        invariant
            i <= vs@.len(),
            r@ == synced_field_types(old@, vs@.subrange(0, i as int)),
        decreases vs@.len() - i,
    {
        let id = vs[i].id;
        let t = match old.get(&id) {
            Some(t) => *t,
            None => FieldType::String,
        };
        r.insert(id, t);
        proof {
            assert forall|k: u128| true implies has_variant_id(vs@.subrange(0, i + 1), k)
                == (has_variant_id(vs@.subrange(0, i as int), k) || vs@[i as int].id == k) by {
                lemma_has_variant_id_step(vs@, i as int, k);
            }
            assert(r@ =~= synced_field_types(old@, vs@.subrange(0, i + 1)));
        }
        i = i + 1;
    }
    proof {
        assert(vs@.subrange(0, vs@.len() as int) =~= vs@);
    }
    r
}

/// The editor state of one enum.
#[derive(Debug)]
pub struct EnumEditorState {
    pub enum_id: u128,
    pub is_expanded: bool,
    pub name_input: String,
    pub new_variant_input: String,
    /// The payload field name being typed, per variant.
    pub new_variant_field_names: HashMap<u128, String>,
    /// The payload field type being picked, per variant.
    pub new_variant_field_types: HashMap<u128, FieldType>,
    pub validation_error: Option<String>,
}

/// Mathematical form of an [`EnumEditorState`].
pub struct EnumStateV {
    pub enum_id: u128,
    pub is_expanded: bool,
    pub name_input: Seq<char>,
    pub new_variant_input: Seq<char>,
    pub new_variant_field_names: Map<u128, Seq<char>>,
    pub new_variant_field_types: Map<u128, FieldType>,
    pub validation_error: Option<Seq<char>>,
}

impl View for EnumEditorState {
    type V = EnumStateV;

    open spec fn view(&self) -> EnumStateV {
        EnumStateV {
            enum_id: self.enum_id,
            is_expanded: self.is_expanded,
            name_input: self.name_input@,
            new_variant_input: self.new_variant_input@,
            new_variant_field_names: texts_view(self.new_variant_field_names@),
            new_variant_field_types: self.new_variant_field_types@,
            validation_error: match &self.validation_error {
                Some(e) => Some(e@),
                None => None,
            },
        }
    }
}

/// A collapsed editor state for an enum, its name in the name field and no
/// pending variant fields.
pub open spec fn new_enum_state(id: u128, name: Seq<char>) -> EnumStateV {
    EnumStateV {
        enum_id: id,
        is_expanded: false,
        name_input: name,
        new_variant_input: Seq::empty(),
        new_variant_field_names: Map::empty(),
        new_variant_field_types: Map::empty(),
        validation_error: None,
    }
}

impl EnumEditorState {
    /// A collapsed editor state for an enum (see [`new_enum_state`]).
    pub fn new(enum_id: u128, enum_name: String) -> (s: Self)
        ensures
            s@ == new_enum_state(enum_id, enum_name@),
    {
        broadcast use vstd::std_specs::hash::group_hash_axioms;
        let s = EnumEditorState {
            enum_id,
            is_expanded: false,
            name_input: enum_name,
            new_variant_input: String::new(),
            new_variant_field_names: HashMap::new(),
            new_variant_field_types: HashMap::new(),
            validation_error: None,
        };
        proof {
            assert(texts_view(s.new_variant_field_names@) =~= Map::empty());
        }
        s
    }
}

/// The editor states of the enum panel.
#[derive(Debug)]
pub struct EnumEditorView {
    pub editor_states: Vec<EnumEditorState>,
}

/// The views of a list of enum states.
pub open spec fn enum_states_view(v: Seq<EnumEditorState>) -> Seq<EnumStateV> {
    v.map_values(|s: EnumEditorState| s@)
}

/// The states after adding one for each declared enum (in declaration
/// order) that has none.
pub open spec fn add_enum_states(states: Seq<EnumStateV>, defs: Seq<EnumDef>) -> Seq<EnumStateV>
    decreases defs.len(),
{
    if defs.len() == 0 {
        states
    } else {
        let a = add_enum_states(states, defs.drop_last());
        if exists|k: int| 0 <= k < a.len() && a[k].enum_id == defs.last().id {
            a
        } else {
            a.push(new_enum_state(defs.last().id, defs.last().name@))
        }
    }
}

/// A state of an existing enum after a sync: its name field shows the
/// enum's current name unless it is being edited (expanded), and its
/// pending variant fields are those of the enum's current variants (see
/// [`synced_field_names`], [`synced_field_types`]).
pub open spec fn refresh_enum_state(s: EnumStateV, ts: TypeSystem) -> EnumStateV {
    match enum_by_id(ts.enums@, s.enum_id) {
        Some(d) => EnumStateV {
            name_input: if s.is_expanded { s.name_input } else { d.name@ },
            new_variant_field_names: synced_field_names(s.new_variant_field_names, d.variants@),
            new_variant_field_types: synced_field_types(s.new_variant_field_types, d.variants@),
            ..s
        },
        None => s,
    }
}

/// The enum panel's states after syncing with the project's types: states
/// of removed enums go, new enums get a state, and the states are
/// refreshed (see [`refresh_enum_state`]).
pub open spec fn enum_sync_spec(states: Seq<EnumStateV>, ts: TypeSystem) -> Seq<EnumStateV> {
    add_enum_states(
        states.filter(|s: EnumStateV| enum_by_id(ts.enums@, s.enum_id) is Some),
        ts.enums@,
    ).map_values(|s: EnumStateV| refresh_enum_state(s, ts))
}

fn has_enum_state(states: &Vec<EnumEditorState>, id: u128) -> (b: bool)
    ensures
        b == exists|k: int| 0 <= k < states@.len() && enum_states_view(states@)[k].enum_id == id,
{
    let mut i: usize = 0;
    while i < states.len()
        invariant
            i <= states@.len(),
            forall|k: int| 0 <= k < i ==> enum_states_view(states@)[k].enum_id != id,
        decreases states@.len() - i,
    {
        if states[i].enum_id == id {
            proof {
                assert(enum_states_view(states@)[i as int].enum_id == id);
            }
            return true;
        }
        i = i + 1;
    }
    false
}

fn refresh_enum_editor_state(st: &mut EnumEditorState, type_system: &TypeSystem)
    ensures
        final(st)@ == refresh_enum_state(old(st)@, *type_system),
{
    if let Some(d) = type_system.get_enum(st.enum_id) {
        if !st.is_expanded {
            st.name_input = d.name.clone();
        }
        st.new_variant_field_names = sync_field_names(&st.new_variant_field_names, &d.variants);
        st.new_variant_field_types = sync_field_types(&st.new_variant_field_types, &d.variants);
    }
}

impl EnumEditorView {
    /// No states.
    pub fn new() -> (v: Self)
        ensures
            v.editor_states@.len() == 0,
    {
        EnumEditorView { editor_states: Vec::new() }
    }

    /// Brings the states in step with the project's enums (see
    /// [`enum_sync_spec`]).
    pub fn sync_with_type_system(&mut self, type_system: &TypeSystem)
        ensures
            enum_states_view(final(self).editor_states@) == enum_sync_spec(
                enum_states_view(old(self).editor_states@),
                *type_system,
            ),
    {
        let ghost s0 = enum_states_view(self.editor_states@);
        let ghost pred = |s: EnumStateV| enum_by_id(type_system.enums@, s.enum_id) is Some;
        // Keep the states of enums that still exist.
        let mut rest: Vec<EnumEditorState> = Vec::new();
        std::mem::swap(&mut rest, &mut self.editor_states);
        let n = rest.len();
        let mut k: usize = 0;
        proof {
            assert(enum_states_view(self.editor_states@) =~= s0.subrange(0, 0).filter(pred)) by {
                reveal(Seq::filter);
            }
        }
        while rest.len() > 0
            invariant
                pred == (|s: EnumStateV| enum_by_id(type_system.enums@, s.enum_id) is Some),
                n == s0.len(),
                rest@.len() + k == n,
                enum_states_view(rest@) == s0.subrange(k as int, n as int),
                enum_states_view(self.editor_states@) == s0.subrange(0, k as int).filter(pred),
            decreases rest@.len(),
        {
            let ghost rest0 = rest@;
            proof {
                assert(enum_states_view(rest0)[0] == s0.subrange(k as int, n as int)[0]);
            }
            let st = rest.remove(0);
            let ghost sv = st@;
            let ghost p1 = s0.subrange(0, k + 1);
            let ghost before = self.editor_states@;
            proof {
                assert(sv == s0[k as int]);
                assert(rest@ =~= rest0.subrange(1, rest0.len() as int));
                assert(p1.drop_last() =~= s0.subrange(0, k as int));
                assert(p1.last() == sv);
                reveal(Seq::filter);
            }
            if type_system.get_enum(st.enum_id).is_some() {
                self.editor_states.push(st);
                proof {
                    assert(enum_states_view(self.editor_states@) =~= enum_states_view(before).push(sv));
                }
            }
            k = k + 1;
            proof {
                assert(enum_states_view(rest@) =~= enum_states_view(rest0).subrange(1, rest0.len() as int));
                assert(enum_states_view(self.editor_states@) =~= p1.filter(pred));
            }
        }
        proof {
            assert(s0.subrange(0, n as int) =~= s0);
        }
        // Add a state for each enum that has none.
        let ghost kept = enum_states_view(self.editor_states@);
        let defs = &type_system.enums;
        let mut i: usize = 0;
        proof {
            assert(add_enum_states(kept, defs@.subrange(0, 0)) == kept);
        }
        while i < defs.len()
            invariant
                i <= defs@.len(),
                defs == &type_system.enums,
                enum_states_view(self.editor_states@) == add_enum_states(kept, defs@.subrange(0, i as int)),
            decreases defs@.len() - i,
        {
            let ghost p = defs@.subrange(0, i + 1);
            proof {
                assert(p.drop_last() =~= defs@.subrange(0, i as int));
                assert(p.last() == defs@[i as int]);
            }
            if !has_enum_state(&self.editor_states, defs[i].id) {
                let st = EnumEditorState::new(defs[i].id, defs[i].name.clone());
                let ghost sv = st@;
                let ghost before = self.editor_states@;
                self.editor_states.push(st);
                proof {
                    assert(enum_states_view(self.editor_states@) =~= enum_states_view(before).push(sv));
                }
            }
            i = i + 1;
        }
        proof {
            assert(defs@.subrange(0, defs@.len() as int) =~= defs@);
        }
        // Refresh each state.
        let ghost added = enum_states_view(self.editor_states@);
        let mut j: usize = 0;
        while j < self.editor_states.len()
            invariant
                self.editor_states@.len() == added.len(),
                j <= added.len(),
                forall|q: int| 0 <= q < j ==> #[trigger] enum_states_view(self.editor_states@)[q]
                    == refresh_enum_state(added[q], *type_system),
                forall|q: int| j <= q < added.len() ==> #[trigger] enum_states_view(self.editor_states@)[q] == added[q],
            decreases added.len() - j,
        {
            let ghost before = enum_states_view(self.editor_states@);
            proof {
                assert(before[j as int] == added[j as int]);
                assert(before[j as int] == self.editor_states@[j as int]@);
            }
            let mut st = self.editor_states.remove(j);
            refresh_enum_editor_state(&mut st, type_system);
            let ghost sv = st@;
            self.editor_states.insert(j, st);
            proof {
                assert(enum_states_view(self.editor_states@) =~= before.update(j as int, sv));
            }
            j = j + 1;
        }
        proof {
            assert(enum_states_view(self.editor_states@) =~= added.map_values(
                |s: EnumStateV| refresh_enum_state(s, *type_system)));
        }
    }
}

proof fn lemma_struct_by_id_found(ss: Seq<StructDef>, i: int)
    requires
        0 <= i < ss.len(),
    ensures
        struct_by_id(ss, ss[i].id) is Some,
    decreases ss.len(),
{
    if ss[0].id != ss[i].id {
        lemma_struct_by_id_found(ss.drop_first(), i - 1);
    }
}

proof fn lemma_enum_by_id_found(es: Seq<EnumDef>, i: int)
    requires
        0 <= i < es.len(),
    ensures
        enum_by_id(es, es[i].id) is Some,
    decreases es.len(),
{
    if es[0].id != es[i].id {
        lemma_enum_by_id_found(es.drop_first(), i - 1);
    }
}

proof fn lemma_add_struct_states_ids(states: Seq<StructStateV>, defs: Seq<StructDef>, p: spec_fn(u128) -> bool)
    requires
        forall|k: int| 0 <= k < states.len() ==> p(#[trigger] states[k].struct_id),
        forall|i: int| 0 <= i < defs.len() ==> p(#[trigger] defs[i].id),
    ensures
        forall|k: int| 0 <= k < add_struct_states(states, defs).len()
            ==> p(#[trigger] add_struct_states(states, defs)[k].struct_id),
        forall|i: int| #![trigger defs[i]] 0 <= i < defs.len() ==> exists|k: int| 0 <= k < add_struct_states(states, defs).len()
            && #[trigger] add_struct_states(states, defs)[k].struct_id == defs[i].id,
    decreases defs.len(),
{
    if defs.len() > 0 {
        let d = defs.drop_last();
        assert forall|i: int| 0 <= i < d.len() implies p(#[trigger] d[i].id) by {
            assert(d[i] == defs[i]);
        }
        lemma_add_struct_states_ids(states, d, p);
        let a = add_struct_states(states, d);
        let r = add_struct_states(states, defs);
        assert(p(defs[defs.len() - 1].id));
        assert forall|i: int| #![trigger defs[i]] 0 <= i < defs.len() implies exists|k: int| 0 <= k < r.len()
            && #[trigger] r[k].struct_id == defs[i].id by {
            if i < d.len() {
                assert(d[i] == defs[i]);
                let k = choose|k: int| 0 <= k < a.len() && #[trigger] a[k].struct_id == d[i].id;
                assert(r[k] == a[k]);
            } else if exists|k: int| 0 <= k < a.len() && a[k].struct_id == defs.last().id {
                let k = choose|k: int| 0 <= k < a.len() && a[k].struct_id == defs.last().id;
                assert(r[k] == a[k]);
            } else {
                assert(r[a.len() as int].struct_id == defs[i].id);
            }
        }
    }
}

proof fn lemma_add_enum_states_ids(states: Seq<EnumStateV>, defs: Seq<EnumDef>, p: spec_fn(u128) -> bool)
    requires
        forall|k: int| 0 <= k < states.len() ==> p(#[trigger] states[k].enum_id),
        forall|i: int| 0 <= i < defs.len() ==> p(#[trigger] defs[i].id),
    ensures
        forall|k: int| 0 <= k < add_enum_states(states, defs).len()
            ==> p(#[trigger] add_enum_states(states, defs)[k].enum_id),
        forall|i: int| #![trigger defs[i]] 0 <= i < defs.len() ==> exists|k: int| 0 <= k < add_enum_states(states, defs).len()
            && #[trigger] add_enum_states(states, defs)[k].enum_id == defs[i].id,
    decreases defs.len(),
{
    if defs.len() > 0 {
        let d = defs.drop_last();
        assert forall|i: int| 0 <= i < d.len() implies p(#[trigger] d[i].id) by {
            assert(d[i] == defs[i]);
        }
        lemma_add_enum_states_ids(states, d, p);
        let a = add_enum_states(states, d);
        let r = add_enum_states(states, defs);
        assert(p(defs[defs.len() - 1].id));
        assert forall|i: int| #![trigger defs[i]] 0 <= i < defs.len() implies exists|k: int| 0 <= k < r.len()
            && #[trigger] r[k].enum_id == defs[i].id by {
            if i < d.len() {
                assert(d[i] == defs[i]);
                let k = choose|k: int| 0 <= k < a.len() && #[trigger] a[k].enum_id == d[i].id;
                assert(r[k] == a[k]);
            } else if exists|k: int| 0 <= k < a.len() && a[k].enum_id == defs.last().id {
                let k = choose|k: int| 0 <= k < a.len() && a[k].enum_id == defs.last().id;
                assert(r[k] == a[k]);
            } else {
                assert(r[a.len() as int].enum_id == defs[i].id);
            }
        }
    }
}

/// After a sync, the struct panel holds a state for every declared struct
/// and none for a struct that is not declared.
pub proof fn law_struct_sync_matches_structs(states: Seq<StructStateV>, ts: TypeSystem)
    ensures
        forall|k: int| 0 <= k < struct_sync_spec(states, ts).len()
            ==> struct_by_id(ts.structs@, #[trigger] struct_sync_spec(states, ts)[k].struct_id) is Some,
        forall|i: int| #![trigger ts.structs@[i]] 0 <= i < ts.structs@.len() ==> exists|k: int| 0 <= k < struct_sync_spec(states, ts).len()
            && #[trigger] struct_sync_spec(states, ts)[k].struct_id == ts.structs@[i].id,
{
    let p = |id: u128| struct_by_id(ts.structs@, id) is Some;
    let pred = |s: StructStateV| struct_by_id(ts.structs@, s.struct_id) is Some;
    let f = states.filter(pred);
    broadcast use vstd::seq_lib::group_filter_ensures;
    assert forall|k: int| 0 <= k < f.len() implies p(#[trigger] f[k].struct_id) by {
        assert(pred(f[k]));
    }
    assert forall|i: int| 0 <= i < ts.structs@.len() implies p(#[trigger] ts.structs@[i].id) by {
        lemma_struct_by_id_found(ts.structs@, i);
    }
    lemma_add_struct_states_ids(f, ts.structs@, p);
    let a = add_struct_states(f, ts.structs@);
    let r = struct_sync_spec(states, ts);
    assert forall|k: int| 0 <= k < r.len() implies #[trigger] r[k].struct_id == a[k].struct_id by {}
    assert forall|i: int| #![trigger ts.structs@[i]] 0 <= i < ts.structs@.len() implies exists|k: int| 0 <= k < r.len()
        && #[trigger] r[k].struct_id == ts.structs@[i].id by {
        let k = choose|k: int| 0 <= k < a.len() && #[trigger] a[k].struct_id == ts.structs@[i].id;
        assert(r[k].struct_id == a[k].struct_id);
    }
}

/// After a sync, the enum panel holds a state for every declared enum and
/// none for an enum that is not declared.
pub proof fn law_enum_sync_matches_enums(states: Seq<EnumStateV>, ts: TypeSystem)
    ensures
        forall|k: int| 0 <= k < enum_sync_spec(states, ts).len()
            ==> enum_by_id(ts.enums@, #[trigger] enum_sync_spec(states, ts)[k].enum_id) is Some,
        forall|i: int| #![trigger ts.enums@[i]] 0 <= i < ts.enums@.len() ==> exists|k: int| 0 <= k < enum_sync_spec(states, ts).len()
            && #[trigger] enum_sync_spec(states, ts)[k].enum_id == ts.enums@[i].id,
{
    let p = |id: u128| enum_by_id(ts.enums@, id) is Some;
    let pred = |s: EnumStateV| enum_by_id(ts.enums@, s.enum_id) is Some;
    let f = states.filter(pred);
    broadcast use vstd::seq_lib::group_filter_ensures;
    assert forall|k: int| 0 <= k < f.len() implies p(#[trigger] f[k].enum_id) by {
        assert(pred(f[k]));
    }
    assert forall|i: int| 0 <= i < ts.enums@.len() implies p(#[trigger] ts.enums@[i].id) by {
        lemma_enum_by_id_found(ts.enums@, i);
    }
    lemma_add_enum_states_ids(f, ts.enums@, p);
    let a = add_enum_states(f, ts.enums@);
    let r = enum_sync_spec(states, ts);
    assert forall|k: int| 0 <= k < r.len() implies #[trigger] r[k].enum_id == a[k].enum_id by {}
    assert forall|i: int| #![trigger ts.enums@[i]] 0 <= i < ts.enums@.len() implies exists|k: int| 0 <= k < r.len()
        && #[trigger] r[k].enum_id == ts.enums@[i].id by {
        let k = choose|k: int| 0 <= k < a.len() && #[trigger] a[k].enum_id == ts.enums@[i].id;
        assert(r[k].enum_id == a[k].enum_id);
    }
}

/// The field types offered before the user-defined ones, in order.
pub open spec fn primitive_types() -> Seq<FieldType> {
    seq![
        FieldType::String,
        FieldType::F32,
        FieldType::F64,
        FieldType::I32,
        FieldType::I64,
        FieldType::U32,
        FieldType::U64,
        FieldType::Usize,
        FieldType::Bool,
    ]
}

/// The name a built-in field type is shown by: its Rust type.
pub open spec fn primitive_label(t: FieldType) -> Seq<char> {
    match t {
        FieldType::String => "String"@,
        FieldType::F32 => "f32"@,
        FieldType::F64 => "f64"@,
        FieldType::I32 => "i32"@,
        FieldType::I64 => "i64"@,
        FieldType::U32 => "u32"@,
        FieldType::U64 => "u64"@,
        FieldType::Usize => "usize"@,
        FieldType::Bool => "bool"@,
        FieldType::CustomEnum(_) => "enum"@,
        FieldType::CustomStruct(_) => "struct"@,
    }
}

/// The label of a field type in a type picker: a user-defined enum or
/// struct by its name (or "Unknown") followed by " (enum)" or " (struct)",
/// a built-in type by its Rust name.
pub open spec fn option_label_spec(t: FieldType, ts: TypeSystem) -> Seq<char> {
    match t {
        FieldType::CustomEnum(id) => (match enum_by_id(ts.enums@, id) {
            Some(e) => e.name@,
            None => "Unknown"@,
        }) + " (enum)"@,
        FieldType::CustomStruct(id) => (match struct_by_id(ts.structs@, id) {
            Some(s) => s.name@,
            None => "Unknown"@,
        }) + " (struct)"@,
        _ => primitive_label(t),
    }
}

/// A field type together with the label a type picker shows for it.
#[derive(Debug)]
pub struct FieldTypeOption {
    pub field_type: FieldType,
    pub label: String,
}

fn primitive_name(t: FieldType) -> (r: &'static str)
    ensures
        r@ == primitive_label(t),
{
    match t {
        FieldType::String => "String",
        FieldType::F32 => "f32",
        FieldType::F64 => "f64",
        FieldType::I32 => "i32",
        FieldType::I64 => "i64",
        FieldType::U32 => "u32",
        FieldType::U64 => "u64",
        FieldType::Usize => "usize",
        FieldType::Bool => "bool",
        FieldType::CustomEnum(_) => "enum",
        FieldType::CustomStruct(_) => "struct",
    }
}

impl FieldTypeOption {
    /// The option for `ft`, labelled as [`option_label_spec`] says.
    pub fn from_field_type(ft: &FieldType, type_system: &TypeSystem) -> (o: Self)
        ensures
            o.field_type == *ft,
            o.label@ == option_label_spec(*ft, *type_system),
    {
        let label = match ft {
            FieldType::CustomEnum(id) => {
                let mut cs = match type_system.get_enum(*id) {
                    Some(e) => chars_of(e.name.as_str()),
                    None => chars_of("Unknown"),
                };
                append_str(&mut cs, " (enum)");
                string_from_chars(&cs)
            },
            FieldType::CustomStruct(id) => {
                let mut cs = match type_system.get_struct(*id) {
                    Some(s) => chars_of(s.name.as_str()),
                    None => chars_of("Unknown"),
                };
                append_str(&mut cs, " (struct)");
                string_from_chars(&cs)
            },
            _ => primitive_name(*ft).to_string(),
        };
        FieldTypeOption { field_type: *ft, label }
    }
}

/// The user-defined enums offered as payload types of a variant of the enum
/// `owning`: every other enum, and the owning enum itself only when it is
/// the selected type.
pub open spec fn enum_option_types(es: Seq<EnumDef>, owning: u128, selected: Option<FieldType>) -> Seq<FieldType>
    decreases es.len(),
{
    if es.len() == 0 {
        Seq::empty()
    } else {
        let r = enum_option_types(es.drop_last(), owning, selected);
        let id = es.last().id;
        if id != owning || selected == Some(FieldType::CustomEnum(id)) {
            r.push(FieldType::CustomEnum(id))
        } else {
            r
        }
    }
}

/// The user-defined structs, as field types.
pub open spec fn struct_option_types(ss: Seq<StructDef>) -> Seq<FieldType> {
    ss.map_values(|d: StructDef| FieldType::CustomStruct(d.id))
}

/// The payload types offered for a variant of the enum `owning`: the
/// built-in types, the user-defined enums (see [`enum_option_types`]) and
/// structs, and last the selected type when it is not among them.
pub open spec fn option_types_spec(ts: TypeSystem, owning: u128, selected: Option<FieldType>) -> Seq<FieldType> {
    let base = primitive_types() + enum_option_types(ts.enums@, owning, selected) + struct_option_types(ts.structs@);
    match selected {
        Some(t) => if base.contains(t) { base } else { base.push(t) },
        None => base,
    }
}

/// The field types of a list of options.
pub open spec fn option_types(os: Seq<FieldTypeOption>) -> Seq<FieldType> {
    os.map_values(|o: FieldTypeOption| o.field_type)
}

fn push_option(options: &mut Vec<FieldTypeOption>, ft: FieldType, type_system: &TypeSystem)
    requires
        forall|i: int| 0 <= i < old(options)@.len() ==> #[trigger] old(options)@[i].label@
            == option_label_spec(old(options)@[i].field_type, *type_system),
    ensures
        option_types(final(options)@) == option_types(old(options)@).push(ft),
        forall|i: int| 0 <= i < final(options)@.len() ==> #[trigger] final(options)@[i].label@
            == option_label_spec(final(options)@[i].field_type, *type_system),
{
    let o = FieldTypeOption::from_field_type(&ft, type_system);
    options.push(o);
    proof {
        assert(option_types(final(options)@) =~= option_types(old(options)@).push(ft));
    }
}

/// The payload types a type picker offers for a variant field of the enum
/// `owning_enum_id`, in the order of [`option_types_spec`], each labelled
/// as [`option_label_spec`] says.
pub fn field_type_options(
    type_system: &TypeSystem,
    owning_enum_id: u128,
    selected_type: Option<FieldType>,
) -> (options: Vec<FieldTypeOption>)
    ensures
        option_types(options@) == option_types_spec(*type_system, owning_enum_id, selected_type),
        forall|i: int| 0 <= i < options@.len() ==> #[trigger] options@[i].label@
            == option_label_spec(options@[i].field_type, *type_system),
{
    let mut options: Vec<FieldTypeOption> = Vec::new();
    let prims: [FieldType; 9] = [
        FieldType::String,
        FieldType::F32,
        FieldType::F64,
        FieldType::I32,
        FieldType::I64,
        FieldType::U32,
        FieldType::U64,
        FieldType::Usize,
        FieldType::Bool,
    ];
    let mut p: usize = 0;
    while p < 9
        invariant
            p <= 9,
            prims@ == primitive_types(),
            option_types(options@) == primitive_types().subrange(0, p as int),
            forall|i: int| 0 <= i < options@.len() ==> #[trigger] options@[i].label@
                == option_label_spec(options@[i].field_type, *type_system),
        decreases 9 - p,
    {
        push_option(&mut options, prims[p], type_system);
        p = p + 1;
        proof {
            assert(primitive_types().subrange(0, p as int) =~= primitive_types().subrange(0, p - 1).push(
                prims@[p - 1]));
        }
    }
    proof {
        assert(primitive_types().subrange(0, 9) =~= primitive_types());
    }
    let es = &type_system.enums;
    let mut i: usize = 0;
    proof {
        assert(enum_option_types(es@.subrange(0, 0), owning_enum_id, selected_type) =~= Seq::<FieldType>::empty());
    }
    while i < es.len()
        invariant
            i <= es@.len(),
            es == &type_system.enums,
            option_types(options@) == primitive_types() + enum_option_types(
                es@.subrange(0, i as int), owning_enum_id, selected_type),
            forall|k: int| 0 <= k < options@.len() ==> #[trigger] options@[k].label@
                == option_label_spec(options@[k].field_type, *type_system),
        decreases es@.len() - i,
    {
        let id = es[i].id;
        let ghost pre = es@.subrange(0, i + 1);
        proof {
            assert(pre.drop_last() =~= es@.subrange(0, i as int));
            assert(pre.last() == es@[i as int]);
        }
        let is_selected = match selected_type {
            Some(FieldType::CustomEnum(sid)) => sid == id,
            _ => false,
        };
        if id != owning_enum_id || is_selected {
            push_option(&mut options, FieldType::CustomEnum(id), type_system);
            proof {
                assert(primitive_types() + enum_option_types(pre, owning_enum_id, selected_type) =~= (
                    primitive_types() + enum_option_types(es@.subrange(0, i as int), owning_enum_id, selected_type)
                ).push(FieldType::CustomEnum(id)));
            }
        }
        i = i + 1;
    }
    proof {
        assert(es@.subrange(0, es@.len() as int) =~= es@);
    }
    let ss = &type_system.structs;
    let ghost with_enums = option_types(options@);
    let mut j: usize = 0;
    while j < ss.len()
        invariant
            j <= ss@.len(),
            ss == &type_system.structs,
            option_types(options@) == with_enums + struct_option_types(ss@.subrange(0, j as int)),
            forall|k: int| 0 <= k < options@.len() ==> #[trigger] options@[k].label@
                == option_label_spec(options@[k].field_type, *type_system),
        decreases ss@.len() - j,
    {
        push_option(&mut options, FieldType::CustomStruct(ss[j].id), type_system);
        proof {
            assert(struct_option_types(ss@.subrange(0, j + 1)) =~= struct_option_types(
                ss@.subrange(0, j as int)).push(FieldType::CustomStruct(ss@[j as int].id)));
            assert(with_enums + struct_option_types(ss@.subrange(0, j + 1)) =~= (with_enums
                + struct_option_types(ss@.subrange(0, j as int))).push(FieldType::CustomStruct(ss@[j as int].id)));
        }
        j = j + 1;
    }
    proof {
        assert(ss@.subrange(0, ss@.len() as int) =~= ss@);
    }
    if let Some(t) = selected_type {
        let ghost base = option_types(options@);
        let mut found = false;
        let mut q: usize = 0;
        while q < options.len()
            invariant
                q <= options@.len(),
                base == option_types(options@),
                found == exists|k: int| 0 <= k < q && base[k] == t,
            decreases options@.len() - q,
        {
            if options[q].field_type == t {
                found = true;
            }
            proof {
                assert(base[q as int] == options@[q as int].field_type);
            }
            q = q + 1;
        }
        proof {
            if found {
                let k = choose|k: int| 0 <= k < q && base[k] == t;
                assert(base.contains(t));
            } else {
                assert(!base.contains(t));
            }
        }
        if !found {
            push_option(&mut options, t, type_system);
        }
    }
    options
}

/// The type a field currently has is always among the types its picker
/// offers, so the picker can show it as selected.
pub proof fn law_selected_type_is_offered(ts: TypeSystem, owning: u128, t: FieldType)
    ensures
        option_types_spec(ts, owning, Some(t)).contains(t),
{
    let base = primitive_types() + enum_option_types(ts.enums@, owning, Some(t)) + struct_option_types(ts.structs@);
    if !base.contains(t) {
        assert(base.push(t)[base.len() as int] == t);
    }
}

proof fn lemma_filter_keeps_all<A>(s: Seq<A>, pred: spec_fn(A) -> bool)
    requires
        forall|i: int| 0 <= i < s.len() ==> pred(#[trigger] s[i]),
    ensures
        s.filter(pred) == s,
    decreases s.len(),
{
    reveal(Seq::filter);
    if s.len() > 0 {
        let d = s.drop_last();
        assert forall|i: int| 0 <= i < d.len() implies pred(#[trigger] d[i]) by {
            assert(d[i] == s[i]);
        }
        lemma_filter_keeps_all(d, pred);
        assert(pred(s[s.len() - 1]));
        assert(d.push(s.last()) =~= s);
    }
}

/// Whether one of `states` belongs to the struct `id`.
pub open spec fn has_struct_state_id(states: Seq<StructStateV>, id: u128) -> bool {
    exists|k: int| 0 <= k < states.len() && states[k].struct_id == id
}

/// Whether one of `states` belongs to the enum `id`.
pub open spec fn has_enum_state_id(states: Seq<EnumStateV>, id: u128) -> bool {
    exists|k: int| 0 <= k < states.len() && states[k].enum_id == id
}

proof fn lemma_add_struct_states_none_missing(states: Seq<StructStateV>, defs: Seq<StructDef>)
    requires
        forall|i: int| 0 <= i < defs.len() ==> has_struct_state_id(states, #[trigger] defs[i].id),
    ensures
        add_struct_states(states, defs) == states,
    decreases defs.len(),
{
    if defs.len() > 0 {
        let d = defs.drop_last();
        assert forall|i: int| 0 <= i < d.len() implies has_struct_state_id(states, #[trigger] d[i].id) by {
            assert(d[i] == defs[i]);
        }
        lemma_add_struct_states_none_missing(states, d);
        assert(has_struct_state_id(states, defs[defs.len() - 1].id));
    }
}

proof fn lemma_add_enum_states_none_missing(states: Seq<EnumStateV>, defs: Seq<EnumDef>)
    requires
        forall|i: int| 0 <= i < defs.len() ==> has_enum_state_id(states, #[trigger] defs[i].id),
    ensures
        add_enum_states(states, defs) == states,
    decreases defs.len(),
{
    if defs.len() > 0 {
        let d = defs.drop_last();
        assert forall|i: int| 0 <= i < d.len() implies has_enum_state_id(states, #[trigger] d[i].id) by {
            assert(d[i] == defs[i]);
        }
        lemma_add_enum_states_none_missing(states, d);
        assert(has_enum_state_id(states, defs[defs.len() - 1].id));
    }
}

proof fn lemma_refresh_enum_state_twice(s: EnumStateV, ts: TypeSystem)
    ensures
        refresh_enum_state(refresh_enum_state(s, ts), ts) == refresh_enum_state(s, ts),
{
    if let Some(d) = enum_by_id(ts.enums@, s.enum_id) {
        let r = refresh_enum_state(s, ts);
        assert(synced_field_names(r.new_variant_field_names, d.variants@) =~= r.new_variant_field_names);
        assert(synced_field_types(r.new_variant_field_types, d.variants@) =~= r.new_variant_field_types);
    }
}

/// Syncing the struct panel a second time, with the same types, changes
/// nothing.
pub proof fn law_struct_sync_is_idempotent(states: Seq<StructStateV>, ts: TypeSystem)
    ensures
        struct_sync_spec(struct_sync_spec(states, ts), ts) == struct_sync_spec(states, ts),
{
    let r = struct_sync_spec(states, ts);
    law_struct_sync_matches_structs(states, ts);
    let pred = |s: StructStateV| struct_by_id(ts.structs@, s.struct_id) is Some;
    lemma_filter_keeps_all(r, pred);
    assert forall|i: int| 0 <= i < ts.structs@.len() implies has_struct_state_id(r, #[trigger] ts.structs@[i].id) by {
        let k = choose|k: int| 0 <= k < r.len() && #[trigger] r[k].struct_id == ts.structs@[i].id;
    }
    lemma_add_struct_states_none_missing(r, ts.structs@);
    let r2 = struct_sync_spec(r, ts);
    assert forall|k: int| 0 <= k < r.len() implies #[trigger] r2[k] == r[k] by {
        let a = add_struct_states(
            states.filter(|s: StructStateV| struct_by_id(ts.structs@, s.struct_id) is Some),
            ts.structs@,
        );
        assert(r[k] == refresh_struct_state(a[k], ts));
    }
    assert(r2 =~= r);
}

/// Syncing the enum panel a second time, with the same types, changes
/// nothing.
pub proof fn law_enum_sync_is_idempotent(states: Seq<EnumStateV>, ts: TypeSystem)
    ensures
        enum_sync_spec(enum_sync_spec(states, ts), ts) == enum_sync_spec(states, ts),
{
    let r = enum_sync_spec(states, ts);
    law_enum_sync_matches_enums(states, ts);
    let pred = |s: EnumStateV| enum_by_id(ts.enums@, s.enum_id) is Some;
    lemma_filter_keeps_all(r, pred);
    assert forall|i: int| 0 <= i < ts.enums@.len() implies has_enum_state_id(r, #[trigger] ts.enums@[i].id) by {
        let k = choose|k: int| 0 <= k < r.len() && #[trigger] r[k].enum_id == ts.enums@[i].id;
    }
    lemma_add_enum_states_none_missing(r, ts.enums@);
    let r2 = enum_sync_spec(r, ts);
    assert forall|k: int| 0 <= k < r.len() implies #[trigger] r2[k] == r[k] by {
        let a = add_enum_states(
            states.filter(|s: EnumStateV| enum_by_id(ts.enums@, s.enum_id) is Some),
            ts.enums@,
        );
        assert(r[k] == refresh_enum_state(a[k], ts));
        lemma_refresh_enum_state_twice(a[k], ts);
    }
    assert(r2 =~= r);
}

} // verus!
