//! The views of a project, kept in identifier order, and the edits of the
//! views panel: add, select, remove, rename, and the custom state fields of a
//! view.

use vstd::prelude::*;
use crate::ids::fresh_id;
use crate::values::{ActionValue, ActionValueType, ValueV, ValueTypeV};
use crate::widgets::{WidgetHierarchy, WidgetType};

verus! {

/// A type a custom state field can have, as the type system describes it:
/// its label, the value type actions see, and the default expression a new
/// field of the type starts with.
#[derive(Debug)]
pub struct CustomFieldType {
    pub label: String,
    pub value_type: ActionValueType,
    pub default_expr: String,
}

/// A state field the user added to a view.
#[derive(Debug)]
pub struct CustomStateField {
    pub id: u128,
    pub name: String,
    pub display_name: String,
    pub field_type: CustomFieldType,
    pub default_expr: String,
}

/// The key of a runtime state value kept by a view.
#[derive(Debug)]
pub enum StateKey {
    /// A custom state field, by its id.
    Custom(u128),
    /// The selection field (by name) of a view reference of `view_id`.
    ViewSelection { view_id: u128, field_name: String },
    /// The target chosen for a view reference widget of `view_id`.
    ViewReferenceSelection { view_id: u128, widget_id: u64 },
    /// Whether a generic overlay of `view_id` is open.
    GenericOverlayOpen { view_id: u128, widget_id: u64 },
    /// Whether a date picker of `view_id` is open.
    DatePickerOpen { view_id: u128, widget_id: u64 },
}

/// Mathematical form of a [`StateKey`].
pub enum KeyV {
    Custom(u128),
    ViewSelection { view_id: u128, field_name: Seq<char> },
    ViewReferenceSelection { view_id: u128, widget_id: u64 },
    GenericOverlayOpen { view_id: u128, widget_id: u64 },
    DatePickerOpen { view_id: u128, widget_id: u64 },
}

impl View for StateKey {
    type V = KeyV;

    open spec fn view(&self) -> KeyV {
        match self {
            StateKey::Custom(id) => KeyV::Custom(*id),
            StateKey::ViewSelection { view_id, field_name } => KeyV::ViewSelection {
                view_id: *view_id,
                field_name: field_name@,
            },
            StateKey::ViewReferenceSelection { view_id, widget_id } => KeyV::ViewReferenceSelection {
                view_id: *view_id,
                widget_id: *widget_id,
            },
            StateKey::GenericOverlayOpen { view_id, widget_id } => KeyV::GenericOverlayOpen {
                view_id: *view_id,
                widget_id: *widget_id,
            },
            StateKey::DatePickerOpen { view_id, widget_id } => KeyV::DatePickerOpen {
                view_id: *view_id,
                widget_id: *widget_id,
            },
        }
    }
}

/// Whether two state keys are the same.
pub fn state_key_eq(a: &StateKey, b: &StateKey) -> (r: bool)
    ensures
        r == (a@ == b@),
{
    match (a, b) {
        (StateKey::Custom(x), StateKey::Custom(y)) => *x == *y,
        (
            StateKey::ViewSelection { view_id: va, field_name: fa },
            StateKey::ViewSelection { view_id: vb, field_name: fb },
        ) => *va == *vb && *fa == *fb,
        (
            StateKey::ViewReferenceSelection { view_id: va, widget_id: wa },
            StateKey::ViewReferenceSelection { view_id: vb, widget_id: wb },
        ) => *va == *vb && *wa == *wb,
        (
            StateKey::GenericOverlayOpen { view_id: va, widget_id: wa },
            StateKey::GenericOverlayOpen { view_id: vb, widget_id: wb },
        ) => *va == *vb && *wa == *wb,
        (
            StateKey::DatePickerOpen { view_id: va, widget_id: wa },
            StateKey::DatePickerOpen { view_id: vb, widget_id: wb },
        ) => *va == *vb && *wa == *wb,
        _ => false,
    }
}

/// One runtime state value of a view.
#[derive(Debug)]
pub struct StateEntry {
    pub key: StateKey,
    pub value: ActionValue,
}

/// The value kept under `key`: that of the first entry with the key.
pub open spec fn state_value_spec(entries: Seq<StateEntry>, key: KeyV) -> Option<ValueV>
    decreases entries.len(),
{
    if entries.len() == 0 {
        None
    } else if entries[0].key@ == key {
        Some(entries[0].value@)
    } else {
        state_value_spec(entries.drop_first(), key)
    }
}

/// The value a view keeps under `key`, if any.
pub fn state_value<'a>(entries: &'a Vec<StateEntry>, key: &StateKey) -> (r: Option<&'a ActionValue>)
    ensures
        match r {
            Some(v) => state_value_spec(entries@, key@) == Some(v@),
            None => state_value_spec(entries@, key@) is None,
        },
{
    let mut i: usize = 0;
    proof {
        assert(entries@.subrange(0, entries@.len() as int) =~= entries@);
    }
    while i < entries.len()
        invariant
            i <= entries@.len(),
            state_value_spec(entries@, key@) == state_value_spec(
                entries@.subrange(i as int, entries@.len() as int), key@),
        decreases entries@.len() - i,
    {
        proof {
            let rest = entries@.subrange(i as int, entries@.len() as int);
            assert(rest[0] == entries@[i as int]);
            assert(rest.drop_first() =~= entries@.subrange(i + 1, entries@.len() as int));
        }
        if state_key_eq(&entries[i].key, key) {
            return Some(&entries[i].value);
        }
        i = i + 1;
    }
    None
}

/// One view of the app: a named widget tree with its own state.
#[derive(Debug)]
pub struct AppView {
    pub id: u128,
    pub name: String,
    /// Position in the order views were added.
    pub order: usize,
    /// Whether the app starts on this view.
    pub is_main: bool,
    /// Whether the preview outlines widget bounds.
    pub show_widget_bounds: bool,
    pub hierarchy: WidgetHierarchy,
    pub custom_state: Vec<CustomStateField>,
    pub custom_state_values: Vec<StateEntry>,
}

impl AppView {
    /// A view with the given id, name and order, with a bare container as
    /// its widget tree and no state; the view of order 0 is the main view.
    pub fn with_id(id: u128, name: String, order: usize) -> (v: Self)
        ensures
            v.id == id,
            v.name@ == name@,
            v.order == order,
            v.is_main == (order == 0),
            !v.show_widget_bounds,
            v.hierarchy.wf(),
            v.hierarchy.widgets@.len() == 1,
            v.hierarchy.widgets@[0].id == 0,
            v.hierarchy.widgets@[0].widget_type == WidgetType::Container,
            v.custom_state@.len() == 0,
            v.custom_state_values@.len() == 0,
    {
        AppView {
            id,
            name,
            order,
            is_main: order == 0,
            show_widget_bounds: false,
            hierarchy: WidgetHierarchy::new(WidgetType::Container),
            custom_state: Vec::new(),
            custom_state_values: Vec::new(),
        }
    }

    /// A view as [`AppView::with_id`] makes it, under a new random id.
    pub fn new(name: String, order: usize) -> (v: Self)
        ensures
            v.name@ == name@,
            v.order == order,
            v.is_main == (order == 0),
            !v.show_widget_bounds,
            v.hierarchy.wf(),
            v.custom_state@.len() == 0,
            v.custom_state_values@.len() == 0,
    {
        AppView::with_id(fresh_id(), name, order)
    }
}

/// Whether the views are in strictly increasing id order.
pub open spec fn ids_increasing(vs: Seq<AppView>) -> bool {
    forall|i: int, j: int| 0 <= i < j < vs.len() ==> vs[i].id < vs[j].id
}

/// Whether a view with `id` is among `vs`.
pub open spec fn has_view(vs: Seq<AppView>, id: u128) -> bool {
    exists|i: int| 0 <= i < vs.len() && vs[i].id == id
}

/// The position of the view with `id` among `vs` (meaningful when there is
/// one).
pub open spec fn view_pos(vs: Seq<AppView>, id: u128) -> int {
    choose|i: int| 0 <= i < vs.len() && vs[i].id == id
}

/// Whether `p` is where a view with `id` goes in an id-ordered list: after
/// the ids below it, before the others.
pub open spec fn is_insert_pos(vs: Seq<AppView>, id: u128, p: int) -> bool {
    &&& 0 <= p <= vs.len()
    &&& forall|j: int| 0 <= j < p ==> vs[j].id < id
    &&& forall|j: int| p <= j < vs.len() ==> vs[j].id >= id
}

/// The position [`is_insert_pos`] names.
pub open spec fn insert_pos(vs: Seq<AppView>, id: u128) -> int {
    choose|p: int| #[trigger] is_insert_pos(vs, id, p)
}

/// The views after putting `v` under its id.
pub open spec fn insert_spec(vs: Seq<AppView>, v: AppView) -> Seq<AppView> {
    if has_view(vs, v.id) {
        vs.update(view_pos(vs, v.id), v)
    } else {
        vs.insert(insert_pos(vs, v.id), v)
    }
}

/// The views of a project, keyed by id and walked in id order.
pub struct ViewMap {
    views: Vec<AppView>,
}

impl View for ViewMap {
    type V = Seq<AppView>;

    closed spec fn view(&self) -> Seq<AppView> {
        self.views@
    }
}

impl ViewMap {
    /// The map's invariant: ids strictly increase along the list.
    pub open spec fn wf(&self) -> bool {
        ids_increasing(self@)
    }

    /// No views.
    pub fn new() -> (m: Self)
        ensures
            m.wf(),
            m@.len() == 0,
    {
        ViewMap { views: Vec::new() }
    }

    /// The number of views.
    pub fn len(&self) -> (n: usize)
        ensures
            n == self@.len(),
    {
        self.views.len()
    }

    /// The views in id order.
    pub fn as_vec(&self) -> (v: &Vec<AppView>)
        ensures
            v@ == self@,
    {
        &self.views
    }

    /// The position of the view with `id`, if there is one.
    pub fn position(&self, id: u128) -> (r: Option<usize>)
        requires
            self.wf(),
        ensures
            r is None <==> !has_view(self@, id),
            r matches Some(i) ==> i < self@.len() && self@[i as int].id == id && i == view_pos(self@, id),
    {
        let mut i: usize = 0;
        while i < self.views.len()
            invariant
                self.wf(),
                i <= self@.len(),
                forall|j: int| 0 <= j < i ==> self@[j].id != id,
            decreases self@.len() - i,
        {
            if self.views[i].id == id {
                proof {
                    let k = view_pos(self@, id);
                    assert(0 <= k < self@.len() && self@[k].id == id);
                    if k > i as int {
                        assert(self@[i as int].id < self@[k].id);
                    }
                }
                return Some(i);
            }
            i = i + 1;
        }
        None
    }

    /// Whether a view with `id` exists.
    pub fn contains_key(&self, id: u128) -> (b: bool)
        requires
            self.wf(),
        ensures
            b == has_view(self@, id),
    {
        self.position(id).is_some()
    }

    /// The view with `id`, if there is one.
    pub fn get(&self, id: u128) -> (r: Option<&AppView>)
        requires
            self.wf(),
        ensures
            r is None <==> !has_view(self@, id),
            r matches Some(v) ==> *v == self@[view_pos(self@, id)] && v.id == id,
    {
        match self.position(id) {
            Some(i) => Some(&self.views[i]),
            None => None,
        }
    }

    /// Puts `view` under its id, replacing the view that had that id.
    pub fn insert(&mut self, view: AppView)
        requires
            old(self).wf(),
        ensures
            final(self).wf(),
            final(self)@ == insert_spec(old(self)@, view),
            has_view(final(self)@, view.id),
            final(self)@[view_pos(final(self)@, view.id)] == view,
            forall|k: u128| #[trigger] has_view(final(self)@, k) <==> (has_view(old(self)@, k) || k == view.id),
            forall|k: u128| k != view.id && #[trigger] has_view(old(self)@, k) ==>
                final(self)@[view_pos(final(self)@, k)] == old(self)@[view_pos(old(self)@, k)],
            final(self)@.len() == old(self)@.len() + (if has_view(old(self)@, view.id) { 0int } else { 1int }),
    {
        let ghost vs = self@;
        let ghost gv = view;
        let id = view.id;
        let mut p: usize = 0;
        while p < self.views.len() && self.views[p].id < id
            invariant
                p <= vs.len(),
                self@ == vs,
                forall|j: int| 0 <= j < p ==> vs[j].id < id,
            decreases vs.len() - p,
        {
            p = p + 1;
        }
        proof {
            if p < vs.len() {
                assert forall|j: int| p <= j < vs.len() implies vs[j].id >= id by {
                    if j > p as int {
                        assert(vs[p as int].id < vs[j].id);
                    }
                }
            }
            assert(is_insert_pos(vs, id, p as int));
            let q = insert_pos(vs, id);
            assert(is_insert_pos(vs, id, q));
            if q < p as int {
                assert(vs[q].id >= id);
            }
            if q > p as int {
                assert(vs[p as int].id < id);
            }
        }
        if p < self.views.len() && self.views[p].id == id {
            self.views.set(p, view);
            proof {
                let ns = self@;
                assert(ns =~= vs.update(p as int, gv));
                assert forall|k: u128| #[trigger] has_view(ns, k) <==> (has_view(vs, k) || k == id) by {
                    if has_view(vs, k) {
                        let i = view_pos(vs, k);
                        assert(ns[i].id == k);
                    }
                    if has_view(ns, k) {
                        let i = view_pos(ns, k);
                        if i != p as int {
                            assert(vs[i].id == k);
                        }
                    }
                }
                assert(ns[p as int].id == id);
                assert(view_pos(ns, id) == p as int);
                assert forall|k: u128| k != id && #[trigger] has_view(vs, k) implies
                    ns[view_pos(ns, k)] == vs[view_pos(vs, k)] by {
                    let i = view_pos(vs, k);
                    assert(ns[i].id == k);
                    assert(view_pos(ns, k) == i);
                }
            }
        } else {
            self.views.insert(p, view);
            proof {
                let ns = self@;
                assert(ns =~= vs.insert(p as int, gv));
                assert forall|a: int, b: int| 0 <= a < b < ns.len() implies ns[a].id < ns[b].id by {
                    if b < p as int {
                    } else if b == p as int {
                    } else if a < p as int {
                        assert(ns[b] == vs[b - 1]);
                        assert(vs[b - 1].id >= id);
                    } else if a == p as int {
                        assert(ns[b] == vs[b - 1]);
                        if b - 1 > p as int {
                            assert(vs[p as int].id < vs[b - 1].id);
                        }
                    } else {
                        assert(ns[a] == vs[a - 1]);
                        assert(ns[b] == vs[b - 1]);
                    }
                }
                assert(!has_view(vs, id)) by {
                    if has_view(vs, id) {
                        let i = view_pos(vs, id);
                        if i < p as int {
                        } else if i > p as int {
                            assert(vs[p as int].id < vs[i].id);
                        }
                    }
                }
                assert forall|k: u128| #[trigger] has_view(ns, k) <==> (has_view(vs, k) || k == id) by {
                    if has_view(vs, k) {
                        let i = view_pos(vs, k);
                        if i < p as int {
                            assert(ns[i].id == k);
                        } else {
                            assert(ns[i + 1].id == k);
                        }
                    }
                    if k == id {
                        assert(ns[p as int].id == k);
                    }
                    if has_view(ns, k) {
                        let i = view_pos(ns, k);
                        if i < p as int {
                            assert(vs[i].id == k);
                        } else if i > p as int {
                            assert(vs[i - 1].id == k);
                        }
                    }
                }
                assert(ns[p as int].id == id);
                assert(view_pos(ns, id) == p as int);
                assert forall|k: u128| k != id && #[trigger] has_view(vs, k) implies
                    ns[view_pos(ns, k)] == vs[view_pos(vs, k)] by {
                    let i = view_pos(vs, k);
                    if i < p as int {
                        assert(ns[i].id == k);
                        assert(view_pos(ns, k) == i);
                    } else {
                        assert(ns[i + 1].id == k);
                        assert(view_pos(ns, k) == i + 1);
                    }
                }
            }
        }
    }
}

} // verus!

verus! {

/// Whether some view is the main view.
pub open spec fn has_main(vs: Seq<AppView>) -> bool {
    exists|i: int| 0 <= i < vs.len() && vs[i].is_main
}

/// Whether view `j` takes part in a pick: every view, or only the main
/// views when `only_main`.
pub open spec fn in_pick(vs: Seq<AppView>, only_main: bool, j: int) -> bool {
    !only_main || vs[j].is_main
}

/// Whether `r` is the first view (in id order) of least order among those
/// taking part in the pick.
pub open spec fn is_first_min(vs: Seq<AppView>, only_main: bool, r: int) -> bool {
    &&& 0 <= r < vs.len()
    &&& in_pick(vs, only_main, r)
    &&& forall|j: int| 0 <= j < vs.len() && #[trigger] in_pick(vs, only_main, j) ==> vs[r].order <= vs[j].order
    &&& forall|j: int| 0 <= j < r && #[trigger] in_pick(vs, only_main, j) ==> vs[j].order > vs[r].order
}

/// The view [`is_first_min`] names.
pub open spec fn first_min(vs: Seq<AppView>, only_main: bool) -> int {
    choose|r: int| #[trigger] is_first_min(vs, only_main, r)
}

/// At most one view is the first of least order.
pub proof fn lemma_first_min_unique(vs: Seq<AppView>, only_main: bool, a: int, b: int)
    requires
        is_first_min(vs, only_main, a),
        is_first_min(vs, only_main, b),
    ensures
        a == b,
{
    assert(in_pick(vs, only_main, a) && in_pick(vs, only_main, b));
}

/// The view that stays (or becomes) the main one: the first main view of
/// least order, or, with no main view, the first view of least order.
pub open spec fn main_pick(vs: Seq<AppView>) -> int {
    first_min(vs, has_main(vs))
}

/// The views with only view `r` marked main.
pub open spec fn with_main_at(vs: Seq<AppView>, r: int) -> Seq<AppView> {
    Seq::new(vs.len(), |j: int| AppView { is_main: j == r, ..vs[j] })
}

/// The views after making sure exactly one is the main view (no change to
/// an empty list).
pub open spec fn single_main_spec(vs: Seq<AppView>) -> Seq<AppView> {
    if vs.len() == 0 { vs } else { with_main_at(vs, main_pick(vs)) }
}

/// The first view of least order among those taking part in the pick, if
/// any takes part.
fn first_min_index(vs: &Vec<AppView>, only_main: bool) -> (r: Option<usize>)
    ensures
        r matches Some(i) ==> i == first_min(vs@, only_main) && is_first_min(vs@, only_main, i as int),
        r is None <==> forall|j: int| 0 <= j < vs@.len() ==> !#[trigger] in_pick(vs@, only_main, j),
{
    let mut r: usize = 0;
    let mut found = false;
    let mut i: usize = 0;
    while i < vs.len()
        invariant
            i <= vs@.len(),
            found ==> r < i,
            found ==> in_pick(vs@, only_main, r as int),
            found ==> forall|j: int| 0 <= j < i && #[trigger] in_pick(vs@, only_main, j) ==> vs@[r as int].order <= vs@[j].order,
            found ==> forall|j: int| 0 <= j < r && #[trigger] in_pick(vs@, only_main, j) ==> vs@[j].order > vs@[r as int].order,
            !found ==> forall|j: int| 0 <= j < i ==> !#[trigger] in_pick(vs@, only_main, j),
        decreases vs@.len() - i,
    {
        if !only_main || vs[i].is_main {
            if !found || vs[i].order < vs[r].order {
                r = i;
                found = true;
            }
        }
        i = i + 1;
    }
    if found {
        proof {
            assert(is_first_min(vs@, only_main, r as int));
            lemma_first_min_unique(vs@, only_main, r as int, first_min(vs@, only_main));
        }
        Some(r)
    } else {
        None
    }
}

/// Whether any view is the main view.
fn any_main(vs: &Vec<AppView>) -> (b: bool)
    ensures
        b == has_main(vs@),
{
    let mut i: usize = 0;
    while i < vs.len()
        invariant
            i <= vs@.len(),
            forall|j: int| 0 <= j < i ==> !vs@[j].is_main,
        decreases vs@.len() - i,
    {
        if vs[i].is_main {
            return true;
        }
        i = i + 1;
    }
    false
}

impl ViewMap {
    /// Sets whether view `i` is the main view.
    fn set_main_flag(&mut self, i: usize, is_main: bool)
        requires
            old(self).wf(),
            i < old(self)@.len(),
        ensures
            final(self).wf(),
            final(self)@ == old(self)@.update(i as int, (AppView { is_main, ..old(self)@[i as int] })),
    {
        let mut v = self.views.remove(i);
        v.is_main = is_main;
        self.views.insert(i, v);
        proof {
            assert(self@ =~= old(self)@.update(i as int, AppView { is_main, ..old(self)@[i as int] }));
        }
    }

    /// Removes the view with `id`, if there is one.
    fn remove_key(&mut self, id: u128)
        requires
            old(self).wf(),
        ensures
            final(self).wf(),
            final(self)@ == (if has_view(old(self)@, id) {
                old(self)@.remove(view_pos(old(self)@, id))
            } else {
                old(self)@
            }),
    {
        if let Some(i) = self.position(id) {
            self.views.remove(i);
        }
    }
}

/// Makes sure exactly one view is the main view: with several, the first of
/// least order keeps the mark; with none, the first view of least order
/// gets it.
pub fn ensure_single_main_view(views: &mut ViewMap)
    requires
        old(views).wf(),
    ensures
        final(views).wf(),
        final(views)@ == single_main_spec(old(views)@),
{
    let ghost vs = views@;
    let n = views.len();
    if n == 0 {
        return;
    }
    let only_main = any_main(views.as_vec());
    let pick = first_min_index(views.as_vec(), only_main);
    let r = match pick {
        Some(r) => r,
        None => {
            proof {
                if only_main {
                    let k = choose|k: int| 0 <= k < vs.len() && vs[k].is_main;
                    assert(in_pick(vs, only_main, k));
                } else {
                    assert(in_pick(vs, only_main, 0));
                }
            }
            return;
        },
    };
    let mut i: usize = 0;
    while i < n
        invariant
            views.wf(),
            n == vs.len(),
            r < n,
            views@.len() == n,
            forall|j: int| 0 <= j < i ==> #[trigger] views@[j] == (AppView { is_main: j == r as int, ..vs[j] }),
            forall|j: int| i <= j < n ==> #[trigger] views@[j] == vs[j],
        decreases n - i,
    {
        views.set_main_flag(i, i == r);
        i = i + 1;
    }
    proof {
        assert(views@ =~= with_main_at(vs, r as int));
    }
}

} // verus!

verus! {

/// An edit of the views panel.
#[derive(Debug)]
pub enum Message {
    AddView,
    ViewSelected(u128),
    RemoveView(u128),
    RenameView(u128, String),
    ToggleExplain(u128),
    /// Adds a custom state field to the view.
    AddCustomStateField(u128),
    /// Removes a custom state field (view id, field id).
    RemoveCustomStateField(u128, u128),
    SetCustomFieldName(u128, u128, String),
    SetCustomFieldType(u128, u128, CustomFieldType),
    SetCustomFieldDefault(u128, u128, String),
}

/// The type a new custom field starts with: `String`, defaulting to an
/// empty string.
pub fn default_custom_field_type() -> (t: CustomFieldType)
    ensures
        t.label@ == "String"@,
        t.value_type@ == ValueTypeV::String,
        t.default_expr@ == "String::new()"@,
{
    let t = CustomFieldType {
        label: "String".to_string(),
        value_type: ActionValueType::String,
        default_expr: "String::new()".to_string(),
    };
    t
}

/// The position of the first field with `field_id`, if any.
pub open spec fn is_first_field(fs: Seq<CustomStateField>, field_id: u128, k: int) -> bool {
    &&& 0 <= k < fs.len()
    &&& fs[k].id == field_id
    &&& forall|j: int| 0 <= j < k ==> fs[j].id != field_id
}

/// Whether some field has `field_id`.
pub open spec fn has_field(fs: Seq<CustomStateField>, field_id: u128) -> bool {
    exists|k: int| 0 <= k < fs.len() && fs[k].id == field_id
}

fn first_field(fs: &Vec<CustomStateField>, field_id: u128) -> (r: Option<usize>)
    ensures
        r matches Some(k) ==> is_first_field(fs@, field_id, k as int),
        r is None <==> !has_field(fs@, field_id),
{
    let mut i: usize = 0;
    while i < fs.len()
        invariant
            i <= fs@.len(),
            forall|j: int| 0 <= j < i ==> fs@[j].id != field_id,
        decreases fs@.len() - i,
    {
        if fs[i].id == field_id {
            return Some(i);
        }
        i = i + 1;
    }
    None
}

/// The views differ only in the view with `id`, which keeps its id (none
/// differs when there is no such view).
pub open spec fn only_view_edited(old: Seq<AppView>, new: Seq<AppView>, id: u128) -> bool {
    &&& new.len() == old.len()
    &&& forall|j: int| 0 <= j < old.len() ==> #[trigger] new[j].id == old[j].id
    &&& forall|j: int| 0 <= j < old.len() && old[j].id != id ==> new[j] == old[j]
    &&& !has_view(old, id) ==> new == old
}

/// The edited view before and after, at the position of `id`.
pub open spec fn before(old: Seq<AppView>, id: u128) -> AppView {
    old[view_pos(old, id)]
}

/// The fields of a view differ only in the first field with `field_id`,
/// which keeps its id (none differs when there is no such field).
pub open spec fn only_field_edited(old: Seq<CustomStateField>, new: Seq<CustomStateField>, field_id: u128) -> bool {
    &&& new.len() == old.len()
    &&& forall|j: int| 0 <= j < old.len() ==> #[trigger] new[j].id == old[j].id
    &&& forall|j: int| 0 <= j < old.len() && !is_first_field(old, field_id, j) ==> new[j] == old[j]
}

/// What an edit of a custom field does to the field, given the field
/// before (`f0`) and after (`f1`).
pub open spec fn field_edit_ok(msg: Message, f0: CustomStateField, f1: CustomStateField) -> bool {
    match msg {
        Message::SetCustomFieldName(_, _, name) => f1 == (CustomStateField {
            name,
            display_name: f1.display_name,
            ..f0
        }) && f1.display_name@ == crate::naming::replace_char(name@, '_', ' '),
        Message::SetCustomFieldType(_, _, t) => f1 == (CustomStateField {
            field_type: t,
            default_expr: f1.default_expr,
            ..f0
        }) && f1.default_expr@ == t.default_expr@,
        Message::SetCustomFieldDefault(_, _, expr) => f1 == (CustomStateField { default_expr: expr, ..f0 }),
        _ => false,
    }
}

/// The views after `msg` edited the first field with `field_id` of the view
/// `view_id` (see [`field_edit_ok`]).
pub open spec fn field_edited(old: Seq<AppView>, new: Seq<AppView>, view_id: u128, field_id: u128, msg: Message) -> bool {
    &&& only_view_edited(old, new, view_id)
    &&& has_view(old, view_id) ==> {
        let v0 = before(old, view_id);
        let v1 = new[view_pos(old, view_id)];
        let fs0 = v0.custom_state@;
        let fs1 = v1.custom_state@;
        &&& v1 == (AppView { custom_state: v1.custom_state, ..v0 })
        &&& only_field_edited(fs0, fs1, field_id)
        &&& forall|k: int| is_first_field(fs0, field_id, k) ==> field_edit_ok(msg, fs0[k], fs1[k])
    }
}

/// The views and selection after an edit of the views panel; `new_id` is
/// the id a new view or field gets.
pub open spec fn update_spec(
    old: Seq<AppView>,
    old_sel: u128,
    new: Seq<AppView>,
    new_sel: u128,
    msg: Message,
    new_id: u128,
) -> bool {
    match msg {
        Message::ViewSelected(id) => new == old && new_sel == (if has_view(old, id) { id } else { old_sel }),
        Message::AddView => {
            let nv = new[view_pos(new, new_id)];
            &&& new_sel == new_id
            &&& has_view(new, new_id)
            &&& new == insert_spec(old, nv)
            &&& nv.id == new_id
            &&& nv.name@ == "New View"@
            &&& nv.order == old.len() + 1
            &&& !nv.is_main
            &&& !nv.show_widget_bounds
            &&& nv.hierarchy.wf()
            &&& nv.custom_state@.len() == 0
            &&& nv.custom_state_values@.len() == 0
        },
        Message::RemoveView(id) => if has_view(old, id) && old[view_pos(old, id)].is_main {
            new == old && new_sel == old_sel
        } else if old.len() > 1 {
            let rest = if has_view(old, id) { old.remove(view_pos(old, id)) } else { old };
            &&& new == single_main_spec(rest)
            &&& new_sel == (if id == old_sel && rest.len() > 0 { rest[first_min(rest, false)].id } else { old_sel })
        } else {
            new == old && new_sel == old_sel
        },
        Message::RenameView(id, name) => {
            &&& new_sel == old_sel
            &&& only_view_edited(old, new, id)
            &&& has_view(old, id) ==> new[view_pos(old, id)] == (AppView { name, ..before(old, id) })
        },
        Message::ToggleExplain(id) => {
            &&& new_sel == old_sel
            &&& only_view_edited(old, new, id)
            &&& has_view(old, id) ==> new[view_pos(old, id)] == (AppView {
                show_widget_bounds: !before(old, id).show_widget_bounds,
                ..before(old, id)
            })
        },
        Message::AddCustomStateField(view_id) => {
            &&& new_sel == old_sel
            &&& only_view_edited(old, new, view_id)
            &&& has_view(old, view_id) ==> {
                let v0 = before(old, view_id);
                let v1 = new[view_pos(old, view_id)];
                let fs = v0.custom_state@;
                let f = v1.custom_state@[fs.len() as int];
                &&& v1 == (AppView { custom_state: v1.custom_state, ..v0 })
                &&& v1.custom_state@ == fs.push(f)
                &&& f.id == new_id
                &&& f.name@ == "field_"@ + crate::naming::decimal_spec(fs.len() + 1)
                &&& f.display_name@ == f.name@
                &&& f.field_type.label@ == "String"@
                &&& f.field_type.value_type@ == ValueTypeV::String
                &&& f.field_type.default_expr@ == "String::new()"@
                &&& f.default_expr@ == "String::new()"@
            }
        },
        Message::RemoveCustomStateField(view_id, field_id) => {
            &&& new_sel == old_sel
            &&& only_view_edited(old, new, view_id)
            &&& has_view(old, view_id) ==> {
                let v0 = before(old, view_id);
                let v1 = new[view_pos(old, view_id)];
                &&& v1 == (AppView { custom_state: v1.custom_state, ..v0 })
                &&& v1.custom_state@ == v0.custom_state@.filter(|f: CustomStateField| f.id != field_id)
            }
        },
        Message::SetCustomFieldName(view_id, field_id, _) => new_sel == old_sel
            && field_edited(old, new, view_id, field_id, msg),
        Message::SetCustomFieldType(view_id, field_id, _) => new_sel == old_sel
            && field_edited(old, new, view_id, field_id, msg),
        Message::SetCustomFieldDefault(view_id, field_id, _) => new_sel == old_sel
            && field_edited(old, new, view_id, field_id, msg),
    }
}

} // verus!

verus! {

impl ViewMap {
    /// Takes the view at `i` out for an edit; [`ViewMap::put_back`] returns it.
    pub(crate) fn take_at(&mut self, i: usize) -> (v: AppView)
        requires
            old(self).wf(),
            i < old(self)@.len(),
        ensures
            final(self).wf(),
            v == old(self)@[i as int],
            final(self)@ == old(self)@.remove(i as int),
    {
        self.views.remove(i)
    }

    /// Puts an edited view back where it was taken from.
    pub(crate) fn put_back(&mut self, i: usize, v: AppView, Ghost(orig): Ghost<Seq<AppView>>)
        requires
            ids_increasing(orig),
            i < orig.len(),
            old(self)@ == orig.remove(i as int),
            v.id == orig[i as int].id,
        ensures
            final(self).wf(),
            final(self)@ == orig.update(i as int, v),
    {
        self.views.insert(i, v);
        proof {
            assert(self@ =~= orig.update(i as int, v));
        }
    }
}

/// Makes `id` the selected view when it exists.
fn select_view(views: &ViewMap, selected: &mut u128, id: u128)
    requires
        views.wf(),
    ensures
        *final(selected) == (if has_view(views@, id) { id } else { *old(selected) }),
{
    if views.contains_key(id) {
        *selected = id;
    }
}

/// Adds a view named "New View" under `new_id`, ordered after the others,
/// and selects it.
pub fn add_view_with_id(views: &mut ViewMap, selected: &mut u128, new_id: u128)
    requires
        old(views).wf(),
        old(views)@.len() < usize::MAX,
    ensures
        final(views).wf(),
        update_spec(old(views)@, *old(selected), final(views)@, *final(selected), Message::AddView, new_id),
{
    let order = views.len() + 1;
    let v = AppView::with_id(new_id, "New View".to_string(), order);
    let ghost gv = v;
    views.insert(v);
    *selected = new_id;
    proof {
        assert(views@[view_pos(views@, new_id)] == gv);
    }
}

/// Removes the view `id` unless it is the main view or the only view; when
/// it was selected, the first view of least order becomes selected; then
/// exactly one view is marked main.
pub fn remove_view(views: &mut ViewMap, selected: &mut u128, id: u128)
    requires
        old(views).wf(),
    ensures
        final(views).wf(),
        update_spec(old(views)@, *old(selected), final(views)@, *final(selected), Message::RemoveView(id), 0),
{
    match views.get(id) {
        Some(v) => {
            if v.is_main {
                return;
            }
        },
        None => {},
    }
    if views.len() > 1 {
        let removed_selected = id == *selected;
        views.remove_key(id);
        if removed_selected {
            if let Some(r) = first_min_index(views.as_vec(), false) {
                *selected = views.as_vec()[r].id;
            } else {
                proof {
                    if views@.len() > 0 {
                        assert(in_pick(views@, false, 0));
                    }
                }
            }
        }
        ensure_single_main_view(views);
    }
}

/// Renames the view `id`.
pub fn rename_view(views: &mut ViewMap, id: u128, name: String)
    requires
        old(views).wf(),
    ensures
        final(views).wf(),
        update_spec(old(views)@, 0, final(views)@, 0, Message::RenameView(id, name), 0),
{
    let ghost vs = views@;
    let ghost gname = name;
    if let Some(i) = views.position(id) {
        let mut v = views.take_at(i);
        v.name = name;
        views.put_back(i, v, Ghost(vs));
        proof {
            assert(view_pos(vs, id) == i as int);
            assert(views@[i as int] == (AppView { name: gname, ..vs[i as int] }));
        }
    }
}

/// Turns the widget-bounds outline of the view `id` on or off.
pub fn toggle_explain(views: &mut ViewMap, id: u128)
    requires
        old(views).wf(),
    ensures
        final(views).wf(),
        update_spec(old(views)@, 0, final(views)@, 0, Message::ToggleExplain(id), 0),
{
    let ghost vs = views@;
    if let Some(i) = views.position(id) {
        let mut v = views.take_at(i);
        v.show_widget_bounds = !v.show_widget_bounds;
        views.put_back(i, v, Ghost(vs));
    }
}

} // verus!

verus! {

/// Adds a custom state field "field_N" (N one past the number of fields) of
/// type `String` to the view `view_id`, under `field_id`.
pub fn add_custom_field(views: &mut ViewMap, view_id: u128, field_id: u128)
    requires
        old(views).wf(),
        forall|i: int| 0 <= i < old(views)@.len() ==> #[trigger] old(views)@[i].custom_state@.len() < u64::MAX,
    ensures
        final(views).wf(),
        update_spec(old(views)@, 0, final(views)@, 0, Message::AddCustomStateField(view_id), field_id),
{
    let ghost vs = views@;
    if let Some(i) = views.position(view_id) {
        let mut v = views.take_at(i);
        let ghost v0 = v;
        let idx = v.custom_state.len() as u64 + 1;
        let name = crate::naming::numbered("field_", idx);
        let display_name = name.clone();
        let f = CustomStateField {
            id: field_id,
            name,
            display_name,
            field_type: default_custom_field_type(),
            default_expr: "String::new()".to_string(),
        };
        v.custom_state.push(f);
        views.put_back(i, v, Ghost(vs));
        proof {
            assert(view_pos(vs, view_id) == i as int);
            assert(views@[i as int].custom_state@ =~= v0.custom_state@.push(views@[i as int].custom_state@[v0.custom_state@.len() as int]));
        }
    }
}

/// Removes every custom state field with `field_id` from the view `view_id`.
pub fn remove_custom_field(views: &mut ViewMap, view_id: u128, field_id: u128)
    requires
        old(views).wf(),
    ensures
        final(views).wf(),
        update_spec(old(views)@, 0, final(views)@, 0, Message::RemoveCustomStateField(view_id, field_id), 0),
{
    let ghost vs = views@;
    if let Some(i) = views.position(view_id) {
        let mut v = views.take_at(i);
        let ghost fs = v.custom_state@;
        let ghost pred = |f: CustomStateField| f.id != field_id;
        let mut rest: Vec<CustomStateField> = Vec::new();
        std::mem::swap(&mut rest, &mut v.custom_state);
        let mut kept: Vec<CustomStateField> = Vec::new();
        let mut k: usize = 0;
        let n = rest.len();
        while rest.len() > 0
            invariant
                pred == (|f: CustomStateField| f.id != field_id),
                n == fs.len(),
                rest@.len() + k == n,
                rest@ == fs.subrange(k as int, n as int),
                kept@ == fs.subrange(0, k as int).filter(pred),
            decreases rest@.len(),
        {
            let f = rest.remove(0);
            let ghost gf = f;
            let ghost s1 = fs.subrange(0, k + 1);
            proof {
                assert(gf == fs[k as int]);
                assert(s1.drop_last() =~= fs.subrange(0, k as int));
                assert(s1.last() == gf);
                assert(pred(gf) == (gf.id != field_id));
                reveal(Seq::filter);
                assert(s1.filter(pred) == (if pred(s1.last()) {
                    s1.drop_last().filter(pred).push(s1.last())
                } else {
                    s1.drop_last().filter(pred)
                }));
            }
            if f.id != field_id {
                kept.push(f);
            }
            k = k + 1;
            proof {
                assert(rest@ =~= fs.subrange(k as int, n as int));
                assert(kept@ =~= s1.filter(pred));
            }
        }
        proof {
            assert(fs.subrange(0, n as int) =~= fs);
        }
        v.custom_state = kept;
        views.put_back(i, v, Ghost(vs));
        proof {
            assert(view_pos(vs, view_id) == i as int);
        }
    }
}

} // verus!

verus! {

/// Whether `msg` edits one custom state field.
pub open spec fn is_field_edit(msg: Message) -> bool {
    msg is SetCustomFieldName || msg is SetCustomFieldType || msg is SetCustomFieldDefault
}

/// Applies an edit of one custom state field: a new name (its display name
/// is the name with `_` shown as spaces), a new type (the default
/// expression becomes the type's), or a new default expression. Only the
/// first field with the id changes.
pub fn edit_custom_field(views: &mut ViewMap, msg: Message)
    requires
        old(views).wf(),
        is_field_edit(msg),
    ensures
        final(views).wf(),
        update_spec(old(views)@, 0, final(views)@, 0, msg, 0),
{
    let ghost vs = views@;
    let ghost m = msg;
    let (view_id, field_id) = match &msg {
        Message::SetCustomFieldName(v, f, _) => (*v, *f),
        Message::SetCustomFieldType(v, f, _) => (*v, *f),
        Message::SetCustomFieldDefault(v, f, _) => (*v, *f),
        _ => (0, 0),
    };
    if let Some(i) = views.position(view_id) {
        let mut v = views.take_at(i);
        let ghost v0 = v;
        if let Some(k) = first_field(&v.custom_state, field_id) {
            let mut f = v.custom_state.remove(k);
            let ghost f0 = f;
            match msg {
                Message::SetCustomFieldName(_, _, name) => {
                    let cs = crate::naming::chars_of(name.as_str());
                    let rep = crate::naming::replace_chars(&cs, '_', ' ');
                    f.display_name = crate::naming::string_from_chars(&rep);
                    f.name = name;
                },
                Message::SetCustomFieldType(_, _, t) => {
                    f.default_expr = t.default_expr.clone();
                    f.field_type = t;
                },
                Message::SetCustomFieldDefault(_, _, expr) => {
                    f.default_expr = expr;
                },
                _ => {},
            }
            let ghost f1 = f;
            v.custom_state.insert(k, f);
            proof {
                assert(v.custom_state@ =~= v0.custom_state@.update(k as int, f1));
                assert(field_edit_ok(m, f0, f1));
                assert forall|j: int| is_first_field(v0.custom_state@, field_id, j) implies j == k as int by {
                    if j < k as int {
                    } else if j > k as int {
                    }
                }
            }
        }
        views.put_back(i, v, Ghost(vs));
        proof {
            assert(view_pos(vs, view_id) == i as int);
        }
    }
}

/// Applies an edit of the views panel; `new_id` is the id a new view or
/// field gets.
pub fn apply_message(views: &mut ViewMap, selected: &mut u128, msg: Message, new_id: u128)
    requires
        old(views).wf(),
        old(views)@.len() < usize::MAX,
        forall|i: int| 0 <= i < old(views)@.len() ==> #[trigger] old(views)@[i].custom_state@.len() < u64::MAX,
    ensures
        final(views).wf(),
        update_spec(old(views)@, *old(selected), final(views)@, *final(selected), msg, new_id),
{
    match msg {
        Message::AddView => add_view_with_id(views, selected, new_id),
        Message::ViewSelected(id) => select_view(views, selected, id),
        Message::RemoveView(id) => remove_view(views, selected, id),
        Message::RenameView(id, name) => rename_view(views, id, name),
        Message::ToggleExplain(id) => toggle_explain(views, id),
        Message::AddCustomStateField(view_id) => add_custom_field(views, view_id, new_id),
        Message::RemoveCustomStateField(view_id, field_id) => remove_custom_field(views, view_id, field_id),
        Message::SetCustomFieldName(..)
        | Message::SetCustomFieldType(..)
        | Message::SetCustomFieldDefault(..) => edit_custom_field(views, msg),
    }
}

/// Applies an edit of the views panel; a new view or field gets a new
/// random id.
pub fn update(views: &mut ViewMap, selected: &mut u128, msg: Message)
    requires
        old(views).wf(),
        old(views)@.len() < usize::MAX,
        forall|i: int| 0 <= i < old(views)@.len() ==> #[trigger] old(views)@[i].custom_state@.len() < u64::MAX,
    ensures
        final(views).wf(),
        exists|new_id: u128| update_spec(old(views)@, *old(selected), final(views)@, *final(selected), msg, new_id),
{
    let new_id = match &msg {
        Message::AddView | Message::AddCustomStateField(_) => fresh_id(),
        _ => 0,
    };
    apply_message(views, selected, msg, new_id);
}

} // verus!

verus! {

proof fn lemma_first_min_prefix(vs: Seq<AppView>, only_main: bool, n: int) -> (r: int)
    requires
        0 < n <= vs.len(),
        exists|j: int| 0 <= j < n && #[trigger] in_pick(vs, only_main, j),
    ensures
        0 <= r < n,
        in_pick(vs, only_main, r),
        forall|j: int| 0 <= j < n && #[trigger] in_pick(vs, only_main, j) ==> vs[r].order <= vs[j].order,
        forall|j: int| 0 <= j < r && #[trigger] in_pick(vs, only_main, j) ==> vs[j].order > vs[r].order,
    decreases n,
{
    if exists|j: int| 0 <= j < n - 1 && #[trigger] in_pick(vs, only_main, j) {
        let r0 = lemma_first_min_prefix(vs, only_main, n - 1);
        if in_pick(vs, only_main, n - 1) && vs[n - 1].order < vs[r0].order {
            n - 1
        } else {
            r0
        }
    } else {
        n - 1
    }
}

/// When some view takes part in a pick, the pick names one.
pub proof fn lemma_first_min_exists(vs: Seq<AppView>, only_main: bool)
    requires
        exists|j: int| 0 <= j < vs.len() && #[trigger] in_pick(vs, only_main, j),
    ensures
        is_first_min(vs, only_main, first_min(vs, only_main)),
{
    let r = lemma_first_min_prefix(vs, only_main, vs.len() as int);
    assert(is_first_min(vs, only_main, r));
}

/// Whether exactly one view is the main view.
pub open spec fn exactly_one_main(vs: Seq<AppView>) -> bool {
    &&& exists|i: int| 0 <= i < vs.len() && vs[i].is_main
    &&& forall|i: int, j: int| 0 <= i < vs.len() && 0 <= j < vs.len() && vs[i].is_main && vs[j].is_main ==> i == j
}

/// After [`ensure_single_main_view`] on views that are not empty, exactly
/// one view is the main view; it is a view that was main before when any
/// was; and views keep everything but the mark.
pub proof fn law_single_main(vs: Seq<AppView>)
    requires
        vs.len() > 0,
    ensures
        exactly_one_main(single_main_spec(vs)),
        has_main(vs) ==> vs[main_pick(vs)].is_main,
        single_main_spec(vs).len() == vs.len(),
        forall|j: int| 0 <= j < vs.len() ==> (AppView { is_main: vs[j].is_main, ..#[trigger] single_main_spec(vs)[j] }) == vs[j],
{
    let only = has_main(vs);
    if only {
        let k = choose|k: int| 0 <= k < vs.len() && vs[k].is_main;
        assert(in_pick(vs, only, k));
    } else {
        assert(in_pick(vs, only, 0));
    }
    lemma_first_min_exists(vs, only);
    let r = main_pick(vs);
    let out = single_main_spec(vs);
    assert(out[r].is_main);
}

/// Removing the main view is refused: the views and the selection stay as
/// they were.
pub proof fn law_main_view_is_never_removed(
    old: Seq<AppView>,
    old_sel: u128,
    new: Seq<AppView>,
    new_sel: u128,
    id: u128,
)
    requires
        update_spec(old, old_sel, new, new_sel, Message::RemoveView(id), 0),
        has_view(old, id),
        old[view_pos(old, id)].is_main,
    ensures
        new == old,
        new_sel == old_sel,
{
}

/// Removing a view that is not the main one, when there is more than one
/// view, takes exactly that view away and leaves exactly one main view; a
/// view that was main (other than the removed one) keeps the mark when it is
/// the only one; and the selection names a remaining view when the removed
/// view was selected.
pub proof fn law_remove_keeps_one_main(
    old: Seq<AppView>,
    old_sel: u128,
    new: Seq<AppView>,
    new_sel: u128,
    id: u128,
)
    requires
        ids_increasing(old),
        old.len() > 1,
        has_view(old, id),
        !old[view_pos(old, id)].is_main,
        update_spec(old, old_sel, new, new_sel, Message::RemoveView(id), 0),
    ensures
        new.len() == old.len() - 1,
        !has_view(new, id),
        exactly_one_main(new),
        forall|k: u128| k != id ==> (has_view(new, k) <==> has_view(old, k)),
        id == old_sel ==> has_view(new, new_sel),
        id != old_sel ==> new_sel == old_sel,
{
    let p = view_pos(old, id);
    let rest = old.remove(p);
    law_single_main(rest);
    assert forall|k: u128| k != id implies (has_view(new, k) <==> has_view(old, k)) by {
        if has_view(old, k) {
            let i = view_pos(old, k);
            if i < p {
                assert(new[i].id == rest[i].id);
            } else {
                assert(i != p);
                assert(new[i - 1].id == rest[i - 1].id);
            }
        }
        if has_view(new, k) {
            let i = view_pos(new, k);
            assert(new[i].id == rest[i].id);
            if i < p {
                assert(old[i].id == k);
            } else {
                assert(old[i + 1].id == k);
            }
        }
    }
    assert(!has_view(new, id)) by {
        if has_view(new, id) {
            let i = view_pos(new, id);
            assert(new[i].id == rest[i].id);
            if i < p {
                assert(old[i].id < old[p].id);
            } else {
                assert(old[p].id < old[i + 1].id);
            }
        }
    }
    if id == old_sel {
        assert(in_pick(rest, false, 0));
        lemma_first_min_exists(rest, false);
        let r = first_min(rest, false);
        assert(new[r].id == rest[r].id);
    }
}

proof fn insert_pos_from(vs: Seq<AppView>, id: u128, i: int) -> (p: int)
    requires
        ids_increasing(vs),
        0 <= i <= vs.len(),
        forall|j: int| 0 <= j < i ==> vs[j].id < id,
    ensures
        is_insert_pos(vs, id, p),
    decreases vs.len() - i,
{
    if i == vs.len() {
        i
    } else if vs[i].id >= id {
        assert forall|j: int| i <= j < vs.len() implies vs[j].id >= id by {
            if j > i {
                assert(vs[i].id < vs[j].id);
            }
        }
        i
    } else {
        insert_pos_from(vs, id, i + 1)
    }
}

/// In an id-ordered list there is a place for every id.
pub proof fn lemma_insert_pos_exists(vs: Seq<AppView>, id: u128)
    requires
        ids_increasing(vs),
    ensures
        is_insert_pos(vs, id, insert_pos(vs, id)),
{
    let p = insert_pos_from(vs, id, 0);
    assert(is_insert_pos(vs, id, p));
}

/// Adding a view puts a view under the new id, keeps every other view as
/// it was, and selects the new view.
pub proof fn law_add_view_selects_new_view(
    old: Seq<AppView>,
    old_sel: u128,
    new: Seq<AppView>,
    new_sel: u128,
    new_id: u128,
)
    requires
        ids_increasing(old),
        !has_view(old, new_id),
        update_spec(old, old_sel, new, new_sel, Message::AddView, new_id),
    ensures
        new_sel == new_id,
        has_view(new, new_id),
        new.len() == old.len() + 1,
        forall|k: u128| has_view(old, k) ==> has_view(new, k),
{
    let nv = new[view_pos(new, new_id)];
    lemma_insert_pos_exists(old, new_id);
    let q = insert_pos(old, new_id);
    assert forall|k: u128| has_view(old, k) implies has_view(new, k) by {
        let i = view_pos(old, k);
        if i < q {
            assert(new[i].id == k);
        } else {
            assert(new[i + 1].id == k);
        }
    }
}

} // verus!

verus! {

/// How the views panel orders its list.
#[derive(Debug, Clone, Copy, PartialEq, Eq, Structural)]
pub enum ViewSortMode {
    /// In the order views were added.
    InsertionOrder,
    /// By name.
    Alphabetical,
    /// Most recently modified first; views keep no modification time, so
    /// this is the order they were added in.
    MostRecentlyModified,
}

/// Whether view `a` may be listed before view `b`.
pub open spec fn view_le(mode: ViewSortMode, a: AppView, b: AppView) -> bool {
    match mode {
        ViewSortMode::Alphabetical => crate::state_fields::label_le(a.name@, b.name@),
        _ => a.order <= b.order,
    }
}

/// Where `x` goes in `s`: after every view from the end back to the last
/// one that may be listed before it.
pub open spec fn view_sort_pos(mode: ViewSortMode, s: Seq<AppView>, x: AppView) -> int
    decreases s.len(),
{
    if s.len() == 0 {
        0
    } else if view_le(mode, s.last(), x) {
        s.len() as int
    } else {
        view_sort_pos(mode, s.drop_last(), x)
    }
}

/// The views in list order (an insertion sort by [`view_le`], so views that
/// tie keep their id order).
pub open spec fn sorted_views_spec(mode: ViewSortMode, s: Seq<AppView>) -> Seq<AppView>
    decreases s.len(),
{
    if s.len() == 0 {
        s
    } else {
        let t = sorted_views_spec(mode, s.drop_last());
        t.insert(view_sort_pos(mode, t, s.last()), s.last())
    }
}

fn view_le_exec(mode: ViewSortMode, a: &AppView, b: &AppView) -> (r: bool)
    ensures
        r == view_le(mode, *a, *b),
{
    match mode {
        ViewSortMode::Alphabetical => crate::state_fields::label_le_exec(&a.name, &b.name),
        _ => a.order <= b.order,
    }
}

/// The ids of the views in list order (see [`sorted_views_spec`]).
pub fn sorted_views(views: &ViewMap, mode: ViewSortMode) -> (r: Vec<u128>)
    ensures
        r@ == sorted_views_spec(mode, views@).map_values(|v: AppView| v.id),
{
    let vs = views.as_vec();
    let ghost s = vs@;
    let mut order: Vec<usize> = Vec::new();
    let mut i: usize = 0;
    proof {
        assert(order@.map_values(|k: usize| s[k as int]) =~= sorted_views_spec(mode, s.subrange(0, 0)));
    }
    while i < vs.len()
        invariant
            s == vs@,
            i <= s.len(),
            forall|k: int| 0 <= k < order@.len() ==> order@[k] < i,
            order@.map_values(|k: usize| s[k as int]) == sorted_views_spec(mode, s.subrange(0, i as int)),
        decreases s.len() - i,
    {
        let ghost t = order@.map_values(|k: usize| s[k as int]);
        let mut j: usize = order.len();
        proof {
            assert(t.subrange(0, j as int) =~= t);
        }
        while j > 0 && !view_le_exec(mode, &vs[order[j - 1]], &vs[i])
            invariant
                s == vs@,
                i < s.len(),
                j <= order@.len(),
                forall|k: int| 0 <= k < order@.len() ==> order@[k] < i,
                t == order@.map_values(|k: usize| s[k as int]),
                view_sort_pos(mode, t, s[i as int]) == view_sort_pos(mode, t.subrange(0, j as int), s[i as int]),
            decreases j,
        {
            proof {
                let pre = t.subrange(0, j as int);
                assert(pre.last() == s[order@[j - 1] as int]);
                assert(pre.drop_last() =~= t.subrange(0, j - 1));
            }
            j = j - 1;
        }
        proof {
            let pre = t.subrange(0, j as int);
            if j > 0 {
                assert(pre.last() == s[order@[j - 1] as int]);
            }
            assert(view_sort_pos(mode, pre, s[i as int]) == j as int);
            let prefix = s.subrange(0, i + 1);
            assert(prefix.drop_last() =~= s.subrange(0, i as int));
            assert(prefix.last() == s[i as int]);
        }
        order.insert(j, i);
        i = i + 1;
        proof {
            assert(order@.map_values(|k: usize| s[k as int]) =~= t.insert(j as int, s[i - 1]));
        }
    }
    proof {
        assert(s.subrange(0, s.len() as int) =~= s);
    }
    let mut ids: Vec<u128> = Vec::new();
    let mut k: usize = 0;
    while k < order.len()
        invariant
            s == vs@,
            k <= order@.len(),
            forall|q: int| 0 <= q < order@.len() ==> order@[q] < s.len(),
            ids@ == order@.subrange(0, k as int).map_values(|q: usize| s[q as int].id),
        decreases order@.len() - k,
    {
        ids.push(vs[order[k]].id);
        k = k + 1;
        proof {
            assert(ids@ =~= order@.subrange(0, k as int).map_values(|q: usize| s[q as int].id));
        }
    }
    proof {
        assert(order@.subrange(0, order@.len() as int) =~= order@);
        assert(ids@ =~= order@.map_values(|k: usize| s[k as int]).map_values(|v: AppView| v.id));
    }
    ids
}

/// Whether the views' names are in alphabetical order.
pub open spec fn names_in_order(s: Seq<AppView>) -> bool {
    forall|i: int, j: int| 0 <= i < j < s.len() ==> crate::state_fields::label_le(s[i].name@, s[j].name@)
}

proof fn lemma_alpha_sort_pos(t: Seq<AppView>, x: AppView)
    requires
        names_in_order(t),
    ensures
        0 <= view_sort_pos(ViewSortMode::Alphabetical, t, x) <= t.len(),
        forall|k: int| 0 <= k < view_sort_pos(ViewSortMode::Alphabetical, t, x)
            ==> crate::state_fields::label_le(t[k].name@, x.name@),
        forall|k: int| view_sort_pos(ViewSortMode::Alphabetical, t, x) <= k < t.len()
            ==> !crate::state_fields::label_le(t[k].name@, x.name@),
    decreases t.len(),
{
    if t.len() > 0 {
        let last = t.len() - 1;
        if crate::state_fields::label_le(t.last().name@, x.name@) {
            assert forall|k: int| 0 <= k < t.len() implies crate::state_fields::label_le(t[k].name@, x.name@) by {
                if k < last {
                    crate::state_fields::lemma_label_le_trans(t[k].name@, t[last].name@, x.name@);
                }
            }
        } else {
            let d = t.drop_last();
            assert(names_in_order(d));
            lemma_alpha_sort_pos(d, x);
            let p = view_sort_pos(ViewSortMode::Alphabetical, t, x);
            assert forall|k: int| 0 <= k < p implies crate::state_fields::label_le(t[k].name@, x.name@) by {
                assert(t[k] == d[k]);
            }
            assert forall|k: int| p <= k < t.len() implies !crate::state_fields::label_le(t[k].name@, x.name@) by {
                if k < last {
                    assert(t[k] == d[k]);
                }
            }
        }
    }
}

/// Listing the views alphabetically lists every view exactly once, with
/// the names in alphabetical order (see
/// `state_fields::law_label_le_is_lexicographic`).
pub proof fn law_alphabetical_views_are_sorted(s: Seq<AppView>)
    ensures
        names_in_order(sorted_views_spec(ViewSortMode::Alphabetical, s)),
        sorted_views_spec(ViewSortMode::Alphabetical, s).to_multiset() == s.to_multiset(),
        sorted_views_spec(ViewSortMode::Alphabetical, s).len() == s.len(),
    decreases s.len(),
{
    if s.len() > 0 {
        let d = s.drop_last();
        let x = s.last();
        law_alphabetical_views_are_sorted(d);
        let t = sorted_views_spec(ViewSortMode::Alphabetical, d);
        lemma_alpha_sort_pos(t, x);
        let p = view_sort_pos(ViewSortMode::Alphabetical, t, x);
        let r = t.insert(p, x);
        assert(r == sorted_views_spec(ViewSortMode::Alphabetical, s));
        assert forall|i: int, j: int| 0 <= i < j < r.len() implies crate::state_fields::label_le(
            r[i].name@, r[j].name@) by {
            if j < p {
                assert(r[i] == t[i] && r[j] == t[j]);
            } else if j == p {
                assert(r[i] == t[i]);
            } else if i < p {
                assert(r[i] == t[i] && r[j] == t[j - 1]);
            } else if i == p {
                assert(r[j] == t[j - 1]);
                crate::state_fields::lemma_label_le_total(t[j - 1].name@, x.name@);
            } else {
                assert(r[i] == t[i - 1] && r[j] == t[j - 1]);
            }
        }
        vstd::seq_lib::to_multiset_insert(t, p, x);
        assert(d.push(x) =~= s);
        vstd::seq_lib::to_multiset_build(d, x);
    }
}

} // verus!
