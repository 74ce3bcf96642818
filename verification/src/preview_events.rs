//! What the running preview does with a widget event: it records open and
//! closed popups and picked dates in the view, and decides whether the
//! event starts the flows attached to it or becomes a property edit of the
//! widget.

use vstd::prelude::*;
use crate::action_editor::{
    AppFlow, first_index_of, flows_view, has_action_graph, has_action_graph_spec, lemma_first_index_at,
    lemma_first_index_none, lemma_first_index_some, FlowV,
};
use crate::add_views::{
    AppView, KeyV, StateEntry, StateKey, ViewMap, has_view, ids_increasing, state_key_eq, state_value_spec,
    view_pos,
};
use crate::preview::{
    popup_open_spec, DateSelection, apply_date_picker_selection, apply_date_picker_time, selection_applied, time_applied,
};
use crate::values::{ActionValue, ValueV};
use crate::widgets::{Widget, WidgetHierarchy, WidgetType};

verus! {

/// The key and value of each state entry, in order.
pub open spec fn entries_view(es: Seq<StateEntry>) -> Seq<(KeyV, ValueV)> {
    es.map_values(|e: StateEntry| (e.key@, e.value@))
}

/// The keys of a list of entries.
pub open spec fn entry_keys(es: Seq<(KeyV, ValueV)>) -> Seq<KeyV> {
    es.map_values(|e: (KeyV, ValueV)| e.0)
}

/// The value kept under `key`: that of the first entry with the key.
pub open spec fn entry_lookup(es: Seq<(KeyV, ValueV)>, key: KeyV) -> Option<ValueV> {
    match first_index_of(entry_keys(es), key) {
        Some(i) => Some(es[i].1),
        None => None,
    }
}

/// The entries after storing `value` under `key`: the first entry with the
/// key takes the value, or a new entry is appended when there is none.
pub open spec fn set_entry(es: Seq<(KeyV, ValueV)>, key: KeyV, value: ValueV) -> Seq<(KeyV, ValueV)> {
    match first_index_of(entry_keys(es), key) {
        Some(i) => es.update(i, (key, value)),
        None => es.push((key, value)),
    }
}

proof fn lemma_state_value_is_lookup(es: Seq<StateEntry>, key: KeyV)
    ensures
        state_value_spec(es, key) == entry_lookup(entries_view(es), key),
    decreases es.len(),
{
    let ev = entries_view(es);
    let ks = entry_keys(ev);
    if es.len() > 0 {
        lemma_state_value_is_lookup(es.drop_first(), key);
        assert(entries_view(es.drop_first()) =~= ev.drop_first());
        assert(entry_keys(ev.drop_first()) =~= ks.drop_first());
        assert(ks[0] == es[0].key@);
        if ks[0] != key {
            lemma_first_index_some(ks.drop_first(), key);
            match first_index_of(ks.drop_first(), key) {
                Some(i) => {
                    assert(first_index_of(ks, key) == Some(i + 1));
                    assert(ev.drop_first()[i] == ev[i + 1]);
                },
                None => {},
            }
        }
    }
}

/// Storing a value and then reading the same key gives the value back;
/// reading any other key gives what it gave before.
pub proof fn law_state_read_after_write(es: Seq<(KeyV, ValueV)>, key: KeyV, value: ValueV, other: KeyV)
    ensures
        entry_lookup(set_entry(es, key, value), key) == Some(value),
        other != key ==> entry_lookup(set_entry(es, key, value), other) == entry_lookup(es, other),
{
    let ks = entry_keys(es);
    let ns = set_entry(es, key, value);
    let nks = entry_keys(ns);
    lemma_first_index_some(ks, key);
    lemma_first_index_some(ks, other);
    match first_index_of(ks, key) {
        Some(i) => {
            assert(nks =~= ks.update(i, key));
            lemma_first_index_at(nks, key, i);
            if other != key {
                match first_index_of(ks, other) {
                    Some(j) => {
                        assert(nks[j] == other);
                        lemma_first_index_at(nks, other, j);
                    },
                    None => {
                        lemma_first_index_none(nks, other);
                    },
                }
            }
        },
        None => {
            assert(nks =~= ks.push(key));
            lemma_first_index_at(nks, key, ks.len() as int);
            if other != key {
                match first_index_of(ks, other) {
                    Some(j) => {
                        assert(nks[j] == other);
                        lemma_first_index_at(nks, other, j);
                    },
                    None => {
                        lemma_first_index_none(nks, other);
                    },
                }
            }
        },
    }
}

/// Stores `value` under `key` in a view's state (see [`set_entry`]).
pub fn set_state_value(entries: &mut Vec<StateEntry>, key: StateKey, value: ActionValue)
    ensures
        entries_view(final(entries)@) == set_entry(entries_view(old(entries)@), key@, value@),
{
    let ghost ks = entry_keys(entries_view(entries@));
    let mut i: usize = 0;
    while i < entries.len()
        invariant
            i <= entries@.len(),
            entries@ == old(entries)@,
            ks == entry_keys(entries_view(entries@)),
            forall|j: int| 0 <= j < i ==> ks[j] != key@,
        decreases entries@.len() - i,
    {
        if state_key_eq(&entries[i].key, &key) {
            proof {
                assert(ks[i as int] == key@);
                lemma_first_index_at(ks, key@, i as int);
            }
            let ghost before = entries_view(entries@);
            let ghost kv = key@;
            let ghost vv = value@;
            entries.set(i, StateEntry { key, value });
            proof {
                assert(entries_view(entries@) =~= before.update(i as int, (kv, vv)));
            }
            return;
        }
        proof {
            assert(ks[i as int] == entries@[i as int].key@);
        }
        i = i + 1;
    }
    proof {
        lemma_first_index_none(ks, key@);
    }
    let ghost before = entries_view(entries@);
    let ghost kv = key@;
    let ghost vv = value@;
    entries.push(StateEntry { key, value });
    proof {
        assert(entries_view(entries@) =~= before.push((kv, vv)));
    }
}

/// A widget event of the running preview.
#[derive(Debug)]
pub enum PreviewEvent {
    TextInputChanged(u64, String),
    Submitted(u64),
    TextPasted(u64, String),
    CheckboxToggled(u64, bool),
    /// The picked option's index, and that index as an `f64` bit pattern.
    RadioSelected(u64, usize, u64),
    /// The slider's value as an `f32` and as an `f64` bit pattern.
    SliderChanged(u64, u32, u64),
    TogglerToggled(u64, bool),
    PickListSelected(u64, String),
    GenericOverlayToggled(u64, bool),
    DatePickerOpenRequested(u64),
    DatePickerChanged(u64, DateSelection),
    /// A picked selection with a picked time (hour, minute).
    DatePickerChangedWithTime(u64, DateSelection, u32, u32),
    DatePickerClosed(u64),
    ButtonPressed(u64),
}

/// A property edit of a widget, for the widget tree to store.
#[derive(Debug)]
pub enum PropertyEdit {
    TextInputValue(String),
    CheckboxChecked(bool),
    RadioSelectedIndex(usize),
    /// An `f32` bit pattern.
    SliderValue(u32),
    TogglerActive(bool),
    /// The picked option.
    PickListSelected(String),
}

/// Mathematical form of a [`PropertyEdit`].
pub enum EditV {
    TextInputValue(Seq<char>),
    CheckboxChecked(bool),
    RadioSelectedIndex(usize),
    SliderValue(u32),
    TogglerActive(bool),
    PickListSelected(Seq<char>),
}

impl View for PropertyEdit {
    type V = EditV;

    open spec fn view(&self) -> EditV {
        match self {
            PropertyEdit::TextInputValue(v) => EditV::TextInputValue(v@),
            PropertyEdit::CheckboxChecked(b) => EditV::CheckboxChecked(*b),
            PropertyEdit::RadioSelectedIndex(i) => EditV::RadioSelectedIndex(*i),
            PropertyEdit::SliderValue(b) => EditV::SliderValue(*b),
            PropertyEdit::TogglerActive(b) => EditV::TogglerActive(*b),
            PropertyEdit::PickListSelected(v) => EditV::PickListSelected(v@),
        }
    }
}

/// What the caller does after an event.
#[derive(Debug)]
pub enum PreviewAction {
    Nothing,
    /// Run the flows that start on `event` of the widget, handing them the
    /// payload (named values).
    RunFlows { view_id: u128, widget_id: u64, event: String, payload: Vec<(String, ActionValue)> },
    /// Store the edit in the widget's properties.
    SetProperty { view_id: u128, widget_id: u64, edit: PropertyEdit },
}

/// Mathematical form of a [`PreviewAction`].
pub enum ActionV {
    Nothing,
    RunFlows { view_id: u128, widget_id: u64, event: Seq<char>, payload: Seq<(Seq<char>, ValueV)> },
    SetProperty { view_id: u128, widget_id: u64, edit: EditV },
}

/// The names and values of a payload.
pub open spec fn payload_view(p: Seq<(String, ActionValue)>) -> Seq<(Seq<char>, ValueV)> {
    p.map_values(|e: (String, ActionValue)| (e.0@, e.1@))
}

impl View for PreviewAction {
    type V = ActionV;

    open spec fn view(&self) -> ActionV {
        match self {
            PreviewAction::Nothing => ActionV::Nothing,
            PreviewAction::RunFlows { view_id, widget_id, event, payload } => ActionV::RunFlows {
                view_id: *view_id,
                widget_id: *widget_id,
                event: event@,
                payload: payload_view(payload@),
            },
            PreviewAction::SetProperty { view_id, widget_id, edit } => ActionV::SetProperty {
                view_id: *view_id,
                widget_id: *widget_id,
                edit: edit@,
            },
        }
    }
}

/// An event that either starts flows or edits a property: the flows run
/// when one starts on `event` of the widget; otherwise the edit is stored
/// when the view exists.
pub open spec fn routed(
    fs: Seq<FlowV>,
    vs: Seq<AppView>,
    vid: u128,
    wid: u64,
    event: Seq<char>,
    payload: Seq<(Seq<char>, ValueV)>,
    edit: EditV,
) -> ActionV {
    if has_action_graph_spec(fs, vid, wid, event) {
        ActionV::RunFlows { view_id: vid, widget_id: wid, event, payload }
    } else if has_view(vs, vid) {
        ActionV::SetProperty { view_id: vid, widget_id: wid, edit }
    } else {
        ActionV::Nothing
    }
}

/// An event that only starts flows: they run when one starts on `event` of
/// the widget.
pub open spec fn flows_only(
    fs: Seq<FlowV>,
    vid: u128,
    wid: u64,
    event: Seq<char>,
    payload: Seq<(Seq<char>, ValueV)>,
) -> ActionV {
    if has_action_graph_spec(fs, vid, wid, event) {
        ActionV::RunFlows { view_id: vid, widget_id: wid, event, payload }
    } else {
        ActionV::Nothing
    }
}

/// What follows a widget event of the view `view_id` (nothing when no view
/// is previewed): text inputs, checkboxes, radios, sliders, togglers and
/// pick lists start their flows or store their new value; submits, button
/// presses and overlay toggles only start flows; date picker events only
/// change the view.
pub open spec fn preview_action_spec(fs: Seq<FlowV>, vs: Seq<AppView>, view_id: Option<u128>, ev: PreviewEvent) -> ActionV {
    match view_id {
        None => ActionV::Nothing,
        Some(vid) => match ev {
            PreviewEvent::TextInputChanged(w, v) => routed(fs, vs, vid, w, "on_input"@,
                seq![("text"@, ValueV::String(v@))], EditV::TextInputValue(v@)),
            PreviewEvent::Submitted(w) => flows_only(fs, vid, w, "on_submit"@, Seq::empty()),
            PreviewEvent::TextPasted(w, v) => routed(fs, vs, vid, w, "on_paste"@,
                seq![("text"@, ValueV::String(v@))], EditV::TextInputValue(v@)),
            PreviewEvent::CheckboxToggled(w, c) => routed(fs, vs, vid, w, "on_toggle"@,
                seq![("checked"@, ValueV::Bool(c))], EditV::CheckboxChecked(c)),
            PreviewEvent::RadioSelected(w, i, bits) => routed(fs, vs, vid, w, "on_select"@,
                seq![("selected"@, ValueV::Number(bits))], EditV::RadioSelectedIndex(i)),
            PreviewEvent::SliderChanged(w, b32, b64) => routed(fs, vs, vid, w, "on_change"@,
                seq![("value"@, ValueV::Number(b64))], EditV::SliderValue(b32)),
            PreviewEvent::TogglerToggled(w, a) => routed(fs, vs, vid, w, "on_toggle"@,
                seq![("checked"@, ValueV::Bool(a))], EditV::TogglerActive(a)),
            PreviewEvent::PickListSelected(w, v) => routed(fs, vs, vid, w, "on_select"@,
                seq![("selected"@, ValueV::String(v@))], EditV::PickListSelected(v@)),
            PreviewEvent::GenericOverlayToggled(w, o) => flows_only(fs, vid, w, "on_toggle"@,
                seq![("checked"@, ValueV::Bool(o))]),
            PreviewEvent::ButtonPressed(w) => flows_only(fs, vid, w, "on_press"@, Seq::empty()),
            _ => ActionV::Nothing,
        },
    }
}

/// Every view but the one at `pos` is kept.
pub open spec fn others_kept(old: Seq<AppView>, new: Seq<AppView>, pos: int) -> bool {
    &&& new.len() == old.len()
    &&& forall|i: int| 0 <= i < old.len() && i != pos ==> #[trigger] new[i] == old[i]
}

/// The views after storing `value` under `key` in the state of the view
/// `vid` (unchanged when there is no such view).
pub open spec fn view_state_set(old: Seq<AppView>, new: Seq<AppView>, vid: u128, key: KeyV, value: ValueV) -> bool {
    if has_view(old, vid) {
        let p = view_pos(old, vid);
        &&& others_kept(old, new, p)
        &&& new[p] == (AppView { custom_state_values: new[p].custom_state_values, ..old[p] })
        &&& entries_view(new[p].custom_state_values@) == set_entry(
            entries_view(old[p].custom_state_values@), key, value)
    } else {
        new == old
    }
}

/// The ids of a widget listing.
pub open spec fn widget_ids(ws: Seq<Widget>) -> Seq<u64> {
    ws.map_values(|w: Widget| w.id)
}

/// The widget `b` is `a` with a picked selection, and a picked time when
/// there is one, stored.
pub open spec fn date_edit_applied(a: Widget, b: Widget, sel: DateSelection, time: Option<(u32, u32)>) -> bool {
    match time {
        None => selection_applied(a, b, sel),
        Some((h, m)) => exists|mid: Widget| selection_applied(a, mid, sel) && time_applied(mid, b, h, m),
    }
}

/// The views after storing a picked date (and time) in the first widget
/// with id `wid` of the view `vid` (unchanged when there is no such view or
/// widget).
pub open spec fn view_widget_dated(
    old: Seq<AppView>,
    new: Seq<AppView>,
    vid: u128,
    wid: u64,
    sel: DateSelection,
    time: Option<(u32, u32)>,
) -> bool {
    if has_view(old, vid) {
        let p = view_pos(old, vid);
        let ows = old[p].hierarchy.widgets@;
        let nws = new[p].hierarchy.widgets@;
        &&& others_kept(old, new, p)
        &&& new[p] == (AppView {
            hierarchy: WidgetHierarchy { widgets: new[p].hierarchy.widgets, ..old[p].hierarchy },
            ..old[p]
        })
        &&& match first_index_of(widget_ids(ows), wid) {
            Some(k) => {
                &&& nws.len() == ows.len()
                &&& forall|j: int| 0 <= j < ows.len() && j != k ==> #[trigger] nws[j] == ows[j]
                &&& date_edit_applied(ows[k], nws[k], sel, time)
            },
            None => nws == ows,
        }
    } else {
        new == old
    }
}

/// How a widget event changes the views: overlay toggles and date picker
/// opening and closing are remembered in the view's state, picked dates are
/// stored in the date picker; nothing else changes a view.
pub open spec fn preview_views_spec(old: Seq<AppView>, new: Seq<AppView>, view_id: Option<u128>, ev: PreviewEvent) -> bool {
    match view_id {
        None => new == old,
        Some(vid) => match ev {
            PreviewEvent::GenericOverlayToggled(w, o) => view_state_set(old, new, vid,
                KeyV::GenericOverlayOpen { view_id: vid, widget_id: w }, ValueV::Bool(o)),
            PreviewEvent::DatePickerOpenRequested(w) => view_state_set(old, new, vid,
                KeyV::DatePickerOpen { view_id: vid, widget_id: w }, ValueV::Bool(true)),
            PreviewEvent::DatePickerClosed(w) => view_state_set(old, new, vid,
                KeyV::DatePickerOpen { view_id: vid, widget_id: w }, ValueV::Bool(false)),
            PreviewEvent::DatePickerChanged(w, sel) => view_widget_dated(old, new, vid, w, sel, None),
            PreviewEvent::DatePickerChangedWithTime(w, sel, h, m) => view_widget_dated(old, new, vid, w, sel,
                Some((h, m))),
            _ => new == old,
        },
    }
}

fn one_entry(name: &str, value: ActionValue) -> (p: Vec<(String, ActionValue)>)
    ensures
        payload_view(p@) == seq![(name@, value@)],
{
    let mut p: Vec<(String, ActionValue)> = Vec::new();
    p.push((name.to_string(), value));
    proof {
        assert(payload_view(p@) =~= seq![(name@, value@)]);
    }
    p
}

fn no_entries() -> (p: Vec<(String, ActionValue)>)
    ensures
        payload_view(p@) == Seq::<(Seq<char>, ValueV)>::empty(),
{
    let p: Vec<(String, ActionValue)> = Vec::new();
    proof {
        assert(payload_view(p@) =~= Seq::<(Seq<char>, ValueV)>::empty());
    }
    p
}

fn route(
    flows: &Vec<AppFlow>,
    views: &ViewMap,
    vid: u128,
    wid: u64,
    event: &str,
    payload: Vec<(String, ActionValue)>,
    edit: PropertyEdit,
) -> (a: PreviewAction)
    requires
        views.wf(),
    ensures
        a@ == routed(flows_view(flows@), views@, vid, wid, event@, payload_view(payload@), edit@),
{
    if has_action_graph(flows, vid, wid, event) {
        PreviewAction::RunFlows { view_id: vid, widget_id: wid, event: event.to_string(), payload }
    } else if views.contains_key(vid) {
        PreviewAction::SetProperty { view_id: vid, widget_id: wid, edit }
    } else {
        PreviewAction::Nothing
    }
}

fn run_flows_only(
    flows: &Vec<AppFlow>,
    vid: u128,
    wid: u64,
    event: &str,
    payload: Vec<(String, ActionValue)>,
) -> (a: PreviewAction)
    ensures
        a@ == flows_only(flows_view(flows@), vid, wid, event@, payload_view(payload@)),
{
    if has_action_graph(flows, vid, wid, event) {
        PreviewAction::RunFlows { view_id: vid, widget_id: wid, event: event.to_string(), payload }
    } else {
        PreviewAction::Nothing
    }
}

fn set_view_state(views: &mut ViewMap, vid: u128, key: StateKey, value: ActionValue)
    requires
        old(views).wf(),
    ensures
        final(views).wf(),
        view_state_set(old(views)@, final(views)@, vid, key@, value@),
{
    let ghost orig = views@;
    if let Some(i) = views.position(vid) {
        let mut v = views.take_at(i);
        let ghost v0 = v;
        set_state_value(&mut v.custom_state_values, key, value);
        views.put_back(i, v, Ghost(orig));
        proof {
            assert(v == (AppView { custom_state_values: v.custom_state_values, ..v0 }));
        }
    }
}

fn widget_index(ws: &Vec<Widget>, id: u64) -> (r: Option<usize>)
    ensures
        match r {
            Some(k) => first_index_of(widget_ids(ws@), id) == Some(k as int),
            None => first_index_of(widget_ids(ws@), id) is None,
        },
{
    let ghost ids = widget_ids(ws@);
    let mut i: usize = 0;
    while i < ws.len()
        invariant
            i <= ws@.len(),
            ids == widget_ids(ws@),
            forall|j: int| 0 <= j < i ==> ids[j] != id,
        decreases ws@.len() - i,
    {
        if ws[i].id == id {
            proof {
                lemma_first_index_at(ids, id, i as int);
            }
            return Some(i);
        }
        proof {
            assert(ids[i as int] == ws@[i as int].id);
        }
        i = i + 1;
    }
    proof {
        lemma_first_index_none(ids, id);
    }
    None
}

fn date_view_widget(views: &mut ViewMap, vid: u128, wid: u64, sel: DateSelection, time: Option<(u32, u32)>)
    requires
        old(views).wf(),
    ensures
        final(views).wf(),
        view_widget_dated(old(views)@, final(views)@, vid, wid, sel, time),
{
    let ghost orig = views@;
    if let Some(i) = views.position(vid) {
        let mut v = views.take_at(i);
        let ghost v0 = v;
        match widget_index(&v.hierarchy.widgets, wid) {
            Some(k) => {
                proof {
                    lemma_first_index_some(widget_ids(v0.hierarchy.widgets@), wid);
                }
                let mut w = v.hierarchy.widgets.remove(k);
                let ghost w0 = w;
                apply_date_picker_selection(&mut w, &sel);
                match time {
                    Some((h, m)) => {
                        let ghost mid = w;
                        apply_date_picker_time(&mut w, h, m);
                        proof {
                            assert(selection_applied(w0, mid, sel) && time_applied(mid, w, h, m));
                        }
                    },
                    None => {},
                }
                v.hierarchy.widgets.insert(k, w);
                proof {
                    assert(v.hierarchy.widgets@ =~= v0.hierarchy.widgets@.update(k as int, w));
                }
            },
            None => {},
        }
        views.put_back(i, v, Ghost(orig));
        proof {
            assert(v == (AppView {
                hierarchy: WidgetHierarchy { widgets: v.hierarchy.widgets, ..v0.hierarchy },
                ..v0
            }));
        }
    }
}

/// Handles a widget event of the view `view_id` in the running preview:
/// changes the views as [`preview_views_spec`] says and returns what
/// [`preview_action_spec`] says the caller does next.
pub fn preview_update(flows: &Vec<AppFlow>, views: &mut ViewMap, view_id: Option<u128>, event: PreviewEvent) -> (a: PreviewAction)
    requires
        old(views).wf(),
    ensures
        final(views).wf(),
        a@ == preview_action_spec(flows_view(flows@), old(views)@, view_id, event),
        preview_views_spec(old(views)@, final(views)@, view_id, event),
{
    let vid = match view_id {
        Some(v) => v,
        None => return PreviewAction::Nothing,
    };
    match event {
        PreviewEvent::TextInputChanged(w, v) => {
            let payload = one_entry("text", ActionValue::String(v.clone()));
            route(flows, views, vid, w, "on_input", payload, PropertyEdit::TextInputValue(v))
        },
        PreviewEvent::Submitted(w) => run_flows_only(flows, vid, w, "on_submit", no_entries()),
        PreviewEvent::TextPasted(w, v) => {
            let payload = one_entry("text", ActionValue::String(v.clone()));
            route(flows, views, vid, w, "on_paste", payload, PropertyEdit::TextInputValue(v))
        },
        PreviewEvent::CheckboxToggled(w, c) => {
            let payload = one_entry("checked", ActionValue::Bool(c));
            route(flows, views, vid, w, "on_toggle", payload, PropertyEdit::CheckboxChecked(c))
        },
        PreviewEvent::RadioSelected(w, i, bits) => {
            let payload = one_entry("selected", ActionValue::Number(bits));
            route(flows, views, vid, w, "on_select", payload, PropertyEdit::RadioSelectedIndex(i))
        },
        PreviewEvent::SliderChanged(w, b32, b64) => {
            let payload = one_entry("value", ActionValue::Number(b64));
            route(flows, views, vid, w, "on_change", payload, PropertyEdit::SliderValue(b32))
        },
        PreviewEvent::TogglerToggled(w, act) => {
            let payload = one_entry("checked", ActionValue::Bool(act));
            route(flows, views, vid, w, "on_toggle", payload, PropertyEdit::TogglerActive(act))
        },
        PreviewEvent::PickListSelected(w, v) => {
            let payload = one_entry("selected", ActionValue::String(v.clone()));
            route(flows, views, vid, w, "on_select", payload, PropertyEdit::PickListSelected(v))
        },
        PreviewEvent::GenericOverlayToggled(w, o) => {
            set_view_state(views, vid, StateKey::GenericOverlayOpen { view_id: vid, widget_id: w }, ActionValue::Bool(o));
            run_flows_only(flows, vid, w, "on_toggle", one_entry("checked", ActionValue::Bool(o)))
        },
        PreviewEvent::DatePickerOpenRequested(w) => {
            set_view_state(views, vid, StateKey::DatePickerOpen { view_id: vid, widget_id: w }, ActionValue::Bool(true));
            PreviewAction::Nothing
        },
        PreviewEvent::DatePickerChanged(w, sel) => {
            date_view_widget(views, vid, w, sel, None);
            PreviewAction::Nothing
        },
        PreviewEvent::DatePickerChangedWithTime(w, sel, h, m) => {
            date_view_widget(views, vid, w, sel, Some((h, m)));
            PreviewAction::Nothing
        },
        PreviewEvent::DatePickerClosed(w) => {
            set_view_state(views, vid, StateKey::DatePickerOpen { view_id: vid, widget_id: w }, ActionValue::Bool(false));
            PreviewAction::Nothing
        },
        PreviewEvent::ButtonPressed(w) => run_flows_only(flows, vid, w, "on_press", no_entries()),
    }
}

proof fn lemma_state_set_read_back(old: Seq<AppView>, new: Seq<AppView>, vid: u128, key: KeyV, value: ValueV)
    requires
        ids_increasing(old),
        has_view(old, vid),
        view_state_set(old, new, vid, key, value),
    ensures
        has_view(new, vid),
        view_pos(new, vid) == view_pos(old, vid),
        state_value_spec(new[view_pos(new, vid)].custom_state_values@, key) == Some(value),
{
    let p = view_pos(old, vid);
    assert(new[p].id == vid);
    let q = view_pos(new, vid);
    if q != p {
        assert(new[q] == old[q]);
        if q < p {
            assert(old[q].id < old[p].id);
        } else {
            assert(old[p].id < old[q].id);
        }
    }
    lemma_state_value_is_lookup(new[p].custom_state_values@, key);
    law_state_read_after_write(entries_view(old[p].custom_state_values@), key, value, key);
}

/// The preview reads back what a popup event remembered: after an overlay
/// of a previewed view is toggled, it reads as open exactly when the toggle
/// opened it; after a date picker is opened it reads as open, and after it
/// is closed, as closed.
pub proof fn law_popup_state_is_read_back(old: Seq<AppView>, new: Seq<AppView>, vid: u128, ev: PreviewEvent)
    requires
        ids_increasing(old),
        has_view(old, vid),
        preview_views_spec(old, new, Some(vid), ev),
    ensures
        ev matches PreviewEvent::GenericOverlayToggled(w, o) ==> popup_open_spec(
            Some(vid), new, KeyV::GenericOverlayOpen { view_id: vid, widget_id: w }, w, true) == o,
        ev matches PreviewEvent::DatePickerOpenRequested(w) ==> popup_open_spec(
            Some(vid), new, KeyV::DatePickerOpen { view_id: vid, widget_id: w }, w, false),
        ev matches PreviewEvent::DatePickerClosed(w) ==> !popup_open_spec(
            Some(vid), new, KeyV::DatePickerOpen { view_id: vid, widget_id: w }, w, false),
{
    match ev {
        PreviewEvent::GenericOverlayToggled(w, o) => {
            lemma_state_set_read_back(old, new, vid, KeyV::GenericOverlayOpen { view_id: vid, widget_id: w },
                ValueV::Bool(o));
        },
        PreviewEvent::DatePickerOpenRequested(w) => {
            lemma_state_set_read_back(old, new, vid, KeyV::DatePickerOpen { view_id: vid, widget_id: w },
                ValueV::Bool(true));
        },
        PreviewEvent::DatePickerClosed(w) => {
            lemma_state_set_read_back(old, new, vid, KeyV::DatePickerOpen { view_id: vid, widget_id: w },
                ValueV::Bool(false));
        },
        _ => {},
    }
}

/// The direction a widget lays out along.
#[derive(Debug, Clone, Copy, PartialEq, Eq, Structural)]
pub enum Orientation {
    Horizontal,
    Vertical,
}

/// How a widget sizes itself along one axis.
#[derive(Debug, Clone, Copy, PartialEq, Eq, Structural)]
pub enum AxisSize {
    /// Takes all the room there is.
    Fill,
    /// Takes only what its content needs.
    Shrink,
}

/// The width and height a widget takes after its orientation changes: a
/// space fills along its new orientation and shrinks across it; other
/// widgets keep their size.
pub open spec fn size_after_orientation_spec(t: WidgetType, o: Orientation) -> Option<(AxisSize, AxisSize)> {
    if t == WidgetType::Space {
        match o {
            Orientation::Horizontal => Some((AxisSize::Fill, AxisSize::Shrink)),
            Orientation::Vertical => Some((AxisSize::Shrink, AxisSize::Fill)),
        }
    } else {
        None
    }
}

/// The width and height to store after a widget's orientation changes (see
/// [`size_after_orientation_spec`]).
pub fn size_after_orientation(widget_type: WidgetType, orientation: Orientation) -> (r: Option<(AxisSize, AxisSize)>)
    ensures
        r == size_after_orientation_spec(widget_type, orientation),
{
    match widget_type {
        WidgetType::Space => match orientation {
            Orientation::Horizontal => Some((AxisSize::Fill, AxisSize::Shrink)),
            Orientation::Vertical => Some((AxisSize::Shrink, AxisSize::Fill)),
        },
        _ => None,
    }
}


/// Whether `a` answers a widget event that carries `value` as flows see it
/// (under `name`) and `edit` as the widget stores it: the flows that start
/// on `event` of the widget run with that value, else the widget stores
/// the edit when its view exists, else nothing happens.
pub open spec fn answers_with(
    a: ActionV,
    fs: Seq<FlowV>,
    vs: Seq<AppView>,
    vid: u128,
    wid: u64,
    event: Seq<char>,
    name: Seq<char>,
    value: ValueV,
    edit: EditV,
) -> bool {
    if has_action_graph_spec(fs, vid, wid, event) {
        a == ActionV::RunFlows { view_id: vid, widget_id: wid, event, payload: seq![(name, value)] }
    } else if has_view(vs, vid) {
        a == ActionV::SetProperty { view_id: vid, widget_id: wid, edit }
    } else {
        a == ActionV::Nothing
    }
}

/// A widget event hands flows, or stores in the widget, exactly the value it
/// carries: a checkbox or toggler its new checked state, a text input its
/// text, a radio its picked index, a slider its value and a pick list its
/// picked option; each under the event that widget raises.
pub proof fn law_events_carry_their_value(fs: Seq<FlowV>, vs: Seq<AppView>, vid: u128, ev: PreviewEvent)
    ensures
        ev matches PreviewEvent::CheckboxToggled(w, c) ==> answers_with(preview_action_spec(fs, vs, Some(vid), ev),
            fs, vs, vid, w, "on_toggle"@, "checked"@, ValueV::Bool(c), EditV::CheckboxChecked(c)),
        ev matches PreviewEvent::TogglerToggled(w, c) ==> answers_with(preview_action_spec(fs, vs, Some(vid), ev),
            fs, vs, vid, w, "on_toggle"@, "checked"@, ValueV::Bool(c), EditV::TogglerActive(c)),
        ev matches PreviewEvent::TextInputChanged(w, t) ==> answers_with(preview_action_spec(fs, vs, Some(vid), ev),
            fs, vs, vid, w, "on_input"@, "text"@, ValueV::String(t@), EditV::TextInputValue(t@)),
        ev matches PreviewEvent::TextPasted(w, t) ==> answers_with(preview_action_spec(fs, vs, Some(vid), ev),
            fs, vs, vid, w, "on_paste"@, "text"@, ValueV::String(t@), EditV::TextInputValue(t@)),
        ev matches PreviewEvent::RadioSelected(w, i, bits) ==> answers_with(preview_action_spec(fs, vs, Some(vid), ev),
            fs, vs, vid, w, "on_select"@, "selected"@, ValueV::Number(bits), EditV::RadioSelectedIndex(i)),
        ev matches PreviewEvent::SliderChanged(w, b32, b64) ==> answers_with(
            preview_action_spec(fs, vs, Some(vid), ev), fs, vs, vid, w, "on_change"@, "value"@, ValueV::Number(b64),
            EditV::SliderValue(b32)),
        ev matches PreviewEvent::PickListSelected(w, t) ==> answers_with(preview_action_spec(fs, vs, Some(vid), ev),
            fs, vs, vid, w, "on_select"@, "selected"@, ValueV::String(t@), EditV::PickListSelected(t@)),
{
}

} // verus!
