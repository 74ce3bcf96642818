//! What the preview reads from a view's runtime state: which view a view
//! reference shows, whether an overlay or a date picker is open, and the
//! date picker's time label.

use vstd::prelude::*;
use crate::add_views::{
    AppView, KeyV, StateKey, ViewMap, has_view, state_value, state_value_spec, view_pos,
};
use crate::ids::{parse_id, uuid_reading};
use crate::naming::{
    chars_of, decimal_spec, field_name_of, field_name_spec, push_decimal, selection_variant_spec,
    string_from_chars, trim_chars, trim_spec, view_name_to_selection_variant,
};
use crate::values::{ActionValue, ValueV};
use crate::state_fields::append_str;
use crate::widgets::{DatePickerSelectionMode, Widget, WidgetProperties};

verus! {

/// The views a view reference can show: its primary view, then its extra
/// views.
pub open spec fn candidates_spec(w: Widget, primary: u128) -> Seq<u128> {
    seq![primary] + w.properties.extra_view_ids@
}

/// The first candidate that names an existing view whose selection variant
/// is `selected`.
pub open spec fn first_variant_match(vs: Seq<AppView>, cands: Seq<u128>, selected: Seq<char>) -> Option<u128>
    decreases cands.len(),
{
    if cands.len() == 0 {
        None
    } else if has_view(vs, cands[0]) && selection_variant_spec(vs[view_pos(vs, cands[0])].name@) == selected {
        Some(cands[0])
    } else {
        first_variant_match(vs, cands.drop_first(), selected)
    }
}

/// The selection named by a stored state value: an enum variant's name or a
/// string.
pub open spec fn selected_variant_spec(v: Option<ValueV>) -> Option<Seq<char>> {
    match v {
        Some(ValueV::EnumVariant { variant, .. }) => Some(variant),
        Some(ValueV::String(s)) => Some(s),
        _ => None,
    }
}

/// The name of the older, name-derived selection field of a view reference:
/// the widget's name (or, when it is blank, the primary view's name) in
/// field form, followed by `_selection`.
pub open spec fn selection_field_spec(w: Widget, primary_name: Seq<char>) -> Seq<char> {
    (if trim_spec(w.properties.widget_name@).len() > 0 {
        field_name_spec(w.properties.widget_name@)
    } else {
        field_name_spec(primary_name)
    }) + "_selection"@
}

/// The view a view reference shows, given `canonical`, the view id read
/// from the owner's canonical selection state (if it holds one). A
/// reference with one target, or whose owner or primary view is unknown,
/// shows its primary view; otherwise the canonical selection wins when it
/// is one of the targets, then the older name-derived selection (the first
/// target whose view's selection variant it names), then the primary view.
pub open spec fn resolve_spec(w: Widget, current: Option<u128>, vs: Seq<AppView>, canonical: Option<u128>) -> Option<u128> {
    match w.properties.referenced_view_id {
        None => None,
        Some(primary) => if w.properties.extra_view_ids@.len() == 0 {
            Some(primary)
        } else {
            match current {
                None => Some(primary),
                Some(owner) => if !has_view(vs, owner) || !has_view(vs, primary) {
                    Some(primary)
                } else {
                    let cands = candidates_spec(w, primary);
                    if canonical is Some && cands.contains(canonical->0) {
                        canonical
                    } else {
                        let ov = vs[view_pos(vs, owner)];
                        let field = selection_field_spec(w, vs[view_pos(vs, primary)].name@);
                        let key = KeyV::ViewSelection { view_id: owner, field_name: field };
                        match selected_variant_spec(state_value_spec(ov.custom_state_values@, key)) {
                            None => Some(primary),
                            Some(sel) => match first_variant_match(vs, cands, sel) {
                                Some(c) => Some(c),
                                None => Some(primary),
                            },
                        }
                    }
                }
            }
        }
    }
}

/// The text stored as the canonical selection of the view reference
/// `widget_id` in the view `owner`, when it is a string.
pub open spec fn canonical_text_spec(vs: Seq<AppView>, owner: u128, widget_id: u64) -> Option<Seq<char>> {
    if has_view(vs, owner) {
        match state_value_spec(
            vs[view_pos(vs, owner)].custom_state_values@,
            KeyV::ViewReferenceSelection { view_id: owner, widget_id },
        ) {
            Some(ValueV::String(s)) => Some(s),
            _ => None,
        }
    } else {
        None
    }
}

fn seq_contains_id(v: &Vec<u128>, x: u128) -> (b: bool)
    ensures
        b == v@.contains(x),
{
    let mut i: usize = 0;
    while i < v.len()
        invariant
            i <= v@.len(),
            forall|j: int| 0 <= j < i ==> v@[j] != x,
        decreases v@.len() - i,
    {
        if v[i] == x {
            return true;
        }
        i = i + 1;
    }
    false
}

fn first_match_from(views: &ViewMap, primary: u128, extra: &Vec<u128>, selected: &String) -> (r: Option<u128>)
    requires
        views.wf(),
    ensures
        r == first_variant_match(views@, seq![primary] + extra@, selected@),
{
    let ghost cands = seq![primary] + extra@;
    let ghost vs = views@;
    proof {
        assert(cands[0] == primary);
        assert(cands.drop_first() =~= extra@);
    }
    if let Some(pv) = views.get(primary) {
        let variant = view_name_to_selection_variant(pv.name.as_str());
        if variant == *selected {
            return Some(primary);
        }
    }
    let mut i: usize = 0;
    proof {
        assert(extra@.subrange(0, extra@.len() as int) =~= extra@);
    }
    while i < extra.len()
        invariant
            vs == views@,
            cands == seq![primary] + extra@,
            views.wf(),
            i <= extra@.len(),
            first_variant_match(vs, cands, selected@) == first_variant_match(
                vs, extra@.subrange(i as int, extra@.len() as int), selected@),
        decreases extra@.len() - i,
    {
        let c = extra[i];
        proof {
            let rest = extra@.subrange(i as int, extra@.len() as int);
            assert(rest[0] == c);
            assert(rest.drop_first() =~= extra@.subrange(i + 1, extra@.len() as int));
        }
        if let Some(cv) = views.get(c) {
            let variant = view_name_to_selection_variant(cv.name.as_str());
            if variant == *selected {
                proof {
                    let rest = extra@.subrange(i as int, extra@.len() as int);
                    assert(has_view(vs, c));
                    assert(selection_variant_spec(vs[view_pos(vs, c)].name@) == selected@);
                    assert(first_variant_match(vs, rest, selected@) == Some(c));
                }
                return Some(c);
            }
        }
        i = i + 1;
    }
    None
}

/// The view a view reference shows, given the view id `canonical` read from
/// the owner's canonical selection state (see [`resolve_spec`]).
pub fn resolve_with_canonical(
    widget: &Widget,
    current_view_id: Option<u128>,
    views: &ViewMap,
    canonical: Option<u128>,
) -> (r: Option<u128>)
    requires
        views.wf(),
    ensures
        r == resolve_spec(*widget, current_view_id, views@, canonical),
{
    let primary = match widget.properties.referenced_view_id {
        Some(p) => p,
        None => return None,
    };
    if widget.properties.extra_view_ids.len() == 0 {
        return Some(primary);
    }
    let owner_id = match current_view_id {
        Some(o) => o,
        None => return Some(primary),
    };
    let owner = match views.get(owner_id) {
        Some(o) => o,
        None => return Some(primary),
    };
    let primary_view = match views.get(primary) {
        Some(p) => p,
        None => return Some(primary),
    };
    if let Some(t) = canonical {
        if t == primary || seq_contains_id(&widget.properties.extra_view_ids, t) {
            proof {
                let cands = candidates_spec(*widget, primary);
                if t == primary {
                    assert(cands[0] == t);
                } else {
                    let k = choose|k: int| 0 <= k < widget.properties.extra_view_ids@.len()
                        && widget.properties.extra_view_ids@[k] == t;
                    assert(cands[k + 1] == t);
                }
            }
            return Some(t);
        } else {
            proof {
                let cands = candidates_spec(*widget, primary);
                assert(!cands.contains(t)) by {
                    if cands.contains(t) {
                        let k = choose|k: int| 0 <= k < cands.len() && cands[k] == t;
                        if k > 0 {
                            assert(widget.properties.extra_view_ids@[k - 1] == t);
                        }
                    }
                }
            }
        }
    }
    let name_chars = chars_of(widget.properties.widget_name.as_str());
    let trimmed = trim_chars(&name_chars);
    let base = if trimmed.len() > 0 {
        field_name_of(widget.properties.widget_name.as_str())
    } else {
        field_name_of(primary_view.name.as_str())
    };
    let mut field_chars = chars_of(base.as_str());
    let suffix = chars_of("_selection");
    let mut k: usize = 0;
    let ghost fc0 = field_chars@;
    while k < suffix.len()
        invariant
            k <= suffix@.len(),
            field_chars@ == fc0 + suffix@.subrange(0, k as int),
        decreases suffix@.len() - k,
    {
        field_chars.push(suffix[k]);
        k = k + 1;
        proof {
            assert(field_chars@ =~= fc0 + suffix@.subrange(0, k as int));
        }
    }
    proof {
        assert(suffix@.subrange(0, suffix@.len() as int) =~= suffix@);
    }
    let field_name = string_from_chars(&field_chars);
    let key = StateKey::ViewSelection { view_id: owner_id, field_name };
    let selected: Option<&String> = match state_value(&owner.custom_state_values, &key) {
        Some(ActionValue::EnumVariant { variant, .. }) => Some(variant),
        Some(ActionValue::String(s)) => Some(s),
        _ => None,
    };
    match selected {
        None => Some(primary),
        Some(sel) => match first_match_from(views, primary, &widget.properties.extra_view_ids, sel) {
            Some(c) => Some(c),
            None => Some(primary),
        },
    }
}

/// The view a view reference shows while `current_view_id` is the view
/// being previewed: the canonical selection state is read and parsed as an
/// id, then [`resolve_with_canonical`] decides.
pub fn resolve_view_reference_target_view_id(
    widget: &Widget,
    current_view_id: Option<u128>,
    views: &ViewMap,
) -> (r: Option<u128>)
    requires
        views.wf(),
    ensures
        r == resolve_spec(
            *widget,
            current_view_id,
            views@,
            match current_view_id {
                Some(owner) => match canonical_text_spec(views@, owner, widget.id) {
                    Some(t) => uuid_reading(t),
                    None => None,
                },
                None => None,
            },
        ),
{
    let canonical = match current_view_id {
        Some(owner_id) => match views.get(owner_id) {
            Some(owner) => {
                let key = StateKey::ViewReferenceSelection { view_id: owner_id, widget_id: widget.id };
                match state_value(&owner.custom_state_values, &key) {
                    Some(ActionValue::String(raw)) => parse_id(raw.as_str()),
                    _ => None,
                }
            },
            None => None,
        },
        None => None,
    };
    resolve_with_canonical(widget, current_view_id, views, canonical)
}

} // verus!

verus! {

/// The first widget of a listing with `id`, if any.
pub open spec fn widget_by_id_spec(ws: Seq<Widget>, id: u64) -> Option<Widget>
    decreases ws.len(),
{
    if ws.len() == 0 {
        None
    } else if ws[0].id == id {
        Some(ws[0])
    } else {
        widget_by_id_spec(ws.drop_first(), id)
    }
}

/// The first widget of a listing with `id`, if any.
pub fn widget_by_id(ws: &Vec<Widget>, id: u64) -> (r: Option<&Widget>)
    ensures
        match r {
            Some(w) => widget_by_id_spec(ws@, id) == Some(*w),
            None => widget_by_id_spec(ws@, id) is None,
        },
{
    let mut i: usize = 0;
    proof {
        assert(ws@.subrange(0, ws@.len() as int) =~= ws@);
    }
    while i < ws.len()
        invariant
            i <= ws@.len(),
            widget_by_id_spec(ws@, id) == widget_by_id_spec(ws@.subrange(i as int, ws@.len() as int), id),
        decreases ws@.len() - i,
    {
        proof {
            let rest = ws@.subrange(i as int, ws@.len() as int);
            assert(rest[0] == ws@[i as int]);
            assert(rest.drop_first() =~= ws@.subrange(i + 1, ws@.len() as int));
        }
        if ws[i].id == id {
            return Some(&ws[i]);
        }
        i = i + 1;
    }
    None
}

/// Whether a stateful popup of a widget is open in the view being
/// previewed: the boolean kept under `key` in that view's state, else the
/// widget's "initially open" flag (`initially_open` picks which), else
/// closed. With no view previewed, or an unknown one, it is closed.
pub open spec fn popup_open_spec(
    current: Option<u128>,
    vs: Seq<AppView>,
    key: KeyV,
    widget_id: u64,
    overlay: bool,
) -> bool {
    match current {
        None => false,
        Some(view_id) => if !has_view(vs, view_id) {
            false
        } else {
            let v = vs[view_pos(vs, view_id)];
            match state_value_spec(v.custom_state_values@, key) {
                Some(ValueV::Bool(b)) => b,
                _ => match widget_by_id_spec(v.hierarchy.widgets@, widget_id) {
                    Some(w) => if overlay {
                        w.properties.generic_overlay_initially_open
                    } else {
                        w.properties.date_picker_initially_open
                    },
                    None => false,
                },
            }
        },
    }
}

/// Whether the generic overlay `widget_id` is open in the view being
/// previewed (see [`popup_open_spec`]).
pub fn generic_overlay_is_open(current_view_id: Option<u128>, views: &ViewMap, widget_id: u64) -> (b: bool)
    requires
        views.wf(),
    ensures
        b == popup_open_spec(
            current_view_id,
            views@,
            match current_view_id {
                Some(v) => KeyV::GenericOverlayOpen { view_id: v, widget_id },
                None => KeyV::Custom(0),
            },
            widget_id,
            true,
        ),
{
    let view_id = match current_view_id {
        Some(v) => v,
        None => return false,
    };
    let view = match views.get(view_id) {
        Some(v) => v,
        None => return false,
    };
    let key = StateKey::GenericOverlayOpen { view_id, widget_id };
    if let Some(ActionValue::Bool(is_open)) = state_value(&view.custom_state_values, &key) {
        return *is_open;
    }
    match widget_by_id(&view.hierarchy.widgets, widget_id) {
        Some(w) => w.properties.generic_overlay_initially_open,
        None => false,
    }
}

/// Whether the date picker `widget_id` is open in the view being previewed
/// (see [`popup_open_spec`]).
pub fn date_picker_is_open(current_view_id: Option<u128>, views: &ViewMap, widget_id: u64) -> (b: bool)
    requires
        views.wf(),
    ensures
        b == popup_open_spec(
            current_view_id,
            views@,
            match current_view_id {
                Some(v) => KeyV::DatePickerOpen { view_id: v, widget_id },
                None => KeyV::Custom(0),
            },
            widget_id,
            false,
        ),
{
    let view_id = match current_view_id {
        Some(v) => v,
        None => return false,
    };
    let view = match views.get(view_id) {
        Some(v) => v,
        None => return false,
    };
    let key = StateKey::DatePickerOpen { view_id, widget_id };
    if let Some(ActionValue::Bool(is_open)) = state_value(&view.custom_state_values, &key) {
        return *is_open;
    }
    match widget_by_id(&view.hierarchy.widgets, widget_id) {
        Some(w) => w.properties.date_picker_initially_open,
        None => false,
    }
}

/// A number written with at least two digits (a leading zero below ten).
pub open spec fn two_digits(n: nat) -> Seq<char> {
    if n < 10 { seq!['0'] + decimal_spec(n) } else { decimal_spec(n) }
}

/// The 12-hour label of a time: "hh:mm AM" or "hh:mm PM", hour 0 shown as 12.
pub open spec fn time_label_spec(hour: u32, minute: u32) -> Seq<char> {
    let h12: nat = if hour % 12 == 0 { 12 } else { (hour % 12) as nat };
    two_digits(h12) + seq![':'] + two_digits(minute as nat) + (if hour >= 12 { " PM"@ } else { " AM"@ })
}

fn push_two_digits(out: &mut Vec<char>, n: u64)
    ensures
        final(out)@ == old(out)@ + two_digits(n as nat),
{
    if n < 10 {
        out.push('0');
    }
    push_decimal(out, n);
    proof {
        if n < 10 {
            assert(final(out)@ =~= old(out)@ + two_digits(n as nat));
        }
    }
}

/// The label of a date picker's time (see [`time_label_spec`]).
pub fn format_date_picker_time(hour: u32, minute: u32) -> (s: String)
    ensures
        s@ == time_label_spec(hour, minute),
{
    let h = hour % 12;
    let h12: u64 = if h == 0 { 12 } else { h as u64 };
    let mut out: Vec<char> = Vec::new();
    push_two_digits(&mut out, h12);
    out.push(':');
    push_two_digits(&mut out, minute as u64);
    let suffix = if hour >= 12 { chars_of(" PM") } else { chars_of(" AM") };
    let ghost before = out@;
    let mut k: usize = 0;
    while k < suffix.len()
        invariant
            k <= suffix@.len(),
            out@ == before + suffix@.subrange(0, k as int),
        decreases suffix@.len() - k,
    {
        out.push(suffix[k]);
        k = k + 1;
        proof {
            assert(out@ =~= before + suffix@.subrange(0, k as int));
        }
    }
    proof {
        assert(suffix@.subrange(0, suffix@.len() as int) =~= suffix@);
        assert(out@ =~= time_label_spec(hour, minute));
    }
    string_from_chars(&out)
}

/// The widget `b` is `a` with a picked time stored as the date picker's
/// initial time, the hour capped at 23 and the minute at 59.
pub open spec fn time_applied(a: Widget, b: Widget, hour: u32, minute: u32) -> bool {
    b == (Widget {
        properties: WidgetProperties {
            date_picker_initial_hour: if hour < 23 { hour } else { 23 },
            date_picker_initial_minute: if minute < 59 { minute } else { 59 },
            ..a.properties
        },
        ..a
    })
}

/// Stores a picked time as the date picker's initial time (see
/// [`time_applied`]).
pub fn apply_date_picker_time(widget: &mut Widget, hour: u32, minute: u32)
    ensures
        time_applied(*old(widget), *final(widget), hour, minute),
{
    widget.properties.date_picker_initial_hour = if hour < 23 { hour } else { 23 };
    widget.properties.date_picker_initial_minute = if minute < 59 { minute } else { 59 };
}

} // verus!

verus! {

proof fn lemma_variant_match_is_candidate(vs: Seq<AppView>, cands: Seq<u128>, selected: Seq<char>)
    ensures
        first_variant_match(vs, cands, selected) matches Some(c) ==> cands.contains(c),
    decreases cands.len(),
{
    if cands.len() > 0 {
        lemma_variant_match_is_candidate(vs, cands.drop_first(), selected);
        if let Some(c) = first_variant_match(vs, cands.drop_first(), selected) {
            if !(has_view(vs, cands[0]) && selection_variant_spec(vs[view_pos(vs, cands[0])].name@) == selected) {
                let k = choose|k: int| 0 <= k < cands.drop_first().len() && cands.drop_first()[k] == c;
                assert(cands[k + 1] == c);
            }
        } else {
            if has_view(vs, cands[0]) && selection_variant_spec(vs[view_pos(vs, cands[0])].name@) == selected {
                assert(cands[0] == cands[0]);
            }
        }
    }
}

/// A view reference always shows one of the views it can show: its primary
/// view or one of its extra views; and a canonical selection among those
/// views is the one shown, when the reference can show more than one view
/// and its owner and primary view exist.
pub proof fn law_resolved_view_is_a_target(w: Widget, current: Option<u128>, vs: Seq<AppView>, canonical: Option<u128>)
    requires
        w.properties.referenced_view_id is Some,
    ensures
        resolve_spec(w, current, vs, canonical) matches Some(t)
            && candidates_spec(w, w.properties.referenced_view_id->0).contains(t),
        ({
            let primary = w.properties.referenced_view_id->0;
            (w.properties.extra_view_ids@.len() > 0 && current is Some && has_view(vs, current->0)
                && has_view(vs, primary) && canonical is Some && candidates_spec(w, primary).contains(canonical->0))
                ==> resolve_spec(w, current, vs, canonical) == canonical
        }),
{
    let primary = w.properties.referenced_view_id->0;
    let cands = candidates_spec(w, primary);
    assert(cands[0] == primary);
    if w.properties.extra_view_ids@.len() > 0 {
        if let Some(owner) = current {
            if has_view(vs, owner) && has_view(vs, primary) {
                let ov = vs[view_pos(vs, owner)];
                let field = selection_field_spec(w, vs[view_pos(vs, primary)].name@);
                let key = KeyV::ViewSelection { view_id: owner, field_name: field };
                if let Some(sel) = selected_variant_spec(state_value_spec(ov.custom_state_values@, key)) {
                    lemma_variant_match_is_candidate(vs, cands, sel);
                }
            }
        }
    }
}

} // verus!

verus! {

/// Whether `s` ends with `suffix`.
pub open spec fn ends_with_spec(s: Seq<char>, suffix: Seq<char>) -> bool {
    suffix.len() <= s.len() && s.subrange(s.len() - suffix.len(), s.len() as int) == suffix
}

/// The text without its surrounding double quotes, when it has both.
pub open spec fn unquoted_spec(e: Seq<char>) -> Seq<char> {
    if e.len() >= 2 && e[0] == '"' && e.last() == '"' {
        e.subrange(1, e.len() - 1)
    } else {
        e
    }
}

/// Whether a state value matches the text a style condition expects
/// (trimmed): a boolean matches "true" or "false" in any ASCII case; a
/// number matches when `number_close` (the expected text reads as a number
/// within a millionth of it); a string matches the text without quotes, or
/// a path ending in `::` and the string; a variant matches its name alone or
/// after its enum's name and `::`.
pub open spec fn value_matches_spec(v: ValueV, expected: Seq<char>, number_close: bool) -> bool {
    let e = trim_spec(expected);
    match v {
        ValueV::Bool(flag) => (flag && crate::values::ascii_lower_spec(e) == "true"@)
            || (!flag && crate::values::ascii_lower_spec(e) == "false"@),
        ValueV::Number(_) => number_close,
        ValueV::String(text) => text == unquoted_spec(e) || ends_with_spec(e, "::"@ + text),
        ValueV::EnumVariant { enum_name, variant } => e == variant || e == enum_name + "::"@ + variant,
    }
}

fn ends_with(s: &Vec<char>, suffix: &Vec<char>) -> (b: bool)
    ensures
        b == ends_with_spec(s@, suffix@),
{
    if suffix.len() > s.len() {
        return false;
    }
    let off = s.len() - suffix.len();
    let mut i: usize = 0;
    while i < suffix.len()
        invariant
            off + suffix.len() == s.len(),
            i <= suffix@.len(),
            forall|j: int| 0 <= j < i ==> s@[off + j] == suffix@[j],
        decreases suffix@.len() - i,
    {
        if s[off + i] != suffix[i] {
            proof {
                assert(s@.subrange(off as int, s@.len() as int)[i as int] == s@[off + i]);
            }
            return false;
        }
        i = i + 1;
    }
    proof {
        assert(s@.subrange(off as int, s@.len() as int) =~= suffix@);
    }
    true
}

fn chars_equal(a: &Vec<char>, b: &Vec<char>) -> (r: bool)
    ensures
        r == (a@ == b@),
{
    if a.len() != b.len() {
        return false;
    }
    let mut i: usize = 0;
    while i < a.len()
        invariant
            a@.len() == b@.len(),
            i <= a@.len(),
            forall|j: int| 0 <= j < i ==> a@[j] == b@[j],
        decreases a@.len() - i,
    {
        if a[i] != b[i] {
            return false;
        }
        i = i + 1;
    }
    proof {
        assert(a@ =~= b@);
    }
    true
}

/// Whether a state value matches the text a style condition expects (see
/// [`value_matches_spec`]); `number_close` is consulted for numbers only.
pub fn value_matches_expected(value: &ActionValue, expected: &str, number_close: bool) -> (b: bool)
    ensures
        b == value_matches_spec(value@, expected@, number_close),
{
    let cs = chars_of(expected);
    let e = trim_chars(&cs);
    match value {
        ActionValue::Bool(flag) => {
            let low = crate::values::ascii_lower(&e);
            let t = chars_of("true");
            let f = chars_of("false");
            (*flag && chars_equal(&low, &t)) || (!*flag && chars_equal(&low, &f))
        },
        ActionValue::Number(_) => number_close,
        ActionValue::String(text) => {
            let tc = chars_of(text.as_str());
            let n = e.len();
            let unq = if n >= 2 && e[0] == '"' && e[n - 1] == '"' {
                let mut u: Vec<char> = Vec::new();
                let mut k: usize = 1;
                while k < n - 1
                    invariant
                        n == e@.len(),
                        n >= 2,
                        1 <= k <= n - 1,
                        u@ == e@.subrange(1, k as int),
                    decreases n - 1 - k,
                {
                    u.push(e[k]);
                    k = k + 1;
                    proof {
                        assert(u@ =~= e@.subrange(1, k as int));
                    }
                }
                u
            } else {
                let mut u: Vec<char> = Vec::new();
                let mut k: usize = 0;
                while k < n
                    invariant
                        n == e@.len(),
                        k <= n,
                        u@ == e@.subrange(0, k as int),
                    decreases n - k,
                {
                    u.push(e[k]);
                    k = k + 1;
                    proof {
                        assert(u@ =~= e@.subrange(0, k as int));
                    }
                }
                proof {
                    assert(e@.subrange(0, n as int) =~= e@);
                }
                u
            };
            let mut suffix = chars_of("::");
            crate::state_fields::append_str(&mut suffix, text.as_str());
            chars_equal(&tc, &unq) || ends_with(&e, &suffix)
        },
        ActionValue::EnumVariant { enum_name, variant } => {
            let vc = chars_of(variant.as_str());
            let mut full = chars_of(enum_name.as_str());
            crate::state_fields::append_str(&mut full, "::");
            crate::state_fields::append_str(&mut full, variant.as_str());
            chars_equal(&e, &vc) || chars_equal(&e, &full)
        },
    }
}

/// The first custom field of a view named `name`, if any.
pub open spec fn custom_named_spec(fs: Seq<crate::add_views::CustomStateField>, name: Seq<char>) -> Option<u128>
    decreases fs.len(),
{
    if fs.len() == 0 {
        None
    } else if fs[0].name@ == name {
        Some(fs[0].id)
    } else {
        custom_named_spec(fs.drop_first(), name)
    }
}

/// The value a style condition on `field_name` reads in the view being
/// previewed: that of the custom field so named, when it has one, else that
/// of the view-reference selection so named.
pub open spec fn style_value_spec(current: Option<u128>, vs: Seq<AppView>, field_name: Seq<char>) -> Option<ValueV> {
    match current {
        None => None,
        Some(view_id) => if !has_view(vs, view_id) {
            None
        } else {
            let v = vs[view_pos(vs, view_id)];
            let from_custom = match custom_named_spec(v.custom_state@, field_name) {
                Some(id) => state_value_spec(v.custom_state_values@, KeyV::Custom(id)),
                None => None,
            };
            match from_custom {
                Some(x) => Some(x),
                None => state_value_spec(
                    v.custom_state_values@,
                    KeyV::ViewSelection { view_id, field_name },
                ),
            }
        },
    }
}

fn custom_named(fs: &Vec<crate::add_views::CustomStateField>, name: &String) -> (r: Option<u128>)
    ensures
        r == custom_named_spec(fs@, name@),
{
    let mut i: usize = 0;
    proof {
        assert(fs@.subrange(0, fs@.len() as int) =~= fs@);
    }
    while i < fs.len()
        invariant
            i <= fs@.len(),
            custom_named_spec(fs@, name@) == custom_named_spec(fs@.subrange(i as int, fs@.len() as int), name@),
        decreases fs@.len() - i,
    {
        proof {
            let rest = fs@.subrange(i as int, fs@.len() as int);
            assert(rest[0] == fs@[i as int]);
            assert(rest.drop_first() =~= fs@.subrange(i + 1, fs@.len() as int));
        }
        if fs[i].name == *name {
            return Some(fs[i].id);
        }
        i = i + 1;
    }
    None
}

/// The value a style condition on `field_name` reads (see
/// [`style_value_spec`]).
pub fn style_condition_value<'a>(current_view_id: Option<u128>, views: &'a ViewMap, field_name: &String) -> (r: Option<&'a ActionValue>)
    requires
        views.wf(),
    ensures
        match r {
            Some(v) => style_value_spec(current_view_id, views@, field_name@) == Some(v@),
            None => style_value_spec(current_view_id, views@, field_name@) is None,
        },
{
    let view_id = match current_view_id {
        Some(v) => v,
        None => return None,
    };
    let view = match views.get(view_id) {
        Some(v) => v,
        None => return None,
    };
    if let Some(id) = custom_named(&view.custom_state, field_name) {
        if let Some(v) = state_value(&view.custom_state_values, &StateKey::Custom(id)) {
            return Some(v);
        }
    }
    let key = StateKey::ViewSelection { view_id, field_name: field_name.clone() };
    state_value(&view.custom_state_values, &key)
}

/// Whether a style condition holds in the view being previewed: the value
/// it reads exists and matches the expected text (see
/// [`value_matches_spec`]).
pub fn style_condition_matches(
    current_view_id: Option<u128>,
    views: &ViewMap,
    field_name: &String,
    expected: &str,
    number_close: bool,
) -> (b: bool)
    requires
        views.wf(),
    ensures
        b == match style_value_spec(current_view_id, views@, field_name@) {
            Some(v) => value_matches_spec(v, expected@, number_close),
            None => false,
        },
{
    match style_condition_value(current_view_id, views, field_name) {
        Some(v) => value_matches_expected(v, expected, number_close),
        None => false,
    }
}

/// Whether a widget switches to its alternate style: only when it has one;
/// always when no condition field is set; never when the field or the
/// expected value is blank; otherwise when the condition (on the trimmed
/// field and expected value) holds.
pub open spec fn use_alternate_spec(w: Widget, current: Option<u128>, vs: Seq<AppView>, number_close: bool) -> bool {
    if w.properties.active_style_name is None {
        false
    } else {
        match w.properties.style_condition_field {
            None => true,
            Some(field) => if trim_spec(field@).len() == 0 {
                false
            } else {
                match w.properties.style_condition_value {
                    None => false,
                    Some(exp) => if trim_spec(exp@).len() == 0 {
                        false
                    } else {
                        match style_value_spec(current, vs, trim_spec(field@)) {
                            Some(v) => value_matches_spec(v, trim_spec(exp@), number_close),
                            None => false,
                        }
                    },
                }
            },
        }
    }
}

/// Whether a widget switches to its alternate style (see
/// [`use_alternate_spec`]); `number_close` says whether the value the
/// condition reads, when it is a number, is within a millionth of the
/// expected number.
pub fn should_use_alternate_style(widget: &Widget, current_view_id: Option<u128>, views: &ViewMap, number_close: bool) -> (b: bool)
    requires
        views.wf(),
    ensures
        b == use_alternate_spec(*widget, current_view_id, views@, number_close),
{
    if widget.properties.active_style_name.is_none() {
        return false;
    }
    match &widget.properties.style_condition_field {
        None => true,
        Some(field) => {
            let fc = chars_of(field.as_str());
            let ft = trim_chars(&fc);
            if ft.len() == 0 {
                return false;
            }
            match &widget.properties.style_condition_value {
                None => false,
                Some(exp) => {
                    let ec = chars_of(exp.as_str());
                    let et = trim_chars(&ec);
                    if et.len() == 0 {
                        return false;
                    }
                    let f = string_from_chars(&ft);
                    let e = string_from_chars(&et);
                    style_condition_matches(current_view_id, views, &f, e.as_str(), number_close)
                },
            }
        },
    }
}

/// The style a widget is drawn with: its alternate style (or, lacking one,
/// its own) while the alternate applies, else its own style.
pub fn selected_widget_style_name(widget: &Widget, use_alternate: bool) -> (r: Option<String>)
    ensures
        r matches Some(s) ==> (if use_alternate && widget.properties.active_style_name is Some {
            s@ == widget.properties.active_style_name->0@
        } else {
            widget.properties.custom_style_name is Some && s@ == widget.properties.custom_style_name->0@
        }),
        r is None <==> (if use_alternate {
            widget.properties.active_style_name is None && widget.properties.custom_style_name is None
        } else {
            widget.properties.custom_style_name is None
        }),
{
    if use_alternate {
        if let Some(a) = &widget.properties.active_style_name {
            return Some(a.clone());
        }
    }
    match &widget.properties.custom_style_name {
        Some(c) => Some(c.clone()),
        None => None,
    }
}

} // verus!

verus! {

/// A calendar date of a date picker.
#[derive(Debug, Clone, Copy, PartialEq, Eq, Structural)]
pub struct PickerDate {
    pub year: i32,
    /// 1 to 12.
    pub month: u32,
    /// 1 to 31.
    pub day: u32,
}

/// What a date picker has selected: maybe one date, or a range whose ends
/// may be missing.
#[derive(Debug, Clone, Copy, PartialEq, Eq, Structural)]
pub enum DateSelection {
    Single(Option<PickerDate>),
    Range { start: Option<PickerDate>, end: Option<PickerDate> },
}

/// A number written with at least four digits (leading zeros).
pub open spec fn four_digits(n: nat) -> Seq<char> {
    if n < 10 {
        seq!['0', '0', '0'] + decimal_spec(n)
    } else if n < 100 {
        seq!['0', '0'] + decimal_spec(n)
    } else if n < 1000 {
        seq!['0'] + decimal_spec(n)
    } else {
        decimal_spec(n)
    }
}

/// A year as dates show it: four digits from 0 to 9999, a minus sign
/// before the four-digit magnitude of a negative year, a plus sign before
/// a year past 9999.
pub open spec fn year_text(y: int) -> Seq<char> {
    if 0 <= y <= 9999 {
        four_digits(y as nat)
    } else if y < 0 {
        seq!['-'] + four_digits((-y) as nat)
    } else {
        seq!['+'] + decimal_spec(y as nat)
    }
}

/// A date written month first: "MM/DD/YYYY".
pub open spec fn month_first_text(d: PickerDate) -> Seq<char> {
    two_digits(d.month as nat) + seq!['/'] + two_digits(d.day as nat) + seq!['/'] + year_text(d.year as int)
}

/// A date written year first: "YYYY-MM-DD".
pub open spec fn year_first_text(d: PickerDate) -> Seq<char> {
    year_text(d.year as int) + seq!['-'] + two_digits(d.month as nat) + seq!['-'] + two_digits(d.day as nat)
}

fn push_four_digits(out: &mut Vec<char>, n: u64)
    ensures
        final(out)@ == old(out)@ + four_digits(n as nat),
{
    if n < 10 {
        out.push('0');
        out.push('0');
        out.push('0');
    } else if n < 100 {
        out.push('0');
        out.push('0');
    } else if n < 1000 {
        out.push('0');
    }
    push_decimal(out, n);
    proof {
        assert(final(out)@ =~= old(out)@ + four_digits(n as nat));
    }
}

fn push_year(out: &mut Vec<char>, y: i32)
    ensures
        final(out)@ == old(out)@ + year_text(y as int),
{
    if 0 <= y && y <= 9999 {
        push_four_digits(out, y as u64);
    } else if y < 0 {
        out.push('-');
        let m: i64 = -(y as i64);
        push_four_digits(out, m as u64);
        proof {
            assert(final(out)@ =~= old(out)@ + year_text(y as int));
        }
    } else {
        out.push('+');
        push_decimal(out, y as u64);
        proof {
            assert(final(out)@ =~= old(out)@ + year_text(y as int));
        }
    }
}

fn push_month_first(out: &mut Vec<char>, d: PickerDate)
    ensures
        final(out)@ == old(out)@ + month_first_text(d),
{
    push_two_digits(out, d.month as u64);
    out.push('/');
    push_two_digits(out, d.day as u64);
    out.push('/');
    push_year(out, d.year);
    proof {
        assert(final(out)@ =~= old(out)@ + month_first_text(d));
    }
}

/// The date written year first (see [`year_first_text`]).
pub fn year_first_date(d: PickerDate) -> (s: String)
    ensures
        s@ == year_first_text(d),
{
    let mut out: Vec<char> = Vec::new();
    push_year(&mut out, d.year);
    out.push('-');
    push_two_digits(&mut out, d.month as u64);
    out.push('-');
    push_two_digits(&mut out, d.day as u64);
    proof {
        assert(out@ =~= year_first_text(d));
    }
    string_from_chars(&out)
}

/// `base`, followed by a space and the time label when the time is shown.
pub open spec fn with_time(base: Seq<char>, hour: u32, minute: u32, show_time: bool) -> Seq<char> {
    if show_time { base + seq![' '] + time_label_spec(hour, minute) } else { base }
}

/// The label of a date picker's button: the selected date, the range
/// "start -> end", or "start -> ..." while the end is missing, each
/// followed by the time when it is shown; the placeholder when nothing
/// (or only a range's end) is selected.
pub open spec fn button_label_spec(
    sel: DateSelection,
    hour: u32,
    minute: u32,
    placeholder: Seq<char>,
    show_time: bool,
) -> Seq<char> {
    match sel {
        DateSelection::Single(Some(d)) => with_time(month_first_text(d), hour, minute, show_time),
        DateSelection::Range { start: Some(s), end: Some(e) } => with_time(
            month_first_text(s) + " -> "@ + month_first_text(e), hour, minute, show_time),
        DateSelection::Range { start: Some(s), end: None } => with_time(
            month_first_text(s) + " -> ..."@, hour, minute, show_time),
        _ => placeholder,
    }
}

/// The label of a date picker's button (see [`button_label_spec`]).
pub fn format_date_picker_button_label(
    selection: &DateSelection,
    hour: u32,
    minute: u32,
    placeholder: &str,
    show_time: bool,
) -> (s: String)
    ensures
        s@ == button_label_spec(*selection, hour, minute, placeholder@, show_time),
{
    let mut out: Vec<char> = Vec::new();
    match selection {
        DateSelection::Single(Some(d)) => {
            push_month_first(&mut out, *d);
        },
        DateSelection::Range { start: Some(st), end: Some(e) } => {
            push_month_first(&mut out, *st);
            append_str(&mut out, " -> ");
            push_month_first(&mut out, *e);
        },
        DateSelection::Range { start: Some(st), end: None } => {
            push_month_first(&mut out, *st);
            append_str(&mut out, " -> ...");
        },
        _ => {
            return placeholder.to_string();
        },
    }
    if show_time {
        out.push(' ');
        let t = format_date_picker_time(hour, minute);
        let tc = chars_of(t.as_str());
        let ghost before = out@;
        let mut k: usize = 0;
        while k < tc.len()
            invariant
                k <= tc@.len(),
                out@ == before + tc@.subrange(0, k as int),
            decreases tc@.len() - k,
        {
            out.push(tc[k]);
            k = k + 1;
            proof {
                assert(out@ =~= before + tc@.subrange(0, k as int));
            }
        }
        proof {
            assert(tc@.subrange(0, tc@.len() as int) =~= tc@);
        }
    }
    proof {
        assert(out@ =~= button_label_spec(*selection, hour, minute, placeholder@, show_time));
    }
    string_from_chars(&out)
}

/// The stored text of an optional date: year first, or empty.
pub open spec fn stored_date_text(d: Option<PickerDate>) -> Seq<char> {
    match d {
        Some(d) => year_first_text(d),
        None => Seq::empty(),
    }
}

fn stored_date(d: Option<PickerDate>) -> (s: String)
    ensures
        s@ == stored_date_text(d),
{
    match d {
        Some(d) => year_first_date(d),
        None => String::new(),
    }
}

/// The widget `b` is `a` with a picked selection stored as the date
/// picker's initial selection: the mode follows the selection's kind, its
/// dates are stored year first (empty where missing), and the fields of the
/// other kind are cleared; nothing else changes.
pub open spec fn selection_applied(a: Widget, b: Widget, sel: DateSelection) -> bool {
    &&& b == (Widget {
        properties: WidgetProperties {
            date_picker_mode: b.properties.date_picker_mode,
            date_picker_initial_single_date: b.properties.date_picker_initial_single_date,
            date_picker_initial_range_start: b.properties.date_picker_initial_range_start,
            date_picker_initial_range_end: b.properties.date_picker_initial_range_end,
            ..a.properties
        },
        ..a
    })
    &&& match sel {
        DateSelection::Single(d) => {
            &&& b.properties.date_picker_mode == DatePickerSelectionMode::Single
            &&& b.properties.date_picker_initial_single_date@ == stored_date_text(d)
            &&& b.properties.date_picker_initial_range_start@ == Seq::<char>::empty()
            &&& b.properties.date_picker_initial_range_end@ == Seq::<char>::empty()
        },
        DateSelection::Range { start, end } => {
            &&& b.properties.date_picker_mode == DatePickerSelectionMode::Range
            &&& b.properties.date_picker_initial_single_date@ == Seq::<char>::empty()
            &&& b.properties.date_picker_initial_range_start@ == stored_date_text(start)
            &&& b.properties.date_picker_initial_range_end@ == stored_date_text(end)
        },
    }
}

/// Stores a picked selection as the date picker's initial selection (see
/// [`selection_applied`]).
pub fn apply_date_picker_selection(widget: &mut Widget, selection: &DateSelection)
    ensures
        selection_applied(*old(widget), *final(widget), *selection),
{
    match selection {
        DateSelection::Single(d) => {
            widget.properties.date_picker_mode = DatePickerSelectionMode::Single;
            widget.properties.date_picker_initial_single_date = stored_date(*d);
            widget.properties.date_picker_initial_range_start = String::new();
            widget.properties.date_picker_initial_range_end = String::new();
        },
        DateSelection::Range { start, end } => {
            widget.properties.date_picker_mode = DatePickerSelectionMode::Range;
            widget.properties.date_picker_initial_single_date = String::new();
            widget.properties.date_picker_initial_range_start = stored_date(*start);
            widget.properties.date_picker_initial_range_end = stored_date(*end);
        },
    }
}

} // verus!
