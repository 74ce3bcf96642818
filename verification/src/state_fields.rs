//! The state a flow can read or write: widget state, view-reference
//! selections and custom fields of every view, and the view references a
//! navigate node can switch.

use vstd::prelude::*;
use crate::add_views::{AppView, CustomStateField, ViewMap, has_view, view_pos};
use crate::conditions::{StateFieldRef, StateFieldV, StateRefSource, SourceRefV, fields_view};
use crate::naming::{
    chars_of, decimal_spec, field_name_of, field_name_spec, pascal_case, pascal_case_spec, push_decimal,
    snake_case, snake_case_spec, string_from_chars, trim_chars, trim_spec,
};
use crate::nodes::{ContextV, NavOptionV, NodeEditContext, ViewOption, ViewReferenceNavOption, nav_view, navs_view};
use crate::values::{ActionValueType, ValueTypeV, strs_view};
use crate::widgets::{Widget, WidgetType};

verus! {

/// Appends the characters of `s` to `out`.
pub fn append_str(out: &mut Vec<char>, s: &str)
    ensures
        final(out)@ == old(out)@ + s@,
{
    let cs = chars_of(s);
    let ghost start = out@;
    let mut k: usize = 0;
    while k < cs.len()
        invariant
            k <= cs@.len(),
            out@ == start + cs@.subrange(0, k as int),
        decreases cs@.len() - k,
    {
        out.push(cs[k]);
        k = k + 1;
        proof {
            assert(out@ =~= start + cs@.subrange(0, k as int));
        }
    }
    proof {
        assert(cs@.subrange(0, cs@.len() as int) =~= cs@);
    }
}

/// The name of a widget type as its variant is spelled.
pub open spec fn type_name_spec(t: WidgetType) -> Seq<char> {
    match t {
        WidgetType::Container => "Container"@,
        WidgetType::Scrollable => "Scrollable"@,
        WidgetType::Row => "Row"@,
        WidgetType::Column => "Column"@,
        WidgetType::Button => "Button"@,
        WidgetType::Text => "Text"@,
        WidgetType::TextInput => "TextInput"@,
        WidgetType::Checkbox => "Checkbox"@,
        WidgetType::Radio => "Radio"@,
        WidgetType::Slider => "Slider"@,
        WidgetType::VerticalSlider => "VerticalSlider"@,
        WidgetType::ProgressBar => "ProgressBar"@,
        WidgetType::Toggler => "Toggler"@,
        WidgetType::PickList => "PickList"@,
        WidgetType::Space => "Space"@,
        WidgetType::Rule => "Rule"@,
        WidgetType::Image => "Image"@,
        WidgetType::Svg => "Svg"@,
        WidgetType::Tooltip => "Tooltip"@,
        WidgetType::ComboBox => "ComboBox"@,
        WidgetType::Markdown => "Markdown"@,
        WidgetType::MouseArea => "MouseArea"@,
        WidgetType::Pin => "Pin"@,
        WidgetType::QRCode => "QRCode"@,
        WidgetType::ViewReference => "ViewReference"@,
        WidgetType::GenericOverlay => "GenericOverlay"@,
        WidgetType::DatePicker => "DatePicker"@,
        WidgetType::Stack => "Stack"@,
        WidgetType::Collapsible => "Collapsible"@,
        WidgetType::CollapsibleGroup => "CollapsibleGroup"@,
        WidgetType::Grid => "Grid"@,
        WidgetType::Themer => "Themer"@,
        WidgetType::Table => "Table"@,
        WidgetType::Icon => "Icon"@,
    }
}

/// The name of a widget type as its variant is spelled.
pub fn widget_type_name(t: WidgetType) -> (s: &'static str)
    ensures
        s@ == type_name_spec(t),
{
    match t {
        WidgetType::Container => "Container",
        WidgetType::Scrollable => "Scrollable",
        WidgetType::Row => "Row",
        WidgetType::Column => "Column",
        WidgetType::Button => "Button",
        WidgetType::Text => "Text",
        WidgetType::TextInput => "TextInput",
        WidgetType::Checkbox => "Checkbox",
        WidgetType::Radio => "Radio",
        WidgetType::Slider => "Slider",
        WidgetType::VerticalSlider => "VerticalSlider",
        WidgetType::ProgressBar => "ProgressBar",
        WidgetType::Toggler => "Toggler",
        WidgetType::PickList => "PickList",
        WidgetType::Space => "Space",
        WidgetType::Rule => "Rule",
        WidgetType::Image => "Image",
        WidgetType::Svg => "Svg",
        WidgetType::Tooltip => "Tooltip",
        WidgetType::ComboBox => "ComboBox",
        WidgetType::Markdown => "Markdown",
        WidgetType::MouseArea => "MouseArea",
        WidgetType::Pin => "Pin",
        WidgetType::QRCode => "QRCode",
        WidgetType::ViewReference => "ViewReference",
        WidgetType::GenericOverlay => "GenericOverlay",
        WidgetType::DatePicker => "DatePicker",
        WidgetType::Stack => "Stack",
        WidgetType::Collapsible => "Collapsible",
        WidgetType::CollapsibleGroup => "CollapsibleGroup",
        WidgetType::Grid => "Grid",
        WidgetType::Themer => "Themer",
        WidgetType::Table => "Table",
        WidgetType::Icon => "Icon",
    }
}

/// The state a widget of type `t` keeps: the suffix of its field, the value
/// type, and the label shown after the widget's name.
pub open spec fn widget_state_spec(t: WidgetType) -> Option<(Seq<char>, ValueTypeV, Seq<char>)> {
    match t {
        WidgetType::TextInput => Some(("_value"@, ValueTypeV::String, "value"@)),
        WidgetType::Slider | WidgetType::VerticalSlider => Some(("_value"@, ValueTypeV::F32, "value"@)),
        WidgetType::Checkbox => Some(("_checked"@, ValueTypeV::Bool, "checked"@)),
        WidgetType::Toggler => Some(("_active"@, ValueTypeV::Bool, "active"@)),
        WidgetType::GenericOverlay => Some(("_open"@, ValueTypeV::Bool, "open"@)),
        WidgetType::DatePicker => Some(("_open"@, ValueTypeV::Bool, "open"@)),
        WidgetType::PickList => Some(("_selected"@, ValueTypeV::String, "selected"@)),
        WidgetType::Radio => Some(("_selected"@, ValueTypeV::Usize, "selected"@)),
        _ => None,
    }
}

/// How a widget is named in state labels: its name, or its type's name when
/// it has none.
pub open spec fn widget_label_spec(w: Widget) -> Seq<char> {
    if w.properties.widget_name@.len() == 0 {
        type_name_spec(w.widget_type)
    } else {
        w.properties.widget_name@
    }
}

/// The widget state fields of a view, widget by widget in tree order.
pub open spec fn widget_fields_spec(view_id: u128, view_name: Seq<char>, ws: Seq<Widget>) -> Seq<StateFieldV>
    decreases ws.len(),
{
    if ws.len() == 0 {
        Seq::empty()
    } else {
        let w = ws.last();
        widget_fields_spec(view_id, view_name, ws.drop_last()) + match widget_state_spec(w.widget_type) {
            Some((suffix, t, label)) => seq![StateFieldV {
                view_id,
                source: SourceRefV::Widget { widget_id: w.id, field_suffix: suffix },
                field_type: t,
                display_name: view_name + " / "@ + widget_label_spec(w) + " / "@ + label,
            }],
            None => Seq::empty(),
        }
    }
}

fn widget_state(t: WidgetType) -> (r: Option<(&'static str, ActionValueType, &'static str)>)
    ensures
        match (r, widget_state_spec(t)) {
            (Some((a, b, c)), Some((x, y, z))) => a@ == x && b@ == y && c@ == z,
            (None, None) => true,
            _ => false,
        },
{
    match t {
        WidgetType::TextInput => Some(("_value", ActionValueType::String, "value")),
        WidgetType::Slider | WidgetType::VerticalSlider => Some(("_value", ActionValueType::F32, "value")),
        WidgetType::Checkbox => Some(("_checked", ActionValueType::Bool, "checked")),
        WidgetType::Toggler => Some(("_active", ActionValueType::Bool, "active")),
        WidgetType::GenericOverlay => Some(("_open", ActionValueType::Bool, "open")),
        WidgetType::DatePicker => Some(("_open", ActionValueType::Bool, "open")),
        WidgetType::PickList => Some(("_selected", ActionValueType::String, "selected")),
        WidgetType::Radio => Some(("_selected", ActionValueType::Usize, "selected")),
        _ => None,
    }
}

/// Appends the widget state fields of a view (see [`widget_fields_spec`]).
pub fn collect_fields_from_widgets(view_id: u128, view_name: &str, ws: &Vec<Widget>, out: &mut Vec<StateFieldRef>)
    ensures
        fields_view(final(out)@) == fields_view(old(out)@) + widget_fields_spec(view_id, view_name@, ws@),
{
    let ghost start = fields_view(out@);
    let mut i: usize = 0;
    proof {
        assert(ws@.subrange(0, 0).len() == 0);
        assert(fields_view(out@) =~= start + widget_fields_spec(view_id, view_name@, ws@.subrange(0, 0)));
    }
    while i < ws.len()
        invariant
            i <= ws@.len(),
            fields_view(out@) == start + widget_fields_spec(view_id, view_name@, ws@.subrange(0, i as int)),
        decreases ws@.len() - i,
    {
        let w = &ws[i];
        let ghost prefix = ws@.subrange(0, i + 1);
        proof {
            assert(prefix.drop_last() =~= ws@.subrange(0, i as int));
            assert(prefix.last() == *w);
        }
        match widget_state(w.widget_type) {
            Some((suffix, t, label)) => {
                let mut name: Vec<char> = Vec::new();
                append_str(&mut name, view_name);
                append_str(&mut name, " / ");
                if w.properties.widget_name.unicode_len() == 0 {
                    append_str(&mut name, widget_type_name(w.widget_type));
                } else {
                    append_str(&mut name, w.properties.widget_name.as_str());
                }
                append_str(&mut name, " / ");
                append_str(&mut name, label);
                let f = StateFieldRef {
                    view_id,
                    source: StateRefSource::Widget { widget_id: w.id, field_suffix: suffix.to_string() },
                    field_type: t,
                    display_name: string_from_chars(&name),
                };
                let ghost fv = f@;
                let ghost before = out@;
                out.push(f);
                proof {
                    assert(fields_view(out@) =~= fields_view(before).push(fv));
                    assert(fields_view(out@) =~= start + widget_fields_spec(view_id, view_name@, prefix));
                }
            },
            None => {
                proof {
                    assert(fields_view(out@) =~= start + widget_fields_spec(view_id, view_name@, prefix));
                }
            },
        }
        i = i + 1;
    }
    proof {
        assert(ws@.subrange(0, ws@.len() as int) =~= ws@);
    }
}

} // verus!

verus! {

/// The selection variants of the extra views of a view reference that
/// exist, in order: each view's name in snake_case, then PascalCase.
pub open spec fn extra_variants_spec(all: Seq<AppView>, ids: Seq<u128>) -> Seq<Seq<char>>
    decreases ids.len(),
{
    if ids.len() == 0 {
        Seq::empty()
    } else {
        extra_variants_spec(all, ids.drop_last()) + if has_view(all, ids.last()) {
            seq![pascal_case_spec(snake_case_spec(all[view_pos(all, ids.last())].name@))]
        } else {
            Seq::empty()
        }
    }
}

/// The field-form name of a view reference's selection: the widget's name,
/// or the primary view's when the widget's is blank.
pub open spec fn primary_field_spec(w: Widget, primary_name: Seq<char>) -> Seq<char> {
    if trim_spec(w.properties.widget_name@).len() > 0 {
        field_name_spec(w.properties.widget_name@)
    } else {
        field_name_spec(primary_name)
    }
}

/// The selection field of a view reference that can show more than one
/// view (and whose primary view exists): an enum named after the field,
/// with a variant for the primary view and each existing extra view.
pub open spec fn selection_field_spec(all: Seq<AppView>, view_id: u128, view_name: Seq<char>, w: Widget) -> Option<StateFieldV> {
    if w.widget_type == WidgetType::ViewReference && w.properties.referenced_view_id is Some
        && w.properties.extra_view_ids@.len() > 0
        && has_view(all, w.properties.referenced_view_id->0) {
        let pv = all[view_pos(all, w.properties.referenced_view_id->0)];
        let pf = primary_field_spec(w, pv.name@);
        Some(StateFieldV {
            view_id,
            source: SourceRefV::ViewSelection { widget_id: w.id, field_name: pf + "_selection"@ },
            field_type: ValueTypeV::Enum {
                enum_name: pascal_case_spec(pf) + "Selection"@,
                variants: seq![pascal_case_spec(snake_case_spec(pv.name@))]
                    + extra_variants_spec(all, w.properties.extra_view_ids@),
            },
            display_name: view_name + " / "@ + pf + " (view selection)"@,
        })
    } else {
        None
    }
}

/// The selection fields of a view, widget by widget in tree order.
pub open spec fn selection_fields_spec(all: Seq<AppView>, view_id: u128, view_name: Seq<char>, ws: Seq<Widget>) -> Seq<StateFieldV>
    decreases ws.len(),
{
    if ws.len() == 0 {
        Seq::empty()
    } else {
        selection_fields_spec(all, view_id, view_name, ws.drop_last()) + match selection_field_spec(
            all,
            view_id,
            view_name,
            ws.last(),
        ) {
            Some(f) => seq![f],
            None => Seq::empty(),
        }
    }
}

/// The state field of a custom field of a view.
pub open spec fn custom_field_spec(view_id: u128, view_name: Seq<char>, f: CustomStateField) -> StateFieldV {
    StateFieldV {
        view_id,
        source: SourceRefV::Custom { field_id: f.id, field_name: f.name@ },
        field_type: f.field_type.value_type@,
        display_name: view_name + " / "@ + f.display_name@ + " (custom)"@,
    }
}

/// All state fields of one view: its widgets' state, its view-reference
/// selections, then its custom fields.
pub open spec fn view_fields_spec(all: Seq<AppView>, v: AppView) -> Seq<StateFieldV> {
    widget_fields_spec(v.id, v.name@, v.hierarchy.widgets@)
        + selection_fields_spec(all, v.id, v.name@, v.hierarchy.widgets@)
        + v.custom_state@.map_values(|f: CustomStateField| custom_field_spec(v.id, v.name@, f))
}

/// The state fields of the views `vs` (part of `all`), view by view.
pub open spec fn state_fields_spec(all: Seq<AppView>, vs: Seq<AppView>) -> Seq<StateFieldV>
    decreases vs.len(),
{
    if vs.len() == 0 {
        Seq::empty()
    } else {
        state_fields_spec(all, vs.drop_last()) + view_fields_spec(all, vs.last())
    }
}

fn extra_variants(views: &ViewMap, ids: &Vec<u128>, out: &mut Vec<String>)
    requires
        views.wf(),
    ensures
        strs_view(final(out)@) == strs_view(old(out)@) + extra_variants_spec(views@, ids@),
{
    let ghost start = strs_view(out@);
    let mut i: usize = 0;
    proof {
        assert(strs_view(out@) =~= start + extra_variants_spec(views@, ids@.subrange(0, 0)));
    }
    while i < ids.len()
        invariant
            views.wf(),
            i <= ids@.len(),
            strs_view(out@) == start + extra_variants_spec(views@, ids@.subrange(0, i as int)),
        decreases ids@.len() - i,
    {
        let ghost prefix = ids@.subrange(0, i + 1);
        proof {
            assert(prefix.drop_last() =~= ids@.subrange(0, i as int));
        }
        if let Some(ev) = views.get(ids[i]) {
            let sn = snake_case(ev.name.as_str());
            let p = pascal_case(sn.as_str());
            let ghost pv = p@;
            let ghost before = out@;
            out.push(p);
            proof {
                assert(strs_view(out@) =~= strs_view(before).push(pv));
            }
        }
        proof {
            assert(strs_view(out@) =~= start + extra_variants_spec(views@, prefix));
        }
        i = i + 1;
    }
    proof {
        assert(ids@.subrange(0, ids@.len() as int) =~= ids@);
    }
}

fn selection_field(views: &ViewMap, view_id: u128, view_name: &str, w: &Widget) -> (r: Option<StateFieldRef>)
    requires
        views.wf(),
    ensures
        match (r, selection_field_spec(views@, view_id, view_name@, *w)) {
            (Some(f), Some(g)) => f@ == g,
            (None, None) => true,
            _ => false,
        },
{
    if w.widget_type != WidgetType::ViewReference {
        return None;
    }
    let primary = match w.properties.referenced_view_id {
        Some(p) => p,
        None => return None,
    };
    if w.properties.extra_view_ids.len() == 0 {
        return None;
    }
    let pv = match views.get(primary) {
        Some(v) => v,
        None => return None,
    };
    let name_chars = chars_of(w.properties.widget_name.as_str());
    let trimmed = trim_chars(&name_chars);
    let pf = if trimmed.len() > 0 {
        field_name_of(w.properties.widget_name.as_str())
    } else {
        field_name_of(pv.name.as_str())
    };
    let mut field_name: Vec<char> = Vec::new();
    append_str(&mut field_name, pf.as_str());
    append_str(&mut field_name, "_selection");
    let mut enum_name: Vec<char> = Vec::new();
    let pp = pascal_case(pf.as_str());
    append_str(&mut enum_name, pp.as_str());
    append_str(&mut enum_name, "Selection");
    let mut variants: Vec<String> = Vec::new();
    let first = pascal_case(snake_case(pv.name.as_str()).as_str());
    let ghost fv = first@;
    variants.push(first);
    proof {
        assert(strs_view(variants@) =~= seq![fv]);
    }
    extra_variants(views, &w.properties.extra_view_ids, &mut variants);
    let mut display: Vec<char> = Vec::new();
    append_str(&mut display, view_name);
    append_str(&mut display, " / ");
    append_str(&mut display, pf.as_str());
    append_str(&mut display, " (view selection)");
    Some(StateFieldRef {
        view_id,
        source: StateRefSource::ViewSelection { widget_id: w.id, field_name: string_from_chars(&field_name) },
        field_type: ActionValueType::Enum { enum_name: string_from_chars(&enum_name), variants },
        display_name: string_from_chars(&display),
    })
}

/// Appends the selection fields of a view (see [`selection_fields_spec`]).
pub fn collect_view_selection_fields(
    views: &ViewMap,
    view_id: u128,
    view_name: &str,
    ws: &Vec<Widget>,
    out: &mut Vec<StateFieldRef>,
)
    requires
        views.wf(),
    ensures
        fields_view(final(out)@) == fields_view(old(out)@) + selection_fields_spec(views@, view_id, view_name@, ws@),
{
    let ghost start = fields_view(out@);
    let mut i: usize = 0;
    proof {
        assert(fields_view(out@) =~= start + selection_fields_spec(views@, view_id, view_name@, ws@.subrange(0, 0)));
    }
    while i < ws.len()
        invariant
            views.wf(),
            i <= ws@.len(),
            fields_view(out@) == start + selection_fields_spec(views@, view_id, view_name@, ws@.subrange(0, i as int)),
        decreases ws@.len() - i,
    {
        let ghost prefix = ws@.subrange(0, i + 1);
        proof {
            assert(prefix.drop_last() =~= ws@.subrange(0, i as int));
            assert(prefix.last() == ws@[i as int]);
        }
        let ghost before = out@;
        match selection_field(views, view_id, view_name, &ws[i]) {
            Some(f) => {
                let ghost fv = f@;
                out.push(f);
                proof {
                    assert(fields_view(out@) =~= fields_view(before).push(fv));
                }
            },
            None => {},
        }
        proof {
            assert(fields_view(out@) =~= start + selection_fields_spec(views@, view_id, view_name@, prefix));
        }
        i = i + 1;
    }
    proof {
        assert(ws@.subrange(0, ws@.len() as int) =~= ws@);
    }
}

fn custom_field(view_id: u128, view_name: &str, f: &CustomStateField) -> (r: StateFieldRef)
    ensures
        r@ == custom_field_spec(view_id, view_name@, *f),
{
    let mut display: Vec<char> = Vec::new();
    append_str(&mut display, view_name);
    append_str(&mut display, " / ");
    append_str(&mut display, f.display_name.as_str());
    append_str(&mut display, " (custom)");
    StateFieldRef {
        view_id,
        source: StateRefSource::Custom { field_id: f.id, field_name: f.name.clone() },
        field_type: f.field_type.value_type.clone(),
        display_name: string_from_chars(&display),
    }
}

/// Every state field of every view, view by view in id order (see
/// [`view_fields_spec`]).
pub fn collect_state_fields(views: &ViewMap) -> (out: Vec<StateFieldRef>)
    requires
        views.wf(),
    ensures
        fields_view(out@) == state_fields_spec(views@, views@),
{
    let vs = views.as_vec();
    let mut out: Vec<StateFieldRef> = Vec::new();
    let mut i: usize = 0;
    proof {
        assert(fields_view(out@) =~= state_fields_spec(views@, vs@.subrange(0, 0)));
    }
    while i < vs.len()
        invariant
            views.wf(),
            vs@ == views@,
            i <= vs@.len(),
            fields_view(out@) == state_fields_spec(views@, vs@.subrange(0, i as int)),
        decreases vs@.len() - i,
    {
        let v = &vs[i];
        let ghost prefix = vs@.subrange(0, i + 1);
        let ghost before = fields_view(out@);
        proof {
            assert(prefix.drop_last() =~= vs@.subrange(0, i as int));
            assert(prefix.last() == *v);
        }
        collect_fields_from_widgets(v.id, v.name.as_str(), &v.hierarchy.widgets, &mut out);
        collect_view_selection_fields(views, v.id, v.name.as_str(), &v.hierarchy.widgets, &mut out);
        let ghost mid = fields_view(out@);
        let mut k: usize = 0;
        while k < v.custom_state.len()
            invariant
                k <= v.custom_state@.len(),
                fields_view(out@) == mid + v.custom_state@.subrange(0, k as int).map_values(
                    |f: CustomStateField| custom_field_spec(v.id, v.name@, f)),
            decreases v.custom_state@.len() - k,
        {
            let f = custom_field(v.id, v.name.as_str(), &v.custom_state[k]);
            let ghost fv = f@;
            let ghost b2 = out@;
            out.push(f);
            k = k + 1;
            proof {
                assert(fields_view(out@) =~= fields_view(b2).push(fv));
                assert(v.custom_state@.subrange(0, k as int).map_values(
                    |f: CustomStateField| custom_field_spec(v.id, v.name@, f))
                    =~= v.custom_state@.subrange(0, k - 1).map_values(
                    |f: CustomStateField| custom_field_spec(v.id, v.name@, f)).push(fv));
            }
        }
        proof {
            assert(v.custom_state@.subrange(0, v.custom_state@.len() as int) =~= v.custom_state@);
            assert(fields_view(out@) =~= state_fields_spec(views@, prefix));
        }
        i = i + 1;
    }
    proof {
        assert(vs@.subrange(0, vs@.len() as int) =~= vs@);
    }
    out
}

} // verus!

verus! {

/// The views a view reference can show: its candidates without repeats
/// (first occurrence kept), leaving out ids of no view, each with the
/// view's name.
pub open spec fn nav_targets_spec(all: Seq<AppView>, cands: Seq<u128>) -> Seq<(u128, Seq<char>)>
    decreases cands.len(),
{
    if cands.len() == 0 {
        Seq::empty()
    } else {
        let c = cands.last();
        nav_targets_spec(all, cands.drop_last()) + if !cands.drop_last().contains(c) && has_view(all, c) {
            seq![(c, all[view_pos(all, c)].name@)]
        } else {
            Seq::empty()
        }
    }
}

/// The label of a switchable view reference: the owner view's name, `/`,
/// then the widget's trimmed name, or `widget_<id>` when it is blank.
pub open spec fn nav_label_spec(owner_name: Seq<char>, w: Widget) -> Seq<char> {
    owner_name + "/"@ + if trim_spec(w.properties.widget_name@).len() > 0 {
        trim_spec(w.properties.widget_name@)
    } else {
        "widget_"@ + decimal_spec(w.id as nat)
    }
}

/// The navigate option a widget of the view `owner` gives: a view reference
/// with a primary view and more than one view it can show.
pub open spec fn nav_option_spec(all: Seq<AppView>, owner: AppView, w: Widget) -> Option<NavOptionV> {
    if w.widget_type == WidgetType::ViewReference && w.properties.referenced_view_id is Some {
        let targets = nav_targets_spec(all, seq![w.properties.referenced_view_id->0] + w.properties.extra_view_ids@);
        if targets.len() > 1 {
            Some(NavOptionV {
                owner_view_id: owner.id,
                widget_id: w.id,
                label: nav_label_spec(owner.name@, w),
                targets,
            })
        } else {
            None
        }
    } else {
        None
    }
}

/// The navigate options of the widgets `ws` of the view `owner`, in tree
/// order.
pub open spec fn widget_navs_spec(all: Seq<AppView>, owner: AppView, ws: Seq<Widget>) -> Seq<NavOptionV>
    decreases ws.len(),
{
    if ws.len() == 0 {
        Seq::empty()
    } else {
        widget_navs_spec(all, owner, ws.drop_last()) + match nav_option_spec(all, owner, ws.last()) {
            Some(o) => seq![o],
            None => Seq::empty(),
        }
    }
}

/// The navigate options of the views `vs`, view by view, before sorting.
pub open spec fn view_navs_spec(all: Seq<AppView>, vs: Seq<AppView>) -> Seq<NavOptionV>
    decreases vs.len(),
{
    if vs.len() == 0 {
        Seq::empty()
    } else {
        view_navs_spec(all, vs.drop_last()) + widget_navs_spec(all, vs.last(), vs.last().hierarchy.widgets@)
    }
}

/// Whether `a` comes before `b` or equals it, character by character.
pub open spec fn label_le(a: Seq<char>, b: Seq<char>) -> bool
    decreases a.len(),
{
    if a.len() == 0 {
        true
    } else if b.len() == 0 {
        false
    } else if a[0] != b[0] {
        a[0] < b[0]
    } else {
        label_le(a.drop_first(), b.drop_first())
    }
}

/// Where `x` goes in `s` so that it follows every entry from the end back
/// to the last one whose label is not above its own.
pub open spec fn sorted_pos(s: Seq<NavOptionV>, x: NavOptionV) -> int
    decreases s.len(),
{
    if s.len() == 0 {
        0
    } else if label_le(s.last().label, x.label) {
        s.len() as int
    } else {
        sorted_pos(s.drop_last(), x)
    }
}

/// The options ordered by label, options with the same label keeping their
/// order (an insertion sort).
pub open spec fn sort_by_label(s: Seq<NavOptionV>) -> Seq<NavOptionV>
    decreases s.len(),
{
    if s.len() == 0 {
        s
    } else {
        let t = sort_by_label(s.drop_last());
        t.insert(sorted_pos(t, s.last()), s.last())
    }
}

proof fn lemma_sorted_pos_range(s: Seq<NavOptionV>, x: NavOptionV)
    ensures
        0 <= sorted_pos(s, x) <= s.len(),
    decreases s.len(),
{
    if s.len() > 0 && !label_le(s.last().label, x.label) {
        lemma_sorted_pos_range(s.drop_last(), x);
    }
}

proof fn lemma_sort_len(s: Seq<NavOptionV>)
    ensures
        sort_by_label(s).len() == s.len(),
    decreases s.len(),
{
    if s.len() > 0 {
        lemma_sort_len(s.drop_last());
        lemma_sorted_pos_range(sort_by_label(s.drop_last()), s.last());
    }
}

pub(crate) fn label_le_exec(a: &String, b: &String) -> (r: bool)
    ensures
        r == label_le(a@, b@),
{
    let ac = chars_of(a.as_str());
    let bc = chars_of(b.as_str());
    let mut i: usize = 0;
    proof {
        assert(ac@.subrange(0, ac@.len() as int) =~= ac@);
        assert(bc@.subrange(0, bc@.len() as int) =~= bc@);
    }
    while i < ac.len() && i < bc.len() && ac[i] == bc[i]
        invariant
            i <= ac@.len(),
            i <= bc@.len(),
            label_le(a@, b@) == label_le(ac@.subrange(i as int, ac@.len() as int), bc@.subrange(i as int, bc@.len() as int)),
        decreases ac@.len() - i,
    {
        proof {
            let ra = ac@.subrange(i as int, ac@.len() as int);
            let rb = bc@.subrange(i as int, bc@.len() as int);
            assert(ra.drop_first() =~= ac@.subrange(i + 1, ac@.len() as int));
            assert(rb.drop_first() =~= bc@.subrange(i + 1, bc@.len() as int));
        }
        i = i + 1;
    }
    proof {
        let ra = ac@.subrange(i as int, ac@.len() as int);
        let rb = bc@.subrange(i as int, bc@.len() as int);
        if i < ac@.len() && i < bc@.len() {
            assert(ra[0] == ac@[i as int] && rb[0] == bc@[i as int]);
        }
    }
    if i == ac.len() {
        true
    } else if i == bc.len() {
        false
    } else {
        ac[i] < bc[i]
    }
}

fn clone_nav(o: &ViewReferenceNavOption) -> (r: ViewReferenceNavOption)
    ensures
        nav_view(r) == nav_view(*o),
{
    let mut targets: Vec<ViewOption> = Vec::new();
    let mut i: usize = 0;
    while i < o.targets.len()
        invariant
            i <= o.targets@.len(),
            targets@.map_values(|t: ViewOption| (t.id, t.name@)) == o.targets@.subrange(0, i as int).map_values(
                |t: ViewOption| (t.id, t.name@)),
        decreases o.targets@.len() - i,
    {
        let t = ViewOption { id: o.targets[i].id, name: o.targets[i].name.clone() };
        let ghost tv = (t.id, t.name@);
        let ghost before = targets@;
        targets.push(t);
        i = i + 1;
        proof {
            assert(tv == (o.targets@[i - 1].id, o.targets@[i - 1].name@));
            assert(targets@.map_values(|t: ViewOption| (t.id, t.name@)) =~= before.map_values(
                |t: ViewOption| (t.id, t.name@)).push(tv));
            assert(targets@.map_values(|t: ViewOption| (t.id, t.name@)) =~= o.targets@.subrange(0, i as int).map_values(
                |t: ViewOption| (t.id, t.name@)));
        }
    }
    proof {
        assert(o.targets@.subrange(0, o.targets@.len() as int) =~= o.targets@);
    }
    ViewReferenceNavOption {
        owner_view_id: o.owner_view_id,
        widget_id: o.widget_id,
        label: o.label.clone(),
        targets,
    }
}

/// Orders the options by label, keeping the order of options with the same
/// label (see [`sort_by_label`]).
pub fn sort_nav_options(opts: Vec<ViewReferenceNavOption>) -> (r: Vec<ViewReferenceNavOption>)
    ensures
        navs_view(r@) == sort_by_label(navs_view(opts@)),
{
    let ghost s = navs_view(opts@);
    let mut out: Vec<ViewReferenceNavOption> = Vec::new();
    let mut i: usize = 0;
    proof {
        assert(s.subrange(0, 0) =~= Seq::<NavOptionV>::empty());
        assert(navs_view(out@) =~= sort_by_label(s.subrange(0, 0)));
    }
    while i < opts.len()
        invariant
            s == navs_view(opts@),
            i <= opts@.len(),
            navs_view(out@) == sort_by_label(s.subrange(0, i as int)),
        decreases opts@.len() - i,
    {
        let x = clone_nav(&opts[i]);
        let ghost xv = nav_view(x);
        let ghost t = navs_view(out@);
        let mut j: usize = out.len();
        proof {
            assert(t.subrange(0, j as int) =~= t);
        }
        while j > 0 && !label_le_exec(&out[j - 1].label, &x.label)
            invariant
                j <= out@.len(),
                t == navs_view(out@),
                xv == nav_view(x),
                sorted_pos(t, xv) == sorted_pos(t.subrange(0, j as int), xv),
            decreases j,
        {
            proof {
                let pre = t.subrange(0, j as int);
                assert(pre.last() == nav_view(out@[j - 1]));
                assert(pre.drop_last() =~= t.subrange(0, j - 1));
            }
            j = j - 1;
        }
        proof {
            let pre = t.subrange(0, j as int);
            if j > 0 {
                assert(pre.last() == nav_view(out@[j - 1]));
            }
            assert(sorted_pos(pre, xv) == j as int);
            let prefix = s.subrange(0, i + 1);
            assert(prefix.drop_last() =~= s.subrange(0, i as int));
            assert(prefix.last() == xv);
        }
        out.insert(j, x);
        i = i + 1;
        proof {
            assert(navs_view(out@) =~= t.insert(j as int, xv));
        }
    }
    proof {
        assert(s.subrange(0, opts@.len() as int) =~= s);
    }
    out
}

} // verus!

verus! {

fn prefix_contains(v: &Vec<u128>, n: usize, x: u128) -> (b: bool)
    requires
        n <= v@.len(),
    ensures
        b == v@.subrange(0, n as int).contains(x),
{
    let mut i: usize = 0;
    while i < n
        invariant
            n <= v@.len(),
            i <= n,
            forall|j: int| 0 <= j < i ==> v@[j] != x,
        decreases n - i,
    {
        if v[i] == x {
            proof {
                assert(v@.subrange(0, n as int)[i as int] == x);
            }
            return true;
        }
        i = i + 1;
    }
    proof {
        if v@.subrange(0, n as int).contains(x) {
            let k = choose|k: int| 0 <= k < n && v@.subrange(0, n as int)[k] == x;
            assert(v@[k] == x);
        }
    }
    false
}

fn nav_targets(views: &ViewMap, primary: u128, extra: &Vec<u128>) -> (r: Vec<ViewOption>)
    requires
        views.wf(),
    ensures
        r@.map_values(|t: ViewOption| (t.id, t.name@)) == nav_targets_spec(views@, seq![primary] + extra@),
{
    let mut cands: Vec<u128> = Vec::new();
    cands.push(primary);
    let mut k: usize = 0;
    while k < extra.len()
        invariant
            k <= extra@.len(),
            cands@ == seq![primary] + extra@.subrange(0, k as int),
        decreases extra@.len() - k,
    {
        cands.push(extra[k]);
        k = k + 1;
        proof {
            assert(cands@ =~= seq![primary] + extra@.subrange(0, k as int));
        }
    }
    proof {
        assert(extra@.subrange(0, extra@.len() as int) =~= extra@);
    }
    let ghost all = cands@;
    let mut out: Vec<ViewOption> = Vec::new();
    let mut i: usize = 0;
    proof {
        assert(out@.map_values(|t: ViewOption| (t.id, t.name@)) =~= nav_targets_spec(views@, all.subrange(0, 0)));
    }
    while i < cands.len()
        invariant
            views.wf(),
            all == cands@,
            i <= all.len(),
            out@.map_values(|t: ViewOption| (t.id, t.name@)) == nav_targets_spec(views@, all.subrange(0, i as int)),
        decreases all.len() - i,
    {
        let c = cands[i];
        let ghost prefix = all.subrange(0, i + 1);
        proof {
            assert(prefix.drop_last() =~= all.subrange(0, i as int));
            assert(prefix.last() == c);
        }
        let ghost before = out@;
        if !prefix_contains(&cands, i, c) {
            if let Some(v) = views.get(c) {
                let t = ViewOption { id: c, name: v.name.clone() };
                let ghost tv = (t.id, t.name@);
                out.push(t);
                proof {
                    assert(out@.map_values(|t: ViewOption| (t.id, t.name@)) =~= before.map_values(
                        |t: ViewOption| (t.id, t.name@)).push(tv));
                }
            }
        }
        proof {
            assert(out@.map_values(|t: ViewOption| (t.id, t.name@)) =~= nav_targets_spec(views@, prefix));
        }
        i = i + 1;
    }
    proof {
        assert(all.subrange(0, all.len() as int) =~= all);
    }
    out
}

fn nav_option(views: &ViewMap, owner: &AppView, w: &Widget) -> (r: Option<ViewReferenceNavOption>)
    requires
        views.wf(),
    ensures
        match (r, nav_option_spec(views@, *owner, *w)) {
            (Some(o), Some(p)) => nav_view(o) == p,
            (None, None) => true,
            _ => false,
        },
{
    if w.widget_type != WidgetType::ViewReference {
        return None;
    }
    let primary = match w.properties.referenced_view_id {
        Some(p) => p,
        None => return None,
    };
    let targets = nav_targets(views, primary, &w.properties.extra_view_ids);
    if targets.len() <= 1 {
        return None;
    }
    let mut label: Vec<char> = Vec::new();
    append_str(&mut label, owner.name.as_str());
    append_str(&mut label, "/");
    let name_chars = chars_of(w.properties.widget_name.as_str());
    let trimmed = trim_chars(&name_chars);
    if trimmed.len() > 0 {
        let ghost before = label@;
        let mut k: usize = 0;
        while k < trimmed.len()
            invariant
                k <= trimmed@.len(),
                label@ == before + trimmed@.subrange(0, k as int),
            decreases trimmed@.len() - k,
        {
            label.push(trimmed[k]);
            k = k + 1;
            proof {
                assert(label@ =~= before + trimmed@.subrange(0, k as int));
            }
        }
        proof {
            assert(trimmed@.subrange(0, trimmed@.len() as int) =~= trimmed@);
        }
    } else {
        append_str(&mut label, "widget_");
        push_decimal(&mut label, w.id);
    }
    proof {
        assert(label@ =~= nav_label_spec(owner.name@, *w));
    }
    Some(ViewReferenceNavOption {
        owner_view_id: owner.id,
        widget_id: w.id,
        label: string_from_chars(&label),
        targets,
    })
}

/// The view references a navigate node can switch (those that can show more
/// than one view), over all views in id order and their widgets in tree
/// order, then ordered by label.
pub fn collect_view_reference_nav_options(views: &ViewMap) -> (r: Vec<ViewReferenceNavOption>)
    requires
        views.wf(),
    ensures
        navs_view(r@) == sort_by_label(view_navs_spec(views@, views@)),
{
    let vs = views.as_vec();
    let mut out: Vec<ViewReferenceNavOption> = Vec::new();
    let mut i: usize = 0;
    proof {
        assert(navs_view(out@) =~= view_navs_spec(views@, vs@.subrange(0, 0)));
    }
    while i < vs.len()
        invariant
            views.wf(),
            vs@ == views@,
            i <= vs@.len(),
            navs_view(out@) == view_navs_spec(views@, vs@.subrange(0, i as int)),
        decreases vs@.len() - i,
    {
        let v = &vs[i];
        let ghost prefix = vs@.subrange(0, i + 1);
        let ghost mid = navs_view(out@);
        proof {
            assert(prefix.drop_last() =~= vs@.subrange(0, i as int));
            assert(prefix.last() == *v);
        }
        let ws = &v.hierarchy.widgets;
        let mut k: usize = 0;
        proof {
            assert(navs_view(out@) =~= mid + widget_navs_spec(views@, *v, ws@.subrange(0, 0)));
        }
        while k < ws.len()
            invariant
                views.wf(),
                k <= ws@.len(),
                navs_view(out@) == mid + widget_navs_spec(views@, *v, ws@.subrange(0, k as int)),
            decreases ws@.len() - k,
        {
            let ghost wp = ws@.subrange(0, k + 1);
            proof {
                assert(wp.drop_last() =~= ws@.subrange(0, k as int));
                assert(wp.last() == ws@[k as int]);
            }
            let ghost before = out@;
            match nav_option(views, v, &ws[k]) {
                Some(o) => {
                    let ghost ov = nav_view(o);
                    out.push(o);
                    proof {
                        assert(navs_view(out@) =~= navs_view(before).push(ov));
                    }
                },
                None => {},
            }
            proof {
                assert(navs_view(out@) =~= mid + widget_navs_spec(views@, *v, wp));
            }
            k = k + 1;
        }
        proof {
            assert(ws@.subrange(0, ws@.len() as int) =~= ws@);
            assert(navs_view(out@) =~= view_navs_spec(views@, prefix));
        }
        i = i + 1;
    }
    proof {
        assert(vs@.subrange(0, vs@.len() as int) =~= vs@);
    }
    sort_nav_options(out)
}

} // verus!

verus! {

/// What node edits see of the views: the first view in id order and the
/// switchable view references in label order.
pub open spec fn edit_context_spec(vs: Seq<AppView>) -> ContextV {
    ContextV {
        first_view_id: if vs.len() > 0 { Some(vs[0].id) } else { None },
        navs: sort_by_label(view_navs_spec(vs, vs)),
    }
}

/// What node edits see of the views (see [`edit_context_spec`]).
pub fn node_edit_context(views: &ViewMap) -> (ctx: NodeEditContext)
    requires
        views.wf(),
    ensures
        ctx@ == edit_context_spec(views@),
{
    let first_view_id = if views.len() > 0 { Some(views.as_vec()[0].id) } else { None };
    NodeEditContext { first_view_id, nav_options: collect_view_reference_nav_options(views) }
}

} // verus!

verus! {

/// With at least one view, the app-view default a navigate node falls back
/// on names an existing view: the first in id order.
pub proof fn law_app_view_default_names_a_view(vs: Seq<AppView>)
    requires
        vs.len() > 0,
    ensures
        crate::nodes::default_target_spec(crate::nodes::NavigateModeOption::AppView, edit_context_spec(vs))
            == Some(crate::nodes::NavigateTarget::AppView { view_id: vs[0].id }),
        has_view(vs, vs[0].id),
{
    assert(vs[0].id == vs[0].id);
}

} // verus!

verus! {

/// A label comes before or equals itself.
pub proof fn lemma_label_le_refl(a: Seq<char>)
    ensures
        label_le(a, a),
    decreases a.len(),
{
    if a.len() > 0 {
        lemma_label_le_refl(a.drop_first());
    }
}

/// Of two labels, one comes before or equals the other.
pub proof fn lemma_label_le_total(a: Seq<char>, b: Seq<char>)
    ensures
        label_le(a, b) || label_le(b, a),
    decreases a.len(),
{
    if a.len() > 0 && b.len() > 0 {
        if a[0] == b[0] {
            lemma_label_le_total(a.drop_first(), b.drop_first());
        }
    }
}

/// The order of labels is transitive.
pub proof fn lemma_label_le_trans(a: Seq<char>, b: Seq<char>, c: Seq<char>)
    requires
        label_le(a, b),
        label_le(b, c),
    ensures
        label_le(a, c),
    decreases a.len(),
{
    if a.len() > 0 && a[0] == b[0] && b[0] == c[0] {
        lemma_label_le_trans(a.drop_first(), b.drop_first(), c.drop_first());
    }
}

/// Whether the options are in label order.
pub open spec fn sorted_by_label(s: Seq<NavOptionV>) -> bool {
    forall|i: int, j: int| 0 <= i < j < s.len() ==> label_le(s[i].label, s[j].label)
}

proof fn lemma_sorted_pos_props(t: Seq<NavOptionV>, x: NavOptionV)
    requires
        sorted_by_label(t),
    ensures
        0 <= sorted_pos(t, x) <= t.len(),
        forall|k: int| 0 <= k < sorted_pos(t, x) ==> label_le(t[k].label, x.label),
        forall|k: int| sorted_pos(t, x) <= k < t.len() ==> !label_le(t[k].label, x.label),
    decreases t.len(),
{
    if t.len() > 0 {
        let last = t.len() - 1;
        if label_le(t.last().label, x.label) {
            assert forall|k: int| 0 <= k < t.len() implies label_le(t[k].label, x.label) by {
                if k < last {
                    lemma_label_le_trans(t[k].label, t[last].label, x.label);
                }
            }
        } else {
            let d = t.drop_last();
            assert(sorted_by_label(d));
            lemma_sorted_pos_props(d, x);
            assert forall|k: int| 0 <= k < sorted_pos(t, x) implies label_le(t[k].label, x.label) by {
                assert(t[k] == d[k]);
            }
            assert forall|k: int| sorted_pos(t, x) <= k < t.len() implies !label_le(t[k].label, x.label) by {
                if k < last {
                    assert(t[k] == d[k]);
                }
            }
        }
    }
}

/// Ordering the switchable view references by label puts them in label
/// order and keeps exactly the same options, each as often as before.
pub proof fn law_nav_options_sorted(s: Seq<NavOptionV>)
    ensures
        sorted_by_label(sort_by_label(s)),
        sort_by_label(s).to_multiset() == s.to_multiset(),
        sort_by_label(s).len() == s.len(),
    decreases s.len(),
{
    lemma_sort_len(s);
    if s.len() > 0 {
        let d = s.drop_last();
        let x = s.last();
        law_nav_options_sorted(d);
        let t = sort_by_label(d);
        lemma_sorted_pos_props(t, x);
        let p = sorted_pos(t, x);
        let r = t.insert(p, x);
        assert(r == sort_by_label(s));
        assert forall|i: int, j: int| 0 <= i < j < r.len() implies label_le(r[i].label, r[j].label) by {
            if j < p {
                assert(r[i] == t[i] && r[j] == t[j]);
            } else if j == p {
                assert(r[i] == t[i]);
            } else if i < p {
                assert(r[i] == t[i] && r[j] == t[j - 1]);
            } else if i == p {
                assert(r[j] == t[j - 1]);
                lemma_label_le_total(t[j - 1].label, x.label);
            } else {
                assert(r[i] == t[i - 1] && r[j] == t[j - 1]);
            }
        }
        vstd::seq_lib::to_multiset_insert(t, p, x);
        assert(d.push(x) =~= s);
        vstd::seq_lib::to_multiset_build(d, x);
    }
}

} // verus!

verus! {

/// A widget as the trigger-row target picker lists it: its view, its id,
/// and the label "view name/widget name" (the type's name for an unnamed
/// widget).
#[derive(Debug)]
pub struct WidgetChoice {
    pub view_id: u128,
    pub widget_id: u64,
    pub label: String,
}

/// The mathematical form of a picker entry.
pub open spec fn choice_view(c: WidgetChoice) -> (u128, u64, Seq<char>) {
    (c.view_id, c.widget_id, c.label@)
}

/// The picker entries of the widgets `ws` of a view.
pub open spec fn widget_choices_spec(view_id: u128, view_name: Seq<char>, ws: Seq<Widget>) -> Seq<(u128, u64, Seq<char>)> {
    ws.map_values(|w: Widget| (view_id, w.id, view_name + "/"@ + widget_label_spec(w)))
}

/// The picker entries of all widgets of the views `vs`, view by view.
pub open spec fn all_choices_spec(vs: Seq<AppView>) -> Seq<(u128, u64, Seq<char>)>
    decreases vs.len(),
{
    if vs.len() == 0 {
        Seq::empty()
    } else {
        all_choices_spec(vs.drop_last()) + widget_choices_spec(vs.last().id, vs.last().name@, vs.last().hierarchy.widgets@)
    }
}

/// Every widget of every view, as the target picker lists them (see
/// [`all_choices_spec`]).
pub fn collect_all_widgets(views: &ViewMap) -> (out: Vec<WidgetChoice>)
    ensures
        out@.map_values(|c: WidgetChoice| choice_view(c)) == all_choices_spec(views@),
{
    let vs = views.as_vec();
    let mut out: Vec<WidgetChoice> = Vec::new();
    let mut i: usize = 0;
    proof {
        assert(out@.map_values(|c: WidgetChoice| choice_view(c)) =~= all_choices_spec(vs@.subrange(0, 0)));
    }
    while i < vs.len()
        invariant
            vs@ == views@,
            i <= vs@.len(),
            out@.map_values(|c: WidgetChoice| choice_view(c)) == all_choices_spec(vs@.subrange(0, i as int)),
        decreases vs@.len() - i,
    {
        let v = &vs[i];
        let ghost prefix = vs@.subrange(0, i + 1);
        let ghost mid = out@.map_values(|c: WidgetChoice| choice_view(c));
        proof {
            assert(prefix.drop_last() =~= vs@.subrange(0, i as int));
            assert(prefix.last() == *v);
        }
        let ws = &v.hierarchy.widgets;
        let mut k: usize = 0;
        while k < ws.len()
            invariant
                k <= ws@.len(),
                out@.map_values(|c: WidgetChoice| choice_view(c)) == mid + widget_choices_spec(v.id, v.name@, ws@.subrange(0, k as int)),
            decreases ws@.len() - k,
        {
            let w = &ws[k];
            let mut label = chars_of(v.name.as_str());
            append_str(&mut label, "/");
            if w.properties.widget_name.unicode_len() == 0 {
                append_str(&mut label, widget_type_name(w.widget_type));
            } else {
                append_str(&mut label, w.properties.widget_name.as_str());
            }
            let c = WidgetChoice { view_id: v.id, widget_id: w.id, label: string_from_chars(&label) };
            let ghost cv = choice_view(c);
            let ghost before = out@;
            out.push(c);
            k = k + 1;
            proof {
                assert(out@.map_values(|c: WidgetChoice| choice_view(c)) =~= before.map_values(
                    |c: WidgetChoice| choice_view(c)).push(cv));
                assert(widget_choices_spec(v.id, v.name@, ws@.subrange(0, k as int)) =~= widget_choices_spec(
                    v.id, v.name@, ws@.subrange(0, k - 1)).push(cv));
            }
        }
        proof {
            assert(ws@.subrange(0, ws@.len() as int) =~= ws@);
            assert(out@.map_values(|c: WidgetChoice| choice_view(c)) =~= all_choices_spec(prefix));
        }
        i = i + 1;
    }
    proof {
        assert(vs@.subrange(0, vs@.len() as int) =~= vs@);
    }
    out
}

/// The number of widgets over all views.
pub open spec fn widget_count_spec(vs: Seq<AppView>) -> nat
    decreases vs.len(),
{
    if vs.len() == 0 {
        0
    } else {
        widget_count_spec(vs.drop_last()) + vs.last().hierarchy.widgets@.len()
    }
}

proof fn lemma_choices_len(vs: Seq<AppView>)
    ensures
        all_choices_spec(vs).len() == widget_count_spec(vs),
    decreases vs.len(),
{
    if vs.len() > 0 {
        lemma_choices_len(vs.drop_last());
    }
}

/// The number of widgets over all views.
pub fn count_all_widgets(views: &ViewMap) -> (n: usize)
    ensures
        n == widget_count_spec(views@),
{
    let all = collect_all_widgets(views);
    proof {
        lemma_choices_len(views@);
    }
    all.len()
}


/// The label order is the lexicographic order of characters: `a` comes
/// before or equals `b` exactly when `a` is a prefix of `b`, or at the
/// first position where they differ `a` has the smaller character.
pub proof fn law_label_le_is_lexicographic(a: Seq<char>, b: Seq<char>)
    ensures
        label_le(a, b) <==> (a.len() <= b.len() && a =~= b.subrange(0, a.len() as int)) || exists|k: int|
            0 <= k < a.len() && k < b.len() && a.subrange(0, k) =~= b.subrange(0, k) && a[k] < b[k],
    decreases a.len(),
{
    if a.len() == 0 {
    } else if b.len() == 0 {
        if exists|k: int| 0 <= k < a.len() && k < b.len() && a.subrange(0, k) =~= b.subrange(0, k) && a[k] < b[k] {
            let k = choose|k: int| 0 <= k < a.len() && k < b.len() && a.subrange(0, k) =~= b.subrange(0, k) && a[k]
                < b[k];
        }
    } else if a[0] != b[0] {
        if a[0] < b[0] {
            assert(a.subrange(0, 0) =~= b.subrange(0, 0));
        } else {
            if exists|k: int| 0 <= k < a.len() && k < b.len() && a.subrange(0, k) =~= b.subrange(0, k) && a[k] < b[k] {
                let k = choose|k: int| 0 <= k < a.len() && k < b.len() && a.subrange(0, k) =~= b.subrange(0, k)
                    && a[k] < b[k];
                if k > 0 {
                    assert(a.subrange(0, k)[0] == b.subrange(0, k)[0]);
                }
            }
            if a.len() <= b.len() && a =~= b.subrange(0, a.len() as int) {
                assert(a[0] == b.subrange(0, a.len() as int)[0]);
            }
        }
    } else {
        let a1 = a.drop_first();
        let b1 = b.drop_first();
        law_label_le_is_lexicographic(a1, b1);
        // prefix part
        if a1.len() <= b1.len() && a1 =~= b1.subrange(0, a1.len() as int) {
            assert(a =~= b.subrange(0, a.len() as int)) by {
                assert forall|i: int| 0 <= i < a.len() implies a[i] == b.subrange(0, a.len() as int)[i] by {
                    if i > 0 {
                        assert(a[i] == a1[i - 1]);
                        assert(b1.subrange(0, a1.len() as int)[i - 1] == b[i]);
                    }
                }
            }
        }
        if a.len() <= b.len() && a =~= b.subrange(0, a.len() as int) {
            assert(a1 =~= b1.subrange(0, a1.len() as int)) by {
                assert forall|i: int| 0 <= i < a1.len() implies a1[i] == b1.subrange(0, a1.len() as int)[i] by {
                    assert(a[i + 1] == b.subrange(0, a.len() as int)[i + 1]);
                }
            }
        }
        // first-difference part
        if exists|k: int| 0 <= k < a1.len() && k < b1.len() && a1.subrange(0, k) =~= b1.subrange(0, k) && a1[k] < b1[k] {
            let k = choose|k: int| 0 <= k < a1.len() && k < b1.len() && a1.subrange(0, k) =~= b1.subrange(0, k)
                && a1[k] < b1[k];
            let ka = a.subrange(0, k + 1);
            let kb = b.subrange(0, k + 1);
            assert(ka =~= kb) by {
                assert forall|i: int| 0 <= i < ka.len() implies ka[i] == kb[i] by {
                    if i > 0 {
                        assert(a1.subrange(0, k)[i - 1] == b1.subrange(0, k)[i - 1]);
                    }
                }
            }
            assert(a[k + 1] < b[k + 1]);
        }
        if exists|k: int| 0 <= k < a.len() && k < b.len() && a.subrange(0, k) =~= b.subrange(0, k) && a[k] < b[k] {
            let k = choose|k: int| 0 <= k < a.len() && k < b.len() && a.subrange(0, k) =~= b.subrange(0, k) && a[k]
                < b[k];
            assert(k > 0);
            let ka = a1.subrange(0, k - 1);
            let kb = b1.subrange(0, k - 1);
            assert(ka =~= kb) by {
                assert forall|i: int| 0 <= i < ka.len() implies ka[i] == kb[i] by {
                    assert(a.subrange(0, k)[i + 1] == b.subrange(0, k)[i + 1]);
                }
            }
            assert(a1[k - 1] < b1[k - 1]);
        }
    }
}

} // verus!
