//! The state rows a view's settings list for its stateful widgets, named
//! the way generated code names the widgets' state fields.

use vstd::prelude::*;
use crate::naming::{
    chars_of, decimal_spec, field_name_of, field_name_spec, push_decimal, string_from_chars, trim_chars,
    trim_spec,
};
use crate::state_fields::append_str;
use crate::widgets::{Widget, WidgetType};

verus! {

/// The Rust type of the state a widget of type `t` keeps, for the stateful
/// types.
pub open spec fn type_label_spec(t: WidgetType) -> Option<Seq<char>> {
    match t {
        WidgetType::TextInput => Some("String"@),
        WidgetType::Checkbox => Some("bool"@),
        WidgetType::Slider | WidgetType::VerticalSlider => Some("f32"@),
        WidgetType::Toggler => Some("bool"@),
        WidgetType::GenericOverlay => Some("bool"@),
        WidgetType::DatePicker => Some("bool"@),
        WidgetType::PickList => Some("Option<String>"@),
        WidgetType::Radio => Some("usize"@),
        _ => None,
    }
}

/// The Rust type of the state a widget of type `t` keeps (see
/// [`type_label_spec`]).
pub fn stateful_widget_type_label(widget_type: WidgetType) -> (r: Option<&'static str>)
    ensures
        match (r, type_label_spec(widget_type)) {
            (Some(a), Some(b)) => a@ == b,
            (None, None) => true,
            _ => false,
        },
{
    match widget_type {
        WidgetType::TextInput => Some("String"),
        WidgetType::Checkbox => Some("bool"),
        WidgetType::Slider | WidgetType::VerticalSlider => Some("f32"),
        WidgetType::Toggler => Some("bool"),
        WidgetType::GenericOverlay => Some("bool"),
        WidgetType::DatePicker => Some("bool"),
        WidgetType::PickList => Some("Option<String>"),
        WidgetType::Radio => Some("usize"),
        _ => None,
    }
}

/// The name generated code gives the state of an unnamed stateful widget
/// of type `t`.
pub open spec fn default_base_spec(t: WidgetType) -> Seq<char> {
    match t {
        WidgetType::TextInput => "text_input"@,
        WidgetType::Checkbox => "checkbox"@,
        WidgetType::Slider => "slider"@,
        WidgetType::VerticalSlider => "vertical_slider"@,
        WidgetType::Toggler => "toggler"@,
        WidgetType::GenericOverlay => "genericoverlay"@,
        WidgetType::DatePicker => "date_picker"@,
        WidgetType::PickList => "pick_list"@,
        WidgetType::Radio => "radio"@,
        _ => ""@,
    }
}

/// Whether the widget has a name of its own (not blank).
pub open spec fn has_custom_name(w: Widget) -> bool {
    trim_spec(w.properties.widget_name@).len() > 0
}

/// The base of a stateful widget's state name: its own name in field form
/// when it has one, else the default for its type; none for a widget that
/// keeps no state.
pub open spec fn base_name_spec(w: Widget) -> Option<Seq<char>> {
    if type_label_spec(w.widget_type) is None {
        None
    } else if has_custom_name(w) {
        Some(field_name_spec(w.properties.widget_name@))
    } else {
        Some(default_base_spec(w.widget_type))
    }
}

fn default_base(t: WidgetType) -> (s: &'static str)
    ensures
        s@ == default_base_spec(t),
{
    match t {
        WidgetType::TextInput => "text_input",
        WidgetType::Checkbox => "checkbox",
        WidgetType::Slider => "slider",
        WidgetType::VerticalSlider => "vertical_slider",
        WidgetType::Toggler => "toggler",
        WidgetType::GenericOverlay => "genericoverlay",
        WidgetType::DatePicker => "date_picker",
        WidgetType::PickList => "pick_list",
        WidgetType::Radio => "radio",
        _ => "",
    }
}

fn custom_name(w: &Widget) -> (b: bool)
    ensures
        b == has_custom_name(*w),
{
    let cs = chars_of(w.properties.widget_name.as_str());
    let t = trim_chars(&cs);
    t.len() > 0
}

/// The base of a widget's state name (see [`base_name_spec`]).
pub fn auto_state_base_name(widget: &Widget) -> (r: Option<String>)
    ensures
        match (r, base_name_spec(*widget)) {
            (Some(a), Some(b)) => a@ == b,
            (None, None) => true,
            _ => false,
        },
{
    if stateful_widget_type_label(widget.widget_type).is_none() {
        return None;
    }
    if custom_name(widget) {
        return Some(field_name_of(widget.properties.widget_name.as_str()));
    }
    Some(default_base(widget.widget_type).to_string())
}

/// One state row of a view's settings: the widget, the generated name of
/// its state, and the state's Rust type.
#[derive(Debug)]
pub struct AutoStateRow {
    pub widget_id: u64,
    pub generated_name: String,
    pub type_label: &'static str,
}

/// Mathematical form of an [`AutoStateRow`].
pub struct StateRowV {
    pub widget_id: u64,
    pub generated_name: Seq<char>,
    pub type_label: Seq<char>,
}

/// The views of a list of state rows.
pub open spec fn state_rows_view(v: Seq<AutoStateRow>) -> Seq<StateRowV> {
    v.map_values(|r: AutoStateRow| StateRowV {
        widget_id: r.widget_id,
        generated_name: r.generated_name@,
        type_label: r.type_label@,
    })
}

/// How many unnamed widgets of type `t` are among `ws`.
pub open spec fn unnamed_count(ws: Seq<Widget>, t: WidgetType) -> nat
    decreases ws.len(),
{
    if ws.len() == 0 {
        0
    } else {
        unnamed_count(ws.drop_last(), t) + if ws.last().widget_type == t && !has_custom_name(ws.last()) {
            1nat
        } else {
            0nat
        }
    }
}

/// The state rows of the widgets `ws`, in tree order. A named widget's
/// state is named after it; the k-th unnamed widget of a type gets the
/// type's default name, followed by `_k` from the second on.
pub open spec fn state_rows_spec(ws: Seq<Widget>) -> Seq<StateRowV>
    decreases ws.len(),
{
    if ws.len() == 0 {
        Seq::empty()
    } else {
        let w = ws.last();
        state_rows_spec(ws.drop_last()) + match (type_label_spec(w.widget_type), base_name_spec(w)) {
            (Some(label), Some(base)) => {
                let k = unnamed_count(ws, w.widget_type);
                seq![StateRowV {
                    widget_id: w.id,
                    generated_name: if has_custom_name(w) || k <= 1 {
                        base
                    } else {
                        base + "_"@ + decimal_spec(k)
                    },
                    type_label: label,
                }]
            },
            _ => Seq::empty(),
        }
    }
}

fn count_unnamed(ws: &Vec<Widget>, n: usize, t: WidgetType) -> (k: u64)
    requires
        n <= ws@.len(),
    ensures
        k == unnamed_count(ws@.subrange(0, n as int), t),
{
    let mut k: u64 = 0;
    let mut i: usize = 0;
    proof {
        assert(ws@.subrange(0, 0).len() == 0);
    }
    while i < n
        invariant
            n <= ws@.len(),
            i <= n,
            k == unnamed_count(ws@.subrange(0, i as int), t),
            k <= i,
        decreases n - i,
    {
        let ghost p = ws@.subrange(0, i + 1);
        proof {
            assert(p.drop_last() =~= ws@.subrange(0, i as int));
            assert(p.last() == ws@[i as int]);
        }
        if ws[i].widget_type == t && !custom_name(&ws[i]) {
            k = k + 1;
        }
        i = i + 1;
    }
    k
}

/// The state rows of a view's widgets (see [`state_rows_spec`]).
pub fn collect_stateful_widgets(ws: &Vec<Widget>) -> (out: Vec<AutoStateRow>)
    ensures
        state_rows_view(out@) == state_rows_spec(ws@),
{
    let mut out: Vec<AutoStateRow> = Vec::new();
    let mut i: usize = 0;
    proof {
        assert(state_rows_view(out@) =~= state_rows_spec(ws@.subrange(0, 0)));
    }
    while i < ws.len()
        invariant
            i <= ws@.len(),
            state_rows_view(out@) == state_rows_spec(ws@.subrange(0, i as int)),
        decreases ws@.len() - i,
    {
        let w = &ws[i];
        let ghost p = ws@.subrange(0, i + 1);
        proof {
            assert(p.drop_last() =~= ws@.subrange(0, i as int));
            assert(p.last() == *w);
        }
        let label = stateful_widget_type_label(w.widget_type);
        let base = auto_state_base_name(w);
        if let (Some(label), Some(base)) = (label, base) {
            let name = if custom_name(w) {
                base
            } else {
                let k = count_unnamed(ws, i + 1, w.widget_type);
                if k > 1 {
                    let mut cs = chars_of(base.as_str());
                    append_str(&mut cs, "_");
                    push_decimal(&mut cs, k);
                    string_from_chars(&cs)
                } else {
                    base
                }
            };
            let row = AutoStateRow { widget_id: w.id, generated_name: name, type_label: label };
            let ghost rv = StateRowV { widget_id: row.widget_id, generated_name: row.generated_name@, type_label: row.type_label@ };
            let ghost before = out@;
            out.push(row);
            proof {
                assert(state_rows_view(out@) =~= state_rows_view(before).push(rv));
            }
        }
        proof {
            assert(state_rows_view(out@) =~= state_rows_spec(p));
        }
        i = i + 1;
    }
    proof {
        assert(ws@.subrange(0, ws@.len() as int) =~= ws@);
    }
    out
}

} // verus!
