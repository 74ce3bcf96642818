//! The widget tree of a view.
//!
//! A hierarchy is held as the list of its widgets in depth-first order, each
//! with its depth below the root: the root comes first at depth 0, and a
//! widget's children are the widgets one level deeper that follow it before
//! the next widget at its own depth or above.

use vstd::prelude::*;

verus! {

/// Kind of a widget in the tree.
#[derive(Debug, Clone, Copy, PartialEq, Eq, Structural)]
pub enum WidgetType {
    Container,
    Scrollable,
    Row,
    Column,
    Button,
    Text,
    TextInput,
    Checkbox,
    Radio,
    Slider,
    VerticalSlider,
    ProgressBar,
    Toggler,
    PickList,
    Space,
    Rule,
    Image,
    Svg,
    Tooltip,
    ComboBox,
    Markdown,
    MouseArea,
    Pin,
    QRCode,
    ViewReference,
    GenericOverlay,
    DatePicker,
    Stack,
    Collapsible,
    CollapsibleGroup,
    Grid,
    Themer,
    Table,
    Icon,
}

/// How a date picker selects: one date, or a range of dates.
#[derive(Debug, Clone, Copy, PartialEq, Eq, Structural)]
pub enum DatePickerSelectionMode {
    Single,
    Range,
}

/// The editable properties of a widget that the editor's logic reads.
#[derive(Debug, Clone)]
pub struct WidgetProperties {
    /// Name the user gave the widget; empty when none was given.
    pub widget_name: String,
    /// For a view reference: the view shown by default.
    pub referenced_view_id: Option<u128>,
    /// For a view reference: further views it can switch to.
    pub extra_view_ids: Vec<u128>,
    /// Whether a generic overlay starts open.
    pub generic_overlay_initially_open: bool,
    /// Whether a date picker starts open.
    pub date_picker_initially_open: bool,
    /// Initial hour of a date picker's time selection.
    pub date_picker_initial_hour: u32,
    /// Initial minute of a date picker's time selection.
    pub date_picker_initial_minute: u32,
    /// Whether a date picker selects one date or a range.
    pub date_picker_mode: DatePickerSelectionMode,
    /// Initially selected date of a single-date picker ("YYYY-MM-DD" or empty).
    pub date_picker_initial_single_date: String,
    /// Initial start of a range picker's selection ("YYYY-MM-DD" or empty).
    pub date_picker_initial_range_start: String,
    /// Initial end of a range picker's selection ("YYYY-MM-DD" or empty).
    pub date_picker_initial_range_end: String,
    /// The saved style the widget uses, if any.
    pub custom_style_name: Option<String>,
    /// The saved style the widget switches to while its condition holds.
    pub active_style_name: Option<String>,
    /// The state field the style condition reads.
    pub style_condition_field: Option<String>,
    /// The value the style condition expects.
    pub style_condition_value: Option<String>,
}

impl WidgetProperties {
    /// Properties of a freshly added widget: no name, no references,
    /// overlays closed, a single-date picker with no date, time 00:00.
    pub fn new() -> (p: Self)
        ensures
            p.widget_name@ == Seq::<char>::empty(),
            p.referenced_view_id is None,
            p.extra_view_ids@ == Seq::<u128>::empty(),
            !p.generic_overlay_initially_open,
            !p.date_picker_initially_open,
            p.date_picker_initial_hour == 0,
            p.date_picker_initial_minute == 0,
            p.date_picker_mode == DatePickerSelectionMode::Single,
            p.date_picker_initial_single_date@ == Seq::<char>::empty(),
            p.date_picker_initial_range_start@ == Seq::<char>::empty(),
            p.date_picker_initial_range_end@ == Seq::<char>::empty(),
            p.custom_style_name is None,
            p.active_style_name is None,
            p.style_condition_field is None,
            p.style_condition_value is None,
    {
        WidgetProperties {
            widget_name: String::new(),
            referenced_view_id: None,
            extra_view_ids: Vec::new(),
            generic_overlay_initially_open: false,
            date_picker_initially_open: false,
            date_picker_initial_hour: 0,
            date_picker_initial_minute: 0,
            date_picker_mode: DatePickerSelectionMode::Single,
            date_picker_initial_single_date: String::new(),
            date_picker_initial_range_start: String::new(),
            date_picker_initial_range_end: String::new(),
            custom_style_name: None,
            active_style_name: None,
            style_condition_field: None,
            style_condition_value: None,
        }
    }
}

/// One widget of a hierarchy.
#[derive(Debug, Clone)]
pub struct Widget {
    pub id: u64,
    pub widget_type: WidgetType,
    /// Distance from the root (the root has depth 0).
    pub depth: usize,
    pub properties: WidgetProperties,
}

/// The widgets of one view, in depth-first order.
#[derive(Debug, Clone)]
pub struct WidgetHierarchy {
    pub widgets: Vec<Widget>,
    /// Id the next added widget receives.
    pub next_id: u64,
}

/// Shape of a well-formed depth-first listing: the root alone at depth 0,
/// each widget at most one level below the one before it, distinct ids, all
/// below `next_id`.
pub open spec fn well_formed_listing(ws: Seq<Widget>, next_id: u64) -> bool {
    &&& ws.len() >= 1
    &&& ws[0].depth == 0
    &&& forall|i: int| 1 <= i < ws.len() ==> #[trigger] ws[i].depth >= 1
    &&& forall|i: int| 0 <= i < ws.len() - 1 ==> #[trigger] ws[i + 1].depth <= ws[i].depth + 1
    &&& forall|i: int, j: int| 0 <= i < j < ws.len() ==> ws[i].id != ws[j].id
    &&& forall|i: int| 0 <= i < ws.len() ==> #[trigger] ws[i].id < next_id
}

/// Number of direct children at depth `d + 1` among `ws[k..]`, up to the end
/// of the subtree of a widget at depth `d`.
pub open spec fn children_from(ws: Seq<Widget>, d: int, k: int) -> nat
    decreases ws.len() - k,
{
    if k < 0 || k >= ws.len() || ws[k].depth <= d {
        0
    } else {
        (if ws[k].depth == d + 1 { 1nat } else { 0nat }) + children_from(ws, d, k + 1)
    }
}

/// Number of children of the widget at index `i`.
pub open spec fn child_count(ws: Seq<Widget>, i: int) -> nat {
    children_from(ws, ws[i].depth as int, i + 1)
}

/// Whether some widget of the listing carries `id`.
pub open spec fn has_id(ws: Seq<Widget>, id: u64) -> bool {
    exists|i: int| 0 <= i < ws.len() && ws[i].id == id
}

/// Index of the widget carrying `id` (meaningful when `has_id`).
pub open spec fn index_of(ws: Seq<Widget>, id: u64) -> int {
    choose|i: int| 0 <= i < ws.len() && ws[i].id == id
}

impl WidgetHierarchy {
    pub open spec fn wf(&self) -> bool {
        well_formed_listing(self.widgets@, self.next_id)
    }

    /// A hierarchy holding only a root of the given type, with id 0.
    pub fn new(root_type: WidgetType) -> (h: Self)
        ensures
            h.wf(),
            h.widgets@.len() == 1,
            h.widgets@[0].id == 0,
            h.widgets@[0].widget_type == root_type,
            h.next_id == 1,
    {
        let root = Widget { id: 0, widget_type: root_type, depth: 0, properties: WidgetProperties::new() };
        WidgetHierarchy { widgets: vec![root], next_id: 1 }
    }

    /// Index of the widget with the given id, if there is one.
    pub fn position_of(&self, id: u64) -> (r: Option<usize>)
        ensures
            r is None <==> !has_id(self.widgets@, id),
            r matches Some(i) ==> i < self.widgets@.len() && self.widgets@[i as int].id == id,
            r matches Some(i) ==> forall|j: int| 0 <= j < i ==> self.widgets@[j].id != id,
    {
        let mut i: usize = 0;
        while i < self.widgets.len()
            invariant
                i <= self.widgets@.len(),
                forall|j: int| 0 <= j < i ==> self.widgets@[j].id != id,
            decreases self.widgets@.len() - i,
        {
            if self.widgets[i].id == id {
                return Some(i);
            }
            i = i + 1;
        }
        None
    }

    /// Number of children of the widget at `index`.
    pub fn children_len(&self, index: usize) -> (n: usize)
        requires
            index < self.widgets@.len(),
        ensures
            n == child_count(self.widgets@, index as int),
    {
        let ws = &self.widgets;
        let d = ws[index].depth;
        let len = ws.len();
        let mut k: usize = index + 1;
        let mut n: usize = 0;
        while k < ws.len() && ws[k].depth > d
            invariant
                index < k <= ws@.len(),
                d == ws@[index as int].depth,
                n <= k - index - 1,
                n + children_from(ws@, d as int, k as int) == children_from(ws@, d as int, index + 1),
            decreases ws@.len() - k,
        {
            if ws[k].depth == d + 1 {
                n = n + 1;
            }
            k = k + 1;
        }
        n
    }
}

/// The widget types that may be placed directly inside a widget of any
/// general-purpose parent (a row or a column).
pub open spec fn layout_child_types() -> Seq<WidgetType> {
    seq![
        WidgetType::Container, WidgetType::Scrollable, WidgetType::Row, WidgetType::Column,
        WidgetType::Button, WidgetType::Text, WidgetType::TextInput, WidgetType::Checkbox,
        WidgetType::Radio, WidgetType::Slider, WidgetType::VerticalSlider,
        WidgetType::ProgressBar, WidgetType::Toggler, WidgetType::PickList, WidgetType::Space,
        WidgetType::Rule, WidgetType::Image, WidgetType::Svg, WidgetType::Tooltip,
        WidgetType::ComboBox, WidgetType::Markdown, WidgetType::MouseArea, WidgetType::Pin,
        WidgetType::QRCode, WidgetType::ViewReference,
    ]
}

/// What a mouse area may wrap: everything a row takes but spaces, rules,
/// mouse areas and view references.
pub open spec fn mouse_area_child_types() -> Seq<WidgetType> {
    seq![
        WidgetType::Container, WidgetType::Scrollable, WidgetType::Row, WidgetType::Column,
        WidgetType::Button, WidgetType::Text, WidgetType::TextInput, WidgetType::Checkbox,
        WidgetType::Radio, WidgetType::Slider, WidgetType::VerticalSlider,
        WidgetType::ProgressBar, WidgetType::Toggler, WidgetType::PickList, WidgetType::Space,
        WidgetType::Rule, WidgetType::Image, WidgetType::Svg, WidgetType::Tooltip,
        WidgetType::ComboBox, WidgetType::Markdown, WidgetType::Pin, WidgetType::QRCode,
    ]
}

/// What a tooltip may hold (its content and its tip).
pub open spec fn tooltip_child_types() -> Seq<WidgetType> {
    seq![
        WidgetType::Container, WidgetType::Scrollable, WidgetType::Row, WidgetType::Column,
        WidgetType::Button, WidgetType::Text, WidgetType::TextInput, WidgetType::Checkbox,
        WidgetType::Radio, WidgetType::Slider, WidgetType::VerticalSlider,
        WidgetType::ProgressBar, WidgetType::Toggler, WidgetType::PickList, WidgetType::Image,
        WidgetType::Svg, WidgetType::ComboBox, WidgetType::Markdown, WidgetType::MouseArea,
        WidgetType::Pin, WidgetType::QRCode,
    ]
}

/// What a scrollable may hold.
pub open spec fn scrollable_child_types() -> Seq<WidgetType> {
    seq![WidgetType::Container, WidgetType::Column, WidgetType::Row, WidgetType::ViewReference]
}

/// The widget types that can be added under a parent of type `t`, given
/// whether it is the root and how many children it has.
pub open spec fn available_types_for(t: WidgetType, is_root: bool, n_children: nat) -> Seq<WidgetType> {
    if is_root {
        if n_children == 0 { seq![WidgetType::Column, WidgetType::Row] } else { seq![] }
    } else if t == WidgetType::Scrollable {
        if n_children == 0 { scrollable_child_types() } else { seq![] }
    } else if t == WidgetType::Container {
        if n_children == 0 { layout_child_types() } else { seq![] }
    } else if t == WidgetType::MouseArea {
        if n_children < 1 { mouse_area_child_types() } else { seq![] }
    } else if t == WidgetType::Tooltip {
        if n_children < 2 { tooltip_child_types() } else { seq![] }
    } else if t == WidgetType::Row || t == WidgetType::Column {
        layout_child_types()
    } else {
        seq![]
    }
}

fn layout_child_types_vec() -> (v: Vec<WidgetType>)
    ensures
        v@ == layout_child_types(),
{
    vec![
        WidgetType::Container, WidgetType::Scrollable, WidgetType::Row, WidgetType::Column,
        WidgetType::Button, WidgetType::Text, WidgetType::TextInput, WidgetType::Checkbox,
        WidgetType::Radio, WidgetType::Slider, WidgetType::VerticalSlider,
        WidgetType::ProgressBar, WidgetType::Toggler, WidgetType::PickList, WidgetType::Space,
        WidgetType::Rule, WidgetType::Image, WidgetType::Svg, WidgetType::Tooltip,
        WidgetType::ComboBox, WidgetType::Markdown, WidgetType::MouseArea, WidgetType::Pin,
        WidgetType::QRCode, WidgetType::ViewReference,
    ]
}

fn mouse_area_child_types_vec() -> (v: Vec<WidgetType>)
    ensures
        v@ == mouse_area_child_types(),
{
    vec![
        WidgetType::Container, WidgetType::Scrollable, WidgetType::Row, WidgetType::Column,
        WidgetType::Button, WidgetType::Text, WidgetType::TextInput, WidgetType::Checkbox,
        WidgetType::Radio, WidgetType::Slider, WidgetType::VerticalSlider,
        WidgetType::ProgressBar, WidgetType::Toggler, WidgetType::PickList, WidgetType::Space,
        WidgetType::Rule, WidgetType::Image, WidgetType::Svg, WidgetType::Tooltip,
        WidgetType::ComboBox, WidgetType::Markdown, WidgetType::Pin, WidgetType::QRCode,
    ]
}

fn tooltip_child_types_vec() -> (v: Vec<WidgetType>)
    ensures
        v@ == tooltip_child_types(),
{
    vec![
        WidgetType::Container, WidgetType::Scrollable, WidgetType::Row, WidgetType::Column,
        WidgetType::Button, WidgetType::Text, WidgetType::TextInput, WidgetType::Checkbox,
        WidgetType::Radio, WidgetType::Slider, WidgetType::VerticalSlider,
        WidgetType::ProgressBar, WidgetType::Toggler, WidgetType::PickList, WidgetType::Image,
        WidgetType::Svg, WidgetType::ComboBox, WidgetType::Markdown, WidgetType::MouseArea,
        WidgetType::Pin, WidgetType::QRCode,
    ]
}

/// Returns the widget types that can be added to the widget `parent_id`:
/// nothing when no widget has that id; otherwise what its type admits given
/// whether it is the root and how many children it already has.
pub fn get_available_types(hierarchy: &WidgetHierarchy, parent_id: &u64) -> (v: Vec<WidgetType>)
    requires
        hierarchy.wf(),
    ensures
        !has_id(hierarchy.widgets@, *parent_id) ==> v@ == Seq::<WidgetType>::empty(),
        has_id(hierarchy.widgets@, *parent_id) ==> {
            let i = index_of(hierarchy.widgets@, *parent_id);
            v@ == available_types_for(
                hierarchy.widgets@[i].widget_type,
                *parent_id == hierarchy.widgets@[0].id,
                child_count(hierarchy.widgets@, i),
            )
        },
{
    let pos = hierarchy.position_of(*parent_id);
    match pos {
        None => Vec::new(),
        Some(i) => {
            proof {
                let ws = hierarchy.widgets@;
                let c = index_of(ws, *parent_id);
                assert(ws[i as int].id == *parent_id);
                assert(c == i as int);
            }
            let parent = &hierarchy.widgets[i];
            let t = parent.widget_type;
            if *parent_id == hierarchy.widgets[0].id {
                if hierarchy.children_len(0) == 0 {
                    proof { assert(i == 0); }
                    vec![WidgetType::Column, WidgetType::Row]
                } else {
                    proof { assert(i == 0); }
                    Vec::new()
                }
            } else if t == WidgetType::Scrollable {
                if hierarchy.children_len(i) == 0 {
                    vec![WidgetType::Container, WidgetType::Column, WidgetType::Row, WidgetType::ViewReference]
                } else {
                    Vec::new()
                }
            } else if t == WidgetType::Container {
                if hierarchy.children_len(i) == 0 { layout_child_types_vec() } else { Vec::new() }
            } else if t == WidgetType::MouseArea {
                if hierarchy.children_len(i) < 1 { mouse_area_child_types_vec() } else { Vec::new() }
            } else if t == WidgetType::Tooltip {
                if hierarchy.children_len(i) < 2 { tooltip_child_types_vec() } else { Vec::new() }
            } else if t == WidgetType::Row || t == WidgetType::Column {
                layout_child_types_vec()
            } else {
                Vec::new()
            }
        }
    }
}


/// How many children a parent accepts: the root, a scrollable, a container
/// and a mouse area hold at most one child, a tooltip at most two (the
/// widget and its tip); rows and columns take any number of children
/// (`None`); any other widget takes none.
pub proof fn law_child_capacity(t: WidgetType, is_root: bool, n: nat)
    ensures
        is_root ==> (available_types_for(t, is_root, n).len() > 0 <==> n == 0),
        !is_root && (t == WidgetType::Container || t == WidgetType::Scrollable || t == WidgetType::MouseArea)
            ==> (available_types_for(t, is_root, n).len() > 0 <==> n == 0),
        !is_root && t == WidgetType::Tooltip ==> (available_types_for(t, is_root, n).len() > 0 <==> n < 2),
        !is_root && (t == WidgetType::Row || t == WidgetType::Column) ==> available_types_for(t, is_root, n).len()
            > 0,
        !is_root && !(t == WidgetType::Container || t == WidgetType::Scrollable || t == WidgetType::MouseArea
            || t == WidgetType::Tooltip || t == WidgetType::Row || t == WidgetType::Column)
            ==> available_types_for(t, is_root, n).len() == 0,
{
}

} // verus!
