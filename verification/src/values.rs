//! Values, value types and authored conditions of the action editor.
//!
//! A number is carried as the bit pattern of its `f64`; this library never
//! computes with it, it only stores and moves it. Where the editor reads a
//! number out of text, the caller hands in what the text reads as.

use vstd::prelude::*;
use crate::naming::{trim_chars, trim_spec, chars_of};

verus! {

// ─── strings ────────────────────────────────────────────────────────────────

/// The views of a list of strings.
pub open spec fn strs_view(v: Seq<String>) -> Seq<Seq<char>> {
    v.map_values(|s: String| s@)
}

/// A copy of a list of strings.
pub fn clone_strings(v: &Vec<String>) -> (r: Vec<String>)
    ensures
        strs_view(r@) == strs_view(v@),
{
    let mut r: Vec<String> = Vec::new();
    let mut i: usize = 0;
    while i < v.len()
        invariant
            i <= v@.len(),
            strs_view(r@) == strs_view(v@.subrange(0, i as int)),
        decreases v@.len() - i,
    {
        let ghost old_r = r@;
        let c = v[i].clone();
        r.push(c);
        proof {
            assert(c@ == v@[i as int]@);
            assert(r@ == old_r.push(c));
            assert(strs_view(old_r).len() == old_r.len());
            assert(strs_view(v@.subrange(0, i as int)).len() == i);
            assert(old_r.len() == i);
            assert forall|j: int| 0 <= j < i + 1 implies strs_view(r@)[j] == strs_view(v@.subrange(0, i + 1))[j] by {
                if j < i {
                    assert(strs_view(old_r)[j] == strs_view(v@.subrange(0, i as int))[j]);
                    assert(strs_view(old_r)[j] == old_r[j]@);
                    assert(r@[j] == old_r[j]);
                } else {
                    assert(r@[j] == c);
                }
            }
            assert(strs_view(r@) =~= strs_view(v@.subrange(0, i + 1)));
        }
        i = i + 1;
    }
    proof {
        assert(v@.subrange(0, v@.len() as int) =~= v@);
    }
    r
}

/// Whether two lists of strings hold the same strings in the same order.
pub fn strings_equal(a: &Vec<String>, b: &Vec<String>) -> (r: bool)
    ensures
        r == (strs_view(a@) == strs_view(b@)),
{
    if a.len() != b.len() {
        proof {
            assert(strs_view(a@).len() != strs_view(b@).len());
        }
        return false;
    }
    let mut i: usize = 0;
    while i < a.len()
        invariant
            a@.len() == b@.len(),
            i <= a@.len(),
            forall|j: int| 0 <= j < i ==> a@[j]@ == b@[j]@,
        decreases a@.len() - i,
    {
        if a[i] != b[i] {
            proof {
                assert(strs_view(a@)[i as int] != strs_view(b@)[i as int]);
            }
            return false;
        }
        i = i + 1;
    }
    proof {
        assert(strs_view(a@) =~= strs_view(b@));
    }
    true
}

/// The first string of a list, or the empty string.
pub fn first_or_empty(v: &Vec<String>) -> (r: String)
    ensures
        v@.len() > 0 ==> r@ == v@[0]@,
        v@.len() == 0 ==> r@ == Seq::<char>::empty(),
{
    if v.len() > 0 { v[0].clone() } else { String::new() }
}

/// `s` with ASCII uppercase letters turned into lowercase ones.
pub open spec fn ascii_lower_spec(s: Seq<char>) -> Seq<char> {
    Seq::new(s.len(), |i: int| if 'A' <= s[i] <= 'Z' { ((s[i] as u32) + 32) as char } else { s[i] })
}

/// ASCII lowercase of the characters `v` (what `to_ascii_lowercase` does).
pub fn ascii_lower(v: &Vec<char>) -> (r: Vec<char>)
    ensures
        r@ == ascii_lower_spec(v@),
{
    let mut r: Vec<char> = Vec::new();
    let mut i: usize = 0;
    while i < v.len()
        invariant
            i <= v@.len(),
            r@ == ascii_lower_spec(v@.subrange(0, i as int)),
        decreases v@.len() - i,
    {
        let c = v[i];
        if 'A' <= c && c <= 'Z' {
            let code = (c as u32) + 32;
            let lc = char_from_ascii(code);
            r.push(lc);
        } else {
            r.push(c);
        }
        proof {
            assert(r@ =~= ascii_lower_spec(v@.subrange(0, i + 1)));
        }
        i = i + 1;
    }
    proof {
        assert(v@.subrange(0, v@.len() as int) =~= v@);
    }
    r
}

fn char_from_ascii(code: u32) -> (c: char)
    requires
        97 <= code <= 122,
    ensures
        c == code as char,
{
    if code == 97 { 'a' } else if code == 98 { 'b' } else if code == 99 { 'c' } else if code == 100 { 'd' }
    else if code == 101 { 'e' } else if code == 102 { 'f' } else if code == 103 { 'g' } else if code == 104 { 'h' }
    else if code == 105 { 'i' } else if code == 106 { 'j' } else if code == 107 { 'k' } else if code == 108 { 'l' }
    else if code == 109 { 'm' } else if code == 110 { 'n' } else if code == 111 { 'o' } else if code == 112 { 'p' }
    else if code == 113 { 'q' } else if code == 114 { 'r' } else if code == 115 { 's' } else if code == 116 { 't' }
    else if code == 117 { 'u' } else if code == 118 { 'v' } else if code == 119 { 'w' } else if code == 120 { 'x' }
    else if code == 121 { 'y' } else { 'z' }
}

/// Whether `s`, trimmed and ASCII-lowercased, spells "true".
pub open spec fn reads_true(s: Seq<char>) -> bool {
    ascii_lower_spec(trim_spec(s)) == "true"@
}

/// Whether `s`, trimmed and ASCII-lowercased, spells "false".
pub open spec fn reads_false(s: Seq<char>) -> bool {
    ascii_lower_spec(trim_spec(s)) == "false"@
}

fn is_word(v: &Vec<char>, w: &str) -> (r: bool)
    ensures
        r == (v@ == w@),
{
    let wc = chars_of(w);
    if v.len() != wc.len() {
        return false;
    }
    let mut i: usize = 0;
    while i < v.len()
        invariant
            v@.len() == wc@.len(),
            wc@ == w@,
            i <= v@.len(),
            forall|j: int| 0 <= j < i ==> v@[j] == wc@[j],
        decreases v@.len() - i,
    {
        if v[i] != wc[i] {
            return false;
        }
        i = i + 1;
    }
    proof {
        assert(v@ =~= wc@);
    }
    true
}

/// Reads `raw` as a boolean the way the editor does: trimmed and
/// ASCII-lowercased, "true" and "false" are the booleans, anything else is
/// no boolean.
pub fn read_bool_word(raw: &str) -> (r: Option<bool>)
    ensures
        r == (if reads_true(raw@) { Some(true) } else if reads_false(raw@) { Some(false) } else { None::<bool> }),
{
    proof {
        reveal_strlit("true");
        reveal_strlit("false");
    }
    let cs = chars_of(raw);
    let t = trim_chars(&cs);
    let l = ascii_lower(&t);
    if is_word(&l, "true") {
        Some(true)
    } else if is_word(&l, "false") {
        proof {
            assert("true"@ != "false"@) by {
                assert("true"@.len() != "false"@.len());
            }
        }
        Some(false)
    } else {
        None
    }
}

// ─── types and values ───────────────────────────────────────────────────────

/// Type of a value that flows through an action graph.
#[derive(Debug, PartialEq)]
pub enum ActionValueType {
    String,
    Bool,
    F32,
    F64,
    Usize,
    Enum { enum_name: String, variants: Vec<String> },
}

/// Mathematical form of an [`ActionValueType`].
pub enum ValueTypeV {
    String,
    Bool,
    F32,
    F64,
    Usize,
    Enum { enum_name: Seq<char>, variants: Seq<Seq<char>> },
}

impl View for ActionValueType {
    type V = ValueTypeV;

    open spec fn view(&self) -> ValueTypeV {
        match self {
            ActionValueType::String => ValueTypeV::String,
            ActionValueType::Bool => ValueTypeV::Bool,
            ActionValueType::F32 => ValueTypeV::F32,
            ActionValueType::F64 => ValueTypeV::F64,
            ActionValueType::Usize => ValueTypeV::Usize,
            ActionValueType::Enum { enum_name, variants } => ValueTypeV::Enum {
                enum_name: enum_name@,
                variants: strs_view(variants@),
            },
        }
    }
}

impl Clone for ActionValueType {
    fn clone(&self) -> (r: Self)
        ensures
            r@ == self@,
    {
        match self {
            ActionValueType::String => ActionValueType::String,
            ActionValueType::Bool => ActionValueType::Bool,
            ActionValueType::F32 => ActionValueType::F32,
            ActionValueType::F64 => ActionValueType::F64,
            ActionValueType::Usize => ActionValueType::Usize,
            ActionValueType::Enum { enum_name, variants } => ActionValueType::Enum {
                enum_name: enum_name.clone(),
                variants: clone_strings(variants),
            },
        }
    }
}

/// Whether two value types are the same.
pub fn value_type_eq(a: &ActionValueType, b: &ActionValueType) -> (r: bool)
    ensures
        r == (a@ == b@),
{
    match (a, b) {
        (ActionValueType::String, ActionValueType::String) => true,
        (ActionValueType::Bool, ActionValueType::Bool) => true,
        (ActionValueType::F32, ActionValueType::F32) => true,
        (ActionValueType::F64, ActionValueType::F64) => true,
        (ActionValueType::Usize, ActionValueType::Usize) => true,
        (
            ActionValueType::Enum { enum_name: ta, variants: va },
            ActionValueType::Enum { enum_name: tb, variants: vb },
        ) => *ta == *tb && strings_equal(va, vb),
        _ => false,
    }
}

/// Whether a value type is numeric (`f32`, `f64` or `usize`).
pub open spec fn is_numeric(t: ValueTypeV) -> bool {
    t is F32 || t is F64 || t is Usize
}

/// A literal value; a number is the bit pattern of an `f64`.
#[derive(Debug, PartialEq)]
pub enum ActionValue {
    String(String),
    Number(u64),
    Bool(bool),
    EnumVariant { enum_name: String, variant: String },
}

/// Mathematical form of an [`ActionValue`].
pub enum ValueV {
    String(Seq<char>),
    Number(u64),
    Bool(bool),
    EnumVariant { enum_name: Seq<char>, variant: Seq<char> },
}

impl View for ActionValue {
    type V = ValueV;

    open spec fn view(&self) -> ValueV {
        match self {
            ActionValue::String(s) => ValueV::String(s@),
            ActionValue::Number(n) => ValueV::Number(*n),
            ActionValue::Bool(b) => ValueV::Bool(*b),
            ActionValue::EnumVariant { enum_name, variant } => ValueV::EnumVariant {
                enum_name: enum_name@,
                variant: variant@,
            },
        }
    }
}

impl Clone for ActionValue {
    fn clone(&self) -> (r: Self)
        ensures
            r@ == self@,
    {
        match self {
            ActionValue::String(s) => ActionValue::String(s.clone()),
            ActionValue::Number(n) => ActionValue::Number(*n),
            ActionValue::Bool(b) => ActionValue::Bool(*b),
            ActionValue::EnumVariant { enum_name, variant } => ActionValue::EnumVariant {
                enum_name: enum_name.clone(),
                variant: variant.clone(),
            },
        }
    }
}

/// Whether two values are the same.
pub fn value_eq(a: &ActionValue, b: &ActionValue) -> (r: bool)
    ensures
        r == (a@ == b@),
{
    match (a, b) {
        (ActionValue::String(x), ActionValue::String(y)) => *x == *y,
        (ActionValue::Number(x), ActionValue::Number(y)) => *x == *y,
        (ActionValue::Bool(x), ActionValue::Bool(y)) => *x == *y,
        (
            ActionValue::EnumVariant { enum_name: ta, variant: va },
            ActionValue::EnumVariant { enum_name: tb, variant: vb },
        ) => *ta == *tb && *va == *vb,
        _ => false,
    }
}

/// The bit pattern of the `f64` zero.
pub open spec fn zero_bits() -> u64 {
    0
}

/// The value the condition editor starts a right-hand side of type `t` with:
/// false, zero, the first variant (or the empty name), or the empty string.
pub open spec fn default_action_value_spec(t: ValueTypeV) -> ValueV {
    match t {
        ValueTypeV::Bool => ValueV::Bool(false),
        ValueTypeV::F32 | ValueTypeV::F64 | ValueTypeV::Usize => ValueV::Number(zero_bits()),
        ValueTypeV::Enum { enum_name, variants } => ValueV::EnumVariant {
            enum_name,
            variant: if variants.len() > 0 { variants[0] } else { Seq::<char>::empty() },
        },
        ValueTypeV::String => ValueV::String(Seq::<char>::empty()),
    }
}

/// The value the condition editor starts a right-hand side of type
/// `value_type` with.
pub fn default_action_value_for_type(value_type: &ActionValueType) -> (r: ActionValue)
    ensures
        r@ == default_action_value_spec(value_type@),
{
    match value_type {
        ActionValueType::Bool => ActionValue::Bool(false),
        ActionValueType::F32 | ActionValueType::F64 | ActionValueType::Usize => ActionValue::Number(0),
        ActionValueType::Enum { enum_name, variants } => ActionValue::EnumVariant {
            enum_name: enum_name.clone(),
            variant: first_or_empty(variants),
        },
        ActionValueType::String => ActionValue::String(String::new()),
    }
}

/// The value a state assignment starts with once its target has type `t`:
/// like [`default_action_value_spec`], except that a `usize` target starts
/// with the empty string.
pub open spec fn default_value_spec(t: ValueTypeV) -> ValueV {
    match t {
        ValueTypeV::Bool => ValueV::Bool(false),
        ValueTypeV::F32 | ValueTypeV::F64 => ValueV::Number(zero_bits()),
        ValueTypeV::Enum { enum_name, variants } => ValueV::EnumVariant {
            enum_name,
            variant: if variants.len() > 0 { variants[0] } else { Seq::<char>::empty() },
        },
        _ => ValueV::String(Seq::<char>::empty()),
    }
}

/// The value a state assignment starts with once its target has type `t`.
pub fn default_value_for_type(t: &ActionValueType) -> (r: ActionValue)
    ensures
        r@ == default_value_spec(t@),
{
    match t {
        ActionValueType::Bool => ActionValue::Bool(false),
        ActionValueType::F32 | ActionValueType::F64 => ActionValue::Number(0),
        ActionValueType::Enum { enum_name, variants } => ActionValue::EnumVariant {
            enum_name: enum_name.clone(),
            variant: first_or_empty(variants),
        },
        _ => ActionValue::String(String::new()),
    }
}

/// The literal a state assignment holds after the user typed `raw` over
/// `current`: a number stays a number (`number` is what `raw` reads as, zero
/// when it reads as none), a boolean is true exactly when `raw` is "true",
/// an enum variant keeps its type and takes `raw` as variant, and a string
/// becomes `raw`.
pub open spec fn coerce_literal_spec(current: ValueV, raw: Seq<char>, number: Option<u64>) -> ValueV {
    match current {
        ValueV::Number(_) => ValueV::Number(match number { Some(b) => b, None => zero_bits() }),
        ValueV::Bool(_) => ValueV::Bool(raw == "true"@),
        ValueV::EnumVariant { enum_name, .. } => ValueV::EnumVariant { enum_name, variant: raw },
        _ => ValueV::String(raw),
    }
}

/// The literal of a state assignment after the user typed `raw` over
/// `current`. `number` is the bit pattern of what `raw` (untrimmed) reads as
/// an `f64`, or `None` when it reads as none.
pub fn coerce_literal(current: ActionValue, raw: &str, number: Option<u64>) -> (r: ActionValue)
    ensures
        r@ == coerce_literal_spec(current@, raw@, number),
{
    match current {
        ActionValue::Number(_) => ActionValue::Number(
            match number {
                Some(b) => b,
                None => 0,
            },
        ),
        ActionValue::Bool(_) => {
            let cs = chars_of(raw);
            ActionValue::Bool(is_word(&cs, "true"))
        },
        ActionValue::EnumVariant { enum_name, .. } => ActionValue::EnumVariant {
            enum_name,
            variant: raw.to_string(),
        },
        _ => ActionValue::String(raw.to_string()),
    }
}

/// The right-hand side of a condition after the user typed `raw`, given the
/// type of the left-hand side: for a boolean, "true" or "false" (trimmed,
/// any ASCII case) give the boolean and anything else stays text; for a
/// number, what `raw` reads as, or the text; for an enum, the variant named
/// `raw`; otherwise the text.
pub open spec fn parse_rhs_spec(lhs_type: ValueTypeV, raw: Seq<char>, number: Option<u64>) -> ValueV {
    match lhs_type {
        ValueTypeV::Bool => if reads_true(raw) {
            ValueV::Bool(true)
        } else if reads_false(raw) {
            ValueV::Bool(false)
        } else {
            ValueV::String(raw)
        },
        ValueTypeV::F32 | ValueTypeV::F64 | ValueTypeV::Usize => match number {
            Some(b) => ValueV::Number(b),
            None => ValueV::String(raw),
        },
        ValueTypeV::Enum { enum_name, .. } => ValueV::EnumVariant { enum_name, variant: raw },
        _ => ValueV::String(raw),
    }
}

/// The right-hand side of a condition after the user typed `raw`. `number`
/// is the bit pattern of what `raw`, trimmed, reads as an `f64`, or `None`
/// when it reads as none.
pub fn parse_authored_rhs_text(lhs_type: &ActionValueType, raw: &str, number: Option<u64>) -> (r: ActionValue)
    ensures
        r@ == parse_rhs_spec(lhs_type@, raw@, number),
{
    match lhs_type {
        ActionValueType::Bool => match read_bool_word(raw) {
            Some(b) => ActionValue::Bool(b),
            None => ActionValue::String(raw.to_string()),
        },
        ActionValueType::F32 | ActionValueType::F64 | ActionValueType::Usize => match number {
            Some(b) => ActionValue::Number(b),
            None => ActionValue::String(raw.to_string()),
        },
        ActionValueType::Enum { enum_name, .. } => ActionValue::EnumVariant {
            enum_name: enum_name.clone(),
            variant: raw.to_string(),
        },
        _ => ActionValue::String(raw.to_string()),
    }
}

/// Whether a right-hand side literal fits the left-hand side's type: a
/// string for a string, a boolean for a boolean, a number for a number, and
/// a variant of the same enum type for an enum.
pub open spec fn rhs_matches_spec(rhs: ValueV, lhs_type: ValueTypeV) -> bool {
    match lhs_type {
        ValueTypeV::String => rhs is String,
        ValueTypeV::Bool => rhs is Bool,
        ValueTypeV::F32 | ValueTypeV::F64 | ValueTypeV::Usize => rhs is Number,
        ValueTypeV::Enum { enum_name, .. } => match rhs {
            ValueV::EnumVariant { enum_name: rt, .. } => rt == enum_name,
            _ => false,
        },
    }
}

/// Whether a right-hand side literal fits the left-hand side's type.
pub fn rhs_literal_matches_type_for_editor(rhs: &ActionValue, lhs_type: &ActionValueType) -> (r: bool)
    ensures
        r == rhs_matches_spec(rhs@, lhs_type@),
{
    match lhs_type {
        ActionValueType::String => matches!(rhs, ActionValue::String(_)),
        ActionValueType::Bool => matches!(rhs, ActionValue::Bool(_)),
        ActionValueType::F32 | ActionValueType::F64 | ActionValueType::Usize => matches!(rhs, ActionValue::Number(_)),
        ActionValueType::Enum { enum_name, .. } => match rhs {
            ActionValue::EnumVariant { enum_name: rhs_type, .. } => *rhs_type == *enum_name,
            _ => false,
        },
    }
}

} // verus!
