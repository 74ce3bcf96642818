//! Theme colour expressions such as
//! `theme.extended_palette().primary.weak.text.scale_alpha(0.5)`: which
//! palette colour they name, and the text of the alpha factor they apply.

use vstd::prelude::*;
use crate::naming::{chars_of, string_from_chars};

verus! {

/// A colour family of the extended palette.
#[derive(Debug, Clone, Copy, PartialEq, Eq, Structural)]
pub enum PaletteFamily {
    Primary,
    Secondary,
    Success,
    Warning,
    Danger,
    Background,
}

/// A shade of a colour family; the four outer shades and the neutral one
/// exist for the background family only.
#[derive(Debug, Clone, Copy, PartialEq, Eq, Structural)]
pub enum PaletteShade {
    Base,
    Weak,
    Strong,
    Weaker,
    Weakest,
    Stronger,
    Strongest,
    Neutral,
}

/// Which colour of a shade: the fill or the text drawn on it.
#[derive(Debug, Clone, Copy, PartialEq, Eq, Structural)]
pub enum PaletteSlot {
    Color,
    Text,
}

/// The palette colour an expression names, and the text of the alpha
/// factor it applies (digits joined with a `.`), if it applies one.
#[derive(Debug)]
pub struct ThemeColorRef {
    pub family: PaletteFamily,
    pub shade: PaletteShade,
    pub slot: PaletteSlot,
    pub alpha_text: Option<String>,
}

/// `s` with every occurrence of `pat` (matched left to right, without
/// overlap) taken out.
pub open spec fn remove_all(s: Seq<char>, pat: Seq<char>) -> Seq<char>
    decreases s.len(),
{
    if s.len() == 0 {
        s
    } else if 0 < pat.len() <= s.len() && s.subrange(0, pat.len() as int) == pat {
        remove_all(s.subrange(pat.len() as int, s.len() as int), pat)
    } else {
        seq![s[0]] + remove_all(s.drop_first(), pat)
    }
}

/// The pieces of `s` between dots (one piece when there is no dot).
pub open spec fn split_dots(s: Seq<char>) -> Seq<Seq<char>>
    decreases s.len(),
{
    if s.len() == 0 {
        seq![Seq::<char>::empty()]
    } else {
        let rest = split_dots(s.drop_last());
        if s.last() == '.' {
            rest.push(Seq::empty())
        } else {
            rest.update(rest.len() - 1, rest.last().push(s.last()))
        }
    }
}

/// The pieces of an expression once the palette accessor is taken out.
pub open spec fn expr_parts(expression: Seq<char>) -> Seq<Seq<char>> {
    split_dots(remove_all(expression, "theme.extended_palette()."@))
}

/// The family a piece names.
pub open spec fn family_spec(p: Seq<char>) -> Option<PaletteFamily> {
    if p == "primary"@ {
        Some(PaletteFamily::Primary)
    } else if p == "secondary"@ {
        Some(PaletteFamily::Secondary)
    } else if p == "success"@ {
        Some(PaletteFamily::Success)
    } else if p == "warning"@ {
        Some(PaletteFamily::Warning)
    } else if p == "danger"@ {
        Some(PaletteFamily::Danger)
    } else if p == "background"@ {
        Some(PaletteFamily::Background)
    } else {
        None
    }
}

/// The shade a piece names within a family.
pub open spec fn shade_spec(f: PaletteFamily, p: Seq<char>) -> Option<PaletteShade> {
    if p == "base"@ {
        Some(PaletteShade::Base)
    } else if p == "weak"@ {
        Some(PaletteShade::Weak)
    } else if p == "strong"@ {
        Some(PaletteShade::Strong)
    } else if f != PaletteFamily::Background {
        None
    } else if p == "weaker"@ {
        Some(PaletteShade::Weaker)
    } else if p == "weakest"@ {
        Some(PaletteShade::Weakest)
    } else if p == "stronger"@ {
        Some(PaletteShade::Stronger)
    } else if p == "strongest"@ {
        Some(PaletteShade::Strongest)
    } else if p == "neutral"@ {
        Some(PaletteShade::Neutral)
    } else {
        None
    }
}

/// The slot a piece names.
pub open spec fn slot_spec(p: Seq<char>) -> Option<PaletteSlot> {
    if p == "color"@ {
        Some(PaletteSlot::Color)
    } else if p == "text"@ {
        Some(PaletteSlot::Text)
    } else {
        None
    }
}

/// Whether an expression of five pieces carries a well-formed alpha call:
/// the fourth piece opens `scale_alpha(` and the fifth closes it.
pub open spec fn alpha_well_formed(parts: Seq<Seq<char>>) -> bool {
    parts.len() == 5 ==> {
        &&& parts[3].len() >= 12 && parts[3].subrange(0, 12) == "scale_alpha("@
        &&& parts[4].len() >= 1 && parts[4].last() == ')'
    }
}

/// The colour an expression names, with its alpha text: the first three
/// pieces name family, shade and slot; five pieces add the alpha factor
/// split at its decimal point.
pub open spec fn theme_ref_spec(expression: Seq<char>) -> Option<(PaletteFamily, PaletteShade, PaletteSlot, Option<Seq<char>>)> {
    let parts = expr_parts(expression);
    if parts.len() >= 3 {
        match (family_spec(parts[0]), slot_spec(parts[2])) {
            (Some(f), Some(slot)) => match shade_spec(f, parts[1]) {
                Some(shade) => Some((
                    f,
                    shade,
                    slot,
                    if parts.len() == 5 {
                        Some(parts[3].subrange(12, parts[3].len() as int) + "."@
                            + parts[4].subrange(0, parts[4].len() - 1))
                    } else {
                        None
                    },
                )),
                None => None,
            },
            _ => None,
        }
    } else {
        None
    }
}

fn remove_palette_accessor(cs: &Vec<char>) -> (r: Vec<char>)
    ensures
        r@ == remove_all(cs@, "theme.extended_palette()."@),
{
    let pat = chars_of("theme.extended_palette().");
    let ghost pv = "theme.extended_palette()."@;
    let n = cs.len();
    let m = pat.len();
    let mut out: Vec<char> = Vec::new();
    let mut i: usize = 0;
    proof {
        assert(cs@.subrange(0, n as int) =~= cs@);
        assert(out@ + remove_all(cs@.subrange(0, n as int), pv) =~= remove_all(cs@, pv));
    }
    while i < n
        invariant
            n == cs@.len(),
            pat@ == pv,
            m == pv.len(),
            i <= n,
            out@ + remove_all(cs@.subrange(i as int, n as int), pv) == remove_all(cs@, pv),
        decreases n - i,
    {
        let ghost rest = cs@.subrange(i as int, n as int);
        let mut hit = m > 0 && m <= n - i;
        let mut k: usize = 0;
        while hit && k < m
            invariant
                n == cs@.len(),
                m == pat@.len(),
                i <= n,
                hit ==> 0 < m <= n - i,
                k <= m,
                hit ==> forall|j: int| 0 <= j < k ==> cs@[i + j] == pat@[j],
                !hit && 0 < m <= n - i ==> exists|j: int| 0 <= j < k && cs@[i + j] != pat@[j],
            decreases m - k,
        {
            if cs[i + k] != pat[k] {
                hit = false;
                proof {
                    assert(cs@[i + k] != pat@[k as int]);
                }
            }
            k = k + 1;
        }
        proof {
            if hit {
                assert(rest.subrange(0, m as int) =~= pv);
            } else if 0 < m <= rest.len() {
                if rest.subrange(0, m as int) == pv {
                    let j = choose|j: int| 0 <= j < k && cs@[i + j] != pat@[j];
                    assert(rest.subrange(0, m as int)[j] == cs@[i + j]);
                }
            }
        }
        if hit {
            i = i + m;
            proof {
                assert(rest.subrange(m as int, rest.len() as int) =~= cs@.subrange(i as int, n as int));
            }
        } else {
            let ghost before = out@;
            out.push(cs[i]);
            i = i + 1;
            proof {
                assert(rest.drop_first() =~= cs@.subrange(i as int, n as int));
                assert(out@ =~= before + seq![rest[0]]);
            }
        }
    }
    proof {
        assert(cs@.subrange(n as int, n as int).len() == 0);
        assert(out@ =~= out@ + remove_all(cs@.subrange(n as int, n as int), pv));
    }
    out
}

proof fn lemma_split_nonempty(s: Seq<char>)
    ensures
        split_dots(s).len() >= 1,
    decreases s.len(),
{
    if s.len() > 0 {
        lemma_split_nonempty(s.drop_last());
    }
}

/// The views of a list of character lists.
pub open spec fn pieces_view(v: Seq<Vec<char>>) -> Seq<Seq<char>> {
    v.map_values(|p: Vec<char>| p@)
}

fn split_at_dots(cs: &Vec<char>) -> (r: Vec<Vec<char>>)
    ensures
        pieces_view(r@) == split_dots(cs@),
{
    let mut parts: Vec<Vec<char>> = Vec::new();
    parts.push(Vec::new());
    let mut i: usize = 0;
    proof {
        assert(cs@.subrange(0, 0).len() == 0);
        assert(pieces_view(parts@) =~= split_dots(cs@.subrange(0, 0)));
    }
    while i < cs.len()
        invariant
            i <= cs@.len(),
            pieces_view(parts@) == split_dots(cs@.subrange(0, i as int)),
            parts@.len() >= 1,
        decreases cs@.len() - i,
    {
        let ghost pre = cs@.subrange(0, i + 1);
        let ghost before = pieces_view(parts@);
        proof {
            assert(pre.drop_last() =~= cs@.subrange(0, i as int));
            assert(pre.last() == cs@[i as int]);
        }
        if cs[i] == '.' {
            parts.push(Vec::new());
            proof {
                assert(pieces_view(parts@) =~= before.push(Seq::empty()));
            }
        } else {
            let last = parts.len() - 1;
            let mut p = parts.remove(last);
            p.push(cs[i]);
            let ghost pv = p@;
            parts.push(p);
            proof {
                assert(pieces_view(parts@) =~= before.update(before.len() - 1, pv));
            }
        }
        i = i + 1;
    }
    proof {
        assert(cs@.subrange(0, cs@.len() as int) =~= cs@);
    }
    parts
}

fn is_word(v: &Vec<char>, w: &str) -> (b: bool)
    ensures
        b == (v@ == w@),
{
    let wc = chars_of(w);
    if v.len() != wc.len() {
        return false;
    }
    let mut i: usize = 0;
    while i < v.len()
        invariant
            wc@ == w@,
            v@.len() == wc@.len(),
            i <= v@.len(),
            forall|j: int| 0 <= j < i ==> v@[j] == wc@[j],
        decreases v@.len() - i,
    {
        if v[i] != wc[i] {
            return false;
        }
        i = i + 1;
    }
    proof {
        assert(v@ =~= wc@);
    }
    true
}

fn family_of(p: &Vec<char>) -> (r: Option<PaletteFamily>)
    ensures
        r == family_spec(p@),
{
    if is_word(p, "primary") {
        Some(PaletteFamily::Primary)
    } else if is_word(p, "secondary") {
        Some(PaletteFamily::Secondary)
    } else if is_word(p, "success") {
        Some(PaletteFamily::Success)
    } else if is_word(p, "warning") {
        Some(PaletteFamily::Warning)
    } else if is_word(p, "danger") {
        Some(PaletteFamily::Danger)
    } else if is_word(p, "background") {
        Some(PaletteFamily::Background)
    } else {
        None
    }
}

fn shade_of(f: PaletteFamily, p: &Vec<char>) -> (r: Option<PaletteShade>)
    ensures
        r == shade_spec(f, p@),
{
    if is_word(p, "base") {
        Some(PaletteShade::Base)
    } else if is_word(p, "weak") {
        Some(PaletteShade::Weak)
    } else if is_word(p, "strong") {
        Some(PaletteShade::Strong)
    } else if f != PaletteFamily::Background {
        None
    } else if is_word(p, "weaker") {
        Some(PaletteShade::Weaker)
    } else if is_word(p, "weakest") {
        Some(PaletteShade::Weakest)
    } else if is_word(p, "stronger") {
        Some(PaletteShade::Stronger)
    } else if is_word(p, "strongest") {
        Some(PaletteShade::Strongest)
    } else if is_word(p, "neutral") {
        Some(PaletteShade::Neutral)
    } else {
        None
    }
}

fn slot_of(p: &Vec<char>) -> (r: Option<PaletteSlot>)
    ensures
        r == slot_spec(p@),
{
    if is_word(p, "color") {
        Some(PaletteSlot::Color)
    } else if is_word(p, "text") {
        Some(PaletteSlot::Text)
    } else {
        None
    }
}

fn copy_range(v: &Vec<char>, from: usize, to: usize, out: &mut Vec<char>)
    requires
        from <= to <= v@.len(),
    ensures
        final(out)@ == old(out)@ + v@.subrange(from as int, to as int),
{
    let ghost start = out@;
    let mut i = from;
    while i < to
        invariant
            from <= i <= to,
            to <= v@.len(),
            out@ == start + v@.subrange(from as int, i as int),
        decreases to - i,
    {
        out.push(v[i]);
        i = i + 1;
        proof {
            assert(out@ =~= start + v@.subrange(from as int, i as int));
        }
    }
}

/// The palette colour a theme expression names, with the text of its alpha
/// factor (see [`theme_ref_spec`]).
pub fn parse_theme_expression(expression: &str) -> (r: Option<ThemeColorRef>)
    requires
        alpha_well_formed(expr_parts(expression@)),
    ensures
        match (r, theme_ref_spec(expression@)) {
            (Some(t), Some((f, shade, slot, alpha))) => t.family == f && t.shade == shade && t.slot == slot && match (t.alpha_text, alpha) {
                (Some(a), Some(b)) => a@ == b,
                (None, None) => true,
                _ => false,
            },
            (None, None) => true,
            _ => false,
        },
{
    let cs = chars_of(expression);
    let stripped = remove_palette_accessor(&cs);
    let parts = split_at_dots(&stripped);
    let ghost pv = pieces_view(parts@);
    proof {
        assert(pv == expr_parts(expression@));
    }
    if parts.len() < 3 {
        return None;
    }
    proof {
        assert(pv[0] == parts@[0]@ && pv[1] == parts@[1]@ && pv[2] == parts@[2]@);
    }
    let family = match family_of(&parts[0]) {
        Some(f) => f,
        None => return None,
    };
    let slot = match slot_of(&parts[2]) {
        Some(s) => s,
        None => return None,
    };
    let shade = match shade_of(family, &parts[1]) {
        Some(s) => s,
        None => return None,
    };
    let alpha_text = if parts.len() == 5 {
        proof {
            assert(pv[3] == parts@[3]@ && pv[4] == parts@[4]@);
        }
        let mut a: Vec<char> = Vec::new();
        copy_range(&parts[3], 12, parts[3].len(), &mut a);
        a.push('.');
        copy_range(&parts[4], 0, parts[4].len() - 1, &mut a);
        proof {
            assert(a@ =~= pv[3].subrange(12, pv[3].len() as int) + "."@ + pv[4].subrange(0, pv[4].len() - 1)) by {
                reveal_strlit(".");
            }
        }
        Some(string_from_chars(&a))
    } else {
        None
    };
    Some(ThemeColorRef { family, shade, slot, alpha_text })
}

/// The palette accessor is optional: an expression names the same colour
/// with or without "theme.extended_palette()." in front; and an expression
/// whose first piece names no palette family names no colour.
pub proof fn law_palette_prefix_is_optional(s: Seq<char>)
    ensures
        theme_ref_spec("theme.extended_palette()."@ + s) == theme_ref_spec(s),
        family_spec(expr_parts(s)[0]) is None ==> theme_ref_spec(s) is None,
{
    reveal_strlit("theme.extended_palette().");
    let p = "theme.extended_palette()."@;
    let ps = p + s;
    assert(ps.subrange(0, p.len() as int) =~= p);
    assert(ps.subrange(p.len() as int, ps.len() as int) =~= s);
    assert(remove_all(ps, p) == remove_all(s, p));
}


/// The word that names a family in an expression.
pub open spec fn family_word(f: PaletteFamily) -> Seq<char> {
    match f {
        PaletteFamily::Primary => "primary"@,
        PaletteFamily::Secondary => "secondary"@,
        PaletteFamily::Success => "success"@,
        PaletteFamily::Warning => "warning"@,
        PaletteFamily::Danger => "danger"@,
        PaletteFamily::Background => "background"@,
    }
}

/// The word that names a shade in an expression.
pub open spec fn shade_word(s: PaletteShade) -> Seq<char> {
    match s {
        PaletteShade::Base => "base"@,
        PaletteShade::Weak => "weak"@,
        PaletteShade::Strong => "strong"@,
        PaletteShade::Weaker => "weaker"@,
        PaletteShade::Weakest => "weakest"@,
        PaletteShade::Stronger => "stronger"@,
        PaletteShade::Strongest => "strongest"@,
        PaletteShade::Neutral => "neutral"@,
    }
}

/// The word that names a slot in an expression.
pub open spec fn slot_word(s: PaletteSlot) -> Seq<char> {
    match s {
        PaletteSlot::Color => "color"@,
        PaletteSlot::Text => "text"@,
    }
}

/// An expression names exactly the colour its pieces spell: when it names
/// one, its family, shade and slot are those whose words are the first,
/// second and third pieces (so different words never give the same shade),
/// and only the background family has shades beyond base, weak and strong.
pub proof fn law_parse_names_the_pieces(e: Seq<char>)
    ensures
        theme_ref_spec(e) matches Some((f, sh, sl, _)) ==> {
            &&& family_word(f) == expr_parts(e)[0]
            &&& shade_word(sh) == expr_parts(e)[1]
            &&& slot_word(sl) == expr_parts(e)[2]
            &&& (f != PaletteFamily::Background ==> sh == PaletteShade::Base || sh == PaletteShade::Weak
                || sh == PaletteShade::Strong)
        },
{
}

} // verus!
