//! Naming rules shared by the editor and code generation: snake_case and
//! PascalCase conversion, the name of the selection variant of a view, and
//! the field name derived from a user-given widget or view name.
//!
//! Unicode case mapping and whitespace classification are std's; they are
//! reached through the small trusted items at the top of this file, and the
//! rest is proved over their named results.

use vstd::prelude::*;

verus! {

// ─── std character and string services ──────────────────────────────────────

/// Whether std classifies `c` as uppercase (`char::is_uppercase`).
pub uninterp spec fn char_is_uppercase(c: char) -> bool;

/// The characters std maps `c` to in lowercase (`char::to_lowercase`).
pub uninterp spec fn char_lowercase(c: char) -> Seq<char>;

/// The characters std maps `c` to in uppercase (`char::to_uppercase`).
pub uninterp spec fn char_uppercase(c: char) -> Seq<char>;

/// Whether `c` is whitespace as std's `char::is_whitespace` classifies it:
/// the characters with the Unicode `White_Space` property (tab to carriage
/// return, space, next line, no-break space, Ogham space mark, the spaces
/// from en quad to hair space, line and paragraph separator, narrow
/// no-break space, medium mathematical space and ideographic space).
pub open spec fn char_is_whitespace(c: char) -> bool {
    let u = c as u32;
    ||| 0x09 <= u <= 0x0D
    ||| u == 0x20
    ||| u == 0x85
    ||| u == 0xA0
    ||| u == 0x1680
    ||| 0x2000 <= u <= 0x200A
    ||| u == 0x2028
    ||| u == 0x2029
    ||| u == 0x202F
    ||| u == 0x205F
    ||| u == 0x3000
}

/// The lowercase form std gives the whole string `s` (`str::to_lowercase`,
/// which differs from mapping each character alone for a final sigma).
pub uninterp spec fn str_lowercase(s: Seq<char>) -> Seq<char>;

/// Calls `char::is_uppercase`; the contract names its result.
#[verifier::external_body]
pub(crate) fn is_uppercase(c: char) -> (b: bool)
    ensures
        b == char_is_uppercase(c),
{
    c.is_uppercase()
}

/// Calls `char::to_lowercase` and collects the characters it yields; the
/// contract names them.
#[verifier::external_body]
pub(crate) fn lowercase_of_char(c: char) -> (v: Vec<char>)
    ensures
        v@ == char_lowercase(c),
{
    c.to_lowercase().collect()
}

/// Calls `char::to_uppercase` and collects the characters it yields; the
/// contract names them.
#[verifier::external_body]
pub(crate) fn uppercase_of_char(c: char) -> (v: Vec<char>)
    ensures
        v@ == char_uppercase(c),
{
    c.to_uppercase().collect()
}

/// Whether `c` is whitespace (see [`char_is_whitespace`]).
pub fn is_whitespace(c: char) -> (b: bool)
    ensures
        b == char_is_whitespace(c),
{
    let u = c as u32;
    (0x09 <= u && u <= 0x0D) || u == 0x20 || u == 0x85 || u == 0xA0 || u == 0x1680 || (0x2000 <= u
        && u <= 0x200A) || u == 0x2028 || u == 0x2029 || u == 0x202F || u == 0x205F || u == 0x3000
}

/// Calls `str::to_lowercase`; the contract names its result.
#[verifier::external_body]
pub(crate) fn lowercase_of_str(s: &str) -> (r: String)
    ensures
        r@ == str_lowercase(s@),
{
    s.to_lowercase()
}

/// Builds a `String` from characters (std's `FromIterator<char>`); the
/// contract says it holds exactly those characters.
#[verifier::external_body]
pub(crate) fn string_from_chars(v: &Vec<char>) -> (s: String)
    ensures
        s@ == v@,
{
    v.iter().collect()
}

/// The characters of `s`, in order.
pub fn chars_of(s: &str) -> (v: Vec<char>)
    ensures
        v@ == s@,
{
    let n = s.unicode_len();
    let mut v: Vec<char> = Vec::new();
    let mut i: usize = 0;
    while i < n
        invariant
            n == s@.len(),
            i <= n,
            v@ == s@.subrange(0, i as int),
        decreases n - i,
    {
        let c = s.get_char(i);
        v.push(c);
        proof {
            assert(v@ =~= s@.subrange(0, i + 1));
        }
        i = i + 1;
    }
    proof {
        assert(v@ =~= s@);
    }
    v
}

// ─── specifications ─────────────────────────────────────────────────────────

/// The first character of the lowercase mapping of `c`, or `c` itself when
/// the mapping is empty.
pub open spec fn first_lower(c: char) -> Seq<char> {
    if char_lowercase(c).len() > 0 { seq![char_lowercase(c)[0]] } else { seq![c] }
}

/// `s` with every occurrence of `from` replaced by `to`.
pub open spec fn replace_char(s: Seq<char>, from: char, to: char) -> Seq<char> {
    Seq::new(s.len(), |i: int| if s[i] == from { to } else { s[i] })
}

/// The snake_case characters of the first `n` characters of `s`: each
/// character lowered, with `_` put before an uppercase character that is not
/// the first.
pub open spec fn snake_prefix(s: Seq<char>, n: int) -> Seq<char>
    decreases n,
{
    if n <= 0 {
        seq![]
    } else {
        let c = s[n - 1];
        snake_prefix(s, n - 1) + if char_is_uppercase(c) && n - 1 > 0 {
            seq!['_'] + first_lower(c)
        } else {
            first_lower(c)
        }
    }
}

/// snake_case of `s`: uppercase characters lowered and preceded by `_`
/// (except at the start), then spaces turned into `_`.
pub open spec fn snake_case_spec(s: Seq<char>) -> Seq<char> {
    replace_char(snake_prefix(s, s.len() as int), ' ', '_')
}

/// Whether `c` separates words for PascalCase.
pub open spec fn is_word_sep(c: char) -> bool {
    c == '_' || c == ' '
}

/// PascalCase of `s[i..]` when `start` says whether a word begins at `i`:
/// separators are dropped and the first character of each word is replaced
/// by its uppercase mapping.
pub open spec fn pascal_from(s: Seq<char>, i: int, start: bool) -> Seq<char>
    decreases s.len() - i,
{
    if i < 0 || i >= s.len() {
        seq![]
    } else if is_word_sep(s[i]) {
        pascal_from(s, i + 1, true)
    } else if start {
        char_uppercase(s[i]) + pascal_from(s, i + 1, false)
    } else {
        seq![s[i]] + pascal_from(s, i + 1, false)
    }
}

/// PascalCase of `s`: the words between `_` and ` ` separators, each with
/// its first character uppercased, joined without separators.
pub open spec fn pascal_case_spec(s: Seq<char>) -> Seq<char> {
    pascal_from(s, 0, true)
}

/// `s` without its leading whitespace.
pub open spec fn trim_start_spec(s: Seq<char>) -> Seq<char>
    decreases s.len(),
{
    if s.len() > 0 && char_is_whitespace(s[0]) { trim_start_spec(s.drop_first()) } else { s }
}

/// `s` without its trailing whitespace.
pub open spec fn trim_end_spec(s: Seq<char>) -> Seq<char>
    decreases s.len(),
{
    if s.len() > 0 && char_is_whitespace(s.last()) { trim_end_spec(s.drop_last()) } else { s }
}

/// `s` without leading and trailing whitespace (what `str::trim` returns).
pub open spec fn trim_spec(s: Seq<char>) -> Seq<char> {
    trim_end_spec(trim_start_spec(s))
}

/// The field-name form of a user-given name: trimmed, lowercased, spaces
/// turned into `_`.
pub open spec fn field_name_spec(s: Seq<char>) -> Seq<char> {
    replace_char(str_lowercase(trim_spec(s)), ' ', '_')
}

/// The enum variant that names a view in a selection enum: its name trimmed,
/// lowercased, and put in PascalCase.
pub open spec fn selection_variant_spec(view_name: Seq<char>) -> Seq<char> {
    pascal_case_spec(replace_char(str_lowercase(trim_spec(view_name)), ' ', '_'))
}

// ─── executable functions ───────────────────────────────────────────────────

/// `v` with every `from` replaced by `to`.
pub fn replace_chars(v: &Vec<char>, from: char, to: char) -> (r: Vec<char>)
    ensures
        r@ == replace_char(v@, from, to),
{
    let mut r: Vec<char> = Vec::new();
    let mut i: usize = 0;
    while i < v.len()
        invariant
            i <= v@.len(),
            r@ == replace_char(v@.subrange(0, i as int), from, to),
        decreases v@.len() - i,
    {
        let c = v[i];
        if c == from {
            r.push(to);
        } else {
            r.push(c);
        }
        proof {
            assert(r@ =~= replace_char(v@.subrange(0, i + 1), from, to));
        }
        i = i + 1;
    }
    proof {
        assert(v@.subrange(0, v@.len() as int) =~= v@);
    }
    r
}

proof fn lemma_trim_start_step(s: Seq<char>, i: int)
    requires
        0 <= i < s.len(),
        char_is_whitespace(s[i]),
    ensures
        trim_start_spec(s.subrange(i, s.len() as int)) == trim_start_spec(
            s.subrange(i + 1, s.len() as int),
        ),
{
    assert(s.subrange(i, s.len() as int).drop_first() =~= s.subrange(i + 1, s.len() as int));
}

proof fn lemma_trim_end_step(s: Seq<char>, j: int)
    requires
        0 < j <= s.len(),
        char_is_whitespace(s[j - 1]),
    ensures
        trim_end_spec(s.subrange(0, j)) == trim_end_spec(s.subrange(0, j - 1)),
{
    assert(s.subrange(0, j).drop_last() =~= s.subrange(0, j - 1));
}

/// The characters of `v` without leading and trailing whitespace.
pub fn trim_chars(v: &Vec<char>) -> (r: Vec<char>)
    ensures
        r@ == trim_spec(v@),
{
    let n = v.len();
    let mut i: usize = 0;
    proof {
        assert(v@.subrange(0, n as int) =~= v@);
    }
    while i < n && is_whitespace(v[i])
        invariant
            n == v@.len(),
            i <= n,
            trim_start_spec(v@) == trim_start_spec(v@.subrange(i as int, n as int)),
        decreases n - i,
    {
        proof {
            lemma_trim_start_step(v@, i as int);
        }
        i = i + 1;
    }
    let ghost mid = v@.subrange(i as int, n as int);
    proof {
        if i == n {
            assert(mid.len() == 0);
        } else {
            assert(mid[0] == v@[i as int]);
        }
        assert(trim_start_spec(mid) == mid);
    }
    let mut j: usize = n;
    proof {
        assert(mid.subrange(0, (n - i) as int) =~= mid);
    }
    while j > i && is_whitespace(v[j - 1])
        invariant
            n == v@.len(),
            i <= j <= n,
            mid == v@.subrange(i as int, n as int),
            trim_end_spec(mid) == trim_end_spec(mid.subrange(0, j - i)),
        decreases j,
    {
        proof {
            assert(mid[j - i - 1] == v@[j - 1]);
            lemma_trim_end_step(mid, (j - i) as int);
        }
        j = j - 1;
    }
    let mut r: Vec<char> = Vec::new();
    let mut k: usize = i;
    while k < j
        invariant
            i <= k <= j <= n,
            n == v@.len(),
            r@ == v@.subrange(i as int, k as int),
        decreases j - k,
    {
        r.push(v[k]);
        proof {
            assert(r@ =~= v@.subrange(i as int, k + 1));
        }
        k = k + 1;
    }
    proof {
        let m = mid.subrange(0, j - i);
        assert(m =~= r@);
        if j > i {
            assert(m.last() == v@[j - 1]);
        }
        assert(trim_end_spec(m) == m);
    }
    r
}

/// snake_case of `s`: each uppercase character (but the first) gets a `_`
/// before it, every character is replaced by the first character of its
/// lowercase mapping, and spaces become `_`.
pub fn snake_case(s: &str) -> (r: String)
    ensures
        r@ == snake_case_spec(s@),
{
    let cs = chars_of(s);
    let mut out: Vec<char> = Vec::new();
    let mut i: usize = 0;
    while i < cs.len()
        invariant
            cs@ == s@,
            i <= cs@.len(),
            out@ == snake_prefix(s@, i as int),
        decreases cs@.len() - i,
    {
        let c = cs[i];
        let upper = is_uppercase(c);
        let lowered = lowercase_of_char(c);
        let low = if lowered.len() > 0 { lowered[0] } else { c };
        if upper && i > 0 {
            out.push('_');
        }
        out.push(low);
        proof {
            assert(first_lower(c) == seq![low]);
            if upper && i > 0 {
                assert(out@ =~= snake_prefix(s@, i as int) + (seq!['_'] + first_lower(c)));
            } else {
                assert(out@ =~= snake_prefix(s@, i as int) + first_lower(c));
            }
        }
        i = i + 1;
    }
    let replaced = replace_chars(&out, ' ', '_');
    string_from_chars(&replaced)
}

proof fn lemma_pascal_step(s: Seq<char>, acc: Seq<char>, piece: Seq<char>, i: int, start: bool, next: bool)
    requires
        0 <= i < s.len(),
        pascal_from(s, i, start) == piece + pascal_from(s, i + 1, next),
    ensures
        (acc + piece) + pascal_from(s, i + 1, next) == acc + pascal_from(s, i, start),
{
    assert((acc + piece) + pascal_from(s, i + 1, next) =~= acc + (piece + pascal_from(s, i + 1, next)));
}

/// PascalCase of the characters `v`: split at `_` and ` `, empty words
/// dropped, each word's first character uppercased, words joined.
pub fn pascal_chars(v: &Vec<char>) -> (r: Vec<char>)
    ensures
        r@ == pascal_case_spec(v@),
{
    let mut out: Vec<char> = Vec::new();
    let mut start = true;
    let mut i: usize = 0;
    while i < v.len()
        invariant
            i <= v@.len(),
            out@ + pascal_from(v@, i as int, start) == pascal_case_spec(v@),
        decreases v@.len() - i,
    {
        let c = v[i];
        let ghost old_out = out@;
        let ghost old_start = start;
        if c == '_' || c == ' ' {
            start = true;
            proof {
                lemma_pascal_step(v@, old_out, seq![], i as int, old_start, true);
                assert(old_out + seq![] =~= old_out);
            }
        } else if start {
            let up = uppercase_of_char(c);
            let mut k: usize = 0;
            while k < up.len()
                invariant
                    k <= up@.len(),
                    out@ == old_out + up@.subrange(0, k as int),
                decreases up@.len() - k,
            {
                out.push(up[k]);
                proof {
                    assert(out@ =~= old_out + up@.subrange(0, k + 1));
                }
                k = k + 1;
            }
            start = false;
            proof {
                assert(up@.subrange(0, up@.len() as int) =~= up@);
                lemma_pascal_step(v@, old_out, up@, i as int, old_start, false);
            }
        } else {
            out.push(c);
            proof {
                lemma_pascal_step(v@, old_out, seq![c], i as int, old_start, false);
            }
        }
        i = i + 1;
    }
    proof {
        assert(out@ + pascal_from(v@, v@.len() as int, start) =~= out@);
    }
    out
}

/// PascalCase of `s`: the words between `_` and ` ` separators, each with its
/// first character uppercased, joined without separators.
pub fn pascal_case(s: &str) -> (r: String)
    ensures
        r@ == pascal_case_spec(s@),
{
    let cs = chars_of(s);
    let p = pascal_chars(&cs);
    string_from_chars(&p)
}

/// The field-name form of a user-given name: trimmed, lowercased, spaces
/// turned into `_` (so "Search Box" becomes "search_box").
pub fn field_name_of(s: &str) -> (r: String)
    ensures
        r@ == field_name_spec(s@),
{
    let cs = chars_of(s);
    let t = trim_chars(&cs);
    let ts = string_from_chars(&t);
    let low = lowercase_of_str(ts.as_str());
    let lc = chars_of(low.as_str());
    let rep = replace_chars(&lc, ' ', '_');
    string_from_chars(&rep)
}

/// The variant of a view-selection enum that names the view `view_name`:
/// the name trimmed, lowercased, spaces turned into `_`, then put in
/// PascalCase (so " Main Menu " becomes "MainMenu").
pub fn view_name_to_selection_variant(view_name: &str) -> (r: String)
    ensures
        r@ == selection_variant_spec(view_name@),
{
    let cs = chars_of(view_name);
    let t = trim_chars(&cs);
    let ts = string_from_chars(&t);
    let low = lowercase_of_str(ts.as_str());
    let lc = chars_of(low.as_str());
    let rep = replace_chars(&lc, ' ', '_');
    let p = pascal_chars(&rep);
    string_from_chars(&p)
}

} // verus!

verus! {

/// The decimal digit character for `d` (below ten).
pub open spec fn digit_char(d: nat) -> char {
    if d == 0 { '0' } else if d == 1 { '1' } else if d == 2 { '2' } else if d == 3 { '3' }
    else if d == 4 { '4' } else if d == 5 { '5' } else if d == 6 { '6' } else if d == 7 { '7' }
    else if d == 8 { '8' } else { '9' }
}

/// The decimal notation of `n`, without sign or leading zeros.
pub open spec fn decimal_spec(n: nat) -> Seq<char>
    decreases n,
{
    if n < 10 { seq![digit_char(n)] } else { decimal_spec(n / 10) + seq![digit_char(n % 10)] }
}

fn digit_of(d: u64) -> (c: char)
    requires
        d < 10,
    ensures
        c == digit_char(d as nat),
{
    if d == 0 { '0' } else if d == 1 { '1' } else if d == 2 { '2' } else if d == 3 { '3' }
    else if d == 4 { '4' } else if d == 5 { '5' } else if d == 6 { '6' } else if d == 7 { '7' }
    else if d == 8 { '8' } else { '9' }
}

/// Appends the decimal notation of `n` to `out`.
pub fn push_decimal(out: &mut Vec<char>, n: u64)
    ensures
        final(out)@ == old(out)@ + decimal_spec(n as nat),
    decreases n,
{
    if n >= 10 {
        push_decimal(out, n / 10);
    }
    let ghost mid = out@;
    out.push(digit_of(n % 10));
    proof {
        if n >= 10 {
            assert(out@ =~= old(out)@ + decimal_spec(n as nat));
        } else {
            assert(out@ =~= old(out)@ + decimal_spec(n as nat));
        }
    }
}

/// `prefix` followed by the decimal notation of `n` (such as "flow_3").
pub fn numbered(prefix: &str, n: u64) -> (r: String)
    ensures
        r@ == prefix@ + decimal_spec(n as nat),
{
    let mut v = chars_of(prefix);
    push_decimal(&mut v, n);
    string_from_chars(&v)
}

/// Whether `c` is an ASCII decimal digit.
pub open spec fn is_digit(c: char) -> bool {
    '0' <= c <= '9'
}

/// The value of the decimal digits `s` (all digits).
pub open spec fn digits_value(s: Seq<char>) -> nat
    decreases s.len(),
{
    if s.len() == 0 {
        0
    } else {
        digits_value(s.drop_last()) * 10 + ((s.last() as u32) - ('0' as u32)) as nat
    }
}

/// The digits part of a number's text: without a leading `+`.
pub open spec fn u64_body(s: Seq<char>) -> Seq<char> {
    if s.len() > 0 && s[0] == '+' { s.drop_first() } else { s }
}

/// What `s` reads as an unsigned 64-bit number, as std's `str::parse::<u64>`
/// reads it: an optional leading `+`, then one or more decimal digits whose
/// value fits in 64 bits.
pub open spec fn u64_reading(s: Seq<char>) -> Option<u64> {
    let body = u64_body(s);
    if body.len() > 0 && (forall|i: int| 0 <= i < body.len() ==> is_digit(#[trigger] body[i]))
        && digits_value(body) <= u64::MAX {
        Some(digits_value(body) as u64)
    } else {
        None
    }
}

proof fn lemma_digits_push(s: Seq<char>, c: char)
    ensures
        digits_value(s.push(c)) == digits_value(s) * 10 + ((c as u32) - ('0' as u32)) as nat,
{
    assert(s.push(c).drop_last() =~= s);
}

proof fn lemma_digits_monotone(s: Seq<char>, k: int)
    requires
        0 <= k <= s.len(),
        forall|i: int| 0 <= i < s.len() ==> is_digit(#[trigger] s[i]),
    ensures
        digits_value(s.subrange(0, k)) <= digits_value(s),
    decreases s.len() - k,
{
    if k < s.len() {
        lemma_digits_monotone(s, k + 1);
        assert(s.subrange(0, k + 1) =~= s.subrange(0, k).push(s[k]));
        lemma_digits_push(s.subrange(0, k), s[k]);
    } else {
        assert(s.subrange(0, k) =~= s);
    }
}

/// Reads `raw` as an unsigned 64-bit number (see [`u64_reading`]).
pub fn parse_u64(raw: &str) -> (r: Option<u64>)
    ensures
        r == u64_reading(raw@),
{
    let cs = chars_of(raw);
    let n = cs.len();
    let start: usize = if n > 0 && cs[0] == '+' { 1 } else { 0 };
    let ghost body = if cs@.len() > 0 && cs@[0] == '+' { cs@.drop_first() } else { cs@ };
    proof {
        assert(body =~= cs@.subrange(start as int, n as int));
    }
    if start == n {
        return None;
    }
    let mut value: u64 = 0;
    let mut i: usize = start;
    while i < n
        invariant
            start <= i <= n,
            n == cs@.len(),
            cs@ == raw@,
            body == cs@.subrange(start as int, n as int),
            body == u64_body(raw@),
            forall|j: int| start <= j < i ==> is_digit(#[trigger] cs@[j]),
            value as nat == digits_value(cs@.subrange(start as int, i as int)),
        decreases n - i,
    {
        let c = cs[i];
        if !('0' <= c && c <= '9') {
            proof {
                assert(body[(i - start) as int] == c);
                assert(!is_digit(body[(i - start) as int]));
                assert(!(forall|q: int| 0 <= q < body.len() ==> is_digit(#[trigger] body[q])));
                assert(u64_reading(raw@) is None);
            }
            return None;
        }
        let d = (c as u32 - '0' as u32) as u64;
        proof {
            assert(cs@.subrange(start as int, i + 1) =~= cs@.subrange(start as int, i as int).push(c));
            lemma_digits_push(cs@.subrange(start as int, i as int), c);
        }
        if value > (u64::MAX - d) / 10 {
            proof {
                assert(value * 10 + d > u64::MAX) by (nonlinear_arith)
                    requires
                        value > (u64::MAX - d) / 10,
                        d <= 9,
                ;
                if forall|q: int| 0 <= q < body.len() ==> is_digit(#[trigger] body[q]) {
                    lemma_digits_monotone(body, i + 1 - start);
                    assert(body.subrange(0, i + 1 - start) =~= cs@.subrange(start as int, i + 1));
                    assert(digits_value(body) > u64::MAX);
                }
                assert(u64_reading(raw@) is None);
            }
            return None;
        }
        proof {
            assert(value * 10 + d <= u64::MAX) by (nonlinear_arith)
                requires
                    value <= (u64::MAX - d) / 10,
                    d <= 9,
            ;
        }
        value = value * 10 + d;
        i = i + 1;
    }
    proof {
        assert(cs@.subrange(start as int, n as int) == body);
        assert forall|j: int| 0 <= j < body.len() implies is_digit(#[trigger] body[j]) by {
            assert(body[j] == cs@[start + j]);
        };
    }
    Some(value)
}

} // verus!
