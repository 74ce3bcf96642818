//! The generated-code panel: the order of the file tabs and the text the
//! copy button takes.

use vstd::prelude::*;
use crate::state_fields::{label_le, label_le_exec};

verus! {

/// Where a file's tab goes: `main.rs` first, `types.rs` second, the rest
/// after them.
pub open spec fn file_rank(name: Seq<char>) -> int {
    if name == "main.rs"@ {
        0
    } else if name == "types.rs"@ {
        1
    } else {
        2
    }
}

/// Whether the tab of `a` may come before that of `b`: by rank, then by
/// name.
pub open spec fn file_le(a: Seq<char>, b: Seq<char>) -> bool {
    file_rank(a) < file_rank(b) || (file_rank(a) == file_rank(b) && label_le(a, b))
}

/// Where `x` goes in `s`: after every name from the end back to the last one
/// that may come before it.
pub open spec fn file_pos(s: Seq<Seq<char>>, x: Seq<char>) -> int
    decreases s.len(),
{
    if s.len() == 0 {
        0
    } else if file_le(s.last(), x) {
        s.len() as int
    } else {
        file_pos(s.drop_last(), x)
    }
}

/// The file names in tab order (an insertion sort by [`file_le`]).
pub open spec fn tab_order(s: Seq<Seq<char>>) -> Seq<Seq<char>>
    decreases s.len(),
{
    if s.len() == 0 {
        s
    } else {
        let t = tab_order(s.drop_last());
        t.insert(file_pos(t, s.last()), s.last())
    }
}

fn file_rank_exec(name: &String) -> (r: u8)
    ensures
        r as int == file_rank(name@),
{
    if *name == "main.rs".to_string() {
        0
    } else if *name == "types.rs".to_string() {
        1
    } else {
        2
    }
}

fn file_le_exec(a: &String, b: &String) -> (r: bool)
    ensures
        r == file_le(a@, b@),
{
    let ra = file_rank_exec(a);
    let rb = file_rank_exec(b);
    ra < rb || (ra == rb && label_le_exec(a, b))
}

/// The file names in tab order (see [`tab_order`]).
pub fn ordered_file_names(names: Vec<String>) -> (r: Vec<String>)
    ensures
        crate::values::strs_view(r@) == tab_order(crate::values::strs_view(names@)),
{
    let ghost s = crate::values::strs_view(names@);
    let n = names.len();
    let mut out: Vec<String> = Vec::new();
    let mut i: usize = 0;
    let mut rest = names;
    proof {
        assert(crate::values::strs_view(out@) =~= tab_order(s.subrange(0, 0)));
    }
    while rest.len() > 0
        invariant
            s.len() == n,
            rest@.len() + i == s.len(),
            crate::values::strs_view(rest@) == s.subrange(i as int, s.len() as int),
            crate::values::strs_view(out@) == tab_order(s.subrange(0, i as int)),
        decreases rest@.len(),
    {
        let ghost rest0 = rest@;
        proof {
            assert(crate::values::strs_view(rest0)[0] == s[i as int]);
        }
        let x = rest.remove(0);
        let ghost xv = x@;
        let ghost t = crate::values::strs_view(out@);
        let mut j: usize = out.len();
        proof {
            assert(t.subrange(0, j as int) =~= t);
        }
        while j > 0 && !file_le_exec(&out[j - 1], &x)
            invariant
                j <= out@.len(),
                t == crate::values::strs_view(out@),
                xv == x@,
                file_pos(t, xv) == file_pos(t.subrange(0, j as int), xv),
            decreases j,
        {
            proof {
                let pre = t.subrange(0, j as int);
                assert(pre.last() == out@[j - 1]@);
                assert(pre.drop_last() =~= t.subrange(0, j - 1));
            }
            j = j - 1;
        }
        proof {
            let pre = t.subrange(0, j as int);
            if j > 0 {
                assert(pre.last() == out@[j - 1]@);
            }
            assert(file_pos(pre, xv) == j as int);
            let prefix = s.subrange(0, i + 1);
            assert(prefix.drop_last() =~= s.subrange(0, i as int));
            assert(prefix.last() == xv);
            assert(rest@ =~= rest0.subrange(1, rest0.len() as int));
        }
        out.insert(j, x);
        i = i + 1;
        proof {
            assert(crate::values::strs_view(out@) =~= t.insert(j as int, xv));
            assert(crate::values::strs_view(rest@) =~= crate::values::strs_view(rest0).subrange(1, rest0.len() as int));
            assert(crate::values::strs_view(rest@) =~= s.subrange(i as int, s.len() as int));
        }
    }
    proof {
        assert(s.subrange(0, s.len() as int) =~= s);
    }
    out
}

/// The text of the first file named `name`, if any.
pub open spec fn file_text_spec(files: Seq<(String, String)>, name: Seq<char>) -> Option<Seq<char>>
    decreases files.len(),
{
    if files.len() == 0 {
        None
    } else if files[0].0@ == name {
        Some(files[0].1@)
    } else {
        file_text_spec(files.drop_first(), name)
    }
}

fn file_text<'a>(files: &'a Vec<(String, String)>, name: &String) -> (r: Option<&'a String>)
    ensures
        match r {
            Some(t) => file_text_spec(files@, name@) == Some(t@),
            None => file_text_spec(files@, name@) is None,
        },
{
    let mut i: usize = 0;
    proof {
        assert(files@.subrange(0, files@.len() as int) =~= files@);
    }
    while i < files.len()
        invariant
            i <= files@.len(),
            file_text_spec(files@, name@) == file_text_spec(files@.subrange(i as int, files@.len() as int), name@),
        decreases files@.len() - i,
    {
        proof {
            let rest = files@.subrange(i as int, files@.len() as int);
            assert(rest[0] == files@[i as int]);
            assert(rest.drop_first() =~= files@.subrange(i + 1, files@.len() as int));
        }
        if files[i].0 == *name {
            return Some(&files[i].1);
        }
        i = i + 1;
    }
    None
}

/// The text the copy button takes: the current file's, else `main.rs`'s,
/// else nothing.
pub open spec fn code_to_copy_spec(files: Seq<(String, String)>, current: Seq<char>) -> Seq<char> {
    match file_text_spec(files, current) {
        Some(t) => t,
        None => match file_text_spec(files, "main.rs"@) {
            Some(t) => t,
            None => Seq::empty(),
        },
    }
}

/// The text the copy button takes (see [`code_to_copy_spec`]); `files`
/// pairs each generated file's name with its text.
pub fn code_to_copy(files: &Vec<(String, String)>, current_filename: &String) -> (r: String)
    ensures
        r@ == code_to_copy_spec(files@, current_filename@),
{
    match file_text(files, current_filename) {
        Some(t) => t.clone(),
        None => match file_text(files, &"main.rs".to_string()) {
            Some(t) => t.clone(),
            None => String::new(),
        },
    }
}

} // verus!
