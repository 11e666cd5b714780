use vstd::prelude::*;
use vstd::slice::slice_subrange;
use crate::field::{word_end, word_end_exec};
use crate::header::{split_state, strip_cr, text_lines};
use crate::text::{chars_of, string_of, occurs_at, occurs_at_exec, push_str};

verus! {

pub open spec fn is_space(c: char) -> bool {
    c == ' ' || c == '\t' || c == '\n' || c == '\r' || c == '\x0B' || c == '\x0C'
}

/// The end of the run of white space that starts at `i`.
pub open spec fn space_end(l: Seq<char>, i: int) -> int
    decreases l.len() - i,
{
    if 0 <= i < l.len() && is_space(l[i]) {
        space_end(l, i + 1)
    } else {
        i
    }
}

/// The name that a `File: <name>.h` mention starting at `p` gives, if one
/// does: the label, white space, an identifier, then `.h`.
pub open spec fn file_name_at(l: Seq<char>, p: int) -> Option<Seq<char>> {
    let s = space_end(l, p + 5);
    let e = word_end(l, s);
    if occurs_at(l, "File:"@, p) && e > s && occurs_at(l, ".h"@, e) {
        Some(l.subrange(s, e))
    } else {
        None
    }
}

/// The name of the leftmost mention at or after `p` in a line.
pub open spec fn file_name_from(l: Seq<char>, p: int) -> Option<Seq<char>>
    decreases l.len() - p,
{
    if p < 0 || p >= l.len() {
        None
    } else if file_name_at(l, p) is Some {
        file_name_at(l, p)
    } else {
        file_name_from(l, p + 1)
    }
}

/// The model name that the first line holding a `File: <name>.h` mention
/// gives.
pub open spec fn first_file_name(lines: Seq<Seq<char>>) -> Option<Seq<char>>
    decreases lines.len(),
{
    if lines.len() == 0 {
        None
    } else if file_name_from(lines[0], 0) is Some {
        file_name_from(lines[0], 0)
    } else {
        first_file_name(lines.drop_first())
    }
}

/// The model name that a header names in its `File:` comment.
pub open spec fn model_name_of(t: Seq<char>) -> Option<Seq<char>> {
    first_file_name(text_lines(t))
}

fn space_end_exec(l: &[char], i: usize) -> (r: usize)
    requires
        i <= l@.len(),
    ensures
        r as int == space_end(l@, i as int),
        i <= r <= l@.len(),
{
    let mut j = i;
    while j < l.len() && (l[j] == ' ' || l[j] == '\t' || l[j] == '\n' || l[j] == '\r' || l[j]
        == '\x0B' || l[j] == '\x0C')
        invariant
            i <= j <= l@.len(),
            space_end(l@, j as int) == space_end(l@, i as int),
        decreases l@.len() - j,
    {
        j = j + 1;
    }
    j
}

/// The model name of the leftmost `File: <name>.h` mention in a line.
pub fn file_name_in_line(l: &[char]) -> (r: Option<String>)
    ensures
        match r {
            Some(s) => file_name_from(l@, 0) == Some(s@),
            None => file_name_from(l@, 0) is None,
        },
{
    let label = chars_of("File:");
    let ext = chars_of(".h");
    let mut p: usize = 0;
    while p < l.len()
        invariant
            0 <= p <= l@.len(),
            file_name_from(l@, p as int) == file_name_from(l@, 0),
            label@ == "File:"@,
            ext@ == ".h"@,
        decreases l@.len() - p,
    {
        if occurs_at_exec(l, label.as_slice(), p) {
            assert(p + label@.len() <= l@.len());
            assert(label@.len() == 5) by {
                reveal_strlit("File:");
            }
            let s = space_end_exec(l, p + 5);
            let e = word_end_exec(l, s);
            if e > s && occurs_at_exec(l, ext.as_slice(), e) {
                return Some(string_of(slice_subrange(l, s, e)));
            }
        }
        p = p + 1;
    }
    None
}

proof fn lemma_first_push(done: Seq<Seq<char>>, x: Seq<char>)
    ensures
        first_file_name(done.push(x)) == if first_file_name(done) is Some {
            first_file_name(done)
        } else {
            file_name_from(x, 0)
        },
    decreases done.len(),
{
    if done.len() == 0 {
        assert(done.push(x).drop_first() =~= Seq::<Seq<char>>::empty());
        assert(done.push(x)[0] == x);
        assert(first_file_name(Seq::<Seq<char>>::empty()) is None);
        assert(first_file_name(done) is None);
    } else {
        assert(done.push(x)[0] == done[0]);
        assert(done.push(x).drop_first() =~= done.drop_first().push(x));
        lemma_first_push(done.drop_first(), x);
    }
}

/// The model name that a header names in its `File: <name>.h` comment: the
/// first line that holds such a mention gives it.
pub fn model_name(text: &str) -> (r: Option<String>)
    ensures
        match r {
            Some(s) => model_name_of(text@) == Some(s@),
            None => model_name_of(text@) is None,
        },
{
    let cs = chars_of(text);
    let ghost mut done: Seq<Seq<char>> = seq![];
    let mut found: Option<String> = None;
    let mut start: usize = 0;
    let mut i: usize = 0;
    assert(cs@.subrange(0, 0) =~= seq![]);
    while i < cs.len()
        invariant
            0 <= start <= i <= cs@.len(),
            split_state(cs@.subrange(0, i as int)) == (done, cs@.subrange(start as int, i as int)),
            match found {
                Some(s) => first_file_name(done) == Some(s@),
                None => first_file_name(done) is None,
            },
        decreases cs@.len() - i,
    {
        let ghost cur = cs@.subrange(start as int, i as int);
        assert(cs@.subrange(0, i + 1).drop_last() =~= cs@.subrange(0, i as int));
        if cs[i] == '\n' {
            let end = if i > start && cs[i - 1] == '\r' {
                i - 1
            } else {
                i
            };
            let line = slice_subrange(cs.as_slice(), start, end);
            assert(line@ =~= strip_cr(cur));
            proof {
                lemma_first_push(done, line@);
            }
            if found.is_none() {
                found = file_name_in_line(line);
            }
            proof {
                done = done.push(line@);
            }
            start = i + 1;
            assert(cs@.subrange(start as int, i + 1) =~= seq![]);
        } else {
            assert(cs@.subrange(start as int, i + 1) =~= cur.push(cs@[i as int]));
        }
        i = i + 1;
    }
    assert(cs@.subrange(0, cs@.len() as int) =~= cs@);
    if start < cs.len() {
        let line = slice_subrange(cs.as_slice(), start, cs.len());
        proof {
            lemma_first_push(done, line@);
        }
        if found.is_none() {
            found = file_name_in_line(line);
        }
    }
    found
}

/// The declaration that makes `alias` a second name of the wrapper of model
/// `model`.
pub fn alias_decl(alias: &str, model: &str) -> (r: String)
    ensures
        r@ == "pub type "@ + alias@ + " = "@ + model@ + ";\n"@,
{
    let mut out: Vec<char> = Vec::new();
    push_str(&mut out, "pub type ");
    push_str(&mut out, alias);
    push_str(&mut out, " = ");
    push_str(&mut out, model);
    push_str(&mut out, ";\n");
    assert(out@ =~= "pub type "@ + alias@ + " = "@ + model@ + ";\n"@);
    string_of(out.as_slice())
}

/// Whether `s` ends with `suf`.
pub open spec fn ends_with(s: Seq<char>, suf: Seq<char>) -> bool {
    s.len() >= suf.len() && s.subrange(s.len() - suf.len(), s.len() as int) == suf
}

/// Whether a file is the model's own header: a `.h` file with a name before
/// the extension, and none of the type, definition and private headers that
/// come beside it.
pub open spec fn is_model_header_spec(name: Seq<char>) -> bool {
    &&& name.len() > 2
    &&& ends_with(name, ".h"@)
    &&& !ends_with(name, "rtwtypes.h"@)
    &&& !ends_with(name, "rt_defines.h"@)
    &&& !ends_with(name, "_private.h"@)
    &&& !ends_with(name, "_types.h"@)
}

fn ends_with_exec(s: &[char], suf: &str) -> (r: bool)
    ensures
        r == ends_with(s@, suf@),
{
    let t = chars_of(suf);
    if t.len() > s.len() {
        return false;
    }
    occurs_at_exec(s, t.as_slice(), s.len() - t.len())
}

/// Whether a file name is that of the model's own header.
pub fn is_model_header(name: &str) -> (r: bool)
    ensures
        r == is_model_header_spec(name@),
{
    let cs = chars_of(name);
    let s = cs.as_slice();
    s.len() > 2 && ends_with_exec(s, ".h") && !ends_with_exec(s, "rtwtypes.h") && !ends_with_exec(
        s,
        "rt_defines.h",
    ) && !ends_with_exec(s, "_private.h") && !ends_with_exec(s, "_types.h")
}

} // verus!
