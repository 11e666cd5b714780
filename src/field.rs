use vstd::prelude::*;
use vstd::slice::slice_subrange;
use crate::text::{chars_of, string_of};

verus! {

/// One member of a model struct, as the specifications see it: its name and,
/// for an array, its element count.
pub struct FieldSpec {
    pub name: Seq<char>,
    pub size: Option<usize>,
}

/// A character that may stand in a C identifier.
pub open spec fn is_word_char(c: char) -> bool {
    ('a' <= c && c <= 'z') || ('A' <= c && c <= 'Z') || ('0' <= c && c <= '9') || c == '_'
}

pub open spec fn is_digit(c: char) -> bool {
    '0' <= c && c <= '9'
}

/// The end of the run of identifier characters that starts at `i`.
pub open spec fn word_end(l: Seq<char>, i: int) -> int
    decreases l.len() - i,
{
    if 0 <= i < l.len() && is_word_char(l[i]) {
        word_end(l, i + 1)
    } else {
        i
    }
}

/// The end of the run of decimal digits that starts at `i`.
pub open spec fn digit_end(l: Seq<char>, i: int) -> int
    decreases l.len() - i,
{
    if 0 <= i < l.len() && is_digit(l[i]) {
        digit_end(l, i + 1)
    } else {
        i
    }
}

/// A field declaration can start at `i`: the type suffix `_T`, one space,
/// and an identifier character.
pub open spec fn opens_at(l: Seq<char>, i: int) -> bool {
    0 <= i && i + 3 < l.len() && l[i] == '_' && l[i + 1] == 'T' && l[i + 2] == ' '
        && is_word_char(l[i + 3])
}

/// The leftmost position at or after `i` where a declaration starts, or the
/// length of the line where none does.
pub open spec fn first_open(l: Seq<char>, i: int) -> int
    decreases l.len() - i,
{
    if i < 0 || i >= l.len() {
        l.len() as int
    } else if opens_at(l, i) {
        i
    } else {
        first_open(l, i + 1)
    }
}

/// The value of a string of decimal digits.
pub open spec fn dec_value(d: Seq<char>) -> nat
    decreases d.len(),
{
    if d.len() == 0 {
        0
    } else {
        dec_value(d.drop_last()) * 10 + (d.last() as nat - '0' as nat) as nat
    }
}

/// The element count that a string of digits gives: positive, and small
/// enough for `usize`.
pub open spec fn count_of_digits(d: Seq<char>) -> Option<usize> {
    if 1 <= dec_value(d) <= usize::MAX {
        Some(dec_value(d) as usize)
    } else {
        None
    }
}

pub open spec fn all_digits(d: Seq<char>) -> bool {
    forall|i: int| 0 <= i < d.len() ==> is_digit(d[i])
}

/// A count written as text: an optional `+`, then one or more decimal digits
/// whose value is positive and fits in `usize`.
pub open spec fn count_of_text(s: Seq<char>) -> Option<usize> {
    let d = if s.len() > 0 && s[0] == '+' {
        s.drop_first()
    } else {
        s
    };
    if d.len() > 0 && all_digits(d) {
        count_of_digits(d)
    } else {
        None
    }
}

/// The field that a line of a struct body declares: the first `_T `
/// followed by an identifier, with the array count in brackets right after
/// the identifier, if any. `None` where the line declares nothing, and where
/// it declares an array of no elements, which no struct can hold. A count
/// too large for `usize` leaves the field a scalar.
pub open spec fn line_field(l: Seq<char>) -> Option<FieldSpec> {
    let p = first_open(l, 0);
    if p >= l.len() {
        None
    } else {
        let e = word_end(l, p + 3);
        let d = digit_end(l, e + 1);
        let bracketed = e < l.len() && l[e] == '[' && d > e + 1 && d < l.len() && l[d] == ']';
        if bracketed && dec_value(l.subrange(e + 1, d)) == 0 {
            None
        } else {
            let size = if bracketed {
                count_of_digits(l.subrange(e + 1, d))
            } else {
                None
            };
            Some(FieldSpec { name: l.subrange(p + 3, e), size })
        }
    }
}

/// A member of a model's input, output or state struct.
#[derive(Debug)]
pub struct IO {
    /// The member's name as the header writes it.
    pub name: String,
    /// The element count of an array member, at least one; `None` for a
    /// scalar.
    pub size: Option<usize>,
}

impl View for IO {
    type V = FieldSpec;

    open spec fn view(&self) -> FieldSpec {
        FieldSpec { name: self.name@, size: self.size }
    }
}

pub open spec fn opt_view(o: Option<IO>) -> Option<FieldSpec> {
    match o {
        Some(f) => Some(f@),
        None => None,
    }
}

pub(crate) fn is_word_char_exec(c: char) -> (r: bool)
    ensures
        r == is_word_char(c),
{
    ('a' <= c && c <= 'z') || ('A' <= c && c <= 'Z') || ('0' <= c && c <= '9') || c == '_'
}

pub(crate) fn word_end_exec(l: &[char], i: usize) -> (r: usize)
    requires
        i <= l@.len(),
    ensures
        r as int == word_end(l@, i as int),
        i <= r <= l@.len(),
{
    let mut j = i;
    while j < l.len() && is_word_char_exec(l[j])
        invariant
            i <= j <= l@.len(),
            word_end(l@, j as int) == word_end(l@, i as int),
        decreases l@.len() - j,
    {
        j = j + 1;
    }
    j
}

fn digit_end_exec(l: &[char], i: usize) -> (r: usize)
    requires
        i <= l@.len(),
    ensures
        r as int == digit_end(l@, i as int),
        i <= r <= l@.len(),
        forall|k: int| i <= k < r ==> is_digit(l@[k]),
        r < l@.len() ==> !is_digit(l@[r as int]),
{
    let mut j = i;
    while j < l.len() && '0' <= l[j] && l[j] <= '9'
        invariant
            i <= j <= l@.len(),
            digit_end(l@, j as int) == digit_end(l@, i as int),
            forall|k: int| i <= k < j ==> is_digit(l@[k]),
        decreases l@.len() - j,
    {
        j = j + 1;
    }
    j
}

proof fn lemma_dec_step(acc: nat, d: nat)
    requires
        d <= 9,
    ensures
        acc > (usize::MAX - d) / 10 ==> acc * 10 + d > usize::MAX,
        acc <= (usize::MAX - d) / 10 ==> acc * 10 + d <= usize::MAX,
{
    assert(acc > (usize::MAX - d) / 10 ==> acc * 10 + d > usize::MAX) by (nonlinear_arith)
        requires
            d <= 9,
    ;
    assert(acc <= (usize::MAX - d) / 10 ==> acc * 10 + d <= usize::MAX) by (nonlinear_arith)
        requires
            d <= 9,
    ;
}

/// The value of a string of digits, or `None` where it does not fit in
/// `usize`.
fn digits_value(d: &[char]) -> (r: Option<usize>)
    requires
        all_digits(d@),
    ensures
        r == (if dec_value(d@) <= usize::MAX {
            Some(dec_value(d@) as usize)
        } else {
            None
        }),
{
    let mut acc: usize = 0;
    let mut over = false;
    let mut k: usize = 0;
    while k < d.len()
        invariant
            0 <= k <= d@.len(),
            all_digits(d@),
            !over ==> acc as nat == dec_value(d@.subrange(0, k as int)),
            over ==> dec_value(d@.subrange(0, k as int)) > usize::MAX,
        decreases d@.len() - k,
    {
        let ghost prev = d@.subrange(0, k as int);
        assert(d@.subrange(0, k + 1).drop_last() == prev);
        assert(is_digit(d@[k as int]));
        let v = d[k] as u32 - '0' as u32;
        let ghost dv: nat = (d@[k as int] as nat - '0' as nat) as nat;
        assert(v as nat == dv);
        if !over {
            proof {
                lemma_dec_step(acc as nat, v as nat);
            }
            if acc > (usize::MAX - v as usize) / 10 {
                over = true;
            } else {
                acc = acc * 10 + v as usize;
            }
        }
        k = k + 1;
    }
    assert(d@.subrange(0, d@.len() as int) == d@);
    if over {
        None
    } else {
        Some(acc)
    }
}

/// The count that a text gives: an optional `+`, then decimal digits whose
/// value fits in `usize`; `None` for any other text.
pub fn count_of_text_exec(s: &[char]) -> (r: Option<usize>)
    ensures
        r == count_of_text(s@),
{
    let d = if s.len() > 0 && s[0] == '+' {
        assert(s@.subrange(1, s@.len() as int) == s@.drop_first());
        slice_subrange(s, 1, s.len())
    } else {
        s
    };
    if d.len() == 0 {
        return None;
    }
    let e = digit_end_exec(d, 0);
    if e < d.len() {
        assert(!is_digit(d@[e as int]));
        return None;
    }
    match digits_value(d) {
        Some(0) => None,
        v => v,
    }
}

fn opens_at_exec(l: &[char], i: usize) -> (r: bool)
    ensures
        r == opens_at(l@, i as int),
{
    i < l.len() && l.len() - i > 3 && l[i] == '_' && l[i + 1] == 'T' && l[i + 2] == ' '
        && is_word_char_exec(l[i + 3])
}

/// The field that a line of a struct body declares, or `None` where it
/// declares none.
pub fn parse_field_line(l: &[char]) -> (r: Option<IO>)
    ensures
        opt_view(r) == line_field(l@),
        r matches Some(f) ==> (f.size matches Some(n) ==> n >= 1),
{
    let mut p: usize = 0;
    while p < l.len() && !opens_at_exec(l, p)
        invariant
            0 <= p <= l@.len(),
            first_open(l@, p as int) == first_open(l@, 0),
        decreases l@.len() - p,
    {
        p = p + 1;
    }
    if p >= l.len() {
        return None;
    }
    let e = word_end_exec(l, p + 3);
    let mut size: Option<usize> = None;
    if e < l.len() && l[e] == '[' {
        let d = digit_end_exec(l, e + 1);
        if d > e + 1 && d < l.len() && l[d] == ']' {
            let digits = slice_subrange(l, e + 1, d);
            assert(digits@ == l@.subrange(e + 1, d as int));
            match digits_value(digits) {
                Some(0) => return None,
                Some(n) => size = Some(n),
                None => {},
            }
        }
    }
    let name = string_of(slice_subrange(l, p + 3, e));
    Some(IO { name, size })
}

impl IO {
    /// Makes a field from its name and the text of its element count; a
    /// count that is not a positive number that fits in `usize` makes a
    /// scalar.
    pub fn new(name: &str, size: Option<&str>) -> (r: IO)
        ensures
            r.name@ == name@,
            r.size matches Some(n) ==> n >= 1,
            r.size == match size {
                Some(s) => count_of_text(s@),
                None => None,
            },
    {
        let size = match size {
            Some(s) => {
                let cs = chars_of(s);
                count_of_text_exec(cs.as_slice())
            },
            None => None,
        };
        IO { name: name.to_owned(), size }
    }
}

} // verus!
