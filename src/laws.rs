use vstd::prelude::*;
use crate::field::{FieldSpec, dec_value, line_field};
use crate::header::{
    PhaseSpec, ScanSpec, Section, finish, header_of, markers_in, marker, opt_seq, scan,
    struct_opening, tag, text_lines,
};
use crate::emit::{dec_text, digit_char, field_init, fields_init, list_ok, section_list, wrapper_code};
use crate::text::{contains, starts_with};

verus! {

/// The fields that the lines of a struct body declare, in the order of the
/// lines; a line that declares none adds nothing.
pub open spec fn body_fields(body: Seq<Seq<char>>) -> Seq<FieldSpec>
    decreases body.len(),
{
    if body.len() == 0 {
        seq![]
    } else {
        body_fields(body.drop_last()) + opt_seq(line_field(body.last()))
    }
}

/// How many lines of a struct body declare a field.
pub open spec fn field_lines(body: Seq<Seq<char>>) -> nat
    decreases body.len(),
{
    if body.len() == 0 {
        0
    } else {
        field_lines(body.drop_last()) + if line_field(body.last()) is Some {
            1nat
        } else {
            0nat
        }
    }
}

/// The scan waits for the struct of section `sec` to open: a marker of it
/// was the last line read, or the struct of a section announced before it
/// on the same marker line has just closed or was missing.
pub open spec fn awaits(s: ScanSpec, sec: Section) -> bool {
    s.phase matches PhaseSpec::Expect(p) && p.len() > 0 && p[0] == sec
}

proof fn lemma_body_prefix(
    pre: Seq<Seq<char>>,
    op: Seq<char>,
    body: Seq<Seq<char>>,
    sec: Section,
    k: int,
)
    requires
        awaits(scan(pre), sec),
        starts_with(op, struct_opening()),
        forall|i: int| 0 <= i < body.len() ==> !contains(#[trigger] body[i], tag(sec)),
        0 <= k <= body.len(),
    ensures
        scan(pre.push(op) + body.subrange(0, k)) == (ScanSpec {
            phase: PhaseSpec::Body(
                sec,
                scan(pre).phase->Expect_0.drop_first(),
                body_fields(body.subrange(0, k)),
            ),
            lists: scan(pre).lists,
        }),
    decreases k,
{
    let lines = pre.push(op) + body.subrange(0, k);
    if k == 0 {
        assert(lines =~= pre.push(op));
        assert(pre.push(op).drop_last() =~= pre);
        assert(body.subrange(0, 0) =~= Seq::<Seq<char>>::empty());
    } else {
        lemma_body_prefix(pre, op, body, sec, k - 1);
        assert(lines.drop_last() =~= pre.push(op) + body.subrange(0, k - 1));
        assert(lines.last() == body[k - 1]);
        assert(body.subrange(0, k).drop_last() =~= body.subrange(0, k - 1));
        assert(body.subrange(0, k).last() == body[k - 1]);
        assert(!contains(body[k - 1], tag(sec)));
    }
}

proof fn lemma_count(body: Seq<Seq<char>>)
    ensures
        body_fields(body).len() == field_lines(body),
        field_lines(body) <= body.len(),
    decreases body.len(),
{
    if body.len() > 0 {
        lemma_count(body.drop_last());
    }
}

proof fn lemma_all_fields(body: Seq<Seq<char>>)
    requires
        forall|i: int| 0 <= i < body.len() ==> line_field(#[trigger] body[i]) is Some,
    ensures
        body_fields(body) == Seq::new(body.len(), |i: int| line_field(body[i])->Some_0),
    decreases body.len(),
{
    if body.len() > 0 {
        let init = body.drop_last();
        assert forall|i: int| 0 <= i < init.len() implies line_field(#[trigger] init[i]) is Some by {
            assert(init[i] == body[i]);
        }
        lemma_all_fields(init);
        assert(line_field(body[body.len() - 1]) is Some);
        assert(body_fields(body) =~= Seq::new(body.len(), |i: int| line_field(body[i])->Some_0));
    }
}

/// A section read from its opening line on gives, as its list, the fields
/// of the lines of its struct body that declare one, in the order of the
/// lines and one per line, so as many fields as such lines; where every line
/// declares one, exactly one field per line. The end of the header closes
/// a struct as its closing line does.
pub proof fn lemma_field_count(
    pre: Seq<Seq<char>>,
    op: Seq<char>,
    body: Seq<Seq<char>>,
    close: Seq<char>,
    sec: Section,
)
    requires
        awaits(scan(pre), sec),
        starts_with(op, struct_opening()),
        forall|i: int| 0 <= i < body.len() ==> !contains(#[trigger] body[i], tag(sec)),
        contains(close, tag(sec)),
    ensures
        section_list(finish(scan(pre.push(op) + body + seq![close])), sec) == body_fields(body),
        section_list(finish(scan(pre.push(op) + body)), sec) == body_fields(body),
        body_fields(body).len() == field_lines(body),
        (forall|i: int| 0 <= i < body.len() ==> line_field(#[trigger] body[i]) is Some) ==> {
            &&& body_fields(body).len() == body.len()
            &&& forall|i: int| 0 <= i < body.len() ==> Some(body_fields(body)[i]) == line_field(#[trigger] body[i])
        },
{
    lemma_body_prefix(pre, op, body, sec, body.len() as int);
    assert(body.subrange(0, body.len() as int) =~= body);
    let lines = pre.push(op) + body + seq![close];
    assert(lines.drop_last() =~= pre.push(op) + body);
    lemma_count(body);
    if forall|i: int| 0 <= i < body.len() ==> line_field(#[trigger] body[i]) is Some {
        lemma_all_fields(body);
        assert forall|i: int| 0 <= i < body.len() implies Some(body_fields(body)[i]) == line_field(
            #[trigger] body[i],
        ) by {
            assert(line_field(body[i]) is Some);
        }
    }
}

/// A marker line read while looking for markers makes the scan wait for the
/// first section it announces.
pub proof fn lemma_marker_opens(pre: Seq<Seq<char>>, mk: Seq<char>)
    requires
        scan(pre).phase == PhaseSpec::Seek,
        markers_in(mk).len() > 0,
    ensures
        awaits(scan(pre.push(mk)), markers_in(mk)[0]),
{
    assert(pre.push(mk).drop_last() =~= pre);
}

/// Permuting the field lines of a struct body permutes the section's list
/// the same way, and so the initializers of the generated `Default` impl:
/// the one at place `k` is that of the field declared on the line that moved
/// there, and it follows the initializers of all the fields now declared
/// before it.
pub proof fn lemma_permuted_body(
    pre: Seq<Seq<char>>,
    op: Seq<char>,
    body1: Seq<Seq<char>>,
    body2: Seq<Seq<char>>,
    perm: Seq<int>,
    close: Seq<char>,
    sec: Section,
)
    requires
        awaits(scan(pre), sec),
        starts_with(op, struct_opening()),
        contains(close, tag(sec)),
        forall|i: int| 0 <= i < body1.len() ==> !contains(#[trigger] body1[i], tag(sec)),
        forall|i: int| 0 <= i < body1.len() ==> line_field(#[trigger] body1[i]) is Some,
        body2.len() == body1.len(),
        perm.len() == body1.len(),
        forall|i: int| 0 <= i < perm.len() ==> 0 <= #[trigger] perm[i] < body1.len(),
        forall|i: int| 0 <= i < body2.len() ==> #[trigger] body2[i] == body1[perm[i]],
    ensures
        ({
            let l1 = section_list(finish(scan(pre.push(op) + body1 + seq![close])), sec);
            let l2 = section_list(finish(scan(pre.push(op) + body2 + seq![close])), sec);
            &&& l2.len() == l1.len()
            &&& forall|i: int| 0 <= i < l2.len() ==> #[trigger] l2[i] == l1[perm[i]]
            &&& forall|k: int| 0 <= k < l2.len() ==> #[trigger] fields_init(l2) == fields_init(
                l2.subrange(0, k),
            ) + field_init(l1[perm[k]]) + fields_init(l2.subrange(k + 1, l2.len() as int))
        }),
{
    assert forall|i: int| 0 <= i < body2.len() implies !contains(#[trigger] body2[i], tag(sec)) by {
        assert(body2[i] == body1[perm[i]]);
    }
    assert forall|i: int| 0 <= i < body2.len() implies line_field(#[trigger] body2[i]) is Some by {
        assert(body2[i] == body1[perm[i]]);
    }
    lemma_field_count(pre, op, body1, close, sec);
    lemma_field_count(pre, op, body2, close, sec);
    lemma_all_fields(body1);
    lemma_all_fields(body2);
    let l1 = section_list(finish(scan(pre.push(op) + body1 + seq![close])), sec);
    let l2 = section_list(finish(scan(pre.push(op) + body2 + seq![close])), sec);
    assert forall|i: int| 0 <= i < l2.len() implies #[trigger] l2[i] == l1[perm[i]] by {
        assert(body2[i] == body1[perm[i]]);
        assert(0 <= perm[i] < body1.len());
    }
    assert forall|k: int| 0 <= k < l2.len() implies #[trigger] fields_init(l2) == fields_init(
        l2.subrange(0, k),
    ) + field_init(l1[perm[k]]) + fields_init(l2.subrange(k + 1, l2.len() as int)) by {
        lemma_init_order(l2, k);
    }
}

/// The scan has not touched the state list and is not inside, nor waiting
/// for, the state struct.
pub open spec fn states_untouched(s: ScanSpec) -> bool {
    &&& s.lists.states.len() == 0
    &&& match s.phase {
        PhaseSpec::Seek => true,
        PhaseSpec::Expect(p) => forall|i: int| 0 <= i < p.len() ==> p[i] != Section::States,
        PhaseSpec::Body(sec, rest, _) => sec != Section::States && forall|i: int|
            0 <= i < rest.len() ==> rest[i] != Section::States,
    }
}

proof fn lemma_states_untouched(lines: Seq<Seq<char>>)
    requires
        forall|i: int| 0 <= i < lines.len() ==> !contains(#[trigger] lines[i], marker(Section::States)),
    ensures
        states_untouched(scan(lines)),
    decreases lines.len(),
{
    if lines.len() > 0 {
        let init = lines.drop_last();
        assert forall|i: int| 0 <= i < init.len() implies !contains(
            #[trigger] init[i],
            marker(Section::States),
        ) by {
            assert(init[i] == lines[i]);
        }
        lemma_states_untouched(init);
        let s = scan(init);
        let l = lines.last();
        assert(!contains(l, marker(Section::States)));
        match s.phase {
            PhaseSpec::Seek => {
                let m = markers_in(l);
                assert(forall|i: int| 0 <= i < m.len() ==> m[i] != Section::States);
            },
            PhaseSpec::Expect(p) => {
                if p.len() > 0 {
                    assert(p[0] != Section::States);
                    let r = p.drop_first();
                    assert(forall|i: int| 0 <= i < r.len() ==> r[i] == p[i + 1]);
                }
            },
            PhaseSpec::Body(sec, rest, acc) => {},
        }
    }
}

/// A header none of whose lines holds the marker of the state section gives
/// an empty state list, and an empty list never blocks generation.
pub proof fn lemma_absent_states(t: Seq<char>)
    requires
        forall|i: int|
            0 <= i < text_lines(t).len() ==> !contains(#[trigger] text_lines(t)[i], marker(Section::States)),
    ensures
        header_of(t).states == Seq::<FieldSpec>::empty(),
        list_ok(header_of(t).states),
{
    lemma_states_untouched(text_lines(t));
    assert(header_of(t).states =~= Seq::<FieldSpec>::empty());
}

proof fn lemma_fields_init_concat(a: Seq<FieldSpec>, b: Seq<FieldSpec>)
    ensures
        fields_init(a + b) == fields_init(a) + fields_init(b),
    decreases b.len(),
{
    if b.len() == 0 {
        assert(a + b =~= a);
        assert(fields_init(a) + fields_init(b) =~= fields_init(a));
    } else {
        lemma_fields_init_concat(a, b.drop_last());
        assert((a + b).drop_last() =~= a + b.drop_last());
        assert(fields_init(a) + fields_init(b) =~= fields_init(a) + fields_init(b.drop_last())
            + field_init(b.last()));
    }
}

/// The initializer of the field at `k` stands right after the initializers
/// of all the fields declared before it, and right before those of all the
/// fields declared after it.
pub proof fn lemma_init_order(fs: Seq<FieldSpec>, k: int)
    requires
        0 <= k < fs.len(),
    ensures
        fields_init(fs) == fields_init(fs.subrange(0, k)) + field_init(fs[k]) + fields_init(
            fs.subrange(k + 1, fs.len() as int),
        ),
{
    let a = fs.subrange(0, k);
    let c = fs.subrange(k + 1, fs.len() as int);
    assert(fs =~= a + seq![fs[k]] + c);
    lemma_fields_init_concat(a + seq![fs[k]], c);
    lemma_fields_init_concat(a, seq![fs[k]]);
    assert(seq![fs[k]].drop_last() =~= Seq::<FieldSpec>::empty());
    assert(fields_init(Seq::<FieldSpec>::empty()) == Seq::<char>::empty());
    assert(fields_init(seq![fs[k]]) == fields_init(Seq::<FieldSpec>::empty()) + field_init(fs[k]));
    assert(fields_init(seq![fs[k]]) =~= field_init(fs[k]));
}

/// Each field of a generated record starts out zero: a scalar at `0f64`, an
/// array as zeros whose count reads back as the declared length.
pub proof fn lemma_zero_default(fs: Seq<FieldSpec>, k: int)
    requires
        0 <= k < fs.len(),
    ensures
        fields_init(fs) == fields_init(fs.subrange(0, k)) + (match fs[k].size {
            None => "            "@ + fs[k].name + ": 0f64,\n"@,
            Some(n) => "            "@ + fs[k].name + ": [0f64; "@ + dec_text(n as nat) + "],\n"@,
        }) + fields_init(fs.subrange(k + 1, fs.len() as int)),
        fs[k].size matches Some(n) ==> dec_value(dec_text(n as nat)) == n,
{
    lemma_init_order(fs, k);
    if let Some(n) = fs[k].size {
        lemma_dec_round_trip(n as nat);
    }
}

/// The decimal text of a count reads back as the count.
pub proof fn lemma_dec_round_trip(n: nat)
    ensures
        dec_value(dec_text(n)) == n,
    decreases n,
{
    let d = n % 10;
    assert(d % 10 == d);
    assert(((48 + d) as u8) as char as nat == 48 + d);
    assert('0' as nat == 48);
    let c = dec_text(n).last();
    assert(c == digit_char(d));
    assert(c as nat - '0' as nat == d);
    if n < 10 {
        assert(dec_text(n).drop_last() =~= Seq::<char>::empty());
        assert(dec_value(Seq::<char>::empty()) == 0);
    } else {
        lemma_dec_round_trip(n / 10);
        assert(dec_text(n).drop_last() == dec_text(n / 10));
        assert(n == (n / 10) * 10 + d);
    }
}

/// Generation is a function of its input: the same model name and header
/// text give the same declarations.
pub proof fn lemma_generation_repeatable(m1: Seq<char>, t1: Seq<char>, m2: Seq<char>, t2: Seq<char>)
    requires
        m1 == m2,
        t1 == t2,
    ensures
        header_of(t1) == header_of(t2),
        wrapper_code(m1, header_of(t1)) == wrapper_code(m2, header_of(t2)),
{
}

} // verus!
