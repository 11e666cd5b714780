use vstd::prelude::*;
use vstd::slice::slice_subrange;
use crate::field::{FieldSpec, IO, line_field, opt_view, parse_field_line};
use crate::text::{chars_of, contains, contains_exec, occurs_at_exec, starts_with, string_of};

verus! {

/// The fields of a list, as the specifications see them.
pub open spec fn fields_view(v: Seq<IO>) -> Seq<FieldSpec> {
    v.map_values(|f: IO| f@)
}

/// The members of one model struct, in the order the header declares them.
#[derive(Debug)]
pub struct List(pub Vec<IO>);

impl View for List {
    type V = Seq<FieldSpec>;

    open spec fn view(&self) -> Seq<FieldSpec> {
        fields_view(self.0@)
    }
}

/// One of the three structs that a header declares.
#[derive(Clone, Copy, Debug, PartialEq, Eq, Structural)]
pub enum Section {
    Inputs,
    Outputs,
    States,
}

/// The phrase of the comment line that announces a section.
pub open spec fn marker(sec: Section) -> Seq<char> {
    match sec {
        Section::Inputs => "External inputs"@,
        Section::Outputs => "External outputs"@,
        Section::States => "Block states"@,
    }
}

/// The tag that the closing line of a section's struct holds.
pub open spec fn tag(sec: Section) -> Seq<char> {
    match sec {
        Section::Inputs => "ExtU"@,
        Section::Outputs => "ExtY"@,
        Section::States => "DW"@,
    }
}

/// How the line after a marker must begin for the section to be read.
pub open spec fn struct_opening() -> Seq<char> {
    "typedef struct"@
}

/// The three field lists that a header yields.
pub struct HeaderSpec {
    pub inputs: Seq<FieldSpec>,
    pub outputs: Seq<FieldSpec>,
    pub states: Seq<FieldSpec>,
}

/// The three field lists of a model header.
#[derive(Debug)]
pub struct Header {
    pub inputs: List,
    pub outputs: List,
    pub states: List,
}

impl View for Header {
    type V = HeaderSpec;

    open spec fn view(&self) -> HeaderSpec {
        HeaderSpec { inputs: self.inputs@, outputs: self.outputs@, states: self.states@ }
    }
}

/// Where the scan of a header stands between two lines.
pub enum PhaseSpec {
    /// Looking for section markers.
    Seek,
    /// The next line should open the struct of the first section given; the
    /// others were announced on the same marker line and come after it.
    Expect(Seq<Section>),
    /// Inside the struct of a section, with the sections still to come and
    /// the fields read so far.
    Body(Section, Seq<Section>, Seq<FieldSpec>),
}

pub struct ScanSpec {
    pub phase: PhaseSpec,
    pub lists: HeaderSpec,
}

/// The sections whose markers a line holds, in the order they are read.
pub open spec fn markers_in(l: Seq<char>) -> Seq<Section> {
    (if contains(l, marker(Section::Inputs)) { seq![Section::Inputs] } else { seq![] })
        + (if contains(l, marker(Section::Outputs)) { seq![Section::Outputs] } else { seq![] })
        + (if contains(l, marker(Section::States)) { seq![Section::States] } else { seq![] })
}

pub open spec fn after(rest: Seq<Section>) -> PhaseSpec {
    if rest.len() == 0 {
        PhaseSpec::Seek
    } else {
        PhaseSpec::Expect(rest)
    }
}

/// The lists with the one of `sec` replaced by `fs`.
pub open spec fn with_list(h: HeaderSpec, sec: Section, fs: Seq<FieldSpec>) -> HeaderSpec {
    match sec {
        Section::Inputs => HeaderSpec { inputs: fs, outputs: h.outputs, states: h.states },
        Section::Outputs => HeaderSpec { inputs: h.inputs, outputs: fs, states: h.states },
        Section::States => HeaderSpec { inputs: h.inputs, outputs: h.outputs, states: fs },
    }
}

pub open spec fn opt_seq(o: Option<FieldSpec>) -> Seq<FieldSpec> {
    match o {
        Some(f) => seq![f],
        None => seq![],
    }
}

/// What one line does to the scan.
pub open spec fn step(s: ScanSpec, l: Seq<char>) -> ScanSpec {
    match s.phase {
        PhaseSpec::Seek => ScanSpec { phase: after(markers_in(l)), lists: s.lists },
        PhaseSpec::Expect(p) => if p.len() == 0 {
            ScanSpec { phase: PhaseSpec::Seek, lists: s.lists }
        } else if starts_with(l, struct_opening()) {
            ScanSpec { phase: PhaseSpec::Body(p[0], p.drop_first(), seq![]), lists: s.lists }
        } else {
            ScanSpec { phase: after(p.drop_first()), lists: s.lists }
        },
        PhaseSpec::Body(sec, rest, acc) => if contains(l, tag(sec)) {
            ScanSpec { phase: after(rest), lists: with_list(s.lists, sec, acc) }
        } else {
            ScanSpec { phase: PhaseSpec::Body(sec, rest, acc + opt_seq(line_field(l))), lists: s.lists }
        },
    }
}

pub open spec fn empty_lists() -> HeaderSpec {
    HeaderSpec { inputs: seq![], outputs: seq![], states: seq![] }
}

/// The scan after the given lines, from the start of a header.
pub open spec fn scan(lines: Seq<Seq<char>>) -> ScanSpec
    decreases lines.len(),
{
    if lines.len() == 0 {
        ScanSpec { phase: PhaseSpec::Seek, lists: empty_lists() }
    } else {
        step(scan(lines.drop_last()), lines.last())
    }
}

/// The lists at the end of the header: a struct still open keeps the fields
/// read up to there.
pub open spec fn finish(s: ScanSpec) -> HeaderSpec {
    match s.phase {
        PhaseSpec::Body(sec, _, acc) => with_list(s.lists, sec, acc),
        _ => s.lists,
    }
}

/// A line without its carriage return.
pub open spec fn strip_cr(l: Seq<char>) -> Seq<char> {
    if l.len() > 0 && l.last() == '\r' {
        l.drop_last()
    } else {
        l
    }
}

/// The lines ended by a newline so far, and the text after the last one.
pub open spec fn split_state(t: Seq<char>) -> (Seq<Seq<char>>, Seq<char>)
    decreases t.len(),
{
    if t.len() == 0 {
        (seq![], seq![])
    } else {
        let (done, cur) = split_state(t.drop_last());
        if t.last() == '\n' {
            (done.push(strip_cr(cur)), seq![])
        } else {
            (done, cur.push(t.last()))
        }
    }
}

/// The lines of a text: split at each newline, a carriage return before the
/// newline dropped, and the text after the last newline a line of its own
/// where it is not empty.
pub open spec fn text_lines(t: Seq<char>) -> Seq<Seq<char>> {
    let (done, cur) = split_state(t);
    if cur.len() > 0 {
        done.push(cur)
    } else {
        done
    }
}

/// The three field lists that a header text yields.
pub open spec fn header_of(t: Seq<char>) -> HeaderSpec {
    finish(scan(text_lines(t)))
}

/// The first line that breaks the format: a line, right after a section
/// marker, that does not open a struct, or a line of a struct body that
/// neither declares a field nor closes the struct.
pub open spec fn strict_fault(lines: Seq<Seq<char>>) -> Option<Seq<char>>
    decreases lines.len(),
{
    if lines.len() == 0 {
        None
    } else if strict_fault(lines.drop_last()) is Some {
        strict_fault(lines.drop_last())
    } else {
        match scan(lines.drop_last()).phase {
            PhaseSpec::Body(sec, _, _) => if !contains(lines.last(), tag(sec)) && line_field(
                lines.last(),
            ) is None {
                Some(lines.last())
            } else {
                None
            },
            PhaseSpec::Expect(p) => if p.len() > 0 && !starts_with(lines.last(), struct_opening()) {
                Some(lines.last())
            } else {
                None
            },
            _ => None,
        }
    }
}

/// How lines that break the format are taken.
#[derive(Clone, Copy, Debug, PartialEq, Eq, Structural)]
pub enum ParseMode {
    /// A section whose marker is not followed by the opening of its struct
    /// is left out, as if the header had no such section, and a line of a
    /// struct body that declares no field is passed over.
    Lenient,
    /// The first such line is an error.
    Strict,
}

/// A line that breaks the format, met in strict mode: it should have opened
/// a section's struct, or it stands in a struct body and declares no field.
#[derive(Debug)]
pub struct ParseError {
    pub line: String,
}

enum Phase {
    Seek,
    Expect(Vec<Section>),
    Body(Section, Vec<Section>, Vec<IO>),
}

impl View for Phase {
    type V = PhaseSpec;

    closed spec fn view(&self) -> PhaseSpec {
        match self {
            Phase::Seek => PhaseSpec::Seek,
            Phase::Expect(p) => PhaseSpec::Expect(p@),
            Phase::Body(sec, rest, acc) => PhaseSpec::Body(*sec, rest@, fields_view(acc@)),
        }
    }
}

/// The state of a scan over the lines of a header.
struct Scanner {
    phase: Phase,
    inputs: Vec<IO>,
    outputs: Vec<IO>,
    states: Vec<IO>,
}

impl View for Scanner {
    type V = ScanSpec;

    closed spec fn view(&self) -> ScanSpec {
        ScanSpec {
            phase: self.phase@,
            lists: HeaderSpec {
                inputs: fields_view(self.inputs@),
                outputs: fields_view(self.outputs@),
                states: fields_view(self.states@),
            },
        }
    }
}

proof fn lemma_fields_push(v: Seq<IO>, f: IO)
    ensures
        fields_view(v.push(f)) == fields_view(v).push(f@),
{
    assert(fields_view(v.push(f)) =~= fields_view(v).push(f@));
}

fn marker_chars(sec: Section) -> (r: Vec<char>)
    ensures
        r@ == marker(sec),
{
    match sec {
        Section::Inputs => chars_of("External inputs"),
        Section::Outputs => chars_of("External outputs"),
        Section::States => chars_of("Block states"),
    }
}

fn tag_chars(sec: Section) -> (r: Vec<char>)
    ensures
        r@ == tag(sec),
{
    match sec {
        Section::Inputs => chars_of("ExtU"),
        Section::Outputs => chars_of("ExtY"),
        Section::States => chars_of("DW"),
    }
}

fn markers_exec(l: &[char]) -> (r: Vec<Section>)
    ensures
        r@ == markers_in(l@),
{
    let mut r: Vec<Section> = Vec::new();
    if contains_exec(l, marker_chars(Section::Inputs).as_slice()) {
        r.push(Section::Inputs);
    }
    if contains_exec(l, marker_chars(Section::Outputs).as_slice()) {
        r.push(Section::Outputs);
    }
    if contains_exec(l, marker_chars(Section::States).as_slice()) {
        r.push(Section::States);
    }
    assert(r@ =~= markers_in(l@));
    r
}

fn after_exec(rest: Vec<Section>) -> (r: Phase)
    ensures
        r@ == after(rest@),
{
    if rest.len() == 0 {
        Phase::Seek
    } else {
        Phase::Expect(rest)
    }
}

impl Scanner {
    fn new() -> (r: Scanner)
        ensures
            r@ == (ScanSpec { phase: PhaseSpec::Seek, lists: empty_lists() }),
    {
        let r = Scanner { phase: Phase::Seek, inputs: Vec::new(), outputs: Vec::new(), states: Vec::new() };
        assert(r@.lists.inputs =~= seq![]);
        assert(r@.lists.outputs =~= seq![]);
        assert(r@.lists.states =~= seq![]);
        r
    }

    fn with_list(inputs: Vec<IO>, outputs: Vec<IO>, states: Vec<IO>, sec: Section, acc: Vec<IO>, phase: Phase) -> (r: Scanner)
        ensures
            r@ == (ScanSpec {
                phase: phase@,
                lists: with_list(
                    HeaderSpec {
                        inputs: fields_view(inputs@),
                        outputs: fields_view(outputs@),
                        states: fields_view(states@),
                    },
                    sec,
                    fields_view(acc@),
                ),
            }),
    {
        match sec {
            Section::Inputs => Scanner { phase, inputs: acc, outputs, states },
            Section::Outputs => Scanner { phase, inputs, outputs: acc, states },
            Section::States => Scanner { phase, inputs, outputs, states: acc },
        }
    }

    /// Reads one line.
    fn step(self, l: &[char]) -> (r: Scanner)
        ensures
            r@ == step(self@, l@),
    {
        let Scanner { phase, inputs, outputs, states } = self;
        match phase {
            Phase::Seek => {
                let p = markers_exec(l);
                Scanner { phase: after_exec(p), inputs, outputs, states }
            },
            Phase::Expect(mut p) => {
                if p.len() == 0 {
                    Scanner { phase: Phase::Seek, inputs, outputs, states }
                } else {
                    let opening = chars_of("typedef struct");
                    let ghost p0 = p@;
                    let sec = p.remove(0);
                    assert(p@ =~= p0.drop_first());
                    if occurs_at_exec(l, opening.as_slice(), 0) {
                        let acc: Vec<IO> = Vec::new();
                        assert(fields_view(acc@) =~= seq![]);
                        Scanner { phase: Phase::Body(sec, p, acc), inputs, outputs, states }
                    } else {
                        Scanner { phase: after_exec(p), inputs, outputs, states }
                    }
                }
            },
            Phase::Body(sec, rest, mut acc) => {
                let t = tag_chars(sec);
                if contains_exec(l, t.as_slice()) {
                    Scanner::with_list(inputs, outputs, states, sec, acc, after_exec(rest))
                } else {
                    let ghost a0 = acc@;
                    match parse_field_line(l) {
                        Some(f) => {
                            acc.push(f);
                            proof {
                                lemma_fields_push(a0, f);
                            }
                        },
                        None => {
                            assert(fields_view(a0) + seq![] =~= fields_view(a0));
                        },
                    }
                    assert(fields_view(acc@) =~= fields_view(a0) + opt_seq(line_field(l@)));
                    Scanner { phase: Phase::Body(sec, rest, acc), inputs, outputs, states }
                }
            },
        }
    }

    /// Whether, in strict mode, the line is a fault at this point.
    fn faults(&self, l: &[char]) -> (r: bool)
        ensures
            r == match self@.phase {
                PhaseSpec::Body(sec, _, _) => !contains(l@, tag(sec)) && line_field(l@) is None,
                PhaseSpec::Expect(p) => p.len() > 0 && !starts_with(l@, struct_opening()),
                _ => false,
            },
    {
        match &self.phase {
            Phase::Expect(p) => {
                let opening = chars_of("typedef struct");
                p.len() > 0 && !occurs_at_exec(l, opening.as_slice(), 0)
            },
            Phase::Body(sec, _, _) => {
                let t = tag_chars(*sec);
                !contains_exec(l, t.as_slice()) && parse_field_line(l).is_none()
            },
            _ => false,
        }
    }

    /// Ends the scan at the end of the header.
    fn finish(self) -> (r: Header)
        ensures
            r@ == finish(self@),
    {
        let Scanner { phase, inputs, outputs, states } = self;
        match phase {
            Phase::Body(sec, _, acc) => {
                let s = Scanner::with_list(inputs, outputs, states, sec, acc, Phase::Seek);
                Header { inputs: List(s.inputs), outputs: List(s.outputs), states: List(s.states) }
            },
            _ => Header { inputs: List(inputs), outputs: List(outputs), states: List(states) },
        }
    }
}

/// Reads the three field lists of a model header, leniently, by choice: a
/// section whose marker line is not followed by `typedef struct` is left
/// out without a word, and lines of a struct body that declare no field are
/// passed over. Strict mode in `parse_header_with` reports both instead.
pub fn parse_header(text: &str) -> (r: Header)
    ensures
        r@ == header_of(text@),
{
    match parse_header_with(text, ParseMode::Lenient) {
        Ok(h) => h,
        Err(_) => Header { inputs: List(Vec::new()), outputs: List(Vec::new()), states: List(Vec::new()) },
    }
}

proof fn lemma_fault_push(done: Seq<Seq<char>>, l: Seq<char>)
    ensures
        done.push(l).drop_last() == done,
        done.push(l).last() == l,
{
    assert(done.push(l).drop_last() =~= done);
}

/// Reads the three field lists of a model header. In lenient mode it is
/// `parse_header`. In strict mode the first line that breaks the format is
/// an error that names it: a line after a section marker that does not open
/// the section's struct, or a line of a struct body that declares no field.
/// A marker on the last line of the header, with nothing after it, leaves
/// its section out in both modes.
pub fn parse_header_with(text: &str, mode: ParseMode) -> (r: Result<Header, ParseError>)
    ensures
        r matches Ok(h) ==> h@ == header_of(text@),
        mode == ParseMode::Lenient ==> r is Ok,
        mode == ParseMode::Strict ==> match strict_fault(text_lines(text@)) {
            None => r is Ok,
            Some(l) => r matches Err(e) && e.line@ == l,
        },
{
    let strict = match mode {
        ParseMode::Strict => true,
        ParseMode::Lenient => false,
    };
    let cs = chars_of(text);
    let mut st = Scanner::new();
    let ghost mut done: Seq<Seq<char>> = seq![];
    let mut fault: Option<String> = None;
    let mut start: usize = 0;
    let mut i: usize = 0;
    assert(cs@.subrange(0, 0) =~= seq![]);
    while i < cs.len()
        invariant
            0 <= start <= i <= cs@.len(),
            split_state(cs@.subrange(0, i as int)) == (done, cs@.subrange(start as int, i as int)),
            st@ == scan(done),
            strict == (mode == ParseMode::Strict),
            match fault {
                None => !strict || strict_fault(done) is None,
                Some(f) => strict && strict_fault(done) == Some(f@),
            },
        decreases cs@.len() - i,
    {
        let ghost cur = cs@.subrange(start as int, i as int);
        assert(cs@.subrange(0, i + 1).drop_last() =~= cs@.subrange(0, i as int));
        if cs[i] == '\n' {
            let end = if i > start && cs[i - 1] == '\r' {
                i - 1
            } else {
                i
            };
            let line = slice_subrange(cs.as_slice(), start, end);
            assert(line@ =~= strip_cr(cur));
            proof {
                lemma_fault_push(done, line@);
            }
            if strict && fault.is_none() && st.faults(line) {
                fault = Some(string_of(line));
            }
            st = st.step(line);
            proof {
                done = done.push(line@);
            }
            start = i + 1;
            assert(cs@.subrange(start as int, i + 1) =~= seq![]);
        } else {
            assert(cs@.subrange(start as int, i + 1) =~= cur.push(cs@[i as int]));
        }
        i = i + 1;
    }
    assert(cs@.subrange(0, cs@.len() as int) =~= cs@);
    if start < cs.len() {
        let line = slice_subrange(cs.as_slice(), start, cs.len());
        proof {
            lemma_fault_push(done, line@);
        }
        if strict && fault.is_none() && st.faults(line) {
            fault = Some(string_of(line));
        }
        st = st.step(line);
    }
    match fault {
        Some(line) => Err(ParseError { line }),
        None => Ok(st.finish()),
    }
}

} // verus!
