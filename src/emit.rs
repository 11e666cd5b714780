use vstd::prelude::*;
use crate::field::{FieldSpec, IO, is_word_char, is_word_char_exec};
use crate::header::{Header, HeaderSpec, List, Section};
use crate::text::{push_all, push_str, same_chars, string_of, chars_of};

verus! {

/// The decimal digit `d` as a character.
pub open spec fn digit_char(d: nat) -> char {
    ((48 + d % 10) as u8) as char
}

/// A count written in decimal, without leading zeros.
pub open spec fn dec_text(n: nat) -> Seq<char>
    decreases n,
{
    if n < 10 {
        seq![digit_char(n)]
    } else {
        dec_text(n / 10).push(digit_char(n % 10))
    }
}

/// The line that sets one field to zero in a generated `Default` impl: `0.0`
/// for a scalar, an array of zeros of the declared length for an array.
pub open spec fn field_init(f: FieldSpec) -> Seq<char> {
    match f.size {
        None => "            "@ + f.name + ": 0f64,\n"@,
        Some(n) => "            "@ + f.name + ": [0f64; "@ + dec_text(n as nat) + "],\n"@,
    }
}

/// The initializer lines of a list, one per field, in the list's order.
pub open spec fn fields_init(fs: Seq<FieldSpec>) -> Seq<char>
    decreases fs.len(),
{
    if fs.len() == 0 {
        seq![]
    } else {
        fields_init(fs.drop_last()) + field_init(fs.last())
    }
}

/// The keywords of Rust, strict and reserved, which no field, variant or
/// type can be named.
pub open spec fn keywords() -> Seq<&'static str> {
    seq!["as", "async", "await", "break", "const", "continue", "crate", "dyn", "else", "enum", "extern", "false", "fn", "for", "if", "impl", "in", "let", "loop", "match", "mod", "move", "mut", "pub", "ref", "return", "self", "Self", "static", "struct", "super", "trait", "true", "type", "unsafe", "use", "where", "while", "abstract", "become", "box", "do", "final", "macro", "override", "priv", "try", "typeof", "unsized", "virtual", "yield"]
}

pub open spec fn is_keyword(s: Seq<char>) -> bool {
    exists|i: int| 0 <= i < keywords().len() && keywords()[i]@ == s
}

/// Whether a name can stand as a Rust identifier: identifier characters, not
/// starting with a digit, neither a lone `_` nor a keyword.
pub open spec fn is_ident(s: Seq<char>) -> bool {
    &&& s.len() > 0
    &&& s != seq!['_']
    &&& !is_keyword(s)
    &&& !('0' <= s[0] && s[0] <= '9')
    &&& forall|i: int| 0 <= i < s.len() ==> is_word_char(s[i])
}

/// Two fields of the list share a name.
pub open spec fn has_duplicate(fs: Seq<FieldSpec>) -> bool {
    exists|i: int, j: int| 0 <= i < j < fs.len() && fs[i].name == fs[j].name
}

/// Every name of the list is an identifier and no two are equal.
pub open spec fn list_ok(fs: Seq<FieldSpec>) -> bool {
    &&& forall|i: int| 0 <= i < fs.len() ==> is_ident(#[trigger] fs[i].name)
    &&& !has_duplicate(fs)
}

/// The `Default` impl of one record type.
pub open spec fn default_impl(prefix: Seq<char>, m: Seq<char>, fs: Seq<FieldSpec>) -> Seq<char> {
    "impl Default for "@ + prefix + m + "_T {\n    fn default() -> Self {\n        Self {\n"@
        + fields_init(fs) + "        }\n    }\n}\n"@
}

/// The wrapper struct over the three records.
pub open spec fn wrapper_decl(m: Seq<char>) -> Seq<char> {
    "/// Simulink controller wrapper\n#[derive(Debug, Clone, Copy, Default)]\npub struct "@ + m
        + " {\n    pub inputs: ExtU_"@ + m + "_T,\n    pub outputs: ExtY_"@ + m
        + "_T,\n    states: DW_"@ + m + "_T,\n}\n"@
}

/// The body of a method that calls the routine `<model>_<routine>` with a
/// context over the wrapper's state and the addresses of its inputs and
/// outputs; `this` names the wrapper.
pub open spec fn native_call(m: Seq<char>, this: Seq<char>, routine: Seq<char>) -> Seq<char> {
    "        let mut data: RT_MODEL_"@ + m + "_T = tag_RTM_"@ + m + "_T {\n            dwork: &mut "@
        + this + ".states as *mut _,\n        };\n        unsafe {\n            "@ + m + routine
        + "(\n                &mut data as *mut _,\n                &mut "@ + this
        + ".inputs as *mut _,\n                &mut "@ + this
        + ".outputs as *mut _,\n            )\n        }\n"@
}

/// The `new` and `step` methods of the wrapper.
pub open spec fn wrapper_impl(m: Seq<char>) -> Seq<char> {
    "impl "@ + m
        + " {\n    /// Creates a new controller\n    pub fn new() -> Self {\n        let mut this: Self = Default::default();\n"@
        + native_call(m, "this"@, "_initialize"@)
        + "        this\n    }\n    /// Steps the controller\n    pub fn step(&mut self) {\n"@
        + native_call(m, "self"@, "_step"@) + "    }\n}\n"@
}

/// The declarations generated for model `m` with the given field lists.
pub open spec fn wrapper_code(m: Seq<char>, h: HeaderSpec) -> Seq<char> {
    wrapper_decl(m) + default_impl("ExtU_"@, m, h.inputs) + default_impl("ExtY_"@, m, h.outputs)
        + default_impl("DW_"@, m, h.states) + wrapper_impl(m)
}

/// Why no declarations could be generated.
#[derive(Debug)]
pub enum GenError {
    /// The model name is not an identifier.
    InvalidModelName(String),
    /// A field of the section has a name that is no identifier.
    InvalidFieldName(Section, String),
    /// Two fields of the section share the name.
    DuplicateField(Section, String),
}

pub open spec fn section_list(h: HeaderSpec, sec: Section) -> Seq<FieldSpec> {
    match sec {
        Section::Inputs => h.inputs,
        Section::Outputs => h.outputs,
        Section::States => h.states,
    }
}

/// Whether declarations can be generated for model `m` and lists `h`.
pub open spec fn can_generate(m: Seq<char>, h: HeaderSpec) -> bool {
    is_ident(m) && list_ok(h.inputs) && list_ok(h.outputs) && list_ok(h.states)
}

/// The error describes a real fault of the input.
pub open spec fn error_holds(m: Seq<char>, h: HeaderSpec, e: GenError) -> bool {
    match e {
        GenError::InvalidModelName(s) => s@ == m && !is_ident(m),
        GenError::InvalidFieldName(sec, s) => exists|i: int|
            0 <= i < section_list(h, sec).len() && section_list(h, sec)[i].name == s@ && !is_ident(s@),
        GenError::DuplicateField(sec, s) => exists|i: int, j: int|
            0 <= i < j < section_list(h, sec).len() && section_list(h, sec)[i].name == s@
                && section_list(h, sec)[j].name == s@,
    }
}

/// Appends `n` in decimal.
fn push_dec(out: &mut Vec<char>, n: usize)
    ensures
        final(out)@ == old(out)@ + dec_text(n as nat),
    decreases n,
{
    if n >= 10 {
        push_dec(out, n / 10);
    }
    let c = ((48 + n % 10) as u8) as char;
    out.push(c);
    proof {
        if n >= 10 {
            assert(old(out)@ + dec_text(n as nat) =~= old(out)@ + dec_text((n / 10) as nat) + seq![c]);
        } else {
            assert(old(out)@ + dec_text(n as nat) =~= old(out)@ + seq![c]);
        }
    }
}

fn push_field_init(out: &mut Vec<char>, f: &IO)
    ensures
        final(out)@ == old(out)@ + field_init(f@),
{
    let name = chars_of(f.name.as_str());
    push_str(out, "            ");
    push_all(out, name.as_slice());
    match f.size {
        None => {
            push_str(out, ": 0f64,\n");
        },
        Some(n) => {
            push_str(out, ": [0f64; ");
            push_dec(out, n);
            push_str(out, "],\n");
        },
    }
}

fn push_fields_init(out: &mut Vec<char>, l: &List)
    ensures
        final(out)@ == old(out)@ + fields_init(l@),
{
    let v = &l.0;
    let mut i: usize = 0;
    while i < v.len()
        invariant
            0 <= i <= v@.len(),
            out@ == old(out)@ + fields_init(l@.subrange(0, i as int)),
            l@ == v@.map_values(|f: IO| f@),
        decreases v@.len() - i,
    {
        push_field_init(out, &v[i]);
        i = i + 1;
        assert(l@.subrange(0, i as int).drop_last() =~= l@.subrange(0, i - 1));
        assert(out@ =~= old(out)@ + fields_init(l@.subrange(0, i as int)));
    }
    assert(l@.subrange(0, v@.len() as int) =~= l@);
}

/// The error names a fault of list `fs` of section `sec`.
pub open spec fn list_error_holds(fs: Seq<FieldSpec>, sec: Section, e: GenError) -> bool {
    match e {
        GenError::InvalidModelName(_) => false,
        GenError::InvalidFieldName(s, n) => s == sec && exists|i: int|
            0 <= i < fs.len() && fs[i].name == n@ && !is_ident(n@),
        GenError::DuplicateField(s, n) => s == sec && exists|i: int, j: int|
            0 <= i < j < fs.len() && fs[i].name == n@ && fs[j].name == n@,
    }
}

fn is_keyword_exec(s: &[char]) -> (r: bool)
    ensures
        r == is_keyword(s@),
{
    let kws: Vec<&'static str> = vec!["as", "async", "await", "break", "const", "continue", "crate", "dyn", "else", "enum", "extern", "false", "fn", "for", "if", "impl", "in", "let", "loop", "match", "mod", "move", "mut", "pub", "ref", "return", "self", "Self", "static", "struct", "super", "trait", "true", "type", "unsafe", "use", "where", "while", "abstract", "become", "box", "do", "final", "macro", "override", "priv", "try", "typeof", "unsized", "virtual", "yield"];
    assert(kws@ == keywords());
    let mut i: usize = 0;
    while i < kws.len()
        invariant
            0 <= i <= kws@.len(),
            kws@ == keywords(),
            forall|k: int| 0 <= k < i ==> keywords()[k]@ != s@,
        decreases kws@.len() - i,
    {
        let w = chars_of(kws[i]);
        if same_chars(s, w.as_slice()) {
            return true;
        }
        i = i + 1;
    }
    false
}

/// Whether `s` can stand as a Rust identifier.
pub fn is_ident_exec(s: &[char]) -> (r: bool)
    ensures
        r == is_ident(s@),
{
    if s.len() == 0 || ('0' <= s[0] && s[0] <= '9') {
        return false;
    }
    if s.len() == 1 && s[0] == '_' {
        assert(s@ =~= seq!['_']);
        return false;
    }
    if is_keyword_exec(s) {
        return false;
    }
    proof {
        if s@ == seq!['_'] {
            assert(s@.len() == 1 && s@[0] == '_');
        }
    }
    let mut i: usize = 0;
    while i < s.len()
        invariant
            0 <= i <= s@.len(),
            forall|k: int| 0 <= k < i ==> is_word_char(s@[k]),
        decreases s@.len() - i,
    {
        if !is_word_char_exec(s[i]) {
            return false;
        }
        i = i + 1;
    }
    true
}

fn check_list(l: &List, sec: Section) -> (r: Result<(), GenError>)
    ensures
        r is Ok <==> list_ok(l@),
        r matches Err(e) ==> list_error_holds(l@, sec, e),
{
    let v = &l.0;
    let mut i: usize = 0;
    while i < v.len()
        invariant
            0 <= i <= v@.len(),
            l@ == v@.map_values(|f: IO| f@),
            forall|k: int| 0 <= k < i ==> is_ident(#[trigger] l@[k].name),
        decreases v@.len() - i,
    {
        let name = chars_of(v[i].name.as_str());
        assert(l@[i as int].name == name@);
        if !is_ident_exec(name.as_slice()) {
            return Err(GenError::InvalidFieldName(sec, v[i].name.clone()));
        }
        i = i + 1;
    }
    let mut i: usize = 0;
    while i < v.len()
        invariant
            0 <= i <= v@.len(),
            l@ == v@.map_values(|f: IO| f@),
            forall|k: int| 0 <= k < v@.len() ==> is_ident(#[trigger] l@[k].name),
            forall|a: int, b: int| 0 <= a < i && a < b < v@.len() ==> l@[a].name != l@[b].name,
        decreases v@.len() - i,
    {
        let mut j: usize = i + 1;
        while j < v.len()
            invariant
                0 <= i < j <= v@.len(),
                l@ == v@.map_values(|f: IO| f@),
                forall|b: int| i < b < j ==> l@[i as int].name != l@[b].name,
            decreases v@.len() - j,
        {
            if v[i].name == v[j].name {
                assert(l@[i as int].name == l@[j as int].name);
                return Err(GenError::DuplicateField(sec, v[i].name.clone()));
            }
            j = j + 1;
        }
        i = i + 1;
    }
    Ok(())
}

impl List {
    /// The initializer lines that set each field of the list to zero, in
    /// the list's order.
    pub fn quote(&self) -> (r: String)
        ensures
            r@ == fields_init(self@),
    {
        let mut out: Vec<char> = Vec::new();
        push_fields_init(&mut out, self);
        assert(out@ =~= fields_init(self@));
        string_of(out.as_slice())
    }
}

fn push_default_impl(out: &mut Vec<char>, prefix: &str, m: &[char], l: &List)
    ensures
        final(out)@ == old(out)@ + default_impl(prefix@, m@, l@),
{
    push_str(out, "impl Default for ");
    push_str(out, prefix);
    push_all(out, m);
    push_str(out, "_T {\n    fn default() -> Self {\n        Self {\n");
    push_fields_init(out, l);
    push_str(out, "        }\n    }\n}\n");
    assert(out@ =~= old(out)@ + default_impl(prefix@, m@, l@));
}

fn push_native_call(out: &mut Vec<char>, m: &[char], this: &str, routine: &str)
    ensures
        final(out)@ == old(out)@ + native_call(m@, this@, routine@),
{
    push_str(out, "        let mut data: RT_MODEL_");
    push_all(out, m);
    push_str(out, "_T = tag_RTM_");
    push_all(out, m);
    push_str(out, "_T {\n            dwork: &mut ");
    push_str(out, this);
    push_str(out, ".states as *mut _,\n        };\n        unsafe {\n            ");
    push_all(out, m);
    push_str(out, routine);
    push_str(out, "(\n                &mut data as *mut _,\n                &mut ");
    push_str(out, this);
    push_str(out, ".inputs as *mut _,\n                &mut ");
    push_str(out, this);
    push_str(out, ".outputs as *mut _,\n            )\n        }\n");
    assert(out@ =~= old(out)@ + native_call(m@, this@, routine@));
}

fn push_wrapper(out: &mut Vec<char>, m: &[char])
    ensures
        final(out)@ == old(out)@ + wrapper_decl(m@),
{
    push_str(out, "/// Simulink controller wrapper\n#[derive(Debug, Clone, Copy, Default)]\npub struct ");
    push_all(out, m);
    push_str(out, " {\n    pub inputs: ExtU_");
    push_all(out, m);
    push_str(out, "_T,\n    pub outputs: ExtY_");
    push_all(out, m);
    push_str(out, "_T,\n    states: DW_");
    push_all(out, m);
    push_str(out, "_T,\n}\n");
    assert(out@ =~= old(out)@ + wrapper_decl(m@));
}

fn push_wrapper_impl(out: &mut Vec<char>, m: &[char])
    ensures
        final(out)@ == old(out)@ + wrapper_impl(m@),
{
    push_str(out, "impl ");
    push_all(out, m);
    push_str(
        out,
        " {\n    /// Creates a new controller\n    pub fn new() -> Self {\n        let mut this: Self = Default::default();\n",
    );
    push_native_call(out, m, "this", "_initialize");
    push_str(out, "        this\n    }\n    /// Steps the controller\n    pub fn step(&mut self) {\n");
    push_native_call(out, m, "self", "_step");
    push_str(out, "    }\n}\n");
    assert(out@ =~= old(out)@ + wrapper_impl(m@));
}

/// Writes the wrapper of model `model` over the field lists of its header:
/// the wrapper struct, a `Default` impl for each of the three records that
/// sets every field to zero, and `new` and `step` over the model's routines.
pub fn generate(model: &str, h: &Header) -> (r: Result<String, GenError>)
    ensures
        r is Ok <==> can_generate(model@, h@),
        r matches Ok(code) ==> code@ == wrapper_code(model@, h@),
        r matches Err(e) ==> error_holds(model@, h@, e),
{
    let m = chars_of(model);
    if !is_ident_exec(m.as_slice()) {
        return Err(GenError::InvalidModelName(model.to_owned()));
    }
    match check_list(&h.inputs, Section::Inputs) {
        Err(e) => return Err(e),
        Ok(()) => {},
    }
    match check_list(&h.outputs, Section::Outputs) {
        Err(e) => return Err(e),
        Ok(()) => {},
    }
    match check_list(&h.states, Section::States) {
        Err(e) => return Err(e),
        Ok(()) => {},
    }
    let mut out: Vec<char> = Vec::new();
    push_wrapper(&mut out, m.as_slice());
    push_default_impl(&mut out, "ExtU_", m.as_slice(), &h.inputs);
    push_default_impl(&mut out, "ExtY_", m.as_slice(), &h.outputs);
    push_default_impl(&mut out, "DW_", m.as_slice(), &h.states);
    push_wrapper_impl(&mut out, m.as_slice());
    assert(out@ =~= wrapper_code(model@, h@));
    Ok(string_of(out.as_slice()))
}

} // verus!
