use vstd::prelude::*;
use crate::field::{FieldSpec, IO};
use crate::header::{Header, HeaderSpec, List, Section};
use crate::emit::{is_ident, is_ident_exec};
use crate::text::{chars_of, push_all, push_str, same_chars, string_of};

verus! {

/// A name with its underscores dropped: the name of the variant that stands
/// for a field in the indexed views.
pub open spec fn variant_name(s: Seq<char>) -> Seq<char>
    decreases s.len(),
{
    if s.len() == 0 {
        seq![]
    } else if s.last() == '_' {
        variant_name(s.drop_last())
    } else {
        variant_name(s.drop_last()).push(s.last())
    }
}

/// The per-field lines of the indexed views and their controller.
#[derive(Clone, Copy)]
pub enum Part {
    /// A variant of the view enum.
    Variant,
    /// An arm of `index`.
    IndexArm,
    /// An arm of `index_mut`.
    IndexMutArm,
    /// A field of the controller.
    CtlField,
    /// The binding of a controller field to the model's storage.
    CtlInit,
}

/// The line of part `k` for field `f`, in view enum `en` over the model's
/// storage `store`.
pub open spec fn part_line(k: Part, en: Seq<char>, store: Seq<char>, f: FieldSpec) -> Seq<char> {
    match k {
        Part::Variant => "    "@ + variant_name(f.name) + "(&'a mut [f64]),\n"@,
        Part::IndexArm => "            "@ + en + "::"@ + variant_name(f.name) + "(data) => &data[index],\n"@,
        Part::IndexMutArm => "            "@ + en + "::"@ + variant_name(f.name)
            + "(data) => &mut data[index],\n"@,
        Part::CtlField => "    pub "@ + f.name + ": "@ + en + "<'a>,\n"@,
        Part::CtlInit => match f.size {
            Some(_) => "                "@ + f.name + ": "@ + en + "::"@ + variant_name(f.name)
                + "(&mut "@ + store + "."@ + f.name + "),\n"@,
            None => "                "@ + f.name + ": "@ + en + "::"@ + variant_name(f.name)
                + "(std::slice::from_mut(&mut "@ + store + "."@ + f.name + ")),\n"@,
        },
    }
}

/// The lines of part `k` for every field of the list, in the list's order.
pub open spec fn part_lines(k: Part, en: Seq<char>, store: Seq<char>, fs: Seq<FieldSpec>) -> Seq<char>
    decreases fs.len(),
{
    if fs.len() == 0 {
        seq![]
    } else {
        part_lines(k, en, store, fs.drop_last()) + part_line(k, en, store, fs.last())
    }
}

/// Every field name and variant name of the list is an identifier, and no
/// two fields give the same variant name.
pub open spec fn views_ok(fs: Seq<FieldSpec>) -> bool {
    &&& forall|i: int| 0 <= i < fs.len() ==> is_ident(#[trigger] fs[i].name)
    &&& forall|i: int| 0 <= i < fs.len() ==> is_ident(variant_name(#[trigger] fs[i].name))
    &&& forall|i: int, j: int|
        0 <= i < j < fs.len() ==> variant_name(fs[i].name) != variant_name(fs[j].name)
}

/// The view enum `en` over a list, with `Index` and `IndexMut` by element
/// number.
pub open spec fn view_enum(en: Seq<char>, fs: Seq<FieldSpec>) -> Seq<char> {
    "pub enum "@ + en + "<'a> {\n"@ + part_lines(Part::Variant, en, seq![], fs) + "}\nimpl<'a> std::ops::Index<usize> for "@
        + en + "<'a> {\n    type Output = f64;\n    fn index(&self, index: usize) -> &f64 {\n        match self {\n"@
        + part_lines(Part::IndexArm, en, seq![], fs)
        + "        }\n    }\n}\nimpl<'a> std::ops::IndexMut<usize> for "@ + en
        + "<'a> {\n    fn index_mut(&mut self, index: usize) -> &mut f64 {\n        match self {\n"@
        + part_lines(Part::IndexMutArm, en, seq![], fs) + "        }\n    }\n}\n"@
}

/// The controller struct of model `m`, with one view per field, and the
/// declarations of the model's global inputs `<m>_U` and outputs `<m>_Y` and
/// of the flag that marks a live controller.
pub open spec fn ctl_decl(m: Seq<char>, h: HeaderSpec) -> Seq<char> {
    "/// Controller over the global storage of the model\npub struct "@ + m + "Controller<'a> {\n"@
        + part_lines(Part::CtlField, m + "Inputs"@, m + "_U"@, h.inputs)
        + part_lines(Part::CtlField, m + "Outputs"@, m + "_Y"@, h.outputs) + "}\nstatic "@ + m
        + "_LIVE: std::sync::atomic::AtomicBool = std::sync::atomic::AtomicBool::new(false);\nextern \"C\" {\n    static mut "@
        + m + "_U"@ + ": ExtU_"@ + m + "_T;\n    static mut "@ + m + "_Y"@ + ": ExtY_"@ + m
        + "_T;\n}\n"@
}

/// `new`, which refuses a second live controller, binds each view to its
/// field of the global storage and initializes the model.
pub open spec fn ctl_new(m: Seq<char>, h: HeaderSpec) -> Seq<char> {
    "impl<'a> "@ + m
        + "Controller<'a> {\n    /// Binds the views to the model's storage and initializes the model\n    pub fn new() -> Self {\n        if "@
        + m
        + "_LIVE.swap(true, std::sync::atomic::Ordering::SeqCst) {\n            panic!(\"a controller of this model is already live\");\n        }\n        let this = unsafe {\n            Self {\n"@
        + part_lines(Part::CtlInit, m + "Inputs"@, m + "_U"@, h.inputs)
        + part_lines(Part::CtlInit, m + "Outputs"@, m + "_Y"@, h.outputs)
        + "            }\n        };\n        unsafe { "@ + m
        + "_initialize() };\n        this\n    }\n}\n"@
}

/// `drop`, which terminates the model once, and the endless iteration that
/// steps the model once per item.
pub open spec fn ctl_life(m: Seq<char>) -> Seq<char> {
    "impl<'a> Drop for "@ + m + "Controller<'a> {\n    fn drop(&mut self) {\n        unsafe { "@ + m
        + "_terminate() };\n        "@ + m
        + "_LIVE.store(false, std::sync::atomic::Ordering::SeqCst);\n    }\n}\nimpl<'a> Iterator for "@
        + m + "Controller<'a> {\n    type Item = ();\n    fn next(&mut self) -> Option<()> {\n        unsafe { "@
        + m + "_step() };\n        Some(())\n    }\n}\n"@
}

/// The controller of model `m`: one view per field over the model's global
/// inputs and outputs, at most one live at a time, `terminate` when it goes,
/// and one `step` per item it yields.
pub open spec fn controller(m: Seq<char>, h: HeaderSpec) -> Seq<char> {
    ctl_decl(m, h) + ctl_new(m, h) + ctl_life(m)
}

/// The declarations of the indexed mode for model `m`.
pub open spec fn indexed_code(m: Seq<char>, h: HeaderSpec) -> Seq<char> {
    view_enum(m + "Inputs"@, h.inputs) + view_enum(m + "Outputs"@, h.outputs) + controller(m, h)
}

/// Why the indexed views could not be generated.
#[derive(Debug)]
pub enum ViewError {
    /// The model name is not an identifier.
    InvalidModelName(String),
    /// A field's name, or its name without underscores, is no identifier.
    InvalidName(Section, String),
    /// Two fields of the section give the same variant name.
    Collision(Section, String, String),
    /// An input field and an output field share a name, which the
    /// controller would then hold twice.
    Shared(String, String),
}

/// No input field has the name of an output field.
pub open spec fn names_apart(u: Seq<FieldSpec>, y: Seq<FieldSpec>) -> bool {
    forall|i: int, j: int| 0 <= i < u.len() && 0 <= j < y.len() ==> u[i].name != y[j].name
}

/// The error names an input field and an output field that share a name.
pub open spec fn shared_holds(u: Seq<FieldSpec>, y: Seq<FieldSpec>, e: ViewError) -> bool {
    match e {
        ViewError::Shared(a, b) => a@ == b@ && exists|i: int, j: int|
            0 <= i < u.len() && 0 <= j < y.len() && u[i].name == a@ && y[j].name == b@,
        _ => false,
    }
}

pub open spec fn can_generate_views(m: Seq<char>, h: HeaderSpec) -> bool {
    is_ident(m) && views_ok(h.inputs) && views_ok(h.outputs) && names_apart(h.inputs, h.outputs)
}

/// The error names a real fault of list `fs` of section `sec`.
pub open spec fn view_error_holds(fs: Seq<FieldSpec>, sec: Section, e: ViewError) -> bool {
    match e {
        ViewError::InvalidModelName(_) => false,
        ViewError::Shared(_, _) => false,
        ViewError::InvalidName(s, n) => s == sec && exists|i: int|
            0 <= i < fs.len() && fs[i].name == n@ && !(is_ident(n@) && is_ident(variant_name(n@))),
        ViewError::Collision(s, a, b) => s == sec && exists|i: int, j: int|
            0 <= i < j < fs.len() && fs[i].name == a@ && fs[j].name == b@ && variant_name(a@)
                == variant_name(b@),
    }
}

fn variant_name_exec(s: &[char]) -> (r: Vec<char>)
    ensures
        r@ == variant_name(s@),
{
    let mut r: Vec<char> = Vec::new();
    let mut i: usize = 0;
    while i < s.len()
        invariant
            0 <= i <= s@.len(),
            r@ == variant_name(s@.subrange(0, i as int)),
        decreases s@.len() - i,
    {
        assert(s@.subrange(0, i + 1).drop_last() =~= s@.subrange(0, i as int));
        if s[i] != '_' {
            r.push(s[i]);
        }
        i = i + 1;
    }
    assert(s@.subrange(0, s@.len() as int) =~= s@);
    r
}

fn check_views(l: &List, sec: Section) -> (r: Result<(), ViewError>)
    ensures
        r is Ok <==> views_ok(l@),
        r matches Err(e) ==> view_error_holds(l@, sec, e),
{
    let v = &l.0;
    let mut names: Vec<Vec<char>> = Vec::new();
    let mut i: usize = 0;
    while i < v.len()
        invariant
            0 <= i <= v@.len(),
            l@ == v@.map_values(|f: IO| f@),
            names@.len() == i,
            forall|k: int| 0 <= k < i ==> is_ident(#[trigger] l@[k].name),
            forall|k: int| 0 <= k < i ==> is_ident(variant_name(#[trigger] l@[k].name)),
            forall|k: int| 0 <= k < i ==> (#[trigger] names@[k])@ == variant_name(l@[k].name),
        decreases v@.len() - i,
    {
        let name = chars_of(v[i].name.as_str());
        assert(l@[i as int].name == name@);
        let vn = variant_name_exec(name.as_slice());
        if !is_ident_exec(name.as_slice()) || !is_ident_exec(vn.as_slice()) {
            return Err(ViewError::InvalidName(sec, v[i].name.clone()));
        }
        names.push(vn);
        i = i + 1;
    }
    let mut i: usize = 0;
    while i < v.len()
        invariant
            0 <= i <= v@.len(),
            l@ == v@.map_values(|f: IO| f@),
            names@.len() == v@.len(),
            forall|k: int| 0 <= k < v@.len() ==> is_ident(#[trigger] l@[k].name),
            forall|k: int| 0 <= k < v@.len() ==> is_ident(variant_name(#[trigger] l@[k].name)),
            forall|k: int| 0 <= k < v@.len() ==> (#[trigger] names@[k])@ == variant_name(l@[k].name),
            forall|a: int, b: int|
                0 <= a < i && a < b < v@.len() ==> variant_name(l@[a].name) != variant_name(l@[b].name),
        decreases v@.len() - i,
    {
        let mut j: usize = i + 1;
        while j < v.len()
            invariant
                0 <= i < j <= v@.len(),
                l@ == v@.map_values(|f: IO| f@),
                names@.len() == v@.len(),
                forall|k: int| 0 <= k < v@.len() ==> (#[trigger] names@[k])@ == variant_name(l@[k].name),
                forall|b: int| i < b < j ==> variant_name(l@[i as int].name) != variant_name(l@[b].name),
            decreases v@.len() - j,
        {
            assert(names@[i as int]@ == variant_name(l@[i as int].name));
            assert(names@[j as int]@ == variant_name(l@[j as int].name));
            if same_chars(names[i].as_slice(), names[j].as_slice()) {
                return Err(ViewError::Collision(sec, v[i].name.clone(), v[j].name.clone()));
            }
            j = j + 1;
        }
        i = i + 1;
    }
    Ok(())
}

fn check_apart(u: &List, y: &List) -> (r: Result<(), ViewError>)
    ensures
        r is Ok <==> names_apart(u@, y@),
        r matches Err(e) ==> shared_holds(u@, y@, e),
{
    let mut i: usize = 0;
    while i < u.0.len()
        invariant
            0 <= i <= u.0@.len(),
            u@ == u.0@.map_values(|f: IO| f@),
            y@ == y.0@.map_values(|f: IO| f@),
            forall|a: int, b: int| 0 <= a < i && 0 <= b < y@.len() ==> u@[a].name != y@[b].name,
        decreases u.0@.len() - i,
    {
        let mut j: usize = 0;
        while j < y.0.len()
            invariant
                0 <= i < u.0@.len(),
                0 <= j <= y.0@.len(),
                u@ == u.0@.map_values(|f: IO| f@),
                y@ == y.0@.map_values(|f: IO| f@),
                forall|b: int| 0 <= b < j ==> u@[i as int].name != y@[b].name,
            decreases y.0@.len() - j,
        {
            if u.0[i].name == y.0[j].name {
                assert(u@[i as int].name == y@[j as int].name);
                return Err(ViewError::Shared(u.0[i].name.clone(), y.0[j].name.clone()));
            }
            j = j + 1;
        }
        i = i + 1;
    }
    Ok(())
}

fn push_part(out: &mut Vec<char>, k: Part, en: &[char], store: &[char], f: &IO)
    ensures
        final(out)@ == old(out)@ + part_line(k, en@, store@, f@),
{
    let name = chars_of(f.name.as_str());
    let vn = variant_name_exec(name.as_slice());
    match k {
        Part::Variant => {
            push_str(out, "    ");
            push_all(out, vn.as_slice());
            push_str(out, "(&'a mut [f64]),\n");
        },
        Part::IndexArm => {
            push_str(out, "            ");
            push_all(out, en);
            push_str(out, "::");
            push_all(out, vn.as_slice());
            push_str(out, "(data) => &data[index],\n");
        },
        Part::IndexMutArm => {
            push_str(out, "            ");
            push_all(out, en);
            push_str(out, "::");
            push_all(out, vn.as_slice());
            push_str(out, "(data) => &mut data[index],\n");
        },
        Part::CtlField => {
            push_str(out, "    pub ");
            push_all(out, name.as_slice());
            push_str(out, ": ");
            push_all(out, en);
            push_str(out, "<'a>,\n");
        },
        Part::CtlInit => {
            push_str(out, "                ");
            push_all(out, name.as_slice());
            push_str(out, ": ");
            push_all(out, en);
            push_str(out, "::");
            push_all(out, vn.as_slice());
            match f.size {
                Some(_) => {
                    push_str(out, "(&mut ");
                    push_all(out, store);
                    push_str(out, ".");
                    push_all(out, name.as_slice());
                    push_str(out, "),\n");
                },
                None => {
                    push_str(out, "(std::slice::from_mut(&mut ");
                    push_all(out, store);
                    push_str(out, ".");
                    push_all(out, name.as_slice());
                    push_str(out, ")),\n");
                },
            }
        },
    }
    assert(out@ =~= old(out)@ + part_line(k, en@, store@, f@));
}

fn push_parts(out: &mut Vec<char>, k: Part, en: &[char], store: &[char], l: &List)
    ensures
        final(out)@ == old(out)@ + part_lines(k, en@, store@, l@),
{
    let v = &l.0;
    let mut i: usize = 0;
    while i < v.len()
        invariant
            0 <= i <= v@.len(),
            out@ == old(out)@ + part_lines(k, en@, store@, l@.subrange(0, i as int)),
            l@ == v@.map_values(|f: IO| f@),
        decreases v@.len() - i,
    {
        push_part(out, k, en, store, &v[i]);
        i = i + 1;
        assert(l@.subrange(0, i as int).drop_last() =~= l@.subrange(0, i - 1));
        assert(out@ =~= old(out)@ + part_lines(k, en@, store@, l@.subrange(0, i as int)));
    }
    assert(l@.subrange(0, v@.len() as int) =~= l@);
}

fn push_view_enum(out: &mut Vec<char>, en: &[char], l: &List)
    ensures
        final(out)@ == old(out)@ + view_enum(en@, l@),
{
    let none: Vec<char> = Vec::new();
    assert(none@ =~= seq![]);
    push_str(out, "pub enum ");
    push_all(out, en);
    push_str(out, "<'a> {\n");
    push_parts(out, Part::Variant, en, none.as_slice(), l);
    push_str(out, "}\nimpl<'a> std::ops::Index<usize> for ");
    push_all(out, en);
    push_str(out, "<'a> {\n    type Output = f64;\n    fn index(&self, index: usize) -> &f64 {\n        match self {\n");
    push_parts(out, Part::IndexArm, en, none.as_slice(), l);
    push_str(out, "        }\n    }\n}\nimpl<'a> std::ops::IndexMut<usize> for ");
    push_all(out, en);
    push_str(out, "<'a> {\n    fn index_mut(&mut self, index: usize) -> &mut f64 {\n        match self {\n");
    push_parts(out, Part::IndexMutArm, en, none.as_slice(), l);
    push_str(out, "        }\n    }\n}\n");
    assert(out@ =~= old(out)@ + view_enum(en@, l@));
}

/// `m` followed by the characters of `suffix`.
fn suffixed(m: &[char], suffix: &str) -> (r: Vec<char>)
    ensures
        r@ == m@ + suffix@,
{
    let mut r: Vec<char> = Vec::new();
    push_all(&mut r, m);
    push_str(&mut r, suffix);
    assert(r@ =~= m@ + suffix@);
    r
}

fn push_ctl_decl(out: &mut Vec<char>, m: &[char], h: &Header)
    ensures
        final(out)@ == old(out)@ + ctl_decl(m@, h@),
{
    let u = suffixed(m, "Inputs");
    let y = suffixed(m, "Outputs");
    let su = suffixed(m, "_U");
    let sy = suffixed(m, "_Y");
    push_str(out, "/// Controller over the global storage of the model\npub struct ");
    push_all(out, m);
    push_str(out, "Controller<'a> {\n");
    push_parts(out, Part::CtlField, u.as_slice(), su.as_slice(), &h.inputs);
    push_parts(out, Part::CtlField, y.as_slice(), sy.as_slice(), &h.outputs);
    push_str(out, "}\nstatic ");
    push_all(out, m);
    push_str(
        out,
        "_LIVE: std::sync::atomic::AtomicBool = std::sync::atomic::AtomicBool::new(false);\nextern \"C\" {\n    static mut ",
    );
    push_all(out, m);
    push_str(out, "_U");
    push_str(out, ": ExtU_");
    push_all(out, m);
    push_str(out, "_T;\n    static mut ");
    push_all(out, m);
    push_str(out, "_Y");
    push_str(out, ": ExtY_");
    push_all(out, m);
    push_str(out, "_T;\n}\n");
    assert(out@ =~= old(out)@ + ctl_decl(m@, h@));
}

fn push_ctl_new(out: &mut Vec<char>, m: &[char], h: &Header)
    ensures
        final(out)@ == old(out)@ + ctl_new(m@, h@),
{
    let u = suffixed(m, "Inputs");
    let y = suffixed(m, "Outputs");
    let su = suffixed(m, "_U");
    let sy = suffixed(m, "_Y");
    push_str(out, "impl<'a> ");
    push_all(out, m);
    push_str(
        out,
        "Controller<'a> {\n    /// Binds the views to the model's storage and initializes the model\n    pub fn new() -> Self {\n        if ",
    );
    push_all(out, m);
    push_str(
        out,
        "_LIVE.swap(true, std::sync::atomic::Ordering::SeqCst) {\n            panic!(\"a controller of this model is already live\");\n        }\n        let this = unsafe {\n            Self {\n",
    );
    push_parts(out, Part::CtlInit, u.as_slice(), su.as_slice(), &h.inputs);
    push_parts(out, Part::CtlInit, y.as_slice(), sy.as_slice(), &h.outputs);
    push_str(out, "            }\n        };\n        unsafe { ");
    push_all(out, m);
    push_str(out, "_initialize() };\n        this\n    }\n}\n");
    assert(out@ =~= old(out)@ + ctl_new(m@, h@));
}

fn push_ctl_life(out: &mut Vec<char>, m: &[char])
    ensures
        final(out)@ == old(out)@ + ctl_life(m@),
{
    push_str(out, "impl<'a> Drop for ");
    push_all(out, m);
    push_str(out, "Controller<'a> {\n    fn drop(&mut self) {\n        unsafe { ");
    push_all(out, m);
    push_str(out, "_terminate() };\n        ");
    push_all(out, m);
    push_str(out, "_LIVE.store(false, std::sync::atomic::Ordering::SeqCst);\n    }\n}\nimpl<'a> Iterator for ");
    push_all(out, m);
    push_str(out, "Controller<'a> {\n    type Item = ();\n    fn next(&mut self) -> Option<()> {\n        unsafe { ");
    push_all(out, m);
    push_str(out, "_step() };\n        Some(())\n    }\n}\n");
    assert(out@ =~= old(out)@ + ctl_life(m@));
}

/// Writes the indexed mode of model `model`: for the inputs and for the
/// outputs an enum with one variant per field, each over that field's
/// elements, indexable by element number; and a controller that binds one
/// view per field to the model's global storage, admits one live instance,
/// terminates the model when it goes, and steps the model once per item.
/// The controller holds the fields of both lists, so an input and an output
/// may not share a name.
pub fn generate_views(model: &str, h: &Header) -> (r: Result<String, ViewError>)
    ensures
        r is Ok <==> can_generate_views(model@, h@),
        r matches Ok(code) ==> code@ == indexed_code(model@, h@),
        r matches Err(e) ==> match e {
            ViewError::InvalidModelName(s) => s@ == model@ && !is_ident(model@),
            ViewError::Shared(_, _) => shared_holds(h@.inputs, h@.outputs, e),
            _ => view_error_holds(h@.inputs, Section::Inputs, e) || view_error_holds(
                h@.outputs,
                Section::Outputs,
                e,
            ),
        },
{
    let m = chars_of(model);
    if !is_ident_exec(m.as_slice()) {
        return Err(ViewError::InvalidModelName(model.to_owned()));
    }
    match check_views(&h.inputs, Section::Inputs) {
        Err(e) => return Err(e),
        Ok(()) => {},
    }
    match check_views(&h.outputs, Section::Outputs) {
        Err(e) => return Err(e),
        Ok(()) => {},
    }
    match check_apart(&h.inputs, &h.outputs) {
        Err(e) => return Err(e),
        Ok(()) => {},
    }
    let u = suffixed(m.as_slice(), "Inputs");
    let y = suffixed(m.as_slice(), "Outputs");
    let mut out: Vec<char> = Vec::new();
    push_view_enum(&mut out, u.as_slice(), &h.inputs);
    push_view_enum(&mut out, y.as_slice(), &h.outputs);
    push_ctl_decl(&mut out, m.as_slice(), h);
    push_ctl_new(&mut out, m.as_slice(), h);
    push_ctl_life(&mut out, m.as_slice());
    assert(out@ =~= indexed_code(model@, h@));
    Ok(string_of(out.as_slice()))
}

} // verus!
