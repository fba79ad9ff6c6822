use vstd::prelude::*;
use crate::oml_object::{
    ArrayKind, ObjectType, OmlObject, SpecOmlObject, SpecVariable, Variable, VariableModifier,
    VariableVisibility, objects_view, vars_view,
};
use crate::generate::{BackwardsGenerate, GenerateError};
use crate::generators::rust::RustGenerator;
use crate::chars::{
    after_prefix, append_chars, copy_chars, ends_with_char, find_char, first_index,
    lemma_longer_than_prefix, lemma_trim_len, lines, lines_view, parse_u32, parse_u32_chars,
    skip_chars, split_lines, starts_with, starts_with_chars, starts_with_char, starts_with_str,
    strip_prefix_str, take_chars, trim, trim_chars, trim_end_in, trim_end_matching,
};
use crate::reading::{
    line_variant, new_var, opt_seq, opt_var_view, push_line_variant, read_object, read_var,
};
use crate::text::{chars_eq_str, chars_of, str_lower, string_of, to_lowercase};

verus! {

// ---------------------------------------------------------------- types

/// The OML name of a Rust type; other names are kept as they are.
pub open spec fn oml_of_rust_type(t: Seq<char>) -> Seq<char> {
    if t == "i8"@ { "int8"@ }
    else if t == "i16"@ { "int16"@ }
    else if t == "i32"@ { "int32"@ }
    else if t == "i64"@ { "int64"@ }
    else if t == "u8"@ { "uint8"@ }
    else if t == "u16"@ { "uint16"@ }
    else if t == "u32"@ { "uint32"@ }
    else if t == "u64"@ { "uint64"@ }
    else if t == "f32"@ { "float"@ }
    else if t == "f64"@ { "double"@ }
    else if t == "bool"@ { "bool"@ }
    else if t == "String"@ { "string"@ }
    else if t == "char"@ { "char"@ }
    else { t }
}

/// Converts a Rust type name to its OML name.
pub fn reverse_rust_type(rs_type: &Vec<char>) -> (r: String)
    ensures
        r@ == oml_of_rust_type(rs_type@),
{
    if chars_eq_str(rs_type, "i8") { String::from_str("int8") }
    else if chars_eq_str(rs_type, "i16") { String::from_str("int16") }
    else if chars_eq_str(rs_type, "i32") { String::from_str("int32") }
    else if chars_eq_str(rs_type, "i64") { String::from_str("int64") }
    else if chars_eq_str(rs_type, "u8") { String::from_str("uint8") }
    else if chars_eq_str(rs_type, "u16") { String::from_str("uint16") }
    else if chars_eq_str(rs_type, "u32") { String::from_str("uint32") }
    else if chars_eq_str(rs_type, "u64") { String::from_str("uint64") }
    else if chars_eq_str(rs_type, "f32") { String::from_str("float") }
    else if chars_eq_str(rs_type, "f64") { String::from_str("double") }
    else if chars_eq_str(rs_type, "bool") { String::from_str("bool") }
    else if chars_eq_str(rs_type, "String") { String::from_str("string") }
    else if chars_eq_str(rs_type, "char") { String::from_str("char") }
    else { string_of(rs_type) }
}

/// The element type and size written between the brackets of `[T; N]`: the
/// text before the first `;`, and the number after it.
pub open spec fn rust_array_parts(inner: Seq<char>) -> Option<(Seq<char>, u32)> {
    match first_index(inner, ';') {
        Some(c) => match parse_u32(trim(inner.skip(c + 1))) {
            Some(n) => Some((trim(inner.take(c)), n)),
            Option::None => Option::None,
        },
        Option::None => Option::None,
    }
}

fn array_parts(inner: &Vec<char>) -> (r: Option<(Vec<char>, u32)>)
    ensures
        r is Some <==> rust_array_parts(inner@) is Some,
        r matches Some(p) ==> rust_array_parts(inner@) == Some((p.0@, p.1)),
{
    match find_char(inner, ';') {
        Some(c) => {
            assert(c < inner.len());
            let size_raw = skip_chars(inner, c + 1);
            let size_str = trim_chars(&size_raw);
            match parse_u32_chars(&size_str) {
                Some(n) => {
                    let elem_raw = take_chars(inner, c);
                    Some((trim_chars(&elem_raw), n))
                },
                Option::None => Option::None,
            }
        },
        Option::None => Option::None,
    }
}

/// The OML type, array kind and optionality of a Rust type: `Option<T>`
/// makes `T` optional, `Vec<T>` is a dynamic array of `T`, `[T; N]` a static
/// one of `N`.
pub open spec fn rust_type_annotation(s: Seq<char>) -> (Seq<char>, ArrayKind, bool)
    decreases s.len(),
{
    let t = trim(s);
    if starts_with(t, "Option<"@) && t.len() > 0 && t.last() == '>' {
        proof {
            lemma_trim_len(s);
            reveal_strlit("Option<");
            lemma_longer_than_prefix(t, "Option<"@);
        }
        let inner = rust_type_annotation(after_prefix(t, "Option<"@).drop_last());
        (inner.0, inner.1, true)
    } else if starts_with(t, "Vec<"@) && t.len() > 0 && t.last() == '>' {
        (oml_of_rust_type(after_prefix(t, "Vec<"@).drop_last()), ArrayKind::Dynamic, false)
    } else if starts_with(t, "["@) && t.len() > 0 && t.last() == ']'
        && rust_array_parts(t.drop_first().drop_last()) is Some {
        let parts = rust_array_parts(t.drop_first().drop_last()).unwrap();
        (oml_of_rust_type(parts.0), ArrayKind::Static(parts.1), false)
    } else {
        (oml_of_rust_type(t), ArrayKind::Scalar, false)
    }
}

fn drop_last_chars(s: &Vec<char>) -> (r: Vec<char>)
    requires
        s.len() > 0,
    ensures
        r@ == s@.drop_last(),
{
    take_chars(s, s.len() - 1)
}

/// Reads a Rust type annotation.
pub fn parse_rust_type_annotation(type_str: &Vec<char>) -> (r: (String, ArrayKind, bool))
    ensures
        (r.0@, r.1, r.2) == rust_type_annotation(type_str@),
    decreases type_str@.len(),
{
    let t = trim_chars(type_str);
    if ends_with_char(&t, '>') {
        match strip_prefix_str(&t, "Option<") {
            Some(after) => {
                proof {
                    reveal_strlit("Option<");
                    lemma_longer_than_prefix(t@, "Option<"@);
                    lemma_trim_len(type_str@);
                }
                let inner = drop_last_chars(&after);
                let (var_type, array_kind, _) = parse_rust_type_annotation(&inner);
                return (var_type, array_kind, true);
            },
            Option::None => {},
        }
        match strip_prefix_str(&t, "Vec<") {
            Some(after) => {
                proof {
                    reveal_strlit("Vec<");
                    lemma_longer_than_prefix(t@, "Vec<"@);
                }
                let inner = drop_last_chars(&after);
                return (reverse_rust_type(&inner), ArrayKind::Dynamic, false);
            },
            Option::None => {},
        }
    }
    if starts_with_char(&t, '[') && ends_with_char(&t, ']') {
        proof {
            reveal_strlit("[");
            assert(starts_with(t@, "["@)) by {
                assert(t@.take(1) =~= "["@);
            }
        }
        if t.len() >= 2 {
            let a = skip_chars(&t, 1);
            assert(a@ == t@.drop_first());
            let inner = drop_last_chars(&a);
            match array_parts(&inner) {
                Some(parts) => {
                    return (reverse_rust_type(&parts.0), ArrayKind::Static(parts.1), false);
                },
                Option::None => {},
            }
        } else {
            assert(t@.last() == t@[0]);
        }
    } else {
        proof {
            reveal_strlit("[");
            if starts_with(t@, "["@) {
                assert(t@.take(1)[0] == '[');
            }
        }
    }
    (reverse_rust_type(&t), ArrayKind::Scalar, false)
}

// ---------------------------------------------------------------- members

/// The visibility that a field or constant declared with the given leading
/// words has, and the text after those words: `pub(crate)` is protected,
/// `pub` public, no word private.
pub open spec fn rust_visibility(l: Seq<char>) -> (VariableVisibility, Seq<char>) {
    if starts_with(l, "pub(crate) "@) {
        (VariableVisibility::PROTECTED, after_prefix(l, "pub(crate) "@))
    } else if starts_with(l, "pub "@) {
        (VariableVisibility::PUBLIC, after_prefix(l, "pub "@))
    } else {
        (VariableVisibility::PRIVATE, l)
    }
}

fn visibility_of(l: &Vec<char>) -> (r: (VariableVisibility, Vec<char>))
    ensures
        (r.0, r.1@) == rust_visibility(l@),
{
    match strip_prefix_str(l, "pub(crate) ") {
        Some(x) => (VariableVisibility::PROTECTED, x),
        Option::None => match strip_prefix_str(l, "pub ") {
            Some(x) => (VariableVisibility::PUBLIC, x),
            Option::None => (VariableVisibility::PRIVATE, copy_chars(l)),
        },
    }
}

/// The field declared by a line of a struct body: `[pub |pub(crate) ]name: Type`
/// with its trailing commas.
pub open spec fn rust_field(line: Seq<char>) -> Option<SpecVariable> {
    let l = trim_end_in(trim(line), ","@);
    let vis = rust_visibility(l).0;
    let rest = rust_visibility(l).1;
    if l.len() == 0 {
        Option::None
    } else {
        match first_index(rest, ':') {
            Some(c) => {
                let ty = rust_type_annotation(trim(rest.skip(c + 1)));
                let mods: Seq<VariableModifier> = if ty.2 { seq![VariableModifier::OPTIONAL] } else { Seq::empty() };
                Some(read_var(mods, vis, ty.0, ty.1, trim(rest.take(c))))
            },
            Option::None => Option::None,
        }
    }
}

/// Reads the field declared by a line of a struct body.
pub fn parse_rust_field(line: &Vec<char>) -> (r: Option<Variable>)
    ensures
        opt_var_view(r) == rust_field(line@),
{
    let t = trim_chars(line);
    let l = trim_end_matching(&t, ",");
    if l.len() == 0 {
        return Option::None;
    }
    let (visibility, rest) = visibility_of(&l);
    match find_char(&rest, ':') {
        Some(c) => {
            assert(c < rest.len());
            let name_raw = take_chars(&rest, c);
            let name = trim_chars(&name_raw);
            let type_raw = skip_chars(&rest, c + 1);
            let type_str = trim_chars(&type_raw);
            let (var_type, array_kind, is_optional) = parse_rust_type_annotation(&type_str);
            let mut var_mod: Vec<VariableModifier> = Vec::new();
            if is_optional {
                var_mod.push(VariableModifier::OPTIONAL);
            }
            assert(var_mod@ =~= (if is_optional { seq![VariableModifier::OPTIONAL] } else { Seq::<VariableModifier>::empty() }));
            Some(new_var(var_mod, visibility, var_type, array_kind, &name))
        },
        Option::None => Option::None,
    }
}

/// The constant declared by a line of an `impl` block: `[pub |pub(crate) ]const
/// NAME: Type = ...` (`STATIC` and `CONST`) or `... static mut NAME: Type =
/// ...` (`STATIC` and `MUT`). Its name is read in lowercase; comment lines
/// declare nothing.
pub open spec fn rust_associated_const(line: Seq<char>) -> Option<SpecVariable> {
    let l = trim(line);
    let vis = rust_visibility(l).0;
    let r1 = rust_visibility(l).1;
    let mods: Seq<VariableModifier> = if starts_with(r1, "const "@) {
        seq![VariableModifier::STATIC, VariableModifier::CONST]
    } else {
        seq![VariableModifier::STATIC, VariableModifier::MUT]
    };
    let r2 = if starts_with(r1, "const "@) { after_prefix(r1, "const "@) } else { after_prefix(r1, "static mut "@) };
    if starts_with(l, "//"@) || !(starts_with(r1, "const "@) || starts_with(r1, "static mut "@)) {
        Option::None
    } else {
        match first_index(r2, ':') {
            Some(c) => {
                let after_colon = trim(r2.skip(c + 1));
                match first_index(after_colon, '=') {
                    Some(e) => {
                        let ty = rust_type_annotation(trim(after_colon.take(e)));
                        let all = if ty.2 { mods.push(VariableModifier::OPTIONAL) } else { mods };
                        Some(read_var(all, vis, ty.0, ty.1, str_lower(trim(r2.take(c)))))
                    },
                    Option::None => Option::None,
                }
            },
            Option::None => Option::None,
        }
    }
}

/// Reads the constant declared by a line of an `impl` block.
pub fn parse_rust_associated_const(line: &Vec<char>) -> (r: Option<Variable>)
    ensures
        opt_var_view(r) == rust_associated_const(line@),
{
    let l = trim_chars(line);
    if starts_with_str(&l, "//") {
        return Option::None;
    }
    let (visibility, r1) = visibility_of(&l);
    let mut var_mod: Vec<VariableModifier> = Vec::new();
    let r2 = match strip_prefix_str(&r1, "const ") {
        Some(x) => {
            var_mod.push(VariableModifier::STATIC);
            var_mod.push(VariableModifier::CONST);
            x
        },
        Option::None => match strip_prefix_str(&r1, "static mut ") {
            Some(x) => {
                var_mod.push(VariableModifier::STATIC);
                var_mod.push(VariableModifier::MUT);
                x
            },
            Option::None => {
                return Option::None;
            },
        },
    };
    assert(var_mod@ =~= (if starts_with(r1@, "const "@) {
        seq![VariableModifier::STATIC, VariableModifier::CONST]
    } else {
        seq![VariableModifier::STATIC, VariableModifier::MUT]
    }));
    let colon_pos = match find_char(&r2, ':') {
        Some(c) => c,
        Option::None => {
            return Option::None;
        },
    };
    assert(colon_pos < r2.len());
    let name_raw = take_chars(&r2, colon_pos);
    let name_chars = trim_chars(&name_raw);
    let name_str = string_of(&name_chars);
    let name = to_lowercase(name_str.as_str());
    let after_raw = skip_chars(&r2, colon_pos + 1);
    let after_colon = trim_chars(&after_raw);
    let eq_pos = match find_char(&after_colon, '=') {
        Some(e) => e,
        Option::None => {
            return Option::None;
        },
    };
    let type_raw = take_chars(&after_colon, eq_pos);
    let type_str = trim_chars(&type_raw);
    let (var_type, array_kind, is_optional) = parse_rust_type_annotation(&type_str);
    if is_optional {
        var_mod.push(VariableModifier::OPTIONAL);
    }
    Some(Variable { var_mod, visibility, var_type, array_kind, name })
}

// ---------------------------------------------------------------- files

/// Where a reader of a Rust file stands between two lines.
pub enum RustReading {
    /// Outside any definition.
    Outside,
    /// In the body of `pub enum name`, with the variants read so far.
    InEnum { name: Seq<char>, vars: Seq<SpecVariable> },
    /// In the body of `pub struct name`, with the fields read so far.
    InStruct { name: Seq<char>, vars: Seq<SpecVariable> },
}

/// The object that the reader is in, if any, with what it has read of it.
pub open spec fn rust_open_object(st: RustReading) -> Seq<SpecOmlObject> {
    match st {
        RustReading::Outside => Seq::empty(),
        RustReading::InEnum { name, vars } => seq![read_object(ObjectType::ENUM, name, vars)],
        RustReading::InStruct { name, vars } => seq![read_object(ObjectType::STRUCT, name, vars)],
    }
}

/// What a trimmed line read outside any definition opens: `pub enum Name {`
/// an enum, `pub struct Name {` a struct.
pub open spec fn rust_header(t: Seq<char>) -> RustReading {
    if starts_with(t, "pub enum "@) && t.len() > 0 && t.last() == '{' {
        RustReading::InEnum { name: trim_end_in(after_prefix(t, "pub enum "@), "{ "@), vars: Seq::empty() }
    } else if starts_with(t, "pub struct "@) && t.len() > 0 && t.last() == '{' {
        RustReading::InStruct { name: trim_end_in(after_prefix(t, "pub struct "@), "{ "@), vars: Seq::empty() }
    } else {
        RustReading::Outside
    }
}

/// The first line of the `impl` block of the struct `name`.
pub open spec fn impl_line(name: Seq<char>) -> Seq<char> {
    "impl "@ + name + " {"@
}

/// The constants declared in an `impl` block whose body begins at line `j`:
/// up to its closing line `}`.
pub open spec fn rust_impl_body(ls: Seq<Seq<char>>, j: int) -> Seq<SpecVariable>
    decreases ls.len() - j,
{
    if j >= ls.len() || trim(ls[j]) == "}"@ {
        Seq::empty()
    } else {
        opt_seq(rust_associated_const(trim(ls[j]))) + rust_impl_body(ls, j + 1)
    }
}

/// The constants of the struct `name`: those of the first `impl` block for it
/// at or after line `j`.
pub open spec fn rust_impl_consts(ls: Seq<Seq<char>>, j: int, name: Seq<char>) -> Seq<SpecVariable>
    decreases ls.len() - j,
{
    if j >= ls.len() {
        Seq::empty()
    } else if starts_with(trim(ls[j]), impl_line(name)) {
        rust_impl_body(ls, j + 1)
    } else {
        rust_impl_consts(ls, j + 1, name)
    }
}

/// The objects read from the lines `ls` from index `i` on, by a reader in
/// state `st`. A body ends at a line `}`; a struct closed that way also takes
/// the constants of the first `impl` block for it that follows.
pub open spec fn rust_read(ls: Seq<Seq<char>>, i: int, st: RustReading) -> Seq<SpecOmlObject>
    decreases ls.len() - i,
{
    if i >= ls.len() {
        rust_open_object(st)
    } else {
        let t = trim(ls[i]);
        match st {
            RustReading::Outside => rust_read(ls, i + 1, rust_header(t)),
            RustReading::InEnum { name, vars } => {
                if t == "}"@ {
                    rust_open_object(st) + rust_read(ls, i + 1, RustReading::Outside)
                } else {
                    rust_read(ls, i + 1, RustReading::InEnum { name, vars: vars + line_variant(t) })
                }
            },
            RustReading::InStruct { name, vars } => {
                if t == "}"@ {
                    seq![read_object(ObjectType::STRUCT, name, vars + rust_impl_consts(ls, i + 1, name))]
                        + rust_read(ls, i + 1, RustReading::Outside)
                } else {
                    rust_read(ls, i + 1, RustReading::InStruct { name, vars: vars + opt_seq(rust_field(t)) })
                }
            },
        }
    }
}

/// The objects read back from a Rust file.
pub open spec fn rust_objects(content: Seq<char>) -> Seq<SpecOmlObject> {
    rust_read(lines(content), 0, RustReading::Outside)
}

/// Reads the body of an enum from line `i` on, and adds the enum to `objects`.
fn read_rust_enum(ls: &Vec<Vec<char>>, i: usize, name: Vec<char>, objects: &mut Vec<OmlObject>) -> (next: usize)
    requires
        i <= ls.len(),
    ensures
        i <= next <= ls.len(),
        objects_view(final(objects)@) + rust_read(lines_view(ls@), next as int, RustReading::Outside)
            == objects_view(old(objects)@) + rust_read(lines_view(ls@), i as int, RustReading::InEnum { name: name@, vars: Seq::empty() }),
{
    let ghost sl = lines_view(ls@);
    let ghost total = objects_view(objects@) + rust_read(sl, i as int, RustReading::InEnum { name: name@, vars: Seq::empty() });
    let mut vars: Vec<Variable> = Vec::new();
    assert(vars_view(vars@) =~= Seq::<SpecVariable>::empty());
    let mut j = i;
    while j < ls.len()
        invariant
            i <= j <= ls.len(),
            sl == lines_view(ls@),
            objects_view(objects@) + rust_read(sl, j as int, RustReading::InEnum { name: name@, vars: vars_view(vars@) }) == total,
        ensures
            i <= j <= ls.len(),
            objects_view(objects@) + rust_read(sl, j as int, RustReading::InEnum { name: name@, vars: vars_view(vars@) }) == total,
            j < ls.len() ==> trim(sl[j as int]) == "}"@,
        decreases ls.len() - j,
    {
        let line = trim_chars(&ls[j]);
        if chars_eq_str(&line, "}") {
            break;
        }
        push_line_variant(&mut vars, &line);
        j += 1;
    }
    let ghost vv = vars_view(vars@);
    let ghost before = objects_view(objects@);
    let ghost st = RustReading::InEnum { name: name@, vars: vv };
    assert(rust_read(sl, j as int, st) == rust_open_object(st) + rust_read(sl, j + 1, RustReading::Outside)
        || (j == ls.len() && rust_read(sl, j as int, st) == rust_open_object(st)));
    let obj = OmlObject { oml_type: ObjectType::ENUM, name: string_of(&name), variables: vars };
    objects.push(obj);
    assert(objects_view(objects@) =~= before + seq![read_object(ObjectType::ENUM, name@, vv)]);
    if j < ls.len() {
        j += 1;
    }
    j
}

/// Appends the constants of the `impl` block whose body begins at line `j`.
fn read_rust_impl_body(ls: &Vec<Vec<char>>, j: usize, vars: &mut Vec<Variable>)
    requires
        j <= ls.len(),
    ensures
        vars_view(final(vars)@) == vars_view(old(vars)@) + rust_impl_body(lines_view(ls@), j as int),
{
    let ghost sl = lines_view(ls@);
    let ghost total = vars_view(vars@) + rust_impl_body(sl, j as int);
    let mut k = j;
    while k < ls.len()
        invariant
            j <= k <= ls.len(),
            sl == lines_view(ls@),
            vars_view(vars@) + rust_impl_body(sl, k as int) == total,
        ensures
            vars_view(vars@) + rust_impl_body(sl, k as int) == total,
            k < ls.len() ==> trim(sl[k as int]) == "}"@,
        decreases ls.len() - k,
    {
        let impl_line = trim_chars(&ls[k]);
        if chars_eq_str(&impl_line, "}") {
            break;
        }
        let ghost before = vars_view(vars@);
        match parse_rust_associated_const(&impl_line) {
            Some(var) => {
                vars.push(var);
            },
            Option::None => {},
        }
        assert(vars_view(vars@) + rust_impl_body(sl, k + 1) =~= before + rust_impl_body(sl, k as int));
        k += 1;
    }
    assert(vars_view(vars@) =~= vars_view(vars@) + rust_impl_body(sl, k as int));
}

/// Appends the constants of the first `impl` block for `name` at or after
/// line `j`.
fn read_rust_impl_consts(ls: &Vec<Vec<char>>, j: usize, name: &Vec<char>, vars: &mut Vec<Variable>)
    requires
        j <= ls.len(),
    ensures
        vars_view(final(vars)@) == vars_view(old(vars)@) + rust_impl_consts(lines_view(ls@), j as int, name@),
{
    let ghost sl = lines_view(ls@);
    let mut impl_prefix = chars_of("impl ");
    append_chars(&mut impl_prefix, name);
    let tail = chars_of(" {");
    append_chars(&mut impl_prefix, &tail);
    assert(impl_prefix@ == impl_line(name@));
    let mut k = j;
    while k < ls.len()
        invariant
            j <= k <= ls.len(),
            sl == lines_view(ls@),
            impl_prefix@ == impl_line(name@),
            vars@ == old(vars)@,
            rust_impl_consts(sl, k as int, name@) == rust_impl_consts(sl, j as int, name@),
        decreases ls.len() - k,
    {
        let line = trim_chars(&ls[k]);
        if starts_with_chars(&line, &impl_prefix) {
            read_rust_impl_body(ls, k + 1, vars);
            return;
        }
        k += 1;
    }
    assert(vars_view(vars@) =~= vars_view(vars@) + rust_impl_consts(sl, k as int, name@));
}

/// Reads the body of a struct from line `i` on, with the constants of its
/// `impl` block, and adds the struct to `objects`.
fn read_rust_struct(ls: &Vec<Vec<char>>, i: usize, name: Vec<char>, objects: &mut Vec<OmlObject>) -> (next: usize)
    requires
        i <= ls.len(),
    ensures
        i <= next <= ls.len(),
        objects_view(final(objects)@) + rust_read(lines_view(ls@), next as int, RustReading::Outside)
            == objects_view(old(objects)@) + rust_read(lines_view(ls@), i as int, RustReading::InStruct { name: name@, vars: Seq::empty() }),
{
    let ghost sl = lines_view(ls@);
    let ghost total = objects_view(objects@) + rust_read(sl, i as int, RustReading::InStruct { name: name@, vars: Seq::empty() });
    let mut vars: Vec<Variable> = Vec::new();
    assert(vars_view(vars@) =~= Seq::<SpecVariable>::empty());
    let mut j = i;
    while j < ls.len()
        invariant
            i <= j <= ls.len(),
            sl == lines_view(ls@),
            objects_view(objects@) + rust_read(sl, j as int, RustReading::InStruct { name: name@, vars: vars_view(vars@) }) == total,
        ensures
            i <= j <= ls.len(),
            objects_view(objects@) + rust_read(sl, j as int, RustReading::InStruct { name: name@, vars: vars_view(vars@) }) == total,
            j < ls.len() ==> trim(sl[j as int]) == "}"@,
        decreases ls.len() - j,
    {
        let line = trim_chars(&ls[j]);
        if chars_eq_str(&line, "}") {
            break;
        }
        let ghost before = vars_view(vars@);
        match parse_rust_field(&line) {
            Some(var) => {
                vars.push(var);
            },
            Option::None => {},
        }
        assert(vars_view(vars@) =~= before + opt_seq(rust_field(line@)));
        j += 1;
    }
    let ghost fields = vars_view(vars@);
    if j < ls.len() {
        read_rust_impl_consts(ls, j + 1, &name, &mut vars);
    } else {
        assert(vars_view(vars@) =~= fields);
    }
    let ghost vv = vars_view(vars@);
    let ghost before = objects_view(objects@);
    let obj = OmlObject { oml_type: ObjectType::STRUCT, name: string_of(&name), variables: vars };
    objects.push(obj);
    assert(objects_view(objects@) =~= before + seq![read_object(ObjectType::STRUCT, name@, vv)]);
    if j < ls.len() {
        j += 1;
    }
    j
}

impl BackwardsGenerate for RustGenerator {
    open spec fn spec_reverse(&self, content: Seq<char>) -> Seq<SpecOmlObject> {
        rust_objects(content)
    }

    fn reverse(&self, content: &str) -> (r: Result<Vec<OmlObject>, GenerateError>) {
        let text = chars_of(content);
        let ls = split_lines(&text);
        let ghost sl = lines_view(ls@);
        let ghost total = rust_objects(content@);
        let mut objects: Vec<OmlObject> = Vec::new();
        let mut i: usize = 0;
        while i < ls.len()
            invariant
                i <= ls.len(),
                sl == lines_view(ls@),
                sl == lines(content@),
                total == rust_objects(content@),
                objects_view(objects@) + rust_read(sl, i as int, RustReading::Outside) == total,
            decreases ls.len() - i,
        {
            let trimmed = trim_chars(&ls[i]);
            assert(trimmed@ == trim(sl[i as int]));
            let ends_brace = ends_with_char(&trimmed, '{');
            let enum_rest = strip_prefix_str(&trimmed, "pub enum ");
            let struct_rest = strip_prefix_str(&trimmed, "pub struct ");
            if enum_rest.is_some() && ends_brace {
                let after = enum_rest.unwrap();
                let name = trim_end_matching(&after, "{ ");
                i = read_rust_enum(&ls, i + 1, name, &mut objects);
            } else if struct_rest.is_some() && ends_brace {
                let after = struct_rest.unwrap();
                let name = trim_end_matching(&after, "{ ");
                i = read_rust_struct(&ls, i + 1, name, &mut objects);
            } else {
                assert(rust_header(trimmed@) == RustReading::Outside);
                i += 1;
            }
        }
        Ok(objects)
    }
}

} // verus!
