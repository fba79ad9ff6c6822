use vstd::prelude::*;
use crate::oml_object::{
    ArrayKind, ObjectType, OmlObject, SpecOmlObject, SpecVariable, Variable, VariableModifier,
    VariableVisibility, objects_view, vars_view,
};
use crate::generate::{BackwardsGenerate, GenerateError};
use crate::generators::kotlin::KotlinGenerator;
use crate::chars::{
    after_prefix, copy_chars, lemma_longer_than_prefix, ends_with, ends_with_char, ends_with_str, find_any, find_char,
    first_index, first_index_in, lines, lines_view, skip_chars, split_lines, starts_with,
    starts_with_char, starts_with_str, strip_prefix_str, take_chars, trim, trim_chars, trim_end_in,
    trim_end_matching, contains_char,
};
use crate::reading::{
    line_variant, new_var, opt_seq, opt_var_view, push_line_variant, read_object, read_var,
};
use crate::text::{chars_eq_str, chars_of, string_of};

verus! {

// ---------------------------------------------------------------- types

/// The OML name of a Kotlin type; other names are kept as they are.
pub open spec fn oml_of_kotlin_type(t: Seq<char>) -> Seq<char> {
    if t == "Int"@ { "int32"@ }
    else if t == "Long"@ { "int64"@ }
    else if t == "UInt"@ { "uint32"@ }
    else if t == "ULong"@ { "uint64"@ }
    else if t == "Float"@ { "float"@ }
    else if t == "Double"@ { "double"@ }
    else if t == "Boolean"@ { "bool"@ }
    else if t == "String"@ { "string"@ }
    else if t == "Char"@ { "char"@ }
    else { t }
}

/// Converts a Kotlin type name to its OML name.
pub fn reverse_kotlin_type(kt_type: &Vec<char>) -> (r: String)
    ensures
        r@ == oml_of_kotlin_type(kt_type@),
{
    if chars_eq_str(kt_type, "Int") { String::from_str("int32") }
    else if chars_eq_str(kt_type, "Long") { String::from_str("int64") }
    else if chars_eq_str(kt_type, "UInt") { String::from_str("uint32") }
    else if chars_eq_str(kt_type, "ULong") { String::from_str("uint64") }
    else if chars_eq_str(kt_type, "Float") { String::from_str("float") }
    else if chars_eq_str(kt_type, "Double") { String::from_str("double") }
    else if chars_eq_str(kt_type, "Boolean") { String::from_str("bool") }
    else if chars_eq_str(kt_type, "String") { String::from_str("string") }
    else if chars_eq_str(kt_type, "Char") { String::from_str("char") }
    else { string_of(kt_type) }
}

/// A Kotlin type written with a trailing `?` or `? = null`, without it.
pub open spec fn kotlin_non_null(t: Seq<char>) -> Seq<char> {
    if ends_with(t, "? = null"@) {
        t.take(t.len() - "? = null"@.len())
    } else if t.len() > 0 && t.last() == '?' {
        t.drop_last()
    } else {
        t
    }
}

/// The OML type, array kind and optionality of a Kotlin type annotation:
/// a trailing `?` (with or without `= null`) makes it optional, `Array<T>` is
/// a static array of `T` (its size is not written, so it reads as 0),
/// `MutableList<T>` a dynamic one.
pub open spec fn kotlin_type_annotation(s: Seq<char>) -> (Seq<char>, ArrayKind, bool) {
    let t = trim(s);
    let optional = ends_with(t, "? = null"@) || (t.len() > 0 && t.last() == '?');
    let base = kotlin_non_null(t);
    if starts_with(base, "Array<"@) && base.len() > 0 && base.last() == '>' {
        (oml_of_kotlin_type(after_prefix(base, "Array<"@).drop_last()), ArrayKind::Static(0), optional)
    } else if starts_with(base, "MutableList<"@) && base.len() > 0 && base.last() == '>' {
        (oml_of_kotlin_type(after_prefix(base, "MutableList<"@).drop_last()), ArrayKind::Dynamic, optional)
    } else {
        (oml_of_kotlin_type(base), ArrayKind::Scalar, optional)
    }
}

fn drop_last_chars(s: &Vec<char>) -> (r: Vec<char>)
    requires
        s.len() > 0,
    ensures
        r@ == s@.drop_last(),
{
    take_chars(s, s.len() - 1)
}

/// Reads a Kotlin type annotation.
pub fn parse_kotlin_type_annotation(type_str: &Vec<char>) -> (r: (String, ArrayKind, bool))
    ensures
        (r.0@, r.1, r.2) == kotlin_type_annotation(type_str@),
{
    let t = trim_chars(type_str);
    let marker = chars_of("? = null");
    let long_form = ends_with_str(&t, "? = null");
    let short_form = ends_with_char(&t, '?');
    let base = if long_form {
        take_chars(&t, t.len() - marker.len())
    } else if short_form {
        drop_last_chars(&t)
    } else {
        copy_chars(&t)
    };
    let is_optional = long_form || short_form;
    assert(base@ == kotlin_non_null(t@));
    if ends_with_char(&base, '>') {
        match strip_prefix_str(&base, "Array<") {
            Some(after) => {
                proof {
                    reveal_strlit("Array<");
                    lemma_longer_than_prefix(base@, "Array<"@);
                }
                let inner = drop_last_chars(&after);
                return (reverse_kotlin_type(&inner), ArrayKind::Static(0), is_optional);
            },
            Option::None => {},
        }
        match strip_prefix_str(&base, "MutableList<") {
            Some(after) => {
                proof {
                    reveal_strlit("MutableList<");
                    lemma_longer_than_prefix(base@, "MutableList<"@);
                }
                let inner = drop_last_chars(&after);
                return (reverse_kotlin_type(&inner), ArrayKind::Dynamic, is_optional);
            },
            Option::None => {},
        }
    }
    (reverse_kotlin_type(&base), ArrayKind::Scalar, is_optional)
}

/// The name and the type annotation of `name: Type`: the text before the
/// first colon and the text after it, trimmed.
pub open spec fn kotlin_name_and_type(rest: Seq<char>) -> Option<(Seq<char>, Seq<char>)> {
    match first_index(rest, ':') {
        Some(c) => Some((trim(rest.take(c)), trim(rest.skip(c + 1)))),
        Option::None => Option::None,
    }
}

fn name_and_type(rest: &Vec<char>) -> (r: Option<(Vec<char>, Vec<char>)>)
    ensures
        r is Some <==> kotlin_name_and_type(rest@) is Some,
        r matches Some(p) ==> kotlin_name_and_type(rest@) == Some((p.0@, p.1@)),
{
    match find_char(rest, ':') {
        Some(c) => {
            assert(c < rest.len());
            let name_raw = take_chars(rest, c);
            let type_raw = skip_chars(rest, c + 1);
            Some((trim_chars(&name_raw), trim_chars(&type_raw)))
        },
        Option::None => Option::None,
    }
}

/// A property with the given modifiers and visibility, from the text after
/// `val `/`var `: `name: Type`.
pub open spec fn kotlin_property(mods: Seq<VariableModifier>, vis: VariableVisibility, rest: Seq<char>) -> Option<SpecVariable> {
    match kotlin_name_and_type(rest) {
        Some(nt) => {
            let ty = kotlin_type_annotation(nt.1);
            let all = if ty.2 { mods.push(VariableModifier::OPTIONAL) } else { mods };
            Some(read_var(all, vis, ty.0, ty.1, nt.0))
        },
        Option::None => Option::None,
    }
}

fn property(mods: Vec<VariableModifier>, vis: VariableVisibility, rest: &Vec<char>) -> (r: Option<Variable>)
    ensures
        opt_var_view(r) == kotlin_property(mods@, vis, rest@),
{
    match name_and_type(rest) {
        Some(nt) => {
            let (var_type, array_kind, is_optional) = parse_kotlin_type_annotation(&nt.1);
            let mut mods = mods;
            if is_optional {
                mods.push(VariableModifier::OPTIONAL);
            }
            Some(new_var(mods, vis, var_type, array_kind, &nt.0))
        },
        Option::None => Option::None,
    }
}

/// The property declared by a line of a primary constructor:
/// `[private |protected ](val|var) name: Type`, with its trailing commas.
/// `val` makes it `CONST`; without a visibility word it is public.
pub open spec fn kotlin_param(line: Seq<char>) -> Option<SpecVariable> {
    let l = trim_end_in(trim(line), ","@);
    let vis = if starts_with(l, "private "@) {
        VariableVisibility::PRIVATE
    } else if starts_with(l, "protected "@) {
        VariableVisibility::PROTECTED
    } else {
        VariableVisibility::PUBLIC
    };
    let r1 = if starts_with(l, "private "@) {
        after_prefix(l, "private "@)
    } else if starts_with(l, "protected "@) {
        after_prefix(l, "protected "@)
    } else {
        l
    };
    if l.len() == 0 {
        Option::None
    } else if starts_with(r1, "val "@) {
        kotlin_property(seq![VariableModifier::CONST], vis, after_prefix(r1, "val "@))
    } else if starts_with(r1, "var "@) {
        kotlin_property(Seq::empty(), vis, after_prefix(r1, "var "@))
    } else {
        Option::None
    }
}

/// Reads the property declared by a line of a primary constructor.
pub fn parse_kotlin_param(line: &Vec<char>) -> (r: Option<Variable>)
    ensures
        opt_var_view(r) == kotlin_param(line@),
{
    let t = trim_chars(line);
    let l = trim_end_matching(&t, ",");
    if l.len() == 0 {
        return Option::None;
    }
    let (visibility, rest) = match strip_prefix_str(&l, "private ") {
        Some(x) => (VariableVisibility::PRIVATE, x),
        Option::None => match strip_prefix_str(&l, "protected ") {
            Some(x) => (VariableVisibility::PROTECTED, x),
            Option::None => (VariableVisibility::PUBLIC, copy_chars(&l)),
        },
    };
    match strip_prefix_str(&rest, "val ") {
        Some(x) => {
            let mut var_mod: Vec<VariableModifier> = Vec::new();
            var_mod.push(VariableModifier::CONST);
            assert(var_mod@ =~= seq![VariableModifier::CONST]);
            return property(var_mod, visibility, &x);
        },
        Option::None => {},
    }
    match strip_prefix_str(&rest, "var ") {
        Some(x) => {
            let var_mod: Vec<VariableModifier> = Vec::new();
            assert(var_mod@ =~= Seq::<VariableModifier>::empty());
            property(var_mod, visibility, &x)
        },
        Option::None => Option::None,
    }
}

/// The property declared by a line of a companion object: `(val|var) name:
/// Type`. It is `STATIC` and private; `val` makes it `CONST` too.
pub open spec fn kotlin_companion_var(line: Seq<char>) -> Option<SpecVariable> {
    let l = trim(line);
    if l.len() == 0 {
        Option::None
    } else if starts_with(l, "val "@) {
        kotlin_property(seq![VariableModifier::STATIC, VariableModifier::CONST], VariableVisibility::PRIVATE, after_prefix(l, "val "@))
    } else if starts_with(l, "var "@) {
        kotlin_property(seq![VariableModifier::STATIC], VariableVisibility::PRIVATE, after_prefix(l, "var "@))
    } else {
        Option::None
    }
}

/// Reads the property declared by a line of a companion object.
pub fn parse_kotlin_companion_var(line: &Vec<char>) -> (r: Option<Variable>)
    ensures
        opt_var_view(r) == kotlin_companion_var(line@),
{
    let l = trim_chars(line);
    if l.len() == 0 {
        return Option::None;
    }
    let mut var_mod: Vec<VariableModifier> = Vec::new();
    var_mod.push(VariableModifier::STATIC);
    match strip_prefix_str(&l, "val ") {
        Some(x) => {
            var_mod.push(VariableModifier::CONST);
            assert(var_mod@ =~= seq![VariableModifier::STATIC, VariableModifier::CONST]);
            return property(var_mod, VariableVisibility::PRIVATE, &x);
        },
        Option::None => {},
    }
    match strip_prefix_str(&l, "var ") {
        Some(x) => {
            assert(var_mod@ =~= seq![VariableModifier::STATIC]);
            property(var_mod, VariableVisibility::PRIVATE, &x)
        },
        Option::None => Option::None,
    }
}

// ---------------------------------------------------------------- files

/// Where a reader of a Kotlin file stands between two lines.
pub enum KotlinReading {
    /// Outside any definition.
    Outside,
    /// In the body of `enum class name`, with the variants read so far.
    InEnum { name: Seq<char>, vars: Seq<SpecVariable> },
    /// In the primary constructor of class `name`, with the properties read so far.
    InParams { name: Seq<char>, vars: Seq<SpecVariable> },
    /// In the body of class `name`, inside its companion object or not.
    InBody { name: Seq<char>, vars: Seq<SpecVariable>, in_companion: bool },
}

/// The class or enum that the reader is in, if any, with what it has read of it.
pub open spec fn kotlin_open_object(st: KotlinReading) -> Seq<SpecOmlObject> {
    match st {
        KotlinReading::Outside => Seq::empty(),
        KotlinReading::InEnum { name, vars } => seq![read_object(ObjectType::ENUM, name, vars)],
        KotlinReading::InParams { name, vars } => seq![read_object(ObjectType::CLASS, name, vars)],
        KotlinReading::InBody { name, vars, in_companion } => seq![read_object(ObjectType::CLASS, name, vars)],
    }
}

/// The name of a class from the text after `class ` or `data class `: up to
/// the first `(`, `{` or space, trimmed.
pub open spec fn kotlin_class_name(after: Seq<char>) -> Seq<char> {
    match first_index_in(after, "({ "@) {
        Some(k) => trim(after.take(k)),
        Option::None => trim(after),
    }
}

/// Whether a trimmed line declares a class: it begins with `data class ` or
/// `class `.
pub open spec fn kotlin_class_decl(t: Seq<char>) -> bool {
    starts_with(t, "data class "@) || starts_with(t, "class "@)
}

/// The name of the class that a trimmed line declares.
pub open spec fn kotlin_decl_name(t: Seq<char>) -> Seq<char> {
    let prefix = if starts_with(t, "data class "@) { "data class "@ } else { "class "@ };
    kotlin_class_name(after_prefix(t, prefix))
}

/// Whether a trimmed line declares a whole class on its own: a class
/// declaration with neither a `(` nor a closing `{`, as in `data class Name`.
pub open spec fn kotlin_bare_class(t: Seq<char>) -> bool {
    kotlin_class_decl(t) && !t.contains('(') && !(t.len() > 0 && t.last() == '{')
}

/// What a trimmed line read outside any definition opens: `enum class Name {`
/// an enum; `class Name` or `data class Name` followed by a `(` somewhere on
/// the line a class with a primary constructor, or else, ending with `{`, a
/// class body. Either kind of class is read as `CLASS`.
pub open spec fn kotlin_header(t: Seq<char>) -> KotlinReading {
    if starts_with(t, "enum class "@) && t.len() > 0 && t.last() == '{' {
        KotlinReading::InEnum { name: trim_end_in(after_prefix(t, "enum class "@), "{ "@), vars: Seq::empty() }
    } else if kotlin_class_decl(t) && (t.contains('(') || (t.len() > 0 && t.last() == '{')) {
        let name = kotlin_decl_name(t);
        if t.contains('(') {
            KotlinReading::InParams { name, vars: Seq::empty() }
        } else {
            KotlinReading::InBody { name, vars: Seq::empty(), in_companion: false }
        }
    } else {
        KotlinReading::Outside
    }
}

/// The objects read from the lines `ls` from index `i` on, by a reader in
/// state `st`. A class declared on one line without a constructor or a body
/// is read as a class without variables. An enum body and a class body end
/// at a line `}` (inside a companion object that line closes the companion
/// object); a primary constructor ends at a line that starts with `)`, which
/// opens the class body where it ends with `{` and else ends the class.
pub open spec fn kotlin_read(ls: Seq<Seq<char>>, i: int, st: KotlinReading) -> Seq<SpecOmlObject>
    decreases ls.len() - i,
{
    if i >= ls.len() {
        kotlin_open_object(st)
    } else {
        let t = trim(ls[i]);
        match st {
            KotlinReading::Outside => {
                if kotlin_bare_class(t) {
                    seq![read_object(ObjectType::CLASS, kotlin_decl_name(t), Seq::empty())]
                        + kotlin_read(ls, i + 1, KotlinReading::Outside)
                } else {
                    kotlin_read(ls, i + 1, kotlin_header(t))
                }
            },
            KotlinReading::InEnum { name, vars } => {
                if t == "}"@ {
                    kotlin_open_object(st) + kotlin_read(ls, i + 1, KotlinReading::Outside)
                } else {
                    kotlin_read(ls, i + 1, KotlinReading::InEnum { name, vars: vars + line_variant(t) })
                }
            },
            KotlinReading::InParams { name, vars } => {
                if t.len() > 0 && t[0] == ')' {
                    if t.last() == '{' {
                        kotlin_read(ls, i + 1, KotlinReading::InBody { name, vars, in_companion: false })
                    } else {
                        kotlin_open_object(st) + kotlin_read(ls, i + 1, KotlinReading::Outside)
                    }
                } else {
                    kotlin_read(ls, i + 1, KotlinReading::InParams { name, vars: vars + opt_seq(kotlin_param(t)) })
                }
            },
            KotlinReading::InBody { name, vars, in_companion } => {
                if t == "}"@ && !in_companion {
                    kotlin_open_object(st) + kotlin_read(ls, i + 1, KotlinReading::Outside)
                } else if t == "}"@ {
                    kotlin_read(ls, i + 1, KotlinReading::InBody { name, vars, in_companion: false })
                } else if starts_with(t, "companion object {"@) {
                    kotlin_read(ls, i + 1, KotlinReading::InBody { name, vars, in_companion: true })
                } else if in_companion {
                    kotlin_read(ls, i + 1, KotlinReading::InBody { name, vars: vars + opt_seq(kotlin_companion_var(t)), in_companion })
                } else {
                    kotlin_read(ls, i + 1, st)
                }
            },
        }
    }
}

/// The objects read back from a Kotlin file.
pub open spec fn kotlin_objects(content: Seq<char>) -> Seq<SpecOmlObject> {
    kotlin_read(lines(content), 0, KotlinReading::Outside)
}

/// Reads the body of an enum from line `i` on, and adds the enum to `objects`.
fn read_kotlin_enum(ls: &Vec<Vec<char>>, i: usize, name: Vec<char>, objects: &mut Vec<OmlObject>) -> (next: usize)
    requires
        i <= ls.len(),
    ensures
        i <= next <= ls.len(),
        objects_view(final(objects)@) + kotlin_read(lines_view(ls@), next as int, KotlinReading::Outside)
            == objects_view(old(objects)@) + kotlin_read(lines_view(ls@), i as int, KotlinReading::InEnum { name: name@, vars: Seq::empty() }),
{
    let ghost sl = lines_view(ls@);
    let ghost total = objects_view(objects@) + kotlin_read(sl, i as int, KotlinReading::InEnum { name: name@, vars: Seq::empty() });
    let mut vars: Vec<Variable> = Vec::new();
    assert(vars_view(vars@) =~= Seq::<SpecVariable>::empty());
    let mut j = i;
    while j < ls.len()
        invariant
            i <= j <= ls.len(),
            sl == lines_view(ls@),
            objects_view(objects@) + kotlin_read(sl, j as int, KotlinReading::InEnum { name: name@, vars: vars_view(vars@) }) == total,
        ensures
            i <= j <= ls.len(),
            objects_view(objects@) + kotlin_read(sl, j as int, KotlinReading::InEnum { name: name@, vars: vars_view(vars@) }) == total,
            j < ls.len() ==> trim(sl[j as int]) == "}"@,
        decreases ls.len() - j,
    {
        let line = trim_chars(&ls[j]);
        if chars_eq_str(&line, "}") {
            break;
        }
        push_line_variant(&mut vars, &line);
        j += 1;
    }
    let ghost vv = vars_view(vars@);
    let ghost before = objects_view(objects@);
    let ghost st = KotlinReading::InEnum { name: name@, vars: vv };
    assert(kotlin_read(sl, j as int, st) == kotlin_open_object(st) + kotlin_read(sl, j + 1, KotlinReading::Outside)
        || (j == ls.len() && kotlin_read(sl, j as int, st) == kotlin_open_object(st)));
    let obj = OmlObject { oml_type: ObjectType::ENUM, name: string_of(&name), variables: vars };
    objects.push(obj);
    assert(objects_view(objects@) =~= before + seq![read_object(ObjectType::ENUM, name@, vv)]);
    if j < ls.len() {
        j += 1;
    }
    j
}

/// Reads the primary constructor of a class from line `i` on, into `vars`;
/// returns the index of the line that ends it, or the number of lines.
fn read_kotlin_params(ls: &Vec<Vec<char>>, i: usize, name: &Vec<char>, vars: &mut Vec<Variable>) -> (next: usize)
    requires
        i <= ls.len(),
    ensures
        i <= next <= ls.len(),
        next < ls.len() ==> trim(lines_view(ls@)[next as int]).len() > 0 && trim(lines_view(ls@)[next as int])[0] == ')',
        next < ls.len() ==> kotlin_read(lines_view(ls@), i as int, KotlinReading::InParams { name: name@, vars: vars_view(old(vars)@) })
            == kotlin_read(lines_view(ls@), next as int, KotlinReading::InParams { name: name@, vars: vars_view(final(vars)@) }),
        next == ls.len() ==> kotlin_read(lines_view(ls@), i as int, KotlinReading::InParams { name: name@, vars: vars_view(old(vars)@) })
            == kotlin_open_object(KotlinReading::InParams { name: name@, vars: vars_view(final(vars)@) }),
{
    let ghost sl = lines_view(ls@);
    let ghost total = kotlin_read(sl, i as int, KotlinReading::InParams { name: name@, vars: vars_view(vars@) });
    let mut j = i;
    while j < ls.len()
        invariant
            i <= j <= ls.len(),
            sl == lines_view(ls@),
            kotlin_read(sl, j as int, KotlinReading::InParams { name: name@, vars: vars_view(vars@) }) == total,
        ensures
            i <= j <= ls.len(),
            kotlin_read(sl, j as int, KotlinReading::InParams { name: name@, vars: vars_view(vars@) }) == total,
            j < ls.len() ==> trim(sl[j as int]).len() > 0 && trim(sl[j as int])[0] == ')',
        decreases ls.len() - j,
    {
        let line = trim_chars(&ls[j]);
        if starts_with_char(&line, ')') {
            break;
        }
        let ghost before = vars_view(vars@);
        match parse_kotlin_param(&line) {
            Some(var) => {
                vars.push(var);
            },
            Option::None => {},
        }
        assert(vars_view(vars@) =~= before + opt_seq(kotlin_param(line@)));
        j += 1;
    }
    j
}

/// Reads the body of a class from line `i` on, into `vars`; returns the index
/// of the line that ends it, or the number of lines.
fn read_kotlin_body(ls: &Vec<Vec<char>>, i: usize, name: &Vec<char>, vars: &mut Vec<Variable>) -> (next: usize)
    requires
        i <= ls.len(),
    ensures
        i <= next <= ls.len(),
        next < ls.len() ==> kotlin_read(lines_view(ls@), i as int, KotlinReading::InBody { name: name@, vars: vars_view(old(vars)@), in_companion: false })
            == kotlin_open_object(KotlinReading::InBody { name: name@, vars: vars_view(final(vars)@), in_companion: false })
                + kotlin_read(lines_view(ls@), next + 1, KotlinReading::Outside),
        next == ls.len() ==> kotlin_read(lines_view(ls@), i as int, KotlinReading::InBody { name: name@, vars: vars_view(old(vars)@), in_companion: false })
            == kotlin_open_object(KotlinReading::InBody { name: name@, vars: vars_view(final(vars)@), in_companion: false }),
{
    let ghost sl = lines_view(ls@);
    let ghost total = kotlin_read(sl, i as int, KotlinReading::InBody { name: name@, vars: vars_view(vars@), in_companion: false });
    let mut in_companion = false;
    let mut j = i;
    while j < ls.len()
        invariant
            i <= j <= ls.len(),
            sl == lines_view(ls@),
            kotlin_read(sl, j as int, KotlinReading::InBody { name: name@, vars: vars_view(vars@), in_companion }) == total,
        ensures
            i <= j <= ls.len(),
            kotlin_read(sl, j as int, KotlinReading::InBody { name: name@, vars: vars_view(vars@), in_companion }) == total,
            j < ls.len() ==> trim(sl[j as int]) == "}"@ && !in_companion,
        decreases ls.len() - j,
    {
        let line = trim_chars(&ls[j]);
        let is_close = chars_eq_str(&line, "}");
        if is_close && !in_companion {
            break;
        }
        let ghost before = vars_view(vars@);
        if is_close {
            in_companion = false;
        } else if starts_with_str(&line, "companion object {") {
            in_companion = true;
        } else if in_companion {
            match parse_kotlin_companion_var(&line) {
                Some(var) => {
                    vars.push(var);
                },
                Option::None => {},
            }
            assert(vars_view(vars@) =~= before + opt_seq(kotlin_companion_var(line@)));
        }
        j += 1;
    }
    let ghost st = KotlinReading::InBody { name: name@, vars: vars_view(vars@), in_companion };
    assert(kotlin_read(sl, j as int, st) == kotlin_open_object(st) + kotlin_read(sl, j + 1, KotlinReading::Outside)
        || (j == ls.len() && kotlin_read(sl, j as int, st) == kotlin_open_object(st)));
    j
}

/// Reads a class from line `i` on (its primary constructor first where
/// `has_params`), and adds it to `objects`.
fn read_kotlin_class(ls: &Vec<Vec<char>>, i: usize, name: Vec<char>, has_params: bool, objects: &mut Vec<OmlObject>) -> (next: usize)
    requires
        i <= ls.len(),
    ensures
        i <= next <= ls.len(),
        objects_view(final(objects)@) + kotlin_read(lines_view(ls@), next as int, KotlinReading::Outside)
            == objects_view(old(objects)@) + kotlin_read(lines_view(ls@), i as int,
                if has_params { KotlinReading::InParams { name: name@, vars: Seq::empty() } }
                else { KotlinReading::InBody { name: name@, vars: Seq::empty(), in_companion: false } }),
{
    let ghost sl = lines_view(ls@);
    let mut vars: Vec<Variable> = Vec::new();
    assert(vars_view(vars@) =~= Seq::<SpecVariable>::empty());
    let mut j = i;
    let mut in_body = !has_params;
    if has_params {
        j = read_kotlin_params(ls, i, &name, &mut vars);
        if j < ls.len() {
            let line = trim_chars(&ls[j]);
            assert(line@ == trim(sl[j as int]));
            in_body = ends_with_char(&line, '{');
            j += 1;
        }
    }
    if in_body {
        j = read_kotlin_body(ls, j, &name, &mut vars);
        if j < ls.len() {
            j += 1;
        }
    }
    let ghost vv = vars_view(vars@);
    let ghost before = objects_view(objects@);
    let obj = OmlObject { oml_type: ObjectType::CLASS, name: string_of(&name), variables: vars };
    objects.push(obj);
    assert(objects_view(objects@) =~= before + seq![read_object(ObjectType::CLASS, name@, vv)]);
    j
}

impl BackwardsGenerate for KotlinGenerator {
    open spec fn spec_reverse(&self, content: Seq<char>) -> Seq<SpecOmlObject> {
        kotlin_objects(content)
    }

    fn reverse(&self, content: &str) -> (r: Result<Vec<OmlObject>, GenerateError>) {
        let text = chars_of(content);
        let ls = split_lines(&text);
        let ghost sl = lines_view(ls@);
        let ghost total = kotlin_objects(content@);
        let mut objects: Vec<OmlObject> = Vec::new();
        let mut i: usize = 0;
        while i < ls.len()
            invariant
                i <= ls.len(),
                sl == lines_view(ls@),
                sl == lines(content@),
                total == kotlin_objects(content@),
                objects_view(objects@) + kotlin_read(sl, i as int, KotlinReading::Outside) == total,
            decreases ls.len() - i,
        {
            let trimmed = trim_chars(&ls[i]);
            assert(trimmed@ == trim(sl[i as int]));
            let ends_brace = ends_with_char(&trimmed, '{');
            let has_paren = contains_char(&trimmed, '(');
            let enum_rest = strip_prefix_str(&trimmed, "enum class ");
            let data_rest = strip_prefix_str(&trimmed, "data class ");
            let class_rest = strip_prefix_str(&trimmed, "class ");
            if enum_rest.is_some() && ends_brace {
                let after = enum_rest.unwrap();
                let name = trim_end_matching(&after, "{ ");
                i = read_kotlin_enum(&ls, i + 1, name, &mut objects);
            } else if data_rest.is_some() || class_rest.is_some() {
                let after = if data_rest.is_some() { data_rest.unwrap() } else { class_rest.unwrap() };
                let name_end = match find_any(&after, "({ ") {
                    Some(k) => k,
                    Option::None => after.len(),
                };
                let name_raw = take_chars(&after, name_end);
                let name = trim_chars(&name_raw);
                assert(name@ == kotlin_class_name(after@)) by {
                    if first_index_in(after@, "({ "@) is None {
                        assert(after@.take(after@.len() as int) =~= after@);
                    }
                }
                assert(name@ == kotlin_decl_name(trimmed@));
                if has_paren || ends_brace {
                    i = read_kotlin_class(&ls, i + 1, name, has_paren, &mut objects);
                } else {
                    let ghost before = objects_view(objects@);
                    let no_vars: Vec<Variable> = Vec::new();
                    assert(vars_view(no_vars@) =~= Seq::<SpecVariable>::empty());
                    let obj = OmlObject { oml_type: ObjectType::CLASS, name: string_of(&name), variables: no_vars };
                    assert(obj@ == read_object(ObjectType::CLASS, kotlin_decl_name(trimmed@), Seq::empty()));
                    objects.push(obj);
                    assert(objects_view(objects@) =~= before
                        + seq![read_object(ObjectType::CLASS, kotlin_decl_name(trimmed@), Seq::empty())]);
                    i += 1;
                }
            } else {
                assert(kotlin_header(trimmed@) == KotlinReading::Outside);
                i += 1;
            }
        }
        Ok(objects)
    }
}

} // verus!
