use vstd::prelude::*;
use crate::oml_object::{
    ArrayKind, ObjectType, OmlObject, SpecOmlObject, SpecVariable, Variable, VariableModifier,
    VariableVisibility, objects_view, vars_view,
};
use crate::generate::{BackwardsGenerate, GenerateError};
use crate::generators::cpp::CppGenerator;
use crate::chars::{
    after_last, after_prefix, before_last, contains_char, copy_chars, find_char, first_index,
    join_prefix, last_index, lines, lines_view, parse_u32, parse_u32_chars, rfind_char,
    skip_chars, split_lines, split_words, starts_with, starts_with_str, strip_prefix_str,
    take_chars, trim, trim_chars, trim_end_in, trim_end_matching, words,
};
use crate::reading::{
    line_variant, new_var, opt_seq, opt_var_view, push_line_variant, read_object, read_var,
};
use crate::text::{chars_eq_str, chars_of, join, string_of};

verus! {

// ---------------------------------------------------------------- types

/// The OML name of a C++ type; other names are kept as they are.
pub open spec fn oml_of_cpp_type(t: Seq<char>) -> Seq<char> {
    if t == "int8_t"@ { "int8"@ }
    else if t == "int16_t"@ { "int16"@ }
    else if t == "int32_t"@ { "int32"@ }
    else if t == "int64_t"@ { "int64"@ }
    else if t == "uint8_t"@ { "uint8"@ }
    else if t == "uint16_t"@ { "uint16"@ }
    else if t == "uint32_t"@ { "uint32"@ }
    else if t == "uint64_t"@ { "uint64"@ }
    else if t == "float"@ { "float"@ }
    else if t == "double"@ { "double"@ }
    else if t == "bool"@ { "bool"@ }
    else if t == "std::string"@ { "string"@ }
    else if t == "char"@ { "char"@ }
    else { t }
}

/// Converts a C++ type name to its OML name.
pub fn reverse_cpp_type(cpp_type: &Vec<char>) -> (r: String)
    ensures
        r@ == oml_of_cpp_type(cpp_type@),
{
    if chars_eq_str(cpp_type, "int8_t") { String::from_str("int8") }
    else if chars_eq_str(cpp_type, "int16_t") { String::from_str("int16") }
    else if chars_eq_str(cpp_type, "int32_t") { String::from_str("int32") }
    else if chars_eq_str(cpp_type, "int64_t") { String::from_str("int64") }
    else if chars_eq_str(cpp_type, "uint8_t") { String::from_str("uint8") }
    else if chars_eq_str(cpp_type, "uint16_t") { String::from_str("uint16") }
    else if chars_eq_str(cpp_type, "uint32_t") { String::from_str("uint32") }
    else if chars_eq_str(cpp_type, "uint64_t") { String::from_str("uint64") }
    else if chars_eq_str(cpp_type, "float") { String::from_str("float") }
    else if chars_eq_str(cpp_type, "double") { String::from_str("double") }
    else if chars_eq_str(cpp_type, "bool") { String::from_str("bool") }
    else if chars_eq_str(cpp_type, "std::string") { String::from_str("string") }
    else if chars_eq_str(cpp_type, "char") { String::from_str("char") }
    else { string_of(cpp_type) }
}

/// The element type and the size written between the brackets of
/// `std::array<elem, size>`: the text before the first comma, and the number
/// after it.
pub open spec fn cpp_array_parts(inner: Seq<char>) -> Option<(Seq<char>, u32)> {
    match first_index(inner, ',') {
        Some(c) => match parse_u32(trim(inner.skip(c + 1))) {
            Some(n) => Some((trim(inner.take(c)), n)),
            Option::None => Option::None,
        },
        Option::None => Option::None,
    }
}

fn array_parts(inner: &Vec<char>) -> (r: Option<(Vec<char>, u32)>)
    ensures
        r is Some <==> cpp_array_parts(inner@) is Some,
        r matches Some(p) ==> cpp_array_parts(inner@) == Some((p.0@, p.1)),
{
    match find_char(inner, ',') {
        Some(c) => {
            assert(c < inner.len());
            let size_raw = skip_chars(inner, c + 1);
            let size_str = trim_chars(&size_raw);
            match parse_u32_chars(&size_str) {
                Some(n) => {
                    let elem_raw = take_chars(inner, c);
                    Some((trim_chars(&elem_raw), n))
                },
                Option::None => Option::None,
            }
        },
        Option::None => Option::None,
    }
}

/// The OML type and array kind of a C++ type: `std::vector<T>` is a
/// dynamic array of `T`, `std::array<T, N>` a static one of `N`, anything
/// else a scalar.
pub open spec fn cpp_inner_type(s: Seq<char>) -> (Seq<char>, ArrayKind) {
    let t = trim(s);
    if starts_with(t, "std::vector<"@) {
        (oml_of_cpp_type(trim(before_last(after_prefix(t, "std::vector<"@), '>'))), ArrayKind::Dynamic)
    } else if starts_with(t, "std::array<"@)
        && cpp_array_parts(before_last(after_prefix(t, "std::array<"@), '>')) is Some {
        let parts = cpp_array_parts(before_last(after_prefix(t, "std::array<"@), '>')).unwrap();
        (oml_of_cpp_type(parts.0), ArrayKind::Static(parts.1))
    } else {
        (oml_of_cpp_type(t), ArrayKind::Scalar)
    }
}

fn before_last_chars(s: &Vec<char>, c: char) -> (r: Vec<char>)
    ensures
        r@ == before_last(s@, c),
{
    match rfind_char(s, c) {
        Some(k) => take_chars(s, k),
        Option::None => copy_chars(s),
    }
}

/// Reads the OML type and array kind of a C++ type.
pub fn parse_cpp_type_and_name_inner(type_str: &Vec<char>) -> (r: (String, ArrayKind))
    ensures
        (r.0@, r.1) == cpp_inner_type(type_str@),
{
    let t = trim_chars(type_str);
    match strip_prefix_str(&t, "std::vector<") {
        Some(after) => {
            let inner = before_last_chars(&after, '>');
            let inner = trim_chars(&inner);
            return (reverse_cpp_type(&inner), ArrayKind::Dynamic);
        },
        Option::None => {},
    }
    match strip_prefix_str(&t, "std::array<") {
        Some(after) => {
            let inner = before_last_chars(&after, '>');
            match array_parts(&inner) {
                Some(parts) => {
                    return (reverse_cpp_type(&parts.0), ArrayKind::Static(parts.1));
                },
                Option::None => {},
            }
        },
        Option::None => {},
    }
    (reverse_cpp_type(&t), ArrayKind::Scalar)
}

// ---------------------------------------------------------------- members

/// The modifiers that open a member declaration (`static`, then `const`),
/// and the text after them.
pub open spec fn cpp_mods(l: Seq<char>) -> (Seq<VariableModifier>, Seq<char>) {
    let m1: Seq<VariableModifier> = if starts_with(l, "static "@) { seq![VariableModifier::STATIC] } else { Seq::empty() };
    let r1 = if starts_with(l, "static "@) { after_prefix(l, "static "@) } else { l };
    if starts_with(r1, "const "@) {
        (m1.push(VariableModifier::CONST), after_prefix(r1, "const "@))
    } else {
        (m1, r1)
    }
}

fn cpp_modifiers(l: &Vec<char>) -> (r: (Vec<VariableModifier>, Vec<char>))
    ensures
        (r.0@, r.1@) == cpp_mods(l@),
{
    let mut m: Vec<VariableModifier> = Vec::new();
    let r1 = match strip_prefix_str(l, "static ") {
        Some(x) => {
            m.push(VariableModifier::STATIC);
            x
        },
        Option::None => copy_chars(l),
    };
    assert(m@ =~= (if starts_with(l@, "static "@) { seq![VariableModifier::STATIC] } else { Seq::<VariableModifier>::empty() }));
    match strip_prefix_str(&r1, "const ") {
        Some(x) => {
            m.push(VariableModifier::CONST);
            (m, x)
        },
        Option::None => (m, r1),
    }
}

/// A member declared as `type name`: the last word is the name, the words
/// before it the type.
pub open spec fn cpp_plain_field(mods: Seq<VariableModifier>, vis: VariableVisibility, rest: Seq<char>) -> Option<SpecVariable> {
    let tokens = words(rest);
    if tokens.len() >= 2 {
        Some(read_var(mods, vis, oml_of_cpp_type(join(tokens.take(tokens.len() - 1), " "@)), ArrayKind::Scalar, tokens.last()))
    } else {
        Option::None
    }
}

/// The variable declared by a member line of a class body, under the
/// visibility `vis`; `None` where the line declares none that is understood.
pub open spec fn cpp_field(line: Seq<char>, vis: VariableVisibility) -> Option<SpecVariable> {
    let l = trim(trim_end_in(trim(line), ";"@));
    let mods = cpp_mods(l).0;
    let rest = cpp_mods(l).1;
    if l.len() == 0 {
        Option::None
    } else if starts_with(rest, "std::optional<"@) {
        let after = after_prefix(rest, "std::optional<"@);
        let whole = trim_end_in(trim(l), ";"@);
        if last_index(after, '>') is None || last_index(whole, '>') is None {
            Option::None
        } else {
            let ty = cpp_inner_type(before_last(after, '>'));
            Some(read_var(mods.push(VariableModifier::OPTIONAL), vis, ty.0, ty.1, trim(after_last(whole, '>'))))
        }
    } else if starts_with(rest, "std::vector<"@) {
        let after = after_prefix(rest, "std::vector<"@);
        if last_index(after, '>') is None {
            Option::None
        } else {
            Some(read_var(mods, vis, oml_of_cpp_type(trim(before_last(after, '>'))), ArrayKind::Dynamic, trim(after_last(after, '>'))))
        }
    } else if starts_with(rest, "std::array<"@) && last_index(after_prefix(rest, "std::array<"@), '>') is None {
        Option::None
    } else if starts_with(rest, "std::array<"@)
        && cpp_array_parts(before_last(after_prefix(rest, "std::array<"@), '>')) is Some {
        let after = after_prefix(rest, "std::array<"@);
        let parts = cpp_array_parts(before_last(after, '>')).unwrap();
        Some(read_var(mods, vis, oml_of_cpp_type(parts.0), ArrayKind::Static(parts.1), trim(after_last(after, '>'))))
    } else {
        cpp_plain_field(mods, vis, rest)
    }
}

fn after_last_chars(s: &Vec<char>, k: usize) -> (r: Vec<char>)
    requires
        k < s.len(),
    ensures
        r@ == s@.skip(k + 1),
{
    skip_chars(s, k + 1)
}

/// Reads the variable declared by a member line of a class body.
pub fn parse_cpp_field(line: &Vec<char>, default_vis: VariableVisibility) -> (r: Option<Variable>)
    ensures
        opt_var_view(r) == cpp_field(line@, default_vis),
{
    let a = trim_chars(line);
    let b = trim_end_matching(&a, ";");
    let l = trim_chars(&b);
    if l.len() == 0 {
        return Option::None;
    }
    let (var_mod, rest) = cpp_modifiers(&l);
    match strip_prefix_str(&rest, "std::optional<") {
        Some(after) => {
            let mut var_mod = var_mod;
            var_mod.push(VariableModifier::OPTIONAL);
            let close = match rfind_char(&after, '>') {
                Some(k) => k,
                Option::None => {
                    return Option::None;
                },
            };
            let inner = take_chars(&after, close);
            let w = trim_chars(&l);
            let whole = trim_end_matching(&w, ";");
            let close_pos = match rfind_char(&whole, '>') {
                Some(k) => k,
                Option::None => {
                    return Option::None;
                },
            };
            let name_raw = after_last_chars(&whole, close_pos);
            let name = trim_chars(&name_raw);
            let (var_type, array_kind) = parse_cpp_type_and_name_inner(&inner);
            return Some(new_var(var_mod, default_vis, var_type, array_kind, &name));
        },
        Option::None => {},
    }
    match strip_prefix_str(&rest, "std::vector<") {
        Some(after) => {
            let close = match rfind_char(&after, '>') {
                Some(k) => k,
                Option::None => {
                    return Option::None;
                },
            };
            let inner_raw = take_chars(&after, close);
            let inner = trim_chars(&inner_raw);
            let name_raw = after_last_chars(&after, close);
            let name = trim_chars(&name_raw);
            return Some(new_var(var_mod, default_vis, reverse_cpp_type(&inner), ArrayKind::Dynamic, &name));
        },
        Option::None => {},
    }
    match strip_prefix_str(&rest, "std::array<") {
        Some(after) => {
            let close = match rfind_char(&after, '>') {
                Some(k) => k,
                Option::None => {
                    return Option::None;
                },
            };
            let inner = take_chars(&after, close);
            match array_parts(&inner) {
                Some(parts) => {
                    let name_raw = after_last_chars(&after, close);
                    let name = trim_chars(&name_raw);
                    let var_type = reverse_cpp_type(&parts.0);
                    return Some(new_var(var_mod, default_vis, var_type, ArrayKind::Static(parts.1), &name));
                },
                Option::None => {},
            }
        },
        Option::None => {},
    }
    let tokens = split_words(&rest);
    if tokens.len() >= 2 {
        let n = tokens.len() - 1;
        let cpp_type = join_prefix(&tokens, n, " ");
        let var_type = reverse_cpp_type(&cpp_type);
        assert(lines_view(tokens@).last() == tokens@[n as int]@);
        return Some(new_var(var_mod, default_vis, var_type, ArrayKind::Scalar, &tokens[n]));
    }
    Option::None
}

// ---------------------------------------------------------------- files

/// Where a reader of a C++ header stands between two lines.
pub enum CppReading {
    /// Outside any definition.
    Outside,
    /// In the body of `enum class name`, with the variants read so far.
    InEnum { name: Seq<char>, vars: Seq<SpecVariable> },
    /// In the body of a class or a struct, under the visibility `vis`, with
    /// the members read so far.
    InRecord { is_struct: bool, name: Seq<char>, vis: VariableVisibility, vars: Seq<SpecVariable> },
}

/// The object that the reader is in, if any, with what it has read of it.
pub open spec fn cpp_open_object(st: CppReading) -> Seq<SpecOmlObject> {
    match st {
        CppReading::Outside => Seq::empty(),
        CppReading::InEnum { name, vars } => seq![read_object(ObjectType::ENUM, name, vars)],
        CppReading::InRecord { is_struct, name, vis, vars } =>
            seq![read_object(if is_struct { ObjectType::STRUCT } else { ObjectType::CLASS }, name, vars)],
    }
}

/// What a trimmed line read outside any definition opens: `enum class Name {`
/// an enum, `class Name {` a class (private by default), `struct Name {` a
/// struct (public by default).
pub open spec fn cpp_header(t: Seq<char>) -> CppReading {
    if starts_with(t, "enum class "@) && t.len() > 0 && t.last() == '{' {
        CppReading::InEnum { name: trim_end_in(after_prefix(t, "enum class "@), "{ "@), vars: Seq::empty() }
    } else if (starts_with(t, "class "@) || starts_with(t, "struct "@)) && t.len() > 0 && t.last() == '{' {
        let is_struct = starts_with(t, "struct "@);
        let prefix = if is_struct { "struct "@ } else { "class "@ };
        CppReading::InRecord {
            is_struct,
            name: trim_end_in(after_prefix(t, prefix), "{ "@),
            vis: if is_struct { VariableVisibility::PUBLIC } else { VariableVisibility::PRIVATE },
            vars: Seq::empty(),
        }
    } else {
        CppReading::Outside
    }
}

/// Whether a trimmed line of a class body is read as a member declaration.
pub open spec fn cpp_member_line(t: Seq<char>) -> bool {
    t.len() > 0 && !starts_with(t, "//"@) && !t.contains('(') && !t.contains('~') && t.last() == ';'
}

/// The reader after a trimmed line `t` of a class body (not its end).
pub open spec fn cpp_record_step(
    is_struct: bool,
    name: Seq<char>,
    vis: VariableVisibility,
    vars: Seq<SpecVariable>,
    t: Seq<char>,
) -> CppReading {
    if t == "public:"@ {
        CppReading::InRecord { is_struct, name, vis: VariableVisibility::PUBLIC, vars }
    } else if t == "private:"@ {
        CppReading::InRecord { is_struct, name, vis: VariableVisibility::PRIVATE, vars }
    } else if t == "protected:"@ {
        CppReading::InRecord { is_struct, name, vis: VariableVisibility::PROTECTED, vars }
    } else if cpp_member_line(t) {
        CppReading::InRecord { is_struct, name, vis, vars: vars + opt_seq(cpp_field(t, vis)) }
    } else {
        CppReading::InRecord { is_struct, name, vis, vars }
    }
}

/// The objects read from the lines `ls` from index `i` on, by a reader in
/// state `st`. A body ends at a line that starts with `};`; an object whose
/// body is still open at the end of the text is kept as read so far.
pub open spec fn cpp_read(ls: Seq<Seq<char>>, i: int, st: CppReading) -> Seq<SpecOmlObject>
    decreases ls.len() - i,
{
    if i >= ls.len() {
        cpp_open_object(st)
    } else {
        let t = trim(ls[i]);
        match st {
            CppReading::Outside => cpp_read(ls, i + 1, cpp_header(t)),
            CppReading::InEnum { name, vars } => {
                if starts_with(t, "};"@) {
                    cpp_open_object(st) + cpp_read(ls, i + 1, CppReading::Outside)
                } else {
                    cpp_read(ls, i + 1, CppReading::InEnum { name, vars: vars + line_variant(t) })
                }
            },
            CppReading::InRecord { is_struct, name, vis, vars } => {
                if starts_with(t, "};"@) {
                    cpp_open_object(st) + cpp_read(ls, i + 1, CppReading::Outside)
                } else {
                    cpp_read(ls, i + 1, cpp_record_step(is_struct, name, vis, vars, t))
                }
            },
        }
    }
}

/// The objects read back from a C++ header.
pub open spec fn cpp_objects(content: Seq<char>) -> Seq<SpecOmlObject> {
    cpp_read(lines(content), 0, CppReading::Outside)
}

impl BackwardsGenerate for CppGenerator {
    open spec fn spec_reverse(&self, content: Seq<char>) -> Seq<SpecOmlObject> {
        cpp_objects(content)
    }

    fn reverse(&self, content: &str) -> (r: Result<Vec<OmlObject>, GenerateError>) {
        let text = chars_of(content);
        let ls = split_lines(&text);
        let ghost sl = lines_view(ls@);
        let ghost total = cpp_objects(content@);
        let mut objects: Vec<OmlObject> = Vec::new();
        let mut i: usize = 0;
        while i < ls.len()
            invariant
                i <= ls.len(),
                sl == lines_view(ls@),
                sl == lines(content@),
                total == cpp_objects(content@),
                objects_view(objects@) + cpp_read(sl, i as int, CppReading::Outside) == total,
            decreases ls.len() - i,
        {
            let ghost start = i;
            let trimmed = trim_chars(&ls[i]);
            assert(trimmed@ == trim(sl[i as int]));
            let ends_brace = trimmed.len() > 0 && trimmed[trimmed.len() - 1] == '{';
            let enum_rest = strip_prefix_str(&trimmed, "enum class ");
            if enum_rest.is_some() && ends_brace {
                let after = enum_rest.unwrap();
                let name = trim_end_matching(&after, "{ ");
                let mut vars: Vec<Variable> = Vec::new();
                assert(cpp_header(trimmed@) == CppReading::InEnum { name: name@, vars: vars_view(vars@) }) by {
                    assert(vars_view(vars@) =~= Seq::<SpecVariable>::empty());
                }
                i += 1;
                while i < ls.len()
                    invariant
                        start < i <= ls.len(),
                        sl == lines_view(ls@),
                        objects_view(objects@) + cpp_read(sl, i as int, CppReading::InEnum { name: name@, vars: vars_view(vars@) }) == total,
                    ensures
                        start < i <= ls.len(),
                        objects_view(objects@) + cpp_read(sl, i as int, CppReading::InEnum { name: name@, vars: vars_view(vars@) }) == total,
                        i < ls.len() ==> starts_with(trim(sl[i as int]), "};"@),
                    decreases ls.len() - i,
                {
                    let line = trim_chars(&ls[i]);
                    if starts_with_str(&line, "};") {
                        break;
                    }
                    push_line_variant(&mut vars, &line);
                    i += 1;
                }
                let ghost vv = vars_view(vars@);
                let ghost before = objects_view(objects@);
                let ghost st = CppReading::InEnum { name: name@, vars: vv };
                assert(cpp_read(sl, i as int, st) == cpp_open_object(st) + cpp_read(sl, i + 1, CppReading::Outside)
                    || (i == ls.len() && cpp_read(sl, i as int, st) == cpp_open_object(st)));
                let obj = OmlObject { oml_type: ObjectType::ENUM, name: string_of(&name), variables: vars };
                objects.push(obj);
                assert(objects_view(objects@) =~= before + seq![read_object(ObjectType::ENUM, name@, vv)]);
                if i < ls.len() {
                    i += 1;
                }
            } else {
                let class_rest = strip_prefix_str(&trimmed, "class ");
                let struct_rest = strip_prefix_str(&trimmed, "struct ");
                if (class_rest.is_some() || struct_rest.is_some()) && ends_brace {
                    let is_struct = struct_rest.is_some();
                    let after = if is_struct { struct_rest.unwrap() } else { class_rest.unwrap() };
                    let name = trim_end_matching(&after, "{ ");
                    let mut vars: Vec<Variable> = Vec::new();
                    let mut current_visibility = if is_struct {
                        VariableVisibility::PUBLIC
                    } else {
                        VariableVisibility::PRIVATE
                    };
                    assert(cpp_header(trimmed@) == CppReading::InRecord {
                        is_struct,
                        name: name@,
                        vis: current_visibility,
                        vars: vars_view(vars@),
                    }) by {
                        assert(vars_view(vars@) =~= Seq::<SpecVariable>::empty());
                    }
                    i += 1;
                    while i < ls.len()
                        invariant
                            start < i <= ls.len(),
                            sl == lines_view(ls@),
                            objects_view(objects@) + cpp_read(sl, i as int, CppReading::InRecord {
                                is_struct,
                                name: name@,
                                vis: current_visibility,
                                vars: vars_view(vars@),
                            }) == total,
                        ensures
                            start < i <= ls.len(),
                            objects_view(objects@) + cpp_read(sl, i as int, CppReading::InRecord {
                                is_struct,
                                name: name@,
                                vis: current_visibility,
                                vars: vars_view(vars@),
                            }) == total,
                            i < ls.len() ==> starts_with(trim(sl[i as int]), "};"@),
                        decreases ls.len() - i,
                    {
                        let line = trim_chars(&ls[i]);
                        if starts_with_str(&line, "};") {
                            break;
                        }
                        let ghost before = vars_view(vars@);
                        let ghost vis_before = current_visibility;
                        if chars_eq_str(&line, "public:") {
                            current_visibility = VariableVisibility::PUBLIC;
                        } else if chars_eq_str(&line, "private:") {
                            current_visibility = VariableVisibility::PRIVATE;
                        } else if chars_eq_str(&line, "protected:") {
                            current_visibility = VariableVisibility::PROTECTED;
                        } else if line.len() > 0 && !starts_with_str(&line, "//") && !contains_char(&line, '(')
                            && !contains_char(&line, '~') && line[line.len() - 1] == ';' {
                            match parse_cpp_field(&line, current_visibility) {
                                Some(var) => {
                                    vars.push(var);
                                },
                                Option::None => {},
                            }
                            assert(vars_view(vars@) =~= before + opt_seq(cpp_field(line@, vis_before)));
                        }
                        assert(cpp_record_step(is_struct, name@, vis_before, before, line@) == CppReading::InRecord {
                            is_struct,
                            name: name@,
                            vis: current_visibility,
                            vars: vars_view(vars@),
                        }) by {
                            if !cpp_member_line(line@) {
                                assert(vars_view(vars@) =~= before);
                            }
                        }
                        i += 1;
                    }
                    let ghost vv = vars_view(vars@);
                    let ghost before = objects_view(objects@);
                    let ghost st = CppReading::InRecord { is_struct, name: name@, vis: current_visibility, vars: vv };
                    assert(cpp_read(sl, i as int, st) == cpp_open_object(st) + cpp_read(sl, i + 1, CppReading::Outside)
                        || (i == ls.len() && cpp_read(sl, i as int, st) == cpp_open_object(st)));
                    let oml_type = if is_struct { ObjectType::STRUCT } else { ObjectType::CLASS };
                    let obj = OmlObject { oml_type, name: string_of(&name), variables: vars };
                    objects.push(obj);
                    assert(objects_view(objects@) =~= before + seq![read_object(oml_type, name@, vv)]);
                    if i < ls.len() {
                        i += 1;
                    }
                } else {
                    assert(cpp_header(trimmed@) == CppReading::Outside);
                    i += 1;
                }
            }
        }
        Ok(objects)
    }
}

} // verus!
