use vstd::prelude::*;
use crate::oml_object::{
    ArrayKind, ObjectType, OmlObject, SpecOmlObject, SpecVariable, Variable, VariableModifier,
    VariableVisibility, objects_view, vars_view,
};
use crate::generate::{BackwardsGenerate, GenerateError};
use crate::generators::python::PythonGenerator;
use crate::chars::{
    after_prefix, before_char, before_char_chars, contains_seq, contains_str, ends_with_char,
    find_char, find_from, find_seq, find_str, first_index, last_index, lemma_last_index,
    lemma_longer_than_prefix, lemma_trim_len, lines, lines_view, occurs_at, rfind_char,
    skip_chars, split_char, split_lines, split_on_char, starts_with, starts_with_str,
    strip_prefix_str, subrange_chars, take_chars, trim, trim_chars, trim_start,
    trim_start_chars,
};
use crate::reading::{new_var, new_variant, opt_seq, opt_var_view, read_object, read_var, variant_var};
use crate::text::{chars_eq_str, chars_of, eq_chars, string_of};

verus! {

// ---------------------------------------------------------------- types

/// The OML name of a Python type; other names are kept as they are.
pub open spec fn oml_of_python_type(t: Seq<char>) -> Seq<char> {
    if t == "int"@ { "int32"@ }
    else if t == "float"@ { "double"@ }
    else if t == "bool"@ { "bool"@ }
    else if t == "str"@ { "string"@ }
    else { t }
}

/// Converts a Python type name to its OML name.
pub fn reverse_python_type(py_type: &Vec<char>) -> (r: String)
    ensures
        r@ == oml_of_python_type(py_type@),
{
    if chars_eq_str(py_type, "int") { String::from_str("int32") }
    else if chars_eq_str(py_type, "float") { String::from_str("double") }
    else if chars_eq_str(py_type, "bool") { String::from_str("bool") }
    else if chars_eq_str(py_type, "str") { String::from_str("string") }
    else { string_of(py_type) }
}

/// The OML type and array kind of a Python type annotation: `list[T]` is a
/// dynamic array of `T`, and `Optional[T]` reads as `T`.
pub open spec fn python_type(s: Seq<char>) -> (Seq<char>, ArrayKind)
    decreases s.len(),
{
    let t = trim(s);
    if starts_with(t, "list["@) && t.len() > 0 && t.last() == ']' {
        (oml_of_python_type(after_prefix(t, "list["@).drop_last()), ArrayKind::Dynamic)
    } else if starts_with(t, "Optional["@) && t.len() > 0 && t.last() == ']' {
        proof {
            lemma_trim_len(s);
            reveal_strlit("Optional[");
            lemma_longer_than_prefix(t, "Optional["@);
        }
        python_type(after_prefix(t, "Optional["@).drop_last())
    } else {
        (oml_of_python_type(t), ArrayKind::Scalar)
    }
}

fn drop_last_chars(s: &Vec<char>) -> (r: Vec<char>)
    requires
        s.len() > 0,
    ensures
        r@ == s@.drop_last(),
{
    take_chars(s, s.len() - 1)
}

/// Reads a Python type annotation.
pub fn parse_python_type(type_str: &Vec<char>) -> (r: (String, ArrayKind))
    ensures
        (r.0@, r.1) == python_type(type_str@),
    decreases type_str@.len(),
{
    let t = trim_chars(type_str);
    if ends_with_char(&t, ']') {
        match strip_prefix_str(&t, "list[") {
            Some(after) => {
                proof {
                    reveal_strlit("list[");
                    lemma_longer_than_prefix(t@, "list["@);
                }
                let inner = drop_last_chars(&after);
                return (reverse_python_type(&inner), ArrayKind::Dynamic);
            },
            Option::None => {},
        }
        match strip_prefix_str(&t, "Optional[") {
            Some(after) => {
                proof {
                    reveal_strlit("Optional[");
                    lemma_longer_than_prefix(t@, "Optional["@);
                    lemma_trim_len(type_str@);
                }
                let inner = drop_last_chars(&after);
                return parse_python_type(&inner);
            },
            Option::None => {},
        }
    }
    (reverse_python_type(&t), ArrayKind::Scalar)
}

// ---------------------------------------------------------------- members

/// `s` without the prefix `p` and a last character `c`, where it has both.
pub open spec fn between(s: Seq<char>, p: Seq<char>, c: char) -> Option<Seq<char>> {
    let a = after_prefix(s, p);
    if starts_with(s, p) && a.len() > 0 && a.last() == c { Some(a.drop_last()) } else { Option::None }
}

fn between_chars(s: &Vec<char>, p: &str, c: char) -> (r: Option<Vec<char>>)
    ensures
        r is Some <==> between(s@, p@, c) is Some,
        r matches Some(x) ==> between(s@, p@, c) == Some(x@),
{
    match strip_prefix_str(s, p) {
        Some(a) => {
            if ends_with_char(&a, c) {
                Some(drop_last_chars(&a))
            } else {
                Option::None
            }
        },
        Option::None => Option::None,
    }
}

/// The name and the type annotation of `name: annotation`: the text before
/// the first colon and the text after it, trimmed.
pub open spec fn python_name_and_type(l: Seq<char>) -> Option<(Seq<char>, Seq<char>)> {
    match first_index(l, ':') {
        Some(c) => Some((trim(l.take(c)), trim(l.skip(c + 1)))),
        Option::None => Option::None,
    }
}

fn name_and_type(l: &Vec<char>) -> (r: Option<(Vec<char>, Vec<char>)>)
    ensures
        r is Some <==> python_name_and_type(l@) is Some,
        r matches Some(p) ==> python_name_and_type(l@) == Some((p.0@, p.1@)),
{
    match find_char(l, ':') {
        Some(c) => {
            assert(c < l.len());
            let name_raw = take_chars(l, c);
            let type_raw = skip_chars(l, c + 1);
            Some((trim_chars(&name_raw), trim_chars(&type_raw)))
        },
        Option::None => Option::None,
    }
}

/// The class variable declared by `name: ClassVar[T]`: static and private.
pub open spec fn python_classvar(line: Seq<char>) -> Option<SpecVariable> {
    match python_name_and_type(trim(line)) {
        Some(nt) => match between(nt.1, "ClassVar["@, ']') {
            Some(inner) => {
                let ty = python_type(inner);
                Some(read_var(seq![VariableModifier::STATIC], VariableVisibility::PRIVATE, ty.0, ty.1, nt.0))
            },
            Option::None => Option::None,
        },
        Option::None => Option::None,
    }
}

/// Reads the class variable declared by a line of a dataclass body.
pub fn parse_python_classvar(line: &Vec<char>) -> (r: Option<Variable>)
    ensures
        opt_var_view(r) == python_classvar(line@),
{
    let l = trim_chars(line);
    match name_and_type(&l) {
        Some(nt) => match between_chars(&nt.1, "ClassVar[", ']') {
            Some(inner) => {
                let (var_type, array_kind) = parse_python_type(&inner);
                let mut var_mod: Vec<VariableModifier> = Vec::new();
                var_mod.push(VariableModifier::STATIC);
                assert(var_mod@ =~= seq![VariableModifier::STATIC]);
                Some(new_var(var_mod, VariableVisibility::PRIVATE, var_type, array_kind, &nt.0))
            },
            Option::None => Option::None,
        },
        Option::None => Option::None,
    }
}

/// The field declared by a line `name: T` of a dataclass body (private;
/// `CONST` in a frozen dataclass). An optional one is written
/// `name: Optional[T] = None`.
pub open spec fn python_dataclass_field(line: Seq<char>, is_optional: bool, is_frozen: bool) -> Option<SpecVariable> {
    let mods: Seq<VariableModifier> = if is_frozen { seq![VariableModifier::CONST] } else { Seq::empty() };
    match python_name_and_type(trim(line)) {
        Some(nt) => {
            if is_optional {
                match between(trim(before_char(nt.1, '=')), "Optional["@, ']') {
                    Some(inner) => {
                        let ty = python_type(inner);
                        Some(read_var(mods.push(VariableModifier::OPTIONAL), VariableVisibility::PRIVATE, ty.0, ty.1, nt.0))
                    },
                    Option::None => Option::None,
                }
            } else {
                let ty = python_type(nt.1);
                Some(read_var(mods, VariableVisibility::PRIVATE, ty.0, ty.1, nt.0))
            }
        },
        Option::None => Option::None,
    }
}

/// Reads the field declared by a line of a dataclass body.
pub fn parse_python_dataclass_field(line: &Vec<char>, is_optional: bool, is_frozen: bool) -> (r: Option<Variable>)
    ensures
        opt_var_view(r) == python_dataclass_field(line@, is_optional, is_frozen),
{
    let l = trim_chars(line);
    let nt = match name_and_type(&l) {
        Some(nt) => nt,
        Option::None => {
            return Option::None;
        },
    };
    let mut var_mod: Vec<VariableModifier> = Vec::new();
    if is_frozen {
        var_mod.push(VariableModifier::CONST);
    }
    assert(var_mod@ =~= (if is_frozen { seq![VariableModifier::CONST] } else { Seq::<VariableModifier>::empty() }));
    if is_optional {
        var_mod.push(VariableModifier::OPTIONAL);
        let type_raw = before_char_chars(&nt.1, '=');
        let type_str = trim_chars(&type_raw);
        match between_chars(&type_str, "Optional[", ']') {
            Some(inner) => {
                let (var_type, array_kind) = parse_python_type(&inner);
                return Some(new_var(var_mod, VariableVisibility::PRIVATE, var_type, array_kind, &nt.0));
            },
            Option::None => {
                return Option::None;
            },
        }
    }
    let (var_type, array_kind) = parse_python_type(&nt.1);
    Some(new_var(var_mod, VariableVisibility::PRIVATE, var_type, array_kind, &nt.0))
}

/// One parameter of `__init__`, from its text between commas: its name, its
/// type (the text after the colon, up to any `=`) and whether it is optional
/// (`Optional[` or `= None` after the colon). A piece without a colon names
/// none.
pub open spec fn python_param(piece: Seq<char>) -> Option<(Seq<char>, Seq<char>, bool)> {
    let p = trim(piece);
    if p.len() == 0 {
        Option::None
    } else {
        match first_index(p, ':') {
            Some(c) => {
                let rest = trim(p.skip(c + 1));
                Some((trim(p.take(c)), trim(before_char(rest, '=')),
                    contains_seq(rest, "Optional["@) || contains_seq(rest, "= None"@)))
            },
            Option::None => Option::None,
        }
    }
}

/// The parameters named by the pieces of a parameter list, in order.
pub open spec fn python_params(pieces: Seq<Seq<char>>) -> Seq<(Seq<char>, Seq<char>, bool)>
    decreases pieces.len(),
{
    if pieces.len() == 0 {
        Seq::empty()
    } else {
        python_params(pieces.drop_last()) + opt_seq(python_param(pieces.last()))
    }
}

/// Whether `extract_python_init_params` can slice `line`: where it holds
/// both `(self` and a `)`, the last `)` does not come before the end of the
/// first `(self`.
pub open spec fn python_init_ok(line: Seq<char>) -> bool {
    match (find_seq(line, "(self"@), last_index(line, ')')) {
        (Some(p), Some(e)) => p + "(self"@.len() <= e,
        _ => true,
    }
}

/// The parameters of `def __init__(self, ...)`: the text after the first
/// `(self` up to the last `)`, split at each comma.
pub open spec fn python_init_params(line: Seq<char>) -> Seq<(Seq<char>, Seq<char>, bool)> {
    match (find_seq(line, "(self"@), last_index(line, ')')) {
        (Some(p), Some(e)) => python_params(split_char(line.subrange(p + "(self"@.len(), e), ',')),
        _ => Seq::empty(),
    }
}

pub open spec fn params_view(v: Seq<(String, String, bool)>) -> Seq<(Seq<char>, Seq<char>, bool)> {
    v.map_values(|p: (String, String, bool)| (p.0@, p.1@, p.2))
}

fn python_param_exec(piece: &Vec<char>) -> (r: Option<(String, String, bool)>)
    ensures
        r is Some <==> python_param(piece@) is Some,
        r matches Some(x) ==> python_param(piece@) == Some((x.0@, x.1@, x.2)),
{
    let p = trim_chars(piece);
    if p.len() == 0 {
        return Option::None;
    }
    match find_char(&p, ':') {
        Some(c) => {
            assert(c < p.len());
            let name_raw = take_chars(&p, c);
            let name = trim_chars(&name_raw);
            let rest_raw = skip_chars(&p, c + 1);
            let rest = trim_chars(&rest_raw);
            let is_opt = contains_str(&rest, "Optional[") || contains_str(&rest, "= None");
            let ty_raw = before_char_chars(&rest, '=');
            let ty = trim_chars(&ty_raw);
            Some((string_of(&name), string_of(&ty), is_opt))
        },
        Option::None => Option::None,
    }
}

/// Reads the parameters of a line `def __init__(self, ...):`.
pub fn extract_python_init_params(line: &Vec<char>) -> (r: Vec<(String, String, bool)>)
    requires
        python_init_ok(line@),
    ensures
        params_view(r@) == python_init_params(line@),
{
    let mut params: Vec<(String, String, bool)> = Vec::new();
    let pos = match find_str(line, "(self") {
        Some(pos) => pos,
        Option::None => {
            assert(params_view(params@) =~= Seq::empty());
            return params;
        },
    };
    let end = match rfind_char(line, ')') {
        Some(e) => e,
        Option::None => {
            assert(params_view(params@) =~= Seq::empty());
            return params;
        },
    };
    let plen = "(self".unicode_len();
    let param_str = subrange_chars(line, pos + plen, end);
    let pieces = split_on_char(&param_str, ',');
    let ghost ps = lines_view(pieces@);
    let mut k: usize = 0;
    assert(params_view(params@) =~= python_params(ps.take(0)));
    while k < pieces.len()
        invariant
            k <= pieces.len(),
            ps == lines_view(pieces@),
            params_view(params@) == python_params(ps.take(k as int)),
        decreases pieces.len() - k,
    {
        let ghost before = params_view(params@);
        assert(ps.take(k + 1).drop_last() == ps.take(k as int));
        match python_param_exec(&pieces[k]) {
            Some(x) => {
                params.push(x);
            },
            Option::None => {},
        }
        assert(params_view(params@) =~= before + opt_seq(python_param(ps[k as int])));
        k += 1;
    }
    assert(ps.take(pieces.len() as int) == ps);
    params
}

/// The variable that an `__init__` parameter declares: private, optional
/// where the parameter is.
pub open spec fn init_param_var(p: (Seq<char>, Seq<char>, bool)) -> SpecVariable {
    let mods: Seq<VariableModifier> = if p.2 { seq![VariableModifier::OPTIONAL] } else { Seq::empty() };
    read_var(mods, VariableVisibility::PRIVATE, python_type(p.1).0, python_type(p.1).1, p.0)
}

/// The variables declared by a line `def __init__(self, ...):`.
pub open spec fn python_init_vars(line: Seq<char>) -> Seq<SpecVariable> {
    python_init_params(line).map_values(|p: (Seq<char>, Seq<char>, bool)| init_param_var(p))
}

proof fn lemma_find_from_at_most(s: Seq<char>, p: Seq<char>, i: int, k: int)
    requires
        0 <= i <= k,
        occurs_at(s, p, k),
    ensures
        find_from(s, p, i) matches Some(j) && j <= k,
    decreases k - i,
{
    if !occurs_at(s, p, i) {
        lemma_find_from_at_most(s, p, i + 1, k);
    }
}

/// A line that begins with `def __init__(self` can be sliced.
proof fn lemma_init_line_ok(line: Seq<char>)
    requires
        starts_with(line, "def __init__(self"@),
    ensures
        python_init_ok(line),
{
    reveal_strlit("def __init__(self");
    reveal_strlit("(self");
    let pre = "def __init__(self"@;
    assert(pre.len() == 17);
    assert(line.take(17) == pre);
    assert(occurs_at(line, "(self"@, 12)) by {
        assert forall|k: int| 0 <= k < 5 implies line.subrange(12, 17)[k] == "(self"@[k] by {
            assert(line.subrange(12, 17)[k] == line.take(17)[12 + k]);
        }
        assert(line.subrange(12, 17) =~= "(self"@);
    }
    lemma_find_from_at_most(line, "(self"@, 0, 12);
    lemma_last_index(line, ')');
    match last_index(line, ')') {
        Some(e) => {
            if e < 17 {
                assert(line[e] == pre[e]) by {
                    assert(line.take(17)[e] == line[e]);
                }
                assert(pre[e] != ')') by {
                    assert(pre[0] != ')' && pre[1] != ')' && pre[2] != ')' && pre[3] != ')' && pre[4] != ')'
                        && pre[5] != ')' && pre[6] != ')' && pre[7] != ')' && pre[8] != ')' && pre[9] != ')'
                        && pre[10] != ')' && pre[11] != ')' && pre[12] != ')' && pre[13] != ')' && pre[14] != ')'
                        && pre[15] != ')' && pre[16] != ')');
                }
            }
        },
        Option::None => {},
    }
}

/// Appends the variables declared by a line `def __init__(self, ...):`.
fn push_init_vars(vars: &mut Vec<Variable>, line: &Vec<char>)
    requires
        starts_with(line@, "def __init__(self"@),
    ensures
        vars_view(final(vars)@) == vars_view(old(vars)@) + python_init_vars(line@),
{
    proof {
        lemma_init_line_ok(line@);
    }
    let params = extract_python_init_params(line);
    let ghost pv = params_view(params@);
    let ghost start = vars_view(vars@);
    let mut k: usize = 0;
    while k < params.len()
        invariant
            k <= params.len(),
            pv == params_view(params@),
            pv == python_init_params(line@),
            vars_view(vars@) == start + pv.take(k as int).map_values(|p: (Seq<char>, Seq<char>, bool)| init_param_var(p)),
        decreases params.len() - k,
    {
        let ghost before = vars_view(vars@);
        let pname = chars_of(params[k].0.as_str());
        let ptype = chars_of(params[k].1.as_str());
        let is_opt = params[k].2;
        let (var_type, array_kind) = parse_python_type(&ptype);
        let mut var_mod: Vec<VariableModifier> = Vec::new();
        if is_opt {
            var_mod.push(VariableModifier::OPTIONAL);
        }
        assert(var_mod@ =~= (if is_opt { seq![VariableModifier::OPTIONAL] } else { Seq::<VariableModifier>::empty() }));
        vars.push(new_var(var_mod, VariableVisibility::PRIVATE, var_type, array_kind, &pname));
        assert(pv.take(k + 1).map_values(|p: (Seq<char>, Seq<char>, bool)| init_param_var(p))
            =~= pv.take(k as int).map_values(|p: (Seq<char>, Seq<char>, bool)| init_param_var(p)).push(init_param_var(pv[k as int])));
        assert(vars_view(vars@) =~= before.push(init_param_var(pv[k as int])));
        k += 1;
    }
    assert(pv.take(params.len() as int) == pv);
}

// ---------------------------------------------------------------- files

/// Where a reader of a Python file stands between two lines.
pub enum PythonReading {
    /// Outside any definition.
    Outside,
    /// In the body of a dataclass, frozen or not.
    InDataclass { name: Seq<char>, frozen: bool, vars: Seq<SpecVariable> },
    /// In the body of `class name(Enum):`.
    InEnum { name: Seq<char>, vars: Seq<SpecVariable> },
    /// In the body of another class.
    InClass { name: Seq<char>, vars: Seq<SpecVariable> },
}

/// The object that the reader is in, if any, with what it has read of it.
pub open spec fn python_open_object(st: PythonReading) -> Seq<SpecOmlObject> {
    match st {
        PythonReading::Outside => Seq::empty(),
        PythonReading::InDataclass { name, frozen, vars } => seq![read_object(ObjectType::CLASS, name, vars)],
        PythonReading::InEnum { name, vars } => seq![read_object(ObjectType::ENUM, name, vars)],
        PythonReading::InClass { name, vars } => seq![read_object(ObjectType::CLASS, name, vars)],
    }
}

/// Whether a raw line begins with a tab or four spaces.
pub open spec fn py_indented(raw: Seq<char>) -> bool {
    starts_with(raw, "\t"@) || starts_with(raw, "    "@)
}

/// Whether a raw line ends the body of a dataclass: a line that is neither
/// empty nor `pass` and that begins with no whitespace.
pub open spec fn py_dataclass_ends(raw: Seq<char>) -> bool {
    let line = trim(raw);
    (line.len() == 0 || (!py_indented(raw) && raw == trim_start(raw)))
        && (!py_indented(raw) && line.len() > 0 && line != "pass"@)
}

/// Whether a raw line ends the body of an enum: an empty line, or one that is
/// not indented by a tab or four spaces and is not `pass`.
pub open spec fn py_enum_ends(raw: Seq<char>) -> bool {
    let line = trim(raw);
    line.len() == 0 || (!py_indented(raw) && line.len() > 0 && line != "pass"@)
}

/// Whether a raw line ends the body of a class: one that is neither empty nor
/// `pass` and is not indented by a tab or four spaces.
pub open spec fn py_class_ends(raw: Seq<char>) -> bool {
    let line = trim(raw);
    !py_indented(raw) && line.len() > 0 && line != "pass"@
}

/// What a trimmed line of a dataclass body declares.
pub open spec fn py_dataclass_member(line: Seq<char>, frozen: bool) -> Seq<SpecVariable> {
    if line == "pass"@ {
        Seq::empty()
    } else if contains_seq(line, ": ClassVar["@) {
        opt_seq(python_classvar(line))
    } else if contains_seq(line, ": Optional["@) && contains_seq(line, "= None"@) {
        opt_seq(python_dataclass_field(line, true, frozen))
    } else if contains_seq(line, ": "@) && !starts_with(line, "def "@) && !starts_with(line, "@"@) {
        opt_seq(python_dataclass_field(line, false, frozen))
    } else {
        Seq::empty()
    }
}

/// What a trimmed line of an enum body declares: `NAME = value` a variant.
pub open spec fn py_enum_member(line: Seq<char>) -> Seq<SpecVariable> {
    if line == "pass"@ {
        Seq::empty()
    } else {
        match find_seq(line, " = "@) {
            Some(e) => seq![variant_var(trim(line.take(e)))],
            Option::None => Seq::empty(),
        }
    }
}

/// What a trimmed line of a class body declares: the parameters of `__init__`.
pub open spec fn py_class_member(line: Seq<char>) -> Seq<SpecVariable> {
    if starts_with(line, "def __init__(self"@) { python_init_vars(line) } else { Seq::empty() }
}

/// Whether a trimmed line is a dataclass decorator.
pub open spec fn py_decorator(t: Seq<char>) -> bool {
    t == "@dataclass"@ || t == "@dataclass(frozen=True)"@
}

/// The objects read from the lines `ls` from index `i` on, by a reader in
/// state `st`. A `@dataclass` line takes the next line as its `class Name:`
/// line; a body ends at the first line that does not belong to it, which is
/// then read again outside any definition.
pub open spec fn python_read(ls: Seq<Seq<char>>, i: int, st: PythonReading) -> Seq<SpecOmlObject>
    decreases ls.len() - i, (if st is Outside { 0int } else { 1int }),
{
    if i >= ls.len() {
        python_open_object(st)
    } else {
        let raw = ls[i];
        let t = trim(raw);
        match st {
            PythonReading::Outside => {
                if py_decorator(t) {
                    if i + 1 >= ls.len() {
                        Seq::empty()
                    } else {
                        match between(trim(ls[i + 1]), "class "@, ':') {
                            Some(name) => python_read(ls, i + 2, PythonReading::InDataclass {
                                name,
                                frozen: t == "@dataclass(frozen=True)"@,
                                vars: Seq::empty(),
                            }),
                            Option::None => python_read(ls, i + 2, PythonReading::Outside),
                        }
                    }
                } else if starts_with(t, "class "@) && contains_seq(t, "(Enum)"@) && t.len() > 0 && t.last() == ':' {
                    python_read(ls, i + 1, PythonReading::InEnum {
                        name: trim(before_char(after_prefix(t, "class "@), '(')),
                        vars: Seq::empty(),
                    })
                } else if starts_with(t, "class "@) && t.len() > 0 && t.last() == ':' && !contains_seq(t, "(Enum)"@) {
                    python_read(ls, i + 1, PythonReading::InClass {
                        name: trim(after_prefix(t, "class "@).drop_last()),
                        vars: Seq::empty(),
                    })
                } else {
                    python_read(ls, i + 1, PythonReading::Outside)
                }
            },
            PythonReading::InDataclass { name, frozen, vars } => {
                if py_dataclass_ends(raw) {
                    python_open_object(st) + python_read(ls, i, PythonReading::Outside)
                } else {
                    python_read(ls, i + 1, PythonReading::InDataclass { name, frozen, vars: vars + py_dataclass_member(t, frozen) })
                }
            },
            PythonReading::InEnum { name, vars } => {
                if py_enum_ends(raw) {
                    python_open_object(st) + python_read(ls, i, PythonReading::Outside)
                } else {
                    python_read(ls, i + 1, PythonReading::InEnum { name, vars: vars + py_enum_member(t) })
                }
            },
            PythonReading::InClass { name, vars } => {
                let vars2 = vars + py_class_member(t);
                if py_class_ends(raw) {
                    seq![read_object(ObjectType::CLASS, name, vars2)] + python_read(ls, i, PythonReading::Outside)
                } else {
                    python_read(ls, i + 1, PythonReading::InClass { name, vars: vars2 })
                }
            },
        }
    }
}

/// The objects read back from a Python file.
pub open spec fn python_objects(content: Seq<char>) -> Seq<SpecOmlObject> {
    python_read(lines(content), 0, PythonReading::Outside)
}

fn is_indented(raw: &Vec<char>) -> (r: bool)
    ensures
        r == py_indented(raw@),
{
    starts_with_str(raw, "\t") || starts_with_str(raw, "    ")
}

/// Reads the body of a dataclass from line `i` on, and adds the class to
/// `objects`; returns the index of the line that ends the body.
fn read_python_dataclass(ls: &Vec<Vec<char>>, i: usize, name: Vec<char>, frozen: bool, objects: &mut Vec<OmlObject>) -> (next: usize)
    requires
        i <= ls.len(),
    ensures
        i <= next <= ls.len(),
        objects_view(final(objects)@) + python_read(lines_view(ls@), next as int, PythonReading::Outside)
            == objects_view(old(objects)@) + python_read(lines_view(ls@), i as int, PythonReading::InDataclass { name: name@, frozen, vars: Seq::empty() }),
{
    let ghost sl = lines_view(ls@);
    let ghost total = objects_view(objects@) + python_read(sl, i as int, PythonReading::InDataclass { name: name@, frozen, vars: Seq::empty() });
    let mut vars: Vec<Variable> = Vec::new();
    assert(vars_view(vars@) =~= Seq::<SpecVariable>::empty());
    let mut j = i;
    while j < ls.len()
        invariant
            i <= j <= ls.len(),
            sl == lines_view(ls@),
            objects_view(objects@) + python_read(sl, j as int, PythonReading::InDataclass { name: name@, frozen, vars: vars_view(vars@) }) == total,
        ensures
            i <= j <= ls.len(),
            objects_view(objects@) + python_read(sl, j as int, PythonReading::InDataclass { name: name@, frozen, vars: vars_view(vars@) }) == total,
            j < ls.len() ==> py_dataclass_ends(sl[j as int]),
        decreases ls.len() - j,
    {
        let raw = &ls[j];
        let line = trim_chars(raw);
        let indented = is_indented(raw);
        let ts = trim_start_chars(raw);
        let flush = eq_chars(raw, &ts);
        let is_pass = chars_eq_str(&line, "pass");
        if (line.len() == 0 || (!indented && flush)) && (!indented && line.len() > 0 && !is_pass) {
            break;
        }
        let ghost before = vars_view(vars@);
        if !is_pass {
            if contains_str(&line, ": ClassVar[") {
                match parse_python_classvar(&line) {
                    Some(var) => {
                        vars.push(var);
                    },
                    Option::None => {},
                }
            } else if contains_str(&line, ": Optional[") && contains_str(&line, "= None") {
                match parse_python_dataclass_field(&line, true, frozen) {
                    Some(var) => {
                        vars.push(var);
                    },
                    Option::None => {},
                }
            } else if contains_str(&line, ": ") && !starts_with_str(&line, "def ") && !starts_with_str(&line, "@") {
                match parse_python_dataclass_field(&line, false, frozen) {
                    Some(var) => {
                        vars.push(var);
                    },
                    Option::None => {},
                }
            }
        }
        assert(vars_view(vars@) =~= before + py_dataclass_member(line@, frozen));
        j += 1;
    }
    let ghost vv = vars_view(vars@);
    let ghost before = objects_view(objects@);
    let obj = OmlObject { oml_type: ObjectType::CLASS, name: string_of(&name), variables: vars };
    objects.push(obj);
    assert(objects_view(objects@) =~= before + seq![read_object(ObjectType::CLASS, name@, vv)]);
    j
}

/// Reads the body of an enum from line `i` on, and adds the enum to
/// `objects`; returns the index of the line that ends the body.
fn read_python_enum(ls: &Vec<Vec<char>>, i: usize, name: Vec<char>, objects: &mut Vec<OmlObject>) -> (next: usize)
    requires
        i <= ls.len(),
    ensures
        i <= next <= ls.len(),
        objects_view(final(objects)@) + python_read(lines_view(ls@), next as int, PythonReading::Outside)
            == objects_view(old(objects)@) + python_read(lines_view(ls@), i as int, PythonReading::InEnum { name: name@, vars: Seq::empty() }),
{
    let ghost sl = lines_view(ls@);
    let ghost total = objects_view(objects@) + python_read(sl, i as int, PythonReading::InEnum { name: name@, vars: Seq::empty() });
    let mut vars: Vec<Variable> = Vec::new();
    assert(vars_view(vars@) =~= Seq::<SpecVariable>::empty());
    let mut j = i;
    while j < ls.len()
        invariant
            i <= j <= ls.len(),
            sl == lines_view(ls@),
            objects_view(objects@) + python_read(sl, j as int, PythonReading::InEnum { name: name@, vars: vars_view(vars@) }) == total,
        ensures
            i <= j <= ls.len(),
            objects_view(objects@) + python_read(sl, j as int, PythonReading::InEnum { name: name@, vars: vars_view(vars@) }) == total,
            j < ls.len() ==> py_enum_ends(sl[j as int]),
        decreases ls.len() - j,
    {
        let raw = &ls[j];
        let line = trim_chars(raw);
        let indented = is_indented(raw);
        let is_pass = chars_eq_str(&line, "pass");
        if line.len() == 0 || (!indented && line.len() > 0 && !is_pass) {
            break;
        }
        let ghost before = vars_view(vars@);
        if !is_pass {
            match find_str(&line, " = ") {
                Some(e) => {
                    let v_raw = take_chars(&line, e);
                    let v = trim_chars(&v_raw);
                    vars.push(new_variant(&v));
                },
                Option::None => {},
            }
        }
        assert(vars_view(vars@) =~= before + py_enum_member(line@));
        j += 1;
    }
    let ghost vv = vars_view(vars@);
    let ghost before = objects_view(objects@);
    let obj = OmlObject { oml_type: ObjectType::ENUM, name: string_of(&name), variables: vars };
    objects.push(obj);
    assert(objects_view(objects@) =~= before + seq![read_object(ObjectType::ENUM, name@, vv)]);
    j
}

/// Reads the body of a class from line `i` on, and adds the class to
/// `objects`; returns the index of the line that ends the body.
fn read_python_class(ls: &Vec<Vec<char>>, i: usize, name: Vec<char>, objects: &mut Vec<OmlObject>) -> (next: usize)
    requires
        i <= ls.len(),
    ensures
        i <= next <= ls.len(),
        objects_view(final(objects)@) + python_read(lines_view(ls@), next as int, PythonReading::Outside)
            == objects_view(old(objects)@) + python_read(lines_view(ls@), i as int, PythonReading::InClass { name: name@, vars: Seq::empty() }),
{
    let ghost sl = lines_view(ls@);
    let ghost total = objects_view(objects@) + python_read(sl, i as int, PythonReading::InClass { name: name@, vars: Seq::empty() });
    let mut vars: Vec<Variable> = Vec::new();
    assert(vars_view(vars@) =~= Seq::<SpecVariable>::empty());
    let mut j = i;
    while j < ls.len()
        invariant_except_break
            objects_view(objects@) + python_read(sl, j as int, PythonReading::InClass { name: name@, vars: vars_view(vars@) }) == total,
        invariant
            i <= j <= ls.len(),
            sl == lines_view(ls@),
        ensures
            i <= j <= ls.len(),
            j < ls.len() ==> objects_view(objects@) + seq![read_object(ObjectType::CLASS, name@, vars_view(vars@))]
                + python_read(sl, j as int, PythonReading::Outside) == total,
            j == ls.len() ==> objects_view(objects@) + seq![read_object(ObjectType::CLASS, name@, vars_view(vars@))] == total,
        decreases ls.len() - j,
    {
        let raw = &ls[j];
        let line = trim_chars(raw);
        let ghost before = vars_view(vars@);
        if starts_with_str(&line, "def __init__(self") {
            push_init_vars(&mut vars, &line);
        }
        assert(vars_view(vars@) =~= before + py_class_member(line@));
        let indented = is_indented(raw);
        if !indented && line.len() > 0 && !chars_eq_str(&line, "pass") {
            break;
        }
        j += 1;
    }
    let ghost vv = vars_view(vars@);
    let ghost before = objects_view(objects@);
    let obj = OmlObject { oml_type: ObjectType::CLASS, name: string_of(&name), variables: vars };
    objects.push(obj);
    assert(objects_view(objects@) =~= before + seq![read_object(ObjectType::CLASS, name@, vv)]);
    j
}

impl BackwardsGenerate for PythonGenerator {
    open spec fn spec_reverse(&self, content: Seq<char>) -> Seq<SpecOmlObject> {
        python_objects(content)
    }

    fn reverse(&self, content: &str) -> (r: Result<Vec<OmlObject>, GenerateError>) {
        let text = chars_of(content);
        let ls = split_lines(&text);
        let ghost sl = lines_view(ls@);
        let ghost total = python_objects(content@);
        let mut objects: Vec<OmlObject> = Vec::new();
        let mut i: usize = 0;
        while i < ls.len()
            invariant
                i <= ls.len(),
                sl == lines_view(ls@),
                sl == lines(content@),
                total == python_objects(content@),
                objects_view(objects@) + python_read(sl, i as int, PythonReading::Outside) == total,
            decreases ls.len() - i,
        {
            let trimmed = trim_chars(&ls[i]);
            assert(trimmed@ == trim(sl[i as int]));
            let is_frozen = chars_eq_str(&trimmed, "@dataclass(frozen=True)");
            let is_dataclass = chars_eq_str(&trimmed, "@dataclass") || is_frozen;
            if is_dataclass {
                if i + 1 >= ls.len() {
                    assert(python_read(sl, i as int, PythonReading::Outside) =~= Seq::empty());
                    assert(objects_view(objects@) =~= total);
                    return Ok(objects);
                }
                let class_line = trim_chars(&ls[i + 1]);
                match between_chars(&class_line, "class ", ':') {
                    Some(name) => {
                        i = read_python_dataclass(&ls, i + 2, name, is_frozen, &mut objects);
                    },
                    Option::None => {
                        i = i + 2;
                    },
                }
            } else {
                let class_rest = strip_prefix_str(&trimmed, "class ");
                let ends_colon = ends_with_char(&trimmed, ':');
                let is_enum = contains_str(&trimmed, "(Enum)");
                if class_rest.is_some() && is_enum && ends_colon {
                    let after = class_rest.unwrap();
                    let name_raw = before_char_chars(&after, '(');
                    let name = trim_chars(&name_raw);
                    let next = read_python_enum(&ls, i + 1, name, &mut objects);
                    i = next;
                } else if class_rest.is_some() && ends_colon && !is_enum {
                    let after = class_rest.unwrap();
                    proof {
                        reveal_strlit("class ");
                        lemma_longer_than_prefix(trimmed@, "class "@);
                    }
                    let name_raw = drop_last_chars(&after);
                    let name = trim_chars(&name_raw);
                    let next = read_python_class(&ls, i + 1, name, &mut objects);
                    i = next;
                } else {
                    i += 1;
                }
            }
        }
        Ok(objects)
    }
}

} // verus!
