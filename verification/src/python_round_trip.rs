use vstd::prelude::*;
use crate::oml_object::{
    ArrayKind, ObjectType, Pick, SpecOmlObject, SpecVariable, VariableModifier, VariableVisibility,
    lemma_pick_len, pick,
};
use crate::chars::{
    after_prefix, before_char, contains_seq, first_index, is_ident_char, is_line, is_word, is_ws,
    lemma_first_index_at, lemma_lacks_concat, lemma_not_starts_with, lemma_starts_with_concat,
    lemma_trim_start_after_ws, lemma_trim_unchanged, occurs_at, starts_with, trim, trim_start,
    lemma_unlines_add, lemma_unlines_one, unlines,
};
use crate::laws::law_python_type_round_trip;
use crate::round_trip::{lemma_ident_not_ws, lemma_trim_word, lemma_word_not_starts_with};
use crate::generators::python::{
    py_enum_members, py_enum_text, py_regular_class_text, py_file, py_import_lines, py_imports,
    py_is_dataclass, py_objects_text, py_typing_names, all_const, py_classvars,
    py_data_class_text, py_optional_fields, py_required_fields, py_type, py_type_annotation,
};
use crate::generators::python_reverse::{
    PythonReading, python_objects, python_read, between, py_decorator, py_class_ends,
    py_class_member, py_enum_ends, py_enum_member, py_indented, oml_of_python_type,
    py_dataclass_ends, py_dataclass_member, python_name_and_type, python_type,
};
use crate::reading::{read_object, read_var, variant_var};
use crate::generate::{GenerateError, has_undecided};
use crate::text::{decimal, str_upper};
use crate::python_class_round_trip::{
    lemma_class_head, lemma_init_line, lemma_init_vars_round_trip, lemma_read_regular, lemma_regular_junk,
    py_class_inert_lines, py_init_line, py_init_vars, py_regular_lines, python_class_read_back,
    python_class_round_trips,
};

verus! {

// ---------------------------------------------------------------- types

/// Whether a variable reads back from a Python dataclass: its name and type
/// are words, and its type is one of `int32`, `double`, `bool` and `string`
/// or a name that Python writes unchanged and does not read as another.
pub open spec fn python_var_round_trips(v: SpecVariable) -> bool {
    &&& is_word(v.name)
    &&& is_word(v.var_type)
    &&& (v.var_type == "int32"@ || v.var_type == "double"@ || v.var_type == "bool"@ || v.var_type == "string"@
        || (py_type(v.var_type) == v.var_type && oml_of_python_type(v.var_type) == v.var_type))
}

/// The array kind that a Python type reads back as: every array is a list.
pub open spec fn python_read_kind(k: ArrayKind) -> ArrayKind {
    match k {
        ArrayKind::Scalar => ArrayKind::Scalar,
        _ => ArrayKind::Dynamic,
    }
}

/// The Python spelling of a word is a word.
pub(crate) proof fn lemma_py_type_word(t: Seq<char>)
    requires
        is_word(t),
    ensures
        is_word(py_type(t)),
{
    reveal_strlit("int");
    reveal_strlit("float");
    reveal_strlit("bool");
    reveal_strlit("str");
}

/// The facts about the Python type written for a variable that reading it
/// back needs.
#[verifier::spinoff_prover]
pub(crate) proof fn lemma_python_annotation(v: SpecVariable)
    requires
        python_var_round_trips(v),
    ensures
        python_type(py_type_annotation(v.var_type, v.array_kind)) == (v.var_type, python_read_kind(v.array_kind)),
        py_type_annotation(v.var_type, v.array_kind).len() > 0,
        is_ident_char(py_type_annotation(v.var_type, v.array_kind)[0]),
        !is_ws(py_type_annotation(v.var_type, v.array_kind).last()),
        trim(py_type_annotation(v.var_type, v.array_kind)) == py_type_annotation(v.var_type, v.array_kind),
        !py_type_annotation(v.var_type, v.array_kind).contains('\n'),
        !py_type_annotation(v.var_type, v.array_kind).contains(':'),
        !py_type_annotation(v.var_type, v.array_kind).contains('='),
        !starts_with(py_type_annotation(v.var_type, v.array_kind), "ClassVar["@),
        !starts_with(py_type_annotation(v.var_type, v.array_kind), "Optional["@),
{
    let t = v.var_type;
    let r = py_type(t);
    lemma_py_type_word(t);
    law_python_type_round_trip(t);
    lemma_trim_word(r);
    reveal_strlit("list[");
    reveal_strlit("]");
    reveal_strlit("Optional[");
    reveal_strlit("ClassVar[");
    let a = py_type_annotation(t, v.array_kind);
    crate::chars::lemma_word_lacks(r, '\n');
    crate::chars::lemma_word_lacks(r, ':');
    crate::chars::lemma_word_lacks(r, '=');
    lemma_word_not_starts_with(r, "list["@, 4);
    lemma_word_not_starts_with(r, "Optional["@, 8);
    lemma_word_not_starts_with(r, "ClassVar["@, 8);
    match v.array_kind {
        ArrayKind::Scalar => {
            assert(a == r);
            lemma_ident_not_ws(r[0]);
            lemma_ident_not_ws(r.last());
        },
        _ => {
            assert(a =~= "list["@ + (r + seq![']']));
            lemma_starts_with_concat("list["@, r + seq![']']);
            assert((r + seq![']']).drop_last() =~= r);
            lemma_not_starts_with(a, "Optional["@, 0);
            lemma_not_starts_with(a, "ClassVar["@, 0);
            assert(a.last() == ']');
            assert(a[0] == 'l');
            lemma_trim_unchanged(a);
            assert forall|c: char| c == '\n' || c == ':' || c == '=' implies !a.contains(c) by {
                crate::chars::lemma_word_lacks(r, c);
                lemma_lacks_concat(r, seq![']'], c);
                assert(!"list["@.contains(c)) by {
                    if "list["@.contains(c) {
                        let k = choose|k: int| 0 <= k < 5 && "list["@[k] == c;
                    }
                }
                lemma_lacks_concat("list["@, r + seq![']'], c);
            }
        },
    }
}

// ---------------------------------------------------------------- dataclass fields

/// A text whose only `:` is at `c` holds a text that begins with `:` only
/// where it occurs at `c`.
proof fn lemma_one_colon(s: Seq<char>, p: Seq<char>, c: int)
    requires
        p.len() > 0,
        p[0] == ':',
        forall|j: int| 0 <= j < s.len() && j != c ==> s[j] != ':',
    ensures
        contains_seq(s, p) <==> occurs_at(s, p, c),
{
    if contains_seq(s, p) {
        let i = choose|i: int| occurs_at(s, p, i);
        assert(s.subrange(i, i + p.len())[0] == s[i]);
        assert(i == c);
    }
}

/// The line of a dataclass that declares a class variable.
pub open spec fn py_classvar_line(v: SpecVariable) -> Seq<char> {
    "\t"@ + v.name + ": ClassVar["@ + py_type_annotation(v.var_type, v.array_kind) + "]"@
}

/// The line of a dataclass that declares a required field.
pub open spec fn py_field_line(v: SpecVariable) -> Seq<char> {
    "\t"@ + v.name + ": "@ + py_type_annotation(v.var_type, v.array_kind)
}

/// The line of a dataclass that declares an optional field.
pub open spec fn py_optional_line(v: SpecVariable) -> Seq<char> {
    "\t"@ + v.name + ": Optional["@ + py_type_annotation(v.var_type, v.array_kind) + "] = None"@
}

/// What the reader of a dataclass gives back for a class variable: a private
/// `STATIC` variable of its type, kind of array and name.
pub open spec fn py_read_back_classvar(v: SpecVariable) -> SpecVariable {
    read_var(seq![VariableModifier::STATIC], VariableVisibility::PRIVATE, v.var_type, python_read_kind(v.array_kind), v.name)
}

/// The modifiers the reader of a dataclass gives its fields: `CONST` in a
/// frozen one.
pub open spec fn py_frozen_mods(frozen: bool) -> Seq<VariableModifier> {
    if frozen { seq![VariableModifier::CONST] } else { Seq::empty() }
}

/// What the reader of a dataclass gives back for a field: a private variable
/// of its type, kind of array and name, `CONST` in a frozen dataclass and
/// `OPTIONAL` where `optional` holds.
pub open spec fn py_read_back_field(v: SpecVariable, frozen: bool, optional: bool) -> SpecVariable {
    read_var(
        if optional { py_frozen_mods(frozen).push(VariableModifier::OPTIONAL) } else { py_frozen_mods(frozen) },
        VariableVisibility::PRIVATE,
        v.var_type,
        python_read_kind(v.array_kind),
        v.name,
    )
}

/// `name: rest`, where `rest` begins and ends with no whitespace and the
/// name is a word, is read as that name and `rest`.
proof fn lemma_py_name_and_type(n: Seq<char>, rest: Seq<char>)
    requires
        is_word(n),
        rest.len() > 0,
        !is_ws(rest[0]),
        !is_ws(rest.last()),
    ensures
        python_name_and_type(n + ": "@ + rest) == Some((n, rest)),
        first_index(n + ": "@ + rest, ':') == Some(n.len() as int),
{
    reveal_strlit(": ");
    let l = n + ": "@ + rest;
    crate::chars::lemma_word_lacks(n, ':');
    assert(l =~= n + seq![':'] + (seq![' '] + rest));
    lemma_first_index_at(n, ':', seq![' '] + rest);
    assert(l.take(n.len() as int) =~= n);
    assert(l.skip(n.len() as int + 1) =~= seq![' '] + rest);
    lemma_trim_word(n);
    lemma_trim_start_after_ws(seq![' '], rest);
    lemma_trim_unchanged(rest);
    assert(trim_start(rest) == rest);
}

/// The facts about an indented line of a dataclass body that reading it needs.
proof fn lemma_py_body_line(core: Seq<char>)
    requires
        core.len() > 0,
        !is_ws(core[0]),
        !is_ws(core.last()),
        !core.contains('\n'),
    ensures
        is_line(seq!['\t'] + core),
        trim(seq!['\t'] + core) == core,
        !py_dataclass_ends(seq!['\t'] + core),
{
    reveal_strlit("\t");
    lemma_trim_start_after_ws(seq!['\t'], core);
    lemma_trim_unchanged(core);
    lemma_starts_with_concat("\t"@, core);
    assert("\t"@ =~= seq!['\t']);
    lemma_lacks_concat(seq!['\t'], core, '\n');
    assert((seq!['\t'] + core).last() == core.last());
}

/// A word is not `pass` once a colon follows it.
proof fn lemma_not_pass(n: Seq<char>, rest: Seq<char>)
    requires
        is_word(n),
        rest.len() > 0,
        rest[0] == ':',
    ensures
        n + rest != "pass"@,
{
    reveal_strlit("pass");
    let l = n + rest;
    assert(l[n.len() as int] == ':');
    if l == "pass"@ {
        assert("pass"@.len() == 4);
        assert(n.len() < 4);
        assert("pass"@[0] == 'p' && "pass"@[1] == 'a' && "pass"@[2] == 's' && "pass"@[3] == 's');
        assert("pass"@[n.len() as int] == ':');
    }
}

/// Reading back the line that declares a class variable gives it back.
#[verifier::spinoff_prover]
#[verifier::rlimit(50)]
proof fn lemma_py_classvar_line(v: SpecVariable, frozen: bool)
    requires
        python_var_round_trips(v),
    ensures
        py_classvar_line(v) == seq!['\t'] + (v.name + ": ClassVar["@ + py_type_annotation(v.var_type, v.array_kind) + "]"@),
        is_line(py_classvar_line(v)),
        !py_dataclass_ends(py_classvar_line(v)),
        py_dataclass_member(trim(py_classvar_line(v)), frozen) == seq![py_read_back_classvar(v)],
{
    reveal_strlit("\t");
    reveal_strlit(": ClassVar[");
    reveal_strlit(": ");
    reveal_strlit("ClassVar[");
    reveal_strlit("]");
    let n = v.name;
    let a = py_type_annotation(v.var_type, v.array_kind);
    lemma_python_annotation(v);
    let rest = "ClassVar["@ + a + "]"@;
    let core = n + ": ClassVar["@ + a + "]"@;
    assert(core =~= n + ": "@ + rest);
    assert(py_classvar_line(v) =~= seq!['\t'] + core);
    crate::chars::lemma_word_lacks(n, '\n');
    assert(!rest.contains('\n')) by {
        assert(!"ClassVar["@.contains('\n')) by {
            if "ClassVar["@.contains('\n') {
                let k = choose|k: int| 0 <= k < 9 && "ClassVar["@[k] == '\n';
            }
        }
        lemma_lacks_concat("ClassVar["@, a, '\n');
        lemma_lacks_concat("ClassVar["@ + a, "]"@, '\n');
    }
    assert(!": "@.contains('\n')) by {
        if ": "@.contains('\n') {
            let k = choose|k: int| 0 <= k < 2 && ": "@[k] == '\n';
        }
    }
    lemma_lacks_concat(n, ": "@, '\n');
    lemma_lacks_concat(n + ": "@, rest, '\n');
    lemma_ident_not_ws(n[0]);
    assert(core[0] == n[0]);
    assert(core.last() == ']');
    lemma_py_body_line(core);
    lemma_not_pass(n, ": "@ + rest);
    assert(n + (": "@ + rest) =~= core);
    assert(occurs_at(core, ": ClassVar["@, n.len() as int)) by {
        assert(core.subrange(n.len() as int, n.len() as int + 11) =~= ": ClassVar["@);
    }
    lemma_py_name_and_type(n, rest);
    lemma_starts_with_concat("ClassVar["@, a + "]"@);
    assert(rest =~= "ClassVar["@ + (a + "]"@));
    assert((a + "]"@).drop_last() =~= a);
    assert(between(rest, "ClassVar["@, ']') == Some(a));
}

/// Reading back the line that declares a required field gives it back.
#[verifier::spinoff_prover]
#[verifier::rlimit(50)]
proof fn lemma_py_field_line(v: SpecVariable, frozen: bool)
    requires
        python_var_round_trips(v),
    ensures
        py_field_line(v) == seq!['\t'] + (v.name + ": "@ + py_type_annotation(v.var_type, v.array_kind)),
        is_line(py_field_line(v)),
        !py_dataclass_ends(py_field_line(v)),
        py_dataclass_member(trim(py_field_line(v)), frozen) == seq![py_read_back_field(v, frozen, false)],
{
    reveal_strlit("\t");
    reveal_strlit(": ");
    reveal_strlit(": ClassVar[");
    reveal_strlit(": Optional[");
    reveal_strlit("ClassVar[");
    reveal_strlit("Optional[");
    reveal_strlit("def ");
    reveal_strlit("@");
    let n = v.name;
    let a = py_type_annotation(v.var_type, v.array_kind);
    lemma_python_annotation(v);
    let core = n + ": "@ + a;
    let c = n.len() as int;
    assert(py_field_line(v) =~= seq!['\t'] + core);
    crate::chars::lemma_word_lacks(n, '\n');
    crate::chars::lemma_word_lacks(n, ':');
    assert(!": "@.contains('\n')) by {
        if ": "@.contains('\n') {
            let k = choose|k: int| 0 <= k < 2 && ": "@[k] == '\n';
        }
    }
    lemma_lacks_concat(n, ": "@, '\n');
    lemma_lacks_concat(n + ": "@, a, '\n');
    lemma_ident_not_ws(n[0]);
    assert(core[0] == n[0]);
    assert(core.last() == a.last());
    lemma_py_body_line(core);
    lemma_not_pass(n, ": "@ + a);
    assert(n + (": "@ + a) =~= core);
    // the only colon follows the name
    assert forall|j: int| 0 <= j < core.len() && j != c implies core[j] != ':' by {
        if j < c {
            assert(core[j] == n[j]);
        } else if j == c + 1 {
        } else {
            assert(core[j] == a[j - c - 2]);
        }
    }
    lemma_one_colon(core, ": ClassVar["@, c);
    lemma_one_colon(core, ": Optional["@, c);
    lemma_one_colon(core, ": "@, c);
    if occurs_at(core, ": ClassVar["@, c) {
        assert(a.take(9) =~= "ClassVar["@) by {
            assert forall|m: int| 0 <= m < 9 implies a[m] == "ClassVar["@[m] by {
                assert(core.subrange(c, c + 11)[m + 2] == core[c + 2 + m]);
                assert(core[c + 2 + m] == a[m]);
            }
        }
    }
    if occurs_at(core, ": Optional["@, c) {
        assert(a.take(9) =~= "Optional["@) by {
            assert forall|m: int| 0 <= m < 9 implies a[m] == "Optional["@[m] by {
                assert(core.subrange(c, c + 11)[m + 2] == core[c + 2 + m]);
                assert(core[c + 2 + m] == a[m]);
            }
        }
    }
    assert(occurs_at(core, ": "@, c)) by {
        assert(core.subrange(c, c + 2) =~= ": "@);
    }
    // the line is neither a method nor a decorator
    if c >= 4 {
        assert(core[3] == n[3]);
        lemma_not_starts_with(core, "def "@, 3);
    } else {
        assert(core[c] == ':');
        lemma_not_starts_with(core, "def "@, c);
    }
    lemma_not_starts_with(core, "@"@, 0);
    lemma_py_name_and_type(n, a);
}

/// Reading back the line that declares an optional field gives it back.
#[verifier::spinoff_prover]
#[verifier::rlimit(50)]
proof fn lemma_py_optional_line(v: SpecVariable, frozen: bool)
    requires
        python_var_round_trips(v),
    ensures
        py_optional_line(v) == seq!['\t'] + (v.name + ": Optional["@ + py_type_annotation(v.var_type, v.array_kind) + "] = None"@),
        is_line(py_optional_line(v)),
        !py_dataclass_ends(py_optional_line(v)),
        py_dataclass_member(trim(py_optional_line(v)), frozen) == seq![py_read_back_field(v, frozen, true)],
{
    reveal_strlit("\t");
    reveal_strlit(": ");
    reveal_strlit(": ClassVar[");
    reveal_strlit(": Optional[");
    reveal_strlit("Optional[");
    reveal_strlit("] = None");
    reveal_strlit("= None");
    let n = v.name;
    let a = py_type_annotation(v.var_type, v.array_kind);
    lemma_python_annotation(v);
    let rest = "Optional["@ + a + "] = None"@;
    let core = n + ": Optional["@ + a + "] = None"@;
    let c = n.len() as int;
    assert(core =~= n + ": "@ + rest);
    assert(py_optional_line(v) =~= seq!['\t'] + core);
    crate::chars::lemma_word_lacks(n, '\n');
    crate::chars::lemma_word_lacks(n, ':');
    assert forall|ch: char| ch == '\n' || ch == ':' || ch == '=' implies !"Optional["@.contains(ch) by {
        if "Optional["@.contains(ch) {
            let k = choose|k: int| 0 <= k < 9 && "Optional["@[k] == ch;
        }
    }
    assert(!"] = None"@.contains('\n')) by {
        if "] = None"@.contains('\n') {
            let k = choose|k: int| 0 <= k < 8 && "] = None"@[k] == '\n';
        }
    }
    assert(!": "@.contains('\n')) by {
        if ": "@.contains('\n') {
            let k = choose|k: int| 0 <= k < 2 && ": "@[k] == '\n';
        }
    }
    lemma_lacks_concat("Optional["@, a, '\n');
    lemma_lacks_concat("Optional["@ + a, "] = None"@, '\n');
    lemma_lacks_concat(n, ": "@, '\n');
    lemma_lacks_concat(n + ": "@, rest, '\n');
    lemma_ident_not_ws(n[0]);
    assert(core[0] == n[0]);
    assert(core.last() == 'e');
    lemma_py_body_line(core);
    lemma_not_pass(n, ": "@ + rest);
    assert(n + (": "@ + rest) =~= core);
    // the only colon follows the name
    assert forall|j: int| 0 <= j < core.len() && j != c implies core[j] != ':' by {
        if j < c {
            assert(core[j] == n[j]);
        } else if j == c + 1 {
        } else if j < c + 11 {
            assert(core[j] == "Optional["@[j - c - 2]);
        } else if j < c + 11 + a.len() {
            assert(core[j] == a[j - c - 11]);
        } else {
            assert(core[j] == "] = None"@[j - c - 11 - a.len()]);
        }
    }
    lemma_one_colon(core, ": ClassVar["@, c);
    lemma_one_colon(core, ": Optional["@, c);
    if occurs_at(core, ": ClassVar["@, c) {
        assert(core.subrange(c, c + 11)[2] == core[c + 2]);
    }
    assert(occurs_at(core, ": Optional["@, c)) by {
        assert(core.subrange(c, c + 11) =~= ": Optional["@);
    }
    assert(occurs_at(core, "= None"@, core.len() - 6)) by {
        assert(core.subrange(core.len() - 6, core.len() as int) =~= "= None"@);
    }
    // the field
    lemma_py_name_and_type(n, rest);
    reveal_strlit("] ");
    reveal_strlit("]");
    let pre = "Optional["@ + a + "] "@;
    assert(rest =~= pre + seq!['='] + seq![' ', 'N', 'o', 'n', 'e']);
    assert(!pre.contains('=')) by {
        assert(!"] "@.contains('=')) by {
            if "] "@.contains('=') {
                let k = choose|k: int| 0 <= k < 2 && "] "@[k] == '=';
            }
        }
        lemma_lacks_concat("Optional["@, a, '=');
        lemma_lacks_concat("Optional["@ + a, "] "@, '=');
    }
    lemma_first_index_at(pre, '=', seq![' ', 'N', 'o', 'n', 'e']);
    assert(rest.take(pre.len() as int) =~= pre);
    assert(before_char(rest, '=') == pre);
    let inner = "Optional["@ + a + "]"@;
    assert(pre =~= inner + seq![' ']);
    assert(pre.drop_last() =~= inner);
    assert(inner[0] == 'O');
    assert(inner.last() == ']');
    lemma_trim_unchanged(inner);
    assert(crate::chars::trim_end(pre) == crate::chars::trim_end(inner));
    assert(trim_start(pre) == pre);
    assert(trim(pre) == inner);
    lemma_starts_with_concat("Optional["@, a + "]"@);
    assert(inner =~= "Optional["@ + (a + "]"@));
    assert((a + "]"@).drop_last() =~= a);
    assert(between(inner, "Optional["@, ']') == Some(a));
}

// ---------------------------------------------------------------- dataclasses

/// Whether a dataclass is frozen: it has instance variables and all of them
/// are `const`.
pub open spec fn py_frozen(o: SpecOmlObject) -> bool {
    let inst = pick(o.variables, Pick::Instance);
    inst.len() > 0 && all_const(inst)
}

/// Whether an object reads back from a Python dataclass: a class or struct
/// with a word as its name whose variables all read back.
pub open spec fn python_round_trips(o: SpecOmlObject) -> bool {
    &&& (o.oml_type == ObjectType::CLASS || o.oml_type == ObjectType::STRUCT)
    &&& is_word(o.name)
    &&& forall|j: int| 0 <= j < o.variables.len() ==> python_var_round_trips(#[trigger] o.variables[j])
}

/// What the reader gives back for a dataclass: a class of the same name
/// with its class variables (its static variables), then its required
/// fields, then its optional ones, each read back.
pub open spec fn python_read_back(o: SpecOmlObject) -> SpecOmlObject {
    let inst = pick(o.variables, Pick::Instance);
    let fz = py_frozen(o);
    read_object(
        ObjectType::CLASS,
        o.name,
        pick(o.variables, Pick::Static).map_values(|v: SpecVariable| py_read_back_classvar(v))
            + pick(inst, Pick::Required).map_values(|v: SpecVariable| py_read_back_field(v, fz, false))
            + pick(inst, Pick::Optional).map_values(|v: SpecVariable| py_read_back_field(v, fz, true)),
    )
}

/// The decorator line of a dataclass.
pub open spec fn py_decorator_line(o: SpecOmlObject) -> Seq<char> {
    if py_frozen(o) { "@dataclass(frozen=True)"@ } else { "@dataclass"@ }
}

/// The lines of the body of a dataclass.
pub open spec fn py_body_lines(o: SpecOmlObject) -> Seq<Seq<char>> {
    let inst = pick(o.variables, Pick::Instance);
    if o.variables.len() == 0 {
        seq!["\tpass"@]
    } else {
        pick(o.variables, Pick::Static).map_values(|v: SpecVariable| py_classvar_line(v))
            + pick(inst, Pick::Required).map_values(|v: SpecVariable| py_field_line(v))
            + pick(inst, Pick::Optional).map_values(|v: SpecVariable| py_optional_line(v))
    }
}

/// The lines of a dataclass.
pub open spec fn py_dataclass_lines(o: SpecOmlObject) -> Seq<Seq<char>> {
    seq![py_decorator_line(o), "class "@ + o.name + ":"@] + py_body_lines(o)
}

proof fn lemma_py_pick_round_trip(vars: Seq<SpecVariable>, p: Pick)
    requires
        forall|k: int| 0 <= k < vars.len() ==> python_var_round_trips(#[trigger] vars[k]),
    ensures
        forall|k: int| 0 <= k < pick(vars, p).len() ==> python_var_round_trips(#[trigger] pick(vars, p)[k]),
    decreases vars.len(),
{
    if vars.len() > 0 {
        let init = vars.drop_last();
        assert forall|k: int| 0 <= k < init.len() implies python_var_round_trips(#[trigger] init[k]) by {
            assert(init[k] == vars[k]);
        }
        lemma_py_pick_round_trip(init, p);
        assert(python_var_round_trips(vars.last()));
        assert forall|k: int| 0 <= k < pick(vars, p).len() implies python_var_round_trips(#[trigger] pick(vars, p)[k]) by {
            if k < pick(init, p).len() {
                assert(pick(vars, p)[k] == pick(init, p)[k]);
            }
        }
    }
}

proof fn lemma_classvars_text(vars: Seq<SpecVariable>)
    ensures
        py_classvars(vars) == unlines(vars.map_values(|v: SpecVariable| py_classvar_line(v))),
    decreases vars.len(),
{
    let m = vars.map_values(|v: SpecVariable| py_classvar_line(v));
    if vars.len() == 0 {
        assert(m =~= Seq::<Seq<char>>::empty());
    } else {
        lemma_classvars_text(vars.drop_last());
        let v = vars.last();
        assert(m =~= vars.drop_last().map_values(|v: SpecVariable| py_classvar_line(v)) + seq![py_classvar_line(v)]);
        lemma_unlines_add(vars.drop_last().map_values(|v: SpecVariable| py_classvar_line(v)), seq![py_classvar_line(v)]);
        lemma_unlines_one(py_classvar_line(v));
        reveal_strlit("]\n");
        reveal_strlit("]");
        assert(py_classvars(vars) =~= py_classvars(vars.drop_last()) + (py_classvar_line(v) + seq!['\n']));
    }
}

proof fn lemma_fields_text(vars: Seq<SpecVariable>)
    ensures
        py_required_fields(vars) == unlines(vars.map_values(|v: SpecVariable| py_field_line(v))),
        py_optional_fields(vars) == unlines(vars.map_values(|v: SpecVariable| py_optional_line(v))),
    decreases vars.len(),
{
    let m = vars.map_values(|v: SpecVariable| py_field_line(v));
    let o = vars.map_values(|v: SpecVariable| py_optional_line(v));
    if vars.len() == 0 {
        assert(m =~= Seq::<Seq<char>>::empty());
        assert(o =~= Seq::<Seq<char>>::empty());
    } else {
        lemma_fields_text(vars.drop_last());
        let v = vars.last();
        assert(m =~= vars.drop_last().map_values(|v: SpecVariable| py_field_line(v)) + seq![py_field_line(v)]);
        assert(o =~= vars.drop_last().map_values(|v: SpecVariable| py_optional_line(v)) + seq![py_optional_line(v)]);
        lemma_unlines_add(vars.drop_last().map_values(|v: SpecVariable| py_field_line(v)), seq![py_field_line(v)]);
        lemma_unlines_add(vars.drop_last().map_values(|v: SpecVariable| py_optional_line(v)), seq![py_optional_line(v)]);
        lemma_unlines_one(py_field_line(v));
        lemma_unlines_one(py_optional_line(v));
        reveal_strlit("\n");
        reveal_strlit("] = None\n");
        reveal_strlit("] = None");
        assert(py_required_fields(vars) =~= py_required_fields(vars.drop_last()) + (py_field_line(v) + seq!['\n']));
        assert(py_optional_fields(vars) =~= py_optional_fields(vars.drop_last()) + (py_optional_line(v) + seq!['\n']));
    }
}

/// The text of a dataclass is made of its lines.
#[verifier::spinoff_prover]
#[verifier::rlimit(50)]
proof fn lemma_dataclass_text(o: SpecOmlObject)
    ensures
        py_data_class_text(o) == unlines(py_dataclass_lines(o)),
{
    let inst = pick(o.variables, Pick::Instance);
    let st = pick(o.variables, Pick::Static);
    let req = pick(inst, Pick::Required);
    let opt = pick(inst, Pick::Optional);
    lemma_classvars_text(st);
    lemma_fields_text(req);
    lemma_fields_text(opt);
    let d = py_decorator_line(o);
    let c = "class "@ + o.name + ":"@;
    let b = py_body_lines(o);
    lemma_unlines_add(seq![d, c], b);
    lemma_unlines_add(seq![d], seq![c]);
    assert(seq![d] + seq![c] =~= seq![d, c]);
    lemma_unlines_one(d);
    lemma_unlines_one(c);
    reveal_strlit("@dataclass(frozen=True)\n");
    reveal_strlit("@dataclass\n");
    reveal_strlit("@dataclass(frozen=True)");
    reveal_strlit("@dataclass");
    reveal_strlit("class ");
    reveal_strlit(":\n");
    reveal_strlit(":");
    reveal_strlit("\tpass\n");
    reveal_strlit("\tpass");
    if o.variables.len() == 0 {
        lemma_unlines_one("\tpass"@);
    } else {
        let a1 = st.map_values(|v: SpecVariable| py_classvar_line(v));
        let a2 = req.map_values(|v: SpecVariable| py_field_line(v));
        let a3 = opt.map_values(|v: SpecVariable| py_optional_line(v));
        lemma_unlines_add(a1 + a2, a3);
        lemma_unlines_add(a1, a2);
    }
    assert(py_data_class_text(o) =~= (d + seq!['\n']) + (c + seq!['\n']) + unlines(b));
}

// ---------------------------------------------------------------- reading dataclasses

/// The line of a dataclass that declares `v` as a class variable (`kind`
/// 0), a required field (1) or an optional one (2).
pub open spec fn py_member_line(v: SpecVariable, kind: int) -> Seq<char> {
    if kind == 0 { py_classvar_line(v) } else if kind == 1 { py_field_line(v) } else { py_optional_line(v) }
}

/// What reading the line `py_member_line(v, kind)` gives back.
pub open spec fn py_member_read_back(v: SpecVariable, kind: int, frozen: bool) -> SpecVariable {
    if kind == 0 {
        py_read_back_classvar(v)
    } else if kind == 1 {
        py_read_back_field(v, frozen, false)
    } else {
        py_read_back_field(v, frozen, true)
    }
}

proof fn lemma_py_member(v: SpecVariable, kind: int, frozen: bool)
    requires
        python_var_round_trips(v),
    ensures
        is_line(py_member_line(v, kind)),
        !py_dataclass_ends(py_member_line(v, kind)),
        py_dataclass_member(trim(py_member_line(v, kind)), frozen) == seq![py_member_read_back(v, kind, frozen)],
{
    if kind == 0 {
        lemma_py_classvar_line(v, frozen);
    } else if kind == 1 {
        lemma_py_field_line(v, frozen);
    } else {
        lemma_py_optional_line(v, frozen);
    }
}

/// Reading the member lines of a dataclass.
proof fn lemma_read_members(
    ls: Seq<Seq<char>>,
    i: int,
    vs: Seq<SpecVariable>,
    kind: int,
    j: int,
    name: Seq<char>,
    frozen: bool,
    acc: Seq<SpecVariable>,
)
    requires
        0 <= i,
        0 <= j <= vs.len(),
        i + vs.len() <= ls.len(),
        forall|k: int| 0 <= k < vs.len() ==> ls[i + k] == py_member_line(#[trigger] vs[k], kind),
        forall|k: int| 0 <= k < vs.len() ==> python_var_round_trips(#[trigger] vs[k]),
    ensures
        python_read(ls, i + j, PythonReading::InDataclass {
            name,
            frozen,
            vars: acc + vs.take(j).map_values(|v: SpecVariable| py_member_read_back(v, kind, frozen)),
        }) == python_read(ls, i + vs.len(), PythonReading::InDataclass {
            name,
            frozen,
            vars: acc + vs.map_values(|v: SpecVariable| py_member_read_back(v, kind, frozen)),
        }),
    decreases vs.len() - j,
{
    if j < vs.len() {
        let v = vs[j];
        assert(python_var_round_trips(v));
        assert(ls[i + j] == py_member_line(v, kind));
        lemma_py_member(v, kind, frozen);
        let before = acc + vs.take(j).map_values(|v: SpecVariable| py_member_read_back(v, kind, frozen));
        assert(acc + vs.take(j + 1).map_values(|v: SpecVariable| py_member_read_back(v, kind, frozen))
            =~= before + seq![py_member_read_back(v, kind, frozen)]);
        lemma_read_members(ls, i, vs, kind, j + 1, name, frozen, acc);
    } else {
        assert(vs.take(j) =~= vs);
    }
}

/// Reading one section of the members of a dataclass.
proof fn lemma_read_section(ls: Seq<Seq<char>>, i: int, vs: Seq<SpecVariable>, kind: int, name: Seq<char>, frozen: bool, acc: Seq<SpecVariable>)
    requires
        0 <= i,
        i + vs.len() <= ls.len(),
        forall|k: int| 0 <= k < vs.len() ==> ls[i + k] == py_member_line(#[trigger] vs[k], kind),
        forall|k: int| 0 <= k < vs.len() ==> python_var_round_trips(#[trigger] vs[k]),
    ensures
        python_read(ls, i, PythonReading::InDataclass { name, frozen, vars: acc })
            == python_read(ls, i + vs.len(), PythonReading::InDataclass {
                name,
                frozen,
                vars: acc + vs.map_values(|v: SpecVariable| py_member_read_back(v, kind, frozen)),
            }),
{
    lemma_read_members(ls, i, vs, kind, 0, name, frozen, acc);
    assert(vs.take(0).map_values(|v: SpecVariable| py_member_read_back(v, kind, frozen)) =~= Seq::<SpecVariable>::empty());
    assert(acc + Seq::<SpecVariable>::empty() =~= acc);
}

/// The decorator line of a dataclass ends the body of the dataclass before
/// it, and is read as opening a dataclass with the class line after it.
#[verifier::spinoff_prover]
proof fn lemma_py_head(o: SpecOmlObject)
    requires
        is_word(o.name),
    ensures
        is_line(py_decorator_line(o)),
        is_line("class "@ + o.name + ":"@),
        trim(py_decorator_line(o)) == py_decorator_line(o),
        py_decorator(py_decorator_line(o)),
        (py_decorator_line(o) == "@dataclass(frozen=True)"@) == py_frozen(o),
        py_dataclass_ends(py_decorator_line(o)),
        py_class_ends(py_decorator_line(o)),
        py_class_member(py_decorator_line(o)) == Seq::<SpecVariable>::empty(),
        between(trim("class "@ + o.name + ":"@), "class "@, ':') == Some(o.name),
{
    reveal_strlit("def __init__(self");
    reveal_strlit("@dataclass(frozen=True)");
    reveal_strlit("@dataclass");
    reveal_strlit("class ");
    reveal_strlit(":");
    reveal_strlit("\t");
    reveal_strlit("    ");
    reveal_strlit("pass");
    let d = py_decorator_line(o);
    assert(d[0] == '@');
    assert(d.last() == (if py_frozen(o) { ')' } else { 's' }));
    lemma_trim_unchanged(d);
    assert("@dataclass"@ != "@dataclass(frozen=True)"@) by {
        assert("@dataclass"@.len() != "@dataclass(frozen=True)"@.len());
    }
    assert(!d.contains('\n')) by {
        if d.contains('\n') {
            let k = choose|k: int| 0 <= k < d.len() && d[k] == '\n';
        }
    }
    lemma_not_starts_with(d, "\t"@, 0);
    lemma_not_starts_with(d, "    "@, 0);
    assert(trim_start(d) == d);
    assert(d != "pass"@) by {
        assert(d[0] != "pass"@[0]);
    }
    lemma_not_starts_with(d, "def __init__(self"@, 0);
    let n = o.name;
    let c = "class "@ + n + ":"@;
    crate::chars::lemma_word_lacks(n, '\n');
    assert(!"class "@.contains('\n')) by {
        if "class "@.contains('\n') {
            let k = choose|k: int| 0 <= k < 6 && "class "@[k] == '\n';
        }
    }
    lemma_lacks_concat("class "@, n, '\n');
    lemma_lacks_concat("class "@ + n, ":"@, '\n');
    assert(c[0] == 'c');
    assert(c.last() == ':');
    lemma_trim_unchanged(c);
    assert(c =~= "class "@ + (n + ":"@));
    lemma_starts_with_concat("class "@, n + ":"@);
    assert((n + ":"@).drop_last() =~= n);
}

/// Reading the lines of a dataclass that reads back: the body stays open,
/// with its members read.
#[verifier::spinoff_prover]
#[verifier::rlimit(50)]
proof fn lemma_read_dataclass(ls: Seq<Seq<char>>, i: int, o: SpecOmlObject)
    requires
        python_round_trips(o),
        0 <= i,
        i + py_dataclass_lines(o).len() <= ls.len(),
        forall|k: int| 0 <= k < py_dataclass_lines(o).len() ==> ls[i + k] == #[trigger] py_dataclass_lines(o)[k],
    ensures
        python_read(ls, i, PythonReading::Outside) == python_read(ls, i + py_dataclass_lines(o).len(), PythonReading::InDataclass {
            name: o.name,
            frozen: py_frozen(o),
            vars: python_read_back(o).variables,
        }),
{
    let dl = py_dataclass_lines(o);
    let n = o.name;
    let fz = py_frozen(o);
    let inst = pick(o.variables, Pick::Instance);
    let st = pick(o.variables, Pick::Static);
    let req = pick(inst, Pick::Required);
    let opt = pick(inst, Pick::Optional);
    lemma_py_head(o);
    assert(ls[i] == dl[0]);
    assert(ls[i + 1] == dl[1]);
    let e = Seq::<SpecVariable>::empty();
    assert(python_read(ls, i, PythonReading::Outside)
        == python_read(ls, i + 2, PythonReading::InDataclass { name: n, frozen: fz, vars: e }));
    let rb = python_read_back(o).variables;
    if o.variables.len() == 0 {
        reveal_strlit("\tpass");
        reveal_strlit("pass");
        lemma_py_body_line("pass"@);
        assert("\tpass"@ =~= seq!['\t'] + "pass"@);
        assert(ls[i + 2] == dl[2]);
        assert(ls[i + 2] == "\tpass"@);
        assert(py_dataclass_member("pass"@, fz) == e);
        assert(e + e =~= e);
        assert(st.len() == 0 && inst.len() == 0);
        lemma_pick_len(inst, Pick::Required);
        lemma_pick_len(inst, Pick::Optional);
        assert(rb =~= e);
        assert(dl.len() == 3);
    } else {
        assert forall|k: int| 0 <= k < o.variables.len() implies python_var_round_trips(#[trigger] o.variables[k]) by {}
        lemma_py_pick_round_trip(o.variables, Pick::Static);
        lemma_py_pick_round_trip(o.variables, Pick::Instance);
        lemma_py_pick_round_trip(inst, Pick::Required);
        lemma_py_pick_round_trip(inst, Pick::Optional);
        let p1 = i + 2;
        assert forall|k: int| 0 <= k < st.len() implies ls[p1 + k] == py_member_line(#[trigger] st[k], 0) by {
            assert(dl[2 + k] == py_classvar_line(st[k]));
        }
        lemma_read_section(ls, p1, st, 0, n, fz, e);
        let a1 = e + st.map_values(|v: SpecVariable| py_member_read_back(v, 0, fz));
        let p2 = p1 + st.len();
        assert forall|k: int| 0 <= k < req.len() implies ls[p2 + k] == py_member_line(#[trigger] req[k], 1) by {
            assert(dl[2 + st.len() + k] == py_field_line(req[k]));
        }
        lemma_read_section(ls, p2, req, 1, n, fz, a1);
        let a2 = a1 + req.map_values(|v: SpecVariable| py_member_read_back(v, 1, fz));
        let p3 = p2 + req.len();
        assert forall|k: int| 0 <= k < opt.len() implies ls[p3 + k] == py_member_line(#[trigger] opt[k], 2) by {
            assert(dl[2 + st.len() + req.len() + k] == py_optional_line(opt[k]));
        }
        lemma_read_section(ls, p3, opt, 2, n, fz, a2);
        let a3 = a2 + opt.map_values(|v: SpecVariable| py_member_read_back(v, 2, fz));
        assert(st.map_values(|v: SpecVariable| py_member_read_back(v, 0, fz))
            =~= st.map_values(|v: SpecVariable| py_read_back_classvar(v)));
        assert(req.map_values(|v: SpecVariable| py_member_read_back(v, 1, fz))
            =~= req.map_values(|v: SpecVariable| py_read_back_field(v, fz, false)));
        assert(opt.map_values(|v: SpecVariable| py_member_read_back(v, 2, fz))
            =~= opt.map_values(|v: SpecVariable| py_read_back_field(v, fz, true)));
        assert(a3 =~= rb);
        assert(dl.len() == 2 + st.len() + req.len() + opt.len());
    }
}

// ---------------------------------------------------------------- files

/// Whether a line stands alone and, read outside any definition, opens none.
pub open spec fn py_outside_line(l: Seq<char>) -> bool {
    is_line(l) && !py_decorator(trim(l)) && !starts_with(trim(l), "class "@)
}

/// A line that begins with `c` (neither `@` nor `c` nor whitespace), ends
/// with no whitespace and holds no line break opens no definition.
proof fn lemma_py_outside(l: Seq<char>)
    requires
        l.len() > 0,
        l[0] == '#' || l[0] == 'f',
        !is_ws(l.last()),
        !l.contains('\n'),
    ensures
        py_outside_line(l),
{
    reveal_strlit("@dataclass");
    reveal_strlit("@dataclass(frozen=True)");
    reveal_strlit("class ");
    lemma_trim_unchanged(l);
    assert(l != "@dataclass"@) by {
        assert(l[0] != "@dataclass"@[0]);
    }
    assert(l != "@dataclass(frozen=True)"@) by {
        assert(l[0] != "@dataclass(frozen=True)"@[0]);
    }
    lemma_not_starts_with(l, "class "@, 0);
}

proof fn lemma_py_blank_outside()
    ensures
        py_outside_line(Seq::<char>::empty()),
        trim(Seq::<char>::empty()) == Seq::<char>::empty(),
{
    reveal_strlit("@dataclass");
    reveal_strlit("@dataclass(frozen=True)");
    reveal_strlit("class ");
    assert(Seq::<char>::empty() != "@dataclass"@) by {
        assert("@dataclass"@.len() > 0);
    }
    assert(Seq::<char>::empty() != "@dataclass(frozen=True)"@) by {
        assert("@dataclass(frozen=True)"@.len() > 0);
    }
}

/// Reading lines that open no definition.
proof fn lemma_read_py_outside(ls: Seq<Seq<char>>, i: int, n: int)
    requires
        0 <= i,
        0 <= n,
        i + n <= ls.len(),
        forall|k: int| i <= k < i + n ==> py_outside_line(#[trigger] ls[k]),
    ensures
        python_read(ls, i, PythonReading::Outside) == python_read(ls, i + n, PythonReading::Outside),
    decreases n,
{
    if n > 0 {
        assert(py_outside_line(ls[i]));
        lemma_read_py_outside(ls, i + 1, n - 1);
    }
}

/// The lines of the imports: each import, then an empty line; none where
/// there is no import.
pub open spec fn py_import_block(imports: Seq<Seq<char>>) -> Seq<Seq<char>> {
    if imports.len() == 0 { Seq::empty() } else { imports + seq![Seq::<char>::empty()] }
}

proof fn lemma_import_lines_text(imports: Seq<Seq<char>>)
    ensures
        py_import_lines(imports) == unlines(imports),
    decreases imports.len(),
{
    if imports.len() == 0 {
    } else {
        lemma_import_lines_text(imports.drop_last());
        lemma_unlines_add(imports.drop_last(), seq![imports.last()]);
        lemma_unlines_one(imports.last());
        assert(imports.drop_last() + seq![imports.last()] =~= imports);
        reveal_strlit("\n");
        assert(imports.last() + "\n"@ =~= imports.last() + seq!['\n']);
    }
}

#[verifier::spinoff_prover]
#[verifier::rlimit(50)]
proof fn lemma_imports(objs: Seq<SpecOmlObject>, use_data_class: bool)
    ensures
        (if py_imports(objs, use_data_class).len() == 0 {
            Seq::<char>::empty()
        } else {
            py_import_lines(py_imports(objs, use_data_class)) + "\n"@
        }) == unlines(py_import_block(py_imports(objs, use_data_class))),
        forall|k: int| 0 <= k < py_import_block(py_imports(objs, use_data_class)).len()
            ==> py_outside_line(#[trigger] py_import_block(py_imports(objs, use_data_class))[k]),
{
    let im = py_imports(objs, use_data_class);
    lemma_import_lines_text(im);
    reveal_strlit("from enum import Enum");
    reveal_strlit("from dataclasses import dataclass, field");
    reveal_strlit("from typing import ");
    reveal_strlit("ClassVar, Optional");
    reveal_strlit("ClassVar");
    reveal_strlit("Optional");
    reveal_strlit("\n");
    let l1 = "from enum import Enum"@;
    let l2 = "from dataclasses import dataclass, field"@;
    let names = py_typing_names(objs, use_data_class);
    let l3 = "from typing import "@ + names;
    assert(!l1.contains('\n')) by {
        if l1.contains('\n') {
            let k = choose|k: int| 0 <= k < l1.len() && l1[k] == '\n';
        }
    }
    assert(!l2.contains('\n')) by {
        if l2.contains('\n') {
            let k = choose|k: int| 0 <= k < l2.len() && l2[k] == '\n';
        }
    }
    assert(!"from typing import "@.contains('\n')) by {
        if "from typing import "@.contains('\n') {
            let k = choose|k: int| 0 <= k < 19 && "from typing import "@[k] == '\n';
        }
    }
    assert(!names.contains('\n')) by {
        if names.contains('\n') {
            let k = choose|k: int| 0 <= k < names.len() && names[k] == '\n';
        }
    }
    lemma_lacks_concat("from typing import "@, names, '\n');
    assert(l3[0] == 'f');
    assert(l3.last() == names.last());
    lemma_py_outside(l1);
    lemma_py_outside(l2);
    lemma_py_outside(l3);
    lemma_py_blank_outside();
    assert forall|k: int| 0 <= k < im.len() implies py_outside_line(#[trigger] im[k]) by {
        assert(im[k] == l1 || im[k] == l2 || im[k] == l3);
    }
    let blk = py_import_block(im);
    if im.len() > 0 {
        lemma_unlines_add(im, seq![Seq::<char>::empty()]);
        lemma_unlines_one(Seq::<char>::empty());
        assert(Seq::<char>::empty() + seq!['\n'] =~= "\n"@);
        assert forall|k: int| 0 <= k < blk.len() implies py_outside_line(#[trigger] blk[k]) by {
            if k < im.len() {
                assert(blk[k] == im[k]);
            } else {
                assert(blk[k] == Seq::<char>::empty());
            }
        }
    } else {
        assert(unlines(Seq::<Seq<char>>::empty()) == Seq::<char>::empty());
    }
}

/// Every line of a dataclass that reads back stands alone.
proof fn lemma_dataclass_lines_ok(o: SpecOmlObject)
    requires
        python_round_trips(o),
    ensures
        forall|k: int| 0 <= k < py_dataclass_lines(o).len() ==> is_line(#[trigger] py_dataclass_lines(o)[k]),
{
    lemma_py_head(o);
    let dl = py_dataclass_lines(o);
    let inst = pick(o.variables, Pick::Instance);
    let st = pick(o.variables, Pick::Static);
    let req = pick(inst, Pick::Required);
    let opt = pick(inst, Pick::Optional);
    assert forall|k: int| 0 <= k < o.variables.len() implies python_var_round_trips(#[trigger] o.variables[k]) by {}
    lemma_py_pick_round_trip(o.variables, Pick::Static);
    lemma_py_pick_round_trip(o.variables, Pick::Instance);
    lemma_py_pick_round_trip(inst, Pick::Required);
    lemma_py_pick_round_trip(inst, Pick::Optional);
    reveal_strlit("\tpass");
    assert forall|k: int| 0 <= k < dl.len() implies is_line(#[trigger] dl[k]) by {
        if k >= 2 {
            if o.variables.len() == 0 {
                assert(dl[k] == "\tpass"@);
                assert(!"\tpass"@.contains('\n')) by {
                    if "\tpass"@.contains('\n') {
                        let j = choose|j: int| 0 <= j < 5 && "\tpass"@[j] == '\n';
                    }
                }
            } else if k < 2 + st.len() {
                assert(dl[k] == py_classvar_line(st[k - 2]));
                lemma_py_member(st[k - 2], 0, false);
            } else if k < 2 + st.len() + req.len() {
                assert(dl[k] == py_field_line(req[k - 2 - st.len()]));
                lemma_py_member(req[k - 2 - st.len()], 1, false);
            } else {
                assert(dl[k] == py_optional_line(opt[k - 2 - st.len() - req.len()]));
                lemma_py_member(opt[k - 2 - st.len() - req.len()], 2, false);
            }
        }
    }
}

// ---------------------------------------------------------------- enums

/// Whether an enum reads back from Python: its name and the uppercase names
/// of its variants are words.
pub open spec fn python_enum_round_trips(o: SpecOmlObject) -> bool {
    &&& o.oml_type == ObjectType::ENUM
    &&& is_word(o.name)
    &&& forall|j: int| 0 <= j < o.variables.len() ==> is_word(str_upper((#[trigger] o.variables[j]).name))
}

/// What the reader gives back for an enum: an enum of the same name whose
/// variants are named by the uppercase names of its variables.
pub open spec fn python_enum_read_back(o: SpecOmlObject) -> SpecOmlObject {
    read_object(ObjectType::ENUM, o.name, o.variables.map_values(|v: SpecVariable| variant_var(str_upper(v.name))))
}

/// The line of the `k`-th member of an enum.
pub open spec fn py_enum_member_line(v: SpecVariable, k: nat) -> Seq<char> {
    "\t"@ + str_upper(v.name) + " = "@ + decimal(k)
}

/// The lines of the members of an enum.
pub open spec fn py_enum_member_lines(vars: Seq<SpecVariable>) -> Seq<Seq<char>>
    decreases vars.len(),
{
    if vars.len() == 0 {
        Seq::empty()
    } else {
        py_enum_member_lines(vars.drop_last()).push(py_enum_member_line(vars.last(), (vars.len() - 1) as nat))
    }
}

/// The lines of a Python enum.
pub open spec fn py_enum_lines(o: SpecOmlObject) -> Seq<Seq<char>> {
    seq!["class "@ + o.name + "(Enum):"@]
        + (if o.variables.len() == 0 { seq!["\tpass"@] } else { py_enum_member_lines(o.variables) })
}

proof fn lemma_enum_member_lines(vars: Seq<SpecVariable>)
    ensures
        py_enum_members(vars) == unlines(py_enum_member_lines(vars)),
        py_enum_member_lines(vars).len() == vars.len(),
        forall|k: int| 0 <= k < vars.len() ==> #[trigger] py_enum_member_lines(vars)[k] == py_enum_member_line(vars[k], k as nat),
    decreases vars.len(),
{
    if vars.len() > 0 {
        let init = vars.drop_last();
        lemma_enum_member_lines(init);
        let l = py_enum_member_line(vars.last(), (vars.len() - 1) as nat);
        let a = py_enum_member_lines(init);
        lemma_unlines_add(a, seq![l]);
        lemma_unlines_one(l);
        assert(a.push(l) == a + seq![l]);
        reveal_strlit("\n");
        assert(py_enum_members(vars) =~= py_enum_members(init) + (l + seq!['\n']));
        assert forall|k: int| 0 <= k < vars.len() implies #[trigger] py_enum_member_lines(vars)[k] == py_enum_member_line(vars[k], k as nat) by {
            if k < init.len() {
                assert(py_enum_member_lines(vars)[k] == a[k]);
                assert(init[k] == vars[k]);
            }
        }
    } else {
        assert(unlines(Seq::<Seq<char>>::empty()) == Seq::<char>::empty());
    }
}

/// The text of an enum is made of its lines.
proof fn lemma_py_enum_text(o: SpecOmlObject)
    ensures
        py_enum_text(o) == unlines(py_enum_lines(o)),
{
    lemma_enum_member_lines(o.variables);
    let h = "class "@ + o.name + "(Enum):"@;
    lemma_unlines_one(h);
    reveal_strlit("(Enum):\n");
    reveal_strlit("(Enum):");
    reveal_strlit("\tpass\n");
    reveal_strlit("\tpass");
    let b = if o.variables.len() == 0 { seq!["\tpass"@] } else { py_enum_member_lines(o.variables) };
    lemma_unlines_add(seq![h], b);
    lemma_unlines_one("\tpass"@);
    assert(py_enum_text(o) =~= (h + seq!['\n']) + unlines(b));
}

/// Reading back the line of an enum member gives the variant.
#[verifier::spinoff_prover]
proof fn lemma_py_enum_member(v: SpecVariable, k: nat)
    requires
        is_word(str_upper(v.name)),
    ensures
        is_line(py_enum_member_line(v, k)),
        !py_enum_ends(py_enum_member_line(v, k)),
        py_enum_member(trim(py_enum_member_line(v, k))) == seq![variant_var(str_upper(v.name))],
{
    reveal_strlit("\t");
    reveal_strlit(" = ");
    reveal_strlit("pass");
    let u = str_upper(v.name);
    let d = decimal(k);
    crate::laws::lemma_decimal_digits(k);
    let core = u + " = "@ + d;
    assert(py_enum_member_line(v, k) =~= seq!['\t'] + core);
    crate::chars::lemma_word_lacks(u, '\n');
    crate::chars::lemma_word_lacks(u, ' ');
    assert(!d.contains('\n')) by {
        if d.contains('\n') {
            let j = choose|j: int| 0 <= j < d.len() && d[j] == '\n';
            assert(crate::chars::is_digit(d[j]));
        }
    }
    assert(!" = "@.contains('\n')) by {
        if " = "@.contains('\n') {
            let j = choose|j: int| 0 <= j < 3 && " = "@[j] == '\n';
        }
    }
    lemma_lacks_concat(u, " = "@, '\n');
    lemma_lacks_concat(u + " = "@, d, '\n');
    lemma_ident_not_ws(u[0]);
    assert(core[0] == u[0]);
    assert(core.last() == d.last());
    assert(crate::chars::is_digit(d.last()));
    lemma_py_body_line(core);
    assert(!py_indented(seq!['\t'] + core) == false) by {
        lemma_starts_with_concat("\t"@, core);
        assert("\t"@ =~= seq!['\t']);
    }
    assert(core != "pass"@) by {
        assert(core[u.len() as int] == ' ');
        if core == "pass"@ {
            assert(u.len() < 4);
            assert("pass"@[u.len() as int] != ' ');
        }
    }
    let c = u.len() as int;
    assert(occurs_at(core, " = "@, c)) by {
        assert(core.subrange(c, c + 3) =~= " = "@);
    }
    assert forall|j: int| 0 <= j < c implies !occurs_at(core, " = "@, j) by {
        if occurs_at(core, " = "@, j) {
            assert(core.subrange(j, j + 3)[0] == core[j]);
            assert(core[j] == u[j]);
        }
    }
    crate::python_class_round_trip::lemma_find_from_at(core, " = "@, 0, c);
    assert(core.take(c) =~= u);
    crate::round_trip::lemma_trim_word(u);
}

/// The line that opens an enum is read as opening it, and ends the body of
/// the object before it.
#[verifier::spinoff_prover]
proof fn lemma_py_enum_head(n: Seq<char>)
    requires
        is_word(n),
    ensures
        is_line("class "@ + n + "(Enum):"@),
        trim("class "@ + n + "(Enum):"@) == "class "@ + n + "(Enum):"@,
        !py_decorator("class "@ + n + "(Enum):"@),
        starts_with("class "@ + n + "(Enum):"@, "class "@),
        contains_seq("class "@ + n + "(Enum):"@, "(Enum)"@),
        ("class "@ + n + "(Enum):"@).len() > 0,
        ("class "@ + n + "(Enum):"@).last() == ':',
        trim(before_char(after_prefix("class "@ + n + "(Enum):"@, "class "@), '(')) == n,
        py_class_ends("class "@ + n + "(Enum):"@),
        py_dataclass_ends("class "@ + n + "(Enum):"@),
        py_enum_ends("class "@ + n + "(Enum):"@),
        py_class_member("class "@ + n + "(Enum):"@) == Seq::<SpecVariable>::empty(),
{
    reveal_strlit("class ");
    reveal_strlit("(Enum):");
    reveal_strlit("(Enum)");
    reveal_strlit("@dataclass");
    reveal_strlit("@dataclass(frozen=True)");
    reveal_strlit("\t");
    reveal_strlit("    ");
    reveal_strlit("pass");
    reveal_strlit("def __init__(self");
    let h = "class "@ + n + "(Enum):"@;
    crate::chars::lemma_word_lacks(n, '\n');
    crate::chars::lemma_word_lacks(n, '(');
    assert(!"class "@.contains('\n')) by {
        if "class "@.contains('\n') {
            let j = choose|j: int| 0 <= j < 6 && "class "@[j] == '\n';
        }
    }
    assert(!"(Enum):"@.contains('\n')) by {
        if "(Enum):"@.contains('\n') {
            let j = choose|j: int| 0 <= j < 7 && "(Enum):"@[j] == '\n';
        }
    }
    lemma_lacks_concat("class "@, n, '\n');
    lemma_lacks_concat("class "@ + n, "(Enum):"@, '\n');
    assert(h[0] == 'c');
    assert(h.last() == ':');
    lemma_trim_unchanged(h);
    assert(h != "@dataclass"@) by {
        assert(h[0] != "@dataclass"@[0]);
    }
    assert(h != "@dataclass(frozen=True)"@) by {
        assert(h[0] != "@dataclass(frozen=True)"@[0]);
    }
    assert(h =~= "class "@ + (n + "(Enum):"@));
    lemma_starts_with_concat("class "@, n + "(Enum):"@);
    let c = 6 + n.len() as int;
    assert(occurs_at(h, "(Enum)"@, c)) by {
        assert(h.subrange(c, c + 6) =~= "(Enum)"@);
    }
    let a = n + "(Enum):"@;
    reveal_strlit("Enum):");
    assert("(Enum):"@ =~= seq!['('] + "Enum):"@);
    assert(a =~= n + seq!['('] + "Enum):"@);
    lemma_first_index_at(n, '(', "Enum):"@);
    assert(a.take(n.len() as int) =~= n);
    crate::round_trip::lemma_trim_word(n);
    lemma_not_starts_with(h, "\t"@, 0);
    lemma_not_starts_with(h, "    "@, 0);
    assert(trim_start(h) == h);
    assert(h != "pass"@) by {
        assert(h[0] != "pass"@[0]);
    }
    lemma_not_starts_with(h, "def __init__(self"@, 0);
}

/// Reading the members of an enum.
proof fn lemma_read_py_variants(ls: Seq<Seq<char>>, i: int, vars: Seq<SpecVariable>, j: int, name: Seq<char>)
    requires
        0 <= i,
        0 <= j <= vars.len(),
        i + vars.len() <= ls.len(),
        forall|k: int| 0 <= k < vars.len() ==> ls[i + k] == py_enum_member_line(#[trigger] vars[k], k as nat),
        forall|k: int| 0 <= k < vars.len() ==> is_word(str_upper((#[trigger] vars[k]).name)),
    ensures
        python_read(ls, i + j, PythonReading::InEnum {
            name,
            vars: vars.take(j).map_values(|v: SpecVariable| variant_var(str_upper(v.name))),
        }) == python_read(ls, i + vars.len(), PythonReading::InEnum {
            name,
            vars: vars.map_values(|v: SpecVariable| variant_var(str_upper(v.name))),
        }),
    decreases vars.len() - j,
{
    if j < vars.len() {
        let v = vars[j];
        assert(is_word(str_upper(v.name)));
        assert(ls[i + j] == py_enum_member_line(v, j as nat));
        lemma_py_enum_member(v, j as nat);
        assert(vars.take(j + 1).map_values(|v: SpecVariable| variant_var(str_upper(v.name)))
            =~= vars.take(j).map_values(|v: SpecVariable| variant_var(str_upper(v.name))) + seq![variant_var(str_upper(v.name))]);
        lemma_read_py_variants(ls, i, vars, j + 1, name);
    } else {
        assert(vars.take(j) =~= vars);
    }
}

/// Reading the lines of an enum that reads back: the body stays open, with
/// its variants read.
#[verifier::spinoff_prover]
#[verifier::rlimit(50)]
proof fn lemma_read_py_enum(ls: Seq<Seq<char>>, i: int, o: SpecOmlObject)
    requires
        python_enum_round_trips(o),
        0 <= i,
        i + py_enum_lines(o).len() <= ls.len(),
        forall|k: int| 0 <= k < py_enum_lines(o).len() ==> ls[i + k] == #[trigger] py_enum_lines(o)[k],
    ensures
        python_read(ls, i, PythonReading::Outside) == python_read(ls, i + py_enum_lines(o).len(), PythonReading::InEnum {
            name: o.name,
            vars: python_enum_read_back(o).variables,
        }),
        forall|k: int| 0 <= k < py_enum_lines(o).len() ==> is_line(#[trigger] py_enum_lines(o)[k]),
{
    let n = o.name;
    let vars = o.variables;
    let el = py_enum_lines(o);
    lemma_enum_member_lines(vars);
    lemma_py_enum_head(n);
    assert(ls[i] == el[0]);
    assert(el[0] == "class "@ + n + "(Enum):"@);
    let e = Seq::<SpecVariable>::empty();
    assert(python_read(ls, i, PythonReading::Outside) == python_read(ls, i + 1, PythonReading::InEnum { name: n, vars: e }));
    if vars.len() == 0 {
        reveal_strlit("\tpass");
        reveal_strlit("pass");
        lemma_py_body_line("pass"@);
        assert("\tpass"@ =~= seq!['\t'] + "pass"@);
        assert(ls[i + 1] == el[1]);
        assert(el[1] == "\tpass"@);
        assert(trim("\tpass"@) == "pass"@);
        assert(py_indented("\tpass"@)) by {
            reveal_strlit("\t");
            assert("\tpass"@.take(1) =~= "\t"@);
        }
        assert(e + e =~= e);
        assert(vars.map_values(|v: SpecVariable| variant_var(str_upper(v.name))) =~= e);
        assert(el.len() == 2);
        assert forall|k: int| 0 <= k < el.len() implies is_line(#[trigger] el[k]) by {
            if k == 1 {
                assert(el[k] == "\tpass"@);
            }
        }
    } else {
        let ml = py_enum_member_lines(vars);
        assert(el == seq!["class "@ + n + "(Enum):"@] + ml);
        assert forall|k: int| 0 <= k < vars.len() implies ls[i + 1 + k] == py_enum_member_line(#[trigger] vars[k], k as nat) by {
            assert(el[1 + k] == ml[k]);
        }
        assert forall|k: int| 0 <= k < vars.len() implies is_word(str_upper((#[trigger] vars[k]).name)) by {}
        lemma_read_py_variants(ls, i + 1, vars, 0, n);
        assert(vars.take(0).map_values(|v: SpecVariable| variant_var(str_upper(v.name))) =~= e);
        assert(el.len() == 1 + vars.len());
        assert forall|k: int| 0 <= k < el.len() implies is_line(#[trigger] el[k]) by {
            if k > 0 {
                assert(el[k] == ml[k - 1]);
                lemma_py_enum_member(vars[k - 1], (k - 1) as nat);
            }
        }
    }
}

// ---------------------------------------------------------------- objects

/// Whether an object is written as a regular class.
pub open spec fn py_is_regular(o: SpecOmlObject, use_data_class: bool) -> bool {
    o.oml_type != ObjectType::ENUM && !py_is_dataclass(o, use_data_class)
}

/// Whether an object reads back from Python: as an enum, as a dataclass
/// where it is written as one, else as a regular class.
pub open spec fn python_object_round_trips(o: SpecOmlObject, use_data_class: bool) -> bool {
    if o.oml_type == ObjectType::ENUM {
        python_enum_round_trips(o)
    } else if py_is_dataclass(o, use_data_class) {
        python_round_trips(o)
    } else {
        python_class_round_trips(o)
    }
}

/// What the reader gives back for an object written as an enum, a dataclass
/// or a regular class.
pub open spec fn python_object_read_back(o: SpecOmlObject, use_data_class: bool) -> SpecOmlObject {
    if o.oml_type == ObjectType::ENUM {
        python_enum_read_back(o)
    } else if py_is_dataclass(o, use_data_class) {
        python_read_back(o)
    } else {
        python_class_read_back(o)
    }
}

/// The lines of an object: an enum, a dataclass, or a regular class whose
/// lines before and after `__init__` are `w.0` and `w.1`.
pub open spec fn py_object_lines(o: SpecOmlObject, use_data_class: bool, w: (Seq<Seq<char>>, Seq<Seq<char>>)) -> Seq<Seq<char>> {
    if o.oml_type == ObjectType::ENUM {
        py_enum_lines(o)
    } else if py_is_dataclass(o, use_data_class) {
        py_dataclass_lines(o)
    } else {
        py_regular_lines(o, w.0, w.1)
    }
}

/// The lines of the objects, an empty line after each but the last (`total`
/// is the number of objects).
pub open spec fn py_objects_lines(
    objs: Seq<SpecOmlObject>,
    use_data_class: bool,
    ws: Seq<(Seq<Seq<char>>, Seq<Seq<char>>)>,
    total: nat,
) -> Seq<Seq<char>>
    decreases objs.len(),
{
    if objs.len() == 0 || ws.len() == 0 {
        Seq::empty()
    } else {
        py_objects_lines(objs.drop_last(), use_data_class, ws.drop_last(), total)
            + py_object_lines(objs.last(), use_data_class, ws.last())
            + (if objs.len() < total { seq![Seq::<char>::empty()] } else { Seq::<Seq<char>>::empty() })
    }
}

/// Whether `ws` holds, for each object written as a regular class, lines
/// that its reader passes over.
pub open spec fn py_ws_inert(objs: Seq<SpecOmlObject>, use_data_class: bool, ws: Seq<(Seq<Seq<char>>, Seq<Seq<char>>)>) -> bool {
    &&& ws.len() == objs.len()
    &&& forall|k: int| 0 <= k < objs.len() && py_is_regular(#[trigger] objs[k], use_data_class)
        ==> py_class_inert_lines(ws[k].0) && py_class_inert_lines(ws[k].1)
}

/// Whether `ws` holds, for each object written as a regular class, the
/// lines of its text before and after `__init__`.
pub open spec fn py_ws_ok(objs: Seq<SpecOmlObject>, use_data_class: bool, ws: Seq<(Seq<Seq<char>>, Seq<Seq<char>>)>) -> bool {
    &&& py_ws_inert(objs, use_data_class, ws)
    &&& forall|k: int| 0 <= k < objs.len() && py_is_regular(#[trigger] objs[k], use_data_class)
        ==> py_regular_class_text(objs[k]) == unlines(py_regular_lines(objs[k], ws[k].0, ws[k].1))
}

proof fn lemma_py_ws(objs: Seq<SpecOmlObject>, use_data_class: bool) -> (ws: Seq<(Seq<Seq<char>>, Seq<Seq<char>>)>)
    requires
        forall|k: int| 0 <= k < objs.len() ==> python_object_round_trips(#[trigger] objs[k], use_data_class),
    ensures
        py_ws_ok(objs, use_data_class, ws),
    decreases objs.len(),
{
    if objs.len() == 0 {
        Seq::empty()
    } else {
        let init = objs.drop_last();
        assert forall|k: int| 0 <= k < init.len() implies python_object_round_trips(#[trigger] init[k], use_data_class) by {
            assert(init[k] == objs[k]);
        }
        let w0 = lemma_py_ws(init, use_data_class);
        let o = objs.last();
        assert(python_object_round_trips(o, use_data_class));
        let w = if py_is_regular(o, use_data_class) {
            lemma_regular_junk(o)
        } else {
            (Seq::<Seq<char>>::empty(), Seq::<Seq<char>>::empty())
        };
        let ws = w0.push(w);
        assert forall|k: int| 0 <= k < objs.len() && py_is_regular(#[trigger] objs[k], use_data_class)
            implies py_class_inert_lines(ws[k].0) && py_class_inert_lines(ws[k].1)
                && py_regular_class_text(objs[k]) == unlines(py_regular_lines(objs[k], ws[k].0, ws[k].1)) by {
            if k < init.len() {
                assert(ws[k] == w0[k]);
                assert(objs[k] == init[k]);
            }
        }
        ws
    }
}

proof fn lemma_ws_init(objs: Seq<SpecOmlObject>, use_data_class: bool, ws: Seq<(Seq<Seq<char>>, Seq<Seq<char>>)>)
    requires
        objs.len() > 0,
        py_ws_inert(objs, use_data_class, ws),
        forall|k: int| 0 <= k < objs.len() ==> python_object_round_trips(#[trigger] objs[k], use_data_class),
    ensures
        py_ws_inert(objs.drop_last(), use_data_class, ws.drop_last()),
        forall|k: int| 0 <= k < objs.drop_last().len() ==> python_object_round_trips(#[trigger] objs.drop_last()[k], use_data_class),
        python_object_round_trips(objs.last(), use_data_class),
        py_is_regular(objs.last(), use_data_class) ==> py_class_inert_lines(ws.last().0) && py_class_inert_lines(ws.last().1),
{
    let init = objs.drop_last();
    let wi = ws.drop_last();
    assert forall|k: int| 0 <= k < init.len() && py_is_regular(#[trigger] init[k], use_data_class)
        implies py_class_inert_lines(wi[k].0) && py_class_inert_lines(wi[k].1) by {
        assert(wi[k] == ws[k]);
        assert(init[k] == objs[k]);
    }
    assert forall|k: int| 0 <= k < init.len() implies python_object_round_trips(#[trigger] init[k], use_data_class) by {
        assert(init[k] == objs[k]);
    }
    assert(objs.last() == objs[objs.len() - 1]);
}

/// Every line of a regular class that reads back stands alone.
proof fn lemma_regular_lines_ok(o: SpecOmlObject, pre: Seq<Seq<char>>, post: Seq<Seq<char>>)
    requires
        python_class_round_trips(o),
        py_class_inert_lines(pre),
        py_class_inert_lines(post),
    ensures
        forall|k: int| 0 <= k < py_regular_lines(o, pre, post).len() ==> is_line(#[trigger] py_regular_lines(o, pre, post)[k]),
{
    let rl = py_regular_lines(o, pre, post);
    lemma_class_head(o.name);
    lemma_init_vars_round_trip(o);
    lemma_init_line(py_init_vars(o));
    let il = seq!['\t'] + py_init_line(py_init_vars(o));
    lemma_lacks_concat(seq!['\t'], py_init_line(py_init_vars(o)), '\n');
    assert(il.last() == ':') by {
        reveal_strlit("):");
    }
    let mid: int = if pick(o.variables, Pick::Instance).len() > 0 { 1 } else { 0 };
    assert forall|k: int| 0 <= k < rl.len() implies is_line(#[trigger] rl[k]) by {
        if k == 0 {
        } else if k < 1 + pre.len() {
            assert(rl[k] == pre[k - 1]);
        } else if k < 1 + pre.len() + mid {
            assert(rl[k] == il);
        } else {
            assert(rl[k] == post[k - 1 - pre.len() - mid]);
        }
    }
}

proof fn lemma_py_objects_text(objs: Seq<SpecOmlObject>, use_data_class: bool, ws: Seq<(Seq<Seq<char>>, Seq<Seq<char>>)>, total: nat)
    requires
        forall|k: int| 0 <= k < objs.len() ==> python_object_round_trips(#[trigger] objs[k], use_data_class),
        py_ws_ok(objs, use_data_class, ws),
        objs.len() <= total,
    ensures
        py_objects_text(objs, total, use_data_class) == unlines(py_objects_lines(objs, use_data_class, ws, total)),
        forall|k: int| 0 <= k < py_objects_lines(objs, use_data_class, ws, total).len()
            ==> is_line(#[trigger] py_objects_lines(objs, use_data_class, ws, total)[k]),
    decreases objs.len(),
{
    if objs.len() == 0 {
        assert(unlines(Seq::<Seq<char>>::empty()) == Seq::<char>::empty());
    } else {
        let init = objs.drop_last();
        let wi = ws.drop_last();
        assert forall|k: int| 0 <= k < init.len() implies python_object_round_trips(#[trigger] init[k], use_data_class) by {
            assert(init[k] == objs[k]);
        }
        assert(py_ws_ok(init, use_data_class, wi)) by {
            assert forall|k: int| 0 <= k < init.len() && py_is_regular(#[trigger] init[k], use_data_class)
                implies py_class_inert_lines(wi[k].0) && py_class_inert_lines(wi[k].1)
                    && py_regular_class_text(init[k]) == unlines(py_regular_lines(init[k], wi[k].0, wi[k].1)) by {
                assert(wi[k] == ws[k]);
                assert(init[k] == objs[k]);
            }
        }
        lemma_py_objects_text(init, use_data_class, wi, total);
        let o = objs.last();
        let w = ws.last();
        assert(o == objs[objs.len() - 1] && w == ws[objs.len() - 1]);
        assert(python_object_round_trips(o, use_data_class));
        if o.oml_type == ObjectType::ENUM {
            lemma_py_enum_text(o);
            lemma_read_py_enum(py_enum_lines(o), 0, o);
        } else if py_is_dataclass(o, use_data_class) {
            lemma_dataclass_text(o);
            lemma_dataclass_lines_ok(o);
        } else {
            lemma_regular_lines_ok(o, w.0, w.1);
        }
        let a = py_objects_lines(init, use_data_class, wi, total);
        let b = py_object_lines(o, use_data_class, w);
        let c = if objs.len() < total { seq![Seq::<char>::empty()] } else { Seq::<Seq<char>>::empty() };
        assert(py_objects_lines(objs, use_data_class, ws, total) == a + b + c);
        lemma_unlines_add(a + b, c);
        lemma_unlines_add(a, b);
        lemma_unlines_one(Seq::<char>::empty());
        reveal_strlit("\n");
        assert(unlines(c) =~= (if objs.len() < total { "\n"@ } else { Seq::<char>::empty() }));
        assert forall|k: int| 0 <= k < (a + b + c).len() implies is_line(#[trigger] (a + b + c)[k]) by {
            if k < a.len() {
                assert((a + b + c)[k] == a[k]);
            } else if k < a.len() + b.len() {
                assert((a + b + c)[k] == b[k - a.len()]);
            } else {
                assert((a + b + c)[k] == Seq::<char>::empty());
            }
        }
    }
}

/// The reader in the body of the object `o`, with what it has read of it.
pub open spec fn py_in_object(o: SpecOmlObject, use_data_class: bool) -> PythonReading {
    if o.oml_type == ObjectType::ENUM {
        PythonReading::InEnum { name: o.name, vars: python_enum_read_back(o).variables }
    } else if py_is_dataclass(o, use_data_class) {
        PythonReading::InDataclass { name: o.name, frozen: py_frozen(o), vars: python_read_back(o).variables }
    } else {
        PythonReading::InClass { name: o.name, vars: python_class_read_back(o).variables }
    }
}

/// Reading the lines of an object that reads back: its body stays open.
proof fn lemma_read_py_object(ls: Seq<Seq<char>>, p: int, o: SpecOmlObject, use_data_class: bool, w: (Seq<Seq<char>>, Seq<Seq<char>>))
    requires
        python_object_round_trips(o, use_data_class),
        py_is_regular(o, use_data_class) ==> py_class_inert_lines(w.0) && py_class_inert_lines(w.1),
        0 <= p,
        p + py_object_lines(o, use_data_class, w).len() <= ls.len(),
        forall|k: int| 0 <= k < py_object_lines(o, use_data_class, w).len() ==> ls[p + k] == #[trigger] py_object_lines(o, use_data_class, w)[k],
    ensures
        python_read(ls, p, PythonReading::Outside)
            == python_read(ls, p + py_object_lines(o, use_data_class, w).len(), py_in_object(o, use_data_class)),
        py_object_lines(o, use_data_class, w).len() > 0,
        is_word(o.name),
{
    if o.oml_type == ObjectType::ENUM {
        lemma_read_py_enum(ls, p, o);
    } else if py_is_dataclass(o, use_data_class) {
        lemma_read_dataclass(ls, p, o);
    } else {
        lemma_read_regular(ls, p, o, w.0, w.1);
    }
}

/// An empty line and the first line of the next object end the body of an
/// object, which is then given back.
#[verifier::spinoff_prover]
#[verifier::rlimit(50)]
proof fn lemma_py_close_object(ls: Seq<Seq<char>>, p: int, prev: SpecOmlObject, o: SpecOmlObject, use_data_class: bool, w: (Seq<Seq<char>>, Seq<Seq<char>>))
    requires
        0 <= p,
        p + 1 < ls.len(),
        is_word(o.name),
        ls[p] == Seq::<char>::empty(),
        py_object_lines(o, use_data_class, w).len() > 0,
        ls[p + 1] == py_object_lines(o, use_data_class, w)[0],
    ensures
        python_read(ls, p, py_in_object(prev, use_data_class))
            == seq![python_object_read_back(prev, use_data_class)] + python_read(ls, p + 1, PythonReading::Outside),
{
    let first = py_object_lines(o, use_data_class, w)[0];
    if o.oml_type == ObjectType::ENUM {
        lemma_py_enum_head(o.name);
        assert(first == "class "@ + o.name + "(Enum):"@);
    } else if py_is_dataclass(o, use_data_class) {
        lemma_py_head(o);
        assert(first == py_decorator_line(o));
        reveal_strlit("(Enum)");
    } else {
        lemma_class_head(o.name);
        assert(first == "class "@ + o.name + ":"@);
    }
    assert(trim(first) == first);
    assert(py_class_ends(first) && py_dataclass_ends(first));
    assert(py_class_member(first) == Seq::<SpecVariable>::empty());
    let vars = python_object_read_back(prev, use_data_class).variables;
    assert(vars + Seq::<SpecVariable>::empty() =~= vars);
    reveal_strlit("pass");
    reveal_strlit(": ClassVar[");
    reveal_strlit(": Optional[");
    reveal_strlit(": ");
    reveal_strlit("def __init__(self");
    let e = Seq::<char>::empty();
    lemma_py_blank_outside();
    assert(e != "pass"@) by {
        assert("pass"@.len() == 4);
    }
    assert(!contains_seq(e, ": ClassVar["@));
    assert(!contains_seq(e, ": Optional["@));
    assert(!contains_seq(e, ": "@));
    assert(!starts_with(e, "def __init__(self"@));
    assert(python_read(ls, p, PythonReading::Outside) == python_read(ls, p + 1, PythonReading::Outside));
    if prev.oml_type == ObjectType::ENUM {
        assert(py_enum_ends(e));
    } else if py_is_dataclass(prev, use_data_class) {
        assert(!py_dataclass_ends(e));
        assert(py_dataclass_member(e, py_frozen(prev)) == Seq::<SpecVariable>::empty());
        assert(python_read(ls, p, py_in_object(prev, use_data_class)) == python_read(ls, p + 1, py_in_object(prev, use_data_class)));
        assert(py_dataclass_ends(ls[p + 1]));
    } else {
        assert(!py_class_ends(e));
        assert(python_read(ls, p, py_in_object(prev, use_data_class)) == python_read(ls, p + 1, py_in_object(prev, use_data_class)));
        assert(python_read(ls, p + 1, py_in_object(prev, use_data_class))
            == seq![read_object(ObjectType::CLASS, prev.name, vars + py_class_member(trim(first)))]
                + python_read(ls, p + 1, PythonReading::Outside));
    }
}

/// Reading the lines of objects that read back: each but the last is given
/// back where the next begins, and the body of the last stays open.
#[verifier::spinoff_prover]
#[verifier::rlimit(50)]
proof fn lemma_read_py_objects(
    ls: Seq<Seq<char>>,
    i: int,
    objs: Seq<SpecOmlObject>,
    use_data_class: bool,
    ws: Seq<(Seq<Seq<char>>, Seq<Seq<char>>)>,
    total: nat,
)
    requires
        objs.len() > 0,
        forall|k: int| 0 <= k < objs.len() ==> python_object_round_trips(#[trigger] objs[k], use_data_class),
        py_ws_inert(objs, use_data_class, ws),
        objs.len() <= total,
        0 <= i,
        i + py_objects_lines(objs, use_data_class, ws, total).len() <= ls.len(),
        forall|k: int| 0 <= k < py_objects_lines(objs, use_data_class, ws, total).len()
            ==> ls[i + k] == #[trigger] py_objects_lines(objs, use_data_class, ws, total)[k],
    ensures
        python_read(ls, i, PythonReading::Outside)
            == objs.drop_last().map_values(|o: SpecOmlObject| python_object_read_back(o, use_data_class))
                + python_read(
                    ls,
                    i + py_objects_lines(objs, use_data_class, ws, total).len() - (if objs.len() < total { 1int } else { 0int }),
                    py_in_object(objs.last(), use_data_class),
                ),
    decreases objs.len(),
{
    lemma_ws_init(objs, use_data_class, ws);
    let init = objs.drop_last();
    let wi = ws.drop_last();
    let o = objs.last();
    let w = ws.last();
    let a = py_objects_lines(init, use_data_class, wi, total);
    let b = py_object_lines(o, use_data_class, w);
    let c = if objs.len() < total { seq![Seq::<char>::empty()] } else { Seq::<Seq<char>>::empty() };
    let all = py_objects_lines(objs, use_data_class, ws, total);
    assert(all == a + b + c);
    let p = i + a.len();
    assert forall|k: int| 0 <= k < b.len() implies ls[p + k] == #[trigger] b[k] by {
        assert(all[a.len() + k] == b[k]);
    }
    lemma_read_py_object(ls, p, o, use_data_class, w);
    if init.len() == 0 {
        assert(a.len() == 0);
        assert(init.map_values(|o: SpecOmlObject| python_object_read_back(o, use_data_class)) =~= Seq::<SpecOmlObject>::empty());
    } else {
        assert forall|k: int| 0 <= k < a.len() implies ls[i + k] == #[trigger] a[k] by {
            assert(all[k] == a[k]);
        }
        lemma_read_py_objects(ls, i, init, use_data_class, wi, total);
        let prev = init.last();
        let p0 = p - 1;
        assert(a == py_objects_lines(init.drop_last(), use_data_class, wi.drop_last(), total)
            + py_object_lines(init.last(), use_data_class, wi.last()) + seq![Seq::<char>::empty()]);
        assert(ls[p0] == a[a.len() - 1]);
        assert(ls[p0] == Seq::<char>::empty());
        assert(ls[p0 + 1] == b[0]);
        lemma_py_close_object(ls, p0, prev, o, use_data_class, w);
        assert(objs.drop_last().map_values(|o: SpecOmlObject| python_object_read_back(o, use_data_class))
            =~= init.drop_last().map_values(|o: SpecOmlObject| python_object_read_back(o, use_data_class))
                + seq![python_object_read_back(prev, use_data_class)]);
    }
}

/// Reading back a Python file generated from enums, classes and structs gives
/// each of them back under the same name. An enum comes back as an enum whose
/// variants are named by the upper-case names of its variables. A class or
/// struct comes back as a class. One written as a dataclass (a
/// struct, or a class where dataclasses are asked for) comes back with its
/// class variables (its static variables, private and `STATIC`), then its
/// required fields, then its optional ones (private, `CONST` in a frozen
/// dataclass, `OPTIONAL` where optional). One written as a regular class
/// comes back with the parameters of its `__init__` (its required instance
/// variables, then its optional ones, private and `OPTIONAL` where
/// optional); its static variables are not read. Each variable keeps its
/// type and name, and every array reads back as a list. It holds for enums
/// whose name and whose variables' upper-case names are words, and for classes
/// and structs whose names, variable names and type names are words and whose types are
/// `int32`, `double`, `bool`, `string` or names that Python writes unchanged
/// and does not read as another type, where no variable of a regular class
/// is named `__init__`, in a file whose name holds no line break.
#[verifier::spinoff_prover]
#[verifier::rlimit(50)]
pub proof fn law_python_round_trip(objs: Seq<SpecOmlObject>, file_name: Seq<char>, use_data_class: bool)
    requires
        forall|i: int| 0 <= i < objs.len() ==> python_object_round_trips(#[trigger] objs[i], use_data_class),
        !file_name.contains('\n'),
    ensures
        py_file(objs, file_name, use_data_class) is Ok,
        py_file(objs, file_name, use_data_class) matches Ok(text)
            && python_objects(text) == objs.map_values(|o: SpecOmlObject| python_object_read_back(o, use_data_class)),
{
    assert(!has_undecided(objs)) by {
        if has_undecided(objs) {
            let i = choose|i: int| 0 <= i < objs.len() && objs[i].oml_type == ObjectType::UNDECIDED;
            assert(python_object_round_trips(objs[i], use_data_class));
        }
    }
    reveal_strlit("# This file has been generated from ");
    reveal_strlit(".oml\n");
    reveal_strlit(".oml");
    reveal_strlit("\n");
    let ws = lemma_py_ws(objs, use_data_class);
    let cm = "# This file has been generated from "@ + file_name + ".oml"@;
    let e = Seq::<char>::empty();
    let h = seq![cm, e];
    let im = py_imports(objs, use_data_class);
    let blk = py_import_block(im);
    let ol = py_objects_lines(objs, use_data_class, ws, objs.len());
    let ls = h + blk + ol;
    lemma_imports(objs, use_data_class);
    lemma_py_objects_text(objs, use_data_class, ws, objs.len());
    lemma_unlines_add(h + blk, ol);
    lemma_unlines_add(h, blk);
    lemma_unlines_add(seq![cm], seq![e]);
    assert(seq![cm] + seq![e] =~= h);
    lemma_unlines_one(cm);
    lemma_unlines_one(e);
    let text = unlines(ls);
    assert("# This file has been generated from "@ + file_name + ".oml\n"@ + "\n"@ =~= unlines(h));
    assert(py_file(objs, file_name, use_data_class) == Ok::<Seq<char>, GenerateError>(text));
    // every line stands alone
    assert(!"# This file has been generated from "@.contains('\n')) by {
        if "# This file has been generated from "@.contains('\n') {
            let k = choose|k: int| 0 <= k < 36 && "# This file has been generated from "@[k] == '\n';
        }
    }
    assert(!".oml"@.contains('\n')) by {
        if ".oml"@.contains('\n') {
            let k = choose|k: int| 0 <= k < 4 && ".oml"@[k] == '\n';
        }
    }
    lemma_lacks_concat("# This file has been generated from "@, file_name, '\n');
    lemma_lacks_concat("# This file has been generated from "@ + file_name, ".oml"@, '\n');
    assert(cm.last() == 'l');
    assert(cm[0] == '#');
    lemma_py_outside(cm);
    lemma_py_blank_outside();
    assert forall|k: int| 0 <= k < ls.len() implies is_line(#[trigger] ls[k]) by {
        if k < 2 {
            assert(ls[k] == h[k]);
        } else if k < 2 + blk.len() {
            assert(ls[k] == blk[k - 2]);
        } else {
            assert(ls[k] == ol[k - 2 - blk.len()]);
        }
    }
    crate::chars::lemma_lines_unlines(ls);
    assert(python_objects(text) == python_read(ls, 0, PythonReading::Outside));
    // the comment, the empty line and the imports
    let p = 2 + blk.len();
    assert forall|k: int| 0 <= k < p implies py_outside_line(#[trigger] ls[k]) by {
        if k < 2 {
            assert(ls[k] == h[k]);
        } else {
            assert(ls[k] == blk[k - 2]);
        }
    }
    lemma_read_py_outside(ls, 0, p as int);
    if objs.len() == 0 {
        assert(ls.len() == p);
        assert(objs.map_values(|o: SpecOmlObject| python_object_read_back(o, use_data_class)) =~= Seq::<SpecOmlObject>::empty());
    } else {
        assert forall|k: int| 0 <= k < ol.len() implies ls[p + k] == #[trigger] ol[k] by {}
        lemma_read_py_objects(ls, p as int, objs, use_data_class, ws, objs.len());
        assert(p + ol.len() == ls.len());
        let last = objs.last();
        assert(python_read(ls, ls.len() as int, py_in_object(last, use_data_class))
            == seq![python_object_read_back(last, use_data_class)]);
        assert(ls.len() == p + ol.len() - 0);
        assert(objs.map_values(|o: SpecOmlObject| python_object_read_back(o, use_data_class))
            =~= objs.drop_last().map_values(|o: SpecOmlObject| python_object_read_back(o, use_data_class))
                + seq![python_object_read_back(last, use_data_class)]);
    }
}

} // verus!
