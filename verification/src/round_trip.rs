use vstd::prelude::*;
use crate::oml_object::{
    ArrayKind, ObjectType, Pick, SpecOmlObject, SpecVariable, VariableModifier, VariableVisibility,
    lemma_pick_len, pick,
};
use crate::chars::{
    is_digit, is_ident_char, is_word, is_ws, lemma_first_index_at, lemma_not_starts_with,
    lemma_starts_with_concat, lemma_trim_start_after_ws, lemma_trim_unchanged,
    lemma_word_lacks, starts_with, trim, trim_end_in, lemma_trim_end_in_one,
    lemma_trim_end_in_unchanged,
};
use crate::text::{capitalised, decimal};
use crate::laws::{lemma_decimal_digits, law_parse_decimal, law_rust_type_round_trip};
use crate::generators::rust::{
    rs_enum_variants, rs_field, rs_fields, rs_file, rs_object_text, rs_objects_text, rs_type,
    rs_type_annotation, rs_visibility,
};
use crate::generators::rust_reverse::{
    RustReading, impl_line, oml_of_rust_type, rust_array_parts, rust_field, rust_header,
    rust_impl_consts, rust_objects, rust_read, rust_type_annotation, rust_visibility,
};
use crate::chars::{lemma_lacks_concat, is_line, lemma_lines_unlines, lemma_unlines_add, lemma_unlines_one, lines, unlines};
use crate::reading::{line_variant, opt_seq, read_object, variant_var};
use crate::cpp_file_round_trip::{cpp_enum_line, lemma_enum_line};
use crate::reading::read_var;

verus! {

// ---------------------------------------------------------------- words

/// An identifier character is no whitespace.
pub(crate) proof fn lemma_ident_not_ws(c: char)
    requires
        is_ident_char(c),
    ensures
        !is_ws(c),
{
}

/// A word is unchanged by trimming.
pub(crate) proof fn lemma_trim_word(w: Seq<char>)
    requires
        is_word(w),
    ensures
        trim(w) == w,
{
    lemma_ident_not_ws(w[0]);
    lemma_ident_not_ws(w.last());
    lemma_trim_unchanged(w);
}

/// A word does not begin with a text that has a character other than an
/// identifier character at index `i`.
pub(crate) proof fn lemma_word_not_starts_with(w: Seq<char>, p: Seq<char>, i: int)
    requires
        is_word(w),
        0 <= i < p.len(),
        !is_ident_char(p[i]),
    ensures
        !starts_with(w, p),
{
    if i < w.len() {
        lemma_not_starts_with(w, p, i);
    }
}

/// The Rust spelling of a word is a word.
proof fn lemma_rs_type_word(t: Seq<char>)
    requires
        is_word(t),
    ensures
        is_word(rs_type(t)),
{
    reveal_strlit("i8");
    reveal_strlit("i16");
    reveal_strlit("i32");
    reveal_strlit("i64");
    reveal_strlit("u8");
    reveal_strlit("u16");
    reveal_strlit("u32");
    reveal_strlit("u64");
    reveal_strlit("f32");
    reveal_strlit("f64");
    reveal_strlit("bool");
    reveal_strlit("String");
    reveal_strlit("char");
}

// ---------------------------------------------------------------- Rust types

/// The Rust type of a value of a word type read back, before `Option`.
proof fn lemma_rust_array_annotation(t: Seq<char>, k: ArrayKind)
    requires
        is_word(t),
        rs_type(t) != t || oml_of_rust_type(t) == t,
    ensures
        rust_type_annotation(rs_type_annotation(t, k, false)) == (t, k, false),
{
    let r = rs_type(t);
    lemma_rs_type_word(t);
    law_rust_type_round_trip(t);
    lemma_trim_word(r);
    reveal_strlit("Option<");
    reveal_strlit("Vec<");
    reveal_strlit("[");
    reveal_strlit("]");
    reveal_strlit(">");
    reveal_strlit("; ");
    match k {
        ArrayKind::Scalar => {
            lemma_word_not_starts_with(r, "Option<"@, 6);
            lemma_word_not_starts_with(r, "Vec<"@, 3);
            lemma_word_not_starts_with(r, "["@, 0);
        },
        ArrayKind::Dynamic => {
            let a = "Vec<"@ + r + ">"@;
            assert(a[0] == 'V');
            assert(a[1] == 'e');
            assert(a.last() == '>');
            lemma_trim_unchanged(a);
            lemma_not_starts_with(a, "Option<"@, 1);
            assert(a == "Vec<"@ + (r + ">"@));
            lemma_starts_with_concat("Vec<"@, r + ">"@);
            assert((r + ">"@).drop_last() =~= r);
        },
        ArrayKind::Static(n) => {
            let d = decimal(n as nat);
            lemma_decimal_digits(n as nat);
            law_parse_decimal(n);
            let a = "["@ + r + "; "@ + d + "]"@;
            assert(a[0] == '[');
            assert(a.last() == ']');
            lemma_trim_unchanged(a);
            lemma_not_starts_with(a, "Option<"@, 0);
            lemma_not_starts_with(a, "Vec<"@, 0);
            assert(a == "["@ + (r + "; "@ + d + "]"@));
            lemma_starts_with_concat("["@, r + "; "@ + d + "]"@);
            let inner = r + seq![';'] + (seq![' '] + d);
            assert(a.drop_first().drop_last() =~= inner);
            lemma_word_lacks(r, ';');
            lemma_first_index_at(r, ';', seq![' '] + d);
            assert(inner.skip(r.len() as int + 1) =~= seq![' '] + d);
            assert(inner.take(r.len() as int) =~= r);
            lemma_trim_start_after_ws(seq![' '], d);
            assert(is_digit(d[0]) && is_digit(d.last()));
            lemma_trim_unchanged(d);
            assert(trim(seq![' '] + d) == d);
            assert(rust_array_parts(inner) == Some((r, n)));
        },
    }
}

/// Reading back the Rust type written for a word type, with its array kind
/// and optionality, gives that type, array kind and optionality again (for
/// the types that [`law_rust_type_round_trip`] reads back).
pub proof fn law_rust_annotation_round_trip(t: Seq<char>, k: ArrayKind, opt: bool)
    requires
        is_word(t),
        rs_type(t) != t || oml_of_rust_type(t) == t,
    ensures
        rust_type_annotation(rs_type_annotation(t, k, opt)) == (t, k, opt),
{
    lemma_rust_array_annotation(t, k);
    if opt {
        reveal_strlit("Option<");
        reveal_strlit(">");
        let a = rs_type_annotation(t, k, false);
        let x = "Option<"@ + a + ">"@;
        assert(rs_type_annotation(t, k, true) == x);
        assert(x[0] == 'O');
        assert(x.last() == '>');
        lemma_trim_unchanged(x);
        assert(x == "Option<"@ + (a + ">"@));
        lemma_starts_with_concat("Option<"@, a + ">"@);
        assert((a + ">"@).drop_last() =~= a);
    }
}

// ---------------------------------------------------------------- Rust fields

/// The line that declares a field of a Rust struct.
pub open spec fn rs_field_line(v: SpecVariable) -> Seq<char> {
    "\t"@ + rs_visibility(v.visibility) + v.name + ": "@ + rs_type_annotation(v.var_type, v.array_kind, v.is_optional()) + ","@
}

/// What the Rust reader gives back for a field: its visibility, type, array
/// kind and name, and `OPTIONAL` where it is optional.
pub open spec fn rust_read_back_var(v: SpecVariable) -> SpecVariable {
    let mods: Seq<VariableModifier> = if v.is_optional() { seq![VariableModifier::OPTIONAL] } else { Seq::empty() };
    read_var(mods, v.visibility, v.var_type, v.array_kind, v.name)
}

/// Whether a variable reads back from Rust: it is not static, its name and
/// type are words, and its type is no Rust spelling of another OML type.
pub open spec fn rust_var_round_trips(v: SpecVariable) -> bool {
    &&& !v.is_static()
    &&& is_word(v.name)
    &&& is_word(v.var_type)
    &&& (rs_type(v.var_type) != v.var_type || oml_of_rust_type(v.var_type) == v.var_type)
}

/// A word followed by `:` does not begin with a text whose first `i + 1`
/// characters hold no `:` and whose character at `i` is no identifier
/// character.
proof fn lemma_word_colon_not_starts_with(w: Seq<char>, rest: Seq<char>, p: Seq<char>, i: int)
    requires
        is_word(w),
        0 <= i < p.len(),
        !is_ident_char(p[i]),
        forall|j: int| 0 <= j <= i ==> p[j] != ':',
    ensures
        !starts_with(w + seq![':'] + rest, p),
{
    let s = w + seq![':'] + rest;
    if w.len() > i {
        assert(s[i] == w[i]);
        lemma_not_starts_with(s, p, i);
    } else {
        assert(s[w.len() as int] == ':');
        lemma_not_starts_with(s, p, w.len() as int);
    }
}

/// The facts about the Rust type written for a field that reading needs.
proof fn lemma_annotation_shape(v: SpecVariable)
    requires
        rust_var_round_trips(v),
    ensures
        ({
            let a = rs_type_annotation(v.var_type, v.array_kind, v.is_optional());
            &&& a.len() > 0
            &&& !is_ws(a[0])
            &&& !is_ws(a.last())
            &&& a.last() != ','
        }),
{
    let r = rs_type(v.var_type);
    lemma_rs_type_word(v.var_type);
    reveal_strlit("Option<");
    reveal_strlit("Vec<");
    reveal_strlit("[");
    reveal_strlit("]");
    reveal_strlit(">");
    reveal_strlit("; ");
    lemma_ident_not_ws(r[0]);
    lemma_ident_not_ws(r.last());
    let a = rs_type_annotation(v.var_type, v.array_kind, v.is_optional());
    let w = match v.array_kind {
        ArrayKind::Scalar => r,
        ArrayKind::Static(n) => "["@ + r + "; "@ + decimal(n as nat) + "]"@,
        ArrayKind::Dynamic => "Vec<"@ + r + ">"@,
    };
    assert(w.len() > 0 && !is_ws(w[0]) && !is_ws(w.last()) && w.last() != ',');
    if v.is_optional() {
        assert(a == "Option<"@ + w + ">"@);
        assert(a[0] == 'O');
    }
}

/// Reading a field line back gives the field again.
proof fn lemma_rust_field_round_trip(v: SpecVariable)
    requires
        rust_var_round_trips(v),
    ensures
        trim(rs_field_line(v)) == rs_visibility(v.visibility) + v.name + ": "@
            + rs_type_annotation(v.var_type, v.array_kind, v.is_optional()) + ","@,
        rust_field(trim(rs_field_line(v))) == Some(rust_read_back_var(v)),
        !starts_with(trim(rs_field_line(v)), "impl "@),
        trim(rs_field_line(v)) != "}"@,
{
    reveal_strlit("\t");
    reveal_strlit(": ");
    reveal_strlit(",");
    reveal_strlit("pub ");
    reveal_strlit("pub(crate) ");
    reveal_strlit("impl ");
    reveal_strlit("}");
    let a = rs_type_annotation(v.var_type, v.array_kind, v.is_optional());
    lemma_annotation_shape(v);
    let vis = rs_visibility(v.visibility);
    let n = v.name;
    let rest = n + seq![':'] + (seq![' '] + a);
    assert(n + ": "@ + a =~= rest);
    let z = vis + rest;
    let y = z + seq![','];
    assert(y =~= vis + n + ": "@ + a + ","@);
    assert(rs_field_line(v) =~= seq!['\t'] + y);
    lemma_trim_start_after_ws(seq!['\t'], y);
    lemma_ident_not_ws(n[0]);
    lemma_ident_not_ws(n.last());
    assert(y.last() == ',');
    assert(y[0] == (if vis.len() > 0 { 'p' } else { n[0] }));
    lemma_trim_unchanged(y);
    assert(trim(rs_field_line(v)) == y);
    assert(trim(y) == y);
    assert(z.last() == a.last());
    lemma_trim_end_in_one(z, ',', ","@);
    // the visibility
    match v.visibility {
        VariableVisibility::PUBLIC => {
            assert(z == "pub "@ + rest);
            lemma_not_starts_with(z, "pub(crate) "@, 3);
            lemma_starts_with_concat("pub "@, rest);
            lemma_not_starts_with(y, "impl "@, 0);
        },
        VariableVisibility::PROTECTED => {
            assert(z == "pub(crate) "@ + rest);
            lemma_starts_with_concat("pub(crate) "@, rest);
            lemma_not_starts_with(y, "impl "@, 0);
        },
        VariableVisibility::PRIVATE => {
            assert(z == rest);
            lemma_word_colon_not_starts_with(n, seq![' '] + a, "pub(crate) "@, 3);
            lemma_word_colon_not_starts_with(n, seq![' '] + a, "pub "@, 3);
            assert(y == n + seq![':'] + (seq![' '] + a + seq![',']));
            lemma_word_colon_not_starts_with(n, seq![' '] + a + seq![','], "impl "@, 4);
        },
    }
    assert(rust_visibility(z) == (v.visibility, rest));
    // the name and the type
    lemma_word_lacks(n, ':');
    lemma_first_index_at(n, ':', seq![' '] + a);
    assert(rest.take(n.len() as int) =~= n);
    assert(rest.skip(n.len() as int + 1) =~= seq![' '] + a);
    lemma_trim_word(n);
    lemma_trim_start_after_ws(seq![' '], a);
    lemma_trim_unchanged(a);
    law_rust_annotation_round_trip(v.var_type, v.array_kind, v.is_optional());
}

// ---------------------------------------------------------------- Rust structs

/// Whether an object reads back from Rust: a class or struct with a word as
/// its name, whose variables all read back.
pub open spec fn rust_round_trips(o: SpecOmlObject) -> bool {
    &&& (o.oml_type == ObjectType::CLASS || o.oml_type == ObjectType::STRUCT)
    &&& is_word(o.name)
    &&& forall|j: int| 0 <= j < o.variables.len() ==> rust_var_round_trips(#[trigger] o.variables[j])
}

/// What the Rust reader gives back for an object: a struct of the same name
/// with its fields read back.
pub open spec fn rust_read_back(o: SpecOmlObject) -> SpecOmlObject {
    read_object(ObjectType::STRUCT, o.name, o.variables.map_values(|v: SpecVariable| rust_read_back_var(v)))
}

/// The lines of a Rust struct without static variables.
pub open spec fn rs_struct_lines(o: SpecOmlObject) -> Seq<Seq<char>> {
    seq!["#[derive(Debug, Clone)]"@, "pub struct "@ + o.name + " {"@]
        + o.variables.map_values(|v: SpecVariable| rs_field_line(v)) + seq!["}"@]
}

/// The line of a variant of a Rust enum.
pub open spec fn rs_variant_line(v: SpecVariable) -> Seq<char> {
    "\t"@ + capitalised(v.name) + ","@
}

/// The lines of a Rust enum.
pub open spec fn rs_enum_lines(o: SpecOmlObject) -> Seq<Seq<char>> {
    seq!["#[derive(Debug, Clone, PartialEq)]"@, "pub enum "@ + o.name + " {"@]
        + o.variables.map_values(|v: SpecVariable| rs_variant_line(v)) + seq!["}"@]
}

/// Whether an enum reads back from Rust: its name and the capitalised names
/// of its variables are words.
pub open spec fn rust_enum_round_trips(o: SpecOmlObject) -> bool {
    &&& o.oml_type == ObjectType::ENUM
    &&& is_word(o.name)
    &&& forall|j: int| 0 <= j < o.variables.len() ==> is_word(capitalised((#[trigger] o.variables[j]).name))
}

/// What the Rust reader gives back for an enum: an enum of the same name whose
/// variants are named by the capitalised names of its variables.
pub open spec fn rust_enum_read_back(o: SpecOmlObject) -> SpecOmlObject {
    read_object(ObjectType::ENUM, o.name, o.variables.map_values(|v: SpecVariable| variant_var(capitalised(v.name))))
}

/// Whether an object reads back from Rust, as an enum or as a struct.
pub open spec fn rust_object_round_trips(o: SpecOmlObject) -> bool {
    if o.oml_type == ObjectType::ENUM { rust_enum_round_trips(o) } else { rust_round_trips(o) }
}

/// What the Rust reader gives back for an object.
pub open spec fn rust_object_read_back(o: SpecOmlObject) -> SpecOmlObject {
    if o.oml_type == ObjectType::ENUM { rust_enum_read_back(o) } else { rust_read_back(o) }
}

/// The lines of an object: an enum, or a struct.
pub open spec fn rs_object_lines(o: SpecOmlObject) -> Seq<Seq<char>> {
    if o.oml_type == ObjectType::ENUM { rs_enum_lines(o) } else { rs_struct_lines(o) }
}

proof fn lemma_pick_instance_all(vars: Seq<SpecVariable>)
    requires
        forall|j: int| 0 <= j < vars.len() ==> !(#[trigger] vars[j]).is_static(),
    ensures
        pick(vars, Pick::Instance) == vars,
        pick(vars, Pick::Static).len() == 0,
    decreases vars.len(),
{
    lemma_pick_len(vars, Pick::Static);
    if vars.len() > 0 {
        assert forall|j: int| 0 <= j < vars.drop_last().len() implies !(#[trigger] vars.drop_last()[j]).is_static() by {
            assert(vars.drop_last()[j] == vars[j]);
        }
        lemma_pick_instance_all(vars.drop_last());
        assert(!vars.last().is_static());
        assert(vars.drop_last().push(vars.last()) =~= vars);
    }
}

proof fn lemma_rs_fields_lines(vars: Seq<SpecVariable>)
    ensures
        rs_fields(vars) == unlines(vars.map_values(|v: SpecVariable| rs_field_line(v))),
    decreases vars.len(),
{
    let m = vars.map_values(|v: SpecVariable| rs_field_line(v));
    if vars.len() == 0 {
        assert(m =~= Seq::<Seq<char>>::empty());
    } else {
        lemma_rs_fields_lines(vars.drop_last());
        let m0 = vars.drop_last().map_values(|v: SpecVariable| rs_field_line(v));
        assert(m =~= m0 + seq![rs_field_line(vars.last())]);
        lemma_unlines_add(m0, seq![rs_field_line(vars.last())]);
        lemma_unlines_one(rs_field_line(vars.last()));
        reveal_strlit(",\n");
        reveal_strlit(",");
        assert(rs_field(vars.last()) =~= rs_field_line(vars.last()) + seq!['\n']);
    }
}

/// The text of a struct that reads back is made of its lines.
proof fn lemma_rs_struct_text(o: SpecOmlObject)
    requires
        rust_round_trips(o),
    ensures
        rs_object_text(o) == unlines(rs_struct_lines(o)),
{
    assert forall|j: int| 0 <= j < o.variables.len() implies !(#[trigger] o.variables[j]).is_static() by {
        assert(rust_var_round_trips(o.variables[j]));
    }
    lemma_pick_instance_all(o.variables);
    lemma_rs_fields_lines(o.variables);
    let m = o.variables.map_values(|v: SpecVariable| rs_field_line(v));
    let l0 = "#[derive(Debug, Clone)]"@;
    let l1 = "pub struct "@ + o.name + " {"@;
    reveal_strlit("#[derive(Debug, Clone)]\n");
    reveal_strlit("#[derive(Debug, Clone)]");
    reveal_strlit(" {\n");
    reveal_strlit(" {");
    reveal_strlit("}\n");
    reveal_strlit("}");
    lemma_unlines_add(seq![l0, l1] + m, seq!["}"@]);
    lemma_unlines_add(seq![l0, l1], m);
    lemma_unlines_add(seq![l0], seq![l1]);
    assert(seq![l0] + seq![l1] =~= seq![l0, l1]);
    lemma_unlines_one(l0);
    lemma_unlines_one(l1);
    lemma_unlines_one("}"@);
    assert(rs_object_text(o) =~= unlines(rs_struct_lines(o)));
}

/// A text that begins with `p + q` begins with `p`.
proof fn lemma_starts_with_prefix(s: Seq<char>, p: Seq<char>, q: Seq<char>)
    requires
        starts_with(s, p + q),
    ensures
        starts_with(s, p),
{
    assert(s.take(p.len() as int) =~= s.take((p + q).len() as int).take(p.len() as int));
    assert((p + q).take(p.len() as int) =~= p);
}

/// Without any line that begins with `impl `, a struct takes no constants.
proof fn lemma_no_impl_consts(ls: Seq<Seq<char>>, k: int, name: Seq<char>)
    requires
        0 <= k,
        forall|j: int| k <= j < ls.len() ==> !starts_with(trim(#[trigger] ls[j]), "impl "@),
    ensures
        rust_impl_consts(ls, k, name) == Seq::<SpecVariable>::empty(),
    decreases ls.len() - k,
{
    if k < ls.len() {
        if starts_with(trim(ls[k]), impl_line(name)) {
            assert(impl_line(name) == "impl "@ + (name + " {"@));
            lemma_starts_with_prefix(trim(ls[k]), "impl "@, name + " {"@);
        }
        lemma_no_impl_consts(ls, k + 1, name);
    }
}

proof fn lemma_rust_read_fields(ls: Seq<Seq<char>>, i: int, name: Seq<char>, vars: Seq<SpecVariable>, j: int)
    requires
        0 <= i,
        0 <= j <= vars.len(),
        i + vars.len() <= ls.len(),
        forall|k: int| 0 <= k < vars.len() ==> ls[i + k] == rs_field_line(#[trigger] vars[k]),
        forall|k: int| 0 <= k < vars.len() ==> rust_var_round_trips(#[trigger] vars[k]),
    ensures
        rust_read(ls, i + j, RustReading::InStruct { name, vars: vars.take(j).map_values(|v: SpecVariable| rust_read_back_var(v)) })
            == rust_read(ls, i + vars.len(), RustReading::InStruct { name, vars: vars.map_values(|v: SpecVariable| rust_read_back_var(v)) }),
    decreases vars.len() - j,
{
    if j < vars.len() {
        let v = vars[j];
        assert(rust_var_round_trips(v));
        assert(ls[i + j] == rs_field_line(v));
        lemma_rust_field_round_trip(v);
        let acc = vars.take(j).map_values(|v: SpecVariable| rust_read_back_var(v));
        assert(vars.take(j + 1).map_values(|v: SpecVariable| rust_read_back_var(v))
            =~= acc + opt_seq(Some(rust_read_back_var(v))));
        lemma_rust_read_fields(ls, i, name, vars, j + 1);
    } else {
        assert(vars.take(j) =~= vars);
    }
}

/// Reading the lines of a struct that reads back gives the struct back.
proof fn lemma_rust_read_struct(ls: Seq<Seq<char>>, i: int, o: SpecOmlObject)
    requires
        rust_round_trips(o),
        0 <= i,
        i + rs_struct_lines(o).len() <= ls.len(),
        forall|k: int| 0 <= k < rs_struct_lines(o).len() ==> ls[i + k] == #[trigger] rs_struct_lines(o)[k],
        forall|j: int| i <= j < ls.len() ==> !starts_with(trim(#[trigger] ls[j]), "impl "@),
    ensures
        rust_read(ls, i, RustReading::Outside)
            == seq![rust_read_back(o)] + rust_read(ls, i + rs_struct_lines(o).len(), RustReading::Outside),
{
    let lines_o = rs_struct_lines(o);
    let m = o.variables.map_values(|v: SpecVariable| rs_field_line(v));
    let n = o.variables.len() as int;
    let name = o.name;
    reveal_strlit("#[derive(Debug, Clone)]");
    reveal_strlit("pub struct ");
    reveal_strlit("pub enum ");
    reveal_strlit(" {");
    reveal_strlit("}");
    reveal_strlit("{ ");
    assert(lines_o.len() == n + 3);
    // the derive line
    let l0 = "#[derive(Debug, Clone)]"@;
    assert(ls[i] == lines_o[0]);
    assert(lines_o[0] == l0);
    lemma_trim_unchanged(l0);
    lemma_not_starts_with(l0, "pub enum "@, 0);
    lemma_not_starts_with(l0, "pub struct "@, 0);
    assert(rust_header(trim(ls[i])) == RustReading::Outside);
    // the struct line
    let l1 = "pub struct "@ + name + " {"@;
    assert(ls[i + 1] == lines_o[1]);
    assert(lines_o[1] == l1);
    assert(l1[0] == 'p');
    assert(l1.last() == '{');
    lemma_trim_unchanged(l1);
    assert(l1[4] == 's');
    lemma_not_starts_with(l1, "pub enum "@, 4);
    assert(l1 == "pub struct "@ + (name + " {"@));
    lemma_starts_with_concat("pub struct "@, name + " {"@);
    let after = name + " {"@;
    assert(after.drop_last() =~= name + seq![' ']);
    assert((name + seq![' ']).drop_last() =~= name);
    lemma_ident_not_ws(name.last());
    assert("{ "@[0] == '{' && "{ "@[1] == ' ');
    assert(after.last() == '{');
    assert(!"{ "@.contains(name.last())) by {
        if "{ "@.contains(name.last()) {
            let k = choose|k: int| 0 <= k < "{ "@.len() && "{ "@[k] == name.last();
            assert(k == 0 || k == 1);
        }
    }
    lemma_trim_end_in_unchanged(name, "{ "@);
    assert(trim_end_in(name + seq![' '], "{ "@) == name);
    assert(trim_end_in(after, "{ "@) == name);
    assert(rust_header(trim(ls[i + 1])) == RustReading::InStruct { name, vars: Seq::empty() });
    // the fields
    assert forall|k: int| 0 <= k < o.variables.len() implies ls[i + 2 + k] == rs_field_line(#[trigger] o.variables[k]) by {
        assert(lines_o[2 + k] == m[k]);
    }
    assert forall|k: int| 0 <= k < o.variables.len() implies rust_var_round_trips(#[trigger] o.variables[k]) by {}
    lemma_rust_read_fields(ls, i + 2, name, o.variables, 0);
    assert(o.variables.take(0).map_values(|v: SpecVariable| rust_read_back_var(v)) =~= Seq::<SpecVariable>::empty());
    // the closing line
    assert(ls[i + 2 + n] == lines_o[2 + n]);
    assert(lines_o[2 + n] == "}"@);
    lemma_trim_unchanged("}"@);
    lemma_no_impl_consts(ls, i + 3 + n, name);
    let rb = o.variables.map_values(|v: SpecVariable| rust_read_back_var(v));
    assert(rb + Seq::<SpecVariable>::empty() =~= rb);
    assert(rust_read(ls, i, RustReading::Outside) == rust_read(ls, i + 1, RustReading::Outside));
    assert(rust_read(ls, i + 1, RustReading::Outside)
        == rust_read(ls, i + 2, RustReading::InStruct { name, vars: Seq::empty() }));
    assert(trim(ls[i + 2 + n]) == "}"@);
    assert(rust_read(ls, i + 2 + n, RustReading::InStruct { name, vars: rb })
        == seq![read_object(ObjectType::STRUCT, name, rb + rust_impl_consts(ls, i + 2 + n + 1, name))]
            + rust_read(ls, i + 2 + n + 1, RustReading::Outside));
}

proof fn lemma_rs_variants_lines(vars: Seq<SpecVariable>)
    ensures
        rs_enum_variants(vars) == unlines(vars.map_values(|v: SpecVariable| rs_variant_line(v))),
    decreases vars.len(),
{
    let m = vars.map_values(|v: SpecVariable| rs_variant_line(v));
    if vars.len() == 0 {
        assert(m =~= Seq::<Seq<char>>::empty());
    } else {
        lemma_rs_variants_lines(vars.drop_last());
        let m0 = vars.drop_last().map_values(|v: SpecVariable| rs_variant_line(v));
        assert(m =~= m0 + seq![rs_variant_line(vars.last())]);
        lemma_unlines_add(m0, seq![rs_variant_line(vars.last())]);
        lemma_unlines_one(rs_variant_line(vars.last()));
        reveal_strlit(",\n");
        reveal_strlit(",");
        let c = capitalised(vars.last().name);
        assert("\t"@ + c + ",\n"@ =~= rs_variant_line(vars.last()) + seq!['\n']);
    }
}

/// The text of an enum is made of its lines.
proof fn lemma_rs_enum_text(o: SpecOmlObject)
    requires
        o.oml_type == ObjectType::ENUM,
    ensures
        rs_object_text(o) == unlines(rs_enum_lines(o)),
{
    lemma_rs_variants_lines(o.variables);
    let m = o.variables.map_values(|v: SpecVariable| rs_variant_line(v));
    let l0 = "#[derive(Debug, Clone, PartialEq)]"@;
    let l1 = "pub enum "@ + o.name + " {"@;
    reveal_strlit("#[derive(Debug, Clone, PartialEq)]\n");
    reveal_strlit("#[derive(Debug, Clone, PartialEq)]");
    reveal_strlit(" {\n");
    reveal_strlit(" {");
    reveal_strlit("}\n");
    reveal_strlit("}");
    lemma_unlines_add(seq![l0, l1] + m, seq!["}"@]);
    lemma_unlines_add(seq![l0, l1], m);
    lemma_unlines_add(seq![l0], seq![l1]);
    assert(seq![l0] + seq![l1] =~= seq![l0, l1]);
    lemma_unlines_one(l0);
    lemma_unlines_one(l1);
    lemma_unlines_one("}"@);
    assert(rs_object_text(o) =~= unlines(rs_enum_lines(o)));
}

/// The text of an object that reads back is made of its lines.
proof fn lemma_rs_object_text(o: SpecOmlObject)
    requires
        rust_object_round_trips(o),
    ensures
        rs_object_text(o) == unlines(rs_object_lines(o)),
{
    if o.oml_type == ObjectType::ENUM {
        lemma_rs_enum_text(o);
    } else {
        lemma_rs_struct_text(o);
    }
}

/// A variant line stands alone; trimmed, it is the variant's name and a comma.
proof fn lemma_rs_variant_line(v: SpecVariable)
    requires
        is_word(capitalised(v.name)),
    ensures
        is_line(rs_variant_line(v)),
        trim(rs_variant_line(v)) == capitalised(v.name) + ","@,
        trim(rs_variant_line(v)) != "}"@,
        !starts_with(trim(rs_variant_line(v)), "impl "@),
        line_variant(trim(rs_variant_line(v))) == seq![variant_var(capitalised(v.name))],
{
    let u = capitalised(v.name);
    assert(rs_variant_line(v) == cpp_enum_line(u, true));
    lemma_enum_line(u, true);
    reveal_strlit(",");
    reveal_strlit("}");
    reveal_strlit("impl ");
    let t = u + ","@;
    assert(t.len() == u.len() + 1);
    assert(t.len() != "}"@.len());
    if u.len() > 4 {
        assert(t[4] == u[4]);
        assert(is_ident_char(u[4]));
        lemma_not_starts_with(t, "impl "@, 4);
    } else {
        assert(t[u.len() as int] == ',');
        lemma_not_starts_with(t, "impl "@, u.len() as int);
    }
}

/// Reading the variants of a Rust enum.
proof fn lemma_rust_read_variants(ls: Seq<Seq<char>>, i: int, name: Seq<char>, vars: Seq<SpecVariable>, j: int)
    requires
        0 <= i,
        0 <= j <= vars.len(),
        i + vars.len() <= ls.len(),
        forall|k: int| 0 <= k < vars.len() ==> ls[i + k] == rs_variant_line(#[trigger] vars[k]),
        forall|k: int| 0 <= k < vars.len() ==> is_word(capitalised((#[trigger] vars[k]).name)),
    ensures
        rust_read(ls, i + j, RustReading::InEnum {
            name,
            vars: vars.take(j).map_values(|v: SpecVariable| variant_var(capitalised(v.name))),
        }) == rust_read(ls, i + vars.len(), RustReading::InEnum {
            name,
            vars: vars.map_values(|v: SpecVariable| variant_var(capitalised(v.name))),
        }),
    decreases vars.len() - j,
{
    if j < vars.len() {
        let v = vars[j];
        assert(is_word(capitalised(v.name)));
        assert(ls[i + j] == rs_variant_line(v));
        lemma_rs_variant_line(v);
        assert(vars.take(j + 1).map_values(|v: SpecVariable| variant_var(capitalised(v.name)))
            =~= vars.take(j).map_values(|v: SpecVariable| variant_var(capitalised(v.name))) + seq![variant_var(capitalised(v.name))]);
        lemma_rust_read_variants(ls, i, name, vars, j + 1);
    } else {
        assert(vars.take(j) =~= vars);
    }
}

/// Reading the lines of an enum that reads back gives the enum back.
proof fn lemma_rust_read_enum(ls: Seq<Seq<char>>, i: int, o: SpecOmlObject)
    requires
        rust_enum_round_trips(o),
        0 <= i,
        i + rs_enum_lines(o).len() <= ls.len(),
        forall|k: int| 0 <= k < rs_enum_lines(o).len() ==> ls[i + k] == #[trigger] rs_enum_lines(o)[k],
    ensures
        rust_read(ls, i, RustReading::Outside)
            == seq![rust_enum_read_back(o)] + rust_read(ls, i + rs_enum_lines(o).len(), RustReading::Outside),
{
    let lines_o = rs_enum_lines(o);
    let m = o.variables.map_values(|v: SpecVariable| rs_variant_line(v));
    let n = o.variables.len() as int;
    let name = o.name;
    reveal_strlit("#[derive(Debug, Clone, PartialEq)]");
    reveal_strlit("pub struct ");
    reveal_strlit("pub enum ");
    reveal_strlit(" {");
    reveal_strlit("}");
    reveal_strlit("{ ");
    assert(lines_o.len() == n + 3);
    // the derive line
    let l0 = "#[derive(Debug, Clone, PartialEq)]"@;
    assert(ls[i] == lines_o[0]);
    assert(lines_o[0] == l0);
    lemma_trim_unchanged(l0);
    lemma_not_starts_with(l0, "pub enum "@, 0);
    lemma_not_starts_with(l0, "pub struct "@, 0);
    assert(rust_header(trim(ls[i])) == RustReading::Outside);
    // the enum line
    let l1 = "pub enum "@ + name + " {"@;
    assert(ls[i + 1] == lines_o[1]);
    assert(lines_o[1] == l1);
    assert(l1[0] == 'p');
    assert(l1.last() == '{');
    lemma_trim_unchanged(l1);
    assert(l1 == "pub enum "@ + (name + " {"@));
    lemma_starts_with_concat("pub enum "@, name + " {"@);
    let after = name + " {"@;
    assert(after.drop_last() =~= name + seq![' ']);
    assert((name + seq![' ']).drop_last() =~= name);
    lemma_ident_not_ws(name.last());
    assert("{ "@[0] == '{' && "{ "@[1] == ' ');
    assert(after.last() == '{');
    assert(!"{ "@.contains(name.last())) by {
        if "{ "@.contains(name.last()) {
            let k = choose|k: int| 0 <= k < "{ "@.len() && "{ "@[k] == name.last();
            assert(k == 0 || k == 1);
        }
    }
    lemma_trim_end_in_unchanged(name, "{ "@);
    assert(trim_end_in(name + seq![' '], "{ "@) == name);
    assert(trim_end_in(after, "{ "@) == name);
    assert(rust_header(trim(ls[i + 1])) == RustReading::InEnum { name, vars: Seq::empty() });
    // the variants
    assert forall|k: int| 0 <= k < o.variables.len() implies ls[i + 2 + k] == rs_variant_line(#[trigger] o.variables[k]) by {
        assert(lines_o[2 + k] == m[k]);
    }
    assert forall|k: int| 0 <= k < o.variables.len() implies is_word(capitalised((#[trigger] o.variables[k]).name)) by {}
    lemma_rust_read_variants(ls, i + 2, name, o.variables, 0);
    assert(o.variables.take(0).map_values(|v: SpecVariable| variant_var(capitalised(v.name))) =~= Seq::<SpecVariable>::empty());
    // the closing line
    assert(ls[i + 2 + n] == lines_o[2 + n]);
    assert(lines_o[2 + n] == "}"@);
    lemma_trim_unchanged("}"@);
    assert(trim(ls[i + 2 + n]) == "}"@);
    assert(rust_read(ls, i, RustReading::Outside) == rust_read(ls, i + 1, RustReading::Outside));
    assert(rust_read(ls, i + 1, RustReading::Outside)
        == rust_read(ls, i + 2, RustReading::InEnum { name, vars: Seq::empty() }));
}

/// Reading the lines of an object that reads back gives it back.
proof fn lemma_rust_read_object(ls: Seq<Seq<char>>, i: int, o: SpecOmlObject)
    requires
        rust_object_round_trips(o),
        0 <= i,
        i + rs_object_lines(o).len() <= ls.len(),
        forall|k: int| 0 <= k < rs_object_lines(o).len() ==> ls[i + k] == #[trigger] rs_object_lines(o)[k],
        forall|j: int| i <= j < ls.len() ==> !starts_with(trim(#[trigger] ls[j]), "impl "@),
    ensures
        rust_read(ls, i, RustReading::Outside)
            == seq![rust_object_read_back(o)] + rust_read(ls, i + rs_object_lines(o).len(), RustReading::Outside),
{
    if o.oml_type == ObjectType::ENUM {
        lemma_rust_read_enum(ls, i, o);
    } else {
        lemma_rust_read_struct(ls, i, o);
    }
}

// ---------------------------------------------------------------- Rust files

/// The lines of a Rust file before its objects.
pub open spec fn rs_header_lines(file_name: Seq<char>) -> Seq<Seq<char>> {
    seq!["// This file has been generated from "@ + file_name + ".oml"@, Seq::empty(), "#[allow(dead_code)]"@, Seq::empty()]
}

/// The lines of objects, each followed by an empty line.
pub open spec fn rs_objects_lines(objs: Seq<SpecOmlObject>) -> Seq<Seq<char>>
    decreases objs.len(),
{
    if objs.len() == 0 {
        Seq::empty()
    } else {
        rs_object_lines(objs[0]) + seq![Seq::<char>::empty()] + rs_objects_lines(objs.drop_first())
    }
}

/// The lines of a Rust file of objects that read back.
pub open spec fn rs_file_lines(objs: Seq<SpecOmlObject>, file_name: Seq<char>) -> Seq<Seq<char>> {
    rs_header_lines(file_name)
        + (if objs.len() == 0 {
            Seq::<Seq<char>>::empty()
        } else {
            rs_objects_lines(objs.drop_last()) + rs_object_lines(objs.last())
        })
}

proof fn lemma_objects_lines_last(objs: Seq<SpecOmlObject>)
    requires
        objs.len() > 0,
    ensures
        rs_objects_lines(objs) == rs_objects_lines(objs.drop_last()) + rs_object_lines(objs.last()) + seq![Seq::<char>::empty()],
    decreases objs.len(),
{
    if objs.len() == 1 {
        assert(objs.drop_first() =~= Seq::<SpecOmlObject>::empty());
        assert(objs.drop_last() =~= Seq::<SpecOmlObject>::empty());
        assert(rs_objects_lines(objs) =~= rs_object_lines(objs[0]) + seq![Seq::<char>::empty()]);
    } else {
        let rest = objs.drop_first();
        lemma_objects_lines_last(rest);
        assert(objs.drop_last().drop_first() =~= rest.drop_last());
        assert(objs.drop_last()[0] == objs[0]);
        assert(rest.last() == objs.last());
        assert(rs_objects_lines(objs) =~= rs_objects_lines(objs.drop_last()) + rs_object_lines(objs.last()) + seq![Seq::<char>::empty()]);
    }
}

proof fn lemma_rs_objects_text_some(objs: Seq<SpecOmlObject>, total: nat)
    requires
        objs.len() < total,
        forall|i: int| 0 <= i < objs.len() ==> rust_object_round_trips(#[trigger] objs[i]),
    ensures
        rs_objects_text(objs, total) == unlines(rs_objects_lines(objs)),
    decreases objs.len(),
{
    if objs.len() == 0 {
        assert(rs_objects_lines(objs) =~= Seq::<Seq<char>>::empty());
    } else {
        assert forall|i: int| 0 <= i < objs.drop_last().len() implies rust_object_round_trips(#[trigger] objs.drop_last()[i]) by {
            assert(objs.drop_last()[i] == objs[i]);
        }
        lemma_rs_objects_text_some(objs.drop_last(), total);
        assert(rust_object_round_trips(objs.last()));
        lemma_rs_object_text(objs.last());
        lemma_objects_lines_last(objs);
        let a = rs_objects_lines(objs.drop_last());
        let b = rs_object_lines(objs.last());
        lemma_unlines_add(a + b, seq![Seq::<char>::empty()]);
        lemma_unlines_add(a, b);
        lemma_unlines_one(Seq::<char>::empty());
        reveal_strlit("\n");
        assert(Seq::<char>::empty() + seq!['\n'] =~= "\n"@);
    }
}

proof fn lemma_rs_objects_text_all(objs: Seq<SpecOmlObject>)
    requires
        forall|i: int| 0 <= i < objs.len() ==> rust_object_round_trips(#[trigger] objs[i]),
    ensures
        rs_objects_text(objs, objs.len()) == unlines(
            if objs.len() == 0 {
                Seq::<Seq<char>>::empty()
            } else {
                rs_objects_lines(objs.drop_last()) + rs_object_lines(objs.last())
            },
        ),
{
    if objs.len() > 0 {
        assert forall|i: int| 0 <= i < objs.drop_last().len() implies rust_object_round_trips(#[trigger] objs.drop_last()[i]) by {
            assert(objs.drop_last()[i] == objs[i]);
        }
        lemma_rs_objects_text_some(objs.drop_last(), objs.len());
        assert(rust_object_round_trips(objs.last()));
        lemma_rs_object_text(objs.last());
        lemma_unlines_add(rs_objects_lines(objs.drop_last()), rs_object_lines(objs.last()));
        assert(rs_objects_text(objs, objs.len()) =~= rs_objects_text(objs.drop_last(), objs.len()) + rs_object_text(objs.last()));
    } else {
        assert(unlines(Seq::<Seq<char>>::empty()) == Seq::<char>::empty());
    }
}

proof fn lemma_rs_header_text(file_name: Seq<char>)
    ensures
        "// This file has been generated from "@ + file_name + ".oml\n"@ + "\n"@ + "#[allow(dead_code)]\n"@ + "\n"@
            == unlines(rs_header_lines(file_name)),
{
    reveal_strlit(".oml\n");
    reveal_strlit(".oml");
    reveal_strlit("\n");
    reveal_strlit("#[allow(dead_code)]\n");
    reveal_strlit("#[allow(dead_code)]");
    let h = rs_header_lines(file_name);
    let c = "// This file has been generated from "@ + file_name + ".oml"@;
    let e = Seq::<char>::empty();
    let a = "#[allow(dead_code)]"@;
    assert(h =~= seq![c] + (seq![e] + (seq![a] + seq![e])));
    lemma_unlines_add(seq![c], seq![e] + (seq![a] + seq![e]));
    lemma_unlines_add(seq![e], seq![a] + seq![e]);
    lemma_unlines_add(seq![a], seq![e]);
    lemma_unlines_one(c);
    lemma_unlines_one(e);
    lemma_unlines_one(a);
    assert(unlines(h) =~= c + seq!['\n'] + seq!['\n'] + a + seq!['\n'] + seq!['\n']);
}

// ---------------------------------------------------------------- whole files

/// Whether a line stands alone and does not begin, once trimmed, with `impl `.
pub open spec fn rs_line_ok(l: Seq<char>) -> bool {
    is_line(l) && !starts_with(trim(l), "impl "@)
}

proof fn lemma_annotation_lacks_newline(v: SpecVariable)
    requires
        rust_var_round_trips(v),
    ensures
        !rs_type_annotation(v.var_type, v.array_kind, v.is_optional()).contains('\n'),
{
    let r = rs_type(v.var_type);
    lemma_rs_type_word(v.var_type);
    lemma_word_lacks(r, '\n');
    reveal_strlit("Option<");
    reveal_strlit("Vec<");
    reveal_strlit("[");
    reveal_strlit("]");
    reveal_strlit(">");
    reveal_strlit("; ");
    let w = match v.array_kind {
        ArrayKind::Scalar => r,
        ArrayKind::Static(n) => "["@ + r + "; "@ + decimal(n as nat) + "]"@,
        ArrayKind::Dynamic => "Vec<"@ + r + ">"@,
    };
    match v.array_kind {
        ArrayKind::Scalar => {},
        ArrayKind::Static(n) => {
            let d = decimal(n as nat);
            lemma_decimal_digits(n as nat);
            assert(!d.contains('\n')) by {
                if d.contains('\n') {
                    let k = choose|k: int| 0 <= k < d.len() && d[k] == '\n';
                    assert(is_digit(d[k]));
                }
            }
            lemma_lacks_concat("["@, r, '\n');
            lemma_lacks_concat("["@ + r, "; "@, '\n');
            lemma_lacks_concat("["@ + r + "; "@, d, '\n');
            lemma_lacks_concat("["@ + r + "; "@ + d, "]"@, '\n');
        },
        ArrayKind::Dynamic => {
            lemma_lacks_concat("Vec<"@, r, '\n');
            lemma_lacks_concat("Vec<"@ + r, ">"@, '\n');
        },
    }
    if v.is_optional() {
        lemma_lacks_concat("Option<"@, w, '\n');
        lemma_lacks_concat("Option<"@ + w, ">"@, '\n');
    }
}

proof fn lemma_struct_lines_ok(o: SpecOmlObject)
    requires
        rust_round_trips(o),
    ensures
        forall|k: int| 0 <= k < rs_struct_lines(o).len() ==> rs_line_ok(#[trigger] rs_struct_lines(o)[k]),
{
    let lines_o = rs_struct_lines(o);
    let m = o.variables.map_values(|v: SpecVariable| rs_field_line(v));
    let n = o.variables.len() as int;
    reveal_strlit("#[derive(Debug, Clone)]");
    reveal_strlit("pub struct ");
    reveal_strlit(" {");
    reveal_strlit("}");
    reveal_strlit("impl ");
    reveal_strlit("\t");
    reveal_strlit(": ");
    reveal_strlit(",");
    reveal_strlit("pub ");
    reveal_strlit("pub(crate) ");
    let l0 = "#[derive(Debug, Clone)]"@;
    lemma_trim_unchanged(l0);
    lemma_not_starts_with(l0, "impl "@, 0);
    assert(rs_line_ok(l0));
    let l1 = "pub struct "@ + o.name + " {"@;
    lemma_word_lacks(o.name, '\n');
    lemma_lacks_concat("pub struct "@, o.name, '\n');
    lemma_lacks_concat("pub struct "@ + o.name, " {"@, '\n');
    assert(l1[0] == 'p');
    assert(l1.last() == '{');
    lemma_trim_unchanged(l1);
    lemma_not_starts_with(l1, "impl "@, 0);
    assert(rs_line_ok(l1));
    let lc = "}"@;
    lemma_trim_unchanged(lc);
    lemma_not_starts_with(lc, "impl "@, 0);
    assert(rs_line_ok(lc));
    assert forall|k: int| 0 <= k < lines_o.len() implies rs_line_ok(#[trigger] lines_o[k]) by {
        if 2 <= k < 2 + n {
            let v = o.variables[k - 2];
            assert(rust_var_round_trips(v));
            assert(lines_o[k] == rs_field_line(v));
            lemma_rust_field_round_trip(v);
            lemma_annotation_lacks_newline(v);
            let vis = rs_visibility(v.visibility);
            let a = rs_type_annotation(v.var_type, v.array_kind, v.is_optional());
            lemma_word_lacks(v.name, '\n');
            assert(!vis.contains('\n'));
            lemma_lacks_concat("\t"@, vis, '\n');
            lemma_lacks_concat("\t"@ + vis, v.name, '\n');
            lemma_lacks_concat("\t"@ + vis + v.name, ": "@, '\n');
            lemma_lacks_concat("\t"@ + vis + v.name + ": "@, a, '\n');
            lemma_lacks_concat("\t"@ + vis + v.name + ": "@ + a, ","@, '\n');
            assert(rs_field_line(v).last() == ',');
        } else if k == 0 {
            assert(lines_o[k] == l0);
        } else if k == 1 {
            assert(lines_o[k] == l1);
        } else {
            assert(lines_o[k] == lc);
        }
    }
}

proof fn lemma_enum_lines_ok(o: SpecOmlObject)
    requires
        rust_enum_round_trips(o),
    ensures
        forall|k: int| 0 <= k < rs_enum_lines(o).len() ==> rs_line_ok(#[trigger] rs_enum_lines(o)[k]),
{
    let lines_o = rs_enum_lines(o);
    let n = o.variables.len() as int;
    reveal_strlit("#[derive(Debug, Clone, PartialEq)]");
    reveal_strlit("pub enum ");
    reveal_strlit(" {");
    reveal_strlit("}");
    reveal_strlit("impl ");
    let l0 = "#[derive(Debug, Clone, PartialEq)]"@;
    lemma_trim_unchanged(l0);
    lemma_not_starts_with(l0, "impl "@, 0);
    assert(rs_line_ok(l0));
    let l1 = "pub enum "@ + o.name + " {"@;
    lemma_word_lacks(o.name, '\n');
    lemma_lacks_concat("pub enum "@, o.name, '\n');
    lemma_lacks_concat("pub enum "@ + o.name, " {"@, '\n');
    assert(l1[0] == 'p');
    assert(l1.last() == '{');
    lemma_trim_unchanged(l1);
    lemma_not_starts_with(l1, "impl "@, 0);
    assert(rs_line_ok(l1));
    let lc = "}"@;
    lemma_trim_unchanged(lc);
    lemma_not_starts_with(lc, "impl "@, 0);
    assert(rs_line_ok(lc));
    assert forall|k: int| 0 <= k < lines_o.len() implies rs_line_ok(#[trigger] lines_o[k]) by {
        if 2 <= k < 2 + n {
            let v = o.variables[k - 2];
            assert(is_word(capitalised(v.name)));
            assert(lines_o[k] == rs_variant_line(v));
            lemma_rs_variant_line(v);
        } else if k == 0 {
            assert(lines_o[k] == l0);
        } else if k == 1 {
            assert(lines_o[k] == l1);
        } else {
            assert(lines_o[k] == lc);
        }
    }
}

proof fn lemma_object_lines_ok(o: SpecOmlObject)
    requires
        rust_object_round_trips(o),
    ensures
        forall|k: int| 0 <= k < rs_object_lines(o).len() ==> rs_line_ok(#[trigger] rs_object_lines(o)[k]),
{
    if o.oml_type == ObjectType::ENUM {
        lemma_enum_lines_ok(o);
    } else {
        lemma_struct_lines_ok(o);
    }
}

proof fn lemma_objects_lines_ok(objs: Seq<SpecOmlObject>)
    requires
        forall|i: int| 0 <= i < objs.len() ==> rust_object_round_trips(#[trigger] objs[i]),
    ensures
        forall|k: int| 0 <= k < rs_objects_lines(objs).len() ==> rs_line_ok(#[trigger] rs_objects_lines(objs)[k]),
    decreases objs.len(),
{
    if objs.len() > 0 {
        let rest = objs.drop_first();
        assert forall|i: int| 0 <= i < rest.len() implies rust_object_round_trips(#[trigger] rest[i]) by {
            assert(rest[i] == objs[i + 1]);
        }
        lemma_objects_lines_ok(rest);
        assert(rust_object_round_trips(objs[0]));
        lemma_object_lines_ok(objs[0]);
        let b = rs_object_lines(objs[0]);
        let all = rs_objects_lines(objs);
        assert(all == b + seq![Seq::<char>::empty()] + rs_objects_lines(rest));
        reveal_strlit("impl ");
        assert(rs_line_ok(Seq::<char>::empty()));
        assert forall|k: int| 0 <= k < all.len() implies rs_line_ok(#[trigger] all[k]) by {
            if k < b.len() {
                assert(all[k] == b[k]);
            } else if k == b.len() {
                assert(all[k] == Seq::<char>::empty());
            } else {
                assert(all[k] == rs_objects_lines(rest)[k - b.len() - 1]);
            }
        }
    }
}

proof fn lemma_header_lines_ok(file_name: Seq<char>)
    requires
        !file_name.contains('\n'),
    ensures
        forall|k: int| 0 <= k < rs_header_lines(file_name).len() ==> rs_line_ok(#[trigger] rs_header_lines(file_name)[k]),
        forall|k: int| 0 <= k < rs_header_lines(file_name).len() ==> rust_header(trim(#[trigger] rs_header_lines(file_name)[k])) == RustReading::Outside,
{
    reveal_strlit("// This file has been generated from ");
    reveal_strlit(".oml");
    reveal_strlit("#[allow(dead_code)]");
    reveal_strlit("impl ");
    reveal_strlit("pub enum ");
    reveal_strlit("pub struct ");
    let h = rs_header_lines(file_name);
    let c = "// This file has been generated from "@ + file_name + ".oml"@;
    lemma_lacks_concat("// This file has been generated from "@, file_name, '\n');
    lemma_lacks_concat("// This file has been generated from "@ + file_name, ".oml"@, '\n');
    assert(c[0] == '/');
    assert(c.last() == 'l');
    lemma_trim_unchanged(c);
    lemma_not_starts_with(c, "impl "@, 0);
    lemma_not_starts_with(c, "pub enum "@, 0);
    lemma_not_starts_with(c, "pub struct "@, 0);
    let a = "#[allow(dead_code)]"@;
    lemma_trim_unchanged(a);
    lemma_not_starts_with(a, "impl "@, 0);
    lemma_not_starts_with(a, "pub enum "@, 0);
    lemma_not_starts_with(a, "pub struct "@, 0);
    let e = Seq::<char>::empty();
    assert(trim(e) == e);
    assert forall|k: int| 0 <= k < h.len() implies rs_line_ok(#[trigger] h[k]) && rust_header(trim(h[k])) == RustReading::Outside by {
        if k == 0 {
            assert(h[k] == c);
        } else if k == 2 {
            assert(h[k] == a);
        } else {
            assert(h[k] == e);
        }
    }
}

proof fn lemma_rust_read_objects(ls: Seq<Seq<char>>, i: int, objs: Seq<SpecOmlObject>)
    requires
        forall|j: int| 0 <= j < objs.len() ==> rust_object_round_trips(#[trigger] objs[j]),
        0 <= i,
        i + rs_objects_lines(objs).len() <= ls.len(),
        forall|k: int| 0 <= k < rs_objects_lines(objs).len() ==> ls[i + k] == #[trigger] rs_objects_lines(objs)[k],
        forall|j: int| i <= j < ls.len() ==> !starts_with(trim(#[trigger] ls[j]), "impl "@),
    ensures
        rust_read(ls, i, RustReading::Outside)
            == objs.map_values(|o: SpecOmlObject| rust_object_read_back(o)) + rust_read(ls, i + rs_objects_lines(objs).len(), RustReading::Outside),
    decreases objs.len(),
{
    if objs.len() == 0 {
        assert(objs.map_values(|o: SpecOmlObject| rust_object_read_back(o)) =~= Seq::<SpecOmlObject>::empty());
        assert(rs_objects_lines(objs).len() == 0);
    } else {
        let rest = objs.drop_first();
        let b = rs_object_lines(objs[0]);
        let all = rs_objects_lines(objs);
        assert(all == b + seq![Seq::<char>::empty()] + rs_objects_lines(rest));
        assert(rust_object_round_trips(objs[0]));
        assert forall|k: int| 0 <= k < b.len() implies ls[i + k] == #[trigger] b[k] by {
            assert(all[k] == b[k]);
        }
        lemma_rust_read_object(ls, i, objs[0]);
        let p = i + b.len();
        assert(ls[p] == all[b.len() as int]);
        assert(ls[p] == Seq::<char>::empty());
        assert(trim(Seq::<char>::empty()) == Seq::<char>::empty());
        assert(rust_header(trim(ls[p])) == RustReading::Outside);
        assert(rust_read(ls, p, RustReading::Outside) == rust_read(ls, p + 1, RustReading::Outside));
        assert forall|j: int| 0 <= j < rest.len() implies rust_object_round_trips(#[trigger] rest[j]) by {
            assert(rest[j] == objs[j + 1]);
        }
        assert forall|k: int| 0 <= k < rs_objects_lines(rest).len() implies ls[p + 1 + k] == #[trigger] rs_objects_lines(rest)[k] by {
            assert(all[b.len() + 1 + k] == rs_objects_lines(rest)[k]);
        }
        lemma_rust_read_objects(ls, p + 1, rest);
        assert(objs.map_values(|o: SpecOmlObject| rust_object_read_back(o))
            =~= seq![rust_object_read_back(objs[0])] + rest.map_values(|o: SpecOmlObject| rust_object_read_back(o)));
    }
}

/// Reading back a Rust file generated from enums, classes and structs gives
/// each of them back under the same name. An enum comes back as an enum whose
/// variants are named by the capitalised names of its variables. A class or
/// struct comes back as a struct, each variable with its visibility, type,
/// array kind, name and optionality (its `CONST` and `MUT` modifiers are not
/// written in Rust). It holds for enums whose name and whose variables'
/// capitalised names are words, and for classes and structs whose names,
/// variable names and type names are words, with no static variable and no
/// type named by the Rust spelling of another OML type, in a file whose name
/// holds no line break.
pub proof fn law_rust_round_trip(objs: Seq<SpecOmlObject>, file_name: Seq<char>)
    requires
        forall|i: int| 0 <= i < objs.len() ==> rust_object_round_trips(#[trigger] objs[i]),
        !file_name.contains('\n'),
    ensures
        rs_file(objs, file_name) is Ok,
        rs_file(objs, file_name) matches Ok(text)
            && rust_objects(text) == objs.map_values(|o: SpecOmlObject| rust_object_read_back(o)),
{
    assert(!crate::generate::has_undecided(objs)) by {
        if crate::generate::has_undecided(objs) {
            let i = choose|i: int| 0 <= i < objs.len() && objs[i].oml_type == ObjectType::UNDECIDED;
            assert(rust_object_round_trips(objs[i]));
        }
    }
    let ls = rs_file_lines(objs, file_name);
    let h = rs_header_lines(file_name);
    let body = if objs.len() == 0 {
        Seq::<Seq<char>>::empty()
    } else {
        rs_objects_lines(objs.drop_last()) + rs_object_lines(objs.last())
    };
    assert(ls == h + body);
    lemma_rs_header_text(file_name);
    lemma_rs_objects_text_all(objs);
    lemma_unlines_add(h, body);
    let text = unlines(ls);
    assert(rs_file(objs, file_name) == Ok::<Seq<char>, crate::generate::GenerateError>(text));
    // every line stands alone and none begins with `impl `
    lemma_header_lines_ok(file_name);
    if objs.len() > 0 {
        assert forall|i: int| 0 <= i < objs.drop_last().len() implies rust_object_round_trips(#[trigger] objs.drop_last()[i]) by {
            assert(objs.drop_last()[i] == objs[i]);
        }
        lemma_objects_lines_ok(objs.drop_last());
        assert(rust_object_round_trips(objs.last()));
        lemma_object_lines_ok(objs.last());
    }
    assert forall|k: int| 0 <= k < ls.len() implies rs_line_ok(#[trigger] ls[k]) by {
        if k < h.len() {
            assert(ls[k] == h[k]);
        } else {
            let a = rs_objects_lines(objs.drop_last());
            let b = rs_object_lines(objs.last());
            assert(body == a + b);
            if k < h.len() + a.len() {
                assert(ls[k] == a[k - h.len()]);
            } else {
                assert(ls[k] == b[k - h.len() - a.len()]);
            }
        }
    }
    assert forall|k: int| 0 <= k < ls.len() implies is_line(#[trigger] ls[k]) by {
        assert(rs_line_ok(ls[k]));
    }
    lemma_lines_unlines(ls);
    assert(lines(text) == ls);
    // reading: the header, then the structs
    assert forall|k: int| 0 <= k < 4 implies rust_header(trim(#[trigger] ls[k])) == RustReading::Outside by {
        assert(ls[k] == h[k]);
    }
    assert(rust_read(ls, 0, RustReading::Outside) == rust_read(ls, 1, RustReading::Outside));
    assert(rust_read(ls, 1, RustReading::Outside) == rust_read(ls, 2, RustReading::Outside));
    assert(rust_read(ls, 2, RustReading::Outside) == rust_read(ls, 3, RustReading::Outside));
    assert(rust_read(ls, 3, RustReading::Outside) == rust_read(ls, 4, RustReading::Outside));
    assert forall|j: int| 0 <= j < ls.len() implies !starts_with(trim(#[trigger] ls[j]), "impl "@) by {
        assert(rs_line_ok(ls[j]));
    }
    if objs.len() == 0 {
        assert(ls.len() == 4);
        assert(objs.map_values(|o: SpecOmlObject| rust_object_read_back(o)) =~= Seq::<SpecOmlObject>::empty());
    } else {
        let init = objs.drop_last();
        assert forall|i: int| 0 <= i < init.len() implies rust_object_round_trips(#[trigger] init[i]) by {
            assert(init[i] == objs[i]);
        }
        let a = rs_objects_lines(init);
        let b = rs_object_lines(objs.last());
        assert forall|k: int| 0 <= k < a.len() implies ls[4 + k] == #[trigger] a[k] by {
            assert(ls == h + (a + b));
        }
        lemma_rust_read_objects(ls, 4, init);
        assert forall|k: int| 0 <= k < b.len() implies ls[4 + a.len() + k] == #[trigger] b[k] by {
            assert(ls == h + (a + b));
        }
        lemma_rust_read_object(ls, 4 + a.len() as int, objs.last());
        assert(ls.len() == 4 + a.len() + b.len());
        assert(rust_read(ls, ls.len() as int, RustReading::Outside) == Seq::<SpecOmlObject>::empty());
        assert(objs.map_values(|o: SpecOmlObject| rust_object_read_back(o))
            =~= init.map_values(|o: SpecOmlObject| rust_object_read_back(o)) + seq![rust_object_read_back(objs.last())]);
    }
}

} // verus!
