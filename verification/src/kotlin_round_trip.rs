use vstd::prelude::*;
use crate::oml_object::{
    ArrayKind, ObjectType, Pick, SpecOmlObject, SpecVariable, VariableModifier, VariableVisibility,
    lemma_pick_len, pick, picked,
};
use crate::chars::{
    after_prefix, ends_with, is_ident_char, is_line, is_word, is_ws, lemma_lacks_concat, lemma_not_starts_with,
    lemma_starts_with_concat, lemma_trim_start_after_ws, lemma_trim_unchanged, lemma_unlines_add,
    lemma_unlines_one, starts_with, trim, unlines, first_index_in, lemma_first_index_in,
};
use crate::laws::law_kotlin_type_round_trip;
use crate::round_trip::{lemma_ident_not_ws, lemma_trim_word, lemma_word_not_starts_with};
use crate::generators::kotlin::{
    kt_enum_text, kt_enum_variants, kt_binding, kt_class_text, kt_constructor_params, kt_ctor_params, kt_file, kt_object_text,
    kt_objects_text, kt_property_param, kt_static_properties, kt_static_property, kt_type,
    kt_type_annotation, kt_visibility,
};
use crate::generators::kotlin_reverse::{
    KotlinReading, kotlin_bare_class, kotlin_class_name, kotlin_companion_var, kotlin_decl_name, kotlin_header, kotlin_param, kotlin_property,
    kotlin_objects, kotlin_read, kotlin_type_annotation, oml_of_kotlin_type,
};
use crate::generate::{GenerateError, has_undecided};
use crate::reading::{opt_seq, read_object, read_var, variant_var};
use crate::text::str_upper;
use crate::generators::cpp::cpp_enum_variants;
use crate::cpp_file_round_trip::{cpp_enum_line, cpp_enum_variant_lines, lemma_enum_line, lemma_enum_variant_lines};

verus! {

// ---------------------------------------------------------------- types

/// Whether a variable reads back from Kotlin: its name and type are words,
/// its type is none of the narrow integers that Kotlin widens and no Kotlin
/// spelling of another OML type.
pub open spec fn kotlin_var_round_trips(v: SpecVariable) -> bool {
    &&& is_word(v.name)
    &&& is_word(v.var_type)
    &&& v.var_type != "int8"@
    &&& v.var_type != "int16"@
    &&& v.var_type != "uint8"@
    &&& v.var_type != "uint16"@
    &&& (kt_type(v.var_type) != v.var_type || oml_of_kotlin_type(v.var_type) == v.var_type)
}

/// The array kind that a Kotlin type reads back as: the size of a static
/// array is not written, so it reads as 0.
pub open spec fn kotlin_read_kind(k: ArrayKind) -> ArrayKind {
    match k {
        ArrayKind::Static(_) => ArrayKind::Static(0),
        _ => k,
    }
}

/// What follows the Kotlin type of an optional value.
pub open spec fn null_default(opt: bool) -> Seq<char> {
    if opt { "? = null"@ } else { Seq::empty() }
}

/// The Kotlin spelling of a word is a word.
proof fn lemma_kt_type_word(t: Seq<char>)
    requires
        is_word(t),
    ensures
        is_word(kt_type(t)),
{
    reveal_strlit("Int");
    reveal_strlit("Long");
    reveal_strlit("UInt");
    reveal_strlit("ULong");
    reveal_strlit("Float");
    reveal_strlit("Double");
    reveal_strlit("Boolean");
    reveal_strlit("String");
    reveal_strlit("Char");
}

/// A word does not end with a text that holds a character other than an
/// identifier character at index `i`.
proof fn lemma_word_not_ends_with(w: Seq<char>, p: Seq<char>, i: int)
    requires
        is_word(w),
        0 <= i < p.len(),
        !is_ident_char(p[i]),
    ensures
        !ends_with(w, p),
{
    if ends_with(w, p) {
        assert(w.skip(w.len() - p.len())[i] == w[w.len() - p.len() + i]);
    }
}

/// The facts about the Kotlin type written for a word type that reading it
/// back needs.
#[verifier::spinoff_prover]
#[verifier::rlimit(50)]
pub(crate) proof fn lemma_kotlin_annotation(t: Seq<char>, k: ArrayKind, opt: bool)
    requires
        is_word(t),
        t != "int8"@ && t != "int16"@ && t != "uint8"@ && t != "uint16"@,
        kt_type(t) != t || oml_of_kotlin_type(t) == t,
    ensures
        kotlin_type_annotation(kt_type_annotation(t, k) + null_default(opt)) == (t, kotlin_read_kind(k), opt),
        (kt_type_annotation(t, k) + null_default(opt)).len() > 0,
        is_ident_char((kt_type_annotation(t, k) + null_default(opt))[0]),
        !is_ws((kt_type_annotation(t, k) + null_default(opt)).last()),
        (kt_type_annotation(t, k) + null_default(opt)).last() != ',',
        !(kt_type_annotation(t, k) + null_default(opt)).contains('\n'),
        trim(kt_type_annotation(t, k) + null_default(opt)) == kt_type_annotation(t, k) + null_default(opt),
{
    let r = kt_type(t);
    lemma_kt_type_word(t);
    law_kotlin_type_round_trip(t);
    lemma_trim_word(r);
    reveal_strlit("Array<");
    reveal_strlit("MutableList<");
    reveal_strlit(">");
    reveal_strlit("? = null");
    let a = kt_type_annotation(t, k);
    let s = a + null_default(opt);
    crate::chars::lemma_word_lacks(r, '\n');
    match k {
        ArrayKind::Scalar => {
            assert(a == r);
            lemma_word_not_starts_with(r, "Array<"@, 5);
            lemma_word_not_starts_with(r, "MutableList<"@, 11);
        },
        ArrayKind::Static(_) => {
            assert(a =~= "Array<"@ + (r + seq!['>']));
            lemma_starts_with_concat("Array<"@, r + seq!['>']);
            assert((r + seq!['>']).drop_last() =~= r);
            lemma_lacks_concat(r, seq!['>'], '\n');
            lemma_lacks_concat("Array<"@, r + seq!['>'], '\n');
        },
        ArrayKind::Dynamic => {
            assert(a =~= "MutableList<"@ + (r + seq!['>']));
            lemma_starts_with_concat("MutableList<"@, r + seq!['>']);
            lemma_not_starts_with(a, "Array<"@, 0);
            assert((r + seq!['>']).drop_last() =~= r);
            lemma_lacks_concat(r, seq!['>'], '\n');
            lemma_lacks_concat("MutableList<"@, r + seq!['>'], '\n');
        },
    }
    assert(!a.contains('\n'));
    assert(a.len() > 0 && is_ident_char(a[0]));
    assert(a.last() == '>' || is_ident_char(a.last()));
    lemma_ident_not_ws(a[0]);
    if opt {
        assert(s =~= a + "? = null"@);
        assert(s.last() == 'l');
        assert(s.skip(s.len() - 8) =~= "? = null"@);
        assert(ends_with(s, "? = null"@));
        assert(s.take(s.len() - 8) =~= a);
        assert(!"? = null"@.contains('\n')) by {
            if "? = null"@.contains('\n') {
                let j = choose|j: int| 0 <= j < 8 && "? = null"@[j] == '\n';
            }
        }
        lemma_lacks_concat(a, "? = null"@, '\n');
    } else {
        assert(s =~= a);
        if a.last() == '>' {
            if ends_with(a, "? = null"@) {
                assert(a.skip(a.len() - 8).last() == a.last());
            }
        } else {
            assert(is_word(r) && a == r);
            lemma_word_not_ends_with(r, "? = null"@, 0);
        }
    }
    assert(s[0] == a[0]);
    lemma_ident_not_ws(a[0]);
    lemma_trim_unchanged(s);
}

/// `name: Type` is read as that name and type.
#[verifier::spinoff_prover]
proof fn lemma_kotlin_property(mods: Seq<VariableModifier>, vis: VariableVisibility, n: Seq<char>, t: Seq<char>, k: ArrayKind, opt: bool)
    requires
        is_word(n),
        is_word(t),
        t != "int8"@ && t != "int16"@ && t != "uint8"@ && t != "uint16"@,
        kt_type(t) != t || oml_of_kotlin_type(t) == t,
    ensures
        kotlin_property(mods, vis, n + ": "@ + (kt_type_annotation(t, k) + null_default(opt)))
            == Some(read_var(if opt { mods.push(VariableModifier::OPTIONAL) } else { mods }, vis, t, kotlin_read_kind(k), n)),
{
    let x = kt_type_annotation(t, k) + null_default(opt);
    lemma_kotlin_annotation(t, k, opt);
    reveal_strlit(": ");
    let rest = n + ": "@ + x;
    crate::chars::lemma_word_lacks(n, ':');
    assert(rest =~= n + seq![':'] + (seq![' '] + x));
    crate::chars::lemma_first_index_at(n, ':', seq![' '] + x);
    assert(rest.take(n.len() as int) =~= n);
    assert(rest.skip(n.len() as int + 1) =~= seq![' '] + x);
    lemma_trim_word(n);
    lemma_trim_start_after_ws(seq![' '], x);
    lemma_ident_not_ws(x[0]);
    assert(crate::chars::trim_start(x) == x);
    assert(trim(seq![' '] + x) == trim(x));
}

/// What the Kotlin reader gives back for a property of a primary
/// constructor: its visibility, type, name and the kind of array it is (a
/// static array of size 0), `CONST` where it is a `val` and `OPTIONAL`
/// where it is optional.
pub open spec fn kotlin_read_back_param(v: SpecVariable) -> SpecVariable {
    read_var(
        (if v.is_readonly() { seq![VariableModifier::CONST] } else { Seq::<VariableModifier>::empty() })
            + (if v.is_optional() { seq![VariableModifier::OPTIONAL] } else { Seq::<VariableModifier>::empty() }),
        v.visibility,
        v.var_type,
        kotlin_read_kind(v.array_kind),
        v.name,
    )
}

/// What the Kotlin reader gives back for a property of a companion object:
/// a private `STATIC` variable, `CONST` where it is a `val` and `OPTIONAL`
/// where it is optional, with its type, name and kind of array.
pub open spec fn kotlin_read_back_static(v: SpecVariable) -> SpecVariable {
    read_var(
        seq![VariableModifier::STATIC]
            + (if v.is_readonly() { seq![VariableModifier::CONST] } else { Seq::<VariableModifier>::empty() })
            + (if v.is_optional() { seq![VariableModifier::OPTIONAL] } else { Seq::<VariableModifier>::empty() }),
        VariableVisibility::PRIVATE,
        v.var_type,
        kotlin_read_kind(v.array_kind),
        v.name,
    )
}

/// The line of a primary constructor that declares `v`, with a trailing
/// comma where `comma` holds.
pub open spec fn kotlin_param_line(v: SpecVariable, comma: bool) -> Seq<char> {
    kt_property_param(v, v.is_optional()) + (if comma { ","@ } else { Seq::<char>::empty() })
}

/// Reading back the line of a primary constructor that declares a property
/// gives the property.
#[verifier::spinoff_prover]
#[verifier::rlimit(50)]
proof fn lemma_kotlin_param_line(v: SpecVariable, comma: bool)
    requires
        kotlin_var_round_trips(v),
    ensures
        is_line(kotlin_param_line(v, comma)),
        trim(kotlin_param_line(v, comma)).len() > 0,
        trim(kotlin_param_line(v, comma))[0] != ')',
        kotlin_param(trim(kotlin_param_line(v, comma))) == Some(kotlin_read_back_param(v)),
{
    let opt = v.is_optional();
    let x = kt_type_annotation(v.var_type, v.array_kind) + null_default(opt);
    lemma_kotlin_annotation(v.var_type, v.array_kind, opt);
    reveal_strlit("\t");
    reveal_strlit("private ");
    reveal_strlit("protected ");
    reveal_strlit("val ");
    reveal_strlit("var ");
    reveal_strlit(": ");
    reveal_strlit(",");
    reveal_strlit("? = null");
    let vis = kt_visibility(v.visibility);
    let b = kt_binding(v);
    let n = v.name;
    let rest = n + ": "@ + x;
    let core = vis + b + rest;
    let c = if comma { ","@ } else { Seq::<char>::empty() };
    let line = kotlin_param_line(v, comma);
    assert(kt_property_param(v, opt) =~= seq!['\t'] + core);
    assert(line =~= seq!['\t'] + (core + c));
    // the line stands alone
    crate::chars::lemma_word_lacks(n, '\n');
    assert(!vis.contains('\n'));
    assert(!b.contains('\n'));
    lemma_lacks_concat(n, ": "@, '\n');
    lemma_lacks_concat(n + ": "@, x, '\n');
    lemma_lacks_concat(vis, b, '\n');
    lemma_lacks_concat(vis + b, rest, '\n');
    assert(!c.contains('\n'));
    lemma_lacks_concat(core, c, '\n');
    lemma_lacks_concat(seq!['\t'], core + c, '\n');
    // trimming drops the tab
    assert(core[0] == (if v.visibility == VariableVisibility::PUBLIC { 'v' } else { 'p' }));
    assert((core + c).last() == (if comma { ',' } else { x.last() }));
    lemma_trim_start_after_ws(seq!['\t'], core + c);
    lemma_trim_unchanged(core + c);
    assert(trim(line) == core + c);
    // the trailing comma goes
    if comma {
        crate::chars::lemma_trim_end_in_one(core, ',', ","@);
        assert(core + c =~= core + seq![',']);
    } else {
        crate::chars::lemma_trim_end_in_unchanged(core, ","@);
        assert(core + c =~= core);
    }
    assert(!","@.contains(x.last())) by {
        if ","@.contains(x.last()) {
            let j = choose|j: int| 0 <= j < 1 && ","@[j] == x.last();
        }
    }
    assert(crate::chars::trim_end_in(trim(core + c), ","@) == core);
    // the visibility word
    let r1 = b + rest;
    match v.visibility {
        VariableVisibility::PRIVATE => {
            assert(core =~= "private "@ + r1);
            lemma_starts_with_concat("private "@, r1);
        },
        VariableVisibility::PROTECTED => {
            assert(core =~= "protected "@ + r1);
            lemma_starts_with_concat("protected "@, r1);
            lemma_not_starts_with(core, "private "@, 2);
        },
        VariableVisibility::PUBLIC => {
            assert(core =~= r1);
            lemma_not_starts_with(core, "private "@, 0);
            lemma_not_starts_with(core, "protected "@, 0);
        },
    }
    // the binding
    lemma_kotlin_property(
        if v.is_readonly() { seq![VariableModifier::CONST] } else { Seq::<VariableModifier>::empty() },
        v.visibility, n, v.var_type, v.array_kind, opt);
    if v.is_readonly() {
        assert(r1 =~= "val "@ + rest);
        lemma_starts_with_concat("val "@, rest);
        assert(seq![VariableModifier::CONST] + (if opt { seq![VariableModifier::OPTIONAL] } else { Seq::<VariableModifier>::empty() })
            =~= (if opt { seq![VariableModifier::CONST].push(VariableModifier::OPTIONAL) } else { seq![VariableModifier::CONST] }));
    } else {
        assert(r1 =~= "var "@ + rest);
        lemma_starts_with_concat("var "@, rest);
        lemma_not_starts_with(r1, "val "@, 2);
        assert(Seq::<VariableModifier>::empty() + (if opt { seq![VariableModifier::OPTIONAL] } else { Seq::<VariableModifier>::empty() })
            =~= (if opt { Seq::<VariableModifier>::empty().push(VariableModifier::OPTIONAL) } else { Seq::<VariableModifier>::empty() }));
    }
}

/// The line of a companion object that declares `v`.
pub open spec fn kotlin_static_line(v: SpecVariable) -> Seq<char> {
    "\t\t"@ + kt_binding(v) + v.name + ": "@ + (kt_type_annotation(v.var_type, v.array_kind) + null_default(v.is_optional()))
}

/// Reading back the line of a companion object that declares a property
/// gives the property.
#[verifier::spinoff_prover]
#[verifier::rlimit(50)]
proof fn lemma_kotlin_static_line(v: SpecVariable)
    requires
        kotlin_var_round_trips(v),
    ensures
        kt_static_property(v) == kotlin_static_line(v) + seq!['\n'],
        is_line(kotlin_static_line(v)),
        trim(kotlin_static_line(v)) != "}"@,
        !starts_with(trim(kotlin_static_line(v)), "companion object {"@),
        kotlin_companion_var(trim(kotlin_static_line(v))) == Some(kotlin_read_back_static(v)),
{
    let opt = v.is_optional();
    let x = kt_type_annotation(v.var_type, v.array_kind) + null_default(opt);
    lemma_kotlin_annotation(v.var_type, v.array_kind, opt);
    reveal_strlit("\t\t");
    reveal_strlit("val ");
    reveal_strlit("var ");
    reveal_strlit(": ");
    reveal_strlit("\n");
    reveal_strlit("? = null\n");
    reveal_strlit("? = null");
    reveal_strlit("}");
    reveal_strlit("companion object {");
    let b = kt_binding(v);
    let n = v.name;
    let rest = n + ": "@ + x;
    let core = b + rest;
    let line = kotlin_static_line(v);
    assert(line =~= seq!['\t', '\t'] + core);
    assert(kt_static_property(v) =~= line + seq!['\n']);
    crate::chars::lemma_word_lacks(n, '\n');
    assert(!b.contains('\n'));
    lemma_lacks_concat(n, ": "@, '\n');
    lemma_lacks_concat(n + ": "@, x, '\n');
    lemma_lacks_concat(b, rest, '\n');
    lemma_lacks_concat(seq!['\t', '\t'], core, '\n');
    assert(core[0] == 'v');
    assert(core.last() == x.last());
    lemma_trim_start_after_ws(seq!['\t', '\t'], core);
    lemma_trim_unchanged(core);
    assert(trim(line) == core);
    assert(core != "}"@) by {
        assert("}"@[0] == '}');
    }
    lemma_not_starts_with(core, "companion object {"@, 0);
    lemma_kotlin_property(
        if v.is_readonly() { seq![VariableModifier::STATIC, VariableModifier::CONST] } else { seq![VariableModifier::STATIC] },
        VariableVisibility::PRIVATE, n, v.var_type, v.array_kind, opt);
    if v.is_readonly() {
        assert(core =~= "val "@ + rest);
        lemma_starts_with_concat("val "@, rest);
        assert(seq![VariableModifier::STATIC] + seq![VariableModifier::CONST]
            + (if opt { seq![VariableModifier::OPTIONAL] } else { Seq::<VariableModifier>::empty() })
            =~= (if opt { seq![VariableModifier::STATIC, VariableModifier::CONST].push(VariableModifier::OPTIONAL) } else { seq![VariableModifier::STATIC, VariableModifier::CONST] }));
    } else {
        assert(core =~= "var "@ + rest);
        lemma_starts_with_concat("var "@, rest);
        lemma_not_starts_with(core, "val "@, 2);
        assert(seq![VariableModifier::STATIC] + Seq::<VariableModifier>::empty()
            + (if opt { seq![VariableModifier::OPTIONAL] } else { Seq::<VariableModifier>::empty() })
            =~= (if opt { seq![VariableModifier::STATIC].push(VariableModifier::OPTIONAL) } else { seq![VariableModifier::STATIC] }));
    }
}

// ---------------------------------------------------------------- classes

proof fn lemma_pick_round_trip(vars: Seq<SpecVariable>, p: Pick)
    requires
        forall|k: int| 0 <= k < vars.len() ==> kotlin_var_round_trips(#[trigger] vars[k]),
    ensures
        forall|k: int| 0 <= k < pick(vars, p).len() ==> kotlin_var_round_trips(#[trigger] pick(vars, p)[k]),
    decreases vars.len(),
{
    if vars.len() > 0 {
        let init = vars.drop_last();
        assert forall|k: int| 0 <= k < init.len() implies kotlin_var_round_trips(#[trigger] init[k]) by {
            assert(init[k] == vars[k]);
        }
        lemma_pick_round_trip(init, p);
        assert(kotlin_var_round_trips(vars.last()));
        assert forall|k: int| 0 <= k < pick(vars, p).len() implies kotlin_var_round_trips(#[trigger] pick(vars, p)[k]) by {
            if k < pick(init, p).len() {
                assert(pick(vars, p)[k] == pick(init, p)[k]);
            }
        }
    }
}

/// The properties of the primary constructor of `o`: its required instance
/// variables, then its optional ones.
pub open spec fn kotlin_ctor_vars(o: SpecOmlObject) -> Seq<SpecVariable> {
    let inst = pick(o.variables, Pick::Instance);
    pick(inst, Pick::Required) + pick(inst, Pick::Optional)
}

/// Whether an object reads back from Kotlin: a class or struct with a word
/// as its name, whose variables all read back.
pub open spec fn kotlin_round_trips(o: SpecOmlObject) -> bool {
    &&& (o.oml_type == ObjectType::CLASS || o.oml_type == ObjectType::STRUCT)
    &&& is_word(o.name)
    &&& forall|j: int| 0 <= j < o.variables.len() ==> kotlin_var_round_trips(#[trigger] o.variables[j])
}

/// What the Kotlin reader gives back for a class or struct: a class of the
/// same name with the properties of its primary constructor (required, then
/// optional) and then those of its companion object, each read back.
pub open spec fn kotlin_read_back(o: SpecOmlObject) -> SpecOmlObject {
    read_object(
        ObjectType::CLASS,
        o.name,
        kotlin_ctor_vars(o).map_values(|v: SpecVariable| kotlin_read_back_param(v))
            + pick(o.variables, Pick::Static).map_values(|v: SpecVariable| kotlin_read_back_static(v)),
    )
}

/// The lines of the properties of a primary constructor, a comma after
/// each but the last (`total` is their number).
pub open spec fn kotlin_param_lines(items: Seq<SpecVariable>, total: nat) -> Seq<Seq<char>>
    decreases items.len(),
{
    if items.len() == 0 {
        Seq::empty()
    } else {
        kotlin_param_lines(items.drop_last(), total).push(kotlin_param_line(items.last(), items.len() < total))
    }
}

/// The lines of a companion object's properties.
pub open spec fn kotlin_static_lines(vars: Seq<SpecVariable>) -> Seq<Seq<char>> {
    vars.map_values(|v: SpecVariable| kotlin_static_line(v))
}

proof fn lemma_param_lines(items: Seq<SpecVariable>, total: nat)
    requires
        forall|k: int| 0 <= k < items.len() ==> kotlin_var_round_trips(#[trigger] items[k]),
        items.len() <= total,
    ensures
        kt_ctor_params(items, total) == unlines(kotlin_param_lines(items, total)),
        kotlin_param_lines(items, total).len() == items.len(),
        forall|k: int| 0 <= k < items.len() ==> #[trigger] kotlin_param_lines(items, total)[k]
            == kotlin_param_line(items[k], k + 1 < total),
    decreases items.len(),
{
    if items.len() > 0 {
        let init = items.drop_last();
        assert forall|k: int| 0 <= k < init.len() implies kotlin_var_round_trips(#[trigger] init[k]) by {
            assert(init[k] == items[k]);
        }
        lemma_param_lines(init, total);
        let v = items.last();
        let l = kotlin_param_line(v, items.len() < total);
        lemma_unlines_add(kotlin_param_lines(init, total), seq![l]);
        lemma_unlines_one(l);
        reveal_strlit(",\n");
        reveal_strlit(",");
        reveal_strlit("\n");
        assert(kt_property_param(v, v.is_optional()) + (if items.len() < total { ",\n"@ } else { "\n"@ })
            =~= l + seq!['\n']);
        assert(kotlin_param_lines(items, total) == kotlin_param_lines(init, total) + seq![l]);
        assert forall|k: int| 0 <= k < items.len() implies #[trigger] kotlin_param_lines(items, total)[k]
            == kotlin_param_line(items[k], k + 1 < total) by {
            if k < init.len() {
                assert(kotlin_param_lines(items, total)[k] == kotlin_param_lines(init, total)[k]);
                assert(init[k] == items[k]);
            }
        }
    } else {
        assert(unlines(Seq::<Seq<char>>::empty()) == Seq::<char>::empty());
    }
}

proof fn lemma_static_lines(vars: Seq<SpecVariable>)
    requires
        forall|k: int| 0 <= k < vars.len() ==> kotlin_var_round_trips(#[trigger] vars[k]),
    ensures
        kt_static_properties(vars) == unlines(kotlin_static_lines(vars)),
    decreases vars.len(),
{
    if vars.len() == 0 {
        assert(kotlin_static_lines(vars) =~= Seq::<Seq<char>>::empty());
    } else {
        let init = vars.drop_last();
        assert forall|k: int| 0 <= k < init.len() implies kotlin_var_round_trips(#[trigger] init[k]) by {
            assert(init[k] == vars[k]);
        }
        lemma_static_lines(init);
        let v = vars.last();
        lemma_kotlin_static_line(v);
        assert(kotlin_static_lines(vars) =~= kotlin_static_lines(init) + seq![kotlin_static_line(v)]);
        lemma_unlines_add(kotlin_static_lines(init), seq![kotlin_static_line(v)]);
        lemma_unlines_one(kotlin_static_line(v));
    }
}

/// Whether a Kotlin class is written as a data class.
pub open spec fn kotlin_is_data(o: SpecOmlObject, use_data_class: bool) -> bool {
    o.oml_type != ObjectType::CLASS || use_data_class
}

/// The line that opens a Kotlin class: with its primary constructor where it
/// has instance variables, else with its body where it has static ones, else
/// alone.
pub open spec fn kotlin_class_head(o: SpecOmlObject, use_data_class: bool) -> Seq<char> {
    (if kotlin_is_data(o, use_data_class) { "data class"@ } else { "class"@ }) + " "@ + o.name
        + (if pick(o.variables, Pick::Instance).len() > 0 {
            "("@
        } else if o.variables.len() > 0 {
            " {"@
        } else {
            Seq::<char>::empty()
        })
}

/// The lines of the companion object of a class and of the end of its body.
pub open spec fn kotlin_companion_lines(o: SpecOmlObject) -> Seq<Seq<char>> {
    seq!["\tcompanion object {"@] + kotlin_static_lines(pick(o.variables, Pick::Static)) + seq!["\t}"@, "}"@]
}

/// The lines of a Kotlin class.
pub open spec fn kotlin_class_lines(o: SpecOmlObject, use_data_class: bool) -> Seq<Seq<char>> {
    let statics = pick(o.variables, Pick::Static);
    let ctor = kotlin_ctor_vars(o);
    seq![kotlin_class_head(o, use_data_class)]
        + (if pick(o.variables, Pick::Instance).len() > 0 {
            kotlin_param_lines(ctor, ctor.len()) + seq![if statics.len() > 0 { ") {"@ } else { ")"@ }]
        } else {
            Seq::<Seq<char>>::empty()
        })
        + (if statics.len() > 0 { kotlin_companion_lines(o) } else { Seq::<Seq<char>>::empty() })
}

proof fn lemma_some_pick(vars: Seq<SpecVariable>)
    requires
        vars.len() > 0,
    ensures
        pick(vars, Pick::Static).len() > 0 || pick(vars, Pick::Instance).len() > 0,
{
    lemma_pick_len(vars, Pick::Static);
    lemma_pick_len(vars, Pick::Instance);
    if vars[0].is_static() {
        assert(picked(Pick::Static, vars[0]));
    } else {
        assert(picked(Pick::Instance, vars[0]));
    }
}

proof fn lemma_companion_text(o: SpecOmlObject)
    requires
        forall|j: int| 0 <= j < o.variables.len() ==> kotlin_var_round_trips(#[trigger] o.variables[j]),
    ensures
        "\tcompanion object {\n"@ + kt_static_properties(pick(o.variables, Pick::Static)) + "\t}\n"@ + "}\n"@
            == unlines(kotlin_companion_lines(o)),
{
    let statics = pick(o.variables, Pick::Static);
    lemma_pick_round_trip(o.variables, Pick::Static);
    lemma_static_lines(statics);
    let a = "\tcompanion object {"@;
    let sl = kotlin_static_lines(statics);
    let b = "\t}"@;
    let c = "}"@;
    lemma_unlines_add(seq![a] + sl, seq![b, c]);
    lemma_unlines_add(seq![a], sl);
    lemma_unlines_add(seq![b], seq![c]);
    assert(seq![b] + seq![c] =~= seq![b, c]);
    lemma_unlines_one(a);
    lemma_unlines_one(b);
    lemma_unlines_one(c);
    reveal_strlit("\tcompanion object {\n");
    reveal_strlit("\tcompanion object {");
    reveal_strlit("\t}\n");
    reveal_strlit("\t}");
    reveal_strlit("}\n");
    reveal_strlit("}");
    assert("\tcompanion object {\n"@ + kt_static_properties(statics) + "\t}\n"@ + "}\n"@
        =~= (a + seq!['\n']) + unlines(sl) + ((b + seq!['\n']) + (c + seq!['\n'])));
}

/// The text of a class that reads back is made of its lines.
#[verifier::spinoff_prover]
#[verifier::rlimit(50)]
proof fn lemma_kotlin_class_text(o: SpecOmlObject, use_data_class: bool)
    requires
        kotlin_round_trips(o),
    ensures
        kt_object_text(o, use_data_class) == unlines(kotlin_class_lines(o, use_data_class)),
{
    let d = kotlin_is_data(o, use_data_class);
    assert(kt_object_text(o, use_data_class) == kt_class_text(o, d));
    let statics = pick(o.variables, Pick::Static);
    let inst = pick(o.variables, Pick::Instance);
    let ctor = kotlin_ctor_vars(o);
    lemma_pick_len(o.variables, Pick::Static);
    lemma_pick_len(o.variables, Pick::Instance);
    if o.variables.len() > 0 {
        lemma_some_pick(o.variables);
    }
    lemma_pick_round_trip(o.variables, Pick::Instance);
    lemma_pick_round_trip(inst, Pick::Required);
    lemma_pick_round_trip(inst, Pick::Optional);
    assert forall|k: int| 0 <= k < ctor.len() implies kotlin_var_round_trips(#[trigger] ctor[k]) by {
        let r = pick(inst, Pick::Required);
        if k < r.len() {
            assert(ctor[k] == r[k]);
        } else {
            assert(ctor[k] == pick(inst, Pick::Optional)[k - r.len()]);
        }
    }
    lemma_param_lines(ctor, ctor.len());
    lemma_companion_text(o);
    let h = kotlin_class_head(o, use_data_class);
    let comp = if statics.len() > 0 { kotlin_companion_lines(o) } else { Seq::<Seq<char>>::empty() };
    assert(unlines(comp) == (if statics.len() > 0 {
        "\tcompanion object {\n"@ + kt_static_properties(statics) + "\t}\n"@ + "}\n"@
    } else {
        Seq::<char>::empty()
    })) by {
        assert(unlines(Seq::<Seq<char>>::empty()) == Seq::<char>::empty());
    }
    reveal_strlit("data class");
    reveal_strlit("class");
    reveal_strlit(" ");
    reveal_strlit("(");
    reveal_strlit(" {");
    reveal_strlit("(\n");
    reveal_strlit(" {\n");
    reveal_strlit(")");
    reveal_strlit(") {");
    reveal_strlit("\n");
    let kw = if d { "data class"@ } else { "class"@ };
    lemma_unlines_one(h);
    if inst.len() > 0 {
        let pl = kotlin_param_lines(ctor, ctor.len());
        let close = if statics.len() > 0 { ") {"@ } else { ")"@ };
        let mid = pl + seq![close];
        lemma_unlines_add(pl, seq![close]);
        lemma_unlines_one(close);
        lemma_unlines_add(seq![h] + mid, comp);
        lemma_unlines_add(seq![h], mid);
        assert(kotlin_class_lines(o, use_data_class) == seq![h] + mid + comp);
        assert(kt_constructor_params(inst) == kt_ctor_params(ctor, ctor.len()));
        assert(kt_class_text(o, d) =~= kw + " "@ + o.name + "(\n"@ + kt_ctor_params(ctor, ctor.len()) + ")"@
            + (if statics.len() == 0 { "\n"@ } else { " {\n"@ }) + unlines(comp));
        assert(kw + " "@ + o.name + "(\n"@ + kt_ctor_params(ctor, ctor.len()) + ")"@
            + (if statics.len() == 0 { "\n"@ } else { " {\n"@ }) + unlines(comp)
            =~= (h + seq!['\n']) + (unlines(pl) + (close + seq!['\n'])) + unlines(comp));
    } else {
        lemma_unlines_add(seq![h], comp);
        assert(kotlin_class_lines(o, use_data_class) =~= seq![h] + comp);
        assert(kt_class_text(o, d) =~= (h + seq!['\n']) + unlines(comp));
    }
}

// ---------------------------------------------------------------- reading a class

/// The first character of `a + seq![c] + b` that is in `set` is `c`, where
/// `a` holds none of them.
proof fn lemma_first_index_in_at(a: Seq<char>, c: char, b: Seq<char>, set: Seq<char>)
    requires
        set.contains(c),
        forall|j: int| 0 <= j < a.len() ==> !set.contains(#[trigger] a[j]),
    ensures
        first_index_in(a + seq![c] + b, set) == Some(a.len() as int),
{
    let s = a + seq![c] + b;
    lemma_first_index_in(s, set);
    assert(s[a.len() as int] == c);
    match first_index_in(s, set) {
        Some(k) => {
            if k < a.len() {
                assert(s[k] == a[k]);
            }
        },
        Option::None => {},
    }
}

/// The line that opens a class is read as opening it: its primary
/// constructor where it has instance variables, else its body where it has
/// static ones; a class without variables is the line alone.
#[verifier::spinoff_prover]
#[verifier::rlimit(50)]
proof fn lemma_kotlin_head(o: SpecOmlObject, use_data_class: bool)
    requires
        kotlin_round_trips(o),
    ensures
        is_line(kotlin_class_head(o, use_data_class)),
        trim(kotlin_class_head(o, use_data_class)) == kotlin_class_head(o, use_data_class),
        o.variables.len() > 0 ==> !kotlin_bare_class(kotlin_class_head(o, use_data_class)),
        o.variables.len() > 0 ==> kotlin_header(kotlin_class_head(o, use_data_class)) == (if pick(o.variables, Pick::Instance).len() > 0 {
            KotlinReading::InParams { name: o.name, vars: Seq::empty() }
        } else {
            KotlinReading::InBody { name: o.name, vars: Seq::empty(), in_companion: false }
        }),
        o.variables.len() == 0 ==> kotlin_bare_class(kotlin_class_head(o, use_data_class)),
        kotlin_decl_name(kotlin_class_head(o, use_data_class)) == o.name,
{
    reveal_strlit("data class");
    reveal_strlit("class");
    reveal_strlit("data class ");
    reveal_strlit("class ");
    reveal_strlit("enum class ");
    reveal_strlit(" ");
    reveal_strlit("(");
    reveal_strlit(" {");
    reveal_strlit("({ ");
    let n = o.name;
    let d = kotlin_is_data(o, use_data_class);
    let has_inst = pick(o.variables, Pick::Instance).len() > 0;
    let has_vars = o.variables.len() > 0;
    lemma_pick_len(o.variables, Pick::Instance);
    let prefix = if d { "data class "@ } else { "class "@ };
    let tail = if has_inst { "("@ } else if has_vars { " {"@ } else { Seq::<char>::empty() };
    let after = n + tail;
    let h = kotlin_class_head(o, use_data_class);
    assert(h =~= prefix + after);
    lemma_starts_with_concat(prefix, after);
    crate::chars::lemma_word_lacks(n, '\n');
    crate::chars::lemma_word_lacks(n, '(');
    assert(!tail.contains('\n'));
    lemma_lacks_concat(n, tail, '\n');
    lemma_lacks_concat(prefix, after, '\n');
    assert(h[0] == (if d { 'd' } else { 'c' }));
    assert(h.last() == (if has_inst { '(' } else if has_vars { '{' } else { n.last() }));
    assert(is_ident_char(n.last()));
    lemma_trim_unchanged(h);
    lemma_not_starts_with(h, "enum class "@, 0);
    if !d {
        lemma_not_starts_with(h, "data class "@, 0);
    }
    assert(after_prefix(h, prefix) == after);
    // the name ends at the first `(`, `{` or space
    assert forall|j: int| 0 <= j < n.len() implies !"({ "@.contains(#[trigger] n[j]) by {
        if "({ "@.contains(n[j]) {
            let k = choose|k: int| 0 <= k < 3 && "({ "@[k] == n[j];
            assert(is_ident_char(n[j]));
        }
    }
    if has_vars {
        assert("({ "@.contains(tail[0])) by {
            if has_inst {
                assert("({ "@[0] == tail[0]);
            } else {
                assert("({ "@[2] == tail[0]);
            }
        }
        assert(after =~= n + seq![tail[0]] + tail.drop_first());
        lemma_first_index_in_at(n, tail[0], tail.drop_first(), "({ "@);
        assert(after.take(n.len() as int) =~= n);
    } else {
        assert(after =~= n);
        lemma_first_index_in(n, "({ "@);
    }
    lemma_trim_word(n);
    assert(kotlin_class_name(after) == n);
    assert(kotlin_decl_name(h) == n);
    if has_inst {
        assert(h[h.len() - 1] == '(');
        assert(h.contains('('));
    } else {
        assert(!h.contains('(')) by {
            assert(!tail.contains('(')) by {
                if tail.contains('(') {
                    let k = choose|k: int| 0 <= k < tail.len() && tail[k] == '(';
                }
            }
            lemma_lacks_concat(n, tail, '(');
            assert(!prefix.contains('(')) by {
                if prefix.contains('(') {
                    let k = choose|k: int| 0 <= k < prefix.len() && prefix[k] == '(';
                }
            }
            lemma_lacks_concat(prefix, after, '(');
        }
    }
}

/// Reading the properties of a primary constructor.
proof fn lemma_read_params(ls: Seq<Seq<char>>, i: int, items: Seq<SpecVariable>, total: nat, j: int, name: Seq<char>, acc: Seq<SpecVariable>)
    requires
        0 <= i,
        0 <= j <= items.len(),
        i + items.len() <= ls.len(),
        forall|k: int| 0 <= k < items.len() ==> ls[i + k] == kotlin_param_line(#[trigger] items[k], k + 1 < total),
        forall|k: int| 0 <= k < items.len() ==> kotlin_var_round_trips(#[trigger] items[k]),
    ensures
        kotlin_read(ls, i + j, KotlinReading::InParams {
            name,
            vars: acc + items.take(j).map_values(|v: SpecVariable| kotlin_read_back_param(v)),
        }) == kotlin_read(ls, i + items.len(), KotlinReading::InParams {
            name,
            vars: acc + items.map_values(|v: SpecVariable| kotlin_read_back_param(v)),
        }),
    decreases items.len() - j,
{
    if j < items.len() {
        let v = items[j];
        assert(kotlin_var_round_trips(v));
        assert(ls[i + j] == kotlin_param_line(v, j + 1 < total));
        lemma_kotlin_param_line(v, j + 1 < total);
        let before = acc + items.take(j).map_values(|v: SpecVariable| kotlin_read_back_param(v));
        assert(acc + items.take(j + 1).map_values(|v: SpecVariable| kotlin_read_back_param(v))
            =~= before + opt_seq(Some(kotlin_read_back_param(v))));
        lemma_read_params(ls, i, items, total, j + 1, name, acc);
    } else {
        assert(items.take(j) =~= items);
    }
}

/// Reading the properties of a companion object.
proof fn lemma_read_statics(ls: Seq<Seq<char>>, i: int, sts: Seq<SpecVariable>, j: int, name: Seq<char>, acc: Seq<SpecVariable>)
    requires
        0 <= i,
        0 <= j <= sts.len(),
        i + sts.len() <= ls.len(),
        forall|k: int| 0 <= k < sts.len() ==> ls[i + k] == kotlin_static_line(#[trigger] sts[k]),
        forall|k: int| 0 <= k < sts.len() ==> kotlin_var_round_trips(#[trigger] sts[k]),
    ensures
        kotlin_read(ls, i + j, KotlinReading::InBody {
            name,
            vars: acc + sts.take(j).map_values(|v: SpecVariable| kotlin_read_back_static(v)),
            in_companion: true,
        }) == kotlin_read(ls, i + sts.len(), KotlinReading::InBody {
            name,
            vars: acc + sts.map_values(|v: SpecVariable| kotlin_read_back_static(v)),
            in_companion: true,
        }),
    decreases sts.len() - j,
{
    if j < sts.len() {
        let v = sts[j];
        assert(kotlin_var_round_trips(v));
        assert(ls[i + j] == kotlin_static_line(v));
        lemma_kotlin_static_line(v);
        let before = acc + sts.take(j).map_values(|v: SpecVariable| kotlin_read_back_static(v));
        assert(acc + sts.take(j + 1).map_values(|v: SpecVariable| kotlin_read_back_static(v))
            =~= before + opt_seq(Some(kotlin_read_back_static(v))));
        lemma_read_statics(ls, i, sts, j + 1, name, acc);
    } else {
        assert(sts.take(j) =~= sts);
    }
}

proof fn lemma_ctor_round_trip(o: SpecOmlObject)
    requires
        kotlin_round_trips(o),
    ensures
        forall|k: int| 0 <= k < kotlin_ctor_vars(o).len() ==> kotlin_var_round_trips(#[trigger] kotlin_ctor_vars(o)[k]),
        forall|k: int| 0 <= k < pick(o.variables, Pick::Static).len() ==> kotlin_var_round_trips(#[trigger] pick(o.variables, Pick::Static)[k]),
{
    let inst = pick(o.variables, Pick::Instance);
    let ctor = kotlin_ctor_vars(o);
    lemma_pick_round_trip(o.variables, Pick::Instance);
    lemma_pick_round_trip(o.variables, Pick::Static);
    lemma_pick_round_trip(inst, Pick::Required);
    lemma_pick_round_trip(inst, Pick::Optional);
    assert forall|k: int| 0 <= k < ctor.len() implies kotlin_var_round_trips(#[trigger] ctor[k]) by {
        let r = pick(inst, Pick::Required);
        if k < r.len() {
            assert(ctor[k] == r[k]);
        } else {
            assert(ctor[k] == pick(inst, Pick::Optional)[k - r.len()]);
        }
    }
}

/// Every line of a class that reads back stands alone.
#[verifier::spinoff_prover]
proof fn lemma_kotlin_class_lines_ok(o: SpecOmlObject, use_data_class: bool)
    requires
        kotlin_round_trips(o),
    ensures
        forall|k: int| 0 <= k < kotlin_class_lines(o, use_data_class).len() ==> is_line(#[trigger] kotlin_class_lines(o, use_data_class)[k]),
{
    lemma_ctor_round_trip(o);
    lemma_kotlin_head(o, use_data_class);
    let statics = pick(o.variables, Pick::Static);
    let ctor = kotlin_ctor_vars(o);
    lemma_param_lines(ctor, ctor.len());
    let pl = kotlin_param_lines(ctor, ctor.len());
    let sl = kotlin_static_lines(statics);
    reveal_strlit(")");
    reveal_strlit(") {");
    reveal_strlit("\tcompanion object {");
    reveal_strlit("\t}");
    reveal_strlit("}");
    let lits = seq![")"@, ") {"@, "\tcompanion object {"@, "\t}"@, "}"@];
    assert forall|m: int| 0 <= m < 5 implies is_line(#[trigger] lits[m]) by {
        let l = lits[m];
        if l.contains('\n') {
            let k = choose|k: int| 0 <= k < l.len() && l[k] == '\n';
            if m == 0 {
            } else if m == 1 {
            } else if m == 2 {
            } else if m == 3 {
            } else {
            }
        }
    }
    assert(is_line(lits[0]) && is_line(lits[1]) && is_line(lits[2]) && is_line(lits[3]) && is_line(lits[4]));
    let cl = kotlin_class_lines(o, use_data_class);
    let mid = if pick(o.variables, Pick::Instance).len() > 0 {
        pl + seq![if statics.len() > 0 { ") {"@ } else { ")"@ }]
    } else {
        Seq::<Seq<char>>::empty()
    };
    let comp = if statics.len() > 0 { kotlin_companion_lines(o) } else { Seq::<Seq<char>>::empty() };
    assert(cl == seq![kotlin_class_head(o, use_data_class)] + mid + comp);
    assert forall|k: int| 0 <= k < cl.len() implies is_line(#[trigger] cl[k]) by {
        if k == 0 {
        } else if k < 1 + mid.len() {
            assert(cl[k] == mid[k - 1]);
            if k - 1 < pl.len() {
                assert(mid[k - 1] == pl[k - 1]);
                lemma_kotlin_param_line(ctor[k - 1], k < ctor.len());
            }
        } else {
            assert(cl[k] == comp[k - 1 - mid.len()]);
            let c = k - 1 - mid.len();
            if c >= 1 && c < 1 + sl.len() {
                assert(comp[c] == sl[c - 1]);
                lemma_kotlin_static_line(statics[c - 1]);
            }
        }
    }
}

/// Reading the lines of a class that reads back gives the class back.
#[verifier::spinoff_prover]
#[verifier::rlimit(50)]
proof fn lemma_read_kotlin_class(ls: Seq<Seq<char>>, i: int, o: SpecOmlObject, use_data_class: bool)
    requires
        kotlin_round_trips(o),
        0 <= i,
        i + kotlin_class_lines(o, use_data_class).len() <= ls.len(),
        forall|k: int| 0 <= k < kotlin_class_lines(o, use_data_class).len() ==> ls[i + k] == #[trigger] kotlin_class_lines(o, use_data_class)[k],
    ensures
        kotlin_read(ls, i, KotlinReading::Outside)
            == seq![kotlin_read_back(o)] + kotlin_read(ls, i + kotlin_class_lines(o, use_data_class).len(), KotlinReading::Outside),
{
    lemma_ctor_round_trip(o);
    lemma_kotlin_head(o, use_data_class);
    lemma_pick_len(o.variables, Pick::Static);
    lemma_pick_len(o.variables, Pick::Instance);
    if o.variables.len() > 0 {
        lemma_some_pick(o.variables);
    }
    let name = o.name;
    let statics = pick(o.variables, Pick::Static);
    let has_inst = pick(o.variables, Pick::Instance).len() > 0;
    let ctor = kotlin_ctor_vars(o);
    lemma_param_lines(ctor, ctor.len());
    let pl = kotlin_param_lines(ctor, ctor.len());
    let cl = kotlin_class_lines(o, use_data_class);
    let pv = ctor.map_values(|v: SpecVariable| kotlin_read_back_param(v));
    let sv = statics.map_values(|v: SpecVariable| kotlin_read_back_static(v));
    let e = Seq::<SpecVariable>::empty();
    reveal_strlit(")");
    reveal_strlit(") {");
    reveal_strlit("\tcompanion object {");
    reveal_strlit("companion object {");
    reveal_strlit("\t}");
    reveal_strlit("}");
    assert(ls[i] == cl[0]);
    // the primary constructor
    let mid_len: int = if has_inst { pl.len() as int + 1 } else { 0 };
    if has_inst {
        assert forall|k: int| 0 <= k < ctor.len() implies ls[i + 1 + k] == kotlin_param_line(#[trigger] ctor[k], k + 1 < ctor.len()) by {
            assert(cl[1 + k] == pl[k]);
        }
        lemma_read_params(ls, i + 1, ctor, ctor.len(), 0, name, e);
        assert(ctor.take(0).map_values(|v: SpecVariable| kotlin_read_back_param(v)) =~= e);
        assert(e + e =~= e);
        let close = if statics.len() > 0 { ") {"@ } else { ")"@ };
        let p = i + 1 + pl.len();
        assert(ls[p] == cl[1 + pl.len() as int]);
        assert(ls[p] == close);
        assert(close[0] == ')');
        lemma_trim_unchanged(close);
        assert(e + pv =~= pv);
        if statics.len() > 0 {
            assert(close.last() == '{');
            assert(kotlin_read(ls, i, KotlinReading::Outside)
                == kotlin_read(ls, p + 1, KotlinReading::InBody { name, vars: pv, in_companion: false }));
        } else {
            assert(close.last() == ')');
            assert(kotlin_read(ls, p, KotlinReading::InParams { name, vars: pv })
                == seq![read_object(ObjectType::CLASS, name, pv)] + kotlin_read(ls, p + 1, KotlinReading::Outside));
            assert(kotlin_read(ls, i, KotlinReading::Outside)
                == seq![read_object(ObjectType::CLASS, name, pv)] + kotlin_read(ls, p + 1, KotlinReading::Outside));
        }
    } else {
        assert(ctor.len() == 0) by {
            lemma_pick_len(pick(o.variables, Pick::Instance), Pick::Required);
            lemma_pick_len(pick(o.variables, Pick::Instance), Pick::Optional);
        }
        assert(pv =~= e);
        if o.variables.len() > 0 {
            assert(kotlin_read(ls, i, KotlinReading::Outside)
                == kotlin_read(ls, i + 1, KotlinReading::InBody { name, vars: pv, in_companion: false }));
        } else {
            assert(kotlin_read(ls, i, KotlinReading::Outside)
                == seq![read_object(ObjectType::CLASS, name, e)] + kotlin_read(ls, i + 1, KotlinReading::Outside));
        }
    }
    let b = i + 1 + mid_len;
    // the companion object
    if statics.len() > 0 {
        let sl = kotlin_static_lines(statics);
        let comp = kotlin_companion_lines(o);
        assert(cl.len() == 1 + mid_len + comp.len());
        assert forall|k: int| 0 <= k < comp.len() implies ls[b + k] == #[trigger] comp[k] by {
            assert(cl[1 + mid_len + k] == comp[k]);
        }
        assert(ls[b] == comp[0]);
        assert(comp[0] == "\tcompanion object {"@);
        let co = "companion object {"@;
        lemma_trim_start_after_ws(seq!['\t'], co);
        assert("\tcompanion object {"@ =~= seq!['\t'] + co);
        lemma_trim_unchanged(co);
        lemma_starts_with_concat(co, Seq::empty());
        assert(co + Seq::<char>::empty() =~= co);
        assert(co != "}"@) by {
            assert(co[0] != "}"@[0]);
        }
        assert(kotlin_read(ls, b, KotlinReading::InBody { name, vars: pv, in_companion: false })
            == kotlin_read(ls, b + 1, KotlinReading::InBody { name, vars: pv, in_companion: true }));
        assert forall|k: int| 0 <= k < statics.len() implies ls[b + 1 + k] == kotlin_static_line(#[trigger] statics[k]) by {
            assert(comp[1 + k] == sl[k]);
        }
        lemma_read_statics(ls, b + 1, statics, 0, name, pv);
        assert(statics.take(0).map_values(|v: SpecVariable| kotlin_read_back_static(v)) =~= e);
        assert(pv + e =~= pv);
        let c = b + 1 + statics.len();
        assert(ls[c] == comp[1 + sl.len() as int]);
        assert(ls[c] == "\t}"@);
        lemma_trim_start_after_ws(seq!['\t'], "}"@);
        assert("\t}"@ =~= seq!['\t'] + "}"@);
        lemma_trim_unchanged("}"@);
        assert(ls[c + 1] == comp[2 + sl.len() as int]);
        assert(ls[c + 1] == "}"@);
        let all = pv + sv;
        assert(kotlin_read(ls, c, KotlinReading::InBody { name, vars: all, in_companion: true })
            == kotlin_read(ls, c + 1, KotlinReading::InBody { name, vars: all, in_companion: false }));
        assert(kotlin_read(ls, c + 1, KotlinReading::InBody { name, vars: all, in_companion: false })
            == seq![read_object(ObjectType::CLASS, name, all)] + kotlin_read(ls, c + 2, KotlinReading::Outside));
        assert(c + 2 == i + cl.len());
    } else {
        assert(sv =~= e);
        assert(pv + sv =~= pv);
        assert(cl.len() == 1 + mid_len);
    }
}

// ---------------------------------------------------------------- enums

/// Whether an enum reads back from Kotlin: its name and the uppercase names
/// of its variants are words.
pub open spec fn kotlin_enum_round_trips(o: SpecOmlObject) -> bool {
    &&& o.oml_type == ObjectType::ENUM
    &&& is_word(o.name)
    &&& forall|j: int| 0 <= j < o.variables.len() ==> is_word(str_upper((#[trigger] o.variables[j]).name))
}

/// What the Kotlin reader gives back for an enum: an enum of the same name
/// whose variants are named by the uppercase names of its variables.
pub open spec fn kotlin_enum_read_back(o: SpecOmlObject) -> SpecOmlObject {
    read_object(ObjectType::ENUM, o.name, o.variables.map_values(|v: SpecVariable| variant_var(str_upper(v.name))))
}

/// Whether an object reads back from Kotlin, as an enum or as a class.
pub open spec fn kotlin_object_round_trips(o: SpecOmlObject) -> bool {
    if o.oml_type == ObjectType::ENUM { kotlin_enum_round_trips(o) } else { kotlin_round_trips(o) }
}

/// What the Kotlin reader gives back for an object.
pub open spec fn kotlin_object_read_back(o: SpecOmlObject) -> SpecOmlObject {
    if o.oml_type == ObjectType::ENUM { kotlin_enum_read_back(o) } else { kotlin_read_back(o) }
}

/// The lines of a Kotlin enum.
pub open spec fn kotlin_enum_lines(o: SpecOmlObject) -> Seq<Seq<char>> {
    seq!["enum class "@ + o.name + " {"@] + cpp_enum_variant_lines(o.variables, o.variables.len()) + seq!["}"@]
}

/// The lines of an object in a Kotlin file.
pub open spec fn kotlin_object_lines(o: SpecOmlObject, use_data_class: bool) -> Seq<Seq<char>> {
    if o.oml_type == ObjectType::ENUM { kotlin_enum_lines(o) } else { kotlin_class_lines(o, use_data_class) }
}

proof fn lemma_kt_enum_variants(vars: Seq<SpecVariable>, total: nat)
    ensures
        kt_enum_variants(vars, total) == cpp_enum_variants(vars, total),
    decreases vars.len(),
{
    if vars.len() > 0 {
        lemma_kt_enum_variants(vars.drop_last(), total);
    }
}

/// The text of an enum is made of its lines.
proof fn lemma_kotlin_enum_text(o: SpecOmlObject)
    ensures
        kt_enum_text(o) == unlines(kotlin_enum_lines(o)),
{
    lemma_kt_enum_variants(o.variables, o.variables.len());
    lemma_enum_variant_lines(o.variables, o.variables.len());
    let h = "enum class "@ + o.name + " {"@;
    let v = cpp_enum_variant_lines(o.variables, o.variables.len());
    let z = "}"@;
    lemma_unlines_add(seq![h] + v, seq![z]);
    lemma_unlines_add(seq![h], v);
    lemma_unlines_one(h);
    lemma_unlines_one(z);
    reveal_strlit(" {\n");
    reveal_strlit(" {");
    reveal_strlit("}\n");
    reveal_strlit("}");
    assert(kt_enum_text(o) =~= (h + seq!['\n']) + unlines(v) + (z + seq!['\n']));
}

/// Reading the variants of an enum.
proof fn lemma_read_kotlin_variants(ls: Seq<Seq<char>>, i: int, vars: Seq<SpecVariable>, total: nat, j: int, name: Seq<char>)
    requires
        0 <= i,
        0 <= j <= vars.len(),
        i + vars.len() <= ls.len(),
        forall|k: int| 0 <= k < vars.len() ==> ls[i + k] == cpp_enum_line(str_upper((#[trigger] vars[k]).name), k + 1 < total),
        forall|k: int| 0 <= k < vars.len() ==> is_word(str_upper((#[trigger] vars[k]).name)),
    ensures
        kotlin_read(ls, i + j, KotlinReading::InEnum {
            name,
            vars: vars.take(j).map_values(|v: SpecVariable| variant_var(str_upper(v.name))),
        }) == kotlin_read(ls, i + vars.len(), KotlinReading::InEnum {
            name,
            vars: vars.map_values(|v: SpecVariable| variant_var(str_upper(v.name))),
        }),
    decreases vars.len() - j,
{
    if j < vars.len() {
        let v = vars[j];
        let u = str_upper(v.name);
        assert(is_word(u));
        assert(ls[i + j] == cpp_enum_line(u, j + 1 < total));
        lemma_enum_line(u, j + 1 < total);
        reveal_strlit("}");
        reveal_strlit("\t");
        reveal_strlit(",");
        let t = trim(cpp_enum_line(u, j + 1 < total));
        let c = if j + 1 < total { ","@ } else { Seq::<char>::empty() };
        assert(cpp_enum_line(u, j + 1 < total) =~= seq!['\t'] + (u + c));
        lemma_trim_start_after_ws(seq!['\t'], u + c);
        assert((u + c).last() == (if j + 1 < total { ',' } else { u.last() }));
        lemma_ident_not_ws(u[0]);
        lemma_ident_not_ws(u.last());
        lemma_trim_unchanged(u + c);
        assert(t == u + c);
        assert(t != "}"@) by {
            assert(t[0] == u[0]);
            assert(is_ident_char(u[0]));
        }
        assert(vars.take(j + 1).map_values(|v: SpecVariable| variant_var(str_upper(v.name)))
            =~= vars.take(j).map_values(|v: SpecVariable| variant_var(str_upper(v.name))) + seq![variant_var(u)]);
        lemma_read_kotlin_variants(ls, i, vars, total, j + 1, name);
    } else {
        assert(vars.take(j) =~= vars);
    }
}

/// Reading the lines of an enum that reads back gives it back.
#[verifier::spinoff_prover]
#[verifier::rlimit(50)]
proof fn lemma_read_kotlin_enum(ls: Seq<Seq<char>>, i: int, o: SpecOmlObject)
    requires
        kotlin_enum_round_trips(o),
        0 <= i,
        i + kotlin_enum_lines(o).len() <= ls.len(),
        forall|k: int| 0 <= k < kotlin_enum_lines(o).len() ==> ls[i + k] == #[trigger] kotlin_enum_lines(o)[k],
    ensures
        kotlin_read(ls, i, KotlinReading::Outside)
            == seq![kotlin_enum_read_back(o)] + kotlin_read(ls, i + kotlin_enum_lines(o).len(), KotlinReading::Outside),
        forall|k: int| 0 <= k < kotlin_enum_lines(o).len() ==> is_line(#[trigger] kotlin_enum_lines(o)[k]),
{
    let n = o.name;
    let vars = o.variables;
    let el = kotlin_enum_lines(o);
    let vl = cpp_enum_variant_lines(vars, vars.len());
    lemma_enum_variant_lines(vars, vars.len());
    reveal_strlit("enum class ");
    reveal_strlit(" {");
    reveal_strlit("{ ");
    reveal_strlit("}");
    // the head
    let h = "enum class "@ + n + " {"@;
    assert(ls[i] == el[0]);
    assert(el[0] == h);
    crate::chars::lemma_word_lacks(n, '\n');
    assert(!"enum class "@.contains('\n')) by {
        if "enum class "@.contains('\n') {
            let k = choose|k: int| 0 <= k < 11 && "enum class "@[k] == '\n';
        }
    }
    lemma_lacks_concat("enum class "@, n, '\n');
    assert(!" {"@.contains('\n')) by {
        if " {"@.contains('\n') {
            let k = choose|k: int| 0 <= k < 2 && " {"@[k] == '\n';
        }
    }
    lemma_lacks_concat("enum class "@ + n, " {"@, '\n');
    assert(h[0] == 'e');
    assert(h.last() == '{');
    lemma_trim_unchanged(h);
    assert(h =~= "enum class "@ + (n + " {"@));
    lemma_starts_with_concat("enum class "@, n + " {"@);
    let after = n + " {"@;
    assert(after.drop_last() =~= n + seq![' ']);
    assert((n + seq![' ']).drop_last() =~= n);
    assert(!"{ "@.contains(n.last())) by {
        if "{ "@.contains(n.last()) {
            let k = choose|k: int| 0 <= k < "{ "@.len() && "{ "@[k] == n.last();
            assert(k == 0 || k == 1);
        }
    }
    assert("{ "@.contains('{')) by {
        assert("{ "@[0] == '{');
    }
    assert("{ "@.contains(' ')) by {
        assert("{ "@[1] == ' ');
    }
    crate::chars::lemma_trim_end_in_unchanged(n, "{ "@);
    assert((n + seq![' ']).last() == ' ');
    assert(crate::chars::trim_end_in(n + seq![' '], "{ "@) == n);
    assert(after.last() == '{');
    assert(crate::chars::trim_end_in(after, "{ "@) == n);
    let e = Seq::<SpecVariable>::empty();
    assert(kotlin_header(h) == KotlinReading::InEnum { name: n, vars: e });
    assert(kotlin_read(ls, i, KotlinReading::Outside) == kotlin_read(ls, i + 1, KotlinReading::InEnum { name: n, vars: e }));
    // the variants
    assert forall|k: int| 0 <= k < vars.len() implies ls[i + 1 + k] == cpp_enum_line(str_upper((#[trigger] vars[k]).name), k + 1 < vars.len()) by {
        assert(el[1 + k] == vl[k]);
    }
    assert forall|k: int| 0 <= k < vars.len() implies is_word(str_upper((#[trigger] vars[k]).name)) by {}
    lemma_read_kotlin_variants(ls, i + 1, vars, vars.len(), 0, n);
    assert(vars.take(0).map_values(|v: SpecVariable| variant_var(str_upper(v.name))) =~= e);
    // the end
    let q = i + 1 + vars.len();
    assert(ls[q] == el[1 + vars.len() as int]);
    assert(el[1 + vars.len() as int] == "}"@);
    lemma_trim_unchanged("}"@);
    assert(el.len() == 2 + vars.len());
    // every line stands alone
    assert(is_line("}"@)) by {
        assert(!"}"@.contains('\n')) by {
            if "}"@.contains('\n') {
                let k = choose|k: int| 0 <= k < 1 && "}"@[k] == '\n';
            }
        }
    }
    assert forall|k: int| 0 <= k < el.len() implies is_line(#[trigger] el[k]) by {
        if k == 0 {
        } else if k < 1 + vars.len() {
            assert(el[k] == vl[k - 1]);
            lemma_enum_line(str_upper(vars[k - 1].name), k < vars.len());
        } else {
            assert(el[k] == "}"@);
        }
    }
}

// ---------------------------------------------------------------- files

/// The lines of the objects, an empty line after each but the last (`total`
/// is the number of objects).
pub open spec fn kotlin_objects_lines(objs: Seq<SpecOmlObject>, use_data_class: bool, total: nat) -> Seq<Seq<char>>
    decreases objs.len(),
{
    if objs.len() == 0 {
        Seq::empty()
    } else {
        kotlin_objects_lines(objs.drop_last(), use_data_class, total) + kotlin_object_lines(objs.last(), use_data_class)
            + (if objs.len() < total { seq![Seq::<char>::empty()] } else { Seq::<Seq<char>>::empty() })
    }
}

proof fn lemma_kotlin_objects_text(objs: Seq<SpecOmlObject>, use_data_class: bool, total: nat)
    requires
        forall|k: int| 0 <= k < objs.len() ==> kotlin_object_round_trips(#[trigger] objs[k]),
        objs.len() <= total,
    ensures
        kt_objects_text(objs, total, use_data_class) == unlines(kotlin_objects_lines(objs, use_data_class, total)),
        forall|k: int| 0 <= k < kotlin_objects_lines(objs, use_data_class, total).len()
            ==> is_line(#[trigger] kotlin_objects_lines(objs, use_data_class, total)[k]),
    decreases objs.len(),
{
    if objs.len() == 0 {
        assert(unlines(Seq::<Seq<char>>::empty()) == Seq::<char>::empty());
    } else {
        let init = objs.drop_last();
        assert forall|k: int| 0 <= k < init.len() implies kotlin_object_round_trips(#[trigger] init[k]) by {
            assert(init[k] == objs[k]);
        }
        lemma_kotlin_objects_text(init, use_data_class, total);
        let o = objs.last();
        assert(kotlin_object_round_trips(o));
        if o.oml_type == ObjectType::ENUM {
            lemma_kotlin_enum_text(o);
            lemma_read_kotlin_enum(kotlin_enum_lines(o), 0, o);
        } else {
            lemma_kotlin_class_text(o, use_data_class);
            lemma_kotlin_class_lines_ok(o, use_data_class);
        }
        let a = kotlin_objects_lines(init, use_data_class, total);
        let b = kotlin_object_lines(o, use_data_class);
        let c = if objs.len() < total { seq![Seq::<char>::empty()] } else { Seq::<Seq<char>>::empty() };
        lemma_unlines_add(a + b, c);
        lemma_unlines_add(a, b);
        lemma_unlines_one(Seq::<char>::empty());
        reveal_strlit("\n");
        assert(unlines(c) =~= (if objs.len() < total { "\n"@ } else { Seq::<char>::empty() }));
        assert forall|k: int| 0 <= k < (a + b + c).len() implies is_line(#[trigger] (a + b + c)[k]) by {
            if k < a.len() {
                assert((a + b + c)[k] == a[k]);
            } else if k < a.len() + b.len() {
                assert((a + b + c)[k] == b[k - a.len()]);
            } else {
                assert((a + b + c)[k] == Seq::<char>::empty());
            }
        }
    }
}

/// Reading the lines of objects that read back gives them back.
#[verifier::spinoff_prover]
#[verifier::rlimit(50)]
proof fn lemma_read_kotlin_objects(ls: Seq<Seq<char>>, i: int, objs: Seq<SpecOmlObject>, use_data_class: bool, total: nat)
    requires
        forall|k: int| 0 <= k < objs.len() ==> kotlin_object_round_trips(#[trigger] objs[k]),
        objs.len() <= total,
        0 <= i,
        i + kotlin_objects_lines(objs, use_data_class, total).len() <= ls.len(),
        forall|k: int| 0 <= k < kotlin_objects_lines(objs, use_data_class, total).len()
            ==> ls[i + k] == #[trigger] kotlin_objects_lines(objs, use_data_class, total)[k],
    ensures
        kotlin_read(ls, i, KotlinReading::Outside) == objs.map_values(|o: SpecOmlObject| kotlin_object_read_back(o))
            + kotlin_read(ls, i + kotlin_objects_lines(objs, use_data_class, total).len(), KotlinReading::Outside),
    decreases objs.len(),
{
    if objs.len() == 0 {
        assert(objs.map_values(|o: SpecOmlObject| kotlin_object_read_back(o)) =~= Seq::<SpecOmlObject>::empty());
    } else {
        let init = objs.drop_last();
        assert forall|k: int| 0 <= k < init.len() implies kotlin_object_round_trips(#[trigger] init[k]) by {
            assert(init[k] == objs[k]);
        }
        let o = objs.last();
        assert(kotlin_object_round_trips(o));
        let a = kotlin_objects_lines(init, use_data_class, total);
        let b = kotlin_object_lines(o, use_data_class);
        let c = if objs.len() < total { seq![Seq::<char>::empty()] } else { Seq::<Seq<char>>::empty() };
        let all = kotlin_objects_lines(objs, use_data_class, total);
        assert(all == a + b + c);
        assert forall|k: int| 0 <= k < a.len() implies ls[i + k] == #[trigger] a[k] by {
            assert(all[k] == a[k]);
        }
        lemma_read_kotlin_objects(ls, i, init, use_data_class, total);
        let p = i + a.len();
        assert forall|k: int| 0 <= k < b.len() implies ls[p + k] == #[trigger] b[k] by {
            assert(all[a.len() + k] == b[k]);
        }
        if o.oml_type == ObjectType::ENUM {
            lemma_read_kotlin_enum(ls, p, o);
        } else {
            lemma_read_kotlin_class(ls, p, o, use_data_class);
        }
        let q = p + b.len();
        if objs.len() < total {
            assert(ls[q] == all[a.len() + b.len() as int]);
            assert(ls[q] == Seq::<char>::empty());
            reveal_strlit("enum class ");
            reveal_strlit("data class ");
            reveal_strlit("class ");
            assert(trim(Seq::<char>::empty()) == Seq::<char>::empty());
            assert(kotlin_header(Seq::<char>::empty()) == KotlinReading::Outside);
            assert(kotlin_read(ls, q, KotlinReading::Outside) == kotlin_read(ls, q + 1, KotlinReading::Outside));
        }
        assert(objs.map_values(|o: SpecOmlObject| kotlin_object_read_back(o))
            =~= init.map_values(|o: SpecOmlObject| kotlin_object_read_back(o)) + seq![kotlin_object_read_back(o)]);
    }
}

/// Reading back a Kotlin file generated from enums, classes and structs gives
/// each of them back. An enum comes back with its variants named by the
/// uppercase names of its variables. A class or struct comes back as a class
/// of the same name, with the properties of its primary constructor (its
/// required instance variables, then its optional ones) and then those of
/// its companion object (its static variables, read back as private): each
/// with its type, name and kind of array (a static array reads back with
/// size 0), `CONST` where it is a `val`, `OPTIONAL` where it is optional, and
/// the visibility it was written with. It holds for enums whose name and
/// variants' uppercase names are words, and for classes and structs whose
/// names, variable names and type names are words and whose types are no
/// narrow integer that Kotlin widens and no Kotlin spelling of another OML
/// type, in a file whose name holds no line break.
#[verifier::spinoff_prover]
#[verifier::rlimit(50)]
pub proof fn law_kotlin_round_trip(objs: Seq<SpecOmlObject>, file_name: Seq<char>, use_data_class: bool)
    requires
        forall|i: int| 0 <= i < objs.len() ==> kotlin_object_round_trips(#[trigger] objs[i]),
        !file_name.contains('\n'),
    ensures
        kt_file(objs, file_name, use_data_class) is Ok,
        kt_file(objs, file_name, use_data_class) matches Ok(text)
            && kotlin_objects(text) == objs.map_values(|o: SpecOmlObject| kotlin_object_read_back(o)),
{
    assert(!has_undecided(objs)) by {
        if has_undecided(objs) {
            let i = choose|i: int| 0 <= i < objs.len() && objs[i].oml_type == ObjectType::UNDECIDED;
            assert(kotlin_object_round_trips(objs[i]));
        }
    }
    reveal_strlit("// This file has been generated from ");
    reveal_strlit(".oml\n");
    reveal_strlit(".oml");
    reveal_strlit("\n");
    reveal_strlit("enum class ");
    reveal_strlit("data class ");
    reveal_strlit("class ");
    let cm = "// This file has been generated from "@ + file_name + ".oml"@;
    let e = Seq::<char>::empty();
    let h = seq![cm, e];
    let ol = kotlin_objects_lines(objs, use_data_class, objs.len());
    let ls = h + ol;
    lemma_kotlin_objects_text(objs, use_data_class, objs.len());
    lemma_unlines_add(h, ol);
    lemma_unlines_add(seq![cm], seq![e]);
    assert(seq![cm] + seq![e] =~= h);
    lemma_unlines_one(cm);
    lemma_unlines_one(e);
    let text = unlines(ls);
    assert("// This file has been generated from "@ + file_name + ".oml\n"@ + "\n"@ =~= unlines(h));
    assert(kt_file(objs, file_name, use_data_class) == Ok::<Seq<char>, GenerateError>(text));
    // every line stands alone
    assert(!"// This file has been generated from "@.contains('\n')) by {
        if "// This file has been generated from "@.contains('\n') {
            let k = choose|k: int| 0 <= k < 37 && "// This file has been generated from "@[k] == '\n';
        }
    }
    assert(!".oml"@.contains('\n')) by {
        if ".oml"@.contains('\n') {
            let k = choose|k: int| 0 <= k < 4 && ".oml"@[k] == '\n';
        }
    }
    lemma_lacks_concat("// This file has been generated from "@, file_name, '\n');
    lemma_lacks_concat("// This file has been generated from "@ + file_name, ".oml"@, '\n');
    assert(cm.last() == 'l');
    assert forall|k: int| 0 <= k < ls.len() implies is_line(#[trigger] ls[k]) by {
        if k == 0 {
            assert(ls[k] == cm);
        } else if k == 1 {
            assert(ls[k] == e);
        } else {
            assert(ls[k] == ol[k - 2]);
        }
    }
    crate::chars::lemma_lines_unlines(ls);
    assert(kotlin_objects(text) == kotlin_read(ls, 0, KotlinReading::Outside));
    // the comment and the empty line
    lemma_trim_unchanged(cm);
    lemma_not_starts_with(cm, "enum class "@, 0);
    lemma_not_starts_with(cm, "data class "@, 0);
    lemma_not_starts_with(cm, "class "@, 0);
    assert(ls[0] == cm);
    assert(ls[1] == e);
    assert(trim(e) == e);
    assert(kotlin_header(cm) == KotlinReading::Outside);
    assert(kotlin_header(e) == KotlinReading::Outside);
    assert(kotlin_read(ls, 0, KotlinReading::Outside) == kotlin_read(ls, 1, KotlinReading::Outside));
    assert(kotlin_read(ls, 1, KotlinReading::Outside) == kotlin_read(ls, 2, KotlinReading::Outside));
    if objs.len() == 0 {
        assert(ls.len() == 2);
        assert(objs.map_values(|o: SpecOmlObject| kotlin_object_read_back(o)) =~= Seq::<SpecOmlObject>::empty());
    } else {
        assert forall|k: int| 0 <= k < ol.len() implies ls[2 + k] == #[trigger] ol[k] by {
            assert(ls[2 + k] == ol[k]);
        }
        lemma_read_kotlin_objects(ls, 2, objs, use_data_class, objs.len());
        assert(2 + ol.len() == ls.len());
        assert(kotlin_read(ls, ls.len() as int, KotlinReading::Outside) == Seq::<SpecOmlObject>::empty());
        assert(objs.map_values(|o: SpecOmlObject| kotlin_object_read_back(o)) + Seq::<SpecOmlObject>::empty()
            =~= objs.map_values(|o: SpecOmlObject| kotlin_object_read_back(o)));
    }
}

} // verus!
