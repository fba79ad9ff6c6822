use vstd::prelude::*;
use crate::oml_object::{SpecVariable, VariableModifier, VariableVisibility};
use crate::generators::cpp::{cpp_setter, cpp_setters};
use crate::generators::java::{java_boxed_type, java_type};
use crate::generators::typescript::ts_type;
use crate::generators::sql::sql_type;
use crate::backwards_converting::{oml_modifier, oml_modifiers};

verus! {

// ---------------------------------------------------------------- OML types

/// Whether `t` names one of the basic OML types.
pub open spec fn oml_basic_type(t: Seq<char>) -> bool {
    oml_int_bits(t) is Some || t == "float"@ || t == "double"@ || t == "bool"@ || t == "string"@
        || t == "char"@
}

/// The width in bits of an OML integer type; none for any other type.
pub open spec fn oml_int_bits(t: Seq<char>) -> Option<nat> {
    if t == "int8"@ || t == "uint8"@ { Some(8) }
    else if t == "int16"@ || t == "uint16"@ { Some(16) }
    else if t == "int32"@ || t == "uint32"@ { Some(32) }
    else if t == "int64"@ || t == "uint64"@ { Some(64) }
    else { None }
}

/// Whether `t` is an unsigned OML integer type.
pub open spec fn oml_unsigned(t: Seq<char>) -> bool {
    t == "uint8"@ || t == "uint16"@ || t == "uint32"@ || t == "uint64"@
}

/// Whether `t` is an OML number type: an integer type, `float` or `double`.
pub open spec fn oml_numeric(t: Seq<char>) -> bool {
    oml_int_bits(t) is Some || t == "float"@ || t == "double"@
}

/// The characters of the type names that the laws below speak of.
proof fn lemma_type_names()
    ensures
        "int8"@ == seq!['i', 'n', 't', '8'],
        "int16"@ == seq!['i', 'n', 't', '1', '6'],
        "int32"@ == seq!['i', 'n', 't', '3', '2'],
        "int64"@ == seq!['i', 'n', 't', '6', '4'],
        "uint8"@ == seq!['u', 'i', 'n', 't', '8'],
        "uint16"@ == seq!['u', 'i', 'n', 't', '1', '6'],
        "uint32"@ == seq!['u', 'i', 'n', 't', '3', '2'],
        "uint64"@ == seq!['u', 'i', 'n', 't', '6', '4'],
        "float"@ == seq!['f', 'l', 'o', 'a', 't'],
        "double"@ == seq!['d', 'o', 'u', 'b', 'l', 'e'],
        "bool"@ == seq!['b', 'o', 'o', 'l'],
        "string"@ == seq!['s', 't', 'r', 'i', 'n', 'g'],
        "char"@ == seq!['c', 'h', 'a', 'r'],
        "byte"@ == seq!['b', 'y', 't', 'e'],
        "short"@ == seq!['s', 'h', 'o', 'r', 't'],
        "int"@ == seq!['i', 'n', 't'],
        "long"@ == seq!['l', 'o', 'n', 'g'],
        "boolean"@ == seq!['b', 'o', 'o', 'l', 'e', 'a', 'n'],
        "String"@ == seq!['S', 't', 'r', 'i', 'n', 'g'],
        "number"@ == seq!['n', 'u', 'm', 'b', 'e', 'r'],
        "TINYINT"@ == seq!['T', 'I', 'N', 'Y', 'I', 'N', 'T'],
        "SMALLINT"@ == seq!['S', 'M', 'A', 'L', 'L', 'I', 'N', 'T'],
        "INT"@ == seq!['I', 'N', 'T'],
        "BIGINT"@ == seq!['B', 'I', 'G', 'I', 'N', 'T'],
        "TINYINT UNSIGNED"@ == seq!['T', 'I', 'N', 'Y', 'I', 'N', 'T', ' ', 'U', 'N', 'S', 'I', 'G', 'N', 'E', 'D'],
        "SMALLINT UNSIGNED"@ == seq!['S', 'M', 'A', 'L', 'L', 'I', 'N', 'T', ' ', 'U', 'N', 'S', 'I', 'G', 'N', 'E', 'D'],
        "INT UNSIGNED"@ == seq!['I', 'N', 'T', ' ', 'U', 'N', 'S', 'I', 'G', 'N', 'E', 'D'],
        "BIGINT UNSIGNED"@ == seq!['B', 'I', 'G', 'I', 'N', 'T', ' ', 'U', 'N', 'S', 'I', 'G', 'N', 'E', 'D'],
        "FLOAT"@ == seq!['F', 'L', 'O', 'A', 'T'],
        "DOUBLE"@ == seq!['D', 'O', 'U', 'B', 'L', 'E'],
        "BOOLEAN"@ == seq!['B', 'O', 'O', 'L', 'E', 'A', 'N'],
        "TEXT"@ == seq!['T', 'E', 'X', 'T'],
        "CHAR(1)"@ == seq!['C', 'H', 'A', 'R', '(', '1', ')'],
        "Byte"@ == seq!['B', 'y', 't', 'e'],
        "Short"@ == seq!['S', 'h', 'o', 'r', 't'],
        "Integer"@ == seq!['I', 'n', 't', 'e', 'g', 'e', 'r'],
        "Long"@ == seq!['L', 'o', 'n', 'g'],
        "Float"@ == seq!['F', 'l', 'o', 'a', 't'],
        "Double"@ == seq!['D', 'o', 'u', 'b', 'l', 'e'],
        "Boolean"@ == seq!['B', 'o', 'o', 'l', 'e', 'a', 'n'],
        "Character"@ == seq!['C', 'h', 'a', 'r', 'a', 'c', 't', 'e', 'r'],
{
    reveal_strlit("int8");
    reveal_strlit("int16");
    reveal_strlit("int32");
    reveal_strlit("int64");
    reveal_strlit("uint8");
    reveal_strlit("uint16");
    reveal_strlit("uint32");
    reveal_strlit("uint64");
    reveal_strlit("float");
    reveal_strlit("double");
    reveal_strlit("bool");
    reveal_strlit("string");
    reveal_strlit("char");
    reveal_strlit("byte");
    reveal_strlit("short");
    reveal_strlit("int");
    reveal_strlit("long");
    reveal_strlit("boolean");
    reveal_strlit("String");
    reveal_strlit("number");
    reveal_strlit("TINYINT");
    reveal_strlit("SMALLINT");
    reveal_strlit("INT");
    reveal_strlit("BIGINT");
    reveal_strlit("TINYINT UNSIGNED");
    reveal_strlit("SMALLINT UNSIGNED");
    reveal_strlit("INT UNSIGNED");
    reveal_strlit("BIGINT UNSIGNED");
    reveal_strlit("FLOAT");
    reveal_strlit("DOUBLE");
    reveal_strlit("BOOLEAN");
    reveal_strlit("TEXT");
    reveal_strlit("CHAR(1)");
    reveal_strlit("Byte");
    reveal_strlit("Short");
    reveal_strlit("Integer");
    reveal_strlit("Long");
    reveal_strlit("Float");
    reveal_strlit("Double");
    reveal_strlit("Boolean");
    reveal_strlit("Character");
    assert("int8"@ =~= seq!['i', 'n', 't', '8']);
    assert("int16"@ =~= seq!['i', 'n', 't', '1', '6']);
    assert("int32"@ =~= seq!['i', 'n', 't', '3', '2']);
    assert("int64"@ =~= seq!['i', 'n', 't', '6', '4']);
    assert("uint8"@ =~= seq!['u', 'i', 'n', 't', '8']);
    assert("uint16"@ =~= seq!['u', 'i', 'n', 't', '1', '6']);
    assert("uint32"@ =~= seq!['u', 'i', 'n', 't', '3', '2']);
    assert("uint64"@ =~= seq!['u', 'i', 'n', 't', '6', '4']);
    assert("float"@ =~= seq!['f', 'l', 'o', 'a', 't']);
    assert("double"@ =~= seq!['d', 'o', 'u', 'b', 'l', 'e']);
    assert("bool"@ =~= seq!['b', 'o', 'o', 'l']);
    assert("string"@ =~= seq!['s', 't', 'r', 'i', 'n', 'g']);
    assert("char"@ =~= seq!['c', 'h', 'a', 'r']);
    assert("byte"@ =~= seq!['b', 'y', 't', 'e']);
    assert("short"@ =~= seq!['s', 'h', 'o', 'r', 't']);
    assert("int"@ =~= seq!['i', 'n', 't']);
    assert("long"@ =~= seq!['l', 'o', 'n', 'g']);
    assert("boolean"@ =~= seq!['b', 'o', 'o', 'l', 'e', 'a', 'n']);
    assert("String"@ =~= seq!['S', 't', 'r', 'i', 'n', 'g']);
    assert("number"@ =~= seq!['n', 'u', 'm', 'b', 'e', 'r']);
    assert("TINYINT"@ =~= seq!['T', 'I', 'N', 'Y', 'I', 'N', 'T']);
    assert("SMALLINT"@ =~= seq!['S', 'M', 'A', 'L', 'L', 'I', 'N', 'T']);
    assert("INT"@ =~= seq!['I', 'N', 'T']);
    assert("BIGINT"@ =~= seq!['B', 'I', 'G', 'I', 'N', 'T']);
    assert("TINYINT UNSIGNED"@ =~= seq!['T', 'I', 'N', 'Y', 'I', 'N', 'T', ' ', 'U', 'N', 'S', 'I', 'G', 'N', 'E', 'D']);
    assert("SMALLINT UNSIGNED"@ =~= seq!['S', 'M', 'A', 'L', 'L', 'I', 'N', 'T', ' ', 'U', 'N', 'S', 'I', 'G', 'N', 'E', 'D']);
    assert("INT UNSIGNED"@ =~= seq!['I', 'N', 'T', ' ', 'U', 'N', 'S', 'I', 'G', 'N', 'E', 'D']);
    assert("BIGINT UNSIGNED"@ =~= seq!['B', 'I', 'G', 'I', 'N', 'T', ' ', 'U', 'N', 'S', 'I', 'G', 'N', 'E', 'D']);
    assert("FLOAT"@ =~= seq!['F', 'L', 'O', 'A', 'T']);
    assert("DOUBLE"@ =~= seq!['D', 'O', 'U', 'B', 'L', 'E']);
    assert("BOOLEAN"@ =~= seq!['B', 'O', 'O', 'L', 'E', 'A', 'N']);
    assert("TEXT"@ =~= seq!['T', 'E', 'X', 'T']);
    assert("CHAR(1)"@ =~= seq!['C', 'H', 'A', 'R', '(', '1', ')']);
    assert("Byte"@ =~= seq!['B', 'y', 't', 'e']);
    assert("Short"@ =~= seq!['S', 'h', 'o', 'r', 't']);
    assert("Integer"@ =~= seq!['I', 'n', 't', 'e', 'g', 'e', 'r']);
    assert("Long"@ =~= seq!['L', 'o', 'n', 'g']);
    assert("Float"@ =~= seq!['F', 'l', 'o', 'a', 't']);
    assert("Double"@ =~= seq!['D', 'o', 'u', 'b', 'l', 'e']);
    assert("Boolean"@ =~= seq!['B', 'o', 'o', 'l', 'e', 'a', 'n']);
    assert("Character"@ =~= seq!['C', 'h', 'a', 'r', 'a', 'c', 't', 'e', 'r']);
}

// ---------------------------------------------------------------- C++ setters

/// Whether a variable is private and not `const`: the ones that have a setter.
pub open spec fn has_setter(v: SpecVariable) -> bool {
    v.visibility == VariableVisibility::PRIVATE && !v.has(VariableModifier::CONST)
}

/// A class has setters exactly for its private members that are not
/// `const`: its setters are those of these members alone, a class whose
/// members are all `const` has none, and one with such a member has some.
pub proof fn law_cpp_no_setter_for_const(vars: Seq<SpecVariable>)
    ensures
        cpp_setters(vars) == cpp_setters(vars.filter(|v: SpecVariable| has_setter(v))),
        (forall|k: int| 0 <= k < vars.len() ==> (#[trigger] vars[k]).has(VariableModifier::CONST))
            ==> cpp_setters(vars).len() == 0,
        (exists|k: int| 0 <= k < vars.len() && has_setter(#[trigger] vars[k])) ==> cpp_setters(vars).len() > 0,
    decreases vars.len(),
{
    reveal(Seq::filter);
    reveal_strlit("\tvoid set");
    let p = |v: SpecVariable| has_setter(v);
    if vars.len() > 0 {
        let init = vars.drop_last();
        let v = vars.last();
        law_cpp_no_setter_for_const(init);
        assert(vars.filter(p) == if p(v) { init.filter(p).push(v) } else { init.filter(p) });
        if p(v) {
            let f = init.filter(p);
            assert(f.push(v).drop_last() =~= f);
            assert(f.push(v).last() == v);
            assert(cpp_setter(v).len() > 0);
        }
        if forall|k: int| 0 <= k < vars.len() ==> (#[trigger] vars[k]).has(VariableModifier::CONST) {
            assert forall|k: int| 0 <= k < init.len() implies (#[trigger] init[k]).has(VariableModifier::CONST) by {
                assert(init[k] == vars[k]);
            }
            assert(vars[vars.len() - 1].has(VariableModifier::CONST));
        }
        if exists|k: int| 0 <= k < vars.len() && has_setter(#[trigger] vars[k]) {
            let k = choose|k: int| 0 <= k < vars.len() && has_setter(#[trigger] vars[k]);
            if k < init.len() {
                assert(init[k] == vars[k]);
                assert(has_setter(init[k]));
            } else {
                assert(vars[k] == v);
            }
        }
    }
}

// ---------------------------------------------------------------- Java types

/// The width in bits of a Java primitive integer type (all signed).
pub open spec fn java_int_bits(j: Seq<char>) -> Option<nat> {
    if j == "byte"@ { Some(8) }
    else if j == "short"@ { Some(16) }
    else if j == "int"@ { Some(32) }
    else if j == "long"@ { Some(64) }
    else { None }
}

/// The Java wrapper class of a primitive type; other types are their own.
pub open spec fn java_box(j: Seq<char>) -> Seq<char> {
    if j == "byte"@ { "Byte"@ }
    else if j == "short"@ { "Short"@ }
    else if j == "int"@ { "Integer"@ }
    else if j == "long"@ { "Long"@ }
    else if j == "float"@ { "Float"@ }
    else if j == "double"@ { "Double"@ }
    else if j == "boolean"@ { "Boolean"@ }
    else if j == "char"@ { "Character"@ }
    else { j }
}

/// Java holds every OML integer in a Java integer type: a signed one in the
/// type of the same width, an unsigned one of 8, 16 or 32 bits in the next
/// wider type (64-bit ones in `long`). The type used inside generics is the
/// wrapper class of the primitive type.
pub proof fn law_java_integer_widths(t: Seq<char>)
    ensures
        oml_int_bits(t) matches Some(n) ==> (java_int_bits(java_type(t)) matches Some(m)
            && (if !oml_unsigned(t) || n == 64 { m == n } else { m == 2 * n })),
        oml_basic_type(t) ==> java_boxed_type(t) == java_box(java_type(t)),
{
    lemma_type_names();
    if t == "int8"@ {
        assert(java_type(t) == "byte"@);
    } else if t == "int16"@ {
        assert(java_type(t) == "short"@);
    } else if t == "int32"@ {
        assert(java_type(t) == "int"@);
    } else if t == "int64"@ {
        assert(java_type(t) == "long"@);
    } else if t == "uint8"@ {
        assert(java_type(t) == "short"@);
    } else if t == "uint16"@ {
        assert(java_type(t) == "int"@);
    } else if t == "uint32"@ {
        assert(java_type(t) == "long"@);
    } else if t == "uint64"@ {
        assert(java_type(t) == "long"@);
    } else if t == "float"@ {
        assert(java_type(t) == "float"@);
    } else if t == "double"@ {
        assert(java_type(t) == "double"@);
    } else if t == "bool"@ {
        assert(java_type(t) == "boolean"@);
    } else if t == "string"@ {
        assert(java_type(t) == "String"@);
    } else if t == "char"@ {
        assert(java_type(t) == "char"@);
    }
}

// ---------------------------------------------------------------- TypeScript types

/// In TypeScript exactly the OML number types become `number`; `bool` is
/// `boolean`, and `string` and `char` are `string`.
pub proof fn law_ts_number_types(t: Seq<char>)
    ensures
        oml_basic_type(t) ==> (ts_type(t) == "number"@ <==> oml_numeric(t)),
        oml_basic_type(t) && !oml_numeric(t) ==> ts_type(t) == (if t == "bool"@ { "boolean"@ } else { "string"@ }),
{
    lemma_type_names();
    if t == "int8"@ {
        assert(ts_type(t) == "number"@);
    } else if t == "int16"@ {
        assert(ts_type(t) == "number"@);
    } else if t == "int32"@ {
        assert(ts_type(t) == "number"@);
    } else if t == "int64"@ {
        assert(ts_type(t) == "number"@);
    } else if t == "uint8"@ {
        assert(ts_type(t) == "number"@);
    } else if t == "uint16"@ {
        assert(ts_type(t) == "number"@);
    } else if t == "uint32"@ {
        assert(ts_type(t) == "number"@);
    } else if t == "uint64"@ {
        assert(ts_type(t) == "number"@);
    } else if t == "float"@ {
        assert(ts_type(t) == "number"@);
    } else if t == "double"@ {
        assert(ts_type(t) == "number"@);
    } else if t == "bool"@ {
        assert(ts_type(t) == "boolean"@);
    } else if t == "string"@ {
        assert(ts_type(t) == "string"@);
    } else if t == "char"@ {
        assert(ts_type(t) == "string"@);
    }
}

// ---------------------------------------------------------------- SQL types

/// The width in bits and signedness of an SQL integer column type.
pub open spec fn sql_int_bits(c: Seq<char>) -> Option<(nat, bool)> {
    if c == "TINYINT"@ { Some((8nat, false)) }
    else if c == "SMALLINT"@ { Some((16nat, false)) }
    else if c == "INT"@ { Some((32nat, false)) }
    else if c == "BIGINT"@ { Some((64nat, false)) }
    else if c == "TINYINT UNSIGNED"@ { Some((8nat, true)) }
    else if c == "SMALLINT UNSIGNED"@ { Some((16nat, true)) }
    else if c == "INT UNSIGNED"@ { Some((32nat, true)) }
    else if c == "BIGINT UNSIGNED"@ { Some((64nat, true)) }
    else { None }
}

/// Each OML integer type is stored in the SQL integer column of the same
/// width and signedness.
pub proof fn law_sql_integer_widths(t: Seq<char>)
    ensures
        oml_int_bits(t) matches Some(n) ==> sql_int_bits(sql_type(t)) == Some((n, oml_unsigned(t))),
{
    lemma_type_names();
    if t == "int8"@ {
        assert(sql_type(t) == "TINYINT"@);
        assert(oml_int_bits(t) == Some(8nat));
        assert(oml_unsigned(t) == false);
        assert(sql_int_bits(sql_type(t)) == Some((8nat, false)));
    } else if t == "int16"@ {
        assert(sql_type(t) == "SMALLINT"@);
        assert(oml_int_bits(t) == Some(16nat));
        assert(oml_unsigned(t) == false);
        assert(sql_int_bits(sql_type(t)) == Some((16nat, false)));
    } else if t == "int32"@ {
        assert(sql_type(t) == "INT"@);
        assert(oml_int_bits(t) == Some(32nat));
        assert(oml_unsigned(t) == false);
        assert(sql_int_bits(sql_type(t)) == Some((32nat, false)));
    } else if t == "int64"@ {
        assert(sql_type(t) == "BIGINT"@);
        assert(oml_int_bits(t) == Some(64nat));
        assert(oml_unsigned(t) == false);
        assert(sql_int_bits(sql_type(t)) == Some((64nat, false)));
    } else if t == "uint8"@ {
        assert(sql_type(t) == "TINYINT UNSIGNED"@);
        assert(oml_int_bits(t) == Some(8nat));
        assert(oml_unsigned(t) == true);
        assert(sql_int_bits(sql_type(t)) == Some((8nat, true)));
    } else if t == "uint16"@ {
        assert(sql_type(t) == "SMALLINT UNSIGNED"@);
        assert(oml_int_bits(t) == Some(16nat));
        assert(oml_unsigned(t) == true);
        assert(sql_int_bits(sql_type(t)) == Some((16nat, true)));
    } else if t == "uint32"@ {
        assert(sql_type(t) == "INT UNSIGNED"@);
        assert(oml_int_bits(t) == Some(32nat));
        assert(oml_unsigned(t) == true);
        assert(sql_int_bits(sql_type(t)) == Some((32nat, true)));
    } else if t == "uint64"@ {
        assert(sql_type(t) == "BIGINT UNSIGNED"@);
        assert(oml_int_bits(t) == Some(64nat));
        assert(oml_unsigned(t) == true);
        assert(sql_int_bits(sql_type(t)) == Some((64nat, true)));
    } else if t == "float"@ {
        assert(sql_type(t) == "FLOAT"@);
    } else if t == "double"@ {
        assert(sql_type(t) == "DOUBLE"@);
    } else if t == "bool"@ {
        assert(sql_type(t) == "BOOLEAN"@);
    } else if t == "string"@ {
        assert(sql_type(t) == "TEXT"@);
    } else if t == "char"@ {
        assert(sql_type(t) == "CHAR(1)"@);
    }
}

// ---------------------------------------------------------------- OML modifiers

proof fn lemma_modifiers_front(mods: Seq<VariableModifier>)
    requires
        mods.len() > 0,
    ensures
        oml_modifiers(mods) == oml_modifier(mods[0]) + oml_modifiers(mods.drop_first()),
    decreases mods.len(),
{
    if mods.len() == 1 {
        assert(mods.drop_last() =~= Seq::<VariableModifier>::empty());
        assert(mods.drop_first() =~= Seq::<VariableModifier>::empty());
        assert(oml_modifier(mods[0]) + Seq::<char>::empty() =~= oml_modifier(mods[0]));
    } else {
        lemma_modifiers_front(mods.drop_last());
        assert(mods.drop_last()[0] == mods[0]);
        assert(mods.drop_last().drop_first() =~= mods.drop_first().drop_last());
        assert(mods.drop_first().last() == mods.last());
        assert(oml_modifiers(mods) =~= oml_modifier(mods[0]) + oml_modifiers(mods.drop_first()));
    }
}

proof fn lemma_modifier_keywords(m: VariableModifier)
    ensures
        oml_modifier(m).len() > 0,
        oml_modifier(m)[0] == match m {
            VariableModifier::CONST => 'c',
            VariableModifier::MUT => 'm',
            VariableModifier::STATIC => 's',
            VariableModifier::OPTIONAL => 'o',
        },
{
    reveal_strlit("const ");
    reveal_strlit("mut ");
    reveal_strlit("static ");
    reveal_strlit("optional ");
}

/// Each modifier is written as a keyword of its own: two lists of modifiers
/// written the same way are the same list, so the OML text keeps exactly the
/// modifiers a variable holds, in order.
pub proof fn law_oml_modifiers_distinct(a: Seq<VariableModifier>, b: Seq<VariableModifier>)
    ensures
        oml_modifiers(a) == oml_modifiers(b) ==> a == b,
    decreases a.len(),
{
    if oml_modifiers(a) == oml_modifiers(b) {
        if a.len() == 0 && b.len() == 0 {
            assert(a =~= b);
        } else if a.len() == 0 {
            lemma_modifiers_front(b);
            lemma_modifier_keywords(b[0]);
            assert(oml_modifiers(a).len() == 0);
            assert(false);
        } else if b.len() == 0 {
            lemma_modifiers_front(a);
            lemma_modifier_keywords(a[0]);
            assert(oml_modifiers(b).len() == 0);
            assert(false);
        } else {
            lemma_modifiers_front(a);
            lemma_modifiers_front(b);
            lemma_modifier_keywords(a[0]);
            lemma_modifier_keywords(b[0]);
            let s = oml_modifiers(a);
            assert(s[0] == oml_modifier(a[0])[0]);
            assert(s[0] == oml_modifier(b[0])[0]);
            assert(a[0] == b[0]);
            let k = oml_modifier(a[0]);
            assert(oml_modifiers(a.drop_first()) =~= s.subrange(k.len() as int, s.len() as int));
            assert(oml_modifiers(b.drop_first()) =~= s.subrange(k.len() as int, s.len() as int));
            law_oml_modifiers_distinct(a.drop_first(), b.drop_first());
            assert(a =~= seq![a[0]] + a.drop_first());
            assert(b =~= seq![b[0]] + b.drop_first());
            assert(a.drop_first() == b.drop_first());
            assert(a == b);
        }
    }
}

/// The name of a modifier, as the OML model spells it.
pub open spec fn modifier_name(m: VariableModifier) -> Seq<char> {
    match m {
        VariableModifier::CONST => "CONST"@,
        VariableModifier::MUT => "MUT"@,
        VariableModifier::STATIC => "STATIC"@,
        VariableModifier::OPTIONAL => "OPTIONAL"@,
    }
}

/// The code of a character with ASCII capitals made small.
pub open spec fn ascii_lower_code(c: char) -> int {
    if 65 <= (c as int) <= 90 { (c as int) + 32 } else { c as int }
}

/// The keyword that OML writes for a modifier is the modifier's name in
/// small letters, followed by a space.
pub proof fn law_oml_modifier_keyword(m: VariableModifier)
    ensures
        oml_modifier(m).len() == modifier_name(m).len() + 1,
        forall|i: int| 0 <= i < modifier_name(m).len()
            ==> (oml_modifier(m)[i] as int) == ascii_lower_code(#[trigger] modifier_name(m)[i]),
        oml_modifier(m).last() == ' ',
{
    reveal_strlit("const ");
    reveal_strlit("mut ");
    reveal_strlit("static ");
    reveal_strlit("optional ");
    reveal_strlit("CONST");
    reveal_strlit("MUT");
    reveal_strlit("STATIC");
    reveal_strlit("OPTIONAL");
}

} // verus!
