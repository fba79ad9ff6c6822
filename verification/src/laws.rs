use vstd::prelude::*;
use crate::chars::{digit_value, digits_value, is_digit, parse_u32, unsigned_digits};
use crate::text::{decimal, digit_char};
use crate::generators::cpp::cpp_type;
use crate::generators::cpp_reverse::oml_of_cpp_type;
use crate::generators::rust::rs_type;
use crate::generators::rust_reverse::oml_of_rust_type;
use crate::generators::kotlin::kt_type;
use crate::generators::kotlin_reverse::oml_of_kotlin_type;
use crate::generators::python::py_type;
use crate::generators::python_reverse::{
    PythonReading, between, oml_of_python_type, py_class_ends, py_class_member, py_dataclass_ends,
    py_dataclass_member, py_decorator, py_enum_ends, py_enum_member, python_open_object, python_read,
};
use crate::chars::{after_prefix, before_char, contains_seq, lines, starts_with, trim};
use crate::reading::read_object;
use crate::generators::python::PythonGenerator;
use crate::generate::BackwardsGenerate;
use crate::oml_object::{ObjectType, SpecOmlObject};

verus! {

/// The decimal numeral of `n` is a nonempty run of digits whose value is `n`.
pub proof fn lemma_decimal_digits(n: nat)
    ensures
        decimal(n).len() > 0,
        forall|k: int| 0 <= k < decimal(n).len() ==> is_digit(#[trigger] decimal(n)[k]),
        digits_value(decimal(n)) == n,
    decreases n,
{
    if n < 10 {
        assert(digit_value(digit_char(n)) == n);
        assert(decimal(n).drop_last() =~= Seq::<char>::empty());
        assert(digits_value(Seq::<char>::empty()) == 0);
        assert(decimal(n).last() == digit_char(n));
    } else {
        lemma_decimal_digits(n / 10);
        let d = decimal(n);
        assert(d.drop_last() == decimal(n / 10));
        assert(d.last() == digit_char(n % 10));
        assert(digit_value(digit_char(n % 10)) == n % 10);
        assert((n / 10) * 10 + n % 10 == n) by (nonlinear_arith);
        assert forall|k: int| 0 <= k < d.len() implies is_digit(#[trigger] d[k]) by {
            if k < d.len() - 1 {
                assert(d[k] == decimal(n / 10)[k]);
            }
        }
    }
}

/// Reading back the decimal numeral of a 32-bit number, as the generators
/// write array sizes, gives the number again.
pub proof fn law_parse_decimal(n: u32)
    ensures
        parse_u32(decimal(n as nat)) == Some(n),
{
    lemma_decimal_digits(n as nat);
    let d = decimal(n as nat);
    assert(is_digit(d[0]));
    assert(unsigned_digits(d) == d);
}

/// Reading back the C++ spelling of an OML type name gives the name again,
/// for every name but the C++ spellings of other OML types (such as
/// `int8_t`), which are written unchanged and read back as those types.
pub proof fn law_cpp_type_round_trip(t: Seq<char>)
    requires
        cpp_type(t) != t || oml_of_cpp_type(t) == t,
    ensures
        oml_of_cpp_type(cpp_type(t)) == t,
{
    reveal_strlit("bool");
    reveal_strlit("char");
    reveal_strlit("double");
    reveal_strlit("float");
    reveal_strlit("int16");
    reveal_strlit("int16_t");
    reveal_strlit("int32");
    reveal_strlit("int32_t");
    reveal_strlit("int64");
    reveal_strlit("int64_t");
    reveal_strlit("int8");
    reveal_strlit("int8_t");
    reveal_strlit("std::string");
    reveal_strlit("string");
    reveal_strlit("uint16");
    reveal_strlit("uint16_t");
    reveal_strlit("uint32");
    reveal_strlit("uint32_t");
    reveal_strlit("uint64");
    reveal_strlit("uint64_t");
    reveal_strlit("uint8");
    reveal_strlit("uint8_t");
    assert("bool"@[0] != "char"@[0]);
    assert("bool"@[0] != "int8"@[0]);
    assert("char"@[0] != "int8"@[0]);
    assert("double"@[0] != "int8_t"@[0]);
    assert("double"@[0] != "string"@[0]);
    assert("double"@[0] != "uint16"@[0]);
    assert("double"@[0] != "uint32"@[0]);
    assert("double"@[0] != "uint64"@[0]);
    assert("float"@[0] != "int16"@[0]);
    assert("float"@[0] != "int32"@[0]);
    assert("float"@[0] != "int64"@[0]);
    assert("float"@[0] != "uint8"@[0]);
    assert("int16"@[3] != "int32"@[3]);
    assert("int16"@[3] != "int64"@[3]);
    assert("int16"@[0] != "uint8"@[0]);
    assert("int16_t"@[3] != "int32_t"@[3]);
    assert("int16_t"@[3] != "int64_t"@[3]);
    assert("int16_t"@[0] != "uint8_t"@[0]);
    assert("int32"@[3] != "int64"@[3]);
    assert("int32"@[0] != "uint8"@[0]);
    assert("int32_t"@[3] != "int64_t"@[3]);
    assert("int32_t"@[0] != "uint8_t"@[0]);
    assert("int64"@[0] != "uint8"@[0]);
    assert("int64_t"@[0] != "uint8_t"@[0]);
    assert("string"@[0] != "uint16"@[0]);
    assert("string"@[0] != "uint32"@[0]);
    assert("string"@[0] != "uint64"@[0]);
    assert("uint16"@[4] != "uint32"@[4]);
    assert("uint16"@[4] != "uint64"@[4]);
    assert("uint16_t"@[4] != "uint32_t"@[4]);
    assert("uint16_t"@[4] != "uint64_t"@[4]);
    assert("uint32"@[4] != "uint64"@[4]);
    assert("uint32_t"@[4] != "uint64_t"@[4]);
}

/// Reading back the Rust spelling of an OML type name gives the name again,
/// for every name but the Rust spellings of other OML types (such as `i8`).
pub proof fn law_rust_type_round_trip(t: Seq<char>)
    requires
        rs_type(t) != t || oml_of_rust_type(t) == t,
    ensures
        oml_of_rust_type(rs_type(t)) == t,
{
    reveal_strlit("String");
    reveal_strlit("bool");
    reveal_strlit("char");
    reveal_strlit("double");
    reveal_strlit("f32");
    reveal_strlit("f64");
    reveal_strlit("float");
    reveal_strlit("i16");
    reveal_strlit("i32");
    reveal_strlit("i64");
    reveal_strlit("i8");
    reveal_strlit("int16");
    reveal_strlit("int32");
    reveal_strlit("int64");
    reveal_strlit("int8");
    reveal_strlit("string");
    reveal_strlit("u16");
    reveal_strlit("u32");
    reveal_strlit("u64");
    reveal_strlit("u8");
    reveal_strlit("uint16");
    reveal_strlit("uint32");
    reveal_strlit("uint64");
    reveal_strlit("uint8");
    assert("bool"@[0] != "char"@[0]);
    assert("bool"@[0] != "int8"@[0]);
    assert("char"@[0] != "int8"@[0]);
    assert("double"@[0] != "string"@[0]);
    assert("double"@[0] != "uint16"@[0]);
    assert("double"@[0] != "uint32"@[0]);
    assert("double"@[0] != "uint64"@[0]);
    assert("f32"@[1] != "f64"@[1]);
    assert("f32"@[0] != "i16"@[0]);
    assert("f32"@[0] != "i32"@[0]);
    assert("f32"@[0] != "i64"@[0]);
    assert("f32"@[0] != "u16"@[0]);
    assert("f32"@[0] != "u32"@[0]);
    assert("f32"@[0] != "u64"@[0]);
    assert("f64"@[0] != "i16"@[0]);
    assert("f64"@[0] != "i32"@[0]);
    assert("f64"@[0] != "i64"@[0]);
    assert("f64"@[0] != "u16"@[0]);
    assert("f64"@[0] != "u32"@[0]);
    assert("f64"@[0] != "u64"@[0]);
    assert("float"@[0] != "int16"@[0]);
    assert("float"@[0] != "int32"@[0]);
    assert("float"@[0] != "int64"@[0]);
    assert("float"@[0] != "uint8"@[0]);
    assert("i16"@[1] != "i32"@[1]);
    assert("i16"@[1] != "i64"@[1]);
    assert("i16"@[0] != "u16"@[0]);
    assert("i16"@[0] != "u32"@[0]);
    assert("i16"@[0] != "u64"@[0]);
    assert("i32"@[1] != "i64"@[1]);
    assert("i32"@[0] != "u16"@[0]);
    assert("i32"@[0] != "u32"@[0]);
    assert("i32"@[0] != "u64"@[0]);
    assert("i64"@[0] != "u16"@[0]);
    assert("i64"@[0] != "u32"@[0]);
    assert("i64"@[0] != "u64"@[0]);
    assert("i8"@[0] != "u8"@[0]);
    assert("int16"@[3] != "int32"@[3]);
    assert("int16"@[3] != "int64"@[3]);
    assert("int16"@[0] != "uint8"@[0]);
    assert("int32"@[3] != "int64"@[3]);
    assert("int32"@[0] != "uint8"@[0]);
    assert("int64"@[0] != "uint8"@[0]);
    assert("string"@[0] != "uint16"@[0]);
    assert("string"@[0] != "uint32"@[0]);
    assert("string"@[0] != "uint64"@[0]);
    assert("u16"@[1] != "u32"@[1]);
    assert("u16"@[1] != "u64"@[1]);
    assert("u32"@[1] != "u64"@[1]);
    assert("uint16"@[4] != "uint32"@[4]);
    assert("uint16"@[4] != "uint64"@[4]);
    assert("uint32"@[4] != "uint64"@[4]);
}

proof fn lemma_kotlin_int32_round_trip()
    ensures
        oml_of_kotlin_type(kt_type("int32"@)) == "int32"@,
{
    reveal_strlit("Int");
    reveal_strlit("int32");
    assert("Int"@.len() == 3);
    assert("int32"@.len() == 5);
    assert(kt_type("int32"@) == "Int"@);
}

proof fn lemma_kotlin_int64_round_trip()
    ensures
        oml_of_kotlin_type(kt_type("int64"@)) == "int64"@,
{
    reveal_strlit("Int");
    reveal_strlit("Long");
    reveal_strlit("int16");
    reveal_strlit("int32");
    reveal_strlit("int64");
    reveal_strlit("int8");
    assert("Int"@.len() == 3);
    assert("Long"@.len() == 4);
    assert("int16"@.len() == 5);
    assert("int32"@.len() == 5);
    assert("int64"@.len() == 5);
    assert("int8"@.len() == 4);
    assert("int64"@ != "int8"@);
    assert("int64"@[3] != "int16"@[3]);
    assert("int64"@ != "int16"@);
    assert("int64"@[3] != "int32"@[3]);
    assert("int64"@ != "int32"@);
    assert(kt_type("int64"@) == "Long"@);
    assert("Long"@ != "Int"@);
}

proof fn lemma_kotlin_uint32_round_trip()
    ensures
        oml_of_kotlin_type(kt_type("uint32"@)) == "uint32"@,
{
    reveal_strlit("Int");
    reveal_strlit("Long");
    reveal_strlit("UInt");
    reveal_strlit("int16");
    reveal_strlit("int32");
    reveal_strlit("int64");
    reveal_strlit("int8");
    reveal_strlit("uint32");
    assert("Int"@.len() == 3);
    assert("Long"@.len() == 4);
    assert("UInt"@.len() == 4);
    assert("int16"@.len() == 5);
    assert("int32"@.len() == 5);
    assert("int64"@.len() == 5);
    assert("int8"@.len() == 4);
    assert("uint32"@.len() == 6);
    assert("uint32"@ != "int8"@);
    assert("uint32"@ != "int16"@);
    assert("uint32"@ != "int32"@);
    assert("uint32"@ != "int64"@);
    assert(kt_type("uint32"@) == "UInt"@);
    assert("UInt"@ != "Int"@);
    assert("UInt"@[0] != "Long"@[0]);
    assert("UInt"@ != "Long"@);
}

proof fn lemma_kotlin_uint64_round_trip()
    ensures
        oml_of_kotlin_type(kt_type("uint64"@)) == "uint64"@,
{
    reveal_strlit("Int");
    reveal_strlit("Long");
    reveal_strlit("UInt");
    reveal_strlit("ULong");
    reveal_strlit("int16");
    reveal_strlit("int32");
    reveal_strlit("int64");
    reveal_strlit("int8");
    reveal_strlit("uint16");
    reveal_strlit("uint32");
    reveal_strlit("uint64");
    reveal_strlit("uint8");
    assert("Int"@.len() == 3);
    assert("Long"@.len() == 4);
    assert("UInt"@.len() == 4);
    assert("ULong"@.len() == 5);
    assert("int16"@.len() == 5);
    assert("int32"@.len() == 5);
    assert("int64"@.len() == 5);
    assert("int8"@.len() == 4);
    assert("uint16"@.len() == 6);
    assert("uint32"@.len() == 6);
    assert("uint64"@.len() == 6);
    assert("uint8"@.len() == 5);
    assert("uint64"@ != "int8"@);
    assert("uint64"@ != "int16"@);
    assert("uint64"@ != "int32"@);
    assert("uint64"@ != "int64"@);
    assert("uint64"@ != "uint8"@);
    assert("uint64"@[4] != "uint16"@[4]);
    assert("uint64"@ != "uint16"@);
    assert("uint64"@[4] != "uint32"@[4]);
    assert("uint64"@ != "uint32"@);
    assert(kt_type("uint64"@) == "ULong"@);
    assert("ULong"@ != "Int"@);
    assert("ULong"@ != "Long"@);
    assert("ULong"@ != "UInt"@);
}

proof fn lemma_kotlin_float_round_trip()
    ensures
        oml_of_kotlin_type(kt_type("float"@)) == "float"@,
{
    reveal_strlit("Float");
    reveal_strlit("Int");
    reveal_strlit("Long");
    reveal_strlit("UInt");
    reveal_strlit("ULong");
    reveal_strlit("float");
    reveal_strlit("int16");
    reveal_strlit("int32");
    reveal_strlit("int64");
    reveal_strlit("int8");
    reveal_strlit("uint16");
    reveal_strlit("uint32");
    reveal_strlit("uint64");
    reveal_strlit("uint8");
    assert("Float"@.len() == 5);
    assert("Int"@.len() == 3);
    assert("Long"@.len() == 4);
    assert("UInt"@.len() == 4);
    assert("ULong"@.len() == 5);
    assert("float"@.len() == 5);
    assert("int16"@.len() == 5);
    assert("int32"@.len() == 5);
    assert("int64"@.len() == 5);
    assert("int8"@.len() == 4);
    assert("uint16"@.len() == 6);
    assert("uint32"@.len() == 6);
    assert("uint64"@.len() == 6);
    assert("uint8"@.len() == 5);
    assert("float"@ != "int8"@);
    assert("float"@[0] != "int16"@[0]);
    assert("float"@ != "int16"@);
    assert("float"@[0] != "int32"@[0]);
    assert("float"@ != "int32"@);
    assert("float"@[0] != "int64"@[0]);
    assert("float"@ != "int64"@);
    assert("float"@[0] != "uint8"@[0]);
    assert("float"@ != "uint8"@);
    assert("float"@ != "uint16"@);
    assert("float"@ != "uint32"@);
    assert("float"@ != "uint64"@);
    assert(kt_type("float"@) == "Float"@);
    assert("Float"@ != "Int"@);
    assert("Float"@ != "Long"@);
    assert("Float"@ != "UInt"@);
    assert("Float"@[0] != "ULong"@[0]);
    assert("Float"@ != "ULong"@);
}

proof fn lemma_kotlin_double_round_trip()
    ensures
        oml_of_kotlin_type(kt_type("double"@)) == "double"@,
{
    reveal_strlit("Double");
    reveal_strlit("Float");
    reveal_strlit("Int");
    reveal_strlit("Long");
    reveal_strlit("UInt");
    reveal_strlit("ULong");
    reveal_strlit("double");
    reveal_strlit("float");
    reveal_strlit("int16");
    reveal_strlit("int32");
    reveal_strlit("int64");
    reveal_strlit("int8");
    reveal_strlit("uint16");
    reveal_strlit("uint32");
    reveal_strlit("uint64");
    reveal_strlit("uint8");
    assert("Double"@.len() == 6);
    assert("Float"@.len() == 5);
    assert("Int"@.len() == 3);
    assert("Long"@.len() == 4);
    assert("UInt"@.len() == 4);
    assert("ULong"@.len() == 5);
    assert("double"@.len() == 6);
    assert("float"@.len() == 5);
    assert("int16"@.len() == 5);
    assert("int32"@.len() == 5);
    assert("int64"@.len() == 5);
    assert("int8"@.len() == 4);
    assert("uint16"@.len() == 6);
    assert("uint32"@.len() == 6);
    assert("uint64"@.len() == 6);
    assert("uint8"@.len() == 5);
    assert("double"@ != "int8"@);
    assert("double"@ != "int16"@);
    assert("double"@ != "int32"@);
    assert("double"@ != "int64"@);
    assert("double"@ != "uint8"@);
    assert("double"@[0] != "uint16"@[0]);
    assert("double"@ != "uint16"@);
    assert("double"@[0] != "uint32"@[0]);
    assert("double"@ != "uint32"@);
    assert("double"@[0] != "uint64"@[0]);
    assert("double"@ != "uint64"@);
    assert("double"@ != "float"@);
    assert(kt_type("double"@) == "Double"@);
    assert("Double"@ != "Int"@);
    assert("Double"@ != "Long"@);
    assert("Double"@ != "UInt"@);
    assert("Double"@ != "ULong"@);
    assert("Double"@ != "Float"@);
}

proof fn lemma_kotlin_bool_round_trip()
    ensures
        oml_of_kotlin_type(kt_type("bool"@)) == "bool"@,
{
    reveal_strlit("Boolean");
    reveal_strlit("Double");
    reveal_strlit("Float");
    reveal_strlit("Int");
    reveal_strlit("Long");
    reveal_strlit("UInt");
    reveal_strlit("ULong");
    reveal_strlit("bool");
    reveal_strlit("double");
    reveal_strlit("float");
    reveal_strlit("int16");
    reveal_strlit("int32");
    reveal_strlit("int64");
    reveal_strlit("int8");
    reveal_strlit("uint16");
    reveal_strlit("uint32");
    reveal_strlit("uint64");
    reveal_strlit("uint8");
    assert("Boolean"@.len() == 7);
    assert("Double"@.len() == 6);
    assert("Float"@.len() == 5);
    assert("Int"@.len() == 3);
    assert("Long"@.len() == 4);
    assert("UInt"@.len() == 4);
    assert("ULong"@.len() == 5);
    assert("bool"@.len() == 4);
    assert("double"@.len() == 6);
    assert("float"@.len() == 5);
    assert("int16"@.len() == 5);
    assert("int32"@.len() == 5);
    assert("int64"@.len() == 5);
    assert("int8"@.len() == 4);
    assert("uint16"@.len() == 6);
    assert("uint32"@.len() == 6);
    assert("uint64"@.len() == 6);
    assert("uint8"@.len() == 5);
    assert("bool"@[0] != "int8"@[0]);
    assert("bool"@ != "int8"@);
    assert("bool"@ != "int16"@);
    assert("bool"@ != "int32"@);
    assert("bool"@ != "int64"@);
    assert("bool"@ != "uint8"@);
    assert("bool"@ != "uint16"@);
    assert("bool"@ != "uint32"@);
    assert("bool"@ != "uint64"@);
    assert("bool"@ != "float"@);
    assert("bool"@ != "double"@);
    assert(kt_type("bool"@) == "Boolean"@);
    assert("Boolean"@ != "Int"@);
    assert("Boolean"@ != "Long"@);
    assert("Boolean"@ != "UInt"@);
    assert("Boolean"@ != "ULong"@);
    assert("Boolean"@ != "Float"@);
    assert("Boolean"@ != "Double"@);
}

proof fn lemma_kotlin_string_round_trip()
    ensures
        oml_of_kotlin_type(kt_type("string"@)) == "string"@,
{
    reveal_strlit("Boolean");
    reveal_strlit("Double");
    reveal_strlit("Float");
    reveal_strlit("Int");
    reveal_strlit("Long");
    reveal_strlit("String");
    reveal_strlit("UInt");
    reveal_strlit("ULong");
    reveal_strlit("bool");
    reveal_strlit("double");
    reveal_strlit("float");
    reveal_strlit("int16");
    reveal_strlit("int32");
    reveal_strlit("int64");
    reveal_strlit("int8");
    reveal_strlit("string");
    reveal_strlit("uint16");
    reveal_strlit("uint32");
    reveal_strlit("uint64");
    reveal_strlit("uint8");
    assert("Boolean"@.len() == 7);
    assert("Double"@.len() == 6);
    assert("Float"@.len() == 5);
    assert("Int"@.len() == 3);
    assert("Long"@.len() == 4);
    assert("String"@.len() == 6);
    assert("UInt"@.len() == 4);
    assert("ULong"@.len() == 5);
    assert("bool"@.len() == 4);
    assert("double"@.len() == 6);
    assert("float"@.len() == 5);
    assert("int16"@.len() == 5);
    assert("int32"@.len() == 5);
    assert("int64"@.len() == 5);
    assert("int8"@.len() == 4);
    assert("string"@.len() == 6);
    assert("uint16"@.len() == 6);
    assert("uint32"@.len() == 6);
    assert("uint64"@.len() == 6);
    assert("uint8"@.len() == 5);
    assert("string"@ != "int8"@);
    assert("string"@ != "int16"@);
    assert("string"@ != "int32"@);
    assert("string"@ != "int64"@);
    assert("string"@ != "uint8"@);
    assert("string"@[0] != "uint16"@[0]);
    assert("string"@ != "uint16"@);
    assert("string"@[0] != "uint32"@[0]);
    assert("string"@ != "uint32"@);
    assert("string"@[0] != "uint64"@[0]);
    assert("string"@ != "uint64"@);
    assert("string"@ != "float"@);
    assert("string"@[0] != "double"@[0]);
    assert("string"@ != "double"@);
    assert("string"@ != "bool"@);
    assert(kt_type("string"@) == "String"@);
    assert("String"@ != "Int"@);
    assert("String"@ != "Long"@);
    assert("String"@ != "UInt"@);
    assert("String"@ != "ULong"@);
    assert("String"@ != "Float"@);
    assert("String"@[0] != "Double"@[0]);
    assert("String"@ != "Double"@);
    assert("String"@ != "Boolean"@);
}

proof fn lemma_kotlin_char_round_trip()
    ensures
        oml_of_kotlin_type(kt_type("char"@)) == "char"@,
{
    reveal_strlit("Boolean");
    reveal_strlit("Char");
    reveal_strlit("Double");
    reveal_strlit("Float");
    reveal_strlit("Int");
    reveal_strlit("Long");
    reveal_strlit("String");
    reveal_strlit("UInt");
    reveal_strlit("ULong");
    reveal_strlit("bool");
    reveal_strlit("char");
    reveal_strlit("double");
    reveal_strlit("float");
    reveal_strlit("int16");
    reveal_strlit("int32");
    reveal_strlit("int64");
    reveal_strlit("int8");
    reveal_strlit("string");
    reveal_strlit("uint16");
    reveal_strlit("uint32");
    reveal_strlit("uint64");
    reveal_strlit("uint8");
    assert("Boolean"@.len() == 7);
    assert("Char"@.len() == 4);
    assert("Double"@.len() == 6);
    assert("Float"@.len() == 5);
    assert("Int"@.len() == 3);
    assert("Long"@.len() == 4);
    assert("String"@.len() == 6);
    assert("UInt"@.len() == 4);
    assert("ULong"@.len() == 5);
    assert("bool"@.len() == 4);
    assert("char"@.len() == 4);
    assert("double"@.len() == 6);
    assert("float"@.len() == 5);
    assert("int16"@.len() == 5);
    assert("int32"@.len() == 5);
    assert("int64"@.len() == 5);
    assert("int8"@.len() == 4);
    assert("string"@.len() == 6);
    assert("uint16"@.len() == 6);
    assert("uint32"@.len() == 6);
    assert("uint64"@.len() == 6);
    assert("uint8"@.len() == 5);
    assert("char"@[0] != "int8"@[0]);
    assert("char"@ != "int8"@);
    assert("char"@ != "int16"@);
    assert("char"@ != "int32"@);
    assert("char"@ != "int64"@);
    assert("char"@ != "uint8"@);
    assert("char"@ != "uint16"@);
    assert("char"@ != "uint32"@);
    assert("char"@ != "uint64"@);
    assert("char"@ != "float"@);
    assert("char"@ != "double"@);
    assert("char"@[0] != "bool"@[0]);
    assert("char"@ != "bool"@);
    assert("char"@ != "string"@);
    assert(kt_type("char"@) == "Char"@);
    assert("Char"@ != "Int"@);
    assert("Char"@[0] != "Long"@[0]);
    assert("Char"@ != "Long"@);
    assert("Char"@[0] != "UInt"@[0]);
    assert("Char"@ != "UInt"@);
    assert("Char"@ != "ULong"@);
    assert("Char"@ != "Float"@);
    assert("Char"@ != "Double"@);
    assert("Char"@ != "Boolean"@);
    assert("Char"@ != "String"@);
}


/// Reading back the Kotlin spelling of an OML type name gives the name
/// again, except for the narrow integers that Kotlin writes as `Int` and
/// `UInt` (read back as `int32` and `uint32`) and for the Kotlin spellings of
/// other OML types (such as `Long`).
pub proof fn law_kotlin_type_round_trip(t: Seq<char>)
    requires
        t != "int8"@ && t != "int16"@ && t != "uint8"@ && t != "uint16"@,
        kt_type(t) != t || oml_of_kotlin_type(t) == t,
    ensures
        oml_of_kotlin_type(kt_type(t)) == t,
{
    if t == "int32"@ {
        lemma_kotlin_int32_round_trip();
    } else
    if t == "int64"@ {
        lemma_kotlin_int64_round_trip();
    } else
    if t == "uint32"@ {
        lemma_kotlin_uint32_round_trip();
    } else
    if t == "uint64"@ {
        lemma_kotlin_uint64_round_trip();
    } else
    if t == "float"@ {
        lemma_kotlin_float_round_trip();
    } else
    if t == "double"@ {
        lemma_kotlin_double_round_trip();
    } else
    if t == "bool"@ {
        lemma_kotlin_bool_round_trip();
    } else
    if t == "string"@ {
        lemma_kotlin_string_round_trip();
    } else
    if t == "char"@ {
        lemma_kotlin_char_round_trip();
    } else {
    }
}

/// Reading back the Python spelling of an OML type name gives the name again
/// for `int32`, `double`, `bool` and `string`, which Python's `int`, `float`,
/// `bool` and `str` read back as, and for every name that Python writes
/// unchanged and that is not one of those Python names.
pub proof fn law_python_type_round_trip(t: Seq<char>)
    requires
        t == "int32"@ || t == "double"@ || t == "bool"@ || t == "string"@
            || (py_type(t) == t && oml_of_python_type(t) == t),
    ensures
        oml_of_python_type(py_type(t)) == t,
{
    reveal_strlit("bool");
    reveal_strlit("char");
    reveal_strlit("double");
    reveal_strlit("float");
    reveal_strlit("int");
    reveal_strlit("int16");
    reveal_strlit("int32");
    reveal_strlit("int64");
    reveal_strlit("int8");
    reveal_strlit("str");
    reveal_strlit("string");
    reveal_strlit("uint16");
    reveal_strlit("uint32");
    reveal_strlit("uint64");
    reveal_strlit("uint8");
    assert("bool"@[0] != "char"@[0]);
    assert("bool"@[0] != "int8"@[0]);
    assert("char"@[0] != "int8"@[0]);
    assert("double"@[0] != "string"@[0]);
    assert("double"@[0] != "uint16"@[0]);
    assert("double"@[0] != "uint32"@[0]);
    assert("double"@[0] != "uint64"@[0]);
    assert("float"@[0] != "int16"@[0]);
    assert("float"@[0] != "int32"@[0]);
    assert("float"@[0] != "int64"@[0]);
    assert("float"@[0] != "uint8"@[0]);
    assert("int"@[0] != "str"@[0]);
    assert("int16"@[3] != "int32"@[3]);
    assert("int16"@[3] != "int64"@[3]);
    assert("int16"@[0] != "uint8"@[0]);
    assert("int32"@[3] != "int64"@[3]);
    assert("int32"@[0] != "uint8"@[0]);
    assert("int64"@[0] != "uint8"@[0]);
    assert("string"@[0] != "uint16"@[0]);
    assert("string"@[0] != "uint32"@[0]);
    assert("string"@[0] != "uint64"@[0]);
    assert("uint16"@[4] != "uint32"@[4]);
    assert("uint16"@[4] != "uint64"@[4]);
    assert("uint32"@[4] != "uint64"@[4]);
}

// ---------------------------------------------------------------- Python reading

/// Whether every object of `objs` is a class or an enum.
pub open spec fn classes_and_enums(objs: Seq<SpecOmlObject>) -> bool {
    forall|k: int| 0 <= k < objs.len() ==> (#[trigger] objs[k]).oml_type == ObjectType::CLASS
        || objs[k].oml_type == ObjectType::ENUM
}

proof fn lemma_classes_and_enums_add(a: Seq<SpecOmlObject>, b: Seq<SpecOmlObject>)
    requires
        classes_and_enums(a),
        classes_and_enums(b),
    ensures
        classes_and_enums(a + b),
{
    assert forall|k: int| 0 <= k < (a + b).len() implies (#[trigger] (a + b)[k]).oml_type == ObjectType::CLASS
        || (a + b)[k].oml_type == ObjectType::ENUM by {
        if k < a.len() {
            assert((a + b)[k] == a[k]);
        } else {
            assert((a + b)[k] == b[k - a.len()]);
        }
    }
}

/// The Python reader, from any line and in any state, reads only classes and
/// enums.
proof fn lemma_python_read_kinds(ls: Seq<Seq<char>>, i: int, st: PythonReading)
    ensures
        classes_and_enums(python_read(ls, i, st)),
    decreases ls.len() - i, (if st is Outside { 0int } else { 1int }),
{
    let e = Seq::<SpecOmlObject>::empty();
    assert(classes_and_enums(e));
    if i < ls.len() {
        let raw = ls[i];
        let t = trim(raw);
        match st {
            PythonReading::Outside => {
                if py_decorator(t) {
                    if i + 1 < ls.len() {
                        match between(trim(ls[i + 1]), "class "@, ':') {
                            Some(name) => lemma_python_read_kinds(ls, i + 2, PythonReading::InDataclass {
                                name,
                                frozen: t == "@dataclass(frozen=True)"@,
                                vars: Seq::empty(),
                            }),
                            Option::None => lemma_python_read_kinds(ls, i + 2, PythonReading::Outside),
                        }
                    }
                } else if starts_with(t, "class "@) && contains_seq(t, "(Enum)"@) && t.len() > 0 && t.last() == ':' {
                    lemma_python_read_kinds(ls, i + 1, PythonReading::InEnum {
                        name: trim(before_char(after_prefix(t, "class "@), '(')),
                        vars: Seq::empty(),
                    });
                } else if starts_with(t, "class "@) && t.len() > 0 && t.last() == ':' && !contains_seq(t, "(Enum)"@) {
                    lemma_python_read_kinds(ls, i + 1, PythonReading::InClass {
                        name: trim(after_prefix(t, "class "@).drop_last()),
                        vars: Seq::empty(),
                    });
                } else {
                    lemma_python_read_kinds(ls, i + 1, PythonReading::Outside);
                }
            },
            PythonReading::InDataclass { name, frozen, vars } => {
                if py_dataclass_ends(raw) {
                    lemma_python_read_kinds(ls, i, PythonReading::Outside);
                    lemma_classes_and_enums_add(python_open_object(st), python_read(ls, i, PythonReading::Outside));
                } else {
                    lemma_python_read_kinds(ls, i + 1, PythonReading::InDataclass {
                        name,
                        frozen,
                        vars: vars + py_dataclass_member(t, frozen),
                    });
                }
            },
            PythonReading::InEnum { name, vars } => {
                if py_enum_ends(raw) {
                    lemma_python_read_kinds(ls, i, PythonReading::Outside);
                    lemma_classes_and_enums_add(python_open_object(st), python_read(ls, i, PythonReading::Outside));
                } else {
                    lemma_python_read_kinds(ls, i + 1, PythonReading::InEnum { name, vars: vars + py_enum_member(t) });
                }
            },
            PythonReading::InClass { name, vars } => {
                let vars2 = vars + py_class_member(t);
                if py_class_ends(raw) {
                    lemma_python_read_kinds(ls, i, PythonReading::Outside);
                    lemma_classes_and_enums_add(
                        seq![read_object(ObjectType::CLASS, name, vars2)],
                        python_read(ls, i, PythonReading::Outside),
                    );
                } else {
                    lemma_python_read_kinds(ls, i + 1, PythonReading::InClass { name, vars: vars2 });
                }
            },
        }
    }
}

/// The Python reader gives back only classes and enums, and what it gives
/// back does not depend on whether the generator writes dataclasses.
pub proof fn law_python_reads_classes_and_enums(content: Seq<char>, use_data_class: bool)
    ensures
        classes_and_enums((PythonGenerator { use_data_class }).spec_reverse(content)),
        (PythonGenerator { use_data_class }).spec_reverse(content)
            == (PythonGenerator { use_data_class: !use_data_class }).spec_reverse(content),
{
    lemma_python_read_kinds(lines(content), 0, PythonReading::Outside);
}

} // verus!
