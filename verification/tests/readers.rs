use oml::oml_object::VariableModifier::{CONST, MUT, OPTIONAL, STATIC};
use oml::oml_object::VariableVisibility::{PRIVATE, PROTECTED, PUBLIC};
use oml::generate::{BackwardsGenerate, Generate};
use oml::generators::cpp::CppGenerator;
use oml::generators::cpp_reverse::{parse_cpp_field, parse_cpp_type_and_name_inner, reverse_cpp_type};
use oml::generators::kotlin::KotlinGenerator;
use oml::generators::kotlin_reverse::{
    parse_kotlin_companion_var, parse_kotlin_param, parse_kotlin_type_annotation, reverse_kotlin_type,
};
use oml::generators::python::PythonGenerator;
use oml::generators::python_reverse::{
    extract_python_init_params, parse_python_classvar, parse_python_dataclass_field, parse_python_type,
    reverse_python_type,
};
use oml::generators::rust::RustGenerator;
use oml::generators::rust_reverse::{
    parse_rust_associated_const, parse_rust_field, parse_rust_type_annotation, reverse_rust_type,
};
use oml::oml_object::{ArrayKind, ObjectType, OmlObject, Variable, VariableModifier, VariableVisibility};

fn chars(s: &str) -> Vec<char> {
    s.chars().collect()
}

fn var(name: &str, ty: &str, vis: VariableVisibility, kind: ArrayKind, mods: Vec<VariableModifier>) -> Variable {
    Variable { var_mod: mods, visibility: vis, var_type: ty.to_string(), array_kind: kind, name: name.to_string() }
}

fn assert_var(v: &Variable, name: &str, ty: &str, vis: VariableVisibility, kind: ArrayKind, mods: &[VariableModifier]) {
    assert_eq!(v.name, name);
    assert_eq!(v.var_type, ty);
    assert_eq!(v.visibility, vis);
    assert_eq!(v.array_kind, kind);
    assert_eq!(v.var_mod, mods.to_vec());
}

// ---------------------------------------------------------------- C++

#[test]
fn cpp_reads_back_a_generated_class() {
    let obj = OmlObject {
        oml_type: ObjectType::CLASS,
        name: "Person".to_string(),
        variables: vec![
            var("name", "string", PUBLIC, ArrayKind::Scalar, vec![]),
            var("age", "int32", PRIVATE, ArrayKind::Scalar, vec![CONST]),
            var("tags", "string", PROTECTED, ArrayKind::Dynamic, vec![]),
            var("scores", "uint16", PRIVATE, ArrayKind::Static(4), vec![]),
            var("nick", "string", PRIVATE, ArrayKind::Scalar, vec![OPTIONAL]),
            var("count", "int32", PUBLIC, ArrayKind::Scalar, vec![STATIC]),
        ],
    };
    let text = CppGenerator.generate(std::slice::from_ref(&obj), "person").unwrap();
    let back = CppGenerator.reverse(&text).unwrap();
    assert_eq!(back.len(), 1);
    assert_eq!(back[0].oml_type, ObjectType::CLASS);
    assert_eq!(back[0].name, "Person");
    let vs = &back[0].variables;
    assert_eq!(vs.len(), 6);
    assert_var(&vs[0], "name", "string", PUBLIC, ArrayKind::Scalar, &[]);
    assert_var(&vs[1], "count", "int32", PUBLIC, ArrayKind::Scalar, &[STATIC]);
    assert_var(&vs[2], "tags", "string", PROTECTED, ArrayKind::Dynamic, &[]);
    assert_var(&vs[3], "age", "int32", PRIVATE, ArrayKind::Scalar, &[CONST]);
    assert_var(&vs[4], "scores", "uint16", PRIVATE, ArrayKind::Static(4), &[]);
    assert_var(&vs[5], "nick", "string", PRIVATE, ArrayKind::Scalar, &[OPTIONAL]);
}

#[test]
fn cpp_reads_back_enum_and_struct() {
    let text = "enum class Color {\n\tRED,\n\tGREEN\n};\n\nstruct Point {\n\tdouble x;\n\tdouble y;\n};\n";
    let back = CppGenerator.reverse(text).unwrap();
    assert_eq!(back.len(), 2);
    assert_eq!(back[0].oml_type, ObjectType::ENUM);
    assert_eq!(back[0].name, "Color");
    assert_eq!(back[0].variables.len(), 2);
    assert_var(&back[0].variables[1], "GREEN", "string", VariableVisibility::PUBLIC, ArrayKind::Scalar, &[]);
    assert_eq!(back[1].oml_type, ObjectType::STRUCT);
    assert_var(&back[1].variables[0], "x", "double", VariableVisibility::PUBLIC, ArrayKind::Scalar, &[]);
}

#[test]
fn cpp_unclosed_body_is_kept() {
    let back = CppGenerator.reverse("class Open {\n\tint8_t a;").unwrap();
    assert_eq!(back.len(), 1);
    assert_var(&back[0].variables[0], "a", "int8", VariableVisibility::PRIVATE, ArrayKind::Scalar, &[]);
    assert!(CppGenerator.reverse("").unwrap().is_empty());
}

#[test]
fn cpp_field_lines() {
    let v = parse_cpp_field(&chars("\tstatic const std::optional<std::array<int32_t, 3>> cache;"), VariableVisibility::PUBLIC).unwrap();
    assert_var(&v, "cache", "int32", VariableVisibility::PUBLIC, ArrayKind::Static(3), &[STATIC, CONST, OPTIONAL]);
    let v = parse_cpp_field(&chars("std::array<uint16_t, +7> a;"), VariableVisibility::PRIVATE).unwrap();
    assert_var(&v, "a", "uint16", VariableVisibility::PRIVATE, ArrayKind::Static(7), &[]);
    // a size that does not fit in 32 bits leaves the type as written
    let v = parse_cpp_field(&chars("std::array<int8_t, 4294967296> a;"), VariableVisibility::PRIVATE).unwrap();
    assert_var(&v, "a", "std::array<int8_t, 4294967296>", VariableVisibility::PRIVATE, ArrayKind::Scalar, &[]);
    let v = parse_cpp_field(&chars("unsigned long long big;"), VariableVisibility::PRIVATE).unwrap();
    assert_var(&v, "big", "unsigned long long", VariableVisibility::PRIVATE, ArrayKind::Scalar, &[]);
    assert!(parse_cpp_field(&chars("int8_t;"), VariableVisibility::PRIVATE).is_none());
    assert!(parse_cpp_field(&chars("std::vector<double values;"), VariableVisibility::PRIVATE).is_none());
    assert!(parse_cpp_field(&chars(";"), VariableVisibility::PRIVATE).is_none());
}

#[test]
fn cpp_types_read_back() {
    assert_eq!(reverse_cpp_type(&chars("uint64_t")), "uint64");
    assert_eq!(reverse_cpp_type(&chars("std::string")), "string");
    assert_eq!(reverse_cpp_type(&chars("Address")), "Address");
    let (t, k) = parse_cpp_type_and_name_inner(&chars(" std::vector<bool> "));
    assert_eq!(t, "bool");
    assert_eq!(k, ArrayKind::Dynamic);
    let (t, k) = parse_cpp_type_and_name_inner(&chars("std::array<char, 12>"));
    assert_eq!(t, "char");
    assert_eq!(k, ArrayKind::Static(12));
}

// ---------------------------------------------------------------- Kotlin

#[test]
fn kotlin_reads_back_a_class_with_companion() {
    let obj = OmlObject {
        oml_type: ObjectType::CLASS,
        name: "Config".to_string(),
        variables: vec![
            var("name", "string", PRIVATE, ArrayKind::Scalar, vec![CONST]),
            var("count", "int32", PUBLIC, ArrayKind::Scalar, vec![]),
            var("nick", "string", PROTECTED, ArrayKind::Scalar, vec![OPTIONAL]),
            var("MAX", "int64", PRIVATE, ArrayKind::Scalar, vec![STATIC, CONST]),
        ],
    };
    let text = KotlinGenerator::new(true).generate(std::slice::from_ref(&obj), "config").unwrap();
    let back = KotlinGenerator::new(false).reverse(&text).unwrap();
    assert_eq!(back.len(), 1);
    assert_eq!(back[0].oml_type, ObjectType::CLASS);
    assert_eq!(back[0].name, "Config");
    let vs = &back[0].variables;
    assert_eq!(vs.len(), 4);
    assert_var(&vs[0], "name", "string", PRIVATE, ArrayKind::Scalar, &[CONST]);
    assert_var(&vs[1], "count", "int32", PUBLIC, ArrayKind::Scalar, &[]);
    assert_var(&vs[2], "nick", "string", PROTECTED, ArrayKind::Scalar, &[OPTIONAL]);
    assert_var(&vs[3], "MAX", "int64", PRIVATE, ArrayKind::Scalar, &[STATIC, CONST]);
}

#[test]
fn kotlin_reads_back_an_enum() {
    let back = KotlinGenerator::new(false).reverse("enum class Dir {\n\tNORTH,\n\tSOUTH\n}\n").unwrap();
    assert_eq!(back.len(), 1);
    assert_eq!(back[0].oml_type, ObjectType::ENUM);
    assert_eq!(back[0].variables.len(), 2);
    assert_eq!(back[0].variables[0].name, "NORTH");
}

#[test]
fn kotlin_lines() {
    let (t, k, opt) = parse_kotlin_type_annotation(&chars("MutableList<Long>? = null"));
    assert_eq!((t.as_str(), k, opt), ("int64", ArrayKind::Dynamic, true));
    let (t, k, opt) = parse_kotlin_type_annotation(&chars("Array<Char>"));
    assert_eq!((t.as_str(), k, opt), ("char", ArrayKind::Static(0), false));
    assert_eq!(reverse_kotlin_type(&chars("ULong")), "uint64");
    let v = parse_kotlin_param(&chars("\tprotected val x: Double,")).unwrap();
    assert_var(&v, "x", "double", VariableVisibility::PROTECTED, ArrayKind::Scalar, &[VariableModifier::CONST]);
    assert!(parse_kotlin_param(&chars("fun f(): Int")).is_none());
    assert!(parse_kotlin_param(&chars("var nocolon")).is_none());
    let v = parse_kotlin_companion_var(&chars("var cache: Int? = null")).unwrap();
    assert_var(&v, "cache", "int32", VariableVisibility::PRIVATE, ArrayKind::Scalar,
        &[VariableModifier::STATIC, VariableModifier::OPTIONAL]);
}

// ---------------------------------------------------------------- Python

#[test]
fn python_reads_back_a_frozen_dataclass() {
    let obj = OmlObject {
        oml_type: ObjectType::STRUCT,
        name: "Point".to_string(),
        variables: vec![
            var("x", "double", VariableVisibility::PRIVATE, ArrayKind::Scalar, vec![VariableModifier::CONST]),
            var("y", "double", VariableVisibility::PRIVATE, ArrayKind::Scalar, vec![VariableModifier::CONST]),
        ],
    };
    let text = PythonGenerator::new(true).generate(std::slice::from_ref(&obj), "point").unwrap();
    let back = PythonGenerator::new(false).reverse(&text).unwrap();
    assert_eq!(back.len(), 1);
    assert_eq!(back[0].name, "Point");
    assert_eq!(back[0].oml_type, ObjectType::CLASS);
    assert_var(&back[0].variables[1], "y", "double", VariableVisibility::PRIVATE, ArrayKind::Scalar, &[VariableModifier::CONST]);
}

#[test]
fn python_reads_back_enum_and_class() {
    let text = "class Color(Enum):\n\tRED = 0\n\tGREEN = 1\n\nclass Person:\n\t__slots__ = ('_name', '_age', )\n\n\tdef __init__(self, name: str, tags: list[str], age: Optional[int] = None):\n\t\tself._name = name\n";
    let back = PythonGenerator::new(false).reverse(text).unwrap();
    assert_eq!(back.len(), 2);
    assert_eq!(back[0].oml_type, ObjectType::ENUM);
    assert_eq!(back[0].variables.len(), 2);
    assert_eq!(back[0].variables[1].name, "GREEN");
    assert_eq!(back[1].name, "Person");
    let vs = &back[1].variables;
    assert_eq!(vs.len(), 3);
    assert_var(&vs[0], "name", "string", VariableVisibility::PRIVATE, ArrayKind::Scalar, &[]);
    assert_var(&vs[1], "tags", "string", VariableVisibility::PRIVATE, ArrayKind::Dynamic, &[]);
    assert_var(&vs[2], "age", "int32", VariableVisibility::PRIVATE, ArrayKind::Scalar, &[VariableModifier::OPTIONAL]);
}

#[test]
fn python_lines() {
    assert_eq!(reverse_python_type(&chars("str")), "string");
    let (t, k) = parse_python_type(&chars("Optional[list[float]]"));
    assert_eq!((t.as_str(), k), ("double", ArrayKind::Dynamic));
    let v = parse_python_classvar(&chars("\tcount: ClassVar[int]")).unwrap();
    assert_var(&v, "count", "int32", VariableVisibility::PRIVATE, ArrayKind::Scalar, &[VariableModifier::STATIC]);
    assert!(parse_python_classvar(&chars("count: int")).is_none());
    let v = parse_python_dataclass_field(&chars("email: Optional[str] = None"), true, false).unwrap();
    assert_var(&v, "email", "string", VariableVisibility::PRIVATE, ArrayKind::Scalar, &[VariableModifier::OPTIONAL]);
    let ps = extract_python_init_params(&chars("def __init__(self, a: int, b, c: Optional[str] = None):"));
    assert_eq!(ps.len(), 2);
    assert_eq!(ps[0], ("a".to_string(), "int".to_string(), false));
    assert_eq!(ps[1], ("c".to_string(), "Optional[str]".to_string(), true));
    assert!(extract_python_init_params(&chars("def f(x):")).is_empty());
}

// ---------------------------------------------------------------- Rust

#[test]
fn rust_reads_back_a_struct_with_constants() {
    let obj = OmlObject {
        oml_type: ObjectType::CLASS,
        name: "Config".to_string(),
        variables: vec![
            var("name", "string", PUBLIC, ArrayKind::Scalar, vec![]),
            var("ids", "uint32", PROTECTED, ArrayKind::Static(3), vec![OPTIONAL]),
            var("max_size", "int32", PUBLIC, ArrayKind::Scalar, vec![STATIC, CONST]),
            var("counter", "int64", PRIVATE, ArrayKind::Scalar, vec![STATIC]),
        ],
    };
    let text = RustGenerator.generate(std::slice::from_ref(&obj), "config").unwrap();
    assert!(text.contains("pub const MAX_SIZE: i32 = todo!();"));
    let back = RustGenerator.reverse(&text).unwrap();
    assert_eq!(back.len(), 1);
    assert_eq!(back[0].oml_type, ObjectType::STRUCT);
    let vs = &back[0].variables;
    assert_eq!(vs.len(), 4);
    assert_var(&vs[0], "name", "string", PUBLIC, ArrayKind::Scalar, &[]);
    assert_var(&vs[1], "ids", "uint32", PROTECTED, ArrayKind::Static(3), &[OPTIONAL]);
    assert_var(&vs[2], "max_size", "int32", PUBLIC, ArrayKind::Scalar, &[STATIC, CONST]);
    assert_var(&vs[3], "counter", "int64", PRIVATE, ArrayKind::Scalar, &[STATIC, MUT]);
}

#[test]
fn rust_reads_back_an_enum() {
    let back = RustGenerator.reverse("pub enum Color {\n\tRed,\n\tGreen,\n}\n").unwrap();
    assert_eq!(back.len(), 1);
    assert_eq!(back[0].oml_type, ObjectType::ENUM);
    assert_eq!(back[0].variables.len(), 2);
    assert_eq!(back[0].variables[0].name, "Red");
}

#[test]
fn rust_lines() {
    assert_eq!(reverse_rust_type(&chars("f32")), "float");
    let (t, k, opt) = parse_rust_type_annotation(&chars("Option<Vec<u8>>"));
    assert_eq!((t.as_str(), k, opt), ("uint8", ArrayKind::Dynamic, true));
    let (t, k, opt) = parse_rust_type_annotation(&chars("[bool; x]"));
    assert_eq!((t.as_str(), k, opt), ("[bool; x]", ArrayKind::Scalar, false));
    let v = parse_rust_field(&chars("\tpub(crate) speed: f64,")).unwrap();
    assert_var(&v, "speed", "double", VariableVisibility::PROTECTED, ArrayKind::Scalar, &[]);
    assert!(parse_rust_field(&chars("#[derive(Debug)]")).is_none());
    let v = parse_rust_associated_const(&chars("static mut TOTAL_COUNT: Option<u64> = todo!();")).unwrap();
    assert_var(&v, "total_count", "uint64", VariableVisibility::PRIVATE, ArrayKind::Scalar,
        &[VariableModifier::STATIC, VariableModifier::MUT, VariableModifier::OPTIONAL]);
    assert!(parse_rust_associated_const(&chars("// pub const X: i32 = 1;")).is_none());
    assert!(parse_rust_associated_const(&chars("pub fn x() -> i32 { 1 }")).is_none());
}
