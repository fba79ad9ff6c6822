use oml::generate::{BackwardsGenerate, Generate};
use oml::generators::cpp::CppGenerator;
use oml::generators::kotlin::KotlinGenerator;
use oml::generators::python::PythonGenerator;
use oml::generators::rust::RustGenerator;
use oml::oml_object::VariableModifier::{CONST, OPTIONAL, STATIC};
use oml::oml_object::VariableVisibility::{PRIVATE, PROTECTED, PUBLIC};
use oml::oml_object::{ArrayKind, ObjectType, OmlObject, Variable, VariableModifier, VariableVisibility};

fn var(name: &str, ty: &str, vis: VariableVisibility, kind: ArrayKind, mods: Vec<VariableModifier>) -> Variable {
    Variable { var_mod: mods, visibility: vis, var_type: ty.to_string(), array_kind: kind, name: name.to_string() }
}

fn object(kind: ObjectType, name: &str, variables: Vec<Variable>) -> OmlObject {
    OmlObject { oml_type: kind, name: name.to_string(), variables }
}

fn assert_var(v: &Variable, name: &str, ty: &str, vis: VariableVisibility, kind: ArrayKind, mods: &[VariableModifier]) {
    assert_eq!(v.name, name);
    assert_eq!(v.var_type, ty);
    assert_eq!(v.visibility, vis);
    assert_eq!(v.array_kind, kind);
    assert_eq!(v.var_mod, mods.to_vec());
}

#[test]
fn cpp_header_of_two_objects_reads_back() {
    let objs = vec![
        object(ObjectType::CLASS, "Shape", vec![
            var("name", "string", PUBLIC, ArrayKind::Scalar, vec![]),
            var("sides", "int32", PROTECTED, ArrayKind::Scalar, vec![]),
            var("area", "double", PRIVATE, ArrayKind::Scalar, vec![CONST]),
            var("id", "uint8", PUBLIC, ArrayKind::Scalar, vec![STATIC]),
        ]),
        object(ObjectType::STRUCT, "Pair", vec![
            var("first", "int64", PUBLIC, ArrayKind::Dynamic, vec![]),
            var("second", "int64", PRIVATE, ArrayKind::Static(2), vec![OPTIONAL]),
        ]),
    ];
    let text = CppGenerator.generate(&objs, "shapes").unwrap();
    let back = CppGenerator.reverse(&text).unwrap();
    assert_eq!(back.len(), 2);
    assert_eq!(back[0].oml_type, ObjectType::CLASS);
    assert_eq!(back[0].name, "Shape");
    let vs = &back[0].variables;
    assert_eq!(vs.len(), 4);
    assert_var(&vs[0], "name", "string", PUBLIC, ArrayKind::Scalar, &[]);
    assert_var(&vs[1], "id", "uint8", PUBLIC, ArrayKind::Scalar, &[STATIC]);
    assert_var(&vs[2], "sides", "int32", PROTECTED, ArrayKind::Scalar, &[]);
    assert_var(&vs[3], "area", "double", PRIVATE, ArrayKind::Scalar, &[CONST]);
    assert_eq!(back[1].oml_type, ObjectType::STRUCT);
    assert_eq!(back[1].name, "Pair");
    let vs = &back[1].variables;
    assert_eq!(vs.len(), 2);
    assert_var(&vs[0], "first", "int64", PUBLIC, ArrayKind::Dynamic, &[]);
    assert_var(&vs[1], "second", "int64", PRIVATE, ArrayKind::Static(2), &[OPTIONAL]);
}

#[test]
fn cpp_header_without_objects_reads_back_nothing() {
    let text = CppGenerator.generate(&[], "empty").unwrap();
    assert!(CppGenerator.reverse(&text).unwrap().is_empty());
}

#[test]
fn kotlin_file_of_two_classes_reads_back() {
    let objs = vec![
        object(ObjectType::CLASS, "Counter", vec![
            var("value", "int32", PUBLIC, ArrayKind::Scalar, vec![]),
            var("limit", "int64", PUBLIC, ArrayKind::Scalar, vec![STATIC, CONST]),
        ]),
        object(ObjectType::STRUCT, "Grid", vec![
            var("label", "string", PUBLIC, ArrayKind::Scalar, vec![OPTIONAL]),
            var("cells", "string", PROTECTED, ArrayKind::Static(3), vec![]),
        ]),
    ];
    let text = KotlinGenerator::new(false).generate(&objs, "grid").unwrap();
    let back = KotlinGenerator::new(false).reverse(&text).unwrap();
    assert_eq!(back.len(), 2);
    assert_eq!(back[0].oml_type, ObjectType::CLASS);
    assert_eq!(back[0].name, "Counter");
    let vs = &back[0].variables;
    assert_eq!(vs.len(), 2);
    assert_var(&vs[0], "value", "int32", PUBLIC, ArrayKind::Scalar, &[]);
    assert_var(&vs[1], "limit", "int64", PRIVATE, ArrayKind::Scalar, &[STATIC, CONST]);
    assert_eq!(back[1].oml_type, ObjectType::CLASS);
    assert_eq!(back[1].name, "Grid");
    let vs = &back[1].variables;
    assert_eq!(vs.len(), 2);
    assert_var(&vs[0], "cells", "string", PROTECTED, ArrayKind::Static(0), &[]);
    assert_var(&vs[1], "label", "string", PUBLIC, ArrayKind::Scalar, &[OPTIONAL]);
}

#[test]
fn kotlin_class_without_companion_ends_at_its_constructor() {
    let objs = vec![
        object(ObjectType::CLASS, "First", vec![var("a", "int32", PUBLIC, ArrayKind::Scalar, vec![])]),
        object(ObjectType::CLASS, "Second", vec![var("b", "int32", PUBLIC, ArrayKind::Scalar, vec![])]),
    ];
    let text = KotlinGenerator::new(false).generate(&objs, "two").unwrap();
    let back = KotlinGenerator::new(false).reverse(&text).unwrap();
    assert_eq!(back.len(), 2);
    assert_eq!(back[0].name, "First");
    assert_eq!(back[0].variables.len(), 1);
    assert_var(&back[0].variables[0], "a", "int32", PUBLIC, ArrayKind::Scalar, &[]);
    assert_eq!(back[1].name, "Second");
    assert_eq!(back[1].variables.len(), 1);
    assert_var(&back[1].variables[0], "b", "int32", PUBLIC, ArrayKind::Scalar, &[]);
}

#[test]
fn kotlin_empty_class_reads_back() {
    let back = KotlinGenerator::new(true).reverse("data class Empty\n").unwrap();
    assert_eq!(back.len(), 1);
    assert_eq!(back[0].oml_type, ObjectType::CLASS);
    assert_eq!(back[0].name, "Empty");
    assert!(back[0].variables.is_empty());
    let objs = vec![
        object(ObjectType::CLASS, "Empty", vec![]),
        object(ObjectType::STRUCT, "Unit", vec![]),
    ];
    let text = KotlinGenerator::new(false).generate(&objs, "empty").unwrap();
    let back = KotlinGenerator::new(false).reverse(&text).unwrap();
    assert_eq!(back.len(), 2);
    assert_eq!(back[0].name, "Empty");
    assert!(back[0].variables.is_empty());
    assert_eq!(back[1].name, "Unit");
    assert!(back[1].variables.is_empty());
}

#[test]
fn kotlin_constructor_then_enum_reads_back() {
    let text = "data class A(\n\tvar x: Int\n)\n\nenum class Color {\n\tRED\n}\n";
    let back = KotlinGenerator::new(true).reverse(text).unwrap();
    assert_eq!(back.len(), 2);
    assert_eq!(back[0].oml_type, ObjectType::CLASS);
    assert_eq!(back[0].name, "A");
    assert_eq!(back[0].variables.len(), 1);
    assert_var(&back[0].variables[0], "x", "int32", PUBLIC, ArrayKind::Scalar, &[]);
    assert_variants(&back[1], "Color", &["RED"]);
}

#[test]
fn python_file_of_a_class_and_a_dataclass_reads_back() {
    let objs = vec![
        object(ObjectType::CLASS, "Person", vec![
            var("age", "int32", PUBLIC, ArrayKind::Scalar, vec![OPTIONAL]),
            var("name", "string", PRIVATE, ArrayKind::Scalar, vec![]),
            var("count", "int32", PUBLIC, ArrayKind::Scalar, vec![STATIC]),
        ]),
        object(ObjectType::STRUCT, "Point", vec![
            var("x", "double", PRIVATE, ArrayKind::Scalar, vec![CONST]),
            var("ys", "double", PRIVATE, ArrayKind::Static(2), vec![CONST]),
            var("origin", "string", PUBLIC, ArrayKind::Scalar, vec![STATIC]),
        ]),
    ];
    let text = PythonGenerator::new(false).generate(&objs, "shapes").unwrap();
    let back = PythonGenerator::new(false).reverse(&text).unwrap();
    assert_eq!(back.len(), 2);
    assert_eq!(back[0].oml_type, ObjectType::CLASS);
    assert_eq!(back[0].name, "Person");
    let vs = &back[0].variables;
    assert_eq!(vs.len(), 2);
    assert_var(&vs[0], "name", "string", PRIVATE, ArrayKind::Scalar, &[]);
    assert_var(&vs[1], "age", "int32", PRIVATE, ArrayKind::Scalar, &[OPTIONAL]);
    assert_eq!(back[1].oml_type, ObjectType::CLASS);
    assert_eq!(back[1].name, "Point");
    let vs = &back[1].variables;
    assert_eq!(vs.len(), 3);
    assert_var(&vs[0], "origin", "string", PRIVATE, ArrayKind::Scalar, &[STATIC]);
    assert_var(&vs[1], "x", "double", PRIVATE, ArrayKind::Scalar, &[CONST]);
    assert_var(&vs[2], "ys", "double", PRIVATE, ArrayKind::Dynamic, &[CONST]);
}

#[test]
fn python_dataclasses_read_back() {
    let objs = vec![
        object(ObjectType::CLASS, "Empty", vec![]),
        object(ObjectType::CLASS, "Item", vec![
            var("tag", "string", PUBLIC, ArrayKind::Dynamic, vec![OPTIONAL]),
            var("size", "int32", PUBLIC, ArrayKind::Scalar, vec![]),
        ]),
    ];
    let text = PythonGenerator::new(true).generate(&objs, "items").unwrap();
    let back = PythonGenerator::new(true).reverse(&text).unwrap();
    assert_eq!(back.len(), 2);
    assert_eq!(back[0].name, "Empty");
    assert!(back[0].variables.is_empty());
    assert_eq!(back[1].name, "Item");
    let vs = &back[1].variables;
    assert_eq!(vs.len(), 2);
    assert_var(&vs[0], "size", "int32", PRIVATE, ArrayKind::Scalar, &[]);
    assert_var(&vs[1], "tag", "string", PRIVATE, ArrayKind::Dynamic, &[OPTIONAL]);
}

#[test]
fn rust_file_of_two_structs_reads_back() {
    let objs = vec![
        object(ObjectType::CLASS, "Node", vec![
            var("value", "int32", PUBLIC, ArrayKind::Scalar, vec![]),
            var("children", "uint64", PRIVATE, ArrayKind::Dynamic, vec![OPTIONAL]),
        ]),
        object(ObjectType::STRUCT, "Edge", vec![
            var("weights", "double", PROTECTED, ArrayKind::Static(2), vec![CONST]),
        ]),
    ];
    let text = RustGenerator.generate(&objs, "graph").unwrap();
    let back = RustGenerator.reverse(&text).unwrap();
    assert_eq!(back.len(), 2);
    assert_eq!(back[0].oml_type, ObjectType::STRUCT);
    assert_eq!(back[0].name, "Node");
    let vs = &back[0].variables;
    assert_eq!(vs.len(), 2);
    assert_var(&vs[0], "value", "int32", PUBLIC, ArrayKind::Scalar, &[]);
    assert_var(&vs[1], "children", "uint64", PRIVATE, ArrayKind::Dynamic, &[OPTIONAL]);
    assert_eq!(back[1].name, "Edge");
    let vs = &back[1].variables;
    assert_eq!(vs.len(), 1);
    assert_var(&vs[0], "weights", "double", PROTECTED, ArrayKind::Static(2), &[]);
}

fn assert_variants(o: &OmlObject, name: &str, variants: &[&str]) {
    assert_eq!(o.oml_type, ObjectType::ENUM);
    assert_eq!(o.name, name);
    assert_eq!(o.variables.len(), variants.len());
    for (v, expected) in o.variables.iter().zip(variants.iter()) {
        assert_var(v, expected, "string", PUBLIC, ArrayKind::Scalar, &[]);
    }
}

fn colour_and_point() -> Vec<OmlObject> {
    vec![
        object(ObjectType::ENUM, "Colour", vec![
            var("red", "string", PUBLIC, ArrayKind::Scalar, vec![]),
            var("darkGreen", "string", PUBLIC, ArrayKind::Scalar, vec![]),
        ]),
        object(ObjectType::STRUCT, "Point", vec![
            var("x", "int32", PUBLIC, ArrayKind::Scalar, vec![]),
        ]),
    ]
}

#[test]
fn cpp_enum_reads_back_with_upper_case_variants() {
    let text = CppGenerator.generate(&colour_and_point(), "colours").unwrap();
    let back = CppGenerator.reverse(&text).unwrap();
    assert_eq!(back.len(), 2);
    assert_variants(&back[0], "Colour", &["RED", "DARKGREEN"]);
    assert_eq!(back[1].oml_type, ObjectType::STRUCT);
    assert_eq!(back[1].name, "Point");
    assert_var(&back[1].variables[0], "x", "int32", PUBLIC, ArrayKind::Scalar, &[]);
}

#[test]
fn kotlin_enum_reads_back_with_upper_case_variants() {
    let text = KotlinGenerator::new(false).generate(&colour_and_point(), "colours").unwrap();
    let back = KotlinGenerator::new(false).reverse(&text).unwrap();
    assert_eq!(back.len(), 2);
    assert_variants(&back[0], "Colour", &["RED", "DARKGREEN"]);
    assert_eq!(back[1].oml_type, ObjectType::CLASS);
    assert_eq!(back[1].name, "Point");
}

#[test]
fn python_enum_reads_back_with_upper_case_variants() {
    let text = PythonGenerator::new(false).generate(&colour_and_point(), "colours").unwrap();
    let back = PythonGenerator::new(false).reverse(&text).unwrap();
    assert_eq!(back.len(), 2);
    assert_variants(&back[0], "Colour", &["RED", "DARKGREEN"]);
    assert_eq!(back[1].oml_type, ObjectType::CLASS);
    assert_eq!(back[1].name, "Point");
}

#[test]
fn rust_enum_reads_back_with_capitalised_variants() {
    let text = RustGenerator.generate(&colour_and_point(), "colours").unwrap();
    let back = RustGenerator.reverse(&text).unwrap();
    assert_eq!(back.len(), 2);
    assert_variants(&back[0], "Colour", &["Red", "DarkGreen"]);
    assert_eq!(back[1].oml_type, ObjectType::STRUCT);
    assert_eq!(back[1].name, "Point");
    assert_var(&back[1].variables[0], "x", "int32", PUBLIC, ArrayKind::Scalar, &[]);
}

#[test]
fn python_reader_gives_classes_and_enums_whatever_the_flag() {
    let text = "@dataclass\nclass Point:\n\tx: int\n\nclass Colour(Enum):\n\tRED = 0\n\nclass Person:\n\tdef __init__(self, name: str):\n\t\tself.name = name\n";
    let with = PythonGenerator::new(true).reverse(text).unwrap();
    let without = PythonGenerator::new(false).reverse(text).unwrap();
    assert_eq!(with.len(), without.len());
    for (a, b) in with.iter().zip(without.iter()) {
        assert_eq!(a.oml_type, b.oml_type);
        assert_eq!(a.name, b.name);
        assert_eq!(a.variables.len(), b.variables.len());
    }
    assert_eq!(with.len(), 3);
    assert_eq!(with[0].oml_type, ObjectType::CLASS);
    assert_eq!(with[1].oml_type, ObjectType::ENUM);
    assert_eq!(with[2].oml_type, ObjectType::CLASS);
    for o in &with {
        assert!(o.oml_type == ObjectType::CLASS || o.oml_type == ObjectType::ENUM);
    }
}
