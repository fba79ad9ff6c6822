use oml::oml_object::{ArrayKind, ObjectType, OmlObject, Variable, VariableModifier, VariableVisibility};
use oml::generate::{Generate, GenerateError};
use oml::generators::cpp::{CppGenerator, convert_modifiers_and_type, convert_type, generate_class_or_struct, generate_enum};

fn to_cpp(oml_object: &OmlObject) -> String {
    CppGenerator.generate(std::slice::from_ref(oml_object), "test").unwrap()
}

fn array_var(name: &str, ty: &str, kind: ArrayKind) -> Variable {
    Variable {
        var_mod: vec![],
        visibility: VariableVisibility::PUBLIC,
        var_type: ty.to_string(),
        array_kind: kind,
        name: name.to_string(),
    }
}

#[test]
fn test_static_array_generates_std_array() {
    let obj = OmlObject {
        oml_type: ObjectType::CLASS,
        name: "Arr".to_string(),
        variables: vec![array_var("scores", "uint16", ArrayKind::Static(4))],
    };
    let out = to_cpp(&obj);
    assert!(out.contains("std::array<uint16_t, 4>"), "Got: {}", out);
    assert!(out.contains("#include <array>"), "Got: {}", out);
}

#[test]
fn test_dynamic_list_generates_std_vector() {
    let obj = OmlObject {
        oml_type: ObjectType::CLASS,
        name: "Lst".to_string(),
        variables: vec![array_var("tags", "string", ArrayKind::Dynamic)],
    };
    let out = to_cpp(&obj);
    assert!(out.contains("std::vector<std::string>"), "Got: {}", out);
    assert!(out.contains("#include <vector>"), "Got: {}", out);
}

#[test]
fn test_no_array_no_extra_includes() {
    let obj = OmlObject {
        oml_type: ObjectType::CLASS,
        name: "Plain".to_string(),
        variables: vec![array_var("x", "int32", ArrayKind::Scalar)],
    };
    let out = to_cpp(&obj);
    assert!(!out.contains("#include <array>"), "Got: {}", out);
    assert!(!out.contains("#include <vector>"), "Got: {}", out);
}
