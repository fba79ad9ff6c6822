use oml::oml_object::{ArrayKind, ObjectType, OmlObject, Variable, VariableModifier, VariableVisibility};
use oml::generate::Generate;
use oml::generators::python::{PythonGenerator, convert_type};

fn to_python(oml_object: &OmlObject, use_data_class: bool) -> String {
    PythonGenerator::new(use_data_class)
        .generate(std::slice::from_ref(oml_object), "test")
        .unwrap()
}

fn array_var(name: &str, ty: &str, kind: ArrayKind) -> Variable {
    Variable {
        var_mod: vec![],
        visibility: VariableVisibility::PRIVATE,
        var_type: ty.to_string(),
        array_kind: kind,
        name: name.to_string(),
    }
}

#[test]
fn test_static_array_dataclass() {
    let obj = OmlObject {
        oml_type: ObjectType::CLASS,
        name: "Arr".to_string(),
        variables: vec![array_var("scores", "uint16", ArrayKind::Static(4))],
    };
    let out = to_python(&obj, true);
    assert!(out.contains("scores: list[int]"), "Got: {}", out);
}

#[test]
fn test_dynamic_list_dataclass() {
    let obj = OmlObject {
        oml_type: ObjectType::CLASS,
        name: "Lst".to_string(),
        variables: vec![array_var("tags", "string", ArrayKind::Dynamic)],
    };
    let out = to_python(&obj, true);
    assert!(out.contains("tags: list[str]"), "Got: {}", out);
}

#[test]
fn test_static_array_regular_class() {
    let obj = OmlObject {
        oml_type: ObjectType::CLASS,
        name: "Arr".to_string(),
        variables: vec![array_var("ids", "int32", ArrayKind::Static(10))],
    };
    let out = to_python(&obj, false);
    assert!(out.contains("ids: list[int]"), "Got: {}", out);
}

#[test]
fn test_optional_dynamic_list() {
    let obj = OmlObject {
        oml_type: ObjectType::CLASS,
        name: "Opt".to_string(),
        variables: vec![Variable {
            var_mod: vec![VariableModifier::OPTIONAL],
            visibility: VariableVisibility::PRIVATE,
            var_type: "string".to_string(),
            array_kind: ArrayKind::Dynamic,
            name: "tags".to_string(),
        }],
    };
    let out = to_python(&obj, true);
    assert!(out.contains("tags: Optional[list[str]] = None"), "Got: {}", out);
}
