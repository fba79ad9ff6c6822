use oml::oml_object::{ArrayKind, ObjectType, OmlObject, Variable, VariableModifier, VariableVisibility};
use oml::generate::Generate;
use oml::generators::python::{PythonGenerator, convert_type};

fn to_python(oml_object: &OmlObject, use_data_class: bool) -> String {
    PythonGenerator::new(use_data_class)
        .generate(std::slice::from_ref(oml_object), "test")
        .unwrap()
}

// ── helpers ──────────────────────────────────────────────────────────────

fn var(name: &str, ty: &str, mods: Vec<VariableModifier>) -> Variable {
    Variable {
        var_mod: mods,
        visibility: VariableVisibility::PRIVATE,
        var_type: ty.to_string(),
        array_kind: ArrayKind::Scalar,
        name: name.to_string(),
    }
}

// ── enum ─────────────────────────────────────────────────────────────────

#[test]
fn test_enum_basic() {
    let obj = OmlObject {
        oml_type: ObjectType::ENUM,
        name: "Color".to_string(),
        variables: vec![
            var("Red", "", vec![]),
            var("Green", "", vec![]),
            var("Blue", "", vec![]),
        ],
    };
    let out = to_python(&obj, false);
    assert!(out.contains("from enum import Enum"));
    assert!(out.contains("class Color(Enum):"));
    assert!(out.contains("\tRED = 0"));
    assert!(out.contains("\tGREEN = 1"));
    assert!(out.contains("\tBLUE = 2"));
}

#[test]
fn test_enum_empty() {
    let obj = OmlObject {
        oml_type: ObjectType::ENUM,
        name: "Empty".to_string(),
        variables: vec![],
    };
    let out = to_python(&obj, false);
    assert!(out.contains("class Empty(Enum):"));
    assert!(out.contains("\tpass"));
}

// ── regular class ─────────────────────────────────────────────────────────

#[test]
fn oml_python_test_regular_class_basic() {
    let obj = OmlObject {
        oml_type: ObjectType::CLASS,
        name: "Person".to_string(),
        variables: vec![
            var("name", "string", vec![]),
            var("age", "int32", vec![]),
        ],
    };
    let out = to_python(&obj, false);
    assert!(out.contains("class Person:"));
    assert!(out.contains("def __init__(self, name: str, age: int):"));
    assert!(out.contains("self._name = name"));
    assert!(out.contains("self._age = age"));
    assert!(out.contains("def name(self) -> str:"));
    assert!(out.contains("def age(self) -> int:"));
    // both mutable, so setters present
    assert!(out.contains("@name.setter"));
    assert!(out.contains("@age.setter"));
}

#[test]
fn test_regular_class_const_no_setter() {
    let obj = OmlObject {
        oml_type: ObjectType::CLASS,
        name: "Config".to_string(),
        variables: vec![
            var("max_size", "int64", vec![VariableModifier::CONST]),
        ],
    };
    let out = to_python(&obj, false);
    assert!(out.contains("def max_size(self) -> int:"));
    assert!(!out.contains("@max_size.setter"));
}

#[test]
fn test_regular_class_optional_field() {
    let obj = OmlObject {
        oml_type: ObjectType::CLASS,
        name: "User".to_string(),
        variables: vec![
            var("name", "string", vec![]),
            var("nickname", "string", vec![VariableModifier::OPTIONAL]),
        ],
    };
    let out = to_python(&obj, false);
    assert!(out.contains("from typing import Optional"));
    // required before optional in __init__
    assert!(out.contains("def __init__(self, name: str, nickname: Optional[str] = None):"));
    assert!(out.contains("def nickname(self) -> Optional[str]:"));
}

#[test]
fn test_regular_class_static_field() {
    let obj = OmlObject {
        oml_type: ObjectType::CLASS,
        name: "Counter".to_string(),
        variables: vec![
            var("count", "int32", vec![VariableModifier::STATIC]),
            var("name", "string", vec![]),
        ],
    };
    let out = to_python(&obj, false);
    // static goes at class level
    assert!(out.contains("\tcount: int"));
    // instance var gets __init__ and property
    assert!(out.contains("def __init__(self, name: str):"));
}

#[test]
fn test_regular_class_empty() {
    let obj = OmlObject {
        oml_type: ObjectType::CLASS,
        name: "Empty".to_string(),
        variables: vec![],
    };
    let out = to_python(&obj, false);
    assert!(out.contains("class Empty:"));
    assert!(out.contains("\tpass"));
    assert!(!out.contains("__init__"));
}

// ── dataclass ─────────────────────────────────────────────────────────────

#[test]
fn test_dataclass_basic() {
    let obj = OmlObject {
        oml_type: ObjectType::CLASS,
        name: "Person".to_string(),
        variables: vec![
            var("name", "string", vec![]),
            var("age", "int32", vec![]),
        ],
    };
    let out = to_python(&obj, true);
    assert!(out.contains("from dataclasses import dataclass, field"));
    assert!(out.contains("@dataclass"));
    assert!(!out.contains("frozen=True"));
    assert!(out.contains("class Person:"));
    assert!(out.contains("\tname: str"));
    assert!(out.contains("\tage: int"));
}

#[test]
fn test_dataclass_all_const_is_frozen() {
    let obj = OmlObject {
        oml_type: ObjectType::CLASS,
        name: "Point".to_string(),
        variables: vec![
            var("x", "float", vec![VariableModifier::CONST]),
            var("y", "float", vec![VariableModifier::CONST]),
        ],
    };
    let out = to_python(&obj, true);
    assert!(out.contains("@dataclass(frozen=True)"));
}

#[test]
fn test_dataclass_optional_field() {
    let obj = OmlObject {
        oml_type: ObjectType::CLASS,
        name: "User".to_string(),
        variables: vec![
            var("name", "string", vec![]),
            var("email", "string", vec![VariableModifier::OPTIONAL]),
        ],
    };
    let out = to_python(&obj, true);
    assert!(out.contains("from typing import Optional"));
    assert!(out.contains("\tname: str"));
    assert!(out.contains("\temail: Optional[str] = None"));
    // required field must appear before optional
    let name_pos = out.find("\tname: str").unwrap();
    let email_pos = out.find("\temail: Optional").unwrap();
    assert!(name_pos < email_pos);
}

#[test]
fn test_dataclass_static_classvar() {
    let obj = OmlObject {
        oml_type: ObjectType::CLASS,
        name: "Registry".to_string(),
        variables: vec![
            var("count", "int32", vec![VariableModifier::STATIC]),
            var("name", "string", vec![]),
        ],
    };
    let out = to_python(&obj, true);
    assert!(out.contains("from typing import ClassVar"));
    assert!(out.contains("\tcount: ClassVar[int]"));
    assert!(out.contains("\tname: str"));
}

#[test]
fn test_dataclass_empty() {
    let obj = OmlObject {
        oml_type: ObjectType::CLASS,
        name: "Empty".to_string(),
        variables: vec![],
    };
    let out = to_python(&obj, true);
    assert!(out.contains("@dataclass"));
    assert!(out.contains("class Empty:"));
    assert!(out.contains("\tpass"));
}

#[test]
fn test_struct_always_dataclass() {
    let obj = OmlObject {
        oml_type: ObjectType::STRUCT,
        name: "Point".to_string(),
        variables: vec![
            var("x", "double", vec![]),
            var("y", "double", vec![]),
        ],
    };
    // even with use_data_class=false, STRUCT → dataclass
    let out = to_python(&obj, false);
    assert!(out.contains("@dataclass"));
    assert!(out.contains("class Point:"));
}

#[test]
fn test_type_conversion() {
    assert_eq!(convert_type("int8"), "int");
    assert_eq!(convert_type("int32"), "int");
    assert_eq!(convert_type("uint64"), "int");
    assert_eq!(convert_type("float"), "float");
    assert_eq!(convert_type("double"), "float");
    assert_eq!(convert_type("bool"), "bool");
    assert_eq!(convert_type("string"), "str");
    assert_eq!(convert_type("char"), "str");
    assert_eq!(convert_type("MyType"), "MyType");
}

#[test]
fn test_undecided_returns_error() {
    let obj = OmlObject {
        oml_type: ObjectType::UNDECIDED,
        name: "Bad".to_string(),
        variables: vec![],
    };
    let result = PythonGenerator::new(false).generate(std::slice::from_ref(&obj), "test");
    assert!(result.is_err());
}
