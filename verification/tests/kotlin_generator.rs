use oml::oml_object::{ArrayKind, ObjectType, OmlObject, Variable, VariableModifier, VariableVisibility};
use oml::generate::{Generate, GenerateError};
use oml::generators::kotlin::{KotlinGenerator, convert_type};

fn oml_to_kotlin(oml_object: &OmlObject, file_name: &str) -> Result<String, GenerateError> {
    KotlinGenerator::new(true).generate(std::slice::from_ref(oml_object), file_name)
}

fn oml_to_kotlin_no_data(oml_object: &OmlObject, file_name: &str) -> Result<String, GenerateError> {
    KotlinGenerator::new(false).generate(std::slice::from_ref(oml_object), file_name)
}

// ========== ENUM GENERATION TESTS ==========

#[test]
fn oml_kotlin_test_generate_enum_basic() {
    let oml_object = OmlObject {
        oml_type: ObjectType::ENUM,
        name: "Color".to_string(),
        variables: vec![
            Variable {
                var_mod: vec![],
                visibility: VariableVisibility::PUBLIC,
                var_type: "".to_string(),
                array_kind: ArrayKind::Scalar,
                name: "Red".to_string(),
            },
            Variable {
                var_mod: vec![],
                visibility: VariableVisibility::PUBLIC,
                var_type: "".to_string(),
                array_kind: ArrayKind::Scalar,
                name: "Green".to_string(),
            },
            Variable {
                var_mod: vec![],
                visibility: VariableVisibility::PUBLIC,
                var_type: "".to_string(),
                array_kind: ArrayKind::Scalar,
                name: "Blue".to_string(),
            },
        ],
    };

    let output = oml_to_kotlin(&oml_object, "Color").unwrap();
    assert!(output.contains("enum class Color {"));
    assert!(output.contains("\tRED,"));
    assert!(output.contains("\tGREEN,"));
    assert!(output.contains("\tBLUE"));
    // Last variant should NOT have trailing comma
    assert!(!output.contains("BLUE,"));
}

#[test]
fn oml_kotlin_test_generate_enum_single_variant() {
    let oml_object = OmlObject {
        oml_type: ObjectType::ENUM,
        name: "Single".to_string(),
        variables: vec![
            Variable {
                var_mod: vec![],
                visibility: VariableVisibility::PUBLIC,
                var_type: "".to_string(),
                array_kind: ArrayKind::Scalar,
                name: "Only".to_string(),
            },
        ],
    };

    let output = oml_to_kotlin(&oml_object, "Single").unwrap();
    assert!(output.contains("enum class Single {"));
    assert!(output.contains("\tONLY"));
    assert!(!output.contains("ONLY,"));
}

#[test]
fn oml_kotlin_test_generate_enum_empty() {
    let oml_object = OmlObject {
        oml_type: ObjectType::ENUM,
        name: "Empty".to_string(),
        variables: vec![],
    };

    let output = oml_to_kotlin(&oml_object, "Empty").unwrap();
    assert!(output.contains("enum class Empty {"));
    assert!(output.contains("}"));
}

// ========== DATA CLASS GENERATION TESTS ==========

#[test]
fn test_data_class_basic() {
    let oml_object = OmlObject {
        oml_type: ObjectType::CLASS,
        name: "Person".to_string(),
        variables: vec![
            Variable {
                var_mod: vec![],
                visibility: VariableVisibility::PRIVATE,
                var_type: "string".to_string(),
                array_kind: ArrayKind::Scalar,
                name: "name".to_string(),
            },
            Variable {
                var_mod: vec![],
                visibility: VariableVisibility::PRIVATE,
                var_type: "int32".to_string(),
                array_kind: ArrayKind::Scalar,
                name: "age".to_string(),
            },
        ],
    };

    let output = oml_to_kotlin(&oml_object, "Person").unwrap();
    assert!(output.contains("data class Person("));
    assert!(output.contains("private var name: String"));
    assert!(output.contains("private var age: Int"));
}

#[test]
fn oml_kotlin_test_regular_class_basic() {
    let oml_object = OmlObject {
        oml_type: ObjectType::CLASS,
        name: "Person".to_string(),
        variables: vec![
            Variable {
                var_mod: vec![],
                visibility: VariableVisibility::PRIVATE,
                var_type: "string".to_string(),
                array_kind: ArrayKind::Scalar,
                name: "name".to_string(),
            },
            Variable {
                var_mod: vec![],
                visibility: VariableVisibility::PRIVATE,
                var_type: "int32".to_string(),
                array_kind: ArrayKind::Scalar,
                name: "age".to_string(),
            },
        ],
    };

    let output = oml_to_kotlin_no_data(&oml_object, "Person").unwrap();
    assert!(output.contains("class Person("));
    assert!(!output.contains("data class"));
    assert!(output.contains("private var name: String"));
    assert!(output.contains("private var age: Int"));
}

#[test]
fn test_struct_always_data_class() {
    let oml_object = OmlObject {
        oml_type: ObjectType::STRUCT,
        name: "Point".to_string(),
        variables: vec![
            Variable {
                var_mod: vec![],
                visibility: VariableVisibility::PUBLIC,
                var_type: "double".to_string(),
                array_kind: ArrayKind::Scalar,
                name: "x".to_string(),
            },
            Variable {
                var_mod: vec![],
                visibility: VariableVisibility::PUBLIC,
                var_type: "double".to_string(),
                array_kind: ArrayKind::Scalar,
                name: "y".to_string(),
            },
        ],
    };

    // Even with no-data-class, structs should be data class
    let output = oml_to_kotlin_no_data(&oml_object, "Point").unwrap();
    assert!(output.contains("data class Point("));
}

#[test]
fn test_data_class_empty() {
    let oml_object = OmlObject {
        oml_type: ObjectType::CLASS,
        name: "Empty".to_string(),
        variables: vec![],
    };

    let output = oml_to_kotlin(&oml_object, "Empty").unwrap();
    assert!(output.contains("data class Empty"));
    assert!(!output.contains("("));
}

#[test]
fn test_class_with_optional_fields() {
    let oml_object = OmlObject {
        oml_type: ObjectType::CLASS,
        name: "User".to_string(),
        variables: vec![
            Variable {
                var_mod: vec![],
                visibility: VariableVisibility::PRIVATE,
                var_type: "string".to_string(),
                array_kind: ArrayKind::Scalar,
                name: "name".to_string(),
            },
            Variable {
                var_mod: vec![VariableModifier::OPTIONAL],
                visibility: VariableVisibility::PRIVATE,
                var_type: "string".to_string(),
                array_kind: ArrayKind::Scalar,
                name: "email".to_string(),
            },
            Variable {
                var_mod: vec![VariableModifier::OPTIONAL],
                visibility: VariableVisibility::PRIVATE,
                var_type: "int32".to_string(),
                array_kind: ArrayKind::Scalar,
                name: "age".to_string(),
            },
        ],
    };

    let output = oml_to_kotlin(&oml_object, "User").unwrap();
    assert!(output.contains("private var name: String"));
    assert!(output.contains("private var email: String? = null"));
    assert!(output.contains("private var age: Int? = null"));
}

#[test]
fn test_class_optional_params_come_after_required() {
    let oml_object = OmlObject {
        oml_type: ObjectType::CLASS,
        name: "Mixed".to_string(),
        variables: vec![
            Variable {
                var_mod: vec![VariableModifier::OPTIONAL],
                visibility: VariableVisibility::PRIVATE,
                var_type: "string".to_string(),
                array_kind: ArrayKind::Scalar,
                name: "optional_first".to_string(),
            },
            Variable {
                var_mod: vec![],
                visibility: VariableVisibility::PRIVATE,
                var_type: "int32".to_string(),
                array_kind: ArrayKind::Scalar,
                name: "required".to_string(),
            },
        ],
    };

    let output = oml_to_kotlin(&oml_object, "Mixed").unwrap();
    // Required should appear before optional in the constructor
    let required_pos = output.find("required: Int").unwrap();
    let optional_pos = output.find("optional_first: String? = null").unwrap();
    assert!(required_pos < optional_pos, "Required params should come before optional params");
}

#[test]
fn test_const_modifier_generates_val() {
    let oml_object = OmlObject {
        oml_type: ObjectType::CLASS,
        name: "Config".to_string(),
        variables: vec![
            Variable {
                var_mod: vec![VariableModifier::CONST],
                visibility: VariableVisibility::PRIVATE,
                var_type: "string".to_string(),
                array_kind: ArrayKind::Scalar,
                name: "name".to_string(),
            },
        ],
    };

    let output = oml_to_kotlin(&oml_object, "Config").unwrap();
    assert!(output.contains("private val name: String"));
    assert!(!output.contains("var name"));
}

#[test]
fn test_mut_modifier_generates_var() {
    let oml_object = OmlObject {
        oml_type: ObjectType::CLASS,
        name: "Config".to_string(),
        variables: vec![
            Variable {
                var_mod: vec![VariableModifier::MUT],
                visibility: VariableVisibility::PRIVATE,
                var_type: "string".to_string(),
                array_kind: ArrayKind::Scalar,
                name: "name".to_string(),
            },
        ],
    };

    let output = oml_to_kotlin(&oml_object, "Config").unwrap();
    assert!(output.contains("private var name: String"));
}

#[test]
fn test_mut_overrides_const() {
    let oml_object = OmlObject {
        oml_type: ObjectType::CLASS,
        name: "Config".to_string(),
        variables: vec![
            Variable {
                var_mod: vec![VariableModifier::CONST, VariableModifier::MUT],
                visibility: VariableVisibility::PRIVATE,
                var_type: "int32".to_string(),
                array_kind: ArrayKind::Scalar,
                name: "value".to_string(),
            },
        ],
    };

    let output = oml_to_kotlin(&oml_object, "Config").unwrap();
    assert!(output.contains("var value: Int"));
    assert!(!output.contains("val value"));
}

#[test]
fn test_static_modifier_companion_object() {
    let oml_object = OmlObject {
        oml_type: ObjectType::CLASS,
        name: "Config".to_string(),
        variables: vec![
            Variable {
                var_mod: vec![],
                visibility: VariableVisibility::PRIVATE,
                var_type: "string".to_string(),
                array_kind: ArrayKind::Scalar,
                name: "name".to_string(),
            },
            Variable {
                var_mod: vec![VariableModifier::STATIC],
                visibility: VariableVisibility::PRIVATE,
                var_type: "int32".to_string(),
                array_kind: ArrayKind::Scalar,
                name: "count".to_string(),
            },
        ],
    };

    let output = oml_to_kotlin(&oml_object, "Config").unwrap();
    assert!(output.contains("companion object {"));
    assert!(output.contains("\t\tvar count: Int"));
}

#[test]
fn test_static_const_in_companion() {
    let oml_object = OmlObject {
        oml_type: ObjectType::CLASS,
        name: "Constants".to_string(),
        variables: vec![
            Variable {
                var_mod: vec![VariableModifier::STATIC, VariableModifier::CONST],
                visibility: VariableVisibility::PUBLIC,
                var_type: "int32".to_string(),
                array_kind: ArrayKind::Scalar,
                name: "MAX".to_string(),
            },
        ],
    };

    let output = oml_to_kotlin(&oml_object, "Constants").unwrap();
    assert!(output.contains("companion object {"));
    assert!(output.contains("\t\tval MAX: Int"));
}

#[test]
fn oml_kotlin_test_optional_with_static() {
    let oml_object = OmlObject {
        oml_type: ObjectType::CLASS,
        name: "Config".to_string(),
        variables: vec![
            Variable {
                var_mod: vec![VariableModifier::STATIC, VariableModifier::OPTIONAL],
                visibility: VariableVisibility::PUBLIC,
                var_type: "string".to_string(),
                array_kind: ArrayKind::Scalar,
                name: "instance".to_string(),
            },
        ],
    };

    let output = oml_to_kotlin(&oml_object, "Config").unwrap();
    assert!(output.contains("companion object {"));
    assert!(output.contains("var instance: String? = null"));
}

// ========== VISIBILITY TESTS ==========

#[test]
fn test_public_visibility_omitted() {
    let oml_object = OmlObject {
        oml_type: ObjectType::CLASS,
        name: "Foo".to_string(),
        variables: vec![
            Variable {
                var_mod: vec![],
                visibility: VariableVisibility::PUBLIC,
                var_type: "int32".to_string(),
                array_kind: ArrayKind::Scalar,
                name: "x".to_string(),
            },
        ],
    };

    let output = oml_to_kotlin(&oml_object, "Foo").unwrap();
    // Public is default in Kotlin, should not appear
    assert!(output.contains("\tvar x: Int"));
    assert!(!output.contains("public "));
}

#[test]
fn test_private_visibility() {
    let oml_object = OmlObject {
        oml_type: ObjectType::CLASS,
        name: "Foo".to_string(),
        variables: vec![
            Variable {
                var_mod: vec![],
                visibility: VariableVisibility::PRIVATE,
                var_type: "int32".to_string(),
                array_kind: ArrayKind::Scalar,
                name: "x".to_string(),
            },
        ],
    };

    let output = oml_to_kotlin(&oml_object, "Foo").unwrap();
    assert!(output.contains("\tprivate var x: Int"));
}

#[test]
fn test_protected_visibility() {
    let oml_object = OmlObject {
        oml_type: ObjectType::CLASS,
        name: "Foo".to_string(),
        variables: vec![
            Variable {
                var_mod: vec![],
                visibility: VariableVisibility::PROTECTED,
                var_type: "int32".to_string(),
                array_kind: ArrayKind::Scalar,
                name: "x".to_string(),
            },
        ],
    };

    let output = oml_to_kotlin(&oml_object, "Foo").unwrap();
    assert!(output.contains("\tprotected var x: Int"));
}

#[test]
fn test_all_visibility_levels() {
    let oml_object = OmlObject {
        oml_type: ObjectType::CLASS,
        name: "Mixed".to_string(),
        variables: vec![
            Variable {
                var_mod: vec![],
                visibility: VariableVisibility::PUBLIC,
                var_type: "int32".to_string(),
                array_kind: ArrayKind::Scalar,
                name: "pub_val".to_string(),
            },
            Variable {
                var_mod: vec![],
                visibility: VariableVisibility::PROTECTED,
                var_type: "int32".to_string(),
                array_kind: ArrayKind::Scalar,
                name: "prot_val".to_string(),
            },
            Variable {
                var_mod: vec![],
                visibility: VariableVisibility::PRIVATE,
                var_type: "int32".to_string(),
                array_kind: ArrayKind::Scalar,
                name: "priv_val".to_string(),
            },
        ],
    };

    let output = oml_to_kotlin(&oml_object, "Mixed").unwrap();
    assert!(output.contains("\tvar pub_val: Int"));
    assert!(output.contains("\tprotected var prot_val: Int"));
    assert!(output.contains("\tprivate var priv_val: Int"));
}

// ========== TYPE CONVERSION TESTS ==========

#[test]
fn oml_kotlin_test_convert_all_integer_types() {
    assert_eq!(convert_type("int8"), "Int");
    assert_eq!(convert_type("int16"), "Int");
    assert_eq!(convert_type("int32"), "Int");
    assert_eq!(convert_type("int64"), "Long");
}

#[test]
fn test_convert_unsigned_integer_types() {
    assert_eq!(convert_type("uint8"), "UInt");
    assert_eq!(convert_type("uint16"), "UInt");
    assert_eq!(convert_type("uint32"), "UInt");
    assert_eq!(convert_type("uint64"), "ULong");
}

#[test]
fn oml_kotlin_test_convert_floating_point_types() {
    assert_eq!(convert_type("float"), "Float");
    assert_eq!(convert_type("double"), "Double");
}

#[test]
fn oml_kotlin_test_convert_other_basic_types() {
    assert_eq!(convert_type("bool"), "Boolean");
    assert_eq!(convert_type("string"), "String");
    assert_eq!(convert_type("char"), "Char");
}

#[test]
fn oml_kotlin_test_convert_custom_type() {
    assert_eq!(convert_type("Address"), "Address");
    assert_eq!(convert_type("Person"), "Person");
}

// ========== FULL OUTPUT TESTS ==========

#[test]
fn test_oml_to_kotlin_with_enum() {
    let oml_object = OmlObject {
        oml_type: ObjectType::ENUM,
        name: "Direction".to_string(),
        variables: vec![
            Variable { var_mod: vec![], visibility: VariableVisibility::PUBLIC, var_type: "".to_string(), array_kind: ArrayKind::Scalar, name: "North".to_string() },
            Variable { var_mod: vec![], visibility: VariableVisibility::PUBLIC, var_type: "".to_string(), array_kind: ArrayKind::Scalar, name: "South".to_string() },
            Variable { var_mod: vec![], visibility: VariableVisibility::PUBLIC, var_type: "".to_string(), array_kind: ArrayKind::Scalar, name: "East".to_string() },
            Variable { var_mod: vec![], visibility: VariableVisibility::PUBLIC, var_type: "".to_string(), array_kind: ArrayKind::Scalar, name: "West".to_string() },
        ],
    };

    let output = oml_to_kotlin(&oml_object, "Direction").unwrap();
    assert!(output.starts_with("// This file has been generated from Direction.oml"));
    assert!(output.contains("enum class Direction {"));
    assert!(output.contains("\tNORTH,"));
    assert!(output.contains("\tSOUTH,"));
    assert!(output.contains("\tEAST,"));
    assert!(output.contains("\tWEST"));
    assert!(!output.contains("WEST,"));
    assert!(output.contains("}"));
}

#[test]
fn test_oml_to_kotlin_with_class() {
    let oml_object = OmlObject {
        oml_type: ObjectType::CLASS,
        name: "Foo".to_string(),
        variables: vec![
            Variable {
                var_mod: vec![],
                visibility: VariableVisibility::PRIVATE,
                var_type: "int32".to_string(),
                array_kind: ArrayKind::Scalar,
                name: "bar".to_string(),
            },
        ],
    };

    let output = oml_to_kotlin(&oml_object, "Foo").unwrap();
    assert!(output.starts_with("// This file has been generated from Foo.oml"));
    assert!(output.contains("data class Foo("));
    assert!(output.contains("\tprivate var bar: Int"));
    assert!(output.contains(")"));
}

#[test]
fn test_oml_to_kotlin_with_undecided_type_fails() {
    let oml_object = OmlObject {
        oml_type: ObjectType::UNDECIDED,
        name: "Bad".to_string(),
        variables: vec![],
    };

    let result = oml_to_kotlin(&oml_object, "Bad");
    assert!(result.is_err());
}

#[test]
fn oml_kotlin_test_full_output_has_proper_structure() {
    let oml_object = OmlObject {
        oml_type: ObjectType::CLASS,
        name: "Example".to_string(),
        variables: vec![
            Variable {
                var_mod: vec![VariableModifier::CONST],
                visibility: VariableVisibility::PRIVATE,
                var_type: "string".to_string(),
                array_kind: ArrayKind::Scalar,
                name: "id".to_string(),
            },
            Variable {
                var_mod: vec![],
                visibility: VariableVisibility::PUBLIC,
                var_type: "int32".to_string(),
                array_kind: ArrayKind::Scalar,
                name: "count".to_string(),
            },
            Variable {
                var_mod: vec![VariableModifier::OPTIONAL],
                visibility: VariableVisibility::PRIVATE,
                var_type: "string".to_string(),
                array_kind: ArrayKind::Scalar,
                name: "description".to_string(),
            },
        ],
    };

    let output = oml_to_kotlin(&oml_object, "Example").unwrap();
    assert!(output.contains("// This file has been generated from Example.oml"));
    assert!(output.contains("data class Example("));
    assert!(output.contains("private val id: String"));
    assert!(output.contains("var count: Int"));
    assert!(output.contains("private var description: String? = null"));
}

#[test]
fn test_extension_is_kt() {
    let _gen = KotlinGenerator::new(true);
    assert_eq!(_gen.extension(), "kt");
}

#[test]
fn oml_kotlin_test_class_with_many_variables() {
    let mut variables = Vec::new();
    for i in 0..20 {
        variables.push(Variable {
            var_mod: if i % 3 == 0 { vec![VariableModifier::OPTIONAL] } else { vec![] },
            visibility: VariableVisibility::PRIVATE,
            var_type: "int32".to_string(),
                array_kind: ArrayKind::Scalar,
            name: format!("var_{}", i),
        });
    }

    let oml_object = OmlObject {
        oml_type: ObjectType::CLASS,
        name: "ManyVars".to_string(),
        variables,
    };

    let output = oml_to_kotlin(&oml_object, "ManyVars").unwrap();
    assert!(output.contains("data class ManyVars("));
    // Check some required vars come before optional ones
    let first_required = output.find("var_1: Int").unwrap();
    let first_optional = output.find("var_0: Int? = null").unwrap();
    assert!(first_required < first_optional);
}

#[test]
fn oml_kotlin_test_enum_with_many_variants() {
    let variables: Vec<Variable> = (0..50).map(|i| Variable {
        var_mod: vec![],
        visibility: VariableVisibility::PUBLIC,
        var_type: "".to_string(),
                array_kind: ArrayKind::Scalar,
        name: format!("Variant{}", i),
    }).collect();

    let oml_object = OmlObject {
        oml_type: ObjectType::ENUM,
        name: "BigEnum".to_string(),
        variables,
    };

    let output = oml_to_kotlin(&oml_object, "BigEnum").unwrap();
    assert!(output.contains("enum class BigEnum {"));
    assert!(output.contains("VARIANT0,"));
    assert!(output.contains("VARIANT49"));
    assert!(!output.contains("VARIANT49,"));
}

#[test]
fn test_all_types_in_class() {
    let types_and_expected = vec![
        ("int8", "Int"), ("int16", "Int"), ("int32", "Int"), ("int64", "Long"),
        ("uint8", "UInt"), ("uint16", "UInt"), ("uint32", "UInt"), ("uint64", "ULong"),
        ("float", "Float"), ("double", "Double"),
        ("bool", "Boolean"), ("string", "String"), ("char", "Char"),
    ];

    let variables: Vec<Variable> = types_and_expected.iter().enumerate().map(|(i, (oml_type, _))| {
        Variable {
            var_mod: vec![],
            visibility: VariableVisibility::PUBLIC,
            var_type: oml_type.to_string(),
                array_kind: ArrayKind::Scalar,
            name: format!("field_{}", i),
        }
    }).collect();

    let oml_object = OmlObject {
        oml_type: ObjectType::CLASS,
        name: "AllTypes".to_string(),
        variables,
    };

    let output = oml_to_kotlin(&oml_object, "AllTypes").unwrap();

    for (i, (_, expected_kt)) in types_and_expected.iter().enumerate() {
        let expected = format!("field_{}: {}", i, expected_kt);
        assert!(output.contains(&expected), "Missing: {} in output:\n{}", expected, output);
    }
}

#[test]
fn oml_kotlin_test_optional_with_const() {
    let oml_object = OmlObject {
        oml_type: ObjectType::CLASS,
        name: "Foo".to_string(),
        variables: vec![
            Variable {
                var_mod: vec![VariableModifier::CONST, VariableModifier::OPTIONAL],
                visibility: VariableVisibility::PUBLIC,
                var_type: "string".to_string(),
                array_kind: ArrayKind::Scalar,
                name: "value".to_string(),
            },
        ],
    };

    let output = oml_to_kotlin(&oml_object, "Foo").unwrap();
    assert!(output.contains("val value: String? = null"));
}

#[test]
fn oml_kotlin_test_variable_with_all_modifiers() {
    let oml_object = OmlObject {
        oml_type: ObjectType::CLASS,
        name: "Full".to_string(),
        variables: vec![
            Variable {
                var_mod: vec![VariableModifier::STATIC, VariableModifier::CONST, VariableModifier::OPTIONAL],
                visibility: VariableVisibility::PRIVATE,
                var_type: "int32".to_string(),
                array_kind: ArrayKind::Scalar,
                name: "everything".to_string(),
            },
        ],
    };

    let output = oml_to_kotlin(&oml_object, "Full").unwrap();
    assert!(output.contains("companion object {"));
    assert!(output.contains("val everything: Int? = null"));
}
