use oml::oml_object::VariableModifier::{CONST, MUT, OPTIONAL, STATIC};
use oml::oml_object::VariableVisibility::{PRIVATE, PROTECTED, PUBLIC};
use oml::backwards_converting::OmlGenerator;
use oml::cli::{
    ConvertError, LanguageGenerator, OmlCli, ReverseGenerator, get_backwards_generator,
    get_generators_from_flags, is_supported_source, revert_source, translate_source,
};
use oml::generate::{Generate, GenerateError};
use oml::generators::cpp::{CppGenerator, generate_class_or_struct};
use oml::generators::java::JavaGenerator;
use oml::generators::rust::RustGenerator;
use oml::generators::sql::SqlGenerator;
use oml::generators::typescript::TypescriptGenerator;
use oml::oml_object::{ArrayKind, ObjectType, OmlObject, Variable, VariableModifier, VariableVisibility};

fn var(name: &str, ty: &str, vis: VariableVisibility, kind: ArrayKind, mods: Vec<VariableModifier>) -> Variable {
    Variable { var_mod: mods, visibility: vis, var_type: ty.to_string(), array_kind: kind, name: name.to_string() }
}

fn extensions(gs: &[LanguageGenerator]) -> Vec<String> {
    gs.iter().map(|g| g.extension().to_string()).collect()
}

#[test]
fn generators_follow_the_flags_in_order() {
    let gs = get_generators_from_flags(true, true, true, true, true, true, true, false);
    assert_eq!(extensions(&gs), vec!["h", "py", "kt", "java", "rs", "ts", "sql"]);
    let gs = get_generators_from_flags(false, false, true, false, true, false, false, false);
    assert_eq!(extensions(&gs), vec!["java", "rs"]);
    assert!(get_generators_from_flags(false, false, false, false, false, false, false, true).is_empty());
}

#[test]
fn cli_generators_and_inputs() {
    let cli = OmlCli {
        command: None,
        inputs: Some(vec!["models".to_string()]),
        output: "./oml_output".to_string(),
        recursive: false,
        depth: 3,
        use_data_class: true,
        cpp: false,
        python: true,
        java: false,
        kotlin: true,
        rust: false,
        typescript: false,
        sql: true,
    };
    assert!(cli.has_inputs());
    let gs = cli.get_generators();
    assert_eq!(extensions(&gs), vec!["py", "kt", "sql"]);
    match &gs[0] {
        LanguageGenerator::Python(p) => assert!(p.use_data_class),
        _ => panic!("expected the Python generator first"),
    }
    let none = OmlCli { inputs: None, ..cli };
    assert!(!none.has_inputs());
}

#[test]
fn readers_by_extension() {
    assert!(matches!(get_backwards_generator("rs"), Some(ReverseGenerator::Rust(_))));
    assert!(matches!(get_backwards_generator("kt"), Some(ReverseGenerator::Kotlin(_))));
    assert!(matches!(get_backwards_generator("cpp"), Some(ReverseGenerator::Cpp(_))));
    assert!(matches!(get_backwards_generator("h"), Some(ReverseGenerator::Cpp(_))));
    assert!(matches!(get_backwards_generator("py"), Some(ReverseGenerator::Python(_))));
    assert!(get_backwards_generator("java").is_none());
    assert!(get_backwards_generator("txt").is_none());
}

#[test]
fn supported_source_extensions() {
    for e in ["rs", "kt", "cpp", "h", "py"] {
        assert!(is_supported_source(Some(e)), "{}", e);
    }
    for e in ["java", "ts", "sql"] {
        assert!(!is_supported_source(Some(e)), "{}", e);
    }
    assert!(!is_supported_source(Some("oml")));
    assert!(!is_supported_source(Some("RS")));
    assert!(!is_supported_source(None));
}

#[test]
fn revert_writes_oml() {
    let src = "pub struct Point {\n\tpub x: f64,\n\ty: Option<i32>,\n}\n";
    let (name, text) = revert_source("rs", src, "point").unwrap();
    assert_eq!(name, "point.oml");
    assert_eq!(text, "struct Point {\n    public double x;\n    optional int32 y;\n}\n");
}

#[test]
fn revert_errors() {
    assert_eq!(revert_source("txt", "anything", "x").unwrap_err(), ConvertError::UnsupportedType);
    assert_eq!(revert_source("rs", "// nothing here\n", "x").unwrap_err(), ConvertError::NoObjects);
}

#[test]
fn translate_writes_each_language() {
    let src = "enum class Color {\n\tRED,\n\tGREEN\n};\n";
    let gs = get_generators_from_flags(false, false, false, false, true, true, false, false);
    let out = translate_source("h", src, "color", &gs).unwrap();
    assert_eq!(out.len(), 2);
    assert_eq!(out[0].0, "color.rs");
    let rs = out[0].1.as_ref().unwrap();
    assert!(rs.contains("pub enum Color {\n\tRED,\n\tGREEN,\n}\n"), "{}", rs);
    assert_eq!(out[1].0, "color.ts");
    let ts = out[1].1.as_ref().unwrap();
    assert!(ts.contains("export enum Color {\n\tRED = \"RED\",\n\tGREEN = \"GREEN\"\n}\n"), "{}", ts);
    assert_eq!(translate_source("java", src, "color", &gs).unwrap_err(), ConvertError::UnsupportedType);
}

#[test]
fn undecided_objects_are_refused() {
    let obj = OmlObject { oml_type: ObjectType::UNDECIDED, name: "Bad".to_string(), variables: vec![] };
    let one = std::slice::from_ref(&obj);
    assert_eq!(RustGenerator.generate(one, "bad").unwrap_err(), GenerateError::UndecidedForCode);
    assert_eq!(JavaGenerator.generate(one, "bad").unwrap_err(), GenerateError::UndecidedForCode);
    assert_eq!(TypescriptGenerator.generate(one, "bad").unwrap_err(), GenerateError::UndecidedForCode);
    assert_eq!(SqlGenerator.generate(one, "bad").unwrap_err(), GenerateError::UndecidedForSql);
    assert_eq!(OmlGenerator.generate(one, "bad").unwrap_err(), GenerateError::UndecidedForOml);
    assert_eq!(GenerateError::UndecidedForSql.message(), "Cannot generate SQL for UNDECIDED object type");
    let mut out = String::new();
    let en = OmlObject { oml_type: ObjectType::ENUM, name: "E".to_string(), variables: vec![] };
    assert_eq!(generate_class_or_struct(&en, &mut out).unwrap_err(), GenerateError::NotClassOrStruct);
    assert!(out.is_empty());
}

#[test]
fn oml_text_of_objects() {
    let e = OmlObject {
        oml_type: ObjectType::ENUM,
        name: "Color".to_string(),
        variables: vec![var("RED", "string", PUBLIC, ArrayKind::Scalar, vec![])],
    };
    let c = OmlObject {
        oml_type: ObjectType::CLASS,
        name: "Car".to_string(),
        variables: vec![
            var("grades", "float", PUBLIC, ArrayKind::Static(5), vec![]),
            var("notes", "string", PROTECTED, ArrayKind::Dynamic, vec![STATIC, CONST]),
        ],
    };
    let text = OmlGenerator.generate(&[e, c], "car").unwrap();
    assert_eq!(text, "enum Color {\n    string RED;\n}\n\nclass Car {\n    public float[5] grades;\n    protected static const list string notes;\n}\n");
    assert_eq!(OmlGenerator.extension(), "oml");
}

#[test]
fn java_class_text() {
    let c = OmlObject {
        oml_type: ObjectType::CLASS,
        name: "Person".to_string(),
        variables: vec![var("age", "int32", VariableVisibility::PRIVATE, ArrayKind::Scalar, vec![])],
    };
    let text = JavaGenerator.generate(std::slice::from_ref(&c), "person").unwrap();
    assert!(text.contains("class Person"), "{}", text);
    assert!(text.contains("private int age;"), "{}", text);
    assert_eq!(JavaGenerator.extension(), "java");
}

#[test]
fn sql_tables() {
    let c = OmlObject {
        oml_type: ObjectType::STRUCT,
        name: "Student".to_string(),
        variables: vec![
            var("grades", "uint8", VariableVisibility::PUBLIC, ArrayKind::Static(2), vec![]),
            var("nick", "string", VariableVisibility::PUBLIC, ArrayKind::Scalar, vec![VariableModifier::OPTIONAL]),
            var("courses", "string", VariableVisibility::PUBLIC, ArrayKind::Dynamic, vec![]),
        ],
    };
    let text = SqlGenerator.generate(std::slice::from_ref(&c), "student").unwrap();
    assert!(text.starts_with("-- This file has been generated from student.oml\n\n"), "{}", text);
    assert!(text.contains("\tgrades_0 TINYINT UNSIGNED NOT NULL,\n\tgrades_1 TINYINT UNSIGNED NOT NULL,\n"), "{}", text);
    assert!(text.contains("\tnick TEXT NULL,\n"), "{}", text);
    assert!(text.contains("\tCONSTRAINT pk_Student PRIMARY KEY (id)\n);\n"), "{}", text);
    assert!(text.contains("CREATE TABLE Student_courses ("), "{}", text);
    let e = OmlObject {
        oml_type: ObjectType::ENUM,
        name: "Color".to_string(),
        variables: vec![
            var("red", "", VariableVisibility::PUBLIC, ArrayKind::Scalar, vec![]),
            var("blue", "", VariableVisibility::PUBLIC, ArrayKind::Scalar, vec![]),
        ],
    };
    let text = SqlGenerator.generate(std::slice::from_ref(&e), "color").unwrap();
    assert!(text.contains("INSERT INTO Color (name) VALUES ('RED'), ('BLUE');\n"), "{}", text);
}

#[test]
fn rust_enum_variants_are_capitalised() {
    let e = OmlObject {
        oml_type: ObjectType::ENUM,
        name: "Color".to_string(),
        variables: vec![var("red", "", VariableVisibility::PUBLIC, ArrayKind::Scalar, vec![])],
    };
    let text = RustGenerator.generate(std::slice::from_ref(&e), "color").unwrap();
    assert!(text.contains("\tRed,\n"), "{}", text);
}

#[test]
fn cpp_long_constructor_is_broken_up() {
    let names: Vec<String> = (0..8).map(|i| format!("a_rather_long_member_name_{}", i)).collect();
    let c = OmlObject {
        oml_type: ObjectType::CLASS,
        name: "Wide".to_string(),
        variables: names.iter().map(|n| var(n, "int32", VariableVisibility::PUBLIC, ArrayKind::Scalar, vec![])).collect(),
    };
    let text = CppGenerator.generate(std::slice::from_ref(&c), "wide").unwrap();
    assert!(text.contains("\t\t: a_rather_long_member_name_0(std::move(a_rather_long_member_name_0))\n"), "{}", text);
    assert!(text.contains("\t\t, a_rather_long_member_name_7(std::move(a_rather_long_member_name_7))\n\t{}\n"), "{}", text);
}

#[test]
fn every_generate_error_has_its_message() {
    assert_eq!(GenerateError::UndecidedForCode.message(), "Cannot generate code for UNDECIDED object type");
    assert_eq!(GenerateError::UndecidedForOml.message(), "Cannot generate OML for UNDECIDED object type");
    assert_eq!(GenerateError::NotClassOrStruct.message(), "an error occurred when formatting an argument");
}
