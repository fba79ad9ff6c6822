use vstd::prelude::*;
use crate::oml_object::{OmlObject, SpecOmlObject, objects_view};
use crate::generate::{BackwardsGenerate, Generate, GenerateError, result_text};
use crate::backwards_converting::{OmlGenerator, oml_file};
use crate::generators::cpp::CppGenerator;
use crate::generators::java::JavaGenerator;
use crate::generators::kotlin::KotlinGenerator;
use crate::generators::python::PythonGenerator;
use crate::generators::rust::RustGenerator;
use crate::generators::sql::SqlGenerator;
use crate::generators::typescript::TypescriptGenerator;
use crate::text::eq_str;

verus! {

/// What the command line asks for: a subcommand, or `.oml` inputs with the
/// languages to generate.
pub struct OmlCli {
    pub command: Option<Commands>,
    /// The directories or `.oml` files to read.
    pub inputs: Option<Vec<String>>,
    /// The directory the generated files go to.
    pub output: String,
    /// Whether directories are searched recursively.
    pub recursive: bool,
    /// How deep directories are searched.
    pub depth: usize,
    pub use_data_class: bool,
    pub cpp: bool,
    pub python: bool,
    pub java: bool,
    pub kotlin: bool,
    pub rust: bool,
    pub typescript: bool,
    pub sql: bool,
}

/// The subcommands.
pub enum Commands {
    /// Read generated files back into OML.
    Revert { files: Vec<String>, output: String },
    /// Read source files and generate them in other languages.
    Translate {
        files: Vec<String>,
        output: String,
        cpp: bool,
        python: bool,
        java: bool,
        kotlin: bool,
        rust: bool,
        typescript: bool,
        sql: bool,
        use_data_class: bool,
    },
}

/// One of the language generators.
pub enum LanguageGenerator {
    Cpp(CppGenerator),
    Python(PythonGenerator),
    Kotlin(KotlinGenerator),
    Java(JavaGenerator),
    Rust(RustGenerator),
    Typescript(TypescriptGenerator),
    Sql(SqlGenerator),
}

impl Generate for LanguageGenerator {
    open spec fn spec_generate(&self, objs: Seq<SpecOmlObject>, file_name: Seq<char>) -> Result<Seq<char>, GenerateError> {
        match self {
            LanguageGenerator::Cpp(g) => g.spec_generate(objs, file_name),
            LanguageGenerator::Python(g) => g.spec_generate(objs, file_name),
            LanguageGenerator::Kotlin(g) => g.spec_generate(objs, file_name),
            LanguageGenerator::Java(g) => g.spec_generate(objs, file_name),
            LanguageGenerator::Rust(g) => g.spec_generate(objs, file_name),
            LanguageGenerator::Typescript(g) => g.spec_generate(objs, file_name),
            LanguageGenerator::Sql(g) => g.spec_generate(objs, file_name),
        }
    }

    open spec fn spec_extension(&self) -> Seq<char> {
        match self {
            LanguageGenerator::Cpp(g) => g.spec_extension(),
            LanguageGenerator::Python(g) => g.spec_extension(),
            LanguageGenerator::Kotlin(g) => g.spec_extension(),
            LanguageGenerator::Java(g) => g.spec_extension(),
            LanguageGenerator::Rust(g) => g.spec_extension(),
            LanguageGenerator::Typescript(g) => g.spec_extension(),
            LanguageGenerator::Sql(g) => g.spec_extension(),
        }
    }

    fn generate(&self, oml_objects: &[OmlObject], file_name: &str) -> (r: Result<String, GenerateError>) {
        match self {
            LanguageGenerator::Cpp(g) => g.generate(oml_objects, file_name),
            LanguageGenerator::Python(g) => g.generate(oml_objects, file_name),
            LanguageGenerator::Kotlin(g) => g.generate(oml_objects, file_name),
            LanguageGenerator::Java(g) => g.generate(oml_objects, file_name),
            LanguageGenerator::Rust(g) => g.generate(oml_objects, file_name),
            LanguageGenerator::Typescript(g) => g.generate(oml_objects, file_name),
            LanguageGenerator::Sql(g) => g.generate(oml_objects, file_name),
        }
    }

    fn extension(&self) -> (r: &str) {
        match self {
            LanguageGenerator::Cpp(g) => g.extension(),
            LanguageGenerator::Python(g) => g.extension(),
            LanguageGenerator::Kotlin(g) => g.extension(),
            LanguageGenerator::Java(g) => g.extension(),
            LanguageGenerator::Rust(g) => g.extension(),
            LanguageGenerator::Typescript(g) => g.extension(),
            LanguageGenerator::Sql(g) => g.extension(),
        }
    }
}

/// One of the generators that can read their language back.
pub enum ReverseGenerator {
    Rust(RustGenerator),
    Kotlin(KotlinGenerator),
    Cpp(CppGenerator),
    Python(PythonGenerator),
}

impl BackwardsGenerate for ReverseGenerator {
    open spec fn spec_reverse(&self, content: Seq<char>) -> Seq<SpecOmlObject> {
        match self {
            ReverseGenerator::Rust(g) => g.spec_reverse(content),
            ReverseGenerator::Kotlin(g) => g.spec_reverse(content),
            ReverseGenerator::Cpp(g) => g.spec_reverse(content),
            ReverseGenerator::Python(g) => g.spec_reverse(content),
        }
    }

    fn reverse(&self, content: &str) -> (r: Result<Vec<OmlObject>, GenerateError>) {
        match self {
            ReverseGenerator::Rust(g) => g.reverse(content),
            ReverseGenerator::Kotlin(g) => g.reverse(content),
            ReverseGenerator::Cpp(g) => g.reverse(content),
            ReverseGenerator::Python(g) => g.reverse(content),
        }
    }
}

/// The generators that the language flags ask for, in this order: C++,
/// Python, Kotlin, Java, Rust, TypeScript, SQL. Python and Kotlin write
/// data classes where `use_data_class` holds.
pub open spec fn flagged_generators(
    cpp: bool,
    python: bool,
    java: bool,
    kotlin: bool,
    rust: bool,
    typescript: bool,
    sql: bool,
    use_data_class: bool,
) -> Seq<LanguageGenerator> {
    (if cpp { seq![LanguageGenerator::Cpp(CppGenerator)] } else { Seq::empty() })
        + (if python { seq![LanguageGenerator::Python(PythonGenerator { use_data_class })] } else { Seq::empty() })
        + (if kotlin { seq![LanguageGenerator::Kotlin(KotlinGenerator { use_data_class })] } else { Seq::empty() })
        + (if java { seq![LanguageGenerator::Java(JavaGenerator)] } else { Seq::empty() })
        + (if rust { seq![LanguageGenerator::Rust(RustGenerator)] } else { Seq::empty() })
        + (if typescript { seq![LanguageGenerator::Typescript(TypescriptGenerator)] } else { Seq::empty() })
        + (if sql { seq![LanguageGenerator::Sql(SqlGenerator)] } else { Seq::empty() })
}

fn push_if(v: &mut Vec<LanguageGenerator>, cond: bool, g: LanguageGenerator)
    ensures
        final(v)@ == old(v)@ + (if cond { seq![g] } else { Seq::empty() }),
{
    let ghost before = v@;
    if cond {
        v.push(g);
    }
    assert(v@ =~= before + (if cond { seq![g] } else { Seq::empty() }));
}

/// The generators that the language flags ask for.
pub fn get_generators_from_flags(
    cpp: bool,
    python: bool,
    java: bool,
    kotlin: bool,
    rust: bool,
    typescript: bool,
    sql: bool,
    use_data_class: bool,
) -> (r: Vec<LanguageGenerator>)
    ensures
        r@ == flagged_generators(cpp, python, java, kotlin, rust, typescript, sql, use_data_class),
{
    let mut generators: Vec<LanguageGenerator> = Vec::new();
    assert(generators@ =~= Seq::<LanguageGenerator>::empty());
    push_if(&mut generators, cpp, LanguageGenerator::Cpp(CppGenerator));
    push_if(&mut generators, python, LanguageGenerator::Python(PythonGenerator::new(use_data_class)));
    push_if(&mut generators, kotlin, LanguageGenerator::Kotlin(KotlinGenerator::new(use_data_class)));
    push_if(&mut generators, java, LanguageGenerator::Java(JavaGenerator));
    push_if(&mut generators, rust, LanguageGenerator::Rust(RustGenerator));
    push_if(&mut generators, typescript, LanguageGenerator::Typescript(TypescriptGenerator));
    push_if(&mut generators, sql, LanguageGenerator::Sql(SqlGenerator));
    assert(generators@ =~= flagged_generators(cpp, python, java, kotlin, rust, typescript, sql, use_data_class));
    generators
}

impl OmlCli {
    /// Whether `.oml` inputs were given.
    pub fn has_inputs(&self) -> (r: bool)
        ensures
            r == self.inputs is Some,
    {
        self.inputs.is_some()
    }

    /// The generators that the language flags ask for.
    pub fn get_generators(&self) -> (r: Vec<LanguageGenerator>)
        ensures
            r@ == flagged_generators(self.cpp, self.python, self.java, self.kotlin, self.rust,
                self.typescript, self.sql, self.use_data_class),
    {
        get_generators_from_flags(self.cpp, self.python, self.java, self.kotlin, self.rust,
            self.typescript, self.sql, self.use_data_class)
    }
}

/// The reader for files with the extension `ext`: `rs`, `kt`, `cpp` or `h`,
/// and `py` are read back (Kotlin and Python ones as plain classes); other
/// extensions, Java, TypeScript and SQL among them, have no reader.
pub open spec fn reader_for(ext: Seq<char>) -> Option<ReverseGenerator> {
    if ext == "rs"@ {
        Some(ReverseGenerator::Rust(RustGenerator))
    } else if ext == "kt"@ {
        Some(ReverseGenerator::Kotlin(KotlinGenerator { use_data_class: false }))
    } else if ext == "cpp"@ || ext == "h"@ {
        Some(ReverseGenerator::Cpp(CppGenerator))
    } else if ext == "py"@ {
        Some(ReverseGenerator::Python(PythonGenerator { use_data_class: false }))
    } else {
        Option::None
    }
}

/// The generator that reads files with the given extension back, if any.
pub fn get_backwards_generator(extension: &str) -> (r: Option<ReverseGenerator>)
    ensures
        r == reader_for(extension@),
{
    if eq_str(extension, "rs") {
        Some(ReverseGenerator::Rust(RustGenerator))
    } else if eq_str(extension, "kt") {
        Some(ReverseGenerator::Kotlin(KotlinGenerator::new(false)))
    } else if eq_str(extension, "cpp") || eq_str(extension, "h") {
        Some(ReverseGenerator::Cpp(CppGenerator))
    } else if eq_str(extension, "py") {
        Some(ReverseGenerator::Python(PythonGenerator::new(false)))
    } else {
        Option::None
    }
}

/// The extensions of the source files that `translate` looks for: those that
/// have a reader.
pub open spec fn supported_extension(ext: Seq<char>) -> bool {
    reader_for(ext) is Some
}

/// Whether a file with the given extension (none where it has none) is a
/// source file that `translate` looks for: one that a reader reads back.
pub fn is_supported_source(extension: Option<&str>) -> (r: bool)
    ensures
        r == (extension matches Some(e) && supported_extension(e@)),
{
    match extension {
        Some(e) => get_backwards_generator(e).is_some(),
        Option::None => false,
    }
}

/// Why one source file was not converted.
#[derive(Clone, Copy, Debug, PartialEq, Eq, Structural)]
pub enum ConvertError {
    /// No reader exists for the file's extension.
    UnsupportedType,
    /// Reading the file gave no object.
    NoObjects,
    /// Generating OML from the objects read failed.
    Generate(GenerateError),
}

/// The objects read from `content` by the reader for `extension`, or why
/// there are none to convert.
pub open spec fn read_source(extension: Seq<char>, content: Seq<char>) -> Result<Seq<SpecOmlObject>, ConvertError> {
    match reader_for(extension) {
        Option::None => Err(ConvertError::UnsupportedType),
        Some(g) => {
            let objs = g.spec_reverse(content);
            if objs.len() == 0 { Err(ConvertError::NoObjects) } else { Ok(objs) }
        },
    }
}

/// The OML file that `revert` writes for a source file: its name (the
/// source's stem with `.oml`) and its text.
pub open spec fn reverted(extension: Seq<char>, content: Seq<char>, file_stem: Seq<char>) -> Result<(Seq<char>, Seq<char>), ConvertError> {
    match read_source(extension, content) {
        Err(e) => Err(e),
        Ok(objs) => match oml_file(objs) {
            Ok(text) => Ok((file_stem + ".oml"@, text)),
            Err(e) => Err(ConvertError::Generate(e)),
        },
    }
}

fn read_objects(extension: &str, content: &str) -> (r: Result<Vec<OmlObject>, ConvertError>)
    ensures
        match r {
            Ok(v) => read_source(extension@, content@) == Ok::<Seq<SpecOmlObject>, ConvertError>(objects_view(v@)),
            Err(e) => read_source(extension@, content@) == Err::<Seq<SpecOmlObject>, ConvertError>(e),
        },
{
    let reader = match get_backwards_generator(extension) {
        Some(g) => g,
        Option::None => {
            return Err(ConvertError::UnsupportedType);
        },
    };
    let objects = match reader.reverse(content) {
        Ok(v) => v,
        Err(e) => {
            return Err(ConvertError::Generate(e));
        },
    };
    if objects.len() == 0 {
        return Err(ConvertError::NoObjects);
    }
    Ok(objects)
}

/// Reads one generated source file back and writes it as OML: the name and
/// text of the OML file.
pub fn revert_source(extension: &str, content: &str, file_stem: &str) -> (r: Result<(String, String), ConvertError>)
    ensures
        match r {
            Ok(out) => reverted(extension@, content@, file_stem@) == Ok::<(Seq<char>, Seq<char>), ConvertError>((out.0@, out.1@)),
            Err(e) => reverted(extension@, content@, file_stem@) == Err::<(Seq<char>, Seq<char>), ConvertError>(e),
        },
{
    let objects = match read_objects(extension, content) {
        Ok(v) => v,
        Err(e) => {
            return Err(e);
        },
    };
    let oml_generator = OmlGenerator;
    match oml_generator.generate(objects.as_slice(), file_stem) {
        Ok(text) => {
            let mut name = String::from_str(file_stem);
            name.append(".oml");
            Ok((name, text))
        },
        Err(e) => Err(ConvertError::Generate(e)),
    }
}

/// The files that `translate` writes for a source file: for each generator,
/// the source's stem with the generator's extension, and what the generator
/// gives for the objects read.
pub open spec fn translated(
    extension: Seq<char>,
    content: Seq<char>,
    file_stem: Seq<char>,
    generators: Seq<LanguageGenerator>,
) -> Result<Seq<(Seq<char>, Result<Seq<char>, GenerateError>)>, ConvertError> {
    match read_source(extension, content) {
        Err(e) => Err(e),
        Ok(objs) => Ok(generators.map_values(|g: LanguageGenerator|
            (file_stem + "."@ + g.spec_extension(), g.spec_generate(objs, file_stem)))),
    }
}

pub open spec fn outputs_view(v: Seq<(String, Result<String, GenerateError>)>) -> Seq<(Seq<char>, Result<Seq<char>, GenerateError>)> {
    v.map_values(|p: (String, Result<String, GenerateError>)| (p.0@, result_text(p.1)))
}

/// Reads one source file and generates it with each of `generators`: the
/// name of each file to write, with its text or the generator's error.
pub fn translate_source(
    extension: &str,
    content: &str,
    file_stem: &str,
    generators: &Vec<LanguageGenerator>,
) -> (r: Result<Vec<(String, Result<String, GenerateError>)>, ConvertError>)
    ensures
        match r {
            Ok(v) => translated(extension@, content@, file_stem@, generators@)
                == Ok::<Seq<(Seq<char>, Result<Seq<char>, GenerateError>)>, ConvertError>(outputs_view(v@)),
            Err(e) => translated(extension@, content@, file_stem@, generators@)
                == Err::<Seq<(Seq<char>, Result<Seq<char>, GenerateError>)>, ConvertError>(e),
        },
{
    let objects = match read_objects(extension, content) {
        Ok(v) => v,
        Err(e) => {
            return Err(e);
        },
    };
    let ghost objs = objects_view(objects@);
    let mut outputs: Vec<(String, Result<String, GenerateError>)> = Vec::new();
    let mut i: usize = 0;
    while i < generators.len()
        invariant
            i <= generators.len(),
            objs == objects_view(objects@),
            outputs_view(outputs@) == generators@.take(i as int).map_values(|g: LanguageGenerator|
                (file_stem@ + "."@ + g.spec_extension(), g.spec_generate(objs, file_stem@))),
        decreases generators.len() - i,
    {
        let g = &generators[i];
        let mut name = String::from_str(file_stem);
        name.append(".");
        name.append(g.extension());
        let generated = g.generate(objects.as_slice(), file_stem);
        let ghost before = outputs_view(outputs@);
        outputs.push((name, generated));
        assert(outputs_view(outputs@) =~= before.push((file_stem@ + "."@ + g.spec_extension(), g.spec_generate(objs, file_stem@))));
        assert(generators@.take(i + 1) =~= generators@.take(i as int).push(generators@[i as int]));
        i += 1;
    }
    assert(generators@.take(generators.len() as int) =~= generators@);
    Ok(outputs)
}

} // verus!
