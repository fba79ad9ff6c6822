use vstd::prelude::*;
use crate::oml_object::{OmlObject, SpecOmlObject, ObjectType, objects_view};

verus! {

/// Why code could not be generated.
#[derive(Clone, Copy, Debug, PartialEq, Eq, Structural)]
pub enum GenerateError {
    /// An object of type `UNDECIDED` was given to a language generator.
    UndecidedForCode,
    /// An object of type `UNDECIDED` was given to the OML generator.
    UndecidedForOml,
    /// An object of type `UNDECIDED` was given to the SQL generator.
    UndecidedForSql,
    /// A class body was asked for an object that is neither a class nor a struct.
    NotClassOrStruct,
}

/// The human-readable message for an error.
pub open spec fn error_message(e: GenerateError) -> Seq<char> {
    match e {
        GenerateError::UndecidedForCode => "Cannot generate code for UNDECIDED object type"@,
        GenerateError::UndecidedForOml => "Cannot generate OML for UNDECIDED object type"@,
        GenerateError::UndecidedForSql => "Cannot generate SQL for UNDECIDED object type"@,
        GenerateError::NotClassOrStruct => "an error occurred when formatting an argument"@,
    }
}

impl GenerateError {
    /// The human-readable message for this error.
    pub fn message(&self) -> (r: String)
        ensures
            r@ == error_message(*self),
    {
        match self {
            GenerateError::UndecidedForCode => String::from_str("Cannot generate code for UNDECIDED object type"),
            GenerateError::UndecidedForOml => String::from_str("Cannot generate OML for UNDECIDED object type"),
            GenerateError::UndecidedForSql => String::from_str("Cannot generate SQL for UNDECIDED object type"),
            GenerateError::NotClassOrStruct => String::from_str("an error occurred when formatting an argument"),
        }
    }
}

/// The generated text of a result, by its view.
pub open spec fn result_text(r: Result<String, GenerateError>) -> Result<Seq<char>, GenerateError> {
    match r {
        Ok(s) => Ok(s@),
        Err(e) => Err(e),
    }
}

/// Whether some object of `objs` is `UNDECIDED`.
pub open spec fn has_undecided(objs: Seq<SpecOmlObject>) -> bool {
    exists|i: int| 0 <= i < objs.len() && objs[i].oml_type == ObjectType::UNDECIDED
}

/// Converts OML objects to source code of one language.
pub trait Generate {
    /// The text generated for `objs` from a file named `file_name`, or the error.
    spec fn spec_generate(&self, objs: Seq<SpecOmlObject>, file_name: Seq<char>) -> Result<Seq<char>, GenerateError>;

    /// The extension of the files this generator writes.
    spec fn spec_extension(&self) -> Seq<char>;

    /// Generates the code for all objects of one `.oml` file, into one text.
    fn generate(&self, oml_objects: &[OmlObject], file_name: &str) -> (r: Result<String, GenerateError>)
        ensures
            result_text(r) == self.spec_generate(objects_view(oml_objects@), file_name@),
    ;

    /// The extension of the files this generator writes.
    fn extension(&self) -> (r: &str)
        ensures
            r@ == self.spec_extension(),
    ;
}

/// Reads source code of one language back into OML objects.
pub trait BackwardsGenerate {
    /// The objects read from `content`.
    spec fn spec_reverse(&self, content: Seq<char>) -> Seq<SpecOmlObject>;

    /// Parses `content` back into OML objects.
    fn reverse(&self, content: &str) -> (r: Result<Vec<OmlObject>, GenerateError>)
        ensures
            r is Ok,
            r matches Ok(v) ==> objects_view(v@) == self.spec_reverse(content@),
    ;
}

} // verus!
