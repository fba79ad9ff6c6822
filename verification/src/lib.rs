pub mod backwards_converting;
pub mod generate;
pub mod generators;
pub mod oml_object;
pub mod text;
pub mod chars;
pub mod reading;
pub mod laws;
pub mod round_trip;
pub mod cli;
pub mod cpp_round_trip;
pub mod cpp_file_round_trip;
pub mod kotlin_round_trip;
pub mod python_round_trip;
pub mod python_class_round_trip;
pub mod generator_laws;
