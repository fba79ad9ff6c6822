pub mod cpp;
pub mod cpp_reverse;
pub mod java;
pub mod kotlin;
pub mod kotlin_reverse;
pub mod python;
pub mod python_reverse;
pub mod rust;
pub mod rust_reverse;
pub mod sql;
pub mod typescript;
