# oml

OML (Object Markup Language) describes classes, structs and enums once and
generates them in C++, Python, Kotlin, Java, Rust, TypeScript and SQL. The
C++, Python, Kotlin and Rust outputs can also be read back into OML objects,
and objects can be written out as OML text again.

The library under `src/` is verified with Verus:

- `oml_object.rs`: the object model (objects, variables, modifiers, array
  kinds) and its mathematical view.
- `generate.rs`: what every generator and reader promises.
- `generators/`: one generator per language, and a reader for C++, Kotlin,
  Python and Rust; each states the exact text it writes or the objects it
  reads as spec functions.
- `backwards_converting.rs`: writing objects as OML text.
- `cli.rs`: choosing generators and readers, and converting one source file.
- `chars.rs`, `text.rs`, `reading.rs`: text handling shared by the above.
- `laws.rs`, `round_trip.rs`, `cpp_round_trip.rs`, `cpp_file_round_trip.rs`,
  `kotlin_round_trip.rs`, `python_round_trip.rs`,
  `python_class_round_trip.rs`: proofs that reading back what a generator
  wrote gives the objects again, for the inputs on which that holds.

`app/` holds the command line program: argument parsing, file and directory
access, and printing.
