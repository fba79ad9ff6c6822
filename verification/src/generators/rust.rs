use vstd::prelude::*;
use crate::oml_object::{
    ArrayKind, ObjectType, OmlObject, Pick, SpecOmlObject, SpecVariable, Variable, VariableModifier,
    VariableVisibility, all_refs, objects_view, pick, pick_refs, refs_view, vars_view,
};
use crate::generate::{Generate, GenerateError, has_undecided};
use crate::text::{capitalise, capitalised, decimal, eq_str, push_decimal, str_upper, to_uppercase};

verus! {

/// Generates Rust structs and enums from OML objects, and reads them back.
pub struct RustGenerator;

/// The Rust type of an OML type name.
pub open spec fn rs_type(t: Seq<char>) -> Seq<char> {
    if t == "int8"@ { "i8"@ }
    else if t == "int16"@ { "i16"@ }
    else if t == "int32"@ { "i32"@ }
    else if t == "int64"@ { "i64"@ }
    else if t == "uint8"@ { "u8"@ }
    else if t == "uint16"@ { "u16"@ }
    else if t == "uint32"@ { "u32"@ }
    else if t == "uint64"@ { "u64"@ }
    else if t == "float"@ { "f32"@ }
    else if t == "double"@ { "f64"@ }
    else if t == "bool"@ { "bool"@ }
    else if t == "string"@ { "String"@ }
    else if t == "char"@ { "char"@ }
    else { t }
}

/// Converts an OML type name to a Rust type.
pub fn convert_type(var_type: &str) -> (r: String)
    ensures
        r@ == rs_type(var_type@),
{
    if eq_str(var_type, "int8") { String::from_str("i8") }
    else if eq_str(var_type, "int16") { String::from_str("i16") }
    else if eq_str(var_type, "int32") { String::from_str("i32") }
    else if eq_str(var_type, "int64") { String::from_str("i64") }
    else if eq_str(var_type, "uint8") { String::from_str("u8") }
    else if eq_str(var_type, "uint16") { String::from_str("u16") }
    else if eq_str(var_type, "uint32") { String::from_str("u32") }
    else if eq_str(var_type, "uint64") { String::from_str("u64") }
    else if eq_str(var_type, "float") { String::from_str("f32") }
    else if eq_str(var_type, "double") { String::from_str("f64") }
    else if eq_str(var_type, "bool") { String::from_str("bool") }
    else if eq_str(var_type, "string") { String::from_str("String") }
    else if eq_str(var_type, "char") { String::from_str("char") }
    else { String::from_str(var_type) }
}

/// The Rust type of a value of OML type `t` held as `k`, in `Option` where
/// it is optional.
pub open spec fn rs_type_annotation(t: Seq<char>, k: ArrayKind, is_optional: bool) -> Seq<char> {
    let with_array = match k {
        ArrayKind::Scalar => rs_type(t),
        ArrayKind::Static(n) => "["@ + rs_type(t) + "; "@ + decimal(n as nat) + "]"@,
        ArrayKind::Dynamic => "Vec<"@ + rs_type(t) + ">"@,
    };
    if is_optional { "Option<"@ + with_array + ">"@ } else { with_array }
}

/// Converts an OML type, array kind and optionality to a Rust type.
pub fn type_annotation(var_type: &str, array_kind: &ArrayKind, is_optional: bool) -> (r: String)
    ensures
        r@ == rs_type_annotation(var_type@, *array_kind, is_optional),
{
    let base = convert_type(var_type);
    let with_array = match array_kind {
        ArrayKind::Scalar => base,
        ArrayKind::Static(n) => {
            let mut r = String::from_str("[");
            r.append(base.as_str());
            r.append("; ");
            push_decimal(&mut r, *n as u64);
            r.append("]");
            r
        },
        ArrayKind::Dynamic => {
            let mut r = String::from_str("Vec<");
            r.append(base.as_str());
            r.append(">");
            r
        },
    };
    if is_optional {
        let mut r = String::from_str("Option<");
        r.append(with_array.as_str());
        r.append(">");
        r
    } else {
        with_array
    }
}

/// The variants of a Rust enum: names with a capital first letter.
pub open spec fn rs_enum_variants(vars: Seq<SpecVariable>) -> Seq<char>
    decreases vars.len(),
{
    if vars.len() == 0 {
        Seq::empty()
    } else {
        rs_enum_variants(vars.drop_last()) + "\t"@ + capitalised(vars.last().name) + ",\n"@
    }
}

/// A Rust enum.
pub open spec fn rs_enum_text(o: SpecOmlObject) -> Seq<char> {
    "#[derive(Debug, Clone, PartialEq)]\n"@ + "pub enum "@ + o.name + " {\n"@ + rs_enum_variants(o.variables) + "}\n"@
}

/// Writes a Rust enum.
pub fn generate_enum(oml_object: &OmlObject, rs_file: &mut String)
    ensures
        final(rs_file)@ == old(rs_file)@ + rs_enum_text(oml_object@),
{
    let mut s = String::from_str("#[derive(Debug, Clone, PartialEq)]\n");
    s.append("pub enum ");
    s.append(oml_object.name.as_str());
    s.append(" {\n");
    let ghost vs = vars_view(oml_object.variables@);
    let mut body = String::new();
    let mut i: usize = 0;
    while i < oml_object.variables.len()
        invariant
            i <= oml_object.variables.len(),
            vs == vars_view(oml_object.variables@),
            body@ == rs_enum_variants(vs.take(i as int)),
        decreases oml_object.variables.len() - i,
    {
        assert(vs.take(i + 1).drop_last() == vs.take(i as int));
        let name = capitalise(oml_object.variables[i].name.as_str());
        let mut l = String::from_str("\t");
        l.append(name.as_str());
        l.append(",\n");
        body.append(l.as_str());
        i += 1;
    }
    assert(vs.take(oml_object.variables.len() as int) == vs);
    s.append(body.as_str());
    s.append("}\n");
    rs_file.append(s.as_str());
}

/// The visibility of a Rust item: `pub`, `pub(crate)` or nothing.
pub open spec fn rs_visibility(vis: VariableVisibility) -> Seq<char> {
    match vis {
        VariableVisibility::PUBLIC => "pub "@,
        VariableVisibility::PROTECTED => "pub(crate) "@,
        VariableVisibility::PRIVATE => Seq::empty(),
    }
}

fn visibility_text(vis: VariableVisibility) -> (r: String)
    ensures
        r@ == rs_visibility(vis),
{
    match vis {
        VariableVisibility::PUBLIC => String::from_str("pub "),
        VariableVisibility::PROTECTED => String::from_str("pub(crate) "),
        VariableVisibility::PRIVATE => String::new(),
    }
}

/// A struct field.
pub open spec fn rs_field(v: SpecVariable) -> Seq<char> {
    "\t"@ + rs_visibility(v.visibility) + v.name + ": "@ + rs_type_annotation(v.var_type, v.array_kind, v.is_optional())
        + ",\n"@
}

/// Writes a single struct field.
pub fn write_field(var: &Variable, rs_file: &mut String)
    ensures
        final(rs_file)@ == old(rs_file)@ + rs_field(var@),
{
    let mut s = String::from_str("\t");
    let vis = visibility_text(var.visibility);
    s.append(vis.as_str());
    let t = type_annotation(var.var_type.as_str(), &var.array_kind, var.has(VariableModifier::OPTIONAL));
    s.append(var.name.as_str());
    s.append(": ");
    s.append(t.as_str());
    s.append(",\n");
    rs_file.append(s.as_str());
}

/// A static variable as an associated item: a `const` where it is `const`
/// without `mut`, otherwise a `static mut` after a warning comment; the
/// name in uppercase.
pub open spec fn rs_associated_const(v: SpecVariable) -> Seq<char> {
    let t = rs_type_annotation(v.var_type, v.array_kind, v.is_optional());
    if v.is_readonly() {
        "\t"@ + rs_visibility(v.visibility) + "const "@ + str_upper(v.name) + ": "@ + t + " = todo!();\n"@
    } else {
        "\t// SAFETY: mutable static \u{2014} initialise before use\n"@
            + "\t"@ + rs_visibility(v.visibility) + "static mut "@ + str_upper(v.name) + ": "@ + t + " = todo!();\n"@
    }
}

/// Writes a static variable as an associated item.
pub fn write_associated_const(var: &Variable, rs_file: &mut String)
    ensures
        final(rs_file)@ == old(rs_file)@ + rs_associated_const(var@),
{
    let vis = visibility_text(var.visibility);
    let t = type_annotation(var.var_type.as_str(), &var.array_kind, var.has(VariableModifier::OPTIONAL));
    let upper = to_uppercase(var.name.as_str());
    if var.has(VariableModifier::CONST) && !var.has(VariableModifier::MUT) {
        let mut s = String::from_str("\t");
        s.append(vis.as_str());
        s.append("const ");
        s.append(upper.as_str());
        s.append(": ");
        s.append(t.as_str());
        s.append(" = todo!();\n");
        rs_file.append(s.as_str());
    } else {
        let mut s = String::from_str("\t// SAFETY: mutable static \u{2014} initialise before use\n");
        s.append("\t");
        s.append(vis.as_str());
        s.append("static mut ");
        s.append(upper.as_str());
        s.append(": ");
        s.append(t.as_str());
        s.append(" = todo!();\n");
        rs_file.append(s.as_str());
    }
}

/// The fields, in order.
pub open spec fn rs_fields(vars: Seq<SpecVariable>) -> Seq<char>
    decreases vars.len(),
{
    if vars.len() == 0 { Seq::empty() } else { rs_fields(vars.drop_last()) + rs_field(vars.last()) }
}

/// The associated items, in order.
pub open spec fn rs_associated_consts(vars: Seq<SpecVariable>) -> Seq<char>
    decreases vars.len(),
{
    if vars.len() == 0 { Seq::empty() } else { rs_associated_consts(vars.drop_last()) + rs_associated_const(vars.last()) }
}

/// A Rust struct of the non-static variables, then an `impl` block with the
/// static ones where there are any.
pub open spec fn rs_struct_text(o: SpecOmlObject) -> Seq<char> {
    let statics = pick(o.variables, Pick::Static);
    "#[derive(Debug, Clone)]\n"@ + "pub struct "@ + o.name + " {\n"@ + rs_fields(pick(o.variables, Pick::Instance)) + "}\n"@
        + (if statics.len() == 0 {
            Seq::<char>::empty()
        } else {
            "\n"@ + "impl "@ + o.name + " {\n"@ + rs_associated_consts(statics) + "}\n"@
        })
}

/// Writes a Rust struct and, for its static variables, an `impl` block.
pub fn generate_struct(oml_object: &OmlObject, rs_file: &mut String)
    ensures
        final(rs_file)@ == old(rs_file)@ + rs_struct_text(oml_object@),
{
    let all = all_refs(&oml_object.variables);
    let static_vars = pick_refs(&all, Pick::Static);
    let field_vars = pick_refs(&all, Pick::Instance);
    let mut s = String::from_str("#[derive(Debug, Clone)]\n");
    s.append("pub struct ");
    s.append(oml_object.name.as_str());
    s.append(" {\n");
    let ghost fv = refs_view(field_vars@);
    let mut fields = String::new();
    let mut i: usize = 0;
    while i < field_vars.len()
        invariant
            i <= field_vars.len(),
            fv == refs_view(field_vars@),
            fields@ == rs_fields(fv.take(i as int)),
        decreases field_vars.len() - i,
    {
        assert(fv.take(i + 1).drop_last() == fv.take(i as int));
        write_field(field_vars[i], &mut fields);
        i += 1;
    }
    assert(fv.take(field_vars.len() as int) == fv);
    s.append(fields.as_str());
    s.append("}\n");
    let mut imp = String::new();
    if static_vars.len() > 0 {
        imp.append("\n");
        imp.append("impl ");
        imp.append(oml_object.name.as_str());
        imp.append(" {\n");
        let ghost sv = refs_view(static_vars@);
        let mut consts = String::new();
        let mut k: usize = 0;
        while k < static_vars.len()
            invariant
                k <= static_vars.len(),
                sv == refs_view(static_vars@),
                consts@ == rs_associated_consts(sv.take(k as int)),
            decreases static_vars.len() - k,
        {
            assert(sv.take(k + 1).drop_last() == sv.take(k as int));
            write_associated_const(static_vars[k], &mut consts);
            k += 1;
        }
        assert(sv.take(static_vars.len() as int) == sv);
        imp.append(consts.as_str());
        imp.append("}\n");
    }
    s.append(imp.as_str());
    rs_file.append(s.as_str());
}

/// The Rust text of one object.
pub open spec fn rs_object_text(o: SpecOmlObject) -> Seq<char> {
    if o.oml_type == ObjectType::ENUM { rs_enum_text(o) } else { rs_struct_text(o) }
}

/// The objects one after another, a blank line between two consecutive ones.
pub open spec fn rs_objects_text(objs: Seq<SpecOmlObject>, total: nat) -> Seq<char>
    decreases objs.len(),
{
    if objs.len() == 0 {
        Seq::empty()
    } else {
        rs_objects_text(objs.drop_last(), total) + rs_object_text(objs.last())
            + (if objs.len() < total { "\n"@ } else { Seq::<char>::empty() })
    }
}

/// The Rust file generated for `objs`; an error where some object is `UNDECIDED`.
pub open spec fn rs_file(objs: Seq<SpecOmlObject>, file_name: Seq<char>) -> Result<Seq<char>, GenerateError> {
    if has_undecided(objs) {
        Err(GenerateError::UndecidedForCode)
    } else {
        Ok("// This file has been generated from "@ + file_name + ".oml\n"@ + "\n"@ + "#[allow(dead_code)]\n"@ + "\n"@
            + rs_objects_text(objs, objs.len()))
    }
}

impl Generate for RustGenerator {
    open spec fn spec_generate(&self, objs: Seq<SpecOmlObject>, file_name: Seq<char>) -> Result<Seq<char>, GenerateError> {
        rs_file(objs, file_name)
    }

    open spec fn spec_extension(&self) -> Seq<char> {
        "rs"@
    }

    fn generate(&self, oml_objects: &[OmlObject], file_name: &str) -> (r: Result<String, GenerateError>) {
        let ghost os = objects_view(oml_objects@);
        let mut rs_file = String::from_str("// This file has been generated from ");
        rs_file.append(file_name);
        rs_file.append(".oml\n");
        rs_file.append("\n");
        rs_file.append("#[allow(dead_code)]\n");
        rs_file.append("\n");
        let n = oml_objects.len();
        let mut objects = String::new();
        let mut i: usize = 0;
        while i < n
            invariant
                i <= n,
                n == oml_objects.len(),
                os == objects_view(oml_objects@),
                objects@ == rs_objects_text(os.take(i as int), n as nat),
                forall|k: int| 0 <= k < i ==> os[k].oml_type != ObjectType::UNDECIDED,
            decreases n - i,
        {
            assert(os.take(i + 1).drop_last() == os.take(i as int));
            let obj = &oml_objects[i];
            assert(os[i as int] == obj@);
            let mut one = String::new();
            match obj.oml_type {
                ObjectType::ENUM => generate_enum(obj, &mut one),
                ObjectType::CLASS | ObjectType::STRUCT => generate_struct(obj, &mut one),
                ObjectType::UNDECIDED => {
                    return Err(GenerateError::UndecidedForCode);
                },
            }
            if i < n - 1 {
                one.append("\n");
            }
            objects.append(one.as_str());
            i += 1;
        }
        assert(os.take(n as int) == os);
        rs_file.append(objects.as_str());
        Ok(rs_file)
    }

    fn extension(&self) -> (r: &str) {
        "rs"
    }
}

} // verus!
