use vstd::prelude::*;
use crate::oml_object::{
    ArrayKind, ObjectType, OmlObject, Pick, SpecOmlObject, SpecVariable, Variable, VariableModifier,
    VariableVisibility, all_refs, concat_refs, objects_view, pick, pick_refs, refs_view, vars_view,
};
use crate::generate::{Generate, GenerateError, has_undecided};
use crate::text::{decimal, eq_str, push_decimal, str_upper, to_uppercase};

verus! {

/// Generates TypeScript classes and enums from OML objects.
pub struct TypescriptGenerator;

/// The TypeScript type of an OML type name: every number type becomes `number`.
pub open spec fn ts_type(t: Seq<char>) -> Seq<char> {
    if t == "int8"@ || t == "int16"@ || t == "int32"@ || t == "int64"@ || t == "uint8"@ || t == "uint16"@
        || t == "uint32"@ || t == "uint64"@ || t == "float"@ || t == "double"@ {
        "number"@
    } else if t == "bool"@ {
        "boolean"@
    } else if t == "string"@ || t == "char"@ {
        "string"@
    } else {
        t
    }
}

/// Converts an OML type name to a TypeScript type.
pub fn convert_type(var_type: &str) -> (r: String)
    ensures
        r@ == ts_type(var_type@),
{
    if eq_str(var_type, "int8") || eq_str(var_type, "int16") || eq_str(var_type, "int32") || eq_str(var_type, "int64")
        || eq_str(var_type, "uint8") || eq_str(var_type, "uint16") || eq_str(var_type, "uint32")
        || eq_str(var_type, "uint64") || eq_str(var_type, "float") || eq_str(var_type, "double") {
        String::from_str("number")
    } else if eq_str(var_type, "bool") {
        String::from_str("boolean")
    } else if eq_str(var_type, "string") || eq_str(var_type, "char") {
        String::from_str("string")
    } else {
        String::from_str(var_type)
    }
}

/// The TypeScript type of a value of OML type `t` held as `k`.
pub open spec fn ts_type_annotation(t: Seq<char>, k: ArrayKind) -> Seq<char> {
    match k {
        ArrayKind::Scalar => ts_type(t),
        ArrayKind::Static(n) => ts_type(t) + "[] /* ["@ + decimal(n as nat) + "] */"@,
        ArrayKind::Dynamic => ts_type(t) + "[]"@,
    }
}

/// Converts an OML type and array kind to a TypeScript type.
pub fn type_annotation(var_type: &str, array_kind: &ArrayKind) -> (r: String)
    ensures
        r@ == ts_type_annotation(var_type@, *array_kind),
{
    let base = convert_type(var_type);
    match array_kind {
        ArrayKind::Scalar => base,
        ArrayKind::Static(n) => {
            let mut r = String::from_str(base.as_str());
            r.append("[] /* [");
            push_decimal(&mut r, *n as u64);
            r.append("] */");
            r
        },
        ArrayKind::Dynamic => {
            let mut r = String::from_str(base.as_str());
            r.append("[]");
            r
        },
    }
}

/// The member lines of a TypeScript enum: `NAME = "NAME"`, commas between.
pub open spec fn ts_enum_variants(vars: Seq<SpecVariable>, total: nat) -> Seq<char>
    decreases vars.len(),
{
    if vars.len() == 0 {
        Seq::empty()
    } else {
        ts_enum_variants(vars.drop_last(), total) + "\t"@ + str_upper(vars.last().name) + " = \""@
            + str_upper(vars.last().name) + "\""@ + (if vars.len() == total { "\n"@ } else { ",\n"@ })
    }
}

/// A TypeScript string enum.
pub open spec fn ts_enum_text(o: SpecOmlObject) -> Seq<char> {
    "export enum "@ + o.name + " {\n"@ + ts_enum_variants(o.variables, o.variables.len()) + "}\n"@
}

/// Writes a TypeScript string enum.
pub fn generate_enum(oml_object: &OmlObject, ts_file: &mut String)
    ensures
        final(ts_file)@ == old(ts_file)@ + ts_enum_text(oml_object@),
{
    let mut s = String::from_str("export enum ");
    s.append(oml_object.name.as_str());
    s.append(" {\n");
    let ghost vs = vars_view(oml_object.variables@);
    let length = oml_object.variables.len();
    let mut body = String::new();
    let mut index: usize = 0;
    while index < length
        invariant
            index <= length,
            length == oml_object.variables.len(),
            vs == vars_view(oml_object.variables@),
            body@ == ts_enum_variants(vs.take(index as int), length as nat),
        decreases length - index,
    {
        assert(vs.take(index + 1).drop_last() == vs.take(index as int));
        let name = to_uppercase(oml_object.variables[index].name.as_str());
        let mut l = String::from_str("\t");
        l.append(name.as_str());
        l.append(" = \"");
        l.append(name.as_str());
        l.append("\"");
        if index == length - 1 {
            l.append("\n");
        } else {
            l.append(",\n");
        }
        body.append(l.as_str());
        index += 1;
    }
    assert(vs.take(length as int) == vs);
    s.append(body.as_str());
    s.append("}\n");
    ts_file.append(s.as_str());
}

/// The visibility keyword of a TypeScript member.
pub open spec fn ts_visibility(vis: VariableVisibility) -> Seq<char> {
    match vis {
        VariableVisibility::PRIVATE => "private "@,
        VariableVisibility::PROTECTED => "protected "@,
        VariableVisibility::PUBLIC => "public "@,
    }
}

/// A field declaration; an optional field is `name?: T | null`.
pub open spec fn ts_field(v: SpecVariable) -> Seq<char> {
    "\t"@ + ts_visibility(v.visibility)
        + (if v.is_static() { "static "@ } else { Seq::<char>::empty() })
        + (if v.is_readonly() { "readonly "@ } else { Seq::<char>::empty() })
        + (if v.is_optional() {
            v.name + "?: "@ + ts_type_annotation(v.var_type, v.array_kind) + " | null;\n"@
        } else {
            v.name + ": "@ + ts_type_annotation(v.var_type, v.array_kind) + ";\n"@
        })
}

/// Writes a single class field declaration.
pub fn write_field(var: &Variable, ts_file: &mut String)
    ensures
        final(ts_file)@ == old(ts_file)@ + ts_field(var@),
{
    let mut s = String::from_str("\t");
    match var.visibility {
        VariableVisibility::PRIVATE => s.append("private "),
        VariableVisibility::PROTECTED => s.append("protected "),
        VariableVisibility::PUBLIC => s.append("public "),
    }
    let mut st = String::new();
    if var.has(VariableModifier::STATIC) {
        st.append("static ");
    }
    s.append(st.as_str());
    let mut ro = String::new();
    if var.has(VariableModifier::CONST) && !var.has(VariableModifier::MUT) {
        ro.append("readonly ");
    }
    s.append(ro.as_str());
    let t = type_annotation(var.var_type.as_str(), &var.array_kind);
    let mut rest = String::from_str(var.name.as_str());
    if var.has(VariableModifier::OPTIONAL) {
        rest.append("?: ");
        rest.append(t.as_str());
        rest.append(" | null;\n");
    } else {
        rest.append(": ");
        rest.append(t.as_str());
        rest.append(";\n");
    }
    s.append(rest.as_str());
    ts_file.append(s.as_str());
}

/// The field declarations, in order.
pub open spec fn ts_fields(vars: Seq<SpecVariable>) -> Seq<char>
    decreases vars.len(),
{
    if vars.len() == 0 { Seq::empty() } else { ts_fields(vars.drop_last()) + ts_field(vars.last()) }
}

/// The constructor parameters, `, ` between; an optional one defaults to null.
pub open spec fn ts_ctor_params(items: Seq<SpecVariable>, total: nat) -> Seq<char>
    decreases items.len(),
{
    if items.len() == 0 {
        Seq::empty()
    } else {
        ts_ctor_params(items.drop_last(), total) + items.last().name + ": "@
            + ts_type_annotation(items.last().var_type, items.last().array_kind)
            + (if items.last().is_optional() { " | null = null"@ } else { Seq::<char>::empty() })
            + (if items.len() < total { ", "@ } else { Seq::<char>::empty() })
    }
}

/// The assignments in the constructor body.
pub open spec fn ts_ctor_assigns(items: Seq<SpecVariable>) -> Seq<char>
    decreases items.len(),
{
    if items.len() == 0 {
        Seq::empty()
    } else {
        ts_ctor_assigns(items.drop_last()) + "\t\tthis."@ + items.last().name + " = "@ + items.last().name + ";\n"@
    }
}

/// The constructor over the non-static fields, required ones first; nothing
/// where every field is static.
pub open spec fn ts_constructor(vars: Seq<SpecVariable>) -> Seq<char> {
    let inst = pick(vars, Pick::Instance);
    let ord = pick(inst, Pick::Required) + pick(inst, Pick::Optional);
    if inst.len() == 0 {
        Seq::empty()
    } else {
        "\tconstructor("@ + ts_ctor_params(ord, ord.len()) + ") {\n"@ + ts_ctor_assigns(ord) + "\t}\n"@
    }
}

/// A TypeScript class: fields, then the constructor.
pub open spec fn ts_class_text(o: SpecOmlObject) -> Seq<char> {
    if o.variables.len() == 0 {
        "export class "@ + o.name + " {\n"@ + "}\n"@
    } else {
        "export class "@ + o.name + " {\n"@ + ts_fields(o.variables) + "\n"@ + ts_constructor(o.variables) + "}\n"@
    }
}

fn write_constructor(variables: &Vec<Variable>) -> (r: String)
    ensures
        r@ == ts_constructor(vars_view(variables@)),
{
    let all = all_refs(variables);
    let inst = pick_refs(&all, Pick::Instance);
    if inst.len() == 0 {
        return String::new();
    }
    let req = pick_refs(&inst, Pick::Required);
    let opt = pick_refs(&inst, Pick::Optional);
    let ord = concat_refs(&req, &opt);
    let ghost items = refs_view(ord@);
    let total = ord.len();
    let mut s = String::from_str("\tconstructor(");
    let mut params = String::new();
    let mut index: usize = 0;
    while index < total
        invariant
            index <= total,
            total == ord.len(),
            items == refs_view(ord@),
            params@ == ts_ctor_params(items.take(index as int), total as nat),
        decreases total - index,
    {
        assert(items.take(index + 1).drop_last() == items.take(index as int));
        let var = ord[index];
        let t = type_annotation(var.var_type.as_str(), &var.array_kind);
        let mut l = String::from_str(var.name.as_str());
        l.append(": ");
        l.append(t.as_str());
        let mut o = String::new();
        if var.has(VariableModifier::OPTIONAL) {
            o.append(" | null = null");
        }
        l.append(o.as_str());
        index += 1;
        let mut c = String::new();
        if index < total {
            c.append(", ");
        }
        l.append(c.as_str());
        params.append(l.as_str());
    }
    assert(items.take(total as int) == items);
    s.append(params.as_str());
    s.append(") {\n");
    let mut assigns = String::new();
    let mut k: usize = 0;
    while k < total
        invariant
            k <= total,
            total == ord.len(),
            items == refs_view(ord@),
            assigns@ == ts_ctor_assigns(items.take(k as int)),
        decreases total - k,
    {
        assert(items.take(k + 1).drop_last() == items.take(k as int));
        let var = ord[k];
        let mut l = String::from_str("\t\tthis.");
        l.append(var.name.as_str());
        l.append(" = ");
        l.append(var.name.as_str());
        l.append(";\n");
        assigns.append(l.as_str());
        k += 1;
    }
    assert(items.take(total as int) == items);
    s.append(assigns.as_str());
    s.append("\t}\n");
    s
}

/// Writes a TypeScript class.
pub fn generate_class(oml_object: &OmlObject, ts_file: &mut String)
    ensures
        final(ts_file)@ == old(ts_file)@ + ts_class_text(oml_object@),
{
    let mut s = String::from_str("export class ");
    s.append(oml_object.name.as_str());
    s.append(" {\n");
    if oml_object.variables.len() == 0 {
        s.append("}\n");
        ts_file.append(s.as_str());
        return;
    }
    let ghost vs = vars_view(oml_object.variables@);
    let mut fields = String::new();
    let mut i: usize = 0;
    while i < oml_object.variables.len()
        invariant
            i <= oml_object.variables.len(),
            vs == vars_view(oml_object.variables@),
            fields@ == ts_fields(vs.take(i as int)),
        decreases oml_object.variables.len() - i,
    {
        assert(vs.take(i + 1).drop_last() == vs.take(i as int));
        write_field(&oml_object.variables[i], &mut fields);
        i += 1;
    }
    assert(vs.take(oml_object.variables.len() as int) == vs);
    s.append(fields.as_str());
    s.append("\n");
    let ctor = write_constructor(&oml_object.variables);
    s.append(ctor.as_str());
    s.append("}\n");
    ts_file.append(s.as_str());
}

/// The text of one object in a TypeScript file.
pub open spec fn ts_object_text(o: SpecOmlObject) -> Seq<char> {
    if o.oml_type == ObjectType::ENUM { ts_enum_text(o) } else { ts_class_text(o) }
}

/// The objects one after another, a blank line between two consecutive ones.
pub open spec fn ts_objects_text(objs: Seq<SpecOmlObject>, total: nat) -> Seq<char>
    decreases objs.len(),
{
    if objs.len() == 0 {
        Seq::empty()
    } else {
        ts_objects_text(objs.drop_last(), total) + ts_object_text(objs.last())
            + (if objs.len() < total { "\n"@ } else { Seq::<char>::empty() })
    }
}

/// The TypeScript file generated for `objs`; an error where some object is
/// `UNDECIDED`.
pub open spec fn ts_file(objs: Seq<SpecOmlObject>, file_name: Seq<char>) -> Result<Seq<char>, GenerateError> {
    if has_undecided(objs) {
        Err(GenerateError::UndecidedForCode)
    } else {
        Ok("// This file has been generated from "@ + file_name + ".oml\n"@ + "\n"@ + ts_objects_text(objs, objs.len()))
    }
}

impl Generate for TypescriptGenerator {
    open spec fn spec_generate(&self, objs: Seq<SpecOmlObject>, file_name: Seq<char>) -> Result<Seq<char>, GenerateError> {
        ts_file(objs, file_name)
    }

    open spec fn spec_extension(&self) -> Seq<char> {
        "ts"@
    }

    fn generate(&self, oml_objects: &[OmlObject], file_name: &str) -> (r: Result<String, GenerateError>) {
        let ghost os = objects_view(oml_objects@);
        let mut ts_file = String::from_str("// This file has been generated from ");
        ts_file.append(file_name);
        ts_file.append(".oml\n");
        ts_file.append("\n");
        let n = oml_objects.len();
        let mut objects = String::new();
        let mut i: usize = 0;
        while i < n
            invariant
                i <= n,
                n == oml_objects.len(),
                os == objects_view(oml_objects@),
                objects@ == ts_objects_text(os.take(i as int), n as nat),
                forall|k: int| 0 <= k < i ==> os[k].oml_type != ObjectType::UNDECIDED,
            decreases n - i,
        {
            assert(os.take(i + 1).drop_last() == os.take(i as int));
            let obj = &oml_objects[i];
            assert(os[i as int] == obj@);
            let mut one = String::new();
            match obj.oml_type {
                ObjectType::ENUM => generate_enum(obj, &mut one),
                ObjectType::CLASS | ObjectType::STRUCT => generate_class(obj, &mut one),
                ObjectType::UNDECIDED => {
                    return Err(GenerateError::UndecidedForCode);
                },
            }
            if i < n - 1 {
                one.append("\n");
            }
            objects.append(one.as_str());
            i += 1;
        }
        assert(os.take(n as int) == os);
        ts_file.append(objects.as_str());
        Ok(ts_file)
    }

    fn extension(&self) -> (r: &str) {
        "ts"
    }
}

} // verus!
