use vstd::prelude::*;
use crate::oml_object::{
    ArrayKind, ObjectType, OmlObject, Pick, SpecOmlObject, SpecVariable, Variable,
    VariableModifier, VariableVisibility, all_refs, concat_refs, objects_view, pick, pick_refs,
    refs_view, vars_view,
};
use crate::generate::{Generate, GenerateError, has_undecided};
use crate::text::{capitalise, capitalised, decimal, eq_str, push_decimal, str_upper, strings_view, to_uppercase};

verus! {

/// Generates Java classes and enums from OML objects.
pub struct JavaGenerator;

/// The Java primitive type of an OML type name; unsigned types widen to the
/// next larger signed type.
pub open spec fn java_type(t: Seq<char>) -> Seq<char> {
    if t == "int8"@ { "byte"@ }
    else if t == "int16"@ { "short"@ }
    else if t == "int32"@ { "int"@ }
    else if t == "int64"@ { "long"@ }
    else if t == "uint8"@ { "short"@ }
    else if t == "uint16"@ { "int"@ }
    else if t == "uint32"@ { "long"@ }
    else if t == "uint64"@ { "long"@ }
    else if t == "float"@ { "float"@ }
    else if t == "double"@ { "double"@ }
    else if t == "bool"@ { "boolean"@ }
    else if t == "string"@ { "String"@ }
    else if t == "char"@ { "char"@ }
    else { t }
}

/// The Java boxed type of an OML type name, for use inside generics.
pub open spec fn java_boxed_type(t: Seq<char>) -> Seq<char> {
    if t == "int8"@ { "Byte"@ }
    else if t == "int16"@ { "Short"@ }
    else if t == "int32"@ { "Integer"@ }
    else if t == "int64"@ { "Long"@ }
    else if t == "uint8"@ { "Short"@ }
    else if t == "uint16"@ { "Integer"@ }
    else if t == "uint32"@ { "Long"@ }
    else if t == "uint64"@ { "Long"@ }
    else if t == "float"@ { "Float"@ }
    else if t == "double"@ { "Double"@ }
    else if t == "bool"@ { "Boolean"@ }
    else if t == "string"@ { "String"@ }
    else if t == "char"@ { "Character"@ }
    else { t }
}

/// Converts an OML type name to its Java primitive type.
pub fn convert_type(var_type: &str) -> (r: String)
    ensures
        r@ == java_type(var_type@),
{
    if eq_str(var_type, "int8") { String::from_str("byte") }
    else if eq_str(var_type, "int16") { String::from_str("short") }
    else if eq_str(var_type, "int32") { String::from_str("int") }
    else if eq_str(var_type, "int64") { String::from_str("long") }
    else if eq_str(var_type, "uint8") { String::from_str("short") }
    else if eq_str(var_type, "uint16") { String::from_str("int") }
    else if eq_str(var_type, "uint32") { String::from_str("long") }
    else if eq_str(var_type, "uint64") { String::from_str("long") }
    else if eq_str(var_type, "float") { String::from_str("float") }
    else if eq_str(var_type, "double") { String::from_str("double") }
    else if eq_str(var_type, "bool") { String::from_str("boolean") }
    else if eq_str(var_type, "string") { String::from_str("String") }
    else if eq_str(var_type, "char") { String::from_str("char") }
    else { String::from_str(var_type) }
}

/// Converts an OML type name to its Java boxed type.
pub fn boxed_type(var_type: &str) -> (r: String)
    ensures
        r@ == java_boxed_type(var_type@),
{
    if eq_str(var_type, "int8") { String::from_str("Byte") }
    else if eq_str(var_type, "int16") { String::from_str("Short") }
    else if eq_str(var_type, "int32") { String::from_str("Integer") }
    else if eq_str(var_type, "int64") { String::from_str("Long") }
    else if eq_str(var_type, "uint8") { String::from_str("Short") }
    else if eq_str(var_type, "uint16") { String::from_str("Integer") }
    else if eq_str(var_type, "uint32") { String::from_str("Long") }
    else if eq_str(var_type, "uint64") { String::from_str("Long") }
    else if eq_str(var_type, "float") { String::from_str("Float") }
    else if eq_str(var_type, "double") { String::from_str("Double") }
    else if eq_str(var_type, "bool") { String::from_str("Boolean") }
    else if eq_str(var_type, "string") { String::from_str("String") }
    else if eq_str(var_type, "char") { String::from_str("Character") }
    else { String::from_str(var_type) }
}

/// The Java type of a value of OML type `t` held as `k`: arrays keep their
/// size as a comment, lists become `List` of the boxed type.
pub open spec fn java_type_annotation(t: Seq<char>, k: ArrayKind) -> Seq<char> {
    match k {
        ArrayKind::Scalar => java_type(t),
        ArrayKind::Static(n) => java_type(t) + "[] /* ["@ + decimal(n as nat) + "] */"@,
        ArrayKind::Dynamic => "List<"@ + java_boxed_type(t) + ">"@,
    }
}

/// Converts an OML type and array kind to a Java type; optionality does not
/// change it.
pub fn type_annotation(var_type: &str, array_kind: &ArrayKind, _is_optional: bool) -> (r: String)
    ensures
        r@ == java_type_annotation(var_type@, *array_kind),
{
    match array_kind {
        ArrayKind::Scalar => convert_type(var_type),
        ArrayKind::Static(n) => {
            let base = convert_type(var_type);
            let mut r = String::from_str(base.as_str());
            r.append("[] /* [");
            push_decimal(&mut r, *n as u64);
            r.append("] */");
            r
        },
        ArrayKind::Dynamic => {
            let base = boxed_type(var_type);
            let mut r = String::from_str("List<");
            r.append(base.as_str());
            r.append(">");
            r
        },
    }
}

/// Whether some object other than an enum has a list member.
pub open spec fn java_needs_list(objs: Seq<SpecOmlObject>) -> bool {
    exists|i: int, j: int| 0 <= i < objs.len() && objs[i].oml_type != ObjectType::ENUM
        && 0 <= j < objs[i].variables.len() && objs[i].variables[j].array_kind == ArrayKind::Dynamic
}

/// The imports a Java file needs.
pub open spec fn java_imports(objs: Seq<SpecOmlObject>) -> Seq<Seq<char>> {
    if java_needs_list(objs) {
        seq!["import java.util.List;"@, "import java.util.ArrayList;"@]
    } else {
        Seq::empty()
    }
}

/// The imports the generated file needs: `List` and `ArrayList` where some
/// class has a list member.
pub fn collect_imports(oml_objects: &[OmlObject]) -> (r: Vec<String>)
    ensures
        strings_view(r@) == java_imports(objects_view(oml_objects@)),
{
    let ghost os = objects_view(oml_objects@);
    let mut needs_list = false;
    let mut i: usize = 0;
    while i < oml_objects.len()
        invariant
            i <= oml_objects.len(),
            os == objects_view(oml_objects@),
            !needs_list ==> forall|k: int, j: int| 0 <= k < i && os[k].oml_type != ObjectType::ENUM
                && 0 <= j < os[k].variables.len() ==> os[k].variables[j].array_kind != ArrayKind::Dynamic,
            needs_list ==> java_needs_list(os),
        decreases oml_objects.len() - i,
    {
        let obj = &oml_objects[i];
        assert(os[i as int] == obj@);
        if obj.oml_type != ObjectType::ENUM {
            let mut j: usize = 0;
            while j < obj.variables.len()
                invariant
                    j <= obj.variables.len(),
                    os == objects_view(oml_objects@),
                    i < oml_objects.len(),
                    os[i as int] == obj@,
                    obj.oml_type != ObjectType::ENUM,
                    !needs_list ==> forall|l: int| 0 <= l < j ==> os[i as int].variables[l].array_kind != ArrayKind::Dynamic,
                    !needs_list ==> forall|k: int, l: int| 0 <= k < i && os[k].oml_type != ObjectType::ENUM
                        && 0 <= l < os[k].variables.len() ==> os[k].variables[l].array_kind != ArrayKind::Dynamic,
                    needs_list ==> java_needs_list(os),
                decreases obj.variables.len() - j,
            {
                if obj.variables[j].array_kind == ArrayKind::Dynamic {
                    assert(os[i as int].variables[j as int] == obj.variables@[j as int]@);
                    needs_list = true;
                }
                j += 1;
            }
        }
        i += 1;
    }
    let mut imports: Vec<String> = Vec::new();
    if needs_list {
        imports.push(String::from_str("import java.util.List;"));
        imports.push(String::from_str("import java.util.ArrayList;"));
        assert(strings_view(imports@) =~= java_imports(os));
    } else {
        assert(strings_view(imports@) =~= java_imports(os));
    }
    imports
}

/// The variant lines of a Java enum: uppercased names, commas between, a
/// semicolon after the last.
pub open spec fn java_enum_variants(vars: Seq<SpecVariable>, total: nat) -> Seq<char>
    decreases vars.len(),
{
    if vars.len() == 0 {
        Seq::empty()
    } else {
        java_enum_variants(vars.drop_last(), total) + "\t"@ + str_upper(vars.last().name)
            + (if vars.len() == total { ";\n"@ } else { ",\n"@ })
    }
}

/// A Java enum.
pub open spec fn java_enum_text(o: SpecOmlObject) -> Seq<char> {
    "public enum "@ + o.name + " {\n"@ + java_enum_variants(o.variables, o.variables.len()) + "}\n"@
}

/// Writes a Java enum.
pub fn generate_enum(oml_object: &OmlObject, java_file: &mut String)
    ensures
        final(java_file)@ == old(java_file)@ + java_enum_text(oml_object@),
{
    let mut s = String::from_str("public enum ");
    s.append(oml_object.name.as_str());
    s.append(" {\n");
    let ghost vs = vars_view(oml_object.variables@);
    let length = oml_object.variables.len();
    let mut body = String::new();
    let mut index: usize = 0;
    while index < length
        invariant
            index <= length,
            length == oml_object.variables.len(),
            vs == vars_view(oml_object.variables@),
            body@ == java_enum_variants(vs.take(index as int), length as nat),
        decreases length - index,
    {
        assert(vs.take(index + 1).drop_last() == vs.take(index as int));
        let upper = to_uppercase(oml_object.variables[index].name.as_str());
        let mut l = String::from_str("\t");
        l.append(upper.as_str());
        if index == length - 1 {
            l.append(";\n");
        } else {
            l.append(",\n");
        }
        body.append(l.as_str());
        index += 1;
    }
    assert(vs.take(length as int) == vs);
    s.append(body.as_str());
    s.append("}\n");
    java_file.append(s.as_str());
}

/// The visibility keyword of a Java member.
pub open spec fn java_visibility(vis: VariableVisibility) -> Seq<char> {
    match vis {
        VariableVisibility::PRIVATE => "private "@,
        VariableVisibility::PROTECTED => "protected "@,
        VariableVisibility::PUBLIC => "public "@,
    }
}

/// A field declaration: visibility, `static`, `final` for a `const` not
/// overridden by `mut`, type, name.
pub open spec fn java_field(v: SpecVariable) -> Seq<char> {
    "\t"@ + java_visibility(v.visibility)
        + (if v.is_static() { "static "@ } else { Seq::<char>::empty() })
        + (if v.is_readonly() { "final "@ } else { Seq::<char>::empty() })
        + java_type_annotation(v.var_type, v.array_kind) + " "@ + v.name + ";\n"@
}

/// Writes a single class field declaration.
pub fn write_field(var: &Variable, java_file: &mut String)
    ensures
        final(java_file)@ == old(java_file)@ + java_field(var@),
{
    let mut s = String::from_str("\t");
    match var.visibility {
        VariableVisibility::PRIVATE => s.append("private "),
        VariableVisibility::PROTECTED => s.append("protected "),
        VariableVisibility::PUBLIC => s.append("public "),
    }
    let mut st = String::new();
    if var.has(VariableModifier::STATIC) {
        st.append("static ");
    }
    s.append(st.as_str());
    let mut fi = String::new();
    if var.has(VariableModifier::CONST) && !var.has(VariableModifier::MUT) {
        fi.append("final ");
    }
    s.append(fi.as_str());
    let t = type_annotation(var.var_type.as_str(), &var.array_kind, var.has(VariableModifier::OPTIONAL));
    s.append(t.as_str());
    s.append(" ");
    s.append(var.name.as_str());
    s.append(";\n");
    java_file.append(s.as_str());
}

/// The getter of a field.
pub open spec fn java_getter(v: SpecVariable) -> Seq<char> {
    "\tpublic "@ + java_type_annotation(v.var_type, v.array_kind) + " "@ + "get"@ + capitalised(v.name)
        + "() { return "@ + v.name + "; }\n"@
}

/// The setter of a field.
pub open spec fn java_setter(v: SpecVariable) -> Seq<char> {
    "\tpublic void "@ + "set"@ + capitalised(v.name) + "("@ + java_type_annotation(v.var_type, v.array_kind)
        + " value) { this."@ + v.name + " = value; }\n"@
}

/// Writes the getter of a field.
pub fn write_getter(var: &Variable, java_file: &mut String)
    ensures
        final(java_file)@ == old(java_file)@ + java_getter(var@),
{
    let t = type_annotation(var.var_type.as_str(), &var.array_kind, var.has(VariableModifier::OPTIONAL));
    let c = capitalise(var.name.as_str());
    let mut s = String::from_str("\tpublic ");
    s.append(t.as_str());
    s.append(" ");
    s.append("get");
    s.append(c.as_str());
    s.append("() { return ");
    s.append(var.name.as_str());
    s.append("; }\n");
    java_file.append(s.as_str());
}

/// Writes the setter of a field.
pub fn write_setter(var: &Variable, java_file: &mut String)
    ensures
        final(java_file)@ == old(java_file)@ + java_setter(var@),
{
    let t = type_annotation(var.var_type.as_str(), &var.array_kind, var.has(VariableModifier::OPTIONAL));
    let c = capitalise(var.name.as_str());
    let mut s = String::from_str("\tpublic void ");
    s.append("set");
    s.append(c.as_str());
    s.append("(");
    s.append(t.as_str());
    s.append(" value) { this.");
    s.append(var.name.as_str());
    s.append(" = value; }\n");
    java_file.append(s.as_str());
}

/// The field declarations, in order.
pub open spec fn java_fields(vars: Seq<SpecVariable>) -> Seq<char>
    decreases vars.len(),
{
    if vars.len() == 0 { Seq::empty() } else { java_fields(vars.drop_last()) + java_field(vars.last()) }
}

/// The constructor parameters, one per line, commas between.
pub open spec fn java_ctor_params(items: Seq<SpecVariable>, total: nat) -> Seq<char>
    decreases items.len(),
{
    if items.len() == 0 {
        Seq::empty()
    } else {
        java_ctor_params(items.drop_last(), total) + "\t\t"@
            + java_type_annotation(items.last().var_type, items.last().array_kind) + " "@ + items.last().name
            + (if items.len() < total { ",\n"@ } else { "\n"@ })
    }
}

/// The assignments in the constructor body.
pub open spec fn java_ctor_assigns(items: Seq<SpecVariable>) -> Seq<char>
    decreases items.len(),
{
    if items.len() == 0 {
        Seq::empty()
    } else {
        java_ctor_assigns(items.drop_last()) + "\t\tthis."@ + items.last().name + " = "@ + items.last().name + ";\n"@
    }
}

/// The constructor over the non-static fields, required ones first: nothing
/// where every field is static.
pub open spec fn java_constructor(name: Seq<char>, vars: Seq<SpecVariable>) -> Seq<char> {
    let inst = pick(vars, Pick::Instance);
    let ord = pick(inst, Pick::Required) + pick(inst, Pick::Optional);
    if inst.len() == 0 {
        Seq::empty()
    } else {
        "\tpublic "@ + name + "(\n"@ + java_ctor_params(ord, ord.len()) + "\t) {\n"@ + java_ctor_assigns(ord) + "\t}\n"@
    }
}

/// Getter and, unless the field is `const` without `mut`, setter of each
/// non-static field.
pub open spec fn java_accessor_list(vars: Seq<SpecVariable>) -> Seq<char>
    decreases vars.len(),
{
    if vars.len() == 0 {
        Seq::empty()
    } else {
        java_accessor_list(vars.drop_last())
            + (if vars.last().is_static() {
                Seq::<char>::empty()
            } else {
                java_getter(vars.last()) + (if !vars.last().has(VariableModifier::CONST) || vars.last().has(VariableModifier::MUT) {
                    java_setter(vars.last())
                } else {
                    Seq::<char>::empty()
                })
            })
    }
}

/// The accessors, after a blank line; nothing where every field is static.
pub open spec fn java_accessors(vars: Seq<SpecVariable>) -> Seq<char> {
    if pick(vars, Pick::Instance).len() == 0 { Seq::empty() } else { "\n"@ + java_accessor_list(vars) }
}

/// A Java class: fields, constructor, accessors.
pub open spec fn java_class_text(o: SpecOmlObject) -> Seq<char> {
    if o.variables.len() == 0 {
        "public class "@ + o.name + " {\n"@ + "}\n"@
    } else {
        "public class "@ + o.name + " {\n"@ + java_fields(o.variables) + "\n"@
            + java_constructor(o.name, o.variables) + java_accessors(o.variables) + "}\n"@
    }
}

fn write_constructor(name: &str, variables: &Vec<Variable>) -> (r: String)
    ensures
        r@ == java_constructor(name@, vars_view(variables@)),
{
    let all = all_refs(variables);
    let inst = pick_refs(&all, Pick::Instance);
    if inst.len() == 0 {
        return String::new();
    }
    let req = pick_refs(&inst, Pick::Required);
    let opt = pick_refs(&inst, Pick::Optional);
    let ord = concat_refs(&req, &opt);
    let ghost items = refs_view(ord@);
    let total = ord.len();
    let mut s = String::from_str("\tpublic ");
    s.append(name);
    s.append("(\n");
    let mut params = String::new();
    let mut index: usize = 0;
    while index < total
        invariant
            index <= total,
            total == ord.len(),
            items == refs_view(ord@),
            params@ == java_ctor_params(items.take(index as int), total as nat),
        decreases total - index,
    {
        assert(items.take(index + 1).drop_last() == items.take(index as int));
        let var = ord[index];
        let t = type_annotation(var.var_type.as_str(), &var.array_kind, false);
        let mut l = String::from_str("\t\t");
        l.append(t.as_str());
        l.append(" ");
        l.append(var.name.as_str());
        index += 1;
        if index < total {
            l.append(",\n");
        } else {
            l.append("\n");
        }
        params.append(l.as_str());
    }
    assert(items.take(total as int) == items);
    s.append(params.as_str());
    s.append("\t) {\n");
    let mut assigns = String::new();
    let mut k: usize = 0;
    while k < total
        invariant
            k <= total,
            total == ord.len(),
            items == refs_view(ord@),
            assigns@ == java_ctor_assigns(items.take(k as int)),
        decreases total - k,
    {
        assert(items.take(k + 1).drop_last() == items.take(k as int));
        let var = ord[k];
        let mut l = String::from_str("\t\tthis.");
        l.append(var.name.as_str());
        l.append(" = ");
        l.append(var.name.as_str());
        l.append(";\n");
        assigns.append(l.as_str());
        k += 1;
    }
    assert(items.take(total as int) == items);
    s.append(assigns.as_str());
    s.append("\t}\n");
    s
}

fn write_accessors(variables: &Vec<Variable>) -> (r: String)
    ensures
        r@ == java_accessors(vars_view(variables@)),
{
    let ghost vs = vars_view(variables@);
    let all = all_refs(variables);
    let inst = pick_refs(&all, Pick::Instance);
    if inst.len() == 0 {
        return String::new();
    }
    let mut list = String::new();
    let mut i: usize = 0;
    while i < variables.len()
        invariant
            i <= variables.len(),
            vs == vars_view(variables@),
            list@ == java_accessor_list(vs.take(i as int)),
        decreases variables.len() - i,
    {
        assert(vs.take(i + 1).drop_last() == vs.take(i as int));
        let var = &variables[i];
        let mut one = String::new();
        if !var.has(VariableModifier::STATIC) {
            write_getter(var, &mut one);
            let mut set = String::new();
            if !var.has(VariableModifier::CONST) || var.has(VariableModifier::MUT) {
                write_setter(var, &mut set);
            }
            one.append(set.as_str());
        }
        list.append(one.as_str());
        i += 1;
    }
    assert(vs.take(variables.len() as int) == vs);
    let mut s = String::from_str("\n");
    s.append(list.as_str());
    s
}

/// Writes a Java class.
pub fn generate_class(oml_object: &OmlObject, java_file: &mut String)
    ensures
        final(java_file)@ == old(java_file)@ + java_class_text(oml_object@),
{
    let mut s = String::from_str("public class ");
    s.append(oml_object.name.as_str());
    s.append(" {\n");
    if oml_object.variables.len() == 0 {
        s.append("}\n");
        java_file.append(s.as_str());
        return;
    }
    let ghost vs = vars_view(oml_object.variables@);
    let mut fields = String::new();
    let mut i: usize = 0;
    while i < oml_object.variables.len()
        invariant
            i <= oml_object.variables.len(),
            vs == vars_view(oml_object.variables@),
            fields@ == java_fields(vs.take(i as int)),
        decreases oml_object.variables.len() - i,
    {
        assert(vs.take(i + 1).drop_last() == vs.take(i as int));
        write_field(&oml_object.variables[i], &mut fields);
        i += 1;
    }
    assert(vs.take(oml_object.variables.len() as int) == vs);
    s.append(fields.as_str());
    s.append("\n");
    let ctor = write_constructor(oml_object.name.as_str(), &oml_object.variables);
    s.append(ctor.as_str());
    let acc = write_accessors(&oml_object.variables);
    s.append(acc.as_str());
    s.append("}\n");
    java_file.append(s.as_str());
}

/// The text of one object in a Java file.
pub open spec fn java_object_text(o: SpecOmlObject) -> Seq<char> {
    if o.oml_type == ObjectType::ENUM { java_enum_text(o) } else { java_class_text(o) }
}

/// The objects one after another, a blank line between two consecutive ones.
pub open spec fn java_objects_text(objs: Seq<SpecOmlObject>, total: nat) -> Seq<char>
    decreases objs.len(),
{
    if objs.len() == 0 {
        Seq::empty()
    } else {
        java_objects_text(objs.drop_last(), total) + java_object_text(objs.last())
            + (if objs.len() < total { "\n"@ } else { Seq::<char>::empty() })
    }
}

/// The import lines followed by a blank line; nothing where none is needed.
pub open spec fn java_import_block(objs: Seq<SpecOmlObject>) -> Seq<char> {
    if java_needs_list(objs) {
        "import java.util.List;"@ + "\n"@ + "import java.util.ArrayList;"@ + "\n"@ + "\n"@
    } else {
        Seq::empty()
    }
}

/// The Java file generated for `objs`; an error where some object is `UNDECIDED`.
pub open spec fn java_file(objs: Seq<SpecOmlObject>, file_name: Seq<char>) -> Result<Seq<char>, GenerateError> {
    if has_undecided(objs) {
        Err(GenerateError::UndecidedForCode)
    } else {
        Ok("// This file has been generated from "@ + file_name + ".oml\n"@ + "\n"@
            + java_import_block(objs) + java_objects_text(objs, objs.len()))
    }
}

impl Generate for JavaGenerator {
    open spec fn spec_generate(&self, objs: Seq<SpecOmlObject>, file_name: Seq<char>) -> Result<Seq<char>, GenerateError> {
        java_file(objs, file_name)
    }

    open spec fn spec_extension(&self) -> Seq<char> {
        "java"@
    }

    fn generate(&self, oml_objects: &[OmlObject], file_name: &str) -> (r: Result<String, GenerateError>) {
        let ghost os = objects_view(oml_objects@);
        let mut java_file = String::from_str("// This file has been generated from ");
        java_file.append(file_name);
        java_file.append(".oml\n");
        java_file.append("\n");
        let imports = collect_imports(oml_objects);
        let mut block = String::new();
        proof {
            if !java_needs_list(os) {
                assert(java_imports(os).len() == 0);
            } else {
                assert(java_imports(os).len() == 2);
            }
        }
        if imports.len() > 0 {
            assert(strings_view(imports@)[0] == imports@[0]@);
            assert(strings_view(imports@)[1] == imports@[1]@);
            let mut b = String::from_str(imports[0].as_str());
            b.append("\n");
            b.append(imports[1].as_str());
            b.append("\n");
            b.append("\n");
            block = b;
        }
        java_file.append(block.as_str());
        let n = oml_objects.len();
        let mut objects = String::new();
        let mut i: usize = 0;
        while i < n
            invariant
                i <= n,
                n == oml_objects.len(),
                os == objects_view(oml_objects@),
                objects@ == java_objects_text(os.take(i as int), n as nat),
                forall|k: int| 0 <= k < i ==> os[k].oml_type != ObjectType::UNDECIDED,
            decreases n - i,
        {
            assert(os.take(i + 1).drop_last() == os.take(i as int));
            let obj = &oml_objects[i];
            assert(os[i as int] == obj@);
            let mut one = String::new();
            match obj.oml_type {
                ObjectType::ENUM => generate_enum(obj, &mut one),
                ObjectType::CLASS | ObjectType::STRUCT => generate_class(obj, &mut one),
                ObjectType::UNDECIDED => {
                    return Err(GenerateError::UndecidedForCode);
                },
            }
            if i < n - 1 {
                one.append("\n");
            }
            objects.append(one.as_str());
            i += 1;
        }
        assert(os.take(n as int) == os);
        java_file.append(objects.as_str());
        Ok(java_file)
    }

    fn extension(&self) -> (r: &str) {
        "java"
    }
}

} // verus!
