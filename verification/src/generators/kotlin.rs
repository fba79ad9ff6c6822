use vstd::prelude::*;
use crate::oml_object::{
    ArrayKind, ObjectType, OmlObject, Pick, SpecOmlObject, SpecVariable, Variable, VariableModifier,
    VariableVisibility, all_refs, concat_refs, objects_view, pick, pick_refs, refs_view, vars_view,
};
use crate::generate::{Generate, GenerateError, has_undecided};
use crate::text::{eq_str, str_upper, to_uppercase};

verus! {

/// Generates Kotlin classes and enums from OML objects, and reads them back.
pub struct KotlinGenerator {
    pub use_data_class: bool,
}

impl KotlinGenerator {
    /// A generator that writes classes as data classes where `use_data_class` holds.
    pub fn new(use_data_class: bool) -> (r: Self)
        ensures
            r.use_data_class == use_data_class,
    {
        Self { use_data_class }
    }
}

/// The Kotlin type of an OML type name.
pub open spec fn kt_type(t: Seq<char>) -> Seq<char> {
    if t == "int8"@ || t == "int16"@ || t == "int32"@ { "Int"@ }
    else if t == "int64"@ { "Long"@ }
    else if t == "uint8"@ || t == "uint16"@ || t == "uint32"@ { "UInt"@ }
    else if t == "uint64"@ { "ULong"@ }
    else if t == "float"@ { "Float"@ }
    else if t == "double"@ { "Double"@ }
    else if t == "bool"@ { "Boolean"@ }
    else if t == "string"@ { "String"@ }
    else if t == "char"@ { "Char"@ }
    else { t }
}

/// Converts an OML type name to a Kotlin type.
pub fn convert_type(var_type: &str) -> (r: String)
    ensures
        r@ == kt_type(var_type@),
{
    if eq_str(var_type, "int8") || eq_str(var_type, "int16") || eq_str(var_type, "int32") { String::from_str("Int") }
    else if eq_str(var_type, "int64") { String::from_str("Long") }
    else if eq_str(var_type, "uint8") || eq_str(var_type, "uint16") || eq_str(var_type, "uint32") { String::from_str("UInt") }
    else if eq_str(var_type, "uint64") { String::from_str("ULong") }
    else if eq_str(var_type, "float") { String::from_str("Float") }
    else if eq_str(var_type, "double") { String::from_str("Double") }
    else if eq_str(var_type, "bool") { String::from_str("Boolean") }
    else if eq_str(var_type, "string") { String::from_str("String") }
    else if eq_str(var_type, "char") { String::from_str("Char") }
    else { String::from_str(var_type) }
}

/// The Kotlin type of a value of OML type `t` held as `k`.
pub open spec fn kt_type_annotation(t: Seq<char>, k: ArrayKind) -> Seq<char> {
    match k {
        ArrayKind::Scalar => kt_type(t),
        ArrayKind::Static(_) => "Array<"@ + kt_type(t) + ">"@,
        ArrayKind::Dynamic => "MutableList<"@ + kt_type(t) + ">"@,
    }
}

/// Converts an OML type and array kind to a Kotlin type.
pub fn type_annotation(var_type: &str, array_kind: &ArrayKind) -> (r: String)
    ensures
        r@ == kt_type_annotation(var_type@, *array_kind),
{
    let base = convert_type(var_type);
    match array_kind {
        ArrayKind::Scalar => base,
        ArrayKind::Static(_) => {
            let mut r = String::from_str("Array<");
            r.append(base.as_str());
            r.append(">");
            r
        },
        ArrayKind::Dynamic => {
            let mut r = String::from_str("MutableList<");
            r.append(base.as_str());
            r.append(">");
            r
        },
    }
}

/// The entries of a Kotlin enum: uppercased names, commas between.
pub open spec fn kt_enum_variants(vars: Seq<SpecVariable>, total: nat) -> Seq<char>
    decreases vars.len(),
{
    if vars.len() == 0 {
        Seq::empty()
    } else {
        kt_enum_variants(vars.drop_last(), total) + "\t"@ + str_upper(vars.last().name)
            + (if vars.len() == total { "\n"@ } else { ",\n"@ })
    }
}

/// A Kotlin `enum class`.
pub open spec fn kt_enum_text(o: SpecOmlObject) -> Seq<char> {
    "enum class "@ + o.name + " {\n"@ + kt_enum_variants(o.variables, o.variables.len()) + "}\n"@
}

/// Writes a Kotlin `enum class`.
pub fn generate_enum(oml_object: &OmlObject, kt_file: &mut String)
    ensures
        final(kt_file)@ == old(kt_file)@ + kt_enum_text(oml_object@),
{
    let mut s = String::from_str("enum class ");
    s.append(oml_object.name.as_str());
    s.append(" {\n");
    let ghost vs = vars_view(oml_object.variables@);
    let length = oml_object.variables.len();
    let mut body = String::new();
    let mut index: usize = 0;
    while index < length
        invariant
            index <= length,
            length == oml_object.variables.len(),
            vs == vars_view(oml_object.variables@),
            body@ == kt_enum_variants(vs.take(index as int), length as nat),
        decreases length - index,
    {
        assert(vs.take(index + 1).drop_last() == vs.take(index as int));
        let upper = to_uppercase(oml_object.variables[index].name.as_str());
        let mut l = String::from_str("\t");
        l.append(upper.as_str());
        if index == length - 1 {
            l.append("\n");
        } else {
            l.append(",\n");
        }
        body.append(l.as_str());
        index += 1;
    }
    assert(vs.take(length as int) == vs);
    s.append(body.as_str());
    s.append("}\n");
    kt_file.append(s.as_str());
}

/// The visibility keyword of a constructor property; public is the default
/// and is omitted.
pub open spec fn kt_visibility(vis: VariableVisibility) -> Seq<char> {
    match vis {
        VariableVisibility::PRIVATE => "private "@,
        VariableVisibility::PROTECTED => "protected "@,
        VariableVisibility::PUBLIC => Seq::empty(),
    }
}

/// `val` for a `const` not overridden by `mut`, `var` otherwise.
pub open spec fn kt_binding(v: SpecVariable) -> Seq<char> {
    if v.is_readonly() { "val "@ } else { "var "@ }
}

/// A property in the primary constructor; an optional one defaults to null.
pub open spec fn kt_property_param(v: SpecVariable, is_optional: bool) -> Seq<char> {
    "\t"@ + kt_visibility(v.visibility) + kt_binding(v) + v.name + ": "@
        + (if is_optional {
            kt_type_annotation(v.var_type, v.array_kind) + "? = null"@
        } else {
            kt_type_annotation(v.var_type, v.array_kind)
        })
}

/// Writes one property of the primary constructor, without a line end.
pub fn write_property_param(var: &Variable, kt_file: &mut String, is_optional: bool)
    ensures
        final(kt_file)@ == old(kt_file)@ + kt_property_param(var@, is_optional),
{
    let mut s = String::from_str("\t");
    match var.visibility {
        VariableVisibility::PRIVATE => s.append("private "),
        VariableVisibility::PROTECTED => s.append("protected "),
        VariableVisibility::PUBLIC => {},
    }
    if var.has(VariableModifier::CONST) && !var.has(VariableModifier::MUT) {
        s.append("val ");
    } else {
        s.append("var ");
    }
    s.append(var.name.as_str());
    s.append(": ");
    let t = type_annotation(var.var_type.as_str(), &var.array_kind);
    let mut ty = String::from_str(t.as_str());
    if is_optional {
        ty.append("? = null");
    }
    s.append(ty.as_str());
    kt_file.append(s.as_str());
}

/// The constructor properties, one per line, commas between.
pub open spec fn kt_ctor_params(items: Seq<SpecVariable>, total: nat) -> Seq<char>
    decreases items.len(),
{
    if items.len() == 0 {
        Seq::empty()
    } else {
        kt_ctor_params(items.drop_last(), total) + kt_property_param(items.last(), items.last().is_optional())
            + (if items.len() < total { ",\n"@ } else { "\n"@ })
    }
}

/// The constructor properties of `vars`, required ones first.
pub open spec fn kt_constructor_params(vars: Seq<SpecVariable>) -> Seq<char> {
    let ord = pick(vars, Pick::Required) + pick(vars, Pick::Optional);
    kt_ctor_params(ord, ord.len())
}

/// Writes the properties of the primary constructor: required ones first,
/// then the optional ones with a null default.
pub fn write_constructor_params(vars: &[&Variable], kt_file: &mut String)
    ensures
        final(kt_file)@ == old(kt_file)@ + kt_constructor_params(refs_view(vars@)),
{
    let mut v: Vec<&Variable> = Vec::new();
    let mut j: usize = 0;
    while j < vars.len()
        invariant
            j <= vars.len(),
            v@ == vars@.take(j as int),
        decreases vars.len() - j,
    {
        v.push(vars[j]);
        j += 1;
        assert(v@ == vars@.take(j as int));
    }
    assert(vars@.take(vars.len() as int) == vars@);
    let req = pick_refs(&v, Pick::Required);
    let opt = pick_refs(&v, Pick::Optional);
    let ord = concat_refs(&req, &opt);
    let ghost items = refs_view(ord@);
    let total = ord.len();
    let mut params = String::new();
    let mut index: usize = 0;
    while index < total
        invariant
            index <= total,
            total == ord.len(),
            items == refs_view(ord@),
            params@ == kt_ctor_params(items.take(index as int), total as nat),
        decreases total - index,
    {
        assert(items.take(index + 1).drop_last() == items.take(index as int));
        let var = ord[index];
        let mut l = String::new();
        write_property_param(var, &mut l, var.has(VariableModifier::OPTIONAL));
        index += 1;
        if index < total {
            l.append(",\n");
        } else {
            l.append("\n");
        }
        params.append(l.as_str());
    }
    assert(items.take(total as int) == items);
    kt_file.append(params.as_str());
}

/// A property of the companion object.
pub open spec fn kt_static_property(v: SpecVariable) -> Seq<char> {
    "\t\t"@ + kt_binding(v)
        + (if v.is_optional() {
            v.name + ": "@ + kt_type_annotation(v.var_type, v.array_kind) + "? = null\n"@
        } else {
            v.name + ": "@ + kt_type_annotation(v.var_type, v.array_kind) + "\n"@
        })
}

/// Writes one property of the companion object.
pub fn write_static_property(var: &Variable, kt_file: &mut String)
    ensures
        final(kt_file)@ == old(kt_file)@ + kt_static_property(var@),
{
    let mut s = String::from_str("\t\t");
    if var.has(VariableModifier::CONST) && !var.has(VariableModifier::MUT) {
        s.append("val ");
    } else {
        s.append("var ");
    }
    let t = type_annotation(var.var_type.as_str(), &var.array_kind);
    let mut rest = String::from_str(var.name.as_str());
    rest.append(": ");
    rest.append(t.as_str());
    if var.has(VariableModifier::OPTIONAL) {
        rest.append("? = null\n");
    } else {
        rest.append("\n");
    }
    s.append(rest.as_str());
    kt_file.append(s.as_str());
}

/// The companion object properties, in order.
pub open spec fn kt_static_properties(vars: Seq<SpecVariable>) -> Seq<char>
    decreases vars.len(),
{
    if vars.len() == 0 { Seq::empty() } else { kt_static_properties(vars.drop_last()) + kt_static_property(vars.last()) }
}

/// A Kotlin class: the non-static variables in the primary constructor, the
/// static ones in a companion object.
pub open spec fn kt_class_text(o: SpecOmlObject, use_data_class: bool) -> Seq<char> {
    let kw = if use_data_class { "data class"@ } else { "class"@ };
    let statics = pick(o.variables, Pick::Static);
    let inst = pick(o.variables, Pick::Instance);
    if o.variables.len() == 0 {
        kw + " "@ + o.name + "\n"@
    } else {
        (if inst.len() == 0 && statics.len() > 0 {
            kw + " "@ + o.name + " {\n"@
        } else {
            kw + " "@ + o.name + "(\n"@ + kt_constructor_params(inst) + ")"@
                + (if statics.len() == 0 { "\n"@ } else { " {\n"@ })
        })
            + (if statics.len() > 0 {
                "\tcompanion object {\n"@ + kt_static_properties(statics) + "\t}\n"@ + "}\n"@
            } else {
                Seq::<char>::empty()
            })
    }
}

/// Writes a Kotlin class, a data class where `use_data_class` holds.
pub fn generate_class(oml_object: &OmlObject, kt_file: &mut String, use_data_class: bool)
    ensures
        final(kt_file)@ == old(kt_file)@ + kt_class_text(oml_object@, use_data_class),
{
    let mut s = if use_data_class { String::from_str("data class") } else { String::from_str("class") };
    if oml_object.variables.len() == 0 {
        s.append(" ");
        s.append(oml_object.name.as_str());
        s.append("\n");
        kt_file.append(s.as_str());
        return;
    }
    let all = all_refs(&oml_object.variables);
    let static_vars = pick_refs(&all, Pick::Static);
    let instance_vars = pick_refs(&all, Pick::Instance);
    let mut head = String::new();
    if instance_vars.len() == 0 && static_vars.len() > 0 {
        head.append(s.as_str());
        head.append(" ");
        head.append(oml_object.name.as_str());
        head.append(" {\n");
    } else {
        head.append(s.as_str());
        head.append(" ");
        head.append(oml_object.name.as_str());
        head.append("(\n");
        write_constructor_params(instance_vars.as_slice(), &mut head);
        head.append(")");
        if static_vars.len() == 0 {
            head.append("\n");
        } else {
            head.append(" {\n");
        }
    }
    let mut tail = String::new();
    if static_vars.len() > 0 {
        tail.append("\tcompanion object {\n");
        let ghost sv = refs_view(static_vars@);
        let mut props = String::new();
        let mut i: usize = 0;
        while i < static_vars.len()
            invariant
                i <= static_vars.len(),
                sv == refs_view(static_vars@),
                props@ == kt_static_properties(sv.take(i as int)),
            decreases static_vars.len() - i,
        {
            assert(sv.take(i + 1).drop_last() == sv.take(i as int));
            write_static_property(static_vars[i], &mut props);
            i += 1;
        }
        assert(sv.take(static_vars.len() as int) == sv);
        tail.append(props.as_str());
        tail.append("\t}\n");
        tail.append("}\n");
    }
    head.append(tail.as_str());
    kt_file.append(head.as_str());
}

/// The Kotlin text of one object.
pub open spec fn kt_object_text(o: SpecOmlObject, use_data_class: bool) -> Seq<char> {
    if o.oml_type == ObjectType::ENUM {
        kt_enum_text(o)
    } else if o.oml_type == ObjectType::CLASS {
        kt_class_text(o, use_data_class)
    } else {
        kt_class_text(o, true)
    }
}

/// The objects one after another, a blank line between two consecutive ones.
pub open spec fn kt_objects_text(objs: Seq<SpecOmlObject>, total: nat, use_data_class: bool) -> Seq<char>
    decreases objs.len(),
{
    if objs.len() == 0 {
        Seq::empty()
    } else {
        kt_objects_text(objs.drop_last(), total, use_data_class) + kt_object_text(objs.last(), use_data_class)
            + (if objs.len() < total { "\n"@ } else { Seq::<char>::empty() })
    }
}

/// The Kotlin file generated for `objs`; structs always become data classes;
/// an error where some object is `UNDECIDED`.
pub open spec fn kt_file(objs: Seq<SpecOmlObject>, file_name: Seq<char>, use_data_class: bool) -> Result<Seq<char>, GenerateError> {
    if has_undecided(objs) {
        Err(GenerateError::UndecidedForCode)
    } else {
        Ok("// This file has been generated from "@ + file_name + ".oml\n"@ + "\n"@
            + kt_objects_text(objs, objs.len(), use_data_class))
    }
}

impl Generate for KotlinGenerator {
    open spec fn spec_generate(&self, objs: Seq<SpecOmlObject>, file_name: Seq<char>) -> Result<Seq<char>, GenerateError> {
        kt_file(objs, file_name, self.use_data_class)
    }

    open spec fn spec_extension(&self) -> Seq<char> {
        "kt"@
    }

    fn generate(&self, oml_objects: &[OmlObject], file_name: &str) -> (r: Result<String, GenerateError>) {
        let ghost os = objects_view(oml_objects@);
        let mut kt_file = String::from_str("// This file has been generated from ");
        kt_file.append(file_name);
        kt_file.append(".oml\n");
        kt_file.append("\n");
        let n = oml_objects.len();
        let mut objects = String::new();
        let mut i: usize = 0;
        while i < n
            invariant
                i <= n,
                n == oml_objects.len(),
                os == objects_view(oml_objects@),
                objects@ == kt_objects_text(os.take(i as int), n as nat, self.use_data_class),
                forall|k: int| 0 <= k < i ==> os[k].oml_type != ObjectType::UNDECIDED,
            decreases n - i,
        {
            assert(os.take(i + 1).drop_last() == os.take(i as int));
            let obj = &oml_objects[i];
            assert(os[i as int] == obj@);
            let mut one = String::new();
            match obj.oml_type {
                ObjectType::ENUM => generate_enum(obj, &mut one),
                ObjectType::CLASS => generate_class(obj, &mut one, self.use_data_class),
                ObjectType::STRUCT => generate_class(obj, &mut one, true),
                ObjectType::UNDECIDED => {
                    return Err(GenerateError::UndecidedForCode);
                },
            }
            if i < n - 1 {
                one.append("\n");
            }
            objects.append(one.as_str());
            i += 1;
        }
        assert(os.take(n as int) == os);
        kt_file.append(objects.as_str());
        Ok(kt_file)
    }

    fn extension(&self) -> (r: &str) {
        "kt"
    }
}

} // verus!
