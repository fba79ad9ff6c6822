use vstd::prelude::*;
use crate::oml_object::{
    ArrayKind, ObjectType, OmlObject, Pick, SpecOmlObject, SpecVariable, Variable,
    VariableModifier, all_refs, objects_view, pick, pick_refs, refs_view, vars_view,
};
use crate::generate::{Generate, GenerateError, has_undecided};
use crate::text::{decimal, eq_str, push_decimal, str_upper, strings_view, to_uppercase};

verus! {

/// Generates Python classes, dataclasses and enums from OML objects, and
/// reads them back.
pub struct PythonGenerator {
    pub use_data_class: bool,
}

impl PythonGenerator {
    /// A generator that writes classes as dataclasses where `use_data_class` holds.
    pub fn new(use_data_class: bool) -> (r: Self)
        ensures
            r.use_data_class == use_data_class,
    {
        Self { use_data_class }
    }
}

/// The Python type of an OML type name.
pub open spec fn py_type(t: Seq<char>) -> Seq<char> {
    if t == "int8"@ || t == "int16"@ || t == "int32"@ || t == "int64"@ { "int"@ }
    else if t == "uint8"@ || t == "uint16"@ || t == "uint32"@ || t == "uint64"@ { "int"@ }
    else if t == "float"@ || t == "double"@ { "float"@ }
    else if t == "bool"@ { "bool"@ }
    else if t == "string"@ || t == "char"@ { "str"@ }
    else { t }
}

/// Converts an OML type name to a Python type.
pub fn convert_type(var_type: &str) -> (r: String)
    ensures
        r@ == py_type(var_type@),
{
    if eq_str(var_type, "int8") || eq_str(var_type, "int16") || eq_str(var_type, "int32") || eq_str(var_type, "int64") {
        String::from_str("int")
    } else if eq_str(var_type, "uint8") || eq_str(var_type, "uint16") || eq_str(var_type, "uint32") || eq_str(var_type, "uint64") {
        String::from_str("int")
    } else if eq_str(var_type, "float") || eq_str(var_type, "double") {
        String::from_str("float")
    } else if eq_str(var_type, "bool") {
        String::from_str("bool")
    } else if eq_str(var_type, "string") || eq_str(var_type, "char") {
        String::from_str("str")
    } else {
        String::from_str(var_type)
    }
}

/// The Python type of a value of OML type `t` held as `k`: both kinds of
/// array become `list`.
pub open spec fn py_type_annotation(t: Seq<char>, k: ArrayKind) -> Seq<char> {
    match k {
        ArrayKind::Scalar => py_type(t),
        _ => "list["@ + py_type(t) + "]"@,
    }
}

/// Converts an OML type and array kind to a Python type.
pub fn type_annotation(var_type: &str, array_kind: &ArrayKind) -> (r: String)
    ensures
        r@ == py_type_annotation(var_type@, *array_kind),
{
    let base = convert_type(var_type);
    match array_kind {
        ArrayKind::Scalar => base,
        _ => {
            let mut r = String::from_str("list[");
            r.append(base.as_str());
            r.append("]");
            r
        },
    }
}

/// Whether an object is written as a dataclass.
pub open spec fn py_is_dataclass(o: SpecOmlObject, use_data_class: bool) -> bool {
    o.oml_type == ObjectType::STRUCT || (use_data_class && o.oml_type == ObjectType::CLASS)
}

/// Whether some object has the given type.
pub open spec fn py_has_type(objs: Seq<SpecOmlObject>, t: ObjectType) -> bool {
    exists|i: int| 0 <= i < objs.len() && objs[i].oml_type == t
}

/// Whether some dataclass has a static variable.
pub open spec fn py_needs_classvar(objs: Seq<SpecOmlObject>, use_data_class: bool) -> bool {
    exists|i: int, j: int| 0 <= i < objs.len() && py_is_dataclass(objs[i], use_data_class)
        && 0 <= j < objs[i].variables.len() && objs[i].variables[j].is_static()
}

/// Whether some object other than an enum has an optional variable.
pub open spec fn py_needs_optional(objs: Seq<SpecOmlObject>) -> bool {
    exists|i: int, j: int| 0 <= i < objs.len() && objs[i].oml_type != ObjectType::ENUM
        && 0 <= j < objs[i].variables.len() && objs[i].variables[j].is_optional()
}

/// The names imported from `typing`.
pub open spec fn py_typing_names(objs: Seq<SpecOmlObject>, use_data_class: bool) -> Seq<char> {
    if py_needs_classvar(objs, use_data_class) && py_needs_optional(objs) {
        "ClassVar, Optional"@
    } else if py_needs_classvar(objs, use_data_class) {
        "ClassVar"@
    } else {
        "Optional"@
    }
}

/// The imports a Python file needs: `Enum`, the dataclass helpers, and
/// `ClassVar` / `Optional` from `typing`, each only where it is used.
pub open spec fn py_imports(objs: Seq<SpecOmlObject>, use_data_class: bool) -> Seq<Seq<char>> {
    let needs_dataclass = py_has_type(objs, ObjectType::STRUCT) || (use_data_class && py_has_type(objs, ObjectType::CLASS));
    (if py_has_type(objs, ObjectType::ENUM) { seq!["from enum import Enum"@] } else { Seq::<Seq<char>>::empty() })
        + (if needs_dataclass { seq!["from dataclasses import dataclass, field"@] } else { Seq::<Seq<char>>::empty() })
        + (if py_needs_classvar(objs, use_data_class) || py_needs_optional(objs) {
            seq!["from typing import "@ + py_typing_names(objs, use_data_class)]
        } else {
            Seq::<Seq<char>>::empty()
        })
}

fn has_type(oml_objects: &[OmlObject], t: ObjectType) -> (r: bool)
    ensures
        r == py_has_type(objects_view(oml_objects@), t),
{
    let mut i: usize = 0;
    while i < oml_objects.len()
        invariant
            i <= oml_objects.len(),
            forall|k: int| 0 <= k < i ==> objects_view(oml_objects@)[k].oml_type != t,
        decreases oml_objects.len() - i,
    {
        if oml_objects[i].oml_type == t {
            assert(objects_view(oml_objects@)[i as int].oml_type == t);
            return true;
        }
        i += 1;
    }
    false
}

/// Whether some object picked by `dataclass_only` (the dataclasses) or by
/// being other than an enum has a variable with `m`.
fn has_modifier_in(oml_objects: &[OmlObject], use_data_class: bool, m: VariableModifier, dataclass_only: bool) -> (r: bool)
    ensures
        dataclass_only ==> r == (exists|i: int, j: int| 0 <= i < oml_objects@.len()
            && py_is_dataclass(objects_view(oml_objects@)[i], use_data_class)
            && 0 <= j < objects_view(oml_objects@)[i].variables.len() && objects_view(oml_objects@)[i].variables[j].has(m)),
        !dataclass_only ==> r == (exists|i: int, j: int| 0 <= i < oml_objects@.len()
            && objects_view(oml_objects@)[i].oml_type != ObjectType::ENUM
            && 0 <= j < objects_view(oml_objects@)[i].variables.len() && objects_view(oml_objects@)[i].variables[j].has(m)),
{
    let ghost os = objects_view(oml_objects@);
    let mut i: usize = 0;
    while i < oml_objects.len()
        invariant
            i <= oml_objects.len(),
            os == objects_view(oml_objects@),
            forall|k: int, j: int| 0 <= k < i && (if dataclass_only { py_is_dataclass(os[k], use_data_class) } else { os[k].oml_type != ObjectType::ENUM })
                && 0 <= j < os[k].variables.len() ==> !os[k].variables[j].has(m),
        decreases oml_objects.len() - i,
    {
        let obj = &oml_objects[i];
        assert(os[i as int] == obj@);
        let counts = if dataclass_only {
            obj.oml_type == ObjectType::STRUCT || (use_data_class && obj.oml_type == ObjectType::CLASS)
        } else {
            obj.oml_type != ObjectType::ENUM
        };
        if counts {
            let mut j: usize = 0;
            while j < obj.variables.len()
                invariant
                    j <= obj.variables.len(),
                    i < oml_objects.len(),
                    os == objects_view(oml_objects@),
                    os[i as int] == obj@,
                    forall|l: int| 0 <= l < j ==> !os[i as int].variables[l].has(m),
                    dataclass_only ==> py_is_dataclass(os[i as int], use_data_class),
                    !dataclass_only ==> os[i as int].oml_type != ObjectType::ENUM,
                decreases obj.variables.len() - j,
            {
                assert(os[i as int].variables[j as int] == obj.variables@[j as int]@);
                if obj.variables[j].has(m) {
                    assert(os[i as int].variables[j as int].has(m));
                    return true;
                }
                j += 1;
            }
        }
        i += 1;
    }
    false
}

/// The imports the generated file needs.
pub fn collect_imports(oml_objects: &[OmlObject], use_data_class: bool) -> (r: Vec<String>)
    ensures
        strings_view(r@) == py_imports(objects_view(oml_objects@), use_data_class),
{
    let ghost os = objects_view(oml_objects@);
    let has_enum = has_type(oml_objects, ObjectType::ENUM);
    let has_struct = has_type(oml_objects, ObjectType::STRUCT);
    let has_class_dataclass = use_data_class && has_type(oml_objects, ObjectType::CLASS);
    let needs_dataclass = has_struct || has_class_dataclass;
    let needs_classvar = has_modifier_in(oml_objects, use_data_class, VariableModifier::STATIC, true);
    let needs_optional = has_modifier_in(oml_objects, use_data_class, VariableModifier::OPTIONAL, false);
    assert(needs_classvar == py_needs_classvar(os, use_data_class));
    assert(needs_optional == py_needs_optional(os));
    let mut imports: Vec<String> = Vec::new();
    let ghost a = if has_enum { seq!["from enum import Enum"@] } else { Seq::<Seq<char>>::empty() };
    if has_enum {
        imports.push(String::from_str("from enum import Enum"));
    }
    assert(strings_view(imports@) =~= a);
    let ghost b = if needs_dataclass { seq!["from dataclasses import dataclass, field"@] } else { Seq::<Seq<char>>::empty() };
    if needs_dataclass {
        let ghost before = imports@;
        imports.push(String::from_str("from dataclasses import dataclass, field"));
        assert(strings_view(imports@) =~= strings_view(before).push(imports@.last()@));
    }
    assert(strings_view(imports@) =~= a + b);
    if needs_classvar || needs_optional {
        let mut names = String::new();
        if needs_classvar && needs_optional {
            names.append("ClassVar, Optional");
        } else if needs_classvar {
            names.append("ClassVar");
        } else {
            names.append("Optional");
        }
        let mut line = String::from_str("from typing import ");
        line.append(names.as_str());
        let ghost before = imports@;
        imports.push(line);
        assert(strings_view(imports@) =~= strings_view(before).push(imports@.last()@));
    }
    assert(strings_view(imports@) =~= py_imports(os, use_data_class));
    imports
}

/// The members of a Python enum: `NAME = index`.
pub open spec fn py_enum_members(vars: Seq<SpecVariable>) -> Seq<char>
    decreases vars.len(),
{
    if vars.len() == 0 {
        Seq::empty()
    } else {
        py_enum_members(vars.drop_last()) + "\t"@ + str_upper(vars.last().name) + " = "@
            + decimal((vars.len() - 1) as nat) + "\n"@
    }
}

/// A Python `Enum` subclass; `pass` where it has no member.
pub open spec fn py_enum_text(o: SpecOmlObject) -> Seq<char> {
    "class "@ + o.name + "(Enum):\n"@
        + (if o.variables.len() == 0 { "\tpass\n"@ } else { py_enum_members(o.variables) })
}

/// Writes a Python `Enum` subclass.
pub fn generate_enum(oml_object: &OmlObject, py_file: &mut String)
    ensures
        final(py_file)@ == old(py_file)@ + py_enum_text(oml_object@),
{
    let mut s = String::from_str("class ");
    s.append(oml_object.name.as_str());
    s.append("(Enum):\n");
    let mut body = String::new();
    if oml_object.variables.len() == 0 {
        body.append("\tpass\n");
    } else {
        let ghost vs = vars_view(oml_object.variables@);
        let mut index: usize = 0;
        while index < oml_object.variables.len()
            invariant
                index <= oml_object.variables.len(),
                vs == vars_view(oml_object.variables@),
                body@ == py_enum_members(vs.take(index as int)),
            decreases oml_object.variables.len() - index,
        {
            assert(vs.take(index + 1).drop_last() == vs.take(index as int));
            let upper = to_uppercase(oml_object.variables[index].name.as_str());
            let mut l = String::from_str("\t");
            l.append(upper.as_str());
            l.append(" = ");
            push_decimal(&mut l, index as u64);
            l.append("\n");
            body.append(l.as_str());
            index += 1;
        }
        assert(vs.take(oml_object.variables.len() as int) == vs);
    }
    s.append(body.as_str());
    py_file.append(s.as_str());
}

/// Whether every variable of `vars` is `const`.
pub open spec fn all_const(vars: Seq<SpecVariable>) -> bool {
    forall|i: int| 0 <= i < vars.len() ==> vars[i].has(VariableModifier::CONST)
}

/// `ClassVar` lines of a dataclass.
pub open spec fn py_classvars(vars: Seq<SpecVariable>) -> Seq<char>
    decreases vars.len(),
{
    if vars.len() == 0 {
        Seq::empty()
    } else {
        py_classvars(vars.drop_last()) + "\t"@ + vars.last().name + ": ClassVar["@
            + py_type_annotation(vars.last().var_type, vars.last().array_kind) + "]\n"@
    }
}

/// Required field lines of a dataclass.
pub open spec fn py_required_fields(vars: Seq<SpecVariable>) -> Seq<char>
    decreases vars.len(),
{
    if vars.len() == 0 {
        Seq::empty()
    } else {
        py_required_fields(vars.drop_last()) + "\t"@ + vars.last().name + ": "@
            + py_type_annotation(vars.last().var_type, vars.last().array_kind) + "\n"@
    }
}

/// Optional field lines of a dataclass, defaulting to `None`.
pub open spec fn py_optional_fields(vars: Seq<SpecVariable>) -> Seq<char>
    decreases vars.len(),
{
    if vars.len() == 0 {
        Seq::empty()
    } else {
        py_optional_fields(vars.drop_last()) + "\t"@ + vars.last().name + ": Optional["@
            + py_type_annotation(vars.last().var_type, vars.last().array_kind) + "] = None\n"@
    }
}

/// A dataclass: frozen where every instance field is `const`; `ClassVar`s,
/// then required fields, then optional ones.
pub open spec fn py_data_class_text(o: SpecOmlObject) -> Seq<char> {
    let inst = pick(o.variables, Pick::Instance);
    let frozen = inst.len() > 0 && all_const(inst);
    (if frozen { "@dataclass(frozen=True)\n"@ } else { "@dataclass\n"@ })
        + "class "@ + o.name + ":\n"@
        + (if o.variables.len() == 0 {
            "\tpass\n"@
        } else {
            py_classvars(pick(o.variables, Pick::Static))
                + py_required_fields(pick(inst, Pick::Required))
                + py_optional_fields(pick(inst, Pick::Optional))
        })
}

fn write_lines(vars: &Vec<&Variable>, kind: u8) -> (r: String)
    requires
        kind < 3,
    ensures
        kind == 0 ==> r@ == py_classvars(refs_view(vars@)),
        kind == 1 ==> r@ == py_required_fields(refs_view(vars@)),
        kind == 2 ==> r@ == py_optional_fields(refs_view(vars@)),
{
    let ghost vs = refs_view(vars@);
    let mut s = String::new();
    let mut i: usize = 0;
    while i < vars.len()
        invariant
            i <= vars.len(),
            kind < 3,
            vs == refs_view(vars@),
            kind == 0 ==> s@ == py_classvars(vs.take(i as int)),
            kind == 1 ==> s@ == py_required_fields(vs.take(i as int)),
            kind == 2 ==> s@ == py_optional_fields(vs.take(i as int)),
        decreases vars.len() - i,
    {
        assert(vs.take(i + 1).drop_last() == vs.take(i as int));
        let var = vars[i];
        let t = type_annotation(var.var_type.as_str(), &var.array_kind);
        let mut l = String::from_str("\t");
        l.append(var.name.as_str());
        if kind == 0 {
            l.append(": ClassVar[");
            l.append(t.as_str());
            l.append("]\n");
        } else if kind == 1 {
            l.append(": ");
            l.append(t.as_str());
            l.append("\n");
        } else {
            l.append(": Optional[");
            l.append(t.as_str());
            l.append("] = None\n");
        }
        s.append(l.as_str());
        i += 1;
    }
    assert(vs.take(vars.len() as int) == vs);
    s
}

fn all_have_const(vars: &Vec<&Variable>) -> (r: bool)
    ensures
        r == all_const(refs_view(vars@)),
{
    let mut i: usize = 0;
    while i < vars.len()
        invariant
            i <= vars.len(),
            forall|k: int| 0 <= k < i ==> refs_view(vars@)[k].has(VariableModifier::CONST),
        decreases vars.len() - i,
    {
        if !vars[i].has(VariableModifier::CONST) {
            assert(!refs_view(vars@)[i as int].has(VariableModifier::CONST));
            return false;
        }
        i += 1;
    }
    true
}

/// Writes a dataclass.
pub fn generate_data_class(oml_object: &OmlObject, py_file: &mut String)
    ensures
        final(py_file)@ == old(py_file)@ + py_data_class_text(oml_object@),
{
    let all = all_refs(&oml_object.variables);
    let static_vars = pick_refs(&all, Pick::Static);
    let instance_vars = pick_refs(&all, Pick::Instance);
    let frozen = instance_vars.len() > 0 && all_have_const(&instance_vars);
    let mut s = if frozen { String::from_str("@dataclass(frozen=True)\n") } else { String::from_str("@dataclass\n") };
    s.append("class ");
    s.append(oml_object.name.as_str());
    s.append(":\n");
    let mut body = String::new();
    if oml_object.variables.len() == 0 {
        body.append("\tpass\n");
    } else {
        let required = pick_refs(&instance_vars, Pick::Required);
        let optional = pick_refs(&instance_vars, Pick::Optional);
        let a = write_lines(&static_vars, 0);
        let b = write_lines(&required, 1);
        let c = write_lines(&optional, 2);
        body.append(a.as_str());
        body.append(b.as_str());
        body.append(c.as_str());
    }
    s.append(body.as_str());
    py_file.append(s.as_str());
}

/// Class-level lines of the static variables of a regular class; a `const`
/// one gets a placeholder value.
pub open spec fn py_static_lines(vars: Seq<SpecVariable>) -> Seq<char>
    decreases vars.len(),
{
    if vars.len() == 0 {
        Seq::empty()
    } else {
        py_static_lines(vars.drop_last()) + "\t"@ + vars.last().name + ": "@
            + py_type_annotation(vars.last().var_type, vars.last().array_kind)
            + (if vars.last().has(VariableModifier::CONST) { " = ...\n"@ } else { "\n"@ })
    }
}

/// The entries of `__slots__`.
pub open spec fn py_slots(vars: Seq<SpecVariable>) -> Seq<char>
    decreases vars.len(),
{
    if vars.len() == 0 { Seq::empty() } else { py_slots(vars.drop_last()) + "'_"@ + vars.last().name + "', "@ }
}

/// The `__init__` parameters after `self`.
pub open spec fn py_init_params(vars: Seq<SpecVariable>) -> Seq<char>
    decreases vars.len(),
{
    if vars.len() == 0 {
        Seq::empty()
    } else {
        py_init_params(vars.drop_last()) + ", "@ + vars.last().name + ": "@
            + (if vars.last().is_optional() {
                "Optional["@ + py_type_annotation(vars.last().var_type, vars.last().array_kind) + "] = None"@
            } else {
                py_type_annotation(vars.last().var_type, vars.last().array_kind)
            })
    }
}

/// The assignments in the body of `__init__`.
pub open spec fn py_init_assigns(vars: Seq<SpecVariable>) -> Seq<char>
    decreases vars.len(),
{
    if vars.len() == 0 {
        Seq::empty()
    } else {
        py_init_assigns(vars.drop_last()) + "\t\tself._"@ + vars.last().name + " = "@ + vars.last().name + "\n"@
    }
}

/// The type a property returns.
pub open spec fn py_return_type(v: SpecVariable) -> Seq<char> {
    if v.is_optional() {
        "Optional["@ + py_type_annotation(v.var_type, v.array_kind) + "]"@
    } else {
        py_type_annotation(v.var_type, v.array_kind)
    }
}

/// The property of an instance variable: a getter, and a setter unless the
/// variable is `const`.
pub open spec fn py_property(v: SpecVariable) -> Seq<char> {
    "\t@property\n"@ + "\tdef "@ + v.name + "(self) -> "@ + py_return_type(v) + ":\n"@
        + "\t\treturn self._"@ + v.name + "\n"@
        + (if !v.has(VariableModifier::CONST) {
            "\t@"@ + v.name + ".setter\n"@ + "\tdef "@ + v.name + "(self, value: "@ + py_return_type(v) + "):\n"@
                + "\t\tself._"@ + v.name + " = value\n"@
        } else {
            Seq::<char>::empty()
        })
        + "\n"@
}

/// The properties of the instance variables, in order.
pub open spec fn py_properties(vars: Seq<SpecVariable>) -> Seq<char>
    decreases vars.len(),
{
    if vars.len() == 0 { Seq::empty() } else { py_properties(vars.drop_last()) + py_property(vars.last()) }
}

/// A regular class: static variables, `__slots__`, `__init__` (required
/// parameters first) and properties; `pass` where it has no variable.
pub open spec fn py_regular_class_text(o: SpecOmlObject) -> Seq<char> {
    let statics = pick(o.variables, Pick::Static);
    let inst = pick(o.variables, Pick::Instance);
    "class "@ + o.name + ":\n"@
        + (if o.variables.len() == 0 {
            "\tpass\n"@
        } else {
            py_static_lines(statics)
                + (if statics.len() > 0 { "\n"@ } else { Seq::<char>::empty() })
                + (if inst.len() > 0 {
                    "\t__slots__ = ("@ + py_slots(inst) + ")\n"@ + "\n"@
                        + "\tdef __init__(self"@ + py_init_params(pick(inst, Pick::Required) + pick(inst, Pick::Optional))
                        + "):\n"@ + py_init_assigns(inst) + "\n"@
                } else {
                    Seq::<char>::empty()
                })
                + py_properties(inst)
        })
}

fn write_regular_parts(vars: &Vec<&Variable>, kind: u8) -> (r: String)
    requires
        kind < 5,
    ensures
        kind == 0 ==> r@ == py_static_lines(refs_view(vars@)),
        kind == 1 ==> r@ == py_slots(refs_view(vars@)),
        kind == 2 ==> r@ == py_init_params(refs_view(vars@)),
        kind == 3 ==> r@ == py_init_assigns(refs_view(vars@)),
        kind == 4 ==> r@ == py_properties(refs_view(vars@)),
{
    let ghost vs = refs_view(vars@);
    let mut s = String::new();
    let mut i: usize = 0;
    while i < vars.len()
        invariant
            i <= vars.len(),
            kind < 5,
            vs == refs_view(vars@),
            kind == 0 ==> s@ == py_static_lines(vs.take(i as int)),
            kind == 1 ==> s@ == py_slots(vs.take(i as int)),
            kind == 2 ==> s@ == py_init_params(vs.take(i as int)),
            kind == 3 ==> s@ == py_init_assigns(vs.take(i as int)),
            kind == 4 ==> s@ == py_properties(vs.take(i as int)),
        decreases vars.len() - i,
    {
        assert(vs.take(i + 1).drop_last() == vs.take(i as int));
        let var = vars[i];
        let t = type_annotation(var.var_type.as_str(), &var.array_kind);
        let is_const = var.has(VariableModifier::CONST);
        let is_optional = var.has(VariableModifier::OPTIONAL);
        let mut l = String::new();
        if kind == 0 {
            l.append("\t");
            l.append(var.name.as_str());
            l.append(": ");
            l.append(t.as_str());
            if is_const {
                l.append(" = ...\n");
            } else {
                l.append("\n");
            }
        } else if kind == 1 {
            l.append("'_");
            l.append(var.name.as_str());
            l.append("', ");
        } else if kind == 2 {
            l.append(", ");
            l.append(var.name.as_str());
            l.append(": ");
            let mut ty = String::new();
            if is_optional {
                ty.append("Optional[");
                ty.append(t.as_str());
                ty.append("] = None");
            } else {
                ty.append(t.as_str());
            }
            l.append(ty.as_str());
        } else if kind == 3 {
            l.append("\t\tself._");
            l.append(var.name.as_str());
            l.append(" = ");
            l.append(var.name.as_str());
            l.append("\n");
        } else {
            let mut return_type = String::new();
            if is_optional {
                return_type.append("Optional[");
                return_type.append(t.as_str());
                return_type.append("]");
            } else {
                return_type.append(t.as_str());
            }
            l.append("\t@property\n");
            l.append("\tdef ");
            l.append(var.name.as_str());
            l.append("(self) -> ");
            l.append(return_type.as_str());
            l.append(":\n");
            l.append("\t\treturn self._");
            l.append(var.name.as_str());
            l.append("\n");
            let mut setter = String::new();
            if !is_const {
                setter.append("\t@");
                setter.append(var.name.as_str());
                setter.append(".setter\n");
                setter.append("\tdef ");
                setter.append(var.name.as_str());
                setter.append("(self, value: ");
                setter.append(return_type.as_str());
                setter.append("):\n");
                setter.append("\t\tself._");
                setter.append(var.name.as_str());
                setter.append(" = value\n");
            }
            l.append(setter.as_str());
            l.append("\n");
        }
        s.append(l.as_str());
        i += 1;
    }
    assert(vs.take(vars.len() as int) == vs);
    s
}

/// Writes a regular Python class.
pub fn generate_regular_class(oml_object: &OmlObject, py_file: &mut String)
    ensures
        final(py_file)@ == old(py_file)@ + py_regular_class_text(oml_object@),
{
    let mut s = String::from_str("class ");
    s.append(oml_object.name.as_str());
    s.append(":\n");
    let mut body = String::new();
    if oml_object.variables.len() == 0 {
        body.append("\tpass\n");
    } else {
        let all = all_refs(&oml_object.variables);
        let static_vars = pick_refs(&all, Pick::Static);
        let instance_vars = pick_refs(&all, Pick::Instance);
        let st = write_regular_parts(&static_vars, 0);
        body.append(st.as_str());
        let mut gap = String::new();
        if static_vars.len() > 0 {
            gap.append("\n");
        }
        body.append(gap.as_str());
        let mut init = String::new();
        if instance_vars.len() > 0 {
            let required = pick_refs(&instance_vars, Pick::Required);
            let optional = pick_refs(&instance_vars, Pick::Optional);
            let ord = crate::oml_object::concat_refs(&required, &optional);
            let slots = write_regular_parts(&instance_vars, 1);
            let params = write_regular_parts(&ord, 2);
            let assigns = write_regular_parts(&instance_vars, 3);
            init.append("\t__slots__ = (");
            init.append(slots.as_str());
            init.append(")\n");
            init.append("\n");
            init.append("\tdef __init__(self");
            init.append(params.as_str());
            init.append("):\n");
            init.append(assigns.as_str());
            init.append("\n");
        }
        body.append(init.as_str());
        let props = write_regular_parts(&instance_vars, 4);
        body.append(props.as_str());
    }
    s.append(body.as_str());
    py_file.append(s.as_str());
}

/// Writes a class: a dataclass where `use_data_class` holds, a regular one otherwise.
pub fn generate_class(oml_object: &OmlObject, py_file: &mut String, use_data_class: bool)
    ensures
        use_data_class ==> final(py_file)@ == old(py_file)@ + py_data_class_text(oml_object@),
        !use_data_class ==> final(py_file)@ == old(py_file)@ + py_regular_class_text(oml_object@),
{
    if use_data_class {
        generate_data_class(oml_object, py_file)
    } else {
        generate_regular_class(oml_object, py_file)
    }
}

/// The Python text of one object.
pub open spec fn py_object_text(o: SpecOmlObject, use_data_class: bool) -> Seq<char> {
    if o.oml_type == ObjectType::ENUM {
        py_enum_text(o)
    } else if py_is_dataclass(o, use_data_class) {
        py_data_class_text(o)
    } else {
        py_regular_class_text(o)
    }
}

/// The objects one after another, a blank line between two consecutive ones.
pub open spec fn py_objects_text(objs: Seq<SpecOmlObject>, total: nat, use_data_class: bool) -> Seq<char>
    decreases objs.len(),
{
    if objs.len() == 0 {
        Seq::empty()
    } else {
        py_objects_text(objs.drop_last(), total, use_data_class) + py_object_text(objs.last(), use_data_class)
            + (if objs.len() < total { "\n"@ } else { Seq::<char>::empty() })
    }
}

/// Each import on a line of its own.
pub open spec fn py_import_lines(imports: Seq<Seq<char>>) -> Seq<char>
    decreases imports.len(),
{
    if imports.len() == 0 { Seq::empty() } else { py_import_lines(imports.drop_last()) + imports.last() + "\n"@ }
}

/// The Python file generated for `objs`; structs always become dataclasses;
/// an error where some object is `UNDECIDED`.
pub open spec fn py_file(objs: Seq<SpecOmlObject>, file_name: Seq<char>, use_data_class: bool) -> Result<Seq<char>, GenerateError> {
    if has_undecided(objs) {
        Err(GenerateError::UndecidedForCode)
    } else {
        let imports = py_imports(objs, use_data_class);
        Ok("# This file has been generated from "@ + file_name + ".oml\n"@ + "\n"@
            + (if imports.len() == 0 { Seq::<char>::empty() } else { py_import_lines(imports) + "\n"@ })
            + py_objects_text(objs, objs.len(), use_data_class))
    }
}

impl Generate for PythonGenerator {
    open spec fn spec_generate(&self, objs: Seq<SpecOmlObject>, file_name: Seq<char>) -> Result<Seq<char>, GenerateError> {
        py_file(objs, file_name, self.use_data_class)
    }

    open spec fn spec_extension(&self) -> Seq<char> {
        "py"@
    }

    fn generate(&self, oml_objects: &[OmlObject], file_name: &str) -> (r: Result<String, GenerateError>) {
        let ghost os = objects_view(oml_objects@);
        let mut py_file = String::from_str("# This file has been generated from ");
        py_file.append(file_name);
        py_file.append(".oml\n");
        py_file.append("\n");
        let imports = collect_imports(oml_objects, self.use_data_class);
        let ghost iv = strings_view(imports@);
        let mut block = String::new();
        if imports.len() > 0 {
            let mut lines = String::new();
            let mut k: usize = 0;
            while k < imports.len()
                invariant
                    k <= imports.len(),
                    iv == strings_view(imports@),
                    lines@ == py_import_lines(iv.take(k as int)),
                decreases imports.len() - k,
            {
                assert(iv.take(k + 1).drop_last() == iv.take(k as int));
                let mut l = String::from_str(imports[k].as_str());
                l.append("\n");
                lines.append(l.as_str());
                k += 1;
            }
            assert(iv.take(imports.len() as int) == iv);
            lines.append("\n");
            block = lines;
        }
        py_file.append(block.as_str());
        let n = oml_objects.len();
        let mut objects = String::new();
        let mut i: usize = 0;
        while i < n
            invariant
                i <= n,
                n == oml_objects.len(),
                os == objects_view(oml_objects@),
                objects@ == py_objects_text(os.take(i as int), n as nat, self.use_data_class),
                forall|k: int| 0 <= k < i ==> os[k].oml_type != ObjectType::UNDECIDED,
            decreases n - i,
        {
            assert(os.take(i + 1).drop_last() == os.take(i as int));
            let obj = &oml_objects[i];
            assert(os[i as int] == obj@);
            let mut one = String::new();
            match obj.oml_type {
                ObjectType::ENUM => generate_enum(obj, &mut one),
                ObjectType::CLASS => generate_class(obj, &mut one, self.use_data_class),
                ObjectType::STRUCT => generate_class(obj, &mut one, true),
                ObjectType::UNDECIDED => {
                    return Err(GenerateError::UndecidedForCode);
                },
            }
            if i < n - 1 {
                one.append("\n");
            }
            objects.append(one.as_str());
            i += 1;
        }
        assert(os.take(n as int) == os);
        py_file.append(objects.as_str());
        Ok(py_file)
    }

    fn extension(&self) -> (r: &str) {
        "py"
    }
}

} // verus!
