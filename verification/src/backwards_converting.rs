use vstd::prelude::*;
use crate::oml_object::{
    ArrayKind, ObjectType, OmlObject, SpecOmlObject, SpecVariable, Variable, VariableModifier,
    VariableVisibility, objects_view, vars_view,
};
use crate::generate::{Generate, GenerateError, has_undecided};
use crate::text::{decimal, push_decimal};

verus! {

/// Generator that writes OML syntax, so that objects read back from another
/// language can be saved as `.oml` again.
pub struct OmlGenerator;

/// The keyword that a modifier is written as, with a space after it.
pub open spec fn oml_modifier(m: VariableModifier) -> Seq<char> {
    match m {
        VariableModifier::CONST => "const "@,
        VariableModifier::MUT => "mut "@,
        VariableModifier::STATIC => "static "@,
        VariableModifier::OPTIONAL => "optional "@,
    }
}

/// All modifiers, in the order they are held.
pub open spec fn oml_modifiers(mods: Seq<VariableModifier>) -> Seq<char>
    decreases mods.len(),
{
    if mods.len() == 0 { Seq::empty() } else { oml_modifiers(mods.drop_last()) + oml_modifier(mods.last()) }
}

/// The visibility keyword of a member; private is the default and is omitted.
pub open spec fn oml_visibility(vis: VariableVisibility) -> Seq<char> {
    match vis {
        VariableVisibility::PUBLIC => "public "@,
        VariableVisibility::PROTECTED => "protected "@,
        VariableVisibility::PRIVATE => Seq::empty(),
    }
}

/// A type with its array kind: `T`, `T[N]` or `list T`.
pub open spec fn oml_type_text(t: Seq<char>, k: ArrayKind) -> Seq<char> {
    match k {
        ArrayKind::Scalar => t,
        ArrayKind::Static(n) => t + "["@ + decimal(n as nat) + "]"@,
        ArrayKind::Dynamic => "list "@ + t,
    }
}

/// One member line of a class or struct.
pub open spec fn oml_variable_line(v: SpecVariable) -> Seq<char> {
    "    "@ + oml_visibility(v.visibility) + oml_modifiers(v.var_mod) + oml_type_text(v.var_type, v.array_kind)
        + " "@ + v.name + ";\n"@
}

/// The member lines of a class or struct, in order.
pub open spec fn oml_variable_lines(vars: Seq<SpecVariable>) -> Seq<char>
    decreases vars.len(),
{
    if vars.len() == 0 { Seq::empty() } else { oml_variable_lines(vars.drop_last()) + oml_variable_line(vars.last()) }
}

/// The variant lines of an enum: type then name, in order.
pub open spec fn oml_enum_lines(vars: Seq<SpecVariable>) -> Seq<char>
    decreases vars.len(),
{
    if vars.len() == 0 {
        Seq::empty()
    } else {
        oml_enum_lines(vars.drop_last()) + "    "@ + vars.last().var_type + " "@ + vars.last().name + ";\n"@
    }
}

/// An OML enum.
pub open spec fn oml_enum_text(o: SpecOmlObject) -> Seq<char> {
    "enum "@ + o.name + " {\n"@ + oml_enum_lines(o.variables) + "}\n"@
}

/// An OML class.
pub open spec fn oml_class_text(o: SpecOmlObject) -> Seq<char> {
    "class "@ + o.name + " {\n"@ + oml_variable_lines(o.variables) + "}\n"@
}

/// An OML struct.
pub open spec fn oml_struct_text(o: SpecOmlObject) -> Seq<char> {
    "struct "@ + o.name + " {\n"@ + oml_variable_lines(o.variables) + "}\n"@
}

/// The OML text of one object.
pub open spec fn oml_object_text(o: SpecOmlObject) -> Seq<char> {
    if o.oml_type == ObjectType::ENUM {
        oml_enum_text(o)
    } else if o.oml_type == ObjectType::CLASS {
        oml_class_text(o)
    } else {
        oml_struct_text(o)
    }
}

/// The objects one after another, a blank line between two consecutive ones.
pub open spec fn oml_objects_text(objs: Seq<SpecOmlObject>, total: nat) -> Seq<char>
    decreases objs.len(),
{
    if objs.len() == 0 {
        Seq::empty()
    } else {
        oml_objects_text(objs.drop_last(), total) + oml_object_text(objs.last())
            + (if objs.len() < total { "\n"@ } else { Seq::<char>::empty() })
    }
}

/// The OML file for `objs`; an error where some object is `UNDECIDED`.
pub open spec fn oml_file(objs: Seq<SpecOmlObject>) -> Result<Seq<char>, GenerateError> {
    if has_undecided(objs) {
        Err(GenerateError::UndecidedForOml)
    } else {
        Ok(oml_objects_text(objs, objs.len()))
    }
}

/// Writes an OML enum.
pub fn generate_enum(obj: &OmlObject, out: &mut String)
    ensures
        final(out)@ == old(out)@ + oml_enum_text(obj@),
{
    let mut s = String::from_str("enum ");
    s.append(obj.name.as_str());
    s.append(" {\n");
    let ghost vs = vars_view(obj.variables@);
    let mut lines = String::new();
    let mut i: usize = 0;
    while i < obj.variables.len()
        invariant
            i <= obj.variables.len(),
            vs == vars_view(obj.variables@),
            lines@ == oml_enum_lines(vs.take(i as int)),
        decreases obj.variables.len() - i,
    {
        assert(vs.take(i + 1).drop_last() == vs.take(i as int));
        let var = &obj.variables[i];
        let mut l = String::from_str("    ");
        l.append(var.var_type.as_str());
        l.append(" ");
        l.append(var.name.as_str());
        l.append(";\n");
        lines.append(l.as_str());
        i += 1;
    }
    assert(vs.take(obj.variables.len() as int) == vs);
    s.append(lines.as_str());
    s.append("}\n");
    out.append(s.as_str());
}

/// Writes an OML class.
pub fn generate_class(obj: &OmlObject, out: &mut String)
    ensures
        final(out)@ == old(out)@ + oml_class_text(obj@),
{
    let mut s = String::from_str("class ");
    s.append(obj.name.as_str());
    s.append(" {\n");
    write_variables(obj, &mut s);
    s.append("}\n");
    out.append(s.as_str());
}

/// Writes an OML struct.
pub fn generate_struct(obj: &OmlObject, out: &mut String)
    ensures
        final(out)@ == old(out)@ + oml_struct_text(obj@),
{
    let mut s = String::from_str("struct ");
    s.append(obj.name.as_str());
    s.append(" {\n");
    write_variables(obj, &mut s);
    s.append("}\n");
    out.append(s.as_str());
}

fn write_modifiers(mods: &Vec<VariableModifier>) -> (r: String)
    ensures
        r@ == oml_modifiers(mods@),
{
    let mut r = String::new();
    let mut i: usize = 0;
    while i < mods.len()
        invariant
            i <= mods.len(),
            r@ == oml_modifiers(mods@.take(i as int)),
        decreases mods.len() - i,
    {
        assert(mods@.take(i + 1).drop_last() == mods@.take(i as int));
        match mods[i] {
            VariableModifier::CONST => r.append("const "),
            VariableModifier::MUT => r.append("mut "),
            VariableModifier::STATIC => r.append("static "),
            VariableModifier::OPTIONAL => r.append("optional "),
        }
        i += 1;
    }
    assert(mods@.take(mods.len() as int) == mods@);
    r
}

fn write_variable(var: &Variable) -> (r: String)
    ensures
        r@ == oml_variable_line(var@),
{
    let mut s = String::from_str("    ");
    let mut vis = String::new();
    match var.visibility {
        VariableVisibility::PUBLIC => vis.append("public "),
        VariableVisibility::PROTECTED => vis.append("protected "),
        VariableVisibility::PRIVATE => {},
    }
    s.append(vis.as_str());
    let mods = write_modifiers(&var.var_mod);
    s.append(mods.as_str());
    let mut t = String::new();
    match var.array_kind {
        ArrayKind::Scalar => t.append(var.var_type.as_str()),
        ArrayKind::Static(n) => {
            t.append(var.var_type.as_str());
            t.append("[");
            push_decimal(&mut t, n as u64);
            t.append("]");
        },
        ArrayKind::Dynamic => {
            t.append("list ");
            t.append(var.var_type.as_str());
        },
    }
    s.append(t.as_str());
    s.append(" ");
    s.append(var.name.as_str());
    s.append(";\n");
    s
}

/// Writes the member lines of a class or struct: visibility (private
/// omitted), modifiers, type with its array kind, name.
pub fn write_variables(obj: &OmlObject, out: &mut String)
    ensures
        final(out)@ == old(out)@ + oml_variable_lines(vars_view(obj.variables@)),
{
    let ghost vs = vars_view(obj.variables@);
    let mut lines = String::new();
    let mut i: usize = 0;
    while i < obj.variables.len()
        invariant
            i <= obj.variables.len(),
            vs == vars_view(obj.variables@),
            lines@ == oml_variable_lines(vs.take(i as int)),
        decreases obj.variables.len() - i,
    {
        assert(vs.take(i + 1).drop_last() == vs.take(i as int));
        let l = write_variable(&obj.variables[i]);
        lines.append(l.as_str());
        i += 1;
    }
    assert(vs.take(obj.variables.len() as int) == vs);
    out.append(lines.as_str());
}

impl Generate for OmlGenerator {
    open spec fn spec_generate(&self, objs: Seq<SpecOmlObject>, file_name: Seq<char>) -> Result<Seq<char>, GenerateError> {
        oml_file(objs)
    }

    open spec fn spec_extension(&self) -> Seq<char> {
        "oml"@
    }

    fn generate(&self, oml_objects: &[OmlObject], _file_name: &str) -> (r: Result<String, GenerateError>) {
        let ghost os = objects_view(oml_objects@);
        let n = oml_objects.len();
        let mut oml_file = String::new();
        let mut i: usize = 0;
        while i < n
            invariant
                i <= n,
                n == oml_objects.len(),
                os == objects_view(oml_objects@),
                oml_file@ == oml_objects_text(os.take(i as int), n as nat),
                forall|k: int| 0 <= k < i ==> os[k].oml_type != ObjectType::UNDECIDED,
            decreases n - i,
        {
            assert(os.take(i + 1).drop_last() == os.take(i as int));
            let obj = &oml_objects[i];
            assert(os[i as int] == obj@);
            let mut one = String::new();
            match obj.oml_type {
                ObjectType::ENUM => generate_enum(obj, &mut one),
                ObjectType::CLASS => generate_class(obj, &mut one),
                ObjectType::STRUCT => generate_struct(obj, &mut one),
                ObjectType::UNDECIDED => {
                    return Err(GenerateError::UndecidedForOml);
                },
            }
            if i < n - 1 {
                one.append("\n");
            }
            oml_file.append(one.as_str());
            i += 1;
        }
        assert(os.take(n as int) == os);
        Ok(oml_file)
    }

    fn extension(&self) -> (r: &str) {
        "oml"
    }
}

} // verus!
