use vstd::prelude::*;
use crate::oml_object::{
    ArrayKind, ObjectType, SpecOmlObject, SpecVariable, Variable, VariableModifier,
    VariableVisibility,
};
use crate::oml_object::vars_view;
use crate::chars::{trim, trim_chars, trim_end_in, trim_end_matching};
use crate::text::string_of;

verus! {

/// A variable read back from source code.
pub open spec fn read_var(
    var_mod: Seq<VariableModifier>,
    visibility: VariableVisibility,
    var_type: Seq<char>,
    array_kind: ArrayKind,
    name: Seq<char>,
) -> SpecVariable {
    SpecVariable { var_mod, visibility, var_type, array_kind, name }
}

/// An enum variant read back: a public scalar of type `string`.
pub open spec fn variant_var(name: Seq<char>) -> SpecVariable {
    read_var(Seq::empty(), VariableVisibility::PUBLIC, "string"@, ArrayKind::Scalar, name)
}

/// An object read back from source code.
pub open spec fn read_object(oml_type: ObjectType, name: Seq<char>, variables: Seq<SpecVariable>) -> SpecOmlObject {
    SpecOmlObject { oml_type, name, variables }
}

/// The value held by `o`, as a sequence of none or one.
pub open spec fn opt_seq<T>(o: Option<T>) -> Seq<T> {
    match o {
        Some(v) => seq![v],
        Option::None => Seq::empty(),
    }
}

/// The view of an optional variable.
pub open spec fn opt_var_view(o: Option<Variable>) -> Option<SpecVariable> {
    match o {
        Some(v) => Some(v@),
        Option::None => Option::None,
    }
}

/// The enum variant named `name`.
pub fn new_variant(name: &Vec<char>) -> (r: Variable)
    ensures
        r@ == variant_var(name@),
{
    let t = String::from_str("string");
    proof {
        reveal_strlit("string");
    }
    let v = Variable {
        var_mod: Vec::new(),
        visibility: VariableVisibility::PUBLIC,
        var_type: t,
        array_kind: ArrayKind::Scalar,
        name: string_of(name),
    };
    assert(v@.var_mod =~= Seq::<VariableModifier>::empty());
    v
}

/// A variable with the given parts.
pub fn new_var(
    var_mod: Vec<VariableModifier>,
    visibility: VariableVisibility,
    var_type: String,
    array_kind: ArrayKind,
    name: &Vec<char>,
) -> (r: Variable)
    ensures
        r@ == read_var(var_mod@, visibility, var_type@, array_kind, name@),
{
    Variable { var_mod, visibility, var_type, array_kind, name: string_of(name) }
}

/// The variant named by a trimmed line of an enum body, if it names one:
/// the line without its trailing commas, trimmed.
pub open spec fn line_variant(t: Seq<char>) -> Seq<SpecVariable> {
    let v = trim(trim_end_in(t, ","@));
    if v.len() > 0 { seq![variant_var(v)] } else { Seq::empty() }
}

/// Appends the variant named by the trimmed line `line`, if it names one.
pub fn push_line_variant(vars: &mut Vec<Variable>, line: &Vec<char>)
    ensures
        vars_view(final(vars)@) == vars_view(old(vars)@) + line_variant(line@),
{
    let v = trim_end_matching(line, ",");
    let variant = trim_chars(&v);
    let ghost before = vars_view(vars@);
    if variant.len() > 0 {
        vars.push(new_variant(&variant));
    }
    assert(vars_view(vars@) =~= before + line_variant(line@));
}

} // verus!
