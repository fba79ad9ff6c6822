use vstd::prelude::*;
use crate::oml_object::{
    ArrayKind, ObjectType, OmlObject, SpecOmlObject, SpecVariable, Variable, VariableModifier,
    VariableVisibility, objects_view, vars_view,
};
use crate::generate::{Generate, GenerateError, has_undecided};
use crate::text::{
    capitalise, capitalised, decimal, eq_str, join, join_strings, push_decimal, str_upper,
    strings_view, to_uppercase, utf8_len, utf8_len_of,
};

verus! {

/// Generates C++ headers from OML objects, and reads them back.
pub struct CppGenerator;

// ---------------------------------------------------------------- types

/// The C++ spelling of an OML type name.
pub open spec fn cpp_type(t: Seq<char>) -> Seq<char> {
    if t == "int8"@ { "int8_t"@ }
    else if t == "int16"@ { "int16_t"@ }
    else if t == "int32"@ { "int32_t"@ }
    else if t == "int64"@ { "int64_t"@ }
    else if t == "uint8"@ { "uint8_t"@ }
    else if t == "uint16"@ { "uint16_t"@ }
    else if t == "uint32"@ { "uint32_t"@ }
    else if t == "uint64"@ { "uint64_t"@ }
    else if t == "float"@ { "float"@ }
    else if t == "double"@ { "double"@ }
    else if t == "bool"@ { "bool"@ }
    else if t == "string"@ { "std::string"@ }
    else if t == "char"@ { "char"@ }
    else { t }
}

/// Converts an OML type name to its C++ spelling; other names are kept.
pub fn convert_type(var_type: &str) -> (r: String)
    ensures
        r@ == cpp_type(var_type@),
{
    if eq_str(var_type, "int8") { String::from_str("int8_t") }
    else if eq_str(var_type, "int16") { String::from_str("int16_t") }
    else if eq_str(var_type, "int32") { String::from_str("int32_t") }
    else if eq_str(var_type, "int64") { String::from_str("int64_t") }
    else if eq_str(var_type, "uint8") { String::from_str("uint8_t") }
    else if eq_str(var_type, "uint16") { String::from_str("uint16_t") }
    else if eq_str(var_type, "uint32") { String::from_str("uint32_t") }
    else if eq_str(var_type, "uint64") { String::from_str("uint64_t") }
    else if eq_str(var_type, "float") { String::from_str("float") }
    else if eq_str(var_type, "double") { String::from_str("double") }
    else if eq_str(var_type, "bool") { String::from_str("bool") }
    else if eq_str(var_type, "string") { String::from_str("std::string") }
    else if eq_str(var_type, "char") { String::from_str("char") }
    else { String::from_str(var_type) }
}

/// The C++ type of a value of OML type `t` held as `k`.
pub open spec fn cpp_type_annotation(t: Seq<char>, k: ArrayKind) -> Seq<char> {
    match k {
        ArrayKind::Scalar => cpp_type(t),
        ArrayKind::Static(n) => "std::array<"@ + cpp_type(t) + ", "@ + decimal(n as nat) + ">"@,
        ArrayKind::Dynamic => "std::vector<"@ + cpp_type(t) + ">"@,
    }
}

/// Converts an OML type and array kind to a C++ type.
pub fn type_annotation(var_type: &str, array_kind: &ArrayKind) -> (r: String)
    ensures
        r@ == cpp_type_annotation(var_type@, *array_kind),
{
    let base = convert_type(var_type);
    match array_kind {
        ArrayKind::Scalar => base,
        ArrayKind::Static(n) => {
            let mut r = String::from_str("std::array<");
            r.append(base.as_str());
            r.append(", ");
            push_decimal(&mut r, *n as u64);
            r.append(">");
            r
        },
        ArrayKind::Dynamic => {
            let mut r = String::from_str("std::vector<");
            r.append(base.as_str());
            r.append(">");
            r
        },
    }
}

/// The C++ type of a variable, wrapped in `std::optional` when it is optional.
pub open spec fn cpp_full_type(v: SpecVariable) -> Seq<char> {
    if v.is_optional() {
        "std::optional<"@ + cpp_type_annotation(v.var_type, v.array_kind) + ">"@
    } else {
        cpp_type_annotation(v.var_type, v.array_kind)
    }
}

/// The full C++ type of `var`.
pub fn get_full_type(var: &Variable) -> (r: String)
    ensures
        r@ == cpp_full_type(var@),
{
    let base = type_annotation(var.var_type.as_str(), &var.array_kind);
    if var.has(VariableModifier::OPTIONAL) {
        let mut r = String::from_str("std::optional<");
        r.append(base.as_str());
        r.append(">");
        r
    } else {
        base
    }
}

// ---------------------------------------------------------------- members

/// The declaration line of a member variable.
pub open spec fn cpp_member_decl(v: SpecVariable) -> Seq<char> {
    "\t"@
        + (if v.is_static() { "static "@ } else { Seq::<char>::empty() })
        + (if v.is_readonly() { "const "@ } else { Seq::<char>::empty() })
        + cpp_full_type(v) + " "@ + v.name + ";\n"@
}

/// Writes the declaration of `var`: `static` first, `const` unless `mut`
/// overrides it, then the type and the name.
pub fn convert_modifiers_and_type(var: &Variable, cpp_file: &mut String) -> (r: Result<(), GenerateError>)
    ensures
        r is Ok,
        final(cpp_file)@ == old(cpp_file)@ + cpp_member_decl(var@),
{
    cpp_file.append("\t");
    if var.has(VariableModifier::STATIC) {
        cpp_file.append("static ");
    }
    if var.has(VariableModifier::CONST) && !var.has(VariableModifier::MUT) {
        cpp_file.append("const ");
    }
    let t = get_full_type(var);
    cpp_file.append(t.as_str());
    cpp_file.append(" ");
    cpp_file.append(var.name.as_str());
    cpp_file.append(";\n");
    Ok(())
}

/// Whether some variable of `vars` has visibility `vis`.
pub open spec fn any_with_visibility(vars: Seq<SpecVariable>, vis: VariableVisibility) -> bool {
    exists|i: int| 0 <= i < vars.len() && vars[i].visibility == vis
}

/// The declarations of the variables of `vars` with visibility `vis`, in order.
pub open spec fn cpp_decls_with(vars: Seq<SpecVariable>, vis: VariableVisibility) -> Seq<char>
    decreases vars.len(),
{
    if vars.len() == 0 {
        Seq::empty()
    } else {
        cpp_decls_with(vars.drop_last(), vis)
            + (if vars.last().visibility == vis { cpp_member_decl(vars.last()) } else { Seq::<char>::empty() })
    }
}

/// The label that opens a section of the given visibility.
pub open spec fn cpp_label(vis: VariableVisibility) -> Seq<char> {
    match vis {
        VariableVisibility::PUBLIC => "public:"@,
        VariableVisibility::PROTECTED => "protected:"@,
        VariableVisibility::PRIVATE => "private:"@,
    }
}

/// The section of member variables of visibility `vis`: nothing where there is none.
pub open spec fn cpp_visibility_section(vars: Seq<SpecVariable>, vis: VariableVisibility, write_label: bool) -> Seq<char> {
    if !any_with_visibility(vars, vis) {
        Seq::empty()
    } else {
        (if write_label { cpp_label(vis) + "\n"@ } else { Seq::<char>::empty() }) + cpp_decls_with(vars, vis)
    }
}

fn any_visibility(variables: &Vec<Variable>, visibility: VariableVisibility) -> (r: bool)
    ensures
        r == any_with_visibility(vars_view(variables@), visibility),
{
    let mut i: usize = 0;
    while i < variables.len()
        invariant
            i <= variables.len(),
            forall|j: int| 0 <= j < i ==> vars_view(variables@)[j].visibility != visibility,
        decreases variables.len() - i,
    {
        if variables[i].visibility == visibility {
            assert(vars_view(variables@)[i as int].visibility == visibility);
            return true;
        }
        i += 1;
    }
    false
}

/// Writes the member variables of the given visibility, preceded by their
/// label where `write_label` holds; writes nothing where there is none.
pub fn generate_visibility_vars(
    variables: &Vec<Variable>,
    cpp_file: &mut String,
    visibility: VariableVisibility,
    write_label: bool,
)
    ensures
        final(cpp_file)@ == old(cpp_file)@ + cpp_visibility_section(vars_view(variables@), visibility, write_label),
{
    if !any_visibility(variables, visibility) {
        return;
    }
    if write_label {
        match visibility {
            VariableVisibility::PUBLIC => cpp_file.append("public:"),
            VariableVisibility::PROTECTED => cpp_file.append("protected:"),
            VariableVisibility::PRIVATE => cpp_file.append("private:"),
        }
        cpp_file.append("\n");
    }
    let ghost start = cpp_file@;
    let ghost vs = vars_view(variables@);
    let mut i: usize = 0;
    while i < variables.len()
        invariant
            i <= variables.len(),
            vs == vars_view(variables@),
            cpp_file@ == start + cpp_decls_with(vs.take(i as int), visibility),
        decreases variables.len() - i,
    {
        assert(vs.take(i + 1).drop_last() == vs.take(i as int));
        if variables[i].visibility == visibility {
            let _ = convert_modifiers_and_type(&variables[i], cpp_file);
        }
        i += 1;
    }
    assert(vs.take(variables.len() as int) == vs);
}

// ---------------------------------------------------------------- accessors

/// The getter of a variable.
pub open spec fn cpp_getter(v: SpecVariable) -> Seq<char> {
    "\t"@ + cpp_full_type(v) + " get"@ + capitalised(v.name) + "() const { return "@ + v.name + "; }\n"@
}

/// The setter of a variable.
pub open spec fn cpp_setter(v: SpecVariable) -> Seq<char> {
    "\tvoid set"@ + capitalised(v.name) + "(const "@ + cpp_full_type(v) + "& value) { "@ + v.name + " = value; }\n"@
}

/// The getters of the private variables of `vars`, in order.
pub open spec fn cpp_getters(vars: Seq<SpecVariable>) -> Seq<char>
    decreases vars.len(),
{
    if vars.len() == 0 {
        Seq::empty()
    } else {
        cpp_getters(vars.drop_last())
            + (if vars.last().visibility == VariableVisibility::PRIVATE { cpp_getter(vars.last()) } else { Seq::<char>::empty() })
    }
}

/// The setters of the private variables of `vars` that are not `const`, in order.
pub open spec fn cpp_setters(vars: Seq<SpecVariable>) -> Seq<char>
    decreases vars.len(),
{
    if vars.len() == 0 {
        Seq::empty()
    } else {
        cpp_setters(vars.drop_last())
            + (if vars.last().visibility == VariableVisibility::PRIVATE && !vars.last().has(VariableModifier::CONST) {
                cpp_setter(vars.last())
            } else {
                Seq::<char>::empty()
            })
    }
}

/// Getters for every private variable, a blank line, then setters for the
/// private ones that are not `const`; nothing where no variable is private.
pub open spec fn cpp_getters_and_setters(vars: Seq<SpecVariable>) -> Seq<char> {
    if !any_with_visibility(vars, VariableVisibility::PRIVATE) {
        Seq::empty()
    } else {
        cpp_getters(vars) + "\n"@ + cpp_setters(vars)
    }
}

fn write_getter(var: &Variable, cpp_file: &mut String)
    ensures
        final(cpp_file)@ == old(cpp_file)@ + cpp_getter(var@),
{
    let t = get_full_type(var);
    let c = capitalise(var.name.as_str());
    cpp_file.append("\t");
    cpp_file.append(t.as_str());
    cpp_file.append(" get");
    cpp_file.append(c.as_str());
    cpp_file.append("() const { return ");
    cpp_file.append(var.name.as_str());
    cpp_file.append("; }\n");
}

fn write_setter(var: &Variable, cpp_file: &mut String)
    ensures
        final(cpp_file)@ == old(cpp_file)@ + cpp_setter(var@),
{
    let t = get_full_type(var);
    let c = capitalise(var.name.as_str());
    cpp_file.append("\tvoid set");
    cpp_file.append(c.as_str());
    cpp_file.append("(const ");
    cpp_file.append(t.as_str());
    cpp_file.append("& value) { ");
    cpp_file.append(var.name.as_str());
    cpp_file.append(" = value; }\n");
}

/// Writes getters for the private variables and setters for those of them
/// that are not `const`.
pub fn generate_getters_and_setters(variables: &Vec<Variable>, cpp_file: &mut String)
    ensures
        final(cpp_file)@ == old(cpp_file)@ + cpp_getters_and_setters(vars_view(variables@)),
{
    if !any_visibility(variables, VariableVisibility::PRIVATE) {
        return;
    }
    let ghost vs = vars_view(variables@);
    let ghost start = cpp_file@;
    let mut i: usize = 0;
    while i < variables.len()
        invariant
            i <= variables.len(),
            vs == vars_view(variables@),
            cpp_file@ == start + cpp_getters(vs.take(i as int)),
        decreases variables.len() - i,
    {
        assert(vs.take(i + 1).drop_last() == vs.take(i as int));
        if variables[i].visibility == VariableVisibility::PRIVATE {
            write_getter(&variables[i], cpp_file);
        }
        i += 1;
    }
    assert(vs.take(variables.len() as int) == vs);
    cpp_file.append("\n");
    let ghost mid = cpp_file@;
    let mut i: usize = 0;
    while i < variables.len()
        invariant
            i <= variables.len(),
            vs == vars_view(variables@),
            cpp_file@ == mid + cpp_setters(vs.take(i as int)),
        decreases variables.len() - i,
    {
        assert(vs.take(i + 1).drop_last() == vs.take(i as int));
        if variables[i].visibility == VariableVisibility::PRIVATE && !variables[i].has(VariableModifier::CONST) {
            write_setter(&variables[i], cpp_file);
        }
        i += 1;
    }
    assert(vs.take(variables.len() as int) == vs);
}

// ---------------------------------------------------------------- constructors

/// The longest line that a constructor is written on before it is broken up.
pub const MAX_LINE_LENGTH: usize = 120;

/// The initialiser lines of a broken-up constructor: the first bare, the
/// others after `, `.
pub open spec fn cpp_init_lines(inits: Seq<Seq<char>>) -> Seq<char>
    decreases inits.len(),
{
    if inits.len() == 0 {
        Seq::empty()
    } else if inits.len() == 1 {
        inits[0] + "\n"@
    } else {
        cpp_init_lines(inits.drop_last()) + "\t\t, "@ + inits.last() + "\n"@
    }
}

/// A constructor with the given parameters and member initialisers: on one
/// line where that line takes at most 120 bytes, else the signature on one
/// line and the initialisers after it, on one line where that fits and one
/// per line otherwise.
pub open spec fn cpp_constructor(prefix: Seq<char>, name: Seq<char>, params: Seq<Seq<char>>, inits: Seq<Seq<char>>) -> Seq<char> {
    let ps = join(params, ", "@);
    let is = join(inits, ", "@);
    let single = "\t"@ + prefix + name + "("@ + ps + ") : "@ + is + " {}"@;
    if utf8_len(single) <= 120 {
        single + "\n"@
    } else {
        "\t"@ + prefix + name + "("@ + ps + ")\n"@ + "\t\t: "@
            + (if utf8_len("\t\t: "@ + is + " {}"@) <= 120 {
                is + " {}\n"@
            } else {
                cpp_init_lines(inits) + "\t{}\n"@
            })
    }
}

/// Writes a constructor; see [`cpp_constructor`] for its layout.
pub fn write_constructor(
    cpp_file: &mut String,
    prefix: &str,
    name: &str,
    params: &Vec<String>,
    inits: &Vec<String>,
)
    ensures
        final(cpp_file)@ == old(cpp_file)@ + cpp_constructor(prefix@, name@, strings_view(params@), strings_view(inits@)),
{
    let params_str = join_strings(params, ", ");
    let inits_str = join_strings(inits, ", ");
    let mut single_line = String::from_str("\t");
    single_line.append(prefix);
    single_line.append(name);
    single_line.append("(");
    single_line.append(params_str.as_str());
    single_line.append(") : ");
    single_line.append(inits_str.as_str());
    single_line.append(" {}");
    if utf8_len_of(single_line.as_str()) <= MAX_LINE_LENGTH {
        cpp_file.append(single_line.as_str());
        cpp_file.append("\n");
    } else {
        cpp_file.append("\t");
        cpp_file.append(prefix);
        cpp_file.append(name);
        cpp_file.append("(");
        cpp_file.append(params_str.as_str());
        cpp_file.append(")\n");
        cpp_file.append("\t\t: ");
        let mut colon_line = String::from_str("\t\t: ");
        colon_line.append(inits_str.as_str());
        colon_line.append(" {}");
        if utf8_len_of(colon_line.as_str()) <= MAX_LINE_LENGTH {
            cpp_file.append(inits_str.as_str());
            cpp_file.append(" {}\n");
        } else {
            let ghost start = cpp_file@;
            let ghost iv = strings_view(inits@);
            let mut i: usize = 0;
            while i < inits.len()
                invariant
                    i <= inits.len(),
                    iv == strings_view(inits@),
                    cpp_file@ == start + cpp_init_lines(iv.take(i as int)),
                decreases inits.len() - i,
            {
                assert(iv.take(i + 1).drop_last() == iv.take(i as int));
                if i == 0 {
                    cpp_file.append(inits[i].as_str());
                    cpp_file.append("\n");
                } else {
                    cpp_file.append("\t\t, ");
                    cpp_file.append(inits[i].as_str());
                    cpp_file.append("\n");
                }
                i += 1;
            }
            assert(iv.take(inits.len() as int) == iv);
            cpp_file.append("\t{}\n");
        }
    }
}

/// The non-optional variables of `vars`, in order.
pub open spec fn required_vars(vars: Seq<SpecVariable>) -> Seq<SpecVariable>
    decreases vars.len(),
{
    if vars.len() == 0 {
        Seq::empty()
    } else if !vars.last().is_optional() {
        required_vars(vars.drop_last()).push(vars.last())
    } else {
        required_vars(vars.drop_last())
    }
}

/// The optional variables of `vars`, in order.
pub open spec fn optional_vars(vars: Seq<SpecVariable>) -> Seq<SpecVariable>
    decreases vars.len(),
{
    if vars.len() == 0 {
        Seq::empty()
    } else if vars.last().is_optional() {
        optional_vars(vars.drop_last()).push(vars.last())
    } else {
        optional_vars(vars.drop_last())
    }
}

/// `type name` for each variable.
pub open spec fn cpp_params(vars: Seq<SpecVariable>) -> Seq<Seq<char>>
    decreases vars.len(),
{
    if vars.len() == 0 {
        Seq::empty()
    } else {
        cpp_params(vars.drop_last()).push(cpp_full_type(vars.last()) + " "@ + vars.last().name)
    }
}

/// `name(std::move(name))` for each variable.
pub open spec fn cpp_inits(vars: Seq<SpecVariable>) -> Seq<Seq<char>>
    decreases vars.len(),
{
    if vars.len() == 0 {
        Seq::empty()
    } else {
        cpp_inits(vars.drop_last()).push(vars.last().name + "(std::move("@ + vars.last().name + "))"@)
    }
}

/// The constructors of a class: a default one; one of the required
/// variables where there are both required and optional ones; one of all.
pub open spec fn cpp_constructors(name: Seq<char>, vars: Seq<SpecVariable>) -> Seq<char> {
    let default_line = "\t"@ + name + "() = default;\n"@;
    if vars.len() == 0 {
        default_line
    } else {
        let req = required_vars(vars);
        let opt = optional_vars(vars);
        default_line
            + (if req.len() > 0 && opt.len() > 0 {
                cpp_constructor("explicit "@, name, cpp_params(req), cpp_inits(req))
            } else {
                Seq::<char>::empty()
            })
            + cpp_constructor(""@, name, cpp_params(vars), cpp_inits(vars))
    }
}

/// The parameters and initialisers for the variables of `variables` that
/// are optional (`want_optional`) or required (otherwise), or for all.
fn params_and_inits(variables: &Vec<Variable>, select: bool, want_optional: bool) -> (r: (Vec<String>, Vec<String>))
    ensures
        select && want_optional ==> strings_view(r.0@) == cpp_params(optional_vars(vars_view(variables@)))
            && strings_view(r.1@) == cpp_inits(optional_vars(vars_view(variables@))),
        select && !want_optional ==> strings_view(r.0@) == cpp_params(required_vars(vars_view(variables@)))
            && strings_view(r.1@) == cpp_inits(required_vars(vars_view(variables@))),
        !select ==> strings_view(r.0@) == cpp_params(vars_view(variables@))
            && strings_view(r.1@) == cpp_inits(vars_view(variables@)),
{
    let ghost vs = vars_view(variables@);
    let mut params: Vec<String> = Vec::new();
    let mut inits: Vec<String> = Vec::new();
    let mut i: usize = 0;
    while i < variables.len()
        invariant
            i <= variables.len(),
            vs == vars_view(variables@),
            select && want_optional ==> strings_view(params@) == cpp_params(optional_vars(vs.take(i as int)))
                && strings_view(inits@) == cpp_inits(optional_vars(vs.take(i as int))),
            select && !want_optional ==> strings_view(params@) == cpp_params(required_vars(vs.take(i as int)))
                && strings_view(inits@) == cpp_inits(required_vars(vs.take(i as int))),
            !select ==> strings_view(params@) == cpp_params(vs.take(i as int))
                && strings_view(inits@) == cpp_inits(vs.take(i as int)),
        decreases variables.len() - i,
    {
        assert(vs.take(i + 1).drop_last() == vs.take(i as int));
        let v = &variables[i];
        let is_opt = v.has(VariableModifier::OPTIONAL);
        if !select || is_opt == want_optional {
            let mut p = get_full_type(v);
            p.append(" ");
            p.append(v.name.as_str());
            let mut q = String::new();
            q.append(v.name.as_str());
            q.append("(std::move(");
            q.append(v.name.as_str());
            q.append("))");
            let ghost pv = params@;
            let ghost qv = inits@;
            params.push(p);
            inits.push(q);
            assert(strings_view(params@) == strings_view(pv).push(params@.last()@));
            assert(strings_view(inits@) == strings_view(qv).push(inits@.last()@));
        }
        proof {
            let t = vs.take(i as int);
            let t1 = vs.take(i + 1);
            let o = optional_vars(t);
            let r = required_vars(t);
            assert(o.push(vs[i as int]).drop_last() == o);
            assert(r.push(vs[i as int]).drop_last() == r);
            assert(t.push(vs[i as int]).drop_last() == t);
            assert(t1 == t.push(vs[i as int]));
        }
        i += 1;
    }
    assert(vs.take(variables.len() as int) == vs);
    (params, inits)
}

proof fn lemma_params_len(vars: Seq<SpecVariable>)
    ensures
        cpp_params(vars).len() == vars.len(),
    decreases vars.len(),
{
    if vars.len() > 0 {
        lemma_params_len(vars.drop_last());
    }
}

/// Writes the constructors of a class or struct.
pub fn generate_constructors(oml_object: &OmlObject, cpp_file: &mut String)
    ensures
        final(cpp_file)@ == old(cpp_file)@ + cpp_constructors(oml_object.name@, vars_view(oml_object.variables@)),
{
    let name = oml_object.name.as_str();
    cpp_file.append("\t");
    cpp_file.append(name);
    cpp_file.append("() = default;\n");
    if oml_object.variables.len() == 0 {
        return;
    }
    let (rp, ri) = params_and_inits(&oml_object.variables, true, false);
    let (op, oi) = params_and_inits(&oml_object.variables, true, true);
    proof {
        lemma_params_len(required_vars(vars_view(oml_object.variables@)));
        lemma_params_len(optional_vars(vars_view(oml_object.variables@)));
    }
    if rp.len() > 0 && op.len() > 0 {
        write_constructor(cpp_file, "explicit ", name, &rp, &ri);
    }
    let (ap, ai) = params_and_inits(&oml_object.variables, false, false);
    write_constructor(cpp_file, "", name, &ap, &ai);
}

/// The copy and move constructors, the assignment operators and the destructor.
pub open spec fn cpp_copy_move(n: Seq<char>) -> Seq<char> {
    "\t"@ + n + "(const "@ + n + "& other) = default;\n"@
        + "\t"@ + n + "("@ + n + "&& other) noexcept = default;\n"@
        + "\t"@ + n + "& operator=(const "@ + n + "& other) = default;\n"@
        + "\t"@ + n + "& operator=("@ + n + "&& other) noexcept = default;\n"@
        + "\t~"@ + n + "() = default;\n"@
}

/// Writes the defaulted copy/move constructors, assignments and destructor.
pub fn generate_copy_move_and_destructor(oml_object: &OmlObject, cpp_file: &mut String)
    ensures
        final(cpp_file)@ == old(cpp_file)@ + cpp_copy_move(oml_object.name@),
{
    let n = oml_object.name.as_str();
    cpp_file.append("\t");
    cpp_file.append(n);
    cpp_file.append("(const ");
    cpp_file.append(n);
    cpp_file.append("& other) = default;\n");
    cpp_file.append("\t");
    cpp_file.append(n);
    cpp_file.append("(");
    cpp_file.append(n);
    cpp_file.append("&& other) noexcept = default;\n");
    cpp_file.append("\t");
    cpp_file.append(n);
    cpp_file.append("& operator=(const ");
    cpp_file.append(n);
    cpp_file.append("& other) = default;\n");
    cpp_file.append("\t");
    cpp_file.append(n);
    cpp_file.append("& operator=(");
    cpp_file.append(n);
    cpp_file.append("&& other) noexcept = default;\n");
    cpp_file.append("\t~");
    cpp_file.append(n);
    cpp_file.append("() = default;\n");
}

// ---------------------------------------------------------------- objects

/// The body of a class or struct: constructors, special members and
/// accessors under `public:`, then the public, protected and private members.
pub open spec fn cpp_class_text(o: SpecOmlObject) -> Seq<char> {
    let kw = if o.oml_type == ObjectType::CLASS { "class"@ } else { "struct"@ };
    kw + " "@ + o.name + " {\n"@ + "public:\n"@
        + cpp_constructors(o.name, o.variables) + "\n"@
        + cpp_copy_move(o.name) + "\n"@
        + cpp_getters_and_setters(o.variables)
        + cpp_visibility_section(o.variables, VariableVisibility::PUBLIC, false)
        + cpp_visibility_section(o.variables, VariableVisibility::PROTECTED, true)
        + cpp_visibility_section(o.variables, VariableVisibility::PRIVATE, true)
        + "};\n"@
}

/// Writes a class or struct; an object of another type is refused and
/// nothing is written.
pub fn generate_class_or_struct(oml_object: &OmlObject, cpp_file: &mut String) -> (r: Result<(), GenerateError>)
    ensures
        (oml_object.oml_type == ObjectType::CLASS || oml_object.oml_type == ObjectType::STRUCT) ==> {
            &&& r is Ok
            &&& final(cpp_file)@ == old(cpp_file)@ + cpp_class_text(oml_object@)
        },
        !(oml_object.oml_type == ObjectType::CLASS || oml_object.oml_type == ObjectType::STRUCT) ==> {
            &&& r == Err::<(), GenerateError>(GenerateError::NotClassOrStruct)
            &&& final(cpp_file)@ == old(cpp_file)@
        },
{
    let mut s = match oml_object.oml_type {
        ObjectType::CLASS => String::from_str("class"),
        ObjectType::STRUCT => String::from_str("struct"),
        _ => return Err(GenerateError::NotClassOrStruct),
    };
    s.append(" ");
    s.append(oml_object.name.as_str());
    s.append(" {\n");
    s.append("public:\n");
    generate_constructors(oml_object, &mut s);
    s.append("\n");
    generate_copy_move_and_destructor(oml_object, &mut s);
    s.append("\n");
    generate_getters_and_setters(&oml_object.variables, &mut s);
    generate_visibility_vars(&oml_object.variables, &mut s, VariableVisibility::PUBLIC, false);
    generate_visibility_vars(&oml_object.variables, &mut s, VariableVisibility::PROTECTED, true);
    generate_visibility_vars(&oml_object.variables, &mut s, VariableVisibility::PRIVATE, true);
    s.append("};\n");
    cpp_file.append(s.as_str());
    Ok(())
}

/// The variant lines of an enum: each uppercased, all but the last followed
/// by a comma (`total` is the number of variants).
pub open spec fn cpp_enum_variants(vars: Seq<SpecVariable>, total: nat) -> Seq<char>
    decreases vars.len(),
{
    if vars.len() == 0 {
        Seq::empty()
    } else {
        cpp_enum_variants(vars.drop_last(), total) + "\t"@ + str_upper(vars.last().name)
            + (if vars.len() == total { "\n"@ } else { ",\n"@ })
    }
}

/// An `enum class` with the object's variants.
pub open spec fn cpp_enum_text(o: SpecOmlObject) -> Seq<char> {
    "enum class "@ + o.name + " {\n"@ + cpp_enum_variants(o.variables, o.variables.len()) + "};\n"@
}

/// Writes an `enum class` whose variants are the uppercased variable names.
pub fn generate_enum(oml_object: &OmlObject, cpp_file: &mut String) -> (r: Result<(), GenerateError>)
    ensures
        r is Ok,
        final(cpp_file)@ == old(cpp_file)@ + cpp_enum_text(oml_object@),
{
    cpp_file.append("enum class ");
    cpp_file.append(oml_object.name.as_str());
    cpp_file.append(" {\n");
    let ghost vs = vars_view(oml_object.variables@);
    let ghost start = cpp_file@;
    let length = oml_object.variables.len();
    let mut index: usize = 0;
    while index < length
        invariant
            index <= length,
            length == oml_object.variables.len(),
            vs == vars_view(oml_object.variables@),
            cpp_file@ == start + cpp_enum_variants(vs.take(index as int), length as nat),
        decreases length - index,
    {
        assert(vs.take(index + 1).drop_last() == vs.take(index as int));
        let var = &oml_object.variables[index];
        let upper = to_uppercase(var.name.as_str());
        cpp_file.append("\t");
        cpp_file.append(upper.as_str());
        if index == length - 1 {
            cpp_file.append("\n");
        } else {
            cpp_file.append(",\n");
        }
        index += 1;
    }
    assert(vs.take(length as int) == vs);
    cpp_file.append("};\n");
    Ok(())
}

// ---------------------------------------------------------------- files

/// The text of one object in a C++ header.
pub open spec fn cpp_object_text(o: SpecOmlObject) -> Seq<char> {
    if o.oml_type == ObjectType::ENUM { cpp_enum_text(o) } else { cpp_class_text(o) }
}

/// The objects one after another, a blank line between two consecutive ones
/// (`total` is the number of objects).
pub open spec fn cpp_objects_text(objs: Seq<SpecOmlObject>, total: nat) -> Seq<char>
    decreases objs.len(),
{
    if objs.len() == 0 {
        Seq::empty()
    } else {
        cpp_objects_text(objs.drop_last(), total) + cpp_object_text(objs.last())
            + (if objs.len() < total { "\n"@ } else { Seq::<char>::empty() })
    }
}

/// Whether some object is a class or a struct.
pub open spec fn any_class_or_struct(objs: Seq<SpecOmlObject>) -> bool {
    exists|i: int| 0 <= i < objs.len() && (objs[i].oml_type == ObjectType::CLASS || objs[i].oml_type == ObjectType::STRUCT)
}

/// Whether some variable of some object has the given array kind (any
/// size, for a static array).
pub open spec fn any_array_like(objs: Seq<SpecOmlObject>, dynamic: bool) -> bool {
    exists|i: int, j: int| 0 <= i < objs.len() && 0 <= j < objs[i].variables.len()
        && (if dynamic { objs[i].variables[j].array_kind == ArrayKind::Dynamic } else { objs[i].variables[j].array_kind is Static })
}

/// The `#include` block: present only where a class or struct is generated;
/// `<array>` and `<vector>` only where a static array or a list occurs.
pub open spec fn cpp_includes(objs: Seq<SpecOmlObject>) -> Seq<char> {
    if !any_class_or_struct(objs) {
        Seq::empty()
    } else {
        "#include <cstdint>\n"@ + "#include <string>\n"@ + "#include <optional>\n"@ + "#include <utility>\n"@
            + (if any_array_like(objs, false) { "#include <array>\n"@ } else { Seq::<char>::empty() })
            + (if any_array_like(objs, true) { "#include <vector>\n"@ } else { Seq::<char>::empty() })
            + "\n"@
    }
}

/// The header guard of a file: its name in uppercase, then `_H`.
pub open spec fn cpp_guard(file_name: Seq<char>) -> Seq<char> {
    str_upper(file_name) + "_H"@
}

/// The C++ header generated for `objs` from `file_name.oml`; an error where
/// some object is `UNDECIDED`.
pub open spec fn cpp_file(objs: Seq<SpecOmlObject>, file_name: Seq<char>) -> Result<Seq<char>, GenerateError> {
    if has_undecided(objs) {
        Err(GenerateError::UndecidedForCode)
    } else {
        let g = cpp_guard(file_name);
        Ok("// This file has been generated from "@ + file_name + ".oml\n"@
            + "#ifndef "@ + g + "\n"@ + "#define "@ + g + "\n"@ + "\n"@
            + cpp_includes(objs)
            + cpp_objects_text(objs, objs.len())
            + "#endif // "@ + g + "\n\n"@)
    }
}

fn has_class_or_struct(oml_objects: &[OmlObject]) -> (r: bool)
    ensures
        r == any_class_or_struct(objects_view(oml_objects@)),
{
    let mut i: usize = 0;
    while i < oml_objects.len()
        invariant
            i <= oml_objects.len(),
            forall|k: int| 0 <= k < i ==> !(objects_view(oml_objects@)[k].oml_type == ObjectType::CLASS
                || objects_view(oml_objects@)[k].oml_type == ObjectType::STRUCT),
        decreases oml_objects.len() - i,
    {
        if oml_objects[i].oml_type == ObjectType::CLASS || oml_objects[i].oml_type == ObjectType::STRUCT {
            assert(objects_view(oml_objects@)[i as int].oml_type == oml_objects@[i as int].oml_type);
            return true;
        }
        i += 1;
    }
    false
}

fn has_array_like(oml_objects: &[OmlObject], dynamic: bool) -> (r: bool)
    ensures
        r == any_array_like(objects_view(oml_objects@), dynamic),
{
    let ghost os = objects_view(oml_objects@);
    let mut i: usize = 0;
    while i < oml_objects.len()
        invariant
            i <= oml_objects.len(),
            os == objects_view(oml_objects@),
            forall|k: int, j: int| 0 <= k < i && 0 <= j < os[k].variables.len() ==>
                !(if dynamic { os[k].variables[j].array_kind == ArrayKind::Dynamic } else { os[k].variables[j].array_kind is Static }),
        decreases oml_objects.len() - i,
    {
        let vars = &oml_objects[i].variables;
        assert(os[i as int].variables == vars_view(vars@));
        let mut j: usize = 0;
        while j < vars.len()
            invariant
                j <= vars.len(),
                i < oml_objects.len(),
                vars == &oml_objects@[i as int].variables,
                os == objects_view(oml_objects@),
                os[i as int].variables == vars_view(vars@),
                forall|l: int| 0 <= l < j ==>
                    !(if dynamic { os[i as int].variables[l].array_kind == ArrayKind::Dynamic } else { os[i as int].variables[l].array_kind is Static }),
            decreases vars.len() - j,
        {
            let hit = match vars[j].array_kind {
                ArrayKind::Static(_) => !dynamic,
                ArrayKind::Dynamic => dynamic,
                ArrayKind::Scalar => false,
            };
            if hit {
                assert(os[i as int].variables[j as int] == vars@[j as int]@);
                return true;
            }
            j += 1;
        }
        i += 1;
    }
    false
}

fn write_includes(oml_objects: &[OmlObject]) -> (r: String)
    ensures
        r@ == cpp_includes(objects_view(oml_objects@)),
{
    if !has_class_or_struct(oml_objects) {
        return String::new();
    }
    let mut s = String::from_str("#include <cstdint>\n");
    s.append("#include <string>\n");
    s.append("#include <optional>\n");
    s.append("#include <utility>\n");
    let mut a = String::new();
    if has_array_like(oml_objects, false) {
        a.append("#include <array>\n");
    }
    s.append(a.as_str());
    let mut b = String::new();
    if has_array_like(oml_objects, true) {
        b.append("#include <vector>\n");
    }
    s.append(b.as_str());
    s.append("\n");
    s
}

impl Generate for CppGenerator {
    open spec fn spec_generate(&self, objs: Seq<SpecOmlObject>, file_name: Seq<char>) -> Result<Seq<char>, GenerateError> {
        cpp_file(objs, file_name)
    }

    open spec fn spec_extension(&self) -> Seq<char> {
        "h"@
    }

    fn generate(&self, oml_objects: &[OmlObject], file_name: &str) -> (r: Result<String, GenerateError>) {
        let ghost os = objects_view(oml_objects@);
        let header_guard_upper = to_uppercase(file_name);
        let mut header_guard = String::from_str(header_guard_upper.as_str());
        header_guard.append("_H");
        let mut cpp_file = String::from_str("// This file has been generated from ");
        cpp_file.append(file_name);
        cpp_file.append(".oml\n");
        cpp_file.append("#ifndef ");
        cpp_file.append(header_guard.as_str());
        cpp_file.append("\n");
        cpp_file.append("#define ");
        cpp_file.append(header_guard.as_str());
        cpp_file.append("\n");
        cpp_file.append("\n");
        let includes = write_includes(oml_objects);
        cpp_file.append(includes.as_str());
        let ghost start = cpp_file@;
        let n = oml_objects.len();
        let mut objects = String::new();
        let mut i: usize = 0;
        while i < n
            invariant
                i <= n,
                n == oml_objects.len(),
                os == objects_view(oml_objects@),
                objects@ == cpp_objects_text(os.take(i as int), n as nat),
                forall|k: int| 0 <= k < i ==> os[k].oml_type != ObjectType::UNDECIDED,
            decreases n - i,
        {
            assert(os.take(i + 1).drop_last() == os.take(i as int));
            let obj = &oml_objects[i];
            assert(os[i as int] == obj@);
            let mut one = String::new();
            match obj.oml_type {
                ObjectType::ENUM => {
                    let _ = generate_enum(obj, &mut one);
                },
                ObjectType::CLASS | ObjectType::STRUCT => {
                    let _ = generate_class_or_struct(obj, &mut one);
                },
                ObjectType::UNDECIDED => {
                    return Err(GenerateError::UndecidedForCode);
                },
            }
            assert(one@ == cpp_object_text(obj@));
            if i < n - 1 {
                one.append("\n");
            }
            objects.append(one.as_str());
            i += 1;
        }
        assert(os.take(n as int) == os);
        cpp_file.append(objects.as_str());
        cpp_file.append("#endif // ");
        cpp_file.append(header_guard.as_str());
        cpp_file.append("\n\n");
        Ok(cpp_file)
    }

    fn extension(&self) -> (r: &str) {
        "h"
    }
}

} // verus!
