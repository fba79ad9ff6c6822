use vstd::prelude::*;

verus! {

/// The kind of an OML definition.
#[allow(non_camel_case_types)]
#[derive(Clone, Copy, Debug, PartialEq, Eq, Structural)]
pub enum ObjectType {
    ENUM,
    CLASS,
    STRUCT,
    UNDECIDED,
}

/// A modifier that a variable may carry.
#[allow(non_camel_case_types)]
#[derive(Clone, Copy, Debug, PartialEq, Eq, Structural)]
pub enum VariableModifier {
    CONST,
    MUT,
    STATIC,
    OPTIONAL,
}

/// The visibility of a variable.
#[allow(non_camel_case_types)]
#[derive(Clone, Copy, Debug, PartialEq, Eq, Structural)]
pub enum VariableVisibility {
    PUBLIC,
    PRIVATE,
    PROTECTED,
}

/// Whether a variable is a scalar, a fixed-size array or a growable list.
#[derive(Clone, Copy, Debug, PartialEq, Eq, Structural)]
pub enum ArrayKind {
    Scalar,
    Static(u32),
    Dynamic,
}

/// One field (or, for an enum, one variant) of an OML definition.
#[derive(Clone, Debug)]
pub struct Variable {
    pub var_mod: Vec<VariableModifier>,
    pub visibility: VariableVisibility,
    pub var_type: String,
    pub array_kind: ArrayKind,
    pub name: String,
}

/// One OML definition: an enum, a class or a struct.
#[derive(Clone, Debug)]
pub struct OmlObject {
    pub oml_type: ObjectType,
    pub name: String,
    pub variables: Vec<Variable>,
}

/// The mathematical value of a [`Variable`].
pub struct SpecVariable {
    pub var_mod: Seq<VariableModifier>,
    pub visibility: VariableVisibility,
    pub var_type: Seq<char>,
    pub array_kind: ArrayKind,
    pub name: Seq<char>,
}

/// The mathematical value of an [`OmlObject`].
pub struct SpecOmlObject {
    pub oml_type: ObjectType,
    pub name: Seq<char>,
    pub variables: Seq<SpecVariable>,
}

impl View for Variable {
    type V = SpecVariable;

    open spec fn view(&self) -> SpecVariable {
        SpecVariable {
            var_mod: self.var_mod@,
            visibility: self.visibility,
            var_type: self.var_type@,
            array_kind: self.array_kind,
            name: self.name@,
        }
    }
}

pub open spec fn vars_view(vs: Seq<Variable>) -> Seq<SpecVariable> {
    vs.map_values(|v: Variable| v@)
}

impl View for OmlObject {
    type V = SpecOmlObject;

    open spec fn view(&self) -> SpecOmlObject {
        SpecOmlObject {
            oml_type: self.oml_type,
            name: self.name@,
            variables: vars_view(self.variables@),
        }
    }
}

pub open spec fn objects_view(os: Seq<OmlObject>) -> Seq<SpecOmlObject> {
    os.map_values(|o: OmlObject| o@)
}

impl SpecVariable {
    pub open spec fn has(self, m: VariableModifier) -> bool {
        self.var_mod.contains(m)
    }

    pub open spec fn is_static(self) -> bool {
        self.has(VariableModifier::STATIC)
    }

    pub open spec fn is_optional(self) -> bool {
        self.has(VariableModifier::OPTIONAL)
    }

    /// `const` without a `mut` that overrides it.
    pub open spec fn is_readonly(self) -> bool {
        self.has(VariableModifier::CONST) && !self.has(VariableModifier::MUT)
    }
}

/// Whether `mods` holds `m`.
pub fn has_modifier(mods: &Vec<VariableModifier>, m: VariableModifier) -> (r: bool)
    ensures
        r == mods@.contains(m),
{
    let mut i: usize = 0;
    while i < mods.len()
        invariant
            i <= mods.len(),
            forall|j: int| 0 <= j < i ==> mods@[j] != m,
        decreases mods.len() - i,
    {
        if mods[i] == m {
            assert(mods@[i as int] == m);
            return true;
        }
        i += 1;
    }
    false
}

impl Variable {
    pub fn has(&self, m: VariableModifier) -> (r: bool)
        ensures
            r == self@.has(m),
    {
        has_modifier(&self.var_mod, m)
    }
}

/// A way of picking some of the variables of an object.
#[derive(Clone, Copy, Debug, PartialEq, Eq, Structural)]
pub enum Pick {
    /// The `static` ones.
    Static,
    /// Those that are not `static`.
    Instance,
    /// Those that are not `optional`.
    Required,
    /// The `optional` ones.
    Optional,
}

/// Whether `v` is picked by `p`.
pub open spec fn picked(p: Pick, v: SpecVariable) -> bool {
    match p {
        Pick::Static => v.is_static(),
        Pick::Instance => !v.is_static(),
        Pick::Required => !v.is_optional(),
        Pick::Optional => v.is_optional(),
    }
}

/// The variables of `vars` that `p` picks, in order.
pub open spec fn pick(vars: Seq<SpecVariable>, p: Pick) -> Seq<SpecVariable>
    decreases vars.len(),
{
    if vars.len() == 0 {
        Seq::empty()
    } else if picked(p, vars.last()) {
        pick(vars.drop_last(), p).push(vars.last())
    } else {
        pick(vars.drop_last(), p)
    }
}

pub open spec fn refs_view(vs: Seq<&Variable>) -> Seq<SpecVariable> {
    vs.map_values(|v: &Variable| v@)
}

/// References to all variables, in order.
pub fn all_refs<'a>(vars: &'a Vec<Variable>) -> (r: Vec<&'a Variable>)
    ensures
        refs_view(r@) == vars_view(vars@),
{
    let mut r: Vec<&'a Variable> = Vec::new();
    let mut i: usize = 0;
    while i < vars.len()
        invariant
            i <= vars.len(),
            refs_view(r@) == vars_view(vars@).take(i as int),
        decreases vars.len() - i,
    {
        let ghost before = r@;
        let v = &vars[i];
        r.push(v);
        assert(refs_view(r@) =~= refs_view(before).push(v@));
        assert(vars_view(vars@).take(i + 1) =~= vars_view(vars@).take(i as int).push(vars_view(vars@)[i as int]));
        i += 1;
    }
    assert(vars_view(vars@).take(vars.len() as int) == vars_view(vars@));
    r
}

/// The variables of `vars` that `p` picks, in order.
pub fn pick_refs<'a>(vars: &Vec<&'a Variable>, p: Pick) -> (r: Vec<&'a Variable>)
    ensures
        refs_view(r@) == pick(refs_view(vars@), p),
{
    let ghost vs = refs_view(vars@);
    let mut r: Vec<&'a Variable> = Vec::new();
    let mut i: usize = 0;
    while i < vars.len()
        invariant
            i <= vars.len(),
            vs == refs_view(vars@),
            refs_view(r@) == pick(vs.take(i as int), p),
        decreases vars.len() - i,
    {
        assert(vs.take(i + 1).drop_last() == vs.take(i as int));
        let v = vars[i];
        let keep = match p {
            Pick::Static => v.has(VariableModifier::STATIC),
            Pick::Instance => !v.has(VariableModifier::STATIC),
            Pick::Required => !v.has(VariableModifier::OPTIONAL),
            Pick::Optional => v.has(VariableModifier::OPTIONAL),
        };
        let ghost before = r@;
        if keep {
            r.push(v);
            assert(refs_view(r@) == refs_view(before).push(v@));
        }
        i += 1;
    }
    assert(vs.take(vars.len() as int) == vs);
    r
}

/// The references of `a` followed by those of `b`.
pub fn concat_refs<'a>(a: &Vec<&'a Variable>, b: &Vec<&'a Variable>) -> (r: Vec<&'a Variable>)
    ensures
        refs_view(r@) == refs_view(a@) + refs_view(b@),
{
    let mut r: Vec<&'a Variable> = Vec::new();
    let mut i: usize = 0;
    while i < a.len()
        invariant
            i <= a.len(),
            refs_view(r@) == refs_view(a@).take(i as int),
        decreases a.len() - i,
    {
        let ghost before = r@;
        r.push(a[i]);
        assert(refs_view(r@) =~= refs_view(before).push(a@[i as int]@));
        assert(refs_view(a@).take(i + 1) =~= refs_view(a@).take(i as int).push(refs_view(a@)[i as int]));
        i += 1;
    }
    let mut j: usize = 0;
    while j < b.len()
        invariant
            j <= b.len(),
            i == a.len(),
            refs_view(r@) == refs_view(a@).take(i as int) + refs_view(b@).take(j as int),
        decreases b.len() - j,
    {
        let ghost before = r@;
        r.push(b[j]);
        assert(refs_view(r@) =~= refs_view(before).push(b@[j as int]@));
        assert(refs_view(b@).take(j + 1) =~= refs_view(b@).take(j as int).push(refs_view(b@)[j as int]));
        j += 1;
    }
    assert(refs_view(a@).take(a.len() as int) =~= refs_view(a@));
    assert(refs_view(b@).take(b.len() as int) =~= refs_view(b@));
    r
}

pub proof fn lemma_pick_len(vars: Seq<SpecVariable>, p: Pick)
    ensures
        pick(vars, p).len() <= vars.len(),
        (exists|i: int| 0 <= i < vars.len() && picked(p, vars[i])) <==> pick(vars, p).len() > 0,
    decreases vars.len(),
{
    if vars.len() > 0 {
        lemma_pick_len(vars.drop_last(), p);
        if exists|i: int| 0 <= i < vars.len() && picked(p, vars[i]) {
            let i = choose|i: int| 0 <= i < vars.len() && picked(p, vars[i]);
            if i < vars.len() - 1 {
                assert(vars.drop_last()[i] == vars[i]);
            }
        }
        if pick(vars.drop_last(), p).len() > 0 {
            let i = choose|i: int| 0 <= i < vars.drop_last().len() && picked(p, vars.drop_last()[i]);
            assert(vars[i] == vars.drop_last()[i]);
        }
    }
}

} // verus!
