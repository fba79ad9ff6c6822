use vstd::prelude::*;
use crate::oml_object::{
    ArrayKind, ObjectType, Pick, SpecOmlObject, SpecVariable, VariableModifier, VariableVisibility,
    lemma_pick_len, pick,
};
use crate::chars::{
    after_prefix, is_line, is_word, starts_with, before_char, contains_seq, is_ws, lemma_first_index_at, lemma_lacks_concat, lemma_not_starts_with,
    lemma_starts_with_concat, lemma_trim_start_after_ws, lemma_trim_unchanged, occurs_at, split_char, find_from,
    split_from, trim, trim_start, lemma_unlines_add, lemma_unlines_one, unlines,
};
use crate::generators::python::{
    py_regular_class_text, py_init_assigns, py_init_params, py_properties, py_property, py_return_type, py_slots,
    py_static_lines, py_type, py_type_annotation,
};
use crate::generators::python_reverse::{
    PythonReading, py_class_ends, py_class_member, py_dataclass_ends, py_decorator, python_read,
    init_param_var, python_init_vars, python_param, python_params, python_type,
};
use crate::python_round_trip::{lemma_py_type_word, lemma_python_annotation, python_read_kind, python_var_round_trips};
use crate::reading::{opt_seq, read_object, read_var};

verus! {

// ---------------------------------------------------------------- splitting at commas

/// Splitting a run that holds no `c` keeps it whole.
proof fn lemma_split_run(s: Seq<char>, c: char, j: int, cur: Seq<char>)
    requires
        0 <= j <= s.len(),
        forall|k: int| j <= k < s.len() ==> s[k] != c,
    ensures
        split_from(s, c, j, cur) == seq![cur + s.skip(j)],
    decreases s.len() - j,
{
    if j < s.len() {
        lemma_split_run(s, c, j + 1, cur.push(s[j]));
        assert(cur.push(s[j]) + s.skip(j + 1) =~= cur + s.skip(j));
    } else {
        assert(cur + s.skip(j) =~= cur);
    }
}

proof fn lemma_split_append_from(s: Seq<char>, c: char, q: Seq<char>, i: int, cur: Seq<char>)
    requires
        0 <= i <= s.len(),
        !q.contains(c),
    ensures
        split_from(s + seq![c] + q, c, i, cur) == split_from(s, c, i, cur) + seq![q],
    decreases s.len() - i,
{
    let t = s + seq![c] + q;
    if i == s.len() {
        assert(t[i] == c);
        assert forall|k: int| i + 1 <= k < t.len() implies t[k] != c by {
            assert(t[k] == q[k - i - 1]);
        }
        lemma_split_run(t, c, i + 1, Seq::empty());
        assert(Seq::<char>::empty() + t.skip(i + 1) =~= q);
    } else {
        assert(t[i] == s[i]);
        if s[i] == c {
            lemma_split_append_from(s, c, q, i + 1, Seq::empty());
            assert(seq![cur] + (split_from(s, c, i + 1, Seq::empty()) + seq![q])
                =~= (seq![cur] + split_from(s, c, i + 1, Seq::empty())) + seq![q]);
        } else {
            lemma_split_append_from(s, c, q, i + 1, cur.push(s[i]));
        }
    }
}

/// Splitting a text followed by `c` and a piece without `c` gives the pieces
/// of the text and that piece.
proof fn lemma_split_append(s: Seq<char>, c: char, q: Seq<char>)
    requires
        !q.contains(c),
    ensures
        split_char(s + seq![c] + q, c) == split_char(s, c) + seq![q],
{
    lemma_split_append_from(s, c, q, 0, Seq::empty());
}

// ---------------------------------------------------------------- the parameters of `__init__`

/// The type written for a parameter of `__init__`.
pub open spec fn py_param_type(v: SpecVariable) -> Seq<char> {
    if v.is_optional() {
        "Optional["@ + py_type_annotation(v.var_type, v.array_kind) + "] = None"@
    } else {
        py_type_annotation(v.var_type, v.array_kind)
    }
}

/// The text between two commas that declares a parameter of `__init__`.
pub open spec fn py_param_piece(v: SpecVariable) -> Seq<char> {
    " "@ + v.name + ": "@ + py_param_type(v)
}

/// The only `[` of the Python type written for a variable that reads back
/// opens the element type of a list.
proof fn lemma_annotation_brackets(v: SpecVariable)
    requires
        python_var_round_trips(v),
    ensures
        forall|j: int| 0 <= j < py_type_annotation(v.var_type, v.array_kind).len()
            && py_type_annotation(v.var_type, v.array_kind)[j] == '[' ==> j == 4,
        !py_type_annotation(v.var_type, v.array_kind).contains(','),
        !py_type_annotation(v.var_type, v.array_kind).contains(')'),
{
    let t = v.var_type;
    let r = py_type(t);
    lemma_py_type_word(t);
    reveal_strlit("list[");
    reveal_strlit("]");
    let a = py_type_annotation(t, v.array_kind);
    crate::chars::lemma_word_lacks(r, ',');
    crate::chars::lemma_word_lacks(r, ')');
    crate::chars::lemma_word_lacks(r, '[');
    match v.array_kind {
        ArrayKind::Scalar => {},
        _ => {
            assert(a =~= "list["@ + r + seq![']']);
            assert forall|j: int| 0 <= j < a.len() && a[j] == '[' implies j == 4 by {
                if j < 5 {
                } else if j < 5 + r.len() {
                    assert(a[j] == r[j - 5]);
                } else {
                }
            }
            assert forall|ch: char| ch == ',' || ch == ')' implies !a.contains(ch) by {
                if a.contains(ch) {
                    let j = choose|j: int| 0 <= j < a.len() && a[j] == ch;
                    if 5 <= j < 5 + r.len() {
                        assert(a[j] == r[j - 5]);
                    }
                }
            }
        },
    }
}

/// The facts about the type written for a parameter that reading it needs.
proof fn lemma_param_type(v: SpecVariable)
    requires
        python_var_round_trips(v),
    ensures
        py_param_type(v).len() > 0,
        !is_ws(py_param_type(v)[0]),
        !is_ws(py_param_type(v).last()),
        !py_param_type(v).contains(','),
        !py_param_type(v).contains(')'),
        !py_param_type(v).contains('\n'),
        !py_param_type(v).contains(':'),
        trim(py_param_type(v)) == py_param_type(v),
        contains_seq(py_param_type(v), "Optional["@) || contains_seq(py_param_type(v), "= None"@) <==> v.is_optional(),
        python_type(trim(before_char(py_param_type(v), '='))) == (v.var_type, python_read_kind(v.array_kind)),
{
    let a = py_type_annotation(v.var_type, v.array_kind);
    lemma_python_annotation(v);
    lemma_annotation_brackets(v);
    reveal_strlit("Optional[");
    reveal_strlit("] = None");
    reveal_strlit("= None");
    reveal_strlit("]");
    reveal_strlit("] ");
    let x = py_param_type(v);
    if v.is_optional() {
        assert(x =~= "Optional["@ + a + "] = None"@);
        assert forall|ch: char| ch == ',' || ch == ')' || ch == '\n' || ch == ':' || ch == '=' implies !"Optional["@.contains(ch) by {
            if "Optional["@.contains(ch) {
                let k = choose|k: int| 0 <= k < 9 && "Optional["@[k] == ch;
            }
        }
        assert forall|ch: char| ch == ',' || ch == ')' || ch == '\n' || ch == ':' implies !"] = None"@.contains(ch) by {
            if "] = None"@.contains(ch) {
                let k = choose|k: int| 0 <= k < 8 && "] = None"@[k] == ch;
            }
        }
        assert forall|ch: char| ch == ',' || ch == ')' || ch == '\n' || ch == ':' implies !x.contains(ch) by {
            lemma_lacks_concat("Optional["@, a, ch);
            lemma_lacks_concat("Optional["@ + a, "] = None"@, ch);
        }
        assert(x[0] == 'O');
        assert(x.last() == 'e');
        lemma_trim_unchanged(x);
        assert(occurs_at(x, "Optional["@, 0)) by {
            assert(x.subrange(0, 9) =~= "Optional["@);
        }
        // the type before `=`
        let pre = "Optional["@ + a + "] "@;
        assert(x =~= pre + seq!['='] + seq![' ', 'N', 'o', 'n', 'e']);
        assert(!pre.contains('=')) by {
            assert(!"] "@.contains('=')) by {
                if "] "@.contains('=') {
                    let k = choose|k: int| 0 <= k < 2 && "] "@[k] == '=';
                }
            }
            lemma_lacks_concat("Optional["@, a, '=');
            lemma_lacks_concat("Optional["@ + a, "] "@, '=');
        }
        lemma_first_index_at(pre, '=', seq![' ', 'N', 'o', 'n', 'e']);
        assert(x.take(pre.len() as int) =~= pre);
        let inner = "Optional["@ + a + "]"@;
        assert(pre =~= inner + seq![' ']);
        assert(pre.drop_last() =~= inner);
        assert(inner[0] == 'O');
        assert(inner.last() == ']');
        lemma_trim_unchanged(inner);
        assert(crate::chars::trim_end(pre) == crate::chars::trim_end(inner));
        assert(trim_start(pre) == pre);
        assert(trim(pre) == inner);
        reveal_strlit("list[");
        assert("list["@[0] == 'l');
        lemma_not_starts_with(inner, "list["@, 0);
        lemma_starts_with_concat("Optional["@, a + "]"@);
        assert(inner =~= "Optional["@ + (a + "]"@));
        assert((a + "]"@).drop_last() =~= a);
        assert(python_type(inner) == python_type(a));
    } else {
        assert(x == a);
        crate::chars::lemma_first_index(a, '=');
        assert(before_char(a, '=') == a);
        if contains_seq(a, "Optional["@) {
            let k = choose|k: int| occurs_at(a, "Optional["@, k);
            assert(a.subrange(k, k + 9)[8] == a[k + 8]);
        }
        if contains_seq(a, "= None"@) {
            let k = choose|k: int| occurs_at(a, "= None"@, k);
            assert(a.subrange(k, k + 6)[0] == a[k]);
        }
    }
}

/// What the reader of a regular class gives back for a parameter of
/// `__init__`: a private variable of its type, kind of array and name,
/// `OPTIONAL` where it is optional.
pub open spec fn py_read_back_param(v: SpecVariable) -> SpecVariable {
    read_var(
        if v.is_optional() { seq![VariableModifier::OPTIONAL] } else { Seq::<VariableModifier>::empty() },
        VariableVisibility::PRIVATE,
        v.var_type,
        python_read_kind(v.array_kind),
        v.name,
    )
}

/// Reading the text that declares a parameter gives the variable back.
#[verifier::spinoff_prover]
proof fn lemma_param_piece(v: SpecVariable)
    requires
        python_var_round_trips(v),
    ensures
        !py_param_piece(v).contains(','),
        !py_param_piece(v).contains(')'),
        !py_param_piece(v).contains('\n'),
        python_param(py_param_piece(v)) matches Some(p) && init_param_var(p) == py_read_back_param(v),
{
    reveal_strlit(" ");
    reveal_strlit(": ");
    let n = v.name;
    let x = py_param_type(v);
    lemma_param_type(v);
    let piece = py_param_piece(v);
    let p = n + ": "@ + x;
    assert(piece =~= seq![' '] + p);
    assert forall|ch: char| ch == ',' || ch == ')' || ch == '\n' implies !piece.contains(ch) by {
        crate::chars::lemma_word_lacks(n, ch);
        assert(!": "@.contains(ch)) by {
            if ": "@.contains(ch) {
                let k = choose|k: int| 0 <= k < 2 && ": "@[k] == ch;
            }
        }
        lemma_lacks_concat(n, ": "@, ch);
        lemma_lacks_concat(n + ": "@, x, ch);
        lemma_lacks_concat(seq![' '], p, ch);
    }
    crate::round_trip::lemma_ident_not_ws(n[0]);
    assert(p[0] == n[0]);
    assert(p.last() == x.last());
    lemma_trim_start_after_ws(seq![' '], p);
    lemma_trim_unchanged(p);
    assert(trim(piece) == p);
    crate::chars::lemma_word_lacks(n, ':');
    assert(p =~= n + seq![':'] + (seq![' '] + x));
    lemma_first_index_at(n, ':', seq![' '] + x);
    assert(p.take(n.len() as int) =~= n);
    assert(p.skip(n.len() as int + 1) =~= seq![' '] + x);
    crate::round_trip::lemma_trim_word(n);
    lemma_trim_start_after_ws(seq![' '], x);
    assert(trim_start(x) == x);
    assert(trim(seq![' '] + x) == x);
}

proof fn lemma_init_params_split(vars: Seq<SpecVariable>)
    requires
        forall|k: int| 0 <= k < vars.len() ==> python_var_round_trips(#[trigger] vars[k]),
    ensures
        split_char(py_init_params(vars), ',') == seq![Seq::<char>::empty()] + vars.map_values(|v: SpecVariable| py_param_piece(v)),
        !py_init_params(vars).contains(')'),
        !py_init_params(vars).contains('\n'),
    decreases vars.len(),
{
    let m = vars.map_values(|v: SpecVariable| py_param_piece(v));
    if vars.len() == 0 {
        assert(split_char(Seq::<char>::empty(), ',') == seq![Seq::<char>::empty()]);
        assert(m =~= Seq::<Seq<char>>::empty());
        assert(seq![Seq::<char>::empty()] + m =~= seq![Seq::<char>::empty()]);
    } else {
        let init = vars.drop_last();
        assert forall|k: int| 0 <= k < init.len() implies python_var_round_trips(#[trigger] init[k]) by {
            assert(init[k] == vars[k]);
        }
        lemma_init_params_split(init);
        let v = vars.last();
        assert(python_var_round_trips(v));
        lemma_param_piece(v);
        reveal_strlit(", ");
        reveal_strlit(": ");
        reveal_strlit(" ");
        let q = py_param_piece(v);
        assert(py_init_params(vars) =~= py_init_params(init) + seq![','] + q);
        lemma_split_append(py_init_params(init), ',', q);
        assert(m =~= init.map_values(|v: SpecVariable| py_param_piece(v)) + seq![q]);
        assert forall|ch: char| ch == ')' || ch == '\n' implies !py_init_params(vars).contains(ch) by {
            lemma_lacks_concat(py_init_params(init), seq![','], ch);
            lemma_lacks_concat(py_init_params(init) + seq![','], q, ch);
        }
    }
}

proof fn lemma_python_params(vars: Seq<SpecVariable>)
    requires
        forall|k: int| 0 <= k < vars.len() ==> python_var_round_trips(#[trigger] vars[k]),
    ensures
        python_params(seq![Seq::<char>::empty()] + vars.map_values(|v: SpecVariable| py_param_piece(v)))
            .map_values(|p: (Seq<char>, Seq<char>, bool)| init_param_var(p))
            == vars.map_values(|v: SpecVariable| py_read_back_param(v)),
    decreases vars.len(),
{
    let pieces = seq![Seq::<char>::empty()] + vars.map_values(|v: SpecVariable| py_param_piece(v));
    if vars.len() == 0 {
        assert(pieces =~= seq![Seq::<char>::empty()]);
        assert(pieces.drop_last() =~= Seq::<Seq<char>>::empty());
        assert(python_param(Seq::<char>::empty()) is None) by {
            assert(trim(Seq::<char>::empty()) == Seq::<char>::empty());
        }
        assert(pieces.last() == Seq::<char>::empty());
        assert(python_params(pieces.drop_last()) == Seq::<(Seq<char>, Seq<char>, bool)>::empty());
        assert(python_params(pieces) == python_params(pieces.drop_last()) + opt_seq(python_param(pieces.last())));
        assert(python_params(pieces) =~= Seq::<(Seq<char>, Seq<char>, bool)>::empty());
        assert(vars.map_values(|v: SpecVariable| py_read_back_param(v)) =~= Seq::<SpecVariable>::empty());
    } else {
        let init = vars.drop_last();
        assert forall|k: int| 0 <= k < init.len() implies python_var_round_trips(#[trigger] init[k]) by {
            assert(init[k] == vars[k]);
        }
        lemma_python_params(init);
        let v = vars.last();
        assert(python_var_round_trips(v));
        lemma_param_piece(v);
        let before = seq![Seq::<char>::empty()] + init.map_values(|v: SpecVariable| py_param_piece(v));
        assert(pieces.drop_last() =~= before);
        assert(pieces.last() == py_param_piece(v));
        let pp = python_param(py_param_piece(v)).unwrap();
        assert(python_params(pieces) == python_params(before) + seq![pp]);
        assert(python_params(pieces).map_values(|p: (Seq<char>, Seq<char>, bool)| init_param_var(p))
            =~= python_params(before).map_values(|p: (Seq<char>, Seq<char>, bool)| init_param_var(p)) + seq![init_param_var(pp)]);
        assert(vars.map_values(|v: SpecVariable| py_read_back_param(v))
            =~= init.map_values(|v: SpecVariable| py_read_back_param(v)) + seq![py_read_back_param(v)]);
    }
}

/// The first occurrence of `p` at or after `i` is at `k`, where it occurs
/// at `k` and not between `i` and `k`.
pub(crate) proof fn lemma_find_from_at(s: Seq<char>, p: Seq<char>, i: int, k: int)
    requires
        0 <= i <= k,
        occurs_at(s, p, k),
        forall|j: int| i <= j < k ==> !occurs_at(s, p, j),
    ensures
        find_from(s, p, i) == Some(k),
    decreases k - i,
{
    if i < k {
        lemma_find_from_at(s, p, i + 1, k);
    }
}

/// The trimmed line that opens `__init__` with the given parameters.
pub open spec fn py_init_line(ord: Seq<SpecVariable>) -> Seq<char> {
    "def __init__(self"@ + py_init_params(ord) + "):"@
}

/// Reading the line that opens `__init__` gives back its parameters.
#[verifier::spinoff_prover]
#[verifier::rlimit(50)]
pub(crate) proof fn lemma_init_line(ord: Seq<SpecVariable>)
    requires
        forall|k: int| 0 <= k < ord.len() ==> python_var_round_trips(#[trigger] ord[k]),
    ensures
        python_init_vars(py_init_line(ord)) == ord.map_values(|v: SpecVariable| py_read_back_param(v)),
        !py_init_line(ord).contains('\n'),
{
    reveal_strlit("def __init__(self");
    reveal_strlit("(self");
    reveal_strlit("):");
    let ps = py_init_params(ord);
    lemma_init_params_split(ord);
    lemma_python_params(ord);
    let l = py_init_line(ord);
    let a = "def __init__(self"@ + ps;
    assert(l =~= a + seq![')'] + seq![':']);
    // the first `(self`
    assert(occurs_at(l, "(self"@, 12)) by {
        assert(l.subrange(12, 17) =~= "(self"@);
    }
    assert forall|j: int| 0 <= j < 12 implies !occurs_at(l, "(self"@, j) by {
        if occurs_at(l, "(self"@, j) {
            assert(l.subrange(j, j + 5)[0] == l[j]);
            assert(l[j] == "def __init__(self"@[j]);
        }
    }
    lemma_find_from_at(l, "(self"@, 0, 12);
    // the last `)`
    assert(!seq![':'].contains(')')) by {
        if seq![':'].contains(')') {
            let k = choose|k: int| 0 <= k < 1 && seq![':'][k] == ')';
        }
    }
    crate::chars::lemma_last_index_at(a, ')', seq![':']);
    assert(l.subrange(17int, a.len() as int) =~= ps);
    assert(!"def __init__(self"@.contains('\n')) by {
        if "def __init__(self"@.contains('\n') {
            let k = choose|k: int| 0 <= k < 17 && "def __init__(self"@[k] == '\n';
        }
    }
    lemma_lacks_concat("def __init__(self"@, ps, '\n');
    lemma_lacks_concat(a, seq![')', ':'], '\n');
    assert(a + seq![')', ':'] =~= l);
}

// ---------------------------------------------------------------- the body of a regular class

/// Whether a line of the body of a regular class stands alone, does not end
/// the body, and declares no parameter.
pub open spec fn py_class_inert(raw: Seq<char>) -> bool {
    is_line(raw) && !py_class_ends(raw) && py_class_member(trim(raw)) == Seq::<SpecVariable>::empty()
}

/// Whether every line of `ls` is one that the reader of a regular class
/// passes over.
pub open spec fn py_class_inert_lines(ls: Seq<Seq<char>>) -> bool {
    forall|k: int| 0 <= k < ls.len() ==> py_class_inert(#[trigger] ls[k])
}

/// A line indented by tabs whose text begins and ends with no whitespace and
/// does not open `__init__` is passed over.
proof fn lemma_class_inert_line(w: Seq<char>, core: Seq<char>)
    requires
        w.len() > 0,
        forall|k: int| 0 <= k < w.len() ==> #[trigger] w[k] == '\t',
        core.len() > 0,
        !is_ws(core[0]),
        !is_ws(core.last()),
        !core.contains('\n'),
        !starts_with(core, "def __init__(self"@),
    ensures
        trim(w + core) == core,
        py_class_inert(w + core),
{
    reveal_strlit("\t");
    lemma_trim_start_after_ws(w, core);
    lemma_trim_unchanged(core);
    assert((w + core).take(1) =~= "\t"@);
    assert(!(w + core).contains('\n')) by {
        if (w + core).contains('\n') {
            let k = choose|k: int| 0 <= k < (w + core).len() && (w + core)[k] == '\n';
            if k < w.len() {
                assert(w[k] == '\t');
            } else {
                assert(core[k - w.len()] == '\n');
            }
        }
    }
    assert((w + core).last() == core.last());
}

/// An empty line is passed over.
proof fn lemma_class_blank_inert()
    ensures
        py_class_inert(Seq::<char>::empty()),
{
    reveal_strlit("def __init__(self");
    assert(trim(Seq::<char>::empty()) == Seq::<char>::empty());
    assert(!starts_with(Seq::<char>::empty(), "def __init__(self"@));
}

/// A word followed by `:` does not open `__init__`.
proof fn lemma_colon_not_init(n: Seq<char>, rest: Seq<char>)
    requires
        is_word(n),
        rest.len() > 0,
        rest[0] == ':',
    ensures
        !starts_with(n + rest, "def __init__(self"@),
{
    reveal_strlit("def __init__(self");
    let l = n + rest;
    let d = "def __init__(self"@;
    assert(l[n.len() as int] == ':');
    if n.len() >= 4 {
        assert(l[3] == n[3]);
        assert(crate::chars::is_ident_char(n[3]));
        lemma_not_starts_with(l, d, 3);
    } else {
        assert(d[0] == 'd' && d[1] == 'e' && d[2] == 'f' && d[3] == ' ');
        lemma_not_starts_with(l, d, n.len() as int);
    }
}

/// `def name(` opens `__init__` only where the name is `__init__`.
proof fn lemma_def_not_init(n: Seq<char>, rest: Seq<char>)
    requires
        is_word(n),
        n != "__init__"@,
        rest.len() > 0,
        rest[0] == '(',
    ensures
        !starts_with("def "@ + n + rest, "def __init__(self"@),
{
    reveal_strlit("def __init__(self");
    reveal_strlit("def ");
    reveal_strlit("__init__");
    let l = "def "@ + n + rest;
    let d = "def __init__(self"@;
    assert(l[4 + n.len() as int] == '(');
    if starts_with(l, d) {
        assert forall|k: int| 0 <= k < d.len() implies l[k] == d[k] by {
            assert(l.take(d.len() as int)[k] == l[k]);
        }
        if n.len() > 8 {
            assert(l[12] == n[8]);
            assert(crate::chars::is_ident_char(n[8]));
        } else if n.len() < 8 {
            assert(l[4 + n.len() as int] == d[4 + n.len() as int]);
        } else {
            assert forall|k: int| 0 <= k < 8 implies n[k] == "__init__"@[k] by {
                assert(l[4 + k] == n[k]);
                assert(d[4 + k] == "__init__"@[k]);
            }
            assert(n =~= "__init__"@);
        }
    }
}

proof fn lemma_one_class_inert(l: Seq<char>) -> (ls: Seq<Seq<char>>)
    requires
        py_class_inert(l),
    ensures
        ls == seq![l],
        unlines(ls) == l + seq!['\n'],
        py_class_inert_lines(ls),
{
    lemma_unlines_one(l);
    let ls = seq![l];
    assert forall|k: int| 0 <= k < ls.len() implies py_class_inert(#[trigger] ls[k]) by {
        assert(ls[k] == l);
    }
    ls
}

proof fn lemma_class_inert_add(a: Seq<Seq<char>>, b: Seq<Seq<char>>)
    requires
        py_class_inert_lines(a),
        py_class_inert_lines(b),
    ensures
        py_class_inert_lines(a + b),
        unlines(a + b) == unlines(a) + unlines(b),
{
    lemma_unlines_add(a, b);
    assert forall|k: int| 0 <= k < (a + b).len() implies py_class_inert(#[trigger] (a + b)[k]) by {
        if k < a.len() {
            assert((a + b)[k] == a[k]);
        } else {
            assert((a + b)[k] == b[k - a.len()]);
        }
    }
}

/// A line of one tab and `core`, passed over.
proof fn lemma_tab_line(core: Seq<char>) -> (ls: Seq<Seq<char>>)
    requires
        core.len() > 0,
        !is_ws(core[0]),
        !is_ws(core.last()),
        !core.contains('\n'),
        !starts_with(core, "def __init__(self"@),
    ensures
        ls == seq![seq!['\t'] + core],
        unlines(ls) == seq!['\t'] + core + seq!['\n'],
        py_class_inert_lines(ls),
{
    lemma_class_inert_line(seq!['\t'], core);
    lemma_one_class_inert(seq!['\t'] + core)
}

/// A line of two tabs and `core`, passed over.
proof fn lemma_tab2_line(core: Seq<char>) -> (ls: Seq<Seq<char>>)
    requires
        core.len() > 0,
        !is_ws(core[0]),
        !is_ws(core.last()),
        !core.contains('\n'),
        !starts_with(core, "def __init__(self"@),
    ensures
        ls == seq![seq!['\t', '\t'] + core],
        unlines(ls) == seq!['\t', '\t'] + core + seq!['\n'],
        py_class_inert_lines(ls),
{
    lemma_class_inert_line(seq!['\t', '\t'], core);
    lemma_one_class_inert(seq!['\t', '\t'] + core)
}

proof fn lemma_lit_lacks(l: Seq<char>, c: char)
    requires
        forall|k: int| 0 <= k < l.len() ==> #[trigger] l[k] != c,
    ensures
        !l.contains(c),
{
}

/// The class-level lines of the static variables are passed over.
#[verifier::spinoff_prover]
proof fn lemma_static_lines_inert(vars: Seq<SpecVariable>) -> (ls: Seq<Seq<char>>)
    requires
        forall|k: int| 0 <= k < vars.len() ==> python_var_round_trips(#[trigger] vars[k]),
    ensures
        py_static_lines(vars) == unlines(ls),
        py_class_inert_lines(ls),
    decreases vars.len(),
{
    if vars.len() == 0 {
        assert(py_class_inert_lines(Seq::<Seq<char>>::empty()));
        assert(unlines(Seq::<Seq<char>>::empty()) == Seq::<char>::empty());
        Seq::empty()
    } else {
        let init = vars.drop_last();
        assert forall|k: int| 0 <= k < init.len() implies python_var_round_trips(#[trigger] init[k]) by {
            assert(init[k] == vars[k]);
        }
        let a = lemma_static_lines_inert(init);
        let v = vars.last();
        assert(python_var_round_trips(v));
        lemma_python_annotation(v);
        reveal_strlit("\t");
        reveal_strlit(": ");
        reveal_strlit(" = ...\n");
        reveal_strlit(" = ...");
        reveal_strlit("\n");
        let t = py_type_annotation(v.var_type, v.array_kind);
        let tail = if v.has(VariableModifier::CONST) { " = ..."@ } else { Seq::<char>::empty() };
        let core = v.name + ": "@ + t + tail;
        crate::chars::lemma_word_lacks(v.name, '\n');
        lemma_lit_lacks(": "@, '\n');
        lemma_lit_lacks(" = ..."@, '\n');
        lemma_lacks_concat(v.name, ": "@, '\n');
        lemma_lacks_concat(v.name + ": "@, t, '\n');
        lemma_lacks_concat(v.name + ": "@ + t, tail, '\n');
        crate::round_trip::lemma_ident_not_ws(v.name[0]);
        assert(core[0] == v.name[0]);
        assert(core.last() == (if v.has(VariableModifier::CONST) { '.' } else { t.last() }));
        assert(core =~= v.name + (": "@ + t + tail));
        lemma_colon_not_init(v.name, ": "@ + t + tail);
        let b = lemma_tab_line(core);
        lemma_class_inert_add(a, b);
        assert(py_static_lines(vars) =~= py_static_lines(init) + (seq!['\t'] + core + seq!['\n']));
        a + b
    }
}

proof fn lemma_slots_lack(vars: Seq<SpecVariable>)
    requires
        forall|k: int| 0 <= k < vars.len() ==> is_word((#[trigger] vars[k]).name),
    ensures
        !py_slots(vars).contains('\n'),
    decreases vars.len(),
{
    if vars.len() > 0 {
        let init = vars.drop_last();
        assert forall|k: int| 0 <= k < init.len() implies is_word((#[trigger] init[k]).name) by {
            assert(init[k] == vars[k]);
        }
        lemma_slots_lack(init);
        assert(is_word(vars.last().name));
        crate::chars::lemma_word_lacks(vars.last().name, '\n');
        reveal_strlit("'_");
        reveal_strlit("', ");
        lemma_lit_lacks("'_"@, '\n');
        lemma_lit_lacks("', "@, '\n');
        lemma_lacks_concat(py_slots(init), "'_"@, '\n');
        lemma_lacks_concat(py_slots(init) + "'_"@, vars.last().name, '\n');
        lemma_lacks_concat(py_slots(init) + "'_"@ + vars.last().name, "', "@, '\n');
    }
}

/// The assignments in the body of `__init__` are passed over.
#[verifier::spinoff_prover]
proof fn lemma_assigns_inert(vars: Seq<SpecVariable>) -> (ls: Seq<Seq<char>>)
    requires
        forall|k: int| 0 <= k < vars.len() ==> is_word((#[trigger] vars[k]).name),
    ensures
        py_init_assigns(vars) == unlines(ls),
        py_class_inert_lines(ls),
    decreases vars.len(),
{
    if vars.len() == 0 {
        assert(py_class_inert_lines(Seq::<Seq<char>>::empty()));
        assert(unlines(Seq::<Seq<char>>::empty()) == Seq::<char>::empty());
        Seq::empty()
    } else {
        let init = vars.drop_last();
        assert forall|k: int| 0 <= k < init.len() implies is_word((#[trigger] init[k]).name) by {
            assert(init[k] == vars[k]);
        }
        let a = lemma_assigns_inert(init);
        let n = vars.last().name;
        assert(is_word(n));
        reveal_strlit("\t\tself._");
        reveal_strlit("self._");
        reveal_strlit(" = ");
        reveal_strlit("\n");
        reveal_strlit("def __init__(self");
        let core = "self._"@ + n + " = "@ + n;
        crate::chars::lemma_word_lacks(n, '\n');
        lemma_lit_lacks("self._"@, '\n');
        lemma_lit_lacks(" = "@, '\n');
        lemma_lacks_concat("self._"@, n, '\n');
        lemma_lacks_concat("self._"@ + n, " = "@, '\n');
        lemma_lacks_concat("self._"@ + n + " = "@, n, '\n');
        crate::round_trip::lemma_ident_not_ws(n.last());
        assert(core[0] == 's');
        assert(core.last() == n.last());
        lemma_not_starts_with(core, "def __init__(self"@, 0);
        let b = lemma_tab2_line(core);
        lemma_class_inert_add(a, b);
        assert(py_init_assigns(vars) =~= py_init_assigns(init) + (seq!['\t', '\t'] + core + seq!['\n']));
        a + b
    }
}

proof fn lemma_return_type_lacks(v: SpecVariable)
    requires
        python_var_round_trips(v),
    ensures
        !py_return_type(v).contains('\n'),
{
    lemma_python_annotation(v);
    reveal_strlit("Optional[");
    reveal_strlit("]");
    let t = py_type_annotation(v.var_type, v.array_kind);
    if v.is_optional() {
        lemma_lit_lacks("Optional["@, '\n');
        lemma_lit_lacks("]"@, '\n');
        lemma_lacks_concat("Optional["@, t, '\n');
        lemma_lacks_concat("Optional["@ + t, "]"@, '\n');
    }
}

/// The getter lines of a property are passed over.
#[verifier::spinoff_prover]
#[verifier::rlimit(50)]
proof fn lemma_getter_inert(v: SpecVariable) -> (ls: Seq<Seq<char>>)
    requires
        python_var_round_trips(v),
        v.name != "__init__"@,
    ensures
        "\t@property\n"@ + "\tdef "@ + v.name + "(self) -> "@ + py_return_type(v) + ":\n"@
            + "\t\treturn self._"@ + v.name + "\n"@ == unlines(ls),
        py_class_inert_lines(ls),
{
    reveal_strlit("\t@property\n");
    reveal_strlit("@property");
    reveal_strlit("\tdef ");
    reveal_strlit("def ");
    reveal_strlit("(self) -> ");
    reveal_strlit(":\n");
    reveal_strlit(":");
    reveal_strlit("\t\treturn self._");
    reveal_strlit("return self._");
    reveal_strlit("\n");
    reveal_strlit("def __init__(self");
    let n = v.name;
    let r = py_return_type(v);
    lemma_return_type_lacks(v);
    crate::chars::lemma_word_lacks(n, '\n');
    crate::round_trip::lemma_ident_not_ws(n.last());
    let c1 = "@property"@;
    lemma_lit_lacks(c1, '\n');
    lemma_not_starts_with(c1, "def __init__(self"@, 0);
    let a = lemma_tab_line(c1);
    let c2 = "def "@ + n + "(self) -> "@ + r + ":"@;
    lemma_lit_lacks("def "@, '\n');
    lemma_lit_lacks("(self) -> "@, '\n');
    lemma_lit_lacks(":"@, '\n');
    lemma_lacks_concat("def "@, n, '\n');
    lemma_lacks_concat("def "@ + n, "(self) -> "@, '\n');
    lemma_lacks_concat("def "@ + n + "(self) -> "@, r, '\n');
    lemma_lacks_concat("def "@ + n + "(self) -> "@ + r, ":"@, '\n');
    assert(c2 =~= "def "@ + n + ("(self) -> "@ + r + ":"@));
    lemma_def_not_init(n, "(self) -> "@ + r + ":"@);
    assert(c2[0] == 'd');
    assert(c2.last() == ':');
    let b = lemma_tab_line(c2);
    let c3 = "return self._"@ + n;
    lemma_lit_lacks("return self._"@, '\n');
    lemma_lacks_concat("return self._"@, n, '\n');
    lemma_not_starts_with(c3, "def __init__(self"@, 0);
    assert(c3.last() == n.last());
    let c = lemma_tab2_line(c3);
    lemma_class_inert_add(a, b);
    lemma_class_inert_add(a + b, c);
    assert("\t@property\n"@ + "\tdef "@ + n + "(self) -> "@ + r + ":\n"@ + "\t\treturn self._"@ + n + "\n"@
        =~= (seq!['\t'] + c1 + seq!['\n']) + (seq!['\t'] + c2 + seq!['\n']) + (seq!['\t', '\t'] + c3 + seq!['\n']));
    a + b + c
}

/// The setter lines of a property are passed over.
#[verifier::spinoff_prover]
#[verifier::rlimit(50)]
proof fn lemma_setter_inert(v: SpecVariable) -> (ls: Seq<Seq<char>>)
    requires
        python_var_round_trips(v),
        v.name != "__init__"@,
    ensures
        "\t@"@ + v.name + ".setter\n"@ + "\tdef "@ + v.name + "(self, value: "@ + py_return_type(v) + "):\n"@
            + "\t\tself._"@ + v.name + " = value\n"@ == unlines(ls),
        py_class_inert_lines(ls),
{
    reveal_strlit("\t@");
    reveal_strlit("@");
    reveal_strlit(".setter\n");
    reveal_strlit(".setter");
    reveal_strlit("\tdef ");
    reveal_strlit("def ");
    reveal_strlit("(self, value: ");
    reveal_strlit("):\n");
    reveal_strlit("):");
    reveal_strlit("\t\tself._");
    reveal_strlit("self._");
    reveal_strlit(" = value\n");
    reveal_strlit(" = value");
    reveal_strlit("def __init__(self");
    let n = v.name;
    let r = py_return_type(v);
    lemma_return_type_lacks(v);
    crate::chars::lemma_word_lacks(n, '\n');
    let c1 = "@"@ + n + ".setter"@;
    lemma_lit_lacks("@"@, '\n');
    lemma_lit_lacks(".setter"@, '\n');
    lemma_lacks_concat("@"@, n, '\n');
    lemma_lacks_concat("@"@ + n, ".setter"@, '\n');
    lemma_not_starts_with(c1, "def __init__(self"@, 0);
    assert(c1.last() == 'r');
    let a = lemma_tab_line(c1);
    let c2 = "def "@ + n + "(self, value: "@ + r + "):"@;
    lemma_lit_lacks("def "@, '\n');
    lemma_lit_lacks("(self, value: "@, '\n');
    lemma_lit_lacks("):"@, '\n');
    lemma_lacks_concat("def "@, n, '\n');
    lemma_lacks_concat("def "@ + n, "(self, value: "@, '\n');
    lemma_lacks_concat("def "@ + n + "(self, value: "@, r, '\n');
    lemma_lacks_concat("def "@ + n + "(self, value: "@ + r, "):"@, '\n');
    assert(c2 =~= "def "@ + n + ("(self, value: "@ + r + "):"@));
    lemma_def_not_init(n, "(self, value: "@ + r + "):"@);
    assert(c2.last() == ':');
    let b = lemma_tab_line(c2);
    let c3 = "self._"@ + n + " = value"@;
    lemma_lit_lacks("self._"@, '\n');
    lemma_lit_lacks(" = value"@, '\n');
    lemma_lacks_concat("self._"@, n, '\n');
    lemma_lacks_concat("self._"@ + n, " = value"@, '\n');
    lemma_not_starts_with(c3, "def __init__(self"@, 0);
    assert(c3.last() == 'e');
    let c = lemma_tab2_line(c3);
    lemma_class_inert_add(a, b);
    lemma_class_inert_add(a + b, c);
    assert("\t@"@ + n + ".setter\n"@ + "\tdef "@ + n + "(self, value: "@ + r + "):\n"@ + "\t\tself._"@ + n + " = value\n"@
        =~= (seq!['\t'] + c1 + seq!['\n']) + (seq!['\t'] + c2 + seq!['\n']) + (seq!['\t', '\t'] + c3 + seq!['\n']));
    a + b + c
}

/// The lines of the property of an instance variable are passed over.
proof fn lemma_property_inert(v: SpecVariable) -> (ls: Seq<Seq<char>>)
    requires
        python_var_round_trips(v),
        v.name != "__init__"@,
    ensures
        py_property(v) == unlines(ls),
        py_class_inert_lines(ls),
{
    let g = lemma_getter_inert(v);
    lemma_class_blank_inert();
    let e = lemma_one_class_inert(Seq::<char>::empty());
    reveal_strlit("\n");
    assert(unlines(e) =~= "\n"@);
    if !v.has(VariableModifier::CONST) {
        let st = lemma_setter_inert(v);
        lemma_class_inert_add(g, st);
        lemma_class_inert_add(g + st, e);
        g + st + e
    } else {
        assert(unlines(Seq::<Seq<char>>::empty()) == Seq::<char>::empty());
        lemma_class_inert_add(g, e);
        g + e
    }
}

/// The properties of instance variables are passed over.
proof fn lemma_properties_inert(vars: Seq<SpecVariable>) -> (ls: Seq<Seq<char>>)
    requires
        forall|k: int| 0 <= k < vars.len() ==> python_var_round_trips(#[trigger] vars[k]) && vars[k].name != "__init__"@,
    ensures
        py_properties(vars) == unlines(ls),
        py_class_inert_lines(ls),
    decreases vars.len(),
{
    if vars.len() == 0 {
        assert(py_class_inert_lines(Seq::<Seq<char>>::empty()));
        assert(unlines(Seq::<Seq<char>>::empty()) == Seq::<char>::empty());
        Seq::empty()
    } else {
        let init = vars.drop_last();
        assert forall|k: int| 0 <= k < init.len() implies python_var_round_trips(#[trigger] init[k]) && init[k].name != "__init__"@ by {
            assert(init[k] == vars[k]);
        }
        let a = lemma_properties_inert(init);
        assert(python_var_round_trips(vars.last()) && vars.last().name != "__init__"@);
        let b = lemma_property_inert(vars.last());
        lemma_class_inert_add(a, b);
        a + b
    }
}

// ---------------------------------------------------------------- regular classes

/// The parameters of `__init__` of a regular class: its required instance
/// variables, then its optional ones.
pub open spec fn py_init_vars(o: SpecOmlObject) -> Seq<SpecVariable> {
    let inst = pick(o.variables, Pick::Instance);
    pick(inst, Pick::Required) + pick(inst, Pick::Optional)
}

/// What the reader gives back for a regular class: a class of the same name
/// with the parameters of its `__init__` read back (its static variables
/// are not read).
pub open spec fn python_class_read_back(o: SpecOmlObject) -> SpecOmlObject {
    read_object(ObjectType::CLASS, o.name, py_init_vars(o).map_values(|v: SpecVariable| py_read_back_param(v)))
}

/// Whether a regular class reads back: a class or struct with a word as its
/// name, whose variables read back and none of which is named `__init__`.
pub open spec fn python_class_round_trips(o: SpecOmlObject) -> bool {
    &&& (o.oml_type == ObjectType::CLASS || o.oml_type == ObjectType::STRUCT)
    &&& is_word(o.name)
    &&& forall|j: int| 0 <= j < o.variables.len() ==> python_var_round_trips(#[trigger] o.variables[j])
        && o.variables[j].name != "__init__"@
}

/// The lines of a regular class whose lines before and after `__init__` are
/// `pre` and `post`.
pub open spec fn py_regular_lines(o: SpecOmlObject, pre: Seq<Seq<char>>, post: Seq<Seq<char>>) -> Seq<Seq<char>> {
    seq!["class "@ + o.name + ":"@] + pre
        + (if pick(o.variables, Pick::Instance).len() > 0 {
            seq![seq!['\t'] + py_init_line(py_init_vars(o))]
        } else {
            Seq::<Seq<char>>::empty()
        })
        + post
}

proof fn lemma_pick_class_round_trip(vars: Seq<SpecVariable>, p: Pick)
    requires
        forall|k: int| 0 <= k < vars.len() ==> python_var_round_trips(#[trigger] vars[k]) && vars[k].name != "__init__"@,
    ensures
        forall|k: int| 0 <= k < pick(vars, p).len() ==> python_var_round_trips(#[trigger] pick(vars, p)[k])
            && pick(vars, p)[k].name != "__init__"@,
    decreases vars.len(),
{
    if vars.len() > 0 {
        let init = vars.drop_last();
        assert forall|k: int| 0 <= k < init.len() implies python_var_round_trips(#[trigger] init[k]) && init[k].name != "__init__"@ by {
            assert(init[k] == vars[k]);
        }
        lemma_pick_class_round_trip(init, p);
        assert(python_var_round_trips(vars.last()));
        assert forall|k: int| 0 <= k < pick(vars, p).len() implies python_var_round_trips(#[trigger] pick(vars, p)[k])
            && pick(vars, p)[k].name != "__init__"@ by {
            if k < pick(init, p).len() {
                assert(pick(vars, p)[k] == pick(init, p)[k]);
            }
        }
    }
}

pub(crate) proof fn lemma_init_vars_round_trip(o: SpecOmlObject)
    requires
        python_class_round_trips(o),
    ensures
        forall|k: int| 0 <= k < py_init_vars(o).len() ==> python_var_round_trips(#[trigger] py_init_vars(o)[k]),
        forall|k: int| 0 <= k < pick(o.variables, Pick::Instance).len() ==> python_var_round_trips(#[trigger] pick(o.variables, Pick::Instance)[k])
            && pick(o.variables, Pick::Instance)[k].name != "__init__"@,
        forall|k: int| 0 <= k < pick(o.variables, Pick::Static).len() ==> python_var_round_trips(#[trigger] pick(o.variables, Pick::Static)[k]),
{
    let inst = pick(o.variables, Pick::Instance);
    let ord = py_init_vars(o);
    lemma_pick_class_round_trip(o.variables, Pick::Instance);
    lemma_pick_class_round_trip(o.variables, Pick::Static);
    lemma_pick_class_round_trip(inst, Pick::Required);
    lemma_pick_class_round_trip(inst, Pick::Optional);
    assert forall|k: int| 0 <= k < ord.len() implies python_var_round_trips(#[trigger] ord[k]) by {
        let r = pick(inst, Pick::Required);
        if k < r.len() {
            assert(ord[k] == r[k]);
        } else {
            assert(ord[k] == pick(inst, Pick::Optional)[k - r.len()]);
        }
    }
}

/// The lines of a regular class before `__init__` (its static variables and
/// its `__slots__`), and after it (the assignments and the properties), are
/// passed over; its text is made of them and the line that opens `__init__`.
#[verifier::spinoff_prover]
#[verifier::rlimit(80)]
pub(crate) proof fn lemma_regular_junk(o: SpecOmlObject) -> (r: (Seq<Seq<char>>, Seq<Seq<char>>))
    requires
        python_class_round_trips(o),
    ensures
        py_class_inert_lines(r.0),
        py_class_inert_lines(r.1),
        py_regular_class_text(o) == unlines(py_regular_lines(o, r.0, r.1)),
{
    let inst = pick(o.variables, Pick::Instance);
    let st = pick(o.variables, Pick::Static);
    let ord = py_init_vars(o);
    lemma_init_vars_round_trip(o);
    reveal_strlit("class ");
    reveal_strlit(":\n");
    reveal_strlit(":");
    reveal_strlit("\n");
    reveal_strlit("\tpass\n");
    reveal_strlit("pass");
    reveal_strlit("def __init__(self");
    let head = "class "@ + o.name + ":"@;
    lemma_unlines_one(head);
    lemma_class_blank_inert();
    let e = lemma_one_class_inert(Seq::<char>::empty());
    assert(unlines(e) =~= "\n"@);
    let empty = Seq::<Seq<char>>::empty();
    assert(py_class_inert_lines(empty));
    assert(unlines(empty) == Seq::<char>::empty());
    if o.variables.len() == 0 {
        lemma_not_starts_with("pass"@, "def __init__(self"@, 0);
        let pre = lemma_tab_line("pass"@);
        assert(inst.len() == 0) by {
            lemma_pick_len(o.variables, Pick::Instance);
        }
        lemma_unlines_add(seq![head] + pre, empty);
        lemma_unlines_add(seq![head], pre);
        assert(py_regular_lines(o, pre, empty) =~= seq![head] + pre + empty);
        assert("\tpass"@ =~= seq!['\t'] + "pass"@) by {
            reveal_strlit("\tpass");
        }
        assert(py_regular_class_text(o) =~= (head + seq!['\n']) + (seq!['\t'] + "pass"@ + seq!['\n']));
        (pre, empty)
    } else {
        let sl = lemma_static_lines_inert(st);
        let gap = if st.len() > 0 { e } else { empty };
        lemma_class_inert_add(sl, gap);
        let props = lemma_properties_inert(inst);
        if inst.len() > 0 {
            reveal_strlit("__slots__ = (");
            reveal_strlit("\t__slots__ = (");
            reveal_strlit(")");
            reveal_strlit(")\n");
            reveal_strlit("\tdef __init__(self");
            reveal_strlit("):\n");
            reveal_strlit("):");
            assert forall|k: int| 0 <= k < inst.len() implies is_word((#[trigger] inst[k]).name) by {
                assert(python_var_round_trips(inst[k]));
            }
            lemma_slots_lack(inst);
            let slots = py_slots(inst);
            let sc = "__slots__ = ("@ + slots + ")"@;
            lemma_lit_lacks("__slots__ = ("@, '\n');
            lemma_lit_lacks(")"@, '\n');
            lemma_lacks_concat("__slots__ = ("@, slots, '\n');
            lemma_lacks_concat("__slots__ = ("@ + slots, ")"@, '\n');
            lemma_not_starts_with(sc, "def __init__(self"@, 0);
            assert(sc.last() == ')');
            let sll = lemma_tab_line(sc);
            let pre = sl + gap + (sll + e);
            lemma_class_inert_add(sll, e);
            lemma_class_inert_add(sl + gap, sll + e);
            let asg = lemma_assigns_inert(inst);
            lemma_class_inert_add(asg, e);
            let post = asg + e + props;
            lemma_class_inert_add(asg + e, props);
            lemma_init_line(ord);
            let il = seq!['\t'] + py_init_line(ord);
            lemma_unlines_one(il);
            let lines = py_regular_lines(o, pre, post);
            assert(lines == seq![head] + pre + seq![il] + post);
            lemma_unlines_add(seq![head] + pre + seq![il], post);
            lemma_unlines_add(seq![head] + pre, seq![il]);
            lemma_unlines_add(seq![head], pre);
            assert(py_init_params(pick(inst, Pick::Required) + pick(inst, Pick::Optional)) == py_init_params(ord));
            let s_text = py_static_lines(st);
            let g_text = if st.len() > 0 { "\n"@ } else { Seq::<char>::empty() };
            let i_text = "\t__slots__ = ("@ + slots + ")\n"@ + "\n"@
                + "\tdef __init__(self"@ + py_init_params(ord) + "):\n"@ + py_init_assigns(inst) + "\n"@;
            assert(unlines(gap) == g_text);
            assert(unlines(pre) =~= s_text + g_text + ((seq!['\t'] + sc + seq!['\n']) + "\n"@));
            assert(unlines(post) =~= py_init_assigns(inst) + "\n"@ + py_properties(inst));
            assert(il + seq!['\n'] =~= "\tdef __init__(self"@ + py_init_params(ord) + "):\n"@);
            assert(py_regular_class_text(o) =~= (head + seq!['\n']) + unlines(pre) + (il + seq!['\n']) + unlines(post));
            (pre, post)
        } else {
            let pre = sl + gap;
            let post = props;
            let lines = py_regular_lines(o, pre, post);
            assert(lines =~= seq![head] + pre + post);
            lemma_unlines_add(seq![head] + pre, post);
            lemma_unlines_add(seq![head], pre);
            assert(unlines(gap) == (if st.len() > 0 { "\n"@ } else { Seq::<char>::empty() }));
            assert(py_regular_class_text(o) =~= (head + seq!['\n']) + unlines(pre) + unlines(post));
            (pre, post)
        }
    }
}

/// Reading lines that the reader of a regular class passes over.
proof fn lemma_read_class_inert(ls: Seq<Seq<char>>, i: int, n: int, name: Seq<char>, vars: Seq<SpecVariable>)
    requires
        0 <= i,
        0 <= n,
        i + n <= ls.len(),
        forall|k: int| i <= k < i + n ==> py_class_inert(#[trigger] ls[k]),
    ensures
        python_read(ls, i, PythonReading::InClass { name, vars })
            == python_read(ls, i + n, PythonReading::InClass { name, vars }),
    decreases n,
{
    if n > 0 {
        assert(py_class_inert(ls[i]));
        assert(vars + Seq::<SpecVariable>::empty() =~= vars);
        lemma_read_class_inert(ls, i + 1, n - 1, name, vars);
    }
}

/// The line that opens a regular class is read as opening it.
pub(crate) proof fn lemma_class_head(n: Seq<char>)
    requires
        is_word(n),
    ensures
        is_line("class "@ + n + ":"@),
        trim("class "@ + n + ":"@) == "class "@ + n + ":"@,
        !py_decorator("class "@ + n + ":"@),
        starts_with("class "@ + n + ":"@, "class "@),
        ("class "@ + n + ":"@).len() > 0,
        ("class "@ + n + ":"@).last() == ':',
        !contains_seq("class "@ + n + ":"@, "(Enum)"@),
        trim(after_prefix("class "@ + n + ":"@, "class "@).drop_last()) == n,
        py_class_ends("class "@ + n + ":"@),
        py_dataclass_ends("class "@ + n + ":"@),
        py_class_member("class "@ + n + ":"@) == Seq::<SpecVariable>::empty(),
{
    reveal_strlit("class ");
    reveal_strlit(":");
    reveal_strlit("(Enum)");
    reveal_strlit("@dataclass");
    reveal_strlit("@dataclass(frozen=True)");
    reveal_strlit("\t");
    reveal_strlit("    ");
    reveal_strlit("pass");
    reveal_strlit("def __init__(self");
    let h = "class "@ + n + ":"@;
    crate::chars::lemma_word_lacks(n, '\n');
    crate::chars::lemma_word_lacks(n, '(');
    lemma_lit_lacks("class "@, '\n');
    lemma_lit_lacks(":"@, '\n');
    lemma_lit_lacks("class "@, '(');
    lemma_lit_lacks(":"@, '(');
    lemma_lacks_concat("class "@, n, '\n');
    lemma_lacks_concat("class "@ + n, ":"@, '\n');
    lemma_lacks_concat("class "@, n, '(');
    lemma_lacks_concat("class "@ + n, ":"@, '(');
    assert(h[0] == 'c');
    assert(h.last() == ':');
    lemma_trim_unchanged(h);
    assert(h != "@dataclass"@) by {
        assert(h[0] != "@dataclass"@[0]);
    }
    assert(h != "@dataclass(frozen=True)"@) by {
        assert(h[0] != "@dataclass(frozen=True)"@[0]);
    }
    assert(h =~= "class "@ + (n + ":"@));
    lemma_starts_with_concat("class "@, n + ":"@);
    assert((n + ":"@).drop_last() =~= n);
    crate::round_trip::lemma_trim_word(n);
    if contains_seq(h, "(Enum)"@) {
        let k = choose|k: int| occurs_at(h, "(Enum)"@, k);
        assert(h.subrange(k, k + 6)[0] == h[k]);
    }
    lemma_not_starts_with(h, "\t"@, 0);
    lemma_not_starts_with(h, "    "@, 0);
    assert(trim_start(h) == h);
    assert(h != "pass"@) by {
        assert(h[0] != "pass"@[0]);
    }
    lemma_not_starts_with(h, "def __init__(self"@, 0);
}

/// Reading the lines of a regular class that reads back: the body stays
/// open, with the parameters of `__init__` read.
#[verifier::spinoff_prover]
#[verifier::rlimit(50)]
pub(crate) proof fn lemma_read_regular(ls: Seq<Seq<char>>, i: int, o: SpecOmlObject, pre: Seq<Seq<char>>, post: Seq<Seq<char>>)
    requires
        python_class_round_trips(o),
        py_class_inert_lines(pre),
        py_class_inert_lines(post),
        0 <= i,
        i + py_regular_lines(o, pre, post).len() <= ls.len(),
        forall|k: int| 0 <= k < py_regular_lines(o, pre, post).len() ==> ls[i + k] == #[trigger] py_regular_lines(o, pre, post)[k],
    ensures
        python_read(ls, i, PythonReading::Outside) == python_read(ls, i + py_regular_lines(o, pre, post).len(), PythonReading::InClass {
            name: o.name,
            vars: python_class_read_back(o).variables,
        }),
{
    let rl = py_regular_lines(o, pre, post);
    let n = o.name;
    let inst = pick(o.variables, Pick::Instance);
    let ord = py_init_vars(o);
    lemma_init_vars_round_trip(o);
    lemma_class_head(n);
    assert(ls[i] == rl[0]);
    assert(rl[0] == "class "@ + n + ":"@);
    let e = Seq::<SpecVariable>::empty();
    assert(python_read(ls, i, PythonReading::Outside) == python_read(ls, i + 1, PythonReading::InClass { name: n, vars: e }));
    assert forall|k: int| i + 1 <= k < i + 1 + pre.len() implies py_class_inert(#[trigger] ls[k]) by {
        assert(ls[k] == rl[k - i]);
        assert(rl[k - i] == pre[k - i - 1]);
    }
    lemma_read_class_inert(ls, i + 1, pre.len() as int, n, e);
    let p = i + 1 + pre.len();
    let rb = python_class_read_back(o).variables;
    let mid: int = if inst.len() > 0 { 1 } else { 0 };
    if inst.len() > 0 {
        let t = py_init_line(ord);
        let il = seq!['\t'] + t;
        assert(ls[p] == rl[1 + pre.len() as int]);
        assert(ls[p] == il);
        lemma_init_line(ord);
        reveal_strlit("\t");
        reveal_strlit("def __init__(self");
        reveal_strlit("):");
        lemma_lacks_concat(seq!['\t'], t, '\n');
        assert(t[0] == 'd');
        assert(t.last() == ':');
        lemma_trim_start_after_ws(seq!['\t'], t);
        lemma_trim_unchanged(t);
        assert(trim(il) == t);
        assert(il.take(1) =~= "\t"@);
        assert(starts_with(t, "def __init__(self"@)) by {
            assert(t.take(17) =~= "def __init__(self"@);
        }
        assert(py_class_member(t) == ord.map_values(|v: SpecVariable| py_read_back_param(v)));
        assert(e + rb =~= rb);
        assert(python_read(ls, p, PythonReading::InClass { name: n, vars: e })
            == python_read(ls, p + 1, PythonReading::InClass { name: n, vars: rb }));
    } else {
        assert(ord.len() == 0) by {
            lemma_pick_len(inst, Pick::Required);
            lemma_pick_len(inst, Pick::Optional);
        }
        assert(rb =~= e);
    }
    let q = p + mid;
    assert forall|k: int| q <= k < q + post.len() implies py_class_inert(#[trigger] ls[k]) by {
        assert(ls[k] == rl[k - i]);
        assert(rl[k - i] == post[k - q]);
    }
    lemma_read_class_inert(ls, q, post.len() as int, n, rb);
    assert(rl.len() == 1 + pre.len() + mid + post.len());
}

} // verus!
