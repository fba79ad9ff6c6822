use vstd::prelude::*;
use crate::chars::{
    after_prefix, is_line, is_word, is_ws, lemma_lacks_concat, lemma_not_starts_with,
    lemma_starts_with_concat, lemma_trim_start_after_ws, trim_end_in,
    lemma_trim_unchanged, lemma_unlines_add, lemma_unlines_one, starts_with, trim, unlines,
};
use crate::text::{capitalised, char_upper, join, str_upper, utf8_len};
use crate::oml_object::{ObjectType, SpecOmlObject, SpecVariable, VariableModifier, VariableVisibility};
use crate::generators::cpp::{
    cpp_constructor, cpp_constructors, cpp_copy_move, cpp_full_type, cpp_getter, cpp_getters,
    cpp_getters_and_setters, cpp_setter, cpp_setters, any_with_visibility, cpp_decls_with,
    cpp_label, cpp_visibility_section, cpp_class_text, cpp_object_text, cpp_objects_text,
    any_array_like, any_class_or_struct, cpp_file, cpp_guard, cpp_includes, cpp_enum_text,
    cpp_enum_variants, cpp_init_lines, cpp_inits, cpp_params,
    optional_vars, required_vars,
};
use crate::reading::{line_variant, opt_seq, read_object, read_var, variant_var};
use crate::generate::{GenerateError, has_undecided};
use crate::generators::cpp_reverse::{CppReading, cpp_header, cpp_objects, cpp_open_object, cpp_read};
use crate::cpp_round_trip::{
    cpp_decl_line, cpp_read_back_mods, law_cpp_member_round_trip, cpp_var_round_trips, lemma_full_type_first, lemma_full_type_lacks, lemma_word_lacks_gt,
};
use crate::generators::cpp_reverse::cpp_member_line;

verus! {

// ---------------------------------------------------------------- lines a class body passes over

/// Whether a trimmed line of a class body leaves its reader as it was: the
/// line is no label, does not end the body and declares no member.
pub open spec fn cpp_inert(t: Seq<char>) -> bool {
    &&& t != "public:"@
    &&& t != "private:"@
    &&& t != "protected:"@
    &&& !starts_with(t, "};"@)
    &&& !cpp_member_line(t)
}

/// Whether every line of `ls` stands alone and leaves the reader of a class
/// body as it was.
pub open spec fn cpp_inert_lines(ls: Seq<Seq<char>>) -> bool {
    forall|k: int| 0 <= k < ls.len() ==> is_line(#[trigger] ls[k]) && cpp_inert(trim(ls[k]))
}

/// A line made of whitespace and a text `s` that begins with neither
/// whitespace nor `}`, ends with neither whitespace nor `:`, and holds `(`
/// where it ends with `;`, leaves the reader of a class body as it was.
proof fn lemma_inert_line(w: Seq<char>, s: Seq<char>)
    requires
        forall|i: int| 0 <= i < w.len() ==> is_ws(#[trigger] w[i]) && w[i] != '\n',
        s.len() > 0,
        !is_ws(s[0]),
        !is_ws(s.last()),
        s[0] != '}',
        s.last() != ':',
        s.last() != ';' || s.contains('('),
        !s.contains('\n'),
    ensures
        is_line(w + s),
        trim(w + s) == s,
        cpp_inert(s),
{
    lemma_trim_start_after_ws(w, s);
    lemma_trim_unchanged(s);
    assert(!(w + s).contains('\n')) by {
        if (w + s).contains('\n') {
            let k = choose|k: int| 0 <= k < (w + s).len() && (w + s)[k] == '\n';
            if k < w.len() {
                assert(w[k] == '\n');
            } else {
                assert(s[k - w.len()] == '\n');
            }
        }
    }
    assert((w + s).last() == s.last());
    reveal_strlit("public:");
    reveal_strlit("private:");
    reveal_strlit("protected:");
    reveal_strlit("};");
    lemma_not_starts_with(s, "};"@, 0);
    assert(s != "public:"@) by {
        assert("public:"@.last() == ':');
    }
    assert(s != "private:"@) by {
        assert("private:"@.last() == ':');
    }
    assert(s != "protected:"@) by {
        assert("protected:"@.last() == ':');
    }
}

/// An empty line leaves the reader of a class body as it was.
proof fn lemma_blank_inert()
    ensures
        is_line(Seq::<char>::empty()),
        trim(Seq::<char>::empty()) == Seq::<char>::empty(),
        cpp_inert(Seq::<char>::empty()),
{
    reveal_strlit("public:");
    reveal_strlit("private:");
    reveal_strlit("protected:");
    reveal_strlit("};");
    assert(Seq::<char>::empty() != "public:"@) by {
        assert("public:"@.len() == 7);
    }
    assert(Seq::<char>::empty() != "private:"@) by {
        assert("private:"@.len() == 8);
    }
    assert(Seq::<char>::empty() != "protected:"@) by {
        assert("protected:"@.len() == 10);
    }
}

/// Items that lack a character, joined by a separator that lacks it, lack it.
proof fn lemma_join_lacks(items: Seq<Seq<char>>, sep: Seq<char>, c: char)
    requires
        forall|k: int| 0 <= k < items.len() ==> !(#[trigger] items[k]).contains(c),
        !sep.contains(c),
    ensures
        !join(items, sep).contains(c),
    decreases items.len(),
{
    if items.len() == 1 {
        assert(!items[0].contains(c));
    } else if items.len() > 1 {
        let init = items.drop_last();
        assert forall|k: int| 0 <= k < init.len() implies !(#[trigger] init[k]).contains(c) by {
            assert(init[k] == items[k]);
        }
        lemma_join_lacks(init, sep, c);
        assert(!items.last().contains(c));
        lemma_lacks_concat(join(init, sep), sep, c);
        lemma_lacks_concat(join(init, sep) + sep, items.last(), c);
    }
}

// ---------------------------------------------------------------- constructors

/// Whether a member initialiser stands on a line: it holds no line break and
/// ends with `)`.
pub open spec fn init_ok(q: Seq<char>) -> bool {
    q.len() > 0 && !q.contains('\n') && q.last() == ')'
}

proof fn lemma_init_lines(inits: Seq<Seq<char>>) -> (ls: Seq<Seq<char>>)
    requires
        inits.len() > 0,
        forall|k: int| 0 <= k < inits.len() ==> init_ok(#[trigger] inits[k]),
    ensures
        "\t\t: "@ + cpp_init_lines(inits) == unlines(ls),
        cpp_inert_lines(ls),
    decreases inits.len(),
{
    reveal_strlit("\t\t: ");
    reveal_strlit("\t\t, ");
    reveal_strlit("\n");
    let w = seq!['\t', '\t'];
    if inits.len() == 1 {
        let q = inits[0];
        assert(init_ok(q));
        let s = seq![':', ' '] + q;
        let l = "\t\t: "@ + q;
        assert(l =~= w + s);
        assert(s.last() == ')');
        lemma_lacks_concat(seq![':', ' '], q, '\n');
        lemma_inert_line(w, s);
        lemma_unlines_one(l);
        assert("\t\t: "@ + cpp_init_lines(inits) =~= l + seq!['\n']);
        let ls = seq![l];
        assert(cpp_inert_lines(ls)) by {
            assert forall|k: int| 0 <= k < ls.len() implies is_line(#[trigger] ls[k]) && cpp_inert(trim(ls[k])) by {
                assert(ls[k] == l);
            }
        }
        ls
    } else {
        let init = inits.drop_last();
        assert forall|k: int| 0 <= k < init.len() implies init_ok(#[trigger] init[k]) by {
            assert(init[k] == inits[k]);
        }
        let ls0 = lemma_init_lines(init);
        let q = inits.last();
        assert(init_ok(q));
        let s = seq![',', ' '] + q;
        let l = "\t\t, "@ + q;
        assert(l =~= w + s);
        assert(s.last() == ')');
        lemma_lacks_concat(seq![',', ' '], q, '\n');
        lemma_inert_line(w, s);
        lemma_unlines_one(l);
        lemma_unlines_add(ls0, seq![l]);
        assert("\t\t: "@ + cpp_init_lines(inits) =~= ("\t\t: "@ + cpp_init_lines(init)) + (l + seq!['\n']));
        let ls = ls0 + seq![l];
        assert(cpp_inert_lines(ls)) by {
            assert forall|k: int| 0 <= k < ls.len() implies is_line(#[trigger] ls[k]) && cpp_inert(trim(ls[k])) by {
                if k < ls0.len() {
                    assert(ls[k] == ls0[k]);
                } else {
                    assert(ls[k] == l);
                }
            }
        }
        ls
    }
}

/// The lines of a constructor all leave the reader of a class body as it was.
#[verifier::spinoff_prover]
#[verifier::rlimit(50)]
proof fn lemma_constructor_lines(prefix: Seq<char>, name: Seq<char>, params: Seq<Seq<char>>, inits: Seq<Seq<char>>) -> (ls: Seq<Seq<char>>)
    requires
        prefix == Seq::<char>::empty() || prefix == "explicit "@,
        is_word(name),
        forall|k: int| 0 <= k < params.len() ==> !(#[trigger] params[k]).contains('\n'),
        inits.len() > 0,
        forall|k: int| 0 <= k < inits.len() ==> init_ok(#[trigger] inits[k]),
    ensures
        cpp_constructor(prefix, name, params, inits) == unlines(ls),
        cpp_inert_lines(ls),
{
    reveal_strlit("explicit ");
    reveal_strlit("\t");
    reveal_strlit("(");
    reveal_strlit(") : ");
    reveal_strlit(" {}");
    reveal_strlit(" {}\n");
    reveal_strlit(")");
    reveal_strlit(")\n");
    reveal_strlit("\t\t: ");
    reveal_strlit("\t{}\n");
    reveal_strlit("\t{}");
    reveal_strlit(", ");
    reveal_strlit("\n");
    let ps = join(params, ", "@);
    let is = join(inits, ", "@);
    assert forall|k: int| 0 <= k < inits.len() implies !(#[trigger] inits[k]).contains('\n') by {
        assert(init_ok(inits[k]));
    }
    lemma_join_lacks(params, ", "@, '\n');
    lemma_join_lacks(inits, ", "@, '\n');
    crate::chars::lemma_word_lacks(name, '\n');
    assert(!prefix.contains('\n')) by {
        if prefix.contains('\n') {
            let k = choose|k: int| 0 <= k < prefix.len() && prefix[k] == '\n';
            assert(prefix =~= "explicit "@);
        }
    }
    let head = prefix + name;
    assert(head[0] == (if prefix.len() > 0 { 'e' } else { name[0] }));
    lemma_lacks_concat(prefix, name, '\n');
    let sig_s = head + seq!['('] + ps + seq![')'];
    lemma_lacks_concat(head, seq!['('], '\n');
    lemma_lacks_concat(head + seq!['('], ps, '\n');
    lemma_lacks_concat(head + seq!['('] + ps, seq![')'], '\n');
    let single_s = sig_s + seq![' ', ':', ' '] + is + seq![' ', '{', '}'];
    lemma_lacks_concat(sig_s, seq![' ', ':', ' '], '\n');
    lemma_lacks_concat(sig_s + seq![' ', ':', ' '], is, '\n');
    lemma_lacks_concat(sig_s + seq![' ', ':', ' '] + is, seq![' ', '{', '}'], '\n');
    let w1 = seq!['\t'];
    let single = "\t"@ + prefix + name + "("@ + ps + ") : "@ + is + " {}"@;
    assert(single =~= w1 + single_s);
    lemma_inert_line(w1, single_s);
    let sig = w1 + sig_s;
    lemma_inert_line(w1, sig_s);
    if utf8_len(single) <= 120 {
        let ls = seq![single];
        lemma_unlines_one(single);
        assert(cpp_constructor(prefix, name, params, inits) == single + "\n"@);
        assert(single + "\n"@ =~= single + seq!['\n']);
        assert(cpp_inert_lines(ls)) by {
            assert forall|k: int| 0 <= k < ls.len() implies is_line(#[trigger] ls[k]) && cpp_inert(trim(ls[k])) by {
                assert(ls[k] == single);
            }
        }
        ls
    } else if utf8_len("\t\t: "@ + is + " {}"@) <= 120 {
        let w2 = seq!['\t', '\t'];
        let s2 = seq![':', ' '] + is + seq![' ', '{', '}'];
        lemma_lacks_concat(seq![':', ' '], is, '\n');
        lemma_lacks_concat(seq![':', ' '] + is, seq![' ', '{', '}'], '\n');
        lemma_inert_line(w2, s2);
        let l2 = w2 + s2;
        assert(l2 =~= "\t\t: "@ + is + " {}"@);
        let ls = seq![sig, l2];
        lemma_unlines_add(seq![sig], seq![l2]);
        lemma_unlines_one(sig);
        lemma_unlines_one(l2);
        assert(seq![sig] + seq![l2] =~= ls);
        assert(cpp_constructor(prefix, name, params, inits) =~= (sig + seq!['\n']) + (l2 + seq!['\n']));
        assert(cpp_inert_lines(ls)) by {
            assert forall|k: int| 0 <= k < ls.len() implies is_line(#[trigger] ls[k]) && cpp_inert(trim(ls[k])) by {
                if k == 0 {
                    assert(ls[k] == sig);
                } else {
                    assert(ls[k] == l2);
                }
            }
        }
        ls
    } else {
        let mid = lemma_init_lines(inits);
        let last = "\t{}"@;
        let lw = seq!['\t'];
        let ls_ = seq!['{', '}'];
        assert(last =~= lw + ls_);
        lemma_inert_line(lw, ls_);
        let ls = seq![sig] + mid + seq![last];
        lemma_unlines_add(seq![sig] + mid, seq![last]);
        lemma_unlines_add(seq![sig], mid);
        lemma_unlines_one(sig);
        lemma_unlines_one(last);
        assert(cpp_constructor(prefix, name, params, inits)
            =~= (sig + seq!['\n']) + ("\t\t: "@ + cpp_init_lines(inits)) + (last + seq!['\n']));
        assert(cpp_inert_lines(ls)) by {
            assert forall|k: int| 0 <= k < ls.len() implies is_line(#[trigger] ls[k]) && cpp_inert(trim(ls[k])) by {
                if k == 0 {
                    assert(ls[k] == sig);
                } else if k < 1 + mid.len() {
                    assert(ls[k] == mid[k - 1]);
                } else {
                    assert(ls[k] == last);
                }
            }
        }
        ls
    }
}

/// The parameters written for members that read back hold no line break,
/// and their initialisers stand on a line.
proof fn lemma_params_lines(vars: Seq<SpecVariable>)
    requires
        forall|k: int| 0 <= k < vars.len() ==> cpp_var_round_trips(#[trigger] vars[k]),
    ensures
        cpp_inits(vars).len() == vars.len(),
        forall|k: int| 0 <= k < cpp_params(vars).len() ==> !(#[trigger] cpp_params(vars)[k]).contains('\n'),
        forall|k: int| 0 <= k < cpp_inits(vars).len() ==> init_ok(#[trigger] cpp_inits(vars)[k]),
    decreases vars.len(),
{
    if vars.len() > 0 {
        let init = vars.drop_last();
        assert forall|k: int| 0 <= k < init.len() implies cpp_var_round_trips(#[trigger] init[k]) by {
            assert(init[k] == vars[k]);
        }
        lemma_params_lines(init);
        let v = vars.last();
        assert(cpp_var_round_trips(v));
        lemma_full_type_lacks(v, '\n');
        lemma_word_lacks_gt(v.name);
        reveal_strlit(" ");
        reveal_strlit("(std::move(");
        reveal_strlit("))");
        let p = cpp_full_type(v) + " "@ + v.name;
        lemma_lacks_concat(cpp_full_type(v), " "@, '\n');
        lemma_lacks_concat(cpp_full_type(v) + " "@, v.name, '\n');
        let q = v.name + "(std::move("@ + v.name + "))"@;
        lemma_lacks_concat(v.name, "(std::move("@, '\n');
        lemma_lacks_concat(v.name + "(std::move("@, v.name, '\n');
        lemma_lacks_concat(v.name + "(std::move("@ + v.name, "))"@, '\n');
        assert(q.last() == ')');
        assert(init_ok(q));
        assert(cpp_params(vars) == cpp_params(init).push(p));
        assert(cpp_inits(vars) == cpp_inits(init).push(q));
        assert forall|k: int| 0 <= k < cpp_params(vars).len() implies !(#[trigger] cpp_params(vars)[k]).contains('\n') by {
            if k < cpp_params(init).len() {
                assert(cpp_params(vars)[k] == cpp_params(init)[k]);
            }
        }
        assert forall|k: int| 0 <= k < cpp_inits(vars).len() implies init_ok(#[trigger] cpp_inits(vars)[k]) by {
            if k < cpp_inits(init).len() {
                assert(cpp_inits(vars)[k] == cpp_inits(init)[k]);
            }
        }
    }
}

/// The required and the optional members of members that read back read back.
proof fn lemma_selected_round_trip(vars: Seq<SpecVariable>)
    requires
        forall|k: int| 0 <= k < vars.len() ==> cpp_var_round_trips(#[trigger] vars[k]),
    ensures
        forall|k: int| 0 <= k < required_vars(vars).len() ==> cpp_var_round_trips(#[trigger] required_vars(vars)[k]),
        forall|k: int| 0 <= k < optional_vars(vars).len() ==> cpp_var_round_trips(#[trigger] optional_vars(vars)[k]),
    decreases vars.len(),
{
    if vars.len() > 0 {
        let init = vars.drop_last();
        assert forall|k: int| 0 <= k < init.len() implies cpp_var_round_trips(#[trigger] init[k]) by {
            assert(init[k] == vars[k]);
        }
        lemma_selected_round_trip(init);
        assert(cpp_var_round_trips(vars.last()));
        assert forall|k: int| 0 <= k < required_vars(vars).len() implies cpp_var_round_trips(#[trigger] required_vars(vars)[k]) by {
            if k < required_vars(init).len() {
                assert(required_vars(vars)[k] == required_vars(init)[k]);
            }
        }
        assert forall|k: int| 0 <= k < optional_vars(vars).len() implies cpp_var_round_trips(#[trigger] optional_vars(vars)[k]) by {
            if k < optional_vars(init).len() {
                assert(optional_vars(vars)[k] == optional_vars(init)[k]);
            }
        }
    }
}

/// The constructors of a class whose members read back leave the reader of
/// its body as it was.
proof fn lemma_constructors_lines(name: Seq<char>, vars: Seq<SpecVariable>) -> (ls: Seq<Seq<char>>)
    requires
        is_word(name),
        forall|k: int| 0 <= k < vars.len() ==> cpp_var_round_trips(#[trigger] vars[k]),
    ensures
        cpp_constructors(name, vars) == unlines(ls),
        cpp_inert_lines(ls),
{
    reveal_strlit("\t");
    reveal_strlit("() = default;\n");
    reveal_strlit("() = default;");
    reveal_strlit("explicit ");
    let w = seq!['\t'];
    let ds = name + "() = default;"@;
    let dl = "\t"@ + name + "() = default;"@;
    assert(dl =~= w + ds);
    crate::chars::lemma_word_lacks(name, '\n');
    lemma_lacks_concat(name, "() = default;"@, '\n');
    assert(ds[name.len() as int] == '(');
    assert(ds.last() == ';');
    lemma_inert_line(w, ds);
    lemma_unlines_one(dl);
    assert("\t"@ + name + "() = default;\n"@ =~= dl + seq!['\n']);
    let first = seq![dl];
    assert(cpp_inert_lines(first)) by {
        assert forall|k: int| 0 <= k < first.len() implies is_line(#[trigger] first[k]) && cpp_inert(trim(first[k])) by {
            assert(first[k] == dl);
        }
    }
    if vars.len() == 0 {
        first
    } else {
        let req = required_vars(vars);
        let opt = optional_vars(vars);
        lemma_selected_round_trip(vars);
        lemma_params_lines(vars);
        lemma_params_lines(req);
        let full = lemma_constructor_lines(Seq::empty(), name, cpp_params(vars), cpp_inits(vars));
        let mid = if req.len() > 0 && opt.len() > 0 {
            lemma_constructor_lines("explicit "@, name, cpp_params(req), cpp_inits(req))
        } else {
            Seq::<Seq<char>>::empty()
        };
        assert(unlines(mid) == (if req.len() > 0 && opt.len() > 0 {
            cpp_constructor("explicit "@, name, cpp_params(req), cpp_inits(req))
        } else {
            Seq::<char>::empty()
        }));
        assert(""@ == Seq::<char>::empty()) by {
            reveal_strlit("");
        }
        let ls = first + mid + full;
        lemma_unlines_add(first + mid, full);
        lemma_unlines_add(first, mid);
        assert(cpp_inert_lines(ls)) by {
            assert forall|k: int| 0 <= k < ls.len() implies is_line(#[trigger] ls[k]) && cpp_inert(trim(ls[k])) by {
                if k < first.len() {
                    assert(ls[k] == first[k]);
                } else if k < first.len() + mid.len() {
                    assert(ls[k] == mid[k - first.len()]);
                } else {
                    assert(ls[k] == full[k - first.len() - mid.len()]);
                }
            }
        }
        ls
    }
}

// ---------------------------------------------------------------- special members and accessors

proof fn lemma_lacks4(a: Seq<char>, b: Seq<char>, c: Seq<char>, d: Seq<char>, ch: char)
    requires
        !a.contains(ch),
        !b.contains(ch),
        !c.contains(ch),
        !d.contains(ch),
    ensures
        !(a + b + c + d).contains(ch),
{
    lemma_lacks_concat(a, b, ch);
    lemma_lacks_concat(a + b, c, ch);
    lemma_lacks_concat(a + b + c, d, ch);
}

/// A line of a class body that stands alone and leaves its reader as it was.
proof fn lemma_one_inert(l: Seq<char>) -> (ls: Seq<Seq<char>>)
    requires
        is_line(l),
        cpp_inert(trim(l)),
    ensures
        ls == seq![l],
        unlines(ls) == l + seq!['\n'],
        cpp_inert_lines(ls),
{
    lemma_unlines_one(l);
    let ls = seq![l];
    assert forall|k: int| 0 <= k < ls.len() implies is_line(#[trigger] ls[k]) && cpp_inert(trim(ls[k])) by {
        assert(ls[k] == l);
    }
    ls
}

/// Two runs of lines that leave the reader of a class body as it was make one.
proof fn lemma_inert_add(a: Seq<Seq<char>>, b: Seq<Seq<char>>)
    requires
        cpp_inert_lines(a),
        cpp_inert_lines(b),
    ensures
        cpp_inert_lines(a + b),
        unlines(a + b) == unlines(a) + unlines(b),
{
    lemma_unlines_add(a, b);
    assert forall|k: int| 0 <= k < (a + b).len() implies is_line(#[trigger] (a + b)[k]) && cpp_inert(trim((a + b)[k])) by {
        if k < a.len() {
            assert((a + b)[k] == a[k]);
        } else {
            assert((a + b)[k] == b[k - a.len()]);
        }
    }
}

/// The line `\t` + `s`, where `s` begins with the word `n` or with `~`, holds
/// `(` at `k` and ends with `;`, leaves the reader of a class body as it was.
proof fn lemma_special_line(n: Seq<char>, s: Seq<char>, k: int) -> (ls: Seq<Seq<char>>)
    requires
        is_word(n),
        s.len() > n.len(),
        s[0] == n[0] || s[0] == '~',
        0 <= k < s.len(),
        s[k] == '(',
        s.last() == ';',
        !s.contains('\n'),
    ensures
        ls == seq![seq!['\t'] + s],
        unlines(ls) == seq!['\t'] + s + seq!['\n'],
        cpp_inert_lines(ls),
{
    assert(crate::chars::is_ident_char(n[0]));
    lemma_inert_line(seq!['\t'], s);
    lemma_one_inert(seq!['\t'] + s)
}

#[verifier::spinoff_prover]
proof fn lemma_copy_lines(n: Seq<char>) -> (ls: Seq<Seq<char>>)
    requires
        is_word(n),
    ensures
        "\t"@ + n + "(const "@ + n + "& other) = default;\n"@
            + "\t"@ + n + "("@ + n + "&& other) noexcept = default;\n"@ == unlines(ls),
        cpp_inert_lines(ls),
{
    reveal_strlit("\t");
    reveal_strlit("(const ");
    reveal_strlit("& other) = default;\n");
    reveal_strlit("& other) = default;");
    reveal_strlit("(");
    reveal_strlit("&& other) noexcept = default;\n");
    reveal_strlit("&& other) noexcept = default;");
    crate::chars::lemma_word_lacks(n, '\n');
    let s1 = n + "(const "@ + n + "& other) = default;"@;
    let s2 = n + "("@ + n + "&& other) noexcept = default;"@;
    lemma_lacks4(n, "(const "@, n, "& other) = default;"@, '\n');
    lemma_lacks4(n, "("@, n, "&& other) noexcept = default;"@, '\n');
    let a = lemma_special_line(n, s1, n.len() as int);
    let b = lemma_special_line(n, s2, n.len() as int);
    lemma_inert_add(a, b);
    assert("\t"@ + n + "(const "@ + n + "& other) = default;\n"@
        + "\t"@ + n + "("@ + n + "&& other) noexcept = default;\n"@
        =~= (seq!['\t'] + s1 + seq!['\n']) + (seq!['\t'] + s2 + seq!['\n']));
    a + b
}

#[verifier::spinoff_prover]
proof fn lemma_assign_lines(n: Seq<char>) -> (ls: Seq<Seq<char>>)
    requires
        is_word(n),
    ensures
        "\t"@ + n + "& operator=(const "@ + n + "& other) = default;\n"@
            + "\t"@ + n + "& operator=("@ + n + "&& other) noexcept = default;\n"@ == unlines(ls),
        cpp_inert_lines(ls),
{
    reveal_strlit("\t");
    reveal_strlit("& operator=(const ");
    reveal_strlit("& other) = default;\n");
    reveal_strlit("& other) = default;");
    reveal_strlit("& operator=(");
    reveal_strlit("&& other) noexcept = default;\n");
    reveal_strlit("&& other) noexcept = default;");
    crate::chars::lemma_word_lacks(n, '\n');
    let s3 = n + "& operator=(const "@ + n + "& other) = default;"@;
    let s4 = n + "& operator=("@ + n + "&& other) noexcept = default;"@;
    lemma_lacks4(n, "& operator=(const "@, n, "& other) = default;"@, '\n');
    lemma_lacks4(n, "& operator=("@, n, "&& other) noexcept = default;"@, '\n');
    let a = lemma_special_line(n, s3, n.len() as int + 11);
    let b = lemma_special_line(n, s4, n.len() as int + 11);
    lemma_inert_add(a, b);
    assert("\t"@ + n + "& operator=(const "@ + n + "& other) = default;\n"@
        + "\t"@ + n + "& operator=("@ + n + "&& other) noexcept = default;\n"@
        =~= (seq!['\t'] + s3 + seq!['\n']) + (seq!['\t'] + s4 + seq!['\n']));
    a + b
}

#[verifier::spinoff_prover]
proof fn lemma_destructor_line(n: Seq<char>) -> (ls: Seq<Seq<char>>)
    requires
        is_word(n),
    ensures
        "\t~"@ + n + "() = default;\n"@ == unlines(ls),
        cpp_inert_lines(ls),
{
    reveal_strlit("\t~");
    reveal_strlit("() = default;\n");
    reveal_strlit("() = default;");
    crate::chars::lemma_word_lacks(n, '\n');
    let s5 = seq!['~'] + n + "() = default;"@;
    lemma_lacks4(seq!['~'], n, "() = default;"@, Seq::empty(), '\n');
    assert(s5 + Seq::<char>::empty() =~= s5);
    let a = lemma_special_line(n, s5, n.len() as int + 1);
    assert("\t~"@ + n + "() = default;\n"@ =~= seq!['\t'] + s5 + seq!['\n']);
    a
}

/// The copy and move constructors, the assignments and the destructor leave
/// the reader of a class body as it was.
proof fn lemma_copy_move_lines(n: Seq<char>) -> (ls: Seq<Seq<char>>)
    requires
        is_word(n),
    ensures
        cpp_copy_move(n) == unlines(ls),
        cpp_inert_lines(ls),
{
    let a = lemma_copy_lines(n);
    let b = lemma_assign_lines(n);
    let c = lemma_destructor_line(n);
    lemma_inert_add(a, b);
    lemma_inert_add(a + b, c);
    a + b + c
}

/// Whether the accessors of a member stand on their lines: it reads back,
/// and where it is private the uppercase of its first letter holds no line
/// break.
pub open spec fn cpp_accessor_ok(v: SpecVariable) -> bool {
    &&& cpp_var_round_trips(v)
    &&& v.visibility == VariableVisibility::PRIVATE ==> !char_upper(v.name[0]).contains('\n')
}

proof fn lemma_capitalised_lacks(n: Seq<char>)
    requires
        is_word(n),
        !char_upper(n[0]).contains('\n'),
    ensures
        !capitalised(n).contains('\n'),
{
    crate::chars::lemma_word_lacks(n, '\n');
    assert(!n.drop_first().contains('\n')) by {
        if n.drop_first().contains('\n') {
            let k = choose|k: int| 0 <= k < n.drop_first().len() && n.drop_first()[k] == '\n';
            assert(n[k + 1] == '\n');
        }
    }
    lemma_lacks_concat(char_upper(n[0]), n.drop_first(), '\n');
}

#[verifier::rlimit(50)]
proof fn lemma_getter_line(v: SpecVariable) -> (ls: Seq<Seq<char>>)
    requires
        cpp_var_round_trips(v),
        !char_upper(v.name[0]).contains('\n'),
    ensures
        cpp_getter(v) == unlines(ls),
        cpp_inert_lines(ls),
{
    reveal_strlit("\t");
    reveal_strlit(" get");
    reveal_strlit("() const { return ");
    reveal_strlit("; }\n");
    reveal_strlit("; }");
    let t = cpp_full_type(v);
    let n = v.name;
    let c = capitalised(n);
    lemma_full_type_lacks(v, '\n');
    lemma_full_type_first(v);
    lemma_word_lacks_gt(n);
    lemma_capitalised_lacks(n);
    let w = seq!['\t'];
    let s = t + " get"@ + c + "() const { return "@ + n + "; }"@;
    lemma_lacks4(t, " get"@, c, "() const { return "@, '\n');
    lemma_lacks_concat(t + " get"@ + c + "() const { return "@, n, '\n');
    lemma_lacks_concat(t + " get"@ + c + "() const { return "@ + n, "; }"@, '\n');
    assert(s[t.len() as int + 4 + c.len() as int] == '(');
    assert(s[0] == t[0]);
    assert(s.last() == '}');
    lemma_inert_line(w, s);
    assert(cpp_getter(v) =~= (w + s) + seq!['\n']);
    lemma_one_inert(w + s)
}

#[verifier::rlimit(50)]
#[verifier::spinoff_prover]
proof fn lemma_setter_line(v: SpecVariable) -> (ls: Seq<Seq<char>>)
    requires
        cpp_var_round_trips(v),
        !char_upper(v.name[0]).contains('\n'),
    ensures
        cpp_setter(v) == unlines(ls),
        cpp_inert_lines(ls),
{
    reveal_strlit("\tvoid set");
    reveal_strlit("void set");
    reveal_strlit("(const ");
    reveal_strlit("& value) { ");
    reveal_strlit(" = value; }\n");
    reveal_strlit(" = value; }");
    let t = cpp_full_type(v);
    let n = v.name;
    let c = capitalised(n);
    lemma_full_type_lacks(v, '\n');
    lemma_word_lacks_gt(n);
    lemma_capitalised_lacks(n);
    let w = seq!['\t'];
    let s = "void set"@ + c + "(const "@ + t + "& value) { "@ + n + " = value; }"@;
    lemma_lacks4("void set"@, c, "(const "@, t, '\n');
    lemma_lacks_concat("void set"@ + c + "(const "@ + t, "& value) { "@, '\n');
    lemma_lacks_concat("void set"@ + c + "(const "@ + t + "& value) { "@, n, '\n');
    lemma_lacks_concat("void set"@ + c + "(const "@ + t + "& value) { "@ + n, " = value; }"@, '\n');
    assert(s[8 + c.len() as int] == '(');
    assert(s[0] == 'v');
    assert(s.last() == '}');
    lemma_inert_line(w, s);
    assert(cpp_setter(v) =~= (w + s) + seq!['\n']);
    lemma_one_inert(w + s)
}

proof fn lemma_getters_lines(vars: Seq<SpecVariable>) -> (ls: Seq<Seq<char>>)
    requires
        forall|k: int| 0 <= k < vars.len() ==> cpp_accessor_ok(#[trigger] vars[k]),
    ensures
        cpp_getters(vars) == unlines(ls),
        cpp_inert_lines(ls),
    decreases vars.len(),
{
    if vars.len() == 0 {
        Seq::empty()
    } else {
        let init = vars.drop_last();
        assert forall|k: int| 0 <= k < init.len() implies cpp_accessor_ok(#[trigger] init[k]) by {
            assert(init[k] == vars[k]);
        }
        let a = lemma_getters_lines(init);
        let v = vars.last();
        assert(cpp_accessor_ok(v));
        if v.visibility == VariableVisibility::PRIVATE {
            let b = lemma_getter_line(v);
            lemma_inert_add(a, b);
            a + b
        } else {
            assert(cpp_getters(vars) == cpp_getters(init) + Seq::<char>::empty());
            assert(cpp_getters(init) + Seq::<char>::empty() =~= cpp_getters(init));
            a
        }
    }
}

proof fn lemma_setters_lines(vars: Seq<SpecVariable>) -> (ls: Seq<Seq<char>>)
    requires
        forall|k: int| 0 <= k < vars.len() ==> cpp_accessor_ok(#[trigger] vars[k]),
    ensures
        cpp_setters(vars) == unlines(ls),
        cpp_inert_lines(ls),
    decreases vars.len(),
{
    if vars.len() == 0 {
        Seq::empty()
    } else {
        let init = vars.drop_last();
        assert forall|k: int| 0 <= k < init.len() implies cpp_accessor_ok(#[trigger] init[k]) by {
            assert(init[k] == vars[k]);
        }
        let a = lemma_setters_lines(init);
        let v = vars.last();
        assert(cpp_accessor_ok(v));
        if v.visibility == VariableVisibility::PRIVATE && !v.has(VariableModifier::CONST) {
            let b = lemma_setter_line(v);
            lemma_inert_add(a, b);
            a + b
        } else {
            assert(cpp_setters(vars) == cpp_setters(init) + Seq::<char>::empty());
            assert(cpp_setters(init) + Seq::<char>::empty() =~= cpp_setters(init));
            a
        }
    }
}

/// The accessors of a class whose members read back leave the reader of its
/// body as it was.
proof fn lemma_accessors_lines(vars: Seq<SpecVariable>) -> (ls: Seq<Seq<char>>)
    requires
        forall|k: int| 0 <= k < vars.len() ==> cpp_accessor_ok(#[trigger] vars[k]),
    ensures
        cpp_getters_and_setters(vars) == unlines(ls),
        cpp_inert_lines(ls),
{
    if !any_with_visibility(vars, VariableVisibility::PRIVATE) {
        Seq::empty()
    } else {
        let a = lemma_getters_lines(vars);
        let b = lemma_setters_lines(vars);
        lemma_blank_inert();
        let e = lemma_one_inert(Seq::<char>::empty());
        lemma_inert_add(a, e);
        lemma_inert_add(a + e, b);
        reveal_strlit("\n");
        assert(Seq::<char>::empty() + seq!['\n'] =~= "\n"@);
        a + e + b
    }
}

// ---------------------------------------------------------------- member sections

/// The members of `vars` with visibility `vis`, in order.
pub open spec fn with_visibility(vars: Seq<SpecVariable>, vis: VariableVisibility) -> Seq<SpecVariable>
    decreases vars.len(),
{
    if vars.len() == 0 {
        Seq::empty()
    } else {
        with_visibility(vars.drop_last(), vis)
            + (if vars.last().visibility == vis { seq![vars.last()] } else { Seq::<SpecVariable>::empty() })
    }
}

/// What the C++ reader gives back for a member: its visibility, type, array
/// kind and name, with `STATIC`, `CONST` and `OPTIONAL` as written.
pub open spec fn cpp_read_back_var(v: SpecVariable) -> SpecVariable {
    read_var(cpp_read_back_mods(v), v.visibility, v.var_type, v.array_kind, v.name)
}

/// The lines that declare the members of `vars`.
pub open spec fn decl_lines(vars: Seq<SpecVariable>) -> Seq<Seq<char>> {
    vars.map_values(|v: SpecVariable| cpp_decl_line(v))
}

proof fn lemma_with_visibility(vars: Seq<SpecVariable>, vis: VariableVisibility)
    requires
        forall|k: int| 0 <= k < vars.len() ==> cpp_var_round_trips(#[trigger] vars[k]),
    ensures
        forall|k: int| 0 <= k < with_visibility(vars, vis).len() ==> cpp_var_round_trips(#[trigger] with_visibility(vars, vis)[k])
            && with_visibility(vars, vis)[k].visibility == vis,
        !any_with_visibility(vars, vis) ==> with_visibility(vars, vis).len() == 0,
        cpp_decls_with(vars, vis) == unlines(decl_lines(with_visibility(vars, vis))),
    decreases vars.len(),
{
    let w = with_visibility(vars, vis);
    if vars.len() == 0 {
        assert(decl_lines(w) =~= Seq::<Seq<char>>::empty());
    } else {
        let init = vars.drop_last();
        assert forall|k: int| 0 <= k < init.len() implies cpp_var_round_trips(#[trigger] init[k]) by {
            assert(init[k] == vars[k]);
        }
        lemma_with_visibility(init, vis);
        let w0 = with_visibility(init, vis);
        let v = vars.last();
        assert(cpp_var_round_trips(v));
        if v.visibility == vis {
            assert(w == w0 + seq![v]);
            law_cpp_member_round_trip(v, vis);
            assert(decl_lines(w) =~= decl_lines(w0) + seq![cpp_decl_line(v)]);
            lemma_unlines_add(decl_lines(w0), seq![cpp_decl_line(v)]);
            lemma_unlines_one(cpp_decl_line(v));
            assert forall|k: int| 0 <= k < w.len() implies cpp_var_round_trips(#[trigger] w[k]) && w[k].visibility == vis by {
                if k < w0.len() {
                    assert(w[k] == w0[k]);
                }
            }
        } else {
            assert(w =~= w0);
            assert(cpp_decls_with(vars, vis) =~= cpp_decls_with(init, vis));
            if any_with_visibility(vars, vis) {
                let k = choose|k: int| 0 <= k < vars.len() && vars[k].visibility == vis;
                if k < init.len() {
                    assert(init[k] == vars[k]);
                }
            }
        }
    }
}

/// The lines of the section of members of visibility `vis`: its label where
/// `write_label` holds, then their declarations; none where there is none.
pub open spec fn section_lines(vars: Seq<SpecVariable>, vis: VariableVisibility, write_label: bool) -> Seq<Seq<char>> {
    if !any_with_visibility(vars, vis) {
        Seq::empty()
    } else {
        (if write_label { seq![cpp_label(vis)] } else { Seq::<Seq<char>>::empty() }) + decl_lines(with_visibility(vars, vis))
    }
}

proof fn lemma_section_text(vars: Seq<SpecVariable>, vis: VariableVisibility, write_label: bool)
    requires
        forall|k: int| 0 <= k < vars.len() ==> cpp_var_round_trips(#[trigger] vars[k]),
    ensures
        cpp_visibility_section(vars, vis, write_label) == unlines(section_lines(vars, vis, write_label)),
{
    lemma_with_visibility(vars, vis);
    if any_with_visibility(vars, vis) {
        let lab = if write_label { seq![cpp_label(vis)] } else { Seq::<Seq<char>>::empty() };
        lemma_unlines_add(lab, decl_lines(with_visibility(vars, vis)));
        lemma_unlines_one(cpp_label(vis));
        reveal_strlit("\n");
        assert(cpp_label(vis) + "\n"@ =~= cpp_label(vis) + seq!['\n']);
        assert(unlines(Seq::<Seq<char>>::empty()) == Seq::<char>::empty());
    }
}

// ---------------------------------------------------------------- reading a class body

/// Reading lines that leave the reader of a class body as it was.
proof fn lemma_read_inert(ls: Seq<Seq<char>>, i: int, n: int, is_struct: bool, name: Seq<char>, vis: VariableVisibility, vars: Seq<SpecVariable>)
    requires
        0 <= i,
        0 <= n,
        i + n <= ls.len(),
        forall|k: int| i <= k < i + n ==> cpp_inert(trim(#[trigger] ls[k])),
    ensures
        cpp_read(ls, i, CppReading::InRecord { is_struct, name, vis, vars })
            == cpp_read(ls, i + n, CppReading::InRecord { is_struct, name, vis, vars }),
    decreases n,
{
    if n > 0 {
        assert(cpp_inert(trim(ls[i])));
        lemma_read_inert(ls, i + 1, n - 1, is_struct, name, vis, vars);
    }
}

/// Reading the declarations of members of the visibility under which they are read.
proof fn lemma_read_decls(ls: Seq<Seq<char>>, i: int, sel: Seq<SpecVariable>, j: int, is_struct: bool, name: Seq<char>, vis: VariableVisibility, vars: Seq<SpecVariable>)
    requires
        0 <= i,
        0 <= j <= sel.len(),
        i + sel.len() <= ls.len(),
        forall|k: int| 0 <= k < sel.len() ==> ls[i + k] == cpp_decl_line(#[trigger] sel[k]),
        forall|k: int| 0 <= k < sel.len() ==> cpp_var_round_trips(#[trigger] sel[k]) && sel[k].visibility == vis,
    ensures
        cpp_read(ls, i + j, CppReading::InRecord {
            is_struct,
            name,
            vis,
            vars: vars + sel.take(j).map_values(|v: SpecVariable| cpp_read_back_var(v)),
        }) == cpp_read(ls, i + sel.len(), CppReading::InRecord {
            is_struct,
            name,
            vis,
            vars: vars + sel.map_values(|v: SpecVariable| cpp_read_back_var(v)),
        }),
    decreases sel.len() - j,
{
    if j < sel.len() {
        let v = sel[j];
        assert(cpp_var_round_trips(v) && v.visibility == vis);
        assert(ls[i + j] == cpp_decl_line(v));
        law_cpp_member_round_trip(v, vis);
        let acc = vars + sel.take(j).map_values(|v: SpecVariable| cpp_read_back_var(v));
        assert(vars + sel.take(j + 1).map_values(|v: SpecVariable| cpp_read_back_var(v))
            =~= acc + opt_seq(Some(cpp_read_back_var(v))));
        lemma_read_decls(ls, i, sel, j + 1, is_struct, name, vis, vars);
    } else {
        assert(sel.take(j) =~= sel);
    }
}

/// Reading a section of members: its label, if it has one, sets the
/// visibility; its declarations are read under it.
proof fn lemma_read_section(
    ls: Seq<Seq<char>>,
    i: int,
    vars: Seq<SpecVariable>,
    vis: VariableVisibility,
    write_label: bool,
    is_struct: bool,
    name: Seq<char>,
    cur: VariableVisibility,
    acc: Seq<SpecVariable>,
)
    requires
        forall|k: int| 0 <= k < vars.len() ==> cpp_var_round_trips(#[trigger] vars[k]),
        0 <= i,
        i + section_lines(vars, vis, write_label).len() <= ls.len(),
        forall|k: int| 0 <= k < section_lines(vars, vis, write_label).len() ==> ls[i + k] == #[trigger] section_lines(vars, vis, write_label)[k],
        !write_label ==> cur == vis,
    ensures
        cpp_read(ls, i, CppReading::InRecord { is_struct, name, vis: cur, vars: acc })
            == cpp_read(ls, i + section_lines(vars, vis, write_label).len(), CppReading::InRecord {
                is_struct,
                name,
                vis: if any_with_visibility(vars, vis) { vis } else { cur },
                vars: acc + with_visibility(vars, vis).map_values(|v: SpecVariable| cpp_read_back_var(v)),
            }),
{
    lemma_with_visibility(vars, vis);
    let sel = with_visibility(vars, vis);
    let d = decl_lines(sel);
    if !any_with_visibility(vars, vis) {
        assert(sel.map_values(|v: SpecVariable| cpp_read_back_var(v)) =~= Seq::<SpecVariable>::empty());
        assert(acc + Seq::<SpecVariable>::empty() =~= acc);
    } else {
        let start = if write_label { i + 1 } else { i };
        if write_label {
            let lab = cpp_label(vis);
            assert(ls[i] == section_lines(vars, vis, write_label)[0]);
            assert(ls[i] == lab);
            reveal_strlit("public:");
            reveal_strlit("private:");
            reveal_strlit("protected:");
            reveal_strlit("};");
            lemma_trim_unchanged(lab);
            lemma_not_starts_with(lab, "};"@, 0);
            assert("public:"@ != "private:"@) by {
                assert("public:"@.len() != "private:"@.len());
            }
            assert("public:"@ != "protected:"@) by {
                assert("public:"@.len() != "protected:"@.len());
            }
            assert("private:"@ != "protected:"@) by {
                assert("private:"@.len() != "protected:"@.len());
            }
            assert(cpp_read(ls, i, CppReading::InRecord { is_struct, name, vis: cur, vars: acc })
                == cpp_read(ls, i + 1, CppReading::InRecord { is_struct, name, vis, vars: acc }));
        }
        assert forall|k: int| 0 <= k < sel.len() implies ls[start + k] == cpp_decl_line(#[trigger] sel[k]) by {
            assert(d[k] == cpp_decl_line(sel[k]));
            if write_label {
                assert(section_lines(vars, vis, write_label)[1 + k] == d[k]);
            } else {
                assert(section_lines(vars, vis, write_label)[k] == d[k]);
            }
        }
        lemma_read_decls(ls, start, sel, 0, is_struct, name, vis, acc);
        assert(sel.take(0).map_values(|v: SpecVariable| cpp_read_back_var(v)) =~= Seq::<SpecVariable>::empty());
        assert(acc + Seq::<SpecVariable>::empty() =~= acc);
    }
}

// ---------------------------------------------------------------- classes

/// Whether a class or struct reads back from C++: its name is a word, its
/// members read back and their accessors stand on their lines.
pub open spec fn cpp_round_trips(o: SpecOmlObject) -> bool {
    &&& (o.oml_type == ObjectType::CLASS || o.oml_type == ObjectType::STRUCT)
    &&& is_word(o.name)
    &&& forall|j: int| 0 <= j < o.variables.len() ==> cpp_accessor_ok(#[trigger] o.variables[j])
}

/// What the C++ reader gives back for a class or struct: an object of the
/// same type and name whose members are its public, then its protected, then
/// its private ones, each read back.
pub open spec fn cpp_read_back(o: SpecOmlObject) -> SpecOmlObject {
    read_object(
        o.oml_type,
        o.name,
        (with_visibility(o.variables, VariableVisibility::PUBLIC)
            + with_visibility(o.variables, VariableVisibility::PROTECTED)
            + with_visibility(o.variables, VariableVisibility::PRIVATE)).map_values(|v: SpecVariable| cpp_read_back_var(v)),
    )
}

/// The line that opens a class or struct.
pub open spec fn cpp_class_head(o: SpecOmlObject) -> Seq<char> {
    (if o.oml_type == ObjectType::CLASS { "class"@ } else { "struct"@ }) + " "@ + o.name + " {"@
}

/// The lines of a class or struct whose constructors, special members and
/// accessors are the lines `junk`.
pub open spec fn class_lines(o: SpecOmlObject, junk: Seq<Seq<char>>) -> Seq<Seq<char>> {
    seq![cpp_class_head(o), "public:"@] + junk
        + section_lines(o.variables, VariableVisibility::PUBLIC, false)
        + section_lines(o.variables, VariableVisibility::PROTECTED, true)
        + section_lines(o.variables, VariableVisibility::PRIVATE, true)
        + seq!["};"@]
}

proof fn lemma_round_trips_vars(o: SpecOmlObject)
    requires
        cpp_round_trips(o),
    ensures
        forall|k: int| 0 <= k < o.variables.len() ==> cpp_var_round_trips(#[trigger] o.variables[k]),
{
    assert forall|k: int| 0 <= k < o.variables.len() implies cpp_var_round_trips(#[trigger] o.variables[k]) by {
        assert(cpp_accessor_ok(o.variables[k]));
    }
}

/// The constructors, special members and accessors of a class or struct
/// that reads back leave the reader of its body as it was.
#[verifier::spinoff_prover]
proof fn lemma_class_junk_lines(o: SpecOmlObject) -> (junk: Seq<Seq<char>>)
    requires
        cpp_round_trips(o),
    ensures
        cpp_inert_lines(junk),
        unlines(junk) == cpp_constructors(o.name, o.variables) + "\n"@ + cpp_copy_move(o.name) + "\n"@
            + cpp_getters_and_setters(o.variables),
{
    lemma_round_trips_vars(o);
    let vars = o.variables;
    let a = lemma_constructors_lines(o.name, vars);
    let b = lemma_copy_move_lines(o.name);
    assert forall|k: int| 0 <= k < vars.len() implies cpp_accessor_ok(#[trigger] vars[k]) by {}
    let c = lemma_accessors_lines(vars);
    lemma_blank_inert();
    let e = lemma_one_inert(Seq::<char>::empty());
    lemma_inert_add(a, e);
    lemma_inert_add(a + e, b);
    lemma_inert_add(a + e + b, e);
    lemma_inert_add(a + e + b + e, c);
    reveal_strlit("\n");
    assert(unlines(e) =~= "\n"@);
    a + e + b + e + c
}

/// The text of a class or struct that reads back is made of its lines.
#[verifier::spinoff_prover]
#[verifier::rlimit(50)]
proof fn lemma_class_junk(o: SpecOmlObject) -> (junk: Seq<Seq<char>>)
    requires
        cpp_round_trips(o),
    ensures
        cpp_inert_lines(junk),
        cpp_class_text(o) == unlines(class_lines(o, junk)),
{
    lemma_round_trips_vars(o);
    let vars = o.variables;
    let junk = lemma_class_junk_lines(o);
    let s1 = section_lines(vars, VariableVisibility::PUBLIC, false);
    let s2 = section_lines(vars, VariableVisibility::PROTECTED, true);
    let s3 = section_lines(vars, VariableVisibility::PRIVATE, true);
    lemma_section_text(vars, VariableVisibility::PUBLIC, false);
    lemma_section_text(vars, VariableVisibility::PROTECTED, true);
    lemma_section_text(vars, VariableVisibility::PRIVATE, true);
    let h = cpp_class_head(o);
    let p = "public:"@;
    let z = "};"@;
    let head = seq![h, p];
    lemma_unlines_add(head + junk + s1 + s2 + s3, seq![z]);
    lemma_unlines_add(head + junk + s1 + s2, s3);
    lemma_unlines_add(head + junk + s1, s2);
    lemma_unlines_add(head + junk, s1);
    lemma_unlines_add(head, junk);
    lemma_unlines_add(seq![h], seq![p]);
    assert(seq![h] + seq![p] =~= head);
    lemma_unlines_one(h);
    lemma_unlines_one(p);
    lemma_unlines_one(z);
    let u = unlines(class_lines(o, junk));
    let x = h + seq!['\n'] + (p + seq!['\n']);
    assert(u == x + unlines(junk) + unlines(s1) + unlines(s2) + unlines(s3) + (z + seq!['\n']));
    reveal_strlit(" {\n");
    reveal_strlit(" {");
    reveal_strlit("public:\n");
    reveal_strlit("public:");
    reveal_strlit("};\n");
    reveal_strlit("};");
    reveal_strlit("\n");
    reveal_strlit(" ");
    let kw = if o.oml_type == ObjectType::CLASS { "class"@ } else { "struct"@ };
    assert(kw + " "@ + o.name + " {\n"@ + "public:\n"@ =~= x);
    let c = cpp_constructors(o.name, o.variables);
    let m = cpp_copy_move(o.name);
    let g = cpp_getters_and_setters(o.variables);
    assert(x + unlines(junk) =~= x + c + "\n"@ + m + "\n"@ + g);
    assert(z + seq!['\n'] =~= "};\n"@);
    junk
}

/// The line that opens a class or struct is read as opening it, under its
/// default visibility.
#[verifier::spinoff_prover]
proof fn lemma_class_head(o: SpecOmlObject)
    requires
        cpp_round_trips(o),
    ensures
        is_line(cpp_class_head(o)),
        trim(cpp_class_head(o)) == cpp_class_head(o),
        cpp_header(cpp_class_head(o)) == (CppReading::InRecord {
            is_struct: o.oml_type == ObjectType::STRUCT,
            name: o.name,
            vis: if o.oml_type == ObjectType::STRUCT { VariableVisibility::PUBLIC } else { VariableVisibility::PRIVATE },
            vars: Seq::empty(),
        }),
{
    reveal_strlit("class");
    reveal_strlit("struct");
    reveal_strlit("class ");
    reveal_strlit("struct ");
    reveal_strlit("enum class ");
    reveal_strlit(" ");
    reveal_strlit(" {");
    reveal_strlit("{ ");
    let name = o.name;
    let is_struct = o.oml_type == ObjectType::STRUCT;
    let prefix = if is_struct { "struct "@ } else { "class "@ };
    let after = name + " {"@;
    let h = cpp_class_head(o);
    assert(h =~= prefix + after);
    lemma_starts_with_concat(prefix, after);
    crate::chars::lemma_word_lacks(name, '\n');
    lemma_lacks_concat(name, " {"@, '\n');
    lemma_lacks_concat(prefix, after, '\n');
    assert(h.last() == '{');
    assert(h[0] == (if is_struct { 's' } else { 'c' }));
    lemma_trim_unchanged(h);
    lemma_not_starts_with(h, "enum class "@, 0);
    if is_struct {
        lemma_not_starts_with(h, "class "@, 0);
    } else {
        lemma_not_starts_with(h, "struct "@, 0);
    }
    assert(after.drop_last() =~= name + seq![' ']);
    assert((name + seq![' ']).drop_last() =~= name);
    assert(crate::chars::is_ident_char(name.last()));
    assert(!"{ "@.contains(name.last())) by {
        if "{ "@.contains(name.last()) {
            let k = choose|k: int| 0 <= k < "{ "@.len() && "{ "@[k] == name.last();
            assert(k == 0 || k == 1);
        }
    }
    assert("{ "@.contains('{')) by {
        assert("{ "@[0] == '{');
    }
    assert("{ "@.contains(' ')) by {
        assert("{ "@[1] == ' ');
    }
    crate::chars::lemma_trim_end_in_unchanged(name, "{ "@);
    assert((name + seq![' ']).last() == ' ');
    assert(trim_end_in(name + seq![' '], "{ "@) == name);
    assert(after.last() == '{');
    assert(trim_end_in(after, "{ "@) == name);
    assert(after_prefix(h, prefix) == after);
}

/// Reading the lines of a class or struct that reads back gives it back.
#[verifier::spinoff_prover]
#[verifier::rlimit(50)]
proof fn lemma_read_class(ls: Seq<Seq<char>>, i: int, o: SpecOmlObject, junk: Seq<Seq<char>>)
    requires
        cpp_round_trips(o),
        cpp_inert_lines(junk),
        0 <= i,
        i + class_lines(o, junk).len() <= ls.len(),
        forall|k: int| 0 <= k < class_lines(o, junk).len() ==> ls[i + k] == #[trigger] class_lines(o, junk)[k],
    ensures
        cpp_read(ls, i, CppReading::Outside)
            == seq![cpp_read_back(o)] + cpp_read(ls, i + class_lines(o, junk).len(), CppReading::Outside),
{
    lemma_round_trips_vars(o);
    let vars = o.variables;
    let name = o.name;
    let cl = class_lines(o, junk);
    let is_struct = o.oml_type == ObjectType::STRUCT;
    let s1 = section_lines(vars, VariableVisibility::PUBLIC, false);
    let s2 = section_lines(vars, VariableVisibility::PROTECTED, true);
    let s3 = section_lines(vars, VariableVisibility::PRIVATE, true);
    let nj = junk.len() as int;
    assert(cl.len() == 3 + nj + s1.len() + s2.len() + s3.len());
    // the head
    assert(ls[i] == cl[0]);
    lemma_class_head(o);
    let st0 = CppReading::InRecord {
        is_struct,
        name,
        vis: if is_struct { VariableVisibility::PUBLIC } else { VariableVisibility::PRIVATE },
        vars: Seq::empty(),
    };
    assert(cpp_read(ls, i, CppReading::Outside) == cpp_read(ls, i + 1, st0));
    // `public:`
    assert(ls[i + 1] == cl[1]);
    reveal_strlit("public:");
    reveal_strlit("};");
    lemma_trim_unchanged("public:"@);
    lemma_not_starts_with("public:"@, "};"@, 0);
    let acc0 = Seq::<SpecVariable>::empty();
    assert(cpp_read(ls, i + 1, st0)
        == cpp_read(ls, i + 2, CppReading::InRecord { is_struct, name, vis: VariableVisibility::PUBLIC, vars: acc0 }));
    // the constructors, special members and accessors
    assert forall|k: int| i + 2 <= k < i + 2 + nj implies cpp_inert(trim(#[trigger] ls[k])) by {
        assert(ls[k] == cl[k - i]);
        assert(cl[k - i] == junk[k - i - 2]);
    }
    lemma_read_inert(ls, i + 2, nj, is_struct, name, VariableVisibility::PUBLIC, acc0);
    // the sections
    let p1 = i + 2 + nj;
    assert forall|k: int| 0 <= k < s1.len() implies ls[p1 + k] == #[trigger] s1[k] by {
        assert(ls[p1 + k] == cl[2 + nj + k]);
    }
    lemma_read_section(ls, p1, vars, VariableVisibility::PUBLIC, false, is_struct, name, VariableVisibility::PUBLIC, acc0);
    let acc1 = acc0 + with_visibility(vars, VariableVisibility::PUBLIC).map_values(|v: SpecVariable| cpp_read_back_var(v));
    let p2 = p1 + s1.len();
    assert forall|k: int| 0 <= k < s2.len() implies ls[p2 + k] == #[trigger] s2[k] by {
        assert(ls[p2 + k] == cl[2 + nj + s1.len() + k]);
    }
    lemma_read_section(ls, p2, vars, VariableVisibility::PROTECTED, true, is_struct, name, VariableVisibility::PUBLIC, acc1);
    let v2 = if any_with_visibility(vars, VariableVisibility::PROTECTED) { VariableVisibility::PROTECTED } else { VariableVisibility::PUBLIC };
    let acc2 = acc1 + with_visibility(vars, VariableVisibility::PROTECTED).map_values(|v: SpecVariable| cpp_read_back_var(v));
    let p3 = p2 + s2.len();
    assert forall|k: int| 0 <= k < s3.len() implies ls[p3 + k] == #[trigger] s3[k] by {
        assert(ls[p3 + k] == cl[2 + nj + s1.len() + s2.len() + k]);
    }
    lemma_read_section(ls, p3, vars, VariableVisibility::PRIVATE, true, is_struct, name, v2, acc2);
    let v3 = if any_with_visibility(vars, VariableVisibility::PRIVATE) { VariableVisibility::PRIVATE } else { v2 };
    let acc3 = acc2 + with_visibility(vars, VariableVisibility::PRIVATE).map_values(|v: SpecVariable| cpp_read_back_var(v));
    // the end of the body
    let e = p3 + s3.len();
    assert(ls[e] == cl[cl.len() - 1]);
    assert(ls[e] == "};"@);
    lemma_trim_unchanged("};"@);
    lemma_starts_with_concat("};"@, Seq::empty());
    assert("};"@ + Seq::<char>::empty() =~= "};"@);
    let st3 = CppReading::InRecord { is_struct, name, vis: v3, vars: acc3 };
    assert(cpp_read(ls, e, st3) == cpp_open_object(st3) + cpp_read(ls, e + 1, CppReading::Outside));
    assert(acc3 =~= (with_visibility(vars, VariableVisibility::PUBLIC)
        + with_visibility(vars, VariableVisibility::PROTECTED)
        + with_visibility(vars, VariableVisibility::PRIVATE)).map_values(|v: SpecVariable| cpp_read_back_var(v)));
    assert(cpp_open_object(st3) == seq![cpp_read_back(o)]);
    assert(e + 1 == i + cl.len());
}

/// Every line of a class or struct that reads back stands alone.
#[verifier::spinoff_prover]
proof fn lemma_class_lines_ok(o: SpecOmlObject, junk: Seq<Seq<char>>)
    requires
        cpp_round_trips(o),
        cpp_inert_lines(junk),
    ensures
        forall|k: int| 0 <= k < class_lines(o, junk).len() ==> is_line(#[trigger] class_lines(o, junk)[k]),
{
    lemma_round_trips_vars(o);
    lemma_class_head(o);
    let vars = o.variables;
    let cl = class_lines(o, junk);
    let s1 = section_lines(vars, VariableVisibility::PUBLIC, false);
    let s2 = section_lines(vars, VariableVisibility::PROTECTED, true);
    let s3 = section_lines(vars, VariableVisibility::PRIVATE, true);
    lemma_section_lines_ok(vars, VariableVisibility::PUBLIC, false);
    lemma_section_lines_ok(vars, VariableVisibility::PROTECTED, true);
    lemma_section_lines_ok(vars, VariableVisibility::PRIVATE, true);
    reveal_strlit("public:");
    reveal_strlit("};");
    assert(is_line("public:"@)) by {
        assert(!"public:"@.contains('\n')) by {
            if "public:"@.contains('\n') {
                let k = choose|k: int| 0 <= k < 7 && "public:"@[k] == '\n';
            }
        }
    }
    assert(is_line("};"@)) by {
        assert(!"};"@.contains('\n')) by {
            if "};"@.contains('\n') {
                let k = choose|k: int| 0 <= k < 2 && "};"@[k] == '\n';
            }
        }
    }
    let nj = junk.len() as int;
    assert forall|k: int| 0 <= k < cl.len() implies is_line(#[trigger] cl[k]) by {
        if k == 0 {
        } else if k == 1 {
        } else if k < 2 + nj {
            assert(cl[k] == junk[k - 2]);
        } else if k < 2 + nj + s1.len() {
            assert(cl[k] == s1[k - 2 - nj]);
        } else if k < 2 + nj + s1.len() + s2.len() {
            assert(cl[k] == s2[k - 2 - nj - s1.len()]);
        } else if k < 2 + nj + s1.len() + s2.len() + s3.len() {
            assert(cl[k] == s3[k - 2 - nj - s1.len() - s2.len()]);
        } else {
            assert(cl[k] == "};"@);
        }
    }
}

/// Every line of a section of members that read back stands alone.
proof fn lemma_section_lines_ok(vars: Seq<SpecVariable>, vis: VariableVisibility, write_label: bool)
    requires
        forall|k: int| 0 <= k < vars.len() ==> cpp_var_round_trips(#[trigger] vars[k]),
    ensures
        forall|k: int| 0 <= k < section_lines(vars, vis, write_label).len() ==> is_line(#[trigger] section_lines(vars, vis, write_label)[k]),
{
    lemma_with_visibility(vars, vis);
    let sel = with_visibility(vars, vis);
    let sl = section_lines(vars, vis, write_label);
    let lab = cpp_label(vis);
    reveal_strlit("public:");
    reveal_strlit("private:");
    reveal_strlit("protected:");
    assert(is_line(lab)) by {
        assert(!lab.contains('\n')) by {
            if lab.contains('\n') {
                let k = choose|k: int| 0 <= k < lab.len() && lab[k] == '\n';
            }
        }
    }
    if any_with_visibility(vars, vis) {
        let off: int = if write_label { 1 } else { 0 };
        assert forall|k: int| 0 <= k < sl.len() implies is_line(#[trigger] sl[k]) by {
            if k < off {
                assert(sl[k] == lab);
            } else {
                assert(sl[k] == decl_lines(sel)[k - off]);
                assert(cpp_var_round_trips(sel[k - off]));
                law_cpp_member_round_trip(sel[k - off], vis);
            }
        }
    }
}

// ---------------------------------------------------------------- enums

/// Whether an enum reads back from C++: its name and the uppercase names of
/// its variants are words.
pub open spec fn cpp_enum_round_trips(o: SpecOmlObject) -> bool {
    &&& o.oml_type == ObjectType::ENUM
    &&& is_word(o.name)
    &&& forall|j: int| 0 <= j < o.variables.len() ==> is_word(str_upper((#[trigger] o.variables[j]).name))
}

/// What the C++ reader gives back for an enum: an enum of the same name whose
/// variants are named by the uppercase names of its variables.
pub open spec fn cpp_enum_read_back(o: SpecOmlObject) -> SpecOmlObject {
    read_object(ObjectType::ENUM, o.name, o.variables.map_values(|v: SpecVariable| variant_var(str_upper(v.name))))
}

/// Whether an object reads back from C++, as an enum or as a class or struct.
pub open spec fn cpp_object_round_trips(o: SpecOmlObject) -> bool {
    if o.oml_type == ObjectType::ENUM { cpp_enum_round_trips(o) } else { cpp_round_trips(o) }
}

/// What the C++ reader gives back for an object.
pub open spec fn cpp_object_read_back(o: SpecOmlObject) -> SpecOmlObject {
    if o.oml_type == ObjectType::ENUM { cpp_enum_read_back(o) } else { cpp_read_back(o) }
}

/// The line of an enum variant, with a comma where `comma` holds.
pub open spec fn cpp_enum_line(u: Seq<char>, comma: bool) -> Seq<char> {
    "\t"@ + u + (if comma { ","@ } else { Seq::<char>::empty() })
}

/// The lines of the variants of an enum, a comma after each but the last
/// (`total` is their number).
pub open spec fn cpp_enum_variant_lines(vars: Seq<SpecVariable>, total: nat) -> Seq<Seq<char>>
    decreases vars.len(),
{
    if vars.len() == 0 {
        Seq::empty()
    } else {
        cpp_enum_variant_lines(vars.drop_last(), total).push(cpp_enum_line(str_upper(vars.last().name), vars.len() < total))
    }
}

/// The lines of an enum.
pub open spec fn cpp_enum_lines(o: SpecOmlObject) -> Seq<Seq<char>> {
    seq!["enum class "@ + o.name + " {"@] + cpp_enum_variant_lines(o.variables, o.variables.len()) + seq!["};"@]
}

/// The lines of an object: an enum, or a class or struct whose constructors,
/// special members and accessors are the lines `junk`.
pub open spec fn cpp_object_lines(o: SpecOmlObject, junk: Seq<Seq<char>>) -> Seq<Seq<char>> {
    if o.oml_type == ObjectType::ENUM { cpp_enum_lines(o) } else { class_lines(o, junk) }
}

pub(crate) proof fn lemma_enum_variant_lines(vars: Seq<SpecVariable>, total: nat)
    requires
        vars.len() <= total,
    ensures
        cpp_enum_variants(vars, total) == unlines(cpp_enum_variant_lines(vars, total)),
        cpp_enum_variant_lines(vars, total).len() == vars.len(),
        forall|k: int| 0 <= k < vars.len() ==> #[trigger] cpp_enum_variant_lines(vars, total)[k]
            == cpp_enum_line(str_upper(vars[k].name), k + 1 < total),
    decreases vars.len(),
{
    if vars.len() > 0 {
        let init = vars.drop_last();
        lemma_enum_variant_lines(init, total);
        let l = cpp_enum_line(str_upper(vars.last().name), vars.len() < total);
        let a = cpp_enum_variant_lines(init, total);
        lemma_unlines_add(a, seq![l]);
        lemma_unlines_one(l);
        assert(a.push(l) == a + seq![l]);
        reveal_strlit("\t");
        reveal_strlit(",");
        reveal_strlit(",\n");
        reveal_strlit("\n");
        assert(cpp_enum_variants(vars, total) =~= cpp_enum_variants(init, total) + (l + seq!['\n']));
        assert forall|k: int| 0 <= k < vars.len() implies #[trigger] cpp_enum_variant_lines(vars, total)[k]
            == cpp_enum_line(str_upper(vars[k].name), k + 1 < total) by {
            if k < init.len() {
                assert(cpp_enum_variant_lines(vars, total)[k] == a[k]);
                assert(init[k] == vars[k]);
            }
        }
    } else {
        assert(unlines(Seq::<Seq<char>>::empty()) == Seq::<char>::empty());
    }
}

/// The text of an enum is made of its lines.
proof fn lemma_enum_text(o: SpecOmlObject)
    ensures
        cpp_enum_text(o) == unlines(cpp_enum_lines(o)),
{
    lemma_enum_variant_lines(o.variables, o.variables.len());
    let h = "enum class "@ + o.name + " {"@;
    let v = cpp_enum_variant_lines(o.variables, o.variables.len());
    let z = "};"@;
    lemma_unlines_add(seq![h] + v, seq![z]);
    lemma_unlines_add(seq![h], v);
    lemma_unlines_one(h);
    lemma_unlines_one(z);
    reveal_strlit(" {\n");
    reveal_strlit(" {");
    reveal_strlit("};\n");
    reveal_strlit("};");
    assert(cpp_enum_text(o) =~= (h + seq!['\n']) + unlines(v) + (z + seq!['\n']));
}

/// Reading back the line of a variant gives the variant.
pub(crate) proof fn lemma_enum_line(u: Seq<char>, comma: bool)
    requires
        is_word(u),
    ensures
        is_line(cpp_enum_line(u, comma)),
        trim(cpp_enum_line(u, comma)) == u + (if comma { ","@ } else { Seq::<char>::empty() }),
        !starts_with(trim(cpp_enum_line(u, comma)), "};"@),
        line_variant(trim(cpp_enum_line(u, comma))) == seq![variant_var(u)],
{
    reveal_strlit("\t");
    reveal_strlit(",");
    reveal_strlit("};");
    let c = if comma { ","@ } else { Seq::<char>::empty() };
    let l = cpp_enum_line(u, comma);
    assert(l =~= seq!['\t'] + (u + c));
    crate::chars::lemma_word_lacks(u, '\n');
    assert(!c.contains('\n'));
    lemma_lacks_concat(u, c, '\n');
    lemma_lacks_concat(seq!['\t'], u + c, '\n');
    assert(crate::chars::is_ident_char(u[0]) && crate::chars::is_ident_char(u.last()));
    assert((u + c)[0] == u[0]);
    assert((u + c).last() == (if comma { ',' } else { u.last() }));
    lemma_trim_start_after_ws(seq!['\t'], u + c);
    lemma_trim_unchanged(u + c);
    lemma_trim_unchanged(u);
    lemma_not_starts_with(u + c, "};"@, 0);
    assert(!","@.contains(u.last())) by {
        if ","@.contains(u.last()) {
            let k = choose|k: int| 0 <= k < 1 && ","@[k] == u.last();
        }
    }
    if comma {
        assert(u + c =~= u + seq![',']);
        crate::chars::lemma_trim_end_in_one(u, ',', ","@);
    } else {
        assert(u + c =~= u);
        crate::chars::lemma_trim_end_in_unchanged(u, ","@);
    }
}

/// Reading the variants of an enum.
proof fn lemma_read_variants(ls: Seq<Seq<char>>, i: int, vars: Seq<SpecVariable>, total: nat, j: int, name: Seq<char>)
    requires
        0 <= i,
        0 <= j <= vars.len(),
        i + vars.len() <= ls.len(),
        forall|k: int| 0 <= k < vars.len() ==> ls[i + k] == cpp_enum_line(str_upper((#[trigger] vars[k]).name), k + 1 < total),
        forall|k: int| 0 <= k < vars.len() ==> is_word(str_upper((#[trigger] vars[k]).name)),
    ensures
        cpp_read(ls, i + j, CppReading::InEnum {
            name,
            vars: vars.take(j).map_values(|v: SpecVariable| variant_var(str_upper(v.name))),
        }) == cpp_read(ls, i + vars.len(), CppReading::InEnum {
            name,
            vars: vars.map_values(|v: SpecVariable| variant_var(str_upper(v.name))),
        }),
    decreases vars.len() - j,
{
    if j < vars.len() {
        let v = vars[j];
        assert(is_word(str_upper(v.name)));
        assert(ls[i + j] == cpp_enum_line(str_upper(v.name), j + 1 < total));
        lemma_enum_line(str_upper(v.name), j + 1 < total);
        assert(vars.take(j + 1).map_values(|v: SpecVariable| variant_var(str_upper(v.name)))
            =~= vars.take(j).map_values(|v: SpecVariable| variant_var(str_upper(v.name))) + seq![variant_var(str_upper(v.name))]);
        lemma_read_variants(ls, i, vars, total, j + 1, name);
    } else {
        assert(vars.take(j) =~= vars);
    }
}

/// Every line of an enum that reads back stands alone.
proof fn lemma_enum_lines_ok(o: SpecOmlObject)
    requires
        cpp_enum_round_trips(o),
    ensures
        forall|k: int| 0 <= k < cpp_enum_lines(o).len() ==> is_line(#[trigger] cpp_enum_lines(o)[k]),
{
    let el = cpp_enum_lines(o);
    lemma_read_enum(el, 0, o);
}

/// Reading the lines of an enum that reads back gives it back.
#[verifier::spinoff_prover]
#[verifier::rlimit(50)]
proof fn lemma_read_enum(ls: Seq<Seq<char>>, i: int, o: SpecOmlObject)
    requires
        cpp_enum_round_trips(o),
        0 <= i,
        i + cpp_enum_lines(o).len() <= ls.len(),
        forall|k: int| 0 <= k < cpp_enum_lines(o).len() ==> ls[i + k] == #[trigger] cpp_enum_lines(o)[k],
    ensures
        cpp_read(ls, i, CppReading::Outside) == seq![cpp_enum_read_back(o)] + cpp_read(ls, i + cpp_enum_lines(o).len(), CppReading::Outside),
        forall|k: int| 0 <= k < cpp_enum_lines(o).len() ==> is_line(#[trigger] cpp_enum_lines(o)[k]),
{
    let n = o.name;
    let vars = o.variables;
    let el = cpp_enum_lines(o);
    let vl = cpp_enum_variant_lines(vars, vars.len());
    lemma_enum_variant_lines(vars, vars.len());
    reveal_strlit("enum class ");
    reveal_strlit(" {");
    reveal_strlit("{ ");
    reveal_strlit("};");
    // the head
    let h = "enum class "@ + n + " {"@;
    assert(ls[i] == el[0]);
    assert(el[0] == h);
    crate::chars::lemma_word_lacks(n, '\n');
    assert(!"enum class "@.contains('\n')) by {
        if "enum class "@.contains('\n') {
            let k = choose|k: int| 0 <= k < 11 && "enum class "@[k] == '\n';
        }
    }
    lemma_lacks_concat("enum class "@, n, '\n');
    assert(!" {"@.contains('\n')) by {
        if " {"@.contains('\n') {
            let k = choose|k: int| 0 <= k < 2 && " {"@[k] == '\n';
        }
    }
    lemma_lacks_concat("enum class "@ + n, " {"@, '\n');
    assert(h[0] == 'e');
    assert(h.last() == '{');
    lemma_trim_unchanged(h);
    assert(h =~= "enum class "@ + (n + " {"@));
    lemma_starts_with_concat("enum class "@, n + " {"@);
    let after = n + " {"@;
    assert(after.drop_last() =~= n + seq![' ']);
    assert((n + seq![' ']).drop_last() =~= n);
    assert(!"{ "@.contains(n.last())) by {
        if "{ "@.contains(n.last()) {
            let k = choose|k: int| 0 <= k < "{ "@.len() && "{ "@[k] == n.last();
            assert(k == 0 || k == 1);
        }
    }
    assert("{ "@.contains('{')) by {
        assert("{ "@[0] == '{');
    }
    assert("{ "@.contains(' ')) by {
        assert("{ "@[1] == ' ');
    }
    crate::chars::lemma_trim_end_in_unchanged(n, "{ "@);
    assert((n + seq![' ']).last() == ' ');
    assert(trim_end_in(n + seq![' '], "{ "@) == n);
    assert(after.last() == '{');
    assert(trim_end_in(after, "{ "@) == n);
    let e = Seq::<SpecVariable>::empty();
    assert(cpp_read(ls, i, CppReading::Outside) == cpp_read(ls, i + 1, CppReading::InEnum { name: n, vars: e }));
    // the variants
    assert forall|k: int| 0 <= k < vars.len() implies ls[i + 1 + k] == cpp_enum_line(str_upper((#[trigger] vars[k]).name), k + 1 < vars.len()) by {
        assert(el[1 + k] == vl[k]);
    }
    assert forall|k: int| 0 <= k < vars.len() implies is_word(str_upper((#[trigger] vars[k]).name)) by {}
    lemma_read_variants(ls, i + 1, vars, vars.len(), 0, n);
    assert(vars.take(0).map_values(|v: SpecVariable| variant_var(str_upper(v.name))) =~= e);
    // the end
    let q = i + 1 + vars.len();
    assert(ls[q] == el[1 + vars.len() as int]);
    assert(el[1 + vars.len() as int] == "};"@);
    lemma_trim_unchanged("};"@);
    lemma_starts_with_concat("};"@, Seq::empty());
    assert("};"@ + Seq::<char>::empty() =~= "};"@);
    assert(el.len() == 2 + vars.len());
    // every line stands alone
    assert(is_line("};"@)) by {
        assert(!"};"@.contains('\n')) by {
            if "};"@.contains('\n') {
                let k = choose|k: int| 0 <= k < 2 && "};"@[k] == '\n';
            }
        }
    }
    assert forall|k: int| 0 <= k < el.len() implies is_line(#[trigger] el[k]) by {
        if k == 0 {
        } else if k < 1 + vars.len() {
            assert(el[k] == vl[k - 1]);
            lemma_enum_line(str_upper(vars[k - 1].name), k < vars.len());
        } else {
            assert(el[k] == "};"@);
        }
    }
}

// ---------------------------------------------------------------- files

/// Whether `junks` holds, for each object, lines that leave the reader of
/// a class body as it was.
pub open spec fn junks_inert(objs: Seq<SpecOmlObject>, junks: Seq<Seq<Seq<char>>>) -> bool {
    &&& junks.len() == objs.len()
    &&& forall|k: int| 0 <= k < objs.len() ==> cpp_inert_lines(#[trigger] junks[k])
}

/// Whether `junks` holds, for each object, the lines of its constructors,
/// special members and accessors.
pub open spec fn junks_ok(objs: Seq<SpecOmlObject>, junks: Seq<Seq<Seq<char>>>) -> bool {
    &&& junks_inert(objs, junks)
    &&& forall|k: int| 0 <= k < objs.len() ==> cpp_object_text(#[trigger] objs[k]) == unlines(cpp_object_lines(objs[k], junks[k]))
}

proof fn lemma_objects_junks(objs: Seq<SpecOmlObject>) -> (junks: Seq<Seq<Seq<char>>>)
    requires
        forall|k: int| 0 <= k < objs.len() ==> cpp_object_round_trips(#[trigger] objs[k]),
    ensures
        junks_ok(objs, junks),
    decreases objs.len(),
{
    if objs.len() == 0 {
        Seq::empty()
    } else {
        let init = objs.drop_last();
        assert forall|k: int| 0 <= k < init.len() implies cpp_object_round_trips(#[trigger] init[k]) by {
            assert(init[k] == objs[k]);
        }
        let j0 = lemma_objects_junks(init);
        let o = objs.last();
        assert(cpp_object_round_trips(o));
        let j = if o.oml_type == ObjectType::ENUM {
            lemma_enum_text(o);
            assert(cpp_inert_lines(Seq::<Seq<char>>::empty()));
            Seq::<Seq<char>>::empty()
        } else {
            lemma_class_junk(o)
        };
        let junks = j0.push(j);
        assert forall|k: int| 0 <= k < objs.len() implies cpp_inert_lines(#[trigger] junks[k]) by {
            if k < init.len() {
                assert(junks[k] == j0[k]);
            }
        }
        assert forall|k: int| 0 <= k < objs.len() implies cpp_object_text(#[trigger] objs[k]) == unlines(cpp_object_lines(objs[k], junks[k])) by {
            if k < init.len() {
                assert(junks[k] == j0[k]);
                assert(objs[k] == init[k]);
            }
        }
        junks
    }
}

/// The lines of the objects, an empty line after each but the last (`total`
/// is the number of objects).
pub open spec fn objects_lines(objs: Seq<SpecOmlObject>, junks: Seq<Seq<Seq<char>>>, total: nat) -> Seq<Seq<char>>
    decreases objs.len(),
{
    if objs.len() == 0 || junks.len() == 0 {
        Seq::empty()
    } else {
        objects_lines(objs.drop_last(), junks.drop_last(), total) + cpp_object_lines(objs.last(), junks.last())
            + (if objs.len() < total { seq![Seq::<char>::empty()] } else { Seq::<Seq<char>>::empty() })
    }
}

proof fn lemma_junks_init(objs: Seq<SpecOmlObject>, junks: Seq<Seq<Seq<char>>>)
    requires
        objs.len() > 0,
        junks_inert(objs, junks),
        forall|k: int| 0 <= k < objs.len() ==> cpp_object_round_trips(#[trigger] objs[k]),
    ensures
        junks_inert(objs.drop_last(), junks.drop_last()),
        forall|k: int| 0 <= k < objs.drop_last().len() ==> cpp_object_round_trips(#[trigger] objs.drop_last()[k]),
        cpp_object_round_trips(objs.last()),
        cpp_inert_lines(junks.last()),
{
    let init = objs.drop_last();
    let ji = junks.drop_last();
    assert forall|k: int| 0 <= k < init.len() implies cpp_inert_lines(#[trigger] ji[k]) by {
        assert(ji[k] == junks[k]);
    }
    assert forall|k: int| 0 <= k < init.len() implies cpp_object_round_trips(#[trigger] init[k]) by {
        assert(init[k] == objs[k]);
    }
    assert(cpp_inert_lines(junks[objs.len() - 1]));
}

proof fn lemma_junks_text_init(objs: Seq<SpecOmlObject>, junks: Seq<Seq<Seq<char>>>)
    requires
        objs.len() > 0,
        junks_ok(objs, junks),
    ensures
        junks_ok(objs.drop_last(), junks.drop_last()),
        cpp_object_text(objs.last()) == unlines(cpp_object_lines(objs.last(), junks.last())),
{
    let init = objs.drop_last();
    let ji = junks.drop_last();
    assert forall|k: int| 0 <= k < init.len() implies cpp_inert_lines(#[trigger] ji[k]) by {
        assert(ji[k] == junks[k]);
    }
    assert forall|k: int| 0 <= k < init.len() implies cpp_object_text(#[trigger] init[k]) == unlines(cpp_object_lines(init[k], ji[k])) by {
        assert(ji[k] == junks[k]);
        assert(init[k] == objs[k]);
    }
    assert(cpp_object_text(objs[objs.len() - 1]) == unlines(cpp_object_lines(objs[objs.len() - 1], junks[objs.len() - 1])));
}

proof fn lemma_objects_text(objs: Seq<SpecOmlObject>, junks: Seq<Seq<Seq<char>>>, total: nat)
    requires
        junks_ok(objs, junks),
        forall|k: int| 0 <= k < objs.len() ==> cpp_object_round_trips(#[trigger] objs[k]),
        objs.len() <= total,
    ensures
        cpp_objects_text(objs, total) == unlines(objects_lines(objs, junks, total)),
        forall|k: int| 0 <= k < objects_lines(objs, junks, total).len() ==> is_line(#[trigger] objects_lines(objs, junks, total)[k]),
    decreases objs.len(),
{
    if objs.len() == 0 {
        assert(unlines(Seq::<Seq<char>>::empty()) == Seq::<char>::empty());
    } else {
        lemma_junks_init(objs, junks);
        lemma_junks_text_init(objs, junks);
        let init = objs.drop_last();
        let ji = junks.drop_last();
        lemma_objects_text(init, ji, total);
        let o = objs.last();
        let j = junks.last();
        if o.oml_type == ObjectType::ENUM {
            lemma_enum_lines_ok(o);
        } else {
            lemma_class_lines_ok(o, j);
        }
        let a = objects_lines(init, ji, total);
        let b = cpp_object_lines(o, j);
        let c = if objs.len() < total { seq![Seq::<char>::empty()] } else { Seq::<Seq<char>>::empty() };
        assert(objects_lines(objs, junks, total) == a + b + c);
        lemma_unlines_add(a + b, c);
        lemma_unlines_add(a, b);
        lemma_unlines_one(Seq::<char>::empty());
        reveal_strlit("\n");
        assert(unlines(c) =~= (if objs.len() < total { "\n"@ } else { Seq::<char>::empty() }));
        lemma_blank_inert();
        assert forall|k: int| 0 <= k < (a + b + c).len() implies is_line(#[trigger] (a + b + c)[k]) by {
            if k < a.len() {
                assert((a + b + c)[k] == a[k]);
            } else if k < a.len() + b.len() {
                assert((a + b + c)[k] == b[k - a.len()]);
            } else {
                assert((a + b + c)[k] == Seq::<char>::empty());
            }
        }
    }
}

/// Reading the lines of objects that read back gives them back.
#[verifier::spinoff_prover]
#[verifier::rlimit(50)]
proof fn lemma_read_objects(ls: Seq<Seq<char>>, i: int, objs: Seq<SpecOmlObject>, junks: Seq<Seq<Seq<char>>>, total: nat)
    requires
        junks_inert(objs, junks),
        forall|k: int| 0 <= k < objs.len() ==> cpp_object_round_trips(#[trigger] objs[k]),
        objs.len() <= total,
        0 <= i,
        i + objects_lines(objs, junks, total).len() <= ls.len(),
        forall|k: int| 0 <= k < objects_lines(objs, junks, total).len() ==> ls[i + k] == #[trigger] objects_lines(objs, junks, total)[k],
    ensures
        cpp_read(ls, i, CppReading::Outside) == objs.map_values(|o: SpecOmlObject| cpp_object_read_back(o))
            + cpp_read(ls, i + objects_lines(objs, junks, total).len(), CppReading::Outside),
    decreases objs.len(),
{
    if objs.len() == 0 {
        assert(objs.map_values(|o: SpecOmlObject| cpp_object_read_back(o)) =~= Seq::<SpecOmlObject>::empty());
    } else {
        lemma_junks_init(objs, junks);
        let init = objs.drop_last();
        let ji = junks.drop_last();
        let o = objs.last();
        let j = junks.last();
        let a = objects_lines(init, ji, total);
        let b = cpp_object_lines(o, j);
        let c = if objs.len() < total { seq![Seq::<char>::empty()] } else { Seq::<Seq<char>>::empty() };
        let all = objects_lines(objs, junks, total);
        assert(all == a + b + c);
        assert forall|k: int| 0 <= k < a.len() implies ls[i + k] == #[trigger] a[k] by {
            assert(all[k] == a[k]);
        }
        lemma_read_objects(ls, i, init, ji, total);
        let p = i + a.len();
        assert forall|k: int| 0 <= k < b.len() implies ls[p + k] == #[trigger] b[k] by {
            assert(all[a.len() + k] == b[k]);
        }
        if o.oml_type == ObjectType::ENUM {
            lemma_read_enum(ls, p, o);
        } else {
            lemma_read_class(ls, p, o, j);
        }
        let q = p + b.len();
        if objs.len() < total {
            assert(ls[q] == all[a.len() + b.len() as int]);
            assert(ls[q] == Seq::<char>::empty());
            lemma_blank_inert();
            assert(cpp_read(ls, q, CppReading::Outside) == cpp_read(ls, q + 1, CppReading::Outside));
        }
        assert(objs.map_values(|o: SpecOmlObject| cpp_object_read_back(o))
            =~= init.map_values(|o: SpecOmlObject| cpp_object_read_back(o)) + seq![cpp_object_read_back(o)]);
    }
}

/// Whether every line of `ls` stands alone and, read outside any
/// definition, opens none.
pub open spec fn cpp_outside_lines(ls: Seq<Seq<char>>) -> bool {
    forall|k: int| 0 <= k < ls.len() ==> is_line(#[trigger] ls[k]) && cpp_header(trim(ls[k])) == CppReading::Outside
}

/// A line that begins with `/` or `#` and ends with no whitespace opens no
/// definition.
proof fn lemma_outside_line(l: Seq<char>)
    requires
        l.len() > 0,
        l[0] == '/' || l[0] == '#',
        !is_ws(l.last()),
        !l.contains('\n'),
    ensures
        is_line(l),
        trim(l) == l,
        cpp_header(l) == CppReading::Outside,
{
    reveal_strlit("enum class ");
    reveal_strlit("class ");
    reveal_strlit("struct ");
    lemma_trim_unchanged(l);
    lemma_not_starts_with(l, "enum class "@, 0);
    lemma_not_starts_with(l, "class "@, 0);
    lemma_not_starts_with(l, "struct "@, 0);
}

/// An empty line opens no definition.
proof fn lemma_blank_outside()
    ensures
        is_line(Seq::<char>::empty()),
        trim(Seq::<char>::empty()) == Seq::<char>::empty(),
        cpp_header(Seq::<char>::empty()) == CppReading::Outside,
{
    reveal_strlit("enum class ");
    reveal_strlit("class ");
    reveal_strlit("struct ");
    lemma_blank_inert();
}

proof fn lemma_outside_add(a: Seq<Seq<char>>, b: Seq<Seq<char>>)
    requires
        cpp_outside_lines(a),
        cpp_outside_lines(b),
    ensures
        cpp_outside_lines(a + b),
        unlines(a + b) == unlines(a) + unlines(b),
{
    lemma_unlines_add(a, b);
    assert forall|k: int| 0 <= k < (a + b).len() implies is_line(#[trigger] (a + b)[k])
        && cpp_header(trim((a + b)[k])) == CppReading::Outside by {
        if k < a.len() {
            assert((a + b)[k] == a[k]);
        } else {
            assert((a + b)[k] == b[k - a.len()]);
        }
    }
}

proof fn lemma_outside_one(l: Seq<char>) -> (ls: Seq<Seq<char>>)
    requires
        is_line(l),
        cpp_header(trim(l)) == CppReading::Outside,
    ensures
        ls == seq![l],
        unlines(ls) == l + seq!['\n'],
        cpp_outside_lines(ls),
{
    lemma_unlines_one(l);
    let ls = seq![l];
    assert forall|k: int| 0 <= k < ls.len() implies is_line(#[trigger] ls[k]) && cpp_header(trim(ls[k])) == CppReading::Outside by {
        assert(ls[k] == l);
    }
    ls
}

/// Reading lines that open no definition.
proof fn lemma_read_outside(ls: Seq<Seq<char>>, i: int, n: int)
    requires
        0 <= i,
        0 <= n,
        i + n <= ls.len(),
        forall|k: int| i <= k < i + n ==> cpp_header(trim(#[trigger] ls[k])) == CppReading::Outside,
    ensures
        cpp_read(ls, i, CppReading::Outside) == cpp_read(ls, i + n, CppReading::Outside),
    decreases n,
{
    if n > 0 {
        assert(cpp_header(trim(ls[i])) == CppReading::Outside);
        lemma_read_outside(ls, i + 1, n - 1);
    }
}

/// The lines of a C++ header before its objects.
pub open spec fn cpp_head_lines(file_name: Seq<char>) -> Seq<Seq<char>> {
    seq![
        "// This file has been generated from "@ + file_name + ".oml"@,
        "#ifndef "@ + cpp_guard(file_name),
        "#define "@ + cpp_guard(file_name),
        Seq::<char>::empty(),
    ]
}

/// The lines of a C++ header after its objects.
pub open spec fn cpp_tail_lines(file_name: Seq<char>) -> Seq<Seq<char>> {
    seq!["#endif // "@ + cpp_guard(file_name), Seq::<char>::empty()]
}

/// The lines of the `#include` block.
pub open spec fn cpp_include_lines(objs: Seq<SpecOmlObject>) -> Seq<Seq<char>> {
    if !any_class_or_struct(objs) {
        Seq::empty()
    } else {
        seq!["#include <cstdint>"@, "#include <string>"@, "#include <optional>"@, "#include <utility>"@]
            + (if any_array_like(objs, false) { seq!["#include <array>"@] } else { Seq::<Seq<char>>::empty() })
            + (if any_array_like(objs, true) { seq!["#include <vector>"@] } else { Seq::<Seq<char>>::empty() })
            + seq![Seq::<char>::empty()]
    }
}

proof fn lemma_guard_line(p: Seq<char>, file_name: Seq<char>) -> (ls: Seq<Seq<char>>)
    requires
        p.len() > 0,
        p[0] == '#',
        !p.contains('\n'),
        !str_upper(file_name).contains('\n'),
    ensures
        ls == seq![p + cpp_guard(file_name)],
        unlines(ls) == p + cpp_guard(file_name) + seq!['\n'],
        cpp_outside_lines(ls),
{
    reveal_strlit("_H");
    let g = cpp_guard(file_name);
    assert(!"_H"@.contains('\n')) by {
        if "_H"@.contains('\n') {
            let k = choose|k: int| 0 <= k < 2 && "_H"@[k] == '\n';
        }
    }
    lemma_lacks_concat(str_upper(file_name), "_H"@, '\n');
    lemma_lacks_concat(p, g, '\n');
    assert((p + g).last() == 'H');
    lemma_outside_line(p + g);
    lemma_outside_one(p + g)
}

proof fn lemma_literal_line(l: Seq<char>)
    requires
        l.len() > 0,
        l[0] == '#',
        l.last() == '>',
        forall|k: int| 0 <= k < l.len() ==> (#[trigger] l[k]) != '\n',
    ensures
        is_line(l),
        cpp_header(trim(l)) == CppReading::Outside,
{
    lemma_outside_line(l);
}

#[verifier::spinoff_prover]
proof fn lemma_include_lines(objs: Seq<SpecOmlObject>)
    ensures
        cpp_includes(objs) == unlines(cpp_include_lines(objs)),
        cpp_outside_lines(cpp_include_lines(objs)),
{
    if any_class_or_struct(objs) {
        reveal_strlit("#include <cstdint>\n");
        reveal_strlit("#include <string>\n");
        reveal_strlit("#include <optional>\n");
        reveal_strlit("#include <utility>\n");
        reveal_strlit("#include <array>\n");
        reveal_strlit("#include <vector>\n");
        reveal_strlit("#include <cstdint>");
        reveal_strlit("#include <string>");
        reveal_strlit("#include <optional>");
        reveal_strlit("#include <utility>");
        reveal_strlit("#include <array>");
        reveal_strlit("#include <vector>");
        reveal_strlit("\n");
        let i1 = "#include <cstdint>"@;
        let i2 = "#include <string>"@;
        let i3 = "#include <optional>"@;
        let i4 = "#include <utility>"@;
        let i5 = "#include <array>"@;
        let i6 = "#include <vector>"@;
        lemma_literal_line(i1);
        lemma_literal_line(i2);
        lemma_literal_line(i3);
        lemma_literal_line(i4);
        lemma_literal_line(i5);
        lemma_literal_line(i6);
        lemma_blank_outside();
        let a1 = lemma_outside_one(i1);
        let a2 = lemma_outside_one(i2);
        let a3 = lemma_outside_one(i3);
        let a4 = lemma_outside_one(i4);
        let a5 = lemma_outside_one(i5);
        let a6 = lemma_outside_one(i6);
        let e = lemma_outside_one(Seq::<char>::empty());
        let x5 = if any_array_like(objs, false) { a5 } else { Seq::<Seq<char>>::empty() };
        let x6 = if any_array_like(objs, true) { a6 } else { Seq::<Seq<char>>::empty() };
        assert(cpp_outside_lines(Seq::<Seq<char>>::empty()));
        assert(unlines(Seq::<Seq<char>>::empty()) == Seq::<char>::empty());
        lemma_outside_add(a1, a2);
        lemma_outside_add(a1 + a2, a3);
        lemma_outside_add(a1 + a2 + a3, a4);
        lemma_outside_add(a1 + a2 + a3 + a4, x5);
        lemma_outside_add(a1 + a2 + a3 + a4 + x5, x6);
        lemma_outside_add(a1 + a2 + a3 + a4 + x5 + x6, e);
        assert(a1 + a2 + a3 + a4 =~= seq![i1, i2, i3, i4]);
        assert(cpp_include_lines(objs) == a1 + a2 + a3 + a4 + x5 + x6 + e);
        assert(cpp_includes(objs) =~= unlines(a1 + a2 + a3 + a4 + x5 + x6 + e));
    } else {
        assert(cpp_outside_lines(Seq::<Seq<char>>::empty()));
        assert(unlines(Seq::<Seq<char>>::empty()) == Seq::<char>::empty());
    }
}

#[verifier::spinoff_prover]
proof fn lemma_head_lines(file_name: Seq<char>)
    requires
        !file_name.contains('\n'),
        !str_upper(file_name).contains('\n'),
    ensures
        "// This file has been generated from "@ + file_name + ".oml\n"@ + "#ifndef "@ + cpp_guard(file_name) + "\n"@
            + "#define "@ + cpp_guard(file_name) + "\n"@ + "\n"@ == unlines(cpp_head_lines(file_name)),
        cpp_outside_lines(cpp_head_lines(file_name)),
        "#endif // "@ + cpp_guard(file_name) + "\n\n"@ == unlines(cpp_tail_lines(file_name)),
        cpp_outside_lines(cpp_tail_lines(file_name)),
{
    reveal_strlit("// This file has been generated from ");
    reveal_strlit(".oml\n");
    reveal_strlit(".oml");
    reveal_strlit("#ifndef ");
    reveal_strlit("#define ");
    reveal_strlit("#endif // ");
    reveal_strlit("\n");
    reveal_strlit("\n\n");
    let c = "// This file has been generated from "@ + file_name + ".oml"@;
    assert(!"// This file has been generated from "@.contains('\n')) by {
        if "// This file has been generated from "@.contains('\n') {
            let k = choose|k: int| 0 <= k < 37 && "// This file has been generated from "@[k] == '\n';
        }
    }
    assert(!".oml"@.contains('\n')) by {
        if ".oml"@.contains('\n') {
            let k = choose|k: int| 0 <= k < 4 && ".oml"@[k] == '\n';
        }
    }
    lemma_lacks_concat("// This file has been generated from "@, file_name, '\n');
    lemma_lacks_concat("// This file has been generated from "@ + file_name, ".oml"@, '\n');
    assert(c.last() == 'l');
    lemma_outside_line(c);
    let a0 = lemma_outside_one(c);
    assert(!"#ifndef "@.contains('\n')) by {
        if "#ifndef "@.contains('\n') {
            let k = choose|k: int| 0 <= k < 8 && "#ifndef "@[k] == '\n';
        }
    }
    assert(!"#define "@.contains('\n')) by {
        if "#define "@.contains('\n') {
            let k = choose|k: int| 0 <= k < 8 && "#define "@[k] == '\n';
        }
    }
    assert(!"#endif // "@.contains('\n')) by {
        if "#endif // "@.contains('\n') {
            let k = choose|k: int| 0 <= k < 10 && "#endif // "@[k] == '\n';
        }
    }
    let a1 = lemma_guard_line("#ifndef "@, file_name);
    let a2 = lemma_guard_line("#define "@, file_name);
    let t0 = lemma_guard_line("#endif // "@, file_name);
    lemma_blank_outside();
    let e = lemma_outside_one(Seq::<char>::empty());
    lemma_outside_add(a0, a1);
    lemma_outside_add(a0 + a1, a2);
    lemma_outside_add(a0 + a1 + a2, e);
    assert(cpp_head_lines(file_name) =~= a0 + a1 + a2 + e);
    lemma_outside_add(t0, e);
    assert(cpp_tail_lines(file_name) =~= t0 + e);
    let g = cpp_guard(file_name);
    assert("// This file has been generated from "@ + file_name + ".oml\n"@ + "#ifndef "@ + g + "\n"@
        + "#define "@ + g + "\n"@ + "\n"@ =~= unlines(a0 + a1 + a2 + e));
    assert("#endif // "@ + g + "\n\n"@ =~= unlines(t0 + e));
}

/// The lines of a C++ header generated from enums, classes and structs.
pub open spec fn cpp_file_lines(objs: Seq<SpecOmlObject>, junks: Seq<Seq<Seq<char>>>, file_name: Seq<char>) -> Seq<Seq<char>> {
    cpp_head_lines(file_name) + cpp_include_lines(objs) + objects_lines(objs, junks, objs.len()) + cpp_tail_lines(file_name)
}

/// Reading back a C++ header generated from enums, classes and structs gives
/// each of them back, with its type and name. An enum comes back with its
/// variants named by the uppercase names of its variables. A class or struct
/// comes back with its members in the order of their sections (public,
/// protected, private), each with its visibility, type, array kind and name,
/// and with `STATIC`, `CONST` (where it is const and not mut) and `OPTIONAL`
/// as written. It holds for objects whose names, member names and type names
/// are words, whose types are neither `static` nor `const` nor the C++
/// spelling of another OML type, whose private members' names begin with a
/// letter whose uppercase holds no line break, and whose enum variants'
/// uppercase names are words, in a file whose name, and its uppercase, hold
/// no line break.
#[verifier::spinoff_prover]
#[verifier::rlimit(50)]
pub proof fn law_cpp_round_trip(objs: Seq<SpecOmlObject>, file_name: Seq<char>)
    requires
        forall|i: int| 0 <= i < objs.len() ==> cpp_object_round_trips(#[trigger] objs[i]),
        !file_name.contains('\n'),
        !str_upper(file_name).contains('\n'),
    ensures
        cpp_file(objs, file_name) is Ok,
        cpp_file(objs, file_name) matches Ok(text)
            && cpp_objects(text) == objs.map_values(|o: SpecOmlObject| cpp_object_read_back(o)),
{
    assert(!has_undecided(objs)) by {
        if has_undecided(objs) {
            let i = choose|i: int| 0 <= i < objs.len() && objs[i].oml_type == ObjectType::UNDECIDED;
            assert(cpp_object_round_trips(objs[i]));
        }
    }
    let junks = lemma_objects_junks(objs);
    let h = cpp_head_lines(file_name);
    let inc = cpp_include_lines(objs);
    let ol = objects_lines(objs, junks, objs.len());
    let tl = cpp_tail_lines(file_name);
    let ls = cpp_file_lines(objs, junks, file_name);
    assert(ls == h + inc + ol + tl);
    lemma_head_lines(file_name);
    lemma_include_lines(objs);
    lemma_objects_text(objs, junks, objs.len());
    lemma_unlines_add(h + inc + ol, tl);
    lemma_unlines_add(h + inc, ol);
    lemma_unlines_add(h, inc);
    let g = cpp_guard(file_name);
    let text = unlines(ls);
    assert(text == unlines(h) + unlines(inc) + unlines(ol) + unlines(tl));
    assert(cpp_file(objs, file_name) == Ok::<Seq<char>, GenerateError>(text)) by {
        reveal_strlit("#endif // ");
        reveal_strlit("\n\n");
        assert(cpp_file(objs, file_name) == Ok::<Seq<char>, GenerateError>(
            "// This file has been generated from "@ + file_name + ".oml\n"@ + "#ifndef "@ + g + "\n"@
                + "#define "@ + g + "\n"@ + "\n"@ + cpp_includes(objs) + cpp_objects_text(objs, objs.len())
                + "#endif // "@ + g + "\n\n"@));
        let x = unlines(h) + unlines(inc) + unlines(ol);
        assert("// This file has been generated from "@ + file_name + ".oml\n"@ + "#ifndef "@ + g + "\n"@
            + "#define "@ + g + "\n"@ + "\n"@ + cpp_includes(objs) + cpp_objects_text(objs, objs.len()) == x);
        assert(x + "#endif // "@ + g + "\n\n"@ =~= x + ("#endif // "@ + g + "\n\n"@));
    }
    // every line stands alone
    assert forall|k: int| 0 <= k < ls.len() implies is_line(#[trigger] ls[k]) by {
        if k < h.len() {
            assert(ls[k] == h[k]);
        } else if k < h.len() + inc.len() {
            assert(ls[k] == inc[k - h.len()]);
        } else if k < h.len() + inc.len() + ol.len() {
            assert(ls[k] == ol[k - h.len() - inc.len()]);
        } else {
            assert(ls[k] == tl[k - h.len() - inc.len() - ol.len()]);
        }
    }
    crate::chars::lemma_lines_unlines(ls);
    assert(cpp_objects(text) == cpp_read(ls, 0, CppReading::Outside));
    // the head and the includes
    let p = h.len() + inc.len();
    assert forall|k: int| 0 <= k < p implies cpp_header(trim(#[trigger] ls[k])) == CppReading::Outside by {
        if k < h.len() {
            assert(ls[k] == h[k]);
        } else {
            assert(ls[k] == inc[k - h.len()]);
        }
    }
    lemma_read_outside(ls, 0, p as int);
    // the objects
    assert forall|k: int| 0 <= k < ol.len() implies ls[p + k] == #[trigger] ol[k] by {}
    lemma_read_objects(ls, p as int, objs, junks, objs.len());
    // the tail
    let q = p + ol.len();
    assert forall|k: int| q <= k < q + tl.len() implies cpp_header(trim(#[trigger] ls[k])) == CppReading::Outside by {
        assert(ls[k] == tl[k - q]);
    }
    lemma_read_outside(ls, q as int, tl.len() as int);
    assert(q + tl.len() == ls.len());
    assert(cpp_read(ls, ls.len() as int, CppReading::Outside) == Seq::<SpecOmlObject>::empty());
    assert(objs.map_values(|o: SpecOmlObject| cpp_object_read_back(o)) + Seq::<SpecOmlObject>::empty()
        =~= objs.map_values(|o: SpecOmlObject| cpp_object_read_back(o)));
}

} // verus!
