use vstd::prelude::*;
use crate::oml_object::{ArrayKind, SpecVariable, VariableModifier, VariableVisibility};
use crate::chars::{
    after_prefix, before_last, first_index, is_digit, is_ident_char, is_word, is_ws,
    last_index, lemma_first_index_at, lemma_last_index_at, lemma_not_starts_with,
    lemma_starts_with_concat, lemma_trim_start_after_ws, lemma_trim_unchanged, starts_with,
    trim,
};
use crate::text::decimal;
use crate::text::join as join_items;
use crate::laws::{law_cpp_type_round_trip, law_parse_decimal, lemma_decimal_digits};
use crate::generators::cpp::{cpp_full_type, cpp_type, cpp_type_annotation};
use crate::generators::cpp_reverse::{
    cpp_array_parts, cpp_field, cpp_inner_type, cpp_member_line, cpp_mods, oml_of_cpp_type,
};
use crate::chars::{
    words, words_from, is_line, lemma_lacks_concat, lemma_trim_end_in_one,
    lemma_trim_end_in_unchanged as lemma_trim_end_in_same, trim_end_in,
};
use crate::reading::read_var;
use crate::generators::cpp::cpp_member_decl;

verus! {

// ---------------------------------------------------------------- C++ type names

/// Whether `s` is written with identifier characters and colons only, as a
/// C++ type name such as `std::string` is.
pub open spec fn is_cpp_name(s: Seq<char>) -> bool {
    s.len() > 0 && forall|i: int| 0 <= i < s.len() ==> (is_ident_char(#[trigger] s[i]) || s[i] == ':')
}

/// A name holds none of the characters that are neither identifier
/// characters nor colons.
proof fn lemma_cpp_name_lacks(s: Seq<char>, c: char)
    requires
        is_cpp_name(s),
        !is_ident_char(c),
        c != ':',
    ensures
        !s.contains(c),
        first_index(s, c) is None,
        last_index(s, c) is None,
{
    crate::chars::lemma_first_index(s, c);
    crate::chars::lemma_last_index(s, c);
}

/// A name does not begin with a text that has, at index `i`, a character
/// that is neither an identifier character nor a colon.
proof fn lemma_cpp_name_not_starts_with(s: Seq<char>, p: Seq<char>, i: int)
    requires
        is_cpp_name(s),
        0 <= i < p.len(),
        !is_ident_char(p[i]),
        p[i] != ':',
    ensures
        !starts_with(s, p),
{
    if i < s.len() {
        lemma_not_starts_with(s, p, i);
    }
}

/// The C++ spelling of a word is a name.
proof fn lemma_cpp_type_name(t: Seq<char>)
    requires
        is_word(t),
    ensures
        is_cpp_name(cpp_type(t)),
{
    reveal_strlit("int8_t");
    reveal_strlit("int16_t");
    reveal_strlit("int32_t");
    reveal_strlit("int64_t");
    reveal_strlit("uint8_t");
    reveal_strlit("uint16_t");
    reveal_strlit("uint32_t");
    reveal_strlit("uint64_t");
    reveal_strlit("float");
    reveal_strlit("double");
    reveal_strlit("bool");
    reveal_strlit("std::string");
    reveal_strlit("char");
}

/// A name is unchanged by trimming.
proof fn lemma_trim_cpp_name(s: Seq<char>)
    requires
        is_cpp_name(s),
    ensures
        trim(s) == s,
{
    lemma_trim_unchanged(s);
}

/// The facts about the C++ spelling of a type that reading it back needs.
proof fn lemma_cpp_name_shape(r: Seq<char>)
    requires
        is_cpp_name(r),
    ensures
        trim(r) == r,
        !r.contains(','),
        !r.contains('>'),
        !r.contains('\n'),
        !starts_with(r, "std::vector<"@),
        !starts_with(r, "std::array<"@),
        !starts_with(r, "std::optional<"@),
        !is_ws(r[0]),
        !is_ws(r.last()),
{
    lemma_trim_cpp_name(r);
    lemma_cpp_name_lacks(r, ',');
    lemma_cpp_name_lacks(r, '>');
    lemma_cpp_name_lacks(r, '\n');
    reveal_strlit("std::vector<");
    reveal_strlit("std::array<");
    reveal_strlit("std::optional<");
    lemma_cpp_name_not_starts_with(r, "std::vector<"@, 11);
    lemma_cpp_name_not_starts_with(r, "std::array<"@, 10);
    lemma_cpp_name_not_starts_with(r, "std::optional<"@, 13);
}

// ---------------------------------------------------------------- C++ types

/// Reading back the C++ type written for a word type with its array kind
/// gives that type and array kind again (for the types that
/// [`law_cpp_type_round_trip`] reads back).
pub proof fn law_cpp_annotation_round_trip(t: Seq<char>, k: ArrayKind)
    requires
        is_word(t),
        cpp_type(t) != t || oml_of_cpp_type(t) == t,
    ensures
        cpp_inner_type(cpp_type_annotation(t, k)) == (t, k),
{
    let r = cpp_type(t);
    lemma_cpp_type_name(t);
    lemma_cpp_name_shape(r);
    law_cpp_type_round_trip(t);
    reveal_strlit("std::vector<");
    reveal_strlit("std::array<");
    reveal_strlit(">");
    reveal_strlit(", ");
    match k {
        ArrayKind::Scalar => {},
        ArrayKind::Dynamic => {
            let a = "std::vector<"@ + r + ">"@;
            assert(a[0] == 's');
            assert(a.last() == '>');
            lemma_trim_unchanged(a);
            assert(a == "std::vector<"@ + (r + ">"@));
            lemma_starts_with_concat("std::vector<"@, r + ">"@);
            lemma_last_index_at(r, '>', Seq::empty());
            assert(r + ">"@ =~= r + seq!['>'] + Seq::<char>::empty());
            assert((r + seq!['>'] + Seq::<char>::empty()).take(r.len() as int) =~= r);
        },
        ArrayKind::Static(n) => {
            let d = decimal(n as nat);
            lemma_decimal_digits(n as nat);
            law_parse_decimal(n);
            let a = "std::array<"@ + r + ", "@ + d + ">"@;
            assert(a[0] == 's');
            assert(a.last() == '>');
            lemma_trim_unchanged(a);
            lemma_not_starts_with(a, "std::vector<"@, 5);
            assert(a == "std::array<"@ + (r + ", "@ + d + ">"@));
            lemma_starts_with_concat("std::array<"@, r + ", "@ + d + ">"@);
            let inner = r + seq![','] + (seq![' '] + d);
            assert(!d.contains('>')) by {
                if d.contains('>') {
                    let j = choose|j: int| 0 <= j < d.len() && d[j] == '>';
                    assert(is_digit(d[j]));
                }
            }
            assert(r + ", "@ + d + ">"@ =~= inner + seq!['>'] + Seq::<char>::empty());
            lemma_last_index_at(inner, '>', Seq::empty());
            assert((inner + seq!['>'] + Seq::<char>::empty()).take(inner.len() as int) =~= inner);
            assert(before_last(after_prefix(a, "std::array<"@), '>') == inner);
            lemma_first_index_at(r, ',', seq![' '] + d);
            assert(inner.skip(r.len() as int + 1) =~= seq![' '] + d);
            assert(inner.take(r.len() as int) =~= r);
            lemma_trim_start_after_ws(seq![' '], d);
            assert(is_digit(d[0]) && is_digit(d.last()));
            lemma_trim_unchanged(d);
            assert(trim(seq![' '] + d) == d);
            assert(cpp_array_parts(inner) == Some((r, n)));
        },
    }
}

// ---------------------------------------------------------------- C++ members

/// Whether a member reads back from C++: its name and type are words, and its
/// type is neither `static` nor `const` nor the C++ spelling of another OML
/// type.
pub open spec fn cpp_var_round_trips(v: SpecVariable) -> bool {
    &&& is_word(v.name)
    &&& is_word(v.var_type)
    &&& v.var_type != "static"@
    &&& v.var_type != "const"@
    &&& (cpp_type(v.var_type) != v.var_type || oml_of_cpp_type(v.var_type) == v.var_type)
}

/// The modifiers a member is read back with: `STATIC` where it is static,
/// `CONST` where it is written `const` (const and not mut), `OPTIONAL` where
/// it is optional.
pub open spec fn cpp_read_back_mods(v: SpecVariable) -> Seq<VariableModifier> {
    (if v.is_static() { seq![VariableModifier::STATIC] } else { Seq::empty() })
        + (if v.is_readonly() { seq![VariableModifier::CONST] } else { Seq::empty() })
        + (if v.is_optional() { seq![VariableModifier::OPTIONAL] } else { Seq::empty() })
}

/// The line that declares a member.
pub open spec fn cpp_decl_line(v: SpecVariable) -> Seq<char> {
    "\t"@
        + (if v.is_static() { "static "@ } else { Seq::<char>::empty() })
        + (if v.is_readonly() { "const "@ } else { Seq::<char>::empty() })
        + cpp_full_type(v) + " "@ + v.name + ";"@
}

proof fn lemma_words_from_run(s: Seq<char>, i: int, k: int, cur: Seq<char>)
    requires
        0 <= i,
        0 <= k,
        i + k <= s.len(),
        forall|m: int| i <= m < i + k ==> !is_ws(#[trigger] s[m]),
    ensures
        words_from(s, i, cur) == words_from(s, i + k, cur + s.subrange(i, i + k)),
    decreases k,
{
    if k > 0 {
        lemma_words_from_run(s, i + 1, k - 1, cur.push(s[i]));
        assert(cur.push(s[i]) + s.subrange(i + 1, i + k) =~= cur + s.subrange(i, i + k));
    } else {
        assert(cur + s.subrange(i, i) =~= cur);
    }
}

/// Two names with one space between them are two words.
proof fn lemma_two_words(a: Seq<char>, b: Seq<char>)
    requires
        a.len() > 0,
        b.len() > 0,
        forall|m: int| 0 <= m < a.len() ==> !is_ws(#[trigger] a[m]),
        forall|m: int| 0 <= m < b.len() ==> !is_ws(#[trigger] b[m]),
    ensures
        words(a + seq![' '] + b) == seq![a, b],
{
    let s = a + seq![' '] + b;
    assert forall|m: int| 0 <= m < a.len() implies !is_ws(#[trigger] s[m]) by {
        assert(s[m] == a[m]);
    }
    lemma_words_from_run(s, 0, a.len() as int, Seq::empty());
    assert(Seq::<char>::empty() + s.subrange(0, a.len() as int) =~= a);
    assert(s[a.len() as int] == ' ');
    assert forall|m: int| a.len() + 1 <= m < s.len() implies !is_ws(#[trigger] s[m]) by {
        assert(s[m] == b[m - a.len() - 1]);
    }
    lemma_words_from_run(s, a.len() as int + 1, b.len() as int, Seq::empty());
    assert(Seq::<char>::empty() + s.subrange(a.len() as int + 1, s.len() as int) =~= b);
    assert(words_from(s, s.len() as int, b) == seq![b]);
    assert(words_from(s, a.len() as int, a) == seq![a] + words_from(s, a.len() as int + 1, Seq::empty()));
}

/// A name followed by a space does not begin with a text that has, at index
/// `i`, a character that is neither an identifier character nor a colon, and
/// no space up to there.
proof fn lemma_name_space_not_starts_with(w: Seq<char>, rest: Seq<char>, p: Seq<char>, i: int)
    requires
        is_cpp_name(w),
        0 <= i < p.len(),
        !is_ident_char(p[i]),
        p[i] != ':',
        forall|j: int| 0 <= j <= i ==> p[j] != ' ',
    ensures
        !starts_with(w + seq![' '] + rest, p),
{
    let s = w + seq![' '] + rest;
    if w.len() > i {
        assert(s[i] == w[i]);
        lemma_not_starts_with(s, p, i);
    } else {
        assert(s[w.len() as int] == ' ');
        lemma_not_starts_with(s, p, w.len() as int);
    }
}

/// A name followed by a space begins with a keyword and a space only where
/// it is that keyword.
proof fn lemma_name_space_keyword(w: Seq<char>, rest: Seq<char>, kw: Seq<char>)
    requires
        is_cpp_name(w),
        is_word(kw),
        w != kw,
    ensures
        !starts_with(w + seq![' '] + rest, kw + seq![' ']),
{
    let s = w + seq![' '] + rest;
    let p = kw + seq![' '];
    let m = kw.len() as int;
    assert(p[m] == ' ');
    if w.len() > m {
        assert(s[m] == w[m]);
        lemma_not_starts_with(s, p, m);
    } else if w.len() < m {
        assert(s[w.len() as int] == ' ');
        assert(p[w.len() as int] == kw[w.len() as int]);
        lemma_not_starts_with(s, p, w.len() as int);
    } else {
        if starts_with(s, p) {
            assert(s.take(p.len() as int) == p);
            assert(w =~= kw) by {
                assert forall|j: int| 0 <= j < m implies w[j] == kw[j] by {
                    assert(s.take(p.len() as int)[j] == s[j]);
                    assert(s[j] == w[j]);
                    assert(p[j] == kw[j]);
                }
            }
        }
    }
}

/// The C++ spelling of a type other than `static` and `const` is neither.
proof fn lemma_cpp_type_not_keyword(t: Seq<char>)
    requires
        is_word(t),
        t != "static"@,
        t != "const"@,
    ensures
        cpp_type(t) != "static"@,
        cpp_type(t) != "const"@,
{
    reveal_strlit("static");
    reveal_strlit("const");
    reveal_strlit("int8_t");
    reveal_strlit("int16_t");
    reveal_strlit("int32_t");
    reveal_strlit("int64_t");
    reveal_strlit("uint8_t");
    reveal_strlit("uint16_t");
    reveal_strlit("uint32_t");
    reveal_strlit("uint64_t");
    reveal_strlit("float");
    reveal_strlit("double");
    reveal_strlit("bool");
    reveal_strlit("std::string");
    reveal_strlit("char");
    assert("static"@.len() == 6);
    assert("const"@.len() == 5);
    assert("int8_t"@.len() == 6);
    assert("int16_t"@.len() == 7);
    assert("int32_t"@.len() == 7);
    assert("int64_t"@.len() == 7);
    assert("uint8_t"@.len() == 7);
    assert("uint16_t"@.len() == 8);
    assert("uint32_t"@.len() == 8);
    assert("uint64_t"@.len() == 8);
    assert("float"@.len() == 5);
    assert("double"@.len() == 6);
    assert("bool"@.len() == 4);
    assert("std::string"@.len() == 11);
    assert("char"@.len() == 4);
    assert("int8_t"@[0] != "static"@[0]);
    assert("double"@[0] != "static"@[0]);
    assert("float"@[0] != "const"@[0]);
}

/// A text made of digits lacks every character that is no digit.
proof fn lemma_digits_lack(d: Seq<char>, c: char)
    requires
        forall|k: int| 0 <= k < d.len() ==> is_digit(#[trigger] d[k]),
        !('0' <= c && c <= '9'),
    ensures
        !d.contains(c),
{
    if d.contains(c) {
        let j = choose|j: int| 0 <= j < d.len() && d[j] == c;
        assert(is_digit(d[j]));
    }
}

/// The characters that a type written for a member lacks.
pub(crate) proof fn lemma_full_type_lacks(v: SpecVariable, c: char)
    requires
        cpp_var_round_trips(v),
        c == '\n' || c == '(' || c == '~' || c == ';',
    ensures
        !cpp_full_type(v).contains(c),
        !cpp_type_annotation(v.var_type, v.array_kind).contains(c),
{
    let r = cpp_type(v.var_type);
    lemma_cpp_type_name(v.var_type);
    lemma_cpp_name_lacks(r, c);
    reveal_strlit("std::vector<");
    reveal_strlit("std::array<");
    reveal_strlit("std::optional<");
    reveal_strlit(">");
    reveal_strlit(", ");
    let a = cpp_type_annotation(v.var_type, v.array_kind);
    match v.array_kind {
        ArrayKind::Scalar => {},
        ArrayKind::Dynamic => {
            lemma_lacks_concat("std::vector<"@, r, c);
            lemma_lacks_concat("std::vector<"@ + r, ">"@, c);
        },
        ArrayKind::Static(n) => {
            let d = decimal(n as nat);
            lemma_decimal_digits(n as nat);
            lemma_digits_lack(d, c);
            lemma_lacks_concat("std::array<"@, r, c);
            lemma_lacks_concat("std::array<"@ + r, ", "@, c);
            lemma_lacks_concat("std::array<"@ + r + ", "@, d, c);
            lemma_lacks_concat("std::array<"@ + r + ", "@ + d, ">"@, c);
        },
    }
    if v.is_optional() {
        lemma_lacks_concat("std::optional<"@, a, c);
        lemma_lacks_concat("std::optional<"@ + a, ">"@, c);
    }
}

/// An optional member is read back from its `std::optional` type.
#[verifier::spinoff_prover]
#[verifier::rlimit(80)]
proof fn lemma_cpp_member_optional(v: SpecVariable, mods: Seq<VariableModifier>, vis: VariableVisibility, l: Seq<char>, pre: Seq<char>)
    requires
        cpp_var_round_trips(v),
        l.len() > 0,
        trim(l) == l,
        trim_end_in(l, ";"@) == l,
        cpp_mods(l) == (mods, cpp_full_type(v) + seq![' '] + v.name),
        l == pre + (cpp_full_type(v) + seq![' '] + v.name),
        v.is_optional(),
    ensures
        cpp_field(l, vis) == Some(read_var(
            if v.is_optional() { mods.push(VariableModifier::OPTIONAL) } else { mods },
            vis, v.var_type, v.array_kind, v.name)),
{
    let t = v.var_type;
    let n = v.name;
    let r = cpp_type(t);
    lemma_cpp_type_name(t);
    lemma_cpp_name_shape(r);
    law_cpp_type_round_trip(t);
    let a = cpp_type_annotation(t, v.array_kind);
    let f = cpp_full_type(v);
    let body = f + seq![' '] + n;
    reveal_strlit("std::vector<");
    reveal_strlit("std::array<");
    reveal_strlit("std::optional<");
    reveal_strlit(">");
    reveal_strlit(", ");
    lemma_word_lacks_gt(n);
    lemma_trim_word_name(n);
    let tail = seq![' '] + n;
    lemma_lacks_concat(seq![' '], n, '>');
    lemma_trim_start_after_ws(seq![' '], n);
    assert(trim(tail) == n);
    let rest = "std::optional<"@ + (a + seq!['>'] + tail);
    assert(body =~= rest);
    lemma_starts_with_concat("std::optional<"@, a + seq!['>'] + tail);
    lemma_last_index_at(a, '>', tail);
    assert((a + seq!['>'] + tail).take(a.len() as int) =~= a);
    assert((a + seq!['>'] + tail).skip(a.len() as int + 1) =~= tail);
    law_cpp_annotation_round_trip(t, v.array_kind);
    assert(l =~= (pre + "std::optional<"@ + a) + seq!['>'] + tail);
    lemma_last_index_at(pre + "std::optional<"@ + a, '>', tail);
    assert(l.skip((pre + "std::optional<"@ + a).len() as int + 1) =~= tail);
}

/// A list member is read back from its `std::vector` type.
#[verifier::spinoff_prover]
proof fn lemma_cpp_member_dynamic(v: SpecVariable, mods: Seq<VariableModifier>, vis: VariableVisibility, l: Seq<char>, pre: Seq<char>)
    requires
        cpp_var_round_trips(v),
        l.len() > 0,
        trim(l) == l,
        trim_end_in(l, ";"@) == l,
        cpp_mods(l) == (mods, cpp_full_type(v) + seq![' '] + v.name),
        l == pre + (cpp_full_type(v) + seq![' '] + v.name),
        !v.is_optional(),
        v.array_kind == ArrayKind::Dynamic,
    ensures
        cpp_field(l, vis) == Some(read_var(
            if v.is_optional() { mods.push(VariableModifier::OPTIONAL) } else { mods },
            vis, v.var_type, v.array_kind, v.name)),
{
    let t = v.var_type;
    let n = v.name;
    let r = cpp_type(t);
    lemma_cpp_type_name(t);
    lemma_cpp_name_shape(r);
    law_cpp_type_round_trip(t);
    let a = cpp_type_annotation(t, v.array_kind);
    let f = cpp_full_type(v);
    let body = f + seq![' '] + n;
    reveal_strlit("std::vector<");
    reveal_strlit("std::array<");
    reveal_strlit("std::optional<");
    reveal_strlit(">");
    reveal_strlit(", ");
    lemma_word_lacks_gt(n);
    lemma_trim_word_name(n);
    let tail = seq![' '] + n;
    lemma_lacks_concat(seq![' '], n, '>');
    lemma_trim_start_after_ws(seq![' '], n);
    assert(trim(tail) == n);
    let rest = "std::vector<"@ + (r + seq!['>'] + tail);
    assert(body =~= rest);
    lemma_not_starts_with(body, "std::optional<"@, 5);
    lemma_starts_with_concat("std::vector<"@, r + seq!['>'] + tail);
    lemma_last_index_at(r, '>', tail);
    assert((r + seq!['>'] + tail).take(r.len() as int) =~= r);
    assert((r + seq!['>'] + tail).skip(r.len() as int + 1) =~= tail);
}

/// An array member is read back from its `std::array` type.
#[verifier::spinoff_prover]
#[verifier::rlimit(80)]
proof fn lemma_cpp_member_static(v: SpecVariable, mods: Seq<VariableModifier>, vis: VariableVisibility, l: Seq<char>, pre: Seq<char>)
    requires
        cpp_var_round_trips(v),
        l.len() > 0,
        trim(l) == l,
        trim_end_in(l, ";"@) == l,
        cpp_mods(l) == (mods, cpp_full_type(v) + seq![' '] + v.name),
        l == pre + (cpp_full_type(v) + seq![' '] + v.name),
        !v.is_optional(),
        v.array_kind is Static,
    ensures
        cpp_field(l, vis) == Some(read_var(
            if v.is_optional() { mods.push(VariableModifier::OPTIONAL) } else { mods },
            vis, v.var_type, v.array_kind, v.name)),
{
    let t = v.var_type;
    let n = v.name;
    let r = cpp_type(t);
    lemma_cpp_type_name(t);
    lemma_cpp_name_shape(r);
    law_cpp_type_round_trip(t);
    let a = cpp_type_annotation(t, v.array_kind);
    let f = cpp_full_type(v);
    let body = f + seq![' '] + n;
    reveal_strlit("std::vector<");
    reveal_strlit("std::array<");
    reveal_strlit("std::optional<");
    reveal_strlit(">");
    reveal_strlit(", ");
    lemma_word_lacks_gt(n);
    lemma_trim_word_name(n);
    let tail = seq![' '] + n;
    lemma_lacks_concat(seq![' '], n, '>');
    lemma_trim_start_after_ws(seq![' '], n);
    assert(trim(tail) == n);
    let m = v.array_kind->Static_0;
    let d = decimal(m as nat);
    lemma_decimal_digits(m as nat);
    law_parse_decimal(m);
    let inner = r + seq![','] + (seq![' '] + d);
    let rest = "std::array<"@ + (inner + seq!['>'] + tail);
    assert(body =~= rest);
    lemma_not_starts_with(body, "std::optional<"@, 5);
    lemma_not_starts_with(body, "std::vector<"@, 5);
    lemma_starts_with_concat("std::array<"@, inner + seq!['>'] + tail);
    lemma_digits_lack(d, '>');
    lemma_lacks_concat(r, seq![','], '>');
    lemma_lacks_concat(seq![' '], d, '>');
    lemma_lacks_concat(r + seq![','], seq![' '] + d, '>');
    lemma_last_index_at(inner, '>', tail);
    assert((inner + seq!['>'] + tail).take(inner.len() as int) =~= inner);
    assert((inner + seq!['>'] + tail).skip(inner.len() as int + 1) =~= tail);
    lemma_first_index_at(r, ',', seq![' '] + d);
    assert(inner.skip(r.len() as int + 1) =~= seq![' '] + d);
    assert(inner.take(r.len() as int) =~= r);
    lemma_trim_start_after_ws(seq![' '], d);
    assert(is_digit(d[0]) && is_digit(d.last()));
    lemma_trim_unchanged(d);
    assert(cpp_array_parts(inner) == Some((r, m)));
}

/// A scalar member is read back from its type and name.
#[verifier::spinoff_prover]
#[verifier::rlimit(80)]
proof fn lemma_cpp_member_scalar(v: SpecVariable, mods: Seq<VariableModifier>, vis: VariableVisibility, l: Seq<char>, pre: Seq<char>)
    requires
        cpp_var_round_trips(v),
        l.len() > 0,
        trim(l) == l,
        trim_end_in(l, ";"@) == l,
        cpp_mods(l) == (mods, cpp_full_type(v) + seq![' '] + v.name),
        l == pre + (cpp_full_type(v) + seq![' '] + v.name),
        !v.is_optional(),
        v.array_kind == ArrayKind::Scalar,
    ensures
        cpp_field(l, vis) == Some(read_var(
            if v.is_optional() { mods.push(VariableModifier::OPTIONAL) } else { mods },
            vis, v.var_type, v.array_kind, v.name)),
{
    let t = v.var_type;
    let n = v.name;
    let r = cpp_type(t);
    lemma_cpp_type_name(t);
    lemma_cpp_name_shape(r);
    law_cpp_type_round_trip(t);
    let a = cpp_type_annotation(t, v.array_kind);
    let f = cpp_full_type(v);
    let body = f + seq![' '] + n;
    reveal_strlit("std::vector<");
    reveal_strlit("std::array<");
    reveal_strlit("std::optional<");
    reveal_strlit(">");
    reveal_strlit(", ");
    lemma_word_lacks_gt(n);
    lemma_trim_word_name(n);
    let tail = seq![' '] + n;
    lemma_lacks_concat(seq![' '], n, '>');
    lemma_trim_start_after_ws(seq![' '], n);
    assert(trim(tail) == n);
    assert(f == r);
    lemma_name_space_not_starts_with(r, n, "std::optional<"@, 13);
    lemma_name_space_not_starts_with(r, n, "std::vector<"@, 11);
    lemma_name_space_not_starts_with(r, n, "std::array<"@, 10);
    assert forall|m: int| 0 <= m < r.len() implies !is_ws(#[trigger] r[m]) by {
        assert(is_ident_char(r[m]) || r[m] == ':');
    }
    assert forall|m: int| 0 <= m < n.len() implies !is_ws(#[trigger] n[m]) by {
        assert(is_ident_char(n[m]));
    }
    lemma_two_words(r, n);
    let tokens = words(body);
    assert(tokens.take(1) =~= seq![r]);
    assert(join_items(seq![r], " "@) == r);
}

pub(crate) proof fn lemma_word_lacks_gt(n: Seq<char>)
    requires
        is_word(n),
    ensures
        !n.contains('>'),
        !n.contains(';'),
        !n.contains('\n'),
        !n.contains('('),
        !n.contains('~'),
{
    crate::chars::lemma_word_lacks(n, '>');
    crate::chars::lemma_word_lacks(n, ';');
    crate::chars::lemma_word_lacks(n, '\n');
    crate::chars::lemma_word_lacks(n, '(');
    crate::chars::lemma_word_lacks(n, '~');
}

proof fn lemma_trim_word_name(n: Seq<char>)
    requires
        is_word(n),
    ensures
        trim(n) == n,
        !is_ws(n[0]),
        !is_ws(n.last()),
{
    lemma_trim_unchanged(n);
}

/// The first characters of the type written for a member: `std` for a
/// library type, else the C++ spelling of its type.
pub(crate) proof fn lemma_full_type_first(v: SpecVariable)
    requires
        cpp_var_round_trips(v),
    ensures
        cpp_full_type(v).len() > 0,
        (v.array_kind == ArrayKind::Scalar && !v.is_optional()) ==> cpp_full_type(v) == cpp_type(v.var_type),
        !(v.array_kind == ArrayKind::Scalar && !v.is_optional()) ==> cpp_full_type(v).len() > 2
            && cpp_full_type(v)[0] == 's' && cpp_full_type(v)[1] == 't' && cpp_full_type(v)[2] == 'd',
        !is_ws(cpp_full_type(v)[0]),
        cpp_full_type(v)[0] != '/',
        cpp_full_type(v)[0] != '}',
{
    let r = cpp_type(v.var_type);
    lemma_cpp_type_name(v.var_type);
    lemma_cpp_type_not_keyword(v.var_type);
    reveal_strlit("std::vector<");
    reveal_strlit("std::array<");
    reveal_strlit("std::optional<");
    reveal_strlit(">");
    reveal_strlit(", ");
    reveal_strlit("int8_t");
    reveal_strlit("int16_t");
    reveal_strlit("int32_t");
    reveal_strlit("int64_t");
    reveal_strlit("uint8_t");
    reveal_strlit("uint16_t");
    reveal_strlit("uint32_t");
    reveal_strlit("uint64_t");
    reveal_strlit("float");
    reveal_strlit("double");
    reveal_strlit("bool");
    reveal_strlit("std::string");
    reveal_strlit("char");
    assert(is_ident_char(r[0]) || r[0] == ':');
    if v.array_kind == ArrayKind::Scalar && !v.is_optional() {
        assert(cpp_full_type(v) == r);
    }
}

/// The modifiers a declaration is written with, as text.
pub open spec fn cpp_decl_prefix(v: SpecVariable) -> Seq<char> {
    (if v.is_static() { "static "@ } else { Seq::<char>::empty() })
        + (if v.is_readonly() { "const "@ } else { Seq::<char>::empty() })
}

/// The modifiers that reading the prefix gives: `STATIC`, then `CONST`.
pub open spec fn cpp_prefix_mods(v: SpecVariable) -> Seq<VariableModifier> {
    let m1: Seq<VariableModifier> = if v.is_static() { seq![VariableModifier::STATIC] } else { Seq::empty() };
    if v.is_readonly() { m1.push(VariableModifier::CONST) } else { m1 }
}

/// The text of a declaration between its tab and its semicolon.
pub open spec fn cpp_decl_text(v: SpecVariable) -> Seq<char> {
    cpp_decl_prefix(v) + (cpp_full_type(v) + seq![' '] + v.name)
}

#[verifier::spinoff_prover]
proof fn lemma_decl_trim(v: SpecVariable)
    requires
        cpp_var_round_trips(v),
    ensures
        cpp_decl_line(v) == seq!['\t'] + (cpp_decl_text(v) + seq![';']),
        cpp_member_decl(v) == cpp_decl_line(v) + seq!['\n'],
        trim(cpp_decl_line(v)) == cpp_decl_text(v) + seq![';'],
        trim(cpp_decl_text(v) + seq![';']) == cpp_decl_text(v) + seq![';'],
        trim(cpp_decl_text(v)) == cpp_decl_text(v),
        trim_end_in(cpp_decl_text(v) + seq![';'], ";"@) == cpp_decl_text(v),
        trim_end_in(cpp_decl_text(v), ";"@) == cpp_decl_text(v),
        cpp_decl_text(v).len() > 0,
        cpp_decl_text(v)[0] != '/',
        cpp_decl_text(v)[0] != '}',
{
    let n = v.name;
    lemma_full_type_first(v);
    lemma_trim_word_name(n);
    let f = cpp_full_type(v);
    let l = cpp_decl_text(v);
    let y = l + seq![';'];
    reveal_strlit("\t");
    reveal_strlit(";");
    reveal_strlit(";\n");
    reveal_strlit(" ");
    reveal_strlit("static ");
    reveal_strlit("const ");
    assert(cpp_decl_line(v) =~= seq!['\t'] + y);
    assert(cpp_member_decl(v) =~= cpp_decl_line(v) + seq!['\n']);
    assert(l[0] == (if v.is_static() { 's' } else if v.is_readonly() { 'c' } else { f[0] }));
    assert(l.last() == n.last());
    assert(y.last() == ';');
    lemma_trim_start_after_ws(seq!['\t'], y);
    lemma_trim_unchanged(y);
    assert(";"@[0] == ';');
    assert(!";"@.contains(n.last())) by {
        if ";"@.contains(n.last()) {
            assert(";"@[0] == n.last());
        }
    }
    lemma_trim_end_in_one(l, ';', ";"@);
    lemma_trim_unchanged(l);
    lemma_trim_end_in_same(l, ";"@);
}

#[verifier::spinoff_prover]
proof fn lemma_decl_mods(v: SpecVariable)
    requires
        cpp_var_round_trips(v),
    ensures
        cpp_mods(cpp_decl_text(v)) == (cpp_prefix_mods(v), cpp_full_type(v) + seq![' '] + v.name),
{
    let t = v.var_type;
    let n = v.name;
    let r = cpp_type(t);
    lemma_cpp_type_name(t);
    lemma_cpp_type_not_keyword(t);
    lemma_full_type_first(v);
    let f = cpp_full_type(v);
    let cp = if v.is_readonly() { "const "@ } else { Seq::<char>::empty() };
    let body = f + seq![' '] + n;
    let l = cpp_decl_text(v);
    reveal_strlit("static ");
    reveal_strlit("const ");
    reveal_strlit("static");
    reveal_strlit("const");
    let simple = v.array_kind == ArrayKind::Scalar && !v.is_optional();
    assert(!starts_with(body, "const "@)) by {
        if simple {
            assert("const "@ =~= "const"@ + seq![' ']);
            lemma_name_space_keyword(r, n, "const"@);
        } else {
            lemma_not_starts_with(body, "const "@, 0);
        }
    }
    assert(!starts_with(body, "static "@)) by {
        if simple {
            assert("static "@ =~= "static"@ + seq![' ']);
            lemma_name_space_keyword(r, n, "static"@);
        } else {
            assert(body[2] == f[2]);
            lemma_not_starts_with(body, "static "@, 2);
        }
    }
    if v.is_static() {
        assert(l =~= "static "@ + (cp + body));
        lemma_starts_with_concat("static "@, cp + body);
        if v.is_readonly() {
            assert(cp + body =~= "const "@ + body);
            lemma_starts_with_concat("const "@, body);
        } else {
            assert(cp + body =~= body);
        }
    } else {
        if v.is_readonly() {
            lemma_not_starts_with(l, "static "@, 0);
            assert(l =~= "const "@ + body);
            lemma_starts_with_concat("const "@, body);
        } else {
            assert(l =~= body);
        }
    }
}

#[verifier::spinoff_prover]
proof fn lemma_decl_lacks(v: SpecVariable, c: char)
    requires
        cpp_var_round_trips(v),
        c == '\n' || c == '(' || c == '~',
    ensures
        !(cpp_decl_text(v) + seq![';']).contains(c),
        !cpp_decl_line(v).contains(c),
{
    let n = v.name;
    lemma_word_lacks_gt(n);
    lemma_full_type_lacks(v, c);
    reveal_strlit("static ");
    reveal_strlit("const ");
    reveal_strlit("\t");
    reveal_strlit(";");
    let sp = if v.is_static() { "static "@ } else { Seq::<char>::empty() };
    let cp = if v.is_readonly() { "const "@ } else { Seq::<char>::empty() };
    let f = cpp_full_type(v);
    assert(!sp.contains(c));
    assert(!cp.contains(c));
    lemma_lacks_concat(sp, cp, c);
    lemma_lacks_concat(f, seq![' '], c);
    lemma_lacks_concat(f + seq![' '], n, c);
    lemma_lacks_concat(sp + cp, f + seq![' '] + n, c);
    assert(cpp_decl_text(v) == sp + cp + (f + seq![' '] + n));
    lemma_lacks_concat(cpp_decl_text(v), seq![';'], c);
    lemma_lacks_concat(seq!['\t'], cpp_decl_text(v) + seq![';'], c);
    lemma_decl_trim(v);
}

/// Reading back the line that declares a member gives the member again,
/// under the visibility of the section it is read in: its type, array kind
/// and name, `STATIC` where it is static, `CONST` where it is written `const`
/// (const and not mut) and `OPTIONAL` where it is optional. The line is read
/// as a member declaration: it is neither a label nor the end of the body.
pub proof fn law_cpp_member_round_trip(v: SpecVariable, vis: VariableVisibility)
    requires
        cpp_var_round_trips(v),
    ensures
        cpp_member_decl(v) == cpp_decl_line(v) + seq!['\n'],
        is_line(cpp_decl_line(v)),
        cpp_member_line(trim(cpp_decl_line(v))),
        !starts_with(trim(cpp_decl_line(v)), "};"@),
        trim(cpp_decl_line(v)) != "public:"@,
        trim(cpp_decl_line(v)) != "private:"@,
        trim(cpp_decl_line(v)) != "protected:"@,
        cpp_field(trim(cpp_decl_line(v)), vis)
            == Some(read_var(cpp_read_back_mods(v), vis, v.var_type, v.array_kind, v.name)),
{
    lemma_decl_trim(v);
    lemma_decl_mods(v);
    lemma_decl_lacks(v, '\n');
    lemma_decl_lacks(v, '(');
    lemma_decl_lacks(v, '~');
    let l = cpp_decl_text(v);
    let y = l + seq![';'];
    let mods = cpp_prefix_mods(v);
    assert(l == cpp_decl_prefix(v) + (cpp_full_type(v) + seq![' '] + v.name));
    if v.is_optional() {
        lemma_cpp_member_optional(v, mods, vis, l, cpp_decl_prefix(v));
    } else {
        match v.array_kind {
            ArrayKind::Dynamic => lemma_cpp_member_dynamic(v, mods, vis, l, cpp_decl_prefix(v)),
            ArrayKind::Static(_) => lemma_cpp_member_static(v, mods, vis, l, cpp_decl_prefix(v)),
            ArrayKind::Scalar => lemma_cpp_member_scalar(v, mods, vis, l, cpp_decl_prefix(v)),
        }
    }
    assert((if v.is_optional() { mods.push(VariableModifier::OPTIONAL) } else { mods }) =~= cpp_read_back_mods(v));
    assert(cpp_field(y, vis) == cpp_field(l, vis));
    reveal_strlit("//");
    reveal_strlit("};");
    reveal_strlit("public:");
    reveal_strlit("private:");
    reveal_strlit("protected:");
    assert(y[0] == l[0]);
    assert(y.last() == ';');
    lemma_not_starts_with(y, "//"@, 0);
    lemma_not_starts_with(y, "};"@, 0);
    assert(y != "public:"@) by {
        assert("public:"@.last() == ':');
    }
    assert(y != "private:"@) by {
        assert("private:"@.last() == ':');
    }
    assert(y != "protected:"@) by {
        assert("protected:"@.last() == ':');
    }
    assert(cpp_decl_line(v).last() == ';') by {
        assert(cpp_decl_line(v) =~= seq!['\t'] + y);
    }
}

} // verus!
