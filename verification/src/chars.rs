use vstd::prelude::*;
use crate::text::chars_of;

verus! {

/// `char::is_whitespace`: the characters with the Unicode `White_Space` property.
pub open spec fn is_ws(c: char) -> bool {
    c == '\t' || c == '\n' || c == '\x0B' || c == '\x0C' || c == '\r' || c == ' ' || c == '\u{85}'
        || c == '\u{A0}' || c == '\u{1680}' || ('\u{2000}' <= c && c <= '\u{200A}') || c == '\u{2028}'
        || c == '\u{2029}' || c == '\u{202F}' || c == '\u{205F}' || c == '\u{3000}'
}

/// Whether `c` is a whitespace character.
pub fn is_whitespace(c: char) -> (r: bool)
    ensures
        r == is_ws(c),
{
    c == '\t' || c == '\n' || c == '\x0B' || c == '\x0C' || c == '\r' || c == ' ' || c == '\u{85}'
        || c == '\u{A0}' || c == '\u{1680}' || ('\u{2000}' <= c && c <= '\u{200A}') || c == '\u{2028}'
        || c == '\u{2029}' || c == '\u{202F}' || c == '\u{205F}' || c == '\u{3000}'
}

/// `s` without its leading whitespace.
pub open spec fn trim_start(s: Seq<char>) -> Seq<char>
    decreases s.len(),
{
    if s.len() > 0 && is_ws(s[0]) { trim_start(s.drop_first()) } else { s }
}

/// `s` without its trailing whitespace.
pub open spec fn trim_end(s: Seq<char>) -> Seq<char>
    decreases s.len(),
{
    if s.len() > 0 && is_ws(s.last()) { trim_end(s.drop_last()) } else { s }
}

/// `s` without leading and trailing whitespace (`str::trim`).
pub open spec fn trim(s: Seq<char>) -> Seq<char> {
    trim_end(trim_start(s))
}

/// The characters of `s` from `from` to `to`.
pub fn subrange_chars(s: &Vec<char>, from: usize, to: usize) -> (r: Vec<char>)
    requires
        from <= to <= s.len(),
    ensures
        r@ == s@.subrange(from as int, to as int),
{
    let mut r: Vec<char> = Vec::new();
    let mut i = from;
    while i < to
        invariant
            from <= i <= to <= s.len(),
            r@ == s@.subrange(from as int, i as int),
        decreases to - i,
    {
        r.push(s[i]);
        i += 1;
        assert(r@ =~= s@.subrange(from as int, i as int));
    }
    r
}

/// A text that begins with `p` and ends with a character other than the last
/// of `p` is longer than `p`.
pub proof fn lemma_longer_than_prefix(s: Seq<char>, p: Seq<char>)
    requires
        starts_with(s, p),
        p.len() > 0,
        s.len() > 0,
        s.last() != p.last(),
    ensures
        s.len() > p.len(),
{
    if s.len() == p.len() {
        assert(s.take(p.len() as int) =~= s);
    }
}

proof fn lemma_trim_start_len(s: Seq<char>)
    ensures
        trim_start(s).len() <= s.len(),
    decreases s.len(),
{
    if s.len() > 0 {
        lemma_trim_start_len(s.drop_first());
    }
}

proof fn lemma_trim_end_len(s: Seq<char>)
    ensures
        trim_end(s).len() <= s.len(),
    decreases s.len(),
{
    if s.len() > 0 {
        lemma_trim_end_len(s.drop_last());
    }
}

/// Trimming never lengthens a text.
pub proof fn lemma_trim_len(s: Seq<char>)
    ensures
        trim(s).len() <= s.len(),
{
    lemma_trim_start_len(s);
    lemma_trim_end_len(trim_start(s));
}

/// A copy of `s`.
pub fn copy_chars(s: &Vec<char>) -> (r: Vec<char>)
    ensures
        r@ == s@,
{
    assert(s@.subrange(0, s@.len() as int) =~= s@);
    subrange_chars(s, 0, s.len())
}

/// The first `n` characters of `s`.
pub fn take_chars(s: &Vec<char>, n: usize) -> (r: Vec<char>)
    requires
        n <= s.len(),
    ensures
        r@ == s@.take(n as int),
{
    subrange_chars(s, 0, n)
}

/// The characters of `s` before its last `c`, or all of `s` where it holds none.
pub open spec fn before_last(s: Seq<char>, c: char) -> Seq<char> {
    match last_index(s, c) {
        Some(k) => s.take(k),
        Option::None => s,
    }
}

/// The characters of `s` after its last `c`, or none where it holds none.
pub open spec fn after_last(s: Seq<char>, c: char) -> Seq<char> {
    match last_index(s, c) {
        Some(k) => s.skip(k + 1),
        Option::None => Seq::empty(),
    }
}

/// `s` with its first `p.len()` characters dropped.
pub open spec fn after_prefix(s: Seq<char>, p: Seq<char>) -> Seq<char> {
    s.skip(p.len() as int)
}

/// `s` without its leading whitespace.
pub fn trim_start_chars(s: &Vec<char>) -> (r: Vec<char>)
    ensures
        r@ == trim_start(s@),
{
    let mut i: usize = 0;
    assert(s@.skip(0) =~= s@);
    while i < s.len() && is_whitespace(s[i])
        invariant
            i <= s.len(),
            trim_start(s@) == trim_start(s@.skip(i as int)),
        decreases s.len() - i,
    {
        assert(s@.skip(i as int).drop_first() =~= s@.skip(i + 1));
        i += 1;
    }
    assert(s@.subrange(i as int, s.len() as int) =~= s@.skip(i as int));
    subrange_chars(s, i, s.len())
}

/// `s` without its trailing whitespace.
pub fn trim_end_chars(s: &Vec<char>) -> (r: Vec<char>)
    ensures
        r@ == trim_end(s@),
{
    let mut j: usize = s.len();
    assert(s@.take(s.len() as int) =~= s@);
    while j > 0 && is_whitespace(s[j - 1])
        invariant
            j <= s.len(),
            trim_end(s@) == trim_end(s@.take(j as int)),
        decreases j,
    {
        assert(s@.take(j as int).drop_last() =~= s@.take(j - 1));
        j -= 1;
    }
    assert(s@.subrange(0, j as int) =~= s@.take(j as int));
    subrange_chars(s, 0, j)
}

/// `s` without leading and trailing whitespace.
pub fn trim_chars(s: &Vec<char>) -> (r: Vec<char>)
    ensures
        r@ == trim(s@),
{
    let a = trim_start_chars(s);
    trim_end_chars(&a)
}

/// Whether `s` begins with `p`.
pub open spec fn starts_with(s: Seq<char>, p: Seq<char>) -> bool {
    p.len() <= s.len() && s.take(p.len() as int) == p
}

/// Whether `s` ends with `p`.
pub open spec fn ends_with(s: Seq<char>, p: Seq<char>) -> bool {
    p.len() <= s.len() && s.skip(s.len() - p.len()) == p
}

/// Whether `s` begins with the characters of `p`.
pub fn starts_with_str(s: &Vec<char>, p: &str) -> (r: bool)
    ensures
        r == starts_with(s@, p@),
{
    let pv = chars_of(p);
    if pv.len() > s.len() {
        return false;
    }
    let mut i: usize = 0;
    while i < pv.len()
        invariant
            i <= pv.len() <= s.len(),
            pv@ == p@,
            forall|k: int| 0 <= k < i ==> s@[k] == pv@[k],
        decreases pv.len() - i,
    {
        if s[i] != pv[i] {
            assert(s@.take(pv.len() as int)[i as int] != p@[i as int]);
            return false;
        }
        i += 1;
    }
    assert(s@.take(pv.len() as int) =~= p@);
    true
}

/// Whether `s` begins with the characters of `p`.
pub fn starts_with_chars(s: &Vec<char>, p: &Vec<char>) -> (r: bool)
    ensures
        r == starts_with(s@, p@),
{
    if p.len() > s.len() {
        return false;
    }
    let mut i: usize = 0;
    while i < p.len()
        invariant
            i <= p.len() <= s.len(),
            forall|k: int| 0 <= k < i ==> s@[k] == p@[k],
        decreases p.len() - i,
    {
        if s[i] != p[i] {
            assert(s@.take(p.len() as int)[i as int] != p@[i as int]);
            return false;
        }
        i += 1;
    }
    assert(s@.take(p.len() as int) =~= p@);
    true
}

/// Whether `s` ends with the characters of `p`.
pub fn ends_with_str(s: &Vec<char>, p: &str) -> (r: bool)
    ensures
        r == ends_with(s@, p@),
{
    let pv = chars_of(p);
    if pv.len() > s.len() {
        return false;
    }
    let off = s.len() - pv.len();
    let mut i: usize = 0;
    while i < pv.len()
        invariant
            i <= pv.len() <= s.len(),
            off == s.len() - pv.len(),
            pv@ == p@,
            forall|k: int| 0 <= k < i ==> s@[off + k] == pv@[k],
        decreases pv.len() - i,
    {
        if s[off + i] != pv[i] {
            assert(s@.skip(off as int)[i as int] != p@[i as int]);
            return false;
        }
        i += 1;
    }
    assert(s@.skip(off as int) =~= p@);
    true
}

/// Whether `s` ends with `c`.
pub fn ends_with_char(s: &Vec<char>, c: char) -> (r: bool)
    ensures
        r == (s@.len() > 0 && s@.last() == c),
{
    s.len() > 0 && s[s.len() - 1] == c
}

/// Whether `s` begins with `c`.
pub fn starts_with_char(s: &Vec<char>, c: char) -> (r: bool)
    ensures
        r == (s@.len() > 0 && s@[0] == c),
{
    s.len() > 0 && s[0] == c
}

/// The characters of `s` after the first `n`.
pub fn skip_chars(s: &Vec<char>, n: usize) -> (r: Vec<char>)
    requires
        n <= s.len(),
    ensures
        r@ == s@.skip(n as int),
{
    assert(s@.subrange(n as int, s.len() as int) =~= s@.skip(n as int));
    subrange_chars(s, n, s.len())
}

/// The index of the first `c` in `s`.
pub open spec fn first_index(s: Seq<char>, c: char) -> Option<int>
    decreases s.len(),
{
    if s.len() == 0 {
        Option::None
    } else if s[0] == c {
        Some(0)
    } else {
        match first_index(s.drop_first(), c) {
            Some(k) => Some(k + 1),
            Option::None => Option::None,
        }
    }
}

/// The index of the last `c` in `s`.
pub open spec fn last_index(s: Seq<char>, c: char) -> Option<int>
    decreases s.len(),
{
    if s.len() == 0 {
        Option::None
    } else if s.last() == c {
        Some(s.len() - 1)
    } else {
        last_index(s.drop_last(), c)
    }
}

pub proof fn lemma_first_index(s: Seq<char>, c: char)
    ensures
        first_index(s, c) matches Some(k) ==> 0 <= k < s.len() && s[k] == c
            && forall|j: int| 0 <= j < k ==> s[j] != c,
        first_index(s, c) is None ==> forall|j: int| 0 <= j < s.len() ==> s[j] != c,
    decreases s.len(),
{
    if s.len() > 0 {
        lemma_first_index(s.drop_first(), c);
        if s[0] != c {
            assert forall|j: int| 0 < j < s.len() implies s[j] == s.drop_first()[j - 1] by {}
        }
    }
}

pub proof fn lemma_last_index(s: Seq<char>, c: char)
    ensures
        last_index(s, c) matches Some(k) ==> 0 <= k < s.len() && s[k] == c
            && forall|j: int| k < j < s.len() ==> s[j] != c,
        last_index(s, c) is None ==> forall|j: int| 0 <= j < s.len() ==> s[j] != c,
    decreases s.len(),
{
    if s.len() > 0 {
        lemma_last_index(s.drop_last(), c);
        assert forall|j: int| 0 <= j < s.len() - 1 implies s[j] == s.drop_last()[j] by {}
    }
}

/// Finds the first `c` in `s` (`str::find` on a character).
pub fn find_char(s: &Vec<char>, c: char) -> (r: Option<usize>)
    ensures
        r matches Some(k) ==> first_index(s@, c) == Some(k as int) && k < s@.len(),
        r is None ==> first_index(s@, c) is None,
{
    let mut i: usize = 0;
    while i < s.len()
        invariant
            i <= s.len(),
            forall|j: int| 0 <= j < i ==> s@[j] != c,
        decreases s.len() - i,
    {
        if s[i] == c {
            proof {
                lemma_first_index(s@, c);
            }
            return Some(i);
        }
        i += 1;
    }
    proof {
        lemma_first_index(s@, c);
    }
    Option::None
}

/// Finds the last `c` in `s` (`str::rfind` on a character).
pub fn rfind_char(s: &Vec<char>, c: char) -> (r: Option<usize>)
    ensures
        r matches Some(k) ==> last_index(s@, c) == Some(k as int) && k < s@.len(),
        r is None ==> last_index(s@, c) is None,
{
    let mut i: usize = s.len();
    while i > 0
        invariant
            i <= s.len(),
            forall|j: int| i <= j < s.len() ==> s@[j] != c,
        decreases i,
    {
        if s[i - 1] == c {
            proof {
                lemma_last_index(s@, c);
            }
            return Some(i - 1);
        }
        i -= 1;
    }
    proof {
        lemma_last_index(s@, c);
    }
    Option::None
}

/// `s` without the trailing characters that are in `set`.
pub open spec fn trim_end_in(s: Seq<char>, set: Seq<char>) -> Seq<char>
    decreases s.len(),
{
    if s.len() > 0 && set.contains(s.last()) { trim_end_in(s.drop_last(), set) } else { s }
}

/// `s` without the trailing characters of `set` (`str::trim_end_matches`
/// with a character test).
pub fn trim_end_matching(s: &Vec<char>, set: &str) -> (r: Vec<char>)
    ensures
        r@ == trim_end_in(s@, set@),
{
    let sv = chars_of(set);
    let mut j: usize = s.len();
    assert(s@.take(s.len() as int) =~= s@);
    while j > 0 && contains_char(&sv, s[j - 1])
        invariant
            j <= s.len(),
            sv@ == set@,
            trim_end_in(s@, set@) == trim_end_in(s@.take(j as int), set@),
        decreases j,
    {
        assert(s@.take(j as int).drop_last() =~= s@.take(j - 1));
        j -= 1;
    }
    assert(s@.subrange(0, j as int) =~= s@.take(j as int));
    subrange_chars(s, 0, j)
}

/// Whether `s` holds `c`.
pub fn contains_char(s: &Vec<char>, c: char) -> (r: bool)
    ensures
        r == s@.contains(c),
{
    let mut i: usize = 0;
    while i < s.len()
        invariant
            i <= s.len(),
            forall|j: int| 0 <= j < i ==> s@[j] != c,
        decreases s.len() - i,
    {
        if s[i] == c {
            assert(s@[i as int] == c);
            return true;
        }
        i += 1;
    }
    false
}

/// Whether `p` occurs in `s` starting at index `i`.
pub open spec fn occurs_at(s: Seq<char>, p: Seq<char>, i: int) -> bool {
    0 <= i && i + p.len() <= s.len() && s.subrange(i, i + p.len()) == p
}

/// Whether `p` occurs in `s` (`str::contains` on a string).
pub open spec fn contains_seq(s: Seq<char>, p: Seq<char>) -> bool {
    exists|i: int| occurs_at(s, p, i)
}

fn occurs_at_exec(s: &Vec<char>, p: &Vec<char>, i: usize) -> (r: bool)
    requires
        i <= s.len(),
    ensures
        r == occurs_at(s@, p@, i as int),
{
    if p.len() > s.len() - i {
        return false;
    }
    let mut k: usize = 0;
    while k < p.len()
        invariant
            k <= p.len(),
            i + p.len() <= s.len(),
            forall|j: int| 0 <= j < k ==> s@[i + j] == p@[j],
        decreases p.len() - k,
    {
        if s[i + k] != p[k] {
            assert(s@.subrange(i as int, i + p.len())[k as int] != p@[k as int]);
            return false;
        }
        k += 1;
    }
    assert(s@.subrange(i as int, i + p.len()) =~= p@);
    true
}

/// Whether the characters of `p` occur in `s`.
pub fn contains_str(s: &Vec<char>, p: &str) -> (r: bool)
    ensures
        r == contains_seq(s@, p@),
{
    let pv = chars_of(p);
    if pv.len() == 0 {
        assert(occurs_at(s@, p@, 0)) by {
            assert(s@.subrange(0, 0) =~= p@);
        }
        return true;
    }
    if pv.len() > s.len() {
        assert forall|j: int| !occurs_at(s@, p@, j) by {}
        return false;
    }
    let last = s.len() - pv.len();
    let mut i: usize = 0;
    while i <= last
        invariant
            last == s.len() - pv.len(),
            last < s.len(),
            i <= last + 1,
            pv@ == p@,
            forall|j: int| 0 <= j < i ==> !occurs_at(s@, p@, j),
        decreases last + 1 - i,
    {
        if occurs_at_exec(s, &pv, i) {
            return true;
        }
        i += 1;
    }
    assert forall|j: int| !occurs_at(s@, p@, j) by {
        if 0 <= j && j + p@.len() <= s@.len() {
            assert(j < i);
        }
    }
    false
}

/// The lines of `s` from index `i` on, `cur` holding the characters of the
/// line begun before `i`: a line ends at `\n`, and a `\r` just before it is
/// dropped; a last line without `\n` is kept as it is, an empty one is not
/// a line (`str::lines`).
pub open spec fn lines_from(s: Seq<char>, i: int, cur: Seq<char>) -> Seq<Seq<char>>
    decreases s.len() - i,
{
    if i >= s.len() {
        if cur.len() == 0 { Seq::empty() } else { seq![cur] }
    } else if s[i] == '\n' {
        seq![strip_cr(cur)] + lines_from(s, i + 1, Seq::empty())
    } else {
        lines_from(s, i + 1, cur.push(s[i]))
    }
}

/// `l` without one trailing `\r`.
pub open spec fn strip_cr(l: Seq<char>) -> Seq<char> {
    if l.len() > 0 && l.last() == '\r' { l.drop_last() } else { l }
}

/// The lines of `s`, as `str::lines` gives them.
pub open spec fn lines(s: Seq<char>) -> Seq<Seq<char>> {
    lines_from(s, 0, Seq::empty())
}

pub open spec fn lines_view(v: Seq<Vec<char>>) -> Seq<Seq<char>> {
    v.map_values(|l: Vec<char>| l@)
}

/// Splits `s` into its lines.
pub fn split_lines(s: &Vec<char>) -> (r: Vec<Vec<char>>)
    ensures
        lines_view(r@) == lines(s@),
{
    let mut r: Vec<Vec<char>> = Vec::new();
    let mut cur: Vec<char> = Vec::new();
    let mut i: usize = 0;
    while i < s.len()
        invariant
            i <= s.len(),
            lines_view(r@) + lines_from(s@, i as int, cur@) == lines(s@),
        decreases s.len() - i,
    {
        let ghost cur_before = cur@;
        if s[i] == '\n' {
            let ghost before = r@;
            let line = if cur.len() > 0 && cur[cur.len() - 1] == '\r' { subrange_chars(&cur, 0, cur.len() - 1) } else { cur };
            assert(line@ == strip_cr(cur@)) by {
                if cur@.len() > 0 && cur@.last() == '\r' {
                    assert(cur@.subrange(0, cur@.len() - 1) =~= cur@.drop_last());
                }
            }
            r.push(line);
            assert(lines_view(r@) =~= lines_view(before).push(strip_cr(cur@)));
            cur = Vec::new();
            assert(lines_view(r@) + lines_from(s@, i + 1, cur@) =~= lines_view(before) + lines_from(s@, i as int, cur_before));
        } else {
            cur.push(s[i]);
        }
        i += 1;
    }
    if cur.len() > 0 {
        let ghost before = r@;
        r.push(cur);
        assert(lines_view(r@) =~= lines_view(before) + lines_from(s@, i as int, r@.last()@));
    } else {
        assert(lines_view(r@) =~= lines_view(r@) + lines_from(s@, i as int, cur@));
    }
    r
}

/// `s` without its prefix `p`, or `None` where it does not begin with `p`.
pub fn strip_prefix_str(s: &Vec<char>, p: &str) -> (r: Option<Vec<char>>)
    ensures
        r is Some <==> starts_with(s@, p@),
        r matches Some(x) ==> x@ == after_prefix(s@, p@),
{
    if starts_with_str(s, p) {
        let n = p.unicode_len();
        Some(skip_chars(s, n))
    } else {
        Option::None
    }
}

/// The index of the first character of `s` that is in `set`.
pub open spec fn first_index_in(s: Seq<char>, set: Seq<char>) -> Option<int>
    decreases s.len(),
{
    if s.len() == 0 {
        Option::None
    } else if set.contains(s[0]) {
        Some(0)
    } else {
        match first_index_in(s.drop_first(), set) {
            Some(k) => Some(k + 1),
            Option::None => Option::None,
        }
    }
}

pub proof fn lemma_first_index_in(s: Seq<char>, set: Seq<char>)
    ensures
        first_index_in(s, set) matches Some(k) ==> 0 <= k < s.len() && set.contains(s[k])
            && forall|j: int| 0 <= j < k ==> !set.contains(s[j]),
        first_index_in(s, set) is None ==> forall|j: int| 0 <= j < s.len() ==> !set.contains(s[j]),
    decreases s.len(),
{
    if s.len() > 0 {
        lemma_first_index_in(s.drop_first(), set);
        if !set.contains(s[0]) {
            assert forall|j: int| 0 < j < s.len() implies s[j] == s.drop_first()[j - 1] by {}
        }
    }
}

/// Finds the first character of `s` that is one of the characters of `set`.
pub fn find_any(s: &Vec<char>, set: &str) -> (r: Option<usize>)
    ensures
        r matches Some(k) ==> first_index_in(s@, set@) == Some(k as int) && k < s@.len(),
        r is None ==> first_index_in(s@, set@) is None,
{
    let sv = chars_of(set);
    let mut i: usize = 0;
    while i < s.len()
        invariant
            i <= s.len(),
            sv@ == set@,
            forall|j: int| 0 <= j < i ==> !set@.contains(s@[j]),
        decreases s.len() - i,
    {
        if contains_char(&sv, s[i]) {
            proof {
                lemma_first_index_in(s@, set@);
            }
            return Some(i);
        }
        i += 1;
    }
    proof {
        lemma_first_index_in(s@, set@);
    }
    Option::None
}

/// The characters of `s` before its first `c`, or all of `s` where it holds
/// none (`str::split(c).next()`).
pub open spec fn before_char(s: Seq<char>, c: char) -> Seq<char> {
    match first_index(s, c) {
        Some(k) => s.take(k),
        Option::None => s,
    }
}

/// The characters of `s` before its first `c`.
pub fn before_char_chars(s: &Vec<char>, c: char) -> (r: Vec<char>)
    ensures
        r@ == before_char(s@, c),
{
    proof {
        lemma_first_index(s@, c);
    }
    match find_char(s, c) {
        Some(k) => {
            assert(s@.subrange(0, k as int) =~= s@.take(k as int));
            subrange_chars(s, 0, k)
        },
        Option::None => {
            assert(s@.subrange(0, s@.len() as int) =~= s@);
            subrange_chars(s, 0, s.len())
        },
    }
}

/// The pieces of `s` from index `i` on, `cur` holding the piece begun before
/// `i`, split at each `c`.
pub open spec fn split_from(s: Seq<char>, c: char, i: int, cur: Seq<char>) -> Seq<Seq<char>>
    decreases s.len() - i,
{
    if i >= s.len() {
        seq![cur]
    } else if s[i] == c {
        seq![cur] + split_from(s, c, i + 1, Seq::empty())
    } else {
        split_from(s, c, i + 1, cur.push(s[i]))
    }
}

/// The pieces of `s` between the occurrences of `c` (`str::split` on a
/// character): one more piece than there are `c`s.
pub open spec fn split_char(s: Seq<char>, c: char) -> Seq<Seq<char>> {
    split_from(s, c, 0, Seq::empty())
}

/// Splits `s` at each `c`.
pub fn split_on_char(s: &Vec<char>, c: char) -> (r: Vec<Vec<char>>)
    ensures
        lines_view(r@) == split_char(s@, c),
{
    let mut r: Vec<Vec<char>> = Vec::new();
    let mut cur: Vec<char> = Vec::new();
    let mut i: usize = 0;
    while i < s.len()
        invariant
            i <= s.len(),
            lines_view(r@) + split_from(s@, c, i as int, cur@) == split_char(s@, c),
        decreases s.len() - i,
    {
        let ghost cur_before = cur@;
        let ghost before = r@;
        if s[i] == c {
            r.push(cur);
            assert(lines_view(r@) =~= lines_view(before).push(cur_before));
            cur = Vec::new();
            assert(lines_view(r@) + split_from(s@, c, i + 1, cur@) =~= lines_view(before) + split_from(s@, c, i as int, cur_before));
        } else {
            cur.push(s[i]);
        }
        i += 1;
    }
    let ghost before = r@;
    let ghost last = cur@;
    r.push(cur);
    assert(lines_view(r@) =~= lines_view(before) + split_from(s@, c, i as int, last));
    r
}

/// The words of `s` from index `i` on, `cur` holding the word begun before
/// `i`: the maximal runs of characters that are not whitespace.
pub open spec fn words_from(s: Seq<char>, i: int, cur: Seq<char>) -> Seq<Seq<char>>
    decreases s.len() - i,
{
    if i >= s.len() {
        if cur.len() == 0 { Seq::empty() } else { seq![cur] }
    } else if is_ws(s[i]) {
        (if cur.len() == 0 { Seq::empty() } else { seq![cur] }) + words_from(s, i + 1, Seq::empty())
    } else {
        words_from(s, i + 1, cur.push(s[i]))
    }
}

/// The words of `s`, as `str::split_whitespace` gives them.
pub open spec fn words(s: Seq<char>) -> Seq<Seq<char>> {
    words_from(s, 0, Seq::empty())
}

/// Splits `s` into its words.
pub fn split_words(s: &Vec<char>) -> (r: Vec<Vec<char>>)
    ensures
        lines_view(r@) == words(s@),
{
    let mut r: Vec<Vec<char>> = Vec::new();
    let mut cur: Vec<char> = Vec::new();
    let mut i: usize = 0;
    while i < s.len()
        invariant
            i <= s.len(),
            lines_view(r@) + words_from(s@, i as int, cur@) == words(s@),
        decreases s.len() - i,
    {
        let ghost cur_before = cur@;
        let ghost before = r@;
        if is_whitespace(s[i]) {
            if cur.len() > 0 {
                r.push(cur);
                assert(lines_view(r@) =~= lines_view(before).push(cur_before));
            } else {
                assert(lines_view(r@) =~= lines_view(before) + Seq::<Seq<char>>::empty());
            }
            cur = Vec::new();
            assert(lines_view(r@) + words_from(s@, i + 1, cur@) =~= lines_view(before) + words_from(s@, i as int, cur_before));
        } else {
            cur.push(s[i]);
        }
        i += 1;
    }
    if cur.len() > 0 {
        let ghost before = r@;
        r.push(cur);
        assert(lines_view(r@) =~= lines_view(before) + words_from(s@, i as int, r@.last()@));
    } else {
        assert(lines_view(r@) =~= lines_view(r@) + words_from(s@, i as int, cur@));
    }
    r
}

/// The index of the first occurrence of `p` in `s` at or after `i`.
pub open spec fn find_from(s: Seq<char>, p: Seq<char>, i: int) -> Option<int>
    decreases s.len() + 1 - i,
{
    if i < 0 || i + p.len() > s.len() {
        Option::None
    } else if occurs_at(s, p, i) {
        Some(i)
    } else {
        find_from(s, p, i + 1)
    }
}

/// The index of the first occurrence of `p` in `s` (`str::find` on a string).
pub open spec fn find_seq(s: Seq<char>, p: Seq<char>) -> Option<int> {
    find_from(s, p, 0)
}

/// Finds the first occurrence of the characters of `p` in `s`.
pub fn find_str(s: &Vec<char>, p: &str) -> (r: Option<usize>)
    ensures
        r matches Some(k) ==> find_seq(s@, p@) == Some(k as int) && k + p@.len() <= s@.len(),
        r is None ==> find_seq(s@, p@) is None,
{
    let pv = chars_of(p);
    if pv.len() > s.len() {
        return Option::None;
    }
    let last = s.len() - pv.len();
    let mut i: usize = 0;
    while i <= last
        invariant
            last == s.len() - pv.len(),
            i <= last + 1,
            pv@ == p@,
            find_from(s@, p@, i as int) == find_seq(s@, p@),
        decreases last + 1 - i,
    {
        if occurs_at_exec(s, &pv, i) {
            return Some(i);
        }
        if i == last {
            return Option::None;
        }
        i += 1;
    }
    Option::None
}

/// The numeric value of the decimal digit `c`.
pub open spec fn digit_value(c: char) -> nat {
    ((c as u32) - ('0' as u32)) as nat
}

/// Whether `c` is a decimal digit.
pub open spec fn is_digit(c: char) -> bool {
    '0' <= c && c <= '9'
}

/// The value of the decimal numeral `s`.
pub open spec fn digits_value(s: Seq<char>) -> nat
    decreases s.len(),
{
    if s.len() == 0 { 0 } else { digits_value(s.drop_last()) * 10 + digit_value(s.last()) }
}

/// The digits of an unsigned numeral: one leading `+` is allowed.
pub open spec fn unsigned_digits(s: Seq<char>) -> Seq<char> {
    if s.len() > 1 && s[0] == '+' { s.drop_first() } else { s }
}

/// What `str::parse::<u32>` accepts: an optional `+`, then at least one
/// decimal digit, with a value that fits in 32 bits.
pub open spec fn parse_u32(s: Seq<char>) -> Option<u32> {
    let d = unsigned_digits(s);
    if d.len() > 0 && (forall|k: int| 0 <= k < d.len() ==> is_digit(#[trigger] d[k]))
        && digits_value(d) <= u32::MAX {
        Some(digits_value(d) as u32)
    } else {
        Option::None
    }
}

proof fn lemma_digits_value_prefix(s: Seq<char>, k: int)
    requires
        0 <= k <= s.len(),
    ensures
        digits_value(s.take(k)) <= digits_value(s),
    decreases s.len(),
{
    if k < s.len() {
        assert(s.drop_last().take(k) == s.take(k));
        lemma_digits_value_prefix(s.drop_last(), k);
    } else {
        assert(s.take(k) == s);
    }
}

/// Parses `s` as a `u32` the way `str::parse::<u32>` does.
pub fn parse_u32_chars(s: &Vec<char>) -> (r: Option<u32>)
    ensures
        r == parse_u32(s@),
{
    let start: usize = if s.len() > 1 && s[0] == '+' { 1 } else { 0 };
    let ghost d = unsigned_digits(s@);
    assert(d == s@.skip(start as int));
    if start >= s.len() {
        return Option::None;
    }
    let mut acc: u64 = 0;
    let mut i: usize = start;
    while i < s.len()
        invariant
            start <= i <= s.len(),
            d == s@.skip(start as int),
            d == unsigned_digits(s@),
            acc == digits_value(d.take(i - start)),
            acc <= u32::MAX,
            forall|k: int| 0 <= k < i - start ==> is_digit(#[trigger] d[k]),
        decreases s.len() - i,
    {
        let c = s[i];
        let ghost k = i - start;
        assert(d[k] == c);
        if !('0' <= c && c <= '9') {
            assert(!is_digit(d[k]));
            assert(!(forall|j: int| 0 <= j < d.len() ==> is_digit(#[trigger] d[j])));
            assert(parse_u32(s@) is None);
            return Option::None;
        }
        let dv = ((c as u32) - ('0' as u32)) as u64;
        assert(dv == digit_value(c));
        assert(d.take(k + 1).drop_last() == d.take(k));
        assert(d.take(k + 1).last() == c);
        let next = acc * 10 + dv;
        assert(next == digits_value(d.take(k + 1)));
        i += 1;
        if next > 0xffff_ffff {
            proof {
                lemma_digits_value_prefix(d, k + 1);
            }
            assert(digits_value(d) > u32::MAX);
            assert(parse_u32(s@) is None);
            return Option::None;
        }
        acc = next;
    }
    assert(d.take(s.len() - start) == d);
    Some(acc as u32)
}

/// The first `n` items of `items`, joined with `sep` between them.
pub fn join_prefix(items: &Vec<Vec<char>>, n: usize, sep: &str) -> (r: Vec<char>)
    requires
        n <= items.len(),
    ensures
        r@ == crate::text::join(lines_view(items@).take(n as int), sep@),
{
    let sv = chars_of(sep);
    let mut r: Vec<char> = Vec::new();
    let mut i: usize = 0;
    while i < n
        invariant
            i <= n <= items.len(),
            sv@ == sep@,
            r@ == crate::text::join(lines_view(items@).take(i as int), sep@),
        decreases n - i,
    {
        let ghost before = lines_view(items@).take(i as int);
        if i > 0 {
            append_chars(&mut r, &sv);
        }
        append_chars(&mut r, &items[i]);
        i += 1;
        assert(lines_view(items@).take(i as int).drop_last() == before);
        if i == 1 {
            assert(before.len() == 0);
        }
    }
    r
}

/// Appends the characters of `b` to `a`.
pub fn append_chars(a: &mut Vec<char>, b: &Vec<char>)
    ensures
        final(a)@ == old(a)@ + b@,
{
    let mut i: usize = 0;
    while i < b.len()
        invariant
            i <= b.len(),
            a@ == old(a)@ + b@.take(i as int),
        decreases b.len() - i,
    {
        a.push(b[i]);
        i += 1;
        assert(b@.take(i as int) == b@.take(i - 1).push(b@[i - 1]));
    }
    assert(b@.take(b.len() as int) == b@);
}


// ---------------------------------------------------------------- facts on lines

/// The text made of the lines `ls`, each followed by a line break.
pub open spec fn unlines(ls: Seq<Seq<char>>) -> Seq<char>
    decreases ls.len(),
{
    if ls.len() == 0 {
        Seq::empty()
    } else {
        ls[0] + seq!['\n'] + unlines(ls.drop_first())
    }
}

/// Whether `l` can stand as one line: it holds no line break and does not end
/// with a carriage return.
pub open spec fn is_line(l: Seq<char>) -> bool {
    !l.contains('\n') && !(l.len() > 0 && l.last() == '\r')
}

proof fn lemma_lines_from_shift(p: Seq<char>, q: Seq<char>, j: int, cur: Seq<char>)
    requires
        0 <= j,
    ensures
        lines_from(p + q, p.len() + j, cur) == lines_from(q, j, cur),
    decreases q.len() - j,
{
    if j < q.len() {
        assert((p + q)[p.len() + j] == q[j]);
        if q[j] == '\n' {
            lemma_lines_from_shift(p, q, j + 1, Seq::empty());
        } else {
            lemma_lines_from_shift(p, q, j + 1, cur.push(q[j]));
        }
    }
}

proof fn lemma_lines_from_run(s: Seq<char>, i: int, k: int, cur: Seq<char>)
    requires
        0 <= i,
        0 <= k,
        i + k <= s.len(),
        forall|m: int| i <= m < i + k ==> s[m] != '\n',
    ensures
        lines_from(s, i, cur) == lines_from(s, i + k, cur + s.subrange(i, i + k)),
    decreases k,
{
    if k > 0 {
        lemma_lines_from_run(s, i + 1, k - 1, cur.push(s[i]));
        assert(cur.push(s[i]) + s.subrange(i + 1, i + k) =~= cur + s.subrange(i, i + k));
    } else {
        assert(cur + s.subrange(i, i) =~= cur);
    }
}

/// The lines of a text that begins with a line `x` are `x` and the lines of
/// the rest.
pub proof fn lemma_lines_line(x: Seq<char>, rest: Seq<char>)
    requires
        !x.contains('\n'),
    ensures
        lines(x + seq!['\n'] + rest) == seq![strip_cr(x)] + lines(rest),
{
    let s = x + seq!['\n'] + rest;
    assert forall|m: int| 0 <= m < x.len() implies s[m] != '\n' by {
        assert(s[m] == x[m]);
    }
    lemma_lines_from_run(s, 0, x.len() as int, Seq::empty());
    assert(Seq::<char>::empty() + s.subrange(0, x.len() as int) =~= x);
    assert(s[x.len() as int] == '\n');
    assert(s == (x + seq!['\n']) + rest);
    lemma_lines_from_shift(x + seq!['\n'], rest, 0, Seq::empty());
}

/// Reading the lines of a text made of lines gives those lines back.
pub proof fn lemma_lines_unlines(ls: Seq<Seq<char>>)
    requires
        forall|i: int| 0 <= i < ls.len() ==> is_line(#[trigger] ls[i]),
    ensures
        lines(unlines(ls)) == ls,
    decreases ls.len(),
{
    if ls.len() == 0 {
        assert(lines(Seq::<char>::empty()) == Seq::<Seq<char>>::empty());
    } else {
        assert(is_line(ls[0]));
        assert forall|i: int| 0 <= i < ls.drop_first().len() implies is_line(#[trigger] ls.drop_first()[i]) by {
            assert(ls.drop_first()[i] == ls[i + 1]);
        }
        lemma_lines_unlines(ls.drop_first());
        lemma_lines_line(ls[0], unlines(ls.drop_first()));
        assert(strip_cr(ls[0]) == ls[0]);
        assert(seq![ls[0]] + ls.drop_first() =~= ls);
    }
}

/// The text of two runs of lines is the text of the first, then that of the second.
pub proof fn lemma_unlines_add(a: Seq<Seq<char>>, b: Seq<Seq<char>>)
    ensures
        unlines(a + b) == unlines(a) + unlines(b),
    decreases a.len(),
{
    if a.len() == 0 {
        assert(a + b =~= b);
        assert(unlines(a) + unlines(b) =~= unlines(b));
    } else {
        assert((a + b).drop_first() =~= a.drop_first() + b);
        assert((a + b)[0] == a[0]);
        lemma_unlines_add(a.drop_first(), b);
        assert(unlines(a + b) =~= unlines(a) + unlines(b));
    }
}

/// The text of one line.
pub proof fn lemma_unlines_one(l: Seq<char>)
    ensures
        unlines(seq![l]) == l + seq!['\n'],
{
    assert(seq![l].drop_first() =~= Seq::<Seq<char>>::empty());
    assert(unlines(Seq::<Seq<char>>::empty()) == Seq::<char>::empty());
    assert(seq![l][0] == l);
    assert(l + seq!['\n'] + Seq::<char>::empty() =~= l + seq!['\n']);
}

/// Trimming a text that begins and ends with no whitespace changes nothing.
pub proof fn lemma_trim_unchanged(s: Seq<char>)
    requires
        s.len() > 0 ==> !is_ws(s[0]) && !is_ws(s.last()),
    ensures
        trim(s) == s,
{
}

/// Trimming drops whitespace put in front of a text.
pub proof fn lemma_trim_start_after_ws(w: Seq<char>, s: Seq<char>)
    requires
        forall|i: int| 0 <= i < w.len() ==> is_ws(#[trigger] w[i]),
    ensures
        trim_start(w + s) == trim_start(s),
    decreases w.len(),
{
    if w.len() > 0 {
        assert(is_ws(w[0]));
        assert((w + s)[0] == w[0]);
        assert((w + s).drop_first() =~= w.drop_first() + s);
        assert forall|i: int| 0 <= i < w.drop_first().len() implies is_ws(#[trigger] w.drop_first()[i]) by {
            assert(w.drop_first()[i] == w[i + 1]);
        }
        lemma_trim_start_after_ws(w.drop_first(), s);
    } else {
        assert(w + s =~= s);
    }
}

/// Whether `c` may stand in an identifier: an ASCII letter or digit, or `_`.
pub open spec fn is_ident_char(c: char) -> bool {
    ('a' <= c && c <= 'z') || ('A' <= c && c <= 'Z') || ('0' <= c && c <= '9') || c == '_'
}

/// Whether `s` is a word: one or more ASCII letters, digits or underscores.
pub open spec fn is_word(s: Seq<char>) -> bool {
    s.len() > 0 && forall|i: int| 0 <= i < s.len() ==> is_ident_char(#[trigger] s[i])
}

/// A word holds no character that is not an identifier character.
pub proof fn lemma_word_lacks(s: Seq<char>, c: char)
    requires
        is_word(s),
        !is_ident_char(c),
    ensures
        !s.contains(c),
        first_index(s, c) is None,
        last_index(s, c) is None,
{
    lemma_first_index(s, c);
    lemma_last_index(s, c);
}

/// A text does not begin with `p` where it differs from `p` at some index
/// below the length of both.
pub proof fn lemma_not_starts_with(s: Seq<char>, p: Seq<char>, i: int)
    requires
        0 <= i < p.len(),
        i < s.len(),
        s[i] != p[i],
    ensures
        !starts_with(s, p),
{
    if starts_with(s, p) {
        assert(s.take(p.len() as int)[i] == s[i]);
    }
}

/// A text begins with `p` where it is `p` followed by anything.
pub proof fn lemma_starts_with_concat(p: Seq<char>, rest: Seq<char>)
    ensures
        starts_with(p + rest, p),
        after_prefix(p + rest, p) == rest,
{
    assert((p + rest).take(p.len() as int) =~= p);
    assert((p + rest).skip(p.len() as int) =~= rest);
}

/// The first `c` of `a + seq![c] + b` is at the end of `a`, where `a` holds none.
pub proof fn lemma_first_index_at(a: Seq<char>, c: char, b: Seq<char>)
    requires
        !a.contains(c),
    ensures
        first_index(a + seq![c] + b, c) == Some(a.len() as int),
    decreases a.len(),
{
    if a.len() > 0 {
        assert(a[0] != c);
        assert((a + seq![c] + b).drop_first() =~= a.drop_first() + seq![c] + b);
        assert(!a.drop_first().contains(c)) by {
            if a.drop_first().contains(c) {
                let k = choose|k: int| 0 <= k < a.drop_first().len() && a.drop_first()[k] == c;
                assert(a[k + 1] == c);
            }
        }
        lemma_first_index_at(a.drop_first(), c, b);
    } else {
        assert(a + seq![c] + b =~= seq![c] + b);
    }
}

/// The last `c` of `a + seq![c] + b` is at the end of `a`, where `b` holds none.
pub proof fn lemma_last_index_at(a: Seq<char>, c: char, b: Seq<char>)
    requires
        !b.contains(c),
    ensures
        last_index(a + seq![c] + b, c) == Some(a.len() as int),
    decreases b.len(),
{
    if b.len() > 0 {
        assert(b.last() != c);
        assert((a + seq![c] + b).drop_last() =~= a + seq![c] + b.drop_last());
        assert(!b.drop_last().contains(c)) by {
            if b.drop_last().contains(c) {
                let k = choose|k: int| 0 <= k < b.drop_last().len() && b.drop_last()[k] == c;
                assert(b[k] == c);
            }
        }
        lemma_last_index_at(a, c, b.drop_last());
    } else {
        assert(a + seq![c] + b =~= a.push(c));
    }
}

/// Trailing characters of a set are dropped from the end only.
pub proof fn lemma_trim_end_in_unchanged(s: Seq<char>, set: Seq<char>)
    requires
        s.len() > 0 ==> !set.contains(s.last()),
    ensures
        trim_end_in(s, set) == s,
{
}

/// Dropping the trailing characters of a set from `s + seq![c]`, where `c`
/// is in the set and `s` does not end with one of them.
pub proof fn lemma_trim_end_in_one(s: Seq<char>, c: char, set: Seq<char>)
    requires
        set.contains(c),
        s.len() > 0 ==> !set.contains(s.last()),
    ensures
        trim_end_in(s + seq![c], set) == s,
{
    assert((s + seq![c]).drop_last() =~= s);
    assert((s + seq![c]).last() == c);
    lemma_trim_end_in_unchanged(s, set);
}

/// A text made of two that lack a character lacks it too.
pub proof fn lemma_lacks_concat(a: Seq<char>, b: Seq<char>, c: char)
    requires
        !a.contains(c),
        !b.contains(c),
    ensures
        !(a + b).contains(c),
{
    if (a + b).contains(c) {
        let k = choose|k: int| 0 <= k < (a + b).len() && (a + b)[k] == c;
        if k < a.len() {
            assert(a[k] == c);
        } else {
            assert(b[k - a.len()] == c);
        }
    }
}

} // verus!
