use vstd::prelude::*;

verus! {

/// `String::push` appends one character at the end of the string.
pub assume_specification[ String::push ](s: &mut String, ch: char)
    ensures
        final(s)@ == old(s)@.push(ch),
;

/// The characters of `s`, in order, as a vector.
pub fn chars_of(s: &str) -> (r: Vec<char>)
    ensures
        r@ == s@,
{
    let mut r: Vec<char> = Vec::new();
    for c in it: s.chars()
        invariant
            r@ == it.seq().take(it.index() as int),
            it.seq() == s@,
    {
        r.push(c);
    }
    r
}

/// A string made of the characters of `v`, in order.
pub fn string_of(v: &Vec<char>) -> (r: String)
    ensures
        r@ == v@,
{
    let mut r = String::new();
    let mut i: usize = 0;
    while i < v.len()
        invariant
            i <= v.len(),
            r@ == v@.take(i as int),
        decreases v.len() - i,
    {
        r.push(v[i]);
        i += 1;
        assert(v@.take(i as int) == v@.take((i - 1) as int).push(v@[i - 1]));
    }
    assert(v@.take(v.len() as int) == v@);
    r
}

/// Whether two string slices hold the same characters.
pub fn eq_str(a: &str, b: &str) -> (r: bool)
    ensures
        r == (a@ == b@),
{
    let x = chars_of(a);
    let y = chars_of(b);
    eq_chars(&x, &y)
}

/// Whether two character vectors are equal.
pub fn eq_chars(x: &Vec<char>, y: &Vec<char>) -> (r: bool)
    ensures
        r == (x@ == y@),
{
    if x.len() != y.len() {
        return false;
    }
    let mut i: usize = 0;
    while i < x.len()
        invariant
            i <= x.len(),
            x.len() == y.len(),
            forall|j: int| 0 <= j < i ==> x@[j] == y@[j],
        decreases x.len() - i,
    {
        if x[i] != y[i] {
            return false;
        }
        i += 1;
    }
    assert(x@ =~= y@);
    true
}

/// Whether a character vector holds the characters of a string slice.
pub fn chars_eq_str(x: &Vec<char>, b: &str) -> (r: bool)
    ensures
        r == (x@ == b@),
{
    let y = chars_of(b);
    eq_chars(x, &y)
}

/// The decimal digit `d` (below ten) as a character.
pub open spec fn digit_char(d: nat) -> char {
    if d == 0 { '0' }
    else if d == 1 { '1' }
    else if d == 2 { '2' }
    else if d == 3 { '3' }
    else if d == 4 { '4' }
    else if d == 5 { '5' }
    else if d == 6 { '6' }
    else if d == 7 { '7' }
    else if d == 8 { '8' }
    else { '9' }
}

/// The decimal representation of `n`, without leading zeros (`"0"` for zero).
pub open spec fn decimal(n: nat) -> Seq<char>
    decreases n,
{
    if n < 10 {
        seq![digit_char(n)]
    } else {
        decimal(n / 10).push(digit_char(n % 10))
    }
}

fn digit_of(d: u64) -> (c: char)
    requires
        d < 10,
    ensures
        c == digit_char(d as nat),
{
    if d == 0 { '0' }
    else if d == 1 { '1' }
    else if d == 2 { '2' }
    else if d == 3 { '3' }
    else if d == 4 { '4' }
    else if d == 5 { '5' }
    else if d == 6 { '6' }
    else if d == 7 { '7' }
    else if d == 8 { '8' }
    else { '9' }
}

/// Appends the decimal representation of `n` to `out`.
pub fn push_decimal(out: &mut String, n: u64)
    ensures
        final(out)@ == old(out)@ + decimal(n as nat),
    decreases n,
{
    if n < 10 {
        out.push(digit_of(n));
        assert(old(out)@.push(digit_char(n as nat)) == old(out)@ + seq![digit_char(n as nat)]);
    } else {
        push_decimal(out, n / 10);
        out.push(digit_of(n % 10));
        assert(decimal(n as nat) == decimal((n / 10) as nat).push(digit_char((n % 10) as nat)));
    }
}

/// The number of bytes that the UTF-8 encoding of `c` takes.
pub open spec fn utf8_char_len(c: char) -> nat {
    if (c as u32) < 0x80 { 1 }
    else if (c as u32) < 0x800 { 2 }
    else if (c as u32) < 0x10000 { 3 }
    else { 4 }
}

/// The number of bytes that the UTF-8 encoding of `s` takes.
pub open spec fn utf8_len(s: Seq<char>) -> nat
    decreases s.len(),
{
    if s.len() == 0 { 0 } else { utf8_len(s.drop_last()) + utf8_char_len(s.last()) }
}

/// The UTF-8 length of `s`, or `usize::MAX` where it would not fit.
pub fn utf8_len_of(s: &str) -> (r: usize)
    ensures
        utf8_len(s@) <= usize::MAX ==> r == utf8_len(s@),
        utf8_len(s@) > usize::MAX ==> r == usize::MAX,
{
    let v = chars_of(s);
    let mut total: usize = 0;
    let mut i: usize = 0;
    while i < v.len()
        invariant
            i <= v.len(),
            v@ == s@,
            utf8_len(v@.take(i as int)) <= usize::MAX ==> total == utf8_len(v@.take(i as int)),
            utf8_len(v@.take(i as int)) > usize::MAX ==> total == usize::MAX,
        decreases v.len() - i,
    {
        let c = v[i];
        let k: usize = if (c as u32) < 0x80 { 1 } else if (c as u32) < 0x800 { 2 } else if (c as u32) < 0x10000 { 3 } else { 4 };
        assert(v@.take(i + 1).drop_last() == v@.take(i as int));
        if total == usize::MAX || total > usize::MAX - k {
            total = usize::MAX;
        } else {
            total = total + k;
        }
        i += 1;
    }
    assert(v@.take(v.len() as int) == v@);
    total
}

/// What `str::to_uppercase` returns for a string with the given characters.
pub uninterp spec fn str_upper(s: Seq<char>) -> Seq<char>;

/// What `str::to_lowercase` returns for a string with the given characters.
pub uninterp spec fn str_lower(s: Seq<char>) -> Seq<char>;

/// What `char::to_uppercase` yields for a character, collected into a string.
pub uninterp spec fn char_upper(c: char) -> Seq<char>;

/// Calls `str::to_uppercase`: the Unicode uppercase mapping of `s`. Its result
/// depends on `s` alone; what it is for given characters is not stated here.
#[verifier::external_body]
pub fn to_uppercase(s: &str) -> (r: String)
    ensures
        r@ == str_upper(s@),
{
    s.to_uppercase()
}

/// Calls `str::to_lowercase`: the Unicode lowercase mapping of `s`. Its result
/// depends on `s` alone; what it is for given characters is not stated here.
#[verifier::external_body]
pub fn to_lowercase(s: &str) -> (r: String)
    ensures
        r@ == str_lower(s@),
{
    s.to_lowercase()
}

/// Calls `char::to_uppercase` and collects what it yields into a string. The
/// result depends on `c` alone; what it is for a given character is not stated.
#[verifier::external_body]
pub fn char_to_uppercase(c: char) -> (r: String)
    ensures
        r@ == char_upper(c),
{
    c.to_uppercase().collect::<String>()
}

/// `s` with its first character replaced by that character's uppercase form.
pub open spec fn capitalised(s: Seq<char>) -> Seq<char> {
    if s.len() == 0 { Seq::empty() } else { char_upper(s[0]) + s.drop_first() }
}

/// Returns `s` with its first character in uppercase and the rest unchanged.
pub fn capitalise(s: &str) -> (r: String)
    ensures
        r@ == capitalised(s@),
{
    let n = s.unicode_len();
    if n == 0 {
        return String::new();
    }
    let c = s.get_char(0);
    let rest = s.substring_char(1, n);
    let mut r = char_to_uppercase(c);
    r.append(rest);
    r
}

/// `items` joined with `sep` between consecutive ones.
pub open spec fn join(items: Seq<Seq<char>>, sep: Seq<char>) -> Seq<char>
    decreases items.len(),
{
    if items.len() == 0 {
        Seq::empty()
    } else if items.len() == 1 {
        items[0]
    } else {
        join(items.drop_last(), sep) + sep + items.last()
    }
}

pub open spec fn strings_view(v: Seq<String>) -> Seq<Seq<char>> {
    v.map_values(|s: String| s@)
}

/// Joins `items` with `sep` between consecutive ones.
pub fn join_strings(items: &Vec<String>, sep: &str) -> (r: String)
    ensures
        r@ == join(strings_view(items@), sep@),
{
    let mut r = String::new();
    let mut i: usize = 0;
    while i < items.len()
        invariant
            i <= items.len(),
            r@ == join(strings_view(items@).take(i as int), sep@),
        decreases items.len() - i,
    {
        let ghost before = strings_view(items@).take(i as int);
        if i > 0 {
            r.append(sep);
        }
        r.append(items[i].as_str());
        i += 1;
        assert(strings_view(items@).take(i as int).drop_last() == before);
        assert(strings_view(items@).take(i as int).last() == items@[i - 1]@);
        if i == 1 {
            assert(r@ == join(strings_view(items@).take(i as int), sep@)) by {
                assert(before.len() == 0);
            }
        }
    }
    assert(strings_view(items@).take(items.len() as int) == strings_view(items@));
    r
}

} // verus!
