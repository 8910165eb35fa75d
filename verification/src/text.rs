//! Text: what the request grammar and the error messages need of strings, over their characters.

use vstd::prelude::*;
use vstd::utf8::{decode_utf8, encode_utf8, valid_utf8};

verus! {

// ---------------------------------------------------------------------------------------------
// Trusted: std functions on strings
// ---------------------------------------------------------------------------------------------

/// `String::push` appends one character.
#[verifier::external_body]
pub(crate) fn push_char(s: &mut String, c: char)
    ensures
        final(s)@ == old(s)@.push(c),
{
    s.push(c)
}

/// `String::from_utf8` succeeds exactly on valid UTF-8, and then holds the decoded characters.
#[verifier::external_body]
pub(crate) fn string_from_utf8(bytes: Vec<u8>) -> (r: Option<String>)
    ensures
        r is Some == valid_utf8(bytes@),
        r matches Some(s) ==> s@ == decode_utf8(bytes@),
{
    String::from_utf8(bytes).ok()
}

/// What `{:?}` writes for a string: quoted, with the characters escaped that std escapes.
pub uninterp spec fn debug_text(s: Seq<char>) -> Seq<char>;

/// `format!("{:?}")` of a string; the escapes are std's and are not restated.
#[verifier::external_body]
pub(crate) fn debug(s: &str) -> (r: String)
    ensures
        r@ == debug_text(s@),
{
    format!("{:?}", s)
}

// ---------------------------------------------------------------------------------------------
// Characters
// ---------------------------------------------------------------------------------------------

/// The characters with the Unicode property White_Space.
pub open spec fn is_white(c: char) -> bool {
    ||| '\u{9}' <= c <= '\u{d}'
    ||| c == '\u{20}'
    ||| c == '\u{85}'
    ||| c == '\u{a0}'
    ||| c == '\u{1680}'
    ||| '\u{2000}' <= c <= '\u{200a}'
    ||| c == '\u{2028}'
    ||| c == '\u{2029}'
    ||| c == '\u{202f}'
    ||| c == '\u{205f}'
    ||| c == '\u{3000}'
}

/// Whether a character is white space.
pub fn white(c: char) -> (r: bool)
    ensures
        r == is_white(c),
{
    ('\u{9}' <= c && c <= '\u{d}') || c == '\u{20}' || c == '\u{85}' || c == '\u{a0}' || c
        == '\u{1680}' || ('\u{2000}' <= c && c <= '\u{200a}') || c == '\u{2028}' || c == '\u{2029}'
        || c == '\u{202f}' || c == '\u{205f}' || c == '\u{3000}'
}

/// The lower-case form of an ASCII letter; every other character unchanged.
pub open spec fn ascii_lower(c: char) -> char {
    if 'A' <= c <= 'Z' {
        (c as u32 + 32) as char
    } else {
        c
    }
}

/// [`ascii_lower`].
pub fn lower(c: char) -> (r: char)
    ensures
        r == ascii_lower(c),
{
    if 'A' <= c && c <= 'Z' {
        ((c as u8) + 32) as char
    } else {
        c
    }
}

/// `0` to `9`.
pub open spec fn is_digit(c: char) -> bool {
    '0' <= c <= '9'
}

/// The value of a decimal digit.
pub open spec fn digit_value(c: char) -> nat {
    (c as u32 - '0' as u32) as nat
}

// ---------------------------------------------------------------------------------------------
// Sequences of characters
// ---------------------------------------------------------------------------------------------

/// The characters of each string.
pub open spec fn texts(v: Seq<&str>) -> Seq<Seq<char>> {
    v.map_values(|s: &str| s@)
}

/// The characters of each owned string.
pub open spec fn strings(v: Seq<String>) -> Seq<Seq<char>> {
    v.map_values(|s: String| s@)
}

/// The characters of an optional string.
pub open spec fn opt_text(o: Option<&str>) -> Option<Seq<char>> {
    match o {
        Some(s) => Some(s@),
        None => None,
    }
}

/// The characters of an optional owned string.
pub open spec fn opt_string(o: Option<String>) -> Option<Seq<char>> {
    match o {
        Some(s) => Some(s@),
        None => None,
    }
}

/// `s` without its leading white space.
pub open spec fn trim_start(s: Seq<char>) -> Seq<char>
    decreases s.len(),
{
    if s.len() > 0 && is_white(s[0]) {
        trim_start(s.skip(1))
    } else {
        s
    }
}

/// `s` without its trailing white space.
pub open spec fn trim_end(s: Seq<char>) -> Seq<char>
    decreases s.len(),
{
    if s.len() > 0 && is_white(s[s.len() - 1]) {
        trim_end(s.take(s.len() - 1))
    } else {
        s
    }
}

/// `s` without white space at either end.
pub open spec fn trimmed(s: Seq<char>) -> Seq<char> {
    trim_end(trim_start(s))
}

/// `s` without its trailing run of `c`.
pub open spec fn trim_end_of(s: Seq<char>, c: char) -> Seq<char>
    decreases s.len(),
{
    if s.len() > 0 && s[s.len() - 1] == c {
        trim_end_of(s.take(s.len() - 1), c)
    } else {
        s
    }
}

/// Where `c` first stands in `s`; the length of `s` where it does not.
pub open spec fn first_index(s: Seq<char>, c: char) -> int
    decreases s.len(),
{
    if s.len() == 0 || s[0] == c {
        0
    } else {
        1 + first_index(s.skip(1), c)
    }
}

/// The pieces of `s` between the separators `c`; at least one, possibly empty.
pub open spec fn split_on(s: Seq<char>, c: char) -> Seq<Seq<char>>
    decreases s.len(),
{
    let i = first_index(s, c);
    if 0 <= i < s.len() {
        seq![s.take(i)] + split_on(s.skip(i + 1), c)
    } else {
        seq![s]
    }
}

/// What stands before and behind the first `c`.
pub open spec fn split_once_on(s: Seq<char>, c: char) -> Option<(Seq<char>, Seq<char>)> {
    let i = first_index(s, c);
    if i < s.len() {
        Some((s.take(i), s.skip(i + 1)))
    } else {
        None
    }
}

/// Whether `p` stands in `s` at `i`.
pub open spec fn stands_at(s: Seq<char>, p: Seq<char>, i: int) -> bool {
    0 <= i && i + p.len() <= s.len() && s.subrange(i, i + p.len()) == p
}

/// Where `p` first stands in `s`; the length of `s` plus one where it does not.
pub open spec fn first_match(s: Seq<char>, p: Seq<char>) -> int
    decreases s.len(),
{
    if stands_at(s, p, 0) {
        0
    } else if s.len() == 0 {
        1
    } else {
        1 + first_match(s.skip(1), p)
    }
}

/// What stands before and behind the first `p`.
pub open spec fn split_once_at(s: Seq<char>, p: Seq<char>) -> Option<(Seq<char>, Seq<char>)> {
    let i = first_match(s, p);
    if i <= s.len() {
        Some((s.take(i), s.skip(i + p.len())))
    } else {
        None
    }
}

/// Whether `s` begins with `p`.
pub open spec fn begins(s: Seq<char>, p: Seq<char>) -> bool {
    p.len() <= s.len() && s.take(p.len() as int) == p
}

/// Whether `s` ends with `p`.
pub open spec fn ends(s: Seq<char>, p: Seq<char>) -> bool {
    p.len() <= s.len() && s.skip(s.len() - p.len()) == p
}

/// `s` behind the prefix `p`.
pub open spec fn without_prefix(s: Seq<char>, p: Seq<char>) -> Option<Seq<char>> {
    if begins(s, p) {
        Some(s.skip(p.len() as int))
    } else {
        None
    }
}

/// `s` before the suffix `p`.
pub open spec fn without_suffix(s: Seq<char>, p: Seq<char>) -> Option<Seq<char>> {
    if ends(s, p) {
        Some(s.take(s.len() - p.len()))
    } else {
        None
    }
}

/// Equal but for the case of ASCII letters.
pub open spec fn same_but_case(a: Seq<char>, b: Seq<char>) -> bool {
    &&& a.len() == b.len()
    &&& forall|i: int| 0 <= i < a.len() ==> ascii_lower(#[trigger] a[i]) == ascii_lower(b[i])
}

/// The first `n` characters, or all of them.
pub open spec fn first_chars(s: Seq<char>, n: nat) -> Seq<char> {
    if s.len() <= n {
        s
    } else {
        s.take(n as int)
    }
}

/// `s` with every `from` replaced by `to`.
pub open spec fn replaced(s: Seq<char>, from: char, to: char) -> Seq<char> {
    s.map_values(
        |c: char|
            if c == from {
                to
            } else {
                c
            },
    )
}

/// The digit of a value below ten.
pub open spec fn digit(n: nat) -> char {
    (48 + n) as char
}

/// `n` in decimal, without leading zeros.
pub open spec fn decimal(n: nat) -> Seq<char>
    decreases n,
{
    if n < 10 {
        seq![digit(n)]
    } else {
        decimal(n / 10).push(digit(n % 10))
    }
}

/// `i` in decimal, with a sign where it is negative.
pub open spec fn signed_decimal(i: int) -> Seq<char> {
    if i < 0 {
        seq!['-'] + decimal((-i) as nat)
    } else {
        decimal(i as nat)
    }
}

/// Whether every character is a decimal digit.
pub open spec fn all_digits(s: Seq<char>) -> bool {
    forall|i: int| 0 <= i < s.len() ==> is_digit(#[trigger] s[i])
}

/// The number that a sequence of digits writes.
pub open spec fn digits_value(s: Seq<char>) -> nat
    decreases s.len(),
{
    if s.len() == 0 {
        0
    } else {
        10 * digits_value(s.take(s.len() - 1)) + digit_value(s[s.len() - 1])
    }
}

/// The unsigned number that `s` writes, at most `max`: decimal digits behind an optional `+`.
pub open spec fn unsigned(s: Seq<char>, max: nat) -> Option<nat> {
    let d = if s.len() > 0 && s[0] == '+' {
        s.skip(1)
    } else {
        s
    };
    if d.len() > 0 && all_digits(d) && digits_value(d) <= max {
        Some(digits_value(d))
    } else {
        None
    }
}

// ---------------------------------------------------------------------------------------------
// Executable forms
// ---------------------------------------------------------------------------------------------

/// The characters of a string.
pub fn chars_of(s: &str) -> (r: Vec<char>)
    ensures
        r@ == s@,
{
    let mut out: Vec<char> = Vec::new();
    for c in it: s.chars()
        invariant
            it.seq() == s@,
            out@ == s@.take(it.index() as int),
    {
        assert(s@.take(it.index() + 1) =~= s@.take(it.index() as int).push(c));
        out.push(c);
    }
    assert(s@.take(s@.len() as int) =~= s@);
    out
}

/// The string of some characters.
pub fn text_of(chars: &[char]) -> (r: String)
    ensures
        r@ == chars@,
{
    let mut out = String::new();
    let mut i: usize = 0;
    while i < chars.len()
        invariant
            i <= chars@.len(),
            out@ == chars@.take(i as int),
        decreases chars@.len() - i,
    {
        assert(chars@.take(i + 1) =~= chars@.take(i as int).push(chars@[i as int]));
        push_char(&mut out, chars[i]);
        i += 1;
    }
    assert(chars@.take(chars@.len() as int) =~= chars@);
    out
}

/// The length of a string in bytes.
pub fn byte_len(s: &str) -> (r: usize)
    ensures
        r == encode_utf8(s@).len(),
{
    s.as_bytes().len()
}

/// Whether two strings hold the same characters.
pub fn same(a: &str, b: &str) -> (r: bool)
    ensures
        r == (a@ == b@),
{
    let x = chars_of(a);
    let y = chars_of(b);
    if x.len() != y.len() {
        return false;
    }
    let mut i: usize = 0;
    while i < x.len()
        invariant
            x@ == a@,
            y@ == b@,
            x@.len() == y@.len(),
            i <= x@.len(),
            forall|k: int| 0 <= k < i ==> x@[k] == y@[k],
        decreases x@.len() - i,
    {
        if x[i] != y[i] {
            assert(a@[i as int] != b@[i as int]);
            return false;
        }
        i += 1;
    }
    assert(a@ =~= b@);
    true
}

/// Whether one of the strings holds the same characters as `s`.
pub fn one_of(s: &str, of: &[&str]) -> (r: bool)
    ensures
        r == texts(of@).contains(s@),
{
    let mut i: usize = 0;
    while i < of.len()
        invariant
            i <= of@.len(),
            forall|k: int| 0 <= k < i ==> texts(of@)[k] != s@,
        decreases of@.len() - i,
    {
        if same(s, of[i]) {
            assert(texts(of@)[i as int] == s@);
            return true;
        }
        i += 1;
    }
    false
}

/// [`trimmed`].
pub fn trim(s: &str) -> (r: &str)
    ensures
        r@ == trimmed(s@),
{
    let c = chars_of(s);
    let mut a: usize = 0;
    assert(s@.skip(0) =~= s@);
    while a < c.len() && white(c[a])
        invariant
            c@ == s@,
            a <= c@.len(),
            trim_start(s@) == trim_start(s@.skip(a as int)),
        decreases c@.len() - a,
    {
        assert(s@.skip(a as int).skip(1) =~= s@.skip(a + 1));
        a += 1;
    }
    assert(trim_start(s@) == s@.skip(a as int));
    let mut b: usize = c.len();
    assert(s@.subrange(a as int, b as int) =~= s@.skip(a as int));
    while b > a && white(c[b - 1])
        invariant
            c@ == s@,
            a <= b <= c@.len(),
            trim_end(s@.skip(a as int)) == trim_end(s@.subrange(a as int, b as int)),
        decreases b,
    {
        assert(s@.subrange(a as int, b as int).take(b - a - 1) =~= s@.subrange(a as int, b - 1));
        b -= 1;
    }
    s.substring_char(a, b)
}

/// [`trim_end_of`].
pub fn trim_end_matches(s: &str, x: char) -> (r: &str)
    ensures
        r@ == trim_end_of(s@, x),
{
    let c = chars_of(s);
    let mut b: usize = c.len();
    assert(s@.take(b as int) =~= s@);
    while b > 0 && c[b - 1] == x
        invariant
            c@ == s@,
            b <= c@.len(),
            trim_end_of(s@, x) == trim_end_of(s@.take(b as int), x),
        decreases b,
    {
        assert(s@.take(b as int).take(b - 1) =~= s@.take(b - 1));
        b -= 1;
    }
    s.substring_char(0, b)
}

/// [`first_index`] is in range, and names the first `c`.
pub proof fn first_index_is_first(s: Seq<char>, c: char)
    ensures
        0 <= first_index(s, c) <= s.len(),
        first_index(s, c) < s.len() ==> s[first_index(s, c)] == c,
        forall|i: int| 0 <= i < first_index(s, c) ==> s[i] != c,
        s.contains(c) == (first_index(s, c) < s.len()),
    decreases s.len(),
{
    if s.len() > 0 && s[0] != c {
        let t = s.skip(1);
        first_index_is_first(t, c);
        assert forall|i: int| 0 <= i < first_index(s, c) implies s[i] != c by {
            if i > 0 {
                assert(t[i - 1] == s[i]);
            }
        }
        if s.contains(c) {
            let k = choose|k: int| 0 <= k < s.len() && s[k] == c;
            assert(t[k - 1] == c);
        }
    }
}

/// Where `c` first stands in the characters from `a` on.
fn find_from(v: &Vec<char>, a: usize, c: char) -> (r: usize)
    requires
        a <= v@.len(),
    ensures
        r == a + first_index(v@.skip(a as int), c),
        a <= r <= v@.len(),
{
    let mut i: usize = a;
    while i < v.len() && v[i] != c
        invariant
            a <= i <= v@.len(),
            a + first_index(v@.skip(a as int), c) == i + first_index(v@.skip(i as int), c),
        decreases v@.len() - i,
    {
        assert(v@.skip(i as int).skip(1) =~= v@.skip(i + 1));
        i += 1;
    }
    i
}

/// Whether `c` stands in the string.
pub fn contains(s: &str, c: char) -> (r: bool)
    ensures
        r == s@.contains(c),
{
    let v = chars_of(s);
    proof {
        first_index_is_first(s@, c);
        assert(v@.skip(0) =~= v@);
    }
    find_from(&v, 0, c) < v.len()
}

/// [`split_on`].
pub fn split<'a>(s: &'a str, c: char) -> (r: Vec<&'a str>)
    ensures
        texts(r@) == split_on(s@, c),
{
    let v = chars_of(s);
    let mut out: Vec<&'a str> = Vec::new();
    let mut a: usize = 0;
    assert(s@.skip(0) =~= s@);
    assert(texts(out@) + split_on(s@, c) =~= split_on(s@, c));
    loop
        invariant
            v@ == s@,
            a <= s@.len(),
            texts(out@) + split_on(s@.skip(a as int), c) == split_on(s@, c),
        decreases s@.len() - a,
    {
        let b = find_from(&v, a, c);
        let piece = s.substring_char(a, b);
        let ghost before = texts(out@);
        let ghost rest = s@.skip(a as int);
        out.push(piece);
        proof {
            assert(piece@ =~= rest.take(b - a));
            assert(texts(out@) =~= before.push(piece@));
        }
        if b == v.len() {
            assert(rest.take(b - a) =~= rest);
            assert(texts(out@) =~= before + split_on(rest, c));
            return out;
        }
        proof {
            assert(rest.skip(b - a + 1) =~= s@.skip(b + 1));
            assert(before + split_on(rest, c) =~= texts(out@) + split_on(s@.skip(b + 1), c));
        }
        a = b + 1;
    }
}

/// [`split_once_on`].
pub fn split_once<'a>(s: &'a str, c: char) -> (r: Option<(&'a str, &'a str)>)
    ensures
        match r {
            Some((a, b)) => split_once_on(s@, c) == Some((a@, b@)),
            None => split_once_on(s@, c) is None,
        },
{
    let v = chars_of(s);
    proof {
        assert(v@.skip(0) =~= v@);
    }
    let i = find_from(&v, 0, c);
    if i < v.len() {
        let a = s.substring_char(0, i);
        let b = s.substring_char(i + 1, v.len());
        assert(a@ =~= s@.take(i as int));
        assert(b@ =~= s@.skip(i + 1));
        Some((a, b))
    } else {
        None
    }
}

/// Whether `p` stands in `v` at `i`.
fn at(v: &Vec<char>, p: &Vec<char>, i: usize) -> (r: bool)
    requires
        i <= v@.len(),
    ensures
        r == stands_at(v@, p@, i as int),
{
    let n = v.len();
    if p.len() > n - i {
        return false;
    }
    let mut k: usize = 0;
    while k < p.len()
        invariant
            n == v@.len(),
            i + p@.len() <= n,
            k <= p@.len(),
            forall|j: int| 0 <= j < k ==> v@[i + j] == p@[j],
        decreases p@.len() - k,
    {
        if v[i + k] != p[k] {
            assert(v@.subrange(i as int, i + p@.len())[k as int] != p@[k as int]);
            return false;
        }
        k += 1;
    }
    assert(v@.subrange(i as int, i + p@.len()) =~= p@);
    true
}

/// [`split_once_at`].
pub fn split_once_text<'a>(s: &'a str, p: &str) -> (r: Option<(&'a str, &'a str)>)
    ensures
        match r {
            Some((a, b)) => split_once_at(s@, p@) == Some((a@, b@)),
            None => split_once_at(s@, p@) is None,
        },
{
    let v = chars_of(s);
    let q = chars_of(p);
    let n = v.len();
    let mut i: usize = 0;
    assert(v@.skip(0) =~= v@);
    loop
        invariant
            n == v@.len(),
            v@ == s@,
            q@ == p@,
            i <= v@.len(),
            first_match(s@, p@) == i + first_match(s@.skip(i as int), p@),
        decreases v@.len() - i,
    {
        let ghost rest = s@.skip(i as int);
        let hit = at(&v, &q, i);
        proof {
            if stands_at(s@, p@, i as int) {
                assert(rest.subrange(0, p@.len() as int) =~= s@.subrange(i as int, i + p@.len()));
            }
            if stands_at(rest, p@, 0) {
                assert(rest.subrange(0, p@.len() as int) =~= s@.subrange(i as int, i + p@.len()));
            }
        }
        if hit {
            let a = s.substring_char(0, i);
            let b = s.substring_char(i + q.len(), n);
            assert(a@ =~= s@.take(i as int));
            assert(b@ =~= s@.skip(i + p@.len()));
            return Some((a, b));
        }
        if i == v.len() {
            return None;
        }
        assert(rest.skip(1) =~= s@.skip(i + 1));
        i += 1;
    }
}

/// [`without_prefix`].
pub fn strip_prefix<'a>(s: &'a str, p: &str) -> (r: Option<&'a str>)
    ensures
        opt_text(r) == without_prefix(s@, p@),
{
    let v = chars_of(s);
    let q = chars_of(p);
    let hit = at(&v, &q, 0);
    proof {
        if q@.len() <= v@.len() {
            assert(v@.subrange(0, q@.len() as int) =~= v@.take(q@.len() as int));
        }
    }
    if hit {
        let rest = s.substring_char(q.len(), v.len());
        assert(rest@ =~= s@.skip(p@.len() as int));
        Some(rest)
    } else {
        None
    }
}

/// [`begins`].
pub fn starts_with(s: &str, p: &str) -> (r: bool)
    ensures
        r == begins(s@, p@),
{
    strip_prefix(s, p).is_some()
}

/// [`without_suffix`].
pub fn strip_suffix<'a>(s: &'a str, p: &str) -> (r: Option<&'a str>)
    ensures
        opt_text(r) == without_suffix(s@, p@),
{
    let v = chars_of(s);
    let q = chars_of(p);
    if q.len() > v.len() {
        return None;
    }
    let i: usize = v.len() - q.len();
    let hit = at(&v, &q, i);
    assert(v@.subrange(i as int, i + q@.len()) =~= v@.skip(i as int));
    if hit {
        let rest = s.substring_char(0, i);
        assert(rest@ =~= s@.take(i as int));
        Some(rest)
    } else {
        None
    }
}

/// [`same_but_case`].
pub fn same_ignoring_case(a: &str, b: &str) -> (r: bool)
    ensures
        r == same_but_case(a@, b@),
{
    let x = chars_of(a);
    let y = chars_of(b);
    if x.len() != y.len() {
        return false;
    }
    let mut i: usize = 0;
    while i < x.len()
        invariant
            x@ == a@,
            y@ == b@,
            x@.len() == y@.len(),
            i <= x@.len(),
            forall|k: int| 0 <= k < i ==> ascii_lower(x@[k]) == ascii_lower(y@[k]),
        decreases x@.len() - i,
    {
        if lower(x[i]) != lower(y[i]) {
            assert(ascii_lower(a@[i as int]) != ascii_lower(b@[i as int]));
            return false;
        }
        i += 1;
    }
    true
}

/// [`first_chars`].
pub fn take_chars(s: &str, n: usize) -> (r: String)
    ensures
        r@ == first_chars(s@, n as nat),
{
    let len = s.unicode_len();
    if len <= n {
        s.to_owned()
    } else {
        let t = s.substring_char(0, n);
        assert(t@ =~= s@.take(n as int));
        t.to_owned()
    }
}

/// [`replaced`].
pub fn replace(s: &str, from: char, to: char) -> (r: String)
    ensures
        r@ == replaced(s@, from, to),
{
    let v = chars_of(s);
    let mut out = String::new();
    let mut i: usize = 0;
    while i < v.len()
        invariant
            v@ == s@,
            i <= v@.len(),
            out@ == replaced(s@, from, to).take(i as int),
        decreases v@.len() - i,
    {
        let c = if v[i] == from {
            to
        } else {
            v[i]
        };
        push_char(&mut out, c);
        assert(replaced(s@, from, to).take(i + 1) =~= replaced(s@, from, to).take(i as int).push(
            c,
        ));
        i += 1;
    }
    assert(replaced(s@, from, to).take(v@.len() as int) =~= replaced(s@, from, to));
    out
}

/// [`decimal`].
pub fn number(n: u64) -> (r: String)
    ensures
        r@ == decimal(n as nat),
    decreases n,
{
    let mut out = if n < 10 {
        String::new()
    } else {
        number(n / 10)
    };
    let d: u8 = (n % 10) as u8;
    push_char(&mut out, (48 + d) as char);
    proof {
        if n < 10 {
            assert(out@ =~= seq![digit(n as nat)]);
        }
    }
    out
}

/// [`signed_decimal`].
pub fn signed_number(i: i64) -> (r: String)
    ensures
        r@ == signed_decimal(i as int),
{
    if i < 0 {
        let mut out = String::new();
        push_char(&mut out, '-');
        let m: u64 = (-(i as i128)) as u64;
        let d = number(m);
        let r = out.concat(d.as_str());
        assert(r@ =~= seq!['-'] + decimal(m as nat));
        r
    } else {
        number(i as u64)
    }
}

/// More digits, a larger number.
pub proof fn digits_value_grows(s: Seq<char>, i: int)
    requires
        all_digits(s),
        0 <= i <= s.len(),
    ensures
        digits_value(s.take(i)) <= digits_value(s),
    decreases s.len() - i,
{
    if i < s.len() {
        digits_value_grows(s, i + 1);
        assert(s.take(i + 1).take(i) =~= s.take(i));
    } else {
        assert(s.take(i) =~= s);
    }
}

/// [`unsigned`].
pub fn parse_unsigned(s: &str, max: u64) -> (r: Option<u64>)
    ensures
        match r {
            Some(n) => unsigned(s@, max as nat) == Some(n as nat),
            None => unsigned(s@, max as nat) is None,
        },
{
    let v = chars_of(s);
    let a: usize = if v.len() > 0 && v[0] == '+' {
        1
    } else {
        0
    };
    let ghost d = s@.skip(a as int);
    assert(a == 0 ==> d =~= s@);
    if v.len() == a {
        return None;
    }
    let mut n: u64 = 0;
    let mut i: usize = a;
    while i < v.len()
        invariant
            v@ == s@,
            a <= i <= v@.len(),
            d == s@.skip(a as int),
            all_digits(d.take(i - a)),
            n == digits_value(d.take(i - a)),
            n <= max,
            unsigned(s@, max as nat) == (if d.len() > 0 && all_digits(d) && digits_value(d) <= max {
                Some(digits_value(d))
            } else {
                None
            }),
        decreases v@.len() - i,
    {
        let c = v[i];
        assert(d[i - a] == c);
        if !('0' <= c && c <= '9') {
            return None;
        }
        let k: u64 = (c as u32 - '0' as u32) as u64;
        let ghost t = d.take(i + 1 - a);
        proof {
            assert(t.take(t.len() - 1) =~= d.take(i - a));
            assert forall|j: int| 0 <= j < t.len() implies is_digit(#[trigger] t[j]) by {
                if j < i - a {
                    assert(d.take(i - a)[j] == t[j]);
                }
            }
            assert(digits_value(t) == 10 * n + k);
            if all_digits(d) {
                digits_value_grows(d, i + 1 - a);
            }
        }
        if n > (u64::MAX - k) / 10 {
            return None;
        }
        let m: u64 = n * 10 + k;
        if m > max {
            return None;
        }
        n = m;
        i += 1;
    }
    assert(d.take(d.len() as int) =~= d);
    Some(n)
}

/// The string of bytes that must be UTF-8.
pub fn utf8(bytes: Vec<u8>) -> (r: Option<String>)
    ensures
        r is Some == valid_utf8(bytes@),
        r matches Some(s) ==> s@ == decode_utf8(bytes@) && encode_utf8(s@) == bytes@,
{
    proof {
        if valid_utf8(bytes@) {
            vstd::utf8::decode_utf8_encode_utf8(bytes@);
        }
    }
    string_from_utf8(bytes)
}

/// A text kept beyond what it was read from.
pub fn owned(s: Option<&str>) -> (r: Option<String>)
    ensures
        opt_string(r) == opt_text(s),
{
    match s {
        Some(s) => Some(s.to_owned()),
        None => None,
    }
}

/// A copy of an optional text.
pub fn copy_text(s: &Option<String>) -> (r: Option<String>)
    ensures
        opt_string(r) == opt_string(*s),
{
    match s {
        Some(s) => Some(s.clone()),
        None => None,
    }
}

/// The text with each occurrence of `from`, taken from the left, replaced.
pub open spec fn replaced_text(s: Seq<char>, from: Seq<char>, to: Seq<char>) -> Seq<char>
    decreases s.len(),
{
    if from.len() == 0 || s.len() < from.len() {
        s
    } else if begins(s, from) {
        to + replaced_text(s.skip(from.len() as int), from, to)
    } else {
        seq![s[0]] + replaced_text(s.skip(1), from, to)
    }
}

/// [`replaced_text`].
pub fn replace_text(s: &str, from: &str, to: char) -> (r: String)
    requires
        from@.len() > 0,
    ensures
        r@ == replaced_text(s@, from@, seq![to]),
{
    let v = chars_of(s);
    let p = chars_of(from);
    let mut out: Vec<char> = Vec::new();
    let mut i: usize = 0;
    let ghost want = replaced_text(s@, from@, seq![to]);
    assert(s@.skip(0) =~= s@);
    assert(want =~= out@ + replaced_text(s@.skip(0), from@, seq![to]));
    while v.len() - i >= p.len()
        invariant
            v@ == s@,
            p@ == from@,
            p@.len() > 0,
            i <= v@.len(),
            want == out@ + replaced_text(s@.skip(i as int), from@, seq![to]),
        decreases v@.len() - i,
    {
        let ghost rest = s@.skip(i as int);
        let mut k: usize = 0;
        while k < p.len() && v[i + k] == p[k]
            invariant
                v@ == s@,
                p@ == from@,
                i + p.len() <= v.len(),
                k <= p@.len(),
                rest == s@.skip(i as int),
                forall|j: int| 0 <= j < k ==> rest[j] == #[trigger] p@[j],
            decreases p@.len() - k,
        {
            assert(rest[k as int] == v@[i + k]);
            k += 1;
        }
        let ghost before = out@;
        if k == p.len() {
            proof {
                assert(rest.take(p@.len() as int) =~= from@);
                assert(begins(rest, from@));
                assert(rest.skip(from@.len() as int) =~= s@.skip(i + p@.len()));
            }
            out.push(to);
            i += p.len();
            assert(out@ + replaced_text(s@.skip(i as int), from@, seq![to]) =~= before + (seq![to]
                + replaced_text(s@.skip(i as int), from@, seq![to])));
        } else {
            proof {
                assert(rest[k as int] == v@[i + k]);
                assert(rest.take(p@.len() as int)[k as int] != from@[k as int]);
                assert(!begins(rest, from@));
                assert(rest.skip(1) =~= s@.skip(i + 1));
            }
            out.push(v[i]);
            i += 1;
            assert(out@ + replaced_text(s@.skip(i as int), from@, seq![to]) =~= before + (
            seq![rest[0]] + replaced_text(s@.skip(i as int), from@, seq![to])));
        }
    }
    while i < v.len()
        invariant
            v@ == s@,
            i <= v@.len(),
            want == out@ + s@.skip(i as int),
        decreases v@.len() - i,
    {
        let ghost before = out@;
        out.push(v[i]);
        assert(before + s@.skip(i as int) =~= out@ + s@.skip(i + 1));
        i += 1;
    }
    assert(out@ + s@.skip(i as int) =~= out@);
    text_of(out.as_slice())
}

/// What comes before the first character that could begin an occurrence stays.
pub proof fn replaced_text_keeps(a: Seq<char>, b: Seq<char>, from: Seq<char>, to: Seq<char>)
    requires
        from.len() > 0,
        forall|i: int| 0 <= i < a.len() ==> #[trigger] a[i] != from[0],
    ensures
        replaced_text(a + b, from, to) == a + replaced_text(b, from, to),
    decreases a.len(),
{
    let s = a + b;
    if a.len() == 0 {
        assert(s =~= b);
        assert(a + replaced_text(b, from, to) =~= replaced_text(b, from, to));
    } else if s.len() >= from.len() {
        assert(s[0] == a[0]);
        assert(s.take(from.len() as int)[0] == a[0]);
        assert(!begins(s, from));
        assert(s.skip(1) =~= a.skip(1) + b);
        replaced_text_keeps(a.skip(1), b, from, to);
        assert(seq![a[0]] + (a.skip(1) + replaced_text(b, from, to)) =~= a + replaced_text(
            b,
            from,
            to,
        ));
    }
}

/// What is left where the blanks at the start are taken off: all of the text from a place on, with
/// nothing but blanks before it and none at it.
pub proof fn only_blanks_are_taken_off_the_start(s: Seq<char>) -> (a: int)
    ensures
        0 <= a <= s.len(),
        trim_start(s) == s.skip(a),
        forall|i: int| 0 <= i < a ==> is_white(#[trigger] s[i]),
        a < s.len() ==> !is_white(s[a]),
    decreases s.len(),
{
    if s.len() > 0 && is_white(s[0]) {
        let a = only_blanks_are_taken_off_the_start(s.skip(1));
        assert(s.skip(1).skip(a) =~= s.skip(a + 1));
        assert forall|i: int| 0 <= i < a + 1 implies is_white(#[trigger] s[i]) by {
            if i > 0 {
                assert(s[i] == s.skip(1)[i - 1]);
            }
        }
        a + 1
    } else {
        assert(s.skip(0) =~= s);
        0
    }
}

/// What is left where the blanks at the end are taken off: all of the text up to a place, with
/// nothing but blanks after it and none just before it.
pub proof fn only_blanks_are_taken_off_the_end(s: Seq<char>) -> (b: int)
    ensures
        0 <= b <= s.len(),
        trim_end(s) == s.take(b),
        forall|i: int| b <= i < s.len() ==> is_white(#[trigger] s[i]),
        b > 0 ==> !is_white(s[b - 1]),
    decreases s.len(),
{
    if s.len() > 0 && is_white(s[s.len() - 1]) {
        let t = s.take(s.len() - 1);
        let b = only_blanks_are_taken_off_the_end(t);
        assert(t.take(b) =~= s.take(b));
        assert forall|i: int| b <= i < s.len() implies is_white(#[trigger] s[i]) by {
            if i < t.len() {
                assert(s[i] == t[i]);
            }
        }
        b
    } else {
        assert(s.take(s.len() as int) =~= s);
        s.len() as int
    }
}

/// A text without the blanks around it is the part of it that starts and ends with something else;
/// around that part there are blanks only.
pub proof fn only_blanks_are_trimmed(s: Seq<char>) -> (p: (int, int))
    ensures
        0 <= p.0 <= p.1 <= s.len(),
        trimmed(s) == s.subrange(p.0, p.1),
        forall|i: int| 0 <= i < p.0 || p.1 <= i < s.len() ==> is_white(#[trigger] s[i]),
        p.0 < p.1 ==> !is_white(s[p.0]) && !is_white(s[p.1 - 1]),
{
    let a = only_blanks_are_taken_off_the_start(s);
    let t = s.skip(a);
    let b = only_blanks_are_taken_off_the_end(t);
    assert(t.take(b) =~= s.subrange(a, a + b));
    assert forall|i: int| 0 <= i < a || a + b <= i < s.len() implies is_white(#[trigger] s[i]) by {
        if i >= a + b {
            assert(s[i] == t[i - a]);
        }
    }
    if b > 0 {
        assert(t[b - 1] == s[a + b - 1]);
    }
    (a, a + b)
}

/// What is left where one character is taken off the end: all of the text up to a place, with
/// nothing but that character after it and another just before it.
pub proof fn only_that_end_is_taken_off(s: Seq<char>, c: char) -> (b: int)
    ensures
        0 <= b <= s.len(),
        trim_end_of(s, c) == s.take(b),
        forall|i: int| b <= i < s.len() ==> #[trigger] s[i] == c,
        b > 0 ==> s[b - 1] != c,
    decreases s.len(),
{
    if s.len() > 0 && s[s.len() - 1] == c {
        let t = s.take(s.len() - 1);
        let b = only_that_end_is_taken_off(t, c);
        assert(t.take(b) =~= s.take(b));
        assert forall|i: int| b <= i < s.len() implies #[trigger] s[i] == c by {
            if i < t.len() {
                assert(s[i] == t[i]);
            }
        }
        b
    } else {
        assert(s.take(s.len() as int) =~= s);
        s.len() as int
    }
}

/// The pieces, one after another, with a character between each two.
pub open spec fn joined_by(pieces: Seq<Seq<char>>, c: char) -> Seq<char>
    decreases pieces.len(),
{
    if pieces.len() == 0 {
        Seq::empty()
    } else if pieces.len() == 1 {
        pieces[0]
    } else {
        pieces[0] + seq![c] + joined_by(pieces.skip(1), c)
    }
}

/// A text is its pieces with the character that parts them between each two; that character is in
/// none of them, and there is always a piece.
pub proof fn pieces_make_the_text(s: Seq<char>, c: char)
    ensures
        split_on(s, c).len() > 0,
        joined_by(split_on(s, c), c) == s,
        forall|i: int| 0 <= i < split_on(s, c).len() ==> !(#[trigger] split_on(s, c)[i]).contains(c),
    decreases s.len(),
{
    let i = first_index(s, c);
    first_index_is_first(s, c);
    let pieces = split_on(s, c);
    if i < s.len() {
        let rest = s.skip(i + 1);
        pieces_make_the_text(rest, c);
        assert(pieces == seq![s.take(i)] + split_on(rest, c));
        assert(pieces.skip(1) =~= split_on(rest, c));
        assert(s =~= s.take(i) + seq![c] + rest);
        assert forall|k: int| 0 <= k < pieces.len() implies !(#[trigger] pieces[k]).contains(c) by {
            if k == 0 {
                assert forall|j: int| 0 <= j < i implies s.take(i)[j] != c by {
                    assert(s.take(i)[j] == s[j]);
                }
            } else {
                assert(pieces[k] == split_on(rest, c)[k - 1]);
            }
        }
    } else {
        assert(pieces == seq![s]);
    }
}

/// A text is cut at the first place where the character stands, and nowhere where it does not.
pub proof fn a_text_is_cut_at_the_first(s: Seq<char>, c: char)
    ensures
        split_once_on(s, c) is Some <==> s.contains(c),
        split_once_on(s, c) matches Some((a, b)) ==> s == a + seq![c] + b && !a.contains(c),
{
    let i = first_index(s, c);
    first_index_is_first(s, c);
    if i < s.len() {
        assert(s =~= s.take(i) + seq![c] + s.skip(i + 1));
        assert forall|j: int| 0 <= j < i implies s.take(i)[j] != c by {
            assert(s.take(i)[j] == s[j]);
        }
    }
}

/// The first place where a text stands in another: it stands there and at none before; past the end
/// where it stands nowhere.
pub proof fn the_first_match_is_first(s: Seq<char>, p: Seq<char>)
    ensures
        0 <= first_match(s, p) <= s.len() + 1,
        first_match(s, p) <= s.len() ==> stands_at(s, p, first_match(s, p)),
        forall|i: int| 0 <= i < first_match(s, p) ==> !#[trigger] stands_at(s, p, i),
    decreases s.len(),
{
    if !stands_at(s, p, 0) && s.len() > 0 {
        let t = s.skip(1);
        the_first_match_is_first(t, p);
        let k = first_match(t, p);
        assert forall|i: int| 0 <= i implies #[trigger] stands_at(s, p, i + 1) == stands_at(t, p, i) by {
            if i + 1 + p.len() <= s.len() {
                assert(s.subrange(i + 1, i + 1 + p.len()) =~= t.subrange(i, i + p.len()));
            }
        }
        if k <= t.len() {
            assert(stands_at(s, p, k + 1));
        }
        assert forall|i: int| 0 <= i < k + 1 implies !#[trigger] stands_at(s, p, i) by {
            if i > 0 {
                assert(stands_at(s, p, (i - 1) + 1) == stands_at(t, p, i - 1));
            }
        }
    } else if s.len() == 0 && !stands_at(s, p, 0) {
        assert forall|i: int| 0 <= i < 1 implies !#[trigger] stands_at(s, p, i) by {
            assert(i == 0);
        }
    }
}

/// A text is cut around the first place where another stands in it, and nowhere where that stands
/// nowhere.
pub proof fn a_text_is_cut_around_the_first(s: Seq<char>, p: Seq<char>)
    ensures
        split_once_at(s, p) is None ==> forall|i: int| !#[trigger] stands_at(s, p, i),
        split_once_at(s, p) matches Some((a, b)) ==> s == a + p + b && forall|i: int|
            0 <= i < a.len() ==> !#[trigger] stands_at(s, p, i),
{
    the_first_match_is_first(s, p);
    let k = first_match(s, p);
    if k <= s.len() {
        assert(s =~= s.take(k) + s.subrange(k, k + p.len()) + s.skip(k + p.len()));
    } else {
        assert forall|i: int| !#[trigger] stands_at(s, p, i) by {
            if 0 <= i <= s.len() {
                assert(i < k);
            }
        }
    }
}

/// What follows a prefix is read back, and so is what comes before a suffix; where there is a
/// remainder, the text is that remainder with the prefix or the suffix.
pub proof fn a_remainder_is_what_else_is_there(s: Seq<char>, p: Seq<char>)
    ensures
        without_prefix(p + s, p) == Some(s),
        without_suffix(s + p, p) == Some(s),
        without_prefix(s, p) matches Some(r) ==> s == p + r,
        without_suffix(s, p) matches Some(r) ==> s == r + p,
{
    assert(without_prefix(p + s, p) == Some(s)) by {
        assert((p + s).take(p.len() as int) =~= p);
        assert((p + s).skip(p.len() as int) =~= s);
    }
    assert(without_suffix(s + p, p) == Some(s)) by {
        assert((s + p).skip((s + p).len() - p.len()) =~= p);
        assert((s + p).take((s + p).len() - p.len()) =~= s);
    }
    assert(begins(s, p) ==> s == p + s.skip(p.len() as int)) by {
        if begins(s, p) {
            assert(s =~= s.take(p.len() as int) + s.skip(p.len() as int));
        }
    }
    assert(ends(s, p) ==> s == s.take(s.len() - p.len()) + p) by {
        if ends(s, p) {
            assert(s =~= s.take(s.len() - p.len()) + s.skip(s.len() - p.len()));
        }
    }
}

/// Two texts are the same but for case where they are equally long and differ only between a letter
/// of the Latin alphabet and its other form.
pub proof fn only_letters_have_case(a: Seq<char>, b: Seq<char>)
    ensures
        same_but_case(a, b) <==> a.len() == b.len() && forall|i: int|
            0 <= i < a.len() ==> {
                ||| #[trigger] a[i] == b[i]
                ||| 'A' <= a[i] <= 'Z' && b[i] as u32 == a[i] as u32 + 32
                ||| 'A' <= b[i] <= 'Z' && a[i] as u32 == b[i] as u32 + 32
            },
{
    assert forall|c: char, d: char| #[trigger] ascii_lower(c) == #[trigger] ascii_lower(d) <==> {
        ||| c == d
        ||| 'A' <= c <= 'Z' && d as u32 == c as u32 + 32
        ||| 'A' <= d <= 'Z' && c as u32 == d as u32 + 32
    } by {}
}

/// The first characters of a text: no more than were asked for, fewer only where there are no more,
/// and what the text begins with.
pub proof fn the_first_characters_begin_a_text(s: Seq<char>, n: nat)
    ensures
        first_chars(s, n).len() <= n,
        first_chars(s, n).len() < n ==> first_chars(s, n) == s,
        begins(s, first_chars(s, n)),
{
    assert(s.take(s.len() as int) =~= s);
}

/// Where characters are replaced, every one stays where it is but those that are replaced.
pub proof fn only_that_character_is_replaced(s: Seq<char>, from: char, to: char)
    ensures
        replaced(s, from, to).len() == s.len(),
        forall|i: int|
            0 <= i < s.len() ==> {
                &&& s[i] == from ==> #[trigger] replaced(s, from, to)[i] == to
                &&& s[i] != from ==> replaced(s, from, to)[i] == s[i]
            },
{
}

/// Where a text is replaced in another, what replaces it stands in its place.
pub proof fn a_text_is_replaced(s: Seq<char>, from: Seq<char>, to: Seq<char>)
    requires
        from.len() > 0,
    ensures
        replaced_text(from + s, from, to) == to + replaced_text(s, from, to),
        s.len() < from.len() ==> replaced_text(s, from, to) == s,
{
    assert((from + s).take(from.len() as int) =~= from);
    assert((from + s).skip(from.len() as int) =~= s);
}

/// A number is written in digits that are worth it, and with no zero before them.
pub proof fn numbers_are_written_in_digits(n: nat)
    ensures
        decimal(n).len() > 0,
        all_digits(decimal(n)),
        digits_value(decimal(n)) == n,
        n > 0 ==> decimal(n)[0] != '0',
    decreases n,
{
    if n < 10 {
        let d = decimal(n);
        assert(d =~= seq![digit(n)]);
        assert(d.take(0) =~= Seq::<char>::empty());
        assert(digits_value(Seq::<char>::empty()) == 0);
        assert(digit_value(digit(n)) == n);
    } else {
        numbers_are_written_in_digits(n / 10);
        let h = decimal(n / 10);
        let d = decimal(n);
        assert(d == h.push(digit(n % 10)));
        assert(d.take(d.len() - 1) =~= h);
        assert(digit_value(digit(n % 10)) == n % 10);
        assert forall|i: int| 0 <= i < d.len() implies is_digit(#[trigger] d[i]) by {
            if i < h.len() {
                assert(d[i] == h[i]);
            }
        }
        assert(d[0] == h[0]);
    }
}

/// A number is read as it was written, with a sign before it or without; nothing but digits is one,
/// and none is larger than was asked for.
pub proof fn numbers_are_read_as_they_are_written(n: nat, s: Seq<char>, max: nat)
    ensures
        unsigned(decimal(n), max) == (if n <= max {
            Some(n)
        } else {
            None
        }),
        unsigned(seq!['+'] + decimal(n), max) == unsigned(decimal(n), max),
        unsigned(s, max) matches Some(v) ==> v <= max && s.len() > 0,
        s.len() > 0 && !is_digit(s.last()) ==> unsigned(s, max) is None,
        unsigned(seq!['+'] + (seq!['+'] + s), max) is None,
        unsigned(Seq::empty(), max) is None,
{
    numbers_are_written_in_digits(n);
    let d = decimal(n);
    assert((seq!['+'] + d).skip(1) =~= d);
    assert(d[0] != '+') by {
        assert(is_digit(d[0]));
    }
    if s.len() > 0 && !is_digit(s.last()) {
        let t = s.skip(1);
        if t.len() > 0 {
            assert(t[t.len() - 1] == s.last());
        }
    }
    let pp = seq!['+'] + (seq!['+'] + s);
    assert(pp.skip(1)[0] == '+');
}

/// A number below zero is written as the digits of its size after a sign, and any other as digits.
pub proof fn signs_are_written_before_the_digits(n: nat)
    ensures
        signed_decimal(n as int) == decimal(n),
        n > 0 ==> signed_decimal(-(n as int)) == seq!['-'] + decimal(n),
{
}

} // verus!
