//! Text primitives over the character sequence of a string: trimming,
//! comparison, search, ASCII case folding and Unicode case mapping.

use vstd::prelude::*;

verus! {

// ---------------------------------------------------------------------------
// Specifications
// ---------------------------------------------------------------------------

/// The Unicode `White_Space` property (the characters that `char::is_whitespace` accepts).
pub open spec fn is_white_space(c: char) -> bool {
    let u = c as u32;
    ||| 0x09 <= u <= 0x0d
    ||| u == 0x20
    ||| u == 0x85
    ||| u == 0xa0
    ||| u == 0x1680
    ||| 0x2000 <= u <= 0x200a
    ||| u == 0x2028
    ||| u == 0x2029
    ||| u == 0x202f
    ||| u == 0x205f
    ||| u == 0x3000
}

/// `s` with its leading white space removed.
pub open spec fn trim_front(s: Seq<char>) -> Seq<char>
    decreases s.len(),
{
    if s.len() > 0 && is_white_space(s[0]) {
        trim_front(s.drop_first())
    } else {
        s
    }
}

/// `s` with its trailing white space removed.
pub open spec fn trim_back(s: Seq<char>) -> Seq<char>
    decreases s.len(),
{
    if s.len() > 0 && is_white_space(s.last()) {
        trim_back(s.drop_last())
    } else {
        s
    }
}

/// `s` with leading and trailing white space removed (what `str::trim` gives).
pub open spec fn trimmed(s: Seq<char>) -> Seq<char> {
    trim_back(trim_front(s))
}

/// `needle` occurs in `hay` as a contiguous run.
pub open spec fn has_substring(hay: Seq<char>, needle: Seq<char>) -> bool {
    exists|i: int|
        0 <= i && i + needle.len() <= hay.len() && #[trigger] hay.subrange(i, i + needle.len())
            == needle
}

/// The code of `c` after mapping `A`..=`Z` to `a`..=`z` (ASCII case folding).
pub open spec fn ascii_fold(c: char) -> u32 {
    let u = c as u32;
    if 65 <= u <= 90 {
        (u + 32) as u32
    } else {
        u
    }
}

/// The two sequences are equal up to ASCII case (what `str::eq_ignore_ascii_case` decides).
pub open spec fn eq_ignore_ascii_case(a: Seq<char>, b: Seq<char>) -> bool {
    &&& a.len() == b.len()
    &&& forall|i: int| 0 <= i < a.len() ==> #[trigger] ascii_fold(a[i]) == ascii_fold(b[i])
}

/// Every character is ASCII.
pub open spec fn is_ascii_text(s: Seq<char>) -> bool {
    forall|i: int| 0 <= i < s.len() ==> (#[trigger] s[i] as u32) < 128
}

/// `A`..=`Z` mapped to `a`..=`z`; every other character kept.
pub open spec fn ascii_lower(c: char) -> char {
    if 'A' <= c <= 'Z' {
        ((c as u32) + 32) as char
    } else {
        c
    }
}

/// `a`..=`z` mapped to `A`..=`Z`; every other character kept.
pub open spec fn ascii_upper(c: char) -> char {
    if 'a' <= c <= 'z' {
        ((c as u32) - 32) as char
    } else {
        c
    }
}

/// The text with its ASCII letters lower-cased.
pub open spec fn ascii_lowercased(s: Seq<char>) -> Seq<char> {
    s.map_values(|c: char| ascii_lower(c))
}

/// The text with its ASCII letters upper-cased.
pub open spec fn ascii_uppercased(s: Seq<char>) -> Seq<char> {
    s.map_values(|c: char| ascii_upper(c))
}

/// What `str::to_lowercase` returns for a string with these characters, not
/// all of them ASCII.
pub uninterp spec fn unicode_lowercase(s: Seq<char>) -> Seq<char>;

/// What `str::to_uppercase` returns for a string with these characters, not
/// all of them ASCII.
pub uninterp spec fn unicode_uppercase(s: Seq<char>) -> Seq<char>;

/// What `str::to_lowercase` returns: the ASCII lower-casing for ASCII text.
pub open spec fn lowercase(s: Seq<char>) -> Seq<char> {
    if is_ascii_text(s) {
        ascii_lowercased(s)
    } else {
        unicode_lowercase(s)
    }
}

/// What `str::to_uppercase` returns: the ASCII upper-casing for ASCII text.
pub open spec fn uppercase(s: Seq<char>) -> Seq<char> {
    if is_ascii_text(s) {
        ascii_uppercased(s)
    } else {
        unicode_uppercase(s)
    }
}

/// What `char::is_alphanumeric` decides for a character.
pub uninterp spec fn alphanumeric(c: char) -> bool;

// ---------------------------------------------------------------------------
// Calls into std that vstd leaves unspecified
// ---------------------------------------------------------------------------

/// Calls `String::push`, which appends one character at the end.
#[verifier::external_body]
pub(crate) fn push_char(s: &mut String, c: char)
    ensures
        final(s)@ == old(s)@.push(c),
{
    s.push(c);
}

/// Calls `str::to_lowercase`. Claimed: on a string of ASCII characters the
/// Unicode lower-case mapping that std applies turns `A`..=`Z` into `a`..=`z`
/// and keeps every other character; on any other string the result is named
/// by `unicode_lowercase`.
#[verifier::external_body]
pub(crate) fn to_lowercase(s: &str) -> (r: String)
    ensures
        r@ == lowercase(s@),
        is_ascii_text(s@) ==> r@ == ascii_lowercased(s@),
        !is_ascii_text(s@) ==> r@ == unicode_lowercase(s@),
{
    s.to_lowercase()
}

/// Calls `str::to_uppercase`. Claimed: on a string of ASCII characters the
/// Unicode upper-case mapping that std applies turns `a`..=`z` into `A`..=`Z`
/// and keeps every other character; on any other string the result is named
/// by `unicode_uppercase`.
#[verifier::external_body]
pub(crate) fn to_uppercase(s: &str) -> (r: String)
    ensures
        r@ == uppercase(s@),
        is_ascii_text(s@) ==> r@ == ascii_uppercased(s@),
        !is_ascii_text(s@) ==> r@ == unicode_uppercase(s@),
{
    s.to_uppercase()
}

/// Calls `char::is_alphanumeric`; the result is named by `alphanumeric`.
#[verifier::external_body]
pub(crate) fn is_alphanumeric(c: char) -> (b: bool)
    ensures
        b == alphanumeric(c),
{
    c.is_alphanumeric()
}

// ---------------------------------------------------------------------------
// Verified operations
// ---------------------------------------------------------------------------

/// The characters of a string slice, in order.
pub fn chars_of(s: &str) -> (v: Vec<char>)
    ensures
        v@ == s@,
{
    let mut v: Vec<char> = Vec::new();
    for c in it: s.chars()
        invariant
            v@ == it.seq().take(it.index() as int),
    {
        v.push(c);
    }
    v
}

/// A string holding exactly the given characters.
pub fn string_from_chars(v: &Vec<char>) -> (s: String)
    ensures
        s@ == v@,
{
    let mut s = String::new();
    let n = v.len();
    let mut i: usize = 0;
    while i < n
        invariant
            n == v.len(),
            i <= n,
            s@ == v@.take(i as int),
        decreases n - i,
    {
        push_char(&mut s, v[i]);
        assert(v@.take(i as int).push(v@[i as int]) =~= v@.take(i + 1));
        i += 1;
    }
    assert(v@.take(n as int) =~= v@);
    s
}

/// An owned copy of a string slice.
pub fn owned(s: &str) -> (r: String)
    ensures
        r@ == s@,
{
    let v = chars_of(s);
    string_from_chars(&v)
}

/// Whether `c` has the Unicode `White_Space` property.
pub fn char_is_white_space(c: char) -> (b: bool)
    ensures
        b == is_white_space(c),
{
    let u = c as u32;
    (0x09 <= u && u <= 0x0d) || u == 0x20 || u == 0x85 || u == 0xa0 || u == 0x1680 || (0x2000
        <= u && u <= 0x200a) || u == 0x2028 || u == 0x2029 || u == 0x202f || u == 0x205f || u
        == 0x3000
}

proof fn lemma_trim_front_step(s: Seq<char>, i: int)
    requires
        0 <= i < s.len(),
        is_white_space(s[i]),
    ensures
        trim_front(s.subrange(i, s.len() as int)) == trim_front(s.subrange(i + 1, s.len() as int)),
{
    let t = s.subrange(i, s.len() as int);
    assert(t.drop_first() =~= s.subrange(i + 1, s.len() as int));
}

proof fn lemma_trim_back_step(s: Seq<char>, j: int)
    requires
        0 < j <= s.len(),
        is_white_space(s[j - 1]),
    ensures
        trim_back(s.subrange(0, j)) == trim_back(s.subrange(0, j - 1)),
{
    let t = s.subrange(0, j);
    assert(t.drop_last() =~= s.subrange(0, j - 1));
}

/// The characters of `s` with leading and trailing white space removed.
pub fn trim_chars(s: &Vec<char>) -> (r: Vec<char>)
    ensures
        r@ == trimmed(s@),
{
    let n = s.len();
    let mut lo: usize = 0;
    assert(s@.subrange(0, n as int) =~= s@);
    while lo < n && char_is_white_space(s[lo])
        invariant
            n == s.len(),
            lo <= n,
            trim_front(s@) == trim_front(s@.subrange(lo as int, n as int)),
        decreases n - lo,
    {
        proof {
            lemma_trim_front_step(s@, lo as int);
        }
        lo += 1;
    }
    let ghost front = s@.subrange(lo as int, n as int);
    assert(trim_front(front) == front);
    let mut hi: usize = n;
    assert(front.subrange(0, (n - lo) as int) =~= front);
    while hi > lo && char_is_white_space(s[hi - 1])
        invariant
            n == s.len(),
            lo <= hi <= n,
            front == s@.subrange(lo as int, n as int),
            trim_back(front) == trim_back(front.subrange(0, (hi - lo) as int)),
        decreases hi - lo,
    {
        proof {
            lemma_trim_back_step(front, (hi - lo) as int);
        }
        hi -= 1;
    }
    let ghost back = front.subrange(0, (hi - lo) as int);
    assert(trim_back(back) == back);
    let mut r: Vec<char> = Vec::new();
    let mut k: usize = lo;
    while k < hi
        invariant
            n == s.len(),
            lo <= k <= hi <= n,
            r@ == s@.subrange(lo as int, k as int),
        decreases hi - k,
    {
        r.push(s[k]);
        assert(s@.subrange(lo as int, k as int).push(s@[k as int]) =~= s@.subrange(
            lo as int,
            k + 1,
        ));
        k += 1;
    }
    assert(r@ =~= back);
    r
}

/// `s` with leading and trailing white space removed (as `str::trim` does).
pub fn trim(s: &str) -> (r: String)
    ensures
        r@ == trimmed(s@),
{
    let v = chars_of(s);
    let t = trim_chars(&v);
    string_from_chars(&t)
}

/// Whether two character sequences are equal.
pub fn chars_equal(a: &Vec<char>, b: &Vec<char>) -> (r: bool)
    ensures
        r == (a@ == b@),
{
    if a.len() != b.len() {
        return false;
    }
    let n = a.len();
    let mut i: usize = 0;
    while i < n
        invariant
            n == a.len(),
            n == b.len(),
            i <= n,
            forall|k: int| 0 <= k < i ==> a@[k] == b@[k],
        decreases n - i,
    {
        if a[i] != b[i] {
            return false;
        }
        i += 1;
    }
    assert(a@ =~= b@);
    true
}

/// Whether two strings hold the same characters.
pub fn str_eq(a: &str, b: &str) -> (r: bool)
    ensures
        r == (a@ == b@),
{
    let x = chars_of(a);
    let y = chars_of(b);
    chars_equal(&x, &y)
}

/// Whether `needle` occurs in `hay` at position `at`.
fn occurs_at(hay: &Vec<char>, needle: &Vec<char>, at: usize) -> (r: bool)
    requires
        at + needle.len() <= hay.len(),
    ensures
        r == (hay@.subrange(at as int, at + needle.len()) == needle@),
{
    let m = needle.len();
    let mut k: usize = 0;
    while k < m
        invariant
            m == needle.len(),
            at + m <= hay.len(),
            k <= m,
            forall|q: int| 0 <= q < k ==> hay@[at + q] == needle@[q],
        decreases m - k,
    {
        if hay[at + k] != needle[k] {
            assert(hay@.subrange(at as int, at + m)[k as int] != needle@[k as int]);
            return false;
        }
        k += 1;
    }
    assert(hay@.subrange(at as int, at + m) =~= needle@);
    true
}

/// Whether `needle` occurs in `hay` as a contiguous run.
pub fn chars_contain(hay: &Vec<char>, needle: &Vec<char>) -> (r: bool)
    ensures
        r == has_substring(hay@, needle@),
{
    let n = hay.len();
    let m = needle.len();
    if m > n {
        return false;
    }
    let mut i: usize = 0;
    while i <= n - m
        invariant
            n == hay.len(),
            m == needle.len(),
            m <= n,
            i <= n - m + 1,
            forall|p: int| 0 <= p < i ==> #[trigger] hay@.subrange(p, p + m) != needle@,
        decreases n - m + 1 - i,
    {
        if occurs_at(hay, needle, i) {
            return true;
        }
        if i == n - m {
            return false;
        }
        i += 1;
    }
    false
}

/// Whether the string `needle` occurs in the string `hay` (as `str::contains` with a `&str`).
pub fn str_contains(hay: &str, needle: &str) -> (r: bool)
    ensures
        r == has_substring(hay@, needle@),
{
    let h = chars_of(hay);
    let n = chars_of(needle);
    chars_contain(&h, &n)
}

/// Whether the character `c` occurs in `s` (as `str::contains` with a `char`).
pub fn chars_contain_char(s: &Vec<char>, c: char) -> (r: bool)
    ensures
        r == s@.contains(c),
{
    let n = s.len();
    let mut i: usize = 0;
    while i < n
        invariant
            n == s.len(),
            i <= n,
            forall|k: int| 0 <= k < i ==> s@[k] != c,
        decreases n - i,
    {
        if s[i] == c {
            return true;
        }
        i += 1;
    }
    false
}

/// Whether `prefix` is a prefix of `s` (as `str::starts_with`).
pub fn chars_start_with(s: &Vec<char>, prefix: &Vec<char>) -> (r: bool)
    ensures
        r == prefix@.is_prefix_of(s@),
{
    if prefix.len() > s.len() {
        return false;
    }
    let r = occurs_at(s, prefix, 0);
    proof {
        if r {
            assert forall|i: int| 0 <= i < prefix@.len() implies prefix@[i] == s@[i] by {
                assert(s@.subrange(0, prefix@.len() as int)[i] == s@[i]);
            }
        } else {
            if prefix@.is_prefix_of(s@) {
                assert(s@.subrange(0, prefix@.len() as int) =~= prefix@);
            }
        }
    }
    r
}

/// The ASCII-folded code of one character.
pub fn char_ascii_fold(c: char) -> (r: u32)
    ensures
        r == ascii_fold(c),
{
    let u = c as u32;
    if 65 <= u && u <= 90 {
        u + 32
    } else {
        u
    }
}

/// Whether two character sequences are equal up to ASCII case.
pub fn chars_eq_ignore_ascii_case(a: &Vec<char>, b: &Vec<char>) -> (r: bool)
    ensures
        r == eq_ignore_ascii_case(a@, b@),
{
    if a.len() != b.len() {
        return false;
    }
    let n = a.len();
    let mut i: usize = 0;
    while i < n
        invariant
            n == a.len(),
            n == b.len(),
            i <= n,
            forall|k: int| 0 <= k < i ==> #[trigger] ascii_fold(a@[k]) == ascii_fold(b@[k]),
        decreases n - i,
    {
        if char_ascii_fold(a[i]) != char_ascii_fold(b[i]) {
            return false;
        }
        i += 1;
    }
    true
}

/// Whether two strings are equal up to ASCII case (as `str::eq_ignore_ascii_case`).
pub fn str_eq_ignore_ascii_case(a: &str, b: &str) -> (r: bool)
    ensures
        r == eq_ignore_ascii_case(a@, b@),
{
    let x = chars_of(a);
    let y = chars_of(b);
    chars_eq_ignore_ascii_case(&x, &y)
}

/// Appends the characters of `t` to `s`.
pub fn push_str(s: &mut String, t: &str)
    ensures
        final(s)@ == old(s)@ + t@,
{
    let v = chars_of(t);
    let n = v.len();
    let mut i: usize = 0;
    let ghost start = s@;
    while i < n
        invariant
            n == v.len(),
            v@ == t@,
            i <= n,
            s@ == start + v@.take(i as int),
        decreases n - i,
    {
        push_char(s, v[i]);
        assert(start + v@.take(i as int) + seq![v@[i as int]] =~= start + v@.take(i + 1));
        i += 1;
    }
    assert(v@.take(n as int) =~= v@);
}


/// `s` with every occurrence of `from` replaced by `to`, scanning left to
/// right without overlap (what `str::replace` gives for a non-empty pattern).
pub open spec fn replace_all(s: Seq<char>, from: Seq<char>, to: Seq<char>) -> Seq<char>
    decreases s.len(),
{
    if s.len() == 0 {
        s
    } else if from.len() > 0 && from.is_prefix_of(s) {
        to + replace_all(s.skip(from.len() as int), from, to)
    } else {
        seq![s[0]] + replace_all(s.drop_first(), from, to)
    }
}

/// Replaces every occurrence of `from` in `s` by `to` (as `str::replace`).
pub fn replace(s: &str, from: &str, to: &str) -> (r: String)
    requires
        from@.len() > 0,
    ensures
        r@ == replace_all(s@, from@, to@),
{
    let v = chars_of(s);
    let f = chars_of(from);
    let t = chars_of(to);
    let n = v.len();
    let m = f.len();
    let mut out: Vec<char> = Vec::new();
    let mut i: usize = 0;
    assert(v@.skip(0) =~= v@);
    while i < n
        invariant
            n == v.len(),
            m == f.len(),
            m > 0,
            i <= n,
            out@ + replace_all(v@.skip(i as int), f@, t@) == replace_all(v@, f@, t@),
        decreases n - i,
    {
        let ghost rest = v@.skip(i as int);
        let hit = m <= n - i && occurs_at(&v, &f, i);
        proof {
            if i + m <= n {
                if hit {
                    assert forall|q: int| 0 <= q < m implies f@[q] == rest[q] by {
                        assert(v@.subrange(i as int, i + m)[q] == v@[i + q]);
                    }
                    assert(rest.skip(m as int) =~= v@.skip(i + m));
                } else {
                    if f@.is_prefix_of(rest) {
                        assert(v@.subrange(i as int, i + m) =~= f@);
                    }
                }
            } else {
                assert(!f@.is_prefix_of(rest));
            }
        }
        if hit {
            let ghost before = out@;
            let mut k: usize = 0;
            while k < t.len()
                invariant
                    k <= t.len(),
                    out@ == before + t@.take(k as int),
                decreases t.len() - k,
            {
                out.push(t[k]);
                assert(before + t@.take(k as int) + seq![t@[k as int]] =~= before + t@.take(k + 1));
                k += 1;
            }
            assert(t@.take(t.len() as int) =~= t@);
            assert(out@ + replace_all(v@.skip(i + m), f@, t@) =~= before + (t@ + replace_all(
                rest.skip(m as int),
                f@,
                t@,
            )));
            i += m;
        } else {
            let ghost before = out@;
            out.push(v[i]);
            assert(rest.drop_first() =~= v@.skip(i + 1));
            assert(rest[0] == v@[i as int]);
            assert(out@ + replace_all(v@.skip(i + 1), f@, t@) =~= before + (seq![rest[0]]
                + replace_all(rest.drop_first(), f@, t@)));
            i += 1;
        }
    }
    assert(v@.skip(n as int) =~= Seq::<char>::empty());
    assert(out@ + replace_all(v@.skip(n as int), f@, t@) =~= out@);
    string_from_chars(&out)
}

// ---------------------------------------------------------------------------
// Numbers
// ---------------------------------------------------------------------------

/// The decimal digits of a number.
pub open spec fn decimal(n: nat) -> Seq<char>
    decreases n,
{
    if n < 10 {
        seq![digit_char(n)]
    } else {
        decimal(n / 10).push(digit_char(n % 10))
    }
}

/// The character of a decimal digit.
pub open spec fn digit_char(d: nat) -> char {
    if d == 0 {
        '0'
    } else if d == 1 {
        '1'
    } else if d == 2 {
        '2'
    } else if d == 3 {
        '3'
    } else if d == 4 {
        '4'
    } else if d == 5 {
        '5'
    } else if d == 6 {
        '6'
    } else if d == 7 {
        '7'
    } else if d == 8 {
        '8'
    } else {
        '9'
    }
}

fn digit(d: usize) -> (c: char)
    requires
        d < 10,
    ensures
        c == digit_char(d as nat),
{
    match d {
        0 => '0',
        1 => '1',
        2 => '2',
        3 => '3',
        4 => '4',
        5 => '5',
        6 => '6',
        7 => '7',
        8 => '8',
        _ => '9',
    }
}

/// Appends the decimal digits of `n`.
pub fn push_decimal(s: &mut String, n: usize)
    ensures
        final(s)@ == old(s)@ + decimal(n as nat),
    decreases n,
{
    if n < 10 {
        push_char(s, digit(n));
        assert(old(s)@.push(digit_char(n as nat)) =~= old(s)@ + decimal(n as nat));
    } else {
        push_decimal(s, n / 10);
        push_char(s, digit(n % 10));
        assert((old(s)@ + decimal((n / 10) as nat)).push(digit_char((n % 10) as nat)) =~= old(s)@ + decimal(n as nat));
    }
}

/// Replacing a text that starts with a character the string lacks changes
/// nothing.
pub proof fn lemma_replace_all_absent(s: Seq<char>, from: Seq<char>, to: Seq<char>)
    requires
        from.len() > 0,
        forall|i: int| 0 <= i < s.len() ==> s[i] != from[0],
    ensures
        replace_all(s, from, to) == s,
    decreases s.len(),
{
    if s.len() > 0 {
        if from.is_prefix_of(s) {
            assert(s[0] == from[0]);
        }
        lemma_replace_all_absent(s.drop_first(), from, to);
        assert(seq![s[0]] + s.drop_first() =~= s);
    }
}

/// The digits of a number are decimal digit characters.
pub proof fn lemma_decimal_digits(n: nat)
    ensures
        forall|i: int| 0 <= i < decimal(n).len() ==> '0' <= #[trigger] decimal(n)[i] <= '9',
    decreases n,
{
    if n < 10 {
        assert('0' <= digit_char(n) <= '9');
    } else {
        lemma_decimal_digits(n / 10);
        let prev = decimal(n / 10);
        let d = digit_char(n % 10);
        assert('0' <= d <= '9');
        assert(decimal(n) == prev.push(d));
        assert forall|i: int| 0 <= i < decimal(n).len() implies '0' <= #[trigger] decimal(n)[i] <= '9' by {
            if i < prev.len() {
                assert(decimal(n)[i] == prev[i]);
            }
        }
    }
}

/// Trimming a text that neither starts nor ends with white space gives it back.
pub proof fn lemma_trimmed_plain(t: Seq<char>)
    requires
        t.len() > 0,
        !is_white_space(t[0]),
        !is_white_space(t.last()),
    ensures
        trimmed(t) == t,
{
    assert(trim_front(t) == t);
    assert(trim_back(t) == t);
}

/// Lower-casing ASCII text without capital letters gives it back.
pub proof fn lemma_lowercase_plain(t: Seq<char>)
    requires
        forall|i: int| 0 <= i < t.len() ==> (#[trigger] t[i] as u32) < 128 && !('A' <= t[i] <= 'Z'),
    ensures
        lowercase(t) == t,
{
    assert(is_ascii_text(t));
    assert(ascii_lowercased(t) =~= t);
}

/// Upper-casing ASCII text without small letters gives it back.
pub proof fn lemma_uppercase_plain(t: Seq<char>)
    requires
        forall|i: int| 0 <= i < t.len() ==> (#[trigger] t[i] as u32) < 128 && !('a' <= t[i] <= 'z'),
    ensures
        uppercase(t) == t,
{
    assert(is_ascii_text(t));
    assert(ascii_uppercased(t) =~= t);
}

} // verus!
