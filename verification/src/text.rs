//! Character-level text primitives shared by the command, menu and storage
//! parsers: conversions between strings and character vectors, equality,
//! whitespace trimming, prefix handling and case folding.

use vstd::prelude::*;
use vstd::string::*;
use vstd::utf8::*;

verus! {

/// Whether `c` carries the Unicode `White_Space` property.
pub open spec fn is_space(c: char) -> bool {
    let u = c as u32;
    ||| 0x09 <= u <= 0x0D
    ||| u == 0x20
    ||| u == 0x85
    ||| u == 0xA0
    ||| u == 0x1680
    ||| 0x2000 <= u <= 0x200A
    ||| u == 0x2028
    ||| u == 0x2029
    ||| u == 0x202F
    ||| u == 0x205F
    ||| u == 0x3000
}

/// Number of `White_Space` characters at the front of `s`.
pub open spec fn leading_spaces(s: Seq<char>) -> nat
    decreases s.len(),
{
    if s.len() > 0 && is_space(s[0]) {
        1 + leading_spaces(s.skip(1))
    } else {
        0
    }
}

/// Number of `White_Space` characters at the back of `s`.
pub open spec fn trailing_spaces(s: Seq<char>) -> nat
    decreases s.len(),
{
    if s.len() > 0 && is_space(s.last()) {
        1 + trailing_spaces(s.drop_last())
    } else {
        0
    }
}

/// `s` without its leading whitespace.
pub open spec fn trim_start(s: Seq<char>) -> Seq<char> {
    s.skip(leading_spaces(s) as int)
}

/// `s` without its trailing whitespace.
pub open spec fn trim_end(s: Seq<char>) -> Seq<char> {
    s.take(s.len() - trailing_spaces(s))
}

/// `s` without leading and trailing whitespace.
pub open spec fn trimmed(s: Seq<char>) -> Seq<char> {
    trim_end(trim_start(s))
}

/// `s` after every leading repetition of the non-empty `prefix` is removed.
pub open spec fn strip_repeated(s: Seq<char>, prefix: Seq<char>) -> Seq<char>
    decreases s.len(),
{
    if prefix.len() > 0 && prefix.is_prefix_of(s) {
        strip_repeated(s.skip(prefix.len() as int), prefix)
    } else {
        s
    }
}

/// The lowercase form of a text, as `str::to_lowercase` computes it.
pub uninterp spec fn lowercase(text: Seq<char>) -> Seq<char>;

/// The leading whitespace is a run of spaces at the front, and what follows
/// it, if anything, is no space.
pub proof fn lemma_leading_spaces_bounds(s: Seq<char>)
    ensures
        leading_spaces(s) <= s.len(),
        forall|j: int| 0 <= j < leading_spaces(s) ==> is_space(#[trigger] s[j]),
        leading_spaces(s) < s.len() ==> !is_space(s[leading_spaces(s) as int]),
    decreases s.len(),
{
    if s.len() > 0 && is_space(s[0]) {
        let rest = s.skip(1);
        lemma_leading_spaces_bounds(rest);
        assert forall|j: int| 0 <= j < leading_spaces(s) implies is_space(#[trigger] s[j]) by {
            if j > 0 {
                assert(s[j] == rest[j - 1]);
            }
        }
        if leading_spaces(s) < s.len() {
            assert(s[leading_spaces(s) as int] == rest[leading_spaces(rest) as int]);
        }
    }
}

/// The trailing whitespace is a run of spaces at the back, and what stands
/// before it, if anything, is no space.
pub proof fn lemma_trailing_spaces_bounds(s: Seq<char>)
    ensures
        trailing_spaces(s) <= s.len(),
        forall|j: int| s.len() - trailing_spaces(s) <= j < s.len() ==> is_space(#[trigger] s[j]),
        trailing_spaces(s) < s.len() ==> !is_space(s[s.len() - trailing_spaces(s) - 1]),
    decreases s.len(),
{
    if s.len() > 0 && is_space(s.last()) {
        let rest = s.drop_last();
        lemma_trailing_spaces_bounds(rest);
        assert forall|j: int| s.len() - trailing_spaces(s) <= j < s.len() implies is_space(
            #[trigger] s[j],
        ) by {
            if j < s.len() - 1 {
                assert(s[j] == rest[j]);
            }
        }
        if trailing_spaces(s) < s.len() {
            assert(s[s.len() - trailing_spaces(s) - 1] == rest[rest.len() - trailing_spaces(rest)
                - 1]);
        }
    }
}

/// A run of `n` spaces at the front that is followed by the end of the text or
/// by a character that is no space is the whole leading whitespace.
pub proof fn lemma_leading_spaces_is(s: Seq<char>, n: int)
    requires
        0 <= n <= s.len(),
        forall|j: int| 0 <= j < n ==> is_space(#[trigger] s[j]),
        n < s.len() ==> !is_space(s[n]),
    ensures
        leading_spaces(s) == n,
    decreases n,
{
    if n > 0 {
        let rest = s.skip(1);
        assert forall|j: int| 0 <= j < n - 1 implies is_space(#[trigger] rest[j]) by {
            assert(rest[j] == s[j + 1]);
        }
        lemma_leading_spaces_is(rest, n - 1);
    }
}

/// A run of `n` spaces at the back that is preceded by the start of the text or
/// by a character that is no space is the whole trailing whitespace.
pub proof fn lemma_trailing_spaces_is(s: Seq<char>, n: int)
    requires
        0 <= n <= s.len(),
        forall|j: int| s.len() - n <= j < s.len() ==> is_space(#[trigger] s[j]),
        n < s.len() ==> !is_space(s[s.len() - n - 1]),
    ensures
        trailing_spaces(s) == n,
    decreases n,
{
    if n > 0 {
        let rest = s.drop_last();
        assert forall|j: int| rest.len() - (n - 1) <= j < rest.len() implies is_space(
            #[trigger] rest[j],
        ) by {
            assert(rest[j] == s[j]);
        }
        lemma_trailing_spaces_is(rest, n - 1);
    }
}

/// Trimming leaves no whitespace at either end, and trimming twice changes nothing.
pub proof fn lemma_trimmed_is_tight(s: Seq<char>)
    ensures
        trimmed(s).len() > 0 ==> !is_space(trimmed(s)[0]) && !is_space(trimmed(s).last()),
        trimmed(trimmed(s)) == trimmed(s),
{
    let a = trim_start(s);
    let t = trimmed(s);
    lemma_leading_spaces_bounds(s);
    lemma_trailing_spaces_bounds(a);
    if t.len() > 0 {
        assert(t[0] == a[0]);
        assert(a[0] == s[leading_spaces(s) as int]);
        assert(t.last() == a[a.len() - trailing_spaces(a) - 1]);
        lemma_leading_spaces_is(t, 0);
        lemma_trailing_spaces_is(t, 0);
        assert(t.skip(0) == t);
        assert(t.take(t.len() as int) == t);
    } else {
        assert(t.skip(0) == t);
        assert(t.take(0) == t);
    }
}

/// Appends one character. Calls `String::push`, which adds `c` at the end of
/// the string and leaves what was there before as it is.
#[verifier::external_body]
pub(crate) fn push_char(s: &mut String, c: char)
    ensures
        final(s)@ == old(s)@.push(c),
{
    s.push(c)
}

/// Case folding by `str::to_lowercase`. The contract only gives the result its
/// name: which characters come out is left to the standard library's tables.
#[verifier::external_body]
pub(crate) fn to_lowercase(text: &str) -> (lower: String)
    ensures
        lower@ == lowercase(text@),
{
    text.to_lowercase()
}

/// Whether `c` is a whitespace character.
pub fn is_whitespace(c: char) -> (r: bool)
    ensures
        r == is_space(c),
{
    let u: u32 = c as u32;
    (0x09 <= u && u <= 0x0D) || u == 0x20 || u == 0x85 || u == 0xA0 || u == 0x1680 || (0x2000 <= u
        && u <= 0x200A) || u == 0x2028 || u == 0x2029 || u == 0x202F || u == 0x205F || u == 0x3000
}

/// The characters of `s`, in order.
pub fn chars_of(s: &str) -> (chars: Vec<char>)
    ensures
        chars@ == s@,
{
    broadcast use vstd::string::group_string_axioms;

    let mut chars: Vec<char> = Vec::new();
    for c in it: s.chars()
        invariant
            it.seq() == s@,
            chars@ == s@.take(it.index() as int),
    {
        assert(s@.take(it.index() + 1) == s@.take(it.index() as int).push(c));
        chars.push(c);
    }
    assert(s@.take(s@.len() as int) == s@);
    chars
}

/// The string made of `chars[from..to]`.
pub(crate) fn string_of_range(chars: &Vec<char>, from: usize, to: usize) -> (s: String)
    requires
        from <= to <= chars.len(),
    ensures
        s@ == chars@.subrange(from as int, to as int),
{
    let mut s = String::new();
    let mut i: usize = from;
    while i < to
        invariant
            from <= i <= to <= chars.len(),
            s@ == chars@.subrange(from as int, i as int),
        decreases to - i,
    {
        push_char(&mut s, chars[i]);
        assert(chars@.subrange(from as int, i + 1) == chars@.subrange(from as int, i as int).push(
            chars@[i as int],
        ));
        i += 1;
    }
    s
}

/// The string made of all of `chars`.
pub fn string_of(chars: &Vec<char>) -> (s: String)
    ensures
        s@ == chars@,
{
    let s = string_of_range(chars, 0, chars.len());
    assert(chars@.subrange(0, chars@.len() as int) == chars@);
    s
}

/// Whether two strings hold the same characters.
pub fn str_eq(a: &str, b: &str) -> (r: bool)
    ensures
        r == (a@ == b@),
{
    broadcast use encode_utf8_decode_utf8;

    let x = a.as_bytes();
    let y = b.as_bytes();
    if x.len() != y.len() {
        return false;
    }
    let mut i: usize = 0;
    while i < x.len()
        invariant
            i <= x.len() == y.len(),
            x@ == a.spec_bytes(),
            y@ == b.spec_bytes(),
            forall|j: int| 0 <= j < i ==> x@[j] == y@[j],
        decreases x.len() - i,
    {
        if x[i] != y[i] {
            return false;
        }
        i += 1;
    }
    assert(x@ =~= y@);
    assert(decode_utf8(encode_utf8(a@)) == decode_utf8(encode_utf8(b@)));
    true
}

/// Whether `chars[at..]` begins with `prefix`.
pub(crate) fn has_prefix_at(chars: &Vec<char>, at: usize, prefix: &Vec<char>) -> (r: bool)
    requires
        at <= chars.len(),
    ensures
        r == prefix@.is_prefix_of(chars@.skip(at as int)),
{
    if prefix.len() > chars.len() - at {
        return false;
    }
    let mut i: usize = 0;
    while i < prefix.len()
        invariant
            at <= chars.len(),
            i <= prefix.len() <= chars.len() - at,
            forall|j: int| 0 <= j < i ==> prefix@[j] == chars@[at + j],
        decreases prefix.len() - i,
    {
        if prefix[i] != chars[at + i] {
            assert(chars@.skip(at as int)[i as int] == chars@[at + i]);
            return false;
        }
        i += 1;
    }
    assert(prefix@ =~= chars@.skip(at as int).subrange(0, prefix@.len() as int));
    true
}

/// Whether `s` begins with `prefix`.
pub fn starts_with(s: &str, prefix: &str) -> (r: bool)
    ensures
        r == prefix@.is_prefix_of(s@),
{
    let chars = chars_of(s);
    let pre = chars_of(prefix);
    assert(chars@.skip(0) == chars@);
    has_prefix_at(&chars, 0, &pre)
}

/// `s` without leading and trailing whitespace.
pub fn trim(s: &str) -> (t: String)
    ensures
        t@ == trimmed(s@),
{
    let chars = chars_of(s);
    let n: usize = chars.len();
    let mut a: usize = 0;
    while a < n && is_whitespace(chars[a])
        invariant
            a <= n == chars.len(),
            forall|j: int| 0 <= j < a ==> is_space(#[trigger] chars@[j]),
        decreases n - a,
    {
        a += 1;
    }
    proof {
        lemma_leading_spaces_is(chars@, a as int);
    }
    let ghost rest = chars@.skip(a as int);
    let mut b: usize = n;
    while b > a && is_whitespace(chars[b - 1])
        invariant
            a <= b <= n == chars.len(),
            forall|j: int| b <= j < n ==> is_space(#[trigger] chars@[j]),
        decreases b,
    {
        b -= 1;
    }
    proof {
        assert forall|j: int| rest.len() - (n - b) <= j < rest.len() implies is_space(
            #[trigger] rest[j],
        ) by {
            assert(rest[j] == chars@[a + j]);
        }
        if n - b < rest.len() {
            assert(rest[rest.len() - (n - b) - 1] == chars@[b - 1]);
        }
        lemma_trailing_spaces_is(rest, (n - b) as int);
        assert(rest.take(rest.len() - (n - b)) == chars@.subrange(a as int, b as int));
    }
    string_of_range(&chars, a, b)
}

/// `s` after every leading repetition of `prefix` is removed; `s` itself where
/// `prefix` is empty.
pub fn trim_start_matches(s: &str, prefix: &str) -> (t: String)
    ensures
        t@ == strip_repeated(s@, prefix@),
{
    let chars = chars_of(s);
    let pre = chars_of(prefix);
    let n: usize = chars.len();
    let mut at: usize = 0;
    assert(chars@.skip(0) == chars@);
    if pre.len() > 0 {
        while has_prefix_at(&chars, at, &pre)
            invariant
                at <= n == chars.len(),
                pre.len() > 0,
                strip_repeated(chars@, pre@) == strip_repeated(chars@.skip(at as int), pre@),
            decreases n - at,
        {
            assert(chars@.skip(at as int).skip(pre@.len() as int) == chars@.skip(at + pre@.len()));
            at += pre.len();
        }
    }
    assert(chars@.skip(at as int) == chars@.subrange(at as int, n as int));
    string_of_range(&chars, at, n)
}

/// `s` without trailing whitespace.
pub fn trim_end_of(s: &str) -> (t: String)
    ensures
        t@ == trim_end(s@),
{
    let chars = chars_of(s);
    let n: usize = chars.len();
    let mut b: usize = n;
    while b > 0 && is_whitespace(chars[b - 1])
        invariant
            b <= n == chars.len(),
            forall|j: int| b <= j < n ==> is_space(#[trigger] chars@[j]),
        decreases b,
    {
        b -= 1;
    }
    proof {
        lemma_trailing_spaces_is(chars@, (n - b) as int);
        assert(chars@.take(b as int) == chars@.subrange(0, b as int));
    }
    string_of_range(&chars, 0, b)
}

} // verus!
