//! Small text helpers shared by the rest of the library.
use vstd::prelude::*;
use vstd::string::StringSliceAdditionalSpecFns;
use vstd::utf8::{encode_utf8, encode_utf8_decode_utf8};

verus! {

/// Appends one character to a string (`String::push`).
///
/// Trusted: the standard library documents that `push` appends the given
/// character to the end of the string; this contract states exactly that.
#[verifier::external_body]
pub(crate) fn push_char(s: &mut String, c: char)
    ensures
        final(s)@ == old(s)@.push(c),
{
    s.push(c);
}

/// The decimal digit character for `d < 10`.
pub open spec fn digit_char(d: nat) -> char
    recommends
        d < 10,
{
    ((48 + d) as u8) as char
}

/// The decimal notation of `n`, without sign or leading zeros.
pub open spec fn decimal(n: nat) -> Seq<char>
    decreases n,
{
    if n < 10 {
        seq![digit_char(n)]
    } else {
        decimal(n / 10).push(digit_char(n % 10))
    }
}

/// Appends the decimal notation of `n` to `s`.
pub fn push_decimal(s: &mut String, n: u64)
    ensures
        final(s)@ == old(s)@ + decimal(n as nat),
    decreases n,
{
    if n >= 10 {
        push_decimal(s, n / 10);
    }
    let d: u8 = (n % 10) as u8;
    push_char(s, (48u8 + d) as char);
    assert(final(s)@ =~= old(s)@ + decimal(n as nat));
}

/// Whether two string slices hold the same characters.
pub fn str_eq(a: &str, b: &str) -> (same: bool)
    ensures
        same == (a@ == b@),
{
    let x = a.as_bytes();
    let y = b.as_bytes();
    proof {
        encode_utf8_decode_utf8(a@);
        encode_utf8_decode_utf8(b@);
    }
    if x.len() != y.len() {
        return false;
    }
    let mut i: usize = 0;
    while i < x.len()
        invariant
            x@ == encode_utf8(a@),
            y@ == encode_utf8(b@),
            x@.len() == y@.len(),
            i <= x@.len(),
            forall|j: int| 0 <= j < i ==> x@[j] == y@[j],
        decreases x@.len() - i,
    {
        if x[i] != y[i] {
            return false;
        }
        i = i + 1;
    }
    assert(x@ =~= y@);
    true
}

/// The characters of a string slice, one by one.
pub fn chars_of(s: &str) -> (cs: Vec<char>)
    ensures
        cs@ == s@,
{
    let n: usize = s.unicode_len();
    let mut cs: Vec<char> = Vec::new();
    let mut i: usize = 0;
    while i < n
        invariant
            n == s@.len(),
            i <= n,
            cs@ == s@.take(i as int),
        decreases n - i,
    {
        cs.push(s.get_char(i));
        assert(cs@ =~= s@.take(i + 1));
        i = i + 1;
    }
    assert(cs@ =~= s@);
    cs
}

/// The string made of the characters `cs[from..to]`.
pub fn string_of_range(cs: &Vec<char>, from: usize, to: usize) -> (s: String)
    requires
        from <= to <= cs@.len(),
    ensures
        s@ == cs@.subrange(from as int, to as int),
{
    let mut s = String::new();
    let mut i: usize = from;
    while i < to
        invariant
            from <= i <= to,
            to <= cs@.len(),
            s@ == cs@.subrange(from as int, i as int),
        decreases to - i,
    {
        push_char(&mut s, cs[i]);
        assert(s@ =~= cs@.subrange(from as int, i + 1));
        i = i + 1;
    }
    s
}

/// A copy of a string slice.
pub fn copy_str(s: &str) -> (r: String)
    ensures
        r@ == s@,
{
    String::from_str(s)
}

/// `char::is_whitespace`: the Unicode `White_Space` characters.
pub open spec fn is_whitespace(c: char) -> bool {
    ||| c == ' '
    ||| ('\t' <= c && c <= '\r')
    ||| c == '\u{85}'
    ||| c == '\u{a0}'
    ||| c == '\u{1680}'
    ||| ('\u{2000}' <= c && c <= '\u{200a}')
    ||| c == '\u{2028}'
    ||| c == '\u{2029}'
    ||| c == '\u{202f}'
    ||| c == '\u{205f}'
    ||| c == '\u{3000}'
}

/// A class of characters to trim.
#[derive(PartialEq, Eq, Structural, Clone, Copy)]
pub enum CharClass {
    Whitespace,
    Exactly(char),
}

pub open spec fn in_class(cls: CharClass, c: char) -> bool {
    match cls {
        CharClass::Whitespace => is_whitespace(c),
        CharClass::Exactly(d) => c == d,
    }
}

fn in_class_exec(cls: CharClass, c: char) -> (b: bool)
    ensures
        b == in_class(cls, c),
{
    match cls {
        CharClass::Whitespace => {
            c == ' ' || ('\t' <= c && c <= '\r') || c == '\u{85}' || c == '\u{a0}' || c == '\u{1680}'
                || ('\u{2000}' <= c && c <= '\u{200a}') || c == '\u{2028}' || c == '\u{2029}'
                || c == '\u{202f}' || c == '\u{205f}' || c == '\u{3000}'
        },
        CharClass::Exactly(d) => c == d,
    }
}

/// `cs` without its leading characters of class `cls`.
pub open spec fn trim_start(cs: Seq<char>, cls: CharClass) -> Seq<char>
    decreases cs.len(),
{
    if cs.len() > 0 && in_class(cls, cs[0]) {
        trim_start(cs.drop_first(), cls)
    } else {
        cs
    }
}

/// `cs` without its trailing characters of class `cls`.
pub open spec fn trim_end(cs: Seq<char>, cls: CharClass) -> Seq<char>
    decreases cs.len(),
{
    if cs.len() > 0 && in_class(cls, cs.last()) {
        trim_end(cs.drop_last(), cls)
    } else {
        cs
    }
}

/// `cs` without leading and trailing characters of class `cls`
/// (`str::trim` for whitespace, `str::trim_matches` for one character).
pub open spec fn trim(cs: Seq<char>, cls: CharClass) -> Seq<char> {
    trim_end(trim_start(cs, cls), cls)
}

/// Bounds `[a, b)` of `trim(cs@, cls)` in `cs`.
pub fn trim_bounds(cs: &Vec<char>, from: usize, to: usize, cls: CharClass) -> (r: (usize, usize))
    requires
        from <= to <= cs@.len(),
    ensures
        from <= r.0 <= r.1 <= to,
        cs@.subrange(r.0 as int, r.1 as int) == trim(cs@.subrange(from as int, to as int), cls),
{
    let ghost whole = cs@.subrange(from as int, to as int);
    let mut a: usize = from;
    while a < to && in_class_exec(cls, cs[a])
        invariant
            from <= a <= to,
            to <= cs@.len(),
            trim_start(whole, cls) == trim_start(cs@.subrange(a as int, to as int), cls),
        decreases to - a,
    {
        assert(cs@.subrange(a as int, to as int).drop_first() =~= cs@.subrange(a + 1, to as int));
        a = a + 1;
    }
    assert(trim_start(cs@.subrange(a as int, to as int), cls) == cs@.subrange(a as int, to as int));
    let mut b: usize = to;
    while b > a && in_class_exec(cls, cs[b - 1])
        invariant
            from <= a <= b <= to,
            to <= cs@.len(),
            trim(whole, cls) == trim_end(cs@.subrange(a as int, b as int), cls),
        decreases b - a,
    {
        assert(cs@.subrange(a as int, b as int).drop_last() =~= cs@.subrange(a as int, b - 1));
        b = b - 1;
    }
    (a, b)
}

/// End `b` of `trim_end(cs@[from..to], cls)` in `cs`.
pub fn trim_end_bound(cs: &Vec<char>, from: usize, to: usize, cls: CharClass) -> (b: usize)
    requires
        from <= to <= cs@.len(),
    ensures
        from <= b <= to,
        cs@.subrange(from as int, b as int) == trim_end(cs@.subrange(from as int, to as int), cls),
{
    let mut b: usize = to;
    while b > from && in_class_exec(cls, cs[b - 1])
        invariant
            from <= b <= to,
            to <= cs@.len(),
            trim_end(cs@.subrange(from as int, to as int), cls) == trim_end(cs@.subrange(from as int, b as int), cls),
        decreases b - from,
    {
        assert(cs@.subrange(from as int, b as int).drop_last() =~= cs@.subrange(from as int, b - 1));
        b = b - 1;
    }
    b
}

/// `s` without leading and trailing whitespace (`str::trim`).
pub fn trim_whitespace(s: &str) -> (r: String)
    ensures
        r@ == trim(s@, CharClass::Whitespace),
{
    let cs = chars_of(s);
    let (a, b): (usize, usize) = trim_bounds(&cs, 0, cs.len(), CharClass::Whitespace);
    assert(cs@.subrange(0, cs@.len() as int) =~= cs@);
    string_of_range(&cs, a, b)
}

/// Whether `cs` begins with `prefix`.
pub open spec fn starts_with(cs: Seq<char>, prefix: Seq<char>) -> bool {
    prefix.len() <= cs.len() && cs.subrange(0, prefix.len() as int) == prefix
}

/// Whether `pat` occurs in `cs`.
pub open spec fn contains_seq(cs: Seq<char>, pat: Seq<char>) -> bool {
    exists|i: int| 0 <= i && i + pat.len() <= cs.len() && #[trigger] cs.subrange(i, i + pat.len()) == pat
}

/// Whether `cs[at..]` begins with `pat`.
pub fn matches_at(cs: &Vec<char>, at: usize, pat: &Vec<char>) -> (b: bool)
    requires
        at <= cs@.len(),
    ensures
        b == (at + pat@.len() <= cs@.len() && cs@.subrange(at as int, at + pat@.len()) == pat@),
{
    if pat.len() > cs.len() - at {
        return false;
    }
    let mut k: usize = 0;
    while k < pat.len()
        invariant
            k <= pat@.len(),
            at <= cs@.len(),
            cs@.len() == cs.len(),
            at + pat@.len() <= cs@.len(),
            forall|m: int| 0 <= m < k ==> cs@[at + m] == pat@[m],
        decreases pat@.len() - k,
    {
        if cs[at + k] != pat[k] {
            assert(cs@.subrange(at as int, at + pat@.len())[k as int] != pat@[k as int]);
            return false;
        }
        k = k + 1;
    }
    assert(cs@.subrange(at as int, at + pat@.len()) =~= pat@);
    true
}

/// Whether `pat` occurs in `s` (`str::contains`).
pub fn contains_str(s: &str, pat: &str) -> (b: bool)
    ensures
        b == contains_seq(s@, pat@),
{
    let cs = chars_of(s);
    let ps = chars_of(pat);
    let mut i: usize = 0;
    while i < cs.len()
        invariant
            cs@ == s@,
            ps@ == pat@,
            i <= cs@.len(),
            forall|j: int| 0 <= j < i && j + pat@.len() <= s@.len() ==> #[trigger] s@.subrange(j, j + pat@.len()) != pat@,
        decreases cs@.len() - i,
    {
        if matches_at(&cs, i, &ps) {
            return true;
        }
        i = i + 1;
    }
    if matches_at(&cs, i, &ps) {
        return true;
    }
    assert(!contains_seq(s@, pat@)) by {
        if contains_seq(s@, pat@) {
            let j = choose|j: int| 0 <= j && j + pat@.len() <= s@.len() && #[trigger] s@.subrange(j, j + pat@.len()) == pat@;
            assert(j <= s@.len());
        }
    }
    false
}

} // verus!
