//! Character- and string-level helpers: ASCII case mapping, whitespace
//! trimming, decimal rendering, and conversion between `String` and
//! `Vec<char>`.

use vstd::prelude::*;
use vstd::string::StrSliceExecFns;

verus! {

/// ASCII upper-casing of one character; other characters are unchanged.
pub open spec fn upper_char(c: char) -> char {
    match c {
        'a' => 'A', 'b' => 'B', 'c' => 'C', 'd' => 'D', 'e' => 'E', 'f' => 'F',
        'g' => 'G', 'h' => 'H', 'i' => 'I', 'j' => 'J', 'k' => 'K', 'l' => 'L',
        'm' => 'M', 'n' => 'N', 'o' => 'O', 'p' => 'P', 'q' => 'Q', 'r' => 'R',
        's' => 'S', 't' => 'T', 'u' => 'U', 'v' => 'V', 'w' => 'W', 'x' => 'X',
        'y' => 'Y', 'z' => 'Z',
        _ => c,
    }
}

/// ASCII lower-casing of one character; other characters are unchanged.
pub open spec fn lower_char(c: char) -> char {
    match c {
        'A' => 'a', 'B' => 'b', 'C' => 'c', 'D' => 'd', 'E' => 'e', 'F' => 'f',
        'G' => 'g', 'H' => 'h', 'I' => 'i', 'J' => 'j', 'K' => 'k', 'L' => 'l',
        'M' => 'm', 'N' => 'n', 'O' => 'o', 'P' => 'p', 'Q' => 'q', 'R' => 'r',
        'S' => 's', 'T' => 't', 'U' => 'u', 'V' => 'v', 'W' => 'w', 'X' => 'x',
        'Y' => 'y', 'Z' => 'z',
        _ => c,
    }
}

pub open spec fn upper_seq(s: Seq<char>) -> Seq<char> {
    s.map_values(|c: char| upper_char(c))
}

pub open spec fn lower_seq(s: Seq<char>) -> Seq<char> {
    s.map_values(|c: char| lower_char(c))
}

pub fn to_upper_char(c: char) -> (r: char)
    ensures
        r == upper_char(c),
{
    match c {
        'a' => 'A', 'b' => 'B', 'c' => 'C', 'd' => 'D', 'e' => 'E', 'f' => 'F',
        'g' => 'G', 'h' => 'H', 'i' => 'I', 'j' => 'J', 'k' => 'K', 'l' => 'L',
        'm' => 'M', 'n' => 'N', 'o' => 'O', 'p' => 'P', 'q' => 'Q', 'r' => 'R',
        's' => 'S', 't' => 'T', 'u' => 'U', 'v' => 'V', 'w' => 'W', 'x' => 'X',
        'y' => 'Y', 'z' => 'Z',
        _ => c,
    }
}

pub fn to_lower_char(c: char) -> (r: char)
    ensures
        r == lower_char(c),
{
    match c {
        'A' => 'a', 'B' => 'b', 'C' => 'c', 'D' => 'd', 'E' => 'e', 'F' => 'f',
        'G' => 'g', 'H' => 'h', 'I' => 'i', 'J' => 'j', 'K' => 'k', 'L' => 'l',
        'M' => 'm', 'N' => 'n', 'O' => 'o', 'P' => 'p', 'Q' => 'q', 'R' => 'r',
        'S' => 's', 'T' => 't', 'U' => 'u', 'V' => 'v', 'W' => 'w', 'X' => 'x',
        'Y' => 'y', 'Z' => 'z',
        _ => c,
    }
}

/// The characters of a string slice as a vector, in order.
pub fn chars_of(s: &str) -> (v: Vec<char>)
    ensures
        v@ == s@,
{
    let n = s.unicode_len();
    let mut v: Vec<char> = Vec::new();
    let mut i: usize = 0;
    while i < n
        invariant
            n == s@.len(),
            i <= n,
            v@ == s@.take(i as int),
        decreases n - i,
    {
        v.push(s.get_char(i));
        i = i + 1;
        proof {
            assert(v@ =~= s@.take(i as int));
        }
    }
    proof {
        assert(v@ =~= s@);
    }
    v
}

/// Relies on `String`'s `FromIterator<char>` implementation from std:
/// collecting a vector of characters yields the string of exactly those
/// characters, in order.
#[verifier::external_body]
pub fn string_from_chars(v: Vec<char>) -> (r: String)
    ensures
        r@ == v@,
{
    String::from_iter(v)
}

/// ASCII upper-casing of a whole string.
pub fn upper_string(s: &str) -> (r: String)
    ensures
        r@ == upper_seq(s@),
{
    let cs = chars_of(s);
    let n = cs.len();
    let mut out: Vec<char> = Vec::new();
    let mut i: usize = 0;
    while i < n
        invariant
            n == cs@.len(),
            cs@ == s@,
            i <= n,
            out@ == upper_seq(s@).take(i as int),
        decreases n - i,
    {
        out.push(to_upper_char(cs[i]));
        i = i + 1;
        proof {
            assert(out@ =~= upper_seq(s@).take(i as int));
        }
    }
    proof {
        assert(out@ =~= upper_seq(s@));
    }
    string_from_chars(out)
}

/// ASCII lower-casing of a whole string.
pub fn lower_string(s: &str) -> (r: String)
    ensures
        r@ == lower_seq(s@),
{
    let cs = chars_of(s);
    let n = cs.len();
    let mut out: Vec<char> = Vec::new();
    let mut i: usize = 0;
    while i < n
        invariant
            n == cs@.len(),
            cs@ == s@,
            i <= n,
            out@ == lower_seq(s@).take(i as int),
        decreases n - i,
    {
        out.push(to_lower_char(cs[i]));
        i = i + 1;
        proof {
            assert(out@ =~= lower_seq(s@).take(i as int));
        }
    }
    proof {
        assert(out@ =~= lower_seq(s@));
    }
    string_from_chars(out)
}

/// The whitespace characters that trimming removes: the ASCII whitespace
/// characters together with the Unicode `White_Space` code points.
pub open spec fn is_space_char(c: char) -> bool {
    c == ' ' || c == '\t' || c == '\n' || c == '\r' || c == '\u{000b}' || c == '\u{000c}'
        || c == '\u{0085}' || c == '\u{00a0}' || c == '\u{1680}'
        || ('\u{2000}' <= c && c <= '\u{200a}') || c == '\u{2028}' || c == '\u{2029}'
        || c == '\u{202f}' || c == '\u{205f}' || c == '\u{3000}'
}

pub fn is_space(c: char) -> (r: bool)
    ensures
        r == is_space_char(c),
{
    c == ' ' || c == '\t' || c == '\n' || c == '\r' || c == '\u{000b}' || c == '\u{000c}'
        || c == '\u{0085}' || c == '\u{00a0}' || c == '\u{1680}'
        || ('\u{2000}' <= c && c <= '\u{200a}') || c == '\u{2028}' || c == '\u{2029}'
        || c == '\u{202f}' || c == '\u{205f}' || c == '\u{3000}'
}

/// A sequence with all leading and trailing whitespace removed.
pub open spec fn trim_seq(s: Seq<char>) -> Seq<char>
    decreases s.len(),
{
    if s.len() == 0 {
        s
    } else if is_space_char(s[0]) {
        trim_seq(s.skip(1))
    } else if is_space_char(s.last()) {
        trim_seq(s.take(s.len() - 1))
    } else {
        s
    }
}

proof fn lemma_trim_inner(s: Seq<char>, lo: int, hi: int)
    requires
        0 <= lo <= hi <= s.len(),
        forall|i: int| 0 <= i < lo ==> is_space_char(s[i]),
        forall|i: int| hi <= i < s.len() ==> is_space_char(s[i]),
        lo < hi ==> !is_space_char(s[lo]) && !is_space_char(s[hi - 1]),
    ensures
        trim_seq(s) == s.subrange(lo, hi),
    decreases s.len(),
{
    if lo == hi {
        if s.len() == 0 {
            assert(trim_seq(s) =~= s.subrange(lo, hi));
        } else {
            assert(is_space_char(s[0]));
            let l2: int = if lo <= 1 { 0 } else { lo - 1 };
            lemma_trim_inner(s.skip(1), l2, l2);
            assert(trim_seq(s) == trim_seq(s.skip(1)));
            assert(trim_seq(s.skip(1)) =~= s.subrange(lo, hi));
        }
    } else if is_space_char(s[0]) {
        assert(lo > 0);
        lemma_trim_inner(s.skip(1), lo - 1, hi - 1);
        assert(s.skip(1).subrange(lo - 1, hi - 1) =~= s.subrange(lo, hi));
    } else if is_space_char(s.last()) {
        assert(hi < s.len());
        lemma_trim_inner(s.take(s.len() - 1), lo, hi);
        assert(s.take(s.len() - 1).subrange(lo, hi) =~= s.subrange(lo, hi));
    } else {
        assert(lo == 0 && hi == s.len());
        assert(trim_seq(s) == s);
        assert(s.subrange(0, s.len() as int) =~= s);
    }
}

/// A string with leading and trailing whitespace removed.
pub fn trim_string(s: &str) -> (r: String)
    ensures
        r@ == trim_seq(s@),
{
    let cs = chars_of(s);
    let n = cs.len();
    let mut lo: usize = 0;
    while lo < n && is_space(cs[lo])
        invariant
            n == cs@.len(),
            lo <= n,
            forall|i: int| 0 <= i < lo ==> is_space_char(cs@[i]),
        decreases n - lo,
    {
        lo = lo + 1;
    }
    let mut hi: usize = n;
    while hi > lo && is_space(cs[hi - 1])
        invariant
            n == cs@.len(),
            lo <= hi <= n,
            forall|i: int| hi <= i < n ==> is_space_char(cs@[i]),
            lo < hi ==> !is_space_char(cs@[lo as int]),
            lo < n ==> lo < hi,
        decreases hi,
    {
        hi = hi - 1;
    }
    let mut out: Vec<char> = Vec::new();
    let mut i: usize = lo;
    while i < hi
        invariant
            n == cs@.len(),
            lo <= i <= hi <= n,
            out@ == cs@.subrange(lo as int, i as int),
        decreases hi - i,
    {
        out.push(cs[i]);
        i = i + 1;
        proof {
            assert(out@ =~= cs@.subrange(lo as int, i as int));
        }
    }
    proof {
        lemma_trim_inner(cs@, lo as int, hi as int);
    }
    string_from_chars(out)
}

/// Every `/` replaced by `_`.
pub open spec fn underscored(s: Seq<char>) -> Seq<char> {
    s.map_values(|c: char| if c == '/' { '_' } else { c })
}

/// A sequence with all leading and trailing `_` removed.
pub open spec fn trim_underscores(s: Seq<char>) -> Seq<char>
    decreases s.len(),
{
    if s.len() == 0 {
        s
    } else if s[0] == '_' {
        trim_underscores(s.skip(1))
    } else if s.last() == '_' {
        trim_underscores(s.take(s.len() - 1))
    } else {
        s
    }
}

proof fn lemma_trim_underscores_inner(s: Seq<char>, lo: int, hi: int)
    requires
        0 <= lo <= hi <= s.len(),
        forall|i: int| 0 <= i < lo ==> s[i] == '_',
        forall|i: int| hi <= i < s.len() ==> s[i] == '_',
        lo < hi ==> s[lo] != '_' && s[hi - 1] != '_',
    ensures
        trim_underscores(s) == s.subrange(lo, hi),
    decreases s.len(),
{
    if lo == hi {
        if s.len() == 0 {
            assert(trim_underscores(s) =~= s.subrange(lo, hi));
        } else {
            assert(s[0] == '_');
            let l2: int = if lo <= 1 { 0 } else { lo - 1 };
            lemma_trim_underscores_inner(s.skip(1), l2, l2);
            assert(trim_underscores(s.skip(1)) =~= s.subrange(lo, hi));
        }
    } else if s[0] == '_' {
        assert(lo > 0);
        lemma_trim_underscores_inner(s.skip(1), lo - 1, hi - 1);
        assert(s.skip(1).subrange(lo - 1, hi - 1) =~= s.subrange(lo, hi));
    } else if s.last() == '_' {
        assert(hi < s.len());
        lemma_trim_underscores_inner(s.take(s.len() - 1), lo, hi);
        assert(s.take(s.len() - 1).subrange(lo, hi) =~= s.subrange(lo, hi));
    } else {
        assert(lo == 0 && hi == s.len());
        assert(s.subrange(0, s.len() as int) =~= s);
    }
}

/// The path part of an exported operation id: the path with `/` replaced
/// by `_` and all leading and trailing `_` removed.
pub fn operation_path_id(path: &str) -> (r: String)
    ensures
        r@ == trim_underscores(underscored(path@)),
{
    let cs = chars_of(path);
    let n = cs.len();
    let mut mapped: Vec<char> = Vec::new();
    let mut i: usize = 0;
    while i < n
        invariant
            n == cs@.len(),
            cs@ == path@,
            i <= n,
            mapped@ == underscored(path@).take(i as int),
        decreases n - i,
    {
        let c = cs[i];
        mapped.push(if c == '/' { '_' } else { c });
        i = i + 1;
        proof {
            assert(mapped@ =~= underscored(path@).take(i as int));
        }
    }
    proof {
        assert(mapped@ =~= underscored(path@));
    }
    let mut lo: usize = 0;
    while lo < n && mapped[lo] == '_'
        invariant
            n == mapped@.len(),
            lo <= n,
            forall|x: int| 0 <= x < lo ==> mapped@[x] == '_',
        decreases n - lo,
    {
        lo = lo + 1;
    }
    let mut hi: usize = n;
    while hi > lo && mapped[hi - 1] == '_'
        invariant
            n == mapped@.len(),
            lo <= hi <= n,
            forall|x: int| hi <= x < n ==> mapped@[x] == '_',
            lo < hi ==> mapped@[lo as int] != '_',
            lo < n ==> lo < hi,
        decreases hi,
    {
        hi = hi - 1;
    }
    let mut out: Vec<char> = Vec::new();
    let mut j: usize = lo;
    while j < hi
        invariant
            n == mapped@.len(),
            lo <= j <= hi <= n,
            out@ == mapped@.subrange(lo as int, j as int),
        decreases hi - j,
    {
        out.push(mapped[j]);
        j = j + 1;
        proof {
            assert(out@ =~= mapped@.subrange(lo as int, j as int));
        }
    }
    proof {
        lemma_trim_underscores_inner(mapped@, lo as int, hi as int);
    }
    string_from_chars(out)
}

/// The character for a decimal digit.
pub open spec fn digit_char(d: int) -> char {
    if d == 0 { '0' } else if d == 1 { '1' } else if d == 2 { '2' }
    else if d == 3 { '3' } else if d == 4 { '4' } else if d == 5 { '5' }
    else if d == 6 { '6' } else if d == 7 { '7' } else if d == 8 { '8' }
    else { '9' }
}

/// The decimal rendering of a number, most significant digit first.
pub open spec fn dec_seq(n: nat) -> Seq<char>
    decreases n,
{
    if n < 10 {
        seq![digit_char(n as int)]
    } else {
        dec_seq(n / 10).push(digit_char((n % 10) as int))
    }
}

fn digit_to_char(d: u16) -> (c: char)
    requires
        d < 10,
    ensures
        c == digit_char(d as int),
{
    match d {
        0u16 => '0', 1u16 => '1', 2u16 => '2', 3u16 => '3', 4u16 => '4',
        5u16 => '5', 6u16 => '6', 7u16 => '7', 8u16 => '8', _ => '9',
    }
}

/// The decimal rendering of a 16-bit number, as a string.
pub fn u16_to_string(n: u16) -> (r: String)
    ensures
        r@ == dec_seq(n as nat),
{
    let mut digits: Vec<char> = Vec::new();
    let mut m: u16 = n;
    while m >= 10
        invariant
            dec_seq(n as nat) == dec_seq(m as nat) + digits@.reverse(),
        decreases m,
    {
        let ghost prev = digits@;
        digits.push(digit_to_char(m % 10));
        proof {
            assert(digits@.reverse() =~= seq![digit_char((m % 10) as int)] + prev.reverse());
            assert(dec_seq((m / 10) as nat).push(digit_char((m % 10) as int))
                + prev.reverse() =~= dec_seq((m / 10) as nat) + digits@.reverse());
        }
        m = m / 10;
    }
    let ghost prev = digits@;
    digits.push(digit_to_char(m));
    proof {
        assert(dec_seq(m as nat) =~= seq![digit_char(m as int)]);
        assert(digits@.reverse() =~= seq![digit_char(m as int)] + prev.reverse());
        assert(dec_seq(n as nat) == digits@.reverse());
    }
    let rev = digits;
    let k = rev.len();
    let mut out: Vec<char> = Vec::new();
    let mut i: usize = 0;
    while i < k
        invariant
            k == rev@.len(),
            i <= k,
            out@ == rev@.reverse().take(i as int),
        decreases k - i,
    {
        out.push(rev[k - 1 - i]);
        i = i + 1;
        proof {
            assert(out@ =~= rev@.reverse().take(i as int));
        }
    }
    proof {
        assert(out@ =~= rev@.reverse());
    }
    string_from_chars(out)
}

} // verus!
