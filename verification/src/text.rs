//! Small verified text utilities: ASCII case folding, whitespace trimming,
//! substring search and decimal rendering of integers.
use vstd::prelude::*;
use vstd::string::*;

verus! {

/// `String::push` appends one character.
pub assume_specification[ String::push ](s: &mut String, ch: char)
    ensures
        final(s)@ == old(s)@.push(ch),
;

/// ASCII lower-casing of one character; everything else is left alone.
pub open spec fn ascii_lower(c: char) -> char {
    if 'A' <= c && c <= 'Z' {
        ((c as u32) + 32) as char
    } else {
        c
    }
}

/// ASCII upper-casing of one character; everything else is left alone.
pub open spec fn ascii_upper(c: char) -> char {
    if 'a' <= c && c <= 'z' {
        ((c as u32) - 32) as char
    } else {
        c
    }
}

/// ASCII lower-casing of a whole text.
pub open spec fn lower(s: Seq<char>) -> Seq<char> {
    s.map_values(|c: char| ascii_lower(c))
}

/// ASCII upper-casing of a whole text.
pub open spec fn upper(s: Seq<char>) -> Seq<char> {
    s.map_values(|c: char| ascii_upper(c))
}

/// The characters Rust's `char::is_whitespace` accepts (Unicode `White_Space`).
pub open spec fn is_white(c: char) -> bool {
    let u = c as u32;
    (0x09 <= u && u <= 0x0d) || u == 0x20 || u == 0x85 || u == 0xa0 || u == 0x1680 || (0x2000 <= u
        && u <= 0x200a) || u == 0x2028 || u == 0x2029 || u == 0x202f || u == 0x205f || u == 0x3000
}

/// Whether `needle` occurs in `hay` as a contiguous run.
pub open spec fn occurs_in(hay: Seq<char>, needle: Seq<char>) -> bool {
    exists|i: int|
        0 <= i && i + needle.len() <= hay.len() && #[trigger] hay.subrange(i, i + needle.len())
            == needle
}

/// The first index at which `s` holds no white space, from `from` on (or `s.len()`).
pub open spec fn skip_white(s: Seq<char>, from: int) -> int
    decreases s.len() - from,
{
    if from >= s.len() || from < 0 {
        from
    } else if is_white(s[from]) {
        skip_white(s, from + 1)
    } else {
        from
    }
}

/// One past the last index below `to` at which `s` holds no white space (or `start`).
pub open spec fn skip_white_back(s: Seq<char>, start: int, to: int) -> int
    decreases to - start,
{
    if to <= start {
        start
    } else if is_white(s[to - 1]) {
        skip_white_back(s, start, to - 1)
    } else {
        to
    }
}

/// `s` without leading and trailing white space, as `str::trim` gives it.
pub open spec fn trimmed(s: Seq<char>) -> Seq<char> {
    let start = skip_white(s, 0);
    s.subrange(start, skip_white_back(s, start, s.len() as int))
}

/// The decimal digits of a natural number, most significant first.
pub open spec fn decimal(n: nat) -> Seq<char>
    decreases n,
{
    if n < 10 {
        seq![digit(n)]
    } else {
        decimal(n / 10).push(digit(n % 10))
    }
}

/// The character of a decimal digit.
pub open spec fn digit(d: nat) -> char {
    (('0' as u32) + d) as char
}

/// The decimal rendering of an integer, with a leading `-` for negatives.
pub open spec fn signed_decimal(n: int) -> Seq<char> {
    if n < 0 {
        seq!['-'] + decimal((-n) as nat)
    } else {
        decimal(n as nat)
    }
}

pub proof fn lemma_skip_white_bounds(s: Seq<char>, from: int)
    requires
        0 <= from <= s.len(),
    ensures
        from <= skip_white(s, from) <= s.len(),
        forall|k: int| from <= k < skip_white(s, from) ==> is_white(s[k]),
        skip_white(s, from) < s.len() ==> !is_white(s[skip_white(s, from)]),
    decreases s.len() - from,
{
    if from < s.len() && is_white(s[from]) {
        lemma_skip_white_bounds(s, from + 1);
    }
}

pub proof fn lemma_skip_white_back_bounds(s: Seq<char>, start: int, to: int)
    requires
        0 <= start <= to <= s.len(),
    ensures
        start <= skip_white_back(s, start, to) <= to,
        forall|k: int| skip_white_back(s, start, to) <= k < to ==> is_white(s[k]),
        skip_white_back(s, start, to) > start ==> !is_white(s[skip_white_back(s, start, to) - 1]),
    decreases to - start,
{
    if to > start && is_white(s[to - 1]) {
        lemma_skip_white_back_bounds(s, start, to - 1);
    }
}

/// Whether a character is white space, as `char::is_whitespace` decides.
pub fn is_whitespace(c: char) -> (b: bool)
    ensures
        b == is_white(c),
{
    let u = c as u32;
    (0x09 <= u && u <= 0x0d) || u == 0x20 || u == 0x85 || u == 0xa0 || u == 0x1680 || (0x2000 <= u
        && u <= 0x200a) || u == 0x2028 || u == 0x2029 || u == 0x202f || u == 0x205f || u == 0x3000
}

/// ASCII lower-casing of one character.
pub fn to_ascii_lower(c: char) -> (l: char)
    ensures
        l == ascii_lower(c),
{
    if 'A' <= c && c <= 'Z' {
        let b = (c as u32) + 32;
        assert(b < 256);
        (b as u8) as char
    } else {
        c
    }
}

/// ASCII upper-casing of one character.
pub fn to_ascii_upper(c: char) -> (u: char)
    ensures
        u == ascii_upper(c),
{
    if 'a' <= c && c <= 'z' {
        let b = (c as u32) - 32;
        assert(b < 256);
        (b as u8) as char
    } else {
        c
    }
}

/// The characters of a text.
pub fn chars_of(s: &str) -> (v: Vec<char>)
    ensures
        v@ == s@,
{
    let n = s.unicode_len();
    let mut v: Vec<char> = Vec::new();
    let mut i: usize = 0;
    while i < n
        invariant
            n == s@.len(),
            i <= n,
            v@ == s@.subrange(0, i as int),
        decreases n - i,
    {
        v.push(s.get_char(i));
        proof {
            assert(s@.subrange(0, i + 1) =~= s@.subrange(0, i as int).push(s@[i as int]));
        }
        i = i + 1;
    }
    assert(s@.subrange(0, n as int) =~= s@);
    v
}

/// A text made of the given characters.
pub fn string_of(v: &[char]) -> (s: String)
    ensures
        s@ == v@,
{
    let mut s = String::new();
    let mut i: usize = 0;
    while i < v.len()
        invariant
            i <= v@.len(),
            s@ == v@.subrange(0, i as int),
        decreases v@.len() - i,
    {
        s.push(v[i]);
        proof {
            assert(v@.subrange(0, i + 1) =~= v@.subrange(0, i as int).push(v@[i as int]));
        }
        i = i + 1;
    }
    assert(v@.subrange(0, v@.len() as int) =~= v@);
    s
}

/// ASCII lower-casing of a sequence of characters.
pub fn lower_chars(v: &[char]) -> (l: Vec<char>)
    ensures
        l@ == lower(v@),
{
    let mut l: Vec<char> = Vec::new();
    let mut i: usize = 0;
    while i < v.len()
        invariant
            i <= v@.len(),
            l@ == lower(v@.subrange(0, i as int)),
        decreases v@.len() - i,
    {
        l.push(to_ascii_lower(v[i]));
        proof {
            assert(lower(v@.subrange(0, i + 1)) =~= lower(v@.subrange(0, i as int)).push(
                ascii_lower(v@[i as int]),
            ));
        }
        i = i + 1;
    }
    assert(v@.subrange(0, v@.len() as int) =~= v@);
    l
}

/// ASCII upper-casing of a sequence of characters.
pub fn upper_chars(v: &[char]) -> (u: Vec<char>)
    ensures
        u@ == upper(v@),
{
    let mut u: Vec<char> = Vec::new();
    let mut i: usize = 0;
    while i < v.len()
        invariant
            i <= v@.len(),
            u@ == upper(v@.subrange(0, i as int)),
        decreases v@.len() - i,
    {
        u.push(to_ascii_upper(v[i]));
        proof {
            assert(upper(v@.subrange(0, i + 1)) =~= upper(v@.subrange(0, i as int)).push(
                ascii_upper(v@[i as int]),
            ));
        }
        i = i + 1;
    }
    assert(v@.subrange(0, v@.len() as int) =~= v@);
    u
}

/// Whether two texts are equal when ASCII letters are compared without case,
/// as `str::eq_ignore_ascii_case` decides.
pub fn eq_ignore_ascii_case(a: &str, b: &str) -> (eq: bool)
    ensures
        eq == (lower(a@) == lower(b@)),
{
    let x = chars_of(a);
    let y = chars_of(b);
    if x.len() != y.len() {
        assert(lower(a@).len() != lower(b@).len());
        return false;
    }
    let mut i: usize = 0;
    while i < x.len()
        invariant
            x@ == a@,
            y@ == b@,
            x@.len() == y@.len(),
            i <= x@.len(),
            forall|k: int| 0 <= k < i ==> ascii_lower(x@[k]) == ascii_lower(y@[k]),
        decreases x@.len() - i,
    {
        if to_ascii_lower(x[i]) != to_ascii_lower(y[i]) {
            assert(lower(a@)[i as int] != lower(b@)[i as int]);
            return false;
        }
        i = i + 1;
    }
    assert(lower(a@) =~= lower(b@));
    true
}

/// Whether `needle` occurs in `hay`.
pub fn occurs(hay: &[char], needle: &[char]) -> (found: bool)
    ensures
        found == occurs_in(hay@, needle@),
{
    if needle.len() > hay.len() {
        return false;
    }
    if needle.len() == 0 {
        assert(hay@.subrange(0, 0 + needle@.len() as int) =~= needle@);
        return true;
    }
    let hay_len = hay.len();
    let last = hay_len - needle.len();
    let mut i: usize = 0;
    while i <= last
        invariant
            hay_len == hay@.len(),
            0 < needle@.len() <= hay@.len(),
            last == hay@.len() - needle@.len(),
            i <= last + 1,
            forall|j: int| 0 <= j < i ==> #[trigger] hay@.subrange(j, j + needle@.len()) != needle@,
        decreases last + 1 - i,
    {
        let mut k: usize = 0;
        let mut same = true;
        while k < needle.len()
            invariant
                hay_len == hay@.len(),
                0 < needle@.len() <= hay@.len(),
                i <= last,
                last == hay@.len() - needle@.len(),
                k <= needle@.len(),
                same <==> forall|m: int| 0 <= m < k ==> hay@[i + m] == needle@[m],
            decreases needle@.len() - k,
        {
            if hay[i + k] != needle[k] {
                same = false;
            }
            k = k + 1;
        }
        if same {
            assert(hay@.subrange(i as int, i + needle@.len()) =~= needle@);
            return true;
        }
        proof {
            let ghost m = choose|m: int| 0 <= m < needle@.len() && hay@[i + m] != needle@[m];
            assert(hay@.subrange(i as int, i + needle@.len())[m] != needle@[m]);
        }
        i = i + 1;
    }
    proof {
        assert forall|j: int|
            0 <= j && j + needle@.len() <= hay@.len() implies #[trigger] hay@.subrange(
            j,
            j + needle@.len(),
        ) != needle@ by {}
    }
    false
}

/// A sequence of characters without leading and trailing white space.
pub fn trim_chars(v: &[char]) -> (t: Vec<char>)
    ensures
        t@ == trimmed(v@),
{
    let mut start: usize = 0;
    proof {
        lemma_skip_white_bounds(v@, 0);
    }
    while start < v.len() && is_whitespace(v[start])
        invariant
            start <= v@.len(),
            skip_white(v@, 0) == skip_white(v@, start as int),
        decreases v@.len() - start,
    {
        start = start + 1;
    }
    let mut end: usize = v.len();
    while end > start && is_whitespace(v[end - 1])
        invariant
            start <= end <= v@.len(),
            start == skip_white(v@, 0),
            skip_white_back(v@, start as int, v@.len() as int) == skip_white_back(
                v@,
                start as int,
                end as int,
            ),
        decreases end - start,
    {
        end = end - 1;
    }
    let mut t: Vec<char> = Vec::new();
    let mut i: usize = start;
    while i < end
        invariant
            start <= i <= end <= v@.len(),
            t@ == v@.subrange(start as int, i as int),
        decreases end - i,
    {
        t.push(v[i]);
        proof {
            assert(v@.subrange(start as int, i + 1) =~= v@.subrange(start as int, i as int).push(
                v@[i as int],
            ));
        }
        i = i + 1;
    }
    t
}

/// The decimal rendering of a natural number.
pub fn decimal_string(n: u64) -> (s: String)
    ensures
        s@ == decimal(n as nat),
    decreases n,
{
    if n < 10 {
        let mut s = String::new();
        s.push(((n as u8) + 48) as char);
        assert(s@ =~= decimal(n as nat));
        s
    } else {
        let mut s = decimal_string(n / 10);
        s.push((((n % 10) as u8) + 48) as char);
        assert(s@ =~= decimal(n as nat));
        s
    }
}

/// The decimal rendering of a signed integer.
pub fn signed_decimal_string(n: i64) -> (s: String)
    ensures
        s@ == signed_decimal(n as int),
{
    if n < 0 {
        let magnitude: u64 = if n == i64::MIN {
            9223372036854775808u64
        } else {
            (-n) as u64
        };
        let mut s = String::new();
        s.push('-');
        let digits = decimal_string(magnitude);
        let s = s.concat(digits.as_str());
        assert(s@ =~= signed_decimal(n as int));
        s
    } else {
        decimal_string(n as u64)
    }
}

} // verus!
