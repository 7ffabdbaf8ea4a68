//! Small verified text helpers: decimal rendering and string building.

use vstd::prelude::*;
use vstd::string::*;

verus! {

/// The ten decimal digits, in order.
pub open spec fn digit_chars() -> Seq<char> {
    seq!['0', '1', '2', '3', '4', '5', '6', '7', '8', '9']
}

/// Decimal rendering of a natural number, without sign or leading zeros.
pub open spec fn decimal(n: nat) -> Seq<char>
    decreases n,
{
    if n < 10 {
        seq![digit_chars()[n as int]]
    } else {
        decimal(n / 10).push(digit_chars()[(n % 10) as int])
    }
}

/// The one-character string of a decimal digit.
fn digit_str(d: u64) -> (s: &'static str)
    requires
        d < 10,
    ensures
        s@ == seq![digit_chars()[d as int]],
{
    if d == 0 {
        proof {
            reveal_strlit("0");
        }
        "0"
    } else if d == 1 {
        proof {
            reveal_strlit("1");
        }
        "1"
    } else if d == 2 {
        proof {
            reveal_strlit("2");
        }
        "2"
    } else if d == 3 {
        proof {
            reveal_strlit("3");
        }
        "3"
    } else if d == 4 {
        proof {
            reveal_strlit("4");
        }
        "4"
    } else if d == 5 {
        proof {
            reveal_strlit("5");
        }
        "5"
    } else if d == 6 {
        proof {
            reveal_strlit("6");
        }
        "6"
    } else if d == 7 {
        proof {
            reveal_strlit("7");
        }
        "7"
    } else if d == 8 {
        proof {
            reveal_strlit("8");
        }
        "8"
    } else {
        proof {
            reveal_strlit("9");
        }
        "9"
    }
}

/// Render a number in decimal.
pub fn decimal_string(n: u64) -> (s: String)
    ensures
        s@ == decimal(n as nat),
    decreases n,
{
    if n < 10 {
        String::from_str(digit_str(n))
    } else {
        let mut s = decimal_string(n / 10);
        s.append(digit_str(n % 10));
        s
    }
}

/// A new string with the given text.
pub fn owned(s: &str) -> (r: String)
    ensures
        r@ == s@,
{
    String::from_str(s)
}


/// Whether two texts are equal.
pub fn str_eq(a: &str, b: &str) -> (r: bool)
    ensures
        r == (a@ == b@),
{
    String::from_str(a) == String::from_str(b)
}

} // verus!

verus! {

/// The characters of a text, in order.
pub fn chars_of(s: &str) -> (r: Vec<char>)
    ensures
        r@ == s@,
{
    broadcast use vstd::string::group_string_axioms;
    let mut out: Vec<char> = Vec::new();
    for c in it: s.chars()
        invariant
            out@ == it.seq().subrange(0, it.index() as int),
    {
        out.push(c);
    }
    out
}


/// Append one character to a string: `String::push`, which the standard
/// library documents as appending the character to the end.
#[verifier::external_body]
pub(crate) fn push_char(s: &mut String, c: char)
    ensures
        final(s)@ == old(s)@.push(c),
{
    s.push(c);
}

/// A string made of the given characters.
pub fn string_of_chars(cs: &[char]) -> (r: String)
    ensures
        r@ == cs@,
{
    let mut out = String::new();
    let mut i: usize = 0;
    while i < cs.len()
        invariant
            i <= cs.len(),
            out@ == cs@.subrange(0, i as int),
        decreases cs.len() - i,
    {
        push_char(&mut out, cs[i]);
        proof {
            assert(cs@.subrange(0, i as int + 1) =~= cs@.subrange(0, i as int).push(cs@[i as int]));
        }
        i = i + 1;
    }
    proof {
        assert(cs@.subrange(0, cs@.len() as int) =~= cs@);
    }
    out
}

/// Whether `n` occurs in `h` starting at position `i`.
pub open spec fn occurs_at(h: Seq<char>, n: Seq<char>, i: int) -> bool {
    0 <= i && i + n.len() <= h.len() && h.subrange(i, i + n.len()) == n
}

/// Whether `n` occurs somewhere in `h`.
pub open spec fn has_substring(h: Seq<char>, n: Seq<char>) -> bool {
    exists|i: int| occurs_at(h, n, i)
}

/// A text occurs in any text built around it.
pub proof fn lemma_substring_of_concat(a: Seq<char>, n: Seq<char>, b: Seq<char>)
    ensures
        has_substring(a + n + b, n),
{
    let h = a + n + b;
    assert(h.subrange(a.len() as int, (a.len() + n.len()) as int) =~= n);
    assert(occurs_at(h, n, a.len() as int));
}

/// Whether `h` begins with `p`.
pub open spec fn has_prefix(h: Seq<char>, p: Seq<char>) -> bool {
    p.len() <= h.len() && h.subrange(0, p.len() as int) == p
}

fn matches_at(h: &Vec<char>, n: &Vec<char>, i: usize) -> (r: bool)
    requires
        i + n@.len() <= h@.len(),
    ensures
        r == occurs_at(h@, n@, i as int),
{
    let hl = h.len();
    let mut k: usize = 0;
    while k < n.len()
        invariant
            k <= n@.len(),
            hl == h@.len(),
            i + n@.len() <= h@.len(),
            forall|q: int| 0 <= q < k ==> h@[i + q] == n@[q],
        decreases n.len() - k,
    {
        if h[i + k] != n[k] {
            proof {
                assert(h@.subrange(i as int, i + n@.len())[k as int] != n@[k as int]);
            }
            return false;
        }
        k = k + 1;
    }
    proof {
        assert(h@.subrange(i as int, i + n@.len()) =~= n@);
    }
    true
}

/// Position of the first occurrence of `n` in `h`, counted in characters.
pub fn find_chars(h: &Vec<char>, n: &Vec<char>) -> (r: Option<usize>)
    ensures
        match r {
            Some(i) => occurs_at(h@, n@, i as int) && forall|j: int| 0 <= j < i ==> !occurs_at(h@, n@, j),
            None => !has_substring(h@, n@),
        },
{
    if n.len() > h.len() {
        proof {
            assert forall|j: int| !occurs_at(h@, n@, j) by {}
        }
        return None;
    }
    if n.len() == 0 {
        proof {
            assert(h@.subrange(0, 0) =~= n@);
        }
        return Some(0);
    }
    let hl = h.len();
    let last = hl - n.len();
    let mut i: usize = 0;
    while i <= last
        invariant
            hl == h@.len(),
            n@.len() > 0,
            last == h@.len() - n@.len(),
            i <= last + 1,
            forall|j: int| 0 <= j < i ==> !occurs_at(h@, n@, j),
        decreases last + 1 - i,
    {
        if matches_at(h, n, i) {
            return Some(i);
        }
        i = i + 1;
    }
    proof {
        assert forall|j: int| !occurs_at(h@, n@, j) by {
            if 0 <= j < i {
            }
        }
    }
    None
}

/// Whether `n` occurs in `h`.
pub fn str_contains(h: &str, n: &str) -> (r: bool)
    ensures
        r == has_substring(h@, n@),
{
    let hc = chars_of(h);
    let nc = chars_of(n);
    match find_chars(&hc, &nc) {
        Some(_) => true,
        None => false,
    }
}

/// Whether `h` begins with `p`.
pub fn str_starts_with(h: &str, p: &str) -> (r: bool)
    ensures
        r == has_prefix(h@, p@),
{
    let hc = chars_of(h);
    let pc = chars_of(p);
    if pc.len() > hc.len() {
        return false;
    }
    let r = matches_at(&hc, &pc, 0);
    proof {
        assert(0 + pc@.len() == pc@.len());
    }
    r
}

/// The first `n` characters of a text (all of it if shorter).
pub open spec fn take_chars_spec(s: Seq<char>, n: nat) -> Seq<char> {
    if s.len() <= n {
        s
    } else {
        s.subrange(0, n as int)
    }
}

/// The first `n` characters of a text.
pub fn take_chars(s: &str, n: usize) -> (r: String)
    ensures
        r@ == take_chars_spec(s@, n as nat),
{
    let cs = chars_of(s);
    if cs.len() <= n {
        return owned(s);
    }
    let mut out = String::new();
    let mut i: usize = 0;
    while i < n
        invariant
            i <= n < cs@.len(),
            cs@ == s@,
            out@ == s@.subrange(0, i as int),
        decreases n - i,
    {
        push_char(&mut out, cs[i]);
        proof {
            assert(s@.subrange(0, i as int + 1) =~= s@.subrange(0, i as int).push(s@[i as int]));
        }
        i = i + 1;
    }
    out
}

/// Unicode white space, as `char::is_whitespace` defines it.
pub open spec fn is_space(c: char) -> bool {
    ||| c == '\t' || c == '\n' || c == '\u{0B}' || c == '\u{0C}' || c == '\r' || c == ' '
    ||| c == '\u{85}' || c == '\u{A0}' || c == '\u{1680}'
    ||| ('\u{2000}' <= c && c <= '\u{200A}')
    ||| c == '\u{2028}' || c == '\u{2029}' || c == '\u{202F}' || c == '\u{205F}' || c == '\u{3000}'
}

/// Whether a character is white space.
pub fn char_is_space(c: char) -> (r: bool)
    ensures
        r == is_space(c),
{
    c == '\t' || c == '\n' || c == '\u{0B}' || c == '\u{0C}' || c == '\r' || c == ' ' || c
        == '\u{85}' || c == '\u{A0}' || c == '\u{1680}' || ('\u{2000}' <= c && c <= '\u{200A}')
        || c == '\u{2028}' || c == '\u{2029}' || c == '\u{202F}' || c == '\u{205F}' || c
        == '\u{3000}'
}

/// Number of white-space characters at the front of `s`.
pub open spec fn lead_spaces(s: Seq<char>) -> nat
    decreases s.len(),
{
    if s.len() > 0 && is_space(s[0]) {
        1 + lead_spaces(s.drop_first())
    } else {
        0
    }
}

/// Number of white-space characters at the end of `s`.
pub open spec fn trail_spaces(s: Seq<char>) -> nat
    decreases s.len(),
{
    if s.len() > 0 && is_space(s.last()) {
        1 + trail_spaces(s.drop_last())
    } else {
        0
    }
}

/// `s` without trailing white space.
pub open spec fn trim_end_spec(s: Seq<char>) -> Seq<char> {
    s.subrange(0, s.len() - trail_spaces(s))
}

/// `s` without leading or trailing white space, as `str::trim` gives it.
pub open spec fn trim_spec(s: Seq<char>) -> Seq<char> {
    let e = trim_end_spec(s);
    e.subrange(lead_spaces(e) as int, e.len() as int)
}

pub proof fn lemma_trail_spaces(s: Seq<char>, k: int)
    requires
        0 <= k <= s.len(),
        forall|j: int| k <= j < s.len() ==> is_space(s[j]),
        k == 0 || !is_space(s[k - 1]),
    ensures
        trail_spaces(s) == s.len() - k,
    decreases s.len(),
{
    if s.len() > k {
        lemma_trail_spaces(s.drop_last(), k);
    }
}

pub proof fn lemma_lead_spaces(s: Seq<char>, k: int)
    requires
        0 <= k <= s.len(),
        forall|j: int| 0 <= j < k ==> is_space(s[j]),
        k == s.len() || !is_space(s[k]),
    ensures
        lead_spaces(s) == k,
    decreases s.len(),
{
    if k > 0 {
        lemma_lead_spaces(s.drop_first(), k - 1);
    }
}

/// Characters of `s` without leading or trailing white space.
pub fn trim_chars(s: &Vec<char>) -> (r: Vec<char>)
    ensures
        r@ == trim_spec(s@),
{
    let mut e = s.len();
    while e > 0 && char_is_space(s[e - 1])
        invariant
            e <= s@.len(),
            forall|j: int| e <= j < s@.len() ==> is_space(s@[j]),
        decreases e,
    {
        e = e - 1;
    }
    proof {
        lemma_trail_spaces(s@, e as int);
    }
    let ghost es = trim_end_spec(s@);
    let mut b: usize = 0;
    while b < e && char_is_space(s[b])
        invariant
            b <= e <= s@.len(),
            es == s@.subrange(0, e as int),
            forall|j: int| 0 <= j < b ==> is_space(s@[j]),
        decreases e - b,
    {
        b = b + 1;
    }
    proof {
        lemma_lead_spaces(es, b as int);
    }
    let mut out: Vec<char> = Vec::new();
    let mut i = b;
    while i < e
        invariant
            b <= i <= e <= s@.len(),
            out@ == s@.subrange(b as int, i as int),
        decreases e - i,
    {
        out.push(s[i]);
        proof {
            assert(s@.subrange(b as int, i as int + 1) =~= s@.subrange(b as int, i as int).push(s@[i as int]));
        }
        i = i + 1;
    }
    proof {
        assert(out@ =~= trim_spec(s@));
    }
    out
}

/// `s` without leading or trailing white space.
pub fn trim(s: &str) -> (r: String)
    ensures
        r@ == trim_spec(s@),
{
    let cs = chars_of(s);
    let t = trim_chars(&cs);
    string_of_chars(t.as_slice())
}

/// Whether `s` is empty or white space only.
pub fn is_blank(s: &str) -> (r: bool)
    ensures
        r == (trim_spec(s@).len() == 0),
{
    let cs = chars_of(s);
    let t = trim_chars(&cs);
    t.len() == 0
}

/// The texts joined with `sep` between consecutive ones.
pub open spec fn join_spec(parts: Seq<Seq<char>>, sep: Seq<char>) -> Seq<char>
    decreases parts.len(),
{
    if parts.len() == 0 {
        Seq::empty()
    } else if parts.len() == 1 {
        parts[0]
    } else {
        join_spec(parts.drop_last(), sep) + sep + parts.last()
    }
}

/// Views of a list of strings.
pub open spec fn strings_view(v: Seq<String>) -> Seq<Seq<char>> {
    v.map_values(|s: String| s@)
}

/// Join texts with a separator.
pub fn join(parts: &Vec<String>, sep: &str) -> (r: String)
    ensures
        r@ == join_spec(strings_view(parts@), sep@),
{
    let ghost pv = strings_view(parts@);
    let mut out = String::new();
    let mut i: usize = 0;
    while i < parts.len()
        invariant
            i <= parts.len(),
            pv == strings_view(parts@),
            out@ == join_spec(pv.subrange(0, i as int), sep@),
        decreases parts.len() - i,
    {
        proof {
            assert(pv.subrange(0, i as int + 1).drop_last() =~= pv.subrange(0, i as int));
        }
        if i > 0 {
            out.append(sep);
        }
        out.append(parts[i].as_str());
        i = i + 1;
    }
    proof {
        assert(pv.subrange(0, pv.len() as int) =~= pv);
    }
    out
}

/// The characters from position `lo` up to `hi`, as a string.
pub fn chars_range(cs: &Vec<char>, lo: usize, hi: usize) -> (r: String)
    requires
        lo <= hi <= cs@.len(),
    ensures
        r@ == cs@.subrange(lo as int, hi as int),
{
    let mut out = String::new();
    let mut i = lo;
    while i < hi
        invariant
            lo <= i <= hi <= cs@.len(),
            out@ == cs@.subrange(lo as int, i as int),
        decreases hi - i,
    {
        push_char(&mut out, cs[i]);
        proof {
            assert(cs@.subrange(lo as int, i as int + 1) =~= cs@.subrange(lo as int, i as int).push(cs@[i as int]));
        }
        i = i + 1;
    }
    out
}

/// Position of the last occurrence of `n` in `h`.
pub fn rfind_chars(h: &Vec<char>, n: &Vec<char>) -> (r: Option<usize>)
    ensures
        match r {
            Some(i) => occurs_at(h@, n@, i as int) && forall|j: int|
                i < j ==> !occurs_at(h@, n@, j),
            None => !has_substring(h@, n@),
        },
{
    if n.len() > h.len() {
        proof {
            assert forall|j: int| !occurs_at(h@, n@, j) by {}
        }
        return None;
    }
    if n.len() == 0 {
        proof {
            assert(h@.subrange(h@.len() as int, h@.len() as int) =~= n@);
        }
        return Some(h.len());
    }
    let hl = h.len();
    let mut i: usize = hl - n.len() + 1;
    while i > 0
        invariant
            i <= h@.len() - n@.len() + 1,
            hl == h@.len(),
            1 <= n@.len() <= h@.len(),
            forall|j: int| i <= j ==> !occurs_at(h@, n@, j),
        decreases i,
    {
        if matches_at(h, n, i - 1) {
            return Some(i - 1);
        }
        i = i - 1;
    }
    None
}

/// Position of the first occurrence of a character.
pub fn find_char(h: &Vec<char>, c: char) -> (r: Option<usize>)
    ensures
        match r {
            Some(i) => i < h@.len() && h@[i as int] == c && forall|j: int| 0 <= j < i ==> h@[j] != c,
            None => forall|j: int| 0 <= j < h@.len() ==> h@[j] != c,
        },
{
    let mut i: usize = 0;
    while i < h.len()
        invariant
            i <= h@.len(),
            forall|j: int| 0 <= j < i ==> h@[j] != c,
        decreases h.len() - i,
    {
        if h[i] == c {
            return Some(i);
        }
        i = i + 1;
    }
    None
}

/// Position of the last occurrence of a character.
pub fn rfind_char(h: &Vec<char>, c: char) -> (r: Option<usize>)
    ensures
        match r {
            Some(i) => i < h@.len() && h@[i as int] == c && forall|j: int| i < j < h@.len() ==> h@[j] != c,
            None => forall|j: int| 0 <= j < h@.len() ==> h@[j] != c,
        },
{
    let mut i: usize = h.len();
    while i > 0
        invariant
            i <= h@.len(),
            forall|j: int| i <= j < h@.len() ==> h@[j] != c,
        decreases i,
    {
        if h[i - 1] == c {
            return Some(i - 1);
        }
        i = i - 1;
    }
    None
}

} // verus!
