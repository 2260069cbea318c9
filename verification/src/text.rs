//! Character-level helpers on strings: decimal rendering, ASCII case
//! folding and substring search, each stated over `Seq<char>`.
use vstd::prelude::*;

verus! {

/// The character for a decimal digit.
pub open spec fn digit_char(d: nat) -> char {
    if d == 0 { '0' } else if d == 1 { '1' } else if d == 2 { '2' } else if d == 3 { '3' }
    else if d == 4 { '4' } else if d == 5 { '5' } else if d == 6 { '6' } else if d == 7 { '7' }
    else if d == 8 { '8' } else { '9' }
}

/// The decimal rendering of a natural number, without sign or leading zeros.
pub open spec fn decimal(n: nat) -> Seq<char>
    decreases n,
{
    if n < 10 {
        seq![digit_char(n)]
    } else {
        decimal(n / 10).push(digit_char(n % 10))
    }
}

/// Appends one character to a string. Trusted: the body calls std's
/// `String::push`, which std documents as appending the character at the
/// end; the contract claims that the characters of the string gain `c`
/// as their last element and are otherwise unchanged.
#[verifier::external_body]
pub(crate) fn push_char(s: &mut String, c: char)
    ensures
        final(s)@ == old(s)@.push(c),
{
    s.push(c);
}

fn digit_to_char(d: u128) -> (c: char)
    requires
        d < 10,
    ensures
        c == digit_char(d as nat),
{
    match d {
        0 => '0',
        1 => '1',
        2 => '2',
        3 => '3',
        4 => '4',
        5 => '5',
        6 => '6',
        7 => '7',
        8 => '8',
        _ => '9',
    }
}

/// Renders `n` in decimal, as `n.to_string()` does.
pub fn decimal_string(n: u128) -> (s: String)
    ensures
        s@ == decimal(n as nat),
{
    // Digits from least significant to most significant.
    let mut rev: Vec<char> = Vec::new();
    rev.push(digit_to_char(n % 10));
    let mut m: u128 = n / 10;
    proof {
        if n >= 10 {
            assert(decimal(n as nat) == decimal(m as nat).push(digit_char((n % 10) as nat)));
            assert(decimal(n as nat) =~= decimal(m as nat) + rev@.reverse());
        } else {
            assert(decimal(n as nat) =~= rev@.reverse());
        }
    }
    while m > 0
        invariant
            m > 0 ==> decimal(n as nat) == decimal(m as nat) + rev@.reverse(),
            m == 0 ==> decimal(n as nat) == rev@.reverse(),
        decreases m,
    {
        let c = digit_to_char(m % 10);
        let ghost old_rev = rev@;
        rev.push(c);
        let ghost m2 = (m / 10) as nat;
        proof {
            assert(rev@.reverse() =~= seq![c] + old_rev.reverse());
            if m >= 10 {
                assert(decimal(m as nat) == decimal(m2).push(c));
                assert(decimal(n as nat) =~= decimal(m2) + rev@.reverse());
            } else {
                assert(decimal(m as nat) == seq![c]);
                assert(decimal(n as nat) =~= rev@.reverse());
            }
        }
        m = m / 10;
    }
    let mut s = String::new();
    let len = rev.len();
    let mut i: usize = len;
    while i > 0
        invariant
            i <= len,
            len == rev@.len(),
            s@ == rev@.subrange(i as int, len as int).reverse(),
        decreases i,
    {
        i = i - 1;
        push_char(&mut s, rev[i]);
        assert(rev@.subrange(i as int, len as int).reverse() =~= rev@.subrange(i + 1, len as int).reverse().push(rev@[i as int]));
    }
    assert(rev@.subrange(0, len as int) =~= rev@);
    s
}


/// The characters of a string, in order.
pub fn chars_of(s: &str) -> (v: Vec<char>)
    ensures
        v@ == s@,
{
    let n = s.unicode_len();
    let mut v: Vec<char> = Vec::new();
    let mut i: usize = 0;
    while i < n
        invariant
            n == s@.len(),
            i <= n,
            v@ == s@.subrange(0, i as int),
        decreases n - i,
    {
        let c = s.get_char(i);
        v.push(c);
        i = i + 1;
        assert(v@ =~= s@.subrange(0, i as int));
    }
    assert(s@.subrange(0, n as int) =~= s@);
    v
}

/// A string holding the given characters.
pub fn string_from_chars(v: &Vec<char>) -> (s: String)
    ensures
        s@ == v@,
{
    let mut s = String::new();
    let mut i: usize = 0;
    while i < v.len()
        invariant
            i <= v.len(),
            s@ == v@.subrange(0, i as int),
        decreases v.len() - i,
    {
        push_char(&mut s, v[i]);
        i = i + 1;
        assert(s@ =~= v@.subrange(0, i as int));
    }
    assert(v@.subrange(0, v.len() as int) =~= v@);
    s
}

/// ASCII lower-casing of one character; other characters are kept.
pub open spec fn ascii_lower(c: char) -> char {
    if 'A' <= c && c <= 'Z' {
        ((c as u32) + 32) as char
    } else {
        c
    }
}

/// ASCII lower-casing of a character sequence (`to_ascii_lowercase`).
pub open spec fn ascii_lower_seq(s: Seq<char>) -> Seq<char> {
    s.map_values(|c: char| ascii_lower(c))
}

fn lower_char(c: char) -> (r: char)
    ensures
        r == ascii_lower(c),
{
    if 'A' <= c && c <= 'Z' {
        let b: u8 = (c as u32 + 32) as u8;
        b as char
    } else {
        c
    }
}

/// The ASCII lower-cased characters of a string.
pub fn ascii_lowercase_chars(s: &str) -> (v: Vec<char>)
    ensures
        v@ == ascii_lower_seq(s@),
{
    let cs = chars_of(s);
    let mut v: Vec<char> = Vec::new();
    let mut i: usize = 0;
    while i < cs.len()
        invariant
            i <= cs.len(),
            cs@ == s@,
            v@ == ascii_lower_seq(cs@.subrange(0, i as int)),
        decreases cs.len() - i,
    {
        let c = lower_char(cs[i]);
        v.push(c);
        i = i + 1;
        assert(v@ =~= ascii_lower_seq(cs@.subrange(0, i as int)));
    }
    assert(cs@.subrange(0, cs.len() as int) =~= cs@);
    v
}

/// `needle` occurs in `hay` as a contiguous run (`str::contains`).
pub open spec fn occurs_in(hay: Seq<char>, needle: Seq<char>) -> bool {
    exists|i: int| 0 <= i && i + needle.len() <= hay.len() && #[trigger] hay.subrange(i, i + needle.len()) == needle
}

fn matches_at(hay: &Vec<char>, needle: &Vec<char>, i: usize) -> (r: bool)
    requires
        i + needle.len() <= hay.len(),
    ensures
        r == (hay@.subrange(i as int, i + needle.len()) == needle@),
{
    let mut j: usize = 0;
    while j < needle.len()
        invariant
            j <= needle.len(),
            i + needle.len() <= hay.len(),
            forall|k: int| 0 <= k < j ==> hay@[i + k] == needle@[k],
        decreases needle.len() - j,
    {
        if hay[i + j] != needle[j] {
            assert(hay@.subrange(i as int, i + needle.len())[j as int] != needle@[j as int]);
            return false;
        }
        j = j + 1;
    }
    assert(hay@.subrange(i as int, i + needle.len()) =~= needle@);
    true
}

/// Whether `needle` occurs in `hay`.
pub fn seq_contains(hay: &Vec<char>, needle: &Vec<char>) -> (r: bool)
    ensures
        r == occurs_in(hay@, needle@),
{
    if needle.len() > hay.len() {
        return false;
    }
    let last = hay.len() - needle.len();
    let mut i: usize = 0;
    while i <= last
        invariant
            last + needle.len() == hay.len(),
            forall|k: int| 0 <= k < i ==> #[trigger] hay@.subrange(k, k + needle.len()) != needle@,
        decreases last + 1 - i,
    {
        if matches_at(hay, needle, i) {
            return true;
        }
        if i == last {
            return false;
        }
        i = i + 1;
    }
    false
}

/// Whether `needle` occurs in `hay`, on strings.
pub fn str_contains(hay: &str, needle: &str) -> (r: bool)
    ensures
        r == occurs_in(hay@, needle@),
{
    let h = chars_of(hay);
    let n = chars_of(needle);
    seq_contains(&h, &n)
}


/// An optional string, taken by its characters.
pub open spec fn opt_str(o: Option<String>) -> Option<Seq<char>> {
    match o {
        Some(s) => Some(s@),
        None => None,
    }
}


/// The first position at or after `i` where `needle` occurs in `hay`.
pub open spec fn find_from(hay: Seq<char>, needle: Seq<char>, i: int) -> Option<int>
    decreases hay.len() + 1 - i,
{
    if i < 0 || i + needle.len() > hay.len() {
        None
    } else if hay.subrange(i, i + needle.len()) == needle {
        Some(i)
    } else {
        find_from(hay, needle, i + 1)
    }
}

/// The text before and after the first occurrence of `pat` (`str::split_once`).
pub open spec fn split_once(s: Seq<char>, pat: Seq<char>) -> Option<(Seq<char>, Seq<char>)> {
    match find_from(s, pat, 0) {
        Some(i) => Some((s.subrange(0, i), s.subrange(i + pat.len(), s.len() as int))),
        None => None,
    }
}

/// What a search from `i` finds: the first place at or after `i` where
/// the needle stands, or none when it stands nowhere from `i` on.
pub proof fn lemma_find_from(hay: Seq<char>, needle: Seq<char>, i: int)
    requires
        0 <= i,
    ensures
        find_from(hay, needle, i) matches Some(j) ==> i <= j && j + needle.len() <= hay.len()
            && hay.subrange(j, j + needle.len()) == needle
            && forall|k: int| i <= k < j ==> #[trigger] hay.subrange(k, k + needle.len()) != needle,
        find_from(hay, needle, i) is None ==> forall|k: int| i <= k && k + needle.len() <= hay.len()
            ==> #[trigger] hay.subrange(k, k + needle.len()) != needle,
    decreases hay.len() + 1 - i,
{
    if i + needle.len() <= hay.len() && hay.subrange(i, i + needle.len()) != needle {
        lemma_find_from(hay, needle, i + 1);
    }
}

/// `split_once` cuts the text around the first occurrence of the pattern:
/// the text is the part before, the pattern and the part after, and the
/// pattern does not occur in the text before that place.
pub proof fn lemma_split_once(s: Seq<char>, pat: Seq<char>)
    ensures
        split_once(s, pat) matches Some((a, b)) ==> s == a + pat + b
            && forall|k: int| 0 <= k && k + pat.len() <= a.len() + pat.len() - 1 && k < a.len()
                ==> #[trigger] s.subrange(k, k + pat.len()) != pat,
        split_once(s, pat) is None <==> !occurs_in(s, pat),
{
    lemma_find_from(s, pat, 0);
    match find_from(s, pat, 0) {
        Some(i) => {
            assert(s =~= s.subrange(0, i) + pat + s.subrange(i + pat.len(), s.len() as int));
        },
        None => {},
    }
}

/// The position of the first occurrence of `needle` in `hay`.
pub fn find(hay: &Vec<char>, needle: &Vec<char>) -> (r: Option<usize>)
    ensures
        match r {
            Some(i) => find_from(hay@, needle@, 0) == Some(i as int) && i + needle.len() <= hay.len(),
            None => find_from(hay@, needle@, 0) is None,
        },
{
    if needle.len() > hay.len() {
        return None;
    }
    let last = hay.len() - needle.len();
    let mut i: usize = 0;
    while i <= last
        invariant
            last + needle.len() == hay.len(),
            find_from(hay@, needle@, 0) == find_from(hay@, needle@, i as int),
        decreases last + 1 - i,
    {
        if matches_at(hay, needle, i) {
            return Some(i);
        }
        if i == last {
            assert(find_from(hay@, needle@, i + 1) is None);
            return None;
        }
        i = i + 1;
    }
    None
}

/// The characters of `v` from `from` to `to`.
pub fn sub_chars(v: &Vec<char>, from: usize, to: usize) -> (r: String)
    requires
        from <= to <= v.len(),
    ensures
        r@ == v@.subrange(from as int, to as int),
{
    let mut s = String::new();
    let mut i: usize = from;
    while i < to
        invariant
            from <= i <= to,
            to <= v.len(),
            s@ == v@.subrange(from as int, i as int),
        decreases to - i,
    {
        push_char(&mut s, v[i]);
        i = i + 1;
        assert(s@ =~= v@.subrange(from as int, i as int));
    }
    s
}

/// `char::is_whitespace`: the characters of the Unicode `White_Space` property.
pub open spec fn is_white_space(c: char) -> bool {
    let u = c as u32;
    (0x9 <= u && u <= 0xd) || u == 0x20 || u == 0x85 || u == 0xa0 || u == 0x1680
        || (0x2000 <= u && u <= 0x200a) || u == 0x2028 || u == 0x2029 || u == 0x202f
        || u == 0x205f || u == 0x3000
}

fn white_space(c: char) -> (r: bool)
    ensures
        r == is_white_space(c),
{
    let u = c as u32;
    (0x9 <= u && u <= 0xd) || u == 0x20 || u == 0x85 || u == 0xa0 || u == 0x1680
        || (0x2000 <= u && u <= 0x200a) || u == 0x2028 || u == 0x2029 || u == 0x202f
        || u == 0x205f || u == 0x3000
}

/// The bounds of `s` without leading and trailing white space: `s[start..end]`.
pub open spec fn trim_bounds(s: Seq<char>, start: int, end: int) -> bool {
    &&& 0 <= start <= end <= s.len()
    &&& forall|k: int| 0 <= k < start ==> is_white_space(#[trigger] s[k])
    &&& forall|k: int| end <= k < s.len() ==> is_white_space(#[trigger] s[k])
    &&& start < end ==> !is_white_space(s[start]) && !is_white_space(s[end - 1])
}

/// `s` without leading and trailing white space (`str::trim`).
pub open spec fn trimmed(s: Seq<char>) -> Seq<char> {
    let se = choose|se: (int, int)| trim_bounds(s, se.0, se.1);
    s.subrange(se.0, se.1)
}

proof fn lemma_trim_unique(s: Seq<char>, a: int, b: int, c: int, d: int)
    requires
        trim_bounds(s, a, b),
        trim_bounds(s, c, d),
    ensures
        s.subrange(a, b) == s.subrange(c, d),
{
    if a < b && c < d {
        assert(a == c);
        assert(b == d);
    } else if a < b {
        // c == d: every character is white space
        assert(!is_white_space(s[a]));
        if a < c {
            assert(is_white_space(s[a]));
        } else {
            assert(a >= d);
            assert(is_white_space(s[a]));
        }
    } else if c < d {
        assert(!is_white_space(s[c]));
        if c < a {
            assert(is_white_space(s[c]));
        } else {
            assert(is_white_space(s[c]));
        }
    }
    assert(s.subrange(a, b) =~= s.subrange(c, d));
}

/// Every text has bounds that trim it.
proof fn lemma_trim_exists(s: Seq<char>) -> (se: (int, int))
    ensures
        trim_bounds(s, se.0, se.1),
    decreases s.len(),
{
    if s.len() == 0 {
        (0, 0)
    } else {
        let prev = s.drop_last();
        let (a, b) = lemma_trim_exists(prev);
        let n = s.len() as int;
        if is_white_space(s.last()) {
            assert forall|k: int| b <= k < n implies is_white_space(#[trigger] s[k]) by {
                if k < n - 1 {
                    assert(s[k] == prev[k]);
                }
            }
            assert forall|k: int| 0 <= k < a implies is_white_space(#[trigger] s[k]) by {
                assert(s[k] == prev[k]);
            }
            if a < b {
                assert(s[a] == prev[a]);
                assert(s[b - 1] == prev[b - 1]);
            }
            (a, b)
        } else if a < b {
            assert forall|k: int| 0 <= k < a implies is_white_space(#[trigger] s[k]) by {
                assert(s[k] == prev[k]);
            }
            assert(s[a] == prev[a]);
            (a, n)
        } else {
            assert forall|k: int| 0 <= k < n - 1 implies is_white_space(#[trigger] s[k]) by {
                assert(s[k] == prev[k]);
                if k >= a {
                    assert(k >= b);
                }
            }
            (n - 1, n)
        }
    }
}

/// Trimming a trimmed text leaves it as it is.
pub proof fn law_trim_idempotent(s: Seq<char>)
    ensures
        trimmed(trimmed(s)) == trimmed(s),
{
    let w = lemma_trim_exists(s);
    assert(trim_bounds(s, w.0, w.1));
    let se = choose|se: (int, int)| trim_bounds(s, se.0, se.1);
    let t = trimmed(s);
    assert(t == s.subrange(se.0, se.1));
    assert(trim_bounds(t, 0, t.len() as int)) by {
        if se.0 < se.1 {
            assert(t[0] == s[se.0]);
            assert(t[t.len() - 1] == s[se.1 - 1]);
        }
    }
    let whole: (int, int) = (0, t.len() as int);
    assert(trim_bounds(t, whole.0, whole.1));
    let te = choose|te: (int, int)| trim_bounds(t, te.0, te.1);
    lemma_trim_unique(t, 0, t.len() as int, te.0, te.1);
    assert(t.subrange(0, t.len() as int) =~= t);
}

/// `s` without leading and trailing white space.
pub fn trim_str(s: &str) -> (r: String)
    ensures
        r@ == trimmed(s@),
{
    let cs = chars_of(s);
    let n = cs.len();
    let mut start: usize = 0;
    while start < n && white_space(cs[start])
        invariant
            start <= n,
            n == cs@.len(),
            forall|k: int| 0 <= k < start ==> is_white_space(#[trigger] cs@[k]),
        decreases n - start,
    {
        start = start + 1;
    }
    let mut end: usize = n;
    while end > start && white_space(cs[end - 1])
        invariant
            start <= end <= n,
            n == cs@.len(),
            forall|k: int| end <= k < n ==> is_white_space(#[trigger] cs@[k]),
            start < n ==> !is_white_space(cs@[start as int]),
        decreases end,
    {
        end = end - 1;
    }
    let ghost w: (int, int) = (start as int, end as int);
    assert(trim_bounds(cs@, w.0, w.1));
    assert(exists|se: (int, int)| trim_bounds(cs@, se.0, se.1));
    proof {
        let se = choose|se: (int, int)| trim_bounds(cs@, se.0, se.1);
        lemma_trim_unique(cs@, start as int, end as int, se.0, se.1);
    }
    sub_chars(&cs, start, end)
}

}
