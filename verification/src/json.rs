//! A JSON document model and navigation by JSON Pointer (RFC 6901), with
//! the reads that the response parsers make of it.
use vstd::prelude::*;
use crate::text::{chars_of, string_from_chars};

verus! {

/// A JSON value. Integers are kept exactly; a number with a fraction or an
/// exponent is kept as its text.
#[derive(Debug)]
pub enum Json {
    Null,
    Bool(bool),
    Int(i128),
    Fractional(String),
    Str(String),
    Array(Vec<Json>),
    Object(Vec<(String, Json)>),
}

/// How a read of a document failed.
#[derive(Clone, Copy, Debug, PartialEq, Eq, Structural)]
pub enum JsonErrorKind {
    /// No value at the pointer.
    PathNotFound,
    /// A value of another type than the one read.
    UnexpectedType,
    /// A string that names none of the values it may name.
    UnrecognisedValue,
}

/// A failed read, with the pointer it failed at, taken relative to the
/// value that it was applied to.
#[derive(Clone, Debug, PartialEq, Eq)]
pub struct JsonError {
    pub kind: JsonErrorKind,
    pub path: String,
}

/// A failed read, as contracts speak of it.
pub type JsonErrorV = (JsonErrorKind, Seq<char>);

pub open spec fn err_view(e: JsonError) -> JsonErrorV {
    (e.kind, e.path@)
}

/// Lifts a view of the success value over a result.
pub open spec fn result_view<T, V>(r: Result<T, JsonError>, f: spec_fn(T) -> V) -> Result<V, JsonErrorV> {
    match r {
        Ok(v) => Ok(f(v)),
        Err(e) => Err(err_view(e)),
    }
}

/// The pieces of `s` between the `/` separators (`str::split('/')`).
pub open spec fn split_slash(s: Seq<char>) -> Seq<Seq<char>>
    decreases s.len(),
{
    if s.len() == 0 {
        seq![Seq::empty()]
    } else {
        let p = split_slash(s.drop_last());
        if s.last() == '/' {
            p.push(Seq::empty())
        } else {
            p.update(p.len() - 1, p.last().push(s.last()))
        }
    }
}

/// Replaces, left to right, each `~d` by `r` (`str::replace`).
pub open spec fn replace_escape(s: Seq<char>, d: char, r: char) -> Seq<char>
    decreases s.len(),
{
    if s.len() == 0 {
        s
    } else if s.len() >= 2 && s[0] == '~' && s[1] == d {
        seq![r] + replace_escape(s.skip(2), d, r)
    } else {
        seq![s[0]] + replace_escape(s.drop_first(), d, r)
    }
}

/// A pointer token with its escapes resolved: `~1` first, then `~0`.
pub open spec fn unescape(t: Seq<char>) -> Seq<char> {
    replace_escape(replace_escape(t, '1', '/'), '0', '~')
}

/// The reference tokens of a pointer that starts with `/`.
pub open spec fn pointer_tokens(p: Seq<char>) -> Seq<Seq<char>> {
    split_slash(p).drop_first().map_values(|t: Seq<char>| unescape(t))
}

pub open spec fn is_digit(c: char) -> bool {
    '0' <= c && c <= '9'
}

/// The value of a run of decimal digits.
pub open spec fn digits_value(t: Seq<char>) -> nat
    decreases t.len(),
{
    if t.len() == 0 {
        0
    } else {
        digits_value(t.drop_last()) * 10 + ((t.last() as nat) - ('0' as nat)) as nat
    }
}

/// The array index a token names: decimal digits, no sign, no leading
/// zero, within `usize`.
pub open spec fn index_token(t: Seq<char>) -> Option<nat> {
    if t.len() == 0 || t[0] == '+' || (t[0] == '0' && t.len() != 1) {
        None
    } else if (forall|i: int| 0 <= i < t.len() ==> is_digit(#[trigger] t[i])) && digits_value(t) <= usize::MAX {
        Some(digits_value(t))
    } else {
        None
    }
}

/// The value of the first member named `key`.
pub open spec fn member(fields: Seq<(String, Json)>, key: Seq<char>) -> Option<Json>
    decreases fields.len(),
{
    if fields.len() == 0 {
        None
    } else if fields[0].0@ == key {
        Some(fields[0].1)
    } else {
        member(fields.drop_first(), key)
    }
}

/// One step down a document: a member of an object, or an element of an array.
pub open spec fn child(j: Json, token: Seq<char>) -> Option<Json> {
    match j {
        Json::Object(fields) => member(fields@, token),
        Json::Array(items) => match index_token(token) {
            Some(i) => if i < items@.len() { Some(items@[i as int]) } else { None },
            None => None,
        },
        _ => None,
    }
}

/// Follows the tokens down from `j`.
pub open spec fn follow(j: Json, tokens: Seq<Seq<char>>) -> Option<Json>
    decreases tokens.len(),
{
    if tokens.len() == 0 {
        Some(j)
    } else {
        match child(j, tokens[0]) {
            Some(c) => follow(c, tokens.drop_first()),
            None => None,
        }
    }
}

/// The value a JSON Pointer names in `j`: the empty pointer names `j`,
/// a pointer that does not start with `/` names nothing.
pub open spec fn lookup(j: Json, p: Seq<char>) -> Option<Json> {
    if p.len() == 0 {
        Some(j)
    } else if p[0] != '/' {
        None
    } else {
        follow(j, pointer_tokens(p))
    }
}

proof fn lemma_split_nonempty(s: Seq<char>)
    ensures
        split_slash(s).len() >= 1,
    decreases s.len(),
{
    if s.len() > 0 {
        lemma_split_nonempty(s.drop_last());
    }
}

/// Splits the characters of a pointer at each `/`.
fn split_pieces(cs: &Vec<char>) -> (r: Vec<Vec<char>>)
    ensures
        r@.len() == split_slash(cs@).len(),
        forall|k: int| 0 <= k < r@.len() ==> #[trigger] r@[k]@ == split_slash(cs@)[k],
{
    let mut done: Vec<Vec<char>> = Vec::new();
    let mut cur: Vec<char> = Vec::new();
    let mut i: usize = 0;
    assert(cs@.subrange(0, 0) =~= Seq::<char>::empty());
    while i < cs.len()
        invariant
            i <= cs.len(),
            split_slash(cs@.subrange(0, i as int)).len() == done@.len() + 1,
            forall|k: int| 0 <= k < done@.len() ==> #[trigger] done@[k]@ == split_slash(cs@.subrange(0, i as int))[k],
            cur@ == split_slash(cs@.subrange(0, i as int)).last(),
        decreases cs.len() - i,
    {
        let ghost prev = cs@.subrange(0, i as int);
        let c = cs[i];
        proof {
            assert(cs@.subrange(0, i + 1).drop_last() =~= prev);
            lemma_split_nonempty(prev);
        }
        let ghost done_before = done@;
        if c == '/' {
            let finished = cur;
            done.push(finished);
            cur = Vec::new();
            proof {
                let p = split_slash(prev);
                assert(split_slash(cs@.subrange(0, i + 1)) == p.push(Seq::empty()));
                assert forall|k: int| 0 <= k < done@.len() implies #[trigger] done@[k]@ == split_slash(cs@.subrange(0, i + 1))[k] by {
                    if k < done@.len() - 1 {
                        assert(done@[k] == done_before[k]);
                    }
                }
            }
        } else {
            cur.push(c);
            proof {
                let p = split_slash(prev);
                assert(split_slash(cs@.subrange(0, i + 1)) == p.update(p.len() - 1, p.last().push(c)));
            }
        }
        i = i + 1;
    }
    assert(cs@.subrange(0, cs.len() as int) =~= cs@);
    done.push(cur);
    done
}


fn replace_escape_vec(t: &Vec<char>, d: char, r: char) -> (o: Vec<char>)
    ensures
        o@ == replace_escape(t@, d, r),
{
    let mut out: Vec<char> = Vec::new();
    let mut i: usize = 0;
    assert(t@.skip(0) =~= t@);
    while i < t.len()
        invariant
            i <= t.len(),
            out@ + replace_escape(t@.skip(i as int), d, r) == replace_escape(t@, d, r),
        decreases t.len() - i,
    {
        let ghost rest = t@.skip(i as int);
        if i + 1 < t.len() && t[i] == '~' && t[i + 1] == d {
            out.push(r);
            proof {
                assert(rest.skip(2) =~= t@.skip(i + 2));
                assert(replace_escape(rest, d, r) == seq![r] + replace_escape(rest.skip(2), d, r));
                assert(out@ + replace_escape(t@.skip(i + 2), d, r) =~= replace_escape(t@, d, r));
            }
            i = i + 2;
        } else {
            let c = t[i];
            out.push(c);
            proof {
                assert(rest.drop_first() =~= t@.skip(i + 1));
                assert(replace_escape(rest, d, r) == seq![c] + replace_escape(rest.drop_first(), d, r));
                assert(out@ + replace_escape(t@.skip(i + 1), d, r) =~= replace_escape(t@, d, r));
            }
            i = i + 1;
        }
    }
    assert(t@.skip(i as int) =~= Seq::<char>::empty());
    assert(out@ + Seq::<char>::empty() =~= out@);
    out
}

fn unescape_vec(t: &Vec<char>) -> (o: Vec<char>)
    ensures
        o@ == unescape(t@),
{
    let a = replace_escape_vec(t, '1', '/');
    replace_escape_vec(&a, '0', '~')
}

proof fn lemma_digits_prefix(t: Seq<char>, k: int)
    requires
        0 <= k <= t.len(),
    ensures
        digits_value(t.subrange(0, k)) <= digits_value(t),
    decreases t.len(),
{
    if k < t.len() {
        assert(t.drop_last() =~= t.subrange(0, t.len() - 1));
        lemma_digits_prefix(t.drop_last(), k);
        assert(t.drop_last().subrange(0, k) =~= t.subrange(0, k));
    } else {
        assert(t.subrange(0, k) =~= t);
    }
}

fn char_is_digit(c: char) -> (r: bool)
    ensures
        r == is_digit(c),
{
    '0' <= c && c <= '9'
}

fn digit_value(c: char) -> (r: usize)
    requires
        is_digit(c),
    ensures
        r == (c as nat) - ('0' as nat),
        r < 10,
{
    let v: u32 = c as u32 - '0' as u32;
    v as usize
}

/// The array index a pointer token names, as `index_token` states it.
fn parse_index(t: &Vec<char>) -> (r: Option<usize>)
    ensures
        match r {
            Some(v) => index_token(t@) == Some(v as nat),
            None => index_token(t@) is None,
        },
{
    if t.len() == 0 || t[0] == '+' || (t[0] == '0' && t.len() != 1) {
        return None;
    }
    let mut acc: usize = 0;
    let mut i: usize = 0;
    assert(t@.subrange(0, 0) =~= Seq::<char>::empty());
    while i < t.len()
        invariant
            i <= t.len(),
            t.len() > 0,
            !(t@[0] == '+' || (t@[0] == '0' && t.len() != 1)),
            forall|k: int| 0 <= k < i ==> is_digit(#[trigger] t@[k]),
            acc == digits_value(t@.subrange(0, i as int)),
        decreases t.len() - i,
    {
        let c = t[i];
        if !char_is_digit(c) {
            assert(!is_digit(t@[i as int]));
            return None;
        }
        let dv = digit_value(c);
        proof {
            assert(t@.subrange(0, i + 1).drop_last() =~= t@.subrange(0, i as int));
            assert(digits_value(t@.subrange(0, i + 1)) == digits_value(t@.subrange(0, i as int)) * 10 + dv);
        }
        match acc.checked_mul(10) {
            Some(m) => match m.checked_add(dv) {
                Some(v) => {
                    acc = v;
                },
                None => {
                    proof {
                        lemma_digits_prefix(t@, i + 1);
                    }
                    return None;
                },
            },
            None => {
                proof {
                    lemma_digits_prefix(t@, i + 1);
                    assert(acc * 10 <= digits_value(t@.subrange(0, i + 1))) by (nonlinear_arith)
                        requires digits_value(t@.subrange(0, i + 1)) == acc * 10 + dv, dv >= 0;
                }
                return None;
            },
        }
        i = i + 1;
    }
    assert(t@.subrange(0, t.len() as int) =~= t@);
    Some(acc)
}

/// The first member of `fields` named `key`.
pub(crate) fn member_of<'a>(fields: &'a Vec<(String, Json)>, key: &String) -> (r: Option<&'a Json>)
    ensures
        match r {
            Some(x) => member(fields@, key@) == Some(*x),
            None => member(fields@, key@) is None,
        },
{
    let mut i: usize = 0;
    assert(fields@.skip(0) =~= fields@);
    while i < fields.len()
        invariant
            i <= fields.len(),
            member(fields@, key@) == member(fields@.skip(i as int), key@),
        decreases fields.len() - i,
    {
        let ghost rest = fields@.skip(i as int);
        assert(rest[0] == fields@[i as int]);
        if fields[i].0 == *key {
            return Some(&fields[i].1);
        }
        assert(rest.drop_first() =~= fields@.skip(i + 1));
        i = i + 1;
    }
    assert(fields@.skip(i as int) =~= Seq::<(String, Json)>::empty());
    None
}

/// One step down a document, as `child` states it.
fn child_of<'a>(j: &'a Json, token: &Vec<char>) -> (r: Option<&'a Json>)
    ensures
        match r {
            Some(x) => child(*j, token@) == Some(*x),
            None => child(*j, token@) is None,
        },
{
    match j {
        Json::Object(fields) => {
            let key = string_from_chars(token);
            member_of(fields, &key)
        },
        Json::Array(items) => match parse_index(token) {
            Some(i) => if i < items.len() {
                Some(&items[i])
            } else {
                None
            },
            None => None,
        },
        _ => None,
    }
}

impl Json {
    /// The value that the JSON Pointer `p` names (`serde_json::Value::pointer`).
    pub fn pointer<'a>(&'a self, p: &str) -> (r: Option<&'a Json>)
        ensures
            match r {
                Some(x) => lookup(*self, p@) == Some(*x),
                None => lookup(*self, p@) is None,
            },
    {
        let cs = chars_of(p);
        if cs.len() == 0 {
            return Some(self);
        }
        if cs[0] != '/' {
            return None;
        }
        let pieces = split_pieces(&cs);
        let ghost toks = pointer_tokens(cs@);
        proof {
            lemma_split_nonempty(cs@);
        }
        let n = pieces.len() - 1;
        assert(toks.len() == n);
        assert(lookup(*self, p@) == follow(*self, toks));
        let mut cur: &Json = self;
        let mut k: usize = 0;
        assert(toks.skip(0) =~= toks);
        while k < n
            invariant
                k <= n,
                n + 1 == pieces@.len(),
                toks.len() == n,
                toks == pointer_tokens(cs@),
                lookup(*self, p@) == follow(*self, toks),
                pieces@.len() == split_slash(cs@).len(),
                forall|m: int| 0 <= m < pieces@.len() ==> #[trigger] pieces@[m]@ == split_slash(cs@)[m],
                follow(*self, toks) == follow(*cur, toks.skip(k as int)),
            decreases n - k,
        {
            let tok = unescape_vec(&pieces[k + 1]);
            assert(tok@ == toks[k as int]);
            let ghost rest = toks.skip(k as int);
            assert(rest[0] == toks[k as int]);
            assert(rest.drop_first() =~= toks.skip(k + 1));
            match child_of(cur, &tok) {
                Some(c) => {
                    cur = c;
                },
                None => {
                    assert(rest.len() > 0);
                    assert(follow(*cur, rest) is None);
                    return None;
                },
            }
            k = k + 1;
        }
        assert(toks.skip(n as int) =~= Seq::<Seq<char>>::empty());
        Some(cur)
    }
}


/// A run that starts with `/` splits into at least two pieces.
proof fn lemma_split_leading_slash(s: Seq<char>)
    requires
        s.len() > 0,
        s[0] == '/',
    ensures
        split_slash(s).len() >= 2,
    decreases s.len(),
{
    if s.len() == 1 {
        assert(s.drop_last() =~= Seq::<char>::empty());
    } else {
        lemma_split_leading_slash(s.drop_last());
    }
}

/// Splitting a joined text whose second part starts with `/`: the pieces
/// of the first part, then those of the second after its leading piece.
proof fn lemma_split_concat(p: Seq<char>, q: Seq<char>)
    requires
        q.len() > 0,
        q[0] == '/',
    ensures
        split_slash(p + q) == split_slash(p) + split_slash(q).drop_first(),
    decreases q.len(),
{
    lemma_split_nonempty(p);
    if q.len() == 1 {
        assert((p + q).drop_last() =~= p);
        assert(q.drop_last() =~= Seq::<char>::empty());
        assert(split_slash(q) =~= seq![Seq::<char>::empty(), Seq::<char>::empty()]);
        assert(split_slash(p + q) =~= split_slash(p) + split_slash(q).drop_first());
    } else {
        let q0 = q.drop_last();
        assert((p + q).drop_last() =~= p + q0);
        lemma_split_concat(p, q0);
        lemma_split_leading_slash(q0);
        let a = split_slash(p);
        let b = split_slash(q0);
        assert(q.last() == (p + q).last());
        if q.last() == '/' {
            assert(split_slash(p + q) =~= (a + b.drop_first()).push(Seq::<char>::empty()));
            assert(split_slash(q).drop_first() =~= b.drop_first().push(Seq::<char>::empty()));
        } else {
            let c = q.last();
            let ab = a + b.drop_first();
            assert(ab.last() == b.last());
            assert(split_slash(p + q) =~= ab.update(ab.len() - 1, ab.last().push(c)));
            assert(split_slash(q) =~= b.update(b.len() - 1, b.last().push(c)));
        }
        assert(split_slash(p + q) =~= split_slash(p) + split_slash(q).drop_first());
    }
}

/// The tokens of a joined pointer are those of its parts.
proof fn lemma_tokens_concat(p: Seq<char>, q: Seq<char>)
    requires
        p.len() > 0,
        p[0] == '/',
        q.len() > 0,
        q[0] == '/',
    ensures
        pointer_tokens(p + q) == pointer_tokens(p) + pointer_tokens(q),
{
    lemma_split_concat(p, q);
    lemma_split_leading_slash(p);
    let a = split_slash(p);
    let b = split_slash(q);
    assert((a + b.drop_first()).drop_first() =~= a.drop_first() + b.drop_first());
    assert(pointer_tokens(p + q) =~= pointer_tokens(p) + pointer_tokens(q));
}

/// Following joined tokens is following the first, then the second.
proof fn lemma_follow_concat(j: Json, t1: Seq<Seq<char>>, t2: Seq<Seq<char>>)
    ensures
        follow(j, t1 + t2) == match follow(j, t1) {
            Some(x) => follow(x, t2),
            None => None,
        },
    decreases t1.len(),
{
    if t1.len() == 0 {
        assert(t1 + t2 =~= t2);
    } else {
        assert((t1 + t2)[0] == t1[0]);
        assert((t1 + t2).drop_first() =~= t1.drop_first() + t2);
        match child(j, t1[0]) {
            Some(c) => {
                lemma_follow_concat(c, t1.drop_first(), t2);
            },
            None => {},
        }
    }
}

/// Looking up a joined pointer is looking up its first part, then its
/// second part from the value the first part names.
pub proof fn law_pointer_concat(j: Json, p: Seq<char>, q: Seq<char>)
    requires
        q.len() == 0 || q[0] == '/',
    ensures
        lookup(j, p + q) == match lookup(j, p) {
            Some(x) => lookup(x, q),
            None => None,
        },
{
    if p.len() == 0 {
        assert(p + q =~= q);
    } else if q.len() == 0 {
        assert(p + q =~= p);
    } else {
        assert((p + q)[0] == p[0]);
        if p[0] == '/' {
            lemma_tokens_concat(p, q);
            lemma_follow_concat(j, pointer_tokens(p), pointer_tokens(q));
        }
    }
}

/// The string at `p`.
pub open spec fn read_str(j: Json, p: Seq<char>) -> Result<Seq<char>, JsonErrorV> {
    match lookup(j, p) {
        None => Err((JsonErrorKind::PathNotFound, p)),
        Some(Json::Str(s)) => Ok(s@),
        Some(_) => Err((JsonErrorKind::UnexpectedType, p)),
    }
}

/// A non-negative integer that fits `u64`.
pub open spec fn as_u64(j: Json) -> Option<u64> {
    match j {
        Json::Int(n) => if 0 <= n <= u64::MAX { Some(n as u64) } else { None },
        _ => None,
    }
}

/// An image of a result, at one size.
#[derive(Clone, Debug, PartialEq, Eq)]
pub struct Thumbnail {
    pub height: u64,
    pub width: u64,
    pub url: String,
}

/// A thumbnail read from a value: an object with members `height`,
/// `width` (non-negative integers) and `url` (a string), other members
/// ignored; or an array of exactly these three values in this order.
pub open spec fn thumbnail_of(j: Json) -> Option<(u64, u64, Seq<char>)> {
    match j {
        Json::Object(fields) => match (
            member(fields@, "height"@),
            member(fields@, "width"@),
            member(fields@, "url"@),
        ) {
            (Some(h), Some(w), Some(Json::Str(u))) => match (as_u64(h), as_u64(w)) {
                (Some(hv), Some(wv)) => Some((hv, wv, u@)),
                _ => None,
            },
            _ => None,
        },
        Json::Array(items) => if items@.len() == 3 {
            match (as_u64(items@[0]), as_u64(items@[1]), items@[2]) {
                (Some(hv), Some(wv), Json::Str(u)) => Some((hv, wv, u@)),
                _ => None,
            }
        } else {
            None
        },
        _ => None,
    }
}

pub open spec fn thumbnail_view(t: Thumbnail) -> (u64, u64, Seq<char>) {
    (t.height, t.width, t.url@)
}

/// The thumbnails of a list of values, when each value is one.
pub open spec fn thumbnails_of(items: Seq<Json>) -> Option<Seq<(u64, u64, Seq<char>)>>
    decreases items.len(),
{
    if items.len() == 0 {
        Some(Seq::empty())
    } else {
        match (thumbnails_of(items.drop_last()), thumbnail_of(items.last())) {
            (Some(ts), Some(t)) => Some(ts.push(t)),
            _ => None,
        }
    }
}

/// The list of thumbnails at `p`.
pub open spec fn read_thumbnails(j: Json, p: Seq<char>) -> Result<Seq<(u64, u64, Seq<char>)>, JsonErrorV> {
    match lookup(j, p) {
        None => Err((JsonErrorKind::PathNotFound, p)),
        Some(Json::Array(items)) => match thumbnails_of(items@) {
            Some(ts) => Ok(ts),
            None => Err((JsonErrorKind::UnexpectedType, p)),
        },
        Some(_) => Err((JsonErrorKind::UnexpectedType, p)),
    }
}

fn json_u64(j: &Json) -> (r: Option<u64>)
    ensures
        r == as_u64(*j),
{
    match j {
        Json::Int(n) => if 0 <= *n && *n <= u64::MAX as i128 {
            Some(*n as u64)
        } else {
            None
        },
        _ => None,
    }
}

fn thumbnail_from(j: &Json) -> (r: Option<Thumbnail>)
    ensures
        match r {
            Some(t) => thumbnail_of(*j) == Some(thumbnail_view(t)),
            None => thumbnail_of(*j) is None,
        },
{
    match j {
        Json::Object(fields) => {
            let hk = String::from_str("height");
            let wk = String::from_str("width");
            let uk = String::from_str("url");
            let h = member_of(fields, &hk);
            let w = member_of(fields, &wk);
            let u = member_of(fields, &uk);
            match (h, w, u) {
                (Some(h), Some(w), Some(Json::Str(url))) => match (json_u64(h), json_u64(w)) {
                    (Some(hv), Some(wv)) => Some(Thumbnail { height: hv, width: wv, url: url.clone() }),
                    _ => None,
                },
                _ => None,
            }
        },
        Json::Array(items) => {
            if items.len() == 3 {
                match (json_u64(&items[0]), json_u64(&items[1]), &items[2]) {
                    (Some(hv), Some(wv), Json::Str(url)) => Some(Thumbnail { height: hv, width: wv, url: url.clone() }),
                    _ => None,
                }
            } else {
                None
            }
        },
        _ => None,
    }
}

proof fn lemma_thumbnails_prefix_none(items: Seq<Json>, k: int)
    requires
        0 <= k <= items.len(),
        thumbnails_of(items.subrange(0, k)) is None,
    ensures
        thumbnails_of(items) is None,
    decreases items.len(),
{
    if k < items.len() {
        assert(items.drop_last().subrange(0, k) =~= items.subrange(0, k));
        lemma_thumbnails_prefix_none(items.drop_last(), k);
    } else {
        assert(items.subrange(0, k) =~= items);
    }
}

fn thumbnails_from(items: &Vec<Json>) -> (r: Option<Vec<Thumbnail>>)
    ensures
        match r {
            Some(ts) => thumbnails_of(items@) == Some(ts@.map_values(|t: Thumbnail| thumbnail_view(t))),
            None => thumbnails_of(items@) is None,
        },
{
    let mut out: Vec<Thumbnail> = Vec::new();
    let mut i: usize = 0;
    assert(items@.subrange(0, 0) =~= Seq::<Json>::empty());
    assert(out@.map_values(|t: Thumbnail| thumbnail_view(t)) =~= Seq::empty());
    while i < items.len()
        invariant
            i <= items.len(),
            thumbnails_of(items@.subrange(0, i as int)) == Some(out@.map_values(|t: Thumbnail| thumbnail_view(t))),
        decreases items.len() - i,
    {
        proof {
            assert(items@.subrange(0, i + 1).drop_last() =~= items@.subrange(0, i as int));
            assert(items@.subrange(0, i + 1).last() == items@[i as int]);
        }
        let ghost before = out@;
        match thumbnail_from(&items[i]) {
            Some(t) => {
                out.push(t);
                assert(out@.map_values(|t: Thumbnail| thumbnail_view(t)) =~= before.map_values(
                    |t: Thumbnail| thumbnail_view(t),
                ).push(thumbnail_view(t)));
            },
            None => {
                proof {
                    lemma_thumbnails_prefix_none(items@, i + 1);
                }
                return None;
            },
        }
        i = i + 1;
    }
    assert(items@.subrange(0, items.len() as int) =~= items@);
    Some(out)
}


/// A document of a response, to be read by pointers.
#[derive(Debug)]
pub struct JsonCrawler {
    pub json: Json,
}

impl JsonCrawler {
    pub fn from_json(json: Json) -> (r: JsonCrawler)
        ensures
            r.json == json,
    {
        JsonCrawler { json }
    }

    pub fn get_json(&self) -> (r: &Json)
        ensures
            *r == self.json,
    {
        &self.json
    }
}

fn path_error(kind: JsonErrorKind, p: &str) -> (e: JsonError)
    ensures
        err_view(e) == (kind, p@),
{
    JsonError { kind, path: String::from_str(p) }
}

/// The value at `p`, or a `PathNotFound` error naming `p`.
pub fn navigate<'a>(j: &'a Json, p: &str) -> (r: Result<&'a Json, JsonError>)
    ensures
        match r {
            Ok(x) => lookup(*j, p@) == Some(*x),
            Err(e) => lookup(*j, p@) is None && err_view(e) == (JsonErrorKind::PathNotFound, p@),
        },
{
    match j.pointer(p) {
        Some(x) => Ok(x),
        None => Err(path_error(JsonErrorKind::PathNotFound, p)),
    }
}

/// Whether a value exists at `p`.
pub fn path_exists(j: &Json, p: &str) -> (r: bool)
    ensures
        r == lookup(*j, p@) is Some,
{
    j.pointer(p).is_some()
}

/// The string at `p`.
pub fn read_string(j: &Json, p: &str) -> (r: Result<String, JsonError>)
    ensures
        result_view(r, |s: String| s@) == read_str(*j, p@),
{
    match j.pointer(p) {
        None => Err(path_error(JsonErrorKind::PathNotFound, p)),
        Some(Json::Str(s)) => Ok(s.clone()),
        Some(_) => Err(path_error(JsonErrorKind::UnexpectedType, p)),
    }
}

/// The thumbnails at `p`.
pub fn read_thumbnail_list(j: &Json, p: &str) -> (r: Result<Vec<Thumbnail>, JsonError>)
    ensures
        result_view(r, |v: Vec<Thumbnail>| v@.map_values(|t: Thumbnail| thumbnail_view(t)))
            == read_thumbnails(*j, p@),
{
    match j.pointer(p) {
        None => Err(path_error(JsonErrorKind::PathNotFound, p)),
        Some(Json::Array(items)) => match thumbnails_from(items) {
            Some(ts) => Ok(ts),
            None => Err(path_error(JsonErrorKind::UnexpectedType, p)),
        },
        Some(_) => Err(path_error(JsonErrorKind::UnexpectedType, p)),
    }
}

/// The elements of the array at `p`.
pub open spec fn read_array(j: Json, p: Seq<char>) -> Result<Seq<Json>, JsonErrorV> {
    match lookup(j, p) {
        None => Err((JsonErrorKind::PathNotFound, p)),
        Some(Json::Array(items)) => Ok(items@),
        Some(_) => Err((JsonErrorKind::UnexpectedType, p)),
    }
}

/// The elements of the array at `p`.
pub fn array_at<'a>(j: &'a Json, p: &str) -> (r: Result<&'a Vec<Json>, JsonError>)
    ensures
        result_view(r, |v: &'a Vec<Json>| v@) == read_array(*j, p@),
{
    match j.pointer(p) {
        None => Err(path_error(JsonErrorKind::PathNotFound, p)),
        Some(Json::Array(items)) => Ok(items),
        Some(_) => Err(path_error(JsonErrorKind::UnexpectedType, p)),
    }
}

}
