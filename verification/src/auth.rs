//! Authentication by the cookie of a signed-in browser.
use vstd::prelude::*;
use crate::json::Json;
use crate::json_text::{json_text, members_text, string_text};
use crate::text::{chars_of, find, find_from, lemma_split_once, occurs_in, opt_str, seq_contains, split_once, sub_chars, trim_str, trimmed};

verus! {

/// What the music page says when it refuses the user agent.
pub const OUTDATED_BROWSER_NOTICE: &'static str = "Sorry, YouTube Music is not optimised for your browser. Check for updates or try Google Chrome.";
/// What precedes the client version in the music page.
pub const CLIENT_VERSION_KEY: &'static str = "INNERTUBE_CLIENT_VERSION\":\"";
/// What precedes the `SAPISID` value in the cookie.
pub const SAPISID_KEY: &'static str = "SAPISID=";

/// Why a browser token could not be made or used.
#[derive(Clone, Copy, Debug, PartialEq, Eq, Structural)]
pub enum AuthError {
    /// The music page refused the user agent.
    ExpiredUserAgent,
    /// The page or the cookie lacks a value the token needs.
    Header,
    /// A query needs a token and there is none.
    NotAuthenticated,
}

/// The credentials of a signed-in browser.
#[derive(Clone, Debug, PartialEq, Eq)]
pub struct BrowserToken {
    pub sapisid: String,
    pub client_version: String,
    pub cookies: String,
}

/// A token, as contracts speak of it: sapisid, client version, cookies.
pub type BrowserTokenView = (Seq<char>, Seq<char>, Seq<char>);

pub open spec fn token_view(t: BrowserToken) -> BrowserTokenView {
    (t.sapisid@, t.client_version@, t.cookies@)
}

/// The token that a cookie (already trimmed) and the music page fetched
/// with it give: the client version is what follows `CLIENT_VERSION_KEY`
/// up to the next quote; the sapisid what follows `SAPISID_KEY` up to the
/// next `;`.
pub open spec fn token_of(cookies: Seq<char>, page: Seq<char>) -> Result<BrowserTokenView, AuthError> {
    if occurs_in(page, OUTDATED_BROWSER_NOTICE@) {
        Err(AuthError::ExpiredUserAgent)
    } else {
        match split_once(page, CLIENT_VERSION_KEY@) {
            None => Err(AuthError::Header),
            Some((_, after_key)) => match split_once(after_key, seq!['"']) {
                None => Err(AuthError::Header),
                Some((version, _)) => match split_once(cookies, SAPISID_KEY@) {
                    None => Err(AuthError::Header),
                    Some((_, after_sapisid)) => match split_once(after_sapisid, seq![';']) {
                        None => Err(AuthError::Header),
                        Some((sapisid, _)) => Ok((sapisid, version, cookies)),
                    },
                },
            },
        }
    }
}

/// The text before the first `c` holds no `c`.
proof fn lemma_before_char(s: Seq<char>, c: char)
    ensures
        split_once(s, seq![c]) matches Some((a, b)) ==> s == a + seq![c] + b && !a.contains(c),
{
    lemma_split_once(s, seq![c]);
    match split_once(s, seq![c]) {
        Some((a, b)) => {
            assert forall|k: int| 0 <= k < a.len() implies a[k] != c by {
                assert(s.subrange(k, k + 1) != seq![c]);
                assert(s[k] == a[k]);
                if a[k] == c {
                    assert(s.subrange(k, k + 1) =~= seq![c]);
                }
            }
        },
        None => {},
    }
}

/// A page that holds the outdated-browser notice anywhere is refused,
/// whatever else it holds and whatever the cookie.
pub proof fn law_outdated_browser_refused(cookies: Seq<char>, page: Seq<char>)
    requires
        occurs_in(page, OUTDATED_BROWSER_NOTICE@),
    ensures
        token_of(cookies, page) == Err::<BrowserTokenView, AuthError>(AuthError::ExpiredUserAgent),
{
}

/// A token is made only from a page without the notice. Its client
/// version is what stands in the page between the version key and a
/// quote, and holds no quote; its `SAPISID` is what stands in the cookie
/// between `SAPISID=` and a `;`, and holds no `;`; it keeps the cookie.
/// A page without the version key, or a cookie without `SAPISID=`, gives
/// a header error unless the notice comes first.
pub proof fn law_token_is_read_from_page_and_cookie(cookies: Seq<char>, page: Seq<char>)
    ensures
        token_of(cookies, page) matches Ok(t) ==> {
            &&& !occurs_in(page, OUTDATED_BROWSER_NOTICE@)
            &&& occurs_in(page, CLIENT_VERSION_KEY@ + t.1 + seq!['"'])
            &&& !t.1.contains('"')
            &&& occurs_in(cookies, SAPISID_KEY@ + t.0 + seq![';'])
            &&& !t.0.contains(';')
            &&& t.2 == cookies
        },
        !occurs_in(page, OUTDATED_BROWSER_NOTICE@) && (!occurs_in(page, CLIENT_VERSION_KEY@)
            || !occurs_in(cookies, SAPISID_KEY@)) ==> token_of(cookies, page)
            == Err::<BrowserTokenView, AuthError>(AuthError::Header),
{
    lemma_split_once(page, CLIENT_VERSION_KEY@);
    lemma_split_once(cookies, SAPISID_KEY@);
    match split_once(page, CLIENT_VERSION_KEY@) {
        Some((pa, after_key)) => {
            lemma_before_char(after_key, '"');
            match split_once(after_key, seq!['"']) {
                Some((version, pb)) => {
                    let w = CLIENT_VERSION_KEY@ + version + seq!['"'];
                    assert(page =~= pa + w + pb);
                    assert(page.subrange(pa.len() as int, (pa.len() + w.len()) as int) =~= w);
                },
                None => {},
            }
        },
        None => {},
    }
    match split_once(cookies, SAPISID_KEY@) {
        Some((ca, after_sid)) => {
            lemma_before_char(after_sid, ';');
            match split_once(after_sid, seq![';']) {
                Some((sid, cb)) => {
                    let w = SAPISID_KEY@ + sid + seq![';'];
                    assert(cookies =~= ca + w + cb);
                    assert(cookies.subrange(ca.len() as int, (ca.len() + w.len()) as int) =~= w);
                },
                None => {},
            }
        },
        None => {},
    }
}

/// The text between the first `key` and the next `end` after it.
fn between(s: &Vec<char>, key: &Vec<char>, end: char) -> (r: Option<String>)
    ensures
        match split_once(s@, key@) {
            None => r is None,
            Some((_, after)) => match split_once(after, seq![end]) {
                None => r is None,
                Some((found, _)) => r matches Some(v) && v@ == found,
            },
        },
{
    let i = match find(s, key) {
        Some(i) => i,
        None => {
            return None;
        },
    };
    let start = i + key.len();
    let ghost after = s@.subrange(start as int, s@.len() as int);
    let mut rest: Vec<char> = Vec::new();
    let mut k: usize = start;
    while k < s.len()
        invariant
            start <= k <= s.len(),
            rest@ == s@.subrange(start as int, k as int),
        decreases s.len() - k,
    {
        rest.push(s[k]);
        k = k + 1;
        assert(rest@ =~= s@.subrange(start as int, k as int));
    }
    assert(rest@ == after);
    let mut endv: Vec<char> = Vec::new();
    endv.push(end);
    assert(endv@ =~= seq![end]);
    match find(&rest, &endv) {
        Some(j) => Some(sub_chars(&rest, 0, j)),
        None => None,
    }
}

impl BrowserToken {
    /// The cookie as it is sent: without leading and trailing white space.
    pub fn cookie_header(cookie_str: &str) -> (r: String)
        ensures
            r@ == trimmed(cookie_str@),
    {
        trim_str(cookie_str)
    }

    /// The token for a cookie, given the music page fetched with the
    /// trimmed cookie.
    pub fn from_page(cookie_str: &str, page: &str) -> (r: Result<BrowserToken, AuthError>)
        ensures
            match r {
                Ok(t) => token_of(trimmed(cookie_str@), page@) == Ok::<BrowserTokenView, AuthError>(token_view(t)),
                Err(e) => token_of(trimmed(cookie_str@), page@) == Err::<BrowserTokenView, AuthError>(e),
            },
    {
        let cookies = Self::cookie_header(cookie_str);
        let page_chars = chars_of(page);
        let notice = chars_of(OUTDATED_BROWSER_NOTICE);
        if seq_contains(&page_chars, &notice) {
            return Err(AuthError::ExpiredUserAgent);
        }
        let version_key = chars_of(CLIENT_VERSION_KEY);
        let client_version = match between(&page_chars, &version_key, '"') {
            Some(v) => v,
            None => {
                return Err(AuthError::Header);
            },
        };
        let cookie_chars = chars_of(cookies.as_str());
        let sapisid_key = chars_of(SAPISID_KEY);
        let sapisid = match between(&cookie_chars, &sapisid_key, ';') {
            Some(v) => v,
            None => {
                return Err(AuthError::Header);
            },
        };
        Ok(BrowserToken { sapisid, client_version, cookies })
    }
}

/// The origin of the music site, sent with each query.
pub const YTM_URL: &'static str = "https://music.youtube.com";

/// The members of an object, as names and the texts of their values.
pub type MemberTexts = Seq<(Seq<char>, Seq<char>)>;

pub open spec fn member_texts(fields: Seq<(String, Json)>) -> MemberTexts {
    fields.map_values(|m: (String, Json)| (m.0@, json_text(m.1)))
}

/// The position of the first member named `key`.
pub open spec fn key_index(ms: MemberTexts, key: Seq<char>) -> Option<int>
    decreases ms.len(),
{
    if ms.len() == 0 {
        None
    } else if ms.last().0 == key && key_index(ms.drop_last(), key) is None {
        Some(ms.len() - 1)
    } else {
        key_index(ms.drop_last(), key)
    }
}

/// Sets a member: the member of that name takes the new value where it
/// stands; a new name is added last.
pub open spec fn set_member(ms: MemberTexts, m: (Seq<char>, Seq<char>)) -> MemberTexts {
    match key_index(ms, m.0) {
        Some(i) => ms.update(i, m),
        None => ms.push(m),
    }
}

/// Sets the members of `extra`, in order.
pub open spec fn set_members(ms: MemberTexts, extra: MemberTexts) -> MemberTexts
    decreases extra.len(),
{
    if extra.len() == 0 {
        ms
    } else {
        set_member(set_members(ms, extra.drop_last()), extra.last())
    }
}

/// The text of the client context of a query.
pub open spec fn client_context_text(version: Seq<char>) -> Seq<char> {
    seq!['{'] + string_text("client"@) + seq![':', '{'] + string_text("clientName"@) + seq![':']
        + string_text("WEB_REMIX"@) + seq![','] + string_text("clientVersion"@) + seq![':']
        + string_text(version) + seq!['}', '}']
}

/// The members of the body of a query: the client context, then the
/// members of the query's header, then its parameters when it has some.
pub open spec fn body_members(version: Seq<char>, header: MemberTexts, params: Option<Seq<char>>) -> MemberTexts {
    let base = set_members(seq![("context"@, client_context_text(version))], header);
    match params {
        Some(q) => set_member(base, ("params"@, string_text(q))),
        None => base,
    }
}

/// A found name names the member found.
proof fn lemma_key_index_found(ms: MemberTexts, key: Seq<char>)
    ensures
        key_index(ms, key) matches Some(i) ==> 0 <= i < ms.len() && ms[i].0 == key,
    decreases ms.len(),
{
    if ms.len() > 0 {
        lemma_key_index_found(ms.drop_last(), key);
    }
}

/// Setting members not named like the first member leaves the first member.
proof fn lemma_set_members_keep_first(ms: MemberTexts, extra: MemberTexts)
    requires
        ms.len() > 0,
        forall|i: int| 0 <= i < extra.len() ==> #[trigger] extra[i].0 != ms[0].0,
    ensures
        set_members(ms, extra).len() > 0,
        set_members(ms, extra)[0] == ms[0],
    decreases extra.len(),
{
    if extra.len() > 0 {
        let before = set_members(ms, extra.drop_last());
        assert forall|i: int| 0 <= i < extra.drop_last().len() implies #[trigger] extra.drop_last()[i].0 != ms[0].0 by {
            assert(extra.drop_last()[i] == extra[i]);
        }
        lemma_set_members_keep_first(ms, extra.drop_last());
        lemma_key_index_found(before, extra.last().0);
        assert(extra.last().0 != ms[0].0);
    }
}

/// Unless the query's header has a member named `context`, the body of
/// a query starts with the client context, which carries the client
/// version of the token.
pub proof fn law_body_keeps_client_context(version: Seq<char>, header: MemberTexts, params: Option<Seq<char>>)
    requires
        forall|i: int| 0 <= i < header.len() ==> #[trigger] header[i].0 != "context"@,
    ensures
        body_members(version, header, params).len() > 0,
        body_members(version, header, params)[0] == ("context"@, client_context_text(version)),
{
    let first = seq![("context"@, client_context_text(version))];
    lemma_set_members_keep_first(first, header);
    let base = set_members(first, header);
    reveal_strlit("params");
    reveal_strlit("context");
    assert("params"@ != "context"@) by {
        assert("params"@.len() != "context"@.len());
    }
    lemma_key_index_found(base, "params"@);
}

/// Where the first member named `key` stands.
fn find_key(fields: &Vec<(String, Json)>, key: &String) -> (r: Option<usize>)
    ensures
        match r {
            Some(i) => key_index(member_texts(fields@), key@) == Some(i as int) && i < fields@.len(),
            None => key_index(member_texts(fields@), key@) is None,
        },
{
    let ghost ms = member_texts(fields@);
    let mut i: usize = 0;
    while i < fields.len()
        invariant
            i <= fields@.len(),
            ms == member_texts(fields@),
            key_index(ms.subrange(0, i as int), key@) is None,
        decreases fields.len() - i,
    {
        assert(ms.subrange(0, i + 1).drop_last() =~= ms.subrange(0, i as int));
        if fields[i].0 == *key {
            proof {
                lemma_key_index_prefix(ms, i + 1);
            }
            return Some(i);
        }
        i = i + 1;
    }
    assert(ms.subrange(0, i as int) =~= ms);
    None
}

/// A name found in a prefix is found at the same place in the whole.
proof fn lemma_key_index_prefix(ms: MemberTexts, n: int)
    requires
        0 <= n <= ms.len(),
        key_index(ms.subrange(0, n), ms[n - 1].0) == Some(n - 1),
    ensures
        key_index(ms, ms[n - 1].0) == Some(n - 1),
    decreases ms.len(),
{
    if n < ms.len() {
        assert(ms.drop_last().subrange(0, n) =~= ms.subrange(0, n));
        lemma_key_index_prefix(ms.drop_last(), n);
    } else {
        assert(ms.subrange(0, n) =~= ms);
    }
}

/// Sets a member of an object's members.
fn put_member(fields: &mut Vec<(String, Json)>, key: String, value: Json)
    ensures
        member_texts(final(fields)@) == set_member(member_texts(old(fields)@), (key@, json_text(value))),
{
    let ghost text = json_text(value);
    match find_key(fields, &key) {
        Some(i) => {
            fields.set(i, (key, value));
            assert(member_texts(fields@) =~= member_texts(old(fields)@).update(i as int, (key@, text)));
        },
        None => {
            fields.push((key, value));
            assert(member_texts(fields@) =~= member_texts(old(fields)@).push((key@, text)));
        },
    }
}

/// The client context of a query made with client version `version`.
fn client_context(version: &String) -> (r: Json)
    ensures
        json_text(r) == client_context_text(version@),
{
    let web_remix = String::from_str("WEB_REMIX");
    let name_key = String::from_str("clientName");
    let version_key = String::from_str("clientVersion");
    let client_key = String::from_str("client");
    let name = Json::Str(web_remix);
    let ver = Json::Str(version.clone());
    let client = Json::Object(vec![(name_key, name), (version_key, ver)]);
    let context = Json::Object(vec![(client_key, client)]);
    proof {
        let ghost v = version@;
        assert(json_text(name) == string_text("WEB_REMIX"@));
        assert(json_text(ver) == string_text(v));
        assert(members_text(client, 1) == string_text("clientName"@) + seq![':'] + string_text("WEB_REMIX"@));
        assert(members_text(client, 2) == members_text(client, 1) + seq![','] + string_text("clientVersion"@)
            + seq![':'] + string_text(v));
        assert(json_text(client) == seq!['{'] + members_text(client, 2) + seq!['}']);
        assert(members_text(context, 1) == string_text("client"@) + seq![':'] + json_text(client));
        assert(json_text(context) == seq!['{'] + members_text(context, 1) + seq!['}']);
        assert(json_text(context) =~= client_context_text(v));
    }
    context
}

impl BrowserToken {
    /// The body of a query: the client context with the client version of
    /// this token, the members of the query's header, and the query's
    /// parameters. A member of the header may replace the context.
    pub fn request_body(&self, header: Vec<(String, Json)>, params: Option<String>) -> (r: Json)
        ensures
            r matches Json::Object(fields) && member_texts(fields@) == body_members(
                self.client_version@,
                member_texts(header@),
                opt_str(params),
            ),
    {
        let context = client_context(&self.client_version);
        let mut fields: Vec<(String, Json)> = vec![(String::from_str("context"), context)];
        assert(member_texts(fields@) =~= seq![("context"@, client_context_text(self.client_version@))]);
        let ghost hs = member_texts(header@);
        let mut rest = header;
        let n = rest.len();
        let mut k: usize = 0;
        while k < n
            invariant
                k <= n,
                n == hs.len(),
                rest@.len() == n - k,
                member_texts(rest@) == hs.subrange(k as int, n as int),
                member_texts(fields@) == set_members(
                    seq![("context"@, client_context_text(self.client_version@))],
                    hs.subrange(0, k as int),
                ),
            decreases n - k,
        {
            let ghost before = rest@;
            let (key, value) = rest.remove(0);
            proof {
                assert forall|i: int| 0 <= i < rest@.len() implies #[trigger] member_texts(rest@)[i]
                    == hs.subrange(k + 1, n as int)[i] by {
                    assert(rest@[i] == before[i + 1]);
                    assert(member_texts(before)[i + 1] == hs.subrange(k as int, n as int)[i + 1]);
                }
                assert(member_texts(rest@) =~= hs.subrange(k + 1, n as int));
                assert(hs.subrange(0, k + 1).drop_last() =~= hs.subrange(0, k as int));
                assert(hs.subrange(k as int, n as int)[0] == (key@, json_text(value)));
            }
            put_member(&mut fields, key, value);
            k = k + 1;
        }
        assert(hs.subrange(0, n as int) =~= hs);
        match params {
            Some(q) => {
                put_member(&mut fields, String::from_str("params"), Json::Str(q));
            },
            None => {},
        }
        Json::Object(fields)
    }

    /// The headers of a query signed with `sapisid_hash`, the hash of this
    /// token's `SAPISID`.
    pub fn request_headers(&self, sapisid_hash: &str) -> (r: Vec<(String, String)>)
        ensures
            r@.map_values(|h: (String, String)| (h.0@, h.1@)) == seq![
                ("Content-Type"@, "application/json"@),
                ("Authorization"@, "SAPISIDHASH "@ + sapisid_hash@),
                ("X-Origin"@, YTM_URL@),
                ("Cookie"@, self.cookies@),
            ],
    {
        let mut auth = String::from_str("SAPISIDHASH ");
        auth.append(sapisid_hash);
        let r = vec![
            (String::from_str("Content-Type"), String::from_str("application/json")),
            (String::from_str("Authorization"), auth),
            (String::from_str("X-Origin"), String::from_str(YTM_URL)),
            (String::from_str("Cookie"), self.cookies.clone()),
        ];
        assert(r@.map_values(|h: (String, String)| (h.0@, h.1@)) =~= seq![
            ("Content-Type"@, "application/json"@),
            ("Authorization"@, "SAPISIDHASH "@ + sapisid_hash@),
            ("X-Origin"@, YTM_URL@),
            ("Cookie"@, self.cookies@),
        ]);
        r
    }
}

/// How the client signs its queries.
#[derive(Clone, Debug, PartialEq, Eq)]
pub enum Auth {
    Browser(BrowserToken),
    Unauthenticated,
}

impl Default for Auth {
    fn default() -> (r: Auth)
        ensures
            r == Auth::Unauthenticated,
    {
        Auth::Unauthenticated
    }
}

impl Auth {
    /// The token a query is signed with; an unauthenticated client has none.
    pub fn token(&self) -> (r: Result<&BrowserToken, AuthError>)
        ensures
            match *self {
                Auth::Browser(t) => r == Ok::<&BrowserToken, AuthError>(&t),
                Auth::Unauthenticated => r == Err::<&BrowserToken, AuthError>(AuthError::NotAuthenticated),
            },
    {
        match self {
            Auth::Browser(t) => Ok(t),
            Auth::Unauthenticated => Err(AuthError::NotAuthenticated),
        }
    }
}

}
