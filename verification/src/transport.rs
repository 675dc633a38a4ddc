//! The headers a request carries, and the delay an endpoint asks a caller to
//! wait.
//!
//! Three layers can name a header: the dialect, the endpoint's extra headers,
//! and auth. A name written twice would go out twice, and a server rejecting
//! the request would not say which copy it read, so names are resolved here:
//! the later layer wins, names compare without regard to ASCII case, and a
//! name auth will set is left to auth.

use vstd::prelude::*;
use crate::config::{Auth, ProviderConfig, dialect_headers};
use crate::error::ProviderError;
use crate::sse::{trim, utf8_lossy, decode_lossy};

verus! {

/// A character's code with ASCII letters folded to lower case.
pub open spec fn folded(c: char) -> u32 {
    let u = c as u32;
    if 65 <= u <= 90 { (u + 32) as u32 } else { u }
}

/// Two names that match without regard to ASCII case, as
/// `str::eq_ignore_ascii_case` compares them.
pub open spec fn same_name(a: Seq<char>, b: Seq<char>) -> bool {
    a.len() == b.len() && forall|i: int| 0 <= i < a.len() ==> folded(a[i]) == folded(b[i])
}

/// The header an auth style sets, if it sets one.
pub open spec fn auth_name(auth: Auth) -> Option<Seq<char>> {
    match auth {
        Auth::Bearer => Some("authorization"@),
        Auth::Header(name) => Some(name@),
        Auth::Keyless => None,
    }
}

/// The headers, less those whose name matches the reserved one.
pub open spec fn unreserved(hs: Seq<(Seq<char>, Seq<char>)>, reserved: Option<Seq<char>>) -> Seq<(Seq<char>, Seq<char>)>
    decreases hs.len(),
{
    if hs.len() == 0 {
        Seq::empty()
    } else {
        let rest = unreserved(hs.drop_last(), reserved);
        match reserved {
            Some(r) => if same_name(hs.last().0, r) { rest } else { rest.push(hs.last()) },
            None => rest.push(hs.last()),
        }
    }
}

/// Some header in `hs` has this name.
pub open spec fn named_in(hs: Seq<(Seq<char>, Seq<char>)>, name: Seq<char>) -> bool {
    exists|j: int| 0 <= j < hs.len() && same_name(#[trigger] hs[j].0, name)
}

/// The headers with only the last of each name kept, in order.
pub open spec fn last_of_each(hs: Seq<(Seq<char>, Seq<char>)>) -> Seq<(Seq<char>, Seq<char>)>
    decreases hs.len(),
{
    if hs.len() == 0 {
        Seq::empty()
    } else if named_in(hs.drop_first(), hs[0].0) {
        last_of_each(hs.drop_first())
    } else {
        seq![hs[0]] + last_of_each(hs.drop_first())
    }
}

/// The headers a request to this endpoint carries before auth: the
/// dialect's, then the endpoint's extra ones, less any name auth will set
/// when there is a key, the last of each name winning.
pub open spec fn resolved(config: ProviderConfig, has_key: bool) -> Seq<(Seq<char>, Seq<char>)> {
    let all = dialect_headers(config.dialect)
        + config.extra_headers@.map_values(|h: (String, String)| (h.0@, h.1@));
    last_of_each(unreserved(all, if has_key { auth_name(config.auth) } else { None }))
}

/// The header name the endpoint's auth would set, if it sets one.
pub fn auth_header_name(auth: &Auth) -> (r: Option<&'static str>)
    ensures
        match auth_name(*auth) {
            Some(n) => r matches Some(x) && x@ == n,
            None => r is None,
        },
{
    match auth {
        Auth::Bearer => Some("authorization"),
        Auth::Header(name) => Some(*name),
        Auth::Keyless => None,
    }
}

fn same_char(a: char, b: char) -> (r: bool)
    ensures
        r == (folded(a) == folded(b)),
{
    let x = a as u32;
    let y = b as u32;
    let fx = if 65 <= x && x <= 90 { x + 32 } else { x };
    let fy = if 65 <= y && y <= 90 { y + 32 } else { y };
    fx == fy
}

/// Whether two names match without regard to ASCII case.
fn eq_ignore_case(a: &str, b: &str) -> (r: bool)
    ensures
        r == same_name(a@, b@),
{
    let x = crate::text::chars_of(a);
    let y = crate::text::chars_of(b);
    if x.len() != y.len() {
        return false;
    }
    let mut i: usize = 0;
    while i < x.len()
        invariant
            i <= x@.len(),
            x@ == a@,
            y@ == b@,
            x@.len() == y@.len(),
            forall|k: int| 0 <= k < i ==> folded(x@[k]) == folded(y@[k]),
        decreases x@.len() - i,
    {
        if !same_char(x[i], y[i]) {
            return false;
        }
        i = i + 1;
    }
    true
}

pub open spec fn pairs_view(v: Seq<(&str, &str)>) -> Seq<(Seq<char>, Seq<char>)> {
    v.map_values(|h: (&str, &str)| (h.0@, h.1@))
}

/// The dialect's required headers and the endpoint's extra ones, resolved.
///
/// Later wins, so an endpoint pinned to a different API version can say so
/// and a second header of one name supersedes the first. A name auth will
/// set is dropped when there is a key; auth itself is applied by the caller.
pub fn resolved_headers<'a>(config: &'a ProviderConfig, api_key: Option<&str>) -> (r: Vec<(&'a str, &'a str)>)
    ensures
        pairs_view(r@) == resolved(*config, api_key is Some),
{
    let reserved = match api_key {
        Some(_) => auth_header_name(&config.auth),
        None => None,
    };
    let ghost rv = match reserved { Some(x) => Some(x@), None => None };
    let required = config.dialect.required_headers();
    let ghost extras = config.extra_headers@.map_values(|h: (String, String)| (h.0@, h.1@));
    let ghost everything = dialect_headers(config.dialect) + extras;
    let mut all: Vec<(&'a str, &'a str)> = Vec::new();
    let mut i: usize = 0;
    let n = required.len();
    assert(pairs_view(required@) == dialect_headers(config.dialect));
    assert(everything.take(0) =~= Seq::<(Seq<char>, Seq<char>)>::empty());
    assert(pairs_view(all@) =~= Seq::<(Seq<char>, Seq<char>)>::empty());
    while i < n
        invariant
            i <= n == required@.len(),
            everything == dialect_headers(config.dialect) + extras,
            extras == config.extra_headers@.map_values(|h: (String, String)| (h.0@, h.1@)),
            pairs_view(required@) == dialect_headers(config.dialect),
            rv == match reserved { Some(x) => Some(x@), None => None::<Seq<char>> },
            pairs_view(all@) == unreserved(everything.take(i as int), rv),
        decreases n - i,
    {
        let header = required[i];
        assert(everything[i as int] == (header.0@, header.1@)) by {
            assert(pairs_view(required@)[i as int] == (header.0@, header.1@));
        }
        assert(everything.take(i + 1).drop_last() == everything.take(i as int));
        assert(everything.take(i + 1).last() == everything[i as int]);
        let ghost before = pairs_view(all@);
        let drop = match reserved {
            Some(taken) => eq_ignore_case(header.0, taken),
            None => false,
        };
        if !drop {
            all.push(header);
            assert(pairs_view(all@) =~= before.push((header.0@, header.1@)));
        }
        i = i + 1;
    }
    let mut e: usize = 0;
    while e < config.extra_headers.len()
        invariant
            e <= config.extra_headers@.len(),
            n == dialect_headers(config.dialect).len(),
            everything == dialect_headers(config.dialect) + extras,
            extras == config.extra_headers@.map_values(|h: (String, String)| (h.0@, h.1@)),
            rv == match reserved { Some(x) => Some(x@), None => None::<Seq<char>> },
            pairs_view(all@) == unreserved(everything.take(n + e), rv),
        decreases config.extra_headers@.len() - e,
    {
        let header: (&'a str, &'a str) = (config.extra_headers[e].0.as_str(), config.extra_headers[e].1.as_str());
        assert(everything[n + e] == (header.0@, header.1@)) by {
            assert(extras[e as int] == (header.0@, header.1@));
        }
        assert(everything.take(n + e + 1).drop_last() == everything.take(n + e));
        assert(everything.take(n + e + 1).last() == everything[n + e]);
        let ghost before = pairs_view(all@);
        let drop = match reserved {
            Some(taken) => eq_ignore_case(header.0, taken),
            None => false,
        };
        if !drop {
            all.push(header);
            assert(pairs_view(all@) =~= before.push((header.0@, header.1@)));
        }
        e = e + 1;
    }
    assert(everything.take(everything.len() as int) == everything);
    let ghost av = pairs_view(all@);
    let mut kept: Vec<(&'a str, &'a str)> = Vec::new();
    let mut k: usize = 0;
    assert(av.skip(0) == av);
    assert(pairs_view(kept@) =~= Seq::<(Seq<char>, Seq<char>)>::empty());
    while k < all.len()
        invariant
            k <= all@.len(),
            av == pairs_view(all@),
            pairs_view(kept@) + last_of_each(av.skip(k as int)) == last_of_each(av),
        decreases all@.len() - k,
    {
        let mut later = false;
        let mut j = k + 1;
        while j < all.len()
            invariant
                k < j <= all@.len(),
                av == pairs_view(all@),
                later == exists|x: int| k + 1 <= x < j && same_name(#[trigger] av[x].0, av[k as int].0),
            decreases all@.len() - j,
        {
            assert(av[j as int].0 == all@[j as int].0@);
            assert(av[k as int].0 == all@[k as int].0@);
            if eq_ignore_case(all[j].0, all[k].0) {
                later = true;
            }
            j = j + 1;
        }
        let ghost rest = av.skip(k as int);
        assert(rest.drop_first() == av.skip(k + 1));
        assert(rest[0] == av[k as int]);
        assert(later == named_in(rest.drop_first(), rest[0].0)) by {
            if later {
                let x = choose|x: int| k + 1 <= x < all@.len() && same_name(#[trigger] av[x].0, av[k as int].0);
                assert(rest.drop_first()[x - k - 1] == av[x]);
            }
            if named_in(rest.drop_first(), rest[0].0) {
                let y = choose|y: int| 0 <= y < rest.drop_first().len() && same_name(#[trigger] rest.drop_first()[y].0, rest[0].0);
                assert(av[y + k + 1] == rest.drop_first()[y]);
            }
        }
        let ghost before = pairs_view(kept@);
        if !later {
            kept.push(all[k]);
            assert(pairs_view(kept@) =~= before.push(av[k as int]));
            assert(seq![av[k as int]] + last_of_each(av.skip(k + 1)) == last_of_each(rest));
            assert(pairs_view(kept@) + last_of_each(av.skip(k + 1)) =~= before + (seq![av[k as int]] + last_of_each(av.skip(k + 1))));
        }
        k = k + 1;
    }
    assert(av.skip(all@.len() as int) =~= Seq::<(Seq<char>, Seq<char>)>::empty());
    assert(pairs_view(kept@) =~= last_of_each(av));
    kept
}


pub open spec fn is_digit(c: char) -> bool {
    '0' <= c && c <= '9'
}

/// The number a run of decimal digits spells.
pub open spec fn decimal_value(s: Seq<char>) -> int
    decreases s.len(),
{
    if s.len() == 0 {
        0
    } else {
        decimal_value(s.drop_last()) * 10 + (s.last() as int - '0' as int)
    }
}

/// The digits of an unsigned number, after an optional `+`.
pub open spec fn unsigned_body(t: Seq<char>) -> Seq<char> {
    if t.len() > 0 && t[0] == '+' { t.skip(1) } else { t }
}

pub open spec fn all_digits(s: Seq<char>) -> bool {
    forall|i: int| 0 <= i < s.len() ==> is_digit(#[trigger] s[i])
}

/// The number of seconds a `Retry-After` value asks for, in its
/// delay-seconds form: decimal digits, optionally after a `+`, with the
/// surrounding white space ignored, as `u64`'s own parser reads them. The
/// date form, and anything else, reads as no delay at all.
pub open spec fn delay_seconds(text: Seq<char>) -> Option<u64> {
    let body = unsigned_body(trim(text));
    if body.len() > 0 && all_digits(body) && decimal_value(body) <= u64::MAX {
        Some(decimal_value(body) as u64)
    } else {
        None
    }
}

proof fn lemma_decimal_grows(s: Seq<char>, k: int)
    requires
        0 <= k <= s.len(),
        forall|i: int| 0 <= i < s.len() ==> is_digit(#[trigger] s[i]),
    ensures
        decimal_value(s.take(k)) <= decimal_value(s),
        0 <= decimal_value(s.take(k)),
    decreases s.len() - k,
{
    if k < s.len() {
        assert(s.take(k + 1).drop_last() == s.take(k));
        assert(s.take(k + 1).last() == s[k]);
        lemma_decimal_grows(s, k + 1);
        lemma_decimal_nonneg(s.take(k));
    } else {
        assert(s.take(k) == s);
        lemma_decimal_nonneg(s);
    }
}

proof fn lemma_decimal_nonneg(s: Seq<char>)
    requires
        forall|i: int| 0 <= i < s.len() ==> is_digit(#[trigger] s[i]),
    ensures
        0 <= decimal_value(s),
    decreases s.len(),
{
    if s.len() > 0 {
        assert forall|i: int| 0 <= i < s.drop_last().len() implies is_digit(#[trigger] s.drop_last()[i]) by {
            assert(s.drop_last()[i] == s[i]);
        }
        lemma_decimal_nonneg(s.drop_last());
    }
}

/// Reads the delay-seconds form of a `Retry-After` value.
pub fn parse_delay_seconds(text: &str) -> (r: Option<u64>)
    ensures
        r == delay_seconds(text@),
{
    let trimmed = crate::sse::trim_text(text);
    let chars = crate::text::chars_of(trimmed.as_str());
    let ghost t = trim(text@);
    let start: usize = if chars.len() > 0 && chars[0] == '+' { 1 } else { 0 };
    let ghost body = unsigned_body(t);
    assert(body == chars@.skip(start as int));
    if start >= chars.len() {
        return None;
    }
    let mut value: u64 = 0;
    let mut i = start;
    assert(body.take(0) =~= Seq::<char>::empty());
    while i < chars.len()
        invariant
            start <= i <= chars@.len(),
            body == chars@.skip(start as int),
            t == trim(text@),
            body == unsigned_body(t),
            forall|k: int| 0 <= k < i - start ==> is_digit(#[trigger] body[k]),
            value as int == decimal_value(body.take(i - start)),
        decreases chars@.len() - i,
    {
        let c = chars[i];
        assert(body[i - start] == c);
        if !('0' <= c && c <= '9') {
            assert(!is_digit(body[i - start]));
            assert(!all_digits(body));
            assert(delay_seconds(text@) is None);
            return None;
        }
        assert(body.take(i - start + 1).drop_last() == body.take(i - start));
        assert(body.take(i - start + 1).last() == c);
        let digit = (c as u32 - '0' as u32) as u64;
        let next = match value.checked_mul(10) {
            Some(v) => v.checked_add(digit),
            None => None,
        };
        match next {
            Some(v) => {
                value = v;
            }
            None => {
                proof {
                    assert(decimal_value(body.take(i - start + 1)) == value * 10 + (c as int - '0' as int));
                    assert(decimal_value(body.take(i - start + 1)) > u64::MAX);
                    assert forall|k: int| 0 <= k < i - start + 1 implies is_digit(#[trigger] body.take(i - start + 1)[k]) by {
                        assert(body.take(i - start + 1)[k] == body[k]);
                    }
                    if all_digits(body) {
                        lemma_decimal_grows(body, i - start + 1);
                        assert(decimal_value(body) > u64::MAX);
                    }
                    assert(delay_seconds(text@) is None);
                }
                return None;
            }
        }
        i = i + 1;
    }
    assert(body.take(body.len() as int) == body);
    Some(value)
}

/// The origin of the URL `text`: its scheme, its host, and its port (the
/// scheme's default when none is written), as `reqwest::Url` reads them;
/// `None` when `text` is not a URL.
pub uninterp spec fn url_origin(text: Seq<char>) -> Option<(Seq<char>, Option<Seq<char>>, Option<u16>)>;

/// Parses `url` with `reqwest::Url::parse` and reads its `scheme`,
/// `host_str` and `port_or_known_default`; the contract claims the parts are
/// what `url_origin` names for the text, and `None` exactly when it names
/// none.
#[verifier::external_body]
fn origin_of(url: &str) -> (r: Option<(String, Option<String>, Option<u16>)>)
    ensures
        match r {
            Some((scheme, host, port)) => url_origin(url@) == Some((scheme@, match host {
                Some(h) => Some(h@),
                None => None::<Seq<char>>,
            }, port)),
            None => url_origin(url@) is None,
        },
{
    let parsed = reqwest::Url::parse(url).ok()?;
    Some((parsed.scheme().to_string(), parsed.host_str().map(str::to_string), parsed.port_or_known_default()))
}

/// Whether two URLs share an origin: the same scheme, host and port, the
/// rule `reqwest` itself uses to decide whether a redirect keeps the
/// `Authorization` header.
pub open spec fn same_origin_spec(a: Seq<char>, b: Seq<char>) -> bool {
    url_origin(a) is Some && url_origin(a) == url_origin(b)
}

fn same_host(a: &Option<String>, b: &Option<String>) -> (r: bool)
    ensures
        r == ((match *a { Some(h) => Some(h@), None => None::<Seq<char>> })
            == (match *b { Some(h) => Some(h@), None => None::<Seq<char>> })),
{
    match (a, b) {
        (Some(x), Some(y)) => crate::text::str_eq(x.as_str(), y.as_str()),
        (None, None) => true,
        _ => false,
    }
}

/// Whether two URLs share an origin. A text that is not a URL shares none.
pub fn same_origin(a: &str, b: &str) -> (r: bool)
    ensures
        r == same_origin_spec(a@, b@),
{
    match (origin_of(a), origin_of(b)) {
        (Some((sa, ha, pa)), Some((sb, hb, pb))) =>
            crate::text::str_eq(sa.as_str(), sb.as_str()) && same_host(&ha, &hb) && pa == pb,
        (Some(_), None) => false,
        (None, _) => false,
    }
}

/// How many same-origin redirects one request may follow.
pub const MAX_REDIRECTS: usize = 10;

/// What to do with a redirect.
#[derive(Debug, Clone, Copy, PartialEq, Eq, Structural)]
pub enum Redirect {
    /// Follow it.
    Follow,
    /// Refuse it: it would carry the credential to another origin.
    Stop,
    /// Fail the request: the chain is a loop.
    TooMany,
}

/// The redirect policy: the first hop of a request is followed; a hop to
/// another origin is refused, since the credential may ride in a header
/// `reqwest` does not know to strip; and a chain of `MAX_REDIRECTS` is
/// taken for a loop.
pub open spec fn redirect_spec(previous: Option<Seq<char>>, hops: nat, next: Seq<char>) -> Redirect {
    match previous {
        None => Redirect::Follow,
        Some(p) => if !same_origin_spec(p, next) {
            Redirect::Stop
        } else if hops >= MAX_REDIRECTS {
            Redirect::TooMany
        } else {
            Redirect::Follow
        },
    }
}

/// Decides a redirect to `next`, given the last URL visited (none on the
/// request itself) and how many hops were taken.
pub fn redirect_decision(previous: Option<&str>, hops: usize, next: &str) -> (r: Redirect)
    ensures
        r == redirect_spec(match previous { Some(p) => Some(p@), None => None }, hops as nat, next@),
{
    match previous {
        None => Redirect::Follow,
        Some(p) => {
            if !same_origin(p, next) {
                Redirect::Stop
            } else if hops >= MAX_REDIRECTS {
                Redirect::TooMany
            } else {
                Redirect::Follow
            }
        }
    }
}

/// The most one response body may occupy before the read is abandoned:
/// a read timeout limits silence, not volume.
pub const MAX_BODY_BYTES: usize = 67108864;

/// The complaint about a body past `MAX_BODY_BYTES`.
pub const BODY_TOO_LONG: &'static str = "response body grew past 67108864 bytes";

/// A whole response body, read chunk by chunk.
pub struct BodyReader {
    endpoint: String,
    bytes: Vec<u8>,
}

impl BodyReader {
    /// The bytes read so far.
    pub closed spec fn read(self) -> Seq<u8> {
        self.bytes@
    }

    /// The endpoint named in the error a reader raises.
    pub closed spec fn endpoint(self) -> Seq<char> {
        self.endpoint@
    }

    /// A reader that has read nothing, for `endpoint`.
    pub fn new(endpoint: &str) -> (r: BodyReader)
        ensures
            r.read() == Seq::<u8>::empty(),
            r.endpoint() == endpoint@,
    {
        BodyReader { endpoint: crate::text::owned(endpoint), bytes: Vec::new() }
    }

    /// Takes the next chunk, or refuses it when the body would grow past
    /// `MAX_BODY_BYTES`; a refused chunk is not kept.
    pub fn take(&mut self, chunk: &[u8]) -> (r: Result<(), ProviderError>)
        requires
            old(self).read().len() <= MAX_BODY_BYTES,
        ensures
            final(self).endpoint() == old(self).endpoint(),
            final(self).read().len() <= MAX_BODY_BYTES,
            old(self).read().len() + chunk@.len() > MAX_BODY_BYTES ==> final(self).read() == old(self).read()
                && (r matches Err(ProviderError::InvalidResponse { provider, message })
                && provider@ == old(self).endpoint() && message@ == BODY_TOO_LONG@),
            old(self).read().len() + chunk@.len() <= MAX_BODY_BYTES ==> r is Ok
                && final(self).read() == old(self).read() + chunk@,
    {
        if chunk.len() > MAX_BODY_BYTES - self.bytes.len() {
            return Err(ProviderError::InvalidResponse {
                provider: self.endpoint.clone(),
                message: crate::text::owned(BODY_TOO_LONG),
            });
        }
        self.bytes.extend_from_slice(chunk);
        Ok(())
    }

    /// The body, decoded as UTF-8 with ill-formed sequences replaced.
    pub fn into_text(self) -> (r: String)
        ensures
            r@ == utf8_lossy(self.read()),
    {
        decode_lossy(self.bytes.as_slice())
    }
}

} // verus!
