//! Device identity: the token a request carries, the admin rule, local host
//! promotion and the device cookie.
use crate::error::{fails_with, AppError};
use vstd::utf8::encode_utf8;
use crate::text::{
    chars_eq_ignore_ascii_case, chars_of, copy_string, decimal, eq_ignore_ascii_case, find_char, find_in_range,
    push_decimal, push_str, range_starts_with, utf8_len_exceeds, starts_with, string_from, string_of_range, trim, trim_range,
};
use vstd::prelude::*;

verus! {

/// An authenticated device user.
pub struct AuthUser {
    pub id: i64,
    pub display_name: String,
    pub role: String,
    pub device_token: String,
}

/// A stored device user.
pub struct DeviceUser {
    pub id: i64,
    pub device_token: String,
    pub display_name: String,
    pub role: String,
    /// Whether the device is banned.
    pub banned: bool,
}

/// The request headers identity depends on, each as text when it is valid
/// header text.
pub struct RequestHeaders {
    /// `Cookie`.
    pub cookie: Option<String>,
    /// `X-Device-Token`.
    pub x_device_token: Option<String>,
    /// `Authorization`.
    pub authorization: Option<String>,
}

/// Only admins pass.
pub fn require_admin(auth_user: &AuthUser) -> (r: Result<(), AppError>)
    ensures
        r is Ok <==> auth_user.role@ == "admin"@,
        r matches Err(e) ==> e.is_forbidden("Admin privileges required"@),
{
    let admin = string_from("admin");
    if auth_user.role == admin {
        Ok(())
    } else {
        Err(AppError::Forbidden(string_from("Admin privileges required")))
    }
}

// ---------------------------------------------------------------------------
// Token extraction
// ---------------------------------------------------------------------------

/// `find_char` never passes the end.
pub proof fn lemma_find_char_bound(s: Seq<char>, c: char)
    ensures
        0 <= find_char(s, c) <= s.len(),
    decreases s.len(),
{
    if s.len() > 0 && s[0] != c {
        lemma_find_char_bound(s.drop_first(), c);
    }
}

/// The `device_token` value of a cookie header: the first `;`-separated
/// pair that, trimmed, starts with `device_token=`, without that prefix.
pub open spec fn cookie_token(s: Seq<char>) -> Option<Seq<char>>
    decreases s.len(),
{
    let i = find_char(s, ';');
    let t = trim(s.take(i));
    if starts_with(t, "device_token="@) {
        Some(t.skip("device_token="@.len() as int))
    } else if 0 <= i < s.len() {
        cookie_token(s.skip(i + 1))
    } else {
        None
    }
}

/// The text of a header, trimmed, when that is not empty.
pub open spec fn plain_token(o: Option<String>) -> Option<Seq<char>> {
    match o {
        Some(h) => if trim(h@).len() > 0 {
            Some(trim(h@))
        } else {
            None
        },
        None => None,
    }
}

/// The token of an `Authorization: Bearer <token>` header, trimmed, when not empty.
pub open spec fn bearer_token(o: Option<String>) -> Option<Seq<char>> {
    match o {
        Some(h) => if starts_with(h@, "Bearer "@) && trim(h@.skip("Bearer "@.len() as int)).len() > 0 {
            Some(trim(h@.skip("Bearer "@.len() as int)))
        } else {
            None
        },
        None => None,
    }
}

/// The cookie's token, if any.
pub open spec fn cookie_header_token(h: RequestHeaders) -> Option<Seq<char>> {
    match h.cookie {
        Some(c) => cookie_token(c@),
        None => None,
    }
}

/// The request's token: from the cookie, else `X-Device-Token`, else the
/// bearer token.
pub open spec fn request_token(h: RequestHeaders) -> Option<Seq<char>> {
    if cookie_header_token(h) is Some {
        cookie_header_token(h)
    } else if plain_token(h.x_device_token) is Some {
        plain_token(h.x_device_token)
    } else {
        bearer_token(h.authorization)
    }
}

/// The text of an optional string.
pub open spec fn opt_text(o: Option<String>) -> Option<Seq<char>> {
    match o {
        Some(s) => Some(s@),
        None => None,
    }
}

/// The `device_token` value of a cookie header text.
pub fn token_from_cookie_text(c: &str) -> (r: Option<String>)
    ensures
        opt_text(r) == cookie_token(c@),
{
    let v = chars_of(c);
    let prefix = chars_of("device_token=");
    let n = v.len();
    let mut lo: usize = 0;
    assert(v@.subrange(0, n as int) =~= v@);
    loop
        invariant
            lo <= n == v.len(),
            v@ == c@,
            prefix@ == "device_token="@,
            cookie_token(v@) == cookie_token(v@.subrange(lo as int, n as int)),
        decreases n - lo,
    {
        let ghost sub = v@.subrange(lo as int, n as int);
        let k = find_in_range(&v, lo, n, ';');
        assert(sub.take(k - lo) =~= v@.subrange(lo as int, k as int));
        let (a, b) = trim_range(&v, lo, k);
        if range_starts_with(&v, a, b, &prefix) {
            let tok = string_of_range(&v, a + prefix.len(), b);
            assert(v@.subrange(a as int, b as int).skip(prefix.len() as int) =~= v@.subrange(
                a + prefix.len(),
                b as int,
            ));
            return Some(tok);
        }
        if k == n {
            return None;
        }
        assert(sub.skip(k - lo + 1) =~= v@.subrange(k + 1, n as int));
        lo = k + 1;
    }
}

/// Token from the `Cookie` header.
pub fn extract_device_token_from_cookie(headers: &RequestHeaders) -> (r: Option<String>)
    ensures
        opt_text(r) == cookie_header_token(*headers),
{
    match &headers.cookie {
        Some(c) => token_from_cookie_text(c.as_str()),
        None => None,
    }
}

/// The trimmed header text, when not empty.
fn plain_header_token(o: &Option<String>) -> (r: Option<String>)
    ensures
        opt_text(r) == plain_token(*o),
{
    match o {
        Some(h) => {
            let v = chars_of(h.as_str());
            assert(v@.subrange(0, v.len() as int) =~= v@);
            let (a, b) = trim_range(&v, 0, v.len());
            if a < b {
                Some(string_of_range(&v, a, b))
            } else {
                None
            }
        },
        None => None,
    }
}

/// The trimmed bearer token, when not empty.
fn bearer_header_token(o: &Option<String>) -> (r: Option<String>)
    ensures
        opt_text(r) == bearer_token(*o),
{
    match o {
        Some(h) => {
            let v = chars_of(h.as_str());
            let prefix = chars_of("Bearer ");
            assert(v@.subrange(0, v.len() as int) =~= v@);
            if !range_starts_with(&v, 0, v.len(), &prefix) {
                return None;
            }
            let (a, b) = trim_range(&v, prefix.len(), v.len());
            assert(v@.subrange(prefix.len() as int, v.len() as int) =~= v@.skip(prefix.len() as int));
            if a < b {
                Some(string_of_range(&v, a, b))
            } else {
                None
            }
        },
        None => None,
    }
}

/// The request's device token, by priority: cookie, `X-Device-Token`,
/// `Authorization: Bearer`.
pub fn extract_device_token(headers: &RequestHeaders) -> (r: Option<String>)
    ensures
        opt_text(r) == request_token(*headers),
{
    let c = extract_device_token_from_cookie(headers);
    if c.is_some() {
        return c;
    }
    let x = plain_header_token(&headers.x_device_token);
    if x.is_some() {
        return x;
    }
    bearer_header_token(&headers.authorization)
}

/// A cookie carrying a token wins over both headers.
pub proof fn law_cookie_takes_priority(h: RequestHeaders)
    requires
        cookie_header_token(h) is Some,
    ensures
        request_token(h) == cookie_header_token(h),
{
}

/// When the cookie holds no device token, a non-blank `X-Device-Token`
/// header, trimmed, is the request's token, whatever other cookies the
/// request sends.
pub proof fn law_device_token_header_is_second(h: RequestHeaders)
    requires
        cookie_header_token(h) is None,
        h.x_device_token is Some,
        trim(h.x_device_token->0@).len() > 0,
    ensures
        request_token(h) == Some(trim(h.x_device_token->0@)),
{
}

/// Cookies other than the device token do not change which token a request
/// carries: two requests whose cookies hold no device token and whose
/// `X-Device-Token` and `Authorization` headers agree carry the same token.
pub proof fn law_other_cookies_do_not_matter(h1: RequestHeaders, h2: RequestHeaders)
    requires
        cookie_header_token(h1) is None,
        cookie_header_token(h2) is None,
        h1.x_device_token == h2.x_device_token,
        h1.authorization == h2.authorization,
    ensures
        request_token(h1) == request_token(h2),
{
}

/// With neither a cookie token nor a non-blank `X-Device-Token`, the bearer
/// token (trimmed, non-blank) is the request's token.
pub proof fn law_bearer_token_is_last(h: RequestHeaders)
    requires
        cookie_header_token(h) is None,
        h.x_device_token matches Some(x) ==> trim(x@).len() == 0,
    ensures
        request_token(h) == bearer_token(h.authorization),
{
}

// ---------------------------------------------------------------------------
// Device users
// ---------------------------------------------------------------------------

/// The authenticated user of a stored device user.
pub open spec fn auth_of(u: DeviceUser, a: AuthUser) -> bool {
    a.id == u.id && a.display_name@ == u.display_name@ && a.role@ == u.role@ && a.device_token@
        == u.device_token@
}

/// Looking a token up: a banned device is refused; a known device is
/// authenticated; an unknown one is `None`.
pub fn lookup_device_user(found: Option<DeviceUser>) -> (r: Result<Option<AuthUser>, AppError>)
    ensures
        found is None ==> r matches Ok(None),
        found matches Some(u) ==> (u.banned ==> r matches Err(AppError::Banned)),
        found matches Some(u) ==> (!u.banned ==> (r matches Ok(Some(a)) && auth_of(u, a))),
{
    match found {
        None => Ok(None),
        Some(u) => {
            if u.banned {
                return Err(AppError::Banned);
            }
            Ok(Some(AuthUser { id: u.id, display_name: u.display_name, role: u.role, device_token: u.device_token }))
        },
    }
}

/// A newly registered device user: an ordinary user.
pub fn new_device_user(id: i64, display_name: String, device_token: &str) -> (r: AuthUser)
    ensures
        r.id == id,
        r.display_name@ == display_name@,
        r.role@ == "user"@,
        r.device_token@ == device_token@,
{
    AuthUser { id, display_name, role: string_from("user"), device_token: string_from(device_token) }
}

/// `r` is `u` with the admin role: same id, name and token.
pub open spec fn is_promotion_of(r: AuthUser, u: AuthUser) -> bool {
    &&& r.id == u.id
    &&& r.display_name@ == u.display_name@
    &&& r.device_token@ == u.device_token@
    &&& r.role@ == "admin"@
}

/// The stored role of `u` must change to make it the local admin.
pub open spec fn needs_promotion(u: AuthUser) -> bool {
    u.role@ != "admin"@
}

/// The local host is admin: a known user is promoted. Returns the user and
/// whether the stored role must change.
pub fn promote_local_admin(user: AuthUser) -> (r: (AuthUser, bool))
    ensures
        is_promotion_of(r.0, user),
        r.1 == needs_promotion(user),
{
    let admin = string_from("admin");
    if user.role != admin {
        (AuthUser { id: user.id, display_name: user.display_name, role: admin, device_token: user.device_token }, true)
    } else {
        (user, false)
    }
}

/// Registering the local host twice is the same as once: a promoted user
/// needs no further write, and promoting it again gives back the same id,
/// name, role and token.
pub proof fn law_local_admin_is_idempotent(u: AuthUser, once: AuthUser, twice: AuthUser)
    requires
        is_promotion_of(once, u),
        is_promotion_of(twice, once),
    ensures
        !needs_promotion(once),
        twice.id == once.id,
        twice.display_name@ == once.display_name@,
        twice.role@ == once.role@,
        twice.device_token@ == once.device_token@,
{
}

/// A newly registered local host: the admin named "房主".
pub fn new_local_admin(id: i64, device_token: &str) -> (r: AuthUser)
    ensures
        r.id == id,
        r.display_name@ == "房主"@,
        r.role@ == "admin"@,
        r.device_token@ == device_token@,
{
    AuthUser { id, display_name: string_from("房主"), role: string_from("admin"), device_token: string_from(device_token) }
}

// ---------------------------------------------------------------------------
// Local host
// ---------------------------------------------------------------------------

/// The pieces of `s` between commas, as `str::split(',')` gives them.
pub open spec fn split_commas(s: Seq<char>) -> Seq<Seq<char>>
    decreases s.len(),
{
    let i = find_char(s, ',');
    if i >= s.len() {
        seq![s]
    } else {
        proof {
            lemma_find_char_bound(s, ',');
        }
        seq![s.take(i)] + split_commas(s.skip(i + 1))
    }
}

/// The entries of an `X-Forwarded-For` header: its comma-separated pieces,
/// trimmed.
pub fn forwarded_entries(header: &str) -> (v: Vec<String>)
    ensures
        v.len() == split_commas(header@).len(),
        forall|i: int| 0 <= i < v.len() ==> (#[trigger] v@[i])@ == trim(split_commas(header@)[i]),
{
    let c = chars_of(header);
    let n = c.len();
    let mut out: Vec<String> = Vec::new();
    let mut start: usize = 0;
    let ghost mut done: Seq<Seq<char>> = Seq::empty();
    assert(c@.subrange(0, n as int) =~= c@);
    loop
        invariant
            start <= n == c.len(),
            c@ == header@,
            split_commas(header@) == done + split_commas(c@.subrange(start as int, n as int)),
            out.len() == done.len(),
            forall|i: int| 0 <= i < out.len() ==> (#[trigger] out@[i])@ == trim(done[i]),
        decreases n - start,
    {
        let ghost rest = c@.subrange(start as int, n as int);
        let k = find_in_range(&c, start, n, ',');
        let (a, b) = trim_range(&c, start, k);
        let piece = string_of_range(&c, a, b);
        proof {
            lemma_find_char_bound(rest, ',');
            assert(rest.take(k - start) =~= c@.subrange(start as int, k as int));
        }
        out.push(piece);
        if k == n {
            proof {
                assert(rest.take(k - start) =~= rest);
                done = done.push(rest);
                assert(split_commas(rest) == seq![rest]);
                assert(split_commas(header@) =~= done);
            }
            return out;
        }
        proof {
            assert(rest.skip(k - start + 1) =~= c@.subrange(k + 1, n as int));
            let piece_chars = rest.take(k - start);
            assert(split_commas(rest) == seq![piece_chars] + split_commas(c@.subrange(k + 1, n as int)));
            done = done.push(piece_chars);
            assert(split_commas(header@) =~= done + split_commas(c@.subrange(k + 1, n as int)));
        }
        start = k + 1;
    }
}

/// Whether a request really comes from this machine: the peer is a loopback
/// address and, when the request names forwarding hops, every hop is one
/// too. `forwarded` holds, per entry of `forwarded_entries` of the
/// `X-Forwarded-For` header, whether it parses as a loopback address; `None`
/// when the request has no such header.
pub fn is_really_local(peer_is_loopback: bool, forwarded: Option<Vec<bool>>) -> (r: bool)
    ensures
        r == (peer_is_loopback && match forwarded {
            None => true,
            Some(v) => forall|i: int| 0 <= i < v.len() ==> #[trigger] v@[i],
        }),
{
    if !peer_is_loopback {
        return false;
    }
    match &forwarded {
        None => true,
        Some(v) => {
            let mut i: usize = 0;
            while i < v.len()
                invariant
                    i <= v.len(),
                    forwarded is Some && forwarded->0@ == v@,
                    forall|j: int| 0 <= j < i ==> #[trigger] v@[j],
                decreases v.len() - i,
            {
                if !v[i] {
                    assert(!v@[i as int]);
                    return false;
                }
                i += 1;
            }
            true
        },
    }
}

// ---------------------------------------------------------------------------
// Device cookie
// ---------------------------------------------------------------------------

/// `X-Forwarded-Proto` says https (in any case).
pub fn request_is_secure(forwarded_proto: &Option<String>) -> (b: bool)
    ensures
        b == (forwarded_proto matches Some(p) && eq_ignore_ascii_case(p@, "https"@)),
{
    match forwarded_proto {
        Some(p) => {
            let v = chars_of(p.as_str());
            let https = chars_of("https");
            chars_eq_ignore_ascii_case(&v, &https)
        },
        None => false,
    }
}

/// The `Set-Cookie` value for a new token.
pub open spec fn set_cookie_text(token: Seq<char>, base_path: Seq<char>, max_age: nat, secure: bool) -> Seq<char> {
    "device_token="@ + token + "; Path="@ + base_path + "; HttpOnly; SameSite=Lax; Max-Age="@ + decimal(max_age)
        + if secure {
        "; Secure"@
    } else {
        Seq::empty()
    }
}

/// The request's `Cookie` header with the new token appended.
pub open spec fn cookie_with_token(existing: Option<String>, token: Seq<char>) -> Seq<char> {
    let base = match existing {
        Some(c) => c@,
        None => Seq::empty(),
    };
    if base.len() > 0 {
        base + "; "@ + "device_token="@ + token
    } else {
        "device_token="@ + token
    }
}

/// What the device-cookie step does to a request and its response.
pub struct CookiePlan {
    /// The token minted for a request that carried none.
    pub new_token: Option<String>,
    /// The request's `Cookie` header, rewritten to carry the new token.
    pub request_cookie: Option<String>,
    /// The token to register as the local admin.
    pub local_admin_token: Option<String>,
    /// `Set-Cookie` for the response.
    pub set_cookie: Option<String>,
    /// `X-Device-Token` for the response: the token in effect.
    pub response_token: Option<String>,
}

/// Request facts the device-cookie step reads besides the identity headers.
pub struct CookieRequest {
    pub headers: RequestHeaders,
    /// `X-Forwarded-Proto`.
    pub forwarded_proto: Option<String>,
    /// The peer and every forwarded hop are loopback addresses.
    pub is_really_local: bool,
    /// The request path.
    pub path: String,
}

/// The device-cookie step for a request, given the token to mint should it
/// carry none.
pub fn device_cookie_plan(
    req: &CookieRequest,
    minted: String,
    cookie_max_age_days: u64,
    base_path: &str,
) -> (p: CookiePlan)
    requires
        request_token(req.headers) is None ==> cookie_max_age_days * 86400 <= u64::MAX,
    ensures
        ({
            let existing = request_token(req.headers);
            let secure = req.forwarded_proto matches Some(fp) && eq_ignore_ascii_case(fp@, "https"@);
            let effective = match existing {
                Some(t) => t,
                None => minted@,
            };
            &&& (p.new_token is Some <==> existing is None)
            &&& existing is None ==> {
                &&& opt_text(p.new_token) == Some(minted@)
                &&& opt_text(p.request_cookie) == Some(cookie_with_token(req.headers.cookie, minted@))
                &&& opt_text(p.set_cookie) == Some(
                    set_cookie_text(minted@, base_path@, (cookie_max_age_days * 86400) as nat, secure),
                )
            }
            &&& existing is Some ==> p.request_cookie is None && p.set_cookie is None
            &&& opt_text(p.response_token) == Some(effective)
            &&& (p.local_admin_token is Some <==> (req.is_really_local && starts_with(req.path@, "/api"@)))
            &&& p.local_admin_token is Some ==> opt_text(p.local_admin_token) == Some(effective)
        }),
{
    let existing = extract_device_token(&req.headers);
    let secure = request_is_secure(&req.forwarded_proto);
    let (new_token, request_cookie, set_cookie) = match &existing {
        Some(_) => (None, None, None),
        None => {
            let mut cookie = match &req.headers.cookie {
                Some(c) => copy_string(c),
                None => String::new(),
            };
            if cookie.as_str().unicode_len() > 0 {
                push_str(&mut cookie, "; ");
            }
            push_str(&mut cookie, "device_token=");
            push_str(&mut cookie, minted.as_str());
            let mut set = string_from("device_token=");
            push_str(&mut set, minted.as_str());
            push_str(&mut set, "; Path=");
            push_str(&mut set, base_path);
            push_str(&mut set, "; HttpOnly; SameSite=Lax; Max-Age=");
            push_decimal(&mut set, cookie_max_age_days * 86400);
            if secure {
                push_str(&mut set, "; Secure");
            }
            assert(set@ =~= set_cookie_text(minted@, base_path@, (cookie_max_age_days * 86400) as nat, secure));
            assert(cookie@ =~= cookie_with_token(req.headers.cookie, minted@));
            (Some(copy_string(&minted)), Some(cookie), Some(set))
        },
    };
    let effective = match &existing {
        Some(t) => copy_string(t),
        None => copy_string(&minted),
    };
    let path = chars_of(req.path.as_str());
    let api = chars_of("/api");
    assert(path@.subrange(0, path.len() as int) =~= path@);
    let local_admin_token = if req.is_really_local && range_starts_with(&path, 0, path.len(), &api) {
        Some(copy_string(&effective))
    } else {
        None
    };
    CookiePlan { new_token, request_cookie, local_admin_token, set_cookie, response_token: Some(effective) }
}

/// A fresh random device token: a hyphenated lowercase UUID v4.
pub open spec fn is_uuid_v4_text(s: Seq<char>) -> bool {
    &&& s.len() == 36
    &&& forall|i: int|
        0 <= i < 36 ==> if i == 8 || i == 13 || i == 18 || i == 23 {
            #[trigger] s[i] == '-'
        } else {
            ('0' <= s[i] <= '9') || ('a' <= s[i] <= 'f')
        }
    &&& s[14] == '4'
}

/// `uuid::Uuid::new_v4().to_string()`: a random version-4 UUID in the
/// hyphenated lowercase form (36 characters, hyphens at 8, 13, 18 and 23,
/// version digit `4` at 14). Which UUID comes out is left unsaid: it is random.
#[verifier::external_body]
pub(crate) fn new_uuid_v4_text() -> (t: String)
    ensures
        is_uuid_v4_text(t@),
{
    uuid::Uuid::new_v4().to_string()
}

/// A fresh random device token.
pub fn generate_device_token() -> (t: String)
    ensures
        is_uuid_v4_text(t@),
{
    new_uuid_v4_text()
}

/// The request must carry a device token.
pub fn require_device_token(token: Option<String>) -> (r: Result<String, AppError>)
    ensures
        token is None <==> r matches Err(AppError::Unauthorized),
        token matches Some(t) ==> (r matches Ok(u) && u@ == t@),
{
    match token {
        Some(t) => Ok(t),
        None => Err(AppError::Unauthorized),
    }
}

/// A display name must, once trimmed, be non-empty and at most 32 bytes.
pub fn validate_display_name(raw: &str) -> (r: Result<String, AppError>)
    ensures
        trim(raw@).len() == 0 ==> fails_with(r, |e: AppError| e.is_bad_request("Display name cannot be empty"@)),
        trim(raw@).len() > 0 && encode_utf8(trim(raw@)).len() > 32 ==> fails_with(
            r,
            |e: AppError| e.is_bad_request("Display name must be 32 characters or less"@),
        ),
        r is Ok <==> (trim(raw@).len() > 0 && encode_utf8(trim(raw@)).len() <= 32),
        r matches Ok(n) ==> n@ == trim(raw@),
{
    let v = chars_of(raw);
    assert(v@.subrange(0, v.len() as int) =~= v@);
    let (a, b) = trim_range(&v, 0, v.len());
    let name = string_of_range(&v, a, b);
    if a == b {
        return Err(AppError::BadRequest(string_from("Display name cannot be empty")));
    }
    if utf8_len_exceeds(&v, a, b, 32) {
        return Err(AppError::BadRequest(string_from("Display name must be 32 characters or less")));
    }
    Ok(name)
}

/// The device-cookie step. A request without a token gets a fresh one: the
/// response sets it as a cookie and the request's `Cookie` header carries it
/// on. A request with a token is left alone and sets no cookie. The token in
/// effect goes back in `X-Device-Token`, and is the one a really local `/api`
/// request registers as the local admin.
pub fn device_cookie_middleware(req: &CookieRequest, cookie_max_age_days: u64, base_path: &str) -> (p: CookiePlan)
    requires
        request_token(req.headers) is None ==> cookie_max_age_days * 86400 <= u64::MAX,
    ensures
        ({
            let existing = request_token(req.headers);
            let secure = req.forwarded_proto matches Some(fp) && eq_ignore_ascii_case(fp@, "https"@);
            &&& (p.new_token is Some <==> existing is None)
            &&& existing is None ==> {
                let t = p.new_token->0@;
                &&& is_uuid_v4_text(t)
                &&& opt_text(p.set_cookie) == Some(
                    set_cookie_text(t, base_path@, (cookie_max_age_days * 86400) as nat, secure),
                )
                &&& opt_text(p.request_cookie) == Some(cookie_with_token(req.headers.cookie, t))
                &&& opt_text(p.response_token) == Some(t)
            }
            &&& existing matches Some(t) ==> {
                &&& p.set_cookie is None
                &&& p.request_cookie is None
                &&& opt_text(p.response_token) == Some(t)
            }
            &&& (p.local_admin_token is Some <==> (req.is_really_local && starts_with(req.path@, "/api"@)))
            &&& p.local_admin_token is Some ==> opt_text(p.local_admin_token) == opt_text(p.response_token)
        }),
{
    let minted = if extract_device_token(&req.headers).is_none() {
        new_uuid_v4_text()
    } else {
        String::new()
    };
    device_cookie_plan(req, minted, cookie_max_age_days, base_path)
}

} // verus!
