//! Login to the web UI: credentials, session tokens and the session cookie.
use vstd::prelude::*;
use crate::config::AuthSettings;
use vstd::utf8::{decode_utf8, encode_utf8};
use crate::text::{
    append, chars_of, opt_str_view, decimal, find, push_decimal, slice_vec, split_fields, split_on, starts_with,
    starts_with_exec, string_of, strings_view, trim, trim_exec, views,
};

verus! {

broadcast use vstd::utf8::group_utf8_lib;

/// Name of the session cookie.
pub const AUTH_COOKIE_NAME: &'static str = "screenpilot_session";

/// Lifetime of the session cookie: one week.
pub const AUTH_COOKIE_MAX_AGE_SECONDS: u64 = 7 * 24 * 60 * 60;

/// Byte `i` of `b`, or zero past its end.
pub open spec fn byte_or_zero(b: Seq<u8>, i: int) -> u8 {
    if 0 <= i < b.len() {
        b[i]
    } else {
        0
    }
}

/// Compare two strings in time that depends only on their lengths.
pub fn constant_time_eq(left: &str, right: &str) -> (r: bool)
    ensures
        r == (left@ == right@),
{
    let lb = left.as_bytes();
    let rb = right.as_bytes();
    let max_len: usize = if lb.len() >= rb.len() {
        lb.len()
    } else {
        rb.len()
    };
    let ll: usize = lb.len();
    let rl: usize = rb.len();
    let mut diff: usize = ll ^ rl;
    assert((diff == 0) == (ll == rl)) by (bit_vector)
        requires
            diff == ll ^ rl,
    ;
    let mut index: usize = 0;
    while index < max_len
        invariant
            index <= max_len,
            max_len == if lb@.len() >= rb@.len() { lb@.len() } else { rb@.len() },
            (diff == 0) == (lb@.len() == rb@.len() && forall|j: int|
                0 <= j < index ==> byte_or_zero(lb@, j) == byte_or_zero(rb@, j)),
        decreases max_len - index,
    {
        let a: u8 = if index < lb.len() {
            lb[index]
        } else {
            0
        };
        let b: u8 = if index < rb.len() {
            rb[index]
        } else {
            0
        };
        assert(a == byte_or_zero(lb@, index as int));
        assert(b == byte_or_zero(rb@, index as int));
        let x: u8 = a ^ b;
        assert((x == 0) == (a == b)) by (bit_vector)
            requires
                x == a ^ b,
        ;
        let xs: usize = x as usize;
        let nd: usize = diff | xs;
        assert((nd == 0) == (diff == 0 && xs == 0)) by (bit_vector)
            requires
                nd == diff | xs,
        ;
        diff = nd;
        proof {
            let ghost n = index as int;
            assert((forall|j: int| 0 <= j < n + 1 ==> byte_or_zero(lb@, j) == byte_or_zero(rb@, j)) == ((
            forall|j: int| 0 <= j < n ==> byte_or_zero(lb@, j) == byte_or_zero(rb@, j)) && byte_or_zero(
                lb@,
                n,
            ) == byte_or_zero(rb@, n)));
        }
        index += 1;
    }
    proof {
        if diff == 0 {
            assert(lb@ =~= rb@) by {
                assert forall|j: int| 0 <= j < lb@.len() implies lb@[j] == rb@[j] by {
                    assert(byte_or_zero(lb@, j) == byte_or_zero(rb@, j));
                }
            }
            assert(decode_utf8(encode_utf8(left@)) == left@);
            assert(decode_utf8(encode_utf8(right@)) == right@);
        }
        if left@ == right@ {
            assert(lb@ == rb@);
        }
    }
    diff == 0
}

/// Login state of the web UI: the configured credentials and the session
/// tokens that are currently valid.
#[derive(Debug)]
pub struct AuthState {
    username: String,
    password: String,
    active_sessions: Vec<String>,
}

impl AuthState {
    /// The configured user name.
    pub closed spec fn user(&self) -> Seq<char> {
        self.username@
    }

    /// The configured password.
    pub closed spec fn secret(&self) -> Seq<char> {
        self.password@
    }

    /// The session tokens that are valid.
    pub closed spec fn sessions(&self) -> Set<Seq<char>> {
        Set::new(|t: Seq<char>| strings_view(self.active_sessions@).contains(t))
    }

    /// Login state with the configured credentials and no session.
    pub fn from_config(config: AuthSettings) -> (a: AuthState)
        ensures
            a.user() == config.username@,
            a.secret() == config.password@,
            a.sessions() == Set::<Seq<char>>::empty(),
    {
        let a = AuthState { username: config.username, password: config.password, active_sessions: Vec::new() };
        assert(a.sessions() =~= Set::<Seq<char>>::empty());
        a
    }

    /// The configured user name.
    pub fn username(&self) -> (r: &str)
        ensures
            r@ == self.user(),
    {
        self.username.as_str()
    }

    /// Whether the user name and password are the configured ones.
    pub fn verify_credentials(&self, username: &str, password: &str) -> (r: bool)
        ensures
            r == (username@ == self.user() && password@ == self.secret()),
    {
        constant_time_eq(username, self.username.as_str()) && constant_time_eq(password, self.password.as_str())
    }

    /// Whether the token is a valid session token.
    pub fn verify_session_token(&self, token: &str) -> (r: bool)
        ensures
            r == self.sessions().contains(token@),
    {
        let mut i: usize = 0;
        while i < self.active_sessions.len()
            invariant
                i <= self.active_sessions@.len(),
                forall|j: int| 0 <= j < i ==> strings_view(self.active_sessions@)[j] != token@,
            decreases self.active_sessions.len() - i,
        {
            if constant_time_eq(self.active_sessions[i].as_str(), token) {
                assert(strings_view(self.active_sessions@)[i as int] == token@);
                return true;
            }
            i += 1;
        }
        false
    }

    /// Make `token` a valid session token.
    pub fn register_session_token(&mut self, token: String)
        ensures
            final(self).sessions() == old(self).sessions().insert(token@),
            final(self).user() == old(self).user(),
            final(self).secret() == old(self).secret(),
    {
        let ghost tv = token@;
        if !self.verify_session_token(token.as_str()) {
            let ghost before = self.active_sessions@;
            self.active_sessions.push(token);
            assert(strings_view(self.active_sessions@) =~= strings_view(before).push(tv));
            assert forall|t: Seq<char>| #[trigger] strings_view(self.active_sessions@).contains(t) == (strings_view(
                before,
            ).contains(t) || t == tv) by {
                lemma_push_contains(strings_view(before), tv, t);
            }
        }
        assert(self.sessions() =~= old(self).sessions().insert(tv));
    }

    /// Issue a new random session token and make it valid.
    pub fn issue_session_token(&mut self) -> (token: String)
        ensures
            final(self).sessions() == old(self).sessions().insert(token@),
            final(self).user() == old(self).user(),
            final(self).secret() == old(self).secret(),
            is_secret_text(token@),
    {
        let token = generate_secret();
        let copy = token.clone();
        self.register_session_token(copy);
        token
    }

    /// Make `token` invalid; other tokens are unchanged.
    pub fn revoke_session_token(&mut self, token: &str)
        ensures
            final(self).sessions() == old(self).sessions().remove(token@),
            final(self).user() == old(self).user(),
            final(self).secret() == old(self).secret(),
    {
        let mut kept: Vec<String> = Vec::new();
        let ghost all = strings_view(self.active_sessions@);
        let mut i: usize = 0;
        while i < self.active_sessions.len()
            invariant
                i <= self.active_sessions@.len(),
                all == strings_view(self.active_sessions@),
                forall|t: Seq<char>|
                    #[trigger] strings_view(kept@).contains(t) == (t != token@ && all.take(i as int).contains(t)),
            decreases self.active_sessions.len() - i,
        {
            let s = &self.active_sessions[i];
            let ghost before = kept@;
            assert(all.take(i + 1) =~= all.take(i as int).push(s@));
            if !constant_time_eq(s.as_str(), token) {
                kept.push(s.clone());
                assert(strings_view(kept@) =~= strings_view(before).push(s@));
            }
            assert forall|t: Seq<char>|
                #[trigger] strings_view(kept@).contains(t) == (t != token@ && all.take(i + 1).contains(t)) by {
                lemma_push_contains(all.take(i as int), s@, t);
                lemma_push_contains(strings_view(before), s@, t);
            }
            i += 1;
        }
        assert(all.take(i as int) =~= all);
        self.active_sessions = kept;
        assert(self.sessions() =~= old(self).sessions().remove(token@));
    }
}

/// An element is in a sequence with one more element exactly when it was
/// in it before or is the new one.
proof fn lemma_push_contains(s: Seq<Seq<char>>, x: Seq<char>, t: Seq<char>)
    ensures
        s.push(x).contains(t) == (s.contains(t) || t == x),
{
    if s.push(x).contains(t) {
        let k = choose|k: int| 0 <= k < s.push(x).len() && s.push(x)[k] == t;
        if k < s.len() {
            assert(s[k] == t);
        }
    }
    if s.contains(t) {
        let k = choose|k: int| 0 <= k < s.len() && s[k] == t;
        assert(s.push(x)[k] == t);
    }
    if t == x {
        assert(s.push(x)[s.len() as int] == t);
    }
}

/// A lower-case hexadecimal digit.
pub open spec fn is_lower_hex(c: char) -> bool {
    ('0' <= c && c <= '9') || ('a' <= c && c <= 'f')
}

/// 64 lower-case hexadecimal digits.
pub open spec fn is_secret_text(s: Seq<char>) -> bool {
    s.len() == 64 && forall|i: int| 0 <= i < s.len() ==> is_lower_hex(#[trigger] s[i])
}

/// `uuid::Uuid::new_v4()` written by `Uuid::simple`: 32 lower-case
/// hexadecimal digits of a random version-4 UUID. Which digits come is not
/// stated; `new_v4` panics when the system has no random bytes to give.
#[verifier::external_body]
pub(crate) fn new_uuid_v4_simple() -> (r: String)
    ensures
        r@.len() == 32,
        forall|i: int| 0 <= i < r@.len() ==> is_lower_hex(#[trigger] r@[i]),
{
    uuid::Uuid::new_v4().simple().to_string()
}

/// A random secret: two version-4 UUIDs, 64 hexadecimal digits.
pub fn generate_secret() -> (r: String)
    ensures
        is_secret_text(r@),
{
    let mut s = new_uuid_v4_simple();
    let t = new_uuid_v4_simple();
    let ghost a = s@;
    append(&mut s, t.as_str());
    assert forall|i: int| 0 <= i < s@.len() implies is_lower_hex(#[trigger] s@[i]) by {
        if i < 32 {
            assert(s@[i] == a[i]);
        } else {
            assert(s@[i] == t@[i - 32]);
        }
    }
    s
}

/// The session cookie that carries `token`.
pub open spec fn session_cookie_spec(token: Seq<char>) -> Seq<char> {
    AUTH_COOKIE_NAME@ + "="@ + token + "; Path=/; HttpOnly; SameSite=Lax; Max-Age="@ + decimal(
        AUTH_COOKIE_MAX_AGE_SECONDS as nat,
    )
}

/// `Set-Cookie` value that stores the session token for a week.
pub fn session_cookie(token: &str) -> (r: String)
    ensures
        r@ == session_cookie_spec(token@),
{
    let mut s = AUTH_COOKIE_NAME.to_string();
    append(&mut s, "=");
    append(&mut s, token);
    append(&mut s, "; Path=/; HttpOnly; SameSite=Lax; Max-Age=");
    push_decimal(&mut s, AUTH_COOKIE_MAX_AGE_SECONDS);
    s
}

pub open spec fn expired_session_cookie_spec() -> Seq<char> {
    AUTH_COOKIE_NAME@ + "=; Path=/; HttpOnly; SameSite=Lax; Max-Age=0"@
}

/// `Set-Cookie` value that clears the session cookie.
pub fn expired_session_cookie() -> (r: String)
    ensures
        r@ == expired_session_cookie_spec(),
{
    let mut s = AUTH_COOKIE_NAME.to_string();
    append(&mut s, "=; Path=/; HttpOnly; SameSite=Lax; Max-Age=0");
    s
}

/// Name and value of one `name=value` part of a cookie header, trimmed and
/// split at the first `=`.
pub open spec fn cookie_pair(part: Seq<char>) -> Option<(Seq<char>, Seq<char>)> {
    let t = trim(part);
    match find(t, seq!['=']) {
        Some(k) => Some((t.take(k), t.skip(k + 1))),
        None => None,
    }
}

/// Value of the first part named `name`.
pub open spec fn find_cookie(parts: Seq<Seq<char>>, name: Seq<char>) -> Option<Seq<char>>
    decreases parts.len(),
{
    if parts.len() == 0 {
        None
    } else {
        match cookie_pair(parts[0]) {
            Some(p) => if p.0 == name {
                Some(p.1)
            } else {
                find_cookie(parts.drop_first(), name)
            },
            None => find_cookie(parts.drop_first(), name),
        }
    }
}

/// The session token in a `Cookie` header, if it has one.
pub open spec fn session_token_spec(cookie: Option<Seq<char>>) -> Option<Seq<char>> {
    match cookie {
        Some(c) => find_cookie(split_fields(c, ';'), AUTH_COOKIE_NAME@),
        None => None,
    }
}

/// The session token of the request, given its `Cookie` header (none when
/// the request has none, or it is not text).
pub fn session_token_from_headers(cookie_header: Option<&str>) -> (r: Option<String>)
    ensures
        match r {
            Some(t) => session_token_spec(opt_str_view(cookie_header)) == Some(t@),
            None => session_token_spec(opt_str_view(cookie_header)) is None,
        },
{
    let cookie = match cookie_header {
        Some(c) => c,
        None => return None,
    };
    let cv = chars_of(cookie);
    let parts = split_on(&cv, ';');
    let name = chars_of(AUTH_COOKIE_NAME);
    assert(views(parts@).skip(0) =~= views(parts@));
    let mut i: usize = 0;
    while i < parts.len()
        invariant
            i <= parts@.len(),
            cv@ == cookie@,
            opt_str_view(cookie_header) == Some(cookie@),
            views(parts@) == split_fields(cv@, ';'),
            name@ == AUTH_COOKIE_NAME@,
            find_cookie(views(parts@), name@) == find_cookie(views(parts@).skip(i as int), name@),
        decreases parts.len() - i,
    {
        let ghost rest = views(parts@).skip(i as int);
        assert(rest[0] == parts@[i as int]@);
        assert(rest.drop_first() =~= views(parts@).skip(i + 1));
        let t = trim_exec(&parts[i]);
        let k = crate::text::index_of_char(&t, '=');
        if k < t.len() {
            let n = slice_vec(&t, 0, k);
            assert(n@ =~= t@.take(k as int));
            if crate::text::chars_eq(&n, &name) {
                let v = slice_vec(&t, k + 1, t.len());
                assert(v@ =~= t@.skip(k + 1));
                assert(cookie_pair(rest[0]) == Some((t@.take(k as int), t@.skip(k + 1))));
                assert(find_cookie(rest, name@) == Some(t@.skip(k + 1)));
                return Some(string_of(&v));
            }
        }
        i += 1;
    }
    assert(views(parts@).skip(i as int) =~= Seq::<Seq<char>>::empty());
    None
}

/// Requests that need no login: everything outside `/api/`, the login
/// endpoints and media streams (which renderers fetch without a cookie).
pub open spec fn is_public_spec(path: Seq<char>) -> bool {
    !starts_with(path, "/api/"@) || starts_with(path, "/api/auth/"@) || starts_with(path, "/api/media/stream/"@)
}

/// Whether a request path may be served without a valid session.
pub fn is_public_without_auth(path: &str) -> (r: bool)
    ensures
        r == is_public_spec(path@),
{
    let p = chars_of(path);
    let api = chars_of("/api/");
    let auth = chars_of("/api/auth/");
    let stream = chars_of("/api/media/stream/");
    !starts_with_exec(&p, &api) || starts_with_exec(&p, &auth) || starts_with_exec(&p, &stream)
}

/// Whether the request's `Cookie` header carries a valid session token.
pub fn headers_have_valid_session(auth: &AuthState, cookie_header: Option<&str>) -> (r: bool)
    ensures
        r == (session_token_spec(opt_str_view(cookie_header)) matches Some(t) && auth.sessions().contains(t)),
{
    match session_token_from_headers(cookie_header) {
        Some(t) => auth.verify_session_token(t.as_str()),
        None => false,
    }
}

/// Whether a request may pass: its path needs no login, or it carries a
/// valid session (otherwise it is answered 401 `Authentication required`).
pub fn request_allowed(auth: &AuthState, path: &str, cookie_header: Option<&str>) -> (r: bool)
    ensures
        r == (is_public_spec(path@) || (session_token_spec(opt_str_view(cookie_header)) matches Some(t)
            && auth.sessions().contains(t))),
{
    is_public_without_auth(path) || headers_have_valid_session(auth, cookie_header)
}

impl AuthState {
    /// Log in: with the configured credentials a new session is opened and
    /// its cookie returned with the user name; otherwise 401.
    pub fn login(&mut self, username: &str, password: &str) -> (r: Result<(String, String), crate::api::ApiError>)
        ensures
            (username@ == old(self).user() && password@ == old(self).secret()) <==> r is Ok,
            r matches Err(e) ==> crate::api::is_error(e, crate::api::STATUS_UNAUTHORIZED, "Invalid username or password"@)
                && final(self).sessions() == old(self).sessions(),
            r matches Ok(v) ==> v.0@ == old(self).user() && exists|t: Seq<char>|
                is_secret_text(t) && v.1@ == session_cookie_spec(t) && final(self).sessions() == old(self).sessions().insert(t),
            final(self).user() == old(self).user(),
            final(self).secret() == old(self).secret(),
    {
        if !self.verify_credentials(username, password) {
            return Err(crate::api::error_response(
                crate::api::STATUS_UNAUTHORIZED,
                "Invalid username or password".to_string(),
            ));
        }
        let name = self.username.clone();
        let token = self.issue_session_token();
        let cookie = session_cookie(token.as_str());
        Ok((name, cookie))
    }

    /// Log out: the session of the request's cookie (if any) ends; the
    /// returned cookie clears it in the browser.
    pub fn logout(&mut self, cookie_header: Option<&str>) -> (r: String)
        ensures
            r@ == expired_session_cookie_spec(),
            match session_token_spec(opt_str_view(cookie_header)) {
                Some(t) => final(self).sessions() == old(self).sessions().remove(t),
                None => final(self).sessions() == old(self).sessions(),
            },
            final(self).user() == old(self).user(),
            final(self).secret() == old(self).secret(),
    {
        match session_token_from_headers(cookie_header) {
            Some(t) => self.revoke_session_token(t.as_str()),
            None => {},
        }
        expired_session_cookie()
    }

    /// Whether the request is logged in, and the user name when it is.
    pub fn auth_status(&self, cookie_header: Option<&str>) -> (r: (bool, Option<String>))
        ensures
            r.0 == (session_token_spec(opt_str_view(cookie_header)) matches Some(t) && self.sessions().contains(t)),
            r.0 ==> (r.1 matches Some(n) && n@ == self.user()),
            !r.0 ==> r.1 is None,
    {
        let authenticated = headers_have_valid_session(self, cookie_header);
        if authenticated {
            (true, Some(self.username.clone()))
        } else {
            (false, None)
        }
    }
}

/// A token that is registered is accepted until it is revoked; revoking it
/// leaves every other token as it was before it was registered, so revoking
/// a fresh token undoes its registration.
pub proof fn lemma_session_lifecycle(a0: AuthState, a1: AuthState, a2: AuthState, t: Seq<char>, u: Seq<char>)
    requires
        a1.sessions() == a0.sessions().insert(t),
        a2.sessions() == a1.sessions().remove(t),
    ensures
        a1.sessions().contains(t),
        !a2.sessions().contains(t),
        u != t ==> (a2.sessions().contains(u) == a0.sessions().contains(u)),
        !a0.sessions().contains(t) ==> a2.sessions() == a0.sessions(),
{
    if !a0.sessions().contains(t) {
        assert(a2.sessions() =~= a0.sessions());
    }
}

} // verus!
