//! Authentication: issuing token pairs, checking tokens against revocation and expiry, and the
//! sessions of logged-in users.
//!
//! A token is its claims written as JSON; writing and reading that JSON is the caller's part.
//! Times are Unix seconds.
use vstd::prelude::*;
use crate::assoc::{find, index_of, lemma_index_of, lemma_same_keys, lemma_upsert, position_of, remove_key, string_keyed, upsert};
use crate::text::{owned, push_str, string_of, strings_view};

verus! {

/// What a token says.
#[derive(Debug)]
pub struct Claims {
    pub sub: String,
    /// When it expires.
    pub exp: u64,
    /// When it was issued.
    pub iat: u64,
    pub user_id: String,
    pub username: String,
    pub roles: Vec<String>,
}

/// An access token and a refresh token.
#[derive(Debug)]
pub struct TokenPair {
    pub access_token: String,
    pub refresh_token: String,
    /// Seconds.
    pub expires_in: u64,
    pub token_type: String,
}

/// The settings of authentication.
#[derive(Debug)]
pub struct AuthConfig {
    pub jwt_secret: String,
    /// Seconds.
    pub access_token_ttl_secs: u64,
    /// Seconds.
    pub refresh_token_ttl_secs: u64,
}

impl Default for AuthConfig {
    /// A placeholder secret, access tokens for an hour, refresh tokens for a week.
    fn default() -> (r: Self)
        ensures
            r.jwt_secret@ == "change-this-in-production"@,
            r.access_token_ttl_secs == 3600,
            r.refresh_token_ttl_secs == 604800,
    {
        AuthConfig { jwt_secret: owned("change-this-in-production"), access_token_ttl_secs: 3600, refresh_token_ttl_secs: 86400 * 7 }
    }
}

/// A logged-in user.
#[derive(Debug)]
pub struct SessionInfo {
    pub user_id: String,
    pub username: String,
    pub created_at: i64,
    pub last_access: i64,
}

/// Keeps sessions and revoked tokens.
pub struct AuthManager {
    config: AuthConfig,
    sessions: Vec<(String, SessionInfo)>,
    revoked_tokens: Vec<(String, i64)>,
}

/// The abstract state: the access token lifetime, the logged-in users with their names, the
/// revoked tokens with when they were revoked.
pub struct AuthView {
    pub access_ttl: u64,
    pub sessions: Seq<(Seq<char>, Seq<char>)>,
    pub revoked: Seq<(Seq<char>, i64)>,
}

impl View for AuthManager {
    type V = AuthView;

    closed spec fn view(&self) -> AuthView {
        AuthView {
            access_ttl: self.config.access_token_ttl_secs,
            sessions: Seq::new(self.sessions@.len(), |i: int| (self.sessions@[i].0@, self.sessions@[i].1.username@)),
            revoked: string_keyed(self.revoked_tokens@),
        }
    }
}

/// `now + ttl`, at most `u64::MAX`.
pub open spec fn expiry(now: u64, ttl: u64) -> u64 {
    if now + ttl > u64::MAX { u64::MAX } else { (now + ttl) as u64 }
}

/// Whether a token was revoked.
pub open spec fn is_revoked(v: AuthView, token: Seq<char>) -> bool {
    index_of(v.revoked, token) is Some
}

/// What checking `token` gives, its claims having been read as `parsed`: refused when revoked,
/// when unreadable, or when expired before `now`.
pub open spec fn checked_token(v: AuthView, token: Seq<char>, parsed: Result<u64, Seq<char>>, now: u64) -> Result<(), Seq<char>> {
    if is_revoked(v, token) {
        Err("Token revoked"@)
    } else {
        match parsed {
            Err(e) => Err(e),
            Ok(exp) => if exp < now { Err("Token expired"@) } else { Ok(()) },
        }
    }
}

fn copy_strings(v: &Vec<String>) -> (r: Vec<String>)
    ensures
        strings_view(r@) == strings_view(v@),
{
    let n = v.len();
    let mut out: Vec<String> = Vec::new();
    let mut i: usize = 0;
    while i < n
        invariant
            i <= n,
            n == v@.len(),
            out@.len() == i,
            forall|k: int| 0 <= k < i ==> (#[trigger] out@[k])@ == v@[k]@,
        decreases n - i,
    {
        out.push(v[i].clone());
        i = i + 1;
    }
    assert(strings_view(out@) =~= strings_view(v@));
    out
}

impl AuthManager {
    /// A manager with no session and no revoked token.
    pub fn new(config: AuthConfig) -> (r: Self)
        ensures
            r@.access_ttl == config.access_token_ttl_secs,
            r@.sessions.len() == 0 && r@.revoked.len() == 0,
    {
        let r = AuthManager { config, sessions: Vec::new(), revoked_tokens: Vec::new() };
        assert(r@.sessions =~= seq![]);
        assert(r@.revoked =~= seq![]);
        r
    }

    /// The claims of an access token issued to `user_id` at `now`.
    pub fn issue_claims(&self, user_id: &str, username: &str, roles: &Vec<String>, now: u64) -> (r: Claims)
        ensures
            r.sub@ == user_id@ && r.user_id@ == user_id@ && r.username@ == username@,
            strings_view(r.roles@) == strings_view(roles@),
            r.iat == now,
            r.exp == expiry(now, self@.access_ttl),
    {
        let exp = match now.checked_add(self.config.access_token_ttl_secs) {
            Some(e) => e,
            None => u64::MAX,
        };
        Claims {
            sub: owned(user_id),
            exp,
            iat: now,
            user_id: owned(user_id),
            username: owned(username),
            roles: copy_strings(roles),
        }
    }

    /// Issues a token pair to `user_id` whose access token is `access_token` (its claims, written
    /// out), and records the user's session as of `now`.
    pub fn generate_token_pair(&mut self, user_id: &str, username: &str, access_token: String, now: i64) -> (r: Result<TokenPair, String>)
        ensures
            r matches Ok(p) && p.access_token@ == access_token@ && p.refresh_token@ == "refresh_"@ + user_id@
                && p.expires_in == old(self)@.access_ttl && p.token_type@ == "Bearer"@,
            final(self)@ == (AuthView { sessions: upsert(old(self)@.sessions, user_id@, username@), ..old(self)@ }),
    {
        let mut refresh: Vec<char> = Vec::new();
        push_str(&mut refresh, "refresh_");
        push_str(&mut refresh, user_id);
        let session = SessionInfo { user_id: owned(user_id), username: owned(username), created_at: now, last_access: now };
        let ghost sv = self@.sessions;
        let pos = position_of(&self.sessions, user_id);
        proof {
            lemma_same_keys(string_keyed(self.sessions@), sv, user_id@);
        }
        match pos {
            Some(i) => {
                self.sessions.set(i, (owned(user_id), session));
                assert(self@.sessions =~= sv.update(i as int, (user_id@, username@)));
            },
            None => {
                self.sessions.push((owned(user_id), session));
                assert(self@.sessions =~= sv.push((user_id@, username@)));
            },
        }
        Ok(TokenPair {
            access_token,
            refresh_token: string_of(&refresh),
            expires_in: self.config.access_token_ttl_secs,
            token_type: owned("Bearer"),
        })
    }

    /// Checks `token` at `now`, its claims having been read as `parsed` (see `checked_token`);
    /// the claims when it passes.
    pub fn verify_token(&self, token: &str, parsed: Result<Claims, String>, now: u64) -> (r: Result<Claims, String>)
        ensures
            match checked_token(
                self@,
                token@,
                match parsed {
                    Ok(c) => Ok(c.exp),
                    Err(e) => Err(e@),
                },
                now,
            ) {
                Ok(()) => r matches Ok(c) && parsed matches Ok(p) && c == p,
                Err(e) => r matches Err(m) && m@ == e,
            },
    {
        let pos = position_of(&self.revoked_tokens, token);
        if pos.is_some() {
            return Err(owned("Token revoked"));
        }
        let claims = parsed?;
        if claims.exp < now {
            return Err(owned("Token expired"));
        }
        Ok(claims)
    }

    /// Revokes `token` as of `now`.
    pub fn revoke_token(&mut self, token: &str, now: i64) -> (r: Result<(), String>)
        ensures
            r is Ok,
            final(self)@ == (AuthView { revoked: upsert(old(self)@.revoked, token@, now), ..old(self)@ }),
    {
        let ghost rv = self@.revoked;
        match position_of(&self.revoked_tokens, token) {
            Some(i) => {
                self.revoked_tokens.set(i, (owned(token), now));
                assert(self@.revoked =~= rv.update(i as int, (token@, now)));
            },
            None => {
                self.revoked_tokens.push((owned(token), now));
                assert(self@.revoked =~= rv.push((token@, now)));
            },
        }
        Ok(())
    }

    /// Ends the session of `user_id`.
    pub fn logout(&mut self, user_id: &str) -> (r: Result<(), String>)
        ensures
            r is Ok,
            final(self)@ == (AuthView { sessions: remove_key(old(self)@.sessions, user_id@), ..old(self)@ }),
    {
        let ghost sv = self@.sessions;
        let pos = position_of(&self.sessions, user_id);
        proof {
            lemma_same_keys(string_keyed(self.sessions@), sv, user_id@);
        }
        if let Some(i) = pos {
            self.sessions.remove(i);
            assert(self@.sessions =~= sv.remove(i as int));
        }
        Ok(())
    }

    /// Whether `user_id` has a session.
    pub fn has_session(&self, user_id: &str) -> (r: bool)
        ensures
            r == (index_of(self@.sessions, user_id@) is Some),
    {
        let pos = position_of(&self.sessions, user_id);
        proof {
            lemma_same_keys(string_keyed(self.sessions@), self@.sessions, user_id@);
        }
        pos.is_some()
    }
}

/// A revoked token is refused, whatever its claims say and whenever it is shown.
pub proof fn law_revoked_refused(v: AuthView, token: Seq<char>, at: i64, parsed: Result<u64, Seq<char>>, now: u64)
    ensures
        checked_token(AuthView { revoked: upsert(v.revoked, token, at), ..v }, token, parsed, now) == Err::<(), Seq<char>>("Token revoked"@),
{
    lemma_upsert(v.revoked, token, at);
    lemma_index_of(upsert(v.revoked, token, at), token);
}

/// A token is accepted until it expires: with its expiry at or after `now` and not revoked, it
/// passes.
pub proof fn law_unexpired_accepted(v: AuthView, token: Seq<char>, exp: u64, now: u64)
    requires
        !is_revoked(v, token),
        now <= exp,
    ensures
        checked_token(v, token, Ok(exp), now) == Ok::<(), Seq<char>>(()),
{
}

} // verus!
