//! Session tokens.
//!
//! The library says what a token claims and when a claim has run out;
//! signing and checking signatures is the caller's work.

use crate::text::strings_view;
use vstd::prelude::*;

verus! {

/// What a token claims.
#[derive(Debug)]
pub struct Claims {
    /// The user.
    pub sub: String,
    /// The instant the token runs out, seconds since the Unix epoch.
    pub exp: usize,
    /// The user's permissions at login.
    pub perms: Vec<String>,
    pub session_id: String,
}

/// [`Claims`] as plain data.
pub struct ClaimsView {
    pub sub: Seq<char>,
    pub exp: usize,
    pub perms: Seq<Seq<char>>,
    pub session_id: Seq<char>,
}

impl View for Claims {
    type V = ClaimsView;

    open spec fn view(&self) -> ClaimsView {
        ClaimsView {
            sub: self.sub@,
            exp: self.exp,
            perms: strings_view(self.perms@),
            session_id: self.session_id@,
        }
    }
}

/// Holds the secret that tokens are signed with.
pub struct JwtManager {
    secret: String,
}

impl JwtManager {
    pub closed spec fn secret_text(&self) -> Seq<char> {
        self.secret@
    }

    pub fn new(secret: String) -> (m: Self)
        ensures
            m.secret_text() == secret@,
    {
        JwtManager { secret }
    }

    /// The secret, for the signing code.
    pub fn secret(&self) -> (s: &str)
        ensures
            s@ == self.secret_text(),
    {
        self.secret.as_str()
    }

    /// The claims of a token issued at `now_secs` that is good for
    /// `expires_in` seconds; `None` where its end does not fit the clock.
    pub fn claims(
        &self,
        username: &str,
        permissions: Vec<String>,
        expires_in: u64,
        now_secs: u64,
        session_id: String,
    ) -> (r: Option<Claims>)
        ensures
            r is Some <==> now_secs + expires_in <= usize::MAX,
            r matches Some(c) ==> c@ == (ClaimsView {
                sub: username@,
                exp: (now_secs + expires_in) as usize,
                perms: strings_view(permissions@),
                session_id: session_id@,
            }),
    {
        let end: u64 = match now_secs.checked_add(expires_in) {
            Some(e) => e,
            None => {
                return None;
            },
        };
        if end > usize::MAX as u64 {
            return None;
        }
        Some(Claims { sub: username.to_owned(), exp: end as usize, perms: permissions, session_id })
    }
}

} // verus!
