//! Reading credentials off a request.
//!
//! A caller names itself by an API key in the header `X-API-Key`, or by a
//! token in the header `Authorization`, written `Bearer <token>`. Where both
//! are there the API key counts.

use vstd::prelude::*;
use vstd::string::StrSliceExecFns;

verus! {

/// What a request carries to prove who sent it.
#[derive(Debug)]
pub enum Credentials {
    ApiKey(String),
    Bearer(String),
    Missing,
}

/// [`Credentials`] as plain data.
pub enum CredentialsView {
    ApiKey(Seq<char>),
    Bearer(Seq<char>),
    Missing,
}

impl View for Credentials {
    type V = CredentialsView;

    open spec fn view(&self) -> CredentialsView {
        match *self {
            Credentials::ApiKey(k) => CredentialsView::ApiKey(k@),
            Credentials::Bearer(t) => CredentialsView::Bearer(t@),
            Credentials::Missing => CredentialsView::Missing,
        }
    }
}

/// The word that opens a token in the `Authorization` header, with the
/// blank behind it.
pub open spec fn bearer_prefix() -> Seq<char> {
    seq!['B', 'e', 'a', 'r', 'e', 'r', ' ']
}

/// The credentials in the two headers.
pub open spec fn credentials_in(
    api_key: Option<Seq<char>>,
    authorization: Option<Seq<char>>,
) -> CredentialsView {
    match api_key {
        Some(k) => CredentialsView::ApiKey(k),
        None => match authorization {
            Some(a) => if bearer_prefix().is_prefix_of(a) {
                CredentialsView::Bearer(a.skip(7))
            } else {
                CredentialsView::Missing
            },
            None => CredentialsView::Missing,
        },
    }
}

/// The text of an optional header value.
pub open spec fn header_text(h: Option<&str>) -> Option<Seq<char>> {
    match h {
        Some(s) => Some(s@),
        None => None,
    }
}

/// Reads the credentials out of the values of the headers `X-API-Key` and
/// `Authorization`. A header that is absent, or whose value is not text,
/// comes in as `None`.
pub fn read_credentials(api_key: Option<&str>, authorization: Option<&str>) -> (c: Credentials)
    ensures
        c@ == credentials_in(header_text(api_key), header_text(authorization)),
{
    match api_key {
        Some(k) => {
            return Credentials::ApiKey(k.to_owned());
        },
        None => {},
    }
    let value = match authorization {
        Some(a) => a,
        None => {
            return Credentials::Missing;
        },
    };
    let n: usize = value.unicode_len();
    let prefix = "Bearer ";
    proof {
        reveal_strlit("Bearer ");
        assert(prefix@ =~= bearer_prefix());
    }
    if n < 7 {
        return Credentials::Missing;
    }
    let mut i: usize = 0;
    while i < 7
        invariant
            i <= 7 <= n,
            n == value@.len(),
            api_key is None,
            authorization == Some(value),
            prefix@ == bearer_prefix(),
            forall|j: int| 0 <= j < i ==> value@[j] == bearer_prefix()[j],
        decreases 7 - i,
    {
        if value.get_char(i) != prefix.get_char(i) {
            assert(value@.subrange(0, 7)[i as int] == value@[i as int]);
            return Credentials::Missing;
        }
        i = i + 1;
    }
    assert(value@.subrange(0, 7) =~= bearer_prefix());
    let token = value.substring_char(7, n);
    assert(token@ =~= value@.skip(7));
    Credentials::Bearer(token.to_owned())
}

} // verus!
