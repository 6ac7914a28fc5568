//! The replies of the asset service, and the decisions that end a request.
use vstd::prelude::*;

verus! {

/// What the service answers; each reply has one HTTP status.
pub enum Reply {
    /// Fixed informational text.
    Text(String),
    /// The bytes of the requested file.
    Served(Vec<u8>),
    /// A permanent redirect to this location.
    Redirect(String),
    /// The path broke the request grammar.
    Forbidden,
    /// No root holds the file and no peer was named.
    NotResolved,
    /// A root held the file but reading it failed.
    ReadFailed,
}

impl Reply {
    pub open spec fn status_spec(&self) -> u16 {
        match self {
            Reply::Text(_) => 200,
            Reply::Served(_) => 200,
            Reply::Redirect(_) => 308,
            Reply::Forbidden => 403,
            Reply::NotResolved => 404,
            Reply::ReadFailed => 404,
        }
    }

    /// The HTTP status of the reply. A failed read is reported as not found.
    #[verifier::when_used_as_spec(status_spec)]
    pub fn status(&self) -> (r: u16)
        ensures
            r == self.status_spec(),
    {
        match self {
            Reply::Text(_) => 200,
            Reply::Served(_) => 200,
            Reply::Redirect(_) => 308,
            Reply::Forbidden => 403,
            Reply::NotResolved => 404,
            Reply::ReadFailed => 404,
        }
    }
}

pub open spec fn info_text() -> Seq<char> {
    "omg cross-platform rust"@
}

/// The reply to `/info`. It reads no configuration, so it is the same whatever
/// roots are configured, none included.
pub fn info() -> (r: Reply)
    ensures
        r is Text,
        r->Text_0@ == info_text(),
        r.status() == 200,
{
    Reply::Text(String::from_str("omg cross-platform rust"))
}

/// The reply once the file found under a root has been read: its bytes, or
/// `ReadFailed` where the read failed after the file was seen to exist.
pub fn after_read(content: Option<Vec<u8>>) -> (r: Reply)
    ensures
        match content {
            Some(b) => r == Reply::Served(b),
            None => r == Reply::ReadFailed,
        },
{
    match content {
        Some(b) => Reply::Served(b),
        None => Reply::ReadFailed,
    }
}

/// The reply where no root holds the file: a permanent redirect to the peer
/// base URL followed by the original request path, where the peer header is
/// non-empty, and not found otherwise. An absent header is given as empty.
pub fn peer_fallback(peer: &str, request_path: &str) -> (r: Reply)
    ensures
        peer@.len() > 0 ==> r is Redirect && r->Redirect_0@ == peer@ + request_path@,
        peer@.len() == 0 ==> r is NotResolved,
{
    if peer.unicode_len() > 0 {
        Reply::Redirect(String::from_str(peer).concat(request_path))
    } else {
        Reply::NotResolved
    }
}

} // verus!
