//! Authentication data for the streaming-platform feed: OAuth scopes and
//! the token pair the transport refreshes. The HTTP flows that fill these
//! live with the transport; the simulation only carries the values.
use vstd::prelude::*;

verus! {

/// One OAuth scope, kept as its wire string.
#[derive(Clone, Debug)]
pub struct Scope(pub String);

impl Scope {
    pub fn new(scope: &str) -> (r: Scope)
        ensures
            r.0@ == scope@,
    {
        Scope(scope.to_owned())
    }

    pub fn as_str(&self) -> (r: &str)
        ensures
            r@ == self.0@,
    {
        self.0.as_str()
    }
}

/// The access/refresh token pair, with the scopes it was granted for.
#[derive(Clone, Debug)]
pub struct Tokens {
    pub access_token: String,
    pub refresh_token: String,
    pub scope: Vec<Scope>,
}

} // verus!
