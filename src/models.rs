use vstd::prelude::*;
use crate::account::Account;

verus! {

/// A user of the read API: an id and the key it authenticates with.
pub struct User {
    pub id: i32,
    pub key: String,
}

/// A user's like of a name.
pub struct Like {
    pub username: String,
    pub user_id: i32,
}

/// A proxy row: HTTPS proxy address and port, with optional basic-auth
/// login and a free-form note.
pub struct Proxy {
    pub id: i32,
    pub address: String,
    pub port: i32,
    pub username: Option<String>,
    pub password: Option<String>,
    pub note: Option<String>,
}

/// What the engine reads of a proxy row.
pub struct ProxyData {
    pub address: String,
    pub port: i32,
    pub username: Option<String>,
    pub password: Option<String>,
}

/// What the engine reads of an account row.
pub struct AccountData {
    pub username: String,
    pub password: String,
}

impl ProxyData {
    /// The basic-auth login to configure: only when both a username and a
    /// password are set.
    pub fn basic_auth(&self) -> (r: Option<(String, String)>)
        ensures
            r is Some <==> (self.username is Some && self.password is Some),
            r matches Some((u, p)) ==> u@ == self.username->0@ && p@ == self.password->0@,
    {
        match (&self.username, &self.password) {
            (Some(u), Some(p)) => Some((u.clone(), p.clone())),
            _ => None,
        }
    }
}

impl From<Proxy> for ProxyData {
    fn from(p: Proxy) -> (r: ProxyData) {
        ProxyData { address: p.address, port: p.port, username: p.username, password: p.password }
    }
}

impl vstd::std_specs::convert::FromSpecImpl<Proxy> for ProxyData {
    open spec fn obeys_from_spec() -> bool {
        true
    }

    open spec fn from_spec(p: Proxy) -> ProxyData {
        ProxyData { address: p.address, port: p.port, username: p.username, password: p.password }
    }
}

impl AccountData {
    /// A worker account for this row, with no client and no token yet.
    pub fn into_account<C>(self) -> (r: Account<C>)
        ensures
            r.login().username == self.username,
            r.login().password == self.password,
            r.ring().clients() == Seq::<C>::empty(),
            r.current_token() is None,
    {
        Account::new(self.username, self.password)
    }
}

} // verus!
