use vstd::prelude::*;
use crate::clock::now_millis;
use crate::ring::ClientRing;
use crate::status::{status_of_reply, Status};
use crate::token::{Credentials, JavaData};

verus! {

/// Back-off after a first rate-limit reply on a name, in seconds.
pub const FIRST_DELAY_SECS: u64 = 30;

/// Back-off after a later rate-limit reply on the same name, in seconds.
pub const LATER_DELAY_SECS: u64 = 120;

/// How long a token must still be valid for a worker to use it, in
/// milliseconds.
pub const TOKEN_MARGIN_MS: i64 = 30_000;

/// Why a probe gave no status.
#[derive(Clone, Copy, Debug, PartialEq, Eq, Structural)]
pub enum Error {
    /// The account has no client left.
    NoClient,
    /// No token could be obtained.
    Token,
    /// The endpoint answered with an unexpected status.
    Request,
    /// The reply's body could not be decoded.
    Deserialization,
    /// The request failed, or its proxy was burned; try again.
    Retry,
    /// Rate limited: wait this many seconds.
    Delay(u64),
}

/// The body of an availability reply.
pub struct MinecraftResponse {
    pub status: String,
}

/// What an availability reply's HTTP status (`None`: no reply at all)
/// means, `first` telling whether this is the first try on the name.
pub open spec fn spec_reply_outcome(code: Option<u16>, first: bool) -> Result<(), Error> {
    match code {
        None => Err(Error::Retry),
        Some(c) => if c == 402 {
            Err(Error::Retry)
        } else if c == 429 {
            Err(Error::Delay(if first { FIRST_DELAY_SECS } else { LATER_DELAY_SECS }))
        } else if c == 200 {
            Ok(())
        } else {
            Err(Error::Request)
        },
    }
}

/// Whether a token is usable by a worker at `now`.
pub open spec fn spec_token_valid(token: Option<JavaData>, now: int) -> bool {
    match token {
        Some(t) => t.expires_at > now + TOKEN_MARGIN_MS,
        None => false,
    }
}

/// A worker's account: its login, its ring of proxied clients, and its
/// current token.
pub struct Account<C> {
    clients: ClientRing<C>,
    credentials: Credentials,
    token: Option<JavaData>,
}

impl<C> Account<C> {
    /// The client ring.
    pub closed spec fn ring(&self) -> ClientRing<C> {
        self.clients
    }

    /// The login.
    pub closed spec fn login(&self) -> Credentials {
        self.credentials
    }

    /// The current token.
    pub closed spec fn current_token(&self) -> Option<JavaData> {
        self.token
    }

    /// An account with no client and no token.
    pub fn new(username: String, password: String) -> (r: Account<C>)
        ensures
            r.ring().clients() == Seq::<C>::empty(),
            r.ring().cursor() == 0,
            r.login().username == username,
            r.login().password == password,
            r.current_token() is None,
    {
        Account {
            clients: ClientRing::new(),
            credentials: Credentials { username, password },
            token: None,
        }
    }

    /// Appends a client to the ring.
    pub fn add_agent(&mut self, client: C)
        ensures
            final(self).ring().clients() == old(self).ring().clients().push(client),
            final(self).ring().cursor() == old(self).ring().cursor(),
            final(self).login() == old(self).login(),
            final(self).current_token() == old(self).current_token(),
    {
        self.clients.add(client);
    }

    /// Drops the client under the cursor (the one last handed out).
    pub fn remove_current_client(&mut self)
        ensures
            final(self).ring().cursor() == old(self).ring().cursor(),
            old(self).ring().cursor() < old(self).ring().clients().len() ==> final(self).ring().clients() == old(self).ring().clients().remove(
                old(self).ring().cursor() as int,
            ),
            old(self).ring().cursor() >= old(self).ring().clients().len() ==> final(self).ring().clients() == old(self).ring().clients(),
            final(self).login() == old(self).login(),
            final(self).current_token() == old(self).current_token(),
    {
        self.clients.evict_current();
    }

    /// The next client, round-robin; `None` when none is left.
    pub fn get_client(&mut self) -> (r: Option<&C>)
        ensures
            final(self).ring().clients() == old(self).ring().clients(),
            final(self).login() == old(self).login(),
            final(self).current_token() == old(self).current_token(),
            old(self).ring().clients().len() == 0 ==> r is None && final(self).ring().cursor()
                == old(self).ring().cursor(),
            old(self).ring().clients().len() > 0 ==> {
                &&& final(self).ring().cursor() as int == (old(self).ring().cursor() as int + 1)
                    % (old(self).ring().clients().len() as int)
                &&& r == Some(&old(self).ring().clients()[final(self).ring().cursor() as int])
            },
    {
        self.clients.next()
    }

    /// The next client, round-robin, with the login; `None` when no client
    /// is left.
    pub fn get_client_and_credentials(&mut self) -> (r: Option<(&C, &Credentials)>)
        ensures
            final(self).ring().clients() == old(self).ring().clients(),
            final(self).login() == old(self).login(),
            final(self).current_token() == old(self).current_token(),
            old(self).ring().clients().len() == 0 ==> r is None && final(self).ring().cursor()
                == old(self).ring().cursor(),
            old(self).ring().clients().len() > 0 ==> {
                &&& final(self).ring().cursor() as int == (old(self).ring().cursor() as int + 1)
                    % (old(self).ring().clients().len() as int)
                &&& r matches Some((c, l)) && *c == old(self).ring().clients()[final(self).ring().cursor() as int] && *l == old(self).login()
            },
    {
        match self.clients.next() {
            None => None,
            Some(c) => Some((c, &self.credentials)),
        }
    }

    /// The login.
    pub fn credentials(&self) -> (r: &Credentials)
        ensures
            *r == self.login(),
    {
        &self.credentials
    }

    /// The current token.
    pub fn token(&self) -> (r: Option<&JavaData>)
        ensures
            r matches Some(t) ==> self.current_token() == Some(*t),
            r is None ==> self.current_token() is None,
    {
        self.token.as_ref()
    }

    /// Installs a freshly obtained token.
    pub fn set_token(&mut self, token: JavaData)
        ensures
            final(self).current_token() == Some(token),
            final(self).ring() == old(self).ring(),
            final(self).login() == old(self).login(),
    {
        self.token = Some(token);
    }

    /// Whether `token` is usable at `now`: more than thirty seconds remain.
    pub fn is_token_valid_at(token: Option<&JavaData>, now: i64) -> (r: bool)
        ensures
            r == (token matches Some(t) && t.expires_at > now + TOKEN_MARGIN_MS),
    {
        match token {
            Some(t) => t.usable_at(now),
            None => false,
        }
    }

    /// Whether `token` is usable now.
    pub fn is_token_valid(token: Option<&JavaData>) -> (r: bool)
        ensures
            token is None ==> !r,
    {
        Self::is_token_valid_at(token, now_millis())
    }

    /// Reads the HTTP status of an availability reply (`None`: the request
    /// failed): 200 lets the body be read; 402 burns the client just used,
    /// which is evicted; 429 asks for a back-off of 30 s on a name's first
    /// try and 120 s after; anything else is a failed request. A failed
    /// request does not evict.
    pub fn handle_reply(&mut self, code: Option<u16>, first: bool) -> (r: Result<(), Error>)
        ensures
            r == spec_reply_outcome(code, first),
            final(self).login() == old(self).login(),
            final(self).current_token() == old(self).current_token(),
            final(self).ring().cursor() == old(self).ring().cursor(),
            code == Some(402u16) && old(self).ring().cursor() < old(self).ring().clients().len()
                ==> final(self).ring().clients() == old(self).ring().clients().remove(
                old(self).ring().cursor() as int,
            ),
            code == Some(402u16) && old(self).ring().cursor() >= old(self).ring().clients().len() ==> final(self).ring().clients() == old(self).ring().clients(),
            code != Some(402u16) ==> final(self).ring() == old(self).ring(),
    {
        match code {
            None => Err(Error::Retry),
            Some(c) => {
                if c == 402 {
                    self.remove_current_client();
                    Err(Error::Retry)
                } else if c == 429 {
                    Err(Error::Delay(if first { FIRST_DELAY_SECS } else { LATER_DELAY_SECS }))
                } else if c == 200 {
                    Ok(())
                } else {
                    Err(Error::Request)
                }
            },
        }
    }
}

/// The status an availability reply's body names; `Deserialization` when
/// the body did not decode.
pub fn status_from_body(body: Option<MinecraftResponse>) -> (r: Result<Status, Error>)
    ensures
        body is None ==> r == Err::<Status, Error>(Error::Deserialization),
        body matches Some(b) ==> r == Ok::<Status, Error>(status_of_reply(b.status@)),
{
    match body {
        None => Err(Error::Deserialization),
        Some(b) => match Status::from_str(b.status.as_str()) {
            Ok(s) => Ok(s),
            Err(()) => Err(Error::Deserialization),
        },
    }
}

} // verus!
