use vstd::prelude::*;

verus! {

/// Availability of a username, stored as a small integer.
#[derive(Clone, Copy, Debug, PartialEq, Eq, Structural)]
pub enum Status {
    /// Never probed.
    Unknown,
    /// Mojang answered `AVAILABLE`.
    Available,
    /// Mojang answered `DUPLICATE`.
    Taken,
    /// Mojang answered `NOT_ALLOWED`.
    Banned,
    /// The coarse screener found no profile for the name.
    BatchAvailable,
    /// The coarse screener found a profile for the name.
    BatchTaken,
}

/// The small integer under which a status is stored.
pub open spec fn status_code(s: Status) -> int {
    match s {
        Status::Unknown => 0,
        Status::Available => 1,
        Status::Taken => 2,
        Status::Banned => 3,
        Status::BatchAvailable => 4,
        Status::BatchTaken => 5,
    }
}

/// The status stored under a code; unknown codes read as `Unknown`.
pub open spec fn status_of_code(code: int) -> Status {
    if code == 1 {
        Status::Available
    } else if code == 2 {
        Status::Taken
    } else if code == 3 {
        Status::Banned
    } else if code == 4 {
        Status::BatchAvailable
    } else if code == 5 {
        Status::BatchTaken
    } else {
        Status::Unknown
    }
}

/// The status named by the `status` field of an availability reply.
pub open spec fn status_of_reply(s: Seq<char>) -> Status {
    if s == "AVAILABLE"@ {
        Status::Available
    } else if s == "DUPLICATE"@ {
        Status::Taken
    } else if s == "NOT_ALLOWED"@ {
        Status::Banned
    } else {
        Status::Unknown
    }
}

/// Whether a change from `prev` to `next` moves `updated_at`: the status
/// must change, and a screener's `BatchTaken` confirmed as `Taken` is the
/// same fact and does not count.
pub open spec fn spec_bumps_updated_at(prev: Status, next: Status) -> bool {
    prev != next && !(prev == Status::BatchTaken && next == Status::Taken)
}

/// The status a name gets when the screener finds no profile for it:
/// authoritative `Available` and `Banned` stay, all else becomes
/// `BatchAvailable`.
pub open spec fn spec_screened_available(prev: Status) -> Status {
    if prev == Status::Available || prev == Status::Banned {
        prev
    } else {
        Status::BatchAvailable
    }
}

/// Whether two strings hold the same characters.
pub fn str_equal(a: &str, b: &str) -> (r: bool)
    ensures
        r == (a@ == b@),
{
    let n = a.unicode_len();
    if n != b.unicode_len() {
        return false;
    }
    let mut i: usize = 0;
    while i < n
        invariant
            n == a@.len(),
            n == b@.len(),
            i <= n,
            forall|k: int| 0 <= k < i ==> a@[k] == b@[k],
        decreases n - i,
    {
        if a.get_char(i) != b.get_char(i) {
            return false;
        }
        i += 1;
    }
    assert(a@ =~= b@);
    true
}

impl Status {
    /// The small integer under which this status is stored.
    pub fn code(self) -> (r: i16)
        ensures
            r == status_code(self),
    {
        match self {
            Status::Unknown => 0,
            Status::Available => 1,
            Status::Taken => 2,
            Status::Banned => 3,
            Status::BatchAvailable => 4,
            Status::BatchTaken => 5,
        }
    }

    /// The status stored under `code`; codes outside `0..=5` read as
    /// `Unknown`.
    pub fn from_code(code: i16) -> (r: Status)
        ensures
            r == status_of_code(code as int),
    {
        match code {
            1 => Status::Available,
            2 => Status::Taken,
            3 => Status::Banned,
            4 => Status::BatchAvailable,
            5 => Status::BatchTaken,
            _ => Status::Unknown,
        }
    }

    /// Reads the `status` field of an availability reply: `AVAILABLE`,
    /// `DUPLICATE` and `NOT_ALLOWED` name a status, anything else is
    /// `Unknown`. Never fails.
    pub fn from_str(s: &str) -> (r: Result<Status, ()>)
        ensures
            r == Ok::<Status, ()>(status_of_reply(s@)),
    {
        if str_equal(s, "AVAILABLE") {
            Ok(Status::Available)
        } else if str_equal(s, "DUPLICATE") {
            Ok(Status::Taken)
        } else if str_equal(s, "NOT_ALLOWED") {
            Ok(Status::Banned)
        } else {
            Ok(Status::Unknown)
        }
    }

    /// Whether a verdict changing `prev` into `next` moves `updated_at`.
    pub fn bumps_updated_at(prev: Status, next: Status) -> (r: bool)
        ensures
            r == spec_bumps_updated_at(prev, next),
    {
        prev != next && !(prev == Status::BatchTaken && next == Status::Taken)
    }

    /// The status a name gets when the screener finds no profile for it.
    pub fn screened_available(prev: Status) -> (r: Status)
        ensures
            r == spec_screened_available(prev),
    {
        if prev == Status::Available || prev == Status::Banned {
            prev
        } else {
            Status::BatchAvailable
        }
    }

    /// The status a name gets when the screener finds a profile for it:
    /// always `BatchTaken`.
    pub fn screened_taken(_prev: Status) -> (r: Status)
        ensures
            r == Status::BatchTaken,
    {
        Status::BatchTaken
    }
}

impl std::str::FromStr for Status {
    type Err = ();

    fn from_str(s: &str) -> Result<Status, ()> {
        Status::from_str(s)
    }
}

impl From<i16> for Status {
    fn from(code: i16) -> (r: Status) {
        Status::from_code(code)
    }
}

impl vstd::std_specs::convert::FromSpecImpl<i16> for Status {
    open spec fn obeys_from_spec() -> bool {
        true
    }

    open spec fn from_spec(code: i16) -> Status {
        status_of_code(code as int)
    }
}

impl From<Status> for i16 {
    fn from(s: Status) -> (r: i16) {
        s.code()
    }
}

impl vstd::std_specs::convert::FromSpecImpl<Status> for i16 {
    open spec fn obeys_from_spec() -> bool {
        true
    }

    open spec fn from_spec(s: Status) -> i16 {
        status_code(s) as i16
    }
}

} // verus!
