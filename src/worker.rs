use vstd::prelude::*;
use crate::account::Error;
use crate::status::Status;
use crate::text::{decimal, push_decimal};

verus! {

/// How long a worker rests after failing to get a token, in seconds.
pub const TOKEN_COOLDOWN_SECS: u64 = 120;

/// A name becoming available is announced above this frequency (in
/// millionths): 10.
pub const NOTIFY_MIN_FREQUENCY: u64 = 10_000_000;

/// What a worker does after probing a name.
#[derive(Clone, Copy, Debug, PartialEq, Eq, Structural)]
pub enum WorkerAction {
    /// Record the verdict and move to the next name.
    Submit(Status),
    /// Sleep this many seconds, then probe the same name again.
    Wait(u64),
    /// Probe the same name again at once.
    Retry,
    /// The account has no client left: stop this worker.
    Exit,
}

/// The action for a probe's result.
pub open spec fn spec_next_action(result: Result<Status, Error>) -> WorkerAction {
    match result {
        Ok(s) => WorkerAction::Submit(s),
        Err(Error::Delay(secs)) => WorkerAction::Wait(secs),
        Err(Error::NoClient) => WorkerAction::Exit,
        Err(Error::Token) => WorkerAction::Wait(TOKEN_COOLDOWN_SECS),
        Err(_) => WorkerAction::Retry,
    }
}

/// Decides what a worker does with a probe's result: a status is
/// submitted; a rate limit waits as told; a token failure waits two
/// minutes; an empty ring stops the worker; any other failure retries.
pub fn next_action(result: Result<Status, Error>) -> (r: WorkerAction)
    ensures
        r == spec_next_action(result),
{
    match result {
        Ok(s) => WorkerAction::Submit(s),
        Err(Error::Delay(secs)) => WorkerAction::Wait(secs),
        Err(Error::NoClient) => WorkerAction::Exit,
        Err(Error::Token) => WorkerAction::Wait(TOKEN_COOLDOWN_SECS),
        Err(_) => WorkerAction::Retry,
    }
}

/// Whether a verdict is announced: `updated_at` moved, the name is now
/// `Available`, and its frequency (in millionths) is above 10.
pub fn should_notify(changed: bool, status: Status, frequency: u64) -> (r: bool)
    ensures
        r == (changed && status == Status::Available && frequency > NOTIFY_MIN_FREQUENCY),
{
    changed && status == Status::Available && frequency > NOTIFY_MIN_FREQUENCY
}

/// A frequency in millionths as hundredths, halves rounded up.
pub open spec fn hundredths(frequency: nat) -> nat {
    (frequency + 5_000) / 10_000
}

/// The two digits after the point for `x < 100`.
pub open spec fn two_digits(x: nat) -> Seq<char> {
    if x < 10 {
        seq!['0'] + decimal(x)
    } else {
        decimal(x)
    }
}

/// The announcement for a name that became available, its frequency (in
/// millionths) shown with two decimals: `<name> is now available! (12.35)`.
pub fn notification_text(username: &str, frequency: u64) -> (r: String)
    ensures
        r@ == username@ + " is now available! ("@ + decimal(hundredths(frequency as nat) / 100)
            + "."@ + two_digits(hundredths(frequency as nat) % 100) + ")"@,
{
    proof {
        assert((frequency as nat + 5_000) / 10_000 <= u64::MAX) by (nonlinear_arith)
            requires
                frequency <= u64::MAX,
        ;
    }
    let h: u64 = ((frequency as u128 + 5_000) / 10_000) as u64;
    let mut out = String::from_str(username);
    out.append(" is now available! (");
    push_decimal(&mut out, h / 100);
    out.append(".");
    let frac = h % 100;
    if frac < 10 {
        out.append("0");
        proof {
            reveal_strlit("0");
        }
    }
    push_decimal(&mut out, frac);
    out.append(")");
    proof {
        assert(out@ =~= username@ + " is now available! ("@ + decimal(h as nat / 100) + "."@
            + two_digits(h as nat % 100) + ")"@);
    }
    out
}

} // verus!
