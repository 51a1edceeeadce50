use vstd::prelude::*;
use vstd::arithmetic::div_mod::lemma_fundamental_div_mod_converse;
use crate::status::Status;
use crate::token::JavaData;

verus! {

/// The period inside which a snipe's workers spread their probes, in
/// milliseconds.
pub const PERIOD_MS: i64 = 2_000;

/// A snipe token is renewed once less than this remains, in milliseconds.
pub const SNIPE_TOKEN_MARGIN_MS: i64 = 300_000;

/// A name to claim the moment it frees, with the number of workers wanted
/// on it (`needed`), the slots taken so far (`count`), and the login of the
/// account that claims it. `created_at` is in milliseconds since the Unix
/// epoch.
pub struct Snipe {
    pub username: String,
    pub created_at: i64,
    pub needed: i16,
    pub count: i16,
    pub email: String,
    pub password: String,
}

/// Whether two snipe rows hold the same values.
pub open spec fn same_snipe(a: Snipe, b: Snipe) -> bool {
    &&& a.username@ == b.username@
    &&& a.created_at == b.created_at
    &&& a.needed == b.needed
    &&& a.count == b.count
    &&& a.email@ == b.email@
    &&& a.password@ == b.password@
}

impl Snipe {
    /// A copy of this row.
    pub fn copy(&self) -> (r: Snipe)
        ensures
            same_snipe(r, *self),
    {
        Snipe {
            username: self.username.clone(),
            created_at: self.created_at,
            needed: self.needed,
            count: self.count,
            email: self.email.clone(),
            password: self.password.clone(),
        }
    }
}

/// The phase of slot `count - 1` of `needed`: `2000 * (count - 1) /
/// needed` milliseconds, rounded to the nearest, halves up.
pub open spec fn spec_phase_offset(needed: int, count: int) -> int {
    (4000 * (count - 1) + needed) / (2 * needed)
}

/// Where `now` falls inside its period.
pub open spec fn period_shot(now: int) -> int {
    now % (PERIOD_MS as int)
}

/// How long a worker with phase `offset` waits at `now`: up to the next
/// instant whose place in the period is `offset`, a whole period when it
/// is there already.
pub open spec fn spec_phase_wait(offset: int, now: int) -> int {
    let shot = period_shot(now);
    if offset > shot {
        offset - shot
    } else {
        PERIOD_MS - shot + offset
    }
}

/// The phase offset of the slot numbered `count` (from 1) out of `needed`.
pub fn phase_offset(needed: i16, count: i16) -> (r: i64)
    requires
        1 <= count <= needed,
    ensures
        r == spec_phase_offset(needed as int, count as int),
        0 <= r <= PERIOD_MS,
{
    let i: u64 = (count - 1) as u64;
    let w: u64 = needed as u64;
    proof {
        assert(0 <= (4000 * i + w) / (2 * w) <= 2000) by (nonlinear_arith)
            requires
                1 <= w <= 32767,
                i < w,
        {
            assert(4000 * i + w < 4002 * w);
        }
    }
    ((4000 * i + w) / (2 * w)) as i64
}

/// How long to wait at `now` for a phase `offset`; `now` may be any
/// instant, its place in the period taken as the Euclidean remainder.
pub fn phase_wait(offset: i64, now: i64) -> (r: i64)
    requires
        0 <= offset <= PERIOD_MS,
    ensures
        r == spec_phase_wait(offset as int, now as int),
        1 <= r <= PERIOD_MS,
{
    let shot: i64 = if now >= 0 {
        (now as u64 % 2000) as i64
    } else {
        let k: u64 = (-(now + 1)) as u64;
        let m: u64 = k % 2000;
        proof {
            let q = k as int / 2000;
            lemma_fundamental_div_mod_converse(k as int, 2000, q, m as int);
            assert(k as int == q * 2000 + m as int) by {
                vstd::arithmetic::div_mod::lemma_fundamental_div_mod(k as int, 2000);
            }
            lemma_fundamental_div_mod_converse(now as int, 2000, -q - 1, 1999 - m as int);
        }
        1999 - m as i64
    };
    if offset > shot {
        offset - shot
    } else {
        PERIOD_MS - shot + offset
    }
}

/// Snipe phasing: a worker holding slot `count` of `needed` that waits as
/// told at `now` wakes within one period, at the instant whose place in
/// the period is its phase offset.
pub proof fn lemma_snipe_phasing(needed: i16, count: i16, now: int)
    requires
        1 <= count <= needed,
    ensures
        ({
            let offset = spec_phase_offset(needed as int, count as int);
            let wait = spec_phase_wait(offset, now);
            &&& 1 <= wait <= PERIOD_MS
            &&& (now + wait) % (PERIOD_MS as int) == offset % (PERIOD_MS as int)
        }),
{
    let offset = spec_phase_offset(needed as int, count as int);
    let i = count as int - 1;
    let w = needed as int;
    assert(0 <= offset <= 2000) by (nonlinear_arith)
        requires
            offset == (4000 * i + w) / (2 * w),
            1 <= w,
            0 <= i < w,
    {
        assert(4000 * i + w < 4002 * w);
    }
    let shot = now % 2000;
    let q = now / 2000;
    vstd::arithmetic::div_mod::lemma_fundamental_div_mod(now, 2000);
    let wait = spec_phase_wait(offset, now);
    if offset == 2000 {
        lemma_fundamental_div_mod_converse(now + wait, 2000, q + 1, 0);
        lemma_fundamental_div_mod_converse(offset, 2000, 1, 0);
    } else if offset > shot {
        lemma_fundamental_div_mod_converse(now + wait, 2000, q, offset);
        lemma_fundamental_div_mod_converse(offset, 2000, 0, offset);
    } else {
        lemma_fundamental_div_mod_converse(now + wait, 2000, q + 1, offset);
        lemma_fundamental_div_mod_converse(offset, 2000, 0, offset);
    }
}

/// What a claim `PUT` came to.
#[derive(Clone, Copy, Debug, PartialEq, Eq, Structural)]
pub enum ClaimOutcome {
    /// 2xx: the name is ours.
    Claimed,
    /// 403: this token will never get it.
    Refused,
    /// Anything else, or no reply: may succeed later.
    Failed,
}

/// Reads the HTTP status of a claim `PUT` (`None`: no reply).
pub fn claim_outcome(code: Option<u16>) -> (r: ClaimOutcome)
    ensures
        r == ClaimOutcome::Claimed <==> (code matches Some(c) && 200 <= c <= 299),
        r == ClaimOutcome::Refused <==> code == Some(403u16),
{
    match code {
        Some(c) => if 200 <= c && c <= 299 {
            ClaimOutcome::Claimed
        } else if c == 403 {
            ClaimOutcome::Refused
        } else {
            ClaimOutcome::Failed
        },
        None => ClaimOutcome::Failed,
    }
}

/// A worker's hold on a snipe: the slot it took, if any, and the token of
/// the snipe's account.
pub struct SnipeSlot {
    snipe: Option<Snipe>,
    token: Option<JavaData>,
}

impl SnipeSlot {
    /// The slot held.
    pub closed spec fn held(&self) -> Option<Snipe> {
        self.snipe
    }

    /// The snipe account's token.
    pub closed spec fn lease(&self) -> Option<JavaData> {
        self.token
    }

    /// No slot, no token.
    pub fn new() -> (r: SnipeSlot)
        ensures
            r.held() is None,
            r.lease() is None,
    {
        SnipeSlot { snipe: None, token: None }
    }

    /// Whether a slot is held, so that no new one is to be taken.
    pub fn holds_slot(&self) -> (r: bool)
        ensures
            r == self.held() is Some,
    {
        self.snipe.is_some()
    }

    /// The slot held.
    pub fn snipe(&self) -> (r: Option<&Snipe>)
        ensures
            r matches Some(s) ==> self.held() == Some(*s),
            r is None ==> self.held() is None,
    {
        self.snipe.as_ref()
    }

    /// The snipe account's token.
    pub fn token(&self) -> (r: Option<&JavaData>)
        ensures
            r matches Some(t) ==> self.lease() == Some(*t),
            r is None ==> self.lease() is None,
    {
        self.token.as_ref()
    }

    /// Takes the slot a successful acquisition returned.
    pub fn take_slot(&mut self, snipe: Snipe)
        ensures
            final(self).held() == Some(snipe),
            final(self).lease() == old(self).lease(),
    {
        self.snipe = Some(snipe);
    }

    /// Gives the slot up, as once its name is claimed.
    pub fn release(&mut self)
        ensures
            final(self).held() is None,
            final(self).lease() == old(self).lease(),
    {
        self.snipe = None;
    }

    /// Whether, holding a slot, the snipe token must be fetched at `now`:
    /// there is none, or less than five minutes remain on it.
    pub fn needs_token(&self, now: i64) -> (r: bool)
        ensures
            r == (self.held() is Some && (self.lease() matches Some(t) ==> t.expires_at < now
                + SNIPE_TOKEN_MARGIN_MS)),
    {
        match &self.snipe {
            None => false,
            Some(_) => match &self.token {
                None => true,
                Some(t) => (t.expires_at as i128) < now as i128 + SNIPE_TOKEN_MARGIN_MS as i128,
            },
        }
    }

    /// Installs what a token fetch gave (`None`: it failed).
    pub fn set_token(&mut self, token: Option<JavaData>)
        ensures
            final(self).lease() == token,
            final(self).held() == old(self).held(),
    {
        self.token = token;
    }

    /// How long to wait at `now` before probing the snipe's name: `None`
    /// with no slot; no wait when the slot's count lies outside
    /// `1..=needed` (a snipe wanting no worker); else the phase wait.
    pub fn gate_wait(&self, now: i64) -> (r: Option<i64>)
        ensures
            self.held() is None ==> r is None,
            self.held() matches Some(s) ==> (r matches Some(w) && w == if 1 <= s.count <= s.needed {
                spec_phase_wait(spec_phase_offset(s.needed as int, s.count as int), now as int)
            } else {
                0
            }),
    {
        match &self.snipe {
            None => None,
            Some(s) => if 1 <= s.count && s.count <= s.needed {
                Some(phase_wait(phase_offset(s.needed, s.count), now))
            } else {
                Some(0)
            },
        }
    }

    /// Whether a verdict calls for the claim `PUT`: a slot and a token are
    /// held, the verdict is on the snipe's name, and it is `Available`.
    pub fn should_claim(&self, username: &str, status: Status) -> (r: bool)
        ensures
            r == (self.held() matches Some(s) && self.lease() is Some && s.username@ == username@
                && status == Status::Available),
    {
        match (&self.snipe, &self.token) {
            (Some(s), Some(_)) => status == Status::Available && crate::status::str_equal(
                s.username.as_str(),
                username,
            ),
            _ => false,
        }
    }
}

/// A request to snipe a name with `workers` workers, claimed with the
/// given account.
pub struct CreateSnipeOptions {
    pub username: String,
    pub email: String,
    pub password: String,
    pub workers: i16,
}

/// Whether a snipe request added a row.
pub struct CreateSnipeResponse {
    pub updated: bool,
}

/// The snipe rows, each with `0 <= count <= needed`.
pub struct SnipeTable {
    rows: Vec<Snipe>,
}

/// Every row's count lies within `0..=needed`.
pub open spec fn counts_in_range(rows: Seq<Snipe>) -> bool {
    forall|j: int| 0 <= j < rows.len() ==> 0 <= (#[trigger] rows[j]).count <= rows[j].needed
}

impl SnipeTable {
    /// The rows.
    pub closed spec fn rows(&self) -> Seq<Snipe> {
        self.rows@
    }

    /// No rows.
    pub fn new() -> (r: SnipeTable)
        ensures
            r.rows() == Seq::<Snipe>::empty(),
    {
        SnipeTable { rows: Vec::new() }
    }

    /// Adds the snipe a request asks for at `now`, unless its name already
    /// has one; says whether a row was added.
    pub fn create(&mut self, options: CreateSnipeOptions, now: i64) -> (r: CreateSnipeResponse)
        ensures
            r.updated == (forall|j: int|
                0 <= j < old(self).rows().len() ==> (#[trigger] old(self).rows()[j]).username@
                    != options.username@),
            !r.updated ==> final(self).rows() == old(self).rows(),
            r.updated ==> final(self).rows() == old(self).rows().push(
                Snipe {
                    username: options.username,
                    created_at: now,
                    needed: options.workers,
                    count: 0,
                    email: options.email,
                    password: options.password,
                },
            ),
    {
        let mut i: usize = 0;
        while i < self.rows.len()
            invariant
                i <= self.rows().len(),
                self.rows() == old(self).rows(),
                forall|j: int| 0 <= j < i ==> (#[trigger] self.rows()[j]).username@ != options.username@,
            decreases self.rows().len() - i,
        {
            if crate::status::str_equal(self.rows[i].username.as_str(), options.username.as_str()) {
                return CreateSnipeResponse { updated: false };
            }
            i += 1;
        }
        self.rows.push(
            Snipe {
                username: options.username,
                created_at: now,
                needed: options.workers,
                count: 0,
                email: options.email,
                password: options.password,
            },
        );
        CreateSnipeResponse { updated: true }
    }

    /// Takes one slot, in one step: the first row with a free slot has its
    /// count raised by one and is returned; `None`, changing nothing, when
    /// no row has one.
    pub fn acquire(&mut self) -> (r: Option<Snipe>)
        ensures
            r is None ==> final(self).rows() == old(self).rows() && forall|j: int|
                0 <= j < old(self).rows().len() ==> (#[trigger] old(self).rows()[j]).count
                    >= old(self).rows()[j].needed,
            r matches Some(s) ==> exists|i: int|
                0 <= i < old(self).rows().len() && {
                    let row = #[trigger] old(self).rows()[i];
                    &&& row.count < row.needed
                    &&& forall|j: int|
                        0 <= j < i ==> (#[trigger] old(self).rows()[j]).count >= old(self).rows()[j].needed
                    &&& final(self).rows() == old(self).rows().update(
                        i,
                        Snipe { count: (row.count + 1) as i16, ..row },
                    )
                    &&& same_snipe(s, final(self).rows()[i])
                },
    {
        let mut i: usize = 0;
        while i < self.rows.len()
            invariant
                i <= self.rows().len(),
                self.rows() == old(self).rows(),
                forall|j: int|
                    0 <= j < i ==> (#[trigger] self.rows()[j]).count >= self.rows()[j].needed,
            decreases self.rows().len() - i,
        {
            if self.rows[i].count < self.rows[i].needed {
                self.rows[i].count = self.rows[i].count + 1;
                let s = self.rows[i].copy();
                proof {
                    let row = old(self).rows()[i as int];
                    assert(self.rows() =~= old(self).rows().update(
                        i as int,
                        Snipe { count: (row.count + 1) as i16, ..row },
                    ));
                }
                return Some(s);
            }
            i += 1;
        }
        None
    }

    /// Removes the row of a claimed name; returns whether there was one.
    pub fn delete(&mut self, username: &str) -> (r: bool)
        ensures
            r == (exists|j: int|
                0 <= j < old(self).rows().len() && (#[trigger] old(self).rows()[j]).username@
                    == username@),
            forall|j: int|
                0 <= j < final(self).rows().len() ==> (#[trigger] final(self).rows()[j]).username@ != username@,
            forall|j: int|
                0 <= j < old(self).rows().len() && (#[trigger] old(self).rows()[j]).username@
                    != username@ ==> final(self).rows().contains(old(self).rows()[j]),
            forall|s: Snipe| #[trigger] final(self).rows().contains(s) ==> old(self).rows().contains(s),
    {
        let mut kept: Vec<Snipe> = Vec::new();
        let mut found = false;
        let ghost start = self.rows();
        let mut rows: Vec<Snipe> = Vec::new();
        core::mem::swap(&mut rows, &mut self.rows);
        let mut i: usize = 0;
        let n = rows.len();
        proof {
            assert(rows@.take(n as int) =~= rows@);
        }
        while i < n
            invariant
                n == start.len(),
                rows@.len() == n - i,
                rows@ == start.take(n - i),
                i <= n,
                found == (exists|j: int| n - i <= j < n && (#[trigger] start[j]).username@ == username@),
                forall|k: int| 0 <= k < kept@.len() ==> (#[trigger] kept@[k]).username@ != username@,
                forall|j: int|
                    n - i <= j < n && (#[trigger] start[j]).username@ != username@
                        ==> kept@.contains(start[j]),
                forall|s: Snipe| #[trigger] kept@.contains(s) ==> start.contains(s),
            decreases n - i,
        {
            let ghost kept0 = kept@;
            let row = rows.pop().unwrap();
            proof {
                assert(row == start[n - 1 - i]);
                assert(start.contains(row));
            }
            if crate::status::str_equal(row.username.as_str(), username) {
                found = true;
            } else {
                kept.push(row);
                proof {
                    assert(kept@.last() == start[n - 1 - i]);
                }
            }
            proof {
                assert forall|x: Snipe| #[trigger] kept@.contains(x) implies start.contains(x) by {
                    let k = choose|k: int| 0 <= k < kept@.len() && kept@[k] == x;
                    if k < kept0.len() {
                        assert(kept0[k] == x);
                        assert(kept0.contains(x));
                    }
                }
                assert forall|j: int|
                    n - (i + 1) <= j < n && (#[trigger] start[j]).username@ != username@
                        implies kept@.contains(start[j]) by {
                    if j == n - 1 - i {
                        assert(kept@.last() == start[j]);
                    } else {
                        let k = choose|k: int| 0 <= k < kept0.len() && kept0[k] == start[j];
                        assert(kept@[k] == start[j]);
                    }
                }
            }
            i += 1;
        }
        self.rows = kept;
        found
    }

    /// Frees every slot, as done once when the engine starts.
    pub fn reset(&mut self)
        ensures
            final(self).rows().len() == old(self).rows().len(),
            forall|j: int|
                0 <= j < old(self).rows().len() ==> #[trigger] final(self).rows()[j] == (Snipe {
                    count: 0,
                    ..old(self).rows()[j]
                }),
    {
        let mut i: usize = 0;
        while i < self.rows.len()
            invariant
                i <= self.rows().len(),
                self.rows().len() == old(self).rows().len(),
                forall|j: int|
                    0 <= j < i ==> #[trigger] self.rows()[j] == (Snipe {
                        count: 0,
                        ..old(self).rows()[j]
                    }),
                forall|j: int| i <= j < self.rows().len() ==> #[trigger] self.rows()[j] == old(self).rows()[j],
            decreases self.rows().len() - i,
        {
            self.rows[i].count = 0;
            i += 1;
        }
    }
}

/// Slot counts stay within bounds: acquiring a slot keeps every row's count
/// within `0..=needed`, and the row it took now counts one more.
pub proof fn lemma_acquire_in_range(before: Seq<Snipe>, i: int, after: Seq<Snipe>)
    requires
        counts_in_range(before),
        0 <= i < before.len(),
        before[i].count < before[i].needed,
        after == before.update(i, Snipe { count: (before[i].count + 1) as i16, ..before[i] }),
    ensures
        counts_in_range(after),
        after[i].count == before[i].count + 1,
        1 <= after[i].count <= after[i].needed,
{
}

} // verus!
