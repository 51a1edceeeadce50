use vstd::prelude::*;
use crate::status::{Status, spec_bumps_updated_at, spec_screened_available};

verus! {

/// Frequencies are held in millionths: `15_000_000` is a frequency of 15.
pub const HIGH_MIN_FREQUENCY: u64 = 15_000_000;

/// Lowest frequency (in millionths) of the medium tier: 0.01.
pub const MEDIUM_MIN_FREQUENCY: u64 = 10_000;

/// Lowest frequency (in millionths) at which a name without a definition
/// belongs to the low tier: 0.001.
pub const LOW_MIN_FREQUENCY: u64 = 1_000;

/// Most names one refill claims.
pub const CLAIM_BATCH: usize = 100;

/// One row of the name catalog, as the engine reads and writes it.
/// Times are milliseconds since the Unix epoch; `frequency` is in
/// millionths.
pub struct Name {
    pub username: String,
    pub frequency: u64,
    pub has_definition: bool,
    pub status: Status,
    pub updating: bool,
    pub verified_at: i64,
    pub updated_at: i64,
    pub checked_at: i64,
}

/// The three pools a worker draws from, by frequency.
#[derive(Clone, Copy, Debug, PartialEq, Eq, Structural)]
pub enum Tier {
    High,
    Medium,
    Low,
}

/// Whether a name belongs to a tier's pool, whatever its claim.
pub open spec fn spec_tier_admits(tier: Tier, n: Name) -> bool {
    match tier {
        Tier::High => n.frequency >= HIGH_MIN_FREQUENCY,
        Tier::Medium => MEDIUM_MIN_FREQUENCY <= n.frequency < HIGH_MIN_FREQUENCY && n.status
            != Status::BatchTaken,
        Tier::Low => n.frequency < MEDIUM_MIN_FREQUENCY && (n.frequency >= LOW_MIN_FREQUENCY
            || n.has_definition) && n.status != Status::BatchTaken,
    }
}

/// Whether a refill for `tier` may claim the name: it is in the pool and
/// no worker holds it.
pub open spec fn claimable(tier: Tier, n: Name) -> bool {
    !n.updating && spec_tier_admits(tier, n)
}

/// Claim order: oldest verification first, then higher frequency.
pub open spec fn precedes(a: Name, b: Name) -> bool {
    a.verified_at < b.verified_at || (a.verified_at == b.verified_at && a.frequency
        >= b.frequency)
}

/// The tier of the worker at `index`: last digit 0-4 high, 5-7 medium,
/// 8-9 low.
pub open spec fn spec_tier_for_worker(index: int) -> Tier {
    if index % 10 < 5 {
        Tier::High
    } else if index % 10 < 8 {
        Tier::Medium
    } else {
        Tier::Low
    }
}

/// The usernames of a list of names, as character sequences.
pub open spec fn name_views(v: Seq<String>) -> Seq<Seq<char>> {
    v.map_values(|s: String| s@)
}

impl Tier {
    /// The tier of the worker at `index`.
    pub fn for_worker(index: usize) -> (r: Tier)
        ensures
            r == spec_tier_for_worker(index as int),
    {
        let digit = index % 10;
        if digit < 5 {
            Tier::High
        } else if digit < 8 {
            Tier::Medium
        } else {
            Tier::Low
        }
    }

    /// Whether `n` belongs to this tier's pool.
    pub fn admits(self, n: &Name) -> (r: bool)
        ensures
            r == spec_tier_admits(self, *n),
    {
        match self {
            Tier::High => n.frequency >= HIGH_MIN_FREQUENCY,
            Tier::Medium => MEDIUM_MIN_FREQUENCY <= n.frequency && n.frequency
                < HIGH_MIN_FREQUENCY && n.status != Status::BatchTaken,
            Tier::Low => n.frequency < MEDIUM_MIN_FREQUENCY && (n.frequency >= LOW_MIN_FREQUENCY
                || n.has_definition) && n.status != Status::BatchTaken,
        }
    }
}

/// Whether `a` comes no later than `b` in claim order.
fn comes_first(a: &Name, b: &Name) -> (r: bool)
    ensures
        r == precedes(*a, *b),
{
    a.verified_at < b.verified_at || (a.verified_at == b.verified_at && a.frequency
        >= b.frequency)
}

/// What a claim of up to `limit` names of `tier` returning `names` leaves:
/// exactly the rows named are newly held, each was claimable, none is named
/// twice, a short batch means nothing claimable was left, and no claimable
/// row left behind comes before a claimed one.
pub open spec fn claim_post(
    before: Seq<Name>,
    tier: Tier,
    limit: usize,
    names: Seq<Seq<char>>,
    after: Seq<Name>,
) -> bool {
    &&& after.len() == before.len()
    &&& forall|j: int|
        0 <= j < before.len() ==> #[trigger] after[j] == (Name {
            updating: before[j].updating || names.contains(before[j].username@),
            ..before[j]
        })
    &&& forall|j: int|
        0 <= j < before.len() && names.contains((#[trigger] before[j]).username@)
            ==> claimable(tier, before[j])
    &&& forall|k: int| 0 <= k < names.len() ==> drawn_from(before, tier, #[trigger] names[k])
    &&& names.no_duplicates()
    &&& names.len() <= limit
    &&& names.len() < limit ==> forall|j: int|
        0 <= j < before.len() && claimable(tier, #[trigger] before[j])
            ==> names.contains(before[j].username@)
    &&& forall|j: int, k: int|
        0 <= j < before.len() && 0 <= k < before.len() && names.contains(
            (#[trigger] before[j]).username@,
        ) && claimable(tier, #[trigger] before[k]) && !names.contains(
            before[k].username@,
        ) ==> precedes(before[j], before[k])
}

/// Whether `name` is the username of a row of `rows` claimable for `tier`.
pub open spec fn drawn_from(rows: Seq<Name>, tier: Tier, name: Seq<char>) -> bool {
    exists|j: int| 0 <= j < rows.len() && claimable(tier, #[trigger] rows[j]) && rows[j].username@ == name
}

/// What holds midway through a claim: the rows named so far are held and
/// were claimable, none twice, and each comes before every row still
/// claimable.
pub open spec fn claim_progress(
    start: Seq<Name>,
    tier: Tier,
    names: Seq<Seq<char>>,
    rows: Seq<Name>,
) -> bool {
    &&& rows.len() == start.len()
    &&& forall|j: int|
        0 <= j < start.len() ==> #[trigger] rows[j] == (Name {
            updating: start[j].updating || names.contains(start[j].username@),
            ..start[j]
        })
    &&& forall|j: int|
        0 <= j < start.len() && names.contains((#[trigger] start[j]).username@) ==> claimable(
            tier,
            start[j],
        )
    &&& forall|k: int| 0 <= k < names.len() ==> drawn_from(start, tier, #[trigger] names[k])
    &&& names.no_duplicates()
    &&& forall|j: int, k: int|
        0 <= j < start.len() && 0 <= k < start.len() && names.contains(
            (#[trigger] start[j]).username@,
        ) && claimable(tier, #[trigger] rows[k]) ==> precedes(start[j], start[k])
}

proof fn lemma_claim_step(
    start: Seq<Name>,
    tier: Tier,
    names: Seq<Seq<char>>,
    rows: Seq<Name>,
    b: int,
    rows2: Seq<Name>,
)
    requires
        forall|i: int, j: int|
            0 <= i < start.len() && 0 <= j < start.len() && i != j ==> (
            #[trigger] start[i]).username@ != (#[trigger] start[j]).username@,
        claim_progress(start, tier, names, rows),
        0 <= b < rows.len(),
        claimable(tier, rows[b]),
        forall|k: int|
            0 <= k < rows.len() && claimable(tier, #[trigger] rows[k]) ==> precedes(rows[b], rows[k]),
        rows2 == rows.update(b, Name { updating: true, ..rows[b] }),
    ensures
        claim_progress(start, tier, names.push(start[b].username@), rows2),
{
    let u = start[b].username@;
    let names2 = names.push(u);
    assert(!names.contains(u)) by {
        assert(rows[b] == (Name {
            updating: start[b].updating || names.contains(start[b].username@),
            ..start[b]
        }));
    }
    assert forall|x: Seq<char>| names2.contains(x) <==> (names.contains(x) || x == u) by {
        if names.contains(x) {
            let i = choose|i: int| 0 <= i < names.len() && names[i] == x;
            assert(names2[i] == x);
        }
        if x == u {
            assert(names2[names.len() as int] == x);
        }
        if names2.contains(x) {
            let i = choose|i: int| 0 <= i < names2.len() && names2[i] == x;
            if i < names.len() {
                assert(names[i] == x);
            }
        }
    }
    assert forall|j: int| 0 <= j < start.len() implies #[trigger] rows2[j] == (Name {
        updating: start[j].updating || names2.contains(start[j].username@),
        ..start[j]
    }) by {
        assert(rows[j] == (Name {
            updating: start[j].updating || names.contains(start[j].username@),
            ..start[j]
        }));
        if j != b {
            assert(start[j].username@ != u);
        }
    }
    assert forall|j: int|
        0 <= j < start.len() && names2.contains((#[trigger] start[j]).username@) implies claimable(
        tier,
        start[j],
    ) by {
        if start[j].username@ == u && j != b {
            assert(start[j].username@ != start[b].username@);
        }
        assert(rows[b] == (Name {
            updating: start[b].updating || names.contains(start[b].username@),
            ..start[b]
        }));
    }
    assert forall|k: int| 0 <= k < names2.len() implies drawn_from(start, tier, #[trigger] names2[k]) by {
        if k < names.len() {
            assert(names2[k] == names[k]);
        } else {
            assert(rows[b] == (Name {
                updating: start[b].updating || names.contains(start[b].username@),
                ..start[b]
            }));
            assert(claimable(tier, start[b]) && start[b].username@ == names2[k]);
        }
    }
    assert(names2.no_duplicates()) by {
        assert forall|i: int, j: int|
            0 <= i < names2.len() && 0 <= j < names2.len() && i != j implies names2[i]
            != names2[j] by {
            if i < names.len() && j < names.len() {
                assert(names2[i] == names[i] && names2[j] == names[j]);
            } else if i < names.len() {
                assert(names.contains(names2[i]));
            } else {
                assert(names.contains(names2[j]));
            }
        }
    }
    assert forall|j: int, k: int|
        0 <= j < start.len() && 0 <= k < start.len() && names2.contains(
            (#[trigger] start[j]).username@,
        ) && claimable(tier, #[trigger] rows2[k]) implies precedes(start[j], start[k]) by {
        assert(k != b);
        assert(rows2[k] == rows[k]);
        if names.contains(start[j].username@) {
        } else {
            assert(start[j].username@ == u);
            if j != b {
                assert(start[j].username@ != start[b].username@);
            }
            assert(rows[b] == (Name {
                updating: start[b].updating || names.contains(start[b].username@),
                ..start[b]
            }));
            assert(rows[k] == (Name {
                updating: start[k].updating || names.contains(start[k].username@),
                ..start[k]
            }));
            assert(precedes(rows[b], rows[k]));
        }
    }
}

proof fn lemma_claim_finished(
    start: Seq<Name>,
    tier: Tier,
    limit: usize,
    names: Seq<Seq<char>>,
    rows: Seq<Name>,
)
    requires
        claim_progress(start, tier, names, rows),
        names.len() <= limit,
        names.len() < limit ==> forall|k: int|
            0 <= k < rows.len() ==> !claimable(tier, #[trigger] rows[k]),
    ensures
        claim_post(start, tier, limit, names, rows),
{
    assert forall|j: int|
        0 <= j < start.len() && claimable(tier, #[trigger] start[j]) && !names.contains(
            start[j].username@,
        ) implies claimable(tier, rows[j]) by {
        assert(rows[j] == (Name {
            updating: start[j].updating || names.contains(start[j].username@),
            ..start[j]
        }));
    }
    assert forall|j: int, k: int|
        0 <= j < start.len() && 0 <= k < start.len() && names.contains(
            (#[trigger] start[j]).username@,
        ) && claimable(tier, #[trigger] start[k]) && !names.contains(
            start[k].username@,
        ) implies precedes(start[j], start[k]) by {
        assert(claimable(tier, rows[k]));
    }
    if names.len() < limit {
        assert forall|j: int|
            0 <= j < start.len() && claimable(tier, #[trigger] start[j]) implies names.contains(
            start[j].username@,
        ) by {
            if !names.contains(start[j].username@) {
                assert(claimable(tier, rows[j]));
            }
        }
    }
}

/// What recording a verdict leaves: with no row for `username`, nothing
/// changes and the result is `None`; else that row alone changes as the
/// verdict rule says, and the result tells whether `updated_at` moved and
/// the row's frequency.
pub open spec fn submit_post(
    before: Seq<Name>,
    username: Seq<char>,
    status: Status,
    now: i64,
    r: Option<(bool, u64)>,
    after: Seq<Name>,
) -> bool {
    match r {
        None => after == before && forall|j: int|
            0 <= j < before.len() ==> (#[trigger] before[j]).username@ != username,
        Some((changed, frequency)) => exists|i: int|
            0 <= i < before.len() && (#[trigger] before[i]).username@ == username && {
                let prev = before[i];
                &&& changed == spec_bumps_updated_at(prev.status, status)
                &&& frequency == prev.frequency
                &&& after == before.update(
                    i,
                    Name {
                        status: status,
                        verified_at: now,
                        updating: false,
                        updated_at: if changed {
                            now
                        } else {
                            prev.updated_at
                        },
                        ..prev
                    },
                )
            },
    }
}

/// A row after a screener pass at `now` over `names`, `available` telling
/// which of the two passes.
pub open spec fn screened_row(n: Name, names: Seq<Seq<char>>, available: bool, now: i64) -> Name {
    if names.contains(n.username@) {
        Name {
            status: if available {
                spec_screened_available(n.status)
            } else {
                Status::BatchTaken
            },
            checked_at: now,
            ..n
        }
    } else {
        n
    }
}

/// What a screener pass leaves: each row as `screened_row` says.
pub open spec fn screen_post(
    before: Seq<Name>,
    names: Seq<Seq<char>>,
    available: bool,
    now: i64,
    after: Seq<Name>,
) -> bool {
    &&& after.len() == before.len()
    &&& forall|j: int|
        0 <= j < before.len() ==> #[trigger] after[j] == screened_row(before[j], names, available, now)
}

/// Whether `names` holds `u`.
pub fn contains_name(names: &Vec<String>, u: &str) -> (r: bool)
    ensures
        r == name_views(names@).contains(u@),
{
    let mut i: usize = 0;
    while i < names.len()
        invariant
            i <= names@.len(),
            forall|k: int| 0 <= k < i ==> (#[trigger] names@[k])@ != u@,
        decreases names@.len() - i,
    {
        if crate::status::str_equal(names[i].as_str(), u) {
            proof {
                assert(name_views(names@)[i as int] == u@);
            }
            return true;
        }
        i += 1;
    }
    proof {
        if name_views(names@).contains(u@) {
            let k = choose|k: int| 0 <= k < name_views(names@).len() && name_views(names@)[k] == u@;
            assert(names@[k]@ == u@);
        }
    }
    false
}

/// Claim exclusivity: two claims with no verdict between them never hand
/// out the same name, whatever tiers and limits they use.
pub proof fn lemma_claims_exclusive(
    before: Seq<Name>,
    tier1: Tier,
    limit1: usize,
    first: Seq<Seq<char>>,
    mid: Seq<Name>,
    tier2: Tier,
    limit2: usize,
    second: Seq<Seq<char>>,
    after: Seq<Name>,
)
    requires
        claim_post(before, tier1, limit1, first, mid),
        claim_post(mid, tier2, limit2, second, after),
    ensures
        forall|x: Seq<char>| first.contains(x) ==> !second.contains(x),
{
    assert forall|x: Seq<char>| first.contains(x) implies !second.contains(x) by {
        if second.contains(x) {
            let k = choose|k: int| 0 <= k < second.len() && second[k] == x;
            assert(drawn_from(mid, tier2, second[k]));
            let j = choose|j: int|
                0 <= j < mid.len() && claimable(tier2, #[trigger] mid[j]) && mid[j].username@ == x;
            assert(mid[j] == (Name {
                updating: before[j].updating || first.contains(before[j].username@),
                ..before[j]
            }));
        }
    }
}

/// Downgrade safety: the screener's "no profile" pass never overwrites an
/// authoritative `Available` or `Banned`.
pub proof fn lemma_screen_keeps_authoritative(
    before: Seq<Name>,
    names: Seq<Seq<char>>,
    now: i64,
    after: Seq<Name>,
)
    requires
        screen_post(before, names, true, now, after),
    ensures
        forall|j: int|
            0 <= j < before.len() && ((#[trigger] before[j]).status == Status::Available
                || before[j].status == Status::Banned) ==> after[j].status == before[j].status,
{
    assert forall|j: int|
        0 <= j < before.len() && ((#[trigger] before[j]).status == Status::Available
            || before[j].status == Status::Banned) implies after[j].status == before[j].status by {
        assert(after[j] == screened_row(before[j], names, true, now));
    }
}

/// No username occurs twice among `rows`.
pub open spec fn distinct_usernames(rows: Seq<Name>) -> bool {
    forall|i: int, j: int|
        0 <= i < rows.len() && 0 <= j < rows.len() && i != j ==> (#[trigger] rows[i]).username@
            != (#[trigger] rows[j]).username@
}

/// Status-transition discipline: recording a verdict at a time later than
/// the row's `updated_at` moves `updated_at` forward exactly when the
/// status changes, except for `BatchTaken` confirmed as `Taken`; otherwise
/// `updated_at` stays.
pub proof fn lemma_updated_at_discipline(
    before: Seq<Name>,
    i: int,
    status: Status,
    now: i64,
    r: Option<(bool, u64)>,
    after: Seq<Name>,
)
    requires
        distinct_usernames(before),
        0 <= i < before.len(),
        before[i].updated_at < now,
        submit_post(before, before[i].username@, status, now, r, after),
    ensures
        r is Some,
        after[i].updated_at > before[i].updated_at <==> (before[i].status != status && !(
        before[i].status == Status::BatchTaken && status == Status::Taken)),
        after[i].updated_at <= before[i].updated_at ==> after[i].updated_at
            == before[i].updated_at,
        after[i].status == status,
{
    match r {
        None => {
            assert(before[i].username@ != before[i].username@);
        },
        Some((changed, frequency)) => {
            let k = choose|k: int|
                0 <= k < before.len() && (#[trigger] before[k]).username@ == before[i].username@
                    && {
                    let prev = before[k];
                    &&& changed == spec_bumps_updated_at(prev.status, status)
                    &&& frequency == prev.frequency
                    &&& after == before.update(
                        k,
                        Name {
                            status: status,
                            verified_at: now,
                            updating: false,
                            updated_at: if changed {
                                now
                            } else {
                                prev.updated_at
                            },
                            ..prev
                        },
                    )
                };
            assert(k == i);
        },
    }
}

/// The shared name catalog: each username at most once.
pub struct NameTable {
    rows: Vec<Name>,
}

impl NameTable {
    /// The rows, in insertion order.
    pub closed spec fn rows(&self) -> Seq<Name> {
        self.rows@
    }

    /// No username occurs twice.
    pub open spec fn wf(&self) -> bool {
        distinct_usernames(self.rows())
    }

    /// An empty catalog.
    pub fn new() -> (r: NameTable)
        ensures
            r.wf(),
            r.rows() == Seq::<Name>::empty(),
    {
        NameTable { rows: Vec::new() }
    }

    /// Number of rows.
    pub fn len(&self) -> (r: usize)
        ensures
            r == self.rows().len(),
    {
        self.rows.len()
    }

    /// The position of the row for `username`, if there is one.
    pub fn position(&self, username: &str) -> (r: Option<usize>)
        requires
            self.wf(),
        ensures
            r is None ==> forall|j: int|
                0 <= j < self.rows().len() ==> (#[trigger] self.rows()[j]).username@ != username@,
            r matches Some(i) ==> i < self.rows().len() && self.rows()[i as int].username@
                == username@,
    {
        let mut i: usize = 0;
        while i < self.rows.len()
            invariant
                i <= self.rows().len(),
                forall|j: int| 0 <= j < i ==> (#[trigger] self.rows()[j]).username@ != username@,
            decreases self.rows().len() - i,
        {
            if crate::status::str_equal(self.rows[i].username.as_str(), username) {
                return Some(i);
            }
            i += 1;
        }
        None
    }

    /// Adds a row; refused, leaving the table as it was, when its username
    /// is already present.
    pub fn insert(&mut self, n: Name) -> (r: bool)
        requires
            old(self).wf(),
        ensures
            final(self).wf(),
            r == (forall|j: int|
                0 <= j < old(self).rows().len() ==> (#[trigger] old(self).rows()[j]).username@
                    != n.username@),
            r ==> final(self).rows() == old(self).rows().push(n),
            !r ==> final(self).rows() == old(self).rows(),
    {
        match self.position(n.username.as_str()) {
            Some(_) => false,
            None => {
                self.rows.push(n);
                true
            },
        }
    }

    /// Finds the first claimable row for `tier` in claim order.
    fn best_claimable(&self, tier: Tier) -> (r: Option<usize>)
        ensures
            r is None ==> forall|k: int|
                0 <= k < self.rows().len() ==> !claimable(tier, #[trigger] self.rows()[k]),
            r matches Some(b) ==> {
                &&& b < self.rows().len()
                &&& claimable(tier, self.rows()[b as int])
                &&& forall|k: int|
                    0 <= k < self.rows().len() && claimable(tier, #[trigger] self.rows()[k])
                        ==> precedes(self.rows()[b as int], self.rows()[k])
            },
    {
        let mut best: Option<usize> = None;
        let mut i: usize = 0;
        while i < self.rows.len()
            invariant
                i <= self.rows().len(),
                best is None ==> forall|k: int|
                    0 <= k < i ==> !claimable(tier, #[trigger] self.rows()[k]),
                best matches Some(b) ==> {
                    &&& b < i
                    &&& claimable(tier, self.rows()[b as int])
                    &&& forall|k: int|
                        0 <= k < i && claimable(tier, #[trigger] self.rows()[k]) ==> precedes(
                            self.rows()[b as int],
                            self.rows()[k],
                        )
                },
            decreases self.rows().len() - i,
        {
            let row = &self.rows[i];
            if !row.updating && tier.admits(row) {
                match best {
                    None => {
                        best = Some(i);
                    },
                    Some(b) => {
                        if !comes_first(&self.rows[b], row) {
                            best = Some(i);
                        }
                    },
                }
            }
            i += 1;
        }
        best
    }

    /// Claims up to `limit` names of `tier` in one step: the first
    /// claimable rows in claim order are marked as held and their
    /// usernames returned. Nothing else changes.
    pub fn claim(&mut self, tier: Tier, limit: usize) -> (r: Vec<String>)
        requires
            old(self).wf(),
        ensures
            final(self).wf(),
            claim_post(old(self).rows(), tier, limit, name_views(r@), final(self).rows()),
    {
        let ghost start = self.rows@;
        let mut out: Vec<String> = Vec::new();
        loop
            invariant
                self.wf(),
                self.rows().len() == start.len(),
                forall|i: int, j: int|
                    0 <= i < start.len() && 0 <= j < start.len() && i != j ==> (
                    #[trigger] start[i]).username@ != (#[trigger] start[j]).username@,
                out.len() <= limit,
                claim_progress(start, tier, name_views(out@), self.rows()),
            ensures
                self.wf(),
                claim_post(start, tier, limit, name_views(out@), self.rows()),
            decreases limit - out.len(),
        {
            if out.len() >= limit {
                proof {
                    lemma_claim_finished(start, tier, limit, name_views(out@), self.rows());
                }
                break;
            }
            match self.best_claimable(tier) {
                None => {
                    proof {
                        lemma_claim_finished(start, tier, limit, name_views(out@), self.rows());
                    }
                    break;
                },
                Some(b) => {
                    let ghost rows0 = self.rows();
                    let ghost names0 = name_views(out@);
                    self.rows[b].updating = true;
                    let u = self.rows[b].username.clone();
                    out.push(u);
                    proof {
                        assert(name_views(out@) =~= names0.push(start[b as int].username@));
                        lemma_claim_step(start, tier, names0, rows0, b as int, self.rows());
                    }
                },
            }
        }
        out
    }

    /// Records a verdict for `username` at time `now`: the status is set,
    /// the verification time moves to `now`, the claim is released, and
    /// `updated_at` moves to `now` exactly when the status change counts as
    /// one. Returns whether `updated_at` moved and the name's frequency, or
    /// `None`, changing nothing, when no row has that username.
    pub fn submit(&mut self, username: &str, status: Status, now: i64) -> (r: Option<(bool, u64)>)
        requires
            old(self).wf(),
        ensures
            final(self).wf(),
            submit_post(old(self).rows(), username@, status, now, r, final(self).rows()),
    {
        match self.position(username) {
            None => None,
            Some(i) => {
                let prev = self.rows[i].status;
                let changed = Status::bumps_updated_at(prev, status);
                let frequency = self.rows[i].frequency;
                self.rows[i].status = status;
                self.rows[i].verified_at = now;
                self.rows[i].updating = false;
                if changed {
                    self.rows[i].updated_at = now;
                }
                proof {
                    let prev = old(self).rows()[i as int];
                    assert(self.rows() =~= old(self).rows().update(
                        i as int,
                        Name {
                            status: status,
                            verified_at: now,
                            updating: false,
                            updated_at: if changed {
                                now
                            } else {
                                prev.updated_at
                            },
                            ..prev
                        },
                    ));
                    assert(old(self).rows()[i as int].username@ == username@);
                }
                Some((changed, frequency))
            },
        }
    }

    /// The screener's pass over names it found no profile for: each row
    /// named in `names` gets `checked_at = now` and keeps an authoritative
    /// `Available` or `Banned`, else becomes `BatchAvailable`.
    pub fn submit_available(&mut self, names: &Vec<String>, now: i64)
        requires
            old(self).wf(),
        ensures
            final(self).wf(),
            screen_post(old(self).rows(), name_views(names@), true, now, final(self).rows()),
    {
        self.screen(names, true, now)
    }

    /// The screener's pass over names it found a profile for: each row
    /// named in `names` gets `checked_at = now` and becomes `BatchTaken`.
    pub fn submit_unavailable(&mut self, names: &Vec<String>, now: i64)
        requires
            old(self).wf(),
        ensures
            final(self).wf(),
            screen_post(old(self).rows(), name_views(names@), false, now, final(self).rows()),
    {
        self.screen(names, false, now)
    }

    fn screen(&mut self, names: &Vec<String>, available: bool, now: i64)
        requires
            old(self).wf(),
        ensures
            final(self).wf(),
            screen_post(old(self).rows(), name_views(names@), available, now, final(self).rows()),
    {
        let ghost start = self.rows();
        let mut i: usize = 0;
        while i < self.rows.len()
            invariant
                self.rows().len() == start.len(),
                i <= start.len(),
                forall|a: int, b: int|
                    0 <= a < start.len() && 0 <= b < start.len() && a != b ==> (
                    #[trigger] start[a]).username@ != (#[trigger] start[b]).username@,
                forall|j: int|
                    0 <= j < i ==> #[trigger] self.rows()[j] == screened_row(
                        start[j],
                        name_views(names@),
                        available,
                        now,
                    ),
                forall|j: int| i <= j < start.len() ==> #[trigger] self.rows()[j] == start[j],
            decreases start.len() - i,
        {
            if contains_name(names, self.rows[i].username.as_str()) {
                let next = if available {
                    Status::screened_available(self.rows[i].status)
                } else {
                    Status::screened_taken(self.rows[i].status)
                };
                self.rows[i].status = next;
                self.rows[i].checked_at = now;
            }
            i += 1;
        }
        proof {
            assert forall|a: int, b: int|
                0 <= a < self.rows().len() && 0 <= b < self.rows().len() && a != b implies (
                #[trigger] self.rows()[a]).username@ != (#[trigger] self.rows()[b]).username@ by {
                assert(self.rows()[a].username == start[a].username);
                assert(self.rows()[b].username == start[b].username);
            }
        }
    }

    /// Releases every claim, as done once when the engine starts.
    pub fn reset(&mut self)
        requires
            old(self).wf(),
        ensures
            final(self).wf(),
            final(self).rows().len() == old(self).rows().len(),
            forall|j: int|
                0 <= j < old(self).rows().len() ==> #[trigger] final(self).rows()[j] == (Name {
                    updating: false,
                    ..old(self).rows()[j]
                }),
    {
        let ghost start = self.rows();
        let mut i: usize = 0;
        while i < self.rows.len()
            invariant
                self.rows().len() == start.len(),
                i <= start.len(),
                forall|a: int, b: int|
                    0 <= a < start.len() && 0 <= b < start.len() && a != b ==> (
                    #[trigger] start[a]).username@ != (#[trigger] start[b]).username@,
                forall|j: int|
                    0 <= j < i ==> #[trigger] self.rows()[j] == (Name { updating: false, ..start[j] }),
                forall|j: int| i <= j < start.len() ==> #[trigger] self.rows()[j] == start[j],
            decreases start.len() - i,
        {
            self.rows[i].updating = false;
            i += 1;
        }
        proof {
            assert forall|a: int, b: int|
                0 <= a < self.rows().len() && 0 <= b < self.rows().len() && a != b implies (
                #[trigger] self.rows()[a]).username@ != (#[trigger] self.rows()[b]).username@ by {
                assert(self.rows()[a].username == start[a].username);
                assert(self.rows()[b].username == start[b].username);
            }
        }
    }

    /// Reads the row at `i`.
    pub fn get(&self, i: usize) -> (r: &Name)
        requires
            i < self.rows().len(),
        ensures
            *r == self.rows()[i as int],
    {
        &self.rows[i]
    }
}

} // verus!
