use vstd::prelude::*;
use crate::names::{claim_post, name_views, NameTable, Tier, CLAIM_BATCH};

verus! {

/// Draws the next name of the high tier.
pub trait HighPrioritySource {
    fn next_high(&mut self) -> Option<String>;
}

/// Draws the next name of the medium tier.
pub trait MediumPrioritySource {
    fn next_medium(&mut self) -> Option<String>;
}

/// Draws the next name of the low tier.
pub trait LowPrioritySource {
    fn next_low(&mut self) -> Option<String>;
}

/// A worker's claimed but not yet probed names, one stack per tier.
pub struct WorkBuffers {
    high: Vec<String>,
    medium: Vec<String>,
    low: Vec<String>,
}

impl WorkBuffers {
    /// The names waiting in a tier's buffer; the last is handed out first.
    pub closed spec fn pending(&self, tier: Tier) -> Seq<Seq<char>> {
        match tier {
            Tier::High => name_views(self.high@),
            Tier::Medium => name_views(self.medium@),
            Tier::Low => name_views(self.low@),
        }
    }

    /// Three empty buffers.
    pub fn new() -> (r: WorkBuffers)
        ensures
            forall|t: Tier| #[trigger] r.pending(t) == Seq::<Seq<char>>::empty(),
    {
        let r = WorkBuffers { high: Vec::new(), medium: Vec::new(), low: Vec::new() };
        proof {
            assert(name_views(r.high@) =~= Seq::<Seq<char>>::empty());
            assert(name_views(r.medium@) =~= Seq::<Seq<char>>::empty());
            assert(name_views(r.low@) =~= Seq::<Seq<char>>::empty());
        }
        r
    }

    /// Whether a tier's buffer is empty and needs a refill.
    pub fn is_empty(&self, tier: Tier) -> (r: bool)
        ensures
            r == (self.pending(tier).len() == 0),
    {
        match tier {
            Tier::High => self.high.len() == 0,
            Tier::Medium => self.medium.len() == 0,
            Tier::Low => self.low.len() == 0,
        }
    }

    /// Replaces a tier's buffer with a freshly claimed batch.
    pub fn refill(&mut self, tier: Tier, names: Vec<String>)
        ensures
            final(self).pending(tier) == name_views(names@),
            forall|t: Tier| t != tier ==> #[trigger] final(self).pending(t) == old(self).pending(t),
    {
        match tier {
            Tier::High => {
                self.high = names;
            },
            Tier::Medium => {
                self.medium = names;
            },
            Tier::Low => {
                self.low = names;
            },
        }
    }

    /// Hands out the last name of a tier's buffer, or `None` when it is
    /// empty.
    pub fn pop(&mut self, tier: Tier) -> (r: Option<String>)
        ensures
            forall|t: Tier| t != tier ==> #[trigger] final(self).pending(t) == old(self).pending(t),
            old(self).pending(tier).len() == 0 ==> r is None && final(self).pending(tier) == old(self).pending(tier),
            old(self).pending(tier).len() > 0 ==> r is Some && r->0@ == old(self).pending(
                tier,
            ).last() && final(self).pending(tier) == old(self).pending(tier).drop_last(),
    {
        let ghost before = match tier {
            Tier::High => self.high@,
            Tier::Medium => self.medium@,
            Tier::Low => self.low@,
        };
        let r = match tier {
            Tier::High => self.high.pop(),
            Tier::Medium => self.medium.pop(),
            Tier::Low => self.low.pop(),
        };
        proof {
            if before.len() > 0 {
                assert(name_views(before.drop_last()) =~= name_views(before).drop_last());
            }
        }
        r
    }
}

/// A work source over a name table held in memory, drawing as the
/// database-backed sources do: each tier draws from
/// its buffer and refills it with one claim when it runs dry.
pub struct WorkSource {
    table: NameTable,
    buffers: WorkBuffers,
}

impl WorkSource {
    /// The name table drawn from.
    pub closed spec fn table(&self) -> NameTable {
        self.table
    }

    /// The per-tier buffers.
    pub closed spec fn buffers(&self) -> WorkBuffers {
        self.buffers
    }

    /// Reads the name table.
    pub fn table_ref(&self) -> (r: &NameTable)
        ensures
            *r == self.table(),
    {
        &self.table
    }

    /// A source over `table` with empty buffers.
    pub fn new(table: NameTable) -> (r: WorkSource)
        requires
            table.wf(),
        ensures
            r.table() == table,
            forall|t: Tier| #[trigger] r.buffers().pending(t) == Seq::<Seq<char>>::empty(),
    {
        WorkSource { table, buffers: WorkBuffers::new() }
    }

    /// The next name of `tier`: from the buffer if it holds one; else the
    /// buffer is refilled by claiming up to a batch from the table, and the
    /// last name claimed is handed out. `None` when nothing is claimable.
    pub fn next(&mut self, tier: Tier) -> (r: Option<String>)
        requires
            old(self).table().wf(),
        ensures
            final(self).table().wf(),
            forall|t: Tier| t != tier ==> #[trigger] final(self).buffers().pending(t) == old(self).buffers().pending(t),
            old(self).buffers().pending(tier).len() > 0 ==> {
                &&& final(self).table() == old(self).table()
                &&& r is Some && r->0@ == old(self).buffers().pending(tier).last()
                &&& final(self).buffers().pending(tier) == old(self).buffers().pending(tier).drop_last()
            },
            old(self).buffers().pending(tier).len() == 0 ==> exists|claimed: Seq<Seq<char>>|
                {
                    &&& claim_post(
                        old(self).table().rows(),
                        tier,
                        CLAIM_BATCH,
                        claimed,
                        final(self).table().rows(),
                    )
                    &&& claimed.len() == 0 ==> r is None && final(self).buffers().pending(tier)
                        == claimed
                    &&& claimed.len() > 0 ==> r is Some && r->0@ == claimed.last()
                        && final(self).buffers().pending(tier) == claimed.drop_last()
                },
    {
        if self.buffers.is_empty(tier) {
            let claimed = self.table.claim(tier, CLAIM_BATCH);
            let ghost c = name_views(claimed@);
            self.buffers.refill(tier, claimed);
            let r = self.buffers.pop(tier);
            proof {
                assert(claim_post(old(self).table.rows(), tier, CLAIM_BATCH, c, self.table.rows()));
            }
            r
        } else {
            self.buffers.pop(tier)
        }
    }
}

} // verus!
