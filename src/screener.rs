use vstd::prelude::*;
use crate::names::name_views;
use crate::text::{ascii_lower_seq, to_ascii_lowercase};

verus! {

/// Names fetched per screening batch.
pub const SCREEN_BATCH: usize = 1_000;

/// Probes run at once.
pub const SCREEN_CONCURRENCY: usize = 25;

/// More retried names than this pause the screener.
pub const RETRY_PAUSE_THRESHOLD: usize = 100;

/// The pause after a batch with too many retries, in milliseconds.
pub const PAUSE_MS: u64 = 300_000;

/// The least time between two batches, in milliseconds.
pub const MIN_BATCH_PERIOD_MS: u64 = 2_000;

/// What a `HEAD` on a name's head image suggests.
#[derive(Clone, Copy, Debug, PartialEq, Eq, Structural)]
pub enum ScreenVerdict {
    /// An `ETag` came back: a skin exists, the name is taken.
    Taken,
    /// A 2xx without `ETag`: the name looks free.
    Available,
    /// Anything else: ask again later.
    Retry,
}

/// What a `HEAD` reply means: its HTTP status (`None`: no reply) and
/// whether it carried an `ETag`.
pub open spec fn spec_classify(code: Option<u16>, has_etag: bool) -> ScreenVerdict {
    match code {
        None => ScreenVerdict::Retry,
        Some(c) => if has_etag {
            ScreenVerdict::Taken
        } else if 200 <= c <= 299 {
            ScreenVerdict::Available
        } else {
            ScreenVerdict::Retry
        },
    }
}

/// Reads a `HEAD` reply.
pub fn classify_head(code: Option<u16>, has_etag: bool) -> (r: ScreenVerdict)
    ensures
        r == spec_classify(code, has_etag),
{
    match code {
        None => ScreenVerdict::Retry,
        Some(c) => if has_etag {
            ScreenVerdict::Taken
        } else if 200 <= c && c <= 299 {
            ScreenVerdict::Available
        } else {
            ScreenVerdict::Retry
        },
    }
}

/// One batch's results sorted into buckets: lowercase names for the
/// available pass and for the taken pass, and a count of names to ask
/// about again.
pub struct ScreenBatch {
    pub available: Vec<String>,
    pub taken: Vec<String>,
    pub retried: usize,
}

/// The lowercased names of the results with verdict `v`, in order.
pub open spec fn bucket(results: Seq<(Seq<char>, ScreenVerdict)>, v: ScreenVerdict) -> Seq<Seq<char>>
    decreases results.len(),
{
    if results.len() == 0 {
        Seq::empty()
    } else {
        let rest = bucket(results.drop_last(), v);
        if results.last().1 == v {
            rest.push(ascii_lower_seq(results.last().0))
        } else {
            rest
        }
    }
}

/// The results as character sequences.
pub open spec fn results_view(results: Seq<(String, ScreenVerdict)>) -> Seq<(Seq<char>, ScreenVerdict)> {
    results.map_values(|p: (String, ScreenVerdict)| (p.0@, p.1))
}

/// Splits a batch's results into the two submit passes and a retry count.
pub fn partition(results: &Vec<(String, ScreenVerdict)>) -> (r: ScreenBatch)
    ensures
        name_views(r.available@) == bucket(results_view(results@), ScreenVerdict::Available),
        name_views(r.taken@) == bucket(results_view(results@), ScreenVerdict::Taken),
        r.retried == bucket(results_view(results@), ScreenVerdict::Retry).len(),
{
    let ghost rv = results_view(results@);
    let mut available: Vec<String> = Vec::new();
    let mut taken: Vec<String> = Vec::new();
    let mut retried: usize = 0;
    let mut i: usize = 0;
    proof {
        assert(rv.take(0) =~= Seq::<(Seq<char>, ScreenVerdict)>::empty());
        assert(name_views(available@) =~= Seq::<Seq<char>>::empty());
        assert(name_views(taken@) =~= Seq::<Seq<char>>::empty());
    }
    while i < results.len()
        invariant
            i <= results@.len(),
            rv == results_view(results@),
            name_views(available@) == bucket(rv.take(i as int), ScreenVerdict::Available),
            name_views(taken@) == bucket(rv.take(i as int), ScreenVerdict::Taken),
            retried == bucket(rv.take(i as int), ScreenVerdict::Retry).len(),
            retried <= i,
        decreases results@.len() - i,
    {
        let (name, verdict) = &results[i];
        let ghost before = rv.take(i as int);
        proof {
            assert(rv.take(i + 1).drop_last() =~= before);
            assert(rv.take(i + 1).last() == (name@, *verdict));
        }
        match verdict {
            ScreenVerdict::Available => {
                let ghost a0 = available@;
                available.push(to_ascii_lowercase(name.as_str()));
                proof {
                    assert(name_views(available@) =~= name_views(a0).push(ascii_lower_seq(name@)));
                }
            },
            ScreenVerdict::Taken => {
                let ghost t0 = taken@;
                taken.push(to_ascii_lowercase(name.as_str()));
                proof {
                    assert(name_views(taken@) =~= name_views(t0).push(ascii_lower_seq(name@)));
                }
            },
            ScreenVerdict::Retry => {
                retried = retried + 1;
            },
        }
        i += 1;
    }
    proof {
        assert(rv.take(results@.len() as int) =~= rv);
    }
    ScreenBatch { available, taken, retried }
}

/// How long the screener rests after a batch: five minutes when more than
/// a hundred names must be asked again; else whatever is left of the two
/// seconds since the batch began.
pub fn rest_after_batch(retried: usize, elapsed_ms: u64) -> (r: u64)
    ensures
        retried > RETRY_PAUSE_THRESHOLD ==> r == PAUSE_MS,
        retried <= RETRY_PAUSE_THRESHOLD && elapsed_ms < MIN_BATCH_PERIOD_MS ==> r
            == MIN_BATCH_PERIOD_MS - elapsed_ms,
        retried <= RETRY_PAUSE_THRESHOLD && elapsed_ms >= MIN_BATCH_PERIOD_MS ==> r == 0,
{
    if retried > RETRY_PAUSE_THRESHOLD {
        PAUSE_MS
    } else if elapsed_ms < MIN_BATCH_PERIOD_MS {
        MIN_BATCH_PERIOD_MS - elapsed_ms
    } else {
        0
    }
}

} // verus!
