//! The per-request result protocol: which event runs a worker may emit
//! for one request, and counting facts about finished runs.

use vstd::prelude::*;
use crate::events::LoadResult;

verus! {

/// An event that ends a request's run.
pub open spec fn is_terminal(e: LoadResult) -> bool {
    e is Done || e is Failed
}

/// Every event of `s` belongs to request `id`.
pub open spec fn all_for(s: Seq<LoadResult>, id: u32) -> bool {
    forall|i: int| 0 <= i < s.len() ==> (#[trigger] s[i]).request_id() == id
}

/// Every event of `s` is a `Frame`.
pub open spec fn frames_only(s: Seq<LoadResult>) -> bool {
    forall|i: int| 0 <= i < s.len() ==> (#[trigger] s[i]) is Frame
}

/// A finished run: either a bare `Failed` (the file's metadata could
/// not be read, so no `Start` was emitted), or a `Start`, zero or more
/// `Frame`s, and one terminal event.
pub open spec fn complete_run(s: Seq<LoadResult>) -> bool {
    ||| (s.len() == 1 && s[0] is Failed)
    ||| (s.len() >= 2 && s[0] is Start && frames_only(s.subrange(1, s.len() - 1)) && is_terminal(
        s.last(),
    ))
}

/// A run still in flight: nothing yet, or a `Start` followed only by
/// frames.
pub open spec fn open_run(s: Seq<LoadResult>) -> bool {
    ||| s.len() == 0
    ||| (s[0] is Start && frames_only(s.skip(1)))
}

/// How many terminal events `s` holds.
pub open spec fn terminal_count(s: Seq<LoadResult>) -> nat
    decreases s.len(),
{
    if s.len() == 0 {
        0
    } else {
        terminal_count(s.drop_last()) + (if is_terminal(s.last()) {
            1nat
        } else {
            0nat
        })
    }
}

/// How many `Start` events `s` holds.
pub open spec fn start_count(s: Seq<LoadResult>) -> nat
    decreases s.len(),
{
    if s.len() == 0 {
        0
    } else {
        start_count(s.drop_last()) + (if s.last() is Start {
            1nat
        } else {
            0nat
        })
    }
}

pub proof fn lemma_terminal_count_none(s: Seq<LoadResult>)
    requires
        forall|i: int| 0 <= i < s.len() ==> !is_terminal(#[trigger] s[i]),
    ensures
        terminal_count(s) == 0,
    decreases s.len(),
{
    if s.len() > 0 {
        assert(forall|i: int|
            0 <= i < s.drop_last().len() ==> (#[trigger] s.drop_last()[i]) == s[i]);
        lemma_terminal_count_none(s.drop_last());
    }
}

pub proof fn lemma_start_count_at_most_head(s: Seq<LoadResult>)
    requires
        forall|i: int| 1 <= i < s.len() ==> !((#[trigger] s[i]) is Start),
    ensures
        start_count(s) <= 1,
    decreases s.len(),
{
    if s.len() == 1 {
        assert(start_count(s.drop_last()) == 0);
    } else if s.len() > 1 {
        assert(forall|i: int|
            0 <= i < s.drop_last().len() ==> (#[trigger] s.drop_last()[i]) == s[i]);
        lemma_start_count_at_most_head(s.drop_last());
        assert(!((s[s.len() - 1]) is Start));
        assert(start_count(s) == start_count(s.drop_last()));
    }
}

/// The protocol invariant of one request's finished run: at most one
/// `Start`, a `Frame` only after a `Start`, exactly one terminal
/// event, and the terminal event last.
pub proof fn lemma_complete_run_shape(s: Seq<LoadResult>)
    requires
        complete_run(s),
    ensures
        start_count(s) <= 1,
        terminal_count(s) == 1,
        s.len() >= 1 && is_terminal(s.last()),
        forall|i: int| 0 <= i < s.len() && (#[trigger] s[i]) is Frame ==> 1 <= i && s[0] is Start,
        forall|i: int| 0 <= i < s.len() - 1 ==> !is_terminal(#[trigger] s[i]),
{
    if s.len() == 1 && s[0] is Failed {
        assert(terminal_count(s.drop_last()) == 0);
        assert(start_count(s.drop_last()) == 0);
    } else {
        assert(forall|i: int|
            1 <= i < s.len() - 1 ==> (#[trigger] s[i]) == s.subrange(1, s.len() - 1)[i - 1]);
        assert(forall|i: int| 0 <= i < s.len() - 1 ==> !is_terminal(#[trigger] s[i]));
        lemma_terminal_count_none(s.drop_last());
        lemma_start_count_at_most_head(s);
        assert(terminal_count(s) == 1);
    }
}

pub proof fn lemma_terminal_count_concat(a: Seq<LoadResult>, b: Seq<LoadResult>)
    ensures
        terminal_count(a + b) == terminal_count(a) + terminal_count(b),
    decreases b.len(),
{
    if b.len() == 0 {
        assert(a + b =~= a);
    } else {
        lemma_terminal_count_concat(a, b.drop_last());
        assert((a + b).drop_last() =~= a + b.drop_last());
        assert((a + b).last() == b.last());
    }
}

/// One terminal event per request: over any batch of finished runs,
/// the pipeline emits exactly as many terminal events as it was given
/// requests, whatever else the runs hold. The count does not depend on
/// how the runs' events interleave in the shared channel, so draining
/// the channel after submitting the batch observes exactly this many
/// terminal events.
pub proof fn lemma_one_terminal_per_request(runs: Seq<Seq<LoadResult>>)
    requires
        forall|i: int| 0 <= i < runs.len() ==> complete_run(#[trigger] runs[i]),
    ensures
        terminal_count(runs.flatten()) == runs.len(),
    decreases runs.len(),
{
    if runs.len() > 0 {
        assert(forall|i: int|
            0 <= i < runs.drop_first().len() ==> (#[trigger] runs.drop_first()[i]) == runs[i + 1]);
        lemma_one_terminal_per_request(runs.drop_first());
        lemma_complete_run_shape(runs.first());
        lemma_terminal_count_concat(runs.first(), runs.drop_first().flatten());
    }
}

} // verus!
