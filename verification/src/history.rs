//! What holds of a provider over all that happens to it.

use vstd::prelude::*;
use crate::circuit::NANOS_PER_SEC;
use crate::exchange::StepView;
use crate::guarantees::{moves, unknown_kid, unknown_kids_claim_the_slot, Event};
use crate::identity::Verdict;
use crate::model::{ProviderModel, UNKNOWN_KID_REFRESH_FLOOR_SECS};

verus! {

// ---------------------------------------------------------------------------
// The slot for refreshes for unknown key ids
// ---------------------------------------------------------------------------

/// One moment in the history of the slot: the stamp before and after it, and
/// whether the slot is asked for.
pub struct Moment {
    pub now: u64,
    pub asked: bool,
    pub before: Option<u64>,
    pub after: Option<u64>,
}

/// Whether the floor has passed since a stamp.
pub open spec fn floor_passed(stamp: Option<u64>, now: u64) -> bool {
    stamp matches Some(at) ==> now >= at + UNKNOWN_KID_REFRESH_FLOOR_SECS * NANOS_PER_SEC
}

/// Whether the slot is granted: the floor has passed since the stamp.
pub open spec fn granted(moment: Moment) -> bool {
    moment.asked && floor_passed(moment.before, moment.now)
}

/// Moments that follow each other: the slot is stamped where it is granted,
/// and its stamp stays as it is otherwise.
pub open spec fn slot_history(moments: Seq<Moment>) -> bool {
    &&& forall|i: int|
        0 <= i < moments.len() ==> (#[trigger] moments[i]).after == if granted(moments[i]) {
            Some(moments[i].now)
        } else {
            moments[i].before
        }
    &&& forall|i: int, j: int|
        #![trigger moments[i], moments[j]]
        0 <= i && j == i + 1 && j < moments.len() ==> moments[j].before == moments[i].after
}

/// The time of the last grant before the moment at `i`, if there was one; or
/// else the stamp that the history starts with.
pub open spec fn last_grant(moments: Seq<Moment>, i: int) -> Option<u64>
    decreases i,
{
    if i <= 0 {
        moments[0].before
    } else if granted(moments[i - 1]) {
        Some(moments[i - 1].now)
    } else {
        last_grant(moments, i - 1)
    }
}

/// The stamp is the time of the last grant.
proof fn lemma_stamp(moments: Seq<Moment>, i: int)
    requires
        slot_history(moments),
        0 <= i < moments.len(),
    ensures
        moments[i].before == last_grant(moments, i),
    decreases i,
{
    if i > 0 {
        lemma_stamp(moments, i - 1);
        assert(moments[i].before == moments[i - 1].after);
    }
}

/// From a grant on, stamps are never before it.
proof fn lemma_stamps_grow(moments: Seq<Moment>, i: int, j: int)
    requires
        slot_history(moments),
        0 <= i < j < moments.len(),
        granted(moments[i]),
    ensures
        moments[j].before matches Some(at) && at >= moments[i].now,
    decreases j,
{
    assert(moments[j].before == moments[j - 1].after);
    if i < j - 1 {
        lemma_stamps_grow(moments, i, j - 1);
    }
}

/// Any two grants are at least the floor apart.
proof fn lemma_grants_spaced(moments: Seq<Moment>, i: int, j: int)
    requires
        slot_history(moments),
        0 <= i < j < moments.len(),
        granted(moments[i]),
        granted(moments[j]),
    ensures
        moments[j].now >= moments[i].now + UNKNOWN_KID_REFRESH_FLOOR_SECS * NANOS_PER_SEC,
{
    lemma_stamps_grow(moments, i, j);
}

// ---------------------------------------------------------------------------
// Claims of the slot
// ---------------------------------------------------------------------------

/// A call that claims the slot.
pub struct Claim {
    pub now: u64,
    pub before: ProviderModel,
    pub after: ProviderModel,
    pub granted: bool,
}

/// The claims on one provider, in order. Whatever else happens in between
/// leaves the stamp alone.
pub open spec fn claims(calls: Seq<Claim>) -> bool {
    &&& forall|i: int|
        0 <= i < calls.len() ==> (#[trigger] calls[i]).before.kid_slot_claimed(
            calls[i].now,
            calls[i].after,
            calls[i].granted,
        )
    &&& forall|i: int, j: int|
        #![trigger calls[i], calls[j]]
        0 <= i && j == i + 1 && j < calls.len() ==> calls[j].before.last_kid_refresh
            == calls[i].after.last_kid_refresh
}

/// The moments that claims are.
pub open spec fn claim_moments(calls: Seq<Claim>) -> Seq<Moment> {
    calls.map_values(
        |c: Claim|
            Moment {
                now: c.now,
                asked: true,
                before: c.before.last_kid_refresh,
                after: c.after.last_kid_refresh,
            },
    )
}

proof fn lemma_claims(calls: Seq<Claim>)
    requires
        claims(calls),
    ensures
        slot_history(claim_moments(calls)),
        forall|i: int|
            0 <= i < calls.len() ==> granted(claim_moments(calls)[i]) == (
            #[trigger] calls[i]).granted,
{
    let moments = claim_moments(calls);
    assert forall|i: int| 0 <= i < calls.len() implies granted(moments[i]) == (
    #[trigger] calls[i]).granted && moments[i].after == if granted(moments[i]) {
        Some(moments[i].now)
    } else {
        moments[i].before
    } by {
        assert(calls[i].before.kid_slot_claimed(calls[i].now, calls[i].after, calls[i].granted));
    }
    assert forall|i: int, j: int|
        #![trigger moments[i], moments[j]]
        0 <= i && j == i + 1 && j < moments.len() implies moments[j].before
        == moments[i].after by {
        assert(calls[j].before.last_kid_refresh == calls[i].after.last_kid_refresh);
    }
}

/// A claim is granted exactly where none was granted before, or the last one
/// that was is at least the floor ago. One that is granted stamps the slot
/// with its time, one that is not leaves the stamp as it is.
pub proof fn claims_are_granted_once_per_floor(calls: Seq<Claim>, i: int)
    requires
        claims(calls),
        0 <= i < calls.len(),
    ensures
        calls[i].granted <==> floor_passed(last_grant(claim_moments(calls), i), calls[i].now),
        calls[i].after.last_kid_refresh == if calls[i].granted {
            Some(calls[i].now)
        } else {
            calls[i].before.last_kid_refresh
        },
{
    lemma_claims(calls);
    lemma_stamp(claim_moments(calls), i);
    assert(granted(claim_moments(calls)[i]) == calls[i].granted);
}

/// Within any period as long as the floor, one claim at most is granted.
pub proof fn granted_claims_are_spaced(calls: Seq<Claim>, i: int, j: int)
    requires
        claims(calls),
        0 <= i < j < calls.len(),
        calls[i].granted,
        calls[j].granted,
    ensures
        calls[j].now >= calls[i].now + UNKNOWN_KID_REFRESH_FLOOR_SECS * NANOS_PER_SEC,
{
    lemma_claims(calls);
    assert(granted(claim_moments(calls)[i]) && granted(claim_moments(calls)[j]));
    lemma_grants_spaced(claim_moments(calls), i, j);
}

// ---------------------------------------------------------------------------
// Events
// ---------------------------------------------------------------------------

/// An event at a provider.
pub struct Occurrence {
    pub event: Event,
    pub now: u64,
    pub before: ProviderModel,
    pub after: ProviderModel,
    pub step: StepView,
}

/// All that happens to a provider, in order: tokens and replies of any number
/// of verifications. In between, notices may be taken.
pub open spec fn history(events: Seq<Occurrence>) -> bool {
    &&& forall|i: int|
        0 <= i < events.len() ==> moves(
            (#[trigger] events[i]).before,
            events[i].event,
            events[i].now,
            events[i].after,
            events[i].step,
        )
    &&& forall|i: int, j: int|
        #![trigger events[i], events[j]]
        0 <= i && j == i + 1 && j < events.len() ==> events[j].before == (ProviderModel {
            notices: events[j].before.notices,
            ..events[i].after
        })
}

/// The key id for which an event asks for a refresh.
pub open spec fn kid_asked_for(e: Occurrence) -> Option<Seq<char>> {
    unknown_kid(e.before, e.event, e.now)
}

/// The moments that events are.
pub open spec fn event_moments(events: Seq<Occurrence>) -> Seq<Moment> {
    events.map_values(
        |e: Occurrence|
            Moment {
                now: e.now,
                asked: kid_asked_for(e) is Some,
                before: e.before.last_kid_refresh,
                after: e.after.last_kid_refresh,
            },
    )
}

proof fn lemma_history(events: Seq<Occurrence>)
    requires
        history(events),
    ensures
        slot_history(event_moments(events)),
{
    let moments = event_moments(events);
    assert forall|i: int| 0 <= i < moments.len() implies (#[trigger] moments[i]).after
        == if granted(moments[i]) {
        Some(moments[i].now)
    } else {
        moments[i].before
    } by {
        let e = events[i];
        unknown_kids_claim_the_slot(e.before, e.event, e.now, e.after, e.step);
    }
    assert forall|i: int, j: int|
        #![trigger moments[i], moments[j]]
        0 <= i && j == i + 1 && j < moments.len() implies moments[j].before
        == moments[i].after by {
        assert(events[j].before.last_kid_refresh == events[i].after.last_kid_refresh);
    }
}

/// Whether a refresh for an unknown key id is begun.
pub open spec fn begins_kid_refresh(e: Occurrence) -> bool {
    e.after.last_kid_refresh != e.before.last_kid_refresh
}

/// Over all that happens to a provider, a token whose key id is unknown begins
/// a refresh exactly where none was begun before, or the last one that was is
/// at least the floor ago, whatever came of it. Otherwise it is refused.
pub proof fn kid_refreshes_begin_once_per_floor(events: Seq<Occurrence>, i: int)
    requires
        history(events),
        0 <= i < events.len(),
    ensures
        begins_kid_refresh(events[i]) <==> kid_asked_for(events[i]) is Some && floor_passed(
            last_grant(event_moments(events), i),
            events[i].now,
        ),
        begins_kid_refresh(events[i]) ==> events[i].after.last_kid_refresh == Some(events[i].now),
        begins_kid_refresh(events[i]) <==> granted(event_moments(events)[i]),
        kid_asked_for(events[i]) matches Some(kid) ==> begins_kid_refresh(events[i])
            || events[i].step == StepView::Done(
            Verdict::Invalid("no key for kid '"@ + kid + "' (refresh rate-limited)"@),
        ),
{
    let e = events[i];
    lemma_history(events);
    lemma_stamp(event_moments(events), i);
    unknown_kids_claim_the_slot(e.before, e.event, e.now, e.after, e.step);
}

/// Within any period as long as the floor, a provider begins one refresh for
/// an unknown key id at most, whatever tokens and replies come.
pub proof fn begun_kid_refreshes_are_spaced(events: Seq<Occurrence>, i: int, j: int)
    requires
        history(events),
        0 <= i < j < events.len(),
        begins_kid_refresh(events[i]),
        begins_kid_refresh(events[j]),
    ensures
        events[j].now >= events[i].now + UNKNOWN_KID_REFRESH_FLOOR_SECS * NANOS_PER_SEC,
{
    kid_refreshes_begin_once_per_floor(events, i);
    kid_refreshes_begin_once_per_floor(events, j);
    lemma_history(events);
    lemma_grants_spaced(event_moments(events), i, j);
}

} // verus!
