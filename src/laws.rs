use vstd::prelude::*;

use crate::model::{samples_match, KeyView, Sample};
use crate::registry::{after_reset, after_set};
use crate::model::{served_by, Direction, ServerDescriptor};
use crate::scheduler::{aborted, fails_systemically, round_effect, round_result, target_at, ProbeError};

verus! {

/// The contents after a sequence of writes, applied in order.
pub open spec fn after_writes(m: Map<KeyView, u64>, writes: Seq<(KeyView, u64)>) -> Map<KeyView, u64>
    decreases writes.len(),
{
    if writes.len() == 0 {
        m
    } else {
        after_set(after_writes(m, writes.drop_last()), writes.last().0, writes.last().1)
    }
}

/// Resetting twice in a row leaves the registry empty both times, and a snapshot
/// taken afterwards lists no entry.
pub proof fn reset_is_idempotent(m: Map<KeyView, u64>, snap: Seq<Sample>)
    requires
        samples_match(snap, after_reset(after_reset(m))),
    ensures
        after_reset(m) == Map::<KeyView, u64>::empty(),
        after_reset(after_reset(m)) == Map::<KeyView, u64>::empty(),
        snap.len() == 0,
{
    if snap.len() > 0 {
        assert(after_reset(after_reset(m)).contains_key(snap[0].key@));
    }
}

/// A snapshot taken right after `set(k, v)` holds `k` mapped to `v`.
pub proof fn set_then_snapshot(m: Map<KeyView, u64>, k: KeyView, v: u64, snap: Seq<Sample>)
    requires
        samples_match(snap, after_set(m, k, v)),
    ensures
        exists|i: int| 0 <= i < snap.len() && snap[i].key@ == k && snap[i].value == v,
{
    assert(after_set(m, k, v).contains_key(k));
}

proof fn writes_without_key(writes: Seq<(KeyView, u64)>, k: KeyView)
    requires
        forall|i: int| 0 <= i < writes.len() ==> (#[trigger] writes[i]).0 != k,
    ensures
        !after_writes(Map::empty(), writes).contains_key(k),
    decreases writes.len(),
{
    if writes.len() > 0 {
        let earlier = writes.drop_last();
        assert forall|i: int| 0 <= i < earlier.len() implies (#[trigger] earlier[i]).0 != k by {
            assert(earlier[i] == writes[i]);
        }
        writes_without_key(earlier, k);
        assert(writes[writes.len() - 1].0 != k);
    }
}

/// After a reset, a key comes back into a snapshot only through a new write of it:
/// a snapshot taken after any writes of other keys does not list it.
pub proof fn reset_forgets_keys(m: Map<KeyView, u64>, writes: Seq<(KeyView, u64)>, k: KeyView, snap: Seq<Sample>)
    requires
        forall|i: int| 0 <= i < writes.len() ==> (#[trigger] writes[i]).0 != k,
        samples_match(snap, after_writes(after_reset(m), writes)),
    ensures
        forall|i: int| 0 <= i < snap.len() ==> (#[trigger] snap[i]).key@ != k,
{
    writes_without_key(writes, k);
    assert forall|i: int| 0 <= i < snap.len() implies (#[trigger] snap[i]).key@ != k by {
        assert(after_writes(after_reset(m), writes).contains_key(snap[i].key@));
    }
}

proof fn aborted_round_is_empty(
    m: Map<KeyView, u64>,
    servers: Seq<ServerDescriptor>,
    outcomes: Seq<Result<u64, ProbeError>>,
)
    requires
        aborted(outcomes),
    ensures
        round_effect(m, servers, outcomes) == Map::<KeyView, u64>::empty(),
    decreases outcomes.len(),
{
    let earlier = outcomes.drop_last();
    if aborted(earlier) {
        aborted_round_is_empty(m, servers, earlier);
    } else {
        let i = choose|i: int| 0 <= i < outcomes.len() && #[trigger] fails_systemically(outcomes[i]);
        if i < earlier.len() {
            assert(fails_systemically(earlier[i]));
        }
        assert(fails_systemically(outcomes.last()));
    }
}

/// Once a measurement of a round fails systemically, the registry is empty when the
/// round ends, whatever it held before and whatever the round wrote earlier.
pub proof fn systemic_failure_clears(
    m: Map<KeyView, u64>,
    servers: Seq<ServerDescriptor>,
    outcomes: Seq<Result<u64, ProbeError>>,
)
    requires
        aborted(outcomes),
    ensures
        round_result(m, servers, outcomes) == Map::<KeyView, u64>::empty(),
{
    aborted_round_is_empty(m, servers, outcomes);
}

proof fn measured_series_present(
    m: Map<KeyView, u64>,
    servers: Seq<ServerDescriptor>,
    outcomes: Seq<Result<u64, ProbeError>>,
)
    requires
        !aborted(outcomes),
    ensures
        forall|j: int| 0 <= j < outcomes.len() ==> round_effect(m, servers, outcomes).contains_key(
            #[trigger] target_at(servers, j),
        ),
    decreases outcomes.len(),
{
    if outcomes.len() > 0 {
        let earlier = outcomes.drop_last();
        assert(!aborted(earlier)) by {
            if aborted(earlier) {
                let i = choose|i: int| 0 <= i < earlier.len() && #[trigger] fails_systemically(earlier[i]);
                assert(fails_systemically(outcomes[i]));
            }
        }
        assert(!fails_systemically(outcomes[outcomes.len() - 1]));
        measured_series_present(m, servers, earlier);
    }
}

/// A round that measured every server without a systemic failure leaves exactly the
/// series of its servers, both directions of each, in the registry.
pub proof fn completed_round_keeps_its_series(
    m: Map<KeyView, u64>,
    servers: Seq<ServerDescriptor>,
    outcomes: Seq<Result<u64, ProbeError>>,
)
    requires
        outcomes.len() == 2 * servers.len(),
        !aborted(outcomes),
    ensures
        round_result(m, servers, outcomes).dom() == served_by(servers),
{
    measured_series_present(m, servers, outcomes);
    let r = round_result(m, servers, outcomes);
    assert forall|k: KeyView| served_by(servers).contains(k) implies #[trigger] r.contains_key(k) by {
        let i = choose|i: int| 0 <= i < servers.len() && servers[i].country@ == k.1 && servers[i].host@ == k.2;
        let j = if k.0 == Direction::Download { 2 * i } else { 2 * i + 1 };
        assert(j / 2 == i && (j % 2 == 0) == (k.0 == Direction::Download));
        assert(target_at(servers, j) == k);
    }
    assert(r.dom() =~= served_by(servers));
}

} // verus!
