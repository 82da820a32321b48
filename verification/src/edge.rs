//! Rules that an exact Generation edge must satisfy before anything is staged.
use vstd::prelude::*;
use vstd::string::*;

use crate::canonical::CanonicalDocument;
use crate::error::{rejected, rejected_about, rejection, ControlPlaneError};
use crate::generation::{identity_facts, same_identity, ResolvedGeneration};
use crate::model::{AppGenerationTransitionSpec, ReplacementMode, StateCompatibilityReceipt, StatefulRuntimeIdentity};
use crate::text;
use crate::text::{opt_str, opt_text, text_lt, texts, TextOrder};
use crate::text_map::TextMap;

verus! {

/// Why a transition does not close over its candidate and the fenced active Generation.
pub open spec fn edge_fault(
    app_id: Seq<char>,
    active: Option<Seq<char>>,
    edge: AppGenerationTransitionSpec,
    candidate: ResolvedGeneration,
) -> Option<Seq<char>> {
    if edge.schema_version != 1 || edge.app_id@ != app_id || candidate.spec.typed().app_id@ != app_id
        || edge.to_generation_spec_digest@ != candidate.digest() {
        Some("transition authority does not close over the candidate Generation"@)
    } else if opt_text(edge.from_generation_spec_digest) != active {
        Some("transition predecessor does not match the fenced active Generation"@)
    } else if edge.replacement_mode == ReplacementMode::Initial {
        if active is Some {
            Some("initial transition requires no predecessor"@)
        } else if edge.state_compatibility_receipt_digests@.len() > 0
            || edge.rollout_policy.automatic_rollback_on_generation_failure {
            Some("initial transition cannot use compatibility or rollback authority"@)
        } else {
            None
        }
    } else if active is None {
        Some("replacement transition requires one active predecessor"@)
    } else {
        None
    }
}

/// Checks that a transition closes over its candidate and the fenced active Generation.
pub fn validate_edge(
    app_id: &str,
    active: Option<&str>,
    edge: &AppGenerationTransitionSpec,
    candidate: &ResolvedGeneration,
) -> (r: Result<(), ControlPlaneError>)
    ensures
        match edge_fault(app_id@, opt_str(active), *edge, *candidate) {
            Some(detail) => r matches Err(error) && error@ == rejection(detail),
            None => r is Ok,
        },
{
    if edge.schema_version != 1 || !text::same(edge.app_id.as_str(), app_id) || !text::same(
        candidate.spec.value().app_id.as_str(),
        app_id,
    ) || !text::same(edge.to_generation_spec_digest.as_str(), candidate.spec.digest()) {
        return Err(rejected("transition authority does not close over the candidate Generation"));
    }
    let same_predecessor = match (&edge.from_generation_spec_digest, active) {
        (Some(from), Some(active)) => text::same(from.as_str(), active),
        (None, None) => true,
        _ => false,
    };
    if !same_predecessor {
        return Err(rejected("transition predecessor does not match the fenced active Generation"));
    }
    match edge.replacement_mode {
        ReplacementMode::Initial => {
            if active.is_some() {
                return Err(rejected("initial transition requires no predecessor"));
            }
            if edge.state_compatibility_receipt_digests.len() > 0
                || edge.rollout_policy.automatic_rollback_on_generation_failure {
                return Err(rejected("initial transition cannot use compatibility or rollback authority"));
            }
            Ok(())
        },
        ReplacementMode::Overlap | ReplacementMode::Maintenance => {
            if active.is_none() {
                return Err(rejected("replacement transition requires one active predecessor"));
            }
            Ok(())
        },
    }
}

/// Supplied receipts by their content identity.
pub type Receipts = TextMap<CanonicalDocument<StateCompatibilityReceipt>>;

/// The Instance that a supplied receipt is about.
pub open spec fn receipt_instance(receipts: Receipts, i: int) -> Seq<char> {
    receipts.entries()[i].1.typed().module_instance_key@
}

/// The receipt at `i` is the first one about an Instance.
pub open spec fn is_first_receipt(receipts: Receipts, key: Seq<char>, i: int) -> bool {
    &&& 0 <= i < receipts.entries().len()
    &&& receipt_instance(receipts, i) == key
    &&& forall|j: int| 0 <= j < i ==> #[trigger] receipt_instance(receipts, j) != key
}

/// Some receipt is about the Instance.
pub open spec fn has_receipt(receipts: Receipts, key: Seq<char>) -> bool {
    exists|i: int| is_first_receipt(receipts, key, i)
}

/// The first receipt about an Instance.
pub open spec fn first_receipt(receipts: Receipts, key: Seq<char>) -> CanonicalDocument<StateCompatibilityReceipt> {
    receipts.entries()[choose|i: int| is_first_receipt(receipts, key, i)].1
}

/// The edge keeps a way back to code that reads what the new code wrote.
pub open spec fn keeps_rollback(edge: AppGenerationTransitionSpec) -> bool {
    edge.rollout_policy.rollback_window_nanos@ != "0"@ || edge.rollout_policy.automatic_rollback_on_generation_failure
}

/// The receipt authorizes the replacement of one exact identity by another on this edge.
pub open spec fn authorizes(
    receipt: StateCompatibilityReceipt,
    app_id: Seq<char>,
    edge: AppGenerationTransitionSpec,
    old_state: StatefulRuntimeIdentity,
    new_state: StatefulRuntimeIdentity,
) -> bool {
    &&& receipt.schema_version == 1
    &&& receipt.app_id@ == app_id
    &&& receipt.old_runtime_identity@ == old_state.runtime_identity@
    &&& receipt.new_runtime_identity@ == new_state.runtime_identity@
    &&& receipt.state_schema_id@ == old_state.state_schema_id@
    &&& receipt.state_schema_id@ == new_state.state_schema_id@
    &&& receipt.old_state_schema_digest@ == old_state.state_schema_digest@
    &&& receipt.new_state_schema_digest@ == new_state.state_schema_digest@
    &&& receipt.compatibility.concurrent_read
    &&& receipt.compatibility.concurrent_write
    &&& keeps_rollback(edge) ==> receipt.compatibility.old_code_reads_new_writes
}

/// The Instance has the same stateful identity, or none, on both sides of the edge.
pub open spec fn unchanged(before: TextMap<StatefulRuntimeIdentity>, after: TextMap<StatefulRuntimeIdentity>, key: Seq<char>) -> bool {
    if before.has(key) && after.has(key) {
        identity_facts(before.at(key)) == identity_facts(after.at(key))
    } else {
        !before.has(key) && !after.has(key)
    }
}

/// Why the overlap of one stateful Instance is not authorized.
pub open spec fn instance_fault(
    app_id: Seq<char>,
    before: TextMap<StatefulRuntimeIdentity>,
    after: TextMap<StatefulRuntimeIdentity>,
    edge: AppGenerationTransitionSpec,
    receipts: Receipts,
    key: Seq<char>,
) -> Option<Seq<char>> {
    if unchanged(before, after, key) {
        None
    } else if !before.has(key) || !after.has(key) {
        Some("stateful Instance `"@ + key + "` cannot be added or removed during overlap"@)
    } else if !has_receipt(receipts, key) {
        Some("changed stateful Instance `"@ + key + "` has no compatibility receipt"@)
    } else if !authorizes(first_receipt(receipts, key).typed(), app_id, edge, before.at(key), after.at(key)) {
        Some("compatibility receipt for `"@ + key + "` does not close over this transition"@)
    } else {
        None
    }
}

/// The identities of the receipts that the changed Instances need.
pub open spec fn required_digests(
    before: TextMap<StatefulRuntimeIdentity>,
    after: TextMap<StatefulRuntimeIdentity>,
    receipts: Receipts,
) -> Set<Seq<char>> {
    Set::new(
        |digest: Seq<char>|
            exists|key: Seq<char>|
                (before.has(key) || after.has(key)) && !#[trigger] unchanged(before, after, key) && digest == first_receipt(
                    receipts,
                    key,
                ).identity(),
    )
}

/// Declared, supplied and required receipts are the same, and each is filed under its identity.
pub open spec fn exact_closure(
    before: TextMap<StatefulRuntimeIdentity>,
    after: TextMap<StatefulRuntimeIdentity>,
    edge: AppGenerationTransitionSpec,
    receipts: Receipts,
) -> bool {
    let declared = texts(edge.state_compatibility_receipt_digests@);
    let required = required_digests(before, after, receipts);
    &&& declared.no_duplicates()
    &&& forall|digest: Seq<char>| declared.contains(digest) <==> required.contains(digest)
    &&& forall|digest: Seq<char>| receipts.has(digest) <==> required.contains(digest)
    &&& forall|i: int| 0 <= i < receipts.entries().len() ==> (#[trigger] receipts.entries()[i]).0
        == receipts.entries()[i].1.identity()
}

/// No stateful Instance of either side is left unauthorized.
pub open spec fn no_instance_fault(
    app_id: Seq<char>,
    before: TextMap<StatefulRuntimeIdentity>,
    after: TextMap<StatefulRuntimeIdentity>,
    edge: AppGenerationTransitionSpec,
    receipts: Receipts,
) -> bool {
    forall|key: Seq<char>| before.has(key) || after.has(key) ==> #[trigger] instance_fault(
        app_id,
        before,
        after,
        edge,
        receipts,
        key,
    ) is None
}

/// The failure names the first Instance, in key order, that is left unauthorized.
pub open spec fn first_instance_fault(
    app_id: Seq<char>,
    before: TextMap<StatefulRuntimeIdentity>,
    after: TextMap<StatefulRuntimeIdentity>,
    edge: AppGenerationTransitionSpec,
    receipts: Receipts,
    key: Seq<char>,
) -> bool {
    &&& before.has(key) || after.has(key)
    &&& instance_fault(app_id, before, after, edge, receipts, key) is Some
    &&& forall|other: Seq<char>| (before.has(other) || after.has(other)) && text_lt(other, key) ==> #[trigger] instance_fault(
        app_id,
        before,
        after,
        edge,
        receipts,
        other,
    ) is None
}

/// Finds the first receipt about an Instance.
fn find_receipt(receipts: &Receipts, key: &str) -> (r: Option<usize>)
    ensures
        match r {
            Some(i) => is_first_receipt(*receipts, key@, i as int) && has_receipt(*receipts, key@) && first_receipt(*receipts, key@)
                == receipts.entries()[i as int].1,
            None => !has_receipt(*receipts, key@),
        },
{
    let mut i: usize = 0;
    while i < receipts.len()
        invariant
            i <= receipts.entries().len(),
            forall|j: int| 0 <= j < i ==> #[trigger] receipt_instance(*receipts, j) != key@,
        decreases receipts.entries().len() - i,
    {
        if text::same(receipts.value_at(i).value().module_instance_key.as_str(), key) {
            proof {
                assert(is_first_receipt(*receipts, key@, i as int));
                let k = choose|k: int| is_first_receipt(*receipts, key@, k);
                if k < i {
                    assert(receipt_instance(*receipts, k) != key@);
                } else if i < k {
                    assert(receipt_instance(*receipts, i as int) != key@);
                }
            }
            return Some(i);
        }
        assert(receipt_instance(*receipts, i as int) != key@);
        i = i + 1;
    }
    proof {
        if has_receipt(*receipts, key@) {
            let k = choose|k: int| is_first_receipt(*receipts, key@, k);
            assert(receipt_instance(*receipts, k) != key@);
        }
    }
    None
}

/// Checks one stateful Instance and gives the identity of the receipt that it needs.
fn check_instance(
    app_id: &str,
    before: &TextMap<StatefulRuntimeIdentity>,
    after: &TextMap<StatefulRuntimeIdentity>,
    edge: &AppGenerationTransitionSpec,
    receipts: &Receipts,
    key: &str,
) -> (r: Result<Option<String>, ControlPlaneError>)
    requires
        before.wf(),
        after.wf(),
        before.has(key@) || after.has(key@),
    ensures
        match instance_fault(app_id@, *before, *after, *edge, *receipts, key@) {
            Some(detail) => r matches Err(error) && error@ == rejection(detail),
            None => r matches Ok(digest) && if unchanged(*before, *after, key@) {
                digest is None
            } else {
                opt_text(digest) == Some(first_receipt(*receipts, key@).identity())
            },
        },
{
    let (old_state, new_state) = match (before.get(key), after.get(key)) {
        (Some(old_state), Some(new_state)) => (old_state, new_state),
        _ => return Err(rejected_about("stateful Instance `", key, "` cannot be added or removed during overlap")),
    };
    if same_identity(old_state, new_state) {
        return Ok(None);
    }
    let document = match find_receipt(receipts, key) {
        Some(i) => receipts.value_at(i),
        None => return Err(rejected_about("changed stateful Instance `", key, "` has no compatibility receipt")),
    };
    let receipt = document.value();
    let rollback = !text::same(edge.rollout_policy.rollback_window_nanos.as_str(), "0")
        || edge.rollout_policy.automatic_rollback_on_generation_failure;
    if receipt.schema_version != 1 || !text::same(receipt.app_id.as_str(), app_id) || !text::same(
        receipt.old_runtime_identity.as_str(),
        old_state.runtime_identity.as_str(),
    ) || !text::same(receipt.new_runtime_identity.as_str(), new_state.runtime_identity.as_str()) || !text::same(
        receipt.state_schema_id.as_str(),
        old_state.state_schema_id.as_str(),
    ) || !text::same(receipt.state_schema_id.as_str(), new_state.state_schema_id.as_str()) || !text::same(
        receipt.old_state_schema_digest.as_str(),
        old_state.state_schema_digest.as_str(),
    ) || !text::same(receipt.new_state_schema_digest.as_str(), new_state.state_schema_digest.as_str())
        || !receipt.compatibility.concurrent_read || !receipt.compatibility.concurrent_write || (rollback
        && !receipt.compatibility.old_code_reads_new_writes) {
        return Err(rejected_about("compatibility receipt for `", key, "` does not close over this transition"));
    }
    Ok(Some(document.digest().to_owned()))
}

/// The key stands before position `i` of one map or before position `j` of the other.
spec fn passed(before: TextMap<StatefulRuntimeIdentity>, after: TextMap<StatefulRuntimeIdentity>, i: int, j: int, key: Seq<char>) -> bool {
    ||| exists|p: int| 0 <= p < i && (#[trigger] before.entries()[p]).0 == key
    ||| exists|q: int| 0 <= q < j && (#[trigger] after.entries()[q]).0 == key
}

/// Positions of the two maps that part the same keys from the rest.
spec fn frontier(before: TextMap<StatefulRuntimeIdentity>, after: TextMap<StatefulRuntimeIdentity>, i: int, j: int) -> bool {
    &&& 0 <= i <= before.entries().len()
    &&& 0 <= j <= after.entries().len()
    &&& forall|p: int, q: int| 0 <= p < i && j <= q < after.entries().len() ==> text_lt(
        (#[trigger] before.entries()[p]).0,
        (#[trigger] after.entries()[q]).0,
    )
    &&& forall|p: int, q: int| i <= p < before.entries().len() && 0 <= q < j ==> text_lt(
        (#[trigger] after.entries()[q]).0,
        (#[trigger] before.entries()[p]).0,
    )
}

/// Moving past the least remaining key keeps the frontier, and every smaller key was passed.
proof fn lemma_step(before: TextMap<StatefulRuntimeIdentity>, after: TextMap<StatefulRuntimeIdentity>, i: int, j: int, key: Seq<char>, a: bool, b: bool)
    requires
        before.wf(),
        after.wf(),
        frontier(before, after, i, j),
        a || b,
        a ==> i < before.entries().len() && before.entries()[i].0 == key,
        b ==> j < after.entries().len() && after.entries()[j].0 == key,
        !a && i < before.entries().len() ==> text_lt(key, before.entries()[i].0),
        !b && j < after.entries().len() ==> text_lt(key, after.entries()[j].0),
    ensures
        frontier(before, after, if a { i + 1 } else { i }, if b { j + 1 } else { j }),
        forall|other: Seq<char>| passed(before, after, if a { i + 1 } else { i }, if b { j + 1 } else { j }, other) <==> (passed(before, after, i, j, other) || other == key),
        forall|other: Seq<char>| (before.has(other) || after.has(other)) && #[trigger] text_lt(other, key) ==> passed(before, after, i, j, other),
{
    let m = if a { i + 1 } else { i };
    let n = if b { j + 1 } else { j };
    let xs = before.entries();
    let ys = after.entries();
    assert forall|p: int| i <= p < xs.len() implies (p == i && a) || text_lt(key, (#[trigger] xs[p]).0) by {
        if p > i {
            assert(text_lt(xs[i].0, xs[p].0));
            if !a {
                text::text_lt_transitive(key, xs[i].0, xs[p].0);
            }
        }
    }
    assert forall|q: int| j <= q < ys.len() implies (q == j && b) || text_lt(key, (#[trigger] ys[q]).0) by {
        if q > j {
            assert(text_lt(ys[j].0, ys[q].0));
            if !b {
                text::text_lt_transitive(key, ys[j].0, ys[q].0);
            }
        }
    }
    assert forall|other: Seq<char>| (before.has(other) || after.has(other)) && #[trigger] text_lt(other, key) implies passed(before, after, i, j, other) by {
        text::text_lt_strict_total(other, key);
        text::text_lt_strict_total(key, other);
        if before.has(other) {
            let p = before.position(other);
            assert(xs[p].0 == other);
            assert(p < i);
        } else {
            let q = after.position(other);
            assert(ys[q].0 == other);
            assert(q < j);
        }
    }
    assert forall|other: Seq<char>| passed(before, after, m, n, other) <==> (passed(before, after, i, j, other) || other == key) by {
        if passed(before, after, i, j, other) {
            if exists|p: int| 0 <= p < i && (#[trigger] xs[p]).0 == other {
                let p = choose|p: int| 0 <= p < i && (#[trigger] xs[p]).0 == other;
                assert(0 <= p < m && xs[p].0 == other);
            } else {
                let q = choose|q: int| 0 <= q < j && (#[trigger] ys[q]).0 == other;
                assert(0 <= q < n && ys[q].0 == other);
            }
        }
        if other == key {
            if a {
                assert(xs[i].0 == key);
            } else {
                assert(ys[j].0 == key);
            }
        }
    }
}

/// Checks every stateful Instance of an overlap in key order and collects the identities of
/// the receipts that are needed.
fn check_instances(
    app_id: &str,
    before: &TextMap<StatefulRuntimeIdentity>,
    after: &TextMap<StatefulRuntimeIdentity>,
    edge: &AppGenerationTransitionSpec,
    receipts: &Receipts,
) -> (r: Result<Vec<String>, ControlPlaneError>)
    requires
        before.wf(),
        after.wf(),
    ensures
        match r {
            Ok(required) => {
                &&& no_instance_fault(app_id@, *before, *after, *edge, *receipts)
                &&& forall|digest: Seq<char>| texts(required@).contains(digest) <==> required_digests(*before, *after, *receipts).contains(digest)
            },
            Err(error) => exists|key: Seq<char>|
                #[trigger] first_instance_fault(app_id@, *before, *after, *edge, *receipts, key)
                && error@ == rejection(instance_fault(app_id@, *before, *after, *edge, *receipts, key)->Some_0),
        },
{
    let mut required: Vec<String> = Vec::new();
    let mut i: usize = 0;
    let mut j: usize = 0;
    while i < before.len() || j < after.len()
        invariant
            before.wf(),
            after.wf(),
            frontier(*before, *after, i as int, j as int),
            forall|key: Seq<char>| #[trigger] passed(*before, *after, i as int, j as int, key) ==> instance_fault(app_id@, *before, *after, *edge, *receipts, key) is None,
            forall|digest: Seq<char>| #[trigger] texts(required@).contains(digest) <==> (exists|key: Seq<char>|
                passed(*before, *after, i as int, j as int, key) && !#[trigger] unchanged(*before, *after, key) && digest == first_receipt(*receipts, key).identity()),
        decreases before.entries().len() - i + after.entries().len() - j,
    {
        let place = if i >= before.len() {
            TextOrder::After
        } else if j >= after.len() {
            TextOrder::Before
        } else {
            text::order(before.key_at(i), after.key_at(j))
        };
        let from_before = !matches!(place, TextOrder::After);
        let from_after = !matches!(place, TextOrder::Before);
        let key = if from_before {
            before.key_at(i)
        } else {
            after.key_at(j)
        };
        proof {
            if from_before {
                before.unique_position(i as int);
            }
            if from_after {
                after.unique_position(j as int);
            }
            lemma_step(*before, *after, i as int, j as int, key@, from_before, from_after);
        }
        let ghost done = required@;
        match check_instance(app_id, before, after, edge, receipts, key) {
            Ok(digest) => match digest {
                Some(digest) => {
                    required.push(digest);
                },
                None => {},
            },
            Err(error) => {
                proof {
                    assert(first_instance_fault(app_id@, *before, *after, *edge, *receipts, key@));
                }
                return Err(error);
            },
        }
        let ghost m = if from_before { i + 1 } else { i as int };
        let ghost n = if from_after { j + 1 } else { j as int };
        proof {
            let grown = !unchanged(*before, *after, key@);
            let added = first_receipt(*receipts, key@).identity();
            assert forall|digest: Seq<char>| #[trigger] texts(required@).contains(digest) <==> (texts(done).contains(digest) || (grown && digest == added)) by {
                if grown {
                    assert(texts(required@) =~= texts(done).push(added));
                    if texts(done).contains(digest) {
                        let k = choose|k: int| 0 <= k < texts(done).len() && texts(done)[k] == digest;
                        assert(texts(required@)[k] == digest);
                    }
                    if digest == added {
                        assert(texts(required@)[texts(done).len() as int] == digest);
                    }
                }
            }
            assert forall|digest: Seq<char>| #[trigger] texts(required@).contains(digest) <==> (exists|other: Seq<char>|
                passed(*before, *after, m, n, other) && !#[trigger] unchanged(*before, *after, other) && digest == first_receipt(*receipts, other).identity()) by {
                if texts(done).contains(digest) {
                    let other = choose|other: Seq<char>| passed(*before, *after, i as int, j as int, other) && !#[trigger] unchanged(*before, *after, other) && digest == first_receipt(*receipts, other).identity();
                    assert(passed(*before, *after, m, n, other));
                }
                if grown && digest == added {
                    assert(passed(*before, *after, m, n, key@));
                }
                if exists|other: Seq<char>| passed(*before, *after, m, n, other) && !#[trigger] unchanged(*before, *after, other) && digest == first_receipt(*receipts, other).identity() {
                    let other = choose|other: Seq<char>| passed(*before, *after, m, n, other) && !#[trigger] unchanged(*before, *after, other) && digest == first_receipt(*receipts, other).identity();
                    if other != key@ {
                        assert(passed(*before, *after, i as int, j as int, other));
                        assert(texts(done).contains(digest));
                    }
                }
            }
        }
        if from_before {
            i = i + 1;
        }
        if from_after {
            j = j + 1;
        }
    }
    proof {
        assert forall|key: Seq<char>| before.has(key) || after.has(key) implies passed(*before, *after, i as int, j as int, key) by {
            if before.has(key) {
                assert(before.entries()[before.position(key)].0 == key);
            } else {
                assert(after.entries()[after.position(key)].0 == key);
            }
        }
        assert forall|key: Seq<char>| passed(*before, *after, i as int, j as int, key) implies before.has(key) || after.has(key) by {
        }
        assert forall|digest: Seq<char>| texts(required@).contains(digest) <==> required_digests(*before, *after, *receipts).contains(digest) by {
            if required_digests(*before, *after, *receipts).contains(digest) {
                let key = choose|key: Seq<char>| (before.has(key) || after.has(key)) && !#[trigger] unchanged(*before, *after, key) && digest == first_receipt(*receipts, key).identity();
                assert(passed(*before, *after, i as int, j as int, key));
            }
        }
    }
    Ok(required)
}

/// Decides whether no text of a list occurs twice.
pub fn all_different(items: &Vec<String>) -> (r: bool)
    ensures
        r == texts(items@).no_duplicates(),
{
    let mut i: usize = 0;
    while i < items.len()
        invariant
            i <= items.len(),
            forall|a: int, b: int| 0 <= a < b < i ==> (#[trigger] items@[a])@ != (#[trigger] items@[b])@,
        decreases items.len() - i,
    {
        let mut j: usize = 0;
        while j < i
            invariant
                j <= i,
                i < items.len(),
                forall|a: int| 0 <= a < j ==> (#[trigger] items@[a])@ != items@[i as int]@,
            decreases i - j,
        {
            if text::same(items[j].as_str(), items[i].as_str()) {
                assert(texts(items@)[j as int] == texts(items@)[i as int]);
                return false;
            }
            j = j + 1;
        }
        i = i + 1;
    }
    assert forall|a: int, b: int| 0 <= a < texts(items@).len() && 0 <= b < texts(items@).len() && a != b implies texts(items@)[a] != texts(items@)[b] by {
        if a < b {
            assert(items@[a]@ != items@[b]@);
        } else {
            assert(items@[b]@ != items@[a]@);
        }
    }
    true
}

/// Decides whether every text of one list is in another.
pub fn subset(items: &Vec<String>, of: &Vec<String>) -> (r: bool)
    ensures
        r == (forall|item: Seq<char>| texts(items@).contains(item) ==> texts(of@).contains(item)),
{
    let mut i: usize = 0;
    while i < items.len()
        invariant
            i <= items.len(),
            forall|a: int| 0 <= a < i ==> texts(of@).contains((#[trigger] items@[a])@),
        decreases items.len() - i,
    {
        if !text::contains(of, items[i].as_str()) {
            assert(texts(items@)[i as int] == items@[i as int]@);
            return false;
        }
        i = i + 1;
    }
    assert forall|item: Seq<char>| texts(items@).contains(item) implies texts(of@).contains(item) by {
        let k = choose|k: int| 0 <= k < texts(items@).len() && texts(items@)[k] == item;
        assert(texts(of@).contains(items@[k]@));
    }
    true
}

/// Decides whether declared, supplied and required receipts are the same.
fn closure_is_exact(
    before: &TextMap<StatefulRuntimeIdentity>,
    after: &TextMap<StatefulRuntimeIdentity>,
    edge: &AppGenerationTransitionSpec,
    receipts: &Receipts,
    required: &Vec<String>,
) -> (r: bool)
    requires
        receipts.wf(),
        forall|digest: Seq<char>| texts(required@).contains(digest) <==> required_digests(*before, *after, *receipts).contains(digest),
    ensures
        r == exact_closure(*before, *after, *edge, *receipts),
{
    let declared = &edge.state_compatibility_receipt_digests;
    if !all_different(declared) || !subset(declared, required) || !subset(required, declared) {
        return false;
    }
    let mut i: usize = 0;
    while i < receipts.len()
        invariant
            receipts.wf(),
            i <= receipts.entries().len(),
            forall|digest: Seq<char>| texts(required@).contains(digest) <==> required_digests(*before, *after, *receipts).contains(digest),
            forall|k: int| 0 <= k < i ==> (#[trigger] receipts.entries()[k]).0 == receipts.entries()[k].1.identity() && texts(required@).contains(receipts.entries()[k].0),
        decreases receipts.entries().len() - i,
    {
        if !text::same(receipts.key_at(i), receipts.value_at(i).digest()) {
            return false;
        }
        if !text::contains(required, receipts.key_at(i)) {
            proof {
                receipts.unique_position(i as int);
            }
            return false;
        }
        i = i + 1;
    }
    let mut j: usize = 0;
    while j < required.len()
        invariant
            receipts.wf(),
            j <= required.len(),
            forall|digest: Seq<char>| texts(required@).contains(digest) <==> required_digests(*before, *after, *receipts).contains(digest),
            forall|k: int| 0 <= k < j ==> receipts.has((#[trigger] required@[k])@),
        decreases required.len() - j,
    {
        if !receipts.contains_key(required[j].as_str()) {
            proof {
                assert(texts(required@)[j as int] == required@[j as int]@);
                assert(texts(required@).contains(required@[j as int]@));
            }
            return false;
        }
        j = j + 1;
    }
    proof {
        assert forall|digest: Seq<char>| receipts.has(digest) <==> required_digests(*before, *after, *receipts).contains(digest) by {
            if receipts.has(digest) {
                let k = receipts.position(digest);
                assert(receipts.entries()[k].0 == digest);
            }
            if texts(required@).contains(digest) {
                let k = choose|k: int| 0 <= k < texts(required@).len() && texts(required@)[k] == digest;
                assert(receipts.has(required@[k]@));
            }
        }
    }
    true
}

/// Checks that an overlap is authorized by exactly the receipts that it declares, and that no
/// other replacement uses any.
pub fn validate_state_compatibility(
    app_id: &str,
    previous: Option<&TextMap<StatefulRuntimeIdentity>>,
    candidate: &ResolvedGeneration,
    edge: &AppGenerationTransitionSpec,
    receipts: &Receipts,
) -> (r: Result<(), ControlPlaneError>)
    requires
        candidate.stateful_instances.wf(),
        receipts.wf(),
        previous matches Some(map) ==> map.wf(),
        edge.replacement_mode == ReplacementMode::Overlap ==> previous is Some,
    ensures
        compatibility_result(app_id@, owned(previous), *candidate, *edge, *receipts, r),
{
    if edge.replacement_mode != ReplacementMode::Overlap {
        if edge.state_compatibility_receipt_digests.len() > 0 || !receipts.is_empty() {
            return Err(rejected("compatibility receipts are accepted only for overlap replacement"));
        }
        return Ok(());
    }
    match previous {
        Some(before) => {
            let required = match check_instances(app_id, before, &candidate.stateful_instances, edge, receipts) {
                Ok(required) => required,
                Err(error) => return Err(error),
            };
            if !closure_is_exact(before, &candidate.stateful_instances, edge, receipts, &required) {
                return Err(rejected("Transition compatibility receipt digest closure is not exact"));
            }
            Ok(())
        },
        None => Ok(()),
    }
}

/// The stateful identities behind a reference.
pub open spec fn owned(previous: Option<&TextMap<StatefulRuntimeIdentity>>) -> Option<TextMap<StatefulRuntimeIdentity>> {
    match previous {
        Some(map) => Some(*map),
        None => None,
    }
}

/// The outcome that compatibility evidence earns.
pub open spec fn compatibility_result(
    app_id: Seq<char>,
    previous: Option<TextMap<StatefulRuntimeIdentity>>,
    candidate: ResolvedGeneration,
    edge: AppGenerationTransitionSpec,
    receipts: Receipts,
    r: Result<(), ControlPlaneError>,
) -> bool {
    if edge.replacement_mode != ReplacementMode::Overlap {
        if edge.state_compatibility_receipt_digests@.len() > 0 || receipts.entries().len() > 0 {
            r matches Err(error) && error@ == rejection("compatibility receipts are accepted only for overlap replacement"@)
        } else {
            r is Ok
        }
    } else {
        let before = previous->Some_0;
        let after = candidate.stateful_instances;
        if !no_instance_fault(app_id, before, after, edge, receipts) {
            r matches Err(error) && exists|key: Seq<char>|
                #[trigger] first_instance_fault(app_id, before, after, edge, receipts, key)
                && error@ == rejection(instance_fault(app_id, before, after, edge, receipts, key)->Some_0)
        } else if !exact_closure(before, after, edge, receipts) {
            r matches Err(error) && error@ == rejection("Transition compatibility receipt digest closure is not exact"@)
        } else {
            r is Ok
        }
    }
}

/// An overlap is accepted only with exactly the receipts that it declares: with none missing and
/// none extra.
pub proof fn receipts_are_accepted_only_as_declared(
    app_id: Seq<char>,
    previous: TextMap<StatefulRuntimeIdentity>,
    candidate: ResolvedGeneration,
    edge: AppGenerationTransitionSpec,
    receipts: Receipts,
    digest: Seq<char>,
)
    requires
        edge.replacement_mode == ReplacementMode::Overlap,
        compatibility_result(app_id, Some(previous), candidate, edge, receipts, Ok(())),
    ensures
        receipts.has(digest) <==> texts(edge.state_compatibility_receipt_digests@).contains(digest),
        texts(edge.state_compatibility_receipt_digests@).no_duplicates(),
{
}

/// An overlap that changes one stateful Instance and declares one receipt is refused without that
/// receipt, accepted with it, and refused again with any further one.
pub proof fn one_changed_instance_needs_its_one_receipt(
    app_id: Seq<char>,
    previous: TextMap<StatefulRuntimeIdentity>,
    candidate: ResolvedGeneration,
    edge: AppGenerationTransitionSpec,
    receipt: CanonicalDocument<StateCompatibilityReceipt>,
    key: Seq<char>,
    receipts: Receipts,
)
    requires
        edge.replacement_mode == ReplacementMode::Overlap,
        receipts.wf(),
        previous.has(key),
        candidate.stateful_instances.has(key),
        forall|other: Seq<char>| #[trigger] unchanged(previous, candidate.stateful_instances, other) <==> other != key,
        texts(edge.state_compatibility_receipt_digests@) == seq![receipt.identity()],
        receipt.typed().module_instance_key@ == key,
        authorizes(receipt.typed(), app_id, edge, previous.at(key), candidate.stateful_instances.at(key)),
    ensures
        receipts.entries().len() == 0 ==> !compatibility_result(app_id, Some(previous), candidate, edge, receipts, Ok(())),
        receipts.entries() == seq![(receipt.identity(), receipt)] ==> compatibility_result(
            app_id,
            Some(previous),
            candidate,
            edge,
            receipts,
            Ok(()),
        ),
        receipts.entries().len() > 1 ==> !compatibility_result(app_id, Some(previous), candidate, edge, receipts, Ok(())),
{
    let after = candidate.stateful_instances;
    let declared = texts(edge.state_compatibility_receipt_digests@);
    assert(declared.contains(receipt.identity())) by {
        assert(declared[0] == receipt.identity());
    }
    if receipts.entries().len() == 0 {
        assert(!receipts.has(receipt.identity()));
    }
    if receipts.entries().len() > 1 {
        receipts.unique_position(0);
        receipts.unique_position(1);
        assert(receipts.has(receipts.entries()[0].0) && receipts.has(receipts.entries()[1].0));
        assert(receipts.entries()[0].0 != receipts.entries()[1].0);
    }
    if receipts.entries() == seq![(receipt.identity(), receipt)] {
        assert(receipts.entries()[0] == (receipt.identity(), receipt));
        assert(receipt_instance(receipts, 0) == key);
        assert(is_first_receipt(receipts, key, 0));
        assert(first_receipt(receipts, key) == receipt);
        assert(!unchanged(previous, after, key));
        assert forall|other: Seq<char>| previous.has(other) || after.has(other) implies #[trigger] instance_fault(
            app_id,
            previous,
            after,
            edge,
            receipts,
            other,
        ) is None by {
            assert(unchanged(previous, after, other) <==> other != key);
        }
        let required = required_digests(previous, after, receipts);
        assert forall|digest: Seq<char>| required.contains(digest) <==> digest == receipt.identity() by {
            if required.contains(digest) {
                let other = choose|other: Seq<char>| (previous.has(other) || after.has(other)) && !#[trigger] unchanged(previous, after, other)
                    && digest == first_receipt(receipts, other).identity();
                assert(other == key);
            }
        }
        assert forall|digest: Seq<char>| receipts.has(digest) <==> digest == receipt.identity() by {
            receipts.unique_position(0);
        }
        assert(exact_closure(previous, after, edge, receipts));
    }
}

} // verus!
