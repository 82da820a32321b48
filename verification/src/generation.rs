//! Executable App Generations.
use vstd::prelude::*;
use vstd::string::*;

use crate::canonical::CanonicalDocument;
use crate::model::{AppGenerationSpec, EffectiveHostGrantSet, ResolvedArtifactSet, StatefulRuntimeIdentity};
use crate::plan::AppPlan;
use crate::text;
use crate::text_map::TextMap;

verus! {

/// Content identity and location of one execution Artifact.
#[derive(Clone, Debug)]
pub struct ArtifactHandle {
    pub path: String,
    pub digest: String,
    pub size: u64,
}

/// Content identity of the supporting files of one Plugin Instance.
#[derive(Clone, Debug)]
pub struct InstanceResources {
    pub digest: String,
    pub file_count: u64,
    pub total_size: u64,
}

/// Exact output used to stage one immutable App Generation.
#[derive(Debug)]
pub struct ResolvedGeneration {
    pub plan: AppPlan,
    pub artifact_set: CanonicalDocument<ResolvedArtifactSet>,
    pub grants: CanonicalDocument<EffectiveHostGrantSet>,
    pub spec: CanonicalDocument<AppGenerationSpec>,
    pub artifacts: TextMap<ArtifactHandle>,
    /// Exact supporting files selected for each Plugin Instance.
    pub resources: TextMap<InstanceResources>,
    /// Exact stateful Instance identities used by Transition compatibility checks.
    pub stateful_instances: TextMap<StatefulRuntimeIdentity>,
}

impl ResolvedGeneration {
    /// The maps keep their keys in order.
    pub open spec fn wf(self) -> bool {
        &&& self.artifacts.wf()
        &&& self.resources.wf()
        &&& self.stateful_instances.wf()
    }

    /// The content identity of the Generation.
    pub open spec fn digest(self) -> Seq<char> {
        self.spec.identity()
    }
}

/// What an identity says.
pub open spec fn identity_facts(identity: StatefulRuntimeIdentity) -> (Seq<char>, Seq<char>, Seq<char>) {
    (identity.runtime_identity@, identity.state_schema_id@, identity.state_schema_digest@)
}

/// The stateful identities of a Generation by Instance.
pub open spec fn identities(map: TextMap<StatefulRuntimeIdentity>) -> Seq<(Seq<char>, (Seq<char>, Seq<char>, Seq<char>))> {
    map.entries().map_values(|entry: (Seq<char>, StatefulRuntimeIdentity)| (entry.0, identity_facts(entry.1)))
}

/// Decides whether two identities say the same.
pub fn same_identity(a: &StatefulRuntimeIdentity, b: &StatefulRuntimeIdentity) -> (r: bool)
    ensures
        r == (identity_facts(*a) == identity_facts(*b)),
{
    text::same(a.runtime_identity.as_str(), b.runtime_identity.as_str()) && text::same(
        a.state_schema_id.as_str(),
        b.state_schema_id.as_str(),
    ) && text::same(a.state_schema_digest.as_str(), b.state_schema_digest.as_str())
}

/// Copies the stateful identities of a Generation.
pub fn copy_identities(map: &TextMap<StatefulRuntimeIdentity>) -> (r: TextMap<StatefulRuntimeIdentity>)
    requires
        map.wf(),
    ensures
        r.wf(),
        identities(r) == identities(*map),
{
    let mut r: TextMap<StatefulRuntimeIdentity> = TextMap::new();
    let mut i: usize = 0;
    proof {
        assert(identities(r) =~= identities(*map).take(0));
    }
    while i < map.len()
        invariant
            map.wf(),
            r.wf(),
            i <= map.entries().len(),
            identities(r) == identities(*map).take(i as int),
        decreases map.entries().len() - i,
    {
        let ghost before = r;
        let value = map.value_at(i);
        proof {
            assert(identities(r).len() == i);
            assert forall|k: int| 0 <= k < r.entries().len() implies text::text_lt((#[trigger] r.entries()[k]).0, map.entries()[i as int].0) by {
                assert(identities(r)[k].0 == r.entries()[k].0);
                assert(identities(*map)[k].0 == map.entries()[k].0);
                assert(text::text_lt(map.entries()[k].0, map.entries()[i as int].0));
            }
        }
        let copied = StatefulRuntimeIdentity {
            runtime_identity: value.runtime_identity.clone(),
            state_schema_id: value.state_schema_id.clone(),
            state_schema_digest: value.state_schema_digest.clone(),
        };
        r.push_last(map.key_at(i).to_owned(), copied);
        proof {
            assert(identities(r) =~= identities(before).push((map.entries()[i as int].0, identity_facts(copied))));
            assert(identities(r) =~= identities(*map).take(i + 1));
        }
        i = i + 1;
    }
    assert(identities(*map).take(i as int) =~= identities(*map));
    r
}

} // verus!
