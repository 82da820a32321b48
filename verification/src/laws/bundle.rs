//! Laws of Plugin Bundles: what a manifest, a Component and a directory are accepted as.
use vstd::prelude::*;

use crate::bundle::{
    bundle_built, bundle_verified, capability_of, carried, custom_among, declared, descriptor_tree, descriptors, entry_judged,
    manifest_fault, needed, path_fault, portable_descriptor, reading_fault, requirement_of, root_slot_of, runtime_fault, runtime_of,
    semantic_version, wasm_sections, BundleError, CargoPackage, FoundEntry, PluginManifestV2, RuntimeFacts,
    SourceManifestDocument, VerifiedBundle,
};
use crate::canonical::Document;
use crate::digest::{digest_of, digest_syntax};
use crate::json::{compact_json, faultless_is_strict, member, Json, JsonView};
use crate::paths::leads_down;
use crate::text::texts;

verus! {

/// A path may stand in a Bundle exactly where it has characters, no backslash, and leads below the root.
pub proof fn a_bundle_path_is_plain(path: Seq<char>)
    ensures
        path_fault(path) is None <==> path.len() > 0 && (forall|i: int| 0 <= i < path.len() ==> #[trigger] path[i] != '\\') && leads_down(path),
{
    if path.contains('\\') {
        let i = choose|i: int| 0 <= i < path.len() && path[i] == '\\';
        assert(path[i] == '\\');
    }
    if exists|i: int| 0 <= i < path.len() && #[trigger] path[i] == '\\' {
        assert(path.contains('\\'));
    }
}

/// A manifest is accepted exactly where everything that it says is exact: its schema, an identity and a
/// Release version, and a Wasm Artifact of some size with a plain path and a digest.
pub proof fn an_accepted_manifest_is_exact(manifest: PluginManifestV2, version: bool)
    ensures
        manifest_fault(manifest, version) is None <==> {
            &&& manifest.schema_version == 2
            &&& manifest.plugin_id@ != Seq::<char>::empty()
            &&& version
            &&& path_fault(manifest.artifact.path@) is None
            &&& digest_syntax(manifest.artifact.digest@)
            &&& manifest.artifact.size > 0
            &&& manifest.artifact.media_type@ == "application/wasm"@
            &&& manifest.artifact.target@ == "wasm32-unknown-unknown"@
            &&& manifest.entry.descriptor.model() is Object
        },
{
    assert(manifest.plugin_id@.len() == 0 <==> manifest.plugin_id@ =~= Seq::<char>::empty());
    reveal_strlit("sha256:");
    let digest = manifest.artifact.digest@;
    if digest_syntax(digest) {
        assert(digest.take(7) =~= digest.subrange(0, 7));
        assert("sha256:"@ =~= digest.subrange(0, 7));
    }
}

/// A section is a descriptor by its name.
pub open spec fn is_descriptor(section: (Seq<char>, Seq<u8>)) -> bool {
    section.0 == "lenso.plugin-descriptor.v1"@
}

proof fn lemma_descriptors(sections: Seq<(Seq<char>, Seq<u8>)>)
    ensures
        forall|k: int| 0 <= k < descriptors(sections).len() ==> is_descriptor(#[trigger] descriptors(sections)[k]) && sections.contains(descriptors(sections)[k]),
        forall|i: int| 0 <= i < sections.len() && is_descriptor(#[trigger] sections[i]) ==> descriptors(sections).contains(sections[i]),
        forall|i: int, j: int|
            0 <= i < j < sections.len() && is_descriptor(#[trigger] sections[i]) && is_descriptor(#[trigger] sections[j]) ==> descriptors(sections).len()
                > 1,
        descriptors(sections).len() > 1 ==> exists|i: int, j: int|
            0 <= i < j < sections.len() && is_descriptor(#[trigger] sections[i]) && is_descriptor(#[trigger] sections[j]),
        descriptors(sections).len() == 1 ==> exists|i: int|
            0 <= i < sections.len() && is_descriptor(#[trigger] sections[i]) && descriptors(sections)[0] == sections[i],
    decreases sections.len(),
{
    reveal(Seq::filter);
    if sections.len() > 0 {
        let before = sections.drop_last();
        let earlier = descriptors(before);
        let all = descriptors(sections);
        let last = sections.len() - 1;
        lemma_descriptors(before);
        assert forall|k: int| 0 <= k < all.len() implies is_descriptor(#[trigger] all[k]) && sections.contains(all[k]) by {
            if k < earlier.len() {
                assert(all[k] == earlier[k]);
                let m = choose|m: int| 0 <= m < before.len() && before[m] == earlier[k];
                assert(sections[m] == earlier[k]);
            } else {
                assert(sections[last] == all[k]);
            }
        }
        assert forall|i: int| 0 <= i < sections.len() && is_descriptor(#[trigger] sections[i]) implies all.contains(sections[i]) by {
            if i < last {
                assert(before[i] == sections[i]);
                let k = choose|k: int| 0 <= k < earlier.len() && earlier[k] == before[i];
                assert(all[k] == sections[i]);
            } else {
                assert(all[all.len() - 1] == sections[i]);
            }
        }
        assert forall|i: int, j: int| 0 <= i < j < sections.len() && is_descriptor(#[trigger] sections[i]) && is_descriptor(#[trigger] sections[j]) implies all.len()
            > 1 by {
            assert(before[i] == sections[i]);
            assert(earlier.contains(before[i]));
            if j < last {
                assert(before[j] == sections[j]);
            }
        }
        if all.len() > 1 {
            if earlier.len() > 1 {
                let (i, j) = choose|i: int, j: int|
                    0 <= i < j < before.len() && is_descriptor(#[trigger] before[i]) && is_descriptor(#[trigger] before[j]);
                assert(sections[i] == before[i] && sections[j] == before[j]);
            } else {
                let i = choose|i: int| 0 <= i < before.len() && is_descriptor(#[trigger] before[i]) && earlier[0] == before[i];
                assert(is_descriptor(sections[i]) && is_descriptor(sections[last]));
            }
        }
        if all.len() == 1 {
            if earlier.len() == 1 {
                let i = choose|i: int| 0 <= i < before.len() && is_descriptor(#[trigger] before[i]) && earlier[0] == before[i];
                assert(is_descriptor(sections[i]) && all[0] == sections[i]);
            } else {
                assert(is_descriptor(sections[last]) && all[0] == sections[last]);
            }
        }
    }
}

/// The descriptor that a Component carries is the only section of its name, within the size limit, and
/// the Component was read to its end.
pub proof fn a_component_carries_one_descriptor(sections: Seq<(Seq<char>, Seq<u8>)>, error: Option<Seq<char>>)
    requires
        carried(sections, error) is Ok,
    ensures
        error is None,
        exists|i: int|
            {
                &&& 0 <= i < sections.len()
                &&& is_descriptor(#[trigger] sections[i])
                &&& sections[i].1 == carried(sections, error)->Ok_0
                &&& sections[i].1.len() <= 65536
                &&& forall|j: int| 0 <= j < sections.len() && j != i ==> !is_descriptor(#[trigger] sections[j])
            },
{
    lemma_descriptors(sections);
    let i = choose|i: int| 0 <= i < sections.len() && is_descriptor(#[trigger] sections[i]) && descriptors(sections)[0] == sections[i];
    assert forall|j: int| 0 <= j < sections.len() && j != i implies !is_descriptor(#[trigger] sections[j]) by {
        if is_descriptor(sections[j]) {
            if i < j {
                assert(is_descriptor(sections[i]) && is_descriptor(sections[j]));
            } else {
                assert(is_descriptor(sections[j]) && is_descriptor(sections[i]));
            }
        }
    }
    assert(is_descriptor(sections[i]));
}

/// The only descriptor of a Component that was read to its end is carried, unless it is too large.
pub proof fn the_one_descriptor_is_carried(sections: Seq<(Seq<char>, Seq<u8>)>, i: int)
    requires
        0 <= i < sections.len(),
        is_descriptor(sections[i]),
        forall|j: int| 0 <= j < sections.len() && j != i ==> !is_descriptor(#[trigger] sections[j]),
    ensures
        sections[i].1.len() <= 65536 ==> carried(sections, None) == Ok::<Seq<u8>, crate::bundle::BundleFault>(sections[i].1),
        sections[i].1.len() > 65536 ==> carried(sections, None) is Err,
{
    lemma_descriptors(sections);
    assert(descriptors(sections).contains(sections[i]));
    if descriptors(sections).len() > 1 {
        let (a, b) = choose|a: int, b: int|
            0 <= a < b < sections.len() && is_descriptor(#[trigger] sections[a]) && is_descriptor(#[trigger] sections[b]);
        assert(false);
    }
}

/// The custom sections of a Component are all that its payloads hold, in their order.
pub proof fn every_custom_section_is_kept(payloads: Seq<Option<(Seq<char>, Seq<u8>)>>, more: Seq<Option<(Seq<char>, Seq<u8>)>>)
    ensures
        custom_among(payloads + more) == custom_among(payloads) + custom_among(more),
        forall|section: (Seq<char>, Seq<u8>)| custom_among(#[trigger] seq![Some(section)]) == seq![section],
        custom_among(seq![None]) == Seq::<(Seq<char>, Seq<u8>)>::empty(),
    decreases more.len(),
{
    if more.len() == 0 {
        assert(payloads + more =~= payloads);
    } else {
        every_custom_section_is_kept(payloads, more.drop_last());
        assert((payloads + more).drop_last() =~= payloads + more.drop_last());
        assert((payloads + more).last() == more.last());
    }
    assert(custom_among(payloads + more) =~= custom_among(payloads) + custom_among(more));
    assert forall|section: (Seq<char>, Seq<u8>)| custom_among(#[trigger] seq![Some(section)]) == seq![section] by {
        let one = seq![Some(section)];
        assert(one.drop_last() =~= Seq::empty());
        assert(one.last() == Some(section));
        assert(custom_among(one.drop_last()) =~= Seq::empty());
        assert(custom_among(one) =~= seq![section]);
    }
    let none: Seq<Option<(Seq<char>, Seq<u8>)>> = seq![None];
    assert(none.drop_last() =~= Seq::empty());
    assert(none.last() is None);
    assert(custom_among(none.drop_last()) =~= Seq::empty());
    assert(custom_among(none) =~= Seq::<(Seq<char>, Seq<u8>)>::empty());
}

/// A descriptor is accepted exactly where it is strict JSON in its compact notation.
pub proof fn a_descriptor_is_canonical(bytes: Seq<u8>, parsed: Result<Json, String>)
    ensures
        reading_fault(bytes, parsed) is None <==> parsed is Ok && parsed->Ok_0.model().strict() && compact_json(parsed->Ok_0.model()) == bytes,
{
    if parsed is Ok {
        faultless_is_strict(parsed->Ok_0.model());
    }
}

/// A guest's runtime is accepted exactly where it speaks one of three ABIs and requires one provider of
/// each Capability.
pub proof fn a_runtime_speaks_a_known_abi(runtime: RuntimeFacts)
    ensures
        runtime_fault(runtime) is None <==> {
            &&& runtime.abi == "lenso.json-request@1"@ || runtime.abi == "lenso.json-interactions@1"@ || runtime.abi == "lenso.json-host-imports@1"@
            &&& forall|i: int| 0 <= i < runtime.required_capabilities.len() ==> (#[trigger] runtime.required_capabilities[i]).cardinality == "one"@
        },
{
}

/// Each Capability of a guest is declared with all its Operations, and those of streams once more; each
/// requirement stays one.
pub proof fn every_guest_capability_is_declared(runtime: RuntimeFacts, i: int, j: int)
    requires
        0 <= i < runtime.capabilities.len(),
        0 <= j < runtime.required_capabilities.len(),
    ensures
        declared(runtime).len() == runtime.capabilities.len(),
        declared(runtime)[i].0 == runtime.capabilities[i].capability_id,
        declared(runtime)[i].1 == runtime.capabilities[i].descriptor_version,
        declared(runtime)[i].2.len() == runtime.capabilities[i].request_operations.len() + runtime.capabilities[i].stream_operations.len(),
        runtime.capabilities[i].request_operations.is_prefix_of(declared(runtime)[i].2),
        declared(runtime)[i].2.skip(runtime.capabilities[i].request_operations.len() as int) == runtime.capabilities[i].stream_operations,
        declared(runtime)[i].3 == runtime.capabilities[i].stream_operations,
        needed(runtime).len() == runtime.required_capabilities.len(),
        needed(runtime)[j].0 == runtime.required_capabilities[j].capability_id,
        needed(runtime)[j].1 == runtime.required_capabilities[j].descriptor_version,
{
    let capability = runtime.capabilities[i];
    let all = capability.request_operations + capability.stream_operations;
    assert(all.skip(capability.request_operations.len() as int) =~= capability.stream_operations);
    assert(capability.request_operations =~= all.take(capability.request_operations.len() as int));
}

/// What a Capability says is what stands under its four keys. Streams may be left out; nothing else may
/// stand there.
pub proof fn a_capability_is_read_by_its_keys(entries: Seq<(Seq<char>, JsonView)>)
    requires
        capability_of(JsonView::Object(entries)) is Some,
    ensures
        ({
            let tree = JsonView::Object(entries);
            let facts = capability_of(tree)->Some_0;
            &&& member(tree, "capability_id"@) == Some(JsonView::Text(facts.capability_id))
            &&& member(tree, "descriptor_version"@) == Some(JsonView::Text(facts.descriptor_version))
            &&& listed(member(tree, "request_operations"@), facts.request_operations)
            &&& listed(member(tree, "stream_operations"@), facts.stream_operations) || (member(tree, "stream_operations"@) is None
                && facts.stream_operations == Seq::<Seq<char>>::empty())
        }),
        forall|i: int|
            0 <= i < entries.len() ==> (#[trigger] entries[i]).0 == "capability_id"@ || entries[i].0 == "descriptor_version"@ || entries[i].0
                == "request_operations"@ || entries[i].0 == "stream_operations"@,
{
    let names = seq!["capability_id"@, "descriptor_version"@, "request_operations"@, "stream_operations"@];
    assert forall|i: int| 0 <= i < entries.len() implies (#[trigger] entries[i]).0 == "capability_id"@ || entries[i].0 == "descriptor_version"@
        || entries[i].0 == "request_operations"@ || entries[i].0 == "stream_operations"@ by {
        assert(names.contains(entries[i].0));
    }
}

/// A value is a list of texts.
pub open spec fn listed(value: Option<JsonView>, items: Seq<Seq<char>>) -> bool {
    value matches Some(JsonView::List(found)) && found.len() == items.len() && forall|i: int|
        0 <= i < items.len() ==> found[i] == JsonView::Text(#[trigger] items[i])
}

/// What a requirement says is what stands under its three keys, all of which are needed.
pub proof fn a_requirement_is_read_by_its_keys(entries: Seq<(Seq<char>, JsonView)>)
    requires
        requirement_of(JsonView::Object(entries)) is Some,
    ensures
        ({
            let tree = JsonView::Object(entries);
            let facts = requirement_of(tree)->Some_0;
            &&& member(tree, "capability_id"@) == Some(JsonView::Text(facts.capability_id))
            &&& member(tree, "descriptor_version"@) == Some(JsonView::Text(facts.descriptor_version))
            &&& member(tree, "cardinality"@) == Some(JsonView::Text(facts.cardinality))
        }),
{
}

/// What a runtime says is what stands under its three keys. Requirements may be left out.
pub proof fn a_runtime_is_read_by_its_keys(entries: Seq<(Seq<char>, JsonView)>)
    requires
        runtime_of(JsonView::Object(entries)) is Some,
    ensures
        ({
            let tree = JsonView::Object(entries);
            let facts = runtime_of(tree)->Some_0;
            &&& member(tree, "abi"@) == Some(JsonView::Text(facts.abi))
            &&& member(tree, "capabilities"@) matches Some(JsonView::List(items)) && items.len() == facts.capabilities.len() && forall|i: int|
                0 <= i < items.len() ==> capability_of(#[trigger] items[i]) == Some(facts.capabilities[i])
            &&& match member(tree, "required_capabilities"@) {
                Some(JsonView::List(items)) => items.len() == facts.required_capabilities.len() && forall|i: int|
                    0 <= i < items.len() ==> requirement_of(#[trigger] items[i]) == Some(facts.required_capabilities[i]),
                Some(_) => false,
                None => facts.required_capabilities.len() == 0,
            }
        }),
{
    let tree = JsonView::Object(entries);
    let facts = runtime_of(tree)->Some_0;
    if let Some(JsonView::List(items)) = member(tree, "capabilities"@) {
        assert forall|i: int| 0 <= i < items.len() implies capability_of(#[trigger] items[i]) == Some(facts.capabilities[i]) by {
            let read = |item: JsonView| capability_of(item);
            assert(read(items[i]) is Some);
        }
    }
    if let Some(JsonView::List(items)) = member(tree, "required_capabilities"@) {
        assert forall|i: int| 0 <= i < items.len() implies requirement_of(#[trigger] items[i]) == Some(facts.required_capabilities[i]) by {
            let read = |item: JsonView| requirement_of(item);
            assert(read(items[i]) is Some);
        }
    }
}

/// The descriptor of a portable Plugin names the Plugin, its version and its slot, the digest of its
/// Artifact, the class of Wasm Components, and what its guest declares.
pub proof fn a_portable_descriptor_binds_its_artifact(identity: (Seq<char>, Seq<char>, Seq<char>), artifact_digest: Seq<char>, tree: JsonView)
    ensures
        portable_descriptor(identity, artifact_digest, tree) is Ok <==> runtime_of(tree) is Some && runtime_fault(runtime_of(tree)->Some_0) is None,
        portable_descriptor(identity, artifact_digest, tree) is Ok ==> portable_descriptor(identity, artifact_digest, tree)->Ok_0 == descriptor_tree(
            identity,
            (identity.0, artifact_digest),
            "lenso.wasm-component@1"@,
            declared(runtime_of(tree)->Some_0),
            needed(runtime_of(tree)->Some_0),
        ),
{
}

/// A Bundle that verifies is exact: its manifest is accepted, it holds the declared Artifact and nothing
/// else, the Artifact has the declared size and digest, and the descriptor that the Component carries is
/// the one of the manifest. What is reported names just that.
pub proof fn a_verified_bundle_is_exact(
    manifest: Result<PluginManifestV2, String>,
    files: Seq<(Seq<char>, Vec<u8>)>,
    parsed: Result<Json, String>,
    r: Result<VerifiedBundle, BundleError>,
)
    requires
        bundle_verified(manifest, files, parsed, r),
        r is Ok,
    ensures
        manifest is Ok,
        manifest->Ok_0.tree().authority_numbers(),
        ({
            let value = manifest->Ok_0;
            let bundle = r->Ok_0;
            &&& manifest_fault(value, semantic_version(value.release_version@)) is None
            &&& files.len() == 1
            &&& files[0].0 == value.artifact.path@
            &&& files[0].1@.len() == value.artifact.size
            &&& digest_of(files[0].1@) == value.artifact.digest@
            &&& carried(wasm_sections(files[0].1@).0, wasm_sections(files[0].1@).1) is Ok
            &&& parsed is Ok
            &&& compact_json(parsed->Ok_0.model()) == carried(wasm_sections(files[0].1@).0, wasm_sections(files[0].1@).1)->Ok_0
            &&& root_slot_of(value.entry.descriptor.model()) is Some
            &&& portable_descriptor(
                (value.plugin_id@, value.release_version@, root_slot_of(value.entry.descriptor.model())->Some_0),
                value.artifact.digest@,
                parsed->Ok_0.model(),
            ) is Ok
            &&& compact_json(
                portable_descriptor(
                    (value.plugin_id@, value.release_version@, root_slot_of(value.entry.descriptor.model())->Some_0),
                    value.artifact.digest@,
                    parsed->Ok_0.model(),
                )->Ok_0,
            ) == compact_json(value.entry.descriptor.model())
            &&& bundle.plugin_id@ == value.plugin_id@
            &&& bundle.release_version@ == value.release_version@
            &&& texts(bundle.artifact_digests@) == seq![value.artifact.digest@]
            &&& bundle.product_metadata_digests@.len() == 0
        }),
{
    assert(texts(r->Ok_0.product_metadata_digests@).len() == r->Ok_0.product_metadata_digests@.len());
}

/// A manifest that was built names its package and the bytes of its Component, under the name that every
/// build gives it, with the descriptor of that package.
pub proof fn a_built_manifest_names_its_component(
    package: CargoPackage,
    component: Seq<u8>,
    parsed: Result<Json, String>,
    r: Result<SourceManifestDocument, BundleError>,
)
    requires
        bundle_built(package, component, parsed, r),
        r is Ok,
    ensures
        ({
            let manifest = r->Ok_0.typed();
            &&& component.len() > 0
            &&& package.plugin_id@.len() > 0
            &&& semantic_version(package.version@)
            &&& manifest.schema_version == 2
            &&& manifest.plugin_id@ == package.plugin_id@
            &&& manifest.release_version@ == package.version@
            &&& manifest.artifact.path@ == "plugin.wasm"@
            &&& manifest.artifact.digest@ == digest_of(component)
            &&& manifest.artifact.size == component.len()
            &&& manifest.artifact.media_type@ == "application/wasm"@
            &&& manifest.artifact.target@ == "wasm32-unknown-unknown"@
            &&& parsed is Ok
            &&& portable_descriptor(
                (package.plugin_id@, package.version@, package.root_slot@),
                digest_of(component),
                parsed->Ok_0.model(),
            ) == Ok::<JsonView, crate::bundle::BundleFault>(manifest.entry.descriptor.model())
        }),
{
}

/// A Bundle directory holds directories, which are entered, and files under plain paths, which are read.
/// Nothing else is accepted in it, least of all a link.
pub proof fn only_plain_entries_are_accepted(found: FoundEntry, relative: Option<Seq<char>>, r: Result<bool, BundleError>)
    requires
        entry_judged(found, relative, r),
    ensures
        r is Ok <==> found is Directory || (found is File && relative is Some && path_fault(relative->Some_0) is None),
        r is Ok ==> (r->Ok_0 <==> found is File),
{
}


/// A Bundle that is exact verifies.
pub proof fn an_exact_bundle_verifies(
    manifest: Result<PluginManifestV2, String>,
    files: Seq<(Seq<char>, Vec<u8>)>,
    parsed: Result<Json, String>,
    r: Result<VerifiedBundle, BundleError>,
)
    requires
        bundle_verified(manifest, files, parsed, r),
        manifest is Ok,
        manifest_fault(manifest->Ok_0, semantic_version(manifest->Ok_0.release_version@)) is None,
        manifest->Ok_0.tree().authority_numbers(),
        files.len() == 1,
        files[0].0 == manifest->Ok_0.artifact.path@,
        files[0].1@.len() == manifest->Ok_0.artifact.size,
        digest_of(files[0].1@) == manifest->Ok_0.artifact.digest@,
        carried(wasm_sections(files[0].1@).0, wasm_sections(files[0].1@).1) is Ok,
        reading_fault(carried(wasm_sections(files[0].1@).0, wasm_sections(files[0].1@).1)->Ok_0, parsed) is None,
        root_slot_of(manifest->Ok_0.entry.descriptor.model()) is Some,
        ({
            let value = manifest->Ok_0;
            let derived = portable_descriptor(
                (value.plugin_id@, value.release_version@, root_slot_of(value.entry.descriptor.model())->Some_0),
                value.artifact.digest@,
                parsed->Ok_0.model(),
            );
            derived is Ok && compact_json(derived->Ok_0) == compact_json(value.entry.descriptor.model())
        }),
    ensures
        r is Ok,
{
}

/// A manifest is built from every package with an identity and a version, and every Component that is not
/// empty and carries an accepted descriptor of a known runtime.
pub proof fn a_sound_component_is_built(
    package: CargoPackage,
    component: Seq<u8>,
    parsed: Result<Json, String>,
    r: Result<SourceManifestDocument, BundleError>,
)
    requires
        bundle_built(package, component, parsed, r),
        carried(wasm_sections(component).0, wasm_sections(component).1) is Ok,
        reading_fault(carried(wasm_sections(component).0, wasm_sections(component).1)->Ok_0, parsed) is None,
        runtime_of(parsed->Ok_0.model()) is Some,
        runtime_fault(runtime_of(parsed->Ok_0.model())->Some_0) is None,
        package.plugin_id@.len() > 0,
        semantic_version(package.version@),
        component.len() > 0,
    ensures
        r is Ok,
{
}
} // verus!
