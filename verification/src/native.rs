//! The decisions of the native Rust Execution Adapter for statically linked Plugin packages.
use std::rc::Rc;

use lenso_app_plan::authoring::PluginDescriptor;

use vstd::prelude::*;
use vstd::string::*;
use vstd::utf8::encode_utf8;

use crate::failure;
use crate::failure::{invalid_plan, outcome, FailureView, RuntimeFailure};
use crate::json;
use crate::json::{read_json, Json, JsonView};
use crate::plan;
use crate::plan::{instance_position, plan_verdict, AppPlan, PlanBinding, PlanCapability, PlanInstance};
use crate::text;
use crate::text::{text_lt, texts, TextOrder};
use crate::text_map::TextMap;

verus! {

/// The execution class of statically linked Rust Plugins.
pub const NATIVE_RUST_CLASS: &'static str = "lenso.native-rust@1";

/// Shared reference to the one object owned by a Plugin instance generation.
#[derive(Debug)]
pub struct PluginObject<T> {
    pub value: Option<Rc<T>>,
}

/// What installing an object comes to, and the handle after it.
pub open spec fn object_installed<T>(before: PluginObject<T>, value: Rc<T>, r: Result<(), RuntimeFailure>, after: PluginObject<T>) -> bool {
    match before.value {
        None => r is Ok && after.value == Some(value),
        Some(_) => r is Err && r->Err_0@ == invalid_plan("Plugin object was constructed more than once"@) && after == before,
    }
}

/// What reading an object comes to.
pub open spec fn object_read<T>(object: PluginObject<T>, r: Result<Rc<T>, RuntimeFailure>) -> bool {
    match object.value {
        Some(value) => r == Ok::<Rc<T>, RuntimeFailure>(value),
        None => r is Err && r->Err_0@ == FailureView::AdmissionClosed,
    }
}

/// The first object that is installed is the one that is read from then on; a second one is refused and
/// changes nothing. Before the first, nothing is read.
pub proof fn the_first_object_stays<T>(
    before: PluginObject<T>,
    first: Rc<T>,
    r: Result<(), RuntimeFailure>,
    between: PluginObject<T>,
    second: Rc<T>,
    again: Result<(), RuntimeFailure>,
    after: PluginObject<T>,
    early: Result<Rc<T>, RuntimeFailure>,
    late: Result<Rc<T>, RuntimeFailure>,
)
    requires
        before.value is None,
        object_read(before, early),
        object_installed(before, first, r, between),
        object_installed(between, second, again, after),
        object_read(after, late),
    ensures
        early is Err,
        r is Ok,
        again is Err,
        after == between,
        late == Ok::<Rc<T>, RuntimeFailure>(first),
{
}

impl<T> PluginObject<T> {
    /// Creates an inert provider handle before construction begins.
    pub fn empty() -> (r: Self)
        ensures
            r.value is None,
    {
        PluginObject { value: None }
    }

    /// Creates a provider handle around an already constructed object.
    pub fn from_value(value: Rc<T>) -> (r: Self)
        ensures
            r.value == Some(value),
    {
        PluginObject { value: Some(value) }
    }

    /// Installs the constructed object: the first one stays.
    pub fn install(&mut self, value: Rc<T>) -> (r: Result<(), RuntimeFailure>)
        ensures
            object_installed(*old(self), value, r, *final(self)),
    {
        if self.value.is_some() {
            return Err(failure::invalid("Plugin object was constructed more than once"));
        }
        self.value = Some(value);
        Ok(())
    }

    /// Returns the constructed object or fails closed before readiness.
    pub fn get(&self) -> (r: Result<Rc<T>, RuntimeFailure>)
        ensures
            object_read(*self, r),
    {
        match &self.value {
            Some(value) => Ok(value.clone()),
            None => Err(RuntimeFailure::AdmissionClosed),
        }
    }
}

/// Adapter lifecycle that owns exactly one complete Plugin object.
#[derive(Debug)]
pub struct CompleteObjectLifecycle<T> {
    pub object: PluginObject<T>,
    pub has_stop: bool,
    pub construction_started: bool,
    pub stop_attempted: bool,
}

impl<T> CompleteObjectLifecycle<T> {
    /// A lifecycle that was not started, with no stop hook.
    pub fn new(object: PluginObject<T>) -> (r: Self)
        ensures
            r == (CompleteObjectLifecycle { object, has_stop: false, construction_started: false, stop_attempted: false }),
    {
        CompleteObjectLifecycle { object, has_stop: false, construction_started: false, stop_attempted: false }
    }

    /// Adds the stop hook for the same complete object.
    pub fn with_stop(self) -> (r: Self)
        ensures
            r == (CompleteObjectLifecycle { has_stop: true, ..self }),
    {
        CompleteObjectLifecycle {
            object: self.object,
            has_stop: true,
            construction_started: self.construction_started,
            stop_attempted: self.stop_attempted,
        }
    }

    /// Begins the one construction.
    pub fn begin_construct(&mut self) -> (r: Result<(), RuntimeFailure>)
        ensures
            (outcome(r), *final(self)) == construction_begun(*old(self)),
    {
        if self.construction_started {
            return Err(failure::invalid("Plugin construction was attempted more than once"));
        }
        self.construction_started = true;
        Ok(())
    }

    /// Decides whether a construction goes on before its work is awaited.
    pub fn check_cancelled(cancelled: bool) -> (r: Result<(), RuntimeFailure>)
        ensures
            outcome(r) == if cancelled {
                Err::<(), FailureView>(FailureView::AdmissionClosed)
            } else {
                Ok(())
            },
    {
        if cancelled {
            return Err(RuntimeFailure::AdmissionClosed);
        }
        Ok(())
    }

    /// Finishes a construction by what it came to. The object of a construction that was cancelled
    /// meanwhile stays installed, so that it can be stopped.
    pub fn finish_construct(&mut self, constructed: Result<Rc<T>, RuntimeFailure>, cancelled: bool) -> (r: Result<(), RuntimeFailure>)
        ensures
            construction_settled(*old(self), constructed, cancelled, r, *final(self)),
    {
        let value = match constructed {
            Ok(value) => value,
            Err(error) => return Err(error),
        };
        match self.object.install(value) {
            Ok(()) => {},
            Err(error) => return Err(error),
        }
        if cancelled {
            return Err(RuntimeFailure::AdmissionClosed);
        }
        Ok(())
    }

    /// Deactivates the Plugin: the object to stop, the first time and where there is one and a stop hook.
    pub fn deactivate(&mut self) -> (r: Option<Rc<T>>)
        ensures
            (r, *final(self)) == deactivated(*old(self)),
    {
        let first: bool = !self.stop_attempted;
        self.stop_attempted = true;
        if !first || !self.has_stop {
            return None;
        }
        match self.object.get() {
            Ok(object) => Some(object),
            Err(_) => None,
        }
    }
}

/// What the beginning of a construction comes to, and the lifecycle after it.
pub open spec fn construction_begun<T>(lifecycle: CompleteObjectLifecycle<T>) -> (Result<(), FailureView>, CompleteObjectLifecycle<T>) {
    (
        if lifecycle.construction_started {
            Err(invalid_plan("Plugin construction was attempted more than once"@))
        } else {
            Ok(())
        },
        CompleteObjectLifecycle { construction_started: true, ..lifecycle },
    )
}

/// The lifecycle after a construction: the first object that was constructed stays.
pub open spec fn construction_finished<T>(lifecycle: CompleteObjectLifecycle<T>, constructed: Result<Rc<T>, RuntimeFailure>) -> CompleteObjectLifecycle<
    T,
> {
    match constructed {
        Ok(value) if lifecycle.object.value is None => CompleteObjectLifecycle { object: PluginObject { value: Some(value) }, ..lifecycle },
        _ => lifecycle,
    }
}

/// What a construction comes to, and the lifecycle after it.
pub open spec fn construction_settled<T>(
    before: CompleteObjectLifecycle<T>,
    constructed: Result<Rc<T>, RuntimeFailure>,
    cancelled: bool,
    r: Result<(), RuntimeFailure>,
    after: CompleteObjectLifecycle<T>,
) -> bool {
    &&& after == construction_finished(before, constructed)
    &&& match constructed {
        Err(error) => r == Err::<(), RuntimeFailure>(error),
        Ok(_) => outcome(r) == if before.object.value is Some {
            Err::<(), FailureView>(invalid_plan("Plugin object was constructed more than once"@))
        } else if cancelled {
            Err(FailureView::AdmissionClosed)
        } else {
            Ok(())
        },
    }
}

/// The object that a deactivation hands out to be stopped, and the lifecycle after it.
pub open spec fn deactivated<T>(lifecycle: CompleteObjectLifecycle<T>) -> (Option<Rc<T>>, CompleteObjectLifecycle<T>) {
    (
        if lifecycle.stop_attempted || !lifecycle.has_stop {
            None
        } else {
            lifecycle.object.value
        },
        CompleteObjectLifecycle { stop_attempted: true, ..lifecycle },
    )
}

/// An object is constructed at most once, and is handed out to be stopped at most once.
pub proof fn construction_and_stop_happen_once<T>(lifecycle: CompleteObjectLifecycle<T>)
    ensures
        construction_begun(construction_begun(lifecycle).1).0 is Err,
        deactivated(deactivated(lifecycle).1).0 is None,
        construction_begun(deactivated(construction_begun(lifecycle).1).1).0 is Err,
        deactivated(construction_begun(deactivated(lifecycle).1).1).0 is None,
{
}

/// One call of a lifecycle.
pub enum LifecycleCall<T> {
    WithStop,
    BeginConstruct,
    FinishConstruct { constructed: Result<Rc<T>, RuntimeFailure> },
    Deactivate,
}

/// A lifecycle after a series of calls.
pub open spec fn lived<T>(lifecycle: CompleteObjectLifecycle<T>, calls: Seq<LifecycleCall<T>>) -> CompleteObjectLifecycle<T>
    decreases calls.len(),
{
    if calls.len() == 0 {
        lifecycle
    } else {
        let before = lived(lifecycle, calls.drop_last());
        match calls.last() {
            LifecycleCall::WithStop => CompleteObjectLifecycle { has_stop: true, ..before },
            LifecycleCall::BeginConstruct => construction_begun(before).1,
            LifecycleCall::FinishConstruct { constructed } => construction_finished(before, constructed),
            LifecycleCall::Deactivate => deactivated(before).1,
        }
    }
}

/// How often a series of calls hands the object out to be stopped.
pub open spec fn stops<T>(lifecycle: CompleteObjectLifecycle<T>, calls: Seq<LifecycleCall<T>>) -> nat
    decreases calls.len(),
{
    if calls.len() == 0 {
        0
    } else {
        stops(lifecycle, calls.drop_last()) + (if calls.last() is Deactivate && deactivated(lived(lifecycle, calls.drop_last())).0 is Some {
            1nat
        } else {
            0
        })
    }
}

/// The stop hook runs at most once, over any series of calls, and not at all once a deactivation
/// was attempted.
pub proof fn the_stop_hook_runs_at_most_once<T>(lifecycle: CompleteObjectLifecycle<T>, calls: Seq<LifecycleCall<T>>)
    ensures
        stops(lifecycle, calls) <= 1,
        lifecycle.stop_attempted ==> stops(lifecycle, calls) == 0,
        stops(lifecycle, calls) > 0 || lifecycle.stop_attempted ==> lived(lifecycle, calls).stop_attempted,
    decreases calls.len(),
{
    if calls.len() > 0 {
        the_stop_hook_runs_at_most_once(lifecycle, calls.drop_last());
    }
}

/// Whether a text is a Plugin Descriptor, or the text of the error.
pub uninterp spec fn descriptor_verdict(text: Seq<char>) -> Result<(), Seq<char>>;

/// `serde_json::from_str` reads a `PluginDescriptor`. An error is given by its text.
#[verifier::external_body]
fn read_linked_descriptor(text: &str) -> (r: Result<(), String>)
    ensures
        r is Ok <==> descriptor_verdict(text@) is Ok,
        r matches Err(detail) ==> descriptor_verdict(text@)->Err_0 == detail@,
{
    serde_json::from_str::<PluginDescriptor>(text).map(|_| ()).map_err(|error| error.to_string())
}

/// Every one of the first `n` texts is a Plugin Descriptor.
pub open spec fn descriptors_read(descriptors: Seq<Seq<char>>, n: int) -> bool {
    forall|i: int| 0 <= i < n ==> descriptor_verdict(#[trigger] descriptors[i]) is Ok
}

/// Checks the Descriptors of the Plugins that were linked into the binary: the first that cannot be read
/// refuses them.
pub fn check_linked_descriptors(descriptors: &Vec<String>) -> (r: Result<(), RuntimeFailure>)
    ensures
        r is Ok <==> descriptors_read(texts(descriptors@), descriptors@.len() as int),
        r matches Err(error) ==> exists|i: int|
            0 <= i < descriptors@.len() && descriptors_read(texts(descriptors@), i) && descriptor_verdict(#[trigger] texts(descriptors@)[i]) is Err
                && error@ == invalid_plan("invalid linked Plugin Descriptor: "@ + descriptor_verdict(texts(descriptors@)[i])->Err_0),
{
    let ghost all = texts(descriptors@);
    let mut i: usize = 0;
    while i < descriptors.len()
        invariant
            i <= descriptors.len(),
            all == texts(descriptors@),
            descriptors_read(all, i as int),
        decreases descriptors.len() - i,
    {
        assert(all[i as int] == descriptors@[i as int]@);
        match read_linked_descriptor(descriptors[i].as_str()) {
            Ok(()) => {},
            Err(detail) => {
                return Err(failure::invalid(text::behind("invalid linked Plugin Descriptor: ", detail.as_str()).as_str()));
            },
        }
        i = i + 1;
    }
    Ok(())
}

/// One constructor that was linked into the binary.
#[derive(Clone, Copy, Debug, PartialEq, Eq, Structural)]
pub struct ConstructionCandidate {
    /// It constructs the wanted Plugin type.
    pub constructs: bool,
    /// It was written by the Plugin's author.
    pub custom: bool,
}

/// The positions among the first `n` of the constructors of the type, custom or not.
pub open spec fn constructors(candidates: Seq<ConstructionCandidate>, custom: bool, n: nat) -> Seq<int>
    decreases n,
{
    if n == 0 {
        Seq::empty()
    } else {
        let earlier = constructors(candidates, custom, (n - 1) as nat);
        if candidates[n - 1].constructs && candidates[n - 1].custom == custom {
            earlier.push(n - 1)
        } else {
            earlier
        }
    }
}

/// The constructor that is selected: the one custom constructor, or else the one default.
pub open spec fn selected_constructor(candidates: Seq<ConstructionCandidate>) -> Result<int, FailureView> {
    let customs = constructors(candidates, true, candidates.len());
    let defaults = constructors(candidates, false, candidates.len());
    if customs.len() == 1 {
        Ok(customs[0])
    } else if customs.len() > 1 {
        Err(invalid_plan("Plugin type has multiple custom constructors"@))
    } else if defaults.len() == 1 {
        Ok(defaults[0])
    } else if defaults.len() == 0 {
        Err(invalid_plan("Plugin type has no linked constructor"@))
    } else {
        Err(invalid_plan("Plugin type has multiple default constructors"@))
    }
}

/// Selects the unique constructor of a Plugin type.
pub fn select_constructor(candidates: &Vec<ConstructionCandidate>) -> (r: Result<usize, RuntimeFailure>)
    ensures
        match selected_constructor(candidates@) {
            Ok(i) => r is Ok && r->Ok_0 == i && i < candidates@.len(),
            Err(fault) => r is Err && r->Err_0@ == fault,
        },
{
    let mut customs: usize = 0;
    let mut custom: usize = 0;
    let mut defaults: usize = 0;
    let mut default: usize = 0;
    let mut i: usize = 0;
    while i < candidates.len()
        invariant
            i <= candidates.len(),
            customs <= i,
            defaults <= i,
            customs == constructors(candidates@, true, i as nat).len(),
            defaults == constructors(candidates@, false, i as nat).len(),
            customs > 0 ==> custom < i && constructors(candidates@, true, i as nat)[0] == custom,
            defaults > 0 ==> default < i && constructors(candidates@, false, i as nat)[0] == default,
        decreases candidates.len() - i,
    {
        let candidate = candidates[i];
        if candidate.constructs {
            if candidate.custom {
                if customs == 0 {
                    custom = i;
                }
                customs = customs + 1;
            } else {
                if defaults == 0 {
                    default = i;
                }
                defaults = defaults + 1;
            }
        }
        i = i + 1;
    }
    if customs == 1 {
        return Ok(custom);
    }
    if customs > 1 {
        return Err(failure::invalid("Plugin type has multiple custom constructors"));
    }
    if defaults == 1 {
        return Ok(default);
    }
    if defaults == 0 {
        return Err(failure::invalid("Plugin type has no linked constructor"));
    }
    Err(failure::invalid("Plugin type has multiple default constructors"))
}

/// A linked constructor handed out an object of another type.
pub fn wrong_type() -> (r: RuntimeFailure)
    ensures
        r@ == invalid_plan("linked Plugin constructor returned the wrong type"@),
{
    failure::invalid("linked Plugin constructor returned the wrong type")
}

/// Checks the Plan that an Execution Adapter is to prepare.
pub fn check_plan(plan: &AppPlan) -> (r: Result<(), RuntimeFailure>)
    ensures
        outcome(r) == match plan_verdict(plan.bytes@) {
            Ok(()) => Ok::<(), FailureView>(()),
            Err(detail) => Err(invalid_plan(detail)),
        },
{
    match plan.validate() {
        Ok(()) => Ok(()),
        Err(detail) => Err(RuntimeFailure::InvalidResolvedPlan { detail }),
    }
}

/// Why a configuration is refused by a Plugin that takes none.
pub open spec fn configuration_fault(plugin_id: Seq<char>, read: Result<JsonView, Seq<char>>) -> Option<Seq<char>> {
    match read {
        Err(error) => Some("invalid "@ + plugin_id + " configuration: "@ + error),
        Ok(JsonView::Object(entries)) => if entries.len() == 0 {
            None
        } else {
            Some(plugin_id + " does not accept configuration"@)
        },
        Ok(_) => Some(plugin_id + " does not accept configuration"@),
    }
}

/// Checks the configuration of a Plugin that takes none: it is the empty object.
pub fn check_no_configuration(plugin_id: &str, configuration: &str) -> (r: Result<(), RuntimeFailure>)
    ensures
        outcome(r) == match configuration_fault(plugin_id@, read_json(encode_utf8(configuration@))) {
            Some(detail) => Err::<(), FailureView>(invalid_plan(detail)),
            None => Ok(()),
        },
{
    match json::from_bytes(configuration.as_bytes()) {
        Err(error) => {
            let mut detail = text::around("invalid ", plugin_id, " configuration: ");
            detail.append(error.as_str());
            Err(RuntimeFailure::InvalidResolvedPlan { detail })
        },
        Ok(Json::Object(entries)) => if entries.len() == 0 {
            Ok(())
        } else {
            Err(RuntimeFailure::InvalidResolvedPlan { detail: text::behind(plugin_id, " does not accept configuration") })
        },
        Ok(_) => Err(RuntimeFailure::InvalidResolvedPlan { detail: text::behind(plugin_id, " does not accept configuration") }),
    }
}

/// A Plugin field connected to its generation-owned task scope during activation.
#[derive(Debug)]
pub struct ManagedTasks<S> {
    pub scope: Option<S>,
}

impl<S> ManagedTasks<S> {
    /// Returns whether the Plugin has entered activation and received its task scope.
    pub fn is_active(&self) -> (r: bool)
        ensures
            r == (self.scope is Some),
    {
        self.scope.is_some()
    }

    /// The task scope of the active generation.
    pub fn active(&self) -> (r: Option<&S>)
        ensures
            match self.scope {
                Some(scope) => r == Some(&scope),
                None => r is None,
            },
    {
        match &self.scope {
            Some(scope) => Some(scope),
            None => None,
        }
    }

    /// Connects the field to its task scope, once.
    pub fn connect(&mut self, scope: S) -> (r: Result<(), RuntimeFailure>)
        ensures
            match old(self).scope {
                Some(_) => r is Err && r->Err_0@ == (FailureView::PluginFailure { detail: "managed task field was connected more than once"@ })
                    && *final(self) == *old(self),
                None => r is Ok && final(self).scope == Some(scope),
            },
    {
        if self.scope.is_some() {
            return Err(RuntimeFailure::PluginFailure { detail: "managed task field was connected more than once".to_owned() });
        }
        self.scope = Some(scope);
        Ok(())
    }

    /// Disconnects the field from its task scope.
    pub fn disconnect(&mut self) -> (r: Option<S>)
        ensures
            r == old(self).scope,
            final(self).scope is None,
    {
        self.scope.take()
    }
}

/// One native Plugin factory contributed to the Host's link-time catalog: its descriptor and the address
/// of its constructor.
#[derive(Debug)]
pub struct LinkedNativePluginFactory {
    pub descriptor: String,
    pub constructor: usize,
}

/// What tells one contribution from another.
pub open spec fn link_facts(factory: LinkedNativePluginFactory) -> (Seq<char>, usize) {
    (factory.descriptor@, factory.constructor)
}

/// The contributions without repetitions: of each the first stays.
pub open spec fn unique_links(factories: Seq<(Seq<char>, usize)>) -> Seq<(Seq<char>, usize)>
    decreases factories.len(),
{
    if factories.len() == 0 {
        factories
    } else {
        let earlier = unique_links(factories.drop_last());
        if earlier.contains(factories.last()) {
            earlier
        } else {
            earlier.push(factories.last())
        }
    }
}

/// The facts of a list of contributions.
pub open spec fn all_link_facts(factories: Seq<LinkedNativePluginFactory>) -> Seq<(Seq<char>, usize)> {
    factories.map_values(|factory: LinkedNativePluginFactory| link_facts(factory))
}

/// The contributions once one more is linked.
pub open spec fn linked(before: Seq<(Seq<char>, usize)>, factory: (Seq<char>, usize), after: Seq<(Seq<char>, usize)>) -> bool {
    after == if before.contains(factory) {
        before
    } else {
        before.push(factory)
    }
}

/// Retains one generated native Plugin registration through an explicit Host link call, once.
pub fn link_native_plugin(factories: &mut Vec<LinkedNativePluginFactory>, factory: LinkedNativePluginFactory)
    ensures
        linked(all_link_facts(old(factories)@), link_facts(factory), all_link_facts(final(factories)@)),
{
    let ghost known = all_link_facts(factories@);
    let mut i: usize = 0;
    while i < factories.len()
        invariant
            i <= factories.len(),
            *factories == *old(factories),
            known == all_link_facts(factories@),
            forall|k: int| 0 <= k < i ==> #[trigger] known[k] != link_facts(factory),
        decreases factories.len() - i,
    {
        assert(known[i as int] == link_facts(factories@[i as int]));
        if text::same(factories[i].descriptor.as_str(), factory.descriptor.as_str()) && factories[i].constructor == factory.constructor {
            return;
        }
        i = i + 1;
    }
    factories.push(factory);
    assert(all_link_facts(factories@) =~= known.push(link_facts(factory)));
}

/// All contributions, those found at link time before those linked explicitly, each once.
pub fn linked_factories(found: Vec<LinkedNativePluginFactory>, explicit: Vec<LinkedNativePluginFactory>) -> (r: Vec<LinkedNativePluginFactory>)
    ensures
        all_link_facts(r@) == unique_links(all_link_facts(found@) + all_link_facts(explicit@)),
{
    let ghost first = all_link_facts(found@);
    let ghost second = all_link_facts(explicit@);
    let ghost all = first + second;
    let mut r: Vec<LinkedNativePluginFactory> = Vec::new();
    assert(all_link_facts(r@) =~= unique_links(all.take(0)));
    let mut rest = found;
    let mut n: usize = 0;
    let total: usize = rest.len();
    let ghost start = rest@;
    assert(rest@ =~= start.skip(0));
    while n < total
        invariant
            n <= total == start.len(),
            rest@ == start.skip(n as int),
            first == all_link_facts(start),
            all == first + second,
            all_link_facts(r@) == unique_links(all.take(n as int)),
        decreases total - n,
    {
        let factory = rest.remove(0);
        proof {
            assert(factory == start[n as int]);
            assert(rest@ =~= start.skip(n + 1));
            assert(all[n as int] == link_facts(factory));
            assert(all.take(n + 1).drop_last() =~= all.take(n as int));
            assert(all.take(n + 1).last() == all[n as int]);
        }
        link_native_plugin(&mut r, factory);
        n = n + 1;
    }
    let mut rest = explicit;
    let mut m: usize = 0;
    let more: usize = rest.len();
    let ghost start = rest@;
    assert(rest@ =~= start.skip(0));
    while m < more
        invariant
            m <= more == start.len(),
            rest@ == start.skip(m as int),
            second == all_link_facts(start),
            all == first + second,
            first.len() == total,
            all_link_facts(r@) == unique_links(all.take(total + m)),
        decreases more - m,
    {
        let factory = rest.remove(0);
        proof {
            assert(factory == start[m as int]);
            assert(rest@ =~= start.skip(m + 1));
            assert(all[total + m] == link_facts(factory));
            assert(all.take(total + m + 1).drop_last() =~= all.take(total + m));
            assert(all.take(total + m + 1).last() == all[total + m]);
        }
        link_native_plugin(&mut r, factory);
        m = m + 1;
    }
    assert(all.take(all.len() as int) =~= all);
    r
}

/// What the registry reads of one statically linked factory.
#[derive(Debug)]
pub struct FactoryFacts {
    pub package_id: String,
    pub package_version: String,
    pub runtime_profile: String,
    /// Immutable factory identity advertised by the exact Host Build Manifest.
    pub identity: String,
}

/// The identity that a factory has unless it says otherwise.
pub open spec fn default_identity(package_id: Seq<char>, package_version: Seq<char>) -> Seq<char> {
    if package_version.len() == 0 {
        package_id
    } else {
        package_id + "@"@ + package_version
    }
}

/// The identity that a factory has unless it says otherwise.
pub fn factory_identity(package_id: &str, package_version: &str) -> (r: String)
    ensures
        r@ == default_identity(package_id@, package_version@),
{
    if package_version.is_empty() {
        package_id.to_owned()
    } else {
        text::around(package_id, "@", package_version)
    }
}

/// A factory of one authoring protocol serves the profile that a Plan names. A Plan that names the
/// execution class as its profile is one of the first authoring protocol.
pub open spec fn serves_profile(factory: Seq<char>, planned: Seq<char>) -> bool {
    ||| factory == planned
    ||| planned == NATIVE_RUST_CLASS@ && factory == "lenso.native-authoring@1"@
}

/// A factory is for an Instance of the Plan.
pub open spec fn factory_fits(factory: FactoryFacts, expected: PlanInstance) -> bool {
    &&& factory.package_id@ == expected.package_id@
    &&& serves_profile(factory.runtime_profile@, expected.runtime_profile@)
    &&& expected.package_revision@.len() == 0 || factory.package_version@ == expected.package_revision@ || factory.identity@
        == expected.package_revision@
}

/// Decides whether a factory is for an Instance of the Plan.
pub fn factory_matches(factory: &FactoryFacts, expected: &PlanInstance) -> (r: bool)
    ensures
        r == factory_fits(*factory, *expected),
{
    let profile = factory.runtime_profile.as_str();
    let planned = expected.runtime_profile.as_str();
    text::same(factory.package_id.as_str(), expected.package_id.as_str()) && (text::same(profile, planned) || text::same(
        planned,
        NATIVE_RUST_CLASS,
    ) && text::same(profile, "lenso.native-authoring@1")) && (expected.package_revision.as_str().is_empty() || text::same(
        factory.package_version.as_str(),
        expected.package_revision.as_str(),
    ) || text::same(factory.identity.as_str(), expected.package_revision.as_str()))
}

/// The positions among the first `n` factories of those for an Instance.
pub open spec fn fitting_factories(factories: Seq<FactoryFacts>, expected: PlanInstance, n: nat) -> Seq<int>
    decreases n,
{
    if n == 0 {
        Seq::empty()
    } else if factory_fits(factories[n - 1], expected) {
        fitting_factories(factories, expected, (n - 1) as nat).push(n - 1)
    } else {
        fitting_factories(factories, expected, (n - 1) as nat)
    }
}

/// The one factory for an Instance.
pub open spec fn chosen_factory(factories: Seq<FactoryFacts>, expected: PlanInstance) -> Result<int, FailureView> {
    let found = fitting_factories(factories, expected, factories.len());
    if found.len() == 0 {
        Err(FailureView::MissingPluginFactory { instance: expected.instance_key@, package_id: expected.package_id@ })
    } else if found.len() == 1 {
        Ok(found[0])
    } else {
        Err(invalid_plan("multiple statically linked factories declare package `"@ + expected.package_id@ + "`"@))
    }
}

/// Chooses the one factory for an Instance.
pub fn choose_factory(factories: &Vec<FactoryFacts>, expected: &PlanInstance) -> (r: Result<usize, RuntimeFailure>)
    ensures
        match chosen_factory(factories@, *expected) {
            Ok(i) => r is Ok && r->Ok_0 == i && i < factories@.len(),
            Err(fault) => r is Err && r->Err_0@ == fault,
        },
{
    let mut count: usize = 0;
    let mut chosen: usize = 0;
    let mut i: usize = 0;
    while i < factories.len()
        invariant
            i <= factories.len(),
            count <= i,
            count == fitting_factories(factories@, *expected, i as nat).len(),
            count > 0 ==> chosen < i && fitting_factories(factories@, *expected, i as nat)[0] == chosen,
        decreases factories.len() - i,
    {
        if factory_matches(&factories[i], expected) {
            if count == 0 {
                chosen = i;
            }
            count = count + 1;
        }
        i = i + 1;
    }
    if count == 0 {
        return Err(
            RuntimeFailure::MissingPluginFactory {
                instance: expected.instance_key.clone(),
                package_id: expected.package_id.clone(),
            },
        );
    }
    if count > 1 {
        return Err(
            failure::invalid_about("multiple statically linked factories declare package `", expected.package_id.as_str(), "`"),
        );
    }
    Ok(chosen)
}

/// The native authoring protocols that the Adapter runs.
pub open spec fn supported_profile(authoring_version: u32, profile: Seq<char>) -> bool {
    ||| authoring_version == 1 && (profile == "lenso.native-authoring@1"@ || profile == "lenso.native-rust@1"@)
    ||| authoring_version == 2 && profile == "lenso.native-authoring@2"@
}

/// Decides whether the Adapter runs an authoring protocol.
pub fn supports_runtime_profile(authoring_version: u32, profile: &str) -> (r: bool)
    ensures
        r == supported_profile(authoring_version, profile@),
{
    if authoring_version == 1 {
        text::same(profile, "lenso.native-authoring@1") || text::same(profile, "lenso.native-rust@1")
    } else if authoring_version == 2 {
        text::same(profile, "lenso.native-authoring@2")
    } else {
        false
    }
}

/// One Instance that is to be instantiated: its position in the Plan and its factory.
#[derive(Clone, Copy, Debug, PartialEq, Eq, Structural)]
pub struct Instantiation {
    pub instance: usize,
    pub factory: usize,
}

/// The next native Instance from the `k`th on.
pub open spec fn next_native(instances: Seq<PlanInstance>, k: nat) -> Option<int>
    decreases instances.len() - k,
{
    if k >= instances.len() {
        None
    } else if instances[k as int].execution_class@ == NATIVE_RUST_CLASS@ {
        Some(k as int)
    } else {
        next_native(instances, k + 1)
    }
}

/// The Instance that is instantiated next, from the `from`th on, with its factory.
pub open spec fn instantiation_found(
    factories: Seq<FactoryFacts>,
    instances: Seq<PlanInstance>,
    from: usize,
    r: Result<Option<Instantiation>, RuntimeFailure>,
) -> bool {
    match next_native(instances, from as nat) {
        None => r == Ok::<Option<Instantiation>, RuntimeFailure>(None),
        Some(i) => match chosen_factory(factories, instances[i]) {
            Err(fault) => r is Err && r->Err_0@ == fault,
            Ok(factory) => r is Ok && r->Ok_0 is Some && r->Ok_0->Some_0.instance == i && r->Ok_0->Some_0.factory == factory && i
                < instances.len(),
        },
    }
}

/// The Instance that is recreated by its key, with its factory.
pub open spec fn recreated(
    factories: Seq<FactoryFacts>,
    instances: Seq<PlanInstance>,
    key: Seq<char>,
    r: Result<Instantiation, RuntimeFailure>,
) -> bool {
    match instance_position(instances, key) {
        None => r is Err && r->Err_0@ == invalid_plan("unknown Plugin Instance `"@ + key + "`"@),
        Some(i) => match chosen_factory(factories, instances[i]) {
            Err(fault) => r is Err && r->Err_0@ == fault,
            Ok(factory) => r is Ok && r->Ok_0.instance == i && r->Ok_0.factory == factory,
        },
    }
}

/// The first factory with an identity.
pub open spec fn named(factories: Seq<FactoryFacts>, identity: Seq<char>) -> Option<FactoryFacts>
    decreases factories.len(),
{
    if factories.len() == 0 {
        None
    } else {
        match named(factories.drop_last(), identity) {
            Some(factory) => Some(factory),
            None => if factories.last().identity@ == identity {
                Some(factories.last())
            } else {
                None
            },
        }
    }
}

/// The identities stand in strictly increasing order.
pub open spec fn by_identity(catalog: Seq<FactoryFacts>) -> bool {
    forall|i: int, j: int| 0 <= i < j < catalog.len() ==> text_lt((#[trigger] catalog[i]).identity@, (#[trigger] catalog[j]).identity@)
}

/// One factory for each identity among all: the first with it, in the order of the identities.
pub open spec fn is_catalog(catalog: Seq<FactoryFacts>, all: Seq<FactoryFacts>) -> bool {
    &&& by_identity(catalog)
    &&& forall|identity: Seq<char>| #[trigger] named(catalog, identity) == named(all, identity)
}

proof fn named_at(factories: Seq<FactoryFacts>, k: int)
    requires
        by_identity(factories),
        0 <= k < factories.len(),
    ensures
        named(factories, factories[k].identity@) == Some(factories[k]),
    decreases factories.len(),
{
    let identity = factories[k].identity@;
    if k < factories.len() - 1 {
        named_at(factories.drop_last(), k);
    } else {
        assert forall|m: int| 0 <= m < k implies (#[trigger] factories.drop_last()[m]).identity@ != identity by {
            assert(text_lt(factories[m].identity@, factories[k].identity@));
            text::text_lt_strict_total(identity, identity);
        }
        named_nowhere(factories.drop_last(), identity);
    }
}

proof fn named_nowhere(factories: Seq<FactoryFacts>, identity: Seq<char>)
    requires
        forall|m: int| 0 <= m < factories.len() ==> (#[trigger] factories[m]).identity@ != identity,
    ensures
        named(factories, identity) is None,
    decreases factories.len(),
{
    if factories.len() > 0 {
        named_nowhere(factories.drop_last(), identity);
    }
}

/// A catalog with one more factory at its place.
proof fn entered(before: Seq<FactoryFacts>, i: int, factory: FactoryFacts, all: Seq<FactoryFacts>)
    requires
        is_catalog(before, all),
        0 <= i <= before.len(),
        forall|k: int| 0 <= k < i ==> text_lt((#[trigger] before[k]).identity@, factory.identity@),
        forall|k: int| i <= k < before.len() ==> text_lt(factory.identity@, (#[trigger] before[k]).identity@),
    ensures
        is_catalog(before.insert(i, factory), all.push(factory)),
{
    let after = before.insert(i, factory);
    let more = all.push(factory);
    assert(more.drop_last() =~= all);
    assert forall|a: int, b: int| 0 <= a < b < after.len() implies text_lt((#[trigger] after[a]).identity@, (#[trigger] after[b]).identity@) by {
        let x = if a < i { before[a] } else if a == i { factory } else { before[a - 1] };
        let y = if b < i { before[b] } else if b == i { factory } else { before[b - 1] };
        assert(after[a] == x && after[b] == y);
    }
    text::text_lt_strict_total(factory.identity@, factory.identity@);
    named_nowhere(before, factory.identity@);
    named_at(after, i);
    assert forall|identity: Seq<char>| #[trigger] named(after, identity) == named(more, identity) by {
        assert(named(before, identity) == named(all, identity));
        if identity != factory.identity@ {
            if exists|k: int| 0 <= k < before.len() && (#[trigger] before[k]).identity@ == identity {
                let k = choose|k: int| 0 <= k < before.len() && (#[trigger] before[k]).identity@ == identity;
                named_at(before, k);
                let j = if k < i { k } else { k + 1 };
                assert(after[j] == before[k]);
                named_at(after, j);
            } else {
                named_nowhere(before, identity);
                assert forall|m: int| 0 <= m < after.len() implies (#[trigger] after[m]).identity@ != identity by {
                    if m != i {
                        let k = if m < i { m } else { m - 1 };
                        assert(after[m] == before[k]);
                    }
                }
                named_nowhere(after, identity);
            }
        }
    }
}

/// Enters one more factory unless its identity is there.
fn enter(catalog: &mut Vec<FactoryFacts>, factory: FactoryFacts, Ghost(all): Ghost<Seq<FactoryFacts>>)
    requires
        is_catalog(old(catalog)@, all),
    ensures
        is_catalog(final(catalog)@, all.push(factory)),
{
    let mut i: usize = 0;
    while i < catalog.len()
        invariant
            i <= catalog.len(),
            *catalog == *old(catalog),
            is_catalog(catalog@, all),
            forall|k: int| 0 <= k < i ==> text_lt((#[trigger] catalog@[k]).identity@, factory.identity@),
        decreases catalog.len() - i,
    {
        match text::order(catalog[i].identity.as_str(), factory.identity.as_str()) {
            TextOrder::Before => {},
            TextOrder::Same => {
                proof {
                    let more = all.push(factory);
                    assert(more.drop_last() =~= all);
                    named_at(catalog@, i as int);
                    assert forall|identity: Seq<char>| #[trigger] named(catalog@, identity) == named(more, identity) by {
                        assert(named(catalog@, identity) == named(all, identity));
                    }
                }
                return;
            },
            TextOrder::After => {
                proof {
                    assert forall|k: int| i <= k < catalog@.len() implies text_lt(factory.identity@, (#[trigger] catalog@[k]).identity@) by {
                        if k > i {
                            assert(text_lt(catalog@[i as int].identity@, catalog@[k].identity@));
                            text::text_lt_transitive(factory.identity@, catalog@[i as int].identity@, catalog@[k].identity@);
                        }
                    }
                    entered(catalog@, i as int, factory, all);
                }
                catalog.insert(i, factory);
                return;
            },
        }
        i = i + 1;
    }
    proof {
        entered(catalog@, i as int, factory, all);
    }
    catalog.insert(i, factory);
}

/// Statically linked native Plugin factories available to an App binary.
#[derive(Debug)]
pub struct NativePluginRegistry {
    pub factories: Vec<FactoryFacts>,
}

impl NativePluginRegistry {
    /// Creates an empty linked-factory registry.
    pub fn new() -> (r: Self)
        ensures
            r.factories@.len() == 0,
    {
        NativePluginRegistry { factories: Vec::new() }
    }

    /// Adds one statically linked factory.
    pub fn with_factory(self, factory: FactoryFacts) -> (r: Self)
        ensures
            r.factories@ == self.factories@.push(factory),
    {
        let mut factories = self.factories;
        factories.push(factory);
        NativePluginRegistry { factories }
    }

    /// Adds the factories that were linked into the binary, and keeps one factory for each identity, in
    /// the order of the identities.
    pub fn with_linked_factories(self, linked: Vec<FactoryFacts>) -> (r: Self)
        ensures
            is_catalog(r.factories@, self.factories@ + linked@),
    {
        let ghost all = self.factories@ + linked@;
        let mut waiting = self.factories;
        let mut more = linked;
        waiting.append(&mut more);
        let total: usize = waiting.len();
        let mut sorted: Vec<FactoryFacts> = Vec::new();
        let mut n: usize = 0;
        assert(waiting@ =~= all.skip(0));
        while n < total
            invariant
                n <= total == all.len(),
                waiting@ == all.skip(n as int),
                is_catalog(sorted@, all.take(n as int)),
            decreases total - n,
        {
            let factory = waiting.remove(0);
            proof {
                assert(factory == all[n as int]);
                assert(waiting@ =~= all.skip(n + 1));
                assert(all.take(n + 1) =~= all.take(n as int).push(factory));
            }
            enter(&mut sorted, factory, Ghost(all.take(n as int)));
            n = n + 1;
        }
        assert(all.take(all.len() as int) =~= all);
        NativePluginRegistry { factories: sorted }
    }

    /// The next Instance to instantiate, from the `from`th of the Plan on.
    pub fn next_instantiation(&self, plan: &AppPlan, from: usize) -> (r: Result<Option<Instantiation>, RuntimeFailure>)
        ensures
            instantiation_found(self.factories@, plan.instances@, from, r),
    {
        let mut i: usize = from;
        while i < plan.instances.len() && !text::same(plan.instances[i].execution_class.as_str(), NATIVE_RUST_CLASS)
            invariant
                next_native(plan.instances@, from as nat) == next_native(plan.instances@, i as nat),
            decreases plan.instances.len() - i,
        {
            i = i + 1;
        }
        if i >= plan.instances.len() {
            return Ok(None);
        }
        match choose_factory(&self.factories, &plan.instances[i]) {
            Ok(factory) => Ok(Some(Instantiation { instance: i, factory })),
            Err(error) => Err(error),
        }
    }

    /// The factory with which an Instance is recreated.
    pub fn recreate(&self, plan: &AppPlan, instance_key: &str) -> (r: Result<Instantiation, RuntimeFailure>)
        ensures
            recreated(self.factories@, plan.instances@, instance_key@, r),
    {
        match plan::find_instance(&plan.instances, instance_key) {
            None => Err(failure::invalid_about("unknown Plugin Instance `", instance_key, "`")),
            Some(i) => match choose_factory(&self.factories, &plan.instances[i]) {
                Ok(factory) => Ok(Instantiation { instance: i, factory }),
                Err(error) => Err(error),
            },
        }
    }
}

/// The endpoints that one Instance created: of each its Capability and Descriptor version.
#[derive(Debug)]
pub struct InstanceEndpoints {
    pub request: Vec<EndpointFacts>,
    pub stream: Vec<EndpointFacts>,
    pub event: Vec<EndpointFacts>,
}

/// What tells one endpoint from another.
#[derive(Debug)]
pub struct EndpointFacts {
    pub capability_id: String,
    pub descriptor_version: String,
}

/// Notes the endpoints of an Instance that was instantiated.
pub fn note_instance(instances: &mut TextMap<InstanceEndpoints>, instance_key: &str, endpoints: InstanceEndpoints) -> (r: Result<
    (),
    RuntimeFailure,
>)
    requires
        old(instances).wf(),
    ensures
        final(instances).wf(),
        outcome(r) == if old(instances).has(instance_key@) {
            Err::<(), FailureView>(invalid_plan("duplicate Plugin Instance `"@ + instance_key@ + "`"@))
        } else {
            Ok(())
        },
        final(instances).map() == old(instances).map().insert(instance_key@, endpoints),
{
    match instances.insert(instance_key.to_owned(), endpoints) {
        Some(_) => Err(failure::invalid_about("duplicate Plugin Instance `", instance_key, "`")),
        None => Ok(()),
    }
}

/// One binding whose provider endpoint was found: the texts of the binding and the endpoint's position.
#[derive(Debug)]
pub struct PreparedBinding {
    pub consumer_instance: String,
    pub provider_instance: String,
    pub requirement_id: String,
    pub endpoint: usize,
}

/// The bindings of an App, by the kind of their Operations.
#[derive(Debug)]
pub struct PreparedBindings {
    pub request: Vec<PreparedBinding>,
    pub stream: Vec<PreparedBinding>,
    pub event: Vec<PreparedBinding>,
}

/// What a prepared binding holds.
pub open spec fn prepared_facts(binding: PreparedBinding) -> (Seq<char>, Seq<char>, Seq<char>, int) {
    (binding.consumer_instance@, binding.provider_instance@, binding.requirement_id@, binding.endpoint as int)
}

/// What prepared bindings hold.
pub open spec fn all_prepared(bindings: Seq<PreparedBinding>) -> Seq<(Seq<char>, Seq<char>, Seq<char>, int)> {
    bindings.map_values(|binding: PreparedBinding| prepared_facts(binding))
}

/// The bindings by kind.
pub struct BindingsView {
    pub request: Seq<(Seq<char>, Seq<char>, Seq<char>, int)>,
    pub stream: Seq<(Seq<char>, Seq<char>, Seq<char>, int)>,
    pub event: Seq<(Seq<char>, Seq<char>, Seq<char>, int)>,
}

impl View for PreparedBindings {
    type V = BindingsView;

    open spec fn view(&self) -> BindingsView {
        BindingsView { request: all_prepared(self.request@), stream: all_prepared(self.stream@), event: all_prepared(self.event@) }
    }
}

/// The first provided Capability with an identity, from the `k`th on.
pub open spec fn provided(capabilities: Seq<PlanCapability>, id: Seq<char>, k: nat) -> Option<int>
    decreases capabilities.len() - k,
{
    if k >= capabilities.len() {
        None
    } else if capabilities[k as int].capability_id@ == id {
        Some(k as int)
    } else {
        provided(capabilities, id, k + 1)
    }
}

/// The first endpoint for a binding, from the `k`th on.
pub open spec fn endpoint_for(endpoints: Seq<EndpointFacts>, binding: PlanBinding, k: nat) -> Option<int>
    decreases endpoints.len() - k,
{
    if k >= endpoints.len() {
        None
    } else if endpoints[k as int].capability_id@ == binding.capability_id@ && endpoints[k as int].descriptor_version@
        == binding.descriptor_version@ {
        Some(k as int)
    } else {
        endpoint_for(endpoints, binding, k + 1)
    }
}

/// A provider without the endpoint that a binding needs.
pub open spec fn no_endpoint(binding: PlanBinding, kind: Seq<char>) -> FailureView {
    invalid_plan(
        "Capability `"@ + binding.capability_id@ + "` version `"@ + binding.descriptor_version@ + "` has no "@ + kind + " endpoint on provider `"@
            + binding.provider_instance@ + "`"@,
    )
}

/// One kind's prepared bindings with one more binding, where the Capability has Operations of that kind.
pub open spec fn joined(
    earlier: Seq<(Seq<char>, Seq<char>, Seq<char>, int)>,
    binding: PlanBinding,
    wanted: bool,
    endpoints: Seq<EndpointFacts>,
    kind: Seq<char>,
) -> Result<Seq<(Seq<char>, Seq<char>, Seq<char>, int)>, FailureView> {
    if !wanted {
        Ok(earlier)
    } else {
        match endpoint_for(endpoints, binding, 0) {
            None => Err(no_endpoint(binding, kind)),
            Some(i) => Ok(
                earlier.push((binding.consumer_instance@, binding.provider_instance@, binding.requirement_id@, i)),
            ),
        }
    }
}

/// The Capability that a binding's provider declares.
pub open spec fn bound_capability(plan: AppPlan, binding: PlanBinding) -> PlanCapability {
    let provider = plan.instances@[instance_position(plan.instances@, binding.provider_instance@)->Some_0];
    provider.provided_capabilities@[provided(provider.provided_capabilities@, binding.capability_id@, 0)->Some_0]
}

/// The prepared bindings with one more binding.
pub open spec fn with_binding(
    earlier: BindingsView,
    plan: AppPlan,
    instances: Map<Seq<char>, InstanceEndpoints>,
    binding: PlanBinding,
) -> Result<BindingsView, FailureView> {
    if !instances.dom().contains(binding.provider_instance@) {
        Ok(earlier)
    } else {
        let endpoints = instances[binding.provider_instance@];
        let capability = bound_capability(plan, binding);
        match joined(earlier.request, binding, capability.request_operations@.len() > 0, endpoints.request@, "request"@) {
            Err(fault) => Err(fault),
            Ok(request) => match joined(
                earlier.stream,
                binding,
                capability.stream_operations@.len() > 0,
                endpoints.stream@,
                "stream"@,
            ) {
                Err(fault) => Err(fault),
                Ok(stream) => match joined(
                    earlier.event,
                    binding,
                    capability.event_operations@.len() > 0,
                    endpoints.event@,
                    "Event"@,
                ) {
                    Err(fault) => Err(fault),
                    Ok(event) => Ok(BindingsView { request, stream, event }),
                },
            },
        }
    }
}

/// What the preparation of the first `n` bindings comes to.
pub open spec fn prepared(plan: AppPlan, instances: Map<Seq<char>, InstanceEndpoints>, n: nat) -> Result<BindingsView, FailureView>
    decreases n,
{
    if n == 0 {
        Ok(BindingsView { request: Seq::empty(), stream: Seq::empty(), event: Seq::empty() })
    } else {
        match prepared(plan, instances, (n - 1) as nat) {
            Err(fault) => Err(fault),
            Ok(earlier) => with_binding(earlier, plan, instances, plan.bindings@[n - 1]),
        }
    }
}

/// Every binding to a prepared Instance names an Instance of the Plan and a Capability that it provides.
pub open spec fn bindings_are_closed(plan: AppPlan, instances: Map<Seq<char>, InstanceEndpoints>) -> bool {
    forall|n: int|
        0 <= n < plan.bindings@.len() && instances.dom().contains((#[trigger] plan.bindings@[n]).provider_instance@) ==> {
            &&& instance_position(plan.instances@, plan.bindings@[n].provider_instance@) is Some
            &&& provided(
                plan.instances@[instance_position(plan.instances@, plan.bindings@[n].provider_instance@)->Some_0].provided_capabilities@,
                plan.bindings@[n].capability_id@,
                0,
            ) is Some
        }
}

/// Finds the Capability that a binding's provider declares.
fn find_provided(capabilities: &Vec<PlanCapability>, id: &str) -> (r: Option<usize>)
    ensures
        match provided(capabilities@, id@, 0) {
            None => r is None,
            Some(i) => r is Some && r->Some_0 == i && i < capabilities@.len(),
        },
{
    let mut i: usize = 0;
    while i < capabilities.len()
        invariant
            i <= capabilities.len(),
            provided(capabilities@, id@, 0) == provided(capabilities@, id@, i as nat),
        decreases capabilities.len() - i,
    {
        if text::same(capabilities[i].capability_id.as_str(), id) {
            return Some(i);
        }
        i = i + 1;
    }
    None
}

/// Joins one kind's prepared bindings with one more.
fn join(
    prepared: &mut Vec<PreparedBinding>,
    binding: &PlanBinding,
    wanted: bool,
    endpoints: &Vec<EndpointFacts>,
    kind: &str,
) -> (r: Result<(), RuntimeFailure>)
    ensures
        match joined(all_prepared(old(prepared)@), *binding, wanted, endpoints@, kind@) {
            Ok(after) => r is Ok && all_prepared(final(prepared)@) == after,
            Err(fault) => r is Err && r->Err_0@ == fault,
        },
{
    if !wanted {
        return Ok(());
    }
    let ghost before = all_prepared(prepared@);
    let mut i: usize = 0;
    while i < endpoints.len()
        invariant
            i <= endpoints.len(),
            *prepared == *old(prepared),
            wanted,
            before == all_prepared(prepared@),
            endpoint_for(endpoints@, *binding, 0) == endpoint_for(endpoints@, *binding, i as nat),
        decreases endpoints.len() - i,
    {
        if text::same(endpoints[i].capability_id.as_str(), binding.capability_id.as_str()) && text::same(
            endpoints[i].descriptor_version.as_str(),
            binding.descriptor_version.as_str(),
        ) {
            let entry = PreparedBinding {
                consumer_instance: binding.consumer_instance.clone(),
                provider_instance: binding.provider_instance.clone(),
                requirement_id: binding.requirement_id.clone(),
                endpoint: i,
            };
            prepared.push(entry);
            assert(all_prepared(prepared@) =~= before.push(prepared_facts(entry)));
            return Ok(());
        }
        i = i + 1;
    }
    let start = text::around("Capability `", binding.capability_id.as_str(), "` version `");
    let named = text::around(start.as_str(), binding.descriptor_version.as_str(), "` has no ");
    let about = text::around(named.as_str(), kind, " endpoint on provider `");
    Err(failure::invalid_about(about.as_str(), binding.provider_instance.as_str(), "`"))
}

/// Finds for every binding to a prepared Instance the endpoints that serve it.
pub fn prepare_bindings(plan: &AppPlan, instances: &TextMap<InstanceEndpoints>) -> (r: Result<PreparedBindings, RuntimeFailure>)
    requires
        instances.wf(),
        bindings_are_closed(*plan, instances.map()),
    ensures
        match prepared(*plan, instances.map(), plan.bindings@.len()) {
            Ok(bindings) => r is Ok && r->Ok_0@ == bindings,
            Err(fault) => r is Err && r->Err_0@ == fault,
        },
{
    let mut request: Vec<PreparedBinding> = Vec::new();
    let mut stream: Vec<PreparedBinding> = Vec::new();
    let mut event: Vec<PreparedBinding> = Vec::new();
    let mut n: usize = 0;
    let ghost map = instances.map();
    assert(all_prepared(request@) =~= Seq::empty());
    assert(all_prepared(stream@) =~= Seq::empty());
    assert(all_prepared(event@) =~= Seq::empty());
    while n < plan.bindings.len()
        invariant
            n <= plan.bindings.len(),
            instances.wf(),
            map == instances.map(),
            bindings_are_closed(*plan, map),
            prepared(*plan, map, n as nat) == Ok::<BindingsView, FailureView>(
                BindingsView { request: all_prepared(request@), stream: all_prepared(stream@), event: all_prepared(event@) },
            ),
        decreases plan.bindings.len() - n,
    {
        let binding = &plan.bindings[n];
        let ghost after = prepared(*plan, map, (n + 1) as nat);
        proof {
            assert(plan.bindings@[n as int] == *binding);
            assert(after == with_binding(
                BindingsView { request: all_prepared(request@), stream: all_prepared(stream@), event: all_prepared(event@) },
                *plan,
                map,
                *binding,
            ));
            instances.map_of_entries(binding.provider_instance@);
            faults_stay(*plan, map, (n + 1) as nat, plan.bindings@.len());
        }
        match instances.get(binding.provider_instance.as_str()) {
            None => {},
            Some(endpoints) => {
                let provider = plan::find_instance(&plan.instances, binding.provider_instance.as_str()).unwrap();
                let capabilities = &plan.instances[provider].provided_capabilities;
                let position = find_provided(capabilities, binding.capability_id.as_str()).unwrap();
                let capability = &capabilities[position];
                assert(*capability == bound_capability(*plan, *binding));
                match join(&mut request, binding, capability.request_operations.len() > 0, &endpoints.request, "request") {
                    Ok(()) => {},
                    Err(error) => return Err(error),
                }
                match join(&mut stream, binding, capability.stream_operations.len() > 0, &endpoints.stream, "stream") {
                    Ok(()) => {},
                    Err(error) => return Err(error),
                }
                match join(&mut event, binding, capability.event_operations.len() > 0, &endpoints.event, "Event") {
                    Ok(()) => {},
                    Err(error) => return Err(error),
                }
            },
        }
        n = n + 1;
    }
    Ok(PreparedBindings { request, stream, event })
}

proof fn faults_stay(plan: AppPlan, instances: Map<Seq<char>, InstanceEndpoints>, n: nat, m: nat)
    requires
        n <= m,
    ensures
        prepared(plan, instances, n) is Err ==> prepared(plan, instances, m) == prepared(plan, instances, n),
    decreases m - n,
{
    if n < m {
        faults_stay(plan, instances, n, (m - 1) as nat);
    }
}

proof fn lists_only_grow(plan: AppPlan, instances: Map<Seq<char>, InstanceEndpoints>, n: nat, m: nat)
    requires
        n <= m,
        prepared(plan, instances, m) is Ok,
    ensures
        prepared(plan, instances, n) is Ok,
        prepared(plan, instances, n)->Ok_0.request.is_prefix_of(prepared(plan, instances, m)->Ok_0.request),
        prepared(plan, instances, n)->Ok_0.stream.is_prefix_of(prepared(plan, instances, m)->Ok_0.stream),
        prepared(plan, instances, n)->Ok_0.event.is_prefix_of(prepared(plan, instances, m)->Ok_0.event),
    decreases m - n,
{
    if n < m {
        lists_only_grow(plan, instances, n, (m - 1) as nat);
    }
}

/// A Plan whose bindings could be prepared has an endpoint for every kind of Operation of every
/// Capability that is bound to a prepared Instance.
pub proof fn every_bound_capability_is_served(plan: AppPlan, instances: Map<Seq<char>, InstanceEndpoints>, n: int)
    requires
        prepared(plan, instances, plan.bindings@.len()) is Ok,
        0 <= n < plan.bindings@.len(),
        instances.dom().contains(plan.bindings@[n].provider_instance@),
    ensures
        ({
            let binding = plan.bindings@[n];
            let endpoints = instances[binding.provider_instance@];
            let capability = bound_capability(plan, binding);
            &&& capability.request_operations@.len() > 0 ==> endpoint_for(endpoints.request@, binding, 0) is Some
            &&& capability.stream_operations@.len() > 0 ==> endpoint_for(endpoints.stream@, binding, 0) is Some
            &&& capability.event_operations@.len() > 0 ==> endpoint_for(endpoints.event@, binding, 0) is Some
        }),
{
    lists_only_grow(plan, instances, (n + 1) as nat, plan.bindings@.len());
    lists_only_grow(plan, instances, n as nat, plan.bindings@.len());
}

} // verus!
