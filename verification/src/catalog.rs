//! Which Execution Adapters a Host installs for a Generation.
use vstd::prelude::*;
use vstd::string::*;

use crate::error::{ControlPlaneError, ErrorView};
use crate::plan::{AppPlan, PlanInstance};
use crate::text;
use crate::text::texts;
use crate::text_map::TextMap;

verus! {

/// One kind of Execution Adapter beside those of the base catalog.
#[derive(Clone, Copy, Debug, PartialEq, Eq, Structural)]
pub enum AdapterKind {
    WasmComponent,
    QuickJs,
    Process,
    Remote,
    Dylib,
}

/// The execution class that each kind of Adapter provides.
#[derive(Debug)]
pub struct AdapterClasses {
    pub wasm_component: String,
    pub quickjs: String,
    pub process: String,
    pub remote: String,
    pub dylib: String,
}

impl AdapterClasses {
    /// The class of one kind.
    pub open spec fn of(self, kind: AdapterKind) -> Seq<char> {
        match kind {
            AdapterKind::WasmComponent => self.wasm_component@,
            AdapterKind::QuickJs => self.quickjs@,
            AdapterKind::Process => self.process@,
            AdapterKind::Remote => self.remote@,
            AdapterKind::Dylib => self.dylib@,
        }
    }

    /// The class of one kind.
    pub fn class(&self, kind: AdapterKind) -> (r: &str)
        ensures
            r@ == self.of(kind),
    {
        match kind {
            AdapterKind::WasmComponent => self.wasm_component.as_str(),
            AdapterKind::QuickJs => self.quickjs.as_str(),
            AdapterKind::Process => self.process.as_str(),
            AdapterKind::Remote => self.remote.as_str(),
            AdapterKind::Dylib => self.dylib.as_str(),
        }
    }
}

/// Some Instance runs in this class.
pub open spec fn selects(instances: Seq<PlanInstance>, class: Seq<char>) -> bool {
    exists|i: int| 0 <= i < instances.len() && (#[trigger] instances[i]).execution_class@ == class
}

/// The execution classes that a Plan selects, in order and each once.
pub fn selected_execution_classes(plan: &AppPlan) -> (r: TextMap<()>)
    ensures
        r.wf(),
        forall|class: Seq<char>| #[trigger] r.has(class) <==> selects(plan.instances@, class),
{
    let mut r: TextMap<()> = TextMap::new();
    let ghost all = plan.instances@;
    let mut i: usize = 0;
    while i < plan.instances.len()
        invariant
            i <= plan.instances.len(),
            all == plan.instances@,
            r.wf(),
            forall|class: Seq<char>| #[trigger] r.has(class) ==> selects(all, class),
            forall|k: int| 0 <= k < i ==> r.has((#[trigger] all[k]).execution_class@),
        decreases plan.instances.len() - i,
    {
        let class = plan.instances[i].execution_class.clone();
        let ghost before = r;
        let ghost key = class@;
        let _ = r.insert(class, ());
        proof {
            r.after_insert(before, key, ());
            assert(all[i as int].execution_class@ == key);
        }
        i = i + 1;
    }
    r
}

/// The kinds among `kinds` whose classes are selected.
pub open spec fn wanted(classes: AdapterClasses, kinds: Seq<AdapterKind>, instances: Seq<PlanInstance>) -> Seq<AdapterKind> {
    kinds.filter(|kind: AdapterKind| selects(instances, classes.of(kind)))
}

/// The kinds that the core factory installs, in order.
pub open spec fn core_kinds() -> Seq<AdapterKind> {
    seq![AdapterKind::WasmComponent, AdapterKind::QuickJs, AdapterKind::Process]
}

/// The kinds that the complete factory installs, in order.
pub open spec fn all_kinds() -> Seq<AdapterKind> {
    seq![AdapterKind::WasmComponent, AdapterKind::QuickJs, AdapterKind::Process, AdapterKind::Remote, AdapterKind::Dylib]
}

/// A class is provided: by the base catalog or by an installed Adapter.
pub open spec fn provided(classes: AdapterClasses, base: Seq<Seq<char>>, installed: Seq<AdapterKind>, class: Seq<char>) -> bool {
    base.contains(class) || exists|i: int| 0 <= i < installed.len() && classes.of(#[trigger] installed[i]) == class
}

/// A class is selected, and neither provided nor deferred.
pub open spec fn missing(
    classes: AdapterClasses,
    base: Seq<Seq<char>>,
    installed: Seq<AdapterKind>,
    deferred: Seq<Seq<char>>,
    instances: Seq<PlanInstance>,
    class: Seq<char>,
) -> bool {
    selects(instances, class) && !provided(classes, base, installed, class) && !deferred.contains(class)
}

/// What a catalog comes to: the Adapters to install, or the failure for the first class in order that is
/// missing.
pub open spec fn assembled(
    classes: AdapterClasses,
    base: Seq<Seq<char>>,
    installed: Seq<AdapterKind>,
    deferred: Seq<Seq<char>>,
    instances: Seq<PlanInstance>,
    r: Result<Vec<AdapterKind>, ControlPlaneError>,
) -> bool {
    match r {
        Ok(found) => found@ == installed && forall|class: Seq<char>| !#[trigger] missing(classes, base, installed, deferred, instances, class),
        Err(error) => exists|class: Seq<char>|
            {
                &&& #[trigger] missing(classes, base, installed, deferred, instances, class)
                &&& error@ == no_adapter(class)
                &&& forall|other: Seq<char>| #[trigger]
                    missing(classes, base, installed, deferred, instances, other) ==> other == class || text::text_lt(class, other)
            },
    }
}

/// The first of the first `n` selected classes that is neither provided nor deferred.
pub open spec fn unavailable(
    classes: AdapterClasses,
    base: Seq<Seq<char>>,
    installed: Seq<AdapterKind>,
    deferred: Seq<Seq<char>>,
    selected: Seq<(Seq<char>, ())>,
    n: nat,
) -> Option<Seq<char>>
    decreases n,
{
    if n == 0 {
        None
    } else {
        match unavailable(classes, base, installed, deferred, selected, (n - 1) as nat) {
            Some(class) => Some(class),
            None => {
                let class = selected[n - 1].0;
                if !provided(classes, base, installed, class) && !deferred.contains(class) {
                    Some(class)
                } else {
                    None
                }
            },
        }
    }
}

/// The failure of a Host that has no Adapter for a class.
pub open spec fn no_adapter(class: Seq<char>) -> ErrorView {
    ErrorView::HostFailure { detail: "Host Build has no installed Adapter for selected class `"@ + class + "`"@ }
}

/// Selects the kinds whose classes are selected.
fn chosen(classes: &AdapterClasses, kinds: &Vec<AdapterKind>, selected: &TextMap<()>, plan: &AppPlan) -> (r: Vec<AdapterKind>)
    requires
        selected.wf(),
        forall|class: Seq<char>| #[trigger] selected.has(class) <==> selects(plan.instances@, class),
    ensures
        r@ == wanted(*classes, kinds@, plan.instances@),
{
    let ghost test = |kind: AdapterKind| selects(plan.instances@, classes.of(kind));
    let mut r: Vec<AdapterKind> = Vec::new();
    let mut i: usize = 0;
    assert(kinds@.take(0).filter(test) =~= Seq::<AdapterKind>::empty()) by {
        reveal(Seq::filter);
    }
    while i < kinds.len()
        invariant
            i <= kinds.len(),
            selected.wf(),
            forall|class: Seq<char>| #[trigger] selected.has(class) <==> selects(plan.instances@, class),
            test == (|kind: AdapterKind| selects(plan.instances@, classes.of(kind))),
            r@ == kinds@.take(i as int).filter(test),
        decreases kinds.len() - i,
    {
        proof {
            reveal(Seq::filter);
            assert(kinds@.take(i + 1).drop_last() =~= kinds@.take(i as int));
            assert(kinds@.take(i + 1).last() == kinds@[i as int]);
        }
        let kind = kinds[i];
        if selected.contains_key(classes.class(kind)) {
            r.push(kind);
        }
        i = i + 1;
    }
    assert(kinds@.take(i as int) =~= kinds@);
    r
}

/// Decides whether a class is provided.
fn is_provided(classes: &AdapterClasses, base: &Vec<String>, installed: &Vec<AdapterKind>, class: &str) -> (r: bool)
    ensures
        r == provided(*classes, texts(base@), installed@, class@),
{
    if text::contains(base, class) {
        return true;
    }
    let mut i: usize = 0;
    while i < installed.len()
        invariant
            i <= installed.len(),
            forall|k: int| 0 <= k < i ==> classes.of(#[trigger] installed@[k]) != class@,
        decreases installed.len() - i,
    {
        if text::same(classes.class(installed[i]), class) {
            assert(classes.of(installed@[i as int]) == class@);
            return true;
        }
        i = i + 1;
    }
    false
}

/// Finding an unavailable class among more does not change the first.
proof fn unavailable_stays(
    classes: AdapterClasses,
    base: Seq<Seq<char>>,
    installed: Seq<AdapterKind>,
    deferred: Seq<Seq<char>>,
    selected: Seq<(Seq<char>, ())>,
    n: nat,
    m: nat,
)
    requires
        n <= m,
        unavailable(classes, base, installed, deferred, selected, n) is Some,
    ensures
        unavailable(classes, base, installed, deferred, selected, m) == unavailable(classes, base, installed, deferred, selected, n),
    decreases m,
{
    if n < m {
        unavailable_stays(classes, base, installed, deferred, selected, n, (m - 1) as nat);
    }
}

/// Catalog factory for native/base, Process, `QuickJS`, and Wasm execution classes.
#[derive(Debug)]
pub struct CoreExecutionCatalogFactory {
    pub classes: AdapterClasses,
    pub deferred_execution_classes: Vec<String>,
}

impl CoreExecutionCatalogFactory {
    /// A factory that defers no class.
    pub fn new(classes: AdapterClasses) -> (r: Self)
        ensures
            r.classes == classes,
            r.deferred_execution_classes@.len() == 0,
    {
        CoreExecutionCatalogFactory { classes, deferred_execution_classes: Vec::new() }
    }

    /// Defers one product-specific execution class to an outer Catalog factory.
    pub fn with_deferred_execution_class(self, execution_class: String) -> (r: Self)
        ensures
            r.classes == self.classes,
            r.deferred_execution_classes@ == self.deferred_execution_classes@.push(execution_class),
    {
        let mut deferred_execution_classes = self.deferred_execution_classes;
        deferred_execution_classes.push(execution_class);
        CoreExecutionCatalogFactory { classes: self.classes, deferred_execution_classes }
    }

    /// Checks that every selected class is provided or deferred: the first in order that is neither
    /// fails the catalog.
    pub fn validate(&self, base: &Vec<String>, installed: &Vec<AdapterKind>, selected: &TextMap<()>) -> (r: Result<(), ControlPlaneError>)
        requires
            selected.wf(),
        ensures
            match unavailable(
                self.classes,
                texts(base@),
                installed@,
                texts(self.deferred_execution_classes@),
                selected.entries(),
                selected.entries().len(),
            ) {
                Some(class) => r is Err && r->Err_0@ == no_adapter(class),
                None => r is Ok,
            },
    {
        let ghost deferred = texts(self.deferred_execution_classes@);
        let mut i: usize = 0;
        while i < selected.len()
            invariant
                i <= selected.entries().len(),
                selected.wf(),
                deferred == texts(self.deferred_execution_classes@),
                unavailable(self.classes, texts(base@), installed@, deferred, selected.entries(), i as nat) is None,
            decreases selected.entries().len() - i,
        {
            let class = selected.key_at(i);
            if !is_provided(&self.classes, base, installed, class) && !text::contains(&self.deferred_execution_classes, class) {
                proof {
                    unavailable_stays(
                        self.classes,
                        texts(base@),
                        installed@,
                        deferred,
                        selected.entries(),
                        (i + 1) as nat,
                        selected.entries().len(),
                    );
                }
                return Err(
                    ControlPlaneError::HostFailure {
                        detail: text::around("Host Build has no installed Adapter for selected class `", class, "`"),
                    },
                );
            }
            i = i + 1;
        }
        Ok(())
    }

    /// The Adapters to install for a Plan, beside those of the base catalog.
    pub fn catalog(&self, plan: &AppPlan, base: &Vec<String>) -> (r: Result<Vec<AdapterKind>, ControlPlaneError>)
        ensures
            assembled(
                self.classes,
                texts(base@),
                wanted(self.classes, core_kinds(), plan.instances@),
                texts(self.deferred_execution_classes@),
                plan.instances@,
                r,
            ),
    {
        let selected = selected_execution_classes(plan);
        let kinds: Vec<AdapterKind> = vec![AdapterKind::WasmComponent, AdapterKind::QuickJs, AdapterKind::Process];
        assert(kinds@ =~= core_kinds());
        let installed = chosen(&self.classes, &kinds, &selected, plan);
        match self.validate(base, &installed, &selected) {
            Ok(()) => {
                proof {
                    nothing_is_unavailable(
                        self.classes,
                        texts(base@),
                        installed@,
                        texts(self.deferred_execution_classes@),
                        selected,
                        plan.instances@,
                    );
                }
                Ok(installed)
            },
            Err(error) => {
                proof {
                    first_is_missing(
                        self.classes,
                        texts(base@),
                        installed@,
                        texts(self.deferred_execution_classes@),
                        selected,
                        plan.instances@,
                    );
                }
                Err(error)
            },
        }
    }
}

/// An unavailable class is the first that is missing.
proof fn first_is_missing(
    classes: AdapterClasses,
    base: Seq<Seq<char>>,
    installed: Seq<AdapterKind>,
    deferred: Seq<Seq<char>>,
    selected: TextMap<()>,
    instances: Seq<PlanInstance>,
)
    requires
        selected.wf(),
        unavailable(classes, base, installed, deferred, selected.entries(), selected.entries().len()) is Some,
        forall|class: Seq<char>| #[trigger] selected.has(class) <==> selects(instances, class),
    ensures
        ({
            let class = unavailable(classes, base, installed, deferred, selected.entries(), selected.entries().len())->Some_0;
            &&& missing(classes, base, installed, deferred, instances, class)
            &&& forall|other: Seq<char>| #[trigger]
                missing(classes, base, installed, deferred, instances, other) ==> other == class || text::text_lt(class, other)
        }),
{
    let entries = selected.entries();
    let n = entries.len();
    let class = unavailable(classes, base, installed, deferred, entries, n)->Some_0;
    let i = unavailable_position(classes, base, installed, deferred, entries, n);
    assert(entries[i].0 == class);
    assert(selected.has(class));
    assert forall|other: Seq<char>| #[trigger] missing(classes, base, installed, deferred, instances, other) implies other == class
        || text::text_lt(class, other) by {
        assert(selected.has(other));
        let j = choose|j: int| 0 <= j < entries.len() && (#[trigger] entries[j]).0 == other;
        if j < i {
            available_before(classes, base, installed, deferred, entries, j, i as nat);
        }
    }
}

/// Where the unavailable class stands.
proof fn unavailable_position(
    classes: AdapterClasses,
    base: Seq<Seq<char>>,
    installed: Seq<AdapterKind>,
    deferred: Seq<Seq<char>>,
    selected: Seq<(Seq<char>, ())>,
    n: nat,
) -> (i: int)
    requires
        n <= selected.len(),
        unavailable(classes, base, installed, deferred, selected, n) is Some,
    ensures
        0 <= i < n,
        selected[i].0 == unavailable(classes, base, installed, deferred, selected, n)->Some_0,
        !provided(classes, base, installed, selected[i].0),
        !deferred.contains(selected[i].0),
        unavailable(classes, base, installed, deferred, selected, i as nat) is None,
    decreases n,
{
    if unavailable(classes, base, installed, deferred, selected, (n - 1) as nat) is Some {
        unavailable_position(classes, base, installed, deferred, selected, (n - 1) as nat)
    } else {
        n - 1
    }
}

/// Where no class is unavailable, every selected one is provided or deferred.
proof fn nothing_is_unavailable(
    classes: AdapterClasses,
    base: Seq<Seq<char>>,
    installed: Seq<AdapterKind>,
    deferred: Seq<Seq<char>>,
    selected: TextMap<()>,
    instances: Seq<PlanInstance>,
)
    requires
        unavailable(classes, base, installed, deferred, selected.entries(), selected.entries().len()) is None,
        forall|class: Seq<char>| #[trigger] selected.has(class) <==> selects(instances, class),
    ensures
        forall|class: Seq<char>| !#[trigger] missing(classes, base, installed, deferred, instances, class),
{
    assert forall|class: Seq<char>| !#[trigger] missing(classes, base, installed, deferred, instances, class) by {
        if selects(instances, class) {
            assert(selected.has(class));
            let i = choose|i: int| 0 <= i < selected.entries().len() && (#[trigger] selected.entries()[i]).0 == class;
            available_before(classes, base, installed, deferred, selected.entries(), i, selected.entries().len());
        }
    }
}

proof fn available_before(
    classes: AdapterClasses,
    base: Seq<Seq<char>>,
    installed: Seq<AdapterKind>,
    deferred: Seq<Seq<char>>,
    selected: Seq<(Seq<char>, ())>,
    i: int,
    n: nat,
)
    requires
        0 <= i < n,
        unavailable(classes, base, installed, deferred, selected, n) is None,
    ensures
        provided(classes, base, installed, selected[i].0) || deferred.contains(selected[i].0),
    decreases n,
{
    if i < n - 1 {
        available_before(classes, base, installed, deferred, selected, i, (n - 1) as nat);
    }
}

/// Product Host Build factory that assembles all supported dynamic execution classes.
#[derive(Debug)]
pub struct MultiExecutionCatalogFactory {
    pub core: CoreExecutionCatalogFactory,
    pub has_dylib_verifier: bool,
}

impl MultiExecutionCatalogFactory {
    /// A factory that defers no class and trusts no native library.
    pub fn new(classes: AdapterClasses) -> (r: Self)
        ensures
            r.core.classes == classes,
            r.core.deferred_execution_classes@.len() == 0,
            !r.has_dylib_verifier,
    {
        MultiExecutionCatalogFactory { core: CoreExecutionCatalogFactory::new(classes), has_dylib_verifier: false }
    }

    /// Defers one product-specific execution class to an outer Catalog factory.
    pub fn with_deferred_execution_class(self, execution_class: String) -> (r: Self)
        ensures
            r.core.classes == self.core.classes,
            r.core.deferred_execution_classes@ == self.core.deferred_execution_classes@.push(execution_class),
            r.has_dylib_verifier == self.has_dylib_verifier,
    {
        MultiExecutionCatalogFactory {
            core: self.core.with_deferred_execution_class(execution_class),
            has_dylib_verifier: self.has_dylib_verifier,
        }
    }

    /// Notes that the exact host trust verifier required before dylib loading is installed.
    pub fn with_dylib_verifier(self) -> (r: Self)
        ensures
            r == (MultiExecutionCatalogFactory { has_dylib_verifier: true, ..self }),
    {
        MultiExecutionCatalogFactory { core: self.core, has_dylib_verifier: true }
    }

    /// The Adapters to install for a Plan, beside those of the base catalog. A native library is never
    /// selected without a trust verifier.
    pub fn catalog(&self, plan: &AppPlan, base: &Vec<String>) -> (r: Result<Vec<AdapterKind>, ControlPlaneError>)
        ensures
            guarded(
                self.core.classes,
                self.has_dylib_verifier,
                texts(base@),
                texts(self.core.deferred_execution_classes@),
                plan.instances@,
                r,
            ),
    {
        let selected = selected_execution_classes(plan);
        let kinds: Vec<AdapterKind> = vec![
            AdapterKind::WasmComponent,
            AdapterKind::QuickJs,
            AdapterKind::Process,
            AdapterKind::Remote,
            AdapterKind::Dylib,
        ];
        assert(kinds@ =~= all_kinds());
        let installed = chosen(&self.core.classes, &kinds, &selected, plan);
        if selected.contains_key(self.core.classes.dylib.as_str()) && !self.has_dylib_verifier {
            return Err(
                ControlPlaneError::HostFailure { detail: "Host Build selected native dylib without a trust verifier".to_owned() },
            );
        }
        match self.core.validate(base, &installed, &selected) {
            Ok(()) => {
                proof {
                    nothing_is_unavailable(
                        self.core.classes,
                        texts(base@),
                        installed@,
                        texts(self.core.deferred_execution_classes@),
                        selected,
                        plan.instances@,
                    );
                }
                Ok(installed)
            },
            Err(error) => {
                proof {
                    first_is_missing(
                        self.core.classes,
                        texts(base@),
                        installed@,
                        texts(self.core.deferred_execution_classes@),
                        selected,
                        plan.instances@,
                    );
                }
                Err(error)
            },
        }
    }
}

/// What a complete catalog comes to: a native library is never selected without a trust verifier.
pub open spec fn guarded(
    classes: AdapterClasses,
    verifier: bool,
    base: Seq<Seq<char>>,
    deferred: Seq<Seq<char>>,
    instances: Seq<PlanInstance>,
    r: Result<Vec<AdapterKind>, ControlPlaneError>,
) -> bool {
    if selects(instances, classes.dylib@) && !verifier {
        r is Err && r->Err_0@ == (ErrorView::HostFailure { detail: "Host Build selected native dylib without a trust verifier"@ })
    } else {
        assembled(classes, base, wanted(classes, all_kinds(), instances), deferred, instances, r)
    }
}

proof fn lemma_wanted(classes: AdapterClasses, kinds: Seq<AdapterKind>, instances: Seq<PlanInstance>)
    ensures
        forall|m: int| 0 <= m < wanted(classes, kinds, instances).len() ==> kinds.contains(#[trigger] wanted(classes, kinds, instances)[m]) && selects(
            instances,
            classes.of(wanted(classes, kinds, instances)[m]),
        ),
        forall|i: int| 0 <= i < kinds.len() && selects(instances, classes.of(#[trigger] kinds[i])) ==> wanted(classes, kinds, instances).contains(
            kinds[i],
        ),
    decreases kinds.len(),
{
    reveal(Seq::filter);
    let test = |kind: AdapterKind| selects(instances, classes.of(kind));
    let found = wanted(classes, kinds, instances);
    assert(found == kinds.filter(test));
    if kinds.len() > 0 {
        let rest = kinds.drop_last();
        lemma_wanted(classes, rest, instances);
        let earlier = wanted(classes, rest, instances);
        assert(earlier == rest.filter(test));
        assert(found == if test(kinds.last()) { earlier.push(kinds.last()) } else { earlier });
        assert forall|m: int| 0 <= m < found.len() implies kinds.contains(#[trigger] found[m]) && selects(instances, classes.of(found[m])) by {
            if m < earlier.len() {
                assert(found[m] == earlier[m]);
                let i = choose|i: int| 0 <= i < rest.len() && rest[i] == earlier[m];
                assert(kinds[i] == found[m]);
            } else {
                assert(kinds[kinds.len() - 1] == found[m]);
            }
        }
        assert forall|i: int| 0 <= i < kinds.len() && selects(instances, classes.of(#[trigger] kinds[i])) implies found.contains(kinds[i]) by {
            if i < rest.len() {
                assert(rest[i] == kinds[i]);
                let m = choose|m: int| 0 <= m < earlier.len() && earlier[m] == rest[i];
                assert(found[m] == kinds[i]);
            } else {
                assert(found[earlier.len() as int] == kinds[i]);
            }
        }
    }
}

/// A Host has an Adapter for every class that its Plan selects, or the class is left to an outer catalog;
/// otherwise the catalog fails. It installs the Adapters of the selected classes and no others, and never
/// one for native libraries without a trust verifier.
pub proof fn every_selected_class_has_its_adapter(
    classes: AdapterClasses,
    verifier: bool,
    base: Seq<Seq<char>>,
    deferred: Seq<Seq<char>>,
    instances: Seq<PlanInstance>,
    r: Result<Vec<AdapterKind>, ControlPlaneError>,
    i: int,
    m: int,
)
    requires
        guarded(classes, verifier, base, deferred, instances, r),
        0 <= i < instances.len(),
    ensures
        instances[i].execution_class@ == classes.dylib@ && !verifier ==> r is Err,
        r matches Ok(found) ==> {
            let class = instances[i].execution_class@;
            &&& base.contains(class) || deferred.contains(class) || class == classes.wasm_component@ || class == classes.quickjs@ || class
                == classes.process@ || class == classes.remote@ || class == classes.dylib@
            &&& class == classes.wasm_component@ ==> found@.contains(AdapterKind::WasmComponent)
            &&& class == classes.quickjs@ ==> found@.contains(AdapterKind::QuickJs)
            &&& class == classes.process@ ==> found@.contains(AdapterKind::Process)
            &&& class == classes.remote@ ==> found@.contains(AdapterKind::Remote)
            &&& class == classes.dylib@ ==> found@.contains(AdapterKind::Dylib)
            &&& 0 <= m < found@.len() ==> exists|k: int|
                0 <= k < instances.len() && (#[trigger] instances[k]).execution_class@ == (match found@[m] {
                    AdapterKind::WasmComponent => classes.wasm_component@,
                    AdapterKind::QuickJs => classes.quickjs@,
                    AdapterKind::Process => classes.process@,
                    AdapterKind::Remote => classes.remote@,
                    AdapterKind::Dylib => classes.dylib@,
                })
        },
        r is Err && (verifier || forall|k: int| 0 <= k < instances.len() ==> (#[trigger] instances[k]).execution_class@ != classes.dylib@)
            ==> exists|k: int| {
            let class = (#[trigger] instances[k]).execution_class@;
            &&& 0 <= k < instances.len()
            &&& !base.contains(class) && !deferred.contains(class)
            &&& class != classes.wasm_component@ && class != classes.quickjs@ && class != classes.process@ && class != classes.remote@ && class
                != classes.dylib@
        },
{
    let kinds = all_kinds();
    let installed = wanted(classes, kinds, instances);
    lemma_wanted(classes, kinds, instances);
    assert(kinds[0] == AdapterKind::WasmComponent && kinds[1] == AdapterKind::QuickJs && kinds[2] == AdapterKind::Process && kinds[3]
        == AdapterKind::Remote && kinds[4] == AdapterKind::Dylib);
    assert(selects(instances, instances[i].execution_class@));
    match r {
        Ok(found) => {
            let class = instances[i].execution_class@;
            assert(!missing(classes, base, installed, deferred, instances, class));
            assert(found@ == installed);
        },
        Err(error) => {
            if !(selects(instances, classes.dylib@) && !verifier) {
                let class = choose|class: Seq<char>|
                    {
                        &&& #[trigger] missing(classes, base, installed, deferred, instances, class)
                        &&& error@ == no_adapter(class)
                        &&& forall|other: Seq<char>| #[trigger]
                            missing(classes, base, installed, deferred, instances, other) ==> other == class || text::text_lt(class, other)
                    };
                let k = choose|k: int| 0 <= k < instances.len() && (#[trigger] instances[k]).execution_class@ == class;
                assert(instances[k].execution_class@ == class);
                assert forall|n: int| 0 <= n < 5 implies classes.of(#[trigger] kinds[n]) != class by {
                    if classes.of(kinds[n]) == class {
                        assert(installed.contains(kinds[n]));
                        let at = choose|at: int| 0 <= at < installed.len() && installed[at] == kinds[n];
                        assert(classes.of(installed[at]) == class);
                    }
                }
                assert(classes.of(kinds[0]) != class && classes.of(kinds[1]) != class && classes.of(kinds[2]) != class && classes.of(kinds[3]) != class
                    && classes.of(kinds[4]) != class);
            }
        },
    }
}

/// The core factory knows three kinds of Adapter: every class that a Plan selects is one of theirs, or
/// comes with the base catalog, or is deferred, or the catalog fails.
pub proof fn the_core_factory_knows_three_kinds(
    classes: AdapterClasses,
    base: Seq<Seq<char>>,
    deferred: Seq<Seq<char>>,
    instances: Seq<PlanInstance>,
    r: Result<Vec<AdapterKind>, ControlPlaneError>,
    i: int,
)
    requires
        assembled(classes, base, wanted(classes, core_kinds(), instances), deferred, instances, r),
        0 <= i < instances.len(),
    ensures
        r matches Ok(found) ==> {
            let class = instances[i].execution_class@;
            &&& base.contains(class) || deferred.contains(class) || class == classes.wasm_component@ || class == classes.quickjs@ || class
                == classes.process@
            &&& class == classes.wasm_component@ ==> found@.contains(AdapterKind::WasmComponent)
            &&& class == classes.quickjs@ ==> found@.contains(AdapterKind::QuickJs)
            &&& class == classes.process@ ==> found@.contains(AdapterKind::Process)
            &&& !found@.contains(AdapterKind::Remote) && !found@.contains(AdapterKind::Dylib)
        },
{
    let kinds = core_kinds();
    let installed = wanted(classes, kinds, instances);
    lemma_wanted(classes, kinds, instances);
    assert(kinds.len() == 3 && kinds[0] == AdapterKind::WasmComponent && kinds[1] == AdapterKind::QuickJs && kinds[2] == AdapterKind::Process);
    assert(selects(instances, instances[i].execution_class@));
    match r {
        Ok(found) => {
            assert(!missing(classes, base, installed, deferred, instances, instances[i].execution_class@));
            assert(found@ == installed);
            if installed.contains(AdapterKind::Remote) {
                let m = choose|m: int| 0 <= m < installed.len() && installed[m] == AdapterKind::Remote;
                assert(kinds.contains(installed[m]));
            }
            if installed.contains(AdapterKind::Dylib) {
                let m = choose|m: int| 0 <= m < installed.len() && installed[m] == AdapterKind::Dylib;
                assert(kinds.contains(installed[m]));
            }
        },
        Err(_) => {},
    }
}


/// The classes that are selected are all available exactly where each is one of the base catalog, one
/// that is deferred, or that of an installed Adapter. The first that is not is the one that is named.
pub proof fn an_unavailable_class_is_named(
    classes: AdapterClasses,
    base: Seq<Seq<char>>,
    installed: Seq<AdapterKind>,
    deferred: Seq<Seq<char>>,
    selected: Seq<(Seq<char>, ())>,
    n: nat,
)
    requires
        n <= selected.len(),
    ensures
        unavailable(classes, base, installed, deferred, selected, n) is None <==> forall|i: int|
            0 <= i < n ==> can_run(classes, base, installed, deferred, (#[trigger] selected[i]).0),
        unavailable(classes, base, installed, deferred, selected, n) matches Some(class) ==> exists|i: int|
            {
                &&& 0 <= i < n
                &&& (#[trigger] selected[i]).0 == class
                &&& !can_run(classes, base, installed, deferred, class)
                &&& forall|k: int| 0 <= k < i ==> can_run(classes, base, installed, deferred, (#[trigger] selected[k]).0)
            },
    decreases n,
{
    if n > 0 {
        an_unavailable_class_is_named(classes, base, installed, deferred, selected, (n - 1) as nat);
        let class = selected[n - 1].0;
        assert(can_run(classes, base, installed, deferred, class) <==> provided(classes, base, installed, class) || deferred.contains(class)) by {
            if exists|i: int| 0 <= i < installed.len() && classes.of(#[trigger] installed[i]) == class {
                let i = choose|i: int| 0 <= i < installed.len() && classes.of(#[trigger] installed[i]) == class;
                assert(installed.contains(installed[i]));
            }
            if installed.contains(AdapterKind::WasmComponent) {
                let i = choose|i: int| 0 <= i < installed.len() && installed[i] == AdapterKind::WasmComponent;
                assert(classes.of(installed[i]) == classes.wasm_component@);
            }
            if installed.contains(AdapterKind::QuickJs) {
                let i = choose|i: int| 0 <= i < installed.len() && installed[i] == AdapterKind::QuickJs;
                assert(classes.of(installed[i]) == classes.quickjs@);
            }
            if installed.contains(AdapterKind::Process) {
                let i = choose|i: int| 0 <= i < installed.len() && installed[i] == AdapterKind::Process;
                assert(classes.of(installed[i]) == classes.process@);
            }
            if installed.contains(AdapterKind::Remote) {
                let i = choose|i: int| 0 <= i < installed.len() && installed[i] == AdapterKind::Remote;
                assert(classes.of(installed[i]) == classes.remote@);
            }
            if installed.contains(AdapterKind::Dylib) {
                let i = choose|i: int| 0 <= i < installed.len() && installed[i] == AdapterKind::Dylib;
                assert(classes.of(installed[i]) == classes.dylib@);
            }
        }
        if unavailable(classes, base, installed, deferred, selected, (n - 1) as nat) is None {
            assert(selected[n - 1].0 == class);
        }
    }
}

/// A class can run: in the base catalog, deferred, or by an installed Adapter of that class.
pub open spec fn can_run(
    classes: AdapterClasses,
    base: Seq<Seq<char>>,
    installed: Seq<AdapterKind>,
    deferred: Seq<Seq<char>>,
    class: Seq<char>,
) -> bool {
    ||| base.contains(class)
    ||| deferred.contains(class)
    ||| installed.contains(AdapterKind::WasmComponent) && class == classes.wasm_component@
    ||| installed.contains(AdapterKind::QuickJs) && class == classes.quickjs@
    ||| installed.contains(AdapterKind::Process) && class == classes.process@
    ||| installed.contains(AdapterKind::Remote) && class == classes.remote@
    ||| installed.contains(AdapterKind::Dylib) && class == classes.dylib@
}
} // verus!
