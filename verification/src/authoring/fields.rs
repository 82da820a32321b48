//! The fields of a struct-level Plugin: which are configuration, dependencies, Ports, tasks or resources.
use vstd::prelude::*;
use vstd::string::*;

use crate::authoring::shape::{
    generated_name, is_named, is_named_type, single_argument, single_type_argument, snake_case, write_namespace,
    PathShape, TypeShape,
};
use crate::authoring::{refused, AuthoringError};
use crate::text;
use crate::text::opt_text;

verus! {

/// How many providers a dependency has.
#[derive(Clone, Copy, Debug, PartialEq, Eq, Structural)]
pub enum DependencyCardinality {
    One,
    Optional,
    Many,
}

/// How many providers a Port has.
#[derive(Clone, Copy, Debug, PartialEq, Eq, Structural)]
pub enum PortCardinality {
    One,
    Many,
}

/// One argument of a dependency marker.
#[derive(Debug)]
pub struct DependencyEntry {
    pub key: String,
    pub value: String,
}

/// One field of a Plugin, with its construction markers.
#[derive(Debug)]
pub struct FieldShape {
    pub name: String,
    pub ty: TypeShape,
    pub config: bool,
    pub tasks: bool,
    pub resources: bool,
    /// The arguments of each dependency marker.
    pub dependencies: Vec<Vec<DependencyEntry>>,
}

/// The requirement that the first `n` arguments of a dependency marker name.
pub open spec fn marker_id(entries: Seq<DependencyEntry>, n: nat) -> Result<Option<Seq<char>>, Seq<char>>
    decreases n,
{
    if n == 0 {
        Ok(None)
    } else {
        match marker_id(entries, (n - 1) as nat) {
            Err(detail) => Err(detail),
            Ok(_) => if entries[n - 1].key@ == "id"@ {
                Ok(Some(entries[n - 1].value@))
            } else {
                Err("expected `id = \"public_requirement_id\"`"@)
            },
        }
    }
}

/// The requirement that the dependency marker of a field names, if there is one.
pub open spec fn dependency_of(field: FieldShape) -> Result<Option<Seq<char>>, Seq<char>> {
    let markers = field.dependencies@;
    if markers.len() == 0 {
        Ok(None)
    } else {
        match marker_id(markers[0]@, markers[0]@.len()) {
            Err(detail) => Err(detail),
            Ok(id) => if markers.len() > 1 {
                Err("duplicate `dependency` marker"@)
            } else {
                match id {
                    Some(id) => Ok(Some(id)),
                    None => Err("dependency id is required"@),
                }
            },
        }
    }
}

/// What a requirement that may be refused came to.
pub open spec fn id_outcome(r: Result<Option<String>, AuthoringError>) -> Result<Option<Seq<char>>, Seq<char>> {
    match r {
        Ok(id) => Ok(opt_text(id)),
        Err(error) => Err(error@),
    }
}

proof fn marker_fault_stays(entries: Seq<DependencyEntry>, n: nat, m: nat)
    requires
        n <= m,
        marker_id(entries, n) is Err,
    ensures
        marker_id(entries, m) == marker_id(entries, n),
    decreases m,
{
    if n < m {
        marker_fault_stays(entries, n, (m - 1) as nat);
    }
}

/// Reads the dependency marker of a field.
pub fn take_dependency(field: &FieldShape) -> (r: Result<Option<String>, AuthoringError>)
    ensures
        id_outcome(r) == dependency_of(*field),
{
    if field.dependencies.len() == 0 {
        return Ok(None);
    }
    let entries = &field.dependencies[0];
    let mut id: Option<String> = None;
    let mut i: usize = 0;
    while i < entries.len()
        invariant
            i <= entries.len(),
            field.dependencies@.len() > 0,
            *entries == field.dependencies@[0],
            marker_id(entries@, i as nat) == Ok::<Option<Seq<char>>, Seq<char>>(opt_text(id)),
        decreases entries.len() - i,
    {
        if !text::same(entries[i].key.as_str(), "id") {
            proof {
                marker_fault_stays(entries@, (i + 1) as nat, entries@.len());
            }
            return Err(refused("expected `id = \"public_requirement_id\"`"));
        }
        id = Some(entries[i].value.clone());
        i = i + 1;
    }
    if field.dependencies.len() > 1 {
        return Err(refused("duplicate `dependency` marker"));
    }
    match id {
        Some(id) => Ok(Some(id)),
        None => Err(refused("dependency id is required")),
    }
}

/// The client of a dependency and how many providers it has, or why the type names none.
pub open spec fn client_of(ty: TypeShape) -> Result<(TypeShape, DependencyCardinality), Seq<char>> {
    if ty.path is None || ty.path->Some_0.segments@.len() == 0 {
        Err("dependency type must be a generated client"@)
    } else {
        let segment = ty.path->Some_0.end();
        if segment.ident@ == "Option"@ {
            match single_argument(segment.arguments) {
                Some(client) => Ok((client, DependencyCardinality::Optional)),
                None => Err("dependency wrapper requires one type"@),
            }
        } else if segment.ident@ == "Vec"@ {
            match single_argument(segment.arguments) {
                None => Err("dependency wrapper requires one type"@),
                Some(bound) => if bound.path is None || bound.path->Some_0.segments@.len() == 0 {
                    Err("many dependency must contain a generated client"@)
                } else if bound.path->Some_0.end().ident@ != "BoundCapabilityClient"@ {
                    Err("many dependency must be `Vec<BoundCapabilityClient<Client>>`"@)
                } else {
                    match single_argument(bound.path->Some_0.end().arguments) {
                        Some(client) => Ok((client, DependencyCardinality::Many)),
                        None => Err("dependency wrapper requires one type"@),
                    }
                },
            }
        } else {
            Ok((ty, DependencyCardinality::One))
        }
    }
}

/// Finds the client of a dependency and how many providers it has.
pub fn dependency_client<'a>(ty: &'a TypeShape) -> (r: Result<(&'a TypeShape, DependencyCardinality), AuthoringError>)
    ensures
        match client_of(*ty) {
            Ok((client, cardinality)) => r is Ok && *r->Ok_0.0 == client && r->Ok_0.1 == cardinality,
            Err(detail) => r is Err && r->Err_0@ == detail,
        },
{
    let path = match &ty.path {
        Some(path) => path,
        None => return Err(refused("dependency type must be a generated client")),
    };
    if path.segments.len() == 0 {
        return Err(refused("dependency type must be a generated client"));
    }
    let segment = &path.segments[path.segments.len() - 1];
    proof {
        reveal_strlit("Option");
        reveal_strlit("Vec");
        assert("Option"@.len() != "Vec"@.len());
    }
    if text::same(segment.ident.as_str(), "Option") {
        return match single_type_argument(segment, "dependency wrapper requires one type") {
            Ok(client) => Ok((client, DependencyCardinality::Optional)),
            Err(error) => Err(error),
        };
    }
    if text::same(segment.ident.as_str(), "Vec") {
        let bound = match single_type_argument(segment, "dependency wrapper requires one type") {
            Ok(bound) => bound,
            Err(error) => return Err(error),
        };
        let bound_path = match &bound.path {
            Some(path) => path,
            None => return Err(refused("many dependency must contain a generated client")),
        };
        if bound_path.segments.len() == 0 {
            return Err(refused("many dependency must contain a generated client"));
        }
        let bound_segment = &bound_path.segments[bound_path.segments.len() - 1];
        if !text::same(bound_segment.ident.as_str(), "BoundCapabilityClient") {
            return Err(refused("many dependency must be `Vec<BoundCapabilityClient<Client>>`"));
        }
        return match single_type_argument(bound_segment, "dependency wrapper requires one type") {
            Ok(client) => Ok((client, DependencyCardinality::Many)),
            Err(error) => Err(error),
        };
    }
    Ok((ty, DependencyCardinality::One))
}

/// The client path of a Port and how many providers it has, if the type is a Port.
pub open spec fn port_of(ty: TypeShape) -> Result<Option<(PathShape, PortCardinality)>, Seq<char>> {
    if ty.path is None || ty.path->Some_0.segments@.len() == 0 {
        Ok(None)
    } else {
        let segment = ty.path->Some_0.end();
        if segment.ident@ != "Port"@ && segment.ident@ != "ManyPort"@ {
            Ok(None)
        } else {
            match single_argument(segment.arguments) {
                Some(client) => match client.path {
                    Some(path) => Ok(
                        Some(
                            (
                                path,
                                if segment.ident@ == "Port"@ {
                                    PortCardinality::One
                                } else {
                                    PortCardinality::Many
                                },
                            ),
                        ),
                    ),
                    None => Err("Port or ManyPort requires one Capability client type"@),
                },
                None => Err("Port or ManyPort requires one Capability client type"@),
            }
        }
    }
}

/// Finds the client path of a Port and how many providers it has.
pub fn port_client<'a>(ty: &'a TypeShape) -> (r: Result<Option<(&'a PathShape, PortCardinality)>, AuthoringError>)
    ensures
        match port_of(*ty) {
            Ok(None) => r == Ok::<Option<(&'a PathShape, PortCardinality)>, AuthoringError>(None),
            Ok(Some((client, cardinality))) => r is Ok && r->Ok_0 is Some && *r->Ok_0->Some_0.0 == client && r->Ok_0->Some_0.1 == cardinality,
            Err(detail) => r is Err && r->Err_0@ == detail,
        },
{
    let path = match &ty.path {
        Some(path) => path,
        None => return Ok(None),
    };
    if path.segments.len() == 0 {
        return Ok(None);
    }
    let segment = &path.segments[path.segments.len() - 1];
    let one: bool = text::same(segment.ident.as_str(), "Port");
    if !one && !text::same(segment.ident.as_str(), "ManyPort") {
        return Ok(None);
    }
    let client = match single_type_argument(segment, "Port or ManyPort requires one Capability client type") {
        Ok(client) => client,
        Err(error) => return Err(error),
    };
    let cardinality: PortCardinality = if one {
        PortCardinality::One
    } else {
        PortCardinality::Many
    };
    match &client.path {
        Some(client) => Ok(Some((client, cardinality))),
        None => Err(refused("Port or ManyPort requires one Capability client type")),
    }
}

/// What a Plugin of the first authoring version gives to a field when it is constructed.
#[derive(Clone, Copy, Debug, PartialEq, Eq, Structural)]
pub enum InitialValue {
    /// The configuration.
    Configuration,
    /// Nothing: construction fails, because only the second authoring version has dependencies.
    NeedsVersionTwo,
    /// The default of the type.
    Default,
    /// The resources of the Instance.
    Resources,
    /// The default of the type, or a failure where it has none.
    MaybeDefault,
}

/// What a field is to the construction of a complete object.
#[derive(Debug)]
pub enum ConstructionFieldKind<'a> {
    Config,
    Dependency { id: String, client: &'a TypeShape, cardinality: DependencyCardinality },
    Private,
    Legacy,
}

/// What a field is to construction, by the facts.
pub enum KindView {
    Config,
    Dependency { id: Seq<char>, client: TypeShape, cardinality: DependencyCardinality },
    Private,
    Legacy,
}

impl<'a> View for ConstructionFieldKind<'a> {
    type V = KindView;

    open spec fn view(&self) -> KindView {
        match *self {
            ConstructionFieldKind::Config => KindView::Config,
            ConstructionFieldKind::Dependency { id, client, cardinality } => KindView::Dependency { id: id@, client: *client, cardinality },
            ConstructionFieldKind::Private => KindView::Private,
            ConstructionFieldKind::Legacy => KindView::Legacy,
        }
    }
}

/// A Port field.
#[derive(Debug)]
pub struct PortField<'a> {
    pub name: &'a str,
    pub client: &'a PathShape,
    pub cardinality: PortCardinality,
}

/// A Port field by the facts.
pub open spec fn port_facts(port: PortField) -> (Seq<char>, PathShape, PortCardinality) {
    (port.name@, *port.client, port.cardinality)
}

/// The analysed fields of a Plugin; the initial values and kinds stand in the order of the fields.
#[derive(Debug)]
pub struct StructFields<'a> {
    pub config_type: Option<&'a TypeShape>,
    pub ports: Vec<PortField<'a>>,
    pub tasks: Vec<&'a str>,
    pub has_resources: bool,
    pub initializers: Vec<InitialValue>,
    pub construction_fields: Vec<ConstructionFieldKind<'a>>,
}

/// The analysed fields by the facts.
pub struct FieldsView {
    pub config_type: Option<TypeShape>,
    pub ports: Seq<(Seq<char>, PathShape, PortCardinality)>,
    pub tasks: Seq<Seq<char>>,
    pub has_resources: bool,
    pub initializers: Seq<InitialValue>,
    pub construction_fields: Seq<KindView>,
}

/// The types of optional references.
pub open spec fn opt_type(ty: Option<&TypeShape>) -> Option<TypeShape> {
    match ty {
        Some(ty) => Some(*ty),
        None => None,
    }
}

/// The facts of Port fields.
pub open spec fn all_ports(ports: Seq<PortField>) -> Seq<(Seq<char>, PathShape, PortCardinality)> {
    ports.map_values(|port: PortField| port_facts(port))
}

/// The facts of field kinds.
pub open spec fn all_kinds(kinds: Seq<ConstructionFieldKind>) -> Seq<KindView> {
    kinds.map_values(|kind: ConstructionFieldKind| kind@)
}

/// The texts of names.
pub open spec fn all_names(names: Seq<&str>) -> Seq<Seq<char>> {
    names.map_values(|name: &str| name@)
}

impl<'a> View for StructFields<'a> {
    type V = FieldsView;

    open spec fn view(&self) -> FieldsView {
        FieldsView {
            config_type: opt_type(self.config_type),
            ports: all_ports(self.ports@),
            tasks: all_names(self.tasks@),
            has_resources: self.has_resources,
            initializers: self.initializers@,
            construction_fields: all_kinds(self.construction_fields@),
        }
    }
}

impl FieldsView {
    /// The analysis with one more field that has no other effect.
    pub open spec fn with(self, initial: InitialValue, kind: KindView) -> Self {
        FieldsView { initializers: self.initializers.push(initial), construction_fields: self.construction_fields.push(kind), ..self }
    }
}

/// How many construction markers a field has.
pub open spec fn marker_count(field: FieldShape, dependency: bool) -> int {
    (if field.config { 1int } else { 0 }) + (if field.tasks { 1int } else { 0 }) + (if field.resources { 1int } else { 0 }) + (if dependency {
        1int
    } else {
        0
    })
}

/// The analysis with one more field, or why the field is refused.
pub open spec fn with_field(earlier: FieldsView, field: FieldShape) -> Result<FieldsView, Seq<char>> {
    match dependency_of(field) {
        Err(detail) => Err(detail),
        Ok(dependency) => if marker_count(field, dependency is Some) > 1 {
            Err("a Plugin field can have only one construction marker"@)
        } else if field.config {
            if earlier.config_type is Some {
                Err("a Plugin has exactly one `#[config]` field"@)
            } else {
                Ok(FieldsView { config_type: Some(field.ty), ..earlier.with(InitialValue::Configuration, KindView::Config) })
            }
        } else if dependency is Some {
            match client_of(field.ty) {
                Err(detail) => Err(detail),
                Ok((client, cardinality)) => Ok(
                    earlier.with(
                        InitialValue::NeedsVersionTwo,
                        KindView::Dependency { id: dependency->Some_0, client, cardinality },
                    ),
                ),
            }
        } else if field.tasks {
            if !is_named(field.ty, "ManagedTasks"@) {
                Err("a `#[tasks]` field must have type `ManagedTasks`"@)
            } else if earlier.tasks.len() > 0 {
                Err("a Plugin has at most one `#[tasks]` field"@)
            } else {
                Ok(FieldsView { tasks: earlier.tasks.push(field.name@), ..earlier.with(InitialValue::Default, KindView::Legacy) })
            }
        } else if field.resources {
            if !is_named(field.ty, "InstanceResources"@) {
                Err("a `#[resources]` field must have type `InstanceResources`"@)
            } else if earlier.has_resources {
                Err("a Plugin has at most one `#[resources]` field"@)
            } else {
                Ok(FieldsView { has_resources: true, ..earlier.with(InitialValue::Resources, KindView::Legacy) })
            }
        } else {
            match port_of(field.ty) {
                Err(detail) => Err(detail),
                Ok(Some((client, cardinality))) => Ok(
                    FieldsView {
                        ports: earlier.ports.push((field.name@, client, cardinality)),
                        ..earlier.with(InitialValue::Default, KindView::Legacy)
                    },
                ),
                Ok(None) => Ok(earlier.with(InitialValue::MaybeDefault, KindView::Private)),
            }
        },
    }
}

/// The analysis of the first `n` fields, or why one is refused.
pub open spec fn analyzed(fields: Seq<FieldShape>, n: nat) -> Result<FieldsView, Seq<char>>
    decreases n,
{
    if n == 0 {
        Ok(
            FieldsView {
                config_type: None,
                ports: Seq::empty(),
                tasks: Seq::empty(),
                has_resources: false,
                initializers: Seq::empty(),
                construction_fields: Seq::empty(),
            },
        )
    } else {
        match analyzed(fields, (n - 1) as nat) {
            Err(detail) => Err(detail),
            Ok(earlier) => with_field(earlier, fields[n - 1]),
        }
    }
}

proof fn analysis_fault_stays(fields: Seq<FieldShape>, n: nat, m: nat)
    requires
        n <= m,
        analyzed(fields, n) is Err,
    ensures
        analyzed(fields, m) == analyzed(fields, n),
    decreases m,
{
    if n < m {
        analysis_fault_stays(fields, n, (m - 1) as nat);
    }
}

impl<'a> StructFields<'a> {
    /// Notes one more field.
    fn note(&mut self, initial: InitialValue, kind: ConstructionFieldKind<'a>)
        ensures
            final(self)@ == old(self)@.with(initial, kind@),
            final(self).config_type == old(self).config_type,
            final(self).ports == old(self).ports,
            final(self).tasks == old(self).tasks,
            final(self).has_resources == old(self).has_resources,
    {
        let ghost before = self@;
        self.initializers.push(initial);
        self.construction_fields.push(kind);
        assert(all_kinds(self.construction_fields@) =~= before.construction_fields.push(kind@));
    }

    /// Enters one more field.
    fn enter(&mut self, field: &'a FieldShape) -> (r: Result<(), AuthoringError>)
        ensures
            match with_field(old(self)@, *field) {
                Ok(after) => r is Ok && final(self)@ == after,
                Err(detail) => r is Err && r->Err_0@ == detail,
            },
    {
        let ghost before = self@;
        let dependency = match take_dependency(field) {
            Ok(dependency) => dependency,
            Err(error) => return Err(error),
        };
        let mut count: u32 = 0;
        if field.config {
            count = count + 1;
        }
        if field.tasks {
            count = count + 1;
        }
        if field.resources {
            count = count + 1;
        }
        if dependency.is_some() {
            count = count + 1;
        }
        if count > 1 {
            return Err(refused("a Plugin field can have only one construction marker"));
        }
        if field.config {
            if self.config_type.is_some() {
                return Err(refused("a Plugin has exactly one `#[config]` field"));
            }
            self.note(InitialValue::Configuration, ConstructionFieldKind::Config);
            self.config_type = Some(&field.ty);
            return Ok(());
        }
        match dependency {
            Some(id) => {
                let (client, cardinality) = match dependency_client(&field.ty) {
                    Ok(found) => found,
                    Err(error) => return Err(error),
                };
                self.note(InitialValue::NeedsVersionTwo, ConstructionFieldKind::Dependency { id, client, cardinality });
                return Ok(());
            },
            None => {},
        }
        if field.tasks {
            if !is_named_type(&field.ty, "ManagedTasks") {
                return Err(refused("a `#[tasks]` field must have type `ManagedTasks`"));
            }
            if self.tasks.len() > 0 {
                return Err(refused("a Plugin has at most one `#[tasks]` field"));
            }
            self.note(InitialValue::Default, ConstructionFieldKind::Legacy);
            self.tasks.push(field.name.as_str());
            assert(all_names(self.tasks@) =~= before.tasks.push(field.name@));
            return Ok(());
        }
        if field.resources {
            if !is_named_type(&field.ty, "InstanceResources") {
                return Err(refused("a `#[resources]` field must have type `InstanceResources`"));
            }
            if self.has_resources {
                return Err(refused("a Plugin has at most one `#[resources]` field"));
            }
            self.note(InitialValue::Resources, ConstructionFieldKind::Legacy);
            self.has_resources = true;
            return Ok(());
        }
        match port_client(&field.ty) {
            Err(error) => Err(error),
            Ok(Some((client, cardinality))) => {
                self.note(InitialValue::Default, ConstructionFieldKind::Legacy);
                self.ports.push(PortField { name: field.name.as_str(), client, cardinality });
                assert(all_ports(self.ports@) =~= before.ports.push((field.name@, *client, cardinality)));
                Ok(())
            },
            Ok(None) => {
                self.note(InitialValue::MaybeDefault, ConstructionFieldKind::Private);
                Ok(())
            },
        }
    }
}

/// Analyses the fields of a Plugin; it must have named fields.
pub fn analyze_struct_fields<'a>(named: bool, fields: &'a Vec<FieldShape>) -> (r: Result<StructFields<'a>, AuthoringError>)
    ensures
        match r {
            Ok(analysis) => named && analyzed(fields@, fields@.len()) == Ok::<FieldsView, Seq<char>>(analysis@),
            Err(error) => if named {
                analyzed(fields@, fields@.len()) == Err::<FieldsView, Seq<char>>(error@)
            } else {
                error@ == "a struct-level Plugin requires named fields"@
            },
        },
{
    if !named {
        return Err(refused("a struct-level Plugin requires named fields"));
    }
    let mut analysis = StructFields {
        config_type: None,
        ports: Vec::new(),
        tasks: Vec::new(),
        has_resources: false,
        initializers: Vec::new(),
        construction_fields: Vec::new(),
    };
    proof {
        assert(all_ports(analysis.ports@) =~= Seq::empty());
        assert(all_names(analysis.tasks@) =~= Seq::empty());
        assert(all_kinds(analysis.construction_fields@) =~= Seq::empty());
    }
    let mut i: usize = 0;
    while i < fields.len()
        invariant
            i <= fields.len(),
            named,
            analyzed(fields@, i as nat) == Ok::<FieldsView, Seq<char>>(analysis@),
        decreases fields.len() - i,
    {
        match analysis.enter(&fields[i]) {
            Ok(()) => {},
            Err(error) => {
                proof {
                    analysis_fault_stays(fields@, (i + 1) as nat, fields@.len());
                }
                return Err(error);
            },
        }
        i = i + 1;
    }
    Ok(analysis)
}

/// An analysis has at most one tasks field, an entry for every field, and a configuration type exactly
/// where a field is marked as configuration.
pub proof fn analysis_covers_every_field(fields: Seq<FieldShape>, n: nat)
    requires
        n <= fields.len(),
        analyzed(fields, n) is Ok,
    ensures
        analyzed(fields, n)->Ok_0.initializers.len() == n,
        analyzed(fields, n)->Ok_0.construction_fields.len() == n,
        analyzed(fields, n)->Ok_0.tasks.len() <= 1,
        analyzed(fields, n)->Ok_0.config_type is Some <==> exists|i: int| 0 <= i < n && (#[trigger] fields[i]).config,
        forall|i: int|
            0 <= i < n ==> ((#[trigger] analyzed(fields, n)->Ok_0.construction_fields[i]) is Config <==> fields[i].config),
    decreases n,
{
    if n > 0 {
        analysis_covers_every_field(fields, (n - 1) as nat);
        let earlier = analyzed(fields, (n - 1) as nat)->Ok_0;
        let after = analyzed(fields, n)->Ok_0;
        assert(with_field(earlier, fields[n - 1]) == Ok::<FieldsView, Seq<char>>(after));
        assert forall|i: int| 0 <= i < n implies ((#[trigger] after.construction_fields[i]) is Config <==> fields[i].config) by {
            if i < n - 1 {
                assert(after.construction_fields[i] == earlier.construction_fields[i]);
            }
        }
        if fields[n - 1].config {
            assert(after.config_type is Some);
        } else {
            assert(after.config_type == earlier.config_type);
        }
    }
}

/// Where a field of a complete object comes from.
#[derive(Debug)]
pub enum FieldSource<'a> {
    /// The configuration.
    Configuration,
    /// The one provider of a requirement.
    Required { id: &'a str, client: &'a TypeShape },
    /// The provider of a requirement, if it has one.
    Optional { id: &'a str, client: &'a TypeShape },
    /// All providers of a requirement.
    Many { id: &'a str, client: &'a TypeShape },
    /// The default of the type, or a failure where it has none.
    OwnDefault,
    /// Nothing: construction fails, because the field belongs to the first authoring version.
    Refused,
}

/// Where a field of a complete object comes from, by the facts.
pub enum SourceView {
    Configuration,
    Required { id: Seq<char>, client: TypeShape },
    Optional { id: Seq<char>, client: TypeShape },
    Many { id: Seq<char>, client: TypeShape },
    OwnDefault,
    Refused,
}

impl<'a> View for FieldSource<'a> {
    type V = SourceView;

    open spec fn view(&self) -> SourceView {
        match *self {
            FieldSource::Configuration => SourceView::Configuration,
            FieldSource::Required { id, client } => SourceView::Required { id: id@, client: *client },
            FieldSource::Optional { id, client } => SourceView::Optional { id: id@, client: *client },
            FieldSource::Many { id, client } => SourceView::Many { id: id@, client: *client },
            FieldSource::OwnDefault => SourceView::OwnDefault,
            FieldSource::Refused => SourceView::Refused,
        }
    }
}

/// Where a field of a kind comes from.
pub open spec fn source_of(kind: KindView) -> SourceView {
    match kind {
        KindView::Config => SourceView::Configuration,
        KindView::Dependency { id, client, cardinality } => match cardinality {
            DependencyCardinality::One => SourceView::Required { id, client },
            DependencyCardinality::Optional => SourceView::Optional { id, client },
            DependencyCardinality::Many => SourceView::Many { id, client },
        },
        KindView::Private => SourceView::OwnDefault,
        KindView::Legacy => SourceView::Refused,
    }
}

/// A field of a kind is handed to a custom constructor.
pub open spec fn is_input(kind: KindView) -> bool {
    kind is Config || kind is Dependency
}

/// Decides where a field of a complete object comes from.
pub fn v2_field_initializer<'a>(kind: &'a ConstructionFieldKind<'a>) -> (r: FieldSource<'a>)
    ensures
        r@ == source_of(kind@),
{
    match kind {
        ConstructionFieldKind::Config => FieldSource::Configuration,
        ConstructionFieldKind::Dependency { id, client, cardinality } => match cardinality {
            DependencyCardinality::One => FieldSource::Required { id: id.as_str(), client: *client },
            DependencyCardinality::Optional => FieldSource::Optional { id: id.as_str(), client: *client },
            DependencyCardinality::Many => FieldSource::Many { id: id.as_str(), client: *client },
        },
        ConstructionFieldKind::Private => FieldSource::OwnDefault,
        ConstructionFieldKind::Legacy => FieldSource::Refused,
    }
}

/// Decides where an input of a custom constructor comes from; a private or legacy field is no input.
pub fn v2_input_initializer<'a>(kind: &'a ConstructionFieldKind<'a>) -> (r: Option<FieldSource<'a>>)
    ensures
        match r {
            Some(source) => is_input(kind@) && source@ == source_of(kind@),
            None => !is_input(kind@),
        },
{
    match kind {
        ConstructionFieldKind::Private => None,
        ConstructionFieldKind::Legacy => None,
        _ => Some(v2_field_initializer(kind)),
    }
}

/// A macro of a Capability's namespace that describes a requirement.
#[derive(Debug)]
pub struct RequirementMacro {
    pub namespace: String,
    pub name: String,
    pub id: Option<String>,
}

/// A requirement macro by the facts.
pub open spec fn requirement_facts(requirement: RequirementMacro) -> (Seq<char>, Seq<char>, Option<Seq<char>>) {
    (requirement.namespace@, requirement.name@, opt_text(requirement.id))
}

/// The macro that describes a requirement on a client, or why there is none.
pub open spec fn requirement_of(client: PathShape, prefix: Seq<char>, id: Option<Seq<char>>) -> Result<
    (Seq<char>, Seq<char>, Option<Seq<char>>),
    Seq<char>,
> {
    match client.namespace() {
        None => Err("a Capability client must be namespace-qualified, for example `model::ModelClient`"@),
        Some(namespace) => Ok((namespace, prefix + snake_case(client.end().ident@), id)),
    }
}

/// The prefix of the macro for a Port.
pub open spec fn port_prefix(cardinality: PortCardinality) -> Seq<char> {
    match cardinality {
        PortCardinality::One => "__lenso_required_"@,
        PortCardinality::Many => "__lenso_required_many_"@,
    }
}

/// The prefix of the macro for a named dependency.
pub open spec fn dependency_prefix(cardinality: DependencyCardinality) -> Seq<char> {
    match cardinality {
        DependencyCardinality::One => "__lenso_required_"@,
        DependencyCardinality::Optional => "__lenso_required_optional_"@,
        DependencyCardinality::Many => "__lenso_required_many_"@,
    }
}

/// What a requirement that may be refused came to.
pub open spec fn requirement_outcome(r: Result<RequirementMacro, AuthoringError>) -> Result<
    (Seq<char>, Seq<char>, Option<Seq<char>>),
    Seq<char>,
> {
    match r {
        Ok(requirement) => Ok(requirement_facts(requirement)),
        Err(error) => Err(error@),
    }
}

/// Names the macro that describes a requirement on a client.
fn requirement_macro_path(client: &PathShape, prefix: &str, id: Option<String>) -> (r: Result<RequirementMacro, AuthoringError>)
    ensures
        requirement_outcome(r) == requirement_of(*client, prefix@, opt_text(id)),
{
    match write_namespace(client) {
        None => Err(refused("a Capability client must be namespace-qualified, for example `model::ModelClient`")),
        Some(namespace) => {
            let end = &client.segments[client.segments.len() - 1];
            Ok(RequirementMacro { namespace, name: generated_name(prefix, end.ident.as_str()), id })
        },
    }
}

/// Names the macro that describes the requirement of a Port.
pub fn requirement_macro(client: &PathShape, cardinality: PortCardinality) -> (r: Result<RequirementMacro, AuthoringError>)
    ensures
        requirement_outcome(r) == requirement_of(*client, port_prefix(cardinality), None),
{
    match cardinality {
        PortCardinality::One => requirement_macro_path(client, "__lenso_required_", None),
        PortCardinality::Many => requirement_macro_path(client, "__lenso_required_many_", None),
    }
}

/// The macro that describes a named dependency, or why there is none.
pub open spec fn named_requirement(client: TypeShape, cardinality: DependencyCardinality, id: Seq<char>) -> Result<
    (Seq<char>, Seq<char>, Option<Seq<char>>),
    Seq<char>,
> {
    match client.path {
        None => Err("dependency client must be a namespace-qualified generated client"@),
        Some(path) => requirement_of(path, dependency_prefix(cardinality), Some(id)),
    }
}

/// Names the macro that describes a named dependency.
pub fn named_requirement_macro(client: &TypeShape, cardinality: DependencyCardinality, id: &str) -> (r: Result<RequirementMacro, AuthoringError>)
    ensures
        requirement_outcome(r) == named_requirement(*client, cardinality, id@),
{
    match &client.path {
        None => Err(refused("dependency client must be a namespace-qualified generated client")),
        Some(path) => match cardinality {
            DependencyCardinality::One => requirement_macro_path(path, "__lenso_required_", Some(id.to_owned())),
            DependencyCardinality::Optional => requirement_macro_path(path, "__lenso_required_optional_", Some(id.to_owned())),
            DependencyCardinality::Many => requirement_macro_path(path, "__lenso_required_many_", Some(id.to_owned())),
        },
    }
}

} // verus!
