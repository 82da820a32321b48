//! Plan-bound Capability imports of byte-oriented guests.
use vstd::prelude::*;
use vstd::string::*;
use vstd::utf8::encode_utf8;

use crate::decode::{json_text, json_texts, json_u32, literals, tree_text, tree_texts, tree_u32};
use crate::json;
use crate::json::{compact_json, entry_models, list_model, member, models, object_model, read_json, Json, JsonView};
use crate::text;
use crate::text::texts;

verus! {

/// Raw ABI functions supplied by the selected guest Execution Adapter.
pub trait HostImports: Clone {
    fn bindings(&self) -> String;

    fn invoke(&self, binding_id: u32, operation: &str, request_json: &str) -> String;

    fn stream_open(&self, binding_id: u32, operation: &str, request_json: &str) -> String;

    fn stream_send(&self, stream_id: u64, message_json: &str) -> String;

    fn stream_receive(&self, stream_id: u64) -> String;

    fn stream_close_send(&self, stream_id: u64) -> String;

    fn stream_cancel(&self, stream_id: u64) -> String;
}

/// Bounded failures from guest Stream session management.
#[derive(Clone, Copy, Debug, PartialEq, Eq, Structural)]
pub enum GuestSessionError {
    /// No further non-zero `u64` identity can be issued safely.
    IdentityExhausted,
    /// The Host referenced an identity that is not live in this guest.
    UnknownSession(u64),
}

/// Guest-owned Stream sessions with monotonic, non-zero ABI identities.
#[derive(Clone, Debug, PartialEq, Eq)]
pub struct GuestSessions<T> {
    next_id: u64,
    sessions: Vec<(u64, T)>,
}

impl<T> Default for GuestSessions<T> {
    /// An empty session table.
    fn default() -> (r: Self)
        ensures
            r.inv(),
            r.next() == 1,
            r.count() == 0,
            r.map() == Map::<u64, T>::empty(),
    {
        Self::new()
    }
}

/// What issuing an identity for a session comes to, and the table after it.
pub open spec fn session_issued<T>(before: GuestSessions<T>, session: T, r: Result<u64, GuestSessionError>, after: GuestSessions<T>) -> bool {
    if before.next() == 0 {
        r == Err::<u64, GuestSessionError>(GuestSessionError::IdentityExhausted) && after == before
    } else {
        let id = before.next();
        &&& r == Ok::<u64, GuestSessionError>(id)
        &&& !before.map().dom().contains(id)
        &&& after.map() == before.map().insert(id, session)
        &&& after.count() == before.count() + 1
        &&& after.next() == (if id == u64::MAX {
            0
        } else {
            (id + 1) as u64
        })
    }
}

/// What removing a session comes to, and the table after it.
pub open spec fn session_removed<T>(before: GuestSessions<T>, id: u64, r: Result<T, GuestSessionError>, after: GuestSessions<T>) -> bool {
    &&& after.next() == before.next()
    &&& match r {
        Ok(session) => {
            &&& before.map().dom().contains(id)
            &&& session == before.map()[id]
            &&& after.map() == before.map().remove(id)
            &&& after.count() + 1 == before.count()
        },
        Err(error) => !before.map().dom().contains(id) && error == GuestSessionError::UnknownSession(id) && after == before,
    }
}

/// An identity is never issued twice: not while its session lives, and not after it was removed. What is
/// removed is the session that was entered under the identity, and every other session stays.
pub proof fn an_identity_is_issued_once<T>(
    before: GuestSessions<T>,
    session: T,
    issued: Result<u64, GuestSessionError>,
    between: GuestSessions<T>,
    removed: Result<T, GuestSessionError>,
    after: GuestSessions<T>,
    next: T,
    again: Result<u64, GuestSessionError>,
    last: GuestSessions<T>,
    other: u64,
)
    requires
        before.inv(),
        session_issued(before, session, issued, between),
        issued is Ok,
        session_removed(between, issued->Ok_0, removed, after),
        session_issued(after, next, again, last),
    ensures
        issued->Ok_0 != 0,
        !before.map().dom().contains(issued->Ok_0),
        between.map().dom().contains(issued->Ok_0),
        removed == Ok::<T, GuestSessionError>(session),
        after.map() == before.map(),
        again is Ok ==> again->Ok_0 > issued->Ok_0,
        again is Err ==> issued->Ok_0 == u64::MAX,
        other != issued->Ok_0 ==> (between.map().dom().contains(other) <==> before.map().dom().contains(other)),
        other != issued->Ok_0 && before.map().dom().contains(other) ==> between.map()[other] == before.map()[other],
{
    assert(after.map() =~= before.map());
}

impl<T> GuestSessions<T> {
    /// The identity that is issued next; zero where none is left.
    pub closed spec fn next(self) -> u64 {
        self.next_id
    }

    /// A session with this identity is live.
    pub closed spec fn live(self, id: u64) -> bool {
        exists|i: int| 0 <= i < self.sessions@.len() && (#[trigger] self.sessions@[i]).0 == id
    }

    /// The live session with this identity.
    pub closed spec fn session(self, id: u64) -> T {
        self.sessions@[self.position(id)].1
    }

    spec fn position(self, id: u64) -> int {
        choose|i: int| 0 <= i < self.sessions@.len() && (#[trigger] self.sessions@[i]).0 == id
    }

    /// The live sessions by identity.
    pub open spec fn map(self) -> Map<u64, T> {
        Map::new(|id: u64| self.live(id), |id: u64| self.session(id))
    }

    /// The number of live sessions.
    pub closed spec fn count(self) -> nat {
        self.sessions@.len()
    }

    /// Identities are non-zero, increase, and were all issued before the next one.
    pub closed spec fn inv(self) -> bool {
        &&& forall|i: int, j: int| 0 <= i < j < self.sessions@.len() ==> (#[trigger] self.sessions@[i]).0 < (#[trigger] self.sessions@[j]).0
        &&& forall|i: int| 0 <= i < self.sessions@.len() ==> (#[trigger] self.sessions@[i]).0 != 0 && (self.next_id == 0 || self.sessions@[i].0
            < self.next_id)
    }

    /// Every live identity is non-zero and, while identities are left, below the next one.
    pub proof fn issued_identities(self, id: u64)
        requires
            self.inv(),
            self.map().dom().contains(id),
        ensures
            id != 0,
            self.next() == 0 || id < self.next(),
    {
    }

    /// The table counts its live sessions: it is empty exactly when none is live.
    pub proof fn count_of_live_sessions(self)
        requires
            self.inv(),
        ensures
            self.map().dom().finite(),
            self.map().dom().len() == self.count(),
            self.count() == 0 <==> self.map() == Map::<u64, T>::empty(),
    {
        let ids = self.sessions@.map_values(|entry: (u64, T)| entry.0);
        assert forall|i: int, j: int| 0 <= i < ids.len() && 0 <= j < ids.len() && i != j implies ids[i] != ids[j] by {
            if i < j {
                assert(self.sessions@[i].0 < self.sessions@[j].0);
            } else {
                assert(self.sessions@[j].0 < self.sessions@[i].0);
            }
        }
        ids.unique_seq_to_set();
        assert(self.map().dom() =~= ids.to_set()) by {
            assert forall|id: u64| self.live(id) <==> ids.contains(id) by {
                if self.live(id) {
                    let p = self.position(id);
                    assert(ids[p] == id);
                }
                if ids.contains(id) {
                    let p = choose|p: int| 0 <= p < ids.len() && ids[p] == id;
                    assert(self.sessions@[p].0 == id);
                }
            }
        }
        if self.count() == 0 {
            assert(self.map() =~= Map::empty());
        } else {
            assert(self.live(self.sessions@[0].0));
            assert(self.map().dom().contains(self.sessions@[0].0));
        }
    }

    proof fn placed(self, i: int)
        requires
            self.inv(),
            0 <= i < self.sessions@.len(),
        ensures
            self.live(self.sessions@[i].0),
            self.position(self.sessions@[i].0) == i,
    {
        let id = self.sessions@[i].0;
        assert(self.sessions@[i].0 == id);
        let p = self.position(id);
        assert(self.sessions@[p].0 == id);
    }

    /// Creates an empty session table. Stream identity zero is never issued.
    pub fn new() -> (r: Self)
        ensures
            r.inv(),
            r.next() == 1,
            r.count() == 0,
            r.map() == Map::<u64, T>::empty(),
    {
        let r = GuestSessions { next_id: 1, sessions: Vec::new() };
        assert(r.map() =~= Map::empty());
        r
    }

    /// Inserts one session and returns its stable ABI identity.
    pub fn insert(&mut self, session: T) -> (r: Result<u64, GuestSessionError>)
        requires
            old(self).inv(),
        ensures
            final(self).inv(),
            session_issued(*old(self), session, r, *final(self)),
    {
        if self.next_id == 0 {
            return Err(GuestSessionError::IdentityExhausted);
        }
        let ghost before = *self;
        let id = self.next_id;
        self.next_id = if id == u64::MAX {
            0
        } else {
            id + 1
        };
        self.sessions.push((id, session));
        proof {
            let n = before.sessions@.len() as int;
            assert(!before.live(id));
            self.placed(n);
            assert forall|k: u64| self.map().dom().contains(k) <==> before.map().insert(id, session).dom().contains(k) by {
                if self.live(k) {
                    let p = self.position(k);
                    if p < n {
                        before.placed(p);
                    }
                }
                if before.live(k) {
                    let p = before.position(k);
                    assert(self.sessions@[p] == before.sessions@[p]);
                    self.placed(p);
                }
            }
            assert forall|k: u64| self.map().dom().contains(k) implies self.map()[k] == before.map().insert(id, session)[k] by {
                let p = self.position(k);
                self.placed(p);
                if p < n {
                    before.placed(p);
                }
            }
            assert(self.map() =~= before.map().insert(id, session));
        }
        Ok(id)
    }

    /// The position of a live session.
    fn find(&self, id: u64) -> (r: Option<usize>)
        requires
            self.inv(),
        ensures
            match r {
                Some(i) => i < self.sessions@.len() && self.sessions@[i as int].0 == id && self.live(id) && self.position(id) == i,
                None => !self.live(id),
            },
    {
        let mut i: usize = 0;
        while i < self.sessions.len()
            invariant
                self.inv(),
                i <= self.sessions@.len(),
                forall|k: int| 0 <= k < i ==> (#[trigger] self.sessions@[k]).0 != id,
            decreases self.sessions.len() - i,
        {
            if self.sessions[i].0 == id {
                proof {
                    self.placed(i as int);
                }
                return Some(i);
            }
            i = i + 1;
        }
        None
    }

    /// Borrows one live session by ABI identity.
    pub fn get_mut(&mut self, id: u64) -> (r: Result<&mut T, GuestSessionError>)
        requires
            old(self).inv(),
        ensures
            match r {
                Ok(session) => {
                    &&& old(self).map().dom().contains(id)
                    &&& *session == old(self).map()[id]
                    &&& final(self).inv()
                    &&& final(self).next() == old(self).next()
                    &&& final(self).count() == old(self).count()
                    &&& final(self).map() == old(self).map().insert(id, *final(session))
                },
                Err(error) => !old(self).map().dom().contains(id) && error == GuestSessionError::UnknownSession(id) && *final(self) == *old(self),
            },
    {
        match self.find(id) {
            Some(i) => {
                let ghost before = *self;
                let ghost after = *final(self);
                let session = &mut self.sessions[i].1;
                proof {
                    lemma_updated(before, after, i as int, *final(session));
                }
                Ok(session)
            },
            None => Err(GuestSessionError::UnknownSession(id)),
        }
    }

    /// Removes one live session, returning its owned state.
    pub fn remove(&mut self, id: u64) -> (r: Result<T, GuestSessionError>)
        requires
            old(self).inv(),
        ensures
            final(self).inv(),
            session_removed(*old(self), id, r, *final(self)),
    {
        match self.find(id) {
            Some(i) => {
                let ghost before = *self;
                let (removed, session) = self.sessions.remove(i);
                proof {
                    let p = i as int;
                    assert forall|k: u64| self.map().dom().contains(k) <==> before.map().remove(id).dom().contains(k) by {
                        if self.live(k) {
                            let q = self.position(k);
                            let o = if q < p { q } else { q + 1 };
                            assert(self.sessions@[q] == before.sessions@[o]);
                            before.placed(o);
                        }
                        if before.live(k) && k != id {
                            let o = before.position(k);
                            let q = if o < p { o } else { o - 1 };
                            assert(self.sessions@[q] == before.sessions@[o]);
                            assert(self.live(k));
                        }
                    }
                    assert forall|k: u64| self.map().dom().contains(k) implies self.map()[k] == before.map().remove(id)[k] by {
                        let q = self.position(k);
                        let o = if q < p { q } else { q + 1 };
                        assert(self.sessions@[q] == before.sessions@[o]);
                        before.placed(o);
                    }
                    assert(self.map() =~= before.map().remove(id));
                }
                Ok(session)
            },
            None => Err(GuestSessionError::UnknownSession(id)),
        }
    }

    /// Number of live sessions retained by this guest instance.
    pub fn len(&self) -> (r: usize)
        ensures
            r == self.count(),
    {
        self.sessions.len()
    }

    /// Whether no live sessions are retained.
    pub fn is_empty(&self) -> (r: bool)
        ensures
            r == (self.count() == 0),
    {
        self.sessions.len() == 0
    }
}

proof fn lemma_updated<T>(before: GuestSessions<T>, after: GuestSessions<T>, i: int, value: T)
    requires
        before.inv(),
        0 <= i < before.sessions@.len(),
        after.next_id == before.next_id,
        after.sessions@ == before.sessions@.update(i, (before.sessions@[i].0, value)),
    ensures
        after.inv(),
        after.count() == before.count(),
        after.map() == before.map().insert(before.sessions@[i].0, value),
{
    let id = before.sessions@[i].0;
    assert forall|a: int, b: int| 0 <= a < b < after.sessions@.len() implies (#[trigger] after.sessions@[a]).0 < (#[trigger] after.sessions@[b]).0 by {
        assert(before.sessions@[a].0 < before.sessions@[b].0);
    }
    assert forall|k: u64| after.map().dom().contains(k) <==> before.map().insert(id, value).dom().contains(k) by {
        if after.live(k) {
            before.placed(after.position(k));
        }
        if before.live(k) {
            after.placed(before.position(k));
        }
        before.placed(i);
        after.placed(i);
    }
    assert forall|k: u64| after.map().dom().contains(k) implies after.map()[k] == before.map().insert(id, value)[k] by {
        let p = after.position(k);
        after.placed(p);
        before.placed(p);
        after.placed(i);
    }
    assert(after.map() =~= before.map().insert(id, value));
}

/// A bounded Runtime Failure projection safe for guest code to inspect.
#[derive(Clone, Debug, PartialEq, Eq)]
pub struct GuestRuntimeFailure {
    kind: String,
    value: Json,
}

impl GuestRuntimeFailure {
    /// The failure category.
    pub closed spec fn category(self) -> Seq<char> {
        self.kind@
    }

    /// The complete failure value.
    pub closed spec fn tree(self) -> JsonView {
        self.value.model()
    }

    /// Stable failure category projected by the Host.
    pub fn kind(&self) -> (r: &str)
        ensures
            r@ == self.category(),
    {
        self.kind.as_str()
    }

    /// Complete bounded failure value without Host-private details.
    pub fn value(&self) -> (r: &Json)
        ensures
            r.model() == self.tree(),
    {
        &self.value
    }
}

/// A guest-side protocol or generated-value failure.
#[derive(Clone, Copy, Debug, PartialEq, Eq)]
pub enum GuestProtocolError {
    InvalidEnvelope,
    InvalidValue,
    MissingBinding { capability_id: &'static str, descriptor_version: &'static str },
    AmbiguousBinding { capability_id: &'static str, descriptor_version: &'static str },
    DescriptorMismatch { capability_id: &'static str, descriptor_version: &'static str },
}

/// Domain, Runtime, and protocol outcomes remain explicitly distinct.
#[derive(Clone, Debug, PartialEq, Eq)]
pub enum GuestError<E> {
    Domain(E),
    Runtime(GuestRuntimeFailure),
    Protocol(GuestProtocolError),
}

/// One exact opaque binding derived from the immutable resolved Plan.
#[derive(Clone, Debug, PartialEq, Eq)]
pub struct GuestBinding {
    binding_id: u32,
    provider_instance: String,
    capability_id: String,
    descriptor_version: String,
    request_operations: Vec<String>,
    stream_operations: Vec<String>,
}

/// The facts of a binding.
pub struct BindingView {
    pub binding_id: u32,
    pub provider_instance: Seq<char>,
    pub capability_id: Seq<char>,
    pub descriptor_version: Seq<char>,
    pub request_operations: Seq<Seq<char>>,
    pub stream_operations: Seq<Seq<char>>,
}

impl View for GuestBinding {
    type V = BindingView;

    closed spec fn view(&self) -> BindingView {
        BindingView {
            binding_id: self.binding_id,
            provider_instance: self.provider_instance@,
            capability_id: self.capability_id@,
            descriptor_version: self.descriptor_version@,
            request_operations: texts(self.request_operations@),
            stream_operations: texts(self.stream_operations@),
        }
    }
}

impl GuestBinding {
    /// The opaque identity of the binding.
    pub fn binding_id(&self) -> (r: u32)
        ensures
            r == self@.binding_id,
    {
        self.binding_id
    }

    /// The Instance that provides the Capability.
    pub fn provider_instance(&self) -> (r: &str)
        ensures
            r@ == self@.provider_instance,
    {
        self.provider_instance.as_str()
    }

    /// The Capability.
    pub fn capability_id(&self) -> (r: &str)
        ensures
            r@ == self@.capability_id,
    {
        self.capability_id.as_str()
    }

    /// The version of the Capability's Descriptor.
    pub fn descriptor_version(&self) -> (r: &str)
        ensures
            r@ == self@.descriptor_version,
    {
        self.descriptor_version.as_str()
    }
}

/// A reply of the Host: a value, a Domain Error or a Runtime Failure.
pub enum EnvelopeView {
    Success(JsonView),
    Domain(JsonView),
    Runtime { kind: Seq<char>, value: JsonView },
}

/// What a reply says. It is an object with one entry; anything else is no reply.
pub open spec fn envelope(tree: Result<JsonView, Seq<char>>) -> Option<EnvelopeView> {
    match tree {
        Ok(JsonView::Object(entries)) => if entries.len() != 1 {
            None
        } else if entries[0].0 == "ok"@ {
            Some(EnvelopeView::Success(entries[0].1))
        } else if entries[0].0 == "error"@ {
            Some(EnvelopeView::Domain(entries[0].1))
        } else if entries[0].0 == "runtime"@ {
            match member(entries[0].1, "kind"@) {
                Some(JsonView::Text(kind)) => if kind.len() > 0 {
                    Some(EnvelopeView::Runtime { kind, value: entries[0].1 })
                } else {
                    None
                },
                _ => None,
            }
        } else {
            None
        },
        _ => None,
    }
}

/// What the reply text of the Host says.
pub open spec fn reply(encoded: Seq<char>) -> Option<EnvelopeView> {
    envelope(read_json(encode_utf8(encoded)))
}

/// A reply of the Host.
#[derive(Clone, Debug, PartialEq, Eq)]
pub enum WireEnvelope {
    Success(Json),
    Domain(Json),
    Runtime(GuestRuntimeFailure),
}

/// A reply says what was read.
pub open spec fn says(r: Option<WireEnvelope>, found: Option<EnvelopeView>) -> bool {
    match found {
        Some(EnvelopeView::Success(tree)) => r matches Some(WireEnvelope::Success(value)) && value.model() == tree && tree.sound(),
        Some(EnvelopeView::Domain(tree)) => r matches Some(WireEnvelope::Domain(value)) && value.model() == tree && tree.sound(),
        Some(EnvelopeView::Runtime { kind, value }) => r matches Some(WireEnvelope::Runtime(failure)) && failure.category() == kind
            && failure.tree() == value,
        None => r is None,
    }
}

fn decode_envelope(encoded: &str) -> (r: Option<WireEnvelope>)
    ensures
        says(r, reply(encoded@)),
{
    match json::from_bytes(encoded.as_bytes()) {
        Ok(tree) => envelope_of(tree),
        Err(_) => None,
    }
}

/// Takes a tree that was read as a reply of the Host.
pub fn envelope_of(tree: Json) -> (r: Option<WireEnvelope>)
    requires
        tree.model().sound(),
    ensures
        says(r, envelope(Ok(tree.model()))),
{
    match tree {
        Json::Object(entries) => {
            proof {
                object_model(entries);
                assert(tree.model() == JsonView::Object(entry_models(entries@)));
            }
            let ghost inner = tree.model()->Object_0;
            let mut entries = entries;
            if entries.len() != 1 {
                return None;
            }
            let ghost start = entries@;
            let (key, value) = entries.pop().unwrap();
            proof {
                assert(inner[0] == (key@, value.model()));
                assert(inner[0].1.distinct_keys() && inner[0].1.signed_below_zero());
            }
            if text::same(key.as_str(), "ok") {
                return Some(WireEnvelope::Success(value));
            }
            if text::same(key.as_str(), "error") {
                return Some(WireEnvelope::Domain(value));
            }
            if !text::same(key.as_str(), "runtime") {
                return None;
            }
            let kind = match json::get(&value, "kind") {
                Some(Json::Text(kind)) => {
                    if kind.as_str().is_empty() {
                        return None;
                    }
                    kind.clone()
                },
                _ => return None,
            };
            Some(WireEnvelope::Runtime(GuestRuntimeFailure { kind, value }))
        },
        _ => None,
    }
}

/// What an invocation comes to.
pub open spec fn invocation(encoded: Seq<char>, r: Result<Json, GuestError<Json>>) -> bool {
    match reply(encoded) {
        Some(EnvelopeView::Success(tree)) => r matches Ok(value) && value.model() == tree,
        Some(EnvelopeView::Domain(tree)) => r matches Err(GuestError::Domain(value)) && value.model() == tree,
        Some(EnvelopeView::Runtime { kind, value }) => r matches Err(GuestError::Runtime(failure)) && failure.category() == kind && failure.tree()
            == value,
        None => r == Err::<Json, GuestError<Json>>(GuestError::Protocol(GuestProtocolError::InvalidEnvelope)),
    }
}

/// What a transport call comes to: it has no Domain Errors.
pub open spec fn transport(encoded: Seq<char>, r: Result<Json, GuestError<Json>>) -> bool {
    match reply(encoded) {
        Some(EnvelopeView::Success(tree)) => r matches Ok(value) && value.model() == tree,
        Some(EnvelopeView::Runtime { kind, value }) => r matches Err(GuestError::Runtime(failure)) && failure.category() == kind && failure.tree()
            == value,
        _ => r == Err::<Json, GuestError<Json>>(GuestError::Protocol(GuestProtocolError::InvalidEnvelope)),
    }
}

/// Reads the reply of an invocation: Domain, Runtime and protocol failures stay distinct.
pub fn decode_invocation(encoded: &str) -> (r: Result<Json, GuestError<Json>>)
    ensures
        invocation(encoded@, r),
        r matches Ok(value) ==> value.model().sound(),
{
    match decode_envelope(encoded) {
        Some(WireEnvelope::Success(value)) => Ok(value),
        Some(WireEnvelope::Domain(value)) => Err(GuestError::Domain(value)),
        Some(WireEnvelope::Runtime(failure)) => Err(GuestError::Runtime(failure)),
        None => Err(GuestError::Protocol(GuestProtocolError::InvalidEnvelope)),
    }
}

/// Reads the reply of a transport call.
pub fn decode_transport_success(encoded: &str) -> (r: Result<Json, GuestError<Json>>)
    ensures
        transport(encoded@, r),
        r matches Ok(value) ==> value.model().sound(),
{
    match decode_envelope(encoded) {
        Some(WireEnvelope::Success(value)) => Ok(value),
        Some(WireEnvelope::Runtime(failure)) => Err(GuestError::Runtime(failure)),
        _ => Err(GuestError::Protocol(GuestProtocolError::InvalidEnvelope)),
    }
}

/// Domain Errors, Runtime Failures and protocol failures stay distinct: each comes from its own kind of
/// reply, a Runtime Failure always names its category, and a transport call has no Domain Error.
pub proof fn failures_stay_distinct(encoded: Seq<char>, invoked: Result<Json, GuestError<Json>>, carried: Result<Json, GuestError<Json>>)
    requires
        invocation(encoded, invoked),
        transport(encoded, carried),
    ensures
        invoked is Ok <==> reply(encoded) matches Some(EnvelopeView::Success(_)),
        invoked matches Err(GuestError::Domain(_)) <==> reply(encoded) matches Some(EnvelopeView::Domain(_)),
        invoked matches Err(GuestError::Runtime(_)) <==> reply(encoded) matches Some(EnvelopeView::Runtime { .. }),
        invoked matches Err(GuestError::Protocol(_)) <==> reply(encoded) is None,
        invoked matches Err(GuestError::Runtime(failure)) ==> failure.category().len() > 0,
        !(carried matches Err(GuestError::Domain(_))),
        carried is Ok <==> invoked is Ok,
{
}

/// The binding that six field values make.
pub open spec fn binding_from(id: JsonView, provider: JsonView, capability: JsonView, version: JsonView, requests: JsonView, streams: JsonView) -> Option<BindingView> {
    match (tree_u32(id), tree_text(provider), tree_text(capability), tree_text(version), tree_texts(requests), tree_texts(streams)) {
        (Some(binding_id), Some(provider_instance), Some(capability_id), Some(descriptor_version), Some(request_operations), Some(stream_operations)) => Some(
            BindingView {
                binding_id,
                provider_instance,
                capability_id,
                descriptor_version,
                request_operations,
                stream_operations,
            },
        ),
        _ => None,
    }
}

/// The key is one of the fields of a binding.
pub open spec fn binding_field(key: Seq<char>) -> bool {
    key == "binding_id"@ || key == "provider_instance"@ || key == "capability_id"@ || key == "descriptor_version"@ || key
        == "request_operations"@ || key == "stream_operations"@
}

/// The binding that a tree describes: an object with exactly the fields, or their values in order.
pub open spec fn binding_of(tree: JsonView) -> Option<BindingView> {
    match tree {
        JsonView::Object(entries) => if exists|i: int| 0 <= i < entries.len() && !binding_field((#[trigger] entries[i]).0) {
            None
        } else {
            match (
                member(tree, "binding_id"@),
                member(tree, "provider_instance"@),
                member(tree, "capability_id"@),
                member(tree, "descriptor_version"@),
                member(tree, "request_operations"@),
                member(tree, "stream_operations"@),
            ) {
                (Some(id), Some(provider), Some(capability), Some(version), Some(requests), Some(streams)) => binding_from(
                    id,
                    provider,
                    capability,
                    version,
                    requests,
                    streams,
                ),
                _ => None,
            }
        },
        JsonView::List(items) => if items.len() == 6 {
            binding_from(items[0], items[1], items[2], items[3], items[4], items[5])
        } else {
            None
        },
        _ => None,
    }
}

/// Builds a binding from its six field values.
fn build_binding(id: &Json, provider: &Json, capability: &Json, version: &Json, requests: &Json, streams: &Json) -> (r: Option<GuestBinding>)
    ensures
        match binding_from(id.model(), provider.model(), capability.model(), version.model(), requests.model(), streams.model()) {
            Some(facts) => r matches Some(binding) && binding@ == facts,
            None => r is None,
        },
{
    match (json_u32(id), json_text(provider), json_text(capability), json_text(version), json_texts(requests), json_texts(streams)) {
        (Some(binding_id), Some(provider_instance), Some(capability_id), Some(descriptor_version), Some(request_operations), Some(stream_operations)) => Some(
            GuestBinding {
                binding_id,
                provider_instance,
                capability_id,
                descriptor_version,
                request_operations,
                stream_operations,
            },
        ),
        _ => None,
    }
}

/// Decides whether a key is one of the fields of a binding.
fn is_binding_field(key: &str) -> (r: bool)
    ensures
        r == binding_field(key@),
{
    text::same(key, "binding_id") || text::same(key, "provider_instance") || text::same(key, "capability_id") || text::same(
        key,
        "descriptor_version",
    ) || text::same(key, "request_operations") || text::same(key, "stream_operations")
}

/// Reads one binding.
fn decode_binding(value: &Json) -> (r: Option<GuestBinding>)
    requires
        value.model().distinct_keys(),
    ensures
        match binding_of(value.model()) {
            Some(facts) => r matches Some(binding) && binding@ == facts,
            None => r is None,
        },
{
    match value {
        Json::Object(entries) => {
            proof {
                object_model(*entries);
            }
            let ghost trees = entry_models(entries@);
            let mut i: usize = 0;
            while i < entries.len()
                invariant
                    i <= entries.len(),
                    trees == entry_models(entries@),
                    value.model() == JsonView::Object(trees),
                    forall|k: int| 0 <= k < i ==> binding_field((#[trigger] trees[k]).0),
                decreases entries.len() - i,
            {
                assert(trees[i as int].0 == entries@[i as int].0@);
                if !is_binding_field(entries[i].0.as_str()) {
                    proof {
                        let inner = value.model()->Object_0;
                        assert(!binding_field(inner[i as int].0));
                    }
                    return None;
                }
                i = i + 1;
            }
            match (
                json::get(value, "binding_id"),
                json::get(value, "provider_instance"),
                json::get(value, "capability_id"),
                json::get(value, "descriptor_version"),
                json::get(value, "request_operations"),
                json::get(value, "stream_operations"),
            ) {
                (Some(id), Some(provider), Some(capability), Some(version), Some(requests), Some(streams)) => build_binding(
                    id,
                    provider,
                    capability,
                    version,
                    requests,
                    streams,
                ),
                _ => None,
            }
        },
        Json::List(items) => {
            proof {
                list_model(*items);
            }
            let ghost trees = models(items@);
            if items.len() != 6 {
                return None;
            }
            proof {
                assert(trees[0] == items@[0].model());
                assert(trees[1] == items@[1].model());
                assert(trees[2] == items@[2].model());
                assert(trees[3] == items@[3].model());
                assert(trees[4] == items@[4].model());
                assert(trees[5] == items@[5].model());
            }
            build_binding(&items[0], &items[1], &items[2], &items[3], &items[4], &items[5])
        },
        _ => None,
    }
}

/// The binding table that a tree describes.
pub open spec fn bindings_of(tree: JsonView) -> Option<Seq<BindingView>> {
    match tree {
        JsonView::List(items) => if forall|i: int| 0 <= i < items.len() ==> binding_of(#[trigger] items[i]) is Some {
            Some(items.map_values(|item: JsonView| binding_of(item)->Some_0))
        } else {
            None
        },
        _ => None,
    }
}

/// The facts of a list of bindings.
pub open spec fn binding_views(items: Seq<GuestBinding>) -> Seq<BindingView> {
    items.map_values(|item: GuestBinding| item@)
}

/// Reads the binding table.
pub fn decode_bindings(value: &Json) -> (r: Option<Vec<GuestBinding>>)
    requires
        value.model().sound(),
    ensures
        match bindings_of(value.model()) {
            Some(facts) => r matches Some(bindings) && binding_views(bindings@) == facts,
            None => r is None,
        },
{
    match value {
        Json::List(items) => {
            proof {
                list_model(*items);
            }
            let ghost trees = models(items@);
            let mut r: Vec<GuestBinding> = Vec::new();
            let mut i: usize = 0;
            while i < items.len()
                invariant
                    i <= items.len(),
                    trees == models(items@),
                    value.model() == JsonView::List(trees),
                    value.model().sound(),
                    r@.len() == i,
                    forall|k: int| 0 <= k < i ==> binding_of(#[trigger] trees[k]) == Some(r@[k]@),
                decreases items.len() - i,
            {
                proof {
                    assert(trees[i as int] == items@[i as int].model());
                    let inner = value.model()->List_0;
                    assert(inner[i as int].distinct_keys());
                }
                match decode_binding(&items[i]) {
                    Some(binding) => {
                        r.push(binding);
                    },
                    None => {
                        proof {
                            let inner = value.model()->List_0;
                            assert(binding_of(inner[i as int]) is None);
                        }
                        return None;
                    },
                }
                i = i + 1;
            }
            proof {
                assert(binding_views(r@) =~= trees.map_values(|item: JsonView| binding_of(item)->Some_0));
            }
            Some(r)
        },
        _ => None,
    }
}

/// What a call that hands back a value of the guest's own comes to: a value that does not decode is
/// invalid.
pub open spec fn decoded<T>(encoded: Seq<char>, read: spec_fn(JsonView) -> Option<T>, shown: Result<T, GuestError<Json>>) -> bool {
    match reply(encoded) {
        Some(EnvelopeView::Success(tree)) => match read(tree) {
            Some(value) => shown == Ok::<T, GuestError<Json>>(value),
            None => shown == Err::<T, GuestError<Json>>(GuestError::Protocol(GuestProtocolError::InvalidValue)),
        },
        Some(EnvelopeView::Runtime { kind, value }) => shown matches Err(GuestError::Runtime(failure)) && failure.category() == kind
            && failure.tree() == value,
        _ => shown == Err::<T, GuestError<Json>>(GuestError::Protocol(GuestProtocolError::InvalidEnvelope)),
    }
}

/// The null value stands for nothing.
pub open spec fn tree_unit(tree: JsonView) -> Option<()> {
    match tree {
        JsonView::Null => Some(()),
        _ => None,
    }
}

/// Reads the reply of a transport call that hands back nothing.
pub fn decode_done(encoded: &str) -> (r: Result<(), GuestError<Json>>)
    ensures
        decoded(encoded@, |tree: JsonView| tree_unit(tree), r),
{
    match decode_transport_success(encoded) {
        Ok(Json::Null) => Ok(()),
        Ok(_) => Err(GuestError::Protocol(GuestProtocolError::InvalidValue)),
        Err(error) => Err(error),
    }
}

/// The facts of what loading came to.
pub open spec fn loaded<H: HostImports>(r: Result<GuestContext<H>, GuestError<Json>>) -> Result<Seq<BindingView>, GuestError<Json>> {
    match r {
        Ok(context) => Ok(context.table()),
        Err(error) => Err(error),
    }
}

/// Loaded guest imports. Discovery occurs once and contains no ambient lookup.
#[derive(Clone, Debug)]
pub struct GuestContext<H: HostImports> {
    host: H,
    bindings: Vec<GuestBinding>,
}

/// The bindings of one Capability at one Descriptor version.
pub open spec fn candidates(table: Seq<BindingView>, capability_id: Seq<char>, descriptor_version: Seq<char>) -> Seq<BindingView> {
    table.filter(|binding: BindingView| binding.capability_id == capability_id && binding.descriptor_version == descriptor_version)
}

/// The same operations, in any order.
pub open spec fn same_operations(actual: Seq<Seq<char>>, expected: Seq<Seq<char>>) -> bool {
    actual.len() == expected.len() && actual.to_set() == expected.to_set()
}

/// The order in which operations are listed does not matter, and how often one is listed alone does not
/// make up for another: the lists are equally long and name the same operations.
pub proof fn operation_order_does_not_matter(actual: Seq<Seq<char>>, other: Seq<Seq<char>>, expected: Seq<Seq<char>>)
    requires
        actual.to_multiset() == other.to_multiset(),
    ensures
        same_operations(actual, expected) == same_operations(other, expected),
        same_operations(expected, actual) == same_operations(expected, other),
        same_operations(actual, expected) == same_operations(expected, actual),
{
    broadcast use vstd::seq_lib::group_to_multiset_ensures;

    assert(actual.len() == actual.to_multiset().len() && other.len() == other.to_multiset().len());
    assert(actual.to_set() =~= other.to_set()) by {
        assert forall|item: Seq<char>| actual.contains(item) <==> other.contains(item) by {
            assert(actual.contains(item) <==> actual.to_multiset().count(item) > 0);
            assert(other.contains(item) <==> other.to_multiset().count(item) > 0);
        }
    }
}

/// Decides whether a binding offers the expected operations.
pub fn operations_match(actual: &Vec<String>, expected: &[&'static str]) -> (r: bool)
    ensures
        r == same_operations(texts(actual@), literals(expected@)),
{
    let ghost a = texts(actual@);
    let ghost e = literals(expected@);
    if actual.len() != expected.len() {
        return false;
    }
    let mut i: usize = 0;
    while i < expected.len()
        invariant
            i <= expected.len(),
            a == texts(actual@),
            e == literals(expected@),
            forall|k: int| 0 <= k < i ==> a.contains(#[trigger] e[k]),
        decreases expected.len() - i,
    {
        assert(e[i as int] == expected@[i as int]@);
        if !text::contains(actual, expected[i]) {
            proof {
                assert(e.to_set().contains(e[i as int]));
                assert(!a.to_set().contains(e[i as int]));
            }
            return false;
        }
        i = i + 1;
    }
    let mut j: usize = 0;
    while j < actual.len()
        invariant
            j <= actual.len(),
            a == texts(actual@),
            e == literals(expected@),
            forall|k: int| 0 <= k < j ==> e.contains(#[trigger] a[k]),
        decreases actual.len() - j,
    {
        let mut found: bool = false;
        let mut k: usize = 0;
        while k < expected.len()
            invariant
                k <= expected.len(),
                j < actual.len(),
                a == texts(actual@),
                e == literals(expected@),
                found == (exists|m: int| 0 <= m < k && #[trigger] e[m] == a[j as int]),
            decreases expected.len() - k,
        {
            assert(e[k as int] == expected@[k as int]@);
            if text::same(expected[k], actual[j].as_str()) {
                found = true;
            }
            k = k + 1;
        }
        if !found {
            proof {
                assert(a.to_set().contains(a[j as int]));
                assert(!e.to_set().contains(a[j as int]));
            }
            return false;
        }
        j = j + 1;
    }
    proof {
        assert forall|x: Seq<char>| a.to_set().contains(x) == e.to_set().contains(x) by {
            if a.contains(x) {
                let m = choose|m: int| 0 <= m < a.len() && a[m] == x;
                assert(e.contains(a[m]));
            }
            if e.contains(x) {
                let m = choose|m: int| 0 <= m < e.len() && e[m] == x;
                assert(a.contains(e[m]));
            }
        }
        assert(a.to_set() =~= e.to_set());
    }
    true
}

/// What requiring a Capability comes to.
pub open spec fn required(
    table: Seq<BindingView>,
    capability_id: &'static str,
    descriptor_version: &'static str,
    request_operations: Seq<Seq<char>>,
    stream_operations: Seq<Seq<char>>,
) -> Result<BindingView, GuestProtocolError> {
    let found = candidates(table, capability_id@, descriptor_version@);
    if found.len() == 0 {
        Err(GuestProtocolError::MissingBinding { capability_id, descriptor_version })
    } else if found.len() > 1 {
        Err(GuestProtocolError::AmbiguousBinding { capability_id, descriptor_version })
    } else if !same_operations(found[0].request_operations, request_operations) || !same_operations(
        found[0].stream_operations,
        stream_operations,
    ) {
        Err(GuestProtocolError::DescriptorMismatch { capability_id, descriptor_version })
    } else {
        Ok(found[0])
    }
}

impl<H: HostImports> GuestContext<H> {
    /// The functions that the Host supplied.
    pub closed spec fn imports(self) -> H {
        self.host
    }

    /// The bindings that were loaded.
    pub closed spec fn table(self) -> Seq<BindingView> {
        binding_views(self.bindings@)
    }

    /// Loads the exact binding table activated for this Module generation.
    pub fn load(host: H) -> (r: Result<Self, GuestError<Json>>)
        ensures
            exists|encoded: String|
                #[trigger] call_ensures(H::bindings, (&host,), encoded) && decoded(
                    encoded@,
                    |tree: JsonView| bindings_of(tree),
                    loaded(r),
                ),
            r matches Ok(context) ==> context.imports() == host,
    {
        let encoded = host.bindings();
        match decode_transport_success(encoded.as_str()) {
            Ok(value) => match decode_bindings(&value) {
                Some(bindings) => Ok(GuestContext { host, bindings }),
                None => Err(GuestError::Protocol(GuestProtocolError::InvalidValue)),
            },
            Err(error) => Err(error),
        }
    }

    /// Resolves exactly one generated Capability client from Plan authority.
    pub fn require(
        &self,
        capability_id: &'static str,
        descriptor_version: &'static str,
        request_operations: &'static [&'static str],
        stream_operations: &'static [&'static str],
    ) -> (r: Result<GuestCapability<'_, H>, GuestError<Json>>)
        ensures
            match required(self.table(), capability_id, descriptor_version, literals(request_operations@), literals(stream_operations@)) {
                Ok(facts) => r matches Ok(capability) && capability.facts() == facts && capability.imports() == self.imports(),
                Err(error) => r == Err::<GuestCapability<'_, H>, GuestError<Json>>(GuestError::Protocol(error)),
            },
    {
        let ghost table = self.table();
        let ghost wanted = |binding: BindingView| binding.capability_id == capability_id@ && binding.descriptor_version == descriptor_version@;
        let mut count: usize = 0;
        let mut chosen: usize = 0;
        let mut i: usize = 0;
        assert(table.take(0).filter(wanted) =~= Seq::<BindingView>::empty()) by {
            reveal(Seq::filter);
        }
        while i < self.bindings.len()
            invariant
                i <= self.bindings.len(),
                count <= i,
                table == binding_views(self.bindings@),
                wanted == (|binding: BindingView| binding.capability_id == capability_id@ && binding.descriptor_version == descriptor_version@),
                count == table.take(i as int).filter(wanted).len(),
                count > 0 ==> chosen < i && table.take(i as int).filter(wanted)[0] == table[chosen as int],
            decreases self.bindings.len() - i,
        {
            proof {
                reveal(Seq::filter);
                assert(table.take(i as int + 1).drop_last() =~= table.take(i as int));
                assert(table.take(i as int + 1).last() == self.bindings@[i as int]@);
            }
            if text::same(self.bindings[i].capability_id.as_str(), capability_id) && text::same(
                self.bindings[i].descriptor_version.as_str(),
                descriptor_version,
            ) {
                if count == 0 {
                    chosen = i;
                }
                count = count + 1;
            }
            i = i + 1;
        }
        assert(table.take(table.len() as int) =~= table);
        if count == 0 {
            return Err(GuestError::Protocol(GuestProtocolError::MissingBinding { capability_id, descriptor_version }));
        }
        if count > 1 {
            return Err(GuestError::Protocol(GuestProtocolError::AmbiguousBinding { capability_id, descriptor_version }));
        }
        let binding = &self.bindings[chosen];
        assert(table[chosen as int] == binding@);
        if !operations_match(&binding.request_operations, request_operations) || !operations_match(
            &binding.stream_operations,
            stream_operations,
        ) {
            return Err(GuestError::Protocol(GuestProtocolError::DescriptorMismatch { capability_id, descriptor_version }));
        }
        Ok(GuestCapability { host: &self.host, binding })
    }
}

/// Exact imported Capability used by generated guest clients.
#[derive(Clone, Copy, Debug)]
pub struct GuestCapability<'a, H: HostImports> {
    host: &'a H,
    binding: &'a GuestBinding,
}

/// What opening a Stream comes to.
pub open spec fn opened<H: HostImports>(encoded: Seq<char>, r: Result<GuestStream<H>, GuestError<Json>>) -> bool {
    match reply(encoded) {
        Some(EnvelopeView::Success(JsonView::Unsigned(id))) => r matches Ok(stream) && stream.id() == id && !stream.is_finished(),
        Some(EnvelopeView::Success(_)) => r == Err::<GuestStream<H>, GuestError<Json>>(GuestError::Protocol(GuestProtocolError::InvalidValue)),
        Some(EnvelopeView::Domain(tree)) => r matches Err(GuestError::Domain(value)) && value.model() == tree,
        Some(EnvelopeView::Runtime { kind, value }) => r matches Err(GuestError::Runtime(failure)) && failure.category() == kind && failure.tree()
            == value,
        None => r == Err::<GuestStream<H>, GuestError<Json>>(GuestError::Protocol(GuestProtocolError::InvalidEnvelope)),
    }
}

impl<'a, H: HostImports> GuestCapability<'a, H> {
    /// The functions that the Host supplied.
    pub closed spec fn imports(self) -> H {
        *self.host
    }

    /// The facts of the selected binding.
    pub closed spec fn facts(self) -> BindingView {
        self.binding@
    }

    /// Returns the exact opaque Plan binding selected for this client.
    pub fn binding(&self) -> (r: &GuestBinding)
        ensures
            r@ == self.facts(),
    {
        self.binding
    }

    /// Invokes one Request Operation.
    pub fn request(&self, operation: &str, request: &Json) -> (r: Result<Json, GuestError<Json>>)
        requires
            request.model().sound(),
        ensures
            exists|request_json: &str, encoded: String|
                encode_utf8(request_json@) == compact_json(request.model()) && #[trigger] call_ensures(
                    H::invoke,
                    (&self.imports(), self.facts().binding_id, operation, request_json),
                    encoded,
                ) && invocation(encoded@, r),
    {
        let request_json = json::to_text(request);
        let request_json = request_json.as_str();
        let encoded = self.host.invoke(self.binding.binding_id, operation, request_json);
        assert(call_ensures(H::invoke, (&self.imports(), self.facts().binding_id, operation, request_json), encoded));
        decode_invocation(encoded.as_str())
    }

    /// Opens one bidirectional Stream Operation.
    pub fn open_stream(&self, operation: &str, request: &Json) -> (r: Result<GuestStream<H>, GuestError<Json>>)
        requires
            request.model().sound(),
        ensures
            exists|request_json: &str, encoded: String|
                encode_utf8(request_json@) == compact_json(request.model()) && #[trigger] call_ensures(
                    H::stream_open,
                    (&self.imports(), self.facts().binding_id, operation, request_json),
                    encoded,
                ) && opened(encoded@, r),
            r matches Ok(stream) ==> cloned(self.imports(), stream.imports()),
    {
        let request_json = json::to_text(request);
        let request_json = request_json.as_str();
        let encoded = self.host.stream_open(self.binding.binding_id, operation, request_json);
        assert(call_ensures(H::stream_open, (&self.imports(), self.facts().binding_id, operation, request_json), encoded));
        match decode_invocation(encoded.as_str()) {
            Ok(Json::Unsigned(stream_id)) => Ok(GuestStream { host: self.host.clone(), stream_id, finished: false }),
            Ok(_) => Err(GuestError::Protocol(GuestProtocolError::InvalidValue)),
            Err(error) => Err(error),
        }
    }
}

/// One frame received from an imported Host Stream.
#[derive(Debug, PartialEq, Eq)]
pub enum GuestStreamEvent<M, E> {
    Message(M),
    PeerHalfClosed,
    Terminal(Result<(), E>),
}

impl<M: Clone, E: Clone> Clone for GuestStreamEvent<M, E> {
    fn clone(&self) -> (r: Self)
        ensures
            match *self {
                GuestStreamEvent::Message(message) => r matches GuestStreamEvent::Message(copy) && cloned(message, copy),
                GuestStreamEvent::PeerHalfClosed => r is PeerHalfClosed,
                GuestStreamEvent::Terminal(Ok(())) => r matches GuestStreamEvent::Terminal(Ok(())),
                GuestStreamEvent::Terminal(Err(error)) => r matches GuestStreamEvent::Terminal(Err(copy)) && cloned(error, copy),
            },
    {
        match self {
            GuestStreamEvent::Message(message) => GuestStreamEvent::Message(message.clone()),
            GuestStreamEvent::PeerHalfClosed => GuestStreamEvent::PeerHalfClosed,
            GuestStreamEvent::Terminal(Ok(())) => GuestStreamEvent::Terminal(Ok(())),
            GuestStreamEvent::Terminal(Err(error)) => GuestStreamEvent::Terminal(Err(error.clone())),
        }
    }
}

/// The frame that a tag and its content make.
pub open spec fn frame_from(tag: Seq<char>, content: Option<JsonView>) -> Option<GuestStreamEvent<JsonView, JsonView>> {
    if tag == "message"@ {
        match content {
            Some(value) => Some(GuestStreamEvent::Message(value)),
            None => None,
        }
    } else if tag == "terminal-error"@ {
        match content {
            Some(value) => Some(GuestStreamEvent::Terminal(Err(value))),
            None => None,
        }
    } else if content is Some && !(content->Some_0 is Null) {
        None
    } else if tag == "peer-half-closed"@ {
        Some(GuestStreamEvent::PeerHalfClosed)
    } else if tag == "terminal-success"@ {
        Some(GuestStreamEvent::Terminal(Ok(())))
    } else {
        None
    }
}

/// The tag that a tree names: a text, or an object whose one key holds null.
pub open spec fn tag_of(tree: JsonView) -> Option<Seq<char>> {
    match tree {
        JsonView::Text(tag) => Some(tag),
        JsonView::Object(entries) => if entries.len() == 1 && entries[0].1 is Null {
            Some(entries[0].0)
        } else {
            None
        },
        _ => None,
    }
}

/// The frame that a tree describes: an object with a `kind` and, where the kind has one, a `value`,
/// or these two in a list.
pub open spec fn frame_of(tree: JsonView) -> Option<GuestStreamEvent<JsonView, JsonView>> {
    match tree {
        JsonView::Object(entries) => if exists|i: int| 0 <= i < entries.len() && (#[trigger] entries[i]).0 != "kind"@ && entries[i].0 != "value"@ {
            None
        } else {
            match member(tree, "kind"@) {
                Some(kind) => match tag_of(kind) {
                    Some(tag) => frame_from(tag, member(tree, "value"@)),
                    None => None,
                },
                None => None,
            }
        },
        JsonView::List(items) => if items.len() == 2 && items[0] is Text {
            frame_from(items[0]->Text_0, Some(items[1]))
        } else {
            None
        },
        _ => None,
    }
}

/// The facts of a frame.
pub open spec fn event_view(event: GuestStreamEvent<Json, Json>) -> GuestStreamEvent<JsonView, JsonView> {
    match event {
        GuestStreamEvent::Message(value) => GuestStreamEvent::Message(value.model()),
        GuestStreamEvent::PeerHalfClosed => GuestStreamEvent::PeerHalfClosed,
        GuestStreamEvent::Terminal(Ok(())) => GuestStreamEvent::Terminal(Ok(())),
        GuestStreamEvent::Terminal(Err(value)) => GuestStreamEvent::Terminal(Err(value.model())),
    }
}

/// Builds a frame from its tag and its content.
fn build_frame(tag: &str, content: Option<&Json>) -> (r: Option<GuestStreamEvent<Json, Json>>)
    ensures
        match frame_from(tag@, match content { Some(value) => Some(value.model()), None => None }) {
            Some(facts) => r matches Some(event) && event_view(event) == facts,
            None => r is None,
        },
{
    if text::same(tag, "message") {
        return match content {
            Some(value) => Some(GuestStreamEvent::Message(value.clone())),
            None => None,
        };
    }
    if text::same(tag, "terminal-error") {
        return match content {
            Some(value) => Some(GuestStreamEvent::Terminal(Err(value.clone()))),
            None => None,
        };
    }
    match content {
        None => {},
        Some(Json::Null) => {},
        Some(_) => return None,
    }
    if text::same(tag, "peer-half-closed") {
        return Some(GuestStreamEvent::PeerHalfClosed);
    }
    if text::same(tag, "terminal-success") {
        return Some(GuestStreamEvent::Terminal(Ok(())));
    }
    None
}

/// Reads a tag.
fn decode_tag(value: &Json) -> (r: Option<&str>)
    ensures
        text::opt_str(r) == tag_of(value.model()),
{
    match value {
        Json::Text(tag) => Some(tag.as_str()),
        Json::Object(entries) => {
            proof {
                object_model(*entries);
            }
            if entries.len() != 1 {
                return None;
            }
            assert(entry_models(entries@)[0] == (entries@[0].0@, entries@[0].1.model()));
            match &entries[0].1 {
                Json::Null => Some(entries[0].0.as_str()),
                _ => None,
            }
        },
        _ => None,
    }
}

/// Reads a frame.
fn decode_frame(value: &Json) -> (r: Option<GuestStreamEvent<Json, Json>>)
    requires
        value.model().distinct_keys(),
    ensures
        match frame_of(value.model()) {
            Some(facts) => r matches Some(event) && event_view(event) == facts,
            None => r is None,
        },
{
    match value {
        Json::Object(entries) => {
            proof {
                object_model(*entries);
            }
            let ghost trees = entry_models(entries@);
            let mut i: usize = 0;
            while i < entries.len()
                invariant
                    i <= entries.len(),
                    trees == entry_models(entries@),
                    value.model() == JsonView::Object(trees),
                    forall|k: int| 0 <= k < i ==> (#[trigger] trees[k]).0 == "kind"@ || trees[k].0 == "value"@,
                decreases entries.len() - i,
            {
                assert(trees[i as int].0 == entries@[i as int].0@);
                if !text::same(entries[i].0.as_str(), "kind") && !text::same(entries[i].0.as_str(), "value") {
                    proof {
                        let inner = value.model()->Object_0;
                        assert(inner[i as int].0 != "kind"@ && inner[i as int].0 != "value"@);
                    }
                    return None;
                }
                i = i + 1;
            }
            let tag = match json::get(value, "kind") {
                Some(kind) => match decode_tag(kind) {
                    Some(tag) => tag,
                    None => return None,
                },
                None => return None,
            };
            build_frame(tag, json::get(value, "value"))
        },
        Json::List(items) => {
            proof {
                list_model(*items);
            }
            let ghost trees = models(items@);
            if items.len() != 2 {
                return None;
            }
            proof {
                assert(trees[0] == items@[0].model());
                assert(trees[1] == items@[1].model());
            }
            match &items[0] {
                Json::Text(tag) => build_frame(tag.as_str(), Some(&items[1])),
                _ => None,
            }
        },
        _ => None,
    }
}

/// The facts of what receiving came to.
pub open spec fn received(r: Result<GuestStreamEvent<Json, Json>, GuestError<Json>>) -> Result<
    GuestStreamEvent<JsonView, JsonView>,
    GuestError<Json>,
> {
    match r {
        Ok(event) => Ok(event_view(event)),
        Err(error) => Err(error),
    }
}

/// What receiving a frame comes to, and whether the Stream is finished before and after it.
pub open spec fn frame_received(
    encoded: Seq<char>,
    was_finished: bool,
    is_finished: bool,
    r: Result<GuestStreamEvent<Json, Json>, GuestError<Json>>,
) -> bool {
    &&& decoded(encoded, |tree: JsonView| frame_of(tree), received(r))
    &&& is_finished == (was_finished || (r is Ok && r->Ok_0 is Terminal))
}

/// One bounded Host Stream owned by a guest call.
#[derive(Debug)]
pub struct GuestStream<H: HostImports> {
    host: H,
    stream_id: u64,
    finished: bool,
}

impl<H: HostImports> GuestStream<H> {
    /// The functions that the Host supplied.
    pub closed spec fn imports(self) -> H {
        self.host
    }

    /// The identity of the Stream.
    pub closed spec fn id(self) -> u64 {
        self.stream_id
    }

    /// The Host holds nothing of the Stream any more.
    pub closed spec fn is_finished(self) -> bool {
        self.finished
    }

    /// Sends one message to the Host provider.
    pub fn send(&self, message: &Json) -> (r: Result<(), GuestError<Json>>)
        requires
            message.model().sound(),
        ensures
            exists|message_json: &str, encoded: String|
                encode_utf8(message_json@) == compact_json(message.model()) && #[trigger] call_ensures(
                    H::stream_send,
                    (&self.imports(), self.id(), message_json),
                    encoded,
                ) && decoded(encoded@, |tree: JsonView| tree_unit(tree), r),
    {
        let message_json = json::to_text(message);
        let message_json = message_json.as_str();
        let encoded = self.host.stream_send(self.stream_id, message_json);
        assert(call_ensures(H::stream_send, (&self.imports(), self.id(), message_json), encoded));
        decode_done(encoded.as_str())
    }

    /// Receives the next message, peer half-close, or terminal outcome. A terminal outcome finishes the
    /// Stream.
    pub fn receive(&mut self) -> (r: Result<GuestStreamEvent<Json, Json>, GuestError<Json>>)
        ensures
            exists|encoded: String|
                #[trigger] call_ensures(H::stream_receive, (&old(self).imports(), old(self).id()), encoded) && frame_received(
                    encoded@,
                    old(self).is_finished(),
                    final(self).is_finished(),
                    r,
                ),
            final(self).imports() == old(self).imports(),
            final(self).id() == old(self).id(),
    {
        let encoded = self.host.stream_receive(self.stream_id);
        assert(call_ensures(H::stream_receive, (&self.imports(), self.id()), encoded));
        match decode_transport_success(encoded.as_str()) {
            Ok(value) => match decode_frame(&value) {
                Some(event) => {
                    match &event {
                        GuestStreamEvent::Terminal(_) => {
                            self.finished = true;
                        },
                        _ => {},
                    }
                    Ok(event)
                },
                None => Err(GuestError::Protocol(GuestProtocolError::InvalidValue)),
            },
            Err(error) => Err(error),
        }
    }

    /// Half-closes the guest-to-Host direction.
    pub fn close_send(&self) -> (r: Result<(), GuestError<Json>>)
        ensures
            exists|encoded: String|
                #[trigger] call_ensures(H::stream_close_send, (&self.imports(), self.id()), encoded) && decoded(
                    encoded@,
                    |tree: JsonView| tree_unit(tree),
                    r,
                ),
    {
        let encoded = self.host.stream_close_send(self.stream_id);
        assert(call_ensures(H::stream_close_send, (&self.imports(), self.id()), encoded));
        decode_done(encoded.as_str())
    }

    /// Cancels this Stream and releases its Adapter-local identity.
    pub fn cancel(self) -> (r: Result<(), GuestError<Json>>)
        ensures
            exists|encoded: String|
                #[trigger] call_ensures(H::stream_cancel, (&self.imports(), self.id()), encoded) && decoded(
                    encoded@,
                    |tree: JsonView| tree_unit(tree),
                    r,
                ),
    {
        let encoded = self.host.stream_cancel(self.stream_id);
        assert(call_ensures(H::stream_cancel, (&self.imports(), self.id()), encoded));
        decode_done(encoded.as_str())
    }

    /// Lets go of the Stream: one that is not finished is cancelled. Gives the Host's reply to the
    /// cancellation, where there was one.
    pub fn release(&mut self) -> (r: Option<String>)
        ensures
            final(self).imports() == old(self).imports(),
            final(self).id() == old(self).id(),
            final(self).is_finished(),
            r is Some <==> !old(self).is_finished(),
            r is Some ==> call_ensures(H::stream_cancel, (&old(self).imports(), old(self).id()), r->Some_0),
    {
        if self.finished {
            return None;
        }
        let encoded = self.host.stream_cancel(self.stream_id);
        self.finished = true;
        Some(encoded)
    }
}

proof fn lemma_one_entry(key: Seq<char>, value: JsonView, other: Seq<char>)
    ensures
        member(JsonView::Object(seq![(key, value)]), key) == Some(value),
        other != key ==> member(JsonView::Object(seq![(key, value)]), other) is None,
{
    let entries = seq![(key, value)];
    assert(entries[0].0 == key);
}

proof fn lemma_two_entries(key: Seq<char>, value: JsonView, second: Seq<char>, content: JsonView)
    requires
        key != second,
    ensures
        member(JsonView::Object(seq![(key, value), (second, content)]), key) == Some(value),
        member(JsonView::Object(seq![(key, value), (second, content)]), second) == Some(content),
{
    let entries = seq![(key, value), (second, content)];
    assert(entries[0].0 == key && entries[1].0 == second);
}

/// The texts that replies and frames are told apart by are pairwise different.
proof fn lemma_words()
    ensures
        "ok"@ != "error"@,
        "ok"@ != "runtime"@,
        "error"@ != "runtime"@,
        "kind"@ != "value"@,
        "message"@ != "terminal-error"@,
        "message"@ != "peer-half-closed"@,
        "message"@ != "terminal-success"@,
        "terminal-error"@ != "peer-half-closed"@,
        "terminal-error"@ != "terminal-success"@,
        "peer-half-closed"@ != "terminal-success"@,
{
    reveal_strlit("ok");
    reveal_strlit("error");
    reveal_strlit("runtime");
    reveal_strlit("kind");
    reveal_strlit("value");
    reveal_strlit("message");
    reveal_strlit("terminal-error");
    reveal_strlit("peer-half-closed");
    reveal_strlit("terminal-success");
    assert("ok"@[0] != "error"@[0]);
    assert("ok"@[0] != "runtime"@[0]);
    assert("error"@[0] != "runtime"@[0]);
    assert("kind"@[0] != "value"@[0]);
    assert("message"@[0] != "terminal-error"@[0]);
    assert("message"@[0] != "peer-half-closed"@[0]);
    assert("terminal-error"@[0] != "peer-half-closed"@[0]);
    assert("peer-half-closed"@[0] != "terminal-success"@[0]);
    assert("message"@[0] != "terminal-success"@[0]);
    assert("terminal-error"@[9] != "terminal-success"@[9]);
}

/// The four frames stay distinct: the Host's reply with a frame of one kind is received as that frame
/// and no other, with its content, and a reply with any other kind is an invalid value. The two terminal
/// frames finish the Stream; the others leave it as it was.
pub proof fn each_frame_is_received_as_it_was_sent(
    encoded: Seq<char>,
    kind: Seq<char>,
    value: JsonView,
    was_finished: bool,
    is_finished: bool,
    r: Result<GuestStreamEvent<Json, Json>, GuestError<Json>>,
)
    requires
        frame_received(encoded, was_finished, is_finished, r),
        read_json(encode_utf8(encoded)) == Ok::<JsonView, Seq<char>>(
            JsonView::Object(seq![("ok"@, JsonView::Object(seq![("kind"@, JsonView::Text(kind))]))]),
        ) || read_json(encode_utf8(encoded)) == Ok::<JsonView, Seq<char>>(
            JsonView::Object(seq![("ok"@, JsonView::Object(seq![("kind"@, JsonView::Text(kind)), ("value"@, value)]))]),
        ),
    ensures
        ({
            let bare = read_json(encode_utf8(encoded)) == Ok::<JsonView, Seq<char>>(
                JsonView::Object(seq![("ok"@, JsonView::Object(seq![("kind"@, JsonView::Text(kind))]))]),
            );
            let empty = bare || value is Null;
            &&& kind == "terminal-success"@ && empty ==> r is Ok && r->Ok_0 is Terminal && r->Ok_0->Terminal_0 is Ok && is_finished
            &&& kind == "peer-half-closed"@ && empty ==> r is Ok && r->Ok_0 is PeerHalfClosed && is_finished == was_finished
            &&& kind == "message"@ && !bare ==> r is Ok && (r->Ok_0 matches GuestStreamEvent::Message(content) && content.model() == value)
                && is_finished == was_finished
            &&& kind == "terminal-error"@ && !bare ==> r is Ok && (r->Ok_0 matches GuestStreamEvent::Terminal(Err(content)) && content.model()
                == value) && is_finished
            &&& (kind == "message"@ || kind == "terminal-error"@) && bare ==> r is Err && is_finished == was_finished
            &&& (kind == "terminal-success"@ || kind == "peer-half-closed"@) && !empty ==> r is Err && is_finished == was_finished
            &&& r is Ok ==> kind == "message"@ || kind == "peer-half-closed"@ || kind == "terminal-success"@ || kind == "terminal-error"@
            &&& r is Ok && r->Ok_0 is PeerHalfClosed ==> kind == "peer-half-closed"@
            &&& r is Ok && r->Ok_0 is Message ==> kind == "message"@
            &&& r is Ok && r->Ok_0 is Terminal ==> kind == "terminal-success"@ || kind == "terminal-error"@
        }),
{
    lemma_words();
    let tag = JsonView::Text(kind);
    lemma_one_entry("kind"@, tag, "value"@);
    lemma_two_entries("kind"@, tag, "value"@, value);
    let bare = JsonView::Object(seq![("kind"@, tag)]);
    let full = JsonView::Object(seq![("kind"@, tag), ("value"@, value)]);
    assert(bare != full) by {
        assert(seq![("kind"@, tag)].len() != seq![("kind"@, tag), ("value"@, value)].len());
    }
    let one = seq![("ok"@, bare)];
    let two = seq![("ok"@, full)];
    assert(one[0].1 != two[0].1);
    assert(JsonView::Object(one) != JsonView::Object(two));
    let carried = if read_json(encode_utf8(encoded)) == Ok::<JsonView, Seq<char>>(JsonView::Object(one)) { bare } else { full };
    assert(reply(encoded) == Some(EnvelopeView::Success(carried)));
    assert(forall|i: int| 0 <= i < carried->Object_0.len() ==> (#[trigger] carried->Object_0[i]).0 == "kind"@ || carried->Object_0[i].0 == "value"@);
    match r {
        Ok(event) => {},
        Err(error) => {},
    }
}

/// A reply of the Host is told by its one key: a value, a Domain Error or a Runtime Failure with its
/// category, each handed on unchanged; anything else is no reply. A transport call and the opening of a
/// Stream read replies alike, but a transport call takes no Domain Error.
pub proof fn a_reply_is_told_by_its_key<H: HostImports>(
    encoded: Seq<char>,
    key: Seq<char>,
    value: JsonView,
    invoked: Result<Json, GuestError<Json>>,
    carried: Result<Json, GuestError<Json>>,
    stream: Result<GuestStream<H>, GuestError<Json>>,
)
    requires
        read_json(encode_utf8(encoded)) == Ok::<JsonView, Seq<char>>(JsonView::Object(seq![(key, value)])),
        invocation(encoded, invoked),
        transport(encoded, carried),
        opened(encoded, stream),
    ensures
        key == "ok"@ ==> {
            &&& invoked matches Ok(found) && found.model() == value
            &&& carried matches Ok(found) && found.model() == value
            &&& value matches JsonView::Unsigned(id) ==> (stream matches Ok(open) && open.id() == id && !open.is_finished())
            &&& !(value is Unsigned) ==> stream is Err
        },
        key == "error"@ ==> {
            &&& invoked matches Err(GuestError::Domain(found)) && found.model() == value
            &&& carried matches Err(GuestError::Protocol(_))
            &&& stream matches Err(GuestError::Domain(found)) && found.model() == value
        },
        key == "runtime"@ ==> (member(value, "kind"@) matches Some(JsonView::Text(kind)) ==> kind.len() > 0 ==> {
            &&& invoked matches Err(GuestError::Runtime(found)) && found.category() == kind && found.tree() == value
            &&& carried matches Err(GuestError::Runtime(found)) && found.category() == kind && found.tree() == value
            &&& stream matches Err(GuestError::Runtime(found)) && found.category() == kind && found.tree() == value
        }),
        key != "ok"@ && key != "error"@ && (key != "runtime"@ || !(member(value, "kind"@) matches Some(JsonView::Text(kind)) && kind.len() > 0))
            ==> {
            &&& invoked matches Err(GuestError::Protocol(_))
            &&& carried matches Err(GuestError::Protocol(_))
            &&& stream matches Err(GuestError::Protocol(_))
        },
{
    lemma_words();
    let entries = seq![(key, value)];
    assert(entries.len() == 1 && entries[0] == (key, value));
}

/// What is no object with one entry is no reply, and neither is what cannot be read.
pub proof fn nothing_else_is_a_reply(encoded: Seq<char>, invoked: Result<Json, GuestError<Json>>, carried: Result<Json, GuestError<Json>>)
    requires
        invocation(encoded, invoked),
        transport(encoded, carried),
        !(read_json(encode_utf8(encoded)) matches Ok(JsonView::Object(entries)) && entries.len() == 1),
    ensures
        invoked == Err::<Json, GuestError<Json>>(GuestError::Protocol(GuestProtocolError::InvalidEnvelope)),
        carried == Err::<Json, GuestError<Json>>(GuestError::Protocol(GuestProtocolError::InvalidEnvelope)),
{
}

/// A transport call is done only where the Host hands back nothing.
pub proof fn a_call_is_done_only_with_nothing(encoded: Seq<char>, value: JsonView, r: Result<(), GuestError<Json>>)
    requires
        decoded(encoded, |tree: JsonView| tree_unit(tree), r),
        read_json(encode_utf8(encoded)) == Ok::<JsonView, Seq<char>>(JsonView::Object(seq![("ok"@, value)])),
    ensures
        r is Ok <==> value is Null,
{
    let entries = seq![("ok"@, value)];
    assert(entries.len() == 1 && entries[0] == ("ok"@, value));
}

proof fn lemma_filtered(table: Seq<BindingView>, test: spec_fn(BindingView) -> bool)
    ensures
        forall|m: int| 0 <= m < table.filter(test).len() ==> test(#[trigger] table.filter(test)[m]) && table.contains(table.filter(test)[m]),
        forall|i: int| 0 <= i < table.len() && test(#[trigger] table[i]) ==> table.filter(test).contains(table[i]),
        table.filter(test).len() <= 1 ==> forall|i: int, j: int|
            0 <= i < j < table.len() && test(#[trigger] table[i]) ==> !test(#[trigger] table[j]),
    decreases table.len(),
{
    reveal(Seq::filter);
    if table.len() > 0 {
        let rest = table.drop_last();
        lemma_filtered(rest, test);
        let found = rest.filter(test);
        assert forall|m: int| 0 <= m < table.filter(test).len() implies test(#[trigger] table.filter(test)[m]) && table.contains(
            table.filter(test)[m],
        ) by {
            if m < found.len() {
                assert(table.filter(test)[m] == found[m]);
                let i = choose|i: int| 0 <= i < rest.len() && rest[i] == found[m];
                assert(table[i] == found[m]);
            } else {
                assert(table.filter(test)[m] == table.last());
            }
        }
        assert forall|i: int| 0 <= i < table.len() && test(#[trigger] table[i]) implies table.filter(test).contains(table[i]) by {
            if i < rest.len() {
                assert(rest[i] == table[i]);
                let m = choose|m: int| 0 <= m < found.len() && found[m] == rest[i];
                assert(table.filter(test)[m] == table[i]);
            } else {
                assert(table.filter(test)[found.len() as int] == table[i]);
            }
        }
        if table.filter(test).len() <= 1 {
            assert forall|i: int, j: int| 0 <= i < j < table.len() && test(#[trigger] table[i]) implies !test(#[trigger] table[j]) by {
                assert(rest[i] == table[i]);
                assert(found.contains(rest[i]));
                if j < rest.len() {
                    assert(rest[j] == table[j]);
                }
            }
        }
    }
}

/// A Capability is resolved from the loaded table alone: to the one binding of that Capability at that
/// version, which offers exactly the expected operations. It is missing where the table has none, and
/// ambiguous where it has two.
pub proof fn a_capability_is_the_one_that_is_bound(
    table: Seq<BindingView>,
    capability_id: &'static str,
    descriptor_version: &'static str,
    request_operations: Seq<Seq<char>>,
    stream_operations: Seq<Seq<char>>,
    i: int,
    j: int,
)
    ensures
        ({
            let r = required(table, capability_id, descriptor_version, request_operations, stream_operations);
            let bound = |k: int| 0 <= k < table.len() && table[k].capability_id == capability_id@ && table[k].descriptor_version == descriptor_version@;
            &&& r matches Ok(binding) ==> {
                &&& binding.capability_id == capability_id@ && binding.descriptor_version == descriptor_version@
                &&& binding.request_operations.len() == request_operations.len()
                &&& binding.stream_operations.len() == stream_operations.len()
                &&& forall|name: Seq<char>| #[trigger] binding.request_operations.contains(name) <==> request_operations.contains(name)
                &&& forall|name: Seq<char>| #[trigger] binding.stream_operations.contains(name) <==> stream_operations.contains(name)
                &&& bound(i) ==> table[i] == binding
                &&& bound(i) && bound(j) ==> i == j
                &&& table.contains(binding)
            }
            &&& bound(i) && bound(j) && i != j ==> r == Err::<BindingView, GuestProtocolError>(
                GuestProtocolError::AmbiguousBinding { capability_id, descriptor_version },
            )
            &&& bound(i) ==> !(r matches Err(GuestProtocolError::MissingBinding { .. }))
            &&& (forall|k: int| !(#[trigger] bound(k))) ==> r == Err::<BindingView, GuestProtocolError>(
                GuestProtocolError::MissingBinding { capability_id, descriptor_version },
            )
        }),
{
    let test = |binding: BindingView| binding.capability_id == capability_id@ && binding.descriptor_version == descriptor_version@;
    let found = candidates(table, capability_id@, descriptor_version@);
    let bound = |k: int| 0 <= k < table.len() && table[k].capability_id == capability_id@ && table[k].descriptor_version == descriptor_version@;
    assert(found == table.filter(test));
    lemma_filtered(table, test);
    if bound(i) {
        assert(test(table[i]));
        assert(found.contains(table[i]));
    }
    if bound(j) {
        assert(test(table[j]));
    }
    if bound(i) && bound(j) && i != j {
        if i < j {
            assert(found.len() > 1);
        } else {
            assert(found.len() > 1);
        }
    }
    if found.len() > 0 {
        assert(test(found[0]));
        let k = choose|k: int| 0 <= k < table.len() && table[k] == found[0];
        assert(bound(k));
    }
    match required(table, capability_id, descriptor_version, request_operations, stream_operations) {
        Ok(binding) => {
            assert(binding == found[0]);
            assert forall|name: Seq<char>| #[trigger] binding.request_operations.contains(name) <==> request_operations.contains(name) by {
                assert(binding.request_operations.to_set().contains(name) <==> request_operations.to_set().contains(name));
            }
            assert forall|name: Seq<char>| #[trigger] binding.stream_operations.contains(name) <==> stream_operations.contains(name) by {
                assert(binding.stream_operations.to_set().contains(name) <==> stream_operations.to_set().contains(name));
            }
        },
        Err(_) => {},
    }
}


/// What a binding says is what stands under its six keys, all of which are needed, and no other may stand
/// there.
pub proof fn a_binding_is_read_by_its_keys(entries: Seq<(Seq<char>, JsonView)>)
    requires
        binding_of(JsonView::Object(entries)) is Some,
    ensures
        ({
            let tree = JsonView::Object(entries);
            let facts = binding_of(tree)->Some_0;
            &&& member(tree, "binding_id"@) == Some(JsonView::Unsigned(facts.binding_id as u64))
            &&& member(tree, "provider_instance"@) == Some(JsonView::Text(facts.provider_instance))
            &&& member(tree, "capability_id"@) == Some(JsonView::Text(facts.capability_id))
            &&& member(tree, "descriptor_version"@) == Some(JsonView::Text(facts.descriptor_version))
            &&& texts_listed(member(tree, "request_operations"@), facts.request_operations)
            &&& texts_listed(member(tree, "stream_operations"@), facts.stream_operations)
        }),
        forall|i: int|
            0 <= i < entries.len() ==> (#[trigger] entries[i]).0 == "binding_id"@ || entries[i].0 == "provider_instance"@ || entries[i].0
                == "capability_id"@ || entries[i].0 == "descriptor_version"@ || entries[i].0 == "request_operations"@ || entries[i].0
                == "stream_operations"@,
{
    assert forall|i: int| 0 <= i < entries.len() implies binding_field((#[trigger] entries[i]).0) by {}
}

/// A binding that is written as a list says its six facts in order.
pub proof fn a_binding_is_read_by_its_order(items: Seq<JsonView>)
    requires
        binding_of(JsonView::List(items)) is Some,
    ensures
        items.len() == 6,
        ({
            let facts = binding_of(JsonView::List(items))->Some_0;
            &&& items[0] == JsonView::Unsigned(facts.binding_id as u64)
            &&& items[1] == JsonView::Text(facts.provider_instance)
            &&& items[2] == JsonView::Text(facts.capability_id)
            &&& items[3] == JsonView::Text(facts.descriptor_version)
            &&& texts_listed(Some(items[4]), facts.request_operations)
            &&& texts_listed(Some(items[5]), facts.stream_operations)
        }),
{
}

/// A value is the list of these texts.
pub open spec fn texts_listed(value: Option<JsonView>, items: Seq<Seq<char>>) -> bool {
    value matches Some(JsonView::List(found)) && found.len() == items.len() && forall|i: int|
        0 <= i < items.len() ==> found[i] == JsonView::Text(#[trigger] items[i])
}

/// Every binding of the table is read, in its place.
pub proof fn every_binding_is_read(tree: JsonView, i: int)
    requires
        bindings_of(tree) is Some,
        tree is List,
        0 <= i < tree->List_0.len(),
    ensures
        bindings_of(tree)->Some_0.len() == tree->List_0.len(),
        binding_of(tree->List_0[i]) == Some(bindings_of(tree)->Some_0[i]),
{
}
} // verus!
