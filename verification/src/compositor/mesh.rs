//! The tiers of the agent mesh that can be checked without a transport.
//!
//! Tier 1 is [`ClientTable`], a bounded table of admitted clients: the
//! admission past its bound is [`CompositorError::ClientTableFull`] rather
//! than a connection dropped in silence. Tier 2 is [`MockedMesh`], an
//! in-process retained-sample table: a mock, with no session, network or
//! shared memory. What it models is that a publication reaches a
//! subscription on the same key, and that a subscriber cannot publish.

use vstd::prelude::*;
use crate::compositor::error::CompositorError;
use crate::compositor::id::KeyExpr;

verus! {

/// Scalar upper bound on the Tier-1 client table.
pub const MAX_IPC_CLIENTS: usize = 64;

/// The shared-memory payload limit the scaffold declares, in bytes.
/// Recorded, not used: the mock's own bound is [`MAX_SAMPLE_BYTES`].
pub const SCAFFOLD_SHM_BUFFER_BYTES: usize = 4096;

/// Scalar upper bound on the bytes one retained sample may carry.
pub const MAX_SAMPLE_BYTES: usize = 1024;

/// Scalar upper bound on the topics the mock retains a sample for.
pub const MAX_MESH_TOPICS: usize = 8;

/// Scalar upper bound on the subscriptions the mock holds.
pub const MAX_SUBSCRIPTIONS: usize = 8;

/// A Tier-1 client identifier.
#[derive(Debug, Clone, Copy, PartialEq, Eq, Hash, PartialOrd, Ord, Structural)]
pub struct ClientId(u32);

impl View for ClientId {
    type V = u32;

    closed spec fn view(&self) -> u32 {
        self.0
    }
}

impl ClientId {
    /// Names a client by its raw identifier.
    pub fn new(raw: u32) -> (r: Self)
        ensures
            r@ == raw,
    {
        ClientId(raw)
    }

    /// The raw identifier.
    pub fn get(self) -> (r: u32)
        ensures
            r == self@,
    {
        self.0
    }
}

/// The bounded Tier-1 client table. Clients are numbered from one in
/// admission order, so the table holds exactly the identifiers
/// `1..=count`.
#[derive(Debug, Clone, Copy, PartialEq, Eq)]
pub struct ClientTable {
    admitted: [Option<ClientId>; MAX_IPC_CLIENTS],
    count: usize,
    next: u32,
}

impl View for ClientTable {
    type V = nat;

    /// How many clients the table holds.
    closed spec fn view(&self) -> nat {
        self.count as nat
    }
}

/// Whether a table holding `count` clients holds the identifier `id`.
pub open spec fn client_held(count: nat, id: u32) -> bool {
    1 <= id <= count
}

impl ClientTable {
    #[verifier::type_invariant]
    closed spec fn well_formed(self) -> bool {
        &&& self.count <= MAX_IPC_CLIENTS
        &&& self.next == self.count + 1
        &&& forall|i: int|
            0 <= i < MAX_IPC_CLIENTS ==> #[trigger] self.admitted@[i] == (if i < self.count {
                Some(ClientId((i + 1) as u32))
            } else {
                None
            })
    }

    /// Builds an empty table.
    pub fn new() -> (r: Self)
        ensures
            r@ == 0,
    {
        ClientTable { admitted: [None; 64], count: 0, next: 1 }
    }

    /// Admits one client and returns its identifier, the next unused one.
    /// A full table refuses and changes nothing.
    pub fn admit_client(&mut self) -> (r: Result<ClientId, CompositorError>)
        ensures
            final(self)@ <= MAX_IPC_CLIENTS,
            match r {
                Ok(id) => {
                    &&& old(self)@ < MAX_IPC_CLIENTS
                    &&& id@ == old(self)@ + 1
                    &&& !client_held(old(self)@, id@)
                    &&& final(self)@ == old(self)@ + 1
                },
                Err(e) => {
                    &&& old(self)@ >= MAX_IPC_CLIENTS
                    &&& e == CompositorError::ClientTableFull { max: MAX_IPC_CLIENTS }
                    &&& final(self)@ == old(self)@
                },
            },
    {
        proof {
            use_type_invariant(&*self);
        }
        if self.count >= MAX_IPC_CLIENTS {
            return Err(CompositorError::ClientTableFull { max: MAX_IPC_CLIENTS });
        }
        let id = ClientId::new(self.next);
        let mut admitted = self.admitted;
        admitted[self.count] = Some(id);
        *self = ClientTable { admitted, count: self.count + 1, next: self.next + 1 };
        Ok(id)
    }

    /// Returns `true` when the table holds `id`.
    pub fn holds(&self, id: ClientId) -> (r: bool)
        ensures
            r == client_held(self@, id@),
    {
        proof {
            use_type_invariant(self);
        }
        let mut i: usize = 0;
        while i < MAX_IPC_CLIENTS
            invariant
                i <= MAX_IPC_CLIENTS,
                self.count <= MAX_IPC_CLIENTS,
                forall|k: int|
                    0 <= k < MAX_IPC_CLIENTS ==> #[trigger] self.admitted@[k] == (if k
                        < self.count {
                        Some(ClientId((k + 1) as u32))
                    } else {
                        None
                    }),
                forall|k: int| 0 <= k < i ==> self.admitted@[k] != Some(id),
            decreases MAX_IPC_CLIENTS - i,
        {
            match self.admitted[i] {
                Some(held) => {
                    if held == id {
                        return true;
                    }
                },
                None => {},
            }
            i += 1;
        }
        proof {
            if client_held(self@, id@) {
                assert(self.admitted@[id@ - 1] == Some(id));
            }
        }
        false
    }

    /// How many clients the table holds.
    pub fn count(&self) -> (r: usize)
        ensures
            r == self@,
            r <= MAX_IPC_CLIENTS,
    {
        proof {
            use_type_invariant(self);
        }
        self.count
    }

    /// Returns `true` when the table holds no client.
    pub fn is_empty(&self) -> (r: bool)
        ensures
            r == (self@ == 0),
    {
        self.count == 0
    }
}

/// What a mesh participant is allowed to do: a subscriber holds only
/// [`MeshRole::Subscriber`], and nothing turns one into the other.
#[derive(Debug, Clone, Copy, PartialEq, Eq, Hash, Structural)]
#[non_exhaustive]
pub enum MeshRole {
    /// May publish on a key expression.
    Publisher,
    /// May read a retained sample and nothing else.
    Subscriber,
}

impl MeshRole {
    /// Both roles.
    pub const ALL: [MeshRole; 2] = [MeshRole::Publisher, MeshRole::Subscriber];

    /// The stable name this role is recorded under.
    pub fn name(self) -> (r: &'static str)
        ensures
            r@ == (match self {
                MeshRole::Publisher => "publisher"@,
                MeshRole::Subscriber => "subscriber"@,
            }),
    {
        match self {
            MeshRole::Publisher => "publisher",
            MeshRole::Subscriber => "subscriber",
        }
    }

    /// Returns `true` when the role may publish.
    pub fn may_publish(self) -> (r: bool)
        ensures
            r == (self == MeshRole::Publisher),
    {
        match self {
            MeshRole::Publisher => true,
            MeshRole::Subscriber => false,
        }
    }
}

/// A subscription identifier.
#[derive(Debug, Clone, Copy, PartialEq, Eq, Hash, PartialOrd, Ord, Structural)]
pub struct SubscriptionId(u32);

impl View for SubscriptionId {
    type V = u32;

    closed spec fn view(&self) -> u32 {
        self.0
    }
}

impl SubscriptionId {
    /// Names a subscription by its raw identifier.
    pub fn new(raw: u32) -> (r: Self)
        ensures
            r@ == raw,
    {
        SubscriptionId(raw)
    }

    /// The raw identifier.
    pub fn get(self) -> (r: u32)
        ensures
            r == self@,
    {
        self.0
    }
}

/// One declared subscription.
#[derive(Debug, Clone, Copy, PartialEq, Eq)]
pub struct Subscription {
    /// The subscription identifier.
    pub id: SubscriptionId,
    /// The key expression the subscription reads.
    pub key: KeyExpr,
}

impl Subscription {
    /// The role a subscription holds, which is never a publishing one.
    pub fn role(self) -> (r: MeshRole)
        ensures
            r == MeshRole::Subscriber,
    {
        MeshRole::Subscriber
    }
}

/// One retained sample.
#[derive(Debug, Clone, Copy, PartialEq, Eq)]
pub struct Sample {
    key: KeyExpr,
    bytes: [u8; MAX_SAMPLE_BYTES],
    len: usize,
}

impl View for Sample {
    type V = (Seq<u8>, Seq<u8>);

    /// The key the sample was published on, and its payload.
    closed spec fn view(&self) -> (Seq<u8>, Seq<u8>) {
        (self.key@, self.bytes@.subrange(0, self.len as int))
    }
}

impl Sample {
    #[verifier::type_invariant]
    closed spec fn well_formed(self) -> bool {
        &&& self.len <= MAX_SAMPLE_BYTES
        &&& forall|k: int| self.len <= k < MAX_SAMPLE_BYTES ==> #[trigger] self.bytes@[k] == 0
    }

    /// The key expression the sample was published on.
    pub fn key(&self) -> (r: KeyExpr)
        ensures
            r@ == self@.0,
    {
        self.key
    }

    /// The payload bytes.
    pub fn payload(&self) -> (r: &[u8])
        ensures
            r@ == self@.1,
    {
        proof {
            use_type_invariant(self);
        }
        let all = self.bytes.as_slice();
        &all[0..self.len]
    }

    /// The payload length in bytes.
    pub fn len(&self) -> (r: usize)
        ensures
            r == self@.1.len(),
            r <= MAX_SAMPLE_BYTES,
    {
        proof {
            use_type_invariant(self);
        }
        self.len
    }

    /// Returns `true` when the sample carries no payload.
    pub fn is_empty(&self) -> (r: bool)
        ensures
            r == (self@.1.len() == 0),
    {
        proof {
            use_type_invariant(self);
        }
        self.len == 0
    }
}

/// The mathematical content of a [`MockedMesh`]: the retained samples as
/// `(key, payload)` in the order their keys were first published, and the
/// subscriptions as `(identifier, key)` in declaration order.
pub struct MeshView {
    pub samples: Seq<(Seq<u8>, Seq<u8>)>,
    pub subscriptions: Seq<(u32, Seq<u8>)>,
}

/// What every mesh keeps: its bounds, one retained sample per key, and
/// subscriptions numbered from one in declaration order.
pub open spec fn mesh_wf(v: MeshView) -> bool {
    &&& v.samples.len() <= MAX_MESH_TOPICS
    &&& v.subscriptions.len() <= MAX_SUBSCRIPTIONS
    &&& forall|i: int, j: int|
        0 <= i < j < v.samples.len() ==> #[trigger] v.samples[i].0 != #[trigger] v.samples[j].0
    &&& forall|i: int| 0 <= i < v.subscriptions.len() ==> #[trigger] v.subscriptions[i].0 == i + 1
}

/// The payload retained on `key`, if any: the first sample on that key.
pub open spec fn retained_payload(samples: Seq<(Seq<u8>, Seq<u8>)>, key: Seq<u8>) -> Option<
    Seq<u8>,
>
    decreases samples.len(),
{
    if samples.len() == 0 {
        None
    } else if samples[0].0 == key {
        Some(samples[0].1)
    } else {
        retained_payload(samples.drop_first(), key)
    }
}

/// Whether the mesh holds a subscription numbered `id`.
pub open spec fn holds_subscription_spec(v: MeshView, id: u32) -> bool {
    exists|i: int| 0 <= i < v.subscriptions.len() && #[trigger] v.subscriptions[i].0 == id
}

/// What publishing `payload` on `key` as `role` makes of a mesh: a
/// subscriber is refused, then an oversized payload; a key that already
/// holds a sample has it replaced; a new key is refused when the topic table
/// is full and appended otherwise.
pub open spec fn publish_outcome(v: MeshView, role: MeshRole, key: Seq<u8>, payload: Seq<u8>) -> Result<
    MeshView,
    CompositorError,
> {
    if role != MeshRole::Publisher {
        Err(CompositorError::RetroactivityRefused)
    } else if payload.len() > MAX_SAMPLE_BYTES {
        Err(
            CompositorError::SampleTooLarge { bytes: payload.len() as usize, max: MAX_SAMPLE_BYTES },
        )
    } else if exists|i: int| 0 <= i < v.samples.len() && #[trigger] v.samples[i].0 == key {
        let i = choose|i: int| 0 <= i < v.samples.len() && #[trigger] v.samples[i].0 == key;
        Ok(MeshView { samples: v.samples.update(i, (key, payload)), subscriptions: v.subscriptions })
    } else if v.samples.len() >= MAX_MESH_TOPICS {
        Err(CompositorError::MeshTopicTableFull { max: MAX_MESH_TOPICS })
    } else {
        Ok(MeshView { samples: v.samples.push((key, payload)), subscriptions: v.subscriptions })
    }
}

proof fn lemma_retained_at(samples: Seq<(Seq<u8>, Seq<u8>)>, key: Seq<u8>, i: int)
    requires
        0 <= i < samples.len(),
        samples[i].0 == key,
        forall|a: int, b: int| 0 <= a < b < samples.len() ==> samples[a].0 != samples[b].0,
    ensures
        retained_payload(samples, key) == Some(samples[i].1),
    decreases samples.len(),
{
    if i > 0 {
        assert(samples[0].0 != samples[i].0);
        lemma_retained_at(samples.drop_first(), key, i - 1);
    }
}

proof fn lemma_retained_none(samples: Seq<(Seq<u8>, Seq<u8>)>, key: Seq<u8>)
    requires
        forall|i: int| 0 <= i < samples.len() ==> samples[i].0 != key,
    ensures
        retained_payload(samples, key) is None,
    decreases samples.len(),
{
    if samples.len() > 0 {
        lemma_retained_none(samples.drop_first(), key);
    }
}

/// A publication is read back: once publishing `payload` on `key` succeeds,
/// the payload retained on `key` is `payload`, and the mesh keeps its
/// invariants.
pub proof fn published_sample_is_retained(
    v: MeshView,
    role: MeshRole,
    key: Seq<u8>,
    payload: Seq<u8>,
)
    requires
        mesh_wf(v),
        publish_outcome(v, role, key, payload) is Ok,
    ensures
        mesh_wf(publish_outcome(v, role, key, payload)->Ok_0),
        retained_payload(publish_outcome(v, role, key, payload)->Ok_0.samples, key) == Some(
            payload,
        ),
{
    let after = publish_outcome(v, role, key, payload)->Ok_0;
    if exists|i: int| 0 <= i < v.samples.len() && #[trigger] v.samples[i].0 == key {
        let i = choose|i: int| 0 <= i < v.samples.len() && #[trigger] v.samples[i].0 == key;
        assert forall|a: int, b: int|
            0 <= a < b < after.samples.len() implies #[trigger] after.samples[a].0
            != #[trigger] after.samples[b].0 by {
            assert(v.samples[a].0 != v.samples[b].0);
        }
        lemma_retained_at(after.samples, key, i);
    } else {
        let n = v.samples.len() as int;
        assert forall|a: int, b: int|
            0 <= a < b < after.samples.len() implies #[trigger] after.samples[a].0
            != #[trigger] after.samples[b].0 by {
            if b < n {
                assert(v.samples[a].0 != v.samples[b].0);
            } else {
                assert(v.samples[a].0 != key);
            }
        }
        lemma_retained_at(after.samples, key, n);
    }
}

/// Immutable reads: a subscriber's publication is refused, whatever it
/// carries and whatever the mesh holds.
pub proof fn subscriber_may_not_publish(v: MeshView, key: Seq<u8>, payload: Seq<u8>)
    ensures
        publish_outcome(v, MeshRole::Subscriber, key, payload) == Err::<
            MeshView,
            CompositorError,
        >(CompositorError::RetroactivityRefused),
{
}

/// An admitted client is held afterwards, having not been held before, and
/// every client held before stays held.
pub proof fn admitted_client_is_held(count: nat, other: u32)
    requires
        count < MAX_IPC_CLIENTS,
    ensures
        client_held(count + 1, (count + 1) as u32),
        !client_held(count, (count + 1) as u32),
        client_held(count, other) ==> client_held(count + 1, other),
{
}

/// A declared subscription is held afterwards, and every subscription held
/// before stays held.
pub proof fn declared_subscription_is_held(v: MeshView, id: u32, key: Seq<u8>, other: u32)
    ensures
        holds_subscription_spec(
            MeshView { subscriptions: v.subscriptions.push((id, key)), ..v },
            id,
        ),
        holds_subscription_spec(v, other) ==> holds_subscription_spec(
            MeshView { subscriptions: v.subscriptions.push((id, key)), ..v },
            other,
        ),
{
    let w = MeshView { subscriptions: v.subscriptions.push((id, key)), ..v };
    assert(w.subscriptions[v.subscriptions.len() as int].0 == id);
    if holds_subscription_spec(v, other) {
        let i = choose|i: int| 0 <= i < v.subscriptions.len() && #[trigger] v.subscriptions[i].0 == other;
        assert(w.subscriptions[i].0 == other);
    }
}

/// One call that changes a mesh: a publication as `role` of a payload on a
/// key, or the declaration of a subscription on a key.
pub enum MeshCall {
    Publish(MeshRole, Seq<u8>, Seq<u8>),
    Declare(Seq<u8>),
}

/// What one call makes of a mesh: a publication as [`publish_outcome`] says,
/// unchanged when refused; a declaration appends the next subscription,
/// unchanged when the table is full.
pub open spec fn mesh_after(v: MeshView, call: MeshCall) -> MeshView {
    match call {
        MeshCall::Publish(role, key, payload) => match publish_outcome(v, role, key, payload) {
            Ok(after) => after,
            Err(_) => v,
        },
        MeshCall::Declare(key) => if v.subscriptions.len() < MAX_SUBSCRIPTIONS {
            MeshView {
                samples: v.samples,
                subscriptions: v.subscriptions.push(((v.subscriptions.len() + 1) as u32, key)),
            }
        } else {
            v
        },
    }
}

/// What a sequence of calls makes of a mesh, in order.
pub open spec fn mesh_after_all(v: MeshView, calls: Seq<MeshCall>) -> MeshView
    decreases calls.len(),
{
    if calls.len() == 0 {
        v
    } else {
        mesh_after(mesh_after_all(v, calls.drop_last()), calls.last())
    }
}

/// Whether `call`, made on mesh `v`, is a publication on `key` that
/// succeeds.
pub open spec fn publishes_on_from(v: MeshView, call: MeshCall, key: Seq<u8>) -> bool {
    call matches MeshCall::Publish(role, k, payload) && k == key && publish_outcome(
        v,
        role,
        k,
        payload,
    ) is Ok
}

/// Whether none of `calls`, made in order from `v`, is a publication on
/// `key` that succeeds.
pub open spec fn no_publication_on(v: MeshView, calls: Seq<MeshCall>, key: Seq<u8>) -> bool {
    forall|i: int|
        0 <= i < calls.len() ==> !publishes_on_from(
            mesh_after_all(v, calls.take(i)),
            #[trigger] calls[i],
            key,
        )
}

/// The empty mesh a new [`MockedMesh`] is.
pub open spec fn empty_mesh() -> MeshView {
    MeshView { samples: Seq::empty(), subscriptions: Seq::empty() }
}

/// One call keeps a mesh's invariants, and a call that is not a successful
/// publication on `key` leaves what `key` retains unchanged.
proof fn lemma_mesh_after_keeps(v: MeshView, call: MeshCall, key: Seq<u8>)
    requires
        mesh_wf(v),
    ensures
        mesh_wf(mesh_after(v, call)),
        !publishes_on_from(v, call, key) ==> retained_payload(mesh_after(v, call).samples, key)
            == retained_payload(v.samples, key),
{
    match call {
        MeshCall::Publish(role, k, payload) => {
            if let Ok(after) = publish_outcome(v, role, k, payload) {
                published_sample_is_retained(v, role, k, payload);
                if k != key {
                    if exists|i: int| 0 <= i < v.samples.len() && #[trigger] v.samples[i].0 == key {
                        let i = choose|i: int| 0 <= i < v.samples.len() && #[trigger] v.samples[i].0 == key;
                        lemma_retained_at(v.samples, key, i);
                        assert(after.samples[i] == v.samples[i]);
                        lemma_retained_at(after.samples, key, i);
                    } else {
                        lemma_retained_none(v.samples, key);
                        assert forall|j: int| 0 <= j < after.samples.len() implies after.samples[j].0
                            != key by {
                            if j < v.samples.len() {
                                assert(after.samples[j].0 == v.samples[j].0 || after.samples[j].0 == k);
                            }
                        }
                        lemma_retained_none(after.samples, key);
                    }
                }
            }
        },
        MeshCall::Declare(k) => {
            if v.subscriptions.len() < MAX_SUBSCRIPTIONS {
                let after = mesh_after(v, call);
                assert forall|i: int| 0 <= i < after.subscriptions.len() implies #[trigger] after.subscriptions[i].0
                    == i + 1 by {
                    if i < v.subscriptions.len() {
                        assert(after.subscriptions[i] == v.subscriptions[i]);
                    }
                }
            }
        },
    }
}

/// A retained sample survives later calls. From a mesh that keeps its
/// invariants, any sequence of calls none of which is a publication on
/// `key` that succeeds (publications on other keys, refused publications on
/// any key, subscription declarations) keeps the invariants and leaves what
/// `key` retains unchanged.
pub proof fn retained_sample_survives_other_calls(v: MeshView, calls: Seq<MeshCall>, key: Seq<u8>)
    requires
        mesh_wf(v),
        no_publication_on(v, calls, key),
    ensures
        mesh_wf(mesh_after_all(v, calls)),
        retained_payload(mesh_after_all(v, calls).samples, key) == retained_payload(v.samples, key),
    decreases calls.len(),
{
    if calls.len() > 0 {
        let front = calls.drop_last();
        assert forall|i: int| 0 <= i < front.len() implies !publishes_on_from(
            mesh_after_all(v, front.take(i)),
            #[trigger] front[i],
            key,
        ) by {
            assert(front[i] == calls[i]);
            assert(front.take(i) =~= calls.take(i));
        }
        retained_sample_survives_other_calls(v, front, key);
        let n = calls.len() - 1;
        assert(calls.last() == calls[n]);
        assert(calls.take(n) =~= front);
        assert(!publishes_on_from(mesh_after_all(v, calls.take(n)), calls[n], key));
        lemma_mesh_after_keeps(mesh_after_all(v, front), calls.last(), key);
    }
}

/// A key never published on retains nothing: from a new mesh, after any
/// sequence of calls none of which is a publication on `key` that succeeds,
/// `key` retains no sample.
pub proof fn unpublished_key_is_absent(calls: Seq<MeshCall>, key: Seq<u8>)
    requires
        no_publication_on(empty_mesh(), calls, key),
    ensures
        retained_payload(mesh_after_all(empty_mesh(), calls).samples, key) is None,
{
    retained_sample_survives_other_calls(empty_mesh(), calls, key);
}

/// A publication is read back after later calls: once publishing `payload`
/// on `key` succeeds, and none of the calls after it is a publication on
/// `key` that succeeds, `key` still retains `payload`.
pub proof fn publication_survives_later_calls(
    v: MeshView,
    role: MeshRole,
    key: Seq<u8>,
    payload: Seq<u8>,
    calls: Seq<MeshCall>,
)
    requires
        mesh_wf(v),
        publish_outcome(v, role, key, payload) is Ok,
        no_publication_on(publish_outcome(v, role, key, payload)->Ok_0, calls, key),
    ensures
        retained_payload(
            mesh_after_all(publish_outcome(v, role, key, payload)->Ok_0, calls).samples,
            key,
        ) == Some(payload),
{
    published_sample_is_retained(v, role, key, payload);
    retained_sample_survives_other_calls(publish_outcome(v, role, key, payload)->Ok_0, calls, key);
}

/// The topic count is the number of keys that retain a sample: in a mesh
/// that keeps its invariants, the keys of its samples are distinct, and
/// they are exactly the keys whose retained sample is present.
pub proof fn topics_count_retained_keys(v: MeshView)
    requires
        mesh_wf(v),
    ensures
        v.samples.map_values(|s: (Seq<u8>, Seq<u8>)| s.0).to_set() == Set::new(
            |k: Seq<u8>| retained_payload(v.samples, k) is Some,
        ),
        v.samples.map_values(|s: (Seq<u8>, Seq<u8>)| s.0).to_set().len() == v.samples.len(),
{
    let keys = v.samples.map_values(|s: (Seq<u8>, Seq<u8>)| s.0);
    assert(keys.no_duplicates()) by {
        assert forall|i: int, j: int| 0 <= i < keys.len() && 0 <= j < keys.len() && i != j implies keys[i]
            != keys[j] by {
            if i < j {
                assert(v.samples[i].0 != v.samples[j].0);
            } else {
                assert(v.samples[j].0 != v.samples[i].0);
            }
        }
    }
    keys.unique_seq_to_set();
    assert forall|k: Seq<u8>| keys.to_set().contains(k) <==> retained_payload(v.samples, k) is Some by {
        if keys.to_set().contains(k) {
            let i = choose|i: int| 0 <= i < keys.len() && keys[i] == k;
            lemma_retained_at(v.samples, k, i);
        }
        if retained_payload(v.samples, k) is Some {
            if !keys.contains(k) {
                assert forall|i: int| 0 <= i < v.samples.len() implies v.samples[i].0 != k by {
                    assert(keys[i] == v.samples[i].0);
                }
                lemma_retained_none(v.samples, k);
            }
        }
    }
    assert(keys.to_set() =~= Set::new(|k: Seq<u8>| retained_payload(v.samples, k) is Some));
}

/// An in-process mock of the Tier-2 retained-sample mesh. Not a transport.
#[derive(Debug, Clone, Copy)]
pub struct MockedMesh {
    samples: [Option<Sample>; MAX_MESH_TOPICS],
    topics: usize,
    subscriptions: [Option<Subscription>; MAX_SUBSCRIPTIONS],
    subscription_count: usize,
    next_subscription: u32,
}

impl View for MockedMesh {
    type V = MeshView;

    closed spec fn view(&self) -> MeshView {
        MeshView {
            samples: Seq::new(self.topics as nat, |i: int| self.samples@[i]->Some_0@),
            subscriptions: Seq::new(
                self.subscription_count as nat,
                |i: int|
                    (self.subscriptions@[i]->Some_0.id@, self.subscriptions@[i]->Some_0.key@),
            ),
        }
    }
}

impl MockedMesh {
    #[verifier::type_invariant]
    closed spec fn well_formed(self) -> bool {
        &&& self.topics <= MAX_MESH_TOPICS
        &&& self.subscription_count <= MAX_SUBSCRIPTIONS
        &&& self.next_subscription == self.subscription_count + 1
        &&& forall|i: int|
            0 <= i < MAX_MESH_TOPICS ==> (#[trigger] self.samples@[i] is Some <==> i < self.topics)
        &&& forall|i: int|
            0 <= i < MAX_SUBSCRIPTIONS ==> (#[trigger] self.subscriptions@[i] is Some <==> i
                < self.subscription_count)
        &&& mesh_wf(self@)
    }

    /// Builds an empty mesh.
    pub fn new() -> (r: Self)
        ensures
            r@.samples.len() == 0,
            r@.subscriptions.len() == 0,
            r@ == empty_mesh(),
            mesh_wf(r@),
    {
        let r = MockedMesh {
            samples: [None; 8],
            topics: 0,
            subscriptions: [None; 8],
            subscription_count: 0,
            next_subscription: 1,
        };
        assert(r@.samples =~= Seq::<(Seq<u8>, Seq<u8>)>::empty());
        assert(r@.subscriptions =~= Seq::<(u32, Seq<u8>)>::empty());
        r
    }

    /// The slot `key` already occupies, when it occupies one.
    fn slot_of(&self, key: &KeyExpr) -> (r: Option<usize>)
        ensures
            match r {
                Some(i) => i < self@.samples.len() && self@.samples[i as int].0 == key@,
                None => forall|i: int| 0 <= i < self@.samples.len() ==> self@.samples[i].0 != key@,
            },
    {
        proof {
            use_type_invariant(self);
        }
        let mut i: usize = 0;
        while i < self.topics
            invariant
                i <= self.topics <= MAX_MESH_TOPICS,
                forall|k: int|
                    0 <= k < MAX_MESH_TOPICS ==> (#[trigger] self.samples@[k] is Some <==> k
                        < self.topics),
                forall|k: int| 0 <= k < i ==> self@.samples[k].0 != key@,
            decreases self.topics - i,
        {
            let sample = self.samples[i].unwrap();
            if sample.key.same(key) {
                return Some(i);
            }
            i += 1;
        }
        None
    }

    /// Publishes `payload` on `key`, as `role`; a key that already holds a
    /// retained sample has it replaced. A refusal changes nothing.
    pub fn publish(&mut self, role: MeshRole, key: KeyExpr, payload: &[u8]) -> (r: Result<
        (),
        CompositorError,
    >)
        ensures
            mesh_wf(final(self)@),
            final(self)@ == mesh_after(old(self)@, MeshCall::Publish(role, key@, payload@)),
            match publish_outcome(old(self)@, role, key@, payload@) {
                Ok(after) => r is Ok && final(self)@ == after,
                Err(e) => r == Err::<(), CompositorError>(e) && final(self)@ == old(self)@,
            },
    {
        proof {
            use_type_invariant(&*self);
        }
        let ghost before = self@;
        if !role.may_publish() {
            return Err(CompositorError::RetroactivityRefused);
        }
        if payload.len() > MAX_SAMPLE_BYTES {
            return Err(
                CompositorError::SampleTooLarge { bytes: payload.len(), max: MAX_SAMPLE_BYTES },
            );
        }
        let mut bytes = [0u8; 1024];
        let mut i: usize = 0;
        while i < payload.len()
            invariant
                i <= payload@.len() <= MAX_SAMPLE_BYTES,
                bytes@.len() == MAX_SAMPLE_BYTES,
                forall|k: int| 0 <= k < i ==> #[trigger] bytes@[k] == payload@[k],
                forall|k: int| i <= k < MAX_SAMPLE_BYTES ==> #[trigger] bytes@[k] == 0,
            decreases payload.len() - i,
        {
            bytes[i] = payload[i];
            i += 1;
        }
        assert(bytes@.subrange(0, payload@.len() as int) =~= payload@);
        let sample = Sample { key, bytes, len: payload.len() };
        assert(sample@ == (key@, payload@));
        match self.slot_of(&key) {
            Some(slot) => {
                let mut samples = self.samples;
                samples[slot] = Some(sample);
                let ghost after = before.samples.update(slot as int, (key@, payload@));
                proof {
                    let j = choose|j: int|
                        0 <= j < before.samples.len() && #[trigger] before.samples[j].0 == key@;
                    if j != slot {
                        if j < slot {
                            assert(before.samples[j].0 != before.samples[slot as int].0);
                        } else {
                            assert(before.samples[slot as int].0 != before.samples[j].0);
                        }
                    }
                    assert(Seq::new(self.topics as nat, |k: int| samples@[k]->Some_0@) =~= after);
                    assert forall|a: int, b: int|
                        0 <= a < b < after.len() implies #[trigger] after[a].0
                        != #[trigger] after[b].0 by {
                        assert(before.samples[a].0 != before.samples[b].0);
                    }
                }
                *self = MockedMesh {
                    samples,
                    topics: self.topics,
                    subscriptions: self.subscriptions,
                    subscription_count: self.subscription_count,
                    next_subscription: self.next_subscription,
                };
                assert(self@.samples =~= after);
                assert(self@.subscriptions =~= before.subscriptions);
                Ok(())
            },
            None => {
                if self.topics >= MAX_MESH_TOPICS {
                    return Err(CompositorError::MeshTopicTableFull { max: MAX_MESH_TOPICS });
                }
                let mut samples = self.samples;
                samples[self.topics] = Some(sample);
                let ghost after = before.samples.push((key@, payload@));
                proof {
                    assert(Seq::new((self.topics + 1) as nat, |k: int| samples@[k]->Some_0@)
                        =~= after);
                    assert forall|a: int, b: int|
                        0 <= a < b < after.len() implies #[trigger] after[a].0
                        != #[trigger] after[b].0 by {
                        if b < before.samples.len() {
                            assert(before.samples[a].0 != before.samples[b].0);
                        }
                    }
                }
                *self = MockedMesh {
                    samples,
                    topics: self.topics + 1,
                    subscriptions: self.subscriptions,
                    subscription_count: self.subscription_count,
                    next_subscription: self.next_subscription,
                };
                assert(self@.samples =~= after);
                assert(self@.subscriptions =~= before.subscriptions);
                Ok(())
            },
        }
    }

    /// Declares a subscription on `key`, numbered after the last one. A full
    /// subscription table refuses and changes nothing.
    pub fn declare_subscriber(&mut self, key: KeyExpr) -> (r: Result<Subscription, CompositorError>)
        ensures
            mesh_wf(final(self)@),
            final(self)@ == mesh_after(old(self)@, MeshCall::Declare(key@)),
            match r {
                Ok(sub) => {
                    &&& old(self)@.subscriptions.len() < MAX_SUBSCRIPTIONS
                    &&& sub.id@ == old(self)@.subscriptions.len() + 1
                    &&& sub.key == key
                    &&& final(self)@.subscriptions == old(self)@.subscriptions.push(
                        (sub.id@, key@),
                    )
                    &&& final(self)@.samples == old(self)@.samples
                },
                Err(e) => {
                    &&& old(self)@.subscriptions.len() >= MAX_SUBSCRIPTIONS
                    &&& e == CompositorError::MeshTopicTableFull { max: MAX_SUBSCRIPTIONS }
                    &&& final(self)@ == old(self)@
                },
            },
    {
        proof {
            use_type_invariant(&*self);
        }
        let ghost before = self@;
        if self.subscription_count >= MAX_SUBSCRIPTIONS {
            return Err(CompositorError::MeshTopicTableFull { max: MAX_SUBSCRIPTIONS });
        }
        let subscription = Subscription { id: SubscriptionId::new(self.next_subscription), key };
        let mut subscriptions = self.subscriptions;
        subscriptions[self.subscription_count] = Some(subscription);
        let ghost after = before.subscriptions.push((subscription.id@, key@));
        assert(Seq::new(
            (self.subscription_count + 1) as nat,
            |i: int| (subscriptions@[i]->Some_0.id@, subscriptions@[i]->Some_0.key@),
        ) =~= after);
        *self = MockedMesh {
            samples: self.samples,
            topics: self.topics,
            subscriptions,
            subscription_count: self.subscription_count + 1,
            next_subscription: self.next_subscription + 1,
        };
        assert(self@.subscriptions =~= after);
        assert(self@.samples =~= before.samples);
        Ok(subscription)
    }

    /// The sample a subscription can read, when there is one. A subscription
    /// the mesh does not hold is refused, which tells "nothing published
    /// yet" apart from "no such subscription".
    pub fn read(&self, subscription: Subscription) -> (r: Result<Option<Sample>, CompositorError>)
        ensures
            match r {
                Ok(found) => {
                    &&& holds_subscription_spec(self@, subscription.id@)
                    &&& match found {
                        Some(s) => s@.0 == subscription.key@ && retained_payload(
                            self@.samples,
                            subscription.key@,
                        ) == Some(s@.1),
                        None => retained_payload(self@.samples, subscription.key@) is None,
                    }
                },
                Err(e) => !holds_subscription_spec(self@, subscription.id@) && e
                    == CompositorError::UnknownSubscription { id: subscription.id@ },
            },
    {
        if !self.holds_subscription(subscription.id) {
            return Err(CompositorError::UnknownSubscription { id: subscription.id.get() });
        }
        Ok(self.retained(subscription.key))
    }

    /// The retained sample on `key`, when there is one.
    pub fn retained(&self, key: KeyExpr) -> (r: Option<Sample>)
        ensures
            match r {
                Some(s) => s@.0 == key@ && retained_payload(self@.samples, key@) == Some(s@.1),
                None => retained_payload(self@.samples, key@) is None,
            },
    {
        proof {
            use_type_invariant(self);
        }
        match self.slot_of(&key) {
            Some(slot) => {
                let sample = self.samples[slot].unwrap();
                proof {
                    lemma_retained_at(self@.samples, key@, slot as int);
                }
                Some(sample)
            },
            None => {
                proof {
                    lemma_retained_none(self@.samples, key@);
                }
                None
            },
        }
    }

    /// Returns `true` when the mesh holds subscription `id`.
    pub fn holds_subscription(&self, id: SubscriptionId) -> (r: bool)
        ensures
            r == holds_subscription_spec(self@, id@),
    {
        proof {
            use_type_invariant(self);
        }
        let mut i: usize = 0;
        while i < self.subscription_count
            invariant
                i <= self.subscription_count <= MAX_SUBSCRIPTIONS,
                forall|k: int|
                    0 <= k < MAX_SUBSCRIPTIONS ==> (#[trigger] self.subscriptions@[k] is Some
                        <==> k < self.subscription_count),
                forall|k: int| 0 <= k < i ==> self@.subscriptions[k].0 != id@,
            decreases self.subscription_count - i,
        {
            let held = self.subscriptions[i].unwrap();
            if held.id == id {
                assert(self@.subscriptions[i as int].0 == id@);
                return true;
            }
            i += 1;
        }
        false
    }

    /// How many keys hold a retained sample.
    pub fn topics(&self) -> (r: usize)
        ensures
            r == self@.samples.len(),
            mesh_wf(self@),
    {
        proof {
            use_type_invariant(self);
        }
        self.topics
    }

    /// How many subscriptions the mesh holds.
    pub fn subscriptions(&self) -> (r: usize)
        ensures
            r == self@.subscriptions.len(),
    {
        self.subscription_count
    }

    /// Returns `true` when no key holds a retained sample.
    pub fn is_empty(&self) -> (r: bool)
        ensures
            r == (self@.samples.len() == 0),
    {
        self.topics == 0
    }
}

impl Default for ClientTable {
    fn default() -> (r: Self)
        ensures
            r@ == 0,
    {
        ClientTable::new()
    }
}

impl Default for MockedMesh {
    fn default() -> (r: Self)
        ensures
            r@.samples.len() == 0 && r@.subscriptions.len() == 0,
    {
        MockedMesh::new()
    }
}

} // verus!
