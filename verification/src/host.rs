//! An explicit model of the host collaborator that schedules processes and
//! transports messages.
//!
//! The real runtime lives outside the guest; its observable duties — the
//! process table, per-process mailbox queues, failure links, spawn
//! configurations, the registry, and the single "current" message buffer —
//! are modelled here as plain state, so the process, mailbox and tag
//! protocols can be stated and checked against it. Tests drive the model
//! directly, switching which process is "current" to play each side of an
//! exchange.
use vstd::prelude::*;

use crate::serializer::MessageRw;
use crate::tag::Tag;
use crate::tag::TagCounter;
use crate::tag::next_tag_value;

verus! {

/// A failure-propagation link: this process is linked to `peer`, and a death
/// travelling across the link is reported under `tag`.
#[derive(Clone, Copy, Debug, PartialEq, Eq, Structural)]
pub struct Link {
    pub peer: u64,
    pub tag: i64,
}

/// One entry of a process's mailbox queue.
#[derive(Debug, Clone)]
pub enum Envelope {
    /// An ordinary message: its correlation tag and its encoded bytes.
    Data { tag: i64, data: Vec<u8> },
    /// A link-death notification, delivered out-of-band under the tag the
    /// link was created with.
    LinkDied { tag: i64 },
}

impl Envelope {
    /// The correlation tag this envelope carries.
    pub open spec fn tag_of(self) -> i64 {
        match self {
            Envelope::Data { tag, .. } => tag,
            Envelope::LinkDied { tag } => tag,
        }
    }

    /// The encoded bytes of a data envelope.
    pub open spec fn data_of(self) -> Seq<u8> {
        match self {
            Envelope::Data { data, .. } => data@,
            Envelope::LinkDied { .. } => Seq::<u8>::empty(),
        }
    }

    /// Whether a receive restricted to `filter` selects this envelope: link
    /// death matches any filter, and a data message matches when the filter
    /// is empty or names its tag.
    pub open spec fn matches(self, filter: Seq<i64>) -> bool {
        match self {
            Envelope::LinkDied { .. } => true,
            Envelope::Data { tag, .. } => filter.len() == 0 || filter.contains(tag),
        }
    }
}

/// A host-resolved spawn configuration object.
#[derive(Debug, Clone)]
pub struct ConfigRecord {
    pub name: String,
    pub expected_time: u64,
    pub relative_ddl: u64,
}

/// A name published for a process identifier, together with the explicit
/// schema/version discriminator of the message type and encoding the process
/// speaks — the discriminator prevents type confusion on lookup.
#[derive(Debug)]
pub struct RegistryEntry {
    pub name: String,
    pub schema: String,
    pub id: u64,
}

/// Whether a registry entry answers a lookup of `name` made at schema
/// `schema`: both the alias and the discriminator must agree.
pub open spec fn registry_entry_answers(e: RegistryEntry, name: Seq<char>, schema: Seq<char>) -> bool {
    e.name@ == name && e.schema@ == schema
}

/// Law: one registry entry never answers lookups at two different schemas,
/// however the aliases collide — a lookup made for another message type or
/// encoding cannot be confused with this one.
pub proof fn lemma_registry_no_type_confusion(
    e: RegistryEntry,
    name: Seq<char>,
    s1: Seq<char>,
    s2: Seq<char>,
)
    requires
        s1 != s2,
        registry_entry_answers(e, name, s1),
    ensures
        !registry_entry_answers(e, name, s2),
{
}

/// The host's record of one process.
#[derive(Debug)]
pub struct ProcessRecord {
    /// Whether the process is still running.
    pub alive: bool,
    /// The mailbox queue, in arrival order.
    pub queue: Vec<Envelope>,
    /// The links this process participates in, at most one per peer.
    pub links: Vec<Link>,
    /// When true (the default), a link death aborts this process instead of
    /// being queued as an observable notification.
    pub die_on_link: bool,
    /// The configuration the process was spawned with; `-1` means inherited.
    pub config_id: i64,
    /// The process-local allocator for correlation tags.
    pub tags: TagCounter,
}

impl ProcessRecord {
    pub open spec fn wf(self, nprocs: int, nconfigs: int) -> bool {
        &&& forall|k: int|
            0 <= k < self.links@.len() ==> (#[trigger] self.links@[k]).peer < nprocs
        &&& forall|k1: int, k2: int|
            0 <= k1 < k2 < self.links@.len() ==> self.links@[k1].peer != self.links@[k2].peer
        &&& (self.config_id == -1 || 0 <= self.config_id < nconfigs)
        &&& self.tags.wf()
        &&& (self.die_on_link ==> forall|k: int|
            0 <= k < self.queue@.len() ==> (#[trigger] self.queue@[k]) is Data)
    }

    /// Whether this process holds a link to `peer`.
    pub open spec fn linked_to(self, peer: int) -> bool {
        link_before(self.links@, self.links@.len() as int, peer)
    }

    /// The tag of this process's link to `peer` (unique, since a process
    /// holds at most one link per peer).
    pub open spec fn link_tag(self, peer: int) -> i64 {
        self.links@[choose|k: int|
            0 <= k < self.links@.len() && (#[trigger] self.links@[k]).peer as int == peer].tag
    }
}

/// Whether one of the first `k` links names `peer`.
pub open spec fn link_before(links: Seq<Link>, k: int, peer: int) -> bool {
    exists|j: int| 0 <= j < k && j < links.len() && (#[trigger] links[j]).peer as int == peer
}

/// With at most one link per peer, the link found at `k` is the link to its
/// peer, so the tag the death will carry is that entry's tag.
proof fn lemma_link_tag_unique(r: ProcessRecord, k: int)
    requires
        0 <= k < r.links@.len(),
        forall|k1: int, k2: int|
            0 <= k1 < k2 < r.links@.len() ==> r.links@[k1].peer != r.links@[k2].peer,
    ensures
        r.linked_to(r.links@[k].peer as int),
        r.link_tag(r.links@[k].peer as int) == r.links@[k].tag,
{
    let peer = r.links@[k].peer as int;
    assert(link_before(r.links@, r.links@.len() as int, peer));
    let k2 = choose|j: int|
        0 <= j < r.links@.len() && (#[trigger] r.links@[j]).peer as int == peer;
    if k2 != k {
        if k2 < k {
            assert(r.links@[k2].peer != r.links@[k].peer);
        } else {
            assert(r.links@[k].peer != r.links@[k2].peer);
        }
    }
}

/// Law: a process whose only link is to `peer` under `tag` is linked to
/// `peer`, and a death travelling across that link is reported under exactly
/// `tag` — in particular, a linked spawn's fresh tag is the one a later
/// link-death notification carries.
pub proof fn lemma_sole_link_tag(r: ProcessRecord, peer: int, tag: i64)
    requires
        r.links@.len() == 1,
        r.links@[0].peer as int == peer,
        r.links@[0].tag == tag,
    ensures
        r.linked_to(peer),
        r.link_tag(peer) == tag,
{
    lemma_link_tag_unique(r, 0);
}

/// Whether some queued envelope would be selected by a receive under `filter`.
pub open spec fn has_match(q: Seq<Envelope>, filter: Seq<i64>) -> bool {
    exists|i: int| 0 <= i < q.len() && (#[trigger] q[i]).matches(filter)
}

/// The record of a process right after its death: everything kept, only the
/// liveness flag cleared.
pub open spec fn killed(r: ProcessRecord) -> ProcessRecord {
    ProcessRecord { alive: false, ..r }
}

/// Whether `newr` is `oldr` with one link-death notification for `tag`
/// appended to its queue and nothing else changed.
pub open spec fn notified(oldr: ProcessRecord, newr: ProcessRecord, tag: i64) -> bool {
    &&& newr.alive == oldr.alive
    &&& newr.queue@ == oldr.queue@.push(Envelope::LinkDied { tag })
    &&& newr.links == oldr.links
    &&& newr.die_on_link == oldr.die_on_link
    &&& newr.config_id == oldr.config_id
    &&& newr.tags == oldr.tags
}

/// The mocked host: every observable piece of state the runtime keeps on
/// behalf of the guest.
#[derive(Debug)]
pub struct HostState {
    /// All processes ever created, indexed by their identifier.
    pub processes: Vec<ProcessRecord>,
    /// All configuration objects ever allocated, indexed by their handle.
    pub configs: Vec<ConfigRecord>,
    /// The name registry.
    pub registry: Vec<RegistryEntry>,
    /// The identifier of the process currently executing.
    pub current: u64,
    /// Mock knob: whether the host grants configuration allocations.
    pub config_allowed: bool,
    /// Mock knob: when set, spawning fails with this host error identifier.
    pub spawn_error: Option<u64>,
    /// The outbound message buffer under construction.
    pub outbound: MessageRw,
    /// The tag the outbound message will carry.
    pub outbound_tag: i64,
}

impl HostState {
    pub open spec fn wf(self) -> bool {
        &&& (self.current as int) < self.processes@.len()
        &&& forall|p: int|
            0 <= p < self.processes@.len() ==> (#[trigger] self.processes@[p]).wf(
                self.processes@.len() as int,
                self.configs@.len() as int,
            )
    }

    /// The record of the process currently executing.
    pub open spec fn cur(self) -> ProcessRecord {
        self.processes@[self.current as int]
    }

    /// Everything except the process table and the outbound buffer is equal.
    pub open spec fn same_core(self, other: HostState) -> bool {
        &&& self.configs == other.configs
        &&& self.registry == other.registry
        &&& self.current == other.current
        &&& self.config_allowed == other.config_allowed
        &&& self.spawn_error == other.spawn_error
    }

    /// The outbound staging buffer is equal.
    pub open spec fn same_outbound(self, other: HostState) -> bool {
        &&& self.outbound == other.outbound
        &&& self.outbound_tag == other.outbound_tag
    }

    /// A fresh host: one root process (identifier `0`, currently executing),
    /// no configurations, an empty registry, and a permissive mock.
    pub fn new() -> (h: HostState)
        ensures
            h.wf(),
            h.current == 0,
            h.processes@.len() == 1,
            h.processes@[0].alive,
            h.processes@[0].queue@ == Seq::<Envelope>::empty(),
            h.processes@[0].links@ == Seq::<Link>::empty(),
            h.processes@[0].die_on_link,
            h.processes@[0].config_id == -1,
            h.processes@[0].tags.spec_value() == 128,
            h.configs@ == Seq::<ConfigRecord>::empty(),
            h.registry@ == Seq::<RegistryEntry>::empty(),
            h.config_allowed,
            h.spawn_error is None,
    {
        let root = ProcessRecord {
            alive: true,
            queue: Vec::new(),
            links: Vec::new(),
            die_on_link: true,
            config_id: -1,
            tags: TagCounter::new(),
        };
        let mut processes: Vec<ProcessRecord> = Vec::new();
        processes.push(root);
        HostState {
            processes,
            configs: Vec::new(),
            registry: Vec::new(),
            current: 0,
            config_allowed: true,
            spawn_error: None,
            outbound: MessageRw::new(),
            outbound_tag: 0,
        }
    }
}

/// Convert an identifier known to be in range into a vector index.
fn to_index(id: u64, bound: usize) -> (i: usize)
    requires
        (id as int) < (bound as int),
    ensures
        i as int == id as int,
{
    proof {
        assert(id as int <= usize::MAX as int);
    }
    id as usize
}

/// Replacing an element by taking it out and putting one back leaves exactly
/// a point update.
proof fn lemma_remove_insert<A>(s: Seq<A>, i: int, x: A)
    requires
        0 <= i < s.len(),
    ensures
        s.remove(i).insert(i, x) =~= s.update(i, x),
{
}

/// Whether `e` is an ordinary message carrying exactly this tag and payload.
pub open spec fn is_data_envelope(e: Envelope, tag: i64, data: Seq<u8>) -> bool {
    &&& e is Data
    &&& e.tag_of() == tag
    &&& e.data_of() == data
}

/// Whether `newr` is `oldr` with one data envelope for `(tag, data)` appended
/// to its queue and nothing else changed.
pub open spec fn delivered(oldr: ProcessRecord, newr: ProcessRecord, tag: i64, data: Seq<u8>) -> bool {
    &&& newr.queue@.len() == oldr.queue@.len() + 1
    &&& newr.queue@ == oldr.queue@.push(newr.queue@.last())
    &&& is_data_envelope(newr.queue@.last(), tag, data)
    &&& newr.alive == oldr.alive
    &&& newr.links == oldr.links
    &&& newr.die_on_link == oldr.die_on_link
    &&& newr.config_id == oldr.config_id
    &&& newr.tags == oldr.tags
}

impl HostState {
    /// Ask the host for a fresh configuration object. Returns its handle, or
    /// `-1` exactly when the host refuses the allocation.
    pub fn create_config(&mut self) -> (r: i64)
        requires
            old(self).wf(),
            old(self).configs@.len() < i64::MAX,
        ensures
            final(self).wf(),
            final(self).processes == old(self).processes,
            final(self).registry == old(self).registry,
            final(self).current == old(self).current,
            final(self).config_allowed == old(self).config_allowed,
            final(self).spawn_error == old(self).spawn_error,
            old(self).same_outbound(*final(self)),
            r == -1 <==> !old(self).config_allowed,
            !old(self).config_allowed ==> final(self).configs == old(self).configs,
            old(self).config_allowed ==> {
                &&& r == old(self).configs@.len()
                &&& final(self).configs@ == old(self).configs@.push(final(self).configs@.last())
                &&& final(self).configs@.last().name@ == Seq::<char>::empty()
                &&& final(self).configs@.last().expected_time == 0
                &&& final(self).configs@.last().relative_ddl == 0
            },
    {
        if !self.config_allowed {
            return -1;
        }
        let n = self.configs.len();
        let id = n as i64;
        proof {
            assert(id as int == n as int);
        }
        self.configs.push(ConfigRecord { name: String::new(), expected_time: 0, relative_ddl: 0 });
        id
    }

    /// Set the display name of the configuration object `id`.
    pub fn config_set_name(&mut self, id: u64, name: &str)
        requires
            old(self).wf(),
            (id as int) < old(self).configs@.len(),
        ensures
            final(self).wf(),
            final(self).processes == old(self).processes,
            final(self).registry == old(self).registry,
            final(self).current == old(self).current,
            final(self).config_allowed == old(self).config_allowed,
            final(self).spawn_error == old(self).spawn_error,
            old(self).same_outbound(*final(self)),
            final(self).configs@.len() == old(self).configs@.len(),
            final(self).configs@[id as int].name@ == name@,
            final(self).configs@[id as int].expected_time == old(self).configs@[id as int].expected_time,
            final(self).configs@[id as int].relative_ddl == old(self).configs@[id as int].relative_ddl,
            forall|j: int|
                0 <= j < old(self).configs@.len() && j != id ==> final(self).configs@[j] == old(self).configs@[j],
    {
        let i = to_index(id, self.configs.len());
        let mut rec = self.configs.remove(i);
        rec.name = name.to_owned();
        self.configs.insert(i, rec);
        proof {
            lemma_remove_insert(old(self).configs@, i as int, self.configs@[i as int]);
        }
    }

    /// Set the expected running time (in milliseconds) of the configuration
    /// object `id`.
    pub fn config_set_expected_time(&mut self, id: u64, time: u64)
        requires
            old(self).wf(),
            (id as int) < old(self).configs@.len(),
        ensures
            final(self).wf(),
            final(self).processes == old(self).processes,
            final(self).registry == old(self).registry,
            final(self).current == old(self).current,
            final(self).config_allowed == old(self).config_allowed,
            final(self).spawn_error == old(self).spawn_error,
            old(self).same_outbound(*final(self)),
            final(self).configs@ == old(self).configs@.update(
                id as int,
                (ConfigRecord { expected_time: time, ..old(self).configs@[id as int] }),
            ),
    {
        let i = to_index(id, self.configs.len());
        let mut rec = self.configs.remove(i);
        rec.expected_time = time;
        self.configs.insert(i, rec);
        proof {
            lemma_remove_insert(old(self).configs@, i as int, self.configs@[i as int]);
        }
    }

    /// Set the relative deadline (in milliseconds) of the configuration
    /// object `id`.
    pub fn config_set_relative_ddl(&mut self, id: u64, time: u64)
        requires
            old(self).wf(),
            (id as int) < old(self).configs@.len(),
        ensures
            final(self).wf(),
            final(self).processes == old(self).processes,
            final(self).registry == old(self).registry,
            final(self).current == old(self).current,
            final(self).config_allowed == old(self).config_allowed,
            final(self).spawn_error == old(self).spawn_error,
            old(self).same_outbound(*final(self)),
            final(self).configs@ == old(self).configs@.update(
                id as int,
                (ConfigRecord { relative_ddl: time, ..old(self).configs@[id as int] }),
            ),
    {
        let i = to_index(id, self.configs.len());
        let mut rec = self.configs.remove(i);
        rec.relative_ddl = time;
        self.configs.insert(i, rec);
        proof {
            lemma_remove_insert(old(self).configs@, i as int, self.configs@[i as int]);
        }
    }

    /// The identifier of the process currently executing.
    pub fn process_id(&self) -> (r: u64)
        ensures
            r == self.current,
    {
        self.current
    }

    /// Switch which process is currently executing. This is the mock's stand
    /// in for the scheduler: a driver uses it to play each side of an
    /// exchange.
    pub fn set_current(&mut self, id: u64)
        requires
            old(self).wf(),
            (id as int) < old(self).processes@.len(),
        ensures
            final(self).wf(),
            *final(self) == (HostState { current: id, ..*old(self) }),
    {
        self.current = id;
    }

    /// Allocate a fresh correlation tag from the current process's counter.
    pub fn alloc_tag(&mut self) -> (t: Tag)
        requires
            old(self).wf(),
            old(self).cur().tags.spec_value() < i64::MAX,
        ensures
            final(self).wf(),
            old(self).same_core(*final(self)),
            old(self).same_outbound(*final(self)),
            t.spec_id() == next_tag_value(old(self).cur().tags.spec_value()),
            t.is_allocated(),
            final(self).processes@.len() == old(self).processes@.len(),
            final(self).cur().alive == old(self).cur().alive,
            final(self).cur().queue == old(self).cur().queue,
            final(self).cur().links == old(self).cur().links,
            final(self).cur().die_on_link == old(self).cur().die_on_link,
            final(self).cur().config_id == old(self).cur().config_id,
            final(self).cur().tags.spec_value() == old(self).cur().tags.spec_value() + 1,
            forall|p: int|
                0 <= p < old(self).processes@.len() && p != old(self).current ==> final(self).processes@[p] == old(self).processes@[p],
    {
        let i = to_index(self.current, self.processes.len());
        let mut rec = self.processes.remove(i);
        let t = Tag::new(&mut rec.tags);
        self.processes.insert(i, rec);
        proof {
            lemma_remove_insert(old(self).processes@, i as int, self.processes@[i as int]);
        }
        t
    }

    /// Publish `name` for the process `id` in the registry, carrying the
    /// schema/version discriminator `schema` alongside the entry.
    pub fn registry_put(&mut self, name: String, schema: String, id: u64)
        requires
            old(self).wf(),
        ensures
            final(self).wf(),
            *final(self) == (HostState { registry: final(self).registry, ..*old(self) }),
            final(self).registry@ == old(self).registry@.push(
                RegistryEntry { name: name, schema: schema, id: id },
            ),
    {
        self.registry.push(RegistryEntry { name, schema, id });
    }

    /// Start composing an outbound message carrying `tag`: the current
    /// outbound buffer becomes a fresh, empty one.
    pub fn message_create_data(&mut self, tag: i64)
        requires
            old(self).wf(),
        ensures
            final(self).wf(),
            old(self).same_core(*final(self)),
            final(self).processes == old(self).processes,
            final(self).outbound.data@ == Seq::<u8>::empty(),
            final(self).outbound.pos == 0,
            final(self).outbound_tag == tag,
    {
        self.outbound = MessageRw::new();
        self.outbound_tag = tag;
    }

    /// Transport the staged outbound message to process `target`, consuming
    /// the staging buffer. Delivery is best effort: a message to a dead or
    /// unknown process is dropped; a delivered message is appended to the
    /// target's queue, preserving per-sender order.
    pub fn message_send(&mut self, target: u64)
        requires
            old(self).wf(),
        ensures
            final(self).wf(),
            old(self).same_core(*final(self)),
            final(self).outbound.data@ == Seq::<u8>::empty(),
            final(self).outbound.pos == 0,
            final(self).outbound_tag == old(self).outbound_tag,
            final(self).processes@.len() == old(self).processes@.len(),
            ((target as int) < old(self).processes@.len() && old(self).processes@[target as int].alive)
                ==> {
                &&& delivered(
                    old(self).processes@[target as int],
                    final(self).processes@[target as int],
                    old(self).outbound_tag,
                    old(self).outbound.data@,
                )
                &&& forall|p: int|
                    0 <= p < old(self).processes@.len() && p != target ==> final(self).processes@[p] == old(self).processes@[p]
            },
            !((target as int) < old(self).processes@.len() && old(self).processes@[target as int].alive)
                ==> final(self).processes == old(self).processes,
    {
        let mut staged = MessageRw::new();
        core::mem::swap(&mut self.outbound, &mut staged);
        if target < self.processes.len() as u64 {
            let i = to_index(target, self.processes.len());
            if self.processes[i].alive {
                let mut rec = self.processes.remove(i);
                rec.queue.push(Envelope::Data { tag: self.outbound_tag, data: staged.data });
                self.processes.insert(i, rec);
                proof {
                    lemma_remove_insert(old(self).processes@, i as int, self.processes@[i as int]);
                }
            }
        }
    }
}

/// Whether `filter` names `tag`.
fn contains_tag(filter: &Vec<i64>, tag: i64) -> (b: bool)
    ensures
        b == filter@.contains(tag),
{
    let mut i: usize = 0;
    while i < filter.len()
        invariant
            i <= filter@.len(),
            forall|j: int| 0 <= j < i ==> filter@[j] != tag,
        decreases filter@.len() - i,
    {
        if filter[i] == tag {
            return true;
        }
        i = i + 1;
    }
    false
}

/// Whether a receive restricted to `filter` selects this envelope.
fn envelope_matches(e: &Envelope, filter: &Vec<i64>) -> (b: bool)
    ensures
        b == e.matches(filter@),
{
    match e {
        Envelope::LinkDied { .. } => true,
        Envelope::Data { tag, .. } => {
            if filter.len() == 0 {
                true
            } else {
                contains_tag(filter, *tag)
            }
        },
    }
}

impl HostState {
    /// Create a new process. Its identifier is the next table slot; when
    /// `link` carries a tag, the child starts bidirectionally linked to the
    /// current process under that tag. Fails exactly when the mock host is
    /// set to refuse spawns, reporting the configured error identifier.
    pub fn process_spawn(&mut self, link: Option<Tag>, config_id: i64) -> (r: Result<u64, u64>)
        requires
            old(self).wf(),
            config_id == -1 || 0 <= config_id < old(self).configs@.len(),
        ensures
            final(self).wf(),
            old(self).same_core(*final(self)),
            old(self).same_outbound(*final(self)),
            old(self).spawn_error is Some ==> r == Result::<u64, u64>::Err(
                old(self).spawn_error.unwrap(),
            ) && *final(self) == *old(self),
            old(self).spawn_error is None ==> {
                let newid = old(self).processes@.len() as int;
                let child = final(self).processes@.last();
                &&& r == Result::<u64, u64>::Ok(old(self).processes@.len() as u64)
                &&& final(self).processes@.len() == old(self).processes@.len() + 1
                &&& child.alive
                &&& child.queue@ == Seq::<Envelope>::empty()
                &&& child.die_on_link
                &&& child.config_id == config_id
                &&& child.tags.spec_value() == 128
                &&& (link is None ==> child.links@.len() == 0)
                &&& (link is Some ==> child.links@.len() == 1
                    && child.links@[0].peer == old(self).current
                    && child.links@[0].tag as int == link.unwrap().spec_id())
                &&& (link is None ==> forall|p: int|
                    0 <= p < old(self).processes@.len() ==> final(self).processes@[p] == old(self).processes@[p])
                &&& (link is Some ==> {
                    let cur = old(self).current as int;
                    let oldc = old(self).processes@[cur];
                    let newc = final(self).processes@[cur];
                    &&& newc.links@ == oldc.links@.push(newc.links@.last())
                    &&& newc.links@.last().peer as int == newid
                    &&& newc.links@.last().tag as int == link.unwrap().spec_id()
                    &&& newc.alive == oldc.alive
                    &&& newc.queue == oldc.queue
                    &&& newc.die_on_link == oldc.die_on_link
                    &&& newc.config_id == oldc.config_id
                    &&& newc.tags == oldc.tags
                    &&& forall|p: int|
                        0 <= p < old(self).processes@.len() && p != cur ==> final(self).processes@[p] == old(self).processes@[p]
                })
            },
    {
        if let Some(e) = self.spawn_error {
            return Err(e);
        }
        let id = self.processes.len() as u64;
        let mut child_links: Vec<Link> = Vec::new();
        if let Some(t) = link {
            child_links.push(Link { peer: self.current, tag: t.id() });
        }
        let child = ProcessRecord {
            alive: true,
            queue: Vec::new(),
            links: child_links,
            die_on_link: true,
            config_id,
            tags: TagCounter::new(),
        };
        self.processes.push(child);
        if let Some(t) = link {
            let ci = to_index(self.current, self.processes.len());
            let mut rec = self.processes.remove(ci);
            rec.links.push(Link { peer: id, tag: t.id() });
            self.processes.insert(ci, rec);
            proof {
                lemma_remove_insert(
                    old(self).processes@.push(final(self).processes@.last()),
                    ci as int,
                    self.processes@[ci as int],
                );
            }
        }
        Ok(id)
    }

    /// Selective receive on the current process's queue: remove and return
    /// the first envelope that `filter` selects, leaving every other envelope
    /// queued in arrival order. Returns nothing exactly when no queued
    /// envelope matches — the bounded wait timed out; an unbounded wait
    /// (`u64::MAX`, "no timeout") is only permitted when a matching envelope
    /// is already queued, because nothing else could ever unblock it here.
    pub fn message_receive(&mut self, filter: &Vec<i64>, timeout_ms: u64) -> (r: Option<Envelope>)
        requires
            old(self).wf(),
            timeout_ms < u64::MAX || has_match(old(self).cur().queue@, filter@),
        ensures
            final(self).wf(),
            old(self).same_core(*final(self)),
            old(self).same_outbound(*final(self)),
            final(self).processes@.len() == old(self).processes@.len(),
            r is Some <==> has_match(old(self).cur().queue@, filter@),
            r is None ==> final(self).processes == old(self).processes,
            r is Some ==> {
                let oldq = old(self).cur().queue@;
                &&& exists|i: int|
                    {
                        &&& 0 <= i < oldq.len()
                        &&& #[trigger] oldq[i] == r.unwrap()
                        &&& oldq[i].matches(filter@)
                        &&& (forall|j: int| 0 <= j < i ==> !(#[trigger] oldq[j]).matches(filter@))
                        &&& final(self).cur().queue@ == oldq.remove(i)
                    }
                &&& final(self).cur().alive == old(self).cur().alive
                &&& final(self).cur().links == old(self).cur().links
                &&& final(self).cur().die_on_link == old(self).cur().die_on_link
                &&& final(self).cur().config_id == old(self).cur().config_id
                &&& final(self).cur().tags == old(self).cur().tags
                &&& forall|p: int|
                    0 <= p < old(self).processes@.len() && p != old(self).current ==> final(self).processes@[p] == old(self).processes@[p]
            },
    {
        let ci = to_index(self.current, self.processes.len());
        let n = self.processes[ci].queue.len();
        let mut i: usize = 0;
        let mut found: bool = false;
        let mut idx: usize = 0;
        while !found && i < n
            invariant
                old(self).wf(),
                *self == *old(self),
                ci as int == old(self).current as int,
                n == old(self).cur().queue@.len(),
                i <= n,
                !found ==> forall|j: int|
                    0 <= j < i ==> !(#[trigger] old(self).cur().queue@[j]).matches(filter@),
                found ==> {
                    &&& (idx as int) < n
                    &&& old(self).cur().queue@[idx as int].matches(filter@)
                    &&& forall|j: int|
                        0 <= j < idx ==> !(#[trigger] old(self).cur().queue@[j]).matches(filter@)
                },
            decreases n - i,
        {
            if envelope_matches(&self.processes[ci].queue[i], filter) {
                found = true;
                idx = i;
            }
            i = i + 1;
        }
        if found {
            let mut rec = self.processes.remove(ci);
            let env = rec.queue.remove(idx);
            self.processes.insert(ci, rec);
            proof {
                lemma_remove_insert(old(self).processes@, ci as int, self.processes@[ci as int]);
                assert(has_match(old(self).cur().queue@, filter@));
            }
            Some(env)
        } else {
            proof {
                assert(!has_match(old(self).cur().queue@, filter@));
            }
            None
        }
    }
}

/// The position of the link to `peer` in a link list that holds one.
pub open spec fn link_idx(links: Seq<Link>, peer: int) -> int {
    choose|k: int| 0 <= k < links.len() && (#[trigger] links[k]).peer as int == peer
}

/// A link list after establishing a link to `peer` under `tag`: an existing
/// link to that peer is re-tagged, otherwise the link is appended.
pub open spec fn set_link(links: Seq<Link>, peer: u64, tag: i64) -> Seq<Link> {
    if link_before(links, links.len() as int, peer as int) {
        links.update(link_idx(links, peer as int), Link { peer, tag })
    } else {
        links.push(Link { peer, tag })
    }
}

/// A link list after removing the link to `peer`, if there is one.
pub open spec fn removed_link(links: Seq<Link>, peer: u64) -> Seq<Link> {
    if link_before(links, links.len() as int, peer as int) {
        links.remove(link_idx(links, peer as int))
    } else {
        links
    }
}

/// With at most one link per peer, the entry found at `k` is the entry the
/// specification's choice picks.
proof fn lemma_link_idx_unique(links: Seq<Link>, k: int)
    requires
        0 <= k < links.len(),
        forall|k1: int, k2: int| 0 <= k1 < k2 < links.len() ==> links[k1].peer != links[k2].peer,
    ensures
        link_before(links, links.len() as int, links[k].peer as int),
        link_idx(links, links[k].peer as int) == k,
{
    let peer = links[k].peer as int;
    assert(link_before(links, links.len() as int, peer));
    let k2 = choose|j: int| 0 <= j < links.len() && (#[trigger] links[j]).peer as int == peer;
    if k2 != k {
        if k2 < k {
            assert(links[k2].peer != links[k].peer);
        } else {
            assert(links[k].peer != links[k2].peer);
        }
    }
}

/// Establish the link to `peer` under `tag` in a link list with at most one
/// link per peer.
#[verifier::loop_isolation(false)]
fn set_link_in(links: &mut Vec<Link>, peer: u64, tag: i64)
    requires
        forall|k1: int, k2: int|
            0 <= k1 < k2 < old(links)@.len() ==> old(links)@[k1].peer != old(links)@[k2].peer,
        old(links)@.len() < usize::MAX,
    ensures
        final(links)@ == set_link(old(links)@, peer, tag),
        forall|k1: int, k2: int|
            0 <= k1 < k2 < final(links)@.len() ==> final(links)@[k1].peer != final(links)@[k2].peer,
        forall|k: int|
            0 <= k < final(links)@.len() ==> (#[trigger] final(links)@[k]).peer == peer
                || link_before(old(links)@, old(links)@.len() as int, final(links)@[k].peer as int),
{
    let n = links.len();
    let mut i: usize = 0;
    while i < n
        invariant
            i <= n,
            n == links@.len(),
            *links == *old(links),
            forall|j: int| 0 <= j < i ==> (#[trigger] links@[j]).peer != peer,
        decreases n - i,
    {
        if links[i].peer == peer {
            proof {
                lemma_link_idx_unique(links@, i as int);
            }
            links.set(i, Link { peer, tag });
            proof {
                assert forall|k1: int, k2: int|
                    0 <= k1 < k2 < links@.len() implies links@[k1].peer != links@[k2].peer by {
                    assert(old(links)@[k1].peer != old(links)@[k2].peer);
                }
                assert forall|k: int|
                    0 <= k < links@.len() implies (#[trigger] links@[k]).peer == peer
                    || link_before(
                    old(links)@,
                    old(links)@.len() as int,
                    links@[k].peer as int,
                ) by {
                    if k != i {
                        assert(links@[k] == old(links)@[k]);
                        assert(link_before(old(links)@, old(links)@.len() as int, links@[k].peer as int));
                    }
                }
            }
            return ;
        }
        i = i + 1;
    }
    links.push(Link { peer, tag });
    proof {
        assert(!link_before(old(links)@, old(links)@.len() as int, peer as int));
        assert forall|k1: int, k2: int|
            0 <= k1 < k2 < links@.len() implies links@[k1].peer != links@[k2].peer by {
            if k2 < old(links)@.len() {
                assert(old(links)@[k1].peer != old(links)@[k2].peer);
            } else {
                assert(links@[k1].peer != peer);
            }
        }
        assert forall|k: int|
            0 <= k < links@.len() implies (#[trigger] links@[k]).peer == peer || link_before(
            old(links)@,
            old(links)@.len() as int,
            links@[k].peer as int,
        ) by {
            if k < old(links)@.len() {
                assert(links@[k] == old(links)@[k]);
                assert(link_before(old(links)@, old(links)@.len() as int, links@[k].peer as int));
            }
        }
    }
}

/// Remove the link to `peer`, if any, from a link list with at most one link
/// per peer.
#[verifier::loop_isolation(false)]
fn remove_link_in(links: &mut Vec<Link>, peer: u64)
    requires
        forall|k1: int, k2: int|
            0 <= k1 < k2 < old(links)@.len() ==> old(links)@[k1].peer != old(links)@[k2].peer,
    ensures
        final(links)@ == removed_link(old(links)@, peer),
        forall|k1: int, k2: int|
            0 <= k1 < k2 < final(links)@.len() ==> final(links)@[k1].peer != final(links)@[k2].peer,
        forall|k: int|
            0 <= k < final(links)@.len() ==> link_before(
                old(links)@,
                old(links)@.len() as int,
                (#[trigger] final(links)@[k]).peer as int,
            ),
{
    let n = links.len();
    let mut i: usize = 0;
    while i < n
        invariant
            i <= n,
            n == links@.len(),
            *links == *old(links),
            forall|j: int| 0 <= j < i ==> (#[trigger] links@[j]).peer != peer,
        decreases n - i,
    {
        if links[i].peer == peer {
            proof {
                lemma_link_idx_unique(links@, i as int);
            }
            links.remove(i);
            proof {
                assert forall|k: int|
                    0 <= k < links@.len() implies link_before(
                    old(links)@,
                    old(links)@.len() as int,
                    (#[trigger] links@[k]).peer as int,
                ) by {
                    if k < i {
                        assert(links@[k] == old(links)@[k]);
                    } else {
                        assert(links@[k] == old(links)@[k + 1]);
                    }
                }
            }
            return ;
        }
        i = i + 1;
    }
    proof {
        assert(!link_before(old(links)@, old(links)@.len() as int, peer as int));
        assert forall|k: int|
            0 <= k < links@.len() implies link_before(
            old(links)@,
            old(links)@.len() as int,
            (#[trigger] links@[k]).peer as int,
        ) by {
        }
    }
}

/// Everything of a process record except its link list is equal.
pub open spec fn same_except_links(oldr: ProcessRecord, newr: ProcessRecord) -> bool {
    &&& newr.alive == oldr.alive
    &&& newr.queue == oldr.queue
    &&& newr.die_on_link == oldr.die_on_link
    &&& newr.config_id == oldr.config_id
    &&& newr.tags == oldr.tags
}

/// What the death of `target` does to process `p`, once the first `k` links
/// of `target` have been walked: an alive peer that surfaces link deaths has
/// one notification appended under the link's tag; an alive peer that does
/// not is terminated; everything else is untouched.
pub open spec fn kill_effect(
    oldp: Seq<ProcessRecord>,
    newp: Seq<ProcessRecord>,
    target: int,
    p: int,
    k: int,
) -> bool {
    if link_before(oldp[target].links@, k, p) && oldp[p].alive {
        if oldp[p].die_on_link {
            newp[p] == killed(oldp[p])
        } else {
            notified(oldp[p], newp[p], oldp[target].link_tag(p))
        }
    } else {
        newp[p] == oldp[p]
    }
}

impl HostState {
    /// Establish a bidirectional link between the current process and
    /// `target`, reported under `tag`; an existing link between the two is
    /// re-tagged.
    pub fn process_link(&mut self, tag: i64, target: u64)
        requires
            old(self).wf(),
            (target as int) < old(self).processes@.len(),
            old(self).cur().links@.len() < usize::MAX,
            old(self).processes@[target as int].links@.len() < usize::MAX,
        ensures
            final(self).wf(),
            old(self).same_core(*final(self)),
            old(self).same_outbound(*final(self)),
            final(self).processes@.len() == old(self).processes@.len(),
            forall|p: int|
                0 <= p < old(self).processes@.len() && p != old(self).current && p != target
                    ==> final(self).processes@[p] == old(self).processes@[p],
            same_except_links(old(self).cur(), final(self).cur()),
            same_except_links(
                old(self).processes@[target as int],
                final(self).processes@[target as int],
            ),
            target == old(self).current ==> final(self).cur().links@ == set_link(
                old(self).cur().links@,
                target,
                tag,
            ),
            target != old(self).current ==> {
                &&& final(self).cur().links@ == set_link(old(self).cur().links@, target, tag)
                &&& final(self).processes@[target as int].links@ == set_link(
                    old(self).processes@[target as int].links@,
                    old(self).current,
                    tag,
                )
            },
    {
        let ci = to_index(self.current, self.processes.len());
        let ti = to_index(target, self.processes.len());
        let ghost n = old(self).processes@.len() as int;
        let ghost ncfg = old(self).configs@.len() as int;
        proof {
            assert(old(self).processes@[ci as int].wf(n, ncfg));
            assert(old(self).processes@[ti as int].wf(n, ncfg));
        }
        let mut rec = self.processes.remove(ci);
        set_link_in(&mut rec.links, target, tag);
        self.processes.insert(ci, rec);
        proof {
            lemma_remove_insert(old(self).processes@, ci as int, self.processes@[ci as int]);
        }
        if ti != ci {
            let ghost mid = self.processes@;
            let mut rec2 = self.processes.remove(ti);
            set_link_in(&mut rec2.links, self.current, tag);
            self.processes.insert(ti, rec2);
            proof {
                lemma_remove_insert(mid, ti as int, self.processes@[ti as int]);
            }
        }
        proof {
            assert forall|p: int| 0 <= p < n implies (#[trigger] self.processes@[p]).wf(
                n,
                ncfg,
            ) by {
                assert(old(self).processes@[p].wf(n, ncfg));
            }
        }
    }

    /// Remove the link, if any, between the current process and `target`.
    pub fn process_unlink(&mut self, target: u64)
        requires
            old(self).wf(),
            (target as int) < old(self).processes@.len(),
        ensures
            final(self).wf(),
            old(self).same_core(*final(self)),
            old(self).same_outbound(*final(self)),
            final(self).processes@.len() == old(self).processes@.len(),
            forall|p: int|
                0 <= p < old(self).processes@.len() && p != old(self).current && p != target
                    ==> final(self).processes@[p] == old(self).processes@[p],
            same_except_links(old(self).cur(), final(self).cur()),
            same_except_links(
                old(self).processes@[target as int],
                final(self).processes@[target as int],
            ),
            target == old(self).current ==> final(self).cur().links@ == removed_link(
                old(self).cur().links@,
                target,
            ),
            target != old(self).current ==> {
                &&& final(self).cur().links@ == removed_link(old(self).cur().links@, target)
                &&& final(self).processes@[target as int].links@ == removed_link(
                    old(self).processes@[target as int].links@,
                    old(self).current,
                )
            },
    {
        let ci = to_index(self.current, self.processes.len());
        let ti = to_index(target, self.processes.len());
        let ghost n = old(self).processes@.len() as int;
        let ghost ncfg = old(self).configs@.len() as int;
        proof {
            assert(old(self).processes@[ci as int].wf(n, ncfg));
            assert(old(self).processes@[ti as int].wf(n, ncfg));
        }
        let mut rec = self.processes.remove(ci);
        remove_link_in(&mut rec.links, target);
        self.processes.insert(ci, rec);
        proof {
            lemma_remove_insert(old(self).processes@, ci as int, self.processes@[ci as int]);
        }
        if ti != ci {
            let ghost mid = self.processes@;
            let mut rec2 = self.processes.remove(ti);
            remove_link_in(&mut rec2.links, self.current);
            self.processes.insert(ti, rec2);
            proof {
                lemma_remove_insert(mid, ti as int, self.processes@[ti as int]);
            }
        }
        proof {
            assert forall|p: int| 0 <= p < n implies (#[trigger] self.processes@[p]).wf(
                n,
                ncfg,
            ) by {
                assert(old(self).processes@[p].wf(n, ncfg));
            }
        }
    }

    /// Set whether a link death aborts the current process (`true`, the
    /// default) or is queued as an observable notification (`false`).
    pub fn die_when_link_dies(&mut self, die: bool)
        requires
            old(self).wf(),
            die ==> forall|k: int|
                0 <= k < old(self).cur().queue@.len() ==> (#[trigger] old(self).cur().queue@[k]) is Data,
        ensures
            final(self).wf(),
            old(self).same_core(*final(self)),
            old(self).same_outbound(*final(self)),
            final(self).processes@.len() == old(self).processes@.len(),
            forall|p: int|
                0 <= p < old(self).processes@.len() && p != old(self).current ==> final(self).processes@[p] == old(self).processes@[p],
            final(self).cur() == (ProcessRecord { die_on_link: die, ..old(self).cur() }),
    {
        let ci = to_index(self.current, self.processes.len());
        let ghost n = old(self).processes@.len() as int;
        let ghost ncfg = old(self).configs@.len() as int;
        let mut rec = self.processes.remove(ci);
        rec.die_on_link = die;
        self.processes.insert(ci, rec);
        proof {
            lemma_remove_insert(old(self).processes@, ci as int, self.processes@[ci as int]);
            assert forall|p: int| 0 <= p < n implies (#[trigger] self.processes@[p]).wf(
                n,
                ncfg,
            ) by {
                assert(old(self).processes@[p].wf(n, ncfg));
                if p == ci as int {
                    assert(self.processes@[p].queue == old(self).cur().queue);
                    assert(self.processes@[p].links == old(self).cur().links);
                }
            }
        }
    }

    /// Let process `pi` observe a link death reported under `tag`: an alive
    /// process that surfaces link deaths has a notification queued, an alive
    /// process that does not is terminated, a dead process is left alone.
    fn deliver_death(&mut self, pi: usize, tag: i64)
        requires
            (pi as int) < old(self).processes@.len(),
        ensures
            old(self).same_core(*final(self)),
            old(self).same_outbound(*final(self)),
            final(self).processes@.len() == old(self).processes@.len(),
            forall|p: int|
                0 <= p < old(self).processes@.len() && p != pi ==> final(self).processes@[p]
                    == old(self).processes@[p],
            old(self).processes@[pi as int].alive ==> {
                if old(self).processes@[pi as int].die_on_link {
                    final(self).processes@[pi as int] == killed(old(self).processes@[pi as int])
                } else {
                    notified(
                        old(self).processes@[pi as int],
                        final(self).processes@[pi as int],
                        tag,
                    )
                }
            },
            !old(self).processes@[pi as int].alive ==> final(self).processes@[pi as int] == old(self).processes@[pi as int],
    {
        if self.processes[pi].alive {
            let mut rec = self.processes.remove(pi);
            if rec.die_on_link {
                rec.alive = false;
            } else {
                rec.queue.push(Envelope::LinkDied { tag });
            }
            self.processes.insert(pi, rec);
            proof {
                lemma_remove_insert(old(self).processes@, pi as int, self.processes@[pi as int]);
            }
        }
    }

    /// Request forced termination of process `target`. A dead or unknown
    /// target is left alone. Otherwise the target stops being alive, and each
    /// alive linked peer observes the death: a peer that surfaces link deaths
    /// gets a `LinkDied` notification queued under the link's tag, a peer
    /// that does not is terminated with it.
    pub fn process_kill(&mut self, target: u64)
        requires
            old(self).wf(),
        ensures
            final(self).wf(),
            old(self).same_core(*final(self)),
            old(self).same_outbound(*final(self)),
            final(self).processes@.len() == old(self).processes@.len(),
            !((target as int) < old(self).processes@.len()
                && old(self).processes@[target as int].alive) ==> final(self).processes == old(self).processes,
            ((target as int) < old(self).processes@.len()
                && old(self).processes@[target as int].alive) ==> {
                &&& final(self).processes@[target as int] == killed(
                    old(self).processes@[target as int],
                )
                &&& forall|p: int|
                    0 <= p < old(self).processes@.len() && p != target ==> kill_effect(
                        old(self).processes@,
                        final(self).processes@,
                        target as int,
                        p,
                        old(self).processes@[target as int].links@.len() as int,
                    )
            },
    {
        if !(target < self.processes.len() as u64) {
            return ;
        }
        let ti = to_index(target, self.processes.len());
        if !self.processes[ti].alive {
            return ;
        }
        let mut trec = self.processes.remove(ti);
        trec.alive = false;
        self.processes.insert(ti, trec);
        proof {
            lemma_remove_insert(old(self).processes@, ti as int, self.processes@[ti as int]);
        }
        let nlinks = self.processes[ti].links.len();
        let mut k: usize = 0;
        while k < nlinks
            invariant
                old(self).wf(),
                (ti as int) < old(self).processes@.len(),
                ti as int == target as int,
                old(self).processes@[ti as int].alive,
                nlinks == old(self).processes@[ti as int].links@.len(),
                k <= nlinks,
                old(self).same_core(*self),
                old(self).same_outbound(*self),
                self.processes@.len() == old(self).processes@.len(),
                self.processes@[ti as int] == killed(old(self).processes@[ti as int]),
                forall|p: int|
                    0 <= p < old(self).processes@.len() && p != ti ==> kill_effect(
                        old(self).processes@,
                        self.processes@,
                        ti as int,
                        p,
                        k as int,
                    ),
            decreases nlinks - k,
        {
            let lk = self.processes[ti].links[k];
            proof {
                assert(old(self).processes@[ti as int].wf(
                    old(self).processes@.len() as int,
                    old(self).configs@.len() as int,
                ));
                lemma_link_tag_unique(old(self).processes@[ti as int], k as int);
            }
            let peer = lk.peer;
            let pi = to_index(peer, self.processes.len());
            let ghost mid = self.processes@;
            if pi != ti {
                self.deliver_death(pi, lk.tag);
            }
            k = k + 1;
            proof {
                assert(self.processes@[ti as int] == killed(old(self).processes@[ti as int]));
                assert forall|p: int|
                    0 <= p < old(self).processes@.len() && p != ti implies kill_effect(
                    old(self).processes@,
                    self.processes@,
                    ti as int,
                    p,
                    k as int,
                ) by {
                    let links = old(self).processes@[ti as int].links@;
                    assert(old(self).processes@[ti as int].wf(
                        old(self).processes@.len() as int,
                        old(self).configs@.len() as int,
                    ));
                    assert(kill_effect(old(self).processes@, mid, ti as int, p, k as int - 1));
                    if p == peer as int {
                        assert(links[k as int - 1].peer as int == p);
                        assert(link_before(links, k as int, p));
                        assert forall|j: int| 0 <= j < k as int - 1 implies (#[trigger] links[j]).peer as int != p by {
                            assert(links[j].peer != links[k as int - 1].peer);
                        }
                        assert(!link_before(links, k as int - 1, p));
                        assert(mid[p] == old(self).processes@[p]);
                        assert(old(self).processes@[ti as int].link_tag(p) == lk.tag);
                    } else {
                        assert(link_before(links, k as int, p) == link_before(
                            links,
                            k as int - 1,
                            p,
                        ));
                        if pi != ti {
                            assert(self.processes@[p] == mid[p]);
                        }
                    }
                }
            }
        }
        proof {
            let n = old(self).processes@.len() as int;
            let ncfg = old(self).configs@.len() as int;
            assert forall|p: int| 0 <= p < n implies (#[trigger] self.processes@[p]).wf(
                n,
                ncfg,
            ) by {
                assert(old(self).processes@[p].wf(n, ncfg));
                if p != ti as int {
                    assert(kill_effect(
                        old(self).processes@,
                        self.processes@,
                        ti as int,
                        p,
                        nlinks as int,
                    ));
                }
            }
        }
    }
}

} // verus!
