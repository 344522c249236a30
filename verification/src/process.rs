//! The send-side handle to a spawned process and the spawn protocol.
use core::marker::PhantomData;

use vstd::prelude::*;

use crate::config::ProcessConfig;
use crate::host::HostState;
use crate::host::delivered;
use crate::host::kill_effect;
use crate::host::registry_entry_answers;
use crate::host::killed;
use crate::host::removed_link;
use crate::host::same_except_links;
use crate::host::set_link;
use crate::serializer::Bincode;
use crate::serializer::Serializer;
use crate::mailbox::Mailbox;
use crate::tag::Tag;
use crate::tag::next_tag_value;

verus! {

/// Compile-time marker for spawn targets that claim "no link": a plain,
/// unlinked spawn may only create such targets, keeping linked and unlinked
/// spawns apart in the types.
pub trait NoLink {

}

/// An opaque, copyable send-side handle to a spawned process: a host-assigned
/// identifier plus the message type `M` it accepts and the serializer `S`
/// used to encode messages for it. The underlying process is owned by the
/// host; many handles may alias one identifier.
#[derive(Hash)]
pub struct Process<M, S = Bincode> {
    id: u64,
    serializer_type: PhantomData<(M, S)>,
}

impl<M, S> Process<M, S> {
    /// The host-assigned identifier this handle names. Handle equality is
    /// defined over this identifier alone.
    pub closed spec fn spec_id(self) -> u64 {
        self.id
    }

    pub(crate) fn new(process_id: u64) -> (p: Self)
        ensures
            p.spec_id() == process_id,
    {
        Process { id: process_id, serializer_type: PhantomData }
    }

    /// A handle to the process currently executing.
    pub fn this(host: &HostState) -> (p: Self)
        ensures
            p.spec_id() == host.current,
    {
        Self::new(host.process_id())
    }

    /// The identifier of the process this handle names.
    pub fn id(&self) -> (r: u64)
        ensures
            r == self.spec_id(),
    {
        self.id
    }

    /// Establish a bidirectional failure link between the current process and
    /// the one this handle names, reported under the "no tag" value.
    pub fn link(&self, host: &mut HostState)
        requires
            old(host).wf(),
            (self.spec_id() as int) < old(host).processes@.len(),
            old(host).cur().links@.len() < usize::MAX,
            old(host).processes@[self.spec_id() as int].links@.len() < usize::MAX,
        ensures
            final(host).wf(),
            old(host).same_core(*final(host)),
            old(host).same_outbound(*final(host)),
            final(host).processes@.len() == old(host).processes@.len(),
            forall|p: int|
                0 <= p < old(host).processes@.len() && p != old(host).current && p != self.spec_id()
                    ==> final(host).processes@[p] == old(host).processes@[p],
            same_except_links(old(host).cur(), final(host).cur()),
            same_except_links(
                old(host).processes@[self.spec_id() as int],
                final(host).processes@[self.spec_id() as int],
            ),
            final(host).cur().links@ == set_link(old(host).cur().links@, self.spec_id(), 0),
            self.spec_id() != old(host).current ==> final(host).processes@[self.spec_id() as int].links@ == set_link(
                old(host).processes@[self.spec_id() as int].links@,
                old(host).current,
                0,
            ),
    {
        host.process_link(0, self.id);
    }

    /// Remove the failure link, if any, between the current process and the
    /// one this handle names.
    pub fn unlink(&self, host: &mut HostState)
        requires
            old(host).wf(),
            (self.spec_id() as int) < old(host).processes@.len(),
        ensures
            final(host).wf(),
            old(host).same_core(*final(host)),
            old(host).same_outbound(*final(host)),
            final(host).processes@.len() == old(host).processes@.len(),
            forall|p: int|
                0 <= p < old(host).processes@.len() && p != old(host).current && p != self.spec_id()
                    ==> final(host).processes@[p] == old(host).processes@[p],
            same_except_links(old(host).cur(), final(host).cur()),
            same_except_links(
                old(host).processes@[self.spec_id() as int],
                final(host).processes@[self.spec_id() as int],
            ),
            final(host).cur().links@ == removed_link(old(host).cur().links@, self.spec_id()),
            self.spec_id() != old(host).current ==> final(host).processes@[self.spec_id() as int].links@ == removed_link(
                old(host).processes@[self.spec_id() as int].links@,
                old(host).current,
            ),
    {
        host.process_unlink(self.id);
    }

    /// Request host-side forced termination of the process this handle names:
    /// best effort, no confirmation. An alive target stops being alive and
    /// each alive linked peer observes the death — as a queued `LinkDied`
    /// notification if it catches link failures, by terminating with it
    /// otherwise.
    pub fn kill(&self, host: &mut HostState)
        requires
            old(host).wf(),
        ensures
            final(host).wf(),
            old(host).same_core(*final(host)),
            old(host).same_outbound(*final(host)),
            final(host).processes@.len() == old(host).processes@.len(),
            !((self.spec_id() as int) < old(host).processes@.len()
                && old(host).processes@[self.spec_id() as int].alive) ==> final(host).processes
                == old(host).processes,
            ((self.spec_id() as int) < old(host).processes@.len()
                && old(host).processes@[self.spec_id() as int].alive) ==> {
                &&& final(host).processes@[self.spec_id() as int] == killed(
                    old(host).processes@[self.spec_id() as int],
                )
                &&& forall|p: int|
                    0 <= p < old(host).processes@.len() && p != self.spec_id() ==> kill_effect(
                        old(host).processes@,
                        final(host).processes@,
                        self.spec_id() as int,
                        p,
                        old(host).processes@[self.spec_id() as int].links@.len() as int,
                    )
            },
    {
        host.process_kill(self.id);
    }

}

impl<M: DeepView, S> Process<M, S> where S: Serializer<M> {
    /// Publish this handle's identifier under `name` in the registry. The
    /// schema/version discriminator of the handle's message type and encoding
    /// is carried alongside the entry, so a lookup made under the same alias
    /// but for a different message type or encoding never answers with this
    /// entry — no type confusion on lookup.
    pub fn register(&self, host: &mut HostState, name: &str)
        requires
            old(host).wf(),
        ensures
            final(host).wf(),
            final(host).processes == old(host).processes,
            final(host).configs == old(host).configs,
            final(host).current == old(host).current,
            final(host).config_allowed == old(host).config_allowed,
            final(host).spawn_error == old(host).spawn_error,
            old(host).same_outbound(*final(host)),
            final(host).registry@.len() == old(host).registry@.len() + 1,
            final(host).registry@ == old(host).registry@.push(final(host).registry@.last()),
            final(host).registry@.last().name@ == name@,
            final(host).registry@.last().schema@ == S::schema_spec(),
            final(host).registry@.last().id == self.spec_id(),
            registry_entry_answers(final(host).registry@.last(), name@, S::schema_spec()),
            forall|other: Seq<char>|
                other != S::schema_spec() ==> !registry_entry_answers(
                    #[trigger] final(host).registry@.last(),
                    name@,
                    other,
                ),
    {
        let owned = name.to_owned();
        let schema = S::schema();
        host.registry_put(owned, schema, self.id);
    }

    /// Serialize `message` with `S` into a fresh outbound buffer tagged "no
    /// tag" and hand it to the host for transport: best effort, in order per
    /// sender/receiver pair, no acknowledgment. A message to a dead or
    /// unknown process is dropped.
    pub fn send(&self, host: &mut HostState, message: M)
        requires
            old(host).wf(),
            S::enc_ok(message.deep_view()),
        ensures
            final(host).wf(),
            old(host).same_core(*final(host)),
            final(host).processes@.len() == old(host).processes@.len(),
            ((self.spec_id() as int) < old(host).processes@.len()
                && old(host).processes@[self.spec_id() as int].alive) ==> {
                &&& delivered(
                    old(host).processes@[self.spec_id() as int],
                    final(host).processes@[self.spec_id() as int],
                    0,
                    S::enc_spec(message.deep_view()),
                )
                &&& forall|p: int|
                    0 <= p < old(host).processes@.len() && p != self.spec_id() ==> final(host).processes@[p] == old(host).processes@[p]
            },
            !((self.spec_id() as int) < old(host).processes@.len()
                && old(host).processes@[self.spec_id() as int].alive) ==> final(host).processes
                == old(host).processes,
    {
        let none_tag = Tag::none();
        host.message_create_data(none_tag.id());
        let r = S::encode(&message, &mut host.outbound);
        match r {
            Ok(()) => {},
            Err(_) => {
                return vstd::pervasive::unreached();
            },
        }
        proof {
            assert(host.outbound.data@ =~= S::enc_spec(message.deep_view()));
        }
        host.message_send(self.id);
    }
}

/// Whether `h` is the state in which a child spawned from `pre` begins
/// execution: the child is the newest process, freshly created with
/// configuration `config_id` (and, for a linked spawn, one link back to the
/// spawning process under `link_tag`, freshly drawn from the spawner's
/// counter), and the child is the process currently executing.
pub open spec fn spawn_start(
    pre: HostState,
    h: HostState,
    config_id: int,
    link_tag: Option<int>,
) -> bool {
    &&& h.wf()
    &&& h.processes@.len() == pre.processes@.len() + 1
    &&& h.current as int == pre.processes@.len()
    &&& h.configs == pre.configs
    &&& h.registry == pre.registry
    &&& h.config_allowed == pre.config_allowed
    &&& h.spawn_error == pre.spawn_error
    &&& pre.same_outbound(h)
    &&& h.cur().alive
    &&& h.cur().queue@ == Seq::<crate::host::Envelope>::empty()
    &&& h.cur().die_on_link
    &&& h.cur().config_id as int == config_id
    &&& h.cur().tags.spec_value() == 128
    &&& (link_tag is None ==> h.cur().links@.len() == 0 && (forall|p: int|
        0 <= p < pre.processes@.len() ==> h.processes@[p] == pre.processes@[p]))
    &&& (link_tag is Some ==> {
        let par = pre.current as int;
        let oldp = pre.processes@[par];
        let newp = h.processes@[par];
        &&& h.cur().links@.len() == 1
        &&& h.cur().links@[0].peer == pre.current
        &&& h.cur().links@[0].tag as int == link_tag.unwrap()
        &&& (forall|p: int|
            0 <= p < pre.processes@.len() && p != par ==> h.processes@[p] == pre.processes@[p])
        &&& newp.alive == oldp.alive
        &&& newp.queue == oldp.queue
        &&& newp.die_on_link == oldp.die_on_link
        &&& newp.config_id == oldp.config_id
        &&& newp.tags.spec_value() == oldp.tags.spec_value() + 1
        &&& newp.links@ == oldp.links@.push(newp.links@.last())
        &&& newp.links@.last().peer as int == pre.processes@.len()
        &&& newp.links@.last().tag as int == link_tag.unwrap()
    })
}

impl<M: DeepView, S> Process<M, S> where S: Serializer<M> {
    /// Spawn an unlinked process with inherited configuration: create the
    /// child, move `capture` into it, and run `entry` with the capture, a
    /// fresh receive capability, and the host — with the child as the current
    /// process. When `entry` returns, control is back with the spawning
    /// process. The result type must claim "no link".
    pub fn spawn<C, F: FnOnce(C, Mailbox<M, S, ()>, HostState) -> HostState>(
        host: &mut HostState,
        capture: C,
        entry: F,
    ) -> (p: Process<M, S>) where Mailbox<M, S, ()>: NoLink
        requires
            old(host).wf(),
            old(host).spawn_error is None,
            forall|mb: Mailbox<M, S, ()>, h: HostState|
                spawn_start(*old(host), h, -1, Option::<int>::None) ==> call_requires(
                    entry,
                    (capture, mb, h),
                ),
        ensures
            p.spec_id() as int == old(host).processes@.len(),
            exists|mb: Mailbox<M, S, ()>, h: HostState, h1: HostState|
                {
                    &&& spawn_start(*old(host), h, -1, Option::<int>::None)
                    &&& #[trigger] call_ensures(entry, (capture, mb, h), h1)
                    &&& *final(host) == (HostState { current: old(host).current, ..h1 })
                },
    {
        let n = host.processes.len();
        let r = host.process_spawn(None, -1);
        let id: u64 = r.unwrap();
        proof {
            assert(id as int == n as int);
        }
        let saved = host.process_id();
        host.set_current(id);
        let mut h = HostState::new();
        core::mem::swap(host, &mut h);
        let mb: Mailbox<M, S, ()> = Mailbox::new();
        proof {
            assert(spawn_start(*old(host), h, -1, Option::<int>::None));
        }
        let h1 = entry(capture, mb, h);
        let mut h1m = h1;
        h1m.current = saved;
        core::mem::swap(host, &mut h1m);
        Process::new(id)
    }

    /// Spawn an unlinked process with an explicit configuration; the host
    /// records the child under that configuration's handle. Otherwise as
    /// [`Process::spawn`].
    pub fn spawn_config<C, F: FnOnce(C, Mailbox<M, S, ()>, HostState) -> HostState>(
        host: &mut HostState,
        config: &ProcessConfig,
        capture: C,
        entry: F,
    ) -> (p: Process<M, S>) where Mailbox<M, S, ()>: NoLink
        requires
            old(host).wf(),
            old(host).spawn_error is None,
            config.wf(),
            config.is_inherit() || (0 <= config.spec_id() < old(host).configs@.len()),
            forall|mb: Mailbox<M, S, ()>, h: HostState|
                spawn_start(*old(host), h, config.spec_id(), Option::<int>::None)
                    ==> call_requires(entry, (capture, mb, h)),
        ensures
            p.spec_id() as int == old(host).processes@.len(),
            exists|mb: Mailbox<M, S, ()>, h: HostState, h1: HostState|
                {
                    &&& spawn_start(*old(host), h, config.spec_id(), Option::<int>::None)
                    &&& #[trigger] call_ensures(entry, (capture, mb, h), h1)
                    &&& *final(host) == (HostState { current: old(host).current, ..h1 })
                },
    {
        let n = host.processes.len();
        let cfg = config.id();
        let r = host.process_spawn(None, cfg);
        let id: u64 = r.unwrap();
        proof {
            assert(id as int == n as int);
        }
        let saved = host.process_id();
        host.set_current(id);
        let mut h = HostState::new();
        core::mem::swap(host, &mut h);
        let mb: Mailbox<M, S, ()> = Mailbox::new();
        proof {
            assert(spawn_start(*old(host), h, config.spec_id(), Option::<int>::None));
        }
        let h1 = entry(capture, mb, h);
        let mut h1m = h1;
        h1m.current = saved;
        core::mem::swap(host, &mut h1m);
        Process::new(id)
    }

    /// Spawn a process bidirectionally linked to the spawning process under a
    /// freshly allocated tag: if the child terminates abnormally, the host
    /// delivers a link-death notification carrying that tag to the spawner's
    /// mailbox — and symmetrically if the spawner dies first. Otherwise as
    /// [`Process::spawn`].
    pub fn spawn_link<C, F: FnOnce(C, Mailbox<M, S, ()>, HostState) -> HostState>(
        host: &mut HostState,
        capture: C,
        entry: F,
    ) -> (p: Process<M, S>)
        requires
            old(host).wf(),
            old(host).spawn_error is None,
            old(host).cur().tags.spec_value() < i64::MAX,
            forall|mb: Mailbox<M, S, ()>, h: HostState|
                spawn_start(
                    *old(host),
                    h,
                    -1,
                    Some(next_tag_value(old(host).cur().tags.spec_value())),
                ) ==> call_requires(entry, (capture, mb, h)),
        ensures
            p.spec_id() as int == old(host).processes@.len(),
            exists|mb: Mailbox<M, S, ()>, h: HostState, h1: HostState|
                {
                    &&& spawn_start(
                        *old(host),
                        h,
                        -1,
                        Some(next_tag_value(old(host).cur().tags.spec_value())),
                    )
                    &&& #[trigger] call_ensures(entry, (capture, mb, h), h1)
                    &&& *final(host) == (HostState { current: old(host).current, ..h1 })
                },
    {
        let n = host.processes.len();
        let t = host.alloc_tag();
        let r = host.process_spawn(Some(t), -1);
        let id: u64 = r.unwrap();
        proof {
            assert(id as int == n as int);
        }
        let saved = host.process_id();
        host.set_current(id);
        let mut h = HostState::new();
        core::mem::swap(host, &mut h);
        let mb: Mailbox<M, S, ()> = Mailbox::new();
        proof {
            assert(spawn_start(
                *old(host),
                h,
                -1,
                Some(next_tag_value(old(host).cur().tags.spec_value())),
            ));
        }
        let h1 = entry(capture, mb, h);
        let mut h1m = h1;
        h1m.current = saved;
        core::mem::swap(host, &mut h1m);
        Process::new(id)
    }
}

impl<M, S> Clone for Process<M, S> {
    /// Handles are plain values: a clone names the same process.
    fn clone(&self) -> (r: Self)
        ensures
            r.spec_id() == self.spec_id(),
    {
        Process { id: self.id, serializer_type: PhantomData }
    }
}

impl<M, S> Copy for Process<M, S> {

}

impl<M, S> PartialEq for Process<M, S> {
    /// Equality is defined purely over the identifier, not the type
    /// parameters.
    fn eq(&self, other: &Self) -> (r: bool) {
        self.id == other.id
    }
}

impl<M, S> vstd::std_specs::cmp::PartialEqSpecImpl for Process<M, S> {
    open spec fn obeys_eq_spec() -> bool {
        true
    }

    open spec fn eq_spec(&self, other: &Self) -> bool {
        self.spec_id() == other.spec_id()
    }
}

impl<M, S> Eq for Process<M, S> {

}

} // verus!
