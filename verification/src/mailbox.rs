//! The receive-side capability of the current process: selective,
//! tag-filtered, optionally time-bounded receipt of the next matching
//! message, with link death reported as a distinguished result.
use core::marker::PhantomData;

use vstd::prelude::*;

use crate::host::Envelope;
use crate::host::HostState;
use crate::host::has_match;
use crate::process::Process;
use crate::serializer::DecodeError;
use crate::serializer::Bincode;
use crate::serializer::MessageRw;
use crate::serializer::Serializer;
use crate::tag::Tag;

verus! {

/// Marker: link failures are surfaced as a result variant instead of
/// aborting the process.
pub struct Catching;

/// A zero-sized capability to invoke the host's selective receive on the
/// current process's queue. `M` is the message type, `S` the serializer that
/// reconstructs it, and `L` the link-failure-visibility marker (`()` or
/// [`Catching`]). Any two tokens with the same parameters are
/// interchangeable: they all designate "the current process's queue".
pub struct Mailbox<M: DeepView, S = Bincode, L = ()> where S: Serializer<M> {
    phantom: PhantomData<(M, S, L)>,
}

/// The raw tag filter a list of tags stands for.
pub open spec fn filter_of(tags: Seq<Tag>) -> Seq<i64> {
    Seq::new(tags.len(), |i: int| tags[i].spec_raw())
}

/// Whether position `i` is the one a receive under `filter` selects: the
/// envelope there matches, and no earlier envelope does.
pub open spec fn selects(q: Seq<Envelope>, filter: Seq<i64>, i: int) -> bool {
    &&& 0 <= i < q.len()
    &&& q[i].matches(filter)
    &&& forall|j: int| 0 <= j < i ==> !(#[trigger] q[j]).matches(filter)
}

/// A receive selects at most one position.
pub proof fn lemma_selects_unique(q: Seq<Envelope>, filter: Seq<i64>, i1: int, i2: int)
    requires
        selects(q, filter, i1),
        selects(q, filter, i2),
    ensures
        i1 == i2,
{
    if i1 < i2 {
        assert(!q[i1].matches(filter));
    }
    if i2 < i1 {
        assert(!q[i2].matches(filter));
    }
}

/// Whether the receive that `filter` describes is owed a well-formed message:
/// the selected envelope is an ordinary message whose bytes are an encoding
/// the serializer accepts.
pub open spec fn selects_wf_data<M: DeepView, S: Serializer<M>>(
    q: Seq<Envelope>,
    filter: Seq<i64>,
) -> bool {
    exists|i: int|
        #[trigger] selects(q, filter, i) && q[i] is Data && (exists|mv: M::V|
            q[i].data_of() == S::enc_spec(mv) && S::enc_ok(mv))
}

/// Convert a tag list to the raw filter handed to the host.
fn tags_to_filter(tags: &[Tag]) -> (f: Vec<i64>)
    ensures
        f@ == filter_of(tags@),
{
    let mut f: Vec<i64> = Vec::new();
    let mut i: usize = 0;
    while i < tags.len()
        invariant
            i <= tags@.len(),
            f@.len() == i,
            forall|j: int| 0 <= j < i ==> f@[j] == tags@[j].spec_raw(),
        decreases tags@.len() - i,
    {
        f.push(tags[i].id());
        i = i + 1;
    }
    proof {
        assert(f@ =~= filter_of(tags@));
    }
    f
}

/// The outcome of one receive call: exactly one variant per call.
#[derive(Debug)]
pub enum MailboxResult<T> {
    /// A message matching the filter arrived and decoded.
    Message(T),
    /// A message matching the filter arrived, but its bytes could not be
    /// decoded as `T`.
    DeserializationFailed(DecodeError),
    /// The bounded wait elapsed with nothing matching; only reachable when a
    /// finite duration was requested.
    TimedOut,
    /// A linked process died; only surfaced on catching mailboxes.
    LinkDied(Tag),
}

impl<T> MailboxResult<T> {
    /// The received message, where there is one.
    pub open spec fn msg(self) -> T {
        match self {
            MailboxResult::Message(m) => m,
            _ => vstd::pervasive::arbitrary(),
        }
    }

    /// The tag of the link whose death was reported, where one was.
    pub open spec fn died_tag(self) -> Tag {
        match self {
            MailboxResult::LinkDied(t) => t,
            _ => vstd::pervasive::arbitrary(),
        }
    }

    /// The received message; callers must have ruled the other variants out.
    pub fn unwrap(self) -> (m: T)
        requires
            self is Message,
        ensures
            m == self.msg(),
    {
        match self {
            MailboxResult::Message(m) => m,
            _ => vstd::pervasive::unreached(),
        }
    }

    pub fn is_message(&self) -> (b: bool)
        ensures
            b == (self is Message),
    {
        matches!(self, MailboxResult::Message(_))
    }

    pub fn is_link_died(&self) -> (b: bool)
        ensures
            b == (self is LinkDied),
    {
        matches!(self, MailboxResult::LinkDied(_))
    }

    pub fn is_timed_out(&self) -> (b: bool)
        ensures
            b == (self is TimedOut),
    {
        matches!(self, MailboxResult::TimedOut)
    }
}

impl<M: DeepView, S, L> Mailbox<M, S, L> where S: Serializer<M> {
    /// A receive capability for the current process. Tokens are
    /// interchangeable, so making one is harmless; it is only meaningful
    /// inside the process whose queue it is used against.
    pub fn new() -> Mailbox<M, S, L> {
        Mailbox { phantom: PhantomData }
    }

    /// A send-side handle to the current process.
    pub fn this(&self, host: &HostState) -> (p: Process<M, S>)
        ensures
            p.spec_id() == host.current,
    {
        Process::new(host.process_id())
    }

    /// The core selective receive: block until an envelope matching `tags`
    /// arrives (link deaths match any filter), or until `timeout_ms`
    /// milliseconds have passed. The selected envelope is removed; everything
    /// else stays queued in arrival order. `u64::MAX` means "no timeout", so
    /// it demands that a matching envelope is already queued — nothing else
    /// could ever unblock the wait in this model.
    fn receive_(&self, host: &mut HostState, tags: &[Tag], timeout_ms: u64) -> (r: MailboxResult<
        M,
    >)
        requires
            old(host).wf(),
            timeout_ms < u64::MAX || has_match(old(host).cur().queue@, filter_of(tags@)),
        ensures
            final(host).wf(),
            old(host).same_core(*final(host)),
            old(host).same_outbound(*final(host)),
            final(host).processes@.len() == old(host).processes@.len(),
            forall|p: int|
                0 <= p < old(host).processes@.len() && p != old(host).current ==> final(host).processes@[p] == old(host).processes@[p],
            r is TimedOut <==> !has_match(old(host).cur().queue@, filter_of(tags@)),
            r is TimedOut ==> final(host).processes == old(host).processes,
            !(r is TimedOut) ==> {
                let oldq = old(host).cur().queue@;
                let filter = filter_of(tags@);
                &&& final(host).cur().alive == old(host).cur().alive
                &&& final(host).cur().links == old(host).cur().links
                &&& final(host).cur().die_on_link == old(host).cur().die_on_link
                &&& final(host).cur().config_id == old(host).cur().config_id
                &&& final(host).cur().tags == old(host).cur().tags
                &&& exists|i: int|
                    {
                        &&& #[trigger] selects(oldq, filter, i)
                        &&& final(host).cur().queue@ == oldq.remove(i)
                        &&& (oldq[i] is LinkDied ==> r is LinkDied && r.died_tag().spec_raw()
                            == oldq[i].tag_of())
                        &&& (oldq[i] is Data ==> (r is Message || r is DeserializationFailed)
                            && (forall|mv: M::V|
                            (oldq[i].data_of() == S::enc_spec(mv) && S::enc_ok(mv)) ==> r is Message
                                && r.msg().deep_view() == mv))
                    }
            },
    {
        let filter = tags_to_filter(tags);
        match host.message_receive(&filter, timeout_ms) {
            None => MailboxResult::TimedOut,
            Some(env) => {
                proof {
                    let oldq = old(host).cur().queue@;
                    let i = choose|i: int|
                        {
                            &&& 0 <= i < oldq.len()
                            &&& #[trigger] oldq[i] == env
                            &&& oldq[i].matches(filter@)
                            &&& (forall|j: int| 0 <= j < i ==> !(#[trigger] oldq[j]).matches(
                                filter@,
                            ))
                            &&& host.cur().queue@ == oldq.remove(i)
                        };
                    assert(selects(oldq, filter@, i));
                }
                match env {
                    Envelope::LinkDied { tag } => MailboxResult::LinkDied(Tag::from(tag)),
                    Envelope::Data { tag: _, data } => {
                        let mut rw = MessageRw { data, pos: 0 };
                        proof {
                            assert(rw.remaining() =~= rw.data@);
                        }
                        match S::decode(&mut rw) {
                            Ok(m) => MailboxResult::Message(m),
                            Err(e) => MailboxResult::DeserializationFailed(e),
                        }
                    },
                }
            },
        }
    }

    /// Bounded wait for the next message of any tag; yields `TimedOut` rather
    /// than blocking forever.
    pub fn try_receive(&self, host: &mut HostState, timeout_ms: u64) -> (r: MailboxResult<M>)
        requires
            old(host).wf(),
            timeout_ms < u64::MAX || has_match(old(host).cur().queue@, Seq::<i64>::empty()),
        ensures
            final(host).wf(),
            old(host).same_core(*final(host)),
            old(host).same_outbound(*final(host)),
            final(host).processes@.len() == old(host).processes@.len(),
            forall|p: int|
                0 <= p < old(host).processes@.len() && p != old(host).current ==> final(host).processes@[p] == old(host).processes@[p],
            r is TimedOut <==> !has_match(old(host).cur().queue@, Seq::<i64>::empty()),
            r is TimedOut ==> final(host).processes == old(host).processes,
            !(r is TimedOut) ==> {
                let oldq = old(host).cur().queue@;
                &&& final(host).cur().alive == old(host).cur().alive
                &&& final(host).cur().links == old(host).cur().links
                &&& final(host).cur().die_on_link == old(host).cur().die_on_link
                &&& final(host).cur().config_id == old(host).cur().config_id
                &&& final(host).cur().tags == old(host).cur().tags
                &&& exists|i: int|
                    {
                        &&& #[trigger] selects(oldq, Seq::<i64>::empty(), i)
                        &&& final(host).cur().queue@ == oldq.remove(i)
                        &&& (oldq[i] is LinkDied ==> r is LinkDied && r.died_tag().spec_raw()
                            == oldq[i].tag_of())
                        &&& (oldq[i] is Data ==> (r is Message || r is DeserializationFailed)
                            && (forall|mv: M::V|
                            (oldq[i].data_of() == S::enc_spec(mv) && S::enc_ok(mv)) ==> r is Message
                                && r.msg().deep_view() == mv))
                    }
            },
    {
        let no_tags: Vec<Tag> = Vec::new();
        proof {
            assert(filter_of(no_tags@) =~= Seq::<i64>::empty());
        }
        self.receive_(host, no_tags.as_slice(), timeout_ms)
    }

    /// Bounded wait for the next message of any tag.
    pub fn receive_timeout(&self, host: &mut HostState, timeout_ms: u64) -> (r: MailboxResult<M>)
        requires
            old(host).wf(),
            timeout_ms < u64::MAX || has_match(old(host).cur().queue@, Seq::<i64>::empty()),
        ensures
            final(host).wf(),
            old(host).same_core(*final(host)),
            old(host).same_outbound(*final(host)),
            final(host).processes@.len() == old(host).processes@.len(),
            forall|p: int|
                0 <= p < old(host).processes@.len() && p != old(host).current ==> final(host).processes@[p] == old(host).processes@[p],
            r is TimedOut <==> !has_match(old(host).cur().queue@, Seq::<i64>::empty()),
            r is TimedOut ==> final(host).processes == old(host).processes,
            !(r is TimedOut) ==> {
                let oldq = old(host).cur().queue@;
                &&& final(host).cur().alive == old(host).cur().alive
                &&& final(host).cur().links == old(host).cur().links
                &&& final(host).cur().die_on_link == old(host).cur().die_on_link
                &&& final(host).cur().config_id == old(host).cur().config_id
                &&& final(host).cur().tags == old(host).cur().tags
                &&& exists|i: int|
                    {
                        &&& #[trigger] selects(oldq, Seq::<i64>::empty(), i)
                        &&& final(host).cur().queue@ == oldq.remove(i)
                        &&& (oldq[i] is LinkDied ==> r is LinkDied && r.died_tag().spec_raw()
                            == oldq[i].tag_of())
                        &&& (oldq[i] is Data ==> (r is Message || r is DeserializationFailed)
                            && (forall|mv: M::V|
                            (oldq[i].data_of() == S::enc_spec(mv) && S::enc_ok(mv)) ==> r is Message
                                && r.msg().deep_view() == mv))
                    }
            },
    {
        self.try_receive(host, timeout_ms)
    }

    /// Bounded wait restricted to messages carrying one of the given tags
    /// (the empty list means "any tag"); link deaths match any filter.
    pub fn tag_receive_timeout(
        &self,
        host: &mut HostState,
        tags: &[Tag],
        timeout_ms: u64,
    ) -> (r: MailboxResult<M>)
        requires
            old(host).wf(),
            timeout_ms < u64::MAX || has_match(old(host).cur().queue@, filter_of(tags@)),
        ensures
            final(host).wf(),
            old(host).same_core(*final(host)),
            old(host).same_outbound(*final(host)),
            final(host).processes@.len() == old(host).processes@.len(),
            forall|p: int|
                0 <= p < old(host).processes@.len() && p != old(host).current ==> final(host).processes@[p] == old(host).processes@[p],
            r is TimedOut <==> !has_match(old(host).cur().queue@, filter_of(tags@)),
            r is TimedOut ==> final(host).processes == old(host).processes,
            !(r is TimedOut) ==> {
                let oldq = old(host).cur().queue@;
                let filter = filter_of(tags@);
                &&& final(host).cur().alive == old(host).cur().alive
                &&& final(host).cur().links == old(host).cur().links
                &&& final(host).cur().die_on_link == old(host).cur().die_on_link
                &&& final(host).cur().config_id == old(host).cur().config_id
                &&& final(host).cur().tags == old(host).cur().tags
                &&& exists|i: int|
                    {
                        &&& #[trigger] selects(oldq, filter, i)
                        &&& final(host).cur().queue@ == oldq.remove(i)
                        &&& (oldq[i] is LinkDied ==> r is LinkDied && r.died_tag().spec_raw()
                            == oldq[i].tag_of())
                        &&& (oldq[i] is Data ==> (r is Message || r is DeserializationFailed)
                            && (forall|mv: M::V|
                            (oldq[i].data_of() == S::enc_spec(mv) && S::enc_ok(mv)) ==> r is Message
                                && r.msg().deep_view() == mv))
                    }
            },
    {
        self.receive_(host, tags, timeout_ms)
    }
}

impl<M: DeepView, S> Mailbox<M, S, ()> where S: Serializer<M> {
    /// Unbounded wait for the next message of any tag. On this
    /// (non-catching) mailbox the call is owed a successfully decoded
    /// message, so the selected envelope must be an ordinary message whose
    /// bytes the serializer accepts — which every message sent through a
    /// handle of the same type satisfies.
    pub fn receive(&self, host: &mut HostState) -> (m: M)
        requires
            old(host).wf(),
            selects_wf_data::<M, S>(old(host).cur().queue@, Seq::<i64>::empty()),
        ensures
            final(host).wf(),
            old(host).same_core(*final(host)),
            old(host).same_outbound(*final(host)),
            final(host).processes@.len() == old(host).processes@.len(),
            forall|p: int|
                0 <= p < old(host).processes@.len() && p != old(host).current ==> final(host).processes@[p] == old(host).processes@[p],
            final(host).cur().alive == old(host).cur().alive,
            final(host).cur().links == old(host).cur().links,
            final(host).cur().die_on_link == old(host).cur().die_on_link,
            final(host).cur().config_id == old(host).cur().config_id,
            final(host).cur().tags == old(host).cur().tags,
            exists|i: int|
                {
                    &&& #[trigger] selects(old(host).cur().queue@, Seq::<i64>::empty(), i)
                    &&& final(host).cur().queue@ == old(host).cur().queue@.remove(i)
                    &&& (forall|mv: M::V|
                        (old(host).cur().queue@[i].data_of() == S::enc_spec(mv) && S::enc_ok(mv))
                            ==> m.deep_view() == mv)
                },
    {
        let no_tags: Vec<Tag> = Vec::new();
        proof {
            assert(filter_of(no_tags@) =~= Seq::<i64>::empty());
        }
        self.tag_receive(host, no_tags.as_slice())
    }

    /// Unbounded wait restricted to messages carrying one of the given tags
    /// (the empty list means "any tag"). As with `receive`, the call is owed
    /// a successfully decoded message.
    pub fn tag_receive(&self, host: &mut HostState, tags: &[Tag]) -> (m: M)
        requires
            old(host).wf(),
            selects_wf_data::<M, S>(old(host).cur().queue@, filter_of(tags@)),
        ensures
            final(host).wf(),
            old(host).same_core(*final(host)),
            old(host).same_outbound(*final(host)),
            final(host).processes@.len() == old(host).processes@.len(),
            forall|p: int|
                0 <= p < old(host).processes@.len() && p != old(host).current ==> final(host).processes@[p] == old(host).processes@[p],
            final(host).cur().alive == old(host).cur().alive,
            final(host).cur().links == old(host).cur().links,
            final(host).cur().die_on_link == old(host).cur().die_on_link,
            final(host).cur().config_id == old(host).cur().config_id,
            final(host).cur().tags == old(host).cur().tags,
            exists|i: int|
                {
                    &&& #[trigger] selects(old(host).cur().queue@, filter_of(tags@), i)
                    &&& final(host).cur().queue@ == old(host).cur().queue@.remove(i)
                    &&& (forall|mv: M::V|
                        (old(host).cur().queue@[i].data_of() == S::enc_spec(mv) && S::enc_ok(mv))
                            ==> m.deep_view() == mv)
                },
    {
        proof {
            let oldq = old(host).cur().queue@;
            let filter = filter_of(tags@);
            let i = choose|i: int|
                #[trigger] selects(oldq, filter, i) && oldq[i] is Data && (exists|mv: M::V|
                    oldq[i].data_of() == S::enc_spec(mv) && S::enc_ok(mv));
            assert(has_match(oldq, filter));
        }
        let r = self.receive_(host, tags, u64::MAX);
        proof {
            let oldq = old(host).cur().queue@;
            let filter = filter_of(tags@);
            let iw = choose|i: int|
                #[trigger] selects(oldq, filter, i) && oldq[i] is Data && (exists|mv: M::V|
                    oldq[i].data_of() == S::enc_spec(mv) && S::enc_ok(mv));
            let ir = choose|i: int|
                {
                    &&& #[trigger] selects(oldq, filter, i)
                    &&& host.cur().queue@ == oldq.remove(i)
                    &&& (oldq[i] is LinkDied ==> r is LinkDied && r.died_tag().spec_raw()
                        == oldq[i].tag_of())
                    &&& (oldq[i] is Data ==> (r is Message || r is DeserializationFailed)
                        && (forall|mv: M::V|
                        (oldq[i].data_of() == S::enc_spec(mv) && S::enc_ok(mv)) ==> r is Message
                            && r.msg().deep_view() == mv))
                };
            lemma_selects_unique(oldq, filter, iw, ir);
            assert(r is Message);
        }
        match r {
            MailboxResult::Message(m) => m,
            _ => vstd::pervasive::unreached(),
        }
    }

    /// Opt in to supervising this process's own failures: from here on, link
    /// deaths are returned as `LinkDied` results instead of aborting the
    /// process. This is a one-way, one-time capability upgrade.
    pub fn catch_link_failure(self, host: &mut HostState) -> (mb: Mailbox<M, S, Catching>)
        requires
            old(host).wf(),
        ensures
            final(host).wf(),
            old(host).same_core(*final(host)),
            old(host).same_outbound(*final(host)),
            final(host).processes@.len() == old(host).processes@.len(),
            forall|p: int|
                0 <= p < old(host).processes@.len() && p != old(host).current ==> final(host).processes@[p] == old(host).processes@[p],
            final(host).cur() == (crate::host::ProcessRecord {
                die_on_link: false,
                ..old(host).cur()
            }),
    {
        host.die_when_link_dies(false);
        Mailbox::new()
    }
}

impl<M: DeepView, S> Mailbox<M, S, Catching> where S: Serializer<M> {
    /// Unbounded wait for the next message of any tag; on a catching mailbox
    /// every outcome but the timeout is surfaced as a result variant.
    pub fn receive(&self, host: &mut HostState) -> (r: MailboxResult<M>)
        requires
            old(host).wf(),
            has_match(old(host).cur().queue@, Seq::<i64>::empty()),
        ensures
            final(host).wf(),
            old(host).same_core(*final(host)),
            old(host).same_outbound(*final(host)),
            final(host).processes@.len() == old(host).processes@.len(),
            forall|p: int|
                0 <= p < old(host).processes@.len() && p != old(host).current ==> final(host).processes@[p] == old(host).processes@[p],
            !(r is TimedOut),
            ({
                let oldq = old(host).cur().queue@;
                &&& final(host).cur().alive == old(host).cur().alive
                &&& final(host).cur().links == old(host).cur().links
                &&& final(host).cur().die_on_link == old(host).cur().die_on_link
                &&& final(host).cur().config_id == old(host).cur().config_id
                &&& final(host).cur().tags == old(host).cur().tags
                &&& exists|i: int|
                    {
                        &&& #[trigger] selects(oldq, Seq::<i64>::empty(), i)
                        &&& final(host).cur().queue@ == oldq.remove(i)
                        &&& (oldq[i] is LinkDied ==> r is LinkDied && r.died_tag().spec_raw()
                            == oldq[i].tag_of())
                        &&& (oldq[i] is Data ==> (r is Message || r is DeserializationFailed)
                            && (forall|mv: M::V|
                            (oldq[i].data_of() == S::enc_spec(mv) && S::enc_ok(mv)) ==> r is Message
                                && r.msg().deep_view() == mv))
                    }
            }),
    {
        let no_tags: Vec<Tag> = Vec::new();
        proof {
            assert(filter_of(no_tags@) =~= Seq::<i64>::empty());
        }
        self.receive_(host, no_tags.as_slice(), u64::MAX)
    }

    /// Unbounded wait restricted to messages carrying one of the given tags
    /// (the empty list means "any tag"); link deaths match any filter.
    pub fn tag_receive(&self, host: &mut HostState, tags: &[Tag]) -> (r: MailboxResult<M>)
        requires
            old(host).wf(),
            has_match(old(host).cur().queue@, filter_of(tags@)),
        ensures
            final(host).wf(),
            old(host).same_core(*final(host)),
            old(host).same_outbound(*final(host)),
            final(host).processes@.len() == old(host).processes@.len(),
            forall|p: int|
                0 <= p < old(host).processes@.len() && p != old(host).current ==> final(host).processes@[p] == old(host).processes@[p],
            !(r is TimedOut),
            ({
                let oldq = old(host).cur().queue@;
                let filter = filter_of(tags@);
                &&& final(host).cur().alive == old(host).cur().alive
                &&& final(host).cur().links == old(host).cur().links
                &&& final(host).cur().die_on_link == old(host).cur().die_on_link
                &&& final(host).cur().config_id == old(host).cur().config_id
                &&& final(host).cur().tags == old(host).cur().tags
                &&& exists|i: int|
                    {
                        &&& #[trigger] selects(oldq, filter, i)
                        &&& final(host).cur().queue@ == oldq.remove(i)
                        &&& (oldq[i] is LinkDied ==> r is LinkDied && r.died_tag().spec_raw()
                            == oldq[i].tag_of())
                        &&& (oldq[i] is Data ==> (r is Message || r is DeserializationFailed)
                            && (forall|mv: M::V|
                            (oldq[i].data_of() == S::enc_spec(mv) && S::enc_ok(mv)) ==> r is Message
                                && r.msg().deep_view() == mv))
                    }
            }),
    {
        self.receive_(host, tags, u64::MAX)
    }
}

impl<M: DeepView, S, L> Clone for Mailbox<M, S, L> where S: Serializer<M> {
    fn clone(&self) -> (r: Self) {
        Mailbox { phantom: PhantomData }
    }
}

impl<M: DeepView, S, L> Copy for Mailbox<M, S, L> where S: Serializer<M> {

}

impl<M: DeepView, S> crate::process::NoLink for Mailbox<M, S, ()> where S: Serializer<M> {

}

} // verus!
