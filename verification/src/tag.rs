use vstd::prelude::*;

verus! {

/// A process-local correlation identifier used to address specific in-flight
/// message exchanges and mailbox selections.
///
/// The value `0` is reserved to mean "no tag" (fire-and-forget sends), the
/// values `64..=128` are reserved for host-special meanings, and values above
/// `128` are allocated process-locally by an incrementing counter.
#[derive(Clone, Copy, Debug, PartialEq, Eq, Structural, Hash)]
pub struct Tag(i64);

/// The explicit allocation state for process-local tags: a monotonically
/// increasing counter seeded at `128`, owned by the process it serves.
#[derive(Debug)]
pub struct TagCounter {
    counter: i64,
}

/// The tag value allocated from a counter that currently holds `counter`.
pub open spec fn next_tag_value(counter: int) -> int {
    counter + 1
}

impl TagCounter {
    /// The current counter value; every tag allocated so far is at most this.
    pub closed spec fn spec_value(self) -> int {
        self.counter as int
    }

    pub open spec fn wf(self) -> bool {
        self.spec_value() >= 128
    }

    /// A fresh counter for a new process; the first allocated tag will be `129`.
    pub fn new() -> (c: TagCounter)
        ensures
            c.wf(),
            c.spec_value() == 128,
    {
        TagCounter { counter: 128 }
    }
}

impl Tag {
    /// The raw value of this tag.
    pub closed spec fn spec_raw(self) -> i64 {
        self.0
    }

    /// The numeric identity of this tag.
    pub open spec fn spec_id(self) -> int {
        self.spec_raw() as int
    }

    /// Tags the allocator hands out: strictly above the reserved ranges.
    pub open spec fn is_allocated(self) -> bool {
        self.spec_id() > 128
    }

    /// Create a tag of any value.
    pub(crate) fn from(id: i64) -> (t: Tag)
        ensures
            t.spec_id() == id,
    {
        Tag(id)
    }

    /// Allocate a fresh process-local tag from the given counter.
    pub fn new(counter: &mut TagCounter) -> (t: Tag)
        requires
            old(counter).wf(),
            old(counter).spec_value() < i64::MAX,
        ensures
            final(counter).wf(),
            final(counter).spec_value() == old(counter).spec_value() + 1,
            t.spec_id() == next_tag_value(old(counter).spec_value()),
            t.is_allocated(),
    {
        counter.counter = counter.counter + 1;
        Tag(counter.counter)
    }

    /// The "no tag" sentinel used for fire-and-forget sends.
    pub fn none() -> (t: Tag)
        ensures
            t.spec_id() == 0,
    {
        Tag(0)
    }

    /// A host-special tag: available exactly for identities in `64..=128`.
    pub fn special(id: i64) -> (r: Option<Tag>)
        ensures
            r is Some <==> 64 <= id <= 128,
            r is Some ==> r.unwrap().spec_id() == id,
    {
        if 64 <= id && id <= 128 {
            Some(Tag(id))
        } else {
            None
        }
    }

    pub fn id(&self) -> (r: i64)
        ensures
            r == self.spec_id(),
    {
        self.0
    }
}

/// Law: tag allocation is strictly monotonic, and every allocated value lies
/// strictly above `128`, so it is never `0` and never falls in the reserved
/// range `64..=128`.
pub proof fn lemma_tag_allocation(c1: int, c2: int)
    requires
        128 <= c1,
        c1 < c2,
    ensures
        next_tag_value(c1) < next_tag_value(c2),
        next_tag_value(c1) > 128,
        next_tag_value(c1) != 0,
        !(64 <= next_tag_value(c1) <= 128),
{
}

} // verus!
