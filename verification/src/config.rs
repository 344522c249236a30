//! Spawn configuration: a descriptor of spawn parameters resolved into a
//! host-side configuration object.
use vstd::prelude::*;

use crate::error::HperwasmError;
use crate::host::HostState;

verus! {

/// An immutable-once-built descriptor of spawn parameters: either a handle to
/// a host-resolved configuration object, or the sentinel meaning "use the
/// parent's implicit configuration".
pub struct ProcessConfig(ProcessConfigType);

enum ProcessConfigType {
    Config(u64),
    Inherit,
}

impl ProcessConfig {
    /// The identity of this configuration: the host handle it names, or `-1`
    /// for the inherit sentinel. Stable for the value's lifetime.
    pub closed spec fn spec_id(self) -> int {
        match self.0 {
            ProcessConfigType::Config(id) => id as int,
            ProcessConfigType::Inherit => -1,
        }
    }

    /// Whether this is the inherit sentinel.
    pub open spec fn is_inherit(self) -> bool {
        self.spec_id() == -1
    }

    /// An allocated handle never collides with the inherit sentinel and fits
    /// the signed identity space.
    pub closed spec fn wf(self) -> bool {
        match self.0 {
            ProcessConfigType::Config(id) => id < i64::MAX,
            ProcessConfigType::Inherit => true,
        }
    }

    /// Ask the host for a fresh configuration object. Fails with
    /// `PermissionDenied` exactly when the host refuses the allocation.
    pub fn new(host: &mut HostState) -> (r: Result<ProcessConfig, HperwasmError>)
        requires
            old(host).wf(),
            old(host).configs@.len() < i64::MAX,
        ensures
            final(host).wf(),
            final(host).processes == old(host).processes,
            final(host).registry == old(host).registry,
            final(host).current == old(host).current,
            final(host).config_allowed == old(host).config_allowed,
            final(host).spawn_error == old(host).spawn_error,
            old(host).same_outbound(*final(host)),
            r is Ok <==> old(host).config_allowed,
            r is Err ==> r->Err_0 == HperwasmError::PermissionDenied && final(host).configs
                == old(host).configs,
            r is Ok ==> {
                &&& r->Ok_0.wf()
                &&& !r->Ok_0.is_inherit()
                &&& r->Ok_0.spec_id() == old(host).configs@.len()
                &&& final(host).configs@ == old(host).configs@.push(final(host).configs@.last())
                &&& final(host).configs@.last().name@ == Seq::<char>::empty()
                &&& final(host).configs@.last().expected_time == 0
                &&& final(host).configs@.last().relative_ddl == 0
            },
    {
        let id = host.create_config();
        if id == -1 {
            Err(HperwasmError::PermissionDenied)
        } else {
            Ok(ProcessConfig(ProcessConfigType::Config(id as u64)))
        }
    }

    /// The sentinel meaning "use the parent's implicit configuration"; it
    /// needs no host round trip.
    pub(crate) fn inherit() -> (c: ProcessConfig)
        ensures
            c.wf(),
            c.is_inherit(),
    {
        ProcessConfig(ProcessConfigType::Inherit)
    }

    /// The identity of this configuration; `-1` always denotes "inherit".
    pub fn id(&self) -> (r: i64)
        requires
            self.wf(),
        ensures
            r == self.spec_id(),
    {
        match self.0 {
            ProcessConfigType::Config(id) => id as i64,
            ProcessConfigType::Inherit => -1,
        }
    }

    /// Set the display name of the configuration object, applied immediately
    /// to the host-side object this handle names.
    pub fn set_name(&mut self, host: &mut HostState, name: &str)
        requires
            old(host).wf(),
            old(self).wf(),
            !old(self).is_inherit(),
            old(self).spec_id() < old(host).configs@.len(),
        ensures
            *final(self) == *old(self),
            final(host).wf(),
            final(host).processes == old(host).processes,
            final(host).registry == old(host).registry,
            final(host).current == old(host).current,
            final(host).config_allowed == old(host).config_allowed,
            final(host).spawn_error == old(host).spawn_error,
            old(host).same_outbound(*final(host)),
            final(host).configs@.len() == old(host).configs@.len(),
            final(host).configs@[old(self).spec_id()].name@ == name@,
            final(host).configs@[old(self).spec_id()].expected_time == old(host).configs@[old(self).spec_id()].expected_time,
            final(host).configs@[old(self).spec_id()].relative_ddl == old(host).configs@[old(self).spec_id()].relative_ddl,
            forall|j: int|
                0 <= j < old(host).configs@.len() && j != old(self).spec_id() ==> final(host).configs@[j] == old(host).configs@[j],
    {
        let id = self.id() as u64;
        host.config_set_name(id, name);
    }

    /// Set the expected running time (milliseconds), applied immediately to
    /// the host-side object this handle names.
    pub fn set_expected_time(&mut self, host: &mut HostState, time: u64)
        requires
            old(host).wf(),
            old(self).wf(),
            !old(self).is_inherit(),
            old(self).spec_id() < old(host).configs@.len(),
        ensures
            *final(self) == *old(self),
            final(host).wf(),
            final(host).processes == old(host).processes,
            final(host).registry == old(host).registry,
            final(host).current == old(host).current,
            final(host).config_allowed == old(host).config_allowed,
            final(host).spawn_error == old(host).spawn_error,
            old(host).same_outbound(*final(host)),
            final(host).configs@ == old(host).configs@.update(
                old(self).spec_id(),
                (crate::host::ConfigRecord {
                    expected_time: time,
                    ..old(host).configs@[old(self).spec_id()]
                }),
            ),
    {
        let id = self.id() as u64;
        host.config_set_expected_time(id, time);
    }

    /// Set the relative deadline (milliseconds), applied immediately to the
    /// host-side object this handle names.
    pub fn set_relative_ddl(&mut self, host: &mut HostState, time: u64)
        requires
            old(host).wf(),
            old(self).wf(),
            !old(self).is_inherit(),
            old(self).spec_id() < old(host).configs@.len(),
        ensures
            *final(self) == *old(self),
            final(host).wf(),
            final(host).processes == old(host).processes,
            final(host).registry == old(host).registry,
            final(host).current == old(host).current,
            final(host).config_allowed == old(host).config_allowed,
            final(host).spawn_error == old(host).spawn_error,
            old(host).same_outbound(*final(host)),
            final(host).configs@ == old(host).configs@.update(
                old(self).spec_id(),
                (crate::host::ConfigRecord {
                    relative_ddl: time,
                    ..old(host).configs@[old(self).spec_id()]
                }),
            ),
    {
        let id = self.id() as u64;
        host.config_set_relative_ddl(id, time);
    }
}

} // verus!
