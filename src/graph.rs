use vstd::prelude::*;

verus! {

/// The foreign status code for a required capability that is not present.
pub const ERROR_EXTENSION_NOT_PRESENT: i32 = -7;

/// Why an operation on the resource graph did not go through.
#[derive(Debug, Clone, Copy, PartialEq, Eq, Structural)]
pub enum GraphError {
    /// The foreign creation call answered with this nonzero status.
    CreationFailed(i32),
    /// The foreign call reported success but handed back no handle.
    NullHandle,
    /// The queue was not requested when the session was created.
    InvalidQueueIndex,
    /// The context still has live sessions; destroy them first.
    SessionsLive,
    /// The session does not belong to this context, or is no longer live.
    ForeignSession,
    /// Every session serial of this context has been handed out.
    SerialsExhausted,
}

/// The root resource: one opaque handle and the registry of the sessions
/// opened under it that are still live.
#[derive(Debug)]
pub struct Instance {
    handle: usize,
    live: Vec<u64>,
    next_serial: u64,
    destroyed: bool,
}

/// What a context is, as far as the lifetime rules are concerned.
pub struct InstanceView {
    pub handle: usize,
    pub live: Set<u64>,
    pub next_serial: u64,
    pub destroyed: bool,
}

impl View for Instance {
    type V = InstanceView;

    closed spec fn view(&self) -> InstanceView {
        InstanceView {
            handle: self.handle,
            live: self.live@.to_set(),
            next_serial: self.next_serial,
            destroyed: self.destroyed,
        }
    }
}

/// A read-only view of an adapter found under a context.
#[derive(Debug, Clone, Copy, PartialEq, Eq, Structural)]
pub struct PhysicalDevice {
    pub handle: usize,
    pub instance: usize,
}

/// A queue that a session was asked to provide: `count` queues of a family.
#[derive(Debug, Clone, Copy, PartialEq, Eq, Structural)]
pub struct QueueRequest {
    pub family_index: u32,
    pub count: u32,
}

/// A session opened on an adapter; its lifetime is bound to the context.
#[derive(Debug)]
pub struct Device {
    handle: usize,
    instance: usize,
    serial: u64,
    requests: Vec<QueueRequest>,
}

/// An execution queue borrowed from a session.
#[derive(Debug, Clone, Copy, PartialEq, Eq, Structural)]
pub struct Queue {
    pub handle: usize,
    pub device: usize,
    pub family_index: u32,
    pub index: u32,
}

/// Whether `(family_index, index)` is among the queues requested.
pub open spec fn requested(requests: Seq<QueueRequest>, family_index: u32, index: u32) -> bool {
    exists|i: int|
        0 <= i < requests.len() && (#[trigger] requests[i]).family_index == family_index && index
            < requests[i].count
}

/// A context may be destroyed once no session opened under it is live.
pub open spec fn may_destroy(v: InstanceView) -> bool {
    v.live.is_empty()
}

impl Instance {
    /// Registry invariant: every live serial was handed out before, and
    /// none is listed twice.
    pub closed spec fn wf(&self) -> bool {
        &&& self.live@.no_duplicates()
        &&& forall|i: int| 0 <= i < self.live@.len() ==> #[trigger] self.live@[i] < self.next_serial
    }

    /// Takes the answer of the foreign creation call: a nonzero status is
    /// surfaced as it is, a success without a handle is refused.
    pub fn create(status: i32, handle: usize) -> (r: Result<Instance, GraphError>)
        ensures
            status != 0 ==> r == Err::<Instance, GraphError>(GraphError::CreationFailed(status)),
            status == 0 && handle == 0 ==> r == Err::<Instance, GraphError>(GraphError::NullHandle),
            status == 0 && handle != 0 ==> (r matches Ok(inst) && inst.wf() && inst@.handle == handle
                && inst@.live.is_empty() && inst@.next_serial == 0 && !inst@.destroyed),
    {
        if status != 0 {
            return Err(GraphError::CreationFailed(status));
        }
        if handle == 0 {
            return Err(GraphError::NullHandle);
        }
        let inst = Instance { handle, live: Vec::new(), next_serial: 0, destroyed: false };
        proof {
            assert(inst.live@.to_set() =~= Set::<u64>::empty());
        }
        Ok(inst)
    }

    pub fn handle(&self) -> (r: usize)
        ensures
            r == self@.handle,
    {
        self.handle
    }

    pub fn is_destroyed(&self) -> (r: bool)
        ensures
            r == self@.destroyed,
    {
        self.destroyed
    }

    /// How many sessions opened under this context are live.
    pub fn live_sessions(&self) -> (r: usize)
        requires
            self.wf(),
        ensures
            r == self@.live.len(),
    {
        proof {
            self.live@.unique_seq_to_set();
        }
        self.live.len()
    }

    /// Turns the handles that an adapter enumeration listed into adapter
    /// views tied to this context; a null handle in the list is refused.
    pub fn enumerate_physical_devices(&self, handles: &Vec<usize>) -> (r: Result<
        Vec<PhysicalDevice>,
        GraphError,
    >)
        requires
            !self@.destroyed,
        ensures
            (exists|i: int| 0 <= i < handles@.len() && handles@[i] == 0) ==> r == Err::<
                Vec<PhysicalDevice>,
                GraphError,
            >(GraphError::NullHandle),
            (forall|i: int| 0 <= i < handles@.len() ==> handles@[i] != 0) ==> (r matches Ok(v)
                && v@.len() == handles@.len() && forall|i: int|
                0 <= i < v@.len() ==> (#[trigger] v@[i]).handle == handles@[i] && v@[i].instance
                    == self@.handle),
    {
        let mut out: Vec<PhysicalDevice> = Vec::new();
        let mut k: usize = 0;
        while k < handles.len()
            invariant
                k <= handles@.len(),
                out@.len() == k,
                forall|i: int| 0 <= i < k ==> handles@[i] != 0,
                forall|i: int|
                    0 <= i < k ==> (#[trigger] out@[i]).handle == handles@[i] && out@[i].instance
                        == self@.handle,
            decreases handles@.len() - k,
        {
            if handles[k] == 0 {
                return Err(GraphError::NullHandle);
            }
            out.push(PhysicalDevice { handle: handles[k], instance: self.handle });
            k = k + 1;
        }
        Ok(out)
    }

    /// Ends the context. Refused, with nothing changed, while a session
    /// opened under it is live; on success the caller destroys the foreign
    /// handle.
    pub fn destroy(&mut self) -> (r: Result<usize, GraphError>)
        requires
            old(self).wf(),
            !old(self)@.destroyed,
        ensures
            final(self).wf(),
            may_destroy(old(self)@) ==> r == Ok::<usize, GraphError>(old(self)@.handle)
                && final(self)@.destroyed && final(self)@.handle == old(self)@.handle
                && final(self)@.live == old(self)@.live,
            !may_destroy(old(self)@) ==> r == Err::<usize, GraphError>(GraphError::SessionsLive)
                && *final(self) == *old(self),
    {
        if self.live.len() > 0 {
            proof {
                assert(self@.live.contains(self.live@[0]));
            }
            return Err(GraphError::SessionsLive);
        }
        proof {
            assert(self.live@.to_set() =~= Set::<u64>::empty());
        }
        self.destroyed = true;
        Ok(self.handle)
    }
}

impl PhysicalDevice {
    /// The adapter's identity, its handle.
    pub fn id(&self) -> (r: usize)
        ensures
            r == self.handle,
    {
        self.handle
    }

    /// Takes the answer of the foreign session-creation call on this
    /// adapter and registers the session with its context.
    pub fn create_logical(
        &self,
        instance: &mut Instance,
        requests: Vec<QueueRequest>,
        status: i32,
        handle: usize,
    ) -> (r: Result<Device, GraphError>)
        requires
            old(instance).wf(),
            !old(instance)@.destroyed,
            self.instance == old(instance)@.handle,
        ensures
            final(instance).wf(),
            final(instance)@.handle == old(instance)@.handle,
            final(instance)@.destroyed == old(instance)@.destroyed,
            status != 0 ==> r == Err::<Device, GraphError>(GraphError::CreationFailed(status)),
            status == 0 && handle == 0 ==> r == Err::<Device, GraphError>(GraphError::NullHandle),
            status == 0 && handle != 0 && old(instance)@.next_serial == u64::MAX ==> r == Err::<
                Device,
                GraphError,
            >(GraphError::SerialsExhausted),
            r is Err ==> *final(instance) == *old(instance),
            status == 0 && handle != 0 && old(instance)@.next_serial < u64::MAX ==> (r matches Ok(
                d,
            ) && d@.handle == handle && d@.instance == old(instance)@.handle && d@.requests
                == requests@ && !old(instance)@.live.contains(d@.serial) && final(instance)@.live
                == old(instance)@.live.insert(d@.serial)),
    {
        if status != 0 {
            return Err(GraphError::CreationFailed(status));
        }
        if handle == 0 {
            return Err(GraphError::NullHandle);
        }
        if instance.next_serial == u64::MAX {
            return Err(GraphError::SerialsExhausted);
        }
        let serial = instance.next_serial;
        proof {
            if instance.live@.contains(serial) {
                let i = choose|i: int| 0 <= i < instance.live@.len() && instance.live@[i] == serial;
                assert(instance.live@[i] < instance.next_serial);
            }
        }
        instance.live.push(serial);
        instance.next_serial = serial + 1;
        proof {
            old(instance).live@.lemma_push_to_set_commute(serial);
            assert(instance.live@ == old(instance).live@.push(serial));
            assert forall|i: int, j: int|
                0 <= i < instance.live@.len() && 0 <= j < instance.live@.len() && i != j implies
                instance.live@[i] != instance.live@[j] by {
                if i < old(instance).live@.len() && j < old(instance).live@.len() {
                    assert(old(instance).live@[i] != old(instance).live@[j]);
                } else if i < old(instance).live@.len() {
                    assert(old(instance).live@[i] < serial);
                } else {
                    assert(old(instance).live@[j] < serial);
                }
            }
        }
        Ok(Device { handle, instance: instance.handle, serial, requests })
    }
}

/// What a session is, as far as the lifetime rules are concerned.
pub struct DeviceView {
    pub handle: usize,
    pub instance: usize,
    pub serial: u64,
    pub requests: Seq<QueueRequest>,
}

impl View for Device {
    type V = DeviceView;

    closed spec fn view(&self) -> DeviceView {
        DeviceView {
            handle: self.handle,
            instance: self.instance,
            serial: self.serial,
            requests: self.requests@,
        }
    }
}

impl Device {
    pub fn handle(&self) -> (r: usize)
        ensures
            r == self@.handle,
    {
        self.handle
    }

    /// Whether the session was asked for queue `index` of family `family_index`.
    pub fn has_queue(&self, family_index: u32, index: u32) -> (r: bool)
        ensures
            r == requested(self@.requests, family_index, index),
    {
        let mut k: usize = 0;
        while k < self.requests.len()
            invariant
                k <= self@.requests.len(),
                forall|i: int|
                    0 <= i < k ==> !((#[trigger] self@.requests[i]).family_index == family_index
                        && index < self@.requests[i].count),
            decreases self@.requests.len() - k,
        {
            let q = self.requests[k];
            if q.family_index == family_index && index < q.count {
                return true;
            }
            k = k + 1;
        }
        false
    }

    /// Takes the handle the foreign queue lookup gave for `(family_index,
    /// index)`. A queue that was not requested, or a null handle, is
    /// `InvalidQueueIndex`.
    pub fn get_queue(&self, family_index: u32, index: u32, handle: usize) -> (r: Result<
        Queue,
        GraphError,
    >)
        ensures
            requested(self@.requests, family_index, index) && handle != 0 ==> r == Ok::<
                Queue,
                GraphError,
            >(Queue { handle, device: self@.handle, family_index, index }),
            !requested(self@.requests, family_index, index) || handle == 0 ==> r == Err::<
                Queue,
                GraphError,
            >(GraphError::InvalidQueueIndex),
    {
        if !self.has_queue(family_index, index) || handle == 0 {
            return Err(GraphError::InvalidQueueIndex);
        }
        Ok(Queue { handle, device: self.handle, family_index, index })
    }

    /// Ends the session and takes it out of its context's registry; the
    /// caller then destroys the foreign handle that comes back. A session
    /// of this context that is live is always accepted.
    pub fn destroy(self, instance: &mut Instance) -> (r: Result<usize, GraphError>)
        requires
            old(instance).wf(),
        ensures
            final(instance).wf(),
            final(instance)@.handle == old(instance)@.handle,
            final(instance)@.destroyed == old(instance)@.destroyed,
            final(instance)@.next_serial == old(instance)@.next_serial,
            self@.instance == old(instance)@.handle && old(instance)@.live.contains(self@.serial)
                ==> r == Ok::<usize, GraphError>(self@.handle) && final(instance)@.live == old(
                instance,
            )@.live.remove(self@.serial),
            !(self@.instance == old(instance)@.handle && old(instance)@.live.contains(self@.serial))
                ==> r == Err::<usize, GraphError>(GraphError::ForeignSession) && *final(instance)
                == *old(instance),
    {
        if self.instance != instance.handle {
            return Err(GraphError::ForeignSession);
        }
        let mut k: usize = 0;
        while k < instance.live.len()
            invariant
                k <= instance.live@.len(),
                forall|i: int| 0 <= i < k ==> instance.live@[i] != self.serial,
                *instance == *old(instance),
                instance.wf(),
                self.instance == instance.handle,
            decreases instance.live@.len() - k,
        {
            if instance.live[k] == self.serial {
                let ghost before = instance.live@;
                instance.live.remove(k);
                proof {
                    lemma_remove_unique(before, k as int, instance.next_serial);
                }
                return Ok(self.handle);
            }
            k = k + 1;
        }
        Err(GraphError::ForeignSession)
    }
}

proof fn lemma_remove_unique(s: Seq<u64>, k: int, bound: u64)
    requires
        s.no_duplicates(),
        0 <= k < s.len(),
        forall|i: int| 0 <= i < s.len() ==> #[trigger] s[i] < bound,
    ensures
        s.remove(k).no_duplicates(),
        s.remove(k).to_set() == s.to_set().remove(s[k]),
        forall|i: int| 0 <= i < s.remove(k).len() ==> #[trigger] s.remove(k)[i] < bound,
{
    let t = s.remove(k);
    assert forall|i: int, j: int| 0 <= i < t.len() && 0 <= j < t.len() && i != j implies t[i]
        != t[j] by {
        let bi = if i < k { i } else { i + 1 };
        let bj = if j < k { j } else { j + 1 };
        assert(t[i] == s[bi] && t[j] == s[bj]);
    }
    assert forall|x: u64| t.to_set().contains(x) == s.to_set().remove(s[k]).contains(x) by {
        if t.contains(x) {
            let j = choose|j: int| 0 <= j < t.len() && t[j] == x;
            let bj = if j < k { j } else { j + 1 };
            assert(s[bj] == x);
            assert(bj != k);
        }
        if s.contains(x) && x != s[k] {
            let j = choose|j: int| 0 <= j < s.len() && s[j] == x;
            if j < k {
                assert(t[j] == x);
            } else {
                assert(t[j - 1] == x);
            }
        }
    }
    assert(t.to_set() =~= s.to_set().remove(s[k]));
    assert forall|i: int| 0 <= i < t.len() implies #[trigger] t[i] < bound by {
        if i < k {
            assert(s[i] < bound);
        } else {
            assert(s[i + 1] < bound);
        }
    }
}

/// A context with a live session cannot be destroyed, and destroying that
/// session is what lets it be destroyed.
pub proof fn lemma_session_blocks_context(v: InstanceView, serial: u64)
    requires
        v.live == Set::<u64>::empty().insert(serial),
    ensures
        !may_destroy(v),
        may_destroy(InstanceView { live: v.live.remove(serial), ..v }),
{
    assert(v.live.contains(serial));
    assert(v.live.remove(serial) =~= Set::<u64>::empty());
}

} // verus!
