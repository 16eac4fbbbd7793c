use vstd::prelude::*;
use vstd::rwlock::{RwLock, RwLockPredicate, WriteHandle};
use crate::id_worker::{
    IDWork, MAX_WORKER_ID, TW_EPOCH, WORKER_ID_BITS, lemma_distinct_addresses_distinct_ids,
};

verus! {

/// Number of addresses: every datacenter id with every worker id.
pub const SLOT_COUNT: i64 = 1024;

/// Why the registry handed out no worker.
#[derive(Debug, Clone, Copy, PartialEq, Eq, Structural)]
pub enum RegistryError {
    /// The address lies outside the registry's address space.
    NotRegistered,
}

/// The datacenter id that an address holds.
pub open spec fn address_datacenter(address: i64) -> i64 {
    address >> WORKER_ID_BITS
}

/// The worker id that an address holds.
pub open spec fn address_worker(address: i64) -> i64 {
    address & MAX_WORKER_ID
}

/// The address of a datacenter id and a worker id.
pub open spec fn compose_address(datacenter_id: i64, worker_id: i64) -> int {
    datacenter_id * 32 + worker_id
}

/// What the lock at one address keeps: a well-formed worker with that
/// address, measuring time from the registry's epoch.
pub struct WorkerSlot {
    pub address: i64,
    pub epoch: i64,
}

impl RwLockPredicate<IDWork> for WorkerSlot {
    open spec fn inv(self, w: IDWork) -> bool {
        &&& w.wf()
        &&& w.spec_datacenter_id() == address_datacenter(self.address)
        &&& w.spec_worker_id() == address_worker(self.address)
        &&& w.spec_epoch() == self.epoch
    }
}

/// Every address of the space, each with its own worker behind a lock.
pub struct Workers {
    sets: Vec<RwLock<IDWork, WorkerSlot>>,
    tw_epoch: i64,
}

impl Default for Workers {
    /// A registry whose workers measure time from `TW_EPOCH`.
    fn default() -> (r: Workers)
        ensures
            r.wf(),
            r.spec_epoch() == TW_EPOCH,
    {
        Workers::new(0)
    }
}

impl Workers {
    /// The epoch from which every worker of the registry measures time.
    pub closed spec fn spec_epoch(&self) -> i64 {
        self.tw_epoch
    }

    /// The lock at `address`.
    pub closed spec fn slot(&self, address: int) -> RwLock<IDWork, WorkerSlot> {
        self.sets@[address]
    }

    /// One slot for each address, the slot at each address keeping the worker of
    /// that address.
    pub closed spec fn wf(&self) -> bool {
        &&& self.sets@.len() == SLOT_COUNT
        &&& forall|i: int|
            0 <= i < SLOT_COUNT ==> (#[trigger] self.sets@[i]).pred() == (WorkerSlot {
                address: i as i64,
                epoch: self.tw_epoch,
            })
    }

    /// A registry over the whole address space whose workers measure time from
    /// `tw_epoch`, or from `TW_EPOCH` where `tw_epoch` is 0.
    pub fn new(tw_epoch: i64) -> (r: Workers)
        ensures
            r.wf(),
            r.spec_epoch() == if tw_epoch == 0 {
                TW_EPOCH
            } else {
                tw_epoch
            },
    {
        let epoch = if tw_epoch == 0 {
            TW_EPOCH
        } else {
            tw_epoch
        };
        let mut sets: Vec<RwLock<IDWork, WorkerSlot>> = Vec::new();
        let mut id: i64 = 0;
        while id < SLOT_COUNT
            invariant
                0 <= id <= SLOT_COUNT,
                sets@.len() == id,
                forall|i: int|
                    0 <= i < id ==> (#[trigger] sets@[i]).pred() == (WorkerSlot {
                        address: i as i64,
                        epoch,
                    }),
            decreases SLOT_COUNT - id,
        {
            let (datacenter_id, work_id) = Self::split_id(id);
            let work = IDWork::new(work_id, datacenter_id, epoch);
            let slot = Ghost(WorkerSlot { address: id, epoch });
            sets.push(RwLock::new(work, slot));
            id = id + 1;
        }
        Workers { sets, tw_epoch: epoch }
    }

    /// The lock of the worker at `id`, or `NotRegistered` where `id` is no
    /// address of the space.
    pub fn get_ref(&self, id: &i64) -> (r: Result<&RwLock<IDWork, WorkerSlot>, RegistryError>)
        requires
            self.wf(),
        ensures
            (0 <= *id < SLOT_COUNT) <==> r is Ok,
            match r {
                Ok(lock) => {
                    &&& *lock == self.slot(*id as int)
                    &&& lock.pred() == (WorkerSlot { address: *id, epoch: self.spec_epoch() })
                },
                Err(e) => e == RegistryError::NotRegistered,
            },
    {
        if 0 <= *id && *id < SLOT_COUNT {
            Ok(&self.sets[*id as usize])
        } else {
            Err(RegistryError::NotRegistered)
        }
    }

    /// Takes the lock of the worker at `id` and hands out the worker with the
    /// handle that puts it back, or `NotRegistered` where `id` is no address of
    /// the space. The slot stays locked until the worker is handed back with
    /// `release_write`: dropping the handle does not release it, and later
    /// callers of `get` on that address then wait for ever.
    pub fn get(&self, id: &i64) -> (r: Result<
        (IDWork, WriteHandle<'_, IDWork, WorkerSlot>),
        RegistryError,
    >)
        requires
            self.wf(),
        ensures
            (0 <= *id < SLOT_COUNT) <==> r is Ok,
            match r {
                Ok((work, handle)) => {
                    &&& handle.rwlock() == self.slot(*id as int)
                    &&& work.wf()
                    &&& work.spec_datacenter_id() == address_datacenter(*id)
                    &&& work.spec_worker_id() == address_worker(*id)
                    &&& work.spec_epoch() == self.spec_epoch()
                },
                Err(e) => e == RegistryError::NotRegistered,
            },
    {
        match self.get_ref(id) {
            Ok(lock) => Ok(lock.acquire_write()),
            Err(e) => Err(e),
        }
    }

    /// The datacenter id and the worker id that an address holds.
    pub fn split_id(id: i64) -> (r: (i64, i64))
        ensures
            r.0 == address_datacenter(id),
            r.1 == address_worker(id),
            0 <= r.1 <= MAX_WORKER_ID,
            0 <= id < SLOT_COUNT ==> 0 <= r.0 < 32,
    {
        let datacenter_id = id >> WORKER_ID_BITS;
        let work_id = id & MAX_WORKER_ID;
        proof {
            assert(0 <= id & 31i64 <= 31) by (bit_vector);
            assert(0 <= id < 1024 ==> 0 <= id >> 5u64 < 32) by (bit_vector);
        }
        (datacenter_id, work_id)
    }
}

/// Putting back together the two ids that an address holds gives the address.
pub proof fn lemma_split_compose(address: i64)
    requires
        0 <= address < SLOT_COUNT,
    ensures
        compose_address(address_datacenter(address), address_worker(address)) == address,
{
    assert((address >> 5u64) * 32 + (address & 31i64) == address) by (bit_vector)
        requires
            0 <= address < 1024,
    ;
}

/// The workers kept at two different addresses of a registry never issue the
/// same identifier, however their clocks and sequences stand.
pub proof fn lemma_slots_distinct_ids(
    x: i64,
    y: i64,
    epoch: i64,
    a: IDWork,
    b: IDWork,
)
    requires
        0 <= x < SLOT_COUNT,
        0 <= y < SLOT_COUNT,
        x != y,
        (WorkerSlot { address: x, epoch }).inv(a),
        (WorkerSlot { address: y, epoch }).inv(b),
    ensures
        a.spec_id() != b.spec_id(),
{
    lemma_split_compose(x);
    lemma_split_compose(y);
    lemma_distinct_addresses_distinct_ids(a, b);
}

} // verus!
