use vstd::prelude::*;
use crate::clock::time_gen;

verus! {

/// Default epoch (milliseconds since the Unix epoch) from which timestamps are measured.
pub const TW_EPOCH: i64 = 1288834974657;

/// Bit widths of the address and sequence fields of an identifier.
pub const WORKER_ID_BITS: u64 = 5;

pub const DATACENTER_ID_BITS: u64 = 5;

pub const SEQUENCE_BITS: u64 = 21;

/// Largest worker id: 2^WORKER_ID_BITS - 1.
pub const MAX_WORKER_ID: i64 = 31;

/// Largest datacenter id: 2^DATACENTER_ID_BITS - 1.
pub const MAX_DATACENTER_ID: i64 = 31;

/// Largest sequence number within one millisecond: 2^SEQUENCE_BITS - 1.
pub const SEQUENCE_MAX: i64 = 2097151;

pub const WORKER_ID_SHIFT: u64 = SEQUENCE_BITS;

pub const DATACENTER_ID_LEFT_SHIFT: u64 = SEQUENCE_BITS + WORKER_ID_BITS;

pub const TIMESTAMP_LEFT_SHIFT: u64 = SEQUENCE_BITS + WORKER_ID_BITS + DATACENTER_ID_BITS;

/// Largest number of identifiers that one batch may ask for.
pub const MAX_NEXT_IDS_NUM: usize = 100;

/// How many clock readings a worker waits at most for the next millisecond:
/// enough for the wait to end by the clock and not by this bound.
pub const MAX_WAIT_READS: u64 = 18446744073709551615;

/// The identifier with the given fields: the timestamp's distance from the epoch
/// in the high bits, then the datacenter id, the worker id and the sequence.
/// The distance is taken modulo 2^64 and only its low 33 bits stay in the result.
pub open spec fn spec_compose_id(
    timestamp: i64,
    epoch: i64,
    datacenter_id: i64,
    worker_id: i64,
    sequence: i64,
) -> i64 {
    ((((timestamp - epoch) as u64) << TIMESTAMP_LEFT_SHIFT) | ((datacenter_id as u64)
        << DATACENTER_ID_LEFT_SHIFT) | ((worker_id as u64) << WORKER_ID_SHIFT) | (
    sequence as u64)) as i64
}

/// Builds an identifier from its fields.
pub fn compose_id(
    timestamp: i64,
    epoch: i64,
    datacenter_id: i64,
    worker_id: i64,
    sequence: i64,
) -> (r: i64)
    ensures
        r == spec_compose_id(timestamp, epoch, datacenter_id, worker_id, sequence),
{
    let delta = (timestamp as i128 - epoch as i128) as u64;
    let time_bits = delta << TIMESTAMP_LEFT_SHIFT;
    let data_bits = (datacenter_id as u64) << DATACENTER_ID_LEFT_SHIFT;
    let work_bits = (worker_id as u64) << WORKER_ID_SHIFT;
    (time_bits | data_bits | work_bits | (sequence as u64)) as i64
}

/// Why a worker issued no identifier.
#[derive(Debug, Clone, Copy, PartialEq, Eq, Structural)]
pub enum IdError {
    /// The clock reads earlier than the reading behind the last identifier.
    ClockMovedBackward,
    /// The wall clock could not be read as milliseconds since the Unix epoch.
    ClockUnreadable,
    /// The clock did not pass the last reading within the bounded wait.
    ClockStalled,
}

/// What one clock reading gives a worker.
#[derive(Debug, Clone, Copy, PartialEq, Eq, Structural)]
pub enum Issue {
    /// An identifier was issued.
    Issued(i64),
    /// Every sequence number of the last millisecond is used: the next reading
    /// to hand over must be later than the last one.
    WaitForNextMillis,
    /// The reading is earlier than the last one.
    ClockMovedBackward,
}

/// One source of identifiers: a fixed address and the state of its last issue.
#[derive(Debug)]
pub struct IDWork {
    work_id: i64,
    tw_epoch: i64,
    datacenter_id: i64,
    last_timestamp: i64,
    sequence: i64,
}

impl IDWork {
    pub closed spec fn spec_worker_id(&self) -> i64 {
        self.work_id
    }

    pub closed spec fn spec_datacenter_id(&self) -> i64 {
        self.datacenter_id
    }

    pub closed spec fn spec_epoch(&self) -> i64 {
        self.tw_epoch
    }

    pub closed spec fn spec_last_timestamp(&self) -> i64 {
        self.last_timestamp
    }

    pub closed spec fn spec_sequence(&self) -> i64 {
        self.sequence
    }

    /// Address ids within their bit widths and a sequence within its range.
    pub open spec fn wf(&self) -> bool {
        &&& 0 <= self.spec_worker_id() <= MAX_WORKER_ID
        &&& 0 <= self.spec_datacenter_id() <= MAX_DATACENTER_ID
        &&& 0 <= self.spec_sequence() <= SEQUENCE_MAX
    }

    /// The identifier that stands for the current state.
    pub open spec fn spec_id(&self) -> i64 {
        spec_compose_id(
            self.spec_last_timestamp(),
            self.spec_epoch(),
            self.spec_datacenter_id(),
            self.spec_worker_id(),
            self.spec_sequence(),
        )
    }

    /// Both workers have the same address and epoch.
    pub open spec fn same_source(&self, other: &IDWork) -> bool {
        &&& self.spec_worker_id() == other.spec_worker_id()
        &&& self.spec_datacenter_id() == other.spec_datacenter_id()
        &&& self.spec_epoch() == other.spec_epoch()
    }

    /// `next` is the state after one identifier was issued from `self`: a later
    /// millisecond with the sequence back at zero, or the same millisecond with
    /// the next sequence number.
    pub open spec fn advances_to(&self, next: &IDWork) -> bool {
        &&& self.same_source(next)
        &&& {
            ||| (next.spec_last_timestamp() > self.spec_last_timestamp() && next.spec_sequence()
                == 0)
            ||| (next.spec_last_timestamp() == self.spec_last_timestamp()
                && next.spec_sequence() == self.spec_sequence() + 1)
        }
    }

    /// The timestamp lies less than 2^32 milliseconds after the epoch, the span
    /// that the timestamp field holds without loss.
    pub open spec fn in_window(&self) -> bool {
        0 <= self.spec_last_timestamp() - self.spec_epoch() < 0x1_0000_0000
    }

    /// The (timestamp, sequence) pair of `self` comes before that of `other`.
    pub open spec fn issued_before(&self, other: &IDWork) -> bool {
        ||| self.spec_last_timestamp() < other.spec_last_timestamp()
        ||| (self.spec_last_timestamp() == other.spec_last_timestamp() && self.spec_sequence()
            < other.spec_sequence())
    }

    /// The `i`-th identifier of `ids` was issued from `states[i]`, leading to
    /// the well-formed state `states[i + 1]`.
    pub open spec fn issue_step(states: Seq<IDWork>, ids: Seq<i64>, i: int) -> bool {
        &&& states[i].advances_to(&states[i + 1])
        &&& states[i + 1].wf()
        &&& ids[i] == states[i + 1].spec_id()
    }

    /// `ids` were issued one after another along `states`, which begins before
    /// the first issue and ends after the last.
    pub open spec fn issues_run(states: Seq<IDWork>, ids: Seq<i64>) -> bool {
        &&& states.len() == ids.len() + 1
        &&& forall|i: int| 0 <= i < ids.len() ==> #[trigger] Self::issue_step(states, ids, i)
    }

    /// `next` is reached from `self` by issuing `ids`.
    pub open spec fn issues(&self, ids: Seq<i64>, next: &IDWork) -> bool {
        exists|states: Seq<IDWork>|
            {
                &&& Self::issues_run(states, ids)
                &&& states[0] == *self
                &&& states.last() == *next
            }
    }

    /// Where every state after the first of `states` lies in the window, `ids`
    /// strictly increase.
    pub open spec fn increases_in_window(states: Seq<IDWork>, ids: Seq<i64>) -> bool {
        (forall|k: int| 0 < k < states.len() ==> (#[trigger] states[k]).in_window()) ==> (
        forall|i: int, j: int| 0 <= i < j < ids.len() ==> #[trigger] ids[i] < #[trigger] ids[j])
    }

    /// `next` is reached from `self` by issuing `ids`, and where every clock
    /// reading adopted on the way lies in the window, `ids` strictly increase.
    pub open spec fn issues_in_order(&self, ids: Seq<i64>, next: &IDWork) -> bool {
        exists|states: Seq<IDWork>|
            {
                &&& Self::issues_run(states, ids)
                &&& states[0] == *self
                &&& states.last() == *next
                &&& Self::increases_in_window(states, ids)
            }
    }

    /// What a worker in state `self` does with the clock reading `timestamp`:
    /// the state after it and what it hands back.
    pub open spec fn spec_issue_at(&self, timestamp: i64, next: &IDWork, r: Issue) -> bool {
        if timestamp < self.spec_last_timestamp() {
            r == Issue::ClockMovedBackward && *next == *self
        } else if timestamp == self.spec_last_timestamp() {
            if self.spec_sequence() == SEQUENCE_MAX {
                r == Issue::WaitForNextMillis && *next == *self
            } else {
                &&& self.same_source(next)
                &&& next.spec_last_timestamp() == timestamp
                &&& next.spec_sequence() == self.spec_sequence() + 1
                &&& r == Issue::Issued(next.spec_id())
            }
        } else {
            &&& self.same_source(next)
            &&& next.spec_last_timestamp() == timestamp
            &&& next.spec_sequence() == 0
            &&& r == Issue::Issued(next.spec_id())
        }
    }

    /// A worker at address (`datacenter_id`, `work_id`) measuring time from
    /// `tw_epoch`, which has issued nothing yet.
    pub fn new(work_id: i64, datacenter_id: i64, tw_epoch: i64) -> (r: IDWork)
        requires
            0 <= work_id <= MAX_WORKER_ID,
            0 <= datacenter_id <= MAX_DATACENTER_ID,
        ensures
            r.wf(),
            r.spec_worker_id() == work_id,
            r.spec_datacenter_id() == datacenter_id,
            r.spec_epoch() == tw_epoch,
            r.spec_last_timestamp() == -1,
            r.spec_sequence() == 0,
    {
        IDWork { work_id, tw_epoch, datacenter_id, last_timestamp: -1, sequence: 0 }
    }

    #[verifier::when_used_as_spec(spec_last_timestamp)]
    /// The clock reading behind the last identifier, -1 before the first.
    pub fn last_timestamp(&self) -> (r: i64)
        ensures
            r == self.spec_last_timestamp(),
    {
        self.last_timestamp
    }

    #[verifier::when_used_as_spec(spec_sequence)]
    /// The sequence number of the last identifier.
    pub fn sequence(&self) -> (r: i64)
        ensures
            r == self.spec_sequence(),
    {
        self.sequence
    }

    /// Issues the next identifier for the clock reading `timestamp`, or says why
    /// it cannot: the reading is earlier than the last one, or the last
    /// millisecond has no sequence number left. Only an issue changes the state.
    pub fn next_id_at(&mut self, timestamp: i64) -> (r: Issue)
        requires
            old(self).wf(),
        ensures
            final(self).wf(),
            old(self).spec_issue_at(timestamp, &*final(self), r),
            r is Issued ==> old(self).advances_to(&*final(self)),
    {
        if timestamp < self.last_timestamp {
            return Issue::ClockMovedBackward;
        }
        if timestamp > self.last_timestamp {
            return Issue::Issued(self.issue_in_later_millis(timestamp));
        }
        if self.sequence == SEQUENCE_MAX {
            return Issue::WaitForNextMillis;
        }
        self.sequence = self.sequence + 1;
        Issue::Issued(
            compose_id(
                self.last_timestamp,
                self.tw_epoch,
                self.datacenter_id,
                self.work_id,
                self.sequence,
            ),
        )
    }

    /// Issues the first identifier of the millisecond `timestamp`, later than
    /// the last one: the sequence starts again at zero.
    fn issue_in_later_millis(&mut self, timestamp: i64) -> (id: i64)
        requires
            old(self).wf(),
            timestamp > old(self).spec_last_timestamp(),
        ensures
            final(self).wf(),
            old(self).same_source(&*final(self)),
            final(self).spec_last_timestamp() == timestamp,
            final(self).spec_sequence() == 0,
            id == final(self).spec_id(),
    {
        self.sequence = 0;
        self.last_timestamp = timestamp;
        compose_id(
            self.last_timestamp,
            self.tw_epoch,
            self.datacenter_id,
            self.work_id,
            self.sequence,
        )
    }

    /// The reading `reading` where it is past `last_timestamp`, else nothing.
    pub fn adopt_later(last_timestamp: i64, reading: Option<i64>) -> (r: Option<i64>)
        ensures
            r == (match reading {
                Some(t) => if t > last_timestamp {
                    Some(t)
                } else {
                    None
                },
                None => None,
            }),
    {
        match reading {
            Some(t) => if t > last_timestamp {
                Some(t)
            } else {
                None
            },
            None => None,
        }
    }

    /// Reads the clock until it passes `last_timestamp`, at most
    /// `MAX_WAIT_READS` times, and returns the first reading past it.
    fn til_next_millis(last_timestamp: i64) -> (r: Result<i64, IdError>)
        ensures
            match r {
                Ok(t) => t > last_timestamp,
                Err(e) => e == IdError::ClockStalled,
            },
    {
        let mut reads: u64 = 0;
        while reads < MAX_WAIT_READS
            invariant
                reads <= MAX_WAIT_READS,
            decreases MAX_WAIT_READS - reads,
        {
            reads = reads + 1;
            if let Some(t) = Self::adopt_later(last_timestamp, time_gen()) {
                return Ok(t);
            }
        }
        Err(IdError::ClockStalled)
    }

    /// Issues the next identifier at the wall clock's reading. Where the last
    /// millisecond has no sequence number left, waits for the clock to pass it.
    /// On an error the state is unchanged.
    pub fn next_id(&mut self) -> (r: Result<i64, IdError>)
        requires
            old(self).wf(),
        ensures
            final(self).wf(),
            match r {
                Ok(id) => {
                    &&& old(self).advances_to(&*final(self))
                    &&& id == final(self).spec_id()
                    &&& old(self).spec_sequence() == SEQUENCE_MAX ==> {
                        &&& final(self).spec_last_timestamp() > old(self).spec_last_timestamp()
                        &&& final(self).spec_sequence() == 0
                    }
                },
                Err(e) => {
                    &&& *final(self) == *old(self)
                    &&& (e == IdError::ClockMovedBackward || e == IdError::ClockUnreadable || e
                        == IdError::ClockStalled)
                },
            },
    {
        let timestamp = match time_gen() {
            Some(t) => t,
            None => return Err(IdError::ClockUnreadable),
        };
        match self.next_id_at(timestamp) {
            Issue::Issued(id) => Ok(id),
            Issue::ClockMovedBackward => Err(IdError::ClockMovedBackward),
            Issue::WaitForNextMillis => {
                let later = Self::til_next_millis(self.last_timestamp)?;
                Ok(self.issue_in_later_millis(later))
            },
        }
    }

    /// Issues `num` identifiers one after another. Stops at the first error and
    /// returns it: the identifiers issued before it are dropped.
    pub fn next_ids(&mut self, num: usize) -> (r: Result<Vec<i64>, IdError>)
        requires
            old(self).wf(),
            0 < num <= MAX_NEXT_IDS_NUM,
        ensures
            final(self).wf(),
            match r {
                Ok(ids) => ids@.len() == num && old(self).issues_in_order(ids@, &*final(self)),
                Err(e) => {
                    &&& exists|ids: Seq<i64>| old(self).issues(ids, &*final(self))
                    &&& (e == IdError::ClockMovedBackward || e == IdError::ClockUnreadable || e
                        == IdError::ClockStalled)
                },
            },
    {
        let ghost start = *self;
        let ghost mut states: Seq<IDWork> = seq![*self];
        let mut ids: Vec<i64> = Vec::with_capacity(num);
        let mut i: usize = 0;
        while i < num
            invariant
                self.wf(),
                i <= num,
                ids@.len() == i,
                Self::issues_run(states, ids@),
                states[0] == start,
                start == *old(self),
                start.wf(),
                states.last() == *self,
            decreases num - i,
        {
            match self.next_id() {
                Ok(id) => {
                    proof {
                        Self::lemma_run_push(states, ids@, *self, id);
                        states = states.push(*self);
                    }
                    ids.push(id);
                    i = i + 1;
                },
                Err(e) => {
                    assert(start.issues(ids@, &*self));
                    return Err(e);
                },
            }
        }
        proof {
            if forall|k: int| 0 < k < states.len() ==> (#[trigger] states[k]).in_window() {
                lemma_issued_ids_increase(states, ids@);
            }
            assert(Self::increases_in_window(states, ids@));
        }
        assert(start.issues_in_order(ids@, &*self));
        Ok(ids)
    }

    proof fn lemma_run_push(states: Seq<IDWork>, ids: Seq<i64>, next: IDWork, id: i64)
        requires
            Self::issues_run(states, ids),
            states.last().advances_to(&next),
            next.wf(),
            id == next.spec_id(),
        ensures
            Self::issues_run(states.push(next), ids.push(id)),
            states.push(next)[0] == states[0],
            states.push(next).last() == next,
    {
        let s2 = states.push(next);
        let i2 = ids.push(id);
        assert forall|k: int| 0 <= k < i2.len() implies #[trigger] Self::issue_step(s2, i2, k) by {
            if k < ids.len() {
                assert(Self::issue_step(states, ids, k));
                assert(s2[k] == states[k]);
                assert(s2[k + 1] == states[k + 1]);
            }
        }
    }
}

/// The timestamp field of an identifier: the distance from the epoch.
pub open spec fn id_timestamp(id: i64) -> i64 {
    id >> TIMESTAMP_LEFT_SHIFT
}

/// The datacenter field of an identifier.
pub open spec fn id_datacenter(id: i64) -> i64 {
    (id >> DATACENTER_ID_LEFT_SHIFT) & MAX_DATACENTER_ID
}

/// The worker field of an identifier.
pub open spec fn id_worker(id: i64) -> i64 {
    (id >> WORKER_ID_SHIFT) & MAX_WORKER_ID
}

/// The sequence field of an identifier.
pub open spec fn id_sequence(id: i64) -> i64 {
    id & SEQUENCE_MAX
}

proof fn lemma_fields_bits(d: u64, dc: u64, w: u64, sq: u64)
    by (bit_vector)
    requires
        d < 0x1_0000_0000,
        dc < 32,
        w < 32,
        sq < 0x20_0000,
    ensures
        ((d << 31u64) | (dc << 26u64) | (w << 21u64) | sq) < 0x8000_0000_0000_0000,
        (((d << 31u64) | (dc << 26u64) | (w << 21u64) | sq) as i64) >> 31u64 == d as i64,
        ((((d << 31u64) | (dc << 26u64) | (w << 21u64) | sq) as i64) >> 26u64) & 31i64
            == dc as i64,
        ((((d << 31u64) | (dc << 26u64) | (w << 21u64) | sq) as i64) >> 21u64) & 31i64
            == w as i64,
        (((d << 31u64) | (dc << 26u64) | (w << 21u64) | sq) as i64) & 0x1f_ffffi64 == sq as i64,
{
}

proof fn lemma_order_bits(d1: u64, s1: u64, d2: u64, s2: u64, dc: u64, w: u64)
    by (bit_vector)
    requires
        d1 < 0x1_0000_0000,
        d2 < 0x1_0000_0000,
        dc < 32,
        w < 32,
        s1 < 0x20_0000,
        s2 < 0x20_0000,
        d1 < d2 || (d1 == d2 && s1 < s2),
    ensures
        (((d1 << 31u64) | (dc << 26u64) | (w << 21u64) | s1) as i64) < (((d2 << 31u64) | (dc
            << 26u64) | (w << 21u64) | s2) as i64),
{
}

proof fn lemma_address_bits(d1: u64, s1: u64, dc1: u64, w1: u64, d2: u64, s2: u64, dc2: u64, w2: u64)
    by (bit_vector)
    requires
        dc1 < 32,
        w1 < 32,
        s1 < 0x20_0000,
        dc2 < 32,
        w2 < 32,
        s2 < 0x20_0000,
        dc1 != dc2 || w1 != w2,
    ensures
        ((d1 << 31u64) | (dc1 << 26u64) | (w1 << 21u64) | s1) as i64 != ((d2 << 31u64) | (dc2
            << 26u64) | (w2 << 21u64) | s2) as i64,
{
}

/// Decoding the fields of an identifier gives back what it was built from,
/// where the timestamp lies less than 2^32 milliseconds after the epoch and the
/// other fields within their bit widths.
pub proof fn lemma_decode_compose(
    timestamp: i64,
    epoch: i64,
    datacenter_id: i64,
    worker_id: i64,
    sequence: i64,
)
    requires
        0 <= timestamp - epoch < 0x1_0000_0000,
        0 <= datacenter_id <= MAX_DATACENTER_ID,
        0 <= worker_id <= MAX_WORKER_ID,
        0 <= sequence <= SEQUENCE_MAX,
    ensures
        ({
            let id = spec_compose_id(timestamp, epoch, datacenter_id, worker_id, sequence);
            &&& id >= 0
            &&& id_timestamp(id) == timestamp - epoch
            &&& id_datacenter(id) == datacenter_id
            &&& id_worker(id) == worker_id
            &&& id_sequence(id) == sequence
        }),
{
    let d = (timestamp - epoch) as u64;
    lemma_fields_bits(d, datacenter_id as u64, worker_id as u64, sequence as u64);
}

/// Along a run of issues the (timestamp, sequence) pairs of the states strictly
/// increase, whatever the timestamps.
pub proof fn lemma_run_order(states: Seq<IDWork>, ids: Seq<i64>)
    requires
        IDWork::issues_run(states, ids),
    ensures
        forall|i: int, j: int|
            0 <= i < j < states.len() ==> #[trigger] states[i].issued_before(&states[j]),
    decreases ids.len(),
{
    if ids.len() > 0 {
        let n = ids.len() - 1;
        let s0 = states.drop_last();
        let i0 = ids.drop_last();
        assert forall|k: int| 0 <= k < i0.len() implies #[trigger] IDWork::issue_step(s0, i0, k) by {
            assert(IDWork::issue_step(states, ids, k));
            assert(s0[k] == states[k] && s0[k + 1] == states[k + 1]);
        }
        lemma_run_order(s0, i0);
        assert(IDWork::issue_step(states, ids, n));
        assert forall|i: int, j: int|
            0 <= i < j < states.len() implies #[trigger] states[i].issued_before(&states[j]) by {
            if j < states.len() - 1 {
                assert(s0[i] == states[i] && s0[j] == states[j]);
            } else if i < n {
                assert(s0[i] == states[i] && s0[n] == states[n]);
                assert(s0[i].issued_before(&s0[n]));
            }
        }
    }
}

/// Identifiers that one worker issues one after another strictly increase, and
/// so never repeat, and so do their (timestamp, sequence) fields, as long as
/// every timestamp lies less than 2^32 milliseconds after the epoch.
pub proof fn lemma_issued_ids_increase(states: Seq<IDWork>, ids: Seq<i64>)
    requires
        IDWork::issues_run(states, ids),
        states[0].wf(),
        forall|k: int| 0 < k < states.len() ==> (#[trigger] states[k]).in_window(),
    ensures
        forall|i: int, j: int|
            0 <= i < j < ids.len() ==> {
                &&& #[trigger] ids[i] < #[trigger] ids[j]
                &&& {
                    ||| id_timestamp(ids[i]) < id_timestamp(ids[j])
                    ||| (id_timestamp(ids[i]) == id_timestamp(ids[j]) && id_sequence(ids[i])
                        < id_sequence(ids[j]))
                }
            },
{
    lemma_run_order(states, ids);
    assert forall|i: int, j: int| 0 <= i < j < ids.len() implies {
        &&& #[trigger] ids[i] < #[trigger] ids[j]
        &&& {
            ||| id_timestamp(ids[i]) < id_timestamp(ids[j])
            ||| (id_timestamp(ids[i]) == id_timestamp(ids[j]) && id_sequence(ids[i])
                < id_sequence(ids[j]))
        }
    } by {
        let a = states[i + 1];
        let b = states[j + 1];
        assert(states[0].same_source(&a) && states[0].same_source(&b)) by {
            lemma_run_same_source(states, ids, i + 1);
            lemma_run_same_source(states, ids, j + 1);
        }
        assert(IDWork::issue_step(states, ids, i) && IDWork::issue_step(states, ids, j));
        assert(a.issued_before(&b));
        assert(a.wf() && b.wf() && a.in_window() && b.in_window());
        assert(states[0].wf());
        lemma_decode_compose(
            a.spec_last_timestamp(),
            a.spec_epoch(),
            a.spec_datacenter_id(),
            a.spec_worker_id(),
            a.spec_sequence(),
        );
        lemma_decode_compose(
            b.spec_last_timestamp(),
            b.spec_epoch(),
            b.spec_datacenter_id(),
            b.spec_worker_id(),
            b.spec_sequence(),
        );
        lemma_order_bits(
            (a.spec_last_timestamp() - a.spec_epoch()) as u64,
            a.spec_sequence() as u64,
            (b.spec_last_timestamp() - b.spec_epoch()) as u64,
            b.spec_sequence() as u64,
            a.spec_datacenter_id() as u64,
            a.spec_worker_id() as u64,
        );
    }
}

proof fn lemma_run_same_source(states: Seq<IDWork>, ids: Seq<i64>, k: int)
    requires
        IDWork::issues_run(states, ids),
        0 <= k < states.len(),
    ensures
        states[0].same_source(&states[k]),
    decreases k,
{
    if k > 0 {
        lemma_run_same_source(states, ids, k - 1);
        assert(IDWork::issue_step(states, ids, k - 1));
    }
}

/// Workers at two different addresses never issue the same identifier,
/// whatever their clocks and sequences.
pub proof fn lemma_distinct_addresses_distinct_ids(a: IDWork, b: IDWork)
    requires
        a.wf(),
        b.wf(),
        a.spec_datacenter_id() != b.spec_datacenter_id() || a.spec_worker_id()
            != b.spec_worker_id(),
    ensures
        a.spec_id() != b.spec_id(),
{
    lemma_address_bits(
        (a.spec_last_timestamp() - a.spec_epoch()) as u64,
        a.spec_sequence() as u64,
        a.spec_datacenter_id() as u64,
        a.spec_worker_id() as u64,
        (b.spec_last_timestamp() - b.spec_epoch()) as u64,
        b.spec_sequence() as u64,
        b.spec_datacenter_id() as u64,
        b.spec_worker_id() as u64,
    );
}

} // verus!
