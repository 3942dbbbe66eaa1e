use vstd::prelude::*;
use vstd::arithmetic::div_mod::{lemma_fundamental_div_mod_converse, lemma_small_mod};

use crate::decompose::{
    decompose_snowflake, sequence_field, timestamp_field, worker_field, SnowflakeDecomposeError,
};

pub use crate::decompose::SnowflakeDecomposed;

verus! {

/// Largest worker id that fits the ten-bit worker field.
pub const MAX_WORKER_ID: u16 = 0x3FF;

/// Largest sequence number that fits the twelve-bit sequence field.
pub const MAX_SEQUENCE: u16 = 0xFFF;

/// One past the largest value of the 41-bit timestamp field.
pub open spec fn timestamp_limit() -> int {
    0x200_0000_0000
}

/// The identifier laid out from an elapsed time, a worker and a sequence number:
/// the low 41 bits of `elapsed`, then ten bits of worker, then twelve of sequence.
pub open spec fn snowflake_id(elapsed: int, worker_id: int, sequence: int) -> int {
    (elapsed % timestamp_limit()) * 0x40_0000 + worker_id * 0x1000 + sequence
}

/// Why a generator could not be constructed.
#[derive(Debug, Clone, Copy, PartialEq, Eq, Structural)]
pub enum SnowflakeError {
    /// The worker id is above 1023.
    WorkerIdOutOfRange,
    /// The epoch lies after the current wall-clock time.
    EpochInFuture,
    /// The wall clock reads a time before the Unix epoch.
    TimeBeforeUnixEpoch,
}

/// The state of one identifier generator.
///
/// Time is handed in as plain readings: the wall-clock time taken once at
/// construction, and afterwards the milliseconds elapsed on a monotonic clock
/// started at that same instant.
pub struct SnowflakeState {
    /// Milliseconds since `epoch` of the most recent identifier (or of construction).
    pub time_since_epoch: i64,
    /// The worker id, 0 to 1023.
    pub worker_id: u16,
    /// How many identifiers were issued in the millisecond `time_since_epoch`.
    pub sequence: u16,
    /// The custom epoch, in milliseconds since the Unix epoch.
    pub epoch: i64,
    /// The wall-clock reading at construction, in milliseconds since the Unix epoch.
    pub instant_timestamp: i64,
}

/// The state right after construction at wall-clock time `now`.
pub open spec fn initial_state(epoch: i64, worker_id: u16, now: i64) -> SnowflakeState {
    SnowflakeState {
        time_since_epoch: (now - epoch) as i64,
        worker_id,
        sequence: 0,
        epoch,
        instant_timestamp: now,
    }
}

/// Decomposing an identifier gives back the worker and sequence it was laid out
/// from, and the low 41 bits of its elapsed time: the elapsed time itself whenever
/// it fits the timestamp field. Every such identifier is non-negative and fits `i64`.
pub proof fn lemma_round_trip(elapsed: int, worker_id: int, sequence: int)
    requires
        0 <= elapsed,
        0 <= worker_id <= MAX_WORKER_ID,
        0 <= sequence <= MAX_SEQUENCE,
    ensures
        0 <= snowflake_id(elapsed, worker_id, sequence) <= i64::MAX,
        timestamp_field(snowflake_id(elapsed, worker_id, sequence)) == elapsed % timestamp_limit(),
        elapsed < timestamp_limit() ==> timestamp_field(snowflake_id(elapsed, worker_id, sequence))
            == elapsed,
        worker_field(snowflake_id(elapsed, worker_id, sequence)) == worker_id,
        sequence_field(snowflake_id(elapsed, worker_id, sequence)) == sequence,
{
    let id = snowflake_id(elapsed, worker_id, sequence);
    let a = elapsed % timestamp_limit();
    let low = worker_id * 0x1000 + sequence;
    lemma_fundamental_div_mod_converse(id, 0x40_0000, a, low);
    lemma_fundamental_div_mod_converse(id, 0x1000, a * 0x400 + worker_id, sequence);
    lemma_fundamental_div_mod_converse(a * 0x400 + worker_id, 0x400, a, worker_id);
    if elapsed < timestamp_limit() {
        lemma_small_mod(elapsed as nat, timestamp_limit() as nat);
    }
}

/// A generator built from a valid worker id and an epoch no later than the clock
/// is well formed, and its first call issues an identifier whose worker field is
/// that worker id.
pub proof fn lemma_first_id_keeps_worker(epoch: i64, worker_id: u16, now: i64, elapsed_ms: nat)
    requires
        worker_id <= MAX_WORKER_ID,
        0 <= now,
        epoch <= now,
        now - epoch <= i64::MAX,
        initial_state(epoch, worker_id, now).current_elapsed(elapsed_ms as int) <= i64::MAX,
    ensures
        initial_state(epoch, worker_id, now).wf(),
        initial_state(epoch, worker_id, now).issued(elapsed_ms as int) matches Some(id) && 0 <= id
            <= i64::MAX && worker_field(id) == worker_id,
{
    let st = initial_state(epoch, worker_id, now);
    if st.advances(elapsed_ms as int) {
        lemma_round_trip(st.current_elapsed(elapsed_ms as int), worker_id as int, 0);
    } else {
        lemma_round_trip(st.time_since_epoch as int, worker_id as int, 0);
    }
}

/// Of two successive calls on one generator that both issue an identifier, the
/// second issues the larger one, as long as the generator's time stays within the
/// 41-bit timestamp field.
pub proof fn lemma_ids_strictly_increase(st: SnowflakeState, first_ms: nat, second_ms: nat)
    requires
        st.wf(),
        st.current_elapsed(first_ms as int) <= i64::MAX,
        st.next_state(first_ms as int).current_elapsed(second_ms as int) <= i64::MAX,
        st.issued(first_ms as int) is Some,
        st.next_state(first_ms as int).issued(second_ms as int) is Some,
        st.next_state(first_ms as int).next_state(second_ms as int).time_since_epoch
            < timestamp_limit(),
    ensures
        st.issued(first_ms as int).unwrap() < st.next_state(first_ms as int).issued(
            second_ms as int,
        ).unwrap(),
{
    let mid = st.next_state(first_ms as int);
    let last = mid.next_state(second_ms as int);
    let w = st.worker_id as int;
    let t1 = mid.time_since_epoch as int;
    let t2 = last.time_since_epoch as int;
    lemma_small_mod(t1 as nat, timestamp_limit() as nat);
    lemma_small_mod(t2 as nat, timestamp_limit() as nat);
    assert(st.issued(first_ms as int) == Some(snowflake_id(t1, w, mid.sequence - 1)));
    assert(mid.issued(second_ms as int) == Some(snowflake_id(t2, w, last.sequence - 1)));
}

/// The state after one call at each of the monotonic readings `readings`, in order.
pub open spec fn run_state(st: SnowflakeState, readings: Seq<int>) -> SnowflakeState
    decreases readings.len(),
{
    if readings.len() == 0 {
        st
    } else {
        run_state(st, readings.drop_last()).next_state(readings.last())
    }
}

/// The identifiers issued by one call at each of the monotonic readings `readings`,
/// in the order they were issued.
pub open spec fn run_ids(st: SnowflakeState, readings: Seq<int>) -> Seq<int>
    decreases readings.len(),
{
    if readings.len() == 0 {
        Seq::empty()
    } else {
        let before = run_ids(st, readings.drop_last());
        match run_state(st, readings.drop_last()).issued(readings.last()) {
            Some(id) => before.push(id),
            None => before,
        }
    }
}

/// Every call of a run stays within what `generate_id` admits.
pub open spec fn run_fits(st: SnowflakeState, readings: Seq<int>) -> bool {
    forall|i: int|
        0 <= i < readings.len() ==> #[trigger] run_state(st, readings.take(i)).current_elapsed(
            readings[i],
        ) <= i64::MAX
}

/// The identifier that a state would issue next if the clock has not moved.
spec fn next_key(st: SnowflakeState) -> int {
    st.time_since_epoch * 0x40_0000 + st.worker_id * 0x1000 + st.sequence
}

proof fn lemma_run_below_key(st: SnowflakeState, readings: Seq<int>)
    requires
        st.wf(),
        run_fits(st, readings),
        run_state(st, readings).time_since_epoch < timestamp_limit(),
    ensures
        run_state(st, readings).wf(),
        run_state(st, readings).worker_id == st.worker_id,
        st.time_since_epoch <= run_state(st, readings).time_since_epoch,
        forall|i: int, j: int|
            0 <= i < j < run_ids(st, readings).len() ==> run_ids(st, readings)[i] < run_ids(
                st,
                readings,
            )[j],
        forall|i: int|
            0 <= i < run_ids(st, readings).len() ==> run_ids(st, readings)[i] < next_key(
                run_state(st, readings),
            ),
    decreases readings.len(),
{
    if readings.len() > 0 {
        let pre = readings.drop_last();
        let x = readings.last();
        assert forall|i: int| 0 <= i < pre.len() implies #[trigger] run_state(
            st,
            pre.take(i),
        ).current_elapsed(pre[i]) <= i64::MAX by {
            assert(pre.take(i) =~= readings.take(i));
            assert(run_state(st, readings.take(i)).current_elapsed(readings[i]) <= i64::MAX);
        }
        assert(readings.take(pre.len() as int) =~= pre);
        assert(run_state(st, readings.take(pre.len() as int)).current_elapsed(
            readings[pre.len() as int],
        ) <= i64::MAX);
        let prev = run_state(st, pre);
        assert(prev.time_since_epoch <= prev.next_state(x).time_since_epoch);
        lemma_run_below_key(st, pre);
        let ids = run_ids(st, pre);
        let w = prev.worker_id as int;
        let t = prev.time_since_epoch as int;
        lemma_small_mod(t as nat, timestamp_limit() as nat);
        if prev.advances(x) {
            let cur = prev.current_elapsed(x);
            lemma_small_mod(cur as nat, timestamp_limit() as nat);
            assert(cur * 0x40_0000 >= t * 0x40_0000 + 0x40_0000);
            assert(next_key(prev) <= snowflake_id(cur, w, 0));
        }
        match prev.issued(x) {
            Some(id) => {
                assert(next_key(prev) <= id);
                assert(next_key(prev.next_state(x)) == id + 1);
                let all = ids.push(id);
                assert forall|i: int, j: int| 0 <= i < j < all.len() implies all[i] < all[j] by {
                    if j < ids.len() {
                        assert(ids[i] < ids[j]);
                    } else {
                        assert(ids[i] < next_key(prev));
                    }
                }
                assert forall|i: int| 0 <= i < all.len() implies all[i] < next_key(
                    prev.next_state(x),
                ) by {
                    if i < ids.len() {
                        assert(ids[i] < next_key(prev));
                    }
                }
            },
            None => {},
        }
    }
}

/// The calls of a run on one generator issue strictly increasing identifiers,
/// and so no identifier twice, as long as the generator's time stays within the
/// 41-bit timestamp field.
pub proof fn lemma_run_ids_strictly_increase(st: SnowflakeState, readings: Seq<int>)
    requires
        st.wf(),
        run_fits(st, readings),
        run_state(st, readings).time_since_epoch < timestamp_limit(),
    ensures
        forall|i: int, j: int|
            0 <= i < j < run_ids(st, readings).len() ==> run_ids(st, readings)[i] < run_ids(
                st,
                readings,
            )[j],
{
    lemma_run_below_key(st, readings);
}

impl SnowflakeState {
    /// The state's invariant.
    pub open spec fn wf(self) -> bool {
        &&& self.worker_id <= MAX_WORKER_ID
        &&& self.sequence <= MAX_SEQUENCE + 1
        &&& 0 <= self.instant_timestamp
        &&& self.epoch <= self.instant_timestamp
        &&& self.instant_timestamp - self.epoch <= self.time_since_epoch
    }

    /// Milliseconds since the epoch, given the monotonic milliseconds since construction.
    pub open spec fn current_elapsed(self, elapsed_ms: int) -> int {
        self.instant_timestamp - self.epoch + elapsed_ms
    }

    /// Whether the clock has moved past the millisecond of the last identifier.
    pub open spec fn advances(self, elapsed_ms: int) -> bool {
        self.current_elapsed(elapsed_ms) > self.time_since_epoch
    }

    /// The identifier issued on a call at monotonic reading `elapsed_ms`, or `None`
    /// when the current millisecond has no sequence number left.
    pub open spec fn issued(self, elapsed_ms: int) -> Option<int> {
        if self.advances(elapsed_ms) {
            Some(snowflake_id(self.current_elapsed(elapsed_ms), self.worker_id as int, 0))
        } else if self.sequence <= MAX_SEQUENCE {
            Some(snowflake_id(self.time_since_epoch as int, self.worker_id as int, self.sequence as int))
        } else {
            None
        }
    }

    /// The state after a call at monotonic reading `elapsed_ms`.
    pub open spec fn next_state(self, elapsed_ms: int) -> SnowflakeState {
        if self.advances(elapsed_ms) {
            SnowflakeState {
                time_since_epoch: self.current_elapsed(elapsed_ms) as i64,
                sequence: 1,
                ..self
            }
        } else if self.sequence <= MAX_SEQUENCE {
            SnowflakeState { sequence: (self.sequence + 1) as u16, ..self }
        } else {
            self
        }
    }

    /// Creates a generator for `worker_id` with the custom `epoch`.
    ///
    /// `now_ms` is the wall-clock time in milliseconds since the Unix epoch, or
    /// `None` where the clock cannot give one at or after the Unix epoch.
    pub fn new(epoch: i64, worker_id: u16, now_ms: Option<i64>) -> (r: Result<SnowflakeState, SnowflakeError>)
        requires
            now_ms matches Some(now) ==> now - epoch <= i64::MAX,
        ensures
            worker_id > MAX_WORKER_ID ==> r == Err::<SnowflakeState, SnowflakeError>(
                SnowflakeError::WorkerIdOutOfRange,
            ),
            worker_id <= MAX_WORKER_ID ==> r == (match now_ms {
                Some(now) => if now < 0 {
                    Err(SnowflakeError::TimeBeforeUnixEpoch)
                } else if now < epoch {
                    Err(SnowflakeError::EpochInFuture)
                } else {
                    Ok(initial_state(epoch, worker_id, now))
                },
                None => Err(SnowflakeError::TimeBeforeUnixEpoch),
            }),
            r matches Ok(s) ==> s.wf(),
    {
        if worker_id > MAX_WORKER_ID {
            return Err(SnowflakeError::WorkerIdOutOfRange);
        }
        let instant_timestamp = match now_ms {
            Some(now) if now >= 0 => now,
            _ => return Err(SnowflakeError::TimeBeforeUnixEpoch),
        };
        if instant_timestamp < epoch {
            return Err(SnowflakeError::EpochInFuture);
        }
        Ok(SnowflakeState {
            time_since_epoch: instant_timestamp - epoch,
            worker_id,
            sequence: 0,
            epoch,
            instant_timestamp,
        })
    }

    /// Lays out the current time, worker and sequence as an identifier.
    fn to_i64(&self) -> (r: i64)
        requires
            self.wf(),
            self.sequence <= MAX_SEQUENCE,
        ensures
            r == snowflake_id(self.time_since_epoch as int, self.worker_id as int, self.sequence as int),
    {
        let t = self.time_since_epoch as u64;
        let w = self.worker_id as u64;
        let s = self.sequence as u64;
        let id = ((t << 22u64) | (w << 12u64) | s) & 0x7FFF_FFFF_FFFF_FFFF;
        assert(id == (t % 0x200_0000_0000) * 0x40_0000 + w * 0x1000 + s) by (bit_vector)
            requires
                id == ((t << 22u64) | (w << 12u64) | s) & 0x7FFF_FFFF_FFFF_FFFF,
                w <= 0x3FF,
                s <= 0xFFF,
        ;
        id as i64
    }

    /// Milliseconds since the epoch, given the monotonic milliseconds since construction.
    pub fn get_time_since_epoch(&self, elapsed_ms: u64) -> (r: i64)
        requires
            self.wf(),
            self.current_elapsed(elapsed_ms as int) <= i64::MAX,
        ensures
            r == self.current_elapsed(elapsed_ms as int),
    {
        (self.instant_timestamp - self.epoch) + elapsed_ms as i64
    }

    /// Issues the next identifier, given the monotonic milliseconds since construction.
    /// A reading at or before the millisecond of the last identifier counts as that
    /// same millisecond, so the generator's time never goes back.
    ///
    /// Returns `None`, leaving the state as it was, when 4096 identifiers were already
    /// issued in the current millisecond: the caller then waits about a millisecond
    /// and calls again with a fresh reading.
    pub fn generate_id(&mut self, elapsed_ms: u64) -> (r: Option<i64>)
        requires
            old(self).wf(),
            old(self).current_elapsed(elapsed_ms as int) <= i64::MAX,
        ensures
            *final(self) == old(self).next_state(elapsed_ms as int),
            final(self).wf(),
            r is Some <==> old(self).issued(elapsed_ms as int) is Some,
            r matches Some(id) ==> old(self).issued(elapsed_ms as int) == Some(id as int),
    {
        let current_time = self.get_time_since_epoch(elapsed_ms);
        if current_time > self.time_since_epoch {
            self.time_since_epoch = current_time;
            self.sequence = 0;
        } else if self.sequence > MAX_SEQUENCE {
            return None;
        }
        let id = self.to_i64();
        self.sequence = self.sequence + 1;
        Some(id)
    }

    /// Splits an identifier issued by this generator into its fields.
    pub fn decompose(&self, id: i64) -> (r: Result<SnowflakeDecomposed, SnowflakeDecomposeError>)
        requires
            id >= 0 ==> i64::MIN <= timestamp_field(id as int) + self.epoch <= i64::MAX,
        ensures
            id < 0 ==> r == Err::<SnowflakeDecomposed, SnowflakeDecomposeError>(
                SnowflakeDecomposeError::SignBitError,
            ),
            id >= 0 ==> (r matches Ok(d) && d.timestamp == timestamp_field(id as int) + self.epoch
                && d.worker_id == worker_field(id as int) && d.sequence == sequence_field(
                id as int,
            )),
    {
        decompose_snowflake(id, self.epoch)
    }
}

} // verus!
