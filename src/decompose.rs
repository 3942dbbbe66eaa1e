use vstd::prelude::*;

verus! {

/// The fields recovered from an identifier.
#[derive(Debug, Clone, Copy, PartialEq, Eq, Structural)]
pub struct SnowflakeDecomposed {
    /// Milliseconds since the Unix epoch at which the identifier was issued.
    pub timestamp: i64,
    /// The worker that issued the identifier.
    pub worker_id: u16,
    /// The position of the identifier within its millisecond.
    pub sequence: u16,
}

/// Why an identifier could not be decomposed.
#[derive(Debug, Clone, Copy, PartialEq, Eq, Structural)]
pub enum SnowflakeDecomposeError {
    /// The sign bit of the identifier is set.
    SignBitError,
}

/// The timestamp field of an identifier: the bits above the worker and sequence fields.
pub open spec fn timestamp_field(id: int) -> int {
    id / 0x40_0000
}

/// The ten-bit worker field of an identifier.
pub open spec fn worker_field(id: int) -> int {
    (id / 0x1000) % 0x400
}

/// The twelve-bit sequence field of an identifier.
pub open spec fn sequence_field(id: int) -> int {
    id % 0x1000
}

/// Splits `id` into its fields, reading the timestamp field relative to `epoch`.
pub fn decompose_snowflake(id: i64, epoch: i64) -> (r: Result<SnowflakeDecomposed, SnowflakeDecomposeError>)
    requires
        id >= 0 ==> i64::MIN <= timestamp_field(id as int) + epoch <= i64::MAX,
    ensures
        id < 0 ==> r == Err::<SnowflakeDecomposed, SnowflakeDecomposeError>(
            SnowflakeDecomposeError::SignBitError,
        ),
        id >= 0 ==> (r matches Ok(d) && d.timestamp == timestamp_field(id as int) + epoch
            && d.worker_id == worker_field(id as int) && d.sequence == sequence_field(id as int)),
{
    if id < 0 {
        return Err(SnowflakeDecomposeError::SignBitError);
    }
    let u = id as u64;
    let ts = u >> 22u64;
    let worker = (u >> 12u64) & 0x3FF;
    let seq = u & 0xFFF;
    assert(ts == u / 0x40_0000 && worker == (u / 0x1000) % 0x400 && seq == u % 0x1000)
        by (bit_vector)
        requires
            ts == u >> 22u64,
            worker == (u >> 12u64) & 0x3FF,
            seq == u & 0xFFF,
    ;
    Ok(SnowflakeDecomposed {
        timestamp: ts as i64 + epoch,
        worker_id: worker as u16,
        sequence: seq as u16,
    })
}

} // verus!
