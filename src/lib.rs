// Time-ordered 64-bit identifiers: 41 bits of milliseconds since a custom epoch,
// 10 bits of worker id and 12 bits of sequence, with the sign bit clear.
//
// `common` holds the generator's state machine, `decompose` reads an identifier back.

pub mod common;
pub mod decompose;
