//! Waveform lookup tables of the panel controller.

use vstd::prelude::*;

verus! {

/// Number of bytes in a waveform table: 35 phase-voltage codes, then 35
/// phase-duration and repeat codes.
pub const LUT_LEN: usize = 70;

/// The waveform table of the black profile, as a sequence.
pub open spec fn lut_black_table() -> Seq<u8> {
    seq![
        0x48u8, 0xA0, 0x10, 0x10, 0x13, 0x00, 0x00,
        0x48, 0xA0, 0x80, 0x00, 0x03, 0x00, 0x00,
        0x00, 0x00, 0x00, 0x00, 0x00, 0x00, 0x00,
        0x48, 0xA5, 0x00, 0xBB, 0x00, 0x00, 0x00,
        0x00, 0x00, 0x00, 0x00, 0x00, 0x00, 0x00,
        0x10, 0x04, 0x04, 0x04, 0x04,
        0x10, 0x04, 0x04, 0x04, 0x04,
        0x04, 0x08, 0x08, 0x10, 0x10,
        0x00, 0x00, 0x00, 0x00, 0x00,
        0x00, 0x00, 0x00, 0x00, 0x00,
        0x00, 0x00, 0x00, 0x00, 0x00,
        0x00, 0x00, 0x00, 0x00, 0x00,
    ]
}

/// The waveform table of the black profile.
pub fn lut_black() -> (table: Vec<u8>)
    ensures
        table@ == lut_black_table(),
        table@.len() == LUT_LEN,
{
    let table: Vec<u8> = vec![
        0x48u8, 0xA0, 0x10, 0x10, 0x13, 0x00, 0x00,
        0x48, 0xA0, 0x80, 0x00, 0x03, 0x00, 0x00,
        0x00, 0x00, 0x00, 0x00, 0x00, 0x00, 0x00,
        0x48, 0xA5, 0x00, 0xBB, 0x00, 0x00, 0x00,
        0x00, 0x00, 0x00, 0x00, 0x00, 0x00, 0x00,
        0x10, 0x04, 0x04, 0x04, 0x04,
        0x10, 0x04, 0x04, 0x04, 0x04,
        0x04, 0x08, 0x08, 0x10, 0x10,
        0x00, 0x00, 0x00, 0x00, 0x00,
        0x00, 0x00, 0x00, 0x00, 0x00,
        0x00, 0x00, 0x00, 0x00, 0x00,
        0x00, 0x00, 0x00, 0x00, 0x00,
    ];
    assert(table@ =~= lut_black_table());
    table
}

} // verus!
