//! The flash smoke test of the diagnostic firmware: where it writes, and
//! how it judges the read-back.

use vstd::prelude::*;

verus! {

/// Offset of the scratch region in the flash: past the end of the
/// application, near where the keyboard firmware keeps its storage.
pub const STORAGE_OFFSET: u32 = 0x3f_0000;

/// Size of one erasable flash sector.
pub const SECTOR_SIZE: u32 = 0x1000;

/// Number of bytes written and read back by the smoke test.
pub const PROBE_LEN: usize = 32;

/// The byte written all over the probe buffer.
pub const PROBE_FILL: u8 = 0xAA;

/// The outcome of reading back what was written.
#[derive(Clone, Copy, Debug, PartialEq, Eq, Structural)]
pub enum ReadBack {
    /// The read succeeded and returned exactly the bytes written.
    Verified,
    /// The read succeeded but returned other bytes.
    Mismatch,
    /// The read itself failed.
    ReadError,
}

/// The sector erased before the write: `[STORAGE_OFFSET, STORAGE_OFFSET +
/// SECTOR_SIZE)`.
pub fn erase_range() -> (r: (u32, u32))
    ensures
        r.0 == STORAGE_OFFSET,
        r.1 == STORAGE_OFFSET + SECTOR_SIZE,
        r.0 < r.1,
{
    (STORAGE_OFFSET, STORAGE_OFFSET + SECTOR_SIZE)
}

/// Judges a read-back: `read_ok` tells whether the read succeeded, `read`
/// is what it returned and `written` what was written before.
pub fn readback_verdict(read_ok: bool, written: &[u8], read: &[u8]) -> (v: ReadBack)
    ensures
        v == (if !read_ok {
            ReadBack::ReadError
        } else if read@ == written@ {
            ReadBack::Verified
        } else {
            ReadBack::Mismatch
        }),
{
    if !read_ok {
        return ReadBack::ReadError;
    }
    if read.len() != written.len() {
        return ReadBack::Mismatch;
    }
    let mut i: usize = 0;
    while i < read.len()
        invariant
            read_ok,
            read@.len() == written@.len(),
            i <= read@.len(),
            forall|j: int| 0 <= j < i ==> read@[j] == written@[j],
        decreases read@.len() - i,
    {
        if read[i] != written[i] {
            assert(read@[i as int] != written@[i as int]);
            return ReadBack::Mismatch;
        }
        i = i + 1;
    }
    assert(read@ =~= written@);
    ReadBack::Verified
}

} // verus!
