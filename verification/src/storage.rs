//! The sending of the bytes of a table to a remote store.

use vstd::prelude::*;

verus! {

/// The largest number of bytes that are sent in one part: 5 MiB.
pub const CHUNK_SIZE: usize = 5242880;

/// How the bytes of a table are sent.
#[derive(Debug, Clone, PartialEq, Eq)]
pub enum Upload {
    /// All at once.
    Whole,
    /// In parts, one after the other: a part is the bytes from its first index
    /// up to its second, which is not of the part.
    Parts(Vec<(usize, usize)>),
}

/// The number of parts that `len` bytes are sent in.
pub open spec fn spec_n_parts(len: nat) -> nat {
    ((len + 5242880 - 1) / 5242880) as nat
}

/// Part `i` of `len` bytes: 5 MiB from the end of the part before, or what is
/// left of the bytes.
pub open spec fn spec_part(len: nat, i: int) -> (usize, usize) {
    (
        (5242880 * i) as usize,
        if 5242880 * (i + 1) <= len {
            (5242880 * (i + 1)) as usize
        } else {
            len as usize
        },
    )
}

/// How `len` bytes are sent: all at once where they are no more than 5 MiB,
/// else in parts of 5 MiB, but the last, which may be smaller.
pub fn upload_plan(len: usize) -> (plan: Upload)
    ensures
        match plan {
            Upload::Whole => len <= 5242880,
            Upload::Parts(parts) => len > 5242880 && parts@ == Seq::new(
                spec_n_parts(len as nat),
                |i: int| spec_part(len as nat, i),
            ),
        },
{
    if len <= CHUNK_SIZE {
        return Upload::Whole;
    }
    let mut parts: Vec<(usize, usize)> = Vec::new();
    let mut start: usize = 0;
    while start < len
        invariant
            start <= len,
            start == 5242880 * parts@.len() || start == len,
            start == len ==> parts@.len() == spec_n_parts(len as nat),
            start < len ==> parts@.len() < spec_n_parts(len as nat),
            forall|i: int| 0 <= i < parts@.len() ==> #[trigger] parts@[i] == spec_part(len as nat, i),
        decreases len - start,
    {
        let end = if len - start > CHUNK_SIZE {
            start + CHUNK_SIZE
        } else {
            len
        };
        parts.push((start, end));
        start = end;
    }
    Upload::Parts(parts)
}

/// The parts follow one another from the first byte to the last, and none is
/// empty or larger than 5 MiB.
pub proof fn lemma_parts_cover(len: nat, i: int)
    requires
        len <= usize::MAX,
        0 <= i < spec_n_parts(len),
    ensures
        spec_part(len, i).0 < spec_part(len, i).1 <= len,
        spec_part(len, i).1 - spec_part(len, i).0 <= 5242880,
        i == 0 ==> spec_part(len, i).0 == 0,
        i + 1 < spec_n_parts(len) ==> spec_part(len, i).1 == spec_part(len, i + 1).0,
        i + 1 == spec_n_parts(len) ==> spec_part(len, i).1 == len,
{
}

} // verus!
