use vstd::prelude::*;

verus! {

/// The six face neighbours of a cell, as offsets.
pub open spec fn von_neumann3_offsets() -> Seq<(i32, i32, i32)> {
    seq![(1i32, 0i32, 0i32), (-1i32, 0i32, 0i32), (0i32, 1i32, 0i32), (0i32, -1i32, 0i32), (0i32, 0i32, 1i32), (0i32, 0i32, -1i32)]
}

/// The offsets of the six face neighbours of a cell: one step along each
/// axis in each direction.
pub fn von_neumann3() -> (offsets: [(i32, i32, i32); 6])
    ensures
        offsets@ == von_neumann3_offsets(),
{
    let offsets = [(1, 0, 0), (-1, 0, 0), (0, 1, 0), (0, -1, 0), (0, 0, 1), (0, 0, -1)];
    assert(offsets@ =~= von_neumann3_offsets());
    offsets
}

} // verus!
