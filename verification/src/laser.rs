//! Mesh indices for the laser beam's cuboid, two triangles per face.

use vstd::prelude::*;

verus! {

/// The index list `get_indices` returns: the faces of the cuboid in the
/// order near, far, top, bottom, right, left.
pub open spec fn laser_indices() -> Seq<u32> {
    seq![
        0u32, 1, 2, 0, 2, 3,
        4, 7, 6, 4, 6, 5,
        3, 2, 6, 3, 6, 7,
        0, 4, 5, 0, 5, 1,
        1, 5, 6, 1, 5, 2,
        4, 0, 3, 4, 3, 7,
    ]
}

/// The triangle indices of the laser's cuboid mesh.
pub fn get_indices() -> (r: Vec<u32>)
    ensures
        r@ == laser_indices(),
{
    let v: Vec<u32> = vec![
        0, 1, 2, 0, 2, 3, // near face triangles
        4, 7, 6, 4, 6, 5, // far face triangles
        3, 2, 6, 3, 6, 7, // top face triangles
        0, 4, 5, 0, 5, 1, // bottom face triangles
        1, 5, 6, 1, 5, 2, // right face triangles
        4, 0, 3, 4, 3, 7, // left face triangles
    ];
    proof {
        assert(v@ =~= laser_indices());
    }
    v
}

} // verus!
