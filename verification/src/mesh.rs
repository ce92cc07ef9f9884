use vstd::prelude::*;

verus! {

/// The number of corners of the cube drawn for every point.
pub const CUBE_VERTEX_COUNT: u16 = 8;

/// The cube's triangles, three corner indices each, two per face:
/// front, right, back, left, top, bottom.
pub open spec fn cube_index_list() -> Seq<u16> {
    seq![
        0, 1, 2, 2, 3, 0,
        1, 5, 6, 6, 2, 1,
        5, 4, 7, 7, 6, 5,
        4, 0, 3, 3, 7, 4,
        3, 2, 6, 6, 7, 3,
        4, 5, 1, 1, 0, 4,
    ]
}

/// The cube's index list.
pub fn cube_indices() -> (indices: Vec<u16>)
    ensures
        indices@ == cube_index_list(),
{
    let indices: Vec<u16> = vec![
        0, 1, 2, 2, 3, 0,
        1, 5, 6, 6, 2, 1,
        5, 4, 7, 7, 6, 5,
        4, 0, 3, 3, 7, 4,
        3, 2, 6, 6, 7, 3,
        4, 5, 1, 1, 0, 4,
    ];
    assert(indices@ =~= cube_index_list());
    indices
}

/// The number of indices drawn per cube.
pub fn cube_index_count() -> (n: u32)
    ensures
        n == cube_index_list().len(),
{
    36
}

/// The `t`-th triangle of an index list uses three different corners.
pub open spec fn triangle_is_proper(indices: Seq<u16>, t: int) -> bool {
    let a = indices[3 * t];
    let b = indices[3 * t + 1];
    let c = indices[3 * t + 2];
    a != b && b != c && a != c
}

/// Every index names a corner of the cube, the list is whole triangles, no
/// triangle repeats a corner, and every corner is used.
pub proof fn lemma_cube_indices_well_formed()
    ensures
        cube_index_list().len() == 36,
        cube_index_list().len() % 3 == 0,
        forall|i: int| 0 <= i < cube_index_list().len() ==> #[trigger] cube_index_list()[i] < CUBE_VERTEX_COUNT,
        forall|t: int| 0 <= t < cube_index_list().len() / 3 ==> #[trigger] triangle_is_proper(cube_index_list(), t),
        forall|v: u16| v < CUBE_VERTEX_COUNT ==> #[trigger] cube_index_list().contains(v),
{
    let l = cube_index_list();
    assert(l.len() == 36);
    assert forall|t: int| 0 <= t < l.len() / 3 implies #[trigger] triangle_is_proper(l, t) by {
        assert(0 <= t < 12);
        if t == 0 {} else if t == 1 {} else if t == 2 {} else if t == 3 {} else if t == 4 {}
        else if t == 5 {} else if t == 6 {} else if t == 7 {} else if t == 8 {} else if t == 9 {}
        else if t == 10 {} else {}
    }
    assert forall|v: u16| v < CUBE_VERTEX_COUNT implies #[trigger] l.contains(v) by {
        if v == 0 { assert(l[0] == v); }
        else if v == 1 { assert(l[1] == v); }
        else if v == 2 { assert(l[2] == v); }
        else if v == 3 { assert(l[4] == v); }
        else if v == 4 { assert(l[13] == v); }
        else if v == 5 { assert(l[7] == v); }
        else if v == 6 { assert(l[8] == v); }
        else { assert(l[14] == v); }
    }
}

/// The bytes of 16-bit values laid out least significant byte first.
pub open spec fn little_endian_u16s(values: Seq<u16>, bytes: Seq<u8>) -> bool {
    &&& bytes.len() == 2 * values.len()
    &&& forall|i: int| 0 <= i < values.len() ==>
            #[trigger] values[i] == bytes[2 * i] + 256 * bytes[2 * i + 1]
}

/// The bytes of 16-bit values laid out most significant byte first.
pub open spec fn big_endian_u16s(values: Seq<u16>, bytes: Seq<u8>) -> bool {
    &&& bytes.len() == 2 * values.len()
    &&& forall|i: int| 0 <= i < values.len() ==>
            #[trigger] values[i] == 256 * bytes[2 * i] + bytes[2 * i + 1]
}

/// `bytemuck::cast_slice` from `u16` to `u8`: the memory of the values, two
/// bytes each in the machine's byte order. Which order that is depends on the
/// machine, so the contract says only that it is one of the two throughout.
#[verifier::external_body]
fn cast_u16s_to_bytes(values: &[u16]) -> (bytes: Vec<u8>)
    ensures
        little_endian_u16s(values@, bytes@) || big_endian_u16s(values@, bytes@),
{
    bytemuck::cast_slice::<u16, u8>(values).to_vec()
}

/// The contents of the index buffer: the cube's indices in the machine's byte order.
pub fn cube_index_bytes() -> (bytes: Vec<u8>)
    ensures
        little_endian_u16s(cube_index_list(), bytes@) || big_endian_u16s(cube_index_list(), bytes@),
        bytes@.len() == 72,
{
    let indices = cube_indices();
    cast_u16s_to_bytes(indices.as_slice())
}

/// The corners of the cube, by index, as the signs of their coordinates
/// (the vertex data puts corner `i` at a quarter unit times these):
/// 0..3 go round the front face (z = +1) from the lower left, counter-clockwise
/// seen from the front; 4..7 are the corners behind them (z = -1).
pub open spec fn corner(i: int) -> (int, int, int) {
    if i == 0 { (-1, -1, 1) }
    else if i == 1 { (1, -1, 1) }
    else if i == 2 { (1, 1, 1) }
    else if i == 3 { (-1, 1, 1) }
    else if i == 4 { (-1, -1, -1) }
    else if i == 5 { (1, -1, -1) }
    else if i == 6 { (1, 1, -1) }
    else { (-1, 1, -1) }
}

/// The triangle of corners `i`, `j`, `k` turns counter-clockwise seen from
/// outside the cube: its normal `(b - a) x (c - a)` points away from the
/// centre, through the triangle's first corner.
pub open spec fn turns_outward(i: int, j: int, k: int) -> bool {
    let a = corner(i);
    let b = corner(j);
    let c = corner(k);
    let ux = b.0 - a.0;
    let uy = b.1 - a.1;
    let uz = b.2 - a.2;
    let vx = c.0 - a.0;
    let vy = c.1 - a.1;
    let vz = c.2 - a.2;
    (uy * vz - uz * vy) * a.0 + (uz * vx - ux * vz) * a.1 + (ux * vy - uy * vx) * a.2 > 0
}

/// The `t`-th triangle of an index list turns counter-clockwise seen from outside.
pub open spec fn faces_outward(indices: Seq<u16>, t: int) -> bool {
    turns_outward(indices[3 * t] as int, indices[3 * t + 1] as int, indices[3 * t + 2] as int)
}

/// With back faces culled and counter-clockwise triangles in front, every
/// triangle of the cube is seen from outside and hidden from inside.
pub proof fn lemma_cube_triangles_face_outward()
    ensures
        forall|t: int| 0 <= t < 12 ==> #[trigger] faces_outward(cube_index_list(), t),
{
    let l = cube_index_list();
    assert(turns_outward(0, 1, 2)) by (nonlinear_arith);
    assert(turns_outward(2, 3, 0)) by (nonlinear_arith);
    assert(turns_outward(1, 5, 6)) by (nonlinear_arith);
    assert(turns_outward(6, 2, 1)) by (nonlinear_arith);
    assert(turns_outward(5, 4, 7)) by (nonlinear_arith);
    assert(turns_outward(7, 6, 5)) by (nonlinear_arith);
    assert(turns_outward(4, 0, 3)) by (nonlinear_arith);
    assert(turns_outward(3, 7, 4)) by (nonlinear_arith);
    assert(turns_outward(3, 2, 6)) by (nonlinear_arith);
    assert(turns_outward(6, 7, 3)) by (nonlinear_arith);
    assert(turns_outward(4, 5, 1)) by (nonlinear_arith);
    assert(turns_outward(1, 0, 4)) by (nonlinear_arith);
    assert forall|t: int| 0 <= t < 12 implies #[trigger] faces_outward(l, t) by {
        assert(l.len() == 36);
        if t == 0 { assert(l[0] == 0 && l[1] == 1 && l[2] == 2); }
        else if t == 1 { assert(l[3] == 2 && l[4] == 3 && l[5] == 0); }
        else if t == 2 { assert(l[6] == 1 && l[7] == 5 && l[8] == 6); }
        else if t == 3 { assert(l[9] == 6 && l[10] == 2 && l[11] == 1); }
        else if t == 4 { assert(l[12] == 5 && l[13] == 4 && l[14] == 7); }
        else if t == 5 { assert(l[15] == 7 && l[16] == 6 && l[17] == 5); }
        else if t == 6 { assert(l[18] == 4 && l[19] == 0 && l[20] == 3); }
        else if t == 7 { assert(l[21] == 3 && l[22] == 7 && l[23] == 4); }
        else if t == 8 { assert(l[24] == 3 && l[25] == 2 && l[26] == 6); }
        else if t == 9 { assert(l[27] == 6 && l[28] == 7 && l[29] == 3); }
        else if t == 10 { assert(l[30] == 4 && l[31] == 5 && l[32] == 1); }
        else { assert(l[33] == 1 && l[34] == 0 && l[35] == 4); }
    }
}

} // verus!
