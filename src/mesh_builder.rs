//! The input checks of the mesh builder: which triangles a set of raw
//! positions and indices describes.
use vstd::prelude::*;

verus! {

/// What the builder reports when its input is incomplete.
#[derive(Debug)]
pub enum Error {
    NoPositionsSpecified { message: String },
}

/// The indices `0, 1, ..., n - 1`.
pub open spec fn identity_indices(n: nat) -> Seq<u32> {
    Seq::new(n, |i: int| i as u32)
}

/// The index list a builder works from: the given indices when there are any,
/// else one index per vertex in order, three coordinates making one vertex.
/// Fails when no positions were given.
pub fn resolve_indices(indices: Option<Vec<u32>>, positions_len: Option<usize>) -> (r: Result<
    Vec<u32>,
    Error,
>)
    requires
        positions_len is Some ==> positions_len.unwrap() / 3 <= u32::MAX,
    ensures
        r is Err <==> positions_len is None,
        r matches Err(Error::NoPositionsSpecified { message }) ==> message@
            == "Did you forget to specify the vertex positions?"@,
        r is Ok ==> (match indices {
            Some(v) => r.unwrap()@ == v@,
            None => r.unwrap()@ == identity_indices((positions_len.unwrap() / 3) as nat),
        }),
{
    let n = match positions_len {
        Some(n) => n,
        None => {
            let message = "Did you forget to specify the vertex positions?".to_owned();
            return Err(Error::NoPositionsSpecified { message });
        },
    };
    match indices {
        Some(v) => Ok(v),
        None => {
            let count = n / 3;
            let mut r: Vec<u32> = Vec::with_capacity(count);
            let mut i: usize = 0;
            while i < count
                invariant
                    count <= u32::MAX,
                    i <= count,
                    r@ == identity_indices(i as nat),
                decreases count - i,
            {
                r.push(i as u32);
                i = i + 1;
                assert(r@ =~= identity_indices(i as nat));
            }
            Ok(r)
        },
    }
}

/// The two triangles of the quad between ring `i` and ring `i + 1` at angle
/// step `j`, on rings of `a` vertices each.
pub open spec fn cylinder_quad(a: int, i: int, j: int) -> Seq<u32> {
    let k = (j + 1) % a;
    seq![
        (i * a + j) as u32,
        (i * a + k) as u32,
        ((i + 1) * a + k) as u32,
        (i * a + j) as u32,
        ((i + 1) * a + k) as u32,
        ((i + 1) * a + j) as u32,
    ]
}

/// The quads of ring `i` for the first `j` angle steps.
pub open spec fn cylinder_ring(a: int, i: int, j: nat) -> Seq<u32>
    decreases j,
{
    if j == 0 {
        Seq::empty()
    } else {
        cylinder_ring(a, i, (j - 1) as nat) + cylinder_quad(a, i, j - 1)
    }
}

/// The triangles of the first `i` rings of a cylinder with `a` angle steps.
pub open spec fn cylinder_rings(a: nat, i: nat) -> Seq<u32>
    decreases i,
{
    if i == 0 {
        Seq::empty()
    } else {
        cylinder_rings(a, (i - 1) as nat) + cylinder_ring(a as int, i - 1, a)
    }
}

/// Triangle indices of a cylinder of `x_subdivisions` segments along its
/// axis and `angle_subdivisions` vertices around: two triangles per quad,
/// with vertex `i * angle_subdivisions + j` at ring `i`, angle step `j`.
pub fn cylinder_indices(x_subdivisions: u32, angle_subdivisions: u32) -> (r: Vec<u32>)
    requires
        (x_subdivisions + 1) * angle_subdivisions <= u32::MAX,
    ensures
        r@ == cylinder_rings(angle_subdivisions as nat, x_subdivisions as nat),
{
    let a = angle_subdivisions;
    let mut r: Vec<u32> = Vec::new();
    let mut i: u32 = 0;
    while i < x_subdivisions
        invariant
            (x_subdivisions + 1) * a <= u32::MAX,
            i <= x_subdivisions,
            r@ == cylinder_rings(a as nat, i as nat),
        decreases x_subdivisions - i,
    {
        let ghost start = r@;
        assert((i + 2) * a <= (x_subdivisions + 1) * a) by (nonlinear_arith)
            requires
                i < x_subdivisions,
        ;
        let mut j: u32 = 0;
        while j < a
            invariant
                (x_subdivisions + 1) * a <= u32::MAX,
                (i + 2) * a <= u32::MAX,
                i < x_subdivisions,
                j <= a,
                r@ == start + cylinder_ring(a as int, i as int, j as nat),
                start == cylinder_rings(a as nat, i as nat),
            decreases a - j,
        {
            let ghost before = r@;
            assert((i + 1) * a + a <= u32::MAX) by (nonlinear_arith)
                requires
                    (i + 2) * a <= u32::MAX,
            ;
            assert(i * a + a == (i + 1) * a) by (nonlinear_arith);
            let k = (j + 1) % a;
            let lo = i * a;
            let hi = (i + 1) * a;
            r.push(lo + j);
            r.push(lo + k);
            r.push(hi + k);
            r.push(lo + j);
            r.push(hi + k);
            r.push(hi + j);
            proof {
                assert(lo + j == i * a + j);
                assert(r@ =~= before + cylinder_quad(a as int, i as int, j as int));
                assert(cylinder_ring(a as int, i as int, (j + 1) as nat) == cylinder_ring(a as int, i as int, j as nat)
                    + cylinder_quad(a as int, i as int, j as int));
                assert(r@ =~= start + cylinder_ring(a as int, i as int, (j + 1) as nat));
            }
            j = j + 1;
        }
        proof {
            assert(r@ =~= cylinder_rings(a as nat, (i + 1) as nat));
        }
        i = i + 1;
    }
    r
}

} // verus!
