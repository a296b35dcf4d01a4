use vstd::prelude::*;

pub mod ringbuffer;

verus! {

/// A small demonstration value: two integer components that are always set
/// to the same number before being summed up.
#[derive(Clone, Copy)]
struct Pair {
    l: i32,
    r: i32,
}

/// Builds the pairs `(num, num), (num + 1, num + 1), ..., (num + 20, num + 20)`
/// and adds up all their components, which comes to `42 * num + 420`.
///
/// The bounds on `num` are exactly those for which every intermediate `i32`
/// sum stays in range.
pub fn bumsti(num: i32) -> (sum: i32)
    requires
        -51130573 <= num <= 51130553,
    ensures
        sum == 42 * num + 420,
{
    let mut v: Vec<Pair> = Vec::new();

    let mut i: i32 = num;
    while i < num + 21
        invariant
            -51130573 <= num <= 51130553,
            num <= i <= num + 21,
            i - num == v@.len(),
            forall|k: int| 0 <= k < v@.len() ==> v@[k].l == num + k && v@[k].r == num + k,
        decreases num + 21 - i,
    {
        let p = Pair { l: i, r: i };
        v.push(p);
        i = i + 1;
    }

    let mut sum: i32 = 0;
    let mut j: usize = 0;
    proof {
        assert(2 * 0 * num + 0 * (0 - 1) == 0) by (nonlinear_arith);
    }
    while j < v.len()
        invariant
            -51130573 <= num <= 51130553,
            v@.len() == 21,
            forall|k: int| 0 <= k < 21 ==> v@[k].l == num + k && v@[k].r == num + k,
            j <= 21,
            sum == 2 * (j as int) * num + (j as int) * ((j as int) - 1),
        decreases v@.len() - j,
    {
        let pp = v[j];
        proof {
            let jj: int = j as int;
            assert(2 * (jj + 1) * num + (jj + 1) * jj == 2 * jj * num + jj * (jj - 1) + 2 * (
            num + jj)) by (nonlinear_arith);
            assert(i32::MIN <= 2 * (jj + 1) * num + (jj + 1) * jj <= i32::MAX)
                by (nonlinear_arith)
                requires
                    0 <= jj <= 20,
                    -51130573 <= num <= 51130553,
            ;
        }
        sum = sum + (pp.l + pp.r);
        j = j + 1;
    }

    proof {
        assert(2 * 21 * num + 21 * (21 - 1) == 42 * num + 420) by (nonlinear_arith);
    }
    sum
}

} // verus!
