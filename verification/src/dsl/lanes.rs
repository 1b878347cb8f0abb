//! Positions in an array of several dimensions, and where they are when the last runs fastest.
use vstd::prelude::*;

verus! {

/// Whether all dimensions are numbers of elements.
pub open spec fn are_dims(dims: Seq<i32>) -> bool {
    forall|k: int| 0 <= k < dims.len() ==> #[trigger] dims[k] >= 0
}

/// The number of elements of an array.
pub open spec fn size_of(dims: Seq<i32>) -> int
    decreases dims.len(),
{
    if dims.len() == 0 {
        1
    } else {
        size_of(dims.drop_last()) * dims.last()
    }
}

/// The position of an element that is counted from the first.
pub open spec fn lane_of(dims: Seq<i32>, flat: int) -> Seq<int>
    decreases dims.len(),
{
    if dims.len() == 0 {
        Seq::empty()
    } else {
        lane_of(dims.drop_last(), flat / dims.last() as int).push(flat % dims.last() as int)
    }
}

/// Where a position is when elements are counted from the first.
pub open spec fn flat_of(dims: Seq<i32>, lane: Seq<int>) -> int
    decreases dims.len(),
{
    if dims.len() == 0 || lane.len() == 0 {
        0
    } else {
        flat_of(dims.drop_last(), lane.drop_last()) * dims.last() + lane.last()
    }
}

/// Whether a position is one of the array.
pub open spec fn inside(dims: Seq<i32>, lane: Seq<int>) -> bool {
    lane.len() == dims.len() && forall|k: int|
        0 <= k < dims.len() ==> 0 <= #[trigger] lane[k] < dims[k]
}

/// The number of elements is not negative.
pub proof fn size_is_a_count(dims: Seq<i32>)
    requires
        are_dims(dims),
    ensures
        size_of(dims) >= 0,
    decreases dims.len(),
{
    if dims.len() > 0 {
        let front = dims.drop_last();
        assert forall|k: int| 0 <= k < front.len() implies #[trigger] front[k] >= 0 by {
            assert(front[k] == dims[k]);
        }
        size_is_a_count(front);
        let last = dims.last() as int;
        assert(dims[dims.len() - 1] >= 0);
        assert(size_of(front) * last >= 0) by (nonlinear_arith)
            requires
                size_of(front) >= 0,
                last >= 0,
        ;
    }
}

/// An array without elements in one dimension has none.
pub proof fn empty_dim_empties(dims: Seq<i32>, at: int)
    requires
        0 <= at < dims.len(),
        dims[at] == 0,
    ensures
        size_of(dims) == 0,
    decreases dims.len(),
{
    if at < dims.len() - 1 {
        let front = dims.drop_last();
        assert(front[at] == dims[at]);
        empty_dim_empties(front, at);
        assert(0 * dims.last() == 0);
    } else {
        assert(size_of(dims.drop_last()) * 0 == 0);
    }
}

/// The elements of the first dimensions are no more than all, where none is empty.
pub proof fn front_is_no_larger(dims: Seq<i32>, count: int)
    requires
        0 <= count <= dims.len(),
        forall|k: int| 0 <= k < dims.len() ==> #[trigger] dims[k] >= 1,
    ensures
        1 <= size_of(dims.take(count)) <= size_of(dims),
    decreases dims.len(),
{
    if count == dims.len() {
        assert(dims.take(count) =~= dims);
        if dims.len() > 0 {
            let front = dims.drop_last();
            assert forall|k: int| 0 <= k < front.len() implies #[trigger] front[k] >= 1 by {
                assert(front[k] == dims[k]);
            }
            front_is_no_larger(front, front.len() as int);
            assert(front.take(front.len() as int) =~= front);
            let last = dims.last() as int;
            assert(dims[dims.len() - 1] >= 1);
            assert(size_of(front) * last >= 1) by (nonlinear_arith)
                requires
                    size_of(front) >= 1,
                    last >= 1,
            ;
        }
    } else {
        let front = dims.drop_last();
        assert forall|k: int| 0 <= k < front.len() implies #[trigger] front[k] >= 1 by {
            assert(front[k] == dims[k]);
        }
        front_is_no_larger(front, count);
        assert(front.take(count) =~= dims.take(count));
        let last = dims.last() as int;
        assert(dims[dims.len() - 1] >= 1);
        assert(size_of(front) <= size_of(front) * last) by (nonlinear_arith)
            requires
                size_of(front) >= 1,
                last >= 1,
        ;
    }
}

/// A position of the array is one of its elements.
pub proof fn position_is_an_element(dims: Seq<i32>, lane: Seq<int>)
    requires
        inside(dims, lane),
    ensures
        0 <= flat_of(dims, lane) < size_of(dims),
        lane_of(dims, flat_of(dims, lane)) == lane,
    decreases dims.len(),
{
    if dims.len() > 0 {
        let front = dims.drop_last();
        let rest = lane.drop_last();
        assert forall|k: int| 0 <= k < front.len() implies 0 <= #[trigger] rest[k] < front[k] by {
            assert(rest[k] == lane[k]);
        }
        position_is_an_element(front, rest);
        let d = dims.last() as int;
        let x = lane.last();
        let f = flat_of(front, rest);
        let s = size_of(front);
        assert(0 <= lane[dims.len() - 1] < dims[dims.len() - 1]);
        assert(0 <= f * d + x < s * d) by (nonlinear_arith)
            requires
                0 <= f < s,
                0 <= x < d,
        ;
        assert((f * d + x) / d == f && (f * d + x) % d == x) by {
            vstd::arithmetic::div_mod::lemma_fundamental_div_mod_converse(f * d + x, d, f, x);
        }
        assert(lane_of(dims, f * d + x) =~= lane_of(front, f).push(x));
        assert(rest.push(x) =~= lane);
    } else {
        assert(lane =~= Seq::empty());
    }
}

/// An element of the array has a position.
pub proof fn element_has_a_position(dims: Seq<i32>, flat: int)
    requires
        are_dims(dims),
        0 <= flat < size_of(dims),
    ensures
        inside(dims, lane_of(dims, flat)),
        flat_of(dims, lane_of(dims, flat)) == flat,
        forall|k: int| 0 <= k < dims.len() ==> #[trigger] dims[k] >= 1,
    decreases dims.len(),
{
    if dims.len() > 0 {
        let front = dims.drop_last();
        assert forall|k: int| 0 <= k < front.len() implies #[trigger] front[k] >= 0 by {
            assert(front[k] == dims[k]);
        }
        size_is_a_count(front);
        let d = dims.last() as int;
        let s = size_of(front);
        assert(dims[dims.len() - 1] >= 0);
        assert(d >= 1) by (nonlinear_arith)
            requires
                0 <= flat < s * d,
                d >= 0,
        ;
        let q = flat / d;
        let x = flat % d;
        vstd::arithmetic::div_mod::lemma_fundamental_div_mod(flat, d);
        vstd::arithmetic::div_mod::lemma_mod_bound(flat, d);
        assert(0 <= q < s) by (nonlinear_arith)
            requires
                flat == d * q + x,
                0 <= x < d,
                0 <= flat < s * d,
        ;
        element_has_a_position(front, q);
        let rest = lane_of(front, q);
        let lane = lane_of(dims, flat);
        assert(lane =~= rest.push(x));
        assert(lane.drop_last() =~= rest);
        assert(q * d + x == flat) by (nonlinear_arith)
            requires
                flat == d * q + x,
        ;
        assert forall|k: int| 0 <= k < dims.len() implies 0 <= #[trigger] lane[k] < dims[k] by {
            if k < front.len() {
                assert(rest[k] == lane[k]);
                assert(front[k] == dims[k]);
            }
        }
        assert forall|k: int| 0 <= k < dims.len() implies #[trigger] dims[k] >= 1 by {
            if k < front.len() {
                assert(front[k] == dims[k]);
            }
        }
    }
}

/// The number of elements of an array, where a `usize` holds it.
pub fn checked_size(dims: &Vec<i32>) -> (r: Option<usize>)
    requires
        are_dims(dims@),
    ensures
        r == (if size_of(dims@) <= usize::MAX {
            Some(size_of(dims@) as usize)
        } else {
            None
        }),
{
    proof {
        size_is_a_count(dims@);
    }
    let mut i: usize = 0;
    while i < dims.len()
        invariant
            i <= dims@.len(),
            are_dims(dims@),
            forall|k: int| 0 <= k < i ==> #[trigger] dims@[k] >= 1,
        decreases dims@.len() - i,
    {
        assert(dims@[i as int] >= 0);
        if dims[i] == 0 {
            proof {
                empty_dim_empties(dims@, i as int);
            }
            return Some(0);
        }
        i += 1;
    }
    let mut size: usize = 1;
    let mut i: usize = 0;
    while i < dims.len()
        invariant
            i <= dims@.len(),
            forall|k: int| 0 <= k < dims@.len() ==> #[trigger] dims@[k] >= 1,
            size == size_of(dims@.take(i as int)),
        decreases dims@.len() - i,
    {
        assert(dims@[i as int] >= 1);
        assert(dims@.take(i + 1).drop_last() =~= dims@.take(i as int));
        assert(dims@.take(i + 1).last() == dims@[i as int]);
        proof {
            front_is_no_larger(dims@, i + 1);
        }
        match size.checked_mul(dims[i] as usize) {
            Some(next) => {
                size = next;
            },
            None => {
                return None;
            },
        }
        i += 1;
    }
    assert(dims@.take(dims@.len() as int) =~= dims@);
    Some(size)
}

/// A position as whole numbers.
pub open spec fn ints(lane: Seq<i64>) -> Seq<int> {
    lane.map_values(|x: i64| x as int)
}

/// The position of an element, in the first dimensions of an array.
fn front_lane(dims: &Vec<i32>, count: usize, flat: usize) -> (r: Vec<i64>)
    requires
        count <= dims@.len(),
        are_dims(dims@),
        0 <= flat < size_of(dims@.take(count as int)),
        size_of(dims@.take(count as int)) <= i64::MAX,
    ensures
        ints(r@) == lane_of(dims@.take(count as int), flat as int),
    decreases count,
{
    let ghost front = dims@.take(count as int);
    assert forall|k: int| 0 <= k < front.len() implies #[trigger] front[k] >= 0 by {
        assert(front[k] == dims@[k]);
    }
    proof {
        element_has_a_position(front, flat as int);
    }
    if count == 0 {
        let lane: Vec<i64> = Vec::new();
        assert(ints(lane@) =~= Seq::empty());
        return lane;
    }
    assert(front[count - 1] >= 1);
    let d: i32 = dims[count - 1];
    let ghost before = dims@.take(count - 1);
    assert(front.drop_last() =~= before);
    assert(front.last() == d);
    assert forall|k: int| 0 <= k < front.len() implies #[trigger] front[k] >= 1 by {}
    proof {
        front_is_no_larger(front, count - 1);
        assert(front.take(count - 1) =~= before);
        let s = size_of(before);
        let w = d as int;
        vstd::arithmetic::div_mod::lemma_fundamental_div_mod(flat as int, w);
        vstd::arithmetic::div_mod::lemma_mod_bound(flat as int, w);
        assert(0 <= flat as int / w < s) by (nonlinear_arith)
            requires
                flat as int == w * (flat as int / w) + flat as int % w,
                0 <= flat as int % w < w,
                0 <= flat < s * w,
        ;
    }
    let mut lane = front_lane(dims, count - 1, flat / d as usize);
    let ghost rest = lane@;
    lane.push((flat % d as usize) as i64);
    assert(ints(lane@) =~= ints(rest).push(flat as int % d as int));
    lane
}

pub fn find_lane(dims: &Vec<i32>, flat: usize) -> (r: Vec<i64>)
    requires
        are_dims(dims@),
        0 <= flat < size_of(dims@) <= i64::MAX,
    ensures
        ints(r@) == lane_of(dims@, flat as int),
        inside(dims@, ints(r@)),
{
    assert(dims@.take(dims@.len() as int) =~= dims@);
    proof {
        element_has_a_position(dims@, flat as int);
    }
    front_lane(dims, dims.len(), flat)
}

/// Whether a position is one of the array, and where it is.
pub fn find_flat(dims: &Vec<i32>, lane: &Vec<i64>) -> (r: Option<usize>)
    requires
        are_dims(dims@),
        size_of(dims@) <= usize::MAX,
    ensures
        r == (if inside(dims@, ints(lane@)) {
            Some(flat_of(dims@, ints(lane@)) as usize)
        } else {
            None
        }),
{
    let ghost wanted = ints(lane@);
    if lane.len() != dims.len() {
        return None;
    }
    let mut i: usize = 0;
    while i < dims.len()
        invariant
            i <= dims@.len(),
            lane@.len() == dims@.len(),
            wanted == ints(lane@),
            forall|k: int| 0 <= k < i ==> 0 <= #[trigger] wanted[k] < dims@[k],
        decreases dims@.len() - i,
    {
        assert(wanted[i as int] == lane@[i as int]);
        if lane[i] < 0 || lane[i] >= dims[i] as i64 {
            return None;
        }
        i += 1;
    }
    assert(inside(dims@, wanted));
    let mut flat: usize = 0;
    let mut i: usize = 0;
    while i < dims.len()
        invariant
            i <= dims@.len(),
            lane@.len() == dims@.len(),
            wanted == ints(lane@),
            inside(dims@, wanted),
            size_of(dims@) <= usize::MAX,
            flat == flat_of(dims@.take(i as int), wanted.take(i as int)),
        decreases dims@.len() - i,
    {
        let ghost front = dims@.take(i + 1);
        let ghost part = wanted.take(i + 1);
        assert(front.drop_last() =~= dims@.take(i as int));
        assert(part.drop_last() =~= wanted.take(i as int));
        assert(front.last() == dims@[i as int]);
        assert(part.last() == lane@[i as int]);
        assert forall|k: int| 0 <= k < front.len() implies 0 <= #[trigger] part[k] < front[k] by {
            assert(part[k] == wanted[k]);
        }
        assert(inside(front, part));
        proof {
            position_is_an_element(front, part);
            assert forall|k: int| 0 <= k < dims@.len() implies #[trigger] dims@[k] >= 1 by {
                assert(0 <= wanted[k] < dims@[k]);
            }
            front_is_no_larger(dims@, i + 1);
            assert(0 <= wanted[i as int] < dims@[i as int]);
            let f = flat as int;
            let d = dims@[i as int] as int;
            let x = lane@[i as int] as int;
            assert(0 <= f * d <= f * d + x) by (nonlinear_arith)
                requires
                    f >= 0,
                    d >= 0,
                    x >= 0,
            ;
        }
        flat = flat * (dims[i] as usize) + lane[i] as usize;
        i += 1;
    }
    assert(dims@.take(dims@.len() as int) =~= dims@);
    assert(wanted.take(wanted.len() as int) =~= wanted);
    Some(flat)
}

} // verus!
