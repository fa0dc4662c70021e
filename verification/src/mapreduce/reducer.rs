use vstd::prelude::*;

verus! {

/// The keys one reducer is responsible for.
pub struct ReducerAssignment {
    pub keys: Vec<String>,
}

/// The mathematical sum of the partial counts.
pub open spec fn sum_of(values: Seq<i32>) -> int
    decreases values.len(),
{
    if values.len() == 0 {
        0
    } else {
        sum_of(values.drop_last()) + values.last()
    }
}

/// The reduce step for one key: the partial counts folded into one total,
/// clamped into the counter's range when the true sum falls outside it.
pub fn reduce_counts(values: &Vec<i32>) -> (r: i32)
    ensures
        r == if sum_of(values@) > i32::MAX {
            i32::MAX as int
        } else if sum_of(values@) < i32::MIN {
            i32::MIN as int
        } else {
            sum_of(values@)
        },
{
    let n = values.len();
    let mut total: i128 = 0;
    let mut i: usize = 0;
    proof {
        assert(values@.take(0) =~= Seq::<i32>::empty());
    }
    while i < n
        invariant
            n == values@.len(),
            i <= n,
            total == sum_of(values@.take(i as int)),
            -(i as int) * (i32::MAX as int + 1) <= total <= (i as int) * (i32::MAX as int),
        decreases n - i,
    {
        proof {
            assert(values@.take(i + 1).drop_last() =~= values@.take(i as int));
            assert(values@.take(i + 1).last() == values@[i as int]);
        }
        total = total + values[i] as i128;
        i = i + 1;
    }
    proof {
        assert(values@.take(n as int) =~= values@);
    }
    if total > i32::MAX as i128 {
        i32::MAX
    } else if total < i32::MIN as i128 {
        i32::MIN
    } else {
        total as i32
    }
}

/// The contiguous key ranges the orchestrator hands its reducers: every
/// reducer gets `keys_per_reducer` keys and the last one also takes the
/// remainder, so the ranges tile `0 .. total_keys` in order.
pub fn reducer_key_ranges(total_keys: usize, num_reducers: usize, keys_per_reducer: usize) -> (r:
    Vec<(usize, usize)>)
    requires
        num_reducers >= 1,
        keys_per_reducer * (num_reducers - 1) <= total_keys,
    ensures
        r@.len() == num_reducers,
        r@[0].0 == 0,
        r@[r@.len() - 1].1 == total_keys,
        forall|i: int| 0 <= i < r@.len() - 1 ==> (#[trigger] r@[i]).1 == r@[i + 1].0,
        forall|i: int|
            0 <= i < r@.len() - 1 ==> (#[trigger] r@[i]).1 - r@[i].0 == keys_per_reducer,
{
    let mut out: Vec<(usize, usize)> = Vec::new();
    let mut start: usize = 0;
    let mut i: usize = 0;
    while i < num_reducers - 1
        invariant
            num_reducers >= 1,
            i <= num_reducers - 1,
            out@.len() == i,
            start == i * keys_per_reducer,
            keys_per_reducer * (num_reducers - 1) <= total_keys,
            i == 0 ==> start == 0,
            out@.len() > 0 ==> out@[0].0 == 0,
            forall|j: int| 0 <= j < out@.len() - 1 ==> (#[trigger] out@[j]).1 == out@[j + 1].0,
            forall|j: int|
                0 <= j < out@.len() ==> (#[trigger] out@[j]).1 - out@[j].0 == keys_per_reducer,
            out@.len() > 0 ==> out@[out@.len() - 1].1 == start,
        decreases num_reducers - 1 - i,
    {
        proof {
            assert((i + 1) * keys_per_reducer == i * keys_per_reducer + keys_per_reducer)
                by (nonlinear_arith);
            assert((i + 1) * keys_per_reducer <= (num_reducers - 1) * keys_per_reducer) by (
            nonlinear_arith)
                requires
                    i + 1 <= num_reducers - 1 || i + 1 == num_reducers - 1 + 0,
                    i < num_reducers - 1,
            ;
            assert((num_reducers - 1) * keys_per_reducer == keys_per_reducer * (num_reducers - 1))
                by (nonlinear_arith);
        }
        let end = start + keys_per_reducer;
        out.push((start, end));
        start = end;
        i = i + 1;
    }
    proof {
        assert((num_reducers - 1) * keys_per_reducer == keys_per_reducer * (num_reducers - 1)) by (
        nonlinear_arith);
    }
    out.push((start, total_keys));
    out
}

} // verus!
