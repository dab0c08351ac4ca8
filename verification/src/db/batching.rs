use vstd::prelude::*;

verus! {

/// Most bind parameters that one Postgres statement may carry.
pub const POSTGRES_BIND_LIMIT: usize = 65534;

/// Number of `size`-sized batches needed to cover `len` records.
pub open spec fn batch_count(len: nat, size: nat) -> nat
    recommends
        size > 0,
{
    ((len + size - 1) / size as int) as nat
}

/// `plan` cuts `len` records, in their order, into consecutive batches of
/// `size` records, the last of which may be shorter: batch `i` covers the
/// records `[i * size, min((i + 1) * size, len))`.
pub open spec fn is_batch_plan(plan: Seq<(usize, usize)>, len: nat, size: nat) -> bool {
    &&& plan.len() == batch_count(len, size)
    &&& forall|i: int|
        0 <= i < plan.len() ==> {
            &&& (#[trigger] plan[i]).0 == i * size
            &&& plan[i].1 == (if (i + 1) * size < len { (i + 1) * size } else { len as int })
        }
}

proof fn lemma_count_exact(len: nat, size: nat, k: nat)
    by (nonlinear_arith)
    requires
        size > 0,
        len <= k * size,
        k == 0 || (k - 1) * size < len,
    ensures
        batch_count(len, size) == k,
{
    if k == 0 {
        assert(len == 0);
        assert((len + size - 1) / size as int == 0);
    } else {
        assert((k - 1) * size + size == k * size);
        assert(k * size <= len + size - 1 < (k + 1) * size);
    }
}

proof fn lemma_step(i: int, size: int)
    by (nonlinear_arith)
    requires
        size > 0,
        i >= 0,
    ensures
        (i + 1) * size == i * size + size,
        i * size >= i,
{
}

/// Cuts `len` records into batches of at most `size`, in order: each batch
/// holds `size` records except the last, and no batch is empty.
pub fn batch_ranges(len: usize, size: usize) -> (plan: Vec<(usize, usize)>)
    requires
        size > 0,
    ensures
        is_batch_plan(plan@, len as nat, size as nat),
{
    let mut plan: Vec<(usize, usize)> = Vec::new();
    let mut start: usize = 0;
    proof {
        lemma_step(0, size as int);
    }
    while start < len
        invariant
            size > 0,
            start <= len,
            start == (if plan.len() * size < len { plan.len() * size } else { len as int }),
            plan.len() > 0 ==> (plan.len() - 1) * size < len,
            plan.len() <= len,
            forall|i: int|
                0 <= i < plan.len() ==> {
                    &&& (#[trigger] plan@[i]).0 == i * size
                    &&& plan@[i].1 == (if (i + 1) * size < len { (i + 1) * size } else { len as int })
                },
        decreases len - start,
    {
        let k = plan.len();
        proof {
            lemma_step(k as int, size as int);
        }
        let end = if len - start > size { start + size } else { len };
        plan.push((start, end));
        start = end;
    }
    proof {
        lemma_step(plan.len() as int, size as int);
        lemma_count_exact(len as nat, size as nat, plan.len() as nat);
    }
    plan
}

proof fn lemma_below_count(len: nat, size: nat, i: int)
    by (nonlinear_arith)
    requires
        size > 0,
        0 <= i < batch_count(len, size),
    ensures
        i * size < len,
        (i + 1) * size == i * size + size,
{
    assert(i + 1 <= (len + size - 1) / size as int);
    assert((i + 1) * size <= len + size - 1);
}

proof fn lemma_last_reaches(len: nat, size: nat, k: int)
    by (nonlinear_arith)
    requires
        size > 0,
        k == batch_count(len, size),
        k > 0,
    ensures
        k * size >= len,
{
}

/// A batch plan covers the records exactly once and in order: the batches
/// follow each other without gap or overlap from the first record to the
/// last, none is empty, none holds more than `size` records, and all but the
/// last hold exactly `size`.
pub proof fn lemma_batch_plan_partitions(plan: Seq<(usize, usize)>, len: nat, size: nat)
    requires
        size > 0,
        is_batch_plan(plan, len, size),
    ensures
        plan.len() == 0 <==> len == 0,
        plan.len() > 0 ==> plan[0].0 == 0 && plan[plan.len() - 1].1 == len,
        forall|i: int| 0 <= i < plan.len() - 1 ==> #[trigger] plan[i].1 == plan[i + 1].0,
        forall|i: int|
            0 <= i < plan.len() ==> 0 < (#[trigger] plan[i]).1 - plan[i].0 <= size,
        forall|i: int| 0 <= i < plan.len() - 1 ==> (#[trigger] plan[i]).1 - plan[i].0 == size,
{
    if len == 0 {
        assert(batch_count(len, size) == 0) by (nonlinear_arith)
            requires size > 0, len == 0;
    } else {
        assert(batch_count(len, size) > 0) by (nonlinear_arith)
            requires size > 0, len > 0;
        lemma_last_reaches(len, size, plan.len() as int);
        lemma_below_count(len, size, plan.len() - 1);
    }
    assert forall|i: int| 0 <= i < plan.len() - 1 implies #[trigger] plan[i].1 == plan[i + 1].0 by {
        lemma_below_count(len, size, i + 1);
        lemma_below_count(len, size, i);
    }
    assert forall|i: int| 0 <= i < plan.len() implies 0 < (#[trigger] plan[i]).1 - plan[i].0 <= size by {
        lemma_below_count(len, size, i);
    }
    assert forall|i: int| 0 <= i < plan.len() - 1 implies (#[trigger] plan[i]).1 - plan[i].0 == size by {
        lemma_below_count(len, size, i + 1);
        lemma_below_count(len, size, i);
    }
}

} // verus!
