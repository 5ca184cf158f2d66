use vstd::prelude::*;
use vstd::arithmetic::div_mod::lemma_fundamental_div_mod_converse;

verus! {

/// With accumulation factor `k`, the optimizer steps after step `step` (counted from 1) of an
/// epoch of `steps` steps: after every `k`-th step, and after the last step of the epoch.
pub open spec fn updates_after(step: int, steps: int, k: int) -> bool {
    step % k == 0 || step == steps
}

/// Sum of a sequence of gradients.
pub open spec fn sum(s: Seq<int>) -> int
    decreases s.len(),
{
    if s.len() == 0 {
        0
    } else {
        sum(s.drop_last()) + s.last()
    }
}

/// Gradient held by the accumulator once the first `i` steps of the epoch whose step
/// gradients are `g` have run.
pub open spec fn held(g: Seq<int>, k: int, i: int) -> int
    decreases i,
{
    if i <= 0 {
        0
    } else if updates_after(i, g.len() as int, k) {
        0
    } else {
        held(g, k, i - 1) + g[i - 1]
    }
}

/// Gradients handed to the optimizer, in order, during the first `i` steps of the epoch.
pub open spec fn fed(g: Seq<int>, k: int, i: int) -> Seq<int>
    decreases i,
{
    if i <= 0 {
        Seq::empty()
    } else if updates_after(i, g.len() as int, k) {
        fed(g, k, i - 1).push(held(g, k, i - 1) + g[i - 1])
    } else {
        fed(g, k, i - 1)
    }
}

/// Number of optimizer steps in an epoch of `steps` steps: `ceil(steps / k)`.
pub open spec fn update_count(steps: int, k: int) -> int {
    (steps + k - 1) / k
}

/// The steps, counted from 1, whose gradients the `j`-th (from 0) optimizer step sums.
pub open spec fn segment(g: Seq<int>, k: int, j: int) -> Seq<int> {
    let end = if (j + 1) * k < g.len() { (j + 1) * k } else { g.len() as int };
    g.subrange(j * k, end)
}

/// Whether the optimizer steps after step `step` (from 1) of an epoch of `steps` steps, with
/// `accumulation` steps summed per update (`None`: one).
pub fn should_update(step: usize, steps: usize, accumulation: Option<usize>) -> (r: bool)
    requires
        accumulation matches Some(k) ==> k >= 1,
    ensures
        r == updates_after(
            step as int,
            steps as int,
            match accumulation {
                Some(k) => k as int,
                None => 1,
            },
        ),
{
    let k: usize = match accumulation {
        Some(k) => k,
        None => 1,
    };
    step % k == 0 || step == steps
}

proof fn lemma_sum_push(g: Seq<int>, a: int, i: int)
    requires
        0 <= a <= i < g.len(),
    ensures
        sum(g.subrange(a, i + 1)) == sum(g.subrange(a, i)) + g[i],
{
    assert(g.subrange(a, i + 1).drop_last() =~= g.subrange(a, i));
}

proof fn lemma_fed_prefix(g: Seq<int>, k: int, i: int)
    requires
        k >= 1,
        0 <= i <= g.len(),
    ensures
        i < g.len() ==> i == fed(g, k, i).len() * k + i % k,
        i < g.len() ==> held(g, k, i) == sum(g.subrange(fed(g, k, i).len() * k, i)),
        i == g.len() ==> fed(g, k, i).len() == update_count(g.len() as int, k),
        forall|j: int|
            0 <= j < fed(g, k, i).len() ==> #[trigger] fed(g, k, i)[j] == sum(segment(g, k, j)),
    decreases i,
{
    let n = g.len() as int;
    if i == 0 {
        assert(0 * k == 0) by (nonlinear_arith);
        lemma_fundamental_div_mod_converse(0, k, 0, 0);
        lemma_fundamental_div_mod_converse(k - 1, k, 0, k - 1);
        assert(g.subrange(0, 0) =~= Seq::<int>::empty());
    } else {
        let p = i - 1;
        lemma_fed_prefix(g, k, p);
        let q = fed(g, k, p).len() as int;
        let r = p % k;
        assert(p == q * k + r);
        assert(0 <= r < k) by {
            lemma_fundamental_div_mod_converse(p, k, q, p - q * k);
        }
        lemma_sum_push(g, q * k, p);
        let pre = held(g, k, p) + g[p];
        assert(pre == sum(g.subrange(q * k, i)));
        assert((q + 1) * k == q * k + k) by (nonlinear_arith);
        if r + 1 == k {
            lemma_fundamental_div_mod_converse(i, k, q + 1, 0);
            assert(segment(g, k, q) =~= g.subrange(q * k, i));
            assert(fed(g, k, i) == fed(g, k, p).push(pre));
            if i < n {
                lemma_fundamental_div_mod_converse(i, k, q + 1, 0);
                assert(g.subrange((q + 1) * k, i) =~= Seq::<int>::empty());
            } else {
                lemma_fundamental_div_mod_converse(n + k - 1, k, q + 1, k - 1);
            }
        } else {
            lemma_fundamental_div_mod_converse(i, k, q, r + 1);
            if i == n {
                assert(segment(g, k, q) =~= g.subrange(q * k, i));
                lemma_fundamental_div_mod_converse(n + k - 1, k, q + 1, r);
            }
        }
        assert forall|j: int| 0 <= j < fed(g, k, i).len() implies #[trigger] fed(g, k, i)[j]
            == sum(segment(g, k, j)) by {
            if j < q {
                assert(fed(g, k, i)[j] == fed(g, k, p)[j]);
            }
        }
    }
}

/// Gradient accumulation: over an epoch whose step gradients are `g`, the optimizer is
/// stepped exactly `ceil(g.len() / k)` times, and the `j`-th update receives the sum of
/// the gradients of steps `j * k + 1 ..= min((j + 1) * k, g.len())`.
pub proof fn lemma_accumulated_updates(g: Seq<int>, k: int)
    requires
        k >= 1,
    ensures
        fed(g, k, g.len() as int).len() == update_count(g.len() as int, k),
        forall|j: int|
            0 <= j < update_count(g.len() as int, k) ==> #[trigger] fed(g, k, g.len() as int)[j]
                == sum(segment(g, k, j)),
{
    lemma_fed_prefix(g, k, g.len() as int);
}

} // verus!
