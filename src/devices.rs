use vstd::prelude::*;
use vstd::arithmetic::div_mod::lemma_fundamental_div_mod;

verus! {

/// Start of the share of device `i` when `len` items are split over `devices` devices: each
/// gets `len / devices` items, and the first `len % devices` get one more.
pub open spec fn share_start(len: nat, devices: nat, i: nat) -> nat {
    i * (len / devices) + if i < len % devices { i } else { len % devices }
}

proof fn lemma_share_bounds(len: nat, devices: nat, i: nat)
    requires
        devices >= 1,
        i <= devices,
    ensures
        share_start(len, devices, i) <= len,
        i == devices ==> share_start(len, devices, i) == len,
{
    let q = len / devices;
    let r = len % devices;
    lemma_fundamental_div_mod(len as int, devices as int);
    assert(i * q <= devices * q) by (nonlinear_arith)
        requires
            i <= devices,
    ;
}

/// Splits a batch of `len` items over `devices` devices: the `i`-th pair is the range of
/// items of device `i`, from `share_start(i)` up to `share_start(i + 1)`.
pub fn split_batch(len: usize, devices: usize) -> (r: Vec<(usize, usize)>)
    requires
        devices >= 1,
    ensures
        r@.len() == devices,
        forall|i: int|
            0 <= i < devices ==> #[trigger] r@[i] == (
                share_start(len as nat, devices as nat, i as nat) as usize,
                share_start(len as nat, devices as nat, (i + 1) as nat) as usize,
            ),
{
    let q = len / devices;
    let rem = len % devices;
    let mut r: Vec<(usize, usize)> = Vec::new();
    let mut start: usize = 0;
    let mut i: usize = 0;
    proof {
        assert(0 * q == 0) by (nonlinear_arith);
    }
    while i < devices
        invariant
            q == len / devices,
            rem == len % devices,
            devices >= 1,
            i <= devices,
            start == share_start(len as nat, devices as nat, i as nat),
            r@.len() == i,
            forall|j: int|
                0 <= j < i ==> #[trigger] r@[j] == (
                    share_start(len as nat, devices as nat, j as nat) as usize,
                    share_start(len as nat, devices as nat, (j + 1) as nat) as usize,
                ),
        decreases devices - i,
    {
        proof {
            lemma_share_bounds(len as nat, devices as nat, (i + 1) as nat);
            assert((i + 1) * q == i * q + q) by (nonlinear_arith);
        }
        let end = if i < rem {
            start + q + 1
        } else {
            start + q
        };
        r.push((start, end));
        start = end;
        i = i + 1;
    }
    r
}

/// The shares of a split cover the batch exactly: they are contiguous, the first starts at
/// item 0, the last ends at item `len`, and any two sizes differ by at most one.
pub proof fn lemma_split_covers(len: nat, devices: nat)
    requires
        devices >= 1,
    ensures
        share_start(len, devices, 0) == 0,
        share_start(len, devices, devices) == len,
        forall|i: nat|
            i < devices ==> len / devices <= #[trigger] share_start(len, devices, i + 1)
                - share_start(len, devices, i) <= len / devices + 1,
{
    assert(0 * (len / devices) == 0) by (nonlinear_arith);
    lemma_share_bounds(len, devices, devices);
    assert forall|i: nat| i < devices implies len / devices <= #[trigger] share_start(
        len,
        devices,
        i + 1,
    ) - share_start(len, devices, i) <= len / devices + 1 by {
        let q = len / devices;
        assert((i + 1) * q == i * q + q) by (nonlinear_arith);
    }
}

} // verus!
