//! Moving a selection through a row of choices that closes on itself.

use vstd::prelude::*;

verus! {

/// Where `x` first stands in `list`; 0 where it stands nowhere.
pub open spec fn place(list: Seq<int>, x: int) -> int {
    first_place(list, x, 0)
}

/// Where `x` first stands in `list` from `from` on; 0 where it stands nowhere.
pub open spec fn first_place(list: Seq<int>, x: int, from: int) -> int
    decreases list.len() - from,
{
    if from < 0 || from >= list.len() {
        0
    } else if list[from] == x {
        from
    } else {
        first_place(list, x, from + 1)
    }
}

/// Whether the sums that a step needs fit in 32 bits.
pub open spec fn fits(pos: int, delta: int, len: int) -> bool {
    pos + delta <= i32::MAX && (pos + delta >= 0 ==> (pos + delta) % len + len <= i32::MAX)
}

/// The place `delta` further on in a row of `len` places that closes on itself.
pub open spec fn stepped(pos: int, delta: int, len: int) -> int {
    (pos + delta) % len
}

/// Whether the sums that a step needs fit in 32 bits.
pub fn step_fits(pos: usize, delta: i32, len: usize) -> (r: bool)
    requires
        pos < len <= i32::MAX,
    ensures
        r == fits(pos as int, delta as int, len as int),
{
    let sum: i64 = pos as i64 + delta as i64;
    if sum > 0x7FFF_FFFF {
        false
    } else if sum >= 0 {
        (sum as u64 % len as u64) + len as u64 <= 0x7FFF_FFFF
    } else {
        true
    }
}

/// Goes `delta` places on, or back where it is negative.
pub fn step(pos: usize, delta: i32, len: usize) -> (r: usize)
    requires
        pos < len <= i32::MAX,
        fits(pos as int, delta as int, len as int),
    ensures
        r == stepped(pos as int, delta as int, len as int),
        r < len,
{
    let sum: i64 = pos as i64 + delta as i64;
    let n: i64 = len as i64;
    if sum >= 0 {
        (sum as u64 % n as u64) as usize
    } else {
        let m: u64 = (-sum) as u64 % n as u64;
        proof {
            negative_step(sum as int, n as int);
        }
        if m == 0 {
            0
        } else {
            (n as u64 - m) as usize
        }
    }
}

proof fn negative_step(sum: int, n: int)
    requires
        sum < 0,
        n > 0,
    ensures
        ({
            let m = (-sum) % n;
            sum % n == if m == 0 {
                0
            } else {
                n - m
            }
        }),
{
    let m = (-sum) % n;
    let q = (-sum) / n;
    vstd::arithmetic::div_mod::lemma_fundamental_div_mod(-sum, n);
    if m == 0 {
        assert(sum == n * (-q) + 0) by (nonlinear_arith)
            requires
                -sum == n * q + m,
                m == 0,
        ;
        vstd::arithmetic::div_mod::lemma_fundamental_div_mod_converse(sum, n, -q, 0);
    } else {
        assert(sum == n * (-q - 1) + (n - m)) by (nonlinear_arith)
            requires
                -sum == n * q + m,
        ;
        vstd::arithmetic::div_mod::lemma_fundamental_div_mod_converse(sum, n, -q - 1, n - m);
    }
}

/// A step and the same step back lead to where they began.
pub proof fn a_step_back_undoes_a_step(pos: int, delta: int, len: int)
    requires
        0 <= pos < len,
    ensures
        stepped(stepped(pos, delta, len), -delta, len) == pos,
{
    let s = pos + delta;
    vstd::arithmetic::div_mod::lemma_fundamental_div_mod(s, len);
    let q = s / len;
    assert(s % len - delta == len * (-q) + pos) by (nonlinear_arith)
        requires
            s == len * q + s % len,
            s == pos + delta,
    ;
    vstd::arithmetic::div_mod::lemma_fundamental_div_mod_converse(s % len - delta, len, -q, pos);
}

/// The place after `n` steps of `delta`.
pub open spec fn stepped_often(pos: int, delta: int, len: int, n: nat) -> int
    decreases n,
{
    if n == 0 {
        pos
    } else {
        stepped(stepped_often(pos, delta, len, (n - 1) as nat), delta, len)
    }
}

proof fn steps_add_up(pos: int, delta: int, len: int, n: nat)
    requires
        0 <= pos < len,
    ensures
        stepped_often(pos, delta, len, n) == (pos + delta * n) % len,
    decreases n,
{
    if n == 0 {
        vstd::arithmetic::div_mod::lemma_small_mod(pos as nat, len as nat);
        assert(delta * 0 == 0);
    } else {
        steps_add_up(pos, delta, len, (n - 1) as nat);
        let before = pos + delta * (n - 1);
        vstd::arithmetic::div_mod::lemma_add_mod_noop(before, delta, len);
        vstd::arithmetic::div_mod::lemma_add_mod_noop(before % len, delta, len);
        vstd::arithmetic::div_mod::lemma_mod_twice(before, len);
        assert(before + delta == pos + delta * n) by (nonlinear_arith)
            requires
                before == pos + delta * (n - 1),
        ;
    }
}

/// As many steps of one as there are places lead all the way around.
pub proof fn a_full_round_returns(pos: int, len: int, forward: bool)
    requires
        0 <= pos < len,
    ensures
        stepped_often(
            pos,
            if forward {
                1
            } else {
                -1
            },
            len,
            len as nat,
        ) == pos,
{
    let delta = if forward {
        1int
    } else {
        -1int
    };
    steps_add_up(pos, delta, len, len as nat);
    assert(pos + delta * len == len * delta + pos) by (nonlinear_arith);
    vstd::arithmetic::div_mod::lemma_fundamental_div_mod_converse(
        pos + delta * len,
        len,
        delta,
        pos,
    );
}

/// The place of a value is the first at which it stands, and the start where it stands
/// nowhere.
pub proof fn the_first_place_counts(list: Seq<int>, x: int, k: int, from: int)
    requires
        0 <= from <= k <= list.len(),
        forall|j: int| from <= j < k ==> #[trigger] list[j] != x,
    ensures
        k < list.len() && list[k] == x ==> first_place(list, x, from) == k,
        k == list.len() ==> first_place(list, x, from) == 0,
        place(list, x) == first_place(list, x, 0),
    decreases k - from,
{
    if from < k {
        assert(list[from] != x);
        the_first_place_counts(list, x, k, from + 1);
    }
}

/// A step forward goes to the next place, a step back to the one before, and both go
/// round at the ends.
pub proof fn a_step_goes_to_the_neighbour(pos: int, len: int)
    requires
        0 <= pos < len,
    ensures
        stepped(pos, 1, len) == if pos + 1 < len {
            pos + 1
        } else {
            0
        },
        stepped(pos, -1, len) == if pos > 0 {
            pos - 1
        } else {
            len - 1
        },
        stepped(pos, 0, len) == pos,
{
    assert((pos + 1) % len == if pos + 1 < len {
        pos + 1
    } else {
        0int
    }) by (nonlinear_arith)
        requires
            0 <= pos < len,
    ;
    assert((pos - 1) % len == if pos > 0 {
        pos - 1
    } else {
        len - 1
    }) by (nonlinear_arith)
        requires
            0 <= pos < len,
    ;
    assert(pos % len == pos) by (nonlinear_arith)
        requires
            0 <= pos < len,
    ;
}

} // verus!
