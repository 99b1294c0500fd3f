//! The parts of the built-in functions that do not depend on arithmetic:
//! which bars a trailing window covers, and the functions that only shift,
//! select or count.
//!
//! A series has one value per bar, oldest first. Conditions are series of
//! `bool`. The functions that move values around are generic in the value.

use vstd::prelude::*;

verus! {

/// The first index of the trailing window of `period` samples that ends at
/// index `i`. At the left edge the window is cut: it starts at 0.
pub open spec fn window_first(i: int, period: int) -> int {
    if i + 1 >= period {
        i + 1 - period
    } else {
        0
    }
}

/// The first index of the trailing window of `period` samples that ends at
/// index `i`, so that the window is `start..=i`. There is no window of
/// period 0.
pub fn window_start(i: usize, period: usize) -> (start: Option<usize>)
    ensures
        start is None == (period == 0),
        start matches Some(s) ==> s == window_first(i as int, period as int) && s <= i,
{
    if period == 0 {
        None
    } else if i >= period - 1 {
        Some(i - (period - 1))
    } else {
        Some(0)
    }
}

/// `REF`: the series moved `n` bars to the right; the first `n` places
/// repeat the first value.
pub open spec fn ref_at<T>(data: Seq<T>, n: int, i: int) -> T {
    if i >= n {
        data[i - n]
    } else {
        data[0]
    }
}

/// `REF(data, n)`.
pub fn calc_ref<T: Copy>(data: &Vec<T>, n: usize) -> (r: Vec<T>)
    ensures
        r.len() == data.len(),
        forall|i: int| 0 <= i < r.len() ==> r[i] == ref_at(data@, n as int, i),
{
    let mut r: Vec<T> = Vec::new();
    let mut i: usize = 0;
    while i < data.len()
        invariant
            i <= data.len(),
            r.len() == i,
            forall|k: int| 0 <= k < i ==> r[k] == ref_at(data@, n as int, k),
        decreases data.len() - i,
    {
        if i >= n {
            r.push(data[i - n]);
        } else {
            r.push(data[0]);
        }
        i += 1;
    }
    r
}

/// The smallest of three lengths.
pub open spec fn min3(a: int, b: int, c: int) -> int {
    if a <= b && a <= c {
        a
    } else if b <= c {
        b
    } else {
        c
    }
}

/// `IF(cond, a, b)`: on each bar `a` where the condition holds, else `b`.
/// The result is as long as the shortest argument.
pub fn calc_if<T: Copy>(cond: &Vec<bool>, a: &Vec<T>, b: &Vec<T>) -> (r: Vec<T>)
    ensures
        r.len() == min3(cond.len() as int, a.len() as int, b.len() as int),
        forall|i: int|
            0 <= i < r.len() ==> r[i] == if cond[i] {
                a[i]
            } else {
                b[i]
            },
{
    let mut n: usize = cond.len();
    if a.len() < n {
        n = a.len();
    }
    if b.len() < n {
        n = b.len();
    }
    let mut r: Vec<T> = Vec::new();
    let mut i: usize = 0;
    while i < n
        invariant
            i <= n,
            n == min3(cond.len() as int, a.len() as int, b.len() as int),
            r.len() == i,
            forall|k: int|
                0 <= k < i ==> r[k] == if cond[k] {
                    a[k]
                } else {
                    b[k]
                },
        decreases n - i,
    {
        if cond[i] {
            r.push(a[i]);
        } else {
            r.push(b[i]);
        }
        i += 1;
    }
    r
}

/// `CROSS(a, b)` on bar `i`, from where `a` lies above `b` and where it
/// does not: `a` is above `b` now and was not on the bar before. There is
/// no bar before the first, so the first bar never crosses.
pub open spec fn cross_at(above: Seq<bool>, not_above: Seq<bool>, i: int) -> bool {
    i >= 1 && above[i] && not_above[i - 1]
}

/// `CROSS(a, b)`, given for each bar whether `a > b` and whether `a <= b`.
pub fn calc_cross(above: &Vec<bool>, not_above: &Vec<bool>) -> (r: Vec<bool>)
    requires
        not_above.len() == above.len(),
    ensures
        r.len() == above.len(),
        forall|i: int| 0 <= i < r.len() ==> r[i] == cross_at(above@, not_above@, i),
        r.len() > 0 ==> !r[0],
{
    let mut r: Vec<bool> = Vec::new();
    let mut i: usize = 0;
    while i < above.len()
        invariant
            i <= above.len(),
            not_above.len() == above.len(),
            r.len() == i,
            forall|k: int| 0 <= k < i ==> r[k] == cross_at(above@, not_above@, k),
        decreases above.len() - i,
    {
        r.push(i >= 1 && above[i] && not_above[i - 1]);
        i += 1;
    }
    r
}

/// The number of bars in `lo..hi` on which the condition holds.
pub open spec fn count_true(cond: Seq<bool>, lo: int, hi: int) -> nat
    decreases hi - lo,
{
    if lo >= hi {
        0
    } else {
        count_true(cond, lo, hi - 1) + if cond[hi - 1] {
            1nat
        } else {
            0nat
        }
    }
}

/// `COUNT(cond, period)` on bar `i`: the number of bars of the trailing
/// window on which the condition holds; 0 for period 0.
pub open spec fn count_at(cond: Seq<bool>, period: int, i: int) -> nat {
    if period <= 0 {
        0
    } else {
        count_true(cond, window_first(i, period), i + 1)
    }
}

/// The number of bars in `lo..hi` on which the condition holds.
fn count_range(cond: &Vec<bool>, lo: usize, hi: usize) -> (n: usize)
    requires
        lo <= hi <= cond.len(),
    ensures
        n == count_true(cond@, lo as int, hi as int),
{
    let mut n: usize = 0;
    let mut k: usize = lo;
    while k < hi
        invariant
            lo <= k <= hi <= cond.len(),
            n == count_true(cond@, lo as int, k as int),
            n <= k - lo,
        decreases hi - k,
    {
        if cond[k] {
            n += 1;
        }
        k += 1;
    }
    n
}

/// `COUNT(cond, period)`.
pub fn calc_count(cond: &Vec<bool>, period: usize) -> (r: Vec<usize>)
    ensures
        r.len() == cond.len(),
        forall|i: int| 0 <= i < r.len() ==> r[i] == count_at(cond@, period as int, i),
{
    let mut r: Vec<usize> = Vec::new();
    let mut i: usize = 0;
    while i < cond.len()
        invariant
            i <= cond.len(),
            r.len() == i,
            forall|k: int| 0 <= k < i ==> r[k] == count_at(cond@, period as int, k),
        decreases cond.len() - i,
    {
        match window_start(i, period) {
            None => r.push(0),
            Some(start) => r.push(count_range(cond, start, i + 1)),
        }
        i += 1;
    }
    r
}

/// `EVERY(cond, period)`: the count over the trailing window equals the
/// period. Where the window is cut at the left edge it cannot.
pub fn calc_every(cond: &Vec<bool>, period: usize) -> (r: Vec<bool>)
    ensures
        r.len() == cond.len(),
        forall|i: int|
            0 <= i < r.len() ==> r[i] == (count_at(cond@, period as int, i) == period),
{
    let counts = calc_count(cond, period);
    let mut r: Vec<bool> = Vec::new();
    let mut i: usize = 0;
    while i < counts.len()
        invariant
            i <= counts.len(),
            counts.len() == cond.len(),
            forall|k: int|
                0 <= k < counts.len() ==> counts[k] == count_at(cond@, period as int, k),
            r.len() == i,
            forall|k: int| 0 <= k < i ==> r[k] == (count_at(cond@, period as int, k) == period),
        decreases counts.len() - i,
    {
        r.push(counts[i] == period);
        i += 1;
    }
    r
}

/// `EXIST(cond, period)`: the condition holds somewhere in the trailing
/// window.
pub fn calc_exist(cond: &Vec<bool>, period: usize) -> (r: Vec<bool>)
    ensures
        r.len() == cond.len(),
        forall|i: int| 0 <= i < r.len() ==> r[i] == (count_at(cond@, period as int, i) > 0),
{
    let counts = calc_count(cond, period);
    let mut r: Vec<bool> = Vec::new();
    let mut i: usize = 0;
    while i < counts.len()
        invariant
            i <= counts.len(),
            counts.len() == cond.len(),
            forall|k: int|
                0 <= k < counts.len() ==> counts[k] == count_at(cond@, period as int, k),
            r.len() == i,
            forall|k: int| 0 <= k < i ==> r[k] == (count_at(cond@, period as int, k) > 0),
        decreases counts.len() - i,
    {
        r.push(counts[i] > 0);
        i += 1;
    }
    r
}

/// The latest index at or before `i` on which the condition holds, or -1.
pub open spec fn last_true(cond: Seq<bool>, i: int) -> int
    decreases i + 1,
{
    if i < 0 {
        -1
    } else if cond[i] {
        i
    } else {
        last_true(cond, i - 1)
    }
}

/// `BARSLAST(cond)` on bar `i`: the bars since the condition last held;
/// the length of the window while it has never held.
pub open spec fn bars_last_at(cond: Seq<bool>, i: int) -> int {
    if last_true(cond, i) < 0 {
        cond.len() as int
    } else {
        i - last_true(cond, i)
    }
}

/// `BARSLAST(cond)`.
pub fn calc_barslast(cond: &Vec<bool>) -> (r: Vec<usize>)
    ensures
        r.len() == cond.len(),
        forall|i: int| 0 <= i < r.len() ==> r[i] == bars_last_at(cond@, i),
{
    let mut r: Vec<usize> = Vec::new();
    let mut last: Option<usize> = None;
    let mut i: usize = 0;
    while i < cond.len()
        invariant
            i <= cond.len(),
            r.len() == i,
            match last {
                Some(j) => j == last_true(cond@, i - 1) && j < i,
                None => last_true(cond@, i - 1) == -1,
            },
            forall|k: int| 0 <= k < i ==> r[k] == bars_last_at(cond@, k),
        decreases cond.len() - i,
    {
        if cond[i] {
            last = Some(i);
        }
        match last {
            Some(j) => r.push(i - j),
            None => r.push(cond.len()),
        }
        i += 1;
    }
    r
}

} // verus!
