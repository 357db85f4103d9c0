//! Generic programming exercises: comparison and folding over
//! numbers, generic points and pairs, and a small counter.

use crate::numeral::{i64_to_string, int_text};
use vstd::pervasive::cloned;
use vstd::prelude::*;

verus! {

/// The larger of two numbers.
pub fn max(a: i64, b: i64) -> (r: i64)
    ensures
        r == (if a > b {
            a
        } else {
            b
        }),
{
    if a > b {
        a
    } else {
        b
    }
}

/// Sum of a sequence of numbers.
pub open spec fn spec_sum(s: Seq<i64>) -> int
    decreases s.len(),
{
    if s.len() == 0 {
        0
    } else {
        spec_sum(s.drop_last()) + s.last()
    }
}

/// Adds up a slice of numbers.  Every partial sum must stay in the
/// signed 64-bit range.
pub fn sum_values(values: &[i64]) -> (r: i64)
    requires
        forall|j: int|
            0 <= j <= values@.len() ==> i64::MIN <= spec_sum(#[trigger] values@.take(j))
                <= i64::MAX,
    ensures
        r == spec_sum(values@),
{
    let len = values.len();
    let mut acc: i64 = 0;
    let mut i: usize = 0;
    proof {
        assert(values@.take(0) =~= Seq::<i64>::empty());
    }
    while i < len
        invariant
            0 <= i <= len,
            len == values@.len(),
            acc == spec_sum(values@.take(i as int)),
            forall|j: int|
                0 <= j <= values@.len() ==> i64::MIN <= spec_sum(#[trigger] values@.take(j))
                    <= i64::MAX,
        decreases len - i,
    {
        proof {
            assert(values@.take(i + 1).drop_last() =~= values@.take(i as int));
            assert(values@.take(i + 1).last() == values@[i as int]);
        }
        acc = acc + values[i];
        i += 1;
    }
    proof {
        assert(values@.take(len as int) =~= values@);
    }
    acc
}

/// A point whose coordinates share one type.
#[derive(Debug)]
pub struct Point<T> {
    pub x: T,
    pub y: T,
}

impl<T> Point<T> {
    /// A borrow of the first coordinate.
    pub fn x(&self) -> (r: &T)
        ensures
            *r == self.x,
    {
        &self.x
    }

    /// A borrow of the second coordinate.
    pub fn y(&self) -> (r: &T)
        ensures
            *r == self.y,
    {
        &self.y
    }
}

/// A point whose coordinates may differ in type.
#[derive(Debug)]
pub struct Point2<T, U> {
    pub x: T,
    pub y: U,
}

impl<U> Point2<i64, U> {
    /// The first coordinate as decimal text.
    pub fn x_to_string(&self) -> (r: String)
        ensures
            r@ == int_text(self.x as int),
    {
        i64_to_string(self.x)
    }
}

/// A clone of the borrowed value.
pub fn duplicate<T: Clone>(value: &T) -> (r: T)
    ensures
        cloned(*value, r),
{
    value.clone()
}

/// Sum of two numbers, which must fit.
pub fn combine(a: i64, b: i64) -> (r: i64)
    requires
        i64::MIN <= a + b <= i64::MAX,
    ensures
        r == a + b,
{
    a + b
}

/// Two values of one type.
#[derive(Debug)]
pub struct Pair<T> {
    pub first: T,
    pub second: T,
}

impl<T> Pair<T> {
    /// Wraps the two values.
    pub fn new(first: T, second: T) -> (r: Pair<T>)
        ensures
            r.first == first,
            r.second == second,
    {
        Pair { first, second }
    }
}

/// A countdown source: holds the values it has not yet handed out.
#[derive(Debug)]
pub struct Counter {
    pub values: Vec<i32>,
}

impl Counter {
    /// Starts with the values one through five.
    pub fn new() -> (r: Counter)
        ensures
            r.values@ == seq![1i32, 2i32, 3i32, 4i32, 5i32],
    {
        let mut values: Vec<i32> = Vec::new();
        values.push(1);
        values.push(2);
        values.push(3);
        values.push(4);
        values.push(5);
        proof {
            assert(values@ =~= seq![1i32, 2i32, 3i32, 4i32, 5i32]);
        }
        Counter { values }
    }

    /// Hands out the most recently held value, if any is left.
    pub fn next(&mut self) -> (r: Option<i32>)
        ensures
            match r {
                Some(x) => {
                    &&& old(self).values@.len() > 0
                    &&& x == old(self).values@.last()
                    &&& final(self).values@ == old(self).values@.drop_last()
                },
                None => old(self).values@.len() == 0 && final(self).values@ == old(self).values@,
            },
    {
        self.values.pop()
    }
}

/// The largest number in a non-empty slice.
pub fn largest(list: &[i64]) -> (r: i64)
    requires
        list@.len() > 0,
    ensures
        list@.contains(r),
        forall|k: int| 0 <= k < list@.len() ==> list@[k] <= r,
{
    let mut best = list[0];
    let len = list.len();
    let mut i: usize = 1;
    while i < len
        invariant
            1 <= i <= len,
            len == list@.len(),
            list@.contains(best),
            forall|k: int| 0 <= k < i ==> list@[k] <= best,
        decreases len - i,
    {
        if list[i] > best {
            best = list[i];
        }
        i += 1;
    }
    best
}

} // verus!
