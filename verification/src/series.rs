//! A named series of points, kept in ascending order of x.
//!
//! Points with the same x stay in the order in which they arrived: a new
//! point goes behind every point whose x is not larger than its own.

use crate::decimal::Decimal;
use vstd::prelude::*;

verus! {

/// A point of the plane.
#[derive(Clone, Copy, Debug, PartialEq, Eq, Structural)]
pub struct Point {
    pub x: Decimal,
    pub y: Decimal,
}

/// Why an operation on stored data was refused.
#[derive(Clone, Copy, Debug, PartialEq, Eq, Structural)]
pub enum StoreError {
    /// A series or row index does not name an existing entry.
    IndexOutOfRange,
}

/// A named collection of points in ascending order of x.
pub struct DataSeries {
    name: String,
    data: Vec<Point>,
}

/// What a series is, to a specification: its name and its points in order.
pub struct SeriesModel {
    pub name: Seq<char>,
    pub points: Seq<Point>,
}

// ---------------------------------------------------------------------------
// Order
// ---------------------------------------------------------------------------

/// No point comes before a point with a smaller x.
pub open spec fn sorted_by_x(points: Seq<Point>) -> bool {
    forall|i: int, j: int| 0 <= i <= j < points.len() ==> points[i].x.units <= points[j].x.units
}

/// How many of the points have an x of at most `x`.
pub open spec fn count_at_most(points: Seq<Point>, x: int) -> nat
    decreases points.len(),
{
    if points.len() == 0 {
        0
    } else {
        count_at_most(points.drop_last(), x) + if points.last().x.units <= x {
            1nat
        } else {
            0nat
        }
    }
}

/// The points with `p` added behind every point whose x is at most that of
/// `p`. On sorted points this is the place that keeps them sorted and leaves
/// `p` last among the points that share its x.
pub open spec fn inserted(points: Seq<Point>, p: Point) -> Seq<Point> {
    points.insert(count_at_most(points, p.x.units as int) as int, p)
}

/// The points in ascending order of x, those with the same x in the order in
/// which they stand in `points`.
pub open spec fn stable_sorted(points: Seq<Point>) -> Seq<Point>
    decreases points.len(),
{
    if points.len() == 0 {
        Seq::empty()
    } else {
        inserted(stable_sorted(points.drop_last()), points.last())
    }
}

/// `v` is the largest x among the points.
pub open spec fn is_greatest_x(points: Seq<Point>, v: Decimal) -> bool {
    &&& exists|i: int| 0 <= i < points.len() && #[trigger] points[i].x == v
    &&& forall|j: int| 0 <= j < points.len() ==> (#[trigger] points[j]).x.units <= v.units
}

/// `v` is the largest y among the points.
pub open spec fn is_greatest_y(points: Seq<Point>, v: Decimal) -> bool {
    &&& exists|i: int| 0 <= i < points.len() && #[trigger] points[i].y == v
    &&& forall|j: int| 0 <= j < points.len() ==> (#[trigger] points[j]).y.units <= v.units
}

/// The axis bounds of the points: the largest x and the largest y, or one and
/// one where there is no point.
pub open spec fn are_bounds(points: Seq<Point>, bounds: (Decimal, Decimal)) -> bool {
    if points.len() == 0 {
        bounds.0.units == 10000 && bounds.1.units == 10000
    } else {
        is_greatest_x(points, bounds.0) && is_greatest_y(points, bounds.1)
    }
}

// ---------------------------------------------------------------------------
// Laws of the order
// ---------------------------------------------------------------------------

/// In sorted points, the position that parts the points with an x of at most
/// `x` from the others is the number of the former.
pub proof fn lemma_count_at_most_sorted(points: Seq<Point>, x: int, k: int)
    requires
        0 <= k <= points.len(),
        forall|i: int| 0 <= i < k ==> (#[trigger] points[i]).x.units <= x,
        forall|i: int| k <= i < points.len() ==> (#[trigger] points[i]).x.units > x,
    ensures
        count_at_most(points, x) == k,
    decreases points.len(),
{
    if points.len() > 0 {
        let front = points.drop_last();
        if k == points.len() {
            lemma_count_at_most_sorted(front, x, k - 1);
        } else {
            lemma_count_at_most_sorted(front, x, k);
        }
    }
}

/// In sorted points, every point before the insertion place of `x` has an x
/// of at most `x`, and every point from there on has a larger one.
pub proof fn lemma_count_at_most_parts(points: Seq<Point>, x: int)
    requires
        sorted_by_x(points),
    ensures
        count_at_most(points, x) <= points.len(),
        forall|i: int| 0 <= i < count_at_most(points, x) ==> (#[trigger] points[i]).x.units <= x,
        forall|i: int|
            count_at_most(points, x) <= i < points.len() ==> (#[trigger] points[i]).x.units > x,
    decreases points.len(),
{
    if points.len() > 0 {
        let front = points.drop_last();
        let n = points.len() as int;
        assert(sorted_by_x(front)) by {
            assert forall|i: int, j: int| 0 <= i <= j < front.len() implies front[i].x.units
                <= front[j].x.units by {
                assert(front[i] == points[i] && front[j] == points[j]);
            }
        }
        lemma_count_at_most_parts(front, x);
        let k = count_at_most(front, x) as int;
        if points.last().x.units <= x {
            // Sorted: everything before the last point is at most the last.
            assert forall|i: int| 0 <= i < n - 1 implies (#[trigger] front[i]).x.units <= x by {
                assert(front[i] == points[i]);
                assert(points[i].x.units <= points[n - 1].x.units);
            }
            if k < n - 1 {
                assert(front[k].x.units > x);
            }
            assert(k == n - 1);
        }
        assert forall|i: int| 0 <= i < count_at_most(points, x) implies (#[trigger] points[i]).x.units
            <= x by {
            if i < n - 1 {
                assert(points[i] == front[i]);
            }
        }
        assert forall|i: int| count_at_most(points, x) <= i < points.len() implies (
        #[trigger] points[i]).x.units > x by {
            if i < n - 1 {
                assert(points[i] == front[i]);
            }
        }
    }
}

/// Adding a point to sorted points leaves them sorted.
pub proof fn lemma_inserted_sorted(points: Seq<Point>, p: Point)
    requires
        sorted_by_x(points),
    ensures
        sorted_by_x(inserted(points, p)),
        inserted(points, p).len() == points.len() + 1,
        inserted(points, p).to_multiset() == points.to_multiset().insert(p),
{
    let x = p.x.units as int;
    let k = count_at_most(points, x) as int;
    lemma_count_at_most_parts(points, x);
    let out = inserted(points, p);
    assert forall|i: int, j: int| 0 <= i <= j < out.len() implies out[i].x.units
        <= out[j].x.units by {
        if i < k && j > k {
            assert(out[i] == points[i] && out[j] == points[j - 1]);
        } else if i < k && j < k {
            assert(out[i] == points[i] && out[j] == points[j]);
        } else if i > k {
            assert(out[i] == points[i - 1] && out[j] == points[j - 1]);
        } else if i == k && j > k {
            assert(out[j] == points[j - 1]);
        } else if j == k && i < k {
            assert(out[i] == points[i]);
        }
    }
    vstd::seq_lib::to_multiset_insert(points, k, p);
}

/// The points after each point of `added` was added in turn.
pub open spec fn inserted_all(points: Seq<Point>, added: Seq<Point>) -> Seq<Point>
    decreases added.len(),
{
    if added.len() == 0 {
        points
    } else {
        inserted(inserted_all(points, added.drop_last()), added.last())
    }
}

/// Whatever points are added to sorted points, and in whatever order, the
/// result is sorted and holds the old points and the added ones, each as
/// often as it was there or was added.
pub proof fn lemma_insertions_keep_sorted(points: Seq<Point>, added: Seq<Point>)
    requires
        sorted_by_x(points),
    ensures
        sorted_by_x(inserted_all(points, added)),
        inserted_all(points, added).len() == points.len() + added.len(),
        inserted_all(points, added).to_multiset() == points.to_multiset().add(
            added.to_multiset(),
        ),
    decreases added.len(),
{
    broadcast use vstd::multiset::group_multiset_axioms;

    if added.len() == 0 {
        assert(added.to_multiset() =~= vstd::multiset::Multiset::empty()) by {
            added.to_multiset_ensures();
        }
        assert(points.to_multiset().add(added.to_multiset()) =~= points.to_multiset());
    } else {
        let front = added.drop_last();
        lemma_insertions_keep_sorted(points, front);
        lemma_inserted_sorted(inserted_all(points, front), added.last());
        assert(front.push(added.last()) =~= added);
        front.to_multiset_ensures();
        assert(added.to_multiset() =~= front.to_multiset().insert(added.last()));
        assert(points.to_multiset().add(front.to_multiset()).insert(added.last())
            =~= points.to_multiset().add(added.to_multiset()));
    }
}

/// Sorting yields sorted points, and exactly the points that went in.
pub proof fn lemma_stable_sorted(points: Seq<Point>)
    ensures
        sorted_by_x(stable_sorted(points)),
        stable_sorted(points).len() == points.len(),
        stable_sorted(points).to_multiset() == points.to_multiset(),
    decreases points.len(),
{
    if points.len() == 0 {
        assert(points =~= Seq::empty());
    } else {
        let front = points.drop_last();
        lemma_stable_sorted(front);
        lemma_inserted_sorted(stable_sorted(front), points.last());
        assert(front.push(points.last()) =~= points);
        vstd::seq_lib::to_multiset_insert(front, front.len() as int, points.last());
        assert(front.insert(front.len() as int, points.last()) =~= points);
    }
}

/// Sorting leaves sorted points as they are.
pub proof fn lemma_stable_sorted_fixes_sorted(points: Seq<Point>)
    requires
        sorted_by_x(points),
    ensures
        stable_sorted(points) == points,
    decreases points.len(),
{
    if points.len() > 0 {
        let front = points.drop_last();
        let last = points.last();
        let n = points.len() as int;
        assert(sorted_by_x(front)) by {
            assert forall|i: int, j: int| 0 <= i <= j < front.len() implies front[i].x.units
                <= front[j].x.units by {
                assert(front[i] == points[i] && front[j] == points[j]);
            }
        }
        lemma_stable_sorted_fixes_sorted(front);
        assert forall|i: int| 0 <= i < n - 1 implies (#[trigger] front[i]).x.units
            <= last.x.units by {
            assert(front[i] == points[i]);
            assert(points[i].x.units <= points[n - 1].x.units);
        }
        lemma_count_at_most_sorted(front, last.x.units as int, n - 1);
        assert(front.insert(n - 1, last) =~= points);
    } else {
        assert(points =~= Seq::empty());
    }
}

/// Taking a point out of sorted points leaves them sorted.
pub proof fn lemma_remove_sorted(points: Seq<Point>, i: int)
    requires
        sorted_by_x(points),
        0 <= i < points.len(),
    ensures
        sorted_by_x(points.remove(i)),
{
    let out = points.remove(i);
    assert forall|a: int, b: int| 0 <= a <= b < out.len() implies out[a].x.units
        <= out[b].x.units by {
        let a0 = if a < i {
            a
        } else {
            a + 1
        };
        let b0 = if b < i {
            b
        } else {
            b + 1
        };
        assert(out[a] == points[a0] && out[b] == points[b0]);
    }
}

// ---------------------------------------------------------------------------
// The series
// ---------------------------------------------------------------------------

impl View for DataSeries {
    type V = SeriesModel;

    closed spec fn view(&self) -> SeriesModel {
        SeriesModel { name: self.name@, points: self.data@ }
    }
}

impl DataSeries {
    /// The points are in ascending order of x.
    pub open spec fn wf(&self) -> bool {
        sorted_by_x(self@.points)
    }

    /// The default series: no points, under the name `Graph`.
    pub fn new() -> (series: DataSeries)
        ensures
            series.wf(),
            series@.name == "Graph"@,
            series@.points.len() == 0,
    {
        DataSeries { name: "Graph".to_owned(), data: Vec::new() }
    }

    /// An empty series under the given name.
    pub fn with_name(name: String) -> (series: DataSeries)
        ensures
            series.wf(),
            series@.name == name@,
            series@.points.len() == 0,
    {
        DataSeries { name, data: Vec::new() }
    }

    /// The name of the series.
    pub fn name(&self) -> (name: &String)
        ensures
            name@ == self@.name,
    {
        &self.name
    }

    /// The points, in ascending order of x.
    pub fn data(&self) -> (data: &Vec<Point>)
        ensures
            data@ == self@.points,
    {
        &self.data
    }

    /// The number of points.
    pub fn len(&self) -> (n: usize)
        ensures
            n == self@.points.len(),
    {
        self.data.len()
    }

    /// Whether the series has no point.
    pub fn is_empty(&self) -> (b: bool)
        ensures
            b == (self@.points.len() == 0),
    {
        self.data.len() == 0
    }

    /// Adds a point behind the points whose x is at most its own.
    pub fn insert_point(&mut self, p: Point)
        requires
            old(self).wf(),
        ensures
            final(self).wf(),
            final(self)@.name == old(self)@.name,
            final(self)@.points == inserted(old(self)@.points, p),
    {
        let mut k = self.data.len();
        while k > 0 && self.data[k - 1].x.units > p.x.units
            invariant
                k <= self.data.len(),
                forall|i: int| k <= i < self.data.len() ==> (#[trigger] self.data@[i]).x.units > p.x.units,
            decreases k,
        {
            k -= 1;
        }
        proof {
            let points = self.data@;
            assert forall|i: int| 0 <= i < k implies (#[trigger] points[i]).x.units
                <= p.x.units by {
                assert(points[i].x.units <= points[k - 1].x.units);
            }
            lemma_count_at_most_sorted(points, p.x.units as int, k as int);
            lemma_inserted_sorted(points, p);
        }
        self.data.insert(k, p);
    }

    /// Takes out the point in the given row and returns it.
    pub fn delete_point(&mut self, row: usize) -> (r: Result<Point, StoreError>)
        requires
            old(self).wf(),
        ensures
            final(self).wf(),
            final(self)@.name == old(self)@.name,
            match r {
                Ok(p) => row < old(self)@.points.len() && p == old(self)@.points[row as int]
                    && final(self)@.points == old(self)@.points.remove(row as int),
                Err(e) => row >= old(self)@.points.len() && e == StoreError::IndexOutOfRange
                    && final(self)@.points == old(self)@.points,
            },
    {
        if row >= self.data.len() {
            return Err(StoreError::IndexOutOfRange);
        }
        proof {
            lemma_remove_sorted(self.data@, row as int);
        }
        Ok(self.data.remove(row))
    }

    /// The axis bounds for a chart of the series: the largest x and the
    /// largest y, or one and one for an empty series.
    pub fn get_bounds(&self) -> (bounds: (Decimal, Decimal))
        ensures
            are_bounds(self@.points, bounds),
    {
        if self.data.len() == 0 {
            return (Decimal::one(), Decimal::one());
        }
        let mut x_max = self.data[0].x;
        let mut y_max = self.data[0].y;
        let mut i: usize = 1;
        assert(self.data@.take(1)[0] == self.data@[0]);
        while i < self.data.len()
            invariant
                1 <= i <= self.data.len(),
                is_greatest_x(self.data@.take(i as int), x_max),
                is_greatest_y(self.data@.take(i as int), y_max),
            decreases self.data.len() - i,
        {
            let ghost seen = self.data@.take(i as int);
            let ghost next = self.data@.take(i + 1);
            let ghost ix = choose|j: int| 0 <= j < seen.len() && #[trigger] seen[j].x == x_max;
            let ghost iy = choose|j: int| 0 <= j < seen.len() && #[trigger] seen[j].y == y_max;
            let p = self.data[i];
            if p.x.units > x_max.units {
                x_max = p.x;
            }
            if p.y.units > y_max.units {
                y_max = p.y;
            }
            proof {
                assert(next[i as int] == p);
                assert(next[ix] == seen[ix] && next[iy] == seen[iy]);
                assert forall|j: int| 0 <= j < next.len() implies (#[trigger] next[j]).x.units
                    <= x_max.units by {
                    if j < i {
                        assert(next[j] == seen[j]);
                    }
                }
                assert forall|j: int| 0 <= j < next.len() implies (#[trigger] next[j]).y.units
                    <= y_max.units by {
                    if j < i {
                        assert(next[j] == seen[j]);
                    }
                }
            }
            i += 1;
        }
        assert(self.data@.take(i as int) =~= self.data@);
        (x_max, y_max)
    }
}

} // verus!
