//! The store: every series of the program, in the order in which they were
//! loaded or added, and the index of the series being worked on.

use crate::decimal::Decimal;
use crate::series::{are_bounds, inserted, sorted_by_x, DataSeries, Point, SeriesModel, StoreError};
use vstd::prelude::*;

verus! {

/// The series of the program and the one that is selected.
pub struct Store {
    series: Vec<DataSeries>,
    selected_index: usize,
}

/// What a store is, to a specification.
pub struct StoreModel {
    pub series: Seq<SeriesModel>,
    pub selected: nat,
}

/// The series that a fresh store holds: no points, under the name `Graph`.
pub open spec fn default_series() -> SeriesModel {
    SeriesModel { name: "Graph"@, points: Seq::empty() }
}

impl View for Store {
    type V = StoreModel;

    closed spec fn view(&self) -> StoreModel {
        StoreModel {
            series: self.series@.map_values(|s: DataSeries| s@),
            selected: self.selected_index as nat,
        }
    }
}

impl StoreModel {
    /// The store that a program without stored data starts with: the
    /// default series alone.
    pub open spec fn fresh() -> StoreModel {
        StoreModel { series: seq![default_series()], selected: 0 }
    }

    /// There is at least one series, the selected index names one, and every
    /// series is in ascending order of x.
    pub open spec fn wf(self) -> bool {
        &&& self.series.len() >= 1
        &&& self.selected < self.series.len()
        &&& forall|i: int| 0 <= i < self.series.len() ==> sorted_by_x(#[trigger] self.series[i].points)
    }

    /// The selected series.
    pub open spec fn active(self) -> SeriesModel {
        self.series[self.selected as int]
    }

    /// The store with the points of one series replaced.
    pub open spec fn with_points(self, index: int, points: Seq<Point>) -> StoreModel {
        StoreModel {
            series: self.series.update(
                index,
                SeriesModel { name: self.series[index].name, points },
            ),
            selected: self.selected,
        }
    }
}

impl Store {
    /// The store is well formed; see [`StoreModel::wf`].
    pub open spec fn wf(&self) -> bool {
        self@.wf()
    }

    /// The model lists the views of the stored series, one for one.
    proof fn lemma_model(&self)
        ensures
            self@.series.len() == self.series@.len(),
            self@.selected == self.selected_index,
            forall|i: int| 0 <= i < self.series@.len() ==> self@.series[i] == (#[trigger] self.series@[i])@,
    {
    }

    /// A store with the default series alone.
    pub fn new() -> (store: Store)
        ensures
            store.wf(),
            store@ == StoreModel::fresh(),
    {
        let mut series = Vec::new();
        series.push(DataSeries::new());
        let store = Store { series, selected_index: 0 };
        proof {
            store.lemma_model();
            assert(store@.series[0].points =~= Seq::empty());
            assert(store@.series =~= seq![default_series()]);
        }
        store
    }

    /// A store of the given series with the first one selected, or the
    /// default store where no series is given.
    pub fn from_series(series: Vec<DataSeries>) -> (store: Store)
        requires
            forall|i: int| 0 <= i < series@.len() ==> (#[trigger] series@[i]).wf(),
        ensures
            store.wf(),
            store@.selected == 0,
            store@.series == if series@.len() == 0 {
                seq![default_series()]
            } else {
                series@.map_values(|s: DataSeries| s@)
            },
    {
        if series.len() == 0 {
            Store::new()
        } else {
            let store = Store { series, selected_index: 0 };
            proof {
                store.lemma_model();
            }
            store
        }
    }

    /// The number of series.
    pub fn len(&self) -> (n: usize)
        ensures
            n == self@.series.len(),
    {
        self.series.len()
    }

    /// The index of the selected series.
    pub fn selected_index(&self) -> (i: usize)
        ensures
            i == self@.selected,
    {
        self.selected_index
    }

    /// The series at `index`, if there is one.
    pub fn get(&self, index: usize) -> (r: Option<&DataSeries>)
        ensures
            match r {
                Some(s) => index < self@.series.len() && s@ == self@.series[index as int],
                None => index >= self@.series.len(),
            },
    {
        if index < self.series.len() {
            Some(&self.series[index])
        } else {
            None
        }
    }

    /// The selected series.
    pub fn active(&self) -> (s: &DataSeries)
        requires
            self.wf(),
        ensures
            s@ == self@.active(),
            s.wf(),
    {
        proof {
            self.lemma_model();
        }
        &self.series[self.selected_index]
    }

    /// Adds the point `(x, y)` to the series at `series_index`, behind the
    /// points whose x is at most `x`.
    pub fn insert_point(&mut self, series_index: usize, x: Decimal, y: Decimal) -> (r: Result<
        (),
        StoreError,
    >)
        requires
            old(self).wf(),
        ensures
            final(self).wf(),
            match r {
                Ok(_) => series_index < old(self)@.series.len() && final(self)@ == old(
                    self,
                )@.with_points(
                    series_index as int,
                    inserted(old(self)@.series[series_index as int].points, Point { x, y }),
                ),
                Err(e) => series_index >= old(self)@.series.len() && e
                    == StoreError::IndexOutOfRange && final(self)@ == old(self)@,
            },
    {
        if series_index >= self.series.len() {
            return Err(StoreError::IndexOutOfRange);
        }
        proof {
            self.lemma_model();
        }
        self.series[series_index].insert_point(Point { x, y });
        proof {
            self.lemma_model();
            assert(self@.series =~= old(self)@.with_points(
                series_index as int,
                inserted(old(self)@.series[series_index as int].points, Point { x, y }),
            ).series);
        }
        Ok(())
    }

    /// Takes the point in row `row_index` out of the series at
    /// `series_index` and returns it.
    pub fn delete_point(&mut self, series_index: usize, row_index: usize) -> (r: Result<
        Point,
        StoreError,
    >)
        requires
            old(self).wf(),
        ensures
            final(self).wf(),
            match r {
                Ok(p) => {
                    &&& series_index < old(self)@.series.len()
                    &&& row_index < old(self)@.series[series_index as int].points.len()
                    &&& p == old(self)@.series[series_index as int].points[row_index as int]
                    &&& final(self)@ == old(self)@.with_points(
                        series_index as int,
                        old(self)@.series[series_index as int].points.remove(row_index as int),
                    )
                },
                Err(e) => {
                    &&& e == StoreError::IndexOutOfRange
                    &&& final(self)@ == old(self)@
                    &&& series_index >= old(self)@.series.len() || row_index >= old(
                        self,
                    )@.series[series_index as int].points.len()
                },
            },
    {
        if series_index >= self.series.len() {
            return Err(StoreError::IndexOutOfRange);
        }
        proof {
            self.lemma_model();
        }
        let r = self.series[series_index].delete_point(row_index);
        proof {
            self.lemma_model();
            match r {
                Ok(_) => {
                    assert(self@.series =~= old(self)@.with_points(
                        series_index as int,
                        old(self)@.series[series_index as int].points.remove(row_index as int),
                    ).series);
                },
                Err(_) => {
                    assert(self@.series =~= old(self)@.series);
                },
            }
        }
        r
    }

    /// The axis bounds of the series at `series_index`: its largest x and
    /// its largest y, or one and one where it has no point.
    pub fn bounds(&self, series_index: usize) -> (r: Result<(Decimal, Decimal), StoreError>)
        ensures
            match r {
                Ok(b) => series_index < self@.series.len() && are_bounds(
                    self@.series[series_index as int].points,
                    b,
                ),
                Err(e) => series_index >= self@.series.len() && e == StoreError::IndexOutOfRange,
            },
    {
        if series_index >= self.series.len() {
            return Err(StoreError::IndexOutOfRange);
        }
        proof {
            self.lemma_model();
        }
        Ok(self.series[series_index].get_bounds())
    }

    /// Adds an empty series under the given name behind the others.
    pub fn add_series(&mut self, name: String)
        requires
            old(self).wf(),
        ensures
            final(self).wf(),
            final(self)@.selected == old(self)@.selected,
            final(self)@.series == old(self)@.series.push(
                SeriesModel { name: name@, points: Seq::empty() },
            ),
    {
        proof {
            self.lemma_model();
        }
        self.series.push(DataSeries::with_name(name));
        proof {
            self.lemma_model();
            let added = self@.series[self@.series.len() - 1];
            assert(added.points =~= Seq::empty());
            assert(self@.series =~= old(self)@.series.push(
                SeriesModel { name: name@, points: Seq::empty() },
            ));
        }
    }

    /// Makes the series at `index` the selected one.
    pub fn select(&mut self, index: usize) -> (r: Result<(), StoreError>)
        requires
            old(self).wf(),
        ensures
            final(self).wf(),
            final(self)@.series == old(self)@.series,
            match r {
                Ok(_) => index < old(self)@.series.len() && final(self)@.selected == index,
                Err(e) => index >= old(self)@.series.len() && e == StoreError::IndexOutOfRange
                    && final(self)@.selected == old(self)@.selected,
            },
    {
        if index >= self.series.len() {
            return Err(StoreError::IndexOutOfRange);
        }
        self.selected_index = index;
        Ok(())
    }
}

} // verus!
