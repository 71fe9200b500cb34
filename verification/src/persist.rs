//! Loading the store from the data file and saving it again.
//!
//! The file is a table with a header row and one row per point: the name of
//! the series, then x, then y. Loading groups the rows by name, in the order
//! in which the names first occur, and puts the points of each series in
//! ascending order of x. Saving writes the rows back, series by series.
//!
//! Reading and writing the file itself is left to the caller: this module
//! goes from bytes to a store and from a store to bytes.

use crate::csv_io::{csv_bytes, csv_records, error_text, read_records, write_records};
use crate::decimal::{decimal_text, parse_decimal, Decimal};
use crate::series::{inserted, sorted_by_x, DataSeries, Point, SeriesModel};
use crate::store::{default_series, Store, StoreModel};
use vstd::prelude::*;

verus! {

/// A column of the table.
#[derive(Clone, Copy, Debug, PartialEq, Eq, Structural)]
pub enum Column {
    Name,
    X,
    Y,
}

/// What is wrong with a row.
#[derive(Clone, Copy, Debug, PartialEq, Eq, Structural)]
pub enum RowFault {
    /// The row is too short to have the column.
    Missing(Column),
    /// The field of the column is no decimal text.
    Invalid(Column),
}

/// Why the data could not be loaded.
#[derive(Debug)]
pub enum LoadError {
    /// The bytes are no table; the text is the reader's message.
    Malformed(String),
    /// A row of the table is no point. Rows count from zero, behind the
    /// header.
    BadRow { row: usize, fault: RowFault },
}

/// A table: rows of fields.
pub type Table = Seq<Seq<Seq<char>>>;

// ---------------------------------------------------------------------------
// Rows
// ---------------------------------------------------------------------------

/// The series name and the point that a row stands for, or the first thing
/// wrong with it, going from left to right. Fields behind the third are
/// ignored.
pub open spec fn row_entry(row: Seq<Seq<char>>) -> Result<(Seq<char>, Point), RowFault> {
    if row.len() < 1 {
        Err(RowFault::Missing(Column::Name))
    } else if row.len() < 2 {
        Err(RowFault::Missing(Column::X))
    } else if parse_decimal(row[1]) is None {
        Err(RowFault::Invalid(Column::X))
    } else if row.len() < 3 {
        Err(RowFault::Missing(Column::Y))
    } else if parse_decimal(row[2]) is None {
        Err(RowFault::Invalid(Column::Y))
    } else {
        Ok((row[0], Point { x: parse_decimal(row[1])->0, y: parse_decimal(row[2])->0 }))
    }
}

/// The first row that is no point, with what is wrong with it.
pub open spec fn first_fault(rows: Table) -> Option<(int, RowFault)>
    decreases rows.len(),
{
    if rows.len() == 0 {
        None
    } else {
        match first_fault(rows.drop_last()) {
            Some(found) => Some(found),
            None => match row_entry(rows.last()) {
                Ok(_) => None,
                Err(fault) => Some((rows.len() - 1, fault)),
            },
        }
    }
}

/// The message of a fault.
pub open spec fn fault_text(fault: RowFault) -> Seq<char> {
    match fault {
        RowFault::Missing(Column::Name) => "Missing name"@,
        RowFault::Missing(Column::X) => "Missing x"@,
        RowFault::Missing(Column::Y) => "Missing y"@,
        RowFault::Invalid(Column::Name) => "Invalid name"@,
        RowFault::Invalid(Column::X) => "Invalid x"@,
        RowFault::Invalid(Column::Y) => "Invalid y"@,
    }
}

impl RowFault {
    /// The message of the fault.
    pub fn text(&self) -> (text: String)
        ensures
            text@ == fault_text(*self),
    {
        match self {
            RowFault::Missing(Column::Name) => "Missing name".to_owned(),
            RowFault::Missing(Column::X) => "Missing x".to_owned(),
            RowFault::Missing(Column::Y) => "Missing y".to_owned(),
            RowFault::Invalid(Column::Name) => "Invalid name".to_owned(),
            RowFault::Invalid(Column::X) => "Invalid x".to_owned(),
            RowFault::Invalid(Column::Y) => "Invalid y".to_owned(),
        }
    }
}

impl LoadError {
    /// The message of the error: the reader's own for a malformed table, that
    /// of the fault for a bad row.
    pub fn message(&self) -> (text: String)
        ensures
            match self {
                LoadError::Malformed(reason) => text@ == reason@,
                LoadError::BadRow { row, fault } => text@ == fault_text(*fault),
            },
    {
        match self {
            LoadError::Malformed(reason) => reason.clone(),
            LoadError::BadRow { row, fault } => fault.text(),
        }
    }
}

/// Reads one row.
pub fn parse_row(row: &Vec<String>) -> (r: Result<(String, Point), RowFault>)
    ensures
        match r {
            Ok((name, p)) => row_entry(row.deep_view()) == Ok::<(Seq<char>, Point), RowFault>(
                (name@, p),
            ),
            Err(fault) => row_entry(row.deep_view()) == Err::<(Seq<char>, Point), RowFault>(fault),
        },
{
    if row.len() < 1 {
        return Err(RowFault::Missing(Column::Name));
    }
    if row.len() < 2 {
        return Err(RowFault::Missing(Column::X));
    }
    let x = match Decimal::parse(row[1].as_str()) {
        Some(x) => x,
        None => {
            return Err(RowFault::Invalid(Column::X));
        },
    };
    if row.len() < 3 {
        return Err(RowFault::Missing(Column::Y));
    }
    let y = match Decimal::parse(row[2].as_str()) {
        Some(y) => y,
        None => {
            return Err(RowFault::Invalid(Column::Y));
        },
    };
    Ok((row[0].clone(), Point { x, y }))
}

// ---------------------------------------------------------------------------
// Grouping
// ---------------------------------------------------------------------------

/// The place of the first series with the given name.
pub open spec fn position_of(groups: Seq<SeriesModel>, name: Seq<char>) -> Option<int>
    decreases groups.len(),
{
    if groups.len() == 0 {
        None
    } else {
        match position_of(groups.drop_last(), name) {
            Some(i) => Some(i),
            None => if groups.last().name == name {
                Some(groups.len() - 1)
            } else {
                None
            },
        }
    }
}

/// The series with one more point: in the series of that name, behind the
/// points whose x is at most its own, or in a new series behind the others
/// where no series has the name yet.
pub open spec fn with_entry(groups: Seq<SeriesModel>, name: Seq<char>, p: Point) -> Seq<
    SeriesModel,
> {
    match position_of(groups, name) {
        Some(i) => groups.update(i, SeriesModel { name, points: inserted(groups[i].points, p) }),
        None => groups.push(SeriesModel { name, points: seq![p] }),
    }
}

/// The series that the rows of a table make up, taken row by row. A row that
/// is no point adds nothing.
pub open spec fn grouped(rows: Table) -> Seq<SeriesModel>
    decreases rows.len(),
{
    if rows.len() == 0 {
        Seq::empty()
    } else {
        match row_entry(rows.last()) {
            Ok(entry) => with_entry(grouped(rows.drop_last()), entry.0, entry.1),
            Err(_) => grouped(rows.drop_last()),
        }
    }
}

/// No two series have the same name.
pub open spec fn names_distinct(groups: Seq<SeriesModel>) -> bool {
    forall|i: int, j: int|
        0 <= i < j < groups.len() ==> (#[trigger] groups[i]).name != (#[trigger] groups[j]).name
}

/// Every series is in ascending order of x.
pub open spec fn all_sorted(groups: Seq<SeriesModel>) -> bool {
    forall|i: int| 0 <= i < groups.len() ==> sorted_by_x((#[trigger] groups[i]).points)
}

/// The store that a table without a bad row loads as: its series in the
/// order in which their names first occur, or the default series where the
/// table has no row, with the first series selected.
pub open spec fn loaded_store(rows: Table) -> StoreModel {
    StoreModel {
        series: if grouped(rows).len() == 0 {
            seq![default_series()]
        } else {
            grouped(rows)
        },
        selected: 0,
    }
}

/// The views of a list of series.
pub open spec fn models(series: Seq<DataSeries>) -> Seq<SeriesModel> {
    series.map_values(|s: DataSeries| s@)
}

/// A series of the name with no series of the name before it is the place
/// of the name.
pub proof fn lemma_position_found(groups: Seq<SeriesModel>, name: Seq<char>, i: int)
    requires
        0 <= i < groups.len(),
        groups[i].name == name,
        forall|j: int| 0 <= j < i ==> (#[trigger] groups[j]).name != name,
    ensures
        position_of(groups, name) == Some(i),
    decreases groups.len(),
{
    let front = groups.drop_last();
    if i < groups.len() - 1 {
        lemma_position_found(front, name, i);
    } else {
        lemma_position_none(front, name);
    }
}

/// Where no series has the name, the name has no place.
pub proof fn lemma_position_none(groups: Seq<SeriesModel>, name: Seq<char>)
    requires
        forall|j: int| 0 <= j < groups.len() ==> (#[trigger] groups[j]).name != name,
    ensures
        position_of(groups, name) is None,
    decreases groups.len(),
{
    if groups.len() > 0 {
        lemma_position_none(groups.drop_last(), name);
    }
}

/// Where a name has a place, the series there has the name and none before
/// it has; where it has none, no series has the name.
pub proof fn lemma_position_of(groups: Seq<SeriesModel>, name: Seq<char>)
    ensures
        match position_of(groups, name) {
            Some(i) => 0 <= i < groups.len() && groups[i].name == name && forall|j: int|
                0 <= j < i ==> (#[trigger] groups[j]).name != name,
            None => forall|j: int| 0 <= j < groups.len() ==> (#[trigger] groups[j]).name != name,
        },
    decreases groups.len(),
{
    if groups.len() > 0 {
        let front = groups.drop_last();
        lemma_position_of(front, name);
        match position_of(front, name) {
            Some(i) => {
                assert(groups[i] == front[i]);
                assert forall|j: int| 0 <= j < i implies (#[trigger] groups[j]).name != name by {
                    assert(groups[j] == front[j]);
                }
            },
            None => {
                assert forall|j: int| 0 <= j < groups.len() - 1 implies (#[trigger] groups[j]).name
                    != name by {
                    assert(groups[j] == front[j]);
                }
            },
        }
    }
}

/// One more point keeps the names distinct and the series sorted.
pub proof fn lemma_with_entry(groups: Seq<SeriesModel>, name: Seq<char>, p: Point)
    requires
        names_distinct(groups),
        all_sorted(groups),
    ensures
        names_distinct(with_entry(groups, name, p)),
        all_sorted(with_entry(groups, name, p)),
{
    lemma_position_of(groups, name);
    let out = with_entry(groups, name, p);
    match position_of(groups, name) {
        Some(i) => {
            crate::series::lemma_inserted_sorted(groups[i].points, p);
            assert forall|a: int, b: int| 0 <= a < b < out.len() implies (#[trigger] out[a]).name != (
            #[trigger] out[b]).name by {
                assert(out[a].name == groups[a].name && out[b].name == groups[b].name);
            }
            assert forall|a: int| 0 <= a < out.len() implies sorted_by_x(
                (#[trigger] out[a]).points,
            ) by {
                if a != i {
                    assert(out[a] == groups[a]);
                }
            }
        },
        None => {
            assert forall|a: int, b: int| 0 <= a < b < out.len() implies (#[trigger] out[a]).name != (
            #[trigger] out[b]).name by {
                assert(out[a] == groups[a]);
                if b < groups.len() {
                    assert(out[b] == groups[b]);
                }
            }
            assert forall|a: int| 0 <= a < out.len() implies sorted_by_x(
                (#[trigger] out[a]).points,
            ) by {
                if a < groups.len() {
                    assert(out[a] == groups[a]);
                }
            }
        },
    }
}

/// The points of the rows that carry the given name, in the order of the
/// rows. A row that is no point has none.
pub open spec fn points_named(rows: Table, name: Seq<char>) -> Seq<Point>
    decreases rows.len(),
{
    if rows.len() == 0 {
        Seq::empty()
    } else {
        match row_entry(rows.last()) {
            Ok(entry) => if entry.0 == name {
                points_named(rows.drop_last(), name).push(entry.1)
            } else {
                points_named(rows.drop_last(), name)
            },
            Err(_) => points_named(rows.drop_last(), name),
        }
    }
}

/// The place of a name depends on the names alone.
proof fn lemma_position_by_names(a: Seq<SeriesModel>, b: Seq<SeriesModel>, name: Seq<char>)
    requires
        a.len() == b.len(),
        forall|i: int| 0 <= i < a.len() ==> (#[trigger] a[i]).name == (#[trigger] b[i]).name,
    ensures
        position_of(a, name) == position_of(b, name),
    decreases a.len(),
{
    if a.len() > 0 {
        assert(a.last().name == b.last().name) by {
            assert(a[a.len() - 1].name == b[a.len() - 1].name);
        }
        assert forall|i: int| 0 <= i < a.len() - 1 implies (#[trigger] a.drop_last()[i]).name == (
        #[trigger] b.drop_last()[i]).name by {
            assert(a[i].name == b[i].name);
        }
        lemma_position_by_names(a.drop_last(), b.drop_last(), name);
    }
}

/// What loading makes of the rows with one name: where there are such rows,
/// one series of that name, which holds their points in ascending order of
/// x, those with the same x in the order of the rows; where there are none,
/// no series of that name.
pub proof fn lemma_grouped_by_name(rows: Table, name: Seq<char>)
    ensures
        match position_of(grouped(rows), name) {
            Some(i) => 0 <= i < grouped(rows).len() && grouped(rows)[i].name == name && grouped(
                rows,
            )[i].points == crate::series::stable_sorted(points_named(rows, name))
                && points_named(rows, name).len() > 0,
            None => points_named(rows, name).len() == 0,
        },
    decreases rows.len(),
{
    if rows.len() > 0 {
        let front = rows.drop_last();
        lemma_grouped_by_name(front, name);
        let groups = grouped(front);
        lemma_position_of(groups, name);
        match row_entry(rows.last()) {
            Ok(entry) => {
                let (n, p) = entry;
                let out = with_entry(groups, n, p);
                lemma_position_of(groups, n);
                let named = points_named(front, name);
                match position_of(groups, n) {
                    Some(k) => {
                        assert forall|i: int| 0 <= i < groups.len() implies (#[trigger] groups[i]).name
                            == (#[trigger] out[i]).name by {}
                        lemma_position_by_names(groups, out, name);
                        if n == name {
                            assert(named.push(p).drop_last() =~= named);
                        }
                    },
                    None => {
                        assert(out.drop_last() =~= groups);
                        if n == name {
                            assert(named =~= Seq::<Point>::empty());
                            assert(named.push(p).drop_last() =~= named);
                            assert(crate::series::stable_sorted(named) =~= Seq::<Point>::empty());
                            assert(inserted(Seq::<Point>::empty(), p) =~= seq![p]);
                        }
                    },
                }
            },
            Err(_) => {},
        }
    }
}

/// Loading never yields two series of one name, and every series it yields
/// is in ascending order of x.
pub proof fn lemma_grouped(rows: Table)
    ensures
        names_distinct(grouped(rows)),
        all_sorted(grouped(rows)),
        loaded_store(rows).wf(),
    decreases rows.len(),
{
    if rows.len() > 0 {
        lemma_grouped(rows.drop_last());
        match row_entry(rows.last()) {
            Ok(entry) => {
                lemma_with_entry(grouped(rows.drop_last()), entry.0, entry.1);
            },
            Err(_) => {},
        }
    }
    let g = grouped(rows);
    if g.len() > 0 {
        assert forall|i: int| 0 <= i < g.len() implies sorted_by_x(#[trigger] g[i].points) by {
            assert(sorted_by_x(g[i].points));
        }
    } else {
        assert(default_series().points.len() == 0);
    }
}

// ---------------------------------------------------------------------------
// Loading
// ---------------------------------------------------------------------------

/// The place of the first series with the given name.
fn find_series(series: &Vec<DataSeries>, name: &String) -> (r: Option<usize>)
    ensures
        match r {
            Some(i) => position_of(models(series@), name@) == Some(i as int),
            None => position_of(models(series@), name@) is None,
        },
{
    let ghost groups = models(series@);
    let mut i: usize = 0;
    while i < series.len()
        invariant
            i <= series.len(),
            groups == models(series@),
            forall|j: int| 0 <= j < i ==> (#[trigger] groups[j]).name != name@,
        decreases series.len() - i,
    {
        if *series[i].name() == *name {
            proof {
                lemma_position_found(groups, name@, i as int);
            }
            return Some(i);
        }
        i += 1;
    }
    proof {
        lemma_position_none(groups, name@);
    }
    None
}

/// Adds a point to the series of the given name, or to a new series of that
/// name behind the others.
fn add_entry(series: &mut Vec<DataSeries>, name: String, p: Point)
    requires
        all_sorted(models(old(series)@)),
    ensures
        models(final(series)@) == with_entry(models(old(series)@), name@, p),
{
    let ghost before = models(series@);
    match find_series(series, &name) {
        Some(i) => {
            proof {
                lemma_position_of(before, name@);
                assert(before[i as int] == series@[i as int]@);
            }
            series[i].insert_point(p);
            proof {
                assert(models(series@) =~= with_entry(before, name@, p));
            }
        },
        None => {
            let mut fresh = DataSeries::with_name(name);
            fresh.insert_point(p);
            proof {
                assert(fresh@.points =~= seq![p]);
            }
            series.push(fresh);
            proof {
                assert(models(series@) =~= with_entry(before, name@, p));
            }
        },
    }
}

/// Builds the store from the rows of a table. The first row that is no
/// point fails the whole table.
pub fn build_store(rows: &Vec<Vec<String>>) -> (r: Result<Store, LoadError>)
    ensures
        match r {
            Ok(store) => first_fault(rows.deep_view()) is None && store.wf() && store@
                == loaded_store(rows.deep_view()),
            Err(LoadError::BadRow { row, fault }) => first_fault(rows.deep_view()) == Some(
                (row as int, fault),
            ),
            Err(LoadError::Malformed(_)) => false,
        },
{
    let ghost table = rows.deep_view();
    let mut series: Vec<DataSeries> = Vec::new();
    let mut k: usize = 0;
    assert(table.take(0) =~= Seq::empty());
    while k < rows.len()
        invariant
            k <= rows.len(),
            table == rows.deep_view(),
            first_fault(table.take(k as int)) is None,
            models(series@) == grouped(table.take(k as int)),
        decreases rows.len() - k,
    {
        proof {
            assert(table.take(k + 1).drop_last() =~= table.take(k as int));
            assert(table.take(k + 1).last() == rows@[k as int].deep_view());
            lemma_grouped(table.take(k as int));
        }
        match parse_row(&rows[k]) {
            Ok((name, p)) => {
                add_entry(&mut series, name, p);
            },
            Err(fault) => {
                proof {
                    lemma_first_fault_stays(table, k + 1);
                }
                return Err(LoadError::BadRow { row: k, fault });
            },
        }
        k += 1;
    }
    proof {
        assert(table.take(k as int) =~= table);
        lemma_grouped(table);
        assert forall|i: int| 0 <= i < series@.len() implies (#[trigger] series@[i]).wf() by {
            assert(models(series@)[i] == series@[i]@);
        }
    }
    Ok(Store::from_series(series))
}

/// The first fault of the first rows of a table is the first fault of the
/// table.
proof fn lemma_first_fault_stays(rows: Table, k: int)
    requires
        0 <= k <= rows.len(),
        first_fault(rows.take(k)) is Some,
    ensures
        first_fault(rows) == first_fault(rows.take(k)),
    decreases rows.len() - k,
{
    if k < rows.len() {
        assert(rows.take(k + 1).drop_last() =~= rows.take(k));
        lemma_first_fault_stays(rows, k + 1);
    } else {
        assert(rows.take(k) =~= rows);
    }
}

/// Loads the store from the bytes of the data file.
pub fn load(bytes: &[u8]) -> (r: Result<Store, LoadError>)
    ensures
        match csv_records(bytes@) {
            Some(rows) => match r {
                Ok(store) => first_fault(rows) is None && store.wf() && store@ == loaded_store(
                    rows,
                ),
                Err(LoadError::BadRow { row, fault }) => first_fault(rows) == Some(
                    (row as int, fault),
                ),
                Err(LoadError::Malformed(_)) => false,
            },
            None => r matches Err(LoadError::Malformed(_)),
        },
{
    match read_records(bytes) {
        Ok(rows) => build_store(&rows),
        Err(e) => Err(LoadError::Malformed(error_text(&e))),
    }
}

// ---------------------------------------------------------------------------
// Saving
// ---------------------------------------------------------------------------

/// The header row of the table.
pub open spec fn header_row() -> Seq<Seq<char>> {
    seq!["name"@, "x"@, "y"@]
}

/// The row of one point of a series.
pub open spec fn point_row(name: Seq<char>, p: Point) -> Seq<Seq<char>> {
    seq![name, decimal_text(p.x.units as int), decimal_text(p.y.units as int)]
}

/// The rows of a series: one for each point, in the order of the points.
pub open spec fn series_rows(series: SeriesModel) -> Table {
    Seq::new(series.points.len(), |i: int| point_row(series.name, series.points[i]))
}

/// The rows of a list of series: those of the first, then those of the
/// second, and so on.
pub open spec fn data_rows(series: Seq<SeriesModel>) -> Table
    decreases series.len(),
{
    if series.len() == 0 {
        Seq::empty()
    } else {
        data_rows(series.drop_last()) + series_rows(series.last())
    }
}

/// The table that a store is saved as: the header, then the rows of every
/// series.
pub open spec fn table_of(store: StoreModel) -> Table {
    seq![header_row()] + data_rows(store.series)
}

/// The series that have at least one point, in their order.
pub open spec fn with_points_only(series: Seq<SeriesModel>) -> Seq<SeriesModel>
    decreases series.len(),
{
    if series.len() == 0 {
        Seq::empty()
    } else if series.last().points.len() > 0 {
        with_points_only(series.drop_last()).push(series.last())
    } else {
        with_points_only(series.drop_last())
    }
}

/// The row that is written for a point reads back as the point.
pub proof fn lemma_point_row_reads_back(name: Seq<char>, p: Point)
    ensures
        row_entry(point_row(name, p)) == Ok::<(Seq<char>, Point), RowFault>((name, p)),
{
    crate::decimal::lemma_decimal_round_trip(p.x);
    crate::decimal::lemma_decimal_round_trip(p.y);
}

/// Behind rows without a fault, the first rows of a sorted series whose name
/// the rows do not hold load as one more series with the first points.
proof fn lemma_series_rows_load(rows: Table, s: SeriesModel, j: int)
    requires
        first_fault(rows) is None,
        0 <= j <= s.points.len(),
        sorted_by_x(s.points),
        position_of(grouped(rows), s.name) is None,
    ensures
        first_fault(rows + series_rows(s).take(j)) is None,
        grouped(rows + series_rows(s).take(j)) == if j == 0 {
            grouped(rows)
        } else {
            grouped(rows).push(SeriesModel { name: s.name, points: s.points.take(j) })
        },
    decreases j,
{
    let all = rows + series_rows(s).take(j);
    if j == 0 {
        assert(all =~= rows);
    } else {
        lemma_series_rows_load(rows, s, j - 1);
        let p = s.points[j - 1];
        let before = rows + series_rows(s).take(j - 1);
        assert(all.drop_last() =~= before);
        assert(all.last() == point_row(s.name, p));
        lemma_point_row_reads_back(s.name, p);
        let base = grouped(rows);
        lemma_position_of(base, s.name);
        if j == 1 {
            assert(s.points.take(1) =~= seq![p]);
        } else {
            let earlier = s.points.take(j - 1);
            let groups = base.push(SeriesModel { name: s.name, points: earlier });
            assert forall|k: int| 0 <= k < base.len() implies (#[trigger] groups[k]).name
                != s.name by {
                assert(groups[k] == base[k]);
            }
            lemma_position_found(groups, s.name, base.len() as int);
            assert forall|k: int| 0 <= k < earlier.len() implies (#[trigger] earlier[k]).x.units
                <= p.x.units by {
                assert(earlier[k] == s.points[k]);
            }
            crate::series::lemma_count_at_most_sorted(earlier, p.x.units as int, j - 1);
            assert(inserted(earlier, p) =~= s.points.take(j));
            assert(with_entry(groups, s.name, p) =~= base.push(
                SeriesModel { name: s.name, points: s.points.take(j) },
            ));
        }
    }
}

/// Every series with points is one of the series.
proof fn lemma_with_points_only_members(series: Seq<SeriesModel>)
    ensures
        forall|i: int|
            0 <= i < with_points_only(series).len() ==> exists|j: int|
                0 <= j < series.len() && series[j] == #[trigger] with_points_only(series)[i],
    decreases series.len(),
{
    if series.len() > 0 {
        let front = series.drop_last();
        lemma_with_points_only_members(front);
        let kept = with_points_only(series);
        assert forall|i: int| 0 <= i < kept.len() implies exists|j: int|
            0 <= j < series.len() && series[j] == #[trigger] kept[i] by {
            if i < with_points_only(front).len() {
                let j = choose|j: int|
                    0 <= j < front.len() && front[j] == with_points_only(front)[i];
                assert(series[j] == kept[i]);
            } else {
                assert(series[series.len() - 1] == kept[i]);
            }
        }
    }
}

/// Loading the rows that saving writes gives back the series that have
/// points, in their order and with their points in their order, where the
/// series have distinct names and are sorted. A series without points has no
/// row and is not stored.
pub proof fn lemma_saved_rows_load_back(series: Seq<SeriesModel>)
    requires
        names_distinct(series),
        all_sorted(series),
    ensures
        first_fault(data_rows(series)) is None,
        grouped(data_rows(series)) == with_points_only(series),
    decreases series.len(),
{
    if series.len() > 0 {
        let front = series.drop_last();
        let last = series.last();
        assert(names_distinct(front) && all_sorted(front)) by {
            assert forall|i: int, j: int| 0 <= i < j < front.len() implies (#[trigger] front[i]).name
                != (#[trigger] front[j]).name by {
                assert(front[i] == series[i] && front[j] == series[j]);
            }
            assert forall|i: int| 0 <= i < front.len() implies sorted_by_x(
                (#[trigger] front[i]).points,
            ) by {
                assert(front[i] == series[i]);
            }
        }
        lemma_saved_rows_load_back(front);
        let kept = with_points_only(front);
        lemma_with_points_only_members(front);
        assert forall|i: int| 0 <= i < kept.len() implies (#[trigger] kept[i]).name
            != last.name by {
            let j = choose|j: int| 0 <= j < front.len() && front[j] == kept[i];
            assert(series[j] == front[j]);
            assert(series[j].name != series[series.len() - 1].name);
        }
        lemma_position_none(kept, last.name);
        assert(sorted_by_x(series[series.len() - 1].points));
        lemma_series_rows_load(data_rows(front), last, last.points.len() as int);
        assert(series_rows(last).take(last.points.len() as int) =~= series_rows(last));
        assert(last.points.take(last.points.len() as int) =~= last.points);
    }
}

/// Saving a store and loading what was saved gives the store back, with the
/// first series selected, where its series have distinct names and each has
/// a point.
pub proof fn lemma_store_round_trip(store: StoreModel)
    requires
        store.wf(),
        names_distinct(store.series),
        forall|i: int| 0 <= i < store.series.len() ==> (#[trigger] store.series[i]).points.len() > 0,
    ensures
        first_fault(data_rows(store.series)) is None,
        loaded_store(data_rows(store.series)) == (StoreModel { selected: 0, ..store }),
{
    lemma_saved_rows_load_back(store.series);
    lemma_all_have_points(store.series);
}

/// Where every series has a point, the series with points are all series.
proof fn lemma_all_have_points(series: Seq<SeriesModel>)
    requires
        forall|i: int| 0 <= i < series.len() ==> (#[trigger] series[i]).points.len() > 0,
    ensures
        with_points_only(series) == series,
    decreases series.len(),
{
    if series.len() > 0 {
        let front = series.drop_last();
        assert forall|i: int| 0 <= i < front.len() implies (#[trigger] front[i]).points.len()
            > 0 by {
            assert(front[i] == series[i]);
        }
        lemma_all_have_points(front);
        assert(series[series.len() - 1].points.len() > 0);
        assert(front.push(series.last()) =~= series);
    }
}

/// The row of one point.
fn row_of(name: &String, p: &Point) -> (row: Vec<String>)
    ensures
        row.deep_view() == point_row(name@, *p),
{
    let mut row: Vec<String> = Vec::new();
    row.push(name.clone());
    row.push(p.x.to_text());
    row.push(p.y.to_text());
    assert(row.deep_view() =~= point_row(name@, *p));
    row
}

/// The table that the store is saved as.
pub fn to_rows(store: &Store) -> (rows: Vec<Vec<String>>)
    ensures
        rows.deep_view() == table_of(store@),
{
    let mut header: Vec<String> = Vec::new();
    header.push("name".to_owned());
    header.push("x".to_owned());
    header.push("y".to_owned());
    assert(header.deep_view() =~= header_row());
    let mut rows: Vec<Vec<String>> = Vec::new();
    rows.push(header);
    assert(rows.deep_view() =~= seq![header_row()]);
    let mut i: usize = 0;
    assert(store@.series.take(0) =~= Seq::empty());
    while i < store.len()
        invariant
            i <= store@.series.len(),
            rows.deep_view() == seq![header_row()] + data_rows(store@.series.take(i as int)),
        decreases store@.series.len() - i,
    {
        let series = store.get(i).unwrap();
        let ghost done = rows.deep_view();
        let ghost model = series@;
        let mut j: usize = 0;
        assert(series_rows(model).take(0) =~= Seq::empty());
        while j < series.len()
            invariant
                j <= model.points.len(),
                model == series@,
                rows.deep_view() == done + series_rows(model).take(j as int),
            decreases model.points.len() - j,
        {
            let ghost before = rows.deep_view();
            let row = row_of(series.name(), &series.data()[j]);
            rows.push(row);
            proof {
                assert(rows.deep_view() =~= before.push(row.deep_view()));
                assert(series_rows(model).take(j + 1) =~= series_rows(model).take(j as int).push(
                    point_row(model.name, model.points[j as int]),
                ));
            }
            j += 1;
        }
        proof {
            assert(series_rows(model).take(j as int) =~= series_rows(model));
            assert(store@.series.take(i + 1).drop_last() =~= store@.series.take(i as int));
            assert(store@.series.take(i + 1).last() == model);
            assert(rows.deep_view() =~= seq![header_row()] + data_rows(store@.series.take(i + 1)));
        }
        i += 1;
    }
    assert(store@.series.take(i as int) =~= store@.series);
    rows
}

/// The bytes of the data file for the store, or the writer's message where
/// it reports an error.
pub fn save(store: &Store) -> (r: Result<Vec<u8>, String>)
    ensures
        match csv_bytes(table_of(store@)) {
            Some(bytes) => r matches Ok(out) && out@ == bytes,
            None => r is Err,
        },
{
    let rows = to_rows(store);
    match write_records(&rows) {
        Ok(bytes) => Ok(bytes),
        Err(e) => Err(error_text(&e)),
    }
}

} // verus!
