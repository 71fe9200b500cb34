use tracktui::persist::{build_store, load, parse_row, save, to_rows};
use tracktui::{Column, DataSeries, Decimal, LoadError, Point, RowFault, Store};

fn pt(x: i64, y: i64) -> Point {
    Point { x: Decimal { units: x * 10_000 }, y: Decimal { units: y * 10_000 } }
}

fn row(fields: &[&str]) -> Vec<String> {
    fields.iter().map(|f| f.to_string()).collect()
}

fn store_ab() -> Store {
    let mut a = DataSeries::with_name("A".to_string());
    a.insert_point(pt(1, 2));
    a.insert_point(pt(3, 4));
    let mut b = DataSeries::with_name("B".to_string());
    b.insert_point(pt(0, 0));
    Store::from_series(vec![a, b])
}

fn series_of(store: &Store) -> Vec<(String, Vec<Point>)> {
    (0..store.len()).map(|i| {
        let s = store.get(i).unwrap();
        (s.name().clone(), s.data().clone())
    }).collect()
}

#[test]
fn save_writes_header_and_one_row_per_point() {
    let bytes = save(&store_ab()).unwrap();
    assert_eq!(String::from_utf8(bytes).unwrap(), "name,x,y\nA,1,2\nA,3,4\nB,0,0\n");
}

#[test]
fn save_then_load_gives_the_same_series() {
    let bytes = save(&store_ab()).unwrap();
    let loaded = load(&bytes).unwrap();
    let mut got = series_of(&loaded);
    got.sort_by(|a, b| a.0.cmp(&b.0));
    assert_eq!(
        got,
        vec![("A".to_string(), vec![pt(1, 2), pt(3, 4)]), ("B".to_string(), vec![pt(0, 0)])]
    );
}

#[test]
fn round_trip_keeps_fractions_signs_and_odd_names() {
    let mut s = DataSeries::with_name("a, \"quoted\"\nname".to_string());
    s.insert_point(Point { x: Decimal { units: -15_000 }, y: Decimal { units: 1 } });
    s.insert_point(Point { x: Decimal { units: 12_345 }, y: Decimal { units: -999_990_000 } });
    let mut t = DataSeries::with_name("".to_string());
    t.insert_point(pt(7, 7));
    let store = Store::from_series(vec![s, t]);
    let loaded = load(&save(&store).unwrap()).unwrap();
    assert_eq!(series_of(&loaded), series_of(&store));
}

#[test]
fn a_series_without_points_is_not_stored() {
    let mut store = store_ab();
    store.add_series("empty".to_string());
    let loaded = load(&save(&store).unwrap()).unwrap();
    assert_eq!(loaded.len(), 2);
    let loaded = load(&save(&Store::new()).unwrap()).unwrap();
    assert_eq!(series_of(&loaded), vec![("Graph".to_string(), vec![])]);
}

#[test]
fn load_groups_rows_by_name_in_first_seen_order() {
    let store = load(b"name,x,y\nB,2,0\nA,5,1\nB,1,0\nA,4,1\nC,0,0\nB,3,0\n").unwrap();
    assert_eq!(
        series_of(&store),
        vec![
            ("B".to_string(), vec![pt(1, 0), pt(2, 0), pt(3, 0)]),
            ("A".to_string(), vec![pt(4, 1), pt(5, 1)]),
            ("C".to_string(), vec![pt(0, 0)]),
        ]
    );
    assert_eq!(store.selected_index(), 0);
}

#[test]
fn load_keeps_file_order_among_equal_x() {
    let store = load(b"name,x,y\nA,1,3\nA,0,9\nA,1,1\nA,1,2\n").unwrap();
    assert_eq!(store.active().data(), &vec![pt(0, 9), pt(1, 3), pt(1, 1), pt(1, 2)]);
}

#[test]
fn load_skips_the_header_whatever_it_says() {
    let store = load(b"these,are,headers\nA,1,2\n").unwrap();
    assert_eq!(series_of(&store), vec![("A".to_string(), vec![pt(1, 2)])]);
}

#[test]
fn load_reads_any_decimal_text() {
    let store = load(b"name,x,y\nA,+1.50,-0.25\nA,007,.5\nA,2.,3.14159\n").unwrap();
    assert_eq!(
        store.active().data(),
        &vec![
            Point { x: Decimal { units: 15_000 }, y: Decimal { units: -2_500 } },
            Point { x: Decimal { units: 20_000 }, y: Decimal { units: 31_415 } },
            Point { x: Decimal { units: 70_000 }, y: Decimal { units: 5_000 } },
        ]
    );
}

#[test]
fn load_ignores_fields_behind_the_third() {
    let store = load(b"name,x,y,note\nA,1,2,hello\n").unwrap();
    assert_eq!(store.active().data(), &vec![pt(1, 2)]);
}

#[test]
fn load_without_rows_gives_the_default_series() {
    for bytes in [&b""[..], &b"name,x,y\n"[..], &b"name,x,y"[..]] {
        let store = load(bytes).unwrap();
        assert_eq!(series_of(&store), vec![("Graph".to_string(), vec![])]);
    }
}

#[test]
fn load_fails_on_a_row_of_another_length() {
    assert!(matches!(load(b"name,x,y\nA,1\n"), Err(LoadError::Malformed(_))));
    assert!(matches!(load(b"name,x,y\nA,1,2\nB,1,2,3\n"), Err(LoadError::Malformed(_))));
}

#[test]
fn load_fails_on_bytes_that_are_no_text() {
    let r = load(b"name,x,y\n\xff\xfe,1,2\n");
    assert!(matches!(r, Err(LoadError::Malformed(_))));
    let message = r.err().unwrap().message();
    assert!(!message.is_empty());
}

#[test]
fn load_fails_on_the_first_bad_row() {
    assert!(matches!(
        load(b"name,x,y\nA,1,2\nA,x,2\nA,1,y\n"),
        Err(LoadError::BadRow { row: 1, fault: RowFault::Invalid(Column::X) })
    ));
    assert!(matches!(
        load(b"name,x,y\nA,1,\n"),
        Err(LoadError::BadRow { row: 0, fault: RowFault::Invalid(Column::Y) })
    ));
    assert!(matches!(
        load(b"name,x\nA,1\n"),
        Err(LoadError::BadRow { row: 0, fault: RowFault::Missing(Column::Y) })
    ));
    assert!(matches!(
        load(b"name\nA\nB\n"),
        Err(LoadError::BadRow { row: 0, fault: RowFault::Missing(Column::X) })
    ));
    assert!(matches!(
        load(b"name,x,y\nA,1e3,2\n"),
        Err(LoadError::BadRow { row: 0, fault: RowFault::Invalid(Column::X) })
    ));
    assert!(matches!(
        load(b"name,x,y\nA,1,inf\n"),
        Err(LoadError::BadRow { row: 0, fault: RowFault::Invalid(Column::Y) })
    ));
}

#[test]
fn parse_row_names_the_first_fault() {
    assert_eq!(parse_row(&row(&[])), Err(RowFault::Missing(Column::Name)));
    assert_eq!(parse_row(&row(&["A"])), Err(RowFault::Missing(Column::X)));
    assert_eq!(parse_row(&row(&["A", "x"])), Err(RowFault::Invalid(Column::X)));
    assert_eq!(parse_row(&row(&["A", "1"])), Err(RowFault::Missing(Column::Y)));
    assert_eq!(parse_row(&row(&["A", "1", ""])), Err(RowFault::Invalid(Column::Y)));
    assert_eq!(parse_row(&row(&["A", "x", "y"])), Err(RowFault::Invalid(Column::X)));
    assert_eq!(parse_row(&row(&["A", "1", "2"])), Ok(("A".to_string(), pt(1, 2))));
    assert_eq!(parse_row(&row(&["", "1", "2", "3"])), Ok(("".to_string(), pt(1, 2))));
}

#[test]
fn fault_messages() {
    assert_eq!(RowFault::Missing(Column::Name).text(), "Missing name");
    assert_eq!(RowFault::Missing(Column::X).text(), "Missing x");
    assert_eq!(RowFault::Missing(Column::Y).text(), "Missing y");
    assert_eq!(RowFault::Invalid(Column::X).text(), "Invalid x");
    assert_eq!(RowFault::Invalid(Column::Y).text(), "Invalid y");
    assert_eq!(LoadError::BadRow { row: 3, fault: RowFault::Missing(Column::Y) }.message(), "Missing y");
    assert_eq!(LoadError::Malformed("broken".to_string()).message(), "broken");
}

#[test]
fn build_store_takes_rows_as_they_are() {
    let rows = vec![row(&["A", "2", "1"]), row(&["B", "1", "1"]), row(&["A", "1", "1"])];
    let store = build_store(&rows).unwrap();
    assert_eq!(
        series_of(&store),
        vec![("A".to_string(), vec![pt(1, 1), pt(2, 1)]), ("B".to_string(), vec![pt(1, 1)])]
    );
    assert!(matches!(
        build_store(&vec![row(&["A", "2", "1"]), row(&["B"])]),
        Err(LoadError::BadRow { row: 1, fault: RowFault::Missing(Column::X) })
    ));
    assert_eq!(series_of(&build_store(&Vec::new()).unwrap()), vec![("Graph".to_string(), vec![])]);
}

#[test]
fn to_rows_lists_the_header_and_every_point() {
    let rows = to_rows(&store_ab());
    assert_eq!(
        rows,
        vec![row(&["name", "x", "y"]), row(&["A", "1", "2"]), row(&["A", "3", "4"]), row(&["B", "0", "0"])]
    );
    assert_eq!(to_rows(&Store::new()), vec![row(&["name", "x", "y"])]);
}
