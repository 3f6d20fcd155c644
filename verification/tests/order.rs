use prawn::model::Observation;
use prawn::order::sort;
use prawn::time::Time;

#[test]
fn values_are_sorted_and_kept() {
    assert_eq!(sort(vec![3, -1, 3, 0, i64::MIN]), vec![i64::MIN, -1, 0, 3, 3]);
    assert_eq!(sort(Vec::<i64>::new()), Vec::<i64>::new());
    assert_eq!(sort(vec![1, 2, 3]), vec![1, 2, 3]);
}

#[test]
fn rows_of_one_time_keep_their_order() {
    let row = |name: &str, secs: i64, nanos: u32| {
        Observation::new(name.to_owned(), Time { secs, nanos })
    };
    let rows = sort(vec![
        row("a", 5, 0),
        row("b", 4, 9),
        row("c", 5, 0),
        row("d", 4, 8),
        row("e", 5, 0),
    ]);
    let names: Vec<&str> = rows.iter().map(|o| o.station.as_str()).collect();
    assert_eq!(names, vec!["d", "b", "a", "c", "e"]);
}
