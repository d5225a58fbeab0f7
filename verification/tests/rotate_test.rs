use tabled::records::Records;
use tabled::rotate::Rotate;
use tabled::table::Table;

fn sample() -> Table {
    let data: Vec<Vec<&str>> = vec![
        vec!["i32", "i32", "i32"],
        vec!["123", "456", "789"],
        vec!["234", "567", "891"],
    ];
    let rows: Vec<Vec<String>> = data
        .into_iter()
        .map(|row| row.into_iter().map(|s| s.to_owned()).collect())
        .collect();
    Table::new(Records::from_rows(rows))
}

fn rotated(turns: &[Rotate]) -> String {
    let mut table = sample();
    for turn in turns {
        turn.change(&mut table.records);
    }
    table.render()
}

#[test]
fn test_rotate() {
    assert_eq!(
        rotated(&[Rotate::Left, Rotate::Left, Rotate::Left, Rotate::Left]),
        sample().render()
    );
    assert_eq!(
        rotated(&[Rotate::Right, Rotate::Right, Rotate::Right, Rotate::Right]),
        sample().render()
    );
    assert_eq!(rotated(&[Rotate::Right, Rotate::Left]), sample().render());
    assert_eq!(rotated(&[Rotate::Left, Rotate::Right]), sample().render());
    assert_eq!(rotated(&[Rotate::Bottom, Rotate::Top]), sample().render());
    assert_eq!(rotated(&[Rotate::Bottom, Rotate::Bottom]), sample().render());
    assert_eq!(rotated(&[Rotate::Top, Rotate::Top]), sample().render());
}

#[test]
fn test_rotate_left_once() {
    assert_eq!(
        rotated(&[Rotate::Left]),
        "+-----+-----+-----+\n| i32 | 789 | 891 |\n+-----+-----+-----+\n| i32 | 456 | 567 |\n+-----+-----+-----+\n| i32 | 123 | 234 |\n+-----+-----+-----+"
    );
}

#[test]
fn test_rotate_right_once() {
    assert_eq!(
        rotated(&[Rotate::Right]),
        "+-----+-----+-----+\n| 234 | 123 | i32 |\n+-----+-----+-----+\n| 567 | 456 | i32 |\n+-----+-----+-----+\n| 891 | 789 | i32 |\n+-----+-----+-----+"
    );
}
