use tabled::margin_setting::Margin;
use tabled::records::Records;
use tabled::table::Table;

#[test]
fn static_table_with_margin() {
    let data: Vec<Vec<&str>> = vec![
        vec!["1", "2", "123"],
        vec!["1", "2", "123"],
        vec!["1", "2", "123"],
    ];
    let rows: Vec<Vec<String>> = data
        .into_iter()
        .map(|row| row.into_iter().map(|s| s.to_owned()).collect())
        .collect();
    let mut table = Table::new(Records::from_rows(rows));
    Margin::new(1, 2, 3, 4).change(&mut table.cfg);
    let table = table.render();
    let expected = "                  \n                  \n                  \n +---+---+-----+  \n | 1 | 2 | 123 |  \n +---+---+-----+  \n | 1 | 2 | 123 |  \n +---+---+-----+  \n | 1 | 2 | 123 |  \n +---+---+-----+  \n                  \n                  \n                  \n                  ";
    assert_eq!(table, expected);
}
