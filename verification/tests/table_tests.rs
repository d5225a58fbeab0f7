use tabled::config::ColorPair;
use tabled::entity::Entity;
use tabled::estimate::estimate_heights;
use tabled::estimate::estimate_widths;
use tabled::records::Records;
use tabled::span_setting::Span;
use tabled::table::Table;
use tabled::table::TableIteratorExt;

fn grid(data: Vec<Vec<&str>>) -> Records {
    let rows: Vec<Vec<String>> = data
        .into_iter()
        .map(|row| row.into_iter().map(|s| s.to_owned()).collect())
        .collect();
    Records::from_rows(rows)
}

#[test]
fn two_column_grid_widths_follow_content() {
    let table = Table::new(grid(vec![
        vec!["Year", "Name"],
        vec!["2021", "Le"],
        vec!["2021", "Al"],
        vec!["2021", "Do"],
        vec!["2021", "H0"],
    ]));
    assert_eq!(
        table.render(),
        "+------+------+\n| Year | Name |\n+------+------+\n| 2021 | Le   |\n+------+------+\n| 2021 | Al   |\n+------+------+\n| 2021 | Do   |\n+------+------+\n| 2021 | H0   |\n+------+------+"
    );
}

#[test]
fn every_line_has_the_same_width() {
    let table = Table::new(grid(vec![
        vec!["a", "bbb", "c"],
        vec!["dddd", "e", "ff"],
    ]));
    let out = table.render();
    let mut width = None;
    for line in out.split('\n') {
        let w = line.chars().count();
        match width {
            None => width = Some(w),
            Some(prev) => assert_eq!(prev, w),
        }
    }
}

#[test]
fn empty_grid_renders_nothing() {
    assert_eq!(Table::new(Records::new()).render(), "");
}

#[test]
fn rendering_twice_gives_the_same_text() {
    let table = Table::new(grid(vec![vec!["a", "bb"], vec!["ccc", "d"]]));
    assert_eq!(table.render(), table.render());
}

#[test]
fn rows_become_a_table() {
    let rows: Vec<Vec<String>> = vec![vec!["a".to_owned()], vec!["b".to_owned()]];
    let table = rows.table();
    assert_eq!(table.render(), "+---+\n| a |\n+---+\n| b |\n+---+");
}

#[test]
fn column_span_collapses_interior_border() {
    let mut table = Table::new(grid(vec![
        vec!["0", "1", "2"],
        vec!["1", "2", "3"],
        vec!["4", "5", "6"],
    ]));
    Span::column(2).change(&table.records, &mut table.cfg, Entity::Cell(1, 0));
    assert_eq!(
        table.render(),
        "+---+---+---+\n| 0 | 1 | 2 |\n+---+---+---+\n| 1     | 3 |\n+---+---+---+\n| 4 | 5 | 6 |\n+---+---+---+"
    );
}

#[test]
fn wide_span_grows_the_last_column() {
    let mut table = Table::new(grid(vec![
        vec!["Tabled Releases", "", ""],
        vec!["0", "1", "2"],
        vec!["4", "5", "6"],
    ]));
    Span::column(3).change(&table.records, &mut table.cfg, Entity::Cell(0, 0));
    assert_eq!(
        table.render(),
        "+---+---+---------+\n| Tabled Releases |\n+---+---+---------+\n| 0 | 1 | 2       |\n+---+---+---------+\n| 4 | 5 | 6       |\n+---+---+---------+"
    );
}

#[test]
fn row_span_crosses_the_separator() {
    let mut table = Table::new(grid(vec![vec!["a", "b"], vec!["", "d"]]));
    Span::row(2).change(&table.records, &mut table.cfg, Entity::Cell(0, 0));
    assert_eq!(
        table.render(),
        "+---+---+\n| a | b |\n|   |---+\n|   | d |\n+---+---+"
    );
}

#[test]
fn estimate_measures_multiline_cells() {
    let table = Table::new(grid(vec![vec!["a\nbb", "c"]]));
    let widths = estimate_widths(&table.records, &table.cfg);
    let heights = estimate_heights(&table.records, &table.cfg);
    assert_eq!(widths, vec![4, 3]);
    assert_eq!(heights, vec![2]);
}

#[test]
fn cell_color_brackets_its_content() {
    let mut table = Table::new(grid(vec![vec!["a"]]));
    table.cfg.set_text_color(
        Entity::Cell(0, 0),
        Some(ColorPair { prefix: "<p>".to_owned(), suffix: "<s>".to_owned() }),
    );
    assert_eq!(table.render(), "+---+\n|<p> a <s>|\n+---+");
}
