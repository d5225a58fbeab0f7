use tabled::align_setting::Alignment;
use tabled::config::ColorPair;
use tabled::border_colored::BorderColored;
use tabled::border_colored::Symbol;
use tabled::entity::Entity;
use tabled::format_setting::Format;
use tabled::formatting::TabSize;
use tabled::formatting::TrimStrategy;
use tabled::margin_setting::Margin;
use tabled::panel::Footer;
use tabled::panel::Header;
use tabled::panel::HorizontalPanel;
use tabled::records::Records;
use tabled::static_color::StaticColor;
use tabled::table::Table;
use tabled::width_list::WidthList;

fn grid(data: Vec<Vec<&str>>) -> Records {
    let rows: Vec<Vec<String>> = data
        .into_iter()
        .map(|row| row.into_iter().map(|s| s.to_owned()).collect())
        .collect();
    Records::from_rows(rows)
}

#[test]
fn alignment_right_pads_on_the_left() {
    let mut table = Table::new(grid(vec![vec!["a"], vec!["bbb"]]));
    Alignment::right().change(&mut table.cfg, Entity::Global);
    assert_eq!(
        table.render(),
        "+-----+\n|   a |\n+-----+\n| bbb |\n+-----+"
    );
}

#[test]
fn alignment_center_splits_the_slack() {
    let mut table = Table::new(grid(vec![vec!["ab"], vec!["abcd"]]));
    Alignment::center().change(&mut table.cfg, Entity::Global);
    assert_eq!(
        table.render(),
        "+------+\n|  ab  |\n+------+\n| abcd |\n+------+"
    );
}

#[test]
fn alignment_bottom_drops_short_content() {
    let mut table = Table::new(grid(vec![vec!["a\nb", "c"]]));
    Alignment::bottom().change(&mut table.cfg, Entity::Column(1));
    assert_eq!(
        table.render(),
        "+---+---+\n| a |   |\n| b | c |\n+---+---+"
    );
}

#[test]
fn trim_horizontal_drops_blanks_around_lines() {
    let mut table = Table::new(grid(vec![vec!["  hi"]]));
    TrimStrategy::Horizontal.change(&mut table.cfg, Entity::Global);
    assert_eq!(table.render(), "+----+\n| hi |\n+----+");
}

#[test]
fn trim_vertical_drops_blank_lines() {
    let mut table = Table::new(grid(vec![vec!["\nhi"]]));
    TrimStrategy::Vertical.change(&mut table.cfg, Entity::Global);
    assert_eq!(table.render(), "+----+\n| hi |\n+----+");
}

#[test]
fn tab_size_changes_expansion() {
    let table = Table::new(grid(vec![vec!["a\tb"]]));
    assert_eq!(table.render(), "+--------+\n| a    b |\n+--------+");
    let mut narrow = Table::new(grid(vec![vec!["a\tb"]]));
    TabSize(1).change(&mut narrow.cfg);
    assert_eq!(narrow.render(), "+-----+\n| a b |\n+-----+");
}

#[test]
fn header_and_footer_wrap_the_rows() {
    let mut table = Table::new(grid(vec![vec!["x"]]));
    Header("H".to_owned()).change(&mut table.records, &mut table.cfg);
    Footer("F".to_owned()).change(&mut table.records, &mut table.cfg);
    assert_eq!(
        table.render(),
        "+---+\n| H |\n+---+\n| x |\n+---+\n| F |\n+---+"
    );
}

#[test]
fn horizontal_panel_spans_every_column() {
    let mut table = Table::new(grid(vec![vec!["a", "b"], vec!["c", "d"]]));
    HorizontalPanel::new(1, "mid".to_owned()).change(&mut table.records, &mut table.cfg);
    assert_eq!(
        table.render(),
        "+---+---+\n| a | b |\n+---+---+\n| mid   |\n+---+---+\n| c | d |\n+---+---+"
    );
}

#[test]
fn header_moves_cell_overrides_with_their_rows() {
    let mut table = Table::new(grid(vec![vec!["x"]]));
    table.cfg.set_text_color(
        Entity::Cell(0, 0),
        Some(ColorPair { prefix: "<p>".to_owned(), suffix: "<s>".to_owned() }),
    );
    Header("H".to_owned()).change(&mut table.records, &mut table.cfg);
    assert_eq!(
        table.render(),
        "+---+\n| H |\n+---+\n|<p> x <s>|\n+---+"
    );
}

#[test]
fn horizontal_panel_past_the_grid_is_ignored() {
    let mut table = Table::new(grid(vec![vec!["a"]]));
    HorizontalPanel::new(5, "mid".to_owned()).change(&mut table.records, &mut table.cfg);
    assert_eq!(table.render(), "+---+\n| a |\n+---+");
}

#[test]
fn width_list_overrides_the_estimate() {
    let table = Table::new(grid(vec![vec!["a", "b"]]));
    let list = WidthList::new(vec![4, 4]);
    let widths = list.change(&table.records).unwrap();
    let heights = tabled::estimate::estimate_heights(&table.records, &table.cfg);
    let out = tabled::render::render_grid(&table.records, &table.cfg, &widths, &heights);
    assert_eq!(out, "+----+----+\n| a  | b  |\n+----+----+");
}

#[test]
fn width_list_shorter_than_the_grid_is_ignored() {
    let table = Table::new(grid(vec![vec!["a", "b"]]));
    let list = WidthList::new(vec![4]);
    assert!(list.change(&table.records).is_none());
}

#[test]
fn width_list_from_a_vector() {
    let table = Table::new(grid(vec![vec!["a"]]));
    let list = WidthList::from(vec![3]);
    assert_eq!(list.change(&table.records), Some(vec![3]));
}

#[test]
fn entity_positions_walk_row_major() {
    assert_eq!(
        Entity::Global.positions(2, 2),
        vec![(0, 0), (0, 1), (1, 0), (1, 1)]
    );
    assert_eq!(Entity::Row(1).positions(2, 2), vec![(1, 0), (1, 1)]);
    assert_eq!(Entity::Column(0).positions(2, 2), vec![(0, 0), (1, 0)]);
    assert_eq!(Entity::Cell(1, 1).positions(2, 2), vec![(1, 1)]);
    assert_eq!(Entity::Row(5).positions(2, 2), vec![]);
}

#[test]
fn margin_fill_uses_the_given_characters() {
    let mut table = Table::new(grid(vec![vec!["a"]]));
    Margin::new(1, 1, 1, 1).fill('>', '<', 'v', '^').change(&mut table.cfg);
    assert_eq!(
        table.render(),
        "vvvvvvv\n>+---+<\n>| a |<\n>+---+<\n^^^^^^^"
    );
}

#[test]
fn format_content_rewrites_cells() {
    let mut table = Table::new(grid(vec![vec!["x"]]));
    let setting = Format::content(|s: &str| format!("({})", s));
    setting.change(&mut table.records, Entity::Global);
    assert_eq!(table.render(), "+-----+\n| (x) |\n+-----+");
}

#[test]
fn format_positioned_sees_the_position() {
    let mut table = Table::new(grid(vec![vec!["x", "y"]]));
    let setting = Format::positioned(|s: &str, pos: (usize, usize)| format!("{}{}", s, pos.1));
    setting.change(&mut table.records, Entity::Global);
    assert_eq!(table.render(), "+----+----+\n| x0 | y1 |\n+----+----+");
}

#[test]
fn static_color_keeps_its_sequences() {
    let color = StaticColor::new("\u{1b}[31m", "\u{1b}[39m");
    assert_eq!(color.get_prefix(), "\u{1b}[31m");
    assert_eq!(color.get_suffix(), "\u{1b}[39m");
}

#[test]
fn border_colored_wraps_every_glyph() {
    let mut table = Table::new(grid(vec![vec!["a"]]));
    let border = BorderColored::filled(Symbol::colored('*', "[".to_owned(), "]".to_owned()));
    border.change(&table.records, &mut table.cfg, Entity::Cell(0, 0));
    assert_eq!(table.render(), "[*][***][*]\n[*] a [*]\n[*][***][*]");
}
