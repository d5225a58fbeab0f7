use tabled::config::GridConfig;
use tabled::entity::Entity;
use tabled::records::Records;
use tabled::render::render_grid;
use tabled::truncate::decrease_widths;
use tabled::truncate::truncate_text;
use tabled::truncate::Priority;
use tabled::truncate::SuffixLimit;
use tabled::truncate::Truncate;

fn grid(data: Vec<Vec<&str>>) -> Records {
    let rows: Vec<Vec<String>> = data
        .into_iter()
        .map(|row| row.into_iter().map(|s| s.to_owned()).collect())
        .collect();
    Records::from_rows(rows)
}

#[test]
fn truncate_cell_appends_the_suffix() {
    let mut records = grid(vec![vec!["hello world"]]);
    let cfg = GridConfig::new();
    let cut = Truncate::new(5).suffix("...".to_owned());
    cut.change(&mut records, &cfg, Entity::Cell(0, 0));
    assert_eq!(records.get(0, 0).as_str(), "he...");
}

#[test]
fn truncate_cell_within_budget_is_untouched() {
    let mut records = grid(vec![vec!["hi"]]);
    let cfg = GridConfig::new();
    let cut = Truncate::new(5).suffix("...".to_owned());
    cut.change(&mut records, &cfg, Entity::Cell(0, 0));
    assert_eq!(records.get(0, 0).as_str(), "hi");
}

#[test]
fn oversized_suffix_is_cut_by_default() {
    let mut records = grid(vec![vec!["hello world"]]);
    let cfg = GridConfig::new();
    let cut = Truncate::new(2).suffix("...".to_owned());
    cut.change(&mut records, &cfg, Entity::Cell(0, 0));
    assert_eq!(records.get(0, 0).as_str(), "..");
}

#[test]
fn oversized_suffix_can_be_dropped() {
    let mut records = grid(vec![vec!["hello world"]]);
    let cfg = GridConfig::new();
    let cut = Truncate::new(2).suffix("...".to_owned()).suffix_limit(SuffixLimit::Ignore);
    cut.change(&mut records, &cfg, Entity::Cell(0, 0));
    assert_eq!(records.get(0, 0).as_str(), "he");
}

#[test]
fn oversized_suffix_can_be_replaced() {
    let mut records = grid(vec![vec!["hello world"]]);
    let cfg = GridConfig::new();
    let cut = Truncate::new(2).suffix("...".to_owned()).suffix_limit(SuffixLimit::Replace('*'));
    cut.change(&mut records, &cfg, Entity::Cell(0, 0));
    assert_eq!(records.get(0, 0).as_str(), "**");
}

#[test]
fn truncate_to_zero_empties_the_cell() {
    let mut records = grid(vec![vec!["hello"]]);
    let cfg = GridConfig::new();
    Truncate::new(0).change(&mut records, &cfg, Entity::Cell(0, 0));
    assert_eq!(records.get(0, 0).as_str(), "");
}

#[test]
fn truncate_text_cuts_after_tab_expansion() {
    assert_eq!(Truncate::truncate_text("a\tb", 5, 4), "a    ");
}

#[test]
fn suffix_color_repeats_the_open_style() {
    let content = "\u{1b}[31mredtext";
    let plain = truncate_text(content, 12, "+X", false);
    assert_eq!(plain, "\u{1b}[31mredtext+X");
    let colored = truncate_text(content, 12, "+X", true);
    assert_ne!(colored, plain);
    assert!(colored.starts_with("\u{1b}[31mredtext"));
    assert!(colored.contains("+X"));
    assert!(colored.len() > plain.len());
}

#[test]
fn suffix_color_on_plain_text_appends_plainly() {
    let out = truncate_text("plain", 5, "+X", true);
    assert_eq!(out, "plain+X");
}

#[test]
fn decrease_widths_round_robin() {
    let mut widths = vec![5, 5];
    decrease_widths(&mut widths, &vec![2, 2], 4, Priority::PriorityNone);
    assert_eq!(widths, vec![3, 3]);
}

#[test]
fn decrease_widths_takes_from_the_widest() {
    let mut widths = vec![5, 9];
    decrease_widths(&mut widths, &vec![0, 0], 3, Priority::PriorityMax);
    assert_eq!(widths, vec![5, 6]);
}

#[test]
fn decrease_widths_takes_from_the_narrowest() {
    let mut widths = vec![5, 9];
    decrease_widths(&mut widths, &vec![0, 0], 3, Priority::PriorityMin);
    assert_eq!(widths, vec![2, 9]);
}

#[test]
fn decrease_widths_stops_at_the_floor() {
    let mut widths = vec![3, 3];
    decrease_widths(&mut widths, &vec![2, 2], 10, Priority::PriorityNone);
    assert_eq!(widths, vec![2, 2]);
}

#[test]
fn change_table_meets_the_target_width() {
    let mut records = grid(vec![vec!["aaaaaa", "bb"]]);
    let cfg = GridConfig::new();
    let cut = Truncate::new(10);
    let widths = cut.change_table(&mut records, &cfg).unwrap();
    assert_eq!(widths, vec![5, 2]);
    let heights = vec![1];
    let out = render_grid(&records, &cfg, &widths, &heights);
    assert_eq!(out, "+-----+--+\n| aaa |  |\n+-----+--+");
}

#[test]
fn change_table_within_budget_does_nothing() {
    let mut records = grid(vec![vec!["aa", "bb"]]);
    let cfg = GridConfig::new();
    let cut = Truncate::new(100);
    assert!(cut.change_table(&mut records, &cfg).is_none());
    assert_eq!(records.get(0, 0).as_str(), "aa");
}
