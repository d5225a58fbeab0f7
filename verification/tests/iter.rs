use tabled::iter_table::IterTable;

fn record_rows_1() -> Vec<Vec<String>> {
    let data: Vec<Vec<&str>> = vec![
        vec![
            "2021",
            "Level 1",
            "All industries",
            "Dollars (millions)",
            "H01",
            "Total income",
            "Financial performance",
            "757,504",
        ],
        vec![
            "2021",
            "Level 1",
            "All industries",
            "Dollars (millions)",
            "H05",
            "Interest, dividends and donations",
            "Financial performance",
            "49,593",
        ],
        vec![
            "2021",
            "Level 1",
            "All industries",
            "Dollars (millions)",
            "H07",
            "Non-operating income",
            "Financial performance",
            "33,020",
        ],
        vec![
            "2021",
            "Level 1",
            "All industries",
            "Dollars (millions)",
            "H08",
            "Total expenditure",
            "Financial performance",
            "654,404",
        ],
        vec![
            "2021",
            "Level 1",
            "All industries",
            "Dollars (millions)",
            "H09",
            "Interest and donations",
            "Financial performance",
            "26,138",
        ],
    ];
    data.into_iter().map(|row| row.into_iter().map(|s| s.to_owned()).collect()).collect()
}

fn record_rows_2() -> Vec<Vec<String>> {
    let data: Vec<Vec<&str>> = vec![
        vec![
            "2021",
            "Level 2",
            "Healthcare",
            "Dollars (millions)",
            "H01",
            "Total income",
            "Financial performance",
            "757,504",
        ],
        vec![
            "2021",
            "Level 1",
            "All industries",
            "Dollars",
            "H05",
            "Interest, dividends and donations",
            "Financial performance",
            "49,593",
        ],
        vec![
            "2021",
            "Level 4",
            "All industries",
            "Yean",
            "H07",
            "Non-operating income",
            "Financial performance",
            "33,020",
        ],
        vec![
            "2021",
            "Level 1",
            "All industries",
            "Rubble",
            "H08",
            "Total expenditure",
            "Financial performance",
            "654,404",
        ],
        vec![
            "2021",
            "Level 1",
            "Machinary",
            "Dollars",
            "H09",
            "Interest and donations",
            "Financial performance",
            "26,138",
        ],
    ];
    data.into_iter().map(|row| row.into_iter().map(|s| s.to_owned()).collect()).collect()
}

#[test]
fn test_iter() {
    let table = IterTable::new(record_rows_1());

    let table = table.render();

    assert_eq!(
        table,
        "+------+---------+----------------+--------------------+-----+-----------------------------------+-----------------------+---------+\n| 2021 | Level 1 | All industries | Dollars (millions) | H01 | Total income                      | Financial performance | 757,504 |\n+------+---------+----------------+--------------------+-----+-----------------------------------+-----------------------+---------+\n| 2021 | Level 1 | All industries | Dollars (millions) | H05 | Interest, dividends and donations | Financial performance | 49,593  |\n+------+---------+----------------+--------------------+-----+-----------------------------------+-----------------------+---------+\n| 2021 | Level 1 | All industries | Dollars (millions) | H07 | Non-operating income              | Financial performance | 33,020  |\n+------+---------+----------------+--------------------+-----+-----------------------------------+-----------------------+---------+\n| 2021 | Level 1 | All industries | Dollars (millions) | H08 | Total expenditure                 | Financial performance | 654,404 |\n+------+---------+----------------+--------------------+-----+-----------------------------------+-----------------------+---------+\n| 2021 | Level 1 | All industries | Dollars (millions) | H09 | Interest and donations            | Financial performance | 26,138  |\n+------+---------+----------------+--------------------+-----+-----------------------------------+-----------------------+---------+"
    )
}

#[test]
fn test_iter_width() {
    let table = IterTable::new(record_rows_1()).width(4);

    let table = table.render();

    assert_eq!(
        table,
        "+----+----+----+----+----+----+----+----+\n| 20 | Le | Al | Do | H0 | To | Fi | 75 |\n+----+----+----+----+----+----+----+----+\n| 20 | Le | Al | Do | H0 | In | Fi | 49 |\n+----+----+----+----+----+----+----+----+\n| 20 | Le | Al | Do | H0 | No | Fi | 33 |\n+----+----+----+----+----+----+----+----+\n| 20 | Le | Al | Do | H0 | To | Fi | 65 |\n+----+----+----+----+----+----+----+----+\n| 20 | Le | Al | Do | H0 | In | Fi | 26 |\n+----+----+----+----+----+----+----+----+"
    )
}

#[test]
fn test_iter_width_zero() {
    let table = IterTable::new(record_rows_1()).width(0);

    let table = table.render();

    assert_eq!(
        table,
        "+--+--+--+--+--+--+--+--+\n|  |  |  |  |  |  |  |  |\n+--+--+--+--+--+--+--+--+\n|  |  |  |  |  |  |  |  |\n+--+--+--+--+--+--+--+--+\n|  |  |  |  |  |  |  |  |\n+--+--+--+--+--+--+--+--+\n|  |  |  |  |  |  |  |  |\n+--+--+--+--+--+--+--+--+\n|  |  |  |  |  |  |  |  |\n+--+--+--+--+--+--+--+--+"
    )
}

#[test]
fn test_iter_width_and_cols() {
    let table = IterTable::new(record_rows_1()).width(4).cols(5);

    let table = table.render();

    assert_eq!(
        table,
        "+----+----+----+----+----+\n| 20 | Le | Al | Do | H0 |\n+----+----+----+----+----+\n| 20 | Le | Al | Do | H0 |\n+----+----+----+----+----+\n| 20 | Le | Al | Do | H0 |\n+----+----+----+----+----+\n| 20 | Le | Al | Do | H0 |\n+----+----+----+----+----+\n| 20 | Le | Al | Do | H0 |\n+----+----+----+----+----+"
    )
}

#[test]
fn test_iter_cols() {
    let table = IterTable::new(record_rows_1()).cols(5);

    let table = table.render();

    assert_eq!(
        table,
        "+------+---------+----------------+--------------------+-----+\n| 2021 | Level 1 | All industries | Dollars (millions) | H01 |\n+------+---------+----------------+--------------------+-----+\n| 2021 | Level 1 | All industries | Dollars (millions) | H05 |\n+------+---------+----------------+--------------------+-----+\n| 2021 | Level 1 | All industries | Dollars (millions) | H07 |\n+------+---------+----------------+--------------------+-----+\n| 2021 | Level 1 | All industries | Dollars (millions) | H08 |\n+------+---------+----------------+--------------------+-----+\n| 2021 | Level 1 | All industries | Dollars (millions) | H09 |\n+------+---------+----------------+--------------------+-----+"
    )
}

#[test]
fn test_iter_height() {
    let table = IterTable::new(record_rows_1()).height(2);

    let table = table.render();

    assert_eq!(
        table,
        "+------+---------+----------------+--------------------+-----+-----------------------------------+-----------------------+---------+\n| 2021 | Level 1 | All industries | Dollars (millions) | H01 | Total income                      | Financial performance | 757,504 |\n|      |         |                |                    |     |                                   |                       |         |\n+------+---------+----------------+--------------------+-----+-----------------------------------+-----------------------+---------+\n| 2021 | Level 1 | All industries | Dollars (millions) | H05 | Interest, dividends and donations | Financial performance | 49,593  |\n|      |         |                |                    |     |                                   |                       |         |\n+------+---------+----------------+--------------------+-----+-----------------------------------+-----------------------+---------+\n| 2021 | Level 1 | All industries | Dollars (millions) | H07 | Non-operating income              | Financial performance | 33,020  |\n|      |         |                |                    |     |                                   |                       |         |\n+------+---------+----------------+--------------------+-----+-----------------------------------+-----------------------+---------+\n| 2021 | Level 1 | All industries | Dollars (millions) | H08 | Total expenditure                 | Financial performance | 654,404 |\n|      |         |                |                    |     |                                   |                       |         |\n+------+---------+----------------+--------------------+-----+-----------------------------------+-----------------------+---------+\n| 2021 | Level 1 | All industries | Dollars (millions) | H09 | Interest and donations            | Financial performance | 26,138  |\n|      |         |                |                    |     |                                   |                       |         |\n+------+---------+----------------+--------------------+-----+-----------------------------------+-----------------------+---------+"
    )
}

#[test]
fn test_iter_rows() {
    let table = IterTable::new(record_rows_1()).rows(2);

    let table = table.render();

    assert_eq!(
        table,
        "+------+---------+----------------+--------------------+-----+-----------------------------------+-----------------------+---------+\n| 2021 | Level 1 | All industries | Dollars (millions) | H01 | Total income                      | Financial performance | 757,504 |\n+------+---------+----------------+--------------------+-----+-----------------------------------+-----------------------+---------+\n| 2021 | Level 1 | All industries | Dollars (millions) | H05 | Interest, dividends and donations | Financial performance | 49,593  |\n+------+---------+----------------+--------------------+-----+-----------------------------------+-----------------------+---------+"
    )
}

#[test]
fn test_iter_rows_cols() {
    let table = IterTable::new(record_rows_1()).rows(2).cols(2);

    let table = table.render();

    assert_eq!(
        table,
        "+------+---------+\n| 2021 | Level 1 |\n+------+---------+\n| 2021 | Level 1 |\n+------+---------+"
    )
}

#[test]
fn test_iter_rows_cols_zero() {
    let table = IterTable::new(record_rows_1()).rows(0).cols(0);

    let table = table.render();

    assert_eq!(table, "")
}

#[test]
fn test_iter_rows_zero() {
    let table = IterTable::new(record_rows_1()).rows(0);

    let table = table.render();

    assert_eq!(table, "")
}

#[test]
fn test_iter_1() {
    let table = IterTable::new(record_rows_2());

    let table = table.render();

    assert_eq!(
        table,
        "+------+---------+----------------+--------------------+-----+-----------------------------------+-----------------------+---------+\n| 2021 | Level 2 | Healthcare     | Dollars (millions) | H01 | Total income                      | Financial performance | 757,504 |\n+------+---------+----------------+--------------------+-----+-----------------------------------+-----------------------+---------+\n| 2021 | Level 1 | All industries | Dollars            | H05 | Interest, dividends and donations | Financial performance | 49,593  |\n+------+---------+----------------+--------------------+-----+-----------------------------------+-----------------------+---------+\n| 2021 | Level 4 | All industries | Yean               | H07 | Non-operating income              | Financial performance | 33,020  |\n+------+---------+----------------+--------------------+-----+-----------------------------------+-----------------------+---------+\n| 2021 | Level 1 | All industries | Rubble             | H08 | Total expenditure                 | Financial performance | 654,404 |\n+------+---------+----------------+--------------------+-----+-----------------------------------+-----------------------+---------+\n| 2021 | Level 1 | Machinary      | Dollars            | H09 | Interest and donations            | Financial performance | 26,138  |\n+------+---------+----------------+--------------------+-----+-----------------------------------+-----------------------+---------+"
    );
}

#[test]
fn test_iter_sniff() {
    let table = IterTable::new(record_rows_2()).sniff(1);

    let table = table.render();

    assert_eq!(
        table,
        "+------+---------+------------+--------------------+-----+--------------+-----------------------+---------+\n| 2021 | Level 2 | Healthcare | Dollars (millions) | H01 | Total income | Financial performance | 757,504 |\n+------+---------+------------+--------------------+-----+--------------+-----------------------+---------+\n| 2021 | Level 1 | All indust | Dollars            | H05 | Interest, di | Financial performance | 49,593  |\n+------+---------+------------+--------------------+-----+--------------+-----------------------+---------+\n| 2021 | Level 4 | All indust | Yean               | H07 | Non-operatin | Financial performance | 33,020  |\n+------+---------+------------+--------------------+-----+--------------+-----------------------+---------+\n| 2021 | Level 1 | All indust | Rubble             | H08 | Total expend | Financial performance | 654,404 |\n+------+---------+------------+--------------------+-----+--------------+-----------------------+---------+\n| 2021 | Level 1 | Machinary  | Dollars            | H09 | Interest and | Financial performance | 26,138  |\n+------+---------+------------+--------------------+-----+--------------+-----------------------+---------+"
    );
}

#[test]
fn test_iter_sniff_zero() {
    let table = IterTable::new(record_rows_2()).sniff(0);

    let table = table.render();

    assert_eq!(table, "");
}

#[test]
fn test_iter_sniff_zero_cols() {
    let table = IterTable::new(record_rows_2()).sniff(0).cols(3);

    let table = table.render();

    assert_eq!(
        table,
        "+--+--+--+\n|  |  |  |\n+--+--+--+\n|  |  |  |\n+--+--+--+\n|  |  |  |\n+--+--+--+\n|  |  |  |\n+--+--+--+\n|  |  |  |\n+--+--+--+"
    );
}
