use pendulum_kelly::holdings_csv::{holdings_from_table, parse_alipay_holdings_from_csv, CsvTable};

#[test]
fn reads_chinese_headers() {
    let csv = "基金代码,基金名称,持有份额,市值(元),单位净值,净值日期,持有收益,持有收益率,来源\n\
               006327, 纳斯达克100 ,1234.56,2000.5,1.62,2024-03-01,120.3,6.5%,alipay\n";
    let rows = parse_alipay_holdings_from_csv(csv).unwrap();
    assert_eq!(rows.len(), 1);
    let r = &rows[0];
    assert_eq!(r.fund_code, "006327");
    assert_eq!(r.fund_name, "纳斯达克100");
    assert_eq!(r.shares.as_deref(), Some("1234.56"));
    assert_eq!(r.market_value.as_deref(), Some("2000.5"));
    assert_eq!(r.nav.as_deref(), Some("1.62"));
    assert_eq!(r.nav_date.as_deref(), Some("2024-03-01"));
    assert_eq!(r.total_profit.as_deref(), Some("120.3"));
    assert_eq!(r.profit_rate.as_deref(), Some("6.5%"));
    assert_eq!(r.source.as_deref(), Some("alipay"));
    assert_eq!(r.cost_basis, None);
}

#[test]
fn quoted_numbers_keep_their_commas() {
    let csv = "fund_code,fund_name,shares,market_value,nav,cost_basis,total_profit,profit_rate,source\n\
               000001,标普500,\"1,234.5\",\"2,000\",1.62,1.5,12,3%,import\n";
    let rows = parse_alipay_holdings_from_csv(csv).unwrap();
    let r = &rows[0];
    assert_eq!(r.fund_code, "000001");
    assert_eq!(r.fund_name, "标普500");
    assert_eq!(r.shares.as_deref(), Some("1,234.5"));
    assert_eq!(r.market_value.as_deref(), Some("2,000"));
    assert_eq!(r.nav.as_deref(), Some("1.62"));
    assert_eq!(r.cost_basis.as_deref(), Some("1.5"));
    assert_eq!(r.total_profit.as_deref(), Some("12"));
    assert_eq!(r.profit_rate.as_deref(), Some("3%"));
    assert_eq!(r.source.as_deref(), Some("import"));
    assert_eq!(r.nav_date, None);
}

#[test]
fn last_non_empty_alias_wins_and_rows_need_code_or_name() {
    let csv = "代码,fund_code,名称,备注\n\
               111111,222222,甲,x\n\
               333333,,,\n\
               ,,,only a note\n\
               ,,乙\n";
    let rows = parse_alipay_holdings_from_csv(csv).unwrap();
    assert_eq!(rows.len(), 3);
    assert_eq!(rows[0].fund_code, "222222");
    assert_eq!(rows[0].fund_name, "甲");
    assert_eq!(rows[1].fund_code, "333333");
    assert_eq!(rows[1].fund_name, "");
    assert_eq!(rows[2].fund_code, "");
    assert_eq!(rows[2].fund_name, "乙");
}

#[test]
fn header_only_table_has_no_rows() {
    let rows = parse_alipay_holdings_from_csv("fund_code,fund_name\n").unwrap();
    assert!(rows.is_empty());
}

#[test]
fn rows_from_a_table_skip_unreadable_and_empty_records() {
    let table = CsvTable {
        headers: vec!["基金代码".to_string(), "基金名称".to_string(), "持有份额".to_string()],
        records: vec![
            Some(vec!["006327".to_string(), " 纳斯达克100 ".to_string(), "10".to_string()]),
            None,
            Some(vec!["".to_string(), "".to_string(), "3".to_string()]),
            Some(vec!["".to_string(), "标普500".to_string(), "".to_string()]),
        ],
    };
    let rows = holdings_from_table(&table);
    assert_eq!(rows.len(), 2);
    assert_eq!(rows[0].fund_code, "006327");
    assert_eq!(rows[0].fund_name, "纳斯达克100");
    assert_eq!(rows[0].shares.as_deref(), Some("10"));
    assert_eq!(rows[0].market_value, None);
    assert_eq!(rows[1].fund_code, "");
    assert_eq!(rows[1].fund_name, "标普500");
    assert_eq!(rows[1].shares, None);
}
