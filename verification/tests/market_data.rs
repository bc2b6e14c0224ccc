use pendulum_kelly::market_data::{
    fx_pair_currencies, history_range, EastMoneyFundProvider, EastMoneyMarketProvider,
};

#[test]
fn test_resolve_secid_au9999() {
    assert_eq!(
        EastMoneyMarketProvider::resolve_secid("AU9999").unwrap(),
        "118.AU9999"
    );
    assert_eq!(
        EastMoneyMarketProvider::resolve_secid("118.AU9999").unwrap(),
        "118.AU9999"
    );
}

#[test]
fn secid_mapping_rules() {
    assert_eq!(EastMoneyMarketProvider::resolve_secid(" au9999 ").unwrap(), "118.AU9999");
    assert_eq!(EastMoneyMarketProvider::resolve_secid("globalfuture/ AG ").unwrap(), "118.AG");
    assert_eq!(EastMoneyMarketProvider::resolve_secid("globalfuture/113.CU").unwrap(), "globalfuture/113.CU");
    assert_eq!(
        EastMoneyMarketProvider::resolve_secid("  ").unwrap_err().message(),
        "东方财富代码映射错误：symbol 为空"
    );
    assert_eq!(
        EastMoneyMarketProvider::resolve_secid("QQQ").unwrap_err().message(),
        "东方财富代码映射错误：无法识别代码 QQQ，请使用 118.AU9999 等形式"
    );
}

#[test]
fn parse_js_variables() {
    let page = "var fS_name = \"纳斯达克100\";var fS_code = \"006327\";var fS_type = '指数型' ;var Data_x = [1,2];";
    assert_eq!(EastMoneyFundProvider::parse_variable(page, "fS_name").unwrap(), "纳斯达克100");
    assert_eq!(EastMoneyFundProvider::parse_variable(page, "fS_type").unwrap(), "指数型");
    assert_eq!(EastMoneyFundProvider::parse_variable(page, "Data_x").unwrap(), "[1,2]");
    assert_eq!(
        EastMoneyFundProvider::parse_variable(page, "missing").unwrap_err().message(),
        "Variable missing not found in JS content"
    );
    assert!(!EastMoneyFundProvider::variable_is_lone_quote(page, "fS_name"));
    assert!(EastMoneyFundProvider::variable_is_lone_quote("var a = \";", "a"));
}

#[test]
fn fund_info_from_eastmoney_page() {
    let page = "var fS_name = \"纳斯达克100\";";
    let info = EastMoneyFundProvider::fund_info_from_page("006327", Some(page)).unwrap();
    assert_eq!(info.fund_name, "纳斯达克100");
    assert_eq!(info.fund_type, "基金");
    assert_eq!(info.currency, "CNY");
    assert_eq!(info.source, "eastmoney");
    let err = EastMoneyFundProvider::fund_info_from_page("000000", None).unwrap_err();
    assert_eq!(err.message(), "未找到基金代码 000000，或东方财富未返回有效基金信息。");
    assert!(EastMoneyFundProvider::fund_info_from_page("1", Some("nothing")).is_err());
}

#[test]
fn yahoo_history_ranges() {
    assert_eq!(history_range(0), "5d");
    assert_eq!(history_range(5), "5d");
    assert_eq!(history_range(6), "1mo");
    assert_eq!(history_range(90), "3mo");
    assert_eq!(history_range(180), "6mo");
    assert_eq!(history_range(250), "1y");
    assert_eq!(history_range(366), "5y");
}

#[test]
fn fx_pair_split() {
    assert_eq!(fx_pair_currencies("USD/CNH"), ("USD".to_string(), "CNH".to_string()));
    assert_eq!(fx_pair_currencies("EUR/USD/x"), ("EUR".to_string(), "USD".to_string()));
    assert_eq!(fx_pair_currencies("USDCNH=X"), ("USD".to_string(), "CNH".to_string()));
    assert_eq!(fx_pair_currencies("JPY"), ("?".to_string(), "?".to_string()));
}
