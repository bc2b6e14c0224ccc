use pendulum_kelly::model::{AssetClass, InstrumentConfig};
use pendulum_kelly::watchlist::{
    archive_instrument, archive_instrument_on, cleanup_test_instruments, duplicate_instrument_ids,
    get_default_instruments, is_instrument_archived, is_test_instrument, matches_filter,
    migrate_au9999_provider, migrate_instrument_flags, normalize_provider_symbol,
    provider_symbol_key, restore_default_instruments, restore_instrument, str_less,
    upsert_instrument, MarketListFilter,
};

fn sample(inst_id: &str, sym: &str, enabled: bool, archived: bool) -> InstrumentConfig {
    InstrumentConfig {
        instrument_id: inst_id.to_string(),
        symbol: sym.to_string(),
        display_symbol: None,
        name: sym.to_string(),
        name_zh: None,
        name_en: None,
        description_zh: None,
        category_zh: None,
        display_label: None,
        asset_class: AssetClass::Etf,
        provider: "yahoo".to_string(),
        provider_symbol: sym.to_string(),
        market: None,
        exchange: None,
        currency: "USD".to_string(),
        quote_unit: "1".to_string(),
        price_unit: "1".to_string(),
        timezone: None,
        enabled,
        archived,
        priority: 0,
        tags: vec![],
        note: None,
    }
}

#[test]
fn test_archive_hides_from_active_filter() {
    let mut i = sample("a", "QQQ", true, false);
    archive_instrument(&mut i);
    let dups = duplicate_instrument_ids(&[i.clone()]);
    assert!(!matches_filter(&i, MarketListFilter::Active, &dups));
    assert!(matches_filter(&i, MarketListFilter::Archived, &dups));
}

#[test]
fn test_test_instrument_detection() {
    let t = sample("x", "TEST", true, false);
    assert!(is_test_instrument(&t));
    let dups = duplicate_instrument_ids(std::slice::from_ref(&t));
    assert!(!matches_filter(&t, MarketListFilter::Active, &dups));
}

#[test]
fn test_restore_defaults_idempotent() {
    let mut list = get_default_instruments();
    let count = list.len();
    let (a1, _r1) = restore_default_instruments(&mut list, false);
    assert_eq!(a1, 0);
    assert_eq!(list.len(), count);
    let (a2, r2) = restore_default_instruments(&mut list, false);
    assert_eq!(a2, 0);
    assert_eq!(r2, 0);
    let qqq_count = list.iter().filter(|i| i.symbol == "QQQ").count();
    assert_eq!(qqq_count, 1);
}

#[test]
fn test_migrate_au9999_to_eastmoney() {
    let mut inst = sample("au9999", "AU9999", true, false);
    inst.provider = "yahoo".to_string();
    inst.provider_symbol = "AU9999".to_string();
    migrate_au9999_provider(&mut inst);
    assert_eq!(inst.provider, "eastmoney");
    assert_eq!(inst.provider_symbol, "118.AU9999");
}

#[test]
fn test_cleanup_test_archives_test_rows() {
    let mut list = vec![
        sample("t1", "TEST", true, false),
        sample("nasdaq_qqq", "QQQ", true, false),
    ];
    let n = cleanup_test_instruments(&mut list, false);
    assert_eq!(n, 1);
    assert!(is_instrument_archived(
        list.iter().find(|i| i.symbol == "TEST").unwrap()
    ));
}

#[test]
fn filter_from_query_words() {
    assert_eq!(MarketListFilter::from_query(None), MarketListFilter::Active);
    assert_eq!(MarketListFilter::from_query(Some("all")), MarketListFilter::All);
    assert_eq!(MarketListFilter::from_query(Some("监控中")), MarketListFilter::Enabled);
    assert_eq!(MarketListFilter::from_query(Some("已禁用")), MarketListFilter::Disabled);
    assert_eq!(MarketListFilter::from_query(Some("archived")), MarketListFilter::Archived);
    assert_eq!(MarketListFilter::from_query(Some("duplicate")), MarketListFilter::Test);
    assert_eq!(MarketListFilter::from_query(Some("dup")), MarketListFilter::Duplicate);
    assert_eq!(MarketListFilter::from_query(Some("ALL")), MarketListFilter::Active);
}

#[test]
fn normalize_symbol_trims_and_uppercases() {
    assert_eq!(normalize_provider_symbol("  qqq \t"), "QQQ");
    assert_eq!(normalize_provider_symbol("118.au9999"), "118.AU9999");
}

#[test]
fn key_falls_back_to_symbol() {
    let mut i = sample("a", "spy", true, false);
    i.provider = " Yahoo ".to_string();
    i.provider_symbol = String::new();
    assert_eq!(provider_symbol_key(&i), ("yahoo".to_string(), "SPY".to_string()));
}

#[test]
fn archived_by_note_or_tag() {
    let mut a = sample("a", "QQQ", true, false);
    assert!(!is_instrument_archived(&a));
    a.note = Some("Was ARCHIVED last year".to_string());
    assert!(is_instrument_archived(&a));
    let mut b = sample("b", "SPY", true, false);
    b.tags = vec!["Archived".to_string()];
    assert!(is_instrument_archived(&b));
}

#[test]
fn test_detection_by_name_and_tag() {
    let mut a = sample("a", "QQQ", true, false);
    a.name_zh = Some("演示标的".to_string());
    assert!(is_test_instrument(&a));
    let mut b = sample("b", "SPY", true, false);
    b.tags = vec!["Demo".to_string()];
    assert!(is_test_instrument(&b));
    let c = sample("c", "SPY", true, false);
    assert!(!is_test_instrument(&c));
}

#[test]
fn duplicates_exclude_the_winner() {
    let mut first = sample("qqq_main", "QQQ", true, false);
    first.priority = 5;
    let second = sample("qqq_copy", "QQQ", true, false);
    let other = sample("spy", "SPY", true, false);
    let dups = duplicate_instrument_ids(&[second.clone(), first.clone(), other.clone()]);
    assert_eq!(dups, vec!["qqq_copy".to_string()]);
    assert!(matches_filter(&second, MarketListFilter::Duplicate, &dups));
    assert!(!matches_filter(&first, MarketListFilter::Duplicate, &dups));
}

#[test]
fn duplicates_prefer_enabled_entries() {
    let mut disabled = sample("qqq_old", "QQQ", false, false);
    disabled.priority = 9;
    let enabled = sample("qqq_new", "QQQ", true, false);
    let dups = duplicate_instrument_ids(&[disabled, enabled]);
    assert_eq!(dups, vec!["qqq_old".to_string()]);
}

#[test]
fn migrate_keeps_dotted_provider_symbol() {
    let mut inst = sample("au", "au9999", true, false);
    inst.provider = "sina".to_string();
    inst.provider_symbol = "sge.AU9999".to_string();
    migrate_au9999_provider(&mut inst);
    assert_eq!(inst.provider, "sina");
    assert_eq!(inst.provider_symbol, "sge.AU9999");
    assert_eq!(inst.display_symbol.as_deref(), Some("AU9999"));
    assert_eq!(inst.currency, "CNY");
    assert_eq!(inst.asset_class, AssetClass::SpotCommodity);
}

#[test]
fn migrate_flags_archives_from_note() {
    let mut a = sample("a", "QQQ", true, false);
    a.note = Some("archived 2024".to_string());
    let mut list = vec![a, sample("b", "SPY", true, false)];
    migrate_instrument_flags(&mut list);
    assert!(list[0].archived);
    assert!(!list[0].enabled);
    assert!(!list[1].archived);
    assert!(list[1].enabled);
}

#[test]
fn archive_then_restore() {
    let mut a = sample("a", "QQQ", true, false);
    a.note = Some("  keep ".to_string());
    archive_instrument_on(&mut a, "2026-01-02");
    assert!(a.archived);
    assert!(!a.enabled);
    assert_eq!(a.tags, vec!["archived".to_string()]);
    assert_eq!(a.note.as_deref(), Some("keep [archived 2026-01-02]"));
    restore_instrument(&mut a);
    assert!(!a.archived);
    assert!(!a.enabled);
    assert!(a.tags.is_empty());
    assert_eq!(a.note.as_deref(), Some("keep [restored 2026-01-02]"));
}

#[test]
fn restore_defaults_adds_missing_and_reactivates() {
    let mut qqq = sample("my_qqq", "qqq", false, true);
    qqq.tags = vec!["archived".to_string(), "core".to_string()];
    let mut list = vec![qqq];
    let (added, reactivated) = restore_default_instruments(&mut list, false);
    assert_eq!(added, get_default_instruments().len() - 1);
    assert_eq!(reactivated, 1);
    assert!(list[0].enabled);
    assert!(!list[0].archived);
    assert_eq!(list[0].tags, vec!["core".to_string()]);
    assert_eq!(list[0].instrument_id, "my_qqq");
}

#[test]
fn upsert_inserts_updates_and_refuses_archived() {
    let mut list = vec![sample("a", "QQQ", false, false)];
    let mut update = sample("b", "qqq", true, true);
    update.name_zh = Some("  纳指 ".to_string());
    update.currency = String::new();
    assert!(upsert_instrument(&mut list, update).is_ok());
    assert_eq!(list.len(), 1);
    assert!(list[0].enabled);
    assert_eq!(list[0].name_zh.as_deref(), Some("纳指"));
    assert_eq!(list[0].currency, "USD");

    assert!(upsert_instrument(&mut list, sample("c", "SPY", true, true)).is_ok());
    assert_eq!(list.len(), 2);
    assert!(!list[1].archived);

    list[1].archived = true;
    let err = upsert_instrument(&mut list, sample("d", "SPY", true, false)).unwrap_err();
    assert_eq!(err.message(), "该 provider+symbol 已存在（已归档），请先在「已归档」中恢复或删除");
    assert_eq!(list.len(), 2);
}

#[test]
fn string_order_is_by_code_point() {
    assert!(str_less("ABC", "ABD"));
    assert!(str_less("AB", "ABC"));
    assert!(!str_less("b", "B"));
    assert!(!str_less("same", "same"));
}

#[test]
fn restore_on_settled_watchlist_changes_nothing() {
    // Every default present and untouched, plus an unrelated instrument.
    let mut list = get_default_instruments();
    list.insert(1, sample("my_tlt", "TLT", true, false));
    let before = list.clone();
    let (added, reactivated) = restore_default_instruments(&mut list, true);
    assert_eq!((added, reactivated), (0, 0));
    let (added, reactivated) = restore_default_instruments(&mut list, false);
    assert_eq!((added, reactivated), (0, 0));
    assert_eq!(list.len(), before.len());
    for (a, b) in list.iter().zip(before.iter()) {
        assert_eq!(a.instrument_id, b.instrument_id);
        assert_eq!(a.provider, b.provider);
        assert_eq!(a.provider_symbol, b.provider_symbol);
        assert_eq!(a.enabled, b.enabled);
        assert_eq!(a.archived, b.archived);
        assert_eq!(a.tags, b.tags);
    }
}

#[test]
fn restore_reactivates_an_archived_default_note_and_all() {
    // A default entry whose note says "archived" stays archived by the note,
    // so every restore reactivates it again: restore is idempotent only on
    // settled watchlists.
    let mut list = get_default_instruments();
    list[0].note = Some("archived by hand".to_string());
    let (_, r1) = restore_default_instruments(&mut list, false);
    let (_, r2) = restore_default_instruments(&mut list, false);
    assert_eq!(r1, 1);
    assert_eq!(r2, 1);
}

#[test]
fn archive_then_restore_without_note() {
    let mut a = sample("a", "QQQ", true, false);
    a.tags = vec!["core".to_string()];
    archive_instrument_on(&mut a, "2026-01-02");
    assert_eq!(a.note.as_deref(), Some(" [archived 2026-01-02]"));
    assert_eq!(a.tags, vec!["core".to_string(), "archived".to_string()]);
    restore_instrument(&mut a);
    assert!(!a.archived);
    assert!(!a.enabled);
    assert_eq!(a.tags, vec!["core".to_string()]);
    assert_eq!(a.note.as_deref(), Some(" [restored 2026-01-02]"));
    assert!(!is_instrument_archived(&a));
}

#[test]
fn restore_defaults_twice_adds_again_when_one_entry_answered_two_defaults() {
    // One entry matches the QQQ default by provider symbol and the SPY default
    // by symbol; the first restore rewrites its provider symbol to SPY, so the
    // second restore no longer finds a QQQ entry and adds one.
    let mut x = sample("x", "SPY", true, false);
    x.provider_symbol = "QQQ".to_string();
    let mut list = vec![x];
    assert_eq!(restore_default_instruments(&mut list, false), (1, 0));
    assert_eq!(list.len(), 2);
    assert_eq!(list[0].provider_symbol, "SPY");
    assert_eq!(restore_default_instruments(&mut list, false), (1, 0));
    assert_eq!(list.len(), 3);
    assert_eq!(list[2].symbol, "QQQ");
    assert_eq!(restore_default_instruments(&mut list, false), (0, 0));
}

#[test]
fn migrations_twice_change_nothing_more() {
    let mut a = sample("gold", "au9999", true, false);
    a.provider = " Yahoo ".to_string();
    a.provider_symbol = "AU9999".to_string();
    a.note = Some("Archived by hand".to_string());
    let mut list = vec![a];
    migrate_instrument_flags(&mut list);
    let once = list[0].clone();
    assert_eq!(once.provider, "eastmoney");
    assert_eq!(once.provider_symbol, "118.AU9999");
    assert_eq!(once.currency, "CNY");
    assert!(once.archived);
    assert!(!once.enabled);
    migrate_instrument_flags(&mut list);
    let twice = &list[0];
    assert_eq!(twice.provider, once.provider);
    assert_eq!(twice.provider_symbol, once.provider_symbol);
    assert_eq!(twice.display_symbol, once.display_symbol);
    assert_eq!(twice.currency, once.currency);
    assert_eq!(twice.archived, once.archived);
    assert_eq!(twice.enabled, once.enabled);
    assert_eq!(twice.tags, once.tags);
    assert_eq!(twice.note, once.note);
}

#[test]
fn restore_defaults_second_time_changes_nothing() {
    let mut qqq = sample("my_qqq", "qqq", false, true);
    qqq.tags = vec!["archived".to_string(), "core".to_string()];
    let mut gold = sample("gold", "au9999", true, false);
    gold.provider = "yahoo".to_string();
    let other = sample("z", "ZZZ", true, false);
    let mut list = vec![qqq, gold, other];
    assert_eq!(restore_default_instruments(&mut list, false), (1, 1));
    let after_first = format!("{:?}", list);
    assert_eq!(restore_default_instruments(&mut list, false), (0, 0));
    assert_eq!(format!("{:?}", list), after_first);
    assert_eq!(list.len(), 4);
    assert_eq!(list[1].provider, "eastmoney");
    assert_eq!(list[1].provider_symbol, "118.AU9999");
}
