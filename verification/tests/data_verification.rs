use pendulum_kelly::verification::{check_transactions, TransactionFacts, VerificationSeverity};

fn tx(id: &str, fp: &str) -> TransactionFacts {
    TransactionFacts {
        id: id.to_string(),
        fingerprint: fp.to_string(),
        date: "2024-03-01".to_string(),
        transaction_type: "buy".to_string(),
        negative_amount: false,
        negative_units: false,
        negative_price: false,
        amount_mismatch: false,
    }
}

#[test]
fn clean_transactions_raise_nothing() {
    let txs = vec![tx("t1", "a"), tx("t2", "b")];
    assert!(check_transactions(&txs, true).is_empty());
}

#[test]
fn duplicates_and_bad_fields() {
    let mut bad = tx("t3", "c");
    bad.date = String::new();
    bad.negative_units = true;
    bad.amount_mismatch = true;
    let txs = vec![tx("t1", "a"), tx("t1", "a"), bad];
    let issues = check_transactions(&txs, false);
    let got: Vec<(VerificationSeverity, &str, &str)> =
        issues.iter().map(|i| (i.severity, i.domain.as_str(), i.message.as_str())).collect();
    assert_eq!(
        got,
        vec![
            (VerificationSeverity::Error, "Transaction", "Duplicate transaction ID: t1"),
            (VerificationSeverity::Warning, "Transaction", "Possible duplicate transaction detected: t1"),
            (VerificationSeverity::Error, "Transaction", "Missing required fields in tx: t3"),
            (VerificationSeverity::Error, "Transaction", "Negative units in tx: t3"),
            (VerificationSeverity::Warning, "Transaction", "Amount != Units * Price in tx: t3"),
        ]
    );
    assert_eq!(issues[0].affected_records, vec!["t1".to_string()]);
    let strict = check_transactions(&txs, true);
    assert_eq!(strict[1].severity, VerificationSeverity::Error);
    assert_eq!(strict[4].severity, VerificationSeverity::Error);
}
