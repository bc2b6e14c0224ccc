//! Data verification reports: issues found in stored transactions,
//! holdings and cash, and their summary.

use vstd::prelude::*;
use crate::model::strings_view;
use crate::text::{owned, push_str, str_eq};

verus! {

/// How serious a verification issue is.
#[derive(Debug, Clone, Copy, PartialEq, Eq, Structural)]
pub enum VerificationSeverity {
    Error,
    Warning,
    Info,
}

/// One problem found in the stored data.
#[derive(Debug)]
pub struct VerificationIssue {
    pub severity: VerificationSeverity,
    pub domain: String,
    pub message: String,
    pub affected_records: Vec<String>,
}

/// Counts of checks run and of issues found.
#[derive(Debug)]
pub struct VerificationSummary {
    pub total_checks: usize,
    pub errors: usize,
    pub warnings: usize,
}

/// The result of a data verification run for one portfolio.
#[derive(Debug)]
pub struct DataVerificationReport {
    pub summary: VerificationSummary,
    pub issues: Vec<VerificationIssue>,
    pub portfolio_id: String,
}

/// The number of issues of `s` with the given severity.
pub open spec fn count_severity(s: Seq<VerificationIssue>, sev: VerificationSeverity) -> nat
    decreases s.len(),
{
    if s.len() == 0 {
        0
    } else {
        count_severity(s.drop_last(), sev) + if s.last().severity == sev {
            1nat
        } else {
            0nat
        }
    }
}

proof fn lemma_count_severity_bound(s: Seq<VerificationIssue>, sev: VerificationSeverity)
    ensures
        count_severity(s, sev) <= s.len(),
    decreases s.len(),
{
    if s.len() > 0 {
        lemma_count_severity_bound(s.drop_last(), sev);
    }
}

impl Default for VerificationSummary {
    fn default() -> (r: Self)
        ensures
            r.total_checks == 0,
            r.errors == 0,
            r.warnings == 0,
    {
        VerificationSummary { total_checks: 0, errors: 0, warnings: 0 }
    }
}

impl DataVerificationReport {
    /// Adds the issues' errors and warnings to the summary counts (the last
    /// step of a verification run); informational issues are not counted.
    pub fn tally_issues(&mut self)
        requires
            old(self).summary.errors + old(self).issues@.len() <= usize::MAX,
            old(self).summary.warnings + old(self).issues@.len() <= usize::MAX,
        ensures
            final(self).summary.errors == old(self).summary.errors + count_severity(
                old(self).issues@,
                VerificationSeverity::Error,
            ),
            final(self).summary.warnings == old(self).summary.warnings + count_severity(
                old(self).issues@,
                VerificationSeverity::Warning,
            ),
            final(self).summary.total_checks == old(self).summary.total_checks,
            final(self).issues@ == old(self).issues@,
            final(self).portfolio_id@ == old(self).portfolio_id@,
    {
        let n = self.issues.len();
        let mut i: usize = 0;
        let ghost e0 = self.summary.errors;
        let ghost w0 = self.summary.warnings;
        assert(self.issues@.take(0) =~= Seq::<VerificationIssue>::empty());
        while i < n
            invariant
                n == self.issues@.len(),
                self.issues@ == old(self).issues@,
                self.summary.total_checks == old(self).summary.total_checks,
                self.portfolio_id == old(self).portfolio_id,
                e0 == old(self).summary.errors,
                w0 == old(self).summary.warnings,
                e0 + n <= usize::MAX,
                w0 + n <= usize::MAX,
                i <= n,
                self.summary.errors == e0 + count_severity(self.issues@.take(i as int), VerificationSeverity::Error),
                self.summary.warnings == w0 + count_severity(self.issues@.take(i as int), VerificationSeverity::Warning),
            decreases n - i,
        {
            proof {
                let t = self.issues@.take(i + 1);
                assert(t.drop_last() =~= self.issues@.take(i as int));
                assert(t.last() == self.issues@[i as int]);
                lemma_count_severity_bound(self.issues@.take(i as int), VerificationSeverity::Error);
                lemma_count_severity_bound(self.issues@.take(i as int), VerificationSeverity::Warning);
            }
            match self.issues[i].severity {
                VerificationSeverity::Error => {
                    self.summary.errors = self.summary.errors + 1;
                },
                VerificationSeverity::Warning => {
                    self.summary.warnings = self.summary.warnings + 1;
                },
                VerificationSeverity::Info => {},
            }
            i += 1;
        }
        assert(self.issues@.take(n as int) =~= self.issues@);
    }
}

// ---------------------------------------------------------------------------
// Transaction checks
// ---------------------------------------------------------------------------

/// What the transaction checks read of a stored transaction. The sign and
/// amount checks compare amounts; the caller makes those comparisons.
#[derive(Debug)]
pub struct TransactionFacts {
    pub id: String,
    /// The duplicate fingerprint: date, type, asset, amount and units.
    pub fingerprint: String,
    pub date: String,
    pub transaction_type: String,
    pub negative_amount: bool,
    pub negative_units: bool,
    pub negative_price: bool,
    /// Units, price and amount are positive and units × price differs from
    /// the amount by more than 1.
    pub amount_mismatch: bool,
}

/// A transaction as mathematical values.
pub struct TransactionFactsView {
    pub id: Seq<char>,
    pub fingerprint: Seq<char>,
    pub date: Seq<char>,
    pub transaction_type: Seq<char>,
    pub negative_amount: bool,
    pub negative_units: bool,
    pub negative_price: bool,
    pub amount_mismatch: bool,
}

impl View for TransactionFacts {
    type V = TransactionFactsView;

    open spec fn view(&self) -> TransactionFactsView {
        TransactionFactsView {
            id: self.id@,
            fingerprint: self.fingerprint@,
            date: self.date@,
            transaction_type: self.transaction_type@,
            negative_amount: self.negative_amount,
            negative_units: self.negative_units,
            negative_price: self.negative_price,
            amount_mismatch: self.amount_mismatch,
        }
    }
}

/// The transactions as mathematical values.
pub open spec fn transactions_view(v: Seq<TransactionFacts>) -> Seq<TransactionFactsView> {
    Seq::new(v.len(), |i: int| v[i]@)
}

/// An issue as mathematical values: severity, domain, message, records.
pub open spec fn issue_view(i: VerificationIssue) -> (VerificationSeverity, Seq<char>, Seq<char>, Seq<Seq<char>>) {
    (i.severity, i.domain@, i.message@, strings_view(i.affected_records@))
}

/// The issues as mathematical values.
pub open spec fn issues_view(v: Seq<VerificationIssue>) -> Seq<(VerificationSeverity, Seq<char>, Seq<char>, Seq<Seq<char>>)> {
    Seq::new(v.len(), |i: int| issue_view(v[i]))
}

/// A transaction issue about transaction `id`.
pub open spec fn tx_issue(sev: VerificationSeverity, text: Seq<char>, id: Seq<char>) -> (VerificationSeverity, Seq<char>, Seq<char>, Seq<Seq<char>>) {
    (sev, "Transaction"@, text + id, seq![id])
}

/// An issue in the list when `cond` holds.
pub open spec fn issue_if(cond: bool, issue: (VerificationSeverity, Seq<char>, Seq<char>, Seq<Seq<char>>)) -> Seq<(VerificationSeverity, Seq<char>, Seq<char>, Seq<Seq<char>>)> {
    if cond {
        seq![issue]
    } else {
        Seq::empty()
    }
}

/// An earlier transaction has the same id.
pub open spec fn id_seen_before(ts: Seq<TransactionFactsView>, i: int) -> bool {
    exists|j: int| 0 <= j < i && (#[trigger] ts[j]).id == ts[i].id
}

/// An earlier transaction has the same fingerprint.
pub open spec fn fingerprint_seen_before(ts: Seq<TransactionFactsView>, i: int) -> bool {
    exists|j: int| 0 <= j < i && (#[trigger] ts[j]).fingerprint == ts[i].fingerprint
}

/// The severity of a suspicion: an error in strict mode, a warning otherwise.
pub open spec fn suspicion(strict: bool) -> VerificationSeverity {
    if strict {
        VerificationSeverity::Error
    } else {
        VerificationSeverity::Warning
    }
}

/// `acc` followed by the issues of transaction `i`, in the order they are
/// checked: a repeated id, a repeated fingerprint, a missing date or type, a
/// negative amount, units or price, and an amount that is not units × price.
pub open spec fn with_transaction_issues(
    acc: Seq<(VerificationSeverity, Seq<char>, Seq<char>, Seq<Seq<char>>)>,
    ts: Seq<TransactionFactsView>,
    i: int,
    strict: bool,
) -> Seq<(VerificationSeverity, Seq<char>, Seq<char>, Seq<Seq<char>>)> {
    let t = ts[i];
    acc + issue_if(id_seen_before(ts, i), tx_issue(VerificationSeverity::Error, "Duplicate transaction ID: "@, t.id))
        + issue_if(fingerprint_seen_before(ts, i), tx_issue(suspicion(strict), "Possible duplicate transaction detected: "@, t.id))
        + issue_if(t.date.len() == 0 || t.transaction_type.len() == 0, tx_issue(VerificationSeverity::Error, "Missing required fields in tx: "@, t.id))
        + issue_if(t.negative_amount, tx_issue(VerificationSeverity::Error, "Negative amount in tx: "@, t.id))
        + issue_if(t.negative_units, tx_issue(VerificationSeverity::Error, "Negative units in tx: "@, t.id))
        + issue_if(t.negative_price, tx_issue(VerificationSeverity::Error, "Negative price in tx: "@, t.id))
        + issue_if(t.amount_mismatch, tx_issue(suspicion(strict), "Amount != Units * Price in tx: "@, t.id))
}

/// The issues of the first `n` transactions, in order.
pub open spec fn all_transaction_issues(ts: Seq<TransactionFactsView>, n: int, strict: bool) -> Seq<(VerificationSeverity, Seq<char>, Seq<char>, Seq<Seq<char>>)>
    decreases n,
{
    if n <= 0 {
        Seq::empty()
    } else {
        with_transaction_issues(all_transaction_issues(ts, n - 1, strict), ts, n - 1, strict)
    }
}

/// Appends a transaction issue when `cond` holds.
fn push_tx_issue(issues: &mut Vec<VerificationIssue>, cond: bool, sev: VerificationSeverity, text: &str, id: &str)
    ensures
        issues_view(final(issues)@) == issues_view(old(issues)@) + issue_if(cond, tx_issue(sev, text@, id@)),
{
    if cond {
        let mut message = owned(text);
        push_str(&mut message, id);
        let mut records: Vec<String> = Vec::new();
        records.push(owned(id));
        assert(strings_view(records@) =~= seq![id@]);
        let ghost before = issues@;
        issues.push(VerificationIssue { severity: sev, domain: owned("Transaction"), message, affected_records: records });
        assert(issues_view(issues@) =~= issues_view(before) + issue_if(cond, tx_issue(sev, text@, id@)));
    } else {
        assert(issues_view(issues@) =~= issues_view(old(issues)@) + issue_if(cond, tx_issue(sev, text@, id@)));
    }
}

/// Appends the issues of transaction `i`.
fn check_one_transaction(txs: &[TransactionFacts], i: usize, strict: bool, issues: &mut Vec<VerificationIssue>)
    requires
        i < txs@.len(),
    ensures
        issues_view(final(issues)@) == with_transaction_issues(issues_view(old(issues)@), transactions_view(txs@), i as int, strict),
{
    let ghost ts = transactions_view(txs@);
    let n = txs.len();
    let t = &txs[i];
    assert(ts[i as int] == t@);
    let mut dup_id = false;
    let mut dup_fp = false;
    let mut j: usize = 0;
    while j < i
        invariant
            n == txs@.len(),
            ts == transactions_view(txs@),
            i < n,
            j <= i,
            dup_id == exists|q: int| 0 <= q < j && (#[trigger] ts[q]).id == ts[i as int].id,
            dup_fp == exists|q: int| 0 <= q < j && (#[trigger] ts[q]).fingerprint == ts[i as int].fingerprint,
        decreases i - j,
    {
        assert(ts[j as int] == txs@[j as int]@);
        if str_eq(txs[j].id.as_str(), txs[i].id.as_str()) {
            dup_id = true;
        }
        if str_eq(txs[j].fingerprint.as_str(), txs[i].fingerprint.as_str()) {
            dup_fp = true;
        }
        j += 1;
    }
    assert(dup_id == id_seen_before(ts, i as int));
    assert(dup_fp == fingerprint_seen_before(ts, i as int));
    let sus = if strict {
        VerificationSeverity::Error
    } else {
        VerificationSeverity::Warning
    };
    let id = t.id.as_str();
    push_tx_issue(issues, dup_id, VerificationSeverity::Error, "Duplicate transaction ID: ", id);
    push_tx_issue(issues, dup_fp, sus, "Possible duplicate transaction detected: ", id);
    push_tx_issue(
        issues,
        t.date.as_str().is_empty() || t.transaction_type.as_str().is_empty(),
        VerificationSeverity::Error,
        "Missing required fields in tx: ",
        id,
    );
    push_tx_issue(issues, t.negative_amount, VerificationSeverity::Error, "Negative amount in tx: ", id);
    push_tx_issue(issues, t.negative_units, VerificationSeverity::Error, "Negative units in tx: ", id);
    push_tx_issue(issues, t.negative_price, VerificationSeverity::Error, "Negative price in tx: ", id);
    push_tx_issue(issues, t.amount_mismatch, sus, "Amount != Units * Price in tx: ", id);
}

/// The transaction checks of a data verification run, transaction by
/// transaction: repeated ids (errors), repeated fingerprints (errors in
/// strict mode, warnings otherwise), missing date or type, negative amount,
/// units or price (errors), and amounts that are not units × price (as
/// repeated fingerprints).
pub fn check_transactions(txs: &[TransactionFacts], strict: bool) -> (r: Vec<VerificationIssue>)
    ensures
        issues_view(r@) == all_transaction_issues(transactions_view(txs@), txs@.len() as int, strict),
{
    let ghost ts = transactions_view(txs@);
    let n = txs.len();
    let mut issues: Vec<VerificationIssue> = Vec::new();
    let mut i: usize = 0;
    while i < n
        invariant
            n == txs@.len(),
            ts == transactions_view(txs@),
            i <= n,
            issues_view(issues@) == all_transaction_issues(ts, i as int, strict),
        decreases n - i,
    {
        check_one_transaction(txs, i, strict, &mut issues);
        i += 1;
    }
    issues
}

/// Transactions with distinct ids and fingerprints, a date and a type, no
/// negative amount, units or price, and amounts that match units × price
/// raise no issue, strict or not.
pub proof fn law_clean_transactions_raise_no_issue(ts: Seq<TransactionFactsView>, strict: bool, n: int)
    requires
        0 <= n <= ts.len(),
        forall|i: int, j: int| 0 <= i < j < ts.len() ==> (#[trigger] ts[i]).id != (#[trigger] ts[j]).id && ts[i].fingerprint != ts[j].fingerprint,
        forall|i: int|
            0 <= i < ts.len() ==> {
                let t = #[trigger] ts[i];
                &&& t.date.len() > 0
                &&& t.transaction_type.len() > 0
                &&& !t.negative_amount
                &&& !t.negative_units
                &&& !t.negative_price
                &&& !t.amount_mismatch
            },
    ensures
        all_transaction_issues(ts, n, strict) == Seq::<(VerificationSeverity, Seq<char>, Seq<char>, Seq<Seq<char>>)>::empty(),
    decreases n,
{
    if n > 0 {
        law_clean_transactions_raise_no_issue(ts, strict, n - 1);
        let i = n - 1;
        assert(!id_seen_before(ts, i)) by {
            if id_seen_before(ts, i) {
                let j = choose|j: int| 0 <= j < i && (#[trigger] ts[j]).id == ts[i].id;
                assert(ts[j].id != ts[i].id);
            }
        }
        assert(!fingerprint_seen_before(ts, i)) by {
            if fingerprint_seen_before(ts, i) {
                let j = choose|j: int| 0 <= j < i && (#[trigger] ts[j]).fingerprint == ts[i].fingerprint;
                assert(ts[j].fingerprint != ts[i].fingerprint);
            }
        }
        let t = ts[i];
        assert(t.date.len() > 0);
        assert(with_transaction_issues(Seq::empty(), ts, i, strict) =~= Seq::empty());
    }
}


/// The issues of one transaction come after those already found, and hold
/// one issue for each problem of the transaction.
proof fn lemma_transaction_issues_listed(
    acc: Seq<(VerificationSeverity, Seq<char>, Seq<char>, Seq<Seq<char>>)>,
    ts: Seq<TransactionFactsView>,
    i: int,
    strict: bool,
)
    requires
        0 <= i < ts.len(),
    ensures
        ({
            let w = with_transaction_issues(acc, ts, i, strict);
            let t = ts[i];
            let sus = if strict { VerificationSeverity::Error } else { VerificationSeverity::Warning };
            &&& acc.len() <= w.len()
            &&& forall|k: int| 0 <= k < acc.len() ==> #[trigger] w[k] == acc[k]
            &&& id_seen_before(ts, i) ==> w.contains(
                (VerificationSeverity::Error, "Transaction"@, "Duplicate transaction ID: "@ + t.id, seq![t.id]),
            )
            &&& fingerprint_seen_before(ts, i) ==> w.contains(
                (sus, "Transaction"@, "Possible duplicate transaction detected: "@ + t.id, seq![t.id]),
            )
            &&& (t.date.len() == 0 || t.transaction_type.len() == 0) ==> w.contains(
                (VerificationSeverity::Error, "Transaction"@, "Missing required fields in tx: "@ + t.id, seq![t.id]),
            )
            &&& t.negative_amount ==> w.contains(
                (VerificationSeverity::Error, "Transaction"@, "Negative amount in tx: "@ + t.id, seq![t.id]),
            )
            &&& t.negative_units ==> w.contains(
                (VerificationSeverity::Error, "Transaction"@, "Negative units in tx: "@ + t.id, seq![t.id]),
            )
            &&& t.negative_price ==> w.contains(
                (VerificationSeverity::Error, "Transaction"@, "Negative price in tx: "@ + t.id, seq![t.id]),
            )
            &&& t.amount_mismatch ==> w.contains(
                (sus, "Transaction"@, "Amount != Units * Price in tx: "@ + t.id, seq![t.id]),
            )
        }),
{
    let t = ts[i];
    let i1 = issue_if(id_seen_before(ts, i), tx_issue(VerificationSeverity::Error, "Duplicate transaction ID: "@, t.id));
    let i2 = issue_if(fingerprint_seen_before(ts, i), tx_issue(suspicion(strict), "Possible duplicate transaction detected: "@, t.id));
    let i3 = issue_if(t.date.len() == 0 || t.transaction_type.len() == 0, tx_issue(VerificationSeverity::Error, "Missing required fields in tx: "@, t.id));
    let i4 = issue_if(t.negative_amount, tx_issue(VerificationSeverity::Error, "Negative amount in tx: "@, t.id));
    let i5 = issue_if(t.negative_units, tx_issue(VerificationSeverity::Error, "Negative units in tx: "@, t.id));
    let i6 = issue_if(t.negative_price, tx_issue(VerificationSeverity::Error, "Negative price in tx: "@, t.id));
    let i7 = issue_if(t.amount_mismatch, tx_issue(suspicion(strict), "Amount != Units * Price in tx: "@, t.id));
    let s1 = acc + i1;
    let s2 = s1 + i2;
    let s3 = s2 + i3;
    let s4 = s3 + i4;
    let s5 = s4 + i5;
    let s6 = s5 + i6;
    let w = s6 + i7;
    assert(w == with_transaction_issues(acc, ts, i, strict));
    lemma_issue_listed(acc, i1);
    lemma_issue_listed(s1, i2);
    lemma_issue_listed(s2, i3);
    lemma_issue_listed(s3, i4);
    lemma_issue_listed(s4, i5);
    lemma_issue_listed(s5, i6);
    lemma_issue_listed(s6, i7);
}

/// Appending keeps what was there and lists what is appended.
proof fn lemma_issue_listed(
    a: Seq<(VerificationSeverity, Seq<char>, Seq<char>, Seq<Seq<char>>)>,
    b: Seq<(VerificationSeverity, Seq<char>, Seq<char>, Seq<Seq<char>>)>,
)
    ensures
        a.len() <= (a + b).len(),
        forall|k: int| 0 <= k < a.len() ==> #[trigger] (a + b)[k] == a[k],
        forall|x: (VerificationSeverity, Seq<char>, Seq<char>, Seq<Seq<char>>)| #[trigger] a.contains(x) ==> (a + b).contains(x),
        b.len() > 0 ==> (a + b).contains(b[0]),
{
    assert forall|x: (VerificationSeverity, Seq<char>, Seq<char>, Seq<Seq<char>>)| #[trigger] a.contains(x) implies (a + b).contains(x) by {
        let k = choose|k: int| 0 <= k < a.len() && a[k] == x;
        assert((a + b)[k] == x);
    }
    if b.len() > 0 {
        assert((a + b)[a.len() as int] == b[0]);
    }
}

/// Every problem of a checked transaction is reported: a repeated id, a
/// missing date or type, and a negative amount, units or price are errors;
/// a repeated fingerprint and an amount that is not units × price are
/// errors in strict mode and warnings otherwise. Each issue lies in domain
/// `Transaction`, names the transaction's id in its message and lists it as
/// the affected record.
pub proof fn law_every_transaction_problem_is_reported(ts: Seq<TransactionFactsView>, strict: bool, n: int, i: int)
    requires
        0 <= i < n <= ts.len(),
    ensures
        ({
            let w = all_transaction_issues(ts, n, strict);
            let t = ts[i];
            let sus = if strict { VerificationSeverity::Error } else { VerificationSeverity::Warning };
            &&& id_seen_before(ts, i) ==> w.contains(
                (VerificationSeverity::Error, "Transaction"@, "Duplicate transaction ID: "@ + t.id, seq![t.id]),
            )
            &&& fingerprint_seen_before(ts, i) ==> w.contains(
                (sus, "Transaction"@, "Possible duplicate transaction detected: "@ + t.id, seq![t.id]),
            )
            &&& (t.date.len() == 0 || t.transaction_type.len() == 0) ==> w.contains(
                (VerificationSeverity::Error, "Transaction"@, "Missing required fields in tx: "@ + t.id, seq![t.id]),
            )
            &&& t.negative_amount ==> w.contains(
                (VerificationSeverity::Error, "Transaction"@, "Negative amount in tx: "@ + t.id, seq![t.id]),
            )
            &&& t.negative_units ==> w.contains(
                (VerificationSeverity::Error, "Transaction"@, "Negative units in tx: "@ + t.id, seq![t.id]),
            )
            &&& t.negative_price ==> w.contains(
                (VerificationSeverity::Error, "Transaction"@, "Negative price in tx: "@ + t.id, seq![t.id]),
            )
            &&& t.amount_mismatch ==> w.contains(
                (sus, "Transaction"@, "Amount != Units * Price in tx: "@ + t.id, seq![t.id]),
            )
        }),
    decreases n,
{
    if n == i + 1 {
        lemma_transaction_issues_listed(all_transaction_issues(ts, i, strict), ts, i, strict);
    } else {
        law_every_transaction_problem_is_reported(ts, strict, n - 1, i);
        let prev = all_transaction_issues(ts, n - 1, strict);
        lemma_transaction_issues_listed(prev, ts, n - 1, strict);
        let w = all_transaction_issues(ts, n, strict);
        assert forall|x: (VerificationSeverity, Seq<char>, Seq<char>, Seq<Seq<char>>)| prev.contains(x) implies w.contains(x) by {
            let k = choose|k: int| 0 <= k < prev.len() && prev[k] == x;
            assert(w[k] == prev[k]);
        }
    }
}

} // verus!
