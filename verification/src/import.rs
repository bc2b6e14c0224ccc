//! Review of imported transaction rows: validation errors and warnings per
//! row, duplicate flags, and the import summary.

use vstd::prelude::*;
use crate::model::strings_view;
use crate::text::{decimal, owned, push_decimal, push_str, str_eq};

verus! {

/// What the import review reads of one candidate row. Whether the amount is
/// zero, and the row's fingerprint (the text that identifies a transaction),
/// are computed by the caller.
#[derive(Debug)]
pub struct ImportRowFacts {
    pub date: String,
    pub transaction_type: String,
    pub has_asset_id: bool,
    pub amount_is_zero: bool,
    pub fingerprint: String,
}

/// Counts of an import preview.
#[derive(Debug)]
pub struct ImportSummary {
    pub total_rows: usize,
    pub valid_rows: usize,
    pub error_rows: usize,
    pub warning_rows: usize,
    pub duplicate_rows: usize,
    pub new_rows: usize,
}

/// The review of the rows: duplicate flags, warnings and errors per row, and
/// the counts.
#[derive(Debug)]
pub struct ImportReview {
    pub duplicates: Vec<bool>,
    pub warnings: Vec<Vec<String>>,
    pub errors: Vec<Vec<String>>,
    pub summary: ImportSummary,
}

/// The transaction types that an import accepts.
pub open spec fn is_valid_type(t: Seq<char>) -> bool {
    ||| t == "buy"@
    ||| t == "sell"@
    ||| t == "dividend"@
    ||| t == "cash_in"@
    ||| t == "cash_out"@
    ||| t == "fee"@
    ||| t == "manual_cash_adjustment"@
    ||| t == "cash_set"@
    ||| t == "expense"@
}

/// A buy or a sell.
pub open spec fn is_trade(t: Seq<char>) -> bool {
    t == "buy"@ || t == "sell"@
}

/// The errors of a row, in order: empty date, unknown type, trade without asset.
pub open spec fn row_errors(date: Seq<char>, t: Seq<char>, has_asset_id: bool) -> Seq<Seq<char>> {
    let e1: Seq<Seq<char>> = if date.len() == 0 {
        seq!["日期不能为空 (Date cannot be empty)"@]
    } else {
        Seq::empty()
    };
    let e2 = if !is_valid_type(t) {
        e1.push("未知交易类型 (Unknown type): "@ + t)
    } else {
        e1
    };
    if is_trade(t) && !has_asset_id {
        e2.push("买卖交易缺少资产ID (Asset ID missing for buy/sell)"@)
    } else {
        e2
    }
}

/// The warnings of a row: a trade with a zero amount.
pub open spec fn row_warnings(t: Seq<char>, amount_is_zero: bool) -> Seq<Seq<char>> {
    if amount_is_zero && is_trade(t) {
        seq!["交易金额为0 (Amount is 0 for buy/sell)"@]
    } else {
        Seq::empty()
    }
}

/// The errors of one row.
pub open spec fn facts_errors(f: ImportRowFacts) -> Seq<Seq<char>> {
    row_errors(f.date@, f.transaction_type@, f.has_asset_id)
}

/// The warnings of one row.
pub open spec fn facts_warnings(f: ImportRowFacts) -> Seq<Seq<char>> {
    row_warnings(f.transaction_type@, f.amount_is_zero)
}

/// The number of rows of `rs` that satisfy `p`.
pub open spec fn count_rows(rs: Seq<ImportRowFacts>, p: spec_fn(ImportRowFacts) -> bool) -> nat
    decreases rs.len(),
{
    if rs.len() == 0 {
        0
    } else {
        count_rows(rs.drop_last(), p) + if p(rs.last()) {
            1nat
        } else {
            0nat
        }
    }
}

proof fn lemma_count_rows_bound(rs: Seq<ImportRowFacts>, p: spec_fn(ImportRowFacts) -> bool)
    ensures
        count_rows(rs, p) <= rs.len(),
    decreases rs.len(),
{
    if rs.len() > 0 {
        lemma_count_rows_bound(rs.drop_last(), p);
    }
}

/// The row has at least one error.
pub open spec fn has_errors() -> spec_fn(ImportRowFacts) -> bool {
    |f: ImportRowFacts| facts_errors(f).len() > 0
}

/// The row has no error.
pub open spec fn is_valid_row() -> spec_fn(ImportRowFacts) -> bool {
    |f: ImportRowFacts| facts_errors(f).len() == 0
}

/// The row has at least one warning.
pub open spec fn has_warnings() -> spec_fn(ImportRowFacts) -> bool {
    |f: ImportRowFacts| facts_warnings(f).len() > 0
}

/// Some existing transaction has the fingerprint.
pub open spec fn fingerprint_known(existing: Seq<String>, fp: Seq<char>) -> bool {
    exists|j: int| 0 <= j < existing.len() && (#[trigger] existing[j])@ == fp
}

/// The row duplicates one of the existing transactions.
pub open spec fn is_duplicate_row(existing: Seq<String>) -> spec_fn(ImportRowFacts) -> bool {
    |f: ImportRowFacts| fingerprint_known(existing, f.fingerprint@)
}

/// The row is new.
pub open spec fn is_new_row(existing: Seq<String>) -> spec_fn(ImportRowFacts) -> bool {
    |f: ImportRowFacts| !fingerprint_known(existing, f.fingerprint@)
}

/// Whether the type is accepted by an import.
fn valid_type(t: &str) -> (r: bool)
    ensures
        r == is_valid_type(t@),
{
    str_eq(t, "buy") || str_eq(t, "sell") || str_eq(t, "dividend") || str_eq(t, "cash_in")
        || str_eq(t, "cash_out") || str_eq(t, "fee") || str_eq(t, "manual_cash_adjustment")
        || str_eq(t, "cash_set") || str_eq(t, "expense")
}

/// Validates one row: its errors and warnings.
fn review_row(f: &ImportRowFacts) -> (r: (Vec<String>, Vec<String>))
    ensures
        strings_view(r.0@) == facts_errors(*f),
        strings_view(r.1@) == facts_warnings(*f),
{
    let mut errors: Vec<String> = Vec::new();
    let mut warnings: Vec<String> = Vec::new();
    if f.date.as_str().is_empty() {
        errors.push(owned("日期不能为空 (Date cannot be empty)"));
    }
    if !valid_type(f.transaction_type.as_str()) {
        let mut m = owned("未知交易类型 (Unknown type): ");
        push_str(&mut m, f.transaction_type.as_str());
        errors.push(m);
    }
    let trade = str_eq(f.transaction_type.as_str(), "buy") || str_eq(
        f.transaction_type.as_str(),
        "sell",
    );
    if f.amount_is_zero && trade {
        warnings.push(owned("交易金额为0 (Amount is 0 for buy/sell)"));
    }
    if trade && !f.has_asset_id {
        errors.push(owned("买卖交易缺少资产ID (Asset ID missing for buy/sell)"));
    }
    assert(strings_view(errors@) =~= facts_errors(*f));
    assert(strings_view(warnings@) =~= facts_warnings(*f));
    (errors, warnings)
}

/// Whether an existing transaction has the fingerprint.
fn known_fingerprint(existing: &[String], fp: &str) -> (r: bool)
    ensures
        r == fingerprint_known(existing@, fp@),
{
    let m = existing.len();
    let mut j: usize = 0;
    while j < m
        invariant
            m == existing@.len(),
            j <= m,
            forall|q: int| 0 <= q < j ==> (#[trigger] existing@[q])@ != fp@,
        decreases m - j,
    {
        if str_eq(existing[j].as_str(), fp) {
            return true;
        }
        j += 1;
    }
    false
}

/// Reviews the candidate rows of an import against the fingerprints of the
/// existing transactions: every row is validated and counted as valid or
/// erroneous, with or without warnings, and as new or duplicate (its
/// fingerprint is an existing one).
pub fn preview_import(rows: &[ImportRowFacts], existing_fingerprints: &[String]) -> (r: ImportReview)
    ensures
        r.duplicates@.len() == rows@.len(),
        r.warnings@.len() == rows@.len(),
        r.errors@.len() == rows@.len(),
        forall|k: int|
            0 <= k < rows@.len() ==> {
                &&& #[trigger] r.duplicates@[k] == fingerprint_known(existing_fingerprints@, rows@[k].fingerprint@)
                &&& strings_view(r.errors@[k]@) == facts_errors(rows@[k])
                &&& strings_view(r.warnings@[k]@) == facts_warnings(rows@[k])
            },
        r.summary.total_rows == rows@.len(),
        r.summary.valid_rows == count_rows(rows@, is_valid_row()),
        r.summary.error_rows == count_rows(rows@, has_errors()),
        r.summary.warning_rows == count_rows(rows@, has_warnings()),
        r.summary.duplicate_rows == count_rows(rows@, is_duplicate_row(existing_fingerprints@)),
        r.summary.new_rows == count_rows(rows@, is_new_row(existing_fingerprints@)),
{
    let n = rows.len();
    let mut duplicates: Vec<bool> = Vec::new();
    let mut warnings: Vec<Vec<String>> = Vec::new();
    let mut errors: Vec<Vec<String>> = Vec::new();
    let mut valid: usize = 0;
    let mut erroneous: usize = 0;
    let mut warned: usize = 0;
    let mut dup: usize = 0;
    let mut fresh: usize = 0;
    let mut i: usize = 0;
    assert(rows@.take(0) =~= Seq::<ImportRowFacts>::empty());
    while i < n
        invariant
            n == rows@.len(),
            i <= n,
            duplicates@.len() == i,
            warnings@.len() == i,
            errors@.len() == i,
            forall|k: int|
                0 <= k < i ==> {
                    &&& #[trigger] duplicates@[k] == fingerprint_known(existing_fingerprints@, rows@[k].fingerprint@)
                    &&& strings_view(errors@[k]@) == facts_errors(rows@[k])
                    &&& strings_view(warnings@[k]@) == facts_warnings(rows@[k])
                },
            valid == count_rows(rows@.take(i as int), is_valid_row()),
            erroneous == count_rows(rows@.take(i as int), has_errors()),
            warned == count_rows(rows@.take(i as int), has_warnings()),
            dup == count_rows(rows@.take(i as int), is_duplicate_row(existing_fingerprints@)),
            fresh == count_rows(rows@.take(i as int), is_new_row(existing_fingerprints@)),
        decreases n - i,
    {
        proof {
            lemma_count_rows_bound(rows@.take(i as int), is_valid_row());
            lemma_count_rows_bound(rows@.take(i as int), has_errors());
            lemma_count_rows_bound(rows@.take(i as int), has_warnings());
            lemma_count_rows_bound(rows@.take(i as int), is_duplicate_row(existing_fingerprints@));
            lemma_count_rows_bound(rows@.take(i as int), is_new_row(existing_fingerprints@));
        }
        let (row_errors, row_warnings) = review_row(&rows[i]);
        let is_dup = known_fingerprint(existing_fingerprints, rows[i].fingerprint.as_str());
        if is_dup {
            dup += 1;
        } else {
            fresh += 1;
        }
        if row_errors.len() > 0 {
            erroneous += 1;
        } else {
            valid += 1;
        }
        if row_warnings.len() > 0 {
            warned += 1;
        }
        duplicates.push(is_dup);
        warnings.push(row_warnings);
        errors.push(row_errors);
        proof {
            let t = rows@.take(i + 1);
            assert(t.drop_last() =~= rows@.take(i as int));
            assert(t.last() == rows@[i as int]);
        }
        i += 1;
    }
    assert(rows@.take(n as int) =~= rows@);
    ImportReview {
        duplicates,
        warnings,
        errors,
        summary: ImportSummary {
            total_rows: n,
            valid_rows: valid,
            error_rows: erroneous,
            warning_rows: warned,
            duplicate_rows: dup,
            new_rows: fresh,
        },
    }
}

/// Every reviewed row is counted once as valid or erroneous, and once as new
/// or duplicate.
pub proof fn law_import_counts_partition_rows(rows: Seq<ImportRowFacts>, existing: Seq<String>)
    ensures
        count_rows(rows, is_valid_row()) + count_rows(rows, has_errors()) == rows.len(),
        count_rows(rows, is_duplicate_row(existing)) + count_rows(rows, is_new_row(existing)) == rows.len(),
    decreases rows.len(),
{
    if rows.len() > 0 {
        law_import_counts_partition_rows(rows.drop_last(), existing);
    }
}

// ---------------------------------------------------------------------------
// Committing an import
// ---------------------------------------------------------------------------

/// What committing does with a reviewed row.
#[derive(Debug, Clone, Copy, PartialEq, Eq, Structural)]
pub enum CommitAction {
    /// The row has errors: it fails.
    Fail,
    /// The row duplicates a transaction and duplicates are skipped.
    Skip,
    /// The row is applied to the holdings and recorded.
    Apply,
}

/// What committing does with a row: rows with errors fail; duplicates are
/// skipped when asked; every other row is applied.
pub fn commit_action(has_errors: bool, is_duplicate: bool, skip_duplicates: bool) -> (r: CommitAction)
    ensures
        r == (if has_errors {
            CommitAction::Fail
        } else if is_duplicate && skip_duplicates {
            CommitAction::Skip
        } else {
            CommitAction::Apply
        }),
{
    if has_errors {
        CommitAction::Fail
    } else if is_duplicate && skip_duplicates {
        CommitAction::Skip
    } else {
        CommitAction::Apply
    }
}

/// The outcome of committing an import.
#[derive(Debug)]
pub struct ImportResult {
    pub inserted: usize,
    pub skipped: usize,
    pub failed: usize,
    pub success: bool,
    pub message: String,
}

/// The result of a commit with these counts: successful when nothing failed,
/// with the message `导入完成: 成功 <inserted>, 跳过 <skipped>, 失败 <failed>`.
pub fn import_result(inserted: usize, skipped: usize, failed: usize) -> (r: ImportResult)
    ensures
        r.inserted == inserted,
        r.skipped == skipped,
        r.failed == failed,
        r.success == (failed == 0),
        r.message@ == "导入完成: 成功 "@ + decimal(inserted as nat) + ", 跳过 "@ + decimal(skipped as nat) + ", 失败 "@
            + decimal(failed as nat),
{
    let mut message = owned("导入完成: 成功 ");
    push_decimal(&mut message, inserted);
    push_str(&mut message, ", 跳过 ");
    push_decimal(&mut message, skipped);
    push_str(&mut message, ", 失败 ");
    push_decimal(&mut message, failed);
    ImportResult { inserted, skipped, failed, success: failed == 0, message }
}

/// What committing does with every reviewed row: a row with errors fails; a
/// duplicate is skipped when duplicates are skipped; every other row is
/// applied.
pub fn commit_plan(review: &ImportReview, skip_duplicates: bool) -> (r: Vec<CommitAction>)
    requires
        review.duplicates@.len() == review.errors@.len(),
    ensures
        r@.len() == review.errors@.len(),
        forall|k: int|
            0 <= k < r@.len() ==> #[trigger] r@[k] == (if review.errors@[k]@.len() > 0 {
                CommitAction::Fail
            } else if review.duplicates@[k] && skip_duplicates {
                CommitAction::Skip
            } else {
                CommitAction::Apply
            }),
{
    let n = review.errors.len();
    let mut r: Vec<CommitAction> = Vec::new();
    let mut k: usize = 0;
    while k < n
        invariant
            n == review.errors@.len(),
            review.duplicates@.len() == n,
            k <= n,
            r@.len() == k,
            forall|q: int|
                0 <= q < k ==> #[trigger] r@[q] == (if review.errors@[q]@.len() > 0 {
                    CommitAction::Fail
                } else if review.duplicates@[q] && skip_duplicates {
                    CommitAction::Skip
                } else {
                    CommitAction::Apply
                }),
        decreases n - k,
    {
        let a = commit_action(review.errors[k].len() > 0, review.duplicates[k], skip_duplicates);
        r.push(a);
        k += 1;
    }
    r
}

/// The three outcomes a committed row is counted under.
pub enum CommitOutcome {
    Inserted,
    Skipped,
    Failed,
}

/// Whether a row with this action, whose application to the holdings
/// succeeded or not, counts under the outcome: applied rows that succeeded
/// are inserted; skipped rows are skipped; rows with errors, and applied rows
/// that did not succeed, failed.
pub open spec fn counts_as(o: CommitOutcome, a: CommitAction, ok: bool) -> bool {
    match o {
        CommitOutcome::Inserted => a == CommitAction::Apply && ok,
        CommitOutcome::Skipped => a == CommitAction::Skip,
        CommitOutcome::Failed => a == CommitAction::Fail || (a == CommitAction::Apply && !ok),
    }
}

/// How many of the rows count under the outcome.
pub open spec fn count_commits(acts: Seq<CommitAction>, oks: Seq<bool>, o: CommitOutcome) -> nat
    decreases acts.len(),
{
    if acts.len() == 0 {
        0
    } else {
        count_commits(acts.drop_last(), oks.take(acts.len() - 1), o) + if counts_as(o, acts.last(), oks[acts.len() - 1]) {
            1nat
        } else {
            0nat
        }
    }
}

proof fn lemma_count_commits_bound(acts: Seq<CommitAction>, oks: Seq<bool>, o: CommitOutcome)
    ensures
        count_commits(acts, oks, o) <= acts.len(),
    decreases acts.len(),
{
    if acts.len() > 0 {
        lemma_count_commits_bound(acts.drop_last(), oks.take(acts.len() - 1), o);
    }
}

/// The result of a commit: rows applied successfully are inserted, skipped
/// rows are skipped, and rows with errors or whose application failed have
/// failed. `applied[k]` tells whether applying row `k` to the holdings
/// succeeded (read only for rows that are applied, in row order).
pub fn commit_result(actions: &[CommitAction], applied: &[bool]) -> (r: ImportResult)
    requires
        actions@.len() == applied@.len(),
    ensures
        r.inserted == count_commits(actions@, applied@, CommitOutcome::Inserted),
        r.skipped == count_commits(actions@, applied@, CommitOutcome::Skipped),
        r.failed == count_commits(actions@, applied@, CommitOutcome::Failed),
        r.success == (r.failed == 0),
        r.message@ == "导入完成: 成功 "@ + decimal(r.inserted as nat) + ", 跳过 "@ + decimal(r.skipped as nat)
            + ", 失败 "@ + decimal(r.failed as nat),
{
    let n = actions.len();
    let mut inserted: usize = 0;
    let mut skipped: usize = 0;
    let mut failed: usize = 0;
    let mut k: usize = 0;
    while k < n
        invariant
            n == actions@.len(),
            n == applied@.len(),
            k <= n,
            inserted == count_commits(actions@.take(k as int), applied@.take(k as int), CommitOutcome::Inserted),
            skipped == count_commits(actions@.take(k as int), applied@.take(k as int), CommitOutcome::Skipped),
            failed == count_commits(actions@.take(k as int), applied@.take(k as int), CommitOutcome::Failed),
        decreases n - k,
    {
        proof {
            lemma_count_commits_bound(actions@.take(k as int), applied@.take(k as int), CommitOutcome::Inserted);
            lemma_count_commits_bound(actions@.take(k as int), applied@.take(k as int), CommitOutcome::Skipped);
            lemma_count_commits_bound(actions@.take(k as int), applied@.take(k as int), CommitOutcome::Failed);
            let t = actions@.take(k + 1);
            assert(t.drop_last() =~= actions@.take(k as int));
            assert(applied@.take(k + 1).take(k as int) =~= applied@.take(k as int));
            assert(applied@.take(k + 1)[k as int] == applied@[k as int]);
            assert(t.last() == actions@[k as int]);
        }
        match actions[k] {
            CommitAction::Fail => {
                failed += 1;
            },
            CommitAction::Skip => {
                skipped += 1;
            },
            CommitAction::Apply => {
                if applied[k] {
                    inserted += 1;
                } else {
                    failed += 1;
                }
            },
        }
        k += 1;
    }
    assert(actions@.take(n as int) =~= actions@);
    assert(applied@.take(n as int) =~= applied@);
    import_result(inserted, skipped, failed)
}

/// Every committed row is counted once: as inserted, skipped or failed.
pub proof fn law_commit_counts_partition_rows(acts: Seq<CommitAction>, oks: Seq<bool>)
    requires
        acts.len() == oks.len(),
    ensures
        count_commits(acts, oks, CommitOutcome::Inserted) + count_commits(acts, oks, CommitOutcome::Skipped)
            + count_commits(acts, oks, CommitOutcome::Failed) == acts.len(),
    decreases acts.len(),
{
    if acts.len() > 0 {
        law_commit_counts_partition_rows(acts.drop_last(), oks.take(acts.len() - 1));
    }
}


/// A row has no error exactly when it has a date, its type is one of `buy`,
/// `sell`, `dividend`, `cash_in`, `cash_out`, `fee`,
/// `manual_cash_adjustment`, `cash_set` or `expense`, and a buy or sell names
/// its asset; the unknown-type error appears exactly for types outside that
/// list.
pub proof fn law_known_types_are_accepted(f: ImportRowFacts)
    ensures
        ({
            let t = f.transaction_type@;
            let known = t == "buy"@ || t == "sell"@ || t == "dividend"@ || t == "cash_in"@ || t == "cash_out"@
                || t == "fee"@ || t == "manual_cash_adjustment"@ || t == "cash_set"@ || t == "expense"@;
            &&& facts_errors(f).len() == 0 <==> (f.date@.len() > 0 && known && ((t == "buy"@ || t == "sell"@)
                ==> f.has_asset_id))
            &&& facts_errors(f).contains("未知交易类型 (Unknown type): "@ + t) <==> !known
        }),
{
    let t = f.transaction_type@;
    let unknown = "未知交易类型 (Unknown type): "@ + t;
    let e = facts_errors(f);
    reveal_strlit("未知交易类型 (Unknown type): ");
    reveal_strlit("日期不能为空 (Date cannot be empty)");
    reveal_strlit("买卖交易缺少资产ID (Asset ID missing for buy/sell)");
    let e1: Seq<Seq<char>> = if f.date@.len() == 0 {
        seq!["日期不能为空 (Date cannot be empty)"@]
    } else {
        Seq::empty()
    };
    if !is_valid_type(t) {
        let e2 = e1.push(unknown);
        assert(e2[e1.len() as int] == unknown);
        assert(e[e1.len() as int] == unknown);
    } else {
        assert forall|k: int| 0 <= k < e.len() implies e[k] != unknown by {
            assert(e[k][0] != unknown[0]);
        }
    }
}


/// A row with an empty date has the empty-date error; a buy or sell
/// without an asset has the missing-asset error; a row has a warning exactly
/// when it is a buy or sell with a zero amount.
pub proof fn law_row_errors_and_warnings(f: ImportRowFacts)
    ensures
        ({
            let t = f.transaction_type@;
            let trade = t == "buy"@ || t == "sell"@;
            &&& f.date@.len() == 0 ==> facts_errors(f).contains("日期不能为空 (Date cannot be empty)"@)
            &&& trade && !f.has_asset_id ==> facts_errors(f).contains("买卖交易缺少资产ID (Asset ID missing for buy/sell)"@)
            &&& (facts_warnings(f).len() > 0 <==> trade && f.amount_is_zero)
            &&& trade && f.amount_is_zero ==> facts_warnings(f) == seq!["交易金额为0 (Amount is 0 for buy/sell)"@]
        }),
{
    let e = facts_errors(f);
    if f.date@.len() == 0 {
        assert(e[0] == "日期不能为空 (Date cannot be empty)"@);
    }
    let t = f.transaction_type@;
    if (t == "buy"@ || t == "sell"@) && !f.has_asset_id {
        assert(e[e.len() - 1] == "买卖交易缺少资产ID (Asset ID missing for buy/sell)"@);
    }
}

} // verus!
