//! Alipay holdings exported as CSV: which column holds which field, and which
//! rows are holdings. Numbers stay text here; they are read by the caller.

use vstd::prelude::*;
use crate::error::AppError;
use crate::model::{clone_opt_string, opt_view, strings_view};
use crate::text::{owned, str_eq, trim, trimmed};

verus! {

/// The csv crate's error type.
#[verifier::external_type_specification]
#[verifier::external_body]
pub struct ExCsvError(csv::Error);

/// A CSV table: the header row and the records after it (`None` for a record
/// that could not be read).
#[derive(Debug)]
pub struct CsvTable {
    pub headers: Vec<String>,
    pub records: Vec<Option<Vec<String>>>,
}

/// The records as mathematical values.
pub open spec fn records_view(v: Seq<Option<Vec<String>>>) -> Seq<Option<Seq<Seq<char>>>> {
    Seq::new(
        v.len(),
        |i: int|
            match v[i] {
                Some(r) => Some(strings_view(r@)),
                None => None,
            },
    )
}

/// What the csv crate reads from `content` with headers, flexible record
/// lengths and all fields trimmed: the header row and the records, or `None`
/// when the header row cannot be read.
pub uninterp spec fn csv_table(content: Seq<char>) -> Option<(Seq<Seq<char>>, Seq<Option<Seq<Seq<char>>>>)>;

/// Calls the csv crate: `ReaderBuilder` with headers, flexible records and
/// `Trim::All`, then `Reader::headers` and `Reader::records`. Claimed: the
/// result is what the crate reads (named `csv_table`); the header error is
/// handed back.
#[verifier::external_body]
fn read_csv_table(content: &str) -> (r: Result<CsvTable, csv::Error>)
    ensures
        match csv_table(content@) {
            Some(t) => r matches Ok(table) && strings_view(table.headers@) == t.0 && records_view(table.records@) == t.1,
            None => r is Err,
        },
{
    let mut rdr = csv::ReaderBuilder::new().has_headers(true).flexible(true).trim(csv::Trim::All).from_reader(
        std::io::Cursor::new(content),
    );
    let headers: Vec<String> = rdr.headers()?.iter().map(|h| h.to_string()).collect();
    let records = rdr.records().map(|r| r.ok().map(|rec| rec.iter().map(|f| f.to_string()).collect())).collect();
    Ok(CsvTable { headers, records })
}

/// Calls `ToString::to_string` on a csv error (its `Display` text). Nothing
/// is stated of the text.
#[verifier::external_body]
fn csv_error_text(e: &csv::Error) -> (r: String) {
    e.to_string()
}

// ---------------------------------------------------------------------------
// Columns
// ---------------------------------------------------------------------------

/// The field that a column header names: 0 fund code, 1 fund name, 2 shares,
/// 3 market value, 4 NAV, 5 NAV date, 6 cost basis, 7 holding profit,
/// 8 profit rate, 9 source; -1 for any other header.
pub open spec fn header_field(h: Seq<char>) -> int {
    if h == "fund_code"@ || h == "基金代码"@ || h == "代码"@ {
        0
    } else if h == "fund_name"@ || h == "基金名称"@ || h == "名称"@ {
        1
    } else if h == "shares"@ || h == "持有份额"@ || h == "份额"@ || h == "份额(份)"@ {
        2
    } else if h == "market_value"@ || h == "市值"@ || h == "市值(元)"@ || h == "持有金额"@ {
        3
    } else if h == "nav"@ || h == "单位净值"@ || h == "净值"@ {
        4
    } else if h == "nav_date"@ || h == "净值日期"@ {
        5
    } else if h == "cost_basis"@ || h == "成本价"@ || h == "成本"@ {
        6
    } else if h == "holding_profit"@ || h == "total_profit"@ || h == "累计收益"@ || h == "持有收益"@ {
        7
    } else if h == "holding_profit_rate"@ || h == "profit_rate"@ || h == "持有收益率"@ {
        8
    } else if h == "source"@ || h == "来源"@ {
        9
    } else {
        -1
    }
}

/// The field that a column header names (see [`header_field`]).
fn field_of_header(h: &str) -> (r: i32)
    ensures
        r == header_field(h@),
{
    if str_eq(h, "fund_code") || str_eq(h, "基金代码") || str_eq(h, "代码") {
        0
    } else if str_eq(h, "fund_name") || str_eq(h, "基金名称") || str_eq(h, "名称") {
        1
    } else if str_eq(h, "shares") || str_eq(h, "持有份额") || str_eq(h, "份额") || str_eq(h, "份额(份)") {
        2
    } else if str_eq(h, "market_value") || str_eq(h, "市值") || str_eq(h, "市值(元)") || str_eq(h, "持有金额") {
        3
    } else if str_eq(h, "nav") || str_eq(h, "单位净值") || str_eq(h, "净值") {
        4
    } else if str_eq(h, "nav_date") || str_eq(h, "净值日期") {
        5
    } else if str_eq(h, "cost_basis") || str_eq(h, "成本价") || str_eq(h, "成本") {
        6
    } else if str_eq(h, "holding_profit") || str_eq(h, "total_profit") || str_eq(h, "累计收益") || str_eq(h, "持有收益") {
        7
    } else if str_eq(h, "holding_profit_rate") || str_eq(h, "profit_rate") || str_eq(h, "持有收益率") {
        8
    } else if str_eq(h, "source") || str_eq(h, "来源") {
        9
    } else {
        -1
    }
}

/// The text of column `i` of a record; empty past its end.
pub open spec fn cell(record: Seq<Seq<char>>, i: int) -> Seq<char> {
    if 0 <= i < record.len() {
        record[i]
    } else {
        Seq::empty()
    }
}

/// The value of field `f` among the first `n` columns: the trimmed text of
/// the last of them whose header names `f` and whose text is not empty.
pub open spec fn column_value(headers: Seq<Seq<char>>, record: Seq<Seq<char>>, f: int, n: int) -> Option<Seq<char>>
    decreases n,
{
    if n <= 0 {
        None
    } else {
        let v = trimmed(cell(record, n - 1));
        if header_field(headers[n - 1]) == f && v.len() > 0 {
            Some(v)
        } else {
            column_value(headers, record, f, n - 1)
        }
    }
}

/// One holding read from the table; numbers are left as text.
#[derive(Debug)]
pub struct HoldingRow {
    pub fund_code: String,
    pub fund_name: String,
    pub shares: Option<String>,
    pub market_value: Option<String>,
    pub nav: Option<String>,
    pub nav_date: Option<String>,
    pub cost_basis: Option<String>,
    pub total_profit: Option<String>,
    pub profit_rate: Option<String>,
    pub source: Option<String>,
}

/// A holding row as mathematical values.
pub struct HoldingRowView {
    pub fund_code: Seq<char>,
    pub fund_name: Seq<char>,
    pub shares: Option<Seq<char>>,
    pub market_value: Option<Seq<char>>,
    pub nav: Option<Seq<char>>,
    pub nav_date: Option<Seq<char>>,
    pub cost_basis: Option<Seq<char>>,
    pub total_profit: Option<Seq<char>>,
    pub profit_rate: Option<Seq<char>>,
    pub source: Option<Seq<char>>,
}

impl View for HoldingRow {
    type V = HoldingRowView;

    open spec fn view(&self) -> HoldingRowView {
        HoldingRowView {
            fund_code: self.fund_code@,
            fund_name: self.fund_name@,
            shares: opt_view(self.shares),
            market_value: opt_view(self.market_value),
            nav: opt_view(self.nav),
            nav_date: opt_view(self.nav_date),
            cost_basis: opt_view(self.cost_basis),
            total_profit: opt_view(self.total_profit),
            profit_rate: opt_view(self.profit_rate),
            source: opt_view(self.source),
        }
    }
}

/// The text, or empty text.
pub open spec fn text_or_empty(o: Option<Seq<char>>) -> Seq<char> {
    match o {
        Some(t) => t,
        None => Seq::empty(),
    }
}

/// The holding that a record gives.
pub open spec fn holding_row(headers: Seq<Seq<char>>, record: Seq<Seq<char>>) -> HoldingRowView {
    let n = headers.len() as int;
    HoldingRowView {
        fund_code: text_or_empty(column_value(headers, record, 0, n)),
        fund_name: text_or_empty(column_value(headers, record, 1, n)),
        shares: column_value(headers, record, 2, n),
        market_value: column_value(headers, record, 3, n),
        nav: column_value(headers, record, 4, n),
        nav_date: column_value(headers, record, 5, n),
        cost_basis: column_value(headers, record, 6, n),
        total_profit: column_value(headers, record, 7, n),
        profit_rate: column_value(headers, record, 8, n),
        source: column_value(headers, record, 9, n),
    }
}

/// A row is a holding when it has a fund code or a fund name.
pub open spec fn is_holding(r: HoldingRowView) -> bool {
    r.fund_code.len() > 0 || r.fund_name.len() > 0
}

/// The holdings of the readable records, in order.
pub open spec fn holding_rows(headers: Seq<Seq<char>>, records: Seq<Option<Seq<Seq<char>>>>) -> Seq<HoldingRowView>
    decreases records.len(),
{
    if records.len() == 0 {
        Seq::empty()
    } else {
        let prev = holding_rows(headers, records.drop_last());
        match records.last() {
            Some(rec) => if is_holding(holding_row(headers, rec)) {
                prev.push(holding_row(headers, rec))
            } else {
                prev
            },
            None => prev,
        }
    }
}

/// The rows as mathematical values.
pub open spec fn rows_view(v: Seq<HoldingRow>) -> Seq<HoldingRowView> {
    Seq::new(v.len(), |i: int| v[i]@)
}

/// Reads one record into its ten field values.
fn read_record(headers: &Vec<String>, record: &Vec<String>) -> (r: HoldingRow)
    ensures
        r@ == holding_row(strings_view(headers@), strings_view(record@)),
{
    let ghost hs = strings_view(headers@);
    let ghost rs = strings_view(record@);
    let mut vals: Vec<Option<String>> = vec![None, None, None, None, None, None, None, None, None, None];
    let n = headers.len();
    let mut i: usize = 0;
    while i < n
        invariant
            n == headers@.len(),
            hs == strings_view(headers@),
            rs == strings_view(record@),
            i <= n,
            vals@.len() == 10,
            forall|f: int| 0 <= f < 10 ==> opt_view(#[trigger] vals@[f]) == column_value(hs, rs, f, i as int),
        decreases n - i,
    {
        let raw = if i < record.len() {
            record[i].as_str()
        } else {
            ""
        };
        proof {
            if i < record.len() {
                assert(rs[i as int] == record@[i as int]@);
            } else {
                reveal_strlit("");
                assert(raw@ =~= Seq::<char>::empty());
            }
            assert(hs[i as int] == headers@[i as int]@);
        }
        assert(raw@ == cell(rs, i as int));
        let v = trim(raw);
        let f = field_of_header(headers[i].as_str());
        let ghost before = vals@;
        if !v.as_str().is_empty() && f >= 0 {
            vals.set(f as usize, Some(v));
        }
        proof {
            assert forall|g: int| 0 <= g < 10 implies opt_view(#[trigger] vals@[g]) == column_value(hs, rs, g, i + 1) by {
                assert(column_value(hs, rs, g, i + 1) == if header_field(hs[i as int]) == g && trimmed(cell(rs, i as int)).len() > 0 {
                    Some(trimmed(cell(rs, i as int)))
                } else {
                    column_value(hs, rs, g, i as int)
                });
            }
        }
        i += 1;
    }
    let code = clone_opt_string(&vals[0]);
    let name = clone_opt_string(&vals[1]);
    HoldingRow {
        fund_code: match code {
            Some(c) => c,
            None => String::new(),
        },
        fund_name: match name {
            Some(c) => c,
            None => String::new(),
        },
        shares: clone_opt_string(&vals[2]),
        market_value: clone_opt_string(&vals[3]),
        nav: clone_opt_string(&vals[4]),
        nav_date: clone_opt_string(&vals[5]),
        cost_basis: clone_opt_string(&vals[6]),
        total_profit: clone_opt_string(&vals[7]),
        profit_rate: clone_opt_string(&vals[8]),
        source: clone_opt_string(&vals[9]),
    }
}

/// The holdings of a read CSV table: every readable record with a fund code
/// or a fund name, its fields read from the columns whose headers name them.
pub fn holdings_from_table(table: &CsvTable) -> (r: Vec<HoldingRow>)
    ensures
        rows_view(r@) == holding_rows(strings_view(table.headers@), records_view(table.records@)),
{
    let ghost hs = strings_view(table.headers@);
    let ghost recs = records_view(table.records@);
    let n = table.records.len();
    let mut rows: Vec<HoldingRow> = Vec::new();
    let mut k: usize = 0;
    while k < n
        invariant
            n == table.records@.len(),
            hs == strings_view(table.headers@),
            recs == records_view(table.records@),
            k <= n,
            rows_view(rows@) == holding_rows(hs, recs.take(k as int)),
        decreases n - k,
    {
        proof {
            assert(recs.take(k + 1).drop_last() =~= recs.take(k as int));
        }
        match &table.records[k] {
            Some(rec) => {
                let row = read_record(&table.headers, rec);
                if !row.fund_code.as_str().is_empty() || !row.fund_name.as_str().is_empty() {
                    let ghost before = rows@;
                    rows.push(row);
                    proof {
                        assert(rows_view(rows@) =~= rows_view(before).push(rows@.last()@));
                    }
                }
            },
            None => {},
        }
        k += 1;
    }
    proof {
        assert(recs.take(n as int) =~= recs);
    }
    rows
}

/// The holdings of an Alipay CSV export: every readable record with a fund
/// code or a fund name, its fields read from the columns whose headers name
/// them (English or Chinese; the last non-empty such column wins). A header
/// row that cannot be read is an error with the csv crate's message.
pub fn parse_alipay_holdings_from_csv(csv_content: &str) -> (r: Result<Vec<HoldingRow>, AppError>)
    ensures
        match csv_table(csv_content@) {
            Some(t) => r matches Ok(rows) && rows_view(rows@) == holding_rows(t.0, t.1),
            None => r matches Err(AppError::StorageError(_)),
        },
{
    let table = match read_csv_table(csv_content) {
        Ok(t) => t,
        Err(e) => {
            return Err(AppError::StorageError(csv_error_text(&e)));
        },
    };
    Ok(holdings_from_table(&table))
}

/// Every row read from a holdings table has a fund code or a fund name, and
/// there are no more rows than records.
pub proof fn law_holding_rows_identify_a_fund(headers: Seq<Seq<char>>, records: Seq<Option<Seq<Seq<char>>>>)
    ensures
        holding_rows(headers, records).len() <= records.len(),
        forall|k: int|
            0 <= k < holding_rows(headers, records).len() ==> is_holding(#[trigger] holding_rows(headers, records)[k]),
    decreases records.len(),
{
    if records.len() > 0 {
        law_holding_rows_identify_a_fund(headers, records.drop_last());
        let prev = holding_rows(headers, records.drop_last());
        assert forall|k: int|
            0 <= k < holding_rows(headers, records).len() implies is_holding(#[trigger] holding_rows(headers, records)[k]) by {
            if k < prev.len() {
                assert(holding_rows(headers, records)[k] == prev[k]);
            }
        }
    }
}

} // verus!
