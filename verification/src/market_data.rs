//! Market data provider settings and the text handling around their
//! requests and replies: Eastmoney security ids and fund pages, Yahoo history
//! ranges, currency pairs.

use vstd::prelude::*;
use crate::error::AppError;
use crate::model::FundInfo;
use crate::text::{
    chars_of, eq_ignore_ascii_case, owned, push_str, str_eq_ignore_ascii_case, string_from_chars,
    trim_chars, trimmed,
};

verus! {

// ---------------------------------------------------------------------------
// Searching
// ---------------------------------------------------------------------------

/// `needle` occurs in `hay` at position `i`.
pub open spec fn occurs_at(hay: Seq<char>, needle: Seq<char>, i: int) -> bool {
    0 <= i && i + needle.len() <= hay.len() && hay.subrange(i, i + needle.len()) == needle
}

/// `i` is the first position where `needle` occurs in `hay`.
pub open spec fn is_first_occurrence(hay: Seq<char>, needle: Seq<char>, i: int) -> bool {
    &&& occurs_at(hay, needle, i)
    &&& forall|j: int| 0 <= j < i ==> !#[trigger] occurs_at(hay, needle, j)
}

/// The first position where `needle` occurs in `hay` (what `str::find` gives).
pub open spec fn find(hay: Seq<char>, needle: Seq<char>) -> Option<int> {
    if exists|i: int| is_first_occurrence(hay, needle, i) {
        Some(choose|i: int| is_first_occurrence(hay, needle, i))
    } else {
        None
    }
}

proof fn lemma_find_found(hay: Seq<char>, needle: Seq<char>, i: int)
    requires
        is_first_occurrence(hay, needle, i),
    ensures
        find(hay, needle) == Some(i),
{
    let j = choose|j: int| is_first_occurrence(hay, needle, j);
    assert(is_first_occurrence(hay, needle, j));
    if j < i {
        assert(!occurs_at(hay, needle, j));
    } else if j > i {
        assert(!occurs_at(hay, needle, i));
    }
}

/// The first position where `needle` occurs in `hay`.
fn find_chars(hay: &Vec<char>, needle: &Vec<char>) -> (r: Option<usize>)
    ensures
        match r {
            Some(i) => find(hay@, needle@) == Some(i as int) && is_first_occurrence(hay@, needle@, i as int),
            None => find(hay@, needle@) == None::<int>,
        },
{
    let n = hay.len();
    let m = needle.len();
    if m > n {
        proof {
            assert forall|i: int| !is_first_occurrence(hay@, needle@, i) by {}
        }
        return None;
    }
    let mut i: usize = 0;
    while i <= n - m
        invariant
            n == hay.len(),
            m == needle.len(),
            m <= n,
            i <= n - m + 1,
            forall|j: int| 0 <= j < i ==> !#[trigger] occurs_at(hay@, needle@, j),
        decreases n - m + 1 - i,
    {
        let mut k: usize = 0;
        let mut ok = true;
        while k < m
            invariant
                n == hay.len(),
                m == needle.len(),
                i + m <= n,
                k <= m,
                ok == forall|q: int| 0 <= q < k ==> hay@[i + q] == needle@[q],
            decreases m - k,
        {
            if hay[i + k] != needle[k] {
                ok = false;
            }
            k += 1;
        }
        proof {
            if ok {
                assert(hay@.subrange(i as int, i + m) =~= needle@);
            } else {
                if occurs_at(hay@, needle@, i as int) {
                    assert forall|q: int| 0 <= q < m implies hay@[i + q] == needle@[q] by {
                        assert(hay@.subrange(i as int, i + m)[q] == hay@[i + q]);
                    }
                }
            }
        }
        if ok {
            proof {
                lemma_find_found(hay@, needle@, i as int);
            }
            return Some(i);
        }
        if i == n - m {
            proof {
                assert forall|j: int| !is_first_occurrence(hay@, needle@, j) by {
                    if is_first_occurrence(hay@, needle@, j) {
                        assert(j <= i);
                    }
                }
            }
            return None;
        }
        i += 1;
    }
    proof {
        assert forall|j: int| !is_first_occurrence(hay@, needle@, j) by {}
    }
    None
}

/// The first position of `c` in `s`.
fn find_char(s: &Vec<char>, c: char) -> (r: Option<usize>)
    ensures
        match r {
            Some(i) => i < s@.len() && s@[i as int] == c && forall|j: int| 0 <= j < i ==> s@[j] != c,
            None => !s@.contains(c),
        },
{
    let n = s.len();
    let mut i: usize = 0;
    while i < n
        invariant
            n == s.len(),
            i <= n,
            forall|j: int| 0 <= j < i ==> s@[j] != c,
        decreases n - i,
    {
        if s[i] == c {
            return Some(i);
        }
        i += 1;
    }
    None
}

/// The characters of `v` from `lo` up to `hi`.
fn slice_chars(v: &Vec<char>, lo: usize, hi: usize) -> (r: Vec<char>)
    requires
        lo <= hi <= v.len(),
    ensures
        r@ == v@.subrange(lo as int, hi as int),
{
    let mut r: Vec<char> = Vec::new();
    let mut k: usize = lo;
    while k < hi
        invariant
            lo <= k <= hi <= v.len(),
            r@ == v@.subrange(lo as int, k as int),
        decreases hi - k,
    {
        r.push(v[k]);
        assert(v@.subrange(lo as int, k as int).push(v@[k as int]) =~= v@.subrange(lo as int, k + 1));
        k += 1;
    }
    r
}

/// The first position of `c` in `s`, if any.
pub open spec fn find_char_spec(s: Seq<char>, c: char) -> Option<int> {
    if s.contains(c) {
        Some(choose|i: int| 0 <= i < s.len() && s[i] == c && forall|j: int| 0 <= j < i ==> s[j] != c)
    } else {
        None
    }
}

proof fn lemma_find_char_found(s: Seq<char>, c: char, i: int)
    requires
        0 <= i < s.len(),
        s[i] == c,
        forall|j: int| 0 <= j < i ==> s[j] != c,
    ensures
        find_char_spec(s, c) == Some(i),
{
    assert(s.contains(c));
    let k = choose|k: int| 0 <= k < s.len() && s[k] == c && forall|j: int| 0 <= j < k ==> s[j] != c;
    assert(0 <= k < s.len() && s[k] == c && forall|j: int| 0 <= j < k ==> s[j] != c);
    if k < i {
        assert(s[k] != c);
    } else if k > i {
        assert(s[i] != c);
    }
}

// ---------------------------------------------------------------------------
// Eastmoney
// ---------------------------------------------------------------------------

/// Settings of the Eastmoney fund data source (the `pingzhongdata` pages).
#[derive(Debug)]
pub struct EastMoneyFundProvider {
    pub timeout: u64,
}

/// A value that opens and closes with the same quote character.
pub open spec fn is_quoted(v: Seq<char>) -> bool {
    v.len() > 0 && ((v[0] == '"' && v.last() == '"') || (v[0] == '\'' && v.last() == '\''))
}

/// Where the text of variable `name` starts and ends in the page: after the
/// first `var <name> = `, up to the next `;`.
pub open spec fn variable_span(content: Seq<char>, name: Seq<char>) -> Option<(int, int)> {
    let pattern = "var "@ + name + " = "@;
    match find(content, pattern) {
        None => None,
        Some(s) => {
            let start = s + pattern.len();
            match find_char_spec(content.skip(start), ';') {
                None => None,
                Some(e) => Some((start, start + e)),
            }
        },
    }
}

/// The trimmed text of the variable, before quote removal.
pub open spec fn variable_text(content: Seq<char>, name: Seq<char>) -> Option<Seq<char>> {
    match variable_span(content, name) {
        None => None,
        Some((a, b)) => Some(trimmed(content.subrange(a, b))),
    }
}

/// Reading the variable would slice a lone quote character.
pub open spec fn variable_is_lone_quote(content: Seq<char>, name: Seq<char>) -> bool {
    variable_text(content, name) matches Some(v) && is_quoted(v) && v.len() == 1
}

/// The value of the variable `name` in a JavaScript page: its trimmed text,
/// without surrounding quotes.
pub open spec fn variable_value(content: Seq<char>, name: Seq<char>) -> Option<Seq<char>> {
    match variable_text(content, name) {
        None => None,
        Some(v) => Some(
            if is_quoted(v) {
                v.subrange(1, v.len() - 1)
            } else {
                v
            },
        ),
    }
}

/// The message for a variable missing from the page.
pub open spec fn missing_variable_message(name: Seq<char>) -> Seq<char> {
    "Variable "@ + name + " not found in JS content"@
}

/// The message for a fund that Eastmoney does not know.
pub open spec fn unknown_fund_message(code: Seq<char>) -> Seq<char> {
    "未找到基金代码 "@ + code + "，或东方财富未返回有效基金信息。"@
}

/// The fund metadata that an Eastmoney page gives: `None` when the page is
/// missing or has no name.
pub open spec fn fund_info_spec(code: Seq<char>, page: Option<Seq<char>>) -> Option<(Seq<char>, Seq<char>, Seq<char>, Seq<char>, Seq<char>)> {
    match page {
        None => None,
        Some(p) => match variable_value(p, "fS_name"@) {
            None => None,
            Some(name) => Some(
                (
                    code,
                    name,
                    match variable_value(p, "fS_type"@) {
                        Some(t) => t,
                        None => "基金"@,
                    },
                    "CNY"@,
                    "eastmoney"@,
                ),
            ),
        },
    }
}

impl EastMoneyFundProvider {
    pub fn new(timeout: u64) -> (r: Self)
        ensures
            r.timeout == timeout,
    {
        EastMoneyFundProvider { timeout }
    }

    /// The trimmed text of the variable and where it lies, or `None`.
    fn variable_text_of(content: &str, var_name: &str) -> (r: Option<Vec<char>>)
        ensures
            match r {
                Some(v) => variable_text(content@, var_name@) == Some(v@),
                None => variable_text(content@, var_name@) is None,
            },
    {
        let c = chars_of(content);
        let mut pattern = owned("var ");
        push_str(&mut pattern, var_name);
        push_str(&mut pattern, " = ");
        let p = chars_of(pattern.as_str());
        match find_chars(&c, &p) {
            None => None,
            Some(s) => {
                assert(is_first_occurrence(c@, p@, s as int));
                assert(occurs_at(c@, p@, s as int));
                let plen = p.len();
                let clen = c.len();
                assert(s + plen <= clen);
                let start = s + plen;
                let rest = slice_chars(&c, start, c.len());
                assert(rest@ =~= c@.skip(start as int));
                match find_char(&rest, ';') {
                    None => None,
                    Some(e) => {
                        proof {
                            lemma_find_char_found(rest@, ';', e as int);
                        }
                        let raw = slice_chars(&c, start, start + e);
                        Some(trim_chars(&raw))
                    },
                }
            },
        }
    }

    /// Whether reading the variable would slice a lone quote character.
    pub fn variable_is_lone_quote(content: &str, var_name: &str) -> (r: bool)
        ensures
            r == variable_is_lone_quote(content@, var_name@),
    {
        match Self::variable_text_of(content, var_name) {
            None => false,
            Some(v) => v.len() == 1 && (v[0] == '"' || v[0] == '\''),
        }
    }

    /// Reads `var <name> = <value>;` from a JavaScript page: the trimmed value
    /// without surrounding quotes.
    pub fn parse_variable(content: &str, var_name: &str) -> (r: Result<String, AppError>)
        requires
            !variable_is_lone_quote(content@, var_name@),
        ensures
            match variable_value(content@, var_name@) {
                Some(v) => r matches Ok(s) && s@ == v,
                None => r matches Err(AppError::ApiError(m)) && m@ == missing_variable_message(
                    var_name@,
                ),
            },
    {
        match Self::variable_text_of(content, var_name) {
            None => {
                let mut m = owned("Variable ");
                push_str(&mut m, var_name);
                push_str(&mut m, " not found in JS content");
                Err(AppError::ApiError(m))
            },
            Some(v) => {
                let n = v.len();
                if n > 0 && ((v[0] == '"' && v[n - 1] == '"') || (v[0] == '\'' && v[n - 1] == '\'')) {
                    let inner = slice_chars(&v, 1, n - 1);
                    Ok(string_from_chars(&inner))
                } else {
                    Ok(string_from_chars(&v))
                }
            },
        }
    }

    /// The fund metadata of a fetched Eastmoney page (`None` when the fetch
    /// failed): the name is required, the type defaults to `基金`.
    pub fn fund_info_from_page(fund_code: &str, page: Option<&str>) -> (r: Result<FundInfo, AppError>)
        requires
            page matches Some(p) ==> !variable_is_lone_quote(p@, "fS_name"@) && !variable_is_lone_quote(
                p@,
                "fS_type"@,
            ),
        ensures
            match fund_info_spec(
                fund_code@,
                match page {
                    Some(p) => Some(p@),
                    None => None,
                },
            ) {
                Some(info) => r matches Ok(f) && (f.fund_code@, f.fund_name@, f.fund_type@, f.currency@, f.source@) == info,
                None => r matches Err(AppError::ApiError(m)) && m@ == unknown_fund_message(fund_code@),
            },
    {
        let mut unknown = owned("未找到基金代码 ");
        push_str(&mut unknown, fund_code);
        push_str(&mut unknown, "，或东方财富未返回有效基金信息。");
        let content = match page {
            Some(p) => p,
            None => {
                return Err(AppError::ApiError(unknown));
            },
        };
        let fund_name = match Self::parse_variable(content, "fS_name") {
            Ok(n) => n,
            Err(_) => {
                return Err(AppError::ApiError(unknown));
            },
        };
        let fund_type = match Self::parse_variable(content, "fS_type") {
            Ok(t) => t,
            Err(_) => owned("基金"),
        };
        Ok(FundInfo {
            fund_code: owned(fund_code),
            fund_name,
            fund_type,
            currency: owned("CNY"),
            source: owned("eastmoney"),
        })
    }
}

/// Settings of the Eastmoney quote source for domestic and SGE symbols.
#[derive(Debug)]
pub struct EastMoneyMarketProvider {
    pub timeout: u64,
}

/// The Eastmoney security id (`market.code`) for a symbol: an id as given, a
/// `globalfuture/` code in market 118, or `118.AU9999` for AU9999.
pub open spec fn secid_of(symbol: Seq<char>) -> Result<Seq<char>, Seq<char>> {
    let s = trimmed(symbol);
    if s.len() == 0 {
        Err("东方财富代码映射错误：symbol 为空"@)
    } else if s.contains('.') {
        Ok(s)
    } else if "globalfuture/"@.is_prefix_of(s) {
        let rest = trimmed(s.skip(13));
        if rest.contains('.') {
            Ok(rest)
        } else {
            Ok("118."@ + rest)
        }
    } else if eq_ignore_ascii_case(s, "AU9999"@) {
        Ok("118.AU9999"@)
    } else {
        Err("东方财富代码映射错误：无法识别代码 "@ + s + "，请使用 118.AU9999 等形式"@)
    }
}

impl EastMoneyMarketProvider {
    pub fn new(timeout: u64) -> (r: Self)
        ensures
            r.timeout == timeout,
    {
        EastMoneyMarketProvider { timeout }
    }

    /// Map user/provider symbol to Eastmoney `secid` (market.code).
    pub fn resolve_secid(symbol: &str) -> (r: Result<String, AppError>)
        ensures
            match secid_of(symbol@) {
                Ok(id) => r matches Ok(s) && s@ == id,
                Err(msg) => r matches Err(AppError::ApiError(m)) && m@ == msg,
            },
    {
        let raw = chars_of(symbol);
        let s = trim_chars(&raw);
        if s.len() == 0 {
            return Err(AppError::ApiError(owned("东方财富代码映射错误：symbol 为空")));
        }
        if crate::text::chars_contain_char(&s, '.') {
            return Ok(string_from_chars(&s));
        }
        let prefix = chars_of("globalfuture/");
        proof {
            reveal_strlit("globalfuture/");
        }
        if crate::text::chars_start_with(&s, &prefix) {
            let tail = slice_chars(&s, 13, s.len());
            assert(tail@ =~= s@.skip(13));
            let rest = trim_chars(&tail);
            if crate::text::chars_contain_char(&rest, '.') {
                return Ok(string_from_chars(&rest));
            }
            let mut id = owned("118.");
            let r = string_from_chars(&rest);
            push_str(&mut id, r.as_str());
            return Ok(id);
        }
        let text = string_from_chars(&s);
        if str_eq_ignore_ascii_case(text.as_str(), "AU9999") {
            return Ok(owned("118.AU9999"));
        }
        let mut m = owned("东方财富代码映射错误：无法识别代码 ");
        push_str(&mut m, text.as_str());
        push_str(&mut m, "，请使用 118.AU9999 等形式");
        Err(AppError::ApiError(m))
    }
}

// ---------------------------------------------------------------------------
// Yahoo
// ---------------------------------------------------------------------------

/// Settings of the Yahoo chart source for market quotes.
#[derive(Debug)]
pub struct YahooMarketProvider {
    pub timeout: u64,
}

impl YahooMarketProvider {
    pub fn new(timeout: u64) -> (r: Self)
        ensures
            r.timeout == timeout,
    {
        YahooMarketProvider { timeout }
    }
}

/// Settings of the Yahoo chart source for exchange rates.
#[derive(Debug)]
pub struct YahooFxProvider {
    pub timeout: u64,
}

impl YahooFxProvider {
    pub fn new(timeout: u64) -> (r: Self)
        ensures
            r.timeout == timeout,
    {
        YahooFxProvider { timeout }
    }
}

/// The chart range that covers a look-back of `days` days.
pub open spec fn range_for_days(days: usize) -> Seq<char> {
    if days <= 5 {
        "5d"@
    } else if days <= 30 {
        "1mo"@
    } else if days <= 90 {
        "3mo"@
    } else if days <= 180 {
        "6mo"@
    } else if days <= 365 {
        "1y"@
    } else {
        "5y"@
    }
}

/// The Yahoo chart range to request for a history of `lookback_days` days.
pub fn history_range(lookback_days: usize) -> (r: String)
    ensures
        r@ == range_for_days(lookback_days),
{
    if lookback_days <= 5 {
        owned("5d")
    } else if lookback_days <= 30 {
        owned("1mo")
    } else if lookback_days <= 90 {
        owned("3mo")
    } else if lookback_days <= 180 {
        owned("6mo")
    } else if lookback_days <= 365 {
        owned("1y")
    } else {
        owned("5y")
    }
}

/// The base and quote currencies of a pair: the first two `/`-separated
/// parts, `USD`/`CNH` for a `USDCNH` symbol, else `?`/`?`.
pub open spec fn pair_currencies(pair: Seq<char>) -> (Seq<char>, Seq<char>) {
    match find_char_spec(pair, '/') {
        Some(i) => {
            let rest = pair.skip(i + 1);
            (
                pair.take(i),
                match find_char_spec(rest, '/') {
                    Some(j) => rest.take(j),
                    None => rest,
                },
            )
        },
        None => if "USDCNH"@.is_prefix_of(pair) {
            ("USD"@, "CNH"@)
        } else {
            ("?"@, "?"@)
        },
    }
}

/// The base and quote currencies of an exchange rate pair.
pub fn fx_pair_currencies(pair: &str) -> (r: (String, String))
    ensures
        (r.0@, r.1@) == pair_currencies(pair@),
{
    let p = chars_of(pair);
    match find_char(&p, '/') {
        Some(i) => {
            proof {
                lemma_find_char_found(p@, '/', i as int);
            }
            let base = slice_chars(&p, 0, i);
            let rest = slice_chars(&p, i + 1, p.len());
            assert(rest@ =~= p@.skip(i + 1));
            assert(base@ =~= p@.take(i as int));
            let quote = match find_char(&rest, '/') {
                Some(j) => {
                    proof {
                        lemma_find_char_found(rest@, '/', j as int);
                    }
                    let q = slice_chars(&rest, 0, j);
                    assert(q@ =~= rest@.take(j as int));
                    q
                },
                None => rest,
            };
            (string_from_chars(&base), string_from_chars(&quote))
        },
        None => {
            let prefix = chars_of("USDCNH");
            if crate::text::chars_start_with(&p, &prefix) {
                (owned("USD"), owned("CNH"))
            } else {
                (owned("?"), owned("?"))
            }
        },
    }
}

} // verus!
