//! The order report: its rows, their totals, and how many rows a request
//! asks for.
use vstd::prelude::*;
use crate::text::{parse_i32, parse_signed, within};

verus! {

/// The number of rows when the request does not say.
pub const DEFAULT_ROWS: i32 = 1000;

/// The greatest number of rows a request can ask for.
pub const MAX_ROWS: i32 = 100000;

/// One order line of the report.
pub struct ReportRow {
    pub id: i32,
    pub order_no: String,
    pub customer: String,
    pub status: String,
    pub qty: i32,
    pub unit_price: i32,
    pub amount: i32,
}

/// The report: its rows, how many there are and the sum of their amounts.
pub struct ReportView {
    pub total_rows: i32,
    pub total_amount: i64,
    pub rows: Vec<ReportRow>,
}

/// The sum of the amounts of `rows`.
pub open spec fn amount_total(rows: Seq<ReportRow>) -> int
    decreases rows.len(),
{
    if rows.len() == 0 {
        0
    } else {
        amount_total(rows.drop_last()) + rows.last().amount
    }
}

/// The report over `rows`, in the order given. The rows come from a query
/// whose row count is an `i32`.
pub fn build_report(rows: Vec<ReportRow>) -> (r: ReportView)
    requires
        rows.len() <= i32::MAX,
    ensures
        r.total_rows == rows.len(),
        r.total_amount == amount_total(rows@),
        r.rows@ == rows@,
{
    let mut total_amount: i64 = 0;
    let mut i: usize = 0;
    while i < rows.len()
        invariant
            i <= rows.len() <= i32::MAX,
            total_amount == amount_total(rows@.take(i as int)),
            -(i * 2147483648) <= total_amount <= i * 2147483648,
        decreases rows.len() - i,
    {
        let amount = rows[i].amount;
        proof {
            assert(rows@.take(i + 1).drop_last() =~= rows@.take(i as int));
            assert((i + 1) * 2147483648 <= 2147483647 * 2147483648) by (nonlinear_arith)
                requires
                    i + 1 <= 2147483647,
            ;
            assert((i + 1) * 2147483648 == i * 2147483648 + 2147483648) by (nonlinear_arith);
        }
        total_amount = total_amount + amount as i64;
        i = i + 1;
    }
    proof {
        assert(rows@.take(i as int) =~= rows@);
    }
    ReportView { total_rows: rows.len() as i32, total_amount, rows }
}

/// The number of rows a request asks for with its `rows` parameter, if it
/// has one: the parameter read as an `i32`, or `DEFAULT_ROWS` when it is
/// missing or not a number, then held within `0..=MAX_ROWS`.
pub open spec fn requested_rows(param: Option<Seq<char>>) -> int {
    let asked = match param {
        Some(s) => match within(parse_signed(s), i32::MIN as int, i32::MAX as int) {
            Some(v) => v,
            None => DEFAULT_ROWS as int,
        },
        None => DEFAULT_ROWS as int,
    };
    if asked < 0 {
        0
    } else if asked > MAX_ROWS {
        MAX_ROWS as int
    } else {
        asked
    }
}

/// How many report rows to produce for the `rows` parameter `param`.
pub fn report_row_count(param: Option<&str>) -> (r: i32)
    ensures
        r == requested_rows(
            match param {
                Some(s) => Some(s@),
                None => None,
            },
        ),
{
    let asked: i32 = match param {
        Some(s) => match parse_i32(s) {
            Some(v) => v,
            None => DEFAULT_ROWS,
        },
        None => DEFAULT_ROWS,
    };
    if asked < 0 {
        0
    } else if asked > MAX_ROWS {
        MAX_ROWS
    } else {
        asked
    }
}

/// The report total is the plain sum of the amounts of all rows, whatever
/// their other fields: nothing for no rows, and one more row adds exactly
/// its amount.
pub proof fn law_total_sums_every_amount(rows: Seq<ReportRow>, row: ReportRow)
    ensures
        amount_total(Seq::<ReportRow>::empty()) == 0,
        amount_total(rows.push(row)) == amount_total(rows) + row.amount,
        amount_total(seq![row]) == row.amount,
{
    assert(rows.push(row).drop_last() =~= rows);
    assert(seq![row].drop_last() =~= Seq::<ReportRow>::empty());
}

/// Rows with the same amounts give the same total, whatever else they hold.
pub proof fn law_total_depends_only_on_amounts(a: Seq<ReportRow>, b: Seq<ReportRow>)
    requires
        a.len() == b.len(),
        forall|i: int| 0 <= i < a.len() ==> #[trigger] a[i].amount == b[i].amount,
    ensures
        amount_total(a) == amount_total(b),
    decreases a.len(),
{
    if a.len() > 0 {
        law_total_depends_only_on_amounts(a.drop_last(), b.drop_last());
    }
}

/// A `rows` parameter that reads as a number within `0..=MAX_ROWS` is the
/// row count; a negative number gives 0, a larger one `MAX_ROWS`, and a
/// missing parameter or one that is not an `i32` gives `DEFAULT_ROWS`.
pub proof fn law_requested_rows(s: Seq<char>, v: int)
    ensures
        parse_signed(s) == Some(v) && 0 <= v <= MAX_ROWS ==> requested_rows(Some(s)) == v,
        parse_signed(s) == Some(v) && i32::MIN <= v < 0 ==> requested_rows(Some(s)) == 0,
        parse_signed(s) == Some(v) && MAX_ROWS < v <= i32::MAX ==> requested_rows(Some(s))
            == MAX_ROWS,
        parse_signed(s) is None ==> requested_rows(Some(s)) == DEFAULT_ROWS,
        requested_rows(None) == DEFAULT_ROWS,
        0 <= requested_rows(Some(s)) <= MAX_ROWS,
{
}

} // verus!
