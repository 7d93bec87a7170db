//! Aggregations over recorded sleep: per-day bars and bucketed summaries.
//!
//! A summary groups the daily rows of a date range by day or by ISO week and
//! gives, for each bucket, the duration total with its smallest and largest
//! value, the quality total, and the median latency. Averages are left as a
//! total and a count, and the median is given in hundredths, so that every
//! figure is exact. Buckets come out in the order of their labels.

use crate::calendar::{
    day_of, iso_week_of_day_number, parsed_ymd, ymd_text, Date, Time,
};
use crate::error::{ApiError, ApiErrorView};
use crate::stats::{
    lemma_filter_next, lemma_push_value, lemma_sum_bounds, max_of, median, median_spec, min_of,
    sum_of,
};
use crate::text::{lemma_lex_less_transitive, str_eq, text_before, text_order, TextOrder};
use vstd::utf8::encode_utf8;
use vstd::prelude::*;
use vstd::string::StringExecFns;

verus! {

/// Longest date range a request may span, in days.
pub const MAX_RANGE_DAYS: i32 = 62;

/// Query parameters of the trends endpoints: an inclusive date range and,
/// for the summary, the bucket (`day` or `week`, `day` where absent).
#[derive(Debug)]
pub struct RangeQuery {
    pub from: String,
    pub to: String,
    pub bucket: Option<String>,
}

/// How a summary groups its rows.
#[derive(Clone, Copy, Debug, PartialEq, Eq, Structural)]
pub enum Bucket {
    /// One bucket per wake date, labelled `YYYY-MM-DD`.
    Day,
    /// One bucket per ISO week, labelled `YYYY-Www`.
    Week,
}

/// One bar of the per-day chart.
#[derive(Clone, Copy, Debug)]
pub struct SleepBar {
    pub date: Date,
    pub bed_time: Time,
    pub wake_time: Time,
    pub quality: Option<i32>,
    pub duration_min: Option<i32>,
}

/// One daily row as the store hands it to the bar chart.
#[derive(Clone, Copy, Debug)]
pub struct SleepBarRow {
    pub wake_date: Date,
    pub bed_time: Time,
    pub wake_time: Time,
    pub quality: Option<i32>,
    pub duration_min: Option<i32>,
}

/// One daily row as the store hands it to the summary.
#[derive(Clone, Copy, Debug)]
pub struct SummaryRow {
    pub wake_date: Date,
    pub duration_min: i32,
    pub quality: i32,
    pub latency_min: i32,
}

/// Duration figures of one bucket; the average is `total_min / count`.
#[derive(Debug)]
pub struct DurationBucket {
    pub bucket: String,
    pub count: usize,
    pub total_min: i64,
    pub min_min: i32,
    pub max_min: i32,
}

/// Quality figures of one bucket; the average is `total / count`.
#[derive(Debug)]
pub struct QualityBucket {
    pub bucket: String,
    pub count: usize,
    pub total: i64,
}

/// Median latency of one bucket, in hundredths of a minute.
#[derive(Debug)]
pub struct LatencyBucket {
    pub bucket: String,
    pub median_centi: i64,
}

/// The three series of a summary, bucket by bucket in the same order.
#[derive(Debug)]
pub struct SummaryResponse {
    pub duration_by_bucket: Vec<DurationBucket>,
    pub quality_by_bucket: Vec<QualityBucket>,
    pub latency_by_bucket: Vec<LatencyBucket>,
}

/// Text that `format!` renders for an ISO year and week under `{:04}-W{:02}`.
pub uninterp spec fn week_label_text(year: i32, week: u32) -> Seq<char>;

/// The character of a decimal digit.
pub open spec fn digit_char(d: int) -> char {
    if d == 0 {
        '0'
    } else if d == 1 {
        '1'
    } else if d == 2 {
        '2'
    } else if d == 3 {
        '3'
    } else if d == 4 {
        '4'
    } else if d == 5 {
        '5'
    } else if d == 6 {
        '6'
    } else if d == 7 {
        '7'
    } else if d == 8 {
        '8'
    } else {
        '9'
    }
}

/// The label `YYYY-Www` of a year of at most four digits and a week of at
/// most two: four digits of the year, `-W`, two digits of the week.
pub open spec fn week_label_digits(year: int, week: int) -> Seq<char> {
    seq![
        digit_char(year / 1000),
        digit_char((year / 100) % 10),
        digit_char((year / 10) % 10),
        digit_char(year % 10),
        '-',
        'W',
        digit_char(week / 10),
        digit_char(week % 10),
    ]
}

/// `format!` with `{:04}-W{:02}` on an ISO year and week. The contract names
/// the result, and writes it out for a year from 0 to 9999 and a week of at
/// most two digits: both numbers in decimal, filled with zeros to four and
/// to two digits.
#[verifier::external_body]
fn render_week_label(year: i32, week: u32) -> (s: String)
    ensures
        s@ == week_label_text(year, week),
        0 <= year <= 9999 && week <= 99 ==> s@ == week_label_digits(year as int, week as int),
{
    format!("{:04}-W{:02}", year, week)
}

/// Message for a date field that does not parse.
pub open spec fn invalid_date_message(field: Seq<char>) -> Seq<char> {
    "invalid "@ + field + " date"@
}

/// What reading the two ends of a date range gives: both day numbers, or the
/// first complaint.
pub open spec fn date_range_spec(from: Seq<char>, to: Seq<char>) -> Result<(int, int), ApiErrorView> {
    match day_of(parsed_ymd(from)) {
        None => Err(ApiErrorView::InvalidInput(invalid_date_message("from"@))),
        Some(first) => match day_of(parsed_ymd(to)) {
            None => Err(ApiErrorView::InvalidInput(invalid_date_message("to"@))),
            Some(last) => if last < first {
                Err(ApiErrorView::InvalidInput("to must be >= from"@))
            } else {
                Ok((first, last))
            },
        },
    }
}

/// The bucket that a query names: `day` where it names none.
pub open spec fn bucket_spec(name: Option<Seq<char>>) -> Option<Bucket> {
    match name {
        None => Some(Bucket::Day),
        Some(text) => if text == "day"@ {
            Some(Bucket::Day)
        } else if text == "week"@ {
            Some(Bucket::Week)
        } else {
            None
        },
    }
}

/// Label of the bucket that a day falls in: `YYYY-MM-DD`, or `YYYY-Www`.
pub open spec fn bucket_label(bucket: Bucket, day: int) -> Seq<char> {
    match bucket {
        Bucket::Day => ymd_text(day as i32),
        Bucket::Week => {
            let w = iso_week_of_day_number(day as i32);
            week_label_text(w.0, w.1)
        },
    }
}

/// The condition "falls in the bucket with this label".
pub open spec fn has_label(bucket: Bucket, label: Seq<char>) -> spec_fn(SummaryRow) -> bool {
    |r: SummaryRow| bucket_label(bucket, r.wake_date@) == label
}

/// The durations of some rows, in their order.
pub open spec fn durations_of(rows: Seq<SummaryRow>) -> Seq<i32> {
    rows.map_values(|r: SummaryRow| r.duration_min)
}

/// The quality scores of some rows, in their order.
pub open spec fn qualities_of(rows: Seq<SummaryRow>) -> Seq<i32> {
    rows.map_values(|r: SummaryRow| r.quality)
}

/// The latencies of some rows, in their order.
pub open spec fn latencies_of(rows: Seq<SummaryRow>) -> Seq<i32> {
    rows.map_values(|r: SummaryRow| r.latency_min)
}

/// Whether three entries are the figures of one bucket of the rows: they
/// share the label, the bucket holds at least one row, and each figure is
/// computed from exactly the rows with that label.
pub open spec fn is_bucket_summary(
    rows: Seq<SummaryRow>,
    bucket: Bucket,
    d: DurationBucket,
    q: QualityBucket,
    l: LatencyBucket,
) -> bool {
    let members = rows.filter(has_label(bucket, d.bucket@));
    &&& members.len() > 0
    &&& q.bucket@ == d.bucket@
    &&& l.bucket@ == d.bucket@
    &&& d.count == members.len()
    &&& q.count == members.len()
    &&& d.total_min == sum_of(durations_of(members))
    &&& d.min_min == min_of(durations_of(members))
    &&& d.max_min == max_of(durations_of(members))
    &&& q.total == sum_of(qualities_of(members))
    &&& Some(l.median_centi as int) == median_spec(latencies_of(members))
}

/// Whether one of the entries has the given label.
pub open spec fn has_entry(entries: Seq<DurationBucket>, label: Seq<char>) -> bool {
    exists|i: int| 0 <= i < entries.len() && (#[trigger] entries[i]).bucket@ == label
}

/// Whether a response is the summary of the rows: one entry per bucket that
/// holds a row, in the order of texts of the labels, each with the figures
/// of its bucket.
pub open spec fn is_summary(rows: Seq<SummaryRow>, bucket: Bucket, resp: SummaryResponse) -> bool {
    let n = resp.duration_by_bucket@.len();
    &&& resp.quality_by_bucket@.len() == n
    &&& resp.latency_by_bucket@.len() == n
    &&& forall|a: int, b: int|
        0 <= a < b < n ==> text_before(
            (#[trigger] resp.duration_by_bucket@[a]).bucket@,
            (#[trigger] resp.duration_by_bucket@[b]).bucket@,
        )
    &&& forall|j: int|
        0 <= j < rows.len() ==> has_entry(
            resp.duration_by_bucket@,
            bucket_label(bucket, (#[trigger] rows[j]).wake_date@),
        )
    &&& forall|i: int|
        0 <= i < n ==> is_bucket_summary(
            rows,
            bucket,
            #[trigger] resp.duration_by_bucket@[i],
            resp.quality_by_bucket@[i],
            resp.latency_by_bucket@[i],
        )
}

/// Reads a date field written as `YYYY-MM-DD`; a text that is no date is
/// rejected with `InvalidInput("invalid <field> date")`.
pub fn parse_date_field(s: &str, field: &str) -> (r: Result<Date, ApiError>)
    ensures
        match day_of(parsed_ymd(s@)) {
            Some(day) => r.is_ok() && r.unwrap()@ == day,
            None => r.is_err() && r.unwrap_err()@ == ApiErrorView::InvalidInput(
                invalid_date_message(field@),
            ),
        },
{
    match Date::parse_ymd(s) {
        Some(d) => Ok(d),
        None => {
            let msg = String::from_str("invalid ").concat(field).concat(" date");
            Err(ApiError::InvalidInput(msg))
        },
    }
}

/// Reads the two ends of an inclusive date range. The first field that is no
/// date is reported; a range that ends before it starts is rejected with
/// `InvalidInput("to must be >= from")`.
pub fn parse_and_validate_date_range(from: &str, to: &str) -> (r: Result<(Date, Date), ApiError>)
    ensures
        match date_range_spec(from@, to@) {
            Ok(ends) => r.is_ok() && r.unwrap().0@ == ends.0 && r.unwrap().1@ == ends.1,
            Err(e) => r.is_err() && r.unwrap_err()@ == e,
        },
{
    let from_date = match parse_date_field(from, "from") {
        Ok(d) => d,
        Err(e) => {
            return Err(e);
        },
    };
    let to_date = match parse_date_field(to, "to") {
        Ok(d) => d,
        Err(e) => {
            return Err(e);
        },
    };
    if to_date.is_before(&from_date) {
        return Err(ApiError::invalid_input("to must be >= from"));
    }
    Ok((from_date, to_date))
}

/// Checks the order and the length of an inclusive date range: `from` after
/// `to` is rejected with `InvalidInput("from must be <= to")`, a range of
/// more than 62 days with `InvalidInput("range must be <= 62 days")`.
pub fn check_range_span(from: &Date, to: &Date) -> (r: Result<(), ApiError>)
    ensures
        from@ > to@ ==> r.is_err() && r.unwrap_err()@ == ApiErrorView::InvalidInput(
            "from must be <= to"@,
        ),
        from@ <= to@ && to@ - from@ + 1 > MAX_RANGE_DAYS ==> r.is_err() && r.unwrap_err()@
            == ApiErrorView::InvalidInput("range must be <= 62 days"@),
        from@ <= to@ && to@ - from@ + 1 <= MAX_RANGE_DAYS ==> r.is_ok(),
{
    if to.is_before(from) {
        return Err(ApiError::invalid_input("from must be <= to"));
    }
    let span_days = to.days_since(from) + 1;
    if span_days > MAX_RANGE_DAYS {
        return Err(ApiError::invalid_input("range must be <= 62 days"));
    }
    Ok(())
}

/// Reads the bucket of a summary query: `day` where none is given; a name
/// other than `day` or `week` is rejected with
/// `InvalidInput("bucket must be day or week")`.
pub fn parse_bucket(name: Option<&str>) -> (r: Result<Bucket, ApiError>)
    ensures
        match bucket_spec(
            match name {
                Some(text) => Some(text@),
                None => None,
            },
        ) {
            Some(b) => r == Ok::<Bucket, ApiError>(b),
            None => r.is_err() && r.unwrap_err()@ == ApiErrorView::InvalidInput(
                "bucket must be day or week"@,
            ),
        },
{
    match name {
        None => Ok(Bucket::Day),
        Some(text) => {
            if str_eq(text, "day") {
                Ok(Bucket::Day)
            } else if str_eq(text, "week") {
                Ok(Bucket::Week)
            } else {
                Err(ApiError::invalid_input("bucket must be day or week"))
            }
        },
    }
}

/// What a trends request asks for, once its parameters are read.
#[derive(Clone, Copy, Debug)]
pub struct TrendsRequest {
    pub from: Date,
    pub to: Date,
    pub bucket: Bucket,
}

/// View of the bucket that a query names.
pub open spec fn bucket_name(q: RangeQuery) -> Option<Seq<char>> {
    match q.bucket {
        Some(text) => Some(text@),
        None => None,
    }
}

/// What reading a summary query gives: the two ends of the range and the
/// bucket, or the first complaint. The dates are read first, then the
/// bucket, and the length of the range is checked last.
pub open spec fn trends_query_spec(q: RangeQuery) -> Result<(int, int, Bucket), ApiErrorView> {
    match date_range_spec(q.from@, q.to@) {
        Err(e) => Err(e),
        Ok(ends) => match bucket_spec(bucket_name(q)) {
            None => Err(ApiErrorView::InvalidInput("bucket must be day or week"@)),
            Some(b) => if ends.1 - ends.0 + 1 > MAX_RANGE_DAYS {
                Err(ApiErrorView::InvalidInput("range must be <= 62 days"@))
            } else {
                Ok((ends.0, ends.1, b))
            },
        },
    }
}

/// What reading a bars query gives: the two ends of the range, or the first
/// complaint. The bucket plays no part.
pub open spec fn bars_query_spec(q: RangeQuery) -> Result<(int, int), ApiErrorView> {
    match date_range_spec(q.from@, q.to@) {
        Err(e) => Err(e),
        Ok(ends) => if ends.1 - ends.0 + 1 > MAX_RANGE_DAYS {
            Err(ApiErrorView::InvalidInput("range must be <= 62 days"@))
        } else {
            Ok(ends)
        },
    }
}

/// Reads the parameters of a summary request: the date range, then the
/// bucket, then the length of the range (at most 62 days); the first
/// complaint is returned.
pub fn read_trends_query(q: &RangeQuery) -> (r: Result<TrendsRequest, ApiError>)
    ensures
        match trends_query_spec(*q) {
            Err(e) => r.is_err() && r.unwrap_err()@ == e,
            Ok(asked) => r.is_ok() && r.unwrap().from@ == asked.0 && r.unwrap().to@ == asked.1
                && r.unwrap().bucket == asked.2,
        },
{
    let (from, to) = match parse_and_validate_date_range(q.from.as_str(), q.to.as_str()) {
        Ok(ends) => ends,
        Err(e) => {
            return Err(e);
        },
    };
    let name: Option<&str> = match &q.bucket {
        Some(text) => Some(text.as_str()),
        None => None,
    };
    let bucket = match parse_bucket(name) {
        Ok(bucket) => bucket,
        Err(e) => {
            return Err(e);
        },
    };
    match check_range_span(&from, &to) {
        Ok(()) => Ok(TrendsRequest { from, to, bucket }),
        Err(e) => Err(e),
    }
}

/// Reads the parameters of a bars request: the date range and its length (at
/// most 62 days); the first complaint is returned. A bucket in the query is
/// not looked at.
pub fn read_bars_query(q: &RangeQuery) -> (r: Result<(Date, Date), ApiError>)
    ensures
        match bars_query_spec(*q) {
            Err(e) => r.is_err() && r.unwrap_err()@ == e,
            Ok(ends) => r.is_ok() && r.unwrap().0@ == ends.0 && r.unwrap().1@ == ends.1,
        },
{
    let (from, to) = match parse_and_validate_date_range(q.from.as_str(), q.to.as_str()) {
        Ok(ends) => ends,
        Err(e) => {
            return Err(e);
        },
    };
    match check_range_span(&from, &to) {
        Ok(()) => Ok((from, to)),
        Err(e) => Err(e),
    }
}

/// The bars of the per-day chart: one per row, in the order of the rows.
pub fn sleep_bars(rows: &Vec<SleepBarRow>) -> (bars: Vec<SleepBar>)
    ensures
        bars@.len() == rows@.len(),
        forall|i: int|
            0 <= i < rows@.len() ==> {
                &&& (#[trigger] bars@[i]).date@ == rows@[i].wake_date@
                &&& bars@[i].bed_time@ == rows@[i].bed_time@
                &&& bars@[i].wake_time@ == rows@[i].wake_time@
                &&& bars@[i].quality == rows@[i].quality
                &&& bars@[i].duration_min == rows@[i].duration_min
            },
{
    let mut bars: Vec<SleepBar> = Vec::new();
    let mut i: usize = 0;
    while i < rows.len()
        invariant
            i <= rows.len(),
            bars@.len() == i,
            forall|k: int|
                0 <= k < i ==> {
                    &&& (#[trigger] bars@[k]).date@ == rows@[k].wake_date@
                    &&& bars@[k].bed_time@ == rows@[k].bed_time@
                    &&& bars@[k].wake_time@ == rows@[k].wake_time@
                    &&& bars@[k].quality == rows@[k].quality
                    &&& bars@[k].duration_min == rows@[k].duration_min
                },
        decreases rows.len() - i,
    {
        let r = &rows[i];
        bars.push(
            SleepBar {
                date: r.wake_date,
                bed_time: r.bed_time,
                wake_time: r.wake_time,
                quality: r.quality,
                duration_min: r.duration_min,
            },
        );
        i += 1;
    }
    bars
}

/// Label of the bucket that a date falls in.
pub fn label_of(bucket: Bucket, date: &Date) -> (label: String)
    ensures
        label@ == bucket_label(bucket, date@),
{
    match bucket {
        Bucket::Day => date.format_ymd(),
        Bucket::Week => {
            let (year, week) = date.iso_week();
            render_week_label(year, week)
        },
    }
}

/// Whether one of the texts is the given one.
spec fn holds_text(texts: Seq<String>, text: Seq<char>) -> bool {
    exists|i: int| 0 <= i < texts.len() && (#[trigger] texts[i])@ == text
}

/// Whether the texts come in the order of texts, none twice.
spec fn in_text_order(texts: Seq<String>) -> bool {
    forall|a: int, b: int|
        0 <= a < b < texts.len() ==> text_before((#[trigger] texts[a])@, (#[trigger] texts[b])@)
}

/// The place of a text among sorted texts: the first place whose text does
/// not come before it, and whether that text is the same.
fn place_of(sorted: &Vec<String>, text: &str) -> (r: (usize, bool))
    ensures
        r.0 <= sorted@.len(),
        forall|k: int| 0 <= k < r.0 ==> text_before((#[trigger] sorted@[k])@, text@),
        r.1 ==> r.0 < sorted@.len() && sorted@[r.0 as int]@ == text@,
        !r.1 && r.0 < sorted@.len() ==> text_before(text@, sorted@[r.0 as int]@),
{
    let mut pos: usize = 0;
    while pos < sorted.len()
        invariant
            pos <= sorted@.len(),
            forall|k: int| 0 <= k < pos ==> text_before((#[trigger] sorted@[k])@, text@),
        decreases sorted@.len() - pos,
    {
        match text_order(sorted[pos].as_str(), text) {
            TextOrder::Before => {
                pos += 1;
            },
            TextOrder::Same => {
                return (pos, true);
            },
            TextOrder::After => {
                return (pos, false);
            },
        }
    }
    (pos, false)
}

/// The different labels, in the order of texts.
fn distinct_sorted(labels: &Vec<String>) -> (out: Vec<String>)
    ensures
        in_text_order(out@),
        forall|j: int| 0 <= j < labels@.len() ==> holds_text(out@, (#[trigger] labels@[j])@),
        forall|k: int| 0 <= k < out@.len() ==> holds_text(labels@, (#[trigger] out@[k])@),
{
    let mut out: Vec<String> = Vec::new();
    let mut i: usize = 0;
    while i < labels.len()
        invariant
            i <= labels.len(),
            in_text_order(out@),
            forall|j: int| 0 <= j < i ==> holds_text(out@, (#[trigger] labels@[j])@),
            forall|k: int| 0 <= k < out@.len() ==> holds_text(labels@, (#[trigger] out@[k])@),
        decreases labels.len() - i,
    {
        let x = &labels[i];
        let (pos, same) = place_of(&out, x.as_str());
        let ghost before = out@;
        if same {
            assert(before[pos as int]@ == labels@[i as int]@);
        } else {
            let copy = x.clone();
            out.insert(pos, copy);
            proof {
                let after = out@;
                assert(after[pos as int]@ == x@);
                assert forall|a: int, b: int| 0 <= a < b < after.len() implies text_before(
                    (#[trigger] after[a])@,
                    (#[trigger] after[b])@,
                ) by {
                    if b < pos {
                        assert(after[a] == before[a] && after[b] == before[b]);
                    } else if b == pos {
                        assert(after[a] == before[a]);
                    } else {
                        assert(after[b] == before[b - 1]);
                        if b - 1 > pos {
                            assert(text_before(before[pos as int]@, before[b - 1]@));
                            lemma_lex_less_transitive(
                                encode_utf8(x@),
                                encode_utf8(before[pos as int]@),
                                encode_utf8(before[b - 1]@),
                            );
                        }
                        if a < pos {
                            assert(after[a] == before[a]);
                            lemma_lex_less_transitive(
                                encode_utf8(before[a]@),
                                encode_utf8(x@),
                                encode_utf8(before[b - 1]@),
                            );
                        } else if a > pos {
                            assert(after[a] == before[a - 1]);
                        }
                    }
                }
                assert forall|j: int| 0 <= j < i + 1 implies holds_text(
                    after,
                    (#[trigger] labels@[j])@,
                ) by {
                    if j < i {
                        let w = choose|w: int|
                            0 <= w < before.len() && (#[trigger] before[w])@ == labels@[j]@;
                        if w < pos {
                            assert(after[w] == before[w]);
                        } else {
                            assert(after[w + 1] == before[w]);
                        }
                    }
                }
                assert forall|k: int| 0 <= k < after.len() implies holds_text(
                    labels@,
                    (#[trigger] after[k])@,
                ) by {
                    if k < pos {
                        assert(after[k] == before[k]);
                    } else if k == pos {
                        assert(labels@[i as int]@ == x@);
                    } else {
                        assert(after[k] == before[k - 1]);
                    }
                }
            }
        }
        i += 1;
    }
    out
}

/// Whether the labels are those of the rows, one for one.
spec fn are_labels_of(labels: Seq<String>, rows: Seq<SummaryRow>, bucket: Bucket) -> bool {
    &&& labels.len() == rows.len()
    &&& forall|j: int|
        0 <= j < rows.len() ==> (#[trigger] labels[j])@ == bucket_label(bucket, rows[j].wake_date@)
}

/// The figures of the bucket with the given label.
fn summarize_bucket(
    rows: &Vec<SummaryRow>,
    labels: &Vec<String>,
    bucket: Bucket,
    label: &str,
) -> (r: (DurationBucket, QualityBucket, LatencyBucket))
    requires
        rows@.len() <= u32::MAX,
        are_labels_of(labels@, rows@, bucket),
        holds_text(labels@, label@),
    ensures
        r.0.bucket@ == label@,
        is_bucket_summary(rows@, bucket, r.0, r.1, r.2),
{
    let ghost pred = has_label(bucket, label@);
    let ghost witness = choose|j: int| 0 <= j < labels@.len() && (#[trigger] labels@[j])@ == label@;
    let mut count: usize = 0;
    let mut total: i64 = 0;
    let mut lowest: i32 = i32::MAX;
    let mut highest: i32 = i32::MIN;
    let mut quality_total: i64 = 0;
    let mut latencies: Vec<i32> = Vec::new();
    let mut j: usize = 0;
    assert(rows@.take(0).filter(pred) =~= Seq::<SummaryRow>::empty());
    assert(durations_of(Seq::<SummaryRow>::empty()) =~= Seq::<i32>::empty());
    assert(qualities_of(Seq::<SummaryRow>::empty()) =~= Seq::<i32>::empty());
    assert(latencies_of(Seq::<SummaryRow>::empty()) =~= Seq::<i32>::empty());
    while j < rows.len()
        invariant
            j <= rows.len(),
            rows@.len() <= u32::MAX,
            are_labels_of(labels@, rows@, bucket),
            pred == has_label(bucket, label@),
            0 <= witness < rows@.len(),
            labels@[witness]@ == label@,
            count == rows@.take(j as int).filter(pred).len(),
            count <= j,
            j > witness ==> count > 0,
            total == sum_of(durations_of(rows@.take(j as int).filter(pred))),
            lowest == min_of(durations_of(rows@.take(j as int).filter(pred))),
            highest == max_of(durations_of(rows@.take(j as int).filter(pred))),
            quality_total == sum_of(qualities_of(rows@.take(j as int).filter(pred))),
            latencies@ == latencies_of(rows@.take(j as int).filter(pred)),
        decreases rows.len() - j,
    {
        let row = &rows[j];
        let ghost chosen = rows@.take(j as int).filter(pred);
        proof {
            lemma_filter_next(rows@, pred, j as int);
            assert(labels@[j as int]@ == bucket_label(bucket, rows@[j as int].wake_date@));
        }
        if str_eq(labels[j].as_str(), label) {
            proof {
                let next = chosen.push(*row);
                assert(pred(rows@[j as int]));
                assert(rows@.take(j + 1).filter(pred) == next);
                assert(durations_of(next) =~= durations_of(chosen).push(row.duration_min));
                assert(qualities_of(next) =~= qualities_of(chosen).push(row.quality));
                assert(latencies_of(next) =~= latencies_of(chosen).push(row.latency_min));
                lemma_push_value(durations_of(chosen), row.duration_min);
                lemma_push_value(qualities_of(chosen), row.quality);
                lemma_sum_bounds(durations_of(next));
                lemma_sum_bounds(qualities_of(next));
                assert(next.len() * 0x8000_0000 <= 0xffff_ffff * 0x8000_0000) by (nonlinear_arith)
                    requires
                        next.len() <= 0xffff_ffff,
                ;
            }
            count += 1;
            total = total + row.duration_min as i64;
            if row.duration_min < lowest {
                lowest = row.duration_min;
            }
            if row.duration_min > highest {
                highest = row.duration_min;
            }
            quality_total = quality_total + row.quality as i64;
            latencies.push(row.latency_min);
        } else {
            assert(!pred(rows@[j as int]));
        }
        j += 1;
    }
    assert(rows@.take(rows@.len() as int) =~= rows@);
    let middle = match median(&latencies) {
        Some(m) => m,
        None => 0,
    };
    (
        DurationBucket {
            bucket: String::from_str(label),
            count,
            total_min: total,
            min_min: lowest,
            max_min: highest,
        },
        QualityBucket { bucket: String::from_str(label), count, total: quality_total },
        LatencyBucket { bucket: String::from_str(label), median_centi: middle },
    )
}

/// Summarizes daily rows by day or by ISO week.
///
/// Rows with the same label form a bucket. Every bucket gets one entry in
/// each of the three series, at the same position; the entries come in the
/// order of texts of their labels. An entry gives the number of rows of its
/// bucket, the total, smallest and largest duration, the total quality, and
/// the median latency in hundredths (for an even number of rows, the mean of
/// the two middle latencies). The rows may come in any order.
pub fn summary(rows: &Vec<SummaryRow>, bucket: Bucket) -> (resp: SummaryResponse)
    requires
        rows@.len() <= u32::MAX,
    ensures
        is_summary(rows@, bucket, resp),
{
    let mut labels: Vec<String> = Vec::new();
    let mut i: usize = 0;
    while i < rows.len()
        invariant
            i <= rows.len(),
            labels@.len() == i,
            forall|j: int|
                0 <= j < i ==> (#[trigger] labels@[j])@ == bucket_label(bucket, rows@[j].wake_date@),
        decreases rows.len() - i,
    {
        labels.push(label_of(bucket, &rows[i].wake_date));
        i += 1;
    }
    let distinct = distinct_sorted(&labels);
    let mut durations: Vec<DurationBucket> = Vec::new();
    let mut qualities: Vec<QualityBucket> = Vec::new();
    let mut latencies: Vec<LatencyBucket> = Vec::new();
    let mut k: usize = 0;
    while k < distinct.len()
        invariant
            k <= distinct.len(),
            rows@.len() <= u32::MAX,
            are_labels_of(labels@, rows@, bucket),
            forall|m: int| 0 <= m < distinct@.len() ==> holds_text(labels@, (#[trigger] distinct@[m])@),
            durations@.len() == k,
            qualities@.len() == k,
            latencies@.len() == k,
            forall|m: int| 0 <= m < k ==> (#[trigger] durations@[m]).bucket@ == distinct@[m]@,
            forall|m: int|
                0 <= m < k ==> is_bucket_summary(
                    rows@,
                    bucket,
                    #[trigger] durations@[m],
                    qualities@[m],
                    latencies@[m],
                ),
        decreases distinct.len() - k,
    {
        let (d, q, l) = summarize_bucket(rows, &labels, bucket, distinct[k].as_str());
        durations.push(d);
        qualities.push(q);
        latencies.push(l);
        k += 1;
    }
    let resp = SummaryResponse {
        duration_by_bucket: durations,
        quality_by_bucket: qualities,
        latency_by_bucket: latencies,
    };
    proof {
        let entries = resp.duration_by_bucket@;
        assert forall|a: int, b: int| 0 <= a < b < entries.len() implies text_before(
            (#[trigger] entries[a]).bucket@,
            (#[trigger] entries[b]).bucket@,
        ) by {
            assert(text_before(distinct@[a]@, distinct@[b]@));
        }
        assert forall|j: int| 0 <= j < rows@.len() implies has_entry(
            entries,
            bucket_label(bucket, (#[trigger] rows@[j]).wake_date@),
        ) by {
            assert(holds_text(distinct@, labels@[j]@));
            let w = choose|w: int| 0 <= w < distinct@.len() && (#[trigger] distinct@[w])@ == labels@[j]@;
            assert(entries[w].bucket@ == bucket_label(bucket, rows@[j].wake_date@));
        }
    }
    resp
}

} // verus!
