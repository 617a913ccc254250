//! Activity reports: readable durations and the CSV export.

use vstd::prelude::*;
use crate::ratio::{f64_percent, f64_percent_of, lemma_share_within_hundred};
use crate::text::{int_text, push_int, push_str, str_eq};

verus! {

/// Time spent on one process, window title and category.
#[derive(Debug, Clone, PartialEq)]
pub struct ReportItem {
    pub process_name: String,
    pub window_title: String,
    pub category: String,
    pub total_duration_sec: i32,
}

/// A number of seconds as the report writes it: seconds below a minute,
/// minutes and seconds below an hour, hours and minutes from an hour on
/// (the seconds are dropped there). A zero remainder is left out.
pub open spec fn duration_text(sec: int) -> Seq<char> {
    if sec < 60 {
        int_text(sec) + "초"@
    } else {
        let minutes = sec / 60;
        let seconds = sec % 60;
        if minutes < 60 {
            if seconds == 0 {
                int_text(minutes) + "분"@
            } else {
                int_text(minutes) + "분 "@ + int_text(seconds) + "초"@
            }
        } else {
            let hours = minutes / 60;
            let remain_minutes = minutes % 60;
            if remain_minutes == 0 {
                int_text(hours) + "시간"@
            } else {
                int_text(hours) + "시간 "@ + int_text(remain_minutes) + "분"@
            }
        }
    }
}

/// Writes a number of seconds in readable Korean units.
pub fn format_duration(sec: i32) -> (res: String)
    ensures
        res@ == duration_text(sec as int),
{
    let mut s = String::new();
    if sec < 60 {
        push_int(&mut s, sec as i64);
        push_str(&mut s, "초");
    } else {
        let minutes = sec / 60;
        let seconds = sec % 60;
        if minutes < 60 {
            push_int(&mut s, minutes as i64);
            if seconds == 0 {
                push_str(&mut s, "분");
            } else {
                push_str(&mut s, "분 ");
                push_int(&mut s, seconds as i64);
                push_str(&mut s, "초");
            }
        } else {
            let hours = minutes / 60;
            let remain_minutes = minutes % 60;
            push_int(&mut s, hours as i64);
            if remain_minutes == 0 {
                push_str(&mut s, "시간");
            } else {
                push_str(&mut s, "시간 ");
                push_int(&mut s, remain_minutes as i64);
                push_str(&mut s, "분");
            }
        }
    }
    s
}

/// The report title for a period of `days` days.
pub open spec fn report_title(days: int) -> Seq<char> {
    if days <= 1 {
        "일일 업무 생산성 보고서"@
    } else if days <= 7 {
        "주간 업무 생산성 보고서"@
    } else {
        "월간 업무 생산성 보고서"@
    }
}

/// Sum of the durations of all items.
pub open spec fn total_seconds(items: Seq<ReportItem>) -> int
    decreases items.len(),
{
    if items.len() == 0 {
        0
    } else {
        total_seconds(items.drop_last()) + items.last().total_duration_sec
    }
}

/// Sum of the durations of the items of one category.
pub open spec fn category_seconds(items: Seq<ReportItem>, category: Seq<char>) -> int
    decreases items.len(),
{
    if items.len() == 0 {
        0
    } else {
        category_seconds(items.drop_last(), category) + if items.last().category@ == category {
            items.last().total_duration_sec as int
        } else {
            0
        }
    }
}

/// Share of `part` in `whole` in percent, 0 when `whole` is not positive.
pub open spec fn share_percent(part: int, whole: int) -> int {
    if whole > 0 {
        f64_percent(part, whole)
    } else {
        0
    }
}

/// One detail line: number, process, title, category, seconds, readable
/// time and share of the total.
pub open spec fn row_text(index: int, item: ReportItem, total: int) -> Seq<char> {
    let dur = item.total_duration_sec as int;
    int_text(index + 1) + ","@ + item.process_name@ + ","@ + item.window_title@ + ","@
        + item.category@ + ","@ + int_text(dur) + ","@ + duration_text(dur) + ","@ + int_text(
        share_percent(dur, total),
    ) + "%\n"@
}

/// The detail lines of the first `k` items.
pub open spec fn rows_text(items: Seq<ReportItem>, total: int, k: int) -> Seq<char>
    decreases k,
{
    if k <= 0 {
        Seq::empty()
    } else {
        rows_text(items, total, k - 1) + row_text(k - 1, items[k - 1], total)
    }
}

/// Title, metadata and the summary table of the report.
pub open spec fn report_head(items: Seq<ReportItem>, days: int, now: Seq<char>) -> Seq<char> {
    let total = total_seconds(items);
    let productive = category_seconds(items, "PRODUCTIVE"@);
    let unproductive = category_seconds(items, "UNPRODUCTIVE"@);
    report_title(days) + "\n"@ + "보고서 생성일: "@ + now + " | 대상 기간: 최근 "@ + int_text(days)
        + "일\n"@ + "\n"@ + "[업무 생산성 요약]\n"@ + "총 측정 시간,생산적 시간,비생산적 시간,생산성 점수\n"@
        + duration_text(total) + ","@ + duration_text(productive) + ","@ + duration_text(
        unproductive,
    ) + ","@ + int_text(share_percent(productive, productive + unproductive)) + "%\n"@ + "\n"@
        + "[상세 활동 내역]\n"@ + "번호,프로그램/사이트,활성 창 제목,분류,시간(초),포맷팅된 시간,비율(%)\n"@
}

/// The whole CSV report.
pub open spec fn csv_report(items: Seq<ReportItem>, days: int, now: Seq<char>) -> Seq<char> {
    report_head(items, days, now) + rows_text(items, total_seconds(items), items.len() as int)
}

/// The sums the report adds up stay within `i32` at every step.
pub open spec fn sums_fit(items: Seq<ReportItem>) -> bool {
    &&& forall|k: int|
        0 <= k <= items.len() ==> i32::MIN <= #[trigger] total_seconds(items.take(k)) <= i32::MAX
    &&& forall|k: int|
        0 <= k <= items.len() ==> i32::MIN <= #[trigger] category_seconds(
            items.take(k),
            "PRODUCTIVE"@,
        ) <= i32::MAX
    &&& forall|k: int|
        0 <= k <= items.len() ==> i32::MIN <= #[trigger] category_seconds(
            items.take(k),
            "UNPRODUCTIVE"@,
        ) <= i32::MAX
    &&& i32::MIN <= category_seconds(items, "PRODUCTIVE"@) + category_seconds(
        items,
        "UNPRODUCTIVE"@,
    ) <= i32::MAX
}

fn sum_durations(items: &[ReportItem]) -> (total: i32)
    requires
        sums_fit(items@),
    ensures
        total == total_seconds(items@),
{
    let mut total: i32 = 0;
    let mut i: usize = 0;
    assert(items@.take(0) =~= Seq::<ReportItem>::empty());
    while i < items.len()
        invariant
            i <= items@.len(),
            sums_fit(items@),
            total == total_seconds(items@.take(i as int)),
        decreases items@.len() - i,
    {
        assert(items@.take(i + 1).drop_last() =~= items@.take(i as int));
        let ghost next = total_seconds(items@.take(i + 1));
        assert(i32::MIN <= next <= i32::MAX);
        total = total + items[i].total_duration_sec;
        i += 1;
    }
    assert(items@.take(items@.len() as int) =~= items@);
    total
}

fn sum_category(items: &[ReportItem], category: &str) -> (total: i32)
    requires
        category@ == "PRODUCTIVE"@ || category@ == "UNPRODUCTIVE"@,
        sums_fit(items@),
    ensures
        total == category_seconds(items@, category@),
{
    let mut total: i32 = 0;
    let mut i: usize = 0;
    assert(items@.take(0) =~= Seq::<ReportItem>::empty());
    while i < items.len()
        invariant
            i <= items@.len(),
            category@ == "PRODUCTIVE"@ || category@ == "UNPRODUCTIVE"@,
            sums_fit(items@),
            total == category_seconds(items@.take(i as int), category@),
        decreases items@.len() - i,
    {
        assert(items@.take(i + 1).drop_last() =~= items@.take(i as int));
        let ghost next = category_seconds(items@.take(i + 1), category@);
        assert(i32::MIN <= next <= i32::MAX);
        if str_eq(items[i].category.as_str(), category) {
            total = total + items[i].total_duration_sec;
        }
        i += 1;
    }
    assert(items@.take(items@.len() as int) =~= items@);
    total
}

fn share_percent_exec(part: i32, whole: i32) -> (r: i32)
    ensures
        r == share_percent(part as int, whole as int),
{
    if whole > 0 {
        f64_percent_of(part, whole)
    } else {
        0
    }
}

fn push_row(csv: &mut String, index: usize, item: &ReportItem, total: i32)
    requires
        index < i64::MAX,
    ensures
        final(csv)@ == old(csv)@ + row_text(index as int, *item, total as int),
{
    let dur = item.total_duration_sec;
    push_int(csv, index as i64 + 1);
    push_str(csv, ",");
    push_str(csv, item.process_name.as_str());
    push_str(csv, ",");
    push_str(csv, item.window_title.as_str());
    push_str(csv, ",");
    push_str(csv, item.category.as_str());
    push_str(csv, ",");
    push_int(csv, dur as i64);
    push_str(csv, ",");
    let readable = format_duration(dur);
    push_str(csv, readable.as_str());
    push_str(csv, ",");
    push_int(csv, share_percent_exec(dur, total) as i64);
    push_str(csv, "%\n");
    assert(csv@ =~= old(csv)@ + row_text(index as int, *item, total as int));
}

/// The CSV report of `items` over the last `days` days, created at
/// `current_time`: a title chosen by the period, the period, a summary of
/// the total, productive and unproductive time with the productivity score
/// (productive share of productive plus unproductive time), and one detail
/// line per item with its share of the total.
pub fn generate_csv_report(items: &[ReportItem], days: i32, current_time: &str) -> (csv: String)
    requires
        sums_fit(items@),
        items@.len() < i64::MAX,
    ensures
        csv@ == csv_report(items@, days as int, current_time@),
{
    let mut csv = String::new();
    if days <= 1 {
        push_str(&mut csv, "일일 업무 생산성 보고서");
    } else if days <= 7 {
        push_str(&mut csv, "주간 업무 생산성 보고서");
    } else {
        push_str(&mut csv, "월간 업무 생산성 보고서");
    }
    push_str(&mut csv, "\n");
    push_str(&mut csv, "보고서 생성일: ");
    push_str(&mut csv, current_time);
    push_str(&mut csv, " | 대상 기간: 최근 ");
    push_int(&mut csv, days as i64);
    push_str(&mut csv, "일\n");
    push_str(&mut csv, "\n");
    push_str(&mut csv, "[업무 생산성 요약]\n");
    push_str(&mut csv, "총 측정 시간,생산적 시간,비생산적 시간,생산성 점수\n");

    let total_tracked_sec = sum_durations(items);
    let productive_sec = sum_category(items, "PRODUCTIVE");
    let unproductive_sec = sum_category(items, "UNPRODUCTIVE");
    let productivity_score = share_percent_exec(productive_sec, productive_sec + unproductive_sec);

    let text = format_duration(total_tracked_sec);
    push_str(&mut csv, text.as_str());
    push_str(&mut csv, ",");
    let text = format_duration(productive_sec);
    push_str(&mut csv, text.as_str());
    push_str(&mut csv, ",");
    let text = format_duration(unproductive_sec);
    push_str(&mut csv, text.as_str());
    push_str(&mut csv, ",");
    push_int(&mut csv, productivity_score as i64);
    push_str(&mut csv, "%\n");
    push_str(&mut csv, "\n");
    push_str(&mut csv, "[상세 활동 내역]\n");
    push_str(&mut csv, "번호,프로그램/사이트,활성 창 제목,분류,시간(초),포맷팅된 시간,비율(%)\n");
    let ghost head = csv@;
    assert(head =~= report_head(items@, days as int, current_time@));

    let mut i: usize = 0;
    while i < items.len()
        invariant
            i <= items@.len(),
            items@.len() < i64::MAX,
            total_tracked_sec == total_seconds(items@),
            csv@ == head + rows_text(items@, total_tracked_sec as int, i as int),
        decreases items@.len() - i,
    {
        push_row(&mut csv, i, &items[i], total_tracked_sec);
        i += 1;
    }
    csv
}

proof fn lemma_category_seconds_nonneg(items: Seq<ReportItem>, category: Seq<char>)
    requires
        forall|i: int| 0 <= i < items.len() ==> #[trigger] items[i].total_duration_sec >= 0,
    ensures
        0 <= category_seconds(items, category),
    decreases items.len(),
{
    if items.len() > 0 {
        let front = items.drop_last();
        assert forall|i: int| 0 <= i < front.len() implies #[trigger] front[i].total_duration_sec >= 0 by {
            assert(front[i] == items[i]);
        }
        lemma_category_seconds_nonneg(front, category);
        assert(items.last() == items[items.len() - 1]);
    }
}

proof fn lemma_item_within_total(items: Seq<ReportItem>, j: int)
    requires
        0 <= j < items.len(),
        forall|i: int| 0 <= i < items.len() ==> #[trigger] items[i].total_duration_sec >= 0,
    ensures
        items[j].total_duration_sec <= total_seconds(items),
        0 <= total_seconds(items),
    decreases items.len(),
{
    let front = items.drop_last();
    let last = items[items.len() - 1];
    assert(items.last() == last);
    assert(last.total_duration_sec >= 0);
    assert(total_seconds(items) == total_seconds(front) + last.total_duration_sec);
    assert forall|i: int| 0 <= i < front.len() implies #[trigger] front[i].total_duration_sec >= 0 by {
        assert(front[i] == items[i]);
    }
    if front.len() == 0 {
        assert(total_seconds(front) == 0);
        assert(j == items.len() - 1);
    } else if j < items.len() - 1 {
        assert(front[j] == items[j]);
        lemma_item_within_total(front, j);
    } else {
        lemma_item_within_total(front, 0);
    }
}

/// With no negative durations, the productivity score and the share of
/// every detail line are percentages between 0 and 100.
pub proof fn lemma_report_percentages_within_hundred(items: Seq<ReportItem>)
    requires
        sums_fit(items),
        forall|i: int| 0 <= i < items.len() ==> #[trigger] items[i].total_duration_sec >= 0,
    ensures
        0 <= share_percent(
            category_seconds(items, "PRODUCTIVE"@),
            category_seconds(items, "PRODUCTIVE"@) + category_seconds(items, "UNPRODUCTIVE"@),
        ) <= 100,
        forall|i: int|
            0 <= i < items.len() ==> 0 <= #[trigger] share_percent(
                items[i].total_duration_sec as int,
                total_seconds(items),
            ) <= 100,
{
    let p = category_seconds(items, "PRODUCTIVE"@);
    let u = category_seconds(items, "UNPRODUCTIVE"@);
    lemma_category_seconds_nonneg(items, "PRODUCTIVE"@);
    lemma_category_seconds_nonneg(items, "UNPRODUCTIVE"@);
    if p + u > 0 {
        lemma_share_within_hundred(p, p + u);
    }
    assert(items.take(items.len() as int) =~= items);
    assert(i32::MIN <= total_seconds(items.take(items.len() as int)) <= i32::MAX);
    assert forall|i: int| 0 <= i < items.len() implies 0 <= #[trigger] share_percent(
        items[i].total_duration_sec as int,
        total_seconds(items),
    ) <= 100 by {
        lemma_item_within_total(items, i);
        if total_seconds(items) > 0 {
            lemma_share_within_hundred(items[i].total_duration_sec as int, total_seconds(items));
        }
    }
}

/// From an hour on, a duration reads as its whole hours (`sec / 3600`) and
/// "시간", followed by " ", the minutes within the hour (`(sec / 60) % 60`)
/// and "분" exactly when those minutes are not zero; the leftover seconds
/// never change the text. From a minute on it reads as its whole minutes
/// and "분", followed by " ", the seconds and "초" when those are not zero;
/// below a minute as its seconds and "초".
pub proof fn lemma_duration_text_units(sec: int)
    ensures
        sec >= 3600 ==> duration_text(sec) == if (sec / 60) % 60 == 0 {
            int_text(sec / 3600) + "시간"@
        } else {
            int_text(sec / 3600) + "시간 "@ + int_text((sec / 60) % 60) + "분"@
        },
        60 <= sec < 3600 ==> duration_text(sec) == if sec % 60 == 0 {
            int_text(sec / 60) + "분"@
        } else {
            int_text(sec / 60) + "분 "@ + int_text(sec % 60) + "초"@
        },
        sec < 60 ==> duration_text(sec) == int_text(sec) + "초"@,
        forall|s1: int, s2: int|
            3600 <= s1 && 3600 <= s2 && s1 / 60 == s2 / 60 ==> #[trigger] duration_text(s1)
                == #[trigger] duration_text(s2),
{
    if sec >= 3600 {
        vstd::arithmetic::div_mod::lemma_div_denominator(sec, 60, 60);
        assert((sec / 60) / 60 == sec / 3600);
        assert(sec / 60 >= 60) by {
            vstd::arithmetic::div_mod::lemma_div_is_ordered(3600, sec, 60);
        }
    }
    if 60 <= sec < 3600 {
        assert(sec / 60 < 60) by {
            vstd::arithmetic::div_mod::lemma_div_is_ordered(sec, 3599, 60);
        }
    }
    assert forall|s1: int, s2: int|
        3600 <= s1 && 3600 <= s2 && s1 / 60 == s2 / 60 implies #[trigger] duration_text(s1)
        == #[trigger] duration_text(s2) by {
        assert(s1 / 60 >= 60) by {
            vstd::arithmetic::div_mod::lemma_div_is_ordered(3600, s1, 60);
        }
        assert(s2 / 60 >= 60) by {
            vstd::arithmetic::div_mod::lemma_div_is_ordered(3600, s2, 60);
        }
    }
}

} // verus!
