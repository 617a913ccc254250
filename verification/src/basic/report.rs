//! A plain CSV of aggregated usage.

use vstd::prelude::*;
use crate::text::{nat_text, push_nat, push_str};

verus! {

/// Accumulated time of one program or site.
pub struct AggregateReport {
    pub title: String,
    pub total_duration: u32,
    pub category: String,
}

/// The header line of the CSV.
pub open spec fn csv_header() -> Seq<char> {
    "프로그램/사이트명,누적시간(초),분류\n"@
}

/// One CSV line: title, seconds, category.
pub open spec fn csv_line(report: AggregateReport) -> Seq<char> {
    report.title@ + ","@ + nat_text(report.total_duration as nat) + ","@ + report.category@ + "\n"@
}

/// The lines of the first `k` reports.
pub open spec fn csv_lines(reports: Seq<AggregateReport>, k: int) -> Seq<char>
    decreases k,
{
    if k <= 0 {
        Seq::empty()
    } else {
        csv_lines(reports, k - 1) + csv_line(reports[k - 1])
    }
}

/// The CSV of the reports: a header naming the program or site, the
/// accumulated seconds and the category, then one line per report.
pub fn generate_csv(reports: &[AggregateReport]) -> (csv: String)
    ensures
        csv@ == csv_header() + csv_lines(reports@, reports@.len() as int),
{
    let mut csv = String::new();
    push_str(&mut csv, "프로그램/사이트명,누적시간(초),분류\n");
    let mut i: usize = 0;
    while i < reports.len()
        invariant
            i <= reports@.len(),
            csv@ == csv_header() + csv_lines(reports@, i as int),
        decreases reports@.len() - i,
    {
        let report = &reports[i];
        push_str(&mut csv, report.title.as_str());
        push_str(&mut csv, ",");
        push_nat(&mut csv, report.total_duration as u64);
        push_str(&mut csv, ",");
        push_str(&mut csv, report.category.as_str());
        push_str(&mut csv, "\n");
        assert(csv@ =~= csv_header() + csv_lines(reports@, i + 1));
        i += 1;
    }
    csv
}

} // verus!
