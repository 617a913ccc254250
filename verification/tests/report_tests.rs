use focus_tracker::ratio::f64_percent_of;
use focus_tracker::report::{format_duration, generate_csv_report, ReportItem};

fn item(process: &str, title: &str, category: &str, secs: i32) -> ReportItem {
    ReportItem {
        process_name: process.to_string(),
        window_title: title.to_string(),
        category: category.to_string(),
        total_duration_sec: secs,
    }
}

#[test]
fn csv_report_of_one_day() {
    let items = vec![
        item("chrome.exe", "Google AI Studio", "PRODUCTIVE", 150),
        item("chrome.exe", "YouTube", "UNPRODUCTIVE", 50),
    ];
    let csv_output = generate_csv_report(&items, 1, "2026-07-11 12:45:00");
    let expected_csv = "\
일일 업무 생산성 보고서\n\
보고서 생성일: 2026-07-11 12:45:00 | 대상 기간: 최근 1일\n\
\n\
[업무 생산성 요약]\n\
총 측정 시간,생산적 시간,비생산적 시간,생산성 점수\n\
3분 20초,2분 30초,50초,75%\n\
\n\
[상세 활동 내역]\n\
번호,프로그램/사이트,활성 창 제목,분류,시간(초),포맷팅된 시간,비율(%)\n\
1,chrome.exe,Google AI Studio,PRODUCTIVE,150,2분 30초,75%\n\
2,chrome.exe,YouTube,UNPRODUCTIVE,50,50초,25%\n";
    assert_eq!(csv_output, expected_csv);
}

#[test]
fn csv_report_titles_follow_the_period() {
    let items: Vec<ReportItem> = vec![];
    assert!(generate_csv_report(&items, 0, "t").starts_with("일일 업무 생산성 보고서\n"));
    assert!(generate_csv_report(&items, 7, "t").starts_with("주간 업무 생산성 보고서\n"));
    assert!(generate_csv_report(&items, 8, "t").starts_with("월간 업무 생산성 보고서\n"));
    let empty = generate_csv_report(&items, 30, "now");
    assert!(empty.contains("0초,0초,0초,0%\n"));
    assert!(empty.ends_with("비율(%)\n"));
}

#[test]
fn csv_report_neutral_time_counts_only_in_total() {
    let items = vec![
        item("code.exe", "main.rs", "PRODUCTIVE", 3600),
        item("x.exe", "idle", "NEUTRAL", 3600),
    ];
    let csv = generate_csv_report(&items, 7, "t");
    assert!(csv.contains("2시간,1시간,0초,100%\n"));
    assert!(csv.contains("2,x.exe,idle,NEUTRAL,3600,1시간,50%\n"));
}

#[test]
fn durations_read_naturally() {
    assert_eq!(format_duration(0), "0초");
    assert_eq!(format_duration(59), "59초");
    assert_eq!(format_duration(60), "1분");
    assert_eq!(format_duration(61), "1분 1초");
    assert_eq!(format_duration(3599), "59분 59초");
    assert_eq!(format_duration(3600), "1시간");
    assert_eq!(format_duration(3725), "1시간 2분");
    assert_eq!(format_duration(-5), "-5초");
    assert_eq!(format_duration(i32::MAX), "596523시간 14분");
}

#[test]
fn percentages_match_floating_point() {
    assert_eq!(f64_percent_of(29, 200), 14);
    assert_eq!(f64_percent_of(1, 200), 1);
    assert_eq!(f64_percent_of(1, 3), 33);
    assert_eq!(f64_percent_of(2, 3), 67);
    assert_eq!(f64_percent_of(150, 200), 75);
    assert_eq!(f64_percent_of(-29, 200), -14);
    assert_eq!(f64_percent_of(0, 5), 0);
    assert_eq!(f64_percent_of(5, 5), 100);
    assert_eq!(f64_percent_of(i32::MIN, 1), i32::MIN);
    assert_eq!(f64_percent_of(i32::MAX, 1), i32::MAX);
    let wholes = [1, 2, 3, 7, 8, 40, 200, 333, 1000, 4096, 86400, 1_000_003, i32::MAX];
    for &whole in wholes.iter() {
        for part in -300i32..=300 {
            let expected = ((part as f64 / whole as f64) * 100.0).round() as i32;
            assert_eq!(f64_percent_of(part, whole), expected, "{} / {}", part, whole);
        }
        for &part in [i32::MIN, i32::MAX, whole, whole / 2, whole / 3, whole - 1].iter() {
            let expected = ((part as f64 / whole as f64) * 100.0).round() as i32;
            assert_eq!(f64_percent_of(part, whole), expected, "{} / {}", part, whole);
        }
    }
}

#[test]
fn percentages_match_floating_point_on_all_small_pairs() {
    for whole in 1i32..=400 {
        for part in 0i32..=whole {
            let expected = ((part as f64 / whole as f64) * 100.0).round() as i32;
            assert_eq!(f64_percent_of(part, whole), expected, "{} / {}", part, whole);
        }
    }
}
