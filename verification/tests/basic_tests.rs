use focus_tracker::basic::report::{generate_csv, AggregateReport};
use focus_tracker::basic::rules::{classify, Category, Rule};

#[test]
fn title_classification() {
    let rules = vec![
        Rule {
            pattern: "youtube".to_string(),
            match_type: "CONTAINS".to_string(),
            category: Category::Unproductive,
        },
        Rule {
            pattern: "Visual Studio Code".to_string(),
            match_type: "EQUALS".to_string(),
            category: Category::Productive,
        },
    ];
    assert_eq!(classify("YouTube - Chrome", &rules), Category::Unproductive);
    assert_eq!(classify("visual studio code", &rules), Category::Productive);
    assert_eq!(classify("Visual Studio Code - main.rs", &rules), Category::Neutral);
    assert_eq!(classify("anything", &[]), Category::Neutral);
}

#[test]
fn aggregate_csv() {
    let reports = vec![
        AggregateReport {
            title: "YouTube".to_string(),
            total_duration: 120,
            category: "UNPRODUCTIVE".to_string(),
        },
        AggregateReport {
            title: "Code".to_string(),
            total_duration: 0,
            category: "PRODUCTIVE".to_string(),
        },
    ];
    assert_eq!(
        generate_csv(&reports),
        "프로그램/사이트명,누적시간(초),분류\nYouTube,120,UNPRODUCTIVE\nCode,0,PRODUCTIVE\n"
    );
    assert_eq!(generate_csv(&[]), "프로그램/사이트명,누적시간(초),분류\n");
}
