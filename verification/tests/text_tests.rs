use focus_tracker::text::i32_or_zero;
use focus_tracker::coach::{
    coach_answer, coach_step, format_report_for_ai, gemini_key, gemini_url, period_word,
    CoachStep, MISSING_KEY_MESSAGE, NO_TEXT_MESSAGE,
};
use focus_tracker::url::{focus_warning_url, url_encode};

#[test]
fn test_url_encode_tdd() {
    assert_eq!(url_encode("유튜브"), "%EC%9C%A0%ED%8A%9C%EB%B8%8C");
}

#[test]
fn test_gemini_prompt_builder() {
    let sample_logs = vec![
        ("Google Chrome".to_string(), "youtube.com".to_string(), "UNPRODUCTIVE".to_string(), 120),
        ("Google Chrome".to_string(), "aistudio.google.com".to_string(), "PRODUCTIVE".to_string(), 1800),
    ];
    let summary = format_report_for_ai(&sample_logs);

    assert!(summary.contains("youtube.com"));
    assert!(summary.contains("생산적"));
}

#[test]
fn url_encode_keeps_unreserved_and_marks_space() {
    assert_eq!(url_encode("AZaz09-_.~"), "AZaz09-_.~");
    assert_eq!(url_encode("a b"), "a+b");
    assert_eq!(url_encode("a&b=c/"), "a%26b%3Dc%2F");
    assert_eq!(url_encode(""), "");
}

#[test]
fn warning_url_uses_defaults() {
    assert_eq!(
        focus_warning_url(Some("Google Chrome"), Some("youtube.com")),
        "index.html#focus_warning?app=Google+Chrome&domain=youtube.com"
    );
    assert_eq!(
        focus_warning_url(None, None),
        format!(
            "index.html#focus_warning?app={}&domain={}",
            url_encode("인터넷 브라우저"),
            url_encode("비생산적 사이트")
        )
    );
}

#[test]
fn summary_lines_are_exact() {
    let logs = vec![
        ("Google Chrome".to_string(), "youtube.com".to_string(), "UNPRODUCTIVE".to_string(), 120),
        ("Code".to_string(), "main.rs".to_string(), "PRODUCTIVE".to_string(), 61),
        ("Slack".to_string(), "chat".to_string(), "OTHER".to_string(), 59),
        ("X".to_string(), "neg".to_string(), "NEUTRAL".to_string(), -61),
    ];
    assert_eq!(
        format_report_for_ai(&logs),
        "- Google Chrome (youtube.com) - 비생산적: 2분 0초\n\
         - Code (main.rs) - 생산적: 1분 1초\n\
         - Slack (chat) - 중립: 59초\n\
         - X (neg) - 중립: -1초\n"
    );
}

#[test]
fn coach_replies_without_data() {
    match coach_step(7, &[]) {
        CoachStep::Reply(r) => assert_eq!(
            r,
            "지정한 최근 7일 동안 수집된 측정 데이터가 부족하여 AI 분석을 시작할 수 없습니다. 대시보드 통계가 수집된 후 다시 요청해 주세요."
        ),
        CoachStep::Ask(_) => panic!("expected a direct reply"),
    }
}

#[test]
fn coach_prompt_names_period_and_usage() {
    let logs = vec![("Code".to_string(), "main.rs".to_string(), "PRODUCTIVE".to_string(), 30)];
    match coach_step(30, &logs) {
        CoachStep::Ask(p) => {
            assert!(p.starts_with("너는 개인 생산성 분석가이자"));
            assert!(p.contains("사용자의 지난 한 달(30일) 동안의 누적된 세부 프로그램"));
            assert!(p.contains("[누적 사용 통계 내역]\n- Code (main.rs) - 생산적: 30초\n\n\n\n가이드에 따라"));
            assert!(p.ends_with("즉시 출력하라."));
        }
        CoachStep::Reply(_) => panic!("expected a prompt"),
    }
    assert_eq!(period_word(1), "오늘 하루 동안의");
    assert_eq!(period_word(7), "지난 1주일(7일) 동안의 누적된");
    assert_eq!(period_word(3), "지정 기간 동안의");
}

#[test]
fn api_key_is_trimmed_and_required() {
    assert_eq!(gemini_key(Some("  abc \n".to_string())), Ok("abc".to_string()));
    assert_eq!(gemini_key(Some("   ".to_string())), Err(MISSING_KEY_MESSAGE.to_string()));
    assert_eq!(gemini_key(None), Err(MISSING_KEY_MESSAGE.to_string()));
    assert_eq!(
        gemini_url("k1"),
        "https://generativelanguage.googleapis.com/v1beta/models/gemini-3.1-flash-lite:generateContent?key=k1"
    );
    assert_eq!(coach_answer(Some("hi".to_string())), Ok("hi".to_string()));
    assert_eq!(coach_answer(None), Err(NO_TEXT_MESSAGE.to_string()));
}

#[test]
fn url_encoding_of_joined_text_joins_encodings() {
    let a = "Focus 집중";
    let b = " & rest~";
    assert_eq!(url_encode(&format!("{}{}", a, b)), format!("{}{}", url_encode(a), url_encode(b)));
}

#[test]
fn url_encoding_is_query_safe() {
    let encoded = url_encode("유튜브 - YouTube?list=1&t=0#x/y\\z\u{1F600}");
    assert!(encoded
        .chars()
        .all(|c| c.is_ascii_alphanumeric() || "-_.~+%".contains(c)));
    assert!(encoded.starts_with("%EC%9C%A0"));
}

#[test]
fn numbers_are_read_like_std_parse() {
    let samples = [
        "07", "23", "0", "", "-", "+", "+5", "-0", "-2147483648", "2147483647", "2147483648",
        "-2147483649", "12a", " 1", "1 ", "٣", "99999999999999999999", "-12", "--1", "+-1", "00000000000042",
    ];
    for s in samples.iter() {
        assert_eq!(i32_or_zero(s), s.parse::<i32>().unwrap_or(0), "{:?}", s);
    }
}
