//! The productivity coach: the usage summary handed to the language model,
//! the prompt around it, and the replies that need no model.

use vstd::prelude::*;
use crate::text::{int_text, push_int, push_str, str_eq, trim_text, trimmed};

verus! {

/// Reply when no API key is configured.
pub const MISSING_KEY_MESSAGE: &'static str = "구글 제미나이 API Key가 등록되지 않았습니다. 환경설정 탭에서 먼저 Key를 입력하고 저장해 주세요.";

/// Reply when the model's answer holds no text part.
pub const NO_TEXT_MESSAGE: &'static str = "제미나이의 응답 구조 분석 실패: 유효한 텍스트 파트를 추출할 수 없습니다.";

/// Endpoint of the model; the key follows.
pub const GEMINI_ENDPOINT: &'static str = "https://generativelanguage.googleapis.com/v1beta/models/gemini-3.1-flash-lite:generateContent?key=";

/// Prompt text before the period phrase.
pub const PROMPT_OPENING: &'static str = "너는 개인 생산성 분석가이자, 시간 관리 어플리케이션인 'Focus Tracker'의 따뜻하고 유능한 AI 코치이다. \
        아래에 제공된 사용자의 ";

/// Prompt text between the period phrase and the usage summary.
pub const PROMPT_GUIDE: &'static str = " 세부 프로그램 및 웹 브라우징 사용 시간 통계 내역을 바탕으로 전문적인 조언 리포트를 작성해라. \
        \n\n\
        [수립 가이드라인]\n\
        1. 이 기간 동안 사용자의 시간 효율성을 가장 크게 저해한 요인이 되었던 앱이나 도메인(딴짓)을 통계 수치에 입각해 정확히 분석해줘.\n\
        2. 앞으로의 업무 효율을 극대화하기 위해 당장 내일(혹은 장기적)로 실천할 수 있는 구체적이고 현실적인 행동 요령(Action Plan) 3가지를 글머리 기호(마크다운)로 작성해라.\n\
        3. 전체적인 문체는 사용자를 존중하고 격려하는 아주 다정하고 부드러운 어조(존댓말)로 마크다운 문법을 활용해 3~4문단 내외로 줄바꿈을 포함해 인상적으로 작성해줘.\n\
        \n\n\
        [누적 사용 통계 내역]\n";

/// Prompt text after the usage summary.
pub const PROMPT_CLOSING: &'static str = "\n\
        \n\n\
        가이드에 따라 가시성 높은 한글 마크다운 분석 리포트를 즉시 출력하라.";

/// Quotient of `a` by `d > 0`, rounded toward zero like Rust's `/`.
pub open spec fn trunc_div(a: int, d: int) -> int {
    if a >= 0 {
        a / d
    } else {
        -((-a) / d)
    }
}

/// Remainder of `a` by `d > 0` with the sign of `a`, like Rust's `%`.
pub open spec fn trunc_rem(a: int, d: int) -> int {
    if a >= 0 {
        a % d
    } else {
        -((-a) % d)
    }
}

/// A duration in the summary: minutes and seconds when there is at least a
/// minute, seconds otherwise.
pub open spec fn time_text(dur: int) -> Seq<char> {
    let mins = trunc_div(dur, 60);
    let secs = trunc_rem(dur, 60);
    if mins > 0 {
        int_text(mins) + "분 "@ + int_text(secs) + "초"@
    } else {
        int_text(secs) + "초"@
    }
}

/// The Korean word for a category label; unknown labels are neutral.
pub open spec fn category_word(label: Seq<char>) -> Seq<char> {
    if label == "PRODUCTIVE"@ {
        "생산적"@
    } else if label == "UNPRODUCTIVE"@ {
        "비생산적"@
    } else {
        "중립"@
    }
}

/// One summary line: process, title, category word and duration.
pub open spec fn summary_line(entry: (String, String, String, i32)) -> Seq<char> {
    "- "@ + entry.0@ + " ("@ + entry.1@ + ") - "@ + category_word(entry.2@) + ": "@ + time_text(
        entry.3 as int,
    ) + "\n"@
}

/// The summary lines of all entries, in order.
pub open spec fn summary_text(logs: Seq<(String, String, String, i32)>) -> Seq<char>
    decreases logs.len(),
{
    if logs.len() == 0 {
        Seq::empty()
    } else {
        summary_text(logs.drop_last()) + summary_line(logs.last())
    }
}

fn push_summary_line(s: &mut String, entry: &(String, String, String, i32))
    ensures
        final(s)@ == old(s)@ + summary_line(*entry),
{
    let dur = entry.3 as i64;
    let (mins, secs) = if dur >= 0 {
        (dur / 60, dur % 60)
    } else {
        (-((-dur) / 60), -((-dur) % 60))
    };
    push_str(s, "- ");
    push_str(s, entry.0.as_str());
    push_str(s, " (");
    push_str(s, entry.1.as_str());
    push_str(s, ") - ");
    let cat = entry.2.as_str();
    if str_eq(cat, "PRODUCTIVE") {
        push_str(s, "생산적");
    } else if str_eq(cat, "UNPRODUCTIVE") {
        push_str(s, "비생산적");
    } else {
        push_str(s, "중립");
    }
    push_str(s, ": ");
    if mins > 0 {
        push_int(s, mins);
        push_str(s, "분 ");
    }
    push_int(s, secs);
    push_str(s, "초");
    push_str(s, "\n");
    assert(s@ =~= old(s)@ + summary_line(*entry));
}

/// Summarises usage entries (process, window title, category label,
/// seconds) as one readable line each, for the model.
pub fn format_report_for_ai(logs: &[(String, String, String, i32)]) -> (summary: String)
    ensures
        summary@ == summary_text(logs@),
{
    let mut summary = String::new();
    let mut i: usize = 0;
    assert(logs@.take(0) =~= Seq::<(String, String, String, i32)>::empty());
    while i < logs.len()
        invariant
            i <= logs@.len(),
            summary@ == summary_text(logs@.take(i as int)),
        decreases logs@.len() - i,
    {
        assert(logs@.take(i + 1).drop_last() =~= logs@.take(i as int));
        push_summary_line(&mut summary, &logs[i]);
        i += 1;
    }
    assert(logs@.take(logs@.len() as int) =~= logs@);
    summary
}

/// How the prompt names the period of `days` days.
pub open spec fn period_phrase(days: int) -> Seq<char> {
    if days == 1 {
        "오늘 하루 동안의"@
    } else if days == 7 {
        "지난 1주일(7일) 동안의 누적된"@
    } else if days == 30 {
        "지난 한 달(30일) 동안의 누적된"@
    } else {
        "지정 기간 동안의"@
    }
}

/// The phrase naming the analysed period.
pub fn period_word(days: i32) -> (word: &'static str)
    ensures
        word@ == period_phrase(days as int),
{
    match days {
        1 => "오늘 하루 동안의",
        7 => "지난 1주일(7일) 동안의 누적된",
        30 => "지난 한 달(30일) 동안의 누적된",
        _ => "지정 기간 동안의",
    }
}

/// The prompt asking the model for advice on the summarised usage.
pub open spec fn prompt_text(days: int, summary: Seq<char>) -> Seq<char> {
    PROMPT_OPENING@ + period_phrase(days) + PROMPT_GUIDE@ + summary + PROMPT_CLOSING@
}

/// Reply when the period holds no usage data.
pub open spec fn no_data_text(days: int) -> Seq<char> {
    "지정한 최근 "@ + int_text(days)
        + "일 동안 수집된 측정 데이터가 부족하여 AI 분석을 시작할 수 없습니다. 대시보드 통계가 수집된 후 다시 요청해 주세요."@
}

/// What the coach does with the usage of a period.
pub enum CoachStep {
    /// Answer directly, without asking the model.
    Reply(String),
    /// Ask the model with this prompt.
    Ask(String),
}

/// With no usage data the coach replies that there is too little to
/// analyse; otherwise it asks the model about the summarised usage.
pub fn coach_step(days: i32, logs: &[(String, String, String, i32)]) -> (step: CoachStep)
    ensures
        logs@.len() == 0 ==> (step matches CoachStep::Reply(r) && r@ == no_data_text(days as int)),
        logs@.len() > 0 ==> (step matches CoachStep::Ask(p) && p@ == prompt_text(
            days as int,
            summary_text(logs@),
        )),
{
    if logs.len() == 0 {
        let mut reply = String::new();
        push_str(&mut reply, "지정한 최근 ");
        push_int(&mut reply, days as i64);
        push_str(
            &mut reply,
            "일 동안 수집된 측정 데이터가 부족하여 AI 분석을 시작할 수 없습니다. 대시보드 통계가 수집된 후 다시 요청해 주세요.",
        );
        return CoachStep::Reply(reply);
    }
    let summary = format_report_for_ai(logs);
    let mut prompt = String::new();
    push_str(&mut prompt, PROMPT_OPENING);
    push_str(&mut prompt, period_word(days));
    push_str(&mut prompt, PROMPT_GUIDE);
    push_str(&mut prompt, summary.as_str());
    push_str(&mut prompt, PROMPT_CLOSING);
    CoachStep::Ask(prompt)
}

/// The API key from the stored setting, without surrounding whitespace; a
/// missing or blank setting is refused with `MISSING_KEY_MESSAGE`.
pub fn gemini_key(setting: Option<String>) -> (key: Result<String, String>)
    ensures
        match setting {
            Some(s) => {
                if trimmed(s@).len() > 0 {
                    key matches Ok(k) && k@ == trimmed(s@)
                } else {
                    key matches Err(e) && e@ == MISSING_KEY_MESSAGE@
                }
            },
            None => key matches Err(e) && e@ == MISSING_KEY_MESSAGE@,
        },
{
    match setting {
        Some(s) => {
            let t = trim_text(s.as_str());
            if !t.is_empty() {
                Ok(t.to_owned())
            } else {
                Err(MISSING_KEY_MESSAGE.to_owned())
            }
        },
        None => Err(MISSING_KEY_MESSAGE.to_owned()),
    }
}

/// The request address for the model with `api_key`.
pub fn gemini_url(api_key: &str) -> (url: String)
    ensures
        url@ == GEMINI_ENDPOINT@ + api_key@,
{
    let mut url = String::new();
    push_str(&mut url, GEMINI_ENDPOINT);
    push_str(&mut url, api_key);
    url
}

/// The coach's answer from the text part of the model's reply, refused with
/// `NO_TEXT_MESSAGE` when the reply has none.
pub fn coach_answer(text: Option<String>) -> (answer: Result<String, String>)
    ensures
        match text {
            Some(t) => answer matches Ok(a) && a@ == t@,
            None => answer matches Err(e) && e@ == NO_TEXT_MESSAGE@,
        },
{
    match text {
        Some(t) => Ok(t),
        None => Err(NO_TEXT_MESSAGE.to_owned()),
    }
}

/// A duration of at least a minute is summarised as `m`분 `s`초 with
/// `m * 60 + s == d` and `0 <= s < 60`: the minutes are the whole quotient,
/// never reduced to the hour. Shorter non-negative durations are given in
/// seconds alone.
pub proof fn lemma_time_text_minutes_and_seconds(d: int)
    ensures
        d >= 60 ==> exists|m: int, s: int|
            #![trigger int_text(m), int_text(s)]
            m * 60 + s == d && 0 <= s < 60 && m >= 1 && time_text(d) == int_text(m) + "분 "@
                + int_text(s) + "초"@,
        0 <= d < 60 ==> time_text(d) == int_text(d) + "초"@,
        d >= 60 ==> time_text(d) == int_text(d / 60) + "분 "@ + int_text(d % 60) + "초"@,
{
    if d >= 60 {
        let m = d / 60;
        let s = d % 60;
        assert(m * 60 + s == d) by {
            vstd::arithmetic::div_mod::lemma_fundamental_div_mod(d, 60);
        }
        assert(m >= 1) by {
            vstd::arithmetic::div_mod::lemma_div_is_ordered(60, d, 60);
        }
        assert(int_text(m) + "분 "@ + int_text(s) + "초"@ == time_text(d));
    }
    if 0 <= d < 60 {
        assert(d / 60 == 0);
    }
}

} // verus!
