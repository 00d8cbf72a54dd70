use lyric_checker::flow::{start, step, Action, ControlState, Event, Phase, Terminal};
use lyric_checker::report::{no_url_text, parse_fail_text, validation_fail_text};

fn chars(s: &str) -> Vec<char> {
    s.chars().collect()
}

fn to_string(v: &[char]) -> String {
    v.iter().collect()
}

fn run(events: Vec<Event>) -> (ControlState, Vec<Action>) {
    let (mut s, first) = start();
    let mut acts = vec![first];
    for e in events {
        let (s2, a) = step(s, e);
        s = s2;
        acts.push(a);
    }
    (s, acts)
}

#[test]
fn linked_change_request_is_a_noop() {
    let (s, acts) = run(vec![
        Event::PrLinked(true),
        Event::Fetched(true),
        Event::Posted,
    ]);
    assert_eq!(s.phase, Phase::Done(Terminal::Skipped));
    // nothing beyond the first existence check
    assert_eq!(
        acts,
        vec![Action::CheckPrLinked, Action::Idle, Action::Idle, Action::Idle]
    );
}

#[test]
fn prior_comment_is_a_noop() {
    let (s, acts) = run(vec![
        Event::PrLinked(false),
        Event::Commented(true),
        Event::Fetched(true),
    ]);
    assert_eq!(s.phase, Phase::Done(Terminal::Skipped));
    assert_eq!(
        acts,
        vec![
            Action::CheckPrLinked,
            Action::CheckCommented,
            Action::Idle,
            Action::Idle
        ]
    );
}

#[test]
fn validation_failure_declines_without_artifacts() {
    let (s, acts) = run(vec![
        Event::PrLinked(false),
        Event::Commented(false),
        Event::Extracted { has_url: true, smoothing: false },
        Event::Fetched(true),
        Event::Parsed(true),
        Event::Validated(false),
        Event::Posted,
    ]);
    assert_eq!(s.phase, Phase::Done(Terminal::Declined));
    assert!(acts.contains(&Action::PostDecline));
    assert!(!acts.contains(&Action::GenerateArtifacts));
    assert!(!acts.contains(&Action::PostSuccessAndOpenChangeRequest));
}

#[test]
fn missing_url_declines_without_fetch() {
    let (s, acts) = run(vec![
        Event::PrLinked(false),
        Event::Commented(false),
        Event::Extracted { has_url: false, smoothing: false },
    ]);
    assert_eq!(s.phase, Phase::Done(Terminal::Declined));
    assert!(acts.contains(&Action::PostDecline));
    assert!(!acts.contains(&Action::FetchDocument));
    assert!(!acts.contains(&Action::GenerateArtifacts));
}

#[test]
fn transport_failure_posts_nothing() {
    let (s, acts) = run(vec![
        Event::PrLinked(false),
        Event::Commented(false),
        Event::Extracted { has_url: true, smoothing: false },
        Event::Fetched(false),
    ]);
    assert_eq!(s.phase, Phase::Done(Terminal::Failed));
    assert!(!acts.contains(&Action::PostDecline));
    assert!(!acts.contains(&Action::PostSuccessAndOpenChangeRequest));
}

#[test]
fn success_path_generates_then_reports() {
    let (s, acts) = run(vec![
        Event::PrLinked(false),
        Event::Commented(false),
        Event::Extracted { has_url: true, smoothing: true },
        Event::Fetched(true),
        Event::Parsed(true),
        Event::Smoothed,
        Event::Validated(true),
        Event::Generated(true),
        Event::Posted,
    ]);
    assert_eq!(s.phase, Phase::Done(Terminal::Succeeded));
    assert_eq!(
        acts,
        vec![
            Action::CheckPrLinked,
            Action::CheckCommented,
            Action::Extract,
            Action::FetchDocument,
            Action::ParseDocument,
            Action::SmoothLines,
            Action::ValidateDocument,
            Action::GenerateArtifacts,
            Action::PostSuccessAndOpenChangeRequest,
            Action::Idle
        ]
    );
}

#[test]
fn smoothing_not_requested_goes_straight_to_validation() {
    let (_, acts) = run(vec![
        Event::PrLinked(false),
        Event::Commented(false),
        Event::Extracted { has_url: true, smoothing: false },
        Event::Fetched(true),
        Event::Parsed(true),
        Event::Validated(true),
        Event::Generated(true),
        Event::Posted,
    ]);
    assert!(!acts.contains(&Action::SmoothLines));
    assert!(acts.contains(&Action::ValidateDocument));
}

#[test]
fn no_url_text_matches_the_original_wording() {
    assert_eq!(
        to_string(&no_url_text()),
        "无法在 Issue 中找到有效的“TTML 歌词文件下载直链”。"
    );
}

#[test]
fn parse_failure_text_wraps_the_detail() {
    let msg = parse_fail_text(&chars("bad timestamp"));
    assert_eq!(to_string(&msg), "解析 TTML 文件失败: `bad timestamp`");
}

#[test]
fn validation_text_lists_each_error_on_its_own_bullet() {
    let errors = vec![chars("第一条错误"), chars("第二条错误")];
    let msg = to_string(&validation_fail_text(&errors));
    assert_eq!(msg, "文件验证失败:\n- 第一条错误\n- 第二条错误");
    assert!(msg.contains("\n- 第一条错误"));
    assert!(msg.contains("\n- 第二条错误"));
}
