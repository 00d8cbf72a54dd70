use lyric_checker::params::{
    extract_params, Extraction, TimingMode, DEFAULT_DURATION_MS, DEFAULT_FACTOR_MICRO,
    DEFAULT_GAP_MS, DEFAULT_ITERATIONS, DEFAULT_WEIGHT_MICRO,
};
use lyric_checker::numbers::{parse_micro, parse_u64};

fn chars(s: &str) -> Vec<char> {
    s.chars().collect()
}

fn to_string(v: &[char]) -> String {
    v.iter().collect()
}

#[test]
fn remarks_only_body_is_missing_url() {
    let body = "### 备注\n\n只有备注，没有链接。\n";
    match extract_params(body) {
        Extraction::MissingUrl => {}
        Extraction::Ready(_) => panic!("a body without a URL field must be declined"),
    }
}

#[test]
fn empty_url_field_is_missing_url() {
    let body = "### TTML 歌词文件下载直链\n\n\n### 备注\n\nhi\n";
    match extract_params(body) {
        Extraction::MissingUrl => {}
        Extraction::Ready(_) => panic!("an empty URL field must be declined"),
    }
}

#[test]
fn placeholder_url_field_is_missing_url() {
    let body = "### TTML 歌词文件下载直链\n\n_No response_\n";
    match extract_params(body) {
        Extraction::MissingUrl => {}
        Extraction::Ready(_) => panic!("the placeholder is no usable URL"),
    }
}

#[test]
fn url_and_remarks_are_extracted() {
    let body = "### TTML 歌词文件下载直链\n\nhttps://example.com/a.ttml\n\n### 备注\n\n你好\n";
    match extract_params(body) {
        Extraction::Ready(p) => {
            assert_eq!(to_string(&p.url), "https://example.com/a.ttml");
            assert_eq!(to_string(&p.remarks), "你好");
            assert_eq!(p.timing_mode, TimingMode::Word);
            assert!(p.smoothing.is_none());
            assert!(!p.auto_split);
            assert_eq!(p.punctuation_weight_micro, DEFAULT_WEIGHT_MICRO);
        }
        Extraction::MissingUrl => panic!("URL present"),
    }
}

#[test]
fn line_mode_marker_selects_line_timing() {
    let body = "### TTML 歌词文件下载直链\n\nhttps://e.com/a.ttml\n\n### 歌词选项\n\n这是逐行歌词\n";
    match extract_params(body) {
        Extraction::Ready(p) => assert_eq!(p.timing_mode, TimingMode::Line),
        _ => panic!("URL present"),
    }
}

#[test]
fn absent_marker_selects_word_timing() {
    let body = "### TTML 歌词文件下载直链\n\nhttps://e.com/a.ttml\n\n### 歌词选项\n\n别的内容\n";
    match extract_params(body) {
        Extraction::Ready(p) => assert_eq!(p.timing_mode, TimingMode::Word),
        _ => panic!("URL present"),
    }
}

#[test]
fn smoothing_defaults_for_missing_empty_and_placeholder() {
    let body = "### TTML 歌词文件下载直链\n\nhttps://e.com/a.ttml\n\n### 功能开关\n\n启用平滑优化\n\n### [平滑] 平滑因子\n\n_No response_\n\n### [平滑] 分组间隔阈值 (毫秒)\n\n\n### [平滑] 迭代次数\n\n7\n";
    match extract_params(body) {
        Extraction::Ready(p) => {
            let sp = p.smoothing.expect("smoothing was requested");
            assert_eq!(sp.factor_micro, DEFAULT_FACTOR_MICRO);
            assert_eq!(sp.duration_threshold_ms, DEFAULT_DURATION_MS);
            assert_eq!(sp.gap_threshold_ms, DEFAULT_GAP_MS);
            assert_eq!(sp.smoothing_iterations, 7);
        }
        _ => panic!("URL present"),
    }
}

#[test]
fn unparsable_numeric_field_falls_back() {
    let body = "### TTML 歌词文件下载直链\n\nhttps://e.com/a.ttml\n\n### 功能开关\n\n启用平滑优化，启用自动分词\n\n### [平滑] 平滑因子\n\nnot-a-number\n\n### [分词] 标点符号权重\n\n0.5\n";
    match extract_params(body) {
        Extraction::Ready(p) => {
            let sp = p.smoothing.expect("smoothing was requested");
            assert_eq!(sp.factor_micro, DEFAULT_FACTOR_MICRO);
            assert!(p.auto_split);
            assert_eq!(p.punctuation_weight_micro, 500000);
        }
        _ => panic!("URL present"),
    }
}

#[test]
fn weight_ignored_without_auto_split() {
    let body = "### TTML 歌词文件下载直链\n\nhttps://e.com/a.ttml\n\n### [分词] 标点符号权重\n\n0.5\n";
    match extract_params(body) {
        Extraction::Ready(p) => {
            assert!(!p.auto_split);
            assert_eq!(p.punctuation_weight_micro, DEFAULT_WEIGHT_MICRO);
        }
        _ => panic!("URL present"),
    }
}

#[test]
fn integer_parsing_is_exact() {
    assert_eq!(parse_u64(&chars("123")), Some(123));
    assert_eq!(parse_u64(&chars("0")), Some(0));
    assert_eq!(parse_u64(&chars("")), None);
    assert_eq!(parse_u64(&chars("12a")), None);
    assert_eq!(parse_u64(&chars("99999999999999999999")), None);
}

#[test]
fn decimal_parsing_is_exact() {
    assert_eq!(parse_micro(&chars("0.15")), Some(150_000));
    assert_eq!(parse_micro(&chars("0.3")), Some(300_000));
    assert_eq!(parse_micro(&chars("3")), Some(3_000_000));
    assert_eq!(parse_micro(&chars("1.2345678")), Some(1_234_567));
    assert_eq!(parse_micro(&chars("1e3")), None);
    assert_eq!(parse_micro(&chars("-1")), None);
    assert_eq!(parse_micro(&chars(".5")), None);
    assert_eq!(parse_micro(&chars("5.")), None);
}

#[test]
fn crlf_line_endings_are_handled() {
    let body = "### TTML 歌词文件下载直链\r\n\r\nhttps://e.com/a.ttml\r\n\r\n### 备注\r\n\r\n你好\r\n";
    match extract_params(body) {
        Extraction::Ready(p) => {
            assert_eq!(to_string(&p.url), "https://e.com/a.ttml");
            assert_eq!(to_string(&p.remarks), "你好");
        }
        Extraction::MissingUrl => panic!("a CRLF body must still yield its fields"),
    }
}
