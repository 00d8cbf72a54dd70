//! Extraction of submission parameters from an issue body: the document
//! URL, the remarks, the timing mode, the feature toggles and the numeric
//! sub-parameters with their documented defaults.

use vstd::prelude::*;
use crate::fields::{field_opt_is, field_value, body_lines};
use crate::numbers::{
    all_digits, decimal_micro, digits_value, is_plain_decimal, parse_micro, parse_u64,
};
use crate::text::{chars_of, contains_chars, contains_seq, deep_of, eq_chars, spec_lines};

verus! {

/// The label of the required document download URL field.
pub open spec fn url_label() -> Seq<char> {
    "TTML 歌词文件下载直链"@
}

/// The label of the free-text remarks field.
pub open spec fn remarks_label() -> Seq<char> {
    "备注"@
}

/// The label of the lyric options field.
pub open spec fn options_label() -> Seq<char> {
    "歌词选项"@
}

/// The phrase in the lyric options field that selects line timing.
pub open spec fn line_mode_marker() -> Seq<char> {
    "这是逐行歌词"@
}

/// The label of the feature switches field.
pub open spec fn toggles_label() -> Seq<char> {
    "功能开关"@
}

/// The phrase in the feature switches field that turns smoothing on.
pub open spec fn smoothing_marker() -> Seq<char> {
    "启用平滑优化"@
}

/// The phrase in the feature switches field that turns auto-splitting on.
pub open spec fn auto_split_marker() -> Seq<char> {
    "启用自动分词"@
}

/// The label of the smoothing factor field.
pub open spec fn factor_label() -> Seq<char> {
    "[平滑] 平滑因子"@
}

/// The label of the grouping duration-difference threshold field.
pub open spec fn duration_label() -> Seq<char> {
    "[平滑] 分组时长差异阈值 (毫秒)"@
}

/// The label of the grouping gap threshold field.
pub open spec fn gap_label() -> Seq<char> {
    "[平滑] 分组间隔阈值 (毫秒)"@
}

/// The label of the smoothing iteration count field.
pub open spec fn iterations_label() -> Seq<char> {
    "[平滑] 迭代次数"@
}

/// The label of the punctuation weight field.
pub open spec fn weight_label() -> Seq<char> {
    "[分词] 标点符号权重"@
}

/// The placeholder the tracker writes for a field left unanswered.
pub open spec fn no_response() -> Seq<char> {
    "_No response_"@
}

/// Default smoothing factor, in micro-units: 0.15.
pub const DEFAULT_FACTOR_MICRO: u64 = 150000;

/// Default duration-difference threshold in milliseconds.
pub const DEFAULT_DURATION_MS: u64 = 50;

/// Default gap threshold in milliseconds.
pub const DEFAULT_GAP_MS: u64 = 100;

/// Default smoothing iteration count.
pub const DEFAULT_ITERATIONS: u32 = 5;

/// Default punctuation weight, in micro-units: 0.3.
pub const DEFAULT_WEIGHT_MICRO: u64 = 300000;

/// How a document is timed: by whole lines or by single words.
#[derive(Debug, Clone, Copy, PartialEq, Eq, Structural)]
pub enum TimingMode {
    Word,
    Line,
}

/// The resolved smoothing sub-parameters. Decimal values are in micro-units
/// (the value scaled by one million).
#[derive(Debug, Clone, Copy, PartialEq, Eq, Structural)]
pub struct SmoothingParams {
    pub factor_micro: u64,
    pub duration_threshold_ms: u64,
    pub gap_threshold_ms: u64,
    pub smoothing_iterations: u32,
}

/// Everything extracted from an actionable issue body.
#[derive(Debug, Clone)]
pub struct SubmissionParams {
    pub url: Vec<char>,
    pub remarks: Vec<char>,
    pub timing_mode: TimingMode,
    pub smoothing: Option<SmoothingParams>,
    pub auto_split: bool,
    pub punctuation_weight_micro: u64,
}

/// Extraction outcome: the body either yields a usable URL or is declined.
pub enum Extraction {
    MissingUrl,
    Ready(SubmissionParams),
}

/// A field value counts as absent when it is missing, empty, or the
/// tracker's placeholder.
pub open spec fn absent(ov: Option<Seq<char>>) -> bool {
    match ov {
        None => true,
        Some(s) => s.len() == 0 || s == no_response(),
    }
}

/// The resolved integer value of an optional field: absent or unparsable
/// text falls back to the default.
pub open spec fn spec_resolve_u64(ov: Option<Seq<char>>, default: u64) -> u64 {
    if absent(ov) {
        default
    } else {
        let s = ov.unwrap();
        if all_digits(s) && digits_value(s) <= u64::MAX {
            digits_value(s) as u64
        } else {
            default
        }
    }
}

/// As `spec_resolve_u64`, bounded to `u32`.
pub open spec fn spec_resolve_u32(ov: Option<Seq<char>>, default: u32) -> u32 {
    if absent(ov) {
        default
    } else {
        let s = ov.unwrap();
        if all_digits(s) && digits_value(s) <= u32::MAX {
            digits_value(s) as u32
        } else {
            default
        }
    }
}

/// The resolved decimal value of an optional field, in micro-units: absent
/// or unparsable text falls back to the default.
pub open spec fn spec_resolve_micro(ov: Option<Seq<char>>, default: u64) -> u64 {
    if absent(ov) {
        default
    } else {
        let s = ov.unwrap();
        if is_plain_decimal(s) && decimal_micro(s) <= u64::MAX {
            decimal_micro(s) as u64
        } else {
            default
        }
    }
}

/// Is the optional field value absent (missing, empty, or the placeholder)?
pub fn absent_value(ov: &Option<Vec<char>>) -> (r: bool)
    ensures
        r == absent(view_opt(*ov)),
{
    match ov {
        None => true,
        Some(v) => {
            if v.len() == 0 {
                return true;
            }
            let ph = chars_of("_No response_");
            eq_chars(v, &ph)
        },
    }
}

/// The view of an optional character vector.
pub open spec fn view_opt(ov: Option<Vec<char>>) -> Option<Seq<char>> {
    match ov {
        Some(v) => Some(v@),
        None => None,
    }
}

/// Resolve an integer field: absent, empty, placeholder or unparsable text
/// gives the default, never an error.
pub fn resolve_u64(ov: &Option<Vec<char>>, default: u64) -> (r: u64)
    ensures
        r == spec_resolve_u64(view_opt(*ov), default),
        absent(view_opt(*ov)) ==> r == default,
{
    if absent_value(ov) {
        return default;
    }
    match ov {
        None => default,
        Some(v) => {
            match parse_u64(v) {
                Some(n) => n,
                None => default,
            }
        },
    }
}

/// Resolve a `u32` field the same way.
pub fn resolve_u32(ov: &Option<Vec<char>>, default: u32) -> (r: u32)
    ensures
        r == spec_resolve_u32(view_opt(*ov), default),
        absent(view_opt(*ov)) ==> r == default,
{
    if absent_value(ov) {
        return default;
    }
    match ov {
        None => default,
        Some(v) => {
            match parse_u64(v) {
                Some(n) => {
                    if n <= u32::MAX as u64 {
                        n as u32
                    } else {
                        default
                    }
                },
                None => default,
            }
        },
    }
}

/// Resolve a decimal field into micro-units the same way.
pub fn resolve_micro(ov: &Option<Vec<char>>, default: u64) -> (r: u64)
    ensures
        r == spec_resolve_micro(view_opt(*ov), default),
        absent(view_opt(*ov)) ==> r == default,
{
    if absent_value(ov) {
        return default;
    }
    match ov {
        None => default,
        Some(v) => {
            match parse_micro(v) {
                Some(n) => n,
                None => default,
            }
        },
    }
}

/// The field's value holds the marker phrase.
pub open spec fn field_has_marker(
    lines: Seq<Seq<char>>,
    label: Seq<char>,
    marker: Seq<char>,
) -> bool {
    exists|v: Seq<char>| #[trigger]
        crate::fields::field_value_is(lines, label, v) && contains_seq(v, marker)
}

/// Look a field up and test it for a marker phrase.
fn marker_in_field(lines: &Vec<Vec<char>>, label: &str, marker: &str) -> (r: bool)
    ensures
        r == field_has_marker(deep_of(lines@), label@, marker@),
{
    let lab = chars_of(label);
    let mark = chars_of(marker);
    match field_value(lines, &lab) {
        Some(v) => {
            let c = contains_chars(&v, &mark);
            proof {
                if c {
                    assert(field_has_marker(deep_of(lines@), label@, marker@));
                } else {
                    assert(!field_has_marker(deep_of(lines@), label@, marker@)) by {
                        if field_has_marker(deep_of(lines@), label@, marker@) {
                            let w = choose|w: Seq<char>| #[trigger]
                                crate::fields::field_value_is(deep_of(lines@), label@, w)
                                    && contains_seq(w, marker@);
                            crate::fields::lemma_field_value_unique(
                                deep_of(lines@),
                                label@,
                                v@,
                                w,
                            );
                        }
                    }
                }
            }
            c
        },
        None => {
            proof {
                assert(!field_has_marker(deep_of(lines@), label@, marker@)) by {
                    if field_has_marker(deep_of(lines@), label@, marker@) {
                        let w = choose|w: Seq<char>| #[trigger]
                            crate::fields::field_value_is(deep_of(lines@), label@, w)
                                && contains_seq(w, marker@);
                        assert(crate::fields::has_field(deep_of(lines@), label@));
                    }
                }
            }
            false
        },
    }
}

/// Extract the submission parameters from an issue body.
///
/// The outcome is `MissingUrl` exactly when the URL field is missing, empty
/// or the placeholder; otherwise every parameter is resolved: the timing
/// mode is `Line` exactly when the lyric options field holds the line-mode
/// phrase, the toggles come from the feature switches field, and each
/// numeric sub-parameter falls back to its default when absent or
/// unparsable.
pub fn extract_params(body: &str) -> (r: Extraction)
    ensures
        ({
            let lines = spec_lines(body@);
            match r {
                Extraction::MissingUrl => (forall|v: Seq<char>| #[trigger]
                    crate::fields::field_value_is(lines, url_label(), v) ==> absent(Some(v)))
                    || !crate::fields::has_field(lines, url_label()),
                Extraction::Ready(p) => {
                    &&& crate::fields::field_value_is(lines, url_label(), p.url@)
                    &&& !absent(Some(p.url@))
                    &&& (exists|ov: Option<Seq<char>>|
                        field_opt_is(lines, remarks_label(), ov) && p.remarks@ == match ov {
                            Some(v) => v,
                            None => Seq::<char>::empty(),
                        })
                    &&& p.timing_mode == (if field_has_marker(
                        lines,
                        options_label(),
                        line_mode_marker(),
                    ) {
                        TimingMode::Line
                    } else {
                        TimingMode::Word
                    })
                    &&& (p.smoothing is Some) == field_has_marker(
                        lines,
                        toggles_label(),
                        smoothing_marker(),
                    )
                    &&& p.auto_split == field_has_marker(
                        lines,
                        toggles_label(),
                        auto_split_marker(),
                    )
                    &&& (match p.smoothing {
                        Some(sp) => {
                            &&& (exists|ov: Option<Seq<char>>| #[trigger]
                                field_opt_is(lines, factor_label(), ov) && sp.factor_micro
                                    == spec_resolve_micro(ov, DEFAULT_FACTOR_MICRO))
                            &&& (exists|ov: Option<Seq<char>>| #[trigger]
                                field_opt_is(lines, duration_label(), ov)
                                    && sp.duration_threshold_ms == spec_resolve_u64(
                                    ov,
                                    DEFAULT_DURATION_MS,
                                ))
                            &&& (exists|ov: Option<Seq<char>>| #[trigger]
                                field_opt_is(lines, gap_label(), ov) && sp.gap_threshold_ms
                                    == spec_resolve_u64(ov, DEFAULT_GAP_MS))
                            &&& (exists|ov: Option<Seq<char>>| #[trigger]
                                field_opt_is(lines, iterations_label(), ov)
                                    && sp.smoothing_iterations == spec_resolve_u32(
                                    ov,
                                    DEFAULT_ITERATIONS,
                                ))
                        },
                        None => true,
                    })
                    &&& (if p.auto_split {
                        exists|ov: Option<Seq<char>>| #[trigger]
                            field_opt_is(lines, weight_label(), ov) && p.punctuation_weight_micro
                                == spec_resolve_micro(ov, DEFAULT_WEIGHT_MICRO)
                    } else {
                        p.punctuation_weight_micro == DEFAULT_WEIGHT_MICRO
                    })
                },
            }
        }),
{
    let lines = body_lines(body);
    let url_lab = chars_of("TTML 歌词文件下载直链");
    let url_field = field_value(&lines, &url_lab);
    if absent_value(&url_field) {
        proof {
            match url_field {
                Some(v) => {
                    assert(forall|w: Seq<char>| #[trigger]
                        crate::fields::field_value_is(spec_lines(body@), url_label(), w) ==> absent(
                            Some(w),
                        )) by {
                        assert forall|w: Seq<char>| #[trigger]
                            crate::fields::field_value_is(
                                spec_lines(body@),
                                url_label(),
                                w,
                            ) implies absent(Some(w)) by {
                            crate::fields::lemma_field_value_unique(
                                spec_lines(body@),
                                url_label(),
                                v@,
                                w,
                            );
                        }
                    }
                },
                None => {},
            }
        }
        return Extraction::MissingUrl;
    }
    let url = match url_field {
        Some(v) => v,
        None => {
            // absent_value returned false, so the field is present
            proof {
                assert(false);
            }
            Vec::new()
        },
    };
    let remarks_lab = chars_of("备注");
    let remarks_field = field_value(&lines, &remarks_lab);
    let ghost remarks_ov = view_opt(remarks_field);
    let remarks = match remarks_field {
        Some(v) => v,
        None => Vec::new(),
    };
    proof {
        assert(crate::fields::field_opt_is(spec_lines(body@), remarks_label(), remarks_ov)
            && remarks@ == match remarks_ov {
            Some(v) => v,
            None => Seq::<char>::empty(),
        });
    }
    let timing_mode = if marker_in_field(&lines, "歌词选项", "这是逐行歌词") {
        TimingMode::Line
    } else {
        TimingMode::Word
    };
    let enable_smoothing = marker_in_field(&lines, "功能开关", "启用平滑优化");
    let auto_split = marker_in_field(&lines, "功能开关", "启用自动分词");
    let smoothing = if enable_smoothing {
        let factor_lab = chars_of("[平滑] 平滑因子");
        let duration_lab = chars_of("[平滑] 分组时长差异阈值 (毫秒)");
        let gap_lab = chars_of("[平滑] 分组间隔阈值 (毫秒)");
        let iter_lab = chars_of("[平滑] 迭代次数");
        let factor_field = field_value(&lines, &factor_lab);
        let duration_field = field_value(&lines, &duration_lab);
        let gap_field = field_value(&lines, &gap_lab);
        let iter_field = field_value(&lines, &iter_lab);
        let sp = SmoothingParams {
            factor_micro: resolve_micro(&factor_field, DEFAULT_FACTOR_MICRO),
            duration_threshold_ms: resolve_u64(&duration_field, DEFAULT_DURATION_MS),
            gap_threshold_ms: resolve_u64(&gap_field, DEFAULT_GAP_MS),
            smoothing_iterations: resolve_u32(&iter_field, DEFAULT_ITERATIONS),
        };
        proof {
            let lines_v = spec_lines(body@);
            assert(crate::fields::field_opt_is(lines_v, factor_label(), view_opt(factor_field))
                && sp.factor_micro == spec_resolve_micro(
                view_opt(factor_field),
                DEFAULT_FACTOR_MICRO,
            ));
            assert(crate::fields::field_opt_is(lines_v, duration_label(), view_opt(duration_field))
                && sp.duration_threshold_ms == spec_resolve_u64(
                view_opt(duration_field),
                DEFAULT_DURATION_MS,
            ));
            assert(crate::fields::field_opt_is(lines_v, gap_label(), view_opt(gap_field))
                && sp.gap_threshold_ms == spec_resolve_u64(view_opt(gap_field), DEFAULT_GAP_MS));
            assert(crate::fields::field_opt_is(lines_v, iterations_label(), view_opt(iter_field))
                && sp.smoothing_iterations == spec_resolve_u32(
                view_opt(iter_field),
                DEFAULT_ITERATIONS,
            ));
        }
        Some(sp)
    } else {
        None
    };
    let punctuation_weight_micro = if auto_split {
        let weight_lab = chars_of("[分词] 标点符号权重");
        let weight_field = field_value(&lines, &weight_lab);
        let w = resolve_micro(&weight_field, DEFAULT_WEIGHT_MICRO);
        proof {
            assert(crate::fields::field_opt_is(
                spec_lines(body@),
                weight_label(),
                view_opt(weight_field),
            ) && w == spec_resolve_micro(view_opt(weight_field), DEFAULT_WEIGHT_MICRO));
        }
        w
    } else {
        DEFAULT_WEIGHT_MICRO
    };
    Extraction::Ready(
        SubmissionParams {
            url,
            remarks,
            timing_mode,
            smoothing,
            auto_split,
            punctuation_weight_micro,
        },
    )
}

} // verus!
