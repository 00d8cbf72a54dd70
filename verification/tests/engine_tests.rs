use lyric_checker::engine::{
    assemble_document, generate_both, parse_document, unkeyed_lines, within_engine_limits,
};

const SAMPLE: &str = r#"<tt xmlns="http://www.w3.org/ns/ttml" itunes:timing="word">
  <body>
    <div>
      <p begin="7.0s" end="10.0s">
        <span begin="7.1s" end="7.5s">Second</span>
      </p>
      <p begin="5.0s" end="6.0s">
        <span begin="5.1s" end="5.5s">First</span>
      </p>
    </div>
  </body>
</tt>"#;

#[test]
fn parsing_yields_lines() {
    let parts = parse_document(SAMPLE).expect("the sample parses");
    assert_eq!(parts.lines.len(), 2);
}

#[test]
fn assembly_orders_lines_by_start_time() {
    let parts = parse_document(SAMPLE).expect("the sample parses");
    let prepared = assemble_document(parts);
    let keys: Vec<u64> = prepared.pairs.iter().map(|p| p.0).collect();
    assert_eq!(keys, vec![5000, 7000]);
    let lines = unkeyed_lines(prepared.pairs);
    assert_eq!(lines[0].start_ms, 5000);
    assert_eq!(lines[1].start_ms, 7000);
}

#[test]
fn generation_is_deterministic() {
    let parts = parse_document(SAMPLE).expect("the sample parses");
    let prepared = assemble_document(parts);
    let lines = unkeyed_lines(prepared.pairs);
    let first = generate_both(&lines, &prepared.store, &prepared.agents, false)
        .expect("generation succeeds");
    let second = generate_both(&lines, &prepared.store, &prepared.agents, false)
        .expect("generation succeeds");
    assert_eq!(first.0, second.0);
    assert_eq!(first.1, second.1);
    assert_ne!(first.0, first.1);
}

#[test]
fn parse_failure_reports_an_error() {
    let r = parse_document("not a ttml document at all <<<");
    assert!(r.is_err());
}

#[test]
fn engine_limits_admit_ordinary_documents() {
    assert!(within_engine_limits(SAMPLE));
    assert!(within_engine_limits("begin=\"123456789012.0s\""));
}

#[test]
fn engine_limits_reject_overlong_numbers() {
    assert!(!within_engine_limits("<p begin=\"9999999999999999999s\" end=\"10s\"/>"));
    assert!(!within_engine_limits("1234567890123"));
}
