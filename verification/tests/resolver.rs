use oeis_bot::error::{DecodeError, FetchError};
use oeis_bot::fetch::{
    rejected_keywords, resolve_entries, sample_step, SampleStep, MAX_SEQUENCE_ID,
};
use oeis_bot::keyword::Keyword;
use oeis_bot::mastodon::format_status;
use oeis_bot::oeis::OeisEntry;
use oeis_bot::term::parse_term;
use oeis_bot::text::{a_label, u64_to_string};

fn entry(number: u64, data: &str, keyword: &str, name: &str) -> OeisEntry {
    OeisEntry {
        number,
        id: None,
        data: String::from(data),
        name: String::from(name),
        comment: Vec::new(),
        reference: Vec::new(),
        link: Vec::new(),
        formula: Vec::new(),
        example: Vec::new(),
        maple: Vec::new(),
        mathematica: Vec::new(),
        program: Vec::new(),
        xref: Vec::new(),
        keyword: String::from(keyword),
        offset: String::from("1,1"),
        author: String::new(),
        ext: Vec::new(),
        references: 0,
        revision: 1,
        time: String::from("2024-01-01T00:00:00-04:00"),
        created: String::from("2014-01-01T00:00:00-04:00"),
    }
}

#[test]
fn empty_result_set_is_not_found() {
    match resolve_entries(123, Vec::new()) {
        Err(FetchError::NotFound(id)) => assert_eq!(id, 123),
        other => panic!("expected NotFound, got {other:?}"),
    }
}

#[test]
fn lookup_scenario_decodes_first_match() {
    let e = entry(250000, "1,1,2,3,5,8", "nonn,core", "Fibonacci-like");
    let q = resolve_entries(250000, vec![e]).unwrap();
    assert_eq!(q.number, 250000);
    assert_eq!(q.name, "Fibonacci-like");
    assert_eq!(
        q.data,
        vec![
            parse_term("1").unwrap(),
            parse_term("1").unwrap(),
            parse_term("2").unwrap(),
            parse_term("3").unwrap(),
            parse_term("5").unwrap(),
            parse_term("8").unwrap()
        ]
    );
    assert_eq!(q.keyword, vec![Keyword::Nonn, Keyword::Core]);
    assert_eq!(a_label(q.number), "A250000");
}

#[test]
fn only_first_match_is_used() {
    let first = entry(7, "1,2,4", "nonn", "first");
    let second = entry(8, "9,9", "nonn", "second");
    let q = resolve_entries(7, vec![first, second]).unwrap();
    assert_eq!(q.name, "first");
}

#[test]
fn decode_failure_surfaces_as_parse() {
    let e = entry(9, "1,oops", "nonn", "broken");
    match resolve_entries(9, vec![e]) {
        Err(FetchError::Parse(Some(DecodeError::InvalidTerm(w)))) => assert_eq!(w, "oops"),
        other => panic!("expected Parse, got {other:?}"),
    }
}

#[test]
fn sampling_accepts_clean_sequence() {
    let e = entry(42, "1,2,3", "nonn,core", "clean");
    let q = resolve_entries(42, vec![e]).unwrap();
    match sample_step(Ok(q), &rejected_keywords()) {
        SampleStep::Accept(q) => assert_eq!(q.number, 42),
        other => panic!("expected Accept, got {other:?}"),
    }
}

#[test]
fn sampling_rejects_excluded_keywords() {
    for kw in ["dead", "dumb", "dupe", "less", "obsc", "probation", "uned"] {
        let e = entry(42, "1,2,3", &format!("nonn,{kw}"), "tainted");
        let q = resolve_entries(42, vec![e]).unwrap();
        match sample_step(Ok(q), &rejected_keywords()) {
            SampleStep::Retry => {}
            other => panic!("expected Retry for {kw}, got {other:?}"),
        }
    }
}

#[test]
fn sampling_retries_not_found() {
    match sample_step(Err(FetchError::NotFound(5)), &rejected_keywords()) {
        SampleStep::Retry => {}
        other => panic!("expected Retry, got {other:?}"),
    }
}

#[test]
fn sampling_stops_on_fatal_errors() {
    let transport = FetchError::Transport(String::from("connection refused"));
    match sample_step(Err(transport.clone()), &rejected_keywords()) {
        SampleStep::Fail(e) => assert_eq!(e, transport),
        other => panic!("expected Fail, got {other:?}"),
    }
    let parse = FetchError::Parse(None);
    match sample_step(Err(parse.clone()), &rejected_keywords()) {
        SampleStep::Fail(e) => assert_eq!(e, parse),
        other => panic!("expected Fail, got {other:?}"),
    }
}

#[test]
fn custom_exclusion_set_is_honored() {
    let e = entry(42, "1,2,3", "nonn,core", "core is excluded here");
    let q = resolve_entries(42, vec![e]).unwrap();
    match sample_step(Ok(q), &vec![Keyword::Core]) {
        SampleStep::Retry => {}
        other => panic!("expected Retry, got {other:?}"),
    }
    let e = entry(42, "1,2,3", "dead", "nothing excluded here");
    let q = resolve_entries(42, vec![e]).unwrap();
    match sample_step(Ok(q), &Vec::new()) {
        SampleStep::Accept(_) => {}
        other => panic!("expected Accept, got {other:?}"),
    }
}

#[test]
fn error_messages() {
    assert_eq!(
        FetchError::NotFound(5).message(),
        "sequence A000005 not found"
    );
    assert_eq!(
        FetchError::Transport(String::from("timed out")).message(),
        "HTTP error: timed out"
    );
    assert_eq!(FetchError::Parse(None).message(), "JSON parse error");
}

#[test]
fn max_sequence_id_is_fixed() {
    assert_eq!(MAX_SEQUENCE_ID, 380_000);
}

#[test]
fn display_labels_are_zero_padded() {
    assert_eq!(a_label(5), "A000005");
    assert_eq!(a_label(250000), "A250000");
    assert_eq!(a_label(1234567), "A1234567");
    assert_eq!(u64_to_string(0), "0");
    assert_eq!(u64_to_string(380000), "380000");
}

#[test]
fn status_message_format() {
    let e = entry(45, "0,1,1,2,3", "nonn,core", "Fibonacci numbers");
    let q = resolve_entries(45, vec![e]).unwrap();
    assert_eq!(
        format_status(&q),
        "OEIS sequence A000045\nFibonacci numbers\n\n0, 1, 1, 2, 3\n\nhttps://oeis.org/A45"
    );
}
