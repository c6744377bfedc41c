use oeis_bot::error::DecodeError;
use oeis_bot::keyword::Keyword;
use oeis_bot::oeis::{parse_data, parse_keywords, OeisEntry, OeisSequence};
use oeis_bot::term::{join_terms, parse_term, Term};

fn term(s: &str) -> Term {
    parse_term(s).unwrap()
}

fn entry() -> OeisEntry {
    OeisEntry {
        number: 45,
        id: None,
        data: String::from("0,1,1,2,3,5,8,13"),
        name: String::from("Fibonacci numbers"),
        comment: Vec::new(),
        reference: Vec::new(),
        link: Vec::new(),
        formula: Vec::new(),
        example: Vec::new(),
        maple: Vec::new(),
        mathematica: Vec::new(),
        program: Vec::new(),
        xref: Vec::new(),
        keyword: String::from("core,nonn,nice,easy"),
        offset: String::from("0,4"),
        author: String::from("_N. J. A. Sloane_"),
        ext: Vec::new(),
        references: 100,
        revision: 10,
        time: String::from("2024-01-01T00:00:00-04:00"),
        created: String::from("1991-04-30T03:00:00-04:00"),
    }
}

#[test]
fn keyword_round_trip_over_vocabulary() {
    let all = [
        Keyword::Base,
        Keyword::Bref,
        Keyword::Changed,
        Keyword::Cofr,
        Keyword::Cons,
        Keyword::Core,
        Keyword::Dead,
        Keyword::Dumb,
        Keyword::Dupe,
        Keyword::Easy,
        Keyword::Eigen,
        Keyword::Fini,
        Keyword::Frac,
        Keyword::Full,
        Keyword::Hard,
        Keyword::Hear,
        Keyword::Less,
        Keyword::Look,
        Keyword::More,
        Keyword::Mult,
        Keyword::New,
        Keyword::Nice,
        Keyword::Nonn,
        Keyword::Obsc,
        Keyword::Probation,
        Keyword::Sign,
        Keyword::Tabf,
        Keyword::Tabl,
        Keyword::Uned,
        Keyword::Unkn,
        Keyword::Walk,
        Keyword::Word,
    ];
    assert_eq!(all.len(), 32);
    for k in all {
        assert_eq!(Keyword::from_str(k.as_str()).unwrap(), k);
    }
}

#[test]
fn keyword_exact_match_only() {
    assert_eq!(Keyword::from_str("core").unwrap(), Keyword::Core);
    assert!(Keyword::from_str("Core").is_err());
    assert!(Keyword::from_str(" core").is_err());
    assert!(Keyword::from_str("core ").is_err());
    assert_eq!(Keyword::from_str("bogus").unwrap_err().0, "bogus");
}

#[test]
fn term_parsing_values() {
    assert_eq!(term("0"), term("-0"));
    assert_eq!(term("7"), term("007"));
    assert_eq!(term("+7"), term("7"));
    assert_ne!(term("7"), term("-7"));
    assert!(parse_term("").is_err());
    assert!(parse_term("-").is_err());
    assert!(parse_term("+").is_err());
    assert!(parse_term("12a").is_err());
    assert!(parse_term(" 1").is_err());
}

#[test]
fn term_rendering() {
    assert_eq!(term("0").to_decimal_string(), "0");
    assert_eq!(term("-0").to_decimal_string(), "0");
    assert_eq!(term("0042").to_decimal_string(), "42");
    assert_eq!(term("-17").to_decimal_string(), "-17");
    assert_eq!(
        term("123456789012345678901234567890").to_decimal_string(),
        "123456789012345678901234567890"
    );
}

#[test]
fn data_round_trip_exact() {
    let terms = vec![
        term("0"),
        term("1"),
        term("-1"),
        term("123456789012345678901234567890"),
        term("-98765432109876543210987654321098765432"),
    ];
    let encoded = join_terms(&terms, ",");
    assert_eq!(
        encoded,
        "0,1,-1,123456789012345678901234567890,-98765432109876543210987654321098765432"
    );
    let decoded = parse_data(&encoded).unwrap();
    assert_eq!(decoded, terms);
}

#[test]
fn data_round_trip_empty() {
    let terms: Vec<Term> = Vec::new();
    let encoded = join_terms(&terms, ",");
    assert_eq!(encoded, "");
    let decoded = parse_data(&encoded).unwrap();
    assert_eq!(decoded, terms);
}

#[test]
fn data_trailing_comma_segments_dropped() {
    let decoded = parse_data("1,2,").unwrap();
    assert_eq!(decoded, vec![term("1"), term("2")]);
    let decoded = parse_data(",5,,6").unwrap();
    assert_eq!(decoded, vec![term("5"), term("6")]);
}

#[test]
fn data_invalid_token_is_fatal() {
    match parse_data("1,2,x,4") {
        Err(DecodeError::InvalidTerm(w)) => assert_eq!(w, "x"),
        other => panic!("expected InvalidTerm, got {other:?}"),
    }
}

#[test]
fn keywords_parse_in_order_with_duplicates() {
    let ks = parse_keywords("nonn,core,nonn").unwrap();
    assert_eq!(ks, vec![Keyword::Nonn, Keyword::Core, Keyword::Nonn]);
    let ks = parse_keywords("").unwrap();
    assert_eq!(ks, Vec::new());
}

#[test]
fn unknown_keyword_is_fatal() {
    match parse_keywords("nonn,bogus,core") {
        Err(DecodeError::UnknownKeyword(w)) => assert_eq!(w, "bogus"),
        other => panic!("expected UnknownKeyword, got {other:?}"),
    }
}

#[test]
fn decode_entry_fields() {
    let e = entry();
    let q = OeisSequence::from_entry(e).unwrap();
    assert_eq!(q.number, 45);
    assert_eq!(q.id, None);
    assert_eq!(
        q.data,
        vec![
            term("0"),
            term("1"),
            term("1"),
            term("2"),
            term("3"),
            term("5"),
            term("8"),
            term("13")
        ]
    );
    assert_eq!(q.name, "Fibonacci numbers");
    assert_eq!(
        q.keyword,
        vec![Keyword::Core, Keyword::Nonn, Keyword::Nice, Keyword::Easy]
    );
    assert_eq!(q.offset, "0,4");
    assert_eq!(q.author, "_N. J. A. Sloane_");
    assert_eq!(q.references, 100);
    assert_eq!(q.revision, 10);
    assert_eq!(q.time, "2024-01-01T00:00:00-04:00");
    assert_eq!(q.created, "1991-04-30T03:00:00-04:00");
}

#[test]
fn decode_joins_comment_lines() {
    let mut e = entry();
    e.comment = Vec::new();
    let q = OeisSequence::from_entry(e).unwrap();
    assert_eq!(q.comment, "");

    let mut e = entry();
    e.comment = vec![String::from("a"), String::from("b")];
    let q = OeisSequence::from_entry(e).unwrap();
    assert_eq!(q.comment, "a\nb");
}

#[test]
fn decode_joins_all_prose_sections() {
    let mut e = entry();
    e.reference = vec![String::from("r1"), String::from("r2"), String::from("r3")];
    e.link = vec![String::from("l")];
    e.formula = vec![String::from("f1"), String::from("f2")];
    e.example = vec![String::from("ex")];
    e.maple = vec![String::from("m1"), String::from("m2")];
    e.mathematica = vec![String::from("mm")];
    e.program = vec![String::from("p")];
    e.xref = vec![String::from("x1"), String::from("x2")];
    e.ext = vec![String::from("e1"), String::from("e2")];
    let q = OeisSequence::from_entry(e).unwrap();
    assert_eq!(q.reference, "r1\nr2\nr3");
    assert_eq!(q.link, "l");
    assert_eq!(q.formula, "f1\nf2");
    assert_eq!(q.example, "ex");
    assert_eq!(q.maple, "m1\nm2");
    assert_eq!(q.mathematica, "mm");
    assert_eq!(q.program, "p");
    assert_eq!(q.xref, "x1\nx2");
    assert_eq!(q.ext, "e1\ne2");
}

#[test]
fn decode_keeps_optional_id() {
    let mut e = entry();
    e.id = Some(String::from("M0692 N0256"));
    let q = OeisSequence::from_entry(e).unwrap();
    assert_eq!(q.id, Some(String::from("M0692 N0256")));
}

#[test]
fn decode_is_all_or_nothing() {
    let mut e = entry();
    e.data = String::from("1,2,x,4");
    match OeisSequence::from_entry(e) {
        Err(DecodeError::InvalidTerm(w)) => assert_eq!(w, "x"),
        other => panic!("expected InvalidTerm, got {other:?}"),
    }

    let mut e = entry();
    e.keyword = String::from("nonn,unheard");
    match OeisSequence::from_entry(e) {
        Err(DecodeError::UnknownKeyword(w)) => assert_eq!(w, "unheard"),
        other => panic!("expected UnknownKeyword, got {other:?}"),
    }

    // an invalid term is reported before an unknown keyword
    let mut e = entry();
    e.data = String::from("3,zz");
    e.keyword = String::from("bogus");
    match OeisSequence::from_entry(e) {
        Err(DecodeError::InvalidTerm(w)) => assert_eq!(w, "zz"),
        other => panic!("expected InvalidTerm, got {other:?}"),
    }
}
