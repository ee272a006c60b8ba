//! Tests for argument marshaling of extraction calls, the filter taxonomy,
//! and error translation.

use snips_nlu_ontology_ffi::errors::{status_of, OntologyError};
use snips_nlu_ontology_ffi::extraction::{extract_request, BuiltinEntityRecord};
use snips_nlu_ontology_ffi::kinds::BuiltinEntityKind;
use snips_nlu_ontology_ffi::lang::Language;
use snips_nlu_ontology_ffi::registry::ParserRegistry;

fn filters(names: &[&str]) -> Vec<Vec<u8>> {
    names.iter().map(|n| n.as_bytes().to_vec()).collect()
}

#[test]
fn malformed_sentence_fails_with_invalid_text() {
    let mut reg = ParserRegistry::new();
    let h = reg.create("en".as_bytes()).unwrap();
    let bad: Vec<u8> = vec![0x68, 0x69, 0xc0];
    let r = extract_request(&reg, h, bad.as_slice(), None);
    match r {
        Err(OntologyError::InvalidText(ctx)) => assert_eq!(ctx, "sentence"),
        _ => panic!("expected an invalid-text failure"),
    }
}

#[test]
fn bogus_filter_name_fails_naming_exactly_that_value() {
    let mut reg = ParserRegistry::new();
    let h = reg.create("en".as_bytes()).unwrap();
    let fs = filters(&["snips/number", "snips/totally_bogus_kind", "snips/datetime"]);
    let r = extract_request(&reg, h, "meet at 5".as_bytes(), Some(&fs));
    match r {
        Err(OntologyError::UnknownEntityKind(name)) => {
            assert_eq!(name, "snips/totally_bogus_kind");
        },
        _ => panic!("expected an unknown-entity-kind failure"),
    }
}

#[test]
fn single_bogus_filter_scenario_reports_failure_status() {
    let mut reg = ParserRegistry::new();
    let h = reg.create("en".as_bytes()).unwrap();
    let fs = filters(&["snips/totally_bogus_kind"]);
    let r = extract_request(&reg, h, "meet at 5".as_bytes(), Some(&fs));
    assert_eq!(status_of(&r).code(), 1);
    match r {
        Err(OntologyError::UnknownEntityKind(name)) => {
            assert_eq!(name, "snips/totally_bogus_kind");
            assert_eq!(
                OntologyError::UnknownEntityKind(name).message(),
                "`snips/totally_bogus_kind` isn't a known builtin entity kind"
            );
        },
        _ => panic!("expected an unknown-entity-kind failure"),
    }
}

#[test]
fn malformed_filter_element_fails_with_invalid_text() {
    let mut reg = ParserRegistry::new();
    let h = reg.create("en".as_bytes()).unwrap();
    let fs: Vec<Vec<u8>> = vec!["snips/number".as_bytes().to_vec(), vec![0xff]];
    let r = extract_request(&reg, h, "meet at 5".as_bytes(), Some(&fs));
    match r {
        Err(OntologyError::InvalidText(ctx)) => assert_eq!(ctx, "entity kind filter"),
        _ => panic!("expected an invalid-text failure"),
    }
}

#[test]
fn valid_request_is_decoded_in_full() {
    let mut reg = ParserRegistry::new();
    let h = reg.create("en".as_bytes()).unwrap();
    let fs = filters(&["snips/datetime", "snips/number"]);
    let r = extract_request(&reg, h, "meet at 5".as_bytes(), Some(&fs)).unwrap();
    assert_eq!(r.language, Language::En);
    assert_eq!(r.sentence, "meet at 5");
    assert_eq!(r.filters, Some(vec![BuiltinEntityKind::Time, BuiltinEntityKind::Number]));
}

#[test]
fn absent_filters_mean_no_filtering() {
    let mut reg = ParserRegistry::new();
    let h = reg.create("en".as_bytes()).unwrap();
    let r = extract_request(&reg, h, "meet at 5".as_bytes(), None).unwrap();
    assert_eq!(r.filters, None);
}

#[test]
fn full_taxonomy_filter_list_resolves_to_every_kind() {
    let mut reg = ParserRegistry::new();
    let h = reg.create("en".as_bytes()).unwrap();
    let all = BuiltinEntityKind::all();
    let fs: Vec<Vec<u8>> = all.iter().map(|k| k.identifier().as_bytes().to_vec()).collect();
    let r = extract_request(&reg, h, "meet at 5".as_bytes(), Some(&fs)).unwrap();
    assert_eq!(r.filters, Some(all));
}

#[test]
fn identical_calls_yield_identical_outcomes() {
    let mut reg = ParserRegistry::new();
    let h = reg.create("en".as_bytes()).unwrap();
    let fs = filters(&["snips/ordinal", "snips/percentage"]);
    let a = extract_request(&reg, h, "the third time".as_bytes(), Some(&fs)).unwrap();
    let b = extract_request(&reg, h, "the third time".as_bytes(), Some(&fs)).unwrap();
    assert_eq!(a.language, b.language);
    assert_eq!(a.sentence, b.sentence);
    assert_eq!(a.filters, b.filters);
}

#[test]
fn scenario_live_handle_accepts_extraction_then_destroys() {
    let mut reg = ParserRegistry::new();
    let r = reg.create("en".as_bytes());
    assert_eq!(status_of(&r).code(), 0);
    let h = r.unwrap();
    let req = extract_request(&reg, h, "I'll meet you at 3pm tomorrow".as_bytes(), None).unwrap();
    assert_eq!(req.language, Language::En);
    assert_eq!(req.sentence, "I'll meet you at 3pm tomorrow");
    assert_eq!(reg.destroy(h).code(), 0);
}

#[test]
fn empty_sentence_and_empty_filter_list_are_accepted() {
    let mut reg = ParserRegistry::new();
    let h = reg.create("en".as_bytes()).unwrap();
    let fs: Vec<Vec<u8>> = Vec::new();
    let r = extract_request(&reg, h, "".as_bytes(), Some(&fs)).unwrap();
    assert_eq!(r.sentence, "");
    assert_eq!(r.filters, Some(Vec::new()));
}

#[test]
fn empty_language_code_is_unknown() {
    let mut reg = ParserRegistry::new();
    match reg.create("".as_bytes()) {
        Err(OntologyError::UnknownLanguage(code)) => assert_eq!(code, ""),
        _ => panic!("expected an unknown-language failure"),
    }
}

#[test]
fn every_kind_identifier_round_trips() {
    for k in BuiltinEntityKind::all() {
        assert_eq!(BuiltinEntityKind::from_identifier(k.identifier()), Some(k));
    }
}

#[test]
fn every_language_code_round_trips() {
    for l in Language::all() {
        assert_eq!(Language::from_code(l.code()), Some(l));
    }
}

#[test]
fn error_messages_are_exact() {
    let e1 = OntologyError::InvalidText(String::from("sentence"));
    assert_eq!(e1.message(), "malformed UTF-8 bytes in sentence");
    let e2 = OntologyError::UnknownLanguage(String::from("xx"));
    assert_eq!(e2.message(), "`xx` isn't a known language");
    let e3 = OntologyError::UnknownEntityKind(String::from("snips/foo"));
    assert_eq!(e3.message(), "`snips/foo` isn't a known builtin entity kind");
    let e4 = OntologyError::UnderlyingExtractionFailure(String::from("engine gave up"));
    assert_eq!(e4.message(), "extraction failed: engine gave up");
}

#[test]
fn record_carries_kind_span_and_text() {
    let rec = BuiltinEntityRecord {
        kind: BuiltinEntityKind::Time,
        range_start: 18,
        range_end: 29,
        value: String::from("3pm tomorrow"),
    };
    assert_eq!(rec.kind.identifier(), "snips/datetime");
    assert_eq!(rec.range_start, 18);
    assert_eq!(rec.range_end, 29);
    assert_eq!(rec.value, "3pm tomorrow");
}
