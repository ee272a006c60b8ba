//! Tests for handle creation, destruction, and the share-count protocol.

use snips_nlu_ontology_ffi::errors::{status_of, OntologyError, Status};
use snips_nlu_ontology_ffi::lang::Language;
use snips_nlu_ontology_ffi::lifecycle::{transition, HandleOp, HandleState};
use snips_nlu_ontology_ffi::registry::ParserRegistry;

#[test]
fn create_succeeds_for_every_supported_language() {
    let mut reg = ParserRegistry::new();
    for lang in Language::all() {
        let r = reg.create(lang.code().as_bytes());
        assert!(r.is_ok());
        assert_eq!(status_of(&r).code(), 0);
    }
}

#[test]
fn create_fails_with_unknown_language_for_unsupported_code() {
    let mut reg = ParserRegistry::new();
    let r = reg.create("xx".as_bytes());
    match r {
        Err(OntologyError::UnknownLanguage(ref code)) => {
            assert_eq!(code, "xx");
        },
        _ => panic!("expected an unknown-language failure"),
    }
    assert_eq!(status_of(&r).code(), 1);
}

#[test]
fn create_fails_with_invalid_text_on_malformed_code() {
    let mut reg = ParserRegistry::new();
    let bad: Vec<u8> = vec![0xff, 0xfe];
    let r = reg.create(bad.as_slice());
    match r {
        Err(OntologyError::InvalidText(ctx)) => {
            assert_eq!(ctx, "language code");
        },
        _ => panic!("expected an invalid-text failure"),
    }
}

#[test]
fn destroy_of_last_share_releases_the_parser() {
    let mut reg = ParserRegistry::new();
    let h = reg.create("en".as_bytes()).unwrap();
    assert_eq!(reg.share_count(h), 1);
    assert!(reg.has_parser_for(Language::En));
    let s = reg.destroy(h);
    assert_eq!(s, Status::Success);
    assert_eq!(s.code(), 0);
    assert!(!reg.has_parser_for(Language::En));
}

#[test]
fn shares_are_deduplicated_by_language_and_released_one_by_one() {
    let mut reg = ParserRegistry::new();
    let h1 = reg.create("fr".as_bytes()).unwrap();
    let h2 = reg.create("fr".as_bytes()).unwrap();
    assert_ne!(h1, h2);
    assert_eq!(reg.share_count(h1), 2);
    assert_eq!(reg.share_count(h2), 2);
    assert_eq!(reg.destroy(h1), Status::Success);
    assert!(reg.has_parser_for(Language::Fr));
    assert_eq!(reg.share_count(h2), 1);
    assert_eq!(reg.destroy(h2), Status::Success);
    assert!(!reg.has_parser_for(Language::Fr));
}

#[test]
fn parsers_for_different_languages_are_independent() {
    let mut reg = ParserRegistry::new();
    let he = reg.create("en".as_bytes()).unwrap();
    let hd = reg.create("de".as_bytes()).unwrap();
    assert_eq!(reg.language_of(he), Language::En);
    assert_eq!(reg.language_of(hd), Language::De);
    assert_eq!(reg.share_count(he), 1);
    assert_eq!(reg.share_count(hd), 1);
    assert_eq!(reg.destroy(he), Status::Success);
    assert!(reg.has_parser_for(Language::De));
    assert!(!reg.has_parser_for(Language::En));
    assert_eq!(reg.destroy(hd), Status::Success);
}

#[test]
fn lifecycle_protocol_table() {
    assert_eq!(
        transition(HandleState::Uncreated, HandleOp::CreateSucceeded),
        Some(HandleState::Live)
    );
    assert_eq!(
        transition(HandleState::Uncreated, HandleOp::CreateFailed),
        Some(HandleState::Uncreated)
    );
    assert_eq!(transition(HandleState::Live, HandleOp::Extract), Some(HandleState::Live));
    assert_eq!(transition(HandleState::Live, HandleOp::Destroy), Some(HandleState::Destroyed));
    assert_eq!(transition(HandleState::Destroyed, HandleOp::Extract), None);
    assert_eq!(transition(HandleState::Destroyed, HandleOp::Destroy), None);
    assert_eq!(transition(HandleState::Destroyed, HandleOp::CreateSucceeded), None);
    assert_eq!(transition(HandleState::Live, HandleOp::CreateSucceeded), None);
    assert_eq!(transition(HandleState::Uncreated, HandleOp::Extract), None);
    assert_eq!(transition(HandleState::Uncreated, HandleOp::Destroy), None);
}
