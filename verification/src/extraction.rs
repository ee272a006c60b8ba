//! The extraction invoker's verified half: decoding the call arguments into
//! a validated request for the underlying engine, and the record shape this
//! layer hands back. The engine call itself happens outside the library; it
//! is read-only with respect to parser state, so a live handle is all it
//! needs.

use vstd::prelude::*;
use vstd::string::StringExecFns;
use vstd::utf8::{decode_utf8, valid_utf8};

use crate::errors::OntologyError;
use crate::kinds::BuiltinEntityKind;
use crate::lang::Language;
use crate::registry::ParserRegistry;

verus! {

/// A fully validated extraction call, ready for the engine: the handle's
/// language, the sentence as checked text, and the resolved filter kinds
/// (`None` meaning every supported kind is considered).
pub struct ExtractionRequest {
    pub language: Language,
    pub sentence: String,
    pub filters: Option<Vec<BuiltinEntityKind>>,
}

/// One extracted record as this layer reads it: the kind, the character
/// span in the sentence, and the matched text. The engine's parsed value is
/// opaque to this layer and travels beside these fields.
#[derive(Clone, Debug)]
pub struct BuiltinEntityRecord {
    pub kind: BuiltinEntityKind,
    pub range_start: usize,
    pub range_end: usize,
    pub value: String,
}

/// A filter element is acceptable when it is valid UTF-8 naming a kind of
/// the taxonomy.
pub open spec fn filter_elem_ok(e: Seq<u8>) -> bool {
    valid_utf8(e) && BuiltinEntityKind::spec_from_identifier(decode_utf8(e)) is Some
}

pub open spec fn filters_ok(fs: Seq<Seq<u8>>) -> bool {
    forall|i: int| 0 <= i < fs.len() ==> #[trigger] filter_elem_ok(fs[i])
}

/// `i` is the first unacceptable element of the filter list.
pub open spec fn first_bad(fs: Seq<Seq<u8>>, i: int) -> bool {
    &&& 0 <= i < fs.len()
    &&& !filter_elem_ok(fs[i])
    &&& forall|j: int| 0 <= j < i ==> #[trigger] filter_elem_ok(fs[j])
}

/// What an acceptable filter list resolves to, element by element, in order.
pub open spec fn resolved_kinds(fs: Seq<Seq<u8>>) -> Seq<BuiltinEntityKind> {
    Seq::new(fs.len(), |i: int| BuiltinEntityKind::spec_from_identifier(decode_utf8(fs[i]))->0)
}

/// There is at most one first unacceptable element.
pub proof fn lemma_first_bad_unique(fs: Seq<Seq<u8>>, i: int, j: int)
    requires
        first_bad(fs, i),
        first_bad(fs, j),
    ensures
        i == j,
{
}

/// Resolves a filter list in order. Succeeds exactly when every element is
/// valid text naming a known kind; otherwise reports the first offending
/// element: malformed bytes as invalid text, an unknown name verbatim.
fn decode_filters(filters: &Vec<Vec<u8>>) -> (r: Result<Vec<BuiltinEntityKind>, OntologyError>)
    ensures
        r is Ok <==> filters_ok(filters.deep_view()),
        match r {
            Ok(ks) => ks@ == resolved_kinds(filters.deep_view()),
            Err(e) => exists|i: int|
                #[trigger] first_bad(filters.deep_view(), i) && match e {
                    OntologyError::InvalidText(ctx) => !valid_utf8(filters.deep_view()[i]) && ctx@
                        == "entity kind filter"@,
                    OntologyError::UnknownEntityKind(name) => valid_utf8(filters.deep_view()[i])
                        && name@ == decode_utf8(filters.deep_view()[i]),
                    OntologyError::UnknownLanguage(_) => false,
                    OntologyError::UnderlyingExtractionFailure(_) => false,
                },
        },
{
    let ghost fv = filters.deep_view();
    let n = filters.len();
    let mut out: Vec<BuiltinEntityKind> = Vec::new();
    let mut idx: usize = 0;
    while idx < n
        invariant
            n == filters@.len(),
            fv == filters.deep_view(),
            idx <= n,
            out@.len() == idx,
            forall|j: int| 0 <= j < idx ==> #[trigger] filter_elem_ok(fv[j]),
            forall|j: int|
                0 <= j < idx ==> #[trigger] out@[j] == BuiltinEntityKind::spec_from_identifier(
                    decode_utf8(fv[j]),
                )->0,
        decreases n - idx,
    {
        proof {
            assert(fv[idx as int] == filters@[idx as int]@);
        }
        let elem: &Vec<u8> = &filters[idx];
        match crate::text::decode_text(elem.as_slice()) {
            None => {
                proof {
                    assert(first_bad(fv, idx as int));
                }
                return Err(OntologyError::InvalidText(String::from_str("entity kind filter")));
            },
            Some(s) => match BuiltinEntityKind::from_identifier(s) {
                None => {
                    proof {
                        assert(first_bad(fv, idx as int));
                    }
                    return Err(OntologyError::UnknownEntityKind(String::from_str(s)));
                },
                Some(k) => {
                    out.push(k);
                },
            },
        }
        idx = idx + 1;
    }
    proof {
        assert(out@ =~= resolved_kinds(fv));
    }
    Ok(out)
}

/// The byte form of a filter list enumerating the whole taxonomy by
/// identifier, in canonical order.
pub open spec fn taxonomy_identifier_bytes() -> Seq<Seq<u8>> {
    Seq::new(
        BuiltinEntityKind::spec_all().len(),
        |i: int| vstd::utf8::encode_utf8(BuiltinEntityKind::spec_all()[i].spec_identifier()),
    )
}

/// An absent filter list considers every supported kind; a filter list that
/// enumerates the whole taxonomy by identifier asks for the same thing: it
/// is acceptable in full and resolves to exactly the taxonomy, in order.
pub proof fn lemma_full_filter_list_resolves_to_taxonomy()
    ensures
        filters_ok(taxonomy_identifier_bytes()),
        resolved_kinds(taxonomy_identifier_bytes()) == BuiltinEntityKind::spec_all(),
{
    assert forall|i: int|
        0 <= i < taxonomy_identifier_bytes().len() implies #[trigger] filter_elem_ok(
        taxonomy_identifier_bytes()[i],
    ) by {
        let k = BuiltinEntityKind::spec_all()[i];
        vstd::utf8::encode_utf8_valid_utf8(k.spec_identifier());
        vstd::utf8::encode_utf8_decode_utf8(k.spec_identifier());
        crate::kinds::lemma_identifier_round_trip(k);
    }
    assert forall|i: int|
        0 <= i < taxonomy_identifier_bytes().len() implies #[trigger] resolved_kinds(
        taxonomy_identifier_bytes(),
    )[i] == BuiltinEntityKind::spec_all()[i] by {
        let k = BuiltinEntityKind::spec_all()[i];
        vstd::utf8::encode_utf8_decode_utf8(k.spec_identifier());
        crate::kinds::lemma_identifier_round_trip(k);
    }
    assert(resolved_kinds(taxonomy_identifier_bytes()) =~= BuiltinEntityKind::spec_all());
}

/// The whole contract of request building, as a relation between the call's
/// arguments and its outcome.
pub open spec fn request_outcome(
    lang: Language,
    sentence: Seq<u8>,
    filters: Option<Seq<Seq<u8>>>,
    r: Result<ExtractionRequest, OntologyError>,
) -> bool {
    &&& (r is Ok <==> valid_utf8(sentence) && match filters {
        None => true,
        Some(fs) => filters_ok(fs),
    })
    &&& match r {
        Ok(req) => {
            &&& req.language == lang
            &&& req.sentence@ == decode_utf8(sentence)
            &&& match filters {
                None => req.filters is None,
                Some(fs) => req.filters is Some && req.filters->0@ == resolved_kinds(fs),
            }
        },
        Err(e) => match e {
            OntologyError::InvalidText(ctx) => (!valid_utf8(sentence) && ctx@ == "sentence"@) || (
            valid_utf8(sentence) && filters is Some && ctx@ == "entity kind filter"@ && exists|
                i: int,
            |
                #[trigger] first_bad(filters->0, i) && !valid_utf8(filters->0[i])),
            OntologyError::UnknownEntityKind(name) => valid_utf8(sentence) && filters is Some
                && exists|i: int|
                #[trigger] first_bad(filters->0, i) && valid_utf8(filters->0[i]) && name@
                    == decode_utf8(filters->0[i]),
            OntologyError::UnknownLanguage(_) => false,
            OntologyError::UnderlyingExtractionFailure(_) => false,
        },
    }
}

/// Decodes and validates the arguments of one extraction call on a live
/// handle. The sentence is checked first; a present filter list is then
/// resolved element by element, the first offending element deciding the
/// error. No engine work happens and nothing is mutated: on success the
/// request carries everything the engine call needs.
pub fn extract_request(
    reg: &ParserRegistry,
    handle: usize,
    sentence: &[u8],
    filters: Option<&Vec<Vec<u8>>>,
) -> (r: Result<ExtractionRequest, OntologyError>)
    requires
        reg.wf(),
        reg.handle_live(handle),
    ensures
        request_outcome(
            reg.handle_language(handle),
            sentence@,
            match filters {
                None => None,
                Some(fs) => Some(fs.deep_view()),
            },
            r,
        ),
{
    let language = reg.language_of(handle);
    let text = match crate::text::decode_text(sentence) {
        Some(t) => t,
        None => {
            return Err(OntologyError::InvalidText(String::from_str("sentence")));
        },
    };
    let resolved: Option<Vec<BuiltinEntityKind>> = match filters {
        Some(fs) => match decode_filters(fs) {
            Ok(ks) => Some(ks),
            Err(e) => {
                return Err(e);
            },
        },
        None => None,
    };
    Ok(ExtractionRequest { language, sentence: String::from_str(text), filters: resolved })
}

/// Idempotence at the boundary: the outcome of request building is a
/// function of the handle's language and the byte arguments alone, so two
/// calls with identical arguments agree — same validated request on
/// success, same failure otherwise.
pub proof fn lemma_extract_request_deterministic(
    lang: Language,
    sentence: Seq<u8>,
    filters: Option<Seq<Seq<u8>>>,
    r1: Result<ExtractionRequest, OntologyError>,
    r2: Result<ExtractionRequest, OntologyError>,
)
    requires
        request_outcome(lang, sentence, filters, r1),
        request_outcome(lang, sentence, filters, r2),
    ensures
        match (r1, r2) {
            (Ok(a), Ok(b)) => a.language == b.language && a.sentence@ == b.sentence@ && (a.filters
                is Some <==> b.filters is Some) && (a.filters is Some ==> a.filters->0@
                == b.filters->0@),
            (Err(x), Err(y)) => x.spec_message() == y.spec_message(),
            _ => false,
        },
{
    match (r1, r2) {
        (Ok(a), Ok(b)) => {},
        (Err(x), Err(y)) => {
            if filters is Some {
                let fs = filters->0;
                match (x, y) {
                    (OntologyError::InvalidText(c1), OntologyError::InvalidText(c2)) => {
                        if valid_utf8(sentence) {
                            let i1 = choose|i: int| #[trigger] first_bad(fs, i) && !valid_utf8(fs[i]);
                            let i2 = choose|i: int| #[trigger] first_bad(fs, i) && !valid_utf8(fs[i]);
                            lemma_first_bad_unique(fs, i1, i2);
                        }
                    },
                    (OntologyError::InvalidText(c1), OntologyError::UnknownEntityKind(n2)) => {
                        if valid_utf8(sentence) {
                            let i1 = choose|i: int| #[trigger] first_bad(fs, i) && !valid_utf8(fs[i]);
                            let i2 = choose|i: int|
                                #[trigger] first_bad(fs, i) && valid_utf8(fs[i]) && n2@
                                    == decode_utf8(fs[i]);
                            lemma_first_bad_unique(fs, i1, i2);
                        }
                    },
                    (OntologyError::UnknownEntityKind(n1), OntologyError::InvalidText(c2)) => {
                        if valid_utf8(sentence) {
                            let i1 = choose|i: int|
                                #[trigger] first_bad(fs, i) && valid_utf8(fs[i]) && n1@
                                    == decode_utf8(fs[i]);
                            let i2 = choose|i: int| #[trigger] first_bad(fs, i) && !valid_utf8(fs[i]);
                            lemma_first_bad_unique(fs, i1, i2);
                        }
                    },
                    (OntologyError::UnknownEntityKind(n1), OntologyError::UnknownEntityKind(n2)) => {
                        let i1 = choose|i: int|
                            #[trigger] first_bad(fs, i) && valid_utf8(fs[i]) && n1@ == decode_utf8(
                                fs[i],
                            );
                        let i2 = choose|i: int|
                            #[trigger] first_bad(fs, i) && valid_utf8(fs[i]) && n2@ == decode_utf8(
                                fs[i],
                            );
                        lemma_first_bad_unique(fs, i1, i2);
                    },
                    _ => {},
                }
            }
        },
        _ => {},
    }
}

} // verus!
