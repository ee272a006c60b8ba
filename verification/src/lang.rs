//! The set of languages the underlying engine ships parser configurations
//! for, and resolution of caller-supplied language codes into that set.

use vstd::prelude::*;

use crate::text::lemma_seq_neq_at;
use crate::text::str_eq;

verus! {

/// A language the engine has a parser configuration for.
#[derive(Clone, Copy, PartialEq, Eq, Structural, Debug)]
pub enum Language {
    De,
    En,
    Es,
    Fr,
    Ja,
    Ko,
    Zh,
}

impl Language {
    /// The ISO 639-1 code under which this language is requested.
    pub open spec fn spec_code(self) -> Seq<char> {
        match self {
            Language::De => "de"@,
            Language::En => "en"@,
            Language::Es => "es"@,
            Language::Fr => "fr"@,
            Language::Ja => "ja"@,
            Language::Ko => "ko"@,
            Language::Zh => "zh"@,
        }
    }

    /// Which language, if any, a code resolves to.
    pub open spec fn spec_from_code(code: Seq<char>) -> Option<Language> {
        if code == "de"@ {
            Some(Language::De)
        } else if code == "en"@ {
            Some(Language::En)
        } else if code == "es"@ {
            Some(Language::Es)
        } else if code == "fr"@ {
            Some(Language::Fr)
        } else if code == "ja"@ {
            Some(Language::Ja)
        } else if code == "ko"@ {
            Some(Language::Ko)
        } else if code == "zh"@ {
            Some(Language::Zh)
        } else {
            None
        }
    }

    pub fn code(&self) -> (r: &'static str)
        ensures
            r@ == self.spec_code(),
    {
        match self {
            Language::De => "de",
            Language::En => "en",
            Language::Es => "es",
            Language::Fr => "fr",
            Language::Ja => "ja",
            Language::Ko => "ko",
            Language::Zh => "zh",
        }
    }

    /// Resolves a language code; `None` exactly when the code is not in the
    /// supported set.
    pub fn from_code(code: &str) -> (r: Option<Language>)
        ensures
            r == Language::spec_from_code(code@),
    {
        if str_eq(code, "de") {
            Some(Language::De)
        } else if str_eq(code, "en") {
            Some(Language::En)
        } else if str_eq(code, "es") {
            Some(Language::Es)
        } else if str_eq(code, "fr") {
            Some(Language::Fr)
        } else if str_eq(code, "ja") {
            Some(Language::Ja)
        } else if str_eq(code, "ko") {
            Some(Language::Ko)
        } else if str_eq(code, "zh") {
            Some(Language::Zh)
        } else {
            None
        }
    }

    /// Every supported language, each exactly once.
    pub fn all() -> (r: Vec<Language>)
        ensures
            r@ =~= seq![
                Language::De,
                Language::En,
                Language::Es,
                Language::Fr,
                Language::Ja,
                Language::Ko,
                Language::Zh,
            ],
    {
        let mut v: Vec<Language> = Vec::new();
        v.push(Language::De);
        v.push(Language::En);
        v.push(Language::Es);
        v.push(Language::Fr);
        v.push(Language::Ja);
        v.push(Language::Ko);
        v.push(Language::Zh);
        v
    }
}

/// Resolution is consistent with each language's own code: a supported
/// language's code always resolves back to that language.
pub proof fn lemma_code_round_trip(l: Language)
    ensures
        Language::spec_from_code(l.spec_code()) == Some(l),
{
    reveal_strlit("de");
    reveal_strlit("en");
    reveal_strlit("es");
    reveal_strlit("fr");
    reveal_strlit("ja");
    reveal_strlit("ko");
    reveal_strlit("zh");
    lemma_seq_neq_at("en"@, "de"@, 0);
    lemma_seq_neq_at("es"@, "de"@, 0);
    lemma_seq_neq_at("es"@, "en"@, 1);
    lemma_seq_neq_at("fr"@, "de"@, 0);
    lemma_seq_neq_at("fr"@, "en"@, 0);
    lemma_seq_neq_at("fr"@, "es"@, 0);
    lemma_seq_neq_at("ja"@, "de"@, 0);
    lemma_seq_neq_at("ja"@, "en"@, 0);
    lemma_seq_neq_at("ja"@, "es"@, 0);
    lemma_seq_neq_at("ja"@, "fr"@, 0);
    lemma_seq_neq_at("ko"@, "de"@, 0);
    lemma_seq_neq_at("ko"@, "en"@, 0);
    lemma_seq_neq_at("ko"@, "es"@, 0);
    lemma_seq_neq_at("ko"@, "fr"@, 0);
    lemma_seq_neq_at("ko"@, "ja"@, 0);
    lemma_seq_neq_at("zh"@, "de"@, 0);
    lemma_seq_neq_at("zh"@, "en"@, 0);
    lemma_seq_neq_at("zh"@, "es"@, 0);
    lemma_seq_neq_at("zh"@, "fr"@, 0);
    lemma_seq_neq_at("zh"@, "ja"@, 0);
    lemma_seq_neq_at("zh"@, "ko"@, 0);
}

} // verus!
