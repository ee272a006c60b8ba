//! The builtin-entity taxonomy: the kinds the underlying engine can
//! recognize, and resolution of caller-supplied kind identifiers.

use vstd::prelude::*;

use crate::text::lemma_seq_neq_at;
use crate::text::lemma_seq_neq_len;
use crate::text::str_eq;

verus! {

/// A category of builtin entity the engine recognizes.
#[derive(Clone, Copy, PartialEq, Eq, Structural, Debug)]
pub enum BuiltinEntityKind {
    AmountOfMoney,
    Duration,
    Number,
    Ordinal,
    Temperature,
    Time,
    Percentage,
}

impl BuiltinEntityKind {
    /// The identifier under which this kind is named in filter lists.
    pub open spec fn spec_identifier(self) -> Seq<char> {
        match self {
            BuiltinEntityKind::AmountOfMoney => "snips/amountOfMoney"@,
            BuiltinEntityKind::Duration => "snips/duration"@,
            BuiltinEntityKind::Number => "snips/number"@,
            BuiltinEntityKind::Ordinal => "snips/ordinal"@,
            BuiltinEntityKind::Temperature => "snips/temperature"@,
            BuiltinEntityKind::Time => "snips/datetime"@,
            BuiltinEntityKind::Percentage => "snips/percentage"@,
        }
    }

    /// Which kind, if any, an identifier resolves to.
    pub open spec fn spec_from_identifier(id: Seq<char>) -> Option<BuiltinEntityKind> {
        if id == "snips/amountOfMoney"@ {
            Some(BuiltinEntityKind::AmountOfMoney)
        } else if id == "snips/duration"@ {
            Some(BuiltinEntityKind::Duration)
        } else if id == "snips/number"@ {
            Some(BuiltinEntityKind::Number)
        } else if id == "snips/ordinal"@ {
            Some(BuiltinEntityKind::Ordinal)
        } else if id == "snips/temperature"@ {
            Some(BuiltinEntityKind::Temperature)
        } else if id == "snips/datetime"@ {
            Some(BuiltinEntityKind::Time)
        } else if id == "snips/percentage"@ {
            Some(BuiltinEntityKind::Percentage)
        } else {
            None
        }
    }

    pub fn identifier(&self) -> (r: &'static str)
        ensures
            r@ == self.spec_identifier(),
    {
        match self {
            BuiltinEntityKind::AmountOfMoney => "snips/amountOfMoney",
            BuiltinEntityKind::Duration => "snips/duration",
            BuiltinEntityKind::Number => "snips/number",
            BuiltinEntityKind::Ordinal => "snips/ordinal",
            BuiltinEntityKind::Temperature => "snips/temperature",
            BuiltinEntityKind::Time => "snips/datetime",
            BuiltinEntityKind::Percentage => "snips/percentage",
        }
    }

    /// Resolves a kind identifier; `None` exactly when the name is absent
    /// from the taxonomy.
    pub fn from_identifier(id: &str) -> (r: Option<BuiltinEntityKind>)
        ensures
            r == BuiltinEntityKind::spec_from_identifier(id@),
    {
        if str_eq(id, "snips/amountOfMoney") {
            Some(BuiltinEntityKind::AmountOfMoney)
        } else if str_eq(id, "snips/duration") {
            Some(BuiltinEntityKind::Duration)
        } else if str_eq(id, "snips/number") {
            Some(BuiltinEntityKind::Number)
        } else if str_eq(id, "snips/ordinal") {
            Some(BuiltinEntityKind::Ordinal)
        } else if str_eq(id, "snips/temperature") {
            Some(BuiltinEntityKind::Temperature)
        } else if str_eq(id, "snips/datetime") {
            Some(BuiltinEntityKind::Time)
        } else if str_eq(id, "snips/percentage") {
            Some(BuiltinEntityKind::Percentage)
        } else {
            None
        }
    }

    /// The whole taxonomy, in its canonical order.
    pub open spec fn spec_all() -> Seq<BuiltinEntityKind> {
        seq![
            BuiltinEntityKind::AmountOfMoney,
            BuiltinEntityKind::Duration,
            BuiltinEntityKind::Number,
            BuiltinEntityKind::Ordinal,
            BuiltinEntityKind::Temperature,
            BuiltinEntityKind::Time,
            BuiltinEntityKind::Percentage,
        ]
    }

    /// Every kind in the taxonomy, each exactly once.
    pub fn all() -> (r: Vec<BuiltinEntityKind>)
        ensures
            r@ =~= BuiltinEntityKind::spec_all(),
    {
        let mut v: Vec<BuiltinEntityKind> = Vec::new();
        v.push(BuiltinEntityKind::AmountOfMoney);
        v.push(BuiltinEntityKind::Duration);
        v.push(BuiltinEntityKind::Number);
        v.push(BuiltinEntityKind::Ordinal);
        v.push(BuiltinEntityKind::Temperature);
        v.push(BuiltinEntityKind::Time);
        v.push(BuiltinEntityKind::Percentage);
        v
    }
}

/// Resolution is consistent with each kind's own identifier: enumerating the
/// whole taxonomy by identifier names exactly the known kinds, so a filter
/// list built from `all` identifiers resolves in full.
pub proof fn lemma_identifier_round_trip(k: BuiltinEntityKind)
    ensures
        BuiltinEntityKind::spec_from_identifier(k.spec_identifier()) == Some(k),
{
    reveal_strlit("snips/amountOfMoney");
    reveal_strlit("snips/duration");
    reveal_strlit("snips/number");
    reveal_strlit("snips/ordinal");
    reveal_strlit("snips/temperature");
    reveal_strlit("snips/datetime");
    reveal_strlit("snips/percentage");
    lemma_seq_neq_at("snips/datetime"@, "snips/duration"@, 7);
    lemma_seq_neq_len("snips/duration"@, "snips/amountOfMoney"@);
    lemma_seq_neq_len("snips/number"@, "snips/amountOfMoney"@);
    lemma_seq_neq_len("snips/number"@, "snips/duration"@);
    lemma_seq_neq_len("snips/ordinal"@, "snips/amountOfMoney"@);
    lemma_seq_neq_len("snips/ordinal"@, "snips/duration"@);
    lemma_seq_neq_len("snips/ordinal"@, "snips/number"@);
    lemma_seq_neq_len("snips/temperature"@, "snips/amountOfMoney"@);
    lemma_seq_neq_len("snips/temperature"@, "snips/duration"@);
    lemma_seq_neq_len("snips/temperature"@, "snips/number"@);
    lemma_seq_neq_len("snips/temperature"@, "snips/ordinal"@);
    lemma_seq_neq_len("snips/datetime"@, "snips/amountOfMoney"@);
    lemma_seq_neq_len("snips/datetime"@, "snips/number"@);
    lemma_seq_neq_len("snips/datetime"@, "snips/ordinal"@);
    lemma_seq_neq_len("snips/datetime"@, "snips/temperature"@);
    lemma_seq_neq_len("snips/percentage"@, "snips/amountOfMoney"@);
    lemma_seq_neq_len("snips/percentage"@, "snips/duration"@);
    lemma_seq_neq_len("snips/percentage"@, "snips/number"@);
    lemma_seq_neq_len("snips/percentage"@, "snips/ordinal"@);
    lemma_seq_neq_len("snips/percentage"@, "snips/temperature"@);
    lemma_seq_neq_len("snips/percentage"@, "snips/datetime"@);
}

} // verus!
