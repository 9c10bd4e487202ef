//! Constraints of an attribute. A constraint set holds at most one
//! constraint of each kind: two foreign-key constraints count as the same
//! kind even when they reference different targets.

use vstd::prelude::*;

verus! {

/// A restriction on one attribute of a table.
#[derive(Clone, Debug)]
pub enum Constraint {
    /// The attribute must not contain a null value.
    NotNull,
    /// The attribute must contain a unique value.
    Unique,
    /// The attribute references an attribute of another table, by name.
    ForeignKey { table_name: String, attribute_name: String },
    /// The attribute is an auto-incrementing integer.
    AutoIncrement,
}

/// The mathematical value of a constraint: the same shape, over character
/// sequences.
pub enum ConstraintV {
    NotNull,
    Unique,
    ForeignKey { table_name: Seq<char>, attribute_name: Seq<char> },
    AutoIncrement,
}

impl View for Constraint {
    type V = ConstraintV;

    open spec fn view(&self) -> ConstraintV {
        match self {
            Constraint::NotNull => ConstraintV::NotNull,
            Constraint::Unique => ConstraintV::Unique,
            Constraint::ForeignKey { table_name, attribute_name } => ConstraintV::ForeignKey {
                table_name: table_name@,
                attribute_name: attribute_name@,
            },
            Constraint::AutoIncrement => ConstraintV::AutoIncrement,
        }
    }
}

/// Two constraints of the same kind, payload disregarded: the sense of
/// equality under which a constraint set holds no duplicates.
pub open spec fn same_kind(a: ConstraintV, b: ConstraintV) -> bool {
    match (a, b) {
        (ConstraintV::NotNull, ConstraintV::NotNull) => true,
        (ConstraintV::Unique, ConstraintV::Unique) => true,
        (ConstraintV::ForeignKey { .. }, ConstraintV::ForeignKey { .. }) => true,
        (ConstraintV::AutoIncrement, ConstraintV::AutoIncrement) => true,
        _ => false,
    }
}

/// A well-formed constraint set: no two entries of the same kind.
pub open spec fn constraints_wf(cs: Seq<ConstraintV>) -> bool {
    forall|i: int, j: int| 0 <= i < j < cs.len() ==> !same_kind(cs[i], cs[j])
}

/// The rendered word(s) of a constraint; a foreign key renders as its
/// target, `<table>(<attribute>)`.
pub open spec fn constraint_text(c: ConstraintV) -> Seq<char> {
    match c {
        ConstraintV::NotNull => "Not Null"@,
        ConstraintV::Unique => "Unique"@,
        ConstraintV::ForeignKey { table_name, attribute_name } => table_name + "("@
            + attribute_name + ")"@,
        ConstraintV::AutoIncrement => "Auto_increment"@,
    }
}

impl Constraint {
    /// The rendered text of this constraint, as `constraint_text` states it.
    pub fn render(&self) -> (r: String)
        ensures
            r@ == constraint_text(self@),
    {
        let r = match self {
            Constraint::NotNull => String::from_str("Not Null"),
            Constraint::Unique => String::from_str("Unique"),
            Constraint::ForeignKey { table_name, attribute_name } => table_name.clone().concat(
                "(",
            ).concat(attribute_name.as_str()).concat(")"),
            Constraint::AutoIncrement => String::from_str("Auto_increment"),
        };
        proof {
            assert(r@ =~= constraint_text(self@));
        }
        r
    }
}

/// Some entry of `cs` is a `Unique` constraint.
pub open spec fn has_unique(cs: Seq<ConstraintV>) -> bool {
    exists|i: int| 0 <= i < cs.len() && cs[i] is Unique
}

/// Some entry of `cs` is a `NotNull` constraint.
pub open spec fn has_not_null(cs: Seq<ConstraintV>) -> bool {
    exists|i: int| 0 <= i < cs.len() && cs[i] is NotNull
}

/// Some entry of `cs` is an `AutoIncrement` constraint.
pub open spec fn has_auto_increment(cs: Seq<ConstraintV>) -> bool {
    exists|i: int| 0 <= i < cs.len() && cs[i] is AutoIncrement
}

/// The first foreign-key constraint of `cs`, if one is there.
pub open spec fn fk_target(cs: Seq<ConstraintV>) -> Option<ConstraintV>
    decreases cs.len(),
{
    if cs.len() == 0 {
        None
    } else if cs[0] is ForeignKey {
        Some(cs[0])
    } else {
        fk_target(cs.drop_first())
    }
}

/// With no foreign key among the first `i` entries, the search outcome is
/// that of the remainder.
pub proof fn lemma_fk_target_skip(cs: Seq<ConstraintV>, i: int)
    requires
        0 <= i <= cs.len(),
        forall|j: int| 0 <= j < i ==> !(#[trigger] cs[j] is ForeignKey),
    ensures
        fk_target(cs) == fk_target(cs.skip(i)),
    decreases i,
{
    if i > 0 {
        lemma_fk_target_skip(cs, i - 1);
        assert(cs.skip(i - 1).drop_first() =~= cs.skip(i));
        assert(cs.skip(i - 1)[0] == cs[i - 1]);
    } else {
        assert(cs.skip(0) =~= cs);
    }
}

} // verus!
