//! The laws of statement synthesis and of the table builder.

use vstd::prelude::*;

use crate::attribute::{spec_attr_of_row, RowV};
use crate::table::{filtered_cols, insert_text, spec_build, TableV};
use crate::text::up_seq;
use crate::types::parse_type;

verus! {

/// The INSERT statement depends on the value map alone: two value maps with
/// equal bindings give the identical statement, whatever order their pairs
/// were given in.
pub proof fn lemma_insert_function_of_map(
    t: TableV,
    m1: Map<Seq<char>, Seq<char>>,
    m2: Map<Seq<char>, Seq<char>>,
)
    requires
        m1 =~= m2,
    ensures
        insert_text(t, m1) == insert_text(t, m2),
{
    assert(m1 == m2);
}

proof fn lemma_filtered_cols_empty_map(attrs: Seq<crate::attribute::AttrV>)
    ensures
        filtered_cols(attrs, Map::empty()).len() == 0,
    decreases attrs.len(),
{
    if attrs.len() > 0 {
        lemma_filtered_cols_empty_map(attrs.drop_last());
        assert(!Map::<Seq<char>, Seq<char>>::empty().contains_key(attrs.last().name));
    }
}

/// An empty value map always gives the empty result: no column carries a
/// value, so no INSERT statement is produced.
pub proof fn lemma_insert_empty_values(t: TableV)
    ensures
        insert_text(t, Map::empty()) is None,
{
    lemma_filtered_cols_empty_map(t.attributes);
}

/// A recorded primary-key position always indexes a valid position among
/// the surviving attributes.
pub proof fn lemma_build_primary_key_in_range(rows: Seq<RowV>, def: Seq<char>)
    ensures
        match spec_build(rows, def) {
            Ok(p) => match p.1 {
                Some(i) => 0 <= i < p.0.len(),
                None => true,
            },
            Err(_) => true,
        },
    decreases rows.len(),
{
    if rows.len() > 0 {
        lemma_build_primary_key_in_range(rows.drop_last(), def);
    }
}

/// Dropping an unrecognized-type attribute never corrupts the primary key:
/// when every row flagged as the primary key has an unrecognized type
/// declaration (and is therefore dropped), the built table records no
/// primary key at all, rather than an out-of-range position.
pub proof fn lemma_dropped_primary_key_is_none(rows: Seq<RowV>, def: Seq<char>)
    requires
        forall|i: int|
            0 <= i < rows.len() && (#[trigger] rows[i]).key == "PRI"@ ==> parse_type(
                up_seq(rows[i].type_decl),
            ) is None,
    ensures
        match spec_build(rows, def) {
            Ok(p) => p.1 is None,
            Err(_) => true,
        },
    decreases rows.len(),
{
    if rows.len() > 0 {
        lemma_dropped_primary_key_is_none(rows.drop_last(), def);
        assert(rows.drop_last() =~= rows.take(rows.len() - 1));
        assert(forall|i: int|
            0 <= i < rows.len() - 1 ==> rows.drop_last()[i] == rows[i]);
        if rows.last().key == "PRI"@ {
            assert(rows[rows.len() - 1].key == "PRI"@);
            assert(spec_attr_of_row(rows.last(), def) == Ok::<
                Option<crate::attribute::AttrV>,
                crate::attribute::ReflectError,
            >(None));
        }
    }
}

} // verus!
