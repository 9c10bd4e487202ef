//! An attribute (column) of the reflected model: a name, a parsed type, and
//! a constraint set; and its rendering inside a CREATE TABLE statement.

use vstd::prelude::*;

use crate::constraint::{
    constraint_text, fk_target, has_auto_increment, has_not_null, has_unique,
    lemma_fk_target_skip, Constraint, ConstraintV,
};
use crate::fkparse::{find_foreign_key, fk_find};
use crate::text::{ascii_to_upper, str_is, up_seq};
use crate::types::{parse_type, type_text, AttributeType};

verus! {

/// One row of the column-listing metadata query, reduced to the fields the
/// builder reads: the column's name, its raw type declaration, its
/// nullability flag (`"YES"`/`"NO"`), its key classification (`""`/`"PRI"`/
/// `"UNI"`/`"MUL"`) and its extra flag (`"auto_increment"` among others).
#[derive(Clone, Debug)]
pub struct MetadataRow {
    pub name: String,
    pub type_decl: String,
    pub nullable: String,
    pub key: String,
    pub extra: String,
}

/// The mathematical value of a metadata row.
pub struct RowV {
    pub name: Seq<char>,
    pub type_decl: Seq<char>,
    pub nullable: Seq<char>,
    pub key: Seq<char>,
    pub extra: Seq<char>,
}

impl View for MetadataRow {
    type V = RowV;

    open spec fn view(&self) -> RowV {
        RowV {
            name: self.name@,
            type_decl: self.type_decl@,
            nullable: self.nullable@,
            key: self.key@,
            extra: self.extra@,
        }
    }
}

/// Why reflecting a table failed.
#[derive(Clone, Copy, Debug, PartialEq, Eq, Structural)]
pub enum ReflectError {
    /// A column is classified as a multiple-key (`"MUL"`) column, but the
    /// table's definition text holds no foreign-key clause for it.
    ForeignKeyNotFound,
}

/// The constraint set a metadata row gives rise to. The foreign-key target,
/// when the row calls for one, comes from the foreign-key clause for this
/// column in the table's definition text `def`.
pub open spec fn spec_constraints(r: RowV, def: Seq<char>) -> Seq<ConstraintV> {
    let base = (if r.nullable == "NO"@ {
        seq![ConstraintV::NotNull]
    } else {
        Seq::<ConstraintV>::empty()
    }) + (if r.extra == "auto_increment"@ {
        seq![ConstraintV::AutoIncrement]
    } else {
        Seq::<ConstraintV>::empty()
    });
    if r.key == "UNI"@ {
        base.push(ConstraintV::Unique)
    } else if r.key == "MUL"@ {
        match fk_find(def, r.name) {
            Some(t) => base.push(
                ConstraintV::ForeignKey { table_name: t.0, attribute_name: t.1 },
            ),
            None => base,
        }
    } else {
        base
    }
}

/// The constraint set a row gives rise to is a set in the kind sense: no
/// two of its entries are of one kind, so an attribute carries at most one
/// constraint of each kind.
pub proof fn lemma_built_constraints_wf(r: RowV, def: Seq<char>)
    ensures
        crate::constraint::constraints_wf(spec_constraints(r, def)),
{
    let cs = spec_constraints(r, def);
    assert forall|i: int, j: int| 0 <= i < j < cs.len() implies !crate::constraint::same_kind(
        cs[i],
        cs[j],
    ) by {
        assert(cs.len() <= 3);
    }
}

/// The outcome of building one attribute from one metadata row: `Ok(None)`
/// when the row's type declaration is unrecognized (the attribute is
/// dropped), `Err` when the row calls for a foreign key that the definition
/// text does not confirm.
pub open spec fn spec_attr_of_row(r: RowV, def: Seq<char>) -> Result<Option<AttrV>, ReflectError> {
    match parse_type(up_seq(r.type_decl)) {
        None => Ok(None),
        Some(ty) => {
            if r.key == "MUL"@ && fk_find(def, r.name) is None {
                Err(ReflectError::ForeignKeyNotFound)
            } else {
                Ok(
                    Some(
                        AttrV {
                            name: r.name,
                            data_type: ty,
                            constraint: spec_constraints(r, def),
                        },
                    ),
                )
            }
        },
    }
}

/// An attribute of a table.
#[derive(Clone, Debug)]
pub struct Attribute {
    /// The name of the attribute.
    pub name: String,
    /// The data type of the attribute.
    pub data_type: AttributeType,
    /// The constraints on the attribute: at most one of each kind.
    pub constraint: Vec<Constraint>,
}

/// The mathematical value of an attribute.
pub struct AttrV {
    pub name: Seq<char>,
    pub data_type: AttributeType,
    pub constraint: Seq<ConstraintV>,
}

/// The constraint values of a constraint vector.
pub open spec fn cs_view(v: Seq<Constraint>) -> Seq<ConstraintV> {
    v.map_values(|c: Constraint| c@)
}

impl View for Attribute {
    type V = AttrV;

    open spec fn view(&self) -> AttrV {
        AttrV { name: self.name@, data_type: self.data_type, constraint: cs_view(self.constraint@) }
    }
}

/// The constraint words of an attribute's rendering, space-joined, in the
/// fixed order Unique, Not Null, Auto_increment; the foreign key never
/// appears here (it renders as a trailing clause of its own).
pub open spec fn constraint_words(cs: Seq<ConstraintV>) -> Seq<char> {
    let u = has_unique(cs);
    let n = has_not_null(cs);
    let a = has_auto_increment(cs);
    (if u {
        "Unique"@
    } else {
        Seq::empty()
    }) + (if n {
        (if u {
            " "@
        } else {
            Seq::empty()
        }) + "Not Null"@
    } else {
        Seq::empty()
    }) + (if a {
        (if u || n {
            " "@
        } else {
            Seq::empty()
        }) + "Auto_increment"@
    } else {
        Seq::empty()
    })
}

/// The full rendering of an attribute inside a CREATE TABLE statement:
/// `<name> <type>`, then the constraint words if any are present, then
/// `, FOREIGN KEY(<name>) REFERENCES <table>(<attribute>)` if a foreign key
/// is present.
pub open spec fn attr_text(a: AttrV) -> Seq<char> {
    let base = a.name + " "@ + type_text(a.data_type);
    let words = constraint_words(a.constraint);
    let headline = if words.len() == 0 {
        base
    } else {
        base + " "@ + words
    };
    match fk_target(a.constraint) {
        Some(c) => headline + ", FOREIGN KEY("@ + a.name + ") REFERENCES "@ + constraint_text(c),
        None => headline,
    }
}

fn vec_has_unique(v: &Vec<Constraint>) -> (r: bool)
    ensures
        r == has_unique(cs_view(v@)),
{
    let mut i: usize = 0;
    while i < v.len()
        invariant
            0 <= i <= v@.len(),
            forall|j: int| 0 <= j < i ==> !(#[trigger] cs_view(v@)[j] is Unique),
        decreases v@.len() - i,
    {
        match &v[i] {
            Constraint::Unique => {
                assert(cs_view(v@)[i as int] is Unique);
                return true;
            },
            _ => {},
        }
        i = i + 1;
    }
    false
}

fn vec_has_not_null(v: &Vec<Constraint>) -> (r: bool)
    ensures
        r == has_not_null(cs_view(v@)),
{
    let mut i: usize = 0;
    while i < v.len()
        invariant
            0 <= i <= v@.len(),
            forall|j: int| 0 <= j < i ==> !(#[trigger] cs_view(v@)[j] is NotNull),
        decreases v@.len() - i,
    {
        match &v[i] {
            Constraint::NotNull => {
                assert(cs_view(v@)[i as int] is NotNull);
                return true;
            },
            _ => {},
        }
        i = i + 1;
    }
    false
}

fn vec_has_auto_increment(v: &Vec<Constraint>) -> (r: bool)
    ensures
        r == has_auto_increment(cs_view(v@)),
{
    let mut i: usize = 0;
    while i < v.len()
        invariant
            0 <= i <= v@.len(),
            forall|j: int| 0 <= j < i ==> !(#[trigger] cs_view(v@)[j] is AutoIncrement),
        decreases v@.len() - i,
    {
        match &v[i] {
            Constraint::AutoIncrement => {
                assert(cs_view(v@)[i as int] is AutoIncrement);
                return true;
            },
            _ => {},
        }
        i = i + 1;
    }
    false
}

/// The target of the first foreign-key constraint: the referenced table's
/// name and the referenced attribute's name.
pub fn find_fk(v: &Vec<Constraint>) -> (r: Option<(String, String)>)
    ensures
        match r {
            Some(p) => {
                &&& fk_target(cs_view(v@)) is Some
                &&& fk_target(cs_view(v@)).unwrap() is ForeignKey
                &&& p.0@ == fk_target(cs_view(v@)).unwrap()->ForeignKey_table_name
                &&& p.1@ == fk_target(cs_view(v@)).unwrap()->ForeignKey_attribute_name
            },
            None => fk_target(cs_view(v@)) is None,
        },
{
    let ghost cs = cs_view(v@);
    let mut i: usize = 0;
    while i < v.len()
        invariant
            0 <= i <= v@.len(),
            cs == cs_view(v@),
            forall|j: int| 0 <= j < i ==> !(#[trigger] cs[j] is ForeignKey),
        decreases v@.len() - i,
    {
        match &v[i] {
            Constraint::ForeignKey { table_name, attribute_name } => {
                proof {
                    lemma_fk_target_skip(cs, i as int);
                    assert(cs.skip(i as int)[0] == cs[i as int]);
                    assert(cs[i as int] is ForeignKey);
                }
                return Some((table_name.clone(), attribute_name.clone()));
            },
            _ => {},
        }
        i = i + 1;
    }
    proof {
        lemma_fk_target_skip(cs, cs.len() as int);
        assert(cs.skip(cs.len() as int).len() == 0);
    }
    None
}

impl Attribute {
    /// Builds the attribute of one metadata row. The row's raw type
    /// declaration is upper-cased and parsed; a row whose declaration no
    /// pattern matches yields `Ok(None)` and is dropped from the reflected
    /// schema. A row classified `"MUL"` takes its foreign-key target from
    /// the foreign-key clause for this column in the table's definition text
    /// `table_def`; when the text holds no such clause, the build fails.
    pub fn from_row(row: &MetadataRow, table_def: &str) -> (r: Result<
        Option<Attribute>,
        ReflectError,
    >)
        ensures
            match r {
                Ok(Some(a)) => spec_attr_of_row(row@, table_def@) == Ok::<
                    Option<AttrV>,
                    ReflectError,
                >(Some(a@)),
                Ok(None) => spec_attr_of_row(row@, table_def@) == Ok::<
                    Option<AttrV>,
                    ReflectError,
                >(None),
                Err(e) => spec_attr_of_row(row@, table_def@) == Err::<
                    Option<AttrV>,
                    ReflectError,
                >(e),
            },
    {
        let upper = ascii_to_upper(row.type_decl.as_str());
        let ty = match AttributeType::from(upper.as_str()) {
            Some(ty) => ty,
            None => {
                return Ok(None);
            },
        };
        let mut cs: Vec<Constraint> = Vec::new();
        if str_is(&row.nullable, "NO") {
            cs.push(Constraint::NotNull);
        }
        if str_is(&row.extra, "auto_increment") {
            cs.push(Constraint::AutoIncrement);
        }
        if str_is(&row.key, "UNI") {
            cs.push(Constraint::Unique);
        } else if str_is(&row.key, "MUL") {
            match find_foreign_key(table_def, row.name.as_str()) {
                Some(p) => {
                    cs.push(
                        Constraint::ForeignKey { table_name: p.0, attribute_name: p.1 },
                    );
                },
                None => {
                    return Err(ReflectError::ForeignKeyNotFound);
                },
            }
        }
        let a = Attribute { name: row.name.clone(), data_type: ty, constraint: cs };
        proof {
            reveal_strlit("UNI");
            reveal_strlit("MUL");
            assert("UNI"@[0] == 'U' && "MUL"@[0] == 'M');
            assert("UNI"@ != "MUL"@);
            assert(cs_view(a.constraint@) =~= spec_constraints(row@, table_def@));
        }
        Ok(Some(a))
    }

    /// The attribute's schema line without constraints: `<name> <type>`.
    pub fn schema_fmt(&self) -> (r: String)
        ensures
            r@ == self@.name + " "@ + type_text(self@.data_type),
    {
        let r = self.name.clone().concat(" ").concat(self.data_type.render().as_str());
        proof {
            assert(r@ =~= self@.name + " "@ + type_text(self@.data_type));
        }
        r
    }

    /// The attribute's full rendering inside a CREATE TABLE statement, as
    /// `attr_text` states it.
    pub fn render(&self) -> (r: String)
        ensures
            r@ == attr_text(self@),
    {
        proof {
            reveal_strlit("Unique");
            reveal_strlit("Not Null");
            reveal_strlit("Auto_increment");
            reveal_strlit(" ");
        }
        let u = vec_has_unique(&self.constraint);
        let n = vec_has_not_null(&self.constraint);
        let a = vec_has_auto_increment(&self.constraint);
        let mut out = self.schema_fmt();
        if u || n || a {
            out.append(" ");
            if u {
                out.append("Unique");
            }
            if n {
                if u {
                    out.append(" ");
                }
                out.append("Not Null");
            }
            if a {
                if u || n {
                    out.append(" ");
                }
                out.append("Auto_increment");
            }
        }
        proof {
            let words = constraint_words(self@.constraint);
            if u || n || a {
                assert(words.len() > 0);
            } else {
                assert(words.len() == 0);
            }
        }
        match find_fk(&self.constraint) {
            Some(p) => {
                out.append(", FOREIGN KEY(");
                out.append(self.name.as_str());
                out.append(") REFERENCES ");
                out.append(p.0.as_str());
                out.append("(");
                out.append(p.1.as_str());
                out.append(")");
                proof {
                    let c = fk_target(self@.constraint).unwrap();
                    assert(constraint_text(c) =~= p.0@ + "("@ + p.1@ + ")"@);
                    assert(out@ =~= attr_text(self@));
                }
                out
            },
            None => {
                proof {
                    assert(out@ =~= attr_text(self@));
                }
                out
            },
        }
    }
}

} // verus!
