//! A table of the reflected model — name, ordered attributes, optional
//! primary key — the builder that reflects it from metadata rows, and the
//! synthesis of statement text over it.

use vstd::prelude::*;

use crate::attribute::{
    attr_text, find_fk, spec_attr_of_row, AttrV, Attribute, MetadataRow, ReflectError, RowV,
};
use crate::constraint::fk_target;
use crate::text::{join_sep, str_is};

verus! {

/// A table of a relational database, as reflected from its metadata.
#[derive(Clone, Debug)]
pub struct Table {
    /// The name of the table.
    pub name: String,
    /// The columns of the table, in declaration order.
    pub attributes: Vec<Attribute>,
    /// The position of the primary-key attribute in `attributes`, if one
    /// exists.
    pub primary_key: Option<usize>,
}

/// The mathematical value of a table.
pub struct TableV {
    pub name: Seq<char>,
    pub attributes: Seq<AttrV>,
    pub primary_key: Option<int>,
}

/// The attribute values of an attribute vector.
pub open spec fn attrs_view(v: Seq<Attribute>) -> Seq<AttrV> {
    v.map_values(|a: Attribute| a@)
}

impl View for Table {
    type V = TableV;

    open spec fn view(&self) -> TableV {
        TableV {
            name: self.name@,
            attributes: attrs_view(self.attributes@),
            primary_key: match self.primary_key {
                Some(i) => Some(i as int),
                None => None,
            },
        }
    }
}

impl TableV {
    /// A well-formed table: a recorded primary key indexes a valid position
    /// in the attribute list.
    pub open spec fn wf(self) -> bool {
        match self.primary_key {
            Some(i) => 0 <= i < self.attributes.len(),
            None => true,
        }
    }
}

/// The renderings of the attributes, in declaration order.
pub open spec fn attrs_texts(attrs: Seq<AttrV>) -> Seq<Seq<char>> {
    attrs.map_values(|a: AttrV| attr_text(a))
}

/// The text of the CREATE TABLE statement for a table.
pub open spec fn create_text(t: TableV) -> Seq<char> {
    "CREATE TABLE "@ + t.name + " ("@ + join_sep(attrs_texts(t.attributes), ","@) + (match t
        .primary_key {
        Some(i) => ", PRIMARY KEY("@ + t.attributes[i].name + ")"@,
        None => Seq::<char>::empty(),
    }) + ")"@
}

/// The text of the DROP TABLE statement for a table.
pub open spec fn drop_text(t: TableV) -> Seq<char> {
    "DROP TABLE "@ + t.name
}

/// The text of the SELECT-all statement for a table.
pub open spec fn select_text(t: TableV) -> Seq<char> {
    "SELECT * FROM "@ + t.name
}

/// The key/value map that a sequence of (column, literal) pairs stands for;
/// of two pairs with one key, the later binding wins.
pub open spec fn pairs_to_map(s: Seq<(Seq<char>, Seq<char>)>) -> Map<Seq<char>, Seq<char>>
    decreases s.len(),
{
    if s.len() == 0 {
        Map::empty()
    } else {
        pairs_to_map(s.drop_last()).insert(s.last().0, s.last().1)
    }
}

/// The character sequences of a vector of string pairs.
pub open spec fn pairs_view(s: Seq<(String, String)>) -> Seq<(Seq<char>, Seq<char>)> {
    s.map_values(|p: (String, String)| (p.0@, p.1@))
}

/// The names of the attributes that carry a value in `m`, in declaration
/// order.
pub open spec fn filtered_cols(attrs: Seq<AttrV>, m: Map<Seq<char>, Seq<char>>) -> Seq<Seq<char>>
    decreases attrs.len(),
{
    if attrs.len() == 0 {
        Seq::empty()
    } else {
        let rest = filtered_cols(attrs.drop_last(), m);
        if m.contains_key(attrs.last().name) {
            rest.push(attrs.last().name)
        } else {
            rest
        }
    }
}

/// The values of those same attributes, in the same order.
pub open spec fn filtered_vals(attrs: Seq<AttrV>, m: Map<Seq<char>, Seq<char>>) -> Seq<Seq<char>>
    decreases attrs.len(),
{
    if attrs.len() == 0 {
        Seq::empty()
    } else {
        let rest = filtered_vals(attrs.drop_last(), m);
        if m.contains_key(attrs.last().name) {
            rest.push(m[attrs.last().name])
        } else {
            rest
        }
    }
}

/// The text of the INSERT statement for a table and a value map: the
/// attributes that carry a value, filtered in declaration order; the empty
/// result when none does. Values pass through verbatim.
pub open spec fn insert_text(t: TableV, m: Map<Seq<char>, Seq<char>>) -> Option<Seq<char>> {
    let cols = filtered_cols(t.attributes, m);
    if cols.len() == 0 {
        None
    } else {
        Some(
            "INSERT INTO "@ + t.name + "("@ + join_sep(cols, ","@) + ") VALUES ("@ + join_sep(
                filtered_vals(t.attributes, m),
                ","@,
            ) + ")"@,
        )
    }
}

/// The foreign keys of a table: for each attribute that carries one, the
/// referenced table's and attribute's names, in declaration order.
pub open spec fn fks_of(attrs: Seq<AttrV>) -> Seq<(Seq<char>, Seq<char>)>
    decreases attrs.len(),
{
    if attrs.len() == 0 {
        Seq::empty()
    } else {
        let rest = fks_of(attrs.drop_last());
        match fk_target(attrs.last().constraint) {
            Some(c) => rest.push(
                (c->ForeignKey_table_name, c->ForeignKey_attribute_name),
            ),
            None => rest,
        }
    }
}

/// The outcome of building a table from its metadata rows: the surviving
/// attributes in row order, and the position, among them, of the row
/// classified `"PRI"`.
pub open spec fn spec_build(rows: Seq<RowV>, def: Seq<char>) -> Result<
    (Seq<AttrV>, Option<int>),
    ReflectError,
>
    decreases rows.len(),
{
    if rows.len() == 0 {
        Ok((Seq::empty(), None))
    } else {
        match spec_build(rows.drop_last(), def) {
            Err(e) => Err(e),
            Ok((attrs, pk)) => match spec_attr_of_row(rows.last(), def) {
                Err(e) => Err(e),
                Ok(None) => Ok((attrs, pk)),
                Ok(Some(a)) => Ok(
                    (
                        attrs.push(a),
                        if rows.last().key == "PRI"@ {
                            Some(attrs.len() as int)
                        } else {
                            pk
                        },
                    ),
                ),
            },
        }
    }
}

/// The row values of a metadata-row vector.
pub open spec fn rows_view(s: Seq<MetadataRow>) -> Seq<RowV> {
    s.map_values(|r: MetadataRow| r@)
}

/// A build that has failed on some prefix of the rows stays failed on every
/// longer prefix.
proof fn lemma_build_err_persists(rows: Seq<RowV>, def: Seq<char>, i: int, j: int)
    requires
        0 <= i <= j <= rows.len(),
        spec_build(rows.take(i), def) is Err,
    ensures
        spec_build(rows.take(j), def) is Err,
    decreases j - i,
{
    if j > i {
        lemma_build_err_persists(rows, def, i, j - 1);
        assert(rows.take(j).drop_last() =~= rows.take(j - 1));
    }
}

/// The value bound to `key` in the map the pairs stand for; of two bindings
/// the later wins.
fn lookup(values: &Vec<(String, String)>, key: &String) -> (r: Option<String>)
    ensures
        match r {
            Some(v) => {
                &&& pairs_to_map(pairs_view(values@)).contains_key(key@)
                &&& v@ == pairs_to_map(pairs_view(values@))[key@]
            },
            None => !pairs_to_map(pairs_view(values@)).contains_key(key@),
        },
{
    let ghost m = pairs_to_map(pairs_view(values@));
    let mut found: Option<usize> = None;
    let mut i: usize = 0;
    while i < values.len()
        invariant
            0 <= i <= values@.len(),
            match found {
                Some(t) => {
                    &&& t < i
                    &&& pairs_to_map(pairs_view(values@.take(i as int))).contains_key(key@)
                    &&& values@[t as int].1@ == pairs_to_map(pairs_view(values@.take(i as int)))[key@]
                },
                None => !pairs_to_map(pairs_view(values@.take(i as int))).contains_key(key@),
            },
        decreases values@.len() - i,
    {
        proof {
            assert(pairs_view(values@.take(i + 1)).drop_last() =~= pairs_view(
                values@.take(i as int),
            ));
            assert(pairs_view(values@.take(i + 1)).last() == (values@[i as int].0@, values@[i as int].1@));
        }
        if str_is(&values[i].0, key.as_str()) {
            found = Some(i);
        }
        i = i + 1;
    }
    proof {
        assert(values@.take(values@.len() as int) =~= values@);
    }
    match found {
        Some(t) => Some(values[t].1.clone()),
        None => None,
    }
}

impl Table {
    /// The text of the CREATE TABLE statement for this table, as
    /// `create_text` states it.
    pub fn render_create(&self) -> (r: String)
        requires
            self@.wf(),
        ensures
            r@ == create_text(self@),
    {
        let ghost texts = attrs_texts(self@.attributes);
        let mut out = String::from_str("CREATE TABLE ");
        out.append(self.name.as_str());
        out.append(" (");
        let ghost head = "CREATE TABLE "@ + self@.name + " ("@;
        proof {
            assert(out@ =~= head);
        }
        let mut i: usize = 0;
        while i < self.attributes.len()
            invariant
                self@.wf(),
                texts == attrs_texts(self@.attributes),
                head == "CREATE TABLE "@ + self@.name + " ("@,
                0 <= i <= self.attributes@.len(),
                out@ == head + join_sep(texts.take(i as int), ","@),
            decreases self.attributes@.len() - i,
        {
            if i > 0 {
                out.append(",");
            }
            let t = self.attributes[i].render();
            out.append(t.as_str());
            proof {
                assert(texts.take(i + 1).drop_last() =~= texts.take(i as int));
                assert(texts.take(i + 1).last() == attr_text(self@.attributes[i as int]));
                if i == 0 {
                    assert(join_sep(texts.take(1), ","@) == texts[0]);
                }
                assert(out@ =~= head + join_sep(texts.take(i + 1), ","@));
            }
            i = i + 1;
        }
        proof {
            assert(texts.take(texts.len() as int) =~= texts);
        }
        match self.primary_key {
            Some(idx) => {
                out.append(", PRIMARY KEY(");
                out.append(self.attributes[idx].name.as_str());
                out.append(")");
            },
            None => {},
        }
        out.append(")");
        proof {
            assert(out@ =~= create_text(self@));
        }
        out
    }

    /// The text of the DROP TABLE statement for this table.
    pub fn render_drop(&self) -> (r: String)
        ensures
            r@ == drop_text(self@),
    {
        let r = String::from_str("DROP TABLE ").concat(self.name.as_str());
        proof {
            assert(r@ =~= drop_text(self@));
        }
        r
    }

    /// The text of the SELECT-all statement for this table.
    pub fn render_select_all(&self) -> (r: String)
        ensures
            r@ == select_text(self@),
    {
        let r = String::from_str("SELECT * FROM ").concat(self.name.as_str());
        proof {
            assert(r@ =~= select_text(self@));
        }
        r
    }

    /// The text of the INSERT statement for this table and the given
    /// (column, literal) pairs, as `insert_text` states it over the map the
    /// pairs stand for: the columns that carry a value, in declaration
    /// order, with their values verbatim; the empty result when no column
    /// carries one.
    pub fn insert(&self, values: &Vec<(String, String)>) -> (r: Option<String>)
        ensures
            match r {
                Some(s) => {
                    &&& insert_text(self@, pairs_to_map(pairs_view(values@))) is Some
                    &&& s@ == insert_text(self@, pairs_to_map(pairs_view(values@))).unwrap()
                },
                None => insert_text(self@, pairs_to_map(pairs_view(values@))) is None,
            },
    {
        let ghost m = pairs_to_map(pairs_view(values@));
        let ghost attrs = self@.attributes;
        let mut cols = String::new();
        let mut vals = String::new();
        let mut any = false;
        let mut i: usize = 0;
        while i < self.attributes.len()
            invariant
                m == pairs_to_map(pairs_view(values@)),
                attrs == attrs_view(self.attributes@),
                0 <= i <= self.attributes@.len(),
                any == (filtered_cols(attrs.take(i as int), m).len() > 0),
                filtered_cols(attrs.take(i as int), m).len() == filtered_vals(
                    attrs.take(i as int),
                    m,
                ).len(),
                cols@ == join_sep(filtered_cols(attrs.take(i as int), m), ","@),
                vals@ == join_sep(filtered_vals(attrs.take(i as int), m), ","@),
            decreases self.attributes@.len() - i,
        {
            proof {
                assert(attrs.take(i + 1).drop_last() =~= attrs.take(i as int));
                assert(attrs.take(i + 1).last() == attrs[i as int]);
            }
            match lookup(values, &self.attributes[i].name) {
                Some(v) => {
                    if any {
                        cols.append(",");
                        vals.append(",");
                    }
                    cols.append(self.attributes[i].name.as_str());
                    vals.append(v.as_str());
                    proof {
                        let pc = filtered_cols(attrs.take(i as int), m);
                        let pv = filtered_vals(attrs.take(i as int), m);
                        let fc = filtered_cols(attrs.take(i + 1), m);
                        let fv = filtered_vals(attrs.take(i + 1), m);
                        assert(fc == pc.push(attrs[i as int].name));
                        assert(fv == pv.push(m[attrs[i as int].name]));
                        assert(fc.drop_last() =~= pc);
                        assert(fv.drop_last() =~= pv);
                        if !any {
                            assert(fc == seq![attrs[i as int].name]);
                            assert(fv == seq![m[attrs[i as int].name]]);
                            assert(join_sep(fc, ","@) == fc[0]);
                            assert(join_sep(fv, ","@) == fv[0]);
                        }
                        assert(cols@ =~= join_sep(fc, ","@));
                        assert(vals@ =~= join_sep(fv, ","@));
                    }
                    any = true;
                },
                None => {},
            }
            i = i + 1;
        }
        proof {
            assert(attrs.take(attrs.len() as int) =~= attrs);
        }
        if !any {
            return None;
        }
        let mut out = String::from_str("INSERT INTO ");
        out.append(self.name.as_str());
        out.append("(");
        out.append(cols.as_str());
        out.append(") VALUES (");
        out.append(vals.as_str());
        out.append(")");
        proof {
            assert(out@ =~= insert_text(self@, m).unwrap());
        }
        Some(out)
    }

    /// The foreign keys of this table, in declaration order: the referenced
    /// table's and attribute's names of each attribute that carries one;
    /// `None` when no attribute does.
    pub fn get_foreign_keys(&self) -> (r: Option<Vec<(String, String)>>)
        ensures
            match r {
                Some(v) => {
                    &&& fks_of(self@.attributes).len() == v@.len()
                    &&& v@.len() > 0
                    &&& forall|j: int|
                        0 <= j < v@.len() ==> (#[trigger] v@[j]).0@ == fks_of(
                            self@.attributes,
                        )[j].0 && v@[j].1@ == fks_of(self@.attributes)[j].1
                },
                None => fks_of(self@.attributes).len() == 0,
            },
    {
        let ghost attrs = self@.attributes;
        let mut out: Vec<(String, String)> = Vec::new();
        let mut i: usize = 0;
        while i < self.attributes.len()
            invariant
                attrs == attrs_view(self.attributes@),
                0 <= i <= self.attributes@.len(),
                out@.len() == fks_of(attrs.take(i as int)).len(),
                forall|j: int|
                    0 <= j < out@.len() ==> (#[trigger] out@[j]).0@ == fks_of(
                        attrs.take(i as int),
                    )[j].0 && out@[j].1@ == fks_of(attrs.take(i as int))[j].1,
            decreases self.attributes@.len() - i,
        {
            proof {
                assert(attrs.take(i + 1).drop_last() =~= attrs.take(i as int));
                assert(attrs.take(i + 1).last() == attrs[i as int]);
            }
            match find_fk(&self.attributes[i].constraint) {
                Some(p) => {
                    out.push(p);
                },
                None => {},
            }
            i = i + 1;
        }
        proof {
            assert(attrs.take(attrs.len() as int) =~= attrs);
        }
        if out.len() == 0 {
            return None;
        }
        Some(out)
    }

    /// Reflects a table from the rows of its column-listing metadata query
    /// and the definition text of its SHOW CREATE TABLE query. A row whose
    /// type declaration is unrecognized is dropped silently; the recorded
    /// primary-key position indexes the surviving attributes. `None` exactly
    /// when a row classified `"MUL"` has no foreign-key clause in the
    /// definition text.
    pub fn from_db(table_name: &str, rows: &Vec<MetadataRow>, table_def: &str) -> (r: Option<
        Table,
    >)
        ensures
            match spec_build(rows_view(rows@), table_def@) {
                Ok(p) => {
                    &&& r is Some
                    &&& r.unwrap()@.name == table_name@
                    &&& r.unwrap()@.attributes == p.0
                    &&& r.unwrap()@.primary_key == p.1
                    &&& r.unwrap()@.wf()
                },
                Err(_) => r is None,
            },
    {
        let ghost rv = rows_view(rows@);
        let mut attrs: Vec<Attribute> = Vec::new();
        let mut pk: Option<usize> = None;
        proof {
            assert(rv.take(0) =~= Seq::<RowV>::empty());
            assert(attrs_view(attrs@) =~= Seq::<AttrV>::empty());
        }
        let mut i: usize = 0;
        while i < rows.len()
            invariant
                rv == rows_view(rows@),
                0 <= i <= rows@.len(),
                spec_build(rv.take(i as int), table_def@) == Ok::<
                    (Seq<AttrV>, Option<int>),
                    ReflectError,
                >(
                    (
                        attrs_view(attrs@),
                        match pk {
                            Some(t) => Some(t as int),
                            None => None,
                        },
                    ),
                ),
                match pk {
                    Some(t) => t < attrs@.len(),
                    None => true,
                },
            decreases rows@.len() - i,
        {
            proof {
                assert(rv.take(i + 1).drop_last() =~= rv.take(i as int));
                assert(rv.take(i + 1).last() == rows@[i as int]@);
            }
            match Attribute::from_row(&rows[i], table_def) {
                Err(_) => {
                    proof {
                        assert(spec_build(rv.take(i + 1), table_def@) is Err);
                        lemma_build_err_persists(rv, table_def@, i + 1, rv.len() as int);
                        assert(rv.take(rv.len() as int) =~= rv);
                    }
                    return None;
                },
                Ok(None) => {
                    proof {
                        assert(spec_build(rv.take(i + 1), table_def@) == spec_build(
                            rv.take(i as int),
                            table_def@,
                        ));
                    }
                },
                Ok(Some(a)) => {
                    let ghost prev_attrs = attrs_view(attrs@);
                    let ghost prev_pk: Option<int> = match pk {
                        Some(t) => Some(t as int),
                        None => None,
                    };
                    proof {
                        assert(rv[i as int] == rows@[i as int]@);
                        assert(spec_attr_of_row(rv.take(i + 1).last(), table_def@) == Ok::<
                            Option<AttrV>,
                            ReflectError,
                        >(Some(a@)));
                        assert(prev_attrs.len() == attrs@.len());
                    }
                    if str_is(&rows[i].key, "PRI") {
                        pk = Some(attrs.len());
                    }
                    attrs.push(a);
                    proof {
                        assert(attrs_view(attrs@) =~= prev_attrs.push(a@));
                        assert(spec_build(rv.take(i + 1), table_def@) == Ok::<
                            (Seq<AttrV>, Option<int>),
                            ReflectError,
                        >(
                            (
                                prev_attrs.push(a@),
                                if rv.take(i + 1).last().key == "PRI"@ {
                                    Some(prev_attrs.len() as int)
                                } else {
                                    prev_pk
                                },
                            ),
                        ));
                    }
                },
            }
            i = i + 1;
        }
        proof {
            assert(rv.take(rv.len() as int) =~= rv);
        }
        Some(Table { name: String::from_str(table_name), attributes: attrs, primary_key: pk })
    }
}

/// The text of the column-listing metadata query for a table.
pub fn show_columns_stmt(table_name: &str) -> (r: String)
    ensures
        r@ == "SHOW FULL COLUMNS FROM "@ + table_name@,
{
    String::from_str("SHOW FULL COLUMNS FROM ").concat(table_name)
}

/// The text of the table-definition metadata query for a table.
pub fn show_create_stmt(table_name: &str) -> (r: String)
    ensures
        r@ == "SHOW CREATE TABLE `"@ + table_name@ + "`;"@,
{
    let r = String::from_str("SHOW CREATE TABLE `").concat(table_name).concat("`;");
    proof {
        assert(r@ =~= "SHOW CREATE TABLE `"@ + table_name@ + "`;"@);
    }
    r
}

} // verus!
