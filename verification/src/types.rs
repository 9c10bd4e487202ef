//! The closed vocabulary of column types: parsing a raw type-declaration
//! string (as the metadata queries return it, upper-cased) into one variant,
//! and rendering a variant back as declaration text.

use vstd::prelude::*;

use crate::scan::{
    begins_with, digit_run_end, digit_end, lemma_digit_run_end_bounds, parse_num, starts_with_kw,
};
use crate::text::{dec_rep, seq_to_nat};

verus! {

/// One column type of the database engine, with its declared size
/// parameter(s) where the declaration carries any.
#[derive(Clone, Copy, Debug, PartialEq, Eq, Structural)]
pub enum AttributeType {
    Char(u8),
    VarChar(u16),
    Binary(u8),
    VarBinary(u16),
    TinyBlob,
    TinyText,
    Text,
    Blob(u16),
    MediumText,
    MediumBlob,
    LongText,
    LongBlob,
    Bit(u8),
    TinyInt(u8),
    Bool,
    Boolean,
    SmallInt(u8),
    MediumInt(u8),
    Int(u8),
    BigInt(u8),
    Float(u8),
    Decimal(u8, u8),
    Date,
    DateTime,
    TimeStamp,
    Time,
    Year,
}

/// A declaration of the shape `<kw><digits>)` at the start of `s`, where `kw`
/// ends in the opening parenthesis: the numeric argument, if the shape fits.
pub open spec fn sized_arg(s: Seq<char>, kw: Seq<char>) -> Option<nat> {
    if begins_with(s, kw) {
        let j = kw.len() as int;
        let k = digit_run_end(s, j);
        if k > j && k < s.len() && s[k] == ')' {
            Some(seq_to_nat(s.subrange(j, k)))
        } else {
            None
        }
    } else {
        None
    }
}

/// A declaration of the shape `<kw><digits>,<digits>)` at the start of `s`:
/// the two numeric arguments, if the shape fits.
pub open spec fn sized_arg2(s: Seq<char>, kw: Seq<char>) -> Option<(nat, nat)> {
    if begins_with(s, kw) {
        let j = kw.len() as int;
        let k = digit_run_end(s, j);
        if k > j && k < s.len() && s[k] == ',' {
            let m = digit_run_end(s, k + 1);
            if m > k + 1 && m < s.len() && s[m] == ')' {
                Some((seq_to_nat(s.subrange(j, k)), seq_to_nat(s.subrange(k + 1, m))))
            } else {
                None
            }
        } else {
            None
        }
    } else {
        None
    }
}

/// The parse of an upper-cased raw type declaration: the patterns of the
/// vocabulary are tried in a fixed order, each anchored at the start of the
/// input, the more specific keyword before any keyword that is a prefix of
/// it. A numeric argument above the variant's declared width is refused, not
/// clamped; an input that no pattern matches has no parse.
pub open spec fn parse_type(s: Seq<char>) -> Option<AttributeType> {
    if sized_arg(s, "CHAR("@).is_some() {
        fit_u8(sized_arg(s, "CHAR("@).unwrap(), |w: u8| AttributeType::Char(w))
    } else if sized_arg(s, "VARCHAR("@).is_some() {
        fit_u16(sized_arg(s, "VARCHAR("@).unwrap(), |w: u16| AttributeType::VarChar(w))
    } else if sized_arg(s, "BINARY("@).is_some() {
        fit_u8(sized_arg(s, "BINARY("@).unwrap(), |w: u8| AttributeType::Binary(w))
    } else if sized_arg(s, "VARBINARY("@).is_some() {
        fit_u16(sized_arg(s, "VARBINARY("@).unwrap(), |w: u16| AttributeType::VarBinary(w))
    } else if begins_with(s, "TINYBLOB"@) {
        Some(AttributeType::TinyBlob)
    } else if begins_with(s, "TINYTEXT"@) {
        Some(AttributeType::TinyText)
    } else if begins_with(s, "TEXT"@) {
        Some(AttributeType::Text)
    } else if sized_arg(s, "BLOB("@).is_some() {
        fit_u16(sized_arg(s, "BLOB("@).unwrap(), |w: u16| AttributeType::Blob(w))
    } else if begins_with(s, "MEDIUMTEXT"@) {
        Some(AttributeType::MediumText)
    } else if begins_with(s, "MEDIUMBLOB"@) {
        Some(AttributeType::MediumBlob)
    } else if begins_with(s, "LONGTEXT"@) {
        Some(AttributeType::LongText)
    } else if begins_with(s, "LONGBLOB"@) {
        Some(AttributeType::LongBlob)
    } else if sized_arg(s, "BIT("@).is_some() {
        fit_u8(sized_arg(s, "BIT("@).unwrap(), |w: u8| AttributeType::Bit(w))
    } else if sized_arg(s, "TINYINT("@).is_some() {
        fit_u8(sized_arg(s, "TINYINT("@).unwrap(), |w: u8| AttributeType::TinyInt(w))
    } else if begins_with(s, "BOOLEAN"@) {
        Some(AttributeType::Boolean)
    } else if begins_with(s, "BOOL"@) {
        Some(AttributeType::Bool)
    } else if sized_arg(s, "SMALLINT("@).is_some() {
        fit_u8(sized_arg(s, "SMALLINT("@).unwrap(), |w: u8| AttributeType::SmallInt(w))
    } else if sized_arg(s, "MEDIUMINT("@).is_some() {
        fit_u8(sized_arg(s, "MEDIUMINT("@).unwrap(), |w: u8| AttributeType::MediumInt(w))
    } else if sized_arg(s, "INTEGER("@).is_some() {
        fit_u8(sized_arg(s, "INTEGER("@).unwrap(), |w: u8| AttributeType::Int(w))
    } else if sized_arg(s, "INT("@).is_some() {
        fit_u8(sized_arg(s, "INT("@).unwrap(), |w: u8| AttributeType::Int(w))
    } else if sized_arg(s, "BIGINT("@).is_some() {
        fit_u8(sized_arg(s, "BIGINT("@).unwrap(), |w: u8| AttributeType::BigInt(w))
    } else if sized_arg(s, "FLOAT("@).is_some() {
        fit_u8(sized_arg(s, "FLOAT("@).unwrap(), |w: u8| AttributeType::Float(w))
    } else if sized_arg2(s, "DECIMAL("@).is_some() {
        let pair = sized_arg2(s, "DECIMAL("@).unwrap();
        if pair.0 <= u8::MAX && pair.1 <= u8::MAX {
            Some(AttributeType::Decimal(pair.0 as u8, pair.1 as u8))
        } else {
            None
        }
    } else if begins_with(s, "DATETIME"@) {
        Some(AttributeType::DateTime)
    } else if begins_with(s, "DATE"@) {
        Some(AttributeType::Date)
    } else if begins_with(s, "TIMESTAMP"@) {
        Some(AttributeType::TimeStamp)
    } else if begins_with(s, "TIME"@) {
        Some(AttributeType::Time)
    } else if begins_with(s, "YEAR"@) {
        Some(AttributeType::Year)
    } else {
        None
    }
}

/// The numeric argument must fit the variant's one-byte width.
pub open spec fn fit_u8(v: nat, build: spec_fn(u8) -> AttributeType) -> Option<AttributeType> {
    if v <= u8::MAX {
        Some(build(v as u8))
    } else {
        None
    }
}

/// The numeric argument must fit the variant's two-byte width.
pub open spec fn fit_u16(v: nat, build: spec_fn(u16) -> AttributeType) -> Option<AttributeType> {
    if v <= u16::MAX {
        Some(build(v as u16))
    } else {
        None
    }
}

/// The declaration text of a variant, lower-cased, with its numeric
/// parameters interpolated. The spelling of each variant's text is fixed;
/// two variants keep their historical irregular spelling (`decmimal`,
/// `timeStamp`).
pub open spec fn type_text(t: AttributeType) -> Seq<char> {
    match t {
        AttributeType::Char(v) => "char("@ + dec_rep(v as nat) + ")"@,
        AttributeType::VarChar(v) => "varchar("@ + dec_rep(v as nat) + ")"@,
        AttributeType::Binary(v) => "binary("@ + dec_rep(v as nat) + ")"@,
        AttributeType::VarBinary(v) => "varbinary("@ + dec_rep(v as nat) + ")"@,
        AttributeType::TinyBlob => "tinyblob"@,
        AttributeType::TinyText => "tinytext"@,
        AttributeType::Text => "text"@,
        AttributeType::Blob(v) => "blob("@ + dec_rep(v as nat) + ")"@,
        AttributeType::MediumText => "mediumtext"@,
        AttributeType::MediumBlob => "mediumblob"@,
        AttributeType::LongText => "longtext"@,
        AttributeType::LongBlob => "longblob"@,
        AttributeType::Bit(v) => "bit("@ + dec_rep(v as nat) + ")"@,
        AttributeType::TinyInt(v) => "tinyint("@ + dec_rep(v as nat) + ")"@,
        AttributeType::Bool => "bool"@,
        AttributeType::Boolean => "boolean"@,
        AttributeType::SmallInt(v) => "smallint("@ + dec_rep(v as nat) + ")"@,
        AttributeType::MediumInt(v) => "mediumint("@ + dec_rep(v as nat) + ")"@,
        AttributeType::Int(v) => "int("@ + dec_rep(v as nat) + ")"@,
        AttributeType::BigInt(v) => "bigint("@ + dec_rep(v as nat) + ")"@,
        AttributeType::Float(v) => "float("@ + dec_rep(v as nat) + ")"@,
        AttributeType::Decimal(a, b) => "decmimal("@ + dec_rep(a as nat) + ","@ + dec_rep(b as nat)
            + ")"@,
        AttributeType::Date => "date"@,
        AttributeType::DateTime => "datetime"@,
        AttributeType::TimeStamp => "timeStamp"@,
        AttributeType::Time => "time"@,
        AttributeType::Year => "year"@,
    }
}

/// Tries the shape `<kw><digits>)` at the start of `s`. The outer `None`
/// means the shape does not fit; `Some(None)` means it fits but the number
/// is above `bound`.
fn try_sized(s: &str, kw: &str, bound: u32) -> (r: Option<Option<u32>>)
    ensures
        r.is_some() == sized_arg(s@, kw@).is_some(),
        match r {
            Some(Some(v)) => v <= bound && v as nat == sized_arg(s@, kw@).unwrap(),
            Some(None) => sized_arg(s@, kw@).unwrap() > bound,
            None => true,
        },
{
    if !starts_with_kw(s, kw) {
        return None;
    }
    let j = kw.unicode_len();
    let k = digit_end(s, j);
    if k == j {
        return None;
    }
    let n = s.unicode_len();
    if k >= n {
        return None;
    }
    if s.get_char(k) != ')' {
        return None;
    }
    proof {
        lemma_digit_run_end_bounds(s@, j as int);
    }
    match parse_num(s, j, k, bound) {
        Some(v) => Some(Some(v)),
        None => Some(None),
    }
}

/// Tries the shape `<kw><digits>,<digits>)` at the start of `s`, as
/// `try_sized` does for the one-number shape.
fn try_sized2(s: &str, kw: &str, bound: u32) -> (r: Option<Option<(u32, u32)>>)
    ensures
        r.is_some() == sized_arg2(s@, kw@).is_some(),
        match r {
            Some(Some(p)) => {
                &&& p.0 <= bound
                &&& p.1 <= bound
                &&& p.0 as nat == sized_arg2(s@, kw@).unwrap().0
                &&& p.1 as nat == sized_arg2(s@, kw@).unwrap().1
            },
            Some(None) => sized_arg2(s@, kw@).unwrap().0 > bound || sized_arg2(
                s@,
                kw@,
            ).unwrap().1 > bound,
            None => true,
        },
{
    if !starts_with_kw(s, kw) {
        return None;
    }
    let j = kw.unicode_len();
    let k = digit_end(s, j);
    if k == j {
        return None;
    }
    let n = s.unicode_len();
    if k >= n {
        return None;
    }
    if s.get_char(k) != ',' {
        return None;
    }
    let m = digit_end(s, k + 1);
    if m == k + 1 {
        return None;
    }
    if m >= n {
        return None;
    }
    if s.get_char(m) != ')' {
        return None;
    }
    proof {
        lemma_digit_run_end_bounds(s@, j as int);
        lemma_digit_run_end_bounds(s@, k + 1);
    }
    let first = parse_num(s, j, k, bound);
    let second = parse_num(s, k + 1, m, bound);
    match (first, second) {
        (Some(a), Some(b)) => Some(Some((a, b))),
        _ => Some(None),
    }
}

impl AttributeType {
    /// Parses an upper-cased raw type-declaration string into the variant
    /// whose pattern matches at the start of the input; `None` when no
    /// pattern of the vocabulary matches, or when a numeric argument is
    /// wider than the variant declares.
    pub fn from(raw: &str) -> (r: Option<AttributeType>)
        ensures
            r == parse_type(raw@),
    {
        match try_sized(raw, "CHAR(", 255) {
            Some(o) => {
                return match o {
                    Some(v) => Some(AttributeType::Char(v as u8)),
                    None => None,
                };
            },
            None => {},
        }
        match try_sized(raw, "VARCHAR(", 65535) {
            Some(o) => {
                return match o {
                    Some(v) => Some(AttributeType::VarChar(v as u16)),
                    None => None,
                };
            },
            None => {},
        }
        match try_sized(raw, "BINARY(", 255) {
            Some(o) => {
                return match o {
                    Some(v) => Some(AttributeType::Binary(v as u8)),
                    None => None,
                };
            },
            None => {},
        }
        match try_sized(raw, "VARBINARY(", 65535) {
            Some(o) => {
                return match o {
                    Some(v) => Some(AttributeType::VarBinary(v as u16)),
                    None => None,
                };
            },
            None => {},
        }
        if starts_with_kw(raw, "TINYBLOB") {
            return Some(AttributeType::TinyBlob);
        }
        if starts_with_kw(raw, "TINYTEXT") {
            return Some(AttributeType::TinyText);
        }
        if starts_with_kw(raw, "TEXT") {
            return Some(AttributeType::Text);
        }
        match try_sized(raw, "BLOB(", 65535) {
            Some(o) => {
                return match o {
                    Some(v) => Some(AttributeType::Blob(v as u16)),
                    None => None,
                };
            },
            None => {},
        }
        if starts_with_kw(raw, "MEDIUMTEXT") {
            return Some(AttributeType::MediumText);
        }
        if starts_with_kw(raw, "MEDIUMBLOB") {
            return Some(AttributeType::MediumBlob);
        }
        if starts_with_kw(raw, "LONGTEXT") {
            return Some(AttributeType::LongText);
        }
        if starts_with_kw(raw, "LONGBLOB") {
            return Some(AttributeType::LongBlob);
        }
        match try_sized(raw, "BIT(", 255) {
            Some(o) => {
                return match o {
                    Some(v) => Some(AttributeType::Bit(v as u8)),
                    None => None,
                };
            },
            None => {},
        }
        match try_sized(raw, "TINYINT(", 255) {
            Some(o) => {
                return match o {
                    Some(v) => Some(AttributeType::TinyInt(v as u8)),
                    None => None,
                };
            },
            None => {},
        }
        if starts_with_kw(raw, "BOOLEAN") {
            return Some(AttributeType::Boolean);
        }
        if starts_with_kw(raw, "BOOL") {
            return Some(AttributeType::Bool);
        }
        match try_sized(raw, "SMALLINT(", 255) {
            Some(o) => {
                return match o {
                    Some(v) => Some(AttributeType::SmallInt(v as u8)),
                    None => None,
                };
            },
            None => {},
        }
        match try_sized(raw, "MEDIUMINT(", 255) {
            Some(o) => {
                return match o {
                    Some(v) => Some(AttributeType::MediumInt(v as u8)),
                    None => None,
                };
            },
            None => {},
        }
        match try_sized(raw, "INTEGER(", 255) {
            Some(o) => {
                return match o {
                    Some(v) => Some(AttributeType::Int(v as u8)),
                    None => None,
                };
            },
            None => {},
        }
        match try_sized(raw, "INT(", 255) {
            Some(o) => {
                return match o {
                    Some(v) => Some(AttributeType::Int(v as u8)),
                    None => None,
                };
            },
            None => {},
        }
        match try_sized(raw, "BIGINT(", 255) {
            Some(o) => {
                return match o {
                    Some(v) => Some(AttributeType::BigInt(v as u8)),
                    None => None,
                };
            },
            None => {},
        }
        match try_sized(raw, "FLOAT(", 255) {
            Some(o) => {
                return match o {
                    Some(v) => Some(AttributeType::Float(v as u8)),
                    None => None,
                };
            },
            None => {},
        }
        match try_sized2(raw, "DECIMAL(", 255) {
            Some(o) => {
                return match o {
                    Some(p) => Some(AttributeType::Decimal(p.0 as u8, p.1 as u8)),
                    None => None,
                };
            },
            None => {},
        }
        if starts_with_kw(raw, "DATETIME") {
            return Some(AttributeType::DateTime);
        }
        if starts_with_kw(raw, "DATE") {
            return Some(AttributeType::Date);
        }
        if starts_with_kw(raw, "TIMESTAMP") {
            return Some(AttributeType::TimeStamp);
        }
        if starts_with_kw(raw, "TIME") {
            return Some(AttributeType::Time);
        }
        if starts_with_kw(raw, "YEAR") {
            return Some(AttributeType::Year);
        }
        None
    }

    /// The declaration text of this variant, as `type_text` states it.
    pub fn render(&self) -> (r: String)
        ensures
            r@ == type_text(*self),
    {
        let r = match self {
            AttributeType::Char(v) => String::from_str("char(").concat(
                crate::text::fmt_u16(*v as u16).as_str(),
            ).concat(")"),
            AttributeType::VarChar(v) => String::from_str("varchar(").concat(
                crate::text::fmt_u16(*v).as_str(),
            ).concat(")"),
            AttributeType::Binary(v) => String::from_str("binary(").concat(
                crate::text::fmt_u16(*v as u16).as_str(),
            ).concat(")"),
            AttributeType::VarBinary(v) => String::from_str("varbinary(").concat(
                crate::text::fmt_u16(*v).as_str(),
            ).concat(")"),
            AttributeType::TinyBlob => String::from_str("tinyblob"),
            AttributeType::TinyText => String::from_str("tinytext"),
            AttributeType::Text => String::from_str("text"),
            AttributeType::Blob(v) => String::from_str("blob(").concat(
                crate::text::fmt_u16(*v).as_str(),
            ).concat(")"),
            AttributeType::MediumText => String::from_str("mediumtext"),
            AttributeType::MediumBlob => String::from_str("mediumblob"),
            AttributeType::LongText => String::from_str("longtext"),
            AttributeType::LongBlob => String::from_str("longblob"),
            AttributeType::Bit(v) => String::from_str("bit(").concat(
                crate::text::fmt_u16(*v as u16).as_str(),
            ).concat(")"),
            AttributeType::TinyInt(v) => String::from_str("tinyint(").concat(
                crate::text::fmt_u16(*v as u16).as_str(),
            ).concat(")"),
            AttributeType::Bool => String::from_str("bool"),
            AttributeType::Boolean => String::from_str("boolean"),
            AttributeType::SmallInt(v) => String::from_str("smallint(").concat(
                crate::text::fmt_u16(*v as u16).as_str(),
            ).concat(")"),
            AttributeType::MediumInt(v) => String::from_str("mediumint(").concat(
                crate::text::fmt_u16(*v as u16).as_str(),
            ).concat(")"),
            AttributeType::Int(v) => String::from_str("int(").concat(
                crate::text::fmt_u16(*v as u16).as_str(),
            ).concat(")"),
            AttributeType::BigInt(v) => String::from_str("bigint(").concat(
                crate::text::fmt_u16(*v as u16).as_str(),
            ).concat(")"),
            AttributeType::Float(v) => String::from_str("float(").concat(
                crate::text::fmt_u16(*v as u16).as_str(),
            ).concat(")"),
            AttributeType::Decimal(a, b) => String::from_str("decmimal(").concat(
                crate::text::fmt_u16(*a as u16).as_str(),
            ).concat(",").concat(crate::text::fmt_u16(*b as u16).as_str()).concat(")"),
            AttributeType::Date => String::from_str("date"),
            AttributeType::DateTime => String::from_str("datetime"),
            AttributeType::TimeStamp => String::from_str("timeStamp"),
            AttributeType::Time => String::from_str("time"),
            AttributeType::Year => String::from_str("year"),
        };
        proof {
            assert(r@ =~= type_text(*self));
        }
        r
    }
}

} // verus!
