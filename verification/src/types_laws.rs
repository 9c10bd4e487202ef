//! The laws of the type parser: determinism, refusal of unrecognized
//! declarations, and the parse/render round trip.

use vstd::prelude::*;

use crate::scan::{begins_with, lemma_digit_run_end, lemma_not_prefix_at};
use crate::text::{
    dec_rep, is_digit, lemma_dec_rep_digits, lemma_dec_rep_value, lemma_up_seq_concat,
    lemma_up_seq_digits, seq_to_nat, up_seq,
};
use crate::types::{parse_type, sized_arg, sized_arg2, type_text, AttributeType};

verus! {

/// A declaration string that some pattern of the vocabulary matches, with
/// numeric arguments inside the matched variant's width.
pub open spec fn recognized(s: Seq<char>) -> bool {
    ||| sized_u8_ok(s, "CHAR("@)
    ||| sized_u16_ok(s, "VARCHAR("@)
    ||| sized_u8_ok(s, "BINARY("@)
    ||| sized_u16_ok(s, "VARBINARY("@)
    ||| begins_with(s, "TINYBLOB"@)
    ||| begins_with(s, "TINYTEXT"@)
    ||| begins_with(s, "TEXT"@)
    ||| sized_u16_ok(s, "BLOB("@)
    ||| begins_with(s, "MEDIUMTEXT"@)
    ||| begins_with(s, "MEDIUMBLOB"@)
    ||| begins_with(s, "LONGTEXT"@)
    ||| begins_with(s, "LONGBLOB"@)
    ||| sized_u8_ok(s, "BIT("@)
    ||| sized_u8_ok(s, "TINYINT("@)
    ||| begins_with(s, "BOOLEAN"@)
    ||| begins_with(s, "BOOL"@)
    ||| sized_u8_ok(s, "SMALLINT("@)
    ||| sized_u8_ok(s, "MEDIUMINT("@)
    ||| sized_u8_ok(s, "INTEGER("@)
    ||| sized_u8_ok(s, "INT("@)
    ||| sized_u8_ok(s, "BIGINT("@)
    ||| sized_u8_ok(s, "FLOAT("@)
    ||| decimal_ok(s)
    ||| begins_with(s, "DATETIME"@)
    ||| begins_with(s, "DATE"@)
    ||| begins_with(s, "TIMESTAMP"@)
    ||| begins_with(s, "TIME"@)
    ||| begins_with(s, "YEAR"@)
}

pub open spec fn sized_u8_ok(s: Seq<char>, kw: Seq<char>) -> bool {
    sized_arg(s, kw).is_some() && sized_arg(s, kw).unwrap() <= u8::MAX
}

pub open spec fn sized_u16_ok(s: Seq<char>, kw: Seq<char>) -> bool {
    sized_arg(s, kw).is_some() && sized_arg(s, kw).unwrap() <= u16::MAX
}

pub open spec fn decimal_ok(s: Seq<char>) -> bool {
    sized_arg2(s, "DECIMAL("@).is_some() && sized_arg2(s, "DECIMAL("@).unwrap().0 <= u8::MAX
        && sized_arg2(s, "DECIMAL("@).unwrap().1 <= u8::MAX
}

/// The parse depends on the characters of the input alone: equal inputs
/// parse to the identical variant.
pub proof fn lemma_parse_deterministic(s1: Seq<char>, s2: Seq<char>)
    requires
        s1 =~= s2,
    ensures
        parse_type(s1) == parse_type(s2),
{
    assert(s1 == s2);
}

/// An unrecognized declaration has no parse at all: no best-guess variant.
pub proof fn lemma_unrecognized_is_none(s: Seq<char>)
    requires
        !recognized(s),
    ensures
        parse_type(s) is None,
{
}

/// The text `<kw><digits>)` carries the digits' value as its argument.
proof fn lemma_sized_arg_built(kw: Seq<char>, digits: Seq<char>)
    requires
        digits.len() >= 1,
        forall|i: int| 0 <= i < digits.len() ==> is_digit(#[trigger] digits[i]),
    ensures
        sized_arg(kw + digits + ")"@, kw) == Some(seq_to_nat(digits)),
{
    let u = kw + digits + ")"@;
    reveal_strlit(")");
    assert(")"@.len() == 1);
    assert forall|i: int| 0 <= i < kw.len() implies u[i] == kw[i] by {}
    assert(begins_with(u, kw));
    let j = kw.len() as int;
    let k = j + digits.len();
    assert forall|i: int| j <= i < k implies is_digit(#[trigger] u[i]) by {
        assert(u[i] == digits[i - j]);
    }
    assert(u[k] == ')');
    assert(!is_digit(')'));
    lemma_digit_run_end(u, j, k);
    assert(u.subrange(j, k) =~= digits);
}

/// A keyword that is longer than `u`, or differs from it at one position,
/// does not match at the start of `u`.
proof fn skip_bare(u: Seq<char>, kw: Seq<char>, i: int)
    requires
        kw.len() > u.len() || (0 <= i < kw.len() && i < u.len() && u[i] != kw[i]),
    ensures
        !begins_with(u, kw),
{
    if kw.len() <= u.len() {
        lemma_not_prefix_at(u, kw, i);
    }
}

proof fn skip_sized(u: Seq<char>, kw: Seq<char>, i: int)
    requires
        kw.len() > u.len() || (0 <= i < kw.len() && i < u.len() && u[i] != kw[i]),
    ensures
        sized_arg(u, kw) is None,
{
    skip_bare(u, kw, i);
}

proof fn skip_sized2(u: Seq<char>, kw: Seq<char>, i: int)
    requires
        kw.len() > u.len() || (0 <= i < kw.len() && i < u.len() && u[i] != kw[i]),
    ensures
        sized_arg2(u, kw) is None,
{
    skip_bare(u, kw, i);
}

proof fn rt_char(v: u8)
    ensures
        parse_type(up_seq(type_text(AttributeType::Char(v)))) == Some(AttributeType::Char(v)),
{
    reveal_strlit("char(");
    reveal_strlit("CHAR(");
    reveal_strlit(")");
    let d = dec_rep(v as nat);
    lemma_dec_rep_digits(v as nat);
    lemma_dec_rep_value(v as nat);
    lemma_up_seq_concat("char("@ + d, ")"@);
    lemma_up_seq_concat("char("@, d);
    lemma_up_seq_digits(d);
    assert(up_seq("char("@) =~= "CHAR("@);
    assert(up_seq(")"@) =~= ")"@);
    let u = up_seq(type_text(AttributeType::Char(v)));
    assert(u =~= "CHAR("@ + d + ")"@);
    lemma_sized_arg_built("CHAR("@, d);
    assert(parse_type(u) == Some(AttributeType::Char(v)));
}

proof fn rt_varchar(v: u16)
    ensures
        parse_type(up_seq(type_text(AttributeType::VarChar(v)))) == Some(AttributeType::VarChar(v)),
{
    reveal_strlit("varchar(");
    reveal_strlit("VARCHAR(");
    reveal_strlit(")");
    reveal_strlit("CHAR(");
    let d = dec_rep(v as nat);
    lemma_dec_rep_digits(v as nat);
    lemma_dec_rep_value(v as nat);
    lemma_up_seq_concat("varchar("@ + d, ")"@);
    lemma_up_seq_concat("varchar("@, d);
    lemma_up_seq_digits(d);
    assert(up_seq("varchar("@) =~= "VARCHAR("@);
    assert(up_seq(")"@) =~= ")"@);
    let u = up_seq(type_text(AttributeType::VarChar(v)));
    assert(u =~= "VARCHAR("@ + d + ")"@);
    assert(u[0] == 'V');
    lemma_sized_arg_built("VARCHAR("@, d);
    skip_sized(u, "CHAR("@, 0);
    assert(parse_type(u) == Some(AttributeType::VarChar(v)));
}

proof fn rt_binary(v: u8)
    ensures
        parse_type(up_seq(type_text(AttributeType::Binary(v)))) == Some(AttributeType::Binary(v)),
{
    reveal_strlit("binary(");
    reveal_strlit("BINARY(");
    reveal_strlit(")");
    reveal_strlit("CHAR(");
    reveal_strlit("VARCHAR(");
    let d = dec_rep(v as nat);
    lemma_dec_rep_digits(v as nat);
    lemma_dec_rep_value(v as nat);
    lemma_up_seq_concat("binary("@ + d, ")"@);
    lemma_up_seq_concat("binary("@, d);
    lemma_up_seq_digits(d);
    assert(up_seq("binary("@) =~= "BINARY("@);
    assert(up_seq(")"@) =~= ")"@);
    let u = up_seq(type_text(AttributeType::Binary(v)));
    assert(u =~= "BINARY("@ + d + ")"@);
    assert(u[0] == 'B');
    lemma_sized_arg_built("BINARY("@, d);
    skip_sized(u, "CHAR("@, 0);
    skip_sized(u, "VARCHAR("@, 0);
    assert(parse_type(u) == Some(AttributeType::Binary(v)));
}

proof fn rt_varbinary(v: u16)
    ensures
        parse_type(up_seq(type_text(AttributeType::VarBinary(v)))) == Some(AttributeType::VarBinary(v)),
{
    reveal_strlit("varbinary(");
    reveal_strlit("VARBINARY(");
    reveal_strlit(")");
    reveal_strlit("CHAR(");
    reveal_strlit("VARCHAR(");
    reveal_strlit("BINARY(");
    let d = dec_rep(v as nat);
    lemma_dec_rep_digits(v as nat);
    lemma_dec_rep_value(v as nat);
    lemma_up_seq_concat("varbinary("@ + d, ")"@);
    lemma_up_seq_concat("varbinary("@, d);
    lemma_up_seq_digits(d);
    assert(up_seq("varbinary("@) =~= "VARBINARY("@);
    assert(up_seq(")"@) =~= ")"@);
    let u = up_seq(type_text(AttributeType::VarBinary(v)));
    assert(u =~= "VARBINARY("@ + d + ")"@);
    assert(u[0] == 'V');
    assert(u[3] == 'B');
    lemma_sized_arg_built("VARBINARY("@, d);
    skip_sized(u, "CHAR("@, 0);
    skip_sized(u, "VARCHAR("@, 3);
    skip_sized(u, "BINARY("@, 0);
    assert(parse_type(u) == Some(AttributeType::VarBinary(v)));
}

proof fn rt_tinyblob()
    ensures
        parse_type(up_seq(type_text(AttributeType::TinyBlob))) == Some(AttributeType::TinyBlob),
{
    reveal_strlit("tinyblob");
    reveal_strlit("TINYBLOB");
    reveal_strlit("CHAR(");
    reveal_strlit("VARCHAR(");
    reveal_strlit("BINARY(");
    reveal_strlit("VARBINARY(");
    let u = up_seq(type_text(AttributeType::TinyBlob));
    assert(u =~= "TINYBLOB"@);
    assert(u[0] == 'T');
    skip_sized(u, "CHAR("@, 0);
    skip_sized(u, "VARCHAR("@, 0);
    skip_sized(u, "BINARY("@, 0);
    skip_sized(u, "VARBINARY("@, 0);
    assert(parse_type(u) == Some(AttributeType::TinyBlob));
}

proof fn rt_tinytext()
    ensures
        parse_type(up_seq(type_text(AttributeType::TinyText))) == Some(AttributeType::TinyText),
{
    reveal_strlit("tinytext");
    reveal_strlit("TINYTEXT");
    reveal_strlit("CHAR(");
    reveal_strlit("VARCHAR(");
    reveal_strlit("BINARY(");
    reveal_strlit("VARBINARY(");
    reveal_strlit("TINYBLOB");
    let u = up_seq(type_text(AttributeType::TinyText));
    assert(u =~= "TINYTEXT"@);
    assert(u[0] == 'T');
    assert(u[4] == 'T');
    skip_sized(u, "CHAR("@, 0);
    skip_sized(u, "VARCHAR("@, 0);
    skip_sized(u, "BINARY("@, 0);
    skip_sized(u, "VARBINARY("@, 0);
    skip_bare(u, "TINYBLOB"@, 4);
    assert(parse_type(u) == Some(AttributeType::TinyText));
}

proof fn rt_text()
    ensures
        parse_type(up_seq(type_text(AttributeType::Text))) == Some(AttributeType::Text),
{
    reveal_strlit("text");
    reveal_strlit("TEXT");
    reveal_strlit("CHAR(");
    reveal_strlit("VARCHAR(");
    reveal_strlit("BINARY(");
    reveal_strlit("VARBINARY(");
    reveal_strlit("TINYBLOB");
    reveal_strlit("TINYTEXT");
    let u = up_seq(type_text(AttributeType::Text));
    assert(u =~= "TEXT"@);
    assert(u[0] == 'T');
    assert(u[1] == 'E');
    skip_sized(u, "CHAR("@, 0);
    skip_sized(u, "VARCHAR("@, 0);
    skip_sized(u, "BINARY("@, 0);
    skip_sized(u, "VARBINARY("@, 0);
    skip_bare(u, "TINYBLOB"@, 1);
    skip_bare(u, "TINYTEXT"@, 1);
    assert(parse_type(u) == Some(AttributeType::Text));
}

proof fn rt_blob(v: u16)
    ensures
        parse_type(up_seq(type_text(AttributeType::Blob(v)))) == Some(AttributeType::Blob(v)),
{
    reveal_strlit("blob(");
    reveal_strlit("BLOB(");
    reveal_strlit(")");
    reveal_strlit("CHAR(");
    reveal_strlit("VARCHAR(");
    reveal_strlit("BINARY(");
    reveal_strlit("VARBINARY(");
    reveal_strlit("TINYBLOB");
    reveal_strlit("TINYTEXT");
    reveal_strlit("TEXT");
    let d = dec_rep(v as nat);
    lemma_dec_rep_digits(v as nat);
    lemma_dec_rep_value(v as nat);
    lemma_up_seq_concat("blob("@ + d, ")"@);
    lemma_up_seq_concat("blob("@, d);
    lemma_up_seq_digits(d);
    assert(up_seq("blob("@) =~= "BLOB("@);
    assert(up_seq(")"@) =~= ")"@);
    let u = up_seq(type_text(AttributeType::Blob(v)));
    assert(u =~= "BLOB("@ + d + ")"@);
    assert(u[0] == 'B');
    assert(u[1] == 'L');
    lemma_sized_arg_built("BLOB("@, d);
    skip_sized(u, "CHAR("@, 0);
    skip_sized(u, "VARCHAR("@, 0);
    skip_sized(u, "BINARY("@, 1);
    skip_sized(u, "VARBINARY("@, 0);
    skip_bare(u, "TINYBLOB"@, 0);
    skip_bare(u, "TINYTEXT"@, 0);
    skip_bare(u, "TEXT"@, 0);
    assert(parse_type(u) == Some(AttributeType::Blob(v)));
}

proof fn rt_mediumtext()
    ensures
        parse_type(up_seq(type_text(AttributeType::MediumText))) == Some(AttributeType::MediumText),
{
    reveal_strlit("mediumtext");
    reveal_strlit("MEDIUMTEXT");
    reveal_strlit("CHAR(");
    reveal_strlit("VARCHAR(");
    reveal_strlit("BINARY(");
    reveal_strlit("VARBINARY(");
    reveal_strlit("TINYBLOB");
    reveal_strlit("TINYTEXT");
    reveal_strlit("TEXT");
    reveal_strlit("BLOB(");
    let u = up_seq(type_text(AttributeType::MediumText));
    assert(u =~= "MEDIUMTEXT"@);
    assert(u[0] == 'M');
    skip_sized(u, "CHAR("@, 0);
    skip_sized(u, "VARCHAR("@, 0);
    skip_sized(u, "BINARY("@, 0);
    skip_sized(u, "VARBINARY("@, 0);
    skip_bare(u, "TINYBLOB"@, 0);
    skip_bare(u, "TINYTEXT"@, 0);
    skip_bare(u, "TEXT"@, 0);
    skip_sized(u, "BLOB("@, 0);
    assert(parse_type(u) == Some(AttributeType::MediumText));
}

proof fn rt_mediumblob()
    ensures
        parse_type(up_seq(type_text(AttributeType::MediumBlob))) == Some(AttributeType::MediumBlob),
{
    reveal_strlit("mediumblob");
    reveal_strlit("MEDIUMBLOB");
    reveal_strlit("CHAR(");
    reveal_strlit("VARCHAR(");
    reveal_strlit("BINARY(");
    reveal_strlit("VARBINARY(");
    reveal_strlit("TINYBLOB");
    reveal_strlit("TINYTEXT");
    reveal_strlit("TEXT");
    reveal_strlit("BLOB(");
    reveal_strlit("MEDIUMTEXT");
    let u = up_seq(type_text(AttributeType::MediumBlob));
    assert(u =~= "MEDIUMBLOB"@);
    assert(u[0] == 'M');
    assert(u[6] == 'B');
    skip_sized(u, "CHAR("@, 0);
    skip_sized(u, "VARCHAR("@, 0);
    skip_sized(u, "BINARY("@, 0);
    skip_sized(u, "VARBINARY("@, 0);
    skip_bare(u, "TINYBLOB"@, 0);
    skip_bare(u, "TINYTEXT"@, 0);
    skip_bare(u, "TEXT"@, 0);
    skip_sized(u, "BLOB("@, 0);
    skip_bare(u, "MEDIUMTEXT"@, 6);
    assert(parse_type(u) == Some(AttributeType::MediumBlob));
}

proof fn rt_longtext()
    ensures
        parse_type(up_seq(type_text(AttributeType::LongText))) == Some(AttributeType::LongText),
{
    reveal_strlit("longtext");
    reveal_strlit("LONGTEXT");
    reveal_strlit("CHAR(");
    reveal_strlit("VARCHAR(");
    reveal_strlit("BINARY(");
    reveal_strlit("VARBINARY(");
    reveal_strlit("TINYBLOB");
    reveal_strlit("TINYTEXT");
    reveal_strlit("TEXT");
    reveal_strlit("BLOB(");
    reveal_strlit("MEDIUMTEXT");
    reveal_strlit("MEDIUMBLOB");
    let u = up_seq(type_text(AttributeType::LongText));
    assert(u =~= "LONGTEXT"@);
    assert(u[0] == 'L');
    skip_sized(u, "CHAR("@, 0);
    skip_sized(u, "VARCHAR("@, 0);
    skip_sized(u, "BINARY("@, 0);
    skip_sized(u, "VARBINARY("@, 0);
    skip_bare(u, "TINYBLOB"@, 0);
    skip_bare(u, "TINYTEXT"@, 0);
    skip_bare(u, "TEXT"@, 0);
    skip_sized(u, "BLOB("@, 0);
    skip_bare(u, "MEDIUMTEXT"@, 0);
    skip_bare(u, "MEDIUMBLOB"@, 0);
    assert(parse_type(u) == Some(AttributeType::LongText));
}

proof fn rt_longblob()
    ensures
        parse_type(up_seq(type_text(AttributeType::LongBlob))) == Some(AttributeType::LongBlob),
{
    reveal_strlit("longblob");
    reveal_strlit("LONGBLOB");
    reveal_strlit("CHAR(");
    reveal_strlit("VARCHAR(");
    reveal_strlit("BINARY(");
    reveal_strlit("VARBINARY(");
    reveal_strlit("TINYBLOB");
    reveal_strlit("TINYTEXT");
    reveal_strlit("TEXT");
    reveal_strlit("BLOB(");
    reveal_strlit("MEDIUMTEXT");
    reveal_strlit("MEDIUMBLOB");
    reveal_strlit("LONGTEXT");
    let u = up_seq(type_text(AttributeType::LongBlob));
    assert(u =~= "LONGBLOB"@);
    assert(u[0] == 'L');
    assert(u[4] == 'B');
    skip_sized(u, "CHAR("@, 0);
    skip_sized(u, "VARCHAR("@, 0);
    skip_sized(u, "BINARY("@, 0);
    skip_sized(u, "VARBINARY("@, 0);
    skip_bare(u, "TINYBLOB"@, 0);
    skip_bare(u, "TINYTEXT"@, 0);
    skip_bare(u, "TEXT"@, 0);
    skip_sized(u, "BLOB("@, 0);
    skip_bare(u, "MEDIUMTEXT"@, 0);
    skip_bare(u, "MEDIUMBLOB"@, 0);
    skip_bare(u, "LONGTEXT"@, 4);
    assert(parse_type(u) == Some(AttributeType::LongBlob));
}

proof fn rt_bit(v: u8)
    ensures
        parse_type(up_seq(type_text(AttributeType::Bit(v)))) == Some(AttributeType::Bit(v)),
{
    reveal_strlit("bit(");
    reveal_strlit("BIT(");
    reveal_strlit(")");
    reveal_strlit("CHAR(");
    reveal_strlit("VARCHAR(");
    reveal_strlit("BINARY(");
    reveal_strlit("VARBINARY(");
    reveal_strlit("TINYBLOB");
    reveal_strlit("TINYTEXT");
    reveal_strlit("TEXT");
    reveal_strlit("BLOB(");
    reveal_strlit("MEDIUMTEXT");
    reveal_strlit("MEDIUMBLOB");
    reveal_strlit("LONGTEXT");
    reveal_strlit("LONGBLOB");
    let d = dec_rep(v as nat);
    lemma_dec_rep_digits(v as nat);
    lemma_dec_rep_value(v as nat);
    lemma_up_seq_concat("bit("@ + d, ")"@);
    lemma_up_seq_concat("bit("@, d);
    lemma_up_seq_digits(d);
    assert(up_seq("bit("@) =~= "BIT("@);
    assert(up_seq(")"@) =~= ")"@);
    let u = up_seq(type_text(AttributeType::Bit(v)));
    assert(u =~= "BIT("@ + d + ")"@);
    assert(u[0] == 'B');
    assert(u[1] == 'I');
    assert(u[2] == 'T');
    lemma_sized_arg_built("BIT("@, d);
    skip_sized(u, "CHAR("@, 0);
    skip_sized(u, "VARCHAR("@, 0);
    skip_sized(u, "BINARY("@, 2);
    skip_sized(u, "VARBINARY("@, 0);
    skip_bare(u, "TINYBLOB"@, 0);
    skip_bare(u, "TINYTEXT"@, 0);
    skip_bare(u, "TEXT"@, 0);
    skip_sized(u, "BLOB("@, 1);
    skip_bare(u, "MEDIUMTEXT"@, 0);
    skip_bare(u, "MEDIUMBLOB"@, 0);
    skip_bare(u, "LONGTEXT"@, 0);
    skip_bare(u, "LONGBLOB"@, 0);
    assert(parse_type(u) == Some(AttributeType::Bit(v)));
}

proof fn rt_tinyint(v: u8)
    ensures
        parse_type(up_seq(type_text(AttributeType::TinyInt(v)))) == Some(AttributeType::TinyInt(v)),
{
    reveal_strlit("tinyint(");
    reveal_strlit("TINYINT(");
    reveal_strlit(")");
    reveal_strlit("CHAR(");
    reveal_strlit("VARCHAR(");
    reveal_strlit("BINARY(");
    reveal_strlit("VARBINARY(");
    reveal_strlit("TINYBLOB");
    reveal_strlit("TINYTEXT");
    reveal_strlit("TEXT");
    reveal_strlit("BLOB(");
    reveal_strlit("MEDIUMTEXT");
    reveal_strlit("MEDIUMBLOB");
    reveal_strlit("LONGTEXT");
    reveal_strlit("LONGBLOB");
    reveal_strlit("BIT(");
    let d = dec_rep(v as nat);
    lemma_dec_rep_digits(v as nat);
    lemma_dec_rep_value(v as nat);
    lemma_up_seq_concat("tinyint("@ + d, ")"@);
    lemma_up_seq_concat("tinyint("@, d);
    lemma_up_seq_digits(d);
    assert(up_seq("tinyint("@) =~= "TINYINT("@);
    assert(up_seq(")"@) =~= ")"@);
    let u = up_seq(type_text(AttributeType::TinyInt(v)));
    assert(u =~= "TINYINT("@ + d + ")"@);
    assert(u[0] == 'T');
    assert(u[1] == 'I');
    assert(u[4] == 'I');
    lemma_sized_arg_built("TINYINT("@, d);
    skip_sized(u, "CHAR("@, 0);
    skip_sized(u, "VARCHAR("@, 0);
    skip_sized(u, "BINARY("@, 0);
    skip_sized(u, "VARBINARY("@, 0);
    skip_bare(u, "TINYBLOB"@, 4);
    skip_bare(u, "TINYTEXT"@, 4);
    skip_bare(u, "TEXT"@, 1);
    skip_sized(u, "BLOB("@, 0);
    skip_bare(u, "MEDIUMTEXT"@, 0);
    skip_bare(u, "MEDIUMBLOB"@, 0);
    skip_bare(u, "LONGTEXT"@, 0);
    skip_bare(u, "LONGBLOB"@, 0);
    skip_sized(u, "BIT("@, 0);
    assert(parse_type(u) == Some(AttributeType::TinyInt(v)));
}

proof fn rt_boolean()
    ensures
        parse_type(up_seq(type_text(AttributeType::Boolean))) == Some(AttributeType::Boolean),
{
    reveal_strlit("boolean");
    reveal_strlit("BOOLEAN");
    reveal_strlit("CHAR(");
    reveal_strlit("VARCHAR(");
    reveal_strlit("BINARY(");
    reveal_strlit("VARBINARY(");
    reveal_strlit("TINYBLOB");
    reveal_strlit("TINYTEXT");
    reveal_strlit("TEXT");
    reveal_strlit("BLOB(");
    reveal_strlit("MEDIUMTEXT");
    reveal_strlit("MEDIUMBLOB");
    reveal_strlit("LONGTEXT");
    reveal_strlit("LONGBLOB");
    reveal_strlit("BIT(");
    reveal_strlit("TINYINT(");
    let u = up_seq(type_text(AttributeType::Boolean));
    assert(u =~= "BOOLEAN"@);
    assert(u[0] == 'B');
    assert(u[1] == 'O');
    skip_sized(u, "CHAR("@, 0);
    skip_sized(u, "VARCHAR("@, 0);
    skip_sized(u, "BINARY("@, 1);
    skip_sized(u, "VARBINARY("@, 0);
    skip_bare(u, "TINYBLOB"@, 0);
    skip_bare(u, "TINYTEXT"@, 0);
    skip_bare(u, "TEXT"@, 0);
    skip_sized(u, "BLOB("@, 1);
    skip_bare(u, "MEDIUMTEXT"@, 0);
    skip_bare(u, "MEDIUMBLOB"@, 0);
    skip_bare(u, "LONGTEXT"@, 0);
    skip_bare(u, "LONGBLOB"@, 0);
    skip_sized(u, "BIT("@, 1);
    skip_sized(u, "TINYINT("@, 0);
    assert(parse_type(u) == Some(AttributeType::Boolean));
}

proof fn rt_bool()
    ensures
        parse_type(up_seq(type_text(AttributeType::Bool))) == Some(AttributeType::Bool),
{
    reveal_strlit("bool");
    reveal_strlit("BOOL");
    reveal_strlit("CHAR(");
    reveal_strlit("VARCHAR(");
    reveal_strlit("BINARY(");
    reveal_strlit("VARBINARY(");
    reveal_strlit("TINYBLOB");
    reveal_strlit("TINYTEXT");
    reveal_strlit("TEXT");
    reveal_strlit("BLOB(");
    reveal_strlit("MEDIUMTEXT");
    reveal_strlit("MEDIUMBLOB");
    reveal_strlit("LONGTEXT");
    reveal_strlit("LONGBLOB");
    reveal_strlit("BIT(");
    reveal_strlit("TINYINT(");
    reveal_strlit("BOOLEAN");
    let u = up_seq(type_text(AttributeType::Bool));
    assert(u =~= "BOOL"@);
    assert(u[0] == 'B');
    assert(u[1] == 'O');
    skip_sized(u, "CHAR("@, 0);
    skip_sized(u, "VARCHAR("@, 0);
    skip_sized(u, "BINARY("@, 1);
    skip_sized(u, "VARBINARY("@, 0);
    skip_bare(u, "TINYBLOB"@, 0);
    skip_bare(u, "TINYTEXT"@, 0);
    skip_bare(u, "TEXT"@, 0);
    skip_sized(u, "BLOB("@, 1);
    skip_bare(u, "MEDIUMTEXT"@, 0);
    skip_bare(u, "MEDIUMBLOB"@, 0);
    skip_bare(u, "LONGTEXT"@, 0);
    skip_bare(u, "LONGBLOB"@, 0);
    skip_sized(u, "BIT("@, 1);
    skip_sized(u, "TINYINT("@, 0);
    skip_bare(u, "BOOLEAN"@, 0);
    assert(parse_type(u) == Some(AttributeType::Bool));
}

proof fn rt_smallint(v: u8)
    ensures
        parse_type(up_seq(type_text(AttributeType::SmallInt(v)))) == Some(AttributeType::SmallInt(v)),
{
    reveal_strlit("smallint(");
    reveal_strlit("SMALLINT(");
    reveal_strlit(")");
    reveal_strlit("CHAR(");
    reveal_strlit("VARCHAR(");
    reveal_strlit("BINARY(");
    reveal_strlit("VARBINARY(");
    reveal_strlit("TINYBLOB");
    reveal_strlit("TINYTEXT");
    reveal_strlit("TEXT");
    reveal_strlit("BLOB(");
    reveal_strlit("MEDIUMTEXT");
    reveal_strlit("MEDIUMBLOB");
    reveal_strlit("LONGTEXT");
    reveal_strlit("LONGBLOB");
    reveal_strlit("BIT(");
    reveal_strlit("TINYINT(");
    reveal_strlit("BOOLEAN");
    reveal_strlit("BOOL");
    let d = dec_rep(v as nat);
    lemma_dec_rep_digits(v as nat);
    lemma_dec_rep_value(v as nat);
    lemma_up_seq_concat("smallint("@ + d, ")"@);
    lemma_up_seq_concat("smallint("@, d);
    lemma_up_seq_digits(d);
    assert(up_seq("smallint("@) =~= "SMALLINT("@);
    assert(up_seq(")"@) =~= ")"@);
    let u = up_seq(type_text(AttributeType::SmallInt(v)));
    assert(u =~= "SMALLINT("@ + d + ")"@);
    assert(u[0] == 'S');
    lemma_sized_arg_built("SMALLINT("@, d);
    skip_sized(u, "CHAR("@, 0);
    skip_sized(u, "VARCHAR("@, 0);
    skip_sized(u, "BINARY("@, 0);
    skip_sized(u, "VARBINARY("@, 0);
    skip_bare(u, "TINYBLOB"@, 0);
    skip_bare(u, "TINYTEXT"@, 0);
    skip_bare(u, "TEXT"@, 0);
    skip_sized(u, "BLOB("@, 0);
    skip_bare(u, "MEDIUMTEXT"@, 0);
    skip_bare(u, "MEDIUMBLOB"@, 0);
    skip_bare(u, "LONGTEXT"@, 0);
    skip_bare(u, "LONGBLOB"@, 0);
    skip_sized(u, "BIT("@, 0);
    skip_sized(u, "TINYINT("@, 0);
    skip_bare(u, "BOOLEAN"@, 0);
    skip_bare(u, "BOOL"@, 0);
    assert(parse_type(u) == Some(AttributeType::SmallInt(v)));
}

proof fn rt_mediumint(v: u8)
    ensures
        parse_type(up_seq(type_text(AttributeType::MediumInt(v)))) == Some(AttributeType::MediumInt(v)),
{
    reveal_strlit("mediumint(");
    reveal_strlit("MEDIUMINT(");
    reveal_strlit(")");
    reveal_strlit("CHAR(");
    reveal_strlit("VARCHAR(");
    reveal_strlit("BINARY(");
    reveal_strlit("VARBINARY(");
    reveal_strlit("TINYBLOB");
    reveal_strlit("TINYTEXT");
    reveal_strlit("TEXT");
    reveal_strlit("BLOB(");
    reveal_strlit("MEDIUMTEXT");
    reveal_strlit("MEDIUMBLOB");
    reveal_strlit("LONGTEXT");
    reveal_strlit("LONGBLOB");
    reveal_strlit("BIT(");
    reveal_strlit("TINYINT(");
    reveal_strlit("BOOLEAN");
    reveal_strlit("BOOL");
    reveal_strlit("SMALLINT(");
    let d = dec_rep(v as nat);
    lemma_dec_rep_digits(v as nat);
    lemma_dec_rep_value(v as nat);
    lemma_up_seq_concat("mediumint("@ + d, ")"@);
    lemma_up_seq_concat("mediumint("@, d);
    lemma_up_seq_digits(d);
    assert(up_seq("mediumint("@) =~= "MEDIUMINT("@);
    assert(up_seq(")"@) =~= ")"@);
    let u = up_seq(type_text(AttributeType::MediumInt(v)));
    assert(u =~= "MEDIUMINT("@ + d + ")"@);
    assert(u[0] == 'M');
    assert(u[6] == 'I');
    lemma_sized_arg_built("MEDIUMINT("@, d);
    skip_sized(u, "CHAR("@, 0);
    skip_sized(u, "VARCHAR("@, 0);
    skip_sized(u, "BINARY("@, 0);
    skip_sized(u, "VARBINARY("@, 0);
    skip_bare(u, "TINYBLOB"@, 0);
    skip_bare(u, "TINYTEXT"@, 0);
    skip_bare(u, "TEXT"@, 0);
    skip_sized(u, "BLOB("@, 0);
    skip_bare(u, "MEDIUMTEXT"@, 6);
    skip_bare(u, "MEDIUMBLOB"@, 6);
    skip_bare(u, "LONGTEXT"@, 0);
    skip_bare(u, "LONGBLOB"@, 0);
    skip_sized(u, "BIT("@, 0);
    skip_sized(u, "TINYINT("@, 0);
    skip_bare(u, "BOOLEAN"@, 0);
    skip_bare(u, "BOOL"@, 0);
    skip_sized(u, "SMALLINT("@, 0);
    assert(parse_type(u) == Some(AttributeType::MediumInt(v)));
}

proof fn rt_int(v: u8)
    ensures
        parse_type(up_seq(type_text(AttributeType::Int(v)))) == Some(AttributeType::Int(v)),
{
    reveal_strlit("int(");
    reveal_strlit("INT(");
    reveal_strlit(")");
    reveal_strlit("CHAR(");
    reveal_strlit("VARCHAR(");
    reveal_strlit("BINARY(");
    reveal_strlit("VARBINARY(");
    reveal_strlit("TINYBLOB");
    reveal_strlit("TINYTEXT");
    reveal_strlit("TEXT");
    reveal_strlit("BLOB(");
    reveal_strlit("MEDIUMTEXT");
    reveal_strlit("MEDIUMBLOB");
    reveal_strlit("LONGTEXT");
    reveal_strlit("LONGBLOB");
    reveal_strlit("BIT(");
    reveal_strlit("TINYINT(");
    reveal_strlit("BOOLEAN");
    reveal_strlit("BOOL");
    reveal_strlit("SMALLINT(");
    reveal_strlit("MEDIUMINT(");
    reveal_strlit("INTEGER(");
    let d = dec_rep(v as nat);
    lemma_dec_rep_digits(v as nat);
    lemma_dec_rep_value(v as nat);
    lemma_up_seq_concat("int("@ + d, ")"@);
    lemma_up_seq_concat("int("@, d);
    lemma_up_seq_digits(d);
    assert(up_seq("int("@) =~= "INT("@);
    assert(up_seq(")"@) =~= ")"@);
    let u = up_seq(type_text(AttributeType::Int(v)));
    assert(u =~= "INT("@ + d + ")"@);
    assert(u[0] == 'I');
    assert(u[3] == '(');
    lemma_sized_arg_built("INT("@, d);
    skip_sized(u, "CHAR("@, 0);
    skip_sized(u, "VARCHAR("@, 0);
    skip_sized(u, "BINARY("@, 0);
    skip_sized(u, "VARBINARY("@, 0);
    skip_bare(u, "TINYBLOB"@, 0);
    skip_bare(u, "TINYTEXT"@, 0);
    skip_bare(u, "TEXT"@, 0);
    skip_sized(u, "BLOB("@, 0);
    skip_bare(u, "MEDIUMTEXT"@, 0);
    skip_bare(u, "MEDIUMBLOB"@, 0);
    skip_bare(u, "LONGTEXT"@, 0);
    skip_bare(u, "LONGBLOB"@, 0);
    skip_sized(u, "BIT("@, 0);
    skip_sized(u, "TINYINT("@, 0);
    skip_bare(u, "BOOLEAN"@, 0);
    skip_bare(u, "BOOL"@, 0);
    skip_sized(u, "SMALLINT("@, 0);
    skip_sized(u, "MEDIUMINT("@, 0);
    skip_sized(u, "INTEGER("@, 3);
    assert(parse_type(u) == Some(AttributeType::Int(v)));
}

proof fn rt_bigint(v: u8)
    ensures
        parse_type(up_seq(type_text(AttributeType::BigInt(v)))) == Some(AttributeType::BigInt(v)),
{
    reveal_strlit("bigint(");
    reveal_strlit("BIGINT(");
    reveal_strlit(")");
    reveal_strlit("CHAR(");
    reveal_strlit("VARCHAR(");
    reveal_strlit("BINARY(");
    reveal_strlit("VARBINARY(");
    reveal_strlit("TINYBLOB");
    reveal_strlit("TINYTEXT");
    reveal_strlit("TEXT");
    reveal_strlit("BLOB(");
    reveal_strlit("MEDIUMTEXT");
    reveal_strlit("MEDIUMBLOB");
    reveal_strlit("LONGTEXT");
    reveal_strlit("LONGBLOB");
    reveal_strlit("BIT(");
    reveal_strlit("TINYINT(");
    reveal_strlit("BOOLEAN");
    reveal_strlit("BOOL");
    reveal_strlit("SMALLINT(");
    reveal_strlit("MEDIUMINT(");
    reveal_strlit("INTEGER(");
    reveal_strlit("INT(");
    let d = dec_rep(v as nat);
    lemma_dec_rep_digits(v as nat);
    lemma_dec_rep_value(v as nat);
    lemma_up_seq_concat("bigint("@ + d, ")"@);
    lemma_up_seq_concat("bigint("@, d);
    lemma_up_seq_digits(d);
    assert(up_seq("bigint("@) =~= "BIGINT("@);
    assert(up_seq(")"@) =~= ")"@);
    let u = up_seq(type_text(AttributeType::BigInt(v)));
    assert(u =~= "BIGINT("@ + d + ")"@);
    assert(u[0] == 'B');
    assert(u[1] == 'I');
    assert(u[2] == 'G');
    lemma_sized_arg_built("BIGINT("@, d);
    skip_sized(u, "CHAR("@, 0);
    skip_sized(u, "VARCHAR("@, 0);
    skip_sized(u, "BINARY("@, 2);
    skip_sized(u, "VARBINARY("@, 0);
    skip_bare(u, "TINYBLOB"@, 0);
    skip_bare(u, "TINYTEXT"@, 0);
    skip_bare(u, "TEXT"@, 0);
    skip_sized(u, "BLOB("@, 1);
    skip_bare(u, "MEDIUMTEXT"@, 0);
    skip_bare(u, "MEDIUMBLOB"@, 0);
    skip_bare(u, "LONGTEXT"@, 0);
    skip_bare(u, "LONGBLOB"@, 0);
    skip_sized(u, "BIT("@, 2);
    skip_sized(u, "TINYINT("@, 0);
    skip_bare(u, "BOOLEAN"@, 1);
    skip_bare(u, "BOOL"@, 1);
    skip_sized(u, "SMALLINT("@, 0);
    skip_sized(u, "MEDIUMINT("@, 0);
    skip_sized(u, "INTEGER("@, 0);
    skip_sized(u, "INT("@, 0);
    assert(parse_type(u) == Some(AttributeType::BigInt(v)));
}

proof fn rt_float(v: u8)
    ensures
        parse_type(up_seq(type_text(AttributeType::Float(v)))) == Some(AttributeType::Float(v)),
{
    reveal_strlit("float(");
    reveal_strlit("FLOAT(");
    reveal_strlit(")");
    reveal_strlit("CHAR(");
    reveal_strlit("VARCHAR(");
    reveal_strlit("BINARY(");
    reveal_strlit("VARBINARY(");
    reveal_strlit("TINYBLOB");
    reveal_strlit("TINYTEXT");
    reveal_strlit("TEXT");
    reveal_strlit("BLOB(");
    reveal_strlit("MEDIUMTEXT");
    reveal_strlit("MEDIUMBLOB");
    reveal_strlit("LONGTEXT");
    reveal_strlit("LONGBLOB");
    reveal_strlit("BIT(");
    reveal_strlit("TINYINT(");
    reveal_strlit("BOOLEAN");
    reveal_strlit("BOOL");
    reveal_strlit("SMALLINT(");
    reveal_strlit("MEDIUMINT(");
    reveal_strlit("INTEGER(");
    reveal_strlit("INT(");
    reveal_strlit("BIGINT(");
    let d = dec_rep(v as nat);
    lemma_dec_rep_digits(v as nat);
    lemma_dec_rep_value(v as nat);
    lemma_up_seq_concat("float("@ + d, ")"@);
    lemma_up_seq_concat("float("@, d);
    lemma_up_seq_digits(d);
    assert(up_seq("float("@) =~= "FLOAT("@);
    assert(up_seq(")"@) =~= ")"@);
    let u = up_seq(type_text(AttributeType::Float(v)));
    assert(u =~= "FLOAT("@ + d + ")"@);
    assert(u[0] == 'F');
    lemma_sized_arg_built("FLOAT("@, d);
    skip_sized(u, "CHAR("@, 0);
    skip_sized(u, "VARCHAR("@, 0);
    skip_sized(u, "BINARY("@, 0);
    skip_sized(u, "VARBINARY("@, 0);
    skip_bare(u, "TINYBLOB"@, 0);
    skip_bare(u, "TINYTEXT"@, 0);
    skip_bare(u, "TEXT"@, 0);
    skip_sized(u, "BLOB("@, 0);
    skip_bare(u, "MEDIUMTEXT"@, 0);
    skip_bare(u, "MEDIUMBLOB"@, 0);
    skip_bare(u, "LONGTEXT"@, 0);
    skip_bare(u, "LONGBLOB"@, 0);
    skip_sized(u, "BIT("@, 0);
    skip_sized(u, "TINYINT("@, 0);
    skip_bare(u, "BOOLEAN"@, 0);
    skip_bare(u, "BOOL"@, 0);
    skip_sized(u, "SMALLINT("@, 0);
    skip_sized(u, "MEDIUMINT("@, 0);
    skip_sized(u, "INTEGER("@, 0);
    skip_sized(u, "INT("@, 0);
    skip_sized(u, "BIGINT("@, 0);
    assert(parse_type(u) == Some(AttributeType::Float(v)));
}

proof fn rt_date()
    ensures
        parse_type(up_seq(type_text(AttributeType::Date))) == Some(AttributeType::Date),
{
    reveal_strlit("date");
    reveal_strlit("DATE");
    reveal_strlit("CHAR(");
    reveal_strlit("VARCHAR(");
    reveal_strlit("BINARY(");
    reveal_strlit("VARBINARY(");
    reveal_strlit("TINYBLOB");
    reveal_strlit("TINYTEXT");
    reveal_strlit("TEXT");
    reveal_strlit("BLOB(");
    reveal_strlit("MEDIUMTEXT");
    reveal_strlit("MEDIUMBLOB");
    reveal_strlit("LONGTEXT");
    reveal_strlit("LONGBLOB");
    reveal_strlit("BIT(");
    reveal_strlit("TINYINT(");
    reveal_strlit("BOOLEAN");
    reveal_strlit("BOOL");
    reveal_strlit("SMALLINT(");
    reveal_strlit("MEDIUMINT(");
    reveal_strlit("INTEGER(");
    reveal_strlit("INT(");
    reveal_strlit("BIGINT(");
    reveal_strlit("FLOAT(");
    reveal_strlit("DECIMAL(");
    reveal_strlit("DATETIME");
    let u = up_seq(type_text(AttributeType::Date));
    assert(u =~= "DATE"@);
    assert(u[0] == 'D');
    assert(u[1] == 'A');
    skip_sized(u, "CHAR("@, 0);
    skip_sized(u, "VARCHAR("@, 0);
    skip_sized(u, "BINARY("@, 0);
    skip_sized(u, "VARBINARY("@, 0);
    skip_bare(u, "TINYBLOB"@, 0);
    skip_bare(u, "TINYTEXT"@, 0);
    skip_bare(u, "TEXT"@, 0);
    skip_sized(u, "BLOB("@, 0);
    skip_bare(u, "MEDIUMTEXT"@, 0);
    skip_bare(u, "MEDIUMBLOB"@, 0);
    skip_bare(u, "LONGTEXT"@, 0);
    skip_bare(u, "LONGBLOB"@, 0);
    skip_sized(u, "BIT("@, 0);
    skip_sized(u, "TINYINT("@, 0);
    skip_bare(u, "BOOLEAN"@, 0);
    skip_bare(u, "BOOL"@, 0);
    skip_sized(u, "SMALLINT("@, 0);
    skip_sized(u, "MEDIUMINT("@, 0);
    skip_sized(u, "INTEGER("@, 0);
    skip_sized(u, "INT("@, 0);
    skip_sized(u, "BIGINT("@, 0);
    skip_sized(u, "FLOAT("@, 0);
    skip_sized2(u, "DECIMAL("@, 1);
    skip_bare(u, "DATETIME"@, 0);
    assert(parse_type(u) == Some(AttributeType::Date));
}

proof fn rt_datetime()
    ensures
        parse_type(up_seq(type_text(AttributeType::DateTime))) == Some(AttributeType::DateTime),
{
    reveal_strlit("datetime");
    reveal_strlit("DATETIME");
    reveal_strlit("CHAR(");
    reveal_strlit("VARCHAR(");
    reveal_strlit("BINARY(");
    reveal_strlit("VARBINARY(");
    reveal_strlit("TINYBLOB");
    reveal_strlit("TINYTEXT");
    reveal_strlit("TEXT");
    reveal_strlit("BLOB(");
    reveal_strlit("MEDIUMTEXT");
    reveal_strlit("MEDIUMBLOB");
    reveal_strlit("LONGTEXT");
    reveal_strlit("LONGBLOB");
    reveal_strlit("BIT(");
    reveal_strlit("TINYINT(");
    reveal_strlit("BOOLEAN");
    reveal_strlit("BOOL");
    reveal_strlit("SMALLINT(");
    reveal_strlit("MEDIUMINT(");
    reveal_strlit("INTEGER(");
    reveal_strlit("INT(");
    reveal_strlit("BIGINT(");
    reveal_strlit("FLOAT(");
    reveal_strlit("DECIMAL(");
    let u = up_seq(type_text(AttributeType::DateTime));
    assert(u =~= "DATETIME"@);
    assert(u[0] == 'D');
    assert(u[1] == 'A');
    skip_sized(u, "CHAR("@, 0);
    skip_sized(u, "VARCHAR("@, 0);
    skip_sized(u, "BINARY("@, 0);
    skip_sized(u, "VARBINARY("@, 0);
    skip_bare(u, "TINYBLOB"@, 0);
    skip_bare(u, "TINYTEXT"@, 0);
    skip_bare(u, "TEXT"@, 0);
    skip_sized(u, "BLOB("@, 0);
    skip_bare(u, "MEDIUMTEXT"@, 0);
    skip_bare(u, "MEDIUMBLOB"@, 0);
    skip_bare(u, "LONGTEXT"@, 0);
    skip_bare(u, "LONGBLOB"@, 0);
    skip_sized(u, "BIT("@, 0);
    skip_sized(u, "TINYINT("@, 0);
    skip_bare(u, "BOOLEAN"@, 0);
    skip_bare(u, "BOOL"@, 0);
    skip_sized(u, "SMALLINT("@, 0);
    skip_sized(u, "MEDIUMINT("@, 0);
    skip_sized(u, "INTEGER("@, 0);
    skip_sized(u, "INT("@, 0);
    skip_sized(u, "BIGINT("@, 0);
    skip_sized(u, "FLOAT("@, 0);
    skip_sized2(u, "DECIMAL("@, 1);
    assert(parse_type(u) == Some(AttributeType::DateTime));
}

proof fn rt_timestamp()
    ensures
        parse_type(up_seq(type_text(AttributeType::TimeStamp))) == Some(AttributeType::TimeStamp),
{
    reveal_strlit("timeStamp");
    reveal_strlit("TIMESTAMP");
    reveal_strlit("CHAR(");
    reveal_strlit("VARCHAR(");
    reveal_strlit("BINARY(");
    reveal_strlit("VARBINARY(");
    reveal_strlit("TINYBLOB");
    reveal_strlit("TINYTEXT");
    reveal_strlit("TEXT");
    reveal_strlit("BLOB(");
    reveal_strlit("MEDIUMTEXT");
    reveal_strlit("MEDIUMBLOB");
    reveal_strlit("LONGTEXT");
    reveal_strlit("LONGBLOB");
    reveal_strlit("BIT(");
    reveal_strlit("TINYINT(");
    reveal_strlit("BOOLEAN");
    reveal_strlit("BOOL");
    reveal_strlit("SMALLINT(");
    reveal_strlit("MEDIUMINT(");
    reveal_strlit("INTEGER(");
    reveal_strlit("INT(");
    reveal_strlit("BIGINT(");
    reveal_strlit("FLOAT(");
    reveal_strlit("DECIMAL(");
    reveal_strlit("DATETIME");
    reveal_strlit("DATE");
    let u = up_seq(type_text(AttributeType::TimeStamp));
    assert(u =~= "TIMESTAMP"@);
    assert(u[0] == 'T');
    assert(u[1] == 'I');
    assert(u[2] == 'M');
    skip_sized(u, "CHAR("@, 0);
    skip_sized(u, "VARCHAR("@, 0);
    skip_sized(u, "BINARY("@, 0);
    skip_sized(u, "VARBINARY("@, 0);
    skip_bare(u, "TINYBLOB"@, 2);
    skip_bare(u, "TINYTEXT"@, 2);
    skip_bare(u, "TEXT"@, 1);
    skip_sized(u, "BLOB("@, 0);
    skip_bare(u, "MEDIUMTEXT"@, 0);
    skip_bare(u, "MEDIUMBLOB"@, 0);
    skip_bare(u, "LONGTEXT"@, 0);
    skip_bare(u, "LONGBLOB"@, 0);
    skip_sized(u, "BIT("@, 0);
    skip_sized(u, "TINYINT("@, 2);
    skip_bare(u, "BOOLEAN"@, 0);
    skip_bare(u, "BOOL"@, 0);
    skip_sized(u, "SMALLINT("@, 0);
    skip_sized(u, "MEDIUMINT("@, 0);
    skip_sized(u, "INTEGER("@, 0);
    skip_sized(u, "INT("@, 0);
    skip_sized(u, "BIGINT("@, 0);
    skip_sized(u, "FLOAT("@, 0);
    skip_sized2(u, "DECIMAL("@, 0);
    skip_bare(u, "DATETIME"@, 0);
    skip_bare(u, "DATE"@, 0);
    assert(parse_type(u) == Some(AttributeType::TimeStamp));
}

proof fn rt_time()
    ensures
        parse_type(up_seq(type_text(AttributeType::Time))) == Some(AttributeType::Time),
{
    reveal_strlit("time");
    reveal_strlit("TIME");
    reveal_strlit("CHAR(");
    reveal_strlit("VARCHAR(");
    reveal_strlit("BINARY(");
    reveal_strlit("VARBINARY(");
    reveal_strlit("TINYBLOB");
    reveal_strlit("TINYTEXT");
    reveal_strlit("TEXT");
    reveal_strlit("BLOB(");
    reveal_strlit("MEDIUMTEXT");
    reveal_strlit("MEDIUMBLOB");
    reveal_strlit("LONGTEXT");
    reveal_strlit("LONGBLOB");
    reveal_strlit("BIT(");
    reveal_strlit("TINYINT(");
    reveal_strlit("BOOLEAN");
    reveal_strlit("BOOL");
    reveal_strlit("SMALLINT(");
    reveal_strlit("MEDIUMINT(");
    reveal_strlit("INTEGER(");
    reveal_strlit("INT(");
    reveal_strlit("BIGINT(");
    reveal_strlit("FLOAT(");
    reveal_strlit("DECIMAL(");
    reveal_strlit("DATETIME");
    reveal_strlit("DATE");
    reveal_strlit("TIMESTAMP");
    let u = up_seq(type_text(AttributeType::Time));
    assert(u =~= "TIME"@);
    assert(u[0] == 'T');
    assert(u[1] == 'I');
    assert(u[2] == 'M');
    skip_sized(u, "CHAR("@, 0);
    skip_sized(u, "VARCHAR("@, 0);
    skip_sized(u, "BINARY("@, 0);
    skip_sized(u, "VARBINARY("@, 0);
    skip_bare(u, "TINYBLOB"@, 2);
    skip_bare(u, "TINYTEXT"@, 2);
    skip_bare(u, "TEXT"@, 1);
    skip_sized(u, "BLOB("@, 0);
    skip_bare(u, "MEDIUMTEXT"@, 0);
    skip_bare(u, "MEDIUMBLOB"@, 0);
    skip_bare(u, "LONGTEXT"@, 0);
    skip_bare(u, "LONGBLOB"@, 0);
    skip_sized(u, "BIT("@, 0);
    skip_sized(u, "TINYINT("@, 2);
    skip_bare(u, "BOOLEAN"@, 0);
    skip_bare(u, "BOOL"@, 0);
    skip_sized(u, "SMALLINT("@, 0);
    skip_sized(u, "MEDIUMINT("@, 0);
    skip_sized(u, "INTEGER("@, 0);
    skip_sized(u, "INT("@, 0);
    skip_sized(u, "BIGINT("@, 0);
    skip_sized(u, "FLOAT("@, 0);
    skip_sized2(u, "DECIMAL("@, 0);
    skip_bare(u, "DATETIME"@, 0);
    skip_bare(u, "DATE"@, 0);
    skip_bare(u, "TIMESTAMP"@, 0);
    assert(parse_type(u) == Some(AttributeType::Time));
}

proof fn rt_year()
    ensures
        parse_type(up_seq(type_text(AttributeType::Year))) == Some(AttributeType::Year),
{
    reveal_strlit("year");
    reveal_strlit("YEAR");
    reveal_strlit("CHAR(");
    reveal_strlit("VARCHAR(");
    reveal_strlit("BINARY(");
    reveal_strlit("VARBINARY(");
    reveal_strlit("TINYBLOB");
    reveal_strlit("TINYTEXT");
    reveal_strlit("TEXT");
    reveal_strlit("BLOB(");
    reveal_strlit("MEDIUMTEXT");
    reveal_strlit("MEDIUMBLOB");
    reveal_strlit("LONGTEXT");
    reveal_strlit("LONGBLOB");
    reveal_strlit("BIT(");
    reveal_strlit("TINYINT(");
    reveal_strlit("BOOLEAN");
    reveal_strlit("BOOL");
    reveal_strlit("SMALLINT(");
    reveal_strlit("MEDIUMINT(");
    reveal_strlit("INTEGER(");
    reveal_strlit("INT(");
    reveal_strlit("BIGINT(");
    reveal_strlit("FLOAT(");
    reveal_strlit("DECIMAL(");
    reveal_strlit("DATETIME");
    reveal_strlit("DATE");
    reveal_strlit("TIMESTAMP");
    reveal_strlit("TIME");
    let u = up_seq(type_text(AttributeType::Year));
    assert(u =~= "YEAR"@);
    assert(u[0] == 'Y');
    skip_sized(u, "CHAR("@, 0);
    skip_sized(u, "VARCHAR("@, 0);
    skip_sized(u, "BINARY("@, 0);
    skip_sized(u, "VARBINARY("@, 0);
    skip_bare(u, "TINYBLOB"@, 0);
    skip_bare(u, "TINYTEXT"@, 0);
    skip_bare(u, "TEXT"@, 0);
    skip_sized(u, "BLOB("@, 0);
    skip_bare(u, "MEDIUMTEXT"@, 0);
    skip_bare(u, "MEDIUMBLOB"@, 0);
    skip_bare(u, "LONGTEXT"@, 0);
    skip_bare(u, "LONGBLOB"@, 0);
    skip_sized(u, "BIT("@, 0);
    skip_sized(u, "TINYINT("@, 0);
    skip_bare(u, "BOOLEAN"@, 0);
    skip_bare(u, "BOOL"@, 0);
    skip_sized(u, "SMALLINT("@, 0);
    skip_sized(u, "MEDIUMINT("@, 0);
    skip_sized(u, "INTEGER("@, 0);
    skip_sized(u, "INT("@, 0);
    skip_sized(u, "BIGINT("@, 0);
    skip_sized(u, "FLOAT("@, 0);
    skip_sized2(u, "DECIMAL("@, 0);
    skip_bare(u, "DATETIME"@, 0);
    skip_bare(u, "DATE"@, 0);
    skip_bare(u, "TIMESTAMP"@, 0);
    skip_bare(u, "TIME"@, 0);
    assert(parse_type(u) == Some(AttributeType::Year));
}

/// The one round-trip exception, shown exactly: the rendered text of a
/// `Decimal` variant keeps the historical spelling `decmimal`, which no
/// pattern of the vocabulary matches, so re-parsing it yields nothing.
pub proof fn lemma_decimal_text_does_not_reparse(a: u8, b: u8)
    ensures
        parse_type(up_seq(type_text(AttributeType::Decimal(a, b)))) is None,
{
    reveal_strlit("decmimal(");
    reveal_strlit("DECMIMAL(");
    reveal_strlit(",");
    reveal_strlit(")");
    reveal_strlit("CHAR(");
    reveal_strlit("VARCHAR(");
    reveal_strlit("BINARY(");
    reveal_strlit("VARBINARY(");
    reveal_strlit("TINYBLOB");
    reveal_strlit("TINYTEXT");
    reveal_strlit("TEXT");
    reveal_strlit("BLOB(");
    reveal_strlit("MEDIUMTEXT");
    reveal_strlit("MEDIUMBLOB");
    reveal_strlit("LONGTEXT");
    reveal_strlit("LONGBLOB");
    reveal_strlit("BIT(");
    reveal_strlit("TINYINT(");
    reveal_strlit("BOOLEAN");
    reveal_strlit("BOOL");
    reveal_strlit("SMALLINT(");
    reveal_strlit("MEDIUMINT(");
    reveal_strlit("INTEGER(");
    reveal_strlit("INT(");
    reveal_strlit("BIGINT(");
    reveal_strlit("FLOAT(");
    reveal_strlit("DECIMAL(");
    reveal_strlit("DATETIME");
    reveal_strlit("DATE");
    reveal_strlit("TIMESTAMP");
    reveal_strlit("TIME");
    reveal_strlit("YEAR");
    let d1 = dec_rep(a as nat);
    let d2 = dec_rep(b as nat);
    lemma_dec_rep_digits(a as nat);
    lemma_dec_rep_digits(b as nat);
    let low = type_text(AttributeType::Decimal(a, b));
    lemma_up_seq_concat("decmimal("@ + d1 + ","@ + d2, ")"@);
    lemma_up_seq_concat("decmimal("@ + d1 + ","@, d2);
    lemma_up_seq_concat("decmimal("@ + d1, ","@);
    lemma_up_seq_concat("decmimal("@, d1);
    lemma_up_seq_digits(d1);
    lemma_up_seq_digits(d2);
    assert(up_seq("decmimal("@) =~= "DECMIMAL("@);
    assert(up_seq(","@) =~= ","@);
    assert(up_seq(")"@) =~= ")"@);
    let u = up_seq(low);
    assert(u =~= "DECMIMAL("@ + d1 + ","@ + d2 + ")"@);
    assert(u[0] == 'D');
    assert(u[1] == 'E');
    assert(u[3] == 'M');
    skip_sized(u, "CHAR("@, 0);
    skip_sized(u, "VARCHAR("@, 0);
    skip_sized(u, "BINARY("@, 0);
    skip_sized(u, "VARBINARY("@, 0);
    skip_bare(u, "TINYBLOB"@, 0);
    skip_bare(u, "TINYTEXT"@, 0);
    skip_bare(u, "TEXT"@, 0);
    skip_sized(u, "BLOB("@, 0);
    skip_bare(u, "MEDIUMTEXT"@, 0);
    skip_bare(u, "MEDIUMBLOB"@, 0);
    skip_bare(u, "LONGTEXT"@, 0);
    skip_bare(u, "LONGBLOB"@, 0);
    skip_sized(u, "BIT("@, 0);
    skip_sized(u, "TINYINT("@, 0);
    skip_bare(u, "BOOLEAN"@, 0);
    skip_bare(u, "BOOL"@, 0);
    skip_sized(u, "SMALLINT("@, 0);
    skip_sized(u, "MEDIUMINT("@, 0);
    skip_sized(u, "INTEGER("@, 0);
    skip_sized(u, "INT("@, 0);
    skip_sized(u, "BIGINT("@, 0);
    skip_sized(u, "FLOAT("@, 0);
    skip_sized2(u, "DECIMAL("@, 3);
    skip_bare(u, "DATETIME"@, 1);
    skip_bare(u, "DATE"@, 1);
    skip_bare(u, "TIMESTAMP"@, 0);
    skip_bare(u, "TIME"@, 0);
    skip_bare(u, "YEAR"@, 0);
    assert(parse_type(u) is None);
}

/// Round trip of the parse and the rendering: every variant other than
/// `Decimal` re-parses, from the upper-cased declaration text it renders to,
/// as the identical variant. `Decimal` is the one exception: its rendered
/// text keeps the historical spelling `decmimal`, which no pattern of the
/// vocabulary matches, so its text does not re-parse.
pub proof fn lemma_parse_render_round_trip(t: AttributeType)
    requires
        !(t is Decimal),
    ensures
        parse_type(up_seq(type_text(t))) == Some(t),
{
    match t {
        AttributeType::Char(v) => rt_char(v),
        AttributeType::VarChar(v) => rt_varchar(v),
        AttributeType::Binary(v) => rt_binary(v),
        AttributeType::VarBinary(v) => rt_varbinary(v),
        AttributeType::TinyBlob => rt_tinyblob(),
        AttributeType::TinyText => rt_tinytext(),
        AttributeType::Text => rt_text(),
        AttributeType::Blob(v) => rt_blob(v),
        AttributeType::MediumText => rt_mediumtext(),
        AttributeType::MediumBlob => rt_mediumblob(),
        AttributeType::LongText => rt_longtext(),
        AttributeType::LongBlob => rt_longblob(),
        AttributeType::Bit(v) => rt_bit(v),
        AttributeType::TinyInt(v) => rt_tinyint(v),
        AttributeType::Bool => rt_bool(),
        AttributeType::Boolean => rt_boolean(),
        AttributeType::SmallInt(v) => rt_smallint(v),
        AttributeType::MediumInt(v) => rt_mediumint(v),
        AttributeType::Int(v) => rt_int(v),
        AttributeType::BigInt(v) => rt_bigint(v),
        AttributeType::Float(v) => rt_float(v),
        AttributeType::Decimal(_, _) => {},
        AttributeType::Date => rt_date(),
        AttributeType::DateTime => rt_datetime(),
        AttributeType::TimeStamp => rt_timestamp(),
        AttributeType::Time => rt_time(),
        AttributeType::Year => rt_year(),
    }
}

} // verus!
