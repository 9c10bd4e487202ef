use relation::{ascii_to_upper, Attribute, AttributeType, MetadataRow, ReflectError, Table};

fn row(name: &str, ty: &str, nullable: &str, key: &str, extra: &str) -> MetadataRow {
    MetadataRow {
        name: String::from(name),
        type_decl: String::from(ty),
        nullable: String::from(nullable),
        key: String::from(key),
        extra: String::from(extra),
    }
}

#[test]
fn parse_is_deterministic() {
    assert_eq!(
        AttributeType::from("VARCHAR(255)"),
        AttributeType::from("VARCHAR(255)")
    );
    assert_eq!(AttributeType::from("INT(11)"), Some(AttributeType::Int(11)));
}

#[test]
fn parse_known_declarations() {
    assert_eq!(AttributeType::from("CHAR(8)"), Some(AttributeType::Char(8)));
    assert_eq!(
        AttributeType::from("VARBINARY(512)"),
        Some(AttributeType::VarBinary(512))
    );
    assert_eq!(AttributeType::from("TEXT"), Some(AttributeType::Text));
    assert_eq!(
        AttributeType::from("MEDIUMBLOB"),
        Some(AttributeType::MediumBlob)
    );
    assert_eq!(
        AttributeType::from("DECIMAL(10,2)"),
        Some(AttributeType::Decimal(10, 2))
    );
    assert_eq!(AttributeType::from("YEAR"), Some(AttributeType::Year));
}

#[test]
fn longer_keyword_wins_over_its_prefix() {
    assert_eq!(
        AttributeType::from("DATETIME"),
        Some(AttributeType::DateTime)
    );
    assert_eq!(AttributeType::from("DATE"), Some(AttributeType::Date));
    assert_eq!(
        AttributeType::from("TIMESTAMP"),
        Some(AttributeType::TimeStamp)
    );
    assert_eq!(AttributeType::from("TIME"), Some(AttributeType::Time));
    assert_eq!(AttributeType::from("BOOLEAN"), Some(AttributeType::Boolean));
    assert_eq!(AttributeType::from("BOOL"), Some(AttributeType::Bool));
    assert_eq!(
        AttributeType::from("INTEGER(11)"),
        Some(AttributeType::Int(11))
    );
    assert_eq!(
        AttributeType::from("BIGINT(20)"),
        Some(AttributeType::BigInt(20))
    );
}

#[test]
fn unrecognized_declarations_have_no_parse() {
    assert_eq!(AttributeType::from("GEOMETRY"), None);
    assert_eq!(AttributeType::from(""), None);
    assert_eq!(AttributeType::from("VARCHAR()"), None);
    assert_eq!(AttributeType::from("VARCHAR(12"), None);
    // A numeric argument wider than the variant declares is refused, not
    // clamped.
    assert_eq!(AttributeType::from("CHAR(999)"), None);
    assert_eq!(AttributeType::from("VARCHAR(70000)"), None);
}

#[test]
fn rendered_type_reparses() {
    let variants = vec![
        AttributeType::Char(3),
        AttributeType::VarChar(255),
        AttributeType::Binary(16),
        AttributeType::VarBinary(64),
        AttributeType::TinyBlob,
        AttributeType::TinyText,
        AttributeType::Text,
        AttributeType::Blob(1000),
        AttributeType::MediumText,
        AttributeType::MediumBlob,
        AttributeType::LongText,
        AttributeType::LongBlob,
        AttributeType::Bit(1),
        AttributeType::TinyInt(4),
        AttributeType::Bool,
        AttributeType::Boolean,
        AttributeType::SmallInt(6),
        AttributeType::MediumInt(9),
        AttributeType::Int(11),
        AttributeType::BigInt(20),
        AttributeType::Float(24),
        AttributeType::Date,
        AttributeType::DateTime,
        AttributeType::TimeStamp,
        AttributeType::Time,
        AttributeType::Year,
    ];
    for t in variants {
        let rendered = t.render();
        assert_eq!(AttributeType::from(&ascii_to_upper(&rendered)), Some(t));
    }
}

#[test]
fn decimal_rendering_keeps_its_spelling_and_does_not_reparse() {
    let t = AttributeType::Decimal(10, 2);
    assert_eq!(t.render(), "decmimal(10,2)");
    assert_eq!(AttributeType::from(&ascii_to_upper(&t.render())), None);
}

#[test]
fn timestamp_renders_with_its_historical_capital() {
    assert_eq!(AttributeType::TimeStamp.render(), "timeStamp");
}

#[test]
fn from_row_builds_constraints() {
    let a = Attribute::from_row(&row("id", "int(11)", "NO", "UNI", "auto_increment"), "")
        .unwrap()
        .unwrap();
    assert_eq!(a.name, "id");
    assert_eq!(a.data_type, AttributeType::Int(11));
    assert_eq!(a.render(), "id int(11) Unique Not Null Auto_increment");
}

#[test]
fn from_row_drops_unrecognized_type() {
    let r = Attribute::from_row(&row("shape", "geometry", "YES", "", ""), "");
    assert!(matches!(r, Ok(None)));
}

#[test]
fn from_row_resolves_foreign_key() {
    let def = "CREATE TABLE `orders` (`customer` int(11), FOREIGN KEY (`customer`) REFERENCES `customers` (`id`))";
    let a = Attribute::from_row(&row("customer", "int(11)", "YES", "MUL", ""), def)
        .unwrap()
        .unwrap();
    assert_eq!(
        a.render(),
        "customer int(11), FOREIGN KEY(customer) REFERENCES customers(id)"
    );
}

#[test]
fn from_row_fails_on_missing_foreign_key_clause() {
    let def = "CREATE TABLE `orders` (`customer` int(11))";
    let r = Attribute::from_row(&row("customer", "int(11)", "YES", "MUL", ""), def);
    assert_eq!(r.unwrap_err(), ReflectError::ForeignKeyNotFound);
}

#[test]
fn from_row_picks_the_clause_of_its_own_column() {
    let def = "FOREIGN KEY (`supplier`) REFERENCES `suppliers` (`sid`), FOREIGN KEY (`customer`) REFERENCES `customers` (`id`)";
    let a = Attribute::from_row(&row("customer", "int(11)", "YES", "MUL", ""), def)
        .unwrap()
        .unwrap();
    assert_eq!(
        a.render(),
        "customer int(11), FOREIGN KEY(customer) REFERENCES customers(id)"
    );
}

#[test]
fn from_db_reflects_a_table() {
    let rows = vec![
        row("id", "int(11)", "NO", "PRI", ""),
        row("name", "varchar(40)", "YES", "", ""),
    ];
    let t = Table::from_db("people", &rows, "").unwrap();
    assert_eq!(t.name, "people");
    assert_eq!(t.attributes.len(), 2);
    assert_eq!(t.primary_key, Some(0));
    assert_eq!(
        t.render_create(),
        "CREATE TABLE people (id int(11) Not Null,name varchar(40), PRIMARY KEY(id))"
    );
}

#[test]
fn from_db_primary_key_indexes_survivors() {
    let rows = vec![
        row("shape", "geometry", "YES", "", ""),
        row("id", "int(11)", "NO", "PRI", ""),
    ];
    let t = Table::from_db("places", &rows, "").unwrap();
    assert_eq!(t.attributes.len(), 1);
    assert_eq!(t.primary_key, Some(0));
}

#[test]
fn from_db_dropped_primary_key_leaves_none() {
    let rows = vec![
        row("shape", "geometry", "YES", "PRI", ""),
        row("name", "varchar(40)", "YES", "", ""),
    ];
    let t = Table::from_db("places", &rows, "").unwrap();
    assert_eq!(t.attributes.len(), 1);
    assert_eq!(t.primary_key, None);
}

#[test]
fn from_db_fails_on_unconfirmed_foreign_key() {
    let rows = vec![row("customer", "int(11)", "YES", "MUL", "")];
    assert!(Table::from_db("orders", &rows, "CREATE TABLE `orders` ()").is_none());
}

#[test]
fn get_foreign_keys_lists_targets_in_order() {
    let def = "FOREIGN KEY (`supplier`) REFERENCES `suppliers` (`sid`), FOREIGN KEY (`customer`) REFERENCES `customers` (`id`)";
    let rows = vec![
        row("id", "int(11)", "NO", "PRI", ""),
        row("supplier", "int(11)", "YES", "MUL", ""),
        row("customer", "int(11)", "YES", "MUL", ""),
    ];
    let t = Table::from_db("orders", &rows, def).unwrap();
    assert_eq!(
        t.get_foreign_keys(),
        Some(vec![
            (String::from("suppliers"), String::from("sid")),
            (String::from("customers"), String::from("id")),
        ])
    );
}

#[test]
fn get_foreign_keys_is_none_without_any() {
    let rows = vec![row("id", "int(11)", "NO", "PRI", "")];
    let t = Table::from_db("orders", &rows, "").unwrap();
    assert_eq!(t.get_foreign_keys(), None);
}

#[test]
fn ascii_to_upper_leaves_non_letters_alone() {
    assert_eq!(ascii_to_upper("varchar(255)"), "VARCHAR(255)");
    assert_eq!(ascii_to_upper("a-Z9 `"), "A-Z9 `");
}
