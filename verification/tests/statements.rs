use relation::{Attribute, AttributeType, Constraint, Table};

fn five_column_table() -> Table {
    Table {
        name: String::from("table_1"),
        attributes: vec![
            Attribute {
                name: String::from("PersonID"),
                data_type: AttributeType::Int(16),
                constraint: Vec::new(),
            },
            Attribute {
                name: String::from("LastName"),
                data_type: AttributeType::VarChar(255),
                constraint: Vec::new(),
            },
            Attribute {
                name: String::from("FirstName"),
                data_type: AttributeType::VarChar(255),
                constraint: Vec::new(),
            },
            Attribute {
                name: String::from("Address"),
                data_type: AttributeType::VarChar(255),
                constraint: Vec::new(),
            },
            Attribute {
                name: String::from("City"),
                data_type: AttributeType::VarChar(255),
                constraint: Vec::new(),
            },
        ],
        primary_key: None,
    }
}

#[test]
fn create_test_1() {
    let table = Table {
        name: String::from("table_1"),
        attributes: vec![Attribute {
            name: String::from("attr_1"),
            data_type: AttributeType::Text,
            constraint: vec![Constraint::NotNull, Constraint::Unique],
        }],
        primary_key: Some(0),
    };

    assert_eq!(
        table.render_create(),
        "CREATE TABLE table_1 (attr_1 text Unique Not Null, PRIMARY KEY(attr_1))"
    )
}

#[test]
fn create_test_2() {
    let table = Table {
        name: String::from("table_1"),
        attributes: vec![Attribute {
            name: String::from("attr_1"),
            data_type: AttributeType::Text,
            constraint: Vec::new(),
        }],
        primary_key: Some(0),
    };

    assert_eq!(
        table.render_create(),
        "CREATE TABLE table_1 (attr_1 text, PRIMARY KEY(attr_1))"
    )
}

#[test]
fn insert_test_1() {
    let table = five_column_table();

    let values = vec![
        (String::from("PersonID"), String::from("23")),
        (String::from("LastName"), String::from("'Doe'")),
        (String::from("FirstName"), String::from("'John'")),
        (String::from("Address"), String::from("'1st Street'")),
        (String::from("City"), String::from("'Night City'")),
    ];

    let actual = table.insert(&values);

    assert_eq!(
        actual,
        Some(String::from(
            "INSERT INTO table_1(PersonID,LastName,FirstName,Address,City) VALUES (23,'Doe','John','1st Street','Night City')"
        ))
    );
}

#[test]
fn insert_test_2() {
    let table = five_column_table();

    let values = vec![
        (String::from("PersonID"), String::from("23")),
        (String::from("LastName"), String::from("'Doe'")),
        (String::from("FirstName"), String::from("'John'")),
    ];

    let actual = table.insert(&values);

    assert_eq!(
        actual,
        Some(String::from(
            "INSERT INTO table_1(PersonID,LastName,FirstName) VALUES (23,'Doe','John')"
        ))
    );
}

#[test]
fn insert_test_3() {
    let table = five_column_table();

    let values = Vec::new();

    let actual = table.insert(&values);

    assert_eq!(actual, None);
}

#[test]
fn insert_ignores_pair_order() {
    let table = five_column_table();

    let forward = vec![
        (String::from("PersonID"), String::from("23")),
        (String::from("LastName"), String::from("'Doe'")),
        (String::from("FirstName"), String::from("'John'")),
    ];
    let mut backward = forward.clone();
    backward.reverse();

    assert_eq!(table.insert(&forward), table.insert(&backward));
    assert_eq!(
        table.insert(&backward),
        Some(String::from(
            "INSERT INTO table_1(PersonID,LastName,FirstName) VALUES (23,'Doe','John')"
        ))
    );
}

#[test]
fn insert_skips_unknown_columns() {
    let table = five_column_table();

    let values = vec![(String::from("NoSuchColumn"), String::from("1"))];

    assert_eq!(table.insert(&values), None);
}

#[test]
fn drop_and_select_statements() {
    let table = five_column_table();

    assert_eq!(table.render_drop(), "DROP TABLE table_1");
    assert_eq!(table.render_select_all(), "SELECT * FROM table_1");
}

#[test]
fn metadata_statements() {
    assert_eq!(
        relation::show_columns_stmt("employees"),
        "SHOW FULL COLUMNS FROM employees"
    );
    assert_eq!(
        relation::show_create_stmt("employees"),
        "SHOW CREATE TABLE `employees`;"
    );
}

#[test]
fn create_with_foreign_key_clause() {
    let table = Table {
        name: String::from("orders"),
        attributes: vec![
            Attribute {
                name: String::from("id"),
                data_type: AttributeType::Int(11),
                constraint: vec![Constraint::NotNull, Constraint::AutoIncrement],
            },
            Attribute {
                name: String::from("customer"),
                data_type: AttributeType::Int(11),
                constraint: vec![Constraint::ForeignKey {
                    table_name: String::from("customers"),
                    attribute_name: String::from("id"),
                }],
            },
        ],
        primary_key: Some(0),
    };

    assert_eq!(
        table.render_create(),
        "CREATE TABLE orders (id int(11) Not Null Auto_increment,customer int(11), FOREIGN KEY(customer) REFERENCES customers(id), PRIMARY KEY(id))"
    );
}

#[test]
fn schema_fmt_is_name_and_type() {
    let attr = Attribute {
        name: String::from("PersonID"),
        data_type: AttributeType::Int(16),
        constraint: Vec::new(),
    };

    assert_eq!(attr.schema_fmt(), "PersonID int(16)");
}

#[test]
fn constraint_words_render() {
    assert_eq!(Constraint::NotNull.render(), "Not Null");
    assert_eq!(Constraint::Unique.render(), "Unique");
    assert_eq!(Constraint::AutoIncrement.render(), "Auto_increment");
    assert_eq!(
        Constraint::ForeignKey {
            table_name: String::from("customers"),
            attribute_name: String::from("id"),
        }
        .render(),
        "customers(id)"
    );
}
