//! Reflection of relational-database metadata into a typed schema model,
//! and synthesis of statement text (CREATE TABLE, DROP TABLE, SELECT, INSERT)
//! from that model.

use vstd::prelude::*;

mod attribute;
mod constraint;
mod fkparse;
mod scan;
mod table;
mod table_laws;
mod text;
mod types;
mod types_laws;

pub use text::ascii_to_upper;
pub use types::AttributeType;
pub use constraint::Constraint;
pub use attribute::{Attribute, MetadataRow, ReflectError};
pub use table::{show_columns_stmt, show_create_stmt, Table};
