//! Bootstrap helpers: the SQL text that creates the fingerprint table and
//! the connection URL for the database. Running the statements and
//! prompting for configuration are I/O and live outside this library.

use vstd::prelude::*;

use crate::text::{dec_of_signed, i32_to_string, join_with};

verus! {

/// The column type a serialized field maps to.
#[derive(Debug, Clone, Copy, PartialEq, Eq, Structural)]
pub enum FieldKind {
    Text,
    Number,
    Boolean,
    Other,
}

/// One column of the table to create: its name and the kind of value it
/// holds.
pub struct ColumnDef {
    pub name: String,
    pub kind: FieldKind,
}

/// The mathematical value of a `ColumnDef`.
pub ghost struct ColumnDefView {
    pub name: Seq<char>,
    pub kind: FieldKind,
}

impl View for ColumnDef {
    type V = ColumnDefView;

    open spec fn view(&self) -> ColumnDefView {
        ColumnDefView { name: self.name@, kind: self.kind }
    }
}

impl DeepView for ColumnDef {
    type V = ColumnDefView;

    open spec fn deep_view(&self) -> ColumnDefView {
        self@
    }
}

/// The SQL type a column of the given kind is declared with.
pub open spec fn sql_type_spec(kind: FieldKind) -> Seq<char> {
    match kind {
        FieldKind::Number => "INT"@,
        FieldKind::Boolean => "BOOLEAN"@,
        _ => "VARCHAR(255)"@,
    }
}

fn sql_type(kind: FieldKind) -> (r: &'static str)
    ensures
        r@ == sql_type_spec(kind),
{
    match kind {
        FieldKind::Number => "INT",
        FieldKind::Boolean => "BOOLEAN",
        _ => "VARCHAR(255)",
    }
}

/// The line declaring one column, indented as the statement lays it out.
pub open spec fn column_line_spec(column: ColumnDefView) -> Seq<char> {
    "    "@ + column.name + " "@ + sql_type_spec(column.kind)
}

/// The full CREATE TABLE statement for the given table and columns: an
/// auto-incrementing `id` key first, then one line per column, in the
/// given order.
pub open spec fn create_table_query_spec(table_name: Seq<char>, columns: Seq<ColumnDefView>) -> Seq<
    char,
> {
    "CREATE TABLE IF NOT EXISTS "@ + table_name
        + " (\n    id INT AUTO_INCREMENT PRIMARY KEY,\n"@ + join_with(
        columns.map_values(|c: ColumnDefView| column_line_spec(c)),
        ",\n"@,
    ) + "\n)"@
}

/// Builds the CREATE TABLE statement for the fingerprint table from the
/// serialized field layout of the row type.
pub fn build_create_table_query(table_name: &str, columns: &Vec<ColumnDef>) -> (r: String)
    ensures
        r@ == create_table_query_spec(table_name@, columns.deep_view()),
{
    let ghost lines = columns.deep_view().map_values(|c: ColumnDefView| column_line_spec(c));
    let mut create_table_query = String::from_str("CREATE TABLE IF NOT EXISTS ");
    create_table_query.append(table_name);
    create_table_query.append(" (\n");
    create_table_query.append("    id INT AUTO_INCREMENT PRIMARY KEY,\n");
    let ghost head = create_table_query@;
    proof {
        reveal_strlit(" (\n");
        reveal_strlit("    id INT AUTO_INCREMENT PRIMARY KEY,\n");
        reveal_strlit(" (\n    id INT AUTO_INCREMENT PRIMARY KEY,\n");
        assert(head =~= "CREATE TABLE IF NOT EXISTS "@ + table_name@
            + " (\n    id INT AUTO_INCREMENT PRIMARY KEY,\n"@);
    }
    let mut is_first_field = true;
    let mut i: usize = 0;
    while i < columns.len()
        invariant
            0 <= i <= columns@.len(),
            columns.deep_view().len() == columns@.len(),
            lines == columns.deep_view().map_values(|c: ColumnDefView| column_line_spec(c)),
            is_first_field == (i == 0),
            create_table_query@ == head + join_with(lines.take(i as int), ",\n"@),
        decreases columns@.len() - i,
    {
        if is_first_field {
            is_first_field = false;
        } else {
            create_table_query.append(",\n");
        }
        create_table_query.append("    ");
        create_table_query.append(columns[i].name.as_str());
        create_table_query.append(" ");
        create_table_query.append(sql_type(columns[i].kind));
        proof {
            assert(lines.take(i + 1) =~= lines.take(i as int).push(lines[i as int]));
            crate::text::lemma_join_with_push(lines.take(i as int), ",\n"@, lines[i as int]);
            assert(lines[i as int] == column_line_spec(columns.deep_view()[i as int]));
            if i == 0 {
                assert(join_with(lines.take(0), ",\n"@) =~= Seq::<char>::empty());
                assert(head + join_with(lines.take(0), ",\n"@) =~= head);
                assert(create_table_query@ =~= head + join_with(lines.take(1), ",\n"@));
            } else {
                assert(create_table_query@ =~= head + join_with(lines.take(i + 1), ",\n"@));
            }
        }
        i = i + 1;
    }
    create_table_query.append("\n)");
    proof {
        assert(lines.take(columns@.len() as int) =~= lines);
        assert(create_table_query@ =~= create_table_query_spec(
            table_name@,
            columns.deep_view(),
        ));
    }
    create_table_query
}

/// The database connection URL the daemon uses, with or without the
/// database path segment.
pub open spec fn connection_url_spec(
    db_username: Seq<char>,
    db_pass: Seq<char>,
    port: int,
    with_db: bool,
) -> Seq<char> {
    "mysql://"@ + db_username + ":"@ + db_pass + "@localhost:"@ + dec_of_signed(port) + if with_db {
        "/hnotify"@
    } else {
        Seq::<char>::empty()
    }
}

/// Builds the connection URL from the configured credentials and port;
/// `with_db` selects whether the daemon's database is named in the path.
pub fn connection_url(db_username: &str, db_pass: &str, port: i32, with_db: bool) -> (r: String)
    ensures
        r@ == connection_url_spec(db_username@, db_pass@, port as int, with_db),
{
    let mut url = String::from_str("mysql://");
    url.append(db_username);
    url.append(":");
    url.append(db_pass);
    url.append("@localhost:");
    let port_text = i32_to_string(port);
    url.append(port_text.as_str());
    if with_db {
        url.append("/hnotify");
    }
    proof {
        assert(url@ =~= connection_url_spec(db_username@, db_pass@, port as int, with_db));
    }
    url
}

} // verus!
