use vstd::prelude::*;
use crate::names::TableName;

verus! {

/// The guarded drop statement for a table: `DROP TABLE IF EXISTS <name>;`.
pub open spec fn drop_statement_text(name: Seq<char>) -> Seq<char> {
    "DROP TABLE IF EXISTS "@ + name + ";"@
}

/// The file that holds a table's definition: `<name>.sql`.
pub open spec fn definition_file_text(name: Seq<char>) -> Seq<char> {
    name + ".sql"@
}

/// A file name carries the definition extension when it ends in `.sql` after
/// a non-empty stem.
pub open spec fn has_sql_extension(f: Seq<char>) -> bool {
    &&& f.len() > 4
    &&& f[f.len() - 4] == '.'
    &&& f[f.len() - 3] == 's'
    &&& f[f.len() - 2] == 'q'
    &&& f[f.len() - 1] == 'l'
}

/// The stem of a definition file, or nothing for any other file.
pub open spec fn sql_stem(f: Seq<char>) -> Option<Seq<char>> {
    if has_sql_extension(f) {
        Some(f.subrange(0, f.len() - 4))
    } else {
        None
    }
}

/// Builds the drop statement for a table; the `IF EXISTS` guard makes it a
/// no-op when the table is already gone.
pub fn drop_statement(table: &TableName) -> (r: String)
    ensures
        r@ == drop_statement_text(table@),
{
    let mut s = String::from_str("DROP TABLE IF EXISTS ");
    s.append(table.as_str());
    s.append(";");
    s
}

/// Names the file in the definitions directory that defines a table.
pub fn definition_file_name(table: &TableName) -> (r: String)
    ensures
        r@ == definition_file_text(table@),
{
    let mut s = String::from_str(table.as_str());
    s.append(".sql");
    s
}

/// The table a directory entry defines, if it is a definition file.
pub fn definition_stem(file: &str) -> (r: Option<&str>)
    ensures
        r matches Some(stem) ==> sql_stem(file@) == Some(stem@),
        r is None ==> sql_stem(file@) is None,
{
    let n = file.unicode_len();
    if n > 4 && file.get_char(n - 4) == '.' && file.get_char(n - 3) == 's' && file.get_char(n - 2)
        == 'q' && file.get_char(n - 1) == 'l' {
        Some(file.substring_char(0, n - 4))
    } else {
        None
    }
}

} // verus!
