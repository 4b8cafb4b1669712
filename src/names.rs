use vstd::prelude::*;

verus! {

/// A character allowed in a table name: an ASCII letter, an ASCII digit or `_`.
pub open spec fn is_name_char(c: char) -> bool {
    ('a' <= c && c <= 'z') || ('A' <= c && c <= 'Z') || ('0' <= c && c <= '9') || c == '_'
}

/// A table name is non-empty and made only of name characters, so that it is
/// safe both as a file stem and as an SQL identifier.
pub open spec fn valid_table_name(s: Seq<char>) -> bool {
    &&& s.len() > 0
    &&& forall|i: int| 0 <= i < s.len() ==> is_name_char(#[trigger] s[i])
}

/// Tests one character against the allow-list.
pub fn is_table_name_char(c: char) -> (r: bool)
    ensures
        r == is_name_char(c),
{
    ('a' <= c && c <= 'z') || ('A' <= c && c <= 'Z') || ('0' <= c && c <= '9') || c == '_'
}

/// Tests a whole string against the table-name rules.
pub fn is_valid_table_name(s: &str) -> (r: bool)
    ensures
        r == valid_table_name(s@),
{
    let n = s.unicode_len();
    if n == 0 {
        return false;
    }
    let mut i: usize = 0;
    while i < n
        invariant
            n == s@.len(),
            i <= n,
            forall|j: int| 0 <= j < i ==> is_name_char(#[trigger] s@[j]),
        decreases n - i,
    {
        let c = s.get_char(i);
        if !is_table_name_char(c) {
            return false;
        }
        i = i + 1;
    }
    true
}

/// Why a text was refused as a table name.
#[derive(Debug, Clone, PartialEq, Eq)]
pub enum NameError {
    /// The text is empty or holds a character outside the allow-list.
    Invalid { text: String },
}

/// The name of one table: checked once when made, never changed after.
#[derive(Debug, PartialEq, Eq)]
pub struct TableName {
    name: String,
}

impl View for TableName {
    type V = Seq<char>;

    closed spec fn view(&self) -> Seq<char> {
        self.name@
    }
}

impl TableName {
    #[verifier::type_invariant]
    spec fn inv(self) -> bool {
        valid_table_name(self.name@)
    }

    /// Accepts `s` as a table name exactly when it obeys the naming rules.
    pub fn parse(s: &str) -> (r: Result<TableName, NameError>)
        ensures
            r is Ok <==> valid_table_name(s@),
            r matches Ok(t) ==> t@ == s@,
            r matches Err(NameError::Invalid { text }) ==> text@ == s@,
    {
        if is_valid_table_name(s) {
            Ok(TableName { name: String::from_str(s) })
        } else {
            Err(NameError::Invalid { text: String::from_str(s) })
        }
    }

    /// The name as text.
    pub fn as_str(&self) -> (r: &str)
        ensures
            r@ == self@,
    {
        self.name.as_str()
    }

    /// A copy of this name.
    pub fn duplicate(&self) -> (r: TableName)
        ensures
            r@ == self@,
    {
        proof {
            use_type_invariant(self);
        }
        TableName { name: self.name.clone() }
    }

    /// Compares two names by their text.
    pub fn same_as(&self, other: &TableName) -> (r: bool)
        ensures
            r == (self@ == other@),
    {
        self.name == other.name
    }
}

} // verus!
