use vstd::prelude::*;

verus! {

/// A character a SQL identifier may contain.
pub open spec fn is_ident_char(c: char) -> bool {
    ('a' <= c <= 'z') || ('A' <= c <= 'Z') || ('0' <= c <= '9') || c == '_'
}

/// A name that is safe to splice into a query as an identifier: ASCII
/// letters, digits and underscores only.
pub open spec fn is_valid_ident(s: Seq<char>) -> bool {
    forall|i: int| 0 <= i < s.len() ==> is_ident_char(#[trigger] s[i])
}

fn ident_char(c: char) -> (r: bool)
    ensures
        r == is_ident_char(c),
{
    ('a' <= c && c <= 'z') || ('A' <= c && c <= 'Z') || ('0' <= c && c <= '9') || c == '_'
}

fn valid_ident(s: &str) -> (r: bool)
    ensures
        r == is_valid_ident(s@),
{
    let len = s.unicode_len();
    let mut i: usize = 0;
    while i < len
        invariant
            len == s@.len(),
            i <= len,
            forall|k: int| 0 <= k < i ==> is_ident_char(#[trigger] s@[k]),
        decreases len - i,
    {
        if !ident_char(s.get_char(i)) {
            return false;
        }
        i = i + 1;
    }
    true
}

/// Guards dynamically spliced table and column names: true exactly when
/// the table name, and the column name if one is given, hold nothing but
/// identifier characters.
pub fn validate_identifier(table: &str, column: Option<&str>) -> (r: bool)
    ensures
        r == (is_valid_ident(table@) && match column {
            Some(c) => is_valid_ident(c@),
            None => true,
        }),
{
    if !valid_ident(table) {
        return false;
    }
    match column {
        Some(col) => valid_ident(col),
        None => true,
    }
}

} // verus!
