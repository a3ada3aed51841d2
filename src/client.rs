use vstd::prelude::*;
use vstd::utf8::encode_utf8;
use std::sync::Arc;
use crate::error::Error;

verus! {

/// One column descriptor of a result set, as sent in a RowDescription.
#[derive(Debug, Clone)]
pub struct Column {
    pub name: String,
    pub table_oid: u32,
    pub column_id: i16,
    pub type_oid: u32,
    pub type_len: i16,
    pub type_mod: i32,
    pub format: i16,
}

/// A column descriptor as it stands on the wire: name bytes, table oid,
/// attribute number, type oid, type size, type modifier and format code.
pub type FieldSpec = (Seq<u8>, u32, i16, u32, i16, i32, i16);

impl Column {
    pub open spec fn spec_field(&self) -> FieldSpec {
        (
            encode_utf8(self.name@),
            self.table_oid,
            self.column_id,
            self.type_oid,
            self.type_len,
            self.type_mod,
            self.format,
        )
    }
}

pub open spec fn fields_of(cols: Seq<Column>) -> Seq<FieldSpec> {
    cols.map_values(|c: Column| c.spec_field())
}

/// One result row: a nullable value per column, and the column descriptors that
/// every row of its result set shares.
pub struct Row {
    pub columns: Arc<Vec<Column>>,
    pub data: Vec<Option<Vec<u8>>>,
}

pub open spec fn raw_at(data: Seq<Option<Vec<u8>>>, index: int) -> Option<Seq<u8>> {
    if 0 <= index < data.len() {
        match data[index] {
            Some(v) => Some(v@),
            None => None,
        }
    } else {
        None
    }
}

/// The character of a decimal digit.
pub open spec fn digit_char(d: nat) -> char {
    ((48 + d) as u8) as char
}

/// The decimal text of a number, without leading zeros.
pub open spec fn decimal(n: nat) -> Seq<char>
    decreases n,
{
    if n < 10 {
        seq![digit_char(n)]
    } else {
        decimal(n / 10).push(digit_char(n % 10))
    }
}

/// The message of the error for a column index past the end of a row.
pub open spec fn index_error_text(index: nat) -> Seq<char> {
    seq!['c', 'o', 'l', 'u', 'm', 'n', ' ', 'i', 'n', 'd', 'e', 'x', ' '] + decimal(index) + seq![
        ' ',
        'o',
        'u',
        't',
        ' ',
        'o',
        'f',
        ' ',
        'b',
        'o',
        'u',
        'n',
        'd',
        's',
    ]
}

fn digit_str(d: usize) -> (r: &'static str)
    requires
        d < 10,
    ensures
        r@ == seq![digit_char(d as nat)],
{
    proof {
        reveal_strlit("0");
        reveal_strlit("1");
        reveal_strlit("2");
        reveal_strlit("3");
        reveal_strlit("4");
        reveal_strlit("5");
        reveal_strlit("6");
        reveal_strlit("7");
        reveal_strlit("8");
        reveal_strlit("9");
    }
    if d == 0 {
        "0"
    } else if d == 1 {
        "1"
    } else if d == 2 {
        "2"
    } else if d == 3 {
        "3"
    } else if d == 4 {
        "4"
    } else if d == 5 {
        "5"
    } else if d == 6 {
        "6"
    } else if d == 7 {
        "7"
    } else if d == 8 {
        "8"
    } else {
        "9"
    }
}

/// The decimal text of a number.
pub fn decimal_string(value: usize) -> (r: String)
    ensures
        r@ == decimal(value as nat),
{
    let mut n: usize = value / 10;
    let mut acc = digit_str(value % 10).to_owned();
    while n > 0
        invariant
            decimal(value as nat) == (if n == 0 { acc@ } else { decimal(n as nat) + acc@ }),
        decreases n,
    {
        let mut next = digit_str(n % 10).to_owned();
        next.append(acc.as_str());
        proof {
            if n >= 10 {
                assert(decimal(n as nat) + acc@ =~= decimal((n / 10) as nat) + next@);
            } else {
                assert(decimal(n as nat) + acc@ =~= next@);
            }
        }
        acc = next;
        n = n / 10;
    }
    acc
}

/// The error for a column index past the end of a row; it names the index.
pub fn index_error(index: usize) -> (e: Error)
    ensures
        e matches Error::Parse(m) && m@ == index_error_text(index as nat),
{
    proof {
        reveal_strlit("column index ");
        reveal_strlit(" out of bounds");
    }
    let mut m = "column index ".to_owned();
    let digits = decimal_string(index);
    m.append(digits.as_str());
    m.append(" out of bounds");
    assert(m@ =~= index_error_text(index as nat));
    Error::Parse(m)
}

impl Row {
    /// The raw bytes of a column, or `None` for SQL NULL or an index past the end.
    pub fn get_raw(&self, index: usize) -> (r: Option<&Vec<u8>>)
        ensures
            match raw_at(self.data@, index as int) {
                Some(b) => r matches Some(v) && v@ == b,
                None => r is None,
            },
    {
        if index < self.data.len() {
            match &self.data[index] {
                Some(v) => Some(v),
                None => None,
            }
        } else {
            None
        }
    }

    /// What a typed decoder needs for a column: its type oid and its raw bytes
    /// (`None` for SQL NULL). An index past the columns is a parse error that
    /// names the index.
    pub fn typed_input(&self, index: usize) -> (r: Result<(u32, Option<&Vec<u8>>), Error>)
        ensures
            index < self.columns@.len() ==> (r matches Ok(x) && x.0 == self.columns@[index as int].type_oid
                && match raw_at(self.data@, index as int) {
                Some(b) => x.1 matches Some(v) && v@ == b,
                None => x.1 is None,
            }),
            index >= self.columns@.len() ==> (r matches Err(Error::Parse(m)) && m@ == index_error_text(index as nat)),
    {
        if index >= self.columns.len() {
            return Err(index_error(index));
        }
        let oid = self.columns[index].type_oid;
        Ok((oid, self.get_raw(index)))
    }
}

} // verus!
