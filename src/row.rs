//! The fixed-width record: an id, a username and an email.

use vstd::prelude::*;
use vstd::utf8::encode_utf8;

verus! {

/// Bytes that the id takes in the fixed-width layout.
pub const ID_SIZE: usize = 4;

/// Largest username, in bytes of its UTF-8 encoding.
pub const COLUMN_USERNAME_SIZE: usize = 32;

/// Largest email, in bytes of its UTF-8 encoding.
pub const COLUMN_EMAIL_SIZE: usize = 255;

/// Bytes that one row takes in the fixed-width layout.
pub const ROW_SIZE: usize = ID_SIZE + COLUMN_USERNAME_SIZE + COLUMN_EMAIL_SIZE;

/// Length of a text in bytes of its UTF-8 encoding.
pub open spec fn byte_len(s: Seq<char>) -> nat {
    encode_utf8(s).len()
}

/// The mathematical value of a row.
pub struct RowView {
    pub id: u32,
    pub username: Seq<char>,
    pub email: Seq<char>,
}

/// Whether a row value respects the field sizes of the schema.
pub open spec fn row_fits(r: RowView) -> bool {
    &&& byte_len(r.username) <= COLUMN_USERNAME_SIZE
    &&& byte_len(r.email) <= COLUMN_EMAIL_SIZE
}

/// What building a row from these fields gives: the id is checked first,
/// then the username, then the email.
pub open spec fn validated(id: int, username: Seq<char>, email: Seq<char>) -> Result<
    RowView,
    ValidationError,
> {
    if id < 0 {
        Err(ValidationError::NegativeId)
    } else if id > u32::MAX {
        Err(ValidationError::IdOutOfRange)
    } else if byte_len(username) > COLUMN_USERNAME_SIZE {
        Err(ValidationError::FieldTooLong(Field::Username))
    } else if byte_len(email) > COLUMN_EMAIL_SIZE {
        Err(ValidationError::FieldTooLong(Field::Email))
    } else {
        Ok(RowView { id: id as u32, username, email })
    }
}

/// One record of the table. Rows are made only by `validate_and_build`,
/// `empty` and `clone`, so every row respects the field sizes.
pub struct Row {
    id: u32,
    username: String,
    email: String,
}

/// The field that broke its size limit.
#[derive(Debug, Clone, Copy, PartialEq, Eq, Structural)]
pub enum Field {
    Username,
    Email,
}

/// Why `validate_and_build` refused its input.
#[derive(Debug, Clone, Copy, PartialEq, Eq, Structural)]
pub enum ValidationError {
    /// The id is below zero.
    NegativeId,
    /// The id is above `u32::MAX`, the largest id a row can hold.
    IdOutOfRange,
    /// The field's UTF-8 encoding is longer than the schema allows.
    FieldTooLong(Field),
}

impl View for Row {
    type V = RowView;

    closed spec fn view(&self) -> RowView {
        RowView { id: self.id, username: self.username@, email: self.email@ }
    }
}

/// Length of a string in bytes of its UTF-8 encoding.
pub fn utf8_len(s: &String) -> (r: usize)
    ensures
        r == byte_len(s@),
{
    s.as_str().as_bytes().len()
}

impl Row {
    /// Whether this row respects the field sizes of the schema.
    pub open spec fn wf(&self) -> bool {
        row_fits(self@)
    }

    /// The row with id zero and two empty texts.
    pub fn empty() -> (r: Row)
        ensures
            r@ == (RowView { id: 0, username: Seq::empty(), email: Seq::empty() }),
            r.wf(),
    {
        proof {
            assert(encode_utf8(Seq::<char>::empty()) =~= Seq::<u8>::empty());
        }
        Row { id: 0, username: String::new(), email: String::new() }
    }

    /// Builds a row from its three fields, checking the id first, then the
    /// username, then the email. Nothing is truncated: a field that is too
    /// long is refused.
    pub fn validate_and_build(id: i64, username: String, email: String) -> (r: Result<
        Row,
        ValidationError,
    >)
        ensures
            match validated(id as int, username@, email@) {
                Ok(v) => r is Ok && r->Ok_0@ == v && r->Ok_0.wf(),
                Err(e) => r is Err && r->Err_0 == e,
            },
    {
        if id < 0 {
            return Err(ValidationError::NegativeId);
        }
        if id > u32::MAX as i64 {
            return Err(ValidationError::IdOutOfRange);
        }
        if utf8_len(&username) > COLUMN_USERNAME_SIZE {
            return Err(ValidationError::FieldTooLong(Field::Username));
        }
        if utf8_len(&email) > COLUMN_EMAIL_SIZE {
            return Err(ValidationError::FieldTooLong(Field::Email));
        }
        Ok(Row { id: id as u32, username, email })
    }

    pub fn id(&self) -> (r: u32)
        ensures
            r == self@.id,
    {
        self.id
    }

    pub fn username(&self) -> (r: &str)
        ensures
            r@ == self@.username,
    {
        self.username.as_str()
    }

    pub fn email(&self) -> (r: &str)
        ensures
            r@ == self@.email,
    {
        self.email.as_str()
    }
}

impl Clone for Row {
    fn clone(&self) -> (r: Row)
        ensures
            r@ == self@,
    {
        Row { id: self.id, username: self.username.clone(), email: self.email.clone() }
    }
}

} // verus!
