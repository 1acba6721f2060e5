//! The request and row types of the `user` resource.
pub mod decimal;
pub mod string_to_number;

use vstd::prelude::*;
use time::OffsetDateTime;
use validator::ValidateLength;

verus! {

/// A point in time with an offset from UTC, as stored in the table's time columns.
#[verifier::external_type_specification]
#[verifier::external_body]
pub struct ExOffsetDateTime(OffsetDateTime);

/// The page number used when a request gives none.
pub fn default_0_u16() -> (r: Option<u16>)
    ensures
        r == Some(0u16),
{
    Some(0)
}

/// The page size used when a request gives none.
pub fn default_10_u8() -> (r: Option<u8>)
    ensures
        r == Some(10u8),
{
    Some(10)
}

/// A listing request: page number `pn`, page size `ps`, the id after which
/// a keyset page starts, and the resource's own filter fields.
#[derive(Clone, Debug)]
pub struct PaginatorWith<T> {
    pub pn: Option<u16>,
    pub ps: Option<u8>,
    pub id: Option<i64>,
    pub custom: T,
}

/// A row of a table: its id, its time columns and the resource's own columns.
pub struct Table<T> {
    pub id: i64,
    pub created_at: Option<OffsetDateTime>,
    pub updated_at: Option<OffsetDateTime>,
    pub deleted_at: Option<OffsetDateTime>,
    pub custom: T,
}

/// The fields of a user, as a filter or as the values of a new row.
#[derive(Clone, Debug)]
pub struct UserPayload {
    pub name: Option<String>,
    pub age: Option<u8>,
}

/// Shortest name that a user may have, in characters.
pub const NAME_MIN_CHARS: u64 = 3;

/// Longest name that a user may have, in characters.
pub const NAME_MAX_CHARS: u64 = 20;

/// A field that breaks its length rule.
#[derive(Clone, Copy, Debug)]
pub struct LengthViolation {
    pub field: &'static str,
    pub code: &'static str,
    pub min: u64,
    pub max: u64,
    pub message: &'static str,
}

/// Whether `value` is absent or has between `min` and `max` characters.
///
/// Calls `validator::ValidateLength::validate_length` with no `equal` bound;
/// for a string it counts `chars()`, and it accepts `None`.
#[verifier::external_body]
fn length_within(value: &Option<String>, min: u64, max: u64) -> (r: bool)
    ensures
        r == match value {
            None => true,
            Some(s) => min <= s@.len() <= max,
        },
{
    value.validate_length(Some(min), Some(max), None)
}

pub open spec fn name_is_valid(name: Option<String>) -> bool {
    match name {
        None => true,
        Some(s) => NAME_MIN_CHARS <= s@.len() <= NAME_MAX_CHARS,
    }
}

impl UserPayload {
    /// Checks the payload's rules: a name, when given, has 3 to 20 characters.
    pub fn validate(&self) -> (r: Result<(), LengthViolation>)
        ensures
            r is Ok <==> name_is_valid(self.name),
            r is Ok ==> (self.name matches Some(n) ==> 3 <= n@.len() <= 20),
            self.name is None ==> r is Ok,
            (self.name matches Some(n) && 3 <= n@.len() <= 20) ==> r is Ok,
            r matches Err(v) ==> v.min == NAME_MIN_CHARS && v.max == NAME_MAX_CHARS
                && v.field@ == "name"@ && v.code@ == "length"@
                && v.message@ == "Username must be between 3 and 20 characters"@,
    {
        if length_within(&self.name, NAME_MIN_CHARS, NAME_MAX_CHARS) {
            Ok(())
        } else {
            Err(
                LengthViolation {
                    field: "name",
                    code: "length",
                    min: NAME_MIN_CHARS,
                    max: NAME_MAX_CHARS,
                    message: "Username must be between 3 and 20 characters",
                },
            )
        }
    }
}


/// The name rule in numbers: an absent name is accepted, and a given name
/// is accepted exactly when it has from 3 to 20 characters, so that an empty
/// or a two-character name is refused and so is a name of 21 characters.
pub proof fn lemma_name_rule(name: Option<String>)
    ensures
        name is None ==> name_is_valid(name),
        name matches Some(s) ==> (name_is_valid(name) <==> 3 <= s@.len() <= 20),
        name matches Some(s) && s@.len() < 3 ==> !name_is_valid(name),
        name matches Some(s) && s@.len() > 20 ==> !name_is_valid(name),
{
}

} // verus!
