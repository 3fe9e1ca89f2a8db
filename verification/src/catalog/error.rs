//! Catalog-level error vocabulary.

use vstd::prelude::*;

use crate::text::{decimal, owned};

verus! {

/// Classification shared by catalog failures.
#[derive(Debug, Clone, Copy, PartialEq, Eq, Structural)]
pub enum CatalogErrorKind {
    /// The database is not at the schema version this library supports.
    SchemaMismatch,
    /// A uniqueness or referential constraint rejected the write.
    Constraint,
    /// Another failure, with the underlying message preserved.
    Other,
}

/// The name a failure kind is displayed with.
pub open spec fn catalog_error_kind_name(kind: CatalogErrorKind) -> Seq<char> {
    match kind {
        CatalogErrorKind::SchemaMismatch => "SchemaMismatch"@,
        CatalogErrorKind::Constraint => "Constraint"@,
        CatalogErrorKind::Other => "Other"@,
    }
}

/// All catalog failures.
#[derive(Debug, Clone)]
pub struct CatalogError {
    pub kind: CatalogErrorKind,
    pub message: String,
}

impl CatalogError {
    /// The displayed text of this failure: `<kind>: <message>`.
    pub fn to_text(&self) -> (r: String)
        ensures
            r@ == catalog_error_kind_name(self.kind) + ": "@ + self.message@,
    {
        let name = match self.kind {
            CatalogErrorKind::SchemaMismatch => "SchemaMismatch",
            CatalogErrorKind::Constraint => "Constraint",
            CatalogErrorKind::Other => "Other",
        };
        let mut r = crate::text::concat(name, ": ");
        r.append(self.message.as_str());
        r
    }

    /// Creates a catalog error.
    pub fn new(kind: CatalogErrorKind, message: &str) -> (r: CatalogError)
        ensures
            r.kind == kind,
            r.message@ == message@,
    {
        CatalogError { kind, message: owned(message) }
    }

    /// Classifies a storage-engine failure: a constraint violation becomes
    /// [`CatalogErrorKind::Constraint`], anything else
    /// [`CatalogErrorKind::Other`]; the engine's message is kept.
    pub fn from_storage(constraint_violation: bool, message: String) -> (r: CatalogError)
        ensures
            r.kind == (if constraint_violation {
                CatalogErrorKind::Constraint
            } else {
                CatalogErrorKind::Other
            }),
            r.message == message,
    {
        let kind = if constraint_violation {
            CatalogErrorKind::Constraint
        } else {
            CatalogErrorKind::Other
        };
        CatalogError { kind, message }
    }
}

/// `r` is a failure with exactly `message`.
pub open spec fn fails_with<T>(r: Result<T, CatalogError>, message: Seq<char>) -> bool {
    match r {
        Err(e) => e.message@ == message,
        Ok(_) => false,
    }
}

/// An [`CatalogErrorKind::Other`] failure with the given message.
pub(crate) fn other_error(message: &str) -> (r: CatalogError)
    ensures
        r.kind == CatalogErrorKind::Other,
        r.message@ == message@,
{
    CatalogError::new(CatalogErrorKind::Other, message)
}

/// An [`CatalogErrorKind::Other`] failure whose message is `prefix` followed
/// by `detail`.
pub(crate) fn other_error_with(prefix: &str, detail: &str) -> (r: CatalogError)
    ensures
        r.kind == CatalogErrorKind::Other,
        r.message@ == prefix@ + detail@,
{
    CatalogError { kind: CatalogErrorKind::Other, message: crate::text::concat(prefix, detail) }
}

/// Storage classes of a column value, as the storage engine names them.
#[derive(Debug, Clone, Copy, PartialEq, Eq, Structural)]
pub enum StoredType {
    Null,
    Integer,
    Real,
    Text,
    Blob,
}

/// The displayed name of a storage class.
pub open spec fn stored_type_name(t: StoredType) -> Seq<char> {
    match t {
        StoredType::Null => "Null"@,
        StoredType::Integer => "Integer"@,
        StoredType::Real => "Real"@,
        StoredType::Text => "Text"@,
        StoredType::Blob => "Blob"@,
    }
}

/// The decimal text of a signed integer: a minus sign before the digits of
/// a negative value.
pub open spec fn signed_decimal(value: int) -> Seq<char> {
    if value < 0 {
        seq!['-'] + decimal((-value) as nat)
    } else {
        decimal(value as nat)
    }
}

/// How the storage engine reports a column value it could not convert:
/// `Conversion error from type <type> at index: <column>, <message>`.
pub open spec fn conversion_failure(column: nat, t: StoredType, message: Seq<char>) -> Seq<char> {
    "Conversion error from type "@ + stored_type_name(t) + " at index: "@ + decimal(column) + ", "@
        + message
}

/// A conversion failure of a column, as a catalog failure.
pub(crate) fn conversion_error(column: usize, stored_type: StoredType, message: &str) -> (r:
    CatalogError)
    requires
        column < usize::MAX,
    ensures
        r.kind == CatalogErrorKind::Other,
        r.message@ == conversion_failure(column as nat, stored_type, message@),
{
    CatalogError {
        kind: CatalogErrorKind::Other,
        message: conversion_failure_text(column, stored_type, message),
    }
}

/// The displayed text of `rusqlite::Error::FromSqlConversionFailure` for a
/// known column (`Display for rusqlite::Error`): the contract claims the
/// text `Conversion error from type <type> at index: <column>, <message>`.
#[verifier::external_body]
pub(crate) fn conversion_failure_text(column: usize, stored_type: StoredType, message: &str) -> (r:
    String)
    requires
        column < usize::MAX,
    ensures
        r@ == conversion_failure(column as nat, stored_type, message@),
{
    let stored_type = match stored_type {
        StoredType::Null => rusqlite::types::Type::Null,
        StoredType::Integer => rusqlite::types::Type::Integer,
        StoredType::Real => rusqlite::types::Type::Real,
        StoredType::Text => rusqlite::types::Type::Text,
        StoredType::Blob => rusqlite::types::Type::Blob,
    };
    rusqlite::Error::FromSqlConversionFailure(column, stored_type, message.to_owned().into())
        .to_string()
}

/// The displayed text of `rusqlite::Error::IntegralValueOutOfRange` for a
/// known column (`Display for rusqlite::Error`): the contract claims the
/// text `Integer <value> out of range at index <column>`.
#[verifier::external_body]
pub(crate) fn out_of_range_text(column: usize, value: i64) -> (r: String)
    requires
        column < usize::MAX,
    ensures
        r@ == "Integer "@ + signed_decimal(value as int) + " out of range at index "@ + decimal(
            column as nat,
        ),
{
    rusqlite::Error::IntegralValueOutOfRange(column, value).to_string()
}

/// The displayed text of `rusqlite::Error::InvalidQuery`
/// (`Display for rusqlite::Error`): the contract claims the text `Query is
/// not read-only`.
#[verifier::external_body]
pub(crate) fn invalid_query_text() -> (r: String)
    ensures
        r@ == "Query is not read-only"@,
{
    rusqlite::Error::InvalidQuery.to_string()
}

/// The displayed text of `rusqlite::Error::InvalidColumnType`
/// (`Display for rusqlite::Error`): the contract claims the text `Invalid
/// column type <type> at index: <column>, name: <name>`.
#[verifier::external_body]
pub(crate) fn invalid_column_type_text(column: usize, name: &str, stored_type: StoredType) -> (r:
    String)
    ensures
        r@ == "Invalid column type "@ + stored_type_name(stored_type) + " at index: "@ + decimal(
            column as nat,
        ) + ", name: "@ + name@,
{
    let stored_type = match stored_type {
        StoredType::Null => rusqlite::types::Type::Null,
        StoredType::Integer => rusqlite::types::Type::Integer,
        StoredType::Real => rusqlite::types::Type::Real,
        StoredType::Text => rusqlite::types::Type::Text,
        StoredType::Blob => rusqlite::types::Type::Blob,
    };
    rusqlite::Error::InvalidColumnType(column, name.to_owned(), stored_type).to_string()
}

} // verus!
