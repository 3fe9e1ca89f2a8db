//! Expansion of the delivery formats of rendered exports. The expansion
//! rebuilds the export tables in place, keeping every export id and every
//! reference to it.

use vstd::prelude::*;

use crate::catalog::error::{CatalogError, CatalogErrorKind};
use crate::text::{contains_text, has_text, owned};

verus! {

/// Both export tables already admit the expanded formats: their stored
/// definitions name `'aac_m4a'`.
pub open spec fn formats_expanded(render_sql: Seq<char>, assembly_sql: Seq<char>) -> bool {
    has_text(render_sql, "'aac_m4a'"@) && has_text(assembly_sql, "'aac_m4a'"@)
}

/// Whether the expansion still has to run, given the stored definitions of
/// the render and sound-assembly export tables.
pub fn delivery_migration_needed(render_sql: &str, assembly_sql: &str) -> (r: bool)
    ensures
        r == !formats_expanded(render_sql@, assembly_sql@),
{
    !(contains_text(render_sql, "'aac_m4a'") && contains_text(assembly_sql, "'aac_m4a'"))
}

/// The rebuilt tables must leave no broken foreign key; any violation
/// aborts the expansion as a constraint failure.
pub fn require_intact_references(violations: i64) -> (r: Result<(), CatalogError>)
    ensures
        r is Ok <==> violations == 0,
        r matches Err(e) ==> e.kind == CatalogErrorKind::Constraint && e.message@
            == "delivery migration contains broken references"@,
{
    if violations != 0 {
        return Err(
            CatalogError {
                kind: CatalogErrorKind::Constraint,
                message: owned("delivery migration contains broken references"),
            },
        );
    }
    Ok(())
}

} // verus!
