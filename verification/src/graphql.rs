//! Type-name bridging toward a GraphQL schema.
//!
//! The kernel's callers expose entities over GraphQL; the only logic they
//! need from the kernel is the mapping from a Rust type name to its
//! GraphQL-compatible scalar name.

use vstd::prelude::*;
use vstd::string::*;

verus! {

/// True exactly when the two strings spell the same characters.
fn str_eq(a: &str, b: &str) -> (r: bool)
    ensures
        r <==> a@ =~= b@,
{
    let alen = a.unicode_len();
    let blen = b.unicode_len();
    if alen != blen {
        return false;
    }
    let mut i: usize = 0;
    while i < alen
        invariant
            i <= alen,
            alen == a@.len() == b@.len(),
            forall|k: int| 0 <= k < i ==> #[trigger] a@[k] == b@[k],
        decreases alen - i,
    {
        if a.get_char(i) != b.get_char(i) {
            return false;
        }
        i = i + 1;
    }
    true
}

/// Maps a Rust type name to its GraphQL-compatible scalar name: decimals
/// become `f64`, JSON values `JSON`, UTC timestamps `DateTime`, UUIDs
/// `UUID`; every other name passes through unchanged.
pub fn rust_to_graphql_type(type_str: &str) -> (r: String)
    ensures
        (type_str@ =~= "rust_decimal::Decimal"@ || type_str@ =~= "Decimal"@) ==> r@ == "f64"@,
        !(type_str@ =~= "rust_decimal::Decimal"@ || type_str@ =~= "Decimal"@) && (type_str@
            =~= "serde_json::Value"@ || type_str@ =~= "Value"@) ==> r@ == "JSON"@,
        !(type_str@ =~= "rust_decimal::Decimal"@ || type_str@ =~= "Decimal"@ || type_str@
            =~= "serde_json::Value"@ || type_str@ =~= "Value"@) && (type_str@
            =~= "chrono::DateTime<chrono::Utc>"@ || type_str@ =~= "DateTime<Utc>"@) ==> r@
            == "DateTime"@,
        !(type_str@ =~= "rust_decimal::Decimal"@ || type_str@ =~= "Decimal"@ || type_str@
            =~= "serde_json::Value"@ || type_str@ =~= "Value"@ || type_str@
            =~= "chrono::DateTime<chrono::Utc>"@ || type_str@ =~= "DateTime<Utc>"@) && (type_str@
            =~= "uuid::Uuid"@ || type_str@ =~= "Uuid"@) ==> r@ == "UUID"@,
        !(type_str@ =~= "rust_decimal::Decimal"@ || type_str@ =~= "Decimal"@ || type_str@
            =~= "serde_json::Value"@ || type_str@ =~= "Value"@ || type_str@
            =~= "chrono::DateTime<chrono::Utc>"@ || type_str@ =~= "DateTime<Utc>"@ || type_str@
            =~= "uuid::Uuid"@ || type_str@ =~= "Uuid"@) ==> r@ == type_str@,
{
    if str_eq(type_str, "rust_decimal::Decimal") || str_eq(type_str, "Decimal") {
        "f64".to_owned()
    } else if str_eq(type_str, "serde_json::Value") || str_eq(type_str, "Value") {
        "JSON".to_owned()
    } else if str_eq(type_str, "chrono::DateTime<chrono::Utc>") || str_eq(
        type_str,
        "DateTime<Utc>",
    ) {
        "DateTime".to_owned()
    } else if str_eq(type_str, "uuid::Uuid") || str_eq(type_str, "Uuid") {
        "UUID".to_owned()
    } else {
        type_str.to_owned()
    }
}

} // verus!
