//! Entity naming conventions: the database table name and the cache keys
//! derived from an entity's type name.

use vstd::prelude::*;
use vstd::string::*;
use crate::documents::spec_ascii_chars;
use crate::text::{spec_all_ascii, push_str_chars};

verus! {

/// ASCII lowercasing of a byte string: uppercase letters gain 32, all other
/// bytes stay.
pub open spec fn spec_lower(b: Seq<u8>) -> Seq<u8> {
    b.map_values(
        |x: u8|
            if 0x41 <= x <= 0x5A {
                (x + 32) as u8
            } else {
                x
            },
    )
}

/// Lowercases the ASCII letters of a byte string.
fn lower_bytes(s: &[u8]) -> (r: Vec<u8>)
    ensures
        r@ =~= spec_lower(s@),
{
    let len = s.len();
    let mut out: Vec<u8> = Vec::new();
    let mut i: usize = 0;
    while i < len
        invariant
            i <= len,
            len == s@.len(),
            out@ =~= spec_lower(s@.take(i as int)),
        decreases len - i,
    {
        let b = s[i];
        if b >= 0x41 && b <= 0x5A {
            out.push(b + 32);
        } else {
            out.push(b);
        }
        proof {
            assert(out@ =~= spec_lower(s@.take(i + 1)));
        }
        i = i + 1;
    }
    proof {
        assert(s@.take(len as int) =~= s@);
    }
    out
}

/// The database table name of an entity type: the type name with a plural
/// `s` appended.
pub fn table_name_for(entity_name: &str) -> (r: String)
    ensures
        r@ =~= entity_name@.push('s'),
{
    let mut out = entity_name.to_owned();
    crate::external::push_char(&mut out, 's');
    out
}

/// The cache key of one entity instance:
/// `{product}:{lowercased type name}:{id}`.
pub fn cache_key_for(product: &str, entity_name: &str, id: &str) -> (r: String)
    requires
        entity_name.is_ascii(),
    ensures
        r@ =~= product@ + seq![':'] + spec_ascii_chars(spec_lower(entity_name.spec_bytes())) + seq![
            ':',
        ] + id@,
{
    proof {
        crate::pix::lemma_str_bytes_ascii(entity_name);
    }
    let mut out = product.to_owned();
    crate::external::push_char(&mut out, ':');
    let lowered = lower_bytes(entity_name.as_bytes());
    proof {
        assert forall|i: int| 0 <= i < lowered@.len() implies #[trigger] lowered@[i] < 128 by {
            assert(lowered@[i] == spec_lower(entity_name.spec_bytes())[i]);
        }
    }
    crate::text::push_ascii_bytes(&mut out, lowered.as_slice());
    crate::external::push_char(&mut out, ':');
    push_str_chars(&mut out, id);
    proof {
        assert(out@ =~= product@ + seq![':'] + spec_ascii_chars(
            spec_lower(entity_name.spec_bytes()),
        ) + seq![':'] + id@);
    }
    out
}

/// The cache pattern covering every entity of a type under one product:
/// `{product}:{lowercased type name}:*`.
pub fn cache_pattern(product: &str, entity_name: &str) -> (r: String)
    requires
        entity_name.is_ascii(),
    ensures
        r@ =~= product@ + seq![':'] + spec_ascii_chars(spec_lower(entity_name.spec_bytes())) + seq![
            ':',
            '*',
        ],
{
    let key = cache_key_for(product, entity_name, "*");
    proof {
        reveal_strlit("*");
        assert(key@ =~= product@ + seq![':'] + spec_ascii_chars(
            spec_lower(entity_name.spec_bytes()),
        ) + seq![':', '*']);
    }
    key
}

} // verus!
