use vstd::prelude::*;

verus! {

/// Number of symbols in a generated identifier.
pub const ID_LENGTH: usize = 21;

/// Whether `c` belongs to the alphabet of generated identifiers: the ASCII
/// letters and digits, `_` and `-`.
pub open spec fn is_id_symbol(c: char) -> bool {
    ('a' <= c && c <= 'z') || ('A' <= c && c <= 'Z') || ('0' <= c && c <= '9') || c == '_' || c
        == '-'
}

/// Whether `id` has the shape of a generated identifier.
pub open spec fn is_generated_id(id: Seq<char>) -> bool {
    &&& id.len() == ID_LENGTH
    &&& forall|i: int| 0 <= i < id.len() ==> is_id_symbol(#[trigger] id[i])
}

/// Calls `nanoid::format` with the crate's default random source, its `SAFE`
/// alphabet and the size 21, as the crate's `nanoid!()` does. The contract
/// claims the shape of the identifier only: 21 symbols of that alphabet. Which
/// symbols come out is left open.
#[verifier::external_body]
pub(crate) fn random_id() -> (id: String)
    ensures
        is_generated_id(id@),
{
    nanoid::format(nanoid::rngs::default, &nanoid::alphabet::SAFE, 21)
}

} // verus!
