//! The trusted boundary to the weight container.
//!
//! A parsed container (`safetensors::SafeTensors`) is a read-only map
//! from tensor names to raw entries, each a byte buffer plus a shape.
//! Verus sees the container through `st_entries`, the name for that
//! map, and through `lookup`, the one call the loader makes into the
//! `safetensors` crate.

use vstd::prelude::*;

verus! {

/// Verus-facing declaration of the parsed container type of the
/// `safetensors` crate.
#[verifier::external_type_specification]
#[verifier::external_body]
pub struct ExSafeTensors<'data>(safetensors::SafeTensors<'data>);

/// The entries of a parsed container: for each stored tensor name, the
/// raw byte buffer and the ordered shape kept under it.
pub uninterp spec fn st_entries(st: safetensors::SafeTensors) -> Map<
    Seq<char>,
    (Seq<u8>, Seq<usize>),
>;

/// Relies on `SafeTensors::tensor`: it returns the view stored under
/// the name — its raw data slice and its shape — and fails with
/// `TensorNotFound` exactly when the name is absent from the
/// container's index.
#[verifier::external_body]
pub(crate) fn lookup(st: &safetensors::SafeTensors, name: &str) -> (r: Option<(Vec<u8>, Vec<usize>)>)
    ensures
        r is Some <==> st_entries(*st).dom().contains(name@),
        r matches Some(e) ==> {
            &&& st_entries(*st).dom().contains(name@)
            &&& e.0@ == st_entries(*st)[name@].0
            &&& e.1@ == st_entries(*st)[name@].1
        },
{
    match st.tensor(name) {
        Ok(view) => Some((view.data().to_vec(), view.shape().to_vec())),
        Err(_) => None,
    }
}

} // verus!
