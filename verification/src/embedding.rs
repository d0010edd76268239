//! The shape of the embedding vectors that the text model produces.

use vstd::prelude::*;

use crate::error::MemoriError;
use crate::text::{decimal, push_all, push_decimal};

verus! {

/// The number of components of an embedding (BGE-small-en-v1.5).
pub const EMBEDDING_DIM: usize = 384;

/// The message for an embedding of the wrong length.
pub open spec fn dimension_error_text(len: nat) -> Seq<char> {
    "dimension mismatch: got "@ + decimal(len) + ", expected 384"@
}

/// Checks that an embedding has `EMBEDDING_DIM` components.
pub fn check_embedding_len(len: usize) -> (r: Result<(), MemoriError>)
    ensures
        len == EMBEDDING_DIM ==> r is Ok,
        len != EMBEDDING_DIM ==> (r matches Err(MemoriError::Embedding(m)) && m@
            == dimension_error_text(len as nat)),
{
    if len == EMBEDDING_DIM {
        return Ok(());
    }
    let mut m = "dimension mismatch: got ".to_owned();
    push_decimal(&mut m, len as u64);
    push_all(&mut m, ", expected 384");
    Err(MemoriError::Embedding(m))
}

} // verus!
