//! The reference schema node: a URI resolved against the registry at
//! validation time, never at compile time, so schemas may refer to each
//! other and to themselves without an ownership cycle.
use vstd::prelude::*;

verus! {

/// A compiled reference node. Resolution is a by-name lookup performed per
/// validation call.
#[derive(Debug)]
pub struct SchemaReference {
    pub uri: String,
}

} // verus!
