//! The path mechanism shared by both error trees: each time an error
//! crosses a containment boundary on its way up, a segment is pushed, so
//! segments sit in leaf-to-root order and are reversed for display.
use vstd::prelude::*;

verus! {

/// One step of a path: a field name or an element index.
#[derive(Debug, PartialEq, Eq)]
pub enum BreadcrumbSegment {
    Name(String),
    Index(usize),
}

/// Whether a segment is the name `t`.
pub open spec fn is_name(s: BreadcrumbSegment, t: Seq<char>) -> bool {
    s matches BreadcrumbSegment::Name(n) && n@ == t
}

/// Whether a segment is the index `i`.
pub open spec fn is_index(s: BreadcrumbSegment, i: int) -> bool {
    s matches BreadcrumbSegment::Index(n) && n == i
}

/// The path from the root of a validation to the point of failure, in
/// leaf-to-root push order.
#[derive(Debug, PartialEq, Eq)]
pub struct Breadcrumb {
    pub segments: Vec<BreadcrumbSegment>,
}

impl Breadcrumb {
    /// An empty path.
    pub fn new() -> (r: Breadcrumb)
        ensures
            r.segments@.len() == 0,
    {
        Breadcrumb { segments: Vec::new() }
    }

    /// Pushes one more segment on the way up.
    pub fn push(&mut self, segment: BreadcrumbSegment)
        ensures
            final (self).segments@ == old(self).segments@.push(segment),
    {
        self.segments.push(segment);
    }
}

} // verus!
