use vstd::prelude::*;

verus! {

/// What the cache knows of a stored template: its bytes, and the marker
/// that a patch looks for (0 where it may not be patched).
pub struct Template {
    pub bytes: Seq<u8>,
    pub marker: usize,
}

/// A stored template.
pub struct Entry {
    pub code: Vec<u8>,
    pub stub: usize,
}

impl View for Entry {
    type V = Template;

    open spec fn view(&self) -> Template {
        Template { bytes: self.code@, marker: self.stub }
    }
}

/// A copy of `v`.
pub fn copy_bytes(v: &Vec<u8>) -> (r: Vec<u8>)
    ensures
        r@ == v@,
{
    let r = v.clone();
    assert(r@ =~= v@);
    r
}

} // verus!
