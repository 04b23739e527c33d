use vstd::prelude::*;

verus! {

/// Key of a patched template kept for reuse: the template's name and the
/// value written over its marker.
#[derive(Hash)]
pub struct OptimizedCache {
    pub name: String,
    pub value: usize,
}

impl OptimizedCache {
    /// The key as plain values.
    pub open spec fn key(&self) -> (Seq<char>, usize) {
        (self.name@, self.value)
    }
}

impl PartialEq for OptimizedCache {
    fn eq(&self, other: &OptimizedCache) -> (r: bool)
        ensures
            r == (self.key() == other.key()),
    {
        self.name == other.name && self.value == other.value
    }
}

impl vstd::std_specs::cmp::PartialEqSpecImpl for OptimizedCache {
    open spec fn obeys_eq_spec() -> bool {
        true
    }

    open spec fn eq_spec(&self, other: &OptimizedCache) -> bool {
        self.key() == other.key()
    }
}

impl Eq for OptimizedCache {

}

} // verus!
