use smallvec::SmallVec;
use vstd::prelude::*;

verus! {

/// A list of raw ids that keeps a single id in place: a
/// `smallvec::SmallVec<[u32; 1]>`.
#[verifier::external_body]
#[derive(Debug)]
pub struct IdList {
    ids: SmallVec<[u32; 1]>,
}

/// The ids that a list holds, in order.
pub uninterp spec fn held_ids(s: IdList) -> Seq<u32>;

impl IdList {
    pub open spec fn view(&self) -> Seq<u32> {
        held_ids(*self)
    }

    /// `SmallVec::new`: a list without items.
    #[verifier::external_body]
    pub(crate) fn new() -> (r: IdList)
        ensures
            held_ids(r) == Seq::<u32>::empty(),
    {
        IdList { ids: SmallVec::new() }
    }

    /// `SmallVec::push`: appends one item.
    #[verifier::external_body]
    pub(crate) fn push(&mut self, id: u32)
        ensures
            held_ids(*final(self)) == held_ids(*old(self)).push(id),
    {
        self.ids.push(id)
    }

    /// `SmallVec::len`: the number of items.
    #[verifier::external_body]
    pub(crate) fn len(&self) -> (n: usize)
        ensures
            n == held_ids(*self).len(),
    {
        self.ids.len()
    }

    /// `SmallVec`'s indexing: the item at a position.
    #[verifier::external_body]
    pub(crate) fn at(&self, i: usize) -> (id: u32)
        requires
            i < held_ids(*self).len(),
        ensures
            id == held_ids(*self)[i as int],
    {
        self.ids[i]
    }
}

} // verus!
