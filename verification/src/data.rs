//! The projects the running tool works on.
use vstd::prelude::*;

use crate::schema::Root;

verus! {

/// Holds the tool's `Root` for the parts that read and change it.
pub struct SharedData {
    inner: Root,
}

impl SharedData {
    pub closed spec fn root(&self) -> Root {
        self.inner
    }

    pub fn new(root: Root) -> (r: Self)
        ensures
            r.root() == root,
    {
        SharedData { inner: root }
    }

    /// The data, for reading.
    pub fn read(&self) -> (r: &Root)
        ensures
            *r == self.root(),
    {
        &self.inner
    }

    /// The data, for changing: what is written through the result is what the
    /// data holds afterwards.
    pub fn write(&mut self) -> (r: &mut Root)
        ensures
            *r == old(self).root(),
            final(self).root() == *final(r),
    {
        &mut self.inner
    }
}

} // verus!
