use crate::set_tag::SetTag;
use crate::tag::VersionTag;
use vstd::prelude::*;

verus! {

/// A value that keeps no tag: exclusive accesses leave it as they found it.
pub struct Untagged<T> {
    value: T,
}

impl<T> Untagged<T> {
    pub closed spec fn value_spec(self) -> T {
        self.value
    }

    pub fn new(value: T) -> (r: Untagged<T>)
        ensures
            r.value_spec() == value,
    {
        Untagged { value }
    }

    pub fn value(&self) -> (r: &T)
        ensures
            *r == self.value_spec(),
    {
        &self.value
    }

    pub fn value_mut(&mut self) -> (r: &mut T)
        ensures
            *r == old(self).value_spec(),
            final(self).value_spec() == *final(r),
    {
        &mut self.value
    }
}

impl<T> std::ops::Deref for Untagged<T> {
    type Target = T;

    fn deref(&self) -> &T {
        self.value()
    }
}

impl<T> std::ops::DerefMut for Untagged<T> {
    fn deref_mut(&mut self) -> &mut T {
        self.value_mut()
    }
}

impl<T> SetTag for Untagged<T> {
    open spec fn stamped(self, tag: VersionTag) -> Self {
        self
    }

    open spec fn observed_tag(self) -> Option<VersionTag> {
        None
    }

    proof fn lemma_stamp_observed(self, tag: VersionTag) {
    }

    fn set_tag(&mut self, tag: VersionTag) {
    }
}

/// However many exclusive accesses end on an untagged value, it stays as it
/// was and never shows a tag.
pub proof fn lemma_untagged_is_inert<T>(value: Untagged<T>, tags: Seq<VersionTag>)
    ensures
        crate::set_tag::stamp_all(value, tags) == value,
        crate::set_tag::stamp_all(value, tags).observed_tag() is None,
    decreases tags.len(),
{
    if tags.len() > 0 {
        lemma_untagged_is_inert(value, tags.drop_first());
    }
}

} // verus!
