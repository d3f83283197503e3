use crate::set_tag::SetTag;
use crate::tag::VersionTag;
use vstd::prelude::*;

verus! {

/// A value paired with the tag of the last exclusive access to it.
pub struct Tagged<T> {
    tag: VersionTag,
    value: T,
}

impl<T> Tagged<T> {
    pub closed spec fn tag_spec(self) -> VersionTag {
        self.tag
    }

    pub closed spec fn value_spec(self) -> T {
        self.value
    }

    /// Pairs `value` with `tag`, normally one fresh from a [`crate::TagCounter`].
    pub fn new(value: T, tag: VersionTag) -> (r: Tagged<T>)
        ensures
            r.tag_spec() == tag,
            r.value_spec() == value,
    {
        Tagged { tag, value }
    }

    pub fn tag(&self) -> (r: VersionTag)
        ensures
            r == self.tag_spec(),
    {
        self.tag
    }

    pub fn value(&self) -> (r: &T)
        ensures
            *r == self.value_spec(),
    {
        &self.value
    }

    pub fn value_mut(&mut self) -> (r: &mut T)
        ensures
            *r == old(self).value_spec(),
            final(self).tag_spec() == old(self).tag_spec(),
            final(self).value_spec() == *final(r),
    {
        &mut self.value
    }
}

impl<T> std::ops::Deref for Tagged<T> {
    type Target = T;

    fn deref(&self) -> &T {
        self.value()
    }
}

impl<T> std::ops::DerefMut for Tagged<T> {
    fn deref_mut(&mut self) -> &mut T {
        self.value_mut()
    }
}

impl<T> SetTag for Tagged<T> {
    closed spec fn stamped(self, tag: VersionTag) -> Self {
        Tagged { tag, value: self.value }
    }

    open spec fn observed_tag(self) -> Option<VersionTag> {
        Some(self.tag_spec())
    }

    proof fn lemma_stamp_observed(self, tag: VersionTag) {
    }

    fn set_tag(&mut self, tag: VersionTag) {
        self.tag = tag;
    }
}

/// Stamping a tagged value replaces its tag and keeps its value.
pub proof fn lemma_tagged_stamped<T>(t: Tagged<T>, tag: VersionTag)
    ensures
        t.stamped(tag).tag_spec() == tag,
        t.stamped(tag).value_spec() == t.value_spec(),
{
}

} // verus!
