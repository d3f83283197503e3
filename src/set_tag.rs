use crate::tag::{lemma_issued_tag_is_fresh, TagCounter, VersionTag};
use vstd::prelude::*;

verus! {

/// The capability of a protected value to record a new version tag when an
/// exclusive access to it ends.
pub trait SetTag: Sized {
    /// The value once it has been stamped with `tag`.
    spec fn stamped(self, tag: VersionTag) -> Self;

    /// The tag that readers of the value can see, if it keeps one.
    spec fn observed_tag(self) -> Option<VersionTag>;

    /// Stamping makes a value that keeps a tag show exactly the new tag, and
    /// leaves a value that keeps none without one.
    proof fn lemma_stamp_observed(self, tag: VersionTag)
        ensures
            self.stamped(tag).observed_tag() == (match self.observed_tag() {
                Some(_) => Some(tag),
                None => None::<VersionTag>,
            }),
    ;

    /// Records `tag`, as an exclusive access to the value ends.
    fn set_tag(&mut self, tag: VersionTag)
        ensures
            *final(self) == old(self).stamped(tag),
    ;
}

/// An absent value has nothing to stamp; a present one is stamped itself.
impl<T: SetTag> SetTag for Option<T> {
    open spec fn stamped(self, tag: VersionTag) -> Self {
        match self {
            Some(v) => Some(v.stamped(tag)),
            None => None,
        }
    }

    open spec fn observed_tag(self) -> Option<VersionTag> {
        match self {
            Some(v) => v.observed_tag(),
            None => None,
        }
    }

    proof fn lemma_stamp_observed(self, tag: VersionTag) {
        if let Some(v) = self {
            v.lemma_stamp_observed(tag);
        }
    }

    fn set_tag(&mut self, tag: VersionTag) {
        if let Some(v) = self {
            v.set_tag(tag);
        }
    }
}

/// The value after each tag of `tags` has been stamped on it in turn.
pub open spec fn stamp_all<T: SetTag>(value: T, tags: Seq<VersionTag>) -> T
    decreases tags.len(),
{
    if tags.len() == 0 {
        value
    } else {
        stamp_all(value.stamped(tags[0]), tags.drop_first())
    }
}

/// When an exclusive access ends on a value whose tag came from a counter,
/// stamping it with the next tag that counter issues makes readers see a tag
/// unlike the one they saw before, and one the counter counts as issued, so
/// the next release is fresh again.
pub proof fn lemma_release_shows_fresh_tag<T: SetTag>(
    value: T,
    before: TagCounter,
    after: TagCounter,
    fresh: VersionTag,
)
    requires
        value.observed_tag() matches Some(seen) && before.has_issued(seen),
        fresh.stamp_spec() == before.next_stamp(),
        after.next_stamp() == before.next_stamp() + 1,
    ensures
        value.stamped(fresh).observed_tag() == Some(fresh),
        value.stamped(fresh).observed_tag() != value.observed_tag(),
        after.has_issued(fresh),
{
    value.lemma_stamp_observed(fresh);
    lemma_issued_tag_is_fresh(before, after, fresh, value.observed_tag().unwrap());
}

} // verus!
