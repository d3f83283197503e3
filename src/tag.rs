use vstd::prelude::*;

verus! {

/// A version token. Two tags compare equal exactly when they carry the same
/// stamp; a [`TagCounter`] never hands out the same stamp twice.
#[derive(Clone, Copy, Debug, PartialEq, Eq, Structural, Hash, PartialOrd, Ord)]
pub struct VersionTag {
    stamp: u64,
}

impl VersionTag {
    /// The stamp that identifies this tag.
    pub closed spec fn stamp_spec(self) -> nat {
        self.stamp as nat
    }

    pub fn stamp(&self) -> (r: u64)
        ensures
            r as nat == self.stamp_spec(),
    {
        self.stamp
    }
}

/// A monotonic source of fresh tags: every tag it issues carries a stamp
/// strictly larger than every tag issued before it.
#[derive(Debug)]
pub struct TagCounter {
    next: u64,
}

impl TagCounter {
    /// The stamp that the next issued tag will carry.
    pub closed spec fn next_stamp(self) -> nat {
        self.next as nat
    }

    /// Whether `tag` is one that this counter has already issued.
    pub open spec fn has_issued(self, tag: VersionTag) -> bool {
        tag.stamp_spec() < self.next_stamp()
    }

    pub fn new() -> (r: TagCounter)
        ensures
            r.next_stamp() == 0,
    {
        TagCounter { next: 0 }
    }

    /// Issues a fresh tag; `None` once all stamps have been used.
    pub fn issue(&mut self) -> (r: Option<VersionTag>)
        ensures
            match r {
                Some(tag) => {
                    &&& tag.stamp_spec() == old(self).next_stamp()
                    &&& final(self).next_stamp() == old(self).next_stamp() + 1
                },
                None => {
                    &&& old(self).next_stamp() == u64::MAX
                    &&& *final(self) == *old(self)
                },
            },
    {
        if self.next == u64::MAX {
            None
        } else {
            let tag = VersionTag { stamp: self.next };
            self.next = self.next + 1;
            Some(tag)
        }
    }
}

/// A tag that a counter issues is new to it: it differs from every tag that
/// the counter had issued before, and the counter counts it as issued after.
pub proof fn lemma_issued_tag_is_fresh(before: TagCounter, after: TagCounter, fresh: VersionTag, earlier: VersionTag)
    requires
        fresh.stamp_spec() == before.next_stamp(),
        after.next_stamp() == before.next_stamp() + 1,
        before.has_issued(earlier),
    ensures
        fresh != earlier,
        after.has_issued(fresh),
        after.has_issued(earlier),
{
}

} // verus!
