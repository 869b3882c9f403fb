//! The offscreen render targets of a scene, by name, and the size they share.

use vstd::prelude::*;
use crate::names::NameMap;

verus! {

/// The larger of `x` and 1: textures cannot be empty.
pub open spec fn at_least_one(x: u32) -> u32 {
    if x == 0 {
        1
    } else {
        x
    }
}

/// A size is kept as it is unless it is 0, which becomes 1: the result is the
/// larger of the size and 1.
pub proof fn lemma_at_least_one_is_max_with_one(x: u32)
    ensures
        at_least_one(x) >= 1,
        at_least_one(x) >= x,
        at_least_one(x) == x || at_least_one(x) == 1,
        x > 0 ==> at_least_one(x) == x,
        x == 0 ==> at_least_one(x) == 1,
{
}

/// Named render targets of one window size; `T` is the GPU texture and view.
pub struct RenderTargets<T> {
    width: u32,
    height: u32,
    targets: NameMap<T>,
}

impl<T> RenderTargets<T> {
    /// The window size the targets are made for.
    pub closed spec fn size(&self) -> (u32, u32) {
        (self.width, self.height)
    }

    /// The targets by name.
    pub closed spec fn targets(&self) -> Map<Seq<char>, T> {
        self.targets.map()
    }

    /// No targets yet, for a window of the given size.
    pub fn new(width: u32, height: u32) -> (r: RenderTargets<T>)
        ensures
            r.size() == (width, height),
            r.targets() == Map::<Seq<char>, T>::empty(),
    {
        RenderTargets { width, height, targets: NameMap::new() }
    }

    /// Forgets every target and records a new window size; the targets are
    /// then made again, one `insert` per name.
    pub fn reset(&mut self, width: u32, height: u32)
        ensures
            final(self).size() == (width, height),
            final(self).targets() == Map::<Seq<char>, T>::empty(),
    {
        self.width = width;
        self.height = height;
        self.targets.clear();
    }

    /// The texture size for the targets: the window size, at least 1 by 1.
    pub fn extent(&self) -> (r: (u32, u32))
        ensures
            r == (at_least_one(self.size().0), at_least_one(self.size().1)),
            r.0 >= 1 && r.1 >= 1,
            self.size().0 > 0 ==> r.0 == self.size().0,
            self.size().1 > 0 ==> r.1 == self.size().1,
    {
        let w = if self.width == 0 { 1 } else { self.width };
        let h = if self.height == 0 { 1 } else { self.height };
        (w, h)
    }

    /// Stores the target called `name`, replacing one of that name.
    pub fn insert(&mut self, name: String, target: T)
        ensures
            final(self).size() == old(self).size(),
            final(self).targets() == old(self).targets().insert(name@, target),
    {
        self.targets.insert(name, target);
    }

    /// The target called `name`, which must exist.
    pub fn view(&self, name: &str) -> (r: &T)
        requires
            self.targets().contains_key(name@),
        ensures
            *r == self.targets()[name@],
    {
        match self.targets.get(name) {
            Some(t) => t,
            None => unreached(),
        }
    }

    /// The target called `name`, if there is one.
    pub fn get(&self, name: &str) -> (r: Option<&T>)
        ensures
            match r {
                None => !self.targets().contains_key(name@),
                Some(t) => self.targets().contains_key(name@) && self.targets()[name@] == *t,
            },
    {
        self.targets.get(name)
    }
}

} // verus!
