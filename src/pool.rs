//! A worker's local set of backend URLs, kept in step with the coordinator by the
//! change events it is pushed.
use vstd::prelude::*;
use crate::wire::{decode, parse_frame, BackendChangeEvent, DecodeError, Operation};

verus! {

/// True when no URL occurs twice in `s`.
pub open spec fn no_duplicates(s: Seq<Seq<char>>) -> bool {
    forall|i: int, j: int| 0 <= i < j < s.len() ==> s[i] != s[j]
}

/// The backend URLs a worker routes to, each held once.
pub struct BackendPool {
    urls: Vec<String>,
}

impl View for BackendPool {
    type V = Seq<Seq<char>>;

    closed spec fn view(&self) -> Seq<Seq<char>> {
        self.urls@.map_values(|u: String| u@)
    }
}

/// The pool `s` after `url` was added: unchanged when present, else appended.
pub open spec fn pool_with(s: Seq<Seq<char>>, url: Seq<char>) -> Seq<Seq<char>> {
    if s.contains(url) {
        s
    } else {
        s.push(url)
    }
}

/// The pool `s` after `url` was taken out: unchanged when absent.
pub open spec fn pool_without(s: Seq<Seq<char>>, url: Seq<char>) -> Seq<Seq<char>> {
    if s.contains(url) {
        s.remove(s.index_of(url))
    } else {
        s
    }
}

/// The pool `s` after an event with operation `op` and URL `url` was applied.
pub open spec fn pool_after(s: Seq<Seq<char>>, op: Operation, url: Seq<char>) -> Seq<Seq<char>> {
    match op {
        Operation::Add => pool_with(s, url),
        Operation::Remove => pool_without(s, url),
    }
}

impl BackendPool {
    /// The pool's invariant.
    pub open spec fn wf(&self) -> bool {
        no_duplicates(self@)
    }

    /// An empty pool.
    pub fn new() -> (r: Self)
        ensures
            r.wf(),
            r@.len() == 0,
    {
        BackendPool { urls: Vec::new() }
    }

    /// Number of URLs in the pool.
    pub fn len(&self) -> (r: usize)
        ensures
            r == self@.len(),
    {
        self.urls.len()
    }

    /// The position of `url` in the pool, if it is there.
    fn position(&self, url: &String) -> (r: Option<usize>)
        requires
            self.wf(),
        ensures
            match r {
                Some(i) => i < self@.len() && self@[i as int] == url@ && self@.index_of(url@)
                    == i,
                None => !self@.contains(url@),
            },
    {
        let mut i: usize = 0;
        while i < self.urls.len()
            invariant
                self.wf(),
                i <= self.urls@.len(),
                forall|j: int| 0 <= j < i ==> self@[j] != url@,
            decreases self.urls@.len() - i,
        {
            if self.urls[i] == *url {
                proof {
                    assert(self@[i as int] == url@);
                    assert(self@.contains(url@));
                    let k = self@.index_of(url@);
                    assert(self@[k] == url@);
                    if k < i {
                        assert(self@[k] != self@[i as int]);
                    } else if k > i {
                        assert(self@[i as int] != self@[k]);
                    }
                }
                return Some(i);
            }
            i = i + 1;
        }
        None
    }

    /// True when `url` is in the pool.
    pub fn contains(&self, url: &String) -> (r: bool)
        requires
            self.wf(),
        ensures
            r == self@.contains(url@),
    {
        self.position(url).is_some()
    }

    /// The number of times `url` occurs in the pool: one or zero.
    pub fn count(&self, url: &String) -> (r: usize)
        requires
            self.wf(),
        ensures
            r == (if self@.contains(url@) { 1usize } else { 0usize }),
    {
        if self.contains(url) {
            1
        } else {
            0
        }
    }

    /// Adds `url` unless it is already there. Returns whether it was added.
    pub fn add(&mut self, url: String) -> (added: bool)
        requires
            old(self).wf(),
        ensures
            final(self).wf(),
            added == !old(self)@.contains(url@),
            final(self)@ == pool_with(old(self)@, url@),
    {
        if self.contains(&url) {
            false
        } else {
            let ghost u = url@;
            self.urls.push(url);
            proof {
                assert(self@ == old(self)@.push(u));
            }
            true
        }
    }

    /// Takes `url` out of the pool if it is there. Returns whether it was.
    pub fn remove(&mut self, url: &String) -> (removed: bool)
        requires
            old(self).wf(),
        ensures
            final(self).wf(),
            removed == old(self)@.contains(url@),
            final(self)@ == pool_without(old(self)@, url@),
    {
        match self.position(url) {
            Some(i) => {
                self.urls.remove(i);
                proof {
                    assert(self@ == old(self)@.remove(i as int));
                }
                true
            },
            None => false,
        }
    }

    /// Applies one change event to the pool.
    pub fn apply(&mut self, event: BackendChangeEvent) -> (changed: bool)
        requires
            old(self).wf(),
        ensures
            final(self).wf(),
            final(self)@ == pool_after(old(self)@, event.operation, event.url@),
            changed == (final(self)@ != old(self)@),
    {
        match event.operation {
            Operation::Add => {
                let r = self.add(event.url);
                proof {
                    if r {
                        assert(final(self)@.len() != old(self)@.len());
                    }
                }
                r
            },
            Operation::Remove => {
                let r = self.remove(&event.url);
                proof {
                    if r {
                        assert(final(self)@.len() != old(self)@.len());
                    }
                }
                r
            },
        }
    }

    /// Handles a pushed payload: decodes it and applies the event. A payload that
    /// does not decode leaves the pool as it is and gives the reason.
    pub fn push_message(&mut self, payload: &[u8]) -> (r: Result<(), DecodeError>)
        requires
            old(self).wf(),
        ensures
            final(self).wf(),
            match parse_frame(payload@) {
                Ok((op, url)) => r is Ok && final(self)@ == pool_after(old(self)@, op, url),
                Err(e) => r == Err::<(), DecodeError>(e) && final(self)@ == old(self)@,
            },
    {
        match decode(payload) {
            Ok(event) => {
                self.apply(event);
                Ok(())
            },
            Err(e) => Err(e),
        }
    }
}

} // verus!
