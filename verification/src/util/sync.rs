use vstd::prelude::*;

verus! {

/// A cell that is written at most once: the first value stored in it stays
/// there for good, and every later write is ignored.
pub struct SyncOnceCell<T> {
    inner: Option<T>,
}

impl<T> View for SyncOnceCell<T> {
    type V = Option<T>;

    closed spec fn view(&self) -> Option<T> {
        self.inner
    }
}

/// What a cell holds after `value` is written to a cell holding `held`.
pub open spec fn spec_after_set<T>(held: Option<T>, value: T) -> Option<T> {
    match held {
        Some(v) => Some(v),
        None => Some(value),
    }
}

impl<T> SyncOnceCell<T> {
    /// An empty cell.
    pub fn new() -> (c: Self)
        ensures
            c@ is None,
    {
        SyncOnceCell { inner: None }
    }

    /// Stores `value` unless the cell already holds one.
    pub fn set(&mut self, value: T)
        ensures
            final(self)@ == spec_after_set(old(self)@, value),
    {
        if self.inner.is_none() {
            self.inner = Some(value);
        }
    }

    /// The stored value, if any.
    pub fn get(&self) -> (r: Option<&T>)
        ensures
            match r {
                Some(v) => self@ == Some(*v),
                None => self@ is None,
            },
    {
        match &self.inner {
            Some(v) => Some(v),
            None => None,
        }
    }
}

/// Whatever is written to a cell after its first write, it holds the value
/// of that first write: writing `first` then `later` to an empty cell leaves
/// `first` in it.
pub proof fn lemma_first_write_wins<T>(first: T, later: T)
    ensures
        spec_after_set(spec_after_set(None, first), later) == Some(first),
        forall|held: Option<T>| held is Some ==> #[trigger] spec_after_set(held, later) == held,
{
}

} // verus!
