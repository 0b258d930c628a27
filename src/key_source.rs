//! The key source's decision on each poll of the keyboard: report the last
//! key of the held set whenever the set changes and is not empty.
use vstd::prelude::*;
use crate::display::texts;
use crate::keymap::same_text;

verus! {

/// The key set seen at the previous poll, as raw key identifiers.
pub struct KeySource {
    last_keys: Vec<String>,
}

impl View for KeySource {
    type V = Seq<Seq<char>>;

    closed spec fn view(&self) -> Seq<Seq<char>> {
        texts(self.last_keys@)
    }
}

/// What a poll that finds `keys` held, after `prev` was held, reports: the
/// last of `keys` when the two differ and `keys` is not empty.
pub open spec fn reported(prev: Seq<Seq<char>>, keys: Seq<Seq<char>>) -> Option<Seq<char>> {
    if keys != prev && keys.len() > 0 {
        Some(keys.last())
    } else {
        None
    }
}

/// Whether two lists of identifiers are equal, entry by entry.
pub fn same_keys(a: &Vec<String>, b: &Vec<String>) -> (r: bool)
    ensures
        r == (texts(a@) == texts(b@)),
{
    if a.len() != b.len() {
        assert(texts(a@).len() != texts(b@).len());
        return false;
    }
    let mut i: usize = 0;
    while i < a.len()
        invariant
            a@.len() == b@.len(),
            0 <= i <= a@.len(),
            forall|j: int| 0 <= j < i ==> a@[j]@ == b@[j]@,
        decreases a@.len() - i,
    {
        if !same_text(a[i].as_str(), b[i].as_str()) {
            assert(texts(a@)[i as int] != texts(b@)[i as int]);
            return false;
        }
        i += 1;
    }
    assert(texts(a@) =~= texts(b@));
    true
}

impl KeySource {
    /// A key source that has seen no key held.
    pub fn new() -> (r: Self)
        ensures
            r@ == Seq::<Seq<char>>::empty(),
    {
        let r = KeySource { last_keys: Vec::new() };
        assert(texts(r.last_keys@) =~= Seq::empty());
        r
    }

    /// One poll that finds `keys` held: returns the key to report, if any, and
    /// remembers `keys` for the next poll.
    pub fn poll(&mut self, keys: Vec<String>) -> (r: Option<String>)
        ensures
            final(self)@ == texts(keys@),
            match r {
                Some(k) => reported(old(self)@, texts(keys@)) == Some(k@),
                None => reported(old(self)@, texts(keys@)).is_none(),
            },
    {
        let changed = !same_keys(&keys, &self.last_keys);
        let out = if changed && keys.len() > 0 {
            Some(keys[keys.len() - 1].clone())
        } else {
            None
        };
        self.last_keys = keys;
        out
    }
}

} // verus!
