//! The values that stand in for the placeholders of a format.

use vstd::prelude::*;

verus! {

/// Texts by the names of the placeholders that they stand in for.
pub struct Placeholders {
    /// Names and texts. Of several entries with one name the last one counts.
    entries: Vec<(String, String)>,
}

spec fn held(entries: Seq<(String, String)>) -> Map<Seq<char>, Seq<char>>
    decreases entries.len(),
{
    if entries.len() == 0 {
        Map::empty()
    } else {
        held(entries.drop_last()).insert(entries.last().0@, entries.last().1@)
    }
}

impl View for Placeholders {
    type V = Map<Seq<char>, Seq<char>>;

    closed spec fn view(&self) -> Map<Seq<char>, Seq<char>> {
        held(self.entries@)
    }
}

impl Placeholders {
    /// No placeholders.
    pub fn new() -> (r: Placeholders)
        ensures
            r@ == Map::<Seq<char>, Seq<char>>::empty(),
    {
        Placeholders { entries: Vec::new() }
    }

    /// Lets a text stand in for a placeholder, in place of any that did before.
    pub fn insert(&mut self, name: &str, text: String)
        ensures
            final(self)@ == old(self)@.insert(name@, text@),
    {
        self.entries.push((name.to_owned(), text));
        assert(self.entries@.drop_last() =~= old(self).entries@);
    }

    /// The text for a placeholder.
    pub fn get(&self, name: &str) -> (r: Option<&String>)
        ensures
            match r {
                Some(text) => self@.contains_key(name@) && self@[name@] == text@,
                None => !self@.contains_key(name@),
            },
    {
        let wanted: String = name.to_owned();
        let mut i: usize = self.entries.len();
        assert(self.entries@.take(i as int) =~= self.entries@);
        while i > 0
            invariant
                i <= self.entries@.len(),
                wanted@ == name@,
                self@.contains_key(name@) == held(self.entries@.take(i as int)).contains_key(name@),
                self@.contains_key(name@) ==> self@[name@] == held(
                    self.entries@.take(i as int),
                )[name@],
            decreases i,
        {
            let ghost before = self.entries@.take(i as int);
            i = i - 1;
            assert(before.drop_last() =~= self.entries@.take(i as int));
            assert(before.last() == self.entries@[i as int]);
            if self.entries[i].0 == wanted {
                return Some(&self.entries[i].1);
            }
        }
        None
    }
}

} // verus!
