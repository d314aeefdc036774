//! The chord registrar: the model of what the host's global-hotkey table
//! holds for this process.  Registration is atomic — a failed call leaves
//! the table untouched — and duplicates are refused.

use vstd::prelude::*;

use crate::chord::{Chord, ChordV};

verus! {

/// What one registration carries besides its chord.
pub struct RegEntry {
    pub chord: Chord,
    pub binding_id: String,
    pub shortcut_string: String,
}

/// The mathematical value of a registration.
pub struct RegEntryV {
    pub binding_id: Seq<char>,
    pub shortcut: Seq<char>,
}

/// The value a registration entry stands for.
pub open spec fn reg_entry_val(e: RegEntry) -> RegEntryV {
    RegEntryV { binding_id: e.binding_id@, shortcut: e.shortcut_string@ }
}

/// The mathematical contents of an entry sequence.
pub open spec fn reg_map(s: Seq<RegEntry>) -> Map<ChordV, RegEntryV>
    decreases s.len(),
{
    if s.len() == 0 {
        Map::empty()
    } else {
        reg_map(s.drop_last()).insert(s.last().chord@, reg_entry_val(s.last()))
    }
}

/// Whether some entry holds the chord.
pub open spec fn reg_has_chord(s: Seq<RegEntry>, c: ChordV) -> bool {
    exists|i: int| 0 <= i < s.len() && s[i].chord@ == c
}

/// No chord occurs twice.
pub open spec fn reg_unique(s: Seq<RegEntry>) -> bool {
    forall|i: int, j: int| 0 <= i < j < s.len() ==> s[i].chord@ != s[j].chord@
}

/// A chord is in the contents exactly when some entry holds it.
pub proof fn lemma_reg_map_domain(s: Seq<RegEntry>, c: ChordV)
    ensures
        reg_map(s).contains_key(c) == reg_has_chord(s, c),
    decreases s.len(),
{
    if s.len() > 0 {
        lemma_reg_map_domain(s.drop_last(), c);
        if s.last().chord@ == c {
            assert(s[s.len() - 1].chord@ == c);
        } else {
            assert(reg_has_chord(s.drop_last(), c) ==> reg_has_chord(s, c)) by {
                if reg_has_chord(s.drop_last(), c) {
                    let i = choose|i: int|
                        0 <= i < s.drop_last().len() && s.drop_last()[i].chord@ == c;
                    assert(s[i].chord@ == c);
                }
            }
            assert(reg_has_chord(s, c) ==> reg_has_chord(s.drop_last(), c)) by {
                if reg_has_chord(s, c) {
                    let i = choose|i: int| 0 <= i < s.len() && s[i].chord@ == c;
                    assert(i < s.len() - 1);
                    assert(s.drop_last()[i].chord@ == c);
                }
            }
        }
    }
}

/// Removing an entry removes exactly its chord from the contents.
pub proof fn lemma_reg_map_remove(s: Seq<RegEntry>, i: int)
    requires
        reg_unique(s),
        0 <= i < s.len(),
    ensures
        reg_map(s.remove(i)) == reg_map(s).remove(s[i].chord@),
    decreases s.len(),
{
    let c = s[i].chord@;
    if i == s.len() - 1 {
        assert(s.remove(i) =~= s.drop_last());
        lemma_reg_map_domain(s.drop_last(), c);
        assert(!reg_has_chord(s.drop_last(), c)) by {
            if reg_has_chord(s.drop_last(), c) {
                let j = choose|j: int|
                    0 <= j < s.drop_last().len() && s.drop_last()[j].chord@ == c;
                assert(s[j].chord@ == s[i].chord@);
            }
        }
        assert(reg_map(s.drop_last()).remove(c) =~= reg_map(s.drop_last()));
        assert(reg_map(s).remove(c) =~= reg_map(s.drop_last()).insert(
            s.last().chord@,
            reg_entry_val(s.last()),
        ).remove(c));
    } else {
        assert(reg_unique(s.drop_last()));
        assert(s.drop_last()[i] == s[i]);
        lemma_reg_map_remove(s.drop_last(), i);
        assert(s.remove(i).drop_last() =~= s.drop_last().remove(i));
        assert(s.remove(i).last() == s.last());
        assert(s[i].chord@ != s[s.len() - 1].chord@);
        assert(reg_map(s.drop_last()).remove(c).insert(s.last().chord@, reg_entry_val(s.last()))
            =~= reg_map(s.drop_last()).insert(s.last().chord@, reg_entry_val(s.last())).remove(c));
    }
}

/// The model of the host's global-hotkey table.
pub struct Registrar {
    pub entries: Vec<RegEntry>,
}

impl View for Registrar {
    type V = Map<ChordV, RegEntryV>;

    open spec fn view(&self) -> Map<ChordV, RegEntryV> {
        reg_map(self.entries@)
    }
}

impl Registrar {
    /// No chord is registered twice.
    pub open spec fn wf(&self) -> bool {
        reg_unique(self.entries@)
    }

    /// An empty registrar.
    pub fn new() -> (r: Self)
        ensures
            r@ == Map::<ChordV, RegEntryV>::empty(),
            r.wf(),
    {
        Registrar { entries: Vec::new() }
    }

    /// The position of the entry holding the chord, if any.
    fn index_of_chord(&self, c: &Chord) -> (r: Option<usize>)
        ensures
            match r {
                Some(i) => i < self.entries@.len() && self.entries@[i as int].chord@ == c@,
                None => !reg_has_chord(self.entries@, c@),
            },
    {
        let n = self.entries.len();
        let mut i: usize = 0;
        while i < n
            invariant
                i <= n,
                n == self.entries@.len(),
                forall|j: int| 0 <= j < i ==> self.entries@[j].chord@ != c@,
            decreases n - i,
        {
            if self.entries[i].chord.chord_eq(c) {
                return Some(i);
            }
            i += 1;
        }
        None
    }

    /// Whether the chord is currently registered.
    pub fn is_registered(&self, c: &Chord) -> (r: bool)
        ensures
            r == self@.contains_key(c@),
    {
        proof {
            lemma_reg_map_domain(self.entries@, c@);
        }
        match self.index_of_chord(c) {
            Some(i) => {
                proof {
                    assert(reg_has_chord(self.entries@, c@));
                }
                true
            },
            None => false,
        }
    }

    /// Installs a registration for a chord that is not yet held.
    pub fn install(&mut self, e: RegEntry)
        requires
            old(self).wf(),
            !old(self)@.contains_key(e.chord@),
        ensures
            final(self).wf(),
            final(self)@ == old(self)@.insert(e.chord@, reg_entry_val(e)),
    {
        proof {
            lemma_reg_map_domain(self.entries@, e.chord@);
        }
        let ghost s0 = self.entries@;
        self.entries.push(e);
        proof {
            assert(self.entries@.drop_last() =~= s0);
        }
    }

    /// Releases the chord; reports whether it was held.
    pub fn release(&mut self, c: &Chord) -> (r: bool)
        requires
            old(self).wf(),
        ensures
            final(self).wf(),
            r == old(self)@.contains_key(c@),
            final(self)@ == old(self)@.remove(c@),
    {
        let ghost s0 = self.entries@;
        proof {
            lemma_reg_map_domain(s0, c@);
        }
        match self.index_of_chord(c) {
            Some(i) => {
                proof {
                    assert(reg_has_chord(s0, c@));
                    lemma_reg_map_remove(s0, i as int);
                    s0.remove_ensures(i as int);
                }
                self.entries.remove(i);
                true
            },
            None => {
                proof {
                    assert(self@ =~= old(self)@.remove(c@));
                }
                false
            },
        }
    }
}

} // verus!
