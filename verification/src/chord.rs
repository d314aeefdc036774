//! The chord representation a shortcut string parses into: a set of
//! modifier flags plus exactly one non-modifier key, held in canonical
//! (trimmed, lowercase) form so equal chords written differently collide.

use vstd::prelude::*;

use crate::errors::ShortcutError;
use crate::text::{canon_of, canon_token, chars_of, split_plus, split_tokens, vec_chars_eq, vec_chars_eq_str};
use crate::validate::{is_modifier_token, modifier_names};

verus! {

/// The mathematical value of a chord.
pub struct ChordV {
    pub ctrl: bool,
    pub shift: bool,
    pub alt: bool,
    pub meta: bool,
    pub key: Seq<char>,
}

/// An executable chord.
pub struct Chord {
    pub ctrl: bool,
    pub shift: bool,
    pub alt: bool,
    pub meta: bool,
    pub key: Vec<char>,
}

impl View for Chord {
    type V = ChordV;

    open spec fn view(&self) -> ChordV {
        ChordV {
            ctrl: self.ctrl,
            shift: self.shift,
            alt: self.alt,
            meta: self.meta,
            key: self.key@,
        }
    }
}

/// Whether the token names the control modifier.
pub open spec fn is_ctrl_name(t: Seq<char>) -> bool {
    canon_token(t) == "ctrl"@ || canon_token(t) == "control"@
}

/// Whether the token names the shift modifier.
pub open spec fn is_shift_name(t: Seq<char>) -> bool {
    canon_token(t) == "shift"@
}

/// Whether the token names the alt modifier.
pub open spec fn is_alt_name(t: Seq<char>) -> bool {
    canon_token(t) == "alt"@ || canon_token(t) == "option"@
}

/// Whether the token names the meta modifier.
pub open spec fn is_meta_name(t: Seq<char>) -> bool {
    canon_token(t) == "meta"@ || canon_token(t) == "command"@ || canon_token(t) == "cmd"@
        || canon_token(t) == "super"@ || canon_token(t) == "win"@ || canon_token(t) == "windows"@
}

/// A token is a modifier exactly when it belongs to one of the four
/// modifier groups.
pub proof fn lemma_modifier_groups(t: Seq<char>)
    ensures
        is_modifier_token(t) == (is_ctrl_name(t) || is_shift_name(t) || is_alt_name(t)
            || is_meta_name(t)),
{
    assert(modifier_names()[0] == "ctrl"@);
    assert(modifier_names()[1] == "control"@);
    assert(modifier_names()[2] == "shift"@);
    assert(modifier_names()[3] == "alt"@);
    assert(modifier_names()[4] == "option"@);
    assert(modifier_names()[5] == "meta"@);
    assert(modifier_names()[6] == "command"@);
    assert(modifier_names()[7] == "cmd"@);
    assert(modifier_names()[8] == "super"@);
    assert(modifier_names()[9] == "win"@);
    assert(modifier_names()[10] == "windows"@);
    if is_modifier_token(t) {
        let i = choose|i: int|
            0 <= i < modifier_names().len() && modifier_names()[i] == canon_token(t);
        assert(modifier_names().len() == 11);
    }
}

/// The flags and key accumulated while scanning a token list.
pub struct ChordScan {
    pub ctrl: bool,
    pub shift: bool,
    pub alt: bool,
    pub meta: bool,
    pub key: Option<Seq<char>>,
}

/// Scans a token list left to right: modifier tokens set their flag, the
/// first non-modifier token becomes the key, and a second non-modifier
/// token fails the scan.
pub open spec fn scan_tokens(toks: Seq<Seq<char>>) -> Option<ChordScan>
    decreases toks.len(),
{
    if toks.len() == 0 {
        Some(ChordScan { ctrl: false, shift: false, alt: false, meta: false, key: None })
    } else {
        match scan_tokens(toks.drop_last()) {
            None => None,
            Some(acc) => {
                let t = toks.last();
                if is_ctrl_name(t) {
                    Some(ChordScan { ctrl: true, ..acc })
                } else if is_shift_name(t) {
                    Some(ChordScan { shift: true, ..acc })
                } else if is_alt_name(t) {
                    Some(ChordScan { alt: true, ..acc })
                } else if is_meta_name(t) {
                    Some(ChordScan { meta: true, ..acc })
                } else if acc.key is Some {
                    None
                } else {
                    Some(ChordScan { key: Some(canon_token(t)), ..acc })
                }
            },
        }
    }
}

/// What a shortcut string parses into: its chord, or nothing when it has
/// no key, an empty key, or more than one key.
pub open spec fn parse_chord_spec(s: Seq<char>) -> Option<ChordV> {
    match scan_tokens(split_plus(s)) {
        Some(acc) => match acc.key {
            Some(k) => if k.len() > 0 {
                Some(ChordV { ctrl: acc.ctrl, shift: acc.shift, alt: acc.alt, meta: acc.meta, key: k })
            } else {
                None
            },
            None => None,
        },
        None => None,
    }
}

/// A failed scan of a prefix fails the scan of the whole list.
proof fn lemma_scan_none_prefix(toks: Seq<Seq<char>>, i: int)
    requires
        0 <= i <= toks.len(),
        scan_tokens(toks.take(i)) is None,
    ensures
        scan_tokens(toks) is None,
    decreases toks.len() - i,
{
    if i == toks.len() {
        assert(toks.take(i) =~= toks);
    } else {
        assert(toks.take(i + 1).drop_last() =~= toks.take(i));
        lemma_scan_none_prefix(toks, i + 1);
    }
}

/// The key view of an optional key vector.
pub open spec fn key_view(k: Option<Vec<char>>) -> Option<Seq<char>> {
    match k {
        Some(v) => Some(v@),
        None => None,
    }
}

impl Chord {
    /// Whether two chords are the same combination.
    pub fn chord_eq(&self, other: &Chord) -> (r: bool)
        ensures
            r == (self@ == other@),
    {
        let r = self.ctrl == other.ctrl && self.shift == other.shift && self.alt == other.alt
            && self.meta == other.meta && vec_chars_eq(&self.key, &other.key);
        proof {
            if r {
                assert(self@ == other@);
            } else {
                assert(self@ != other@);
            }
        }
        r
    }
}

/// Parses a shortcut string into its chord: modifier tokens set flags,
/// exactly one non-empty non-modifier token names the key.
pub fn parse_chord(raw: &str) -> (r: Result<Chord, ShortcutError>)
    ensures
        (match parse_chord_spec(raw@) {
            Some(cv) => r matches Ok(c) && c@ == cv,
            None => r matches Err(e) && e == ShortcutError::ParseFailed,
        }),
{
    let v = chars_of(raw);
    let toks = split_tokens(&v);
    let ghost model = split_plus(raw@);
    let mut ctrl = false;
    let mut shift = false;
    let mut alt = false;
    let mut meta = false;
    let mut key: Option<Vec<char>> = None;
    let mut i: usize = 0;
    while i < toks.len()
        invariant
            i <= toks@.len(),
            v@ == raw@,
            toks@.map_values(|t: Vec<char>| t@) == model,
            model == split_plus(raw@),
            scan_tokens(model.take(i as int)) == Some(
                ChordScan { ctrl, shift, alt, meta, key: key_view(key) },
            ),
        decreases toks@.len() - i,
    {
        let canon = canon_of(&toks[i]);
        proof {
            assert(toks@.map_values(|t: Vec<char>| t@)[i as int] == toks@[i as int]@);
            assert(model.take(i as int + 1).drop_last() =~= model.take(i as int));
            assert(model.take(i as int + 1).last() == model[i as int]);
        }
        let ghost t = model[i as int];
        if vec_chars_eq_str(&canon, "ctrl") || vec_chars_eq_str(&canon, "control") {
            proof {
                assert(is_ctrl_name(t));
            }
            ctrl = true;
        } else if vec_chars_eq_str(&canon, "shift") {
            shift = true;
        } else if vec_chars_eq_str(&canon, "alt") || vec_chars_eq_str(&canon, "option") {
            alt = true;
        } else if vec_chars_eq_str(&canon, "meta") || vec_chars_eq_str(&canon, "command")
            || vec_chars_eq_str(&canon, "cmd") || vec_chars_eq_str(&canon, "super")
            || vec_chars_eq_str(&canon, "win") || vec_chars_eq_str(&canon, "windows") {
            meta = true;
        } else if key.is_some() {
            proof {
                assert(scan_tokens(model.take(i as int + 1)) is None);
                lemma_scan_none_prefix(model, i as int + 1);
            }
            return Err(ShortcutError::ParseFailed);
        } else {
            key = Some(canon);
        }
        i += 1;
    }
    proof {
        assert(model.take(toks@.len() as int) =~= model);
    }
    match key {
        None => Err(ShortcutError::ParseFailed),
        Some(k) => {
            if k.len() == 0 {
                Err(ShortcutError::ParseFailed)
            } else {
                Ok(Chord { ctrl, shift, alt, meta, key: k })
            }
        },
    }
}

} // verus!
