//! The shortcut string validator: decides whether a textual binding is
//! registerable at all.

use vstd::prelude::*;

use crate::errors::ShortcutError;
use crate::text::{
    canon_of, canon_token, chars_of, lower_char, lower_seq, split_plus, split_tokens,
    vec_chars_eq_str,
};

verus! {

/// The recognized modifier tokens, in canonical (trimmed, lowercase) form.
pub open spec fn modifier_names() -> Seq<Seq<char>> {
    seq![
        "ctrl"@,
        "control"@,
        "shift"@,
        "alt"@,
        "option"@,
        "meta"@,
        "command"@,
        "cmd"@,
        "super"@,
        "win"@,
        "windows"@,
    ]
}

/// Whether one raw token names a modifier key.
pub open spec fn is_modifier_token(t: Seq<char>) -> bool {
    modifier_names().contains(canon_token(t))
}

/// Whether the whole text is the function-key binding, compared
/// case-insensitively and without trimming.
pub open spec fn is_fn_text(s: Seq<char>) -> bool {
    lower_seq(s) == "fn"@
}

/// Whether a shortcut string is registerable: either the reserved
/// function-key text on the platform that supports it, or a non-empty
/// `+`-separated list with at least one non-modifier token.
pub open spec fn valid_shortcut(s: Seq<char>, fn_platform: bool) -> bool {
    (fn_platform && is_fn_text(s)) || (s.len() > 0 && exists|i: int|
        0 <= i < split_plus(s).len() && !is_modifier_token(split_plus(s)[i]))
}

/// Whether a canonical token is one of the recognized modifier names.
fn is_modifier_canon(canon: &Vec<char>) -> (r: bool)
    ensures
        r == modifier_names().contains(canon@),
{
    proof {
        assert(modifier_names()[0] == "ctrl"@);
        assert(modifier_names()[1] == "control"@);
        assert(modifier_names()[2] == "shift"@);
        assert(modifier_names()[3] == "alt"@);
        assert(modifier_names()[4] == "option"@);
        assert(modifier_names()[5] == "meta"@);
        assert(modifier_names()[6] == "command"@);
        assert(modifier_names()[7] == "cmd"@);
        assert(modifier_names()[8] == "super"@);
        assert(modifier_names()[9] == "win"@);
        assert(modifier_names()[10] == "windows"@);
    }
    let r = vec_chars_eq_str(canon, "ctrl") || vec_chars_eq_str(canon, "control")
        || vec_chars_eq_str(canon, "shift") || vec_chars_eq_str(canon, "alt")
        || vec_chars_eq_str(canon, "option") || vec_chars_eq_str(canon, "meta")
        || vec_chars_eq_str(canon, "command") || vec_chars_eq_str(canon, "cmd")
        || vec_chars_eq_str(canon, "super") || vec_chars_eq_str(canon, "win")
        || vec_chars_eq_str(canon, "windows");
    proof {
        if !r {
            assert(!modifier_names().contains(canon@)) by {
                if modifier_names().contains(canon@) {
                    let i = choose|i: int|
                        0 <= i < modifier_names().len() && modifier_names()[i] == canon@;
                    assert(modifier_names().len() == 11);
                }
            }
        }
    }
    r
}

/// Whether a binding string names the platform function key (a
/// case-insensitive match of the reserved text).
pub fn is_fn_binding(binding: &str) -> (r: bool)
    ensures
        r == is_fn_text(binding@),
{
    let v = chars_of(binding);
    proof {
        reveal_strlit("fn");
    }
    if v.len() != 2 {
        proof {
            assert(lower_seq(binding@).len() == binding@.len());
        }
        return false;
    }
    let a = lower_char(v[0]);
    let b = lower_char(v[1]);
    let r = a == 'f' && b == 'n';
    proof {
        assert(lower_seq(binding@).len() == 2);
        assert(lower_seq(binding@)[0] == a);
        assert(lower_seq(binding@)[1] == b);
        if r {
            assert(lower_seq(binding@) =~= "fn"@);
        } else {
            assert(lower_seq(binding@) != "fn"@);
        }
    }
    r
}

/// Decides whether a textual binding may be registered.  The reserved
/// function-key text passes only on the platform that supports it; any
/// other string passes exactly when it is non-empty and contains at least
/// one token that is not a modifier name.
pub fn validate_shortcut_string(raw: &str, fn_platform: bool) -> (r: Result<(), ShortcutError>)
    ensures
        r == if valid_shortcut(raw@, fn_platform) {
            Result::<(), ShortcutError>::Ok(())
        } else {
            Result::<(), ShortcutError>::Err(ShortcutError::Invalid)
        },
{
    if fn_platform && is_fn_binding(raw) {
        return Ok(());
    }
    let v = chars_of(raw);
    if v.len() == 0 {
        return Err(ShortcutError::Invalid);
    }
    let toks = split_tokens(&v);
    let ghost model = split_plus(raw@);
    let mut i: usize = 0;
    while i < toks.len()
        invariant
            i <= toks@.len(),
            v@ == raw@,
            raw@.len() > 0,
            toks@.map_values(|t: Vec<char>| t@) == model,
            model == split_plus(raw@),
            forall|j: int| 0 <= j < i ==> is_modifier_token(model[j]),
        decreases toks@.len() - i,
    {
        let canon = canon_of(&toks[i]);
        proof {
            assert(toks@.map_values(|t: Vec<char>| t@)[i as int] == toks@[i as int]@);
        }
        if !is_modifier_canon(&canon) {
            proof {
                assert(0 <= i < split_plus(raw@).len() && !is_modifier_token(
                    split_plus(raw@)[i as int],
                ));
            }
            return Ok(());
        }
        i += 1;
    }
    proof {
        assert(forall|j: int| 0 <= j < model.len() ==> is_modifier_token(model[j]));
    }
    Err(ShortcutError::Invalid)
}

} // verus!
