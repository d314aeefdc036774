//! Character-level text utilities for shortcut strings: ASCII case folding,
//! whitespace trimming and splitting on `+`, each with a mathematical model.

use vstd::prelude::*;

verus! {

/// ASCII lowercase of a single character; other characters are unchanged.
pub open spec fn lower_char_spec(c: char) -> char {
    if 65 <= c as u32 && c as u32 <= 90 {
        ((c as u8) + 32) as char
    } else {
        c
    }
}

/// ASCII lowercase of a character sequence.
pub open spec fn lower_seq(s: Seq<char>) -> Seq<char> {
    s.map_values(|c: char| lower_char_spec(c))
}

/// The whitespace characters stripped from around shortcut tokens.
pub open spec fn is_space_char(c: char) -> bool {
    c == ' ' || c == '\t' || c == '\n' || c == '\r'
}

/// Sequence with leading whitespace removed.
pub open spec fn trim_front(s: Seq<char>) -> Seq<char>
    decreases s.len(),
{
    if s.len() > 0 && is_space_char(s[0]) {
        trim_front(s.drop_first())
    } else {
        s
    }
}

/// Sequence with trailing whitespace removed.
pub open spec fn trim_back(s: Seq<char>) -> Seq<char>
    decreases s.len(),
{
    if s.len() > 0 && is_space_char(s[s.len() - 1]) {
        trim_back(s.drop_last())
    } else {
        s
    }
}

/// Sequence with surrounding whitespace removed.
pub open spec fn trim_seq(s: Seq<char>) -> Seq<char> {
    trim_back(trim_front(s))
}

/// Canonical form of one shortcut token: trimmed, then lowercased.
pub open spec fn canon_token(s: Seq<char>) -> Seq<char> {
    lower_seq(trim_seq(s))
}

/// The tokens of `s` split on `'+'`, as `str::split` produces them: the
/// empty string yields one empty token, and every separator opens a new
/// (possibly empty) token.
pub open spec fn split_plus(s: Seq<char>) -> Seq<Seq<char>>
    decreases s.len(),
{
    if s.len() == 0 {
        seq![Seq::<char>::empty()]
    } else if s[s.len() - 1] == '+' {
        split_plus(s.drop_last()).push(Seq::<char>::empty())
    } else {
        let r = split_plus(s.drop_last());
        r.update(r.len() - 1, r[r.len() - 1].push(s[s.len() - 1]))
    }
}

/// Splitting always yields at least one token.
pub proof fn lemma_split_plus_nonempty(s: Seq<char>)
    ensures
        split_plus(s).len() >= 1,
    decreases s.len(),
{
    if s.len() > 0 {
        lemma_split_plus_nonempty(s.drop_last());
    }
}

/// The characters of `s`, in order.
pub fn chars_of(s: &str) -> (r: Vec<char>)
    ensures
        r@ == s@,
{
    let n = s.unicode_len();
    let mut v: Vec<char> = Vec::new();
    let mut i: usize = 0;
    while i < n
        invariant
            i <= n,
            n == s@.len(),
            v@ == s@.take(i as int),
        decreases n - i,
    {
        let c = s.get_char(i);
        v.push(c);
        proof {
            assert(s@.take(i as int).push(s@[i as int]) =~= s@.take(i as int + 1));
        }
        i += 1;
    }
    proof {
        assert(s@.take(n as int) =~= s@);
    }
    v
}

/// ASCII lowercase of a single character.
pub fn lower_char(c: char) -> (r: char)
    ensures
        r == lower_char_spec(c),
{
    let u = c as u32;
    if 65 <= u && u <= 90 {
        ((u + 32) as u8) as char
    } else {
        c
    }
}

/// Whether `c` is one of the whitespace characters trimmed from tokens.
pub fn is_space(c: char) -> (r: bool)
    ensures
        r == is_space_char(c),
{
    c == ' ' || c == '\t' || c == '\n' || c == '\r'
}

/// Compares a character vector with a string slice.
pub fn vec_chars_eq_str(v: &Vec<char>, s: &str) -> (r: bool)
    ensures
        r == (v@ == s@),
{
    let n = s.unicode_len();
    if v.len() != n {
        proof {
            assert(v@ != s@) by {
                if v@ == s@ {
                    assert(v@.len() == s@.len());
                }
            }
        }
        return false;
    }
    let mut i: usize = 0;
    while i < n
        invariant
            i <= n,
            n == s@.len(),
            n == v@.len(),
            forall|j: int| 0 <= j < i ==> v@[j] == s@[j],
        decreases n - i,
    {
        let c = s.get_char(i);
        if v[i] != c {
            proof {
                assert(v@ != s@) by {
                    if v@ == s@ {
                        assert(v@[i as int] == s@[i as int]);
                    }
                }
            }
            return false;
        }
        i += 1;
    }
    proof {
        assert(v@ =~= s@);
    }
    true
}

/// Relies on String::push: appends exactly the given character.
pub assume_specification[ String::push ](s: &mut String, c: char)
    ensures
        final(s)@ == old(s)@.push(c),
;

/// Compares two string slices by their characters.
pub fn str_eq(a: &str, b: &str) -> (r: bool)
    ensures
        r == (a@ == b@),
{
    let v = chars_of(a);
    vec_chars_eq_str(&v, b)
}

/// Compares two character vectors.
pub fn vec_chars_eq(a: &Vec<char>, b: &Vec<char>) -> (r: bool)
    ensures
        r == (a@ == b@),
{
    if a.len() != b.len() {
        proof {
            assert(a@ != b@) by {
                if a@ == b@ {
                    assert(a@.len() == b@.len());
                }
            }
        }
        return false;
    }
    let n = a.len();
    let mut i: usize = 0;
    while i < n
        invariant
            i <= n,
            n == a@.len(),
            n == b@.len(),
            forall|j: int| 0 <= j < i ==> a@[j] == b@[j],
        decreases n - i,
    {
        if a[i] != b[i] {
            proof {
                assert(a@ != b@) by {
                    if a@ == b@ {
                        assert(a@[i as int] == b@[i as int]);
                    }
                }
            }
            return false;
        }
        i += 1;
    }
    proof {
        assert(a@ =~= b@);
    }
    true
}

/// Canonical form of one token: surrounding whitespace removed, then
/// ASCII-lowercased.
pub fn canon_of(tok: &Vec<char>) -> (r: Vec<char>)
    ensures
        r@ == canon_token(tok@),
{
    let n = tok.len();
    proof {
        assert(tok@.subrange(0, n as int) =~= tok@);
    }
    let mut i: usize = 0;
    while i < n && is_space(tok[i])
        invariant
            i <= n,
            n == tok@.len(),
            trim_front(tok@) == trim_front(tok@.subrange(i as int, n as int)),
        decreases n - i,
    {
        proof {
            let cur = tok@.subrange(i as int, n as int);
            assert(cur.drop_first() =~= tok@.subrange(i as int + 1, n as int));
        }
        i += 1;
    }
    proof {
        let cur = tok@.subrange(i as int, n as int);
        if i < n {
            assert(!is_space_char(cur[0]));
        }
        assert(trim_front(tok@) == cur);
    }
    let mut j: usize = n;
    while j > i && is_space(tok[j - 1])
        invariant
            i <= j <= n,
            n == tok@.len(),
            trim_front(tok@) == tok@.subrange(i as int, n as int),
            trim_back(tok@.subrange(i as int, n as int)) == trim_back(
                tok@.subrange(i as int, j as int),
            ),
        decreases j,
    {
        proof {
            let cur = tok@.subrange(i as int, j as int);
            assert(cur.drop_last() =~= tok@.subrange(i as int, j as int - 1));
        }
        j -= 1;
    }
    proof {
        let cur = tok@.subrange(i as int, j as int);
        if j > i {
            assert(!is_space_char(cur[cur.len() - 1]));
        }
        assert(trim_seq(tok@) == cur);
    }
    let mut out: Vec<char> = Vec::new();
    let mut k: usize = i;
    while k < j
        invariant
            i <= k <= j <= n,
            n == tok@.len(),
            trim_seq(tok@) == tok@.subrange(i as int, j as int),
            out@ == lower_seq(tok@.subrange(i as int, k as int)),
        decreases j - k,
    {
        let c = lower_char(tok[k]);
        out.push(c);
        proof {
            let a = tok@.subrange(i as int, k as int);
            let b = tok@.subrange(i as int, k as int + 1);
            assert(b =~= a.push(tok@[k as int]));
            assert(lower_seq(a.push(tok@[k as int])) =~= lower_seq(a).push(
                lower_char_spec(tok@[k as int]),
            ));
        }
        k += 1;
    }
    out
}

/// The tokens of `v` split on `'+'`.
pub fn split_tokens(v: &Vec<char>) -> (r: Vec<Vec<char>>)
    ensures
        r@.map_values(|t: Vec<char>| t@) == split_plus(v@),
        r@.len() >= 1,
{
    let mut toks: Vec<Vec<char>> = Vec::new();
    let mut cur: Vec<char> = Vec::new();
    let mut i: usize = 0;
    while i < v.len()
        invariant
            i <= v@.len(),
            toks@.map_values(|t: Vec<char>| t@).push(cur@) == split_plus(v@.take(i as int)),
        decreases v@.len() - i,
    {
        let ghost pre = v@.take(i as int);
        let ghost post = v@.take(i as int + 1);
        proof {
            assert(post.drop_last() =~= pre);
            assert(post[post.len() - 1] == v@[i as int]);
        }
        if v[i] == '+' {
            toks.push(cur);
            cur = Vec::new();
            proof {
                let f = |t: Vec<char>| t@;
                assert(toks@.map_values(f).push(cur@) =~~= split_plus(post));
            }
        } else {
            cur.push(v[i]);
            proof {
                let f = |t: Vec<char>| t@;
                let old_split = split_plus(pre);
                lemma_split_plus_nonempty(pre);
                assert(toks@.map_values(f).push(cur@) =~~= old_split.update(
                    old_split.len() - 1,
                    old_split[old_split.len() - 1].push(v@[i as int]),
                ));
            }
        }
        i += 1;
    }
    proof {
        assert(v@.take(v@.len() as int) =~= v@);
        let f = |t: Vec<char>| t@;
        assert(toks@.map_values(f).push(cur@).len() == toks@.len() + 1);
    }
    toks.push(cur);
    toks
}

} // verus!
