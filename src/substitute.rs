//! Token substitution: every `:word:` (a colon, one or more ASCII letters or
//! underscores, a colon), found leftmost-first and without overlap, is
//! replaced by its entry in the table; unknown tokens and all other text are
//! copied through unchanged, and replacements are not scanned again.
use vstd::prelude::*;

use crate::table::LookupTable;
use crate::text::push_char;

verus! {

broadcast use vstd::string::group_string_axioms;

/// A character that may appear between the colons of a token.
pub open spec fn is_word_char(c: char) -> bool {
    ('a' <= c && c <= 'z') || ('A' <= c && c <= 'Z') || c == '_'
}

/// How many word characters follow one another in `s` from position `i`.
pub open spec fn word_run(s: Seq<char>, i: int) -> nat
    decreases s.len() - i,
{
    if 0 <= i < s.len() && is_word_char(s[i]) {
        1 + word_run(s, i + 1)
    } else {
        0
    }
}

/// The length of the token that starts at `i`, or 0 when none does.
pub open spec fn token_len_at(s: Seq<char>, i: int) -> nat {
    let n = word_run(s, i + 1);
    if 0 <= i && i + 1 + n < s.len() && s[i] == ':' && n > 0 && s[i + 1 + n] == ':' {
        n + 2
    } else {
        0
    }
}

/// The substituted text of `s` from position `i` on.
pub open spec fn substitute_from(m: Map<Seq<char>, Seq<char>>, s: Seq<char>, i: int) -> Seq<char>
    decreases s.len() - i,
{
    if i < 0 || i >= s.len() {
        Seq::empty()
    } else {
        let n = token_len_at(s, i);
        if n > 0 {
            let key = s.subrange(i + 1, i + n - 1);
            let piece = if m.contains_key(key) {
                m[key]
            } else {
                s.subrange(i, i + n)
            };
            piece + substitute_from(m, s, i + n)
        } else {
            seq![s[i]] + substitute_from(m, s, i + 1)
        }
    }
}

/// The substituted text of `s`.
pub open spec fn substitute(m: Map<Seq<char>, Seq<char>>, s: Seq<char>) -> Seq<char> {
    substitute_from(m, s, 0)
}

fn is_word(c: char) -> (r: bool)
    ensures
        r == is_word_char(c),
{
    ('a' <= c && c <= 'z') || ('A' <= c && c <= 'Z') || c == '_'
}

fn chars_of(s: &str) -> (r: Vec<char>)
    ensures
        r@ == s@,
{
    let mut r: Vec<char> = Vec::new();
    for c in it: s.chars()
        invariant
            r@ == it.seq().subrange(0, it.index() as int),
    {
        r.push(c);
    }
    r
}

/// The length of the token that starts at `i`, or 0.
fn token_len(s: &Vec<char>, i: usize) -> (r: usize)
    requires
        i < s@.len(),
    ensures
        r == token_len_at(s@, i as int),
{
    let len = s.len();
    assert(i < len);
    let mut j: usize = i + 1;
    while j < s.len() && is_word(s[j])
        invariant
            i < j <= s@.len(),
            word_run(s@, i + 1) == (j - i - 1) + word_run(s@, j as int),
        decreases s@.len() - j,
    {
        j = j + 1;
    }
    if s[i] == ':' && j > i + 1 && j < s.len() && s[j] == ':' {
        j - i + 1
    } else {
        0
    }
}

fn string_of(s: &Vec<char>, from: usize, to: usize) -> (r: String)
    requires
        from <= to <= s@.len(),
    ensures
        r@ == s@.subrange(from as int, to as int),
{
    let mut r = String::new();
    let mut k: usize = from;
    while k < to
        invariant
            from <= k <= to,
            to <= s@.len(),
            r@ == s@.subrange(from as int, k as int),
        decreases to - k,
    {
        push_char(&mut r, s[k]);
        assert(r@ =~= s@.subrange(from as int, k + 1));
        k = k + 1;
    }
    r
}

/// `s` with every token known to `table` replaced by its entry.
pub fn replace_tokens(table: &LookupTable, s: &str) -> (r: String)
    requires
        table.wf(),
    ensures
        r@ == substitute(table@, s@),
{
    let cs = chars_of(s);
    let mut out = String::new();
    let mut i: usize = 0;
    while i < cs.len()
        invariant
            table.wf(),
            cs@ == s@,
            i <= cs@.len(),
            out@ + substitute_from(table@, cs@, i as int) == substitute(table@, cs@),
        decreases cs@.len() - i,
    {
        let n = token_len(&cs, i);
        let ghost rest = substitute_from(table@, cs@, i as int);
        if n > 0 {
            let key = string_of(&cs, i + 1, i + n - 1);
            let ghost next = substitute_from(table@, cs@, i + n);
            match table.get(key.as_str()) {
                Some(v) => {
                    let ghost o = out@;
                    out.append(v.as_str());
                    assert(o + rest =~= out@ + next);
                },
                None => {
                    let tok = string_of(&cs, i, i + n);
                    let ghost o = out@;
                    out.append(tok.as_str());
                    assert(o + rest =~= out@ + next);
                },
            }
            i = i + n;
        } else {
            let ghost o = out@;
            push_char(&mut out, cs[i]);
            assert(o + rest =~= out@ + substitute_from(table@, cs@, i + 1));
            i = i + 1;
        }
    }
    assert(out@ =~= out@ + substitute_from(table@, cs@, i as int));
    out
}

} // verus!
