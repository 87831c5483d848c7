//! Quoting for `/bin/sh`.

use vstd::prelude::*;

use crate::text;

verus! {

/// `v` with each single quote replaced by a sequence that closes the quotes, adds a quote
/// character, and opens them again.
pub open spec fn escape(v: Seq<char>) -> Seq<char>
    decreases v.len(),
{
    if v.len() == 0 {
        Seq::empty()
    } else {
        let head = if v[0] == '\'' {
            "'\\''"@
        } else {
            seq![v[0]]
        };
        head + escape(v.drop_first())
    }
}

/// `v` in single quotes.
pub open spec fn squote(v: Seq<char>) -> Seq<char> {
    "'"@ + escape(v) + "'"@
}

/// POSIX single-quotes a value for safe interpolation into `/bin/sh -c`.
pub fn sh_squote(v: &str) -> (r: String)
    ensures
        r@ == squote(v@),
{
    let c = text::chars_of(v);
    let mut r = "'".to_string();
    let mut i: usize = 0;
    assert(c@.skip(0) =~= v@);
    while i < c.len()
        invariant
            i <= c.len(),
            c@ == v@,
            r@ + escape(c@.skip(i as int)) =~= "'"@ + escape(v@),
        decreases c.len() - i,
    {
        assert(c@.skip(i as int).drop_first() =~= c@.skip(i + 1));
        let ghost before = r@;
        if c[i] == '\'' {
            r.append("'\\''");
            assert(r@ + escape(c@.skip(i + 1)) =~= before + ("'\\''"@ + escape(c@.skip(i + 1))));
        } else {
            r.push(c[i]);
            assert(r@ + escape(c@.skip(i + 1)) =~= before + (seq![c[i as int]] + escape(
                c@.skip(i + 1),
            )));
        }
        i = i + 1;
    }
    assert(escape(c@.skip(i as int)) =~= Seq::empty());
    assert(r@ =~= "'"@ + escape(v@));
    r.append("'");
    r
}

/// How a shell reads one word from the front of `s`, inside single quotes or outside of them, if
/// the word is made of nothing but single-quoted text and characters behind a backslash: what the
/// word stands for, and what follows it. A blank outside of quotes, or the end, ends the word;
/// anything else outside of quotes could mean something to the shell, and is not read.
pub open spec fn read_word(s: Seq<char>, quoted: bool) -> Option<(Seq<char>, Seq<char>)>
    decreases s.len(),
{
    if quoted {
        if s.len() == 0 {
            None
        } else if s[0] == '\'' {
            read_word(s.drop_first(), false)
        } else {
            prepend(s[0], read_word(s.drop_first(), true))
        }
    } else if s.len() == 0 || s[0] == ' ' {
        Some((Seq::empty(), s))
    } else if s[0] == '\'' {
        read_word(s.drop_first(), true)
    } else if s[0] == '\\' && s.len() > 1 {
        prepend(s[1], read_word(s.skip(2), false))
    } else {
        None
    }
}

/// A word read with one more character in front.
pub open spec fn prepend(c: char, rest: Option<(Seq<char>, Seq<char>)>) -> Option<
    (Seq<char>, Seq<char>),
> {
    match rest {
        Some((word, after)) => Some((seq![c] + word, after)),
        None => None,
    }
}

/// A quoted value is one word to a shell, and stands for exactly that value, whatever characters
/// it holds.
pub proof fn law_quoted_value_is_read_back(v: Seq<char>, after: Seq<char>)
    requires
        after.len() == 0 || after[0] == ' ',
    ensures
        read_word(squote(v) + after, false) == Some((v, after)),
{
    reveal_strlit("'");
    let s = squote(v) + after;
    assert(s.drop_first() =~= escape(v) + "'"@ + after);
    lemma_escaped_is_read_back(v, after);
}

proof fn lemma_escaped_is_read_back(v: Seq<char>, after: Seq<char>)
    requires
        after.len() == 0 || after[0] == ' ',
    ensures
        read_word(escape(v) + "'"@ + after, true) == Some((v, after)),
    decreases v.len(),
{
    reveal_strlit("'");
    reveal_strlit("'\\''");
    let s = escape(v) + "'"@ + after;
    if v.len() == 0 {
        assert(s.drop_first() =~= after);
        assert(read_word(after, false) == Some((Seq::<char>::empty(), after)));
        assert(v =~= Seq::empty());
    } else {
        let tail = escape(v.drop_first()) + "'"@ + after;
        lemma_escaped_is_read_back(v.drop_first(), after);
        assert(v =~= seq![v[0]] + v.drop_first());
        if v[0] == '\'' {
            assert(s =~= "'\\''"@ + tail);
            let s1 = s.drop_first();
            assert(s1 =~= seq!['\\', '\'', '\''] + tail);
            assert(s1.skip(2) =~= seq!['\''] + tail);
            assert(s1.skip(2).drop_first() =~= tail);
            assert(read_word(s1.skip(2), false) == read_word(tail, true));
            assert(read_word(s1, false) == prepend('\'', read_word(tail, true)));
            assert(read_word(s, true) == read_word(s1, false));
        } else {
            assert(s =~= seq![v[0]] + tail);
            assert(s.drop_first() =~= tail);
            assert(read_word(s, true) == prepend(v[0], read_word(tail, true)));
        }
    }
}

} // verus!
