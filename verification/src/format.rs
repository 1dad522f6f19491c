//! Value formatter: wraps long values into fixed-width lines for the
//! HTML rendering, and passes values through untouched for the JSON
//! rendering.

use vstd::prelude::*;
use vstd::string::*;
use vstd::arithmetic::div_mod::{
    lemma_basic_div,
    lemma_div_plus_one,
    lemma_fundamental_div_mod,
    lemma_mod_multiples_vanish,
    lemma_mod_pos_bound,
    lemma_mod_sub_multiples_vanish,
    lemma_small_mod,
};

verus! {

/// `s` with a line break inserted after every 80th character.  No break
/// follows the final character, so text of at most 80 characters is
/// returned unchanged.
pub open spec fn wrapped(s: Seq<char>) -> Seq<char>
    decreases s.len(),
{
    if s.len() <= 80 {
        s
    } else {
        s.subrange(0, 80) + seq!['\n'] + wrapped(s.subrange(80, s.len() as int))
    }
}

/// Formats one value for display: verbose mode (`flag` true, the JSON
/// rendering) returns the value byte-for-byte; truncated mode breaks it
/// into lines of at most 80 characters.
pub fn value_limiter(flag: bool, val: String) -> (r: String)
    ensures
        flag ==> r@ == val@,
        !flag ==> r@ == wrapped(val@),
{
    if flag {
        return val;
    }
    let s: &str = val.as_str();
    let n: usize = s.unicode_len();
    let mut out: String = String::new();
    let mut i: usize = 0;
    proof {
        assert(s@.subrange(0, n as int) =~= s@);
        assert(out@ + wrapped(s@) =~= wrapped(s@));
    }
    while i < n
        invariant
            n == s@.len(),
            i <= n,
            wrapped(s@) == out@ + wrapped(s@.subrange(i as int, n as int)),
        decreases n - i,
    {
        if n - i <= 80 {
            let chunk = s.substring_char(i, n);
            out.append(chunk);
            proof {
                assert(s@.subrange(i as int, n as int).len() <= 80);
            }
            i = n;
        } else {
            let chunk = s.substring_char(i, i + 80);
            out.append(chunk);
            out.append("\n");
            proof {
                reveal_strlit("\n");
                let rest = s@.subrange(i as int, n as int);
                assert(rest.len() > 80);
                assert(rest.subrange(0, 80) =~= s@.subrange(i as int, i + 80));
                assert(rest.subrange(80, rest.len() as int) =~= s@.subrange(
                    i + 80,
                    n as int,
                ));
                assert("\n"@ =~= seq!['\n']);
                assert(wrapped(rest) == s@.subrange(i as int, i + 80) + seq!['\n'] + wrapped(
                    s@.subrange(i + 80, n as int),
                ));
            }
            i = i + 80;
        }
    }
    proof {
        assert(s@.subrange(n as int, n as int) =~= Seq::<char>::empty());
        assert(wrapped(Seq::<char>::empty()) =~= Seq::<char>::empty());
        assert(out@ + Seq::<char>::empty() =~= out@);
    }
    out
}

/// Formatting in verbose mode never alters a value, and formatting a
/// value of at most 80 characters never inserts a line break in either
/// mode.
pub proof fn lemma_short_value_unchanged(s: Seq<char>)
    requires
        s.len() <= 80,
    ensures
        wrapped(s) == s,
{
}

/// Number of occurrences of `c` in `s`.
pub open spec fn count_char(s: Seq<char>, c: char) -> nat
    decreases s.len(),
{
    if s.len() == 0 {
        0
    } else {
        (if s[0] == c {
            1nat
        } else {
            0nat
        }) + count_char(s.drop_first(), c)
    }
}

proof fn lemma_count_char_concat(a: Seq<char>, b: Seq<char>, c: char)
    ensures
        count_char(a + b, c) == count_char(a, c) + count_char(b, c),
    decreases a.len(),
{
    if a.len() == 0 {
        assert(a + b =~= b);
    } else {
        assert((a + b)[0] == a[0]);
        assert((a + b).drop_first() =~= a.drop_first() + b);
        lemma_count_char_concat(a.drop_first(), b, c);
    }
}

proof fn lemma_count_char_absent(s: Seq<char>, c: char)
    requires
        forall|i: int| 0 <= i < s.len() ==> s[i] != c,
    ensures
        count_char(s, c) == 0,
    decreases s.len(),
{
    if s.len() > 0 {
        assert forall|i: int| 0 <= i < s.drop_first().len() implies s.drop_first()[i] != c by {
            assert(s.drop_first()[i] == s[i + 1]);
        }
        lemma_count_char_absent(s.drop_first(), c);
    }
}

/// How many line breaks the formatter inserts into breakless text of
/// `n` characters: one for each started chunk after the first.
pub open spec fn inserted_breaks(n: nat) -> int {
    if n == 0 {
        0
    } else {
        (n - 1) / 80
    }
}

/// The shape of a wrapped value that held no line break of its own:
/// the output holds the input's characters plus exactly one inserted
/// break per started chunk after the first — so text of length `n > 0`
/// shows as `(n - 1) / 80 + 1` lines — and a break stands exactly at
/// every 81st position, which makes every line at most 80 characters
/// long.
pub proof fn lemma_wrapped_line_structure(s: Seq<char>)
    requires
        forall|i: int| 0 <= i < s.len() ==> s[i] != '\n',
    ensures
        wrapped(s).len() == s.len() + inserted_breaks(s.len()),
        count_char(wrapped(s), '\n') == inserted_breaks(s.len()),
        forall|i: int|
            0 <= i < wrapped(s).len() ==> ((wrapped(s)[i] == '\n') <==> (i % 81 == 80)),
    decreases s.len(),
{
    if s.len() <= 80 {
        if s.len() > 0 {
            lemma_basic_div(s.len() - 1, 80);
        }
        lemma_count_char_absent(s, '\n');
        assert forall|i: int|
            0 <= i < wrapped(s).len() implies ((wrapped(s)[i] == '\n') <==> (i % 81 == 80)) by {
            lemma_small_mod(i as nat, 81nat);
        }
    } else {
        let a = s.subrange(0, 80);
        let nl = seq!['\n'];
        let rest = s.subrange(80, s.len() as int);
        let w = wrapped(s);
        assert(w == a + nl + wrapped(rest));
        assert forall|i: int| 0 <= i < rest.len() implies rest[i] != '\n' by {
            assert(rest[i] == s[i + 80]);
        }
        lemma_wrapped_line_structure(rest);
        // one more break than the tail: (n - 1) / 80 == (n - 81) / 80 + 1
        assert(inserted_breaks(s.len()) == 1 + inserted_breaks(rest.len())) by {
            lemma_div_plus_one(s.len() - 81, 80);
        }
        assert(count_char(nl, '\n') == 1) by {
            assert(nl.len() == 1);
            assert(nl[0] == '\n');
            assert(nl.drop_first() =~= Seq::<char>::empty());
            assert(count_char(Seq::<char>::empty(), '\n') == 0);
            assert(count_char(nl.drop_first(), '\n') == 0);
        }
        lemma_count_char_concat(a + nl, wrapped(rest), '\n');
        lemma_count_char_concat(a, nl, '\n');
        assert forall|i: int| 0 <= i < a.len() implies a[i] != '\n' by {
            assert(a[i] == s[i]);
        }
        lemma_count_char_absent(a, '\n');
        assert forall|i: int|
            0 <= i < w.len() implies ((w[i] == '\n') <==> (i % 81 == 80)) by {
            if i < 80 {
                assert(w[i] == s[i]);
                lemma_small_mod(i as nat, 81nat);
            } else if i == 80 {
                assert(w[i] == '\n');
                lemma_small_mod(80nat, 81nat);
            } else {
                assert(w[i] == wrapped(rest)[i - 81]);
                assert((wrapped(rest)[i - 81] == '\n') <==> ((i - 81) % 81 == 80));
                lemma_mod_sub_multiples_vanish(i, 81);
            }
        }
    }
}

/// No line of a wrapped breakless value exceeds 80 characters: every
/// window of 81 consecutive output positions holds an inserted break.
pub proof fn lemma_wrapped_window_has_break(s: Seq<char>, i: int)
    requires
        forall|j: int| 0 <= j < s.len() ==> s[j] != '\n',
        0 <= i,
        i + 81 <= wrapped(s).len(),
    ensures
        exists|k: int| i <= k < i + 81 && wrapped(s)[k] == '\n',
{
    lemma_wrapped_line_structure(s);
    lemma_mod_pos_bound(i, 81);
    lemma_fundamental_div_mod(i, 81);
    let k = i + 80 - (i % 81);
    assert(i <= k < i + 81);
    assert(k == 81 * (i / 81) + 80);
    assert(k % 81 == 80) by {
        lemma_mod_multiples_vanish(i / 81, 80, 81);
    }
    assert(wrapped(s)[k] == '\n');
}

} // verus!
