//! Status glyph normalizer: maps a fixed closed set of two-character
//! pictographic status markers to ASCII bracketed tags, so that the
//! machine-readable rendering stays plain ASCII.  Anything outside the
//! recognized set passes through unchanged.

use vstd::prelude::*;
use vstd::string::*;
use crate::text::push_char;

verus! {

/// The ASCII tag that replaces a recognized status glyph, keyed by the
/// glyph's second character (every glyph starts with `'\u{6e38}'`);
/// `None` when the pair is not a recognized glyph.  The tags `[Low]`
/// and `[LOW]` belong to two distinct glyphs and stay distinct.
pub open spec fn glyph_tag(c: char) -> Option<Seq<char>> {
    if c == '\u{b320}' {
        Some(seq!['[', 'H', 'I', 'G', 'H', ']'])
    } else if c == '\u{b573}' {
        Some(seq!['[', 'M', 'E', 'D', 'I', 'U', 'M', ']'])
    } else if c == '\u{bc42}' {
        Some(seq!['[', 'L', 'o', 'w', ']'])
    } else if c == '\u{b32e}' {
        Some(seq!['[', 'F', 'A', 'I', 'L', 'E', 'D', ']'])
    } else if c == '\u{b9ac}' {
        Some(seq!['[', 'L', 'O', 'W', ']'])
    } else if c == '\u{b9ad}' {
        Some(seq!['[', 'P', 'A', 'S', 'S', 'E', 'D', ']'])
    } else {
        None
    }
}

/// `s` with every occurrence of a recognized glyph replaced by its
/// ASCII tag, scanning left to right without overlap.
pub open spec fn replace_glyphs(s: Seq<char>) -> Seq<char>
    decreases s.len(),
{
    if s.len() == 0 {
        s
    } else if s.len() >= 2 && s[0] == '\u{6e38}' && glyph_tag(s[1]) is Some {
        glyph_tag(s[1]).unwrap() + replace_glyphs(s.skip(2))
    } else {
        seq![s[0]] + replace_glyphs(s.skip(1))
    }
}

/// The tag text for the glyph whose second character is `c`.
fn tag_for(c: char) -> (r: Option<&'static str>)
    ensures
        match r {
            Some(t) => glyph_tag(c) == Some(t@),
            None => glyph_tag(c) is None,
        },
{
    if c == '\u{b320}' {
        proof {
            reveal_strlit("[HIGH]");
            assert("[HIGH]"@ =~= seq!['[', 'H', 'I', 'G', 'H', ']']);
        }
        Some("[HIGH]")
    } else if c == '\u{b573}' {
        proof {
            reveal_strlit("[MEDIUM]");
            assert("[MEDIUM]"@ =~= seq!['[', 'M', 'E', 'D', 'I', 'U', 'M', ']']);
        }
        Some("[MEDIUM]")
    } else if c == '\u{bc42}' {
        proof {
            reveal_strlit("[Low]");
            assert("[Low]"@ =~= seq!['[', 'L', 'o', 'w', ']']);
        }
        Some("[Low]")
    } else if c == '\u{b32e}' {
        proof {
            reveal_strlit("[FAILED]");
            assert("[FAILED]"@ =~= seq!['[', 'F', 'A', 'I', 'L', 'E', 'D', ']']);
        }
        Some("[FAILED]")
    } else if c == '\u{b9ac}' {
        proof {
            reveal_strlit("[LOW]");
            assert("[LOW]"@ =~= seq!['[', 'L', 'O', 'W', ']']);
        }
        Some("[LOW]")
    } else if c == '\u{b9ad}' {
        proof {
            reveal_strlit("[PASSED]");
            assert("[PASSED]"@ =~= seq!['[', 'P', 'A', 'S', 'S', 'E', 'D', ']']);
        }
        Some("[PASSED]")
    } else {
        None
    }
}

/// Normalizes every recognized status glyph in `text` to its ASCII
/// bracketed tag; all other characters pass through unchanged.
pub fn replace_emojis(text: &str) -> (r: String)
    ensures
        r@ == replace_glyphs(text@),
{
    let n: usize = text.unicode_len();
    let mut out: String = String::new();
    let mut i: usize = 0;
    proof {
        assert(text@.skip(0) =~= text@);
        assert(out@ + replace_glyphs(text@) =~= replace_glyphs(text@));
    }
    while i < n
        invariant
            n == text@.len(),
            i <= n,
            replace_glyphs(text@) == out@ + replace_glyphs(text@.skip(i as int)),
        decreases n - i,
    {
        let ghost rest = text@.skip(i as int);
        let c = text.get_char(i);
        proof {
            assert(rest[0] == text@[i as int]);
        }
        if c == '\u{6e38}' && i + 1 < n {
            let c2 = text.get_char(i + 1);
            proof {
                assert(rest[1] == text@[i + 1]);
            }
            match tag_for(c2) {
                Some(t) => {
                    out.append(t);
                    proof {
                        assert(rest.skip(2) =~= text@.skip(i + 2));
                        assert(replace_glyphs(rest) == t@ + replace_glyphs(text@.skip(i + 2)));
                        assert(out@ + replace_glyphs(text@.skip(i + 2)) =~= replace_glyphs(text@));
                    }
                    i = i + 2;
                },
                None => {
                    push_char(&mut out, c);
                    proof {
                        assert(rest.skip(1) =~= text@.skip(i + 1));
                        assert(replace_glyphs(rest) == seq![rest[0]] + replace_glyphs(
                            text@.skip(i + 1),
                        ));
                        assert(out@ + replace_glyphs(text@.skip(i + 1)) =~= replace_glyphs(text@));
                    }
                    i = i + 1;
                },
            }
        } else {
            push_char(&mut out, c);
            proof {
                assert(rest.skip(1) =~= text@.skip(i + 1));
                if rest.len() >= 2 && rest[0] == '\u{6e38}' && glyph_tag(rest[1]) is Some {
                    assert(i + 1 < n);
                    assert(false);
                }
                assert(replace_glyphs(rest) == seq![rest[0]] + replace_glyphs(text@.skip(i + 1)));
                assert(out@ + replace_glyphs(text@.skip(i + 1)) =~= replace_glyphs(text@));
            }
            i = i + 1;
        }
    }
    proof {
        assert(text@.skip(n as int) =~= Seq::<char>::empty());
        assert(out@ + Seq::<char>::empty() =~= out@);
    }
    out
}

} // verus!
