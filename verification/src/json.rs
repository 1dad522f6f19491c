//! A small JSON writer for the diagnostic document: string escaping,
//! objects whose values are strings, arrays of strings, and objects
//! whose values are arrays of strings.  The exact output text is
//! pinned down by spec functions so the renderer's contract can state
//! the whole document.

use vstd::prelude::*;
use vstd::string::*;
use crate::text::{lines_view, pairs_view, push_char};
use crate::isolation::{Section, sections_view};

verus! {

/// The lower-case hexadecimal digit for `n`.
pub open spec fn hex_char(n: u32) -> char {
    if n == 0 {
        '0'
    } else if n == 1 {
        '1'
    } else if n == 2 {
        '2'
    } else if n == 3 {
        '3'
    } else if n == 4 {
        '4'
    } else if n == 5 {
        '5'
    } else if n == 6 {
        '6'
    } else if n == 7 {
        '7'
    } else if n == 8 {
        '8'
    } else if n == 9 {
        '9'
    } else if n == 10 {
        'a'
    } else if n == 11 {
        'b'
    } else if n == 12 {
        'c'
    } else if n == 13 {
        'd'
    } else if n == 14 {
        'e'
    } else {
        'f'
    }
}

/// The JSON escape of one character inside a string literal.
pub open spec fn escape_char(c: char) -> Seq<char> {
    if c == '"' {
        seq!['\\', '"']
    } else if c == '\\' {
        seq!['\\', '\\']
    } else if c == '\n' {
        seq!['\\', 'n']
    } else if c == '\r' {
        seq!['\\', 'r']
    } else if c == '\t' {
        seq!['\\', 't']
    } else if (c as u32) < 32 {
        seq!['\\', 'u', '0', '0', hex_char((c as u32) / 16), hex_char((c as u32) % 16)]
    } else {
        seq![c]
    }
}

/// The body of a JSON string literal: every character escaped.
pub open spec fn escaped(s: Seq<char>) -> Seq<char>
    decreases s.len(),
{
    if s.len() == 0 {
        Seq::empty()
    } else {
        escape_char(s[0]) + escaped(s.drop_first())
    }
}

/// A JSON string literal holding the text `s`.
pub open spec fn json_str(s: Seq<char>) -> Seq<char> {
    seq!['"'] + escaped(s) + seq!['"']
}

pub proof fn lemma_escaped_push(s: Seq<char>, c: char)
    ensures
        escaped(s.push(c)) == escaped(s) + escape_char(c),
    decreases s.len(),
{
    let t = s.push(c);
    if s.len() == 0 {
        assert(t[0] == c);
        assert(t.drop_first() =~= Seq::<char>::empty());
        assert(escaped(t) == escape_char(c) + escaped(Seq::<char>::empty()));
        assert(escape_char(c) + Seq::<char>::empty() =~= escape_char(c));
        assert(escaped(s) + escape_char(c) =~= escape_char(c));
    } else {
        assert(t.len() == s.len() + 1);
        assert(t[0] == s[0]);
        assert(t.drop_first() =~= s.drop_first().push(c));
        lemma_escaped_push(s.drop_first(), c);
        assert(escaped(t) == escape_char(s[0]) + escaped(s.drop_first().push(c)));
        assert(escaped(t) == escape_char(s[0]) + (escaped(s.drop_first()) + escape_char(c)));
        assert(escape_char(s[0]) + (escaped(s.drop_first()) + escape_char(c)) =~= (escape_char(
            s[0],
        ) + escaped(s.drop_first())) + escape_char(c));
        assert(escaped(s) == escape_char(s[0]) + escaped(s.drop_first()));
    }
}

/// The digit for `n`, `n < 16`.
fn hex_char_exec(n: u32) -> (c: char)
    requires
        n < 16,
    ensures
        c == hex_char(n),
{
    if n == 0 {
        '0'
    } else if n == 1 {
        '1'
    } else if n == 2 {
        '2'
    } else if n == 3 {
        '3'
    } else if n == 4 {
        '4'
    } else if n == 5 {
        '5'
    } else if n == 6 {
        '6'
    } else if n == 7 {
        '7'
    } else if n == 8 {
        '8'
    } else if n == 9 {
        '9'
    } else if n == 10 {
        'a'
    } else if n == 11 {
        'b'
    } else if n == 12 {
        'c'
    } else if n == 13 {
        'd'
    } else if n == 14 {
        'e'
    } else {
        'f'
    }
}

/// Appends the JSON escape of `c` to `out`.
fn push_escaped_char(out: &mut String, c: char)
    ensures
        final(out)@ == old(out)@ + escape_char(c),
{
    if c == '"' {
        push_char(out, '\\');
        push_char(out, '"');
        proof {
            assert(out@ =~= old(out)@ + escape_char(c));
        }
    } else if c == '\\' {
        push_char(out, '\\');
        push_char(out, '\\');
        proof {
            assert(out@ =~= old(out)@ + escape_char(c));
        }
    } else if c == '\n' {
        push_char(out, '\\');
        push_char(out, 'n');
        proof {
            assert(out@ =~= old(out)@ + escape_char(c));
        }
    } else if c == '\r' {
        push_char(out, '\\');
        push_char(out, 'r');
        proof {
            assert(out@ =~= old(out)@ + escape_char(c));
        }
    } else if c == '\t' {
        push_char(out, '\\');
        push_char(out, 't');
        proof {
            assert(out@ =~= old(out)@ + escape_char(c));
        }
    } else {
        let n = c as u32;
        if n < 32 {
            push_char(out, '\\');
            push_char(out, 'u');
            push_char(out, '0');
            push_char(out, '0');
            let hi = hex_char_exec(n / 16);
            let lo = hex_char_exec(n % 16);
            push_char(out, hi);
            push_char(out, lo);
            proof {
                assert(out@ =~= old(out)@ + escape_char(c));
            }
        } else {
            push_char(out, c);
            proof {
                assert(out@ =~= old(out)@ + escape_char(c));
            }
        }
    }
}

/// Appends the JSON string literal for `s` to `out`.
fn push_json_str(out: &mut String, s: &str)
    ensures
        final(out)@ == old(out)@ + json_str(s@),
{
    let ghost base = out@;
    push_char(out, '"');
    let n: usize = s.unicode_len();
    let mut i: usize = 0;
    proof {
        assert(s@.subrange(0, 0) =~= Seq::<char>::empty());
        assert(out@ =~= base + seq!['"'] + escaped(s@.subrange(0, 0)));
    }
    while i < n
        invariant
            n == s@.len(),
            i <= n,
            out@ == base + seq!['"'] + escaped(s@.subrange(0, i as int)),
        decreases n - i,
    {
        let c = s.get_char(i);
        push_escaped_char(out, c);
        proof {
            assert(s@.subrange(0, i + 1) =~= s@.subrange(0, i as int).push(c));
            lemma_escaped_push(s@.subrange(0, i as int), c);
            assert(out@ =~= base + seq!['"'] + escaped(s@.subrange(0, i + 1)));
        }
        i = i + 1;
    }
    push_char(out, '"');
    proof {
        assert(s@.subrange(0, n as int) =~= s@);
        assert(out@ =~= base + json_str(s@));
    }
}

/// A JSON string literal for `s` on its own.
pub fn quoted(s: &str) -> (r: String)
    ensures
        r@ == json_str(s@),
{
    let mut out = String::new();
    push_json_str(&mut out, s);
    proof {
        assert(Seq::<char>::empty() + json_str(s@) =~= json_str(s@));
    }
    out
}

/// One `"key":"value"` member of an object of strings.
pub open spec fn str_entry(p: (Seq<char>, Seq<char>)) -> Seq<char> {
    json_str(p.0) + seq![':'] + json_str(p.1)
}

/// The comma-separated members of an object of strings.
pub open spec fn str_obj_body(pairs: Seq<(Seq<char>, Seq<char>)>) -> Seq<char>
    decreases pairs.len(),
{
    if pairs.len() == 0 {
        Seq::empty()
    } else if pairs.len() == 1 {
        str_entry(pairs[0])
    } else {
        str_entry(pairs[0]) + seq![','] + str_obj_body(pairs.drop_first())
    }
}

/// A JSON object whose values are strings, members in `pairs` order.
pub open spec fn str_obj(pairs: Seq<(Seq<char>, Seq<char>)>) -> Seq<char> {
    seq!['{'] + str_obj_body(pairs) + seq!['}']
}

pub proof fn lemma_str_obj_body_push(pairs: Seq<(Seq<char>, Seq<char>)>, p: (Seq<char>, Seq<char>))
    ensures
        pairs.len() == 0 ==> str_obj_body(pairs.push(p)) == str_entry(p),
        pairs.len() > 0 ==> str_obj_body(pairs.push(p)) == str_obj_body(pairs) + seq![',']
            + str_entry(p),
    decreases pairs.len(),
{
    let t = pairs.push(p);
    if pairs.len() == 0 {
        assert(t.len() == 1 && t[0] == p);
    } else {
        assert(t[0] == pairs[0]);
        assert(t.drop_first() =~= pairs.drop_first().push(p));
        lemma_str_obj_body_push(pairs.drop_first(), p);
        if pairs.len() == 1 {
            assert(str_obj_body(t) == str_entry(pairs[0]) + seq![','] + str_entry(p));
            assert(str_entry(pairs[0]) + seq![','] + str_entry(p) =~= str_obj_body(pairs) + seq![
                ','
            ] + str_entry(p));
        } else {
            assert(str_obj_body(t) == str_entry(pairs[0]) + seq![','] + (str_obj_body(
                pairs.drop_first(),
            ) + seq![','] + str_entry(p)));
            assert(str_entry(pairs[0]) + seq![','] + (str_obj_body(pairs.drop_first()) + seq![',']
                + str_entry(p)) =~= (str_entry(pairs[0]) + seq![','] + str_obj_body(
                pairs.drop_first(),
            )) + seq![','] + str_entry(p));
        }
    }
}

/// Renders an object of string keys and string values.
pub fn str_pairs_json(v: &Vec<(String, String)>) -> (r: String)
    ensures
        r@ == str_obj(pairs_view(v@)),
{
    let mut out = String::new();
    push_char(&mut out, '{');
    let n = v.len();
    let mut i: usize = 0;
    proof {
        assert(pairs_view(v@).subrange(0, 0) =~= Seq::<(Seq<char>, Seq<char>)>::empty());
        assert(out@ =~= seq!['{'] + str_obj_body(pairs_view(v@).subrange(0, 0)));
    }
    while i < n
        invariant
            n == v@.len(),
            i <= n,
            out@ == seq!['{'] + str_obj_body(pairs_view(v@).subrange(0, i as int)),
        decreases n - i,
    {
        if i > 0 {
            push_char(&mut out, ',');
        }
        push_json_str(&mut out, v[i].0.as_str());
        push_char(&mut out, ':');
        push_json_str(&mut out, v[i].1.as_str());
        proof {
            let pv = pairs_view(v@);
            assert(pv.subrange(0, i + 1) =~= pv.subrange(0, i as int).push(pv[i as int]));
            lemma_str_obj_body_push(pv.subrange(0, i as int), pv[i as int]);
            assert(str_entry(pv[i as int]) == json_str(v@[i as int].0@) + seq![':'] + json_str(
                v@[i as int].1@,
            ));
            assert(out@ =~= seq!['{'] + str_obj_body(pv.subrange(0, i + 1)));
        }
        i = i + 1;
    }
    push_char(&mut out, '}');
    proof {
        assert(pairs_view(v@).subrange(0, n as int) =~= pairs_view(v@));
        assert(out@ =~= str_obj(pairs_view(v@)));
    }
    out
}

/// The comma-separated elements of an array of strings.
pub open spec fn arr_body(items: Seq<Seq<char>>) -> Seq<char>
    decreases items.len(),
{
    if items.len() == 0 {
        Seq::empty()
    } else if items.len() == 1 {
        json_str(items[0])
    } else {
        json_str(items[0]) + seq![','] + arr_body(items.drop_first())
    }
}

/// A JSON array of string literals, in `items` order.
pub open spec fn json_arr(items: Seq<Seq<char>>) -> Seq<char> {
    seq!['['] + arr_body(items) + seq![']']
}

pub proof fn lemma_arr_body_push(items: Seq<Seq<char>>, x: Seq<char>)
    ensures
        items.len() == 0 ==> arr_body(items.push(x)) == json_str(x),
        items.len() > 0 ==> arr_body(items.push(x)) == arr_body(items) + seq![','] + json_str(x),
    decreases items.len(),
{
    let t = items.push(x);
    if items.len() == 0 {
        assert(t.len() == 1 && t[0] == x);
    } else {
        assert(t[0] == items[0]);
        assert(t.drop_first() =~= items.drop_first().push(x));
        lemma_arr_body_push(items.drop_first(), x);
        if items.len() == 1 {
            assert(arr_body(t) == json_str(items[0]) + seq![','] + json_str(x));
            assert(json_str(items[0]) + seq![','] + json_str(x) =~= arr_body(items) + seq![',']
                + json_str(x));
        } else {
            assert(arr_body(t) == json_str(items[0]) + seq![','] + (arr_body(items.drop_first())
                + seq![','] + json_str(x)));
            assert(json_str(items[0]) + seq![','] + (arr_body(items.drop_first()) + seq![',']
                + json_str(x)) =~= (json_str(items[0]) + seq![','] + arr_body(items.drop_first()))
                + seq![','] + json_str(x));
        }
    }
}

/// Renders an array of strings.
pub fn strings_json(v: &Vec<String>) -> (r: String)
    ensures
        r@ == json_arr(lines_view(v@)),
{
    let mut out = String::new();
    push_char(&mut out, '[');
    let n = v.len();
    let mut i: usize = 0;
    proof {
        assert(lines_view(v@).subrange(0, 0) =~= Seq::<Seq<char>>::empty());
        assert(out@ =~= seq!['['] + arr_body(lines_view(v@).subrange(0, 0)));
    }
    while i < n
        invariant
            n == v@.len(),
            i <= n,
            out@ == seq!['['] + arr_body(lines_view(v@).subrange(0, i as int)),
        decreases n - i,
    {
        if i > 0 {
            push_char(&mut out, ',');
        }
        push_json_str(&mut out, v[i].as_str());
        proof {
            let lv = lines_view(v@);
            assert(lv.subrange(0, i + 1) =~= lv.subrange(0, i as int).push(lv[i as int]));
            lemma_arr_body_push(lv.subrange(0, i as int), lv[i as int]);
            assert(out@ =~= seq!['['] + arr_body(lv.subrange(0, i + 1)));
        }
        i = i + 1;
    }
    push_char(&mut out, ']');
    proof {
        assert(lines_view(v@).subrange(0, n as int) =~= lines_view(v@));
        assert(out@ =~= json_arr(lines_view(v@)));
    }
    out
}

/// One `"label":["finding",...]` member of the isolation object.
pub open spec fn sec_entry(s: (Seq<char>, Seq<Seq<char>>)) -> Seq<char> {
    json_str(s.0) + seq![':'] + json_arr(s.1)
}

/// The comma-separated members of the isolation object.
pub open spec fn sec_obj_body(secs: Seq<(Seq<char>, Seq<Seq<char>>)>) -> Seq<char>
    decreases secs.len(),
{
    if secs.len() == 0 {
        Seq::empty()
    } else if secs.len() == 1 {
        sec_entry(secs[0])
    } else {
        sec_entry(secs[0]) + seq![','] + sec_obj_body(secs.drop_first())
    }
}

/// A JSON object mapping each priority label to its finding array.
pub open spec fn sec_obj(secs: Seq<(Seq<char>, Seq<Seq<char>>)>) -> Seq<char> {
    seq!['{'] + sec_obj_body(secs) + seq!['}']
}

pub proof fn lemma_sec_obj_body_push(
    secs: Seq<(Seq<char>, Seq<Seq<char>>)>,
    p: (Seq<char>, Seq<Seq<char>>),
)
    ensures
        secs.len() == 0 ==> sec_obj_body(secs.push(p)) == sec_entry(p),
        secs.len() > 0 ==> sec_obj_body(secs.push(p)) == sec_obj_body(secs) + seq![','] + sec_entry(
            p,
        ),
    decreases secs.len(),
{
    let t = secs.push(p);
    if secs.len() == 0 {
        assert(t.len() == 1 && t[0] == p);
    } else {
        assert(t[0] == secs[0]);
        assert(t.drop_first() =~= secs.drop_first().push(p));
        lemma_sec_obj_body_push(secs.drop_first(), p);
        if secs.len() == 1 {
            assert(sec_obj_body(t) == sec_entry(secs[0]) + seq![','] + sec_entry(p));
            assert(sec_entry(secs[0]) + seq![','] + sec_entry(p) =~= sec_obj_body(secs) + seq![',']
                + sec_entry(p));
        } else {
            assert(sec_obj_body(t) == sec_entry(secs[0]) + seq![','] + (sec_obj_body(
                secs.drop_first(),
            ) + seq![','] + sec_entry(p)));
            assert(sec_entry(secs[0]) + seq![','] + (sec_obj_body(secs.drop_first()) + seq![',']
                + sec_entry(p)) =~= (sec_entry(secs[0]) + seq![','] + sec_obj_body(
                secs.drop_first(),
            )) + seq![','] + sec_entry(p));
        }
    }
}

/// Renders the isolation posture as a JSON object of finding arrays.
pub fn sections_json(v: &Vec<Section>) -> (r: String)
    ensures
        r@ == sec_obj(sections_view(v@)),
{
    let mut out = String::new();
    push_char(&mut out, '{');
    let n = v.len();
    let mut i: usize = 0;
    proof {
        assert(sections_view(v@).subrange(0, 0) =~= Seq::<(Seq<char>, Seq<Seq<char>>)>::empty());
        assert(out@ =~= seq!['{'] + sec_obj_body(sections_view(v@).subrange(0, 0)));
    }
    while i < n
        invariant
            n == v@.len(),
            i <= n,
            out@ == seq!['{'] + sec_obj_body(sections_view(v@).subrange(0, i as int)),
        decreases n - i,
    {
        if i > 0 {
            push_char(&mut out, ',');
        }
        push_json_str(&mut out, v[i].name.as_str());
        push_char(&mut out, ':');
        let arr = strings_json(&v[i].findings);
        out.append(arr.as_str());
        proof {
            let sv = sections_view(v@);
            assert(sv.subrange(0, i + 1) =~= sv.subrange(0, i as int).push(sv[i as int]));
            lemma_sec_obj_body_push(sv.subrange(0, i as int), sv[i as int]);
            assert(sec_entry(sv[i as int]) == json_str(v@[i as int].name@) + seq![':'] + json_arr(
                lines_view(v@[i as int].findings@),
            ));
            assert(out@ =~= seq!['{'] + sec_obj_body(sv.subrange(0, i + 1)));
        }
        i = i + 1;
    }
    push_char(&mut out, '}');
    proof {
        assert(sections_view(v@).subrange(0, n as int) =~= sections_view(v@));
        assert(out@ =~= sec_obj(sections_view(v@)));
    }
    out
}

} // verus!
