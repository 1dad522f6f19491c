//! Isolation report parser: turns the free-text, priority-grouped
//! report of the external isolation-check tool into an ordered mapping
//! from priority label to finding strings.
//!
//! A kept line is either a section header (a non-indented line holding
//! the word `Priority`) or a finding (an indented line, attached to the
//! most recent header); every other line is discarded.  A finding seen
//! before any header has nothing to attach to and is silently dropped.

use vstd::prelude::*;
use vstd::string::*;
use crate::text::{
    has_substr,
    lines_view,
    split_lines,
    str_has_substr,
    str_eq,
    str_split_lines,
    str_trim,
    trimmed,
};

verus! {

/// One priority section of the report: a label and the findings listed
/// under it, in input order.
pub struct Section {
    pub name: String,
    pub findings: Vec<String>,
}

/// The parsed report of the isolation-check tool, grouped by priority
/// label in order of first appearance.
pub struct IsolationPosture {
    pub data: Vec<Section>,
}

/// The mathematical content of one section: its label and findings.
pub open spec fn section_view(s: Section) -> (Seq<char>, Seq<Seq<char>>) {
    (s.name@, lines_view(s.findings@))
}

/// The mathematical content of a section list.
pub open spec fn sections_view(v: Seq<Section>) -> Seq<(Seq<char>, Seq<Seq<char>>)> {
    Seq::new(v.len(), |i: int| section_view(v[i]))
}

/// A finding line: indented by at least one space.
pub open spec fn is_finding(l: Seq<char>) -> bool {
    l.len() > 0 && l[0] == ' '
}

/// A line the parser keeps: a finding, or a header naming a priority.
pub open spec fn keeps_line(l: Seq<char>) -> bool {
    is_finding(l) || has_substr(l, "Priority"@)
}

/// Index of the first section labelled `k`, or the length if absent.
pub open spec fn find_sec(secs: Seq<(Seq<char>, Seq<Seq<char>>)>, k: Seq<char>) -> int
    decreases secs.len(),
{
    if secs.len() == 0 {
        0
    } else if secs[0].0 == k {
        0
    } else {
        1 + find_sec(secs.drop_first(), k)
    }
}

pub proof fn lemma_find_sec(secs: Seq<(Seq<char>, Seq<Seq<char>>)>, k: Seq<char>)
    ensures
        0 <= find_sec(secs, k) <= secs.len(),
        forall|j: int| 0 <= j < find_sec(secs, k) ==> (#[trigger] secs[j]).0 != k,
        find_sec(secs, k) < secs.len() ==> secs[find_sec(secs, k)].0 == k,
    decreases secs.len(),
{
    if secs.len() > 0 && secs[0].0 != k {
        lemma_find_sec(secs.drop_first(), k);
        assert forall|j: int| 0 <= j < find_sec(secs, k) implies (#[trigger] secs[j]).0 != k by {
            if j > 0 {
                assert(secs.drop_first()[j - 1].0 != k);
            }
        }
    }
}

/// Appends finding `f` to the section labelled `k`, creating that
/// section at the end if it does not exist yet.
pub open spec fn add_finding(
    secs: Seq<(Seq<char>, Seq<Seq<char>>)>,
    k: Seq<char>,
    f: Seq<char>,
) -> Seq<(Seq<char>, Seq<Seq<char>>)> {
    let i = find_sec(secs, k);
    if 0 <= i < secs.len() {
        secs.update(i, (k, secs[i].1.push(f)))
    } else {
        secs.push((k, seq![f]))
    }
}

/// One parser step: `cur` is the label of the current section, `None`
/// until a header has been seen.
pub open spec fn parse_step(
    secs: Seq<(Seq<char>, Seq<Seq<char>>)>,
    cur: Option<Seq<char>>,
    l: Seq<char>,
) -> (Seq<(Seq<char>, Seq<Seq<char>>)>, Option<Seq<char>>) {
    if !keeps_line(l) {
        (secs, cur)
    } else if is_finding(l) {
        match cur {
            None => (secs, cur),
            Some(k) => (add_finding(secs, k, trimmed(l)), cur),
        }
    } else {
        (secs, Some(trimmed(l)))
    }
}

/// Runs the parser over `lines` from state `(secs, cur)`.
pub open spec fn parse_from(
    secs: Seq<(Seq<char>, Seq<Seq<char>>)>,
    cur: Option<Seq<char>>,
    lines: Seq<Seq<char>>,
) -> Seq<(Seq<char>, Seq<Seq<char>>)>
    decreases lines.len(),
{
    if lines.len() == 0 {
        secs
    } else {
        let (secs2, cur2) = parse_step(secs, cur, lines[0]);
        parse_from(secs2, cur2, lines.drop_first())
    }
}

/// The parse of a whole report text.
pub open spec fn parse_model(text: Seq<char>) -> Seq<(Seq<char>, Seq<Seq<char>>)> {
    parse_from(Seq::empty(), None, split_lines(text))
}

/// The label of an optional current section.
pub open spec fn cur_view(o: Option<String>) -> Option<Seq<char>> {
    match o {
        Some(s) => Some(s@),
        None => None,
    }
}

/// Appends `f` to the section labelled `k`, creating it if absent.
fn push_finding(secs: &mut Vec<Section>, k: &String, f: String)
    ensures
        sections_view(final(secs)@) == add_finding(sections_view(old(secs)@), k@, f@),
{
    proof {
        lemma_find_sec(sections_view(secs@), k@);
    }
    let n = secs.len();
    let mut idx: usize = 0;
    while idx < n
        invariant
            n == secs@.len(),
            idx <= n,
            secs@ == old(secs)@,
            forall|j: int| 0 <= j < idx ==> (#[trigger] sections_view(secs@)[j]).0 != k@,
        decreases n - idx,
    {
        if str_eq(secs[idx].name.as_str(), k.as_str()) {
            let ghost v0 = secs@;
            let ghost before = sections_view(secs@);
            proof {
                assert(before[idx as int].0 == k@);
                assert(find_sec(before, k@) == idx) by {
                    lemma_find_sec(before, k@);
                    if find_sec(before, k@) < idx {
                        assert(before[find_sec(before, k@)].0 == k@);
                    } else if find_sec(before, k@) > idx {
                        assert(before[idx as int].0 != k@);
                    }
                }
            }
            let mut sec = secs.remove(idx);
            sec.findings.push(f);
            let ghost gsec = sec;
            secs.insert(idx, sec);
            proof {
                let vafter = secs@;
                assert(gsec.findings@ == v0[idx as int].findings@.push(f));
                assert(lines_view(gsec.findings@) =~= before[idx as int].1.push(f@));
                assert(vafter.len() == v0.len());
                assert(vafter[idx as int] == gsec);
                assert forall|j: int| 0 <= j < vafter.len() && j != idx implies vafter[j] == v0[j]
                by {
                    let r = v0.remove(idx as int);
                    if j < idx {
                        assert(vafter[j] == r[j]);
                        assert(r[j] == v0[j]);
                    } else {
                        assert(vafter[j] == r[j - 1]);
                        assert(r[j - 1] == v0[j]);
                    }
                }
                assert(sections_view(vafter) =~= add_finding(before, k@, f@)) by {
                    assert forall|j: int| 0 <= j < vafter.len() implies sections_view(vafter)[j]
                        == add_finding(before, k@, f@)[j] by {
                        if j == idx {
                            assert(sections_view(vafter)[j] == section_view(gsec));
                        } else {
                            assert(sections_view(vafter)[j] == section_view(v0[j]));
                            assert(add_finding(before, k@, f@)[j] == before[j]);
                        }
                    }
                }
            }
            return ;
        }
        idx = idx + 1;
    }
    proof {
        let sv = sections_view(secs@);
        assert(find_sec(sv, k@) == sv.len()) by {
            lemma_find_sec(sv, k@);
            if find_sec(sv, k@) < sv.len() {
                assert(sv[find_sec(sv, k@)].0 == k@);
            }
        }
    }
    let ghost before = sections_view(secs@);
    let name = k.clone();
    let mut findings: Vec<String> = Vec::new();
    findings.push(f);
    proof {
        assert(lines_view(findings@) =~= seq![f@]);
    }
    secs.push(Section { name, findings });
    proof {
        assert(sections_view(secs@) =~= before.push((k@, seq![f@])));
    }
}

/// Parses the raw text of the isolation-check tool's report into an
/// ordered list of priority sections.
pub fn parse_isolation_output(output: &str) -> (r: Vec<Section>)
    ensures
        sections_view(r@) == parse_model(output@),
{
    let lines = str_split_lines(output);
    let n = lines.len();
    let mut secs: Vec<Section> = Vec::new();
    let mut cur: Option<String> = None;
    let mut i: usize = 0;
    proof {
        assert(sections_view(secs@) =~= Seq::<(Seq<char>, Seq<Seq<char>>)>::empty());
        assert(split_lines(output@).skip(0) =~= split_lines(output@));
    }
    while i < n
        invariant
            n == lines@.len(),
            i <= n,
            lines_view(lines@) == split_lines(output@),
            parse_model(output@) == parse_from(
                sections_view(secs@),
                cur_view(cur),
                split_lines(output@).skip(i as int),
            ),
        decreases n - i,
    {
        let ghost rest = split_lines(output@).skip(i as int);
        let ghost st_secs = sections_view(secs@);
        let ghost st_cur = cur_view(cur);
        let line: &String = &lines[i];
        proof {
            assert(rest[0] == lines_view(lines@)[i as int]);
            assert(rest.drop_first() =~= split_lines(output@).skip(i + 1));
        }
        let indented = line.as_str().unicode_len() > 0 && line.as_str().get_char(0) == ' ';
        let header = str_has_substr(line.as_str(), "Priority");
        if indented {
            match &cur {
                None => {
                    proof {
                        assert(parse_step(st_secs, st_cur, rest[0]) == (st_secs, st_cur));
                    }
                },
                Some(k) => {
                    let f = str_trim(line.as_str());
                    push_finding(&mut secs, k, f);
                    proof {
                        assert(parse_step(st_secs, st_cur, rest[0]) == (
                            add_finding(st_secs, k@, trimmed(rest[0])),
                            st_cur,
                        ));
                    }
                },
            }
        } else if header {
            let t = str_trim(line.as_str());
            cur = Some(t);
            proof {
                assert(parse_step(st_secs, st_cur, rest[0]) == (st_secs, Some(trimmed(rest[0]))));
            }
        } else {
            proof {
                assert(!keeps_line(rest[0]));
                assert(parse_step(st_secs, st_cur, rest[0]) == (st_secs, st_cur));
            }
        }
        i = i + 1;
    }
    proof {
        assert(split_lines(output@).skip(n as int) =~= Seq::<Seq<char>>::empty());
    }
    secs
}

/// The findings of the first section labelled `name`, if any.
pub fn find_section<'a>(secs: &'a Vec<Section>, name: &str) -> (r: Option<&'a Vec<String>>)
    ensures
        match r {
            Some(v) => {
                let i = find_sec(sections_view(secs@), name@);
                0 <= i < secs@.len() && lines_view(v@) == sections_view(secs@)[i].1
            },
            None => find_sec(sections_view(secs@), name@) == secs@.len(),
        },
{
    proof {
        lemma_find_sec(sections_view(secs@), name@);
    }
    let n = secs.len();
    let mut idx: usize = 0;
    while idx < n
        invariant
            n == secs@.len(),
            idx <= n,
            forall|j: int| 0 <= j < idx ==> (#[trigger] sections_view(secs@)[j]).0 != name@,
        decreases n - idx,
    {
        if str_eq(secs[idx].name.as_str(), name) {
            proof {
                let sv = sections_view(secs@);
                assert(sv[idx as int].0 == name@);
                assert(find_sec(sv, name@) == idx) by {
                    lemma_find_sec(sv, name@);
                    if find_sec(sv, name@) < idx {
                        assert(sv[find_sec(sv, name@)].0 == name@);
                    } else if find_sec(sv, name@) > idx {
                        assert(sv[idx as int].0 != name@);
                    }
                }
            }
            return Some(&secs[idx].findings);
        }
        idx = idx + 1;
    }
    proof {
        let sv = sections_view(secs@);
        if find_sec(sv, name@) < sv.len() {
            assert(sv[find_sec(sv, name@)].0 == name@);
        }
    }
    None
}

/// Structures the raw text that one invocation of the isolation-check
/// tool wrote; the caller that ran the tool hands the text in and
/// receives the grouped findings.
pub fn posture_from_output(output: &str) -> (r: IsolationPosture)
    ensures
        sections_view(r.data@) == parse_model(output@),
{
    IsolationPosture { data: parse_isolation_output(output) }
}

/// A fixed report in the shape the isolation-check tool produces, for
/// exercising the parser without invoking the tool.
pub fn mock_isolated() -> (r: String)
    ensures
        r@ == "High Priority\n a\n b\n c\nLow Priority\n d\n e\n f\n"@,
{
    let output = "High Priority\n a\n b\n c\nLow Priority\n d\n e\n f\n";
    output.to_owned()
}

} // verus!
