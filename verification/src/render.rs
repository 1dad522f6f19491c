//! Snapshot assembler and renderer: builds the ordered diagnostic
//! document — headers, environment, remote IP, public IPs, isolation
//! posture, system info — and renders it as one JSON object or as an
//! HTML page, in that fixed section order regardless of any map
//! iteration order, so output is reproducible.

use vstd::prelude::*;
use vstd::string::*;
use crate::format::{value_limiter, wrapped};
use crate::glyphs::{replace_emojis, replace_glyphs};
use crate::isolation::{IsolationPosture, Section, sections_view};
use crate::json::{json_str, quoted, sec_obj, sections_json, str_obj, str_pairs_json};
use crate::text::pairs_view;

verus! {

/// The complete diagnostic document for one request, already reduced
/// to plain values; `system_json` is the metrics provider's snapshot
/// as serialized JSON text.
pub struct DiagnosticSnapshot {
    pub headers: Vec<(String, String)>,
    pub environment: Vec<(String, String)>,
    pub remote_ip: String,
    pub ipv4: String,
    pub ipv6: String,
    pub isolation: Vec<Section>,
    pub system_json: String,
}

/// A key with its ordering prefix removed: leading ASCII digits and
/// underscores are dropped.  The prefix convention (`1_headers`,
/// `2_environment`, ...) only forces a rendering order and never
/// reaches the output.
pub open spec fn is_order_char(c: char) -> bool {
    ('0' <= c && c <= '9') || c == '_'
}

/// `s` without its leading ordering-prefix characters.
pub open spec fn strip_order_prefix(s: Seq<char>) -> Seq<char>
    decreases s.len(),
{
    if s.len() > 0 && is_order_char(s[0]) {
        strip_order_prefix(s.drop_first())
    } else {
        s
    }
}

proof fn lemma_strip_order_prefix_range(s: Seq<char>, a: int)
    requires
        0 <= a <= s.len(),
        forall|j: int| 0 <= j < a ==> is_order_char(s[j]),
        a == s.len() || !is_order_char(s[a]),
    ensures
        strip_order_prefix(s) == s.subrange(a, s.len() as int),
    decreases a,
{
    if a == 0 {
        assert(s.subrange(0, s.len() as int) =~= s);
    } else {
        assert(is_order_char(s[0]));
        let t = s.drop_first();
        assert(t =~= s.subrange(1, s.len() as int));
        lemma_strip_order_prefix_range(t, a - 1);
        assert(t.subrange(a - 1, t.len() as int) =~= s.subrange(a, s.len() as int));
    }
}

/// Whether `c` belongs to an ordering prefix.
fn is_order_char_exec(c: char) -> (r: bool)
    ensures
        r == is_order_char(c),
{
    ('0' <= c && c <= '9') || c == '_'
}

/// Strips the ordering prefix from a section key.
pub fn clean_prefixes<'a>(key: &'a String) -> (r: &'a str)
    ensures
        r@ == strip_order_prefix(key@),
{
    let s: &str = key.as_str();
    let n: usize = s.unicode_len();
    let mut a: usize = 0;
    while a < n && is_order_char_exec(s.get_char(a))
        invariant
            n == s@.len(),
            a <= n,
            forall|j: int| 0 <= j < a ==> is_order_char(s@[j]),
        decreases n - a,
    {
        a = a + 1;
    }
    proof {
        lemma_strip_order_prefix_range(s@, a as int);
    }
    s.substring_char(a, n)
}

/// The two public-address entries of the document.
pub open spec fn ips_pairs(v4: Seq<char>, v6: Seq<char>) -> Seq<(Seq<char>, Seq<char>)> {
    seq![("ipv4"@, v4), ("ipv6"@, v6)]
}

/// What the external table layouter produces for a given JSON text.
/// Its exact shape is the collaborator's business; the renderer only
/// splices it between the section's heading and closing tags.
pub uninterp spec fn table_of(s: Seq<char>) -> Seq<char>;

/// Relies on `serde_json::from_str` and `json_to_table::json_to_table`:
/// parsing a JSON text and laying the value out as a text table is a
/// pure function of that text alone; text that is not JSON yields an
/// empty table.
#[verifier::external_body]
fn render_table(s: &str) -> (r: String)
    ensures
        r@ == table_of(s@),
{
    match serde_json::from_str::<serde_json::Value>(s) {
        Ok(v) => json_to_table::json_to_table(&v).to_string(),
        Err(_) => String::new(),
    }
}

/// `pairs` with every value formatted by the value formatter: passed
/// through verbatim in verbose mode, wrapped to 80-character lines
/// otherwise.  Keys are never touched.
pub open spec fn formatted_pairs(pairs: Seq<(Seq<char>, Seq<char>)>, verbose: bool) -> Seq<
    (Seq<char>, Seq<char>),
> {
    Seq::new(
        pairs.len(),
        |i: int|
            (pairs[i].0, if verbose {
                pairs[i].1
            } else {
                wrapped(pairs[i].1)
            }),
    )
}

/// Formats every value of `v` for the chosen rendering mode.
fn format_pairs(v: Vec<(String, String)>, verbose: bool) -> (r: Vec<(String, String)>)
    ensures
        pairs_view(r@) == formatted_pairs(pairs_view(v@), verbose),
{
    let n = v.len();
    let mut out: Vec<(String, String)> = Vec::new();
    let mut i: usize = 0;
    while i < n
        invariant
            n == v@.len(),
            i <= n,
            out@.len() == i,
            forall|j: int|
                0 <= j < i ==> pairs_view(out@)[j] == formatted_pairs(pairs_view(v@), verbose)[j],
        decreases n - i,
    {
        let key = v[i].0.clone();
        let val = value_limiter(verbose, v[i].1.clone());
        let ghost out0 = out@;
        let ghost gkey = key@;
        let ghost gval = val@;
        out.push((key, val));
        proof {
            let fp = formatted_pairs(pairs_view(v@), verbose);
            assert(out@.len() == i + 1);
            assert(out@[i as int].0@ == gkey && out@[i as int].1@ == gval);
            assert(gkey == v@[i as int].0@);
            assert(verbose ==> gval == v@[i as int].1@);
            assert(!verbose ==> gval == wrapped(v@[i as int].1@));
            assert forall|j: int| 0 <= j < i + 1 implies pairs_view(out@)[j] == fp[j] by {
                assert(pairs_view(out@)[j] == (out@[j].0@, out@[j].1@));
                assert(fp[j] == (pairs_view(v@)[j].0, if verbose {
                    pairs_view(v@)[j].1
                } else {
                    wrapped(pairs_view(v@)[j].1)
                }));
                assert(pairs_view(v@)[j] == (v@[j].0@, v@[j].1@));
                if j < i {
                    assert(out@[j] == out0[j]);
                    assert(pairs_view(out0)[j] == fp[j]);
                    assert(pairs_view(out0)[j] == (out0[j].0@, out0[j].1@));
                }
            }
        }
        i = i + 1;
    }
    proof {
        assert(pairs_view(out@) =~= formatted_pairs(pairs_view(v@), verbose));
    }
    out
}

/// The single sentinel section that stands in when the isolation tool
/// produced no data at all.
pub open spec fn sentinel_posture() -> Seq<(Seq<char>, Seq<Seq<char>>)> {
    seq![("No isolation posture data"@, seq![""@])]
}

/// Substitutes the sentinel section when the parsed posture is empty.
fn ensure_posture(isolation: Vec<Section>) -> (r: Vec<Section>)
    ensures
        isolation@.len() > 0 ==> r == isolation,
        isolation@.len() == 0 ==> sections_view(r@) == sentinel_posture(),
{
    if isolation.len() == 0 {
        let mut findings: Vec<String> = Vec::new();
        findings.push("".to_owned());
        let mut out: Vec<Section> = Vec::new();
        out.push(Section { name: "No isolation posture data".to_owned(), findings });
        proof {
            assert(crate::text::lines_view(out@[0].findings@) =~= seq![""@]);
            assert(sections_view(out@) =~= sentinel_posture());
        }
        out
    } else {
        isolation
    }
}

/// Builds the snapshot for one request: header and environment values
/// go through the value formatter for the negotiated mode, an empty
/// isolation posture is replaced by the sentinel section, and the
/// remaining fields are carried as given.
pub fn assemble(
    headers: Vec<(String, String)>,
    environment: Vec<(String, String)>,
    remote_ip: String,
    ipv4: String,
    ipv6: String,
    isolation: IsolationPosture,
    system_json: String,
    as_json: bool,
) -> (snap: DiagnosticSnapshot)
    ensures
        pairs_view(snap.headers@) == formatted_pairs(pairs_view(headers@), as_json),
        pairs_view(snap.environment@) == formatted_pairs(pairs_view(environment@), as_json),
        snap.remote_ip == remote_ip,
        snap.ipv4 == ipv4,
        snap.ipv6 == ipv6,
        isolation.data@.len() > 0 ==> snap.isolation == isolation.data,
        isolation.data@.len() == 0 ==> sections_view(snap.isolation@) == sentinel_posture(),
        snap.system_json == system_json,
{
    DiagnosticSnapshot {
        headers: format_pairs(headers, as_json),
        environment: format_pairs(environment, as_json),
        remote_ip,
        ipv4,
        ipv6,
        isolation: ensure_posture(isolation.data),
        system_json,
    }
}

/// The JSON rendering of the snapshot, before glyph normalization: one
/// object with the six sections in fixed order.  The system snapshot
/// is already JSON text and is spliced in verbatim.
pub open spec fn json_document(snap: DiagnosticSnapshot) -> Seq<char> {
    seq!['{'] + json_str("headers"@) + seq![':'] + str_obj(pairs_view(snap.headers@)) + seq![',']
        + json_str("environment"@) + seq![':'] + str_obj(pairs_view(snap.environment@)) + seq![',']
        + json_str("remote_ip"@) + seq![':'] + json_str(snap.remote_ip@) + seq![','] + json_str(
        "public_ips"@,
    ) + seq![':'] + str_obj(ips_pairs(snap.ipv4@, snap.ipv6@)) + seq![','] + json_str(
        "am_i_isolated"@,
    ) + seq![':'] + sec_obj(sections_view(snap.isolation@)) + seq![','] + json_str("sysinfo"@)
        + seq![':'] + snap.system_json@ + seq!['}']
}

/// The public-address pairs as owned strings.
fn ips_vec(ipv4: &String, ipv6: &String) -> (r: Vec<(String, String)>)
    ensures
        pairs_view(r@) == ips_pairs(ipv4@, ipv6@),
{
    let mut out: Vec<(String, String)> = Vec::new();
    out.push(("ipv4".to_owned(), ipv4.clone()));
    out.push(("ipv6".to_owned(), ipv6.clone()));
    proof {
        assert(pairs_view(out@) =~= ips_pairs(ipv4@, ipv6@));
    }
    out
}

/// Renders the snapshot as the JSON document with status glyphs
/// normalized to ASCII tags.
pub fn render_json(snap: &DiagnosticSnapshot) -> (r: String)
    ensures
        r@ == replace_glyphs(json_document(*snap)),
{
    let headers_json = str_pairs_json(&snap.headers);
    let environment_json = str_pairs_json(&snap.environment);
    let remote_ip_json = quoted(snap.remote_ip.as_str());
    let ips = ips_vec(&snap.ipv4, &snap.ipv6);
    let ips_json = str_pairs_json(&ips);
    let isolation_json = sections_json(&snap.isolation);
    let mut out = String::new();
    proof {
        reveal_strlit("{");
        reveal_strlit("}");
        reveal_strlit(":");
        reveal_strlit(",");
        assert("{"@ =~= seq!['{']);
        assert("}"@ =~= seq!['}']);
        assert(":"@ =~= seq![':']);
        assert(","@ =~= seq![',']);
    }
    out.append("{");
    proof {
        assert(Seq::<char>::empty() + "{"@ =~= seq!['{']);
    }
    let key_headers = quoted("headers");
    out.append(key_headers.as_str());
    out.append(":");
    out.append(headers_json.as_str());
    out.append(",");
    let key_environment = quoted("environment");
    out.append(key_environment.as_str());
    out.append(":");
    out.append(environment_json.as_str());
    out.append(",");
    let key_remote_ip = quoted("remote_ip");
    out.append(key_remote_ip.as_str());
    out.append(":");
    out.append(remote_ip_json.as_str());
    out.append(",");
    let key_public_ips = quoted("public_ips");
    out.append(key_public_ips.as_str());
    out.append(":");
    out.append(ips_json.as_str());
    out.append(",");
    let key_am_i_isolated = quoted("am_i_isolated");
    out.append(key_am_i_isolated.as_str());
    out.append(":");
    out.append(isolation_json.as_str());
    out.append(",");
    let key_sysinfo = quoted("sysinfo");
    out.append(key_sysinfo.as_str());
    out.append(":");
    out.append(snap.system_json.as_str());
    out.append("}");
    proof {
        assert(out@ == json_document(*snap));
    }
    replace_emojis(out.as_str())
}

/// One HTML section: a heading, then the section value laid out by the
/// external table formatter inside a preformatted block.
pub open spec fn html_section(name: Seq<char>, value_json: Seq<char>) -> Seq<char> {
    "\n<h1>"@ + name + "</h1>\n<pre>\n"@ + table_of(value_json) + "\n</pre>"@
}

/// The HTML rendering of the snapshot: the six sections in fixed
/// order inside one page.
pub open spec fn html_document(snap: DiagnosticSnapshot) -> Seq<char> {
    "<html><head><title>Whoami</title></head><body>"@ + html_section(
        "headers"@,
        str_obj(pairs_view(snap.headers@)),
    ) + html_section("environment"@, str_obj(pairs_view(snap.environment@))) + html_section(
        "remote_ip"@,
        json_str(snap.remote_ip@),
    ) + html_section("public_ips"@, str_obj(ips_pairs(snap.ipv4@, snap.ipv6@))) + html_section(
        "am_i_isolated"@,
        sec_obj(sections_view(snap.isolation@)),
    ) + html_section("sysinfo"@, snap.system_json@) + "</body></html>"@
}

/// Appends one section's heading and table to the page.
fn append_html_section(out: &mut String, name: &str, value_json: &str)
    ensures
        final(out)@ == old(out)@ + html_section(name@, value_json@),
{
    out.append("\n<h1>");
    out.append(name);
    out.append("</h1>\n<pre>\n");
    let table = render_table(value_json);
    out.append(table.as_str());
    out.append("\n</pre>");
    proof {
        assert(out@ =~= old(out)@ + html_section(name@, value_json@));
    }
}

/// Renders the snapshot as the HTML page.
pub fn render_html(snap: &DiagnosticSnapshot) -> (r: String)
    ensures
        r@ == html_document(*snap),
{
    let headers_json = str_pairs_json(&snap.headers);
    let environment_json = str_pairs_json(&snap.environment);
    let remote_ip_json = quoted(snap.remote_ip.as_str());
    let ips = ips_vec(&snap.ipv4, &snap.ipv6);
    let ips_json = str_pairs_json(&ips);
    let isolation_json = sections_json(&snap.isolation);
    let mut out = String::new();
    out.append("<html><head><title>Whoami</title></head><body>");
    proof {
        assert(Seq::<char>::empty() + "<html><head><title>Whoami</title></head><body>"@
            =~= "<html><head><title>Whoami</title></head><body>"@);
    }
    append_html_section(&mut out, "headers", headers_json.as_str());
    append_html_section(&mut out, "environment", environment_json.as_str());
    append_html_section(&mut out, "remote_ip", remote_ip_json.as_str());
    append_html_section(&mut out, "public_ips", ips_json.as_str());
    append_html_section(&mut out, "am_i_isolated", isolation_json.as_str());
    append_html_section(&mut out, "sysinfo", snap.system_json.as_str());
    out.append("</body></html>");
    proof {
        assert(out@ == html_document(*snap));
    }
    out
}

/// Renders the snapshot in the negotiated mode and names the content
/// type that goes with it.
pub fn render(snap: &DiagnosticSnapshot, as_json: bool) -> (r: (String, String))
    ensures
        as_json ==> r.0@ == replace_glyphs(json_document(*snap)) && r.1@ == "application/json"@,
        !as_json ==> r.0@ == html_document(*snap) && r.1@ == "text/html; charset=utf-8"@,
{
    if as_json {
        (render_json(snap), "application/json".to_owned())
    } else {
        (render_html(snap), "text/html; charset=utf-8".to_owned())
    }
}

} // verus!
