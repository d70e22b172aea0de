//! Presentation formats: renders the enriched record set as tab-separated
//! text, JSON, or a Markdown table.

use vstd::prelude::*;
use vstd::string::*;

use crate::records::{PortInfo, PortInfoView, opt_view};
use crate::text::{fmt_i32, fmt_u64, spec_dec_int, spec_dec_nat};

verus! {

/// The output format selected by the caller.
#[derive(Copy, Clone, PartialEq, Eq, PartialOrd, Ord, Debug, Structural)]
pub enum OutputFormat {
    Text,
    Json,
    Md,
}

/// A present string, or the placeholder shown for an absent field.
pub open spec fn s_or_unknown(o: Option<Seq<char>>) -> Seq<char> {
    match o {
        Some(s) => s,
        None => "unknown"@,
    }
}

/// The textual form of a boolean.
pub open spec fn s_bool(b: bool) -> Seq<char> {
    if b {
        "true"@
    } else {
        "false"@
    }
}

/// The process id shown in the delimited formats: zero when absent.
pub open spec fn s_pid(o: Option<i32>) -> Seq<char> {
    spec_dec_int(
        match o {
            Some(p) => p as int,
            None => 0,
        },
    )
}

fn or_unknown<'a>(o: &'a Option<String>) -> (r: &'a str)
    ensures
        r@ == s_or_unknown(opt_view(*o)),
{
    match o {
        Some(s) => s.as_str(),
        None => "unknown",
    }
}

fn bool_str(b: bool) -> (r: &'static str)
    ensures
        r@ == s_bool(b),
{
    if b {
        "true"
    } else {
        "false"
    }
}

fn pid_str(o: &Option<i32>) -> (r: String)
    ensures
        r@ == s_pid(*o),
{
    match o {
        Some(p) => fmt_i32(*p),
        None => fmt_i32(0),
    }
}

/// One line of the tab-separated text format.
pub open spec fn spec_text_line(r: PortInfoView) -> Seq<char> {
    spec_dec_nat(r.port as nat) + "\t"@ + s_pid(r.pid) + "\t"@ + s_or_unknown(r.user) + "\t"@
        + s_bool(r.is_privileged) + "\t"@ + s_bool(r.is_ipv6) + "\t"@ + s_or_unknown(r.process)
        + "\t\t"@ + s_or_unknown(r.cwd) + "\t\t"@ + s_or_unknown(r.full_command) + "\t\t"@
        + s_or_unknown(r.service) + "\n"@
}

/// The record lines of the text format, in order.
pub open spec fn spec_text_lines(rs: Seq<PortInfoView>) -> Seq<char>
    decreases rs.len(),
{
    if rs.len() == 0 {
        Seq::empty()
    } else {
        spec_text_line(rs[0]) + spec_text_lines(rs.drop_first())
    }
}

/// The whole text format: a header line, then one line per record.
pub open spec fn spec_output_text(rs: Seq<PortInfoView>) -> Seq<char> {
    "PORT\tPID\tUSER\tPRIVILEGED\tIS_IPV6\tPROCESS\t\tCWD\t\tFULL CMD\t\tSERVICE\n"@
        + spec_text_lines(rs)
}

fn text_line(rec: &PortInfo) -> (r: String)
    ensures
        r@ == spec_text_line(rec@),
{
    let mut s = String::new();
    let port = fmt_u64(rec.port as u64);
    s.append(port.as_str());
    s.append("\t");
    let pid = pid_str(&rec.pid);
    s.append(pid.as_str());
    s.append("\t");
    s.append(or_unknown(&rec.user));
    s.append("\t");
    s.append(bool_str(rec.is_privileged));
    s.append("\t");
    s.append(bool_str(rec.is_ipv6));
    s.append("\t");
    s.append(or_unknown(&rec.process));
    s.append("\t\t");
    s.append(or_unknown(&rec.cwd));
    s.append("\t\t");
    s.append(or_unknown(&rec.full_command));
    s.append("\t\t");
    s.append(or_unknown(&rec.service));
    s.append("\n");
    proof {
        assert(s@ =~= spec_text_line(rec@));
    }
    s
}

/// Renders the records as tab-separated text with a header line.
pub fn output_text(ports: &Vec<PortInfo>) -> (r: String)
    ensures
        r@ == spec_output_text(ports.deep_view()),
{
    let ghost rv = ports.deep_view();
    let mut out = String::new();
    out.append("PORT\tPID\tUSER\tPRIVILEGED\tIS_IPV6\tPROCESS\t\tCWD\t\tFULL CMD\t\tSERVICE\n");
    let mut i: usize = 0;
    proof {
        assert(rv.skip(0) =~= rv);
    }
    while i < ports.len()
        invariant
            0 <= i <= ports@.len(),
            rv == ports.deep_view(),
            rv.len() == ports@.len(),
            spec_output_text(rv) == out@ + spec_text_lines(rv.skip(i as int)),
        decreases ports@.len() - i,
    {
        proof {
            assert(rv.skip(i as int)[0] == rv[i as int]);
            assert(rv.skip(i as int).drop_first() =~= rv.skip(i as int + 1));
        }
        let ghost pre = out@;
        let line = text_line(&ports[i]);
        out.append(line.as_str());
        proof {
            assert((pre + spec_text_line(rv[i as int])) + spec_text_lines(rv.skip(i as int + 1))
                =~= pre + (spec_text_line(rv[i as int]) + spec_text_lines(rv.skip(i as int + 1))));
        }
        i += 1;
    }
    proof {
        assert(spec_text_lines(rv.skip(rv.len() as int)) =~= Seq::<char>::empty());
        assert(out@ + Seq::<char>::empty() =~= out@);
    }
    out
}

/// One line of the Markdown table format.
pub open spec fn spec_md_line(r: PortInfoView) -> Seq<char> {
    "| "@ + spec_dec_nat(r.port as nat) + " | "@ + s_pid(r.pid) + " | "@ + s_or_unknown(r.user)
        + " | "@ + s_bool(r.is_privileged) + " | "@ + s_bool(r.is_ipv6) + " | `"@ + s_or_unknown(
        r.process,
    ) + "` | `"@ + s_or_unknown(r.cwd) + "` | `"@ + s_or_unknown(r.full_command) + "` | `"@
        + s_or_unknown(r.service) + "` |\n"@
}

/// The record lines of the Markdown format, in order.
pub open spec fn spec_md_lines(rs: Seq<PortInfoView>) -> Seq<char>
    decreases rs.len(),
{
    if rs.len() == 0 {
        Seq::empty()
    } else {
        spec_md_line(rs[0]) + spec_md_lines(rs.drop_first())
    }
}

/// The whole Markdown format: the table head, then one row per record.
pub open spec fn spec_output_markdown(rs: Seq<PortInfoView>) -> Seq<char> {
    "| PORT | PID | USER | PRIVILEGED | IS_IPV6 | PROCESS | CWD | FULL CMD | SERVICE |\n"@
        + "|------|-----|------|-------------|---------|---------|-----|----------|---------|\n"@
        + spec_md_lines(rs)
}

fn md_line(rec: &PortInfo) -> (r: String)
    ensures
        r@ == spec_md_line(rec@),
{
    let mut s = String::new();
    s.append("| ");
    let port = fmt_u64(rec.port as u64);
    s.append(port.as_str());
    s.append(" | ");
    let pid = pid_str(&rec.pid);
    s.append(pid.as_str());
    s.append(" | ");
    s.append(or_unknown(&rec.user));
    s.append(" | ");
    s.append(bool_str(rec.is_privileged));
    s.append(" | ");
    s.append(bool_str(rec.is_ipv6));
    s.append(" | `");
    s.append(or_unknown(&rec.process));
    s.append("` | `");
    s.append(or_unknown(&rec.cwd));
    s.append("` | `");
    s.append(or_unknown(&rec.full_command));
    s.append("` | `");
    s.append(or_unknown(&rec.service));
    s.append("` |\n");
    proof {
        assert(s@ =~= spec_md_line(rec@));
    }
    s
}

/// Renders the records as a Markdown table.
pub fn output_markdown(ports: &Vec<PortInfo>) -> (r: String)
    ensures
        r@ == spec_output_markdown(ports.deep_view()),
{
    let ghost rv = ports.deep_view();
    let mut out = String::new();
    out.append("| PORT | PID | USER | PRIVILEGED | IS_IPV6 | PROCESS | CWD | FULL CMD | SERVICE |\n");
    out.append("|------|-----|------|-------------|---------|---------|-----|----------|---------|\n");
    let mut i: usize = 0;
    proof {
        assert(rv.skip(0) =~= rv);
    }
    while i < ports.len()
        invariant
            0 <= i <= ports@.len(),
            rv == ports.deep_view(),
            rv.len() == ports@.len(),
            spec_output_markdown(rv) == out@ + spec_md_lines(rv.skip(i as int)),
        decreases ports@.len() - i,
    {
        proof {
            assert(rv.skip(i as int)[0] == rv[i as int]);
            assert(rv.skip(i as int).drop_first() =~= rv.skip(i as int + 1));
        }
        let ghost pre = out@;
        let line = md_line(&ports[i]);
        out.append(line.as_str());
        proof {
            assert((pre + spec_md_line(rv[i as int])) + spec_md_lines(rv.skip(i as int + 1)) =~= pre
                + (spec_md_line(rv[i as int]) + spec_md_lines(rv.skip(i as int + 1))));
        }
        i += 1;
    }
    proof {
        assert(spec_md_lines(rv.skip(rv.len() as int)) =~= Seq::<char>::empty());
        assert(out@ + Seq::<char>::empty() =~= out@);
    }
    out
}

/// The hexadecimal digit character for a value below sixteen.
pub open spec fn spec_hex_char(d: nat) -> char {
    if d < 10 {
        crate::text::spec_digit_char(d)
    } else if d == 10 {
        'a'
    } else if d == 11 {
        'b'
    } else if d == 12 {
        'c'
    } else if d == 13 {
        'd'
    } else if d == 14 {
        'e'
    } else {
        'f'
    }
}

/// How one character is written inside a JSON string: quote, backslash
/// and the named control characters get two-character escapes, any other
/// control character a `\u00..` escape, and everything else stands as is.
pub open spec fn spec_esc_char(c: char) -> Seq<char> {
    if c == '"' {
        "\\\""@
    } else if c == '\\' {
        "\\\\"@
    } else if c == '\n' {
        "\\n"@
    } else if c == '\r' {
        "\\r"@
    } else if c == '\t' {
        "\\t"@
    } else if c as u32 == 8 {
        "\\b"@
    } else if c as u32 == 12 {
        "\\f"@
    } else if (c as u32) < 32 {
        "\\u00"@ + seq![spec_hex_char((c as u32 / 16) as nat), spec_hex_char((c as u32 % 16) as nat)]
    } else {
        seq![c]
    }
}

/// A character sequence escaped for a JSON string.
pub open spec fn spec_json_escape(s: Seq<char>) -> Seq<char>
    decreases s.len(),
{
    if s.len() == 0 {
        Seq::empty()
    } else {
        spec_esc_char(s[0]) + spec_json_escape(s.drop_first())
    }
}

/// A JSON string: the escaped characters between quotes.
pub open spec fn spec_json_str(s: Seq<char>) -> Seq<char> {
    seq!['"'] + spec_json_escape(s) + seq!['"']
}

/// An optional string as a JSON value: a string or `null`.
pub open spec fn spec_json_opt_str(o: Option<Seq<char>>) -> Seq<char> {
    match o {
        Some(s) => spec_json_str(s),
        None => "null"@,
    }
}

/// An optional number as a JSON value: a number or `null`.
pub open spec fn spec_json_opt_int(o: Option<i32>) -> Seq<char> {
    match o {
        Some(p) => spec_dec_int(p as int),
        None => "null"@,
    }
}

fn push_hex_digit(s: &mut String, d: u8)
    requires
        d < 16,
    ensures
        final(s)@ == old(s)@.push(spec_hex_char(d as nat)),
{
    match d {
        0 => {
            proof {
                reveal_strlit("0");
            }
            s.append("0");
        },
        1 => {
            proof {
                reveal_strlit("1");
            }
            s.append("1");
        },
        2 => {
            proof {
                reveal_strlit("2");
            }
            s.append("2");
        },
        3 => {
            proof {
                reveal_strlit("3");
            }
            s.append("3");
        },
        4 => {
            proof {
                reveal_strlit("4");
            }
            s.append("4");
        },
        5 => {
            proof {
                reveal_strlit("5");
            }
            s.append("5");
        },
        6 => {
            proof {
                reveal_strlit("6");
            }
            s.append("6");
        },
        7 => {
            proof {
                reveal_strlit("7");
            }
            s.append("7");
        },
        8 => {
            proof {
                reveal_strlit("8");
            }
            s.append("8");
        },
        9 => {
            proof {
                reveal_strlit("9");
            }
            s.append("9");
        },
        10 => {
            proof {
                reveal_strlit("a");
            }
            s.append("a");
        },
        11 => {
            proof {
                reveal_strlit("b");
            }
            s.append("b");
        },
        12 => {
            proof {
                reveal_strlit("c");
            }
            s.append("c");
        },
        13 => {
            proof {
                reveal_strlit("d");
            }
            s.append("d");
        },
        14 => {
            proof {
                reveal_strlit("e");
            }
            s.append("e");
        },
        _ => {
            proof {
                reveal_strlit("f");
            }
            s.append("f");
        },
    }
    assert(s@ =~= old(s)@.push(spec_hex_char(d as nat)));
}

/// Escapes a string for inclusion in a JSON string value.
fn json_escape(t: &str) -> (r: String)
    ensures
        r@ == spec_json_escape(t@),
{
    let len = t.unicode_len();
    let mut out = String::new();
    let mut i: usize = 0;
    proof {
        assert(t@.skip(0) =~= t@);
        assert(out@ + spec_json_escape(t@) =~= spec_json_escape(t@));
    }
    while i < len
        invariant
            0 <= i <= len,
            len == t@.len(),
            spec_json_escape(t@) == out@ + spec_json_escape(t@.skip(i as int)),
        decreases len - i,
    {
        proof {
            assert(t@.skip(i as int)[0] == t@[i as int]);
            assert(t@.skip(i as int).drop_first() =~= t@.skip(i as int + 1));
        }
        let ghost pre = out@;
        let c = t.get_char(i);
        if c == '"' {
            out.append("\\\"");
        } else if c == '\\' {
            out.append("\\\\");
        } else if c == '\n' {
            out.append("\\n");
        } else if c == '\r' {
            out.append("\\r");
        } else if c == '\t' {
            out.append("\\t");
        } else {
            let code: u32 = c as u32;
            if code == 8 {
                out.append("\\b");
            } else if code == 12 {
                out.append("\\f");
            } else if code < 32 {
                out.append("\\u00");
                push_hex_digit(&mut out, (code / 16) as u8);
                push_hex_digit(&mut out, (code % 16) as u8);
                proof {
                    assert(out@ =~= pre + ("\\u00"@ + seq![
                        spec_hex_char((c as u32 / 16) as nat),
                        spec_hex_char((c as u32 % 16) as nat),
                    ]));
                }
            } else {
                let one = t.substring_char(i, i + 1);
                out.append(one);
                proof {
                    assert(one@ =~= seq![c]);
                }
            }
        }
        proof {
            assert(out@ =~= pre + spec_esc_char(t@[i as int]));
            assert((pre + spec_esc_char(t@[i as int])) + spec_json_escape(t@.skip(i as int + 1))
                =~= pre + (spec_esc_char(t@[i as int]) + spec_json_escape(t@.skip(i as int + 1))));
        }
        i += 1;
    }
    proof {
        assert(spec_json_escape(t@.skip(len as int)) =~= Seq::<char>::empty());
        assert(out@ + Seq::<char>::empty() =~= out@);
    }
    out
}

fn append_json_str(out: &mut String, v: &Option<String>)
    ensures
        final(out)@ == old(out)@ + spec_json_opt_str(opt_view(*v)),
{
    match v {
        Some(s) => {
            proof {
                reveal_strlit("\"");
            }
            out.append("\"");
            let esc = json_escape(s.as_str());
            out.append(esc.as_str());
            out.append("\"");
            proof {
                assert("\""@ =~= seq!['"']);
                assert(out@ =~= old(out)@ + spec_json_str(s@));
            }
        },
        None => {
            out.append("null");
        },
    }
}

/// One record as a pretty-printed JSON object, indented for an array.
pub open spec fn spec_json_item(r: PortInfoView) -> Seq<char> {
    "  {\n    \"port\": "@ + spec_dec_nat(r.port as nat) + ",\n    \"inode\": "@ + spec_dec_nat(
        r.inode as nat,
    ) + ",\n    \"is_ipv6\": "@ + s_bool(r.is_ipv6) + ",\n    \"host\": "@ + spec_json_str(r.host)
        + ",\n    \"pid\": "@ + spec_json_opt_int(r.pid) + ",\n    \"process\": "@
        + spec_json_opt_str(r.process) + ",\n    \"full_command\": "@ + spec_json_opt_str(
        r.full_command,
    ) + ",\n    \"cwd\": "@ + spec_json_opt_str(r.cwd) + ",\n    \"service\": "@
        + spec_json_opt_str(r.service) + ",\n    \"is_privileged\": "@ + s_bool(r.is_privileged)
        + ",\n    \"user\": "@ + spec_json_opt_str(r.user) + "\n  }"@
}

/// The objects of the JSON array, separated by commas.
pub open spec fn spec_json_items(rs: Seq<PortInfoView>) -> Seq<char>
    decreases rs.len(),
{
    if rs.len() == 0 {
        Seq::empty()
    } else if rs.len() == 1 {
        spec_json_item(rs[0])
    } else {
        spec_json_item(rs[0]) + ",\n"@ + spec_json_items(rs.drop_first())
    }
}

/// The whole JSON format: a pretty-printed array of record objects.
pub open spec fn spec_output_json(rs: Seq<PortInfoView>) -> Seq<char> {
    if rs.len() == 0 {
        "[]"@
    } else {
        "[\n"@ + spec_json_items(rs) + "\n]"@
    }
}

fn json_item(rec: &PortInfo) -> (r: String)
    ensures
        r@ == spec_json_item(rec@),
{
    let mut s = String::new();
    s.append("  {\n    \"port\": ");
    let port = fmt_u64(rec.port as u64);
    s.append(port.as_str());
    s.append(",\n    \"inode\": ");
    let inode = fmt_u64(rec.inode);
    s.append(inode.as_str());
    s.append(",\n    \"is_ipv6\": ");
    s.append(bool_str(rec.is_ipv6));
    s.append(",\n    \"host\": ");
    let host = Some(rec.host.clone());
    append_json_str(&mut s, &host);
    s.append(",\n    \"pid\": ");
    match rec.pid {
        Some(p) => {
            let pid = fmt_i32(p);
            s.append(pid.as_str());
        },
        None => {
            s.append("null");
        },
    }
    s.append(",\n    \"process\": ");
    append_json_str(&mut s, &rec.process);
    s.append(",\n    \"full_command\": ");
    append_json_str(&mut s, &rec.full_command);
    s.append(",\n    \"cwd\": ");
    append_json_str(&mut s, &rec.cwd);
    s.append(",\n    \"service\": ");
    append_json_str(&mut s, &rec.service);
    s.append(",\n    \"is_privileged\": ");
    s.append(bool_str(rec.is_privileged));
    s.append(",\n    \"user\": ");
    append_json_str(&mut s, &rec.user);
    s.append("\n  }");
    proof {
        assert(s@ =~= spec_json_item(rec@));
    }
    s
}

/// Renders the records as a pretty-printed JSON array.
pub fn output_json(ports: &Vec<PortInfo>) -> (r: String)
    ensures
        r@ == spec_output_json(ports.deep_view()),
{
    let ghost rv = ports.deep_view();
    if ports.len() == 0 {
        let mut out = String::new();
        out.append("[]");
        proof {
            assert(out@ =~= "[]"@);
        }
        return out;
    }
    let mut out = String::new();
    out.append("[\n");
    let mut i: usize = 0;
    proof {
        assert(rv.skip(0) =~= rv);
    }
    while i < ports.len()
        invariant
            0 <= i <= ports@.len(),
            rv == ports.deep_view(),
            rv.len() == ports@.len(),
            rv.len() > 0,
            i < rv.len() ==> spec_output_json(rv) == out@ + spec_json_items(rv.skip(i as int))
                + "\n]"@,
            i == rv.len() ==> spec_output_json(rv) == out@ + "\n]"@,
        decreases ports@.len() - i,
    {
        proof {
            assert(rv.skip(i as int)[0] == rv[i as int]);
            assert(rv.skip(i as int).drop_first() =~= rv.skip(i as int + 1));
        }
        let ghost pre = out@;
        let item = json_item(&ports[i]);
        out.append(item.as_str());
        if i + 1 < ports.len() {
            out.append(",\n");
            proof {
                assert((pre + spec_json_item(rv[i as int]) + ",\n"@) + (spec_json_items(
                    rv.skip(i as int + 1),
                ) + "\n]"@) =~= (pre + (spec_json_item(rv[i as int]) + ",\n"@ + spec_json_items(
                    rv.skip(i as int + 1),
                )) + "\n]"@));
            }
        } else {
            proof {
                assert(rv.skip(i as int).len() == 1);
            }
        }
        i += 1;
    }
    out.append("\n]");
    proof {
        assert(out@ =~= spec_output_json(rv));
    }
    out
}

/// Which rendering each format selects.
pub open spec fn spec_output_ports(format: OutputFormat, rs: Seq<PortInfoView>) -> Seq<char> {
    match format {
        OutputFormat::Text => spec_output_text(rs),
        OutputFormat::Json => spec_output_json(rs),
        OutputFormat::Md => spec_output_markdown(rs),
    }
}

/// Renders the records in the selected format.
pub fn output_ports(format: OutputFormat, ports: Vec<PortInfo>) -> (r: String)
    ensures
        r@ == spec_output_ports(format, ports.deep_view()),
{
    match format {
        OutputFormat::Text => output_text(&ports),
        OutputFormat::Json => output_json(&ports),
        OutputFormat::Md => output_markdown(&ports),
    }
}

} // verus!
