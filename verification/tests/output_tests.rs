use portlist::output::{output_json, output_markdown, output_ports, output_text, OutputFormat};
use portlist::records::PortInfo;

fn full_record() -> PortInfo {
    PortInfo {
        port: 80,
        inode: 4242,
        is_ipv6: false,
        host: String::from("127.0.0.1"),
        pid: Some(1234),
        process: Some(String::from("nginx")),
        full_command: Some(String::from("/usr/sbin/nginx -g daemon off;")),
        cwd: Some(String::from("/")),
        service: Some(String::from("http")),
        is_privileged: true,
        user: Some(String::from("root")),
    }
}

fn bare_record() -> PortInfo {
    PortInfo {
        port: 8080,
        inode: 7,
        is_ipv6: true,
        host: String::from("::"),
        pid: None,
        process: None,
        full_command: None,
        cwd: None,
        service: None,
        is_privileged: false,
        user: None,
    }
}

#[test]
fn text_output_exact() {
    let out = output_text(&vec![full_record()]);
    let expected = "PORT\tPID\tUSER\tPRIVILEGED\tIS_IPV6\tPROCESS\t\tCWD\t\tFULL CMD\t\tSERVICE\n\
                    80\t1234\troot\ttrue\tfalse\tnginx\t\t/\t\t/usr/sbin/nginx -g daemon off;\t\thttp\n";
    assert_eq!(out, expected);
}

#[test]
fn text_output_absent_fields_show_unknown() {
    let out = output_text(&vec![bare_record()]);
    let expected = "PORT\tPID\tUSER\tPRIVILEGED\tIS_IPV6\tPROCESS\t\tCWD\t\tFULL CMD\t\tSERVICE\n\
                    8080\t0\tunknown\tfalse\ttrue\tunknown\t\tunknown\t\tunknown\t\tunknown\n";
    assert_eq!(out, expected);
}

#[test]
fn text_output_empty_is_header_only() {
    let out = output_text(&vec![]);
    assert_eq!(out, "PORT\tPID\tUSER\tPRIVILEGED\tIS_IPV6\tPROCESS\t\tCWD\t\tFULL CMD\t\tSERVICE\n");
}

#[test]
fn markdown_output_exact() {
    let out = output_markdown(&vec![full_record()]);
    let expected = "| PORT | PID | USER | PRIVILEGED | IS_IPV6 | PROCESS | CWD | FULL CMD | SERVICE |\n\
                    |------|-----|------|-------------|---------|---------|-----|----------|---------|\n\
                    | 80 | 1234 | root | true | false | `nginx` | `/` | `/usr/sbin/nginx -g daemon off;` | `http` |\n";
    assert_eq!(out, expected);
}

#[test]
fn json_output_empty_array() {
    assert_eq!(output_json(&vec![]), "[]");
}

#[test]
fn json_output_exact() {
    let out = output_json(&vec![full_record()]);
    let expected = "[\n  {\n    \"port\": 80,\n    \"inode\": 4242,\n    \"is_ipv6\": false,\n    \
                    \"host\": \"127.0.0.1\",\n    \"pid\": 1234,\n    \"process\": \"nginx\",\n    \
                    \"full_command\": \"/usr/sbin/nginx -g daemon off;\",\n    \"cwd\": \"/\",\n    \
                    \"service\": \"http\",\n    \"is_privileged\": true,\n    \"user\": \"root\"\n  }\n]";
    assert_eq!(out, expected);
}

#[test]
fn json_output_nulls_and_separator() {
    let out = output_json(&vec![bare_record(), bare_record()]);
    assert!(out.starts_with("[\n  {\n"));
    assert!(out.ends_with("\n  }\n]"));
    assert_eq!(out.matches("\"pid\": null").count(), 2);
    assert_eq!(out.matches("\"user\": null").count(), 2);
    assert_eq!(out.matches("},\n  {").count(), 1);
}

#[test]
fn json_escaping() {
    let mut r = bare_record();
    r.process = Some(String::from("a\"b\\c\nd\te\rf"));
    r.host = String::from("x\u{1}y\u{1f}z\u{8}w\u{c}v");
    let out = output_json(&vec![r]);
    assert!(out.contains("\"process\": \"a\\\"b\\\\c\\nd\\te\\rf\""));
    assert!(out.contains("\"host\": \"x\\u0001y\\u001fz\\bw\\fv\""));
}

#[test]
fn output_ports_dispatches_by_format() {
    let ports = vec![full_record()];
    assert_eq!(output_ports(OutputFormat::Text, ports.clone()), output_text(&ports));
    assert_eq!(output_ports(OutputFormat::Json, ports.clone()), output_json(&ports));
    assert_eq!(output_ports(OutputFormat::Md, ports.clone()), output_markdown(&ports));
}

#[test]
fn negative_pid_is_formatted_with_sign() {
    let mut r = bare_record();
    r.pid = Some(-1);
    let text = output_text(&vec![r]);
    assert!(text.contains("8080\t-1\t"));
}
