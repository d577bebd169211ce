use grok_anthropic_bridge::paths::PathBase;
use grok_anthropic_bridge::port_file::{
    default_port_file_path, is_our_serve_process, parse_pids, parse_port_file_contents,
    pids_to_stop, port_file_contents, port_file_from_env, port_file_location, prepare_sticky_port,
    resolve_listen_port, Listener, PortFile, PortPlan, DEFAULT_PORT_FILE_NAME,
};

fn file(contents: Option<&str>) -> Option<PortFile<&'static str>> {
    Some(PortFile { path: "port", contents: contents.map(str::to_string) })
}

#[test]
fn parse_port_file_basic() {
    assert_eq!(parse_port_file_contents("18766\n"), Some(18766));
    assert_eq!(parse_port_file_contents("  9  "), Some(9));
    assert_eq!(parse_port_file_contents("0"), None);
    assert_eq!(parse_port_file_contents(""), None);
    assert_eq!(parse_port_file_contents("nope"), None);
}

#[test]
fn parse_port_file_edges() {
    assert_eq!(parse_port_file_contents("65535"), Some(65535));
    assert_eq!(parse_port_file_contents("65536"), None);
    assert_eq!(parse_port_file_contents("+80 and more"), Some(80));
    assert_eq!(parse_port_file_contents("-80"), None);
    assert_eq!(parse_port_file_contents("80x"), None);
    assert_eq!(parse_port_file_contents("\u{2003}80\u{2003}"), Some(80));
}

#[test]
fn resolve_without_file_uses_default() {
    let r = resolve_listen_port::<&str>(None, 18765, None).ready().unwrap();
    assert_eq!(r.port, 18765);
    assert!(!r.wrote_file);
    assert_eq!(r.path, None);
}

#[test]
fn resolve_without_file_asks_for_a_free_port() {
    let free = |p: Option<u16>, d: u16| resolve_listen_port::<&str>(p, d, None);
    assert_eq!(free(None, 0), PortPlan::NeedsFreePort(None));
    assert_eq!(free(Some(0), 0), PortPlan::NeedsFreePort(None));
    assert_eq!(free(Some(0), 18765), PortPlan::NeedsFreePort(None));
    assert_eq!(free(Some(7), 0).ready().unwrap().port, 7);
    let r = free(Some(0), 18765).with_free_port(4711);
    assert_eq!((r.port, r.wrote_file, r.path), (4711, false, None));
}

#[test]
fn resolve_sticky_creates_file_and_reuses() {
    let r1 = resolve_listen_port(None, 18765, file(None)).with_free_port(50123);
    assert!(r1.port > 0);
    assert!(r1.wrote_file);
    let written = port_file_contents(r1.port);
    assert_eq!(parse_port_file_contents(&written), Some(r1.port));

    let r2 = resolve_listen_port(None, 9999, file(Some(&written))).ready().unwrap();
    assert_eq!(r2.port, r1.port);
    assert_eq!(r2.path, Some("port"));
}

#[test]
fn resolve_sticky_explicit_port_overwrites_file() {
    let first = resolve_listen_port(None, 0, file(None)).with_free_port(50124);
    let written = port_file_contents(first.port);
    let r = resolve_listen_port(Some(34567), 0, file(Some(&written))).ready().unwrap();
    assert_eq!(r.port, 34567);
    assert!(r.wrote_file);
    assert_eq!(parse_port_file_contents(&port_file_contents(r.port)), Some(34567));
}

#[test]
fn resolve_sticky_zero_forces_a_free_port() {
    let plan = resolve_listen_port(Some(0), 18765, file(Some("18766\n")));
    assert_eq!(plan, PortPlan::NeedsFreePort(Some("port")));
    let plan = resolve_listen_port(None, 18765, file(Some("garbage")));
    assert_eq!(plan, PortPlan::NeedsFreePort(Some("port")));
}

#[test]
fn is_our_serve_detects_binary_name() {
    assert!(is_our_serve_process("/path/grok-anthropic-serve serve --port 1"));
    assert!(is_our_serve_process("target/debug/grok-anthropic-serve"));
    assert!(!is_our_serve_process("node server.mjs"));
}

#[test]
fn is_our_serve_ignores_case() {
    assert!(is_our_serve_process("C:\\Grok-Anthropic-Serve.EXE"));
    assert!(is_our_serve_process("cargo run -p XAI-grok-anthropic-bridge"));
}

#[test]
fn write_read_roundtrip() {
    assert_eq!(port_file_contents(4242), "4242\n");
    assert_eq!(parse_port_file_contents(&port_file_contents(4242)), Some(4242));
}

#[test]
fn default_port_file_ends_with_anthropic_serve_port() {
    for plan in [
        default_port_file_path(Some("/grok"), None),
        default_port_file_path(None, Some("/home/u")),
        default_port_file_path::<&str>(None, None),
    ] {
        assert_eq!(plan.names.last().copied(), Some(DEFAULT_PORT_FILE_NAME));
    }
}

#[test]
fn the_environment_names_the_port_file() {
    let plan = port_file_from_env(Some("/tmp/p"), false, Some("/grok"), None);
    assert_eq!(plan.base, PathBase::Given("/tmp/p"));
    assert!(plan.names.is_empty());
    let plan = port_file_from_env(Some(""), true, None, Some("/home/u"));
    assert_eq!(plan.base, PathBase::Given("/home/u"));
    assert_eq!(plan.names, vec![".grok", "anthropic-serve.port"]);
    let plan = port_file_location(Some("/flag"), Some("/tmp/p"), false, None, None);
    assert_eq!(plan.base, PathBase::Given("/flag"));
    let plan = port_file_location(None, Some("/tmp/p"), false, None, None);
    assert_eq!(plan.base, PathBase::Given("/tmp/p"));
    let plan = port_file_from_env::<&str>(None, false, None, None);
    assert_eq!(plan.base, PathBase::Relative);
}

#[test]
fn earlier_servers_are_stopped_on_a_sticky_port_alone() {
    let sticky = prepare_sticky_port(None, 1, file(Some("80")));
    assert!(sticky.stop_earlier);
    assert_eq!(sticky.port.ready().unwrap().port, 80);
    let plain = prepare_sticky_port::<&str>(None, 1, None);
    assert!(!plain.stop_earlier);
}

#[test]
fn listeners_are_picked() {
    assert_eq!(parse_pids("12\n 34 \r\n\nx\n-5\n4294967295\n4294967296\n"), vec![12, 34, 4294967295]);
    let l = |pid: u32, cmdline: &str| Listener { pid, cmdline: cmdline.to_string() };
    let listeners = vec![l(1, "grok-anthropic-serve"), l(2, "node"), l(3, "grok-anthropic-serve")];
    assert_eq!(pids_to_stop(&listeners, 3, true), vec![1]);
    assert_eq!(pids_to_stop(&listeners, 3, false), vec![1, 2]);
}
