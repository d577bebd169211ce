//! The sticky port file: it remembers the loopback port across restarts.
//!
//! The file holds one decimal port and is kept on exit. With a port file, a
//! start without an explicit port reuses the port of the file; where there is
//! none it takes a free one. The port in use is always written back.

use vstd::prelude::*;

use crate::credentials::GROK_DIR_NAME;
use crate::paths::{path_at, path_below, path_two_below, PathBase, PathPlan};
use crate::text;

verus! {

/// The variable that names the port file.
pub const PORT_FILE_ENV: &'static str = "GROK_ANTHROPIC_SERVE_PORT_FILE";

/// The name of the default port file.
pub const DEFAULT_PORT_FILE_NAME: &'static str = "anthropic-serve.port";

/// Which port is served on.
#[derive(Debug, Clone, PartialEq, Eq)]
pub struct PortResolution<P> {
    pub port: u16,
    /// Whether the port is to be written to the port file.
    pub wrote_file: bool,
    /// The port file, if any.
    pub path: Option<P>,
}

/// A port file and what it holds, where it could be read.
#[derive(Debug, Clone, PartialEq, Eq)]
pub struct PortFile<P> {
    pub path: P,
    pub contents: Option<String>,
}

/// Where the port file is: a base and the names below it.
pub open spec fn port_path<P>(
    flag: Option<P>,
    named: Option<P>,
    named_is_empty: bool,
    grok_home: Option<P>,
    home: Option<P>,
) -> (PathBase<P>, Seq<&'static str>) {
    if flag is Some {
        (PathBase::Given(flag->0), Seq::empty())
    } else if named is Some && !named_is_empty {
        (PathBase::Given(named->0), Seq::empty())
    } else if grok_home is Some {
        (PathBase::Given(grok_home->0), seq![DEFAULT_PORT_FILE_NAME])
    } else if home is Some {
        (PathBase::Given(home->0), seq![GROK_DIR_NAME, DEFAULT_PORT_FILE_NAME])
    } else {
        (PathBase::Relative, seq![GROK_DIR_NAME, DEFAULT_PORT_FILE_NAME])
    }
}

/// Where the default port file is: in `GROK_HOME`, else in `.grok` below the
/// home directory, else in `.grok`.
pub fn default_port_file_path<P>(grok_home: Option<P>, home: Option<P>) -> (r: PathPlan<P>)
    ensures
        match (grok_home, home) {
            (Some(p), _) => r.is(PathBase::Given(p), seq![DEFAULT_PORT_FILE_NAME]),
            (None, Some(p)) => r.is(
                PathBase::Given(p),
                seq![GROK_DIR_NAME, DEFAULT_PORT_FILE_NAME],
            ),
            (None, None) => r.is(PathBase::Relative, seq![GROK_DIR_NAME, DEFAULT_PORT_FILE_NAME]),
        },
        r.is(
            port_path(None, None, false, grok_home, home).0,
            port_path(None, None, false, grok_home, home).1,
        ),
{
    match grok_home {
        Some(p) => path_below(PathBase::Given(p), DEFAULT_PORT_FILE_NAME),
        None => {
            let base = match home {
                Some(p) => PathBase::Given(p),
                None => PathBase::Relative,
            };
            path_two_below(base, GROK_DIR_NAME, DEFAULT_PORT_FILE_NAME)
        },
    }
}

/// Where the port file is: where the environment says, unless it says nothing
/// or an empty path, else at the default.
pub fn port_file_from_env<P>(
    named: Option<P>,
    named_is_empty: bool,
    grok_home: Option<P>,
    home: Option<P>,
) -> (r: PathPlan<P>)
    ensures
        match (named, grok_home, home) {
            (Some(p), _, _) if !named_is_empty => r.is(PathBase::Given(p), Seq::empty()),
            (_, Some(p), _) => r.is(PathBase::Given(p), seq![DEFAULT_PORT_FILE_NAME]),
            (_, None, Some(p)) => r.is(
                PathBase::Given(p),
                seq![GROK_DIR_NAME, DEFAULT_PORT_FILE_NAME],
            ),
            (_, None, None) => r.is(
                PathBase::Relative,
                seq![GROK_DIR_NAME, DEFAULT_PORT_FILE_NAME],
            ),
        },
        r.is(
            port_path(None, named, named_is_empty, grok_home, home).0,
            port_path(None, named, named_is_empty, grok_home, home).1,
        ),
{
    if let Some(p) = named {
        if !named_is_empty {
            return path_at(PathBase::Given(p));
        }
    }
    default_port_file_path(grok_home, home)
}

/// Where the port file is: where the command line says, else as
/// [`port_file_from_env`] finds it.
pub fn port_file_location<P>(
    flag: Option<P>,
    named: Option<P>,
    named_is_empty: bool,
    grok_home: Option<P>,
    home: Option<P>,
) -> (r: PathPlan<P>)
    ensures
        match (flag, named, grok_home, home) {
            (Some(p), _, _, _) => r.is(PathBase::Given(p), Seq::empty()),
            (None, Some(p), _, _) if !named_is_empty => r.is(PathBase::Given(p), Seq::empty()),
            (None, _, Some(p), _) => r.is(PathBase::Given(p), seq![DEFAULT_PORT_FILE_NAME]),
            (None, _, None, Some(p)) => r.is(
                PathBase::Given(p),
                seq![GROK_DIR_NAME, DEFAULT_PORT_FILE_NAME],
            ),
            (None, _, None, None) => r.is(
                PathBase::Relative,
                seq![GROK_DIR_NAME, DEFAULT_PORT_FILE_NAME],
            ),
        },
        r.is(
            port_path(flag, named, named_is_empty, grok_home, home).0,
            port_path(flag, named, named_is_empty, grok_home, home).1,
        ),
{
    match flag {
        Some(p) => path_at(PathBase::Given(p)),
        None => port_file_from_env(named, named_is_empty, grok_home, home),
    }
}

/// The port in the text of a port file: its first word, where that is a decimal
/// port other than zero.
pub open spec fn parsed_port(s: Seq<char>) -> Option<int> {
    text::value_within(text::unsigned_value(text::first_word(text::trimmed(s))), 1, 65535)
}

/// Reads the text of a port file.
pub fn parse_port_file_contents(s: &str) -> (r: Option<u16>)
    ensures
        match r {
            Some(p) => parsed_port(s@) == Some(p as int),
            None => parsed_port(s@) is None,
        },
{
    let first = text::word(text::trim(s).as_str());
    match text::parse_unsigned(first.as_str(), 65535) {
        Some(p) => if p == 0 {
            None
        } else {
            Some(p as u16)
        },
        None => None,
    }
}

/// The text of the port file of a port.
pub open spec fn port_text(port: int) -> Seq<char> {
    text::decimal(port as nat) + "\n"@
}

/// The text of the port file of a port.
pub fn port_file_contents(port: u16) -> (r: String)
    ensures
        r@ == port_text(port as int),
{
    text::join(text::to_decimal(port as u64).as_str(), "\n")
}

/// Which port is to be used.
pub ghost enum PortChoice {
    Port(int),
    /// Any free one.
    Free,
}

/// Which port is to be used, without a port file or with one of this text. An
/// explicit port comes first, and an explicit zero asks for a free one; then
/// comes the port file, or the default where there is none.
pub open spec fn port_choice(
    explicit_port: Option<u16>,
    default_port: u16,
    port_file: Option<Option<Seq<char>>>,
) -> PortChoice {
    match explicit_port {
        Some(p) => if p == 0 {
            PortChoice::Free
        } else {
            PortChoice::Port(p as int)
        },
        None => match port_file {
            None => if default_port == 0 {
                PortChoice::Free
            } else {
                PortChoice::Port(default_port as int)
            },
            Some(contents) => match contents {
                Some(s) => match parsed_port(s) {
                    Some(p) => PortChoice::Port(p),
                    None => PortChoice::Free,
                },
                None => PortChoice::Free,
            },
        },
    }
}

/// What is to be done about the port.
#[derive(Debug, Clone, PartialEq, Eq)]
pub enum PortPlan<P> {
    /// This port is to be used.
    Ready(PortResolution<P>),
    /// A free port is to be found; it goes to this port file, if any.
    NeedsFreePort(Option<P>),
}

impl<P> PortPlan<P> {
    /// The port to be used, where it is known without looking for a free one.
    pub fn ready(self) -> (r: Option<PortResolution<P>>)
        ensures
            match self {
                PortPlan::Ready(res) => r == Some(res),
                PortPlan::NeedsFreePort(_) => r is None,
            },
    {
        match self {
            PortPlan::Ready(res) => Some(res),
            PortPlan::NeedsFreePort(_) => None,
        }
    }

    /// The port to be used, a free one where one was asked for.
    pub fn with_free_port(self, free_port: u16) -> (r: PortResolution<P>)
        ensures
            match self {
                PortPlan::Ready(res) => r == res,
                PortPlan::NeedsFreePort(path) => r == (PortResolution {
                    port: free_port,
                    wrote_file: path is Some,
                    path,
                }),
            },
    {
        match self {
            PortPlan::Ready(res) => res,
            PortPlan::NeedsFreePort(path) => PortResolution {
                port: free_port,
                wrote_file: path.is_some(),
                path,
            },
        }
    }
}

/// The text of an optional port file.
pub open spec fn file_text<P>(port_file: Option<PortFile<P>>) -> Option<Option<Seq<char>>> {
    match port_file {
        Some(f) => Some(text::opt_string(f.contents)),
        None => None,
    }
}

/// The path of an optional port file.
pub open spec fn file_path<P>(port_file: Option<PortFile<P>>) -> Option<P> {
    match port_file {
        Some(f) => Some(f.path),
        None => None,
    }
}

/// Settles which port is to be served on; with a port file, the port is to be
/// written to it.
pub fn resolve_listen_port<P>(
    explicit_port: Option<u16>,
    default_port: u16,
    port_file: Option<PortFile<P>>,
) -> (r: PortPlan<P>)
    ensures
        match port_choice(explicit_port, default_port, file_text(port_file)) {
            PortChoice::Port(p) => r == PortPlan::Ready(
                PortResolution {
                    port: p as u16,
                    wrote_file: port_file is Some,
                    path: file_path(port_file),
                },
            ),
            PortChoice::Free => r == PortPlan::NeedsFreePort(file_path(port_file)),
        },
{
    let (path, sticky) = match port_file {
        Some(f) => {
            let sticky = match f.contents {
                Some(s) => parse_port_file_contents(s.as_str()),
                None => None,
            };
            (Some(f.path), sticky)
        },
        None => (
            None,
            if default_port == 0 {
                None
            } else {
                Some(default_port)
            },
        ),
    };
    let port = match explicit_port {
        Some(p) => if p == 0 {
            None
        } else {
            Some(p)
        },
        None => sticky,
    };
    match port {
        Some(port) => PortPlan::Ready(
            PortResolution { port, wrote_file: path.is_some(), path },
        ),
        None => PortPlan::NeedsFreePort(path),
    }
}

/// What is to be done before serving: which port, and whether earlier servers
/// on it are to be stopped first.
pub struct StickyPlan<P> {
    pub port: PortPlan<P>,
    pub stop_earlier: bool,
}

/// Settles which port is to be served on; on a sticky port an earlier server is
/// to be stopped first.
pub fn prepare_sticky_port<P>(
    explicit_port: Option<u16>,
    default_port: u16,
    port_file: Option<PortFile<P>>,
) -> (r: StickyPlan<P>)
    ensures
        match port_choice(explicit_port, default_port, file_text(port_file)) {
            PortChoice::Port(p) => r.port == PortPlan::Ready(
                PortResolution {
                    port: p as u16,
                    wrote_file: port_file is Some,
                    path: file_path(port_file),
                },
            ),
            PortChoice::Free => r.port == PortPlan::NeedsFreePort(file_path(port_file)),
        },
        r.stop_earlier == (port_file is Some),
{
    let stop_earlier = port_file.is_some();
    StickyPlan { port: resolve_listen_port(explicit_port, default_port, port_file), stop_earlier }
}

/// Whether a command line looks like the serve binary's.
pub open spec fn is_serve_command(cmdline: Seq<char>) -> bool {
    text::occurs("grok-anthropic-serve"@, text::lowered(cmdline)) || text::occurs(
        "xai-grok-anthropic-bridge"@,
        text::lowered(cmdline),
    )
}

/// Whether a command line looks like the serve binary's.
pub fn is_our_serve_process(cmdline: &str) -> (r: bool)
    ensures
        r == is_serve_command(cmdline@),
{
    text::contains_in_lower(cmdline, "grok-anthropic-serve") || text::contains_in_lower(
        cmdline,
        "xai-grok-anthropic-bridge",
    )
}

/// The process ids in lines of text.
pub open spec fn pids_in(lines: Seq<Seq<char>>) -> Seq<u32>
    decreases lines.len(),
{
    if lines.len() == 0 {
        Seq::empty()
    } else {
        let before = pids_in(lines.drop_last());
        match text::value_within(
            text::unsigned_value(text::trimmed(lines.last())),
            0,
            u32::MAX as int,
        ) {
            Some(n) => before.push(n as u32),
            None => before,
        }
    }
}

/// The process ids that a listing reports, one on a line; other lines are
/// passed over.
pub fn parse_pids(output: &str) -> (r: Vec<u32>)
    ensures
        r@ == pids_in(text::pieces(output@, '\n')),
{
    let lines = text::split(output, '\n');
    let ghost all = text::pieces(output@, '\n');
    let mut pids: Vec<u32> = Vec::new();
    let mut i: usize = 0;
    assert(pids@ =~= pids_in(all.take(0)));
    while i < lines.len()
        invariant
            i <= lines@.len(),
            lines@.len() == all.len(),
            forall|j: int| 0 <= j < lines@.len() ==> (#[trigger] lines@[j])@ == all[j],
            pids@ == pids_in(all.take(i as int)),
        decreases lines@.len() - i,
    {
        assert(all.take(i as int + 1).drop_last() =~= all.take(i as int));
        assert(all.take(i as int + 1).last() == lines@[i as int]@);
        if let Some(pid) = text::parse_unsigned(text::trim(lines[i].as_str()).as_str(), 4294967295) {
            pids.push(pid as u32);
        }
        i += 1;
    }
    assert(all.take(i as int) =~= all);
    pids
}

/// A process that listens on a port.
#[derive(Debug, Clone, PartialEq, Eq)]
pub struct Listener {
    pub pid: u32,
    /// Its command line; empty where it is not known.
    pub cmdline: String,
}

/// Whether a listener is to be stopped: never this process itself, and only
/// servers of this kind where `only_ours`.
pub open spec fn to_be_stopped(l: Listener, own_pid: u32, only_ours: bool) -> bool {
    l.pid != own_pid && (only_ours ==> is_serve_command(l.cmdline@))
}

/// The ids of the listeners that are to be stopped.
pub open spec fn stopped_pids(listeners: Seq<Listener>, own_pid: u32, only_ours: bool) -> Seq<u32>
    decreases listeners.len(),
{
    if listeners.len() == 0 {
        Seq::empty()
    } else {
        let before = stopped_pids(listeners.drop_last(), own_pid, only_ours);
        if to_be_stopped(listeners.last(), own_pid, only_ours) {
            before.push(listeners.last().pid)
        } else {
            before
        }
    }
}

/// Picks the listeners on a port that are to be stopped.
pub fn pids_to_stop(listeners: &Vec<Listener>, own_pid: u32, only_ours: bool) -> (r: Vec<u32>)
    ensures
        r@ == stopped_pids(listeners@, own_pid, only_ours),
{
    let mut pids: Vec<u32> = Vec::new();
    let mut i: usize = 0;
    assert(pids@ =~= stopped_pids(listeners@.take(0), own_pid, only_ours));
    while i < listeners.len()
        invariant
            i <= listeners@.len(),
            pids@ == stopped_pids(listeners@.take(i as int), own_pid, only_ours),
        decreases listeners@.len() - i,
    {
        assert(listeners@.take(i as int + 1).drop_last() =~= listeners@.take(i as int));
        let l = &listeners[i];
        if l.pid != own_pid && (!only_ours || is_our_serve_process(l.cmdline.as_str())) {
            pids.push(l.pid);
        }
        i += 1;
    }
    assert(listeners@.take(i as int) =~= listeners@);
    pids
}

/// This process is never among the stopped ones, and nothing foreign is where
/// only servers of this kind are to be stopped.
pub proof fn only_other_servers_are_stopped(
    listeners: Seq<Listener>,
    own_pid: u32,
    only_ours: bool,
    i: int,
)
    requires
        0 <= i < stopped_pids(listeners, own_pid, only_ours).len(),
    ensures
        exists|j: int|
            0 <= j < listeners.len() && (#[trigger] listeners[j]).pid == stopped_pids(
                listeners,
                own_pid,
                only_ours,
            )[i] && to_be_stopped(listeners[j], own_pid, only_ours),
        stopped_pids(listeners, own_pid, only_ours)[i] != own_pid,
    decreases listeners.len(),
{
    let n = listeners.len() - 1;
    let earlier = listeners.drop_last();
    let before = stopped_pids(earlier, own_pid, only_ours);
    if i < before.len() {
        only_other_servers_are_stopped(earlier, own_pid, only_ours, i);
        let j = choose|j: int|
            0 <= j < earlier.len() && (#[trigger] earlier[j]).pid == before[i] && to_be_stopped(
                earlier[j],
                own_pid,
                only_ours,
            );
        assert(listeners[j] == earlier[j]);
    } else {
        assert(listeners[n] == listeners.last());
    }
}

/// A port that was written to a port file is read back from it.
pub proof fn a_written_port_is_read_back(port: int)
    requires
        1 <= port <= 65535,
    ensures
        parsed_port(port_text(port)) == Some(port),
{
    let d = text::decimal(port as nat);
    let s = port_text(port);
    reveal_strlit("\n");
    text::decimal_reads_back(port as nat);
    text::digits_hold_no_white_space(d);
    assert(s.last() == '\n');
    assert(s.drop_last() =~= d);
    assert(text::is_digit(d[0]));
    assert(s[0] == d[0]);
    assert(text::trimmed_start(s) == s);
    assert(text::is_digit(d.last()));
    assert(text::trimmed_end(s) == text::trimmed_end(d));
    assert(text::trimmed_end(d) == d);
}

/// A port is sticky: once it was written to the port file, a start without an
/// explicit port uses it again, whatever the default.
pub proof fn a_port_is_sticky(port: int, default_port: u16)
    requires
        1 <= port <= 65535,
    ensures
        port_choice(None, default_port, Some(Some(port_text(port)))) == PortChoice::Port(port),
{
    a_written_port_is_read_back(port);
}

/// The port of a port file is the number that its first word stands for,
/// whatever follows that word, where it is a port.
pub proof fn the_first_word_is_the_port(a: Seq<char>, digits: Seq<char>, rest: Seq<char>)
    requires
        forall|i: int| 0 <= i < a.len() ==> text::is_white_space(#[trigger] a[i]),
        text::is_digits(digits),
        rest.len() > 0 ==> text::is_white_space(rest[0]),
    ensures
        1 <= text::digits_value(digits) <= 65535 ==> parsed_port(a + digits + rest) == Some(
            text::digits_value(digits) as int,
        ),
        text::digits_value(digits) == 0 || text::digits_value(digits) > 65535 ==> parsed_port(
            a + digits + rest,
        ) is None,
{
    assert forall|i: int| 0 <= i < digits.len() implies !text::is_white_space(
        #[trigger] digits[i],
    ) by {
        assert(text::is_digit(digits[i]));
    }
    text::the_first_word_of_a_text(a, digits, rest);
    assert(text::is_digit(digits[0]));
}

/// A port file whose first word is no number holds no port.
pub proof fn other_words_are_no_port(a: Seq<char>, word: Seq<char>, rest: Seq<char>, at: int)
    requires
        forall|i: int| 0 <= i < a.len() ==> text::is_white_space(#[trigger] a[i]),
        forall|i: int| 0 <= i < word.len() ==> !text::is_white_space(#[trigger] word[i]),
        rest.len() > 0 ==> text::is_white_space(rest[0]),
        0 <= at < word.len(),
        !('0' <= word[at] <= '9'),
        at > 0 || word[0] != '+',
    ensures
        parsed_port(a + word + rest) is None,
{
    text::the_first_word_of_a_text(a, word, rest);
    if at > 0 || word[0] != '-' {
        text::only_digits_are_numbers(word, at);
    }
}

/// What settles the port, in order: an explicit one, where zero asks for a free
/// one; the port file, where there is one, and a free port where it holds none;
/// the default, where zero asks for a free one.
pub proof fn what_settles_the_port(
    explicit: u16,
    default_port: u16,
    file: Option<Option<Seq<char>>>,
    contents: Seq<char>,
)
    ensures
        explicit > 0 ==> port_choice(Some(explicit), default_port, file) == PortChoice::Port(
            explicit as int,
        ),
        port_choice(Some(0), default_port, file) is Free,
        parsed_port(contents) matches Some(p) ==> port_choice(
            None,
            default_port,
            Some(Some(contents)),
        ) == PortChoice::Port(p),
        parsed_port(contents) is None ==> port_choice(
            None,
            default_port,
            Some(Some(contents)),
        ) is Free,
        port_choice(None, default_port, Some(None)) is Free,
        default_port > 0 ==> port_choice(None, default_port, None) == PortChoice::Port(
            default_port as int,
        ),
        port_choice(None, 0, None) is Free,
{
}

/// A command line that names the serve binary or its package, in letters of
/// either case, is taken for one of these servers; any other is not.
pub proof fn servers_are_told_by_name(a: Seq<char>, word: Seq<char>, b: Seq<char>)
    ensures
        text::lowered(word) == "grok-anthropic-serve"@ || text::lowered(word)
            == "xai-grok-anthropic-bridge"@ ==> is_serve_command(a + word + b),
        is_serve_command(a) ==> exists|i: int, j: int|
            0 <= i <= j <= a.len() && (text::lowered(#[trigger] a.subrange(i, j))
                == "grok-anthropic-serve"@ || text::lowered(a.subrange(i, j))
                == "xai-grok-anthropic-bridge"@),
{
    text::a_part_occurs(a, word, b);
    if is_serve_command(a) {
        let part = if text::occurs("grok-anthropic-serve"@, text::lowered(a)) {
            "grok-anthropic-serve"@
        } else {
            "xai-grok-anthropic-bridge"@
        };
        let i = choose|i: int| #[trigger] text::occurs_at(part, text::lowered(a), i);
        let j = i + part.len();
        assert(text::lowered(a.subrange(i, j)) =~= text::lowered(a).subrange(i, j));
    }
}

/// A listing gives one process id for each line that is a number, in order, with
/// white space around it or not; a line that is none gives nothing.
pub proof fn every_numbered_line_is_a_process(
    lines: Seq<Seq<char>>,
    a: Seq<char>,
    n: u32,
    b: Seq<char>,
    other: Seq<char>,
)
    requires
        forall|i: int| 0 <= i < a.len() ==> text::is_white_space(#[trigger] a[i]),
        forall|i: int| 0 <= i < b.len() ==> text::is_white_space(#[trigger] b[i]),
        text::unsigned_value(text::trimmed(other)) is None,
    ensures
        pids_in(Seq::empty()) == Seq::<u32>::empty(),
        pids_in(lines.push(a + text::decimal(n as nat) + b)) == pids_in(lines).push(n),
        pids_in(lines.push(other)) == pids_in(lines),
{
    let d = text::decimal(n as nat);
    text::decimal_reads_back(n as nat);
    text::numbers_read_back(n as nat);
    assert(text::is_digit(d[0]) && text::is_digit(d[d.len() - 1]));
    text::trimming_leaves_what_is_between(a, d, b);
    assert(lines.push(a + d + b).drop_last() =~= lines);
    assert(lines.push(other).drop_last() =~= lines);
}

/// Every listener but this process is stopped, or every such server where only
/// servers of this kind are to be, each once and in order.
pub proof fn every_other_server_is_stopped(
    listeners: Seq<Listener>,
    l: Listener,
    own_pid: u32,
    only_ours: bool,
)
    ensures
        stopped_pids(Seq::empty(), own_pid, only_ours) == Seq::<u32>::empty(),
        l.pid == own_pid || (only_ours && !is_serve_command(l.cmdline@)) ==> stopped_pids(
            listeners.push(l),
            own_pid,
            only_ours,
        ) == stopped_pids(listeners, own_pid, only_ours),
        l.pid != own_pid && (!only_ours || is_serve_command(l.cmdline@)) ==> stopped_pids(
            listeners.push(l),
            own_pid,
            only_ours,
        ) == stopped_pids(listeners, own_pid, only_ours).push(l.pid),
{
    assert(listeners.push(l).drop_last() =~= listeners);
}

/// The port file and the variable that names it are called as they are.
pub proof fn the_port_file_is_named()
    ensures
        PORT_FILE_ENV@ == "GROK_ANTHROPIC_SERVE_PORT_FILE"@,
        DEFAULT_PORT_FILE_NAME@ == "anthropic-serve.port"@,
{
}

/// The port file is where the command line says, whatever else there is; else
/// where the environment says, unless it says nothing; else it has its own name
/// in Grok's directory, which is `.grok` unless it is given.
pub proof fn the_port_file_has_a_place<P>(
    p: P,
    q: P,
    flag: Option<P>,
    named: Option<P>,
    empty: bool,
    grok_home: Option<P>,
    home: Option<P>,
)
    ensures
        port_path(Some(p), named, empty, grok_home, home).0 == PathBase::Given(p),
        port_path(Some(p), named, empty, grok_home, home).1.len() == 0,
        port_path(None, Some(p), false, grok_home, home) == port_path(
            Some(p),
            named,
            empty,
            grok_home,
            home,
        ),
        port_path(None, Some(q), true, grok_home, home) == port_path(
            None,
            None,
            empty,
            grok_home,
            home,
        ),
        port_path(None, None, empty, Some(p), home).0 == PathBase::Given(p),
        port_path(None, None, empty, Some(p), home).1 =~= seq![DEFAULT_PORT_FILE_NAME],
        port_path(None, None, empty, None, Some(p)).0 == PathBase::Given(p),
        port_path(None, None, empty, None, Some(p)).1 =~= seq![
            GROK_DIR_NAME,
            DEFAULT_PORT_FILE_NAME,
        ],
        port_path::<P>(None, None, empty, None, None).0 is Relative,
        port_path::<P>(None, None, empty, None, None).1 =~= seq![
            GROK_DIR_NAME,
            DEFAULT_PORT_FILE_NAME,
        ],
{
}

/// The text and the path of a port file are its own.
pub proof fn a_port_file_is_its_fields<P>(f: PortFile<P>)
    ensures
        file_path(Some(f)) == Some(f.path),
        file_text(Some(f)) == Some(text::opt_string(f.contents)),
        file_path::<P>(None) is None,
        file_text::<P>(None) is None,
{
}

} // verus!
