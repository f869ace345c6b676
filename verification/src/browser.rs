//! Where the browser's WebSocket URL comes from, and how the replies of its
//! DevTools endpoint are read.

use vstd::prelude::*;
use vstd::string::StringExecFns;
use crate::json::{chars_equal, Json};
use crate::text::{
    chars_of, decimal, parse_unsigned, parse_unsigned_chars, push_decimal, split_chars, split_on,
    string_of, trim, trim_chars, views,
};

verus! {

/// The debugging port that Arc is asked to open when no other is configured.
pub const DEFAULT_ARC_PORT: u16 = 9223;

/// Where the browser-level WebSocket URL is to be found.
pub enum WsSource {
    /// The URL was given explicitly.
    Endpoint(String),
    /// The `DevToolsActivePort` file of this user-data directory names it.
    ActivePortFile(String),
    /// Arc is probed on its debugging port, and relaunched with it when needed.
    ManagedArc,
}

/// Chooses the source of the WebSocket URL: an explicit endpoint first, then the
/// `DevToolsActivePort` file of a user-data directory, otherwise Arc itself.
pub fn resolve_ws_url(ws_endpoint: Option<&str>, user_data_dir: Option<&str>) -> (r: WsSource)
    ensures
        match ws_endpoint {
            Some(ws) => r matches WsSource::Endpoint(u) && u@ == ws@,
            None => match user_data_dir {
                Some(dir) => r matches WsSource::ActivePortFile(d) && d@ == dir@,
                None => r is ManagedArc,
            },
        },
{
    if let Some(ws) = ws_endpoint {
        return WsSource::Endpoint(String::from_str(ws));
    }
    if let Some(dir) = user_data_dir {
        return WsSource::ActivePortFile(String::from_str(dir));
    }
    WsSource::ManagedArc
}

/// The port that a setting of `ARC_DEVTOOLS_PORT` selects: its trimmed text read as a
/// `u16`, or the default port when it is unset or no such number.
pub open spec fn arc_port_of(setting: Option<Seq<char>>) -> u16 {
    match setting {
        Some(v) => match parse_unsigned(trim(v), 65535) {
            Some(p) => p as u16,
            None => DEFAULT_ARC_PORT,
        },
        None => DEFAULT_ARC_PORT,
    }
}

/// The debugging port to use, from the value of `ARC_DEVTOOLS_PORT` if it is set.
pub fn arc_port(setting: Option<&str>) -> (p: u16)
    ensures
        p == arc_port_of(
            match setting {
                Some(v) => Some(v@),
                None => None,
            },
        ),
{
    match setting {
        Some(v) => {
            let cs = chars_of(v);
            let t = trim_chars(&cs);
            match parse_unsigned_chars(&t, 65535) {
                Some(p) => p as u16,
                None => DEFAULT_ARC_PORT,
            }
        },
        None => DEFAULT_ARC_PORT,
    }
}


/// The trimmed lines of `lines` that are not blank, in order.
pub open spec fn nonblank_trimmed(lines: Seq<Seq<char>>) -> Seq<Seq<char>>
    decreases lines.len(),
{
    if lines.len() == 0 {
        Seq::empty()
    } else {
        let before = nonblank_trimmed(lines.drop_last());
        let t = trim(lines.last());
        if t.len() == 0 {
            before
        } else {
            before.push(t)
        }
    }
}

/// Why the content of a `DevToolsActivePort` file names no WebSocket URL.
pub enum ActivePortError {
    /// Fewer than two non-blank lines; carries the trimmed content.
    MissingLines(String),
    /// The first line is not a port number; carries that line.
    InvalidPort(String),
    /// The port is 0: the browser may not be running.
    PortZero,
}

/// The failures of `ActivePortError`, with their texts as character sequences.
pub enum ActivePortFailure {
    MissingLines(Seq<char>),
    InvalidPort(Seq<char>),
    PortZero,
}

impl View for ActivePortError {
    type V = ActivePortFailure;

    open spec fn view(&self) -> ActivePortFailure {
        match self {
            ActivePortError::MissingLines(t) => ActivePortFailure::MissingLines(t@),
            ActivePortError::InvalidPort(l) => ActivePortFailure::InvalidPort(l@),
            ActivePortError::PortZero => ActivePortFailure::PortZero,
        }
    }
}

/// What a `DevToolsActivePort` file with this content yields: the first two non-blank
/// lines, trimmed, are a port and a path, and the URL is `ws://127.0.0.1:<port><path>`.
pub open spec fn active_port_url(content: Seq<char>) -> Result<Seq<char>, ActivePortFailure> {
    let lines = nonblank_trimmed(split_on(content, '\n'));
    if lines.len() < 2 {
        Err(ActivePortFailure::MissingLines(trim(content)))
    } else {
        match parse_unsigned(lines[0], 65535) {
            None => Err(ActivePortFailure::InvalidPort(lines[0])),
            Some(port) => if port == 0 {
                Err(ActivePortFailure::PortZero)
            } else {
                Ok("ws://127.0.0.1:"@ + decimal(port) + lines[1])
            },
        }
    }
}

/// Reads the content of a `DevToolsActivePort` file: its first non-blank line is the
/// browser's port and its second the path of the browser's WebSocket endpoint.
pub fn parse_devtools_active_port(content: &str) -> (r: Result<String, ActivePortError>)
    ensures
        match r {
            Ok(url) => active_port_url(content@) == Ok::<Seq<char>, ActivePortFailure>(url@),
            Err(e) => active_port_url(content@) == Err::<Seq<char>, ActivePortFailure>(e@),
        },
{
    let cs = chars_of(content);
    let pieces = split_chars(&cs, '\n');
    let mut lines: Vec<Vec<char>> = Vec::new();
    let mut i: usize = 0;
    proof {
        assert(views(pieces@).take(0) =~= Seq::<Seq<char>>::empty());
        assert(views(lines@) =~= Seq::<Seq<char>>::empty());
    }
    while i < pieces.len()
        invariant
            i <= pieces@.len(),
            views(pieces@) == split_on(content@, '\n'),
            views(lines@) == nonblank_trimmed(views(pieces@).take(i as int)),
        decreases pieces@.len() - i,
    {
        let t = trim_chars(&pieces[i]);
        let ghost before = views(lines@);
        proof {
            assert(views(pieces@).take(i + 1).drop_last() == views(pieces@).take(i as int));
            assert(views(pieces@).take(i + 1).last() == pieces@[i as int]@);
        }
        if t.len() > 0 {
            lines.push(t);
            proof {
                assert(views(lines@) =~= before.push(trim(pieces@[i as int]@)));
            }
        }
        i = i + 1;
    }
    proof {
        assert(views(pieces@).take(pieces@.len() as int) == views(pieces@));
    }
    if lines.len() < 2 {
        let t = trim_chars(&cs);
        return Err(ActivePortError::MissingLines(string_of(&t)));
    }
    match parse_unsigned_chars(&lines[0], 65535) {
        None => {
            proof {
                assert(views(lines@)[0] == lines@[0]@);
            }
            Err(ActivePortError::InvalidPort(string_of(&lines[0])))
        },
        Some(port) => {
            proof {
                assert(views(lines@)[0] == lines@[0]@);
                assert(views(lines@)[1] == lines@[1]@);
            }
            if port == 0 {
                Err(ActivePortError::PortZero)
            } else {
                let mut url = String::from_str("ws://127.0.0.1:");
                push_decimal(&mut url, port as u64);
                let path = string_of(&lines[1]);
                url.append(path.as_str());
                Ok(url)
            }
        },
    }
}

/// A reply of the DevTools endpoint, as far as it is read.
pub enum EndpointReply {
    /// Nothing answered on the port.
    Unreachable,
    /// Something answered, with a body that is not JSON.
    NotJson,
    /// The JSON document of the body.
    Json(Json),
}

/// What probing the debugging port found.
pub enum ProbeOutcome {
    /// DevTools is up; its browser-level WebSocket URL.
    Up(String),
    /// Nothing is reachable on the port: Arc may be (re)launched.
    Down,
    /// Something listens on the port but is not DevTools.
    NotDevtools,
    /// The endpoint answered without a `webSocketDebuggerUrl`.
    NoDebuggerUrl,
}

/// The spec of `probe_arc`: the string member `webSocketDebuggerUrl` of the
/// `/json/version` reply, if there is one.
pub open spec fn probe_outcome(reply: EndpointReply) -> Option<Option<Seq<char>>> {
    match reply {
        EndpointReply::Unreachable => None,
        EndpointReply::NotJson => Some(None),
        EndpointReply::Json(v) => match v.field("webSocketDebuggerUrl"@) {
            Some(u) => match u.text() {
                Some(t) => Some(Some(t)),
                None => Some(None),
            },
            None => Some(None),
        },
    }
}

/// Reads the reply to `GET /json/version` on the debugging port.
pub fn probe_arc(reply: &EndpointReply) -> (r: ProbeOutcome)
    ensures
        match r {
            ProbeOutcome::Up(ws) => probe_outcome(*reply) == Some(Some(ws@)),
            ProbeOutcome::Down => *reply is Unreachable,
            ProbeOutcome::NotDevtools => *reply is NotJson,
            ProbeOutcome::NoDebuggerUrl => *reply is Json && probe_outcome(*reply) == Some(
                None::<Seq<char>>,
            ),
        },
{
    match reply {
        EndpointReply::Unreachable => ProbeOutcome::Down,
        EndpointReply::NotJson => ProbeOutcome::NotDevtools,
        EndpointReply::Json(v) => match v.get("webSocketDebuggerUrl") {
            Some(u) => match u.as_str() {
                Some(t) => ProbeOutcome::Up(t.clone()),
                None => ProbeOutcome::NoDebuggerUrl,
            },
            None => ProbeOutcome::NoDebuggerUrl,
        },
    }
}

/// A target of `/json/list` whose `type` is `page`.
pub open spec fn is_page_target(t: Json) -> bool {
    match t.field("type"@) {
        Some(k) => k.text() == Some("page"@),
        None => false,
    }
}

/// Whether a target of `/json/list` is a page.
fn page_target(t: &Json) -> (b: bool)
    ensures
        b == is_page_target(*t),
{
    match t.get("type") {
        Some(k) => match k.as_str() {
            Some(name) => {
                let cs = chars_of(name.as_str());
                let page: Vec<char> = vec!['p', 'a', 'g', 'e'];
                proof {
                    reveal_strlit("page");
                    assert(page@ == "page"@);
                }
                chars_equal(&cs, &page)
            },
            None => false,
        },
        None => false,
    }
}

/// Whether the reply to `GET /json/list` shows that no page target exists. A reply
/// that cannot be read counts as showing a page, so that nothing is opened then.
pub open spec fn lacks_page(reply: EndpointReply) -> bool {
    match reply {
        EndpointReply::Json(v) => match v.elements() {
            Some(targets) => !exists|i: int| 0 <= i < targets.len() && is_page_target(#[trigger] targets[i]),
            None => false,
        },
        _ => false,
    }
}

/// Whether a blank page must be opened because the browser lists no page target.
pub fn ensure_page(reply: &EndpointReply) -> (open_blank: bool)
    ensures
        open_blank == lacks_page(*reply),
{
    match reply {
        EndpointReply::Json(v) => match v.as_array() {
            Some(targets) => {
                let mut i: usize = 0;
                proof {
                    let ts = v.elements()->0;
                    assert(ts == targets@);
                    if exists|k: int| 0 <= k < ts.len() && is_page_target(#[trigger] ts[k]) {
                        let k = choose|k: int| 0 <= k < ts.len() && is_page_target(#[trigger] ts[k]);
                        assert(is_page_target(targets@[k]));
                    }
                    if exists|k: int| 0 <= k < targets@.len() && is_page_target(#[trigger] targets@[k]) {
                        let k = choose|k: int| 0 <= k < targets@.len() && is_page_target(#[trigger] targets@[k]);
                        assert(is_page_target(ts[k]));
                    }
                }
                while i < targets.len()
                    invariant
                        i <= targets@.len(),
                        v.elements() == Some(targets@),
                        lacks_page(*reply) == !exists|k: int|
                            0 <= k < targets@.len() && is_page_target(#[trigger] targets@[k]),
                        forall|k: int| 0 <= k < i ==> !is_page_target(#[trigger] targets@[k]),
                    decreases targets@.len() - i,
                {
                    let is_page = page_target(&targets[i]);
                    if is_page {
                        return false;
                    }
                    i = i + 1;
                }
                true
            },
            None => false,
        },
        _ => false,
    }
}

} // verus!
