//! The Hyprland compositor's IPC protocol: the records it answers with and
//! the lines of its event socket.
//!
//! Sockets are opened and read by the caller; this module names the socket
//! files, frames commands, cleans up replies and reads event lines of the
//! form `EVENT>>data`.
use vstd::prelude::*;
use vstd::string::*;
use crate::text::{
    equals, find, find_spec, matches_at, parse_i32, parse_i32_spec, starts_with, trim, trim_spec,
};

verus! {

/// Hyprland workspace info.
#[derive(Debug, Clone, PartialEq, Eq)]
pub struct Workspace {
    pub id: i32,
    pub name: String,
    pub monitor: String,
    pub windows: u32,
}

/// Hyprland window info.
#[derive(Debug, Clone, PartialEq, Eq)]
pub struct Window {
    pub address: String,
    pub title: String,
    pub class: String,
    pub workspace: i32,
    pub pid: u32,
}

/// Hyprland events.
#[derive(Debug, Clone, PartialEq, Eq)]
pub enum HyprlandEvent {
    WorkspaceChanged { id: i32 },
    WindowOpened { address: String },
    WindowClosed { address: String },
    WindowMoved { address: String, workspace: i32 },
    MonitorAdded { name: String },
    MonitorRemoved { name: String },
}

/// A number in an event's data: the `i32` it denotes, or 0 where it is none.
pub open spec fn number_or_zero(s: Seq<char>) -> int {
    match parse_i32_spec(s) {
        Some(v) => v,
        None => 0,
    }
}

/// The part of `s` before the first `sep`, or all of `s` where there is none
/// (the first item of `s.split(sep)`).
pub open spec fn before_sep(s: Seq<char>, sep: Seq<char>) -> Seq<char> {
    let i = find_spec(s, sep);
    if i == -1 {
        s
    } else {
        s.subrange(0, i)
    }
}

/// The second item of `s.split(',')`, if there is one.
pub open spec fn second_field(s: Seq<char>) -> Option<Seq<char>> {
    let i = find_spec(s, ","@);
    if i == -1 {
        None
    } else {
        Some(before_sep(s.subrange(i + 1, s.len() as int), ","@))
    }
}

/// `r` is what an event line gives: the trimmed line is split at its first
/// `>>` into event name and data; an unknown name or a line without `>>`
/// gives no event.
pub open spec fn event_of_line(r: Option<HyprlandEvent>, line: Seq<char>) -> bool {
    let t = trim_spec(line);
    let i = find_spec(t, ">>"@);
    if i == -1 {
        r is None
    } else {
        let name = t.subrange(0, i);
        let data = t.subrange(i + 2, t.len() as int);
        if name == "workspace"@ {
            r == Some(HyprlandEvent::WorkspaceChanged { id: number_or_zero(data) as i32 })
        } else if name == "openwindow"@ {
            r matches Some(HyprlandEvent::WindowOpened { address }) && address@ == data
        } else if name == "closewindow"@ {
            r matches Some(HyprlandEvent::WindowClosed { address }) && address@ == data
        } else if name == "movewindow"@ {
            r matches Some(HyprlandEvent::WindowMoved { address, workspace }) && address@
                == before_sep(data, ","@) && workspace as int == match second_field(data) {
                Some(f) => number_or_zero(f),
                None => 0,
            }
        } else if name == "monitoradded"@ {
            r matches Some(HyprlandEvent::MonitorAdded { name: n }) && n@ == data
        } else if name == "monitorremoved"@ {
            r matches Some(HyprlandEvent::MonitorRemoved { name: n }) && n@ == data
        } else {
            r is None
        }
    }
}

/// A number in an event's data, 0 where it is none.
fn read_number_or_zero(s: &str) -> (r: i32)
    ensures
        r as int == number_or_zero(s@),
{
    match parse_i32(s) {
        Some(v) => v,
        None => 0,
    }
}

/// The part of `s` before its first `,` (or all of it).
fn read_before_comma(s: &str) -> (r: &str)
    ensures
        r@ == before_sep(s@, ","@),
{
    proof {
        reveal_strlit(",");
    }
    match find(s, ",") {
        Some(i) => s.substring_char(0, i),
        None => s,
    }
}

impl HyprlandEvent {
    /// Reads one line of the event socket (`EVENT>>data`).
    pub fn parse_line(line: &str) -> (r: Option<HyprlandEvent>)
        ensures
            event_of_line(r, line@),
    {
        proof {
            reveal_strlit(">>");
            reveal_strlit(",");
        }
        let t = trim(line);
        let n = t.unicode_len();
        let i = match find(t, ">>") {
            Some(i) => i,
            None => {
                return None;
            },
        };
        let name = t.substring_char(0, i);
        let data = t.substring_char(i + 2, n);
        if equals(name, "workspace") {
            Some(HyprlandEvent::WorkspaceChanged { id: read_number_or_zero(data) })
        } else if equals(name, "openwindow") {
            Some(HyprlandEvent::WindowOpened { address: String::from_str(data) })
        } else if equals(name, "closewindow") {
            Some(HyprlandEvent::WindowClosed { address: String::from_str(data) })
        } else if equals(name, "movewindow") {
            let address = String::from_str(read_before_comma(data));
            let dn = data.unicode_len();
            let workspace = match find(data, ",") {
                Some(c) => read_number_or_zero(read_before_comma(data.substring_char(c + 1, dn))),
                None => 0,
            };
            Some(HyprlandEvent::WindowMoved { address, workspace })
        } else if equals(name, "monitoradded") {
            Some(HyprlandEvent::MonitorAdded { name: String::from_str(data) })
        } else if equals(name, "monitorremoved") {
            Some(HyprlandEvent::MonitorRemoved { name: String::from_str(data) })
        } else {
            None
        }
    }
}

/// The bytes written to the command socket for `command`: the command and a newline.
pub fn command_request(command: &str) -> (r: String)
    ensures
        r@ == command@ + "\n"@,
{
    let mut out = String::from_str(command);
    out.append("\n");
    out
}

/// The reply of the command socket with surrounding whitespace removed.
pub fn command_reply(raw: &str) -> (r: String)
    ensures
        r@ == trim_spec(raw@),
{
    String::from_str(trim(raw))
}

/// A path with one more component, joined as a Unix path buffer does it: an
/// absolute component (one that starts with `/`) replaces the path;
/// otherwise a `/` is put between them unless the path is empty or already
/// ends with one.
pub open spec fn path_join(base: Seq<char>, comp: Seq<char>) -> Seq<char> {
    if comp.len() > 0 && comp[0] == '/' {
        comp
    } else if base.len() > 0 && base.last() != '/' {
        base + "/"@ + comp
    } else {
        base + comp
    }
}

/// Joining keeps both parts: the result ends with the component, and where
/// the component is relative it starts with the path, with at most one `/`
/// put between them; an absolute component is the whole result.
pub proof fn lemma_path_join(base: Seq<char>, comp: Seq<char>)
    ensures
        ({
            let r = path_join(base, comp);
            &&& comp.len() <= r.len()
            &&& r.subrange(r.len() - comp.len(), r.len() as int) == comp
            &&& (comp.len() > 0 && comp[0] == '/') ==> r == comp
            &&& !(comp.len() > 0 && comp[0] == '/') ==> (base.len() <= r.len() && r.subrange(
                0,
                base.len() as int,
            ) == base && (r.len() == base.len() + comp.len() || (r.len() == base.len()
                + comp.len() + 1 && r[base.len() as int] == '/')))
        }),
{
    reveal_strlit("/");
    let r = path_join(base, comp);
    if !(comp.len() > 0 && comp[0] == '/') {
        assert(r.subrange(0, base.len() as int) =~= base);
        if base.len() > 0 && base.last() != '/' {
            assert(r[base.len() as int] == '/');
        }
    }
    assert(r.subrange(r.len() - comp.len(), r.len() as int) =~= comp);
}

/// The directory of a compositor instance's sockets:
/// `<runtime_dir>/hypr/<signature>`.
pub open spec fn socket_dir_spec(runtime_dir: Seq<char>, signature: Seq<char>) -> Seq<char> {
    path_join(path_join(runtime_dir, "hypr"@), signature)
}

/// Joins a component to a path (see `path_join`).
pub fn join_path(base: &str, comp: &str) -> (r: String)
    ensures
        r@ == path_join(base@, comp@),
{
    proof {
        reveal_strlit("/");
    }
    let absolute = starts_with(comp, "/");
    proof {
        assert("/"@ =~= seq!['/']);
        if comp@.len() > 0 {
            assert(comp@.subrange(0, 1) =~= seq![comp@[0]]);
            if comp@[0] == '/' {
                assert(comp@.subrange(0, 1) =~= "/"@);
            }
            if absolute {
                assert(comp@.subrange(0, 1)[0] == "/"@[0]);
            }
        }
        assert(absolute <==> (comp@.len() > 0 && comp@[0] == '/'));
    }
    if absolute {
        return String::from_str(comp);
    }
    let n = base.unicode_len();
    let mut out = String::from_str(base);
    if n > 0 && base.get_char(n - 1) != '/' {
        out.append("/");
    }
    out.append(comp);
    out
}

/// The command socket of a compositor instance:
/// `<runtime_dir>/hypr/<signature>/.socket.sock`.
pub fn command_socket_path(runtime_dir: &str, signature: &str) -> (r: String)
    ensures
        r@ == path_join(socket_dir_spec(runtime_dir@, signature@), ".socket.sock"@),
{
    let hypr = join_path(runtime_dir, "hypr");
    let dir = join_path(hypr.as_str(), signature);
    join_path(dir.as_str(), ".socket.sock")
}

/// The event socket of a compositor instance, beside its command socket:
/// `<runtime_dir>/hypr/<signature>/.socket2.sock`.
pub fn event_socket_path(runtime_dir: &str, signature: &str) -> (r: String)
    ensures
        r@ == path_join(socket_dir_spec(runtime_dir@, signature@), ".socket2.sock"@),
{
    let hypr = join_path(runtime_dir, "hypr");
    let dir = join_path(hypr.as_str(), signature);
    join_path(dir.as_str(), ".socket2.sock")
}

/// The two sockets of an instance lie in one directory: each is that
/// directory, a `/` and the socket's file name.
pub proof fn lemma_sockets_share_directory(runtime_dir: Seq<char>, signature: Seq<char>)
    requires
        socket_dir_spec(runtime_dir, signature).len() > 0,
        socket_dir_spec(runtime_dir, signature).last() != '/',
    ensures
        path_join(socket_dir_spec(runtime_dir, signature), ".socket.sock"@) == socket_dir_spec(
            runtime_dir,
            signature,
        ) + "/.socket.sock"@,
        path_join(socket_dir_spec(runtime_dir, signature), ".socket2.sock"@) == socket_dir_spec(
            runtime_dir,
            signature,
        ) + "/.socket2.sock"@,
{
    reveal_strlit(".socket.sock");
    reveal_strlit(".socket2.sock");
    reveal_strlit("/.socket.sock");
    reveal_strlit("/.socket2.sock");
    reveal_strlit("/");
    let d = socket_dir_spec(runtime_dir, signature);
    assert(d + "/"@ + ".socket.sock"@ =~= d + "/.socket.sock"@);
    assert(d + "/"@ + ".socket2.sock"@ =~= d + "/.socket2.sock"@);
}

} // verus!
