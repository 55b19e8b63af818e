//! What the driver of a trace decides: the name of the socket and the
//! arguments of the emulator.

use crate::random::{is_alphanumeric, random_name};
use vstd::prelude::*;

verus! {

/// The number of random characters in the name of a socket.
pub const SOCKET_SUFFIX_LEN: usize = 8;

/// `on` or `off`.
pub open spec fn on_off(b: bool) -> Seq<char> {
    if b {
        "on"@
    } else {
        "off"@
    }
}

/// The path of the socket whose name is `name`: under `/dev/shm`, with the
/// extension `.sock`.
pub open spec fn spec_socket_path(name: Seq<char>) -> Seq<char> {
    "/dev/shm/"@ + name + ".sock"@
}

/// The path of the socket whose name is `name`.
pub fn socket_path_for(name: &str) -> (r: String)
    ensures
        r@ == spec_socket_path(name@),
{
    let mut path = String::from_str("/dev/shm/");
    path.append(name);
    path.append(".sock");
    path
}

/// A fresh path for a socket: a name of eight random letters and digits, so
/// that two traces are unlikely to meet on one socket.
pub fn fresh_socket_path() -> (r: String)
    ensures
        exists|name: Seq<char>|
            {
                &&& name.len() == SOCKET_SUFFIX_LEN
                &&& forall|i: int| 0 <= i < name.len() ==> is_alphanumeric(#[trigger] name[i])
                &&& r@ == spec_socket_path(name)
            },
{
    let name = random_name(SOCKET_SUFFIX_LEN);
    let path = socket_path_for(name.as_str());
    assert(name@.len() == SOCKET_SUFFIX_LEN && (forall|i: int|
        0 <= i < name@.len() ==> is_alphanumeric(#[trigger] name@[i])) && path@
        == spec_socket_path(name@));
    path
}

/// The text of the plugin argument of the emulator: the path of the plugin,
/// then each switch with `on` or `off`, then the socket, all separated by
/// commas.
pub open spec fn plugin_argument(
    plugin: Seq<char>,
    branches: bool,
    syscalls: bool,
    pc: bool,
    reads: bool,
    writes: bool,
    instrs: bool,
    sock: Seq<char>,
) -> Seq<char> {
    plugin + ",trace_branches="@ + on_off(branches) + ",trace_syscalls="@ + on_off(syscalls)
        + ",trace_pc="@ + on_off(pc) + ",trace_reads="@ + on_off(reads) + ",trace_writes="@
        + on_off(writes) + ",trace_instrs="@ + on_off(instrs) + ",sock_path="@ + sock
}

fn switch(b: bool) -> (r: &'static str)
    ensures
        r@ == on_off(b),
{
    if b {
        "on"
    } else {
        "off"
    }
}

/// The arguments that make the emulator load the plugin at `plugin` with
/// the given switches and have it send its events to the socket at `sock`:
/// the option `-plugin` and its value.
pub fn cannonball_args(
    plugin: String,
    branches: bool,
    syscalls: bool,
    pc: bool,
    reads: bool,
    writes: bool,
    instrs: bool,
    sock: String,
) -> (r: Vec<String>)
    ensures
        r@.len() == 2,
        r@[0]@ == "-plugin"@,
        r@[1]@ == plugin_argument(plugin@, branches, syscalls, pc, reads, writes, instrs, sock@),
{
    let mut args: Vec<String> = Vec::new();
    args.push(String::from_str("-plugin"));
    let mut value = plugin;
    value.append(",trace_branches=");
    value.append(switch(branches));
    value.append(",trace_syscalls=");
    value.append(switch(syscalls));
    value.append(",trace_pc=");
    value.append(switch(pc));
    value.append(",trace_reads=");
    value.append(switch(reads));
    value.append(",trace_writes=");
    value.append(switch(writes));
    value.append(",trace_instrs=");
    value.append(switch(instrs));
    value.append(",sock_path=");
    value.append(sock.as_str());
    args.push(value);
    args
}

} // verus!
