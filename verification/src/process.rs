//! Single processes: what a snapshot tells of one, and what is done to them.
use crate::process_tree::WindowsProcessEntry;
use crate::utf16::decode_utf16;
use crate::utf16::decode_utf16_lossy;
use crate::utf16::nul_terminated_utf16_to_string;
use crate::utf16;
use vstd::prelude::*;
use vstd::string::*;

verus! {

/// The exit code of a process that has not ended.
pub const STILL_ACTIVE: u32 = 259;

/// Whether a process exists: `exit_code` is its exit code, where it could be opened and
/// asked for it.
pub fn process_exists(exit_code: Option<u32>) -> (res: bool)
    ensures
        res == (exit_code == Some(STILL_ACTIVE)),
        res == (exit_code == Some(259u32)),
{
    match exit_code {
        Some(code) => code == STILL_ACTIVE,
        None => false,
    }
}

/// Whether a process of this number can be opened: zero stands for no process.
pub fn can_open(pid: u32) -> (res: bool)
    ensures
        res == (pid != 0),
{
    pid != 0
}

/// What processes are told.
#[derive(Debug, Clone, Copy, PartialEq, Eq, Structural)]
pub enum Signal {
    Hangup,
    Terminate,
    Kill,
}

/// The numbers that stand for processes, in order.
pub open spec fn openable(pids: Seq<u32>) -> Seq<u32>
    decreases pids.len(),
{
    if pids.len() == 0 {
        Seq::empty()
    } else if pids.last() != 0 {
        openable(pids.drop_last()).push(pids.last())
    } else {
        openable(pids.drop_last())
    }
}

/// The processes that a signal ends, in order: a hangup ends none, and any other
/// signal all of them.
pub fn signal_processes(pids: &[u32], signal: Signal) -> (res: Vec<u32>)
    ensures
        res@ == (if signal is Hangup {
            Seq::empty()
        } else {
            openable(pids@)
        }),
{
    let mut ended: Vec<u32> = Vec::new();
    if let Signal::Hangup = signal {
        assert(ended@ =~= Seq::<u32>::empty());
        return ended;
    }
    let mut i: usize = 0;
    assert(ended@ =~= openable(pids@.take(0)));
    while i < pids.len()
        invariant
            i <= pids@.len(),
            ended@ == openable(pids@.take(i as int)),
        decreases pids@.len() - i,
    {
        assert(pids@.take(i + 1).drop_last() =~= pids@.take(i as int));
        if can_open(pids[i]) {
            ended.push(pids[i]);
        }
        i = i + 1;
    }
    assert(pids@.take(i as int) =~= pids@);
    ended
}

/// Whether a process is a detached server: it has no console window, and is known not
/// to be in a job. `in_job` tells whether it is in one, where that could be found out.
pub fn current_process_is_detached_server_daemon(has_console: bool, in_job: Option<bool>) -> (res:
    bool)
    ensures
        res == (!has_console && in_job == Some(false)),
{
    if has_console {
        return false;
    }
    match in_job {
        Some(in_job) => !in_job,
        None => false,
    }
}

/// How many units the text of another process has, whose length is given in bytes: a
/// text without a buffer, an empty one and one of an odd length are none.
pub fn unicode_string_units(has_buffer: bool, length: u16) -> (res: Option<usize>)
    ensures
        res == (if !has_buffer || length == 0 || length % 2 != 0 {
            None
        } else {
            Some((length / 2) as usize)
        }),
{
    if !has_buffer || length == 0 || length % 2 != 0 {
        None
    } else {
        Some((length / 2) as usize)
    }
}

/// The text of another process, of whose `length` bytes `bytes_read` were read into
/// `units`: all of them have to be, and be well-formed.
pub fn read_unicode_string(units: &[u16], length: u16, bytes_read: usize) -> (res: Option<String>)
    ensures
        res is Some <==> bytes_read == length && utf16::well_paired(units@),
        res matches Some(s) ==> s@ == utf16::lossy_text(units@),
{
    if bytes_read != length as usize {
        return None;
    }
    decode_utf16(units)
}

/// The texts of arguments.
pub open spec fn argument_texts(arguments: Seq<Vec<u16>>) -> Seq<Seq<char>> {
    arguments.map_values(|units: Vec<u16>| utf16::lossy_text(units@))
}

/// The arguments of a command line: `arguments` are those that the system splits it
/// into, where it does. A command line that it splits may be left without any.
pub fn command_line_to_argv(arguments: Option<Vec<Vec<u16>>>) -> (res: Option<Vec<String>>)
    ensures
        match arguments {
            Some(arguments) => res is Some && res->Some_0.deep_view() == argument_texts(
                arguments@,
            ),
            None => res is None,
        },
{
    let arguments = match arguments {
        Some(arguments) => arguments,
        None => return None,
    };
    let mut argv: Vec<String> = Vec::new();
    let mut i: usize = 0;
    assert(argv.deep_view() =~= argument_texts(arguments@.take(0)));
    while i < arguments.len()
        invariant
            i <= arguments@.len(),
            argv.deep_view() == argument_texts(arguments@.take(i as int)),
        decreases arguments@.len() - i,
    {
        let ghost before = argv.deep_view();
        let argument = decode_utf16_lossy(arguments[i].as_slice());
        let ghost shown = argument@;
        argv.push(argument);
        assert(argv.deep_view() =~= before.push(shown));
        assert(argument_texts(arguments@.take(i + 1)) =~= argument_texts(
            arguments@.take(i as int),
        ).push(shown));
        i = i + 1;
    }
    assert(arguments@.take(i as int) =~= arguments@);
    Some(argv)
}

/// What a process was called as: its first argument, or its name where that is not
/// known and not empty.
pub open spec fn called_as(argv: Option<Seq<Seq<char>>>, name: Seq<char>) -> Option<Seq<char>> {
    if argv is Some && argv->Some_0.len() > 0 {
        Some(argv->Some_0[0])
    } else if name.len() > 0 {
        Some(name)
    } else {
        None
    }
}

/// The entry of a process in a snapshot: `name` is a buffer with the name of its
/// program, and the command line and its arguments are known or not.
pub fn snapshot_entry(
    pid: u32,
    parent_pid: u32,
    name: &[u16],
    cmdline: Option<String>,
    argv: Option<Vec<String>>,
) -> (res: WindowsProcessEntry)
    ensures
        res.pid == pid,
        res.parent_pid == parent_pid,
        res.name@ == utf16::lossy_text(utf16::up_to_nul(name@)),
        res.argv0.deep_view() == called_as(argv.deep_view(), res.name@),
        res.argv == argv,
        res.cmdline == cmdline,
{
    let name = nul_terminated_utf16_to_string(name);
    let first = match &argv {
        Some(words) => {
            if words.len() > 0 {
                assert(words.deep_view()[0] == words@[0]@);
                Some(words[0].clone())
            } else {
                None
            }
        },
        None => None,
    };
    let argv0 = if first.is_some() {
        first
    } else if name.as_str().is_empty() {
        None
    } else {
        Some(name.clone())
    };
    WindowsProcessEntry { pid, parent_pid, name, argv0, argv, cmdline }
}

/// A raised limit of open files is not needed on Windows: nothing is done.
pub fn raise_server_nofile_limit() {
}

/// Whether the cursor of the host terminal is drawn unless the user decides.
pub fn should_draw_host_cursor_by_default() -> (res: bool)
    ensures
        res,
{
    true
}

/// A signal other than a hangup ends all processes that it is given but process zero, in
/// their order.
pub proof fn law_openable_in_order(front: Seq<u32>, pid: u32, back: Seq<u32>)
    ensures
        openable(front + seq![pid] + back) == openable(front) + (if pid == 0 {
            Seq::empty()
        } else {
            seq![pid]
        }) + openable(back),
        openable(Seq::empty()) == Seq::<u32>::empty(),
    decreases back.len(),
{
    let all = front + seq![pid] + back;
    let one = if pid == 0 {
        Seq::<u32>::empty()
    } else {
        seq![pid]
    };
    if back.len() == 0 {
        assert(all.drop_last() =~= front);
        assert(openable(back) =~= Seq::<u32>::empty());
        assert(openable(all) =~= openable(front) + one + openable(back));
    } else {
        assert(all.drop_last() =~= front + seq![pid] + back.drop_last());
        law_openable_in_order(front, pid, back.drop_last());
        assert(openable(all) =~= openable(front) + one + openable(back));
    }
}

/// The arguments of a command line are told one for one and in order, each as the text that
/// its units are read as.
pub proof fn law_arguments_one_for_one(arguments: Seq<Vec<u16>>, i: int)
    requires
        0 <= i < arguments.len(),
    ensures
        argument_texts(arguments).len() == arguments.len(),
        argument_texts(arguments)[i] == utf16::lossy_text(arguments[i]@),
{
}

/// A process was called as the first of its arguments. Where none is known it is its name
/// that counts, and nothing where that is empty.
pub proof fn law_called_as_first_argument(argv: Seq<Seq<char>>, name: Seq<char>)
    ensures
        argv.len() > 0 ==> called_as(Some(argv), name) == Some(argv[0]),
        argv.len() == 0 ==> called_as(Some(argv), name) == called_as(None, name),
        name.len() > 0 ==> called_as(None, name) == Some(name),
        name.len() == 0 ==> called_as(None, name) is None,
{
}

} // verus!
