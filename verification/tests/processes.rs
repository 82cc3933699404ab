use herdr_windows::foreground::{
    foreground_group_leader_job, foreground_job, foreground_process_group_id,
    select_pane_foreground_job, session_processes, session_processes_from_entries, Agent,
    ForegroundJob,
};
use herdr_windows::process::{
    can_open, command_line_to_argv, current_process_is_detached_server_daemon, process_exists,
    raise_server_nofile_limit, read_unicode_string, should_draw_host_cursor_by_default,
    signal_processes, snapshot_entry, unicode_string_units, Signal, STILL_ACTIVE,
};
use herdr_windows::process_tree::{
    descendant_entries, parent_table, process_is_ancestor, WindowsProcessEntry,
};
use herdr_windows::utf16::{encode_utf16, wide_null};

const CODEX: Agent = Agent { kind: 1 };
const GEMINI: Agent = Agent { kind: 2 };

fn test_entry(pid: u32, parent_pid: u32, name: &str, argv: &[&str]) -> WindowsProcessEntry {
    WindowsProcessEntry {
        pid,
        parent_pid,
        name: name.to_string(),
        argv0: argv.first().map(|value| (*value).to_string()),
        argv: Some(argv.iter().map(|value| (*value).to_string()).collect()),
        cmdline: Some(argv.join(" ")),
    }
}

/// The agents that the test entries run, told by their names and arguments.
fn agents(entries: &[WindowsProcessEntry]) -> Vec<Option<Agent>> {
    entries
        .iter()
        .map(|entry| {
            let line = entry.cmdline.clone().unwrap_or_default();
            if line.contains("codex") {
                Some(CODEX)
            } else if line.contains("gemini") {
                Some(GEMINI)
            } else {
                None
            }
        })
        .collect()
}

fn select(shell_pid: u32, entries: &[WindowsProcessEntry]) -> Option<ForegroundJob> {
    select_pane_foreground_job(shell_pid, entries, &agents(entries))
}

#[test]
fn windows_process_tree_selects_direct_agent_descendant() {
    let entries = vec![
        test_entry(10, 1, "powershell.exe", &["powershell.exe"]),
        test_entry(20, 10, "codex.exe", &["codex.exe"]),
    ];

    let job = select(10, &entries).unwrap();

    assert_eq!(job.process_group_id, 20);
    assert_eq!(job.processes.len(), 1);
    assert_eq!(job.processes[0].name, "codex.exe");
}

#[test]
fn windows_process_tree_selects_wrapped_agent_descendant() {
    let entries = vec![
        test_entry(10, 1, "cmd.exe", &["cmd.exe"]),
        test_entry(
            20,
            10,
            "node.exe",
            &[
                "node.exe",
                "C:\\Users\\herdr\\AppData\\Roaming\\npm\\node_modules\\codex\\bin\\codex.js",
            ],
        ),
    ];

    let job = select(10, &entries).unwrap();

    assert_eq!(job.process_group_id, 20);
    assert_eq!(job.processes[0].name, "node.exe");
}

#[test]
fn windows_process_tree_selects_cmd_wrapped_agent_descendant() {
    let entries = vec![
        test_entry(10, 1, "powershell.exe", &["powershell.exe"]),
        test_entry(
            20,
            10,
            "cmd.exe",
            &[
                "cmd.exe",
                "/D",
                "/S",
                "/C",
                "C:\\Users\\herdr\\AppData\\Roaming\\npm\\codex.cmd --model gpt-5",
            ],
        ),
    ];

    let job = select(10, &entries).unwrap();

    assert_eq!(job.process_group_id, 20);
    assert_eq!(job.processes[0].name, "cmd.exe");
}

#[test]
fn windows_process_tree_selects_topmost_codex_process_in_single_agent_chain() {
    let entries = vec![
        test_entry(10, 1, "powershell.exe", &["powershell.exe"]),
        test_entry(
            20,
            10,
            "node.exe",
            &[
                "node.exe",
                "C:\\Users\\herdr\\AppData\\Roaming\\npm\\node_modules\\@openai\\codex\\bin\\codex.js",
            ],
        ),
        test_entry(
            30,
            20,
            "codex.exe",
            &["C:\\Users\\herdr\\AppData\\Roaming\\npm\\node_modules\\@openai\\codex\\node_modules\\@openai\\codex-win32-x64\\vendor\\x86_64-pc-windows-msvc\\bin\\codex.exe"],
        ),
        test_entry(40, 30, "node_repl.exe", &["node_repl.exe"]),
        test_entry(
            50,
            40,
            "codex.exe",
            &["codex.exe", "app-server", "--listen", "stdio://"],
        ),
    ];

    let job = select(10, &entries).unwrap();

    assert_eq!(job.process_group_id, 20);
    assert_eq!(job.processes[0].name, "node.exe");
}

#[test]
fn windows_process_tree_selects_topmost_claude_process_in_single_agent_chain() {
    let entries = vec![
        test_entry(10, 1, "powershell.exe", &["powershell.exe"]),
        test_entry(20, 10, "gemini.exe", &["gemini.exe"]),
        test_entry(30, 20, "gemini.exe", &["gemini.exe", "mcp-server"]),
    ];

    let job = select(10, &entries).unwrap();

    assert_eq!(job.process_group_id, 20);
    assert_eq!(job.processes[0].name, "gemini.exe");
}

#[test]
fn windows_process_tree_returns_shell_for_same_agent_siblings() {
    let entries = vec![
        test_entry(10, 1, "powershell.exe", &["powershell.exe"]),
        test_entry(20, 10, "codex.exe", &["codex.exe"]),
        test_entry(30, 10, "codex.exe", &["codex.exe"]),
    ];

    let job = select(10, &entries).unwrap();

    assert_eq!(job.process_group_id, 10);
    assert_eq!(job.processes[0].name, "powershell.exe");
}

#[test]
fn windows_process_tree_returns_shell_for_plain_descendant() {
    let entries = vec![
        test_entry(10, 1, "powershell.exe", &["powershell.exe"]),
        test_entry(20, 10, "git.exe", &["git.exe", "status"]),
    ];

    let job = select(10, &entries).unwrap();

    assert_eq!(job.process_group_id, 10);
    assert_eq!(job.processes[0].name, "powershell.exe");
}

#[test]
fn windows_process_tree_returns_shell_for_multiple_agent_descendants() {
    let entries = vec![
        test_entry(10, 1, "powershell.exe", &["powershell.exe"]),
        test_entry(20, 10, "codex.exe", &["codex.exe"]),
        test_entry(30, 10, "gemini.exe", &["gemini.exe"]),
    ];

    let job = select(10, &entries).unwrap();

    assert_eq!(job.process_group_id, 10);
    assert_eq!(job.processes[0].name, "powershell.exe");
}

#[test]
fn windows_session_processes_collects_shell_and_descendants() {
    let entries = vec![
        test_entry(10, 1, "powershell.exe", &["powershell.exe"]),
        test_entry(20, 10, "cmd.exe", &["cmd.exe"]),
        test_entry(30, 20, "node.exe", &["node.exe"]),
        test_entry(40, 1, "unrelated.exe", &["unrelated.exe"]),
    ];

    let mut pids = session_processes_from_entries(10, &entries);
    pids.sort_unstable();

    assert_eq!(pids, vec![10, 20, 30]);
}

#[test]
fn windows_process_tree_ignores_pid_reuse_cycles() {
    let entries = vec![
        test_entry(10, 30, "powershell.exe", &["powershell.exe"]),
        test_entry(20, 10, "codex.exe", &["codex.exe"]),
        test_entry(30, 20, "node.exe", &["node.exe"]),
    ];

    let descendants = descendant_entries(10, &entries);

    assert_eq!(
        descendants
            .iter()
            .map(|entry| entry.pid)
            .collect::<Vec<_>>(),
        vec![20, 30]
    );
}

#[test]
fn windows_process_tree_returns_shell_when_candidate_parent_chain_cycles() {
    let entries = vec![
        test_entry(10, 40, "powershell.exe", &["powershell.exe"]),
        test_entry(20, 10, "codex.exe", &["codex.exe"]),
        test_entry(30, 10, "codex.exe", &["codex.exe"]),
        test_entry(40, 10, "node.exe", &["node.exe"]),
    ];

    let job = select(10, &entries).unwrap();

    assert_eq!(job.process_group_id, 10);
    assert_eq!(job.processes[0].name, "powershell.exe");
}

#[test]
fn descendants_come_level_by_level() {
    let entries = vec![
        test_entry(2, 1, "b", &[]),
        test_entry(4, 2, "d", &[]),
        test_entry(3, 1, "c", &[]),
        test_entry(5, 3, "e", &[]),
        test_entry(4, 3, "again", &[]),
        test_entry(1, 0, "a", &[]),
    ];
    let found: Vec<&str> = descendant_entries(1, &entries)
        .into_iter()
        .map(|entry| entry.name.as_str())
        .collect();
    assert_eq!(found, ["b", "c", "d", "e"]);
    assert!(descendant_entries(9, &entries).is_empty());
}

#[test]
fn ancestors_are_followed_up_to_the_root_or_a_cycle() {
    let entries = vec![
        test_entry(1, 0, "a", &[]),
        test_entry(2, 1, "b", &[]),
        test_entry(3, 2, "c", &[]),
        test_entry(7, 8, "x", &[]),
        test_entry(8, 7, "y", &[]),
    ];
    let parents = parent_table(&entries);
    assert!(process_is_ancestor(1, 3, &parents));
    assert!(process_is_ancestor(0, 3, &parents));
    assert!(!process_is_ancestor(3, 1, &parents));
    assert!(process_is_ancestor(8, 7, &parents));
    assert!(process_is_ancestor(7, 7, &parents));
    assert!(!process_is_ancestor(1, 7, &parents));
    assert!(!process_is_ancestor(1, 99, &parents));
}

#[test]
fn jobs_of_unknown_shells_are_none() {
    let entries = vec![
        test_entry(10, 1, "cmd.exe", &["cmd.exe", "/k"]),
        test_entry(20, 10, "codex.exe", &["codex.exe"]),
    ];
    let agents = agents(&entries);
    assert!(foreground_job(11, &entries, &agents).is_none());
    assert_eq!(foreground_process_group_id(10, &entries, &agents), Some(20));
    assert_eq!(foreground_process_group_id(11, &entries, &agents), None);
    let leader = foreground_group_leader_job(10, &entries).unwrap();
    assert_eq!(leader.process_group_id, 10);
    assert_eq!(leader.processes[0].argv0.as_deref(), Some("cmd.exe"));
    assert_eq!(leader.processes[0].cmdline.as_deref(), Some("cmd.exe /k"));
    assert!(foreground_group_leader_job(30, &entries).is_none());
    assert_eq!(session_processes(10, &entries), [10, 20]);
    assert!(session_processes(0, &entries).is_empty());
    assert!(session_processes(30, &entries).is_empty());
}

#[test]
fn signals_end_processes_except_a_hangup() {
    assert!(signal_processes(&[1, 0, 2], Signal::Hangup).is_empty());
    assert_eq!(signal_processes(&[1, 0, 2], Signal::Terminate), [1, 2]);
    assert_eq!(signal_processes(&[0, 3], Signal::Kill), [3]);
    assert!(!can_open(0));
    assert!(can_open(4));
}

#[test]
fn processes_exist_while_they_are_active() {
    assert!(process_exists(Some(STILL_ACTIVE)));
    assert!(!process_exists(Some(0)));
    assert!(!process_exists(None));
    assert!(current_process_is_detached_server_daemon(false, Some(false)));
    assert!(!current_process_is_detached_server_daemon(false, Some(true)));
    assert!(!current_process_is_detached_server_daemon(false, None));
    assert!(!current_process_is_detached_server_daemon(true, Some(false)));
    assert!(should_draw_host_cursor_by_default());
    raise_server_nofile_limit();
}

#[test]
fn texts_of_other_processes_are_checked() {
    assert_eq!(unicode_string_units(true, 6), Some(3));
    assert_eq!(unicode_string_units(false, 6), None);
    assert_eq!(unicode_string_units(true, 0), None);
    assert_eq!(unicode_string_units(true, 5), None);
    let units = encode_utf16("a\u{1f600}");
    assert_eq!(read_unicode_string(&units, 6, 6).as_deref(), Some("a\u{1f600}"));
    assert_eq!(read_unicode_string(&units, 6, 4), None);
    assert_eq!(read_unicode_string(&[0x61, 0xd83d], 4, 4), None);
}

#[test]
fn snapshot_entries_fall_back_to_the_name() {
    let mut name = wide_null("cmd.exe");
    name.push(0x41);
    let entry = snapshot_entry(7, 3, &name, None, None);
    assert_eq!((entry.pid, entry.parent_pid), (7, 3));
    assert_eq!(entry.name, "cmd.exe");
    assert_eq!(entry.argv0.as_deref(), Some("cmd.exe"));
    assert!(entry.argv.is_none() && entry.cmdline.is_none());
    let argv = command_line_to_argv(Some(vec![encode_utf16("C:\\x y.exe"), vec![0xdc00]]));
    let entry = snapshot_entry(7, 3, &name, Some("line".to_string()), argv);
    assert_eq!(entry.argv0.as_deref(), Some("C:\\x y.exe"));
    assert_eq!(entry.argv.unwrap()[1], "\u{fffd}");
    assert_eq!(entry.cmdline.as_deref(), Some("line"));
    assert!(snapshot_entry(7, 3, &[0], None, Some(vec![])).argv0.is_none());
    assert!(command_line_to_argv(None).is_none());
    assert_eq!(command_line_to_argv(Some(vec![])), Some(vec![]));
    let entry = snapshot_entry(7, 3, &name, None, command_line_to_argv(Some(vec![])));
    assert_eq!(entry.argv, Some(vec![]));
    assert_eq!(entry.argv0.as_deref(), Some("cmd.exe"));
}
