//! Which process of a pane is in the foreground, and which processes belong to a
//! pane.
use crate::process_tree;
use crate::process_tree::descendant_places;
use crate::process_tree::parent_table;
use crate::process_tree::process_is_ancestor;
use crate::process_tree::WindowsProcessEntry;
use std::collections::HashMap;
use vstd::prelude::*;

verus! {

/// The kind of agent that a process was recognised as, by the number that the
/// recogniser gives it.
#[derive(Debug, Clone, Copy, PartialEq, Eq, Structural)]
pub struct Agent {
    /// The number.
    pub kind: u32,
}

/// A process of a foreground job.
#[derive(Debug, Clone, PartialEq, Eq)]
pub struct ForegroundProcess {
    /// The process.
    pub pid: u32,
    /// The name of the executable.
    pub name: String,
    /// The first word of the command line.
    pub argv0: Option<String>,
    /// The words of the command line.
    pub argv: Option<Vec<String>>,
    /// The command line.
    pub cmdline: Option<String>,
}

/// The job in the foreground of a pane.
#[derive(Debug, Clone, PartialEq, Eq)]
pub struct ForegroundJob {
    /// The process that leads the job.
    pub process_group_id: u32,
    /// The processes of the job.
    pub processes: Vec<ForegroundProcess>,
}

/// A process as its number and texts.
#[verifier::ext_equal]
pub struct ProcessModel {
    pub pid: u32,
    pub name: Seq<char>,
    pub argv0: Option<Seq<char>>,
    pub argv: Option<Seq<Seq<char>>>,
    pub cmdline: Option<Seq<char>>,
}

/// A job as the numbers and texts of its processes.
#[verifier::ext_equal]
pub struct JobModel {
    pub process_group_id: u32,
    pub processes: Seq<ProcessModel>,
}

impl DeepView for ForegroundProcess {
    type V = ProcessModel;

    open spec fn deep_view(&self) -> ProcessModel {
        ProcessModel {
            pid: self.pid,
            name: self.name@,
            argv0: self.argv0.deep_view(),
            argv: self.argv.deep_view(),
            cmdline: self.cmdline.deep_view(),
        }
    }
}

impl DeepView for ForegroundJob {
    type V = JobModel;

    open spec fn deep_view(&self) -> JobModel {
        JobModel {
            process_group_id: self.process_group_id,
            processes: self.processes.deep_view(),
        }
    }
}

/// The process that an entry of a snapshot describes.
pub open spec fn process_of(entry: WindowsProcessEntry) -> ProcessModel {
    ProcessModel {
        pid: entry.pid,
        name: entry.name@,
        argv0: entry.argv0.deep_view(),
        argv: entry.argv.deep_view(),
        cmdline: entry.cmdline.deep_view(),
    }
}

/// The job of the one process that `entry` describes.
pub open spec fn job_of(entry: WindowsProcessEntry) -> JobModel {
    JobModel { process_group_id: entry.pid, processes: seq![process_of(entry)] }
}

fn clone_text(text: &Option<String>) -> (res: Option<String>)
    ensures
        res.deep_view() == text.deep_view(),
{
    match text {
        Some(text) => Some(text.clone()),
        None => None,
    }
}

/// A copy of `words`.
pub fn clone_words(words: &[String]) -> (res: Vec<String>)
    ensures
        res.deep_view() == words.deep_view(),
{
    let mut out: Vec<String> = Vec::new();
    let mut i: usize = 0;
    while i < words.len()
        invariant
            i <= words@.len(),
            out@.len() == i,
            forall|j: int| 0 <= j < i ==> #[trigger] out@[j]@ == words@[j]@,
        decreases words@.len() - i,
    {
        out.push(words[i].clone());
        i = i + 1;
    }
    assert(out.deep_view() =~= words.deep_view());
    out
}

/// The process that `entry` describes.
pub fn foreground_process_from_entry(entry: &WindowsProcessEntry) -> (res: ForegroundProcess)
    ensures
        res.deep_view() == process_of(*entry),
{
    ForegroundProcess {
        pid: entry.pid,
        name: entry.name.clone(),
        argv0: clone_text(&entry.argv0),
        argv: match &entry.argv {
            Some(words) => Some(clone_words(words.as_slice())),
            None => None,
        },
        cmdline: clone_text(&entry.cmdline),
    }
}

/// The job of the one process that `entry` describes.
pub fn foreground_job_from_entry(entry: &WindowsProcessEntry) -> (res: ForegroundJob)
    ensures
        res.deep_view() == job_of(*entry),
{
    let mut processes: Vec<ForegroundProcess> = Vec::new();
    processes.push(foreground_process_from_entry(entry));
    assert(processes.deep_view() =~= seq![process_of(*entry)]);
    ForegroundJob { process_group_id: entry.pid, processes }
}

/// The place of the first entry for process `pid`, from `from` on.
pub open spec fn first_with_pid(
    entries: Seq<WindowsProcessEntry>,
    pid: u32,
    from: int,
) -> Option<int>
    decreases entries.len() - from,
{
    if from < 0 || from >= entries.len() {
        None
    } else if entries[from].pid == pid {
        Some(from)
    } else {
        first_with_pid(entries, pid, from + 1)
    }
}

/// The place of the first entry for process `pid`.
pub open spec fn entry_of(entries: Seq<WindowsProcessEntry>, pid: u32) -> Option<int> {
    first_with_pid(entries, pid, 0)
}

proof fn lemma_first_with_pid(entries: Seq<WindowsProcessEntry>, pid: u32, from: int)
    requires
        0 <= from,
    ensures
        first_with_pid(entries, pid, from) matches Some(at) ==> from <= at < entries.len()
            && entries[at].pid == pid,
        first_with_pid(entries, pid, from) is None ==> forall|i: int|
            from <= i < entries.len() ==> #[trigger] entries[i].pid != pid,
    decreases entries.len() - from,
{
    if from < entries.len() && entries[from].pid != pid {
        lemma_first_with_pid(entries, pid, from + 1);
    }
}

/// The entry of a process is one for that process, and there is one exactly when
/// an entry for the process exists.
pub proof fn law_entry_of(entries: Seq<WindowsProcessEntry>, pid: u32)
    ensures
        entry_of(entries, pid) is Some <==> exists|i: int|
            0 <= i < entries.len() && #[trigger] entries[i].pid == pid,
        entry_of(entries, pid) matches Some(at) ==> 0 <= at < entries.len() && entries[at].pid
            == pid,
{
    lemma_first_with_pid(entries, pid, 0);
    if entry_of(entries, pid) is Some {
        let at = entry_of(entries, pid)->0;
        assert(entries[at].pid == pid);
    }
}

fn find_entry(entries: &[WindowsProcessEntry], pid: u32) -> (res: Option<usize>)
    ensures
        res matches Some(at) ==> entry_of(entries@, pid) == Some(at as int) && at < entries@.len(),
        res is None ==> entry_of(entries@, pid) is None,
{
    let mut i: usize = 0;
    while i < entries.len()
        invariant
            i <= entries@.len(),
            entry_of(entries@, pid) == first_with_pid(entries@, pid, i as int),
        decreases entries@.len() - i,
    {
        if entries[i].pid == pid {
            return Some(i);
        }
        i = i + 1;
    }
    None
}

/// What the recogniser says of the entry at place `at`.
pub open spec fn agent_at(agents: Seq<Option<Agent>>, at: int) -> Option<Agent> {
    if 0 <= at < agents.len() {
        agents[at]
    } else {
        None
    }
}

/// A recognised process: its entry and its agent.
pub open spec fn recognised<'a>(
    entries: Seq<WindowsProcessEntry>,
    agents: Seq<Option<Agent>>,
    at: int,
) -> Option<(&'a WindowsProcessEntry, Agent)> {
    match agent_at(agents, at) {
        Some(agent) => Some((&entries[at], agent)),
        None => None,
    }
}

/// The recognised processes below `shell_pid`, in the order of the walk.
pub open spec fn agents_below<'a>(
    shell_pid: u32,
    entries: Seq<WindowsProcessEntry>,
    agents: Seq<Option<Agent>>,
) -> Seq<(&'a WindowsProcessEntry, Agent)> {
    process_tree::descendants(shell_pid, entries).filter_map(
        |at: int| recognised(entries, agents, at),
    )
}

/// Whether candidate `k` is above all the others.
pub open spec fn heads_all(
    parents: Map<u32, u32>,
    candidates: Seq<(&WindowsProcessEntry, Agent)>,
    k: int,
) -> bool {
    forall|j: int|
        0 <= j < candidates.len() ==> (candidates[k].0.pid == #[trigger] candidates[j].0.pid
            || process_tree::is_ancestor(parents, candidates[k].0.pid, candidates[j].0.pid))
}

/// The first candidate, from number `from` on, that is above all the others.
pub open spec fn first_head(
    parents: Map<u32, u32>,
    candidates: Seq<(&WindowsProcessEntry, Agent)>,
    from: int,
) -> Option<int>
    decreases candidates.len() - from,
{
    if from < 0 || from >= candidates.len() {
        None
    } else if heads_all(parents, candidates, from) {
        Some(from)
    } else {
        first_head(parents, candidates, from + 1)
    }
}

/// Whether all candidates are the same kind of agent.
pub open spec fn one_agent(candidates: Seq<(&WindowsProcessEntry, Agent)>) -> bool {
    forall|j: int| 0 <= j < candidates.len() ==> #[trigger] candidates[j].1 == candidates[0].1
}

/// The candidate that all the others, of the same kind, were started by, directly
/// or not.
pub open spec fn chain_head(
    candidates: Seq<(&WindowsProcessEntry, Agent)>,
    entries: Seq<WindowsProcessEntry>,
) -> Option<int> {
    if candidates.len() > 0 && one_agent(candidates) {
        first_head(process_tree::parents_of(entries, entries.len()), candidates, 0)
    } else {
        None
    }
}

proof fn lemma_first_head(
    parents: Map<u32, u32>,
    candidates: Seq<(&WindowsProcessEntry, Agent)>,
    from: int,
)
    requires
        0 <= from,
    ensures
        first_head(parents, candidates, from) matches Some(k) ==> from <= k < candidates.len()
            && heads_all(parents, candidates, k),
        first_head(parents, candidates, from) is None ==> forall|k: int|
            from <= k < candidates.len() ==> !#[trigger] heads_all(parents, candidates, k),
    decreases candidates.len() - from,
{
    if from < candidates.len() && !heads_all(parents, candidates, from) {
        lemma_first_head(parents, candidates, from + 1);
    }
}

fn is_above_all(
    candidates: &[(&WindowsProcessEntry, Agent)],
    k: usize,
    parents: &HashMap<u32, u32>,
) -> (res: bool)
    requires
        k < candidates@.len(),
    ensures
        res == heads_all(parents@, candidates@, k as int),
{
    let above = candidates[k].0.pid;
    let mut j: usize = 0;
    while j < candidates.len()
        invariant
            k < candidates@.len(),
            j <= candidates@.len(),
            above == candidates@[k as int].0.pid,
            forall|m: int|
                0 <= m < j ==> (above == #[trigger] candidates@[m].0.pid
                    || process_tree::is_ancestor(parents@, above, candidates@[m].0.pid)),
        decreases candidates@.len() - j,
    {
        let other = candidates[j].0.pid;
        if above != other && !process_is_ancestor(above, other, parents) {
            assert(candidates@[j as int].0.pid == other);
            return false;
        }
        j = j + 1;
    }
    true
}

/// The candidate that all the others, of the same kind, were started by.
pub fn select_single_agent_chain_candidate<'a>(
    candidates: &[(&'a WindowsProcessEntry, Agent)],
    entries: &[WindowsProcessEntry],
) -> (res: Option<&'a WindowsProcessEntry>)
    ensures
        match chain_head(candidates@, entries@) {
            Some(k) => res == Some(candidates@[k].0),
            None => res is None,
        },
{
    if candidates.len() == 0 {
        return None;
    }
    let first_agent = candidates[0].1;
    let mut i: usize = 0;
    while i < candidates.len()
        invariant
            i <= candidates@.len(),
            candidates@.len() > 0,
            first_agent == candidates@[0].1,
            forall|j: int| 0 <= j < i ==> #[trigger] candidates@[j].1 == first_agent,
        decreases candidates@.len() - i,
    {
        if candidates[i].1 != first_agent {
            return None;
        }
        i = i + 1;
    }
    let parents = parent_table(entries);
    let mut k: usize = 0;
    while k < candidates.len()
        invariant
            k <= candidates@.len(),
            candidates@.len() > 0,
            one_agent(candidates@),
            parents@ == process_tree::parents_of(entries@, entries@.len()),
            chain_head(candidates@, entries@) == first_head(parents@, candidates@, k as int),
        decreases candidates@.len() - k,
    {
        if is_above_all(candidates, k, &parents) {
            return Some(candidates[k].0);
        }
        k = k + 1;
    }
    None
}

/// The entry that stands for the pane's foreground: the head of the chain of agent
/// processes below the shell where all of them are one agent's, and the shell
/// otherwise. There is none where the shell is not in the snapshot.
pub open spec fn foreground_entry(
    shell_pid: u32,
    entries: Seq<WindowsProcessEntry>,
    agents: Seq<Option<Agent>>,
) -> Option<WindowsProcessEntry> {
    let candidates = agents_below(shell_pid, entries, agents);
    match entry_of(entries, shell_pid) {
        Some(shell) => match chain_head(candidates, entries) {
            Some(k) => Some(*candidates[k].0),
            None => Some(entries[shell]),
        },
        None => None,
    }
}

/// The foreground job of the pane whose shell is `shell_pid`. `agents` holds, for
/// the entry at the same place, what kind of agent it was recognised as.
pub fn select_pane_foreground_job(
    shell_pid: u32,
    entries: &[WindowsProcessEntry],
    agents: &[Option<Agent>],
) -> (res: Option<ForegroundJob>)
    ensures
        match foreground_entry(shell_pid, entries@, agents@) {
            Some(entry) => res is Some && res->0.deep_view() == job_of(entry),
            None => res is None,
        },
{
    let shell = match find_entry(entries, shell_pid) {
        Some(at) => at,
        None => return None,
    };
    let places = descendant_places(shell_pid, entries);
    let ghost all = process_tree::descendants(shell_pid, entries@);
    let ghost pick = |at: int| recognised(entries@, agents@, at);
    proof {
        process_tree::law_descendants_distinct(shell_pid, entries@);
    }
    let mut candidates: Vec<(&WindowsProcessEntry, Agent)> = Vec::new();
    let mut i: usize = 0;
    assert(all.take(0).filter_map(pick) =~= candidates@);
    while i < places.len()
        invariant
            i <= places@.len(),
            all == process_tree::places_of(places@),
            pick == (|at: int| recognised(entries@, agents@, at)),
            forall|m: int| 0 <= m < all.len() ==> 0 <= #[trigger] all[m] < entries@.len(),
            candidates@ == all.take(i as int).filter_map(pick),
        decreases places@.len() - i,
    {
        let at = places[i];
        assert(all[i as int] == at);
        assert(all.take(i + 1).drop_last() =~= all.take(i as int));
        if at < agents.len() {
            if let Some(agent) = agents[at] {
                candidates.push((&entries[at], agent));
            }
        }
        assert(candidates@ =~= all.take(i + 1).filter_map(pick));
        i = i + 1;
    }
    assert(all.take(i as int) =~= all);
    assert(candidates@ == agents_below(shell_pid, entries@, agents@));
    proof {
        lemma_first_head(process_tree::parents_of(entries@, entries@.len()), candidates@, 0);
    }
    match select_single_agent_chain_candidate(candidates.as_slice(), entries) {
        Some(entry) => Some(foreground_job_from_entry(entry)),
        None => Some(foreground_job_from_entry(&entries[shell])),
    }
}

/// The foreground job of the pane whose shell is `child_pid`.
pub fn foreground_job(
    child_pid: u32,
    entries: &[WindowsProcessEntry],
    agents: &[Option<Agent>],
) -> (res: Option<ForegroundJob>)
    ensures
        match foreground_entry(child_pid, entries@, agents@) {
            Some(entry) => res is Some && res->0.deep_view() == job_of(entry),
            None => res is None,
        },
{
    select_pane_foreground_job(child_pid, entries, agents)
}

/// The process that leads the foreground job of the pane whose shell is
/// `child_pid`.
pub fn foreground_process_group_id(
    child_pid: u32,
    entries: &[WindowsProcessEntry],
    agents: &[Option<Agent>],
) -> (res: Option<u32>)
    ensures
        match foreground_entry(child_pid, entries@, agents@) {
            Some(entry) => res == Some(entry.pid),
            None => res is None,
        },
{
    match foreground_job(child_pid, entries, agents) {
        Some(job) => {
            assert(job.deep_view().process_group_id == job.process_group_id);
            Some(job.process_group_id)
        },
        None => None,
    }
}

/// The job of the one process `process_group_id`, where it is in the snapshot.
pub fn foreground_group_leader_job(
    process_group_id: u32,
    entries: &[WindowsProcessEntry],
) -> (res: Option<ForegroundJob>)
    ensures
        match entry_of(entries@, process_group_id) {
            Some(at) => res is Some && res->0.deep_view() == job_of(entries@[at])
                && res->0.process_group_id == process_group_id,
            None => res is None,
        },
{
    proof {
        law_entry_of(entries@, process_group_id);
    }
    match find_entry(entries, process_group_id) {
        Some(at) => Some(foreground_job_from_entry(&entries[at])),
        None => None,
    }
}

/// The shell and the processes below it, where the shell is in the snapshot.
pub open spec fn session_pids(child_pid: u32, entries: Seq<WindowsProcessEntry>) -> Seq<u32> {
    if entry_of(entries, child_pid) is Some {
        seq![child_pid] + process_tree::descendants(child_pid, entries).map_values(
            |at: int| entries[at].pid,
        )
    } else {
        Seq::empty()
    }
}

/// The shell `child_pid` and the processes below it.
pub fn session_processes_from_entries(
    child_pid: u32,
    entries: &[WindowsProcessEntry],
) -> (res: Vec<u32>)
    ensures
        res@ == session_pids(child_pid, entries@),
{
    let mut pids: Vec<u32> = Vec::new();
    if find_entry(entries, child_pid).is_none() {
        return pids;
    }
    pids.push(child_pid);
    let places = descendant_places(child_pid, entries);
    let ghost all = process_tree::descendants(child_pid, entries@);
    proof {
        process_tree::law_descendants_distinct(child_pid, entries@);
    }
    let mut i: usize = 0;
    assert(pids@ =~= seq![child_pid] + all.take(0).map_values(|at: int| entries@[at].pid));
    while i < places.len()
        invariant
            i <= places@.len(),
            all == process_tree::places_of(places@),
            forall|m: int| 0 <= m < all.len() ==> 0 <= #[trigger] all[m] < entries@.len(),
            pids@ == seq![child_pid] + all.take(i as int).map_values(|at: int| entries@[at].pid),
        decreases places@.len() - i,
    {
        assert(all[i as int] == places@[i as int]);
        pids.push(entries[places[i]].pid);
        assert(pids@ =~= seq![child_pid] + all.take(i + 1).map_values(|at: int| entries@[at].pid));
        i = i + 1;
    }
    assert(all.take(i as int) =~= all);
    pids
}

/// The processes of the session whose shell is `child_pid`; process zero has none.
pub fn session_processes(child_pid: u32, entries: &[WindowsProcessEntry]) -> (res: Vec<u32>)
    ensures
        res@ == (if child_pid == 0 {
            Seq::empty()
        } else {
            session_pids(child_pid, entries@)
        }),
{
    if child_pid == 0 {
        return Vec::new();
    }
    session_processes_from_entries(child_pid, entries)
}

proof fn lemma_recognised_member<'a>(
    entries: Seq<WindowsProcessEntry>,
    agents: Seq<Option<Agent>>,
    places: Seq<int>,
    k: int,
)
    requires
        0 <= k < places.filter_map(|at: int| recognised(entries, agents, at)).len(),
    ensures
        exists|j: int|
            0 <= j < places.len() && recognised(entries, agents, #[trigger] places[j]) == Some(
                places.filter_map(|at: int| recognised(entries, agents, at))[k],
            ),
    decreases places.len(),
{
    let pick = |at: int| recognised(entries, agents, at);
    let rest = places.drop_last();
    if k < rest.filter_map(pick).len() {
        lemma_recognised_member(entries, agents, rest, k);
        let j = choose|j: int|
            0 <= j < rest.len() && recognised(entries, agents, #[trigger] rest[j]) == Some(
                rest.filter_map(pick)[k],
            );
        assert(places[j] == rest[j]);
    } else {
        assert(recognised(entries, agents, places[places.len() - 1]) == Some(
            places.filter_map(pick)[k],
        ));
    }
}

/// An agent below the shell is an entry that was recognised and that the walk from
/// the shell lists.
pub proof fn law_agents_below(
    shell_pid: u32,
    entries: Seq<WindowsProcessEntry>,
    agents: Seq<Option<Agent>>,
    k: int,
)
    requires
        0 <= k < agents_below(shell_pid, entries, agents).len(),
    ensures
        ({
            let (entry, agent) = agents_below(shell_pid, entries, agents)[k];
            &&& entry.pid != shell_pid
            &&& process_tree::descends_from(entries, shell_pid, entry.pid)
            &&& exists|at: int|
                0 <= at < entries.len() && *entry == entries[at] && #[trigger] agent_at(agents, at)
                    == Some(agent)
        }),
{
    let all = process_tree::descendants(shell_pid, entries);
    lemma_recognised_member(entries, agents, all, k);
    let (entry, agent) = agents_below(shell_pid, entries, agents)[k];
    let j = choose|j: int|
        0 <= j < all.len() && recognised(entries, agents, #[trigger] all[j]) == Some(
            agents_below(shell_pid, entries, agents)[k],
        );
    process_tree::law_descendants_distinct(shell_pid, entries);
    process_tree::law_descendants_reachable(shell_pid, entries, entry.pid);
    assert(agent_at(agents, all[j]) == Some(agent));
    assert(entries[all[j]].pid == entry.pid);
}

/// The foreground is the shell's or an agent's below it, and an agent that stands
/// for the foreground started all the other agents of the pane, directly or not.
pub proof fn law_foreground_is_shell_or_chain_head(
    shell_pid: u32,
    entries: Seq<WindowsProcessEntry>,
    agents: Seq<Option<Agent>>,
)
    ensures
        foreground_entry(shell_pid, entries, agents) is Some <==> exists|i: int|
            0 <= i < entries.len() && #[trigger] entries[i].pid == shell_pid,
        foreground_entry(shell_pid, entries, agents) matches Some(entry) ==> {
            ||| entry.pid == shell_pid
            ||| {
                &&& process_tree::descends_from(entries, shell_pid, entry.pid)
                &&& one_agent(agents_below(shell_pid, entries, agents))
                &&& forall|j: int|
                    0 <= j < agents_below(shell_pid, entries, agents).len() ==> (entry.pid
                        == #[trigger] agents_below(shell_pid, entries, agents)[j].0.pid
                        || process_tree::is_ancestor(
                        process_tree::parents_of(entries, entries.len()),
                        entry.pid,
                        agents_below(shell_pid, entries, agents)[j].0.pid,
                    ))
            }
        },
{
    law_entry_of(entries, shell_pid);
    let candidates = agents_below(shell_pid, entries, agents);
    let parents = process_tree::parents_of(entries, entries.len());
    lemma_first_head(parents, candidates, 0);
    if let Some(k) = chain_head(candidates, entries) {
        law_agents_below(shell_pid, entries, agents, k);
    }
}

/// A lone agent below the shell is the foreground.
pub proof fn law_lone_agent_is_foreground(
    shell_pid: u32,
    entries: Seq<WindowsProcessEntry>,
    agents: Seq<Option<Agent>>,
)
    requires
        entry_of(entries, shell_pid) is Some,
        agents_below(shell_pid, entries, agents).len() == 1,
    ensures
        foreground_entry(shell_pid, entries, agents) == Some(
            *agents_below(shell_pid, entries, agents)[0].0,
        ),
{
    let candidates = agents_below(shell_pid, entries, agents);
    let parents = process_tree::parents_of(entries, entries.len());
    assert(heads_all(parents, candidates, 0));
}

/// Where agents of different kinds, or none, are below the shell, or none of them
/// started all the others, the shell is the foreground.
pub proof fn law_no_single_chain_leaves_shell(
    shell_pid: u32,
    entries: Seq<WindowsProcessEntry>,
    agents: Seq<Option<Agent>>,
)
    requires
        entry_of(entries, shell_pid) is Some,
        ({
            let candidates = agents_below(shell_pid, entries, agents);
            ||| candidates.len() == 0
            ||| !one_agent(candidates)
            ||| forall|k: int|
                0 <= k < candidates.len() ==> !#[trigger] heads_all(
                    process_tree::parents_of(entries, entries.len()),
                    candidates,
                    k,
                )
        }),
    ensures
        foreground_entry(shell_pid, entries, agents) matches Some(entry) && entry.pid == shell_pid,
{
    law_entry_of(entries, shell_pid);
    lemma_first_head(
        process_tree::parents_of(entries, entries.len()),
        agents_below(shell_pid, entries, agents),
        0,
    );
}

/// A session holds a process exactly when the shell is in the snapshot and the
/// process is the shell or below it, and it holds none twice.
pub proof fn law_session_members(
    child_pid: u32,
    entries: Seq<WindowsProcessEntry>,
    pid: u32,
)
    ensures
        session_pids(child_pid, entries).contains(pid) <==> entry_of(entries, child_pid) is Some
            && (pid == child_pid || process_tree::descends_from(entries, child_pid, pid)),
        session_pids(child_pid, entries).no_duplicates(),
{
    let all = process_tree::descendants(child_pid, entries);
    let below = all.map_values(|at: int| entries[at].pid);
    let pids = session_pids(child_pid, entries);
    process_tree::law_descendants_distinct(child_pid, entries);
    process_tree::law_descendants_reachable(child_pid, entries, pid);
    if entry_of(entries, child_pid) is Some {
        assert(pids == seq![child_pid] + below);
        assert(pids[0] == child_pid);
        assert forall|i: int, j: int| 0 <= i < j < pids.len() implies pids[i] != pids[j] by {
            assert(pids[j] == entries[all[j - 1]].pid);
            if i > 0 {
                assert(pids[i] == entries[all[i - 1]].pid);
            }
        }
        if pids.contains(pid) {
            let j = choose|j: int| 0 <= j < pids.len() && pids[j] == pid;
            if j > 0 {
                assert(entries[all[j - 1]].pid == pid);
            }
        }
        if pid != child_pid && process_tree::descends_from(entries, child_pid, pid) {
            let j = choose|j: int| 0 <= j < all.len() && entries[#[trigger] all[j]].pid == pid;
            assert(pids[j + 1] == pid);
        }
    }
}

/// Which of `places` are recognised, by their numbers.
proof fn lemma_recognised_places(
    entries: Seq<WindowsProcessEntry>,
    agents: Seq<Option<Agent>>,
    places: Seq<int>,
) -> (chosen: Seq<int>)
    ensures
        chosen.len() == places.filter_map(|at: int| recognised(entries, agents, at)).len(),
        forall|k: int|
            0 <= k < chosen.len() ==> 0 <= #[trigger] chosen[k] < places.len() && recognised(
                entries,
                agents,
                places[chosen[k]],
            ) == Some(places.filter_map(|at: int| recognised(entries, agents, at))[k]),
        forall|i: int, k: int|
            0 <= i < k < chosen.len() ==> #[trigger] chosen[i] < #[trigger] chosen[k],
        forall|j: int|
            0 <= j < places.len() && recognised(entries, agents, #[trigger] places[j]) is Some
                ==> chosen.contains(j),
    decreases places.len(),
{
    let pick = |at: int| recognised(entries, agents, at);
    if places.len() == 0 {
        Seq::empty()
    } else {
        let front = places.drop_last();
        let before = lemma_recognised_places(entries, agents, front);
        let last = places.len() - 1;
        let some = recognised(entries, agents, places[last]) is Some;
        let chosen = if some {
            before.push(last)
        } else {
            before
        };
        assert forall|k: int| 0 <= k < chosen.len() implies 0 <= #[trigger] chosen[k] < places.len()
            && recognised(entries, agents, places[chosen[k]]) == Some(
            places.filter_map(pick)[k],
        ) by {
            if k < before.len() {
                assert(chosen[k] == before[k]);
                assert(places[chosen[k]] == front[before[k]]);
            }
        }
        assert forall|i: int, k: int| 0 <= i < k < chosen.len() implies #[trigger] chosen[i]
            < #[trigger] chosen[k] by {
            assert(chosen[i] == before[i]);
            if k < before.len() {
                assert(chosen[k] == before[k]);
            }
        }
        assert forall|j: int|
            0 <= j < places.len() && recognised(
                entries,
                agents,
                #[trigger] places[j],
            ) is Some implies chosen.contains(j) by {
            if j < last {
                assert(front[j] == places[j]);
                assert(before.contains(j));
                let k = choose|k: int| 0 <= k < before.len() && before[k] == j;
                assert(chosen[k] == j);
            } else {
                assert(chosen[before.len() as int] == j);
            }
        }
        chosen
    }
}

/// The agents below the shell are all the processes that the walk from the shell lists
/// and that were recognised, in the order of the walk, each with what it was recognised
/// as. `chosen` tells which of the walk's processes they are.
pub proof fn law_agents_below_are_the_recognised(
    shell_pid: u32,
    entries: Seq<WindowsProcessEntry>,
    agents: Seq<Option<Agent>>,
) -> (chosen: Seq<int>)
    ensures
        chosen.len() == agents_below(shell_pid, entries, agents).len(),
        forall|k: int|
            0 <= k < chosen.len() ==> {
                let all = process_tree::descendants(shell_pid, entries);
                &&& 0 <= #[trigger] chosen[k] < all.len()
                &&& 0 <= all[chosen[k]] < agents.len()
                &&& agents[all[chosen[k]]] == Some(agents_below(shell_pid, entries, agents)[k].1)
                &&& entries[all[chosen[k]]] == *agents_below(shell_pid, entries, agents)[k].0
            },
        forall|i: int, k: int|
            0 <= i < k < chosen.len() ==> #[trigger] chosen[i] < #[trigger] chosen[k],
        forall|j: int|
            0 <= j < process_tree::descendants(shell_pid, entries).len() && (
            #[trigger] process_tree::descendants(shell_pid, entries)[j]) < agents.len()
                && agents[process_tree::descendants(shell_pid, entries)[j]] is Some
                ==> chosen.contains(j),
{
    let all = process_tree::descendants(shell_pid, entries);
    process_tree::law_descendants_distinct(shell_pid, entries);
    let chosen = lemma_recognised_places(entries, agents, all);
    assert forall|j: int|
        0 <= j < all.len() && (#[trigger] all[j]) < agents.len()
            && agents[all[j]] is Some implies chosen.contains(j) by {
        assert(recognised(entries, agents, all[j]) is Some);
    }
    chosen
}

/// Where all agents below the shell are of one kind and one of them started all the
/// others, directly or not, that one is the foreground, however many there are. Where
/// several did, as a cycle of parents can make it, the first of them is.
pub proof fn law_head_of_one_chain_is_foreground(
    shell_pid: u32,
    entries: Seq<WindowsProcessEntry>,
    agents: Seq<Option<Agent>>,
    k: int,
)
    requires
        exists|i: int| 0 <= i < entries.len() && #[trigger] entries[i].pid == shell_pid,
        0 <= k < agents_below(shell_pid, entries, agents).len(),
        ({
            let below = agents_below(shell_pid, entries, agents);
            let parents = process_tree::parents_of(entries, entries.len());
            forall|j: int|
                0 <= j < below.len() ==> (#[trigger] below[j]).1 == below[k].1 && (below[j].0.pid
                    == below[k].0.pid || process_tree::is_ancestor(
                    parents,
                    below[k].0.pid,
                    below[j].0.pid,
                ))
        }),
    ensures
        ({
            let below = agents_below(shell_pid, entries, agents);
            let parents = process_tree::parents_of(entries, entries.len());
            exists|h: int|
                0 <= h <= k && foreground_entry(shell_pid, entries, agents) == Some(
                    *(#[trigger] below[h]).0,
                ) && (forall|j: int|
                    0 <= j < below.len() ==> (below[h].0.pid == (#[trigger] below[j]).0.pid
                        || process_tree::is_ancestor(parents, below[h].0.pid, below[j].0.pid)))
        }),
        ({
            let below = agents_below(shell_pid, entries, agents);
            let parents = process_tree::parents_of(entries, entries.len());
            (forall|i: int|
                0 <= i < k ==> exists|j: int|
                    0 <= j < below.len() && (#[trigger] below[i]).0.pid != (
                    #[trigger] below[j]).0.pid && !process_tree::is_ancestor(
                        parents,
                        below[i].0.pid,
                        below[j].0.pid,
                    )) ==> foreground_entry(shell_pid, entries, agents) == Some(*below[k].0)
        }),
{
    law_entry_of(entries, shell_pid);
    let below = agents_below(shell_pid, entries, agents);
    let parents = process_tree::parents_of(entries, entries.len());
    assert(below[0].1 == below[k].1);
    assert(one_agent(below));
    assert(heads_all(parents, below, k));
    lemma_first_head(parents, below, 0);
    lemma_first_head_is_first(parents, below, 0, k);
    let h = chain_head(below, entries)->Some_0;
    assert(foreground_entry(shell_pid, entries, agents) == Some(*below[h].0));
    assert(heads_all(parents, below, h));
}

proof fn lemma_first_head_is_first(
    parents: Map<u32, u32>,
    candidates: Seq<(&WindowsProcessEntry, Agent)>,
    from: int,
    k: int,
)
    requires
        0 <= from <= k < candidates.len(),
        heads_all(parents, candidates, k),
    ensures
        first_head(parents, candidates, from) matches Some(h) && from <= h <= k,
    decreases k - from,
{
    if !heads_all(parents, candidates, from) {
        lemma_first_head_is_first(parents, candidates, from + 1, k);
    }
}

/// Where no agent below the shell is of one kind with all of them and started all the
/// others, the shell's own entry is the foreground.
pub proof fn law_shell_is_foreground_without_chain(
    shell_pid: u32,
    entries: Seq<WindowsProcessEntry>,
    agents: Seq<Option<Agent>>,
    shell: int,
)
    requires
        0 <= shell < entries.len(),
        entries[shell].pid == shell_pid,
        forall|i: int| 0 <= i < shell ==> (#[trigger] entries[i]).pid != shell_pid,
        ({
            let below = agents_below(shell_pid, entries, agents);
            let parents = process_tree::parents_of(entries, entries.len());
            forall|k: int|
                0 <= k < below.len() ==> exists|j: int|
                    0 <= j < below.len() && ((#[trigger] below[j]).1 != (#[trigger] below[k]).1 || (
                    below[j].0.pid != below[k].0.pid && !process_tree::is_ancestor(
                        parents,
                        below[k].0.pid,
                        below[j].0.pid,
                    )))
        }),
    ensures
        foreground_entry(shell_pid, entries, agents) == Some(entries[shell]),
{
    law_first_entry_counts(entries, shell_pid, shell);
    let below = agents_below(shell_pid, entries, agents);
    let parents = process_tree::parents_of(entries, entries.len());
    lemma_first_head(parents, below, 0);
    if chain_head(below, entries) is Some {
        let k = chain_head(below, entries)->Some_0;
        assert(heads_all(parents, below, k));
        let j = choose|j: int|
            0 <= j < below.len() && ((#[trigger] below[j]).1 != below[k].1 || (below[j].0.pid
                != below[k].0.pid && !process_tree::is_ancestor(
                parents,
                below[k].0.pid,
                below[j].0.pid,
            )));
        assert(below[j].1 == below[0].1);
        assert(below[k].1 == below[0].1);
        assert(false);
    }
}

/// Of several entries for one process the first counts.
pub proof fn law_first_entry_counts(entries: Seq<WindowsProcessEntry>, pid: u32, at: int)
    requires
        0 <= at < entries.len(),
        entries[at].pid == pid,
        forall|i: int| 0 <= i < at ==> (#[trigger] entries[i]).pid != pid,
    ensures
        entry_of(entries, pid) == Some(at),
{
    lemma_first_from(entries, pid, at, 0);
}

proof fn lemma_first_from(entries: Seq<WindowsProcessEntry>, pid: u32, at: int, from: int)
    requires
        0 <= from <= at < entries.len(),
        entries[at].pid == pid,
        forall|i: int| 0 <= i < at ==> (#[trigger] entries[i]).pid != pid,
    ensures
        first_with_pid(entries, pid, from) == Some(at),
    decreases at - from,
{
    if from < at {
        assert(entries[from].pid != pid);
        lemma_first_from(entries, pid, at, from + 1);
    }
}

/// A job of one process is led by that process and tells of it what its entry tells.
pub proof fn law_job_tells_its_entry(entry: WindowsProcessEntry)
    ensures
        job_of(entry).process_group_id == entry.pid,
        job_of(entry).processes.len() == 1,
        job_of(entry).processes[0].pid == entry.pid,
        job_of(entry).processes[0].name == entry.name@,
        match entry.argv0 {
            Some(word) => job_of(entry).processes[0].argv0 == Some(word@),
            None => job_of(entry).processes[0].argv0 is None,
        },
        match entry.argv {
            Some(words) => job_of(entry).processes[0].argv matches Some(told) && told.len()
                == words@.len() && forall|i: int|
                0 <= i < words@.len() ==> #[trigger] told[i] == words@[i]@,
            None => job_of(entry).processes[0].argv is None,
        },
        match entry.cmdline {
            Some(line) => job_of(entry).processes[0].cmdline == Some(line@),
            None => job_of(entry).processes[0].cmdline is None,
        },
{
}

/// A session lists the shell first, and then the processes below it in the order of the
/// walk.
pub proof fn law_session_order(child_pid: u32, entries: Seq<WindowsProcessEntry>)
    requires
        exists|i: int| 0 <= i < entries.len() && #[trigger] entries[i].pid == child_pid,
    ensures
        session_pids(child_pid, entries).len() == process_tree::descendants(
            child_pid,
            entries,
        ).len() + 1,
        session_pids(child_pid, entries)[0] == child_pid,
        forall|j: int|
            0 <= j < process_tree::descendants(child_pid, entries).len()
                ==> #[trigger] session_pids(child_pid, entries)[j + 1]
                == entries[process_tree::descendants(child_pid, entries)[j]].pid,
{
    law_entry_of(entries, child_pid);
}

} // verus!
