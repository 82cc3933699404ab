//! Remote hosts: their platform, the herdr binaries on them, and the commands that
//! find and run those.
use crate::args;
use crate::report::CommandOutput;
use crate::report::RemoteError;
use crate::report::command_failed;
use crate::report::other_error;
use crate::report;
use crate::shell::shell_quote;
use crate::shell;
use crate::text::ends_with;
use crate::text::from_utf8_lossy;
use crate::text::lines;
use crate::text::nth_line;
use crate::text::same_text;
use crate::text::starts_with_char;
use crate::text::trim;
use crate::text;
use vstd::prelude::*;
use vstd::string::*;

verus! {

/// What this client was built as.
#[derive(Debug, Clone, PartialEq, Eq)]
pub struct ClientBuild {
    /// Its version.
    pub version: String,
    /// The channel that it is released on.
    pub channel: String,
    /// Whether it is a preview.
    pub preview: bool,
    /// The name of its build.
    pub build_id: Option<String>,
    /// The protocol that it speaks.
    pub protocol: u32,
}

/// An operating system and a processor architecture.
#[derive(Debug, Clone, Copy, PartialEq, Eq)]
pub struct RemotePlatform {
    pub os: &'static str,
    pub arch: &'static str,
}

/// A platform as its names.
#[verifier::ext_equal]
pub struct PlatformModel {
    pub os: Seq<char>,
    pub arch: Seq<char>,
}

impl DeepView for RemotePlatform {
    type V = PlatformModel;

    open spec fn deep_view(&self) -> PlatformModel {
        PlatformModel { os: self.os@, arch: self.arch@ }
    }
}

/// The operating system that a kernel's name stands for.
pub open spec fn os_of_kernel(kernel: Seq<char>) -> Option<Seq<char>> {
    if kernel == "Linux"@ {
        Some("linux"@)
    } else if kernel == "Darwin"@ {
        Some("macos"@)
    } else {
        None
    }
}

/// The architecture that a machine's name stands for.
pub open spec fn arch_of_machine(machine: Seq<char>) -> Option<Seq<char>> {
    if machine == "x86_64"@ || machine == "amd64"@ {
        Some("x86_64"@)
    } else if machine == "aarch64"@ || machine == "arm64"@ {
        Some("aarch64"@)
    } else {
        None
    }
}

/// The platform of a host whose `uname` names its kernel and its machine so.
pub open spec fn platform_of_uname(kernel: Seq<char>, machine: Seq<char>) -> Option<PlatformModel> {
    match (os_of_kernel(text::trimmed(kernel)), arch_of_machine(text::trimmed(machine))) {
        (Some(os), Some(arch)) => Some(PlatformModel { os, arch }),
        _ => None,
    }
}

/// The platform of a client that was built for the given target.
pub open spec fn platform_of_target(target_os: Seq<char>, target_arch: Seq<char>) -> PlatformModel {
    PlatformModel {
        os: if target_os == "linux"@ || target_os == "macos"@ {
            target_os
        } else {
            "unknown"@
        },
        arch: if target_arch == "x86_64"@ || target_arch == "aarch64"@ {
            target_arch
        } else {
            "unknown"@
        },
    }
}

/// The name of a platform among the files of a release.
pub open spec fn asset_name(platform: PlatformModel) -> Seq<char> {
    platform.os + "-"@ + platform.arch
}

impl RemotePlatform {
    /// The platform of a host whose `uname` names its kernel and its machine so,
    /// where it is a supported one.
    pub fn from_uname(os: &str, arch: &str) -> (res: Option<RemotePlatform>)
        ensures
            res.deep_view() == platform_of_uname(os@, arch@),
    {
        let kernel = trim(os);
        let machine = trim(arch);
        let os = if same_text(kernel.as_str(), "Linux") {
            "linux"
        } else if same_text(kernel.as_str(), "Darwin") {
            "macos"
        } else {
            return None;
        };
        let arch = if same_text(machine.as_str(), "x86_64") || same_text(
            machine.as_str(),
            "amd64",
        ) {
            "x86_64"
        } else if same_text(machine.as_str(), "aarch64") || same_text(machine.as_str(), "arm64") {
            "aarch64"
        } else {
            return None;
        };
        Some(RemotePlatform { os, arch })
    }

    /// The platform of a client that was built for the given target.
    pub fn local(target_os: &str, target_arch: &str) -> (res: RemotePlatform)
        ensures
            res.deep_view() == platform_of_target(target_os@, target_arch@),
    {
        let os = if same_text(target_os, "linux") {
            "linux"
        } else if same_text(target_os, "macos") {
            "macos"
        } else {
            "unknown"
        };
        let arch = if same_text(target_arch, "x86_64") {
            "x86_64"
        } else if same_text(target_arch, "aarch64") {
            "aarch64"
        } else {
            "unknown"
        };
        RemotePlatform { os, arch }
    }

    /// The name of this platform among the files of a release.
    pub fn asset_key(&self) -> (res: String)
        ensures
            res@ == asset_name(self.deep_view()),
    {
        let mut key = self.os.to_string();
        key.append("-");
        key.append(self.arch);
        key
    }

    /// Whether both are the same platform.
    pub fn same_as(&self, other: &RemotePlatform) -> (res: bool)
        ensures
            res == (self.deep_view() == other.deep_view()),
    {
        same_text(self.os, other.os) && same_text(self.arch, other.arch)
    }
}

/// A client that is built for neither Linux nor macOS never has the platform of a
/// host that is supported.
pub proof fn law_only_unix_clients_match_hosts(
    kernel: Seq<char>,
    machine: Seq<char>,
    target_os: Seq<char>,
    target_arch: Seq<char>,
)
    requires
        target_os != "linux"@,
        target_os != "macos"@,
    ensures
        platform_of_uname(kernel, machine) != Some(platform_of_target(target_os, target_arch)),
{
    reveal_strlit("linux");
    reveal_strlit("macos");
    reveal_strlit("unknown");
    assert("unknown"@.len() == 7 && "linux"@.len() == 5 && "macos"@.len() == 5);
}

/// A herdr binary on a remote host.
#[derive(Debug, PartialEq, Eq)]
pub struct RemoteHerdr {
    /// Where it is installed, below the home directory.
    pub install_suffix: String,
    /// How a shell of the host names it.
    pub shell_path: String,
    /// The platform of the host.
    pub platform: RemotePlatform,
}

/// A binary as its names.
#[verifier::ext_equal]
pub struct HerdrModel {
    pub install_suffix: Seq<char>,
    pub shell_path: Seq<char>,
    pub platform: PlatformModel,
}

impl DeepView for RemoteHerdr {
    type V = HerdrModel;

    open spec fn deep_view(&self) -> HerdrModel {
        HerdrModel {
            install_suffix: self.install_suffix@,
            shell_path: self.shell_path@,
            platform: self.platform.deep_view(),
        }
    }
}

impl Clone for RemoteHerdr {
    fn clone(&self) -> (res: Self)
        ensures
            res.deep_view() == self.deep_view(),
    {
        RemoteHerdr {
            install_suffix: self.install_suffix.clone(),
            shell_path: self.shell_path.clone(),
            platform: self.platform,
        }
    }
}

/// Where herdr is installed, below the home directory.
pub const INSTALL_SUFFIX: &'static str = ".local/bin/herdr";

/// The binary that is installed and replaced on a host of `platform`.
pub open spec fn managed_herdr(platform: PlatformModel) -> HerdrModel {
    HerdrModel {
        install_suffix: INSTALL_SUFFIX@,
        shell_path: "\"$HOME/"@ + INSTALL_SUFFIX@ + "\""@,
        platform,
    }
}

impl RemoteHerdr {
    /// The binary that is installed and replaced on a host of `platform`.
    pub fn for_platform(platform: RemotePlatform) -> (res: RemoteHerdr)
        ensures
            res.deep_view() == managed_herdr(platform.deep_view()),
    {
        let mut shell_path = "\"$HOME/".to_string();
        shell_path.append(INSTALL_SUFFIX);
        shell_path.append("\"");
        RemoteHerdr { install_suffix: INSTALL_SUFFIX.to_string(), shell_path, platform }
    }

    /// This binary under another name.
    pub fn with_shell_path(self, shell_path: String) -> (res: RemoteHerdr)
        ensures
            res.deep_view() == (HerdrModel { shell_path: shell_path@, ..self.deep_view() }),
    {
        RemoteHerdr { install_suffix: self.install_suffix, shell_path, platform: self.platform }
    }
}

/// Whether `path` is a stand-in that a version manager put in place of a binary.
pub open spec fn mise_shim(path: Seq<char>) -> bool {
    text::ends_in(path, "/mise/shims/herdr"@)
}

/// Whether `path` is a stand-in that a version manager put in place of a binary.
pub fn is_mise_shim_path(path: &str) -> (res: bool)
    ensures
        res == mise_shim(path@),
{
    ends_with(path, "/mise/shims/herdr")
}

/// Whether `path` is an absolute path, and not that of a stand-in.
pub open spec fn absolute_binary(path: Seq<char>) -> bool {
    path.len() > 0 && path[0] == '/' && !mise_shim(path)
}

/// The binary at `path`, where that is an absolute path of a binary and not of a
/// stand-in.
pub open spec fn herdr_at(base: HerdrModel, path: Seq<char>) -> Option<HerdrModel> {
    let path = text::trimmed(path);
    if absolute_binary(path) {
        Some(HerdrModel { shell_path: shell::shell_quoted(path), ..base })
    } else {
        None
    }
}

/// The binary at `path`, where that is an absolute path of a binary and not of a
/// stand-in.
pub fn remote_herdr_from_path(remote_herdr: &RemoteHerdr, path: &str) -> (res: Option<RemoteHerdr>)
    ensures
        res.deep_view() == herdr_at(remote_herdr.deep_view(), path@),
{
    let path = trim(path);
    if !starts_with_char(path.as_str(), '/') {
        return None;
    }
    if is_mise_shim_path(path.as_str()) {
        return None;
    }
    Some(remote_herdr.clone().with_shell_path(shell_quote(path.as_str())))
}

/// The binaries at `paths`, in order.
pub open spec fn herdrs_at(base: HerdrModel, paths: Seq<Seq<char>>) -> Seq<HerdrModel>
    decreases paths.len(),
{
    if paths.len() == 0 {
        Seq::empty()
    } else {
        let before = herdrs_at(base, paths.drop_last());
        match herdr_at(base, paths.last()) {
            Some(found) => before.push(found),
            None => before,
        }
    }
}

/// The binaries that a search found, which wrote one path on each line.
pub fn remote_herdrs_from_path_discovery(remote_herdr: &RemoteHerdr, stdout: &str) -> (res: Vec<
    RemoteHerdr,
>)
    ensures
        res.deep_view() == herdrs_at(remote_herdr.deep_view(), text::lines_of(stdout@)),
{
    let ghost base = remote_herdr.deep_view();
    let paths = lines(stdout);
    let ghost all = paths.deep_view();
    let mut found: Vec<RemoteHerdr> = Vec::new();
    let mut i: usize = 0;
    assert(found.deep_view() =~= herdrs_at(base, all.take(0)));
    while i < paths.len()
        invariant
            i <= paths@.len(),
            all == paths.deep_view(),
            all.len() == paths@.len(),
            base == remote_herdr.deep_view(),
            found.deep_view() == herdrs_at(base, all.take(i as int)),
        decreases paths@.len() - i,
    {
        let ghost before = found.deep_view();
        assert(all[i as int] == paths@[i as int]@);
        assert(all.take(i + 1).drop_last() =~= all.take(i as int));
        if let Some(herdr) = remote_herdr_from_path(remote_herdr, paths[i].as_str()) {
            let ghost model = herdr.deep_view();
            found.push(herdr);
            assert(found.deep_view() =~= before.push(model));
        }
        i = i + 1;
    }
    assert(all.take(i as int) =~= all);
    found
}

/// The first binary at `paths`.
pub open spec fn first_herdr_at(base: HerdrModel, paths: Seq<Seq<char>>) -> Option<HerdrModel> {
    if herdrs_at(base, paths).len() > 0 {
        Some(herdrs_at(base, paths)[0])
    } else {
        None
    }
}

/// The first binary that a search found, which wrote one path on each line.
pub fn remote_herdr_from_path_discovery(remote_herdr: &RemoteHerdr, stdout: &str) -> (res: Option<
    RemoteHerdr,
>)
    ensures
        res.deep_view() == first_herdr_at(remote_herdr.deep_view(), text::lines_of(stdout@)),
{
    let found = remote_herdrs_from_path_discovery(remote_herdr, stdout);
    if found.len() > 0 {
        assert(found.deep_view()[0] == found@[0].deep_view());
        Some(found[0].clone())
    } else {
        None
    }
}

/// A binary that a search found has an absolute path, which is not that of a stand-in,
/// and its name is that path for a shell.
pub proof fn law_found_binaries_have_absolute_paths(
    base: HerdrModel,
    paths: Seq<Seq<char>>,
    number: int,
)
    requires
        0 <= number < herdrs_at(base, paths).len(),
    ensures
        exists|i: int|
            0 <= i < paths.len() && absolute_binary(text::trimmed(#[trigger] paths[i]))
                && herdrs_at(base, paths)[number].shell_path == shell::shell_quoted(
                text::trimmed(paths[i]),
            ),
    decreases paths.len(),
{
    let front = paths.drop_last();
    let before = herdrs_at(base, front);
    if number < before.len() {
        law_found_binaries_have_absolute_paths(base, front, number);
        let i = choose|i: int|
            0 <= i < front.len() && absolute_binary(text::trimmed(#[trigger] front[i]))
                && before[number].shell_path == shell::shell_quoted(text::trimmed(front[i]));
        assert(paths[i] == front[i]);
    } else {
        assert(paths[paths.len() - 1] == paths.last());
    }
}

/// Whether `candidates` holds a binary of this name.
pub open spec fn names_candidate(candidates: Seq<HerdrModel>, shell_path: Seq<char>) -> bool {
    exists|i: int|
        0 <= i < candidates.len() && (#[trigger] candidates[i]).shell_path == shell_path
}

/// `candidates` with one more, unless it holds one of that name.
pub open spec fn with_candidate(candidates: Seq<HerdrModel>, candidate: HerdrModel) -> Seq<
    HerdrModel,
> {
    if names_candidate(candidates, candidate.shell_path) {
        candidates
    } else {
        candidates.push(candidate)
    }
}

/// `candidates` with more of them, in order.
pub open spec fn with_candidates(candidates: Seq<HerdrModel>, more: Seq<HerdrModel>) -> Seq<
    HerdrModel,
>
    decreases more.len(),
{
    if more.len() == 0 {
        candidates
    } else {
        with_candidate(with_candidates(candidates, more.drop_last()), more.last())
    }
}

/// Adds a candidate, unless there is one of that name.
pub fn push_if_new_remote_binary_candidate(
    candidates: &mut Vec<RemoteHerdr>,
    candidate: RemoteHerdr,
)
    ensures
        final(candidates).deep_view() == with_candidate(
            old(candidates).deep_view(),
            candidate.deep_view(),
        ),
{
    let ghost before = candidates.deep_view();
    let ghost model = candidate.deep_view();
    let mut i: usize = 0;
    while i < candidates.len()
        invariant
            i <= candidates@.len(),
            *candidates == *old(candidates),
            before == candidates.deep_view(),
            model == candidate.deep_view(),
            forall|j: int|
                0 <= j < i ==> (#[trigger] before[j]).shell_path != candidate.shell_path@,
        decreases candidates@.len() - i,
    {
        assert(before[i as int] == candidates@[i as int].deep_view());
        if same_text(candidates[i].shell_path.as_str(), candidate.shell_path.as_str()) {
            assert(names_candidate(before, model.shell_path));
            return ;
        }
        i = i + 1;
    }
    assert(!names_candidate(before, model.shell_path));
    candidates.push(candidate);
    assert(candidates.deep_view() =~= before.push(model));
}

/// The candidates of a host: the binary on its search path, then those that a search
/// of the usual places found, each name once.
pub open spec fn candidates_of(
    base: HerdrModel,
    on_path: Option<HerdrModel>,
    paths: Seq<Seq<char>>,
) -> Seq<HerdrModel> {
    let first = match on_path {
        Some(herdr) => seq![herdr],
        None => Seq::empty(),
    };
    with_candidates(first, herdrs_at(base, paths))
}

/// The candidates of a host, of which a search wrote one path on each line.
pub fn gather_candidates(
    remote_herdr: &RemoteHerdr,
    on_path: Option<RemoteHerdr>,
    stdout: &str,
) -> (res: Vec<RemoteHerdr>)
    ensures
        res.deep_view() == candidates_of(
            remote_herdr.deep_view(),
            on_path.deep_view(),
            text::lines_of(stdout@),
        ),
{
    let mut candidates: Vec<RemoteHerdr> = Vec::new();
    let ghost first = match on_path.deep_view() {
        Some(herdr) => seq![herdr],
        None => Seq::empty(),
    };
    assert(candidates.deep_view() =~= Seq::<HerdrModel>::empty());
    if let Some(herdr) = on_path {
        let ghost model = herdr.deep_view();
        push_if_new_remote_binary_candidate(&mut candidates, herdr);
        assert(candidates.deep_view() =~= seq![model]);
    }
    assert(candidates.deep_view() == first);
    let found = remote_herdrs_from_path_discovery(remote_herdr, stdout);
    let ghost all = found.deep_view();
    let mut i: usize = 0;
    assert(all.take(0) =~= Seq::<HerdrModel>::empty());
    while i < found.len()
        invariant
            i <= found@.len(),
            all == found.deep_view(),
            all.len() == found@.len(),
            candidates.deep_view() == with_candidates(first, all.take(i as int)),
        decreases found@.len() - i,
    {
        assert(all[i as int] == found@[i as int].deep_view());
        assert(all.take(i + 1).drop_last() =~= all.take(i as int));
        push_if_new_remote_binary_candidate(&mut candidates, found[i].clone());
        i = i + 1;
    }
    assert(all.take(i as int) =~= all);
    candidates
}

/// Whether no two candidates have one name.
pub open spec fn distinct_names(candidates: Seq<HerdrModel>) -> bool {
    forall|i: int, j: int|
        0 <= i < j < candidates.len() ==> (#[trigger] candidates[i]).shell_path != (
        #[trigger] candidates[j]).shell_path
}

/// Adding candidates keeps their names distinct, keeps those that were there, and
/// leaves none of the new names out.
pub proof fn law_candidates_are_distinct(candidates: Seq<HerdrModel>, more: Seq<HerdrModel>)
    requires
        distinct_names(candidates),
    ensures
        distinct_names(with_candidates(candidates, more)),
        candidates.len() <= with_candidates(candidates, more).len(),
        with_candidates(candidates, more).take(candidates.len() as int) == candidates,
        forall|i: int|
            0 <= i < more.len() ==> names_candidate(
                with_candidates(candidates, more),
                (#[trigger] more[i]).shell_path,
            ),
        forall|i: int|
            candidates.len() <= i < with_candidates(candidates, more).len() ==> more.contains(
                #[trigger] with_candidates(candidates, more)[i],
            ),
    decreases more.len(),
{
    let all = with_candidates(candidates, more);
    if more.len() == 0 {
        assert(all.take(candidates.len() as int) =~= candidates);
    } else {
        let front = more.drop_last();
        let last = more.last();
        let before = with_candidates(candidates, front);
        law_candidates_are_distinct(candidates, front);
        if names_candidate(before, last.shell_path) {
        } else {
            assert(all.take(candidates.len() as int) =~= candidates) by {
                assert(before.take(candidates.len() as int) =~= candidates);
                assert forall|k: int| 0 <= k < candidates.len() implies all[k] == candidates[k] by {
                    assert(before.take(candidates.len() as int)[k] == before[k]);
                }
            }
            assert(all[before.len() as int] == last);
        }
        assert(names_candidate(all, last.shell_path));
        assert forall|i: int| 0 <= i < more.len() implies names_candidate(
            all,
            (#[trigger] more[i]).shell_path,
        ) by {
            if i < front.len() {
                assert(front[i] == more[i]);
                let k = choose|k: int|
                    0 <= k < before.len() && (#[trigger] before[k]).shell_path
                        == more[i].shell_path;
                assert(all[k] == before[k]);
            }
        }
        assert forall|i: int| candidates.len() <= i < all.len() implies more.contains(
            #[trigger] all[i],
        ) by {
            if i < before.len() {
                assert(all[i] == before[i]);
                let k = choose|k: int| 0 <= k < front.len() && front[k] == before[i];
                assert(more[k] == before[i]);
            } else {
                assert(more[more.len() - 1] == last);
            }
        }
    }
}

/// The search of the usual places up to the version of this client.
pub const SEARCH_HEAD: &'static str = r#"home=${HOME:-}
user=${USER:-}
version="#;

/// The search behind the version, up to the places of one operating system.
pub const SEARCH_HOME: &'static str = r#"
emit() {
    path=$1
    if [ -n "$path" ] && [ -x "$path" ]; then
        printf '%s\n' "$path"
    fi
}
if [ -n "$home" ]; then
    emit "$home/.local/bin/herdr"
fi
"#;

/// The places of macOS.
pub const SEARCH_MACOS: &'static str = r#"    emit "/opt/homebrew/bin/herdr"
    emit "/usr/local/bin/herdr"
"#;

/// The places of Linux.
pub const SEARCH_LINUX: &'static str = r#"    emit "/home/linuxbrew/.linuxbrew/bin/herdr"
"#;

/// The places of every operating system.
pub const SEARCH_TAIL: &'static str = r#"if [ -n "$home" ]; then
    emit "$home/.local/share/mise/installs/herdr/$version/bin/herdr"
    emit "$home/.local/share/mise/installs/github-ogulcancelik-herdr/$version/herdr"
    emit "$home/.nix-profile/bin/herdr"
fi
if [ -n "$user" ]; then
    emit "/etc/profiles/per-user/$user/bin/herdr"
fi
emit "/nix/var/nix/profiles/default/bin/herdr"
emit "/run/current-system/sw/bin/herdr"
"#;

/// The places that only hosts of this operating system have.
pub open spec fn places_of_os(os: Seq<char>) -> Seq<char> {
    if os == "macos"@ {
        SEARCH_MACOS@
    } else if os == "linux"@ {
        SEARCH_LINUX@
    } else {
        Seq::empty()
    }
}

/// The script that searches the usual places of a host for binaries.
pub open spec fn search_script(os: Seq<char>, version: Seq<char>) -> Seq<char> {
    SEARCH_HEAD@ + shell::shell_quoted(version) + SEARCH_HOME@ + places_of_os(os) + SEARCH_TAIL@
}

/// The script that searches the usual places of a host for binaries of this client's
/// version and of any other.
pub fn known_remote_binary_candidate_script(client: &ClientBuild, platform: &RemotePlatform) -> (res:
    String)
    ensures
        res@ == search_script(platform.os@, client.version@),
{
    let mut script = SEARCH_HEAD.to_string();
    script.append(shell_quote(client.version.as_str()).as_str());
    script.append(SEARCH_HOME);
    if same_text(platform.os, "macos") {
        script.append(SEARCH_MACOS);
    } else if same_text(platform.os, "linux") {
        script.append(SEARCH_LINUX);
    } else {
        assert(script@ + Seq::<char>::empty() =~= script@);
    }
    script.append(SEARCH_TAIL);
    script
}

/// The script that names a host's kernel and machine.
pub const UNAME_SCRIPT: &'static str = "uname -s\nuname -m\n";

/// The platform that a host's `uname` tells of, or the error about one that is not
/// supported.
pub open spec fn platform_told(stdout: Seq<char>) -> Result<PlatformModel, report::ErrorModel> {
    let kernel = text::line_or_empty(stdout, 0);
    let machine = text::line_or_empty(stdout, 1);
    match platform_of_uname(kernel, machine) {
        Some(platform) => Ok(platform),
        None => Err(
            report::plain_error(
                "unsupported remote platform: "@ + text::trimmed(kernel) + " "@ + text::trimmed(
                    machine,
                ),
            ),
        ),
    }
}

/// The platform that a host's `uname` tells of.
pub fn platform_from_uname_output(stdout: &str) -> (res: Result<RemotePlatform, RemoteError>)
    ensures
        report::outcome(res) == platform_told(stdout@),
{
    let os = nth_line(stdout, 0);
    let arch = nth_line(stdout, 1);
    match RemotePlatform::from_uname(os.as_str(), arch.as_str()) {
        Some(platform) => Ok(platform),
        None => {
            let mut message = "unsupported remote platform: ".to_string();
            message.append(trim(os.as_str()).as_str());
            message.append(" ");
            message.append(trim(arch.as_str()).as_str());
            Err(other_error(message))
        },
    }
}

/// The platform of a host that answered the script with its kernel and machine.
pub open spec fn platform_detected(output: CommandOutput) -> Result<
    PlatformModel,
    report::ErrorModel,
> {
    if !output.success {
        Err(report::command_error("remote platform detection failed"@, output))
    } else {
        platform_told(text::utf8_lossy(output.stdout@))
    }
}

/// The platform of a host that answered the script with its kernel and machine.
pub fn detect_remote_platform(output: &CommandOutput) -> (res: Result<RemotePlatform, RemoteError>)
    ensures
        report::outcome(res) == platform_detected(*output),
{
    if !output.success {
        return Err(command_failed("remote platform detection failed", output));
    }
    let stdout = from_utf8_lossy(output.stdout.as_slice());
    platform_from_uname_output(stdout.as_str())
}

/// The command that asks a host's shell where its herdr is.
pub const WHICH_COMMAND: &'static str = "command -v herdr";

/// The binary that a host's shell resolves, where it resolves one.
pub open spec fn herdr_on_path(base: HerdrModel, output: CommandOutput) -> Option<HerdrModel> {
    if !output.success {
        None
    } else {
        first_herdr_at(base, text::lines_of(text::utf8_lossy(output.stdout@)))
    }
}

/// The binary that a host's shell resolves, where it resolves one.
pub fn remote_binary_on_path_any(remote_herdr: &RemoteHerdr, output: &CommandOutput) -> (res:
    Option<RemoteHerdr>)
    ensures
        res.deep_view() == herdr_on_path(remote_herdr.deep_view(), *output),
{
    if !output.success {
        return None;
    }
    let stdout = from_utf8_lossy(output.stdout.as_slice());
    remote_herdr_from_path_discovery(remote_herdr, stdout.as_str())
}

/// The candidates of a host that answered the search of the usual places.
pub open spec fn candidates_found(
    base: HerdrModel,
    on_path: Option<HerdrModel>,
    output: CommandOutput,
) -> Result<Seq<HerdrModel>, report::ErrorModel> {
    if !output.success {
        Err(report::command_error("remote binary discovery failed"@, output))
    } else {
        Ok(candidates_of(base, on_path, text::lines_of(text::utf8_lossy(output.stdout@))))
    }
}

/// The candidates of a host that answered the search of the usual places.
pub fn remote_binary_candidates(
    remote_herdr: &RemoteHerdr,
    on_path: Option<RemoteHerdr>,
    output: &CommandOutput,
) -> (res: Result<Vec<RemoteHerdr>, RemoteError>)
    ensures
        report::outcome(res) == candidates_found(
            remote_herdr.deep_view(),
            on_path.deep_view(),
            *output,
        ),
{
    if !output.success {
        return Err(command_failed("remote binary discovery failed", output));
    }
    let stdout = from_utf8_lossy(output.stdout.as_slice());
    Ok(gather_candidates(remote_herdr, on_path, stdout.as_str()))
}

/// The script that asks a binary for its version and its status.
pub open spec fn match_script(shell_path: Seq<char>) -> Seq<char> {
    "test -x "@ + shell_path + " && "@ + shell_path + " --version && "@ + shell_path
        + " status client --json"@
}

/// The script that asks a binary for its version and its status.
pub fn remote_binary_match_script(remote_herdr: &RemoteHerdr) -> (res: String)
    ensures
        res@ == match_script(remote_herdr.shell_path@),
{
    let path = remote_herdr.shell_path.as_str();
    let mut script = "test -x ".to_string();
    script.append(path);
    script.append(" && ");
    script.append(path);
    script.append(" --version && ");
    script.append(path);
    script.append(" status client --json");
    script
}

/// Whether a binary that wrote its version and its status is the one of this client:
/// `protocol` is the protocol that its status names, if it names one.
pub open spec fn binary_matches(
    version: Seq<char>,
    client_protocol: u32,
    stdout: Seq<char>,
    protocol: Option<u32>,
) -> bool {
    &&& text::trimmed(text::line_or_empty(stdout, 0)) == "herdr "@ + version
    &&& protocol == Some(client_protocol)
}

/// Whether a binary that wrote its version and its status is the one of this client:
/// `protocol` is the protocol that its status names, if it names one.
pub fn binary_reports_client(client: &ClientBuild, stdout: &str, protocol: Option<u32>) -> (res:
    bool)
    ensures
        res == binary_matches(client.version@, client.protocol, stdout@, protocol),
{
    let reported = trim(nth_line(stdout, 0).as_str());
    let mut expected = "herdr ".to_string();
    expected.append(client.version.as_str());
    same_text(reported.as_str(), expected.as_str()) && match protocol {
        Some(protocol) => protocol == client.protocol,
        None => false,
    }
}

/// The line of a binary's answer that holds its status.
pub fn client_status_line(output: &CommandOutput) -> (res: String)
    ensures
        res@ == text::line_or_empty(text::utf8_lossy(output.stdout@), 1),
{
    nth_line(from_utf8_lossy(output.stdout.as_slice()).as_str(), 1)
}

/// Whether the binary that answered is the one of this client: `protocol` is the
/// protocol that its status names, if it names one.
pub open spec fn output_matches(
    client: ClientBuild,
    output: CommandOutput,
    protocol: Option<u32>,
) -> bool {
    output.success && binary_matches(
        client.version@,
        client.protocol,
        text::utf8_lossy(output.stdout@),
        protocol,
    )
}

/// Whether the binary that answered is the one of this client: `protocol` is the
/// protocol that its status names, if it names one.
pub fn remote_binary_matches(
    client: &ClientBuild,
    output: &CommandOutput,
    protocol: Option<u32>,
) -> (res: bool)
    ensures
        res == output_matches(*client, *output, protocol),
{
    output.success && binary_reports_client(
        client,
        from_utf8_lossy(output.stdout.as_slice()).as_str(),
        protocol,
    )
}

/// The script that asks whether a binary is there.
pub fn remote_binary_exists_script(remote_herdr: &RemoteHerdr) -> (res: String)
    ensures
        res@ == "test -x "@ + remote_herdr.shell_path@,
{
    let mut script = "test -x ".to_string();
    script.append(remote_herdr.shell_path.as_str());
    script
}

/// Whether a shell that wrote `stdout` resolves the installed binary.
pub open spec fn resolves_managed_install(stdout: Seq<char>) -> bool {
    text::lines_of(stdout).len() > 0 && text::ends_in(
        text::trimmed(text::lines_of(stdout)[0]),
        "/.local/bin/herdr"@,
    )
}

/// Whether a shell that wrote `stdout` resolves the installed binary.
pub fn remote_shell_resolves_managed_install(stdout: &str) -> (res: bool)
    ensures
        res == resolves_managed_install(stdout@),
{
    let all = lines(stdout);
    if all.len() == 0 {
        return false;
    }
    assert(all.deep_view()[0] == all@[0]@);
    ends_with(trim(all[0].as_str()).as_str(), "/.local/bin/herdr")
}

/// The warning about a host whose shell does not resolve the installed binary.
pub const PATH_WARNING: &'static str = "herdr: installed remote binary to ~/.local/bin/herdr, but the remote shell does not resolve `herdr` to that path";

/// Whether a shell's answer calls for a warning.
pub open spec fn path_warning_due(output: CommandOutput) -> bool {
    !(output.success && resolves_managed_install(text::utf8_lossy(output.stdout@)))
}

/// The warning that a shell's answer calls for, if it does.
pub fn warn_if_remote_bin_not_on_path(output: &CommandOutput) -> (res: Option<&'static str>)
    ensures
        res.deep_view() == (if path_warning_due(*output) {
            Some(PATH_WARNING@)
        } else {
            None
        }),
{
    if output.success && remote_shell_resolves_managed_install(
        from_utf8_lossy(output.stdout.as_slice()).as_str(),
    ) {
        None
    } else {
        Some(PATH_WARNING)
    }
}

/// The command that runs a binary as the far end of a bridge.
pub open spec fn bridge_command(
    shell_path: Seq<char>,
    session_name: Seq<char>,
    default_session: Seq<char>,
) -> Seq<char> {
    "exec "@ + shell_path + (if session_name == default_session {
        Seq::empty()
    } else {
        " --session "@ + shell::shell_quoted(session_name)
    }) + " remote-client-bridge"@
}

/// The command that runs a binary as the far end of a bridge.
pub fn remote_bridge_command(
    remote_herdr: &RemoteHerdr,
    session_name: &str,
    default_session: &str,
) -> (res: String)
    ensures
        res@ == bridge_command(remote_herdr.shell_path@, session_name@, default_session@),
{
    let mut command = "exec ".to_string();
    command.append(remote_herdr.shell_path.as_str());
    if !same_text(session_name, default_session) {
        let ghost before = command@;
        let quoted = shell_quote(session_name);
        command.append(" --session ");
        command.append(quoted.as_str());
        assert(command@ =~= before + (" --session "@ + quoted@));
    } else {
        assert(command@ + Seq::<char>::empty() =~= command@);
    }
    command.append(" remote-client-bridge");
    command
}

/// A shell reads the bridge command of a binary that was found at `path` as the words
/// that run it there.
pub proof fn law_bridge_command_reads_back(
    path: Seq<char>,
    session_name: Seq<char>,
    default_session: Seq<char>,
)
    ensures
        shell::shell_words(
            bridge_command(shell::shell_quoted(path), session_name, default_session),
            None,
            false,
        ) == Some(
            seq!["exec"@, path] + args::session_words(session_name, default_session)
                + seq!["remote-client-bridge"@],
        ),
{
    reveal_strlit("exec");
    reveal_strlit("exec ");
    reveal_strlit("--session");
    reveal_strlit(" --session ");
    reveal_strlit("remote-client-bridge");
    reveal_strlit(" remote-client-bridge");
    let quoted = shell::shell_quoted(path);
    let run = seq!["exec"@, path];
    assert(shell::bare_word("exec"@));
    assert(shell::bare_word("--session"@));
    assert(shell::bare_word("remote-client-bridge"@));
    assert(run.drop_last() =~= seq!["exec"@]);
    assert(shell::quoted_line(seq!["exec"@]) == "exec"@);
    assert("exec "@ =~= "exec"@ + seq![' ']);
    assert(shell::quoted_line(run) == "exec "@ + quoted);
    let bridge = "remote-client-bridge"@;
    assert(" remote-client-bridge"@ =~= seq![' '] + bridge);
    let named = args::session_words(session_name, default_session);
    let front = run + named;
    if session_name != default_session {
        let session = "--session"@;
        let spoken = shell::shell_quoted(session_name);
        assert(front =~= run.push(session).push(session_name));
        assert(run.push(session).push(session_name).drop_last() =~= run.push(session));
        assert(run.push(session).drop_last() =~= run);
        assert(shell::quoted_line(run.push(session)) == shell::quoted_line(run) + seq![' ']
            + session);
        assert(shell::quoted_line(front) == shell::quoted_line(run) + seq![' '] + session + seq![
            ' ',
        ] + spoken);
        assert(" --session "@ =~= seq![' '] + session + seq![' ']);
        assert(shell::quoted_line(front) =~= "exec "@ + quoted + (" --session "@ + spoken));
    } else {
        assert(front =~= run);
        assert("exec "@ + quoted + Seq::<char>::empty() =~= "exec "@ + quoted);
    }
    let words = front + seq![bridge];
    assert(words.drop_last() =~= front);
    assert(shell::quoted_line(words) == shell::quoted_line(front) + seq![' '] + bridge);
    assert(bridge_command(quoted, session_name, default_session) =~= shell::quoted_line(words));
    shell::law_quoted_line_reads_back(words);
}

/// The platform of a host is told exactly for the kernels of Linux and macOS on machines of
/// the two architectures. The system is called after its kernel. A machine that is called by
/// the name of an architecture has that one, and one that is called by its other name has
/// the same. White space around the names does not matter.
pub proof fn law_platform_follows_uname(kernel: Seq<char>, machine: Seq<char>)
    ensures
        ({
            let k = text::trimmed(kernel);
            let m = text::trimmed(machine);
            let known = (k == "Linux"@ || k == "Darwin"@) && (m == "x86_64"@ || m == "amd64"@ || m
                == "aarch64"@ || m == "arm64"@);
            &&& platform_of_uname(kernel, machine) is Some <==> known
            &&& known ==> {
                let platform = platform_of_uname(kernel, machine)->Some_0;
                &&& platform.os == "linux"@ <==> k == "Linux"@
                &&& platform.os == "macos"@ <==> k == "Darwin"@
                &&& m == "x86_64"@ || m == "aarch64"@ ==> platform.arch == m
                &&& m == "amd64"@ ==> platform.arch == "x86_64"@
                &&& m == "arm64"@ ==> platform.arch == "aarch64"@
            }
        }),
{
    reveal_strlit("Linux");
    reveal_strlit("Darwin");
    reveal_strlit("linux");
    reveal_strlit("macos");
    reveal_strlit("x86_64");
    reveal_strlit("amd64");
    reveal_strlit("aarch64");
    reveal_strlit("arm64");
    assert("Linux"@.len() == 5 && "Darwin"@.len() == 6);
    assert("linux"@[0] == 'l' && "macos"@[0] == 'm');
    assert("x86_64"@.len() == 6 && "amd64"@.len() == 5 && "aarch64"@.len() == 7 && "arm64"@.len()
        == 5);
    assert("amd64"@[1] == 'm' && "arm64"@[1] == 'r');
}

/// A host of a supported platform has the platform of the clients that are built for it, and
/// names it among the files of a release by the system and the architecture.
pub proof fn law_host_platform_is_a_target(kernel: Seq<char>, machine: Seq<char>)
    requires
        platform_of_uname(kernel, machine) is Some,
    ensures
        ({
            let platform = platform_of_uname(kernel, machine)->Some_0;
            &&& platform_of_target(platform.os, platform.arch) == platform
            &&& asset_name(platform) == platform.os + "-"@ + platform.arch
        }),
{
    law_platform_follows_uname(kernel, machine);
}

/// Platforms of different systems or architectures have different names among the files of a
/// release.
pub proof fn law_asset_names_differ(a: PlatformModel, b: PlatformModel)
    requires
        forall|i: int| 0 <= i < a.os.len() ==> a.os[i] != '-',
        forall|i: int| 0 <= i < b.os.len() ==> b.os[i] != '-',
        asset_name(a) == asset_name(b),
    ensures
        a == b,
{
    reveal_strlit("-");
    let one = asset_name(a);
    let other = asset_name(b);
    let n = a.os.len() as int;
    let m = b.os.len() as int;
    assert(one[n] == '-');
    assert(other[m] == '-');
    if n < m {
        assert(other[n] == b.os[n]);
    } else if m < n {
        assert(one[m] == a.os[m]);
    }
    assert(one.take(n) =~= a.os);
    assert(other.take(n) =~= b.os);
    assert(one.skip(n + 1) =~= a.arch);
    assert(other.skip(n + 1) =~= b.arch);
}

/// A client keeps the system and the architecture that it was built for where those are
/// known ones, each apart from the other.
pub proof fn law_client_platform(target_os: Seq<char>, target_arch: Seq<char>)
    ensures
        ({
            let platform = platform_of_target(target_os, target_arch);
            &&& target_os == "linux"@ || target_os == "macos"@ ==> platform.os == target_os
            &&& target_os != "linux"@ && target_os != "macos"@ ==> platform.os == "unknown"@
            &&& target_arch == "x86_64"@ || target_arch == "aarch64"@ ==> platform.arch
                == target_arch
            &&& target_arch != "x86_64"@ && target_arch != "aarch64"@ ==> platform.arch
                == "unknown"@
        }),
{
}

/// The platform is told by the first two lines that a host answers: its kernel, and its
/// machine. An answer of other names is an error that names both.
pub proof fn law_platform_is_told_by_two_lines(
    kernel: Seq<char>,
    machine: Seq<char>,
    rest: Seq<char>,
)
    requires
        forall|i: int| 0 <= i < kernel.len() ==> kernel[i] != '\n',
        forall|i: int| 0 <= i < machine.len() ==> machine[i] != '\n',
        !(kernel.len() > 0 && kernel.last() == '\r'),
        !(machine.len() > 0 && machine.last() == '\r'),
    ensures
        ({
            let stdout = kernel + seq!['\n'] + (machine + seq!['\n'] + rest);
            match platform_of_uname(kernel, machine) {
                Some(platform) => platform_told(stdout) == Ok::<PlatformModel, report::ErrorModel>(
                    platform,
                ),
                None => platform_told(stdout) matches Err(error) && error.kind
                    == report::ErrorKind::Other && text::mentions(
                    error.message,
                    text::trimmed(kernel),
                ) && text::ends_in(error.message, text::trimmed(machine)),
            }
        }),
{
    text::law_line_or_empty(kernel, machine, rest);
    let k = text::trimmed(kernel);
    let m = text::trimmed(machine);
    let head = "unsupported remote platform: "@;
    text::lemma_mentions(head, k, " "@ + m);
    assert(head + k + (" "@ + m) =~= head + k + " "@ + m);
    text::law_begins_and_ends(m, m, head + k + " "@);
}

/// The binary that is installed on a host, whatever its platform is, is the one below the
/// home directory, which a shell of the host resolves.
pub proof fn law_managed_binary_is_below_home(platform: PlatformModel)
    ensures
        managed_herdr(platform).platform == platform,
        managed_herdr(platform).install_suffix == ".local/bin/herdr"@,
        managed_herdr(platform).shell_path == "\"$HOME/.local/bin/herdr\""@,
{
    reveal_strlit("\"$HOME/");
    reveal_strlit(".local/bin/herdr");
    reveal_strlit("\"");
    reveal_strlit("\"$HOME/.local/bin/herdr\"");
    assert("\"$HOME/"@ + ".local/bin/herdr"@ + "\""@ =~= "\"$HOME/.local/bin/herdr\""@);
}

/// A path that was found stands for a binary exactly when it is absolute and not that of a
/// stand-in, with whatever white space around it. A shell reads the name of that binary as
/// the path, and all else is as it was.
pub proof fn law_found_path_names_a_binary(
    base: HerdrModel,
    front: Seq<char>,
    path: Seq<char>,
    back: Seq<char>,
)
    requires
        text::all_white(front),
        text::all_white(back),
        text::tight(path),
    ensures
        herdr_at(base, front + path + back) is Some <==> text::begins_with(path, "/"@)
            && !text::ends_in(path, "/mise/shims/herdr"@),
        herdr_at(base, front + path + back) matches Some(herdr) ==> {
            &&& shell::shell_words(herdr.shell_path, None, false) == Some(seq![path])
            &&& herdr.shell_path == shell::shell_quoted(path)
            &&& herdr.install_suffix == base.install_suffix
            &&& herdr.platform == base.platform
        },
{
    reveal_strlit("/");
    text::law_trimmed_undoes_padding(front, path, back);
    shell::law_shell_quote_is_one_word(path);
    if path.len() > 0 {
        assert(path.take(1)[0] == path[0]);
        if path[0] == '/' {
            assert(path.take(1) =~= "/"@);
        }
    }
}

/// The binaries at paths are, path for path and in order, those that the paths stand for.
pub proof fn law_paths_are_taken_in_order(
    base: HerdrModel,
    front: Seq<Seq<char>>,
    path: Seq<char>,
    back: Seq<Seq<char>>,
)
    ensures
        herdrs_at(base, front + seq![path] + back) == herdrs_at(base, front) + (match herdr_at(
            base,
            path,
        ) {
            Some(herdr) => seq![herdr],
            None => Seq::empty(),
        }) + herdrs_at(base, back),
        herdrs_at(base, Seq::empty()) == Seq::<HerdrModel>::empty(),
    decreases back.len(),
{
    let all = front + seq![path] + back;
    let one = match herdr_at(base, path) {
        Some(herdr) => seq![herdr],
        None => Seq::<HerdrModel>::empty(),
    };
    let before = herdrs_at(base, front);
    if back.len() == 0 {
        assert(all.drop_last() =~= front);
        assert(all.last() == path);
        assert(herdrs_at(base, back) =~= Seq::<HerdrModel>::empty());
        assert(herdrs_at(base, all) =~= before + one + herdrs_at(base, back));
    } else {
        assert(all.drop_last() =~= front + seq![path] + back.drop_last());
        assert(all.last() == back.last());
        law_paths_are_taken_in_order(base, front, path, back.drop_last());
        assert(herdrs_at(base, all) =~= before + one + herdrs_at(base, back));
    }
}

/// The first binary at paths is the one that the first path stands for which stands for one.
pub proof fn law_first_path_counts(
    base: HerdrModel,
    front: Seq<Seq<char>>,
    path: Seq<char>,
    back: Seq<Seq<char>>,
)
    requires
        forall|i: int| 0 <= i < front.len() ==> herdr_at(base, #[trigger] front[i]) is None,
    ensures
        herdr_at(base, path) is Some ==> first_herdr_at(base, front + seq![path] + back)
            == herdr_at(base, path),
        first_herdr_at(base, front) is None,
    decreases front.len(),
{
    if front.len() > 0 {
        let shorter = front.drop_last();
        assert forall|i: int| 0 <= i < shorter.len() implies herdr_at(
            base,
            #[trigger] shorter[i],
        ) is None by {
            assert(shorter[i] == front[i]);
        }
        assert(herdr_at(base, front[front.len() - 1]) is None);
        law_first_path_counts(base, shorter, path, back);
    }
    assert(herdrs_at(base, front).len() == 0);
    law_paths_are_taken_in_order(base, front, path, back);
}

/// The candidates of a host begin with the binary on its search path, where there is one.
/// The binaries that the search found follow in order, each unless one of its name is there
/// before it.
pub proof fn law_candidates_in_order(
    base: HerdrModel,
    on_path: Option<HerdrModel>,
    paths: Seq<Seq<char>>,
    path: Seq<char>,
)
    ensures
        candidates_of(base, on_path, Seq::empty()) == (match on_path {
            Some(herdr) => seq![herdr],
            None => Seq::<HerdrModel>::empty(),
        }),
        ({
            let before = candidates_of(base, on_path, paths);
            let after = candidates_of(base, on_path, paths.push(path));
            match herdr_at(base, path) {
                Some(herdr) => if exists|i: int|
                    0 <= i < before.len() && (#[trigger] before[i]).shell_path
                        == herdr.shell_path {
                    after == before
                } else {
                    after == before.push(herdr)
                },
                None => after == before,
            }
        }),
{
    let more = herdrs_at(base, paths);
    assert(paths.push(path).drop_last() =~= paths);
    if let Some(herdr) = herdr_at(base, path) {
        assert(herdrs_at(base, paths.push(path)) == more.push(herdr));
        assert(more.push(herdr).drop_last() =~= more);
    }
}

/// A host's shell that fails resolves no binary, and a search that fails is an error. What
/// either wrote is read line by line otherwise.
pub proof fn law_failed_searches_find_nothing(
    base: HerdrModel,
    on_path: Option<HerdrModel>,
    output: CommandOutput,
)
    ensures
        !output.success ==> herdr_on_path(base, output) is None,
        output.success ==> herdr_on_path(base, output) == first_herdr_at(
            base,
            text::lines_of(text::utf8_lossy(output.stdout@)),
        ),
        !output.success ==> (candidates_found(base, on_path, output) matches Err(error)
            && text::begins_with(error.message, "remote binary discovery failed: "@)),
        output.success ==> (candidates_found(base, on_path, output) matches Ok(found) && found
            == candidates_of(base, on_path, text::lines_of(text::utf8_lossy(output.stdout@)))),
        !output.success ==> (platform_detected(output) matches Err(error) && text::begins_with(
            error.message,
            "remote platform detection failed: "@,
        )),
        output.success ==> platform_detected(output) == platform_told(
            text::utf8_lossy(output.stdout@),
        ),
{
    reveal_strlit("remote binary discovery failed");
    reveal_strlit("remote platform detection failed");
    reveal_strlit(": ");
    reveal_strlit("remote binary discovery failed: ");
    reveal_strlit("remote platform detection failed: ");
    assert("remote binary discovery failed"@ + ": "@ =~= "remote binary discovery failed: "@);
    assert("remote platform detection failed"@ + ": "@ =~= "remote platform detection failed: "@);
    let said = text::trimmed(text::utf8_lossy(output.stderr@));
    let why = if said.len() == 0 {
        output.status@
    } else {
        said
    };
    text::law_begins_and_ends(why, "remote binary discovery failed: "@, why);
    text::law_begins_and_ends(why, "remote platform detection failed: "@, why);
}

/// A binary is the one of this client exactly when its first line is the name of the program
/// and this client's version, and its status names this client's protocol.
pub proof fn law_matching_binary(
    version: Seq<char>,
    client_protocol: u32,
    line: Seq<char>,
    rest: Seq<char>,
    protocol: Option<u32>,
)
    requires
        forall|i: int| 0 <= i < line.len() ==> line[i] != '\n',
        !(line.len() > 0 && line.last() == '\r'),
    ensures
        binary_matches(version, client_protocol, line + seq!['\n'] + rest, protocol) <==> (
        text::trimmed(line) == "herdr "@ + version && protocol == Some(client_protocol)),
{
    text::law_lines_are_split_at_line_feeds(line, rest);
}

/// A binary whose command failed is not the one of this client, whatever it wrote.
pub proof fn law_failed_binary_does_not_match(
    client: ClientBuild,
    output: CommandOutput,
    protocol: Option<u32>,
)
    ensures
        output_matches(client, output, protocol) ==> output.success && protocol == Some(
            client.protocol,
        ) && text::trimmed(text::line_or_empty(text::utf8_lossy(output.stdout@), 0)) == "herdr "@
            + client.version@,
        output.success && protocol == Some(client.protocol) && text::trimmed(
            text::line_or_empty(text::utf8_lossy(output.stdout@), 0),
        ) == "herdr "@ + client.version@ ==> output_matches(client, output, protocol),
{
}

/// A shell resolves the installed binary exactly when the first line that it wrote is a path
/// that ends where the binary is installed. A user is warned unless it succeeded and does.
pub proof fn law_managed_install_is_resolved(
    path: Seq<char>,
    rest: Seq<char>,
    output: CommandOutput,
)
    requires
        forall|i: int| 0 <= i < path.len() ==> path[i] != '\n',
        !(path.len() > 0 && path.last() == '\r'),
    ensures
        resolves_managed_install(path + seq!['\n'] + rest) <==> text::ends_in(
            text::trimmed(path),
            "/.local/bin/herdr"@,
        ),
        path_warning_due(output) <==> !output.success || !resolves_managed_install(
            text::utf8_lossy(output.stdout@),
        ),
        !resolves_managed_install(Seq::empty()),
{
    text::law_lines_are_split_at_line_feeds(path, rest);
}

/// The script that asks a binary at `path` for its version and status consists of three
/// commands of which each runs only where the one before it succeeded: a test that the
/// binary is there, and the two questions.
pub proof fn law_match_script_asks_three_things(path: Seq<char>)
    ensures
        exists|test: Seq<char>, version: Seq<char>, status: Seq<char>|
            #![trigger shell::shell_words(test, None, false), shell::shell_words(
                version,
                None,
                false,
            ), shell::shell_words(status, None, false)]
            {
                &&& match_script(shell::shell_quoted(path)) == test + " && "@ + version + " && "@
                    + status
                &&& shell::shell_words(test, None, false) == Some(seq!["test"@, "-x"@, path])
                &&& shell::shell_words(version, None, false) == Some(seq![path, "--version"@])
                &&& shell::shell_words(status, None, false) == Some(
                    seq![path, "status"@, "client"@, "--json"@],
                )
            },
{
    reveal_strlit("test");
    reveal_strlit("-x");
    reveal_strlit("test -x ");
    reveal_strlit(" && ");
    reveal_strlit("--version");
    reveal_strlit(" --version && ");
    reveal_strlit("status");
    reveal_strlit("client");
    reveal_strlit("--json");
    reveal_strlit(" status client --json");
    assert(shell::bare_word("test"@));
    assert(shell::bare_word("-x"@));
    assert(shell::bare_word("--version"@));
    assert(shell::bare_word("status"@));
    assert(shell::bare_word("client"@));
    assert(shell::bare_word("--json"@));
    let quoted = shell::shell_quoted(path);
    let space = seq![' '];
    let first = seq!["test"@];
    shell::lemma_quoted_line_push(first, "-x"@);
    shell::lemma_quoted_line_push(first.push("-x"@), path);
    let test_words = first.push("-x"@).push(path);
    let test = shell::quoted_line(test_words);
    assert("test -x "@ =~= "test"@ + space + "-x"@ + space);
    assert(test =~= "test -x "@ + quoted);
    let program = seq![path];
    assert(shell::quoted_line(program) == quoted);
    shell::lemma_quoted_line_push(program, "--version"@);
    let version_words = program.push("--version"@);
    let version = shell::quoted_line(version_words);
    shell::lemma_quoted_line_push(program, "status"@);
    shell::lemma_quoted_line_push(program.push("status"@), "client"@);
    shell::lemma_quoted_line_push(program.push("status"@).push("client"@), "--json"@);
    let status_words = program.push("status"@).push("client"@).push("--json"@);
    let status = shell::quoted_line(status_words);
    assert(" status client --json"@ =~= space + "status"@ + space + "client"@ + space + "--json"@);
    assert(status =~= quoted + " status client --json"@);
    assert(" --version && "@ =~= space + "--version"@ + " && "@);
    assert(match_script(quoted) =~= test + " && "@ + version + " && "@ + status);
    shell::law_quoted_line_reads_back(test_words);
    shell::law_quoted_line_reads_back(version_words);
    shell::law_quoted_line_reads_back(status_words);
    assert(test_words =~= seq!["test"@, "-x"@, path]);
    assert(version_words =~= seq![path, "--version"@]);
    assert(status_words =~= seq![path, "status"@, "client"@, "--json"@]);
    assert(shell::shell_words(test, None, false) == Some(seq!["test"@, "-x"@, path]));
    assert(shell::shell_words(version, None, false) == Some(seq![path, "--version"@]));
    assert(shell::shell_words(status, None, false) == Some(
        seq![path, "status"@, "client"@, "--json"@],
    ));
}

/// The search of a host is given this client's version as one word, and looks at the places
/// of the host's system and at none of the other one's.
pub proof fn law_search_by_system(os: Seq<char>, version: Seq<char>)
    ensures
        text::begins_with(search_script(os, version), SEARCH_HEAD@ + shell::shell_quoted(version)),
        os == "linux"@ ==> text::mentions(search_script(os, version), SEARCH_LINUX@)
            && search_script(os, version).len() == search_script(Seq::empty(), version).len()
            + SEARCH_LINUX@.len(),
        os == "macos"@ ==> text::mentions(search_script(os, version), SEARCH_MACOS@)
            && search_script(os, version).len() == search_script(Seq::empty(), version).len()
            + SEARCH_MACOS@.len(),
{
    reveal_strlit("linux");
    reveal_strlit("macos");
    assert("linux"@.len() == 5 && "macos"@.len() == 5);
    assert("linux"@[0] == 'l' && "macos"@[0] == 'm');
    let front = SEARCH_HEAD@ + shell::shell_quoted(version);
    let rest = SEARCH_HOME@ + places_of_os(os) + SEARCH_TAIL@;
    text::law_begins_and_ends(rest, front, rest);
    assert(front + rest =~= search_script(os, version));
    text::lemma_mentions(front + SEARCH_HOME@, places_of_os(os), SEARCH_TAIL@);
}

} // verus!
