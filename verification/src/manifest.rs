//! The manifests that list released binaries, and the choice of the one for a host.
use crate::host::ClientBuild;
use crate::report::CommandOutput;
use crate::report::ErrorKind;
use crate::report::RemoteError;
use crate::report::command_failed;
use crate::report::other_error;
use crate::report;
use crate::table::TextMap;
use crate::text::decimal_text;
use crate::text::same_text;
use crate::text::trim;
use crate::text::trim_start_matches;
use crate::text;
use vstd::prelude::*;
use vstd::string::*;

verus! {

pub const STABLE_UPDATE_MANIFEST_URL: &'static str = "https://herdr.dev/latest.json";

pub const PREVIEW_UPDATE_MANIFEST_URL: &'static str = "https://herdr.dev/preview.json";

/// The variable that names a binary to install in place of a released one.
pub const REMOTE_BINARY_ENV_VAR: &'static str = "HERDR_REMOTE_BINARY";

/// A released file, by its address alone or with its checksum.
#[derive(Debug)]
pub enum RemoteAssetRef {
    Url(String),
    Object { url: String, sha256: Option<String> },
}

/// A released file as its address and its checksum.
#[verifier::ext_equal]
pub struct AssetModel {
    pub url: Seq<char>,
    pub sha256: Option<Seq<char>>,
}

/// The address of a released file and its checksum, where that is not blank.
pub open spec fn asset_info(asset: RemoteAssetRef) -> AssetModel {
    match asset {
        RemoteAssetRef::Url(url) => AssetModel { url: url@, sha256: None },
        RemoteAssetRef::Object { url, sha256 } => AssetModel {
            url: url@,
            sha256: match sha256 {
                Some(sum) => if text::trimmed(sum@).len() == 0 {
                    None
                } else {
                    Some(sum@)
                },
                None => None,
            },
        },
    }
}

impl RemoteAssetRef {
    /// The address of the file.
    pub fn url(&self) -> (res: &str)
        ensures
            res@ == asset_info(*self).url,
    {
        match self {
            RemoteAssetRef::Url(url) => url.as_str(),
            RemoteAssetRef::Object { url, sha256: _ } => url.as_str(),
        }
    }

    /// The checksum of the file, where it is not blank.
    pub fn sha256(&self) -> (res: Option<&str>)
        ensures
            res.deep_view() == asset_info(*self).sha256,
    {
        match self {
            RemoteAssetRef::Url(_) => None,
            RemoteAssetRef::Object { url: _, sha256 } => match sha256 {
                Some(sum) => {
                    if trim(sum.as_str()).as_str().is_empty() {
                        None
                    } else {
                        Some(sum.as_str())
                    }
                },
                None => None,
            },
        }
    }
}

/// A released file that was chosen.
#[derive(Debug, Clone, PartialEq, Eq)]
pub struct RemoteReleaseAsset {
    pub url: String,
    pub sha256: Option<String>,
}

impl DeepView for RemoteReleaseAsset {
    type V = AssetModel;

    open spec fn deep_view(&self) -> AssetModel {
        AssetModel { url: self.url@, sha256: self.sha256.deep_view() }
    }
}

/// The address of a released file and its checksum.
pub fn remote_asset_info(asset: &RemoteAssetRef) -> (res: RemoteReleaseAsset)
    ensures
        res.deep_view() == asset_info(*asset),
{
    RemoteReleaseAsset {
        url: asset.url().to_string(),
        sha256: match asset.sha256() {
            Some(sum) => Some(sum.to_string()),
            None => None,
        },
    }
}

/// A release that is not the latest one.
#[derive(Debug)]
pub struct RemoteReleaseMetadata {
    pub protocol: Option<u32>,
    pub assets: TextMap<RemoteAssetRef>,
}

/// The manifest of the stable channel.
#[derive(Debug)]
pub struct RemoteUpdateManifest {
    pub version: String,
    pub protocol: Option<u32>,
    pub assets: TextMap<RemoteAssetRef>,
    pub releases: TextMap<RemoteReleaseMetadata>,
}

/// A preview build that is not the latest one.
#[derive(Debug)]
pub struct RemotePreviewBuildMetadata {
    pub protocol: u32,
    pub assets: TextMap<RemoteAssetRef>,
}

/// The manifest of the preview channel.
#[derive(Debug)]
pub struct RemotePreviewManifest {
    pub build_id: String,
    pub protocol: u32,
    pub assets: TextMap<RemoteAssetRef>,
    pub builds: TextMap<RemotePreviewBuildMetadata>,
}

/// The releases among the members of an object that are well-formed ones.
pub open spec fn releases_among(members: Seq<(String, Option<RemoteReleaseMetadata>)>) -> Map<
    Seq<char>,
    RemoteReleaseMetadata,
>
    decreases members.len(),
{
    if members.len() == 0 {
        Map::empty()
    } else {
        let before = releases_among(members.drop_last());
        match members.last().1 {
            Some(release) => before.insert(members.last().0@, release),
            None => before,
        }
    }
}

/// The releases of a manifest: `members` are those of the object that lists them, each
/// with the release that it is a well-formed description of. What is not well-formed
/// is left out, and where no object lists releases there are none.
pub fn manifest_releases(members: Option<Vec<(String, Option<RemoteReleaseMetadata>)>>) -> (res:
    TextMap<RemoteReleaseMetadata>)
    ensures
        res@ == (match members {
            Some(members) => releases_among(members@),
            None => Map::<Seq<char>, RemoteReleaseMetadata>::empty(),
        }),
{
    let mut releases: TextMap<RemoteReleaseMetadata> = TextMap::new();
    if let Some(members) = members {
        let mut members = members;
        let ghost all = members@;
        let mut rest: Vec<(String, Option<RemoteReleaseMetadata>)> = Vec::new();
        while members.len() > 0
            invariant
                members@.len() + rest@.len() == all.len(),
                members@ == all.take(members@.len() as int),
                forall|i: int| 0 <= i < rest@.len() ==> rest@[i] == all[all.len() - 1 - i],
            decreases members@.len(),
        {
            let ghost before = members@;
            if let Some(member) = members.pop() {
                assert(members@ =~= all.take(members@.len() as int));
                assert(member == all[before.len() - 1]);
                rest.push(member);
            }
        }
        assert(all.take(0) =~= Seq::<(String, Option<RemoteReleaseMetadata>)>::empty());
        while rest.len() > 0
            invariant
                rest@.len() <= all.len(),
                forall|i: int| 0 <= i < rest@.len() ==> rest@[i] == all[all.len() - 1 - i],
                releases@ == releases_among(all.take(all.len() - rest@.len())),
            decreases rest@.len(),
        {
            let ghost done = all.len() - rest@.len();
            if let Some(member) = rest.pop() {
                assert(member == all[done]);
                assert(all.take(done + 1).drop_last() =~= all.take(done));
                let (version, release) = member;
                if let Some(release) = release {
                    releases.insert(version, release);
                }
            }
        }
        assert(all.take(all.len() as int) =~= all);
    }
    releases
}

/// A release of a manifest.
pub struct RemoteManifestReleaseRef<'a> {
    pub protocol: Option<u32>,
    pub assets: &'a TextMap<RemoteAssetRef>,
}

/// Whether a manifest's own release is that of `version`.
pub open spec fn is_latest(manifest: RemoteUpdateManifest, version: Seq<char>) -> bool {
    text::without_leading(manifest.version@, 'v') == version
}

/// Whether a manifest keeps a release of `version` with its files.
pub open spec fn is_archived(manifest: RemoteUpdateManifest, version: Seq<char>) -> bool {
    manifest.releases@.dom().contains(version) && !(manifest.releases@[version].assets@.dom()
        =~= Set::<Seq<char>>::empty())
}

impl RemoteUpdateManifest {
    /// The release of `version`: the manifest's own, or one that it keeps with its
    /// files. A kept release has its own protocol, never the manifest's.
    pub fn release_for_version(&self, version: &str) -> (res: Option<RemoteManifestReleaseRef<'_>>)
        ensures
            res is Some <==> is_latest(*self, version@) || is_archived(*self, version@),
            res matches Some(release) ==> if is_latest(*self, version@) {
                release.protocol == self.protocol && *release.assets == self.assets
            } else {
                release.protocol == self.releases@[version@].protocol && *release.assets
                    == self.releases@[version@].assets
            },
    {
        if same_text(trim_start_matches(self.version.as_str(), 'v').as_str(), version) {
            return Some(
                RemoteManifestReleaseRef { protocol: self.protocol, assets: &self.assets },
            );
        }
        match self.releases.get(version) {
            Some(release) => {
                if release.assets.is_empty() {
                    None
                } else {
                    Some(
                        RemoteManifestReleaseRef {
                            protocol: release.protocol,
                            assets: &release.assets,
                        },
                    )
                }
            },
            None => None,
        }
    }
}

/// The error about a build that a preview manifest does not have.
pub open spec fn missing_build(build_id: Seq<char>) -> report::ErrorModel {
    report::plain_error(
        "preview manifest no longer includes build "@ + build_id
            + "; run `herdr update` locally or set "@ + REMOTE_BINARY_ENV_VAR@
            + "=target/release/herdr"@,
    )
}

/// The protocol and the files of a preview build: of the manifest's own, or of one
/// that it keeps.
pub fn preview_assets_for_build<'a>(manifest: &'a RemotePreviewManifest, build_id: &str) -> (res:
    Result<(u32, &'a TextMap<RemoteAssetRef>), RemoteError>)
    ensures
        match res {
            Ok((protocol, assets)) => if manifest.build_id@ == build_id@ {
                protocol == manifest.protocol && *assets == manifest.assets
            } else {
                manifest.builds@.dom().contains(build_id@) && protocol
                    == manifest.builds@[build_id@].protocol && *assets
                    == manifest.builds@[build_id@].assets
            },
            Err(error) => manifest.build_id@ != build_id@ && !manifest.builds@.dom().contains(
                build_id@,
            ) && error.deep_view() == missing_build(build_id@),
        },
{
    if same_text(manifest.build_id.as_str(), build_id) {
        return Ok((manifest.protocol, &manifest.assets));
    }
    match manifest.builds.get(build_id) {
        Some(build) => Ok((build.protocol, &build.assets)),
        None => {
            let mut message = "preview manifest no longer includes build ".to_string();
            message.append(build_id);
            message.append("; run `herdr update` locally or set ");
            message.append(REMOTE_BINARY_ENV_VAR);
            message.append("=target/release/herdr");
            Err(other_error(message))
        },
    }
}

/// Where this client's manifest is published.
#[derive(Debug, Clone, Copy, PartialEq, Eq, Structural)]
pub enum ManifestChannel {
    Stable,
    Preview,
}

impl ManifestChannel {
    /// The address of the channel's manifest.
    pub fn url(self) -> (res: &'static str)
        ensures
            res@ == (match self {
                ManifestChannel::Stable => STABLE_UPDATE_MANIFEST_URL@,
                ManifestChannel::Preview => PREVIEW_UPDATE_MANIFEST_URL@,
            }),
            self is Stable ==> res@ == "https://herdr.dev/latest.json"@,
            self is Preview ==> res@ == "https://herdr.dev/preview.json"@,
    {
        match self {
            ManifestChannel::Stable => STABLE_UPDATE_MANIFEST_URL,
            ManifestChannel::Preview => PREVIEW_UPDATE_MANIFEST_URL,
        }
    }
}

pub const NO_BUILD_ID: &'static str = "preview client has no build id; set HERDR_REMOTE_BINARY or install Herdr on the remote manually";

/// The manifest that lists a client's binaries. A preview client without a build name
/// has none.
pub open spec fn channel_of(client: ClientBuild) -> Result<ManifestChannel, report::ErrorModel> {
    if !client.preview {
        Ok(ManifestChannel::Stable)
    } else if client.build_id is Some {
        Ok(ManifestChannel::Preview)
    } else {
        Err(report::plain_error(NO_BUILD_ID@))
    }
}

/// The manifest that lists this client's binaries.
pub fn manifest_channel(client: &ClientBuild) -> (res: Result<ManifestChannel, RemoteError>)
    ensures
        match channel_of(*client) {
            Ok(channel) => res == Ok::<ManifestChannel, RemoteError>(channel),
            Err(error) => res is Err && res->Err_0.deep_view() == error,
        },
{
    if !client.preview {
        return Ok(ManifestChannel::Stable);
    }
    match &client.build_id {
        Some(_) => Ok(ManifestChannel::Preview),
        None => Err(other_error(NO_BUILD_ID.to_string())),
    }
}

/// The arguments with which `curl` fetches a manifest.
pub fn manifest_curl_args(url: &str) -> (res: Vec<String>)
    ensures
        res.deep_view() == seq![
            "-sfL"@,
            "--retry"@,
            "3"@,
            "--connect-timeout"@,
            "10"@,
            "--max-time"@,
            "20"@,
            url@,
        ],
{
    let mut curl_args: Vec<String> = Vec::new();
    curl_args.push("-sfL".to_string());
    curl_args.push("--retry".to_string());
    curl_args.push("3".to_string());
    curl_args.push("--connect-timeout".to_string());
    curl_args.push("10".to_string());
    curl_args.push("--max-time".to_string());
    curl_args.push("20".to_string());
    curl_args.push(url.to_string());
    assert(curl_args.deep_view() =~= seq![
        "-sfL"@,
        "--retry"@,
        "3"@,
        "--connect-timeout"@,
        "10"@,
        "--max-time"@,
        "20"@,
        url@,
    ]);
    curl_args
}

/// The error about a `curl` that could not be started.
pub fn curl_not_started(cause: &str) -> (res: RemoteError)
    ensures
        res.deep_view() == (report::ErrorModel {
            kind: ErrorKind::OfCause,
            message: "curl failed: "@ + cause@,
        }),
{
    let mut message = "curl failed: ".to_string();
    message.append(cause);
    RemoteError { kind: ErrorKind::OfCause, message }
}

/// The manifest that a finished `curl` fetched.
pub fn fetch_remote_manifest(output: CommandOutput) -> (res: Result<Vec<u8>, RemoteError>)
    ensures
        report::outcome(res) == (if output.success {
            Ok::<Seq<u8>, report::ErrorModel>(output.stdout.deep_view())
        } else {
            Err(report::command_error("failed to fetch update manifest"@, output))
        }),
{
    if !output.success {
        return Err(command_failed("failed to fetch update manifest", &output));
    }
    Ok(output.stdout)
}

/// The error about a manifest of a channel that is not well-formed.
pub open spec fn malformed(channel: ManifestChannel, cause: Seq<char>) -> report::ErrorModel {
    report::plain_error(
        match channel {
            ManifestChannel::Stable => "failed to parse update manifest JSON: "@ + cause,
            ManifestChannel::Preview => "failed to parse preview manifest JSON: "@ + cause,
        },
    )
}

/// The error about a manifest of a channel that is not well-formed.
pub fn malformed_manifest(channel: ManifestChannel, cause: &str) -> (res: RemoteError)
    ensures
        res.deep_view() == malformed(channel, cause@),
{
    let mut message = match channel {
        ManifestChannel::Stable => "failed to parse update manifest JSON: ".to_string(),
        ManifestChannel::Preview => "failed to parse preview manifest JSON: ".to_string(),
    };
    message.append(cause);
    other_error(message)
}

/// The error about a manifest that lists binaries of another protocol.
pub open spec fn wrong_protocol(
    listed: Seq<char>,
    protocol: u32,
    client_protocol: u32,
    advice: Seq<char>,
) -> report::ErrorModel {
    report::plain_error(
        listed + " protocol "@ + text::decimal(protocol as nat)
            + ", but this client needs protocol "@ + text::decimal(client_protocol as nat)
            + "; set "@ + REMOTE_BINARY_ENV_VAR@ + advice,
    )
}

fn protocol_error(listed: String, protocol: u32, client_protocol: u32, advice: &str) -> (res:
    RemoteError)
    ensures
        res.deep_view() == wrong_protocol(listed@, protocol, client_protocol, advice@),
{
    let mut message = listed;
    message.append(" protocol ");
    message.append(decimal_text(protocol as u64).as_str());
    message.append(", but this client needs protocol ");
    message.append(decimal_text(client_protocol as u64).as_str());
    message.append("; set ");
    message.append(REMOTE_BINARY_ENV_VAR);
    message.append(advice);
    other_error(message)
}

pub const PREVIEW_ADVICE: &'static str = "=target/release/herdr or install a matching Herdr on the remote host manually";

pub const STABLE_ADVICE: &'static str = "=target/release/herdr or install a matching herdr on the remote host manually";

/// The file for `asset_key` among those of a preview build of this protocol.
pub open spec fn preview_asset(
    client_protocol: u32,
    build_id: Seq<char>,
    protocol: u32,
    assets: Map<Seq<char>, RemoteAssetRef>,
    asset_key: Seq<char>,
) -> Result<AssetModel, report::ErrorModel> {
    if protocol != client_protocol {
        Err(
            wrong_protocol(
                "preview manifest has build "@ + build_id,
                protocol,
                client_protocol,
                PREVIEW_ADVICE@,
            ),
        )
    } else if assets.dom().contains(asset_key) {
        Ok(asset_info(assets[asset_key]))
    } else {
        Err(
            report::plain_error(
                "no "@ + asset_key + " binary in the preview manifest for build "@ + build_id,
            ),
        )
    }
}

/// The file for `asset_key` that a preview manifest lists for a build.
pub open spec fn preview_release(
    client_protocol: u32,
    build_id: Seq<char>,
    manifest: RemotePreviewManifest,
    asset_key: Seq<char>,
) -> Result<AssetModel, report::ErrorModel> {
    if manifest.build_id@ == build_id {
        preview_asset(
            client_protocol,
            build_id,
            manifest.protocol,
            manifest.assets@,
            asset_key,
        )
    } else if manifest.builds@.dom().contains(build_id) {
        let build = manifest.builds@[build_id];
        preview_asset(client_protocol, build_id, build.protocol, build.assets@, asset_key)
    } else {
        Err(missing_build(build_id))
    }
}

/// The file for `asset_key` among those of a release, which may tell its protocol.
pub open spec fn stable_asset(
    client_protocol: u32,
    version: Seq<char>,
    protocol: Option<u32>,
    assets: Map<Seq<char>, RemoteAssetRef>,
    asset_key: Seq<char>,
) -> Result<AssetModel, report::ErrorModel> {
    if protocol is Some && protocol != Some(client_protocol) {
        Err(
            wrong_protocol(
                "release manifest has herdr "@ + version,
                protocol->Some_0,
                client_protocol,
                STABLE_ADVICE@,
            ),
        )
    } else if assets.dom().contains(asset_key) {
        Ok(asset_info(assets[asset_key]))
    } else {
        Err(
            report::plain_error(
                "no "@ + asset_key + " binary in the release manifest for herdr "@ + version,
            ),
        )
    }
}

/// The file for `asset_key` that a manifest lists for a version.
pub open spec fn stable_release(
    client_protocol: u32,
    version: Seq<char>,
    manifest: RemoteUpdateManifest,
    asset_key: Seq<char>,
) -> Result<AssetModel, report::ErrorModel> {
    if is_latest(manifest, version) {
        stable_asset(client_protocol, version, manifest.protocol, manifest.assets@, asset_key)
    } else if is_archived(manifest, version) {
        let release = manifest.releases@[version];
        stable_asset(client_protocol, version, release.protocol, release.assets@, asset_key)
    } else {
        Err(
            report::plain_error(
                "release manifest does not include herdr "@ + version + "; build herdr for "@
                    + asset_key + " or install it there manually"@,
            ),
        )
    }
}

/// A manifest that was fetched and read.
#[derive(Debug)]
pub enum FetchedManifest {
    Stable(RemoteUpdateManifest),
    Preview(RemotePreviewManifest),
}

/// The file for `asset_key` that a manifest lists for a client.
pub open spec fn release_for(
    client: ClientBuild,
    manifest: FetchedManifest,
    asset_key: Seq<char>,
) -> Result<AssetModel, report::ErrorModel> {
    match manifest {
        FetchedManifest::Stable(manifest) => stable_release(
            client.protocol,
            client.version@,
            manifest,
            asset_key,
        ),
        FetchedManifest::Preview(manifest) => match client.build_id {
            Some(build_id) => preview_release(client.protocol, build_id@, manifest, asset_key),
            None => Err(report::plain_error(NO_BUILD_ID@)),
        },
    }
}

/// The file for `asset_key` that a manifest lists for this client.
pub fn remote_release_asset(client: &ClientBuild, manifest: &FetchedManifest, asset_key: &str) -> (res:
    Result<RemoteReleaseAsset, RemoteError>)
    ensures
        report::outcome(res) == release_for(*client, *manifest, asset_key@),
{
    match manifest {
        FetchedManifest::Preview(manifest) => {
            let build_id = match &client.build_id {
                Some(build_id) => build_id.as_str(),
                None => return Err(other_error(NO_BUILD_ID.to_string())),
            };
            let (protocol, assets) = match preview_assets_for_build(manifest, build_id) {
                Ok(found) => found,
                Err(error) => return Err(error),
            };
            if protocol != client.protocol {
                let mut listed = "preview manifest has build ".to_string();
                listed.append(build_id);
                return Err(protocol_error(listed, protocol, client.protocol, PREVIEW_ADVICE));
            }
            match assets.get(asset_key) {
                Some(asset) => Ok(remote_asset_info(asset)),
                None => {
                    let mut message = "no ".to_string();
                    message.append(asset_key);
                    message.append(" binary in the preview manifest for build ");
                    message.append(build_id);
                    Err(other_error(message))
                },
            }
        },
        FetchedManifest::Stable(manifest) => {
            let version = client.version.as_str();
            let release = match manifest.release_for_version(version) {
                Some(release) => release,
                None => {
                    let mut message = "release manifest does not include herdr ".to_string();
                    message.append(version);
                    message.append("; build herdr for ");
                    message.append(asset_key);
                    message.append(" or install it there manually");
                    return Err(other_error(message));
                },
            };
            if let Some(protocol) = release.protocol {
                if protocol != client.protocol {
                    let mut listed = "release manifest has herdr ".to_string();
                    listed.append(version);
                    return Err(protocol_error(listed, protocol, client.protocol, STABLE_ADVICE));
                }
            }
            match release.assets.get(asset_key) {
                Some(asset) => Ok(remote_asset_info(asset)),
                None => {
                    let mut message = "no ".to_string();
                    message.append(asset_key);
                    message.append(" binary in the release manifest for herdr ");
                    message.append(version);
                    Err(other_error(message))
                },
            }
        },
    }
}

/// A file is only ever chosen for a client from a release that speaks the client's
/// protocol, or that does not tell its protocol.
pub proof fn law_chosen_release_speaks_protocol(
    client: ClientBuild,
    manifest: FetchedManifest,
    asset_key: Seq<char>,
)
    requires
        release_for(client, manifest, asset_key) is Ok,
    ensures
        match manifest {
            FetchedManifest::Stable(manifest) => {
                let protocol = if is_latest(manifest, client.version@) {
                    manifest.protocol
                } else {
                    manifest.releases@[client.version@].protocol
                };
                protocol is None || protocol == Some(client.protocol)
            },
            FetchedManifest::Preview(manifest) => {
                let build_id = client.build_id->Some_0@;
                let protocol = if manifest.build_id@ == build_id {
                    manifest.protocol
                } else {
                    manifest.builds@[build_id].protocol
                };
                client.build_id is Some && protocol == client.protocol
            },
        },
{
}

/// A released file keeps its address, and its checksum as it stands where that is more than
/// white space.
pub proof fn law_asset_keeps_address_and_checksum(url: String, sum: String)
    ensures
        asset_info(RemoteAssetRef::Url(url)) == (AssetModel { url: url@, sha256: None }),
        asset_info(RemoteAssetRef::Object { url, sha256: None }) == (AssetModel {
            url: url@,
            sha256: None,
        }),
        ({
            let info = asset_info(RemoteAssetRef::Object { url, sha256: Some(sum) });
            &&& info.url == url@
            &&& text::trimmed(sum@).len() > 0 ==> info.sha256 == Some(sum@)
            &&& text::trimmed(sum@).len() == 0 ==> info.sha256 is None
        }),
{
}

/// Whether member number `i` of an object is a well-formed release of `version`.
pub open spec fn releases_version(
    members: Seq<(String, Option<RemoteReleaseMetadata>)>,
    i: int,
    version: Seq<char>,
) -> bool {
    members[i].0@ == version && members[i].1 is Some
}

/// A version is released exactly where a member of the object is a well-formed release of it.
pub proof fn law_well_formed_releases_count(
    members: Seq<(String, Option<RemoteReleaseMetadata>)>,
    version: Seq<char>,
)
    ensures
        releases_among(members).contains_key(version) <==> exists|i: int|
            0 <= i < members.len() && #[trigger] releases_version(members, i, version),
    decreases members.len(),
{
    if members.len() > 0 {
        let front = members.drop_last();
        law_well_formed_releases_count(front, version);
        assert forall|i: int| 0 <= i < front.len() implies #[trigger] releases_version(
            front,
            i,
            version,
        ) == releases_version(members, i, version) by {}
        assert(releases_version(members, members.len() - 1, version) == (members.last().0@
            == version && members.last().1 is Some));
        if releases_among(members).contains_key(version) {
            if !releases_version(members, members.len() - 1, version) {
                let i = choose|i: int|
                    0 <= i < front.len() && #[trigger] releases_version(front, i, version);
                assert(releases_version(members, i, version));
            }
        }
        if exists|i: int|
            0 <= i < members.len() && #[trigger] releases_version(members, i, version) {
            let i = choose|i: int|
                0 <= i < members.len() && #[trigger] releases_version(members, i, version);
            if i < front.len() {
                assert(releases_version(front, i, version));
            }
        }
    }
}

/// Of several well-formed releases of a version the last one counts.
pub proof fn law_last_release_counts(
    members: Seq<(String, Option<RemoteReleaseMetadata>)>,
    version: Seq<char>,
    at: int,
)
    requires
        0 <= at < members.len(),
        releases_version(members, at, version),
        forall|later: int|
            at < later < members.len() ==> !#[trigger] releases_version(members, later, version),
    ensures
        releases_among(members).contains_key(version),
        releases_among(members)[version] == members[at].1->Some_0,
    decreases members.len(),
{
    let last = members.len() - 1;
    if at < last {
        let front = members.drop_last();
        assert(!releases_version(members, last, version));
        assert(releases_version(front, at, version));
        assert forall|later: int| at < later < front.len() implies !#[trigger] releases_version(
            front,
            later,
            version,
        ) by {
            assert(!releases_version(members, later, version));
        }
        law_last_release_counts(front, version, at);
    }
}

/// A manifest's own release has the version that the manifest tells, without the letters `v`
/// that it begins with.
pub proof fn law_own_release_version(
    manifest: RemoteUpdateManifest,
    letters: nat,
    version: Seq<char>,
    other: Seq<char>,
)
    requires
        manifest.version@ == Seq::new(letters, |i: int| 'v') + version,
        version.len() > 0 ==> version[0] != 'v',
    ensures
        is_latest(manifest, other) <==> other == version,
{
    text::law_without_leading('v', letters, version);
}

/// The file for a client of a released version is taken from the manifest's own release where
/// that is the client's, and otherwise from the release of that version which the manifest
/// keeps with at least one file. It is found exactly when that release has a file for the
/// platform and tells the client's protocol or none, and is told as the manifest lists it.
pub proof fn law_stable_file_is_of_the_clients_version(
    client: ClientBuild,
    manifest: RemoteUpdateManifest,
    asset_key: Seq<char>,
    other_key: Seq<char>,
)
    ensures
        ({
            let found = release_for(client, FetchedManifest::Stable(manifest), asset_key);
            let version = client.version@;
            if is_latest(manifest, version) {
                &&& found is Ok <==> manifest.assets@.contains_key(asset_key) && (
                manifest.protocol is None || manifest.protocol == Some(client.protocol))
                &&& found is Ok ==> found->Ok_0 == asset_info(manifest.assets@[asset_key])
                &&& found is Err ==> found->Err_0.kind is Other
            } else if manifest.releases@.contains_key(version)
                && manifest.releases@[version].assets@.contains_key(other_key) {
                let release = manifest.releases@[version];
                &&& found is Ok <==> release.assets@.contains_key(asset_key) && (
                release.protocol is None || release.protocol == Some(client.protocol))
                &&& found is Ok ==> found->Ok_0 == asset_info(release.assets@[asset_key])
                &&& found is Err ==> found->Err_0.kind is Other
            } else if !manifest.releases@.contains_key(version) || (forall|key: Seq<char>|
                !#[trigger] manifest.releases@[version].assets@.contains_key(key)) {
                found is Err && found->Err_0.kind is Other && text::mentions(
                    found->Err_0.message,
                    version,
                ) && text::mentions(found->Err_0.message, asset_key)
            } else {
                true
            }
        }),
{
    let version = client.version@;
    let head = "release manifest does not include herdr "@;
    let middle = "; build herdr for "@;
    let tail = " or install it there manually"@;
    let all = head + version + middle + asset_key + tail;
    text::lemma_mentions(head, version, middle + asset_key + tail);
    assert(head + version + (middle + asset_key + tail) =~= all);
    text::lemma_mentions(head + version + middle, asset_key, tail);
    if manifest.releases@.contains_key(version) {
        let assets = manifest.releases@[version].assets@;
        if assets.contains_key(other_key) {
            assert(assets.dom().contains(other_key));
            assert(!(assets.dom() =~= Set::<Seq<char>>::empty()));
        } else if forall|key: Seq<char>| !#[trigger] assets.contains_key(key) {
            assert forall|key: Seq<char>| !assets.dom().contains(key) by {
                assert(!assets.contains_key(key));
            }
            assert(assets.dom() =~= Set::<Seq<char>>::empty());
        }
    }
}

/// The file for a preview client is taken from the manifest's own build where that is the
/// client's, and otherwise from the build of that name which the manifest keeps. It is found
/// exactly when that build has a file for the platform and the client's protocol. A client
/// without a build name has none.
pub proof fn law_preview_file_is_of_the_clients_build(
    client: ClientBuild,
    manifest: RemotePreviewManifest,
    asset_key: Seq<char>,
)
    ensures
        ({
            let found = release_for(client, FetchedManifest::Preview(manifest), asset_key);
            match client.build_id {
                None => found is Err,
                Some(build_id) => if manifest.build_id@ == build_id@ {
                    &&& found is Ok <==> manifest.assets@.contains_key(asset_key)
                        && manifest.protocol == client.protocol
                    &&& found is Ok ==> found->Ok_0 == asset_info(manifest.assets@[asset_key])
                } else if manifest.builds@.contains_key(build_id@) {
                    let build = manifest.builds@[build_id@];
                    &&& found is Ok <==> build.assets@.contains_key(asset_key) && build.protocol
                        == client.protocol
                    &&& found is Ok ==> found->Ok_0 == asset_info(build.assets@[asset_key])
                } else {
                    found is Err && text::mentions(found->Err_0.message, build_id@)
                },
            }
        }),
{
    if let Some(build_id) = client.build_id {
        let name = REMOTE_BINARY_ENV_VAR@;
        let head = "preview manifest no longer includes build "@;
        let one = "; run `herdr update` locally or set "@;
        let two = "=target/release/herdr"@;
        text::lemma_mentions(head, build_id@, one + name + two);
        assert(head + build_id@ + (one + name + two) =~= head + build_id@ + one + name + two);
    }
}

/// A client that is no preview has the manifest of the stable channel, and a preview one that
/// of the preview channel, for which it needs a build name.
pub proof fn law_channel_of_a_client(client: ClientBuild)
    ensures
        !client.preview ==> channel_of(client) == Ok::<ManifestChannel, report::ErrorModel>(
            ManifestChannel::Stable,
        ),
        client.preview && client.build_id is Some ==> channel_of(client) == Ok::<
            ManifestChannel,
            report::ErrorModel,
        >(ManifestChannel::Preview),
        client.preview && client.build_id is None ==> channel_of(client) is Err,
{
}

/// The error about a release of another protocol tells both protocols.
pub proof fn law_wrong_protocol_is_told(
    listed: Seq<char>,
    protocol: u32,
    client_protocol: u32,
    advice: Seq<char>,
)
    ensures
        ({
            let error = wrong_protocol(listed, protocol, client_protocol, advice);
            &&& error.kind is Other
            &&& text::begins_with(
                error.message,
                listed + " protocol "@ + text::decimal(protocol as nat)
                    + ", but this client needs protocol "@ + text::decimal(client_protocol as nat),
            )
            &&& text::ends_in(error.message, advice)
        }),
{
    let one = text::decimal(protocol as nat);
    let two = text::decimal(client_protocol as nat);
    let front = listed + " protocol "@ + one + ", but this client needs protocol "@ + two;
    let name = REMOTE_BINARY_ENV_VAR@;
    let back = "; set "@ + name + advice;
    text::law_begins_and_ends(back, front, back);
    assert(front + back =~= front + "; set "@ + name + advice);
    text::law_begins_and_ends(advice, advice, front + "; set "@ + name);
}

/// The error about a manifest that is not well-formed tells the cause, and has no kind of its
/// own.
pub proof fn law_malformed_manifest_tells_the_cause(channel: ManifestChannel, cause: Seq<char>)
    ensures
        malformed(channel, cause).kind is Other,
        text::ends_in(malformed(channel, cause).message, cause),
{
    text::law_begins_and_ends(cause, cause, "failed to parse update manifest JSON: "@);
    text::law_begins_and_ends(cause, cause, "failed to parse preview manifest JSON: "@);
}

} // verus!
