use herdr_windows::host::ClientBuild;
use herdr_windows::manifest::{
    curl_not_started, fetch_remote_manifest, malformed_manifest, manifest_channel, manifest_curl_args,
    manifest_releases, preview_assets_for_build, remote_asset_info, remote_release_asset,
    FetchedManifest, ManifestChannel, RemoteAssetRef, RemotePreviewBuildMetadata,
    RemotePreviewManifest, RemoteReleaseMetadata, RemoteUpdateManifest,
};
use herdr_windows::report::{CommandOutput, ErrorKind};
use herdr_windows::table::TextMap;
use serde_json::Value;

fn text(value: &Value) -> Option<String> {
    value.as_str().map(str::to_string)
}

fn assets_in(value: &Value) -> TextMap<RemoteAssetRef> {
    let mut assets = TextMap::new();
    if let Some(members) = value.as_object() {
        for (key, asset) in members {
            let asset = match asset {
                Value::String(url) => RemoteAssetRef::Url(url.clone()),
                other => RemoteAssetRef::Object {
                    url: text(&other["url"]).unwrap(),
                    sha256: text(&other["sha256"]),
                },
            };
            assets.insert(key.clone(), asset);
        }
    }
    assets
}

fn protocol_in(value: &Value) -> Option<u32> {
    value["protocol"].as_u64().map(|protocol| protocol as u32)
}

fn update_manifest(json: &str) -> RemoteUpdateManifest {
    let value: Value = serde_json::from_str(json).unwrap();
    let members = value["releases"].as_object().map(|members| {
        members
            .iter()
            .map(|(version, release)| {
                let release = release.is_object().then(|| RemoteReleaseMetadata {
                    protocol: protocol_in(release),
                    assets: assets_in(&release["assets"]),
                });
                (version.clone(), release)
            })
            .collect()
    });
    RemoteUpdateManifest {
        version: text(&value["version"]).unwrap(),
        protocol: protocol_in(&value),
        assets: assets_in(&value["assets"]),
        releases: manifest_releases(members),
    }
}

fn preview_manifest(json: &str) -> RemotePreviewManifest {
    let value: Value = serde_json::from_str(json).unwrap();
    let mut builds = TextMap::new();
    if let Some(members) = value["builds"].as_object() {
        for (build_id, build) in members {
            builds.insert(
                build_id.clone(),
                RemotePreviewBuildMetadata {
                    protocol: protocol_in(build).unwrap(),
                    assets: assets_in(&build["assets"]),
                },
            );
        }
    }
    RemotePreviewManifest {
        build_id: text(&value["build_id"]).unwrap(),
        protocol: protocol_in(&value).unwrap(),
        assets: assets_in(&value["assets"]),
        builds,
    }
}

fn client(version: &str, protocol: u32, build_id: Option<&str>) -> ClientBuild {
    ClientBuild {
        version: version.to_string(),
        channel: "stable".to_string(),
        preview: build_id.is_some(),
        build_id: build_id.map(str::to_string),
        protocol,
    }
}

#[test]
fn remote_update_manifest_uses_root_assets_for_latest_version() {
    let manifest = update_manifest(
        r#"{
            "version": "1.2.3",
            "assets": {
                "linux-x86_64": "https://example.com/latest"
            },
            "releases": {
                "1.2.3": {
                    "assets": {
                        "linux-x86_64": "https://example.com/archive"
                    }
                }
            }
        }"#,
    );

    assert_eq!(
        manifest
            .release_for_version("1.2.3")
            .and_then(|release| release.assets.get("linux-x86_64"))
            .map(RemoteAssetRef::url),
        Some("https://example.com/latest")
    );
}

#[test]
fn remote_update_manifest_reads_archived_release_assets() {
    let manifest = update_manifest(
        r#"{
            "version": "1.2.4",
            "assets": {
                "linux-x86_64": "https://example.com/latest"
            },
            "releases": {
                "1.2.3": {
                    "notes": "ignored",
                    "assets": {
                        "linux-x86_64": "https://example.com/archive"
                    }
                }
            }
        }"#,
    );

    assert_eq!(
        manifest
            .release_for_version("1.2.3")
            .and_then(|release| release.assets.get("linux-x86_64"))
            .map(RemoteAssetRef::url),
        Some("https://example.com/archive")
    );
}

#[test]
fn remote_update_manifest_uses_archived_release_protocol() {
    let manifest = update_manifest(
        r#"{
            "version": "1.2.4",
            "protocol": 42,
            "assets": {
                "linux-x86_64": "https://example.com/latest"
            },
            "releases": {
                "1.2.3": {
                    "notes": "ignored",
                    "protocol": 41,
                    "assets": {
                        "linux-x86_64": "https://example.com/archive"
                    }
                }
            }
        }"#,
    );

    assert_eq!(
        manifest
            .release_for_version("1.2.3")
            .and_then(|release| release.protocol),
        Some(41)
    );
}

#[test]
fn remote_update_manifest_does_not_inherit_latest_protocol_for_archived_assets() {
    let manifest = update_manifest(
        r#"{
            "version": "1.2.4",
            "protocol": 42,
            "assets": {
                "linux-x86_64": "https://example.com/latest"
            },
            "releases": {
                "1.2.3": {
                    "notes": "ignored",
                    "assets": {
                        "linux-x86_64": "https://example.com/archive"
                    }
                }
            }
        }"#,
    );

    assert_eq!(
        manifest
            .release_for_version("1.2.3")
            .and_then(|release| release.protocol),
        None
    );
}

const PREVIEW: &str = r#"{
    "build_id": "2026-06-06-new",
    "protocol": 12,
    "assets": {
        "linux-x86_64": {
            "url": "https://example.com/new",
            "sha256": "new"
        }
    },
    "builds": {
        "2026-06-02-old": {
            "protocol": 11,
            "assets": {
                "linux-x86_64": {
                    "url": "https://example.com/old",
                    "sha256": "old"
                }
            }
        }
    }
}"#;

#[test]
fn remote_preview_manifest_falls_back_to_archived_exact_build_assets() {
    let manifest = preview_manifest(PREVIEW);

    let (protocol, assets) =
        preview_assets_for_build(&manifest, "2026-06-02-old").expect("archived build");
    let asset = assets.get("linux-x86_64").expect("asset");
    assert_eq!(protocol, 11);
    assert_eq!(asset.url(), "https://example.com/old");
    assert_eq!(asset.sha256(), Some("old"));
}

#[test]
fn preview_releases_are_chosen_by_build_and_protocol() {
    let manifest = FetchedManifest::Preview(preview_manifest(PREVIEW));
    let choose = |protocol, build, key: &str| {
        remote_release_asset(&client("0.7.1", protocol, Some(build)), &manifest, key)
            .map(|asset| asset.url)
            .map_err(|error| error.message)
    };
    assert_eq!(
        choose(12, "2026-06-06-new", "linux-x86_64"),
        Ok("https://example.com/new".to_string())
    );
    assert_eq!(
        choose(11, "2026-06-02-old", "linux-x86_64"),
        Ok("https://example.com/old".to_string())
    );
    assert_eq!(
        choose(12, "2026-06-02-old", "linux-x86_64"),
        Err("preview manifest has build 2026-06-02-old protocol 11, but this client needs protocol 12; set HERDR_REMOTE_BINARY=target/release/herdr or install a matching Herdr on the remote host manually".to_string())
    );
    assert_eq!(
        choose(12, "2026-06-06-new", "macos-x86_64"),
        Err("no macos-x86_64 binary in the preview manifest for build 2026-06-06-new".to_string())
    );
    assert_eq!(
        choose(12, "gone", "linux-x86_64"),
        Err("preview manifest no longer includes build gone; run `herdr update` locally or set HERDR_REMOTE_BINARY=target/release/herdr".to_string())
    );
    assert_eq!(
        remote_release_asset(&client("0.7.1", 12, None), &manifest, "linux-x86_64")
            .unwrap_err()
            .message,
        "preview client has no build id; set HERDR_REMOTE_BINARY or install Herdr on the remote manually"
    );
}

#[test]
fn stable_releases_are_chosen_by_version_and_protocol() {
    let manifest = FetchedManifest::Stable(update_manifest(
        r#"{
            "version": "v1.2.4",
            "protocol": 42,
            "assets": { "linux-x86_64": "https://example.com/latest" },
            "releases": {
                "1.2.3": { "assets": { "linux-x86_64": "https://example.com/archive" } },
                "1.2.2": { "assets": {} },
                "1.2.1": "malformed"
            }
        }"#,
    ));
    let choose = |version, protocol, key: &str| {
        remote_release_asset(&client(version, protocol, None), &manifest, key)
            .map(|asset| asset.url)
            .map_err(|error| error.message)
    };
    assert_eq!(
        choose("1.2.4", 42, "linux-x86_64"),
        Ok("https://example.com/latest".to_string())
    );
    assert_eq!(
        choose("1.2.3", 7, "linux-x86_64"),
        Ok("https://example.com/archive".to_string())
    );
    assert_eq!(
        choose("1.2.4", 41, "linux-x86_64"),
        Err("release manifest has herdr 1.2.4 protocol 42, but this client needs protocol 41; set HERDR_REMOTE_BINARY=target/release/herdr or install a matching herdr on the remote host manually".to_string())
    );
    assert_eq!(
        choose("1.2.4", 42, "macos-aarch64"),
        Err("no macos-aarch64 binary in the release manifest for herdr 1.2.4".to_string())
    );
    for version in ["1.2.2", "1.2.1", "1.2.0"] {
        assert_eq!(
            choose(version, 42, "linux-x86_64"),
            Err(format!(
                "release manifest does not include herdr {version}; build herdr for linux-x86_64 or install it there manually"
            ))
        );
    }
}

#[test]
fn blank_checksums_count_as_none() {
    let asset = |sha256: Option<&str>| RemoteAssetRef::Object {
        url: "u".to_string(),
        sha256: sha256.map(str::to_string),
    };
    assert_eq!(asset(Some(" \t")).sha256(), None);
    assert_eq!(asset(Some(" a ")).sha256(), Some(" a "));
    assert_eq!(asset(None).sha256(), None);
    assert_eq!(RemoteAssetRef::Url("u".to_string()).sha256(), None);
    let info = remote_asset_info(&asset(Some("a")));
    assert_eq!((info.url.as_str(), info.sha256.as_deref()), ("u", Some("a")));
}

#[test]
fn manifests_are_fetched_by_channel() {
    assert_eq!(
        manifest_channel(&client("1", 1, None)),
        Ok(ManifestChannel::Stable)
    );
    assert_eq!(
        manifest_channel(&client("1", 1, Some("b"))),
        Ok(ManifestChannel::Preview)
    );
    let mut nameless = client("1", 1, None);
    nameless.preview = true;
    assert!(manifest_channel(&nameless).is_err());
    assert_eq!(ManifestChannel::Stable.url(), "https://herdr.dev/latest.json");
    assert_eq!(ManifestChannel::Preview.url(), "https://herdr.dev/preview.json");
    assert_eq!(
        manifest_curl_args("u"),
        ["-sfL", "--retry", "3", "--connect-timeout", "10", "--max-time", "20", "u"]
    );
    let output = |success| CommandOutput {
        success,
        status: "exit code: 22".to_string(),
        stdout: b"{}".to_vec(),
        stderr: Vec::new(),
    };
    assert_eq!(fetch_remote_manifest(output(true)), Ok(b"{}".to_vec()));
    assert_eq!(
        fetch_remote_manifest(output(false)).unwrap_err().message,
        "failed to fetch update manifest: exit code: 22"
    );
    let error = curl_not_started("x");
    assert_eq!(error.kind, ErrorKind::OfCause);
    assert_eq!(error.message, "curl failed: x");
    assert_eq!(
        malformed_manifest(ManifestChannel::Stable, "x").message,
        "failed to parse update manifest JSON: x"
    );
    assert_eq!(
        malformed_manifest(ManifestChannel::Preview, "x").message,
        "failed to parse preview manifest JSON: x"
    );
}

#[test]
fn text_maps_keep_the_last_value_of_a_key() {
    let mut map: TextMap<u32> = TextMap::new();
    assert!(map.is_empty());
    map.insert("a".to_string(), 1);
    map.insert("b".to_string(), 2);
    map.insert("a".to_string(), 3);
    assert!(!map.is_empty());
    assert_eq!(map.get("a"), Some(&3));
    assert_eq!(map.get("b"), Some(&2));
    assert_eq!(map.get("c"), None);
    let none: TextMap<RemoteReleaseMetadata> = manifest_releases(None);
    assert!(none.is_empty());
}
