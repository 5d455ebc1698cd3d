use dystellar_launcher::config::{Config, Size};
use dystellar_launcher::json::parse_json;
use dystellar_launcher::launch::{
    asset_index_url, asset_tasks, assets_sliceable, classpath, client_task, find_version_url, get_args, get_jre_manifest, get_manifest,
    java_executable, jre_manifest_url, jre_task, join, launcher_version, library_applies, library_tasks, words,
    LaunchError,
};
use dystellar_launcher::manifest::{Download, JavaManifest, Library, MinecraftManifest};
use dystellar_launcher::platform::{Platform, TargetArch, TargetOs};
use dystellar_launcher::session::MicrosoftSession;
use dystellar_launcher::tasks::PostScript;

fn linux() -> Platform {
    Platform { os: TargetOs::LinuxGnu, arch: TargetArch::X86_64 }
}

fn windows() -> Platform {
    Platform { os: TargetOs::Windows, arch: TargetArch::X86_64 }
}

fn dl(id: &str, path: Option<&str>, url: &str) -> Download {
    Download { id: id.into(), path: path.map(|p| p.into()), sha1: format!("sha-{}", id), size: 5, url: url.into() }
}

fn manifest() -> MinecraftManifest {
    let text = r#"{
      "assetIndex": {"id": "17", "sha1": "abc", "size": 100, "totalSize": 2000, "url": "https://example.com/17.json"},
      "complianceLevel": 1,
      "downloads": {"client": {"sha1": "c1", "size": 30, "url": "https://example.com/client.jar"}},
      "javaVersion": {"majorVersion": 21},
      "libraries": [
        {"downloads": {"artifact": {"path": "a/b.jar", "sha1": "x", "size": 1, "url": "https://e/b.jar"}}, "name": "a:b:1"},
        {"downloads": {"artifact": {"path": "m/m.jar", "sha1": "y", "size": 2, "url": "https://e/m.jar"}}, "name": "mac:only:1",
         "rules": [{"action": "allow", "os": {"name": "osx"}}]},
        {"downloads": {"artifact": {"path": "n/n.jar", "sha1": "z", "size": 3, "url": "https://e/n.jar"}}, "name": "lwjgl:natives-linux",
         "rules": [{"action": "allow", "os": {"name": "linux"}}]}
      ],
      "mainClass": "net.minecraft.client.main.Main"
    }"#;
    MinecraftManifest::from_json(&parse_json(text).unwrap()).unwrap()
}

fn session() -> MicrosoftSession {
    MicrosoftSession {
        uuid: "uuid-1".into(),
        username: "steve".into(),
        access_token: "at".into(),
        refresh_token: "rt".into(),
        minecraft_token: "mc".into(),
        uhs: "xuid".into(),
    }
}

fn config() -> Config {
    let mut c = Config::default("/d", "/c");
    c.jvm_args = " -Xfoo  -Dbar=1 ".into();
    c.resolution = Size { x: 1024, y: 768 };
    c
}

#[test]
fn words_split_on_spaces() {
    assert_eq!(words(" a  b c "), vec!["a", "b", "c"]);
    assert!(words("").is_empty());
    assert!(words("   ").is_empty());
    assert_eq!(words("solo"), vec!["solo"]);
}

#[test]
fn join_puts_separators_between() {
    assert_eq!(join(&vec![], ":"), "");
    assert_eq!(join(&vec!["a".into()], ":"), "a");
    assert_eq!(join(&vec!["a".into(), "".into(), "b".into()], ":"), "a::b");
}

#[test]
fn libraries_apply_by_rules() {
    let m = manifest();
    assert!(library_applies(&m.libs[0], &linux()));
    assert!(!library_applies(&m.libs[1], &linux()));
    assert!(library_applies(&m.libs[2], &linux()));
    assert!(!library_applies(&m.libs[2], &windows()));
}

#[test]
fn classpath_lists_the_libraries_then_the_client() {
    let m = manifest();
    assert_eq!(classpath(&m.libs, "/d", &linux()), "/d/libs/a/b.jar:/d/libs/n/n.jar:/d/client.jar");
    assert_eq!(classpath(&m.libs, "C:\\d", &windows()), "C:\\d\\libs\\a/b.jar;C:\\d\\client.jar");
}

#[test]
fn game_arguments() {
    let args = get_args(&manifest(), &config(), "1.21", &session(), "/d", "CID", "0.1.0", &linux());
    let expected: Vec<String> = [
        "-Xmx3072M",
        "-Xss1M",
        "-Djava.library.path=/d/natives",
        "-Djna.tmpdir=/d/natives/tmp",
        "-Dorg.lwjgl.system.SharedLibraryExtractPath=/d/natives",
        "-Dio.netty.native.workdir=/d/natives/tmp",
        "-Dminecraft.launcher.brand=Dystellar",
        "-Dminecraft.launcher.version=0.1.0",
        "-Xfoo",
        "-Dbar=1",
        "-cp",
        "/d/libs/a/b.jar:/d/libs/n/n.jar:/d/client.jar",
        "net.minecraft.client.main.Main",
        "--username",
        "steve",
        "--version",
        "1.21",
        "--gameDir",
        "/d/dystellar",
        "--assetsDir",
        "/d/dystellar/assets",
        "--uuid",
        "uuid-1",
        "--accessToken",
        "mc",
        "--clientId",
        "CID",
        "--xuid",
        "xuid",
        "--versionType",
        "release",
        "--width",
        "1024",
        "--height",
        "768",
    ]
    .iter()
    .map(|s| s.to_string())
    .collect();
    assert_eq!(args, expected);
}

#[test]
fn platform_arguments() {
    let mac = Platform { os: TargetOs::MacOs, arch: TargetArch::Aarch64 };
    let args = get_args(&manifest(), &config(), "1.21", &session(), "/d", "CID", "0.1.0", &mac);
    assert_eq!(args[8], "-XstartOnFirstThread");
    let args = get_args(&manifest(), &config(), "1.21", &session(), "C:\\d", "CID", "0.1.0", &windows());
    assert!(args[8].starts_with("-XX:HeapDumpPath="));
    assert_eq!(args[2], "-Djava.library.path=C:\\d\\natives");
}

#[test]
fn launcher_version_and_manifest_url() {
    assert_eq!(launcher_version(&parse_json(r#"{"minecraft_version": "1.21.1"}"#).unwrap()).unwrap(), "1.21.1");
    assert_eq!(launcher_version(&parse_json("{}").unwrap()).unwrap_err(), LaunchError::MalformedLauncherResponse);
    let list = parse_json(r#"{"versions": [{"id": "1.20", "url": "u20"}, {"id": "1.21", "url": "u21"}, {"id": "1.22"}]}"#).unwrap();
    assert_eq!(find_version_url(&list, "1.21").unwrap(), "u21");
    assert_eq!(find_version_url(&list, "1.19").unwrap_err(), LaunchError::VersionNotFound);
    assert_eq!(find_version_url(&list, "1.22").unwrap_err(), LaunchError::UrlNotFound);
    assert_eq!(LaunchError::UrlNotFound.message(), "Url not found in version");
}

#[test]
fn get_manifest_pairs_the_version() {
    let j = parse_json(r#"{"complianceLevel": 1}"#).unwrap();
    assert!(matches!(get_manifest(&j, "1.21".into()), Err(LaunchError::Manifest(_))));
}

#[test]
fn jre_query_and_task() {
    assert_eq!(
        jre_manifest_url(21, &linux()),
        "https://api.azul.com/metadata/v1/zulu/packages/?java_version=21&os=linux-glibc&arch=amd64&archive_type=tar.gz&java_package_type=jre&javafx_bundled=false&crac_supported=false&support_term=lts&latest=true&java_package_features=headfull&availability_types=CA&certifications=tck"
    );
    let w = Platform { os: TargetOs::Windows, arch: TargetArch::Aarch64 };
    assert!(jre_manifest_url(8, &w).contains("java_version=8&os=windows&arch=aarch64&archive_type=zip&"));
    let packages = parse_json(r#"[{"name": "zulu.tar.gz", "download_url": "https://cdn/zulu.tar.gz"}]"#).unwrap();
    let java: JavaManifest = get_jre_manifest(&packages).unwrap();
    let t = jre_task(&java, "/c", "/d/jdk", &linux());
    assert_eq!((t.group.as_str(), t.name.as_str(), t.details.as_str()), ("JRE Download", "zulu.tar.gz", "https://cdn/zulu.tar.gz"));
    assert_eq!(t.task.output, "/c/zulu.tar.gz");
    match &t.task.post_scripts[..] {
        [PostScript::UnpackPackage { path, output, skip_top }] => {
            assert_eq!((path.as_str(), output.as_str(), *skip_top), ("/c/zulu.tar.gz", "/d/jdk", true));
        }
        other => panic!("unexpected {:?}", other),
    }
}

#[test]
fn library_download_tasks() {
    let m = manifest();
    assert!(library_tasks(&m.libs[1], "/d", &linux()).is_empty());
    let ts = library_tasks(&m.libs[0], "/d", &linux());
    assert_eq!(ts.len(), 1);
    assert_eq!((ts[0].group.as_str(), ts[0].name.as_str(), ts[0].details.as_str()), ("Downloads", "a:b:1", "https://e/b.jar"));
    assert_eq!(ts[0].task.output, "/d/libs/a/b.jar");
    assert_eq!(ts[0].task.post_scripts.len(), 1);
    let ts = library_tasks(&m.libs[2], "/d", &linux());
    match &ts[0].task.post_scripts[..] {
        [PostScript::VerifySha1 { path, sha1 }, PostScript::UnpackNatives { path: p2, output }] => {
            assert_eq!((path.as_str(), sha1.as_str()), ("/d/libs/n/n.jar", "z"));
            assert_eq!((p2.as_str(), output.as_str()), ("/d/libs/n/n.jar", "/d/natives"));
        }
        other => panic!("unexpected {:?}", other),
    }
    let lib = Library { downloads: vec![dl("classifiers", Some("c.jar"), "u"), dl("artifact", Some("x.jar"), "v")], name: "l".into(), os: vec![] };
    let ts = library_tasks(&lib, "/d", &linux());
    assert_eq!(ts.len(), 1);
    assert_eq!(ts[0].task.url, "v");
}

#[test]
fn client_download_task() {
    let t = client_task(&manifest(), "/d", &linux()).unwrap();
    assert_eq!((t.name.as_str(), t.task.output.as_str(), t.task.shared_state.total), ("Client Download", "/d/client.jar", 30));
    let mut m = manifest();
    m.downloads.clear();
    assert_eq!(client_task(&m, "/d", &linux()).unwrap_err(), LaunchError::ClientMissing);
}

#[test]
fn asset_download_tasks() {
    let index = parse_json(r#"{"objects": {
        "icons/a.png": {"hash": "bdf48ef6b5d0d23bbb02e17d04865216179f510a", "size": 3665},
        "lang/x.json": {"hash": "0123456789abcdef0123456789abcdef01234567", "size": 7}
    }}"#).unwrap();
    let (ts, refused) = asset_tasks(&index, "/d", &linux());
    assert_eq!(refused, None);
    assert_eq!(ts.len(), 2);
    assert_eq!(ts[0].name, "icons/a.png");
    assert_eq!(ts[0].task.url, "https://resources.download.minecraft.net/bd/bdf48ef6b5d0d23bbb02e17d04865216179f510a");
    assert_eq!(ts[0].task.output, "/d/assets/objects/bd/bdf48ef6b5d0d23bbb02e17d04865216179f510a");
    assert_eq!(ts[0].task.shared_state.total, 3665);
    let missing = parse_json(r#"{"objects": {"a": {"size": 1}}}"#).unwrap();
    assert_eq!(asset_tasks(&missing, "/d", &linux()).1, Some(LaunchError::AssetHashMissing));
    let no_size = parse_json(r#"{"objects": {"a": {"hash": "ab"}}}"#).unwrap();
    assert_eq!(asset_tasks(&no_size, "/d", &linux()).1, Some(LaunchError::AssetSizeMissing));
    let (none, refused) = asset_tasks(&parse_json("{}").unwrap(), "/d", &linux());
    assert!(none.is_empty() && refused.is_none());
    let partial = parse_json(r#"{"objects": {"a": {"hash": "ab12", "size": 4}, "b": {"size": 1}, "c": {"hash": "cd34", "size": 2}}}"#).unwrap();
    let (ts, refused) = asset_tasks(&partial, "/d", &linux());
    assert_eq!(ts.len(), 1);
    assert_eq!(ts[0].name, "a");
    assert_eq!(refused, Some(LaunchError::AssetHashMissing));
}

#[test]
fn asset_hashes_that_cannot_be_sliced() {
    let one = |h: &str| parse_json(&format!(r#"{{"objects": {{"a": {{"hash": "{}", "size": 1}}}}}}"#, h)).unwrap();
    assert!(assets_sliceable(&one("ab")));
    assert!(assets_sliceable(&one("\u{e9}x")));
    assert!(!assets_sliceable(&one("a")));
    assert!(!assets_sliceable(&one("")));
    assert!(!assets_sliceable(&one("a\u{e9}")));
    assert!(!assets_sliceable(&one("\u{20ac}x")));
    assert!(assets_sliceable(&parse_json(r#"{"objects": {"a": {"size": 1}, "b": {"hash": "", "size": 1}}}"#).unwrap()));
    assert!(assets_sliceable(&parse_json("{}").unwrap()));
}

#[test]
fn asset_index_address() {
    assert_eq!(asset_index_url(&manifest()).unwrap(), "https://example.com/17.json");
    let text = r#"{"complianceLevel": 1, "javaVersion": {"majorVersion": 21}, "mainClass": "M"}"#;
    let m = MinecraftManifest::from_json(&parse_json(text).unwrap()).unwrap();
    assert_eq!(
        asset_index_url(&m).unwrap_err(),
        LaunchError::Manifest(dystellar_launcher::manifest::ManifestError::AssetIndexId)
    );
}

#[test]
fn java_of_the_provisioned_runtime() {
    assert_eq!(java_executable("/data/jdk", &linux()), "/data/jdk/bin/java");
    assert_eq!(java_executable("C:\\data\\jdk", &windows()), "C:\\data\\jdk\\bin\\java.exe");
}
