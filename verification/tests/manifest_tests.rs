use dystellar_launcher::json::parse_json;
use dystellar_launcher::manifest::{JavaManifest, Library, ManifestError, MinecraftManifest};

const MANIFEST: &str = r#"{
  "assetIndex": {"id": "17", "sha1": "abc", "size": 100, "totalSize": 2000, "url": "https://example.com/17.json"},
  "complianceLevel": 1,
  "downloads": {
    "client": {"sha1": "c1", "size": 30, "url": "https://example.com/client.jar"},
    "server": {"sha1": "s1", "size": 40, "url": "https://example.com/server.jar"}
  },
  "javaVersion": {"component": "java-runtime-delta", "majorVersion": 21},
  "libraries": [
    {"downloads": {"artifact": {"path": "a/b.jar", "sha1": "x", "size": 1, "url": "https://example.com/b.jar"}}, "name": "a:b:1"},
    {"downloads": {"artifact": {"path": "n/n.jar", "sha1": "y", "size": 2, "url": "https://example.com/n.jar"}}, "name": "org.lwjgl:lwjgl:3:natives-linux",
     "rules": [{"action": "allow", "os": {"name": "linux"}}, {"action": "disallow", "os": {"name": "osx"}}, {"action": "allow"}]}
  ],
  "mainClass": "net.minecraft.client.main.Main"
}"#;

#[test]
fn manifest_reads_all_members() {
    let m = MinecraftManifest::from_json(&parse_json(MANIFEST).unwrap()).unwrap();
    assert!(m.args.is_empty());
    assert_eq!(m.compliance_level, 1);
    assert_eq!(m.java_version, 21);
    assert_eq!(m.main_class, "net.minecraft.client.main.Main");
    assert_eq!(m.downloads.len(), 2);
    assert_eq!(m.downloads[0].id, "client");
    assert_eq!(m.downloads[0].size, 30);
    assert_eq!(m.downloads[0].path, None);
    assert_eq!(m.libs.len(), 2);
    assert_eq!(m.libs[0].os.len(), 0);
    assert_eq!(m.libs[1].os, vec!["linux".to_string()]);
    assert_eq!(m.libs[1].downloads[0].path.as_deref(), Some("n/n.jar"));
    let ai = m.asset_index.as_ref().unwrap();
    assert_eq!(ai.id, "17");
    assert_eq!(ai.total_size, 2000);
    assert_eq!(ai.url, "https://example.com/17.json");
}

#[test]
fn manifest_errors_name_the_member() {
    let without = MANIFEST.replace("\"mainClass\"", "\"main\"");
    let e = MinecraftManifest::from_json(&parse_json(&without).unwrap()).unwrap_err();
    assert_eq!(e, ManifestError::MainClass);
    assert_eq!(e.message(), "mainClass missing");
    let bad_dl = MANIFEST.replace("\"sha1\": \"c1\", ", "");
    assert_eq!(MinecraftManifest::from_json(&parse_json(&bad_dl).unwrap()).unwrap_err(), ManifestError::DownloadSha1);
    let bad_java = MANIFEST.replace("\"majorVersion\": 21", "\"majorVersion\": \"21\"");
    assert_eq!(MinecraftManifest::from_json(&parse_json(&bad_java).unwrap()).unwrap_err(), ManifestError::JavaVersion);
    let bad_lib = MANIFEST.replace("\"name\": \"a:b:1\"", "\"nom\": \"a:b:1\"");
    assert_eq!(MinecraftManifest::from_json(&parse_json(&bad_lib).unwrap()).unwrap_err(), ManifestError::LibraryName);
    let no_assets = MANIFEST.replace("\"assetIndex\"", "\"assets\"");
    let m = MinecraftManifest::from_json(&parse_json(&no_assets).unwrap()).unwrap();
    assert_eq!(m.asset_index.unwrap_err(), ManifestError::AssetIndexId);
    let bad_assets = MANIFEST.replace("\"totalSize\": 2000, ", "");
    let m = MinecraftManifest::from_json(&parse_json(&bad_assets).unwrap()).unwrap();
    assert_eq!(m.asset_index.unwrap_err(), ManifestError::AssetIndexTotalSize);
}

#[test]
fn manifest_without_asset_index_converts() {
    let text = r#"{"complianceLevel": 1, "javaVersion": {"majorVersion": 21}, "mainClass": "net.minecraft.client.main.Main",
        "downloads": {"client": {"sha1": "ab12", "size": 100, "url": "https://c/client.jar"}}, "libraries": []}"#;
    let m = MinecraftManifest::from_json(&parse_json(text).unwrap()).unwrap();
    assert!(m.args.is_empty());
    assert_eq!(m.compliance_level, 1);
    assert_eq!(m.java_version, 21);
    assert_eq!(m.main_class, "net.minecraft.client.main.Main");
    assert!(m.libs.is_empty());
    assert_eq!(m.downloads.len(), 1);
    assert_eq!(m.downloads[0].id, "client");
    assert_eq!(m.downloads[0].path, None);
    assert_eq!(m.downloads[0].sha1, "ab12");
    assert_eq!(m.downloads[0].size, 100);
    assert_eq!(m.asset_index.unwrap_err(), ManifestError::AssetIndexId);
}

#[test]
fn library_without_rules_or_downloads() {
    let l = Library::from_json(&parse_json(r#"{"name": "x"}"#).unwrap()).unwrap();
    assert!(l.downloads.is_empty());
    assert!(l.os.is_empty());
}

#[test]
fn jre_pick_takes_the_greatest_name() {
    let j = parse_json(r#"[
        {"name": "zulu21.30-ca-jre21.0.1-linux_x64.tar.gz", "download_url": "u1"},
        {"name": "zulu21.36-ca-jre21.0.4-linux_x64.tar.gz", "download_url": "u2"},
        {"download_url": "u3"},
        {"name": "zulu21.32-ca-jre21.0.2-linux_x64.tar.gz", "download_url": "u4"}
    ]"#).unwrap();
    let m = JavaManifest::from_json(&j).unwrap();
    assert_eq!(m.name, "zulu21.36-ca-jre21.0.4-linux_x64.tar.gz");
    assert_eq!(m.download_url, "u2");
}

#[test]
fn jre_pick_keeps_the_last_of_equals() {
    let j = parse_json(r#"[{"name": "a", "download_url": "first"}, {"name": "a", "download_url": "second"}]"#).unwrap();
    assert_eq!(JavaManifest::from_json(&j).unwrap().download_url, "second");
}

#[test]
fn jre_pick_errors() {
    assert_eq!(JavaManifest::from_json(&parse_json("[]").unwrap()).unwrap_err(), ManifestError::NoSuitableJre);
    assert_eq!(JavaManifest::from_json(&parse_json("{}").unwrap()).unwrap_err(), ManifestError::NoSuitableJre);
    let no_url = parse_json(r#"[{"name": "a"}]"#).unwrap();
    assert_eq!(JavaManifest::from_json(&no_url).unwrap_err(), ManifestError::NoSuitableJre);
    assert_eq!(ManifestError::NoSuitableJre.message(), "Failed to find a suitable jre");
}
