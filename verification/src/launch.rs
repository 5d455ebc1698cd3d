//! What a launch needs: the version to play, the manifest URL, the Java
//! runtime query, the download tasks for the client, libraries, runtime and
//! assets, and the command line of the game.
use vstd::prelude::*;
use crate::text::{
    chars_of, concat2, contains, contains_s, first_index, int_decimal, push_int_decimal, push_str,
    string_of_range, string_push, to_owned_string, lemma_first_index_at,
};
use crate::json::{Json, JsonV, jv_index, jv_as_str, jv_as_usize, jv_members, jv_entries};
use crate::config::{Config, ConfigV};
use crate::manifest::{
    Download, DownloadV, JavaManifest, Library, LibraryV, ManifestError, MinecraftManifest,
    MinecraftManifestV, downloads_view, libs_view, strings_view,
};
use crate::session::{MicrosoftSession, MicrosoftSessionV};
use crate::platform::{Platform, TargetOs, spec_is_windows, spec_path_join};
use crate::tasks::{HttpDownloadTask, PostScript, PostScriptV, SharedTaskState, TaskState, post_scripts_view};

verus! {

/// Why a launch step failed.
#[derive(Clone, Copy, Debug, PartialEq, Eq, Structural)]
pub enum LaunchError {
    /// The backend's `/launcher` answer has no `minecraft_version`.
    MalformedLauncherResponse,
    /// The version list has no such version.
    VersionNotFound,
    /// The version has no manifest URL.
    UrlNotFound,
    /// The version manifest is refused.
    Manifest(ManifestError),
    /// An asset object has no hash.
    AssetHashMissing,
    /// An asset object has no size.
    AssetSizeMissing,
    /// The manifest has no client download.
    ClientMissing,
    /// No account is signed in.
    NotLoggedIn,
}

impl LaunchError {
    /// The message that the launcher shows for the error.
    pub fn message(&self) -> (res: &'static str)
        ensures
            match self {
                LaunchError::MalformedLauncherResponse => res@ == "Malformed response, minecraft_version not found"@,
                LaunchError::VersionNotFound => res@ == "Version not found"@,
                LaunchError::UrlNotFound => res@ == "Url not found in version"@,
                LaunchError::Manifest(e) => res@ == crate::manifest::spec_manifest_error_message(*e),
                LaunchError::AssetHashMissing => res@ == "asset.hash missing"@,
                LaunchError::AssetSizeMissing => res@ == "asset.size missing"@,
                LaunchError::ClientMissing => res@ == "Failed to install client."@,
                LaunchError::NotLoggedIn => res@ == "Seems like you are not logged in"@,
            },
    {
        match self {
            LaunchError::MalformedLauncherResponse => "Malformed response, minecraft_version not found",
            LaunchError::VersionNotFound => "Version not found",
            LaunchError::UrlNotFound => "Url not found in version",
            LaunchError::Manifest(e) => e.message(),
            LaunchError::AssetHashMissing => "asset.hash missing",
            LaunchError::AssetSizeMissing => "asset.size missing",
            LaunchError::ClientMissing => "Failed to install client.",
            LaunchError::NotLoggedIn => "Seems like you are not logged in",
        }
    }
}

// ---------------------------------------------------------------------------
// The version and its manifest
// ---------------------------------------------------------------------------

/// The version that the backend's `/launcher` answer names.
pub fn launcher_version(answer: &Json) -> (res: Result<String, LaunchError>)
    ensures
        match res {
            Ok(v) => jv_as_str(jv_index(answer@, "minecraft_version"@)) == Some(v@),
            Err(e) => e == LaunchError::MalformedLauncherResponse
                && jv_as_str(jv_index(answer@, "minecraft_version"@)) is None,
        },
{
    match answer.get_str("minecraft_version") {
        Some(v) => Ok(v),
        None => Err(LaunchError::MalformedLauncherResponse),
    }
}

/// The first member whose `id` is `version`.
pub open spec fn spec_find_version(ms: Seq<JsonV>, version: Seq<char>) -> Option<JsonV>
    decreases ms.len(),
{
    if ms.len() == 0 {
        None
    } else if jv_as_str(jv_index(ms[0], "id"@)) == Some(version) {
        Some(ms[0])
    } else {
        spec_find_version(ms.drop_first(), version)
    }
}

/// The manifest URL of `version` in Mojang's version list.
pub open spec fn spec_version_url(list: JsonV, version: Seq<char>) -> Result<Seq<char>, LaunchError> {
    match spec_find_version(jv_members(jv_index(list, "versions"@)), version) {
        None => Err(LaunchError::VersionNotFound),
        Some(v) => match jv_as_str(jv_index(v, "url"@)) {
            None => Err(LaunchError::UrlNotFound),
            Some(u) => Ok(u),
        },
    }
}

pub fn find_version_url(list: &Json, version: &str) -> (res: Result<String, LaunchError>)
    ensures
        match res {
            Ok(u) => spec_version_url(list@, version@) == Ok::<Seq<char>, LaunchError>(u@),
            Err(e) => spec_version_url(list@, version@) == Err::<Seq<char>, LaunchError>(e),
        },
{
    let ghost vs = jv_members(jv_index(list@, "versions"@));
    let ms = match list.field("versions") {
        Some(v) => match v.members() {
            Some(ms) => ms,
            None => {
                return Err(LaunchError::VersionNotFound);
            },
        },
        None => {
            return Err(LaunchError::VersionNotFound);
        },
    };
    let want = to_owned_string(version);
    assert(vs.skip(0) == vs);
    let mut i: usize = 0;
    while i < ms.len()
        invariant
            i <= ms.len(),
            want@ == version@,
            vs == jv_members(jv_index(list@, "versions"@)),
            vs.len() == ms@.len(),
            forall|k: int| 0 <= k < ms@.len() ==> #[trigger] ms@[k]@ == vs[k],
            spec_find_version(vs, version@) == spec_find_version(vs.skip(i as int), version@),
        decreases ms.len() - i,
    {
        proof {
            assert(ms@[i as int]@ == vs[i as int]);
            assert(vs.skip(i as int)[0] == vs[i as int]);
            assert(vs.skip(i as int).drop_first() == vs.skip(i + 1));
        }
        let id = ms[i].get_str("id");
        let same = match &id {
            Some(x) => *x == want,
            None => false,
        };
        if same {
            return match ms[i].get_str("url") {
                Some(u) => Ok(u),
                None => Err(LaunchError::UrlNotFound),
            };
        }
        i = i + 1;
    }
    assert(vs.skip(i as int).len() == 0);
    Err(LaunchError::VersionNotFound)
}

/// Reads the version manifest and pairs it with its version.
pub fn get_manifest(manifest: &Json, version: String) -> (res: Result<(MinecraftManifest, String), LaunchError>)
    ensures
        match res {
            Ok((m, v)) => crate::manifest::spec_minecraft_manifest_from(manifest@) == Ok::<
                MinecraftManifestV,
                ManifestError,
            >(m@) && v == version,
            Err(e) => exists|me: ManifestError|
                crate::manifest::spec_minecraft_manifest_from(manifest@) == Err::<MinecraftManifestV, ManifestError>(me)
                    && e == LaunchError::Manifest(me),
        },
{
    match MinecraftManifest::from_json(manifest) {
        Ok(m) => Ok((m, version)),
        Err(e) => Err(LaunchError::Manifest(e)),
    }
}

// ---------------------------------------------------------------------------
// The Java runtime
// ---------------------------------------------------------------------------

/// The query of Azul's package list for the runtime that the game needs.
pub open spec fn spec_jre_manifest_url(java_version: int, p: Platform) -> Seq<char> {
    "https://api.azul.com/metadata/v1/zulu/packages/?java_version="@ + int_decimal(java_version)
        + "&os="@ + (match p.os {
        TargetOs::LinuxGnu => "linux-glibc"@,
        TargetOs::LinuxMusl => "linux-musl"@,
        TargetOs::MacOs => "macos"@,
        TargetOs::Windows => "windows"@,
    }) + "&arch="@ + (match p.arch {
        crate::platform::TargetArch::X86_64 => "amd64"@,
        crate::platform::TargetArch::Aarch64 => "aarch64"@,
    }) + "&archive_type="@ + (if spec_is_windows(p) { "zip"@ } else { "tar.gz"@ })
        + "&java_package_type=jre&javafx_bundled=false&crac_supported=false&support_term=lts&latest=true&java_package_features=headfull&availability_types=CA&certifications=tck"@
}

pub fn jre_manifest_url(java_version: i32, p: &Platform) -> (res: String)
    ensures
        res@ == spec_jre_manifest_url(java_version as int, *p),
{
    let mut u = to_owned_string("https://api.azul.com/metadata/v1/zulu/packages/?java_version=");
    push_int_decimal(&mut u, java_version as i64);
    push_str(&mut u, "&os=");
    push_str(&mut u, p.azul_os());
    push_str(&mut u, "&arch=");
    push_str(&mut u, p.azul_arch());
    push_str(&mut u, "&archive_type=");
    push_str(&mut u, p.archive_type());
    push_str(
        &mut u,
        "&java_package_type=jre&javafx_bundled=false&crac_supported=false&support_term=lts&latest=true&java_package_features=headfull&availability_types=CA&certifications=tck",
    );
    u
}

/// The runtime package to install, out of Azul's answer.
pub fn get_jre_manifest(packages: &Json) -> (res: Result<JavaManifest, ManifestError>)
    ensures
        match res {
            Ok(m) => crate::manifest::spec_java_manifest_from(packages@) == Some((m.download_url@, m.name@)),
            Err(e) => e == ManifestError::NoSuitableJre && crate::manifest::spec_java_manifest_from(packages@) is None,
        },
{
    JavaManifest::from_json(packages)
}


// ---------------------------------------------------------------------------
// The command line
// ---------------------------------------------------------------------------

/// The words of `s`: its pieces between spaces, empty pieces dropped
/// (`split(' ')` then `filter(|e| !e.is_empty())`).
pub open spec fn spec_words(s: Seq<char>) -> Seq<Seq<char>>
    decreases s.len(),
{
    if s.len() == 0 {
        Seq::empty()
    } else {
        let k = first_index(s, ' ');
        if k <= 0 {
            spec_words(s.drop_first())
        } else if k >= s.len() {
            seq![s]
        } else {
            seq![s.take(k)] + spec_words(s.skip(k + 1))
        }
    }
}

/// The parts joined with `sep` between them.
pub open spec fn spec_join(parts: Seq<Seq<char>>, sep: Seq<char>) -> Seq<char>
    decreases parts.len(),
{
    if parts.len() == 0 {
        Seq::empty()
    } else if parts.len() == 1 {
        parts[0]
    } else {
        spec_join(parts.drop_last(), sep) + sep + parts.last()
    }
}

/// Does a library apply to this system? Yes when it names none, or names it.
pub open spec fn spec_library_applies(l: LibraryV, p: Platform) -> bool {
    l.os.len() == 0 || exists|k: int| 0 <= k < l.os.len() && l.os[k] == spec_library_os_name(p)
}

pub open spec fn spec_library_os_name(p: Platform) -> Seq<char> {
    match p.os {
        TargetOs::LinuxGnu | TargetOs::LinuxMusl => "linux"@,
        TargetOs::Windows => "windows"@,
        TargetOs::MacOs => "osx"@,
    }
}

pub open spec fn spec_classpath_sep(p: Platform) -> Seq<char> {
    if spec_is_windows(p) { ";"@ } else { ":"@ }
}

/// Every download of every library that applies has a path.
pub open spec fn spec_paths_present(libs: Seq<LibraryV>, p: Platform) -> bool {
    forall|i: int, j: int|
        0 <= i < libs.len() && spec_library_applies(libs[i], p) && 0 <= j < libs[i].downloads.len()
            ==> (#[trigger] libs[i].downloads[j]).path is Some
}

/// The files of a library, under the libraries folder.
pub open spec fn spec_download_paths(ds: Seq<DownloadV>, libs_dir: Seq<char>, p: Platform) -> Seq<Seq<char>> {
    Seq::new(ds.len(), |i: int| spec_path_join(p, libs_dir, ds[i].path->0))
}

/// The class path entries of the libraries that apply, one per library.
pub open spec fn spec_classpath_entries(libs: Seq<LibraryV>, libs_dir: Seq<char>, p: Platform) -> Seq<Seq<char>>
    decreases libs.len(),
{
    if libs.len() == 0 {
        Seq::empty()
    } else if spec_library_applies(libs[0], p) {
        seq![spec_join(spec_download_paths(libs[0].downloads, libs_dir, p), spec_classpath_sep(p))]
            + spec_classpath_entries(libs.drop_first(), libs_dir, p)
    } else {
        spec_classpath_entries(libs.drop_first(), libs_dir, p)
    }
}

/// The class path: the libraries' files, then the client.
pub open spec fn spec_classpath(libs: Seq<LibraryV>, data_dir: Seq<char>, p: Platform) -> Seq<char> {
    spec_join(spec_classpath_entries(libs, spec_path_join(p, data_dir, "libs"@), p), spec_classpath_sep(p))
        + spec_classpath_sep(p) + spec_path_join(p, data_dir, "client.jar"@)
}

/// The arguments that only some systems get.
pub open spec fn spec_platform_args(p: Platform) -> Seq<Seq<char>> {
    match p.os {
        TargetOs::Windows => seq![
            "-XX:HeapDumpPath=MojangTricksIntelDriversForPerformance_javaw.exe_minecraft.exe.heapdump"@,
        ],
        TargetOs::MacOs => seq!["-XstartOnFirstThread"@],
        _ => Seq::empty(),
    }
}

/// The arguments of `java`: memory and native paths, the launcher's name and
/// version, the system's own, the user's, the class path and main class, and
/// the game's.
pub open spec fn spec_game_args(
    m: MinecraftManifestV,
    c: ConfigV,
    version: Seq<char>,
    s: MicrosoftSessionV,
    data_dir: Seq<char>,
    client_id: Seq<char>,
    launcher_version: Seq<char>,
    p: Platform,
) -> Seq<Seq<char>> {
    let natives = spec_path_join(p, data_dir, "natives"@);
    let natives_tmp = spec_path_join(p, natives, "tmp"@);
    seq![
        "-Xmx"@ + int_decimal(c.ram_allocation_mb) + "M"@,
        "-Xss1M"@,
        "-Djava.library.path="@ + natives,
        "-Djna.tmpdir="@ + natives_tmp,
        "-Dorg.lwjgl.system.SharedLibraryExtractPath="@ + natives,
        "-Dio.netty.native.workdir="@ + natives_tmp,
        "-Dminecraft.launcher.brand=Dystellar"@,
        "-Dminecraft.launcher.version="@ + launcher_version,
    ] + spec_platform_args(p) + spec_words(c.jvm_args) + seq![
        "-cp"@,
        spec_classpath(m.libs, data_dir, p),
        m.main_class,
    ] + seq![
        "--username"@,
        s.username,
        "--version"@,
        version,
        "--gameDir"@,
        c.game_dir,
        "--assetsDir"@,
        c.game_dir + "/assets"@,
        "--uuid"@,
        s.uuid,
        "--accessToken"@,
        s.minecraft_token,
        "--clientId"@,
        client_id,
        "--xuid"@,
        s.uhs,
        "--versionType"@,
        "release"@,
        "--width"@,
        int_decimal(c.width),
        "--height"@,
        int_decimal(c.height),
    ]
}

proof fn lemma_words_space(s: Seq<char>, start: int, i: int)
    requires
        0 <= start <= i < s.len(),
        s[i] == ' ',
        forall|k: int| start <= k < i ==> s[k] != ' ',
    ensures
        spec_words(s.skip(start)) == if i == start {
            spec_words(s.skip(i + 1))
        } else {
            seq![s.subrange(start, i)] + spec_words(s.skip(i + 1))
        },
{
    let t = s.skip(start);
    lemma_first_index_at(t, ' ', i - start);
    assert(t.drop_first() == s.skip(start + 1));
    assert(t.skip(i - start + 1) == s.skip(i + 1));
    assert(t.take(i - start) == s.subrange(start, i));
}

proof fn lemma_words_end(s: Seq<char>, start: int)
    requires
        0 <= start <= s.len(),
        forall|k: int| start <= k < s.len() ==> s[k] != ' ',
    ensures
        spec_words(s.skip(start)) == if start == s.len() {
            Seq::<Seq<char>>::empty()
        } else {
            seq![s.skip(start)]
        },
{
    let t = s.skip(start);
    lemma_first_index_at(t, ' ', t.len() as int);
}

/// The words of `s`; see `spec_words`.
pub fn words(s: &str) -> (res: Vec<String>)
    ensures
        strings_view(res@) == spec_words(s@),
{
    let v = chars_of(s);
    let mut out: Vec<String> = Vec::new();
    let mut start: usize = 0;
    let mut i: usize = 0;
    assert(v@.skip(0) == v@);
    assert(strings_view(out@) + spec_words(v@.skip(0)) =~= spec_words(v@));
    while i < v.len()
        invariant
            v@ == s@,
            start <= i <= v.len(),
            forall|k: int| start <= k < i ==> v@[k] != ' ',
            spec_words(v@) == strings_view(out@) + spec_words(v@.skip(start as int)),
        decreases v.len() - i,
    {
        if v[i] == ' ' {
            proof {
                lemma_words_space(v@, start as int, i as int);
            }
            if i > start {
                let w = string_of_range(&v, start, i);
                let ghost before = strings_view(out@);
                out.push(w);
                proof {
                    assert(strings_view(out@) =~= before.push(w@));
                    assert(before + (seq![w@] + spec_words(v@.skip(i + 1))) =~= strings_view(out@)
                        + spec_words(v@.skip(i + 1)));
                }
            }
            start = i + 1;
        }
        i = i + 1;
    }
    proof {
        lemma_words_end(v@, start as int);
    }
    if start < v.len() {
        let w = string_of_range(&v, start, v.len());
        let ghost before = strings_view(out@);
        out.push(w);
        proof {
            assert(w@ == v@.skip(start as int));
            assert(strings_view(out@) =~= before.push(w@));
            assert(before + seq![w@] =~= strings_view(out@));
        }
    } else {
        assert(strings_view(out@) + Seq::<Seq<char>>::empty() =~= strings_view(out@));
    }
    out
}

/// The parts joined with `sep` between them.
pub fn join(parts: &Vec<String>, sep: &str) -> (res: String)
    ensures
        res@ == spec_join(strings_view(parts@), sep@),
{
    let ghost pv = strings_view(parts@);
    let mut out = String::new();
    let mut i: usize = 0;
    while i < parts.len()
        invariant
            i <= parts.len(),
            pv == strings_view(parts@),
            out@ == spec_join(pv.take(i as int), sep@),
        decreases parts.len() - i,
    {
        proof {
            let t = pv.take(i + 1);
            assert(t.drop_last() == pv.take(i as int));
            assert(t.last() == parts@[i as int]@);
        }
        if i > 0 {
            push_str(&mut out, sep);
        }
        push_str(&mut out, parts[i].as_str());
        i = i + 1;
    }
    assert(pv.take(parts.len() as int) == pv);
    out
}

/// Does the library apply to this system?
pub fn library_applies(lib: &Library, p: &Platform) -> (res: bool)
    ensures
        res == spec_library_applies(lib@, *p),
{
    if lib.os.len() == 0 {
        return true;
    }
    let name = to_owned_string(p.library_os_name());
    let mut k: usize = 0;
    while k < lib.os.len()
        invariant
            k <= lib.os.len(),
            name@ == spec_library_os_name(*p),
            forall|j: int| 0 <= j < k ==> lib.os@[j]@ != name@,
        decreases lib.os.len() - k,
    {
        if lib.os[k] == name {
            assert(lib@.os[k as int] == spec_library_os_name(*p));
            return true;
        }
        k = k + 1;
    }
    proof {
        assert forall|j: int| 0 <= j < lib@.os.len() implies lib@.os[j] != spec_library_os_name(*p) by {
            assert(lib@.os[j] == lib.os@[j]@);
        }
    }
    false
}

/// The class path entry of one library: its files joined.
fn library_entry(lib: &Library, libs_dir: &str, p: &Platform) -> (res: String)
    requires
        forall|j: int| 0 <= j < lib@.downloads.len() ==> (#[trigger] lib@.downloads[j]).path is Some,
    ensures
        res@ == spec_join(spec_download_paths(lib@.downloads, libs_dir@, *p), spec_classpath_sep(*p)),
{
    let mut paths: Vec<String> = Vec::new();
    let mut j: usize = 0;
    while j < lib.downloads.len()
        invariant
            j <= lib.downloads.len(),
            forall|k: int| 0 <= k < lib@.downloads.len() ==> (#[trigger] lib@.downloads[k]).path is Some,
            strings_view(paths@) == spec_download_paths(lib@.downloads, libs_dir@, *p).take(j as int),
        decreases lib.downloads.len() - j,
    {
        assert(lib@.downloads[j as int] == lib.downloads@[j as int]@);
        let part = match &lib.downloads[j].path {
            Some(x) => p.path_join(libs_dir, x.as_str()),
            None => {
                assert(false);
                String::new()
            },
        };
        let ghost before = strings_view(paths@);
        paths.push(part);
        proof {
            assert(strings_view(paths@) =~= before.push(part@));
            assert(spec_download_paths(lib@.downloads, libs_dir@, *p).take(j + 1) =~= before.push(part@));
        }
        j = j + 1;
    }
    assert(spec_download_paths(lib@.downloads, libs_dir@, *p).take(j as int) =~= spec_download_paths(
        lib@.downloads,
        libs_dir@,
        *p,
    ));
    join(&paths, p.classpath_separator())
}

proof fn lemma_classpath_step(libs: Seq<LibraryV>, libs_dir: Seq<char>, p: Platform, i: int)
    requires
        0 <= i < libs.len(),
    ensures
        spec_classpath_entries(libs.skip(i), libs_dir, p) == if spec_library_applies(libs[i], p) {
            seq![spec_join(spec_download_paths(libs[i].downloads, libs_dir, p), spec_classpath_sep(p))]
                + spec_classpath_entries(libs.skip(i + 1), libs_dir, p)
        } else {
            spec_classpath_entries(libs.skip(i + 1), libs_dir, p)
        },
{
    assert(libs.skip(i).drop_first() == libs.skip(i + 1));
    assert(libs.skip(i)[0] == libs[i]);
}

/// The class path; see `spec_classpath`.
pub fn classpath(libs: &Vec<Library>, data_dir: &str, p: &Platform) -> (res: String)
    requires
        spec_paths_present(libs_view(libs@), *p),
    ensures
        res@ == spec_classpath(libs_view(libs@), data_dir@, *p),
{
    let ghost lv = libs_view(libs@);
    let libs_dir = p.path_join(data_dir, "libs");
    let mut entries: Vec<String> = Vec::new();
    let mut i: usize = 0;
    assert(lv.skip(0) == lv);
    assert(strings_view(entries@) + spec_classpath_entries(lv.skip(0), libs_dir@, *p) =~= spec_classpath_entries(lv, libs_dir@, *p));
    while i < libs.len()
        invariant
            i <= libs.len(),
            lv == libs_view(libs@),
            spec_paths_present(lv, *p),
            spec_classpath_entries(lv, libs_dir@, *p) == strings_view(entries@) + spec_classpath_entries(
                lv.skip(i as int),
                libs_dir@,
                *p,
            ),
        decreases libs.len() - i,
    {
        proof {
            lemma_classpath_step(lv, libs_dir@, *p, i as int);
            assert(lv[i as int] == libs@[i as int]@);
        }
        if library_applies(&libs[i], p) {
            proof {
                assert forall|j: int| 0 <= j < libs@[i as int]@.downloads.len() implies (#[trigger] libs@[i as int]@.downloads[j]).path is Some by {
                    assert(lv[i as int].downloads[j] == libs@[i as int]@.downloads[j]);
                }
            }
            let e = library_entry(&libs[i], libs_dir.as_str(), p);
            let ghost before = strings_view(entries@);
            entries.push(e);
            proof {
                assert(strings_view(entries@) =~= before.push(e@));
                assert(before + (seq![e@] + spec_classpath_entries(lv.skip(i + 1), libs_dir@, *p)) =~= strings_view(entries@)
                    + spec_classpath_entries(lv.skip(i + 1), libs_dir@, *p));
            }
        }
        i = i + 1;
    }
    proof {
        assert(lv.skip(i as int).len() == 0);
        assert(strings_view(entries@) + Seq::<Seq<char>>::empty() =~= strings_view(entries@));
    }
    let sep = p.classpath_separator();
    let mut cp = join(&entries, sep);
    push_str(&mut cp, sep);
    let client = p.path_join(data_dir, "client.jar");
    push_str(&mut cp, client.as_str());
    cp
}

fn push_arg(args: &mut Vec<String>, a: String)
    ensures
        strings_view(final(args)@) == strings_view(old(args)@).push(a@),
{
    let ghost before = strings_view(args@);
    args.push(a);
    assert(strings_view(args@) =~= before.push(a@));
}

fn push_lit(args: &mut Vec<String>, a: &str)
    ensures
        strings_view(final(args)@) == strings_view(old(args)@).push(a@),
{
    push_arg(args, to_owned_string(a));
}

/// The memory, native path and launcher arguments, then the system's own.
fn jvm_head_args(ram: i32, data_dir: &str, launcher_version: &str, p: &Platform) -> (res: Vec<String>)
    ensures
        ({
            let natives = spec_path_join(*p, data_dir@, "natives"@);
            let natives_tmp = spec_path_join(*p, natives, "tmp"@);
            strings_view(res@) == seq![
                "-Xmx"@ + int_decimal(ram as int) + "M"@,
                "-Xss1M"@,
                "-Djava.library.path="@ + natives,
                "-Djna.tmpdir="@ + natives_tmp,
                "-Dorg.lwjgl.system.SharedLibraryExtractPath="@ + natives,
                "-Dio.netty.native.workdir="@ + natives_tmp,
                "-Dminecraft.launcher.brand=Dystellar"@,
                "-Dminecraft.launcher.version="@ + launcher_version@,
            ] + spec_platform_args(*p)
        }),
{
    proof {
        reveal_strlit("M");
    }
    let natives = p.path_join(data_dir, "natives");
    let natives_tmp = p.path_join(natives.as_str(), "tmp");
    let mut args: Vec<String> = Vec::new();
    let mut xmx = to_owned_string("-Xmx");
    push_int_decimal(&mut xmx, ram as i64);
    string_push(&mut xmx, 'M');
    assert(xmx@ =~= "-Xmx"@ + int_decimal(ram as int) + "M"@);
    push_arg(&mut args, xmx);
    push_lit(&mut args, "-Xss1M");
    push_arg(&mut args, concat2("-Djava.library.path=", natives.as_str()));
    push_arg(&mut args, concat2("-Djna.tmpdir=", natives_tmp.as_str()));
    push_arg(&mut args, concat2("-Dorg.lwjgl.system.SharedLibraryExtractPath=", natives.as_str()));
    push_arg(&mut args, concat2("-Dio.netty.native.workdir=", natives_tmp.as_str()));
    push_lit(&mut args, "-Dminecraft.launcher.brand=Dystellar");
    push_arg(&mut args, concat2("-Dminecraft.launcher.version=", launcher_version));
    let ghost head = strings_view(args@);
    match p.os {
        TargetOs::Windows => push_lit(
            &mut args,
            "-XX:HeapDumpPath=MojangTricksIntelDriversForPerformance_javaw.exe_minecraft.exe.heapdump",
        ),
        TargetOs::MacOs => push_lit(&mut args, "-XstartOnFirstThread"),
        _ => {},
    }
    assert(strings_view(args@) =~= head + spec_platform_args(*p));
    args
}

/// Appends the game's own arguments.
fn push_game_tail(args: &mut Vec<String>, config: &Config, version: &str, session: &MicrosoftSession, client_id: &str)
    ensures
        strings_view(final(args)@) == strings_view(old(args)@) + seq![
            "--username"@,
            session@.username,
            "--version"@,
            version@,
            "--gameDir"@,
            config@.game_dir,
            "--assetsDir"@,
            config@.game_dir + "/assets"@,
            "--uuid"@,
            session@.uuid,
            "--accessToken"@,
            session@.minecraft_token,
            "--clientId"@,
            client_id@,
            "--xuid"@,
            session@.uhs,
            "--versionType"@,
            "release"@,
            "--width"@,
            int_decimal(config@.width),
            "--height"@,
            int_decimal(config@.height),
        ],
{
    let ghost start = strings_view(args@);
    push_lit(args, "--username");
    push_arg(args, to_owned_string(session.get_username()));
    push_lit(args, "--version");
    push_arg(args, to_owned_string(version));
    push_lit(args, "--gameDir");
    push_arg(args, to_owned_string(config.game_dir.as_str()));
    push_lit(args, "--assetsDir");
    push_arg(args, concat2(config.game_dir.as_str(), "/assets"));
    push_lit(args, "--uuid");
    push_arg(args, to_owned_string(session.uuid.as_str()));
    push_lit(args, "--accessToken");
    push_arg(args, to_owned_string(session.minecraft_token.as_str()));
    let ghost mid = strings_view(args@);
    push_lit(args, "--clientId");
    push_arg(args, to_owned_string(client_id));
    push_lit(args, "--xuid");
    push_arg(args, to_owned_string(session.uhs.as_str()));
    push_lit(args, "--versionType");
    push_lit(args, "release");
    push_lit(args, "--width");
    let mut w = String::new();
    push_int_decimal(&mut w, config.resolution.x as i64);
    push_arg(args, w);
    push_lit(args, "--height");
    let mut h = String::new();
    push_int_decimal(&mut h, config.resolution.y as i64);
    push_arg(args, h);
    assert(mid =~= start + seq![
        "--username"@,
        session@.username,
        "--version"@,
        version@,
        "--gameDir"@,
        config@.game_dir,
        "--assetsDir"@,
        config@.game_dir + "/assets"@,
        "--uuid"@,
        session@.uuid,
        "--accessToken"@,
        session@.minecraft_token,
    ]);
    assert(strings_view(args@) =~= mid + seq![
        "--clientId"@,
        client_id@,
        "--xuid"@,
        session@.uhs,
        "--versionType"@,
        "release"@,
        "--width"@,
        int_decimal(config@.width),
        "--height"@,
        int_decimal(config@.height),
    ]);
}

/// The arguments of `java` that start the game; see `spec_game_args`.
pub fn get_args(
    manifest: &MinecraftManifest,
    config: &Config,
    version: &str,
    session: &MicrosoftSession,
    data_dir: &str,
    client_id: &str,
    launcher_version: &str,
    p: &Platform,
) -> (res: Vec<String>)
    requires
        spec_paths_present(manifest@.libs, *p),
    ensures
        strings_view(res@) == spec_game_args(
            manifest@,
            config@,
            version@,
            session@,
            data_dir@,
            client_id@,
            launcher_version@,
            *p,
        ),
{
    let mut args = jvm_head_args(config.ram_allocation_mb, data_dir, launcher_version, p);
    let ghost head2 = strings_view(args@);
    let user = words(config.jvm_args.as_str());
    let mut k: usize = 0;
    while k < user.len()
        invariant
            k <= user.len(),
            strings_view(args@) == head2 + strings_view(user@).take(k as int),
        decreases user.len() - k,
    {
        let w = to_owned_string(user[k].as_str());
        push_arg(&mut args, w);
        assert(strings_view(user@).take(k + 1) =~= strings_view(user@).take(k as int).push(w@));
        assert(head2 + strings_view(user@).take(k + 1) =~= (head2 + strings_view(user@).take(k as int)).push(w@));
        k = k + 1;
    }
    assert(strings_view(user@).take(user.len() as int) =~= strings_view(user@));
    let ghost head3 = strings_view(args@);
    push_lit(&mut args, "-cp");
    let cp = classpath(&manifest.libs, data_dir, p);
    push_arg(&mut args, cp);
    push_arg(&mut args, to_owned_string(manifest.main_class.as_str()));
    assert(strings_view(args@) =~= head3 + seq!["-cp"@, cp@, manifest@.main_class]);
    push_game_tail(&mut args, config, version, session, client_id);
    assert(strings_view(args@) =~= spec_game_args(
        manifest@,
        config@,
        version@,
        session@,
        data_dir@,
        client_id@,
        launcher_version@,
        *p,
    ));
    args
}


// ---------------------------------------------------------------------------
// Download tasks
// ---------------------------------------------------------------------------

/// A download task with the group, name and details under which the task
/// list shows it.
#[derive(Debug)]
pub struct PlannedTask {
    pub group: String,
    pub name: String,
    pub details: String,
    pub task: HttpDownloadTask,
}

pub ghost struct PlannedTaskV {
    pub group: Seq<char>,
    pub name: Seq<char>,
    pub details: Seq<char>,
    pub url: Seq<char>,
    pub output: Seq<char>,
    pub total: int,
    pub post: Seq<PostScriptV>,
}

impl View for PlannedTask {
    type V = PlannedTaskV;

    open spec fn view(&self) -> PlannedTaskV {
        PlannedTaskV {
            group: self.group@,
            name: self.name@,
            details: self.details@,
            url: self.task.url@,
            output: self.task.output@,
            total: self.task.shared_state.total as int,
            post: post_scripts_view(self.task.post_scripts@),
        }
    }
}

pub open spec fn planned_view(v: Seq<PlannedTask>) -> Seq<PlannedTaskV> {
    v.map_values(|t: PlannedTask| t@)
}

/// A task that has not started, as the contracts see it.
pub open spec fn spec_fresh_task(t: PlannedTask) -> bool {
    t.task.shared_state.progress == 0 && t.task.shared_state.state == TaskState::Waiting
}

fn planned(group: &str, name: &str, details: &str, url: &str, output: String, total: usize, post: Vec<PostScript>) -> (res: PlannedTask)
    ensures
        res@ == (PlannedTaskV {
            group: group@,
            name: name@,
            details: details@,
            url: url@,
            output: output@,
            total: total as int,
            post: post_scripts_view(post@),
        }),
        spec_fresh_task(res),
{
    let mut task = HttpDownloadTask {
        url: to_owned_string(url),
        output,
        shared_state: SharedTaskState::new(),
        post_scripts: post,
    };
    task.shared_state.total = total;
    PlannedTask {
        group: to_owned_string(group),
        name: to_owned_string(name),
        details: to_owned_string(details),
        task,
    }
}

/// The download task of a library file.
pub open spec fn spec_library_task(d: DownloadV, name: Seq<char>, data_dir: Seq<char>, p: Platform) -> PlannedTaskV {
    let out = spec_path_join(p, spec_path_join(p, data_dir, "libs"@), d.path->0);
    PlannedTaskV {
        group: "Downloads"@,
        name,
        details: d.url,
        url: d.url,
        output: out,
        total: 0,
        post: seq![PostScriptV::VerifySha1 { path: out, sha1: d.sha1 }] + if contains_s(name, "native"@) {
            seq![PostScriptV::UnpackNatives { path: out, output: spec_path_join(p, data_dir, "natives"@) }]
        } else {
            Seq::empty()
        },
    }
}

/// The tasks of a library's `artifact` downloads, in order.
pub open spec fn spec_artifact_tasks(ds: Seq<DownloadV>, name: Seq<char>, data_dir: Seq<char>, p: Platform) -> Seq<PlannedTaskV>
    decreases ds.len(),
{
    if ds.len() == 0 {
        Seq::empty()
    } else if ds[0].id == "artifact"@ {
        seq![spec_library_task(ds[0], name, data_dir, p)] + spec_artifact_tasks(ds.drop_first(), name, data_dir, p)
    } else {
        spec_artifact_tasks(ds.drop_first(), name, data_dir, p)
    }
}

/// The download tasks of a library: none when it does not apply to this
/// system, else one per `artifact` download. (Whether the file is already
/// there is the caller's to check.)
pub open spec fn spec_library_tasks(l: LibraryV, data_dir: Seq<char>, p: Platform) -> Seq<PlannedTaskV> {
    if spec_library_applies(l, p) {
        spec_artifact_tasks(l.downloads, l.name, data_dir, p)
    } else {
        Seq::empty()
    }
}

proof fn lemma_artifact_step(ds: Seq<DownloadV>, name: Seq<char>, data_dir: Seq<char>, p: Platform, i: int)
    requires
        0 <= i < ds.len(),
    ensures
        spec_artifact_tasks(ds.skip(i), name, data_dir, p) == if ds[i].id == "artifact"@ {
            seq![spec_library_task(ds[i], name, data_dir, p)] + spec_artifact_tasks(ds.skip(i + 1), name, data_dir, p)
        } else {
            spec_artifact_tasks(ds.skip(i + 1), name, data_dir, p)
        },
{
    assert(ds.skip(i).drop_first() == ds.skip(i + 1));
    assert(ds.skip(i)[0] == ds[i]);
}

/// The download tasks of a library; see `spec_library_tasks`.
pub fn library_tasks(lib: &Library, data_dir: &str, p: &Platform) -> (res: Vec<PlannedTask>)
    requires
        spec_library_applies(lib@, *p) ==> forall|j: int|
            0 <= j < lib@.downloads.len() ==> (#[trigger] lib@.downloads[j]).path is Some,
    ensures
        planned_view(res@) == spec_library_tasks(lib@, data_dir@, *p),
        forall|i: int| 0 <= i < res@.len() ==> spec_fresh_task(#[trigger] res@[i]),
{
    let mut out: Vec<PlannedTask> = Vec::new();
    if !library_applies(lib, p) {
        assert(planned_view(out@) =~= Seq::<PlannedTaskV>::empty());
        return out;
    }
    let ghost dv = lib@.downloads;
    let libs_dir = p.path_join(data_dir, "libs");
    let natives = p.path_join(data_dir, "natives");
    let native = contains(lib.name.as_str(), "native");
    let artifact = to_owned_string("artifact");
    assert(dv.skip(0) == dv);
    assert(planned_view(out@) + spec_artifact_tasks(dv.skip(0), lib@.name, data_dir@, *p) =~= spec_artifact_tasks(dv, lib@.name, data_dir@, *p));
    let mut j: usize = 0;
    while j < lib.downloads.len()
        invariant
            j <= lib.downloads.len(),
            dv == lib@.downloads,
            dv.len() == lib.downloads@.len(),
            forall|k: int| 0 <= k < dv.len() ==> (#[trigger] dv[k]).path is Some,
            libs_dir@ == spec_path_join(*p, data_dir@, "libs"@),
            natives@ == spec_path_join(*p, data_dir@, "natives"@),
            native == contains_s(lib@.name, "native"@),
            artifact@ == "artifact"@,
            spec_artifact_tasks(dv, lib@.name, data_dir@, *p) == planned_view(out@) + spec_artifact_tasks(
                dv.skip(j as int),
                lib@.name,
                data_dir@,
                *p,
            ),
            forall|i: int| 0 <= i < out@.len() ==> spec_fresh_task(#[trigger] out@[i]),
        decreases lib.downloads.len() - j,
    {
        proof {
            lemma_artifact_step(dv, lib@.name, data_dir@, *p, j as int);
            assert(dv[j as int] == lib.downloads@[j as int]@);
        }
        let d = &lib.downloads[j];
        if d.id == artifact {
            let output = match &d.path {
                Some(x) => p.path_join(libs_dir.as_str(), x.as_str()),
                None => {
                    assert(false);
                    String::new()
                },
            };
            let mut post: Vec<PostScript> = Vec::new();
            post.push(PostScript::VerifySha1 { path: to_owned_string(output.as_str()), sha1: d.sha1.clone() });
            if native {
                post.push(PostScript::UnpackNatives { path: to_owned_string(output.as_str()), output: to_owned_string(natives.as_str()) });
            }
            proof {
                let tail = if contains_s(lib@.name, "native"@) {
                    seq![PostScriptV::UnpackNatives { path: output@, output: natives@ }]
                } else {
                    Seq::<PostScriptV>::empty()
                };
                assert(post_scripts_view(post@) =~= seq![PostScriptV::VerifySha1 { path: output@, sha1: dv[j as int].sha1 }] + tail);
            }
            let t = planned("Downloads", lib.name.as_str(), d.url.as_str(), d.url.as_str(), output, 0, post);
            let ghost before = planned_view(out@);
            out.push(t);
            proof {
                assert(t@ == spec_library_task(dv[j as int], lib@.name, data_dir@, *p));
                assert(planned_view(out@) =~= before.push(t@));
                assert(before + (seq![t@] + spec_artifact_tasks(dv.skip(j + 1), lib@.name, data_dir@, *p)) =~= planned_view(out@)
                    + spec_artifact_tasks(dv.skip(j + 1), lib@.name, data_dir@, *p));
            }
        }
        j = j + 1;
    }
    proof {
        assert(dv.skip(j as int).len() == 0);
        assert(planned_view(out@) + Seq::<PlannedTaskV>::empty() =~= planned_view(out@));
    }
    out
}


/// The runtime's download task: the package goes to the cache and is
/// unpacked, without its top folder, into the runtime folder.
pub open spec fn spec_jre_task(url: Seq<char>, name: Seq<char>, cache_dir: Seq<char>, jdk_dir: Seq<char>, p: Platform) -> PlannedTaskV {
    let out = spec_path_join(p, cache_dir, name);
    PlannedTaskV {
        group: "JRE Download"@,
        name,
        details: url,
        url,
        output: out,
        total: 0,
        post: seq![PostScriptV::UnpackPackage { path: out, output: jdk_dir, skip_top: true }],
    }
}

/// The runtime's download task, for when the runtime folder lacks `bin`.
pub fn jre_task(java: &JavaManifest, cache_dir: &str, jdk_dir: &str, p: &Platform) -> (res: PlannedTask)
    ensures
        res@ == spec_jre_task(java.download_url@, java.name@, cache_dir@, jdk_dir@, *p),
        spec_fresh_task(res),
{
    let output = p.path_join(cache_dir, java.name.as_str());
    let mut post: Vec<PostScript> = Vec::new();
    post.push(PostScript::UnpackPackage { path: to_owned_string(output.as_str()), output: to_owned_string(jdk_dir), skip_top: true });
    assert(post_scripts_view(post@) =~= seq![PostScriptV::UnpackPackage { path: output@, output: jdk_dir@, skip_top: true }]);
    planned("JRE Download", java.name.as_str(), java.download_url.as_str(), java.download_url.as_str(), output, 0, post)
}

/// The first download named `client`.
pub open spec fn spec_find_client(ds: Seq<DownloadV>) -> Option<DownloadV>
    decreases ds.len(),
{
    if ds.len() == 0 {
        None
    } else if ds[0].id == "client"@ {
        Some(ds[0])
    } else {
        spec_find_client(ds.drop_first())
    }
}

/// The client's download task, its size known ahead.
pub open spec fn spec_client_task(m: MinecraftManifestV, data_dir: Seq<char>, p: Platform) -> Result<PlannedTaskV, LaunchError> {
    match spec_find_client(m.downloads) {
        None => Err(LaunchError::ClientMissing),
        Some(d) => {
            let out = spec_path_join(p, data_dir, "client.jar"@);
            Ok(
                PlannedTaskV {
                    group: "Downloads"@,
                    name: "Client Download"@,
                    details: d.url,
                    url: d.url,
                    output: out,
                    total: (d.size as usize) as int,
                    post: seq![PostScriptV::VerifySha1 { path: out, sha1: d.sha1 }],
                },
            )
        },
    }
}

/// The client's download task, for when `client.jar` is missing.
pub fn client_task(manifest: &MinecraftManifest, data_dir: &str, p: &Platform) -> (res: Result<PlannedTask, LaunchError>)
    ensures
        match res {
            Ok(t) => spec_client_task(manifest@, data_dir@, *p) == Ok::<PlannedTaskV, LaunchError>(t@) && spec_fresh_task(t),
            Err(e) => spec_client_task(manifest@, data_dir@, *p) == Err::<PlannedTaskV, LaunchError>(e),
        },
{
    let ghost dv = manifest@.downloads;
    let client = to_owned_string("client");
    assert(dv.skip(0) == dv);
    let mut i: usize = 0;
    while i < manifest.downloads.len()
        invariant
            i <= manifest.downloads.len(),
            dv == manifest@.downloads,
            dv.len() == manifest.downloads@.len(),
            client@ == "client"@,
            spec_find_client(dv) == spec_find_client(dv.skip(i as int)),
        decreases manifest.downloads.len() - i,
    {
        proof {
            assert(dv[i as int] == manifest.downloads@[i as int]@);
            assert(dv.skip(i as int)[0] == dv[i as int]);
            assert(dv.skip(i as int).drop_first() == dv.skip(i + 1));
        }
        let d = &manifest.downloads[i];
        if d.id == client {
            let output = p.path_join(data_dir, "client.jar");
            let mut post: Vec<PostScript> = Vec::new();
            post.push(PostScript::VerifySha1 { path: to_owned_string(output.as_str()), sha1: d.sha1.clone() });
            assert(post_scripts_view(post@) =~= seq![PostScriptV::VerifySha1 { path: output@, sha1: dv[i as int].sha1 }]);
            let t = planned("Downloads", "Client Download", d.url.as_str(), d.url.as_str(), output, d.size as usize, post);
            return Ok(t);
        }
        i = i + 1;
    }
    assert(dv.skip(i as int).len() == 0);
    Err(LaunchError::ClientMissing)
}

/// The first part of an asset hash, `hash[0..2]` by bytes: two characters
/// when the first is ASCII, else the first alone.
pub open spec fn spec_hash_prefix(h: Seq<char>) -> Seq<char> {
    let ascii_first = h[0] < '\u{80}';
    if ascii_first {
        h.take(2)
    } else {
        h.take(1)
    }
}

/// Byte 2 of the hash is a character boundary inside it (else `get(0..2)`
/// gives `None`, and taking the prefix would panic).
pub open spec fn spec_hash_sliceable(h: Seq<char>) -> bool {
    &&& h.len() >= 1
    &&& ((h[0] < '\u{80}' && h.len() >= 2 && h[1] < '\u{80}') || ('\u{80}' <= h[0] && h[0] < '\u{800}'))
}

/// The download task of one asset object.
pub open spec fn spec_asset_task(id: Seq<char>, hash: Seq<char>, size: int, data_dir: Seq<char>, p: Platform) -> PlannedTaskV {
    let slice = spec_hash_prefix(hash);
    let out = spec_path_join(p, spec_path_join(p, spec_path_join(p, data_dir, "assets/objects"@), slice), hash);
    let url = "https://resources.download.minecraft.net/"@ + slice + "/"@ + hash;
    PlannedTaskV {
        group: "Downloads"@,
        name: id,
        details: url,
        url,
        output: out,
        total: size,
        post: seq![PostScriptV::VerifySha1 { path: out, sha1: hash }],
    }
}

/// The tasks of the asset objects, in order, up to the first object without
/// a hash or a size; with the error that object gives, if there is one.
pub open spec fn spec_asset_tasks(es: Seq<(Seq<char>, JsonV)>, data_dir: Seq<char>, p: Platform) -> (Seq<PlannedTaskV>, Option<LaunchError>)
    decreases es.len(),
{
    if es.len() == 0 {
        (Seq::empty(), None)
    } else {
        match jv_as_str(jv_index(es[0].1, "hash"@)) {
            None => (Seq::empty(), Some(LaunchError::AssetHashMissing)),
            Some(h) => match jv_as_usize(jv_index(es[0].1, "size"@)) {
                None => (Seq::empty(), Some(LaunchError::AssetSizeMissing)),
                Some(size) => {
                    let rest = spec_asset_tasks(es.drop_first(), data_dir, p);
                    (seq![spec_asset_task(es[0].0, h, size, data_dir, p)] + rest.0, rest.1)
                },
            },
        }
    }
}

/// Every hash met before an error can be sliced.
pub open spec fn spec_assets_sliceable(es: Seq<(Seq<char>, JsonV)>) -> bool
    decreases es.len(),
{
    if es.len() == 0 {
        true
    } else {
        match jv_as_str(jv_index(es[0].1, "hash"@)) {
            None => true,
            Some(h) => match jv_as_usize(jv_index(es[0].1, "size"@)) {
                None => true,
                Some(_) => spec_hash_sliceable(h) && spec_assets_sliceable(es.drop_first()),
            },
        }
    }
}

proof fn lemma_assets_step(es: Seq<(Seq<char>, JsonV)>, data_dir: Seq<char>, p: Platform, i: int)
    requires
        0 <= i < es.len(),
    ensures
        spec_asset_tasks(es.skip(i), data_dir, p) == match jv_as_str(jv_index(es[i].1, "hash"@)) {
            None => (Seq::<PlannedTaskV>::empty(), Some(LaunchError::AssetHashMissing)),
            Some(h) => match jv_as_usize(jv_index(es[i].1, "size"@)) {
                None => (Seq::<PlannedTaskV>::empty(), Some(LaunchError::AssetSizeMissing)),
                Some(size) => {
                    let rest = spec_asset_tasks(es.skip(i + 1), data_dir, p);
                    (seq![spec_asset_task(es[i].0, h, size, data_dir, p)] + rest.0, rest.1)
                },
            },
        },
        spec_assets_sliceable(es.skip(i)) == match jv_as_str(jv_index(es[i].1, "hash"@)) {
            None => true,
            Some(h) => match jv_as_usize(jv_index(es[i].1, "size"@)) {
                None => true,
                Some(_) => spec_hash_sliceable(h) && spec_assets_sliceable(es.skip(i + 1)),
            },
        },
{
    assert(es.skip(i).drop_first() == es.skip(i + 1));
    assert(es.skip(i)[0] == es[i]);
}

/// The address of the manifest's asset index, the first thing that asset
/// planning needs, or why the manifest has none.
pub fn asset_index_url(manifest: &MinecraftManifest) -> (res: Result<String, LaunchError>)
    ensures
        match manifest@.asset_index {
            Ok(a) => res matches Ok(u) && u@ == a.url,
            Err(e) => res == Err::<String, LaunchError>(LaunchError::Manifest(e)),
        },
{
    match &manifest.asset_index {
        Ok(a) => Ok(to_owned_string(a.url.as_str())),
        Err(e) => Err(LaunchError::Manifest(*e)),
    }
}

/// Can every hash that `asset_tasks` would slice be sliced? Callers test
/// this before `asset_tasks`, where the launcher would otherwise panic.
pub fn assets_sliceable(index: &Json) -> (res: bool)
    ensures
        res == spec_assets_sliceable(jv_entries(jv_index(index@, "objects"@))),
{
    let ghost vs = jv_entries(jv_index(index@, "objects"@));
    let es = match index.field("objects") {
        Some(o) => match o.entries() {
            Some(es) => es,
            None => {
                return true;
            },
        },
        None => {
            return true;
        },
    };
    assert(vs.skip(0) == vs);
    let mut i: usize = 0;
    while i < es.len()
        invariant
            i <= es.len(),
            vs == jv_entries(jv_index(index@, "objects"@)),
            vs.len() == es@.len(),
            forall|k: int| 0 <= k < es@.len() ==> #[trigger] vs[k] == (es@[k].0@, es@[k].1@),
            spec_assets_sliceable(vs) == spec_assets_sliceable(vs.skip(i as int)),
        decreases es.len() - i,
    {
        proof {
            lemma_assets_step(vs, Seq::empty(), arbitrary(), i as int);
            assert(vs[i as int] == (es@[i as int].0@, es@[i as int].1@));
        }
        let obj = &es[i].1;
        let hash = match obj.get_str("hash") {
            Some(h) => h,
            None => {
                return true;
            },
        };
        if obj.get_usize("size").is_none() {
            return true;
        }
        let hv = chars_of(hash.as_str());
        let ok: bool = if hv.len() == 0 {
            false
        } else {
            let c0: char = hv[0];
            let first_ascii: bool = c0 < '\u{80}';
            let first_two_bytes: bool = '\u{80}' <= c0 && c0 < '\u{800}';
            if first_ascii {
                if hv.len() >= 2 {
                    let c1: char = hv[1];
                    let second_ascii: bool = c1 < '\u{80}';
                    second_ascii
                } else {
                    false
                }
            } else {
                first_two_bytes
            }
        };
        assert(hv@ == hash@);
        if !ok {
            return false;
        }
        i = i + 1;
    }
    assert(vs.skip(i as int).len() == 0);
    true
}

/// The download tasks of the asset index's objects, in order, up to the
/// first object without a hash or a size; with the error that object gives,
/// if there is one. The tasks before it are planned all the same.
pub fn asset_tasks(index: &Json, data_dir: &str, p: &Platform) -> (res: (Vec<PlannedTask>, Option<LaunchError>))
    requires
        spec_assets_sliceable(jv_entries(jv_index(index@, "objects"@))),
    ensures
        spec_asset_tasks(jv_entries(jv_index(index@, "objects"@)), data_dir@, *p) == (planned_view(res.0@), res.1),
        forall|i: int| 0 <= i < res.0@.len() ==> spec_fresh_task(#[trigger] res.0@[i]),
{
    let ghost vs = jv_entries(jv_index(index@, "objects"@));
    let mut out: Vec<PlannedTask> = Vec::new();
    let es = match index.field("objects") {
        Some(o) => match o.entries() {
            Some(es) => es,
            None => {
                assert(planned_view(out@) =~= Seq::<PlannedTaskV>::empty());
                return (out, None);
            },
        },
        None => {
            assert(planned_view(out@) =~= Seq::<PlannedTaskV>::empty());
            return (out, None);
        },
    };
    let objects_dir = p.path_join(data_dir, "assets/objects");
    assert(vs.skip(0) == vs);
    assert(planned_view(out@) =~= Seq::<PlannedTaskV>::empty());
    let mut i: usize = 0;
    while i < es.len()
        invariant
            i <= es.len(),
            vs == jv_entries(jv_index(index@, "objects"@)),
            vs.len() == es@.len(),
            forall|k: int| 0 <= k < es@.len() ==> #[trigger] vs[k] == (es@[k].0@, es@[k].1@),
            objects_dir@ == spec_path_join(*p, data_dir@, "assets/objects"@),
            spec_assets_sliceable(vs.skip(i as int)),
            spec_asset_tasks(vs, data_dir@, *p) == (
                planned_view(out@) + spec_asset_tasks(vs.skip(i as int), data_dir@, *p).0,
                spec_asset_tasks(vs.skip(i as int), data_dir@, *p).1,
            ),
            forall|k: int| 0 <= k < out@.len() ==> spec_fresh_task(#[trigger] out@[k]),
        decreases es.len() - i,
    {
        proof {
            lemma_assets_step(vs, data_dir@, *p, i as int);
            assert(vs[i as int] == (es@[i as int].0@, es@[i as int].1@));
        }
        let id = &es[i].0;
        let obj = &es[i].1;
        let hash = match obj.get_str("hash") {
            Some(h) => h,
            None => {
                assert(planned_view(out@) + Seq::<PlannedTaskV>::empty() =~= planned_view(out@));
                return (out, Some(LaunchError::AssetHashMissing));
            },
        };
        let size = match obj.get_usize("size") {
            Some(x) => x,
            None => {
                assert(planned_view(out@) + Seq::<PlannedTaskV>::empty() =~= planned_view(out@));
                return (out, Some(LaunchError::AssetSizeMissing));
            },
        };
        let hv = chars_of(hash.as_str());
        assert(spec_hash_sliceable(hash@));
        assert(hv@ == hash@);
        let ascii_first: bool = hv[0] < '\u{80}';
        let slice = if ascii_first {
            assert(hv@.subrange(0, 2) == hash@.take(2));
            string_of_range(&hv, 0, 2)
        } else {
            assert(hv@.subrange(0, 1) == hash@.take(1));
            string_of_range(&hv, 0, 1)
        };
        assert(slice@ == spec_hash_prefix(hash@));
        let folder = p.path_join(objects_dir.as_str(), slice.as_str());
        let output = p.path_join(folder.as_str(), hash.as_str());
        let mut url = concat2("https://resources.download.minecraft.net/", slice.as_str());
        push_str(&mut url, "/");
        push_str(&mut url, hash.as_str());
        let mut post: Vec<PostScript> = Vec::new();
        post.push(PostScript::VerifySha1 { path: to_owned_string(output.as_str()), sha1: to_owned_string(hash.as_str()) });
        assert(post_scripts_view(post@) =~= seq![PostScriptV::VerifySha1 { path: output@, sha1: hash@ }]);
        let t = planned("Downloads", id.as_str(), url.as_str(), url.as_str(), output, size, post);
        let ghost before = planned_view(out@);
        out.push(t);
        proof {
            assert(t@ == spec_asset_task(vs[i as int].0, hash@, size as int, data_dir@, *p));
            assert(planned_view(out@) =~= before.push(t@));
            assert forall|rest: Seq<PlannedTaskV>| #[trigger] (before + (seq![t@] + rest)) == planned_view(out@) + rest by {
                assert(before + (seq![t@] + rest) =~= planned_view(out@) + rest);
            }
        }
        i = i + 1;
    }
    proof {
        assert(vs.skip(i as int).len() == 0);
        assert(planned_view(out@) + Seq::<PlannedTaskV>::empty() =~= planned_view(out@));
    }
    (out, None)
}


/// The first step after every library download is the SHA-1 check of the
/// downloaded file against the hash that the manifest gives for it.
pub proof fn lemma_library_downloads_verified(l: LibraryV, data_dir: Seq<char>, p: Platform, k: int)
    requires
        0 <= k < spec_library_tasks(l, data_dir, p).len(),
    ensures
        ({
            let t = spec_library_tasks(l, data_dir, p)[k];
            &&& t.post.len() >= 1
            &&& exists|j: int| 0 <= j < l.downloads.len() && l.downloads[j].id == "artifact"@ && t.url == l.downloads[j].url
                && t.post[0] == (PostScriptV::VerifySha1 { path: t.output, sha1: l.downloads[j].sha1 })
        }),
{
    lemma_artifact_tasks_verified(l.downloads, l.name, data_dir, p, k);
}

proof fn lemma_artifact_tasks_verified(ds: Seq<DownloadV>, name: Seq<char>, data_dir: Seq<char>, p: Platform, k: int)
    requires
        0 <= k < spec_artifact_tasks(ds, name, data_dir, p).len(),
    ensures
        ({
            let t = spec_artifact_tasks(ds, name, data_dir, p)[k];
            &&& t.post.len() >= 1
            &&& exists|j: int| 0 <= j < ds.len() && ds[j].id == "artifact"@ && t.url == ds[j].url
                && t.post[0] == (PostScriptV::VerifySha1 { path: t.output, sha1: ds[j].sha1 })
        }),
    decreases ds.len(),
{
    let all = spec_artifact_tasks(ds, name, data_dir, p);
    let rest = spec_artifact_tasks(ds.drop_first(), name, data_dir, p);
    if ds[0].id == "artifact"@ && k == 0 {
        assert(all[0] == spec_library_task(ds[0], name, data_dir, p));
    } else if ds[0].id == "artifact"@ {
        assert(all[k] == rest[k - 1]);
        lemma_artifact_tasks_verified(ds.drop_first(), name, data_dir, p, k - 1);
        let j = choose|j: int| 0 <= j < ds.drop_first().len() && ds.drop_first()[j].id == "artifact"@
            && rest[k - 1].url == ds.drop_first()[j].url
            && rest[k - 1].post[0] == (PostScriptV::VerifySha1 { path: rest[k - 1].output, sha1: ds.drop_first()[j].sha1 });
        assert(ds.drop_first()[j] == ds[j + 1]);
    } else {
        lemma_artifact_tasks_verified(ds.drop_first(), name, data_dir, p, k);
        let j = choose|j: int| 0 <= j < ds.drop_first().len() && ds.drop_first()[j].id == "artifact"@
            && rest[k].url == ds.drop_first()[j].url
            && rest[k].post[0] == (PostScriptV::VerifySha1 { path: rest[k].output, sha1: ds.drop_first()[j].sha1 });
        assert(ds.drop_first()[j] == ds[j + 1]);
    }
}

/// The only step after every asset download is the SHA-1 check of the
/// downloaded file against the object's hash, which also names the file.
pub proof fn lemma_asset_downloads_verified(es: Seq<(Seq<char>, JsonV)>, data_dir: Seq<char>, p: Platform, k: int)
    requires
        0 <= k < spec_asset_tasks(es, data_dir, p).0.len(),
    ensures
        ({
            let t = spec_asset_tasks(es, data_dir, p).0[k];
            exists|h: Seq<char>| t.post == seq![PostScriptV::VerifySha1 { path: t.output, sha1: h }]
                && t.url == "https://resources.download.minecraft.net/"@ + spec_hash_prefix(h) + "/"@ + h
        }),
    decreases es.len(),
{
    let ts = spec_asset_tasks(es, data_dir, p).0;
    let h = jv_as_str(jv_index(es[0].1, "hash"@))->0;
    let size = jv_as_usize(jv_index(es[0].1, "size"@))->0;
    let rest = spec_asset_tasks(es.drop_first(), data_dir, p).0;
    assert(ts == seq![spec_asset_task(es[0].0, h, size, data_dir, p)] + rest);
    if k == 0 {
        assert(ts[0] == spec_asset_task(es[0].0, h, size, data_dir, p));
        assert(ts[k].post == seq![PostScriptV::VerifySha1 { path: ts[k].output, sha1: h }]
            && ts[k].url == "https://resources.download.minecraft.net/"@ + spec_hash_prefix(h) + "/"@ + h);
    } else {
        assert(ts[k] == rest[k - 1]);
        lemma_asset_downloads_verified(es.drop_first(), data_dir, p, k - 1);
    }
}

/// The Java executable of the provisioned runtime, `<jdk_dir>/bin/java`
/// (`java.exe` on Windows), so that no system Java is needed.
pub fn java_executable(jdk_dir: &str, p: &Platform) -> (res: String)
    ensures
        res@ == spec_path_join(*p, spec_path_join(*p, jdk_dir@, "bin"@), if spec_is_windows(*p) {
            "java.exe"@
        } else {
            "java"@
        }),
{
    let bin = p.path_join(jdk_dir, "bin");
    if p.os == TargetOs::Windows {
        p.path_join(bin.as_str(), "java.exe")
    } else {
        p.path_join(bin.as_str(), "java")
    }
}

/// The address of the Discord invitation that the social buttons open.
pub fn discord_url(backend_url: &str) -> (res: String)
    ensures
        res@ == backend_url@ + "/discord"@,
{
    concat2(backend_url, "/discord")
}


/// Does every download of every library that applies have a path (so that
/// neither `library_tasks` nor `get_args` is asked to join a missing one)?
pub fn library_paths_present(libs: &Vec<Library>, p: &Platform) -> (res: bool)
    ensures
        res == spec_paths_present(libs_view(libs@), *p),
{
    let ghost lv = libs_view(libs@);
    let mut i: usize = 0;
    while i < libs.len()
        invariant
            i <= libs.len(),
            lv == libs_view(libs@),
            forall|a: int, j: int|
                0 <= a < i && spec_library_applies(lv[a], *p) && 0 <= j < lv[a].downloads.len()
                    ==> (#[trigger] lv[a].downloads[j]).path is Some,
        decreases libs.len() - i,
    {
        assert(lv[i as int] == libs@[i as int]@);
        if library_applies(&libs[i], p) {
            let mut j: usize = 0;
            while j < libs[i].downloads.len()
                invariant
                    i < libs.len(),
                    j <= libs@[i as int].downloads.len(),
                    lv == libs_view(libs@),
                    lv[i as int] == libs@[i as int]@,
                    spec_library_applies(lv[i as int], *p),
                    forall|k: int| 0 <= k < j ==> (#[trigger] lv[i as int].downloads[k]).path is Some,
                decreases libs@[i as int].downloads.len() - j,
            {
                assert(lv[i as int].downloads[j as int] == libs@[i as int].downloads@[j as int]@);
                if libs[i].downloads[j].path.is_none() {
                    assert(lv[i as int].downloads[j as int].path is None);
                    return false;
                }
                j = j + 1;
            }
        }
        i = i + 1;
    }
    true
}


// ---------------------------------------------------------------------------
// Laws of the launch plan
// ---------------------------------------------------------------------------

proof fn lemma_find_version_first(ms: Seq<JsonV>, version: Seq<char>)
    ensures
        spec_find_version(ms, version) is None <==> forall|k: int|
            0 <= k < ms.len() ==> jv_as_str(jv_index(#[trigger] ms[k], "id"@)) != Some(version),
        forall|k: int|
            0 <= k < ms.len() && jv_as_str(jv_index(#[trigger] ms[k], "id"@)) == Some(version) && (forall|j: int|
                0 <= j < k ==> jv_as_str(jv_index(#[trigger] ms[j], "id"@)) != Some(version))
                ==> spec_find_version(ms, version) == Some(ms[k]),
    decreases ms.len(),
{
    if ms.len() > 0 {
        lemma_find_version_first(ms.drop_first(), version);
        assert forall|k: int| 0 < k < ms.len() implies #[trigger] ms[k] == ms.drop_first()[k - 1] by {}
        if jv_as_str(jv_index(ms[0], "id"@)) != Some(version) {
            assert forall|k: int|
                0 <= k < ms.len() && jv_as_str(jv_index(#[trigger] ms[k], "id"@)) == Some(version) && (forall|j: int|
                    0 <= j < k ==> jv_as_str(jv_index(#[trigger] ms[j], "id"@)) != Some(version))
                implies spec_find_version(ms, version) == Some(ms[k]) by {
                assert(k > 0);
                assert forall|j: int| 0 <= j < k - 1 implies jv_as_str(jv_index(#[trigger] ms.drop_first()[j], "id"@)) != Some(version) by {
                    assert(ms.drop_first()[j] == ms[j + 1]);
                }
                assert(ms.drop_first()[k - 1] == ms[k]);
            }
            if spec_find_version(ms, version) is None {
                assert forall|k: int| 0 <= k < ms.len() implies jv_as_str(jv_index(#[trigger] ms[k], "id"@)) != Some(version) by {
                    if k > 0 {
                        assert(ms.drop_first()[k - 1] == ms[k]);
                    }
                }
            } else {
                let q = choose|q: int| 0 <= q < ms.drop_first().len() && jv_as_str(jv_index(#[trigger] ms.drop_first()[q], "id"@)) == Some(version);
                assert(ms.drop_first()[q] == ms[q + 1]);
            }
        }
    }
}

/// The version's manifest URL is that of the first member of the list
/// whose `id` is exactly the version (not one that merely contains it); a
/// version that no member names is not found.
pub proof fn lemma_version_url_matches_exactly(list: JsonV, version: Seq<char>)
    ensures
        ({
            let ms = jv_members(jv_index(list, "versions"@));
            &&& (spec_version_url(list, version) == Err::<Seq<char>, LaunchError>(LaunchError::VersionNotFound)
                <==> forall|k: int| 0 <= k < ms.len() ==> jv_as_str(jv_index(#[trigger] ms[k], "id"@)) != Some(version))
            &&& forall|k: int|
                0 <= k < ms.len() && jv_as_str(jv_index(#[trigger] ms[k], "id"@)) == Some(version) && (forall|j: int|
                    0 <= j < k ==> jv_as_str(jv_index(#[trigger] ms[j], "id"@)) != Some(version))
                    ==> spec_version_url(list, version) == match jv_as_str(jv_index(ms[k], "url"@)) {
                        Some(u) => Ok::<Seq<char>, LaunchError>(u),
                        None => Err(LaunchError::UrlNotFound),
                    }
        }),
{
    lemma_find_version_first(jv_members(jv_index(list, "versions"@)), version);
}

/// A library applies exactly when its rules name no system, or name this
/// one as Mojang's manifests do: `linux`, `windows` or `osx`.
pub proof fn lemma_library_rules_use_mojang_names(l: LibraryV, p: Platform)
    ensures
        spec_library_applies(l, p) <==> (l.os.len() == 0 || exists|k: int|
            0 <= k < l.os.len() && ({
                ||| (p.os == TargetOs::LinuxGnu || p.os == TargetOs::LinuxMusl) && #[trigger] l.os[k] == "linux"@
                ||| p.os == TargetOs::Windows && l.os[k] == "windows"@
                ||| p.os == TargetOs::MacOs && l.os[k] == "osx"@
            })),
{
}

/// The runtime query asks for a `zip` package exactly on Windows and for a
/// `tar.gz` package on every other system.
pub proof fn lemma_jre_query_archive_type(java_version: int, p: Platform)
    ensures
        p.os == TargetOs::Windows ==> exists|a: Seq<char>, b: Seq<char>|
            spec_jre_manifest_url(java_version, p) == #[trigger] a.add("&archive_type=zip&java_package_type=jre"@ + b),
        p.os != TargetOs::Windows ==> exists|a: Seq<char>, b: Seq<char>|
            spec_jre_manifest_url(java_version, p) == #[trigger] a.add("&archive_type=tar.gz&java_package_type=jre"@ + b),
{
    let a = "https://api.azul.com/metadata/v1/zulu/packages/?java_version="@ + int_decimal(java_version)
        + "&os="@ + (match p.os {
        TargetOs::LinuxGnu => "linux-glibc"@,
        TargetOs::LinuxMusl => "linux-musl"@,
        TargetOs::MacOs => "macos"@,
        TargetOs::Windows => "windows"@,
    }) + "&arch="@ + (match p.arch {
        crate::platform::TargetArch::X86_64 => "amd64"@,
        crate::platform::TargetArch::Aarch64 => "aarch64"@,
    });
    let rest = "&java_package_type=jre&javafx_bundled=false&crac_supported=false&support_term=lts&latest=true&java_package_features=headfull&availability_types=CA&certifications=tck"@;
    let b = "&javafx_bundled=false&crac_supported=false&support_term=lts&latest=true&java_package_features=headfull&availability_types=CA&certifications=tck"@;
    reveal_strlit("&java_package_type=jre&javafx_bundled=false&crac_supported=false&support_term=lts&latest=true&java_package_features=headfull&availability_types=CA&certifications=tck");
    reveal_strlit("&javafx_bundled=false&crac_supported=false&support_term=lts&latest=true&java_package_features=headfull&availability_types=CA&certifications=tck");
    reveal_strlit("&archive_type=");
    reveal_strlit("zip");
    reveal_strlit("tar.gz");
    reveal_strlit("&archive_type=zip&java_package_type=jre");
    reveal_strlit("&archive_type=tar.gz&java_package_type=jre");
    if p.os == TargetOs::Windows {
        assert("&archive_type="@ + "zip"@ + rest =~= "&archive_type=zip&java_package_type=jre"@ + b);
        assert(spec_jre_manifest_url(java_version, p) =~= a.add("&archive_type=zip&java_package_type=jre"@ + b));
    } else {
        assert("&archive_type="@ + "tar.gz"@ + rest =~= "&archive_type=tar.gz&java_package_type=jre"@ + b);
        assert(spec_jre_manifest_url(java_version, p) =~= a.add("&archive_type=tar.gz&java_package_type=jre"@ + b));
    }
}

proof fn lemma_find_client_first(ds: Seq<DownloadV>)
    ensures
        spec_find_client(ds) is None <==> forall|k: int| 0 <= k < ds.len() ==> (#[trigger] ds[k]).id != "client"@,
        forall|k: int|
            0 <= k < ds.len() && (#[trigger] ds[k]).id == "client"@ && (forall|j: int| 0 <= j < k ==> (#[trigger] ds[j]).id != "client"@)
                ==> spec_find_client(ds) == Some(ds[k]),
    decreases ds.len(),
{
    if ds.len() > 0 {
        lemma_find_client_first(ds.drop_first());
        if ds[0].id != "client"@ {
            assert forall|k: int|
                0 <= k < ds.len() && (#[trigger] ds[k]).id == "client"@ && (forall|j: int| 0 <= j < k ==> (#[trigger] ds[j]).id != "client"@)
                implies spec_find_client(ds) == Some(ds[k]) by {
                assert(k > 0);
                assert forall|j: int| 0 <= j < k - 1 implies (#[trigger] ds.drop_first()[j]).id != "client"@ by {
                    assert(ds.drop_first()[j] == ds[j + 1]);
                }
                assert(ds.drop_first()[k - 1] == ds[k]);
            }
            if spec_find_client(ds) is None {
                assert forall|k: int| 0 <= k < ds.len() implies (#[trigger] ds[k]).id != "client"@ by {
                    if k > 0 {
                        assert(ds.drop_first()[k - 1] == ds[k]);
                    }
                }
            } else {
                let q = choose|q: int| 0 <= q < ds.drop_first().len() && (#[trigger] ds.drop_first()[q]).id == "client"@;
                assert(ds.drop_first()[q] == ds[q + 1]);
            }
        }
    }
}

/// The client is downloaded from the first download named `client` into
/// `client.jar` of the data folder, and its first step afterwards is the
/// SHA-1 check of that file against the download's hash. Without such a
/// download there is no client task.
pub proof fn lemma_client_download_verified(m: MinecraftManifestV, data_dir: Seq<char>, p: Platform)
    ensures
        spec_client_task(m, data_dir, p) is Err <==> forall|k: int|
            0 <= k < m.downloads.len() ==> (#[trigger] m.downloads[k]).id != "client"@,
        forall|k: int|
            0 <= k < m.downloads.len() && (#[trigger] m.downloads[k]).id == "client"@ && (forall|j: int|
                0 <= j < k ==> (#[trigger] m.downloads[j]).id != "client"@)
                ==> (spec_client_task(m, data_dir, p) matches Ok(t) && {
                    &&& t.url == m.downloads[k].url
                    &&& t.output == spec_path_join(p, data_dir, "client.jar"@)
                    &&& t.post.len() >= 1
                    &&& t.post[0] == (PostScriptV::VerifySha1 { path: t.output, sha1: m.downloads[k].sha1 })
                }),
{
    lemma_find_client_first(m.downloads);
}

/// `s` holds no `c`.
pub open spec fn spec_lacks(s: Seq<char>, c: char) -> bool {
    forall|i: int| 0 <= i < s.len() ==> s[i] != c
}

proof fn lemma_path_join_lacks(p: Platform, base: Seq<char>, part: Seq<char>, c: char)
    requires
        spec_lacks(base, c),
        spec_lacks(part, c),
        c != '/' && c != '\\',
    ensures
        spec_lacks(spec_path_join(p, base, part), c),
{
    let r = spec_path_join(p, base, part);
    if !(part.len() > 0 && part[0] == '/') && base.len() > 0 && !(base.last() == '/' || base.last() == crate::platform::spec_path_sep(p)) {
        assert forall|i: int| 0 <= i < r.len() implies r[i] != c by {
            if i < base.len() {
                assert(r[i] == base[i]);
            } else if i > base.len() {
                assert(r[i] == part[i - base.len() - 1]);
            }
        }
    } else if !(part.len() > 0 && part[0] == '/') && base.len() > 0 {
        assert forall|i: int| 0 <= i < r.len() implies r[i] != c by {
            if i < base.len() {
                assert(r[i] == base[i]);
            } else {
                assert(r[i] == part[i - base.len()]);
            }
        }
    }
}

proof fn lemma_join_lacks(parts: Seq<Seq<char>>, sep: Seq<char>, c: char)
    requires
        forall|k: int| 0 <= k < parts.len() ==> spec_lacks(#[trigger] parts[k], c),
        spec_lacks(sep, c),
    ensures
        spec_lacks(spec_join(parts, sep), c),
    decreases parts.len(),
{
    if parts.len() > 1 {
        assert forall|k: int| 0 <= k < parts.drop_last().len() implies spec_lacks(#[trigger] parts.drop_last()[k], c) by {
            assert(parts.drop_last()[k] == parts[k]);
        }
        lemma_join_lacks(parts.drop_last(), sep, c);
        let a = spec_join(parts.drop_last(), sep);
        let r = a + sep + parts.last();
        assert(spec_lacks(parts.last(), c));
        assert forall|i: int| 0 <= i < r.len() implies r[i] != c by {
            if i < a.len() {
                assert(r[i] == a[i]);
            } else if i < a.len() + sep.len() {
                assert(r[i] == sep[i - a.len()]);
            } else {
                assert(r[i] == parts.last()[i - a.len() - sep.len()]);
            }
        }
    } else if parts.len() == 1 {
        assert(spec_lacks(parts[0], c));
    }
}

proof fn lemma_entries_lack(libs: Seq<LibraryV>, libs_dir: Seq<char>, p: Platform, c: char)
    requires
        spec_lacks(libs_dir, c),
        spec_lacks(spec_classpath_sep(p), c),
        c != '/' && c != '\\',
        spec_paths_present(libs, p),
        forall|i: int, j: int| 0 <= i < libs.len() && 0 <= j < libs[i].downloads.len()
            ==> ((#[trigger] libs[i].downloads[j]).path is Some ==> spec_lacks(libs[i].downloads[j].path->0, c)),
    ensures
        forall|k: int| 0 <= k < spec_classpath_entries(libs, libs_dir, p).len()
            ==> spec_lacks(#[trigger] spec_classpath_entries(libs, libs_dir, p)[k], c),
    decreases libs.len(),
{
    if libs.len() > 0 {
        let rest = libs.drop_first();
        assert forall|i: int, j: int| 0 <= i < rest.len() && 0 <= j < rest[i].downloads.len()
            && (#[trigger] rest[i].downloads[j]).path is Some implies spec_lacks(rest[i].downloads[j].path->0, c) by {
            assert(rest[i] == libs[i + 1]);
            assert(libs[i + 1].downloads[j] == rest[i].downloads[j]);
        }
        assert forall|i: int, j: int|
            0 <= i < rest.len() && spec_library_applies(rest[i], p) && 0 <= j < rest[i].downloads.len()
            implies (#[trigger] rest[i].downloads[j]).path is Some by {
            assert(rest[i] == libs[i + 1]);
            assert(libs[i + 1].downloads[j] == rest[i].downloads[j]);
        }
        lemma_entries_lack(rest, libs_dir, p, c);
        let tail = spec_classpath_entries(rest, libs_dir, p);
        if spec_library_applies(libs[0], p) {
            let ps = spec_download_paths(libs[0].downloads, libs_dir, p);
            assert forall|k: int| 0 <= k < ps.len() implies spec_lacks(#[trigger] ps[k], c) by {
                assert(libs[0].downloads[k].path is Some);
                assert(spec_lacks(libs[0].downloads[k].path->0, c));
                lemma_path_join_lacks(p, libs_dir, libs[0].downloads[k].path->0, c);
            }
            lemma_join_lacks(ps, spec_classpath_sep(p), c);
            let all = spec_classpath_entries(libs, libs_dir, p);
            assert(all == seq![spec_join(ps, spec_classpath_sep(p))] + tail);
            assert forall|k: int| 0 <= k < all.len() implies spec_lacks(#[trigger] all[k], c) by {
                if k > 0 {
                    assert(all[k] == tail[k - 1]);
                }
            }
        }
    }
}

/// Class path entries are separated by `:` on every system but Windows and
/// by `;` on Windows, and the client comes last. So the other character
/// appears in the class path only where the data folder or a library's path
/// holds it.
pub proof fn lemma_classpath_separator(libs: Seq<LibraryV>, data_dir: Seq<char>, p: Platform)
    requires
        spec_paths_present(libs, p),
    ensures
        p.os == TargetOs::Windows ==> exists|pre: Seq<char>|
            spec_classpath(libs, data_dir, p) == #[trigger] pre.add(";"@) + spec_path_join(p, data_dir, "client.jar"@),
        p.os != TargetOs::Windows ==> exists|pre: Seq<char>|
            spec_classpath(libs, data_dir, p) == #[trigger] pre.add(":"@) + spec_path_join(p, data_dir, "client.jar"@),
        ({
            let other: char = if p.os == TargetOs::Windows { ':' } else { ';' };
            spec_lacks(data_dir, other) && (forall|i: int, j: int| 0 <= i < libs.len() && 0 <= j < libs[i].downloads.len()
                ==> ((#[trigger] libs[i].downloads[j]).path is Some ==> spec_lacks(libs[i].downloads[j].path->0, other)))
                ==> spec_lacks(spec_classpath(libs, data_dir, p), other)
        }),
{
    reveal_strlit(";");
    reveal_strlit(":");
    reveal_strlit("libs");
    reveal_strlit("client.jar");
    let sep: Seq<char> = if p.os == TargetOs::Windows { ";"@ } else { ":"@ };
    let libs_dir = spec_path_join(p, data_dir, "libs"@);
    let pre = spec_join(spec_classpath_entries(libs, libs_dir, p), spec_classpath_sep(p));
    if p.os == TargetOs::Windows {
        assert(spec_classpath(libs, data_dir, p) == pre.add(";"@) + spec_path_join(p, data_dir, "client.jar"@));
    } else {
        assert(spec_classpath(libs, data_dir, p) == pre.add(":"@) + spec_path_join(p, data_dir, "client.jar"@));
    }
    let other: char = if p.os == TargetOs::Windows { ':' } else { ';' };
    if spec_lacks(data_dir, other) && (forall|i: int, j: int| 0 <= i < libs.len() && 0 <= j < libs[i].downloads.len()
        ==> ((#[trigger] libs[i].downloads[j]).path is Some ==> spec_lacks(libs[i].downloads[j].path->0, other))) {
        assert(spec_lacks("libs"@, other));
        assert(spec_lacks("client.jar"@, other));
        assert(spec_lacks(sep, other));
        lemma_path_join_lacks(p, data_dir, "libs"@, other);
        lemma_path_join_lacks(p, data_dir, "client.jar"@, other);
        lemma_entries_lack(libs, libs_dir, p, other);
        lemma_join_lacks(spec_classpath_entries(libs, libs_dir, p), spec_classpath_sep(p), other);
        let c = spec_path_join(p, data_dir, "client.jar"@);
        let r = pre.add(sep) + c;
        assert forall|i: int| 0 <= i < r.len() implies r[i] != other by {
            if i < pre.len() {
                assert(r[i] == pre[i]);
            } else if i < pre.len() + sep.len() {
                assert(r[i] == sep[i - pre.len()]);
            } else {
                assert(r[i] == c[i - pre.len() - sep.len()]);
            }
        }
    }
}

} // verus!
