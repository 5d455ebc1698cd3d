//! The Minecraft version manifest and the Java runtime package list, read
//! from their JSON documents.
use vstd::prelude::*;
use crate::text::{seq_lt, str_lt, to_owned_string};
use crate::json::{
    Json, JsonV, jv_index, jv_field, jv_as_str, jv_as_isize, jv_as_i32, jv_members, jv_entries,
};

verus! {

/// Why a manifest could not be read: the member that is missing or of the
/// wrong type.
#[derive(Clone, Copy, Debug, PartialEq, Eq, Structural)]
pub enum ManifestError {
    AssetIndexId,
    AssetIndexSha1,
    AssetIndexSize,
    AssetIndexTotalSize,
    AssetIndexUrl,
    DownloadSha1,
    DownloadSize,
    DownloadUrl,
    LibraryName,
    ComplianceLevel,
    JavaVersion,
    MainClass,
    /// No package of the runtime list has a name and a download URL.
    NoSuitableJre,
}

/// The message of a manifest error.
pub open spec fn spec_manifest_error_message(e: ManifestError) -> Seq<char> {
    match e {
        ManifestError::AssetIndexId => "assetIndex.id missing"@,
        ManifestError::AssetIndexSha1 => "assetIndex.sha1 missing"@,
        ManifestError::AssetIndexSize => "assetIndex.size missing"@,
        ManifestError::AssetIndexTotalSize => "assetIndex.totalSize missing"@,
        ManifestError::AssetIndexUrl => "assetIndex.url missing"@,
        ManifestError::DownloadSha1 => "download.sha1 missing"@,
        ManifestError::DownloadSize => "download.size missing"@,
        ManifestError::DownloadUrl => "download.url missing"@,
        ManifestError::LibraryName => "library.name missing"@,
        ManifestError::ComplianceLevel => "complianceLevel missing"@,
        ManifestError::JavaVersion => "javaVersion.majorVersion missing"@,
        ManifestError::MainClass => "mainClass missing"@,
        ManifestError::NoSuitableJre => "Failed to find a suitable jre"@,
    }
}

impl ManifestError {
    /// The message that the launcher shows for the error.
    pub fn message(&self) -> (res: &'static str)
        ensures
            res@ == spec_manifest_error_message(*self),
    {
        match self {
            ManifestError::AssetIndexId => "assetIndex.id missing",
            ManifestError::AssetIndexSha1 => "assetIndex.sha1 missing",
            ManifestError::AssetIndexSize => "assetIndex.size missing",
            ManifestError::AssetIndexTotalSize => "assetIndex.totalSize missing",
            ManifestError::AssetIndexUrl => "assetIndex.url missing",
            ManifestError::DownloadSha1 => "download.sha1 missing",
            ManifestError::DownloadSize => "download.size missing",
            ManifestError::DownloadUrl => "download.url missing",
            ManifestError::LibraryName => "library.name missing",
            ManifestError::ComplianceLevel => "complianceLevel missing",
            ManifestError::JavaVersion => "javaVersion.majorVersion missing",
            ManifestError::MainClass => "mainClass missing",
            ManifestError::NoSuitableJre => "Failed to find a suitable jre",
        }
    }
}

// ---------------------------------------------------------------------------
// Types and their values
// ---------------------------------------------------------------------------

/// The asset index of a version: where its list of asset objects lives.
#[derive(Debug)]
pub struct AssetIndex {
    pub id: String,
    pub sha1: String,
    pub size: isize,
    pub total_size: isize,
    pub url: String,
}

pub ghost struct AssetIndexV {
    pub id: Seq<char>,
    pub sha1: Seq<char>,
    pub size: int,
    pub total_size: int,
    pub url: Seq<char>,
}

impl View for AssetIndex {
    type V = AssetIndexV;

    open spec fn view(&self) -> AssetIndexV {
        AssetIndexV {
            id: self.id@,
            sha1: self.sha1@,
            size: self.size as int,
            total_size: self.total_size as int,
            url: self.url@,
        }
    }
}

/// One downloadable file, named by its key in the `downloads` object.
#[derive(Debug)]
pub struct Download {
    pub id: String,
    pub path: Option<String>,
    pub sha1: String,
    pub size: isize,
    pub url: String,
}

pub ghost struct DownloadV {
    pub id: Seq<char>,
    pub path: Option<Seq<char>>,
    pub sha1: Seq<char>,
    pub size: int,
    pub url: Seq<char>,
}

pub open spec fn opt_view(o: Option<String>) -> Option<Seq<char>> {
    match o {
        Some(s) => Some(s@),
        None => None,
    }
}

impl View for Download {
    type V = DownloadV;

    open spec fn view(&self) -> DownloadV {
        DownloadV {
            id: self.id@,
            path: opt_view(self.path),
            sha1: self.sha1@,
            size: self.size as int,
            url: self.url@,
        }
    }
}

/// A library of the game: its files and the operating systems that its
/// `allow` rules name (none: every system).
#[derive(Debug)]
pub struct Library {
    pub downloads: Vec<Download>,
    pub name: String,
    pub os: Vec<String>,
}

pub ghost struct LibraryV {
    pub downloads: Seq<DownloadV>,
    pub name: Seq<char>,
    pub os: Seq<Seq<char>>,
}

pub open spec fn downloads_view(v: Seq<Download>) -> Seq<DownloadV> {
    v.map_values(|d: Download| d@)
}

pub open spec fn strings_view(v: Seq<String>) -> Seq<Seq<char>> {
    v.map_values(|s: String| s@)
}

impl View for Library {
    type V = LibraryV;

    open spec fn view(&self) -> LibraryV {
        LibraryV {
            downloads: downloads_view(self.downloads@),
            name: self.name@,
            os: strings_view(self.os@),
        }
    }
}

/// What the launcher reads of a version manifest.
#[derive(Debug)]
pub struct MinecraftManifest {
    pub args: Vec<String>,
    pub compliance_level: i32,
    pub downloads: Vec<Download>,
    pub java_version: i32,
    pub libs: Vec<Library>,
    pub main_class: String,
    /// The asset index, or why the `assetIndex` member could not be read; the
    /// rest of the manifest does not depend on it.
    pub asset_index: Result<AssetIndex, ManifestError>,
}

pub ghost struct MinecraftManifestV {
    pub args: Seq<Seq<char>>,
    pub compliance_level: int,
    pub downloads: Seq<DownloadV>,
    pub java_version: int,
    pub libs: Seq<LibraryV>,
    pub main_class: Seq<char>,
    pub asset_index: Result<AssetIndexV, ManifestError>,
}

pub open spec fn libs_view(v: Seq<Library>) -> Seq<LibraryV> {
    v.map_values(|l: Library| l@)
}

impl View for MinecraftManifest {
    type V = MinecraftManifestV;

    open spec fn view(&self) -> MinecraftManifestV {
        MinecraftManifestV {
            args: strings_view(self.args@),
            compliance_level: self.compliance_level as int,
            downloads: downloads_view(self.downloads@),
            java_version: self.java_version as int,
            libs: libs_view(self.libs@),
            main_class: self.main_class@,
            asset_index: match self.asset_index {
                Ok(a) => Ok(a@),
                Err(e) => Err(e),
            },
        }
    }
}

/// The Java runtime package chosen for download.
#[derive(Debug)]
pub struct JavaManifest {
    pub download_url: String,
    pub name: String,
}

// ---------------------------------------------------------------------------
// Reading, as spec functions
// ---------------------------------------------------------------------------

pub open spec fn spec_asset_index_from(v: JsonV) -> Result<AssetIndexV, ManifestError> {
    match jv_as_str(jv_index(v, "id"@)) {
        None => Err(ManifestError::AssetIndexId),
        Some(id) => match jv_as_str(jv_index(v, "sha1"@)) {
            None => Err(ManifestError::AssetIndexSha1),
            Some(sha1) => match jv_as_isize(jv_index(v, "size"@)) {
                None => Err(ManifestError::AssetIndexSize),
                Some(size) => match jv_as_isize(jv_index(v, "totalSize"@)) {
                    None => Err(ManifestError::AssetIndexTotalSize),
                    Some(total_size) => match jv_as_str(jv_index(v, "url"@)) {
                        None => Err(ManifestError::AssetIndexUrl),
                        Some(url) => Ok(AssetIndexV { id, sha1, size, total_size, url }),
                    },
                },
            },
        },
    }
}

pub open spec fn spec_download_from(id: Seq<char>, v: JsonV) -> Result<DownloadV, ManifestError> {
    let path = jv_as_str(jv_index(v, "path"@));
    match jv_as_str(jv_index(v, "sha1"@)) {
        None => Err(ManifestError::DownloadSha1),
        Some(sha1) => match jv_as_isize(jv_index(v, "size"@)) {
            None => Err(ManifestError::DownloadSize),
            Some(size) => match jv_as_str(jv_index(v, "url"@)) {
                None => Err(ManifestError::DownloadUrl),
                Some(url) => Ok(DownloadV { id, path, sha1, size, url }),
            },
        },
    }
}

/// The downloads of the entries, in order; the first entry refused gives the error.
pub open spec fn spec_downloads_from(es: Seq<(Seq<char>, JsonV)>) -> Result<Seq<DownloadV>, ManifestError>
    decreases es.len(),
{
    if es.len() == 0 {
        Ok(Seq::empty())
    } else {
        match spec_download_from(es[0].0, es[0].1) {
            Err(e) => Err(e),
            Ok(d) => match spec_downloads_from(es.drop_first()) {
                Err(e) => Err(e),
                Ok(rest) => Ok(seq![d] + rest),
            },
        }
    }
}

/// Does a rule allow, and name an operating system? Its name then.
pub open spec fn spec_rule_os(rule: JsonV) -> Option<Seq<char>> {
    if jv_as_str(jv_index(rule, "action"@)) == Some("allow"@) {
        jv_as_str(jv_index(jv_index(rule, "os"@), "name"@))
    } else {
        None
    }
}

/// The systems named by the `allow` rules, in order.
pub open spec fn spec_allowed_os(rules: Seq<JsonV>) -> Seq<Seq<char>>
    decreases rules.len(),
{
    if rules.len() == 0 {
        Seq::empty()
    } else {
        match spec_rule_os(rules[0]) {
            Some(n) => seq![n] + spec_allowed_os(rules.drop_first()),
            None => spec_allowed_os(rules.drop_first()),
        }
    }
}

pub open spec fn spec_library_from(v: JsonV) -> Result<LibraryV, ManifestError> {
    match spec_downloads_from(jv_entries(jv_index(v, "downloads"@))) {
        Err(e) => Err(e),
        Ok(downloads) => match jv_as_str(jv_index(v, "name"@)) {
            None => Err(ManifestError::LibraryName),
            Some(name) => Ok(
                LibraryV { downloads, name, os: spec_allowed_os(jv_members(jv_index(v, "rules"@))) },
            ),
        },
    }
}

/// The libraries of the members, in order; the first one refused gives the error.
pub open spec fn spec_libraries_from(ms: Seq<JsonV>) -> Result<Seq<LibraryV>, ManifestError>
    decreases ms.len(),
{
    if ms.len() == 0 {
        Ok(Seq::empty())
    } else {
        match spec_library_from(ms[0]) {
            Err(e) => Err(e),
            Ok(l) => match spec_libraries_from(ms.drop_first()) {
                Err(e) => Err(e),
                Ok(rest) => Ok(seq![l] + rest),
            },
        }
    }
}

/// The manifest that a version document holds. The asset index is kept with
/// its own result: a document without a readable `assetIndex` still converts.
pub open spec fn spec_minecraft_manifest_from(v: JsonV) -> Result<MinecraftManifestV, ManifestError> {
    match spec_downloads_from(jv_entries(jv_index(v, "downloads"@))) {
        Err(e) => Err(e),
        Ok(downloads) => match spec_libraries_from(jv_members(jv_index(v, "libraries"@))) {
            Err(e) => Err(e),
            Ok(libs) => match jv_as_i32(jv_index(v, "complianceLevel"@)) {
                None => Err(ManifestError::ComplianceLevel),
                Some(compliance_level) => match jv_as_i32(
                    jv_index(jv_index(v, "javaVersion"@), "majorVersion"@),
                ) {
                    None => Err(ManifestError::JavaVersion),
                    Some(java_version) => match jv_as_str(jv_index(v, "mainClass"@)) {
                        None => Err(ManifestError::MainClass),
                        Some(main_class) => Ok(
                            MinecraftManifestV {
                                args: Seq::empty(),
                                compliance_level,
                                downloads,
                                java_version,
                                libs,
                                main_class,
                                asset_index: spec_asset_index_from(jv_index(v, "assetIndex"@)),
                            },
                        ),
                    },
                },
            },
        },
    }
}

/// Does the package chosen so far stay chosen against `next`? The order is
/// that of the package names; a package without a name ranks below any.
pub open spec fn spec_jre_keeps(best: JsonV, next: JsonV) -> bool {
    match jv_as_str(jv_index(best, "name"@)) {
        None => false,
        Some(a) => match jv_as_str(jv_index(next, "name"@)) {
            None => true,
            Some(b) => seq_lt(b, a),
        },
    }
}

/// The package that `max_by` picks: the greatest name, the last of equals.
pub open spec fn spec_jre_pick(ms: Seq<JsonV>) -> Option<JsonV>
    decreases ms.len(),
{
    if ms.len() == 0 {
        None
    } else {
        match spec_jre_pick(ms.drop_last()) {
            None => Some(ms.last()),
            Some(b) => Some(if spec_jre_keeps(b, ms.last()) { b } else { ms.last() }),
        }
    }
}

/// The runtime package of the list, with its download URL and name.
pub open spec fn spec_java_manifest_from(v: JsonV) -> Option<(Seq<char>, Seq<char>)> {
    match spec_jre_pick(jv_members(v)) {
        None => None,
        Some(p) => match jv_as_str(jv_index(p, "download_url"@)) {
            None => None,
            Some(url) => match jv_as_str(jv_index(p, "name"@)) {
                None => None,
                Some(name) => Some((url, name)),
            },
        },
    }
}


// ---------------------------------------------------------------------------
// Reading
// ---------------------------------------------------------------------------

proof fn lemma_downloads_step(vs: Seq<(Seq<char>, JsonV)>, i: int)
    requires
        0 <= i < vs.len(),
    ensures
        spec_downloads_from(vs.skip(i)) == match spec_download_from(vs[i].0, vs[i].1) {
            Err(e) => Err(e),
            Ok(d) => match spec_downloads_from(vs.skip(i + 1)) {
                Err(e) => Err(e),
                Ok(rest) => Ok(seq![d] + rest),
            },
        },
{
    assert(vs.skip(i).drop_first() == vs.skip(i + 1));
    assert(vs.skip(i)[0] == vs[i]);
}

proof fn lemma_libraries_step(ms: Seq<JsonV>, i: int)
    requires
        0 <= i < ms.len(),
    ensures
        spec_libraries_from(ms.skip(i)) == match spec_library_from(ms[i]) {
            Err(e) => Err(e),
            Ok(l) => match spec_libraries_from(ms.skip(i + 1)) {
                Err(e) => Err(e),
                Ok(rest) => Ok(seq![l] + rest),
            },
        },
{
    assert(ms.skip(i).drop_first() == ms.skip(i + 1));
    assert(ms.skip(i)[0] == ms[i]);
}

proof fn lemma_allowed_os_step(ms: Seq<JsonV>, i: int)
    requires
        0 <= i < ms.len(),
    ensures
        spec_allowed_os(ms.skip(i)) == match spec_rule_os(ms[i]) {
            Some(n) => seq![n] + spec_allowed_os(ms.skip(i + 1)),
            None => spec_allowed_os(ms.skip(i + 1)),
        },
{
    assert(ms.skip(i).drop_first() == ms.skip(i + 1));
    assert(ms.skip(i)[0] == ms[i]);
}

impl AssetIndex {
    /// Reads the `assetIndex` member of a version manifest.
    pub fn from_json(v: &Json) -> (res: Result<AssetIndex, ManifestError>)
        ensures
            match res {
                Ok(a) => spec_asset_index_from(v@) == Ok::<AssetIndexV, ManifestError>(a@),
                Err(e) => spec_asset_index_from(v@) == Err::<AssetIndexV, ManifestError>(e),
            },
    {
        let id = match v.get_str("id") {
            Some(x) => x,
            None => {
                return Err(ManifestError::AssetIndexId);
            },
        };
        let sha1 = match v.get_str("sha1") {
            Some(x) => x,
            None => {
                return Err(ManifestError::AssetIndexSha1);
            },
        };
        let size = match v.get_isize("size") {
            Some(x) => x,
            None => {
                return Err(ManifestError::AssetIndexSize);
            },
        };
        let total_size = match v.get_isize("totalSize") {
            Some(x) => x,
            None => {
                return Err(ManifestError::AssetIndexTotalSize);
            },
        };
        let url = match v.get_str("url") {
            Some(x) => x,
            None => {
                return Err(ManifestError::AssetIndexUrl);
            },
        };
        Ok(AssetIndex { id, sha1, size, total_size, url })
    }
}

impl Download {
    /// Reads one entry `(id, v)` of a `downloads` object.
    pub fn from_entry(id: &String, v: &Json) -> (res: Result<Download, ManifestError>)
        ensures
            match res {
                Ok(d) => spec_download_from(id@, v@) == Ok::<DownloadV, ManifestError>(d@),
                Err(e) => spec_download_from(id@, v@) == Err::<DownloadV, ManifestError>(e),
            },
    {
        let path = v.get_str("path");
        let sha1 = match v.get_str("sha1") {
            Some(x) => x,
            None => {
                return Err(ManifestError::DownloadSha1);
            },
        };
        let size = match v.get_isize("size") {
            Some(x) => x,
            None => {
                return Err(ManifestError::DownloadSize);
            },
        };
        let url = match v.get_str("url") {
            Some(x) => x,
            None => {
                return Err(ManifestError::DownloadUrl);
            },
        };
        Ok(Download { id: id.clone(), path, sha1, size, url })
    }

    /// Reads every entry of a `downloads` object, in order.
    pub fn all_from(v: &Json) -> (res: Result<Vec<Download>, ManifestError>)
        ensures
            match res {
                Ok(ds) => spec_downloads_from(jv_entries(v@)) == Ok::<Seq<DownloadV>, ManifestError>(
                    downloads_view(ds@),
                ),
                Err(e) => spec_downloads_from(jv_entries(v@)) == Err::<Seq<DownloadV>, ManifestError>(e),
            },
    {
        let mut out: Vec<Download> = Vec::new();
        let es = match v.entries() {
            Some(es) => es,
            None => {
                assert(downloads_view(out@) =~= Seq::<DownloadV>::empty());
                return Ok(out);
            },
        };
        let ghost vs = jv_entries(v@);
        assert(vs.skip(0) == vs);
        assert(downloads_view(out@) =~= Seq::<DownloadV>::empty());
        let mut i: usize = 0;
        while i < es.len()
            invariant
                i <= es.len(),
                vs == jv_entries(v@),
                vs.len() == es@.len(),
                forall|k: int| 0 <= k < es@.len() ==> #[trigger] vs[k] == (es@[k].0@, es@[k].1@),
                spec_downloads_from(vs) == match spec_downloads_from(vs.skip(i as int)) {
                    Err(e) => Err(e),
                    Ok(rest) => Ok(downloads_view(out@) + rest),
                },
            decreases es.len() - i,
        {
            proof {
                lemma_downloads_step(vs, i as int);
                assert(vs[i as int] == (es@[i as int].0@, es@[i as int].1@));
            }
            let d = Download::from_entry(&es[i].0, &es[i].1)?;
            let ghost before = downloads_view(out@);
            out.push(d);
            proof {
                assert(downloads_view(out@) =~= before.push(d@));
                assert forall|rest: Seq<DownloadV>| #[trigger] (before + (seq![d@] + rest)) == downloads_view(out@) + rest by {
                    assert(before + (seq![d@] + rest) =~= downloads_view(out@) + rest);
                }
            }
            i = i + 1;
        }
        proof {
            assert(vs.skip(i as int).len() == 0);
            assert(downloads_view(out@) + Seq::<DownloadV>::empty() =~= downloads_view(out@));
        }
        Ok(out)
    }
}

impl Library {
    /// The systems named by the `allow` rules of a `rules` array.
    fn allowed_os(rules: &Json) -> (res: Vec<String>)
        ensures
            strings_view(res@) == spec_allowed_os(jv_members(rules@)),
    {
        let mut out: Vec<String> = Vec::new();
        let ms = match rules.members() {
            Some(ms) => ms,
            None => {
                assert(strings_view(out@) =~= Seq::<Seq<char>>::empty());
                return out;
            },
        };
        let ghost vs = jv_members(rules@);
        assert(vs.skip(0) == vs);
        assert(strings_view(out@) =~= Seq::<Seq<char>>::empty());
        let mut i: usize = 0;
        while i < ms.len()
            invariant
                i <= ms.len(),
                vs == jv_members(rules@),
                vs.len() == ms@.len(),
                forall|k: int| 0 <= k < ms@.len() ==> #[trigger] ms@[k]@ == vs[k],
                spec_allowed_os(vs) == strings_view(out@) + spec_allowed_os(vs.skip(i as int)),
            decreases ms.len() - i,
        {
            proof {
                lemma_allowed_os_step(vs, i as int);
                assert(ms@[i as int]@ == vs[i as int]);
            }
            let rule = &ms[i];
            let ghost before = strings_view(out@);
            let action = rule.get_str("action");
            let allow = to_owned_string("allow");
            let is_allow = match &action {
                Some(a) => *a == allow,
                None => false,
            };
            if is_allow {
                let os = match rule.field("os") {
                    Some(o) => o.get_str("name"),
                    None => None,
                };
                if let Some(n) = os {
                    out.push(n);
                    proof {
                        assert(strings_view(out@) =~= before.push(n@));
                        assert(before + (seq![n@] + spec_allowed_os(vs.skip(i + 1))) =~= strings_view(out@)
                            + spec_allowed_os(vs.skip(i + 1)));
                    }
                }
            } else {
                assert(spec_rule_os(vs[i as int]) is None);
            }
            i = i + 1;
        }
        proof {
            assert(vs.skip(i as int).len() == 0);
            assert(strings_view(out@) + Seq::<Seq<char>>::empty() =~= strings_view(out@));
        }
        out
    }

    /// Reads one member of the `libraries` array.
    pub fn from_json(v: &Json) -> (res: Result<Library, ManifestError>)
        ensures
            match res {
                Ok(l) => spec_library_from(v@) == Ok::<LibraryV, ManifestError>(l@),
                Err(e) => spec_library_from(v@) == Err::<LibraryV, ManifestError>(e),
            },
    {
        let downloads = match v.field("downloads") {
            Some(d) => Download::all_from(d)?,
            None => {
                let e: Vec<Download> = Vec::new();
                assert(downloads_view(e@) =~= Seq::<DownloadV>::empty());
                e
            },
        };
        let os = match v.field("rules") {
            Some(r) => Library::allowed_os(r),
            None => {
                let e: Vec<String> = Vec::new();
                assert(strings_view(e@) =~= Seq::<Seq<char>>::empty());
                e
            },
        };
        let name = match v.get_str("name") {
            Some(n) => n,
            None => {
                return Err(ManifestError::LibraryName);
            },
        };
        Ok(Library { downloads, name, os })
    }

    /// Reads every member of the `libraries` array, in order.
    pub fn all_from(v: &Json) -> (res: Result<Vec<Library>, ManifestError>)
        ensures
            match res {
                Ok(ls) => spec_libraries_from(jv_members(v@)) == Ok::<Seq<LibraryV>, ManifestError>(
                    libs_view(ls@),
                ),
                Err(e) => spec_libraries_from(jv_members(v@)) == Err::<Seq<LibraryV>, ManifestError>(e),
            },
    {
        let mut out: Vec<Library> = Vec::new();
        let ms = match v.members() {
            Some(ms) => ms,
            None => {
                assert(libs_view(out@) =~= Seq::<LibraryV>::empty());
                return Ok(out);
            },
        };
        let ghost vs = jv_members(v@);
        assert(vs.skip(0) == vs);
        assert(libs_view(out@) =~= Seq::<LibraryV>::empty());
        let mut i: usize = 0;
        while i < ms.len()
            invariant
                i <= ms.len(),
                vs == jv_members(v@),
                vs.len() == ms@.len(),
                forall|k: int| 0 <= k < ms@.len() ==> #[trigger] ms@[k]@ == vs[k],
                spec_libraries_from(vs) == match spec_libraries_from(vs.skip(i as int)) {
                    Err(e) => Err(e),
                    Ok(rest) => Ok(libs_view(out@) + rest),
                },
            decreases ms.len() - i,
        {
            proof {
                lemma_libraries_step(vs, i as int);
                assert(ms@[i as int]@ == vs[i as int]);
            }
            let l = Library::from_json(&ms[i])?;
            let ghost before = libs_view(out@);
            out.push(l);
            proof {
                assert(libs_view(out@) =~= before.push(l@));
                assert forall|rest: Seq<LibraryV>| #[trigger] (before + (seq![l@] + rest)) == libs_view(out@) + rest by {
                    assert(before + (seq![l@] + rest) =~= libs_view(out@) + rest);
                }
            }
            i = i + 1;
        }
        proof {
            assert(vs.skip(i as int).len() == 0);
            assert(libs_view(out@) + Seq::<LibraryV>::empty() =~= libs_view(out@));
        }
        Ok(out)
    }
}


impl MinecraftManifest {
    /// Reads a version manifest; see `spec_minecraft_manifest_from`.
    pub fn from_json(v: &Json) -> (res: Result<MinecraftManifest, ManifestError>)
        ensures
            match res {
                Ok(m) => spec_minecraft_manifest_from(v@) == Ok::<MinecraftManifestV, ManifestError>(m@),
                Err(e) => spec_minecraft_manifest_from(v@) == Err::<MinecraftManifestV, ManifestError>(e),
            },
    {
        let downloads = match v.field("downloads") {
            Some(d) => Download::all_from(d)?,
            None => {
                let e: Vec<Download> = Vec::new();
                assert(downloads_view(e@) =~= Seq::<DownloadV>::empty());
                e
            },
        };
        let libs = match v.field("libraries") {
            Some(l) => Library::all_from(l)?,
            None => {
                let e: Vec<Library> = Vec::new();
                assert(libs_view(e@) =~= Seq::<LibraryV>::empty());
                e
            },
        };
        let compliance_level = match v.get_i32("complianceLevel") {
            Some(x) => x,
            None => {
                return Err(ManifestError::ComplianceLevel);
            },
        };
        let java_version = match v.field("javaVersion") {
            Some(j) => j.get_i32("majorVersion"),
            None => None,
        };
        let java_version = match java_version {
            Some(x) => x,
            None => {
                return Err(ManifestError::JavaVersion);
            },
        };
        let main_class = match v.get_str("mainClass") {
            Some(x) => x,
            None => {
                return Err(ManifestError::MainClass);
            },
        };
        let asset_index = match v.field("assetIndex") {
            Some(a) => AssetIndex::from_json(a),
            None => {
                let null = Json::Null;
                AssetIndex::from_json(&null)
            },
        };
        let args: Vec<String> = Vec::new();
        assert(strings_view(args@) =~= Seq::<Seq<char>>::empty());
        Ok(MinecraftManifest { args, compliance_level, downloads, java_version, libs, main_class, asset_index })
    }
}

proof fn lemma_jre_pick_step(ms: Seq<JsonV>, i: int)
    requires
        0 <= i < ms.len(),
    ensures
        spec_jre_pick(ms.take(i + 1)) == match spec_jre_pick(ms.take(i)) {
            None => Some(ms[i]),
            Some(b) => Some(if spec_jre_keeps(b, ms[i]) { b } else { ms[i] }),
        },
{
    assert(ms.take(i + 1).drop_last() == ms.take(i));
    assert(ms.take(i + 1).last() == ms[i]);
}

/// Does the package chosen so far stay chosen against `next`?
fn jre_keeps(best: &Json, next: &Json) -> (res: bool)
    ensures
        res == spec_jre_keeps(best@, next@),
{
    match best.get_str("name") {
        None => false,
        Some(a) => match next.get_str("name") {
            None => true,
            Some(b) => str_lt(b.as_str(), a.as_str()),
        },
    }
}

impl JavaManifest {
    /// Picks, among the packages of a runtime list, the one with the greatest
    /// name (the last of equals), and reads its download URL and name.
    pub fn from_json(v: &Json) -> (res: Result<JavaManifest, ManifestError>)
        ensures
            match res {
                Ok(m) => spec_java_manifest_from(v@) == Some((m.download_url@, m.name@)),
                Err(e) => e == ManifestError::NoSuitableJre && spec_java_manifest_from(v@) is None,
            },
    {
        let ms = match v.members() {
            Some(ms) => ms,
            None => {
                return Err(ManifestError::NoSuitableJre);
            },
        };
        let ghost vs = jv_members(v@);
        if ms.len() == 0 {
            assert(vs.len() == 0);
            return Err(ManifestError::NoSuitableJre);
        }
        let mut best: usize = 0;
        let mut i: usize = 1;
        proof {
            lemma_jre_pick_step(vs, 0);
            assert(vs.take(0).len() == 0);
        }
        while i < ms.len()
            invariant
                1 <= i <= ms.len(),
                best < i,
                vs == jv_members(v@),
                vs.len() == ms@.len(),
                forall|k: int| 0 <= k < ms@.len() ==> #[trigger] ms@[k]@ == vs[k],
                spec_jre_pick(vs.take(i as int)) == Some(vs[best as int]),
            decreases ms.len() - i,
        {
            proof {
                lemma_jre_pick_step(vs, i as int);
                assert(ms@[best as int]@ == vs[best as int]);
                assert(ms@[i as int]@ == vs[i as int]);
            }
            if !jre_keeps(&ms[best], &ms[i]) {
                best = i;
            }
            i = i + 1;
        }
        assert(vs.take(ms.len() as int) == vs);
        assert(ms@[best as int]@ == vs[best as int]);
        let p = &ms[best];
        let download_url = match p.get_str("download_url") {
            Some(x) => x,
            None => {
                return Err(ManifestError::NoSuitableJre);
            },
        };
        let name = match p.get_str("name") {
            Some(x) => x,
            None => {
                return Err(ManifestError::NoSuitableJre);
            },
        };
        Ok(JavaManifest { download_url, name })
    }
}

} // verus!
