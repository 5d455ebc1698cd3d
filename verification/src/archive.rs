//! What the steps after a download decide: the integrity check of a file
//! against its SHA-1, which archive entries are native libraries, and the top
//! folder of a runtime package.
use vstd::prelude::*;
use crate::text::{
    chars_of, count_char, ends_with, first_index, has_suffix, hex_lower, hex_lower_s,
    string_of_range, to_owned_string, lemma_first_index_at,
};
use crate::platform::{Platform, TargetOs};

verus! {

/// The SHA-1 digest of `data`, as the `sha1` crate computes it.
pub uninterp spec fn spec_sha1(data: Seq<u8>) -> Seq<u8>;

/// Calls `<sha1::Sha1 as Digest>::digest` on the bytes. Claimed: the digest
/// depends on the bytes alone and has 20 bytes (`OutputSize = U20`).
#[verifier::external_body]
fn sha1_digest(data: &[u8]) -> (res: Vec<u8>)
    ensures
        res@ == spec_sha1(data@),
        res@.len() == 20,
{
    <sha1::Sha1 as sha1::Digest>::digest(data).to_vec()
}

/// Does the file's content match the expected SHA-1, written in lower-case
/// hexadecimal (`format!("{:x}", digest) == sha1`)?
pub fn sha1_matches(contents: &[u8], expected: &str) -> (res: bool)
    ensures
        res == (hex_lower_s(spec_sha1(contents@)) == expected@),
{
    let d = sha1_digest(contents);
    let hex = hex_lower(d.as_slice());
    let e = to_owned_string(expected);
    hex == e
}

/// Is this archive entry a native library of this system (its name ends
/// with the system's extension)?
pub fn is_native_entry(name: &str, p: &Platform) -> (res: bool)
    ensures
        res == has_suffix(
            name@,
            match p.os {
                TargetOs::LinuxGnu | TargetOs::LinuxMusl => ".so"@,
                TargetOs::Windows => ".dll"@,
                TargetOs::MacOs => ".dylib"@,
            },
        ),
{
    ends_with(name, p.native_ext())
}

/// Why a runtime package could not be unpacked without its top folder.
#[derive(Clone, Copy, Debug, PartialEq, Eq, Structural)]
pub enum UnpackError {
    /// The package has no top folder.
    NoTopFolder,
    /// Its entries lie under more than one top-level name.
    MultipleTopLevel,
}

impl UnpackError {
    /// The message that the launcher shows for the error.
    pub fn message(&self) -> (res: &'static str)
        ensures
            match self {
                UnpackError::NoTopFolder => res@ == "No top folder found"@,
                UnpackError::MultipleTopLevel => res@ == "Archive has multiple top-level entries"@,
            },
    {
        match self {
            UnpackError::NoTopFolder => "No top folder found",
            UnpackError::MultipleTopLevel => "Archive has multiple top-level entries",
        }
    }
}

/// Is this zip entry a top folder: a name that ends with `/` and holds one `/`?
pub open spec fn spec_is_top_folder(name: Seq<char>) -> bool {
    name.len() > 0 && name.last() == '/' && count_char(name, '/') == 1
}

/// The first top folder among the names of a zip archive.
pub open spec fn spec_zip_top_folder(names: Seq<Seq<char>>) -> Option<Seq<char>>
    decreases names.len(),
{
    if names.len() == 0 {
        None
    } else if spec_is_top_folder(names[0]) {
        Some(names[0])
    } else {
        spec_zip_top_folder(names.drop_first())
    }
}

fn count_slashes(v: &Vec<char>) -> (res: usize)
    ensures
        res == count_char(v@, '/'),
{
    let mut n: usize = 0;
    let mut i: usize = 0;
    while i < v.len()
        invariant
            i <= v.len(),
            n == count_char(v@.take(i as int), '/'),
            n <= i,
        decreases v.len() - i,
    {
        proof {
            let t = v@.take(i + 1);
            assert(t.drop_last() == v@.take(i as int));
            assert(t.last() == v@[i as int]);
        }
        if v[i] == '/' {
            n = n + 1;
        }
        i = i + 1;
    }
    assert(v@.take(v@.len() as int) == v@);
    n
}

pub open spec fn names_view(v: Seq<String>) -> Seq<Seq<char>> {
    v.map_values(|s: String| s@)
}

/// The top folder of a zip runtime package (the package type on Windows):
/// the first name that ends with `/` and holds one `/`.
pub fn zip_top_folder(names: &Vec<String>) -> (res: Result<String, UnpackError>)
    ensures
        match res {
            Ok(t) => spec_zip_top_folder(names_view(names@)) == Some(t@),
            Err(e) => e == UnpackError::NoTopFolder && spec_zip_top_folder(names_view(names@)) is None,
        },
{
    let ghost nv = names_view(names@);
    assert(nv.skip(0) == nv);
    let mut i: usize = 0;
    while i < names.len()
        invariant
            i <= names.len(),
            nv == names_view(names@),
            spec_zip_top_folder(nv) == spec_zip_top_folder(nv.skip(i as int)),
        decreases names.len() - i,
    {
        proof {
            assert(nv.skip(i as int)[0] == nv[i as int]);
            assert(nv.skip(i as int).drop_first() == nv.skip(i + 1));
        }
        let v = chars_of(names[i].as_str());
        if v.len() > 0 && v[v.len() - 1] == '/' && count_slashes(&v) == 1 {
            return Ok(to_owned_string(names[i].as_str()));
        }
        i = i + 1;
    }
    assert(nv.skip(i as int).len() == 0);
    Err(UnpackError::NoTopFolder)
}

/// The first component of a relative or absolute path (`Path::components`
/// on Unix): `/` for an absolute path, else what stands before the first `/`.
pub open spec fn spec_first_component(path: Seq<char>) -> Option<Seq<char>> {
    if path.len() == 0 {
        None
    } else if path[0] == '/' {
        Some(seq!['/'])
    } else {
        Some(path.take(first_index(path, '/')))
    }
}

/// The one top-level name that the entries share; the first entry with
/// another one gives the error, no entry at all gives the other error.
pub open spec fn spec_tar_top(paths: Seq<Seq<char>>, top: Option<Seq<char>>) -> Result<Seq<char>, UnpackError>
    decreases paths.len(),
{
    if paths.len() == 0 {
        match top {
            Some(t) => Ok(t),
            None => Err(UnpackError::NoTopFolder),
        }
    } else {
        match spec_first_component(paths[0]) {
            None => spec_tar_top(paths.drop_first(), top),
            Some(f) => match top {
                None => spec_tar_top(paths.drop_first(), Some(f)),
                Some(t) => if t != f {
                    Err(UnpackError::MultipleTopLevel)
                } else {
                    spec_tar_top(paths.drop_first(), top)
                },
            },
        }
    }
}

fn first_component(path: &str) -> (res: Option<String>)
    ensures
        match res {
            Some(c) => spec_first_component(path@) == Some(c@),
            None => spec_first_component(path@) is None,
        },
{
    let v = chars_of(path);
    if v.len() == 0 {
        return None;
    }
    if v[0] == '/' {
        proof {
            reveal_strlit("/");
            assert("/"@ =~= seq!['/']);
        }
        return Some(to_owned_string("/"));
    }
    let mut k: usize = 0;
    while k < v.len() && v[k] != '/'
        invariant
            k <= v.len(),
            v@ == path@,
            forall|j: int| 0 <= j < k ==> v@[j] != '/',
        decreases v.len() - k,
    {
        k = k + 1;
    }
    proof {
        lemma_first_index_at(v@, '/', k as int);
        assert(v@.subrange(0, k as int) == v@.take(k as int));
    }
    Some(string_of_range(&v, 0, k))
}

/// The top folder of a tar runtime package (the package type elsewhere than
/// on Windows), from the paths of its entries in order.
pub fn tar_top_folder(paths: &Vec<String>) -> (res: Result<String, UnpackError>)
    ensures
        match res {
            Ok(t) => spec_tar_top(names_view(paths@), None) == Ok::<Seq<char>, UnpackError>(t@),
            Err(e) => spec_tar_top(names_view(paths@), None) == Err::<Seq<char>, UnpackError>(e),
        },
{
    proof {
        reveal_strlit("/");
    }
    let ghost pv = names_view(paths@);
    let mut top: Option<String> = None;
    assert(pv.skip(0) == pv);
    let mut i: usize = 0;
    while i < paths.len()
        invariant
            i <= paths.len(),
            pv == names_view(paths@),
            spec_tar_top(pv, None) == spec_tar_top(
                pv.skip(i as int),
                match top {
                    Some(t) => Some(t@),
                    None => None,
                },
            ),
        decreases paths.len() - i,
    {
        proof {
            assert(pv.skip(i as int)[0] == pv[i as int]);
            assert(pv.skip(i as int).drop_first() == pv.skip(i + 1));
        }
        match first_component(paths[i].as_str()) {
            None => {},
            Some(f) => {
                match &top {
                    None => {
                        top = Some(f);
                    },
                    Some(t) => {
                        if !(*t == f) {
                            return Err(UnpackError::MultipleTopLevel);
                        }
                    },
                }
            },
        }
        i = i + 1;
    }
    assert(pv.skip(i as int).len() == 0);
    match top {
        Some(t) => Ok(t),
        None => Err(UnpackError::NoTopFolder),
    }
}

} // verus!
