//! The operating system and processor that the launcher runs on, and what
//! depends on them: names, separators, extensions and path joining.
use vstd::prelude::*;
use crate::text::{chars_of, push_str, string_push, to_owned_string};

verus! {

/// The operating system (and, on Linux, the C library).
#[derive(Clone, Copy, Debug, PartialEq, Eq, Structural)]
pub enum TargetOs {
    LinuxGnu,
    LinuxMusl,
    MacOs,
    Windows,
}

/// The processor architecture.
#[derive(Clone, Copy, Debug, PartialEq, Eq, Structural)]
pub enum TargetArch {
    X86_64,
    Aarch64,
}

/// The machine the launcher runs on.
#[derive(Clone, Copy, Debug, PartialEq, Eq, Structural)]
pub struct Platform {
    pub os: TargetOs,
    pub arch: TargetArch,
}

pub open spec fn spec_is_windows(p: Platform) -> bool {
    p.os == TargetOs::Windows
}

/// The separator of paths (`std::path::MAIN_SEPARATOR`).
pub open spec fn spec_path_sep(p: Platform) -> char {
    if spec_is_windows(p) { '\\' } else { '/' }
}

/// `PathBuf::join` on text: a part that starts with `/` replaces the base;
/// otherwise the separator is put between them unless the base is empty or
/// already ends with one.
pub open spec fn spec_path_join(p: Platform, base: Seq<char>, part: Seq<char>) -> Seq<char> {
    if part.len() > 0 && part[0] == '/' {
        part
    } else if base.len() == 0 {
        part
    } else if base.last() == '/' || base.last() == spec_path_sep(p) {
        base + part
    } else {
        base.push(spec_path_sep(p)) + part
    }
}

impl Platform {
    /// The separator of class path entries.
    pub fn classpath_separator(&self) -> (res: &'static str)
        ensures
            res@ == if spec_is_windows(*self) { ";"@ } else { ":"@ },
    {
        if self.os == TargetOs::Windows { ";" } else { ":" }
    }

    /// The name under which library rules name this system.
    pub fn library_os_name(&self) -> (res: &'static str)
        ensures
            res@ == match self.os {
                TargetOs::LinuxGnu | TargetOs::LinuxMusl => "linux"@,
                TargetOs::Windows => "windows"@,
                TargetOs::MacOs => "osx"@,
            },
    {
        match self.os {
            TargetOs::LinuxGnu | TargetOs::LinuxMusl => "linux",
            TargetOs::Windows => "windows",
            TargetOs::MacOs => "osx",
        }
    }

    /// The file extension of native libraries.
    pub fn native_ext(&self) -> (res: &'static str)
        ensures
            res@ == match self.os {
                TargetOs::LinuxGnu | TargetOs::LinuxMusl => ".so"@,
                TargetOs::Windows => ".dll"@,
                TargetOs::MacOs => ".dylib"@,
            },
    {
        match self.os {
            TargetOs::LinuxGnu | TargetOs::LinuxMusl => ".so",
            TargetOs::Windows => ".dll",
            TargetOs::MacOs => ".dylib",
        }
    }

    /// The system as Azul's package list names it.
    pub fn azul_os(&self) -> (res: &'static str)
        ensures
            res@ == match self.os {
                TargetOs::LinuxGnu => "linux-glibc"@,
                TargetOs::LinuxMusl => "linux-musl"@,
                TargetOs::MacOs => "macos"@,
                TargetOs::Windows => "windows"@,
            },
    {
        match self.os {
            TargetOs::LinuxGnu => "linux-glibc",
            TargetOs::LinuxMusl => "linux-musl",
            TargetOs::MacOs => "macos",
            TargetOs::Windows => "windows",
        }
    }

    /// The archive type of runtime packages: `zip` on Windows, else `tar.gz`.
    pub fn archive_type(&self) -> (res: &'static str)
        ensures
            res@ == if spec_is_windows(*self) { "zip"@ } else { "tar.gz"@ },
    {
        if self.os == TargetOs::Windows { "zip" } else { "tar.gz" }
    }

    /// The architecture as Azul's package list names it.
    pub fn azul_arch(&self) -> (res: &'static str)
        ensures
            res@ == match self.arch {
                TargetArch::X86_64 => "amd64"@,
                TargetArch::Aarch64 => "aarch64"@,
            },
    {
        match self.arch {
            TargetArch::X86_64 => "amd64",
            TargetArch::Aarch64 => "aarch64",
        }
    }

    /// `base.join(part)` on text; see `spec_path_join`.
    pub fn path_join(&self, base: &str, part: &str) -> (res: String)
        ensures
            res@ == spec_path_join(*self, base@, part@),
    {
        let b = chars_of(base);
        let q = chars_of(part);
        let sep: char = if self.os == TargetOs::Windows { '\\' } else { '/' };
        if q.len() > 0 && q[0] == '/' {
            return to_owned_string(part);
        }
        if b.len() == 0 {
            return to_owned_string(part);
        }
        let last = b[b.len() - 1];
        let mut out = to_owned_string(base);
        if !(last == '/' || last == sep) {
            string_push(&mut out, sep);
        }
        push_str(&mut out, part);
        out
    }
}

} // verus!
