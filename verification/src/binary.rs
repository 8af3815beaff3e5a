//! The external tools beams downloads: their release assets, where they come
//! from, and where they are cached.

use std::path::PathBuf;

use vstd::prelude::*;
use vstd::string::StringExecFns;

use crate::error::{BeamsError, ErrorModel};
use crate::text::{chars_of, ends_with, ends_with_exec, lemma_starts_with_concat, starts_with, str_eq};

verus! {

/// `std::path::PathBuf`, carried through unread.
#[verifier::external_type_specification]
#[verifier::external_body]
pub struct ExPathBuf(std::path::PathBuf);

/// An external CLI that beams downloads and caches on demand.
#[derive(Clone, Copy, Debug, PartialEq, Eq, Structural)]
pub enum Tool {
    Cloudflared,
    Bore,
}

/// The bore release beams is pinned to.
pub const BORE_VERSION: &'static str = "v0.6.0";

/// The file name of a tool's cached executable on `os`.
pub open spec fn spec_bin_name(tool: Tool, os: Seq<char>) -> Seq<char> {
    match tool {
        Tool::Cloudflared => if os == "windows"@ {
            "cloudflared.exe"@
        } else {
            "cloudflared"@
        },
        Tool::Bore => if os == "windows"@ {
            "bore.exe"@
        } else {
            "bore"@
        },
    }
}

/// The name of a tool's entry inside its release archive (without `.exe`).
pub open spec fn spec_archive_entry(tool: Tool) -> Seq<char> {
    match tool {
        Tool::Cloudflared => "cloudflared"@,
        Tool::Bore => "bore"@,
    }
}

/// The target-triple part of a bore release asset for `(os, arch)`.
pub open spec fn bore_triple(os: Seq<char>, arch: Seq<char>) -> Option<Seq<char>> {
    if os == "macos"@ && arch == "x86_64"@ {
        Some("x86_64-apple-darwin.tar.gz"@)
    } else if os == "macos"@ && arch == "aarch64"@ {
        Some("aarch64-apple-darwin.tar.gz"@)
    } else if os == "linux"@ && arch == "x86_64"@ {
        Some("x86_64-unknown-linux-musl.tar.gz"@)
    } else if os == "linux"@ && arch == "aarch64"@ {
        Some("aarch64-unknown-linux-musl.tar.gz"@)
    } else if os == "windows"@ && arch == "x86_64"@ {
        Some("x86_64-pc-windows-msvc.zip"@)
    } else {
        None
    }
}

/// The cloudflared release asset for `(os, arch)`.
pub open spec fn cloudflared_asset(os: Seq<char>, arch: Seq<char>) -> Option<Seq<char>> {
    if os == "macos"@ && arch == "x86_64"@ {
        Some("cloudflared-darwin-amd64.tgz"@)
    } else if os == "macos"@ && arch == "aarch64"@ {
        Some("cloudflared-darwin-arm64.tgz"@)
    } else if os == "linux"@ && arch == "x86_64"@ {
        Some("cloudflared-linux-amd64"@)
    } else if os == "linux"@ && arch == "aarch64"@ {
        Some("cloudflared-linux-arm64"@)
    } else if os == "windows"@ && arch == "x86_64"@ {
        Some("cloudflared-windows-amd64.exe"@)
    } else {
        None
    }
}

/// The release asset of `tool` for `(os, arch)`, or the error for an
/// unsupported platform.
pub open spec fn spec_asset(tool: Tool, os: Seq<char>, arch: Seq<char>) -> Result<
    Seq<char>,
    ErrorModel,
> {
    let unsupported = ErrorModel::Download("unsupported platform: "@ + os + "/"@ + arch);
    match tool {
        Tool::Cloudflared => match cloudflared_asset(os, arch) {
            Some(a) => Ok(a),
            None => Err(unsupported),
        },
        Tool::Bore => match bore_triple(os, arch) {
            Some(t) => Ok("bore-"@ + BORE_VERSION@ + "-"@ + t),
            None => Err(unsupported),
        },
    }
}

/// The URL a release asset of `tool` is downloaded from.
pub open spec fn spec_download_url(tool: Tool, asset: Seq<char>) -> Seq<char> {
    match tool {
        Tool::Cloudflared => "https://github.com/cloudflare/cloudflared/releases/latest/download/"@
            + asset,
        Tool::Bore => "https://github.com/ekzhang/bore/releases/download/"@ + BORE_VERSION@ + "/"@
            + asset,
    }
}

/// Both tools ship for the same platforms, and refuse the others with the
/// same error.
pub proof fn law_tools_share_platforms(os: Seq<char>, arch: Seq<char>)
    ensures
        spec_asset(Tool::Cloudflared, os, arch) is Ok <==> spec_asset(Tool::Bore, os, arch) is Ok,
        spec_asset(Tool::Cloudflared, os, arch) is Err ==> spec_asset(Tool::Cloudflared, os, arch)
            == spec_asset(Tool::Bore, os, arch),
{
}

/// bore is pinned: every bore asset is named for [`BORE_VERSION`], and is
/// downloaded from that release rather than from the latest one.
pub proof fn law_bore_is_pinned(os: Seq<char>, arch: Seq<char>)
    ensures
        spec_asset(Tool::Bore, os, arch) matches Ok(a) ==> {
            &&& starts_with(a, "bore-"@ + BORE_VERSION@)
            &&& starts_with(
                spec_download_url(Tool::Bore, a),
                "https://github.com/ekzhang/bore/releases/download/"@ + BORE_VERSION@ + "/"@,
            )
        },
{
    if let Ok(a) = spec_asset(Tool::Bore, os, arch) {
        let t = bore_triple(os, arch)->0;
        assert(a == ("bore-"@ + BORE_VERSION@) + ("-"@ + t));
        lemma_starts_with_concat("bore-"@ + BORE_VERSION@, "-"@ + t);
        lemma_starts_with_concat(
            "https://github.com/ekzhang/bore/releases/download/"@ + BORE_VERSION@ + "/"@,
            a,
        );
    }
}

/// The cached executable is the archive's entry, with `.exe` on Windows.
pub proof fn law_cached_name_is_the_entry(tool: Tool, os: Seq<char>)
    ensures
        spec_bin_name(tool, os) == spec_archive_entry(tool) + (if os == "windows"@ {
            ".exe"@
        } else {
            Seq::empty()
        }),
{
    reveal_strlit("cloudflared");
    reveal_strlit("cloudflared.exe");
    reveal_strlit("bore");
    reveal_strlit("bore.exe");
    reveal_strlit(".exe");
    assert("cloudflared"@ + ".exe"@ =~= "cloudflared.exe"@);
    assert("bore"@ + ".exe"@ =~= "bore.exe"@);
    assert("cloudflared"@ + Seq::<char>::empty() =~= "cloudflared"@);
    assert("bore"@ + Seq::<char>::empty() =~= "bore"@);
}

impl Tool {
    /// File name of the cached executable for this tool on `os` (a value of
    /// `std::env::consts::OS`).
    pub fn bin_name(self, os: &str) -> (r: &'static str)
        ensures
            r@ == spec_bin_name(self, os@),
    {
        let windows = str_eq(os, "windows");
        match self {
            Tool::Cloudflared => if windows {
                "cloudflared.exe"
            } else {
                "cloudflared"
            },
            Tool::Bore => if windows {
                "bore.exe"
            } else {
                "bore"
            },
        }
    }

    /// Name of the entry inside the downloaded archive (without any `.exe`).
    pub fn archive_entry(self) -> (r: &'static str)
        ensures
            r@ == spec_archive_entry(self),
    {
        match self {
            Tool::Cloudflared => "cloudflared",
            Tool::Bore => "bore",
        }
    }

    /// Release asset filename for (os, arch) from `std::env::consts::{OS, ARCH}`.
    pub fn asset(self, os: &str, arch: &str) -> (r: Result<String, BeamsError>)
        ensures
            match r {
                Ok(a) => spec_asset(self, os@, arch@) == Ok::<Seq<char>, ErrorModel>(a@),
                Err(e) => spec_asset(self, os@, arch@) == Err::<Seq<char>, ErrorModel>(e@),
            },
    {
        let macos = str_eq(os, "macos");
        let linux = str_eq(os, "linux");
        let windows = str_eq(os, "windows");
        let x86_64 = str_eq(arch, "x86_64");
        let aarch64 = str_eq(arch, "aarch64");
        let name = match self {
            Tool::Cloudflared => {
                let a = if macos && x86_64 {
                    "cloudflared-darwin-amd64.tgz"
                } else if macos && aarch64 {
                    "cloudflared-darwin-arm64.tgz"
                } else if linux && x86_64 {
                    "cloudflared-linux-amd64"
                } else if linux && aarch64 {
                    "cloudflared-linux-arm64"
                } else if windows && x86_64 {
                    "cloudflared-windows-amd64.exe"
                } else {
                    return Err(unsupported_platform(os, arch));
                };
                a.to_owned()
            },
            Tool::Bore => {
                let triple = if macos && x86_64 {
                    "x86_64-apple-darwin.tar.gz"
                } else if macos && aarch64 {
                    "aarch64-apple-darwin.tar.gz"
                } else if linux && x86_64 {
                    "x86_64-unknown-linux-musl.tar.gz"
                } else if linux && aarch64 {
                    "aarch64-unknown-linux-musl.tar.gz"
                } else if windows && x86_64 {
                    "x86_64-pc-windows-msvc.zip"
                } else {
                    return Err(unsupported_platform(os, arch));
                };
                let mut n = "bore-".to_owned();
                n.append(BORE_VERSION);
                n.append("-");
                n.append(triple);
                n
            },
        };
        Ok(name)
    }

    /// Download URL for a release asset of this tool.
    pub fn download_url(self, asset: &str) -> (r: String)
        ensures
            r@ == spec_download_url(self, asset@),
    {
        match self {
            Tool::Cloudflared => {
                let mut u = "https://github.com/cloudflare/cloudflared/releases/latest/download/".to_owned();
                u.append(asset);
                u
            },
            Tool::Bore => {
                let mut u = "https://github.com/ekzhang/bore/releases/download/".to_owned();
                u.append(BORE_VERSION);
                u.append("/");
                u.append(asset);
                u
            },
        }
    }
}

fn unsupported_platform(os: &str, arch: &str) -> (e: BeamsError)
    ensures
        e@ == ErrorModel::Download("unsupported platform: "@ + os@ + "/"@ + arch@),
{
    let mut m = "unsupported platform: ".to_owned();
    m.append(os);
    m.append("/");
    m.append(arch);
    BeamsError::Download(m)
}

/// How a downloaded release asset is packed.
#[derive(Clone, Copy, Debug, PartialEq, Eq, Structural)]
pub enum ArchiveKind {
    /// A zip archive.
    Zip,
    /// A gzip-compressed tarball.
    TarGz,
    /// The executable itself.
    Raw,
}

/// How an asset named `asset` is packed, by its extension.
pub open spec fn spec_archive_kind(asset: Seq<char>) -> ArchiveKind {
    if ends_with(asset, ".zip"@) {
        ArchiveKind::Zip
    } else if ends_with(asset, ".tgz"@) || ends_with(asset, ".tar.gz"@) {
        ArchiveKind::TarGz
    } else {
        ArchiveKind::Raw
    }
}

proof fn lemma_ends_with_last(a: Seq<char>, suf: Seq<char>)
    requires
        suf.len() > 0,
        ends_with(a, suf),
    ensures
        a.last() == suf.last(),
{
    assert(a.subrange(a.len() - suf.len(), a.len() as int)[suf.len() - 1] == a.last());
}

/// How each tool's release for a supported platform is packed: bore ships a
/// zip on Windows and a gzip tarball elsewhere; cloudflared ships a gzip
/// tarball on macOS and the bare executable elsewhere.
pub proof fn law_asset_packing(tool: Tool, os: Seq<char>, arch: Seq<char>)
    ensures
        spec_asset(tool, os, arch) matches Ok(a) ==> spec_archive_kind(a) == match tool {
            Tool::Bore => if os == "windows"@ {
                ArchiveKind::Zip
            } else {
                ArchiveKind::TarGz
            },
            Tool::Cloudflared => if os == "macos"@ {
                ArchiveKind::TarGz
            } else {
                ArchiveKind::Raw
            },
        },
{
    reveal_strlit(".zip");
    reveal_strlit(".tgz");
    reveal_strlit(".tar.gz");
    reveal_strlit("macos");
    reveal_strlit("linux");
    reveal_strlit("windows");
    reveal_strlit("bore-");
    reveal_strlit("-");
    reveal_strlit("v0.6.0");
    if let Ok(a) = spec_asset(tool, os, arch) {
        if ends_with(a, ".zip"@) {
            lemma_ends_with_last(a, ".zip"@);
        }
        if ends_with(a, ".tgz"@) {
            lemma_ends_with_last(a, ".tgz"@);
        }
        if ends_with(a, ".tar.gz"@) {
            lemma_ends_with_last(a, ".tar.gz"@);
        }
        match tool {
            Tool::Cloudflared => {
                reveal_strlit("cloudflared-darwin-amd64.tgz");
                reveal_strlit("cloudflared-darwin-arm64.tgz");
                reveal_strlit("cloudflared-linux-amd64");
                reveal_strlit("cloudflared-linux-arm64");
                reveal_strlit("cloudflared-windows-amd64.exe");
                if os == "macos"@ {
                    assert(a.subrange(a.len() - 4, a.len() as int) =~= ".tgz"@);
                } else {
                    assert(a.last() != 'p' && a.last() != 'z');
                }
            },
            Tool::Bore => {
                reveal_strlit("x86_64-apple-darwin.tar.gz");
                reveal_strlit("aarch64-apple-darwin.tar.gz");
                reveal_strlit("x86_64-unknown-linux-musl.tar.gz");
                reveal_strlit("aarch64-unknown-linux-musl.tar.gz");
                reveal_strlit("x86_64-pc-windows-msvc.zip");
                let t = bore_triple(os, arch)->0;
                assert(a == "bore-"@ + BORE_VERSION@ + "-"@ + t);
                assert(a.last() == t.last());
                if os == "windows"@ {
                    assert(a.subrange(a.len() - 4, a.len() as int) =~= ".zip"@);
                } else {
                    assert(t.subrange(t.len() - 7, t.len() as int) =~= ".tar.gz"@);
                    assert(a.subrange(a.len() - 7, a.len() as int) =~= t.subrange(
                        t.len() - 7,
                        t.len() as int,
                    ));
                }
            },
        }
    }
}

/// How the release asset named `asset` is packed.
pub fn archive_kind(asset: &str) -> (r: ArchiveKind)
    ensures
        r == spec_archive_kind(asset@),
{
    let a = chars_of(asset);
    if ends_with_exec(&a, ".zip") {
        ArchiveKind::Zip
    } else if ends_with_exec(&a, ".tgz") || ends_with_exec(&a, ".tar.gz") {
        ArchiveKind::TarGz
    } else {
        ArchiveKind::Raw
    }
}

/// True if `file_name` is `entry` or `entry.exe`.
pub fn entry_matches(file_name: Option<&str>, entry: &str) -> (r: bool)
    ensures
        r == (file_name matches Some(n) && (n@ == entry@ || n@ == entry@ + ".exe"@)),
{
    match file_name {
        Some(n) => {
            let mut exe = entry.to_owned();
            exe.append(".exe");
            str_eq(n, entry) || str_eq(n, exe.as_str())
        },
        None => false,
    }
}

/// The project whose cache directory beams uses: `dev.beams.beams`.
pub const CACHE_QUALIFIER: &'static str = "dev";

/// The organization part of the cache project's name.
pub const CACHE_ORGANIZATION: &'static str = "beams";

/// The application part of the cache project's name.
pub const CACHE_APPLICATION: &'static str = "beams";

/// Calls `directories::ProjectDirs::from(qualifier, organization, application)`
/// and, when that finds the user's directories, `ProjectDirs::cache_dir`. It is
/// only ever asked for beams' own project. Nothing is claimed of the result: it
/// comes from the environment (`$XDG_CACHE_HOME`, `$HOME`, the platform's
/// known folders).
#[verifier::external_body]
fn project_cache_dir(qualifier: &str, organization: &str, application: &str) -> Option<PathBuf>
    requires
        qualifier@ == CACHE_QUALIFIER@,
        organization@ == CACHE_ORGANIZATION@,
        application@ == CACHE_APPLICATION@,
{
    match directories::ProjectDirs::from(qualifier, organization, application) {
        Some(dirs) => Some(dirs.cache_dir().to_path_buf()),
        None => None,
    }
}

/// The path `std::path::Path::join` makes of `base` and the relative path
/// `name`.
pub uninterp spec fn joined_path(base: PathBuf, name: Seq<char>) -> PathBuf;

/// Calls `std::path::Path::join`. Claimed: the joined path is a function of
/// `base` and `name` alone, named by [`joined_path`]; nothing more is claimed
/// of it, since `PathBuf` has no model here.
#[verifier::external_body]
fn path_join(base: &PathBuf, name: &str) -> (r: PathBuf)
    ensures
        r == joined_path(*base, name@),
{
    base.join(name)
}

/// The error when no cache directory can be located.
pub open spec fn no_cache_dir() -> ErrorModel {
    ErrorModel::Download("could not locate a cache directory"@)
}

/// The cache directory, given what the platform's directory lookup found.
pub fn cache_dir_from(found: Option<PathBuf>) -> (r: Result<PathBuf, BeamsError>)
    ensures
        match found {
            Some(dir) => (r matches Ok(d) && d == dir),
            None => (r matches Err(e) && e@ == no_cache_dir()),
        },
{
    match found {
        Some(dir) => Ok(dir),
        None => Err(BeamsError::Download("could not locate a cache directory".to_owned())),
    }
}

/// Directory where beams caches downloaded binaries: the user's cache
/// directory for the project `dev.beams.beams`. Whether one exists, and where,
/// depends on the environment.
pub fn cache_dir() -> (r: Result<PathBuf, BeamsError>)
    ensures
        r matches Err(e) ==> e@ == no_cache_dir(),
{
    cache_dir_from(project_cache_dir(CACHE_QUALIFIER, CACHE_ORGANIZATION, CACHE_APPLICATION))
}

/// Path of the cached executable for `tool` on `os` inside the cache
/// directory `dir`.
pub fn binary_path_in(dir: &PathBuf, tool: Tool, os: &str) -> (r: PathBuf)
    ensures
        r == joined_path(*dir, spec_bin_name(tool, os@)),
{
    path_join(dir, tool.bin_name(os))
}

/// Full path to the cached executable for `tool` on `os`: the cache directory
/// joined with the tool's file name.
pub fn binary_path(tool: Tool, os: &str) -> (r: Result<PathBuf, BeamsError>)
    ensures
        match r {
            Ok(p) => exists|dir: PathBuf| p == #[trigger] joined_path(dir, spec_bin_name(tool, os@)),
            Err(e) => e@ == no_cache_dir(),
        },
{
    let dir = cache_dir()?;
    Ok(binary_path_in(&dir, tool, os))
}

} // verus!
