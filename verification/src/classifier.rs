//! Classifying paths and names: directories of the operating system, which
//! may not be explored, and hidden entries, which a scan leaves out.

use vstd::prelude::*;
use crate::error::ExplorerError;
use crate::text::{lowercased, same_text, starts_with, to_lowercase};

verus! {

/// The operating systems whose directories the classifier knows.
#[derive(Debug, Clone, Copy, PartialEq, Eq, Structural)]
pub enum Platform {
    MacOs,
    Windows,
    Linux,
    /// Any other system: none of its directories is blocked.
    Other,
}

impl Platform {
    /// The platform that an operating system's name stands for, as
    /// `std::env::consts::OS` writes it.
    pub open spec fn named(os_name: Seq<char>) -> Platform {
        if os_name == "macos"@ {
            Platform::MacOs
        } else if os_name == "windows"@ {
            Platform::Windows
        } else if os_name == "linux"@ {
            Platform::Linux
        } else {
            Platform::Other
        }
    }

    /// The platform that the operating system's name `os_name` stands for.
    pub fn from_os_name(os_name: &str) -> (platform: Platform)
        ensures
            platform == Platform::named(os_name@),
    {
        if same_text(os_name, "macos") {
            Platform::MacOs
        } else if same_text(os_name, "windows") {
            Platform::Windows
        } else if same_text(os_name, "linux") {
            Platform::Linux
        } else {
            Platform::Other
        }
    }

    /// The deny-list of the platform: a path that begins with one of these
    /// texts is a directory of the operating system.
    pub open spec fn blocked_prefixes(self) -> Seq<Seq<char>> {
        match self {
            Platform::MacOs => seq![
                "/System"@,
                "/Library"@,
                "/usr"@,
                "/bin"@,
                "/sbin"@,
                "/etc"@,
                "/var"@,
                "/private"@,
                "/cores"@,
                "/dev"@,
            ],
            Platform::Windows => seq![
                "c:\\windows"@,
                "c:\\program files"@,
                "c:\\program files (x86)"@,
                "c:\\programdata"@,
                "c:\\$recycle.bin"@,
                "c:\\system volume information"@,
            ],
            Platform::Linux => seq![
                "/bin"@,
                "/boot"@,
                "/dev"@,
                "/etc"@,
                "/lib"@,
                "/lib64"@,
                "/proc"@,
                "/root"@,
                "/sbin"@,
                "/sys"@,
                "/usr"@,
                "/var"@,
            ],
            Platform::Other => seq![],
        }
    }

    /// Whether the platform compares paths without regard to case. Its
    /// deny-list is then written in lowercase.
    pub open spec fn ignores_case(self) -> bool {
        self == Platform::Windows
    }

    /// The form in which a path is held against the deny-list.
    pub open spec fn comparable(self, path: Seq<char>) -> Seq<char> {
        if self.ignores_case() {
            lowercased(path)
        } else {
            path
        }
    }
}

/// `path` begins with one of the texts in `prefixes`.
pub open spec fn begins_with_any(path: Seq<char>, prefixes: Seq<Seq<char>>) -> bool {
    exists|i: int| 0 <= i < prefixes.len() && (#[trigger] prefixes[i]).is_prefix_of(path)
}

/// `path` lies under a directory of the operating system of `platform`.
pub open spec fn spec_is_system_directory(platform: Platform, path: Seq<char>) -> bool {
    begins_with_any(platform.comparable(path), platform.blocked_prefixes())
}

/// Whether an entry name carries the hidden-file marker, a leading `.`.
pub open spec fn spec_is_hidden(name: Seq<char>) -> bool {
    name.len() > 0 && name[0] == '.'
}

/// The deny-list of `platform`.
pub fn blocked_prefixes(platform: Platform) -> (prefixes: Vec<&'static str>)
    ensures
        prefixes.len() == platform.blocked_prefixes().len(),
        forall|i: int| 0 <= i < prefixes.len() ==> prefixes[i]@ == platform.blocked_prefixes()[i],
{
    match platform {
        Platform::MacOs => vec![
            "/System",
            "/Library",
            "/usr",
            "/bin",
            "/sbin",
            "/etc",
            "/var",
            "/private",
            "/cores",
            "/dev",
        ],
        Platform::Windows => vec![
            "c:\\windows",
            "c:\\program files",
            "c:\\program files (x86)",
            "c:\\programdata",
            "c:\\$recycle.bin",
            "c:\\system volume information",
        ],
        Platform::Linux => vec![
            "/bin",
            "/boot",
            "/dev",
            "/etc",
            "/lib",
            "/lib64",
            "/proc",
            "/root",
            "/sbin",
            "/sys",
            "/usr",
            "/var",
        ],
        Platform::Other => vec![],
    }
}

/// Tells whether `path`, already in the form that the platform compares,
/// begins with an entry of the platform's deny-list.
pub fn begins_with_blocked_prefix(platform: Platform, path: &str) -> (blocked: bool)
    ensures
        blocked == begins_with_any(path@, platform.blocked_prefixes()),
{
    let prefixes = blocked_prefixes(platform);
    let mut i: usize = 0;
    while i < prefixes.len()
        invariant
            i <= prefixes.len(),
            prefixes.len() == platform.blocked_prefixes().len(),
            forall|k: int|
                0 <= k < prefixes.len() ==> prefixes[k]@ == platform.blocked_prefixes()[k],
            forall|k: int|
                0 <= k < i ==> !(#[trigger] platform.blocked_prefixes()[k]).is_prefix_of(path@),
        decreases prefixes.len() - i,
    {
        if starts_with(path, prefixes[i]) {
            assert(platform.blocked_prefixes()[i as int].is_prefix_of(path@));
            return true;
        }
        i += 1;
    }
    false
}

/// Tells whether `path` lies under a directory of the operating system, which
/// must not be offered for exploring. The test is one of text: the path
/// begins with an entry of the platform's deny-list, after folding to
/// lowercase where the platform ignores case.
pub fn is_system_directory(platform: Platform, path: &str) -> (blocked: bool)
    ensures
        blocked == spec_is_system_directory(platform, path@),
{
    match platform {
        Platform::Windows => {
            let folded = to_lowercase(path);
            begins_with_blocked_prefix(platform, folded.as_str())
        },
        _ => begins_with_blocked_prefix(platform, path),
    }
}

/// Tells whether the entry name `name` is hidden: whether it starts with `.`.
pub fn is_hidden(name: &str) -> (hidden: bool)
    ensures
        hidden == spec_is_hidden(name@),
{
    let mut chars = name.chars();
    match chars.next() {
        Some(c) => c == '.',
        None => false,
    }
}

/// Every path under an entry of the deny-list is blocked: every path that,
/// in the form that the platform compares, begins with the entry.
pub proof fn lemma_paths_under_deny_list_are_blocked(platform: Platform, i: int, path: Seq<char>)
    requires
        0 <= i < platform.blocked_prefixes().len(),
        platform.blocked_prefixes()[i].is_prefix_of(platform.comparable(path)),
    ensures
        spec_is_system_directory(platform, path),
{
}

/// Where the platform compares paths as they are written, an entry of the
/// deny-list blocks itself and every text that continues it.
pub proof fn lemma_deny_list_entries_block_what_continues_them(
    platform: Platform,
    i: int,
    rest: Seq<char>,
)
    requires
        !platform.ignores_case(),
        0 <= i < platform.blocked_prefixes().len(),
    ensures
        spec_is_system_directory(platform, platform.blocked_prefixes()[i] + rest),
{
    let prefix = platform.blocked_prefixes()[i];
    assert((prefix + rest).subrange(0, prefix.len() as int) =~= prefix);
}

/// Judges what a folder prompt returned: no selection stays no selection, a
/// directory of the operating system is refused, any other path is accepted.
pub fn accept_selection(platform: Platform, selection: Option<String>) -> (accepted: Result<
    Option<String>,
    ExplorerError,
>)
    ensures
        match selection {
            None => accepted == Ok::<Option<String>, ExplorerError>(None),
            Some(path) => if spec_is_system_directory(platform, path@) {
                accepted == Err::<Option<String>, ExplorerError>(
                    ExplorerError::SystemDirectoryBlocked,
                )
            } else {
                accepted == Ok::<Option<String>, ExplorerError>(Some(path))
            },
        },
{
    match selection {
        None => Ok(None),
        Some(path) => {
            if is_system_directory(platform, path.as_str()) {
                Err(ExplorerError::SystemDirectoryBlocked)
            } else {
                Ok(Some(path))
            }
        },
    }
}

} // verus!
