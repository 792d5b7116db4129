use vstd::prelude::*;
use vstd::string::StringSliceAdditionalSpecFns;

verus! {

/// The command line: one subcommand.
pub struct Cli {
    pub command: Commands,
}

/// The subcommands of the command line.
pub enum Commands {
    /// Start the proxy server on `port`.
    Start { port: u16 },
    /// Stop the proxy server.
    Stop,
    /// Add an API key for the active provider.
    Add { name: String, key: String },
    /// Remove an API key, or all of them, from the active provider.
    Remove { name: Option<String>, all: bool },
    /// List the API keys of the active provider.
    List,
    /// Set the chat model.
    Model { model: String },
    /// Set the embedding model.
    Embed { model: String },
    /// Set the active provider, or list the supported ones.
    Provider { provider: Option<String>, list: bool },
    /// Show the configuration.
    Info,
    /// Update the installed binary.
    Update,
}

/// The port that `start` listens on when none is given.
pub const DEFAULT_PORT: u16 = 11500;

/// The masked form of an API key: five stars, then, for a key of at least
/// eight bytes, its last three bytes.
pub fn mask_key(key: &str) -> (r: String)
    requires
        key.spec_bytes().len() <= usize::MAX,
        key.spec_bytes().len() >= 8 ==> vstd::utf8::is_char_boundary(key.spec_bytes(), key.spec_bytes().len() - 3),
    ensures
        r@.len() >= 5,
        r@.take(5) == "*****"@,
        key.spec_bytes().len() < 8 ==> r@ == "*****"@,
        key.spec_bytes().len() >= 8 ==> vstd::utf8::encode_utf8(r@.skip(5))
            == key.spec_bytes().subrange(key.spec_bytes().len() - 3, key.spec_bytes().len() as int),
{
    proof {
        reveal_strlit("*****");
    }
    let n = key.len();
    if n < 8 {
        return String::from_str("*****");
    }
    let (_, tail) = key.split_at(n - 3);
    let mut r = String::from_str("*****");
    r.append(tail);
    assert(r@.skip(5) =~= tail@);
    assert(tail.spec_bytes() == vstd::utf8::encode_utf8(tail@));
    assert(r@.take(5) =~= "*****"@);
    r
}

/// What `remove` does: delete every key of the provider, or the one named, or
/// fail for want of either.
#[derive(Debug)]
pub enum Removal {
    All,
    One(String),
}

/// What `remove` with these options does; without `--all` a name is needed.
pub fn removal(name: Option<String>, all: bool) -> (r: Result<Removal, String>)
    ensures
        all ==> r matches Ok(Removal::All),
        !all ==> match name {
            Some(n) => r matches Ok(Removal::One(m)) && m == n,
            None => r matches Err(e) && e@ == "provide --name or --all"@,
        },
{
    if all {
        return Ok(Removal::All);
    }
    match name {
        Some(n) => Ok(Removal::One(n)),
        None => Err(String::from_str("provide --name or --all")),
    }
}

/// The release tag of a build version: the version itself when it starts
/// with `v`, else the version with `v` in front.
pub open spec fn release_tag(version: Seq<char>) -> Seq<char> {
    if version.len() > 0 && version[0] == 'v' { version } else { seq!['v'] + version }
}

/// The release tag of a build version.
pub fn release_tag_of(version: &str) -> (r: String)
    ensures
        r@ == release_tag(version@),
{
    let cs = crate::text::chars_of(version);
    if cs.len() > 0 && cs[0] == 'v' {
        return String::from_str(version);
    }
    let mut r = String::from_str("v");
    r.append(version);
    proof {
        reveal_strlit("v");
        assert("v"@ =~= seq!['v']);
    }
    r
}

/// The release artifact built for an operating system and architecture.
pub open spec fn artifact_name(os: Seq<char>, arch: Seq<char>) -> Option<Seq<char>> {
    if os == "linux"@ && arch == "x86_64"@ {
        Some("nimbox-linux-x86_64"@)
    } else if os == "linux"@ && arch == "aarch64"@ {
        Some("nimbox-linux-aarch64"@)
    } else if os == "macos"@ && arch == "x86_64"@ {
        Some("nimbox-macos-x86_64"@)
    } else if os == "macos"@ && arch == "aarch64"@ {
        Some("nimbox-macos-aarch64"@)
    } else {
        None
    }
}

/// The release artifact for a platform, or the error that names the platform.
pub fn artifact_for(os: &str, arch: &str) -> (r: Result<&'static str, String>)
    ensures
        match r {
            Ok(a) => artifact_name(os@, arch@) == Some(a@),
            Err(e) => artifact_name(os@, arch@) is None && e@ == "Unsupported platform: "@ + os@ + "/"@ + arch@,
        },
{
    let linux = crate::text::str_eq(os, "linux");
    let macos = crate::text::str_eq(os, "macos");
    let x86 = crate::text::str_eq(arch, "x86_64");
    let arm = crate::text::str_eq(arch, "aarch64");
    if linux && x86 {
        Ok("nimbox-linux-x86_64")
    } else if linux && arm {
        Ok("nimbox-linux-aarch64")
    } else if macos && x86 {
        Ok("nimbox-macos-x86_64")
    } else if macos && arm {
        Ok("nimbox-macos-aarch64")
    } else {
        let mut e = String::from_str("Unsupported platform: ");
        e.append(os);
        e.append("/");
        e.append(arch);
        Err(e)
    }
}

} // verus!
