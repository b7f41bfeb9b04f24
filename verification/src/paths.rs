//! Where ScreenHistory keeps and finds its files, as paths under the user's
//! home directory.
//!
//! Paths are held as text; joining follows `PathBuf::join` on Unix.

use vstd::prelude::*;

verus! {

/// Why a default path could not be made.
#[derive(Clone, Copy, Debug, PartialEq, Eq, Structural)]
pub enum PathError {
    /// No home directory could be determined ("Could not determine user directories").
    NoHomeDirectory,
}

/// The file name of the local history database in the home directory.
pub const LOCAL_DB_FILE_NAME: &'static str = ".screenhistory.sqlite";

/// `base` joined with `part` the way `PathBuf::join` does on Unix: an
/// absolute `part` replaces `base`; otherwise a `/` is put between them when
/// `base` is not empty and does not already end in `/`.
pub open spec fn joined(base: Seq<char>, part: Seq<char>) -> Seq<char> {
    if part.len() > 0 && part[0] == '/' {
        part
    } else if base.len() > 0 && base.last() != '/' {
        base + "/"@ + part
    } else {
        base + part
    }
}

/// Joins `part` onto the path `base`.
pub fn join_path(base: &str, part: &str) -> (r: String)
    ensures
        r@ == joined(base@, part@),
{
    let plen = part.unicode_len();
    if plen > 0 && part.get_char(0) == '/' {
        return String::from_str(part);
    }
    let blen = base.unicode_len();
    let mut r = String::from_str(base);
    if blen > 0 && base.get_char(blen - 1) != '/' {
        r.append("/");
    }
    r.append(part);
    r
}

/// `~/.screenhistory.sqlite` for the home directory `home`.
pub open spec fn local_db_path_of(home: Seq<char>) -> Seq<char> {
    joined(home, LOCAL_DB_FILE_NAME@)
}

/// `~/Library/Application Support/Knowledge/knowledgeC.db` for the home
/// directory `home`.
pub open spec fn knowledge_db_path_of(home: Seq<char>) -> Seq<char> {
    joined(
        joined(joined(joined(home, "Library"@), "Application Support"@), "Knowledge"@),
        "knowledgeC.db"@,
    )
}

/// The local history database in the home directory `home`.
pub fn local_db_path_in(home: &str) -> (r: String)
    ensures
        r@ == local_db_path_of(home@),
{
    join_path(home, LOCAL_DB_FILE_NAME)
}

/// Apple's Screen Time database in the home directory `home`.
pub fn knowledge_db_path_in(home: &str) -> (r: String)
    ensures
        r@ == knowledge_db_path_of(home@),
{
    let library = join_path(home, "Library");
    let support = join_path(library.as_str(), "Application Support");
    let knowledge = join_path(support.as_str(), "Knowledge");
    join_path(knowledge.as_str(), "knowledgeC.db")
}

/// The user's home directory, from `directories::BaseDirs::new()` and
/// `BaseDirs::home_dir()`, as text (`Path::to_string_lossy`). `None` when the
/// crate finds no home directory. Of the value only this is claimed: it is not
/// empty (the crate skips an empty `$HOME` and an empty password-database
/// entry); it comes from the environment or the password database.
#[verifier::external_body]
fn home_directory() -> (r: Option<String>)
    ensures
        r matches Some(h) ==> h@.len() > 0,
{
    match directories::BaseDirs::new() {
        Some(dirs) => Some(dirs.home_dir().to_string_lossy().into_owned()),
        None => None,
    }
}

/// The default local database path: `~/.screenhistory.sqlite`.
pub fn default_local_db_path() -> (r: Result<String, PathError>)
    ensures
        r matches Ok(p) ==> exists|home: Seq<char>|
            home.len() > 0 && p@ == local_db_path_of(home),
        r matches Err(e) ==> e == PathError::NoHomeDirectory,
{
    match home_directory() {
        Some(home) => Ok(local_db_path_in(home.as_str())),
        None => Err(PathError::NoHomeDirectory),
    }
}

/// The default path of Apple's Screen Time database:
/// `~/Library/Application Support/Knowledge/knowledgeC.db`.
pub fn default_knowledge_db_path() -> (r: Result<String, PathError>)
    ensures
        r matches Ok(p) ==> exists|home: Seq<char>|
            home.len() > 0 && p@ == knowledge_db_path_of(home),
        r matches Err(e) ==> e == PathError::NoHomeDirectory,
{
    match home_directory() {
        Some(home) => Ok(knowledge_db_path_in(home.as_str())),
        None => Err(PathError::NoHomeDirectory),
    }
}

/// `~/Library/LaunchAgents` for the home directory `home`.
pub open spec fn launch_agents_dir_of(home: Seq<char>) -> Seq<char> {
    joined(joined(home, "Library"@), "LaunchAgents"@)
}

/// The directory of the user's LaunchAgents, `~/Library/LaunchAgents`.
pub fn launch_agents_dir(home: &str) -> (r: String)
    ensures
        r@ == launch_agents_dir_of(home@),
{
    let library = join_path(home, "Library");
    join_path(library.as_str(), "LaunchAgents")
}

/// The property list of the agent `label`:
/// `~/Library/LaunchAgents/<label>.plist`.
pub fn plist_path_for_label(home: &str, label: &str) -> (r: String)
    ensures
        r@ == joined(launch_agents_dir_of(home@), label@ + ".plist"@),
{
    let dir = launch_agents_dir(home);
    let mut file = String::from_str(label);
    file.append(".plist");
    join_path(dir.as_str(), file.as_str())
}

/// `~/Library/Logs/screenhistory` for the home directory `home`.
pub open spec fn log_dir_of(home: Seq<char>) -> Seq<char> {
    joined(joined(joined(home, "Library"@), "Logs"@), "screenhistory"@)
}

/// The directory that holds the sync log, `~/Library/Logs/screenhistory`.
pub fn log_dir(home: &str) -> (r: String)
    ensures
        r@ == log_dir_of(home@),
{
    let library = join_path(home, "Library");
    let logs = join_path(library.as_str(), "Logs");
    join_path(logs.as_str(), "screenhistory")
}

/// The default sync log, `~/Library/Logs/screenhistory/sync.log`, in the
/// log directory `dir`.
pub fn log_file_in(dir: &str) -> (r: String)
    ensures
        r@ == joined(dir@, "sync.log"@),
{
    join_path(dir, "sync.log")
}

} // verus!
