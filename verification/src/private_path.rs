//! Which files and directories are private enough for a database.

use vstd::prelude::*;

use crate::text::joined3;

verus! {

/// What a path is for.
#[derive(Debug, Clone, Copy, PartialEq, Eq, Structural)]
pub enum PathRole {
    /// The directory that holds a database.
    Directory,
    /// A database or one of its companions.
    DatabaseFile,
}

/// What the file system says of a path, without following links.
#[derive(Debug, Clone, Copy, PartialEq, Eq, Structural)]
pub struct PathFacts {
    pub is_symlink: bool,
    pub is_dir: bool,
    pub is_file: bool,
    pub owned_by_user: bool,
}

/// Why a path is not private.
#[derive(Debug, Clone, Copy, PartialEq, Eq, Structural)]
pub enum PathFault {
    NotARealDirectory,
    NotARegularFile,
    ForeignOwner,
}

impl PathRole {
    /// The permissions that a private path has: its owner's alone.
    pub open spec fn mode_spec(self) -> u32 {
        match self {
            PathRole::Directory => 0o700,
            PathRole::DatabaseFile => 0o600,
        }
    }

    /// The permissions that a private path has: its owner's alone.
    pub fn mode(self) -> (m: u32)
        ensures
            m == self.mode_spec(),
    {
        match self {
            PathRole::Directory => 0o700,
            PathRole::DatabaseFile => 0o600,
        }
    }
}

/// Private permissions give nobody but the owner any right.
pub proof fn private_modes_exclude_others(role: PathRole)
    ensures
        role.mode_spec() & 0o077 == 0,
        role.mode_spec() & 0o400 == 0o400,
{
    assert(0o700u32 & 0o077 == 0 && 0o600u32 & 0o077 == 0) by (bit_vector);
    assert(0o700u32 & 0o400 == 0o400 && 0o600u32 & 0o400 == 0o400) by (bit_vector);
}

/// What is wrong with a path, if anything: its kind decides, then its owner.
pub open spec fn path_fault(role: PathRole, facts: PathFacts) -> Option<PathFault> {
    if role == PathRole::Directory && (facts.is_symlink || !facts.is_dir) {
        Some(PathFault::NotARealDirectory)
    } else if role == PathRole::DatabaseFile && (facts.is_symlink || !facts.is_file) {
        Some(PathFault::NotARegularFile)
    } else if !facts.owned_by_user {
        Some(PathFault::ForeignOwner)
    } else {
        None
    }
}

/// Refuses a path that is not private.
pub fn check_private_path(role: PathRole, facts: PathFacts) -> (r: Result<(), PathFault>)
    ensures
        r == match path_fault(role, facts) {
            Some(fault) => Err::<(), PathFault>(fault),
            None => Ok(()),
        },
{
    match role {
        PathRole::Directory => {
            if facts.is_symlink || !facts.is_dir {
                return Err(PathFault::NotARealDirectory);
            }
        },
        PathRole::DatabaseFile => {
            if facts.is_symlink || !facts.is_file {
                return Err(PathFault::NotARegularFile);
            }
        },
    }
    if !facts.owned_by_user {
        return Err(PathFault::ForeignOwner);
    }
    Ok(())
}

/// A path is private exactly where it is no link, is a directory or a regular file
/// as its role asks, and belongs to the user. A path of the wrong kind is told
/// apart from one of a foreign owner, whoever owns it.
pub proof fn private_paths_are_real_and_owned(role: PathRole, facts: PathFacts)
    ensures
        role is Directory ==> (path_fault(role, facts) is None <==> !facts.is_symlink
            && facts.is_dir && facts.owned_by_user),
        role is DatabaseFile ==> (path_fault(role, facts) is None <==> !facts.is_symlink
            && facts.is_file && facts.owned_by_user),
        role is Directory && (facts.is_symlink || !facts.is_dir) <==> path_fault(role, facts)
            == Some(PathFault::NotARealDirectory),
        role is DatabaseFile && (facts.is_symlink || !facts.is_file) <==> path_fault(role, facts)
            == Some(PathFault::NotARegularFile),
        path_fault(role, facts) == Some(PathFault::ForeignOwner) ==> !facts.owned_by_user
            && !facts.is_symlink,
{
}

/// A database's family is the database itself and the names that SQLite gives its
/// write-ahead log and its shared memory, in that order.
pub proof fn families_have_three_names(name: Seq<char>)
    ensures
        family_names(name).len() == 3,
        family_names(name)[0] == name,
        family_names(name)[1] == name + seq!['-', 'w', 'a', 'l'],
        family_names(name)[2] == name + seq!['-', 's', 'h', 'm'],
{
    reveal_strlit("-wal");
    reveal_strlit("-shm");
    assert("-wal"@ =~= seq!['-', 'w', 'a', 'l']);
    assert("-shm"@ =~= seq!['-', 's', 'h', 'm']);
}

/// A directory can be listed, changed and entered by its owner, a file read and
/// written.
pub proof fn owners_keep_their_rights()
    ensures
        PathRole::Directory.mode_spec() == 7 * 64,
        PathRole::DatabaseFile.mode_spec() == 6 * 64,
{
}

/// The reason that a fault gives.
pub open spec fn fault_reason(fault: PathFault) -> Seq<char> {
    match fault {
        PathFault::NotARealDirectory => "private SQLite parent is not a real directory"@,
        PathFault::NotARegularFile => "SQLite family member is not a regular file"@,
        PathFault::ForeignOwner => "SQLite path is not owned by the current user"@,
    }
}

impl PathFault {
    /// The message of a refused path.
    pub fn message(self, path: &str) -> (s: String)
        ensures
            s@ == fault_reason(self) + ": "@ + path@,
    {
        let reason = match self {
            PathFault::NotARealDirectory => "private SQLite parent is not a real directory",
            PathFault::NotARegularFile => "SQLite family member is not a regular file",
            PathFault::ForeignOwner => "SQLite path is not owned by the current user",
        };
        joined3(reason, ": ", path)
    }
}

/// A database, its write-ahead log and its shared memory.
pub open spec fn family_names(name: Seq<char>) -> Seq<Seq<char>> {
    seq![name, name + "-wal"@, name + "-shm"@]
}

/// The suffixes of a database's companions, its own first.
pub fn family_suffixes() -> (r: [&'static str; 3])
    ensures
        r@.len() == 3,
        forall|name: Seq<char>, i: int|
            0 <= i < 3 ==> #[trigger] family_names(name)[i] == name + #[trigger] r@[i]@,
{
    let r = ["", "-wal", "-shm"];
    proof {
        reveal_strlit("");
        assert forall|name: Seq<char>, i: int| 0 <= i < 3 implies #[trigger] family_names(name)[i]
            == name + #[trigger] r@[i]@ by {
            assert(name + ""@ =~= name);
        }
    }
    r
}

/// A refusal says what was wrong with the path and then which path it was: a
/// directory, a file or an owner, each in words of its own.
pub proof fn refused_paths_are_named(fault: PathFault, path: Seq<char>, message: Seq<char>)
    requires
        message == fault_reason(fault) + ": "@ + path,
    ensures
        message.len() >= path.len() + 2,
        message.skip(message.len() - path.len()) == path,
        fault == PathFault::NotARealDirectory <==> fault_reason(fault)
            == "private SQLite parent is not a real directory"@,
        fault == PathFault::NotARegularFile <==> fault_reason(fault)
            == "SQLite family member is not a regular file"@,
        fault == PathFault::ForeignOwner <==> fault_reason(fault)
            == "SQLite path is not owned by the current user"@,
{
    reveal_strlit(": ");
    reveal_strlit("private SQLite parent is not a real directory");
    reveal_strlit("SQLite family member is not a regular file");
    reveal_strlit("SQLite path is not owned by the current user");
    assert(message.skip(message.len() - path.len()) =~= path);
    assert("private SQLite parent is not a real directory"@[0] == 'p');
    assert("SQLite family member is not a regular file"@[7] == 'f');
    assert("SQLite path is not owned by the current user"@[7] == 'p');
    assert("SQLite path is not owned by the current user"@[0] == 'S');
    assert("SQLite family member is not a regular file"@[0] == 'S');
}

} // verus!
