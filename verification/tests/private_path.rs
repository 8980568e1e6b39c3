//! Private databases and their names.

use ditto::private_path::{
    check_private_path, family_suffixes, PathFacts, PathFault, PathRole,
};
use ditto::projection::checkpoint::{check_database, CONTEXT_PROJECTION_DATABASE_FILENAME};
use ditto::projection::error::ContextProjectionError;

const FILE: PathFacts =
    PathFacts { is_symlink: false, is_dir: false, is_file: true, owned_by_user: true };
const DIRECTORY: PathFacts =
    PathFacts { is_symlink: false, is_dir: true, is_file: false, owned_by_user: true };

#[test]
fn only_real_files_and_directories_of_the_user_are_private() {
    assert_eq!(check_private_path(PathRole::DatabaseFile, FILE), Ok(()));
    assert_eq!(check_private_path(PathRole::Directory, DIRECTORY), Ok(()));
    assert_eq!(
        check_private_path(PathRole::DatabaseFile, DIRECTORY),
        Err(PathFault::NotARegularFile)
    );
    assert_eq!(
        check_private_path(PathRole::Directory, FILE),
        Err(PathFault::NotARealDirectory)
    );
    let link = PathFacts { is_symlink: true, ..DIRECTORY };
    assert_eq!(
        check_private_path(PathRole::Directory, link),
        Err(PathFault::NotARealDirectory)
    );
    let foreign = PathFacts { owned_by_user: false, ..FILE };
    assert_eq!(
        check_private_path(PathRole::DatabaseFile, foreign),
        Err(PathFault::ForeignOwner)
    );
    assert_eq!(
        PathFault::ForeignOwner.message("/srv/a.db"),
        "SQLite path is not owned by the current user: /srv/a.db"
    );
    assert_eq!(PathRole::Directory.mode(), 0o700);
    assert_eq!(PathRole::DatabaseFile.mode(), 0o600);
    assert_eq!(family_suffixes(), ["", "-wal", "-shm"]);
}

#[test]
fn the_projection_never_opens_the_journal() {
    let collision = Err(ContextProjectionError::SourceDatabaseCollision);
    let named = |name: &str| check_database(&Some(name.to_owned()), false);
    assert_eq!(named("state.db"), collision);
    assert_eq!(named("State.DB"), collision);
    assert_eq!(named("state.db "), Ok(()));
    assert_eq!(named("\u{17F}tate.db"), Ok(()));
    assert_eq!(named(CONTEXT_PROJECTION_DATABASE_FILENAME), Ok(()));
    assert_eq!(check_database(&None, true), collision);
    assert_eq!(check_database(&None, false), Ok(()));
}
