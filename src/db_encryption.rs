//! The key of the encrypted database: where it is kept and when a new one
//! is made.
use vstd::prelude::*;
use vstd::string::StringExecFns;

verus! {

/// A database key: 32 bytes, for AES-256.
pub type DbKey = [u8; 32];

/// The path name of the in-memory database, which has no key file.
pub open spec fn in_memory_path() -> Seq<char> {
    seq![':', 'm', 'e', 'm', 'o', 'r', 'y', ':']
}

/// The key file of a database: its path with `.key` appended.
pub fn get_key_file_path(db_path: &str) -> (r: String)
    ensures
        r@ == db_path@ + seq!['.', 'k', 'e', 'y'],
{
    let mut r = String::from_str(db_path);
    proof {
        reveal_strlit(".key");
    }
    r.append(".key");
    r
}

/// A fresh random database key.
pub fn generate_db_key() -> (r: DbKey) {
    rand::random::<[u8; 32]>()
}

/// The key a database is to be opened with, and whether it must be written
/// to the key file.
#[derive(Debug, Clone, Copy)]
pub struct DbKeyChoice {
    pub key: DbKey,
    pub store: bool,
}

/// Chooses the key of the database at `db_path`, given the key read from
/// its key file, if one could be read: that key, or else a fresh one that
/// is to be stored, except for the in-memory database.
pub fn get_or_create_db_key(db_path: &str, stored: Option<DbKey>) -> (r: DbKeyChoice)
    ensures
        match stored {
            Some(k) => r.key == k && !r.store,
            None => r.store == (db_path@ != in_memory_path()),
        },
{
    match stored {
        Some(key) => DbKeyChoice { key, store: false },
        None => {
            let key = generate_db_key();
            let memory = String::from_str(":memory:");
            proof {
                reveal_strlit(":memory:");
            }
            assert(memory@ =~= in_memory_path());
            let path = String::from_str(db_path);
            DbKeyChoice { key, store: !(path == memory) }
        },
    }
}

} // verus!
