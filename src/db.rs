//! Where the store lives.
use vstd::prelude::*;

verus! {

/// The address of the store and the database in it.
#[derive(Clone, Debug)]
pub struct ConnectionOpts {
    pub mongo_uri: String,
    pub mongo_database: String,
}

} // verus!
