//! The settings with which the program is started.

use vstd::prelude::*;
use vstd::string::StringExecFns;

verus! {

/// Where the program keeps its data.
#[derive(Clone, Debug, PartialEq, Eq)]
pub struct Args {
    /// Directory of the messaging client's own database.
    pub tg_database_directory: String,
    /// Path of the store of the rows.
    pub database_path: String,
}

impl Default for Args {
    fn default() -> (args: Args)
        ensures
            args.tg_database_directory@ == "db_me"@,
            args.database_path@ == "db.sqlite"@,
    {
        Args {
            tg_database_directory: String::from_str("db_me"),
            database_path: String::from_str("db.sqlite"),
        }
    }
}

} // verus!
