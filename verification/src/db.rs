//! Where the compendium is kept.

use vstd::prelude::*;
use vstd::string::*;

verus! {

/// The name of the database that holds the compendium.
pub const DATABASE_NAME: &'static str = "5e-database";

/// The address of the document store at `addr` as a connection string:
/// connecting and selecting a server each give up after two seconds.
pub open spec fn url_of(addr: Seq<char>) -> Seq<char> {
    "mongodb://"@ + addr + "/?connectTimeoutMS=2000&serverSelectionTimeoutMS=2000"@
}

/// Writes the connection string for the document store at `addr`.
pub fn connection_url(addr: &str) -> (url: String)
    ensures
        url@ == url_of(addr@),
{
    let mut url = String::from_str("mongodb://");
    url.append(addr);
    url.append("/?connectTimeoutMS=2000&serverSelectionTimeoutMS=2000");
    url
}

} // verus!
