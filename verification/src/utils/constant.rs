//! Fixed locations of the process-owned files, relative to a base
//! directory that the caller resolves (normally the user's home).
use vstd::prelude::*;
use vstd::string::StringExecFns;

verus! {

/// Base of every message link.
pub const TELEGRAM_URL: &'static str = "https://t.me/";

/// `a` with `b` appended after a single separating slash.
pub open spec fn spec_path_join(a: Seq<char>, b: Seq<char>) -> Seq<char> {
    a + seq!['/'] + b
}

/// The directory that holds every file this process owns, under the
/// given home directory.
pub fn data_root_path(home: &str) -> (r: String)
    ensures
        r@ == spec_path_join(spec_path_join(home@, ".local"@), "marsbot"@),
{
    let mut s = home.to_owned();
    s.append("/.local/marsbot");
    proof {
        reveal_strlit("/.local/marsbot");
        reveal_strlit(".local");
        reveal_strlit("marsbot");
        assert(s@ =~= spec_path_join(spec_path_join(home@, ".local"@), "marsbot"@));
    }
    s
}

/// The configuration file inside the data directory.
pub fn config_path(data_root: &str) -> (r: String)
    ensures
        r@ == spec_path_join(data_root@, "config.toml"@),
{
    let mut s = data_root.to_owned();
    s.append("/config.toml");
    proof {
        reveal_strlit("/config.toml");
        reveal_strlit("config.toml");
        assert(s@ =~= spec_path_join(data_root@, "config.toml"@));
    }
    s
}

/// The store's directory inside the data directory.
pub fn db_path(data_root: &str) -> (r: String)
    ensures
        r@ == spec_path_join(data_root@, "db"@),
{
    let mut s = data_root.to_owned();
    s.append("/db");
    proof {
        reveal_strlit("/db");
        reveal_strlit("db");
        assert(s@ =~= spec_path_join(data_root@, "db"@));
    }
    s
}

} // verus!
