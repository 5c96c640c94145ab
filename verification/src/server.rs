//! Server address resolution: mapping a short server nickname to a full
//! base URL, from the configured nicknames and the built-in defaults, and
//! building the schema request URL.

use vstd::prelude::*;

use crate::text::eq_str;

verus! {

/// One configured server nickname with its protocol and host.
pub struct ServerConfig {
    pub nickname: String,
    pub protocol: String,
    pub host: String,
}

/// `s` starts with the prefix `p`.
pub open spec fn spec_starts_with(s: Seq<char>, p: Seq<char>) -> bool {
    s.len() >= p.len() && s.subrange(0, p.len() as int) == p
}

/// Executable prefix test.
pub fn str_starts_with(s: &str, p: &str) -> (r: bool)
    ensures
        r == spec_starts_with(s@, p@),
{
    let sl = s.unicode_len();
    let pl = p.unicode_len();
    if sl < pl {
        return false;
    }
    let mut i: usize = 0;
    while i < pl
        invariant
            sl == s@.len(),
            pl == p@.len(),
            pl <= sl,
            i <= pl,
            forall|k: int| 0 <= k < i ==> s@[k] == p@[k],
        decreases pl - i,
    {
        if s.get_char(i) != p.get_char(i) {
            assert(s@.subrange(0, pl as int)[i as int] != p@[i as int]);
            return false;
        }
        i += 1;
    }
    assert(s@.subrange(0, pl as int) =~= p@);
    true
}

/// The position of the first configuration whose nickname is `server`,
/// or `-1`.
pub open spec fn spec_first_config_match(cs: Seq<ServerConfig>, server: Seq<char>) -> int
    decreases cs.len(),
{
    if cs.len() == 0 {
        -1
    } else if cs[0].nickname@ == server {
        0
    } else {
        let r = spec_first_config_match(cs.drop_first(), server);
        if r == -1 {
            -1
        } else {
            r + 1
        }
    }
}

/// The base URL that a server argument resolves to: a full URL passes
/// through; a configured nickname gives `protocol://host`; the built-in
/// nicknames give their defaults; anything else is prefixed with
/// `http://`.
pub open spec fn spec_resolve_server(server: Seq<char>, cs: Seq<ServerConfig>) -> Seq<char> {
    if spec_starts_with(server, "http://"@) || spec_starts_with(server, "https://"@) {
        server
    } else {
        let f = spec_first_config_match(cs, server);
        if f != -1 {
            cs[f].protocol@ + "://"@ + cs[f].host@
        } else if server == "local"@ {
            "http://localhost:3000"@
        } else if server == "cloud"@ || server == "maincloud"@ {
            "https://maincloud.spacetimedb.com"@
        } else {
            "http://"@ + server
        }
    }
}

/// Resolve a server argument to its base URL.
pub fn resolve_server_url(server: &str, configs: &Vec<ServerConfig>) -> (r: String)
    ensures
        r@ == spec_resolve_server(server@, configs@),
{
    if str_starts_with(server, "http://") || str_starts_with(server, "https://") {
        return String::from_str(server);
    }
    let n = configs.len();
    let mut i: usize = 0;
    while i < n
        invariant
            n == configs@.len(),
            i <= n,
            !spec_starts_with(server@, "http://"@),
            !spec_starts_with(server@, "https://"@),
            forall|k: int| 0 <= k < i ==> (#[trigger] configs@[k]).nickname@ != server@,
        decreases n - i,
    {
        let c = &configs[i];
        if eq_str(c.nickname.as_str(), server) {
            proof {
                lemma_first_config_match(configs@, server@);
                let f = spec_first_config_match(configs@, server@);
                assert(f != -1) by {
                    if f == -1 {
                        assert(configs@[i as int].nickname@ != server@);
                    }
                }
                assert(f <= i as int);
                assert(i as int <= f);
            }
            let mut s = c.protocol.clone();
            s.append("://");
            s.append(c.host.as_str());
            proof {
                assert(!spec_starts_with(server@, "http://"@));
                assert(!spec_starts_with(server@, "https://"@));
                let f = spec_first_config_match(configs@, server@);
                assert(f == i as int);
                assert(s@ =~= configs@[i as int].protocol@ + "://"@ + configs@[i as int].host@);
                assert(spec_resolve_server(server@, configs@) == configs@[f].protocol@ + "://"@
                    + configs@[f].host@);
            }
            return s;
        }
        i += 1;
    }
    proof {
        lemma_first_config_match(configs@, server@);
        let f = spec_first_config_match(configs@, server@);
        if f != -1 {
            assert(configs@[f].nickname@ == server@);
        }
    }
    if eq_str(server, "local") {
        String::from_str("http://localhost:3000")
    } else if eq_str(server, "cloud") || eq_str(server, "maincloud") {
        String::from_str("https://maincloud.spacetimedb.com")
    } else {
        let mut s = String::from_str("http://");
        s.append(server);
        s
    }
}

/// Characterization of [`spec_first_config_match`].
proof fn lemma_first_config_match(cs: Seq<ServerConfig>, server: Seq<char>)
    ensures
        spec_first_config_match(cs, server) == -1 ==> forall|k: int|
            0 <= k < cs.len() ==> (#[trigger] cs[k]).nickname@ != server,
        spec_first_config_match(cs, server) != -1 ==> {
            &&& 0 <= spec_first_config_match(cs, server) < cs.len()
            &&& cs[spec_first_config_match(cs, server)].nickname@ == server
            &&& forall|k: int|
                0 <= k < spec_first_config_match(cs, server) ==> (#[trigger] cs[k]).nickname@
                    != server
        },
    decreases cs.len(),
{
    if cs.len() > 0 && cs[0].nickname@ != server {
        lemma_first_config_match(cs.drop_first(), server);
        assert(forall|k: int| 1 <= k < cs.len() ==> cs[k] == cs.drop_first()[k - 1]);
    }
}

/// The effective server argument: the cloud flag forces the `cloud`
/// nickname.
pub fn effective_server<'a>(cloud: bool, server: &'a str) -> (r: &'a str)
    ensures
        r@ == if cloud {
            "cloud"@
        } else {
            server@
        },
{
    if cloud {
        "cloud"
    } else {
        server
    }
}

/// The schema request URL for a database and schema version; the version
/// defaults to `9`.
pub fn build_schema_url(base: &str, db: &str, version: Option<&str>) -> (r: String)
    ensures
        r@ == base@ + "/v1/database/"@ + db@ + "/schema?version="@ + match version {
            Some(v) => v@,
            None => "9"@,
        },
{
    let mut s = String::from_str(base);
    s.append("/v1/database/");
    s.append(db);
    s.append("/schema?version=");
    match version {
        Some(v) => s.append(v),
        None => s.append("9"),
    }
    proof {
        assert(s@ =~= base@ + "/v1/database/"@ + db@ + "/schema?version="@ + match version {
            Some(v) => v@,
            None => "9"@,
        });
    }
    s
}

} // verus!
