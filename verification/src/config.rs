use vstd::prelude::*;

use crate::text::decimal_rep;
use crate::text::u64_decimal;

verus! {

/// Connection parameters for one remote session: host, port, credentials and
/// an optional read/write timeout.  Immutable once loaded.
#[derive(Debug, Clone)]
pub struct SshConfig {
    pub host: String,
    pub port: u16,
    pub username: String,
    pub password: String,
    pub timeout_secs: Option<u64>,
}

/// The path roles of a deployment: two local trees to package, the two remote
/// directories they unpack into, and the directory the change detector
/// watches.
#[derive(Debug, Clone)]
pub struct PathsConfig {
    pub local_apps: String,
    pub local_cfg_home: String,
    pub remote_apps: String,
    pub remote_cfg_home: String,
    pub file_target_dir: String,
}

/// The whole configuration surface: connection parameters, path roles, and
/// three optional stage command overrides.
#[derive(Debug, Clone)]
pub struct Config {
    pub ssh: SshConfig,
    pub paths: PathsConfig,
    pub shutdown_cmd: Option<String>,
    pub startup_cmd: Option<String>,
    pub showlog_cmd: Option<String>,
}

/// The character content of an optional string.
pub open spec fn opt_str_view(o: Option<String>) -> Option<Seq<char>> {
    match o {
        Some(s) => Some(s@),
        None => None,
    }
}

/// The character content of an optional borrowed string.
pub open spec fn opt_ref_view(o: Option<&String>) -> Option<Seq<char>> {
    match o {
        Some(s) => Some(s@),
        None => None,
    }
}

/// Where the build tool's active settings file lives under its home.
pub fn settings_target_path(tool_home: &String) -> (r: String)
    ensures
        r@ == tool_home@ + "/conf/settings.xml"@,
{
    let mut s = tool_home.clone();
    s.append("/conf/settings.xml");
    s
}

/// Which stored settings file a profile selects: the profile-named variant
/// when a profile is given, the default otherwise.
pub fn settings_source_path(tool_home: &String, profile: Option<&String>) -> (r: String)
    ensures
        profile matches Some(p) ==> r@ == tool_home@ + "/conf/settings/settings-"@ + p@ + ".xml"@,
        profile is None ==> r@ == tool_home@ + "/conf/settings/settings.xml"@,
{
    let mut s = tool_home.clone();
    match profile {
        Some(p) => {
            s.append("/conf/settings/settings-");
            s.append(p.as_str());
            s.append(".xml");
        },
        None => {
            s.append("/conf/settings/settings.xml");
        },
    }
    s
}

impl SshConfig {
    /// The `host:port` address the transport connects to.
    pub fn endpoint(&self) -> (r: String)
        ensures
            r@ == self.host@ + seq![':'] + decimal_rep(self.port as nat),
    {
        proof {
            reveal_strlit(":");
        }
        let mut s = self.host.clone();
        s.append(":");
        let p = u64_decimal(self.port as u64);
        s.append(p.as_str());
        proof {
            assert(seq![':'] =~= ":"@);
        }
        s
    }
}

} // verus!
