//! The data that the library's operations read and produce.

use vstd::prelude::*;

verus! {

/// How to reach a Hermes host over SSH, and which Hermes home to use there.
#[derive(Clone, Debug)]
pub struct ConnectionProfile {
    /// Name shown for the host.
    pub label: String,
    /// An `ssh_config` alias; when set it is the SSH target.
    pub ssh_alias: String,
    /// Host name or address, the SSH target when no alias is set.
    pub ssh_host: String,
    /// User to log in as; empty for the SSH default.
    pub ssh_user: String,
    /// Port, when not the SSH default.
    pub ssh_port: Option<u16>,
    /// Hermes profile to run under.
    pub hermes_profile: Option<String>,
    /// Hermes home directory chosen by the user in place of the default one.
    pub custom_hermes_home_path: Option<String>,
}

impl ConnectionProfile {
    /// A profile with every text empty and every option unset.
    pub fn empty() -> (res: Self)
        ensures
            res.label@.len() == 0,
            res.ssh_alias@.len() == 0,
            res.ssh_host@.len() == 0,
            res.ssh_user@.len() == 0,
            res.ssh_port is None,
            res.hermes_profile is None,
            res.custom_hermes_home_path is None,
    {
        ConnectionProfile {
            label: String::new(),
            ssh_alias: String::new(),
            ssh_host: String::new(),
            ssh_user: String::new(),
            ssh_port: None,
            hermes_profile: None,
            custom_hermes_home_path: None,
        }
    }
}

impl Default for ConnectionProfile {
    fn default() -> (res: Self)
        ensures
            res.label@.len() == 0,
            res.ssh_alias@.len() == 0,
            res.ssh_host@.len() == 0,
            res.ssh_user@.len() == 0,
            res.ssh_port is None,
            res.hermes_profile is None,
            res.custom_hermes_home_path is None,
    {
        ConnectionProfile::empty()
    }
}

} // verus!
