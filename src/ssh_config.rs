//! One target of the catalogue: a project in one environment, with its
//! paths, database parameters and the hosts that lead to it.

use crate::connect_info::ConnectInfo;
use crate::paths::{join, joined};
use crate::text::{
    chars_of,
    occurs_at,
    string_from,
    text_or,
    trim_end_slashes,
    trim_end_slashes_of,
    trim_start_slashes,
    trim_start_slashes_of,
    value_or,
    value_or_empty,
};
use vstd::prelude::*;

verus! {

/// A deployable environment: where its files live locally and remotely,
/// where backups go, how to reach its database, and the host to connect to
/// with the jump hosts in front of it.
#[derive(Debug, Clone)]
pub struct SshConfig {
    pub project: String,
    pub environment: String,
    pub remote_path: Option<String>,
    pub remote_cache_path: Option<String>,
    pub git_path: Option<String>,
    pub git_src_path: Option<String>,
    pub backup_path: Option<String>,
    pub db_host: Option<String>,
    pub db_host_reader: Option<String>,
    pub db_port: Option<u16>,
    pub db_name: Option<String>,
    pub db_user: Option<String>,
    pub db_password: Option<String>,
    pub db_root_user: Option<String>,
    pub db_root_password: Option<String>,
    pub connect_info: ConnectInfo,
    pub tunnels: Option<Vec<ConnectInfo>>,
}

/// The database port used when none is given.
pub const DEFAULT_DB_PORT: u16 = 3306;

/// A configured directory: empty when not set, without trailing slashes.
pub open spec fn dir_of(o: Option<String>) -> Seq<char> {
    trim_end_slashes(text_or(o, seq![]))
}

fn dir_value(o: &Option<String>) -> (r: String)
    ensures
        r@ == dir_of(*o),
{
    let s = value_or_empty(o);
    trim_end_slashes_of(s.as_str())
}

impl SshConfig {
    pub open spec fn spec_remote_path(&self) -> Seq<char> {
        dir_of(self.remote_path)
    }

    pub open spec fn spec_remote_cache_path(&self) -> Seq<char> {
        dir_of(self.remote_cache_path)
    }

    pub open spec fn spec_git_path(&self) -> Seq<char> {
        dir_of(self.git_path)
    }

    pub open spec fn spec_git_src_path(&self) -> Seq<char> {
        dir_of(self.git_src_path)
    }

    pub open spec fn spec_backup_path(&self) -> Seq<char> {
        dir_of(self.backup_path)
    }

    /// The source root below the repository root: the repository root taken
    /// once off the front of the source root when it stands there, then
    /// the leading slashes.
    pub open spec fn spec_git_relative_path(&self) -> Seq<char> {
        let repo = self.spec_git_path();
        let src = self.spec_git_src_path();
        if repo.is_prefix_of(src) {
            trim_start_slashes(src.subrange(repo.len() as int, src.len() as int))
        } else {
            trim_start_slashes(src)
        }
    }

    pub open spec fn spec_db_host(&self) -> Seq<char> {
        text_or(self.db_host, seq![])
    }

    pub open spec fn spec_db_host_reader(&self) -> Seq<char> {
        text_or(self.db_host_reader, self.spec_db_host())
    }

    pub open spec fn spec_db_port(&self) -> u16 {
        match self.db_port {
            Some(p) => p,
            None => DEFAULT_DB_PORT,
        }
    }

    pub open spec fn spec_db_name(&self) -> Seq<char> {
        text_or(self.db_name, seq![])
    }

    pub open spec fn spec_db_user(&self) -> Seq<char> {
        text_or(self.db_user, "root"@)
    }

    pub open spec fn spec_db_password(&self) -> Seq<char> {
        text_or(self.db_password, seq![])
    }

    pub open spec fn spec_db_root_user(&self) -> Seq<char> {
        text_or(self.db_root_user, "root"@)
    }

    pub open spec fn spec_db_root_password(&self) -> Seq<char> {
        text_or(self.db_root_password, seq![])
    }

    /// The catalogue key: the project, followed by `_` and the environment
    /// when there is one.
    pub open spec fn spec_key(&self) -> Seq<char> {
        if self.environment@.len() > 0 {
            self.project@ + "_"@ + self.environment@
        } else {
            self.project@
        }
    }

    /// The remote directory an operation on `target` works on: the remote
    /// root, or its `target` part when one is given.
    pub open spec fn spec_remote_target(&self, target: Seq<char>) -> Seq<char> {
        if target.len() > 0 {
            join(self.spec_remote_path(), target)
        } else {
            self.spec_remote_path()
        }
    }

    /// Returns the remote directory an operation on `target` works on.
    pub fn remote_target(&self, target: &str) -> (r: String)
        ensures
            r@ == self.spec_remote_target(target@),
    {
        let root = self.remote_path();
        if target.unicode_len() > 0 {
            joined(root.as_str(), target)
        } else {
            root
        }
    }

    /// Returns the project name.
    pub fn project(&self) -> (r: String)
        ensures
            r@ == self.project@,
    {
        self.project.clone()
    }

    /// Returns the environment name.
    pub fn environment(&self) -> (r: String)
        ensures
            r@ == self.environment@,
    {
        self.environment.clone()
    }

    /// Returns the remote root of the project.
    pub fn remote_path(&self) -> (r: String)
        ensures
            r@ == self.spec_remote_path(),
    {
        dir_value(&self.remote_path)
    }

    /// Returns the remote cache directory.
    pub fn remote_cache_path(&self) -> (r: String)
        ensures
            r@ == self.spec_remote_cache_path(),
    {
        dir_value(&self.remote_cache_path)
    }

    /// Returns the root of the local repository.
    pub fn git_path(&self) -> (r: String)
        ensures
            r@ == self.spec_git_path(),
    {
        dir_value(&self.git_path)
    }

    /// Returns the local source root that is deployed.
    pub fn git_src_path(&self) -> (r: String)
        ensures
            r@ == self.spec_git_src_path(),
    {
        dir_value(&self.git_src_path)
    }

    /// Returns the source root relative to the repository root: without the
    /// repository root in front (when it stands there) and without leading
    /// slashes.
    pub fn get_git_relative_path(&self) -> (r: String)
        ensures
            r@ == self.spec_git_relative_path(),
    {
        let git_path = chars_of(self.git_path().as_str());
        let git_src_path = chars_of(self.git_src_path().as_str());
        let n = git_src_path.len();
        let rest = if occurs_at(&git_src_path, 0, &git_path) {
            string_from(&git_src_path, git_path.len(), n)
        } else {
            string_from(&git_src_path, 0, n)
        };
        proof {
            assert(git_src_path@.subrange(0, n as int) == git_src_path@);
        }
        trim_start_slashes_of(rest.as_str())
    }

    /// Returns the local directory where backups are written.
    pub fn backup_path(&self) -> (r: String)
        ensures
            r@ == self.spec_backup_path(),
    {
        dir_value(&self.backup_path)
    }

    /// Returns the database host, empty when none is set.
    pub fn db_host(&self) -> (r: String)
        ensures
            r@ == self.spec_db_host(),
    {
        value_or_empty(&self.db_host)
    }

    /// Returns the database host to read from: the read replica when one is
    /// set, else the primary host.
    pub fn db_host_reader(&self) -> (r: String)
        ensures
            r@ == self.spec_db_host_reader(),
    {
        match &self.db_host_reader {
            Some(h) => h.clone(),
            None => self.db_host(),
        }
    }

    /// Returns the database port, 3306 when none is set.
    pub fn db_port(&self) -> (r: u16)
        ensures
            r == self.spec_db_port(),
    {
        match self.db_port {
            Some(p) => p,
            None => DEFAULT_DB_PORT,
        }
    }

    /// Returns the database name.
    pub fn db_name(&self) -> (r: String)
        ensures
            r@ == self.spec_db_name(),
    {
        value_or_empty(&self.db_name)
    }

    /// Returns the database user, `root` when none is set.
    pub fn db_user(&self) -> (r: String)
        ensures
            r@ == self.spec_db_user(),
    {
        value_or(&self.db_user, "root")
    }

    /// Returns the database password.
    pub fn db_password(&self) -> (r: String)
        ensures
            r@ == self.spec_db_password(),
    {
        value_or_empty(&self.db_password)
    }

    /// Returns the database administrator, `root` when none is set.
    pub fn db_root_user(&self) -> (r: String)
        ensures
            r@ == self.spec_db_root_user(),
    {
        value_or(&self.db_root_user, "root")
    }

    /// Returns the database administrator's password.
    pub fn db_root_password(&self) -> (r: String)
        ensures
            r@ == self.spec_db_root_password(),
    {
        value_or_empty(&self.db_root_password)
    }

    /// Returns how to reach the host itself.
    pub fn connect_info(&self) -> (r: &ConnectInfo)
        ensures
            r == &self.connect_info,
    {
        &self.connect_info
    }

    /// Returns the jump hosts, outermost first.
    pub fn tunnels(&self) -> (r: &Option<Vec<ConnectInfo>>)
        ensures
            r == &self.tunnels,
    {
        &self.tunnels
    }

    /// Returns the key under which this target is known in the catalogue.
    pub fn key(&self) -> (r: String)
        ensures
            r@ == self.spec_key(),
    {
        let mut k = self.project.clone();
        if self.environment.unicode_len() > 0 {
            k.append("_");
            k.append(self.environment.as_str());
        }
        k
    }
}

} // verus!
