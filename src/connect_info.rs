//! What is needed to reach one SSH host.

use crate::text::{text_or, trim_end_slashes, trim_end_slashes_of, value_or_empty};
use vstd::prelude::*;

verus! {

/// Connection parameters of one host: its address and, optionally, port,
/// login, password and private key file.
#[derive(Debug, Clone)]
pub struct ConnectInfo {
    pub host: String,
    pub port: Option<u16>,
    pub user: Option<String>,
    pub password: Option<String>,
    pub identity_file: Option<String>,
}

/// The port used when none is given.
pub const DEFAULT_SSH_PORT: u16 = 22;

impl ConnectInfo {
    pub open spec fn spec_port(&self) -> u16 {
        match self.port {
            Some(p) => p,
            None => DEFAULT_SSH_PORT,
        }
    }

    pub open spec fn spec_user(&self) -> Seq<char> {
        text_or(self.user, seq![])
    }

    pub open spec fn spec_password(&self) -> Seq<char> {
        text_or(self.password, seq![])
    }

    pub open spec fn spec_identity_file(&self) -> Seq<char> {
        trim_end_slashes(text_or(self.identity_file, seq![]))
    }

    /// Returns the host.
    pub fn host(&self) -> (r: String)
        ensures
            r@ == self.host@,
    {
        self.host.clone()
    }

    /// Returns the port, 22 when none is set.
    pub fn port(&self) -> (r: u16)
        ensures
            r == self.spec_port(),
    {
        match self.port {
            Some(p) => p,
            None => DEFAULT_SSH_PORT,
        }
    }

    /// Returns the login, empty when none is set.
    pub fn user(&self) -> (r: String)
        ensures
            r@ == self.spec_user(),
    {
        value_or_empty(&self.user)
    }

    /// Returns the password, empty when none is set.
    pub fn password(&self) -> (r: String)
        ensures
            r@ == self.spec_password(),
    {
        value_or_empty(&self.password)
    }

    /// Returns the path to the private key file without trailing slashes,
    /// empty when none is set.
    pub fn identity_file(&self) -> (r: String)
        ensures
            r@ == self.spec_identity_file(),
    {
        let f = value_or_empty(&self.identity_file);
        trim_end_slashes_of(f.as_str())
    }
}

} // verus!
