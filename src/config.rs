//! The description of a connection target.
use vstd::prelude::*;
use crate::registry::ConnectError;
use crate::text::push_char;
use vstd::string::StringExecFns;

verus! {

/// How a session authenticates.
#[derive(Clone, Copy, Debug, PartialEq, Eq, Structural)]
pub enum AuthType {
    Password,
    PublicKey,
}

impl Default for AuthType {
    fn default() -> (a: AuthType)
        ensures
            a == AuthType::Password,
    {
        AuthType::Password
    }
}

/// A connection target: host, port, user, credentials and a display name.
#[derive(Clone, Debug)]
pub struct ConnectionConfig {
    pub name: String,
    pub host: String,
    pub port: u16,
    pub username: String,
    pub auth_type: AuthType,
    pub password: Option<String>,
    pub key_file: Option<String>,
    pub description: String,
}

impl Default for ConnectionConfig {
    /// An empty target on port 22 with password authentication.
    fn default() -> (c: ConnectionConfig)
        ensures
            c.name@.len() == 0,
            c.host@.len() == 0,
            c.port == 22,
            c.username@.len() == 0,
            c.auth_type == AuthType::Password,
            c.password is None,
            c.key_file is None,
            c.description@.len() == 0,
    {
        ConnectionConfig {
            name: String::new(),
            host: String::new(),
            port: 22,
            username: String::new(),
            auth_type: AuthType::Password,
            password: None,
            key_file: None,
            description: String::new(),
        }
    }
}

impl ConnectionConfig {
    /// The secret that authentication hands over: the password for
    /// password authentication, the key file's path for public keys.
    pub fn secret(&self) -> (s: Option<&String>)
        ensures
            self.auth_type == AuthType::Password ==> s == match self.password {
                Some(p) => Some(&p),
                None => None::<&String>,
            },
            self.auth_type == AuthType::PublicKey ==> s == match self.key_file {
                Some(k) => Some(&k),
                None => None::<&String>,
            },
    {
        match self.auth_type {
            AuthType::Password => self.password.as_ref(),
            AuthType::PublicKey => self.key_file.as_ref(),
        }
    }

    /// Whether the configuration holds the secret its authentication needs:
    /// a password for password authentication, a key file for public keys.
    pub open spec fn has_secret(&self) -> bool {
        match self.auth_type {
            AuthType::Password => self.password is Some,
            AuthType::PublicKey => self.key_file is Some,
        }
    }

    /// Refuses, as an authentication error, a configuration without the
    /// secret its authentication needs; no connection is tried for it.
    pub fn check_credentials(&self) -> (r: Result<(), ConnectError>)
        ensures
            r is Ok == self.has_secret(),
            r matches Err(e) ==> e is Auth,
    {
        match self.auth_type {
            AuthType::Password => {
                if self.password.is_some() {
                    Ok(())
                } else {
                    Err(ConnectError::Auth("no password given".to_owned()))
                }
            },
            AuthType::PublicKey => {
                if self.key_file.is_some() {
                    Ok(())
                } else {
                    Err(ConnectError::Auth("no key file given".to_owned()))
                }
            },
        }
    }
}

/// The decimal digit `d`.
pub open spec fn digit(d: nat) -> char {
    seq!['0', '1', '2', '3', '4', '5', '6', '7', '8', '9'][d as int]
}

/// `n` in decimal, without leading zeros.
pub open spec fn decimal(n: nat) -> Seq<char>
    decreases n,
{
    if n < 10 {
        seq![digit(n)]
    } else {
        decimal(n / 10).push(digit(n % 10))
    }
}

fn push_decimal(s: &mut String, n: u16)
    ensures
        final(s)@ == old(s)@ + decimal(n as nat),
    decreases n,
{
    if n >= 10 {
        push_decimal(s, n / 10);
    }
    let digits = ['0', '1', '2', '3', '4', '5', '6', '7', '8', '9'];
    let d = digits[(n % 10) as usize];
    assert(d == digit((n % 10) as nat)) by {
        assert(digits@ =~= seq!['0', '1', '2', '3', '4', '5', '6', '7', '8', '9']);
    }
    push_char(s, d);
    assert(s@ =~= old(s)@ + decimal(n as nat));
}

/// The arguments of the `ssh` client for a configuration: no host-key
/// prompts, a 30 s connect timeout, password-only or key-file login, the
/// port, and `user@host`.
pub open spec fn ssh_args_of(c: ConnectionConfig) -> Seq<Seq<char>> {
    let common = seq![
        "-o"@,
        "StrictHostKeyChecking=no"@,
        "-o"@,
        "UserKnownHostsFile=/dev/null"@,
        "-o"@,
        "ConnectTimeout=30"@,
    ];
    let auth = match c.auth_type {
        AuthType::Password => seq!["-o"@, "PreferredAuthentications=password"@, "-o"@, "PubkeyAuthentication=no"@],
        AuthType::PublicKey => match c.key_file {
            Some(k) => seq!["-i"@, k@],
            None => Seq::empty(),
        },
    };
    common + auth + seq!["-p"@, decimal(c.port as nat), c.username@ + "@"@ + c.host@]
}

impl ConnectionConfig {
    /// The `ssh` client's arguments for this configuration.
    pub fn ssh_args(&self) -> (r: Vec<String>)
        ensures
            r@.map_values(|a: String| a@) == ssh_args_of(*self),
    {
        let mut r: Vec<String> = Vec::new();
        r.push("-o".to_owned());
        r.push("StrictHostKeyChecking=no".to_owned());
        r.push("-o".to_owned());
        r.push("UserKnownHostsFile=/dev/null".to_owned());
        r.push("-o".to_owned());
        r.push("ConnectTimeout=30".to_owned());
        match self.auth_type {
            AuthType::Password => {
                r.push("-o".to_owned());
                r.push("PreferredAuthentications=password".to_owned());
                r.push("-o".to_owned());
                r.push("PubkeyAuthentication=no".to_owned());
            },
            AuthType::PublicKey => {
                match &self.key_file {
                    Some(k) => {
                        r.push("-i".to_owned());
                        r.push(k.clone());
                    },
                    None => {},
                }
            },
        }
        r.push("-p".to_owned());
        let mut port = String::new();
        push_decimal(&mut port, self.port);
        r.push(port);
        let mut target = String::new();
        target.append(self.username.as_str());
        target.append("@");
        target.append(self.host.as_str());
        r.push(target);
        assert(r@.map_values(|a: String| a@) =~= ssh_args_of(*self));
        r
    }
}

} // verus!
