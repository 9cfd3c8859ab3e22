//! Remote hosts and the commands run on them.
use vstd::prelude::*;

verus! {

/// The platform of a remote host.
#[derive(Debug, Clone, Copy, PartialEq, Eq, Structural)]
pub enum SyncPlatform {
    GNU,
}

impl Default for SyncPlatform {
    fn default() -> (r: Self)
        ensures
            r == SyncPlatform::GNU,
    {
        SyncPlatform::GNU
    }
}

/// A remote host that backups are synchronized to.
#[derive(Debug)]
pub struct Remote {
    pub name: String,
    pub host: String,
    pub user: Option<String>,
    pub platform: SyncPlatform,
}

/// The address of a remote for `ssh`: `user@host`, or the host alone.
pub open spec fn remote_addr(r: Remote) -> Seq<char> {
    match r.user {
        Some(u) => u@ + seq!['@'] + r.host@,
        None => r.host@,
    }
}

/// Two remotes are the same: name, host, user and platform.
pub open spec fn same_remote(a: Remote, b: Remote) -> bool {
    &&& a.name@ == b.name@
    &&& a.host@ == b.host@
    &&& a.user.is_some() == b.user.is_some()
    &&& (a.user matches Some(u) ==> u@ == b.user.unwrap()@)
    &&& a.platform == b.platform
}

impl Remote {
    /// The address of the remote for `ssh` and `scp`.
    pub fn addr(&self) -> (r: String)
        ensures
            r@ == remote_addr(*self),
    {
        proof {
            reveal_strlit("@");
        }
        match &self.user {
            Some(u) => u.clone().concat("@").concat(self.host.as_str()),
            None => self.host.clone(),
        }
    }

    /// A copy of the remote.
    pub fn duplicate(&self) -> (r: Remote)
        ensures
            same_remote(r, *self),
            remote_addr(r) == remote_addr(*self),
            r.name@ == self.name@,
            r.host@ == self.host@,
            r.user.is_some() == self.user.is_some(),
            r.user matches Some(u) ==> u@ == self.user.unwrap()@,
            r.platform == self.platform,
    {
        Remote {
            name: self.name.clone(),
            host: self.host.clone(),
            user: match &self.user {
                Some(u) => Some(u.clone()),
                None => None,
            },
            platform: self.platform,
        }
    }
}

/// The external commands that jobs run.
#[allow(non_camel_case_types)]
#[derive(Debug, Clone, Copy, PartialEq, Eq, Structural)]
pub enum Cmd {
    rsync,
    xz,
    ssh,
    scp,
}

/// The name of a command, in snake case.
pub open spec fn cmd_text(c: Cmd) -> Seq<char> {
    match c {
        Cmd::rsync => "rsync"@,
        Cmd::xz => "xz"@,
        Cmd::ssh => "ssh"@,
        Cmd::scp => "scp"@,
    }
}

impl Cmd {
    /// The name of the command.
    pub fn to_string(&self) -> (r: String)
        ensures
            r@ == cmd_text(*self),
    {
        let s = match self {
            Cmd::rsync => "rsync",
            Cmd::xz => "xz",
            Cmd::ssh => "ssh",
            Cmd::scp => "scp",
        };
        s.to_owned()
    }
}

} // verus!
