//! What the backup system knows of the machine and the current user,
//! read once when it starts.
use vstd::prelude::*;

verus! {

/// The host, the current user and the user's primary group (`None` where
/// the platform has no primary groups).
#[derive(Debug)]
pub struct OsSnapshot {
    pub hostname: String,
    pub current_user_aid: u32,
    pub current_username: String,
    pub current_user_primary_group_aid: Option<u32>,
    pub current_user_primary_groupname: Option<String>,
}

impl OsSnapshot {
    pub fn hostname(&self) -> (r: String)
        ensures
            r@ == self.hostname@,
    {
        self.hostname.clone()
    }

    pub fn current_user_aid(&self) -> (r: u32)
        ensures
            r == self.current_user_aid,
    {
        self.current_user_aid
    }

    pub fn current_username(&self) -> (r: String)
        ensures
            r@ == self.current_username@,
    {
        self.current_username.clone()
    }

    pub fn current_user_primary_group_aid(&self) -> (r: Option<u32>)
        ensures
            r == self.current_user_primary_group_aid,
    {
        self.current_user_primary_group_aid
    }

    pub fn current_user_primary_groupname(&self) -> (r: Option<String>)
        ensures
            r.is_some() == self.current_user_primary_groupname.is_some(),
            r matches Some(g) ==> g@ == self.current_user_primary_groupname.unwrap()@,
    {
        match &self.current_user_primary_groupname {
            Some(g) => Some(g.clone()),
            None => None,
        }
    }
}

} // verus!
