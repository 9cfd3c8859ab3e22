//! Users, groups and the environment: the accounts that own the storage,
//! the expansion of variables in configured paths, and the home directory.
use vstd::prelude::*;
use crate::backup::consts::{CFG_BACKUP_STORAGE_DIR, GROUP_BACKUP_USERNAME, GROUP_BAK8USR, HOME_CONFIG_DIR, SOURCETRAIT_BACKUP_CONFIG_FILENAME};
use crate::backup::error::{Error, ACCOUNT_GROUP, ACCOUNT_USER};
use crate::backup::layout::storage_subdirs;
use crate::command::string_views;
use crate::path::{join, join_str};

verus! {

/// The configuration items that the storage's ownership depends on.
#[derive(Debug)]
pub struct BackupConfig {
    pub backup_storage_dir: String,
    pub storage_admin_user: String,
    pub backup_users_group: String,
}

/// `uzers::get_group_by_name`, then the group's id. Which groups exist
/// depends on the system, so of a found group nothing is promised; the
/// crate's source answers `None` without asking the system when the name
/// holds a NUL character, which no C string can carry.
#[verifier::external_body]
pub(crate) fn lookup_group_gid(name: &str) -> (r: Option<u32>)
    ensures
        name@.contains('\0') ==> r is None,
{
    uzers::get_group_by_name(name).map(|g| g.gid())
}

/// `uzers::get_current_uid`. The id is the process's own, which the system
/// decides, so nothing is promised of it.
#[verifier::external_body]
pub(crate) fn current_uid() -> (r: u32) {
    uzers::get_current_uid()
}

/// `uzers::get_current_gid`. The id is the process's own, which the system
/// decides, so nothing is promised of it.
#[verifier::external_body]
fn current_gid() -> (r: u32) {
    uzers::get_current_gid()
}

/// `uzers::get_current_username`, as text (lossily). The name comes from the
/// system's user database, so nothing is promised of it.
#[verifier::external_body]
fn current_username() -> (r: Option<String>) {
    uzers::get_current_username().map(|n| n.to_string_lossy().into_owned())
}

/// `uzers::get_current_groupname`, as text (lossily). The name comes from the
/// system's group database, so nothing is promised of it.
#[verifier::external_body]
fn current_groupname() -> (r: Option<String>) {
    uzers::get_current_groupname().map(|n| n.to_string_lossy().into_owned())
}

/// The account of an id that was looked up: the id when found, else the
/// error that names the account.
pub open spec fn account_outcome(found: Option<u32>, kind: Seq<char>, account: Seq<char>, r: Result<u32, Error>) -> bool {
    match found {
        Some(id) => r == Ok::<u32, Error>(id),
        None => r matches Err(Error::AccountNotFound { account_type: t, account: a }) && t@ == kind && a@ == account,
    }
}

/// The storage administrator: root (uid 0) when the group of backup users
/// exists, otherwise the current user.
pub open spec fn admin_uid_from(group_found: Option<u32>, current_uid: u32) -> u32 {
    if group_found is Some {
        0
    } else {
        current_uid
    }
}

/// The storage administrator's id, from the lookup of the group of backup
/// users and the current user's id.
pub fn storage_admin_outcome(group_found: Option<u32>, current_uid: u32) -> (r: u32)
    ensures
        r == admin_uid_from(group_found, current_uid),
{
    match group_found {
        Some(_) => 0,
        None => current_uid,
    }
}

/// The backup users' group id, from the lookup of the group: its id when it
/// exists, else the error that names the configured group.
pub fn backup_users_outcome(config: &BackupConfig, found: Option<u32>) -> (r: Result<u32, Error>)
    ensures
        account_outcome(found, ACCOUNT_GROUP@, config.backup_users_group@, r),
{
    match found {
        Some(id) => Ok(id),
        None => Err(
            Error::AccountNotFound {
                account_type: ACCOUNT_GROUP.to_owned(),
                account: config.backup_users_group.clone(),
            },
        ),
    }
}

/// The id of the storage administrator: root (uid 0) when the `bak8usr`
/// group exists, otherwise the current user's id ([`storage_admin_outcome`]
/// for what the system answers). It never fails.
pub fn storage_admin_uid(_config: &BackupConfig) -> (r: Result<u32, Error>)
    ensures
        r is Ok,
{
    let found = lookup_group_gid(GROUP_BAK8USR);
    let current = current_uid();
    Ok(storage_admin_outcome(found, current))
}

/// The id of the `bak8usr` group; when it does not exist, an error that
/// names the configured group ([`backup_users_outcome`] for what the system
/// answers).
pub fn backup_users_gid(config: &BackupConfig) -> (r: Result<u32, Error>)
    ensures
        r matches Err(e) ==> (e matches Error::AccountNotFound { account_type: t, account: a } && t@
            == ACCOUNT_GROUP@ && a@ == config.backup_users_group@),
{
    let found = lookup_group_gid(GROUP_BAK8USR);
    backup_users_outcome(config, found)
}

/// `uzers::get_user_by_uid`, then the user's primary group id. Which users
/// exist depends on the system, so nothing is promised of the result.
#[verifier::external_body]
fn lookup_primary_gid(uid: u32) -> (r: Option<u32>) {
    uzers::get_user_by_uid(uid).map(|u| u.primary_group_id())
}

/// The account id of the storage administrator: root (uid 0) when the
/// `bakusr` group exists, otherwise the current user's id
/// ([`storage_admin_outcome`] for what the system answers). It never fails.
pub fn storage_admin_aid(_config: &BackupConfig) -> (r: Result<u32, Error>)
    ensures
        r is Ok,
{
    let found = lookup_group_gid(GROUP_BACKUP_USERNAME);
    let current = current_uid();
    Ok(storage_admin_outcome(found, current))
}

/// The account id of the `bakusr` group; when it does not exist, an error
/// that names the configured group ([`backup_users_outcome`] for what the
/// system answers).
pub fn backup_users_id(config: &BackupConfig) -> (r: Result<u32, Error>)
    ensures
        r matches Err(e) ==> (e matches Error::AccountNotFound { account_type: t, account: a } && t@
            == ACCOUNT_GROUP@ && a@ == config.backup_users_group@),
{
    let found = lookup_group_gid(GROUP_BACKUP_USERNAME);
    backup_users_outcome(config, found)
}

/// The account id of the current user (the system decides it).
pub fn user_aid() -> (r: u32) {
    current_uid()
}

/// The id of the current user's primary group, where the system has one.
pub fn group_aid() -> (r: Option<u32>) {
    lookup_primary_gid(current_uid())
}

/// `whoami::hostname`; `None` when the system does not say. The name is the
/// machine's, so nothing is promised of it.
#[verifier::external_body]
fn system_hostname() -> (r: Option<String>) {
    whoami::hostname().ok()
}

/// The name of this host, if the system knows it.
pub fn hostname() -> (r: Option<String>) {
    system_hostname()
}

/// The id of the current user (the system decides it).
pub fn uid() -> (r: u32) {
    current_uid()
}

/// The id of the current user's group (the system decides it).
pub fn gid() -> (r: u32) {
    current_gid()
}

/// The name of the current user, if the system knows it.
pub fn username() -> (r: Option<String>) {
    current_username()
}

/// The name of the current user's group, if the system knows it.
pub fn usergroup() -> (r: Option<String>) {
    current_groupname()
}

/// The variable whose value falls back to the current user's group.
pub const GROUP_VAR: &'static str = "GROUP";

/// A variable as the expansion sees it: its value, or that it is unset, or
/// that it cannot be looked up (`$GROUP` without a group to fall back to).
#[derive(Debug)]
pub enum VarLookup {
    Value(String),
    Unset,
    Unknown,
}

/// What `$NAME` stands for: its value in the environment; for `GROUP`, the
/// current user's group when the environment has none, and an error when
/// there is no group either.
pub open spec fn var_lookup(env: Seq<(Seq<char>, Seq<char>)>, group: Option<Seq<char>>, name: Seq<char>) -> Option<Option<Seq<char>>> {
    if exists|i: int| 0 <= i < env.len() && (#[trigger] env[i]).0 == name {
        Some(Some(env[first_var(env, name)].1))
    } else if name == GROUP_VAR@ {
        match group {
            Some(g) => Some(Some(g)),
            None => None,
        }
    } else {
        Some(None)
    }
}

/// The first entry of `env` for `name`.
pub open spec fn first_var(env: Seq<(Seq<char>, Seq<char>)>, name: Seq<char>) -> int {
    choose|i: int| 0 <= i < env.len() && env[i].0 == name && forall|j: int| 0 <= j < i ==> (#[trigger] env[j]).0 != name
}

pub open spec fn env_views(env: Seq<(String, String)>) -> Seq<(Seq<char>, Seq<char>)> {
    Seq::new(env.len(), |i: int| (env[i].0@, env[i].1@))
}

/// The lookup of one variable during an expansion.
pub fn lookup_var(env: &Vec<(String, String)>, group: &Option<String>, name: &str) -> (r: VarLookup)
    ensures
        match var_lookup(env_views(env@), match group {
            Some(g) => Some(g@),
            None => None,
        }, name@) {
            Some(Some(v)) => (r matches VarLookup::Value(x) && x@ == v),
            Some(None) => r is Unset,
            None => r is Unknown,
        },
{
    let ghost ev = env_views(env@);
    let mut i: usize = 0;
    while i < env.len()
        invariant
            i <= env.len(),
            ev == env_views(env@),
            forall|j: int| 0 <= j < i ==> (#[trigger] ev[j]).0 != name@,
        decreases env.len() - i,
    {
        if crate::text::chars_eq(&crate::text::chars_of(env[i].0.as_str()), &crate::text::chars_of(name)) {
            proof {
                let ii = i as int;
                assert(ev[ii].0 == name@);
                assert(0 <= ii < ev.len() && ev[ii].0 == name@ && forall|j: int| 0 <= j < ii ==> (
                #[trigger] ev[j]).0 != name@);
                let k = first_var(ev, name@);
                if k < ii {
                    assert(ev[k].0 != name@);
                }
                if k > ii {
                    assert(ev[ii].0 != name@);
                }
            }
            return VarLookup::Value(env[i].1.clone());
        }
        i += 1;
    }
    proof {
        if exists|k: int| 0 <= k < ev.len() && (#[trigger] ev[k]).0 == name@ {
            let k = choose|k: int| 0 <= k < ev.len() && (#[trigger] ev[k]).0 == name@;
            assert(ev[k].0 != name@);
        }
    }
    if crate::text::chars_eq(&crate::text::chars_of(name), &crate::text::chars_of(GROUP_VAR)) {
        match group {
            Some(g) => VarLookup::Value(g.clone()),
            None => VarLookup::Unknown,
        }
    } else {
        VarLookup::Unset
    }
}

/// What `shellexpand::full_with_context` gives for a text, a home
/// directory and the variables of the environment with the fallback group:
/// the expanded text, or the name of the variable that could not be looked
/// up.
pub uninterp spec fn shell_expansion(
    input: Seq<char>,
    home: Option<Seq<char>>,
    env: Seq<(Seq<char>, Seq<char>)>,
    group: Option<Seq<char>>,
) -> Result<Seq<char>, Seq<char>>;

/// `shellexpand::full_with_context`: `~` and `$VAR` / `${VAR}` expansion,
/// with `home` for `~` and each variable looked up by [`lookup_var`]; an
/// unset variable is left as it is. The expansion itself is named, not
/// stated.
#[verifier::external_body]
fn shell_expand(input: &str, home: &Option<String>, env: &Vec<(String, String)>, group: &Option<String>) -> (r: Result<String, String>)
    ensures
        match shell_expansion(input@, match home {
            Some(h) => Some(h@),
            None => None,
        }, env_views(env@), match group {
            Some(g) => Some(g@),
            None => None,
        }) {
            Ok(t) => (r matches Ok(x) && x@ == t),
            Err(n) => (r matches Err(x) && x@ == n),
        },
{
    let res = shellexpand::full_with_context(
        input,
        || home.clone(),
        |var: &str| match lookup_var(env, group, var) {
            VarLookup::Value(v) => Ok(Some(v)),
            VarLookup::Unset => Ok(None),
            VarLookup::Unknown => Err(()),
        },
    );
    match res {
        Ok(s) => Ok(s.into_owned()),
        Err(e) => Err(e.var_name),
    }
}

/// The message of a failed expansion of `input` at variable `var`: the
/// lookup error's own text (`error looking key 'VAR' up: CAUSE`) after the
/// input.
pub open spec fn expand_error_text(input: Seq<char>, var: Seq<char>, cause: Seq<char>) -> Seq<char> {
    "Unable to expand environment variables for: "@ + input + " :: error looking key '"@ + var + "' up: "@
        + cause
}

/// The outcome of an expansion: the text, or an error naming the variable
/// and the cause of the failed lookup.
pub fn expand_outcome(input: &str, expanded: Result<String, String>, cause: &str) -> (r: Result<String, Error>)
    ensures
        expanded matches Ok(t) ==> (r matches Ok(x) && x@ == t@),
        expanded matches Err(v) ==> (r matches Err(Error::Generic { msg }) && msg@ == expand_error_text(
            input@,
            v@,
            cause@,
        )),
{
    match expanded {
        Ok(t) => Ok(t),
        Err(v) => {
            let m = "Unable to expand environment variables for: ".to_owned().concat(input).concat(
                " :: error looking key '",
            ).concat(v.as_str()).concat("' up: ").concat(cause);
            Err(Error::msg(m.as_str()))
        },
    }
}

/// The current user's group as the expansion sees it: its name, or nothing
/// when its lookup failed.
pub open spec fn group_seen(group: Result<String, String>) -> Option<Seq<char>> {
    match group {
        Ok(g) => Some(g@),
        Err(_) => None,
    }
}

/// Why the current user's group is unknown: the failed lookup's message.
pub open spec fn group_cause(group: Result<String, String>) -> Seq<char> {
    match group {
        Ok(_) => Seq::<char>::empty(),
        Err(c) => c@,
    }
}

/// `s` with `~` and variables expanded, given the home directory, the
/// environment and the lookup of the current user's group (its name, or
/// the message of its failure, which a failed `$GROUP` reports).
pub fn expand_env(s: &str, home: &Option<String>, env: &Vec<(String, String)>, group: &Result<String, String>) -> (r: Result<String, Error>)
    ensures
        match shell_expansion(s@, match home {
            Some(h) => Some(h@),
            None => None,
        }, env_views(env@), group_seen(*group)) {
            Ok(t) => (r matches Ok(x) && x@ == t),
            Err(v) => (r matches Err(Error::Generic { msg }) && msg@ == expand_error_text(s@, v, group_cause(*group))),
        },
{
    let (seen, cause): (Option<String>, String) = match group {
        Ok(g) => (Some(g.clone()), String::new()),
        Err(c) => (None, c.clone()),
    };
    let expanded = shell_expand(s, home, env, &seen);
    expand_outcome(s, expanded, cause.as_str())
}

/// A configured path with `~` and variables expanded.
pub fn expand_path(path_str: &str, home: &Option<String>, env: &Vec<(String, String)>, group: &Result<String, String>) -> (r: Result<String, Error>)
    ensures
        match shell_expansion(path_str@, match home {
            Some(h) => Some(h@),
            None => None,
        }, env_views(env@), group_seen(*group)) {
            Ok(t) => (r matches Ok(x) && x@ == t),
            Err(v) => (r matches Err(Error::Generic { msg }) && msg@ == expand_error_text(path_str@, v, group_cause(*group))),
        },
{
    expand_env(path_str, home, env, group)
}

/// The home of the backup system: `BACKUP_HOME` when it is set, else the
/// `HOME` the program was built with; an error when neither is there.
pub fn home_dir(backup_home: Option<String>, build_home: Option<String>) -> (r: Result<String, Error>)
    ensures
        backup_home matches Some(b) ==> (r matches Ok(x) && x@ == b@),
        backup_home is None ==> (build_home matches Some(h) ==> (r matches Ok(x) && x@ == h@)),
        backup_home is None && build_home is None ==> (r matches Err(Error::FileIO { message, path, cause: None })
            && message@ == "Environment variable is not set: $HOME"@ && path@ == "$HOME"@),
{
    match backup_home {
        Some(b) => Ok(b),
        None => match build_home {
            Some(h) => Ok(h),
            None => Err(
                Error::FileIO {
                    message: "Environment variable is not set: $HOME".to_owned(),
                    path: "$HOME".to_owned(),
                    cause: None,
                },
            ),
        },
    }
}

/// What setting up the home configuration does: make `dir` when missing,
/// and write the default configuration to `file` when `write`.
#[derive(Debug)]
pub struct HomeConfigPlan {
    pub dir: String,
    pub file: String,
    pub write: bool,
}

pub const E_CREATE_HOME_CONFIG_DIR: &'static str = "Unable to create user config directory";
pub const E_CREATE_HOME_CONFIG: &'static str = "Unable to create default user config file";

/// The home configuration: its directory and file below `home`; the file is
/// written when it is missing or when forced.
pub fn setup_home_config(home: &str, force: bool, file_exists: bool) -> (r: HomeConfigPlan)
    ensures
        r.dir@ == join(home@, HOME_CONFIG_DIR@),
        r.file@ == join(join(home@, HOME_CONFIG_DIR@), SOURCETRAIT_BACKUP_CONFIG_FILENAME@),
        r.write == (!file_exists || force),
{
    let dir = join_str(home, HOME_CONFIG_DIR);
    let file = join_str(dir.as_str(), SOURCETRAIT_BACKUP_CONFIG_FILENAME);
    HomeConfigPlan { dir, file, write: !file_exists || force }
}

/// The first check of the storage directories: the configured directory
/// must resolve (`canonical`); then its subdirectories are to be resolved.
pub fn verify_backup_dirs(storage_dir: &str, canonical: Option<String>) -> (r: Result<Vec<String>, Error>)
    ensures
        canonical matches Some(c) ==> (r matches Ok(v) && string_views(v@) == storage_subdirs(c@)),
        canonical is None ==> (r matches Err(Error::ConfiguredDirNotFound { path, config_key }) && path@
            == storage_dir@ && config_key@ == CFG_BACKUP_STORAGE_DIR@),
{
    match canonical {
        Some(c) => Ok(crate::backup::layout::backup_storage_subdirs(c.as_str())),
        None => Err(Error::configured_dir(storage_dir, CFG_BACKUP_STORAGE_DIR)),
    }
}

/// The second check: the first subdirectory that does not resolve is an error.
pub fn verify_backup_subdirs(subdirs: &Vec<String>, resolved: &Vec<bool>) -> (r: Result<(), Error>)
    requires
        subdirs.len() == resolved.len(),
    ensures
        (forall|i: int| 0 <= i < resolved.len() ==> resolved@[i]) ==> r is Ok,
        (exists|i: int| 0 <= i < resolved.len() && !resolved@[i]) ==> (r matches Err(
            Error::ConfiguredSubdirNotFound { path, config_key },
        ) && config_key@ == CFG_BACKUP_STORAGE_DIR@ && exists|i: int|
            0 <= i < resolved.len() && !resolved@[i] && path@ == subdirs@[i]@ && forall|j: int|
                0 <= j < i ==> #[trigger] resolved@[j]),
{
    let mut i: usize = 0;
    while i < subdirs.len()
        invariant
            i <= subdirs.len() == resolved.len(),
            forall|j: int| 0 <= j < i ==> #[trigger] resolved@[j],
        decreases subdirs.len() - i,
    {
        if !resolved[i] {
            return Err(Error::configured_subdir(subdirs[i].as_str(), CFG_BACKUP_STORAGE_DIR));
        }
        i += 1;
    }
    Ok(())
}

} // verus!
