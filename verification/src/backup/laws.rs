//! Laws of the storage layout.
use vstd::prelude::*;
use crate::backup::consts::{
    BACKUP_ARCHIVE_DIRNAME, BACKUP_FULL_DIRNAME, BACKUP_INCREMENTAL_DIRNAME, SHA256_EXTENSION, TAR_XZ_EXTENSION,
};
use crate::backup::date::{padded, two_digits, year_text, RunDate};
use crate::backup::layout::{
    archive_path, backup_dir_parts, date_parts, join_all, run_parts, run_path, sha256_path, storage_subdirs,
    subdir_text,
    BackupPathParts, BackupRunName,
};
use crate::backup::setup::{
    remote_setup_next, run_context_steps, semver_parse, storage_setup_steps, PermissionMode, RemoteSetupAction,
    RemoteSetupState,
};
use crate::backup::remote::Remote;
use crate::backup::ssh::RemoteOutput;
use crate::text::trim;
use crate::path::{
    components, extension, file_name, is_absolute, is_component, join, lemma_join_normal, render,
    lemma_join_components, lemma_parent_of_join, lemma_single_component, lemma_stem_extension,
    lemma_with_extension, parent, renamed, with_extension,
};
use crate::text::{dec, is_digit, lemma_dec_digits};

verus! {

/// A non-empty run of digits is a component.
proof fn lemma_digits_component(s: Seq<char>)
    requires
        s.len() > 0,
        forall|i: int| 0 <= i < s.len() ==> #[trigger] is_digit(s[i]),
    ensures
        is_component(s),
{
    if s == seq!['.'] {
        assert(is_digit(s[0]));
    }
    if s.contains('/') {
        let i = choose|i: int| 0 <= i < s.len() && s[i] == '/';
        assert(is_digit(s[i]));
    }
}

/// Zero-padded decimals are digits.
proof fn lemma_padded_digits(n: nat, w: nat)
    ensures
        padded(n, w).len() > 0,
        forall|i: int| 0 <= i < padded(n, w).len() ==> #[trigger] is_digit(padded(n, w)[i]),
{
    lemma_dec_digits(n);
    let d = dec(n);
    if d.len() < w {
        let z = Seq::new((w - d.len()) as nat, |i: int| '0');
        assert forall|i: int| 0 <= i < padded(n, w).len() implies #[trigger] is_digit(padded(n, w)[i]) by {
            if i < z.len() {
                assert(padded(n, w)[i] == '0');
            } else {
                assert(padded(n, w)[i] == d[i - z.len()]);
            }
        }
    }
}

/// A signed run of digits is a component.
proof fn lemma_signed_component(sign: char, s: Seq<char>)
    requires
        sign == '+' || sign == '-',
        s.len() > 0,
        forall|i: int| 0 <= i < s.len() ==> #[trigger] is_digit(s[i]),
    ensures
        is_component(seq![sign] + s),
{
    let t = seq![sign] + s;
    if t.contains('/') {
        let i = choose|i: int| 0 <= i < t.len() && t[i] == '/';
        if i > 0 {
            assert(t[i] == s[i - 1]);
            assert(is_digit(s[i - 1]));
        }
    }
    if t == seq!['.'] {
        assert(t.len() == 1);
    }
}

/// The directory names of a date are components.
pub proof fn lemma_date_components(d: RunDate)
    ensures
        forall|i: int| 0 <= i < date_parts(d).len() ==> is_component(#[trigger] date_parts(d)[i]),
{
    let y = d.year as int;
    if 0 <= y < 10000 {
        lemma_padded_digits(y as nat, 4);
        lemma_digits_component(padded(y as nat, 4));
    } else if y >= 10000 {
        lemma_padded_digits(y as nat, 4);
        lemma_signed_component('+', padded(y as nat, 4));
    } else {
        lemma_padded_digits((-y) as nat, 4);
        lemma_signed_component('-', padded((-y) as nat, 4));
    }
    lemma_padded_digits(d.month as nat, 2);
    lemma_digits_component(two_digits(d.month as int));
    lemma_padded_digits(d.day as nat, 2);
    lemma_digits_component(two_digits(d.day as int));
    assert(date_parts(d)[0] == year_text(y));
}

/// Joining components one by one appends them; the root stays.
pub proof fn lemma_join_all(base: Seq<char>, parts: Seq<Seq<char>>)
    requires
        forall|i: int| 0 <= i < parts.len() ==> is_component(#[trigger] parts[i]),
    ensures
        components(join_all(base, parts)) == components(base) + parts,
        is_absolute(join_all(base, parts)) == is_absolute(base),
    decreases parts.len(),
{
    if parts.len() == 0 {
        assert(components(base) + parts =~= components(base));
    } else {
        let init = parts.drop_last();
        assert forall|i: int| 0 <= i < init.len() implies is_component(#[trigger] init[i]) by {
            assert(init[i] == parts[i]);
        }
        lemma_join_all(base, init);
        assert(is_component(parts[parts.len() - 1]));
        lemma_single_component(parts.last());
        lemma_join_components(join_all(base, init), parts.last());
        assert(components(base) + init + seq![parts.last()] =~= components(base) + parts);
    }
}

/// The parts of a run's path are components when its user, host and name are.
pub open spec fn run_names_are_components(kind: Seq<char>, run: BackupRunName) -> bool {
    &&& is_component(kind)
    &&& is_component(run.username@)
    &&& is_component(run.hostname@)
    &&& is_component(run.name@)
}

proof fn lemma_run_parts_components(kind: Seq<char>, run: BackupRunName)
    requires
        run_names_are_components(kind, run),
    ensures
        forall|i: int| 0 <= i < run_parts(kind, run).len() ==> is_component(#[trigger] run_parts(kind, run)[i]),
{
    lemma_date_components(run.datetime);
    let p = run_parts(kind, run);
    assert forall|i: int| 0 <= i < p.len() implies is_component(#[trigger] p[i]) by {
        if 3 <= i < 6 {
            assert(p[i] == date_parts(run.datetime)[i - 3]);
        }
    }
}

/// The kinds of the layout name single directories.
pub proof fn lemma_kinds_are_components()
    ensures
        is_component(BACKUP_FULL_DIRNAME@),
        is_component(BACKUP_INCREMENTAL_DIRNAME@),
        is_component(BACKUP_ARCHIVE_DIRNAME@),
{
    reveal_strlit("full");
    reveal_strlit("incremental");
    reveal_strlit("archive");
    assert(!BACKUP_FULL_DIRNAME@.contains('/')) by {
        if BACKUP_FULL_DIRNAME@.contains('/') {
            let i = choose|i: int| 0 <= i < BACKUP_FULL_DIRNAME@.len() && BACKUP_FULL_DIRNAME@[i] == '/';
        }
    }
    assert(!BACKUP_INCREMENTAL_DIRNAME@.contains('/')) by {
        if BACKUP_INCREMENTAL_DIRNAME@.contains('/') {
            let i = choose|i: int| 0 <= i < BACKUP_INCREMENTAL_DIRNAME@.len() && BACKUP_INCREMENTAL_DIRNAME@[i] == '/';
        }
    }
    assert(!BACKUP_ARCHIVE_DIRNAME@.contains('/')) by {
        if BACKUP_ARCHIVE_DIRNAME@.contains('/') {
            let i = choose|i: int| 0 <= i < BACKUP_ARCHIVE_DIRNAME@.len() && BACKUP_ARCHIVE_DIRNAME@[i] == '/';
        }
    }
    assert(BACKUP_FULL_DIRNAME@.len() == 4);
    assert(BACKUP_INCREMENTAL_DIRNAME@.len() == 11);
    assert(BACKUP_ARCHIVE_DIRNAME@.len() == 7);
}

/// The layout: a run's directory of a kind is the storage directory, then
/// the kind, the user, the host, the year, the month, the day and the run,
/// one directory each; it starts at the root exactly when the storage
/// directory does.
pub proof fn law_run_layout(storage: Seq<char>, kind: Seq<char>, run: BackupRunName)
    requires
        run_names_are_components(kind, run),
    ensures
        components(run_path(storage, kind, run)) == components(storage) + seq![
            kind,
            run.username@,
            run.hostname@,
            year_text(run.datetime.year as int),
            two_digits(run.datetime.month as int),
            two_digits(run.datetime.day as int),
            run.name@,
        ],
        is_absolute(run_path(storage, kind, run)) == is_absolute(storage),
{
    lemma_run_parts_components(kind, run);
    lemma_join_all(storage, run_parts(kind, run));
    assert(run_parts(kind, run) =~= seq![
        kind,
        run.username@,
        run.hostname@,
        year_text(run.datetime.year as int),
        two_digits(run.datetime.month as int),
        two_digits(run.datetime.day as int),
        run.name@,
    ]);
}

/// **Incremental beside full.** A run's incremental backup path is its full
/// backup path with the component `full`, right after the storage
/// directory's components, replaced by `incremental` (what
/// `incremental_backup` and `full_backup` give, and `backup` for each kind).
pub proof fn law_incremental_is_full_with_kind(storage: Seq<char>, run: BackupRunName)
    requires
        run_names_are_components(BACKUP_FULL_DIRNAME@, run),
    ensures
        components(run_path(storage, BACKUP_INCREMENTAL_DIRNAME@, run)) == components(
            run_path(storage, BACKUP_FULL_DIRNAME@, run),
        ).update(components(storage).len() as int, BACKUP_INCREMENTAL_DIRNAME@),
        is_absolute(run_path(storage, BACKUP_INCREMENTAL_DIRNAME@, run)) == is_absolute(
            run_path(storage, BACKUP_FULL_DIRNAME@, run),
        ),
        run_path(storage, BACKUP_INCREMENTAL_DIRNAME@, run) == render(
            is_absolute(run_path(storage, BACKUP_FULL_DIRNAME@, run)),
            components(run_path(storage, BACKUP_FULL_DIRNAME@, run)).update(
                components(storage).len() as int,
                BACKUP_INCREMENTAL_DIRNAME@,
            ),
        ),
{
    lemma_kinds_are_components();
    law_run_layout(storage, BACKUP_FULL_DIRNAME@, run);
    law_run_layout(storage, BACKUP_INCREMENTAL_DIRNAME@, run);
    let tail = seq![
        run.username@,
        run.hostname@,
        year_text(run.datetime.year as int),
        two_digits(run.datetime.month as int),
        two_digits(run.datetime.day as int),
        run.name@,
    ];
    assert((components(storage) + seq![BACKUP_FULL_DIRNAME@] + tail).update(
        components(storage).len() as int,
        BACKUP_INCREMENTAL_DIRNAME@,
    ) =~= components(storage) + seq![BACKUP_INCREMENTAL_DIRNAME@] + tail);
    assert(components(storage) + seq![BACKUP_FULL_DIRNAME@] + tail =~= components(storage) + seq![
        BACKUP_FULL_DIRNAME@,
        run.username@,
        run.hostname@,
        year_text(run.datetime.year as int),
        two_digits(run.datetime.month as int),
        two_digits(run.datetime.day as int),
        run.name@,
    ]);
    assert(components(storage) + seq![BACKUP_INCREMENTAL_DIRNAME@] + tail =~= components(storage) + seq![
        BACKUP_INCREMENTAL_DIRNAME@,
        run.username@,
        run.hostname@,
        year_text(run.datetime.year as int),
        two_digits(run.datetime.month as int),
        two_digits(run.datetime.day as int),
        run.name@,
    ]);
    let p = run_parts(BACKUP_INCREMENTAL_DIRNAME@, run);
    let last = join_all(storage, p.drop_last());
    assert(run_path(storage, BACKUP_INCREMENTAL_DIRNAME@, run) == join(last, p.last()));
    assert(p.last() == run.name@);
    assert(!is_absolute(run.name@)) by {
        if is_absolute(run.name@) {
            assert(run.name@.contains(run.name@[0]));
        }
    }
    lemma_join_normal(last, run.name@);
}

/// **Backup directory of a run.** `backup_dir(sd, BackupPathParts::from_run(bt, &rn))`
/// is the parent of `backup(sd, bt, &rn)`: the backup directory of a run's
/// parts (its kind, user, host and date) holds the run's own directory of
/// that kind, when the run's name is a single directory name. The paths are
/// those the two constructors' contracts give.
pub proof fn law_backup_dir_is_parent_of_backup(storage: Seq<char>, parts: BackupPathParts, run: BackupRunName)
    requires
        is_component(run.name@),
        parts.username@ == run.username@,
        parts.hostname@ == run.hostname@,
        parts.datetime == Some(run.datetime),
    ensures
        parent(run_path(storage, subdir_text(parts.backup_type), run)) == Some(
            join_all(storage, backup_dir_parts(parts)),
        ),
{
    let kind = subdir_text(parts.backup_type);
    let rp = run_parts(kind, run);
    lemma_date_components(run.datetime);
    let day = date_parts(run.datetime)[2];
    assert(is_component(day));
    assert(!is_absolute(day)) by {
        if is_absolute(day) {
            assert(day.contains(day[0]));
        }
    }
    assert(rp.drop_last() =~= backup_dir_parts(parts));
    assert(rp.drop_last().drop_last() =~= rp.take(5));
    assert(rp.drop_last().last() == day);
    assert(rp.last() == run.name@);
    let a = join_all(storage, rp.take(5));
    assert(join_all(storage, rp.drop_last()) == join(a, day));
    assert(run_path(storage, kind, run) == join(join(a, day), run.name@));
    lemma_parent_of_join(a, day, run.name@);
}

/// **Backup directory without a date.** Without a date,
/// `backup_dir(sd, BackupPathParts::new(bt, h, u, c, None))` is the storage
/// directory joined with the kind's directory, the user and the host.
pub proof fn law_backup_dir_without_date(storage: Seq<char>, parts: BackupPathParts)
    requires
        parts.datetime is None,
    ensures
        join_all(storage, backup_dir_parts(parts)) == join(
            join(join(storage, subdir_text(parts.backup_type)), parts.username@),
            parts.hostname@,
        ),
{
    let p = backup_dir_parts(parts);
    assert(p =~= seq![subdir_text(parts.backup_type), parts.username@, parts.hostname@]);
    assert(p.drop_last() =~= seq![subdir_text(parts.backup_type), parts.username@]);
    assert(p.drop_last().drop_last() =~= seq![subdir_text(parts.backup_type)]);
    assert(p.drop_last().drop_last().drop_last() =~= Seq::<Seq<char>>::empty());
    let k = subdir_text(parts.backup_type);
    assert(join_all(storage, Seq::<Seq<char>>::empty()) == storage);
    assert(join_all(storage, seq![k]) == join(storage, k)) by {
        assert(seq![k].drop_last() =~= Seq::<Seq<char>>::empty());
    }
    assert(join_all(storage, seq![k, parts.username@]) == join(join(storage, k), parts.username@)) by {
        assert(seq![k, parts.username@].drop_last() =~= seq![k]);
    }
}

/// The first element of each non-empty block appears in the flattened blocks.
proof fn lemma_flatten_has_head<A>(s: Seq<Seq<A>>, i: int)
    requires
        0 <= i < s.len(),
        s[i].len() > 0,
    ensures
        exists|j: int| 0 <= j < s.flatten().len() && s.flatten()[j] == s[i][0],
    decreases s.len(),
{
    let f = s.flatten();
    assert(f == s.first() + s.drop_first().flatten());
    if i == 0 {
        assert(f[0] == s[0][0]);
    } else {
        lemma_flatten_has_head(s.drop_first(), i - 1);
        let t = s.drop_first().flatten();
        let j = choose|j: int| 0 <= j < t.len() && t[j] == s.drop_first()[i - 1][0];
        assert(f[s.first().len() + j] == t[j]);
    }
}

/// **A completed setup passes the verification.** Every subdirectory that
/// `verify_backup_dirs` lists for a canonical storage directory `c` (its
/// contract: `storage_subdirs(c)`) is made by a step of `c`'s setup
/// (`storage_layout_setup`), which gives it to the storage administrator
/// with mode `rwxr-x---`. So after a completed setup, with nothing removed
/// since, each of them resolves, and `verify_backup_subdirs` returns `Ok`.
pub proof fn law_setup_passes_verify_backup_dirs(c: Seq<char>, users: Seq<Seq<char>>, d: Seq<char>)
    requires
        storage_subdirs(c).contains(d),
    ensures
        exists|j: int|
            0 <= j < storage_setup_steps(c, users).len() && (#[trigger] storage_setup_steps(c, users)[j]).dir == d
                && storage_setup_steps(c, users)[j].admin && storage_setup_steps(c, users)[j].mode
                == PermissionMode::StorageDir,
{
    let subs = storage_subdirs(c);
    let i = choose|i: int| 0 <= i < subs.len() && subs[i] == d;
    let per = subs.map_values(|sub: Seq<char>| seq![
        crate::backup::setup::DirStepView {
            dir: sub,
            own: sub,
            owner: None,
            admin: true,
            mode: PermissionMode::StorageDir,
            always_own: true,
            create_message: crate::backup::setup::E_CREATE_STORAGE_SUBDIR@,
            own_message: crate::backup::setup::E_OWN_STORAGE_SUBDIR@,
        },
    ] + users.map_values(|u: Seq<char>| crate::backup::setup::DirStepView {
        dir: join(sub, u),
        own: join(sub, u),
        owner: Some(u),
        admin: false,
        mode: PermissionMode::StorageDir,
        always_own: true,
        create_message: crate::backup::setup::E_CREATE_STORAGE_SUBDIR@,
        own_message: crate::backup::setup::E_OWN_USER_SUBDIR@,
    }));
    assert(storage_setup_steps(c, users) == per.flatten());
    assert(per[i][0].dir == d);
    lemma_flatten_has_head(per, i);
    let j = choose|j: int| 0 <= j < per.flatten().len() && per.flatten()[j] == per[i][0];
    assert(storage_setup_steps(c, users)[j] == per[i][0]);
}

/// Preparing a run made by the current user on this host makes, last, the
/// directory that holds the run's directory.
pub proof fn law_prepare_reaches_run_dir(storage: Seq<char>, kind: Seq<char>, run: BackupRunName, backup_group_exists: bool)
    requires
        run_names_are_components(kind, run),
    ensures
        parent(run_path(storage, kind, run)) == Some(
            run_context_steps(join(storage, kind), run.username@, run.hostname@, run, backup_group_exists)[4].dir,
        ),
{
    lemma_run_parts_components(kind, run);
    let p = run_parts(kind, run);
    let sub = join(storage, kind);
    let u = join(sub, run.username@);
    let h = join(u, run.hostname@);
    let y = join(h, year_text(run.datetime.year as int));
    let m = join(y, two_digits(run.datetime.month as int));
    let d = join(m, two_digits(run.datetime.day as int));
    assert(p.take(1).drop_last() =~= Seq::<Seq<char>>::empty());
    assert(join_all(storage, Seq::<Seq<char>>::empty()) == storage);
    assert(p.take(1).last() == kind);
    assert(join_all(storage, p.take(1)) == sub);
    assert(p.take(2).drop_last() =~= p.take(1));
    assert(join_all(storage, p.take(2)) == u);
    assert(p.take(3).drop_last() =~= p.take(2));
    assert(join_all(storage, p.take(3)) == h);
    assert(p.take(4).drop_last() =~= p.take(3));
    assert(join_all(storage, p.take(4)) == y);
    assert(p.take(5).drop_last() =~= p.take(4));
    assert(join_all(storage, p.take(5)) == m);
    assert(p.take(6).drop_last() =~= p.take(5));
    assert(join_all(storage, p.take(6)) == d);
    assert(p.drop_last() =~= p.take(6));
    assert(run_path(storage, kind, run) == join(d, run.name@));
    assert(is_component(p[5]));
    lemma_single_component(p[5]);
    lemma_parent_of_join(m, two_digits(run.datetime.day as int), run.name@);
}


/// Renaming keeps the directory: the parent stays, the file name becomes
/// the renamed one.
proof fn lemma_renamed_in_place(p: Seq<char>, ext: Seq<char>)
    requires
        file_name(p).is_some(),
        ext.len() > 0,
        !ext.contains('/'),
    ensures
        parent(with_extension(p, ext)) == parent(p),
        file_name(with_extension(p, ext)) == Some(renamed(file_name(p).unwrap(), ext)),
{
    lemma_with_extension(p, ext);
    let x = renamed(file_name(p).unwrap(), ext);
    let cs = components(p);
    assert(cs.drop_last().push(x).drop_last() =~= cs.drop_last());
    crate::path::lemma_components_valid(p);
    assert(is_component(cs[cs.len() - 1]));
    crate::path::lemma_last_index_range(file_name(p).unwrap(), '.');
    assert(crate::path::name_stem(file_name(p).unwrap()).len() > 0);
    assert(x.len() >= 3);
}

/// The checksum file of a file with an extension sits beside it, named
/// after it with `.sha256` added.
pub proof fn law_checksum_beside(p: Seq<char>)
    requires
        extension(p).is_some(),
    ensures
        parent(sha256_path(p)) == parent(p),
        file_name(sha256_path(p)) == Some(file_name(p).unwrap() + "."@ + SHA256_EXTENSION@),
{
    reveal_strlit("sha256");
    reveal_strlit(".");
    let n = file_name(p).unwrap();
    let e = extension(p).unwrap();
    let ext = e + seq!['.'] + SHA256_EXTENSION@;
    assert(!ext.contains('/')) by {
        if ext.contains('/') {
            let i = choose|i: int| 0 <= i < ext.len() && ext[i] == '/';
            lemma_stem_extension(n);
            crate::path::lemma_last_index_range(n, '.');
            let k = crate::path::last_index_of(n, '.');
            if i < e.len() {
                assert(ext[i] == e[i]);
                assert(e[i] == n[k + 1 + i]);
                crate::path::lemma_components_valid(p);
                assert(is_component(components(p)[components(p).len() - 1]));
            }
        }
    }
    lemma_renamed_in_place(p, ext);
    lemma_stem_extension(n);
    assert(renamed(n, ext) =~= n + "."@ + SHA256_EXTENSION@);
}

/// The archive of a run sits where the run's directory would in the
/// archive tree, named after the run with the extension `tar.xz`.
pub proof fn law_archive_beside_run(storage: Seq<char>, run: BackupRunName)
    requires
        is_component(run.username@),
        is_component(run.hostname@),
        is_component(run.name@),
        run.name@ != seq!['.', '.'],
    ensures
        parent(archive_path(storage, run)) == parent(run_path(storage, BACKUP_ARCHIVE_DIRNAME@, run)),
        file_name(archive_path(storage, run)) == Some(renamed(run.name@, TAR_XZ_EXTENSION@)),
{
    reveal_strlit("tar.xz");
    lemma_kinds_are_components();
    law_run_layout(storage, BACKUP_ARCHIVE_DIRNAME@, run);
    let rp = run_path(storage, BACKUP_ARCHIVE_DIRNAME@, run);
    assert(components(rp).last() == run.name@);
    assert(file_name(rp) == Some(run.name@));
    assert(!TAR_XZ_EXTENSION@.contains('/')) by {
        if TAR_XZ_EXTENSION@.contains('/') {
            let i = choose|i: int| 0 <= i < TAR_XZ_EXTENSION@.len() && TAR_XZ_EXTENSION@[i] == '/';
        }
    }
    lemma_renamed_in_place(rp, TAR_XZ_EXTENSION@);
}


/// A remote setup goes on past an existing storage directory only when its
/// version file holds a release of major version 1; and it reports success
/// only after writing the version file of a new storage directory, or after
/// checking the directories of one whose version it accepted.
pub proof fn law_remote_setup_accepts_only_v1(
    remote: Remote,
    storage: Seq<char>,
    state: RemoteSetupState,
    event: Result<RemoteOutput, String>,
    r: (RemoteSetupState, RemoteSetupAction),
)
    requires
        remote_setup_next(remote, storage, state, event, r),
    ensures
        state == RemoteSetupState::ReadingVersion && !(r.1 is Fail) ==> (event matches Ok(o) && o.success && (
        semver_parse(trim(o.stdout@)) matches Ok((major, _m, _p, pre, _b)) && major == 1 && pre.len() == 0)),
        r.1 is Done ==> (state == RemoteSetupState::WritingVersion || state == RemoteSetupState::CheckingDirs
            || state == RemoteSetupState::RepairingDirs),
{
}

} // verus!
