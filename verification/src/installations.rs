//! Keeps the paths of routed applications up to date with what is installed.
//!
//! Applications move when they are updated. What is on disk is observed by the
//! caller; the rules here decide which paths an application is known by.

use vstd::prelude::*;

use crate::app_paths::{normalized_key, normalized_keys, normalized_relative_path};
use crate::app_paths::{same_directory, sort_and_deduplicate, windowsapps_identity};
use crate::{app_paths, normalize_windows_path, text};

verus! {

/// The parts of a path that the rules look at. Directories are written with
/// single separators and none at the end.
#[derive(Debug)]
pub struct PathParts {
    pub file_name: Option<String>,
    /// The directory the path lies in.
    pub parent: Option<String>,
    /// The last component of that directory.
    pub parent_name: Option<String>,
    /// The directory above.
    pub grandparent: Option<String>,
}

/// A path and whether a file is there.
#[derive(Debug)]
pub struct ObservedPath {
    pub path: String,
    pub parts: PathParts,
    pub is_file: bool,
}

/// A path that may lead to an executable.
#[derive(Debug)]
pub struct Candidate {
    pub path: String,
    pub is_file: bool,
}

// Applications that keep each version in a directory of its own

/// A path and whether the updater of a versioned installation lies in the
/// directory of the path, or in the directory above.
#[derive(Debug)]
pub struct SquirrelSite {
    pub parts: PathParts,
    pub updater_beside: bool,
    pub updater_above: bool,
}

/// An application of a versioned installation: where it is installed and the
/// name of its executable.
#[derive(Debug)]
pub struct SquirrelIdentity {
    pub root: String,
    pub file_name: String,
}

impl View for SquirrelIdentity {
    type V = (Seq<char>, Seq<char>);

    open spec fn view(&self) -> (Seq<char>, Seq<char>) {
        (self.root@, self.file_name@)
    }
}

pub open spec fn identity_views(list: Seq<SquirrelIdentity>) -> Seq<(Seq<char>, Seq<char>)> {
    list.map_values(|identity: SquirrelIdentity| identity@)
}

/// Whether `name` is that of a directory that holds one version.
pub open spec fn is_version_name(name: Option<String>) -> bool {
    name matches Some(n) && text::starts_with(text::ascii_lower(n@), "app-"@)
}

fn version_name(name: &Option<String>) -> (yes: bool)
    ensures
        yes == is_version_name(*name),
{
    match name {
        Some(name) => text::has_prefix(text::lowered_ascii(name.as_str()).as_str(), "app-"),
        None => false,
    }
}

/// The installation that a path belongs to: the updater lies beside the
/// launcher, and above the directories of the versions.
pub open spec fn site_identity(site: SquirrelSite) -> Option<(Seq<char>, Seq<char>)> {
    match (site.parts.file_name, site.parts.parent) {
        (Some(file_name), Some(parent)) => if site.updater_beside {
            Some((parent@, file_name@))
        } else {
            match site.parts.grandparent {
                Some(root) => if is_version_name(site.parts.parent_name) && site.updater_above {
                    Some((root@, file_name@))
                } else {
                    None
                },
                None => None,
            }
        },
        _ => None,
    }
}

/// The installation that a path belongs to.
pub fn squirrel_identity(site: &SquirrelSite) -> (identity: Option<SquirrelIdentity>)
    ensures
        match site_identity(*site) {
            Some(view) => identity matches Some(i) && i@ == view,
            None => identity is None,
        },
{
    match (&site.parts.file_name, &site.parts.parent) {
        (Some(file_name), Some(parent)) => {
            if site.updater_beside {
                return Some(
                    SquirrelIdentity { root: parent.clone(), file_name: file_name.clone() },
                );
            }
            match &site.parts.grandparent {
                Some(root) => if version_name(&site.parts.parent_name) && site.updater_above {
                    Some(SquirrelIdentity { root: root.clone(), file_name: file_name.clone() })
                } else {
                    None
                },
                None => None,
            }
        },
        _ => None,
    }
}

/// What two identities of the same application have in common.
pub open spec fn identity_key(identity: (Seq<char>, Seq<char>)) -> Seq<char> {
    app_paths::path_key(identity.0) + "|"@ + text::unicode_lowercase(identity.1)
}

pub open spec fn identity_keys(list: Seq<(Seq<char>, Seq<char>)>) -> Seq<Seq<char>> {
    list.map_values(|identity: (Seq<char>, Seq<char>)| identity_key(identity))
}

/// The installations of the first `n` sites, each once.
pub open spec fn site_identities(sites: Seq<SquirrelSite>, n: int) -> Seq<(Seq<char>, Seq<char>)>
    decreases n,
{
    if n <= 0 {
        Seq::<(Seq<char>, Seq<char>)>::empty()
    } else {
        let found = site_identities(sites, n - 1);
        match site_identity(sites[n - 1]) {
            Some(identity) => if identity_keys(found).contains(identity_key(identity)) {
                found
            } else {
                found.push(identity)
            },
            None => found,
        }
    }
}

/// The installations that the paths belong to, each once.
pub fn squirrel_identities(sites: &Vec<SquirrelSite>) -> (identities: Vec<SquirrelIdentity>)
    ensures
        identity_views(identities@) == site_identities(sites@, sites@.len() as int),
{
    let mut identities: Vec<SquirrelIdentity> = Vec::new();
    let mut seen: Vec<String> = Vec::new();
    let mut i: usize = 0;
    assert(identity_views(identities@) =~= site_identities(sites@, 0));
    assert(text::texts(seen@) =~= identity_keys(identity_views(identities@)));
    while i < sites.len()
        invariant
            i <= sites@.len(),
            identity_views(identities@) == site_identities(sites@, i as int),
            text::texts(seen@) =~= identity_keys(identity_views(identities@)),
        decreases sites@.len() - i,
    {
        let ghost found = identity_views(identities@);
        let ghost keys = text::texts(seen@);
        if let Some(identity) = squirrel_identity(&sites[i]) {
            let mut key = normalized_key(identity.root.as_str());
            key.append("|");
            key.append(text::to_lowercase(identity.file_name.as_str()).as_str());
            let ghost view = identity@;
            let ghost key_view = key@;
            if !text::holds(&seen, key.as_str()) {
                seen.push(key);
                identities.push(identity);
                assert(text::texts(seen@) =~= keys.push(key_view));
                assert(identity_views(identities@) =~= found.push(view));
            }
        }
        i = i + 1;
    }
    identities
}

/// What a directory of an installation holds: its name, and where the
/// executable of the application would be in it.
#[derive(Debug)]
pub struct VersionEntry {
    pub name: Option<String>,
    pub is_directory: bool,
    pub executable: Candidate,
}

/// What an installation holds: the launcher and the entries of its root.
#[derive(Debug)]
pub struct Installation {
    pub launcher: Candidate,
    pub entries: Vec<VersionEntry>,
}

pub open spec fn holds_version(entry: VersionEntry) -> bool {
    is_version_name(entry.name) && entry.is_directory && entry.executable.is_file
}

/// The executables in the first `n` entries.
pub open spec fn version_paths(entries: Seq<VersionEntry>, n: int) -> Seq<Seq<char>>
    decreases n,
{
    if n <= 0 {
        Seq::<Seq<char>>::empty()
    } else if holds_version(entries[n - 1]) {
        version_paths(entries, n - 1).push(
            crate::normalized_windows_path(entries[n - 1].executable.path@),
        )
    } else {
        version_paths(entries, n - 1)
    }
}

/// The executables of an installation: the launcher, then every version.
pub open spec fn installed_paths(installation: Installation) -> Seq<Seq<char>> {
    (if installation.launcher.is_file {
        seq![crate::normalized_windows_path(installation.launcher.path@)]
    } else {
        Seq::<Seq<char>>::empty()
    }) + version_paths(installation.entries@, installation.entries@.len() as int)
}

/// Adds the executables that an installation holds.
pub fn add_installed(paths: &mut Vec<String>, installation: &Installation)
    ensures
        text::texts(final(paths)@) == text::texts(old(paths)@) + installed_paths(*installation),
{
    let ghost before = text::texts(paths@);
    if installation.launcher.is_file {
        paths.push(normalize_windows_path(installation.launcher.path.as_str()));
    }
    let ghost launcher = installed_paths(*installation).subrange(
        0,
        if installation.launcher.is_file {
            1
        } else {
            0
        },
    );
    let ghost versions = version_paths(
        installation.entries@,
        installation.entries@.len() as int,
    );
    assert(installed_paths(*installation) =~= launcher + versions);
    let mut i: usize = 0;
    assert(text::texts(paths@) =~= before + launcher + version_paths(installation.entries@, 0));
    while i < installation.entries.len()
        invariant
            i <= installation.entries@.len(),
            text::texts(paths@) =~= before + launcher + version_paths(
                installation.entries@,
                i as int,
            ),
        decreases installation.entries@.len() - i,
    {
        let ghost known = text::texts(paths@);
        let entry = &installation.entries[i];
        if version_name(&entry.name) && entry.is_directory && entry.executable.is_file {
            let path = normalize_windows_path(entry.executable.path.as_str());
            let ghost view = path@;
            paths.push(path);
            assert(text::texts(paths@) =~= known.push(view));
        }
        i = i + 1;
    }
    assert(text::texts(paths@) =~= before + installed_paths(*installation));
}

/// Whether a path is that of a version of one of the installations.
pub open spec fn is_version_of(
    parts: PathParts,
    identities: Seq<(Seq<char>, Seq<char>)>,
) -> bool {
    exists|i: int|
        #![trigger identities[i]]
        0 <= i < identities.len() && is_version_in(parts, identities[i])
}

pub open spec fn is_version_in(parts: PathParts, identity: (Seq<char>, Seq<char>)) -> bool {
    &&& parts.file_name matches Some(name) && text::same_ignoring_ascii_case(name@, identity.1)
    &&& is_version_name(parts.parent_name)
    &&& parts.grandparent matches Some(directory) && app_paths::is_same_directory(
        directory@,
        identity.0,
    )
}

/// The paths but those of versions that are gone.
pub open spec fn without_stale_versions(
    observed: Seq<ObservedPath>,
    identities: Seq<(Seq<char>, Seq<char>)>,
    n: int,
) -> Seq<Seq<char>>
    decreases n,
{
    if n <= 0 {
        Seq::<Seq<char>>::empty()
    } else {
        let rest = without_stale_versions(observed, identities, n - 1);
        let last = observed[n - 1];
        if last.is_file || !is_version_of(last.parts, identities) {
            rest.push(last.path@)
        } else {
            rest
        }
    }
}

fn version_of(parts: &PathParts, identities: &Vec<SquirrelIdentity>) -> (yes: bool)
    ensures
        yes == is_version_of(*parts, identity_views(identities@)),
{
    let mut i: usize = 0;
    while i < identities.len()
        invariant
            i <= identities@.len(),
            forall|j: int|
                0 <= j < i ==> !is_version_in(*parts, #[trigger] identity_views(identities@)[j]),
        decreases identities@.len() - i,
    {
        let identity = &identities[i];
        assert(identity_views(identities@)[i as int] == identity@);
        let named = match &parts.file_name {
            Some(name) => text::equal_ignoring_ascii_case(
                name.as_str(),
                identity.file_name.as_str(),
            ),
            None => false,
        };
        let placed = match &parts.grandparent {
            Some(directory) => same_directory(directory.as_str(), identity.root.as_str()),
            None => false,
        };
        if named && version_name(&parts.parent_name) && placed {
            return true;
        }
        i = i + 1;
    }
    false
}

/// Brings `original` up to date: `observed` are its paths together with those
/// of its installations, as they are on disk now.
///
/// Updates remove the directories of old versions. Once a launcher identifies
/// the installation, paths of versions that are gone are dropped, and the
/// versions that are there replace them. Tells also whether the programs
/// changed.
pub fn resolve_squirrel_paths(
    original: &Vec<String>,
    observed: &Vec<ObservedPath>,
    identities: &Vec<SquirrelIdentity>,
) -> (resolved: (Vec<String>, bool))
    ensures
        text::texts(resolved.0@) == app_paths::programs(
            without_stale_versions(
                observed@,
                identity_views(identities@),
                observed@.len() as int,
            ),
        ),
        resolved.1 == (app_paths::path_keys(text::texts(original@)) != app_paths::path_keys(
            text::texts(resolved.0@),
        )),
{
    let mut paths: Vec<String> = Vec::new();
    let ghost views = identity_views(identities@);
    let mut i: usize = 0;
    assert(text::texts(paths@) =~= without_stale_versions(observed@, views, 0));
    while i < observed.len()
        invariant
            i <= observed@.len(),
            views == identity_views(identities@),
            text::texts(paths@) == without_stale_versions(observed@, views, i as int),
        decreases observed@.len() - i,
    {
        let ghost kept = text::texts(paths@);
        let one = &observed[i];
        if one.is_file || !version_of(&one.parts, identities) {
            paths.push(one.path.clone());
            assert(text::texts(paths@) =~= kept.push(one.path@));
        }
        i = i + 1;
    }
    sort_and_deduplicate(&mut paths);
    let changed = keys_differ(original, &paths);
    (paths, changed)
}

/// Whether the two lists differ in the programs they name.
fn keys_differ(a: &Vec<String>, b: &Vec<String>) -> (differ: bool)
    ensures
        differ == (app_paths::path_keys(text::texts(a@)) != app_paths::path_keys(
            text::texts(b@),
        )),
{
    let left = normalized_keys(a);
    let right = normalized_keys(b);
    let ghost l = text::texts(left@);
    let ghost r = text::texts(right@);
    if left.len() != right.len() {
        assert(l.len() != r.len());
        return true;
    }
    let mut i: usize = 0;
    while i < left.len()
        invariant
            i <= left@.len(),
            left@.len() == right@.len(),
            l == text::texts(left@),
            r == text::texts(right@),
            l == app_paths::path_keys(text::texts(a@)),
            r == app_paths::path_keys(text::texts(b@)),
            forall|j: int| 0 <= j < i ==> l[j] == r[j],
        decreases left@.len() - i,
    {
        assert(l[i as int] == left@[i as int]@ && r[i as int] == right@[i as int]@);
        if !text::same(left[i].as_str(), right[i].as_str()) {
            return true;
        }
        i = i + 1;
    }
    assert(l =~= r);
    false
}

/// A version that is still there is never dropped, nor is a path that belongs
/// to none of the installations.
pub proof fn only_vanished_versions_are_dropped(
    observed: Seq<ObservedPath>,
    identities: Seq<(Seq<char>, Seq<char>)>,
    i: int,
)
    requires
        0 <= i < observed.len(),
        observed[i].is_file || !is_version_of(observed[i].parts, identities),
    ensures
        app_paths::names_program(
            app_paths::programs(
                without_stale_versions(observed, identities, observed.len() as int),
            ),
            app_paths::path_key(observed[i].path@),
        ),
{
    lemma_kept(observed, identities, observed.len() as int, i);
    let kept = without_stale_versions(observed, identities, observed.len() as int);
    let j = choose|j: int| 0 <= j < kept.len() && kept[j] == observed[i].path@;
    assert(app_paths::path_key(kept[j]) == app_paths::path_key(observed[i].path@));
    app_paths::the_list_names_the_same_programs(kept, app_paths::path_key(observed[i].path@));
}

/// Whether a path is kept: a file is there, or it is that of no version.
pub open spec fn is_kept(
    observed: ObservedPath,
    identities: Seq<(Seq<char>, Seq<char>)>,
) -> bool {
    observed.is_file || !is_version_of(observed.parts, identities)
}

/// Exactly the programs of the paths that are kept are listed.
pub proof fn exactly_the_kept_programs_are_listed(
    observed: Seq<ObservedPath>,
    identities: Seq<(Seq<char>, Seq<char>)>,
    key: Seq<char>,
)
    ensures
        app_paths::names_program(
            app_paths::programs(
                without_stale_versions(observed, identities, observed.len() as int),
            ),
            key,
        ) <==> exists|i: int|
            #![trigger observed[i]]
            0 <= i < observed.len() && is_kept(observed[i], identities) && app_paths::path_key(
                observed[i].path@,
            ) == key,
{
    let kept = without_stale_versions(observed, identities, observed.len() as int);
    app_paths::the_list_names_the_same_programs(kept, key);
    if app_paths::names_program(kept, key) {
        let j = choose|j: int|
            0 <= j < kept.len() && app_paths::path_key(#[trigger] kept[j]) == key;
        let i = lemma_kept_from(observed, identities, observed.len() as int, j);
        assert(app_paths::path_key(observed[i].path@) == key);
    }
    if exists|i: int|
        #![trigger observed[i]]
        0 <= i < observed.len() && is_kept(observed[i], identities) && app_paths::path_key(
            observed[i].path@,
        ) == key {
        let i = choose|i: int|
            #![trigger observed[i]]
            0 <= i < observed.len() && is_kept(observed[i], identities) && app_paths::path_key(
                observed[i].path@,
            ) == key;
        only_vanished_versions_are_dropped(observed, identities, i);
    }
}

/// A version of a known installation that is gone is not listed, unless a path
/// that is kept names the same program.
pub proof fn vanished_versions_are_not_listed(
    observed: Seq<ObservedPath>,
    identities: Seq<(Seq<char>, Seq<char>)>,
    i: int,
)
    requires
        0 <= i < observed.len(),
        !observed[i].is_file,
        is_version_of(observed[i].parts, identities),
        forall|j: int|
            0 <= j < observed.len() && is_kept(#[trigger] observed[j], identities)
                ==> app_paths::path_key(observed[j].path@) != app_paths::path_key(
                observed[i].path@,
            ),
    ensures
        !app_paths::names_program(
            app_paths::programs(
                without_stale_versions(observed, identities, observed.len() as int),
            ),
            app_paths::path_key(observed[i].path@),
        ),
{
    exactly_the_kept_programs_are_listed(
        observed,
        identities,
        app_paths::path_key(observed[i].path@),
    );
}

/// Where the kept path number `j` comes from.
proof fn lemma_kept_from(
    observed: Seq<ObservedPath>,
    identities: Seq<(Seq<char>, Seq<char>)>,
    n: int,
    j: int,
) -> (i: int)
    requires
        n <= observed.len(),
        0 <= j < without_stale_versions(observed, identities, n).len(),
    ensures
        0 <= i < n,
        is_kept(observed[i], identities),
        observed[i].path@ == without_stale_versions(observed, identities, n)[j],
    decreases n,
{
    if j < without_stale_versions(observed, identities, n - 1).len() {
        lemma_kept_from(observed, identities, n - 1, j)
    } else {
        n - 1
    }
}

proof fn lemma_kept(
    observed: Seq<ObservedPath>,
    identities: Seq<(Seq<char>, Seq<char>)>,
    n: int,
    i: int,
)
    requires
        0 <= i < n <= observed.len(),
        observed[i].is_file || !is_version_of(observed[i].parts, identities),
    ensures
        without_stale_versions(observed, identities, n).contains(observed[i].path@),
    decreases n,
{
    let rest = without_stale_versions(observed, identities, n - 1);
    if i < n - 1 {
        lemma_kept(observed, identities, n - 1, i);
    }
    text::lemma_push_contains(rest, observed[n - 1].path@, observed[i].path@);
}

/// The executables of the first `n` installations, where `held` tells what an
/// installation holds.
pub open spec fn all_installed(
    identities: Seq<(Seq<char>, Seq<char>)>,
    held: spec_fn((Seq<char>, Seq<char>)) -> Installation,
    n: int,
) -> Seq<Seq<char>>
    decreases n,
{
    if n <= 0 {
        Seq::<Seq<char>>::empty()
    } else {
        all_installed(identities, held, n - 1) + installed_paths(held(identities[n - 1]))
    }
}

/// The installations that `paths` belong to.
pub open spec fn installations_of(
    paths: Seq<Seq<char>>,
    site: spec_fn(Seq<char>) -> SquirrelSite,
) -> Seq<(Seq<char>, Seq<char>)> {
    site_identities(paths.map_values(site), paths.len() as int)
}

/// `paths`, then the executables of their installations.
pub open spec fn expanded(
    paths: Seq<Seq<char>>,
    site: spec_fn(Seq<char>) -> SquirrelSite,
    held: spec_fn((Seq<char>, Seq<char>)) -> Installation,
) -> Seq<Seq<char>> {
    let identities = installations_of(paths, site);
    paths + all_installed(identities, held, identities.len() as int)
}

/// What `paths` are brought up to, where `site`, `held` and `observe` tell what
/// is on disk.
pub open spec fn brought_up_to_date(
    paths: Seq<Seq<char>>,
    site: spec_fn(Seq<char>) -> SquirrelSite,
    held: spec_fn((Seq<char>, Seq<char>)) -> Installation,
    observe: spec_fn(Seq<char>) -> ObservedPath,
) -> Seq<Seq<char>> {
    let all = expanded(paths, site, held);
    app_paths::programs(
        without_stale_versions(
            all.map_values(observe),
            installations_of(paths, site),
            all.len() as int,
        ),
    )
}

/// Whether `observe` and `held` tell of the same files: a path is observed
/// under its own name, and what an installation holds is there.
pub open spec fn same_files(
    held: spec_fn((Seq<char>, Seq<char>)) -> Installation,
    observe: spec_fn(Seq<char>) -> ObservedPath,
) -> bool {
    &&& forall|path: Seq<char>| (#[trigger] observe(path)).path@ == path
    &&& forall|identity: (Seq<char>, Seq<char>), path: Seq<char>| #[trigger]
        installed_paths(held(identity)).contains(path) ==> observe(path).is_file
}

proof fn lemma_installed(
    identities: Seq<(Seq<char>, Seq<char>)>,
    held: spec_fn((Seq<char>, Seq<char>)) -> Installation,
    n: int,
    path: Seq<char>,
)
    requires
        n <= identities.len(),
    ensures
        all_installed(identities, held, n).contains(path) <==> exists|k: int|
            0 <= k < n && installed_paths(held(#[trigger] identities[k])).contains(path),
    decreases n,
{
    if n > 0 {
        lemma_installed(identities, held, n - 1, path);
        let rest = all_installed(identities, held, n - 1);
        let last = installed_paths(held(identities[n - 1]));
        let all = rest + last;
        if all.contains(path) {
            let j = choose|j: int| 0 <= j < all.len() && all[j] == path;
            if j < rest.len() {
                assert(rest[j] == path);
            } else {
                assert(last[j - rest.len()] == path);
            }
        }
        if rest.contains(path) {
            let j = choose|j: int| 0 <= j < rest.len() && rest[j] == path;
            assert(all[j] == path);
        }
        if last.contains(path) {
            let j = choose|j: int| 0 <= j < last.len() && last[j] == path;
            assert(all[rest.len() + j] == path);
        }
    }
}

/// What is kept of `paths` is no version that is gone.
proof fn lemma_kept_stays(
    paths: Seq<Seq<char>>,
    observe: spec_fn(Seq<char>) -> ObservedPath,
    identities: Seq<(Seq<char>, Seq<char>)>,
    n: int,
    path: Seq<char>,
)
    requires
        n <= paths.len(),
        forall|p: Seq<char>| (#[trigger] observe(p)).path@ == p,
        without_stale_versions(paths.map_values(observe), identities, n).contains(path),
    ensures
        observe(path).is_file || !is_version_of(observe(path).parts, identities),
    decreases n,
{
    let observed = paths.map_values(observe);
    let rest = without_stale_versions(observed, identities, n - 1);
    if n > 0 && !rest.contains(path) {
        let kept = without_stale_versions(observed, identities, n);
        let j = choose|j: int| 0 <= j < kept.len() && kept[j] == path;
        if j < rest.len() {
            assert(rest[j] == path);
        }
        assert(observed[n - 1] == observe(paths[n - 1]));
    } else if n > 0 {
        lemma_kept_stays(paths, observe, identities, n - 1, path);
    }
}

/// `list` lists the programs of what is kept of `list` and `added`, where all
/// of `list` is kept and `added` names no other program.
proof fn lemma_nothing_new(
    list: Seq<Seq<char>>,
    added: Seq<Seq<char>>,
    observe: spec_fn(Seq<char>) -> ObservedPath,
    identities: Seq<(Seq<char>, Seq<char>)>,
    n: int,
)
    requires
        0 <= n <= list.len() + added.len(),
        app_paths::keys_increase(list),
        forall|p: Seq<char>| (#[trigger] observe(p)).path@ == p,
        forall|i: int|
            0 <= i < list.len() ==> observe(#[trigger] list[i]).is_file || !is_version_of(
                observe(list[i]).parts,
                identities,
            ),
        forall|i: int|
            0 <= i < added.len() ==> app_paths::names_program(
                list,
                app_paths::path_key(#[trigger] added[i]),
            ),
    ensures
        n <= list.len() ==> without_stale_versions(
            (list + added).map_values(observe),
            identities,
            n,
        ) == list.subrange(0, n),
        n >= list.len() ==> app_paths::deduplicated(
            list,
            without_stale_versions((list + added).map_values(observe), identities, n),
        ),
    decreases n,
{
    let all = list + added;
    let observed = all.map_values(observe);
    if n > 0 {
        lemma_nothing_new(list, added, observe, identities, n - 1);
        assert(observed[n - 1] == observe(all[n - 1]));
        if n <= list.len() {
            assert(all[n - 1] == list[n - 1]);
            assert(list.subrange(0, n - 1).push(list[n - 1]) =~= list.subrange(0, n));
        } else {
            assert(all[n - 1] == added[n - 1 - list.len()]);
            app_paths::lemma_known_program(
                list,
                without_stale_versions(observed, identities, n - 1),
                all[n - 1],
            );
        }
    } else {
        assert(list.subrange(0, 0) =~= Seq::<Seq<char>>::empty());
    }
    if n == list.len() {
        assert(list.subrange(0, n) =~= list);
        app_paths::lemma_list_of_programs(list);
    }
}

/// Paths that were brought up to date are left as they are, as long as the
/// files stay the same and no path belongs to an installation that the first
/// pass did not know.
///
/// The first pass does not know an installation that it knew under another
/// spelling, nor one whose updater lies in the directory of a version.
pub proof fn resolving_again_changes_nothing(
    paths: Seq<Seq<char>>,
    site: spec_fn(Seq<char>) -> SquirrelSite,
    held: spec_fn((Seq<char>, Seq<char>)) -> Installation,
    observe: spec_fn(Seq<char>) -> ObservedPath,
)
    requires
        same_files(held, observe),
        forall|i: int|
            0 <= i < installations_of(
                brought_up_to_date(paths, site, held, observe),
                site,
            ).len() ==> installations_of(paths, site).contains(
                #[trigger] installations_of(
                    brought_up_to_date(paths, site, held, observe),
                    site,
                )[i],
            ),
    ensures
        brought_up_to_date(brought_up_to_date(paths, site, held, observe), site, held, observe)
            == brought_up_to_date(paths, site, held, observe),
{
    let once = brought_up_to_date(paths, site, held, observe);
    let known = installations_of(paths, site);
    let all = expanded(paths, site, held);
    let first = all.map_values(observe);
    let kept = without_stale_versions(first, known, all.len() as int);
    app_paths::lemma_programs(kept);
    let again = installations_of(once, site);
    assert forall|i: int| 0 <= i < once.len() implies observe(#[trigger] once[i]).is_file
        || !is_version_of(observe(once[i]).parts, again) by {
        assert(app_paths::first_naming(kept, once[i]));
        assert(kept.contains(once[i]));
        lemma_kept_stays(all, observe, known, all.len() as int, once[i]);
        let parts = observe(once[i]).parts;
        if is_version_of(parts, again) {
            let k = choose|k: int|
                #![trigger again[k]]
                0 <= k < again.len() && is_version_in(parts, again[k]);
            let m = choose|m: int| 0 <= m < known.len() && known[m] == again[k];
            assert(is_version_in(parts, known[m]));
        }
    }
    let added = all_installed(again, held, again.len() as int);
    assert forall|i: int| 0 <= i < added.len() implies app_paths::names_program(
        once,
        app_paths::path_key(#[trigger] added[i]),
    ) by {
        let path = added[i];
        assert(added.contains(path));
        lemma_installed(again, held, again.len() as int, path);
        let k = choose|k: int|
            0 <= k < again.len() && installed_paths(held(#[trigger] again[k])).contains(path);
        let m = choose|m: int| 0 <= m < known.len() && known[m] == again[k];
        assert(installed_paths(held(known[m])).contains(path));
        lemma_installed(known, held, known.len() as int, path);
        let before = all_installed(known, held, known.len() as int);
        let j = choose|j: int| 0 <= j < before.len() && before[j] == path;
        assert(all[paths.len() + j] == path);
        assert(first[paths.len() + j] == observe(path));
        only_vanished_versions_are_dropped(first, known, paths.len() + j);
    }
    let total = (once.len() + added.len()) as int;
    lemma_nothing_new(once, added, observe, again, total);
    let second = without_stale_versions((once + added).map_values(observe), again, total);
    app_paths::lemma_programs(second);
    app_paths::programs_are_listed_one_way(app_paths::programs(second), once, second);
}

/// An update replaces the version that it removed: of a launcher and a version
/// that is gone, the launcher and the version that is there become the list, in
/// the order of their keys. The programs changed, and a second pass changes
/// nothing.
pub proof fn an_update_replaces_the_version_it_removed(
    launcher: Seq<char>,
    stale: Seq<char>,
    current: Seq<char>,
    identity: (Seq<char>, Seq<char>),
    site: spec_fn(Seq<char>) -> SquirrelSite,
    held: spec_fn((Seq<char>, Seq<char>)) -> Installation,
    observe: spec_fn(Seq<char>) -> ObservedPath,
)
    requires
        same_files(held, observe),
        site_identity(site(launcher)) == Some(identity),
        site_identity(site(stale)) == Some(identity),
        site_identity(site(current)) == Some(identity),
        installed_paths(held(identity)) == seq![launcher, current],
        !observe(stale).is_file,
        is_version_in(observe(stale).parts, identity),
        app_paths::path_key(launcher) != app_paths::path_key(current),
        app_paths::path_key(launcher) != app_paths::path_key(stale),
        app_paths::path_key(stale) != app_paths::path_key(current),
    ensures
        ({
            let paths = seq![launcher, stale];
            let once = brought_up_to_date(paths, site, held, observe);
            &&& once == if text::text_less(
                app_paths::path_key(launcher),
                app_paths::path_key(current),
            ) {
                seq![launcher, current]
            } else {
                seq![current, launcher]
            }
            &&& app_paths::path_keys(paths) != app_paths::path_keys(once)
            &&& brought_up_to_date(once, site, held, observe) == once
        }),
{
    let paths = seq![launcher, stale];
    let once = brought_up_to_date(paths, site, held, observe);
    let identities = installations_of(paths, site);
    lemma_one_installation(launcher, stale, identity, site);
    let all = expanded(paths, site, held);
    let installed = installed_paths(held(identity));
    assert(all =~= seq![launcher, stale, launcher, current]) by {
        reveal_with_fuel(all_installed, 2);
        assert(all_installed(identities, held, 1) =~= installed);
    }
    assert(installed[0] == launcher && installed[1] == current);
    assert(installed.contains(launcher) && installed.contains(current));
    assert(is_version_of(observe(stale).parts, identities)) by {
        assert(identities[0] == identity);
    }
    let observed = all.map_values(observe);
    let kept = without_stale_versions(observed, identities, 4);
    assert(kept =~= seq![launcher, launcher, current]) by {
        reveal_with_fuel(without_stale_versions, 5);
        assert(observed[0] == observe(launcher));
        assert(observed[1] == observe(stale));
        assert(observed[2] == observe(launcher));
        assert(observed[3] == observe(current));
    }
    let launched = app_paths::path_key(launcher);
    let updated = app_paths::path_key(current);
    text::lemma_less_total(launched, updated);
    let list = if text::text_less(launched, updated) {
        seq![launcher, current]
    } else {
        seq![current, launcher]
    };
    assert(app_paths::deduplicated(list, kept)) by {
        assert forall|i: int| 0 <= i < list.len() implies app_paths::first_naming(
            kept,
            #[trigger] list[i],
        ) by {
            assert(kept[0] == launcher && app_paths::is_first(kept, 0));
            assert(kept[1] == launcher);
            assert(kept[2] == current && app_paths::is_first(kept, 2));
        }
        assert forall|j: int| 0 <= j < kept.len() implies app_paths::names_program(
            list,
            app_paths::path_key(#[trigger] kept[j]),
        ) by {
            assert(list[0] == launcher || list[1] == launcher);
            assert(list[0] == current || list[1] == current);
        }
    }
    app_paths::lemma_programs(kept);
    app_paths::programs_are_listed_one_way(once, list, kept);
    let before = app_paths::path_keys(paths);
    let after = app_paths::path_keys(once);
    if before == after {
        let at: int = if list[0] == current {
            0
        } else {
            1
        };
        assert(after[at] == updated);
        assert(before[at] == app_paths::path_key(paths[at]));
    }
    assert(once.len() == 2);
    lemma_one_installation(once[0], once[1], identity, site);
    assert(once =~= seq![once[0], once[1]]);
    assert(identities.contains(identity)) by {
        assert(identities[0] == identity);
    }
    resolving_again_changes_nothing(paths, site, held, observe);
}

/// Two paths of one installation make a list of that installation.
proof fn lemma_one_installation(
    a: Seq<char>,
    b: Seq<char>,
    identity: (Seq<char>, Seq<char>),
    site: spec_fn(Seq<char>) -> SquirrelSite,
)
    requires
        site_identity(site(a)) == Some(identity),
        site_identity(site(b)) == Some(identity),
    ensures
        installations_of(seq![a, b], site) == seq![identity],
{
    let sites = seq![a, b].map_values(site);
    reveal_with_fuel(site_identities, 3);
    assert(sites[0] == site(a) && sites[1] == site(b));
    let first = site_identities(sites, 1);
    assert(first =~= seq![identity]);
    assert(identity_keys(first)[0] == identity_key(identity));
}

// Helpers that are updated apart from their Store application

/// A Store application that starts a helper which is updated on its own: the
/// name of the package and that of the helper's executable.
#[derive(Debug)]
pub struct Companion {
    pub package: String,
    pub executable: String,
}

/// Whether a path is that of a helper below `root`, one directory per version.
pub open spec fn is_helper_path(parts: PathParts, companion: Companion, root: Seq<char>) -> bool {
    &&& parts.file_name matches Some(name) && text::same_ignoring_ascii_case(
        name@,
        companion.executable@,
    )
    &&& parts.grandparent matches Some(directory) && app_paths::path_key(directory@)
        == app_paths::path_key(root)
}

/// Whether a path is that of a helper below `root`.
pub fn is_helper(parts: &PathParts, companion: &Companion, root: &str) -> (yes: bool)
    ensures
        yes == is_helper_path(*parts, *companion, root@),
{
    let named = match &parts.file_name {
        Some(name) => text::equal_ignoring_ascii_case(
            name.as_str(),
            companion.executable.as_str(),
        ),
        None => false,
    };
    let placed = match &parts.grandparent {
        Some(directory) => text::same(
            normalized_key(directory.as_str()).as_str(),
            normalized_key(root).as_str(),
        ),
        None => false,
    };
    named && placed
}

/// Whether a path is that of the application, or of a helper of it.
pub open spec fn selects_companion(
    observed: ObservedPath,
    companion: Companion,
    root: Seq<char>,
) -> bool {
    ||| (app_paths::store_identity(observed.path@) matches Some(identity)
        && text::same_ignoring_ascii_case(identity.0, companion.package@))
    ||| is_helper_path(observed.parts, companion, root)
}

/// Whether one of the paths is that of the application or of a helper.
pub fn companion_selected(
    observed: &Vec<ObservedPath>,
    companion: &Companion,
    root: &str,
) -> (selected: bool)
    ensures
        selected == exists|i: int|
            0 <= i < observed@.len() && selects_companion(#[trigger] observed@[i], *companion, root@),
{
    let mut i: usize = 0;
    while i < observed.len()
        invariant
            i <= observed@.len(),
            forall|j: int| 0 <= j < i ==> !selects_companion(#[trigger] observed@[j], *companion, root@),
        decreases observed@.len() - i,
    {
        let one = &observed[i];
        let packaged = match windowsapps_identity(one.path.as_str()) {
            Some((name, _)) => text::equal_ignoring_ascii_case(
                name.as_str(),
                companion.package.as_str(),
            ),
            None => false,
        };
        if packaged || is_helper(&one.parts, companion, root) {
            assert(selects_companion(observed@[i as int], *companion, root@));
            return true;
        }
        i = i + 1;
    }
    false
}

/// An entry of the directory of the helpers: whether it is a directory, and
/// where the helper would be in it.
#[derive(Debug)]
pub struct HelperEntry {
    pub is_directory: bool,
    pub helper: Candidate,
}

/// The helpers in the first `n` entries.
pub open spec fn helper_paths(entries: Seq<HelperEntry>, n: int) -> Seq<Seq<char>>
    decreases n,
{
    if n <= 0 {
        Seq::<Seq<char>>::empty()
    } else if entries[n - 1].is_directory && entries[n - 1].helper.is_file {
        helper_paths(entries, n - 1).push(
            crate::normalized_windows_path(entries[n - 1].helper.path@),
        )
    } else {
        helper_paths(entries, n - 1)
    }
}

/// Adds the helpers that are installed.
///
/// The Store application starts a helper that is updated separately. Both talk
/// to the network, so choosing the application chooses both.
pub fn add_helpers(paths: &mut Vec<String>, entries: &Vec<HelperEntry>)
    ensures
        text::texts(final(paths)@) == text::texts(old(paths)@) + helper_paths(
            entries@,
            entries@.len() as int,
        ),
{
    let ghost before = text::texts(paths@);
    let mut i: usize = 0;
    assert(text::texts(paths@) =~= before + helper_paths(entries@, 0));
    while i < entries.len()
        invariant
            i <= entries@.len(),
            text::texts(paths@) =~= before + helper_paths(entries@, i as int),
        decreases entries@.len() - i,
    {
        let ghost known = text::texts(paths@);
        let entry = &entries[i];
        if entry.is_directory && entry.helper.is_file {
            let path = normalize_windows_path(entry.helper.path.as_str());
            let ghost view = path@;
            paths.push(path);
            assert(text::texts(paths@) =~= known.push(view));
        }
        i = i + 1;
    }
}

/// The paths but those of helpers that are gone.
pub open spec fn without_stale_helpers(
    observed: Seq<ObservedPath>,
    companion: Companion,
    root: Seq<char>,
    n: int,
) -> Seq<Seq<char>>
    decreases n,
{
    if n <= 0 {
        Seq::<Seq<char>>::empty()
    } else {
        let rest = without_stale_helpers(observed, companion, root, n - 1);
        let last = observed[n - 1];
        if last.is_file || !is_helper_path(last.parts, companion, root) {
            rest.push(last.path@)
        } else {
            rest
        }
    }
}

/// Brings `original` up to date: `observed` are its paths together with the
/// installed helpers, as they are on disk now.
///
/// Only helpers below `root` are dropped, and only when they are gone. Tells
/// also whether the programs changed.
pub fn resolve_companion_paths_at(
    original: &Vec<String>,
    observed: &Vec<ObservedPath>,
    companion: &Companion,
    root: &str,
) -> (resolved: (Vec<String>, bool))
    ensures
        text::texts(resolved.0@) == app_paths::programs(
            without_stale_helpers(observed@, *companion, root@, observed@.len() as int),
        ),
        resolved.1 == (app_paths::path_keys(text::texts(original@)) != app_paths::path_keys(
            text::texts(resolved.0@),
        )),
{
    let mut paths: Vec<String> = Vec::new();
    let mut i: usize = 0;
    assert(text::texts(paths@) =~= without_stale_helpers(observed@, *companion, root@, 0));
    while i < observed.len()
        invariant
            i <= observed@.len(),
            text::texts(paths@) == without_stale_helpers(observed@, *companion, root@, i as int),
        decreases observed@.len() - i,
    {
        let ghost kept = text::texts(paths@);
        let one = &observed[i];
        if one.is_file || !is_helper(&one.parts, companion, root) {
            paths.push(one.path.clone());
            assert(text::texts(paths@) =~= kept.push(one.path@));
        }
        i = i + 1;
    }
    sort_and_deduplicate(&mut paths);
    let changed = keys_differ(original, &paths);
    (paths, changed)
}

// Store packages

/// An application that is installed.
#[derive(Debug)]
pub struct InstalledApp {
    pub id: String,
    pub name: String,
    pub path: String,
    /// Every executable of the application.
    pub paths: Vec<String>,
    /// `store` or `desktop`.
    pub source: String,
    pub package_name: Option<String>,
    /// The executables relative to the package directory.
    pub relative_paths: Vec<String>,
}

/// An installed application as plain texts.
#[verifier::ext_equal]
pub struct InstalledModel {
    pub id: Seq<char>,
    pub name: Seq<char>,
    pub path: Seq<char>,
    pub paths: Seq<Seq<char>>,
    pub source: Seq<char>,
    pub package_name: Option<Seq<char>>,
    pub relative_paths: Seq<Seq<char>>,
}

impl View for InstalledApp {
    type V = InstalledModel;

    open spec fn view(&self) -> InstalledModel {
        InstalledModel {
            id: self.id@,
            name: self.name@,
            path: self.path@,
            paths: text::texts(self.paths@),
            source: self.source@,
            package_name: match self.package_name {
                Some(name) => Some(name@),
                None => None,
            },
            relative_paths: text::texts(self.relative_paths@),
        }
    }
}

pub open spec fn app_views(apps: Seq<InstalledApp>) -> Seq<InstalledModel> {
    apps.map_values(|app: InstalledApp| app@)
}

/// The executable of `app` at or after position `from` that lies at `relative`
/// below the package directory.
pub open spec fn executable_at(app: InstalledModel, relative: Seq<char>, from: int) -> Option<
    Seq<char>,
>
    decreases app.paths.len() - from,
{
    if from < 0 || from >= app.paths.len() || from >= app.relative_paths.len() {
        None
    } else if app_paths::relative_key(app.relative_paths[from]) == relative {
        Some(app.paths[from])
    } else {
        executable_at(app, relative, from + 1)
    }
}

/// Where `app` has the executable at `relative`, if it is the Store package
/// `package`.
pub open spec fn packaged_executable(
    app: InstalledModel,
    package: Seq<char>,
    relative: Seq<char>,
) -> Option<Seq<char>> {
    if app.source != "store"@ {
        None
    } else {
        match app.package_name {
            Some(name) => if text::same_ignoring_ascii_case(name, package) {
                executable_at(app, relative, 0)
            } else {
                None
            },
            None => None,
        }
    }
}

/// Where the first application from position `from` on that has it has the
/// executable.
pub open spec fn find_executable(
    apps: Seq<InstalledModel>,
    package: Seq<char>,
    relative: Seq<char>,
    from: int,
) -> Option<Seq<char>>
    decreases apps.len() - from,
{
    if from < 0 || from >= apps.len() {
        None
    } else {
        match packaged_executable(apps[from], package, relative) {
            Some(path) => Some(path),
            None => find_executable(apps, package, relative, from + 1),
        }
    }
}

/// Where the program at `path` is now: a Store application is looked up by its
/// package, everything else stays where it is.
pub open spec fn refreshed(path: Seq<char>, apps: Seq<InstalledModel>) -> Seq<char> {
    match app_paths::store_identity(path) {
        Some((package, relative)) => match find_executable(apps, package, relative, 0) {
            Some(found) => if app_paths::path_key(path) != app_paths::path_key(found) {
                found
            } else {
                path
            },
            None => path,
        },
        None => path,
    }
}

fn packaged_path(app: &InstalledApp, package: &str, relative: &str) -> (path: Option<String>)
    ensures
        match packaged_executable(app@, package@, relative@) {
            Some(found) => path matches Some(p) && p@ == found,
            None => path is None,
        },
{
    if !text::same(app.source.as_str(), "store") {
        return None;
    }
    match &app.package_name {
        Some(name) => if !text::equal_ignoring_ascii_case(name.as_str(), package) {
            return None;
        },
        None => {
            return None;
        },
    }
    let mut i: usize = 0;
    while i < app.paths.len() && i < app.relative_paths.len()
        invariant
            i <= app.paths@.len(),
            i <= app.relative_paths@.len(),
            packaged_executable(app@, package@, relative@) == executable_at(
                app@,
                relative@,
                i as int,
            ),
        decreases app.paths@.len() - i,
    {
        assert(app@.relative_paths[i as int] == app.relative_paths@[i as int]@);
        assert(app@.paths[i as int] == app.paths@[i as int]@);
        let key = normalized_relative_path(app.relative_paths[i].as_str());
        if text::same(key.as_str(), relative) {
            return Some(app.paths[i].clone());
        }
        i = i + 1;
    }
    None
}

/// Where the executable is now.
fn find_packaged(apps: &Vec<InstalledApp>, package: &str, relative: &str) -> (path: Option<
    String,
>)
    ensures
        match find_executable(app_views(apps@), package@, relative@, 0) {
            Some(found) => path matches Some(p) && p@ == found,
            None => path is None,
        },
{
    let mut i: usize = 0;
    while i < apps.len()
        invariant
            i <= apps@.len(),
            find_executable(app_views(apps@), package@, relative@, 0) == find_executable(
                app_views(apps@),
                package@,
                relative@,
                i as int,
            ),
        decreases apps@.len() - i,
    {
        assert(app_views(apps@)[i as int] == apps@[i as int]@);
        if let Some(path) = packaged_path(&apps[i], package, relative) {
            return Some(path);
        }
        i = i + 1;
    }
    None
}

/// Points the paths of Store applications to the packages that are installed
/// now, and tells whether one of them moved.
pub fn resolve_packaged_paths(paths: &mut Vec<String>, installed: &Vec<InstalledApp>) -> (changed:
    bool)
    ensures
        text::texts(final(paths)@) == text::texts(old(paths)@).map_values(
            |path: Seq<char>| refreshed(path, app_views(installed@)),
        ),
        changed == (text::texts(final(paths)@) != text::texts(old(paths)@)),
{
    let ghost original = text::texts(paths@);
    let ghost apps = app_views(installed@);
    let mut changed = false;
    let mut i: usize = 0;
    while i < paths.len()
        invariant
            i <= paths@.len(),
            original.len() == paths@.len(),
            apps == app_views(installed@),
            forall|j: int| 0 <= j < i ==> #[trigger] paths@[j]@ == refreshed(original[j], apps),
            forall|j: int| i <= j < paths@.len() ==> #[trigger] paths@[j]@ == original[j],
            changed == exists|j: int| 0 <= j < i && #[trigger] paths@[j]@ != original[j],
        decreases paths@.len() - i,
    {
        let ghost before = paths@;
        let mut moved = false;
        if let Some((package, relative)) = windowsapps_identity(paths[i].as_str()) {
            if let Some(found) = find_packaged(installed, package.as_str(), relative.as_str()) {
                let here = normalized_key(paths[i].as_str());
                let there = normalized_key(found.as_str());
                if !text::same(here.as_str(), there.as_str()) {
                    paths.set(i, found);
                    moved = true;
                }
            }
        }
        proof {
            assert(paths@[i as int]@ == refreshed(original[i as int], apps));
            assert(moved == (paths@[i as int]@ != original[i as int]));
            if changed {
                let j = choose|j: int| 0 <= j < i && #[trigger] before[j]@ != original[j];
                assert(paths@[j]@ != original[j]);
            }
        }
        if moved {
            changed = true;
        }
        i = i + 1;
    }
    proof {
        let now = text::texts(paths@);
        assert(now =~= original.map_values(|path: Seq<char>| refreshed(path, apps)));
        if changed {
            let j = choose|j: int| 0 <= j < i && #[trigger] paths@[j]@ != original[j];
            assert(now[j] != original[j]);
        } else {
            assert forall|j: int| 0 <= j < now.len() implies now[j] == original[j] by {
                assert(paths@[j]@ == original[j]);
            }
            assert(now =~= original);
        }
    }
    changed
}

/// Whether a Store application is not where it was, so that the installed
/// applications have to be looked up.
pub fn needs_discovery(observed: &Vec<ObservedPath>) -> (needed: bool)
    ensures
        needed == exists|i: int|
            0 <= i < observed@.len() && !(#[trigger] observed@[i]).is_file
                && app_paths::store_identity(observed@[i].path@) is Some,
{
    let mut i: usize = 0;
    while i < observed.len()
        invariant
            i <= observed@.len(),
            forall|j: int|
                0 <= j < i ==> (#[trigger] observed@[j]).is_file || app_paths::store_identity(
                    observed@[j].path@,
                ) is None,
        decreases observed@.len() - i,
    {
        if !observed[i].is_file && windowsapps_identity(observed[i].path.as_str()).is_some() {
            assert(!observed@[i as int].is_file);
            return true;
        }
        i = i + 1;
    }
    false
}

/// A path that is not in the package store stays as it is, whatever is
/// installed.
pub proof fn only_store_paths_are_refreshed(path: Seq<char>, apps: Seq<InstalledModel>)
    ensures
        app_paths::store_identity(path) is None ==> refreshed(path, apps) == path,
        apps.len() == 0 ==> refreshed(path, apps) == path,
{
}

/// Directories of versions are called `app-` and something, in any case.
pub proof fn version_directories_begin_with_app(name: String, rest: Seq<char>)
    ensures
        name@ == "app-"@ + rest || name@ == "APP-"@ + rest || name@ == "App-"@ + rest
            ==> is_version_name(Some(name)),
        name@.len() < 4 ==> !is_version_name(Some(name)),
        name@.len() >= 4 && name@[3] != '-' ==> !is_version_name(Some(name)),
        name@.len() >= 4 && name@[0] != 'a' && name@[0] != 'A' ==> !is_version_name(Some(name)),
        !is_version_name(None),
{
    reveal_strlit("app-");
    reveal_strlit("APP-");
    reveal_strlit("App-");
    let lower = text::ascii_lower(name@);
    assert("app-"@ =~= seq!['a', 'p', 'p', '-']);
    if name@ == "app-"@ + rest || name@ == "APP-"@ + rest || name@ == "App-"@ + rest {
        assert(lower.subrange(0, 4) =~= "app-"@);
    }
    if text::starts_with(lower, "app-"@) {
        assert(lower.subrange(0, 4)[3] == '-');
        assert(lower.subrange(0, 4)[0] == 'a');
        text::lower_case_changes_only_letters(name@, 3);
        text::lower_case_changes_only_letters(name@, 0);
    }
}

/// A program with the updater beside it belongs to the installation in its own
/// directory. One in the directory of a version belongs to the directory above
/// where the updater is there. Any other belongs to none.
pub proof fn installations_are_found_by_their_updater(
    site: SquirrelSite,
    file_name: String,
    parent: String,
    grandparent: String,
)
    requires
        site.parts.file_name == Some(file_name),
        site.parts.parent == Some(parent),
        site.parts.grandparent == Some(grandparent),
    ensures
        site.updater_beside ==> site_identity(site) == Some((parent@, file_name@)),
        !site.updater_beside && site.updater_above && is_version_name(site.parts.parent_name)
            ==> site_identity(site) == Some((grandparent@, file_name@)),
        !site.updater_beside && !site.updater_above ==> site_identity(site) is None,
        !site.updater_beside && !is_version_name(site.parts.parent_name) ==> site_identity(site)
            is None,
{
}

/// Every installation that a path belongs to is listed, and each once.
pub proof fn every_installation_is_listed_once(sites: Seq<SquirrelSite>, n: int, i: int)
    requires
        0 <= i < n <= sites.len(),
    ensures
        site_identity(sites[i]) matches Some(identity) ==> identity_keys(
            site_identities(sites, n),
        ).contains(identity_key(identity)),
        identity_keys(site_identities(sites, n)).no_duplicates(),
    decreases n,
{
    let before = site_identities(sites, n - 1);
    let after = site_identities(sites, n);
    if n > 1 {
        every_installation_is_listed_once(sites, n - 1, if i < n - 1 { i } else { 0 });
    } else {
        assert(identity_keys(before).no_duplicates());
    }
    let keys = identity_keys(before);
    if after != before {
        assert(after =~= before.push(after.last()));
        assert(identity_keys(after) =~= keys.push(identity_key(after.last())));
        assert forall|a: int, b: int|
            0 <= a < b < identity_keys(after).len() implies identity_keys(after)[a]
                != identity_keys(after)[b] by {
            if b < keys.len() {
                assert(keys[a] != keys[b]);
            } else {
                assert(keys.contains(keys[a]));
            }
        }
    }
    match site_identity(sites[i]) {
        Some(identity) => {
            let key = identity_key(identity);
            if i < n - 1 {
                let k = choose|k: int| 0 <= k < keys.len() && keys[k] == key;
                assert(identity_keys(after)[k] == key);
            } else if !keys.contains(key) {
                assert(after == before.push(identity));
                assert(identity_keys(after)[before.len() as int] == key);
            }
        },
        None => {},
    }
}

/// An installation offers its launcher and the executable of every version
/// directory that has one, and nothing that is not there.
pub proof fn installations_offer_what_is_there(installation: Installation, path: Seq<char>)
    ensures
        installed_paths(installation).contains(path) <==> (installation.launcher.is_file && path
            == crate::normalized_windows_path(installation.launcher.path@)) || exists|i: int|
            #![trigger installation.entries@[i]]
            0 <= i < installation.entries@.len() && installation.entries@[i].is_directory
                && installation.entries@[i].executable.is_file && is_version_name(
                installation.entries@[i].name,
            ) && path == crate::normalized_windows_path(
                installation.entries@[i].executable.path@,
            ),
{
    let entries = installation.entries@;
    let versions = version_paths(entries, entries.len() as int);
    let all = installed_paths(installation);
    lemma_version_paths(entries, entries.len() as int, path);
    let head = if installation.launcher.is_file {
        seq![crate::normalized_windows_path(installation.launcher.path@)]
    } else {
        Seq::<Seq<char>>::empty()
    };
    assert(all == head + versions);
    if versions.contains(path) {
        let k = choose|k: int| 0 <= k < versions.len() && versions[k] == path;
        assert(all[head.len() + k] == path);
    }
    if head.len() > 0 && head[0] == path {
        assert(all[0] == path);
    }
    if all.contains(path) {
        let k = choose|k: int| 0 <= k < all.len() && all[k] == path;
        if k >= head.len() {
            assert(versions[k - head.len()] == path);
        } else {
            assert(head[k] == path);
        }
    }
}

proof fn lemma_version_paths(entries: Seq<VersionEntry>, n: int, path: Seq<char>)
    requires
        0 <= n <= entries.len(),
    ensures
        version_paths(entries, n).contains(path) <==> exists|i: int|
            #![trigger entries[i]]
            0 <= i < n && entries[i].is_directory && entries[i].executable.is_file
                && is_version_name(entries[i].name) && path == crate::normalized_windows_path(
                entries[i].executable.path@,
            ),
    decreases n,
{
    if n > 0 {
        lemma_version_paths(entries, n - 1, path);
        let before = version_paths(entries, n - 1);
        let after = version_paths(entries, n);
        let last = entries[n - 1];
        if holds_version(last) {
            assert(after[after.len() - 1] == crate::normalized_windows_path(last.executable.path@));
        }
        if before.contains(path) {
            let k = choose|k: int| 0 <= k < before.len() && before[k] == path;
            assert(after[k] == path);
        }
        if after.contains(path) {
            let k = choose|k: int| 0 <= k < after.len() && after[k] == path;
            if k < before.len() {
                assert(before[k] == path);
            }
        }
    }
}

/// The helpers that are added are those that are there, each in a directory of
/// its own.
pub proof fn helpers_that_are_there_are_added(entries: Seq<HelperEntry>, n: int, path: Seq<char>)
    requires
        0 <= n <= entries.len(),
    ensures
        helper_paths(entries, n).contains(path) <==> exists|i: int|
            #![trigger entries[i]]
            0 <= i < n && entries[i].is_directory && entries[i].helper.is_file && path
                == crate::normalized_windows_path(entries[i].helper.path@),
    decreases n,
{
    if n > 0 {
        helpers_that_are_there_are_added(entries, n - 1, path);
        let before = helper_paths(entries, n - 1);
        let after = helper_paths(entries, n);
        let last = entries[n - 1];
        if last.is_directory && last.helper.is_file {
            assert(after[after.len() - 1] == crate::normalized_windows_path(last.helper.path@));
        }
        if before.contains(path) {
            let k = choose|k: int| 0 <= k < before.len() && before[k] == path;
            assert(after[k] == path);
        }
        if after.contains(path) {
            let k = choose|k: int| 0 <= k < after.len() && after[k] == path;
            if k < before.len() {
                assert(before[k] == path);
            }
        }
    }
}

/// A path is dropped only where it is that of a helper below the directory of
/// the helpers and no file is there any more.
pub proof fn only_vanished_helpers_are_dropped(
    observed: Seq<ObservedPath>,
    companion: Companion,
    root: Seq<char>,
    n: int,
    path: Seq<char>,
)
    requires
        0 <= n <= observed.len(),
    ensures
        without_stale_helpers(observed, companion, root, n).contains(path) <==> exists|i: int|
            #![trigger observed[i]]
            0 <= i < n && observed[i].path@ == path && (observed[i].is_file || !is_helper_path(
                observed[i].parts,
                companion,
                root,
            )),
    decreases n,
{
    if n > 0 {
        only_vanished_helpers_are_dropped(observed, companion, root, n - 1, path);
        let before = without_stale_helpers(observed, companion, root, n - 1);
        let after = without_stale_helpers(observed, companion, root, n);
        let last = observed[n - 1];
        if last.is_file || !is_helper_path(last.parts, companion, root) {
            assert(after[after.len() - 1] == last.path@);
        }
        if before.contains(path) {
            let k = choose|k: int| 0 <= k < before.len() && before[k] == path;
            assert(after[k] == path);
        }
        if after.contains(path) {
            let k = choose|k: int| 0 <= k < after.len() && after[k] == path;
            if k < before.len() {
                assert(before[k] == path);
            }
        }
    }
}

/// A helper is known by its file name in any case and by the directory two
/// levels up, and a Store application by its package.
pub proof fn helpers_are_known_by_name_and_place(
    observed: ObservedPath,
    companion: Companion,
    root: Seq<char>,
    name: String,
    directory: String,
)
    requires
        observed.parts.file_name == Some(name),
        observed.parts.grandparent == Some(directory),
    ensures
        is_helper_path(observed.parts, companion, root) <==> text::ascii_lower(name@)
            == text::ascii_lower(companion.executable@) && app_paths::path_key(directory@)
            == app_paths::path_key(root),
        is_helper_path(observed.parts, companion, root) ==> selects_companion(
            observed,
            companion,
            root,
        ),
        app_paths::store_identity(observed.path@) matches Some((package, relative)) ==> (
        text::ascii_lower(package) == text::ascii_lower(companion.package@) ==> selects_companion(
            observed,
            companion,
            root,
        )),
        app_paths::store_identity(observed.path@) is None ==> (selects_companion(
            observed,
            companion,
            root,
        ) <==> is_helper_path(observed.parts, companion, root)),
{
}

/// A Store application that moved is found by its package and by the place of
/// the program below it, and nowhere else.
pub proof fn moved_programs_are_found_by_package_and_place(
    apps: Seq<InstalledModel>,
    path: Seq<char>,
    package: Seq<char>,
    relative: Seq<char>,
    i: int,
    k: int,
)
    requires
        app_paths::store_identity(path) == Some((package, relative)),
        0 <= i < apps.len(),
        apps[i].source == "store"@,
        apps[i].package_name matches Some(name) && text::ascii_lower(name) == text::ascii_lower(
            package,
        ),
        0 <= k < apps[i].paths.len(),
        k < apps[i].relative_paths.len(),
        app_paths::relative_key(apps[i].relative_paths[k]) == relative,
        forall|j: int|
            0 <= j < k ==> app_paths::relative_key(#[trigger] apps[i].relative_paths[j]) != relative,
        forall|j: int|
            0 <= j < i ==> (#[trigger] apps[j]).source != "store"@ || apps[j].package_name is None,
    ensures
        app_paths::path_key(refreshed(path, apps)) == app_paths::path_key(apps[i].paths[k]),
{
    lemma_executable(apps[i], relative, 0, k);
    lemma_found(apps, package, relative, 0, i);
}

proof fn lemma_executable(app: InstalledModel, relative: Seq<char>, from: int, k: int)
    requires
        0 <= from <= k < app.paths.len(),
        k < app.relative_paths.len(),
        app_paths::relative_key(app.relative_paths[k]) == relative,
        forall|j: int|
            from <= j < k ==> app_paths::relative_key(#[trigger] app.relative_paths[j]) != relative,
    ensures
        executable_at(app, relative, from) == Some(app.paths[k]),
    decreases k - from,
{
    if from < k {
        assert(app_paths::relative_key(app.relative_paths[from]) != relative);
        lemma_executable(app, relative, from + 1, k);
    }
}

proof fn lemma_found(
    apps: Seq<InstalledModel>,
    package: Seq<char>,
    relative: Seq<char>,
    from: int,
    i: int,
)
    requires
        0 <= from <= i < apps.len(),
        packaged_executable(apps[i], package, relative) is Some,
        forall|j: int|
            from <= j < i ==> (#[trigger] apps[j]).source != "store"@ || apps[j].package_name
                is None,
    ensures
        find_executable(apps, package, relative, from) == packaged_executable(
            apps[i],
            package,
            relative,
        ),
    decreases i - from,
{
    if from < i {
        assert(apps[from].source != "store"@ || apps[from].package_name is None);
        lemma_found(apps, package, relative, from + 1, i);
    }
}

/// The installed applications are looked up only where a Store application is
/// not where it was.
pub proof fn lookups_wait_for_a_missing_program(
    observed: &Vec<ObservedPath>,
    needed: bool,
)
    requires
        call_ensures(needs_discovery, (observed,), needed),
    ensures
        (forall|i: int| 0 <= i < observed@.len() ==> (#[trigger] observed@[i]).is_file) ==> !needed,
        observed@.len() > 0 && !observed@[0].is_file && app_paths::store_identity(
            observed@[0].path@,
        ) is Some ==> needed,
        observed@.len() == 1 && app_paths::store_identity(observed@[0].path@) is None ==> !needed,
{
}

/// Two identities are the same where they name the same directory and the same
/// file, whatever the spelling.
pub proof fn identities_ignore_spelling(
    a: (Seq<char>, Seq<char>),
    b: (Seq<char>, Seq<char>),
)
    requires
        app_paths::path_key(a.0) == app_paths::path_key(b.0),
    ensures
        identity_key(a) == identity_key(b) <==> text::unicode_lowercase(a.1)
            == text::unicode_lowercase(b.1),
        identity_key(a) == app_paths::path_key(a.0) + seq!['|'] + text::unicode_lowercase(a.1),
{
    reveal_strlit("|");
    assert("|"@ =~= seq!['|']);
    let head = app_paths::path_key(a.0) + "|"@;
    let x = text::unicode_lowercase(a.1);
    let y = text::unicode_lowercase(b.1);
    if identity_key(a) == identity_key(b) {
        assert((head + x).subrange(head.len() as int, (head + x).len() as int) =~= x);
        assert((head + y).subrange(head.len() as int, (head + y).len() as int) =~= y);
    }
}

} // verus!
