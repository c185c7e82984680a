//! The applications whose traffic is routed, as the user keeps them.

use vstd::prelude::*;

use crate::app_paths::{normalized_key, normalized_keys, sort_and_deduplicate};
use crate::app_paths::windowsapps_package_family;
use crate::order::SortKey;
use crate::{app_paths, normalize_windows_path, order, text};
use crate::{AppRoutingMode, AppRoutingPolicy};

verus! {

pub const SETTINGS_VERSION: u8 = 2;

/// The routed applications as they are stored.
#[derive(Debug)]
pub struct StoredSettings {
    pub version: u8,
    pub mode: AppRoutingMode,
    pub apps: Vec<String>,
    /// What version 1 stored in place of `apps`.
    pub excluded_apps: Vec<String>,
}

impl StoredSettings {
    /// The paths of the routed applications.
    pub open spec fn paths(&self) -> Seq<Seq<char>> {
        text::texts(self.apps@)
    }

    /// The settings of a user who has not chosen anything.
    pub fn fresh() -> (settings: StoredSettings)
        ensures
            settings.version == SETTINGS_VERSION,
            settings.mode is Exclude,
            settings.apps@.len() == 0,
            settings.excluded_apps@.len() == 0,
    {
        StoredSettings {
            version: SETTINGS_VERSION,
            mode: AppRoutingMode::Exclude,
            apps: Vec::new(),
            excluded_apps: Vec::new(),
        }
    }
}

/// The paths in their regular form.
pub open spec fn regular_paths(paths: Seq<Seq<char>>) -> Seq<Seq<char>> {
    paths.map_values(|path: Seq<char>| crate::normalized_windows_path(path))
}

/// The programs that `paths` name, in their regular form.
pub open spec fn regular_programs(paths: Seq<Seq<char>>) -> Seq<Seq<char>> {
    app_paths::programs(regular_paths(paths))
}

/// Settings of the current version that route `paths`.
pub open spec fn is_current(
    settings: StoredSettings,
    mode: AppRoutingMode,
    paths: Seq<Seq<char>>,
) -> bool {
    &&& settings.version == SETTINGS_VERSION
    &&& settings.mode == mode
    &&& settings.excluded_apps@.len() == 0
    &&& settings.paths() == paths
}

/// Brings settings into the current form: regular paths, each program once.
pub fn normalize(settings: &mut StoredSettings)
    ensures
        is_current(*final(settings), old(settings).mode, regular_programs(old(settings).paths())),
{
    let ghost original = settings.paths();
    let mut regular: Vec<String> = Vec::new();
    let mut i: usize = 0;
    while i < settings.apps.len()
        invariant
            i <= settings.apps@.len(),
            original == settings.paths(),
            *settings == *old(settings),
            text::texts(regular@) =~= regular_paths(original).subrange(0, i as int),
        decreases settings.apps@.len() - i,
    {
        let ghost before = text::texts(regular@);
        let path = normalize_windows_path(settings.apps[i].as_str());
        let ghost view = path@;
        assert(regular_paths(original)[i as int] == view);
        regular.push(path);
        assert(text::texts(regular@) =~= before.push(view));
        i = i + 1;
    }
    assert(text::texts(regular@) =~= regular_paths(original));
    sort_and_deduplicate(&mut regular);
    settings.version = SETTINGS_VERSION;
    settings.excluded_apps = Vec::new();
    settings.apps = regular;
}

/// Reads settings of any version that is known.
///
/// Version 1 knew exclusions only. Of a later version nothing can be told.
pub fn migrate(settings: StoredSettings) -> (result: Result<StoredSettings, String>)
    ensures
        match settings.version {
            1 => result matches Ok(s) && is_current(
                s,
                AppRoutingMode::Exclude,
                regular_programs(settings.paths() + text::texts(settings.excluded_apps@)),
            ),
            2 => result matches Ok(s) && is_current(
                s,
                settings.mode,
                regular_programs(settings.paths()),
            ),
            _ => result matches Err(message) && message@
                == "Неподдерживаемая версия настроек MouseVPN: "@ + text::decimal(
                settings.version as nat,
            ),
        },
{
    let mut settings = settings;
    if settings.version == 1 {
        let ghost paths = settings.paths() + text::texts(settings.excluded_apps@);
        settings.mode = AppRoutingMode::Exclude;
        settings.apps.append(&mut settings.excluded_apps);
        assert(settings.paths() =~= paths);
    } else if settings.version != SETTINGS_VERSION {
        let mut message = text::owned("Неподдерживаемая версия настроек MouseVPN: ");
        text::push_decimal(&mut message, settings.version as u128);
        return Err(message);
    }
    normalize(&mut settings);
    Ok(settings)
}

/// Changes how the listed applications are routed.
pub fn set_mode(settings: &mut StoredSettings, mode: AppRoutingMode)
    ensures
        is_current(*final(settings), mode, regular_programs(old(settings).paths())),
{
    normalize(settings);
    settings.mode = mode;
}

/// Adds the application at `path`, a path that was found valid.
pub fn add(settings: &mut StoredSettings, path: String)
    ensures
        is_current(
            *final(settings),
            old(settings).mode,
            app_paths::programs(regular_programs(old(settings).paths()).push(path@)),
        ),
{
    normalize(settings);
    let ghost before = settings.paths();
    let ghost view = path@;
    settings.apps.push(path);
    assert(settings.paths() =~= before.push(view));
    sort_and_deduplicate(&mut settings.apps);
}

/// The paths that do not name the program with the given key.
pub open spec fn without_program(paths: Seq<Seq<char>>, key: Seq<char>) -> Seq<Seq<char>>
    decreases paths.len(),
{
    if paths.len() == 0 {
        paths
    } else if app_paths::path_key(paths.last()) == key {
        without_program(paths.drop_last(), key)
    } else {
        without_program(paths.drop_last(), key).push(paths.last())
    }
}

/// Removes the application at `path`.
pub fn remove(settings: &mut StoredSettings, path: &str)
    ensures
        is_current(
            *final(settings),
            old(settings).mode,
            without_program(
                regular_programs(old(settings).paths()),
                app_paths::path_key(text::trim(path@)),
            ),
        ),
{
    let requested = normalized_key(text::trimmed(path).as_str());
    normalize(settings);
    let ghost listed = settings.paths();
    let mut kept: Vec<String> = Vec::new();
    let mut i: usize = 0;
    assert(text::texts(kept@) =~= without_program(listed.subrange(0, 0), requested@));
    while i < settings.apps.len()
        invariant
            i <= settings.apps@.len(),
            listed == settings.paths(),
            text::texts(kept@) == without_program(listed.subrange(0, i as int), requested@),
        decreases settings.apps@.len() - i,
    {
        let ghost before = text::texts(kept@);
        proof {
            let longer = listed.subrange(0, i + 1);
            assert(longer.drop_last() =~= listed.subrange(0, i as int));
            assert(longer.last() == settings.apps@[i as int]@);
        }
        let key = normalized_key(settings.apps[i].as_str());
        if !text::same(key.as_str(), requested.as_str()) {
            kept.push(settings.apps[i].clone());
            assert(text::texts(kept@) =~= before.push(listed[i as int]));
        }
        i = i + 1;
    }
    assert(listed.subrange(0, i as int) =~= listed);
    settings.apps = kept;
}

/// Removes every application.
pub fn clear(settings: &mut StoredSettings)
    ensures
        is_current(*final(settings), old(settings).mode, Seq::<Seq<char>>::empty()),
{
    normalize(settings);
    settings.apps.clear();
    assert(settings.paths() =~= Seq::<Seq<char>>::empty());
}

pub open spec fn trimmed_keys(paths: Seq<Seq<char>>) -> Seq<Seq<char>> {
    paths.map_values(|path: Seq<char>| app_paths::path_key(text::trim(path)))
}

/// The paths that the offer did not show, or that were selected in it.
pub open spec fn kept_by_selection(
    paths: Seq<Seq<char>>,
    offered: Seq<Seq<char>>,
    selected: Seq<Seq<char>>,
) -> Seq<Seq<char>>
    decreases paths.len(),
{
    if paths.len() == 0 {
        paths
    } else {
        let rest = kept_by_selection(paths.drop_last(), offered, selected);
        let key = app_paths::path_key(paths.last());
        if !offered.contains(key) || selected.contains(key) {
            rest.push(paths.last())
        } else {
            rest
        }
    }
}

/// The programs after a selection among offered applications.
pub open spec fn selected_programs(
    paths: Seq<Seq<char>>,
    selected: Seq<Seq<char>>,
    offered: Seq<Seq<char>>,
) -> Seq<Seq<char>> {
    app_paths::programs(
        kept_by_selection(paths, trimmed_keys(offered), app_paths::path_keys(selected)) + selected,
    )
}

/// Takes over a selection among the offered applications: what was offered and
/// not selected goes, what was not offered stays. The selected paths were
/// found valid.
pub fn set_installed_selection(
    settings: &mut StoredSettings,
    selected: Vec<String>,
    offered: &Vec<String>,
)
    ensures
        final(settings).version == old(settings).version,
        final(settings).mode == old(settings).mode,
        final(settings).excluded_apps == old(settings).excluded_apps,
        final(settings).paths() == selected_programs(
            old(settings).paths(),
            text::texts(selected@),
            text::texts(offered@),
        ),
{
    let ghost chosen = text::texts(selected@);
    let ghost shown = trimmed_keys(text::texts(offered@));
    let selected_keys = normalized_keys(&selected);
    let mut offered_keys: Vec<String> = Vec::new();
    let mut i: usize = 0;
    while i < offered.len()
        invariant
            i <= offered@.len(),
            shown == trimmed_keys(text::texts(offered@)),
            text::texts(offered_keys@) =~= shown.subrange(0, i as int),
        decreases offered@.len() - i,
    {
        let ghost before = text::texts(offered_keys@);
        let key = normalized_key(text::trimmed(offered[i].as_str()).as_str());
        let ghost view = key@;
        assert(shown[i as int] == view);
        offered_keys.push(key);
        assert(text::texts(offered_keys@) =~= before.push(view));
        i = i + 1;
    }
    assert(text::texts(offered_keys@) =~= shown);
    let ghost listed = settings.paths();
    let ghost keys = app_paths::path_keys(chosen);
    let mut kept: Vec<String> = Vec::new();
    let mut j: usize = 0;
    assert(text::texts(kept@) =~= kept_by_selection(listed.subrange(0, 0), shown, keys));
    while j < settings.apps.len()
        invariant
            j <= settings.apps@.len(),
            *settings == *old(settings),
            listed == settings.paths(),
            text::texts(selected_keys@) == keys,
            text::texts(offered_keys@) == shown,
            text::texts(kept@) == kept_by_selection(listed.subrange(0, j as int), shown, keys),
        decreases settings.apps@.len() - j,
    {
        let ghost before = text::texts(kept@);
        proof {
            let longer = listed.subrange(0, j + 1);
            assert(longer.drop_last() =~= listed.subrange(0, j as int));
            assert(longer.last() == settings.apps@[j as int]@);
        }
        let key = normalized_key(settings.apps[j].as_str());
        if !text::holds(&offered_keys, key.as_str()) || text::holds(&selected_keys, key.as_str()) {
            kept.push(settings.apps[j].clone());
            assert(text::texts(kept@) =~= before.push(listed[j as int]));
        }
        j = j + 1;
    }
    assert(listed.subrange(0, j as int) =~= listed);
    let ghost left = text::texts(kept@);
    let mut selected = selected;
    kept.append(&mut selected);
    assert(text::texts(kept@) =~= left + chosen);
    sort_and_deduplicate(&mut kept);
    settings.apps = kept;
}

proof fn lemma_without_program(paths: Seq<Seq<char>>, key: Seq<char>, other: Seq<char>)
    ensures
        app_paths::names_program(without_program(paths, key), other) <==> (other != key
            && app_paths::names_program(paths, other)),
    decreases paths.len(),
{
    if paths.len() > 0 {
        let rest = paths.drop_last();
        lemma_without_program(rest, key, other);
        assert(paths =~= rest.push(paths.last()));
        lemma_names_push(rest, paths.last(), other);
        lemma_names_push(without_program(rest, key), paths.last(), other);
    }
}

proof fn lemma_names_push(paths: Seq<Seq<char>>, path: Seq<char>, key: Seq<char>)
    ensures
        app_paths::names_program(paths.push(path), key) <==> (app_paths::names_program(paths, key)
            || app_paths::path_key(path) == key),
{
    let longer = paths.push(path);
    if app_paths::names_program(longer, key) {
        let i = choose|i: int|
            0 <= i < longer.len() && app_paths::path_key(#[trigger] longer[i]) == key;
        if i < paths.len() {
            assert(paths[i] == longer[i]);
        }
    }
    if app_paths::names_program(paths, key) {
        let i = choose|i: int|
            0 <= i < paths.len() && app_paths::path_key(#[trigger] paths[i]) == key;
        assert(longer[i] == paths[i]);
    }
    if app_paths::path_key(path) == key {
        assert(longer[paths.len() as int] == path);
    }
}

/// An application that is added is listed, and no other entry goes.
pub proof fn an_added_application_is_listed(paths: Seq<Seq<char>>, path: Seq<char>, key: Seq<char>)
    ensures
        app_paths::names_program(
            app_paths::programs(regular_programs(paths).push(path)),
            key,
        ) <==> (app_paths::names_program(regular_programs(paths), key) || key
            == app_paths::path_key(path)),
{
    lemma_names_push(regular_programs(paths), path, key);
    app_paths::the_list_names_the_same_programs(regular_programs(paths).push(path), key);
}

/// An application that is removed is gone, and no other entry goes with it.
pub proof fn a_removed_application_is_gone(paths: Seq<Seq<char>>, path: Seq<char>, key: Seq<char>)
    ensures
        app_paths::names_program(
            without_program(regular_programs(paths), app_paths::path_key(text::trim(path))),
            key,
        ) <==> (app_paths::names_program(regular_programs(paths), key) && key
            != app_paths::path_key(text::trim(path))),
{
    lemma_without_program(
        regular_programs(paths),
        app_paths::path_key(text::trim(path)),
        key,
    );
}

proof fn lemma_kept_by_selection(
    paths: Seq<Seq<char>>,
    offered: Seq<Seq<char>>,
    selected: Seq<Seq<char>>,
    key: Seq<char>,
)
    ensures
        app_paths::names_program(kept_by_selection(paths, offered, selected), key) <==> (
        app_paths::names_program(paths, key) && (!offered.contains(key) || selected.contains(key))),
    decreases paths.len(),
{
    if paths.len() > 0 {
        let rest = paths.drop_last();
        lemma_kept_by_selection(rest, offered, selected, key);
        assert(paths =~= rest.push(paths.last()));
        lemma_names_push(rest, paths.last(), key);
        lemma_names_push(kept_by_selection(rest, offered, selected), paths.last(), key);
    }
}

/// After a selection exactly the selected programs are listed, and those that
/// were listed before and not offered.
pub proof fn a_selection_decides_only_what_was_offered(
    paths: Seq<Seq<char>>,
    selected: Seq<Seq<char>>,
    offered: Seq<Seq<char>>,
    key: Seq<char>,
)
    ensures
        app_paths::names_program(selected_programs(paths, selected, offered), key) <==> (
        app_paths::names_program(selected, key) || (app_paths::names_program(paths, key)
            && !trimmed_keys(offered).contains(key))),
{
    let shown = trimmed_keys(offered);
    let keys = app_paths::path_keys(selected);
    let kept = kept_by_selection(paths, shown, keys);
    lemma_kept_by_selection(paths, shown, keys, key);
    app_paths::the_list_names_the_same_programs(kept + selected, key);
    let all = kept + selected;
    if app_paths::names_program(all, key) {
        let i = choose|i: int|
            0 <= i < all.len() && app_paths::path_key(#[trigger] all[i]) == key;
        if i < kept.len() {
            assert(kept[i] == all[i]);
        } else {
            assert(selected[i - kept.len()] == all[i]);
        }
    }
    if app_paths::names_program(kept, key) {
        let i = choose|i: int|
            0 <= i < kept.len() && app_paths::path_key(#[trigger] kept[i]) == key;
        assert(all[i] == kept[i]);
    }
    if app_paths::names_program(selected, key) {
        let i = choose|i: int|
            0 <= i < selected.len() && app_paths::path_key(#[trigger] selected[i]) == key;
        assert(all[kept.len() + i] == selected[i]);
        assert(keys[i] == key);
    }
    if keys.contains(key) {
        let i = choose|i: int| 0 <= i < keys.len() && keys[i] == key;
        assert(app_paths::path_key(selected[i]) == key);
    }
}

// Choosing applications

/// What is known of a path that is to be added.
#[derive(Debug)]
pub struct ExecutableFacts {
    pub is_absolute: bool,
    pub extension: Option<String>,
    pub is_file: bool,
    /// The canonical form of the path, or why there is none.
    pub canonical: Result<String, String>,
}

pub open spec fn is_executable_name(extension: Option<String>) -> bool {
    extension matches Some(e) && text::same_ignoring_ascii_case(e@, "exe"@)
}

/// The path under which an executable is listed, or why it cannot be.
pub open spec fn validated(facts: ExecutableFacts) -> Result<Seq<char>, Seq<char>> {
    if !facts.is_absolute {
        Err("Выберите приложение по полному пути"@)
    } else if !is_executable_name(facts.extension) {
        Err("Можно добавить только Windows-приложение (*.exe)"@)
    } else if !facts.is_file {
        Err("Файл приложения не найден"@)
    } else {
        match facts.canonical {
            Ok(path) => Ok(crate::normalized_windows_path(path@)),
            Err(detail) => Err(detail@),
        }
    }
}

/// Checks that a path is that of an executable, and gives its regular form.
pub fn validate_executable(facts: &ExecutableFacts) -> (result: Result<String, String>)
    ensures
        match validated(*facts) {
            Ok(path) => result matches Ok(p) && p@ == path,
            Err(message) => result matches Err(m) && m@ == message,
        },
{
    if !facts.is_absolute {
        return Err(text::owned("Выберите приложение по полному пути"));
    }
    let executable = match &facts.extension {
        Some(extension) => text::equal_ignoring_ascii_case(extension.as_str(), "exe"),
        None => false,
    };
    if !executable {
        return Err(text::owned("Можно добавить только Windows-приложение (*.exe)"));
    }
    if !facts.is_file {
        return Err(text::owned("Файл приложения не найден"));
    }
    match &facts.canonical {
        Ok(path) => Ok(normalize_windows_path(path.as_str())),
        Err(detail) => Err(detail.clone()),
    }
}

/// The path in the output of the file dialog, which is empty when the dialog
/// was cancelled.
pub fn chosen_path(output: &str) -> (path: Option<String>)
    ensures
        path is Some <==> text::trim(output@).len() > 0,
        path matches Some(p) ==> p@ == text::trim(output@),
{
    let path = text::trimmed(output);
    if path.unicode_len() == 0 {
        None
    } else {
        Some(path)
    }
}

/// Says that the file dialog failed, and what it said of that.
pub fn dialog_failure(stderr: &str) -> (message: String)
    ensures
        message@ == "Не удалось открыть выбор приложения: "@ + text::trim(stderr@),
{
    let mut message = text::owned("Не удалось открыть выбор приложения: ");
    message.append(text::trimmed(stderr).as_str());
    message
}

/// A routed application as it is shown.
#[derive(Debug)]
pub struct AppEntry {
    pub path: String,
    pub name: String,
    pub available: bool,
}

impl AppEntry {
    /// The application at `path`, named by the file name without extension.
    pub fn from_path(path: &str, file_stem: Option<&str>, is_file: bool) -> (entry: AppEntry)
        ensures
            entry.path@ == path@,
            entry.name@ == (match file_stem {
                Some(stem) => stem@,
                None => "Приложение"@,
            }),
            entry.available == is_file,
    {
        AppEntry {
            path: text::owned(path),
            name: match file_stem {
                Some(stem) => text::owned(stem),
                None => text::owned("Приложение"),
            },
            available: is_file,
        }
    }
}

// The policy of a session

/// A routed application and whether it can produce traffic.
#[derive(Debug)]
pub struct UsableApp {
    pub path: String,
    pub is_absolute: bool,
    pub is_file: bool,
}

/// The applications among the first `n` that can produce traffic.
pub open spec fn usable_paths(apps: Seq<UsableApp>, n: int) -> Seq<Seq<char>>
    decreases n,
{
    if n <= 0 {
        Seq::<Seq<char>>::empty()
    } else if apps[n - 1].is_absolute && apps[n - 1].is_file {
        usable_paths(apps, n - 1).push(apps[n - 1].path@)
    } else {
        usable_paths(apps, n - 1)
    }
}

/// The applications that can produce traffic. One that is uninstalled or being
/// updated stays listed, but does not stop a session.
pub fn usable_apps(apps: &Vec<UsableApp>) -> (paths: Vec<String>)
    ensures
        text::texts(paths@) == usable_paths(apps@, apps@.len() as int),
{
    let mut paths: Vec<String> = Vec::new();
    let mut i: usize = 0;
    assert(text::texts(paths@) =~= usable_paths(apps@, 0));
    while i < apps.len()
        invariant
            i <= apps@.len(),
            text::texts(paths@) == usable_paths(apps@, i as int),
        decreases apps@.len() - i,
    {
        let ghost before = text::texts(paths@);
        if apps[i].is_absolute && apps[i].is_file {
            paths.push(apps[i].path.clone());
            assert(text::texts(paths@) =~= before.push(apps@[i as int].path@));
        }
        i = i + 1;
    }
    paths
}

/// The package families of the Store applications among `paths`.
pub open spec fn families_of(paths: Seq<Seq<char>>) -> Seq<Seq<char>>
    decreases paths.len(),
{
    if paths.len() == 0 {
        Seq::<Seq<char>>::empty()
    } else {
        let rest = families_of(paths.drop_last());
        match app_paths::store_family(paths.last()) {
            Some(family) => rest.push(family),
            None => rest,
        }
    }
}

/// The names without those that are equal, but for the case of ASCII letters,
/// to the one kept before them.
pub open spec fn without_repetitions(names: Seq<Seq<char>>) -> Seq<Seq<char>>
    decreases names.len(),
{
    if names.len() == 0 {
        names
    } else {
        let rest = without_repetitions(names.drop_last());
        if rest.len() > 0 && text::same_ignoring_ascii_case(rest.last(), names.last()) {
            rest
        } else {
            rest.push(names.last())
        }
    }
}

pub open spec fn family_keys(families: Seq<Seq<char>>) -> Seq<(Seq<char>, Seq<char>)> {
    families.map_values(
        |family: Seq<char>| (text::unicode_lowercase(family), Seq::<char>::empty()),
    )
}

/// Whether `families` are those of `paths`, sorted and without repetitions.
pub open spec fn are_families(families: Seq<Seq<char>>, paths: Seq<Seq<char>>) -> bool {
    exists|sorted: Seq<Seq<char>>| #[trigger]
        order::is_sorted(sorted, families_of(paths), family_keys(families_of(paths))) && families
            == without_repetitions(sorted)
}

/// The package families of the Store applications among `apps`.
pub fn package_families(apps: &Vec<String>) -> (families: Vec<String>)
    ensures
        are_families(text::texts(families@), text::texts(apps@)),
{
    let ghost paths = text::texts(apps@);
    let mut all: Vec<String> = Vec::new();
    let mut keys: Vec<SortKey> = Vec::new();
    let mut i: usize = 0;
    assert(text::texts(all@) =~= families_of(paths.subrange(0, 0)));
    assert(order::key_views(keys@) =~= family_keys(text::texts(all@)));
    while i < apps.len()
        invariant
            i <= apps@.len(),
            paths == text::texts(apps@),
            text::texts(all@) == families_of(paths.subrange(0, i as int)),
            order::key_views(keys@) =~= family_keys(text::texts(all@)),
        decreases apps@.len() - i,
    {
        let ghost before = text::texts(all@);
        let ghost before_keys = order::key_views(keys@);
        proof {
            let longer = paths.subrange(0, i + 1);
            assert(longer.drop_last() =~= paths.subrange(0, i as int));
            assert(longer.last() == apps@[i as int]@);
        }
        if let Some(family) = windowsapps_package_family(apps[i].as_str()) {
            let ghost view = family@;
            let key = SortKey {
                first: text::to_lowercase(family.as_str()),
                second: String::new(),
            };
            let ghost key_view = key@;
            assert(key_view.1 =~= Seq::<char>::empty());
            keys.push(key);
            all.push(family);
            assert(text::texts(all@) =~= before.push(view));
            assert(order::key_views(keys@) =~= before_keys.push(key_view));
        }
        i = i + 1;
    }
    assert(paths.subrange(0, i as int) =~= paths);
    let ghost items = all@;
    let ghost views = order::key_views(keys@);
    assert(views.len() == keys@.len());
    let sorted = order::sort_by_keys(all, keys);
    let ghost listed = text::texts(sorted@);
    proof {
        let chosen = choose|chosen: Seq<int>| #[trigger]
            order::sorted_order(views, chosen) && sorted@ == order::rearranged(items, chosen);
        assert(listed =~= order::rearranged(text::texts(items), chosen));
        assert(order::is_sorted(listed, families_of(paths), family_keys(families_of(paths))));
    }
    let mut families: Vec<String> = Vec::new();
    let mut j: usize = 0;
    assert(text::texts(families@) =~= without_repetitions(listed.subrange(0, 0)));
    while j < sorted.len()
        invariant
            j <= sorted@.len(),
            listed == text::texts(sorted@),
            text::texts(families@) == without_repetitions(listed.subrange(0, j as int)),
        decreases sorted@.len() - j,
    {
        let ghost before = text::texts(families@);
        proof {
            let longer = listed.subrange(0, j + 1);
            assert(longer.drop_last() =~= listed.subrange(0, j as int));
            assert(longer.last() == sorted@[j as int]@);
            if families@.len() > 0 {
                assert(before.last() == families@.last()@);
            }
        }
        let repeated = families.len() > 0 && text::equal_ignoring_ascii_case(
            families[families.len() - 1].as_str(),
            sorted[j].as_str(),
        );
        if !repeated {
            families.push(sorted[j].clone());
            assert(text::texts(families@) =~= before.push(listed[j as int]));
        }
        j = j + 1;
    }
    assert(listed.subrange(0, j as int) =~= listed);
    families
}

/// The position of the first failure from `from` on.
pub open spec fn first_failure(sids: Seq<Result<String, String>>, from: int) -> int
    decreases sids.len() - from,
{
    if from < 0 || from >= sids.len() || sids[from] is Err {
        from
    } else {
        first_failure(sids, from + 1)
    }
}

/// Says of which package the identity could not be determined.
pub open spec fn identity_failure(family: Seq<char>, detail: Seq<char>) -> Seq<char> {
    "Не удалось определить пакет Microsoft Store "@ + family + ": "@ + detail
}

/// The policy that routes `apps` and the packages with the identities `sids`,
/// which were asked for in the order of `families`.
pub fn policy(
    mode: AppRoutingMode,
    apps: Vec<String>,
    families: &Vec<String>,
    sids: &Vec<Result<String, String>>,
) -> (result: Result<AppRoutingPolicy, String>)
    requires
        families@.len() == sids@.len(),
    ensures
        ({
            let at = first_failure(sids@, 0);
            if at < sids@.len() {
                result matches Err(message) && message@ == identity_failure(
                    families@[at]@,
                    sids@[at]->Err_0@,
                )
            } else {
                &&& result matches Ok(p)
                &&& p.mode == mode
                &&& p.apps == apps
                &&& text::texts(p.package_sids@) == sids@.map_values(
                    |sid: Result<String, String>| sid->Ok_0@,
                )
            }
        }),
{
    let ghost all = sids@.map_values(|sid: Result<String, String>| sid->Ok_0@);
    let mut package_sids: Vec<String> = Vec::new();
    let mut i: usize = 0;
    while i < sids.len()
        invariant
            i <= sids@.len(),
            families@.len() == sids@.len(),
            all == sids@.map_values(|sid: Result<String, String>| sid->Ok_0@),
            first_failure(sids@, 0) == first_failure(sids@, i as int),
            text::texts(package_sids@) =~= all.subrange(0, i as int),
        decreases sids@.len() - i,
    {
        let ghost before = text::texts(package_sids@);
        match &sids[i] {
            Ok(sid) => {
                package_sids.push(sid.clone());
                assert(all[i as int] == sid@);
                assert(text::texts(package_sids@) =~= before.push(sid@));
            },
            Err(detail) => {
                let mut message = text::owned("Не удалось определить пакет Microsoft Store ");
                message.append(families[i].as_str());
                message.append(": ");
                message.append(detail.as_str());
                return Err(message);
            },
        }
        i = i + 1;
    }
    assert(text::texts(package_sids@) =~= all);
    Ok(AppRoutingPolicy { mode, apps, package_sids })
}

/// A path is listed only where it is absolute, that of an executable by its
/// extension in any case, and there. What is listed is its regular form.
pub proof fn only_executables_are_listed(facts: ExecutableFacts, extension: String)
    requires
        facts.extension == Some(extension),
    ensures
        facts.is_absolute && facts.is_file && (extension@ == "exe"@ || extension@ == "EXE"@
            || extension@ == "Exe"@) ==> (match facts.canonical {
            Ok(path) => validated(facts) == Ok::<Seq<char>, Seq<char>>(
                crate::normalized_windows_path(path@),
            ),
            Err(detail) => validated(facts) == Err::<Seq<char>, Seq<char>>(detail@),
        }),
        !facts.is_absolute ==> validated(facts) == Err::<Seq<char>, Seq<char>>(
            "Выберите приложение по полному пути"@,
        ),
        facts.is_absolute && extension@.len() != 3 ==> validated(facts) == Err::<
            Seq<char>,
            Seq<char>,
        >("Можно добавить только Windows-приложение (*.exe)"@),
        facts.is_absolute && extension@ == "exe"@ && !facts.is_file ==> validated(facts) == Err::<
            Seq<char>,
            Seq<char>,
        >("Файл приложения не найден"@),
{
    reveal_strlit("exe");
    reveal_strlit("EXE");
    reveal_strlit("Exe");
    assert(text::ascii_lower("EXE"@) =~= text::ascii_lower("exe"@));
    assert(text::ascii_lower("Exe"@) =~= text::ascii_lower("exe"@));
    if text::same_ignoring_ascii_case(extension@, "exe"@) {
        assert(text::ascii_lower(extension@).len() == 3);
    }
}

/// Settings of the first version only excluded applications, those of the
/// second say what they do, and no others are read.
pub proof fn settings_of_both_versions_are_read(
    settings: StoredSettings,
    result: Result<StoredSettings, String>,
)
    requires
        call_ensures(migrate, (settings,), result),
    ensures
        result is Ok <==> settings.version == 1 || settings.version == 2,
        result matches Ok(s) ==> s.version == 2 && s.excluded_apps@.len() == 0,
        settings.version == 1 ==> (result matches Ok(s) && s.mode is Exclude),
        settings.version == 2 ==> (result matches Ok(s) && s.mode == settings.mode),
        settings.version == 1 ==> (result matches Ok(s) && forall|key: Seq<char>| #[trigger]
            app_paths::names_program(s.paths(), key) <==> app_paths::names_program(
                regular_paths(settings.paths() + text::texts(settings.excluded_apps@)),
                key,
            )),
        SETTINGS_VERSION == 2,
{
    if settings.version == 1 {
        let all = regular_paths(settings.paths() + text::texts(settings.excluded_apps@));
        assert forall|key: Seq<char>| #[trigger]
            app_paths::names_program(app_paths::programs(all), key) <==> app_paths::names_program(
                all,
                key,
            ) by {
            app_paths::the_list_names_the_same_programs(all, key);
        }
    }
}

/// A session routes exactly the listed applications that can produce traffic:
/// those whose path is absolute and leads to a file.
pub proof fn usable_applications_are_routed(apps: Seq<UsableApp>, n: int, path: Seq<char>)
    requires
        0 <= n <= apps.len(),
    ensures
        usable_paths(apps, n).contains(path) <==> exists|i: int|
            0 <= i < n && #[trigger] apps[i].path@ == path && apps[i].is_absolute
                && apps[i].is_file,
    decreases n,
{
    if n > 0 {
        usable_applications_are_routed(apps, n - 1, path);
        let before = usable_paths(apps, n - 1);
        let after = usable_paths(apps, n);
        let last = apps[n - 1];
        if before.contains(path) {
            let k = choose|k: int| 0 <= k < before.len() && before[k] == path;
            assert(after[k] == path);
        }
        if after != before {
            assert(after[after.len() - 1] == last.path@);
        }
        if after.contains(path) && !before.contains(path) {
            let k = choose|k: int| 0 <= k < after.len() && after[k] == path;
            if k < before.len() {
                assert(before[k] == path);
            }
            assert(apps[n - 1].path@ == path);
        }
        if exists|i: int|
            0 <= i < n && #[trigger] apps[i].path@ == path && apps[i].is_absolute
                && apps[i].is_file {
            let i = choose|i: int|
                0 <= i < n && #[trigger] apps[i].path@ == path && apps[i].is_absolute
                    && apps[i].is_file;
            if i < n - 1 {
                assert(before.contains(path));
            } else {
                assert(after[after.len() - 1] == path);
            }
        }
    }
}

/// No two families that stand beside each other are the same, and every family
/// stays, at least in another case.
pub proof fn repetitions_are_left_out(names: Seq<Seq<char>>, i: int)
    ensures
        0 < i < without_repetitions(names).len() ==> text::ascii_lower(
            without_repetitions(names)[i - 1],
        ) != text::ascii_lower(without_repetitions(names)[i]),
        names.len() > 0 ==> without_repetitions(names).len() > 0 && text::ascii_lower(
            without_repetitions(names).last(),
        ) == text::ascii_lower(names.last()),
        names.len() > 0 ==> without_repetitions(names.drop_last()).len() <= without_repetitions(
            names,
        ).len() <= without_repetitions(names.drop_last()).len() + 1,
    decreases names.len(),
{
    if names.len() > 0 {
        repetitions_are_left_out(names.drop_last(), i);
    }
}

/// A session routes all packages or none: the policy holds the identity of
/// every family, in their order, or names the first that has none.
pub proof fn policies_hold_every_identity(
    mode: AppRoutingMode,
    apps: Vec<String>,
    families: &Vec<String>,
    sids: &Vec<Result<String, String>>,
    result: Result<AppRoutingPolicy, String>,
)
    requires
        families@.len() == sids@.len(),
        call_ensures(policy, (mode, apps, families, sids), result),
    ensures
        (forall|i: int| 0 <= i < sids@.len() ==> (#[trigger] sids@[i]) is Ok) <==> result is Ok,
        result matches Ok(p) ==> p.mode == mode && p.apps == apps && p.package_sids@.len()
            == sids@.len(),
        result matches Err(message) ==> exists|i: int|
            0 <= i < sids@.len() && (#[trigger] sids@[i]) is Err && message@
                == "Не удалось определить пакет Microsoft Store "@ + families@[i]@ + ": "@
                + sids@[i]->Err_0@ && forall|j: int|
                0 <= j < i ==> (#[trigger] sids@[j]) is Ok,
{
    lemma_first_failure(sids@, 0);
    let at = first_failure(sids@, 0);
    if at < sids@.len() {
        assert(sids@[at] is Err);
    } else {
        match result {
            Ok(p) => {
                assert(text::texts(p.package_sids@).len() == sids@.len());
            },
            Err(_) => {},
        }
    }
}

proof fn lemma_first_failure(sids: Seq<Result<String, String>>, from: int)
    requires
        0 <= from <= sids.len(),
    ensures
        from <= first_failure(sids, from) <= sids.len(),
        first_failure(sids, from) < sids.len() ==> sids[first_failure(sids, from)] is Err,
        forall|j: int| from <= j < first_failure(sids, from) ==> (#[trigger] sids[j]) is Ok,
    decreases sids.len() - from,
{
    if from < sids.len() && sids[from] is Ok {
        lemma_first_failure(sids, from + 1);
    }
}

/// The families are those of the Store applications, in the order of the paths,
/// and other paths have none.
pub proof fn families_come_from_store_paths(paths: Seq<Seq<char>>, path: Seq<char>)
    ensures
        app_paths::store_family(path) matches Some(family) ==> families_of(paths.push(path))
            == families_of(paths).push(family),
        app_paths::store_family(path) is None ==> families_of(paths.push(path)) == families_of(
            paths,
        ),
        families_of(Seq::<Seq<char>>::empty()).len() == 0,
{
    assert(paths.push(path).drop_last() =~= paths);
}

/// Families that are listed stand in the order of their lowercase form.
pub proof fn families_are_listed_in_order(families: Seq<Seq<char>>, paths: Seq<Seq<char>>)
    requires
        are_families(families, paths),
    ensures
        families.len() <= families_of(paths).len(),
        families_of(paths).len() == 0 ==> families.len() == 0,
        families_of(paths).len() > 0 ==> families.len() > 0,
{
    let all = families_of(paths);
    let sorted = choose|sorted: Seq<Seq<char>>| #[trigger]
        order::is_sorted(sorted, all, family_keys(all)) && families == without_repetitions(sorted);
    assert(sorted.len() == all.len());
    lemma_fewer_without_repetitions(sorted);
    repetitions_are_left_out(sorted, 0);
}

proof fn lemma_fewer_without_repetitions(names: Seq<Seq<char>>)
    ensures
        without_repetitions(names).len() <= names.len(),
    decreases names.len(),
{
    if names.len() > 0 {
        lemma_fewer_without_repetitions(names.drop_last());
    }
}

} // verus!
