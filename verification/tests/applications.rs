use mousevpn_client::app_exclusions::{
    add, chosen_path, clear, migrate, normalize, package_families, policy, remove,
    set_installed_selection, set_mode, usable_apps, validate_executable, AppEntry,
    ExecutableFacts, StoredSettings, UsableApp,
};
use mousevpn_client::app_paths::{
    normalized_key, normalized_relative_path, same_directory, settle, sort_and_deduplicate,
    windowsapps_identity, windowsapps_package_family,
};
use mousevpn_client::discovery::{discover_installed_apps, report, DiscoveredApp};
use mousevpn_client::installations::{
    add_helpers, add_installed, companion_selected, needs_discovery, resolve_companion_paths_at,
    resolve_packaged_paths, resolve_squirrel_paths, squirrel_identities, Candidate, Companion,
    HelperEntry, InstalledApp, Installation, ObservedPath, PathParts, SquirrelSite, VersionEntry,
};
use mousevpn_client::settings_file::{
    after_read, after_removal, after_replace_step, first_replace_step, AfterReplace, ReadOutcome,
    ReplaceStep, SettingsSource,
};
use mousevpn_client::error::{IoError, IoErrorKind};
use mousevpn_client::AppRoutingMode;

fn owned(list: &[&str]) -> Vec<String> {
    list.iter().map(|item| (*item).to_owned()).collect()
}

fn settings(version: u8, apps: &[&str], excluded: &[&str]) -> StoredSettings {
    StoredSettings {
        version,
        mode: AppRoutingMode::Include,
        apps: owned(apps),
        excluded_apps: owned(excluded),
    }
}

#[test]
fn windows_paths_are_deduplicated_case_insensitively() {
    let mut paths = owned(&[r"C:\Games\Mouse.exe", r"c:/games/mouse.EXE"]);
    sort_and_deduplicate(&mut paths);
    assert_eq!(paths.len(), 1);
}

#[test]
fn normalized_keys_use_windows_separators() {
    assert_eq!(normalized_key("C:/Apps/Game.exe"), r"c:\apps\game.exe");
}

#[test]
fn normalizing_settings_removes_extended_path_prefixes() {
    let mut settings = settings(2, &[r"\\?\C:\Apps\Browser.exe"], &[]);
    normalize(&mut settings);
    assert_eq!(settings.apps, [r"C:\Apps\Browser.exe"]);
}

#[test]
fn extracts_stable_identity_from_windowsapps_path() {
    assert_eq!(
        windowsapps_identity(
            r"D:\WindowsApps\Vendor_App_1.2.3.0_x64__publisher\app\Client.exe"
        ),
        Some(("Vendor_App".to_owned(), r"app\client.exe".to_owned()))
    );
}

#[test]
fn extracts_package_family_from_windowsapps_path() {
    assert_eq!(
        windowsapps_package_family(
            r"C:\Program Files\WindowsApps\Claude_1.30096.5.0_x64__pz87srrgttv7p\app\client.exe"
        ),
        Some("Claude_pz87srrgttv7p".to_owned())
    );
}

#[test]
fn refreshes_a_store_path_after_package_update() {
    let mut paths = owned(&[
        r"C:\Program Files\WindowsApps\OpenAI.Codex_1.0.0.0_x64__publisher\app\ChatGPT.exe",
    ]);
    let installed = vec![InstalledApp {
        id: "store:OpenAI.Codex_publisher!App".to_owned(),
        name: "ChatGPT".to_owned(),
        path: r"C:\Program Files\WindowsApps\OpenAI.Codex_2.0.0.0_x64__publisher\app\ChatGPT.exe"
            .to_owned(),
        paths: owned(&[
            r"C:\Program Files\WindowsApps\OpenAI.Codex_2.0.0.0_x64__publisher\app\ChatGPT.exe",
        ]),
        source: "store".to_owned(),
        package_name: Some("OpenAI.Codex".to_owned()),
        relative_paths: owned(&[r"app\ChatGPT.exe"]),
    }];
    assert!(resolve_packaged_paths(&mut paths, &installed));
    assert_eq!(
        paths[0],
        r"C:\Program Files\WindowsApps\OpenAI.Codex_2.0.0.0_x64__publisher\app\ChatGPT.exe"
    );
    // Nothing moves a second time.
    assert!(!resolve_packaged_paths(&mut paths, &installed));
}

fn parts(file_name: &str, parent: &str, parent_name: &str, grandparent: &str) -> PathParts {
    PathParts {
        file_name: Some(file_name.to_owned()),
        parent: Some(parent.to_owned()),
        parent_name: Some(parent_name.to_owned()),
        grandparent: Some(grandparent.to_owned()),
    }
}

fn launcher_parts() -> PathParts {
    parts("Client.exe", r"C:\Apps\Client", "Client", r"C:\Apps")
}

fn version_parts(version: &str) -> PathParts {
    let directory = format!(r"C:\Apps\Client\{version}");
    parts("Client.exe", &directory, version, r"C:\Apps\Client")
}

#[test]
fn expands_and_refreshes_squirrel_application_paths() {
    let launcher = r"C:\Apps\Client\Client.exe";
    let stale = r"C:\Apps\Client\app-1.0.0\Client.exe";
    let current = r"C:\Apps\Client\app-2.0.0\Client.exe";
    let original = owned(&[launcher, stale]);
    let sites = vec![
        SquirrelSite { parts: launcher_parts(), updater_beside: true, updater_above: false },
        SquirrelSite {
            parts: version_parts("app-1.0.0"),
            updater_beside: false,
            updater_above: true,
        },
    ];
    let identities = squirrel_identities(&sites);
    assert_eq!(identities.len(), 1);
    assert_eq!(identities[0].root, r"C:\Apps\Client");

    let mut paths = original.clone();
    add_installed(
        &mut paths,
        &Installation {
            launcher: Candidate { path: launcher.to_owned(), is_file: true },
            entries: vec![
                VersionEntry {
                    name: Some("app-2.0.0".to_owned()),
                    is_directory: true,
                    executable: Candidate { path: current.to_owned(), is_file: true },
                },
                VersionEntry {
                    name: Some("packages".to_owned()),
                    is_directory: true,
                    executable: Candidate {
                        path: r"C:\Apps\Client\packages\Client.exe".to_owned(),
                        is_file: true,
                    },
                },
            ],
        },
    );
    assert_eq!(paths.len(), 4);
    let observed = vec![
        ObservedPath { path: launcher.to_owned(), parts: launcher_parts(), is_file: true },
        ObservedPath { path: stale.to_owned(), parts: version_parts("app-1.0.0"), is_file: false },
        ObservedPath { path: launcher.to_owned(), parts: launcher_parts(), is_file: true },
        ObservedPath { path: current.to_owned(), parts: version_parts("app-2.0.0"), is_file: true },
    ];
    let (paths, changed) = resolve_squirrel_paths(&original, &observed, &identities);
    assert!(changed);
    assert_eq!(paths.len(), 2);
    assert!(paths.contains(&launcher.to_owned()));
    assert!(paths.contains(&current.to_owned()));
}

#[test]
fn resolving_the_same_files_again_changes_nothing() {
    let launcher = r"C:\Apps\Client\Client.exe";
    let current = r"C:\Apps\Client\app-2.0.0\Client.exe";
    let observe = |path: &str| {
        let parts = if path == launcher { launcher_parts() } else { version_parts("app-2.0.0") };
        ObservedPath { path: path.to_owned(), parts, is_file: true }
    };
    let mut paths = owned(&[launcher]);
    for expected in [true, false] {
        let sites = paths
            .iter()
            .map(|path| SquirrelSite {
                parts: observe(path).parts,
                updater_beside: path == launcher,
                updater_above: path == current,
            })
            .collect();
        let identities = squirrel_identities(&sites);
        assert_eq!(identities.len(), 1);
        let mut all = paths.clone();
        add_installed(
            &mut all,
            &Installation {
                launcher: Candidate { path: launcher.to_owned(), is_file: true },
                entries: vec![VersionEntry {
                    name: Some("app-2.0.0".to_owned()),
                    is_directory: true,
                    executable: Candidate { path: current.to_owned(), is_file: true },
                }],
            },
        );
        let observed = all.iter().map(|path| observe(path)).collect();
        let (resolved, changed) = resolve_squirrel_paths(&paths, &observed, &identities);
        assert_eq!(changed, expected);
        assert_eq!(resolved, [current, launcher]);
        paths = resolved;
    }
}

#[test]
fn the_case_of_the_drive_does_not_tell_directories_apart() {
    assert!(same_directory(r"c:\Apps\Client", r"C:\Apps\Client"));
    assert!(same_directory(r"\\?\c:\Apps", r"\\?\C:\Apps"));
    assert!(!same_directory(r"C:\apps\Client", r"C:\Apps\Client"));
    assert!(!same_directory(r"\\server\share", r"\\Server\share"));
    assert!(!same_directory(r"C:\Apps", r"D:\Apps"));
    assert!(!same_directory(r"C:\Apps", r"C:\Apps\Client"));
}

#[test]
fn a_vanished_version_goes_whatever_the_case_of_its_drive() {
    let stale = r"C:\Apps\Client\app-1.0.0\Client.exe";
    let identities = squirrel_identities(&vec![SquirrelSite {
        parts: parts("Client.exe", r"c:\Apps\Client", "Client", r"c:\Apps"),
        updater_beside: true,
        updater_above: false,
    }]);
    let observed = vec![ObservedPath {
        path: stale.to_owned(),
        parts: version_parts("app-1.0.0"),
        is_file: false,
    }];
    let (paths, changed) = resolve_squirrel_paths(&owned(&[stale]), &observed, &identities);
    assert!(changed);
    assert!(paths.is_empty());
}

#[test]
fn paths_are_listed_anew_only_where_they_changed() {
    let mut paths = owned(&[r"C:\b.exe", r"C:\a.exe", r"c:\B.exe"]);
    assert!(!settle(&mut paths, false));
    assert_eq!(paths, [r"C:\b.exe", r"C:\a.exe", r"c:\B.exe"]);
    assert!(settle(&mut paths, true));
    assert_eq!(paths, [r"C:\a.exe", r"C:\b.exe"]);
}

#[test]
fn a_path_without_an_updater_belongs_to_no_installation() {
    let sites = vec![
        SquirrelSite { parts: launcher_parts(), updater_beside: false, updater_above: true },
        SquirrelSite {
            parts: version_parts("app-1.0.0"),
            updater_beside: false,
            updater_above: false,
        },
    ];
    assert!(squirrel_identities(&sites).is_empty());
}

#[test]
fn a_vanished_file_outside_an_installation_stays_listed() {
    let path = r"C:\Apps\Other\Other.exe";
    let observed = vec![ObservedPath {
        path: path.to_owned(),
        parts: parts("Other.exe", r"C:\Apps\Other", "Other", r"C:\Apps"),
        is_file: false,
    }];
    let (paths, changed) = resolve_squirrel_paths(&owned(&[path]), &observed, &Vec::new());
    assert_eq!(paths, [path]);
    assert!(!changed);
}

#[test]
fn groups_and_refreshes_store_claude_with_its_code_helper() {
    let companion = Companion { package: "Vendor.App".to_owned(), executable: "tool.exe".to_owned() };
    let root = r"C:\Users\mouse\AppData\Roaming\Vendor\tool";
    let store = r"C:\Program Files\WindowsApps\Vendor.App_1.30096.5.0_x64__publisher\app\App.exe";
    let stale = r"C:\Users\mouse\AppData\Roaming\Vendor\tool\2.1.229\tool.exe";
    let current = r"C:\Users\mouse\AppData\Roaming\Vendor\tool\2.1.230\tool.exe";
    let helper = |version: &str| {
        parts("tool.exe", &format!(r"{root}\{version}"), version, root)
    };
    let observe = |path: &str, parts: PathParts, is_file: bool| ObservedPath {
        path: path.to_owned(),
        parts,
        is_file,
    };
    let store_parts = || parts("App.exe", r"C:\App", "app", r"C:\");
    let original = owned(&[store, stale]);
    let before = vec![
        observe(store, store_parts(), true),
        observe(stale, helper("2.1.229"), false),
    ];
    assert!(companion_selected(&before, &companion, root));
    assert!(!companion_selected(&Vec::new(), &companion, root));

    let mut paths = original.clone();
    add_helpers(
        &mut paths,
        &vec![
            HelperEntry {
                is_directory: true,
                helper: Candidate { path: current.to_owned(), is_file: true },
            },
            HelperEntry {
                is_directory: false,
                helper: Candidate { path: root.to_owned(), is_file: true },
            },
        ],
    );
    assert_eq!(paths.len(), 3);
    let observed = vec![
        observe(store, store_parts(), true),
        observe(stale, helper("2.1.229"), false),
        observe(current, helper("2.1.230"), true),
    ];
    let (paths, changed) = resolve_companion_paths_at(&original, &observed, &companion, root);
    assert!(changed);
    assert_eq!(paths.len(), 2);
    assert!(paths.contains(&store.to_owned()));
    assert!(paths.contains(&current.to_owned()));
}

#[test]
fn version_one_exclusions_migrate_to_denylist() {
    let settings = migrate(settings(1, &[], &[r"C:\Apps\Browser.exe"])).unwrap();
    assert_eq!(settings.version, 2);
    assert_eq!(settings.mode, AppRoutingMode::Exclude);
    assert_eq!(settings.apps, [r"C:\Apps\Browser.exe"]);
    assert!(settings.excluded_apps.is_empty());
}

#[test]
fn settings_of_a_later_version_are_refused() {
    assert_eq!(
        migrate(settings(3, &[], &[])).unwrap_err(),
        "Неподдерживаемая версия настроек MouseVPN: 3"
    );
    let current = migrate(settings(2, &[r"C:\A.exe"], &[r"C:\B.exe"])).unwrap();
    assert_eq!(current.mode, AppRoutingMode::Include);
    assert_eq!(current.apps, [r"C:\A.exe"]);
}

#[test]
fn keys_lowercase_letters_of_any_script() {
    assert_eq!(normalized_key(r"\\?\C:\Игры\МЫШЬ.EXE"), r"c:\игры\мышь.exe");
    assert_eq!(normalized_relative_path("/App/Ёж.exe"), r"app\ёж.exe");
}

#[test]
fn programs_are_listed_in_the_order_of_their_keys() {
    let mut paths = owned(&[r"C:\b.exe", r"C:\A.exe", r"c:\B.EXE", r"C:\c.exe"]);
    sort_and_deduplicate(&mut paths);
    assert_eq!(paths, [r"C:\A.exe", r"C:\b.exe", r"C:\c.exe"]);
    let once = paths.clone();
    sort_and_deduplicate(&mut paths);
    assert_eq!(paths, once);
}

#[test]
fn a_path_outside_the_store_has_no_identity() {
    assert_eq!(windowsapps_identity(r"C:\Apps\Game.exe"), None);
    assert_eq!(windowsapps_identity(r"C:\WindowsApps\Short_1.0_x64\a.exe"), None);
    assert_eq!(windowsapps_identity(r"C:\WindowsApps\App_1_x64__publisher"), None);
    assert_eq!(windowsapps_package_family(r"C:\WindowsApps\App_1_x64__\a.exe"), None);
}

#[test]
fn a_marker_that_moved_in_lower_case_is_not_followed() {
    // The lowercase form of this letter is one byte longer.
    assert_eq!(
        windowsapps_identity("C:\\İ\\WindowsApps\\я_1.0_x64__publisher\\a.exe"),
        None
    );
}

#[test]
fn applications_are_added_and_removed_by_program() {
    let mut settings = settings(2, &[r"C:\A.exe"], &[]);
    add(&mut settings, r"C:\B.exe".to_owned());
    assert_eq!(settings.apps, [r"C:\A.exe", r"C:\B.exe"]);
    add(&mut settings, r"c:/b.exe".to_owned());
    assert_eq!(settings.apps.len(), 2);
    remove(&mut settings, " c:/a.EXE ");
    assert_eq!(settings.apps, [r"C:\B.exe"]);
    set_mode(&mut settings, AppRoutingMode::Exclude);
    assert_eq!(settings.mode, AppRoutingMode::Exclude);
    clear(&mut settings);
    assert!(settings.apps.is_empty());
    assert!(StoredSettings::fresh().apps.is_empty());
}

#[test]
fn a_selection_decides_only_what_was_offered() {
    let mut settings = settings(2, &[r"C:\Own.exe", r"C:\Old.exe", r"C:\Kept.exe"], &[]);
    set_installed_selection(
        &mut settings,
        owned(&[r"C:\Kept.exe", r"C:\New.exe"]),
        &owned(&[r" c:\old.exe ", r"C:\Kept.exe", r"C:\New.exe"]),
    );
    assert_eq!(settings.apps, [r"C:\Kept.exe", r"C:\New.exe", r"C:\Own.exe"]);
}

fn facts() -> ExecutableFacts {
    ExecutableFacts {
        is_absolute: true,
        extension: Some("EXE".to_owned()),
        is_file: true,
        canonical: Ok(r"\\?\C:\Apps\Game.exe".to_owned()),
    }
}

#[test]
fn only_existing_executables_are_accepted() {
    assert_eq!(validate_executable(&facts()).unwrap(), r"C:\Apps\Game.exe");
    assert_eq!(
        validate_executable(&ExecutableFacts { is_absolute: false, ..facts() }).unwrap_err(),
        "Выберите приложение по полному пути"
    );
    assert_eq!(
        validate_executable(&ExecutableFacts { extension: None, ..facts() }).unwrap_err(),
        "Можно добавить только Windows-приложение (*.exe)"
    );
    assert_eq!(
        validate_executable(&ExecutableFacts { is_file: false, ..facts() }).unwrap_err(),
        "Файл приложения не найден"
    );
    assert_eq!(
        validate_executable(&ExecutableFacts { canonical: Err("busy".to_owned()), ..facts() })
            .unwrap_err(),
        "busy"
    );
    assert_eq!(chosen_path("  \r\n"), None);
    assert_eq!(chosen_path(" C:\\a.exe\r\n"), Some("C:\\a.exe".to_owned()));
    let entry = AppEntry::from_path(r"C:\a.exe", None, false);
    assert_eq!(entry.name, "Приложение");
    assert!(!entry.available);
}

#[test]
fn a_policy_names_each_package_once() {
    let apps = vec![
        UsableApp { path: r"C:\gone.exe".to_owned(), is_absolute: true, is_file: false },
        UsableApp {
            path: r"C:\WindowsApps\B_1_x64__pub\b.exe".to_owned(),
            is_absolute: true,
            is_file: true,
        },
        UsableApp {
            path: r"C:\WindowsApps\a_1_x64__pub\a.exe".to_owned(),
            is_absolute: true,
            is_file: true,
        },
        UsableApp {
            path: r"C:\WindowsApps\A_2_x64__pub\c.exe".to_owned(),
            is_absolute: true,
            is_file: true,
        },
    ];
    let paths = usable_apps(&apps);
    assert_eq!(paths.len(), 3);
    let families = package_families(&paths);
    assert_eq!(families, ["a_pub", "B_pub"]);
    let sids = vec![Ok("S-1".to_owned()), Ok("S-2".to_owned())];
    let routed = policy(AppRoutingMode::Include, paths.clone(), &families, &sids).unwrap();
    assert_eq!(routed.package_sids, ["S-1", "S-2"]);
    assert_eq!(routed.apps, paths);
    let failing = vec![Ok("S-1".to_owned()), Err("unknown".to_owned())];
    assert_eq!(
        policy(AppRoutingMode::Include, paths, &families, &failing).unwrap_err(),
        "Не удалось определить пакет Microsoft Store B_pub: unknown"
    );
}

fn reported(id: &str, name: &str, paths: &[&str], relative: &[&str]) -> InstalledApp {
    InstalledApp {
        id: id.to_owned(),
        name: name.to_owned(),
        path: paths[0].to_owned(),
        paths: owned(paths),
        source: "desktop".to_owned(),
        package_name: None,
        relative_paths: owned(relative),
    }
}

#[test]
fn offered_applications_are_cleaned_and_sorted() {
    assert_eq!(report(" \u{feff}[]\r\n"), "[]");
    let discovered = vec![
        DiscoveredApp {
            app: reported("b", "Zebra", &["C:/z.exe", "c:/Z.exe", "C:/old.exe"], &["z", "y", "x"]),
            present: vec![true, true, false],
        },
        DiscoveredApp { app: reported("B", "Again", &["C:/z.exe"], &[]), present: vec![true] },
        DiscoveredApp { app: reported("c", "apple", &["C:/a.exe"], &[]), present: vec![true] },
        DiscoveredApp { app: reported("d", "  ", &["C:/d.exe"], &[]), present: vec![true] },
        DiscoveredApp { app: reported("e", "Gone", &["C:/e.exe"], &[]), present: vec![false] },
        DiscoveredApp { app: reported("f", "Apple", &["C:/0.exe"], &[]), present: vec![true] },
    ];
    let apps = discover_installed_apps(&discovered);
    let names: Vec<&str> = apps.iter().map(|app| app.name.as_str()).collect();
    assert_eq!(names, ["Apple", "apple", "Zebra"]);
    assert_eq!(apps[2].paths, [r"C:\z.exe"]);
    assert_eq!(apps[2].relative_paths, ["z"]);
}

#[test]
fn a_missing_store_application_asks_for_discovery() {
    let observe = |path: &str, is_file: bool| ObservedPath {
        path: path.to_owned(),
        parts: launcher_parts(),
        is_file,
    };
    let store = r"C:\WindowsApps\App_1_x64__pub\a.exe";
    assert!(needs_discovery(&vec![observe(store, false)]));
    assert!(!needs_discovery(&vec![observe(store, true), observe(r"C:\b.exe", false)]));
}

#[test]
fn settings_fall_back_to_their_copy() {
    assert!(matches!(
        after_read(ReadOutcome::Contents("x".to_owned()), false),
        SettingsSource::Parse(contents) if contents == "x"
    ));
    assert!(matches!(after_read(ReadOutcome::Missing, false), SettingsSource::ReadBackup));
    assert!(matches!(after_read(ReadOutcome::Missing, true), SettingsSource::Defaults));
    assert!(matches!(
        after_read(ReadOutcome::Failed("denied".to_owned()), true),
        SettingsSource::Fail(detail) if detail == "denied"
    ));
}

#[test]
fn a_replacement_restores_the_file_it_could_not_replace() {
    assert_eq!(first_replace_step(false, true), ReplaceStep::Place);
    assert_eq!(first_replace_step(true, true), ReplaceStep::RemoveBackup);
    assert_eq!(first_replace_step(true, false), ReplaceStep::MoveAside);
    assert_eq!(
        after_replace_step(ReplaceStep::MoveAside, true),
        AfterReplace::Go(ReplaceStep::PlaceOver)
    );
    assert_eq!(
        after_replace_step(ReplaceStep::PlaceOver, false),
        AfterReplace::Go(ReplaceStep::RestoreBackup)
    );
    assert_eq!(after_replace_step(ReplaceStep::RestoreBackup, true), AfterReplace::Failed);
    assert_eq!(after_replace_step(ReplaceStep::DiscardBackup, false), AfterReplace::Succeeded);
}

#[test]
fn removing_what_is_not_there_succeeds() {
    let error = |kind| Err(IoError { kind, detail: "x".to_owned() });
    assert!(after_removal(error(IoErrorKind::NotFound)).is_ok());
    assert!(after_removal(error(IoErrorKind::Other)).is_err());
}
