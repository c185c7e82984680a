//! Turns what the system reports of installed applications into the list that
//! is offered for selection.

use vstd::prelude::*;

use crate::app_paths::normalized_key;
use crate::installations::{InstalledApp, InstalledModel};
use crate::order::SortKey;
use crate::{app_paths, installations, normalize_windows_path, order, text};

verus! {

/// The report in `output`, without what surrounds it.
pub open spec fn report_text(output: Seq<char>) -> Seq<char> {
    text::trim_start_char(text::trim(output), '\u{feff}')
}

/// The report in the output of the discovery, without surrounding white space
/// and without a byte order mark.
pub fn report(output: &str) -> (json: String)
    ensures
        json@ == report_text(output@),
{
    text::trimmed_start_char(text::trimmed(output).as_str(), '\u{feff}')
}

/// Says that the discovery failed, and what it said of that.
pub fn failure(stderr: &str) -> (message: String)
    ensures
        message@ == "Не удалось получить список установленных приложений: "@ + text::trim(stderr@),
{
    let mut message = text::owned("Не удалось получить список установленных приложений: ");
    message.append(text::trimmed(stderr).as_str());
    message
}

/// An application as it is reported, and which of its executables, once their
/// paths are normalized, are there.
#[derive(Debug)]
pub struct DiscoveredApp {
    pub app: InstalledApp,
    pub present: Vec<bool>,
}

/// The positions below `n` of the executables that are there and that no
/// earlier one of these names.
pub open spec fn kept_positions(paths: Seq<Seq<char>>, present: Seq<bool>, n: int) -> Seq<int>
    decreases n,
{
    if n <= 0 {
        Seq::<int>::empty()
    } else {
        let kept = kept_positions(paths, present, n - 1);
        if present[n - 1] && !kept_keys(paths, kept).contains(normal_key(paths[n - 1])) {
            kept.push(n - 1)
        } else {
            kept
        }
    }
}

/// The key of a path once it is normalized.
pub open spec fn normal_key(path: Seq<char>) -> Seq<char> {
    app_paths::path_key(crate::normalized_windows_path(path))
}

pub open spec fn kept_keys(paths: Seq<Seq<char>>, kept: Seq<int>) -> Seq<Seq<char>> {
    kept.map_values(|i: int| normal_key(paths[i]))
}

/// The relative paths that the report gives for the kept positions.
pub open spec fn kept_relatives(relative: Seq<Seq<char>>, kept: Seq<int>) -> Seq<Seq<char>>
    decreases kept.len(),
{
    if kept.len() == 0 {
        Seq::<Seq<char>>::empty()
    } else if kept.last() < relative.len() {
        kept_relatives(relative, kept.drop_last()).push(relative[kept.last()])
    } else {
        kept_relatives(relative, kept.drop_last())
    }
}

/// The application with normalized paths and only the executables that are
/// there, each once.
pub open spec fn cleaned(app: InstalledModel, present: Seq<bool>) -> InstalledModel {
    let kept = kept_positions(app.paths, present, app.paths.len() as int);
    InstalledModel {
        path: crate::normalized_windows_path(app.path),
        paths: kept.map_values(|i: int| crate::normalized_windows_path(app.paths[i])),
        relative_paths: kept_relatives(app.relative_paths, kept),
        ..app
    }
}

fn copied(value: &Option<String>) -> (copy: Option<String>)
    ensures
        match *value {
            Some(text) => copy matches Some(c) && c@ == text@,
            None => copy is None,
        },
{
    match value {
        Some(text) => Some(text.clone()),
        None => None,
    }
}

/// The application with normalized paths and only the executables that are
/// there.
pub fn clean(discovered: &DiscoveredApp) -> (app: InstalledApp)
    requires
        discovered.present@.len() == discovered.app.paths@.len(),
    ensures
        app@ == cleaned(discovered.app@, discovered.present@),
{
    let reported = &discovered.app;
    let ghost model = reported@;
    let ghost present = discovered.present@;
    let mut paths: Vec<String> = Vec::new();
    let mut relative_paths: Vec<String> = Vec::new();
    let mut seen: Vec<String> = Vec::new();
    let ghost mut kept = Seq::<int>::empty();
    let mut i: usize = 0;
    assert(text::texts(paths@) =~= kept.map_values(
        |i: int| crate::normalized_windows_path(model.paths[i]),
    ));
    assert(text::texts(relative_paths@) =~= kept_relatives(model.relative_paths, kept));
    assert(text::texts(seen@) =~= kept_keys(model.paths, kept));
    while i < reported.paths.len()
        invariant
            i <= reported.paths@.len(),
            model == reported@,
            present == discovered.present@,
            reported == discovered.app,
            present.len() == reported.paths@.len(),
            kept == kept_positions(model.paths, present, i as int),
            text::texts(paths@) =~= kept.map_values(
                |i: int| crate::normalized_windows_path(model.paths[i]),
            ),
            text::texts(relative_paths@) == kept_relatives(model.relative_paths, kept),
            text::texts(seen@) =~= kept_keys(model.paths, kept),
        decreases reported.paths@.len() - i,
    {
        let ghost before = kept;
        let ghost before_paths = text::texts(paths@);
        let ghost before_relatives = text::texts(relative_paths@);
        let ghost before_seen = text::texts(seen@);
        assert(model.paths[i as int] == reported.paths@[i as int]@);
        let path = normalize_windows_path(reported.paths[i].as_str());
        let key = normalized_key(path.as_str());
        if discovered.present[i] && !text::holds(&seen, key.as_str()) {
            let ghost path_view = path@;
            let ghost key_view = key@;
            proof {
                kept = kept.push(i as int);
                assert(kept.drop_last() =~= before);
            }
            seen.push(key);
            paths.push(path);
            assert(text::texts(seen@) =~= before_seen.push(key_view));
            assert(text::texts(paths@) =~= before_paths.push(path_view));
            if i < reported.relative_paths.len() {
                assert(model.relative_paths[i as int] == reported.relative_paths@[i as int]@);
                let relative = reported.relative_paths[i].clone();
                let ghost relative_view = relative@;
                relative_paths.push(relative);
                assert(text::texts(relative_paths@) =~= before_relatives.push(relative_view));
            }
        }
        i = i + 1;
    }
    let app = InstalledApp {
        id: reported.id.clone(),
        name: reported.name.clone(),
        path: normalize_windows_path(reported.path.as_str()),
        paths,
        source: reported.source.clone(),
        package_name: copied(&reported.package_name),
        relative_paths,
    };
    assert(app@ =~= cleaned(model, present));
    app
}

/// Whether an application can be offered: it has a name and an executable.
pub open spec fn is_offerable(app: InstalledModel) -> bool {
    text::trim(app.name).len() > 0 && app.paths.len() > 0
}

pub open spec fn lower_ids(apps: Seq<InstalledModel>) -> Seq<Seq<char>> {
    apps.map_values(|app: InstalledModel| text::unicode_lowercase(app.id))
}

/// The first `n` applications, cleaned, without those that cannot be offered,
/// and of several with one identifier only the first.
pub open spec fn offered(discovered: Seq<DiscoveredApp>, n: int) -> Seq<InstalledModel>
    decreases n,
{
    if n <= 0 {
        Seq::<InstalledModel>::empty()
    } else {
        let rest = offered(discovered, n - 1);
        let app = cleaned(discovered[n - 1].app@, discovered[n - 1].present@);
        if is_offerable(app) && !lower_ids(rest).contains(text::unicode_lowercase(app.id)) {
            rest.push(app)
        } else {
            rest
        }
    }
}

/// What the list is sorted by: the name, and the path where names are equal.
pub open spec fn offer_keys(apps: Seq<InstalledModel>) -> Seq<(Seq<char>, Seq<char>)> {
    apps.map_values(
        |app: InstalledModel|
            (text::unicode_lowercase(app.name), text::unicode_lowercase(app.path)),
    )
}

/// The applications that can be offered, sorted by name.
pub fn discover_installed_apps(discovered: &Vec<DiscoveredApp>) -> (apps: Vec<InstalledApp>)
    requires
        forall|i: int|
            0 <= i < discovered@.len() ==> (#[trigger] discovered@[i]).present@.len()
                == discovered@[i].app.paths@.len(),
    ensures
        ({
            let all = offered(discovered@, discovered@.len() as int);
            order::is_sorted(installations::app_views(apps@), all, offer_keys(all))
        }),
{
    let mut apps: Vec<InstalledApp> = Vec::new();
    let mut keys: Vec<SortKey> = Vec::new();
    let mut seen: Vec<String> = Vec::new();
    let mut i: usize = 0;
    assert(installations::app_views(apps@) =~= offered(discovered@, 0));
    assert(text::texts(seen@) =~= lower_ids(installations::app_views(apps@)));
    assert(order::key_views(keys@) =~= offer_keys(installations::app_views(apps@)));
    while i < discovered.len()
        invariant
            i <= discovered@.len(),
            forall|i: int|
                0 <= i < discovered@.len() ==> (#[trigger] discovered@[i]).present@.len()
                    == discovered@[i].app.paths@.len(),
            installations::app_views(apps@) == offered(discovered@, i as int),
            text::texts(seen@) =~= lower_ids(installations::app_views(apps@)),
            order::key_views(keys@) =~= offer_keys(installations::app_views(apps@)),
        decreases discovered@.len() - i,
    {
        let ghost before = installations::app_views(apps@);
        let ghost before_seen = text::texts(seen@);
        let ghost before_keys = order::key_views(keys@);
        let app = clean(&discovered[i]);
        let ghost model = app@;
        assert(model.paths.len() == app.paths@.len());
        if text::trimmed(app.name.as_str()).unicode_len() > 0 && app.paths.len() > 0 {
            let id = text::to_lowercase(app.id.as_str());
            if !text::holds(&seen, id.as_str()) {
                let ghost id_view = id@;
                let key = SortKey {
                    first: text::to_lowercase(app.name.as_str()),
                    second: text::to_lowercase(app.path.as_str()),
                };
                let ghost key_view = key@;
                seen.push(id);
                keys.push(key);
                apps.push(app);
                assert(text::texts(seen@) =~= before_seen.push(id_view));
                assert(order::key_views(keys@) =~= before_keys.push(key_view));
                assert(installations::app_views(apps@) =~= before.push(model));
            }
        }
        i = i + 1;
    }
    let ghost all = installations::app_views(apps@);
    let ghost items = apps@;
    let ghost views = order::key_views(keys@);
    assert(views.len() == keys@.len());
    let sorted = order::sort_by_keys(apps, keys);
    proof {
        let chosen = choose|chosen: Seq<int>| #[trigger]
            order::sorted_order(views, chosen) && sorted@ == order::rearranged(items, chosen);
        assert(installations::app_views(sorted@) =~= order::rearranged(all, chosen));
        assert(order::sorted_order(offer_keys(all), chosen));
    }
    sorted
}

proof fn lemma_offered_ids(discovered: Seq<DiscoveredApp>, n: int)
    ensures
        lower_ids(offered(discovered, n)).no_duplicates(),
        forall|i: int|
            0 <= i < offered(discovered, n).len() ==> is_offerable(
                #[trigger] offered(discovered, n)[i],
            ),
    decreases n,
{
    if n > 0 {
        lemma_offered_ids(discovered, n - 1);
        let rest = offered(discovered, n - 1);
        let app = cleaned(discovered[n - 1].app@, discovered[n - 1].present@);
        if is_offerable(app) && !lower_ids(rest).contains(text::unicode_lowercase(app.id)) {
            text::lemma_push_no_duplicates(lower_ids(rest), text::unicode_lowercase(app.id));
            assert(lower_ids(rest.push(app)) =~= lower_ids(rest).push(
                text::unicode_lowercase(app.id),
            ));
        }
    }
}

/// Every application that is offered has a name and an executable.
pub proof fn offered_applications_are_usable(
    discovered: Seq<DiscoveredApp>,
    apps: Seq<InstalledModel>,
    i: int,
)
    requires
        ({
            let all = offered(discovered, discovered.len() as int);
            order::is_sorted(apps, all, offer_keys(all))
        }),
        0 <= i < apps.len(),
    ensures
        is_offerable(apps[i]),
{
    let all = offered(discovered, discovered.len() as int);
    lemma_offered_ids(discovered, discovered.len() as int);
    let chosen = choose|chosen: Seq<int>| #[trigger]
        order::sorted_order(offer_keys(all), chosen) && apps == order::rearranged(all, chosen);
    assert(apps[i] == all[chosen[i]]);
}

/// No two applications that are offered have the same identifier.
pub proof fn offered_applications_are_distinct(
    discovered: Seq<DiscoveredApp>,
    apps: Seq<InstalledModel>,
    i: int,
    j: int,
)
    requires
        ({
            let all = offered(discovered, discovered.len() as int);
            order::is_sorted(apps, all, offer_keys(all))
        }),
        0 <= i < j < apps.len(),
    ensures
        text::unicode_lowercase(apps[i].id) != text::unicode_lowercase(apps[j].id),
{
    let all = offered(discovered, discovered.len() as int);
    lemma_offered_ids(discovered, discovered.len() as int);
    let chosen = choose|chosen: Seq<int>| #[trigger]
        order::sorted_order(offer_keys(all), chosen) && apps == order::rearranged(all, chosen);
    assert(order::precedes(offer_keys(all), chosen[i], chosen[j]));
    order::lemma_strict(offer_keys(all), chosen[i], chosen[j]);
    assert(lower_ids(all)[chosen[i]] != lower_ids(all)[chosen[j]]);
    assert(apps[i] == all[chosen[i]] && apps[j] == all[chosen[j]]);
}

/// A report is read without the byte order mark before it, and without the
/// white space around it.
pub proof fn reports_are_read_without_their_mark(json: Seq<char>)
    requires
        json.len() > 0,
        forall|i: int| 0 <= i < json.len() ==> !text::is_space(#[trigger] json[i]),
        json[0] != '\u{feff}',
    ensures
        report_text(json) == json,
        report_text(seq!['\u{feff}'] + json) == json,
{
    text::lemma_nothing_to_trim(json);
    let marked = seq!['\u{feff}'] + json;
    text::blanks_and_line_ends_are_white_space('\u{feff}');
    assert forall|i: int| 0 <= i < marked.len() implies !text::is_space(#[trigger] marked[i]) by {
        if i > 0 {
            assert(marked[i] == json[i - 1]);
        }
    }
    text::lemma_nothing_to_trim(marked);
    assert(marked.drop_first() =~= json);
    reveal_with_fuel(text::trim_start_char, 3);
}

/// An executable is kept exactly where it is there and no earlier one that is
/// there names the same program.
pub proof fn executables_that_are_there_are_kept_once(
    paths: Seq<Seq<char>>,
    present: Seq<bool>,
    n: int,
    i: int,
)
    requires
        0 <= n,
    ensures
        kept_positions(paths, present, n).contains(i) <==> 0 <= i < n && present[i] && forall|j: int|
            0 <= j < i && present[j] ==> #[trigger] normal_key(paths[j]) != normal_key(paths[i]),
    decreases n,
{
    let kept = kept_positions(paths, present, n);
    if n > 0 {
        let before = kept_positions(paths, present, n - 1);
        executables_that_are_there_are_kept_once(paths, present, n - 1, i);
        let keys = kept_keys(paths, before);
        let key = normal_key(paths[n - 1]);
        if keys.contains(key) {
            let k = choose|k: int| 0 <= k < keys.len() && keys[k] == key;
            let j = before[k];
            assert(before.contains(j));
            executables_that_are_there_are_kept_once(paths, present, n - 1, j);
            assert(normal_key(paths[j]) == key);
        }
        if present[n - 1] && i == n - 1 {
            if !keys.contains(key) {
                assert(kept.last() == i);
                assert(kept.contains(i));
                assert forall|j: int| 0 <= j < i && present[j] implies #[trigger] normal_key(
                    paths[j],
                ) != key by {
                    lemma_kept_key(paths, present, n - 1, j);
                }
            } else {
                assert(kept == before);
            }
        }
        if before.contains(i) {
            let k = choose|k: int| 0 <= k < before.len() && before[k] == i;
            assert(kept[k] == i);
        }
        if kept.contains(i) && !before.contains(i) {
            let k = choose|k: int| 0 <= k < kept.len() && kept[k] == i;
            if k < before.len() {
                assert(before[k] == i);
            }
        }
    }
}

/// The key of every executable that is there is among those kept.
proof fn lemma_kept_key(paths: Seq<Seq<char>>, present: Seq<bool>, n: int, j: int)
    requires
        0 <= j < n,
        present[j],
    ensures
        kept_keys(paths, kept_positions(paths, present, n)).contains(normal_key(paths[j])),
    decreases n,
{
    let before = kept_positions(paths, present, n - 1);
    let kept = kept_positions(paths, present, n);
    let key = normal_key(paths[j]);
    if j < n - 1 {
        lemma_kept_key(paths, present, n - 1, j);
        let keys = kept_keys(paths, before);
        let k = choose|k: int| 0 <= k < keys.len() && keys[k] == key;
        assert(kept_keys(paths, kept)[k] == key);
    } else if kept != before {
        assert(kept_keys(paths, kept)[kept.len() - 1] == key);
    }
}

/// A cleaned application keeps what it is called, and its relative paths stay
/// beside its executables where the report gives one for each.
pub proof fn cleaning_keeps_executables_and_relative_paths_together(
    app: InstalledModel,
    present: Seq<bool>,
    k: int,
)
    requires
        app.relative_paths.len() >= app.paths.len(),
        0 <= k < cleaned(app, present).paths.len(),
    ensures
        ({
            let result = cleaned(app, present);
            let kept = kept_positions(app.paths, present, app.paths.len() as int);
            &&& result.id == app.id
            &&& result.name == app.name
            &&& result.source == app.source
            &&& result.package_name == app.package_name
            &&& result.path == crate::normalized_windows_path(app.path)
            &&& result.relative_paths.len() == result.paths.len()
            &&& result.paths[k] == crate::normalized_windows_path(app.paths[kept[k]])
            &&& result.relative_paths[k] == app.relative_paths[kept[k]]
        }),
{
    let kept = kept_positions(app.paths, present, app.paths.len() as int);
    assert forall|i: int| 0 <= i < kept.len() implies 0 <= #[trigger] kept[i]
        < app.relative_paths.len() by {
        assert(kept.contains(kept[i]));
        executables_that_are_there_are_kept_once(
            app.paths,
            present,
            app.paths.len() as int,
            kept[i],
        );
    }
    lemma_relatives(app.relative_paths, kept);
}

proof fn lemma_relatives(relative: Seq<Seq<char>>, kept: Seq<int>)
    requires
        forall|i: int| 0 <= i < kept.len() ==> 0 <= #[trigger] kept[i] < relative.len(),
    ensures
        kept_relatives(relative, kept).len() == kept.len(),
        forall|i: int|
            0 <= i < kept.len() ==> #[trigger] kept_relatives(relative, kept)[i]
                == relative[kept[i]],
    decreases kept.len(),
{
    if kept.len() > 0 {
        let rest = kept.drop_last();
        assert forall|i: int| 0 <= i < rest.len() implies 0 <= #[trigger] rest[i]
            < relative.len() by {
            assert(rest[i] == kept[i]);
        }
        lemma_relatives(relative, rest);
        assert(0 <= kept[kept.len() - 1] < relative.len());
    }
}

/// Every application that can be offered is offered, or another with its
/// identifier is.
pub proof fn usable_applications_are_offered(discovered: Seq<DiscoveredApp>, n: int, i: int)
    requires
        0 <= i < n,
        ({
            let app = cleaned(discovered[i].app@, discovered[i].present@);
            text::trim(app.name).len() > 0 && app.paths.len() > 0
        }),
    ensures
        lower_ids(offered(discovered, n)).contains(
            text::unicode_lowercase(discovered[i].app@.id),
        ),
    decreases n,
{
    let before = offered(discovered, n - 1);
    let after = offered(discovered, n);
    let id = text::unicode_lowercase(discovered[i].app@.id);
    if i < n - 1 {
        usable_applications_are_offered(discovered, n - 1, i);
        let k = choose|k: int| 0 <= k < lower_ids(before).len() && lower_ids(before)[k] == id;
        assert(lower_ids(after)[k] == id);
    } else if after != before {
        assert(lower_ids(after)[after.len() - 1] == id);
    } else {
        let app = cleaned(discovered[i].app@, discovered[i].present@);
        assert(is_offerable(app));
        if !lower_ids(before).contains(id) {
            assert(after.len() == before.len() + 1);
        }
    }
}

} // verus!
