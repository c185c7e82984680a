//! Paths of applications: when two of them name the same program, and what
//! the path of a Store package tells of it.

use vstd::prelude::*;

use crate::{normalize_windows_path, text};

verus! {

/// What two paths have in common when they name the same program: Windows
/// ignores case and takes either separator.
pub open spec fn path_key(path: Seq<char>) -> Seq<char> {
    text::unicode_lowercase(crate::normalized_windows_path(path))
}

/// The key of `path`.
pub fn normalized_key(path: &str) -> (key: String)
    ensures
        key@ == path_key(path@),
{
    text::to_lowercase(normalize_windows_path(path).as_str())
}

/// The keys of the paths.
pub open spec fn path_keys(paths: Seq<Seq<char>>) -> Seq<Seq<char>> {
    paths.map_values(|path: Seq<char>| path_key(path))
}

/// The keys of `paths`.
pub fn normalized_keys(paths: &Vec<String>) -> (keys: Vec<String>)
    ensures
        text::texts(keys@) == path_keys(text::texts(paths@)),
{
    let mut keys: Vec<String> = Vec::new();
    let mut i: usize = 0;
    while i < paths.len()
        invariant
            i <= paths@.len(),
            text::texts(keys@) =~= path_keys(text::texts(paths@)).subrange(0, i as int),
        decreases paths@.len() - i,
    {
        let ghost before = text::texts(keys@);
        let key = normalized_key(paths[i].as_str());
        assert(path_keys(text::texts(paths@))[i as int] == key@);
        keys.push(key);
        assert(text::texts(keys@) =~= before.push(key@));
        i = i + 1;
    }
    assert(path_keys(text::texts(paths@)).subrange(0, i as int) =~= path_keys(
        text::texts(paths@),
    ));
    keys
}

/// Whether no path before position `i` names the same program.
pub open spec fn is_first(paths: Seq<Seq<char>>, i: int) -> bool {
    forall|j: int| 0 <= j < i ==> path_key(#[trigger] paths[j]) != path_key(paths[i])
}

pub open spec fn keys_increase(paths: Seq<Seq<char>>) -> bool {
    forall|i: int, j: int|
        0 <= i < j < paths.len() ==> text::text_less(
            path_key(#[trigger] paths[i]),
            path_key(#[trigger] paths[j]),
        )
}

pub open spec fn names_program(paths: Seq<Seq<char>>, key: Seq<char>) -> bool {
    exists|i: int| 0 <= i < paths.len() && path_key(#[trigger] paths[i]) == key
}

/// Whether `path` is the first of `paths` to name its program.
pub open spec fn first_naming(paths: Seq<Seq<char>>, path: Seq<char>) -> bool {
    exists|i: int| 0 <= i < paths.len() && #[trigger] paths[i] == path && is_first(paths, i)
}

/// Whether `result` lists the programs of `paths`, each by the first path that
/// names it, in the order of their keys.
pub open spec fn deduplicated(result: Seq<Seq<char>>, paths: Seq<Seq<char>>) -> bool {
    &&& keys_increase(result)
    &&& forall|i: int| 0 <= i < result.len() ==> first_naming(paths, #[trigger] result[i])
    &&& forall|j: int|
        0 <= j < paths.len() ==> names_program(result, path_key(#[trigger] paths[j]))
}

proof fn lemma_prefix_agrees(a: Seq<Seq<char>>, b: Seq<Seq<char>>, paths: Seq<Seq<char>>, n: int)
    requires
        deduplicated(a, paths),
        deduplicated(b, paths),
        0 <= n <= a.len(),
    ensures
        n <= b.len(),
        forall|i: int| 0 <= i < n ==> a[i] == b[i],
    decreases n,
{
    if n > 0 {
        let i = n - 1;
        lemma_prefix_agrees(a, b, paths, i);
        assert(first_naming(paths, a[i]));
        let from_a = choose|j: int|
            0 <= j < paths.len() && #[trigger] paths[j] == a[i] && is_first(paths, j);
        assert(names_program(b, path_key(paths[from_a])));
        let q = choose|q: int| 0 <= q < b.len() && path_key(#[trigger] b[q]) == path_key(a[i]);
        if q < i {
            assert(text::text_less(path_key(a[q]), path_key(a[i])));
            text::lemma_less_total(path_key(a[i]), path_key(a[i]));
        }
        assert(i <= q);
        assert(first_naming(paths, b[i]));
        let from_b = choose|j: int|
            0 <= j < paths.len() && #[trigger] paths[j] == b[i] && is_first(paths, j);
        assert(names_program(a, path_key(paths[from_b])));
        let p = choose|p: int| 0 <= p < a.len() && path_key(#[trigger] a[p]) == path_key(b[i]);
        if p < i {
            assert(text::text_less(path_key(b[p]), path_key(b[i])));
            text::lemma_less_total(path_key(b[i]), path_key(b[i]));
        }
        if i < q && i < p {
            assert(text::text_less(path_key(b[i]), path_key(b[q])));
            assert(text::text_less(path_key(a[i]), path_key(a[p])));
            text::lemma_less_total(path_key(a[i]), path_key(b[i]));
        }
        assert(path_key(a[i]) == path_key(b[i]));
        if from_a < from_b {
            assert(path_key(paths[from_a]) != path_key(paths[from_b]));
        } else if from_b < from_a {
            assert(path_key(paths[from_b]) != path_key(paths[from_a]));
        }
    }
}

/// A list of paths has one list of programs.
pub proof fn programs_are_listed_one_way(
    a: Seq<Seq<char>>,
    b: Seq<Seq<char>>,
    paths: Seq<Seq<char>>,
)
    requires
        deduplicated(a, paths),
        deduplicated(b, paths),
    ensures
        a == b,
{
    lemma_prefix_agrees(a, b, paths, a.len() as int);
    lemma_prefix_agrees(b, a, paths, b.len() as int);
    assert(a =~= b);
}

/// A list goes on listing the programs of `paths` when a path of one of them
/// is added.
pub proof fn lemma_known_program(
    result: Seq<Seq<char>>,
    paths: Seq<Seq<char>>,
    path: Seq<char>,
)
    requires
        deduplicated(result, paths),
        names_program(result, path_key(path)),
    ensures
        deduplicated(result, paths.push(path)),
{
    let longer = paths.push(path);
    assert forall|i: int| 0 <= i < result.len() implies first_naming(longer, #[trigger] result[i]) by {
        assert(first_naming(paths, result[i]));
        let j = choose|j: int|
            0 <= j < paths.len() && #[trigger] paths[j] == result[i] && is_first(paths, j);
        assert(longer[j] == paths[j]);
        assert forall|m: int| 0 <= m < j implies path_key(#[trigger] longer[m]) != path_key(
            longer[j],
        ) by {
            assert(path_key(paths[m]) != path_key(paths[j]));
        }
        assert(is_first(longer, j));
    }
    assert forall|j: int| 0 <= j < longer.len() implies names_program(
        result,
        path_key(#[trigger] longer[j]),
    ) by {
        if j < paths.len() {
            assert(longer[j] == paths[j]);
        }
    }
}

proof fn lemma_new_program(
    result: Seq<Seq<char>>,
    paths: Seq<Seq<char>>,
    path: Seq<char>,
    at: int,
)
    requires
        deduplicated(result, paths),
        0 <= at <= result.len(),
        forall|i: int|
            0 <= i < at ==> text::text_less(path_key(#[trigger] result[i]), path_key(path)),
        at < result.len() ==> text::text_less(path_key(path), path_key(result[at])),
    ensures
        deduplicated(result.insert(at, path), paths.push(path)),
{
    let longer = paths.push(path);
    let wider = result.insert(at, path);
    assert forall|i: int, j: int| 0 <= i < j < wider.len() implies text::text_less(
        path_key(#[trigger] wider[i]),
        path_key(#[trigger] wider[j]),
    ) by {
        if j < at {
            assert(text::text_less(path_key(result[i]), path_key(result[j])));
        } else if j == at {
            assert(wider[i] == result[i]);
        } else if i < at {
            assert(text::text_less(path_key(result[i]), path_key(result[j - 1])));
        } else if i == at {
            if at < j - 1 {
                assert(text::text_less(path_key(result[at]), path_key(result[j - 1])));
                text::lemma_less_transitive(
                    path_key(path),
                    path_key(result[at]),
                    path_key(result[j - 1]),
                );
            }
        } else {
            assert(text::text_less(path_key(result[i - 1]), path_key(result[j - 1])));
        }
    }
    assert forall|i: int| 0 <= i < wider.len() implies first_naming(longer, #[trigger] wider[i]) by {
        if i == at {
            let last = paths.len() as int;
            assert(longer[last] == path);
            assert forall|m: int| 0 <= m < last implies path_key(#[trigger] longer[m])
                != path_key(longer[last]) by {
                assert(longer[m] == paths[m]);
                assert(names_program(result, path_key(paths[m])));
                let r = choose|r: int|
                    0 <= r < result.len() && path_key(#[trigger] result[r]) == path_key(paths[m]);
                text::lemma_less_total(path_key(result[r]), path_key(path));
                if r > at {
                    assert(text::text_less(path_key(wider[at]), path_key(wider[r + 1])));
                }
            }
            assert(is_first(longer, last));
        } else {
            let old = if i < at { i } else { i - 1 };
            assert(wider[i] == result[old]);
            assert(first_naming(paths, result[old]));
            let j = choose|j: int|
                0 <= j < paths.len() && #[trigger] paths[j] == result[old] && is_first(paths, j);
            assert(longer[j] == paths[j]);
            assert forall|m: int| 0 <= m < j implies path_key(#[trigger] longer[m]) != path_key(
                longer[j],
            ) by {
                assert(path_key(paths[m]) != path_key(paths[j]));
            }
            assert(is_first(longer, j));
            assert(longer[j] == wider[i]);
        }
    }
    assert forall|j: int| 0 <= j < longer.len() implies names_program(
        wider,
        path_key(#[trigger] longer[j]),
    ) by {
        if j < paths.len() {
            assert(names_program(result, path_key(paths[j])));
            let r = choose|r: int|
                0 <= r < result.len() && path_key(#[trigger] result[r]) == path_key(paths[j]);
            if r < at {
                assert(wider[r] == result[r]);
            } else {
                assert(wider[r + 1] == result[r]);
            }
        } else {
            assert(wider[at] == path);
        }
    }
}

/// The programs that `paths` name, each by the first path that names it, in the
/// order of their keys.
pub open spec fn programs(paths: Seq<Seq<char>>) -> Seq<Seq<char>> {
    choose|result: Seq<Seq<char>>| deduplicated(result, paths)
}

proof fn lemma_position(result: Seq<Seq<char>>, key: Seq<char>, n: int) -> (at: int)
    requires
        keys_increase(result),
        0 <= n <= result.len(),
        n < result.len() ==> !text::text_less(path_key(result[n]), key),
    ensures
        0 <= at <= n,
        forall|i: int| 0 <= i < at ==> text::text_less(path_key(#[trigger] result[i]), key),
        at < result.len() ==> !text::text_less(path_key(result[at]), key),
    decreases n,
{
    if n > 0 && !text::text_less(path_key(result[n - 1]), key) {
        lemma_position(result, key, n - 1)
    } else {
        assert forall|i: int| 0 <= i < n implies text::text_less(
            path_key(#[trigger] result[i]),
            key,
        ) by {
            if i < n - 1 {
                assert(text::text_less(path_key(result[i]), path_key(result[n - 1])));
                text::lemma_less_transitive(path_key(result[i]), path_key(result[n - 1]), key);
            }
        }
        n
    }
}

/// Every list of paths has a list of programs.
pub proof fn lemma_programs(paths: Seq<Seq<char>>)
    ensures
        deduplicated(programs(paths), paths),
    decreases paths.len(),
{
    if paths.len() == 0 {
        assert(deduplicated(Seq::<Seq<char>>::empty(), paths));
    } else {
        let rest = paths.drop_last();
        let path = paths.last();
        lemma_programs(rest);
        assert(rest.push(path) =~= paths);
        let listed = programs(rest);
        if names_program(listed, path_key(path)) {
            lemma_known_program(listed, rest, path);
            assert(deduplicated(listed, paths));
        } else {
            let at = lemma_position(listed, path_key(path), listed.len() as int);
            if at < listed.len() {
                text::lemma_less_total(path_key(listed[at]), path_key(path));
            }
            lemma_new_program(listed, rest, path, at);
            assert(deduplicated(listed.insert(at, path), paths));
        }
    }
}

/// A list in the order of the keys lists its own programs.
pub proof fn lemma_list_of_programs(list: Seq<Seq<char>>)
    requires
        keys_increase(list),
    ensures
        deduplicated(list, list),
{
    assert forall|i: int| 0 <= i < list.len() implies first_naming(list, #[trigger] list[i]) by {
        assert forall|j: int| 0 <= j < i implies path_key(#[trigger] list[j]) != path_key(
            list[i],
        ) by {
            text::lemma_less_total(path_key(list[j]), path_key(list[i]));
        }
        assert(is_first(list, i));
    }
}

/// Listing the programs of a list of programs changes nothing.
pub proof fn listing_programs_twice_changes_nothing(paths: Seq<Seq<char>>)
    ensures
        programs(programs(paths)) == programs(paths),
{
    let once = programs(paths);
    lemma_programs(paths);
    lemma_list_of_programs(once);
    lemma_programs(once);
    programs_are_listed_one_way(programs(once), once, once);
}

/// The list names exactly the programs that the paths name.
pub proof fn the_list_names_the_same_programs(paths: Seq<Seq<char>>, key: Seq<char>)
    ensures
        names_program(programs(paths), key) <==> names_program(paths, key),
{
    lemma_programs(paths);
    let listed = programs(paths);
    if names_program(listed, key) {
        let i = choose|i: int| 0 <= i < listed.len() && path_key(#[trigger] listed[i]) == key;
        assert(first_naming(paths, listed[i]));
        let j = choose|j: int|
            0 <= j < paths.len() && #[trigger] paths[j] == listed[i] && is_first(paths, j);
        assert(path_key(paths[j]) == key);
    }
    if names_program(paths, key) {
        let j = choose|j: int| 0 <= j < paths.len() && path_key(#[trigger] paths[j]) == key;
        assert(names_program(listed, path_key(paths[j])));
    }
}

/// Leaves one path of each program, in the order of their keys.
pub fn sort_and_deduplicate(paths: &mut Vec<String>)
    ensures
        text::texts(final(paths)@) == programs(text::texts(old(paths)@)),
        deduplicated(text::texts(final(paths)@), text::texts(old(paths)@)),
{
    let ghost all = text::texts(paths@);
    let mut result: Vec<String> = Vec::new();
    let mut keys: Vec<String> = Vec::new();
    let mut i: usize = 0;
    assert(deduplicated(text::texts(result@), all.subrange(0, 0)));
    while i < paths.len()
        invariant
            i <= paths@.len(),
            all == text::texts(paths@),
            deduplicated(text::texts(result@), all.subrange(0, i as int)),
            keys@.len() == result@.len(),
            forall|j: int| 0 <= j < keys@.len() ==> #[trigger] keys@[j]@ == path_key(result@[j]@),
        decreases paths@.len() - i,
    {
        let ghost listed = text::texts(result@);
        let ghost path = all[i as int];
        let key = normalized_key(paths[i].as_str());
        let mut at: usize = 0;
        while at < keys.len() && text::less(keys[at].as_str(), key.as_str())
            invariant
                at <= keys@.len(),
                keys@.len() == listed.len(),
                forall|j: int| 0 <= j < keys@.len() ==> #[trigger] keys@[j]@ == path_key(listed[j]),
                forall|j: int|
                    0 <= j < at ==> text::text_less(path_key(#[trigger] listed[j]), key@),
            decreases keys@.len() - at,
        {
            at = at + 1;
        }
        assert(all.subrange(0, i + 1) =~= all.subrange(0, i as int).push(path));
        if at < keys.len() && text::same(keys[at].as_str(), key.as_str()) {
            proof {
                assert(path_key(listed[at as int]) == key@);
                lemma_known_program(listed, all.subrange(0, i as int), path);
            }
        } else {
            proof {
                if at < keys@.len() {
                    text::lemma_less_total(keys@[at as int]@, key@);
                }
                lemma_new_program(listed, all.subrange(0, i as int), path, at as int);
            }
            keys.insert(at, key);
            result.insert(at, paths[i].clone());
            assert(text::texts(result@) =~= listed.insert(at as int, path));
        }
        i = i + 1;
    }
    assert(all.subrange(0, i as int) =~= all);
    proof {
        lemma_programs(all);
        programs_are_listed_one_way(text::texts(result@), programs(all), all);
    }
    *paths = result;
}

/// Lists the programs anew where the paths changed, and tells whether they have
/// to be stored.
pub fn settle(paths: &mut Vec<String>, changed: bool) -> (store: bool)
    ensures
        store == changed,
        text::texts(final(paths)@) == (if changed {
            programs(text::texts(old(paths)@))
        } else {
            text::texts(old(paths)@)
        }),
{
    if changed {
        sort_and_deduplicate(paths);
    }
    changed
}

// Directories

/// Where the letter of the drive stands in a path, where it has one.
pub open spec fn drive_at(path: Seq<char>) -> Option<int> {
    if path.len() >= 2 && path[1] == ':' {
        Some(0)
    } else if text::starts_with(path, "\\\\?\\"@) && path.len() >= 6 && path[5] == ':' && (path.len()
        == 6 || path[6] == '\\' || path[6] == '/') {
        Some(4)
    } else {
        None
    }
}

/// `path` with the letter of its drive in lower case.
pub open spec fn with_lower_drive(path: Seq<char>) -> Seq<char> {
    match drive_at(path) {
        Some(i) => path.update(i, text::ascii_lower_char(path[i])),
        None => path,
    }
}

/// Whether two directories are the same, the case of the drive aside.
pub open spec fn is_same_directory(a: Seq<char>, b: Seq<char>) -> bool {
    with_lower_drive(a) == with_lower_drive(b)
}

fn lower_drive(path: &str) -> (chars: Vec<char>)
    ensures
        chars@ == with_lower_drive(path@),
{
    let extended = text::has_prefix(path, "\\\\?\\");
    let mut chars = text::chars_of(path);
    if chars.len() >= 2 && chars[1] == ':' {
        let letter = text::lower_char(chars[0]);
        chars.set(0, letter);
    } else if extended && chars.len() >= 6 && chars[5] == ':' && (chars.len() == 6 || chars[6]
        == '\\' || chars[6] == '/') {
        let letter = text::lower_char(chars[4]);
        chars.set(4, letter);
    }
    chars
}

/// Whether two directories are the same, the case of the drive aside.
pub fn same_directory(a: &str, b: &str) -> (same: bool)
    ensures
        same == is_same_directory(a@, b@),
{
    let left = lower_drive(a);
    let right = lower_drive(b);
    if left.len() != right.len() {
        return false;
    }
    let mut i: usize = 0;
    while i < left.len()
        invariant
            i <= left@.len(),
            left@.len() == right@.len(),
            left@ == with_lower_drive(a@),
            right@ == with_lower_drive(b@),
            forall|j: int| 0 <= j < i ==> left@[j] == right@[j],
        decreases left@.len() - i,
    {
        if left[i] != right[i] {
            return false;
        }
        i = i + 1;
    }
    assert(left@ =~= right@);
    true
}

// Store packages

/// A path below the directory of a package, as it is compared.
pub open spec fn relative_key(path: Seq<char>) -> Seq<char> {
    text::unicode_lowercase(text::trim_start_char(crate::with_backslashes(path), '\\'))
}

/// The form in which paths below the directory of a package are compared.
pub fn normalized_relative_path(path: &str) -> (key: String)
    ensures
        key@ == relative_key(path@),
{
    proof {
        reveal_strlit("\\");
        assert("\\"@ =~= seq!['\\']);
    }
    let value = text::replaced_char(path, '/', "\\");
    text::to_lowercase(text::trimmed_start_char(value.as_str(), '\\').as_str())
}

/// Where in the UTF-8 encoding of a lowercased path the part below the package
/// store begins.
pub open spec fn store_offset(lower: Seq<char>) -> Option<nat> {
    match text::find_from(lower, "\\windowsapps\\"@, 0) {
        Some(at) => Some(
            text::byte_length(lower.subrange(0, at)) + text::byte_length("\\windowsapps\\"@),
        ),
        None => None,
    }
}

/// Whether the part of `value` below the package store, as its lowercase form
/// locates it, begins with a whole character.
pub open spec fn store_part_is_whole(value: Seq<char>, lower: Seq<char>) -> bool {
    store_offset(lower) matches Some(offset) ==> text::after_bytes(value, offset) is Some
}

/// The package directory and the path below it.
pub open spec fn store_parts(value: Seq<char>, lower: Seq<char>) -> Option<(Seq<char>, Seq<char>)> {
    match store_offset(lower) {
        Some(offset) => {
            let tail = text::after_bytes(value, offset)->0;
            let cut = text::first_index(tail, '\\') as int;
            if cut < tail.len() {
                Some((tail.subrange(0, cut), tail.subrange(cut + 1, tail.len() as int)))
            } else {
                None
            }
        },
        None => None,
    }
}

/// The name of a package and the publisher in the name of its directory, which
/// is `name_version_architecture_resource_publisher`. The name itself may hold
/// underscores.
pub open spec fn package_parts(directory: Seq<char>) -> Option<(Seq<char>, Seq<char>)> {
    let parts = text::split(directory, '_');
    if parts.len() < 5 {
        None
    } else {
        let name = text::join(parts.subrange(0, parts.len() - 4), "_"@);
        if name.len() == 0 {
            None
        } else {
            Some((name, parts.last()))
        }
    }
}

/// The package name and the path below its directory.
pub open spec fn identity_in(value: Seq<char>, lower: Seq<char>) -> Option<(Seq<char>, Seq<char>)> {
    match store_parts(value, lower) {
        Some((directory, rest)) => match package_parts(directory) {
            Some((name, _)) => if rest.len() == 0 {
                None
            } else {
                Some((name, relative_key(rest)))
            },
            None => None,
        },
        None => None,
    }
}

/// The package family: the name and the publisher.
pub open spec fn family_in(value: Seq<char>, lower: Seq<char>) -> Option<Seq<char>> {
    match store_parts(value, lower) {
        Some((directory, _)) => match package_parts(directory) {
            Some((name, publisher)) => if publisher.len() == 0 {
                None
            } else {
                Some(name + "_"@ + publisher)
            },
            None => None,
        },
        None => None,
    }
}

/// Where the part below the package store begins in a lowercased path.
fn offset_of_store_part(lower: &str) -> (offset: Option<u128>)
    ensures
        match store_offset(lower@) {
            Some(n) => offset matches Some(m) && n == m,
            None => offset is None,
        },
{
    let chars = text::chars_of(lower);
    let marker = text::chars_of("\\windowsapps\\");
    match text::find(&chars, &marker) {
        Some(at) => {
            assert(marker@.subrange(0, marker@.len() as int) =~= marker@);
            let before = text::byte_count(&chars, at);
            let width = text::byte_count(&marker, marker.len());
            Some(before + width)
        },
        None => None,
    }
}

/// The package directory in `value` and the path below it.
fn parts_below_store(value: &str, lower: &str) -> (parts: Option<(String, String)>)
    requires
        store_part_is_whole(value@, lower@),
    ensures
        match store_parts(value@, lower@) {
            Some((directory, rest)) => parts matches Some(p) && p.0@ == directory && p.1@ == rest,
            None => parts is None,
        },
{
    let offset = match offset_of_store_part(lower) {
        Some(offset) => offset,
        None => {
            return None;
        },
    };
    let chars = text::chars_of(value);
    let from = match text::after_byte_offset(&chars, offset) {
        Some(from) => from,
        None => {
            return None;
        },
    };
    let tail = text::range_text(&chars, from, chars.len());
    let tail_chars = text::chars_of(tail.as_str());
    proof {
        text::lemma_first_index(tail_chars@, '\\');
    }
    let cut = text::index_of(&tail_chars, '\\');
    if cut == tail_chars.len() {
        return None;
    }
    Some(
        (
            text::range_text(&tail_chars, 0, cut),
            text::range_text(&tail_chars, cut + 1, tail_chars.len()),
        ),
    )
}

/// The name and the publisher of the package in `directory`.
fn package_of(directory: &str) -> (parts: Option<(String, String)>)
    ensures
        match package_parts(directory@) {
            Some((name, publisher)) => parts matches Some(p) && p.0@ == name && p.1@ == publisher,
            None => parts is None,
        },
{
    let mut pieces = text::split_text(directory, '_');
    assert(text::texts(pieces@).len() == pieces@.len());
    let ghost all = text::texts(pieces@);
    if pieces.len() < 5 {
        return None;
    }
    assert(all.last() == pieces@.last()@);
    let publisher = pieces[pieces.len() - 1].clone();
    let named = pieces.len() - 4;
    pieces.truncate(named);
    assert(text::texts(pieces@) =~= all.subrange(0, all.len() - 4));
    let name = text::joined(&pieces, "_");
    if name.unicode_len() == 0 {
        None
    } else {
        Some((name, publisher))
    }
}

/// The package name and the path below the package directory that `value`
/// shows, `lower` being its lowercase form.
pub fn package_identity(value: &str, lower: &str) -> (identity: Option<(String, String)>)
    requires
        store_part_is_whole(value@, lower@),
    ensures
        match identity_in(value@, lower@) {
            Some((name, relative)) => identity matches Some(i) && i.0@ == name && i.1@ == relative,
            None => identity is None,
        },
{
    match parts_below_store(value, lower) {
        Some((directory, rest)) => match package_of(directory.as_str()) {
            Some((name, _)) => if rest.unicode_len() == 0 {
                None
            } else {
                Some((name, normalized_relative_path(rest.as_str())))
            },
            None => None,
        },
        None => None,
    }
}

/// The package family that `value` shows, `lower` being its lowercase form.
pub fn package_family(value: &str, lower: &str) -> (family: Option<String>)
    requires
        store_part_is_whole(value@, lower@),
    ensures
        match family_in(value@, lower@) {
            Some(name) => family matches Some(f) && f@ == name,
            None => family is None,
        },
{
    match parts_below_store(value, lower) {
        Some((directory, _)) => match package_of(directory.as_str()) {
            Some((name, publisher)) => if publisher.unicode_len() == 0 {
                None
            } else {
                let mut family = name;
                family.append("_");
                family.append(publisher.as_str());
                Some(family)
            },
            None => None,
        },
        None => None,
    }
}

/// Whether the part of `value` below the package store is whole.
fn whole_store_part(value: &str, lower: &str) -> (whole: bool)
    ensures
        whole == store_part_is_whole(value@, lower@),
{
    match offset_of_store_part(lower) {
        Some(offset) => text::after_byte_offset(&text::chars_of(value), offset).is_some(),
        None => true,
    }
}

/// The package name and relative path of a path in the package store.
pub open spec fn store_identity(path: Seq<char>) -> Option<(Seq<char>, Seq<char>)> {
    let value = crate::normalized_windows_path(path);
    let lower = text::unicode_lowercase(value);
    if store_part_is_whole(value, lower) {
        identity_in(value, lower)
    } else {
        None
    }
}

/// What stays the same of the path of a Store application when its package is
/// updated: the package name and the path below the package directory.
///
/// A path whose lowercase form is so different that it does not locate the
/// package in the path has no identity.
pub fn windowsapps_identity(path: &str) -> (identity: Option<(String, String)>)
    ensures
        match store_identity(path@) {
            Some((name, relative)) => identity matches Some(i) && i.0@ == name && i.1@ == relative,
            None => identity is None,
        },
{
    let value = normalize_windows_path(path);
    let lower = text::to_lowercase(value.as_str());
    if whole_store_part(value.as_str(), lower.as_str()) {
        package_identity(value.as_str(), lower.as_str())
    } else {
        None
    }
}

/// The package family of a path in the package store.
pub open spec fn store_family(path: Seq<char>) -> Option<Seq<char>> {
    let value = crate::normalized_windows_path(path);
    let lower = text::unicode_lowercase(value);
    if store_part_is_whole(value, lower) {
        family_in(value, lower)
    } else {
        None
    }
}

/// The package family of a Store application.
///
/// A path whose lowercase form is so different that it does not locate the
/// package in the path has none.
pub fn windowsapps_package_family(path: &str) -> (family: Option<String>)
    ensures
        match store_family(path@) {
            Some(name) => family matches Some(f) && f@ == name,
            None => family is None,
        },
{
    let value = normalize_windows_path(path);
    let lower = text::to_lowercase(value.as_str());
    if whole_store_part(value.as_str(), lower.as_str()) {
        package_family(value.as_str(), lower.as_str())
    } else {
        None
    }
}

/// The directory of a package holds its name, which may itself hold
/// underscores, and behind it the version, the architecture, the resource and
/// the publisher.
pub proof fn package_directories_name_package_and_publisher(
    name: Seq<char>,
    version: Seq<char>,
    architecture: Seq<char>,
    resource: Seq<char>,
    publisher: Seq<char>,
)
    requires
        name.len() > 0,
        !text::contains_char(version, '_'),
        !text::contains_char(architecture, '_'),
        !text::contains_char(resource, '_'),
        !text::contains_char(publisher, '_'),
    ensures
        package_parts(
            name + seq!['_'] + version + seq!['_'] + architecture + seq!['_'] + resource
                + seq!['_'] + publisher,
        ) == Some((name, publisher)),
{
    let one = name + seq!['_'] + version;
    let two = one + seq!['_'] + architecture;
    let three = two + seq!['_'] + resource;
    let four = three + seq!['_'] + publisher;
    text::a_separator_ends_a_piece(name, version, '_');
    text::a_separator_ends_a_piece(one, architecture, '_');
    text::a_separator_ends_a_piece(two, resource, '_');
    text::a_separator_ends_a_piece(three, publisher, '_');
    text::lemma_split_nonempty(name, '_');
    text::lemma_join_split(name, '_');
    let pieces = text::split(name, '_');
    let all = text::split(four, '_');
    assert(all.len() == pieces.len() + 4);
    assert(all.subrange(0, all.len() - 4) =~= pieces);
    assert(all.last() == publisher);
    reveal_strlit("_");
    assert("_"@ =~= seq!['_']);
    assert(four =~= name + seq!['_'] + version + seq!['_'] + architecture + seq!['_'] + resource
        + seq!['_'] + publisher);
}

/// A path in the package store shows the package by its directory and the
/// program by the path below. The store is found whatever its case, as long as
/// the lowercase form takes as many bytes up to there.
pub proof fn store_paths_show_package_and_program(
    root: Seq<char>,
    store: Seq<char>,
    directory: Seq<char>,
    below: Seq<char>,
    lower: Seq<char>,
    at: int,
)
    requires
        store == "\\windowsapps\\"@ || store == "\\WindowsApps\\"@,
        !text::contains_char(directory, '\\'),
        text::find_from(lower, "\\windowsapps\\"@, 0) == Some(at),
        0 <= at <= lower.len(),
        text::byte_length(lower.subrange(0, at)) == text::byte_length(root),
    ensures
        store_parts(root + store + directory + seq!['\\'] + below, lower) == Some(
            (directory, below),
        ),
        store_part_is_whole(root + store + directory + seq!['\\'] + below, lower),
{
    reveal_strlit("\\windowsapps\\");
    reveal_strlit("\\WindowsApps\\");
    let tail = directory + seq!['\\'] + below;
    let value = root + store + directory + seq!['\\'] + below;
    text::bytes_are_counted_by_the_character(root + store, tail);
    text::bytes_are_counted_by_the_character(root, store);
    text::bytes_are_counted_by_the_character("\\windowsapps\\"@, tail);
    text::bytes_are_counted_by_the_character(store, tail);
    assert(text::byte_length(store) == 13);
    assert(text::byte_length("\\windowsapps\\"@) == 13);
    assert(value =~= root + store + tail);
    lemma_first_separator(directory, below);
    assert(tail.subrange(0, directory.len() as int) =~= directory);
    assert(tail.subrange(directory.len() as int + 1, tail.len() as int) =~= below);
}

proof fn lemma_first_separator(directory: Seq<char>, below: Seq<char>)
    requires
        !text::contains_char(directory, '\\'),
    ensures
        text::first_index(directory + seq!['\\'] + below, '\\') == directory.len(),
    decreases directory.len(),
{
    let tail = directory + seq!['\\'] + below;
    if directory.len() > 0 {
        let rest = directory.drop_first();
        assert(directory[0] != '\\');
        assert forall|i: int| 0 <= i < rest.len() implies rest[i] != '\\' by {
            assert(directory[i + 1] != '\\');
        }
        lemma_first_separator(rest, below);
        assert(tail.drop_first() =~= rest + seq!['\\'] + below);
        assert(tail[0] == directory[0]);
    } else {
        assert(tail[0] == '\\');
    }
}

/// A package is known by its name and the path of the program below it, its
/// family by the name and the publisher. Neither depends on the version.
pub proof fn updates_keep_package_and_family(
    value: Seq<char>,
    lower: Seq<char>,
    directory: Seq<char>,
    below: Seq<char>,
    name: Seq<char>,
    publisher: Seq<char>,
)
    requires
        store_parts(value, lower) == Some((directory, below)),
        package_parts(directory) == Some((name, publisher)),
        below.len() > 0,
        publisher.len() > 0,
    ensures
        identity_in(value, lower) == Some((name, relative_key(below))),
        family_in(value, lower) == Some(name + seq!['_'] + publisher),
{
    reveal_strlit("_");
    assert("_"@ =~= seq!['_']);
}

/// The case of a drive letter does not tell directories apart, and every other
/// difference does.
pub proof fn only_the_drive_ignores_case(letter: char, a: Seq<char>, b: Seq<char>)
    ensures
        is_same_directory(
            seq![letter, ':'] + a,
            seq![text::ascii_lower_char(letter), ':'] + a,
        ),
        is_same_directory(seq![letter, ':'] + a, seq![letter, ':'] + b) <==> a == b,
        a.len() < 2 ==> (is_same_directory(a, b) ==> a.len() == b.len()),
{
    let upper = seq![letter, ':'] + a;
    let lower = seq![text::ascii_lower_char(letter), ':'] + a;
    let other = seq![letter, ':'] + b;
    assert(with_lower_drive(upper) =~= with_lower_drive(lower));
    assert(with_lower_drive(upper) =~= lower);
    assert(with_lower_drive(other) =~= seq![text::ascii_lower_char(letter), ':'] + b);
    if is_same_directory(upper, other) {
        let x = with_lower_drive(upper);
        let y = with_lower_drive(other);
        assert(x.len() == y.len());
        assert forall|i: int| 0 <= i < a.len() implies a[i] == b[i] by {
            assert(x[i + 2] == a[i]);
            assert(y[i + 2] == b[i]);
        }
        assert(a =~= b);
    }
}

/// Paths below a package are compared without their leading separators, and
/// with slashes taken for backslashes.
pub proof fn relative_paths_are_compared_without_leading_separators(path: Seq<char>)
    ensures
        relative_key(seq!['\\'] + path) == relative_key(path),
        relative_key(seq!['/'] + path) == relative_key(path),
{
    let separators = seq!['\\'] + path;
    let slashes = seq!['/'] + path;
    lemma_backslashes_behind('\\', path);
    lemma_backslashes_behind('/', path);
    let value = seq!['\\'] + crate::with_backslashes(path);
    assert(value.drop_first() =~= crate::with_backslashes(path));
}

proof fn lemma_backslashes_behind(c: char, path: Seq<char>)
    requires
        c == '\\' || c == '/',
    ensures
        crate::with_backslashes(seq![c] + path) == seq!['\\'] + crate::with_backslashes(path),
{
    crate::windows_paths_take_their_regular_form(path);
    crate::windows_paths_take_their_regular_form(seq![c] + path);
    assert(crate::with_backslashes(seq![c] + path) =~= seq!['\\'] + crate::with_backslashes(path));
}

} // verus!
