use vstd::prelude::*;

use crate::catalog::{
    catalog_of, entries_view, extension, is_image_name, join_path, join_path_str, qualifies, ImageEntry,
};
use crate::config::{ConfigError, ConfigRecord, Field};
use crate::text::{lemma_last_index_of, str_equals};

verus! {

/// Label of the entry that asks for a wallpaper from the network.
pub open spec fn online_label() -> Seq<char> {
    "Online wallpaper"@
}

/// Label of the entry that ends the program.
pub open spec fn quit_label() -> Seq<char> {
    "Quit"@
}

/// The labels shown to the user: the catalog's names in catalog order, then
/// the two fixed entries.
pub open spec fn menu_model(catalog: Seq<(Seq<char>, Seq<char>)>) -> Seq<Seq<char>> {
    catalog.map_values(|e: (Seq<char>, Seq<char>)| e.0) + seq![online_label(), quit_label()]
}

pub open spec fn strings_view(v: Seq<String>) -> Seq<Seq<char>> {
    v.map_values(|s: String| s@)
}

/// The path of the first catalog entry whose name is exactly `label`.
pub open spec fn find_path(catalog: Seq<(Seq<char>, Seq<char>)>, label: Seq<char>) -> Option<Seq<char>>
    decreases catalog.len(),
{
    if catalog.len() == 0 {
        None
    } else if catalog[0].0 == label {
        Some(catalog[0].1)
    } else {
        find_path(catalog.drop_first(), label)
    }
}

/// What a chosen label leads to.
pub enum Choice {
    Applied(Seq<char>),
    Quit,
    Unavailable,
    NotFound,
}

pub open spec fn resolve_model(catalog: Seq<(Seq<char>, Seq<char>)>, label: Seq<char>) -> Choice {
    if label == quit_label() {
        Choice::Quit
    } else if label == online_label() {
        Choice::Unavailable
    } else {
        match find_path(catalog, label) {
            Some(p) => Choice::Applied(p),
            None => Choice::NotFound,
        }
    }
}

/// The result of one run.
#[derive(Clone, Debug)]
pub enum Outcome {
    /// The wallpaper at this path was applied.
    Applied(String),
    /// The user quit.
    Quit,
    /// The user asked for a network wallpaper, which is not offered.
    Unavailable,
}

/// Why a run stopped.
#[derive(Clone, Debug)]
pub enum SessionError {
    /// The per-user configuration directory is unknown.
    Environment,
    /// The configuration could not be set up, read or updated.
    Config(ConfigError),
    /// The configured wallpaper directory is not a directory.
    ConfigPathInvalid(String),
    /// The wallpaper directory could not be listed.
    DirectoryUnreadable(String),
    /// The chosen label names no catalog entry.
    SelectionNotFound(String),
    /// The program that applies wallpapers could not be started.
    BackendUnavailable(String),
    /// A step of the session came in an order the session never asks for.
    OutOfOrder,
}

/// The configuration file's path inside the per-user configuration directory,
/// or `Environment` when that directory is unknown.
pub fn resolve_config_path(config_dir: Option<String>) -> (r: Result<String, SessionError>)
    ensures
        match config_dir {
            None => r matches Err(SessionError::Environment),
            Some(d) => r matches Ok(p) && p@ == join_path(join_path(d@, "bgc"@), "config.conf"@),
        },
{
    match config_dir {
        None => Err(SessionError::Environment),
        Some(d) => {
            let app_dir = join_path_str(d.as_str(), "bgc");
            Ok(join_path_str(app_dir.as_str(), "config.conf"))
        },
    }
}

/// Fails with `ConfigPathInvalid` when the configured wallpaper directory,
/// as `is_directory` reports it, is not a directory.
pub fn check_wallpaper_dir(rec: &ConfigRecord, is_directory: bool) -> (r: Result<(), SessionError>)
    ensures
        is_directory ==> r is Ok,
        !is_directory ==> (r matches Err(SessionError::ConfigPathInvalid(p)) && p@ == rec.wallpaper_path@),
{
    if is_directory {
        Ok(())
    } else {
        Err(SessionError::ConfigPathInvalid(rec.wallpaper_path.clone()))
    }
}

/// The labels to offer: each catalog entry's name, then "Online wallpaper"
/// and "Quit".
pub fn menu_labels(catalog: &Vec<ImageEntry>) -> (r: Vec<String>)
    ensures
        strings_view(r@) == menu_model(entries_view(catalog@)),
{
    let mut r: Vec<String> = Vec::new();
    let mut i: usize = 0;
    while i < catalog.len()
        invariant
            i <= catalog@.len(),
            strings_view(r@) == entries_view(catalog@.subrange(0, i as int)).map_values(
                |e: (Seq<char>, Seq<char>)| e.0,
            ),
        decreases catalog@.len() - i,
    {
        let ghost before = r@;
        r.push(catalog[i].display_name.clone());
        assert(entries_view(catalog@.subrange(0, i + 1)) =~= entries_view(catalog@.subrange(0, i as int)).push(
            catalog@[i as int]@,
        ));
        assert(strings_view(r@) =~= strings_view(before).push(catalog@[i as int].display_name@));
        i = i + 1;
        assert(strings_view(r@) =~= entries_view(catalog@.subrange(0, i as int)).map_values(
            |e: (Seq<char>, Seq<char>)| e.0,
        ));
    }
    assert(catalog@.subrange(0, i as int) =~= catalog@);
    let ghost names = strings_view(r@);
    r.push("Online wallpaper".to_owned());
    r.push("Quit".to_owned());
    assert(strings_view(r@) =~= names + seq![online_label(), quit_label()]);
    r
}

/// What the chosen `label` leads to: "Quit" and "Online wallpaper" first,
/// else the entry whose name equals `label` exactly; `SelectionNotFound` when
/// no entry has that name.
pub fn resolve_selection(catalog: &Vec<ImageEntry>, label: &str) -> (r: Result<Outcome, SessionError>)
    ensures
        match resolve_model(entries_view(catalog@), label@) {
            Choice::Quit => r matches Ok(Outcome::Quit),
            Choice::Unavailable => r matches Ok(Outcome::Unavailable),
            Choice::Applied(p) => r matches Ok(Outcome::Applied(q)) && q@ == p,
            Choice::NotFound => r matches Err(SessionError::SelectionNotFound(l)) && l@ == label@,
        },
{
    if str_equals(label, "Quit") {
        return Ok(Outcome::Quit);
    }
    if str_equals(label, "Online wallpaper") {
        return Ok(Outcome::Unavailable);
    }
    let ghost cat = entries_view(catalog@);
    let mut i: usize = 0;
    assert(cat.subrange(0, cat.len() as int) =~= cat);
    while i < catalog.len()
        invariant
            i <= catalog@.len(),
            cat.len() == catalog@.len(),
            label@ != quit_label(),
            label@ != online_label(),
            cat == entries_view(catalog@),
            find_path(cat, label@) == find_path(cat.subrange(i as int, cat.len() as int), label@),
        decreases catalog@.len() - i,
    {
        let ghost rest = cat.subrange(i as int, cat.len() as int);
        assert(rest.drop_first() =~= cat.subrange(i + 1, cat.len() as int));
        assert(rest[0] == catalog@[i as int]@);
        if str_equals(catalog[i].display_name.as_str(), label) {
            assert(rest.len() > 0);
            assert(find_path(rest, label@) == Some(rest[0].1));
            let p = catalog[i].full_path.clone();
            assert(p@ == rest[0].1);
            return Ok(Outcome::Applied(p));
        }
        i = i + 1;
    }
    assert(cat.subrange(i as int, cat.len() as int) =~= Seq::<(Seq<char>, Seq<char>)>::empty());
    Err(SessionError::SelectionNotFound(label.to_owned()))
}

/// The wallpaper to apply again: the one recorded last, or `MissingField`
/// when none was.
pub fn replay_target(rec: &ConfigRecord) -> (r: Result<String, SessionError>)
    ensures
        match rec@.prev_wallpaper {
            Some(p) => r matches Ok(q) && q@ == p,
            None => r matches Err(SessionError::Config(ConfigError::MissingField(Field::PrevWallpaper))),
        },
{
    match &rec.prev_wallpaper {
        Some(p) => Ok(p.clone()),
        None => Err(SessionError::Config(ConfigError::MissingField(Field::PrevWallpaper))),
    }
}

/// The process exit status of a run: 0 when a wallpaper was applied or the
/// network entry was chosen, 1 when the user quit or the run failed.
pub fn exit_code(r: &Result<Outcome, SessionError>) -> (c: i32)
    ensures
        c == (if r matches Ok(Outcome::Applied(_)) || r matches Ok(Outcome::Unavailable) {
            0i32
        } else {
            1i32
        }),
{
    match r {
        Ok(Outcome::Applied(_)) => 0,
        Ok(Outcome::Unavailable) => 0,
        _ => 1,
    }
}

/// Names that differ pairwise.
pub open spec fn distinct_names<T>(v: Seq<(Seq<char>, T)>) -> bool {
    forall|i: int, j: int| 0 <= i < v.len() && 0 <= j < v.len() && i != j ==> v[i].0 != v[j].0
}

proof fn lemma_labels_not_images()
    ensures
        !is_image_name(quit_label()),
        !is_image_name(online_label()),
{
    reveal_strlit("Quit");
    reveal_strlit("Online wallpaper");
    lemma_last_index_of(quit_label(), '.');
    lemma_last_index_of(online_label(), '.');
    assert(extension(quit_label()) is None);
    assert(extension(online_label()) is None);
}

/// Each catalog entry is an image file of the listing, and a listing whose
/// names differ gives a catalog whose names differ.
proof fn lemma_catalog_names(dir: Seq<char>, listing: Seq<(Seq<char>, bool)>)
    ensures
        forall|i: int| 0 <= i < catalog_of(dir, listing).len() ==> is_image_name(
            #[trigger] catalog_of(dir, listing)[i].0,
        ),
        forall|i: int| 0 <= i < catalog_of(dir, listing).len() ==> exists|j: int|
            0 <= j < listing.len() && listing[j].0 == #[trigger] catalog_of(dir, listing)[i].0,
        distinct_names(listing) ==> distinct_names(catalog_of(dir, listing)),
    decreases listing.len(),
{
    if listing.len() > 0 {
        let front = listing.drop_last();
        lemma_catalog_names(dir, front);
        let prev = catalog_of(dir, front);
        let cat = catalog_of(dir, listing);
        let e = listing.last();
        assert forall|i: int| 0 <= i < cat.len() implies exists|j: int|
            0 <= j < listing.len() && listing[j].0 == #[trigger] cat[i].0 by {
            if i < prev.len() {
                let j = choose|j: int| 0 <= j < front.len() && front[j].0 == prev[i].0;
                assert(listing[j] == front[j]);
            } else {
                assert(listing[listing.len() - 1] == e);
            }
        }
        if distinct_names(listing) {
            assert(distinct_names(front)) by {
                assert forall|i: int, j: int| 0 <= i < front.len() && 0 <= j < front.len() && i != j implies front[i].0
                    != front[j].0 by {
                    assert(front[i] == listing[i]);
                    assert(front[j] == listing[j]);
                }
            }
            if qualifies(e) {
                assert forall|i: int| 0 <= i < prev.len() implies prev[i].0 != e.0 by {
                    let j = choose|j: int| 0 <= j < front.len() && front[j].0 == prev[i].0;
                    assert(front[j] == listing[j]);
                }
            }
        }
    }
}

proof fn lemma_find_path_distinct(cat: Seq<(Seq<char>, Seq<char>)>, k: int)
    requires
        distinct_names(cat),
        0 <= k < cat.len(),
    ensures
        find_path(cat, cat[k].0) == Some(cat[k].1),
    decreases k,
{
    if k > 0 {
        let rest = cat.drop_first();
        assert(rest[k - 1] == cat[k]);
        assert forall|i: int, j: int| 0 <= i < rest.len() && 0 <= j < rest.len() && i != j implies rest[i].0
            != rest[j].0 by {
            assert(rest[i] == cat[i + 1]);
            assert(rest[j] == cat[j + 1]);
        }
        lemma_find_path_distinct(rest, k - 1);
    }
}

/// In the catalog of a directory, choosing an entry's name leads to that
/// entry's own path and to no other, even where one name is part of another.
pub proof fn lemma_selection_exact(dir: Seq<char>, listing: Seq<(Seq<char>, bool)>, k: int)
    requires
        distinct_names(listing),
        0 <= k < catalog_of(dir, listing).len(),
    ensures
        resolve_model(catalog_of(dir, listing), catalog_of(dir, listing)[k].0) == Choice::Applied(
            catalog_of(dir, listing)[k].1,
        ),
{
    let cat = catalog_of(dir, listing);
    lemma_catalog_names(dir, listing);
    lemma_labels_not_images();
    assert(is_image_name(cat[k].0));
    lemma_find_path_distinct(cat, k);
}

/// A listing without image files gives an empty catalog, and the menu then
/// holds the two fixed entries alone.
pub proof fn lemma_empty_catalog(dir: Seq<char>, listing: Seq<(Seq<char>, bool)>)
    requires
        forall|i: int| 0 <= i < listing.len() ==> !qualifies(#[trigger] listing[i]),
    ensures
        catalog_of(dir, listing) == Seq::<(Seq<char>, Seq<char>)>::empty(),
        menu_model(catalog_of(dir, listing)) == seq![online_label(), quit_label()],
    decreases listing.len(),
{
    if listing.len() > 0 {
        let front = listing.drop_last();
        assert forall|i: int| 0 <= i < front.len() implies !qualifies(#[trigger] front[i]) by {
            assert(front[i] == listing[i]);
        }
        lemma_empty_catalog(dir, front);
        assert(!qualifies(listing[listing.len() - 1]));
    }
    assert(menu_model(catalog_of(dir, listing)) =~= seq![online_label(), quit_label()]);
}

} // verus!
