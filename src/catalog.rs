use vstd::prelude::*;

use crate::text::{chars_of, last_index_of, lemma_last_index_of, push_str, range_equals};

verus! {

/// The extensions that mark a file as an image, compared case-sensitively.
pub open spec fn image_extensions() -> Seq<Seq<char>> {
    seq![
        "jpeg"@,
        "jpg"@,
        "png"@,
        "gif"@,
        "pnm"@,
        "tga"@,
        "ttf"@,
        "webp"@,
        "bmp"@,
        "farb"@,
        "farbfeld"@,
    ]
}

/// The extension of a file name: what follows its last `.`, where that dot is
/// not the name's first character.
pub open spec fn extension(name: Seq<char>) -> Option<Seq<char>> {
    let i = last_index_of(name, '.');
    if i <= 0 {
        None
    } else {
        Some(name.subrange(i + 1, name.len() as int))
    }
}

/// Whether a file of this name is taken for an image.
pub open spec fn is_image_name(name: Seq<char>) -> bool {
    extension(name) matches Some(e) && image_extensions().contains(e)
}

/// `name` inside the directory `dir`.
pub open spec fn join_path(dir: Seq<char>, name: Seq<char>) -> Seq<char> {
    if dir.len() == 0 {
        name
    } else if dir.last() == '/' {
        dir + name
    } else {
        dir + seq!['/'] + name
    }
}

/// One entry of a directory listing: its file name and whether it is a
/// regular file.
#[derive(Clone, Debug)]
pub struct ListedEntry {
    pub name: String,
    pub is_file: bool,
}

impl View for ListedEntry {
    type V = (Seq<char>, bool);

    open spec fn view(&self) -> (Seq<char>, bool) {
        (self.name@, self.is_file)
    }
}

/// A candidate wallpaper: the file name shown to the user and its full path.
#[derive(Clone, Debug)]
pub struct ImageEntry {
    pub display_name: String,
    pub full_path: String,
}

impl View for ImageEntry {
    type V = (Seq<char>, Seq<char>);

    open spec fn view(&self) -> (Seq<char>, Seq<char>) {
        (self.display_name@, self.full_path@)
    }
}

pub open spec fn listing_view(v: Seq<ListedEntry>) -> Seq<(Seq<char>, bool)> {
    v.map_values(|e: ListedEntry| e@)
}

pub open spec fn entries_view(v: Seq<ImageEntry>) -> Seq<(Seq<char>, Seq<char>)> {
    v.map_values(|e: ImageEntry| e@)
}

/// Whether a listed entry belongs in the catalog.
pub open spec fn qualifies(e: (Seq<char>, bool)) -> bool {
    e.1 && is_image_name(e.0)
}

/// The catalog of a listing of `dir`: its image files, in listing order, each
/// with its path inside `dir`.
pub open spec fn catalog_of(dir: Seq<char>, listing: Seq<(Seq<char>, bool)>) -> Seq<(Seq<char>, Seq<char>)>
    decreases listing.len(),
{
    if listing.len() == 0 {
        Seq::empty()
    } else {
        let prev = catalog_of(dir, listing.drop_last());
        let e = listing.last();
        if qualifies(e) {
            prev.push((e.0, join_path(dir, e.0)))
        } else {
            prev
        }
    }
}

fn image_extension_list() -> (r: Vec<&'static str>)
    ensures
        r@.len() == image_extensions().len(),
        forall|i: int| 0 <= i < r@.len() ==> r@[i]@ == image_extensions()[i],
{
    vec!["jpeg", "jpg", "png", "gif", "pnm", "tga", "ttf", "webp", "bmp", "farb", "farbfeld"]
}

/// Whether the file name `file_name` has one of the image extensions.
pub fn is_img(file_name: &str) -> (r: bool)
    ensures
        r == is_image_name(file_name@),
{
    let v = chars_of(file_name);
    let mut i: usize = v.len();
    while i > 0 && v[i - 1] != '.'
        invariant
            i <= v@.len(),
            forall|k: int| i <= k < v@.len() ==> v@[k] != '.',
        decreases i,
    {
        i = i - 1;
    }
    proof {
        lemma_last_index_of(v@, '.');
        if i > 0 {
            assert(v@[i - 1] == '.');
        }
        assert(last_index_of(v@, '.') == i - 1);
    }
    if i <= 1 {
        return false;
    }
    let exts = image_extension_list();
    let mut k: usize = 0;
    while k < exts.len()
        invariant
            1 < i <= v@.len(),
            v@ == file_name@,
            last_index_of(v@, '.') == i - 1,
            exts@.len() == image_extensions().len(),
            forall|j: int| 0 <= j < exts@.len() ==> exts@[j]@ == image_extensions()[j],
            forall|j: int| 0 <= j < k ==> image_extensions()[j] != v@.subrange(i as int, v@.len() as int),
            k <= exts@.len(),
        decreases exts@.len() - k,
    {
        let e = chars_of(exts[k]);
        if range_equals(&v, i, v.len(), &e) {
            assert(image_extensions()[k as int] == v@.subrange(i as int, v@.len() as int));
            return true;
        }
        k = k + 1;
    }
    false
}

/// The path of `name` inside the directory `dir`.
pub fn join_path_str(dir: &str, name: &str) -> (r: String)
    ensures
        r@ == join_path(dir@, name@),
{
    let d = chars_of(dir);
    let mut r = String::new();
    push_str(&mut r, dir);
    if d.len() > 0 && d[d.len() - 1] != '/' {
        push_str(&mut r, "/");
        proof {
            reveal_strlit("/");
        }
    }
    push_str(&mut r, name);
    assert(r@ =~= join_path(dir@, name@));
    r
}

/// The catalog of `dir` from a listing of it: each regular file whose name has
/// an image extension, in the order of the listing, which is not re-sorted.
pub fn scan(dir: &str, listing: &Vec<ListedEntry>) -> (r: Vec<ImageEntry>)
    ensures
        entries_view(r@) == catalog_of(dir@, listing_view(listing@)),
{
    let mut r: Vec<ImageEntry> = Vec::new();
    let mut i: usize = 0;
    while i < listing.len()
        invariant
            i <= listing@.len(),
            entries_view(r@) == catalog_of(dir@, listing_view(listing@.subrange(0, i as int))),
        decreases listing@.len() - i,
    {
        let ghost before = r@;
        let e = &listing[i];
        assert(listing_view(listing@.subrange(0, i + 1)).drop_last() =~= listing_view(listing@.subrange(0, i as int)));
        assert(listing_view(listing@.subrange(0, i + 1)).last() == e@);
        if e.is_file && is_img(e.name.as_str()) {
            let full = join_path_str(dir, e.name.as_str());
            r.push(ImageEntry { display_name: e.name.clone(), full_path: full });
            assert(entries_view(r@) =~= entries_view(before).push((e.name@, join_path(dir@, e.name@))));
        }
        i = i + 1;
    }
    assert(listing@.subrange(0, i as int) =~= listing@);
    r
}

} // verus!
