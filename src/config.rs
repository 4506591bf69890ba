use vstd::prelude::*;

use crate::text::{
    chars_of, index_of, is_space, lemma_index_of, lemma_index_of_at, lemma_split_lines_nonempty,
    push_str, range_equals, split_lines, string_of_range, trim, trim_bounds, trim_end, trim_start,
};

verus! {

/// Key of the directory that holds the wallpapers.
pub open spec fn wallpaper_key() -> Seq<char> {
    "wallpaper_path"@
}

/// Key of the wallpaper applied last.
pub open spec fn prev_key() -> Seq<char> {
    "prev_wallpaper"@
}

/// Key and value of a `key = value` line: split at the first `=`, both sides
/// trimmed. A line without `=` has neither.
pub open spec fn line_entry(line: Seq<char>) -> Option<(Seq<char>, Seq<char>)> {
    let i = index_of(line, '=');
    if i < 0 {
        None
    } else {
        Some((trim(line.subrange(0, i)), trim(line.subrange(i + 1, line.len() as int))))
    }
}

/// The value for `key` after reading `line`, `cur` before it.
pub open spec fn step_value(line: Seq<char>, key: Seq<char>, cur: Option<Seq<char>>) -> Option<Seq<char>> {
    match line_entry(line) {
        Some(e) => if e.0 == key {
            Some(e.1)
        } else {
            cur
        },
        None => cur,
    }
}

/// The value of the last of `lines` whose key is `key`.
pub open spec fn lookup(lines: Seq<Seq<char>>, key: Seq<char>) -> Option<Seq<char>>
    decreases lines.len(),
{
    if lines.len() == 0 {
        None
    } else {
        step_value(lines.last(), key, lookup(lines.drop_last(), key))
    }
}

/// What a configuration file says.
pub struct ConfigModel {
    pub wallpaper_path: Seq<char>,
    pub prev_wallpaper: Option<Seq<char>>,
}

/// The record that `text` holds; none where no line sets `wallpaper_path`.
pub open spec fn parse_model(text: Seq<char>) -> Option<ConfigModel> {
    let lines = split_lines(text);
    match lookup(lines, wallpaper_key()) {
        None => None,
        Some(w) => Some(ConfigModel { wallpaper_path: w, prev_wallpaper: lookup(lines, prev_key()) }),
    }
}

/// One `key = value` line, ended by a line break.
pub open spec fn line_text(key: Seq<char>, value: Seq<char>) -> Seq<char> {
    key + " = "@ + value + seq!['\n']
}

/// The file text of a record: the directory line, then the history line if any.
pub open spec fn render_model(m: ConfigModel) -> Seq<char> {
    line_text(wallpaper_key(), m.wallpaper_path) + match m.prev_wallpaper {
        Some(p) => line_text(prev_key(), p),
        None => Seq::<char>::empty(),
    }
}

/// The record of a fresh configuration for the directory `dir`.
pub open spec fn initial_model(dir: Seq<char>) -> ConfigModel {
    ConfigModel { wallpaper_path: dir, prev_wallpaper: None }
}

/// The record after `chosen` was applied.
pub open spec fn selected_model(m: ConfigModel, chosen: Seq<char>) -> ConfigModel {
    ConfigModel { wallpaper_path: m.wallpaper_path, prev_wallpaper: Some(chosen) }
}

/// A value that a line holds unchanged: no line break, no whitespace on its ends.
pub open spec fn is_clean_value(v: Seq<char>) -> bool {
    &&& forall|k: int| 0 <= k < v.len() ==> v[k] != '\n'
    &&& trim_start(v) == v
    &&& trim_end(v) == v
}

pub open spec fn is_clean_model(m: ConfigModel) -> bool {
    &&& is_clean_value(m.wallpaper_path)
    &&& (m.prev_wallpaper matches Some(p) ==> is_clean_value(p))
}

/// A field of the configuration file.
#[derive(Clone, Copy, Debug, PartialEq, Eq, Structural)]
pub enum Field {
    WallpaperPath,
    PrevWallpaper,
}

/// Why the configuration could not be set up, read or updated.
#[derive(Clone, Debug)]
pub enum ConfigError {
    /// The given wallpaper directory is not an existing directory.
    InvalidDirectory(String),
    /// The file sets no value for this field.
    MissingField(Field),
    /// The file system refused an operation on this path.
    IoError(String),
}

/// The persisted state: the wallpaper directory and the wallpaper applied last.
#[derive(Clone, Debug)]
pub struct ConfigRecord {
    pub wallpaper_path: String,
    pub prev_wallpaper: Option<String>,
}

pub open spec fn opt_view(o: Option<String>) -> Option<Seq<char>> {
    match o {
        Some(s) => Some(s@),
        None => None,
    }
}

impl View for ConfigRecord {
    type V = ConfigModel;

    open spec fn view(&self) -> ConfigModel {
        ConfigModel { wallpaper_path: self.wallpaper_path@, prev_wallpaper: opt_view(self.prev_wallpaper) }
    }
}

/// Bounds of the trimmed key and value of the line `v[lo..hi]`.
fn entry_bounds(v: &Vec<char>, lo: usize, hi: usize) -> (r: Option<(usize, usize, usize, usize)>)
    requires
        lo <= hi <= v@.len(),
    ensures
        match line_entry(v@.subrange(lo as int, hi as int)) {
            None => r is None,
            Some(e) => r matches Some(b) && b.0 <= b.1 <= v@.len() && b.2 <= b.3 <= v@.len()
                && v@.subrange(b.0 as int, b.1 as int) == e.0
                && v@.subrange(b.2 as int, b.3 as int) == e.1,
        },
{
    let ghost line = v@.subrange(lo as int, hi as int);
    let mut i: usize = lo;
    while i < hi && v[i] != '='
        invariant
            lo <= i <= hi <= v@.len(),
            line == v@.subrange(lo as int, hi as int),
            forall|k: int| lo <= k < i ==> v@[k] != '=',
        decreases hi - i,
    {
        i = i + 1;
    }
    proof {
        lemma_index_of(line, '=');
    }
    if i == hi {
        assert(index_of(line, '=') < 0) by {
            if index_of(line, '=') >= 0 {
                assert(line[index_of(line, '=')] == v@[lo + index_of(line, '=')]);
            }
        }
        return None;
    }
    proof {
        lemma_index_of_at(line, '=', i - lo);
        assert(line.subrange(0, i - lo) =~= v@.subrange(lo as int, i as int));
        assert(line.subrange(i - lo + 1, line.len() as int) =~= v@.subrange(i + 1, hi as int));
    }
    let (k0, k1) = trim_bounds(v, lo, i);
    let (v0, v1) = trim_bounds(v, i + 1, hi);
    Some((k0, k1, v0, v1))
}

/// Reads one line into the values found so far for the two keys.
fn read_line(
    v: &Vec<char>,
    lo: usize,
    hi: usize,
    wk: &Vec<char>,
    pk: &Vec<char>,
    wp: Option<String>,
    prev: Option<String>,
) -> (r: (Option<String>, Option<String>))
    requires
        lo <= hi <= v@.len(),
        wk@ == wallpaper_key(),
        pk@ == prev_key(),
    ensures
        opt_view(r.0) == step_value(v@.subrange(lo as int, hi as int), wallpaper_key(), opt_view(wp)),
        opt_view(r.1) == step_value(v@.subrange(lo as int, hi as int), prev_key(), opt_view(prev)),
{
    proof {
        lemma_keys_differ();
    }
    match entry_bounds(v, lo, hi) {
        None => (wp, prev),
        Some((k0, k1, v0, v1)) => {
            if range_equals(v, k0, k1, wk) {
                (Some(string_of_range(v, v0, v1)), prev)
            } else if range_equals(v, k0, k1, pk) {
                (wp, Some(string_of_range(v, v0, v1)))
            } else {
                (wp, prev)
            }
        },
    }
}

/// Reads a configuration file's text: each line is split at its first `=`,
/// key and value trimmed, and the last line with a known key wins; other keys
/// are ignored. Fails when no line sets `wallpaper_path`.
pub fn parse_config(text: &str) -> (r: Result<ConfigRecord, ConfigError>)
    ensures
        match parse_model(text@) {
            None => r matches Err(ConfigError::MissingField(Field::WallpaperPath)),
            Some(m) => r matches Ok(rec) && rec@ == m,
        },
{
    let v = chars_of(text);
    let wk = chars_of("wallpaper_path");
    let pk = chars_of("prev_wallpaper");
    let mut wp: Option<String> = None;
    let mut prev: Option<String> = None;
    let mut start: usize = 0;
    let mut i: usize = 0;
    while i < v.len()
        invariant
            start <= i <= v@.len(),
            wk@ == wallpaper_key(),
            pk@ == prev_key(),
            split_lines(v@.subrange(0, i as int)).len() >= 1,
            split_lines(v@.subrange(0, i as int)).last() == v@.subrange(start as int, i as int),
            opt_view(wp) == lookup(split_lines(v@.subrange(0, i as int)).drop_last(), wallpaper_key()),
            opt_view(prev) == lookup(split_lines(v@.subrange(0, i as int)).drop_last(), prev_key()),
        decreases v@.len() - i,
    {
        let ghost before = split_lines(v@.subrange(0, i as int));
        assert(v@.subrange(0, i + 1).drop_last() =~= v@.subrange(0, i as int));
        if v[i] == '\n' {
            let (a, b) = read_line(&v, start, i, &wk, &pk, wp, prev);
            wp = a;
            prev = b;
            start = i + 1;
            proof {
                assert(before.drop_last().push(before.last()) =~= before);
                assert(split_lines(v@.subrange(0, i + 1)).drop_last() =~= before);
                assert(v@.subrange(i + 1, i + 1) =~= Seq::<char>::empty());
            }
        } else {
            proof {
                assert(split_lines(v@.subrange(0, i + 1)).drop_last() =~= before.drop_last());
                assert(v@.subrange(start as int, i + 1) =~= v@.subrange(start as int, i as int).push(v@[i as int]));
            }
        }
        i = i + 1;
    }
    let ghost lines = split_lines(v@.subrange(0, i as int));
    let (a, b) = read_line(&v, start, v.len(), &wk, &pk, wp, prev);
    proof {
        assert(v@.subrange(0, i as int) =~= text@);
    }
    match a {
        None => Err(ConfigError::MissingField(Field::WallpaperPath)),
        Some(w) => Ok(ConfigRecord { wallpaper_path: w, prev_wallpaper: b }),
    }
}

/// Appends the line `key = value` to `s`.
fn push_line(s: &mut String, key: &str, value: &str)
    ensures
        final(s)@ == old(s)@ + line_text(key@, value@),
{
    push_str(s, key);
    push_str(s, " = ");
    push_str(s, value);
    push_str(s, "\n");
    proof {
        reveal_strlit("\n");
        assert(final(s)@ =~= old(s)@ + line_text(key@, value@));
    }
}

/// The file text of `rec`: `wallpaper_path = <dir>` on the first line, then
/// `prev_wallpaper = <path>` when a wallpaper was applied.
pub fn render_config(rec: &ConfigRecord) -> (r: String)
    ensures
        r@ == render_model(rec@),
{
    let mut s = String::new();
    push_line(&mut s, "wallpaper_path", rec.wallpaper_path.as_str());
    match &rec.prev_wallpaper {
        Some(p) => push_line(&mut s, "prev_wallpaper", p.as_str()),
        None => {},
    }
    assert(s@ =~= render_model(rec@));
    s
}

/// The record of a new configuration for the wallpaper directory `dir`;
/// `is_directory` tells whether `dir` names an existing directory.
pub fn initialize(dir: &str, is_directory: bool) -> (r: Result<ConfigRecord, ConfigError>)
    ensures
        is_directory ==> (r matches Ok(rec) && rec@ == initial_model(dir@)),
        !is_directory ==> (r matches Err(ConfigError::InvalidDirectory(d)) && d@ == dir@),
{
    if is_directory {
        Ok(ConfigRecord { wallpaper_path: dir.to_owned(), prev_wallpaper: None })
    } else {
        Err(ConfigError::InvalidDirectory(dir.to_owned()))
    }
}

/// The record after `chosen` was applied: the history holds `chosen`, in
/// place of any earlier value, and the directory stays.
pub fn record_selection(rec: &ConfigRecord, chosen: &str) -> (r: ConfigRecord)
    ensures
        r@ == selected_model(rec@, chosen@),
{
    ConfigRecord { wallpaper_path: rec.wallpaper_path.clone(), prev_wallpaper: Some(chosen.to_owned()) }
}

proof fn lemma_keys_differ()
    ensures
        wallpaper_key() != prev_key(),
{
    reveal_strlit("wallpaper_path");
    reveal_strlit("prev_wallpaper");
    assert(wallpaper_key()[0] != prev_key()[0]);
}


/// A key that a `key = value` line keeps as it is.
pub open spec fn is_plain_key(key: Seq<char>) -> bool {
    &&& key.len() > 0
    &&& !is_space(key[0])
    &&& !is_space(key.last())
    &&& forall|k: int| 0 <= k < key.len() ==> key[k] != '=' && key[k] != '\n'
}

/// A line without its line break.
pub open spec fn line_body(key: Seq<char>, value: Seq<char>) -> Seq<char> {
    key + " = "@ + value
}

proof fn lemma_keys_plain()
    ensures
        is_plain_key(wallpaper_key()),
        is_plain_key(prev_key()),
{
    reveal_strlit("wallpaper_path");
    reveal_strlit("prev_wallpaper");
}

/// Appending text without a line break extends the last line.
proof fn lemma_split_append(x: Seq<char>, y: Seq<char>)
    requires
        forall|k: int| 0 <= k < y.len() ==> y[k] != '\n',
    ensures
        split_lines(x).len() >= 1,
        split_lines(x + y) == split_lines(x).update(
            split_lines(x).len() - 1,
            split_lines(x).last() + y,
        ),
    decreases y.len(),
{
    lemma_split_lines_nonempty(x);
    let s = split_lines(x);
    if y.len() == 0 {
        assert(x + y =~= x);
        assert(s.update(s.len() - 1, s.last() + y) =~= s);
    } else {
        let y0 = y.drop_last();
        lemma_split_append(x, y0);
        assert((x + y).drop_last() =~= x + y0);
        assert((s.last() + y0).push(y.last()) =~= s.last() + y);
        assert(split_lines(x + y) =~= s.update(s.len() - 1, s.last() + y));
    }
}

/// A line break starts a new, empty line.
proof fn lemma_split_newline(x: Seq<char>)
    ensures
        split_lines(x.push('\n')) == split_lines(x).push(Seq::<char>::empty()),
{
    assert(x.push('\n').drop_last() =~= x);
}

proof fn lemma_line_entry(key: Seq<char>, value: Seq<char>)
    requires
        is_plain_key(key),
        is_clean_value(value),
    ensures
        line_entry(line_body(key, value)) == Some((key, value)),
        forall|k: int| 0 <= k < line_body(key, value).len() ==> line_body(key, value)[k] != '\n',
        line_text(key, value) == line_body(key, value).push('\n'),
{
    reveal_strlit(" = ");
    let l = line_body(key, value);
    let n = key.len() as int;
    assert(l[n + 1] == '=');
    assert forall|k: int| 0 <= k < n + 1 implies l[k] != '=' by {
        if k < n {
            assert(l[k] == key[k]);
        }
    }
    lemma_index_of_at(l, '=', n + 1);
    let kp = l.subrange(0, n + 1);
    assert(kp =~= key.push(' '));
    assert(kp.drop_last() =~= key);
    assert(trim_start(kp) == kp);
    assert(trim_end(kp) == trim_end(key));
    let vp = l.subrange(n + 2, l.len() as int);
    assert(vp =~= seq![' '] + value);
    assert(vp.drop_first() =~= value);
    assert(trim_start(vp) == trim_start(value));
    assert(line_text(key, value) =~= l.push('\n'));
}

proof fn lemma_one_line(key: Seq<char>, value: Seq<char>)
    requires
        is_plain_key(key),
        is_clean_value(value),
    ensures
        split_lines(line_text(key, value)) == seq![line_body(key, value), Seq::<char>::empty()],
{
    lemma_line_entry(key, value);
    let l = line_body(key, value);
    lemma_split_append(Seq::<char>::empty(), l);
    assert(Seq::<char>::empty() + l =~= l);
    assert(split_lines(Seq::<char>::empty()) =~= seq![Seq::<char>::empty()]);
    assert(split_lines(l) =~= seq![l]);
    lemma_split_newline(l);
    assert(split_lines(l).push(Seq::<char>::empty()) =~= seq![l, Seq::<char>::empty()]);
}

/// Rendering a record and reading the text back gives the record again,
/// for values without line breaks or outer whitespace.
pub proof fn lemma_round_trip(m: ConfigModel)
    requires
        is_clean_model(m),
    ensures
        parse_model(render_model(m)) == Some(m),
{
    lemma_keys_plain();
    lemma_keys_differ();
    let wk = wallpaper_key();
    let pk = prev_key();
    let a1 = line_body(wk, m.wallpaper_path);
    let t1 = line_text(wk, m.wallpaper_path);
    lemma_line_entry(wk, m.wallpaper_path);
    lemma_one_line(wk, m.wallpaper_path);
    let empty = Seq::<char>::empty();
    assert(index_of(empty, '=') == -1);
    assert(line_entry(empty) is None);
    match m.prev_wallpaper {
        None => {
            assert(render_model(m) =~= t1);
            let lines = split_lines(t1);
            assert(lines.drop_last() =~= seq![a1]);
            assert(seq![a1].drop_last() =~= Seq::<Seq<char>>::empty());
            assert(lookup(seq![a1], wk) == Some(m.wallpaper_path));
            assert(lookup(Seq::<Seq<char>>::empty(), pk) == None::<Seq<char>>);
            assert(seq![a1].last() == a1);
            assert(step_value(a1, pk, None) == None::<Seq<char>>);
            assert(lookup(seq![a1], pk) == None::<Seq<char>>);
        },
        Some(p) => {
            let a2 = line_body(pk, p);
            lemma_line_entry(pk, p);
            lemma_split_append(t1, a2);
            let s1 = split_lines(t1);
            assert(s1.update(1, s1.last() + a2) =~= seq![a1, a2]);
            lemma_split_newline(t1 + a2);
            assert(render_model(m) =~= (t1 + a2).push('\n'));
            let lines = split_lines(render_model(m));
            assert(lines =~= seq![a1, a2, empty]);
            assert(lines.drop_last() =~= seq![a1, a2]);
            assert(seq![a1, a2].drop_last() =~= seq![a1]);
            assert(seq![a1].drop_last() =~= Seq::<Seq<char>>::empty());
            assert(lookup(seq![a1], wk) == Some(m.wallpaper_path));
            assert(lookup(Seq::<Seq<char>>::empty(), pk) == None::<Seq<char>>);
            assert(seq![a1].last() == a1);
            assert(step_value(a1, pk, None) == None::<Seq<char>>);
            assert(lookup(seq![a1], pk) == None::<Seq<char>>);
            assert(lookup(seq![a1, a2], wk) == Some(m.wallpaper_path));
            assert(lookup(seq![a1, a2], pk) == Some(p));
        },
    }
}

/// A fresh configuration for `dir`, read back, names `dir` as the wallpaper
/// directory and holds no history.
pub proof fn lemma_initialize_then_load(dir: Seq<char>)
    requires
        is_clean_value(dir),
    ensures
        parse_model(render_model(initial_model(dir))) == Some(initial_model(dir)),
        initial_model(dir).wallpaper_path == dir,
        initial_model(dir).prev_wallpaper is None,
{
    lemma_round_trip(initial_model(dir));
}

/// Recording `p1` and then `p2` leaves one history line, holding `p2`, after
/// the unchanged directory line; the text reads back as that record.
pub proof fn lemma_record_twice(m: ConfigModel, p1: Seq<char>, p2: Seq<char>)
    requires
        is_clean_model(m),
        is_clean_value(p1),
        is_clean_value(p2),
    ensures
        render_model(selected_model(selected_model(m, p1), p2)) == line_text(wallpaper_key(), m.wallpaper_path)
            + line_text(prev_key(), p2),
        parse_model(render_model(selected_model(selected_model(m, p1), p2))) == Some(
            ConfigModel { wallpaper_path: m.wallpaper_path, prev_wallpaper: Some(p2) },
        ),
{
    let r = selected_model(selected_model(m, p1), p2);
    lemma_round_trip(r);
    assert(r == ConfigModel { wallpaper_path: m.wallpaper_path, prev_wallpaper: Some(p2) });
}

/// After `chosen` was recorded, the file text reads back with `chosen` as the
/// wallpaper applied last.
pub proof fn lemma_replay_after_selection(m: ConfigModel, chosen: Seq<char>)
    requires
        is_clean_model(m),
        is_clean_value(chosen),
    ensures
        parse_model(render_model(selected_model(m, chosen))) matches Some(r) && r.prev_wallpaper == Some(chosen)
            && r.wallpaper_path == m.wallpaper_path,
{
    lemma_round_trip(selected_model(m, chosen));
}

} // verus!
