//! Resolve an application icon from its app-id, for display next to window names.
//!
//! What is on disk is handed in; here is which file is meant.

use crate::image::{can_sample, image_thumbnail, resampled, CapturedImage};
use crate::order::{sort_positions, sorts, TextKey};
use crate::text::{
    after_last, after_last_chars, byte_len, char_views, chars_of, find_any, find_any_is_first,
    find_last, lowercase, lowercase_chars, owned, position_any, position_last, push_char, same,
    slice_chars, spells, split, split_chars, split_once, split_once_chars, string_of, trim,
    trim_chars, trim_end, trim_end_chars, utf8_len, views,
};
use vstd::prelude::*;
use vstd::string::*;

verus! {

/// `base` with `rel` below it.
pub open spec fn below(base: Seq<char>, rel: Seq<char>) -> Seq<char> {
    if base.len() == 0 {
        rel
    } else if base.last() == '/' {
        base + rel
    } else {
        base + seq!['/'] + rel
    }
}

/// `base` with `rel` below it.
pub fn join_path(base: &str, rel: &str) -> (r: String)
    ensures
        r@ == below(base@, rel@),
{
    let b = chars_of(base);
    let mut out = base.to_owned();
    if b.len() > 0 && b[b.len() - 1] != '/' {
        push_char(&mut out, '/');
    }
    out.append(rel);
    assert(out@ =~= below(base@, rel@));
    out
}

/// The pieces that are not empty.
pub open spec fn not_empty() -> spec_fn(Seq<char>) -> bool {
    |d: Seq<char>| d.len() > 0
}

/// Base data directories, in XDG precedence order.
pub open spec fn data_dirs_spec(
    data_home: Option<Seq<char>>,
    home: Option<Seq<char>>,
    data_dirs: Seq<char>,
) -> Seq<Seq<char>> {
    let own = match data_home {
        Some(d) => if d.len() > 0 {
            Some(d)
        } else {
            match home {
                Some(h) => Some(below(h, ".local/share"@)),
                None => None,
            }
        },
        None => match home {
            Some(h) => Some(below(h, ".local/share"@)),
            None => None,
        },
    };
    let shared = if data_dirs.len() == 0 {
        "/usr/local/share:/usr/share"@
    } else {
        data_dirs
    };
    (match own {
        Some(d) => seq![d],
        None => seq![],
    }) + split(shared, ':').filter(not_empty())
}

/// A text that may be missing.
pub open spec fn opt(s: Option<&str>) -> Option<Seq<char>> {
    match s {
        Some(t) => Some(t@),
        None => None,
    }
}

/// Base data directories, in XDG precedence order (`XDG_DATA_HOME` first, then
/// `XDG_DATA_DIRS`): a user copy of an entry must win over the system one. An unset
/// `XDG_DATA_HOME` is below `HOME`; an unset `XDG_DATA_DIRS` is the two usual ones.
pub fn data_dirs(data_home: Option<&str>, home: Option<&str>, dirs: &str) -> (r: Vec<String>)
    ensures
        views(r@) == data_dirs_spec(opt(data_home), opt(home), dirs@),
{
    let mut out: Vec<String> = Vec::new();
    let mut own: Option<String> = None;
    if let Some(d) = data_home {
        if !d.is_empty() {
            own = Some(d.to_owned());
        }
    }
    if own.is_none() {
        if let Some(h) = home {
            own = Some(join_path(h, ".local/share"));
        }
    }
    let ghost first: Seq<Seq<char>> = match owned(own) {
        Some(d) => seq![d],
        None => seq![],
    };
    if let Some(d) = own {
        out.push(d);
    }
    assert(views(out@) =~= first);
    let shared = if dirs.is_empty() {
        "/usr/local/share:/usr/share"
    } else {
        dirs
    };
    let all = chars_of(shared);
    let pieces = split_chars(all.as_slice(), ':');
    let ghost p = split(shared@, ':');
    for i in 0..pieces.len()
        invariant
            char_views(pieces@) == p,
            views(out@) == first + p.take(i as int).filter(not_empty()),
    {
        assert(p.take(i + 1).drop_last() =~= p.take(i as int));
        assert(p[i as int] == char_views(pieces@)[i as int]);
        reveal_with_fuel(Seq::filter, 2);
        if pieces[i].len() > 0 {
            let ghost before = out@;
            let d = string_of(pieces[i].as_slice());
            out.push(d);
            assert(views(out@) =~= views(before).push(d@));
            assert(views(out@) =~= first + p.take(i + 1).filter(not_empty()));
        }
    }
    assert(p.take(p.len() as int) =~= p);
    out
}

/// Where each base directory keeps its desktop entries.
pub fn app_dirs(bases: &Vec<String>) -> (r: Vec<String>)
    ensures
        views(r@) == views(bases@).map_values(|b: Seq<char>| below(b, "applications"@)),
{
    let mut out: Vec<String> = Vec::new();
    for i in 0..bases.len()
        invariant
            out@.len() == i,
            forall|j: int|
                0 <= j < i ==> (#[trigger] out@[j])@ == below(bases@[j]@, "applications"@),
    {
        out.push(join_path(bases[i].as_str(), "applications"));
    }
    assert(views(out@) =~= views(bases@).map_values(|b: Seq<char>| below(b, "applications"@)));
    out
}

/// Where the icons of each size are, below a base directory. Largest first, and `scalable`
/// ahead of the rasters: callers rasterize at 64–128 px, so a vector source beats
/// upscaling a 32×32 PNG.
pub open spec fn icon_sizes() -> Seq<Seq<char>> {
    seq![
        "icons/hicolor/scalable/apps"@,
        "icons/hicolor/512x512/apps"@,
        "icons/hicolor/256x256/apps"@,
        "icons/hicolor/128x128/apps"@,
        "icons/hicolor/64x64/apps"@,
        "icons/hicolor/48x48/apps"@,
        "icons/hicolor/32x32/apps"@,
    ]
}

/// The icon directories below the first `n` bases.
pub open spec fn icon_dirs_below(bases: Seq<Seq<char>>, n: int) -> Seq<Seq<char>>
    decreases n,
{
    if n <= 0 {
        seq![]
    } else {
        icon_dirs_below(bases, n - 1) + icon_sizes().map_values(
            |s: Seq<char>| below(bases[n - 1], s),
        )
    }
}

/// Where icons are, best place first.
pub fn icon_dirs(bases: &Vec<String>) -> (r: Vec<String>)
    ensures
        views(r@) == icon_dirs_below(views(bases@), bases@.len() as int).push(
            "/usr/share/pixmaps"@,
        ),
{
    let sizes: [&str; 7] = [
        "icons/hicolor/scalable/apps",
        "icons/hicolor/512x512/apps",
        "icons/hicolor/256x256/apps",
        "icons/hicolor/128x128/apps",
        "icons/hicolor/64x64/apps",
        "icons/hicolor/48x48/apps",
        "icons/hicolor/32x32/apps",
    ];
    let ghost b = views(bases@);
    let ghost all = icon_sizes();
    assert forall|k: int| 0 <= k < 7 implies (#[trigger] sizes@[k])@ == all[k] by {}
    let mut out: Vec<String> = Vec::new();
    for i in 0..bases.len()
        invariant
            b == views(bases@),
            all == icon_sizes(),
            forall|k: int| 0 <= k < 7 ==> (#[trigger] sizes@[k])@ == all[k],
            views(out@) == icon_dirs_below(b, i as int),
    {
        let ghost row = all.map_values(|s: Seq<char>| below(b[i as int], s));
        let mut k: usize = 0;
        assert(icon_dirs_below(b, i as int) + row.take(0) =~= icon_dirs_below(b, i as int));
        while k < 7
            invariant
                i < bases@.len(),
                b == views(bases@),
                all == icon_sizes(),
                all.len() == 7,
                row == all.map_values(|s: Seq<char>| below(b[i as int], s)),
                forall|k: int| 0 <= k < 7 ==> (#[trigger] sizes@[k])@ == all[k],
                k <= 7,
                views(out@) == icon_dirs_below(b, i as int) + row.take(k as int),
            decreases 7 - k,
        {
            let ghost before = out@;
            let d = join_path(bases[i].as_str(), sizes[k]);
            out.push(d);
            assert(d@ == row[k as int]);
            assert(views(out@) =~= views(before).push(d@));
            assert(row.take(k + 1) =~= row.take(k as int).push(d@));
            assert(views(out@) =~= icon_dirs_below(b, i as int) + row.take(k + 1));
            k = k + 1;
        }
        assert(row.take(7) =~= row);
    }
    let ghost before = out@;
    let last = String::from_str("/usr/share/pixmaps");
    out.push(last);
    assert(views(out@) =~= views(before).push(last@));
    out
}

/// The keys of a `[Desktop Entry]` group this module cares about.
#[derive(Debug)]
pub struct DesktopEntry {
    /// The icon's name, or the path of its file.
    pub icon: Option<String>,
    /// What the application's windows are called, where it is not the entry's name.
    pub wm_class: Option<String>,
}

/// What has been read of an entry.
#[verifier::ext_equal]
pub struct Reading {
    /// Inside the `[Desktop Entry]` group.
    pub in_main_group: bool,
    pub icon: Option<Seq<char>>,
    pub wm_class: Option<Seq<char>>,
}

impl Reading {
    /// After one more line. Only the first of each key counts, and only the unlocalized
    /// ones: `Icon[fr]=` names a locale-specific variant.
    pub open spec fn after(self, line: Seq<char>) -> Reading {
        let l = trim(line);
        if l.len() >= 2 && l[0] == '[' && l.last() == ']' {
            Reading { in_main_group: l.subrange(1, l.len() - 1) == "Desktop Entry"@, ..self }
        } else if !self.in_main_group {
            self
        } else {
            match split_once(l, seq!['=']) {
                None => self,
                Some((key, value)) => if trim_end(key) == "Icon"@ {
                    Reading {
                        icon: match self.icon {
                            Some(i) => Some(i),
                            None => Some(trim(value)),
                        },
                        ..self
                    }
                } else if trim_end(key) == "StartupWMClass"@ {
                    Reading {
                        wm_class: match self.wm_class {
                            Some(w) => Some(w),
                            None => Some(trim(value)),
                        },
                        ..self
                    }
                } else {
                    self
                },
            }
        }
    }
}

/// What the first `n` lines say.
pub open spec fn reading(lines: Seq<Seq<char>>, n: int) -> Reading
    decreases n,
{
    if n <= 0 {
        Reading { in_main_group: false, icon: None, wm_class: None }
    } else {
        reading(lines, n - 1).after(lines[n - 1])
    }
}

/// What a desktop entry file says.
pub open spec fn entry_of(content: Seq<char>) -> Reading {
    let lines = split(content, '\n');
    reading(lines, lines.len() as int)
}

/// Read `Icon=` and `StartupWMClass=` from the `[Desktop Entry]` group only:
/// `[Desktop Action …]` groups repeat `Icon=` for their own menu item, which
/// describes the action, not the application.
pub fn read_entry(content: &str) -> (r: DesktopEntry)
    ensures
        owned(r.icon) == entry_of(content@).icon,
        owned(r.wm_class) == entry_of(content@).wm_class,
{
    let all = chars_of(content);
    let lines = split_chars(all.as_slice(), '\n');
    let ghost l = split(content@, '\n');
    let equals: [char; 1] = ['='];
    assert(equals@ =~= seq!['=']);
    let mut entry = DesktopEntry { icon: None, wm_class: None };
    let mut in_main_group = false;
    for i in 0..lines.len()
        invariant
            char_views(lines@) == l,
            equals@ == seq!['='],
            reading(l, i as int) == (Reading {
                in_main_group,
                icon: owned(entry.icon),
                wm_class: owned(entry.wm_class),
            }),
    {
        assert(l[i as int] == char_views(lines@)[i as int]);
        let line = trim_chars(lines[i].as_slice());
        let n: usize = line.len();
        if n >= 2 && line[0] == '[' && line[n - 1] == ']' {
            let group = slice_chars(line.as_slice(), 1, n - 1);
            in_main_group = spells(group.as_slice(), "Desktop Entry");
        } else if in_main_group {
            if let Some((key, value)) = split_once_chars(line.as_slice(), &equals) {
                let k = trim_end_chars(key.as_slice());
                let v = trim_chars(value.as_slice());
                if spells(k.as_slice(), "Icon") {
                    if entry.icon.is_none() {
                        entry.icon = Some(string_of(v.as_slice()));
                    }
                } else if spells(k.as_slice(), "StartupWMClass") {
                    if entry.wm_class.is_none() {
                        entry.wm_class = Some(string_of(v.as_slice()));
                    }
                }
            }
        }
    }
    entry
}

/// A `.desktop` file found while scanning the application directories.
#[derive(Debug)]
pub struct DesktopFile {
    /// File name minus the `.desktop` suffix, lowercased for matching.
    pub stem: String,
    /// What it says, where it could be read.
    pub entry: Option<DesktopEntry>,
}

impl DesktopFile {
    /// The icon it declares, if it declares one.
    pub open spec fn icon(self) -> Option<Seq<char>> {
        match self.entry {
            Some(e) => match e.icon {
                Some(i) => if i@.len() > 0 {
                    Some(i@)
                } else {
                    None
                },
                None => None,
            },
            None => None,
        }
    }

    /// The window class it declares, in lowercase.
    pub open spec fn class(self) -> Option<Seq<char>> {
        match self.entry {
            Some(e) => match e.wm_class {
                Some(w) => Some(lowercase(w@)),
                None => None,
            },
            None => None,
        }
    }
}

/// What is left of a file name in lowercase without the `.desktop` suffix.
pub open spec fn stem_of(name: Seq<char>) -> Option<Seq<char>> {
    let low = lowercase(name);
    let n = low.len() - 8;
    if n >= 0 && low.skip(n) == ".desktop"@ {
        Some(low.take(n))
    } else {
        None
    }
}

/// What is left of a file name in lowercase without the `.desktop` suffix.
fn desktop_stem(name: &str) -> (r: Option<String>)
    ensures
        match r {
            Some(s) => stem_of(name@) == Some(s@),
            None => stem_of(name@) is None,
        },
{
    let all = chars_of(name);
    let low = lowercase_chars(all.as_slice());
    let n: usize = low.len();
    if n < 8 {
        return None;
    }
    let end = slice_chars(low.as_slice(), n - 8, n);
    assert(end@ =~= low@.skip(n - 8));
    if spells(end.as_slice(), ".desktop") {
        let s = slice_chars(low.as_slice(), 0, n - 8);
        assert(s@ =~= low@.take(n - 8));
        Some(string_of(s.as_slice()))
    } else {
        None
    }
}

/// The stems among the first `n` names, with the position of each.
pub open spec fn stems(names: Seq<Seq<char>>, n: int) -> Seq<(Seq<char>, int)>
    decreases n,
{
    if n <= 0 {
        seq![]
    } else {
        match stem_of(names[n - 1]) {
            Some(s) => stems(names, n - 1).push((s, n - 1)),
            None => stems(names, n - 1),
        }
    }
}

/// The keys `found` sorts by: the stems.
pub open spec fn stem_keys(keys: Seq<TextKey>, found: Seq<(Seq<char>, int)>) -> bool {
    keys.len() == found.len() && forall|i: int|
        0 <= i < keys.len() ==> (#[trigger] keys[i])@ == found[i].0
}

/// Which of the files of one directory are desktop entries, by their stems' order. A
/// directory is read in whatever order the file system gives, so two equally good
/// candidates would otherwise resolve to a different icon from one machine (or boot) to the
/// next. Each result is a stem and the position of its file in `names`.
pub fn desktop_files(names: &Vec<String>) -> (r: Vec<(String, usize)>)
    ensures
        exists|keys: Seq<TextKey>, o: Seq<usize>| #[trigger]
            stem_keys(keys, stems(views(names@), names@.len() as int)) && #[trigger] sorts(keys, o)
                && r@.len() == o.len() && forall|i: int|
                0 <= i < r@.len() ==> (#[trigger] r@[i]).0@ == stems(
                    views(names@),
                    names@.len() as int,
                )[o[i] as int].0 && r@[i].1 == stems(views(names@), names@.len() as int)[o[i] as int].1,
{
    let ghost v = views(names@);
    let mut found: Vec<(String, usize)> = Vec::new();
    let mut keys: Vec<TextKey> = Vec::new();
    for i in 0..names.len()
        invariant
            v == views(names@),
            found@.len() == stems(v, i as int).len(),
            keys@.len() == found@.len(),
            forall|j: int|
                0 <= j < found@.len() ==> (#[trigger] found@[j]).0@ == stems(v, i as int)[j].0
                    && found@[j].1 == stems(v, i as int)[j].1,
            forall|j: int|
                0 <= j < keys@.len() ==> (#[trigger] keys@[j])@ == stems(v, i as int)[j].0,
    {
        assert(v[i as int] == names@[i as int]@);
        if let Some(s) = desktop_stem(names[i].as_str()) {
            keys.push(TextKey::new(s.as_str()));
            found.push((s, i));
        }
    }
    let ghost all = stems(v, names@.len() as int);
    let order = sort_positions(&keys);
    let mut out: Vec<(String, usize)> = Vec::new();
    for k in 0..order.len()
        invariant
            order@.len() == found@.len(),
            found@.len() == all.len(),
            forall|j: int| 0 <= j < order@.len() ==> 0 <= #[trigger] order@[j] < found@.len(),
            forall|j: int|
                0 <= j < found@.len() ==> (#[trigger] found@[j]).0@ == all[j].0 && found@[j].1
                    == all[j].1,
            out@.len() == k,
            forall|j: int|
                0 <= j < k ==> (#[trigger] out@[j]).0@ == all[order@[j] as int].0 && out@[j].1
                    == all[order@[j] as int].1,
    {
        let f = &found[order[k]];
        out.push((f.0.clone(), f.1));
    }
    assert(stem_keys(keys@, all));
    out
}

/// Last component of a reverse-DNS name: `org.xfce.Thunar` → `Thunar`.
pub open spec fn tail_of(name: Seq<char>) -> Seq<char> {
    after_last(name, '.')
}

/// Last component of a reverse-DNS name: `org.xfce.Thunar` → `Thunar`.
pub fn tail(name: &str) -> (r: String)
    ensures
        r@ == tail_of(name@),
{
    let all = chars_of(name);
    let t = after_last_chars(all.as_slice(), '.');
    string_of(t.as_slice())
}

/// The icon a desktop file declares, if it declares one.
pub fn icon_of(f: &DesktopFile) -> (r: Option<String>)
    ensures
        owned(r) == f.icon(),
{
    match &f.entry {
        Some(e) => match &e.icon {
            Some(i) => if i.as_str().is_empty() {
                None
            } else {
                Some(i.clone())
            },
            None => None,
        },
        None => None,
    }
}

/// How a desktop file can answer to a name.
#[derive(Clone, Copy, Debug, PartialEq, Eq, Structural)]
pub enum Rule {
    /// It is the file's name.
    Stem,
    /// It is the file's name, modulo a reverse-DNS prefix on either side.
    Tail,
    /// It is the window class the file declares.
    Class,
}

impl Rule {
    /// Whether `f` answers to `id`.
    pub open spec fn answers(self, f: DesktopFile, id: Seq<char>) -> bool {
        match self {
            Rule::Stem => f.stem@ == id,
            Rule::Tail => tail_of(f.stem@) == tail_of(id),
            Rule::Class => f.class() == Some(id),
        }
    }

    /// Whether `f` answers to `id`.
    fn is_answered(self, f: &DesktopFile, id: &str) -> (r: bool)
        ensures
            r == self.answers(*f, id@),
    {
        match self {
            Rule::Stem => same(f.stem.as_str(), id),
            Rule::Tail => {
                let a = tail(f.stem.as_str());
                let b = tail(id);
                same(a.as_str(), b.as_str())
            },
            Rule::Class => match &f.entry {
                Some(e) => match &e.wm_class {
                    Some(w) => {
                        let all = chars_of(w.as_str());
                        let low = lowercase_chars(all.as_slice());
                        spells(low.as_slice(), id)
                    },
                    None => false,
                },
                None => false,
            },
        }
    }
}

/// The icon of the first file, from `k` on, that answers to `id` and declares one.
pub open spec fn first_icon(files: Seq<DesktopFile>, rule: Rule, id: Seq<char>, k: int) -> Option<
    Seq<char>,
>
    decreases files.len() - k,
{
    if k < 0 || k >= files.len() {
        None
    } else if rule.answers(files[k], id) && files[k].icon() is Some {
        files[k].icon()
    } else {
        first_icon(files, rule, id, k + 1)
    }
}

/// The icon of the first file that answers to `id` and declares one.
fn find_icon(files: &[DesktopFile], rule: Rule, id: &str) -> (r: Option<String>)
    ensures
        owned(r) == first_icon(files@, rule, id@, 0),
{
    for i in 0..files.len()
        invariant
            first_icon(files@, rule, id@, 0) == first_icon(files@, rule, id@, i as int),
    {
        if rule.is_answered(&files[i], id) {
            let icon = icon_of(&files[i]);
            if icon.is_some() {
                return icon;
            }
        }
    }
    None
}

/// The icon of the base application a wrapper launcher is named after: trailing
/// `-segments` are dropped one at a time, never enough to match on a stub. A launcher's
/// own name or its tail both do.
pub open spec fn base_icon(files: Seq<DesktopFile>, id: Seq<char>) -> Option<Seq<char>>
    decreases id.len(),
{
    match find_last(id, '-') {
        None => None,
        Some(i) => if !(0 <= i < id.len()) || byte_len(id.take(i)) < 3 {
            None
        } else {
            let head = id.take(i);
            match first_icon(files, Rule::Tail, head, 0) {
                Some(icon) => Some(icon),
                None => base_icon(files, head),
            }
        },
    }
}

/// A file named `id` answers to the tail of `id` as well.
pub proof fn a_name_answers_to_its_tail(f: DesktopFile, id: Seq<char>)
    ensures
        Rule::Stem.answers(f, id) ==> Rule::Tail.answers(f, id),
{
}

/// The icon name declared for `id`, already trimmed and in lowercase.
pub open spec fn declared_icon(files: Seq<DesktopFile>, id: Seq<char>) -> Option<Seq<char>> {
    if id.len() == 0 {
        None
    } else if first_icon(files, Rule::Stem, id, 0) is Some {
        first_icon(files, Rule::Stem, id, 0)
    } else if first_icon(files, Rule::Tail, id, 0) is Some {
        first_icon(files, Rule::Tail, id, 0)
    } else if first_icon(files, Rule::Class, id, 0) is Some {
        first_icon(files, Rule::Class, id, 0)
    } else {
        base_icon(files, id)
    }
}

/// Find the icon name a `.desktop` file declares for `app_id`, searching `files`
/// in precedence order.
///
/// Matching follows the desktop-entry spec the way taskbars do, strongest first:
/// the app-id names the desktop file, then it matches a declared `StartupWMClass`,
/// and only then a heuristic. Substring matching is deliberately absent — it made
/// `thunar` pick up `thunar-volman-settings.desktop`, and an empty app-id match
/// every file on disk.
pub fn desktop_icon_in(files: &[DesktopFile], app_id: &str) -> (r: Option<String>)
    ensures
        owned(r) == declared_icon(files@, lowercase(trim(app_id@))),
{
    let all = chars_of(app_id);
    let trimmed = trim_chars(all.as_slice());
    let mut base = lowercase_chars(trimmed.as_slice());
    if base.len() == 0 {
        return None;
    }
    let id = string_of(base.as_slice());
    // The file name, exactly, then modulo a reverse-DNS prefix on either side:
    // `thunar` ↔ `org.xfce.Thunar.desktop`, `com.example.desk` ↔ `desk.desktop`.
    let icon = find_icon(files, Rule::Stem, id.as_str());
    if icon.is_some() {
        return icon;
    }
    let icon = find_icon(files, Rule::Tail, id.as_str());
    if icon.is_some() {
        return icon;
    }
    // `StartupWMClass`: what an app declares precisely because its app-id and its desktop
    // file name differ.
    let icon = find_icon(files, Rule::Class, id.as_str());
    if icon.is_some() {
        return icon;
    }
    // Heuristic, last: wrapper launchers (`firefox-perso`, `steam-native`) that ship no
    // entry of their own still deserve the base app's icon.
    loop
        invariant
            declared_icon(files@, lowercase(trim(app_id@))) == base_icon(files@, base@),
        decreases base@.len(),
    {
        let i: usize = match position_last(base.as_slice(), '-') {
            Some(i) => i,
            None => {
                return None;
            },
        };
        let head = slice_chars(base.as_slice(), 0, i);
        assert(head@ =~= base@.take(i as int));
        if utf8_len(head.as_slice()) < 3 {
            return None;
        }
        base = head;
        let name = string_of(base.as_slice());
        let icon = find_icon(files, Rule::Tail, name.as_str());
        if icon.is_some() {
            return icon;
        }
    }
}

/// A window with no app-id gets no icon, whatever is installed.
pub proof fn no_app_id_no_icon(files: Seq<DesktopFile>)
    ensures
        declared_icon(files, Seq::empty()) is None,
{
}

/// The file name always wins over a declared window class.
pub proof fn the_file_name_wins(files: Seq<DesktopFile>, id: Seq<char>)
    requires
        id.len() > 0,
        first_icon(files, Rule::Stem, id, 0) is Some,
    ensures
        declared_icon(files, id) == first_icon(files, Rule::Stem, id, 0),
{
}

/// The files an icon name can stand for in a directory, best first.
pub open spec fn names_in(dir: Seq<char>, name: Seq<char>) -> Seq<Seq<char>> {
    seq![
        below(dir, name + ".png"@),
        below(dir, name + ".svg"@),
        below(dir, name + ".svgz"@),
    ]
}

/// The files an icon name can stand for in the first `n` directories, best first.
pub open spec fn names_below(dirs: Seq<Seq<char>>, name: Seq<char>, n: int) -> Seq<Seq<char>>
    decreases n,
{
    if n <= 0 {
        seq![]
    } else {
        names_below(dirs, name, n - 1) + names_in(dirs[n - 1], name)
    }
}

/// The files an icon name can stand for, best first. An absolute path stands for itself; a
/// relative one for nothing, since it would resolve against whatever directory the tool
/// happens to run from.
pub open spec fn candidates(dirs: Seq<Seq<char>>, name: Seq<char>) -> Seq<Seq<char>> {
    let n = trim(name);
    if n.len() == 0 {
        seq![]
    } else if n[0] == '/' {
        seq![n]
    } else if n.contains('/') {
        seq![]
    } else {
        names_below(dirs, n, dirs.len() as int)
    }
}

/// The files an icon name can stand for, best first.
pub fn icon_candidates(dirs: &[String], name: &str) -> (r: Vec<String>)
    ensures
        views(r@) == candidates(views(dirs@), name@),
{
    let all = chars_of(name);
    let n = trim_chars(all.as_slice());
    let mut out: Vec<String> = Vec::new();
    // An empty name would otherwise probe for dotfiles like `<dir>/.png`.
    if n.len() == 0 {
        assert(views(out@) =~= seq![]);
        return out;
    }
    let bare = string_of(n.as_slice());
    if n[0] == '/' {
        out.push(bare);
        assert(views(out@) =~= seq![n@]);
        return out;
    }
    let slash: [char; 1] = ['/'];
    assert(slash@ =~= seq!['/']);
    if position_any(n.as_slice(), &slash).is_some() {
        proof {
            find_any_is_first(n@, slash@);
            let i = find_any(n@, slash@)->0;
            assert(slash@.contains(n@[i]));
            assert(n@[i] == '/');
        }
        assert(views(out@) =~= seq![]);
        return out;
    }
    assert(!n@.contains('/')) by {
        find_any_is_first(n@, slash@);
        assert(slash@[0] == '/');
        assert forall|i: int| 0 <= i < n@.len() implies n@[i] != '/' by {
            assert(!slash@.contains(n@[i]));
        }
    }
    let mut png = bare.clone();
    png.append(".png");
    let mut svg = bare.clone();
    svg.append(".svg");
    let mut svgz = bare;
    svgz.append(".svgz");
    let ghost d = views(dirs@);
    assert(views(out@) =~= names_below(d, n@, 0));
    for i in 0..dirs.len()
        invariant
            d == views(dirs@),
            png@ == n@ + ".png"@,
            svg@ == n@ + ".svg"@,
            svgz@ == n@ + ".svgz"@,
            views(out@) == names_below(d, n@, i as int),
    {
        assert(d[i as int] == dirs@[i as int]@);
        let ghost before = out@;
        let a = join_path(dirs[i].as_str(), png.as_str());
        let b = join_path(dirs[i].as_str(), svg.as_str());
        let c = join_path(dirs[i].as_str(), svgz.as_str());
        out.push(a);
        out.push(b);
        out.push(c);
        assert(views(out@) =~= views(before) + names_in(d[i as int], n@));
    }
    out
}

/// The first of `wanted`, from `k` on, that is one of `files`.
pub open spec fn first_of(wanted: Seq<Seq<char>>, files: Seq<Seq<char>>, k: int) -> Option<
    Seq<char>,
>
    decreases wanted.len() - k,
{
    if k < 0 || k >= wanted.len() {
        None
    } else if files.contains(wanted[k]) {
        Some(wanted[k])
    } else {
        first_of(wanted, files, k + 1)
    }
}

/// Whether `path` is one of `files`.
fn is_file(files: &[String], path: &str) -> (r: bool)
    ensures
        r == views(files@).contains(path@),
{
    for i in 0..files.len()
        invariant
            forall|j: int| 0 <= j < i ==> (#[trigger] files@[j])@ != path@,
    {
        if same(files[i].as_str(), path) {
            assert(views(files@)[i as int] == path@);
            return true;
        }
    }
    assert forall|j: int| 0 <= j < views(files@).len() implies views(files@)[j] != path@ by {
        assert(views(files@)[j] == files@[j]@);
    }
    false
}

/// Find the file backing an icon name (or an absolute path, which `Icon=` allows), among
/// the `files` that exist.
pub fn icon_file_in(dirs: &[String], name: &str, files: &[String]) -> (r: Option<String>)
    ensures
        owned(r) == first_of(candidates(views(dirs@), name@), views(files@), 0),
{
    let wanted = icon_candidates(dirs, name);
    let ghost w = views(wanted@);
    for i in 0..wanted.len()
        invariant
            w == views(wanted@),
            w == candidates(views(dirs@), name@),
            first_of(w, views(files@), 0) == first_of(w, views(files@), i as int),
    {
        assert(w[i as int] == wanted@[i as int]@);
        if is_file(files, wanted[i].as_str()) {
            return Some(wanted[i].clone());
        }
    }
    None
}

/// The icon file an app-id resolves to.
pub open spec fn resolved(
    app_id: Seq<char>,
    dirs: Seq<Seq<char>>,
    entries: Seq<DesktopFile>,
    files: Seq<Seq<char>>,
) -> Option<Seq<char>> {
    let id = trim(app_id);
    let declared = match declared_icon(entries, lowercase(trim(id))) {
        Some(name) => first_of(candidates(dirs, name), files, 0),
        None => None,
    };
    if id.len() == 0 {
        None
    } else if declared is Some {
        declared
    } else {
        first_of(candidates(dirs, id), files, 0)
    }
}

/// Resolve an app-id to an icon file, from the desktop entries there are and the icon
/// `files` that exist. A window with no app-id gets no icon rather than an arbitrary one.
pub fn resolve(app_id: &str, dirs: &[String], entries: &[DesktopFile], files: &[String]) -> (r:
    Option<String>)
    ensures
        owned(r) == resolved(app_id@, views(dirs@), entries@, views(files@)),
{
    let all = chars_of(app_id);
    let id = trim_chars(all.as_slice());
    if id.len() == 0 {
        return None;
    }
    let id = string_of(id.as_slice());
    if let Some(name) = desktop_icon_in(entries, id.as_str()) {
        let path = icon_file_in(dirs, name.as_str(), files);
        if path.is_some() {
            return path;
        }
    }
    // No entry, or one pointing at a missing icon: many apps still install a theme icon
    // named after their app-id.
    icon_file_in(dirs, id.as_str(), files)
}

/// How an icon file is turned into pixels.
#[derive(Clone, Copy, Debug, PartialEq, Eq, Structural)]
pub enum IconKind {
    /// A drawing, rendered at the size asked for.
    Vector,
    /// A picture, scaled down to it.
    Raster,
}

/// How to load an icon file, by its extension.
pub fn load(extension: Option<&str>) -> (r: IconKind)
    ensures
        r == match extension {
            Some(e) => if e@ == "svg"@ || e@ == "svgz"@ {
                IconKind::Vector
            } else {
                IconKind::Raster
            },
            None => IconKind::Raster,
        },
{
    match extension {
        Some(e) => if same(e, "svg") || same(e, "svgz") {
            IconKind::Vector
        } else {
            IconKind::Raster
        },
        None => IconKind::Raster,
    }
}

/// A picture at `size` by `size` pixels, for an icon.
pub fn load_raster(img: CapturedImage, size: u32) -> (r: CapturedImage)
    requires
        img.wf(),
        can_sample(img.width, img.height, size, size),
    ensures
        r.wf(),
        r.width == size,
        r.height == size,
        r.rgba@ == resampled(img.rgba@, img.width, img.height, size, size),
{
    let small = image_thumbnail(img.rgba, img.width, img.height, size, size);
    CapturedImage { width: size, height: size, rgba: small }
}

/// A colour byte that alpha `a` was multiplied into, without it: rounded to the nearest, and
/// at most 255. A transparent pixel keeps what it has.
pub open spec fn unmultiplied(c: u8, a: u8) -> u8 {
    if a == 0 {
        c
    } else {
        let q = (2 * (c * 255) + a) / (2 * a);
        if q > 255 {
            255
        } else {
            q as u8
        }
    }
}

/// A colour byte without the alpha multiplied into it.
fn divide_out(c: u8, a: u8) -> (r: u8)
    ensures
        r == unmultiplied(c, a),
{
    if a == 0 {
        return c;
    }
    let d: u32 = 2 * a as u32;
    let q: u32 = (2 * (c as u32 * 255) + a as u32) / d;
    if q > 255 {
        255
    } else {
        q as u8
    }
}

/// Take the alpha back out of premultiplied RGBA8 pixels. A trailing part of a pixel stays
/// as it is.
pub fn unpremultiply(rgba: &mut Vec<u8>)
    ensures
        final(rgba)@.len() == old(rgba)@.len(),
        forall|k: int|
            0 <= k < old(rgba)@.len() ==> #[trigger] final(rgba)@[k] == if k % 4 == 3 || k / 4
                >= old(rgba)@.len() / 4 {
                old(rgba)@[k]
            } else {
                unmultiplied(old(rgba)@[k], old(rgba)@[k / 4 * 4 + 3])
            },
{
    let ghost before = rgba@;
    let n: usize = rgba.len() / 4;
    let mut i: usize = 0;
    while i < n
        invariant
            i <= n,
            n == before.len() / 4,
            rgba@.len() == before.len(),
            forall|k: int| 4 * i <= k < before.len() ==> rgba@[k] == before[k],
            forall|k: int|
                0 <= k < 4 * i ==> #[trigger] rgba@[k] == if k % 4 == 3 {
                    before[k]
                } else {
                    unmultiplied(before[k], before[k / 4 * 4 + 3])
                },
        decreases n - i,
    {
        let len: usize = rgba.len();
        let p: usize = 4 * i;
        let a: u8 = rgba[p + 3];
        let (r, g, b): (u8, u8, u8) = (
            divide_out(rgba[p], a),
            divide_out(rgba[p + 1], a),
            divide_out(rgba[p + 2], a),
        );
        rgba[p] = r;
        rgba[p + 1] = g;
        rgba[p + 2] = b;
        i = i + 1;
    }
}

/// A path below another ends in what it was told and begins with the other, with one separator
/// between them.
pub proof fn a_path_below_begins_with_the_other(base: &str, rel: &str, r: String)
    requires
        call_ensures(join_path, (base, rel), r),
    ensures
        base@.len() == 0 ==> r@ == rel@,
        base@.len() > 0 && base@.last() == '/' ==> r@ == base@ + rel@,
        base@.len() > 0 && base@.last() != '/' ==> r@.len() == base@.len() + 1 + rel@.len() && r@.take(
            base@.len() as int,
        ) == base@ && r@[base@.len() as int] == '/' && r@.skip((base@.len() + 1) as int) == rel@,
{
    if base@.len() > 0 && base@.last() != '/' {
        assert(r@.take(base@.len() as int) =~= base@);
        assert(r@.skip((base@.len() + 1) as int) =~= rel@);
    }
}

/// The user's own directory comes before the shared ones, and none is empty.
pub proof fn the_users_own_directory_comes_first(
    data_home: Option<&str>,
    home: Option<&str>,
    dirs: &str,
    r: Vec<String>,
)
    requires
        call_ensures(data_dirs, (data_home, home, dirs), r),
    ensures
        data_home matches Some(d) ==> (d@.len() > 0 ==> r@.len() > 0 && r@[0]@ == d@),
        data_home is None ==> (home matches Some(h) ==> r@.len() > 0 && r@[0]@ == below(
            h@,
            ".local/share"@,
        )),
        data_home is None && home is None ==> forall|i: int|
            0 <= i < r@.len() ==> (#[trigger] r@[i])@.len() > 0,
{
    broadcast use vstd::seq_lib::group_filter_ensures;

    let v = views(r@);
    assert(v.len() == r@.len());
    if r@.len() > 0 {
        assert(v[0] == r@[0]@);
    }
    if data_home is None && home is None {
        let shared = if dirs@.len() == 0 {
            "/usr/local/share:/usr/share"@
        } else {
            dirs@
        };
        let kept = split(shared, ':').filter(not_empty());
        assert(v =~= kept);
        assert forall|i: int| 0 <= i < r@.len() implies (#[trigger] r@[i])@.len() > 0 by {
            assert(v[i] == r@[i]@);
            assert(not_empty()(kept[i]));
        }
    }
}

/// A desktop entry is read in its main group only, and of a key that stands twice the first
/// counts.
pub proof fn the_first_key_of_the_main_group_counts(r: Reading, line: Seq<char>)
    ensures
        r.icon is Some ==> r.after(line).icon == r.icon,
        r.wm_class is Some ==> r.after(line).wm_class == r.wm_class,
        !r.in_main_group ==> r.after(line).icon == r.icon && r.after(line).wm_class == r.wm_class,
{
}

/// A key's line sets that key and not the other.
pub proof fn a_key_is_read_from_its_line(
    r: Reading,
    line: Seq<char>,
    key: Seq<char>,
    value: Seq<char>,
)
    requires
        r.in_main_group,
        split_once(trim(line), seq!['=']) == Some((key, value)),
        trim(line)[0] != '[',
    ensures
        r.icon is None && trim_end(key) == "Icon"@ ==> r.after(line).icon == Some(trim(value)),
        trim_end(key) == "Icon"@ ==> r.after(line).wm_class == r.wm_class,
        r.wm_class is None && trim_end(key) == "StartupWMClass"@ && "StartupWMClass"@ != "Icon"@
            ==> r.after(line).wm_class == Some(trim(value)),
        trim_end(key) != "Icon"@ ==> r.after(line).icon == r.icon,
        r.after(line).in_main_group,
{
}

/// An icon that is declared for an application is declared by one of the files, and one is found
/// wherever a file answers to the application by any of its names.
pub proof fn a_declared_icon_is_a_files(files: Seq<DesktopFile>, id: Seq<char>, rule: Rule, k: int)
    requires
        id.len() > 0,
        0 <= k < files.len(),
        rule.answers(files[k], id),
        files[k].icon() is Some,
    ensures
        declared_icon(files, id) matches Some(icon) && exists|i: int|
            0 <= i < files.len() && (#[trigger] files[i]).icon() == Some(icon),
{
    found_icon(files, rule, id, 0);
    found_icon(files, Rule::Stem, id, 0);
    found_icon(files, Rule::Tail, id, 0);
    found_icon(files, Rule::Class, id, 0);
    assert(first_icon(files, rule, id, 0) is Some) by {
        if first_icon(files, rule, id, 0) is None {
            assert(!(rule.answers(files[k], id) && files[k].icon() is Some));
        }
    }
}

proof fn found_icon(files: Seq<DesktopFile>, rule: Rule, id: Seq<char>, k: int)
    requires
        0 <= k,
    ensures
        match first_icon(files, rule, id, k) {
            Some(icon) => exists|i: int|
                k <= i < files.len() && (#[trigger] files[i]).icon() == Some(icon) && rule.answers(
                    files[i],
                    id,
                ),
            None => forall|i: int|
                k <= i < files.len() ==> !(rule.answers(#[trigger] files[i], id) && files[i].icon()
                    is Some),
        },
    decreases files.len() - k,
{
    if k < files.len() {
        if rule.answers(files[k], id) && files[k].icon() is Some {
            assert(files[k].icon() == first_icon(files, rule, id, k));
        } else {
            found_icon(files, rule, id, k + 1);
        }
    }
}

/// The file names come before their last parts, and those before the classes.
pub proof fn names_go_before_classes(files: Seq<DesktopFile>, id: Seq<char>)
    requires
        id.len() > 0,
    ensures
        first_icon(files, Rule::Stem, id, 0) is None && first_icon(files, Rule::Tail, id, 0) is Some
            ==> declared_icon(files, id) == first_icon(files, Rule::Tail, id, 0),
        first_icon(files, Rule::Stem, id, 0) is None && first_icon(files, Rule::Tail, id, 0) is None
            && first_icon(files, Rule::Class, id, 0) is Some ==> declared_icon(files, id)
            == first_icon(files, Rule::Class, id, 0),
{
}

/// An icon's name is looked for directory by directory, a PNG before an SVG and that before a
/// compressed one.
pub proof fn icons_are_looked_for_by_directory(
    dirs: Seq<Seq<char>>,
    name: Seq<char>,
    n: int,
    i: int,
)
    requires
        0 <= i < n <= dirs.len(),
    ensures
        names_below(dirs, name, n).len() == 3 * n,
        names_below(dirs, name, n)[3 * i] == below(dirs[i], name + ".png"@),
        names_below(dirs, name, n)[3 * i + 1] == below(dirs[i], name + ".svg"@),
        names_below(dirs, name, n)[3 * i + 2] == below(dirs[i], name + ".svgz"@),
    decreases n,
{
    if n > 1 {
        icons_are_looked_for_by_directory(
            dirs,
            name,
            n - 1,
            if i < n - 1 {
                i
            } else {
                0
            },
        );
    } else {
        assert(names_below(dirs, name, 0) =~= seq![]);
    }
}

/// What is found is a file that is there, and the first of those that would do.
pub proof fn what_is_found_is_there(
    dirs: &[String],
    name: &str,
    files: &[String],
    r: Option<String>,
)
    requires
        call_ensures(icon_file_in, (dirs, name, files), r),
    ensures
        r matches Some(f) ==> views(files@).contains(f@) && exists|i: int|
            0 <= i < candidates(views(dirs@), name@).len() && #[trigger] candidates(
                views(dirs@),
                name@,
            )[i] == f@ && forall|j: int|
                0 <= j < i ==> !views(files@).contains(
                    #[trigger] candidates(views(dirs@), name@)[j],
                ),
        r is None ==> forall|i: int|
            0 <= i < candidates(views(dirs@), name@).len() ==> !views(files@).contains(
                #[trigger] candidates(views(dirs@), name@)[i],
            ),
{
    first_of_is(candidates(views(dirs@), name@), views(files@), 0);
}

proof fn first_of_is(wanted: Seq<Seq<char>>, files: Seq<Seq<char>>, k: int)
    requires
        0 <= k,
    ensures
        match first_of(wanted, files, k) {
            Some(f) => files.contains(f) && exists|i: int|
                k <= i < wanted.len() && #[trigger] wanted[i] == f && forall|j: int|
                    k <= j < i ==> !files.contains(#[trigger] wanted[j]),
            None => forall|j: int| k <= j < wanted.len() ==> !files.contains(#[trigger] wanted[j]),
        },
    decreases wanted.len() - k,
{
    if k < wanted.len() {
        if files.contains(wanted[k]) {
            assert(wanted[k] == first_of(wanted, files, k)->0);
        } else {
            first_of_is(wanted, files, k + 1);
        }
    }
}

/// Dividing the alpha out leaves the alphas, and the opaque and the transparent pixels, and gives
/// of another the channel that, multiplied in again, comes nearest.
pub proof fn dividing_out_undoes_multiplying_in(rgba: &mut Vec<u8>, p: int, c: int)
    requires
        call_ensures(unpremultiply, (rgba,), ()),
        0 <= p,
        4 * p + 4 <= old(rgba)@.len(),
        0 <= c < 3,
    ensures
        ({
            let (a, x, y) = (
                old(rgba)@[4 * p + 3] as int,
                old(rgba)@[4 * p + c] as int,
                final(rgba)@[4 * p + c] as int,
            );
            &&& final(rgba)@[4 * p + 3] == a
            &&& a == 255 || a == 0 ==> y == x
            &&& 0 < a && x <= a ==> -a <= 2 * (y * a - x * 255) <= a
        }),
{
    let k = 4 * p + c;
    assert(k / 4 == p && k % 4 == c && (4 * p + 3) % 4 == 3);
    let (a, x) = (old(rgba)@[4 * p + 3] as int, old(rgba)@[k] as int);
    let y = final(rgba)@[k] as int;
    assert(y == unmultiplied(x as u8, a as u8));
    if a > 0 && x <= a {
        let n = 2 * (x * 255) + a;
        let q = n / (2 * a);
        assert(2 * a * q <= n < 2 * a * q + 2 * a) by (nonlinear_arith)
            requires
                q == n / (2 * a),
                a > 0,
        ;
        assert(q <= 255) by (nonlinear_arith)
            requires
                2 * a * q <= 2 * (x * 255) + a,
                x <= a,
                a > 0,
        ;
        assert(2 * a * q == 2 * (q * a)) by (nonlinear_arith);
    }
}

/// Where no file answers to an application's name, those that answer to the part before its last
/// hyphen do, if that is not too short to mean it.
pub proof fn a_variant_has_the_icon_of_its_base(files: Seq<DesktopFile>, id: Seq<char>, i: int)
    requires
        find_last(id, '-') == Some(i),
        0 <= i < id.len(),
        byte_len(id.take(i)) >= 3,
        first_icon(files, Rule::Stem, id, 0) is None,
        first_icon(files, Rule::Tail, id, 0) is None,
        first_icon(files, Rule::Class, id, 0) is None,
        first_icon(files, Rule::Tail, id.take(i), 0) is Some,
    ensures
        declared_icon(files, id) == first_icon(files, Rule::Tail, id.take(i), 0),
{
}

/// A vector is known by its extension; everything else is read as pixels.
pub proof fn vectors_are_known_by_their_extension(extension: Option<&str>, r: IconKind)
    requires
        call_ensures(load, (extension,), r),
    ensures
        r == IconKind::Vector <==> (extension matches Some(e) && (e@ == "svg"@ || e@ == "svgz"@)),
{
}

/// Icons are looked for base by base in seven sizes, the one that scales first and then from the
/// largest down, and last of all among the pixmaps.
pub proof fn icons_are_looked_for_from_the_largest_down(bases: Vec<String>, r: Vec<String>, b: int)
    requires
        call_ensures(icon_dirs, (&bases,), r),
        0 <= b < bases@.len(),
    ensures
        r@.len() == 7 * bases@.len() + 1,
        r@[7 * b]@ == below(bases@[b]@, "icons/hicolor/scalable/apps"@),
        r@[7 * b + 1]@ == below(bases@[b]@, "icons/hicolor/512x512/apps"@),
        r@[7 * b + 2]@ == below(bases@[b]@, "icons/hicolor/256x256/apps"@),
        r@[7 * b + 3]@ == below(bases@[b]@, "icons/hicolor/128x128/apps"@),
        r@[7 * b + 4]@ == below(bases@[b]@, "icons/hicolor/64x64/apps"@),
        r@[7 * b + 5]@ == below(bases@[b]@, "icons/hicolor/48x48/apps"@),
        r@[7 * b + 6]@ == below(bases@[b]@, "icons/hicolor/32x32/apps"@),
        r@.last()@ == "/usr/share/pixmaps"@,
{
    let v = views(r@);
    let all = views(bases@);
    let n = bases@.len() as int;
    assert(all[b] == bases@[b]@);
    assert(v.len() == r@.len());
    assert forall|k: int| 0 <= k < r@.len() implies v[k] == (#[trigger] r@[k])@ by {}
    seven_sizes(all, n, b, 0);
    seven_sizes(all, n, b, 1);
    seven_sizes(all, n, b, 2);
    seven_sizes(all, n, b, 3);
    seven_sizes(all, n, b, 4);
    seven_sizes(all, n, b, 5);
    seven_sizes(all, n, b, 6);
}

proof fn seven_sizes(bases: Seq<Seq<char>>, n: int, b: int, k: int)
    requires
        0 <= b < n <= bases.len(),
        0 <= k < 7,
    ensures
        icon_dirs_below(bases, n).len() == 7 * n,
        icon_dirs_below(bases, n)[7 * b + k] == below(bases[b], icon_sizes()[k]),
    decreases n,
{
    if n > 1 {
        seven_sizes(
            bases,
            n - 1,
            if b < n - 1 {
                b
            } else {
                0
            },
            k,
        );
    } else {
        assert(icon_dirs_below(bases, 0) =~= seq![]);
    }
}

} // verus!
