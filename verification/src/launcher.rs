//! The application launcher: desktop entries, their order, and the search.

use crate::command::{command, command_view, shell, shell_view, CommandLine, CommandView};
use crate::navigation::{fits, place, step, stepped};
use crate::paths::{below, extension, file_extension, join_path};
use crate::sorting::{arranged, sort_by_keys, stable_order};
use crate::text::{
    chars_of, concat2, concat3, contains_text, equal_ignoring_case, has_prefix, has_text, join, joined, lines, lowercase,
    owned, same_ignoring_case, same_text, split_lines, split_words, starts_with, strip_prefix, to_lowercase, trim,
    trimmed, view_opt, views, words,
};
use vstd::prelude::*;

verus! {

// ---------------------------------------------------------------------------
// Desktop entries
// ---------------------------------------------------------------------------

/// What a desktop entry says of an application. The icon is as the entry names it.
pub struct DesktopEntry {
    pub name: String,
    pub run: String,
    pub terminal: bool,
    pub icon: Option<String>,
}

/// An application that can be launched. The icon is a file.
pub struct AppEntry {
    pub name: String,
    pub run: String,
    pub terminal: bool,
    pub icon: Option<String>,
}

/// An application by its characters.
pub struct AppView {
    pub name: Seq<char>,
    pub run: Seq<char>,
    pub terminal: bool,
    pub icon: Option<Seq<char>>,
}

impl View for DesktopEntry {
    type V = AppView;

    open spec fn view(&self) -> AppView {
        AppView {
            name: self.name@,
            run: self.run@,
            terminal: self.terminal,
            icon: view_opt(self.icon),
        }
    }
}

impl View for AppEntry {
    type V = AppView;

    open spec fn view(&self) -> AppView {
        AppView {
            name: self.name@,
            run: self.run@,
            terminal: self.terminal,
            icon: view_opt(self.icon),
        }
    }
}

/// Whether a line opens a section.
pub open spec fn is_header(line: Seq<char>) -> bool {
    starts_with(line, "["@)
}

/// Whether what follows `all` belongs to the main section: the last header among
/// them is that of the desktop entry.
pub open spec fn in_main_section(all: Seq<Seq<char>>) -> bool
    decreases all.len(),
{
    if all.len() == 0 {
        false
    } else if is_header(trimmed(all.last())) {
        trimmed(all.last()) == "[Desktop Entry]"@
    } else {
        in_main_section(all.drop_last())
    }
}

/// What the lines of the main section say of `key`, in order. A line that sets the
/// key begins with it.
pub open spec fn values(all: Seq<Seq<char>>, key: Seq<char>) -> Seq<Seq<char>>
    decreases all.len(),
{
    if all.len() == 0 {
        Seq::empty()
    } else {
        let before = values(all.drop_last(), key);
        let line = trimmed(all.last());
        if in_main_section(all.drop_last()) && !is_header(line) && starts_with(line, key) {
            before.push(line.skip(key.len() as int))
        } else {
            before
        }
    }
}

/// The first of `s`, where there is one.
pub open spec fn first_of(s: Seq<Seq<char>>) -> Option<Seq<char>> {
    if s.len() > 0 {
        Some(s.first())
    } else {
        None
    }
}

/// The last of `s`, where there is one.
pub open spec fn last_of(s: Seq<Seq<char>>) -> Option<Seq<char>> {
    if s.len() > 0 {
        Some(s.last())
    } else {
        None
    }
}

/// Whether the last of `s` is the word `true`, in whatever case.
pub open spec fn last_is_true(s: Seq<Seq<char>>) -> bool {
    s.len() > 0 && equal_ignoring_case(s.last(), "true"@)
}

/// The application that the lines of a desktop entry describe: the first name that
/// they give, and the last of everything else. An entry that is hidden, has no name,
/// or runs nothing describes none.
pub open spec fn described(all: Seq<Seq<char>>) -> Option<AppView> {
    let run = match last_of(values(all, "Exec="@)) {
        Some(e) => cleaned(e),
        None => Seq::empty(),
    };
    if last_is_true(values(all, "NoDisplay="@)) || last_is_true(values(all, "Hidden="@)) {
        None
    } else {
        match first_of(values(all, "Name="@)) {
            Some(name) => if run.len() > 0 {
                Some(
                    AppView {
                        name,
                        run,
                        terminal: last_is_true(values(all, "Terminal="@)),
                        icon: last_of(values(all, "Icon="@)),
                    },
                )
            } else {
                None
            },
            None => None,
        }
    }
}

/// Whether `c` is a field code once it follows a percent sign.
pub open spec fn is_field_code(c: char) -> bool {
    c == 'f' || c == 'F' || c == 'u' || c == 'U' || c == 'i' || c == 'c' || c == 'k'
}

/// `s` without the percent signs that a field code follows, and without these.
pub open spec fn without_codes(s: Seq<char>) -> Seq<char>
    decreases s.len(),
{
    if s.len() == 0 {
        Seq::empty()
    } else if s[0] == '%' && s.len() > 1 && is_field_code(s[1]) {
        without_codes(s.skip(2))
    } else {
        seq![s[0]] + without_codes(s.drop_first())
    }
}

/// A command of a desktop entry without its field codes, with one space between
/// its words.
pub open spec fn cleaned(s: Seq<char>) -> Seq<char> {
    joined(words(without_codes(s)), " "@)
}

/// Strips the field codes off a command.
pub fn clean_exec(raw: &str) -> (r: String)
    ensures
        r@ == cleaned(raw@),
{
    let v = chars_of(raw);
    let mut out = String::new();
    let mut i: usize = 0;
    assert(v@.skip(0) =~= v@);
    assert(out@ + without_codes(v@) =~= without_codes(v@));
    while i < v.len()
        invariant
            i <= v@.len(),
            without_codes(v@) == out@ + without_codes(v@.skip(i as int)),
        decreases v@.len() - i,
    {
        let ghost rest = v@.skip(i as int);
        let ghost done = out@;
        let c = v[i];
        if c == '%' && v.len() - i > 1 {
            let code = v[i + 1];
            if code == 'f' || code == 'F' || code == 'u' || code == 'U' || code == 'i' || code
                == 'c' || code == 'k' {
                assert(rest.skip(2) =~= v@.skip(i + 2));
                i += 2;
                continue ;
            }
        }
        out.push(c);
        assert(rest.drop_first() =~= v@.skip(i + 1));
        assert(done + (seq![c] + without_codes(v@.skip(i + 1))) =~= out@ + without_codes(
            v@.skip(i + 1),
        ));
        i += 1;
    }
    assert(v@.skip(v@.len() as int) =~= Seq::<char>::empty());
    assert(out@ + Seq::<char>::empty() =~= out@);
    let parts = split_words(out.as_str());
    join(&parts, " ")
}

/// A command without percent signs loses nothing but superfluous white space.
pub proof fn a_command_without_codes_is_kept(s: Seq<char>)
    requires
        !s.contains('%'),
    ensures
        cleaned(s) == joined(words(s), " "@),
{
    nothing_to_strip(s);
}

proof fn nothing_to_strip(s: Seq<char>)
    requires
        !s.contains('%'),
    ensures
        without_codes(s) == s,
    decreases s.len(),
{
    if s.len() > 0 {
        assert(s.contains(s[0]));
        let tail = s.drop_first();
        assert forall|i: int| 0 <= i < tail.len() implies tail[i] != '%' by {
            assert(s.contains(s[i + 1]));
        }
        nothing_to_strip(tail);
        assert(seq![s[0]] + tail =~= s);
    } else {
        assert(s =~= Seq::<char>::empty());
    }
}

/// Whether a percent sign with a field code behind it stands in `s`.
pub open spec fn has_code(s: Seq<char>) -> bool {
    exists|i: int| 0 <= i < s.len() - 1 && #[trigger] s[i] == '%' && is_field_code(s[i + 1])
}

/// Whether two percent signs stand side by side in `s`.
pub open spec fn has_double_percent(s: Seq<char>) -> bool {
    exists|i: int| 0 <= i < s.len() - 1 && #[trigger] s[i] == '%' && s[i + 1] == '%'
}

proof fn codes_are_stripped(s: Seq<char>)
    requires
        !has_double_percent(s),
    ensures
        !has_code(without_codes(s)),
    decreases s.len(),
{
    if s.len() > 0 {
        let coded = s[0] == '%' && s.len() > 1 && is_field_code(s[1]);
        let k: int = if coded {
            2
        } else {
            1
        };
        let tail = s.skip(k);
        assert(tail =~= if coded { s.skip(2) } else { s.drop_first() });
        assert forall|i: int| 0 <= i < tail.len() - 1 implies !(#[trigger] tail[i] == '%' && tail[i + 1]
            == '%') by {
            assert(s[i + k] == tail[i]);
            assert(s[i + 1 + k] == tail[i + 1]);
        }
        codes_are_stripped(tail);
        if !coded {
            let rest = without_codes(tail);
            let w = without_codes(s);
            assert(w == seq![s[0]] + rest);
            assert forall|i: int| 0 <= i < w.len() - 1 implies !(#[trigger] w[i] == '%' && is_field_code(
                w[i + 1],
            )) by {
                if i == 0 {
                    if s[0] == '%' {
                        assert(s.len() > 1 ==> s[1] != '%');
                        if s.len() > 1 {
                            assert(tail[0] == s[1]);
                            assert(rest == seq![tail[0]] + without_codes(tail.drop_first()));
                        }
                    }
                } else {
                    assert(w[i] == rest[i - 1]);
                    assert(w[i + 1] == rest[i]);
                }
            }
        }
    }
}

proof fn words_keep_codes_out(s: Seq<char>, n: int)
    requires
        !has_code(s),
        0 <= n < words(s).len(),
    ensures
        !has_code(words(s)[n]),
    decreases s.len(),
{
    if crate::text::is_space(s[0]) {
        let tail = s.drop_first();
        assert forall|i: int| 0 <= i < tail.len() - 1 implies !(#[trigger] tail[i] == '%' && is_field_code(
            tail[i + 1],
        )) by {
            assert(s[i + 1] == tail[i]);
        }
        words_keep_codes_out(tail, n);
    } else {
        let k = crate::text::word_len(s) as int;
        crate::text::word_len_bounded(s);
        let word = s.take(k);
        let tail = s.skip(k);
        if n == 0 {
            assert forall|i: int| 0 <= i < word.len() - 1 implies !(#[trigger] word[i] == '%'
                && is_field_code(word[i + 1])) by {
                assert(s[i] == word[i]);
            }
        } else {
            assert forall|i: int| 0 <= i < tail.len() - 1 implies !(#[trigger] tail[i] == '%'
                && is_field_code(tail[i + 1])) by {
                assert(s[i + k] == tail[i]);
            }
            words_keep_codes_out(tail, n - 1);
        }
    }
}

proof fn joining_adds_no_code(parts: Seq<Seq<char>>)
    requires
        forall|i: int| 0 <= i < parts.len() ==> !has_code(#[trigger] parts[i]),
    ensures
        !has_code(joined(parts, " "@)),
    decreases parts.len(),
{
    if parts.len() > 1 {
        reveal_strlit(" ");
        let front = parts.drop_last();
        joining_adds_no_code(front);
        let head = joined(front, " "@);
        let last = parts.last();
        let all = joined(parts, " "@);
        assert(all == head + " "@ + last);
        assert forall|i: int| 0 <= i < all.len() - 1 implies !(#[trigger] all[i] == '%' && is_field_code(
            all[i + 1],
        )) by {
            let n = head.len() as int;
            if i < n - 1 {
                assert(head[i] == all[i]);
            } else if i == n - 1 {
                assert(all[i + 1] == ' ');
            } else if i == n {
                assert(all[i] == ' ');
            } else {
                assert(last[i - n - 1] == all[i]);
            }
        }
    }
}

/// No field code is left in a command, unless two percent signs stood side by side
/// in it.
pub proof fn no_code_is_left(s: Seq<char>)
    requires
        !has_double_percent(s),
    ensures
        !has_code(cleaned(s)),
{
    codes_are_stripped(s);
    let parts = words(without_codes(s));
    assert forall|i: int| 0 <= i < parts.len() implies !has_code(#[trigger] parts[i]) by {
        words_keep_codes_out(without_codes(s), i);
    }
    joining_adds_no_code(parts);
}

/// A description that may be absent, by its characters.
pub open spec fn desktop_opt(e: Option<DesktopEntry>) -> Option<AppView> {
    match e {
        Some(e) => Some(e@),
        None => None,
    }
}

/// Reads a desktop entry, given the contents of its file where it could be read.
pub fn parse_desktop_file(content: Option<&str>) -> (r: Option<DesktopEntry>)
    ensures
        desktop_opt(r) == match content {
            Some(c) => described(lines(c@)),
            None => None,
        },
{
    let content = match content {
        Some(c) => c,
        None => {
            return None;
        },
    };
    let rows = split_lines(content);
    let ghost all = views(rows@);
    let mut in_main = false;
    let mut name: Option<String> = None;
    let mut run: Option<String> = None;
    let mut icon: Option<String> = None;
    let mut terminal = false;
    let mut no_display = false;
    let mut hidden = false;
    let mut i: usize = 0;
    assert(all.take(0) =~= Seq::<Seq<char>>::empty());
    while i < rows.len()
        invariant
            i <= rows@.len(),
            all == views(rows@),
            in_main == in_main_section(all.take(i as int)),
            view_opt(name) == first_of(values(all.take(i as int), "Name="@)),
            view_opt(run) == last_of(values(all.take(i as int), "Exec="@)),
            view_opt(icon) == last_of(values(all.take(i as int), "Icon="@)),
            terminal == last_is_true(values(all.take(i as int), "Terminal="@)),
            no_display == last_is_true(values(all.take(i as int), "NoDisplay="@)),
            hidden == last_is_true(values(all.take(i as int), "Hidden="@)),
        decreases rows@.len() - i,
    {
        let ghost seen = all.take(i as int);
        let ghost now = all.take(i + 1);
        assert(now.drop_last() =~= seen);
        assert(now.last() == rows@[i as int]@);
        let line = trim(rows[i].as_str());
        i += 1;
        if has_prefix(line.as_str(), "[") {
            in_main = same_text(line.as_str(), "[Desktop Entry]");
            continue ;
        }
        if !in_main {
            continue ;
        }
        if let Some(v) = strip_prefix(line.as_str(), "Name=") {
            if name.is_none() {
                name = Some(v);
            }
        }
        if let Some(v) = strip_prefix(line.as_str(), "Exec=") {
            run = Some(v);
        }
        if let Some(v) = strip_prefix(line.as_str(), "Icon=") {
            icon = Some(v);
        }
        if let Some(v) = strip_prefix(line.as_str(), "Terminal=") {
            terminal = same_ignoring_case(v.as_str(), "true");
        }
        if let Some(v) = strip_prefix(line.as_str(), "NoDisplay=") {
            no_display = same_ignoring_case(v.as_str(), "true");
        }
        if let Some(v) = strip_prefix(line.as_str(), "Hidden=") {
            hidden = same_ignoring_case(v.as_str(), "true");
        }
    }
    assert(all.take(all.len() as int) =~= all);
    if no_display || hidden {
        return None;
    }
    match (name, run) {
        (Some(name), Some(run)) => {
            let run = clean_exec(run.as_str());
            if run.as_str().is_empty() {
                return None;
            }
            Some(DesktopEntry { name, run, terminal, icon })
        },
        _ => None,
    }
}

/// Whether a file name is that of a desktop entry.
pub fn is_desktop_file(file_name: &str) -> (r: bool)
    ensures
        r == (extension(file_name@) == Some("desktop"@)),
{
    match file_extension(file_name) {
        Some(e) => same_text(e.as_str(), "desktop"),
        None => false,
    }
}

/// The directories that hold desktop entries: those of the system, then those of
/// the user where the home directory is known.
pub fn app_dirs(env_home: Option<&str>) -> (out: Vec<String>)
    ensures
        views(out@) == match env_home {
            Some(h) => seq![
                "/usr/share/applications"@,
                below(h@, ".local/share/applications"@),
            ],
            None => seq!["/usr/share/applications"@],
        },
{
    let mut out: Vec<String> = Vec::new();
    out.push(owned("/usr/share/applications"));
    if let Some(h) = env_home {
        out.push(join_path(h, ".local/share/applications"));
        assert(views(out@) =~= seq![
            "/usr/share/applications"@,
            below(h@, ".local/share/applications"@),
        ]);
    } else {
        assert(views(out@) =~= seq!["/usr/share/applications"@]);
    }
    out
}

/// The application of a desktop entry, with the file of its icon where there is one.
pub fn with_icon(entry: DesktopEntry, icon: Option<String>) -> (app: AppEntry)
    ensures
        app@ == (AppView { icon: view_opt(icon), ..entry@ }),
{
    AppEntry { name: entry.name, run: entry.run, terminal: entry.terminal, icon }
}

// ---------------------------------------------------------------------------
// Icons
// ---------------------------------------------------------------------------

/// The directories of a theme that are searched, in order.
pub open spec fn icon_sizes() -> Seq<Seq<char>> {
    seq!["scalable"@, "48x48"@, "64x64"@, "128x128"@, "32x32"@, "256x256"@]
}

/// The kinds of image that are searched, in order.
pub open spec fn icon_kinds() -> Seq<Seq<char>> {
    seq!["svg"@, "png"@]
}

/// The file name of an icon.
pub open spec fn icon_file(name: Seq<char>, kind: Seq<char>) -> Seq<char> {
    name + "."@ + kind
}

/// Where the icon `name` may be below the theme `theme`.
pub open spec fn themed_icon(theme: Seq<char>, size: Seq<char>, name: Seq<char>, kind: Seq<char>) -> Seq<
    char,
> {
    below(below(below(theme, size), "apps"@), icon_file(name, kind))
}

/// The files of one theme in which the icon `name` is looked for: every size, and
/// of each size every kind.
pub open spec fn theme_candidates(theme: Seq<char>, name: Seq<char>) -> Seq<Seq<char>> {
    Seq::new(
        12,
        |k: int| themed_icon(theme, icon_sizes()[k / 2], name, icon_kinds()[k % 2]),
    )
}

/// The files of all `themes` in which the icon `name` is looked for.
pub open spec fn themes_candidates(themes: Seq<Seq<char>>, name: Seq<char>) -> Seq<Seq<char>>
    decreases themes.len(),
{
    if themes.len() == 0 {
        Seq::empty()
    } else {
        themes_candidates(themes.drop_last(), name) + theme_candidates(themes.last(), name)
    }
}

/// The files in which an icon is looked for, in order: an absolute path names the
/// only one, a bare name stands for a file of a theme or of the pixmaps.
pub open spec fn candidates(name: Seq<char>, themes: Seq<Seq<char>>) -> Seq<Seq<char>> {
    if starts_with(name, "/"@) {
        seq![name]
    } else {
        themes_candidates(themes, name) + Seq::new(
            2,
            |k: int| below("/usr/share/pixmaps"@, icon_file(name, icon_kinds()[k])),
        )
    }
}

fn push_kinds(out: &mut Vec<String>, dir: &str, name: &str)
    ensures
        views(final(out)@) == views(old(out)@).push(below(dir@, icon_file(name@, "svg"@))).push(
            below(dir@, icon_file(name@, "png"@)),
        ),
{
    let svg = concat3(name, ".", "svg");
    let png = concat3(name, ".", "png");
    out.push(join_path(dir, svg.as_str()));
    out.push(join_path(dir, png.as_str()));
    assert(views(out@) =~= views(old(out)@).push(below(dir@, icon_file(name@, "svg"@))).push(
        below(dir@, icon_file(name@, "png"@)),
    ));
}

fn push_size(out: &mut Vec<String>, theme: &str, size: &str, name: &str)
    ensures
        views(final(out)@) == views(old(out)@).push(
            themed_icon(theme@, size@, name@, "svg"@),
        ).push(themed_icon(theme@, size@, name@, "png"@)),
{
    let sized = join_path(theme, size);
    let dir = join_path(sized.as_str(), "apps");
    push_kinds(out, dir.as_str(), name);
}

proof fn sizes_in_turn(theme: Seq<char>, name: Seq<char>)
    ensures
        theme_candidates(theme, name) == seq![
            themed_icon(theme, "scalable"@, name, "svg"@),
            themed_icon(theme, "scalable"@, name, "png"@),
            themed_icon(theme, "48x48"@, name, "svg"@),
            themed_icon(theme, "48x48"@, name, "png"@),
            themed_icon(theme, "64x64"@, name, "svg"@),
            themed_icon(theme, "64x64"@, name, "png"@),
            themed_icon(theme, "128x128"@, name, "svg"@),
            themed_icon(theme, "128x128"@, name, "png"@),
            themed_icon(theme, "32x32"@, name, "svg"@),
            themed_icon(theme, "32x32"@, name, "png"@),
            themed_icon(theme, "256x256"@, name, "svg"@),
            themed_icon(theme, "256x256"@, name, "png"@),
        ],
{
    let sizes = icon_sizes();
    let kinds = icon_kinds();
    assert(sizes[0] == "scalable"@ && sizes[1] == "48x48"@ && sizes[2] == "64x64"@);
    assert(sizes[3] == "128x128"@ && sizes[4] == "32x32"@ && sizes[5] == "256x256"@);
    assert(kinds[0] == "svg"@ && kinds[1] == "png"@);
}

/// The files in which the icon `name` is looked for, given the directories of the
/// installed themes.
pub fn icon_candidates(name: &str, themes: &Vec<String>) -> (out: Vec<String>)
    ensures
        views(out@) == candidates(name@, views(themes@)),
{
    let mut out: Vec<String> = Vec::new();
    if has_prefix(name, "/") {
        out.push(owned(name));
        assert(views(out@) =~= seq![name@]);
        return out;
    }
    let ghost all = views(themes@);
    let mut i: usize = 0;
    assert(all.take(0) =~= Seq::<Seq<char>>::empty());
    assert(views(out@) =~= Seq::<Seq<char>>::empty());
    while i < themes.len()
        invariant
            i <= themes@.len(),
            all == views(themes@),
            views(out@) == themes_candidates(all.take(i as int), name@),
        decreases themes@.len() - i,
    {
        let theme = themes[i].as_str();
        assert(all.take(i + 1).drop_last() =~= all.take(i as int));
        let ghost before = views(out@);
        push_size(&mut out, theme, "scalable", name);
        push_size(&mut out, theme, "48x48", name);
        push_size(&mut out, theme, "64x64", name);
        push_size(&mut out, theme, "128x128", name);
        push_size(&mut out, theme, "32x32", name);
        push_size(&mut out, theme, "256x256", name);
        proof {
            sizes_in_turn(theme@, name@);
        }
        assert(views(out@) =~= before + theme_candidates(theme@, name@));
        i += 1;
    }
    assert(all.take(all.len() as int) =~= all);
    let ghost before = views(out@);
    push_kinds(&mut out, "/usr/share/pixmaps", name);
    assert(views(out@) =~= before + Seq::new(
        2,
        |k: int| below("/usr/share/pixmaps"@, icon_file(name@, icon_kinds()[k])),
    ));
    out
}

/// The first of `names` that is present.
pub open spec fn first_present(names: Seq<Seq<char>>, present: Seq<bool>) -> Option<Seq<char>>
    decreases names.len(),
{
    if names.len() == 0 || present.len() == 0 {
        None
    } else if present[0] {
        Some(names[0])
    } else {
        first_present(names.drop_first(), present.drop_first())
    }
}

/// The first of `names` of which `present` says, at the same place, that it is
/// there.
pub fn pick_present(names: &Vec<String>, present: &Vec<bool>) -> (r: Option<String>)
    ensures
        view_opt(r) == first_present(views(names@), present@),
{
    let ghost all = views(names@);
    let mut i: usize = 0;
    assert(all.skip(0) =~= all);
    assert(present@.skip(0) =~= present@);
    while i < names.len() && i < present.len()
        invariant
            i <= names@.len(),
            i <= present@.len(),
            all == views(names@),
            first_present(all, present@) == first_present(
                all.skip(i as int),
                present@.skip(i as int),
            ),
        decreases names@.len() - i,
    {
        if present[i] {
            return Some(names[i].clone());
        }
        assert(all.skip(i as int).drop_first() =~= all.skip(i + 1));
        assert(present@.skip(i as int).drop_first() =~= present@.skip(i + 1));
        i += 1;
    }
    None
}

/// The file of the icon `name`: the first of its candidates that is a file.
/// `present` says of each candidate whether it is.
pub fn resolve_icon(name: &str, themes: &Vec<String>, present: &Vec<bool>) -> (r: Option<String>)
    ensures
        view_opt(r) == first_present(candidates(name@, views(themes@)), present@),
{
    let files = icon_candidates(name, themes);
    pick_present(&files, present)
}

// ---------------------------------------------------------------------------
// The list of applications
// ---------------------------------------------------------------------------

/// The applications by their characters.
pub open spec fn app_views(v: Seq<AppEntry>) -> Seq<AppView> {
    Seq::new(v.len(), |i: int| v[i]@)
}

/// The names of the applications in lower case.
pub open spec fn sort_keys(apps: Seq<AppView>) -> Seq<Seq<char>> {
    Seq::new(apps.len(), |i: int| lowercase(apps[i].name))
}

/// `apps` without those that have the name of the one before.
pub open spec fn deduped(apps: Seq<AppView>) -> Seq<AppView>
    decreases apps.len(),
{
    if apps.len() == 0 {
        Seq::empty()
    } else {
        let kept = deduped(apps.drop_last());
        if kept.len() > 0 && kept.last().name == apps.last().name {
            kept
        } else {
            kept.push(apps.last())
        }
    }
}

/// Sorts the applications by name, whatever the case, and drops those with the
/// same name as the one before.
pub fn sort_apps(apps: Vec<AppEntry>) -> (out: Vec<AppEntry>)
    ensures
        exists|p: Seq<int>|
            #[trigger] stable_order(sort_keys(app_views(apps@)), p) && app_views(out@) == deduped(
                arranged(app_views(apps@), p),
            ),
{
    let ghost given = app_views(apps@);
    let mut keys: Vec<String> = Vec::new();
    let mut i: usize = 0;
    while i < apps.len()
        invariant
            i <= apps@.len(),
            keys@.len() == i,
            forall|j: int| 0 <= j < i ==> (#[trigger] keys@[j])@ == lowercase(apps@[j].name@),
        decreases apps@.len() - i,
    {
        keys.push(to_lowercase(apps[i].name.as_str()));
        i += 1;
    }
    assert(views(keys@) =~= sort_keys(given));
    let ghost before = apps@;
    let sorted = sort_by_keys(apps, &keys);
    let ghost p = choose|p: Seq<int>|
        #[trigger] stable_order(views(keys@), p) && sorted@ == arranged(before, p);
    let ghost order = app_views(sorted@);
    assert(order =~= arranged(given, p));
    let mut out: Vec<AppEntry> = Vec::new();
    assert(order.take(0) =~= Seq::<AppView>::empty());
    assert(app_views(out@) =~= Seq::<AppView>::empty());
    for app in it: sorted.into_iter()
        invariant
            order == app_views(it.seq()),
            app_views(out@) == deduped(order.take(it.index())),
    {
        let ghost n = it.index();
        assert(order[n] == app@);
        assert(order.take(n + 1).drop_last() =~= order.take(n));
        let ghost kept = app_views(out@);
        let repeated = if out.len() > 0 {
            assert(kept.last() == out@.last()@);
            same_text(out[out.len() - 1].name.as_str(), app.name.as_str())
        } else {
            false
        };
        if !repeated {
            out.push(app);
            assert(app_views(out@) =~= kept.push(app@));
        }
    }
    assert(order.take(order.len() as int) =~= order);
    out
}

/// A file of a directory that holds desktop entries: its contents, where they can be
/// read, and of each file in which the icon that it names is looked for whether it is
/// there.
pub struct AppFile {
    pub file_name: String,
    pub content: Option<String>,
    pub icon_present: Vec<bool>,
}

/// The file of the icon that an entry names, where there is one.
pub open spec fn found_icon(icon: Option<Seq<char>>, themes: Seq<Seq<char>>, present: Seq<bool>) -> Option<
    Seq<char>,
> {
    match icon {
        Some(name) => first_present(candidates(name, themes), present),
        None => None,
    }
}

/// The application that a file describes: a desktop entry, with the file of its icon.
pub open spec fn app_in(file: AppFile, themes: Seq<Seq<char>>) -> Option<AppView> {
    match view_opt(file.content) {
        Some(content) => match described(lines(content)) {
            Some(entry) => if extension(file.file_name@) == Some("desktop"@) {
                Some(AppView { icon: found_icon(entry.icon, themes, file.icon_present@), ..entry })
            } else {
                None
            },
            None => None,
        },
        None => None,
    }
}

/// The applications that the files of a directory describe, in order.
pub open spec fn apps_in(files: Seq<AppFile>, themes: Seq<Seq<char>>) -> Seq<AppView>
    decreases files.len(),
{
    if files.len() == 0 {
        Seq::empty()
    } else {
        let before = apps_in(files.drop_last(), themes);
        match app_in(files.last(), themes) {
            Some(app) => before.push(app),
            None => before,
        }
    }
}

/// The applications of all directories, those of each after those of the one before.
pub open spec fn apps_in_all(dirs: Seq<Vec<AppFile>>, themes: Seq<Seq<char>>) -> Seq<AppView>
    decreases dirs.len(),
{
    if dirs.len() == 0 {
        Seq::empty()
    } else {
        apps_in_all(dirs.drop_last(), themes) + apps_in(dirs.last()@, themes)
    }
}

/// An application that may be absent, by its characters.
pub open spec fn app_opt(a: Option<AppEntry>) -> Option<AppView> {
    match a {
        Some(a) => Some(a@),
        None => None,
    }
}

fn read_app(file: &AppFile, themes: &Vec<String>) -> (r: Option<AppEntry>)
    ensures
        app_opt(r) == app_in(*file, views(themes@)),
{
    let content = match &file.content {
        Some(c) => c,
        None => {
            return None;
        },
    };
    if !is_desktop_file(file.file_name.as_str()) {
        return None;
    }
    match parse_desktop_file(Some(content.as_str())) {
        Some(entry) => {
            let icon = match &entry.icon {
                Some(name) => resolve_icon(name.as_str(), themes, &file.icon_present),
                None => None,
            };
            Some(with_icon(entry, icon))
        },
        None => None,
    }
}

/// The list of applications, given the files of each directory of `app_dirs`, in
/// order, and the directories of the installed themes: all that the desktop entries
/// among the files describe, sorted by name, whatever the case, without those that have
/// the same name as the one before. A directory that cannot be read has no files.
pub fn scan_apps(dirs: &Vec<Vec<AppFile>>, themes: &Vec<String>) -> (out: Vec<AppEntry>)
    ensures
        exists|p: Seq<int>|
            #[trigger] stable_order(sort_keys(apps_in_all(dirs@, views(themes@))), p) && app_views(out@)
                == deduped(arranged(apps_in_all(dirs@, views(themes@)), p)),
{
    let ghost from = views(themes@);
    let mut apps: Vec<AppEntry> = Vec::new();
    let mut d: usize = 0;
    assert(dirs@.take(0) =~= Seq::<Vec<AppFile>>::empty());
    assert(app_views(apps@) =~= Seq::<AppView>::empty());
    while d < dirs.len()
        invariant
            d <= dirs@.len(),
            from == views(themes@),
            app_views(apps@) == apps_in_all(dirs@.take(d as int), from),
        decreases dirs@.len() - d,
    {
        let files = &dirs[d];
        let ghost before = app_views(apps@);
        let mut i: usize = 0;
        assert(files@.take(0) =~= Seq::<AppFile>::empty());
        assert(before + apps_in(files@.take(0), from) =~= before);
        while i < files.len()
            invariant
                i <= files@.len(),
                from == views(themes@),
                app_views(apps@) == before + apps_in(files@.take(i as int), from),
            decreases files@.len() - i,
        {
            assert(files@.take(i + 1).drop_last() =~= files@.take(i as int));
            assert(files@.take(i + 1).last() == files@[i as int]);
            if let Some(app) = read_app(&files[i], themes) {
                let ghost known = app_views(apps@);
                let ghost found = app@;
                apps.push(app);
                assert(app_views(apps@) =~= known.push(found));
                assert(known.push(found) =~= before + apps_in(files@.take(i as int), from).push(found));
            }
            i += 1;
        }
        assert(files@.take(files@.len() as int) =~= files@);
        assert(dirs@.take(d + 1).drop_last() =~= dirs@.take(d as int));
        assert(dirs@.take(d + 1).last() == *files);
        d += 1;
    }
    assert(dirs@.take(dirs@.len() as int) =~= dirs@);
    sort_apps(apps)
}

/// No name is lost when repeats are dropped.
pub proof fn every_name_is_listed(apps: Seq<AppView>, i: int)
    requires
        0 <= i < apps.len(),
    ensures
        exists|k: int| 0 <= k < deduped(apps).len() && (#[trigger] deduped(apps)[k]).name == apps[i].name,
    decreases apps.len(),
{
    let front = apps.drop_last();
    let kept = deduped(front);
    if i < front.len() {
        every_name_is_listed(front, i);
        let k = choose|k: int| 0 <= k < kept.len() && (#[trigger] kept[k]).name == front[i].name;
        assert(deduped(apps)[k] == kept[k]);
    } else {
        assert(deduped(apps).last().name == apps[i].name);
    }
}

/// No application of the list has the name of the one before it, and each is one of
/// those that were given.
pub proof fn neighbours_differ(apps: Seq<AppView>)
    ensures
        forall|i: int|
            0 <= i < deduped(apps).len() - 1 ==> (#[trigger] deduped(apps)[i]).name != deduped(
                apps,
            )[i + 1].name,
        forall|i: int| 0 <= i < deduped(apps).len() ==> apps.contains(#[trigger] deduped(apps)[i]),
    decreases apps.len(),
{
    if apps.len() > 0 {
        let front = apps.drop_last();
        neighbours_differ(front);
        assert forall|i: int| 0 <= i < deduped(apps).len() implies apps.contains(
            #[trigger] deduped(apps)[i],
        ) by {
            if i < deduped(front).len() {
                assert(front.contains(deduped(front)[i]));
                let j = choose|j: int| 0 <= j < front.len() && front[j] == deduped(front)[i];
                assert(apps[j] == deduped(apps)[i]);
            } else {
                assert(apps[apps.len() - 1] == deduped(apps)[i]);
            }
        }
    }
}

// ---------------------------------------------------------------------------
// The search
// ---------------------------------------------------------------------------

/// Whether an application matches a query that is in lower case: every one matches
/// an empty query, else those whose name contains it.
pub open spec fn matches_query(app: AppView, query: Seq<char>) -> bool {
    query.len() == 0 || contains_text(lowercase(app.name), query)
}

/// The places of the applications that match a query that is in lower case.
pub open spec fn matching(apps: Seq<AppView>, query: Seq<char>) -> Seq<int>
    decreases apps.len(),
{
    if apps.len() == 0 {
        Seq::empty()
    } else {
        let before = matching(apps.drop_last(), query);
        if matches_query(apps.last(), query) {
            before.push(apps.len() - 1)
        } else {
            before
        }
    }
}

/// The numbers of `v` without bounds.
pub open spec fn numbers(v: Seq<usize>) -> Seq<int> {
    Seq::new(v.len(), |i: int| v[i] as int)
}

/// The places of the applications whose name contains `query`, whatever the case.
pub fn visible_indices(apps: &Vec<AppEntry>, query: &str) -> (out: Vec<usize>)
    ensures
        numbers(out@) == matching(app_views(apps@), lowercase(query@)),
{
    let query = to_lowercase(query);
    let ghost all = app_views(apps@);
    let mut out: Vec<usize> = Vec::new();
    let mut i: usize = 0;
    assert(all.take(0) =~= Seq::<AppView>::empty());
    assert(numbers(out@) =~= Seq::<int>::empty());
    while i < apps.len()
        invariant
            i <= apps@.len(),
            all == app_views(apps@),
            numbers(out@) == matching(all.take(i as int), query@),
        decreases apps@.len() - i,
    {
        assert(all.take(i + 1).drop_last() =~= all.take(i as int));
        assert(all.take(i + 1).last() == apps@[i as int]@);
        let name = to_lowercase(apps[i].name.as_str());
        if query.as_str().is_empty() || has_text(name.as_str(), query.as_str()) {
            let ghost before = numbers(out@);
            out.push(i);
            assert(numbers(out@) =~= before.push(i as int));
        }
        i += 1;
    }
    assert(all.take(all.len() as int) =~= all);
    out
}

/// What `matching` lists: just the places of matching applications, from left to
/// right.
pub proof fn matching_lists_matches(apps: Seq<AppView>, query: Seq<char>)
    ensures
        forall|i: int|
            0 <= i < matching(apps, query).len() ==> 0 <= #[trigger] matching(apps, query)[i]
                < apps.len() && matches_query(apps[matching(apps, query)[i]], query),
        forall|i: int, j: int|
            0 <= i < j < matching(apps, query).len() ==> #[trigger] matching(apps, query)[i]
                < #[trigger] matching(apps, query)[j],
        forall|k: int|
            0 <= k < apps.len() && matches_query(#[trigger] apps[k], query) ==> matching(
                apps,
                query,
            ).contains(k),
    decreases apps.len(),
{
    if apps.len() > 0 {
        let front = apps.drop_last();
        matching_lists_matches(front, query);
        assert forall|i: int| 0 <= i < matching(apps, query).len() implies 0
            <= #[trigger] matching(apps, query)[i] < apps.len() && matches_query(
            apps[matching(apps, query)[i]],
            query,
        ) by {
            if i < matching(front, query).len() {
                assert(matching(front, query)[i] == matching(apps, query)[i]);
                assert(front[matching(front, query)[i]] == apps[matching(front, query)[i]]);
            }
        }
        assert forall|i: int, j: int| 0 <= i < j < matching(apps, query).len() implies (
        #[trigger] matching(apps, query)[i]) < #[trigger] matching(apps, query)[j] by {
            assert(matching(front, query)[i] == matching(apps, query)[i]);
            if j < matching(front, query).len() {
                assert(matching(front, query)[j] == matching(apps, query)[j]);
            }
        }
        assert forall|k: int|
            0 <= k < apps.len() && matches_query(#[trigger] apps[k], query) implies matching(
            apps,
            query,
        ).contains(k) by {
            if k < front.len() {
                assert(front[k] == apps[k]);
                assert(matching(front, query).contains(k));
                let i = choose|i: int|
                    0 <= i < matching(front, query).len() && matching(front, query)[i] == k;
                assert(matching(apps, query)[i] == k);
            } else {
                assert(matching(apps, query).last() == k);
            }
        }
    }
}

/// An empty query shows every application.
pub proof fn an_empty_query_matches_all(apps: Seq<AppView>)
    ensures
        matching(apps, Seq::empty()) == Seq::new(apps.len(), |i: int| i),
    decreases apps.len(),
{
    if apps.len() > 0 {
        an_empty_query_matches_all(apps.drop_last());
    }
    assert(matching(apps, Seq::empty()) =~= Seq::new(apps.len(), |i: int| i));
}

/// For each row of the list whether it shows.
pub fn row_flags(apps: &Vec<AppEntry>, query: &str) -> (out: Vec<bool>)
    ensures
        out@ == Seq::new(
            apps@.len(),
            |i: int| matching(app_views(apps@), lowercase(query@)).contains(i),
        ),
{
    let visible = visible_indices(apps, query);
    let ghost shown = numbers(visible@);
    let mut out: Vec<bool> = Vec::new();
    let mut i: usize = 0;
    while i < apps.len()
        invariant
            i <= apps@.len(),
            shown == numbers(visible@),
            out@ == Seq::new(i as nat, |j: int| shown.contains(j)),
        decreases apps@.len() - i,
    {
        let mut found = false;
        let mut k: usize = 0;
        while k < visible.len()
            invariant
                k <= visible@.len(),
                shown == numbers(visible@),
                found == exists|j: int| 0 <= j < k && shown[j] == i,
            decreases visible@.len() - k,
        {
            assert(shown[k as int] == visible@[k as int]);
            if visible[k] == i {
                found = true;
            }
            k += 1;
        }
        let ghost before = out@;
        out.push(found);
        assert(found == shown.contains(i as int));
        assert(out@ =~= Seq::new((i + 1) as nat, |j: int| shown.contains(j)));
        i += 1;
    }
    out
}

/// The row that is selected after the query changed: the first that shows, -1
/// where none does.
pub fn first_visible(visible: &Vec<usize>) -> (r: i32)
    ensures
        r == if visible@.len() > 0 {
            visible@[0] as i32
        } else {
            -1i32
        },
{
    if visible.len() > 0 {
        visible[0] as i32
    } else {
        -1
    }
}

/// The row that is selected when the launcher opens.
pub fn initial_selection(apps: &Vec<AppEntry>) -> (r: i32)
    ensures
        r == if apps@.len() == 0 {
            -1int
        } else {
            0int
        },
{
    if apps.len() == 0 {
        -1
    } else {
        0
    }
}

/// The rows that show, by the 32-bit numbers that the selection knows them by.
pub open spec fn shown_rows(visible: Seq<usize>) -> Seq<int> {
    Seq::new(visible.len(), |i: int| (visible[i] as i32) as int)
}

/// The place of `selected` among the rows that show; the first place where it does
/// not show.
pub fn selected_place(visible: &Vec<usize>, selected: i32) -> (r: usize)
    ensures
        r == place(shown_rows(visible@), selected as int),
        visible@.len() > 0 ==> r < visible@.len(),
{
    let ghost rows = shown_rows(visible@);
    let mut i: usize = 0;
    while i < visible.len()
        invariant
            i <= visible@.len(),
            rows == shown_rows(visible@),
            place(rows, selected as int) == crate::navigation::first_place(
                rows,
                selected as int,
                i as int,
            ),
        decreases visible@.len() - i,
    {
        assert(rows[i as int] == visible@[i as int] as i32);
        if visible[i] as i32 == selected {
            return i;
        }
        i += 1;
    }
    0
}

/// The row that is selected after `delta` steps through the rows that show.
pub open spec fn navigated(visible: Seq<int>, selected: int, delta: int) -> int {
    if visible.len() == 0 {
        selected
    } else {
        visible[stepped(place(visible, selected), delta, visible.len() as int)]
    }
}

/// Moves the selection `delta` rows on among those that show.
pub fn navigate(visible: &Vec<usize>, selected: i32, delta: i32) -> (r: i32)
    requires
        visible@.len() <= i32::MAX,
        visible@.len() > 0 ==> fits(
            place(shown_rows(visible@), selected as int),
            delta as int,
            visible@.len() as int,
        ),
    ensures
        r == navigated(shown_rows(visible@), selected as int, delta as int),
{
    if visible.len() == 0 {
        return selected;
    }
    let pos: usize = selected_place(visible, selected);
    let new_pos: usize = step(pos, delta, visible.len());
    assert(shown_rows(visible@)[new_pos as int] == visible@[new_pos as int] as i32);
    visible[new_pos] as i32
}

/// Moving the selection always ends on a row that shows, where any does.
pub proof fn navigation_stays_visible(visible: Seq<int>, selected: int, delta: int)
    requires
        visible.len() > 0,
    ensures
        visible.contains(navigated(visible, selected, delta)),
{
    let n = visible.len() as int;
    let pos = place(visible, selected);
    vstd::arithmetic::div_mod::lemma_mod_bound(pos + delta, n);
    assert(visible[stepped(pos, delta, n)] == navigated(visible, selected, delta));
}

// ---------------------------------------------------------------------------
// Launching
// ---------------------------------------------------------------------------

/// The terminals that are looked for, in order.
pub open spec fn terminals() -> Seq<Seq<char>> {
    seq!["alacritty"@, "kitty"@, "foot"@, "wezterm"@, "xterm"@]
}

/// The terminals that are looked for, in order.
pub fn terminal_candidates() -> (out: Vec<String>)
    ensures
        views(out@) == terminals(),
{
    let mut out: Vec<String> = Vec::new();
    out.push(owned("alacritty"));
    out.push(owned("kitty"));
    out.push(owned("foot"));
    out.push(owned("wezterm"));
    out.push(owned("xterm"));
    assert(views(out@) =~= terminals());
    out
}

/// The command that tells whether `program` is installed.
pub fn probe_command(program: &str) -> (c: CommandLine)
    ensures
        c@ == shell_view("command -v "@ + program@),
{
    let script = concat2("command -v ", program);
    shell(script.as_str())
}

/// The terminal to use: the first that is installed, as `present` says of each, and
/// `xterm` where none is.
pub fn detect_terminal(present: &Vec<bool>) -> (r: String)
    ensures
        r@ == match first_present(terminals(), present@) {
            Some(t) => t,
            None => "xterm"@,
        },
{
    let names = terminal_candidates();
    match pick_present(&names, present) {
        Some(t) => t,
        None => owned("xterm"),
    }
}

/// The command that launches an application, in `terminal` where it asks for one.
pub open spec fn launch_view(app: AppView, terminal: Seq<char>) -> CommandView {
    if app.terminal {
        command_view(terminal, seq!["-e"@, "sh"@, "-c"@, app.run])
    } else {
        shell_view(app.run)
    }
}

/// The command that launches an application, in `terminal` where it asks for one.
pub fn launch_command(app: &AppEntry, terminal: &str) -> (c: CommandLine)
    ensures
        c@ == launch_view(app@, terminal@),
{
    if app.terminal {
        let c = command(terminal).arg("-e").arg("sh").arg("-c").arg(app.run.as_str());
        assert(c@.args =~= seq!["-e"@, "sh"@, "-c"@, app.run@]);
        c
    } else {
        shell(app.run.as_str())
    }
}

/// A command that may be absent, by its characters.
pub open spec fn command_opt(c: Option<CommandLine>) -> Option<CommandView> {
    match c {
        Some(c) => Some(c@),
        None => None,
    }
}

/// What a click on row `index` launches: nothing where there is no such row. Either
/// way the launcher closes afterwards.
pub fn clicked(apps: &Vec<AppEntry>, index: i32, terminal: &str) -> (r: Option<CommandLine>)
    ensures
        command_opt(r) == if 0 <= index < apps@.len() {
            Some(launch_view(apps@[index as int]@, terminal@))
        } else {
            None
        },
{
    if index >= 0 && (index as usize) < apps.len() {
        Some(launch_command(&apps[index as usize], terminal))
    } else {
        None
    }
}

// ---------------------------------------------------------------------------
// Laws
// ---------------------------------------------------------------------------

/// Whether line `i` stands in the main section: after the header of the desktop entry,
/// with no line between that opens a section, and it opens none itself.
pub open spec fn stands_in_main(all: Seq<Seq<char>>, i: int) -> bool {
    exists|h: int|
        0 <= h < i && trimmed(#[trigger] all[h]) == "[Desktop Entry]"@ && opens_none(all, h + 1, i + 1)
}

/// Whether none of the lines from `from` up to `to` begins with a bracket.
pub open spec fn opens_none(all: Seq<Seq<char>>, from: int, to: int) -> bool {
    forall|j: int|
        from <= j < to ==> !(trimmed(#[trigger] all[j]).len() > 0 && trimmed(all[j])[0] == '[')
}

/// Whether line `i` stands in the main section and begins with `key`.
pub open spec fn sets_key(all: Seq<Seq<char>>, i: int, key: Seq<char>) -> bool {
    0 <= i < all.len() && stands_in_main(all, i) && key.is_prefix_of(trimmed(all[i]))
}

/// Whether line `i` is the last that sets `key`.
pub open spec fn sets_key_last(all: Seq<Seq<char>>, i: int, key: Seq<char>) -> bool {
    sets_key(all, i, key) && forall|j: int| i < j < all.len() ==> !#[trigger] sets_key(all, j, key)
}

/// Whether line `i` is the first that sets `key`.
pub open spec fn sets_key_first(all: Seq<Seq<char>>, i: int, key: Seq<char>) -> bool {
    sets_key(all, i, key) && forall|j: int| 0 <= j < i ==> !#[trigger] sets_key(all, j, key)
}

/// Whether the last line that sets `key` sets it to the word `true`, in whatever case.
pub open spec fn switched_on(all: Seq<Seq<char>>, key: Seq<char>) -> bool {
    exists|i: int|
        #[trigger] sets_key_last(all, i, key) && equal_ignoring_case(
            trimmed(all[i]).skip(key.len() as int),
            "true"@,
        )
}

proof fn header_begins_with_bracket(line: Seq<char>)
    ensures
        is_header(line) == (line.len() > 0 && line[0] == '['),
{
    reveal_strlit("[");
    if line.len() > 0 {
        assert(line.take(1) =~= seq![line[0]]);
        assert("["@ =~= seq!['[']);
        assert(seq![line[0]][0] == line[0]);
    }
}

proof fn the_main_header_opens()
    ensures
        "[Desktop Entry]"@.len() > 0,
        "[Desktop Entry]"@[0] == '[',
{
    reveal_strlit("[Desktop Entry]");
}

proof fn main_section_by_lines(all: Seq<Seq<char>>, n: int)
    requires
        0 <= n <= all.len(),
    ensures
        in_main_section(all.take(n)) == exists|h: int|
            0 <= h < n && trimmed(#[trigger] all[h]) == "[Desktop Entry]"@ && opens_none(all, h + 1, n),
    decreases n,
{
    if n > 0 {
        let now = all.take(n);
        assert(now.drop_last() =~= all.take(n - 1));
        assert(now.last() == all[n - 1]);
        main_section_by_lines(all, n - 1);
        header_begins_with_bracket(trimmed(all[n - 1]));
        the_main_header_opens();
        if is_header(trimmed(all[n - 1])) {
            if trimmed(all[n - 1]) == "[Desktop Entry]"@ {
                assert(opens_none(all, n, n));
            }
        } else {
            if in_main_section(all.take(n - 1)) {
                let h = choose|h: int|
                    0 <= h < n - 1 && trimmed(#[trigger] all[h]) == "[Desktop Entry]"@ && opens_none(
                        all,
                        h + 1,
                        n - 1,
                    );
                assert(opens_none(all, h + 1, n));
            }
            if exists|h: int|
                0 <= h < n && trimmed(#[trigger] all[h]) == "[Desktop Entry]"@ && opens_none(all, h + 1, n) {
                let h = choose|h: int|
                    0 <= h < n && trimmed(#[trigger] all[h]) == "[Desktop Entry]"@ && opens_none(
                        all,
                        h + 1,
                        n,
                    );
                assert(h < n - 1);
                assert(opens_none(all, h + 1, n - 1));
            }
        }
    }
}

proof fn one_more_line(all: Seq<Seq<char>>, n: int, key: Seq<char>)
    requires
        0 <= n < all.len(),
    ensures
        values(all.take(n + 1), key) == if sets_key(all, n, key) {
            values(all.take(n), key).push(trimmed(all[n]).skip(key.len() as int))
        } else {
            values(all.take(n), key)
        },
{
    let now = all.take(n + 1);
    assert(now.drop_last() =~= all.take(n));
    assert(now.last() == all[n]);
    let line = trimmed(all[n]);
    main_section_by_lines(all, n);
    header_begins_with_bracket(line);
    if starts_with(line, key) {
        assert(key =~= line.subrange(0, key.len() as int));
    }
    if key.is_prefix_of(line) {
        assert(line.take(key.len() as int) =~= key);
    }
    if stands_in_main(all, n) {
        let h = choose|h: int|
            0 <= h < n && trimmed(#[trigger] all[h]) == "[Desktop Entry]"@ && opens_none(all, h + 1, n + 1);
        assert(opens_none(all, h + 1, n));
        assert(!(trimmed(all[n]).len() > 0 && trimmed(all[n])[0] == '['));
    }
    if in_main_section(all.take(n)) && !is_header(line) {
        let h = choose|h: int|
            0 <= h < n && trimmed(#[trigger] all[h]) == "[Desktop Entry]"@ && opens_none(all, h + 1, n);
        assert(opens_none(all, h + 1, n + 1));
    }
}

proof fn nothing_follows_the_last(all: Seq<Seq<char>>, i: int, key: Seq<char>, n: int)
    requires
        sets_key_last(all, i, key),
        i < n <= all.len(),
    ensures
        values(all.take(n), key).len() > 0,
        values(all.take(n), key).last() == trimmed(all[i]).skip(key.len() as int),
    decreases n,
{
    one_more_line(all, n - 1, key);
    if n - 1 > i {
        nothing_follows_the_last(all, i, key, n - 1);
    }
}

proof fn nothing_without_a_line(all: Seq<Seq<char>>, key: Seq<char>, n: int)
    requires
        0 <= n <= all.len(),
        forall|j: int| 0 <= j < n ==> !#[trigger] sets_key(all, j, key),
    ensures
        values(all.take(n), key) == Seq::<Seq<char>>::empty(),
    decreases n,
{
    if n > 0 {
        nothing_without_a_line(all, key, n - 1);
        one_more_line(all, n - 1, key);
    }
}

proof fn the_first_is_kept(all: Seq<Seq<char>>, i: int, key: Seq<char>, n: int)
    requires
        sets_key_first(all, i, key),
        i < n <= all.len(),
    ensures
        values(all.take(n), key).len() > 0,
        values(all.take(n), key).first() == trimmed(all[i]).skip(key.len() as int),
    decreases n,
{
    one_more_line(all, n - 1, key);
    if n - 1 > i {
        the_first_is_kept(all, i, key, n - 1);
    } else {
        nothing_without_a_line(all, key, i);
    }
}

proof fn last_setting(all: Seq<Seq<char>>, key: Seq<char>, n: int) -> (i: int)
    requires
        0 <= n <= all.len(),
        exists|j: int| 0 <= j < n && #[trigger] sets_key(all, j, key),
        forall|j: int| n <= j < all.len() ==> !#[trigger] sets_key(all, j, key),
    ensures
        0 <= i < n,
        sets_key_last(all, i, key),
    decreases n,
{
    if sets_key(all, n - 1, key) {
        n - 1
    } else {
        last_setting(all, key, n - 1)
    }
}

proof fn switched_on_by_the_last(all: Seq<Seq<char>>, key: Seq<char>)
    ensures
        last_is_true(values(all, key)) == switched_on(all, key),
{
    assert(all.take(all.len() as int) =~= all);
    let n = all.len() as int;
    if exists|j: int| 0 <= j < n && #[trigger] sets_key(all, j, key) {
        let i = last_setting(all, key, n);
        nothing_follows_the_last(all, i, key, n);
        assert forall|k: int| #[trigger] sets_key_last(all, k, key) implies k == i by {
            if k < i {
                assert(!sets_key(all, i, key));
            } else if i < k {
                assert(!sets_key(all, k, key));
            }
        }
    } else {
        assert forall|k: int| !#[trigger] sets_key_last(all, k, key) by {
            assert(!sets_key(all, k, key) || 0 <= k < n);
        }
        nothing_without_a_line(all, key, n);
    }
}

/// The command of an application is all that follows `Exec=` in the last line of the main
/// section that begins so, without its field codes; its name is all that follows `Name=`
/// in the first such line. Whatever else stands in these values is kept.
pub proof fn an_application_is_read_from_its_lines(
    all: Seq<Seq<char>>,
    n: int,
    name: Seq<char>,
    x: int,
    run: Seq<char>,
)
    requires
        sets_key_first(all, n, "Name="@),
        trimmed(all[n]) == "Name="@ + name,
        sets_key_last(all, x, "Exec="@),
        trimmed(all[x]) == "Exec="@ + run,
    ensures
        described(all) matches Some(app) ==> {
            &&& app.name == name
            &&& words(app.run) == words(without_codes(run))
            &&& !run.contains('%') ==> words(app.run) == words(run)
            &&& app.run == cleaned(run)
            &&& app.terminal == switched_on(all, "Terminal="@)
        },
        described(all) is Some <==> !switched_on(all, "NoDisplay="@) && !switched_on(all, "Hidden="@)
            && words(without_codes(run)).len() > 0,
{
    let len = all.len() as int;
    assert(all.take(len) =~= all);
    the_first_is_kept(all, n, "Name="@, len);
    nothing_follows_the_last(all, x, "Exec="@, len);
    assert(("Name="@ + name).skip("Name="@.len() as int) =~= name);
    assert(("Exec="@ + run).skip("Exec="@.len() as int) =~= run);
    switched_on_by_the_last(all, "Terminal="@);
    switched_on_by_the_last(all, "NoDisplay="@);
    switched_on_by_the_last(all, "Hidden="@);
    a_command_is_its_words(run);
    if !run.contains('%') {
        nothing_to_strip(run);
    }
}

/// Without a line for the name, or one for the command, there is no application.
pub proof fn an_application_needs_a_name_and_a_command(all: Seq<Seq<char>>)
    requires
        (forall|j: int| 0 <= j < all.len() ==> !#[trigger] sets_key(all, j, "Name="@)) || (forall|j: int|
            0 <= j < all.len() ==> !#[trigger] sets_key(all, j, "Exec="@)),
    ensures
        described(all) is None,
{
    let len = all.len() as int;
    assert(all.take(len) =~= all);
    if forall|j: int| 0 <= j < all.len() ==> !#[trigger] sets_key(all, j, "Name="@) {
        nothing_without_a_line(all, "Name="@, len);
    } else {
        nothing_without_a_line(all, "Exec="@, len);
    }
}

/// The icon is all that follows `Icon=` in the last line of the main section that begins
/// so; there is none without such a line.
pub proof fn an_icon_is_read_from_its_line(all: Seq<Seq<char>>, i: int, icon: Seq<char>)
    ensures
        sets_key_last(all, i, "Icon="@) && trimmed(all[i]) == "Icon="@ + icon ==> (described(all) matches Some(
            app,
        ) ==> app.icon == Some(icon)),
        (forall|j: int| 0 <= j < all.len() ==> !#[trigger] sets_key(all, j, "Icon="@)) ==> (described(
            all,
        ) matches Some(app) ==> app.icon is None),
{
    let len = all.len() as int;
    assert(all.take(len) =~= all);
    if sets_key_last(all, i, "Icon="@) && trimmed(all[i]) == "Icon="@ + icon {
        nothing_follows_the_last(all, i, "Icon="@, len);
        assert(("Icon="@ + icon).skip("Icon="@.len() as int) =~= icon);
    }
    if forall|j: int| 0 <= j < all.len() ==> !#[trigger] sets_key(all, j, "Icon="@) {
        nothing_without_a_line(all, "Icon="@, len);
    }
}

/// A cleaned command has the words of the command without its field codes, and one space
/// between them.
pub proof fn a_command_is_its_words(s: Seq<char>)
    ensures
        words(cleaned(s)) == words(without_codes(s)),
        cleaned(s) == joined(words(without_codes(s)), " "@),
        cleaned(s).len() > 0 <==> words(without_codes(s)).len() > 0,
{
    let ws = words(without_codes(s));
    assert forall|i: int| 0 <= i < ws.len() implies crate::text::no_space(#[trigger] ws[i]) && ws[i].len()
        > 0 by {
        crate::text::words_are_words(without_codes(s), i);
    }
    crate::text::joined_words_are_found(ws);
    if ws.len() > 0 && cleaned(s).len() == 0 {
        assert(cleaned(s) =~= Seq::<char>::empty());
        assert(words(Seq::<char>::empty()).len() == 0);
    }
}

/// A field code goes away with its percent sign, and all around it stays.
pub proof fn only_codes_go(a: Seq<char>, c: char, b: Seq<char>)
    requires
        !a.contains('%'),
    ensures
        c == 'f' || c == 'F' || c == 'u' || c == 'U' || c == 'i' || c == 'c' || c == 'k' ==> without_codes(
            a + seq!['%', c] + b,
        ) == a + without_codes(b),
        !(c == 'f' || c == 'F' || c == 'u' || c == 'U' || c == 'i' || c == 'c' || c == 'k')
            ==> without_codes(a + seq!['%', c] + b) == a + seq!['%'] + without_codes(seq![c] + b),
        without_codes(a) == a,
        without_codes(a + seq!['%']) == a + seq!['%'],
    decreases a.len(),
{
    nothing_to_strip(a);
    let s = a + seq!['%', c] + b;
    if a.len() == 0 {
        assert(s[0] == '%' && s[1] == c);
        assert(s.skip(2) =~= b);
        assert(s.drop_first() =~= seq![c] + b);
        assert(a + without_codes(b) =~= without_codes(b));
        assert(a + seq!['%'] =~= seq!['%']);
        let sign = seq!['%'];
        assert(sign.drop_first() =~= Seq::<char>::empty());
        assert(without_codes(sign) =~= sign);
    } else {
        let tail = a.drop_first();
        assert(a.contains(a[0]));
        assert forall|i: int| 0 <= i < tail.len() implies tail[i] != '%' by {
            assert(a.contains(a[i + 1]));
        }
        only_codes_go(tail, c, b);
        assert(s.drop_first() =~= tail + seq!['%', c] + b);
        assert(seq![a[0]] + (tail + without_codes(b)) =~= a + without_codes(b));
        assert(seq![a[0]] + (tail + seq!['%'] + without_codes(seq![c] + b)) =~= a + seq!['%'] + without_codes(
            seq![c] + b,
        ));
        let t = a + seq!['%'];
        assert(t.drop_first() =~= tail + seq!['%']);
        assert(seq![a[0]] + (tail + seq!['%']) =~= t);
    }
}

/// The file of an icon is the first candidate that is present; where none is, there is
/// none.
pub proof fn the_first_present_is_taken(names: Seq<Seq<char>>, present: Seq<bool>, k: int)
    requires
        0 <= k <= names.len(),
        k <= present.len(),
        forall|j: int| 0 <= j < k ==> !#[trigger] present[j],
    ensures
        k < names.len() && k < present.len() && present[k] ==> first_present(names, present) == Some(names[k]),
        k == names.len() || k == present.len() ==> first_present(names, present) is None,
    decreases k,
{
    if k > 0 {
        assert(!present[0]);
        the_first_present_is_taken(names.drop_first(), present.drop_first(), k - 1);
    }
}

/// Where an icon is looked for: an absolute path at itself alone; any other name in each
/// theme in turn, there in each size, as a drawing and as an image; last among the
/// pixmaps.
pub proof fn an_icon_is_looked_for_everywhere(
    name: Seq<char>,
    themes: Seq<Seq<char>>,
    t: int,
    s: int,
    k: int,
)
    requires
        0 <= t < themes.len(),
        0 <= s < 6,
        0 <= k < 2,
    ensures
        name.len() > 0 && name[0] == '/' ==> candidates(name, themes) == seq![name],
        !(name.len() > 0 && name[0] == '/') ==> {
            let file = name + "."@ + seq!["svg"@, "png"@][k];
            let sizes = seq!["scalable"@, "48x48"@, "64x64"@, "128x128"@, "32x32"@, "256x256"@];
            &&& candidates(name, themes).len() == 12 * themes.len() + 2
            &&& candidates(name, themes)[12 * t + 2 * s + k] == below(
                below(below(themes[t], sizes[s]), "apps"@),
                file,
            )
            &&& candidates(name, themes)[12 * themes.len() + k] == below("/usr/share/pixmaps"@, file)
        },
{
    reveal_strlit("/");
    assert("/"@ =~= seq!['/']);
    if name.len() > 0 {
        assert(name.take(1) =~= seq![name[0]]);
        assert(seq![name[0]][0] == name[0]);
        assert(seq!['/'][0] == '/');
    }
    themes_in_turn(name, themes, t, 2 * s + k);
}

proof fn themes_in_turn(name: Seq<char>, themes: Seq<Seq<char>>, t: int, j: int)
    requires
        0 <= j < 12,
    ensures
        themes_candidates(themes, name).len() == 12 * themes.len(),
        0 <= t < themes.len() ==> themes_candidates(themes, name)[12 * t + j] == theme_candidates(
            themes[t],
            name,
        )[j],
    decreases themes.len(),
{
    if themes.len() > 0 {
        themes_in_turn(name, themes.drop_last(), t, j);
    }
}

/// The applications of a directory are those of its files, one after the other: none is
/// lost, and none is added.
pub proof fn applications_come_from_the_files(a: Seq<AppFile>, b: Seq<AppFile>, themes: Seq<Seq<char>>)
    ensures
        apps_in(a + b, themes) == apps_in(a, themes) + apps_in(b, themes),
        b.len() == 1 ==> apps_in(b, themes) == (match app_in(b[0], themes) {
            Some(app) => seq![app],
            None => Seq::empty(),
        }),
    decreases b.len(),
{
    if b.len() == 0 {
        assert(a + b =~= a);
        assert(apps_in(a, themes) + apps_in(b, themes) =~= apps_in(a, themes));
    } else {
        assert((a + b).drop_last() =~= a + b.drop_last());
        applications_come_from_the_files(a, b.drop_last(), themes);
        assert(apps_in(a + b, themes) =~= apps_in(a, themes) + apps_in(b, themes));
        if b.len() == 1 {
            assert(apps_in(b.drop_last(), themes) =~= Seq::<AppView>::empty());
            assert(apps_in(b, themes) =~= (match app_in(b[0], themes) {
                Some(app) => seq![app],
                None => Seq::empty(),
            }));
        }
    }
}

/// A desktop entry gives the application that its lines describe, with the first of its
/// icon's candidates that is present for an icon; no other file gives one.
pub proof fn a_desktop_entry_gives_its_application(
    file: AppFile,
    content: Seq<char>,
    stem: Seq<char>,
    themes: Seq<Seq<char>>,
    app: AppView,
)
    requires
        view_opt(file.content) == Some(content),
        stem.len() > 0,
        file.file_name@ == stem + ".desktop"@,
        described(lines(content)) == Some(app),
    ensures
        app_in(file, themes) matches Some(found) && found.name == app.name && found.run == app.run
            && found.terminal == app.terminal && found.icon == (match app.icon {
            Some(icon) => first_present(candidates(icon, themes), file.icon_present@),
            None => None,
        }),
{
    reveal_strlit(".desktop");
    reveal_strlit("desktop");
    assert(".desktop"@ =~= seq!['.'] + "desktop"@);
    assert(stem + ".desktop"@ =~= stem + seq!['.'] + "desktop"@);
    assert(!"desktop"@.contains('.')) by {
        let d = "desktop"@;
        assert forall|i: int| 0 <= i < d.len() implies d[i] != '.' by {
            assert(i == 0 || i == 1 || i == 2 || i == 3 || i == 4 || i == 5 || i == 6);
        }
    }
    crate::paths::the_extension_follows_the_last_dot(stem, "desktop"@);
}

/// The list is that of each directory after that of the one before.
pub proof fn directories_come_in_turn(dirs: Seq<Vec<AppFile>>, next: Vec<AppFile>, themes: Seq<Seq<char>>)
    ensures
        apps_in_all(dirs.push(next), themes) == apps_in_all(dirs, themes) + apps_in(next@, themes),
        apps_in_all(Seq::<Vec<AppFile>>::empty(), themes) == Seq::<AppView>::empty(),
{
    assert(dirs.push(next).drop_last() =~= dirs);
}

/// Of neighbours with the same name the first stays, and all others stay.
pub proof fn the_first_of_a_name_stays(apps: Seq<AppView>, next: AppView)
    ensures
        deduped(apps.push(next)) == if apps.len() > 0 && apps.last().name == next.name {
            deduped(apps)
        } else {
            deduped(apps).push(next)
        },
        deduped(Seq::<AppView>::empty()) == Seq::<AppView>::empty(),
{
    assert(apps.push(next).drop_last() =~= apps);
    last_name_stays(apps);
}

proof fn last_name_stays(apps: Seq<AppView>)
    ensures
        apps.len() > 0 ==> deduped(apps).len() > 0 && deduped(apps).last().name == apps.last().name,
{
}

/// Whether `p` stands in `s`, with anything before it and behind it.
pub open spec fn stands_within(s: Seq<char>, p: Seq<char>) -> bool {
    exists|a: Seq<char>, b: Seq<char>| s == #[trigger] (a + p + b)
}

/// An application is found by any part of its name in lower case, wherever it stands, and
/// by nothing else.
pub proof fn any_part_of_a_name_finds_it(apps: Seq<AppView>, query: Seq<char>, k: int)
    ensures
        matching(apps, query).contains(k) <==> 0 <= k < apps.len() && stands_within(
            lowercase(apps[k].name),
            query,
        ),
{
    matching_lists_matches(apps, query);
    if 0 <= k < apps.len() {
        let name = lowercase(apps[k].name);
        crate::text::a_part_is_found_anywhere(name, query);
        if query.len() == 0 {
            assert(query =~= Seq::<char>::empty());
            assert(name =~= Seq::<char>::empty() + query + name);
        }
        if matching(apps, query).contains(k) {
            let i = choose|i: int| 0 <= i < matching(apps, query).len() && matching(apps, query)[i] == k;
            assert(matches_query(apps[matching(apps, query)[i]], query));
        }
    } else if matching(apps, query).contains(k) {
        let i = choose|i: int| 0 <= i < matching(apps, query).len() && matching(apps, query)[i] == k;
        assert(0 <= matching(apps, query)[i] < apps.len());
    }
}

/// A step down selects the next row that shows, a step up the one before, and both go
/// round at the ends.
pub proof fn a_step_selects_the_neighbour(visible: Seq<int>, k: int)
    requires
        0 <= k < visible.len(),
        forall|j: int| 0 <= j < k ==> #[trigger] visible[j] != visible[k],
    ensures
        navigated(visible, visible[k], 1) == visible[if k + 1 < visible.len() {
            k + 1
        } else {
            0
        }],
        navigated(visible, visible[k], -1) == visible[if k > 0 {
            k - 1
        } else {
            visible.len() - 1
        }],
{
    crate::navigation::the_first_place_counts(visible, visible[k], k, 0);
    crate::navigation::a_step_goes_to_the_neighbour(k, visible.len() as int);
}

/// The command of an application goes to the shell as it is, in the terminal where the
/// application asks for one.
pub proof fn a_command_is_launched_as_it_is(app: AppView, terminal: Seq<char>)
    ensures
        launch_view(app, terminal).args.last() == app.run,
        launch_view(app, terminal).program == if app.terminal {
            terminal
        } else {
            "sh"@
        },
{
}

/// The applications are sorted by their names in lower case.
pub proof fn applications_are_sorted_by_name(apps: Seq<AppView>, p: Seq<int>, i: int, j: int)
    requires
        stable_order(sort_keys(apps), p),
        0 <= i < j < p.len(),
    ensures
        arranged(apps, p).len() == apps.len(),
        !crate::sorting::before(lowercase(arranged(apps, p)[j].name), lowercase(arranged(apps, p)[i].name)),
{
    assert(crate::sorting::goes_first(sort_keys(apps), p[i], p[j]));
    crate::sorting::before_is_strict(lowercase(apps[p[i]].name), lowercase(apps[p[j]].name));
}

} // verus!
