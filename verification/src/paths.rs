//! Paths to files, as text.

use crate::text::{concat2, concat3, chars_of, has_prefix, owned, starts_with, string_of};
use vstd::prelude::*;

verus! {

/// `part` below `base`. An absolute `part` takes the place of `base`; otherwise
/// one slash stands between the two, unless `base` is empty or ends in one.
pub open spec fn below(base: Seq<char>, part: Seq<char>) -> Seq<char> {
    if starts_with(part, "/"@) {
        part
    } else if base.len() == 0 || base.last() == '/' {
        base + part
    } else {
        base + "/"@ + part
    }
}

/// `part` below `base`.
pub fn join_path(base: &str, part: &str) -> (r: String)
    ensures
        r@ == below(base@, part@),
{
    if has_prefix(part, "/") {
        return owned(part);
    }
    let v = chars_of(base);
    if v.len() == 0 || v[v.len() - 1] == '/' {
        concat2(base, part)
    } else {
        concat3(base, "/", part)
    }
}

/// The home directory: `home` where that is set, else that of the superuser.
pub open spec fn home(home: Option<Seq<char>>) -> Seq<char> {
    match home {
        Some(h) => h,
        None => "/root"@,
    }
}

/// A borrowed text that may be absent, by its characters.
pub open spec fn str_opt(s: Option<&str>) -> Option<Seq<char>> {
    match s {
        Some(t) => Some(t@),
        None => None,
    }
}

/// The home directory, given the environment variable `HOME`.
pub fn home_dir(env_home: Option<&str>) -> (r: String)
    ensures
        r@ == home(str_opt(env_home)),
{
    match env_home {
        Some(h) => owned(h),
        None => owned("/root"),
    }
}

/// Where the dot before the extension of a file name stands: the last dot that is
/// not the first character. A name without one has no extension, nor has `..`.
pub open spec fn extension_dot(name: Seq<char>) -> Option<int> {
    if name == ".."@ {
        None
    } else {
        last_dot(name, name.len() as int)
    }
}

/// The last dot of `name` before `end` that is not the first character.
pub open spec fn last_dot(name: Seq<char>, end: int) -> Option<int>
    decreases end,
{
    if end <= 1 {
        None
    } else if name[end - 1] == '.' {
        Some(end - 1)
    } else {
        last_dot(name, end - 1)
    }
}

/// The extension of a file name: what follows its last dot.
pub open spec fn extension(name: Seq<char>) -> Option<Seq<char>> {
    match extension_dot(name) {
        Some(i) => Some(name.skip(i + 1)),
        None => None,
    }
}

/// The extension of the file name `name`.
pub fn file_extension(name: &str) -> (r: Option<String>)
    ensures
        crate::text::view_opt(r) == extension(name@),
{
    let v = chars_of(name);
    if crate::text::same_text(name, "..") {
        return None;
    }
    let mut end: usize = v.len();
    while end > 1
        invariant
            end <= v@.len(),
            v@ == name@,
            name@ != ".."@,
            extension_dot(name@) == last_dot(name@, end as int),
        decreases end,
    {
        if v[end - 1] == '.' {
            let r = string_of(&v, end, v.len());
            assert(r@ =~= name@.skip(end as int));
            return Some(r);
        }
        end -= 1;
    }
    None
}

// ---------------------------------------------------------------------------
// Laws
// ---------------------------------------------------------------------------

/// The extension is what follows the last dot, whatever stands before it.
pub proof fn the_extension_follows_the_last_dot(stem: Seq<char>, ext: Seq<char>)
    requires
        stem.len() > 0,
        !ext.contains('.'),
        !(stem == seq!['.'] && ext.len() == 0),
    ensures
        extension(stem + seq!['.'] + ext) == Some(ext),
{
    let name = stem + seq!['.'] + ext;
    reveal_strlit("..");
    if name == ".."@ {
        assert(name.len() == 2);
        assert(stem[0] == name[0]);
        assert(stem =~= seq!['.']);
    }
    assert(name.skip((stem.len() + 1) as int) =~= ext);
    dot_before(name, stem.len() as int, name.len() as int, ext);
}

proof fn dot_before(name: Seq<char>, at: int, end: int, ext: Seq<char>)
    requires
        0 < at < end <= name.len(),
        name[at] == '.',
        !ext.contains('.'),
        name.skip(at + 1) == ext,
    ensures
        last_dot(name, end) == Some(at),
    decreases end,
{
    if end - 1 > at {
        assert(name[end - 1] == ext[end - 1 - at - 1]);
        assert(ext.contains(ext[end - 1 - at - 1]));
        dot_before(name, at, end - 1, ext);
    }
}

/// A name without a dot, but for one at its beginning, has no extension.
pub proof fn no_dot_no_extension(name: Seq<char>)
    requires
        forall|i: int| 0 < i < name.len() ==> name[i] != '.',
    ensures
        extension(name) is None,
{
    no_dot(name, name.len() as int);
}

proof fn no_dot(name: Seq<char>, end: int)
    requires
        forall|i: int| 0 < i < name.len() ==> name[i] != '.',
        end <= name.len(),
    ensures
        last_dot(name, end) is None,
    decreases end,
{
    if end > 1 {
        no_dot(name, end - 1);
    }
}

/// A relative part stands below its base, both of them whole, with one slash between
/// them; an absolute one stands by itself.
pub proof fn a_part_stands_below_its_base(base: Seq<char>, part: Seq<char>)
    ensures
        part.len() > 0 && part[0] == '/' ==> below(base, part) == part,
        (part.len() == 0 || part[0] != '/') && base.len() > 0 && base.last() != '/' ==> below(base, part)
            == base + seq!['/'] + part,
        (part.len() == 0 || part[0] != '/') && base.len() > 0 && base.last() == '/' ==> below(base, part)
            == base + part,
{
    reveal_strlit("/");
    assert("/"@ =~= seq!['/']);
    if part.len() > 0 {
        assert(part.subrange(0, 1) =~= seq![part[0]]);
        assert(seq![part[0]][0] == part[0]);
    }
}

} // verus!
