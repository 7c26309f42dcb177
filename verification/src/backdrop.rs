//! The backdrop: a plain background on every output, shown while no wallpaper is
//! set.

use crate::models::{filled, nonempty};
use crate::outputs::Monitors;
use crate::paths::str_opt;
use crate::text::view_opt;
use vstd::prelude::*;

verus! {

/// How often the wallpaper is looked for, in milliseconds.
pub const POLL_INTERVAL_MS: u64 = 2000;

/// How long to wait between two attempts to size the outputs, in milliseconds.
pub const RESIZE_RETRY_INTERVAL_MS: u64 = 500;

/// How many attempts to size the outputs there are at most.
pub const RESIZE_MAX_ATTEMPTS: u32 = 6;

/// The look of the backdrop: a dark fill, two accents in a corner and an emblem in
/// the opposite one. Its root has no size of its own, so that it takes on that of the
/// surface.
pub const SOURCE: &'static str = r#"
export component Backdrop inherits Window {
    background: transparent;

    in property <bool> has_wallpaper: false;

    Rectangle {
        visible: !root.has_wallpaper;
        width: 100%;
        height: 100%;
        background: #0d0d0d;
        clip: true;

        Rectangle {
            x: parent.width * 0.62;
            y: -parent.height * 0.15;
            width: parent.width * 0.55;
            height: parent.height * 0.75;
            background: #14260a;
        }

        Rectangle {
            x: parent.width * 0.8;
            y: -parent.height * 0.1;
            width: parent.width * 0.32;
            height: parent.height * 0.6;
            background: #1f3319;
        }

        Image {
            x: 48px;
            y: parent.height - 48px - 130px;
            width: 130px;
            height: 130px;
            source: @image-url("/usr/share/helium-d77/d77-logo.svg");
            colorize: #76b900;
            opacity: 0.25;
        }
    }
}
"#;

// ---------------------------------------------------------------------------
// Whether there is a wallpaper
// ---------------------------------------------------------------------------

/// The path that has to exist for there to be a wallpaper, given the contents of the
/// file that keeps its path, where that could be read.
pub fn wallpaper_file(contents: Option<&str>) -> (r: Option<String>)
    ensures
        view_opt(r) == filled(str_opt(contents)),
{
    nonempty(contents)
}

/// Whether there is a wallpaper: its path is kept, and still exists.
pub fn has_wallpaper(contents: Option<&str>, exists_on_disk: bool) -> (r: bool)
    ensures
        r == (filled(str_opt(contents)) is Some && exists_on_disk),
{
    match wallpaper_file(contents) {
        Some(_) => exists_on_disk,
        None => false,
    }
}

/// Takes in whether there is a wallpaper now, and tells what to set on the outputs:
/// nothing while it stays as it was.
pub fn poll(last: &mut bool, now: bool) -> (r: Option<bool>)
    ensures
        *final(last) == now,
        r == (if now != *old(last) {
            Some(now)
        } else {
            None
        }),
{
    if now != *last {
        *last = now;
        Some(now)
    } else {
        None
    }
}

// ---------------------------------------------------------------------------
// The sizes of the outputs
// ---------------------------------------------------------------------------

/// Whom to ask for the sizes of the monitors.
pub enum MonitorSource {
    Hyprland,
    Sway,
    Niri,
    Nobody,
}

/// Whom to ask for the sizes of the monitors, given which compositors have set their
/// environment variables.
pub fn monitor_source(hyprland: bool, sway: bool, niri: bool) -> (r: MonitorSource)
    ensures
        r == (if hyprland {
            MonitorSource::Hyprland
        } else if sway {
            MonitorSource::Sway
        } else if niri {
            MonitorSource::Niri
        } else {
            MonitorSource::Nobody
        }),
{
    if hyprland {
        MonitorSource::Hyprland
    } else if sway {
        MonitorSource::Sway
    } else if niri {
        MonitorSource::Niri
    } else {
        MonitorSource::Nobody
    }
}

/// The size of an output, where its name is known and a monitor bears it.
pub open spec fn output_size(
    monitors: Map<Seq<char>, (u32, u32)>,
    name: Option<Seq<char>>,
) -> Option<(u32, u32)> {
    match name {
        Some(n) => if monitors.dom().contains(n) {
            Some(monitors[n])
        } else {
            None
        },
        None => None,
    }
}

/// The names of outputs by their characters.
pub open spec fn name_views(names: Seq<Option<String>>) -> Seq<Option<Seq<char>>> {
    Seq::new(names.len(), |i: int| view_opt(names[i]))
}

/// The sizes of the outputs.
pub open spec fn output_sizes(
    monitors: Map<Seq<char>, (u32, u32)>,
    names: Seq<Option<Seq<char>>>,
) -> Seq<Option<(u32, u32)>> {
    Seq::new(names.len(), |i: int| output_size(monitors, names[i]))
}

/// Whether every output has found its size, and some monitor was reported at all.
pub open spec fn all_matched(
    monitors: Map<Seq<char>, (u32, u32)>,
    names: Seq<Option<Seq<char>>>,
) -> bool {
    &&& monitors != Map::<Seq<char>, (u32, u32)>::empty()
    &&& forall|i: int| 0 <= i < names.len() ==> output_size(monitors, #[trigger] names[i]) is Some
}

/// Whether an attempt is followed by another.
pub open spec fn attempt_again(matched: bool, attempts: nat) -> bool {
    !matched && attempts < RESIZE_MAX_ATTEMPTS
}

/// The attempts to size the outputs, which may not be known at once.
pub struct Resizing {
    /// How many attempts there were.
    pub attempts: u32,
}

/// What an attempt asks for: a size for each output that has found its own, and
/// whether there is another attempt.
pub struct Attempt {
    pub sizes: Vec<Option<(u32, u32)>>,
    pub again: bool,
}

impl Resizing {
    /// Whether there may be another attempt.
    pub open spec fn well_formed(self) -> bool {
        self.attempts < RESIZE_MAX_ATTEMPTS
    }

    /// Before the first attempt.
    pub fn start() -> (r: Resizing)
        ensures
            r.well_formed(),
            r.attempts == 0,
    {
        Resizing { attempts: 0 }
    }

    /// Makes an attempt: `names` are those of the outputs, where they are known yet.
    /// Another follows unless every output has found its size or there were enough.
    pub fn attempt(&mut self, monitors: &Monitors, names: &Vec<Option<String>>) -> (r: Attempt)
        requires
            old(self).well_formed(),
        ensures
            final(self).attempts == old(self).attempts + 1,
            r.sizes@ == output_sizes(monitors@, name_views(names@)),
            r.again == attempt_again(
                all_matched(monitors@, name_views(names@)),
                final(self).attempts as nat,
            ),
            r.again ==> final(self).well_formed(),
    {
        self.attempts = self.attempts + 1;
        let mut matched = !monitors.is_empty();
        let mut sizes: Vec<Option<(u32, u32)>> = Vec::new();
        let ghost views = name_views(names@);
        let ghost all = output_sizes(monitors@, views);
        let mut i: usize = 0;
        while i < names.len()
            invariant
                i <= names@.len(),
                views == name_views(names@),
                all == output_sizes(monitors@, views),
                sizes@ == all.take(i as int),
                matched == (monitors@ != Map::<Seq<char>, (u32, u32)>::empty() && forall|k: int|
                    0 <= k < i ==> output_size(monitors@, #[trigger] views[k]) is Some),
            decreases names@.len() - i,
        {
            let size = match &names[i] {
                Some(name) => monitors.get(name.as_str()),
                None => None,
            };
            assert(size == output_size(monitors@, views[i as int]));
            if size.is_none() {
                matched = false;
            }
            sizes.push(size);
            assert(sizes@ =~= all.take(i + 1));
            i += 1;
        }
        assert(all.take(all.len() as int) =~= all);
        Attempt { sizes, again: !matched && self.attempts < RESIZE_MAX_ATTEMPTS }
    }
}

/// How many attempts there are in all, after `done` of them, where `matched` tells of
/// each whether every output found its size.
pub open spec fn attempts_made(matched: spec_fn(nat) -> bool, done: nat) -> nat
    decreases RESIZE_MAX_ATTEMPTS - done,
{
    if done < RESIZE_MAX_ATTEMPTS && attempt_again(matched(done + 1), done + 1) {
        attempts_made(matched, done + 1)
    } else {
        done + 1
    }
}

/// The attempts end: with the first that matches every output, and with the last
/// that is allowed at the latest.
pub proof fn the_attempts_end(matched: spec_fn(nat) -> bool, done: nat)
    requires
        done < RESIZE_MAX_ATTEMPTS,
    ensures
        ({
            let n = attempts_made(matched, done);
            &&& done < n <= RESIZE_MAX_ATTEMPTS
            &&& matched(n) || n == RESIZE_MAX_ATTEMPTS
            &&& forall|k: nat| done < k < n ==> !#[trigger] matched(k)
        }),
    decreases RESIZE_MAX_ATTEMPTS - done,
{
    if attempt_again(matched(done + 1), done + 1) {
        the_attempts_end(matched, done + 1);
    }
}

/// Each output takes on the size of the monitor that bears its name, and of no other; the
/// search is over where every one has.
pub proof fn an_output_has_its_monitors_size(
    monitors: Map<Seq<char>, (u32, u32)>,
    names: Seq<Option<Seq<char>>>,
    i: int,
    size: (u32, u32),
)
    requires
        0 <= i < names.len(),
    ensures
        output_sizes(monitors, names).len() == names.len(),
        output_sizes(monitors, names)[i] == Some(size) <==> (names[i] matches Some(name)
            && monitors.contains_pair(name, size)),
        all_matched(monitors, names) <==> forall|k: int|
            0 <= k < names.len() ==> (#[trigger] names[k] matches Some(name) && monitors.dom().contains(name)),
{
    if forall|k: int|
        0 <= k < names.len() ==> (#[trigger] names[k] matches Some(name) && monitors.dom().contains(name)) {
        assert(names[i] is Some && monitors.dom().contains(names[i]->0));
        assert forall|k: int| 0 <= k < names.len() implies output_size(monitors, #[trigger] names[k]) is Some by {}
    }
    if all_matched(monitors, names) {
        assert forall|k: int| 0 <= k < names.len() implies (#[trigger] names[k] matches Some(name)
            && monitors.dom().contains(name)) by {
            assert(output_size(monitors, names[k]) is Some);
        }
    }
}

} // verus!
