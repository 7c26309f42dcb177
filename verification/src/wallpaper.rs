//! The wallpaper picker: which images there are, and how one is applied.

use crate::command::{command, command_view, CommandLine, CommandView};
use crate::launcher::probe_command;
use crate::models::{filled, nonempty};
use crate::paths::{below, extension, file_extension, home, home_dir, join_path, str_opt};
use crate::sorting::{arranged, sort_by_keys, stable_order};
use crate::text::{concat2, lowercase, owned, same_text, to_lowercase, view_opt, views};
use vstd::prelude::*;

verus! {

/// An image that can be applied.
pub struct WallpaperEntry {
    pub name: String,
    pub path: String,
}

/// An image by its characters.
pub struct WallpaperView {
    pub name: Seq<char>,
    pub path: Seq<char>,
}

impl View for WallpaperEntry {
    type V = WallpaperView;

    open spec fn view(&self) -> WallpaperView {
        WallpaperView { name: self.name@, path: self.path@ }
    }
}

/// The images by their characters.
pub open spec fn entry_views(v: Seq<WallpaperEntry>) -> Seq<WallpaperView> {
    Seq::new(v.len(), |i: int| v[i]@)
}

// ---------------------------------------------------------------------------
// Files
// ---------------------------------------------------------------------------

/// The directory that holds the images: the one that the user names, else
/// `Wallpaper` in the home directory.
pub open spec fn image_dir(named: Option<Seq<char>>, env_home: Option<Seq<char>>) -> Seq<char> {
    match named {
        Some(d) => d,
        None => below(home(env_home), "Wallpaper"@),
    }
}

/// The directory that holds the images, given the environment variables
/// `HELIUM_WALLPAPER_DIR` and `HOME`.
pub fn wallpaper_dir(named: Option<&str>, env_home: Option<&str>) -> (r: String)
    ensures
        r@ == image_dir(str_opt(named), str_opt(env_home)),
{
    match named {
        Some(d) => owned(d),
        None => {
            let h = home_dir(env_home);
            join_path(h.as_str(), "Wallpaper")
        },
    }
}

/// The file that keeps the path of the wallpaper that was applied last.
pub fn state_file_path(env_home: Option<&str>) -> (r: String)
    ensures
        r@ == below(home(str_opt(env_home)), ".cache/helium/wallpaper/current"@),
{
    let h = home_dir(env_home);
    join_path(h.as_str(), ".cache/helium/wallpaper/current")
}

/// The wallpaper that was applied last, given the contents of the file that keeps
/// it where it could be read.
pub fn read_saved_wallpaper(contents: Option<&str>) -> (r: Option<String>)
    ensures
        view_opt(r) == filled(str_opt(contents)),
{
    nonempty(contents)
}

/// A path that is kept is read back as it is, unless white space stands around it.
pub proof fn a_kept_path_reads_back(path: Seq<char>)
    requires
        path.len() > 0,
        !crate::text::is_space(path.first()),
        !crate::text::is_space(path.last()),
    ensures
        filled(Some(path)) == Some(path),
{
}

/// An entry of a directory. Name and path are absent where they are not valid text.
pub struct DirEntry {
    pub is_file: bool,
    pub name: Option<String>,
    pub path: Option<String>,
}

/// The extensions of images, in lower case.
pub open spec fn image_extensions() -> Seq<Seq<char>> {
    seq!["png"@, "jpg"@, "jpeg"@, "webp"@, "bmp"@]
}

/// Whether a file name is that of an image.
pub open spec fn is_image_name(name: Seq<char>) -> bool {
    match extension(name) {
        Some(e) => image_extensions().contains(lowercase(e)),
        None => false,
    }
}

/// Whether a file name is that of an image.
pub fn has_image_name(name: &str) -> (r: bool)
    ensures
        r == is_image_name(name@),
{
    match file_extension(name) {
        Some(e) => {
            let e = to_lowercase(e.as_str());
            let e = e.as_str();
            let r = same_text(e, "png") || same_text(e, "jpg") || same_text(e, "jpeg")
                || same_text(e, "webp") || same_text(e, "bmp");
            proof {
                let all = image_extensions();
                assert(all[0] == "png"@ && all[1] == "jpg"@ && all[2] == "jpeg"@ && all[3]
                    == "webp"@ && all[4] == "bmp"@);
            }
            r
        },
        None => false,
    }
}

/// The image that an entry of a directory is, where it is one.
pub open spec fn image_of(entry: DirEntry) -> Option<WallpaperView> {
    match (entry.name, entry.path) {
        (Some(name), Some(path)) => if entry.is_file && is_image_name(name@) {
            Some(WallpaperView { name: name@, path: path@ })
        } else {
            None
        },
        _ => None,
    }
}

/// The images among the entries of a directory.
pub open spec fn images_of(entries: Seq<DirEntry>) -> Seq<WallpaperView>
    decreases entries.len(),
{
    if entries.len() == 0 {
        Seq::empty()
    } else {
        let before = images_of(entries.drop_last());
        match image_of(entries.last()) {
            Some(w) => before.push(w),
            None => before,
        }
    }
}

/// The names of the images in lower case.
pub open spec fn sort_keys(images: Seq<WallpaperView>) -> Seq<Seq<char>> {
    Seq::new(images.len(), |i: int| lowercase(images[i].name))
}

/// The images among the entries of a directory, sorted by name, whatever the case.
pub fn scan_wallpapers(entries: &Vec<DirEntry>) -> (out: Vec<WallpaperEntry>)
    ensures
        exists|p: Seq<int>|
            #[trigger] stable_order(sort_keys(images_of(entries@)), p) && entry_views(out@)
                == arranged(images_of(entries@), p),
{
    let mut found: Vec<WallpaperEntry> = Vec::new();
    let mut keys: Vec<String> = Vec::new();
    let mut i: usize = 0;
    assert(entries@.take(0) =~= Seq::<DirEntry>::empty());
    assert(entry_views(found@) =~= Seq::<WallpaperView>::empty());
    assert(views(keys@) =~= sort_keys(Seq::<WallpaperView>::empty()));
    while i < entries.len()
        invariant
            i <= entries@.len(),
            entry_views(found@) == images_of(entries@.take(i as int)),
            views(keys@) == sort_keys(images_of(entries@.take(i as int))),
        decreases entries@.len() - i,
    {
        assert(entries@.take(i + 1).drop_last() =~= entries@.take(i as int));
        assert(entries@.take(i + 1).last() == entries@[i as int]);
        let ghost images = entry_views(found@);
        if let (Some(name), Some(path)) = (&entries[i].name, &entries[i].path) {
            if entries[i].is_file && has_image_name(name.as_str()) {
                let key = to_lowercase(name.as_str());
                let ghost known = views(keys@);
                keys.push(key);
                found.push(WallpaperEntry { name: name.clone(), path: path.clone() });
                let ghost image = WallpaperView { name: name@, path: path@ };
                assert(entry_views(found@) =~= images.push(image));
                assert(views(keys@) =~= known.push(lowercase(name@)));
                assert(sort_keys(images.push(image)) =~= sort_keys(images).push(lowercase(name@)));
            }
        }
        i += 1;
    }
    assert(entries@.take(entries@.len() as int) =~= entries@);
    let ghost images = entry_views(found@);
    let ghost before = found@;
    assert(views(keys@).len() == keys@.len() && images.len() == found@.len());
    let out = sort_by_keys(found, &keys);
    proof {
        let p = choose|p: Seq<int>|
            #[trigger] stable_order(views(keys@), p) && out@ == arranged(before, p);
        assert(entry_views(out@) =~= arranged(images, p));
    }
    out
}

/// Where the first image with the path `path` stands from `from` on; -1 where there
/// is none.
pub open spec fn image_place(images: Seq<WallpaperView>, path: Seq<char>, from: int) -> int
    decreases images.len() - from,
{
    if from < 0 || from >= images.len() {
        -1
    } else if images[from].path == path {
        from
    } else {
        image_place(images, path, from + 1)
    }
}

/// The place of the image that was applied last; -1 where there is none.
pub fn initial_index(images: &Vec<WallpaperEntry>, saved: Option<&str>) -> (r: i32)
    ensures
        r == match saved {
            Some(path) => image_place(entry_views(images@), path@, 0) as i32,
            None => -1i32,
        },
{
    match saved {
        Some(path) => {
            let ghost all = entry_views(images@);
            let mut i: usize = 0;
            while i < images.len()
                invariant
                    i <= images@.len(),
                    all == entry_views(images@),
                    saved == Some(path),
                    image_place(all, path@, 0) == image_place(all, path@, i as int),
                decreases images@.len() - i,
            {
                assert(all[i as int] == images@[i as int]@);
                if same_text(images[i].path.as_str(), path) {
                    return i as i32;
                }
                i += 1;
            }
            -1
        },
        None => -1,
    }
}

/// The image that a click on cell `index` applies; nothing where there is no such
/// cell.
pub fn clicked(images: &Vec<WallpaperEntry>, index: i32) -> (r: Option<String>)
    ensures
        view_opt(r) == if 0 <= index < images@.len() {
            Some(images@[index as int]@.path)
        } else {
            None
        },
{
    if index >= 0 && (index as usize) < images.len() {
        Some(images[index as usize].path.clone())
    } else {
        None
    }
}

/// Whether the picker was run to apply the wallpaper that was applied last, without
/// a window.
pub fn is_startup(arg: Option<&str>) -> (r: bool)
    ensures
        r == (str_opt(arg) == Some("--startup"@)),
{
    match arg {
        Some(a) => same_text(a, "--startup"),
        None => false,
    }
}

// ---------------------------------------------------------------------------
// Applying a wallpaper
// ---------------------------------------------------------------------------

/// The compositors that wallpapers are applied through in different ways.
#[derive(Clone, Copy, PartialEq, Eq, Structural, Debug)]
pub enum Compositor {
    Hyprland,
    Sway,
    Generic,
}

/// The compositor that runs: Hyprland where its variable is set, else Sway where
/// that is, else any other.
pub fn detect_compositor(hyprland: bool, sway: bool) -> (c: Compositor)
    ensures
        c == if hyprland {
            Compositor::Hyprland
        } else if sway {
            Compositor::Sway
        } else {
            Compositor::Generic
        },
{
    if hyprland {
        Compositor::Hyprland
    } else if sway {
        Compositor::Sway
    } else {
        Compositor::Generic
    }
}

/// Something to be done on the way to a wallpaper. All but the last two report
/// whether they succeeded.
pub enum Step {
    /// Run a program and wait for it.
    Run(CommandLine),
    /// Run a program without its output and wait for it.
    Probe(CommandLine),
    /// Start a program and leave it running.
    Start(CommandLine),
    /// Do nothing for so many milliseconds.
    Sleep(u64),
    /// Keep the path of the wallpaper.
    Persist(String),
    /// Keep no path any more.
    Forget,
}

/// A step by its characters.
pub enum StepView {
    Run(CommandView),
    Probe(CommandView),
    Start(CommandView),
    Sleep(u64),
    Persist(Seq<char>),
    Forget,
}

impl View for Step {
    type V = StepView;

    open spec fn view(&self) -> StepView {
        match *self {
            Step::Run(c) => StepView::Run(c@),
            Step::Probe(c) => StepView::Probe(c@),
            Step::Start(c) => StepView::Start(c@),
            Step::Sleep(ms) => StepView::Sleep(ms),
            Step::Persist(p) => StepView::Persist(p@),
            Step::Forget => StepView::Forget,
        }
    }
}

/// A step that may be absent, by its characters.
pub open spec fn step_opt(s: Option<Step>) -> Option<StepView> {
    match s {
        Some(s) => Some(s@),
        None => None,
    }
}

/// Where the application of a wallpaper stands.
#[derive(Clone, Copy, PartialEq, Eq, Structural, Debug)]
pub enum Phase {
    /// Wait before the next attempt at Hyprland's wallpaper daemon.
    Pause { attempt: u32 },
    /// Ask Hyprland's wallpaper daemon for the wallpaper.
    Try { attempt: u32 },
    /// Have Hyprland's wallpaper daemon load the image.
    Preload { attempt: u32 },
    /// Ask Hyprland's wallpaper daemon a last time.
    LastTry,
    /// Ask Sway.
    Sway,
    ProbeSwww,
    Swww,
    ProbeSwaybg,
    KillSwaybg,
    Swaybg,
    ProbeFeh,
    Feh,
    /// The wallpaper is applied; keep its path.
    Persist,
    Done,
}

/// How many attempts are made before the last one: several at login, when the
/// wallpaper daemon may not be up yet.
pub open spec fn attempts(at_startup: bool) -> u32 {
    if at_startup {
        10
    } else {
        1
    }
}

/// Whether a phase is one of those that occur: no attempt is counted beyond the
/// last.
pub open spec fn in_order(phase: Phase, at_startup: bool) -> bool {
    match phase {
        Phase::Pause { attempt } => 1 <= attempt < attempts(at_startup),
        Phase::Try { attempt } => attempt < attempts(at_startup),
        Phase::Preload { attempt } => attempt < attempts(at_startup),
        _ => true,
    }
}

/// Where the application of a wallpaper begins.
pub open spec fn first_phase(compositor: Compositor) -> Phase {
    match compositor {
        Compositor::Hyprland => Phase::Try { attempt: 0 },
        Compositor::Sway => Phase::Sway,
        Compositor::Generic => Phase::ProbeSwww,
    }
}

/// Where the application goes on after a step that did or did not succeed.
pub open spec fn next_phase(phase: Phase, ok: bool, at_startup: bool) -> Phase {
    let applied = if ok {
        Phase::Persist
    } else {
        Phase::Done
    };
    match phase {
        Phase::Pause { attempt } => Phase::Try { attempt },
        Phase::Try { attempt } => if ok {
            Phase::Persist
        } else {
            Phase::Preload { attempt }
        },
        Phase::Preload { attempt } => if attempt + 1 < attempts(at_startup) {
            Phase::Pause { attempt: (attempt + 1) as u32 }
        } else {
            Phase::LastTry
        },
        Phase::LastTry => applied,
        Phase::Sway => applied,
        Phase::ProbeSwww => if ok {
            Phase::Swww
        } else {
            Phase::ProbeSwaybg
        },
        Phase::Swww => applied,
        Phase::ProbeSwaybg => if ok {
            Phase::KillSwaybg
        } else {
            Phase::ProbeFeh
        },
        Phase::KillSwaybg => Phase::Swaybg,
        Phase::Swaybg => applied,
        Phase::ProbeFeh => if ok {
            Phase::Feh
        } else {
            Phase::Done
        },
        Phase::Feh => applied,
        Phase::Persist => Phase::Done,
        Phase::Done => Phase::Done,
    }
}

/// The command line that tells whether `program` is installed.
pub open spec fn probe_view(program: Seq<char>) -> CommandView {
    crate::command::shell_view("command -v "@ + program)
}

/// What is to be done in a phase.
pub open spec fn phase_step(phase: Phase, path: Seq<char>) -> Option<StepView> {
    let ask_hyprland = StepView::Run(
        command_view("hyprctl"@, seq!["hyprpaper"@, "wallpaper"@, ","@ + path]),
    );
    match phase {
        Phase::Pause { attempt } => Some(StepView::Sleep(200)),
        Phase::Try { attempt } => Some(ask_hyprland),
        Phase::Preload { attempt } => Some(
            StepView::Run(command_view("hyprctl"@, seq!["hyprpaper"@, "preload"@, path])),
        ),
        Phase::LastTry => Some(ask_hyprland),
        Phase::Sway => Some(
            StepView::Run(command_view("swaymsg"@, seq!["output"@, "*"@, "bg"@, path, "fill"@])),
        ),
        Phase::ProbeSwww => Some(StepView::Probe(probe_view("swww"@))),
        Phase::Swww => Some(StepView::Run(command_view("swww"@, seq!["img"@, path]))),
        Phase::ProbeSwaybg => Some(StepView::Probe(probe_view("swaybg"@))),
        Phase::KillSwaybg => Some(StepView::Run(command_view("pkill"@, seq!["swaybg"@]))),
        Phase::Swaybg => Some(
            StepView::Start(command_view("swaybg"@, seq!["-i"@, path, "-m"@, "fill"@])),
        ),
        Phase::ProbeFeh => Some(StepView::Probe(probe_view("feh"@))),
        Phase::Feh => Some(StepView::Run(command_view("feh"@, seq!["--bg-fill"@, path]))),
        Phase::Persist => Some(StepView::Persist(path)),
        Phase::Done => None,
    }
}

fn args1(program: &str, a: &str) -> (c: CommandLine)
    ensures
        c@ == command_view(program@, seq![a@]),
{
    let c = command(program).arg(a);
    assert(c@.args =~= seq![a@]);
    c
}

fn args2(program: &str, a: &str, b: &str) -> (c: CommandLine)
    ensures
        c@ == command_view(program@, seq![a@, b@]),
{
    let c = command(program).arg(a).arg(b);
    assert(c@.args =~= seq![a@, b@]);
    c
}

fn args3(program: &str, a: &str, b: &str, d: &str) -> (c: CommandLine)
    ensures
        c@ == command_view(program@, seq![a@, b@, d@]),
{
    let c = command(program).arg(a).arg(b).arg(d);
    assert(c@.args =~= seq![a@, b@, d@]);
    c
}

fn args4(program: &str, a: &str, b: &str, d: &str, e: &str) -> (c: CommandLine)
    ensures
        c@ == command_view(program@, seq![a@, b@, d@, e@]),
{
    let c = command(program).arg(a).arg(b).arg(d).arg(e);
    assert(c@.args =~= seq![a@, b@, d@, e@]);
    c
}

/// The application of a wallpaper in progress.
pub struct Applying {
    pub path: String,
    pub at_startup: bool,
    pub phase: Phase,
}

impl Applying {
    /// The attempts are counted as they should be.
    pub open spec fn well_formed(self) -> bool {
        in_order(self.phase, self.at_startup)
    }

    /// Begins to apply the image `path`. `at_startup` tells that the session is just
    /// starting.
    pub fn start(path: &str, compositor: Compositor, at_startup: bool) -> (a: Applying)
        ensures
            a.path@ == path@,
            a.at_startup == at_startup,
            a.phase == first_phase(compositor),
            a.well_formed(),
    {
        let phase = match compositor {
            Compositor::Hyprland => Phase::Try { attempt: 0 },
            Compositor::Sway => Phase::Sway,
            Compositor::Generic => Phase::ProbeSwww,
        };
        Applying { path: owned(path), at_startup, phase }
    }

    /// What is to be done next; nothing where all is done.
    pub fn next(&self) -> (s: Option<Step>)
        ensures
            step_opt(s) == phase_step(self.phase, self.path@),
    {
        let path = self.path.as_str();
        match self.phase {
            Phase::Pause { attempt: _ } => Some(Step::Sleep(200)),
            Phase::Try { attempt: _ } => {
                let arg = concat2(",", path);
                Some(Step::Run(args3("hyprctl", "hyprpaper", "wallpaper", arg.as_str())))
            },
            Phase::Preload { attempt: _ } => Some(
                Step::Run(args3("hyprctl", "hyprpaper", "preload", path)),
            ),
            Phase::LastTry => {
                let arg = concat2(",", path);
                Some(Step::Run(args3("hyprctl", "hyprpaper", "wallpaper", arg.as_str())))
            },
            Phase::Sway => {
                let c = args4("swaymsg", "output", "*", "bg", path).arg("fill");
                assert(c@.args =~= seq!["output"@, "*"@, "bg"@, path@, "fill"@]);
                Some(Step::Run(c))
            },
            Phase::ProbeSwww => Some(Step::Probe(probe_command("swww"))),
            Phase::Swww => Some(Step::Run(args2("swww", "img", path))),
            Phase::ProbeSwaybg => Some(Step::Probe(probe_command("swaybg"))),
            Phase::KillSwaybg => Some(Step::Run(args1("pkill", "swaybg"))),
            Phase::Swaybg => Some(Step::Start(args4("swaybg", "-i", path, "-m", "fill"))),
            Phase::ProbeFeh => Some(Step::Probe(probe_command("feh"))),
            Phase::Feh => Some(Step::Run(args2("feh", "--bg-fill", path))),
            Phase::Persist => Some(Step::Persist(self.path.clone())),
            Phase::Done => None,
        }
    }

    /// Takes in whether the step that was next succeeded.
    pub fn report(&mut self, ok: bool)
        requires
            old(self).well_formed(),
        ensures
            final(self).well_formed(),
            final(self).path == old(self).path,
            final(self).at_startup == old(self).at_startup,
            final(self).phase == next_phase(old(self).phase, ok, old(self).at_startup),
    {
        let applied = if ok {
            Phase::Persist
        } else {
            Phase::Done
        };
        let limit: u32 = if self.at_startup {
            10
        } else {
            1
        };
        self.phase = match self.phase {
            Phase::Pause { attempt } => Phase::Try { attempt },
            Phase::Try { attempt } => if ok {
                Phase::Persist
            } else {
                Phase::Preload { attempt }
            },
            Phase::Preload { attempt } => if attempt + 1 < limit {
                Phase::Pause { attempt: attempt + 1 }
            } else {
                Phase::LastTry
            },
            Phase::LastTry => applied,
            Phase::Sway => applied,
            Phase::ProbeSwww => if ok {
                Phase::Swww
            } else {
                Phase::ProbeSwaybg
            },
            Phase::Swww => applied,
            Phase::ProbeSwaybg => if ok {
                Phase::KillSwaybg
            } else {
                Phase::ProbeFeh
            },
            Phase::KillSwaybg => Phase::Swaybg,
            Phase::Swaybg => applied,
            Phase::ProbeFeh => if ok {
                Phase::Feh
            } else {
                Phase::Done
            },
            Phase::Feh => applied,
            Phase::Persist => Phase::Done,
            Phase::Done => Phase::Done,
        };
    }
}

/// Whether the wallpaper shows once the step of a phase has succeeded.
pub open spec fn applies(phase: Phase) -> bool {
    match phase {
        Phase::Try { .. } | Phase::LastTry | Phase::Sway | Phase::Swww | Phase::Swaybg
        | Phase::Feh => true,
        _ => false,
    }
}

/// The phase after `n` steps, of which `replies` says whether they succeeded.
pub open spec fn phase_after(
    compositor: Compositor,
    at_startup: bool,
    replies: spec_fn(nat) -> bool,
    n: nat,
) -> Phase
    decreases n,
{
    if n == 0 {
        first_phase(compositor)
    } else {
        let before = (n - 1) as nat;
        next_phase(
            phase_after(compositor, at_startup, replies, before),
            replies(before),
            at_startup,
        )
    }
}

/// A path is kept only right after a step that applied the wallpaper succeeded, and
/// always then.
pub proof fn only_an_applied_wallpaper_is_kept(
    compositor: Compositor,
    at_startup: bool,
    replies: spec_fn(nat) -> bool,
    n: nat,
)
    ensures
        phase_after(compositor, at_startup, replies, n + 1) == Phase::Persist <==> (applies(
            phase_after(compositor, at_startup, replies, n),
        ) && replies(n)),
        phase_after(compositor, at_startup, replies, 0) != Phase::Persist,
{
}

/// How many steps are left at most.
spec fn steps_left(phase: Phase, at_startup: bool) -> int {
    let limit = attempts(at_startup);
    match phase {
        Phase::Pause { attempt } => 5 + 3 * (limit - 1 - attempt),
        Phase::Try { attempt } => 4 + 3 * (limit - 1 - attempt),
        Phase::Preload { attempt } => 3 + 3 * (limit - 1 - attempt),
        Phase::LastTry | Phase::Sway | Phase::Swww | Phase::Swaybg | Phase::Feh => 2,
        Phase::ProbeFeh | Phase::KillSwaybg => 3,
        Phase::ProbeSwaybg => 4,
        Phase::ProbeSwww => 5,
        Phase::Persist => 1,
        Phase::Done => 0,
    }
}

proof fn steps_run_out(
    compositor: Compositor,
    at_startup: bool,
    replies: spec_fn(nat) -> bool,
    n: nat,
)
    ensures
        in_order(phase_after(compositor, at_startup, replies, n), at_startup),
        steps_left(phase_after(compositor, at_startup, replies, n), at_startup) <= 0 || steps_left(
            phase_after(compositor, at_startup, replies, n),
            at_startup,
        ) + n <= steps_left(first_phase(compositor), at_startup),
    decreases n,
{
    if n > 0 {
        steps_run_out(compositor, at_startup, replies, (n - 1) as nat);
    }
}

/// The application of a wallpaper ends, whatever the commands do: after at most 31
/// steps where the session is starting, after at most five otherwise.
pub proof fn applying_ends(
    compositor: Compositor,
    at_startup: bool,
    replies: spec_fn(nat) -> bool,
    n: nat,
)
    requires
        n >= if at_startup {
            31int
        } else {
            5int
        },
    ensures
        phase_after(compositor, at_startup, replies, n) == Phase::Done,
{
    steps_run_out(compositor, at_startup, replies, n);
}

/// How long is waited in the first `n` steps, in milliseconds.
pub open spec fn waited_ms(
    compositor: Compositor,
    at_startup: bool,
    replies: spec_fn(nat) -> bool,
    n: nat,
) -> nat
    decreases n,
{
    if n == 0 {
        0
    } else {
        let before = (n - 1) as nat;
        waited_ms(compositor, at_startup, replies, before) + (match phase_after(
            compositor,
            at_startup,
            replies,
            before,
        ) {
            Phase::Pause { .. } => 200nat,
            _ => 0nat,
        })
    }
}

/// At login the attempts take less than two seconds of waiting; a click never
/// waits.
pub proof fn waiting_is_bounded(
    compositor: Compositor,
    at_startup: bool,
    replies: spec_fn(nat) -> bool,
    n: nat,
)
    ensures
        waited_ms(compositor, at_startup, replies, n) < 2000,
        !at_startup ==> waited_ms(compositor, at_startup, replies, n) == 0,
{
    waiting_so_far(compositor, at_startup, replies, n);
}

proof fn waiting_so_far(
    compositor: Compositor,
    at_startup: bool,
    replies: spec_fn(nat) -> bool,
    n: nat,
)
    ensures
        ({
            let waited = waited_ms(compositor, at_startup, replies, n);
            let phase = phase_after(compositor, at_startup, replies, n);
            &&& in_order(phase, at_startup)
            &&& waited <= 200 * (attempts(at_startup) - 1)
            &&& match phase {
                Phase::Pause { attempt } => waited == 200 * (attempt - 1),
                Phase::Try { attempt } => waited == 200 * attempt,
                Phase::Preload { attempt } => waited == 200 * attempt,
                _ => true,
            }
        }),
    decreases n,
{
    if n > 0 {
        waiting_so_far(compositor, at_startup, replies, (n - 1) as nat);
    }
}

// ---------------------------------------------------------------------------
// Clearing the wallpaper
// ---------------------------------------------------------------------------

/// Where the removal of the wallpaper stands.
#[derive(Clone, Copy, PartialEq, Eq, Structural, Debug)]
pub enum ClearPhase {
    Forget,
    Hyprland,
    Sway,
    ProbeSwww,
    Swww,
    KillSwaybg,
    Done,
}

/// Where the removal goes on after a step that did or did not succeed. The path is
/// forgotten first.
pub open spec fn next_clear_phase(phase: ClearPhase, ok: bool, compositor: Compositor) -> ClearPhase {
    match phase {
        ClearPhase::Forget => match compositor {
            Compositor::Hyprland => ClearPhase::Hyprland,
            Compositor::Sway => ClearPhase::Sway,
            Compositor::Generic => ClearPhase::ProbeSwww,
        },
        ClearPhase::ProbeSwww => if ok {
            ClearPhase::Swww
        } else {
            ClearPhase::KillSwaybg
        },
        _ => ClearPhase::Done,
    }
}

/// What is to be done in a phase of the removal.
pub open spec fn clear_step(phase: ClearPhase) -> Option<StepView> {
    match phase {
        ClearPhase::Forget => Some(StepView::Forget),
        ClearPhase::Hyprland => Some(
            StepView::Run(command_view("hyprctl"@, seq!["hyprpaper"@, "unload"@, "all"@])),
        ),
        ClearPhase::Sway => Some(
            StepView::Run(command_view("swaymsg"@, seq!["output"@, "*"@, "bg"@, "none"@])),
        ),
        ClearPhase::ProbeSwww => Some(StepView::Probe(probe_view("swww"@))),
        ClearPhase::Swww => Some(StepView::Run(command_view("swww"@, seq!["clear"@]))),
        ClearPhase::KillSwaybg => Some(StepView::Run(command_view("pkill"@, seq!["swaybg"@]))),
        ClearPhase::Done => None,
    }
}

/// The removal of the wallpaper in progress.
pub struct Clearing {
    pub compositor: Compositor,
    pub phase: ClearPhase,
}

impl Clearing {
    /// Begins to remove the wallpaper.
    pub fn start(compositor: Compositor) -> (c: Clearing)
        ensures
            c.compositor == compositor,
            c.phase == ClearPhase::Forget,
    {
        Clearing { compositor, phase: ClearPhase::Forget }
    }

    /// What is to be done next; nothing where all is done.
    pub fn next(&self) -> (s: Option<Step>)
        ensures
            step_opt(s) == clear_step(self.phase),
    {
        match self.phase {
            ClearPhase::Forget => Some(Step::Forget),
            ClearPhase::Hyprland => Some(Step::Run(args3("hyprctl", "hyprpaper", "unload", "all"))),
            ClearPhase::Sway => Some(Step::Run(args4("swaymsg", "output", "*", "bg", "none"))),
            ClearPhase::ProbeSwww => Some(Step::Probe(probe_command("swww"))),
            ClearPhase::Swww => Some(Step::Run(args1("swww", "clear"))),
            ClearPhase::KillSwaybg => Some(Step::Run(args1("pkill", "swaybg"))),
            ClearPhase::Done => None,
        }
    }

    /// Takes in whether the step that was next succeeded.
    pub fn report(&mut self, ok: bool)
        ensures
            final(self).compositor == old(self).compositor,
            final(self).phase == next_clear_phase(old(self).phase, ok, old(self).compositor),
    {
        self.phase = match self.phase {
            ClearPhase::Forget => match self.compositor {
                Compositor::Hyprland => ClearPhase::Hyprland,
                Compositor::Sway => ClearPhase::Sway,
                Compositor::Generic => ClearPhase::ProbeSwww,
            },
            ClearPhase::ProbeSwww => if ok {
                ClearPhase::Swww
            } else {
                ClearPhase::KillSwaybg
            },
            _ => ClearPhase::Done,
        };
    }
}

/// The phase of the removal after `n` steps, of which `replies` says whether they
/// succeeded.
pub open spec fn clear_phase_after(
    compositor: Compositor,
    replies: spec_fn(nat) -> bool,
    n: nat,
) -> ClearPhase
    decreases n,
{
    if n == 0 {
        ClearPhase::Forget
    } else {
        let before = (n - 1) as nat;
        next_clear_phase(
            clear_phase_after(compositor, replies, before),
            replies(before),
            compositor,
        )
    }
}

/// Whatever succeeds or fails, the path of the wallpaper is forgotten first, and after
/// two more steps at most the removal is done.
pub proof fn clearing_forgets_and_ends(compositor: Compositor, replies: spec_fn(nat) -> bool, n: nat)
    ensures
        clear_step(clear_phase_after(compositor, replies, 0)) == Some(StepView::Forget),
        n >= 3 ==> clear_step(clear_phase_after(compositor, replies, n)) is None,
    decreases n,
{
    if n > 3 {
        clearing_forgets_and_ends(compositor, replies, (n - 1) as nat);
    } else {
        reveal_with_fuel(clear_phase_after, 4);
    }
}

// ---------------------------------------------------------------------------
// What is done, step by step
// ---------------------------------------------------------------------------

/// The step that is done after `n` others, of which `replies` says whether they
/// succeeded.
pub open spec fn step_after(
    compositor: Compositor,
    at_startup: bool,
    path: Seq<char>,
    replies: spec_fn(nat) -> bool,
    n: nat,
) -> Option<StepView> {
    phase_step(phase_after(compositor, at_startup, replies, n), path)
}

/// The request to Hyprland's wallpaper daemon to show the image on every monitor.
pub open spec fn hyprland_request(path: Seq<char>) -> StepView {
    StepView::Run(command_view("hyprctl"@, seq!["hyprpaper"@, "wallpaper"@, ","@ + path]))
}

/// The request to Hyprland's wallpaper daemon to load the image.
pub open spec fn hyprland_preload(path: Seq<char>) -> StepView {
    StepView::Run(command_view("hyprctl"@, seq!["hyprpaper"@, "preload"@, path]))
}

/// Whether a step puts the image on the screen, if it succeeds.
pub open spec fn shows_image(step: Option<StepView>, path: Seq<char>) -> bool {
    ||| step == Some(hyprland_request(path))
    ||| step == Some(
        StepView::Run(command_view("swaymsg"@, seq!["output"@, "*"@, "bg"@, path, "fill"@])),
    )
    ||| step == Some(StepView::Run(command_view("swww"@, seq!["img"@, path])))
    ||| step == Some(StepView::Start(command_view("swaybg"@, seq!["-i"@, path, "-m"@, "fill"@])))
    ||| step == Some(StepView::Run(command_view("feh"@, seq!["--bg-fill"@, path])))
}

proof fn programs_differ(path: Seq<char>)
    ensures
        "hyprctl"@ != "swaymsg"@,
        "hyprctl"@ != "swww"@,
        "hyprctl"@ != "feh"@,
        "hyprctl"@ != "sh"@,
        "hyprctl"@ != "pkill"@,
        "pkill"@ != "swaymsg"@,
        "pkill"@ != "swww"@,
        "pkill"@ != "feh"@,
        hyprland_preload(path) != hyprland_request(path),
{
    reveal_strlit("hyprctl");
    reveal_strlit("swaymsg");
    reveal_strlit("swww");
    reveal_strlit("feh");
    reveal_strlit("sh");
    reveal_strlit("pkill");
    reveal_strlit("preload");
    reveal_strlit("wallpaper");
    assert("hyprctl"@[0] == 'h' && "swaymsg"@[0] == 's' && "pkill"@[0] == 'p');
    assert("preload"@[0] == 'p' && "wallpaper"@[0] == 'w');
    let a = seq!["hyprpaper"@, "preload"@, path];
    let b = seq!["hyprpaper"@, "wallpaper"@, ","@ + path];
    assert(a[1] != b[1]);
}

/// As soon as a step has put the image on the screen, its path is kept, just as it is,
/// and all is done. It is kept at no other time.
pub proof fn a_shown_image_is_kept(
    compositor: Compositor,
    at_startup: bool,
    path: Seq<char>,
    replies: spec_fn(nat) -> bool,
    n: nat,
)
    ensures
        shows_image(step_after(compositor, at_startup, path, replies, n), path) && replies(n)
            ==> step_after(compositor, at_startup, path, replies, n + 1) == Some(StepView::Persist(path))
            && step_after(compositor, at_startup, path, replies, n + 2) is None,
        step_after(compositor, at_startup, path, replies, n + 1) matches Some(StepView::Persist(kept))
            ==> kept == path && replies(n) && shows_image(
            step_after(compositor, at_startup, path, replies, n),
            path,
        ),
{
    programs_differ(path);
    let now = phase_after(compositor, at_startup, replies, n);
    let then = phase_after(compositor, at_startup, replies, n + 1);
    let end = phase_after(compositor, at_startup, replies, n + 2);
    assert(then == next_phase(now, replies(n), at_startup));
    assert(end == next_phase(then, replies(n + 1), at_startup));
    reveal_strlit("sh");
    reveal_strlit("swww");
    reveal_strlit("feh");
    assert("sh"@.len() == 2 && "swww"@.len() == 4 && "feh"@.len() == 3);
}

/// Whatever loading the image reports, Hyprland is asked for it once more, at once or
/// after a pause.
pub proof fn a_preload_is_followed_by_a_request(
    at_startup: bool,
    path: Seq<char>,
    replies: spec_fn(nat) -> bool,
    n: nat,
)
    requires
        step_after(Compositor::Hyprland, at_startup, path, replies, n) == Some(hyprland_preload(path)),
    ensures
        ({
            let next = step_after(Compositor::Hyprland, at_startup, path, replies, n + 1);
            let later = step_after(Compositor::Hyprland, at_startup, path, replies, n + 2);
            next == Some(hyprland_request(path)) || next == Some(StepView::Sleep(200)) && later == Some(
                hyprland_request(path),
            )
        }),
{
    hyprland_phases(at_startup, replies, n);
    programs_differ(path);
    let now = phase_after(Compositor::Hyprland, at_startup, replies, n);
    let then = phase_after(Compositor::Hyprland, at_startup, replies, n + 1);
    assert(then == next_phase(now, replies(n), at_startup));
    assert(phase_after(Compositor::Hyprland, at_startup, replies, n + 2) == next_phase(
        then,
        replies(n + 1),
        at_startup,
    ));
}

proof fn hyprland_phases(at_startup: bool, replies: spec_fn(nat) -> bool, n: nat)
    ensures
        (match phase_after(Compositor::Hyprland, at_startup, replies, n) {
            Phase::Pause { .. } | Phase::Try { .. } | Phase::Preload { .. } | Phase::LastTry
            | Phase::Persist | Phase::Done => true,
            _ => false,
        }),
    decreases n,
{
    if n > 0 {
        hyprland_phases(at_startup, replies, (n - 1) as nat);
    }
}

/// How often Hyprland is asked before the last time: ten times at login, once for a
/// click.
pub open spec fn rounds(at_startup: bool) -> nat {
    if at_startup {
        10
    } else {
        1
    }
}

proof fn round_begins(at_startup: bool, replies: spec_fn(nat) -> bool, k: nat)
    requires
        k < rounds(at_startup),
        forall|j: nat| j < k ==> !replies(#[trigger] (3 * j)),
    ensures
        phase_after(Compositor::Hyprland, at_startup, replies, 3 * k) == (Phase::Try { attempt: k as u32 }),
    decreases k,
{
    if k > 0 {
        let before = (k - 1) as nat;
        round_begins(at_startup, replies, before);
        let m = 3 * before;
        assert(!replies(3 * before));
        assert(phase_after(Compositor::Hyprland, at_startup, replies, m + 1) == (Phase::Preload {
            attempt: before as u32,
        }));
        assert(phase_after(Compositor::Hyprland, at_startup, replies, m + 2) == (Phase::Pause {
            attempt: k as u32,
        }));
        assert(phase_after(Compositor::Hyprland, at_startup, replies, m + 3) == (Phase::Try {
            attempt: k as u32,
        }));
        assert(m + 3 == 3 * k);
    }
}

/// On Hyprland each round asks for the image and, where that fails, loads it and goes
/// on: after a pause to the next round, and after the last round to a last request.
pub proof fn hyprland_is_asked_in_rounds(
    at_startup: bool,
    path: Seq<char>,
    replies: spec_fn(nat) -> bool,
    k: nat,
)
    requires
        k < rounds(at_startup),
        forall|j: nat| j < k ==> !replies(#[trigger] (3 * j)),
    ensures
        step_after(Compositor::Hyprland, at_startup, path, replies, 3 * k) == Some(hyprland_request(path)),
        !replies(3 * k) ==> {
            &&& step_after(Compositor::Hyprland, at_startup, path, replies, 3 * k + 1) == Some(
                hyprland_preload(path),
            )
            &&& step_after(Compositor::Hyprland, at_startup, path, replies, 3 * k + 2) == Some(
                if k + 1 < rounds(at_startup) {
                    StepView::Sleep(200)
                } else {
                    hyprland_request(path)
                },
            )
        },
{
    round_begins(at_startup, replies, k);
    let m = 3 * k;
    if !replies(m) {
        assert(phase_after(Compositor::Hyprland, at_startup, replies, m + 1) == (Phase::Preload {
            attempt: k as u32,
        }));
        assert(phase_after(Compositor::Hyprland, at_startup, replies, m + 2) == next_phase(
            Phase::Preload { attempt: k as u32 },
            replies(m + 1),
            at_startup,
        ));
    }
}

/// A click on an image that Hyprland's daemon has not loaded yet: the first request
/// fails, all else succeeds, and the image ends up on the screen and kept.
pub proof fn a_click_gets_through(path: Seq<char>, replies: spec_fn(nat) -> bool)
    requires
        !replies(0),
        replies(1),
        replies(2),
    ensures
        step_after(Compositor::Hyprland, false, path, replies, 0) == Some(hyprland_request(path)),
        step_after(Compositor::Hyprland, false, path, replies, 1) == Some(hyprland_preload(path)),
        step_after(Compositor::Hyprland, false, path, replies, 2) == Some(hyprland_request(path)),
        step_after(Compositor::Hyprland, false, path, replies, 3) == Some(StepView::Persist(path)),
{
    hyprland_is_asked_in_rounds(false, path, replies, 0);
    a_shown_image_is_kept(Compositor::Hyprland, false, path, replies, 2);
}

/// Sway is asked itself; under any other compositor the first of three programs that is
/// installed shows the image, and none where none is.
pub proof fn the_first_program_shows_the_image(
    at_startup: bool,
    path: Seq<char>,
    replies: spec_fn(nat) -> bool,
)
    ensures
        step_after(Compositor::Sway, at_startup, path, replies, 0) == Some(
            StepView::Run(command_view("swaymsg"@, seq!["output"@, "*"@, "bg"@, path, "fill"@])),
        ),
        !replies(0) ==> step_after(Compositor::Sway, at_startup, path, replies, 1) is None,
        step_after(Compositor::Generic, at_startup, path, replies, 0) == Some(
            StepView::Probe(probe_view("swww"@)),
        ),
        replies(0) ==> step_after(Compositor::Generic, at_startup, path, replies, 1) == Some(
            StepView::Run(command_view("swww"@, seq!["img"@, path])),
        ),
        !replies(0) ==> step_after(Compositor::Generic, at_startup, path, replies, 1) == Some(
            StepView::Probe(probe_view("swaybg"@)),
        ),
        !replies(0) && replies(1) ==> {
            &&& step_after(Compositor::Generic, at_startup, path, replies, 2) == Some(
                StepView::Run(command_view("pkill"@, seq!["swaybg"@])),
            )
            &&& step_after(Compositor::Generic, at_startup, path, replies, 3) == Some(
                StepView::Start(command_view("swaybg"@, seq!["-i"@, path, "-m"@, "fill"@])),
            )
        },
        !replies(0) && !replies(1) ==> step_after(Compositor::Generic, at_startup, path, replies, 2) == Some(
            StepView::Probe(probe_view("feh"@)),
        ),
        !replies(0) && !replies(1) && replies(2) ==> step_after(
            Compositor::Generic,
            at_startup,
            path,
            replies,
            3,
        ) == Some(StepView::Run(command_view("feh"@, seq!["--bg-fill"@, path]))),
        !replies(0) && !replies(1) && !replies(2) ==> step_after(
            Compositor::Generic,
            at_startup,
            path,
            replies,
            3,
        ) is None,
{
    reveal_with_fuel(phase_after, 5);
}

/// After the path is forgotten, the wallpaper is taken off through the compositor's own
/// program, or through the one that is installed.
pub proof fn the_wallpaper_is_taken_off(replies: spec_fn(nat) -> bool)
    ensures
        clear_step(clear_phase_after(Compositor::Hyprland, replies, 1)) == Some(
            StepView::Run(command_view("hyprctl"@, seq!["hyprpaper"@, "unload"@, "all"@])),
        ),
        clear_step(clear_phase_after(Compositor::Sway, replies, 1)) == Some(
            StepView::Run(command_view("swaymsg"@, seq!["output"@, "*"@, "bg"@, "none"@])),
        ),
        clear_step(clear_phase_after(Compositor::Generic, replies, 1)) == Some(
            StepView::Probe(probe_view("swww"@)),
        ),
        clear_step(clear_phase_after(Compositor::Generic, replies, 2)) == Some(
            if replies(1) {
                StepView::Run(command_view("swww"@, seq!["clear"@]))
            } else {
                StepView::Run(command_view("pkill"@, seq!["swaybg"@]))
            },
        ),
{
    reveal_with_fuel(clear_phase_after, 3);
}

/// Every file with the extension of an image, in whatever case, is listed under its own
/// name and path, and nothing else is.
pub proof fn every_image_is_listed(entry: DirEntry, stem: Seq<char>, ext: Seq<char>)
    requires
        entry.name matches Some(name) && name@ == stem + seq!['.'] + ext,
        entry.path is Some,
        stem.len() > 0,
        !ext.contains('.'),
        ext.len() > 0,
    ensures
        ({
            let low = lowercase(ext);
            let known = low == "png"@ || low == "jpg"@ || low == "jpeg"@ || low == "webp"@ || low == "bmp"@;
            image_of(entry) == if entry.is_file && known {
                Some(WallpaperView { name: stem + seq!['.'] + ext, path: entry.path->0@ })
            } else {
                None
            }
        }),
{
    crate::paths::the_extension_follows_the_last_dot(stem, ext);
    let all = image_extensions();
    assert(all[0] == "png"@ && all[1] == "jpg"@ && all[2] == "jpeg"@ && all[3] == "webp"@ && all[4]
        == "bmp"@);
    if all.contains(lowercase(ext)) {
        let i = choose|i: int| 0 <= i < all.len() && all[i] == lowercase(ext);
        assert(i == 0 || i == 1 || i == 2 || i == 3 || i == 4);
    }
}

/// The images of a directory are those of its entries, one after the other: none is
/// lost, and none is added.
pub proof fn images_come_from_the_entries(a: Seq<DirEntry>, b: Seq<DirEntry>)
    ensures
        images_of(a + b) == images_of(a) + images_of(b),
        b.len() == 1 ==> images_of(b) == (match image_of(b[0]) {
            Some(w) => seq![w],
            None => Seq::empty(),
        }),
    decreases b.len(),
{
    if b.len() == 0 {
        assert(a + b =~= a);
        assert(images_of(a) + images_of(b) =~= images_of(a));
    } else {
        assert((a + b).drop_last() =~= a + b.drop_last());
        images_come_from_the_entries(a, b.drop_last());
        assert(images_of(a + b) =~= images_of(a) + images_of(b));
        if b.len() == 1 {
            assert(images_of(b.drop_last()) =~= Seq::<WallpaperView>::empty());
            assert(images_of(b) =~= (match image_of(b[0]) {
                Some(w) => seq![w],
                None => Seq::empty(),
            }));
        }
    }
}

/// The image that was applied last is marked by the first place at which its path
/// stands, and none is marked where it stands nowhere.
pub proof fn the_applied_image_is_marked(images: Seq<WallpaperView>, path: Seq<char>, k: int, from: int)
    requires
        0 <= from <= k <= images.len(),
        forall|j: int| from <= j < k ==> (#[trigger] images[j]).path != path,
    ensures
        k < images.len() && images[k].path == path ==> image_place(images, path, from) == k,
        k == images.len() ==> image_place(images, path, from) == -1,
    decreases k - from,
{
    if from < k {
        assert(images[from].path != path);
        the_applied_image_is_marked(images, path, k, from + 1);
    }
}

/// Where all succeeds from a preload on, the image ends up on the screen, its path is
/// kept, and then all is done.
pub proof fn a_preload_leads_to_the_image(
    at_startup: bool,
    path: Seq<char>,
    replies: spec_fn(nat) -> bool,
    n: nat,
)
    requires
        step_after(Compositor::Hyprland, at_startup, path, replies, n) == Some(hyprland_preload(path)),
        forall|m: nat| m >= n ==> #[trigger] replies(m),
    ensures
        ({
            let sooner = step_after(Compositor::Hyprland, at_startup, path, replies, n + 2);
            let later = step_after(Compositor::Hyprland, at_startup, path, replies, n + 3);
            let last = step_after(Compositor::Hyprland, at_startup, path, replies, n + 4);
            ||| sooner == Some(StepView::Persist(path)) && later is None
            ||| later == Some(StepView::Persist(path)) && last is None
        }),
{
    a_preload_is_followed_by_a_request(at_startup, path, replies, n);
    a_shown_image_is_kept(Compositor::Hyprland, at_startup, path, replies, n + 1);
    a_shown_image_is_kept(Compositor::Hyprland, at_startup, path, replies, n + 2);
    assert(replies(n + 1) && replies(n + 2));
}

/// The images are sorted by their names in lower case.
pub proof fn images_are_sorted_by_name(images: Seq<WallpaperView>, p: Seq<int>, i: int, j: int)
    requires
        stable_order(sort_keys(images), p),
        0 <= i < j < p.len(),
    ensures
        arranged(images, p).len() == images.len(),
        !crate::sorting::before(lowercase(arranged(images, p)[j].name), lowercase(arranged(images, p)[i].name)),
{
    assert(crate::sorting::goes_first(sort_keys(images), p[i], p[j]));
    crate::sorting::before_is_strict(lowercase(images[p[i]].name), lowercase(images[p[j]].name));
}

/// The directory that the user names is taken as it is; without one it is that for
/// wallpapers in the home directory.
pub proof fn a_named_directory_is_taken_as_it_is(dir: Seq<char>, at: Option<Seq<char>>)
    ensures
        image_dir(Some(dir), at) == dir,
        image_dir(None, at) == below(match at {
            Some(h) => h,
            None => "/root"@,
        }, "Wallpaper"@),
{
}

} // verus!
