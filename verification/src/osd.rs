//! The on-screen display: a small overlay that appears for a moment when the volume
//! or the power profile changes, whoever changed it.

use crate::bar::{percent_label, percent_text, printed};
use crate::command::Output;
use crate::sysinfo::{volume, volume_in};
use crate::text::{concat2, from_utf8_lossy, owned, replace, replaced, same_text, trim, utf8_lossy, view_opt};
use vstd::prelude::*;

verus! {

/// The size of the overlay while it shows something.
pub const OSD_WIDTH: u32 = 260;

pub const OSD_HEIGHT: u32 = 64;

/// The distance from the top of the screen: the bar's margin, its height and a gap.
pub const TOP_MARGIN: i32 = 54;

/// The distance from the side of the screen.
pub const SIDE_MARGIN: i32 = 16;

/// How often the volume and the profile are read, in milliseconds.
pub const POLL_INTERVAL_MS: u64 = 300;

/// How long the overlay stays after a change, in milliseconds.
pub const VISIBLE_FOR_MS: u64 = 2500;

// ---------------------------------------------------------------------------
// Readings
// ---------------------------------------------------------------------------

/// The volume in percent and whether the sound is off, from what `amixer` printed
/// where it could be run.
pub fn read_volume(output: &Option<Output>) -> (r: Option<(u8, bool)>)
    ensures
        r == (match *output {
            Some(o) => match volume_in(utf8_lossy(o.stdout@)) {
                Some(v) => Some((v.percent, v.muted)),
                None => None,
            },
            None => None,
        }),
{
    match volume(output) {
        Some(v) => Some((v.percent, v.muted)),
        None => None,
    }
}

/// The power profile, from what `powerprofilesctl` printed where it could be run: an
/// empty answer is none.
pub fn read_power_profile(output: &Option<Output>) -> (r: Option<String>)
    ensures
        view_opt(r) == (match printed(*output) {
            Some(p) => if p.len() > 0 {
                Some(p)
            } else {
                None
            },
            None => None,
        }),
{
    match output {
        Some(o) => {
            let text = from_utf8_lossy(o.stdout.as_slice());
            let profile = trim(text.as_str());
            if profile.as_str().is_empty() {
                None
            } else {
                Some(profile)
            }
        },
        None => None,
    }
}

// ---------------------------------------------------------------------------
// What is shown
// ---------------------------------------------------------------------------

/// What the overlay shows: a symbol, a text and, where there is a bar, how far it
/// reaches, in percent.
pub struct Notice {
    pub glyph: &'static str,
    pub label: String,
    pub level: Option<u8>,
}

/// What the overlay shows, by its characters.
pub struct NoticeView {
    pub glyph: Seq<char>,
    pub label: Seq<char>,
    pub level: Option<u8>,
}

impl View for Notice {
    type V = NoticeView;

    open spec fn view(&self) -> NoticeView {
        NoticeView { glyph: self.glyph@, label: self.label@, level: self.level }
    }
}

/// A notice that may be absent, by its characters.
pub open spec fn notice_opt(n: Option<Notice>) -> Option<NoticeView> {
    match n {
        Some(i) => Some(i@),
        None => None,
    }
}

/// The notice of a volume.
pub open spec fn volume_notice(percent: u8, muted: bool) -> NoticeView {
    NoticeView {
        glyph: if muted {
            "\u{F026}"@
        } else {
            "\u{F028}"@
        },
        label: if muted {
            "Muted"@
        } else {
            "Volume "@ + percent_text(percent)
        },
        level: Some(percent),
    }
}

/// The notice of a power profile.
pub open spec fn profile_notice(profile: Seq<char>) -> NoticeView {
    NoticeView { glyph: "\u{F013}"@, label: replaced(profile, '-', " "@), level: None }
}

fn notice_volume(percent: u8, muted: bool) -> (r: Notice)
    ensures
        r@ == volume_notice(percent, muted),
{
    let label = if muted {
        owned("Muted")
    } else {
        let text = percent_label(percent);
        concat2("Volume ", text.as_str())
    };
    let glyph = if muted {
        "\u{F026}"
    } else {
        "\u{F028}"
    };
    Notice { glyph, label, level: Some(percent) }
}

fn notice_profile(profile: &str) -> (r: Notice)
    ensures
        r@ == profile_notice(profile@),
{
    Notice { glyph: "\u{F013}", label: replace(profile, '-', " "), level: None }
}

// ---------------------------------------------------------------------------
// Ticks
// ---------------------------------------------------------------------------

/// What the overlay remembers: the volume and the profile that were read last, and,
/// while it is visible, the moment at which it disappears. Moments are counted in
/// milliseconds.
pub struct Osd {
    pub volume: Option<(u8, bool)>,
    pub profile: Option<String>,
    pub hide_at: Option<u64>,
}

/// What the overlay remembers, by its characters.
pub struct OsdView {
    pub volume: Option<(u8, bool)>,
    pub profile: Option<Seq<char>>,
    pub hide_at: Option<u64>,
}

impl View for Osd {
    type V = OsdView;

    open spec fn view(&self) -> OsdView {
        OsdView { volume: self.volume, profile: view_opt(self.profile), hide_at: self.hide_at }
    }
}

/// What a tick asks for: the notices to show, that of the volume first, and the size
/// that the overlay takes on.
pub struct Tick {
    pub volume: Option<Notice>,
    pub profile: Option<Notice>,
    pub resize: Option<(u32, u32)>,
}

/// What a tick asks for, by its characters.
pub struct TickView {
    pub volume: Option<NoticeView>,
    pub profile: Option<NoticeView>,
    pub resize: Option<(u32, u32)>,
}

impl View for Tick {
    type V = TickView;

    open spec fn view(&self) -> TickView {
        TickView {
            volume: notice_opt(self.volume),
            profile: notice_opt(self.profile),
            resize: self.resize,
        }
    }
}

/// Whether a reading tells of a change: it succeeded, and differs from the last.
pub open spec fn changed<T>(last: Option<T>, now: Option<T>) -> bool {
    now is Some && now != last
}

/// The last reading that succeeded.
pub open spec fn latest<T>(last: Option<T>, now: Option<T>) -> Option<T> {
    if now is Some {
        now
    } else {
        last
    }
}

impl OsdView {
    /// The size of the overlay: a single point while it shows nothing.
    pub open spec fn size(self) -> (u32, u32) {
        if self.hide_at is Some {
            (OSD_WIDTH, OSD_HEIGHT)
        } else {
            (1, 1)
        }
    }

    /// Whether new readings tell of a change.
    pub open spec fn notices(self, volume: Option<(u8, bool)>, profile: Option<Seq<char>>) -> bool {
        changed(self.volume, volume) || changed(self.profile, profile)
    }

    /// Whether the overlay disappears at `now`, if nothing changes.
    pub open spec fn is_over(self, now: u64) -> bool {
        self.hide_at matches Some(deadline) && now >= deadline
    }

    /// What the overlay remembers after new readings at `now`.
    pub open spec fn after(
        self,
        volume: Option<(u8, bool)>,
        profile: Option<Seq<char>>,
        now: u64,
    ) -> OsdView {
        OsdView {
            volume: latest(self.volume, volume),
            profile: latest(self.profile, profile),
            hide_at: if self.notices(volume, profile) {
                Some((now + VISIBLE_FOR_MS) as u64)
            } else if self.is_over(now) {
                None
            } else {
                self.hide_at
            },
        }
    }

    /// What new readings at `now` ask for.
    pub open spec fn tick(
        self,
        volume: Option<(u8, bool)>,
        profile: Option<Seq<char>>,
        now: u64,
    ) -> TickView {
        TickView {
            volume: match volume {
                Some((percent, muted)) if volume != self.volume => Some(volume_notice(percent, muted)),
                _ => None,
            },
            profile: match profile {
                Some(p) if profile != self.profile => Some(profile_notice(p)),
                _ => None,
            },
            resize: if self.notices(volume, profile) {
                Some((OSD_WIDTH, OSD_HEIGHT))
            } else if self.is_over(now) {
                Some((1, 1))
            } else {
                None
            },
        }
    }
}

impl Osd {
    /// The overlay at the start, with the first readings, which do not count as a
    /// change.
    pub fn start(volume: Option<(u8, bool)>, profile: Option<String>) -> (o: Osd)
        ensures
            o@ == (OsdView { volume, profile: view_opt(profile), hide_at: None }),
    {
        Osd { volume, profile, hide_at: None }
    }

    /// Takes in new readings at `now`.
    pub fn tick(&mut self, volume: Option<(u8, bool)>, profile: Option<String>, now: u64) -> (r: Tick)
        requires
            now + VISIBLE_FOR_MS <= u64::MAX,
        ensures
            r@ == old(self)@.tick(volume, view_opt(profile), now),
            final(self)@ == old(self)@.after(volume, view_opt(profile), now),
    {
        let mut volume_shown: Option<Notice> = None;
        let mut profile_shown: Option<Notice> = None;
        if let Some((percent, muted)) = volume {
            let same = match self.volume {
                Some((p, m)) => p == percent && m == muted,
                None => false,
            };
            if !same {
                self.volume = Some((percent, muted));
                volume_shown = Some(notice_volume(percent, muted));
            }
        }
        if let Some(p) = profile {
            let same = match &self.profile {
                Some(last) => same_text(last.as_str(), p.as_str()),
                None => false,
            };
            if !same {
                profile_shown = Some(notice_profile(p.as_str()));
                self.profile = Some(p);
            }
        }
        let mut resize: Option<(u32, u32)> = None;
        if volume_shown.is_some() || profile_shown.is_some() {
            resize = Some((OSD_WIDTH, OSD_HEIGHT));
            self.hide_at = Some(now + VISIBLE_FOR_MS);
        } else if let Some(deadline) = self.hide_at {
            if now >= deadline {
                resize = Some((1, 1));
                self.hide_at = None;
            }
        }
        Tick { volume: volume_shown, profile: profile_shown, resize }
    }
}

// ---------------------------------------------------------------------------
// Laws
// ---------------------------------------------------------------------------

/// While the readings stay as they were, and where they fail, nothing is shown and
/// nothing grows: not at the start either.
pub proof fn without_a_change_nothing_is_shown(osd: OsdView, now: u64)
    ensures
        ({
            let same = osd.tick(osd.volume, osd.profile, now);
            let none = osd.tick(None, None, now);
            &&& same == none
            &&& none.volume is None
            &&& none.profile is None
            &&& osd.hide_at is None ==> none.resize is None
            &&& osd.after(osd.volume, osd.profile, now) == osd.after(None, None, now)
        }),
{
}

/// The overlay has its full size exactly from a change until its time is over: what
/// ticks ask for keeps the size in step with what the overlay remembers.
pub proof fn the_size_keeps_step(
    osd: OsdView,
    volume: Option<(u8, bool)>,
    profile: Option<Seq<char>>,
    now: u64,
)
    ensures
        osd.after(volume, profile, now).size() == (match osd.tick(volume, profile, now).resize {
            Some(size) => size,
            None => osd.size(),
        }),
{
}

/// After a change at `shown`, ticks without another change leave the overlay visible
/// until its time is over, and the first tick from then on hides it.
pub proof fn a_notice_lasts_its_time(
    osd: OsdView,
    volume: Option<(u8, bool)>,
    profile: Option<Seq<char>>,
    shown: u64,
    later: u64,
)
    requires
        osd.notices(volume, profile),
        shown + VISIBLE_FOR_MS <= u64::MAX,
        shown <= later,
    ensures
        ({
            let visible = osd.after(volume, profile, shown);
            &&& visible.size() == (OSD_WIDTH, OSD_HEIGHT)
            &&& later < shown + VISIBLE_FOR_MS ==> visible.after(None, None, later) == visible
            &&& later >= shown + VISIBLE_FOR_MS ==> visible.after(None, None, later).size() == (1u32, 1u32)
        }),
{
}

/// Every reading that differs from the last is shown at once, the overlay grows for it,
/// and it is remembered; a reading that fails leaves what is remembered.
pub proof fn every_change_is_shown(
    osd: OsdView,
    volume: Option<(u8, bool)>,
    profile: Option<Seq<char>>,
    now: u64,
)
    requires
        now + VISIBLE_FOR_MS <= u64::MAX,
    ensures
        ({
            let tick = osd.tick(volume, profile, now);
            let next = osd.after(volume, profile, now);
            &&& volume matches Some((percent, muted)) ==> {
                &&& next.volume == Some((percent, muted))
                &&& osd.volume != volume ==> tick.volume == Some(volume_notice(percent, muted)) && tick.resize
                    == Some((260u32, 64u32)) && next.hide_at == Some((now + 2500) as u64)
                &&& osd.volume == volume ==> tick.volume is None
            }
            &&& profile matches Some(p) ==> {
                &&& next.profile == Some(p)
                &&& osd.profile != profile ==> tick.profile == Some(profile_notice(p)) && tick.resize == Some(
                    (260u32, 64u32),
                ) && next.hide_at == Some((now + 2500) as u64)
                &&& osd.profile == profile ==> tick.profile is None
            }
            &&& volume is None ==> tick.volume is None && next.volume == osd.volume
            &&& profile is None ==> tick.profile is None && next.profile == osd.profile
        }),
{
}

/// A notice of the volume always has its bar at the volume, and names it unless the sound
/// is off.
pub proof fn a_volume_is_shown_as_it_is(percent: u8)
    ensures
        volume_notice(percent, true).level == Some(percent),
        volume_notice(percent, false).level == Some(percent),
        volume_notice(percent, true).label == "Muted"@,
        volume_notice(percent, false).label == "Volume "@ + (crate::numbers::decimal(percent as nat) + "%"@),
        volume_notice(percent, true).glyph == "\u{F026}"@,
        volume_notice(percent, false).glyph == "\u{F028}"@,
{
}

/// The name of a profile is shown as it is, but for a space in place of each hyphen, and
/// without a bar.
pub proof fn a_profile_is_shown_as_it_is(a: Seq<char>, b: Seq<char>)
    requires
        !a.contains('-'),
    ensures
        profile_notice(a).label == a,
        profile_notice(a + seq!['-'] + b).label == a + seq![' '] + profile_notice(b).label,
        profile_notice(a).level is None,
        profile_notice(a).glyph == "\u{F013}"@,
{
    reveal_strlit(" ");
    assert(" "@ =~= seq![' ']);
    hyphens_become_spaces(a, b);
}

proof fn hyphens_become_spaces(a: Seq<char>, b: Seq<char>)
    requires
        !a.contains('-'),
    ensures
        replaced(a, '-', " "@) == a,
        replaced(a + seq!['-'] + b, '-', " "@) == a + " "@ + replaced(b, '-', " "@),
{
    crate::text::replacing_touches_nothing_else(a, '-', b, " "@);
}

} // verus!
