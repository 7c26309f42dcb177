//! The status bar: what it shows, and what a click on it does.

use crate::command::{command, command_view, shell, shell_view, CommandLine, Output};
use crate::network::{NetInfo, NetView};
use crate::numbers::{decimal, decimal_text, signed_decimal, signed_decimal_text};
use crate::paths::{below, join_path, str_opt};
use crate::sysinfo::{BatteryInfo, VolumeInfo};
use crate::text::{
    concat2, concat3, from_utf8_lossy, has_prefix, join, joined, owned, same_text, starts_with, trim, trimmed,
    utf8_lossy, views,
};
use crate::weather::{WeatherInfo, WeatherView};
use vstd::prelude::*;

verus! {

// ---------------------------------------------------------------------------
// What the bar shows
// ---------------------------------------------------------------------------

/// A change of one of the bar's properties.
pub enum Setting {
    Text { property: &'static str, text: String },
    Flag { property: &'static str, on: bool },
}

/// A change by its characters.
pub enum SettingView {
    Text { property: Seq<char>, text: Seq<char> },
    Flag { property: Seq<char>, on: bool },
}

impl View for Setting {
    type V = SettingView;

    open spec fn view(&self) -> SettingView {
        match self {
            Setting::Text { property, text } => SettingView::Text { property: property@, text: text@ },
            Setting::Flag { property, on } => SettingView::Flag { property: property@, on: *on },
        }
    }
}

/// The changes by their characters.
pub open spec fn setting_views(v: Seq<Setting>) -> Seq<SettingView> {
    Seq::new(v.len(), |i: int| v[i]@)
}

/// The setting of a text.
pub open spec fn text_setting(property: Seq<char>, text: Seq<char>) -> SettingView {
    SettingView::Text { property, text }
}

/// The setting of a flag.
pub open spec fn flag_setting(property: Seq<char>, on: bool) -> SettingView {
    SettingView::Flag { property, on }
}

fn put(out: &mut Vec<Setting>, setting: Setting)
    ensures
        setting_views(final(out)@) == setting_views(old(out)@).push(setting@),
{
    let ghost before = setting_views(out@);
    out.push(setting);
    assert(setting_views(out@) =~= before.push(setting@));
}

/// A percentage as text.
pub open spec fn percent_text(n: u8) -> Seq<char> {
    decimal(n as nat) + "%"@
}

/// A percentage as text.
pub fn percent_label(n: u8) -> (r: String)
    ensures
        r@ == percent_text(n),
{
    let digits = decimal_text(n as u64);
    concat2(digits.as_str(), "%")
}

/// The weather as text.
pub open spec fn weather_text(w: WeatherView) -> Seq<char> {
    w.condition + "  "@ + w.temperature
}

/// The weather as text.
pub fn weather_label(w: &WeatherInfo) -> (r: String)
    ensures
        r@ == weather_text(w@),
{
    concat3(w.condition.as_str(), "  ", w.temperature.as_str())
}

/// The network as text: its name, with the strength of the signal where that is
/// known, or else whether there is a connection.
pub open spec fn network_text(info: NetView) -> Seq<char> {
    match (info.ssid, info.signal_strength) {
        (Some(name), Some(strength)) => name + "  "@ + percent_text(strength),
        (Some(name), None) => name,
        (None, _) => if info.connected {
            "connected"@
        } else {
            "offline"@
        },
    }
}

/// The network as text.
pub fn network_label(info: &NetInfo) -> (r: String)
    ensures
        r@ == network_text(info@),
{
    match &info.ssid {
        Some(name) => match info.signal_strength {
            Some(strength) => {
                let percent = percent_label(strength);
                concat3(name.as_str(), "  ", percent.as_str())
            },
            None => owned(name.as_str()),
        },
        None => {
            if info.connected {
                owned("connected")
            } else {
                owned("offline")
            }
        },
    }
}

/// The volume as text.
pub open spec fn volume_text(v: VolumeInfo) -> Seq<char> {
    if v.muted {
        "muted"@
    } else {
        percent_text(v.percent)
    }
}

/// The volume as text.
pub fn volume_label(v: &VolumeInfo) -> (r: String)
    ensures
        r@ == volume_text(*v),
{
    if v.muted {
        owned("muted")
    } else {
        percent_label(v.percent)
    }
}

/// What changes when the weather is known.
pub open spec fn weather_changes(w: Option<WeatherInfo>) -> Seq<SettingView> {
    match w {
        Some(i) => seq![text_setting("weather_text"@, weather_text(i@))],
        None => Seq::empty(),
    }
}

/// What changes when the load of the processor is known.
pub open spec fn cpu_changes(percent: Option<u8>) -> Seq<SettingView> {
    match percent {
        Some(n) => seq![text_setting("cpu_text"@, percent_text(n))],
        None => Seq::empty(),
    }
}

/// What changes when the state of the network is known.
pub open spec fn network_changes(info: Option<NetInfo>) -> Seq<SettingView> {
    match info {
        Some(i) => seq![
            text_setting("net_text"@, network_text(i@)),
            flag_setting("net_connected"@, i.connected),
        ],
        None => Seq::empty(),
    }
}

/// What changes when the use of the memory is known.
pub open spec fn ram_changes(percent: Option<u8>) -> Seq<SettingView> {
    match percent {
        Some(n) => seq![text_setting("ram_text"@, percent_text(n))],
        None => Seq::empty(),
    }
}

/// What changes when the battery's charge is known.
pub open spec fn battery_changes(info: Option<BatteryInfo>) -> Seq<SettingView> {
    match info {
        Some(b) => seq![
            text_setting("bat_text"@, percent_text(b.percent)),
            flag_setting("bat_charging"@, b.charging),
        ],
        None => Seq::empty(),
    }
}

/// What changes when the volume is known.
pub open spec fn volume_changes(info: Option<VolumeInfo>) -> Seq<SettingView> {
    match info {
        Some(v) => seq![
            text_setting("vol_text"@, volume_text(v)),
            flag_setting("vol_muted"@, v.muted),
        ],
        None => Seq::empty(),
    }
}

/// What changes when the weather is known.
pub fn weather_settings(w: &Option<WeatherInfo>) -> (out: Vec<Setting>)
    ensures
        setting_views(out@) == weather_changes(*w),
{
    let mut out: Vec<Setting> = Vec::new();
    if let Some(i) = w {
        put(&mut out, Setting::Text { property: "weather_text", text: weather_label(i) });
    }
    assert(setting_views(out@) =~= weather_changes(*w));
    out
}

/// What changes when the load of the processor is known.
pub fn cpu_settings(percent: Option<u8>) -> (out: Vec<Setting>)
    ensures
        setting_views(out@) == cpu_changes(percent),
{
    let mut out: Vec<Setting> = Vec::new();
    if let Some(n) = percent {
        put(&mut out, Setting::Text { property: "cpu_text", text: percent_label(n) });
    }
    assert(setting_views(out@) =~= cpu_changes(percent));
    out
}

/// What changes on the slow timer: the network, the memory, the battery and the
/// volume, each where it is known.
pub fn status_settings(
    network: &Option<NetInfo>,
    ram: Option<u8>,
    battery: &Option<BatteryInfo>,
    volume: &Option<VolumeInfo>,
) -> (out: Vec<Setting>)
    ensures
        setting_views(out@) == network_changes(*network) + ram_changes(ram) + battery_changes(*battery)
            + volume_changes(*volume),
{
    let mut out: Vec<Setting> = Vec::new();
    if let Some(i) = network {
        put(&mut out, Setting::Text { property: "net_text", text: network_label(i) });
        put(&mut out, Setting::Flag { property: "net_connected", on: i.connected });
    }
    assert(setting_views(out@) =~= network_changes(*network));
    if let Some(n) = ram {
        put(&mut out, Setting::Text { property: "ram_text", text: percent_label(n) });
    }
    assert(setting_views(out@) =~= network_changes(*network) + ram_changes(ram));
    if let Some(b) = battery {
        put(&mut out, Setting::Text { property: "bat_text", text: percent_label(b.percent) });
        put(&mut out, Setting::Flag { property: "bat_charging", on: b.charging });
    }
    assert(setting_views(out@) =~= network_changes(*network) + ram_changes(ram) + battery_changes(*battery));
    if let Some(v) = volume {
        put(&mut out, Setting::Text { property: "vol_text", text: volume_label(v) });
        put(&mut out, Setting::Flag { property: "vol_muted", on: v.muted });
    }
    assert(setting_views(out@) =~= network_changes(*network) + ram_changes(ram) + battery_changes(*battery)
        + volume_changes(*volume));
    out
}

/// A reading that failed changes nothing on the bar: what the others change is just
/// what they change by themselves.
pub proof fn an_unknown_reading_changes_nothing(
    network: Option<NetInfo>,
    ram: Option<u8>,
    battery: Option<BatteryInfo>,
    volume: Option<VolumeInfo>,
)
    ensures
        network_changes(None) + ram_changes(ram) + battery_changes(battery) + volume_changes(volume)
            == ram_changes(ram) + battery_changes(battery) + volume_changes(volume),
        network_changes(network) + ram_changes(None) + battery_changes(battery) + volume_changes(volume)
            == network_changes(network) + battery_changes(battery) + volume_changes(volume),
        network_changes(network) + ram_changes(ram) + battery_changes(None) + volume_changes(volume)
            == network_changes(network) + ram_changes(ram) + volume_changes(volume),
        network_changes(network) + ram_changes(ram) + battery_changes(battery) + volume_changes(None)
            == network_changes(network) + ram_changes(ram) + battery_changes(battery),
        weather_changes(None) == Seq::<SettingView>::empty(),
        cpu_changes(None) == Seq::<SettingView>::empty(),
{
}

// ---------------------------------------------------------------------------
// Clicks
// ---------------------------------------------------------------------------

/// The command that turns the sound off or on.
pub fn toggle_mute() -> (c: CommandLine)
    ensures
        c@ == command_view("amixer"@, seq!["set"@, "Master"@, "toggle"@]),
{
    let c = command("amixer").arg("set").arg("Master").arg("toggle");
    assert(c@.args =~= seq!["set"@, "Master"@, "toggle"@]);
    c
}

/// The power profiles, in the order in which a click goes through them.
pub open spec fn power_profiles() -> Seq<Seq<char>> {
    seq!["performance"@, "balanced"@, "power-saver"@]
}

/// The profile after `current`, and the first after the last. From a text that is no
/// profile, or from none, the round begins anew.
pub open spec fn profile_after(current: Option<Seq<char>>) -> Seq<char> {
    match current {
        Some(p) => if p == power_profiles()[0] {
            power_profiles()[1]
        } else if p == power_profiles()[1] {
            power_profiles()[2]
        } else {
            power_profiles()[0]
        },
        None => power_profiles()[0],
    }
}

/// The power profile after `current`.
pub fn next_power_profile(current: Option<&str>) -> (r: &'static str)
    ensures
        r@ == profile_after(str_opt(current)),
{
    match current {
        Some(p) => {
            if same_text(p, "performance") {
                "balanced"
            } else if same_text(p, "balanced") {
                "power-saver"
            } else {
                "performance"
            }
        },
        None => "performance",
    }
}

/// The command that prints the power profile.
pub fn power_profile_command() -> (c: CommandLine)
    ensures
        c@ == command_view("powerprofilesctl"@, seq!["get"@]),
{
    let c = command("powerprofilesctl").arg("get");
    assert(c@.args =~= seq!["get"@]);
    c
}

/// What a command printed, where it could be run, without the white space around it.
pub open spec fn printed(output: Option<Output>) -> Option<Seq<char>> {
    match output {
        Some(o) => Some(trimmed(utf8_lossy(o.stdout@))),
        None => None,
    }
}

/// The command that sets the next power profile, given what the command for the
/// present one printed where it could be run. Whether it succeeded is not asked.
pub fn cycle_power_profile(output: &Option<Output>) -> (c: CommandLine)
    ensures
        c@ == command_view("powerprofilesctl"@, seq!["set"@, profile_after(printed(*output))]),
{
    let next = match output {
        Some(o) => {
            let text = from_utf8_lossy(o.stdout.as_slice());
            let current = trim(text.as_str());
            next_power_profile(Some(current.as_str()))
        },
        None => next_power_profile(None),
    };
    let c = command("powerprofilesctl").arg("set").arg(next);
    assert(next@ == profile_after(printed(*output)));
    assert(c@.args =~= seq!["set"@, next@]);
    c
}

/// From every profile, three clicks lead back to it, and fewer do not.
pub proof fn three_clicks_return(profile: Seq<char>)
    requires
        power_profiles().contains(profile),
    ensures
        ({
            let once = profile_after(Some(profile));
            let twice = profile_after(Some(once));
            &&& power_profiles().contains(once)
            &&& once != profile
            &&& twice != profile
            &&& profile_after(Some(twice)) == profile
        }),
{
    reveal_strlit("performance");
    reveal_strlit("balanced");
    reveal_strlit("power-saver");
    let all = power_profiles();
    let (a, b, c) = (all[0], all[1], all[2]);
    assert(a[0] == 'p' && b[0] == 'b' && c[0] == 'p');
    assert(a[1] == 'e' && c[1] == 'o');
    assert(a != b && b != c && a != c);
    assert(all.contains(a) && all.contains(b) && all.contains(c));
    assert(profile == a || profile == b || profile == c);
}

/// The script's part for one terminal: run it where it is installed.
pub open spec fn nmtui_part(terminal: Seq<char>, run: Seq<char>) -> Seq<char> {
    "command -v "@ + terminal + " >/dev/null 2>&1 && exec setsid "@ + run
}

/// The parts of the script that opens the network's settings, one for each terminal.
pub open spec fn nmtui_parts() -> Seq<Seq<char>> {
    seq![
        nmtui_part("foot"@, "foot --app-id=nmtui-float -e nmtui"@),
        nmtui_part("kitty"@, "kitty --class=nmtui-float -e nmtui"@),
        nmtui_part("alacritty"@, "alacritty --class=nmtui-float -e nmtui"@),
        nmtui_part("wezterm"@, "wezterm start --class nmtui-float -- nmtui"@),
        nmtui_part("xterm"@, "xterm -class nmtui-float -e nmtui"@),
    ]
}

fn nmtui_attempt(terminal: &str, run: &str) -> (r: String)
    ensures
        r@ == nmtui_part(terminal@, run@),
{
    let probe = concat3("command -v ", terminal, " >/dev/null 2>&1 && exec setsid ");
    concat2(probe.as_str(), run)
}

/// The command that opens a terminal with the network's settings: the first terminal
/// that is installed. The window bears the class `nmtui-float`, by which the
/// compositor can tell it apart.
pub fn launch_nmtui() -> (c: CommandLine)
    ensures
        c@ == shell_view(joined(nmtui_parts(), " || "@)),
{
    let mut parts: Vec<String> = Vec::new();
    parts.push(nmtui_attempt("foot", "foot --app-id=nmtui-float -e nmtui"));
    parts.push(nmtui_attempt("kitty", "kitty --class=nmtui-float -e nmtui"));
    parts.push(nmtui_attempt("alacritty", "alacritty --class=nmtui-float -e nmtui"));
    parts.push(nmtui_attempt("wezterm", "wezterm start --class nmtui-float -- nmtui"));
    parts.push(nmtui_attempt("xterm", "xterm -class nmtui-float -e nmtui"));
    assert(views(parts@) =~= nmtui_parts());
    let script = join(&parts, " || ");
    shell(script.as_str())
}

// ---------------------------------------------------------------------------
// Workspaces
// ---------------------------------------------------------------------------

/// What to send to which compositor.
pub enum Dispatch {
    Hyprland(String),
    Niri(String),
    Nothing,
}

/// What to send, by its characters.
pub enum DispatchView {
    Hyprland(Seq<char>),
    Niri(Seq<char>),
    Nothing,
}

impl View for Dispatch {
    type V = DispatchView;

    open spec fn view(&self) -> DispatchView {
        match self {
            Dispatch::Hyprland(s) => DispatchView::Hyprland(s@),
            Dispatch::Niri(s) => DispatchView::Niri(s@),
            Dispatch::Nothing => DispatchView::Nothing,
        }
    }
}

/// What to send first for a switch to workspace `n`. Hyprland comes before niri
/// where both seem to run.
pub fn switch_workspace(n: i32, hyprland: bool, niri: bool) -> (r: Dispatch)
    ensures
        r@ == (if hyprland {
            DispatchView::Hyprland("dispatch workspace "@ + signed_decimal(n as int))
        } else if niri {
            DispatchView::Niri(
                r#"{"Action":{"FocusWorkspace":{"reference":{"Index":"#@ + signed_decimal(n as int)
                    + "}}}}"@,
            )
        } else {
            DispatchView::Nothing
        }),
{
    let number = signed_decimal_text(n);
    if hyprland {
        Dispatch::Hyprland(concat2("dispatch workspace ", number.as_str()))
    } else if niri {
        Dispatch::Niri(
            concat3(r#"{"Action":{"FocusWorkspace":{"reference":{"Index":"#, number.as_str(), "}}}}"),
        )
    } else {
        Dispatch::Nothing
    }
}

/// What to send to Hyprland after its reply to the first attempt. Where it gave none
/// or reported an error, its dispatchers may be Lua calls.
pub fn retry_switch(n: i32, reply: Option<&str>) -> (r: Dispatch)
    ensures
        r@ == (if str_opt(reply) matches Some(text) && !starts_with(text, "error"@) {
            DispatchView::Nothing
        } else {
            DispatchView::Hyprland(
                "dispatch hl.dsp.focus({ workspace = "@ + signed_decimal(n as int) + " })"@,
            )
        }),
{
    if let Some(text) = reply {
        if !has_prefix(text, "error") {
            return Dispatch::Nothing;
        }
    }
    let number = signed_decimal_text(n);
    Dispatch::Hyprland(concat3("dispatch hl.dsp.focus({ workspace = ", number.as_str(), " })"))
}

/// The path of Hyprland's control socket, given the environment variables
/// `XDG_RUNTIME_DIR` and `HYPRLAND_INSTANCE_SIGNATURE`.
pub fn hypr_socket_path(runtime: Option<&str>, signature: &str) -> (r: String)
    ensures
        r@ == below(
            below(
                below(
                    match str_opt(runtime) {
                        Some(dir) => dir,
                        None => "/run/user/1000"@,
                    },
                    "hypr"@,
                ),
                signature@,
            ),
            ".socket.sock"@,
        ),
{
    let dir = match runtime {
        Some(d) => owned(d),
        None => owned("/run/user/1000"),
    };
    let hypr = join_path(dir.as_str(), "hypr");
    let instance = join_path(hypr.as_str(), signature);
    join_path(instance.as_str(), ".socket.sock")
}

// ---------------------------------------------------------------------------
// Laws
// ---------------------------------------------------------------------------

/// A percentage is shown by its digits, which read back as the number, and a percent sign.
pub proof fn a_percentage_reads_back(n: u8)
    ensures
        percent_text(n).len() > 0,
        percent_text(n).last() == '%',
        crate::numbers::number(percent_text(n).drop_last(), u8::MAX as nat) == Some(n as nat),
{
    reveal_strlit("%");
    crate::numbers::written_number_reads_back(n as nat, u8::MAX as nat);
    assert(percent_text(n).drop_last() =~= decimal(n as nat));
}

/// The name of a network is shown whole, and the strength of its signal behind it.
pub proof fn a_network_is_shown_by_its_name(info: NetView, name: Seq<char>, strength: u8)
    requires
        info.ssid == Some(name),
    ensures
        info.signal_strength is None ==> network_text(info) == name,
        info.signal_strength == Some(strength) ==> network_text(info) == name + "  "@ + decimal(strength as nat)
            + "%"@,
        name.is_prefix_of(network_text(info)),
{
    if let Some(s) = info.signal_strength {
        assert(network_text(info) =~= name + "  "@ + decimal(s as nat) + "%"@);
    }
    assert(name =~= network_text(info).subrange(0, name.len() as int));
}

/// Without a name, the bar tells whether there is a connection.
pub proof fn a_nameless_network_is_shown_by_its_state(info: NetView)
    requires
        info.ssid is None,
    ensures
        network_text(info) == if info.connected {
            "connected"@
        } else {
            "offline"@
        },
{
}

/// The weather is shown whole: the condition, two spaces, the temperature.
pub proof fn the_weather_is_shown_whole(w: WeatherView)
    ensures
        w.condition.is_prefix_of(weather_text(w)),
        w.temperature.is_suffix_of(weather_text(w)),
        weather_text(w).len() == w.condition.len() + 2 + w.temperature.len(),
        weather_text(w)[w.condition.len() as int] == ' ',
        weather_text(w)[(w.condition.len() + 1) as int] == ' ',
{
    reveal_strlit("  ");
    let t = weather_text(w);
    assert(w.condition =~= t.subrange(0, w.condition.len() as int));
    assert(w.temperature =~= t.subrange(t.len() - w.temperature.len(), t.len() as int));
}

/// What is read is what is set: each reading its own property, and nothing else.
pub proof fn each_reading_sets_its_own(
    w: WeatherInfo,
    cpu: u8,
    net: NetInfo,
    ram: u8,
    battery: BatteryInfo,
    volume: VolumeInfo,
)
    ensures
        weather_changes(Some(w)) == seq![
            (SettingView::Text { property: "weather_text"@, text: weather_text(w@) }),
        ],
        cpu_changes(Some(cpu)) == seq![
            (SettingView::Text { property: "cpu_text"@, text: decimal(cpu as nat) + "%"@ }),
        ],
        network_changes(Some(net)) == seq![
            (SettingView::Text { property: "net_text"@, text: network_text(net@) }),
            (SettingView::Flag { property: "net_connected"@, on: net.connected }),
        ],
        ram_changes(Some(ram)) == seq![
            (SettingView::Text { property: "ram_text"@, text: decimal(ram as nat) + "%"@ }),
        ],
        battery_changes(Some(battery)) == seq![
            (SettingView::Text { property: "bat_text"@, text: decimal(battery.percent as nat) + "%"@ }),
            (SettingView::Flag { property: "bat_charging"@, on: battery.charging }),
        ],
        volume_changes(Some(volume)) == seq![
            (SettingView::Text {
                property: "vol_text"@,
                text: if volume.muted {
                    "muted"@
                } else {
                    decimal(volume.percent as nat) + "%"@
                },
            }),
            (SettingView::Flag { property: "vol_muted"@, on: volume.muted }),
        ],
{
}

/// A click goes from performance to balanced, from there to saving power, and from
/// anything else to performance.
pub proof fn a_click_goes_to_the_next_profile(profile: Seq<char>)
    ensures
        profile_after(Some("performance"@)) == "balanced"@,
        profile_after(Some("balanced"@)) == "power-saver"@,
        profile != "performance"@ && profile != "balanced"@ ==> profile_after(Some(profile)) == "performance"@,
        profile_after(None) == "performance"@,
{
    reveal_strlit("performance");
    reveal_strlit("balanced");
    assert("performance"@[0] == 'p' && "balanced"@[0] == 'b');
}

/// What a command printed is taken with all that stands between the white space at its
/// ends.
pub proof fn what_is_printed_is_taken_whole(o: Output, a: Seq<char>, s: Seq<char>, b: Seq<char>)
    requires
        crate::text::all_space(a),
        crate::text::all_space(b),
        s.len() > 0 ==> !crate::text::is_space(s.first()) && !crate::text::is_space(s.last()),
        utf8_lossy(o.stdout@) == a + s + b,
    ensures
        printed(Some(o)) == Some(s),
        printed(None) is None,
{
    crate::text::trimming_takes_off_the_ends(a, s, b);
}

} // verus!
