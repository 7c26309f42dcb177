//! Launcher, session menu, wallpapers, bar, overlay, monitors, backdrop and locker.

use helium_shell::backdrop::{
    has_wallpaper, monitor_source, poll, wallpaper_file, MonitorSource, Resizing, RESIZE_MAX_ATTEMPTS, SOURCE,
};
use helium_shell::bar::{
    cpu_settings, cycle_power_profile, hypr_socket_path, launch_nmtui, network_label, next_power_profile,
    percent_label, power_profile_command, retry_switch, status_settings, switch_workspace, toggle_mute, volume_label,
    weather_label, weather_settings, Dispatch, Setting,
};
use helium_shell::command::{CommandLine, Output};
use helium_shell::launcher::{
    app_dirs, clean_exec, clicked as launch_clicked, detect_terminal, first_visible, icon_candidates,
    initial_selection, is_desktop_file, launch_command, navigate as launcher_navigate, parse_desktop_file,
    pick_present, probe_command, resolve_icon, row_flags, scan_apps, selected_place, sort_apps, terminal_candidates,
    visible_indices, with_icon, AppEntry, AppFile,
};
use helium_shell::locker::{inquire, verify_password, Inquiry, Outcome, EXIT_DELAY_MS, SERVICE};
use helium_shell::network::NetInfo;
use helium_shell::osd::{read_power_profile, read_volume, Osd, OSD_HEIGHT, OSD_WIDTH, VISIBLE_FOR_MS};
use helium_shell::outputs::{
    bar_width, hyprland_monitors, hyprland_monitors_command, niri_monitor_width, niri_monitors,
    primary_monitor_width, sway_monitor_width, sway_monitors, Monitor, Monitors, NIRI_OUTPUTS_REQUEST,
};
use helium_shell::session::{
    action_clicked, actions, button_place, lock_command, nav_order, navigate as session_navigate, session_command,
};
use helium_shell::sway::{reply_length, reply_length_in, request, request_in, ByteOrder, GET_OUTPUTS};
use helium_shell::sysinfo::{BatteryInfo, VolumeInfo};
use helium_shell::wallpaper::{
    clicked as wallpaper_clicked, detect_compositor, has_image_name, initial_index, is_startup, read_saved_wallpaper,
    scan_wallpapers, state_file_path, wallpaper_dir, Applying, Clearing, Compositor, DirEntry, Step, WallpaperEntry,
};
use helium_shell::weather::WeatherInfo;

fn words(c: &CommandLine) -> Vec<&str> {
    let mut all = vec![c.program.as_str()];
    all.extend(c.args.iter().map(|a| a.as_str()));
    all
}

fn printed(text: &str) -> Option<Output> {
    Some(Output { success: true, stdout: text.as_bytes().to_vec() })
}

// Launcher.

fn app(name: &str) -> AppEntry {
    AppEntry { name: name.to_string(), run: format!("run-{name}"), terminal: false, icon: None }
}

fn names(apps: &[AppEntry]) -> Vec<&str> {
    apps.iter().map(|a| a.name.as_str()).collect()
}

#[test]
fn a_desktop_entry_is_read() {
    let text = "Name=Ignored\n[Desktop Entry]\n Name=Editor\nName=Second\nName[de]=Texte\nExec=ed  %U --x\nExec=edit %F %%  -n\n\
        Icon=edit\nTerminal=TRUE\nNoDisplay=true\nNoDisplay=false\n[Desktop Action new]\nExec=other\nHidden=true\n";
    let e = parse_desktop_file(Some(text)).unwrap();
    assert_eq!(e.name, "Editor");
    assert_eq!(e.run, "edit %% -n");
    assert!(e.terminal);
    assert_eq!(e.icon.as_deref(), Some("edit"));
}

#[test]
fn a_hidden_or_empty_entry_is_none() {
    let entry = |rest: &str| parse_desktop_file(Some(&format!("[Desktop Entry]\n{rest}")));
    assert!(entry("Name=A\nExec=a").is_some());
    assert!(entry("Name=A\nExec=a\nNoDisplay=True").is_none());
    assert!(entry("Name=A\nExec=a\nHidden=true").is_none());
    assert!(entry("Exec=a").is_none());
    assert!(entry("Name=A").is_none());
    assert!(entry("Name=A\nExec= %U ").is_none());
    assert!(parse_desktop_file(Some("Name=A\nExec=a")).is_none());
    assert!(parse_desktop_file(None).is_none());
}

#[test]
fn field_codes_are_stripped() {
    assert_eq!(clean_exec("app %f %F\t%u%U  x%i%c%k %d %"), "app x %d %");
    assert_eq!(clean_exec("app --a  b"), "app --a b");
    assert_eq!(clean_exec("%%f"), "%");
    assert_eq!(clean_exec("%%ff"), "%f");
    assert_eq!(clean_exec(""), "");
}

#[test]
fn entries_are_found_by_their_names() {
    assert!(is_desktop_file("a.desktop"));
    assert!(!is_desktop_file(".desktop"));
    assert!(!is_desktop_file("a.desktop.bak"));
    assert_eq!(app_dirs(Some("/h")), ["/usr/share/applications", "/h/.local/share/applications"]);
    assert_eq!(app_dirs(None), ["/usr/share/applications"]);
}

#[test]
fn icons_are_looked_for_in_order() {
    let themes = vec!["/t/a".to_string(), "/t/b".to_string()];
    let all = icon_candidates("x", &themes);
    assert_eq!(all.len(), 26);
    assert_eq!(all[0], "/t/a/scalable/apps/x.svg");
    assert_eq!(all[1], "/t/a/scalable/apps/x.png");
    assert_eq!(all[2], "/t/a/48x48/apps/x.svg");
    assert_eq!(all[11], "/t/a/256x256/apps/x.png");
    assert_eq!(all[12], "/t/b/scalable/apps/x.svg");
    assert_eq!(all[25], "/usr/share/pixmaps/x.png");
    assert_eq!(icon_candidates("/abs/y.png", &themes), ["/abs/y.png"]);
    let mut present = vec![false; 26];
    assert_eq!(resolve_icon("x", &themes, &present), None);
    present[25] = true;
    present[13] = true;
    assert_eq!(resolve_icon("x", &themes, &present).as_deref(), Some("/t/b/scalable/apps/x.png"));
    assert_eq!(resolve_icon("/abs/y.png", &themes, &vec![true]).as_deref(), Some("/abs/y.png"));
    assert_eq!(resolve_icon("/abs/y.png", &themes, &vec![false]), None);
    assert_eq!(pick_present(&themes, &vec![false, true]).as_deref(), Some("/t/b"));
}

#[test]
fn an_application_takes_its_icon_along() {
    let e = parse_desktop_file(Some("[Desktop Entry]\nName=A\nExec=a\nIcon=i")).unwrap();
    let a = with_icon(e, Some("/i.png".to_string()));
    assert_eq!((a.name.as_str(), a.run.as_str(), a.terminal, a.icon.as_deref()), ("A", "a", false, Some("/i.png")));
}

#[test]
fn applications_are_sorted_and_listed_once() {
    let mut first = app("Beta");
    first.run = "first".to_string();
    let sorted = sort_apps(vec![first, app("alpha"), app("Gamma"), app("Beta"), app("beta"), app("\u{c9}t\u{e9}")]);
    assert_eq!(names(&sorted), ["alpha", "Beta", "beta", "Gamma", "\u{c9}t\u{e9}"]);
    assert_eq!(sorted[1].run, "first");
}

#[test]
fn the_directories_are_scanned_in_order() {
    let file = |file_name: &str, rest: &str, icon_present: &[bool]| AppFile {
        file_name: file_name.to_string(),
        content: Some(format!("[Desktop Entry]\n{rest}")),
        icon_present: icon_present.to_vec(),
    };
    let mut unreadable = file("x.desktop", "", &[]);
    unreadable.content = None;
    let system = vec![
        file("b.desktop", "Name=Beta\nExec=system", &[]),
        file("c.desktop", "Name=Zed\nExec=z\nIcon=/z.png", &[true]),
        file("note.txt", "Name=Note\nExec=n", &[]),
        unreadable,
        file("h.desktop", "Name=Hidden\nExec=h\nNoDisplay=true", &[]),
    ];
    let user = vec![
        file("b.desktop", "Name=Beta\nExec=user", &[]),
        file("a.desktop", "Name=alpha\nExec=a\nIcon=i", &[false, true]),
        file("d.desktop", "Name=Delta\nExec=d\nIcon=/d.png", &[false]),
    ];
    let apps = scan_apps(&vec![system, vec![], user], &vec!["/t".to_string()]);
    assert_eq!(names(&apps), ["alpha", "Beta", "Delta", "Zed"]);
    assert_eq!(apps[0].icon.as_deref(), Some("/t/scalable/apps/i.png"));
    assert_eq!(apps[1].run, "system");
    assert_eq!(apps[2].icon, None);
    assert_eq!(apps[3].icon.as_deref(), Some("/z.png"));
    assert!(scan_apps(&vec![], &vec![]).is_empty());
}

#[test]
fn a_query_matches_in_any_case() {
    let apps = vec![app("Firefox"), app("Files"), app("Terminal"), app("\u{c9}DITEUR")];
    assert_eq!(visible_indices(&apps, "FI"), [0, 1]);
    assert_eq!(visible_indices(&apps, ""), [0, 1, 2, 3]);
    assert_eq!(visible_indices(&apps, "\u{e9}diteur"), [3]);
    assert_eq!(visible_indices(&apps, "zzz"), Vec::<usize>::new());
    assert_eq!(row_flags(&apps, "term"), [false, false, true, false]);
}

#[test]
fn the_selection_moves_among_what_shows() {
    let visible = vec![1, 4, 6];
    assert_eq!(first_visible(&visible), 1);
    assert_eq!(first_visible(&vec![]), -1);
    assert_eq!(selected_place(&visible, 4), 1);
    assert_eq!(selected_place(&visible, 5), 0);
    assert_eq!(launcher_navigate(&visible, 4, 1), 6);
    assert_eq!(launcher_navigate(&visible, 6, 1), 1);
    assert_eq!(launcher_navigate(&visible, 1, -1), 6);
    assert_eq!(launcher_navigate(&visible, 3, 1), 4);
    assert_eq!(launcher_navigate(&vec![], 3, 1), 3);
    assert_eq!(initial_selection(&vec![]), -1);
    assert_eq!(initial_selection(&vec![app("a")]), 0);
}

#[test]
fn the_first_terminal_that_is_there_is_used() {
    assert_eq!(terminal_candidates(), ["alacritty", "kitty", "foot", "wezterm", "xterm"]);
    assert_eq!(detect_terminal(&vec![false, false, true, true, true]), "foot");
    assert_eq!(detect_terminal(&vec![false; 5]), "xterm");
    assert_eq!(words(&probe_command("foot")), ["sh", "-c", "command -v foot"]);
}

#[test]
fn a_click_launches() {
    let mut apps = vec![app("a"), app("b")];
    apps[1].terminal = true;
    assert_eq!(words(&launch_command(&apps[0], "kitty")), ["sh", "-c", "run-a"]);
    assert_eq!(words(&launch_clicked(&apps, 1, "kitty").unwrap()), ["kitty", "-e", "sh", "-c", "run-b"]);
    assert!(launch_clicked(&apps, -1, "kitty").is_none());
    assert!(launch_clicked(&apps, 2, "kitty").is_none());
}

// Session menu.

#[test]
fn the_menu_runs_what_it_says() {
    let all = actions(Some("c2"));
    let labels: Vec<&str> = all.iter().map(|a| a.label.as_str()).collect();
    assert_eq!(labels, ["Lock", "Suspend", "Reboot", "Shutdown", "Logout"]);
    assert_eq!(all[0].command, "command -v hyprlock >/dev/null 2>&1 && hyprlock || loginctl lock-session");
    assert_eq!(lock_command(), all[0].command);
    assert_eq!(session_command("suspend"), "loginctl suspend 2>&1 || systemctl suspend 2>&1");
    assert_eq!(
        words(&action_clicked(&all, 3).unwrap()),
        ["sh", "-c", "loginctl poweroff 2>&1 || systemctl poweroff 2>&1"]
    );
    assert_eq!(all[4].command, "loginctl terminate-session \"c2\" 2>&1");
    assert_eq!(actions(None)[4].command, "loginctl terminate-session \"self\" 2>&1");
    assert!(action_clicked(&all, -1).is_none());
    assert!(action_clicked(&all, 5).is_none());
}

#[test]
fn the_buttons_form_a_ring() {
    assert_eq!(nav_order(3), [-1, 0, 1, 2]);
    assert_eq!(nav_order(0), [-1]);
    assert_eq!(button_place(5, 0), 1);
    assert_eq!(button_place(5, 9), 0);
    assert_eq!(session_navigate(5, 0, 1), 1);
    assert_eq!(session_navigate(5, 4, 1), -1);
    assert_eq!(session_navigate(5, -1, -1), 4);
    assert_eq!(session_navigate(5, session_navigate(5, 2, 4), -4), 2);
}

// Wallpapers.

fn file(name: &str) -> DirEntry {
    DirEntry { is_file: true, name: Some(name.to_string()), path: Some(format!("/w/{name}")) }
}

#[test]
fn images_are_found_and_sorted() {
    let mut folder = file("folder.png");
    folder.is_file = false;
    let odd = DirEntry { is_file: true, name: None, path: None };
    let found = scan_wallpapers(&vec![file("b.JPG"), file("a.txt"), file("A.webp"), folder, odd, file("noext"), file("c.bmp")]);
    let names: Vec<&str> = found.iter().map(|w| w.name.as_str()).collect();
    assert_eq!(names, ["A.webp", "b.JPG", "c.bmp"]);
    assert_eq!(found[1].path, "/w/b.JPG");
    assert!(has_image_name("x.jpeg"));
    assert!(!has_image_name("x.gif"));
    assert!(!has_image_name(".png"));
}

#[test]
fn the_last_wallpaper_is_known() {
    assert_eq!(wallpaper_dir(None, Some("/h")), "/h/Wallpaper");
    assert_eq!(wallpaper_dir(Some("/other"), Some("/h")), "/other");
    assert_eq!(wallpaper_dir(None, None), "/root/Wallpaper");
    assert_eq!(state_file_path(Some("/h")), "/h/.cache/helium/wallpaper/current");
    assert_eq!(read_saved_wallpaper(Some("/w/a.png\n")).as_deref(), Some("/w/a.png"));
    assert_eq!(read_saved_wallpaper(Some("\n")), None);
    assert_eq!(read_saved_wallpaper(None), None);
    let images: Vec<WallpaperEntry> =
        ["a", "b"].iter().map(|n| WallpaperEntry { name: n.to_string(), path: format!("/w/{n}") }).collect();
    assert_eq!(initial_index(&images, Some("/w/b")), 1);
    assert_eq!(initial_index(&images, Some("/w/c")), -1);
    assert_eq!(initial_index(&images, None), -1);
    assert_eq!(wallpaper_clicked(&images, 1).as_deref(), Some("/w/b"));
    assert_eq!(wallpaper_clicked(&images, 2), None);
    assert_eq!(wallpaper_clicked(&images, -1), None);
    assert!(is_startup(Some("--startup")));
    assert!(!is_startup(Some("startup")));
    assert!(!is_startup(None));
}

fn step_text(s: &Step) -> String {
    match s {
        Step::Run(c) => format!("run {}", words(c).join(" ")),
        Step::Probe(c) => format!("probe {}", words(c).join(" ")),
        Step::Start(c) => format!("start {}", words(c).join(" ")),
        Step::Sleep(ms) => format!("sleep {ms}"),
        Step::Persist(p) => format!("keep {p}"),
        Step::Forget => "forget".to_string(),
    }
}

fn apply(compositor: Compositor, at_startup: bool, ok: &dyn Fn(&str) -> bool) -> Vec<String> {
    let mut applying = Applying::start("/w/a b.png", compositor, at_startup);
    let mut steps = vec![];
    while let Some(step) = applying.next() {
        let text = step_text(&step);
        applying.report(ok(&text));
        steps.push(text);
    }
    steps
}

#[test]
fn hyprland_gets_a_second_chance() {
    let ask = "run hyprctl hyprpaper wallpaper ,/w/a b.png";
    let preload = "run hyprctl hyprpaper preload /w/a b.png";
    assert_eq!(apply(Compositor::Hyprland, false, &|_| true), [ask, "keep /w/a b.png"]);
    assert_eq!(apply(Compositor::Hyprland, false, &|_| false), [ask, preload, ask]);
}

#[test]
fn hyprland_is_waited_for_at_login() {
    let steps = apply(Compositor::Hyprland, true, &|_| false);
    assert_eq!(steps.iter().filter(|s| s.contains(" wallpaper ")).count(), 11);
    assert_eq!(steps.iter().filter(|s| s.contains(" preload ")).count(), 10);
    assert_eq!(steps.iter().filter(|s| *s == "sleep 200").count(), 9);
    assert_eq!(steps.len(), 30);
    assert!(!steps.iter().any(|s| s.starts_with("keep")));
}

#[test]
fn sway_is_asked_once() {
    let ask = "run swaymsg output * bg /w/a b.png fill";
    assert_eq!(apply(Compositor::Sway, true, &|_| true), [ask, "keep /w/a b.png"]);
    assert_eq!(apply(Compositor::Sway, true, &|_| false), [ask]);
}

#[test]
fn other_compositors_use_what_is_installed() {
    let probe = |p: &str| format!("probe sh -c command -v {p}");
    let keep = "keep /w/a b.png".to_string();
    assert_eq!(
        apply(Compositor::Generic, false, &|_| true),
        [probe("swww"), "run swww img /w/a b.png".to_string(), keep.clone()]
    );
    assert_eq!(
        apply(Compositor::Generic, false, &|s| s != "probe sh -c command -v swww" && s != "run pkill swaybg"),
        [
            probe("swww"),
            probe("swaybg"),
            "run pkill swaybg".to_string(),
            "start swaybg -i /w/a b.png -m fill".to_string(),
            keep.clone()
        ]
    );
    assert_eq!(
        apply(Compositor::Generic, false, &|s| s.ends_with(" feh") || s.starts_with("run feh")),
        [probe("swww"), probe("swaybg"), probe("feh"), "run feh --bg-fill /w/a b.png".to_string(), keep]
    );
    assert_eq!(
        apply(Compositor::Generic, false, &|_| false),
        [probe("swww"), probe("swaybg"), probe("feh")]
    );
}

#[test]
fn a_wallpaper_is_cleared() {
    let clear = |compositor, ok: bool| {
        let mut clearing = Clearing::start(compositor);
        let mut steps = vec![];
        while let Some(step) = clearing.next() {
            steps.push(step_text(&step));
            clearing.report(ok);
        }
        steps
    };
    assert_eq!(clear(Compositor::Hyprland, true), ["forget", "run hyprctl hyprpaper unload all"]);
    assert_eq!(clear(Compositor::Sway, false), ["forget", "run swaymsg output * bg none"]);
    assert_eq!(clear(Compositor::Generic, true), ["forget", "probe sh -c command -v swww", "run swww clear"]);
    assert_eq!(clear(Compositor::Generic, false), ["forget", "probe sh -c command -v swww", "run pkill swaybg"]);
    assert_eq!(detect_compositor(true, true), Compositor::Hyprland);
    assert_eq!(detect_compositor(false, true), Compositor::Sway);
    assert_eq!(detect_compositor(false, false), Compositor::Generic);
}

// Bar.

fn net(connected: bool, ssid: Option<&str>, signal_strength: Option<u8>) -> NetInfo {
    NetInfo { connected, ssid: ssid.map(str::to_string), signal_strength }
}

fn settings_text(v: &[Setting]) -> Vec<String> {
    v.iter()
        .map(|s| match s {
            Setting::Text { property, text } => format!("{property}={text}"),
            Setting::Flag { property, on } => format!("{property}={on}"),
        })
        .collect()
}

#[test]
fn the_bar_puts_things_into_words() {
    assert_eq!(percent_label(0), "0%");
    assert_eq!(percent_label(255), "255%");
    assert_eq!(network_label(&net(true, Some("home"), Some(61))), "home  61%");
    assert_eq!(network_label(&net(false, Some("wired"), None)), "wired");
    assert_eq!(network_label(&net(true, None, Some(3))), "connected");
    assert_eq!(network_label(&net(false, None, None)), "offline");
    assert_eq!(volume_label(&VolumeInfo { percent: 50, muted: false }), "50%");
    assert_eq!(volume_label(&VolumeInfo { percent: 50, muted: true }), "muted");
    let weather = WeatherInfo { condition: "Clear".to_string(), temperature: "+20".to_string() };
    assert_eq!(weather_label(&weather), "Clear  +20");
    assert_eq!(settings_text(&weather_settings(&Some(weather))), ["weather_text=Clear  +20"]);
    assert!(weather_settings(&None).is_empty());
}

#[test]
fn the_bar_changes_what_is_known() {
    assert_eq!(settings_text(&cpu_settings(Some(12))), ["cpu_text=12%"]);
    assert!(cpu_settings(None).is_empty());
    assert_eq!(
        settings_text(&status_settings(
            &Some(net(true, Some("home"), None)),
            Some(41),
            &Some(BatteryInfo { percent: 87, charging: true }),
            &Some(VolumeInfo { percent: 60, muted: true }),
        )),
        [
            "net_text=home", "net_connected=true", "ram_text=41%", "bat_text=87%", "bat_charging=true",
            "vol_text=muted", "vol_muted=true"
        ]
    );
    assert!(status_settings(&None, None, &None, &None).is_empty());
    assert_eq!(
        settings_text(&status_settings(&None, Some(1), &None, &Some(VolumeInfo { percent: 2, muted: false }))),
        ["ram_text=1%", "vol_text=2%", "vol_muted=false"]
    );
}

#[test]
fn the_power_profiles_go_around() {
    assert_eq!(next_power_profile(Some("performance")), "balanced");
    assert_eq!(next_power_profile(Some("balanced")), "power-saver");
    assert_eq!(next_power_profile(Some("power-saver")), "performance");
    assert_eq!(next_power_profile(Some("odd")), "performance");
    assert_eq!(next_power_profile(None), "performance");
    assert_eq!(words(&power_profile_command()), ["powerprofilesctl", "get"]);
    assert_eq!(words(&cycle_power_profile(&printed("balanced\n"))), ["powerprofilesctl", "set", "power-saver"]);
    let odd = Some(Output { success: true, stdout: vec![0xff] });
    assert_eq!(words(&cycle_power_profile(&odd)), ["powerprofilesctl", "set", "performance"]);
    assert_eq!(words(&cycle_power_profile(&None)), ["powerprofilesctl", "set", "performance"]);
}

#[test]
fn clicks_run_commands() {
    assert_eq!(words(&toggle_mute()), ["amixer", "set", "Master", "toggle"]);
    let script = [
        ("foot", "foot --app-id=nmtui-float -e nmtui"),
        ("kitty", "kitty --class=nmtui-float -e nmtui"),
        ("alacritty", "alacritty --class=nmtui-float -e nmtui"),
        ("wezterm", "wezterm start --class nmtui-float -- nmtui"),
        ("xterm", "xterm -class nmtui-float -e nmtui"),
    ]
    .iter()
    .map(|(bin, cmd)| format!("command -v {bin} >/dev/null 2>&1 && exec setsid {cmd}"))
    .collect::<Vec<_>>()
    .join(" || ");
    assert_eq!(words(&launch_nmtui()), ["sh", "-c", &script]);
}

fn dispatch_text(d: &Dispatch) -> String {
    match d {
        Dispatch::Hyprland(s) => format!("hyprland {s}"),
        Dispatch::Niri(s) => format!("niri {s}"),
        Dispatch::Nothing => "nothing".to_string(),
    }
}

#[test]
fn workspaces_are_switched() {
    let n = -3;
    assert_eq!(dispatch_text(&switch_workspace(n, true, true)), "hyprland dispatch workspace -3");
    assert_eq!(
        dispatch_text(&switch_workspace(n, false, true)),
        format!(r#"niri {{"Action":{{"FocusWorkspace":{{"reference":{{"Index":{n}}}}}}}}}"#)
    );
    assert_eq!(dispatch_text(&switch_workspace(n, false, false)), "nothing");
    assert_eq!(dispatch_text(&retry_switch(4, Some("ok"))), "nothing");
    let lua = "hyprland dispatch hl.dsp.focus({ workspace = 4 })";
    assert_eq!(dispatch_text(&retry_switch(4, Some("error: x"))), lua);
    assert_eq!(dispatch_text(&retry_switch(4, None)), lua);
    assert_eq!(hypr_socket_path(Some("/run/user/7"), "sig"), "/run/user/7/hypr/sig/.socket.sock");
    assert_eq!(hypr_socket_path(None, "sig"), "/run/user/1000/hypr/sig/.socket.sock");
}

// Overlay.

#[test]
fn the_overlay_reads_what_it_shows() {
    assert_eq!(read_volume(&printed("x: [30%] [off]")), Some((30, true)));
    assert_eq!(read_volume(&None), None);
    assert_eq!(read_power_profile(&printed(" power-saver\n")).as_deref(), Some("power-saver"));
    assert_eq!(read_power_profile(&printed("\n")), None);
    assert_eq!(read_power_profile(&None), None);
}

#[test]
fn the_overlay_appears_and_disappears() {
    let profile = |p: &str| Some(p.to_string());
    let mut osd = Osd::start(Some((50, false)), profile("balanced"));
    let t = osd.tick(Some((50, false)), profile("balanced"), 300);
    assert!(t.volume.is_none() && t.profile.is_none() && t.resize.is_none());

    let t = osd.tick(Some((55, false)), None, 600);
    let shown = t.volume.unwrap();
    assert_eq!((shown.glyph, shown.label.as_str(), shown.level), ("\u{F028}", "Volume 55%", Some(55)));
    assert!(t.profile.is_none());
    assert_eq!(t.resize, Some((OSD_WIDTH, OSD_HEIGHT)));
    assert_eq!(osd.hide_at, Some(600 + VISIBLE_FOR_MS));

    let t = osd.tick(None, profile("balanced"), 3099);
    assert!(t.volume.is_none() && t.resize.is_none());
    let t = osd.tick(Some((55, false)), profile("balanced"), 3100);
    assert_eq!(t.resize, Some((1, 1)));
    assert_eq!(osd.hide_at, None);
    assert_eq!(osd.tick(None, None, 9000).resize, None);
}

#[test]
fn the_overlay_shows_both_changes() {
    let mut osd = Osd::start(None, None);
    let t = osd.tick(Some((40, true)), Some("power-saver".to_string()), 0);
    let volume = t.volume.unwrap();
    assert_eq!((volume.glyph, volume.label.as_str(), volume.level), ("\u{F026}", "Muted", Some(40)));
    let profile = t.profile.unwrap();
    assert_eq!((profile.glyph, profile.label.as_str(), profile.level), ("\u{F013}", "power saver", None));
    assert_eq!(t.resize, Some((260, 64)));
    let t = osd.tick(Some((40, false)), None, 2500);
    assert_eq!(t.resize, Some((260, 64)));
    assert_eq!(osd.hide_at, Some(5000));
}

// Monitors.

#[test]
fn niri_names_one_width() {
    assert_eq!(NIRI_OUTPUTS_REQUEST, "{\"Outputs\":null}");
    let one = " {\"Ok\":{\"Outputs\":{\"eDP-1\":{\"logical\":{\"width\":1920,\"height\":1080}}}}}\n";
    let two = r#"{"Ok":{"Outputs":{"a":{"logical":{"width":1,"height":2}},"b":{"logical":{"width":3,"height":4}}}}}"#;
    assert_eq!(niri_monitor_width(Some(one)), Some(1920));
    assert_eq!(niri_monitor_width(Some(two)), None);
    assert_eq!(niri_monitor_width(Some(r#"{"Ok":{"Outputs":{"a":{"logical":null}}}}"#)), None);
    assert_eq!(niri_monitor_width(Some(r#"{"Err":"x"}"#)), None);
    assert_eq!(niri_monitor_width(Some("oops")), None);
    assert_eq!(niri_monitor_width(None), None);
    let wide = r#"{"Ok":{"Outputs":{"a":{"logical":{"width":4294967297,"height":2}}}}}"#;
    assert_eq!(niri_monitor_width(Some(wide)), Some(1));

    let sizes = niri_monitors(Some(two));
    assert_eq!(sizes.get("a"), Some((1, 2)));
    assert_eq!(sizes.get("b"), Some((3, 4)));
    assert_eq!(sizes.get("c"), None);
    assert_eq!(niri_monitors(Some(one)).get("eDP-1"), Some((1920, 1080)));
    assert!(niri_monitors(Some("{}")).is_empty());

    let size = |rest: &str| {
        let reply = format!(r#"{{"Ok":{{"Outputs":{{"eDP-1":{{{rest}"logical":{{"width":1536,"height":864}}}}}}}}}}"#);
        assert_eq!(niri_monitor_width(Some(&reply)), Some(1536));
        niri_monitors(Some(&reply)).get("eDP-1")
    };
    let modes = r#""modes":[{"width":1920,"height":1080},{"width":1280,"height":720},{"width":640}],"#;
    assert_eq!(size(&format!(r#""current_mode":0,{modes}"#)), Some((1920, 1080)));
    assert_eq!(size(&format!(r#""current_mode":1,{modes}"#)), Some((1280, 720)));
    assert_eq!(size(&format!(r#""current_mode":2,{modes}"#)), Some((1536, 864)));
    assert_eq!(size(&format!(r#""current_mode":3,{modes}"#)), Some((1536, 864)));
    assert_eq!(size(&format!(r#""current_mode":null,{modes}"#)), Some((1536, 864)));
    assert_eq!(size(modes), Some((1536, 864)));
    assert_eq!(size(r#""current_mode":0,"#), Some((1536, 864)));
    assert!(niri_monitors(None).is_empty());
}

#[test]
fn sway_prefers_the_focus() {
    let all = |marks: [&str; 3]| {
        format!(
            "[{{{}\"rect\":{{\"width\":1}}}},{{{}\"rect\":{{\"width\":2}}}},{{{}\"rect\":{{\"width\":3}}}}]",
            marks[0], marks[1], marks[2]
        )
    };
    let width = |marks| sway_monitor_width(Some(all(marks).as_bytes()));
    assert_eq!(width(["", "\"active\":true,", "\"focused\":true,"]), Some(3));
    assert_eq!(width(["\"focused\":false,", "\"active\":true,", "\"active\":true,"]), Some(2));
    assert_eq!(width(["", "", "\"active\":1,"]), Some(1));
    assert_eq!(sway_monitor_width(Some(b"[]")), None);
    assert_eq!(sway_monitor_width(Some(b"{}")), None);
    assert_eq!(sway_monitor_width(Some(b"[{\"focused\":true},{\"rect\":{\"width\":2}}]")), None);
    assert_eq!(sway_monitor_width(None), None);
    let named = br#"[{"name":"A","rect":{"width":5,"height":6}},{"name":"B","rect":{"width":5}}]"#;
    let sizes = sway_monitors(Some(named));
    assert_eq!(sizes.get("A"), Some((5, 6)));
    assert_eq!(sizes.get("B"), None);
    assert!(sway_monitors(None).is_empty());
}

#[test]
fn hyprland_lists_its_monitors() {
    assert_eq!(words(&hyprland_monitors_command()), ["hyprctl", "-j", "monitors"]);
    let sizes = hyprland_monitors(&Some(Output {
        success: false,
        stdout: br#"[{"name":"A","width":1,"height":2},{"name":"A","width":3,"height":4},{"width":9,"height":9}]"#.to_vec(),
    }));
    assert_eq!(sizes.get("A"), Some((3, 4)));
    assert!(hyprland_monitors(&printed("nothing")).is_empty());
    assert!(hyprland_monitors(&None).is_empty());
}

#[test]
fn the_width_has_a_fallback() {
    let m = |primary, width| Monitor { primary, width };
    assert_eq!(primary_monitor_width(Some(1), Some(2), &vec![m(true, 3)]), 1);
    assert_eq!(primary_monitor_width(None, Some(2), &vec![m(true, 3)]), 2);
    assert_eq!(primary_monitor_width(None, None, &vec![m(false, 4), m(true, 3)]), 3);
    assert_eq!(primary_monitor_width(None, None, &vec![m(false, 4), m(false, 3)]), 4);
    assert_eq!(primary_monitor_width(None, None, &vec![]), 1366);
    assert_eq!(bar_width(1366), 1346);
    assert_eq!(bar_width(20), 0);
}

#[test]
fn messages_are_framed() {
    let little = request_in(&ByteOrder::Little, 0x01020304, b"ab");
    assert_eq!(little, b"i3-ipc\x02\0\0\0\x04\x03\x02\x01ab");
    let big = request_in(&ByteOrder::Big, 0x01020304, b"ab");
    assert_eq!(big, b"i3-ipc\0\0\0\x02\x01\x02\x03\x04ab");
    let mut native = b"i3-ipc".to_vec();
    native.extend(0u32.to_ne_bytes());
    native.extend(GET_OUTPUTS.to_ne_bytes());
    assert_eq!(request(GET_OUTPUTS, b""), native);
}

#[test]
fn headers_announce_a_length() {
    let mut header = [0u8; 14];
    header[..6].copy_from_slice(b"i3-ipc");
    header[6..10].copy_from_slice(&[0x78, 0x56, 0x34, 0x12]);
    assert_eq!(reply_length_in(&ByteOrder::Little, &header), Some(0x12345678));
    assert_eq!(reply_length_in(&ByteOrder::Big, &header), Some(0x78563412));
    assert_eq!(reply_length(&header), Some(u32::from_ne_bytes([0x78, 0x56, 0x34, 0x12])));
    header[5] = b'C';
    assert_eq!(reply_length(&header), None);
    assert_eq!(reply_length_in(&ByteOrder::Big, &header), None);
}

// Backdrop.

#[test]
fn the_backdrop_hides_behind_a_wallpaper() {
    assert!(SOURCE.contains("export component Backdrop inherits Window"));
    assert_eq!(wallpaper_file(Some(" /w/a.png\n")).as_deref(), Some("/w/a.png"));
    assert!(has_wallpaper(Some("/w/a.png"), true));
    assert!(!has_wallpaper(Some("/w/a.png"), false));
    assert!(!has_wallpaper(Some(" "), true));
    assert!(!has_wallpaper(None, true));
    let mut last = false;
    assert_eq!(poll(&mut last, false), None);
    assert_eq!(poll(&mut last, true), Some(true));
    assert_eq!(poll(&mut last, true), None);
    assert_eq!(poll(&mut last, false), Some(false));
}

#[test]
fn the_compositor_tells_the_sizes() {
    assert!(matches!(monitor_source(true, true, true), MonitorSource::Hyprland));
    assert!(matches!(monitor_source(false, true, true), MonitorSource::Sway));
    assert!(matches!(monitor_source(false, false, true), MonitorSource::Niri));
    assert!(matches!(monitor_source(false, false, false), MonitorSource::Nobody));
}

#[test]
fn outputs_are_sized_in_a_few_attempts() {
    let mut sizes = Monitors::new();
    sizes.insert("A".to_string(), 1, 2);
    sizes.insert("B".to_string(), 3, 4);
    sizes.insert("A".to_string(), 5, 6);
    let outputs = vec![Some("A".to_string()), None, Some("C".to_string())];
    let mut resizing = Resizing::start();
    let mut attempts = 0;
    loop {
        attempts += 1;
        let attempt = resizing.attempt(&sizes, &outputs);
        assert_eq!(attempt.sizes, [Some((5, 6)), None, None]);
        if !attempt.again {
            break;
        }
    }
    assert_eq!(attempts, RESIZE_MAX_ATTEMPTS);

    let mut resizing = Resizing::start();
    assert!(!resizing.attempt(&sizes, &vec![Some("B".to_string())]).again);
    let mut resizing = Resizing::start();
    assert!(resizing.attempt(&Monitors::new(), &vec![]).again);
    assert!(!resizing.attempt(&sizes, &vec![]).again);
}

// Locker.

#[test]
fn only_an_accepted_password_unlocks() {
    let ask = inquire(Some("u"), Some("secret"));
    match &ask {
        Inquiry::Ask { service, user, password } => {
            assert_eq!((*service, user.as_str(), password.as_str()), ("helium-locker", "u", "secret"));
        }
        Inquiry::Refuse => panic!("nobody was asked"),
    }
    assert!(verify_password(&ask, Outcome::Authenticated));
    assert!(!verify_password(&ask, Outcome::Failed));
    assert!(!verify_password(&ask, Outcome::NoContext));
    for refused in [inquire(None, Some("secret")), inquire(Some("u"), None), inquire(None, None)] {
        assert!(matches!(refused, Inquiry::Refuse));
        assert!(!verify_password(&refused, Outcome::Authenticated));
    }
    assert_eq!((SERVICE, EXIT_DELAY_MS), ("helium-locker", 100));
}
