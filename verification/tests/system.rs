//! Processor, memory, battery, volume, weather, network and graphics.

use helium_shell::command::{command, shell, CommandLine, Output};
use helium_shell::hardware::{
    dedicated_in, detect_gpu_tier, devices_command, nvidia_command, nvidia_vram_mb, other_dedicated_gpu_present,
    size_hint, GpuTier,
};
use helium_shell::network::{ssid_text, status as network_status, unwrapped, Answer, Property, Query, Scan};
use helium_shell::sysinfo::{
    battery, cpu_reading_fits, cpu_times, cpu_usage_percent, memory_values, ram_reading_fits, ram_usage_percent,
    volume, volume_command, volume_of, PowerSupply,
};
use helium_shell::weather::{read_report, status as weather_status, weather_command, POLL_INTERVAL_SECONDS};

fn printed(text: &str) -> Option<Output> {
    Some(Output { success: true, stdout: text.as_bytes().to_vec() })
}

fn failed(text: &str) -> Option<Output> {
    Some(Output { success: false, stdout: text.as_bytes().to_vec() })
}

fn words(c: &CommandLine) -> Vec<&str> {
    let mut all = vec![c.program.as_str()];
    all.extend(c.args.iter().map(|a| a.as_str()));
    all
}

#[test]
fn commands_keep_their_arguments_in_order() {
    assert_eq!(words(&command("a").arg("b").arg("c d")), ["a", "b", "c d"]);
    assert_eq!(words(&shell("x | y")), ["sh", "-c", "x | y"]);
    assert_eq!(words(&volume_command()), ["amixer", "sget", "Master"]);
    assert_eq!(
        words(&weather_command()),
        ["curl", "-s", "--max-time", "5", "https://wttr.in/?format=%C+%t"]
    );
    assert_eq!(
        words(&nvidia_command()),
        ["nvidia-smi", "--query-gpu=memory.total", "--format=csv,noheader,nounits"]
    );
    assert_eq!(words(&devices_command()), ["lspci"]);
}

#[test]
fn the_load_is_a_difference_of_two_readings() {
    let mut prev = None;
    assert_eq!(cpu_usage_percent(Some("cpu  100 0 100 700 100 0 0\ncpu0 1"), &mut prev), None);
    assert_eq!(prev, Some((1000, 800)));
    assert_eq!(cpu_usage_percent(Some("cpu  175 0 150 850 125 0 0\n"), &mut prev), Some(41));
    assert_eq!(prev, Some((1300, 975)));
}

#[test]
fn the_load_needs_time_to_pass() {
    let mut prev = Some((1000, 800));
    assert_eq!(cpu_usage_percent(Some("cpu 100 0 100 700 100"), &mut prev), None);
    assert_eq!(prev, Some((1000, 800)));
    assert_eq!(cpu_usage_percent(Some("cpu 10 0 10 70 10"), &mut prev), None);
    assert_eq!(prev, Some((100, 80)));
}

#[test]
fn the_load_is_at_most_everything() {
    let mut prev = Some((0, 500));
    assert_eq!(cpu_usage_percent(Some("cpu 100 0 0 100"), &mut prev), Some(100));
    let mut prev = Some((0, 0));
    assert_eq!(cpu_usage_percent(Some("cpu 0 0 0 100 100"), &mut prev), Some(0));
}

#[test]
fn an_unreadable_load_changes_nothing() {
    let mut prev = Some((5, 5));
    assert_eq!(cpu_usage_percent(None, &mut prev), None);
    assert_eq!(cpu_usage_percent(Some(""), &mut prev), None);
    assert_eq!(cpu_usage_percent(Some("cpu 1 2 3"), &mut prev), None);
    assert_eq!(cpu_usage_percent(Some("\ncpu 1 2 3 4"), &mut prev), None);
    assert_eq!(prev, Some((5, 5)));
    assert_eq!(cpu_times("cpu 1 x 3 -4 5 6"), [1, 3, 5, 6]);
}

#[test]
fn readings_that_do_not_fit_are_told_apart() {
    let big = "cpu 18446744073709551615 1 0 0";
    assert!(!cpu_reading_fits(Some(big), None));
    assert!(cpu_reading_fits(Some("cpu 18446744073709551615 0 0 0"), None));
    assert!(!cpu_reading_fits(Some("cpu 18446744073709551615 0 0 0"), Some((0, 0))));
    assert!(cpu_reading_fits(Some("cpu 18446744073709551615 1 0"), None));
    assert!(cpu_reading_fits(None, None));
    assert!(!ram_reading_fits(Some("MemTotal: 18446744073709551615\nMemAvailable: 0")));
    assert!(ram_reading_fits(Some("MemTotal: 18446744073709551615\nMemAvailable: 18446744073709551615")));
    assert!(ram_reading_fits(None));
}

#[test]
fn the_use_of_memory_is_a_share() {
    let info = "MemTotal:       16000 kB\nMemFree:  1 kB\nMemAvailable:    9440 kB\n";
    assert_eq!(ram_usage_percent(Some(info)), Some(41));
    assert_eq!(memory_values(info), Some((16000, 9440)));
    assert_eq!(ram_usage_percent(Some("MemTotal: 10\nMemAvailable: 20")), Some(0));
    assert_eq!(ram_usage_percent(Some("MemTotal: 10\nMemAvailable: 0")), Some(100));
}

#[test]
fn the_use_of_memory_may_be_unknown() {
    assert_eq!(ram_usage_percent(None), None);
    assert_eq!(ram_usage_percent(Some("MemTotal: 0\nMemAvailable: 0")), None);
    assert_eq!(ram_usage_percent(Some("MemTotal: 10")), None);
    assert_eq!(ram_usage_percent(Some("MemTotal:\nMemTotal: 10\nMemAvailable: 5")), None);
    assert_eq!(ram_usage_percent(Some("MemTotal: 10\nMemTotal: x\nMemAvailable: 5")), None);
    assert_eq!(ram_usage_percent(Some("MemTotal: x\nMemTotal: 10\nMemAvailable: 5")), Some(50));
}

fn supply(kind: Option<&str>, capacity: Option<&str>, status: Option<&str>) -> PowerSupply {
    PowerSupply {
        kind: kind.map(str::to_string),
        capacity: capacity.map(str::to_string),
        status: status.map(str::to_string),
    }
}

#[test]
fn the_first_battery_counts() {
    let mains = || supply(Some("Mains\n"), None, None);
    let found = battery(&vec![
        mains(),
        supply(Some("Battery\n"), Some("87\n"), Some("Charging\n")),
        supply(Some("Battery\n"), Some("12\n"), None),
    ]);
    assert!(matches!(&found, Some(b) if b.percent == 87 && b.charging));
    let found = battery(&vec![supply(Some("Battery"), Some("5"), Some("Not charging"))]);
    assert!(matches!(&found, Some(b) if b.percent == 5 && !b.charging));
    let found = battery(&vec![supply(Some("Battery"), Some("5"), None)]);
    assert!(matches!(&found, Some(b) if !b.charging));
    let found = battery(&vec![supply(None, None, None), supply(Some("Battery\n"), Some("87\n"), Some("Charging\n"))]);
    assert!(matches!(&found, Some(b) if b.percent == 87 && b.charging));
    assert!(battery(&vec![supply(None, Some("50"), None)]).is_none());
    assert!(battery(&vec![mains()]).is_none());
    assert!(battery(&vec![]).is_none());
}

#[test]
fn an_unreadable_battery_is_none() {
    let good = || supply(Some("Battery"), Some("50"), None);
    assert!(battery(&vec![supply(Some("Battery"), None, None), good()]).is_none());
    assert!(battery(&vec![supply(Some("Battery"), Some("256"), None), good()]).is_none());
}

#[test]
fn the_volume_stands_in_brackets() {
    let text = "Simple mixer control 'Master',0\n  Front Left: Playback 32768 [50%] [on]\n  Front Right: [60%] [off]\n";
    assert!(matches!(volume_of(text), Some(v) if v.percent == 50 && !v.muted));
    assert!(matches!(volume(&failed(text)), Some(v) if v.percent == 50));
    assert!(matches!(volume_of("Mono: Playback 0 [0%] [-46.50dB] [off]"), Some(v) if v.percent == 0 && v.muted));
}

#[test]
fn the_volume_may_be_unknown() {
    assert!(volume(&None).is_none());
    assert!(volume_of("no percentage").is_none());
    assert!(volume_of("50%").is_none());
    assert!(volume_of("[300%]").is_none());
    assert!(volume_of("x%\n[50%]").is_none());
    let odd = Some(Output { success: true, stdout: vec![0xff, b'[', b'7', b'%', b']'] });
    assert!(matches!(volume(&odd), Some(v) if v.percent == 7));
}

#[test]
fn the_weather_ends_in_the_temperature() {
    let w = weather_status(&printed("Partly  cloudy  +20\u{b0}C\n"));
    assert!(matches!(&w, Some(w) if w.condition == "Partly cloudy" && w.temperature == "+20\u{b0}C"));
    assert!(weather_status(&failed("Clear +20")).is_none());
    assert!(weather_status(&None).is_none());
    assert!(read_report("").is_none());
    assert!(read_report(" +20 ").is_none());
    assert_eq!(POLL_INTERVAL_SECONDS, 900);
}

fn run(answers: &dyn Fn(&str, &str, &str) -> Answer, devices: &[&str]) -> (Scan, usize) {
    let mut scan = Scan::start();
    let mut asked = 0;
    while let Some(query) = scan.query() {
        asked += 1;
        let answer = match &query {
            Query::Devices => Answer::Devices(devices.iter().map(|d| d.to_string()).collect()),
            Query::Get { path, iface, prop } => answers(path, iface, prop),
        };
        scan.answer(answer);
    }
    (scan, asked)
}

fn word(n: u32) -> Answer {
    Answer::Property(Property::Variant(Box::new(Property::Word(n))))
}

fn bytes(text: &[u8]) -> Property {
    Property::Array(text.iter().map(|b| Some(*b)).collect())
}

#[test]
fn the_network_has_a_name_and_a_strength() {
    let bus = |path: &str, iface: &str, prop: &str| match (path, iface.rsplit('.').next(), prop) {
        ("/org/freedesktop/NetworkManager", Some("NetworkManager"), "State") => word(70),
        ("/d/1", Some("Device"), "DeviceType") => word(1),
        ("/d/1", Some("Device"), "State") => word(100),
        ("/d/2", Some("Device"), "DeviceType") => Answer::Property(Property::Word(2)),
        ("/d/2", Some("Wireless"), "ActiveAccessPoint") => Answer::Property(Property::Path("/ap/9".to_string())),
        ("/ap/9", Some("AccessPoint"), "Ssid") => Answer::Property(bytes(b"home\0")),
        ("/ap/9", Some("AccessPoint"), "Strength") => Answer::Property(Property::Byte(61)),
        _ => Answer::Failed,
    };
    let (scan, asked) = run(&bus, &["/d/0", "/d/1", "/d/2"]);
    let info = network_status(&scan).unwrap();
    assert!(info.connected);
    assert_eq!(info.ssid.as_deref(), Some("home"));
    assert_eq!(info.signal_strength, Some(61));
    assert_eq!(asked, 2 + 1 + 2 + 4);
}

#[test]
fn a_cable_stands_in_for_a_name() {
    let bus = |path: &str, _: &str, prop: &str| match (path, prop) {
        ("/d/1", "DeviceType") => word(1),
        ("/d/1", "State") => word(100),
        ("/d/2", "DeviceType") => word(2),
        ("/d/2", "ActiveAccessPoint") => Answer::Property(Property::Path("/".to_string())),
        (_, "State") => word(20),
        _ => Answer::Failed,
    };
    let (scan, _) = run(&bus, &["/d/1", "/d/2"]);
    let info = network_status(&scan).unwrap();
    assert!(!info.connected);
    assert_eq!(info.ssid.as_deref(), Some("wired"));
    assert_eq!(info.signal_strength, None);
}

#[test]
fn without_an_answer_there_is_no_status() {
    let (scan, asked) = run(&|_, _, _| Answer::Failed, &["/d/1"]);
    assert!(network_status(&scan).is_none());
    assert_eq!(asked, 1);
    let mut scan = Scan::start();
    scan.answer(word(70));
    assert!(network_status(&scan).is_none());
    scan.answer(Answer::Failed);
    assert!(scan.query().is_none());
    assert!(network_status(&scan).is_none());
}

#[test]
fn names_of_networks_need_not_be_text() {
    assert_eq!(ssid_text(&vec![Some(b'a'), None, Some(0xff), Some(b'b'), Some(0)]), "a\u{FFFD}b");
    assert!(matches!(unwrapped(Property::Variant(Box::new(Property::Byte(3)))), Property::Byte(3)));
    assert!(matches!(unwrapped(Property::Word(3)), Property::Word(3)));
}

#[test]
fn the_first_card_counts() {
    assert_eq!(nvidia_vram_mb(&printed("8192\n24576\n")), Some(8192));
    assert_eq!(nvidia_vram_mb(&printed(" 6144 \n")), Some(6144));
    assert_eq!(nvidia_vram_mb(&failed("8192\n")), None);
    assert_eq!(nvidia_vram_mb(&printed("")), None);
    assert_eq!(nvidia_vram_mb(&printed("\n8192")), None);
    assert_eq!(nvidia_vram_mb(&None), None);
}

#[test]
fn integrated_graphics_do_not_count() {
    let lines = |l: &str| dedicated_in(&vec![l.to_string()]);
    assert!(!lines("00:02.0 VGA compatible controller: Intel UHD Graphics 620"));
    assert!(!lines("00:02.0 VGA compatible controller: Intel Iris Xe"));
    assert!(!lines("04:00.0 VGA compatible controller: AMD Radeon Vega Graphics"));
    assert!(lines("03:00.0 VGA compatible controller: AMD Radeon RX 6600 Graphics"));
    assert!(lines("01:00.0 3D controller: Some Card"));
    assert!(!lines("01:00.0 Audio device: Radeon RX"));
    assert!(other_dedicated_gpu_present(&printed("x\n01:00.0 3D controller: Some Card\n")));
    assert!(!other_dedicated_gpu_present(&failed("01:00.0 3D controller: Some Card\n")));
    assert!(!other_dedicated_gpu_present(&None));
}

#[test]
fn the_class_prefers_a_known_size() {
    assert_eq!(detect_gpu_tier(Some(8192), true), GpuTier::Nvidia { vram_mb: 8192 });
    assert_eq!(detect_gpu_tier(None, true), GpuTier::OtherDedicated);
    assert_eq!(detect_gpu_tier(None, false), GpuTier::NoneDedicated);
}

fn expected_hint(vram_mb: u64) -> String {
    let gb = vram_mb as f64 / 1024.0;
    let range = if gb < 4.0 {
        "1-2B (ex: qwen2.5:1.5b)"
    } else if gb < 8.0 {
        "3B (ex: llama3.2:3b)"
    } else if gb < 12.0 {
        "7-8B (ex: llama3.1:8b)"
    } else if gb < 20.0 {
        "13-14B (ex: qwen2.5:14b)"
    } else if gb < 40.0 {
        "27-32B (ex: qwen2.5:32b)"
    } else {
        "70B (ex: llama3.1:70b)"
    };
    format!("NVIDIA GPU detected (~{gb:.0}GB VRAM) \u{2014} models up to ~{range} should run well.")
}

#[test]
fn the_hint_names_the_nearest_gigabyte() {
    let mut sizes: Vec<u64> = vec![0, 511, 512, 513, 1535, 1536, 1537, 4095, 4096, 8191, 8192, 12287, 12288, 20479];
    sizes.extend([20480, 40959, 40960, 81920, 1 << 53, (1 << 53) + 1, (1 << 53) + 3, u64::MAX, u64::MAX - 1024]);
    for shift in 10..64 {
        for delta in [-1537i64, -513, -512, -511, -1, 0, 1, 511, 512, 513, 1536] {
            sizes.push((1u64 << shift).wrapping_add(delta as u64));
        }
    }
    for mb in sizes {
        assert_eq!(size_hint(&GpuTier::Nvidia { vram_mb: mb }), expected_hint(mb), "{mb}");
    }
}

#[test]
fn the_hint_does_without_a_size() {
    assert_eq!(
        size_hint(&GpuTier::OtherDedicated),
        "Dedicated GPU detected (non-NVIDIA) \u{2014} exact VRAM unknown; ~7B models are usually a good starting point."
    );
    assert_eq!(
        size_hint(&GpuTier::NoneDedicated),
        "No dedicated GPU detected \u{2014} small models (\u{2264}3B, e.g. qwen2.5:1.5b) run better on CPU."
    );
}
