# helium-shell

The parts of a small Wayland desktop shell: a status bar, an application launcher, a
wallpaper picker, a chat popup for a local model, a session menu, a screen locker, an
on-screen display and a backdrop.

`src/` is the library: what the programs decide, compute, read and write, with
contracts that Verus proves. Every function there works on plain values; what the
system says goes in as an argument, and what is to be done comes out as a value (a
command line, a question, a step, a change of a property). Where questions and answers
alternate, the library holds the state between them: the inquiry about the network
(`network::Scan`), the application of a wallpaper (`wallpaper::Applying`), the overlay
(`osd::Osd`), the sizing of the outputs (`backdrop::Resizing`).

`app/` is the programs around it: windows, sockets, D-Bus, PAM, files and processes. It
is one executable, which tells by the name that it was started under which program it
is. The looks of the bar, the overlay, the chat and the lock screen are read from
`$HELIUM_UI_DIR`, or from `/usr/share/helium-shell/ui` where that is not set.

`tests/` runs the library on concrete values.

| Module | What it holds |
|---|---|
| `text`, `numbers`, `paths`, `sorting`, `navigation`, `slint_text`, `json`, `command` | what the rest is built on |
| `sysinfo`, `weather`, `network`, `hardware` | readings of the system |
| `bar`, `outputs`, `sway` | the bar, the sizes of monitors, Sway's protocol |
| `launcher`, `launcher_source` | the launcher and its window |
| `session` | the session menu |
| `wallpaper`, `wallpaper_source`, `backdrop` | wallpapers, their picker, the backdrop |
| `ollama`, `models` | the chat |
| `osd`, `locker` | the overlay and the locker |

Text is modelled as `Seq<char>`. What `serde_json` and the Unicode tables decide has a
name (`json::document`, `text::lowercase`, `text::utf8_lossy`), and each contract that
depends on it says how.
