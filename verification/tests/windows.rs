//! The sources of the windows, held against the texts that they are meant to be.

use helium_shell::launcher::AppEntry;
use helium_shell::launcher_source;
use helium_shell::session;
use helium_shell::wallpaper::WallpaperEntry;
use helium_shell::wallpaper_source;

fn expected_launcher(rows: &str, init_visible: &str, init_selected: i32, rows_height: u32) -> String {
    let (row_height, search_height, window_width, window_height) = (32, 36, 380, 480);
    format!(
        r#"
component AppRow inherits Rectangle {{
    in property <string> label: "";
    in property <image> icon_img;
    in property <bool> row_visible: true;
    in property <bool> is_selected: false;
    callback clicked;
    height: row_visible ? {row_height}px : 0px;
    background: is_selected ? #1f3319 : #141414;
    border-radius: 6px;
    border-width: is_selected ? 1px : 0px;
    border-color: #76b900;
    clip: true;

    HorizontalLayout {{
        padding-left: 10px;
        padding-right: 10px;
        spacing: 8px;

        Image {{
            source: icon_img;
            width: 18px;
            height: 18px;
        }}

        Text {{
            text: label;
            color: #d4d4d4;
            font-size: 13px;
            font-family: "Space Grotesk";
            overflow: elide;
            vertical-alignment: center;
            horizontal-alignment: left;
        }}
    }}

    TouchArea {{ clicked => {{ root.clicked(); }} }}
}}

export component Launcher inherits Window {{
    width: {window_width}px;
    height: {window_height}px;
    background: transparent;

    callback app_clicked(int);
    callback query_changed(string);
    callback navigate(int);

    in property <[bool]> row_visible: [{init_visible}];
    in property <int> selected_index: {init_selected};

    forward-focus: search_input;

    Rectangle {{
        background: #0d0d0d;
        border-radius: 14px;
        clip: true;

        VerticalLayout {{
            padding: 8px;
            spacing: 4px;

            Rectangle {{
                height: {search_height}px;
                background: #1f1f1f;
                border-radius: 6px;
                clip: true;

                HorizontalLayout {{
                    padding-left: 10px;
                    padding-right: 10px;
                    spacing: 6px;

                    Text {{
                        text: "\u{{F002}}";
                        color: #76b900;
                        font-size: 13px;
                        font-family: "Symbols Nerd Font";
                        vertical-alignment: center;
                    }}

                    search_input := TextInput {{
                        color: #d4d4d4;
                        font-size: 13px;
                        font-family: "Space Grotesk";
                        vertical-alignment: center;
                        single-line: true;

                        edited => {{ query_changed(self.text); }}
                        accepted => {{ app_clicked(root.selected_index); }}
                        key-pressed(event) => {{
                            if (event.text == Key.DownArrow) {{
                                navigate(1);
                                accept
                            }} else if (event.text == Key.UpArrow) {{
                                navigate(-1);
                                accept
                            }} else if (event.text == Key.Return || event.text == "\u{{000d}}") {{
                                // layer-shika-adapters hands us xkbcommon's raw UTF-8 for
                                // Return ("\r", 0x0D) instead of routing it through its
                                // named-key table, so it never matches Slint's own
                                // `Key.Return` (0x0A) and TextInput's built-in `accepted`
                                // callback above never fires. Handle it here directly.
                                app_clicked(root.selected_index);
                                accept
                            }} else if (event.text == Key.Escape) {{
                                app_clicked(-1);
                                accept
                            }} else {{
                                reject
                            }}
                        }}
                    }}
                }}
            }}

            Flickable {{
                vertical-stretch: 1;
                viewport-height: {rows_height}px;

                VerticalLayout {{
                    spacing: 2px;
{rows}
                }}
            }}
        }}
    }}
}}
"#
    )
}

fn app(name: &str, icon: Option<&str>) -> AppEntry {
    AppEntry { name: name.to_string(), run: "run".to_string(), terminal: false, icon: icon.map(str::to_string) }
}

#[test]
fn the_launcher_lists_its_rows() {
    let apps = vec![app("Say \"hi\"", None), app("C:\\tool", Some("/usr/share/pixmaps/t\"x.png"))];
    let rows = [
        r#"        AppRow { label: "Say \"hi\""; row_visible: root.row_visible[0]; is_selected: root.selected_index == 0; clicked => { app_clicked(0); } }"#,
        r#"        AppRow { icon_img: @image-url("/usr/share/pixmaps/t\"x.png"); label: "C:\\tool"; row_visible: root.row_visible[1]; is_selected: root.selected_index == 1; clicked => { app_clicked(1); } }"#,
        "",
    ]
    .join("\n");
    assert_eq!(launcher_source::build_slint_source(&apps), expected_launcher(&rows, "true, true", 0, 68));
}

#[test]
fn the_launcher_opens_without_applications() {
    assert_eq!(launcher_source::build_slint_source(&vec![]), expected_launcher("", "", -1, 0));
}

fn expected_session(buttons: &str) -> String {
    let (window_width, window_height) = (500, 120);
    format!(
        r#"
component ActionButton inherits Rectangle {{
    in property <string> icon: "";
    in property <string> label: "";
    in property <bool> is_selected: false;
    callback clicked;

    width: 70px;
    background: is_selected ? #1f3319 : #141414;
    border-radius: 8px;
    border-width: is_selected ? 1px : 0px;
    border-color: #76b900;

    VerticalLayout {{
        alignment: center;
        spacing: 6px;

        Text {{
            text: icon;
            color: #d4d4d4;
            font-size: 20px;
            font-family: "Symbols Nerd Font";
            horizontal-alignment: center;
        }}

        Text {{
            text: label;
            color: #999;
            font-size: 10px;
            font-family: "Space Grotesk";
            horizontal-alignment: center;
        }}
    }}

    TouchArea {{ clicked => {{ root.clicked(); }} }}
}}

export component SessionMenu inherits Window {{
    width: {window_width}px;
    height: {window_height}px;
    background: transparent;

    callback action_clicked(int);
    callback navigate(int);

    in property <int> selected_index: 0;

    forward-focus: nav_scope;

    Rectangle {{
        background: #0d0d0d;
        border-radius: 14px;
        clip: true;

        nav_scope := FocusScope {{
            key-pressed(event) => {{
                if (event.text == Key.RightArrow) {{
                    navigate(1);
                    accept
                }} else if (event.text == Key.LeftArrow) {{
                    navigate(-1);
                    accept
                }} else if (event.text == Key.Return || event.text == "\u{{000d}}") {{
                    // See helium-launcher.rs's key-pressed comment: layer-shika-adapters
                    // delivers raw xkbcommon UTF-8 ("\r") for Return instead of Slint's
                    // own `Key.Return` ("\n"), so both need to be checked.
                    action_clicked(root.selected_index);
                    accept
                }} else if (event.text == Key.Escape) {{
                    action_clicked(-1);
                    accept
                }} else {{
                    reject
                }}
            }}

            HorizontalLayout {{
                padding: 8px;
                spacing: 8px;
                alignment: center;

                ActionButton {{ icon: "\u{{F00D}}"; label: "Cancel"; is_selected: root.selected_index == -1; clicked => {{ action_clicked(-1); }} }}
{buttons}
            }}
        }}
    }}
}}
"#
    )
}

#[test]
fn the_session_menu_lists_its_buttons() {
    let actions = session::actions(Some("7"));
    let mut buttons = String::new();
    for (i, (icon, label)) in [
        ("\u{F023}", "Lock"),
        ("\u{F186}", "Suspend"),
        ("\u{F021}", "Reboot"),
        ("\u{F011}", "Shutdown"),
        ("\u{F08B}", "Logout"),
    ]
    .iter()
    .enumerate()
    {
        buttons.push_str(&format!(
            r#"
                ActionButton {{ icon: "{}"; label: "{}"; is_selected: root.selected_index == {i}; clicked => {{ action_clicked({i}); }} }}"#,
            icon, label
        ));
    }
    assert_eq!(session::build_slint_source(&actions), expected_session(&buttons));
}

fn expected_cell_component() -> String {
    let (cell_w, cell_h) = (160, 110);
    format!(
        r#"
component WallpaperCell inherits Rectangle {{
    in property <image> thumb;
    in property <string> label;
    in property <bool> is_current: false;
    callback clicked;

    width: {cell_w}px;
    height: {cell_h}px;
    border-radius: 8px;
    background: #141414;
    border-width: is_current ? 3px : 1px;
    border-color: is_current ? #76b900 : #333333;
    clip: true;

    Image {{
        x: 3px;
        y: 3px;
        width: parent.width - 6px;
        height: parent.height - 6px;
        source: thumb;
        image-fit: cover;
    }}

    Rectangle {{
        x: 3px;
        y: parent.height - 22px;
        width: parent.width - 6px;
        height: 19px;
        background: #000000aa;

        Text {{
            x: 6px;
            width: parent.width - 12px;
            text: label;
            color: #d4d4d4;
            font-size: 10px;
            font-family: "Space Grotesk";
            overflow: elide;
            vertical-alignment: center;
        }}
    }}

    TouchArea {{ clicked => {{ root.clicked(); }} }}
}}
"#
    )
}

fn expected_wallpaper(
    cell_component: &str,
    cells: &str,
    current_index: i32,
    count: usize,
    content_height: u32,
    empty: bool,
    empty_message: &str,
) -> String {
    let (window_width, window_height, padding, header_height, double_padding) = (720, 520, 14, 40, 28);
    format!(
        r#"
{cell_component}
export component Wallpaper inherits Window {{
    width: {window_width}px;
    height: {window_height}px;
    background: transparent;

    callback wallpaper_clicked(int);
    callback clear_clicked();
    callback close_requested();

    in property <int> current_index: {current_index};

    forward-focus: scope;

    Rectangle {{
        background: #0d0d0d;
        border-radius: 14px;
        clip: true;

        scope := FocusScope {{
            key-pressed(event) => {{
                if (event.text == Key.Escape) {{
                    close_requested();
                    accept
                }} else {{
                    reject
                }}
            }}

            VerticalLayout {{
                HorizontalLayout {{
                    height: {header_height}px;
                    padding-left: {padding}px;
                    padding-right: {padding}px;
                    spacing: 8px;

                    Text {{
                        text: "Wallpapers";
                        color: #d4d4d4;
                        font-size: 15px;
                        font-family: "Space Grotesk";
                        vertical-alignment: center;
                    }}

                    Rectangle {{ horizontal-stretch: 1; }}

                    Text {{
                        text: "{count} wallpapers";
                        color: #999999;
                        font-size: 11px;
                        font-family: "Space Grotesk";
                        vertical-alignment: center;
                    }}

                    Rectangle {{
                        width: 60px;
                        height: 26px;
                        border-radius: 6px;
                        background: clear_ta.has-hover ? #2a1414 : transparent;
                        border-width: 1px;
                        border-color: #f7768e;

                        Text {{
                            text: "Clear";
                            color: #f7768e;
                            font-size: 11px;
                            font-family: "Space Grotesk";
                            horizontal-alignment: center;
                            vertical-alignment: center;
                        }}

                        clear_ta := TouchArea {{ clicked => {{ clear_clicked(); }} }}
                    }}
                }}

                Flickable {{
                    vertical-stretch: 1;
                    viewport-width: {window_width}px;
                    viewport-height: {content_height}px;

{cells}
                    Text {{
                        visible: {empty};
                        x: {padding}px;
                        y: {padding}px;
                        width: {window_width}px - {double_padding}px;
                        text: "{empty_message}";
                        color: #999999;
                        font-size: 12px;
                        font-family: "Space Grotesk";
                        horizontal-alignment: center;
                    }}
                }}
            }}
        }}
    }}
}}
"#
    )
}

fn image(name: &str) -> WallpaperEntry {
    WallpaperEntry { name: name.to_string(), path: format!("/w/{name}") }
}

#[test]
fn the_picker_shows_a_grid() {
    let images: Vec<WallpaperEntry> = ["a.png", "b.png", "c.png", "d.png", "e\"f.png"].iter().map(|n| image(n)).collect();
    let mut cells = String::new();
    for (i, (x, y, name)) in [
        (14, 14, "a.png"),
        (184, 14, "b.png"),
        (354, 14, "c.png"),
        (524, 14, "d.png"),
        (14, 134, "e\\\"f.png"),
    ]
    .iter()
    .enumerate()
    {
        cells.push_str(&format!(
            r#"        WallpaperCell {{ x: {x}px; y: {y}px; thumb: @image-url("/w/{name}"); label: "{name}"; is_current: root.current_index == {i}; clicked => {{ wallpaper_clicked({i}); }} }}"#
        ));
        cells.push('\n');
    }
    assert_eq!(wallpaper_source::columns(), 4);
    assert_eq!(
        wallpaper_source::build_slint_source(&images, 2, "/w"),
        expected_wallpaper(&expected_cell_component(), &cells, 2, 5, 258, false, "No images found in\\n/w"),
    );
}

#[test]
fn the_picker_says_where_it_looked() {
    assert_eq!(
        wallpaper_source::build_slint_source(&vec![], -1, "/my \"w\""),
        expected_wallpaper("", "", -1, 0, 138, true, r#"No images found in\n/my \"w\""#),
    );
}

#[test]
fn windows_that_are_too_high_are_told_apart() {
    assert!(launcher_source::rows_fit(0));
    assert!(launcher_source::rows_fit(126322567));
    assert!(!launcher_source::rows_fit(126322568));
    assert!(wallpaper_source::grid_fits(0));
    assert!(wallpaper_source::grid_fits(143165572));
    assert!(!wallpaper_source::grid_fits(143165573));
}
