//! The Slint source of the launcher's window.

use crate::launcher::{app_views, AppEntry, AppView};
use crate::numbers::{decimal, decimal_text};
use crate::slint_text::{escape_slint_string, escaped};
use crate::text::{concat3, join, joined, owned, views};
use vstd::prelude::*;

verus! {

pub const ROW_HEIGHT: u32 = 32;

pub const SEARCH_HEIGHT: u32 = 36;

pub const WINDOW_WIDTH: u32 = 380;

pub const WINDOW_HEIGHT: u32 = 480;

pub const UNTIL_ROW_HEIGHT: &'static str = r#"
component AppRow inherits Rectangle {
    in property <string> label: "";
    in property <image> icon_img;
    in property <bool> row_visible: true;
    in property <bool> is_selected: false;
    callback clicked;
    height: row_visible ? "#;

pub const UNTIL_WINDOW_WIDTH: &'static str = r#"px : 0px;
    background: is_selected ? #1f3319 : #141414;
    border-radius: 6px;
    border-width: is_selected ? 1px : 0px;
    border-color: #76b900;
    clip: true;

    HorizontalLayout {
        padding-left: 10px;
        padding-right: 10px;
        spacing: 8px;

        Image {
            source: icon_img;
            width: 18px;
            height: 18px;
        }

        Text {
            text: label;
            color: #d4d4d4;
            font-size: 13px;
            font-family: "Space Grotesk";
            overflow: elide;
            vertical-alignment: center;
            horizontal-alignment: left;
        }
    }

    TouchArea { clicked => { root.clicked(); } }
}

export component Launcher inherits Window {
    width: "#;

pub const UNTIL_WINDOW_HEIGHT: &'static str = r#"px;
    height: "#;

pub const UNTIL_VISIBLE: &'static str = r#"px;
    background: transparent;

    callback app_clicked(int);
    callback query_changed(string);
    callback navigate(int);

    in property <[bool]> row_visible: ["#;

pub const UNTIL_SELECTED: &'static str = r#"];
    in property <int> selected_index: "#;

pub const UNTIL_SEARCH_HEIGHT: &'static str = r#";

    forward-focus: search_input;

    Rectangle {
        background: #0d0d0d;
        border-radius: 14px;
        clip: true;

        VerticalLayout {
            padding: 8px;
            spacing: 4px;

            Rectangle {
                height: "#;

pub const UNTIL_ROWS_HEIGHT: &'static str = r#"px;
                background: #1f1f1f;
                border-radius: 6px;
                clip: true;

                HorizontalLayout {
                    padding-left: 10px;
                    padding-right: 10px;
                    spacing: 6px;

                    Text {
                        text: "\u{F002}";
                        color: #76b900;
                        font-size: 13px;
                        font-family: "Symbols Nerd Font";
                        vertical-alignment: center;
                    }

                    search_input := TextInput {
                        color: #d4d4d4;
                        font-size: 13px;
                        font-family: "Space Grotesk";
                        vertical-alignment: center;
                        single-line: true;

                        edited => { query_changed(self.text); }
                        accepted => { app_clicked(root.selected_index); }
                        key-pressed(event) => {
                            if (event.text == Key.DownArrow) {
                                navigate(1);
                                accept
                            } else if (event.text == Key.UpArrow) {
                                navigate(-1);
                                accept
                            } else if (event.text == Key.Return || event.text == "\u{000d}") {
                                // layer-shika-adapters hands us xkbcommon's raw UTF-8 for
                                // Return ("\r", 0x0D) instead of routing it through its
                                // named-key table, so it never matches Slint's own
                                // `Key.Return` (0x0A) and TextInput's built-in `accepted`
                                // callback above never fires. Handle it here directly.
                                app_clicked(root.selected_index);
                                accept
                            } else if (event.text == Key.Escape) {
                                app_clicked(-1);
                                accept
                            } else {
                                reject
                            }
                        }
                    }
                }
            }

            Flickable {
                vertical-stretch: 1;
                viewport-height: "#;

pub const UNTIL_ROWS: &'static str = r#"px;

                VerticalLayout {
                    spacing: 2px;
"#;

pub const AFTER_ROWS: &'static str = r#"
                }
            }
        }
    }
}
"#;

/// The part of a row that shows the icon; nothing where there is none.
pub open spec fn icon_part(icon: Option<Seq<char>>) -> Seq<char> {
    match icon {
        Some(path) => "icon_img: @image-url(\""@ + escaped(path, false) + "\"); "@,
        None => Seq::empty(),
    }
}

/// The row of the application at `i`.
pub open spec fn row(app: AppView, i: nat) -> Seq<char> {
    "        AppRow { "@ + icon_part(app.icon) + "label: \""@ + escaped(app.name, false)
        + "\"; row_visible: root.row_visible["@ + decimal(i)
        + "]; is_selected: root.selected_index == "@ + decimal(i) + "; clicked => { app_clicked("@
        + decimal(i) + "); } }\n"@
}

/// The rows of all applications.
pub open spec fn rows(apps: Seq<AppView>) -> Seq<char>
    decreases apps.len(),
{
    if apps.len() == 0 {
        Seq::empty()
    } else {
        rows(apps.drop_last()) + row(apps.last(), (apps.len() - 1) as nat)
    }
}

/// The height of `n` rows with the gaps between them. The count is taken in 32
/// bits.
pub open spec fn rows_height(n: nat) -> nat {
    n % 0x1_0000_0000 * (ROW_HEIGHT + 2) as nat
}

/// Whether the height of `n` rows fits in 32 bits, as `build_slint_source` needs it.
pub fn rows_fit(n: usize) -> (r: bool)
    ensures
        r == (rows_height(n as nat) <= u32::MAX),
{
    let count: u64 = n as u64 % 0x1_0000_0000;
    assert(count * (ROW_HEIGHT + 2) == count * 34) by (nonlinear_arith)
        requires
            ROW_HEIGHT == 32,
    ;
    count * 34 <= 0xFFFF_FFFF
}

/// The source of the window that lists `apps`.
pub open spec fn source(apps: Seq<AppView>) -> Seq<char> {
    UNTIL_ROW_HEIGHT@
        + decimal(ROW_HEIGHT as nat)
        + UNTIL_WINDOW_WIDTH@
        + decimal(WINDOW_WIDTH as nat)
        + UNTIL_WINDOW_HEIGHT@
        + decimal(WINDOW_HEIGHT as nat)
        + UNTIL_VISIBLE@
        + joined(Seq::new(apps.len(), |i: int| "true"@), ", "@)
        + UNTIL_SELECTED@
        + (if apps.len() == 0 { "-1"@ } else { "0"@ })
        + UNTIL_SEARCH_HEIGHT@
        + decimal(SEARCH_HEIGHT as nat)
        + UNTIL_ROWS_HEIGHT@
        + decimal(rows_height(apps.len()))
        + UNTIL_ROWS@
        + rows(apps)
        + AFTER_ROWS@
}

/// Writes the row of the application at `i`.
fn row_source(app: &AppEntry, i: usize) -> (s: String)
    ensures
        s@ == row(app@, i as nat),
{
    let icon = match &app.icon {
        Some(path) => {
            let path = escape_slint_string(path.as_str());
            concat3("icon_img: @image-url(\"", path.as_str(), "\"); ")
        },
        None => String::new(),
    };
    assert(icon@ =~= icon_part(app@.icon));
    let label = escape_slint_string(app.name.as_str());
    let index = decimal_text(i as u64);
    let mut s = owned("        AppRow { ");
    s.append(icon.as_str());
    s.append("label: \"");
    s.append(label.as_str());
    s.append("\"; row_visible: root.row_visible[");
    s.append(index.as_str());
    s.append("]; is_selected: root.selected_index == ");
    s.append(index.as_str());
    s.append("; clicked => { app_clicked(");
    s.append(index.as_str());
    s.append("); } }\n");
    s
}

/// Writes the source of the window that lists `apps`.
pub fn build_slint_source(apps: &Vec<AppEntry>) -> (s: String)
    requires
        rows_height(apps@.len()) <= u32::MAX,
    ensures
        s@ == source(app_views(apps@)),
{
    let ghost all = app_views(apps@);
    let mut row_text = String::new();
    let mut visible: Vec<String> = Vec::new();
    let mut i: usize = 0;
    assert(all.take(0) =~= Seq::<AppView>::empty());
    while i < apps.len()
        invariant
            i <= apps@.len(),
            all == app_views(apps@),
            row_text@ == rows(all.take(i as int)),
            views(visible@) == Seq::new(i as nat, |j: int| "true"@),
        decreases apps@.len() - i,
    {
        assert(all.take(i + 1).drop_last() =~= all.take(i as int));
        let r = row_source(&apps[i], i);
        row_text.append(r.as_str());
        let ghost shown = views(visible@);
        visible.push(owned("true"));
        assert(views(visible@) =~= shown.push("true"@));
        assert(views(visible@) =~= Seq::new((i + 1) as nat, |j: int| "true"@));
        i += 1;
    }
    assert(all.take(all.len() as int) =~= all);
    let initially_visible = join(&visible, ", ");
    let initially_selected = if apps.len() == 0 {
        owned("-1")
    } else {
        owned("0")
    };
    let height: u64 = apps.len() as u64 % 0x1_0000_0000 * (ROW_HEIGHT as u64 + 2);
    let mut s = owned(UNTIL_ROW_HEIGHT);
    let t = decimal_text(ROW_HEIGHT as u64);
    s.append(t.as_str());
    s.append(UNTIL_WINDOW_WIDTH);
    let t = decimal_text(WINDOW_WIDTH as u64);
    s.append(t.as_str());
    s.append(UNTIL_WINDOW_HEIGHT);
    let t = decimal_text(WINDOW_HEIGHT as u64);
    s.append(t.as_str());
    s.append(UNTIL_VISIBLE);
    s.append(initially_visible.as_str());
    s.append(UNTIL_SELECTED);
    s.append(initially_selected.as_str());
    s.append(UNTIL_SEARCH_HEIGHT);
    let t = decimal_text(SEARCH_HEIGHT as u64);
    s.append(t.as_str());
    s.append(UNTIL_ROWS_HEIGHT);
    let t = decimal_text(height as u64);
    s.append(t.as_str());
    s.append(UNTIL_ROWS);
    s.append(row_text.as_str());
    s.append(AFTER_ROWS);
    s
}

// ---------------------------------------------------------------------------
// Laws
// ---------------------------------------------------------------------------

/// Whether `p` stands in `s`, with anything before it and behind it.
pub open spec fn shows(s: Seq<char>, p: Seq<char>) -> bool {
    exists|a: Seq<char>, b: Seq<char>| s == #[trigger] (a + p + b)
}

proof fn shows_through(s: Seq<char>, p: Seq<char>, q: Seq<char>)
    requires
        shows(s, p),
        shows(p, q),
    ensures
        shows(s, q),
{
    let (a, b) = choose|a: Seq<char>, b: Seq<char>| s == #[trigger] (a + p + b);
    let (c, d) = choose|c: Seq<char>, d: Seq<char>| p == #[trigger] (c + q + d);
    assert(s =~= (a + c) + q + (d + b));
}

proof fn rows_hold_each(apps: Seq<AppView>, k: int)
    requires
        0 <= k < apps.len(),
    ensures
        shows(rows(apps), row(apps[k], k as nat)),
    decreases apps.len(),
{
    let front = apps.drop_last();
    let last = row(apps.last(), (apps.len() - 1) as nat);
    if k < front.len() {
        rows_hold_each(front, k);
        assert(rows(apps) =~= Seq::<char>::empty() + rows(front) + last);
        assert(shows(rows(apps), rows(front)));
        shows_through(rows(apps), rows(front), row(front[k], k as nat));
    } else {
        assert(rows(apps) =~= rows(front) + last + Seq::<char>::empty());
    }
}

proof fn source_holds_rows(apps: Seq<AppView>)
    ensures
        shows(source(apps), decimal(rows_height(apps.len())) + UNTIL_ROWS@ + rows(apps) + AFTER_ROWS@),
        shows(source(apps), rows(apps)),
{
    let part = decimal(rows_height(apps.len())) + UNTIL_ROWS@ + rows(apps) + AFTER_ROWS@;
    let head = UNTIL_ROW_HEIGHT@ + decimal(ROW_HEIGHT as nat) + UNTIL_WINDOW_WIDTH@ + decimal(
        WINDOW_WIDTH as nat,
    ) + UNTIL_WINDOW_HEIGHT@ + decimal(WINDOW_HEIGHT as nat) + UNTIL_VISIBLE@ + joined(
        Seq::new(apps.len(), |i: int| "true"@),
        ", "@,
    ) + UNTIL_SELECTED@ + (if apps.len() == 0 {
        "-1"@
    } else {
        "0"@
    }) + UNTIL_SEARCH_HEIGHT@ + decimal(SEARCH_HEIGHT as nat) + UNTIL_ROWS_HEIGHT@;
    assert(source(apps) =~= head + part + Seq::<char>::empty());
    assert(part =~= (decimal(rows_height(apps.len())) + UNTIL_ROWS@) + rows(apps) + AFTER_ROWS@);
    assert(shows(part, rows(apps)));
    shows_through(source(apps), part, rows(apps));
}

/// The label of a row, with what ties the row to its place.
pub open spec fn labelled_row(name: Seq<char>, k: nat) -> Seq<char> {
    "label: \""@ + escaped(name, false) + "\"; row_visible: root.row_visible["@ + decimal(k)
        + "]; is_selected: root.selected_index == "@ + decimal(k) + "; clicked => { app_clicked("@ + decimal(k)
        + "); } }\n"@
}

/// Every application stands in the window by its whole name, and a click on its row, or
/// the keyboard on its place, means that application.
pub proof fn every_name_stands_in_the_window(apps: Seq<AppView>, k: int)
    requires
        0 <= k < apps.len(),
    ensures
        shows(source(apps), labelled_row(apps[k].name, k as nat)),
{
    let tail = labelled_row(apps[k].name, k as nat);
    let head = "        AppRow { "@ + icon_part(apps[k].icon);
    assert(row(apps[k], k as nat) =~= head + tail + Seq::<char>::empty());
    assert(shows(row(apps[k], k as nat), tail));
    rows_hold_each(apps, k);
    source_holds_rows(apps);
    shows_through(source(apps), rows(apps), row(apps[k], k as nat));
    shows_through(source(apps), row(apps[k], k as nat), tail);
}

/// Every icon stands in the window, before the name of its application, and by its whole
/// path.
pub proof fn every_icon_stands_in_the_window(apps: Seq<AppView>, k: int, path: Seq<char>)
    requires
        0 <= k < apps.len(),
        apps[k].icon == Some(path),
    ensures
        shows(
            source(apps),
            "icon_img: @image-url(\""@ + escaped(path, false) + "\"); "@ + ("label: \""@ + escaped(
                apps[k].name,
                false,
            ) + "\"; "@),
        ),
{
    let icon = "icon_img: @image-url(\""@ + escaped(path, false) + "\"); "@;
    let label = "label: \""@ + escaped(apps[k].name, false) + "\"; "@;
    let n = decimal(k as nat);
    let rest = "row_visible: root.row_visible["@ + n + "]; is_selected: root.selected_index == "@ + n
        + "; clicked => { app_clicked("@ + n + "); } }\n"@;
    reveal_strlit("\"; row_visible: root.row_visible[");
    reveal_strlit("\"; ");
    reveal_strlit("row_visible: root.row_visible[");
    assert("\"; row_visible: root.row_visible["@ =~= "\"; "@ + "row_visible: root.row_visible["@);
    assert(row(apps[k], k as nat) =~= "        AppRow { "@ + (icon + label) + rest);
    assert(shows(row(apps[k], k as nat), icon + label));
    rows_hold_each(apps, k);
    source_holds_rows(apps);
    shows_through(source(apps), rows(apps), row(apps[k], k as nat));
    shows_through(source(apps), row(apps[k], k as nat), icon + label);
}

/// The list is as high as its rows with the gaps between them.
pub proof fn the_list_is_as_high_as_its_rows(apps: Seq<AppView>)
    requires
        apps.len() < 0x1_0000_0000,
    ensures
        shows(source(apps), decimal(apps.len() * 34) + UNTIL_ROWS@ + rows(apps) + AFTER_ROWS@),
{
    source_holds_rows(apps);
    assert(apps.len() % 0x1_0000_0000 == apps.len());
    assert(rows_height(apps.len()) == apps.len() * 34) by (nonlinear_arith)
        requires
            rows_height(apps.len()) == apps.len() * (ROW_HEIGHT + 2) as nat,
            ROW_HEIGHT == 32,
    ;
}

} // verus!
