//! The Slint source of the wallpaper picker's window.

use crate::numbers::{decimal, decimal_text, signed_decimal, signed_decimal_text};
use crate::slint_text::{escape_slint_lines, escaped};
use crate::text::{concat2, owned};
use crate::wallpaper::{entry_views, WallpaperEntry, WallpaperView};
use vstd::prelude::*;

verus! {

pub const CELL_W: u32 = 160;

pub const CELL_H: u32 = 110;

pub const GAP: u32 = 10;

pub const PADDING: u32 = 14;

pub const HEADER_HEIGHT: u32 = 40;

pub const WINDOW_WIDTH: u32 = 720;

pub const WINDOW_HEIGHT: u32 = 520;

pub const CELL_UNTIL_WIDTH: &'static str = r#"
component WallpaperCell inherits Rectangle {
    in property <image> thumb;
    in property <string> label;
    in property <bool> is_current: false;
    callback clicked;

    width: "#;

pub const CELL_UNTIL_HEIGHT: &'static str = r#"px;
    height: "#;

pub const CELL_REST: &'static str = r#"px;
    border-radius: 8px;
    background: #141414;
    border-width: is_current ? 3px : 1px;
    border-color: is_current ? #76b900 : #333333;
    clip: true;

    Image {
        x: 3px;
        y: 3px;
        width: parent.width - 6px;
        height: parent.height - 6px;
        source: thumb;
        image-fit: cover;
    }

    Rectangle {
        x: 3px;
        y: parent.height - 22px;
        width: parent.width - 6px;
        height: 19px;
        background: #000000aa;

        Text {
            x: 6px;
            width: parent.width - 12px;
            text: label;
            color: #d4d4d4;
            font-size: 10px;
            font-family: "Space Grotesk";
            overflow: elide;
            vertical-alignment: center;
        }
    }

    TouchArea { clicked => { root.clicked(); } }
}
"#;

pub const BEFORE_CELL_COMPONENT: &'static str = r#"
"#;

pub const UNTIL_WINDOW_WIDTH: &'static str = r#"
export component Wallpaper inherits Window {
    width: "#;

pub const UNTIL_WINDOW_HEIGHT: &'static str = r#"px;
    height: "#;

pub const UNTIL_CURRENT: &'static str = r#"px;
    background: transparent;

    callback wallpaper_clicked(int);
    callback clear_clicked();
    callback close_requested();

    in property <int> current_index: "#;

pub const UNTIL_HEADER_HEIGHT: &'static str = r#";

    forward-focus: scope;

    Rectangle {
        background: #0d0d0d;
        border-radius: 14px;
        clip: true;

        scope := FocusScope {
            key-pressed(event) => {
                if (event.text == Key.Escape) {
                    close_requested();
                    accept
                } else {
                    reject
                }
            }

            VerticalLayout {
                HorizontalLayout {
                    height: "#;

pub const UNTIL_LEFT_PADDING: &'static str = r#"px;
                    padding-left: "#;

pub const UNTIL_RIGHT_PADDING: &'static str = r#"px;
                    padding-right: "#;

pub const UNTIL_COUNT: &'static str = r#"px;
                    spacing: 8px;

                    Text {
                        text: "Wallpapers";
                        color: #d4d4d4;
                        font-size: 15px;
                        font-family: "Space Grotesk";
                        vertical-alignment: center;
                    }

                    Rectangle { horizontal-stretch: 1; }

                    Text {
                        text: ""#;

pub const UNTIL_VIEWPORT_WIDTH: &'static str = r#" wallpapers";
                        color: #999999;
                        font-size: 11px;
                        font-family: "Space Grotesk";
                        vertical-alignment: center;
                    }

                    Rectangle {
                        width: 60px;
                        height: 26px;
                        border-radius: 6px;
                        background: clear_ta.has-hover ? #2a1414 : transparent;
                        border-width: 1px;
                        border-color: #f7768e;

                        Text {
                            text: "Clear";
                            color: #f7768e;
                            font-size: 11px;
                            font-family: "Space Grotesk";
                            horizontal-alignment: center;
                            vertical-alignment: center;
                        }

                        clear_ta := TouchArea { clicked => { clear_clicked(); } }
                    }
                }

                Flickable {
                    vertical-stretch: 1;
                    viewport-width: "#;

pub const UNTIL_CONTENT_HEIGHT: &'static str = r#"px;
                    viewport-height: "#;

pub const UNTIL_CELLS: &'static str = r#"px;

"#;

pub const UNTIL_EMPTY: &'static str = r#"
                    Text {
                        visible: "#;

pub const UNTIL_MESSAGE_X: &'static str = r#";
                        x: "#;

pub const UNTIL_MESSAGE_Y: &'static str = r#"px;
                        y: "#;

pub const UNTIL_MESSAGE_WIDTH: &'static str = r#"px;
                        width: "#;

pub const UNTIL_DOUBLE_PADDING: &'static str = r#"px - "#;

pub const UNTIL_MESSAGE: &'static str = r#"px;
                        text: ""#;

pub const AFTER_MESSAGE: &'static str = r#"";
                        color: #999999;
                        font-size: 12px;
                        font-family: "Space Grotesk";
                        horizontal-alignment: center;
                    }
                }
            }
        }
    }
}
"#;

/// How many cells stand side by side: as many as fit with the gaps between them,
/// and one at least.
pub open spec fn column_count() -> nat {
    let n = (WINDOW_WIDTH - 2 * PADDING + GAP) / (CELL_W + GAP);
    if n < 1 {
        1
    } else {
        n as nat
    }
}

/// How many cells stand side by side.
pub fn columns() -> (n: u32)
    ensures
        n == column_count(),
        n >= 1,
{
    let n: u32 = (WINDOW_WIDTH - 2 * PADDING + GAP) / (CELL_W + GAP);
    if n < 1 {
        1
    } else {
        n
    }
}

/// Where the cell at `i` stands from the left. The grid is filled row by row.
pub open spec fn cell_x(i: nat) -> nat {
    PADDING as nat + i % column_count() * (CELL_W + GAP) as nat
}

/// Where the cell at `i` stands from the top.
pub open spec fn cell_y(i: nat) -> nat {
    PADDING as nat + i / column_count() * (CELL_H + GAP) as nat
}

/// How many rows `n` cells take; an empty grid takes one for the message.
pub open spec fn row_count(n: nat) -> nat {
    if n == 0 {
        1
    } else {
        ((n + column_count() - 1) / column_count() as int) as nat
    }
}

/// The height of `n` cells with the gaps between their rows and the padding around
/// them.
pub open spec fn content_height(n: nat) -> nat {
    (2 * PADDING + row_count(n) * CELL_H + (row_count(n) - 1) * GAP) as nat
}

/// The cell of the image at `i`.
pub open spec fn cell(image: WallpaperView, i: nat) -> Seq<char> {
    "        WallpaperCell { x: "@ + decimal(cell_x(i)) + "px; y: "@ + decimal(cell_y(i)) + "px; thumb: @image-url(\""@ + escaped(image.path, true) + "\"); label: \""@ + escaped(image.name, true) + "\"; is_current: root.current_index == "@ + decimal(i) + "; clicked => { wallpaper_clicked("@ + decimal(i) + "); } }"@ + "\n"@
}

/// The cells of all images.
pub open spec fn cells(images: Seq<WallpaperView>) -> Seq<char>
    decreases images.len(),
{
    if images.len() == 0 {
        Seq::empty()
    } else {
        cells(images.drop_last()) + cell(images.last(), (images.len() - 1) as nat)
    }
}

/// The component of a cell; nothing where there are no cells, since a component
/// that is not used is an error.
pub open spec fn cell_component(n: nat) -> Seq<char> {
    if n == 0 {
        Seq::empty()
    } else {
        CELL_UNTIL_WIDTH@ + decimal(CELL_W as nat) + CELL_UNTIL_HEIGHT@ + decimal(CELL_H as nat)
            + CELL_REST@
    }
}

/// The source of the window that shows `images` of the directory `dir`, of which
/// the one at `current` is marked.
pub open spec fn source(images: Seq<WallpaperView>, current: int, dir: Seq<char>) -> Seq<char> {
    BEFORE_CELL_COMPONENT@
        + cell_component(images.len())
        + UNTIL_WINDOW_WIDTH@
        + decimal(WINDOW_WIDTH as nat)
        + UNTIL_WINDOW_HEIGHT@
        + decimal(WINDOW_HEIGHT as nat)
        + UNTIL_CURRENT@
        + signed_decimal(current)
        + UNTIL_HEADER_HEIGHT@
        + decimal(HEADER_HEIGHT as nat)
        + UNTIL_LEFT_PADDING@
        + decimal(PADDING as nat)
        + UNTIL_RIGHT_PADDING@
        + decimal(PADDING as nat)
        + UNTIL_COUNT@
        + decimal(images.len())
        + UNTIL_VIEWPORT_WIDTH@
        + decimal(WINDOW_WIDTH as nat)
        + UNTIL_CONTENT_HEIGHT@
        + decimal(content_height(images.len()))
        + UNTIL_CELLS@
        + cells(images)
        + UNTIL_EMPTY@
        + (if images.len() == 0 { "true"@ } else { "false"@ })
        + UNTIL_MESSAGE_X@
        + decimal(PADDING as nat)
        + UNTIL_MESSAGE_Y@
        + decimal(PADDING as nat)
        + UNTIL_MESSAGE_WIDTH@
        + decimal(WINDOW_WIDTH as nat)
        + UNTIL_DOUBLE_PADDING@
        + decimal((2 * PADDING) as nat)
        + UNTIL_MESSAGE@
        + escaped("No images found in\n"@ + dir, true)
        + AFTER_MESSAGE@
}

proof fn grid(i: nat)
    ensures
        column_count() == 4,
        cell_x(i) == 14 + i % 4 * 170,
        cell_y(i) == 14 + i / 4 * 120,
        i > 0 ==> row_count(i) == (i + 3) / 4,
        content_height(i) == 28 + row_count(i) * 110 + (row_count(i) - 1) * 10,
{
    assert(column_count() == 4);
    let w = (CELL_W + GAP) as nat;
    let h = (CELL_H + GAP) as nat;
    assert(w == 170 && h == 120);
    assert(i % 4 * w == i % 4 * 170) by (nonlinear_arith)
        requires
            w == 170,
    ;
    assert(i / 4 * h == i / 4 * 120) by (nonlinear_arith)
        requires
            h == 120,
    ;
    let r = row_count(i);
    assert(r * CELL_H == r * 110 && (r - 1) * GAP == (r - 1) * 10) by (nonlinear_arith)
        requires
            CELL_H == 110,
            GAP == 10,
    ;
}

/// Whether the height of `n` cells fits in 32 bits, as `build_slint_source` needs it.
pub fn grid_fits(n: usize) -> (r: bool)
    ensures
        r == (content_height(n as nat) <= u32::MAX),
{
    proof {
        grid(n as nat);
    }
    let rows: u64 = if n == 0 {
        1
    } else {
        (n as u64 - 1) / columns() as u64 + 1
    };
    assert(rows == row_count(n as nat));
    // All but the paddings is rows with a gap each, less the one gap below the last.
    let room: u64 = u32::MAX as u64 - 2 * PADDING as u64 + GAP as u64;
    let each: u64 = (CELL_H + GAP) as u64;
    assert(room / each == room / 120) by (nonlinear_arith)
        requires
            each == 120,
    ;
    rows <= room / each
}

/// Two cells of the grid never overlap: they stand in different columns or in
/// different rows, at least a cell and a gap apart.
pub proof fn cells_do_not_overlap(i: nat, j: nat)
    requires
        i != j,
    ensures
        ({
            ||| cell_x(i) + CELL_W + GAP <= cell_x(j)
            ||| cell_x(j) + CELL_W + GAP <= cell_x(i)
            ||| cell_y(i) + CELL_H + GAP <= cell_y(j)
            ||| cell_y(j) + CELL_H + GAP <= cell_y(i)
        }),
{
    grid(i);
    grid(j);
    assert(i / 4 != j / 4 || i % 4 != j % 4);
}

/// Every cell lies inside the window's width and inside the height of the contents.
pub proof fn cells_lie_inside(i: nat, n: nat)
    requires
        i < n,
    ensures
        cell_x(i) + CELL_W + PADDING <= WINDOW_WIDTH,
        cell_y(i) + CELL_H + PADDING <= content_height(n),
{
    grid(i);
    grid(n);
    assert(i / 4 + 1 <= (n + 3) / 4);
}

fn cell_source(image: &WallpaperEntry, i: usize) -> (s: String)
    requires
        cell_y(i as nat) <= u32::MAX,
    ensures
        s@ == cell(image@, i as nat),
{
    proof {
        grid(i as nat);
    }
    let cols: u64 = columns() as u64;
    let x: u64 = PADDING as u64 + i as u64 % cols * (CELL_W as u64 + GAP as u64);
    let y: u64 = PADDING as u64 + i as u64 / cols * (CELL_H as u64 + GAP as u64);
    let x = decimal_text(x);
    let y = decimal_text(y);
    let path = escape_slint_lines(image.path.as_str());
    let name = escape_slint_lines(image.name.as_str());
    let index = decimal_text(i as u64);
    let mut s = owned("        WallpaperCell { x: ");
    s.append(x.as_str());
    s.append("px; y: ");
    s.append(y.as_str());
    s.append("px; thumb: @image-url(\"");
    s.append(path.as_str());
    s.append("\"); label: \"");
    s.append(name.as_str());
    s.append("\"; is_current: root.current_index == ");
    s.append(index.as_str());
    s.append("; clicked => { wallpaper_clicked(");
    s.append(index.as_str());
    s.append("); } }");
    s.append("\n");
    s
}

/// Writes the source of the window that shows `images` of the directory `dir`, of
/// which the one at `current_index` is marked.
pub fn build_slint_source(images: &Vec<WallpaperEntry>, current_index: i32, dir: &str) -> (s: String)
    requires
        content_height(images@.len()) <= u32::MAX,
    ensures
        s@ == source(entry_views(images@), current_index as int, dir@),
{
    let ghost all = entry_views(images@);
    let n: usize = images.len();
    let mut cell_text = String::new();
    let mut i: usize = 0;
    assert(all.take(0) =~= Seq::<WallpaperView>::empty());
    while i < n
        invariant
            i <= n == images@.len(),
            content_height(n as nat) <= u32::MAX,
            all == entry_views(images@),
            cell_text@ == cells(all.take(i as int)),
        decreases n - i,
    {
        assert(all.take(i + 1).drop_last() =~= all.take(i as int));
        proof {
            cells_lie_inside(i as nat, n as nat);
        }
        let c = cell_source(&images[i], i);
        cell_text.append(c.as_str());
        i += 1;
    }
    assert(all.take(all.len() as int) =~= all);
    proof {
        grid(n as nat);
    }
    let cols: u64 = columns() as u64;
    let rows: u64 = if n == 0 {
        1
    } else {
        (n as u64 + cols - 1) / cols
    };
    assert(rows == row_count(n as nat));
    let content = decimal_text(
        2 * PADDING as u64 + rows * CELL_H as u64 + (rows - 1) * GAP as u64,
    );
    let text = concat2("No images found in\n", dir);
    let message = escape_slint_lines(text.as_str());
    let cell_w = decimal_text(CELL_W as u64);
    let cell_h = decimal_text(CELL_H as u64);
    let mut component = String::new();
    if n > 0 {
        component.append(CELL_UNTIL_WIDTH);
        component.append(cell_w.as_str());
        component.append(CELL_UNTIL_HEIGHT);
        component.append(cell_h.as_str());
        component.append(CELL_REST);
        assert(component@ =~= cell_component(n as nat));
    }
    let width = decimal_text(WINDOW_WIDTH as u64);
    let height = decimal_text(WINDOW_HEIGHT as u64);
    let header = decimal_text(HEADER_HEIGHT as u64);
    let padding = decimal_text(PADDING as u64);
    let double_padding = decimal_text(2 * PADDING as u64);
    let current = signed_decimal_text(current_index);
    let count = decimal_text(n as u64);
    let empty = if n == 0 {
        owned("true")
    } else {
        owned("false")
    };
    let mut s = owned(BEFORE_CELL_COMPONENT);
    s.append(component.as_str());
    s.append(UNTIL_WINDOW_WIDTH);
    s.append(width.as_str());
    s.append(UNTIL_WINDOW_HEIGHT);
    s.append(height.as_str());
    s.append(UNTIL_CURRENT);
    s.append(current.as_str());
    s.append(UNTIL_HEADER_HEIGHT);
    s.append(header.as_str());
    s.append(UNTIL_LEFT_PADDING);
    s.append(padding.as_str());
    s.append(UNTIL_RIGHT_PADDING);
    s.append(padding.as_str());
    s.append(UNTIL_COUNT);
    s.append(count.as_str());
    s.append(UNTIL_VIEWPORT_WIDTH);
    s.append(width.as_str());
    s.append(UNTIL_CONTENT_HEIGHT);
    s.append(content.as_str());
    s.append(UNTIL_CELLS);
    s.append(cell_text.as_str());
    s.append(UNTIL_EMPTY);
    s.append(empty.as_str());
    s.append(UNTIL_MESSAGE_X);
    s.append(padding.as_str());
    s.append(UNTIL_MESSAGE_Y);
    s.append(padding.as_str());
    s.append(UNTIL_MESSAGE_WIDTH);
    s.append(width.as_str());
    s.append(UNTIL_DOUBLE_PADDING);
    s.append(double_padding.as_str());
    s.append(UNTIL_MESSAGE);
    s.append(message.as_str());
    s.append(AFTER_MESSAGE);
    s
}

// ---------------------------------------------------------------------------
// Laws
// ---------------------------------------------------------------------------

/// The cells of the window are those of the images, one after the other, each with its
/// image, its label and its own place.
pub proof fn every_image_has_its_cell(images: Seq<WallpaperView>, next: WallpaperView)
    ensures
        cells(Seq::<WallpaperView>::empty()) == Seq::<char>::empty(),
        cells(images.push(next)) == cells(images) + "        WallpaperCell { x: "@ + decimal(cell_x(images.len()))
            + "px; y: "@ + decimal(cell_y(images.len())) + "px; thumb: @image-url(\""@ + escaped(
            next.path,
            true,
        ) + "\"); label: \""@ + escaped(next.name, true) + "\"; is_current: root.current_index == "@ + decimal(
            images.len(),
        ) + "; clicked => { wallpaper_clicked("@ + decimal(images.len()) + "); } }"@ + "\n"@,
{
    assert(images.push(next).drop_last() =~= images);
    assert(cells(images.push(next)) =~= cells(images) + "        WallpaperCell { x: "@ + decimal(
        cell_x(images.len()),
    ) + "px; y: "@ + decimal(cell_y(images.len())) + "px; thumb: @image-url(\""@ + escaped(next.path, true)
        + "\"); label: \""@ + escaped(next.name, true) + "\"; is_current: root.current_index == "@ + decimal(
        images.len(),
    ) + "; clicked => { wallpaper_clicked("@ + decimal(images.len()) + "); } }"@ + "\n"@);
}

/// Whether `p` stands in `s`, with anything before it and behind it.
pub open spec fn shows(s: Seq<char>, p: Seq<char>) -> bool {
    exists|a: Seq<char>, b: Seq<char>| s == #[trigger] (a + p + b)
}

proof fn shows_through(s: Seq<char>, p: Seq<char>, q: Seq<char>)
    requires
        shows(s, p),
        shows(p, q),
    ensures
        shows(s, q),
{
    let (a, b) = choose|a: Seq<char>, b: Seq<char>| s == #[trigger] (a + p + b);
    let (c, d) = choose|c: Seq<char>, d: Seq<char>| p == #[trigger] (c + q + d);
    assert(s =~= (a + c) + q + (d + b));
}

proof fn cells_hold_each(images: Seq<WallpaperView>, k: int)
    requires
        0 <= k < images.len(),
    ensures
        shows(cells(images), cell(images[k], k as nat)),
    decreases images.len(),
{
    let front = images.drop_last();
    let last = cell(images.last(), (images.len() - 1) as nat);
    if k < front.len() {
        cells_hold_each(front, k);
        assert(cells(images) =~= Seq::<char>::empty() + cells(front) + last);
        assert(shows(cells(images), cells(front)));
        shows_through(cells(images), cells(front), cell(front[k], k as nat));
    } else {
        assert(cells(images) =~= cells(front) + last + Seq::<char>::empty());
    }
}

/// What stands in the window before the cells.
spec fn until_cells(images: Seq<WallpaperView>, current: int) -> Seq<char> {
    BEFORE_CELL_COMPONENT@ + cell_component(images.len()) + UNTIL_WINDOW_WIDTH@ + decimal(WINDOW_WIDTH as nat)
        + UNTIL_WINDOW_HEIGHT@ + decimal(WINDOW_HEIGHT as nat) + UNTIL_CURRENT@ + signed_decimal(current)
        + UNTIL_HEADER_HEIGHT@ + decimal(HEADER_HEIGHT as nat) + UNTIL_LEFT_PADDING@ + decimal(PADDING as nat)
        + UNTIL_RIGHT_PADDING@ + decimal(PADDING as nat) + UNTIL_COUNT@ + decimal(images.len())
        + UNTIL_VIEWPORT_WIDTH@ + decimal(WINDOW_WIDTH as nat) + UNTIL_CONTENT_HEIGHT@ + decimal(
        content_height(images.len()),
    ) + UNTIL_CELLS@
}

/// What stands in the window behind the cells.
spec fn after_cells(images: Seq<WallpaperView>, dir: Seq<char>) -> Seq<char> {
    UNTIL_EMPTY@ + (if images.len() == 0 {
        "true"@
    } else {
        "false"@
    }) + UNTIL_MESSAGE_X@ + decimal(PADDING as nat) + UNTIL_MESSAGE_Y@ + decimal(PADDING as nat)
        + UNTIL_MESSAGE_WIDTH@ + decimal(WINDOW_WIDTH as nat) + UNTIL_DOUBLE_PADDING@ + decimal(
        (2 * PADDING) as nat,
    ) + UNTIL_MESSAGE@ + escaped("No images found in\n"@ + dir, true) + AFTER_MESSAGE@
}

proof fn source_holds_cells(images: Seq<WallpaperView>, current: int, dir: Seq<char>)
    ensures
        shows(source(images, current, dir), cells(images)),
        shows(source(images, current, dir), after_cells(images, dir)),
        shows(source(images, current, dir), until_cells(images, current)),
{
    let head = until_cells(images, current);
    let tail = after_cells(images, dir);
    assert(source(images, current, dir) =~= head + cells(images) + tail);
    assert(source(images, current, dir) =~= (head + cells(images)) + tail + Seq::<char>::empty());
    assert(source(images, current, dir) =~= Seq::<char>::empty() + head + (cells(images) + tail));
}

/// Every image stands in the window by its whole path and its whole name, and a click on
/// its cell means that image.
pub proof fn every_image_stands_in_the_window(
    images: Seq<WallpaperView>,
    current: int,
    dir: Seq<char>,
    k: int,
)
    requires
        0 <= k < images.len(),
    ensures
        shows(
            source(images, current, dir),
            "px; thumb: @image-url(\""@ + escaped(images[k].path, true) + "\"); label: \""@ + escaped(
                images[k].name,
                true,
            ) + "\"; is_current: root.current_index == "@ + decimal(k as nat)
                + "; clicked => { wallpaper_clicked("@ + decimal(k as nat) + "); } }"@,
        ),
{
    let n = decimal(k as nat);
    let part = "px; thumb: @image-url(\""@ + escaped(images[k].path, true) + "\"); label: \""@ + escaped(
        images[k].name,
        true,
    ) + "\"; is_current: root.current_index == "@ + n + "; clicked => { wallpaper_clicked("@ + n
        + "); } }"@;
    let head = "        WallpaperCell { x: "@ + decimal(cell_x(k as nat)) + "px; y: "@ + decimal(
        cell_y(k as nat),
    );
    assert(cell(images[k], k as nat) =~= head + part + "\n"@);
    cells_hold_each(images, k);
    source_holds_cells(images, current, dir);
    shows_through(source(images, current, dir), cells(images), cell(images[k], k as nat));
    shows_through(source(images, current, dir), cell(images[k], k as nat), part);
}

proof fn shows_between(head: Seq<char>, a: Seq<char>, b: Seq<char>, c: Seq<char>)
    ensures
        shows(head + a + b + c, a + b + c),
{
    assert(head + a + b + c =~= head + (a + b + c) + Seq::<char>::empty());
}

proof fn still_shows(s: Seq<char>, p: Seq<char>, tail: Seq<char>)
    requires
        shows(s, p),
    ensures
        shows(s + tail, p),
{
    let (a, b) = choose|a: Seq<char>, b: Seq<char>| s == #[trigger] (a + p + b);
    assert(s + tail =~= a + p + (b + tail));
}

proof fn the_head_tells(images: Seq<WallpaperView>, current: int)
    ensures
        shows(until_cells(images, current), UNTIL_CURRENT@ + signed_decimal(current) + UNTIL_HEADER_HEIGHT@),
        shows(until_cells(images, current), UNTIL_COUNT@ + decimal(images.len()) + UNTIL_VIEWPORT_WIDTH@),
{
    let first = UNTIL_CURRENT@ + signed_decimal(current) + UNTIL_HEADER_HEIGHT@;
    let h0 = BEFORE_CELL_COMPONENT@ + cell_component(images.len()) + UNTIL_WINDOW_WIDTH@ + decimal(
        WINDOW_WIDTH as nat,
    ) + UNTIL_WINDOW_HEIGHT@ + decimal(WINDOW_HEIGHT as nat);
    shows_between(h0, UNTIL_CURRENT@, signed_decimal(current), UNTIL_HEADER_HEIGHT@);
    let h1 = h0 + UNTIL_CURRENT@ + signed_decimal(current) + UNTIL_HEADER_HEIGHT@;
    let pad = decimal(PADDING as nat);
    let header = decimal(HEADER_HEIGHT as nat);
    still_shows(h1, first, header);
    still_shows(h1 + header, first, UNTIL_LEFT_PADDING@);
    still_shows(h1 + header + UNTIL_LEFT_PADDING@, first, pad);
    still_shows(h1 + header + UNTIL_LEFT_PADDING@ + pad, first, UNTIL_RIGHT_PADDING@);
    let h2 = h1 + header + UNTIL_LEFT_PADDING@ + pad + UNTIL_RIGHT_PADDING@ + pad;
    still_shows(h1 + header + UNTIL_LEFT_PADDING@ + pad + UNTIL_RIGHT_PADDING@, first, pad);
    let second = UNTIL_COUNT@ + decimal(images.len()) + UNTIL_VIEWPORT_WIDTH@;
    shows_between(h2, UNTIL_COUNT@, decimal(images.len()), UNTIL_VIEWPORT_WIDTH@);
    still_shows(h2, first, UNTIL_COUNT@);
    still_shows(h2 + UNTIL_COUNT@, first, decimal(images.len()));
    let h3 = h2 + UNTIL_COUNT@ + decimal(images.len()) + UNTIL_VIEWPORT_WIDTH@;
    still_shows(h2 + UNTIL_COUNT@ + decimal(images.len()), first, UNTIL_VIEWPORT_WIDTH@);
    let width = decimal(WINDOW_WIDTH as nat);
    let height = decimal(content_height(images.len()));
    still_shows(h3, first, width);
    still_shows(h3, second, width);
    still_shows(h3 + width, first, UNTIL_CONTENT_HEIGHT@);
    still_shows(h3 + width, second, UNTIL_CONTENT_HEIGHT@);
    still_shows(h3 + width + UNTIL_CONTENT_HEIGHT@, first, height);
    still_shows(h3 + width + UNTIL_CONTENT_HEIGHT@, second, height);
    still_shows(h3 + width + UNTIL_CONTENT_HEIGHT@ + height, first, UNTIL_CELLS@);
    still_shows(h3 + width + UNTIL_CONTENT_HEIGHT@ + height, second, UNTIL_CELLS@);
}

proof fn the_tail_tells(images: Seq<WallpaperView>, dir: Seq<char>)
    ensures
        shows(
            after_cells(images, dir),
            UNTIL_MESSAGE@ + escaped("No images found in\n"@ + dir, true) + AFTER_MESSAGE@,
        ),
{
    let flag = if images.len() == 0 {
        "true"@
    } else {
        "false"@
    };
    let head = UNTIL_EMPTY@ + flag + UNTIL_MESSAGE_X@ + decimal(PADDING as nat) + UNTIL_MESSAGE_Y@ + decimal(
        PADDING as nat,
    ) + UNTIL_MESSAGE_WIDTH@ + decimal(WINDOW_WIDTH as nat) + UNTIL_DOUBLE_PADDING@ + decimal(
        (2 * PADDING) as nat,
    );
    shows_between(head, UNTIL_MESSAGE@, escaped("No images found in\n"@ + dir, true), AFTER_MESSAGE@);
}

/// The window tells how many images there are, marks the one that was applied last, and
/// names the directory in which it found none.
pub proof fn the_window_tells_what_it_shows(images: Seq<WallpaperView>, current: int, dir: Seq<char>)
    ensures
        shows(source(images, current, dir), UNTIL_CURRENT@ + signed_decimal(current) + UNTIL_HEADER_HEIGHT@),
        shows(source(images, current, dir), UNTIL_COUNT@ + decimal(images.len()) + UNTIL_VIEWPORT_WIDTH@),
        shows(
            source(images, current, dir),
            UNTIL_MESSAGE@ + escaped("No images found in\n"@ + dir, true) + AFTER_MESSAGE@,
        ),
{
    source_holds_cells(images, current, dir);
    the_head_tells(images, current);
    the_tail_tells(images, dir);
    let head = until_cells(images, current);
    let tail = after_cells(images, dir);
    let first = UNTIL_CURRENT@ + signed_decimal(current) + UNTIL_HEADER_HEIGHT@;
    let second = UNTIL_COUNT@ + decimal(images.len()) + UNTIL_VIEWPORT_WIDTH@;
    let message = UNTIL_MESSAGE@ + escaped("No images found in\n"@ + dir, true) + AFTER_MESSAGE@;
    shows_through(source(images, current, dir), head, first);
    shows_through(source(images, current, dir), head, second);
    shows_through(source(images, current, dir), tail, message);
}

} // verus!
