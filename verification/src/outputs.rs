//! The sizes of the monitors, as the compositors report them.

use crate::command::{command, command_view, CommandLine, Output};
use crate::json::{
    document, document_in, entry_trees, is_true, member_of, parse, parse_bytes, text_of, tree_opt,
    trees, unsigned_of, Json, Tree,
};
use crate::text::{owned, same_text, trim, trimmed, view_opt};
use vstd::prelude::*;

verus! {

/// The request for the outputs that niri answers with one line.
pub const NIRI_OUTPUTS_REQUEST: &'static str = r#"{"Outputs":null}"#;

/// The bar's distance from the edges of the screen.
pub const MARGIN: u32 = 10;

/// The width of a monitor where none is reported.
pub const FALLBACK_MONITOR_WIDTH: u32 = 1366;

// ---------------------------------------------------------------------------
// Sizes
// ---------------------------------------------------------------------------

/// The lowest 32 bits of a number.
pub open spec fn low_bits(n: u64) -> u32 {
    (n % 0x1_0000_0000) as u32
}

/// The lowest 32 bits of a number that may be absent.
pub open spec fn low_bits_opt(n: Option<u64>) -> Option<u32> {
    match n {
        Some(k) => Some(low_bits(k)),
        None => None,
    }
}

/// The lowest 32 bits of the number under `key` in an object.
pub open spec fn size_at(t: Option<Tree>, key: Seq<char>) -> Option<u32> {
    low_bits_opt(unsigned_of(member_of(t, key)))
}

fn size_under(j: Option<&Json>, key: &str) -> (r: Option<u32>)
    ensures
        r == size_at(tree_opt(j), key@),
{
    match j {
        Some(object) => match object.get(key) {
            Some(value) => match value.as_unsigned() {
                Some(n) => Some((n % 0x1_0000_0000) as u32),
                None => None,
            },
            None => None,
        },
        None => None,
    }
}

// ---------------------------------------------------------------------------
// The width of the screen that the bar is on
// ---------------------------------------------------------------------------

/// The outputs in niri's answer, by their names.
pub open spec fn niri_outputs(answer: Tree) -> Option<Seq<(Seq<char>, Tree)>> {
    match member_of(answer.member("Ok"@), "Outputs"@) {
        Some(Tree::Object(entries)) => Some(entries),
        _ => None,
    }
}

/// The width in niri's answer where it names one output. With more than one, nothing
/// in the answer says which of them is meant.
pub open spec fn niri_width(answer: Tree) -> Option<u32> {
    match niri_outputs(answer) {
        Some(entries) => if entries.len() == 1 {
            size_at(entries[0].1.member("logical"@), "width"@)
        } else {
            None
        },
        None => None,
    }
}

/// The width in niri's answer.
pub fn niri_width_of(answer: &Json) -> (r: Option<u32>)
    ensures
        r == niri_width(answer.tree()),
{
    let outputs = match answer.get("Ok") {
        Some(ok) => match ok.get("Outputs") {
            Some(o) => o,
            None => {
                return None;
            },
        },
        None => {
            return None;
        },
    };
    match outputs.as_object() {
        Some(entries) => {
            assert(entry_trees(entries@).len() == entries@.len());
            if entries.len() == 1 {
                size_under(entries[0].value.get("logical"), "width")
            } else {
                None
            }
        },
        None => None,
    }
}

/// The width that niri reports, given its answer where there is one.
pub fn niri_monitor_width(reply: Option<&str>) -> (r: Option<u32>)
    ensures
        r == (match reply {
            Some(line) => match document(trimmed(line@)) {
                Some(answer) => niri_width(answer),
                None => None,
            },
            None => None,
        }),
{
    match reply {
        Some(line) => {
            let text = trim(line);
            match parse(text.as_str()) {
                Some(answer) => niri_width_of(&answer),
                None => None,
            }
        },
        None => None,
    }
}

/// The first output that is marked as `mark`.
pub open spec fn first_marked(outputs: Seq<Tree>, mark: Seq<char>) -> Option<Tree>
    decreases outputs.len(),
{
    if outputs.len() == 0 {
        None
    } else if is_true(outputs[0].member(mark)) {
        Some(outputs[0])
    } else {
        first_marked(outputs.skip(1), mark)
    }
}

/// The output that the bar is on: the one with the focus, else the first that is
/// active, else the first.
pub open spec fn bar_output(outputs: Seq<Tree>) -> Option<Tree> {
    match first_marked(outputs, "focused"@) {
        Some(o) => Some(o),
        None => match first_marked(outputs, "active"@) {
            Some(o) => Some(o),
            None => if outputs.len() > 0 {
                Some(outputs[0])
            } else {
                None
            },
        },
    }
}

/// The width in Sway's answer.
pub open spec fn sway_width(answer: Tree) -> Option<u32> {
    match answer {
        Tree::Array(outputs) => size_at(member_of(bar_output(outputs), "rect"@), "width"@),
        _ => None,
    }
}

fn find_marked<'a>(outputs: &'a Vec<Json>, mark: &str) -> (r: Option<&'a Json>)
    ensures
        tree_opt(r) == first_marked(trees(outputs@), mark@),
{
    let ghost all = trees(outputs@);
    let mut i: usize = 0;
    assert(all.skip(0) =~= all);
    while i < outputs.len()
        invariant
            i <= outputs@.len(),
            all == trees(outputs@),
            first_marked(all, mark@) == first_marked(all.skip(i as int), mark@),
        decreases outputs@.len() - i,
    {
        assert(all.skip(i as int)[0] == outputs@[i as int].tree());
        assert(all.skip(i as int).skip(1) =~= all.skip(i + 1));
        if let Some(value) = outputs[i].get(mark) {
            if let Some(true) = value.as_truth() {
                return Some(&outputs[i]);
            }
        }
        i += 1;
    }
    None
}

/// The width in Sway's answer.
pub fn sway_width_of(answer: &Json) -> (r: Option<u32>)
    ensures
        r == sway_width(answer.tree()),
{
    match answer.as_array() {
        Some(outputs) => {
            assert(trees(outputs@).len() == outputs@.len());
            let chosen = match find_marked(outputs, "focused") {
                Some(o) => Some(o),
                None => match find_marked(outputs, "active") {
                    Some(o) => Some(o),
                    None => {
                        if outputs.len() > 0 {
                            Some(&outputs[0])
                        } else {
                            None
                        }
                    },
                },
            };
            match chosen {
                Some(output) => size_under(output.get("rect"), "width"),
                None => None,
            }
        },
        None => None,
    }
}

/// The width that Sway reports, given the payload of its answer where there is one.
pub fn sway_monitor_width(body: Option<&[u8]>) -> (r: Option<u32>)
    ensures
        r == (match body {
            Some(bytes) => match document_in(bytes@) {
                Some(answer) => sway_width(answer),
                None => None,
            },
            None => None,
        }),
{
    match body {
        Some(bytes) => match parse_bytes(bytes) {
            Some(answer) => sway_width_of(&answer),
            None => None,
        },
        None => None,
    }
}

/// A monitor as the compositor's library reports it.
pub struct Monitor {
    pub primary: bool,
    pub width: u32,
}

/// The width of the first primary monitor.
pub open spec fn primary_width(monitors: Seq<Monitor>) -> Option<u32>
    decreases monitors.len(),
{
    if monitors.len() == 0 {
        None
    } else if monitors[0].primary {
        Some(monitors[0].width)
    } else {
        primary_width(monitors.skip(1))
    }
}

/// The width of the screen that the bar is on: what niri reports, else what Sway
/// reports, else that of the primary monitor or of the first, else a fallback.
pub open spec fn screen_width(niri: Option<u32>, sway: Option<u32>, monitors: Seq<Monitor>) -> u32 {
    match (niri, sway, primary_width(monitors)) {
        (Some(w), _, _) => w,
        (None, Some(w), _) => w,
        (None, None, Some(w)) => w,
        (None, None, None) => if monitors.len() > 0 {
            monitors[0].width
        } else {
            FALLBACK_MONITOR_WIDTH
        },
    }
}

/// The width of the screen that the bar is on.
pub fn primary_monitor_width(niri: Option<u32>, sway: Option<u32>, monitors: &Vec<Monitor>) -> (r: u32)
    ensures
        r == screen_width(niri, sway, monitors@),
{
    if let Some(w) = niri {
        return w;
    }
    if let Some(w) = sway {
        return w;
    }
    let mut i: usize = 0;
    assert(monitors@.skip(0) =~= monitors@);
    while i < monitors.len()
        invariant
            i <= monitors@.len(),
            niri is None,
            sway is None,
            primary_width(monitors@) == primary_width(monitors@.skip(i as int)),
        decreases monitors@.len() - i,
    {
        assert(monitors@.skip(i as int)[0] == monitors@[i as int]);
        assert(monitors@.skip(i as int).skip(1) =~= monitors@.skip(i + 1));
        if monitors[i].primary {
            return monitors[i].width;
        }
        i += 1;
    }
    if monitors.len() > 0 {
        monitors[0].width
    } else {
        FALLBACK_MONITOR_WIDTH
    }
}

/// The bar's width: that of the screen without the margins on both sides.
pub fn bar_width(screen: u32) -> (r: u32)
    requires
        screen >= 2 * MARGIN,
    ensures
        r == screen - 2 * MARGIN,
{
    screen - 2 * MARGIN
}

// ---------------------------------------------------------------------------
// The sizes of all monitors, by name
// ---------------------------------------------------------------------------

/// A monitor with its connector's name, such as `eDP-1`.
pub struct NamedSize {
    pub name: String,
    pub width: u32,
    pub height: u32,
}

/// A name and the width and height that belong to it.
pub type SizeEntry = (Seq<char>, (u32, u32));

/// What a list of sizes says of each name: the last of its entries.
pub open spec fn sizes_by_name(list: Seq<NamedSize>) -> Map<Seq<char>, (u32, u32)>
    decreases list.len(),
{
    if list.len() == 0 {
        Map::empty()
    } else {
        sizes_by_name(list.drop_last()).insert(list.last().name@, (list.last().width, list.last().height))
    }
}

/// The entries that are there, in order, each in place of an earlier one of the same
/// name.
pub open spec fn collected(entries: Seq<Option<SizeEntry>>) -> Map<Seq<char>, (u32, u32)>
    decreases entries.len(),
{
    if entries.len() == 0 {
        Map::empty()
    } else {
        let before = collected(entries.drop_last());
        match entries.last() {
            Some((name, size)) => before.insert(name, size),
            None => before,
        }
    }
}

/// The sizes of the monitors, by the names of their connectors.
pub struct Monitors {
    list: Vec<NamedSize>,
}

impl View for Monitors {
    type V = Map<Seq<char>, (u32, u32)>;

    closed spec fn view(&self) -> Map<Seq<char>, (u32, u32)> {
        sizes_by_name(self.list@)
    }
}

impl Monitors {
    /// No sizes.
    pub fn new() -> (m: Monitors)
        ensures
            m@ == Map::<Seq<char>, (u32, u32)>::empty(),
    {
        Monitors { list: Vec::new() }
    }

    /// Sets the size of a monitor.
    pub fn insert(&mut self, name: String, width: u32, height: u32)
        ensures
            final(self)@ == old(self)@.insert(name@, (width, height)),
    {
        let ghost before = self.list@;
        self.list.push(NamedSize { name, width, height });
        assert(self.list@.drop_last() =~= before);
    }

    /// Whether there are no sizes.
    pub fn is_empty(&self) -> (r: bool)
        ensures
            r == (self@ == Map::<Seq<char>, (u32, u32)>::empty()),
    {
        let r = self.list.len() == 0;
        proof {
            if !r {
                let last = self.list@.last();
                assert(self@.dom().contains(last.name@));
            }
        }
        r
    }

    /// The size of a monitor.
    pub fn get(&self, name: &str) -> (r: Option<(u32, u32)>)
        ensures
            r == (if self@.dom().contains(name@) {
                Some(self@[name@])
            } else {
                None
            }),
    {
        let mut i: usize = self.list.len();
        assert(self.list@.take(i as int) =~= self.list@);
        while i > 0
            invariant
                i <= self.list@.len(),
                self@.dom().contains(name@) == sizes_by_name(self.list@.take(i as int)).dom().contains(name@),
                self@.dom().contains(name@) ==> self@[name@] == sizes_by_name(
                    self.list@.take(i as int),
                )[name@],
            decreases i,
        {
            assert(self.list@.take(i as int).drop_last() =~= self.list@.take(i - 1));
            assert(self.list@.take(i as int).last() == self.list@[i - 1]);
            i -= 1;
            if same_text(self.list[i].name.as_str(), name) {
                return Some((self.list[i].width, self.list[i].height));
            }
        }
        None
    }
}

/// An entry from a name and a size that may each be absent.
pub open spec fn size_entry(name: Option<Seq<char>>, size: Option<(u32, u32)>) -> Option<SizeEntry> {
    match (name, size) {
        (Some(n), Some(s)) => Some((n, s)),
        _ => None,
    }
}

/// The width and height in an object, where both are there.
pub open spec fn size_in(t: Option<Tree>) -> Option<(u32, u32)> {
    match (size_at(t, "width"@), size_at(t, "height"@)) {
        (Some(w), Some(h)) => Some((w, h)),
        _ => None,
    }
}

/// What Hyprland's answer says of one monitor.
pub open spec fn hyprland_entry(monitor: Tree) -> Option<SizeEntry> {
    size_entry(text_of(monitor.member("name"@)), size_in(Some(monitor)))
}

/// What Sway's answer says of one output.
pub open spec fn sway_entry(output: Tree) -> Option<SizeEntry> {
    size_entry(text_of(output.member("name"@)), size_in(output.member("rect"@)))
}

/// The mode that an output of niri's is in: the entry of its list of modes that
/// `current_mode` counts to.
pub open spec fn current_mode(output: Tree) -> Option<Tree> {
    match (unsigned_of(output.member("current_mode"@)), output.member("modes"@)) {
        (Some(k), Some(Tree::Array(modes))) => if k < modes.len() {
            Some(modes[k as int])
        } else {
            None
        },
        _ => None,
    }
}

/// The size of an output of niri's: that of its mode in real pixels, and the scaled
/// size only where the mode is not known.
pub open spec fn niri_size(output: Tree) -> Option<(u32, u32)> {
    match size_in(current_mode(output)) {
        Some(size) => Some(size),
        None => size_in(output.member("logical"@)),
    }
}

/// What niri's answer says of one output.
pub open spec fn niri_entry(name: Seq<char>, output: Tree) -> Option<SizeEntry> {
    size_entry(Some(name), niri_size(output))
}

/// The sizes in Hyprland's answer.
pub open spec fn hyprland_sizes(answer: Tree) -> Map<Seq<char>, (u32, u32)> {
    match answer {
        Tree::Array(list) => collected(list.map_values(|m: Tree| hyprland_entry(m))),
        _ => Map::empty(),
    }
}

/// The sizes in Sway's answer.
pub open spec fn sway_sizes(answer: Tree) -> Map<Seq<char>, (u32, u32)> {
    match answer {
        Tree::Array(list) => collected(list.map_values(|o: Tree| sway_entry(o))),
        _ => Map::empty(),
    }
}

/// The sizes in niri's answer.
pub open spec fn niri_sizes(answer: Tree) -> Map<Seq<char>, (u32, u32)> {
    match niri_outputs(answer) {
        Some(entries) => collected(entries.map_values(|e: (Seq<char>, Tree)| niri_entry(e.0, e.1))),
        None => Map::empty(),
    }
}

fn name_of(j: &Json) -> (r: Option<String>)
    ensures
        view_opt(r) == text_of(j.tree().member("name"@)),
{
    match j.get("name") {
        Some(value) => match value.as_text() {
            Some(s) => Some(owned(s.as_str())),
            None => None,
        },
        None => None,
    }
}

fn insert_entry(m: &mut Monitors, name: Option<String>, size: Option<(u32, u32)>)
    ensures
        final(m)@ == (match size_entry(view_opt(name), size) {
            Some((n, s)) => old(m)@.insert(n, s),
            None => old(m)@,
        }),
{
    if let Some(n) = name {
        if let Some((w, h)) = size {
            m.insert(n, w, h);
        }
    }
}

fn size_of(j: Option<&Json>) -> (r: Option<(u32, u32)>)
    ensures
        r == size_in(tree_opt(j)),
{
    match size_under(j, "width") {
        Some(w) => match size_under(j, "height") {
            Some(h) => Some((w, h)),
            None => None,
        },
        None => None,
    }
}

/// What an element of a list says of one monitor: its size stands in the element
/// itself, or in the rectangle that it holds.
spec fn list_entry(t: Tree, in_rect: bool) -> Option<SizeEntry> {
    if in_rect {
        sway_entry(t)
    } else {
        hyprland_entry(t)
    }
}

fn sizes_in_list(list: &Vec<Json>, in_rect: bool) -> (sizes: Monitors)
    ensures
        sizes@ == collected(trees(list@).map_values(|t: Tree| list_entry(t, in_rect))),
{
    let mut sizes = Monitors::new();
    let ghost all = trees(list@).map_values(|t: Tree| list_entry(t, in_rect));
    let mut i: usize = 0;
    assert(all.take(0) =~= Seq::<Option<SizeEntry>>::empty());
    while i < list.len()
        invariant
            i <= list@.len(),
            all == trees(list@).map_values(|t: Tree| list_entry(t, in_rect)),
            sizes@ == collected(all.take(i as int)),
        decreases list@.len() - i,
    {
        assert(all.take(i + 1).drop_last() =~= all.take(i as int));
        assert(all.take(i + 1).last() == list_entry(list@[i as int].tree(), in_rect));
        let element = &list[i];
        let sized = if in_rect {
            element.get("rect")
        } else {
            Some(element)
        };
        insert_entry(&mut sizes, name_of(element), size_of(sized));
        i += 1;
    }
    assert(all.take(all.len() as int) =~= all);
    sizes
}

/// The sizes in Hyprland's answer.
pub fn hyprland_sizes_of(answer: &Json) -> (r: Monitors)
    ensures
        r@ == hyprland_sizes(answer.tree()),
{
    match answer.as_array() {
        Some(list) => {
            assert(trees(list@).map_values(|t: Tree| list_entry(t, false)) =~= trees(list@).map_values(
                |m: Tree| hyprland_entry(m),
            ));
            sizes_in_list(list, false)
        },
        None => Monitors::new(),
    }
}

/// The sizes in Sway's answer.
pub fn sway_sizes_of(answer: &Json) -> (r: Monitors)
    ensures
        r@ == sway_sizes(answer.tree()),
{
    match answer.as_array() {
        Some(list) => {
            assert(trees(list@).map_values(|t: Tree| list_entry(t, true)) =~= trees(list@).map_values(
                |o: Tree| sway_entry(o),
            ));
            sizes_in_list(list, true)
        },
        None => Monitors::new(),
    }
}

fn mode_of(output: &Json) -> (r: Option<&Json>)
    ensures
        tree_opt(r) == current_mode(output.tree()),
{
    let k: u64 = match output.get("current_mode") {
        Some(value) => match value.as_unsigned() {
            Some(n) => n,
            None => {
                return None;
            },
        },
        None => {
            return None;
        },
    };
    match output.get("modes") {
        Some(list) => match list.as_array() {
            Some(modes) => {
                assert(trees(modes@).len() == modes@.len());
                if k < modes.len() as u64 {
                    assert(trees(modes@)[k as int] == modes@[k as int].tree());
                    Some(&modes[k as usize])
                } else {
                    None
                }
            },
            None => None,
        },
        None => None,
    }
}

fn niri_size_of(output: &Json) -> (r: Option<(u32, u32)>)
    ensures
        r == niri_size(output.tree()),
{
    match size_of(mode_of(output)) {
        Some(size) => Some(size),
        None => size_of(output.get("logical")),
    }
}

/// The sizes in niri's answer.
pub fn niri_sizes_of(answer: &Json) -> (r: Monitors)
    ensures
        r@ == niri_sizes(answer.tree()),
{
    let mut sizes = Monitors::new();
    let outputs = match answer.get("Ok") {
        Some(ok) => match ok.get("Outputs") {
            Some(o) => o,
            None => {
                return sizes;
            },
        },
        None => {
            return sizes;
        },
    };
    if let Some(entries) = outputs.as_object() {
        let ghost listed = entry_trees(entries@);
        let ghost all = listed.map_values(|e: (Seq<char>, Tree)| niri_entry(e.0, e.1));
        let mut i: usize = 0;
        assert(all.take(0) =~= Seq::<Option<SizeEntry>>::empty());
        while i < entries.len()
            invariant
                i <= entries@.len(),
                listed == entry_trees(entries@),
                all == listed.map_values(|e: (Seq<char>, Tree)| niri_entry(e.0, e.1)),
                sizes@ == collected(all.take(i as int)),
            decreases entries@.len() - i,
        {
            assert(all.take(i + 1).drop_last() =~= all.take(i as int));
            assert(all.take(i + 1).last() == niri_entry(listed[i as int].0, listed[i as int].1));
            insert_entry(
                &mut sizes,
                Some(owned(entries[i].key.as_str())),
                niri_size_of(&entries[i].value),
            );
            i += 1;
        }
        assert(all.take(all.len() as int) =~= all);
    }
    sizes
}

/// The command that asks Hyprland for its monitors.
pub fn hyprland_monitors_command() -> (c: CommandLine)
    ensures
        c@ == command_view("hyprctl"@, seq!["-j"@, "monitors"@]),
{
    let c = command("hyprctl").arg("-j").arg("monitors");
    assert(c@.args =~= seq!["-j"@, "monitors"@]);
    c
}

/// The sizes that Hyprland reports, given what its command printed where it could be
/// run. Whether the command succeeded is not asked.
pub fn hyprland_monitors(output: &Option<Output>) -> (r: Monitors)
    ensures
        r@ == (match *output {
            Some(o) => match document_in(o.stdout@) {
                Some(answer) => hyprland_sizes(answer),
                None => Map::empty(),
            },
            None => Map::empty(),
        }),
{
    match output {
        Some(o) => match parse_bytes(o.stdout.as_slice()) {
            Some(answer) => hyprland_sizes_of(&answer),
            None => Monitors::new(),
        },
        None => Monitors::new(),
    }
}

/// The sizes that Sway reports, given the payload of its answer where there is one.
pub fn sway_monitors(body: Option<&[u8]>) -> (r: Monitors)
    ensures
        r@ == (match body {
            Some(bytes) => match document_in(bytes@) {
                Some(answer) => sway_sizes(answer),
                None => Map::empty(),
            },
            None => Map::empty(),
        }),
{
    match body {
        Some(bytes) => match parse_bytes(bytes) {
            Some(answer) => sway_sizes_of(&answer),
            None => Monitors::new(),
        },
        None => Monitors::new(),
    }
}

/// The sizes that niri reports, given its answer where there is one.
pub fn niri_monitors(reply: Option<&str>) -> (r: Monitors)
    ensures
        r@ == (match reply {
            Some(line) => match document(trimmed(line@)) {
                Some(answer) => niri_sizes(answer),
                None => Map::empty(),
            },
            None => Map::empty(),
        }),
{
    match reply {
        Some(line) => {
            let text = trim(line);
            match parse(text.as_str()) {
                Some(answer) => niri_sizes_of(&answer),
                None => Monitors::new(),
            }
        },
        None => Monitors::new(),
    }
}

/// The width of niri's one output is the width that is listed under its name, where
/// the answer does not tell its mode.
pub proof fn the_widths_agree(answer: Tree, name: Seq<char>)
    requires
        niri_width(answer) is Some,
        niri_outputs(answer) matches Some(entries) ==> size_in(current_mode(entries[0].1)) is None,
        niri_sizes(answer).dom().contains(name),
    ensures
        niri_width(answer) == Some(niri_sizes(answer)[name].0),
{
    let entries = niri_outputs(answer)->0;
    let found = entries.map_values(|e: (Seq<char>, Tree)| niri_entry(e.0, e.1));
    assert(found.drop_last() =~= Seq::<Option<SizeEntry>>::empty());
    assert(found.last() == niri_entry(entries[0].0, entries[0].1));
    assert(collected(found.drop_last()) == Map::<Seq<char>, (u32, u32)>::empty());
}

// ---------------------------------------------------------------------------
// Laws
// ---------------------------------------------------------------------------

/// A width or a height that fits in 32 bits is taken as it is.
pub proof fn a_size_is_taken_as_it_is(t: Tree, key: Seq<char>, n: u64)
    requires
        t.member(key) == Some(Tree::Number(Some(n))),
    ensures
        n < 0x1_0000_0000 ==> size_at(Some(t), key) == Some(n as u32),
        size_at(Some(t), key) matches Some(k) && (n - k) % 0x1_0000_0000 == 0,
{
}

/// Without a number there is no size.
pub proof fn no_number_no_size(t: Option<Tree>, key: Seq<char>)
    requires
        !(member_of(t, key) matches Some(Tree::Number(Some(_)))),
    ensures
        size_at(t, key) is None,
{
}

/// The first output that is marked is found, and none where none is marked.
pub proof fn the_first_mark_counts(outputs: Seq<Tree>, mark: Seq<char>, k: int)
    requires
        0 <= k <= outputs.len(),
        forall|j: int| 0 <= j < k ==> (#[trigger] outputs[j]).member(mark) != Some(Tree::Bool(true)),
    ensures
        k < outputs.len() && outputs[k].member(mark) == Some(Tree::Bool(true)) ==> first_marked(outputs, mark)
            == Some(outputs[k]),
        k == outputs.len() ==> first_marked(outputs, mark) is None,
    decreases k,
{
    if k > 0 {
        assert(outputs[0].member(mark) != Some(Tree::Bool(true)));
        the_first_mark_counts(outputs.skip(1), mark, k - 1);
    }
}

/// Whether none of the outputs is marked.
pub open spec fn unmarked(outputs: Seq<Tree>, mark: Seq<char>) -> bool {
    forall|j: int| 0 <= j < outputs.len() ==> (#[trigger] outputs[j]).member(mark) != Some(Tree::Bool(true))
}

/// Sway's width is that of the first output with the focus; where none has it, of the
/// first that is active; where none is, of the first.
pub proof fn the_focus_decides(outputs: Seq<Tree>, k: int)
    requires
        0 <= k < outputs.len(),
    ensures
        outputs[k].member("focused"@) == Some(Tree::Bool(true)) && unmarked(outputs.take(k), "focused"@)
            ==> sway_width(Tree::Array(outputs)) == size_at(outputs[k].member("rect"@), "width"@),
        unmarked(outputs, "focused"@) && outputs[k].member("active"@) == Some(Tree::Bool(true)) && unmarked(
            outputs.take(k),
            "active"@,
        ) ==> sway_width(Tree::Array(outputs)) == size_at(outputs[k].member("rect"@), "width"@),
        unmarked(outputs, "focused"@) && unmarked(outputs, "active"@) ==> sway_width(Tree::Array(outputs))
            == size_at(outputs[0].member("rect"@), "width"@),
        sway_width(Tree::Array(Seq::empty())) is None,
{
    if unmarked(outputs.take(k), "focused"@) {
        assert forall|j: int| 0 <= j < k implies (#[trigger] outputs[j]).member("focused"@) != Some(
            Tree::Bool(true),
        ) by {
            assert(outputs.take(k)[j] == outputs[j]);
        }
        the_first_mark_counts(outputs, "focused"@, k);
    }
    if unmarked(outputs, "focused"@) {
        the_first_mark_counts(outputs, "focused"@, outputs.len() as int);
        if unmarked(outputs.take(k), "active"@) {
            assert forall|j: int| 0 <= j < k implies (#[trigger] outputs[j]).member("active"@) != Some(
                Tree::Bool(true),
            ) by {
                assert(outputs.take(k)[j] == outputs[j]);
            }
            the_first_mark_counts(outputs, "active"@, k);
        }
        if unmarked(outputs, "active"@) {
            the_first_mark_counts(outputs, "active"@, outputs.len() as int);
        }
    }
}

/// niri's width is the scaled width of its output, where there is just one.
pub proof fn one_output_decides(answer: Tree, ok: Tree, entries: Seq<(Seq<char>, Tree)>)
    requires
        answer.member("Ok"@) == Some(ok),
        ok.member("Outputs"@) == Some(Tree::Object(entries)),
    ensures
        entries.len() == 1 ==> niri_width(answer) == size_at(entries[0].1.member("logical"@), "width"@),
        entries.len() != 1 ==> niri_width(answer) is None,
{
}

/// The width of the first primary monitor counts; where none is primary, there is none.
pub proof fn the_first_primary_counts(monitors: Seq<Monitor>, k: int)
    requires
        0 <= k <= monitors.len(),
        forall|j: int| 0 <= j < k ==> !(#[trigger] monitors[j]).primary,
    ensures
        k < monitors.len() && monitors[k].primary ==> primary_width(monitors) == Some(monitors[k].width),
        k == monitors.len() ==> primary_width(monitors) is None,
    decreases k,
{
    if k > 0 {
        assert(!monitors[0].primary);
        the_first_primary_counts(monitors.skip(1), k - 1);
    }
}

/// niri's word counts before Sway's, Sway's before the monitors', among them the primary
/// one's before the first one's, and the fallback last.
pub proof fn words_count_in_turn(niri: u32, sway: u32, monitors: Seq<Monitor>, other: Option<u32>)
    ensures
        screen_width(Some(niri), other, monitors) == niri,
        screen_width(None, Some(sway), monitors) == sway,
        primary_width(monitors) matches Some(w) ==> screen_width(None, None, monitors) == w,
        primary_width(monitors) is None && monitors.len() > 0 ==> screen_width(None, None, monitors)
            == monitors[0].width,
        screen_width(None, None, Seq::empty()) == 1366,
{
    assert(primary_width(Seq::<Monitor>::empty()) is None);
}

/// Each entry is found under its own name, unless a later one bears the same name; and a
/// name without an entry has no size.
pub proof fn the_last_entry_of_a_name_counts(
    entries: Seq<Option<SizeEntry>>,
    name: Seq<char>,
    size: (u32, u32),
    i: int,
)
    requires
        -1 <= i < entries.len(),
        i >= 0 ==> entries[i] == Some((name, size)),
        forall|j: int| i < j < entries.len() ==> !(#[trigger] entries[j] matches Some(e) && e.0 == name),
    ensures
        i >= 0 ==> collected(entries).contains_pair(name, size),
        i == -1 ==> !collected(entries).dom().contains(name),
    decreases entries.len(),
{
    if entries.len() > 0 {
        let front = entries.drop_last();
        if i < entries.len() - 1 {
            assert(entries[entries.len() - 1] == entries.last());
            assert forall|j: int| i < j < front.len() implies !(#[trigger] front[j] matches Some(e) && e.0
                == name) by {
                assert(front[j] == entries[j]);
            }
            the_last_entry_of_a_name_counts(front, name, size, i);
        }
    }
}

/// Hyprland's and Sway's answers name a monitor and give its width and height: the one in
/// the monitor itself, the other in its rectangle. niri gives them in the mode that an
/// output is in, or scaled where that is not told. All three are taken as they are.
pub proof fn a_monitor_is_read_as_it_stands(
    monitor: Tree,
    sized: Tree,
    name: Seq<char>,
    width: u64,
    height: u64,
    modes: Seq<Tree>,
    k: u64,
)
    requires
        monitor.member("name"@) == Some(Tree::Text(name)),
        sized.member("width"@) == Some(Tree::Number(Some(width))),
        sized.member("height"@) == Some(Tree::Number(Some(height))),
        width < 0x1_0000_0000,
        height < 0x1_0000_0000,
    ensures
        sized == monitor ==> hyprland_entry(monitor) == Some((name, (width as u32, height as u32))),
        monitor.member("rect"@) == Some(sized) ==> sway_entry(monitor) == Some(
            (name, (width as u32, height as u32)),
        ),
        monitor.member("logical"@) == Some(sized) && !(monitor.member("current_mode"@) matches Some(
            Tree::Number(Some(_)),
        )) ==> niri_entry(name, monitor) == Some((name, (width as u32, height as u32))),
        monitor.member("modes"@) == Some(Tree::Array(modes)) && monitor.member("current_mode"@) == Some(
            Tree::Number(Some(k)),
        ) && k < modes.len() && modes[k as int] == sized ==> niri_entry(name, monitor) == Some(
            (name, (width as u32, height as u32)),
        ),
{
    a_size_is_taken_as_it_is(sized, "width"@, width);
    a_size_is_taken_as_it_is(sized, "height"@, height);
}

/// A monitor of which the name, the width or the height is not told has no entry.
pub proof fn a_monitor_needs_a_name_and_a_size(monitor: Tree)
    ensures
        !(monitor.member("name"@) matches Some(Tree::Text(_))) ==> hyprland_entry(monitor) is None
            && sway_entry(monitor) is None,
        size_in(Some(monitor)) is None ==> hyprland_entry(monitor) is None,
        size_in(monitor.member("rect"@)) is None ==> sway_entry(monitor) is None,
        forall|t: Option<Tree>|
            size_at(t, "width"@) is None || size_at(t, "height"@) is None ==> #[trigger] size_in(t) is None,
{
}

/// Every monitor of an answer is listed under its name, unless a later one bears the same.
pub proof fn every_monitor_is_listed(list: Seq<Tree>, i: int, name: Seq<char>, size: (u32, u32))
    requires
        0 <= i < list.len(),
    ensures
        hyprland_entry(list[i]) == Some((name, size)) && (forall|j: int|
            i < j < list.len() ==> !(hyprland_entry(#[trigger] list[j]) matches Some(e) && e.0 == name))
            ==> hyprland_sizes(Tree::Array(list)).contains_pair(name, size),
        sway_entry(list[i]) == Some((name, size)) && (forall|j: int|
            i < j < list.len() ==> !(sway_entry(#[trigger] list[j]) matches Some(e) && e.0 == name))
            ==> sway_sizes(Tree::Array(list)).contains_pair(name, size),
{
    if hyprland_entry(list[i]) == Some((name, size)) && (forall|j: int|
        i < j < list.len() ==> !(hyprland_entry(#[trigger] list[j]) matches Some(e) && e.0 == name)) {
        let all = list.map_values(|m: Tree| hyprland_entry(m));
        assert forall|j: int| i < j < all.len() implies !(#[trigger] all[j] matches Some(e) && e.0 == name) by {
            assert(all[j] == hyprland_entry(list[j]));
        }
        the_last_entry_of_a_name_counts(all, name, size, i);
    }
    if sway_entry(list[i]) == Some((name, size)) && (forall|j: int|
        i < j < list.len() ==> !(sway_entry(#[trigger] list[j]) matches Some(e) && e.0 == name)) {
        let all = list.map_values(|o: Tree| sway_entry(o));
        assert forall|j: int| i < j < all.len() implies !(#[trigger] all[j] matches Some(e) && e.0 == name) by {
            assert(all[j] == sway_entry(list[j]));
        }
        the_last_entry_of_a_name_counts(all, name, size, i);
    }
}

/// Every output of niri's answer is listed under its name, unless a later one bears the
/// same.
pub proof fn every_niri_output_is_listed(
    answer: Tree,
    ok: Tree,
    entries: Seq<(Seq<char>, Tree)>,
    i: int,
    size: (u32, u32),
)
    requires
        answer.member("Ok"@) == Some(ok),
        ok.member("Outputs"@) == Some(Tree::Object(entries)),
        0 <= i < entries.len(),
        niri_entry(entries[i].0, entries[i].1) == Some((entries[i].0, size)),
        forall|j: int| i < j < entries.len() ==> (#[trigger] entries[j]).0 != entries[i].0,
    ensures
        niri_sizes(answer).contains_pair(entries[i].0, size),
{
    let name = entries[i].0;
    let all = entries.map_values(|e: (Seq<char>, Tree)| niri_entry(e.0, e.1));
    assert forall|j: int| i < j < all.len() implies !(#[trigger] all[j] matches Some(e) && e.0 == name) by {
        assert(all[j] == niri_entry(entries[j].0, entries[j].1));
        assert(entries[j].0 != name);
    }
    the_last_entry_of_a_name_counts(all, name, size, i);
}

} // verus!
