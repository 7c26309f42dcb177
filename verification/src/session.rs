//! The session menu: lock, suspend, reboot, shut down or log out.

use crate::command::{shell, shell_view, CommandLine};
use crate::launcher::command_opt;
use crate::navigation::{first_place, fits, place, step, stepped};
use crate::numbers::{decimal, decimal_text};
use crate::paths::str_opt;
use crate::text::{concat3, owned};
use vstd::prelude::*;

verus! {

/// An entry of the menu.
pub struct Action {
    pub icon: String,
    pub label: String,
    pub command: String,
}

/// An entry of the menu by its characters.
pub struct ActionView {
    pub icon: Seq<char>,
    pub label: Seq<char>,
    pub command: Seq<char>,
}

impl View for Action {
    type V = ActionView;

    open spec fn view(&self) -> ActionView {
        ActionView { icon: self.icon@, label: self.label@, command: self.command@ }
    }
}

/// The entries by their characters.
pub open spec fn action_views(v: Seq<Action>) -> Seq<ActionView> {
    Seq::new(v.len(), |i: int| v[i]@)
}

/// The command that asks for `action`, of systemd where the login manager does not
/// know it.
pub open spec fn session_command_text(action: Seq<char>) -> Seq<char> {
    "loginctl "@ + action + " 2>&1 || systemctl "@ + action + " 2>&1"@
}

/// The command that asks for `action`.
pub fn session_command(action: &str) -> (r: String)
    ensures
        r@ == session_command_text(action@),
{
    let head = concat3("loginctl ", action, " 2>&1 || systemctl ");
    concat3(head.as_str(), action, " 2>&1")
}

/// The command that locks the session: `hyprlock` where it is installed, else the
/// login manager.
pub const LOCK_COMMAND: &'static str = "command -v hyprlock >/dev/null 2>&1 && hyprlock || loginctl lock-session";

/// The command that locks the session.
pub fn lock_command() -> (r: String)
    ensures
        r@ == LOCK_COMMAND@,
{
    owned(LOCK_COMMAND)
}

/// The command that ends the session `session`.
pub open spec fn logout_command_text(session: Option<Seq<char>>) -> Seq<char> {
    "loginctl terminate-session \""@ + (match session {
        Some(id) => id,
        None => "self"@,
    }) + "\" 2>&1"@
}

/// The entries of the menu for the session `session`.
pub open spec fn menu(session: Option<Seq<char>>) -> Seq<ActionView> {
    seq![
        ActionView { icon: "\u{F023}"@, label: "Lock"@, command: LOCK_COMMAND@ },
        ActionView {
            icon: "\u{F186}"@,
            label: "Suspend"@,
            command: session_command_text("suspend"@),
        },
        ActionView {
            icon: "\u{F021}"@,
            label: "Reboot"@,
            command: session_command_text("reboot"@),
        },
        ActionView {
            icon: "\u{F011}"@,
            label: "Shutdown"@,
            command: session_command_text("poweroff"@),
        },
        ActionView {
            icon: "\u{F08B}"@,
            label: "Logout"@,
            command: logout_command_text(session),
        },
    ]
}

fn action(icon: &str, label: &str, command: String) -> (a: Action)
    ensures
        a@ == (ActionView { icon: icon@, label: label@, command: command@ }),
{
    Action { icon: owned(icon), label: owned(label), command }
}

/// The entries of the menu, given the environment variable `XDG_SESSION_ID`.
pub fn actions(session_id: Option<&str>) -> (out: Vec<Action>)
    ensures
        action_views(out@) == menu(str_opt(session_id)),
{
    let id = match session_id {
        Some(id) => owned(id),
        None => owned("self"),
    };
    let logout = concat3("loginctl terminate-session \"", id.as_str(), "\" 2>&1");
    let mut out: Vec<Action> = Vec::new();
    out.push(action("\u{F023}", "Lock", lock_command()));
    out.push(action("\u{F186}", "Suspend", session_command("suspend")));
    out.push(action("\u{F021}", "Reboot", session_command("reboot")));
    out.push(action("\u{F011}", "Shutdown", session_command("poweroff")));
    out.push(action("\u{F08B}", "Logout", logout));
    assert(action_views(out@) =~= menu(str_opt(session_id)));
    out
}

// ---------------------------------------------------------------------------
// Choosing
// ---------------------------------------------------------------------------

/// The buttons from left to right: -1 stands for the one that cancels, then come
/// the entries of the menu.
pub open spec fn button_order(count: int) -> Seq<int> {
    Seq::new((count + 1) as nat, |i: int| i - 1)
}

/// The buttons from left to right. The entries are counted in 32 bits.
pub fn nav_order(action_count: usize) -> (out: Vec<i32>)
    ensures
        ({
            let count = action_count as i32;
            out@.len() == if count > 0 {
                count + 1
            } else {
                1
            }
        }),
        forall|i: int| 0 <= i < out@.len() ==> #[trigger] out@[i] == i - 1,
{
    let count: i32 = action_count as i32;
    let mut out: Vec<i32> = Vec::new();
    out.push(-1);
    let mut i: i32 = 0;
    while i < count
        invariant
            0 <= i,
            count > 0 ==> i <= count,
            count <= 0 ==> i == 0,
            out@.len() == i + 1,
            forall|j: int| 0 <= j < out@.len() ==> #[trigger] out@[j] == j - 1,
        decreases count - i,
    {
        out.push(i);
        i += 1;
    }
    out
}

/// The button that is selected `delta` buttons further on.
pub open spec fn navigated(count: int, current: int, delta: int) -> int {
    let order = button_order(count);
    order[stepped(place(order, current), delta, order.len() as int)]
}

proof fn place_in_order(count: int, current: int, from: int)
    requires
        0 <= from <= count + 1,
        from <= current + 1 || current < -1,
        count >= 0,
    ensures
        first_place(button_order(count), current, from) == if -1 <= current < count {
            current + 1
        } else {
            0
        },
    decreases count + 1 - from,
{
    if from < count + 1 {
        if button_order(count)[from] != current {
            place_in_order(count, current, from + 1);
        }
    }
}

/// The place of button `current` in the row; the first place where there is no such
/// button.
pub fn button_place(action_count: usize, current: i32) -> (r: usize)
    requires
        action_count < i32::MAX,
    ensures
        r == place(button_order(action_count as int), current as int),
        r <= action_count,
{
    proof {
        place_in_order(action_count as int, current as int, 0);
    }
    if current >= -1 && (current as i64) < action_count as i64 {
        (current as i64 + 1) as usize
    } else {
        0
    }
}

/// Moves the selection `delta` buttons on.
pub fn navigate(action_count: usize, current: i32, delta: i32) -> (r: i32)
    requires
        action_count < i32::MAX,
        fits(
            place(button_order(action_count as int), current as int),
            delta as int,
            action_count + 1,
        ),
    ensures
        r == navigated(action_count as int, current as int, delta as int),
{
    let order = nav_order(action_count);
    let pos: usize = button_place(action_count, current);
    let new_pos: usize = step(pos, delta, order.len());
    order[new_pos]
}

/// Moving on from a button and back again leads to that button, and a selection
/// never leaves the row.
pub proof fn moving_back_returns(count: int, current: int, delta: int)
    requires
        -1 <= current < count,
    ensures
        navigated(count, navigated(count, current, delta), -delta) == current,
        -1 <= navigated(count, current, delta) < count,
{
    let n = count + 1;
    place_in_order(count, current, 0);
    let pos = current + 1;
    vstd::arithmetic::div_mod::lemma_mod_bound(pos + delta, n);
    let next = navigated(count, current, delta);
    assert(next == stepped(pos, delta, n) - 1);
    place_in_order(count, next, 0);
    crate::navigation::a_step_back_undoes_a_step(pos, delta, n);
    vstd::arithmetic::div_mod::lemma_mod_bound(stepped(pos, delta, n) - delta, n);
}

/// What a click on button `index` runs: nothing where it cancels or there is no such
/// button. Either way the menu closes afterwards.
pub fn action_clicked(actions: &Vec<Action>, index: i32) -> (r: Option<CommandLine>)
    ensures
        command_opt(r) == if 0 <= index < actions@.len() {
            Some(shell_view(actions@[index as int]@.command))
        } else {
            None
        },
{
    if index >= 0 && (index as usize) < actions.len() {
        Some(shell(actions[index as usize].command.as_str()))
    } else {
        None
    }
}

// ---------------------------------------------------------------------------
// The window
// ---------------------------------------------------------------------------

pub const WINDOW_WIDTH: u32 = 500;

pub const WINDOW_HEIGHT: u32 = 120;

pub const UNTIL_WINDOW_WIDTH: &'static str = r#"
component ActionButton inherits Rectangle {
    in property <string> icon: "";
    in property <string> label: "";
    in property <bool> is_selected: false;
    callback clicked;

    width: 70px;
    background: is_selected ? #1f3319 : #141414;
    border-radius: 8px;
    border-width: is_selected ? 1px : 0px;
    border-color: #76b900;

    VerticalLayout {
        alignment: center;
        spacing: 6px;

        Text {
            text: icon;
            color: #d4d4d4;
            font-size: 20px;
            font-family: "Symbols Nerd Font";
            horizontal-alignment: center;
        }

        Text {
            text: label;
            color: #999;
            font-size: 10px;
            font-family: "Space Grotesk";
            horizontal-alignment: center;
        }
    }

    TouchArea { clicked => { root.clicked(); } }
}

export component SessionMenu inherits Window {
    width: "#;

pub const UNTIL_WINDOW_HEIGHT: &'static str = r#"px;
    height: "#;

pub const UNTIL_BUTTONS: &'static str = r#"px;
    background: transparent;

    callback action_clicked(int);
    callback navigate(int);

    in property <int> selected_index: 0;

    forward-focus: nav_scope;

    Rectangle {
        background: #0d0d0d;
        border-radius: 14px;
        clip: true;

        nav_scope := FocusScope {
            key-pressed(event) => {
                if (event.text == Key.RightArrow) {
                    navigate(1);
                    accept
                } else if (event.text == Key.LeftArrow) {
                    navigate(-1);
                    accept
                } else if (event.text == Key.Return || event.text == "\u{000d}") {
                    // See helium-launcher.rs's key-pressed comment: layer-shika-adapters
                    // delivers raw xkbcommon UTF-8 ("\r") for Return instead of Slint's
                    // own `Key.Return` ("\n"), so both need to be checked.
                    action_clicked(root.selected_index);
                    accept
                } else if (event.text == Key.Escape) {
                    action_clicked(-1);
                    accept
                } else {
                    reject
                }
            }

            HorizontalLayout {
                padding: 8px;
                spacing: 8px;
                alignment: center;

                ActionButton { icon: "\u{F00D}"; label: "Cancel"; is_selected: root.selected_index == -1; clicked => { action_clicked(-1); } }
"#;

pub const AFTER_BUTTONS: &'static str = r#"
            }
        }
    }
}
"#;

/// The button of the entry at `i`.
pub open spec fn button(a: ActionView, i: nat) -> Seq<char> {
    "\n                ActionButton { icon: \""@ + a.icon + "\"; label: \""@ + a.label + "\"; is_selected: root.selected_index == "@ + decimal(i) + "; clicked => { action_clicked("@ + decimal(i) + "); } }"@
}

/// The buttons of all entries.
pub open spec fn buttons(all: Seq<ActionView>) -> Seq<char>
    decreases all.len(),
{
    if all.len() == 0 {
        Seq::empty()
    } else {
        buttons(all.drop_last()) + button(all.last(), (all.len() - 1) as nat)
    }
}

/// The source of the window with the entries `all`.
pub open spec fn source(all: Seq<ActionView>) -> Seq<char> {
    UNTIL_WINDOW_WIDTH@ + decimal(WINDOW_WIDTH as nat) + UNTIL_WINDOW_HEIGHT@ + decimal(
        WINDOW_HEIGHT as nat,
    ) + UNTIL_BUTTONS@ + buttons(all) + AFTER_BUTTONS@
}

fn button_source(a: &Action, i: usize) -> (s: String)
    ensures
        s@ == button(a@, i as nat),
{
    let index = decimal_text(i as u64);
    let mut s = owned("\n                ActionButton { icon: \"");
    s.append(a.icon.as_str());
    s.append("\"; label: \"");
    s.append(a.label.as_str());
    s.append("\"; is_selected: root.selected_index == ");
    s.append(index.as_str());
    s.append("; clicked => { action_clicked(");
    s.append(index.as_str());
    s.append("); } }");
    s
}

/// Writes the source of the window with the entries `actions`.
pub fn build_slint_source(actions: &Vec<Action>) -> (s: String)
    ensures
        s@ == source(action_views(actions@)),
{
    let ghost all = action_views(actions@);
    let mut row = String::new();
    let mut i: usize = 0;
    assert(all.take(0) =~= Seq::<ActionView>::empty());
    while i < actions.len()
        invariant
            i <= actions@.len(),
            all == action_views(actions@),
            row@ == buttons(all.take(i as int)),
        decreases actions@.len() - i,
    {
        assert(all.take(i + 1).drop_last() =~= all.take(i as int));
        let b = button_source(&actions[i], i);
        row.append(b.as_str());
        i += 1;
    }
    assert(all.take(all.len() as int) =~= all);
    let width = decimal_text(WINDOW_WIDTH as u64);
    let height = decimal_text(WINDOW_HEIGHT as u64);
    let mut s = owned(UNTIL_WINDOW_WIDTH);
    s.append(width.as_str());
    s.append(UNTIL_WINDOW_HEIGHT);
    s.append(height.as_str());
    s.append(UNTIL_BUTTONS);
    s.append(row.as_str());
    s.append(AFTER_BUTTONS);
    s
}

// ---------------------------------------------------------------------------
// Laws
// ---------------------------------------------------------------------------

/// A session is named in the command that ends it just as the environment names it.
pub proof fn the_session_is_named_as_it_is(id: Seq<char>)
    ensures
        menu(Some(id)).last().command == "loginctl terminate-session \""@ + id + "\" 2>&1"@,
        menu(None).last().command == "loginctl terminate-session \"self\" 2>&1"@,
        forall|i: int| 0 <= i < 4 ==> #[trigger] menu(Some(id))[i] == menu(None)[i],
{
    reveal_strlit("loginctl terminate-session \"");
    reveal_strlit("self");
    reveal_strlit("\" 2>&1");
    reveal_strlit("loginctl terminate-session \"self\" 2>&1");
    assert("loginctl terminate-session \""@ + "self"@ + "\" 2>&1"@
        =~= "loginctl terminate-session \"self\" 2>&1"@);
}

/// An action is asked for by its own name, first of the login manager and then of
/// systemd.
pub proof fn an_action_is_asked_for_twice(action: Seq<char>)
    ensures
        session_command_text(action) == "loginctl "@ + action + " 2>&1 || "@ + "systemctl "@ + action + " 2>&1"@,
{
    reveal_strlit(" 2>&1 || systemctl ");
    reveal_strlit(" 2>&1 || ");
    reveal_strlit("systemctl ");
    assert(" 2>&1 || systemctl "@ =~= " 2>&1 || "@ + "systemctl "@);
    assert(session_command_text(action) =~= "loginctl "@ + action + " 2>&1 || "@ + "systemctl "@ + action
        + " 2>&1"@);
}

/// A step to the right selects the next button, a step to the left the one before, and
/// both go round at the ends; a selection outside the row counts as the button that
/// cancels.
pub proof fn a_step_selects_the_next_button(count: int, current: int)
    requires
        -1 <= current < count,
    ensures
        navigated(count, current, 1) == if current + 1 < count {
            current + 1
        } else {
            -1
        },
        navigated(count, current, -1) == if current > -1 {
            current - 1
        } else {
            count - 1
        },
        navigated(count, current, 0) == current,
        forall|delta: int, outside: int|
            outside < -1 || outside >= count ==> #[trigger] navigated(count, outside, delta) == navigated(
                count,
                -1,
                delta,
            ),
{
    place_in_order(count, current, 0);
    crate::navigation::a_step_goes_to_the_neighbour(current + 1, count + 1);
    assert forall|delta: int, outside: int| outside < -1 || outside >= count implies #[trigger] navigated(
        count,
        outside,
        delta,
    ) == navigated(count, -1, delta) by {
        place_in_order(count, outside, 0);
        place_in_order(count, -1, 0);
    }
}

/// The buttons of the window are those of the entries, each with its icon, its label and
/// its own place, one after the other.
pub proof fn every_entry_has_its_button(all: Seq<ActionView>, next: ActionView)
    ensures
        buttons(Seq::<ActionView>::empty()) == Seq::<char>::empty(),
        buttons(all.push(next)) == buttons(all) + "\n                ActionButton { icon: \""@ + next.icon
            + "\"; label: \""@ + next.label + "\"; is_selected: root.selected_index == "@ + decimal(all.len())
            + "; clicked => { action_clicked("@ + decimal(all.len()) + "); } }"@,
{
    assert(all.push(next).drop_last() =~= all);
    assert(buttons(all.push(next)) =~= buttons(all) + "\n                ActionButton { icon: \""@ + next.icon
        + "\"; label: \""@ + next.label + "\"; is_selected: root.selected_index == "@ + decimal(all.len())
        + "; clicked => { action_clicked("@ + decimal(all.len()) + "); } }"@);
}

/// The buttons stand in the window as they are.
pub proof fn the_buttons_stand_in_the_window(all: Seq<ActionView>)
    ensures
        crate::text::contains_text(source(all), buttons(all)),
        source(all) == source(Seq::empty()).take(source(Seq::empty()).len() - AFTER_BUTTONS@.len()) + buttons(
            all,
        ) + AFTER_BUTTONS@,
{
    let none = Seq::<ActionView>::empty();
    let head = UNTIL_WINDOW_WIDTH@ + decimal(WINDOW_WIDTH as nat) + UNTIL_WINDOW_HEIGHT@ + decimal(
        WINDOW_HEIGHT as nat,
    ) + UNTIL_BUTTONS@;
    assert(source(none) =~= head + AFTER_BUTTONS@);
    assert(source(none).take(source(none).len() - AFTER_BUTTONS@.len()) =~= head);
    assert(source(all) =~= head + buttons(all) + AFTER_BUTTONS@);
    crate::text::a_part_is_found_anywhere(source(all), buttons(all));
}

} // verus!
