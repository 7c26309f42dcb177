//! Which model the chat talks to, and what its window shows of the models.

use crate::command::{command, command_view, CommandLine, CommandView, Output};
use crate::json::{document_in, parse_bytes, text_of, trees, Json, Tree};
use crate::ollama::{EventView, OllamaEvent, FALLBACK_MODEL, OLLAMA_BASE};
use crate::paths::{below, home, home_dir, join_path, str_opt};
use crate::text::{concat2, concat3, owned, same_text, trim, trimmed, view_opt, views};
use vstd::prelude::*;
use vstd::string::StringSliceAdditionalSpecFns;
use vstd::utf8::{
    encode_utf8, encode_utf8_valid_utf8, is_char_boundary, is_char_boundary_iff_not_is_continuation_byte,
    is_char_boundary_start_end_of_seq,
};

verus! {

/// The file that keeps the model that was picked last.
pub fn config_path(env_home: Option<&str>) -> (r: String)
    ensures
        r@ == below(home(str_opt(env_home)), ".config/ollama-chat/model.conf"@),
{
    let h = home_dir(env_home);
    join_path(h.as_str(), ".config/ollama-chat/model.conf")
}

/// A text without the white space around it, where anything is left.
pub open spec fn filled(s: Option<Seq<char>>) -> Option<Seq<char>> {
    match s {
        Some(t) => if trimmed(t).len() > 0 {
            Some(trimmed(t))
        } else {
            None
        },
        None => None,
    }
}

/// A text without the white space around it, where anything is left.
pub fn nonempty(s: Option<&str>) -> (r: Option<String>)
    ensures
        view_opt(r) == filled(str_opt(s)),
{
    match s {
        Some(t) => {
            let t = trim(t);
            if t.as_str().is_empty() {
                None
            } else {
                Some(t)
            }
        },
        None => None,
    }
}

/// The model that the file of `config_path` names, given its contents where it
/// could be read.
pub fn read_saved_model(contents: Option<&str>) -> (r: Option<String>)
    ensures
        view_opt(r) == filled(str_opt(contents)),
{
    nonempty(contents)
}

// ---------------------------------------------------------------------------
// The installed models
// ---------------------------------------------------------------------------

/// Whether the server answered: curl ended well and printed the status 200.
pub open spec fn answered(output: Option<Output>) -> bool {
    output matches Some(o) && o.success && o.stdout@ == seq![50u8, 48u8, 48u8]
}

/// The command that asks for a page within `seconds` and prints the status of the
/// answer.
pub open spec fn probe_view(url: Seq<char>, seconds: Seq<char>) -> CommandView {
    command_view(
        "curl"@,
        seq!["-s"@, "-o"@, "/dev/null"@, "-w"@, "%{http_code}"@, "--max-time"@, seconds, url],
    )
}

fn page_command(url: &str, seconds: &str) -> (c: CommandLine)
    ensures
        c@ == probe_view(url@, seconds@),
{
    let c = command("curl").arg("-s").arg("-o").arg("/dev/null").arg("-w").arg("%{http_code}").arg(
        "--max-time",
    ).arg(seconds).arg(url);
    assert(c@.args =~= probe_view(url@, seconds@).args);
    c
}

/// The command that asks Ollama whether it answers.
pub fn status_command() -> (c: CommandLine)
    ensures
        c@ == probe_view(OLLAMA_BASE@, "2"@),
{
    page_command(OLLAMA_BASE, "2")
}

/// The command that asks for Ollama's own site.
pub fn reachability_command() -> (c: CommandLine)
    ensures
        c@ == probe_view("https://ollama.com"@, "3"@),
{
    page_command("https://ollama.com", "3")
}

/// The command that asks Ollama for the installed models.
pub fn models_command() -> (c: CommandLine)
    ensures
        c@ == command_view(
            "curl"@,
            seq!["-s"@, "--max-time"@, "5"@, OLLAMA_BASE@ + "/api/tags"@],
        ),
{
    let url = concat2(OLLAMA_BASE, "/api/tags");
    let c = command("curl").arg("-s").arg("--max-time").arg("5").arg(url.as_str());
    assert(c@.args =~= seq!["-s"@, "--max-time"@, "5"@, OLLAMA_BASE@ + "/api/tags"@]);
    c
}

/// Whether Ollama answers, given the output of the request to it.
pub fn ollama_running(output: &Option<Output>) -> (r: bool)
    ensures
        r == answered(*output),
{
    match output {
        Some(o) => {
            let r = o.success && o.stdout.len() == 3 && o.stdout[0] == 50 && o.stdout[1] == 48
                && o.stdout[2] == 48;
            assert(r ==> o.stdout@ =~= seq![50u8, 48u8, 48u8]);
            r
        },
        None => false,
    }
}

/// Whether the request to Ollama's own site succeeded: curl ended well and printed
/// a status that begins with 2.
pub fn internet_reachable(output: &Option<Output>) -> (r: bool)
    ensures
        r == (output matches Some(o) && o.success && o.stdout@.len() > 0 && o.stdout@[0] == 50u8),
{
    match output {
        Some(o) => o.success && o.stdout.len() > 0 && o.stdout[0] == 50,
        None => false,
    }
}

/// The names of those of `items` that have one, in order.
pub open spec fn model_names(items: Seq<Tree>) -> Seq<Seq<char>>
    decreases items.len(),
{
    if items.len() == 0 {
        Seq::empty()
    } else {
        let before = model_names(items.drop_last());
        match text_of(items.last().member("name"@)) {
            Some(name) => before.push(name),
            None => before,
        }
    }
}

/// The names of the installed models in the server's reply, where it holds a list.
pub open spec fn installed(reply: Tree) -> Option<Seq<Seq<char>>> {
    match reply.member("models"@) {
        Some(Tree::Array(items)) => Some(model_names(items)),
        _ => None,
    }
}

/// Texts that may be absent, by their characters.
pub open spec fn views_opt(v: Option<Vec<String>>) -> Option<Seq<Seq<char>>> {
    match v {
        Some(v) => Some(views(v@)),
        None => None,
    }
}

/// The names of the installed models in the server's reply.
pub fn models_in(reply: &Json) -> (r: Option<Vec<String>>)
    ensures
        views_opt(r) == installed(reply.tree()),
{
    let list = match reply.get("models") {
        Some(list) => list,
        None => {
            return None;
        },
    };
    let items = match list.as_array() {
        Some(items) => items,
        None => {
            return None;
        },
    };
    let mut out: Vec<String> = Vec::new();
    let mut i: usize = 0;
    assert(trees(items@).take(0) =~= Seq::<Tree>::empty());
    assert(views(out@) =~= Seq::<Seq<char>>::empty());
    while i < items.len()
        invariant
            i <= items@.len(),
            views(out@) == model_names(trees(items@).take(i as int)),
        decreases items@.len() - i,
    {
        assert(trees(items@).take(i + 1).drop_last() =~= trees(items@).take(i as int));
        if let Some(name) = items[i].get("name") {
            if let Some(s) = name.as_text() {
                let ghost before = views(out@);
                out.push(s.clone());
                assert(views(out@) =~= before.push(s@));
            }
        }
        i += 1;
    }
    assert(trees(items@).take(items@.len() as int) =~= trees(items@));
    Some(out)
}

/// The names of the installed models, given the output of the request for them.
pub open spec fn fetched(output: Option<Output>) -> Option<Seq<Seq<char>>> {
    match output {
        Some(o) => match document_in(o.stdout@) {
            Some(reply) => if o.success {
                installed(reply)
            } else {
                None
            },
            None => None,
        },
        None => None,
    }
}

/// The names of the installed models, given the output of the request for them.
pub fn fetch_models(output: &Option<Output>) -> (r: Option<Vec<String>>)
    ensures
        views_opt(r) == fetched(*output),
{
    match output {
        Some(o) => {
            if !o.success {
                return None;
            }
            match parse_bytes(o.stdout.as_slice()) {
                Some(reply) => models_in(&reply),
                None => None,
            }
        },
        None => None,
    }
}

// ---------------------------------------------------------------------------
// The choice
// ---------------------------------------------------------------------------

/// The model to use: the saved one where it is installed, else the fallback where
/// that is, else the first.
pub open spec fn choice(names: Seq<Seq<char>>, saved: Option<Seq<char>>) -> Option<Seq<char>> {
    if saved matches Some(s) && names.contains(s) {
        saved
    } else if names.contains(FALLBACK_MODEL@) {
        Some(FALLBACK_MODEL@)
    } else if names.len() > 0 {
        Some(names[0])
    } else {
        None
    }
}

/// Whether `name` is one of `names`.
pub fn listed(names: &Vec<String>, name: &str) -> (r: bool)
    ensures
        r == views(names@).contains(name@),
{
    let mut i: usize = 0;
    while i < names.len()
        invariant
            i <= names@.len(),
            forall|j: int| 0 <= j < i ==> views(names@)[j] != name@,
        decreases names@.len() - i,
    {
        if same_text(names[i].as_str(), name) {
            assert(views(names@)[i as int] == name@);
            return true;
        }
        i += 1;
    }
    false
}

/// Picks the model to use.
pub fn pick_model(names: &Vec<String>, saved: Option<&str>) -> (r: Option<String>)
    ensures
        view_opt(r) == choice(views(names@), str_opt(saved)),
{
    if let Some(s) = saved {
        if listed(names, s) {
            return Some(owned(s));
        }
    }
    if listed(names, FALLBACK_MODEL) {
        return Some(owned(FALLBACK_MODEL));
    }
    if names.len() > 0 {
        return Some(names[0].clone());
    }
    None
}

/// The model that the window opens with: the choice, or the fallback where nothing
/// is installed.
pub fn initial_model(names: &Vec<String>, saved: Option<&str>) -> (r: String)
    ensures
        r@ == (match choice(views(names@), str_opt(saved)) {
            Some(m) => m,
            None => FALLBACK_MODEL@,
        }),
{
    match pick_model(names, saved) {
        Some(m) => m,
        None => owned(FALLBACK_MODEL),
    }
}

/// The choice is always one of the installed models, there is one whenever any is
/// installed, and a saved model that is installed is never passed over.
pub proof fn the_choice_is_installed(names: Seq<Seq<char>>, saved: Option<Seq<char>>)
    ensures
        choice(names, saved) is Some <==> names.len() > 0,
        choice(names, saved) matches Some(m) ==> names.contains(m),
        saved matches Some(s) && names.contains(s) ==> choice(names, saved) == saved,
{
}

/// Whether the fallback is downloaded without being asked for: Ollama answers,
/// nothing is installed, and its site can be reached.
pub fn wants_auto_pull(up: bool, names: &Vec<String>, reachable: bool) -> (r: bool)
    ensures
        r == (up && names@.len() == 0 && reachable),
{
    up && names.len() == 0 && reachable
}

/// The model to download, given what was typed: nothing where that is empty.
pub fn install_name(typed: &str) -> (r: Option<String>)
    ensures
        view_opt(r) == filled(Some(typed@)),
{
    nonempty(Some(typed))
}

// ---------------------------------------------------------------------------
// The window
// ---------------------------------------------------------------------------

/// The height of a row of the list of models.
pub const ROW_HEIGHT: u32 = 28;

/// How many rows of the list show before it scrolls.
pub const MAX_VISIBLE_ROWS: u32 = 6;

/// The height of the list of models, with the row that installs another one.
pub open spec fn dropdown_height(model_count: nat) -> nat {
    let wanted = (model_count % 0x1_0000_0000 + 1) as nat;
    let rows = if wanted < MAX_VISIBLE_ROWS {
        wanted
    } else {
        MAX_VISIBLE_ROWS as nat
    };
    rows * ROW_HEIGHT as nat + 8
}

/// Whether `dropdown_height_px` can count one row more than there are models.
pub fn dropdown_height_fits(model_count: usize) -> (r: bool)
    ensures
        r == (model_count as nat % 0x1_0000_0000 != 0xFFFF_FFFF),
{
    model_count as u64 % 0x1_0000_0000 != 0xFFFF_FFFF
}

/// The height of the list of `model_count` models. The count is taken in 32 bits.
pub fn dropdown_height_px(model_count: usize) -> (h: u32)
    requires
        model_count as nat % 0x1_0000_0000 != 0xFFFF_FFFF,
    ensures
        h == dropdown_height(model_count as nat),
{
    let count: u64 = model_count as u64 % 0x1_0000_0000;
    let wanted: u32 = count as u32 + 1;
    let rows: u32 = if wanted < MAX_VISIBLE_ROWS {
        wanted
    } else {
        MAX_VISIBLE_ROWS
    };
    rows * ROW_HEIGHT + 8
}

/// A change to the window.
pub enum Update {
    /// The line of information reads so.
    Info(String),
    /// The banner of the download that was not asked for goes away.
    AutoPullOver,
    /// The list of models is asked for again.
    RefreshModels,
    /// The conversation reads so.
    History(String),
    /// No reply is in progress any more.
    GenerationOver,
    /// The list shows these models.
    Models(Vec<String>),
    /// The chat talks to this model.
    Model(String),
}

/// A change by its characters.
pub enum UpdateView {
    Info(Seq<char>),
    AutoPullOver,
    RefreshModels,
    History(Seq<char>),
    GenerationOver,
    Models(Seq<Seq<char>>),
    Model(Seq<char>),
}

impl View for Update {
    type V = UpdateView;

    open spec fn view(&self) -> UpdateView {
        match *self {
            Update::Info(s) => UpdateView::Info(s@),
            Update::AutoPullOver => UpdateView::AutoPullOver,
            Update::RefreshModels => UpdateView::RefreshModels,
            Update::History(s) => UpdateView::History(s@),
            Update::GenerationOver => UpdateView::GenerationOver,
            Update::Models(names) => UpdateView::Models(views(names@)),
            Update::Model(name) => UpdateView::Model(name@),
        }
    }
}

/// The changes by their characters.
pub open spec fn update_views(v: Seq<Update>) -> Seq<UpdateView> {
    Seq::new(v.len(), |i: int| v[i]@)
}

/// What an event changes in the window, given the conversation so far.
pub open spec fn event_updates(event: EventView, history: Seq<char>) -> Seq<UpdateView> {
    match event {
        EventView::PullProgress { text, auto: _ } => seq![UpdateView::Info(text)],
        EventView::PullFinished { message, ok, auto } => seq![UpdateView::Info(message)] + (if auto {
            seq![UpdateView::AutoPullOver]
        } else {
            seq![]
        }) + (if ok {
            seq![UpdateView::RefreshModels]
        } else {
            seq![]
        }),
        EventView::GenerateToken(text) => seq![UpdateView::History(history + text)],
        EventView::GenerateFinished => seq![UpdateView::GenerationOver],
    }
}

/// What an event changes in the window, given the conversation so far.
pub fn updates_for(event: &OllamaEvent, history: &str) -> (out: Vec<Update>)
    ensures
        update_views(out@) == event_updates(event@, history@),
{
    let mut out: Vec<Update> = Vec::new();
    match event {
        OllamaEvent::PullProgress { text, auto: _ } => {
            out.push(Update::Info(text.clone()));
        },
        OllamaEvent::PullFinished { message, ok, auto } => {
            out.push(Update::Info(message.clone()));
            if *auto {
                out.push(Update::AutoPullOver);
            }
            if *ok {
                out.push(Update::RefreshModels);
            }
        },
        OllamaEvent::GenerateToken(text) => {
            out.push(Update::History(concat2(history, text.as_str())));
        },
        OllamaEvent::GenerateFinished => {
            out.push(Update::GenerationOver);
        },
    }
    assert(update_views(out@) =~= event_updates(event@, history@));
    out
}

/// The conversation after some changes: as the last of them has it that tells of it.
pub open spec fn shown_history(history: Seq<char>, updates: Seq<UpdateView>) -> Seq<char>
    decreases updates.len(),
{
    if updates.len() == 0 {
        history
    } else {
        match updates.last() {
            UpdateView::History(text) => text,
            _ => shown_history(history, updates.drop_last()),
        }
    }
}

/// The conversation after some events.
pub open spec fn history_after(history: Seq<char>, events: Seq<EventView>) -> Seq<char>
    decreases events.len(),
{
    if events.len() == 0 {
        history
    } else {
        let before = history_after(history, events.drop_last());
        shown_history(before, event_updates(events.last(), before))
    }
}

/// What the pieces among some events say, one after the other.
pub open spec fn spoken(events: Seq<EventView>) -> Seq<char>
    decreases events.len(),
{
    if events.len() == 0 {
        Seq::empty()
    } else {
        match events.last() {
            EventView::GenerateToken(text) => spoken(events.drop_last()) + text,
            _ => spoken(events.drop_last()),
        }
    }
}

/// The conversation grows by just the pieces of the reply, in order, and nothing that
/// was said before is lost.
pub proof fn the_conversation_grows_by_the_pieces(history: Seq<char>, events: Seq<EventView>)
    ensures
        history_after(history, events) == history + spoken(events),
    decreases events.len(),
{
    if events.len() == 0 {
        assert(history + Seq::<char>::empty() =~= history);
    } else {
        let front = events.drop_last();
        the_conversation_grows_by_the_pieces(history, front);
        let before = history_after(history, front);
        let updates = event_updates(events.last(), before);
        match events.last() {
            EventView::GenerateToken(text) => {
                assert(updates.last() == UpdateView::History(before + text));
                assert(history + spoken(front) + text =~= history + (spoken(front) + text));
            },
            _ => {
                no_history_in(before, updates);
            },
        }
    }
}

proof fn no_history_in(history: Seq<char>, updates: Seq<UpdateView>)
    requires
        forall|i: int| 0 <= i < updates.len() ==> !((#[trigger] updates[i]) is History),
    ensures
        shown_history(history, updates) == history,
    decreases updates.len(),
{
    if updates.len() > 0 {
        no_history_in(history, updates.drop_last());
    }
}

/// What a new list of the installed models changes, where the server gave one: what
/// the window lists.
pub open spec fn refresh_updates(names: Option<Seq<Seq<char>>>) -> Seq<UpdateView> {
    match names {
        Some(n) => seq![UpdateView::Models(n)],
        None => Seq::empty(),
    }
}

/// What a new list of the installed models changes.
pub fn models_refreshed(names: Option<Vec<String>>) -> (out: Vec<Update>)
    ensures
        update_views(out@) == refresh_updates(views_opt(names)),
{
    let mut out: Vec<Update> = Vec::new();
    let ghost given = views_opt(names);
    if let Some(n) = names {
        out.push(Update::Models(n));
    }
    assert(update_views(out@) =~= refresh_updates(given));
    out
}

/// What the user's pick of a model changes: whom the chat talks to, and the line of
/// information, which is emptied.
pub open spec fn pick_updates(name: Seq<char>) -> Seq<UpdateView> {
    seq![UpdateView::Model(name), UpdateView::Info(Seq::empty())]
}

/// What the user's pick of a model changes.
pub fn model_picked(name: &str) -> (out: Vec<Update>)
    ensures
        update_views(out@) == pick_updates(name@),
{
    let mut out: Vec<Update> = Vec::new();
    out.push(Update::Model(owned(name)));
    let empty = String::new();
    assert(empty@ =~= Seq::<char>::empty());
    out.push(Update::Info(empty));
    assert(update_views(out@) =~= pick_updates(name@));
    out
}

/// The model of an open chat stays the user's: neither an event nor a new list of the
/// installed models changes it, only a pick does.
pub proof fn only_a_pick_changes_the_model(
    event: EventView,
    history: Seq<char>,
    names: Option<Seq<Seq<char>>>,
    pick: Seq<char>,
)
    ensures
        forall|i: int|
            0 <= i < event_updates(event, history).len() ==> !((#[trigger] event_updates(
                event,
                history,
            )[i]) is Model),
        forall|i: int|
            0 <= i < refresh_updates(names).len() ==> !((#[trigger] refresh_updates(names)[i]) is Model),
        pick_updates(pick).contains(UpdateView::Model(pick)),
{
    assert(pick_updates(pick)[0] == UpdateView::Model(pick));
}

/// The conversation once `prompt` has been put to the model.
pub fn with_prompt(history: &str, prompt: &str) -> (r: String)
    ensures
        r@ == history@ + "\n> "@ + prompt@ + "\n"@,
{
    let head = concat3(history, "\n> ", prompt);
    concat2(head.as_str(), "\n")
}

/// The bytes of `text` between two places, where both are boundaries of
/// characters; the places may come in either order.
pub open spec fn selected(text: Seq<u8>, anchor: int, cursor: int) -> Option<Seq<u8>> {
    let start = if anchor <= cursor {
        anchor
    } else {
        cursor
    };
    let end = if anchor <= cursor {
        cursor
    } else {
        anchor
    };
    if is_char_boundary(text, start) && is_char_boundary(text, end) {
        Some(text.subrange(start, end))
    } else {
        None
    }
}

proof fn boundary_in_rest(text: Seq<char>, rest: Seq<char>, start: int, end: int)
    requires
        0 <= start <= end,
        is_char_boundary(encode_utf8(text), start),
        is_char_boundary(encode_utf8(text), end),
        encode_utf8(rest) == encode_utf8(text).subrange(start, encode_utf8(text).len() as int),
    ensures
        end <= encode_utf8(text).len(),
        is_char_boundary(encode_utf8(rest), end - start),
{
    let bytes = encode_utf8(text);
    let tail = encode_utf8(rest);
    encode_utf8_valid_utf8(text);
    encode_utf8_valid_utf8(rest);
    is_char_boundary_start_end_of_seq(tail);
    if end < bytes.len() {
        is_char_boundary_iff_not_is_continuation_byte(bytes, end);
        is_char_boundary_iff_not_is_continuation_byte(tail, end - start);
        assert(tail[end - start] == bytes[end]);
    }
}

/// The part of `text` between the byte offsets `anchor` and `cursor`.
pub fn selection(text: &str, anchor: usize, cursor: usize) -> (r: Option<&str>)
    ensures
        (match r {
            Some(s) => selected(text.spec_bytes(), anchor as int, cursor as int) == Some(
                s.spec_bytes(),
            ),
            None => selected(text.spec_bytes(), anchor as int, cursor as int) is None,
        }),
{
    let start: usize = if anchor <= cursor {
        anchor
    } else {
        cursor
    };
    let end: usize = if anchor <= cursor {
        cursor
    } else {
        anchor
    };
    if !text.is_char_boundary(start) || !text.is_char_boundary(end) {
        return None;
    }
    let (_, rest) = text.split_at(start);
    proof {
        boundary_in_rest(text@, rest@, start as int, end as int);
    }
    let (part, _) = rest.split_at(end - start);
    assert(part.spec_bytes() =~= text.spec_bytes().subrange(start as int, end as int));
    Some(part)
}

// ---------------------------------------------------------------------------
// Laws
// ---------------------------------------------------------------------------

/// A text that was typed or kept is taken with all that stands between the white space
/// at its ends, and white space alone is nothing.
pub proof fn a_filled_text_is_taken_whole(a: Seq<char>, s: Seq<char>, b: Seq<char>)
    requires
        crate::text::all_space(a),
        crate::text::all_space(b),
        s.len() > 0 ==> !crate::text::is_space(s.first()) && !crate::text::is_space(s.last()),
    ensures
        filled(Some(a + s + b)) == if s.len() > 0 {
            Some(s)
        } else {
            None
        },
{
    crate::text::trimming_takes_off_the_ends(a, s, b);
}

/// The list of models holds the name of each model that has one, as it is and in the
/// server's order.
pub proof fn every_model_is_listed(a: Seq<Tree>, model: Tree, b: Seq<Tree>)
    ensures
        model.member("name"@) matches Some(Tree::Text(name)) ==> model_names(a.push(model) + b)
            == model_names(a).push(name) + model_names(b),
        !(model.member("name"@) matches Some(Tree::Text(_))) ==> model_names(a.push(model) + b)
            == model_names(a) + model_names(b),
        model_names(Seq::<Tree>::empty()) == Seq::<Seq<char>>::empty(),
    decreases b.len(),
{
    let all = a.push(model) + b;
    if b.len() == 0 {
        assert(all =~= a.push(model));
        assert(all.drop_last() =~= a);
        assert(model_names(a) + model_names(b) =~= model_names(a));
        if let Some(Tree::Text(name)) = model.member("name"@) {
            assert(model_names(a).push(name) + model_names(b) =~= model_names(a).push(name));
        }
    } else {
        every_model_is_listed(a, model, b.drop_last());
        assert(all.drop_last() =~= a.push(model) + b.drop_last());
        assert(all.last() == b.last());
        if let Some(Tree::Text(name)) = model.member("name"@) {
            assert(model_names(all) =~= model_names(a).push(name) + model_names(b));
        } else {
            assert(model_names(all) =~= model_names(a) + model_names(b));
        }
    }
}

/// Which model is chosen: the saved one where it is installed, else the fallback where
/// that is, else the first.
pub proof fn the_choice_goes_by_rank(names: Seq<Seq<char>>, saved: Option<Seq<char>>)
    ensures
        !(saved matches Some(s) && names.contains(s)) && names.contains("qwen2.5:0.5b"@) ==> choice(
            names,
            saved,
        ) == Some("qwen2.5:0.5b"@),
        !(saved matches Some(s) && names.contains(s)) && !names.contains("qwen2.5:0.5b"@) && names.len() > 0
            ==> choice(names, saved) == Some(names[0]),
{
}

/// The end of a download is told to the user, the banner goes away exactly for one that
/// was not asked for, and the list is asked for again exactly where it succeeded.
pub proof fn the_end_of_a_download_shows(message: Seq<char>, ok: bool, auto: bool, history: Seq<char>)
    ensures
        ({
            let updates = event_updates(EventView::PullFinished { message, ok, auto }, history);
            &&& updates.len() > 0
            &&& updates[0] == UpdateView::Info(message)
            &&& updates.contains(UpdateView::AutoPullOver) <==> auto
            &&& updates.contains(UpdateView::RefreshModels) <==> ok
        }),
        event_updates(EventView::PullProgress { text: message, auto }, history) == seq![
            UpdateView::Info(message),
        ],
        event_updates(EventView::GenerateFinished, history) == seq![UpdateView::GenerationOver],
{
    let updates = event_updates(EventView::PullFinished { message, ok, auto }, history);
    if auto {
        assert(updates[1] == UpdateView::AutoPullOver);
    }
    if ok {
        assert(updates[updates.len() - 1] == UpdateView::RefreshModels);
    }
}

/// The list is as high as its rows, one for each model and one more, up to six.
pub proof fn the_list_is_as_high_as_its_rows(count: nat)
    requires
        count < 0xFFFF_FFFF,
    ensures
        count <= 5 ==> dropdown_height(count) == 28 * (count + 1) + 8,
        count >= 5 ==> dropdown_height(count) == 28 * 6 + 8,
{
}

/// A piece of the reply is put behind the conversation as it is; nothing else changes the
/// conversation.
pub proof fn a_piece_is_put_behind_the_conversation(
    history: Seq<char>,
    events: Seq<EventView>,
    text: Seq<char>,
    other: EventView,
)
    ensures
        history_after(history, Seq::empty()) == history,
        history_after(history, events.push(EventView::GenerateToken(text))) == history_after(history, events)
            + text,
        !(other is GenerateToken) ==> history_after(history, events.push(other)) == history_after(history, events),
        event_updates(EventView::GenerateToken(text), history) == seq![UpdateView::History(history + text)],
        !(other is GenerateToken) ==> forall|i: int|
            0 <= i < event_updates(other, history).len() ==> !((#[trigger] event_updates(other, history)[i]) is History),
{
    let piece = EventView::GenerateToken(text);
    the_conversation_grows_by_the_pieces(history, events);
    the_conversation_grows_by_the_pieces(history, events.push(piece));
    the_conversation_grows_by_the_pieces(history, events.push(other));
    assert(events.push(piece).drop_last() =~= events);
    assert(events.push(other).drop_last() =~= events);
    assert(history + (spoken(events) + text) =~= history + spoken(events) + text);
}

/// A new list of the installed models is shown as it is, and one that could not be had
/// changes nothing; a pick sets the model and clears the message.
pub proof fn lists_and_picks_are_taken_as_they_are(names: Seq<Seq<char>>, pick: Seq<char>)
    ensures
        refresh_updates(Some(names)) == seq![UpdateView::Models(names)],
        refresh_updates(None) == Seq::<UpdateView>::empty(),
        pick_updates(pick) == seq![UpdateView::Model(pick), UpdateView::Info(Seq::empty())],
{
}

/// The installed models are those that the server lists, where the request succeeded.
pub proof fn the_servers_list_is_taken(o: Output, reply: Tree, items: Seq<Tree>)
    requires
        document_in(o.stdout@) == Some(reply),
        reply.member("models"@) == Some(Tree::Array(items)),
    ensures
        o.success ==> fetched(Some(o)) == Some(model_names(items)),
        !o.success ==> fetched(Some(o)) is None,
        fetched(None) is None,
{
}

/// The selection is what stands between its two ends, whichever of them comes first.
pub proof fn a_selection_lies_between_its_ends(a: Seq<u8>, s: Seq<u8>, b: Seq<u8>)
    ensures
        ({
            let text = a + s + b;
            let start = a.len() as int;
            let end = (a.len() + s.len()) as int;
            &&& is_char_boundary(text, start) && is_char_boundary(text, end) ==> selected(text, start, end)
                == Some(s) && selected(text, end, start) == Some(s)
            &&& !(is_char_boundary(text, start) && is_char_boundary(text, end)) ==> selected(text, start, end) is None
                && selected(text, end, start) is None
        }),
{
    let text = a + s + b;
    assert(text.subrange(a.len() as int, (a.len() + s.len()) as int) =~= s);
    if s.len() == 0 {
        assert(text.subrange(a.len() as int, a.len() as int) =~= s);
    }
}

/// The server runs where it answered with the status 200, and nothing else.
pub proof fn only_a_good_status_counts(o: Output)
    ensures
        answered(Some(o)) <==> o.success && o.stdout@.len() == 3 && o.stdout@[0] == '2' as u8 && o.stdout@[1]
            == '0' as u8 && o.stdout@[2] == '0' as u8,
        !answered(None),
{
    let ok = seq![50u8, 48u8, 48u8];
    if o.stdout@.len() == 3 && o.stdout@[0] == 50 && o.stdout@[1] == 48 && o.stdout@[2] == 48 {
        assert(o.stdout@ =~= ok);
    }
    if o.stdout@ == ok {
        assert(o.stdout@[0] == 50 && o.stdout@[1] == 48 && o.stdout@[2] == 48);
    }
}

} // verus!
