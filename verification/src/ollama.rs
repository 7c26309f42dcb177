//! The chat popup for a locally running Ollama: which model to talk to, what to
//! ask of the server, and what its replies mean.

use crate::command::{command, command_view, CommandLine};
use crate::json::{
    document, field_entries, number_value, object_text, parse, text_of, text_value, truth_value, unsigned_of,
    write_object, writes_object, Json, Tree,
};
use crate::numbers::{decimal, decimal_text, signed_decimal, signed_decimal_text};
use crate::text::{concat2, concat3, contains_text, has_text, owned, views};
use vstd::prelude::*;

verus! {

/// The model that is used where no other choice was made.
pub const FALLBACK_MODEL: &'static str = "qwen2.5:0.5b";

/// Where Ollama serves its requests.
pub const OLLAMA_BASE: &'static str = "http://127.0.0.1:11434";

// ---------------------------------------------------------------------------
// Events
// ---------------------------------------------------------------------------

/// What a download or a reply in progress reports to the window. Everything that a
/// download reports tells whether it was started without being asked for.
pub enum OllamaEvent {
    PullProgress { text: String, auto: bool },
    PullFinished { message: String, ok: bool, auto: bool },
    GenerateToken(String),
    GenerateFinished,
}

/// An event by its characters.
pub enum EventView {
    PullProgress { text: Seq<char>, auto: bool },
    PullFinished { message: Seq<char>, ok: bool, auto: bool },
    GenerateToken(Seq<char>),
    GenerateFinished,
}

impl View for OllamaEvent {
    type V = EventView;

    open spec fn view(&self) -> EventView {
        match *self {
            OllamaEvent::PullProgress { text, auto } => EventView::PullProgress { text: text@, auto },
            OllamaEvent::PullFinished { message, ok, auto } => EventView::PullFinished {
                message: message@,
                ok,
                auto,
            },
            OllamaEvent::GenerateToken(s) => EventView::GenerateToken(s@),
            OllamaEvent::GenerateFinished => EventView::GenerateFinished,
        }
    }
}

/// The events by their characters.
pub open spec fn event_views(v: Seq<OllamaEvent>) -> Seq<EventView> {
    Seq::new(v.len(), |i: int| v[i]@)
}

// ---------------------------------------------------------------------------
// Downloading a model
// ---------------------------------------------------------------------------

/// `Installing 'model'` followed by `rest`.
pub open spec fn installing(model: Seq<char>, rest: Seq<char>) -> Seq<char> {
    "Installing '"@ + model + "'"@ + rest
}

/// How far a download has come, in percent, where the chunk tells.
pub open spec fn pull_percent(chunk: Tree) -> Option<int> {
    match (unsigned_of(chunk.member("total"@)), unsigned_of(chunk.member("completed"@))) {
        (Some(t), Some(c)) => if t > 0 {
            Some(c * 100 / t as int)
        } else {
            None
        },
        _ => None,
    }
}

/// Whether the percentage, where it is needed, can be worked out in 64 bits.
pub open spec fn pull_percent_fits(chunk: Tree) -> bool {
    text_of(chunk.member("error"@)) is None ==> match (unsigned_of(chunk.member("total"@)), unsigned_of(chunk.member("completed"@))) {
        (Some(t), Some(c)) => t > 0 ==> c * 100 <= u64::MAX,
        _ => true,
    }
}

/// What a chunk of the reply to a download says: an error, or the state that the
/// download is in with the percentage that is done.
pub open spec fn pull_chunk_text(model: Seq<char>, chunk: Tree) -> Seq<char> {
    match text_of(chunk.member("error"@)) {
        Some(err) => "Error installing '"@ + model + "': "@ + err,
        None => {
            let status = match text_of(chunk.member("status"@)) {
                Some(s) => s,
                None => Seq::empty(),
            };
            match pull_percent(chunk) {
                Some(p) => installing(model, ": "@ + status + " ("@ + decimal(p as nat) + "%)"@),
                None => installing(model, ": "@ + status),
            }
        },
    }
}

/// The text member `key`, where there is one.
fn text_member<'a>(chunk: &'a Json, key: &str) -> (r: Option<&'a String>)
    ensures
        (match r {
            Some(s) => text_of(chunk.tree().member(key@)) == Some(s@),
            None => text_of(chunk.tree().member(key@)) is None,
        }),
{
    match chunk.get(key) {
        Some(v) => v.as_text(),
        None => None,
    }
}

/// The unsigned integer member `key`, where there is one.
fn unsigned_member(chunk: &Json, key: &str) -> (r: Option<u64>)
    ensures
        r == unsigned_of(chunk.tree().member(key@)),
{
    match chunk.get(key) {
        Some(v) => v.as_unsigned(),
        None => None,
    }
}

/// Reports the start of a download.
pub fn pull_started(model: &str, auto: bool) -> (e: OllamaEvent)
    ensures
        e@ == (EventView::PullProgress { text: installing(model@, "..."@), auto }),
{
    let head = concat3("Installing '", model, "'");
    OllamaEvent::PullProgress { text: concat2(head.as_str(), "..."), auto }
}

/// The entries of the request for a download.
pub open spec fn pull_request_entries(model: Seq<char>) -> Seq<(Seq<char>, Tree)> {
    seq![("name"@, Tree::Text(model)), ("stream"@, Tree::Bool(true))]
}

/// Writes the request for a download of `model`, with the progress as a stream.
pub fn pull_request_body(model: &str) -> (r: String)
    ensures
        r@ == object_text(pull_request_entries(model@)),
        writes_object(r@, pull_request_entries(model@)),
{
    let mut fields: Vec<(String, serde_json::Value)> = Vec::new();
    fields.push((owned("name"), text_value(model)));
    fields.push((owned("stream"), truth_value(true)));
    proof {
        reveal_strlit("name");
        reveal_strlit("stream");
        assert("name"@.len() != "stream"@.len());
        assert(field_entries(fields@) =~= pull_request_entries(model@));
    }
    write_object(fields)
}

/// The command that asks the server for a download and prints its reply.
pub fn pull_command(model: &str) -> (c: CommandLine)
    ensures
        c@ == command_view(
            "curl"@,
            seq![
                "-s"@,
                "-N"@,
                "-X"@,
                "POST"@,
                OLLAMA_BASE@ + "/api/pull"@,
                "-d"@,
                object_text(pull_request_entries(model@)),
            ],
        ),
{
    let body = pull_request_body(model);
    let url = concat2(OLLAMA_BASE, "/api/pull");
    let c = command("curl").arg("-s").arg("-N").arg("-X").arg("POST").arg(url.as_str()).arg(
        "-d",
    ).arg(body.as_str());
    assert(c@.args =~= seq![
        "-s"@,
        "-N"@,
        "-X"@,
        "POST"@,
        OLLAMA_BASE@ + "/api/pull"@,
        "-d"@,
        object_text(pull_request_entries(model@)),
    ]);
    c
}

/// The report that the download could not be started.
pub open spec fn pull_not_started_event(model: Seq<char>, auto: bool) -> EventView {
    EventView::PullFinished {
        message: "Failed to install '"@ + model + "': curl not found"@,
        ok: false,
        auto,
    }
}

/// Reports that the download could not be started.
pub fn pull_not_started(model: &str, auto: bool) -> (e: OllamaEvent)
    ensures
        e@ == pull_not_started_event(model@, auto),
{
    OllamaEvent::PullFinished {
        message: concat3("Failed to install '", model, "': curl not found"),
        ok: false,
        auto,
    }
}

/// Reports what a chunk of the reply says.
pub fn pull_chunk(model: &str, chunk: &Json, auto: bool) -> (e: OllamaEvent)
    requires
        pull_percent_fits(chunk.tree()),
    ensures
        e@ == (EventView::PullProgress { text: pull_chunk_text(model@, chunk.tree()), auto }),
{
    if let Some(err) = text_member(chunk, "error") {
        let head = concat3("Error installing '", model, "': ");
        return OllamaEvent::PullProgress { text: concat2(head.as_str(), err.as_str()), auto };
    }
    let mut rest = owned(": ");
    if let Some(status) = text_member(chunk, "status") {
        rest.append(status.as_str());
    } else {
        assert(rest@ + Seq::<char>::empty() =~= rest@);
    }
    let total = unsigned_member(chunk, "total");
    let completed = unsigned_member(chunk, "completed");
    if let (Some(t), Some(c)) = (total, completed) {
        if t > 0 {
            let percent = decimal_text(c * 100 / t);
            rest.append(" (");
            rest.append(percent.as_str());
            rest.append("%)");
        }
    }
    let head = concat3("Installing '", model, "'");
    OllamaEvent::PullProgress { text: concat2(head.as_str(), rest.as_str()), auto }
}

/// What a line of the reply comes to.
pub enum PullLine {
    /// The line is no JSON document and is passed over.
    Skipped,
    /// The line is to be reported.
    Report(OllamaEvent),
    /// The percentage that the line asks for does not fit in 64 bits.
    OutOfRange,
}

/// Reads a line of the reply and reports it.
pub fn pull_line(model: &str, line: &str, auto: bool) -> (r: PullLine)
    ensures
        (match r {
            PullLine::Skipped => document(line@) is None,
            PullLine::Report(e) => document(line@) matches Some(chunk) && pull_percent_fits(chunk)
                && e@ == (EventView::PullProgress { text: pull_chunk_text(model@, chunk), auto }),
            PullLine::OutOfRange => document(line@) matches Some(chunk) && !pull_percent_fits(chunk),
        }),
{
    match parse(line) {
        None => PullLine::Skipped,
        Some(chunk) => {
            let total = unsigned_member(&chunk, "total");
            let completed = unsigned_member(&chunk, "completed");
            if let (None, Some(t), Some(c)) = (text_member(&chunk, "error"), total, completed) {
                if t > 0 && c > u64::MAX / 100 {
                    return PullLine::OutOfRange;
                }
            }
            PullLine::Report(pull_chunk(model, &chunk, auto))
        },
    }
}

/// How the end of a download is put into words.
pub open spec fn pull_message(model: Seq<char>, cancelled: bool, ok: bool) -> Seq<char> {
    if cancelled {
        "Installation of '"@ + model + "' cancelled."@
    } else if ok {
        "'"@ + model + "' installed successfully."@
    } else {
        "Failed to install '"@ + model + "'."@
    }
}

/// Reports the end of a download: `ok` tells whether curl ended well, `cancelled`
/// whether the user stopped it.
pub fn pull_ended(model: &str, cancelled: bool, ok: bool, auto: bool) -> (e: OllamaEvent)
    ensures
        e@ == (EventView::PullFinished { message: pull_message(model@, cancelled, ok), ok, auto }),
{
    let message = if cancelled {
        concat3("Installation of '", model, "' cancelled.")
    } else if ok {
        concat3("'", model, "' installed successfully.")
    } else {
        concat3("Failed to install '", model, "'.")
    };
    OllamaEvent::PullFinished { message, ok, auto }
}

/// Whether every line of a reply can be reported.
pub open spec fn pull_lines_fit(lines: Seq<Seq<char>>) -> bool {
    forall|i: int|
        0 <= i < lines.len() ==> (document(#[trigger] lines[i]) matches Some(chunk)
            ==> pull_percent_fits(chunk))
}

/// The reports on the lines of a reply, in order. A line that is no JSON document
/// is passed over.
pub open spec fn pull_line_events(model: Seq<char>, lines: Seq<Seq<char>>, auto: bool) -> Seq<EventView>
    decreases lines.len(),
{
    if lines.len() == 0 {
        Seq::empty()
    } else {
        let before = pull_line_events(model, lines.drop_last(), auto);
        match document(lines.last()) {
            Some(chunk) => before.push(
                EventView::PullProgress { text: pull_chunk_text(model, chunk), auto },
            ),
            None => before,
        }
    }
}

/// All that a download reports: its start, each line of the reply, its end.
pub open spec fn pull_run_events(
    model: Seq<char>,
    lines: Seq<Seq<char>>,
    cancelled: bool,
    ok: bool,
    auto: bool,
) -> Seq<EventView> {
    seq![EventView::PullProgress { text: installing(model, "..."@), auto }] + pull_line_events(
        model,
        lines,
        auto,
    ) + seq![
        EventView::PullFinished { message: pull_message(model, cancelled, ok), ok, auto },
    ]
}

/// All that a download reports whose reply was `lines`; nothing where a line asks
/// for a percentage that does not fit in 64 bits.
pub fn pull_events(model: &str, lines: &Vec<String>, cancelled: bool, ok: bool, auto: bool) -> (r:
    Option<Vec<OllamaEvent>>)
    ensures
        (match r {
            Some(out) => pull_lines_fit(views(lines@)) && event_views(out@) == pull_run_events(
                model@,
                views(lines@),
                cancelled,
                ok,
                auto,
            ),
            None => !pull_lines_fit(views(lines@)),
        }),
{
    let ghost all = views(lines@);
    let mut out: Vec<OllamaEvent> = Vec::new();
    out.push(pull_started(model, auto));
    let ghost first = seq![EventView::PullProgress { text: installing(model@, "..."@), auto }];
    assert(all.take(0) =~= Seq::<Seq<char>>::empty());
    assert(event_views(out@) =~= first + pull_line_events(model@, all.take(0), auto));
    let mut i: usize = 0;
    while i < lines.len()
        invariant
            i <= lines@.len(),
            all == views(lines@),
            event_views(out@) == first + pull_line_events(model@, all.take(i as int), auto),
            forall|j: int|
                0 <= j < i ==> (document(#[trigger] all[j]) matches Some(chunk)
                    ==> pull_percent_fits(chunk)),
        decreases lines@.len() - i,
    {
        assert(all[i as int] == lines@[i as int]@);
        assert(all.take(i + 1).drop_last() =~= all.take(i as int));
        match pull_line(model, lines[i].as_str(), auto) {
            PullLine::Skipped => {},
            PullLine::Report(e) => {
                let ghost before = event_views(out@);
                let ghost added = e@;
                out.push(e);
                assert(event_views(out@) =~= before.push(added));
                assert(before.push(added) =~= first + pull_line_events(
                    model@,
                    all.take(i as int),
                    auto,
                ).push(added));
            },
            PullLine::OutOfRange => {
                return None;
            },
        }
        i += 1;
    }
    assert(all.take(all.len() as int) =~= all);
    let ghost before = event_views(out@);
    let last = pull_ended(model, cancelled, ok, auto);
    let ghost ended = last@;
    out.push(last);
    assert(event_views(out@) =~= before + seq![ended]);
    Some(out)
}

/// All that is reported where curl could not be started.
pub open spec fn pull_unstarted_events(model: Seq<char>, auto: bool) -> Seq<EventView> {
    seq![
        EventView::PullProgress { text: installing(model, "..."@), auto },
        pull_not_started_event(model, auto),
    ]
}

/// Whether an event is one of a download with this `auto`.
pub open spec fn carries_auto(event: EventView, auto: bool) -> bool {
    match event {
        EventView::PullProgress { auto: a, .. } => a == auto,
        EventView::PullFinished { auto: a, .. } => a == auto,
        _ => false,
    }
}

/// A download reports its end once, as the last thing; all before it is progress.
pub proof fn a_download_ends_once(
    model: Seq<char>,
    lines: Seq<Seq<char>>,
    cancelled: bool,
    ok: bool,
    auto: bool,
)
    ensures
        ({
            let events = pull_run_events(model, lines, cancelled, ok, auto);
            &&& events.last() == (EventView::PullFinished {
                message: pull_message(model, cancelled, ok),
                ok,
                auto,
            })
            &&& forall|i: int| 0 <= i < events.len() - 1 ==> (#[trigger] events[i]) is PullProgress
        }),
{
    lines_report_progress(model, lines, auto);
}

/// Every event of a download tells whether it was started without being asked for,
/// just as it was: also where it could not be started at all.
pub proof fn every_event_carries_auto(
    model: Seq<char>,
    lines: Seq<Seq<char>>,
    cancelled: bool,
    ok: bool,
    auto: bool,
)
    ensures
        ({
            let events = pull_run_events(model, lines, cancelled, ok, auto);
            forall|i: int| 0 <= i < events.len() ==> carries_auto(#[trigger] events[i], auto)
        }),
        ({
            let events = pull_unstarted_events(model, auto);
            forall|i: int| 0 <= i < events.len() ==> carries_auto(#[trigger] events[i], auto)
        }),
{
    lines_report_progress(model, lines, auto);
}

proof fn lines_report_progress(model: Seq<char>, lines: Seq<Seq<char>>, auto: bool)
    ensures
        forall|i: int|
            0 <= i < pull_line_events(model, lines, auto).len() ==> (#[trigger] pull_line_events(
                model,
                lines,
                auto,
            )[i]) is PullProgress && carries_auto(pull_line_events(model, lines, auto)[i], auto),
    decreases lines.len(),
{
    if lines.len() > 0 {
        lines_report_progress(model, lines.drop_last(), auto);
    }
}

// ---------------------------------------------------------------------------
// Generating a reply
// ---------------------------------------------------------------------------

/// The entries of the request for a reply. The model is unloaded right after it.
pub open spec fn generate_request_entries(model: Seq<char>, prompt: Seq<char>) -> Seq<
    (Seq<char>, Tree),
> {
    seq![
        ("model"@, Tree::Text(model)),
        ("prompt"@, Tree::Text(prompt)),
        ("stream"@, Tree::Bool(true)),
        ("keep_alive"@, Tree::Number(Some(0))),
    ]
}

/// Writes the request for a reply of `model` to `prompt`.
pub fn generate_request_body(model: &str, prompt: &str) -> (r: String)
    ensures
        r@ == object_text(generate_request_entries(model@, prompt@)),
        writes_object(r@, generate_request_entries(model@, prompt@)),
{
    let mut fields: Vec<(String, serde_json::Value)> = Vec::new();
    fields.push((owned("model"), text_value(model)));
    fields.push((owned("prompt"), text_value(prompt)));
    fields.push((owned("stream"), truth_value(true)));
    fields.push((owned("keep_alive"), number_value(0)));
    proof {
        reveal_strlit("model");
        reveal_strlit("prompt");
        reveal_strlit("stream");
        reveal_strlit("keep_alive");
        assert("model"@.len() == 5 && "keep_alive"@.len() == 10);
        assert("prompt"@.len() == 6 && "stream"@.len() == 6);
        assert("prompt"@[0] != "stream"@[0]);
        assert(field_entries(fields@) =~= generate_request_entries(model@, prompt@));
    }
    write_object(fields)
}

/// The command that asks the server for a reply and prints it as it comes. It
/// gives up after 30 seconds in which nothing came.
pub fn generate_command(model: &str, prompt: &str) -> (c: CommandLine)
    ensures
        c@ == command_view(
            "curl"@,
            seq![
                "-s"@,
                "-N"@,
                "--speed-limit"@,
                "1"@,
                "--speed-time"@,
                "30"@,
                OLLAMA_BASE@ + "/api/generate"@,
                "-d"@,
                object_text(generate_request_entries(model@, prompt@)),
            ],
        ),
{
    let body = generate_request_body(model, prompt);
    let url = concat2(OLLAMA_BASE, "/api/generate");
    let c = command("curl").arg("-s").arg("-N").arg("--speed-limit").arg("1").arg(
        "--speed-time",
    ).arg("30").arg(url.as_str()).arg("-d").arg(body.as_str());
    assert(c@.args =~= seq![
        "-s"@,
        "-N"@,
        "--speed-limit"@,
        "1"@,
        "--speed-time"@,
        "30"@,
        OLLAMA_BASE@ + "/api/generate"@,
        "-d"@,
        object_text(generate_request_entries(model@, prompt@)),
    ]);
    c
}

/// What is reported where curl could not be started.
pub open spec fn generate_not_started_events() -> Seq<EventView> {
    seq![
        EventView::GenerateToken("\n[no response from Ollama — curl not found]\n"@),
        EventView::GenerateFinished,
    ]
}

/// Reports that curl could not be started.
pub fn generate_not_started() -> (out: Vec<OllamaEvent>)
    ensures
        event_views(out@) == generate_not_started_events(),
{
    let mut out: Vec<OllamaEvent> = Vec::new();
    out.push(
        OllamaEvent::GenerateToken(owned("\n[no response from Ollama — curl not found]\n")),
    );
    out.push(OllamaEvent::GenerateFinished);
    assert(event_views(out@) =~= generate_not_started_events());
    out
}

/// What a chunk of the reply adds to the conversation: an error of the model, or
/// the next piece of its answer where that is not empty.
pub open spec fn generate_chunk_token(chunk: Tree) -> Option<Seq<char>> {
    match text_of(chunk.member("error"@)) {
        Some(err) => Some("\n[model error: "@ + err + "]\n"@),
        None => match text_of(chunk.member("response"@)) {
            Some(resp) => if resp.len() > 0 {
                Some(resp)
            } else {
                None
            },
            None => None,
        },
    }
}

/// A piece of text as the event that reports it.
pub open spec fn token_event(token: Option<Seq<char>>) -> Option<EventView> {
    match token {
        Some(t) => Some(EventView::GenerateToken(t)),
        None => None,
    }
}

/// An event that may be absent, by its characters.
pub open spec fn event_opt(e: Option<OllamaEvent>) -> Option<EventView> {
    match e {
        Some(e) => Some(e@),
        None => None,
    }
}

/// Reports what a chunk of the reply adds to the conversation.
pub fn generate_chunk(chunk: &Json) -> (e: Option<OllamaEvent>)
    ensures
        event_opt(e) == token_event(generate_chunk_token(chunk.tree())),
{
    if let Some(err) = text_member(chunk, "error") {
        return Some(
            OllamaEvent::GenerateToken(concat3("\n[model error: ", err.as_str(), "]\n")),
        );
    }
    if let Some(resp) = text_member(chunk, "response") {
        if !resp.as_str().is_empty() {
            return Some(OllamaEvent::GenerateToken(resp.clone()));
        }
    }
    None
}

/// A reply in progress.
pub struct Generation {
    /// Whether any line was a JSON document so far.
    pub got_any: bool,
}

/// What a line of the reply adds to the conversation. A line that is no JSON
/// document adds nothing.
pub open spec fn generate_line_token(line: Seq<char>) -> Option<Seq<char>> {
    match document(line) {
        Some(chunk) => generate_chunk_token(chunk),
        None => None,
    }
}

/// The words for a reply that went wrong. `code` is the exit code of curl, -1
/// where there is none.
pub open spec fn generate_failure(code: int, err: Seq<char>, got_any: bool) -> Option<Seq<char>> {
    if code == 0 && got_any {
        None
    } else if contains_text(err, "Connection refused"@) || code == 7 {
        Some("\n[Ollama is not running. Check with: sv status ollama]\n"@)
    } else if code == 28 {
        Some("\n[Ollama took too long to respond — timeout]\n"@)
    } else if !got_any {
        Some("\n[no response from Ollama — curl code: "@ + signed_decimal(code) + "]\n"@)
    } else {
        None
    }
}

/// The words at the end of a reply, where there are any to add.
pub open spec fn generate_last_words(
    cancelled: bool,
    code: Option<i32>,
    err: Seq<char>,
    got_any: bool,
) -> Option<Seq<char>> {
    if cancelled {
        Some("\n[stopped]\n"@)
    } else {
        generate_failure(
            match code {
                Some(c) => c as int,
                None => -1,
            },
            err,
            got_any,
        )
    }
}

/// The events at the end of a reply.
pub open spec fn generate_ended_events(last_words: Option<Seq<char>>) -> Seq<EventView> {
    match last_words {
        Some(t) => seq![EventView::GenerateToken(t), EventView::GenerateFinished],
        None => seq![EventView::GenerateFinished],
    }
}

impl Generation {
    /// A reply of which nothing has come yet.
    pub fn new() -> (g: Generation)
        ensures
            !g.got_any,
    {
        Generation { got_any: false }
    }

    /// Takes in a line of the reply and reports what it adds.
    pub fn line(&mut self, line: &str) -> (e: Option<OllamaEvent>)
        ensures
            final(self).got_any == (old(self).got_any || document(line@) is Some),
            event_opt(e) == token_event(generate_line_token(line@)),
    {
        match parse(line) {
            None => None,
            Some(chunk) => {
                self.got_any = true;
                generate_chunk(&chunk)
            },
        }
    }

    /// Reports the end of a reply. `code` is the exit code of curl where it has
    /// one, `err` what it wrote to its standard error.
    pub fn ended(&self, cancelled: bool, code: Option<i32>, err: &str) -> (out: Vec<OllamaEvent>)
        ensures
            event_views(out@) == generate_ended_events(
                generate_last_words(cancelled, code, err@, self.got_any),
            ),
    {
        let mut out: Vec<OllamaEvent> = Vec::new();
        let code: i32 = match code {
            Some(c) => c,
            None => -1,
        };
        if cancelled {
            out.push(OllamaEvent::GenerateToken(owned("\n[stopped]\n")));
        } else if code != 0 || !self.got_any {
            if has_text(err, "Connection refused") || code == 7 {
                out.push(
                    OllamaEvent::GenerateToken(
                        owned("\n[Ollama is not running. Check with: sv status ollama]\n"),
                    ),
                );
            } else if code == 28 {
                out.push(
                    OllamaEvent::GenerateToken(
                        owned("\n[Ollama took too long to respond — timeout]\n"),
                    ),
                );
            } else if !self.got_any {
                let number = signed_decimal_text(code);
                out.push(
                    OllamaEvent::GenerateToken(
                        concat3("\n[no response from Ollama — curl code: ", number.as_str(), "]\n"),
                    ),
                );
            }
        }
        let ghost words = out@;
        out.push(OllamaEvent::GenerateFinished);
        assert(words.len() == 0 ==> event_views(out@) =~= seq![EventView::GenerateFinished]);
        assert(words.len() == 1 ==> event_views(out@) =~= seq![
            words[0]@,
            EventView::GenerateFinished,
        ]);
        out
    }
}

/// The pieces that the lines of a reply add, in order.
pub open spec fn generate_line_events(lines: Seq<Seq<char>>) -> Seq<EventView>
    decreases lines.len(),
{
    if lines.len() == 0 {
        Seq::empty()
    } else {
        let before = generate_line_events(lines.drop_last());
        match generate_line_token(lines.last()) {
            Some(t) => before.push(EventView::GenerateToken(t)),
            None => before,
        }
    }
}

/// Whether some line of a reply is a JSON document.
pub open spec fn some_document(lines: Seq<Seq<char>>) -> bool {
    exists|i: int| 0 <= i < lines.len() && document(#[trigger] lines[i]) is Some
}

/// All that a reply reports: the pieces that its lines add, then its end.
pub open spec fn generate_run_events(
    lines: Seq<Seq<char>>,
    cancelled: bool,
    code: Option<i32>,
    err: Seq<char>,
) -> Seq<EventView> {
    generate_line_events(lines) + generate_ended_events(
        generate_last_words(cancelled, code, err, some_document(lines)),
    )
}

/// All that a reply reports whose lines were `lines`.
pub fn generate_events(lines: &Vec<String>, cancelled: bool, code: Option<i32>, err: &str) -> (out:
    Vec<OllamaEvent>)
    ensures
        event_views(out@) == generate_run_events(views(lines@), cancelled, code, err@),
{
    let ghost all = views(lines@);
    let mut out: Vec<OllamaEvent> = Vec::new();
    let mut generation = Generation::new();
    assert(all.take(0) =~= Seq::<Seq<char>>::empty());
    assert(event_views(out@) =~= generate_line_events(all.take(0)));
    let mut i: usize = 0;
    while i < lines.len()
        invariant
            i <= lines@.len(),
            all == views(lines@),
            event_views(out@) == generate_line_events(all.take(i as int)),
            generation.got_any == some_document(all.take(i as int)),
        decreases lines@.len() - i,
    {
        let ghost had = generation.got_any;
        assert(all[i as int] == lines@[i as int]@);
        assert(all.take(i + 1).drop_last() =~= all.take(i as int));
        let event = generation.line(lines[i].as_str());
        proof {
            let now = all.take(i + 1);
            assert(now[i as int] == all[i as int]);
            if had {
                let j = choose|j: int|
                    0 <= j < i && document(#[trigger] all.take(i as int)[j]) is Some;
                assert(now[j] == all.take(i as int)[j]);
            }
            if some_document(now) {
                let j = choose|j: int| 0 <= j < now.len() && document(#[trigger] now[j]) is Some;
                if j < i {
                    assert(all.take(i as int)[j] == now[j]);
                }
            }
        }
        if let Some(e) = event {
            let ghost before = event_views(out@);
            let ghost added = e@;
            out.push(e);
            assert(event_views(out@) =~= before.push(added));
        }
        i += 1;
    }
    assert(all.take(all.len() as int) =~= all);
    let ghost before = event_views(out@);
    let mut last = generation.ended(cancelled, code, err);
    let ghost ended = event_views(last@);
    let ghost head = out@;
    let ghost tail = last@;
    out.append(&mut last);
    assert(out@ =~= head + tail);
    assert(event_views(out@) =~= before + ended);
    out
}

proof fn generate_lines_only_tokens(lines: Seq<Seq<char>>)
    ensures
        forall|i: int|
            0 <= i < generate_line_events(lines).len() ==> (#[trigger] generate_line_events(
                lines,
            )[i]) is GenerateToken,
    decreases lines.len(),
{
    if lines.len() > 0 {
        generate_lines_only_tokens(lines.drop_last());
    }
}

/// A reply reports its end once, as the last thing; all before it are pieces of
/// the conversation.
pub proof fn a_reply_ends_once(
    lines: Seq<Seq<char>>,
    cancelled: bool,
    code: Option<i32>,
    err: Seq<char>,
)
    ensures
        ({
            let events = generate_run_events(lines, cancelled, code, err);
            &&& events.len() > 0
            &&& events.last() is GenerateFinished
            &&& forall|i: int| 0 <= i < events.len() - 1 ==> (#[trigger] events[i]) is GenerateToken
        }),
{
    generate_lines_only_tokens(lines);
}

/// Where the server sent nothing that could be read, the conversation says why.
pub proof fn a_silent_reply_is_explained(
    lines: Seq<Seq<char>>,
    cancelled: bool,
    code: Option<i32>,
    err: Seq<char>,
)
    requires
        !some_document(lines),
    ensures
        generate_last_words(cancelled, code, err, some_document(lines)) is Some,
{
}

/// A reply that came through and was not stopped adds nothing to what its lines
/// said.
pub proof fn a_complete_reply_adds_nothing(lines: Seq<Seq<char>>, err: Seq<char>)
    requires
        some_document(lines),
    ensures
        generate_run_events(lines, false, Some(0), err) == generate_line_events(lines).push(
            EventView::GenerateFinished,
        ),
{
    assert(generate_run_events(lines, false, Some(0), err) =~= generate_line_events(lines).push(
        EventView::GenerateFinished,
    ));
}

// ---------------------------------------------------------------------------
// Laws
// ---------------------------------------------------------------------------

/// A piece of the answer is reported as it came, every character of it, white space at
/// its ends included.
pub proof fn a_piece_is_reported_as_it_came(line: Seq<char>, chunk: Tree, piece: Seq<char>)
    requires
        document(line) == Some(chunk),
        !(chunk.member("error"@) matches Some(Tree::Text(_))),
        chunk.member("response"@) == Some(Tree::Text(piece)),
        piece.len() > 0,
    ensures
        generate_line_token(line) == Some(piece),
        generate_line_events(seq![line]) == seq![EventView::GenerateToken(piece)],
{
    let lines = seq![line];
    assert(lines.drop_last() =~= Seq::<Seq<char>>::empty());
    assert(generate_line_events(lines.drop_last()) =~= Seq::<EventView>::empty());
    assert(generate_line_events(lines) =~= seq![EventView::GenerateToken(piece)]);
}

/// An error of the model is reported whole, and in place of any piece.
pub proof fn an_error_is_reported_whole(line: Seq<char>, chunk: Tree, err: Seq<char>)
    requires
        document(line) == Some(chunk),
        chunk.member("error"@) == Some(Tree::Text(err)),
    ensures
        generate_line_token(line) == Some("\n[model error: "@ + err + "]\n"@),
{
}

/// A line that is no document, or holds neither an error nor a piece, adds nothing.
pub proof fn an_empty_line_adds_nothing(line: Seq<char>)
    requires
        document(line) matches Some(chunk) ==> !(chunk.member("error"@) matches Some(Tree::Text(_)))
            && !(chunk.member("response"@) matches Some(Tree::Text(piece)) && piece.len() > 0),
    ensures
        generate_line_token(line) is None,
{
}

/// The pieces of a reply come in the order of its lines: those of a reply in two parts
/// are those of the first and then those of the second.
pub proof fn pieces_come_in_order(a: Seq<Seq<char>>, b: Seq<Seq<char>>)
    ensures
        generate_line_events(a + b) == generate_line_events(a) + generate_line_events(b),
    decreases b.len(),
{
    if b.len() == 0 {
        assert(a + b =~= a);
        assert(generate_line_events(a) + generate_line_events(b) =~= generate_line_events(a));
    } else {
        assert((a + b).drop_last() =~= a + b.drop_last());
        pieces_come_in_order(a, b.drop_last());
        assert(generate_line_events(a + b) =~= generate_line_events(a) + generate_line_events(b));
    }
}

/// What a line says of the answer: the text under `response`, where it is a document
/// that has one.
pub open spec fn response_in(line: Seq<char>) -> Seq<char> {
    match document(line) {
        Some(chunk) => match chunk.member("response"@) {
            Some(Tree::Text(piece)) => piece,
            _ => Seq::empty(),
        },
        None => Seq::empty(),
    }
}

/// What all lines say of the answer, one after the other.
pub open spec fn responses_in(lines: Seq<Seq<char>>) -> Seq<char>
    decreases lines.len(),
{
    if lines.len() == 0 {
        Seq::empty()
    } else {
        responses_in(lines.drop_last()) + response_in(lines.last())
    }
}

/// Whether a line tells of an error of the model.
pub open spec fn tells_error(line: Seq<char>) -> bool {
    document(line) matches Some(chunk) && chunk.member("error"@) matches Some(Tree::Text(_))
}

/// The text of a row of pieces.
pub open spec fn pieces_text(events: Seq<EventView>) -> Seq<char>
    decreases events.len(),
{
    if events.len() == 0 {
        Seq::empty()
    } else {
        match events.last() {
            EventView::GenerateToken(text) => pieces_text(events.drop_last()) + text,
            _ => pieces_text(events.drop_last()),
        }
    }
}

/// Where the model had no error, the pieces that are reported make up just the answer
/// that the lines give, character for character.
pub proof fn the_answer_is_reported_in_full(lines: Seq<Seq<char>>)
    requires
        forall|i: int| 0 <= i < lines.len() ==> !tells_error(#[trigger] lines[i]),
    ensures
        pieces_text(generate_line_events(lines)) == responses_in(lines),
    decreases lines.len(),
{
    if lines.len() > 0 {
        let front = lines.drop_last();
        assert forall|i: int| 0 <= i < front.len() implies !tells_error(#[trigger] front[i]) by {
            assert(lines[i] == front[i]);
        }
        the_answer_is_reported_in_full(front);
        let last = lines[lines.len() - 1];
        assert(!tells_error(last));
        let before = generate_line_events(front);
        if response_in(last).len() > 0 {
            let event = EventView::GenerateToken(response_in(last));
            assert(generate_line_events(lines) == before.push(event));
            assert(before.push(event).drop_last() =~= before);
        } else {
            assert(generate_line_events(lines) == before);
            assert(responses_in(front) + response_in(last) =~= responses_in(front));
        }
    }
}

/// How a reply ends: stopped by the user, else refused or timed out as curl's code or
/// words tell, else without an answer where nothing could be read.
pub proof fn an_end_is_explained_by_its_cause(code: i32, err: Seq<char>, got_any: bool)
    ensures
        generate_last_words(true, Some(code), err, got_any) == Some("\n[stopped]\n"@),
        code == 7 || code != 0 && contains_text(err, "Connection refused"@) ==> generate_last_words(
            false,
            Some(code),
            err,
            got_any,
        ) == Some("\n[Ollama is not running. Check with: sv status ollama]\n"@),
        code == 28 && !contains_text(err, "Connection refused"@) ==> generate_last_words(
            false,
            Some(code),
            err,
            got_any,
        ) == Some("\n[Ollama took too long to respond — timeout]\n"@),
        code != 7 && code != 28 && !got_any && !contains_text(err, "Connection refused"@)
            ==> generate_last_words(false, Some(code), err, got_any) == Some(
            "\n[no response from Ollama — curl code: "@ + signed_decimal(code as int) + "]\n"@,
        ),
        code != 7 && code != 28 && got_any && (code == 0 || !contains_text(err, "Connection refused"@))
            ==> generate_last_words(false, Some(code), err, got_any) is None,
        generate_last_words(false, None, err, got_any) == generate_last_words(
            false,
            Some(-1i32),
            err,
            got_any,
        ),
{
}

/// What a download reports names the model and gives the state and any error whole, and
/// the percentage is that of what is done, rounded down.
pub proof fn progress_is_told_as_it_came(model: Seq<char>, chunk: Tree, state: Seq<char>, t: u64, c: u64)
    requires
        chunk.member("status"@) == Some(Tree::Text(state)),
    ensures
        chunk.member("error"@) matches Some(Tree::Text(err)) ==> pull_chunk_text(model, chunk)
            == "Error installing '"@ + model + "': "@ + err,
        !(chunk.member("error"@) matches Some(Tree::Text(_))) && !(chunk.member("total"@) matches Some(
            Tree::Number(Some(_)),
        )) ==> pull_chunk_text(model, chunk) == "Installing '"@ + model + "'"@ + (": "@ + state),
        !(chunk.member("error"@) matches Some(Tree::Text(_))) && chunk.member("total"@) == Some(
            Tree::Number(Some(t)),
        ) && chunk.member("completed"@) == Some(Tree::Number(Some(c))) && t > 0 ==> exists|p: nat|
            p * t <= 100 * c < (p + 1) * t && pull_chunk_text(model, chunk) == "Installing '"@ + model
                + "'"@ + (": "@ + state + " ("@ + #[trigger] decimal(p) + "%)"@),
{
    if !(chunk.member("error"@) matches Some(Tree::Text(_))) && chunk.member("total"@) == Some(
        Tree::Number(Some(t)),
    ) && chunk.member("completed"@) == Some(Tree::Number(Some(c))) && t > 0 {
        let p = (c * 100 / t as int) as nat;
        vstd::arithmetic::div_mod::lemma_fundamental_div_mod(c * 100, t as int);
        vstd::arithmetic::div_mod::lemma_mod_bound(c * 100, t as int);
        assert(c * 100 / t as int >= 0) by (nonlinear_arith)
            requires
                c >= 0,
                t > 0,
        ;
        assert(p * t <= 100 * c < (p + 1) * t) by (nonlinear_arith)
            requires
                c * 100 == t * p + (c * 100) % (t as int),
                0 <= (c * 100) % (t as int) < t,
        ;
        assert(pull_chunk_text(model, chunk) == "Installing '"@ + model + "'"@ + (": "@ + state + " ("@
            + decimal(p) + "%)"@));
    }
}

/// The reports of a download come in the order of its lines, one for each document.
pub proof fn progress_comes_in_order(model: Seq<char>, a: Seq<Seq<char>>, b: Seq<Seq<char>>, auto: bool)
    ensures
        pull_line_events(model, a + b, auto) == pull_line_events(model, a, auto) + pull_line_events(
            model,
            b,
            auto,
        ),
        b.len() == 1 ==> pull_line_events(model, b, auto).len() == (if document(b[0]) is Some {
            1nat
        } else {
            0nat
        }),
    decreases b.len(),
{
    if b.len() == 0 {
        assert(a + b =~= a);
        assert(pull_line_events(model, a, auto) + pull_line_events(model, b, auto) =~= pull_line_events(
            model,
            a,
            auto,
        ));
    } else {
        assert((a + b).drop_last() =~= a + b.drop_last());
        progress_comes_in_order(model, a, b.drop_last(), auto);
        assert(pull_line_events(model, a + b, auto) =~= pull_line_events(model, a, auto)
            + pull_line_events(model, b, auto));
        if b.len() == 1 {
            assert(pull_line_events(model, b.drop_last(), auto).len() == 0);
        }
    }
}

/// The message at the end of a download names the model as it is.
pub proof fn the_end_names_the_model(model: Seq<char>, cancelled: bool, ok: bool)
    ensures
        cancelled ==> pull_message(model, cancelled, ok) == "Installation of '"@ + model + "' cancelled."@,
        !cancelled && ok ==> pull_message(model, cancelled, ok) == "'"@ + model
            + "' installed successfully."@,
        !cancelled && !ok ==> pull_message(model, cancelled, ok) == "Failed to install '"@ + model + "'."@,
{
}

/// A text that is written as a request reads back as an object that holds the model and
/// the prompt just as they were given, and asks for a stream.
pub proof fn a_request_carries_the_prompt(text: Seq<char>, model: Seq<char>, prompt: Seq<char>)
    requires
        writes_object(text, generate_request_entries(model, prompt)),
    ensures
        document(text) matches Some(Tree::Object(read)) && {
            &&& read.len() == 4
            &&& read.contains(("model"@, Tree::Text(model)))
            &&& read.contains(("prompt"@, Tree::Text(prompt)))
            &&& read.contains(("stream"@, Tree::Bool(true)))
            &&& read.contains(("keep_alive"@, Tree::Number(Some(0))))
        },
{
    let entries = generate_request_entries(model, prompt);
    let read = document(text)->0->Object_0;
    broadcast use vstd::seq_lib::group_to_multiset_ensures;
    assert(entries[0] == ("model"@, Tree::Text(model)));
    assert(entries[1] == ("prompt"@, Tree::Text(prompt)));
    assert(entries[2] == ("stream"@, Tree::Bool(true)));
    assert(entries[3] == ("keep_alive"@, Tree::Number(Some(0))));
    assert forall|i: int| 0 <= i < 4 implies read.contains(#[trigger] entries[i]) by {
        assert(entries.contains(entries[i]));
        assert(entries.to_multiset().count(entries[i]) > 0);
        assert(read.to_multiset().count(entries[i]) > 0);
    }
    assert(read.to_multiset().len() == entries.to_multiset().len());
}

/// A text that is written as the request for a download reads back as an object that
/// names the model just as it was given, and asks for a stream.
pub proof fn a_download_request_names_the_model(text: Seq<char>, model: Seq<char>)
    requires
        writes_object(text, pull_request_entries(model)),
    ensures
        document(text) matches Some(Tree::Object(read)) && {
            &&& read.len() == 2
            &&& read.contains(("name"@, Tree::Text(model)))
            &&& read.contains(("stream"@, Tree::Bool(true)))
        },
{
    let entries = pull_request_entries(model);
    let read = document(text)->0->Object_0;
    broadcast use vstd::seq_lib::group_to_multiset_ensures;
    assert(entries[0] == ("name"@, Tree::Text(model)));
    assert(entries[1] == ("stream"@, Tree::Bool(true)));
    assert forall|i: int| 0 <= i < 2 implies read.contains(#[trigger] entries[i]) by {
        assert(entries.contains(entries[i]));
        assert(entries.to_multiset().count(entries[i]) > 0);
        assert(read.to_multiset().count(entries[i]) > 0);
    }
    assert(read.to_multiset().len() == entries.to_multiset().len());
}

/// A download reports that it begins, then what its lines tell, then its end, and nothing
/// else.
pub proof fn a_download_is_told_from_start_to_end(
    model: Seq<char>,
    lines: Seq<Seq<char>>,
    cancelled: bool,
    ok: bool,
    auto: bool,
)
    ensures
        ({
            let events = pull_run_events(model, lines, cancelled, ok, auto);
            let told = pull_line_events(model, lines, auto);
            &&& events.len() == told.len() + 2
            &&& events[0] == (EventView::PullProgress { text: "Installing '"@ + model + "'"@ + "..."@, auto })
            &&& events.subrange(1, events.len() - 1) == told
        }),
        ({
            let events = pull_unstarted_events(model, auto);
            &&& events.len() == 2
            &&& events[0] == (EventView::PullProgress { text: "Installing '"@ + model + "'"@ + "..."@, auto })
            &&& events[1] == (EventView::PullFinished {
                message: "Failed to install '"@ + model + "': curl not found"@,
                ok: false,
                auto,
            })
        }),
{
    let events = pull_run_events(model, lines, cancelled, ok, auto);
    assert(events.subrange(1, events.len() - 1) =~= pull_line_events(model, lines, auto));
}

/// The report on a line of a download is what the line's document tells of the model.
pub proof fn a_line_of_a_download_is_reported(model: Seq<char>, line: Seq<char>, auto: bool)
    ensures
        document(line) matches Some(chunk) ==> pull_line_events(model, seq![line], auto) == seq![
            (EventView::PullProgress { text: pull_chunk_text(model, chunk), auto }),
        ],
        document(line) is None ==> pull_line_events(model, seq![line], auto) == Seq::<EventView>::empty(),
{
    let one = seq![line];
    assert(one.drop_last() =~= Seq::<Seq<char>>::empty());
    assert(pull_line_events(model, one.drop_last(), auto) =~= Seq::<EventView>::empty());
    if let Some(chunk) = document(line) {
        assert(pull_line_events(model, one, auto) =~= seq![
            (EventView::PullProgress { text: pull_chunk_text(model, chunk), auto }),
        ]);
    }
}

/// Without a state, only the percentage is told; and without two numbers, or of nothing,
/// there is no percentage.
pub proof fn progress_is_told_without_a_state(model: Seq<char>, chunk: Tree)
    requires
        !(chunk.member("error"@) matches Some(Tree::Text(_))),
        !(chunk.member("status"@) matches Some(Tree::Text(_))),
        !(chunk.member("completed"@) matches Some(Tree::Number(Some(_)))) || chunk.member("total"@) == Some(
            Tree::Number(Some(0)),
        ),
    ensures
        pull_chunk_text(model, chunk) == "Installing '"@ + model + "'"@ + ": "@,
{
    assert(pull_chunk_text(model, chunk) =~= "Installing '"@ + model + "'"@ + ": "@);
}

/// A reply reports its pieces, then its last words where there are any, then its end, and
/// nothing else.
pub proof fn a_reply_is_told_from_start_to_end(
    lines: Seq<Seq<char>>,
    cancelled: bool,
    code: Option<i32>,
    err: Seq<char>,
)
    ensures
        ({
            let answered = exists|i: int| 0 <= i < lines.len() && document(#[trigger] lines[i]) is Some;
            let events = generate_run_events(lines, cancelled, code, err);
            let pieces = generate_line_events(lines);
            match generate_last_words(cancelled, code, err, answered) {
                Some(words) => events == pieces.push(EventView::GenerateToken(words)).push(
                    EventView::GenerateFinished,
                ),
                None => events == pieces.push(EventView::GenerateFinished),
            }
        }),
{
    let answered = exists|i: int| 0 <= i < lines.len() && document(#[trigger] lines[i]) is Some;
    assert(answered == some_document(lines));
    let events = generate_run_events(lines, cancelled, code, err);
    let pieces = generate_line_events(lines);
    match generate_last_words(cancelled, code, err, answered) {
        Some(words) => {
            assert(events =~= pieces.push(EventView::GenerateToken(words)).push(EventView::GenerateFinished));
        },
        None => {
            assert(events =~= pieces.push(EventView::GenerateFinished));
        },
    }
}

} // verus!
