//! JSON and the chat with a local model.

use helium_shell::command::{CommandLine, Output};
use helium_shell::json::{parse, parse_bytes, Json};
use helium_shell::models::{
    config_path, dropdown_height_fits, dropdown_height_px, fetch_models, initial_model, install_name, internet_reachable, listed,
    model_picked, models_command, models_in, models_refreshed, ollama_running, pick_model, reachability_command,
    read_saved_model, selection, status_command, updates_for, wants_auto_pull, with_prompt, Update,
};
use helium_shell::ollama::{
    generate_chunk, generate_command, generate_events, generate_not_started, generate_request_body, pull_chunk,
    pull_command, pull_ended, pull_events, pull_line, pull_not_started, pull_request_body, pull_started, Generation,
    OllamaEvent, PullLine, FALLBACK_MODEL, OLLAMA_BASE,
};

fn words(c: &CommandLine) -> Vec<&str> {
    let mut all = vec![c.program.as_str()];
    all.extend(c.args.iter().map(|a| a.as_str()));
    all
}

fn strings(v: &[&str]) -> Vec<String> {
    v.iter().map(|s| s.to_string()).collect()
}

fn show(e: &OllamaEvent) -> String {
    match e {
        OllamaEvent::PullProgress { text, auto } => format!("progress {text} {auto}"),
        OllamaEvent::PullFinished { message, ok, auto } => format!("finished {message} {ok} {auto}"),
        OllamaEvent::GenerateToken(t) => format!("token {t}"),
        OllamaEvent::GenerateFinished => "end".to_string(),
    }
}

fn show_all(events: &[OllamaEvent]) -> Vec<String> {
    events.iter().map(show).collect()
}

#[test]
fn documents_are_read() {
    let j = parse(r#" {"a": [1, -1, 1.5, 18446744073709551615, true, null, "xé"], "a b": {}, "t": false} "#).unwrap();
    let list = j.get("a").unwrap().as_array().unwrap();
    assert_eq!(list.len(), 7);
    assert_eq!(list[0].as_unsigned(), Some(1));
    assert_eq!(list[1].as_unsigned(), None);
    assert_eq!(list[2].as_unsigned(), None);
    assert_eq!(list[3].as_unsigned(), Some(u64::MAX));
    assert_eq!(list[4].as_truth(), Some(true));
    assert!(matches!(list[5], Json::Null));
    assert_eq!(list[6].as_text().map(|s| s.as_str()), Some("x\u{e9}"));
    assert!(j.get("a b").unwrap().as_object().unwrap().is_empty());
    assert_eq!(j.get("t").unwrap().as_truth(), Some(false));
    assert!(j.get("missing").is_none());
    assert!(list[0].get("a").is_none());
    assert!(list[0].as_text().is_none());
    assert!(list[0].as_array().is_none());
    assert!(list[0].as_object().is_none());
    assert!(j.as_truth().is_none());
}

#[test]
fn what_is_no_document_is_not_read() {
    assert!(parse("").is_none());
    assert!(parse("{").is_none());
    assert!(parse("[1,]").is_none());
    assert!(parse("1 2").is_none());
    assert!(parse_bytes(b"{\"a\": \xff}").is_none());
    assert!(parse_bytes(b"{\"a\": 1}").is_some());
}

#[test]
fn a_repeated_key_counts_last() {
    let j = parse(r#"{"k": 1, "k": 2}"#).unwrap();
    assert_eq!(j.as_object().unwrap().len(), 1);
    assert_eq!(j.get("k").unwrap().as_unsigned(), Some(2));
}

#[test]
fn requests_are_documents_that_say_what_they_should() {
    let j = parse(&pull_request_body("my \"model\"\n")).unwrap();
    assert_eq!(j.as_object().unwrap().len(), 2);
    assert_eq!(j.get("name").unwrap().as_text().map(|s| s.as_str()), Some("my \"model\"\n"));
    assert_eq!(j.get("stream").unwrap().as_truth(), Some(true));
    assert_eq!(pull_request_body("m"), r#"{"name":"m","stream":true}"#);

    let j = parse(&generate_request_body("m", "why?\t\\")).unwrap();
    assert_eq!(j.as_object().unwrap().len(), 4);
    assert_eq!(j.get("model").unwrap().as_text().map(|s| s.as_str()), Some("m"));
    assert_eq!(j.get("prompt").unwrap().as_text().map(|s| s.as_str()), Some("why?\t\\"));
    assert_eq!(j.get("stream").unwrap().as_truth(), Some(true));
    assert_eq!(j.get("keep_alive").unwrap().as_unsigned(), Some(0));
}

#[test]
fn requests_go_to_the_local_server() {
    assert_eq!(OLLAMA_BASE, "http://127.0.0.1:11434");
    let body = pull_request_body("m");
    assert_eq!(
        words(&pull_command("m")),
        ["curl", "-s", "-N", "-X", "POST", "http://127.0.0.1:11434/api/pull", "-d", &body]
    );
    let body = generate_request_body("m", "p");
    assert_eq!(
        words(&generate_command("m", "p")),
        [
            "curl", "-s", "-N", "--speed-limit", "1", "--speed-time", "30", "http://127.0.0.1:11434/api/generate",
            "-d", &body
        ]
    );
    assert_eq!(
        words(&status_command()),
        ["curl", "-s", "-o", "/dev/null", "-w", "%{http_code}", "--max-time", "2", "http://127.0.0.1:11434"]
    );
    assert_eq!(
        words(&reachability_command()),
        ["curl", "-s", "-o", "/dev/null", "-w", "%{http_code}", "--max-time", "3", "https://ollama.com"]
    );
    assert_eq!(
        words(&models_command()),
        ["curl", "-s", "--max-time", "5", "http://127.0.0.1:11434/api/tags"]
    );
}

#[test]
fn a_download_is_told_from_start_to_end() {
    let lines = strings(&[
        r#"{"status":"pulling manifest"}"#,
        "not json",
        r#"{"status":"pulling","total":200,"completed":51}"#,
        r#"{"total":0,"completed":0}"#,
        r#"{"error":"no space","total":1,"completed":18446744073709551615}"#,
    ]);
    let events = pull_events("m", &lines, false, true, true).unwrap();
    assert_eq!(
        show_all(&events),
        [
            "progress Installing 'm'... true",
            "progress Installing 'm': pulling manifest true",
            "progress Installing 'm': pulling (25%) true",
            "progress Installing 'm':  true",
            "progress Error installing 'm': no space true",
            "finished 'm' installed successfully. true true",
        ]
    );
    let events = pull_events("m", &lines, false, true, false).unwrap();
    assert_eq!(events.len(), 6);
    assert!(show_all(&events).iter().all(|e| e.ends_with(" false")));
}

#[test]
fn a_download_ends_in_one_of_three_ways() {
    assert_eq!(show(&pull_ended("m", true, true, false)), "finished Installation of 'm' cancelled. true false");
    assert_eq!(show(&pull_ended("m", true, false, true)), "finished Installation of 'm' cancelled. false true");
    assert_eq!(show(&pull_ended("m", false, true, false)), "finished 'm' installed successfully. true false");
    assert_eq!(show(&pull_ended("m", false, false, false)), "finished Failed to install 'm'. false false");
    assert_eq!(show(&pull_not_started("m", true)), "finished Failed to install 'm': curl not found false true");
    assert_eq!(show(&pull_started("m", false)), "progress Installing 'm'... false");
}

#[test]
fn a_percentage_that_does_not_fit_is_told_apart() {
    let line = r#"{"total":1,"completed":18446744073709551615}"#;
    assert!(matches!(pull_line("m", line, false), PullLine::OutOfRange));
    assert!(pull_events("m", &strings(&[line]), false, true, false).is_none());
    assert!(matches!(pull_line("m", "{", false), PullLine::Skipped));
    assert!(matches!(pull_line("m", "{}", true), PullLine::Report(_)));
    let most = parse(r#"{"total":1,"completed":184467440737095516}"#).unwrap();
    assert_eq!(show(&pull_chunk("m", &most, true)), "progress Installing 'm':  (18446744073709551600%) true");
}

#[test]
fn a_reply_is_told_piece_by_piece() {
    let lines = strings(&[
        r#"{"response":"Hel"}"#,
        r#"{"response":""}"#,
        "junk",
        r#"{"response":"lo","done":true}"#,
        r#"{"done":true}"#,
    ]);
    assert_eq!(show_all(&generate_events(&lines, false, Some(0), "")), ["token Hel", "token lo", "end"]);
    assert_eq!(
        show_all(&generate_events(&strings(&[r#"{"error":"gone","response":"x"}"#]), false, Some(0), "")),
        ["token \n[model error: gone]\n", "end"]
    );
    assert!(generate_chunk(&parse("{}").unwrap()).is_none());
}

#[test]
fn a_reply_that_fails_says_why() {
    let last = |lines: &[&str], cancelled, code, err: &str| {
        let events = generate_events(&strings(lines), cancelled, code, err);
        assert!(matches!(events.last(), Some(OllamaEvent::GenerateFinished)));
        show_all(&events[..events.len() - 1])
    };
    let not_running = "token \n[Ollama is not running. Check with: sv status ollama]\n";
    assert_eq!(last(&["{}"], true, Some(7), ""), ["token \n[stopped]\n"]);
    assert_eq!(last(&[], false, Some(7), ""), [not_running]);
    assert_eq!(last(&[], false, Some(1), "curl: Connection refused"), [not_running]);
    assert_eq!(
        last(&["{}"], false, Some(28), ""),
        ["token \n[Ollama took too long to respond \u{2014} timeout]\n"]
    );
    assert_eq!(
        last(&[], false, None, ""),
        ["token \n[no response from Ollama \u{2014} curl code: -1]\n"]
    );
    assert_eq!(
        last(&[], false, Some(0), ""),
        ["token \n[no response from Ollama \u{2014} curl code: 0]\n"]
    );
    assert_eq!(last(&["{}"], false, Some(22), ""), Vec::<String>::new());
    assert_eq!(last(&["{}"], false, Some(0), "Connection refused"), Vec::<String>::new());
    assert_eq!(
        show_all(&generate_not_started()),
        ["token \n[no response from Ollama \u{2014} curl not found]\n", "end"]
    );
}

#[test]
fn a_reply_remembers_whether_anything_came() {
    let mut generation = Generation::new();
    assert!(generation.line("junk").is_none());
    assert!(!generation.got_any);
    assert!(generation.line("{}").is_none());
    assert!(generation.got_any);
    assert!(generation.line("junk").is_none());
    assert!(generation.got_any);
    assert_eq!(show_all(&generation.ended(false, Some(0), "")), ["end"]);
}

fn printed(success: bool, text: &str) -> Option<Output> {
    Some(Output { success, stdout: text.as_bytes().to_vec() })
}

#[test]
fn a_server_answers_or_not() {
    assert!(ollama_running(&printed(true, "200")));
    assert!(!ollama_running(&printed(true, "2000")));
    assert!(!ollama_running(&printed(true, "404")));
    assert!(!ollama_running(&printed(false, "200")));
    assert!(!ollama_running(&None));
    assert!(internet_reachable(&printed(true, "204")));
    assert!(!internet_reachable(&printed(true, "301")));
    assert!(!internet_reachable(&printed(true, "")));
    assert!(!internet_reachable(&printed(false, "200")));
    assert!(!internet_reachable(&None));
}

#[test]
fn the_models_are_listed() {
    let reply = r#"{"models":[{"name":"a"},{"size":1},{"name":2},{"name":"b"}]}"#;
    assert_eq!(fetch_models(&printed(true, reply)), Some(strings(&["a", "b"])));
    assert_eq!(fetch_models(&printed(false, reply)), None);
    assert_eq!(fetch_models(&printed(true, r#"{"models":{}}"#)), None);
    assert_eq!(fetch_models(&printed(true, "{}")), None);
    assert_eq!(fetch_models(&printed(true, "oops")), None);
    assert_eq!(fetch_models(&None), None);
    assert_eq!(models_in(&parse(r#"{"models":[]}"#).unwrap()), Some(vec![]));
}

#[test]
fn the_saved_model_comes_first() {
    let names = strings(&["x", FALLBACK_MODEL, "saved"]);
    assert_eq!(pick_model(&names, Some("saved")).as_deref(), Some("saved"));
    assert_eq!(pick_model(&names, Some("gone")).as_deref(), Some(FALLBACK_MODEL));
    assert_eq!(pick_model(&names, None).as_deref(), Some(FALLBACK_MODEL));
    assert_eq!(pick_model(&strings(&["x", "y"]), Some("gone")).as_deref(), Some("x"));
    assert_eq!(pick_model(&vec![], Some("saved")), None);
    assert_eq!(initial_model(&vec![], Some("saved")), "qwen2.5:0.5b");
    assert_eq!(initial_model(&names, Some("saved")), "saved");
    assert!(listed(&names, "x"));
    assert!(!listed(&names, "X"));
}

#[test]
fn the_saved_model_is_kept_in_the_home_directory() {
    assert_eq!(config_path(Some("/home/u")), "/home/u/.config/ollama-chat/model.conf");
    assert_eq!(config_path(None), "/root/.config/ollama-chat/model.conf");
    assert_eq!(read_saved_model(Some(" m \n")).as_deref(), Some("m"));
    assert_eq!(read_saved_model(Some(" \n")), None);
    assert_eq!(read_saved_model(None), None);
    assert_eq!(install_name("  llama3 ").as_deref(), Some("llama3"));
    assert_eq!(install_name("  "), None);
}

#[test]
fn a_first_run_downloads_only_where_that_can_work() {
    assert!(wants_auto_pull(true, &vec![], true));
    assert!(!wants_auto_pull(false, &vec![], true));
    assert!(!wants_auto_pull(true, &vec![], false));
    assert!(!wants_auto_pull(true, &strings(&["m"]), true));
}

#[test]
fn the_list_grows_up_to_six_rows() {
    assert_eq!(dropdown_height_px(0), 36);
    assert_eq!(dropdown_height_px(4), 148);
    assert_eq!(dropdown_height_px(5), 176);
    assert_eq!(dropdown_height_px(100), 176);
    assert!(dropdown_height_fits(100));
    assert!(!dropdown_height_fits(u32::MAX as usize));
}

fn show_update(u: &Update) -> String {
    match u {
        Update::Info(t) => format!("info {t}"),
        Update::AutoPullOver => "auto over".to_string(),
        Update::RefreshModels => "refresh".to_string(),
        Update::History(t) => format!("history {t}"),
        Update::GenerationOver => "over".to_string(),
        Update::Models(names) => format!("models {}", names.join(",")),
        Update::Model(name) => format!("model {name}"),
    }
}

fn show_updates(v: &[Update]) -> Vec<String> {
    v.iter().map(show_update).collect()
}

#[test]
fn events_change_the_window() {
    let update = |e: OllamaEvent| show_updates(&updates_for(&e, "so far "));
    assert_eq!(update(OllamaEvent::PullProgress { text: "p".to_string(), auto: false }), ["info p"]);
    assert_eq!(update(OllamaEvent::PullProgress { text: "p".to_string(), auto: true }), ["info p"]);
    assert_eq!(
        update(OllamaEvent::PullFinished { message: "m".to_string(), ok: true, auto: true }),
        ["info m", "auto over", "refresh"]
    );
    assert_eq!(
        update(OllamaEvent::PullFinished { message: "m".to_string(), ok: false, auto: false }),
        ["info m"]
    );
    assert_eq!(update(OllamaEvent::GenerateToken("t".to_string())), ["history so far t"]);
    assert_eq!(update(OllamaEvent::GenerateFinished), ["over"]);
}

#[test]
fn the_conversation_grows() {
    let lines = strings(&[r#"{"response":"Hel"}"#, r#"{"response":"lo"}"#]);
    let mut history = with_prompt("", "hi");
    for event in generate_events(&lines, true, Some(0), "") {
        for update in updates_for(&event, &history) {
            if let Update::History(text) = update {
                history = text;
            }
        }
    }
    assert_eq!(history, "\n> hi\nHello\n[stopped]\n");
}

#[test]
fn only_the_user_changes_the_model() {
    assert_eq!(show_updates(&models_refreshed(Some(strings(&["a", "b"])))), ["models a,b"]);
    assert_eq!(show_updates(&models_refreshed(None)), Vec::<String>::new());
    assert_eq!(show_updates(&model_picked("m")), ["model m", "info "]);
}

#[test]
fn a_prompt_joins_the_conversation() {
    assert_eq!(with_prompt("old", "why?"), "old\n> why?\n");
    assert_eq!(with_prompt("", ""), "\n> \n");
}

#[test]
fn a_selection_goes_either_way() {
    let text = "h\u{e9}llo";
    for a in 0..8 {
        for b in 0..8 {
            let expected = text.get(a.min(b)..a.max(b));
            assert_eq!(selection(text, a, b), expected, "{a} {b}");
        }
    }
    assert_eq!(selection("", 0, 0), Some(""));
}
