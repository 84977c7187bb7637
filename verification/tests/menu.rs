use embedded_cli::channel::channel_send;
use embedded_cli::dispatch::{resolve, respond, Resolution};
use embedded_cli::menu::{
    find_command, render_listing, render_signature, render_topic, render_unknown,
};
use embedded_cli::tokens::tokenize;
use embedded_cli::{MenuItem, MenuParameters};
use heapless::spsc::Queue;
use heapless::{String, Vec};

type Handler = fn(&Vec<&str, 8>, &mut String<1028>);

fn shout(tokens: &Vec<&str, 8>, out: &mut String<1028>) {
    out.push_str(tokens[0]).ok();
    out.push_str("!").ok();
}

fn quiet(_tokens: &Vec<&str, 8>, _out: &mut String<1028>) {
}

fn wipe(_tokens: &Vec<&str, 8>, out: &mut String<1028>) {
    out.clear();
}

static PAIR: [MenuParameters; 2] = [
    MenuParameters { name: "from", description: "where to start" },
    MenuParameters { name: "to", description: "where to stop" },
];

static TABLE: [MenuItem<'static, Handler>; 5] = [
    MenuItem { command: "go", description: "Goes", function: shout, parameters: &PAIR },
    MenuItem { command: "stop", description: "Stops", function: quiet, parameters: &[] },
    MenuItem { command: "go", description: "Never reached", function: quiet, parameters: &[] },
    MenuItem { command: "help", description: "Shadowed", function: shout, parameters: &[] },
    MenuItem { command: "wipe", description: "Empties the response", function: wipe, parameters: &[] },
];

fn text() -> String<1028> {
    String::new()
}

fn answer(line: &str) -> std::string::String {
    let tokens = tokenize(line);
    let mut out = text();
    out.push_str("\r\n").unwrap();
    respond(&TABLE, &tokens, &mut out);
    std::string::String::from(out.as_str())
}

#[test]
fn find_command_gives_the_index() {
    assert_eq!(find_command(&TABLE, "stop"), Some(1));
    assert_eq!(find_command(&TABLE, "wipe"), Some(4));
}

#[test]
fn find_command_gives_the_first_of_two() {
    assert_eq!(find_command(&TABLE, "go"), Some(0));
}

#[test]
fn find_command_matches_the_whole_name() {
    assert_eq!(find_command(&TABLE, "g"), None);
    assert_eq!(find_command(&TABLE, "goo"), None);
    assert_eq!(find_command(&TABLE, "Go"), None);
    assert_eq!(find_command(&TABLE, ""), None);
}

#[test]
fn find_command_in_an_empty_table() {
    let none: [MenuItem<'static, Handler>; 0] = [];
    assert_eq!(find_command(&none, "go"), None);
}

#[test]
fn resolve_tells_the_five_cases_apart() {
    assert_eq!(resolve(&TABLE, &tokenize("help")), Resolution::Listing);
    assert_eq!(resolve(&TABLE, &tokenize("help stop")), Resolution::Topic(1));
    assert_eq!(resolve(&TABLE, &tokenize("help go now")), Resolution::Topic(0));
    assert_eq!(resolve(&TABLE, &tokenize("help nothing")), Resolution::UnknownTopic);
    assert_eq!(resolve(&TABLE, &tokenize("help ")), Resolution::UnknownTopic);
    assert_eq!(resolve(&TABLE, &tokenize("stop")), Resolution::Run(1));
    assert_eq!(resolve(&TABLE, &tokenize("go 1 2")), Resolution::Run(0));
    assert_eq!(resolve(&TABLE, &tokenize("nothing")), Resolution::Unknown);
    assert_eq!(resolve(&TABLE, &tokenize("")), Resolution::Unknown);
    assert_eq!(resolve(&TABLE, &tokenize("helper")), Resolution::Unknown);
}

#[test]
fn resolve_keeps_help_for_itself() {
    assert_eq!(resolve(&TABLE, &tokenize("help")), Resolution::Listing);
    assert_eq!(resolve(&TABLE, &tokenize("help help")), Resolution::Topic(3));
}

#[test]
fn signature_is_the_name_and_the_placeholders() {
    let mut out = text();
    render_signature(&TABLE[0], &mut out);
    assert_eq!(out.as_str(), "go <from> <to>");
    let mut out = text();
    render_signature(&TABLE[1], &mut out);
    assert_eq!(out.as_str(), "stop");
}

#[test]
fn listing_has_a_header_and_a_line_for_each_command() {
    let mut out = text();
    render_listing(&TABLE, &mut out);
    assert_eq!(
        out.as_str(),
        "AVAILABLE ITEMS:\n\r  go <from> <to>\r\n  stop\r\n  go\r\n  help\r\n  wipe\r\n"
    );
}

#[test]
fn listing_of_an_empty_table_is_the_header() {
    let none: [MenuItem<'static, Handler>; 0] = [];
    let mut out = text();
    render_listing(&none, &mut out);
    assert_eq!(out.as_str(), "AVAILABLE ITEMS:\n\r");
}

#[test]
fn listing_appends_to_what_is_there() {
    let mut out = text();
    out.push_str("before ").unwrap();
    render_listing(&TABLE[1..2], &mut out);
    assert_eq!(out.as_str(), "before AVAILABLE ITEMS:\n\r  stop\r\n");
}

#[test]
fn topic_with_parameters() {
    let mut out = text();
    render_topic(&TABLE[0], &mut out);
    assert_eq!(
        out.as_str(),
        "SUMMARY:\n\rgo <from> <to>\r\n\r\nPARAMETERS:\n\r  <from> - where to start\r\n  <to> - where to stop\r\n\r\nDESCRIPTION:\n\rGoes\r\n"
    );
}

#[test]
fn topic_without_parameters() {
    let mut out = text();
    render_topic(&TABLE[1], &mut out);
    assert_eq!(out.as_str(), "SUMMARY:\n\rstop\r\n\r\nPARAMETERS:\n\r\r\nDESCRIPTION:\n\rStops\r\n");
}

#[test]
fn unknown_names_the_culprit() {
    let mut out = text();
    render_unknown("frobnicate", &mut out);
    assert_eq!(out.as_str(), "Unknown command: frobnicate\r\n");
    let mut out = text();
    render_unknown("", &mut out);
    assert_eq!(out.as_str(), "Unknown command: \r\n");
}

#[test]
fn rendering_leaves_out_what_does_not_fit() {
    let mut out = text();
    for _ in 0..1020 {
        out.push('.').unwrap();
    }
    render_unknown("ab", &mut out);
    assert_eq!(out.len(), 1024);
    assert!(out.as_str().ends_with(".ab\r\n"));
    render_unknown("abc", &mut out);
    assert_eq!(out.len(), 1027);
    assert!(out.as_str().ends_with(".ab\r\nabc"));
    render_unknown("xyz", &mut out);
    assert_eq!(out.len(), 1027);
    render_unknown("a", &mut out);
    assert_eq!(out.len(), 1028);
    assert!(out.as_str().ends_with(".ab\r\nabca"));
    render_unknown("a", &mut out);
    assert_eq!(out.len(), 1028);
}

#[test]
fn respond_renders_or_runs() {
    assert_eq!(answer("help stop"), "\r\nSUMMARY:\n\rstop\r\n\r\nPARAMETERS:\n\r\r\nDESCRIPTION:\n\rStops\r\n");
    assert_eq!(answer("help me"), "\r\nUnknown command: me\r\n");
    assert_eq!(answer("halt"), "\r\nUnknown command: halt\r\n");
    assert_eq!(answer("go"), "\r\ngo!");
    assert_eq!(answer("stop"), "\r\n");
    assert_eq!(
        answer("help"),
        "\r\nAVAILABLE ITEMS:\n\r  go <from> <to>\r\n  stop\r\n  go\r\n  help\r\n  wipe\r\n"
    );
}

#[test]
fn respond_leaves_the_response_to_the_handler() {
    assert_eq!(answer("wipe"), "");
}

#[test]
fn send_offers_every_character_in_order() {
    let mut q: Queue<char, 1028> = Queue::new();
    channel_send(&mut q, "a\u{e9}\u{20ac}z");
    assert_eq!(q.dequeue(), Some('a'));
    assert_eq!(q.dequeue(), Some('\u{e9}'));
    assert_eq!(q.dequeue(), Some('\u{20ac}'));
    assert_eq!(q.dequeue(), Some('z'));
    assert_eq!(q.dequeue(), None);
}

#[test]
fn send_stops_where_the_channel_is_full() {
    let mut q: Queue<char, 1028> = Queue::new();
    for _ in 0..1025 {
        q.enqueue('.').unwrap();
    }
    channel_send(&mut q, "abcd");
    assert_eq!(q.len(), 1027);
    for _ in 0..1025 {
        assert_eq!(q.dequeue(), Some('.'));
    }
    assert_eq!(q.dequeue(), Some('a'));
    assert_eq!(q.dequeue(), Some('b'));
    assert_eq!(q.dequeue(), None);
    channel_send(&mut q, "");
    assert!(q.is_empty());
}
