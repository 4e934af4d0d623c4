use zli::codec::{decode_content, decode_context, decode_envelope, decode_history, encode_context,
    parse_response};
use zli::models::{Context, CustomParserError, DecodeError, DummyResponse, File, FileKind, History,
    MissingField, ModelSuggestion, PromptPolicy, ResolveError, SuggestedCommand};
use zli::prompts::{build_request, Prompts};
use zli::resolve::{resolve_chain, resolve_command};
use zli::select::validate_and_get_user_input_as_int;

fn sample_context() -> Context {
    Context {
        cwd: "/proj".to_string(),
        ls: vec![File { name: "Cargo.toml".to_string(), kind: FileKind::File }],
        history: vec![],
    }
}

fn command(cmd: &str, keys: &[&str]) -> SuggestedCommand {
    SuggestedCommand {
        reasoning: "because".to_string(),
        cmd: cmd.to_string(),
        missing_fields: keys
            .iter()
            .map(|k| MissingField {
                key: k.to_string(),
                reasoning: "needed".to_string(),
                suggestions: vec![],
            })
            .collect(),
    }
}

#[test]
fn prompt_compilation_is_deterministic() {
    let a = Prompts::get_system_prompt_2(&sample_context());
    let b = Prompts::get_system_prompt_2(&sample_context());
    assert_eq!(a, b);
    let c = Prompts::get_system_prompt(&sample_context());
    let d = Prompts::get_system_prompt(&sample_context());
    assert_eq!(c, d);
    let q = "push my changes".to_string();
    let r1 = build_request(&sample_context(), &q, PromptPolicy::ChainAware);
    let r2 = build_request(&sample_context(), &q, PromptPolicy::ChainAware);
    assert_eq!(r1, r2);
    assert_eq!(r1.model, "qwen2.5");
    assert_eq!(r1.format, "json");
    assert!(!r1.stream);
    assert_eq!(r1.messages.len(), 2);
    assert_eq!(r1.messages[0].role, "system");
    assert_eq!(r1.messages[1].role, "user");
    assert_eq!(r1.messages[1].content, "push my changes");
}

#[test]
fn templates_admit_the_uniqueness_argument() {
    assert!(zli::prompts::templates_are_brace_quote_free());
}

#[test]
fn prompt_embeds_context_exactly_once_without_newlines() {
    let ctx = sample_context();
    let encoded = encode_context(&ctx);
    for prompt in [Prompts::get_system_prompt(&ctx), Prompts::get_system_prompt_2(&ctx)] {
        assert!(!prompt.contains('\n'));
        assert!(!prompt.contains('\t'));
        assert_eq!(prompt.matches(&encoded).count(), 1);
    }
}

#[test]
fn context_encoding_matches_expected_wire_form() {
    let encoded = encode_context(&sample_context());
    assert_eq!(
        encoded,
        r#"{"cwd":"/proj","ls":[{"name":"Cargo.toml","kind":"file"}],"history":[]}"#
    );
}

#[test]
fn context_encoding_agrees_with_reference_serializer() {
    let ctx = Context {
        cwd: "/a dir/with \"quotes\"\nand lines".to_string(),
        ls: vec![File { name: "nested\\path".to_string(), kind: FileKind::Directory }],
        history: vec![History {
            dir: "/proj".to_string(),
            cmd: "cargo\ttest".to_string(),
            datetime: "2024-11-04".to_string(),
        }],
    };
    let parsed: serde_json::Value = serde_json::from_str(&encode_context(&ctx))
        .expect("the reference parser must accept the encoding");
    assert_eq!(parsed["cwd"], serde_json::Value::String("/a dir/with \"quotes\"\nand lines".into()));
    assert_eq!(parsed["ls"][0]["name"], serde_json::Value::String("nested\\path".into()));
    assert_eq!(parsed["ls"][0]["kind"], serde_json::Value::String("directory".into()));
    assert_eq!(parsed["history"][0]["dir"], serde_json::Value::String("/proj".into()));
    assert_eq!(parsed["history"][0]["cmd"], serde_json::Value::String("cargo\ttest".into()));
    assert_eq!(parsed["history"][0]["datetime"], serde_json::Value::String("2024-11-04".into()));
}

#[test]
fn control_characters_encode_as_unicode_escapes() {
    let ctx = Context {
        cwd: "a\u{1}b\u{1F}c".to_string(),
        ls: vec![],
        history: vec![],
    };
    let encoded = encode_context(&ctx);
    assert!(encoded.contains(r"\u0001"));
    assert!(encoded.contains(r"\u001f"));
    let parsed: serde_json::Value = serde_json::from_str(&encoded)
        .expect("the reference parser must accept the encoding");
    assert_eq!(parsed["cwd"], serde_json::Value::String("a\u{1}b\u{1F}c".into()));
    let decoded = decode_context(&encoded).expect("round trip must decode");
    assert_eq!(decoded, ctx);
}

#[test]
fn context_round_trips_through_the_codec() {
    let ctx = Context {
        cwd: "/home/someone/my projects".to_string(),
        ls: vec![
            File { name: "src".to_string(), kind: FileKind::Directory },
            File { name: "read me \"now\"\n.md".to_string(), kind: FileKind::File },
        ],
        history: vec![History {
            dir: "/tmp".to_string(),
            cmd: "grep -r \"x\\\\y\" .".to_string(),
            datetime: "2024-11-04T06:13:34".to_string(),
        }],
    };
    let decoded = decode_context(&encode_context(&ctx)).expect("round trip must decode");
    assert_eq!(decoded, ctx);
}

#[test]
fn content_decode_accepts_nested_chain_payload() {
    let text = r#"{ "response": [ { "reasoning": "build it",
        "commands": [
          { "cmd": "cargo build", "missing_fields": [], "reasoning": "first" },
          { "cmd": "cargo run", "missing_fields": [
              { "key": "bin", "reasoning": "which binary",
                "suggestions": [ { "value": "main", "reasoning": "default" } ] } ],
            "reasoning": "then" } ] } ] }"#;
    let decoded = decode_content(text).expect("nested payload must decode");
    assert_eq!(decoded.response.len(), 1);
    let sugg = &decoded.response[0];
    assert_eq!(sugg.reasoning, "build it");
    assert_eq!(sugg.commands.len(), 2);
    assert_eq!(sugg.commands[0].cmd, "cargo build");
    assert_eq!(sugg.commands[1].missing_fields.len(), 1);
    assert_eq!(sugg.commands[1].missing_fields[0].key, "bin");
    assert_eq!(sugg.commands[1].missing_fields[0].suggestions[0].value, "main");
}

#[test]
fn content_decode_accepts_flat_payload() {
    let text = r#"{"response":[{"cmd":"ls <path>","missing_fields":[{"key":"path","reasoning":"which directory"}],"reasoning":"list files"}]}"#;
    let decoded = decode_content(text).expect("flat payload must decode");
    assert_eq!(decoded.response.len(), 1);
    let sugg = &decoded.response[0];
    assert_eq!(sugg.reasoning, "list files");
    assert_eq!(sugg.commands.len(), 1);
    assert_eq!(sugg.commands[0].cmd, "ls <path>");
    assert_eq!(sugg.commands[0].missing_fields[0].key, "path");
    assert!(sugg.commands[0].missing_fields[0].suggestions.is_empty());
}

#[test]
fn content_decode_accepts_unicode_escapes_for_placeholders() {
    // HTML-escaping encoders write the placeholder brackets and ampersands
    // as \u003c, \u003e and \u0026; the decoder must hand back the same
    // template a reference decoder would.
    let text = r#"{"response":[{"reasoning":"branch work","commands":[{"cmd":"git checkout -b \u003cbranch_name\u003e \u0026\u0026 git push","missing_fields":[{"key":"branch_name","reasoning":"name it"}],"reasoning":"switch"}]}]}"#;
    let decoded = decode_content(text).expect("escaped brackets must decode");
    assert_eq!(
        decoded.response[0].commands[0].cmd,
        "git checkout -b <branch_name> && git push"
    );
    let flat = r#"{"response":[{"cmd":"ls \u003cpath\u003e","missing_fields":[{"key":"path","reasoning":"r"}],"reasoning":"\u0041 list"}]}"#;
    let decoded = decode_content(flat).expect("flat payload with escapes must decode");
    assert_eq!(decoded.response[0].commands[0].cmd, "ls <path>");
    assert_eq!(decoded.response[0].reasoning, "A list");
}

#[test]
fn content_decode_accepts_escaped_surrogate_pairs() {
    // An astral character escaped as a surrogate pair, as ASCII-escaping
    // encoders write it, decodes to the character itself.
    let text = r#"{"response":[{"reasoning":"\uD83D\uDE00","commands":[]}]}"#;
    let decoded = decode_content(text).expect("an escaped surrogate pair must decode");
    assert_eq!(decoded.response[0].reasoning, "\u{1F600}");
    // The same character written raw in UTF-8 passes through as well.
    let raw = format!(
        r#"{{"response":[{{"reasoning":"{}","commands":[]}}]}}"#,
        '\u{1F600}'
    );
    let decoded = decode_content(&raw).expect("a raw astral character must decode");
    assert_eq!(decoded.response[0].reasoning, "\u{1F600}");
    // A lone surrogate is not a character and fails the parse.
    let high = r#"{"response":[{"reasoning":"\uD83Dx","commands":[]}]}"#;
    assert_eq!(decode_content(high).unwrap_err(), DecodeError::Content);
    let low = r#"{"response":[{"reasoning":"\uDE00","commands":[]}]}"#;
    assert_eq!(decode_content(low).unwrap_err(), DecodeError::Content);
}

#[test]
fn content_decode_tolerates_numbers_in_ignored_members() {
    // Floats, negatives, exponents and oversized integers in members the
    // schema does not read must not fail the whole document.
    let text = r#"{"response":[{"reasoning":"r","temperature":0.75,"rank":-3,"scale":1e9,"big":99999999999999999999999999,"commands":[]}],"took":2.5}"#;
    let decoded = decode_content(text).expect("numbers in ignored members must decode");
    assert_eq!(decoded.response[0].reasoning, "r");
    // A number of the wrong shape in a required integer field still fails.
    let raw = r#"{"model":"m","created_at":"t","message":{"role":"a","content":"x"},"done_reason":"stop","total_duration":1.5,"load_duration":2,"prompt_eval_count":3,"prompt_eval_duration":4,"eval_count":5,"eval_duration":6}"#;
    assert_eq!(decode_envelope(raw).unwrap_err(), DecodeError::Envelope);
    // Malformed numbers are still document errors.
    assert_eq!(
        decode_content(r#"{"response":[],"x":1.}"#).unwrap_err(),
        DecodeError::Content
    );
    assert_eq!(
        decode_content(r#"{"response":[],"x":-}"#).unwrap_err(),
        DecodeError::Content
    );
}

#[test]
fn content_decode_rejects_payload_without_response_key() {
    let text = r#"{"answers":[]}"#;
    assert_eq!(decode_content(text).unwrap_err(), DecodeError::Content);
    assert_eq!(decode_content("not json at all").unwrap_err(), DecodeError::Content);
}

#[test]
fn placeholder_resolution_substitutes_trimmed_value() {
    let cmd = command("git commit -m <message>", &["message"]);
    let resolved = resolve_command(&cmd, &vec!["fix bug".to_string()]).unwrap();
    assert_eq!(resolved, "git commit -m fix bug");
    let padded = resolve_command(&cmd, &vec!["  fix bug\n".to_string()]).unwrap();
    assert_eq!(padded, "git commit -m fix bug");
    let emptied = resolve_command(&cmd, &vec!["   ".to_string()]).unwrap();
    assert_eq!(emptied, "git commit -m ");
    let unicode_padded = resolve_command(&cmd, &vec!["\u{00A0}fix bug\u{2028}".to_string()])
        .unwrap();
    assert_eq!(unicode_padded, "git commit -m fix bug");
}

#[test]
fn placeholder_resolution_replaces_every_occurrence() {
    let cmd = command("cp <f> <f>.bak", &["f"]);
    assert_eq!(resolve_command(&cmd, &vec!["notes.txt".to_string()]).unwrap(),
        "cp notes.txt notes.txt.bak");
}

#[test]
fn placeholder_resolution_reports_unmatched_key() {
    let cmd = command("ls -la", &["path"]);
    match resolve_command(&cmd, &vec!["/tmp".to_string()]) {
        Err(ResolveError::UnmatchedKey(k)) => assert_eq!(k, "path"),
        other => panic!("expected an unmatched-key error, got {:?}", other),
    }
}

#[test]
fn placeholder_resolution_never_skips_a_field() {
    let cmd = command("git commit -m <message>", &["message"]);
    match resolve_command(&cmd, &vec![]) {
        Err(ResolveError::ValueCountMismatch) => {},
        other => panic!("expected a count mismatch, got {:?}", other),
    }
}

#[test]
fn chain_resolution_keeps_order_and_is_all_or_nothing() {
    let sugg = ModelSuggestion {
        reasoning: "ship it".to_string(),
        commands: vec![
            command("git add <files>", &["files"]),
            command("git commit -m <message>", &["message"]),
            command("git push", &[]),
        ],
    };
    let lines = resolve_chain(
        &sugg,
        &vec![vec!["-A".to_string()], vec!["nits".to_string()], vec![]],
    )
    .unwrap();
    assert_eq!(lines, vec!["git add -A", "git commit -m nits", "git push"]);
    let missing = resolve_chain(&sugg, &vec![vec!["-A".to_string()], vec![], vec![]]);
    match missing {
        Err(ResolveError::ValueCountMismatch) => {},
        other => panic!("expected the chain to fail whole, got {:?}", other),
    }
}

#[test]
fn selection_validation_covers_all_cases() {
    let five: Vec<ModelSuggestion> = (0..5)
        .map(|i| ModelSuggestion { reasoning: format!("s{}", i), commands: vec![] })
        .collect();
    assert_eq!(validate_and_get_user_input_as_int(&five, "2".to_string()).unwrap(), 2);
    assert_eq!(validate_and_get_user_input_as_int(&five, " 4\n".to_string()).unwrap(), 4);
    match validate_and_get_user_input_as_int(&five, "5".to_string()) {
        Err(CustomParserError::OutOfBoundError(n)) => assert_eq!(n, 5),
        other => panic!("expected out of bounds, got {:?}", other),
    }
    match validate_and_get_user_input_as_int(&five, "abc".to_string()) {
        Err(CustomParserError::ParseIntError(s)) => assert_eq!(s, "abc"),
        other => panic!("expected a parse error, got {:?}", other),
    }
    match validate_and_get_user_input_as_int(&five, "-1".to_string()) {
        Err(CustomParserError::ParseIntError(_)) => {},
        other => panic!("expected a parse error for a negative, got {:?}", other),
    }
    // A leading `+` and Unicode whitespace padding read as the unsigned
    // parse of the trimmed input does.
    assert_eq!(validate_and_get_user_input_as_int(&five, "+2".to_string()).unwrap(), 2);
    assert_eq!(
        validate_and_get_user_input_as_int(&five, "\u{00A0}3\u{00A0}".to_string()).unwrap(),
        3
    );
    match validate_and_get_user_input_as_int(&five, "++2".to_string()) {
        Err(CustomParserError::ParseIntError(_)) => {},
        other => panic!("expected a parse error for a double sign, got {:?}", other),
    }
    match validate_and_get_user_input_as_int(&five, "+".to_string()) {
        Err(CustomParserError::ParseIntError(_)) => {},
        other => panic!("expected a parse error for a lone sign, got {:?}", other),
    }
}

#[test]
fn chain_prompt_embeds_context_and_chain_instructions() {
    let ctx = sample_context();
    let prompt = Prompts::get_system_prompt_2(&ctx);
    assert!(prompt.contains(
        r#"{"cwd":"/proj","ls":[{"name":"Cargo.toml","kind":"file"}],"history":[]}"#
    ));
    assert!(prompt.contains("chain"));
    assert!(prompt.contains("missing_fields"));
    let flat = Prompts::get_system_prompt(&ctx);
    assert!(flat.contains(
        r#"{"cwd":"/proj","ls":[{"name":"Cargo.toml","kind":"file"}],"history":[]}"#
    ));
}

#[test]
fn envelope_decode_reads_the_canned_reply() {
    let raw = DummyResponse::get_dummy_response();
    let envelope = decode_envelope(&raw).expect("the canned envelope must decode");
    assert_eq!(envelope.model, "qwen2.5");
    assert_eq!(envelope.created_at, "2024-11-04T06:13:34.765879Z");
    assert_eq!(envelope.message.role, "assistant");
    assert_eq!(envelope.done_reason, "stop");
    assert_eq!(envelope.total_duration, 54367747041);
    assert_eq!(envelope.load_duration, 36362250);
    assert_eq!(envelope.prompt_eval_count, 1834);
    assert_eq!(envelope.prompt_eval_duration, 2014534000);
    assert_eq!(envelope.eval_count, 491);
    assert_eq!(envelope.eval_duration, 52294908000);
}

#[test]
fn envelope_decode_rejects_malformed_text() {
    assert_eq!(decode_envelope("{}").unwrap_err(), DecodeError::Envelope);
    assert_eq!(decode_envelope("[1,2]").unwrap_err(), DecodeError::Envelope);
    assert_eq!(decode_envelope("").unwrap_err(), DecodeError::Envelope);
}

#[test]
fn canned_reply_content_violates_the_schema() {
    let raw = DummyResponse::get_dummy_response();
    let envelope = decode_envelope(&raw).unwrap();
    assert_eq!(decode_content(&envelope.message.content).unwrap_err(), DecodeError::Content);
    assert_eq!(parse_response(&raw).unwrap_err(), DecodeError::Content);
}

#[test]
fn parse_response_decodes_a_well_formed_reply() {
    let content = r#"{\"response\":[{\"reasoning\":\"r\",\"commands\":[{\"cmd\":\"git status\",\"missing_fields\":[],\"reasoning\":\"c\"}]}]}"#;
    let raw = format!(
        r#"{{"model":"qwen2.5","created_at":"now","message":{{"role":"assistant","content":"{}"}},"done_reason":"stop","total_duration":1,"load_duration":2,"prompt_eval_count":3,"prompt_eval_duration":4,"eval_count":5,"eval_duration":6}}"#,
        content
    );
    let suggestions = parse_response(&raw).expect("a well-formed reply must parse");
    assert_eq!(suggestions.len(), 1);
    assert_eq!(suggestions[0].commands[0].cmd, "git status");
}

#[test]
fn history_decode_reads_records_in_order() {
    let text = r#"[{"dir":"/a","cmd":"ls","datetime":"t1"},
                   {"dir":"/b","cmd":"pwd","datetime":"t2"}]"#;
    let records = decode_history(text).unwrap();
    assert_eq!(records.len(), 2);
    assert_eq!(records[0].dir, "/a");
    assert_eq!(records[0].cmd, "ls");
    assert_eq!(records[1].datetime, "t2");
    assert_eq!(decode_history(r#"{"dir":"/a"}"#).unwrap_err(), DecodeError::History);
    assert_eq!(decode_history("[{}]").unwrap_err(), DecodeError::History);
}

#[test]
fn context_decode_rejects_malformed_text() {
    assert_eq!(decode_context("{}").unwrap_err(), DecodeError::Context);
    assert_eq!(
        decode_context(r#"{"cwd":"/p","ls":[{"name":"x","kind":"socket"}],"history":[]}"#)
            .unwrap_err(),
        DecodeError::Context
    );
}
