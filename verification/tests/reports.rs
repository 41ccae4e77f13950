use codex_monitor::codex::{AccountResult, AnchorOutcome, CodexStatus};
use codex_monitor::discord::{
    check_response, format_account_report, format_account_section, format_report,
    is_success, prepare_account_webhook, status_message_title, webhook_payload, PreparedWebhook,
    WebhookRequest,
};
use codex_monitor::markup::{escape_code_fence, escape_markdown, filename_slug};
use codex_monitor::scheduler::wall_clock;
use codex_monitor::split::{expand_long_lines, split_report, DISCORD_LIMIT};
use codex_monitor::status_image::{canvas_size, card_lines, text_colour, Canvas, Colour};
use codex_monitor::time::LocalTime;

const STAMP: LocalTime = LocalTime { seconds: 0, nanosecond: 0, offset: -3_600 };

fn success(name: &str, card: &str) -> AccountResult {
    AccountResult::Success(status(name, card))
}

fn status(name: &str, card: &str) -> CodexStatus {
    CodexStatus {
        account_name: name.to_owned(),
        rendered_status: card.to_owned(),
        five_hour_percent_left: None,
        weekly_percent_left: None,
        five_hour_reset_at: None,
        anchor_outcome: AnchorOutcome::NotNeeded,
    }
}

fn failure(name: &str, error: &str) -> AccountResult {
    AccountResult::Failure { account_name: name.to_owned(), error: error.to_owned() }
}

#[test]
fn report_includes_successes_and_failures() {
    let results = vec![
        AccountResult::Success(CodexStatus {
            account_name: "Main".to_owned(),
            rendered_status: "╭──╮\n│ok│\n╰──╯".to_owned(),
            five_hour_percent_left: Some(50),
            weekly_percent_left: Some(80),
            five_hour_reset_at: None,
            anchor_outcome: AnchorOutcome::NotNeeded,
        }),
        failure("Alt", "startup timeout"),
    ];
    let report = format_report(&wall_clock(), &results);
    assert!(report.contains("**Main**"));
    assert!(report.contains("│ok│"));
    assert!(report.contains("**Alt**"));
    assert!(report.contains("ERROR: startup timeout"));
}

#[test]
fn reports_are_written_exactly() {
    let results = vec![success("Main", "card"), failure("Alt", "late")];
    assert_eq!(
        format_report(&STAMP, &results),
        "**Codex Usage Monitor**\nTimestamp: 1969-12-31 23:00 -01:00\n\n**Main**\n```text\ncard\n```\n\n**Alt**\n```text\nERROR: late\n```"
    );
    assert_eq!(
        format_report(&STAMP, &[]),
        "**Codex Usage Monitor**\nTimestamp: 1969-12-31 23:00 -01:00"
    );
    assert_eq!(
        format_account_report(&STAMP, &results[1]),
        "**Codex Usage Monitor**\nTimestamp: 1969-12-31 23:00 -01:00\n\n**Alt**\n```text\nERROR: late\n```"
    );
}

#[test]
fn reports_grow_by_a_section() {
    let mut results = Vec::new();
    for result in [success("Main", "card"), failure("Alt", "late"), success("Work", "")] {
        let section = format_account_section(&result);
        let alone = format_account_report(&STAMP, &result);
        let before = format_report(&STAMP, &results);
        results.push(result);
        assert_eq!(format_report(&STAMP, &results), format!("{before}\n\n{section}"));
        assert_eq!(format_report(&STAMP, &results[results.len() - 1..]), alone);
    }
}

#[test]
fn sections_warn_of_failed_anchors() {
    let mut failed = status("A*", "card");
    failed.anchor_outcome = AnchorOutcome::Failed("no * reply".to_owned());
    assert_eq!(
        status_message_title(&failed),
        "**Codex Usage Monitor — A\\***\n⚠️ Automatic 5h-window anchor failed; showing the best available status: no \\* reply"
    );
    assert_eq!(
        format_account_section(&AccountResult::Success(failed)),
        "**A\\***\n⚠️ Automatic 5h-window anchor failed; showing the best available status: no \\* reply\n```text\ncard\n```"
    );
}

#[test]
fn normal_account_reports_are_independent_discord_messages() {
    let timestamp = wall_clock();
    let results = [
        success("Main", &"Main status row\n".repeat(60)),
        success("Alt", &"Alt status row\n".repeat(60)),
    ];

    let messages: Vec<String> = results
        .iter()
        .map(|result| format_account_report(&timestamp, result))
        .collect();
    assert_eq!(messages.len(), 2);
    assert!(messages[0].contains("**Main**"));
    assert!(!messages[0].contains("**Alt**"));
    assert!(messages[1].contains("**Alt**"));
    assert!(!messages[1].contains("**Main**"));
    assert!(messages.iter().all(|message| split_report(message).len() == 1));
}

#[test]
fn prepares_title_with_png_and_complete_text() {
    let result = AccountResult::Success(CodexStatus {
        account_name: "Main Account".to_owned(),
        rendered_status: "╭────────────╮\n│ Model: x   │\n│ 5h limit: 60% left │\n│ Future: yes │\n╰────────────╯".to_owned(),
        five_hour_percent_left: Some(60),
        weekly_percent_left: None,
        five_hour_reset_at: None,
        anchor_outcome: AnchorOutcome::NotNeeded,
    });
    let png = Canvas::new(4, 3).encode().unwrap();
    let prepared = prepare_account_webhook(&wall_clock(), &result, Ok(png)).unwrap();
    assert_eq!(prepared.content, "**Codex Usage Monitor — Main Account**");
    assert!(!prepared.content.contains("Model"));
    assert!(!prepared.content.contains("Timestamp"));
    let attachments = prepared.attachments.unwrap();
    assert_eq!(attachments.png_name, "main-account-status.png");
    assert_eq!(attachments.text_name, "main-account-status.txt");
    assert!(attachments.png.starts_with(b"\x89PNG"));
    let text = String::from_utf8(attachments.text).unwrap();
    assert!(text.contains("Future: yes"));
    assert!(text.ends_with("╯\n"));
}

#[test]
fn accounts_without_a_picture_are_reported_as_text() {
    let error = prepare_account_webhook(&STAMP, &success("Main", "card"), Err("no font".to_owned()))
        .unwrap_err();
    assert_eq!(error, "no font");
    let failed = failure("Alt", "late");
    let prepared = prepare_account_webhook(&STAMP, &failed, Err("no font".to_owned())).unwrap();
    assert_eq!(prepared.content, format_account_report(&STAMP, &failed));
    assert!(prepared.attachments.is_none());
}

#[test]
fn oversized_reports_split_without_losing_status_lines() {
    let mut report = String::from("**Codex Usage Monitor**\n```text\n");
    for index in 0..150 {
        report.push_str(&format!("unique-status-row-{index:03}\n"));
    }
    report.push_str("```");
    let chunks = split_report(&report);
    assert!(chunks.len() > 1);
    assert!(chunks.iter().all(|chunk| chunk.chars().count() <= DISCORD_LIMIT));
    for index in 0..150 {
        let needle = format!("unique-status-row-{index:03}");
        assert!(chunks.iter().any(|chunk| chunk.contains(&needle)));
    }
}

#[test]
fn split_code_blocks_are_closed_and_reopened() {
    let report = format!("a\n```text\n{}```\nb", "row\n".repeat(600));
    let chunks = split_report(&report);
    assert_eq!(chunks.len(), 2);
    assert!(chunks[0].starts_with("a\n```text\nrow\n"));
    assert!(chunks[0].ends_with("\nrow\n```"));
    assert!(chunks[0].chars().count() <= 1_900);
    assert!(chunks[1].starts_with("**Codex Usage Monitor (continued)**\n```text\nrow\n"));
    assert!(chunks[1].ends_with("\nrow\n```\nb"));
    let rows: usize = chunks.iter().map(|chunk| chunk.matches("row").count()).sum();
    assert_eq!(rows, 600);
}

#[test]
fn sections_that_fit_are_not_split() {
    let section = |name: &str| format!("**{name}**\n```text\n{}```", "0123456789\n".repeat(100));
    let report = format!("head\n\n{}\n\n{}", section("A"), section("B"));
    let chunks = split_report(&report);
    assert_eq!(chunks.len(), 2);
    assert_eq!(chunks[0], format!("head\n\n{}\n", section("A")));
    assert_eq!(chunks[1], format!("**Codex Usage Monitor (continued)**\n{}", section("B")));
}

#[test]
fn rows_that_are_no_section_fill_the_messages() {
    let rows = "0123456789\n".repeat(100);
    let chunks = split_report(&format!("{rows}\n{rows}"));
    assert_eq!(chunks.len(), 2);
    assert_eq!(chunks[0], format!("{rows}\n{}", "0123456789\n".repeat(72)).trim_end());
    assert_eq!(
        chunks[1],
        format!("**Codex Usage Monitor (continued)**\n{}", "0123456789\n".repeat(28)).trim_end()
    );
}

/// Each section of a report on `results` stands whole in one message.
fn assert_sections_stay_whole(results: &[AccountResult]) {
    let report = format_report(&STAMP, results);
    assert!(report.chars().count() > DISCORD_LIMIT);
    let chunks = split_report(&report);
    assert!(chunks.len() > 1);
    for result in results {
        let section = format_account_section(result);
        assert!(report.contains(&section));
        assert!(chunks.iter().any(|chunk| chunk.contains(&section)));
    }
}

#[test]
fn labels_of_several_rows_do_not_split_sections() {
    let card = "0123456789\n".repeat(110);
    for name in [
        "First\n\nSecond",
        "First\n```\nSecond",
        "```text\n\n```",
        "\n\n**First**\n\n",
        "\\*\\**\\",
        "",
    ] {
        assert_sections_stay_whole(&[success(name, &card), success(name, &card)]);
        assert_sections_stay_whole(&[failure(name, &card), failure(name, &card)]);
    }
}

#[test]
fn anchor_messages_of_several_rows_do_not_split_sections() {
    let card = "0123456789\n".repeat(110);
    for message in ["late\n\n**late**", "late\n```\n\n**late**\n```", "\n```text", "```"] {
        let result = || {
            AccountResult::Success(CodexStatus {
                anchor_outcome: AnchorOutcome::Failed(message.to_owned()),
                ..status("Main", &card)
            })
        };
        assert_sections_stay_whole(&[result(), result()]);
    }
}

#[test]
fn cards_that_look_like_sections_do_not_split_sections() {
    let rows = "0123456789\n".repeat(100);
    for start in ["\n**Other**\n```text\n", "```\n\n**Other**\n", "```\n\n**"] {
        let card = format!("{start}{rows}");
        assert_sections_stay_whole(&[success("Main", &card), success("Alt", &card)]);
        assert_sections_stay_whole(&[failure("Main", &card), failure("Alt", &card)]);
    }
}

#[test]
fn carriage_returns_are_line_ends_of_sections() {
    let card = "0123456789\r\n".repeat(100);
    let results = [success("Main", &card), success("Alt", &card)];
    let chunks = split_report(&format_report(&STAMP, &results));
    for result in &results {
        let section = format_account_section(result).replace("\r\n", "\n");
        assert!(chunks.iter().any(|chunk| chunk.contains(&section)));
    }
}

#[test]
fn reports_up_to_the_limit_stay_whole() {
    let report = "x".repeat(2_000);
    assert_eq!(split_report(&report), [report.clone()]);
    let chunks = split_report(&"x".repeat(2_001));
    assert_eq!(chunks[0].len(), 1_884);
    assert_eq!(chunks[1], format!("**Codex Usage Monitor (continued)**\n{}", "x".repeat(117)));
    assert_eq!(split_report(""), [""]);
}

#[test]
fn empty_first_lines_are_kept() {
    let chunks = split_report(&format!("\n\n{}\n", "y\n".repeat(1_500)));
    assert!(chunks[0].starts_with("\n\ny\n"));
}

#[test]
fn long_lines_are_cut() {
    assert_eq!(expand_long_lines("abcdefg\nhi\n\n", 3), ["abc", "def", "g", "hi", ""]);
    assert_eq!(expand_long_lines("äöü€", 2), ["äö", "ü€"]);
}

#[test]
fn markdown_is_escaped() {
    assert_eq!(escape_markdown("a*b\\c_d"), "a\\*b\\\\c_d");
    assert_eq!(escape_markdown("\\*"), "\\\\\\*");
    assert_eq!(escape_markdown(""), "");
}

#[test]
fn code_fences_are_broken_up() {
    assert_eq!(escape_code_fence("a```b"), "a``\u{200b}`b");
    assert_eq!(escape_code_fence("``"), "``");
    assert_eq!(escape_code_fence("````"), "``\u{200b}``");
    assert_eq!(escape_code_fence("``````"), "``\u{200b}```\u{200b}`");
    assert_eq!(escape_code_fence("plain"), "plain");
}

#[test]
fn slugs_are_file_names() {
    assert_eq!(filename_slug("Main Account"), "main-account");
    assert_eq!(filename_slug("--Ä Z9/x--"), "z9-x");
    assert_eq!(filename_slug("a--b"), "a--b");
    assert_eq!(filename_slug("日本"), "account");
    assert_eq!(filename_slug(""), "account");
}

#[test]
fn payloads_are_json_without_mentions() {
    assert_eq!(
        webhook_payload("hello"),
        r#"{"content":"hello","allowed_mentions":{"parse":[]}}"#
    );
    let content = "a \"b\"\n\\ ⚠️";
    let value: serde_json::Value = serde_json::from_str(&webhook_payload(content)).unwrap();
    assert_eq!(value["content"].as_str(), Some(content));
    assert_eq!(value["allowed_mentions"]["parse"].as_array().map(Vec::len), Some(0));
}

#[test]
fn messages_are_posted_as_json_or_as_a_form() {
    let plain = PreparedWebhook { content: "hello".to_owned(), attachments: None };
    let request = WebhookRequest::new(plain);
    assert_eq!(request.failure_context(), "Discord webhook request failed");
    match request {
        WebhookRequest::Json(json) => assert_eq!(json, webhook_payload("hello")),
        _ => panic!("a form"),
    }
    let card = success("Main", "│ Future field: preserved │");
    let prepared = prepare_account_webhook(&STAMP, &card, Ok(vec![1, 2])).unwrap();
    let request = WebhookRequest::new(prepared);
    assert_eq!(request.failure_context(), "Discord webhook request with attachments failed");
    match request {
        WebhookRequest::Form { payload_json, files } => {
            assert_eq!(payload_json, webhook_payload("**Codex Usage Monitor — Main**"));
            assert_eq!(files.len(), 2);
            assert_eq!(files[0].field, "files[0]");
            assert_eq!(files[0].file_name, "main-status.png");
            assert_eq!(files[0].media_type, "image/png");
            assert_eq!(files[0].bytes, [1, 2]);
            assert_eq!(files[1].field, "files[1]");
            assert_eq!(files[1].file_name, "main-status.txt");
            assert_eq!(files[1].media_type, "text/plain; charset=utf-8");
            assert_eq!(files[1].bytes, "│ Future field: preserved │\n".as_bytes());
        }
        _ => panic!("no form"),
    }
}

#[test]
fn answers_are_shown_up_to_five_hundred_characters() {
    for (code, success) in [(199, false), (200, true), (299, true), (300, false), (0, false)] {
        assert_eq!(is_success(code), success);
        assert_eq!(check_response(code, "", "").is_ok(), success);
    }
    assert!(check_response(204, "204 No Content", "").is_ok());
    assert_eq!(
        check_response(404, "404 Not Found", "gone").unwrap_err(),
        "Discord webhook returned HTTP 404 Not Found: gone"
    );
    let long = check_response(500, "500", &"é".repeat(501)).unwrap_err();
    assert_eq!(long, format!("Discord webhook returned HTTP 500: {}", "é".repeat(500)));
}

#[test]
fn cards_are_drawn_line_by_line() {
    assert_eq!(card_lines("a\nb\r\n").unwrap(), ["a", "b"]);
    assert_eq!(card_lines("").unwrap_err(), "cannot render an empty status card");
    assert_eq!(canvas_size(100, 50), (148, 90));
    assert_eq!(text_colour(), Colour { red: 224, green: 230, blue: 237 });
}

#[test]
fn pixels_are_found_and_painted() {
    let mut canvas = Canvas::new(3, 2);
    assert_eq!(canvas.pixels.len(), 24);
    assert_eq!(canvas.pixels[..4], [13, 17, 23, 255]);
    assert_eq!(canvas.locate(-1, 0, 0, 0), None);
    assert_eq!(canvas.locate(0, -2, 0, 1), None);
    assert_eq!(canvas.locate(2, 0, 1, 0), None);
    assert_eq!(canvas.locate(0, 0, 0, 2), None);
    let place = canvas.locate(-1, 1, 3, 0).unwrap();
    assert_eq!(place, 20);
    assert_eq!(canvas.colour(place), Colour { red: 13, green: 17, blue: 23 });
    canvas.paint(place, Colour { red: 1, green: 2, blue: 3 });
    assert_eq!(canvas.pixels[16..], [13, 17, 23, 255, 1, 2, 3, 255]);
}

#[test]
fn pictures_are_png_files() {
    let mut canvas = Canvas::new(5, 4);
    canvas.paint(8, Colour { red: 200, green: 100, blue: 50 });
    let pixels = canvas.pixels.clone();
    let png = canvas.encode().unwrap();
    assert!(png.starts_with(b"\x89PNG\r\n\x1a\n"));
    let picture = image::load_from_memory(&png).unwrap().to_rgba8();
    assert_eq!(picture.dimensions(), (5, 4));
    assert_eq!(picture.into_raw(), pixels);
}
