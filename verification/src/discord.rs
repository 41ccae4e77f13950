//! The reports, and the messages that carry them to Discord.

use vstd::prelude::*;
use vstd::string::*;

use crate::calendar;
use crate::calendar::format_time;
use crate::codex::{AccountResult, AnchorOutcome, CodexStatus};
use crate::markup;
use crate::markup::{escape_code_fence, escape_markdown, filename_slug};
use crate::text;
use crate::text::{chars_of, copy_range, text_of, trimmed_end};
use crate::time::LocalTime;

verus! {

/// A message that is ready to be sent.
#[derive(Debug)]
pub struct PreparedWebhook {
    pub content: String,
    pub attachments: Option<StatusAttachments>,
}

/// The card of an account, as a picture and as text.
#[derive(Debug)]
pub struct StatusAttachments {
    pub png_name: String,
    pub png: Vec<u8>,
    pub text_name: String,
    pub text: Vec<u8>,
}

/// The warning that a window could not be started, before what went wrong.
pub open spec fn anchor_warning() -> Seq<char> {
    "⚠️ Automatic 5h-window anchor failed; showing the best available status: "@
}

/// What a report says of one account.
pub open spec fn account_section(result: AccountResult) -> Seq<char> {
    match result {
        AccountResult::Success(status) => {
            let warning = match status.anchor_outcome.failure() {
                Some(error) => anchor_warning() + markup::markdown(error) + "\n"@,
                None => Seq::empty(),
            };
            "**"@ + markup::markdown(status.account_name@) + "**\n"@ + warning + "```text\n"@
                + markup::broken_fences(status.rendered_status@) + "\n```"@
        },
        AccountResult::Failure { account_name, error } => "**"@ + markup::markdown(account_name@)
            + "**\n```text\nERROR: "@ + markup::broken_fences(error@) + "\n```"@,
    }
}

/// What a report says of one account.
pub fn format_account_section(result: &AccountResult) -> (r: String)
    ensures
        r@ == account_section(*result),
{
    let mut section = "**".to_owned();
    match result {
        AccountResult::Success(status) => {
            let name = escape_markdown(status.account_name.as_str());
            section.append(name.as_str());
            section.append("**\n");
            match status.anchor_outcome.failure_message() {
                Some(error) => {
                    let ghost before = section@;
                    section.append(
                        "⚠️ Automatic 5h-window anchor failed; showing the best available status: ",
                    );
                    let error = escape_markdown(error);
                    section.append(error.as_str());
                    section.append("\n");
                    assert(section@ =~= before + (anchor_warning() + error@ + "\n"@));
                },
                None => {
                    assert(section@ + Seq::<char>::empty() =~= section@);
                },
            }
            section.append("```text\n");
            let card = escape_code_fence(status.rendered_status.as_str());
            section.append(card.as_str());
        },
        AccountResult::Failure { account_name, error } => {
            let name = escape_markdown(account_name.as_str());
            section.append(name.as_str());
            section.append("**\n```text\nERROR: ");
            let error = escape_code_fence(error.as_str());
            section.append(error.as_str());
        },
    }
    section.append("\n```");
    section
}

/// How a report shows when it was made.
pub open spec fn stamp(timestamp: LocalTime) -> Seq<char> {
    calendar::formatted_time(
        timestamp.seconds,
        timestamp.nanosecond,
        timestamp.offset,
        "%Y-%m-%d %H:%M %Z"@,
    )
}

/// Whether what a report shows of its time reads as a date, a time and an offset do.
pub open spec fn is_stamped(timestamp: LocalTime) -> bool {
    calendar::is_clock_text(stamp(timestamp))
}

/// The first two lines of a report that was made at `timestamp`.
pub open spec fn report_head(timestamp: LocalTime) -> Seq<char> {
    "**Codex Usage Monitor**\nTimestamp: "@ + stamp(timestamp) + "\n"@
}

/// Writes the first two lines of a report that was made at `timestamp`.
fn format_head(timestamp: &LocalTime) -> (r: String)
    requires
        timestamp.wf(),
    ensures
        r@ == report_head(*timestamp),
        is_stamped(*timestamp),
{
    let mut head = "**Codex Usage Monitor**\nTimestamp: ".to_owned();
    let shown = format_time(timestamp, "%Y-%m-%d %H:%M %Z");
    head.append(shown.as_str());
    head.append("\n");
    head
}

/// The sections of `results`, each between two line ends.
pub open spec fn sections(results: Seq<AccountResult>) -> Seq<char>
    decreases results.len(),
{
    if results.len() == 0 {
        Seq::empty()
    } else {
        sections(results.drop_last()) + ("\n"@ + account_section(results.last()) + "\n"@)
    }
}

/// The report on `results`.
pub open spec fn report(timestamp: LocalTime, results: Seq<AccountResult>) -> Seq<char> {
    text::trim_end(report_head(timestamp) + sections(results))
}

/// The report on `results`.
pub fn format_report(timestamp: &LocalTime, results: &[AccountResult]) -> (r: String)
    requires
        timestamp.wf(),
    ensures
        r@ == report(*timestamp, results@),
        is_stamped(*timestamp),
{
    let mut out = format_head(timestamp);
    let ghost head = out@;
    let mut i: usize = 0;
    assert(results@.take(0) =~= Seq::empty());
    assert(head + Seq::<char>::empty() =~= head);
    while i < results.len()
        invariant
            i <= results.len(),
            out@ == head + sections(results@.take(i as int)),
        decreases results.len() - i,
    {
        let ghost before = out@;
        let section = format_account_section(&results[i]);
        out.append("\n");
        out.append(section.as_str());
        out.append("\n");
        proof {
            let longer = results@.take(i + 1);
            assert(longer.drop_last() =~= results@.take(i as int));
            assert(out@ =~= before + ("\n"@ + section@ + "\n"@));
            assert(out@ =~= head + sections(longer));
        }
        i = i + 1;
    }
    assert(results@.take(i as int) =~= results@);
    text_of(trimmed_end(chars_of(out.as_str()).as_slice()).as_slice())
}

/// The report on one account.
pub open spec fn account_report(timestamp: LocalTime, result: AccountResult) -> Seq<char> {
    report_head(timestamp) + "\n"@ + account_section(result)
}

/// The report on one account.
pub fn format_account_report(timestamp: &LocalTime, result: &AccountResult) -> (r: String)
    requires
        timestamp.wf(),
    ensures
        r@ == account_report(*timestamp, *result),
        is_stamped(*timestamp),
{
    let mut out = format_head(timestamp);
    out.append("\n");
    let section = format_account_section(result);
    out.append(section.as_str());
    out
}

/// The text of the message that carries the card of an account.
pub open spec fn message_title(status: CodexStatus) -> Seq<char> {
    let title = "**Codex Usage Monitor — "@ + markup::markdown(status.account_name@) + "**"@;
    match status.anchor_outcome.failure() {
        Some(error) => title + "\n"@ + anchor_warning() + markup::markdown(error),
        None => title,
    }
}

/// The text of the message that carries the card of an account.
pub fn status_message_title(status: &CodexStatus) -> (r: String)
    ensures
        r@ == message_title(*status),
{
    let mut title = "**Codex Usage Monitor — ".to_owned();
    let name = escape_markdown(status.account_name.as_str());
    title.append(name.as_str());
    title.append("**");
    match status.anchor_outcome.failure_message() {
        Some(error) => {
            title.append("\n");
            title.append(
                "⚠️ Automatic 5h-window anchor failed; showing the best available status: ",
            );
            let error = escape_markdown(error);
            title.append(error.as_str());
        },
        None => {},
    }
    title
}

/// Whether `prepared` carries the card of `status` as the picture `png` and as text.
pub open spec fn carries_card(
    prepared: PreparedWebhook,
    status: CodexStatus,
    png: Seq<u8>,
) -> bool {
    let slug = markup::slug(status.account_name@);
    &&& prepared.content@ == message_title(status)
    &&& prepared.attachments matches Some(attachments)
    &&& attachments.png_name@ == slug + "-status.png"@
    &&& attachments.png@ == png
    &&& attachments.text_name@ == slug + "-status.txt"@
    &&& attachments.text@ == vstd::utf8::encode_utf8(status.rendered_status@ + "\n"@)
}

/// The message on one account, where `rendered` is what came of drawing its card: the picture,
/// or why there is none. An account without a card needs no picture.
pub fn prepare_account_webhook(
    timestamp: &LocalTime,
    result: &AccountResult,
    rendered: Result<Vec<u8>, String>,
) -> (r: Result<PreparedWebhook, String>)
    requires
        timestamp.wf(),
    ensures
        match *result {
            AccountResult::Success(status) => match rendered {
                Ok(png) => r matches Ok(prepared) && carries_card(prepared, status, png@),
                Err(error) => r matches Err(reported) && reported@ == error@,
            },
            AccountResult::Failure { .. } => r matches Ok(prepared) && prepared.content@
                == account_report(*timestamp, *result) && prepared.attachments is None,
        },
{
    match result {
        AccountResult::Success(status) => match rendered {
            Ok(png) => {
                let mut png_name = filename_slug(status.account_name.as_str());
                let mut text_name = png_name.clone();
                png_name.append("-status.png");
                text_name.append("-status.txt");
                let mut card = status.rendered_status.clone();
                card.append("\n");
                Ok(
                    PreparedWebhook {
                        content: status_message_title(status),
                        attachments: Some(
                            StatusAttachments {
                                png_name,
                                png,
                                text_name,
                                text: card.as_str().as_bytes_vec(),
                            },
                        ),
                    },
                )
            },
            Err(error) => Err(error),
        },
        AccountResult::Failure { .. } => Ok(
            PreparedWebhook {
                content: format_account_report(timestamp, result),
                attachments: None,
            },
        ),
    }
}

/// What `serde_json::to_string` writes for a text.
pub uninterp spec fn json_string(text: Seq<char>) -> Seq<char>;

/// `serde_json::to_string` writes a text as a JSON string. Writing a text to memory does not
/// fail.
#[verifier::external_body]
fn to_json(text: &str) -> (r: String)
    ensures
        r@ == json_string(text@),
{
    serde_json::to_string(text).unwrap()
}

/// The JSON object that asks Discord to show `content` without notifying anyone it mentions.
pub open spec fn payload(content: Seq<char>) -> Seq<char> {
    "{\"content\":"@ + json_string(content) + ",\"allowed_mentions\":{\"parse\":[]}}"@
}

/// The JSON object that asks Discord to show `content` without notifying anyone it mentions.
pub fn webhook_payload(content: &str) -> (r: String)
    ensures
        r@ == payload(content@),
{
    let mut out = "{\"content\":".to_owned();
    let quoted = to_json(content);
    out.append(quoted.as_str());
    out.append(",\"allowed_mentions\":{\"parse\":[]}}");
    out
}

/// A file in a form.
#[derive(Debug)]
pub struct FilePart {
    pub field: String,
    pub file_name: String,
    pub media_type: String,
    pub bytes: Vec<u8>,
}

/// What is posted to the webhook.
#[derive(Debug)]
pub enum WebhookRequest {
    /// A JSON object.
    Json(String),
    /// A form: the JSON object in the field `payload_json`, and files.
    Form { payload_json: String, files: Vec<FilePart> },
}

/// Whether `part` is the file `bytes`.
pub open spec fn is_part(
    part: FilePart,
    field: Seq<char>,
    file_name: Seq<char>,
    media_type: Seq<char>,
    bytes: Seq<u8>,
) -> bool {
    &&& part.field@ == field
    &&& part.file_name@ == file_name
    &&& part.media_type@ == media_type
    &&& part.bytes@ == bytes
}

impl WebhookRequest {
    /// What is posted for `message`.
    pub fn new(message: PreparedWebhook) -> (r: WebhookRequest)
        ensures
            match message.attachments {
                None => r matches WebhookRequest::Json(json) && json@ == payload(message.content@),
                Some(attachments) => r matches WebhookRequest::Form { payload_json, files }
                    && payload_json@ == payload(message.content@) && files@.len() == 2 && is_part(
                    files@[0],
                    "files[0]"@,
                    attachments.png_name@,
                    "image/png"@,
                    attachments.png@,
                ) && is_part(
                    files@[1],
                    "files[1]"@,
                    attachments.text_name@,
                    "text/plain; charset=utf-8"@,
                    attachments.text@,
                ),
            },
    {
        let json = webhook_payload(message.content.as_str());
        match message.attachments {
            None => WebhookRequest::Json(json),
            Some(attachments) => {
                let mut files: Vec<FilePart> = Vec::new();
                files.push(
                    FilePart {
                        field: "files[0]".to_owned(),
                        file_name: attachments.png_name,
                        media_type: "image/png".to_owned(),
                        bytes: attachments.png,
                    },
                );
                files.push(
                    FilePart {
                        field: "files[1]".to_owned(),
                        file_name: attachments.text_name,
                        media_type: "text/plain; charset=utf-8".to_owned(),
                        bytes: attachments.text,
                    },
                );
                WebhookRequest::Form { payload_json: json, files }
            },
        }
    }

    /// What is told where the request could not be made.
    pub fn failure_context(&self) -> (r: String)
        ensures
            r@ == (match *self {
                WebhookRequest::Json(_) => "Discord webhook request failed"@,
                WebhookRequest::Form { .. } => "Discord webhook request with attachments failed"@,
            }),
    {
        match self {
            WebhookRequest::Json(_) => "Discord webhook request failed".to_owned(),
            WebhookRequest::Form { .. } => "Discord webhook request with attachments failed".to_owned(),
        }
    }
}

/// The start of the answer `body` that is shown to the user: at most 500 characters.
pub open spec fn excerpt(body: Seq<char>) -> Seq<char> {
    if body.len() <= 500 {
        body
    } else {
        body.take(500)
    }
}

/// Whether the status code of an answer tells of success.
pub open spec fn succeeded(code: u16) -> bool {
    200 <= code < 300
}

/// Whether the status code of an answer tells of success.
pub fn is_success(code: u16) -> (r: bool)
    ensures
        r == succeeded(code),
{
    200 <= code && code < 300
}

/// What becomes of a request that was answered with the status code `code`, shown as `status`:
/// where that is no success, what is wrong, with the start of the answer.
pub fn check_response(code: u16, status: &str, body: &str) -> (r: Result<(), String>)
    ensures
        match r {
            Ok(()) => succeeded(code),
            Err(error) => !succeeded(code) && error@ == "Discord webhook returned HTTP "@ + status@ + ": "@
                + excerpt(body@),
        },
{
    if is_success(code) {
        return Ok(());
    }
    let mut error = "Discord webhook returned HTTP ".to_owned();
    error.append(status);
    error.append(": ");
    let chars = chars_of(body);
    if chars.len() <= 500 {
        error.append(body);
    } else {
        let start = text_of(copy_range(chars.as_slice(), 0, 500).as_slice());
        error.append(start.as_str());
        assert(start@ =~= excerpt(body@));
    }
    Err(error)
}

pub proof fn lemma_middle_occurs(before: Seq<char>, middle: Seq<char>, after: Seq<char>)
    ensures
        text::contains(before + middle + after, middle),
{
    let all = before + middle + after;
    let at = before.len() as int;
    assert(all.subrange(at, at + middle.len()) =~= middle);
    assert(text::occurs_at(all, middle, at));
}

pub proof fn lemma_contains_chain(outer: Seq<char>, middle: Seq<char>, inner: Seq<char>)
    requires
        text::contains(outer, middle),
        text::contains(middle, inner),
    ensures
        text::contains(outer, inner),
{
    let i = choose|i: int| text::occurs_at(outer, middle, i);
    let j = choose|j: int| text::occurs_at(middle, inner, j);
    let at = outer.subrange(i, i + middle.len());
    assert(outer.subrange(i + j, i + j + inner.len()) =~= at.subrange(j, j + inner.len()));
    assert(text::occurs_at(outer, inner, i + j));
}

proof fn lemma_sections_hold(results: Seq<AccountResult>, i: int)
    requires
        0 <= i < results.len(),
    ensures
        text::contains(sections(results), account_section(results[i])),
    decreases results.len(),
{
    let init = sections(results.drop_last());
    let last = account_section(results.last());
    if i == results.len() - 1 {
        lemma_middle_occurs(init + "\n"@, last, "\n"@);
        assert(init + "\n"@ + last + "\n"@ =~= sections(results));
    } else {
        lemma_sections_hold(results.drop_last(), i);
        lemma_middle_occurs(Seq::empty(), init, "\n"@ + last + "\n"@);
        assert(Seq::<char>::empty() + init + ("\n"@ + last + "\n"@) =~= sections(results));
        lemma_contains_chain(sections(results), init, account_section(results[i]));
    }
}

/// A section ends with a code fence.
pub proof fn lemma_section_ends(result: AccountResult)
    ensures
        account_section(result).len() > 0,
        account_section(result).last() == '`',
{
    reveal_strlit("\n```");
}

/// A report without its last line end; a section ends with a code fence.
pub proof fn lemma_report_ends(timestamp: LocalTime, results: Seq<AccountResult>)
    requires
        results.len() > 0,
    ensures
        report(timestamp, results) == report_head(timestamp) + sections(results.drop_last())
            + "\n"@ + account_section(results.last()),
{
    reveal_strlit("\n");
    reveal_strlit("\n```");
    let kept = report_head(timestamp) + sections(results.drop_last()) + "\n"@ + account_section(
        results.last(),
    );
    let all = report_head(timestamp) + sections(results);
    assert(all =~= kept.push('\n'));
    assert(kept.last() == '`');
    assert(all.drop_last() =~= kept);
    assert(text::trim_end(all) == text::trim_end(kept));
}

/// One more result adds an empty line and its section to a report. Of a report without results,
/// this holds of every time that a report can show.
pub proof fn law_report_grows_by_a_section(
    timestamp: LocalTime,
    results: Seq<AccountResult>,
    result: AccountResult,
)
    ensures
        results.len() > 0 || is_stamped(timestamp) ==> report(timestamp, results.push(result))
            == report(timestamp, results) + "\n\n"@ + account_section(result),
{
    reveal_strlit("\n");
    reveal_strlit("\n\n");
    assert("\n\n"@ =~= "\n"@ + "\n"@);
    let head = report_head(timestamp);
    let section = account_section(result);
    let longer = results.push(result);
    lemma_report_ends(timestamp, longer);
    assert(longer.drop_last() =~= results);
    assert(longer.last() == result);
    if results.len() > 0 {
        lemma_report_ends(timestamp, results);
        assert(head + sections(results) =~= report(timestamp, results) + "\n"@);
        assert(report(timestamp, longer) =~= report(timestamp, results) + "\n\n"@ + section);
    } else if is_stamped(timestamp) {
        let kept = "**Codex Usage Monitor**\nTimestamp: "@ + stamp(timestamp);
        assert(sections(results) =~= Seq::<char>::empty());
        assert(head + sections(results) =~= head);
        assert(head =~= kept.push('\n'));
        assert(head.drop_last() =~= kept);
        assert(kept.last() == stamp(timestamp).last());
        assert(text::trim_end(head) == text::trim_end(kept));
        assert(report(timestamp, results) == kept);
        assert(report(timestamp, longer) =~= kept + "\n\n"@ + section);
    }
}

/// The report on a single account is its account report.
pub proof fn law_report_on_one_account(timestamp: LocalTime, result: AccountResult)
    ensures
        report(timestamp, seq![result]) == account_report(timestamp, result),
{
    let results = seq![result];
    lemma_report_ends(timestamp, results);
    assert(results.drop_last() =~= Seq::<AccountResult>::empty());
    assert(sections(results.drop_last()) =~= Seq::<char>::empty());
    assert(report(timestamp, results) =~= account_report(timestamp, result));
}

/// A report holds the section of every account, whatever became of the others.
pub proof fn law_report_holds_every_section(
    timestamp: LocalTime,
    results: Seq<AccountResult>,
    i: int,
)
    requires
        0 <= i < results.len(),
    ensures
        text::contains(report(timestamp, results), account_section(results[i])),
{
    let init = results.drop_last();
    let last = account_section(results.last());
    let head = report_head(timestamp);
    lemma_report_ends(timestamp, results);
    if i == results.len() - 1 {
        lemma_middle_occurs(head + sections(init) + "\n"@, last, Seq::empty());
        assert(head + sections(init) + "\n"@ + last + Seq::<char>::empty() =~= report(
            timestamp,
            results,
        ));
    } else {
        lemma_sections_hold(init, i);
        lemma_middle_occurs(head, sections(init), "\n"@ + last);
        assert(head + sections(init) + ("\n"@ + last) =~= report(timestamp, results));
        lemma_contains_chain(
            report(timestamp, results),
            sections(init),
            account_section(results[i]),
        );
    }
}

/// A report shows the complete card of every account that has one, as long as no code fence
/// stands in the card.
pub proof fn law_report_shows_every_card(
    timestamp: LocalTime,
    results: Seq<AccountResult>,
    i: int,
    status: CodexStatus,
)
    requires
        0 <= i < results.len(),
        results[i] == AccountResult::Success(status),
        !markup::has_backticks(status.rendered_status@, 3),
    ensures
        text::contains(report(timestamp, results), status.rendered_status@),
        text::contains(account_report(timestamp, results[i]), status.rendered_status@),
{
    let section = account_section(results[i]);
    let card = status.rendered_status@;
    markup::law_text_without_fence_is_kept(card);
    let warning = match status.anchor_outcome.failure() {
        Some(error) => anchor_warning() + markup::markdown(error) + "\n"@,
        None => Seq::empty(),
    };
    lemma_middle_occurs(
        "**"@ + markup::markdown(status.account_name@) + "**\n"@ + warning + "```text\n"@,
        card,
        "\n```"@,
    );
    law_report_holds_every_section(timestamp, results, i);
    lemma_contains_chain(report(timestamp, results), section, card);
    let head = report_head(timestamp) + "\n"@;
    lemma_middle_occurs(head, section, Seq::empty());
    assert(head + section + Seq::<char>::empty() =~= account_report(timestamp, results[i]));
    lemma_contains_chain(account_report(timestamp, results[i]), section, card);
}

/// A report tells why an account failed, as long as no code fence stands in the reason.
pub proof fn law_report_tells_every_failure(
    timestamp: LocalTime,
    results: Seq<AccountResult>,
    i: int,
    account_name: String,
    error: String,
)
    requires
        0 <= i < results.len(),
        results[i] == (AccountResult::Failure { account_name, error }),
        !markup::has_backticks(error@, 3),
    ensures
        text::contains(report(timestamp, results), "ERROR: "@ + error@),
{
    let section = account_section(results[i]);
    markup::law_text_without_fence_is_kept(error@);
    reveal_strlit("**\n```text\nERROR: ");
    reveal_strlit("**\n```text\n");
    reveal_strlit("ERROR: ");
    assert("**\n```text\nERROR: "@ =~= "**\n```text\n"@ + "ERROR: "@);
    let before = "**"@ + markup::markdown(account_name@) + "**\n```text\n"@;
    let shown = "ERROR: "@ + error@;
    lemma_middle_occurs(before, shown, "\n```"@);
    assert(before + shown + "\n```"@ =~= section);
    law_report_holds_every_section(timestamp, results, i);
    lemma_contains_chain(report(timestamp, results), section, shown);
}

/// The section of an account that was captured holds its name, escaped for Markdown, the warning and
/// the reason where its window could not be started, and its card in a code block, with broken fences.
pub proof fn law_section_of_a_captured_account(
    status: CodexStatus,
    section: String,
    name: &str,
    escaped_name: String,
    card: &str,
    escaped_card: String,
    reason: &str,
    escaped_reason: String,
)
    requires
        call_ensures(format_account_section, (&AccountResult::Success(status),), section),
        name@ == status.account_name@,
        call_ensures(escape_markdown, (name,), escaped_name),
        card@ == status.rendered_status@,
        call_ensures(escape_code_fence, (card,), escaped_card),
        call_ensures(escape_markdown, (reason,), escaped_reason),
    ensures
        status.anchor_outcome matches AnchorOutcome::Failed(message) ==> (message@ == reason@
            ==> section@ == "**"@ + escaped_name@ + "**\n"@ + (
        "⚠️ Automatic 5h-window anchor failed; showing the best available status: "@ + escaped_reason@
            + "\n"@) + "```text\n"@ + escaped_card@ + "\n```"@),
        !(status.anchor_outcome is Failed) ==> section@ == "**"@ + escaped_name@ + "**\n"@
            + "```text\n"@ + escaped_card@ + "\n```"@,
{
    let title = "**"@ + escaped_name@ + "**\n"@;
    assert(title + Seq::<char>::empty() =~= title);
}

/// The section of an account that failed holds its name, escaped for Markdown, and the error in a
/// code block, with broken fences.
pub proof fn law_section_of_a_failed_account(
    account_name: String,
    error: String,
    section: String,
    name: &str,
    escaped_name: String,
    cause: &str,
    escaped_cause: String,
)
    requires
        call_ensures(
            format_account_section,
            (&(AccountResult::Failure { account_name, error }),),
            section,
        ),
        name@ == account_name@,
        call_ensures(escape_markdown, (name,), escaped_name),
        cause@ == error@,
        call_ensures(escape_code_fence, (cause,), escaped_cause),
    ensures
        section@ == "**"@ + escaped_name@ + "**\n```text\nERROR: "@ + escaped_cause@ + "\n```"@,
{
}

/// A report on nothing is its title and its time.
pub proof fn law_empty_report(timestamp: LocalTime, results: &[AccountResult], report: String)
    requires
        call_ensures(format_report, (&timestamp, results), report),
        results@.len() == 0,
    ensures
        report@ == "**Codex Usage Monitor**\nTimestamp: "@ + calendar::formatted_time(
            timestamp.seconds,
            timestamp.nanosecond,
            timestamp.offset,
            "%Y-%m-%d %H:%M %Z"@,
        ),
{
    reveal_strlit("\n");
    reveal_strlit("**Codex Usage Monitor**\nTimestamp: ");
    let shown = stamp(timestamp);
    let kept = "**Codex Usage Monitor**\nTimestamp: "@ + shown;
    let head = report_head(timestamp);
    assert(sections(results@) =~= Seq::<char>::empty());
    assert(head + sections(results@) =~= head);
    assert(head =~= kept.push('\n'));
    assert(head.drop_last() =~= kept);
    assert(kept.last() == shown.last());
    assert(text::trim_end(head) == text::trim_end(kept));
}

/// A report on one account more is the report with an empty line and the section of that account
/// behind it.
pub proof fn law_longer_report(
    timestamp: LocalTime,
    results: &[AccountResult],
    report: String,
    more: &[AccountResult],
    longer: String,
    section: String,
)
    requires
        call_ensures(format_report, (&timestamp, results), report),
        call_ensures(format_report, (&timestamp, more), longer),
        more@.len() == results@.len() + 1,
        more@.drop_last() == results@,
        call_ensures(format_account_section, (&more@.last(),), section),
    ensures
        longer@ == report@ + "\n\n"@ + section@,
{
    assert(results@.push(more@.last()) =~= more@);
    law_report_grows_by_a_section(timestamp, results@, more@.last());
}

/// The report on one account alone is the title, the time, an empty line and the section.
pub proof fn law_report_on_an_account(
    timestamp: LocalTime,
    result: AccountResult,
    report: String,
    section: String,
)
    requires
        call_ensures(format_account_report, (&timestamp, &result), report),
        call_ensures(format_account_section, (&result,), section),
    ensures
        report@ == "**Codex Usage Monitor**\nTimestamp: "@ + calendar::formatted_time(
            timestamp.seconds,
            timestamp.nanosecond,
            timestamp.offset,
            "%Y-%m-%d %H:%M %Z"@,
        ) + "\n\n"@ + section@,
        report@ == account_report(timestamp, result),
{
    reveal_strlit("\n");
    reveal_strlit("\n\n");
    assert("\n\n"@ =~= "\n"@ + "\n"@);
    assert(report@ =~= "**Codex Usage Monitor**\nTimestamp: "@ + stamp(timestamp) + "\n\n"@
        + section@);
}

/// The title of the message on an account holds its name, escaped for Markdown, and the warning and
/// the reason where its window could not be started.
pub proof fn law_title_of_a_message(
    status: CodexStatus,
    title: String,
    name: &str,
    escaped_name: String,
    reason: &str,
    escaped_reason: String,
)
    requires
        call_ensures(status_message_title, (&status,), title),
        name@ == status.account_name@,
        call_ensures(escape_markdown, (name,), escaped_name),
        call_ensures(escape_markdown, (reason,), escaped_reason),
    ensures
        status.anchor_outcome matches AnchorOutcome::Failed(message) ==> (message@ == reason@
            ==> title@ == "**Codex Usage Monitor — "@ + escaped_name@ + "**"@ + "\n"@
            + "⚠️ Automatic 5h-window anchor failed; showing the best available status: "@
            + escaped_reason@),
        !(status.anchor_outcome is Failed) ==> title@ == "**Codex Usage Monitor — "@ + escaped_name@
            + "**"@,
        title@ == message_title(status),
{
}

/// The message on an account that was captured carries the picture and the card, under names after
/// that of the account; without a picture there is none. One on an account that failed is its report.
pub proof fn law_message_on_an_account(
    timestamp: LocalTime,
    result: AccountResult,
    rendered: Result<Vec<u8>, String>,
    message: Result<PreparedWebhook, String>,
    name: &str,
    slug: String,
)
    requires
        call_ensures(prepare_account_webhook, (&timestamp, &result, rendered), message),
        result matches AccountResult::Success(status) ==> name@ == status.account_name@,
        call_ensures(filename_slug, (name,), slug),
    ensures
        result matches AccountResult::Success(status) ==> (rendered matches Ok(png) ==> (
        message matches Ok(prepared) && {
            &&& prepared.content@ == message_title(status)
            &&& prepared.attachments matches Some(files) && files.png_name@ == slug@ + "-status.png"@
                && files.png@ == png@ && files.text_name@ == slug@ + "-status.txt"@ && files.text@
                == vstd::utf8::encode_utf8(status.rendered_status@ + "\n"@)
        })),
        result is Success ==> (rendered matches Err(error) ==> (message matches Err(reported)
            && reported@ == error@)),
        result is Failure ==> (message matches Ok(prepared) && prepared.content@ == account_report(
            timestamp,
            result,
        ) && prepared.attachments is None),
{
}

/// What stands for an account in the name of its files is its slug.
pub proof fn law_slug_of_an_account(name: &str, slug: String)
    requires
        call_ensures(filename_slug, (name,), slug),
    ensures
        slug@ == markup::slug(name@),
{
}

/// The object that is posted holds the text as a JSON string, and allows no mentions.
pub proof fn law_payload_of_a_message(content: &str, object: String)
    requires
        call_ensures(webhook_payload, (content,), object),
    ensures
        object@ == "{\"content\":"@ + json_string(content@)
            + ",\"allowed_mentions\":{\"parse\":[]}}"@,
        object@ == payload(content@),
{
}

/// A message without files is posted as an object, and one with files as a form, the picture first.
pub proof fn law_messages_are_posted(
    message: PreparedWebhook,
    request: WebhookRequest,
    content: &str,
    object: String,
)
    requires
        call_ensures(WebhookRequest::new, (message,), request),
        content@ == message.content@,
        call_ensures(webhook_payload, (content,), object),
    ensures
        message.attachments is None ==> (request matches WebhookRequest::Json(json) && json@
            == object@),
        message.attachments matches Some(attachments) ==> (
        request matches WebhookRequest::Form { payload_json, files } && {
            &&& payload_json@ == object@
            &&& files@.len() == 2
            &&& files@[0].field@ == "files[0]"@
            &&& files@[0].file_name@ == attachments.png_name@
            &&& files@[0].media_type@ == "image/png"@
            &&& files@[0].bytes@ == attachments.png@
            &&& files@[1].field@ == "files[1]"@
            &&& files@[1].file_name@ == attachments.text_name@
            &&& files@[1].media_type@ == "text/plain; charset=utf-8"@
            &&& files@[1].bytes@ == attachments.text@
        }),
{
}

/// A request succeeds with a status code from 200 to 299, and with no other.
pub proof fn law_success_codes(code: u16, answer: bool)
    requires
        call_ensures(is_success, (code,), answer),
    ensures
        answer <==> 200 <= code <= 299,
{
}

/// A request that did not succeed tells its status, and the answer as far as its 500th character.
pub proof fn law_failed_requests_tell_the_answer(
    code: u16,
    status: &str,
    body: &str,
    checked: Result<(), String>,
    start: Seq<char>,
    rest: Seq<char>,
)
    requires
        call_ensures(check_response, (code, status, body), checked),
        body@ == start + rest,
        start.len() == 500 || (start.len() < 500 && rest.len() == 0),
    ensures
        checked is Ok <==> 200 <= code <= 299,
        checked matches Err(error) ==> error@ == "Discord webhook returned HTTP "@ + status@ + ": "@
            + start,
{
    if rest.len() == 0 {
        assert(body@ =~= start);
    }
    assert(excerpt(body@) =~= start);
}

/// What is told of a request that could not be made.
pub proof fn law_failed_requests_are_told(request: WebhookRequest, said: String)
    requires
        call_ensures(WebhookRequest::failure_context, (&request,), said),
    ensures
        request is Json ==> said@ == "Discord webhook request failed"@,
        request is Form ==> said@ == "Discord webhook request with attachments failed"@,
{
}

} // verus!
