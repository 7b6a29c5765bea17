//! What the bot answers: to commands, to the choice of a model, and,
//! step by step, to a prompt for the language model.
//!
//! The functions here decide; the caller sends the replies, runs the model
//! and reports back what happened.

use vstd::prelude::*;
use crate::api::{check_gen_qr, gen_qr, gen_qr_canvas, spec_gen_qr};
use crate::commands::{AdminCommand, Command};
use crate::qr::QrCatError;
use crate::text::{decimal, push_decimal};

verus! {

/// The chat of the bot's administrator.
pub const ADMIN_CHAT: i64 = 7598600022;

/// A message for the bot to send.
pub enum Reply {
    /// A text message; `markdown` asks for Markdown formatting.
    Text { chat: i64, text: String, markdown: bool },
    /// A text message with one button that answers `data` when pressed.
    Choice { chat: i64, text: String, label: String, data: String },
    /// A picture, as a PNG file.
    Photo { chat: i64, png: Vec<u8> },
}

/// `r` is the text `text` for `chat`.
pub open spec fn is_text(r: Reply, chat: i64, text: Seq<char>, markdown: bool) -> bool {
    r matches Reply::Text { chat: c, text: t, markdown: m } && c == chat && t@ == text && m == markdown
}

/// `r` is the text `text` for `chat` with one button `label` answering
/// `data`.
pub open spec fn is_choice(r: Reply, chat: i64, text: Seq<char>, label: Seq<char>, data: Seq<char>) -> bool {
    r matches Reply::Choice { chat: c, text: t, label: l, data: d } && c == chat && t@ == text && l@ == label && d@
        == data
}

/// `r` is the picture `png` for `chat`.
pub open spec fn is_photo(r: Reply, chat: i64, png: Seq<u8>) -> bool {
    r matches Reply::Photo { chat: c, png: p } && c == chat && p@ == png
}

/// The report to the administrator of a whisper from `chat` to `to`.
pub open spec fn whisper_report(chat: i64, to: i64, msg: Seq<char>) -> Seq<char> {
    decimal(chat as int) + " - "@ + decimal(to as int) + " - "@ + msg
}

/// The replies to a whisper from `chat`: the administrator's whispers are
/// delivered to `to`; every whisper is reported to the administrator.
pub open spec fn whisper_replies(v: Seq<Reply>, chat: i64, to: i64, msg: Seq<char>) -> bool {
    if chat == ADMIN_CHAT {
        v.len() == 2 && is_text(v[0], to, msg, false) && is_text(v[1], ADMIN_CHAT, whisper_report(chat, to, msg), false)
    } else {
        v.len() == 1 && is_text(v[0], ADMIN_CHAT, whisper_report(chat, to, msg), false)
    }
}

/// Law: the reply checks say exactly which reply they accept.
pub proof fn law_reply_checks(r: Reply, a: Action, chat: i64, text: Seq<char>, label: Seq<char>, data: Seq<char>, png: Seq<u8>, markdown: bool)
    ensures
        is_text(r, chat, text, markdown) <==> (r matches Reply::Text { chat: c, text: t, markdown: m } && c == chat
            && t@ == text && m == markdown),
        is_choice(r, chat, text, label, data) <==> (r matches Reply::Choice { chat: c, text: t, label: l, data: d }
            && c == chat && t@ == text && l@ == label && d@ == data),
        is_photo(r, chat, png) <==> (r matches Reply::Photo { chat: c, png: p } && c == chat && p@ == png),
        sends(a, chat, text, markdown) <==> (a matches Action::Send { reply } && (reply matches Reply::Text {
            chat: c,
            text: t,
            markdown: m,
        } && c == chat && t@ == text && m == markdown)),
        generates(a, text) <==> (a matches Action::Generate { prompt } && prompt@ == text),
{
}

/// Law: every whisper is reported to the administrator as "chat - to -
/// message" (the chat ids in decimal), as the last reply; only the
/// administrator's whispers are also delivered, first, to `to`.
pub proof fn law_whisper(v: Seq<Reply>, chat: i64, to: i64, msg: Seq<char>)
    requires
        whisper_replies(v, chat, to, msg),
    ensures
        v.len() >= 1,
        v.last() matches Reply::Text { chat: c, text: t, markdown: m } && c == ADMIN_CHAT && t@ == decimal(
            chat as int,
        ) + " - "@ + decimal(to as int) + " - "@ + msg && !m,
        chat == ADMIN_CHAT ==> v.len() == 2 && (v[0] matches Reply::Text { chat: c, text: t, markdown: m } && c == to
            && t@ == msg && !m),
        chat != ADMIN_CHAT ==> v.len() == 1,
{
}

fn text_reply(chat: i64, text: &str, markdown: bool) -> (r: Reply)
    ensures
        is_text(r, chat, text@, markdown),
{
    Reply::Text { chat, text: text.to_string(), markdown }
}

/// The replies to `cmd` sent in `chat_id`. A QR code must be one that can
/// be made (`try_invoke` tells); the PNG encoder's error is the only error
/// left.
pub fn invoke(chat_id: i64, cmd: Command) -> (r: Result<Vec<Reply>, QrCatError>)
    requires
        cmd matches Command::Qr { data, version, style } ==> gen_qr_canvas(data@, version, style@) is Ok,
    ensures
        match cmd {
            Command::Start => r matches Ok(v) && v@.len() == 1 && is_text(
                v@[0],
                chat_id,
                "Спрашивай что угодно! Я умнее ЧатГПТ"@,
                false,
            ),
            Command::Help => r matches Ok(v) && v@.len() == 1 && is_text(v@[0], chat_id, "Никто тебе не поможет..."@, false),
            Command::Select => r matches Ok(v) && v@.len() == 1 && is_choice(
                v@[0],
                chat_id,
                "Выберите модель:"@,
                "v1 default"@,
                "llama3.1:8b"@,
            ),
            Command::Qr { data, version, style } => match spec_gen_qr(data@, version, style@) {
                Ok(png) => r matches Ok(v) && v@.len() == 1 && is_photo(v@[0], chat_id, png),
                Err(e) => r matches Err(f) && f == e,
            },
            Command::Whisper { to, msg } => r matches Ok(v) && whisper_replies(v@, chat_id, to, msg@),
        },
{
    let mut replies: Vec<Reply> = Vec::new();
    match cmd {
        Command::Select => {
            replies.push(
                Reply::Choice {
                    chat: chat_id,
                    text: "Выберите модель:".to_string(),
                    label: "v1 default".to_string(),
                    data: "llama3.1:8b".to_string(),
                },
            );
        },
        Command::Qr { data, version, style } => {
            let buffer = match gen_qr(data.as_str(), version, style.as_str()) {
                Ok(buffer) => buffer,
                Err(e) => return Err(e),
            };
            replies.push(Reply::Photo { chat: chat_id, png: buffer });
        },
        Command::Whisper { to, msg } => {
            if chat_id == ADMIN_CHAT {
                replies.push(Reply::Text { chat: to, text: msg.clone(), markdown: false });
            }
            let mut report = String::new();
            push_decimal(&mut report, chat_id);
            report.append(" - ");
            push_decimal(&mut report, to);
            report.append(" - ");
            report.append(msg.as_str());
            replies.push(Reply::Text { chat: ADMIN_CHAT, text: report, markdown: false });
        },
        Command::Help => {
            replies.push(text_reply(chat_id, "Никто тебе не поможет...", false));
        },
        Command::Start => {
            replies.push(text_reply(chat_id, "Спрашивай что угодно! Я умнее ЧатГПТ", false));
        },
    }
    Ok(replies)
}

/// `invoke` for any command: a QR code that cannot be made gives the
/// error instead of replies.
pub fn try_invoke(chat_id: i64, cmd: Command) -> (r: Result<Vec<Reply>, QrCatError>)
    ensures
        match cmd {
            Command::Start => r matches Ok(v) && v@.len() == 1 && is_text(
                v@[0],
                chat_id,
                "Спрашивай что угодно! Я умнее ЧатГПТ"@,
                false,
            ),
            Command::Help => r matches Ok(v) && v@.len() == 1 && is_text(v@[0], chat_id, "Никто тебе не поможет..."@, false),
            Command::Select => r matches Ok(v) && v@.len() == 1 && is_choice(
                v@[0],
                chat_id,
                "Выберите модель:"@,
                "v1 default"@,
                "llama3.1:8b"@,
            ),
            Command::Qr { data, version, style } => match spec_gen_qr(data@, version, style@) {
                Ok(png) => r matches Ok(v) && v@.len() == 1 && is_photo(v@[0], chat_id, png),
                Err(e) => r matches Err(f) && f == e,
            },
            Command::Whisper { to, msg } => r matches Ok(v) && whisper_replies(v@, chat_id, to, msg@),
        },
{
    match &cmd {
        Command::Qr { data, version, style } => {
            match check_gen_qr(data.as_str(), *version, style.as_str()) {
                Err(e) => return Err(e),
                Ok(()) => {},
            }
        },
        _ => {},
    }
    invoke(chat_id, cmd)
}

/// The replies to an administrator's command sent in `chat_id`: nothing
/// unless the chat is the administrator's.
pub fn admin_invoke(chat_id: i64, cmd: AdminCommand) -> (r: Vec<Reply>)
    ensures
        match cmd {
            AdminCommand::Whisper { to, msg } => if chat_id == ADMIN_CHAT {
                r@.len() == 1 && is_text(r@[0], to, msg@, false)
            } else {
                r@.len() == 0
            },
        },
{
    let mut replies: Vec<Reply> = Vec::new();
    if chat_id == ADMIN_CHAT {
        match cmd {
            AdminCommand::Whisper { to, msg } => {
                replies.push(Reply::Text { chat: to, text: msg, markdown: false });
            },
        }
    }
    replies
}

/// A press of a model button: the button's `data`, if any, becomes the
/// selected model, and the chat of the message with the button, if known,
/// is told so.
pub fn callback_handler(selected_model: &mut String, data: Option<String>, chat: Option<i64>) -> (r: Option<Reply>)
    ensures
        match data {
            None => *final(selected_model) == *old(selected_model) && r is None,
            Some(d) => final(selected_model)@ == d@ && match chat {
                None => r is None,
                Some(c) => r matches Some(x) && is_text(x, c, "Вы выбрали модель: "@ + d@, false),
            },
        },
{
    match data {
        Some(data) => {
            *selected_model = data.clone();
            match chat {
                Some(c) => {
                    let mut text = String::new();
                    text.append("Вы выбрали модель: ");
                    text.append(data.as_str());
                    Some(Reply::Text { chat: c, text, markdown: false })
                },
                None => None,
            }
        },
        None => None,
    }
}

/// Where the answer to a prompt stands.
pub enum Stage {
    /// Nothing has been sent yet.
    Start,
    /// The "processing" notice is being sent.
    Noticing,
    /// The administrator is being told of the prompt; `notice` is the
    /// processing notice.
    Reporting { notice: i32 },
    /// The user is being recorded.
    Saving { notice: i32 },
    /// The model is working on the prompt.
    Generating { notice: i32 },
    /// The processing notice is being deleted; `answer` is the model's
    /// answer, if it gave one.
    Deleting { notice: i32, answer: Option<String> },
    /// The answer has been sent.
    Done,
}

/// What happened to the last action.
pub enum Event {
    /// The answer to a prompt is to begin.
    Begin,
    /// A message was sent and got the id `message`.
    Sent { message: i32 },
    /// The user was recorded.
    Saved,
    /// The model answered, or (`None`) failed.
    Answered { answer: Option<String> },
    /// The processing notice was deleted.
    Deleted,
}

/// What to do next.
pub enum Action {
    /// Send a message.
    Send { reply: Reply },
    /// Record the user `id` under `name`.
    SaveUser { id: i64, name: String },
    /// Ask the model about `prompt`.
    Generate { prompt: String },
    /// Delete the message `message` in `chat`.
    Delete { chat: i64, message: i32 },
    /// Nothing more to do.
    Finish,
}

/// The answer to one prompt `prompt` sent in `chat` by a user with the
/// given user name, if they have one.
pub struct MessageFlow {
    pub chat: i64,
    pub prompt: String,
    pub username: Option<String>,
    pub stage: Stage,
}

/// The notice sent while the model works.
pub open spec fn processing_notice() -> Seq<char> {
    "В обработке..."@
}

/// The reply when the model failed.
pub open spec fn failure_notice() -> Seq<char> {
    "Сорри, я сломался :(( Попробуйте повторить запрос."@
}

/// The report to the administrator of a prompt: user name, prompt and
/// chat.
pub open spec fn prompt_report(username: Seq<char>, prompt: Seq<char>, chat: i64) -> Seq<char> {
    username + " - "@ + prompt + " ("@ + decimal(chat as int) + ")"@
}

/// `a` sends the text `text` to `chat`.
pub open spec fn sends(a: Action, chat: i64, text: Seq<char>, markdown: bool) -> bool {
    a matches Action::Send { reply } && is_text(reply, chat, text, markdown)
}

/// `a` asks the model about `prompt`.
pub open spec fn generates(a: Action, prompt: Seq<char>) -> bool {
    a matches Action::Generate { prompt: p } && p@ == prompt
}

/// The step from stage `stage` on event `event` leads to stage `next`
/// with action `a`: notice, report (for users with a name), record the
/// user, ask the model, delete the notice, answer. An event that does not
/// fit the stage finishes without a change.
pub open spec fn flow_step(flow: MessageFlow, event: Event, next: Stage, a: Action) -> bool {
    match (flow.stage, event) {
        (Stage::Start, Event::Begin) => next == Stage::Noticing && sends(a, flow.chat, processing_notice(), false),
        (Stage::Noticing, Event::Sent { message }) => match flow.username {
            Some(u) => next == (Stage::Reporting { notice: message }) && sends(
                a,
                ADMIN_CHAT,
                prompt_report(u@, flow.prompt@, flow.chat),
                true,
            ),
            None => next == (Stage::Generating { notice: message }) && generates(a, flow.prompt@),
        },
        (Stage::Reporting { notice }, Event::Sent { .. }) => match flow.username {
            Some(u) => next == (Stage::Saving { notice }) && (a matches Action::SaveUser { id, name } && id == flow.chat
                && name@ == u@),
            None => next == (Stage::Generating { notice }) && generates(a, flow.prompt@),
        },
        (Stage::Saving { notice }, Event::Saved) => next == (Stage::Generating { notice }) && generates(
            a,
            flow.prompt@,
        ),
        (Stage::Generating { notice }, Event::Answered { answer }) => next == (Stage::Deleting { notice, answer })
            && a == (Action::Delete { chat: flow.chat, message: notice }),
        (Stage::Deleting { notice, answer }, Event::Deleted) => next == Stage::Done && match answer {
            Some(t) => sends(a, flow.chat, t@, true),
            None => sends(a, flow.chat, failure_notice(), false),
        },
        _ => next == flow.stage && a == Action::Finish,
    }
}

/// Law: once the model has answered, its answer is sent to the chat the
/// prompt came from, with Markdown, whether or not the user has a user
/// name.
pub proof fn law_answer_reaches_every_user(flow: MessageFlow, next: Stage, a: Action)
    requires
        flow_step(flow, Event::Deleted, next, a),
    ensures
        match flow.stage {
            Stage::Deleting { answer: Some(t), .. } => a matches Action::Send { reply } && (reply matches Reply::Text {
                chat,
                text,
                markdown,
            } && chat == flow.chat && text@ == t@ && markdown),
            _ => true,
        },
{
}

/// Law: when the model failed, the user is told so, without Markdown.
pub proof fn law_failure_is_reported(flow: MessageFlow, next: Stage, a: Action)
    requires
        flow_step(flow, Event::Deleted, next, a),
    ensures
        match flow.stage {
            Stage::Deleting { answer: None, .. } => a matches Action::Send { reply } && (reply matches Reply::Text {
                chat,
                text,
                markdown,
            } && chat == flow.chat && text@ == "Сорри, я сломался :(( Попробуйте повторить запрос."@ && !markdown),
            _ => true,
        },
{
}

/// Law: after the model's reply, whatever it is, the processing notice
/// (the message whose id the flow kept) is deleted from the prompt's
/// chat.
pub proof fn law_notice_is_deleted(flow: MessageFlow, answer: Option<String>, next: Stage, a: Action)
    requires
        flow_step(flow, Event::Answered { answer }, next, a),
    ensures
        match flow.stage {
            Stage::Generating { notice } => a == (Action::Delete { chat: flow.chat, message: notice }),
            _ => true,
        },
{
}

/// Law: whenever the flow asks the model, it asks about the user's prompt.
pub proof fn law_model_gets_the_prompt(flow: MessageFlow, event: Event, next: Stage, a: Action)
    requires
        flow_step(flow, event, next, a),
    ensures
        a matches Action::Generate { prompt } ==> prompt@ == flow.prompt@,
{
}

/// Law: the first step of a flow tells the prompt's chat that the prompt
/// is being processed, and the answer to the prompt always comes after
/// the model was asked: a send to the prompt's chat other than the notice
/// happens only from the deleting stage.
pub proof fn law_flow_order(flow: MessageFlow, event: Event, next: Stage, a: Action)
    requires
        flow_step(flow, event, next, a),
    ensures
        flow.stage == Stage::Start && event == Event::Begin ==> (a matches Action::Send { reply } && (
        reply matches Reply::Text { chat, text, markdown } && chat == flow.chat && text@ == "В обработке..."@
            && !markdown)),
        next == Stage::Done && flow.stage != Stage::Done ==> flow.stage is Deleting,
{
}

impl MessageFlow {
    /// The answer to `prompt` from `chat`, not yet begun.
    pub fn new(chat: i64, prompt: String, username: Option<String>) -> (r: Self)
        ensures
            r.chat == chat,
            r.prompt == prompt,
            r.username == username,
            r.stage == Stage::Start,
    {
        MessageFlow { chat, prompt, username, stage: Stage::Start }
    }

    /// The next stage and action after `event`.
    pub fn step(&mut self, event: Event) -> (a: Action)
        ensures
            final(self).chat == old(self).chat,
            final(self).prompt == old(self).prompt,
            final(self).username == old(self).username,
            flow_step(*old(self), event, final(self).stage, a),
    {
        match (&self.stage, event) {
            (Stage::Start, Event::Begin) => {
                self.stage = Stage::Noticing;
                Action::Send { reply: text_reply(self.chat, "В обработке...", false) }
            },
            (Stage::Noticing, Event::Sent { message }) => match &self.username {
                Some(u) => {
                    let mut report = u.clone();
                    report.append(" - ");
                    report.append(self.prompt.as_str());
                    report.append(" (");
                    push_decimal(&mut report, self.chat);
                    report.append(")");
                    self.stage = Stage::Reporting { notice: message };
                    Action::Send { reply: Reply::Text { chat: ADMIN_CHAT, text: report, markdown: true } }
                },
                None => {
                    self.stage = Stage::Generating { notice: message };
                    Action::Generate { prompt: self.prompt.clone() }
                },
            },
            (Stage::Reporting { notice }, Event::Sent { .. }) => {
                let notice = *notice;
                match &self.username {
                    Some(u) => {
                        self.stage = Stage::Saving { notice };
                        Action::SaveUser { id: self.chat, name: u.clone() }
                    },
                    None => {
                        self.stage = Stage::Generating { notice };
                        Action::Generate { prompt: self.prompt.clone() }
                    },
                }
            },
            (Stage::Saving { notice }, Event::Saved) => {
                let notice = *notice;
                self.stage = Stage::Generating { notice };
                Action::Generate { prompt: self.prompt.clone() }
            },
            (Stage::Generating { notice }, Event::Answered { answer }) => {
                let notice = *notice;
                self.stage = Stage::Deleting { notice, answer };
                Action::Delete { chat: self.chat, message: notice }
            },
            (Stage::Deleting { notice, answer }, Event::Deleted) => {
                let reply = match answer {
                    Some(t) => Reply::Text { chat: self.chat, text: t.clone(), markdown: true },
                    None => text_reply(self.chat, "Сорри, я сломался :(( Попробуйте повторить запрос.", false),
                };
                self.stage = Stage::Done;
                Action::Send { reply }
            },
            _ => Action::Finish,
        }
    }
}

} // verus!
