use redrum_bot::commands::{AdminCommand, Command};
use redrum_bot::handler::{
    admin_invoke, callback_handler, invoke, try_invoke, Action, Event, MessageFlow, Reply, Stage, ADMIN_CHAT,
};
use redrum_bot::qr::QrCatError;

fn text(r: &Reply) -> (i64, String, bool) {
    match r {
        Reply::Text { chat, text, markdown } => (*chat, text.clone(), *markdown),
        _ => panic!("not a text reply"),
    }
}

fn sent_text(a: &Action) -> (i64, String, bool) {
    match a {
        Action::Send { reply } => text(reply),
        _ => panic!("not a send"),
    }
}

#[test]
fn invoke_start_and_help() {
    let r = invoke(5, Command::Start).ok().unwrap();
    assert_eq!(r.len(), 1);
    assert_eq!(text(&r[0]), (5, "Спрашивай что угодно! Я умнее ЧатГПТ".to_string(), false));
    let r = invoke(6, Command::Help).ok().unwrap();
    assert_eq!(text(&r[0]), (6, "Никто тебе не поможет...".to_string(), false));
}

#[test]
fn invoke_select_offers_the_model() {
    let r = invoke(9, Command::Select).ok().unwrap();
    assert_eq!(r.len(), 1);
    match &r[0] {
        Reply::Choice { chat, text, label, data } => {
            assert_eq!(*chat, 9);
            assert_eq!(text, "Выберите модель:");
            assert_eq!(label, "v1 default");
            assert_eq!(data, "llama3.1:8b");
        },
        _ => panic!("not a choice"),
    }
}

#[test]
fn invoke_whisper_from_anyone_is_reported() {
    let r = invoke(-12, Command::Whisper { to: 34, msg: "psst".to_string() }).ok().unwrap();
    assert_eq!(r.len(), 1);
    assert_eq!(text(&r[0]), (ADMIN_CHAT, "-12 - 34 - psst".to_string(), false));
}

#[test]
fn invoke_whisper_from_admin_is_delivered() {
    let r = invoke(ADMIN_CHAT, Command::Whisper { to: 34, msg: "hello".to_string() }).ok().unwrap();
    assert_eq!(r.len(), 2);
    assert_eq!(text(&r[0]), (34, "hello".to_string(), false));
    assert_eq!(text(&r[1]), (ADMIN_CHAT, "7598600022 - 34 - hello".to_string(), false));
}

#[test]
fn invoke_qr_sends_photo() {
    let r = invoke(3, Command::Qr { data: "hi".to_string(), version: 1, style: "half".to_string() }).ok().unwrap();
    assert_eq!(r.len(), 1);
    match &r[0] {
        Reply::Photo { chat, png } => {
            assert_eq!(*chat, 3);
            assert_eq!(&png[..4], &[137, 80, 78, 71]);
        },
        _ => panic!("not a photo"),
    }
}

#[test]
fn invoke_qr_error() {
    let r = try_invoke(3, Command::Qr { data: "x".repeat(100), version: 1, style: "default".to_string() });
    assert!(matches!(r, Err(QrCatError::Encoding(_))));
}

#[test]
fn admin_invoke_only_for_admin() {
    let r = admin_invoke(ADMIN_CHAT, AdminCommand::Whisper { to: 1, msg: "m".to_string() });
    assert_eq!(r.len(), 1);
    assert_eq!(text(&r[0]), (1, "m".to_string(), false));
    let r = admin_invoke(2, AdminCommand::Whisper { to: 1, msg: "m".to_string() });
    assert!(r.is_empty());
}

#[test]
fn callback_selects_model() {
    let mut model = "llama3.1:8b".to_string();
    let r = callback_handler(&mut model, Some("other".to_string()), Some(8));
    assert_eq!(model, "other");
    assert_eq!(text(&r.unwrap()), (8, "Вы выбрали модель: other".to_string(), false));
    let r = callback_handler(&mut model, Some("third".to_string()), None);
    assert_eq!(model, "third");
    assert!(r.is_none());
    let r = callback_handler(&mut model, None, Some(8));
    assert_eq!(model, "third");
    assert!(r.is_none());
}

#[test]
fn message_flow_with_username() {
    let mut flow = MessageFlow::new(77, "why?".to_string(), Some("ann".to_string()));
    assert_eq!(sent_text(&flow.step(Event::Begin)), (77, "В обработке...".to_string(), false));
    assert_eq!(sent_text(&flow.step(Event::Sent { message: 501 })), (ADMIN_CHAT, "ann - why? (77)".to_string(), true));
    match flow.step(Event::Sent { message: 502 }) {
        Action::SaveUser { id, name } => {
            assert_eq!(id, 77);
            assert_eq!(name, "ann");
        },
        _ => panic!("expected to save the user"),
    }
    match flow.step(Event::Saved) {
        Action::Generate { prompt } => assert_eq!(prompt, "why?"),
        _ => panic!("expected generation"),
    }
    match flow.step(Event::Answered { answer: Some("because".to_string()) }) {
        Action::Delete { chat, message } => assert_eq!((chat, message), (77, 501)),
        _ => panic!("expected deletion"),
    }
    assert_eq!(sent_text(&flow.step(Event::Deleted)), (77, "because".to_string(), true));
    assert!(matches!(flow.stage, Stage::Done));
    assert!(matches!(flow.step(Event::Begin), Action::Finish));
}

#[test]
fn message_flow_without_username_and_failure() {
    let mut flow = MessageFlow::new(5, "q".to_string(), None);
    flow.step(Event::Begin);
    match flow.step(Event::Sent { message: 9 }) {
        Action::Generate { prompt } => assert_eq!(prompt, "q"),
        _ => panic!("expected generation"),
    }
    assert!(matches!(flow.step(Event::Answered { answer: None }), Action::Delete { chat: 5, message: 9 }));
    assert_eq!(
        sent_text(&flow.step(Event::Deleted)),
        (5, "Сорри, я сломался :(( Попробуйте повторить запрос.".to_string(), false)
    );
}

#[test]
fn message_flow_ignores_events_out_of_turn() {
    let mut flow = MessageFlow::new(5, "q".to_string(), None);
    assert!(matches!(flow.step(Event::Saved), Action::Finish));
    assert!(matches!(flow.stage, Stage::Start));
}

#[test]
fn try_invoke_passes_other_commands_through() {
    let r = try_invoke(5, Command::Help).ok().unwrap();
    assert_eq!(text(&r[0]), (5, "Никто тебе не поможет...".to_string(), false));
    let r = try_invoke(3, Command::Qr { data: "hi".to_string(), version: 1, style: "default".to_string() })
        .ok()
        .unwrap();
    assert!(matches!(r[0], Reply::Photo { chat: 3, .. }));
}
