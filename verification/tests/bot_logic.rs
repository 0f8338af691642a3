use roboclic::adminstore::AdminStore;
use roboclic::adminstore::authenticate;
use roboclic::authstore::AuthStore;
use roboclic::command::AccessLevel;
use roboclic::command::Command;
use roboclic::config::config;
use roboclic::dialogue::DialogueStore;
use roboclic::dialogue::PollState;
use roboclic::dialogue::WorkflowError;
use roboclic::dialogue::handle_quiz_start;
use roboclic::dialogue::handle_quote_received;
use roboclic::dialogue::handle_target_selected;
use roboclic::gate::GateOutcome;
use roboclic::gate::StoreError;
use roboclic::gate::admit_command;
use roboclic::gate::is_command_authorized;
use roboclic::gate::is_sender_admin;
use roboclic::messages::bullet_list;
use roboclic::messages::bureau_poll_options;
use roboclic::messages::chunk_rows;
use roboclic::messages::quiz_question;
use roboclic::quiz::ComposeError;
use roboclic::quiz::compose_quiz;
use roboclic::quiz::compose_quiz_random;
use roboclic::roster::RosterStore;

fn strings(names: &[&str]) -> Vec<String> {
    names.iter().map(|n| n.to_string()).collect()
}

#[test]
fn grant_then_authorized() {
    let mut store = AuthStore::new();
    store.grant(&"chat1".to_string(), &"poll".to_string());
    assert!(store.is_authorized(&"chat1".to_string(), &"poll".to_string()));
    assert!(!store.is_authorized(&"chat2".to_string(), &"poll".to_string()));
}

#[test]
fn grant_and_revoke_are_idempotent() {
    let mut store = AuthStore::new();
    let chat = "chat1".to_string();
    let key = "poll".to_string();
    store.grant(&chat, &key);
    store.grant(&chat, &key);
    assert!(store.is_authorized(&chat, &key));
    assert_eq!(store.commands_for_chat(&chat).len(), 1);
    store.revoke(&chat, &key);
    assert!(!store.is_authorized(&chat, &key));
    store.revoke(&chat, &key);
    assert!(!store.is_authorized(&chat, &key));
    assert_eq!(store.commands_for_chat(&chat).len(), 0);
}

#[test]
fn commands_for_chat_lists_only_that_chat() {
    let mut store = AuthStore::new();
    store.grant(&"chat1".to_string(), &"poll".to_string());
    store.grant(&"chat1".to_string(), &"stats".to_string());
    store.grant(&"chat2".to_string(), &"bureau".to_string());
    let mut keys = store.commands_for_chat(&"chat1".to_string());
    keys.sort();
    assert_eq!(keys, strings(&["poll", "stats"]));
    assert_eq!(store.commands_for_chat(&"chat3".to_string()).len(), 0);
}

#[test]
fn admin_store_flow() {
    let mut store = AdminStore::new();
    let u1 = "u1".to_string();
    let r = is_sender_admin(Some(&u1), Ok(&store));
    assert!(!r.allowed);
    assert!(!r.store_failure_logged);
    store.insert_admin(&u1, &"Alice".to_string());
    let r = is_sender_admin(Some(&u1), Ok(&store));
    assert!(r.allowed);
}

#[test]
fn gate_fails_closed_on_store_error() {
    let r: GateOutcome = is_command_authorized(
        Err(StoreError::Unavailable),
        &"chat1".to_string(),
        &"poll".to_string(),
    );
    assert!(!r.allowed);
    assert!(r.store_failure_logged);

    let u1 = "u1".to_string();
    let r = is_sender_admin(Some(&u1), Err(StoreError::Unavailable));
    assert!(!r.allowed);
    assert!(r.store_failure_logged);
}

#[test]
fn anonymous_sender_is_denied_without_store_access() {
    let r = is_sender_admin(None, Err(StoreError::Unavailable));
    assert!(!r.allowed);
    assert!(!r.store_failure_logged);
}

#[test]
fn admit_command_by_access_level() {
    let chat = "chat1".to_string();
    let auth = AuthStore::new();
    let admins = AdminStore::new();

    // public commands pass even with unreachable stores
    assert!(admit_command(
        &Command::Help,
        &chat,
        None,
        Err(StoreError::Unavailable),
        Err(StoreError::Unavailable),
    ));

    // authorization-gated commands need a row for the command key
    assert!(!admit_command(&Command::Poll, &chat, None, Ok(&auth), Ok(&admins)));
    let mut auth = auth;
    auth.grant(&chat, &"poll".to_string());
    assert!(admit_command(&Command::Poll, &chat, None, Ok(&auth), Ok(&admins)));
    assert!(!admit_command(&Command::Bureau, &chat, None, Ok(&auth), Ok(&admins)));

    // admin commands need a registered sender identity
    let sender = "u1".to_string();
    assert!(!admit_command(&Command::AdminList, &chat, Some(&sender), Ok(&auth), Ok(&admins)));
    let mut admins = admins;
    admins.insert_admin(&sender, &"Alice".to_string());
    assert!(admit_command(&Command::AdminList, &chat, Some(&sender), Ok(&auth), Ok(&admins)));
    assert!(!admit_command(&Command::AdminList, &chat, None, Ok(&auth), Ok(&admins)));
}

#[test]
fn command_keys_and_levels() {
    assert_eq!(Command::Help.shortand(), "help");
    assert_eq!(Command::Bureau.shortand(), "bureau");
    assert_eq!(Command::Poll.shortand(), "poll");
    assert_eq!(Command::Authenticate("t".into(), "n".into()).shortand(), "auth");
    assert_eq!(Command::AdminList.shortand(), "adminlist");
    assert_eq!(Command::AdminRemove("n".into()).shortand(), "adminremove");
    assert_eq!(Command::Authorize("c".into()).shortand(), "authorize");
    assert_eq!(Command::Unauthorize("c".into()).shortand(), "unauthorize");
    assert_eq!(Command::Authorizations.shortand(), "authorizations");
    assert_eq!(Command::Stats.shortand(), "stats");
    assert_eq!(Command::CommitteeAdd("a b".into()).shortand(), "comitteeadd");
    assert_eq!(Command::CommitteeRemove("a".into()).shortand(), "comitteeremove");

    assert_eq!(Command::Help.access_level(), AccessLevel::Public);
    assert_eq!(Command::Authenticate("t".into(), "n".into()).access_level(), AccessLevel::Public);
    assert_eq!(Command::Poll.access_level(), AccessLevel::Authorized);
    assert_eq!(Command::Stats.access_level(), AccessLevel::Authorized);
    assert_eq!(Command::CommitteeAdd("a".into()).access_level(), AccessLevel::Admin);
}

#[test]
fn authenticate_checks_token() {
    let mut store = AdminStore::new();
    let admin_token = "le-bon-token".to_string();
    let id = "chat9".to_string();
    let name = "Alice".to_string();
    assert!(!authenticate(&mut store, &admin_token, &"wrong".to_string(), &id, &name));
    assert!(!store.is_admin(&id));
    assert!(authenticate(&mut store, &admin_token, &admin_token.clone(), &id, &name));
    assert!(store.is_admin(&id));
}

#[test]
fn admin_remove_by_name() {
    let mut store = AdminStore::new();
    store.insert_admin(&"u1".to_string(), &"Alice".to_string());
    store.insert_admin(&"u2".to_string(), &"Alice".to_string());
    store.insert_admin(&"u3".to_string(), &"Bob".to_string());
    assert!(!store.remove_by_name(&"Carol".to_string()));
    assert!(store.remove_by_name(&"Alice".to_string()));
    assert!(!store.is_admin(&"u1".to_string()));
    assert!(!store.is_admin(&"u2".to_string()));
    assert!(store.is_admin(&"u3".to_string()));
    assert_eq!(store.names(), strings(&["Bob"]));
}

#[test]
fn roster_add_increment_remove() {
    let mut roster = RosterStore::new();
    roster.add_members(&strings(&["A", "B", "C"]));
    assert_eq!(roster.names(), strings(&["A", "B", "C"]));
    assert!(roster.increment_quiz_count(&"B".to_string()));
    assert!(!roster.increment_quiz_count(&"Z".to_string()));
    let stats = roster.stats();
    assert_eq!(stats[0], ("A".to_string(), 0));
    assert_eq!(stats[1], ("B".to_string(), 1));
    assert_eq!(stats[2], ("C".to_string(), 0));
    roster.remove_members(&strings(&["B"]));
    assert_eq!(roster.names(), strings(&["A", "C"]));
}

#[test]
fn compose_quiz_with_fixed_slot() {
    let roster = strings(&["A", "B"]);
    let q = compose_quiz(&roster, &"A".to_string(), 0).unwrap();
    assert_eq!(q.correct_index, 0);
    assert_eq!(q.options, strings(&["A", "B"]));
    let q = compose_quiz(&roster, &"A".to_string(), 1).unwrap();
    assert_eq!(q.correct_index, 1);
    assert_eq!(q.options, strings(&["B", "A"]));
}

#[test]
fn compose_quiz_rejects_bad_inputs() {
    let roster = strings(&["A", "B"]);
    assert_eq!(
        compose_quiz(&roster, &"Z".to_string(), 0).unwrap_err(),
        ComposeError::TargetMissing
    );
    assert_eq!(
        compose_quiz(&roster, &"A".to_string(), 5).unwrap_err(),
        ComposeError::RosterTooSmall
    );
}

#[test]
fn quiz_scenario_twelve_members() {
    let roster = strings(&["A", "B", "C", "D", "E", "F", "G", "H", "I", "J", "K", "L"]);
    let target = "F".to_string();
    let q = compose_quiz_random(&roster, &target).unwrap();
    assert_eq!(q.options.len(), 10);
    assert!(q.correct_index < 9);
    assert_eq!(q.options[q.correct_index], "F");
    let mut seen: Vec<&String> = Vec::new();
    for o in q.options.iter() {
        assert!(roster.contains(o));
        assert!(!seen.contains(&o));
        seen.push(o);
    }
    assert_eq!(q.options.iter().filter(|o| **o == "F").count(), 1);
}

#[test]
fn dialogue_full_flow() {
    let mut sessions = DialogueStore::new();
    let mut roster = RosterStore::new();
    roster.add_members(&strings(&[
        "A", "B", "C", "D", "E", "F", "G", "H", "I", "J", "K", "L",
    ]));
    let chat = "chat1".to_string();
    assert!(matches!(sessions.get(&chat), PollState::Start));

    handle_quiz_start(&mut sessions, &chat, 11);
    assert!(matches!(sessions.get(&chat), PollState::ChooseTarget { message_id: 11 }));

    let retract = handle_target_selected(&mut sessions, &chat, Some("F".to_string()), 22);
    assert_eq!(retract, Some(11));
    match sessions.get(&chat) {
        PollState::SetQuote { message_id, target } => {
            assert_eq!(message_id, 22);
            assert_eq!(target, "F");
        }
        _ => panic!("expected SetQuote"),
    }

    let outcome = handle_quote_received(&mut sessions, &mut roster, &chat).unwrap();
    assert_eq!(outcome.prompt_message_id, 22);
    assert_eq!(outcome.quiz.options[outcome.quiz.correct_index], "F");
    assert!(matches!(sessions.get(&chat), PollState::Start));
    for (name, count) in roster.stats().iter() {
        if name == "F" {
            assert_eq!(*count, 1);
        } else {
            assert_eq!(*count, 0);
        }
    }
}

#[test]
fn dialogue_ignores_out_of_turn_events() {
    let mut sessions = DialogueStore::new();
    let mut roster = RosterStore::new();
    roster.add_members(&strings(&["A", "B"]));
    let chat = "chat1".to_string();
    assert_eq!(handle_target_selected(&mut sessions, &chat, Some("A".to_string()), 7), None);
    assert!(matches!(sessions.get(&chat), PollState::Start));
    assert_eq!(
        handle_quote_received(&mut sessions, &mut roster, &chat).unwrap_err(),
        WorkflowError::UnexpectedEvent
    );
}

#[test]
fn dialogue_resets_after_compose_failure() {
    let mut sessions = DialogueStore::new();
    let mut roster = RosterStore::new();
    roster.add_members(&strings(&[
        "A", "B", "C", "D", "E", "F", "G", "H", "I", "J", "K", "L",
    ]));
    let chat = "chat1".to_string();
    handle_quiz_start(&mut sessions, &chat, 1);
    handle_target_selected(&mut sessions, &chat, Some("Zoe".to_string()), 2);
    assert_eq!(
        handle_quote_received(&mut sessions, &mut roster, &chat).unwrap_err(),
        WorkflowError::Compose(ComposeError::TargetMissing)
    );
    assert!(matches!(sessions.get(&chat), PollState::Start));
    for (_, count) in roster.stats().iter() {
        assert_eq!(*count, 0);
    }
}

#[test]
fn dialogue_chats_are_independent() {
    let mut sessions = DialogueStore::new();
    let chat1 = "chat1".to_string();
    let chat2 = "chat2".to_string();
    handle_quiz_start(&mut sessions, &chat1, 5);
    assert!(matches!(sessions.get(&chat2), PollState::Start));
    handle_quiz_start(&mut sessions, &chat2, 6);
    sessions.reset(&chat1);
    assert!(matches!(sessions.get(&chat1), PollState::Start));
    assert!(matches!(sessions.get(&chat2), PollState::ChooseTarget { message_id: 6 }));
}

#[test]
fn bureau_poll_has_the_six_fixed_options() {
    let options = bureau_poll_options();
    assert_eq!(
        options,
        strings(&[
            "Je suis actuellement au bureau",
            "Je suis à proximité du bureau",
            "Je compte m'y rendre bientôt",
            "J'y suis pas",
            "Je suis à Satellite",
            "Je suis pas en Suisse",
        ])
    );
}

#[test]
fn chunk_rows_layout() {
    let items = strings(&["a", "b", "c", "d", "e", "f", "g"]);
    let rows = chunk_rows(&items, 3);
    assert_eq!(rows.len(), 3);
    assert_eq!(rows[0], strings(&["a", "b", "c"]));
    assert_eq!(rows[1], strings(&["d", "e", "f"]));
    assert_eq!(rows[2], strings(&["g"]));
    assert_eq!(chunk_rows(&strings(&[]), 3).len(), 0);
}

#[test]
fn quiz_question_wraps_the_quote() {
    assert_eq!(quiz_question("abc"), "Qui a dit: \"abc\" ?");
}

#[test]
fn bullet_list_renders_lines() {
    assert_eq!(bullet_list(&strings(&[])), "");
    assert_eq!(bullet_list(&strings(&["Alice"])), " - Alice");
    assert_eq!(bullet_list(&strings(&["Alice", "Bob"])), " - Alice\n - Bob");
}

#[test]
fn config_carries_the_values() {
    let c = config(
        "bot".to_string(),
        "/data".to_string(),
        Some("sqlite://db".to_string()),
        "tok".to_string(),
        "https://directus".to_string(),
        "dtok".to_string(),
    );
    assert_eq!(c.bot_token, "bot");
    assert_eq!(c.data_dir, "/data");
    assert_eq!(c.database_url.as_deref(), Some("sqlite://db"));
    assert_eq!(c.admin_token, "tok");
    assert_eq!(c.directus_url, "https://directus");
    assert_eq!(c.directus_token, "dtok");
}
