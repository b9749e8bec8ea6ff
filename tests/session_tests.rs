use tuta_poll::http::{get_retry_duration, response_action, Method, ResponseAction};
use tuta_poll::mailbox::{inbox_lists, mail_membership};
use tuta_poll::types::{Folder, GroupType, MailFolderType, Membership};
use tuta_poll::updates::entity_update_payload;

#[test]
fn rate_limits_are_retried_after_the_given_delay() {
    assert_eq!(response_action(200, None), ResponseAction::Accept);
    assert_eq!(response_action(304, Some("9")), ResponseAction::Accept);
    assert_eq!(response_action(429, Some("5")), ResponseAction::Retry { delay_secs: Some(5) });
    assert_eq!(response_action(429, Some("soon")), ResponseAction::Retry { delay_secs: None });
    assert_eq!(response_action(429, None), ResponseAction::Retry { delay_secs: None });
    assert_eq!(response_action(404, Some("5")), ResponseAction::Fail);
    assert_eq!(response_action(500, None), ResponseAction::Fail);
}

#[test]
fn retry_duration_is_decimal_seconds() {
    assert_eq!(get_retry_duration(Some("120")), Some(120));
    assert_eq!(get_retry_duration(Some("18446744073709551615")), Some(u64::MAX));
    assert_eq!(get_retry_duration(Some("18446744073709551616")), None);
    assert_eq!(get_retry_duration(Some("-1")), None);
    assert_eq!(get_retry_duration(None), None);
}

fn folder(kind: MailFolderType, mails: &str) -> Folder {
    Folder {
        folder_type: kind,
        id: ("f".to_string(), mails.to_string()),
        mails: mails.to_string(),
        name: vec![],
        owner_enc_session_key: [0u8; 16],
    }
}

#[test]
fn inboxes_are_the_inbox_folders() {
    let folders = vec![
        folder(MailFolderType::Sent, "sent"),
        folder(MailFolderType::Inbox, "in-1"),
        folder(MailFolderType::Spam, "spam"),
        folder(MailFolderType::Inbox, "in-2"),
    ];
    assert_eq!(inbox_lists(&folders), vec!["in-1".to_string(), "in-2".to_string()]);
    assert!(inbox_lists(&vec![]).is_empty());
}

#[test]
fn mail_membership_is_the_first_mail_group() {
    let m = |t: GroupType| Membership { group: "g".to_string(), group_type: t, sym_enc_g_key: None };
    let ms = vec![m(GroupType::User), m(GroupType::Mail), m(GroupType::Mail)];
    assert_eq!(mail_membership(&ms), Some(1));
    assert_eq!(mail_membership(&vec![m(GroupType::Contact)]), None);
}

#[test]
fn entity_update_frames_carry_a_payload() {
    assert_eq!(entity_update_payload("entityUpdate;{\"a\":1}"), Some("{\"a\":1}".to_string()));
    assert_eq!(entity_update_payload("entityUpdate;a;b"), Some("a;b".to_string()));
    assert_eq!(entity_update_payload("unreadCounterUpdate;{}"), None);
    assert_eq!(entity_update_payload("entityUpdate"), None);
    assert_eq!(entity_update_payload(""), None);
}

#[test]
fn only_authenticated_methods_carry_the_token() {
    assert!(Method::AuthGet.is_authenticated());
    assert!(Method::AuthPut.is_authenticated());
    assert!(!Method::Get.is_authenticated());
    assert!(!Method::Post.is_authenticated());
}

#[test]
fn entity_update_frames_with_long_names_or_unicode() {
    assert_eq!(entity_update_payload("entityUpdate;{\"n\":\"äöü;€\"}"), Some("{\"n\":\"äöü;€\"}".to_string()));
    assert_eq!(entity_update_payload("entityUpdateAndMore;{}"), None);
    assert_eq!(entity_update_payload("éntityUpdate;{}"), None);
    assert_eq!(entity_update_payload("entityUpdate;"), Some(String::new()));
}
