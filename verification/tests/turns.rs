use flow_api::attachments::{user_content, AttachmentRef};
use flow_api::messages::{ContentPart, MessageContent};
use flow_api::playground::{judge_query, PlaygroundContent, PlaygroundMessage};
use flow_api::profile_changes::{profile_changes, ProfileChange};
use flow_api::profiles::{
    ComparisonOp, FilterLogic, FilterValue, Number, SessionFilter, SessionProfile,
};

fn profile(id: u128, name: &str, threshold: f64) -> SessionProfile {
    SessionProfile {
        id,
        name: name.to_string(),
        logic: FilterLogic::And,
        filters: vec![SessionFilter {
            field: "cost.total".to_string(),
            op: Some(ComparisonOp::Gte),
            value: Some(FilterValue::Number(Number::from_f64_bits(threshold.to_bits()))),
        }],
    }
}

#[test]
fn profile_changes_report_created_deleted_and_updated() {
    let before = vec![profile(1, "kept", 1.0), profile(2, "dropped", 2.0), profile(3, "edited", 3.0)];
    let after = vec![profile(3, "edited", 4.0), profile(1, "kept", 1.0), profile(4, "new", 5.0)];
    let changes = profile_changes(&before, &after);
    assert_eq!(changes.len(), 3);
    match &changes[0] {
        ProfileChange::Created { id, name, filter_count } => {
            assert_eq!(*id, 4u128);
            assert_eq!(name, "new");
            assert_eq!(*filter_count, 1);
        }
        other => panic!("unexpected {:?}", other),
    }
    match &changes[1] {
        ProfileChange::Deleted { id, name } => {
            assert_eq!(*id, 2u128);
            assert_eq!(name, "dropped");
        }
        other => panic!("unexpected {:?}", other),
    }
    match &changes[2] {
        ProfileChange::Updated { id, before_name, after_name, .. } => {
            assert_eq!(*id, 3u128);
            assert_eq!(before_name, "edited");
            assert_eq!(after_name, "edited");
        }
        other => panic!("unexpected {:?}", other),
    }
}

#[test]
fn unchanged_profiles_record_nothing() {
    let before = vec![profile(1, "a", 1.0), profile(2, "b", 2.0)];
    let after = vec![profile(2, "b", 2.0), profile(1, "a", 1.0)];
    assert!(profile_changes(&before, &after).is_empty());
}

#[test]
fn the_last_profile_with_an_id_counts() {
    let before = vec![profile(1, "first", 1.0), profile(1, "second", 1.0)];
    let after = vec![profile(1, "second", 1.0)];
    assert!(profile_changes(&before, &after).is_empty());
    let after = vec![profile(1, "first", 1.0)];
    let changes = profile_changes(&before, &after);
    assert_eq!(changes.len(), 1);
    match &changes[0] {
        ProfileChange::Updated { before_name, after_name, .. } => {
            assert_eq!(before_name, "second");
            assert_eq!(after_name, "first");
        }
        other => panic!("unexpected {:?}", other),
    }
}

fn attachment(id: &str, name: &str, content_type: &str, url: Option<&str>) -> AttachmentRef {
    AttachmentRef {
        id: id.to_string(),
        filename: name.to_string(),
        content_type: content_type.to_string(),
        size_kb: "1.5".to_string(),
        url: url.map(String::from),
    }
}

#[test]
fn a_turn_without_attachments_is_plain_text() {
    match user_content("hello", &Vec::new()) {
        MessageContent::Text(t) => assert_eq!(t, "hello"),
        other => panic!("unexpected {:?}", other),
    }
}

#[test]
fn attachments_become_notes_and_image_parts() {
    let atts = vec![
        attachment("a1", "chart.png", "image/png", Some("https://store/chart.png")),
        attachment("a2", "notes.txt", "text/plain", None),
        attachment("a3", "photo.jpg", "image/jpeg", None),
    ];
    match user_content("look", &atts) {
        MessageContent::Parts(parts) => {
            assert_eq!(parts.len(), 3);
            match &parts[0] {
                ContentPart::Text { text } => assert_eq!(
                    text,
                    "look\n\n[Attached file: notes.txt (text/plain, 1.5KB) \u{2014} use get tool with resource \"attachment\" and attachment_id \"a2\" to read its content]"
                ),
                other => panic!("unexpected {:?}", other),
            }
            match &parts[1] {
                ContentPart::ImageUrl { url, detail } => {
                    assert_eq!(url, "https://store/chart.png");
                    assert!(detail.is_none());
                }
                other => panic!("unexpected {:?}", other),
            }
            match &parts[2] {
                ContentPart::ImageUrl { url, .. } => assert_eq!(url, "attachment://a3"),
                other => panic!("unexpected {:?}", other),
            }
        }
        other => panic!("unexpected {:?}", other),
    }
}

#[test]
fn the_judge_reads_the_user_messages() {
    let msgs = vec![
        PlaygroundMessage {
            role: "system".to_string(),
            content: PlaygroundContent::Text("be brief".to_string()),
        },
        PlaygroundMessage {
            role: "user".to_string(),
            content: PlaygroundContent::Text("first".to_string()),
        },
        PlaygroundMessage {
            role: "assistant".to_string(),
            content: PlaygroundContent::Text("ok".to_string()),
        },
        PlaygroundMessage {
            role: "user".to_string(),
            content: PlaygroundContent::Parts(vec![
                ContentPart::Text { text: "sec".to_string() },
                ContentPart::ImageUrl { url: "u".to_string(), detail: None },
                ContentPart::Text { text: "ond".to_string() },
            ]),
        },
    ];
    assert_eq!(judge_query(&msgs), "first\nsecond");
    assert_eq!(judge_query(&msgs[..1]), "");
}
