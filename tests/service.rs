use chat_bridge::blob::{asset_reply, blob_file_name, new_blob_file_name, AssetReply};
use chat_bridge::respond::{message_folder, server_port, status_for, Operation, Outcome};

#[test]
fn blob_name_appends_extension() {
    assert_eq!(blob_file_name("abc"), "abc.png");
}

#[test]
fn new_blob_names_are_fresh_ids() {
    let a = new_blob_file_name();
    let b = new_blob_file_name();
    assert_eq!(a.len(), 40);
    assert!(a.ends_with(".png"));
    for (i, c) in a[..36].chars().enumerate() {
        if i == 8 || i == 13 || i == 18 || i == 23 {
            assert_eq!(c, '-');
        } else {
            assert!(c.is_ascii_hexdigit() && !c.is_ascii_uppercase());
        }
    }
    assert_eq!(&a[14..15], "4");
    assert!(matches!(&a[19..20], "8" | "9" | "a" | "b"));
    assert_ne!(a, b);
}

#[test]
fn asset_content_type_follows_extension() {
    match asset_reply("/tmp/pic.png", true, true) {
        AssetReply::Found { content_type } => assert_eq!(content_type, "image/png"),
        other => panic!("unexpected {:?}", other),
    }
    match asset_reply("/tmp/notes.txt", true, true) {
        AssetReply::Found { content_type } => assert_eq!(content_type, "text/plain"),
        other => panic!("unexpected {:?}", other),
    }
}

#[test]
fn asset_unknown_extension_is_octet_stream() {
    match asset_reply("/tmp/blob", true, true) {
        AssetReply::Found { content_type } => {
            assert_eq!(content_type, "application/octet-stream")
        }
        other => panic!("unexpected {:?}", other),
    }
}

#[test]
fn missing_asset_is_not_found() {
    let r = asset_reply("/tmp/none.png", false, false);
    assert!(matches!(r, AssetReply::NotFound));
    assert_eq!(r.status(), 404);
}

#[test]
fn unreadable_asset_is_server_error() {
    let r = asset_reply("/tmp/locked.png", true, false);
    assert!(matches!(r, AssetReply::ReadFailed));
    assert_eq!(r.status(), 500);
    assert_eq!(asset_reply("/tmp/a.png", true, true).status(), 200);
}

#[test]
fn chat_lifecycle_statuses() {
    assert_eq!(status_for(Operation::CreateChat, Outcome::Done), 201);
    assert_eq!(status_for(Operation::SaveMessage, Outcome::Done), 201);
    assert_eq!(status_for(Operation::ListMessages, Outcome::Done), 200);
    assert_eq!(status_for(Operation::DeleteChat, Outcome::Done), 204);
    assert_eq!(status_for(Operation::GetChat, Outcome::NotFound), 404);
}

#[test]
fn persistence_failures_are_server_errors() {
    for op in [
        Operation::ListChats,
        Operation::CreateChat,
        Operation::DeleteChat,
        Operation::ListMessages,
        Operation::SaveMessage,
        Operation::UpdateMessage,
        Operation::UpdateChatTitle,
        Operation::UpdateChatImage,
        Operation::ListWorkflows,
        Operation::CreateWorkflow,
        Operation::DeleteWorkflow,
        Operation::ListSteps,
        Operation::ReplaceSteps,
    ] {
        assert_eq!(status_for(op, Outcome::StoreFailed), 500);
    }
}

#[test]
fn chat_read_store_failure_is_not_not_found() {
    assert_eq!(status_for(Operation::GetChat, Outcome::StoreFailed), 500);
    assert_eq!(status_for(Operation::GetChat, Outcome::NotFound), 404);
}

#[test]
fn workflow_statuses() {
    assert_eq!(status_for(Operation::CreateWorkflow, Outcome::Done), 201);
    assert_eq!(status_for(Operation::DeleteWorkflow, Outcome::Done), 204);
    assert_eq!(status_for(Operation::ReplaceSteps, Outcome::Done), 200);
    assert_eq!(status_for(Operation::ListSteps, Outcome::Done), 200);
    assert_eq!(status_for(Operation::GetChat, Outcome::Done), 200);
}

#[test]
fn message_folder_defaults_to_empty() {
    assert_eq!(message_folder(None), "");
    assert_eq!(message_folder(Some("docs".to_string())), "docs");
}

#[test]
fn port_is_fixed() {
    assert_eq!(server_port(), 8001);
}
