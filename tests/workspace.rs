use checkpoint::workspace::{full_image_name, get_image_name_from_path, image_name_for, select_members};

#[test]
fn image_name_uses_the_checkpoint_directory() {
    assert_eq!(
        get_image_name_from_path("en/rs/03-ping-checkpoint/checker"),
        "ucw-checker-03-ping-checkpoint"
    );
    assert_eq!(get_image_name_from_path("en/checker"), "ucw-checker-en");
}

#[test]
fn image_name_without_parent_directory_is_unknown() {
    assert_eq!(get_image_name_from_path("checker"), "ucw-checker-unknown");
    assert_eq!(get_image_name_from_path("/checker"), "ucw-checker-unknown");
    assert_eq!(get_image_name_from_path(""), "ucw-checker-unknown");
}

#[test]
fn image_name_from_directory_name() {
    assert_eq!(image_name_for(Some("07-kademlia-checkpoint")), "ucw-checker-07-kademlia-checkpoint");
    assert_eq!(image_name_for(None), "ucw-checker-unknown");
}

#[test]
fn full_image_name_points_at_the_registry() {
    assert_eq!(
        full_image_name("ucw-checker-03-ping-checkpoint"),
        "ghcr.io/libp2p/universal-connectivity-workshop/ucw-checker-03-ping-checkpoint:latest"
    );
}

#[test]
fn members_skip_the_build_tool_and_non_strings() {
    let entries = vec![
        Some("en/rs/02-tcp-transport/checker".to_string()),
        None,
        Some("xtask".to_string()),
        Some("en/checker".to_string()),
    ];
    assert_eq!(
        select_members(entries),
        vec!["en/rs/02-tcp-transport/checker".to_string(), "en/checker".to_string()]
    );
    assert!(select_members(vec![]).is_empty());
}
