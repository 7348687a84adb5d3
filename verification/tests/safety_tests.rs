use hd_analyzer_core::driver::{DeleteSafetyClassification, DeleteSafetyFlag};
use hd_analyzer_core::safety::{classify_path_safety_from_facts, PathSafetyFacts, USER_IMMUTABLE};

#[test]
fn sip_prefix_is_protected_system() {
    let safety = classify_path_safety_from_facts(
        "/System/Library",
        PathSafetyFacts {
            can_delete_now: Some(true),
            parent_writable: Some(true),
            ..PathSafetyFacts::default()
        },
    );

    assert_eq!(safety.classification, DeleteSafetyClassification::ProtectedSystem);
    assert!(safety.flags.contains(&DeleteSafetyFlag::SipProtected));
}

#[test]
fn data_volume_user_path_is_not_sip_protected() {
    let safety = classify_path_safety_from_facts(
        "/System/Volumes/Data/Users/user/Documents",
        PathSafetyFacts {
            can_delete_now: Some(true),
            parent_writable: Some(true),
            uid: Some(501),
            gid: Some(20),
            ..PathSafetyFacts::default()
        },
    );

    assert_eq!(safety.classification, DeleteSafetyClassification::UserContent);
}

#[test]
fn immutable_path_is_not_deletable_now() {
    let safety = classify_path_safety_from_facts(
        "/Users/user/file",
        PathSafetyFacts {
            can_delete_now: Some(true),
            parent_writable: Some(true),
            flags: USER_IMMUTABLE,
            uid: Some(501),
            gid: Some(20),
            ..PathSafetyFacts::default()
        },
    );

    assert_eq!(safety.classification, DeleteSafetyClassification::NotDeletableNow);
    assert!(safety.flags.contains(&DeleteSafetyFlag::Immutable));
}

#[test]
fn user_cache_path_is_safe_junk() {
    let home = "/Users/user".to_string();
    let path = std::path::Path::new(&home).join("Library/Caches/example");
    let safety = classify_path_safety_from_facts(
        path.to_str().unwrap(),
        PathSafetyFacts {
            can_delete_now: Some(true),
            parent_writable: Some(true),
            uid: Some(501),
            gid: Some(20),
            home: Some(home.clone()),
            ..PathSafetyFacts::default()
        },
    );

    assert_eq!(safety.classification, DeleteSafetyClassification::SafeJunk);
    assert!(safety.flags.contains(&DeleteSafetyFlag::SafeJunkRule));
}

#[test]
fn system_owned_path_requires_review() {
    let safety = classify_path_safety_from_facts(
        "/opt/vendor",
        PathSafetyFacts {
            can_delete_now: Some(true),
            parent_writable: Some(true),
            uid: Some(0),
            gid: Some(0),
            ..PathSafetyFacts::default()
        },
    );

    assert_eq!(safety.classification, DeleteSafetyClassification::ReviewRequired);
    assert!(safety.flags.contains(&DeleteSafetyFlag::SystemOwned));
}

#[test]
fn sip_exception_under_usr_local_is_user_content() {
    let safety = classify_path_safety_from_facts(
        "/usr/local/bin/tool",
        PathSafetyFacts {
            can_delete_now: Some(true),
            parent_writable: Some(true),
            uid: Some(501),
            gid: Some(20),
            ..PathSafetyFacts::default()
        },
    );
    assert_eq!(safety.classification, DeleteSafetyClassification::UserContent);
    assert!(safety.can_delete_now);
}
