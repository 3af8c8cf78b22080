use facepass::error::Error;
use facepass::ident::{new_uuid, timestamp_from, uuid_string};
use facepass::models::{FaceGroupMetadata, FaceGroupSummary, UserMetadata};
use facepass::selector::{
    default_group_name_for_user, is_ascii_identifier, is_legacy_prefixed_numeric_selector, parse_index_selector,
    validate_selector_name,
};
use facepass::storage::{DefaultGroup, FaceRecordInfo, FaceStorage, GroupRemoval, UserCandidate};

fn storage() -> FaceStorage {
    FaceStorage::new("/var/lib/facepass/faces")
}

fn record(username: &str, group_id: u128, label: &str, created_at: i64) -> FaceRecordInfo {
    FaceRecordInfo {
        id: new_uuid(),
        username: username.to_string(),
        group_id,
        label: label.to_string(),
        created_at,
    }
}

fn default_group(storage: &FaceStorage, metadata: &mut UserMetadata, username: &str) -> FaceGroupMetadata {
    match storage.ensure_default_group(metadata, username) {
        DefaultGroup::Created(g) => g,
        _ => panic!("a new user has no groups, so a group is created"),
    }
}

fn copy_metadata(m: &UserMetadata) -> UserMetadata {
    UserMetadata {
        username: m.username.clone(),
        default_group_id: m.default_group_id,
        groups: m.groups.clone(),
        last_updated: m.last_updated,
    }
}

fn message(e: Error) -> String {
    e.message()
}

#[test]
fn test_storage_create() {
    let storage = FaceStorage::new("/tmp/faces");
    assert_eq!(storage.user_dir("alice"), "/tmp/faces/alice");
    assert_eq!(storage.metadata_path("alice"), "/tmp/faces/alice/metadata.json");
    assert_eq!(storage.groups_dir("alice"), "/tmp/faces/alice/groups");
}

#[test]
fn test_paths_follow_path_join() {
    let storage = FaceStorage::new("/tmp/faces/");
    assert_eq!(storage.user_dir("bob"), "/tmp/faces/bob");
    assert_eq!(storage.user_dir("/abs"), "/abs");
    let empty = FaceStorage::new("");
    assert_eq!(empty.user_dir("bob"), "bob");
    let id: u128 = 0x0123_4567_89ab_4cde_8f01_2345_6789_abcd;
    assert_eq!(
        storage.group_dir("bob", id),
        "/tmp/faces/bob/groups/01234567-89ab-4cde-8f01-23456789abcd"
    );
    assert_eq!(
        storage.face_path("bob", id, id),
        "/tmp/faces/bob/groups/01234567-89ab-4cde-8f01-23456789abcd/01234567-89ab-4cde-8f01-23456789abcd.face"
    );
    assert_eq!(
        storage.group_metadata_path("bob", id),
        "/tmp/faces/bob/groups/01234567-89ab-4cde-8f01-23456789abcd/metadata.json"
    );
}

#[test]
fn test_uuid_text_matches_hyphenated_form() {
    assert_eq!(uuid_string(0), "00000000-0000-0000-0000-000000000000");
    assert_eq!(uuid_string(u128::MAX), "ffffffff-ffff-ffff-ffff-ffffffffffff");
    let id = new_uuid();
    assert_eq!((id >> 76) & 0xf, 4);
    assert_eq!((id >> 62) & 0x3, 2);
    assert_ne!(uuid_string(id), uuid_string(0));
}

#[test]
fn test_default_group_created_on_demand() {
    let storage = storage();
    let mut metadata = UserMetadata::new("testuser");

    let group = default_group(&storage, &mut metadata, "testuser");
    assert_eq!(group.name, "testuser");
    assert_eq!(storage.get_default_group(&metadata, "testuser").unwrap().id, group.id);
}

#[test]
fn test_default_group_is_kept_once_made() {
    let storage = storage();
    let mut metadata = UserMetadata::new("testuser");
    let group = default_group(&storage, &mut metadata, "testuser");
    match storage.ensure_default_group(&mut metadata, "testuser") {
        DefaultGroup::Existing(s) => assert_eq!(s.id, group.id),
        _ => panic!("the default group already stands"),
    }
}

#[test]
fn test_create_and_resolve_multiple_groups() {
    let storage = storage();
    let mut metadata = UserMetadata::new("testuser");

    let default_group = default_group(&storage, &mut metadata, "testuser");
    let work_group = storage.create_group(&mut metadata, "work").unwrap();

    assert_eq!(storage.resolve_group(&metadata, "testuser", "0").unwrap().id, default_group.id);
    assert_eq!(storage.resolve_group(&metadata, "testuser", "work").unwrap().id, work_group.id);
}

#[test]
fn test_numeric_group_name_is_rejected() {
    let storage = storage();
    let mut metadata = UserMetadata::new("testuser");

    default_group(&storage, &mut metadata, "testuser");
    let error = message(storage.create_group(&mut metadata, "123").unwrap_err());
    assert!(error.contains("Group name '123' is invalid"));
}

#[test]
fn test_group_name_errors() {
    let storage = storage();
    let mut metadata = UserMetadata::new("testuser");
    assert_eq!(
        storage.create_group(&mut metadata, "   ").unwrap_err(),
        Error::Storage("Group name cannot be empty".to_string())
    );
    storage.create_group(&mut metadata, " work ").unwrap();
    assert_eq!(
        storage.create_group(&mut metadata, "work").unwrap_err(),
        Error::Storage("Group 'work' already exists".to_string())
    );
    assert_eq!(metadata.groups.len(), 1);
    assert_eq!(metadata.groups[0].name, "work");
}

#[test]
fn test_resolve_registered_user_by_index() {
    let storage = storage();
    let candidates = vec![
        UserCandidate { name: "bob".to_string(), face_count: Some(1) },
        UserCandidate { name: "carol".to_string(), face_count: Some(0) },
        UserCandidate { name: "alice".to_string(), face_count: Some(1) },
        UserCandidate { name: "dave".to_string(), face_count: None },
    ];
    let users = storage.registered_users(&candidates);
    assert_eq!(users, vec!["alice".to_string(), "bob".to_string()]);

    assert_eq!(storage.resolve_user(&users, "0").unwrap(), "alice");
    assert_eq!(storage.resolve_user(&users, "1").unwrap(), "bob");
}

#[test]
fn test_resolve_user_errors() {
    let storage = storage();
    let users = vec!["alice".to_string(), "bob".to_string()];
    assert_eq!(
        storage.resolve_user(&users, "2").unwrap_err(),
        Error::Storage("Invalid user selector '2'. Valid range: 0-1".to_string())
    );
    assert_eq!(
        storage.resolve_user(&Vec::new(), "0").unwrap_err(),
        Error::Storage("No registered users with saved face data".to_string())
    );
    assert_eq!(
        storage.resolve_user(&users, "carol").unwrap_err(),
        Error::Storage("User 'carol' not found in registered face data".to_string())
    );
    assert_eq!(
        storage.resolve_user(&users, "@1").unwrap_err(),
        Error::Storage("Invalid user selector '@1'. Use bare numeric indexes like '1'".to_string())
    );
    assert_eq!(
        storage.resolve_user(&users, "99999999999999999999999").unwrap_err(),
        Error::Storage("Invalid user selector '99999999999999999999999'".to_string())
    );
    assert_eq!(storage.resolve_user(&users, "bob").unwrap(), "bob");
}

#[test]
fn test_resolve_faces_by_index() {
    let storage = storage();
    let mut metadata = UserMetadata::new("testuser");

    let mut group = default_group(&storage, &mut metadata, "testuser");
    let first = record("testuser", group.id, "normal", 100);
    let second = record("testuser", group.id, "alt", 200);
    let third = record("testuser", group.id, "alt", 300);
    let mut saved: Vec<FaceRecordInfo> = Vec::new();
    storage.add_face_record(&mut metadata, &mut group, &saved, &first).unwrap();
    saved.push(first.clone());
    storage.add_face_record(&mut metadata, &mut group, &saved, &second).unwrap();
    saved.push(second.clone());
    let error = message(storage.add_face_record(&mut metadata, &mut group, &saved, &third).unwrap_err());
    assert!(error.contains("Face label 'alt' already exists"));

    let faces = storage.sort_by_created_at(saved);
    let resolved = storage
        .resolve_faces_in_group(&group.name, &faces, &vec!["1".to_string(), "normal".to_string()])
        .unwrap();

    assert_eq!(resolved.len(), 2);
    assert_eq!(resolved[0].id, second.id);
    assert_eq!(resolved[1].id, first.id);
}

#[test]
fn test_resolve_faces_errors() {
    let storage = storage();
    let group = FaceGroupMetadata::new("work");
    let faces = vec![record("u", group.id, "a", 1), record("u", group.id, "a_2", 2)];
    assert_eq!(
        storage.resolve_faces_in_group("work", &Vec::new(), &vec!["0".to_string()]).unwrap_err(),
        Error::Storage("Group 'work' has no faces".to_string())
    );
    assert_eq!(
        storage.resolve_faces_in_group("work", &faces, &vec!["5".to_string()]).unwrap_err(),
        Error::Storage("Invalid face selector '5' in group 'work'. Valid range: 0-1".to_string())
    );
    assert_eq!(
        storage.resolve_faces_in_group("work", &faces, &vec!["zz".to_string()]).unwrap_err(),
        Error::Storage("No faces with label 'zz' in group 'work'".to_string())
    );
    let twice = storage
        .resolve_faces_in_group("work", &faces, &vec!["0".to_string(), "a".to_string(), "1".to_string()])
        .unwrap();
    assert_eq!(twice.len(), 2);
    assert_eq!(twice[0].id, faces[0].id);
    assert_eq!(twice[1].id, faces[1].id);
}

#[test]
fn test_validate_selector_name_rules() {
    validate_selector_name("normal", "Face label").unwrap();
    validate_selector_name("with_glasses", "Face label").unwrap();
    validate_selector_name("_backup1", "Group name").unwrap();

    for invalid in ["123", "@a", "#a", "with-glasses", "hello world", "中文"] {
        let error = validate_selector_name(invalid, "Face label").unwrap_err().message();
        assert!(error.contains("Names must match"));
    }
}

#[test]
fn test_validate_selector_name_messages() {
    assert_eq!(
        validate_selector_name("", "Face label").unwrap_err(),
        Error::Storage("Face label cannot be empty".to_string())
    );
    assert_eq!(
        validate_selector_name("a-b", "Group name").unwrap_err(),
        Error::Storage("Group name 'a-b' is invalid. Names must match [A-Za-z_][A-Za-z0-9_]*".to_string())
    );
    assert!(is_ascii_identifier("_x9"));
    assert!(!is_ascii_identifier("9x"));
    assert!(!is_ascii_identifier(""));
}

#[test]
fn test_parse_index_selector_cases() {
    assert_eq!(parse_index_selector("12", "face selector"), Some(Ok(12)));
    assert_eq!(parse_index_selector("abc", "face selector"), None);
    assert_eq!(parse_index_selector("@", "face selector"), None);
    assert_eq!(
        parse_index_selector("#3", "face selector"),
        Some(Err(Error::Storage("Invalid face selector '#3'. Use bare numeric indexes like '3'".to_string())))
    );
    assert!(is_legacy_prefixed_numeric_selector("@12"));
    assert!(!is_legacy_prefixed_numeric_selector("@1a"));
    assert!(!is_legacy_prefixed_numeric_selector("12"));
}

#[test]
fn test_default_group_falls_back_when_username_is_not_identifier() {
    let storage = storage();
    let mut metadata = UserMetadata::new("user-name");

    let group = default_group(&storage, &mut metadata, "user-name");
    assert_eq!(group.name, "default");
    assert_eq!(default_group_name_for_user("user-name"), "default");
    assert_eq!(default_group_name_for_user("alice"), "alice");
}

#[test]
fn test_next_available_face_label_skips_existing_numbers() {
    let storage = storage();
    let mut metadata = UserMetadata::new("testuser");

    let mut group = default_group(&storage, &mut metadata, "testuser");
    let mut saved: Vec<FaceRecordInfo> = Vec::new();
    let one = record("testuser", group.id, "face_1", 1);
    storage.add_face_record(&mut metadata, &mut group, &saved, &one).unwrap();
    saved.push(one);
    let three = record("testuser", group.id, "face_3", 2);
    storage.add_face_record(&mut metadata, &mut group, &saved, &three).unwrap();
    saved.push(three);

    assert_eq!(storage.next_available_face_label(&saved), "face_2");
    assert_eq!(storage.next_available_face_label(&Vec::new()), "face_1");
}

#[test]
fn test_same_label_is_allowed_in_different_groups() {
    let storage = storage();
    let mut metadata = UserMetadata::new("testuser");

    let mut first_group = default_group(&storage, &mut metadata, "testuser");
    let mut second_group = storage.create_group(&mut metadata, "backup").unwrap();

    let a = record("testuser", first_group.id, "normal", 1);
    storage.add_face_record(&mut metadata, &mut first_group, &Vec::new(), &a).unwrap();
    let b = record("testuser", second_group.id, "normal", 2);
    storage.add_face_record(&mut metadata, &mut second_group, &Vec::new(), &b).unwrap();
    assert_eq!(metadata.total_face_count(), 2);
}

#[test]
fn test_legacy_prefixed_index_selectors_are_rejected() {
    let storage = storage();
    let mut metadata = UserMetadata::new("testuser");

    let mut group = default_group(&storage, &mut metadata, "testuser");
    let face = record("testuser", group.id, "normal", 1);
    storage.add_face_record(&mut metadata, &mut group, &Vec::new(), &face).unwrap();

    assert!(storage
        .resolve_group(&metadata, "testuser", "@0")
        .unwrap_err()
        .message()
        .contains("Use bare numeric indexes"));
    assert!(storage
        .resolve_faces_in_group(&group.name, &vec![face], &vec!["#0".to_string()])
        .unwrap_err()
        .message()
        .contains("Use bare numeric indexes"));
}

#[test]
fn test_delete_faces_without_deleting_group() {
    let storage = storage();
    let mut metadata = UserMetadata::new("testuser");

    let mut group = default_group(&storage, &mut metadata, "testuser");
    let first = record("testuser", group.id, "one", 1);
    let second = record("testuser", group.id, "two", 2);
    storage.add_face_record(&mut metadata, &mut group, &Vec::new(), &first).unwrap();
    storage.add_face_record(&mut metadata, &mut group, &vec![first.clone()], &second).unwrap();

    let (deleted, _) = storage.delete_faces(&mut group, &vec![first.id]);
    assert_eq!(deleted, 1);
    assert_eq!(group.face_ids.len(), 1);
    metadata.upsert_group(group.summary());
    assert_eq!(metadata.groups[0].face_count, 1);
}

#[test]
fn test_delete_faces_counts_each_id_once() {
    let storage = storage();
    let mut group = FaceGroupMetadata::new("g");
    group.add_face(1);
    group.add_face(2);
    let (deleted, removed) = storage.delete_faces(&mut group, &vec![2, 2, 7]);
    assert_eq!(deleted, 1);
    assert_eq!(removed, vec![2, 7]);
    assert_eq!(group.face_ids, vec![1]);
}

#[test]
fn test_delete_group_updates_default_group() {
    let storage = storage();
    let mut metadata = UserMetadata::new("testuser");

    let default_group = default_group(&storage, &mut metadata, "testuser");
    let second_group = storage.create_group(&mut metadata, "backup").unwrap();
    storage.set_default_group(&mut metadata, second_group.id).unwrap();

    storage.delete_group(&mut metadata, second_group.id).unwrap();

    let new_default = storage.get_default_group(&metadata, "testuser").unwrap();
    assert_eq!(new_default.id, default_group.id);
}

#[test]
fn test_delete_last_group_empties_user() {
    let storage = storage();
    let mut metadata = UserMetadata::new("testuser");
    let group = default_group(&storage, &mut metadata, "testuser");
    assert!(matches!(storage.delete_group(&mut metadata, group.id), Ok(GroupRemoval::UserEmptied)));
    assert!(storage.delete_group(&mut metadata, group.id).is_err());
    assert!(storage.set_default_group(&mut metadata, group.id).is_err());
}

#[test]
fn test_group_metadata_summary() {
    let mut group = FaceGroupMetadata::new("primary");
    let face_id = new_uuid();
    group.add_face(face_id);

    let summary = group.summary();
    assert_eq!(summary.name, "primary");
    assert_eq!(summary.face_count, 1);
}

#[test]
fn test_face_counts_from_metadata() {
    let storage = storage();
    let mut metadata = UserMetadata::new("u");
    let mut group = default_group(&storage, &mut metadata, "u");
    let f = record("u", group.id, "f", 1);
    storage.add_face_record(&mut metadata, &mut group, &Vec::new(), &f).unwrap();
    assert_eq!(storage.total_face_count(Ok(copy_metadata(&metadata))), Ok(1));
    assert!(storage.has_faces(Ok(copy_metadata(&metadata))));
    assert!(!storage.has_faces(Err(Error::Io("missing".to_string()))));
    assert_eq!(
        storage.face_count(Err(Error::Io("missing".to_string()))),
        Err(Error::Io("missing".to_string()))
    );
    assert!(!storage.has_faces(Ok(UserMetadata::new("v"))));
}

#[test]
fn test_sort_by_created_at_is_stable() {
    let storage = storage();
    let a = record("u", 1, "a", 5);
    let b = record("u", 1, "b", 1);
    let c = record("u", 1, "c", 5);
    let sorted = storage.sort_by_created_at(vec![a.clone(), b.clone(), c.clone()]);
    let labels: Vec<String> = sorted.iter().map(|r| r.label.clone()).collect();
    assert_eq!(labels, vec!["b".to_string(), "a".to_string(), "c".to_string()]);
}

#[test]
fn test_set_default_group_is_read_back() {
    let storage = storage();
    let mut metadata = UserMetadata::new("testuser");
    default_group(&storage, &mut metadata, "testuser");
    let work = storage.create_group(&mut metadata, "work").unwrap();

    storage.set_default_group(&mut metadata, work.id).unwrap();
    assert_eq!(storage.get_default_group(&metadata, "testuser").unwrap().id, work.id);
}

#[test]
fn test_created_group_is_found_by_name() {
    let storage = storage();
    let mut metadata = UserMetadata::new("testuser");
    default_group(&storage, &mut metadata, "testuser");
    let created = storage.create_group(&mut metadata, "  office  ").unwrap();

    assert_eq!(created.name, "office");
    let found = storage.resolve_group(&metadata, "testuser", "office").unwrap();
    assert_eq!(found.id, created.id);
    assert_eq!(found.face_count, 0);
}

#[test]
fn test_deleted_group_is_gone() {
    let storage = storage();
    let mut metadata = UserMetadata::new("testuser");
    default_group(&storage, &mut metadata, "testuser");
    let work = storage.create_group(&mut metadata, "work").unwrap();

    assert!(matches!(storage.delete_group(&mut metadata, work.id), Ok(GroupRemoval::Saved)));
    assert!(metadata.find_group_index(work.id).is_none());
    assert!(storage.resolve_group(&metadata, "testuser", "work").is_err());
}

#[test]
fn test_free_label_is_accepted() {
    let storage = storage();
    let mut metadata = UserMetadata::new("testuser");
    let mut group = default_group(&storage, &mut metadata, "testuser");
    let first = record("testuser", group.id, "face_1", 1);
    storage.add_face_record(&mut metadata, &mut group, &Vec::new(), &first).unwrap();

    let existing = vec![first];
    let label = storage.next_available_face_label(&existing);
    assert_eq!(label, "face_2");
    let second = record("testuser", group.id, &label, 2);
    assert!(storage.add_face_record(&mut metadata, &mut group, &existing, &second).is_ok());
}

#[test]
fn test_ensure_default_group_twice_changes_nothing() {
    let storage = storage();
    let mut metadata = UserMetadata::new("testuser");
    let created = default_group(&storage, &mut metadata, "testuser");
    let before = copy_metadata(&metadata);

    match storage.ensure_default_group(&mut metadata, "testuser") {
        DefaultGroup::Existing(g) => assert_eq!(g.id, created.id),
        other => panic!("the default group was already settled: {:?}", other),
    }
    assert_eq!(metadata.default_group_id, before.default_group_id);
    assert_eq!(metadata.groups.len(), before.groups.len());
}

#[test]
fn test_remove_face_undoes_add_face() {
    let mut group = FaceGroupMetadata::new("g");
    group.add_face(1);
    group.add_face(2);
    group.add_face(3);
    assert!(group.remove_face(&3));
    assert_eq!(group.face_ids, vec![1, 2]);
    assert!(!group.remove_face(&3));
}

#[test]
fn test_upserted_group_is_found_by_id() {
    let mut metadata = UserMetadata::new("testuser");
    let mut g = facepass::models::FaceGroupSummary::new("a");
    metadata.upsert_group(g.clone());
    g.face_count = 4;
    metadata.upsert_group(g.clone());
    let i = metadata.find_group_index(g.id).unwrap();
    assert_eq!(metadata.groups.len(), 1);
    assert_eq!(metadata.groups[i].face_count, 4);
}

#[test]
fn test_user_with_faces_is_listed() {
    let storage = storage();
    let mut metadata = UserMetadata::new("erin");
    let mut group = default_group(&storage, &mut metadata, "erin");
    let f = record("erin", group.id, "f", 1);
    storage.add_face_record(&mut metadata, &mut group, &Vec::new(), &f).unwrap();
    assert!(storage.has_faces(Ok(copy_metadata(&metadata))));
    let candidates = vec![
        UserCandidate { name: "zed".to_string(), face_count: storage.total_face_count(Ok(UserMetadata::new("zed"))).ok() },
        UserCandidate { name: "erin".to_string(), face_count: storage.total_face_count(Ok(copy_metadata(&metadata))).ok() },
        UserCandidate {
            name: "gone".to_string(),
            face_count: storage.total_face_count(Err(Error::Io("missing".to_string()))).ok(),
        },
    ];
    assert_eq!(storage.registered_users(&candidates), vec!["erin".to_string()]);
}

#[test]
fn test_face_filename_and_list_groups() {
    let storage = storage();
    let mut f = record("u", 1, "f", 1);
    f.id = 0x0123_4567_89ab_cdef_0123_4567_89ab_cdef;
    assert_eq!(f.filename(), "01234567-89ab-cdef-0123-456789abcdef.face");
    let mut metadata = UserMetadata::new("u");
    let group = default_group(&storage, &mut metadata, "u");
    let groups = storage.list_groups(Ok(copy_metadata(&metadata))).unwrap();
    assert_eq!(groups.len(), 1);
    assert_eq!(groups[0].id, group.id);
    assert_eq!(storage.list_groups(Err(Error::Io("missing".to_string()))).err(), Some(Error::Io("missing".to_string())));
}

#[test]
fn test_fresh_user_gets_exactly_the_default_group() {
    let storage = storage();
    let mut metadata = UserMetadata::new("newbie");
    let g = default_group(&storage, &mut metadata, "newbie");
    assert_eq!(metadata.groups.len(), 1);
    assert_eq!(metadata.groups[0].id, g.id);
    assert_eq!(metadata.groups[0].name, g.name);
    assert_eq!(metadata.groups[0].face_count, 0);
    assert_eq!(metadata.default_group_id, Some(g.id));
}

#[test]
fn test_new_group_ids_are_version_4() {
    for id in [FaceGroupSummary::new("a").id, FaceGroupMetadata::new("b").id] {
        assert_eq!((id >> 76) & 0xf, 4);
        assert_eq!((id >> 62) & 0x3, 2);
    }
}

#[test]
fn test_timestamp_from_clock_reading() {
    assert_eq!(timestamp_from(Some(1_700_000_000)), 1_700_000_000);
    assert_eq!(timestamp_from(None), 0);
    assert_eq!(timestamp_from(Some(u64::MAX)), -1);
}
