use dips::changes::{changes, Change};
use dips::commands::add::{add, value_exists, AddOutcome};
use dips::database::{Database, DipTag, StoreError};
use dips::git::GitRepository;
use dips::models::dip::{
    create, delete, get_all, get_filtered, insert, row_of, tags_for, Dip, DipTags, DipsFilter,
};
use dips::models::dir_context::{
    db_create, db_find_one, db_find_or_create, db_insert, get_or_create_current, matches_place,
    DirContext, RuntimeDirContext, ScopesFilter,
};
use dips::models::tag::{create_dip_tag, ensure_tag, get_or_create, tag_dip, Tag, TagMeta};

fn place(path: &str) -> RuntimeDirContext {
    RuntimeDirContext::locate(path.to_string(), true, None).unwrap()
}

fn place_in_repo(path: &str, dir_name: &str, remote: Option<&str>) -> RuntimeDirContext {
    let repo = GitRepository {
        path: format!("/repos/{dir_name}"),
        dir_name: dir_name.to_string(),
        remote: remote.map(String::from),
    };
    RuntimeDirContext::locate(path.to_string(), true, Some(repo)).unwrap()
}

fn values(db: &Database, filter: DipsFilter) -> Vec<String> {
    get_filtered(db, filter).into_iter().map(|row| row.value).collect()
}

fn tag_names(db: &Database, dip_id: u128) -> Vec<String> {
    tags_for(db, dip_id).tags().iter().map(|tag| tag.name.clone()).collect()
}

fn added(outcome: Result<AddOutcome, StoreError>) -> Dip {
    match outcome {
        Ok(AddOutcome::Added(dip)) => dip,
        other => panic!("not added: {other:?}"),
    }
}

#[test]
fn adding_new_value_should_be_added() {
    let mut db = Database::new();
    let input = "lorem";
    added(add(&mut db, &place("/tmp/work"), input, None, false));
    let rows = get_all(&db);
    assert_eq!(rows.len(), 1);
    assert_eq!(rows[0].value, input);
}

#[test]
fn adding_new_value_should_have_correct_dir_context() {
    let mut db = Database::new();
    let input = "ipsum";
    added(add(&mut db, &place("/tmp/work"), input, None, false));
    let rows = get_all(&db);
    assert_eq!(rows.len(), 1);
    assert_eq!(rows[0].value, input);
    assert_eq!(rows[0].dir_path, Some("/tmp/work".to_string()));
    assert_eq!(rows[0].dir_context_id, Some(db.dir_contexts[0].id));
}

#[test]
fn adding_new_value_with_group_stores_group() {
    let mut db = Database::new();
    let input = "dolor";
    let group = "sit".to_string();
    added(add(&mut db, &place("/tmp/work"), input, Some(&group), false));
    let rows = get_all(&db);
    assert_eq!(rows.len(), 1);
    assert_eq!(rows[0].value, input);
    assert!(rows[0].dir_context_id.is_some());
    assert_eq!(rows[0].tags.to_string(), group);
}

#[test]
fn adding_value_with_global_flag_stores_global() {
    let mut db = Database::new();
    let input = "amet";
    added(add(&mut db, &place("/tmp/work"), input, None, true));
    let rows = get_all(&db);
    assert_eq!(rows.len(), 1);
    assert_eq!(rows[0].value, input);
    assert_eq!(rows[0].dir_context_id, None);
    assert_eq!(rows[0].dir_path, None);
    assert!(rows[0].tags.tags().is_empty());
    assert!(db.dir_contexts.is_empty());
}

#[test]
fn add_existing_dir_context_value_complains() {
    let mut db = Database::new();
    let ctx = place("/tmp/work");
    added(add(&mut db, &ctx, "consectetur", None, false));
    assert_eq!(add(&mut db, &ctx, "consectetur", None, false), Ok(AddOutcome::AlreadyAdded));
    assert_eq!(get_all(&db).len(), 1);
    assert_eq!(db.dir_contexts.len(), 1);
}

#[test]
fn add_existing_dir_context_and_group_value_complains() {
    let mut db = Database::new();
    let ctx = place("/tmp/work");
    added(add(&mut db, &ctx, "adipiscing", Some("elit"), false));
    assert_eq!(add(&mut db, &ctx, "adipiscing", Some("elit"), false), Ok(AddOutcome::AlreadyAdded));
    assert_eq!(get_all(&db).len(), 1);
    assert_eq!(db.tags.len(), 1);
    assert_eq!(db.dips_tags.len(), 1);
}

#[test]
fn add_existing_global_value_complains() {
    let mut db = Database::new();
    let ctx = place("/tmp/work");
    added(add(&mut db, &ctx, "sed", None, true));
    assert_eq!(add(&mut db, &ctx, "sed", None, true), Ok(AddOutcome::AlreadyAdded));
    assert_eq!(get_all(&db).len(), 1);
}

#[test]
fn add_existing_global_group_value_complains() {
    let mut db = Database::new();
    let ctx = place("/tmp/work");
    added(add(&mut db, &ctx, "do", Some("eiusmod"), true));
    assert_eq!(add(&mut db, &ctx, "do", Some("eiusmod"), true), Ok(AddOutcome::AlreadyAdded));
    assert_eq!(get_all(&db).len(), 1);
}

#[test]
fn add_in_a_fresh_directory_makes_one_scope_and_one_note() {
    let mut db = Database::new();
    added(add(&mut db, &place("/old"), "w", None, false));
    let before = db.clone();
    let ctx = place_in_repo("/fresh/dir", "dir", Some("https://example.org/dir.git"));
    let dip = added(add(&mut db, &ctx, "x", None, false));
    assert_eq!(db.dir_contexts.len(), before.dir_contexts.len() + 1);
    assert_eq!(db.dips.len(), before.dips.len() + 1);
    assert_eq!(db.dir_contexts[..1], before.dir_contexts[..]);
    assert_eq!(db.dips[..1], before.dips[..]);
    let scope = &db.dir_contexts[1];
    assert_eq!(scope.dir_path, "/fresh/dir");
    assert_eq!(scope.git_dir_name, Some("dir".to_string()));
    assert_eq!(scope.git_remote, Some("https://example.org/dir.git".to_string()));
    assert_eq!(db.dips[1], dip);
    assert_eq!(dip.value, "x");
    assert_eq!(dip.dir_context_id, Some(scope.id));
    assert_eq!(dip.note, None);
    assert_eq!(dip.context_group_id, None);
    assert_eq!(dip.created_at, dip.updated_at);
    assert_eq!(db.tags, before.tags);
    assert_eq!(db.dips_tags, before.dips_tags);
}

#[test]
fn add_in_a_known_directory_uses_its_scope() {
    let mut db = Database::new();
    let ctx = place("/tmp/work");
    let first = added(add(&mut db, &ctx, "one", None, false));
    let second = added(add(&mut db, &ctx, "two", None, false));
    assert_eq!(db.dir_contexts.len(), 1);
    assert_eq!(first.dir_context_id, second.dir_context_id);
    assert_eq!(db.dips.len(), 2);
}

#[test]
fn add_gives_every_place_a_scope_of_its_own() {
    let mut db = Database::new();
    let home = place_in_repo("/repo", "repo", Some("https://example.org/p.git"));
    let first = added(add(&mut db, &home, "one", None, false));
    let sub = place_in_repo("/repo/sub", "repo", Some("https://example.org/p.git"));
    let second = added(add(&mut db, &sub, "two", None, false));
    assert_ne!(second.dir_context_id, first.dir_context_id);
    assert_eq!(db.dir_contexts.len(), 2);
    assert_eq!(db.dir_contexts[1].dir_path, "/repo/sub");
    assert_eq!(second.dir_context_id, Some(db.dir_contexts[1].id));
    let other_remote = place_in_repo("/repo", "repo", Some("https://example.org/q.git"));
    let third = added(add(&mut db, &other_remote, "three", None, false));
    assert_eq!(db.dir_contexts.len(), 3);
    assert_eq!(third.dir_context_id, Some(db.dir_contexts[2].id));
    let bare = place("/repo");
    let fourth = added(add(&mut db, &bare, "one", None, false));
    assert_eq!(db.dir_contexts.len(), 4);
    assert_eq!(fourth.dir_context_id, Some(db.dir_contexts[3].id));
    let again = added(add(&mut db, &home, "four", None, false));
    assert_eq!(again.dir_context_id, first.dir_context_id);
    assert_eq!(db.dir_contexts.len(), 4);
    assert_eq!(add(&mut db, &home, "one", None, false), Ok(AddOutcome::AlreadyAdded));
    assert_eq!(add(&mut db, &sub, "two", None, false), Ok(AddOutcome::AlreadyAdded));
    added(add(&mut db, &sub, "one", None, false));
    assert_eq!(db.dips.len(), 6);
}

#[test]
fn the_same_value_can_be_noted_in_two_scopes_and_globally() {
    let mut db = Database::new();
    added(add(&mut db, &place("/a"), "x", None, false));
    added(add(&mut db, &place("/b"), "x", None, false));
    assert_eq!(add(&mut db, &place("/a"), "x", None, true), Ok(AddOutcome::AlreadyAdded));
    added(add(&mut db, &place("/c"), "x", None, true));
    assert_eq!(db.dips.len(), 3);
    assert!(value_exists(&db, &place("/a"), "x", false));
    assert!(value_exists(&db, &place("/a"), "x", true));
    assert!(!value_exists(&db, &place("/c"), "x", false));
    assert!(value_exists(&db, &place("/c"), "x", true));
    assert!(!value_exists(&db, &place("/a"), "X", true));
}

#[test]
fn a_global_note_does_not_stand_in_the_way_of_a_scoped_one() {
    let mut db = Database::new();
    added(add(&mut db, &place("/a"), "x", None, true));
    assert!(!value_exists(&db, &place("/a"), "x", false));
    let dip = added(add(&mut db, &place("/a"), "x", None, false));
    assert!(dip.dir_context_id.is_some());
}

#[test]
fn delete_removes_the_note_and_is_idempotent() {
    let mut db = Database::new();
    let ctx = place("/tmp/work");
    let keep = added(add(&mut db, &ctx, "keep", Some("work"), false));
    let gone = added(add(&mut db, &ctx, "gone", Some("work"), false));
    delete(&mut db, &gone.id);
    assert_eq!(db.dips, vec![keep.clone()]);
    assert_eq!(db.dips_tags, vec![DipTag { dip_id: keep.id, tag_id: db.tags[0].id }]);
    assert_eq!(db.tags.len(), 1);
    assert_eq!(db.dir_contexts.len(), 1);
    let after_first = db.clone();
    delete(&mut db, &gone.id);
    assert_eq!(db, after_first);
    delete(&mut db, &12345);
    assert_eq!(db, after_first);
}

#[test]
fn delete_on_an_empty_store_changes_nothing() {
    let mut db = Database::new();
    delete(&mut db, &1);
    assert_eq!(db, Database::new());
}

#[test]
fn filter_by_scope() {
    let mut db = Database::new();
    let a = added(add(&mut db, &place("/a"), "in a", None, false));
    added(add(&mut db, &place("/b"), "in b", None, false));
    added(add(&mut db, &place("/a"), "everywhere", None, true));
    assert_eq!(values(&db, DipsFilter::new().with_scope_id(a.dir_context_id)), vec!["in a"]);
    assert_eq!(values(&db, DipsFilter::new()), vec!["everywhere"]);
    assert_eq!(values(&db, DipsFilter::new().with_scope_id(None)), vec!["everywhere"]);
    assert_eq!(values(&db, DipsFilter::new().with_scope_id(Some(424242))), Vec::<String>::new());
    assert_eq!(get_all(&db).len(), 3);
}

#[test]
fn search_is_a_case_insensitive_substring_match() {
    let mut db = Database::new();
    let ctx = place("/a");
    for value in ["Abacus", "cab", "ABC", "xabcx", "a b c", "bca", "other"] {
        added(add(&mut db, &ctx, value, None, false));
    }
    let scope = Some(db.dir_contexts[0].id);
    let all = values(&db, DipsFilter::new().with_scope_id(scope));
    assert_eq!(all, vec!["Abacus", "cab", "ABC", "xabcx", "a b c", "bca", "other"]);
    let ab = values(&db, DipsFilter::new().with_scope_id(scope).with_search("ab"));
    assert_eq!(ab, vec!["Abacus", "cab", "ABC", "xabcx"]);
    let abc = values(&db, DipsFilter::new().with_scope_id(scope).with_search("abc"));
    assert_eq!(abc, vec!["ABC", "xabcx"]);
    let upper = values(&db, DipsFilter::new().with_scope_id(scope).with_search("AbC"));
    assert_eq!(upper, abc);
    for found in &abc {
        assert!(ab.contains(found));
    }
    for found in &ab {
        assert!(all.contains(found));
        assert!(found.to_lowercase().contains("ab"));
    }
    assert_eq!(values(&db, DipsFilter::new().with_scope_id(scope).with_search("")), all);
    assert_eq!(values(&db, DipsFilter::new().with_scope_id(scope).with_search("zz")), Vec::<String>::new());
    assert_eq!(values(&db, DipsFilter::new().with_search("ab")), Vec::<String>::new());
}

#[test]
fn search_takes_percent_and_underscore_as_they_are() {
    let mut db = Database::new();
    let ctx = place("/a");
    for value in ["100%", "a_b", "axb", "100"] {
        added(add(&mut db, &ctx, value, None, false));
    }
    let scope = Some(db.dir_contexts[0].id);
    assert_eq!(values(&db, DipsFilter::new().with_scope_id(scope).with_search("%")), vec!["100%"]);
    assert_eq!(values(&db, DipsFilter::new().with_scope_id(scope).with_search("a_b")), vec!["a_b"]);
}

#[test]
fn filter_accessors() {
    let filter = DipsFilter::new().with_search("x").with_scope_id(Some(3));
    assert_eq!(filter.scope_id(), Some(3));
    assert_eq!(filter.search(), Some("x"));
    assert!(filter.admits(Some(3), "aXb"));
    assert!(!filter.admits(None, "aXb"));
    assert!(!filter.admits(Some(3), "ab"));
    assert_eq!(DipsFilter::new().scope_id(), None);
    assert_eq!(DipsFilter::new().search(), None);
    assert_eq!(filter.clone(), filter);
}

#[test]
fn tagging_shows_on_the_page() {
    let mut db = Database::new();
    let dip = added(add(&mut db, &place("/a"), "tagged", None, false));
    let other = added(add(&mut db, &place("/a"), "plain", None, false));
    assert_eq!(create_dip_tag(&mut db, &dip.id, "work"), Ok(()));
    let rows = get_filtered(&db, DipsFilter::new().with_scope_id(dip.dir_context_id));
    assert_eq!(rows.len(), 2);
    assert_eq!(rows[0].id, dip.id);
    assert_eq!(tag_names(&db, dip.id), vec!["work"]);
    assert_eq!(rows[0].tags.tags().len(), 1);
    assert_eq!(rows[0].tags.tags()[0].name, "work");
    assert_eq!(rows[0].tags.to_string(), "work");
    assert_eq!(rows[1].id, other.id);
    assert!(rows[1].tags.tags().is_empty());
}

#[test]
fn tagging_twice_with_one_name_tags_once() {
    let mut db = Database::new();
    let dip = added(add(&mut db, &place("/a"), "tagged", Some("work"), false));
    let before = db.clone();
    assert_eq!(create_dip_tag(&mut db, &dip.id, "work"), Ok(()));
    assert_eq!(db, before);
    assert_eq!(tag_names(&db, dip.id), vec!["work"]);
    assert_eq!(create_dip_tag(&mut db, &dip.id, "home"), Ok(()));
    assert_eq!(tag_names(&db, dip.id), vec!["work", "home"]);
    assert_eq!(row_of(&db, &dip).tags.to_string(), "work home");
}

#[test]
fn a_tag_is_stored_once_and_shared() {
    let mut db = Database::new();
    let one = added(add(&mut db, &place("/a"), "one", Some("work"), false));
    let two = added(add(&mut db, &place("/a"), "two", Some("work"), false));
    assert_eq!(db.tags.len(), 1);
    assert_eq!(db.dips_tags.len(), 2);
    assert_eq!(tag_names(&db, one.id), vec!["work"]);
    assert_eq!(tag_names(&db, two.id), vec!["work"]);
    let id = get_or_create(&mut db, "work").unwrap();
    assert_eq!(id, db.tags[0].id);
    assert_eq!(db.tags.len(), 1);
    let fresh = get_or_create(&mut db, "Work").unwrap();
    assert_ne!(fresh, id);
    assert_eq!(db.tags.len(), 2);
    assert_eq!(db.tags[1].name, "Work");
    assert_eq!(db.tags[1].id, fresh);
}

#[test]
fn tagging_a_note_that_is_not_stored_is_refused() {
    let mut db = Database::new();
    assert_eq!(create_dip_tag(&mut db, &77, "work"), Err(StoreError::NoSuchDip));
    assert_eq!(db, Database::new());
    assert_eq!(tag_dip(&mut db, 77, Tag::stamped(1, 0, "work")), Err(StoreError::NoSuchDip));
    assert_eq!(db, Database::new());
}

#[test]
fn a_new_tag_whose_identity_is_taken_is_refused() {
    let mut db = Database::new();
    assert_eq!(ensure_tag(&mut db, Tag::stamped(1, 0, "work")), Ok(1));
    let before = db.clone();
    assert_eq!(ensure_tag(&mut db, Tag::stamped(1, 0, "home")), Err(StoreError::IdTaken));
    assert_eq!(db, before);
    assert_eq!(ensure_tag(&mut db, Tag::stamped(2, 0, "work")), Ok(1));
    assert_eq!(db, before);
    assert_eq!(insert(&mut db, Dip::stamped(5, 0, None, "x", None)), Ok(()));
    let before = db.clone();
    assert_eq!(tag_dip(&mut db, 5, Tag::stamped(1, 0, "home")), Err(StoreError::IdTaken));
    assert_eq!(db, before);
    assert_eq!(tag_dip(&mut db, 5, Tag::stamped(9, 0, "work")), Ok(()));
    assert_eq!(db.dips_tags, vec![DipTag { dip_id: 5, tag_id: 1 }]);
}

#[test]
fn shown_tag_identity_is_the_hyphenated_uuid() {
    let mut db = Database::new();
    insert(&mut db, Dip::stamped(5, 0, None, "x", None)).unwrap();
    let id = 0xa1a2a3a4b1b2c1c2d1d2d3d4d5d6d7d8;
    tag_dip(&mut db, 5, Tag::stamped(id, 0, "work")).unwrap();
    assert_eq!(
        tags_for(&db, 5),
        DipTags::of(vec![TagMeta {
            id: "a1a2a3a4-b1b2-c1c2-d1d2-d3d4d5d6d7d8".to_string(),
            name: "work".to_string(),
        }])
    );
    assert_eq!(tags_for(&db, 5).tags()[0].id, uuid::Uuid::from_u128(id).to_string());
    assert_eq!(tags_for(&db, 6), DipTags::of(vec![]));
}

#[test]
fn insert_refuses_what_breaks_the_store() {
    let mut db = Database::new();
    assert_eq!(insert(&mut db, Dip::stamped(1, 0, Some(9), "x", None)), Err(StoreError::NoSuchScope));
    assert_eq!(db, Database::new());
    assert_eq!(db_insert(&mut db, DirContext::stamped(9, 0, "/a", None, None)), Ok(()));
    assert_eq!(insert(&mut db, Dip::stamped(1, 0, Some(9), "x", None)), Ok(()));
    let before = db.clone();
    assert_eq!(insert(&mut db, Dip::stamped(2, 0, Some(9), "x", Some("n"))), Err(StoreError::AlreadyExists));
    assert_eq!(insert(&mut db, Dip::stamped(1, 0, Some(9), "y", None)), Err(StoreError::IdTaken));
    assert_eq!(insert(&mut db, Dip::stamped(1, 0, Some(8), "x", None)), Err(StoreError::NoSuchScope));
    assert_eq!(db, before);
    assert_eq!(insert(&mut db, Dip::stamped(2, 0, None, "x", None)), Ok(()));
    assert_eq!(db.dips.len(), 2);
}

#[test]
fn create_refuses_what_is_noted_or_has_no_scope() {
    let mut db = Database::new();
    assert_eq!(create(&mut db, Some(9), "x", None), Err(StoreError::NoSuchScope));
    let dip = create(&mut db, None, "x", Some("a note")).unwrap();
    assert_eq!(dip.value, "x");
    assert_eq!(dip.note, Some("a note".to_string()));
    assert_eq!(dip.dir_context_id, None);
    assert_eq!(db.dips, vec![dip]);
    assert_eq!(create(&mut db, None, "x", None), Err(StoreError::AlreadyExists));
    assert_eq!(db.dips.len(), 1);
}

#[test]
fn scopes_are_stored_once_per_place() {
    let mut db = Database::new();
    let scope = db_create(&mut db, "/a", Some("a".to_string()), Some("r".to_string())).unwrap();
    assert_eq!(scope.dir_path, "/a");
    assert_eq!(scope.git_dir_name, Some("a".to_string()));
    assert_eq!(scope.git_remote, Some("r".to_string()));
    assert_eq!(scope.created_at, scope.updated_at);
    assert_eq!(db.dir_contexts, vec![scope.clone()]);
    assert_eq!(
        db_create(&mut db, "/a", Some("a".to_string()), Some("r".to_string())),
        Err(StoreError::AlreadyExists)
    );
    assert_eq!(db_insert(&mut db, DirContext::stamped(scope.id, 0, "/b", None, None)), Err(StoreError::IdTaken));
    assert_eq!(
        db_insert(&mut db, DirContext::stamped(scope.id, 0, "/a", Some("a".to_string()), Some("r".to_string()))),
        Err(StoreError::AlreadyExists)
    );
    assert_eq!(db.dir_contexts.len(), 1);
    assert!(db_create(&mut db, "/a", None, Some("r".to_string())).is_ok());
    assert_eq!(db.dir_contexts.len(), 2);
}

#[test]
fn find_one_looks_at_path_remote_and_directory_name_together() {
    let mut db = Database::new();
    db_insert(&mut db, DirContext::stamped(1, 0, "/a", Some("a".to_string()), Some("ra".to_string()))).unwrap();
    db_insert(&mut db, DirContext::stamped(2, 0, "/b", None, None)).unwrap();
    db_insert(&mut db, DirContext::stamped(3, 0, "/a", None, Some("ra".to_string()))).unwrap();
    assert_eq!(db_find_one(&db, "/b", None, None).unwrap().id, 2);
    assert_eq!(db_find_one(&db, "/a", Some("a"), Some("ra")).unwrap().id, 1);
    assert_eq!(db_find_one(&db, "/a", None, Some("ra")).unwrap().id, 3);
    assert_eq!(db_find_one(&db, "/x", None, Some("ra")), None);
    assert_eq!(db_find_one(&db, "/x", Some("a"), None), None);
    assert_eq!(db_find_one(&db, "/b", Some("a"), None), None);
    assert_eq!(db_find_one(&db, "/a", Some("a"), None), None);
    assert_eq!(db_find_one(&db, "/a", None, None), None);
    assert_eq!(db_find_one(&db, "/a", Some("ra"), Some("a")), None);
    assert_eq!(db_find_one(&db, "/a/b", None, None), None);
    assert!(matches_place(&db.dir_contexts[1], "/b", None, None));
    assert!(!matches_place(&db.dir_contexts[1], "/c", None, None));
    assert!(!matches_place(&db.dir_contexts[1], "/b", Some("b"), None));
    assert!(matches_place(&db.dir_contexts[0], "/a", Some("a"), Some("ra")));
    assert!(!matches_place(&db.dir_contexts[0], "/a", Some("a"), Some("other")));
}

#[test]
fn find_or_create_makes_a_scope_only_where_the_place_is_not_stored() {
    let mut db = Database::new();
    let made = db_find_or_create(&mut db, "/a", None, Some("r".to_string())).unwrap();
    assert_eq!(made.dir_path, "/a");
    assert_eq!(made.git_remote, Some("r".to_string()));
    assert_eq!(db.dir_contexts, vec![made.clone()]);
    let found = db_find_or_create(&mut db, "/a", None, Some("r".to_string())).unwrap();
    assert_eq!(found, made);
    assert_eq!(db.dir_contexts.len(), 1);
    let elsewhere = db_find_or_create(&mut db, "/elsewhere", None, Some("r".to_string())).unwrap();
    assert_ne!(elsewhere.id, made.id);
    assert_eq!(elsewhere.dir_path, "/elsewhere");
    assert_eq!(db.dir_contexts, vec![made.clone(), elsewhere.clone()]);
    let repo = GitRepository { path: "/p".to_string(), dir_name: "p".to_string(), remote: None };
    let other = get_or_create_current(&mut db, "/p/src", Some(repo.clone())).unwrap();
    assert_eq!(other.dir_path, "/p/src");
    assert_eq!(other.git_dir_name, Some("p".to_string()));
    assert_eq!(other.git_remote, None);
    assert_eq!(db.dir_contexts.len(), 3);
    let again = get_or_create_current(&mut db, "/p/src", Some(repo)).unwrap();
    assert_eq!(again, other);
    assert_eq!(db.dir_contexts.len(), 3);
    let outside = get_or_create_current(&mut db, "/p/src", None).unwrap();
    assert_ne!(outside.id, other.id);
    assert_eq!(outside.git_dir_name, None);
    assert_eq!(db.dir_contexts.len(), 4);
}

#[test]
fn scopes_filter_searches_path_and_remote() {
    let mut db = Database::new();
    db_insert(&mut db, DirContext::stamped(1, 0, "/home/Me/Alpha", None, Some("https://example.org/x.git".to_string()))).unwrap();
    db_insert(&mut db, DirContext::stamped(2, 0, "/srv/beta", None, None)).unwrap();
    db_insert(&mut db, DirContext::stamped(3, 0, "/srv/gamma", None, Some("git@HOST:ALPHA.git".to_string()))).unwrap();
    let ids = |filter: ScopesFilter| -> Vec<u128> {
        dips::models::dir_context::get_filtered(&db, filter).iter().map(|s| s.id).collect()
    };
    assert_eq!(ids(ScopesFilter::new()), vec![1, 2, 3]);
    assert_eq!(ids(ScopesFilter::new().with_search("")), vec![1, 2, 3]);
    assert_eq!(ids(ScopesFilter::new().with_search("alpha")), vec![1, 3]);
    assert_eq!(ids(ScopesFilter::new().with_search("SRV")), vec![2, 3]);
    assert_eq!(ids(ScopesFilter::new().with_search("example")), vec![1]);
    assert_eq!(ids(ScopesFilter::new().with_search("nothing")), Vec::<u128>::new());
    assert_eq!(ScopesFilter::new().with_search("x").search(), Some("x"));
    assert_eq!(ScopesFilter::new().search(), None);
}

#[test]
fn lookups_in_the_store() {
    let mut db = Database::new();
    db_insert(&mut db, DirContext::stamped(9, 0, "/a", None, None)).unwrap();
    insert(&mut db, Dip::stamped(1, 0, Some(9), "x", None)).unwrap();
    insert(&mut db, Dip::stamped(2, 0, None, "y", None)).unwrap();
    tag_dip(&mut db, 2, Tag::stamped(4, 0, "work")).unwrap();
    assert_eq!(db.dip_index(2), Some(1));
    assert_eq!(db.dip_index(3), None);
    assert_eq!(db.scope_index(9), Some(0));
    assert_eq!(db.scope_index(1), None);
    assert_eq!(db.tag_index(4), Some(0));
    assert_eq!(db.tag_index(5), None);
    assert_eq!(db.tag_index_by_name("work"), Some(0));
    assert_eq!(db.tag_index_by_name("Work"), None);
    assert!(db.is_tagged(2, 4));
    assert!(!db.is_tagged(1, 4));
    assert!(!db.is_tagged(2, 5));
}

#[test]
fn changes_list_what_is_new_and_what_is_gone() {
    let mut db = Database::new();
    assert_eq!(changes(&db, &db), vec![]);
    let before = db.clone();
    let dip = added(add(&mut db, &place("/a"), "x", Some("work"), false));
    let scope = db.dir_contexts[0].clone();
    let tag_id = db.tags[0].id;
    assert_eq!(
        changes(&before, &db),
        vec![
            Change::InsertScope(scope.clone()),
            Change::InsertTag(Tag::stamped(tag_id, db.tags[0].created_at, "work")),
            Change::InsertDip(dip.clone()),
            Change::InsertLink(DipTag { dip_id: dip.id, tag_id }),
        ]
    );
    assert_eq!(changes(&db, &db), vec![]);
    let full = db.clone();
    let other = added(add(&mut db, &place("/a"), "y", None, false));
    assert_eq!(changes(&full, &db), vec![Change::InsertDip(other.clone())]);
    let both = db.clone();
    delete(&mut db, &dip.id);
    assert_eq!(
        changes(&both, &db),
        vec![Change::DeleteLink(DipTag { dip_id: dip.id, tag_id }), Change::DeleteDip(dip.id)]
    );
    assert_eq!(
        changes(&db, &before),
        vec![Change::DeleteDip(other.id)]
    );
    assert_eq!(
        changes(&full, &Database::new()),
        vec![Change::DeleteLink(DipTag { dip_id: dip.id, tag_id }), Change::DeleteDip(dip.id)]
    );
}
