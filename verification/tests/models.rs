use dips::commands::bus::TerminalEvent;
use dips::commands::get::{exec, render_items};
use dips::commands::keymap::{KeyCode, KeyEvent, KeyEventKind, KeyModifiers};
use dips::commands::recipe::{get_recipe_list, keeps_recipe};
use dips::configuration::{
    ensure_initialized, join_path, ConfigError, DatabaseSettings, Environment, Settings,
    Surroundings,
};
use dips::database::Database;
use dips::game::app::App;
use dips::game::ui::{handle_events, handle_key_event};
use dips::models::context_group::ContextGroup;
use dips::models::dip::{create, Dip, DipTags};
use dips::models::dir_context::{db_insert, DirContext, RuntimeDirContext};
use dips::models::tag::{Tag, TagMeta};
use dips::text::{
    char_count, chars_of, find, first_index_of, found_at, has_part, has_part_ignore_case,
    has_prefix, same_optional_text, same_text, split_at_char, text_of, to_lower, to_lower_char,
};

fn meta(id: &str, name: &str) -> TagMeta {
    TagMeta { id: id.to_string(), name: name.to_string() }
}

fn strings(items: &[&str]) -> Vec<String> {
    items.iter().map(|s| s.to_string()).collect()
}

#[test]
fn tags_are_read_from_a_list() {
    assert_eq!(DipTags::parse("1:work,2:home"), DipTags::of(vec![meta("1", "work"), meta("2", "home")]));
    assert_eq!(DipTags::parse("a-b:c d"), DipTags::of(vec![meta("a-b", "c d")]));
    assert_eq!(DipTags::parse(""), DipTags::of(vec![]));
    assert_eq!(DipTags::parse(","), DipTags::of(vec![]));
    assert_eq!(DipTags::parse("work"), DipTags::of(vec![]));
    assert_eq!(DipTags::parse("1:a:b,2:ok"), DipTags::of(vec![meta("2", "ok")]));
    assert_eq!(DipTags::parse(":"), DipTags::of(vec![meta("", "")]));
    assert_eq!(DipTags::parse("1:,:x"), DipTags::of(vec![meta("1", ""), meta("", "x")]));
    assert_eq!(DipTags::parse("1:a,,2:b,"), DipTags::of(vec![meta("1", "a"), meta("2", "b")]));
    assert_eq!(DipTags::parse(" 1 : a "), DipTags::of(vec![meta(" 1 ", " a ")]));
}

#[test]
fn tags_are_shown_with_blanks_between() {
    assert_eq!(DipTags::of(vec![]).to_string(), "");
    assert_eq!(DipTags::of(vec![meta("1", "work")]).to_string(), "work");
    assert_eq!(
        DipTags::of(vec![meta("1", "work"), meta("2", "home"), meta("3", "x y")]).to_string(),
        "work home x y"
    );
    assert_eq!(DipTags::of(vec![meta("1", ""), meta("2", "")]).to_string(), " ");
    assert_eq!(DipTags::parse("1:work,2:home").to_string(), "work home");
    assert_eq!(DipTags::parse("1:work,2:home").tags().len(), 2);
}

#[test]
fn split_at_a_character() {
    assert_eq!(split_at_char("a,b,c", ','), strings(&["a", "b", "c"]));
    assert_eq!(split_at_char("", ','), strings(&[""]));
    assert_eq!(split_at_char(",", ','), strings(&["", ""]));
    assert_eq!(split_at_char("a,,b,", ','), strings(&["a", "", "b", ""]));
    assert_eq!(split_at_char("abc", ','), strings(&["abc"]));
    assert_eq!(split_at_char("é:ü", ':'), strings(&["é", "ü"]));
    for text in ["a,b,c", "", ",", "a,,b,", "abc", ",x"] {
        let expected: Vec<String> = text.split(',').map(String::from).collect();
        assert_eq!(split_at_char(text, ','), expected);
    }
}

#[test]
fn text_helpers() {
    assert_eq!(chars_of("héy"), vec!['h', 'é', 'y']);
    assert_eq!(char_count("héy"), 3);
    assert_eq!(char_count(""), 0);
    assert!(same_text("abc", "abc"));
    assert!(!same_text("abc", "abd"));
    assert!(!same_text("abc", "ab"));
    assert!(same_text("", ""));
    assert!(same_optional_text(&None, &None));
    assert!(same_optional_text(&Some("a".to_string()), &Some("a".to_string())));
    assert!(!same_optional_text(&Some("a".to_string()), &None));
    assert!(!same_optional_text(&Some("a".to_string()), &Some("b".to_string())));
    assert_eq!(text_of(&chars_of("hello"), 1, 3), "el");
    assert_eq!(text_of(&chars_of("hello"), 2, 2), "");
    assert_eq!(first_index_of(&chars_of("a b c"), ' '), Some(1));
    assert_eq!(first_index_of(&chars_of("abc"), ' '), None);
}

#[test]
fn lower_casing_is_ascii_only() {
    assert_eq!(to_lower_char('A'), 'a');
    assert_eq!(to_lower_char('Z'), 'z');
    assert_eq!(to_lower_char('a'), 'a');
    assert_eq!(to_lower_char('@'), '@');
    assert_eq!(to_lower_char('['), '[');
    assert_eq!(to_lower_char('É'), 'É');
    assert_eq!(to_lower_char('5'), '5');
    assert_eq!(to_lower(&chars_of("Hello, WORLD É")), chars_of("hello, world É"));
    for c in ['A', 'M', 'Z', 'a', 'z', '0', ' ', 'É', 'ß'] {
        assert_eq!(to_lower_char(c), c.to_ascii_lowercase());
    }
}

#[test]
fn prefixes_and_parts() {
    assert!(has_prefix("/a/b/c", "/a/b"));
    assert!(has_prefix("/a/b", "/a/b"));
    assert!(has_prefix("/a/b", ""));
    assert!(has_prefix("", ""));
    assert!(!has_prefix("/a", "/a/b"));
    assert!(!has_prefix("/a/b", "/b"));
    assert!(!has_prefix("/A/b", "/a"));
    assert!(has_part("hello", "ell"));
    assert!(has_part("hello", ""));
    assert!(has_part("hello", "hello"));
    assert!(has_part("hello", "o"));
    assert!(!has_part("hello", "helloo"));
    assert!(!has_part("hello", "ELL"));
    assert!(!has_part("", "a"));
    assert!(has_part_ignore_case("Hello", "ELL"));
    assert!(has_part_ignore_case("hello", "LO"));
    assert!(!has_part_ignore_case("hello", "lol"));
    assert!(!has_part_ignore_case("é", "É"));
    assert!(found_at(&chars_of("hello"), &chars_of("llo"), 2));
    assert!(!found_at(&chars_of("hello"), &chars_of("llo"), 3));
    assert!(!found_at(&chars_of("hello"), &chars_of("llo"), 9));
    assert!(found_at(&chars_of("hello"), &chars_of(""), 5));
    assert!(!found_at(&chars_of("hello"), &chars_of(""), 6));
    assert!(find(&chars_of("aab"), &chars_of("ab")));
}

#[test]
fn fresh_rows_carry_a_random_identity_and_todays_date() {
    let now = std::time::SystemTime::now()
        .duration_since(std::time::UNIX_EPOCH)
        .unwrap()
        .as_secs() as i64;
    let dip = Dip::new(Some(3), "value", Some("note"));
    assert_eq!(dip.value, "value");
    assert_eq!(dip.note, Some("note".to_string()));
    assert_eq!(dip.dir_context_id, Some(3));
    assert_eq!(dip.context_group_id, None);
    assert_eq!(dip.created_at, dip.updated_at);
    assert_eq!(dip.created_at % 86_400, 0);
    assert!(dip.created_at <= now + 1 && now - dip.created_at < 2 * 86_400);
    let mask = 0x0000_0000_0000_f000_c000_0000_0000_0000u128;
    let marks = 0x0000_0000_0000_4000_8000_0000_0000_0000u128;
    assert_eq!(dip.id & mask, marks);
    assert_eq!(uuid::Uuid::from_u128(dip.id).get_version_num(), 4);
    let other = Dip::new(Some(3), "value", None);
    assert_ne!(dip.id, other.id);

    let scope = DirContext::new("/a", Some("a".to_string()), None);
    assert_eq!(scope.id & mask, marks);
    assert_eq!(scope.dir_path, "/a");
    assert_eq!(scope.git_dir_name, Some("a".to_string()));
    assert_eq!(scope.git_remote, None);
    assert_eq!(scope.created_at, dip.created_at);
    assert_eq!(scope.updated_at, scope.created_at);
    let tag = Tag::new("work");
    assert_eq!(tag.id & mask, marks);
    assert_eq!(tag.name, "work");
    assert_eq!(tag.created_at % 86_400, 0);
    let group = ContextGroup::new("g", Some(1));
    assert_eq!(group.id & mask, marks);
    assert_eq!(group.name, "g");
    assert_eq!(group.dir_context_id, Some(1));
    assert_eq!(group.created_at % 86_400, 0);
}

#[test]
fn stamped_rows_are_as_given() {
    let dip = Dip::stamped(7, 86_400, None, "v", None);
    assert_eq!(
        dip,
        Dip {
            id: 7,
            value: "v".to_string(),
            note: None,
            dir_context_id: None,
            context_group_id: None,
            created_at: 86_400,
            updated_at: 86_400,
        }
    );
    assert_eq!(dip.clone(), dip);
    assert_eq!(Tag::stamped(1, 2, "t"), Tag { id: 1, name: "t".to_string(), created_at: 2 });
}

#[test]
fn environment_follows_the_build() {
    assert_eq!(Environment::current(true), Environment::Development);
    assert_eq!(Environment::current(false), Environment::Production);
}

#[test]
fn store_path_of_each_environment() {
    let nothing = Surroundings { debug_db_path: None, home_dir: None };
    assert_eq!(DatabaseSettings::build(&Environment::Development, &nothing).path, "dips.db");
    let around = Surroundings {
        debug_db_path: Some("/tmp/debug.db".to_string()),
        home_dir: Some("/home/me".to_string()),
    };
    assert_eq!(DatabaseSettings::build(&Environment::Development, &around).path, "/tmp/debug.db");
    assert_eq!(DatabaseSettings::build(&Environment::Production, &around).path, "/home/me/.dips/dips.db");
    assert_eq!(Settings::build(&Environment::Production, &around).database.path, "/home/me/.dips/dips.db");
    assert_eq!(Settings::build(&Environment::Development, &nothing).database.path, "dips.db");
    let root = Surroundings { debug_db_path: None, home_dir: Some("/".to_string()) };
    assert_eq!(DatabaseSettings::build(&Environment::Production, &root).path, "/.dips/dips.db");
    assert_eq!(DatabaseSettings::try_build(&Environment::Production, &nothing), None);
    assert_eq!(
        DatabaseSettings::try_build(&Environment::Production, &around),
        Some(DatabaseSettings { path: "/home/me/.dips/dips.db".to_string() })
    );
    assert_eq!(
        DatabaseSettings::try_build(&Environment::Development, &nothing),
        Some(DatabaseSettings { path: "dips.db".to_string() })
    );
}

#[test]
fn paths_are_joined_with_a_slash() {
    assert_eq!(join_path("/home/me", ".dips"), "/home/me/.dips");
    assert_eq!(join_path("/home/me/", ".dips"), "/home/me/.dips");
    assert_eq!(join_path("", "dips.db"), "dips.db");
    assert_eq!(join_path("/", "x"), "/x");
    for (base, name) in [("/home/me", ".dips"), ("/home/me/", "dips.db"), ("", "x"), ("/", "x"), ("a", "b")] {
        let expected = std::path::Path::new(base).join(name).display().to_string();
        assert_eq!(join_path(base, name), expected);
    }
}

#[test]
fn connection_string_names_sqlite() {
    let settings = DatabaseSettings { path: "/home/me/.dips/dips.db".to_string() };
    assert_eq!(settings.connection_string(), "sqlite:///home/me/.dips/dips.db");
    assert!(!settings.in_memory());
    let memory = DatabaseSettings { path: "sqlite::memory:".to_string() };
    assert_eq!(memory.connection_string(), "sqlite://sqlite::memory:");
    assert!(memory.in_memory());
    assert_eq!(DatabaseSettings { path: String::new() }.connection_string(), "sqlite://");
}

#[test]
fn store_in_a_file_has_to_exist() {
    let file = Settings { database: DatabaseSettings { path: "dips.db".to_string() } };
    assert_eq!(ensure_initialized(&file, true), Ok(()));
    assert_eq!(ensure_initialized(&file, false), Err(ConfigError::Uninitialized));
    let memory = Settings { database: DatabaseSettings { path: ":memory:".to_string() } };
    assert_eq!(ensure_initialized(&memory, false), Ok(()));
    assert_eq!(ensure_initialized(&memory, true), Ok(()));
    assert_eq!(ConfigError::Uninitialized.message(), "Dips is not initialized yet");
}

#[test]
fn game_line_is_typed_into_at_the_cursor() {
    let mut app = App::default();
    assert_eq!(app.input(), "");
    assert_eq!(app.input_cursor_position(0, 0), (1, 1));
    assert!(!app.is_over());
    for c in "héllo".chars() {
        app.enter_char(c);
    }
    assert_eq!(app.input(), "héllo");
    assert_eq!(app.input_cursor_position(10, 20), (16, 21));
    app.delete_char();
    assert_eq!(app.input(), "héll");
    assert_eq!(app.input_cursor_position(10, 20), (15, 21));
    for _ in 0..3 {
        app.delete_char();
    }
    assert_eq!(app.input(), "h");
    app.delete_char();
    assert_eq!(app.input(), "");
    assert_eq!(app.input_cursor_position(3, 4), (4, 5));
    app.delete_char();
    assert_eq!(app.input(), "");
    assert_eq!(app.input_cursor_position(3, 4), (4, 5));
    app.exit();
    assert!(app.is_over());
}

#[test]
fn game_cursor_cell_is_checked() {
    let mut app = App::default();
    app.enter_char('a');
    assert_eq!(app.try_input_cursor_position(0, 0), Some((2, 1)));
    assert_eq!(app.try_input_cursor_position(u16::MAX - 2, 7), Some((u16::MAX, 8)));
    assert_eq!(app.try_input_cursor_position(u16::MAX - 1, 7), None);
    assert_eq!(app.try_input_cursor_position(0, u16::MAX), None);
    assert_eq!(app.try_input_cursor_position(0, u16::MAX - 1), Some((2, u16::MAX)));
}

#[test]
fn game_keys() {
    let none = KeyModifiers {
        shift: false,
        control: false,
        alt: false,
        super_key: false,
        hyper: false,
        meta: false,
    };
    let key = |code| KeyEvent { code, modifiers: none, kind: KeyEventKind::Press };
    let mut app = App::default();
    handle_key_event(key(KeyCode::Char('a')), &mut app);
    handle_key_event(key(KeyCode::Char('b')), &mut app);
    handle_key_event(key(KeyCode::Enter), &mut app);
    handle_key_event(key(KeyCode::Up), &mut app);
    assert_eq!(app.input(), "ab");
    handle_key_event(key(KeyCode::Backspace), &mut app);
    assert_eq!(app.input(), "a");
    let released = KeyEvent { code: KeyCode::Char('z'), modifiers: none, kind: KeyEventKind::Release };
    handle_events(TerminalEvent::Key(released), &mut app);
    handle_events(TerminalEvent::Other, &mut app);
    assert_eq!(app.input(), "a");
    assert!(!app.is_over());
    handle_events(TerminalEvent::Key(key(KeyCode::Char('z'))), &mut app);
    assert_eq!(app.input(), "az");
    handle_events(TerminalEvent::Key(key(KeyCode::Esc)), &mut app);
    assert!(app.is_over());
    assert_eq!(app.input(), "az");
}

#[test]
fn recipes_are_chosen_by_fuzzy_match() {
    let names = || strings(&["axbycz", "rust-cli", "zzz", "abc", ""]);
    assert_eq!(get_recipe_list(names(), None), names());
    assert_eq!(get_recipe_list(names(), Some(String::new())), names());
    assert_eq!(get_recipe_list(names(), Some("abc".to_string())), strings(&["axbycz", "abc"]));
    assert_eq!(get_recipe_list(names(), Some("rc".to_string())), strings(&["rust-cli"]));
    assert_eq!(get_recipe_list(names(), Some("q".to_string())), Vec::<String>::new());
    assert_eq!(get_recipe_list(Vec::new(), Some("q".to_string())), Vec::<String>::new());
}

#[test]
fn recipe_is_kept_for_a_score_above_zero() {
    assert!(keeps_recipe(true, None));
    assert!(keeps_recipe(true, Some(0)));
    assert!(keeps_recipe(false, Some(1)));
    assert!(keeps_recipe(false, Some(i64::MAX)));
    assert!(!keeps_recipe(false, Some(0)));
    assert!(!keeps_recipe(false, Some(-5)));
    assert!(!keeps_recipe(false, None));
}

#[test]
fn listing_on_the_command_line() {
    let mut db = Database::new();
    let ctx = RuntimeDirContext::locate("/a/b".to_string(), true, None).unwrap();
    assert_eq!(exec(&db, &ctx, true), strings(&["No items found."]));
    assert_eq!(exec(&db, &ctx, false), strings(&["Scope: Global", "No items found."]));
    create(&mut db, None, "global one", None).unwrap();
    assert_eq!(exec(&db, &ctx, false), strings(&["Scope: Global", "global one"]));
    db_insert(&mut db, DirContext::stamped(1, 0, "/a", None, None)).unwrap();
    assert_eq!(exec(&db, &ctx, false), strings(&["Scope: /a", "No items found."]));
    create(&mut db, Some(1), "in a", None).unwrap();
    create(&mut db, Some(1), "also in a", None).unwrap();
    assert_eq!(exec(&db, &ctx, false), strings(&["Scope: /a", "in a", "also in a"]));
    assert_eq!(exec(&db, &ctx, true), strings(&["global one", "in a", "also in a"]));
    assert_eq!(render_items(&Vec::new()), strings(&["No items found."]));
}
