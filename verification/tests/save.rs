use bevy_driver::save::{file_name_char, filename, save_exists, CurrentSave, SaveData};

#[test]
fn file_name_keeps_letters_digits_underscores_and_hyphens() {
    assert_eq!(filename("Anna_2-b"), "Anna_2-b.json");
    assert_eq!(filename(""), ".json");
}

#[test]
fn file_name_replaces_every_other_character() {
    assert_eq!(filename("a b"), "a_b.json");
    assert_eq!(filename("../etc/passwd"), "___etc_passwd.json");
    assert_eq!(filename("a.json"), "a_json.json");
    assert_eq!(filename("!?*"), "___.json");
}

#[test]
fn file_name_keeps_letters_and_digits_of_other_scripts() {
    assert_eq!(filename("Zoë Ωmega ٣"), "Zoë_Ωmega_٣.json");
    assert_eq!(filename("名前"), "名前.json");
    assert_eq!(filename("a\u{1F600}b"), "a_b.json");
}

#[test]
fn file_name_character_depends_on_the_class_that_it_is_given() {
    assert_eq!(file_name_char('a', true), 'a');
    assert_eq!(file_name_char('a', false), '_');
    assert_eq!(file_name_char(' ', false), '_');
    assert_eq!(file_name_char(' ', true), ' ');
    assert_eq!(file_name_char('_', false), '_');
    assert_eq!(file_name_char('-', false), '-');
}

#[test]
fn save_exists_when_its_file_is_among_the_files() {
    let files = vec!["Anna.json".to_string(), "a_b.json".to_string(), "notes.txt".to_string()];
    assert!(save_exists("Anna", &files));
    assert!(save_exists("a b", &files));
    assert!(save_exists("a_b", &files));
    assert!(!save_exists("anna", &files));
    assert!(!save_exists("notes.txt", &files));
    assert!(!save_exists("Ann", &files));
    assert!(!save_exists("Anna", &Vec::new()));
}

#[test]
fn new_save_has_the_first_level_unlocked() {
    let save = SaveData::new("Anna".to_string(), 1_700_000_000);
    assert_eq!(save.player_name, "Anna");
    assert_eq!(save.highest_level_unlocked, 1);
    assert!(save.level_times.is_empty());
    assert_eq!(save.created_at, 1_700_000_000);
    assert_eq!(save.last_played, 1_700_000_000);
    assert_eq!(save.filename(), "Anna.json");
    assert_eq!(save.get_best_time(1), None);
}

#[test]
fn first_completion_is_a_best_time_and_unlocks_the_next_level() {
    let mut save = SaveData::new("Anna".to_string(), 100);
    assert!(save.record_level_completion(1, 30_000_000, 200));
    assert_eq!(save.highest_level_unlocked, 2);
    assert_eq!(save.get_best_time(1), Some(30_000_000));
    assert_eq!(save.last_played, 200);
    assert_eq!(save.created_at, 100);
}

#[test]
fn only_a_shorter_time_is_a_new_best() {
    let mut save = SaveData::new("Anna".to_string(), 100);
    save.record_level_completion(1, 30_000_000, 200);
    assert!(!save.record_level_completion(1, 30_000_000, 300));
    assert!(!save.record_level_completion(1, 31_000_000, 400));
    assert_eq!(save.get_best_time(1), Some(30_000_000));
    assert_eq!(save.last_played, 400);
    assert!(save.record_level_completion(1, 29_999_999, 500));
    assert_eq!(save.get_best_time(1), Some(29_999_999));
    assert_eq!(save.highest_level_unlocked, 2);
}

#[test]
fn completing_a_level_below_the_highest_unlocks_nothing() {
    let mut save = SaveData::new("Anna".to_string(), 100);
    save.record_level_completion(5, 1, 200);
    assert_eq!(save.highest_level_unlocked, 6);
    save.record_level_completion(2, 1, 300);
    assert_eq!(save.highest_level_unlocked, 6);
    save.record_level_completion(6, 1, 300);
    assert_eq!(save.highest_level_unlocked, 7);
    assert_eq!(save.get_best_time(2), Some(1));
    assert_eq!(save.get_best_time(3), None);
}

#[test]
fn current_save_is_set_changed_and_cleared() {
    let mut current = CurrentSave::default();
    assert!(current.get().is_none());
    assert!(current.get_mut().is_none());
    current.set(SaveData::new("Anna".to_string(), 100));
    assert_eq!(current.get().map(|s| s.player_name.as_str()), Some("Anna"));
    if let Some(save) = current.get_mut() {
        save.record_level_completion(1, 5, 200);
    }
    assert_eq!(current.get().and_then(|s| s.get_best_time(1)), Some(5));
    current.clear();
    assert!(current.get().is_none());
}

#[test]
fn save_played_later_comes_first() {
    let mut early = SaveData::new("a".to_string(), 100);
    let late = SaveData::new("b".to_string(), 200);
    assert!(late.played_later_than(&early));
    assert!(!early.played_later_than(&late));
    assert!(!early.played_later_than(&early));
    early.record_level_completion(1, 5, 300);
    assert!(early.played_later_than(&late));
}
