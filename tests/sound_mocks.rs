use std::collections::HashMap;

#[derive(Debug, Clone)]
struct MockAudioSource {
    is_playing: bool,
}

impl MockAudioSource {
    fn new() -> Self {
        Self { is_playing: false }
    }
}

struct TestGameSounds {
    sounds: HashMap<String, MockAudioSource>,
    background_playing: bool,
}

impl TestGameSounds {
    fn new() -> Self {
        let mut sounds = HashMap::new();
        let sound_names = ["move", "rotate", "drop", "clear", "tetris", "game_over"];
        for name in sound_names.iter() {
            sounds.insert(name.to_string(), MockAudioSource::new());
        }
        Self { sounds, background_playing: false }
    }
}

#[test]
fn tests_test_new_game_sounds() {
    let game_sounds = TestGameSounds::new();
    assert!(!game_sounds.background_playing);
    assert_eq!(game_sounds.sounds.len(), 6);
    assert!(game_sounds.sounds.values().all(|s| !s.is_playing));
}

#[test]
fn sound_manager_test_new_game_sounds() {
    let game_sounds = TestGameSounds::new();
    assert!(!game_sounds.background_playing);
    assert_eq!(game_sounds.sounds.len(), 6);
}

#[test]
fn sound_test_test_new_game_sounds() {
    let game_sounds = TestGameSounds::new();
    assert!(!game_sounds.background_playing);
    assert_eq!(game_sounds.sounds.len(), 6);
}

#[test]
fn sound_integration_test_sound_loading() {
    let game_sounds = TestGameSounds::new();
    let expected_sounds = ["move", "rotate", "drop", "clear", "tetris", "game_over"];
    for sound_name in expected_sounds.iter() {
        assert!(game_sounds.sounds.contains_key(*sound_name), "Sound {} should be loaded", sound_name);
    }
}
