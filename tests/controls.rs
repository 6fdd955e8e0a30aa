use game_of_life::controls::{GoLConfig, GoLKey, GoLKeyboardController, GoLSpeed, KeyInput};
use game_of_life::patterns::{
    get_blinker, get_heavy_weight_spaceship, get_light_weight_spaceship, get_loaf,
    get_middle_weight_spaceship, get_penta_decathlon, get_toad,
};
use game_of_life::schedule::{FrameWindow, StepScheduler, MAX_UPDATE_GAP_US};

fn press(key: GoLKey) -> KeyInput {
    KeyInput { key, pressed: true, repeat: false }
}

fn running(speed: GoLSpeed) -> GoLConfig {
    GoLConfig { is_paused: false, speed }
}

#[test]
fn speed_intervals() {
    assert_eq!(GoLSpeed::Slowest.get_interval(), 1000);
    assert_eq!(GoLSpeed::Slower.get_interval(), 500);
    assert_eq!(GoLSpeed::Slow.get_interval(), 250);
    assert_eq!(GoLSpeed::Normal.get_interval(), 100);
    assert_eq!(GoLSpeed::Fast.get_interval(), 30);
    assert_eq!(GoLSpeed::Faster.get_interval(), 15);
    assert_eq!(GoLSpeed::Fastest.get_interval(), 1);
}

#[test]
fn space_toggles_pause() {
    let controller = GoLKeyboardController::new();
    let mut config = running(GoLSpeed::Normal);
    assert!(controller.handle_input(press(GoLKey::Space), &mut config));
    assert!(config.is_paused);
    assert!(controller.handle_input(press(GoLKey::Space), &mut config));
    assert!(!config.is_paused);
}

#[test]
fn digits_pick_speeds() {
    let controller = GoLKeyboardController::new();
    let mut config = running(GoLSpeed::Normal);
    let keys = [
        (GoLKey::Digit1, GoLSpeed::Slowest),
        (GoLKey::Digit2, GoLSpeed::Slower),
        (GoLKey::Digit3, GoLSpeed::Slow),
        (GoLKey::Digit4, GoLSpeed::Normal),
        (GoLKey::Digit5, GoLSpeed::Fast),
        (GoLKey::Digit6, GoLSpeed::Faster),
        (GoLKey::Digit7, GoLSpeed::Fastest),
    ];
    for (key, speed) in keys {
        assert!(controller.handle_input(press(key), &mut config));
        assert_eq!(config, running(speed));
    }
}

#[test]
fn releases_repeats_and_other_keys_are_ignored() {
    let controller = GoLKeyboardController::new();
    let mut config = running(GoLSpeed::Normal);
    let release = KeyInput { key: GoLKey::Space, pressed: false, repeat: false };
    let repeat = KeyInput { key: GoLKey::Digit1, pressed: true, repeat: true };
    assert!(!controller.handle_input(release, &mut config));
    assert!(!controller.handle_input(repeat, &mut config));
    assert!(!controller.handle_input(press(GoLKey::Other), &mut config));
    assert_eq!(config, running(GoLSpeed::Normal));
}

#[test]
fn scheduler_accumulates_time() {
    let mut s = StepScheduler::new();
    let config = running(GoLSpeed::Normal);
    assert_eq!(s.update(&config, 40000), 0);
    assert_eq!(s.update(&config, 40000), 0);
    assert_eq!(s.update(&config, 40000), 1);
    let fast = running(GoLSpeed::Fastest);
    assert_eq!(s.update(&fast, 16000), 36);
    let fast = running(GoLSpeed::Fast);
    assert_eq!(s.update(&fast, 49000), 1);
    assert_eq!(s.update(&fast, 12000), 1);
}

#[test]
fn scheduler_keeps_fractions_of_a_millisecond() {
    let mut s = StepScheduler::new();
    let fastest = running(GoLSpeed::Fastest);
    assert_eq!(s.update(&fastest, 1500), 1);
    assert_eq!(s.update(&fastest, 600), 1);
    assert_eq!(s.update(&fastest, 899), 0);
    assert_eq!(s.update(&fastest, 1), 1);
}

#[test]
fn scheduler_resets_when_paused_or_late() {
    let mut s = StepScheduler::new();
    let config = running(GoLSpeed::Normal);
    assert_eq!(s.update(&config, 45000), 0);
    assert_eq!(s.update(&config, MAX_UPDATE_GAP_US), 0);
    // The carried time was dropped.
    assert_eq!(s.update(&config, 45000), 0);
    assert_eq!(s.update(&config, 45000), 0);
    assert_eq!(s.update(&config, 10000), 1);
    let paused = GoLConfig { is_paused: true, speed: GoLSpeed::Fastest };
    assert_eq!(s.update(&paused, 30000), 0);
    assert_eq!(s.update(&config, 49000), 0);
}

#[test]
fn frame_window_closes_every_size_plus_one_frames() {
    let mut w = FrameWindow::new(2);
    assert_eq!(w.sample_size(), 2);
    let seen: Vec<bool> = (0..7).map(|_| w.start_frame()).collect();
    assert_eq!(seen, vec![false, false, true, false, false, true, false]);
}

#[test]
fn patterns_hold_their_cells() {
    let p = get_blinker();
    assert_eq!((p.width, p.height), (3, 3));
    assert_eq!(p.data, vec![0, 1, 0, 0, 1, 0, 0, 1, 0]);
    let p = get_loaf();
    assert_eq!((p.width, p.height), (4, 4));
    assert_eq!(p.data, vec![0, 1, 1, 0, 1, 0, 0, 1, 0, 1, 0, 1, 0, 0, 1, 0]);
    let p = get_toad();
    assert_eq!((p.width, p.height), (4, 4));
    assert_eq!(p.data, vec![0, 0, 1, 0, 1, 0, 0, 1, 1, 0, 0, 1, 0, 1, 0, 0]);
    let p = get_light_weight_spaceship();
    assert_eq!((p.width, p.height), (5, 4));
    assert_eq!(p.data.iter().filter(|&&c| c == 1).count(), 9);
    let p = get_middle_weight_spaceship();
    assert_eq!((p.width, p.height), (6, 5));
    assert_eq!(p.data.iter().filter(|&&c| c == 1).count(), 11);
    let p = get_heavy_weight_spaceship();
    assert_eq!((p.width, p.height), (7, 5));
    assert_eq!(p.data.iter().filter(|&&c| c == 1).count(), 13);
    let p = get_penta_decathlon();
    assert_eq!((p.width, p.height), (9, 10));
    assert_eq!(p.data.len(), 90);
    assert_eq!(p.data.iter().filter(|&&c| c == 1).count(), 18);
}
