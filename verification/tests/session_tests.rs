use ascii_art::mode::{is_video_file, select_mode, Mode};
use ascii_art::session::{poll_timeout_ns, tick_is_over, Field, InteractiveSession, Key, TICK_NS};

#[test]
fn session_starts_at_80_by_50_with_unit_gamma() {
    let session = InteractiveSession::new();
    assert_eq!(session.width(), 80);
    assert_eq!(session.height(), 50);
    assert_eq!(session.gamma_tenths(), 10);
    assert_eq!(session.focus(), Field::Width);
    assert_eq!(session.art(), "");
}

#[test]
fn five_increases_raise_gamma_by_five_tenths() {
    let mut session = InteractiveSession::new();
    session.handle_key(Key::Next);
    session.handle_key(Key::Next);
    assert_eq!(session.focus(), Field::Gamma);
    let initial = session.gamma_tenths() as f32 / 10.0;
    for _ in 0..5 {
        assert!(!session.handle_key(Key::Increase));
    }
    assert_eq!(session.gamma_tenths(), 15);
    let gamma = session.gamma_tenths() as f32 / 10.0;
    assert!((gamma - (initial + 5.0 * 0.1)).abs() < 1e-6);
    assert_eq!(session.width(), 80);
    assert_eq!(session.height(), 50);
}

#[test]
fn keys_adjust_the_focused_field_only() {
    let mut session = InteractiveSession::new();
    session.handle_key(Key::Increase);
    session.handle_key(Key::Increase);
    assert_eq!((session.width(), session.height(), session.gamma_tenths()), (82, 50, 10));
    session.handle_key(Key::Decrease);
    assert_eq!((session.width(), session.height(), session.gamma_tenths()), (81, 50, 10));
    session.handle_key(Key::Next);
    session.handle_key(Key::Decrease);
    session.handle_key(Key::Decrease);
    session.handle_key(Key::Decrease);
    assert_eq!((session.width(), session.height(), session.gamma_tenths()), (81, 47, 10));
    session.handle_key(Key::Next);
    session.handle_key(Key::Decrease);
    assert_eq!((session.width(), session.height(), session.gamma_tenths()), (81, 47, 9));
    session.handle_key(Key::Next);
    session.handle_key(Key::Increase);
    session.handle_key(Key::Decrease);
    assert_eq!((session.width(), session.height(), session.gamma_tenths()), (81, 47, 9));
    session.handle_key(Key::Other);
    assert_eq!((session.width(), session.height(), session.gamma_tenths()), (81, 47, 9));
    assert_eq!(session.focus(), Field::Finish);
}

#[test]
fn focus_moves_cyclically() {
    let mut session = InteractiveSession::new();
    let mut seen = Vec::new();
    for _ in 0..5 {
        seen.push(session.focus());
        session.handle_key(Key::Next);
    }
    assert_eq!(
        seen,
        vec![Field::Width, Field::Height, Field::Gamma, Field::Finish, Field::Width]
    );
    let mut session = InteractiveSession::new();
    let mut seen = Vec::new();
    for _ in 0..5 {
        seen.push(session.focus());
        session.handle_key(Key::Previous);
    }
    assert_eq!(
        seen,
        vec![Field::Width, Field::Finish, Field::Gamma, Field::Height, Field::Width]
    );
    for field in [Field::Width, Field::Height, Field::Gamma, Field::Finish] {
        assert_eq!(field.after().before(), field);
        assert_eq!(field.before().after(), field);
    }
}

#[test]
fn confirm_ends_the_session_only_on_finish() {
    let mut session = InteractiveSession::new();
    for _ in 0..3 {
        assert!(!session.handle_key(Key::Confirm));
        assert!(!session.handle_key(Key::Next));
    }
    assert_eq!(session.focus(), Field::Finish);
    assert!(!session.handle_key(Key::Other));
    assert!(!session.handle_key(Key::Increase));
    assert!(session.handle_key(Key::Confirm));
    assert_eq!((session.width(), session.height(), session.gamma_tenths()), (80, 50, 10));
}

#[test]
fn parameters_stay_within_their_types() {
    let mut session = InteractiveSession::new();
    for _ in 0..100 {
        session.handle_key(Key::Decrease);
    }
    assert_eq!(session.width(), 0);
    session.handle_key(Key::Increase);
    assert_eq!(session.width(), 1);
    session.handle_key(Key::Next);
    session.handle_key(Key::Next);
    for _ in 0..25 {
        session.handle_key(Key::Decrease);
    }
    assert_eq!(session.gamma_tenths(), -15);
}

#[test]
fn session_keeps_the_last_text_grid() {
    let mut session = InteractiveSession::new();
    session.set_art(String::from("#.\n"));
    assert_eq!(session.art(), "#.\n");
    session.handle_key(Key::Increase);
    session.set_art(String::from("##.\n"));
    assert_eq!(session.width(), 81);
    assert_eq!(session.finish(), "##.\n");
}

#[test]
fn marker_follows_the_focus() {
    let mut session = InteractiveSession::new();
    assert_eq!(session.marker(Field::Width), "<");
    assert_eq!(session.marker(Field::Height), "");
    assert_eq!(session.marker(Field::Gamma), "");
    assert_eq!(session.marker(Field::Finish), "");
    session.handle_key(Key::Previous);
    assert_eq!(session.marker(Field::Width), "");
    assert_eq!(session.marker(Field::Finish), "<");
}

#[test]
fn poll_waits_for_the_rest_of_the_tick() {
    assert_eq!(TICK_NS, 33_000_000);
    assert_eq!(poll_timeout_ns(0), 33_000_000);
    assert_eq!(poll_timeout_ns(10_000_000), 23_000_000);
    assert_eq!(poll_timeout_ns(32_999_999), 1);
    assert_eq!(poll_timeout_ns(33_000_000), 0);
    assert_eq!(poll_timeout_ns(u64::MAX), 0);
    assert!(!tick_is_over(0));
    assert!(!tick_is_over(32_999_999));
    assert!(tick_is_over(33_000_000));
    assert!(tick_is_over(40_000_000));
}

#[test]
fn mode_follows_the_file_name_then_the_live_switch() {
    assert_eq!(select_mode("clip.mp4", false), Mode::Video);
    assert_eq!(select_mode("clip.mp4", true), Mode::Video);
    assert_eq!(select_mode("photo.png", true), Mode::Interactive);
    assert_eq!(select_mode("photo.png", false), Mode::Still);
    assert_eq!(select_mode("", false), Mode::Still);
    assert_eq!(select_mode("", true), Mode::Interactive);
    assert_eq!(select_mode(".mp4", false), Mode::Video);
    assert_eq!(select_mode("mp4", false), Mode::Still);
    assert_eq!(select_mode("clip.MP4", false), Mode::Still);
    assert_eq!(select_mode("clip.mp4.png", false), Mode::Still);
    assert_eq!(select_mode("caf\u{e9}.mp4", false), Mode::Video);
    assert!(is_video_file("a/b/c.mp4"));
    assert!(!is_video_file("c.mp3"));
    assert!(!is_video_file("\u{e9}mp4"));
}
