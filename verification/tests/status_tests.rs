use collaborate::status::{buffer_display, mode_color, mode_label, user_count};
use collaborate::store::local_id;
use collaborate::types::VimMode;

#[test]
fn mode_badges() {
    assert_eq!(mode_label(VimMode::Normal), "NORMAL");
    assert_eq!(mode_label(VimMode::Command), "COMMAND");
    assert_eq!(mode_color(VimMode::Insert), "#f59e0b");
    assert_eq!(mode_color(VimMode::Visual), "#a855f7");
}

#[test]
fn bottom_bar_shows_the_command_line_or_pending_keys() {
    assert_eq!(buffer_display(VimMode::Command, "d", "color #fff"), ":color #fff");
    assert_eq!(buffer_display(VimMode::Normal, "d", ""), "d");
    assert_eq!(buffer_display(VimMode::Command, "", ""), ":");
}

#[test]
fn one_user_is_oneself() {
    assert_eq!(user_count(0), 1);
    assert_eq!(user_count(3), 4);
}

#[test]
fn local_ids_mix_time_and_chance() {
    assert_eq!(local_id(1_700_000_000_000, 42), 1_700_000_000_000_000_042);
    assert!(local_id(1001, 0) > 1_000_000_000);
}
