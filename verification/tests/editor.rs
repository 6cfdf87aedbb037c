use ved::app::App;
use ved::mode::Key;
use ved::mode::Mode;
use ved::mode::Target;

fn chars(s: &str) -> Vec<char> {
    s.chars().collect()
}

fn string_of(v: &Vec<char>) -> String {
    v.iter().collect()
}

fn app_on(text: &str) -> App {
    App::new(chars("test.txt"), Some(chars(text)))
}

fn line(app: &App, i: usize) -> String {
    string_of(app.line_at(i))
}

#[test]
fn fresh_app_starts_in_normal_mode_at_origin() {
    let app = app_on("abc");
    assert_eq!(app.mode(), Mode::Normal);
    assert!(!app.should_exit());
    assert_eq!(app.cursor_row(), 0);
    assert_eq!(app.cursor_col(), 0);
    assert_eq!(app.target_col(), Target::Col(0));
    assert_eq!(string_of(app.command_chars()), "");
}

#[test]
fn insert_then_backspace_restores_line_and_column() {
    let mut app = app_on("abc");
    app.handle_ch_normal('l');
    app.handle_ch_normal('i');
    app.handle_ch_insert('Z');
    assert_eq!(line(&app, 0), "aZbc");
    assert_eq!(app.cursor_col(), 2);
    app.handle_keycode_insert(Key::Backspace);
    assert_eq!(line(&app, 0), "abc");
    assert_eq!(app.cursor_col(), 1);
}

#[test]
fn split_then_backspace_restores_single_line() {
    let mut app = app_on("abcd");
    app.handle_ch_normal('l');
    app.handle_ch_normal('l');
    app.handle_ch_normal('i');
    app.handle_keycode_insert(Key::Enter);
    assert_eq!(app.line_count(), 2);
    assert_eq!(line(&app, 0), "ab");
    assert_eq!(line(&app, 1), "cd");
    assert_eq!(app.cursor_row(), 1);
    assert_eq!(app.cursor_col(), 0);
    app.handle_keycode_insert(Key::Backspace);
    assert_eq!(app.line_count(), 1);
    assert_eq!(line(&app, 0), "abcd");
    assert_eq!(app.cursor_row(), 0);
    assert_eq!(app.cursor_col(), 2);
}

#[test]
fn sticky_column_survives_a_short_line() {
    let mut app = app_on("abcdef\nx\nabcdef");
    for _ in 0..4 {
        app.handle_ch_normal('l');
    }
    assert_eq!(app.cursor_col(), 4);
    app.handle_ch_normal('j');
    assert_eq!(app.cursor_row(), 1);
    assert_eq!(app.cursor_col(), 0);
    app.handle_ch_normal('j');
    assert_eq!(app.cursor_row(), 2);
    assert_eq!(app.cursor_col(), 4);
    app.handle_ch_normal('k');
    app.handle_ch_normal('k');
    assert_eq!(app.cursor_row(), 0);
    assert_eq!(app.cursor_col(), 4);
    assert_eq!(app.target_col(), Target::Col(4));
}

#[test]
fn sticky_end_pins_to_each_line_end() {
    let mut app = app_on("abc\nz\ndefgh");
    app.handle_ch_normal('$');
    assert_eq!(app.cursor_col(), 2);
    assert_eq!(app.target_col(), Target::End);
    app.handle_ch_normal('j');
    assert_eq!(app.cursor_col(), 0);
    app.handle_ch_normal('j');
    assert_eq!(app.cursor_col(), 4);
}

#[test]
fn l_walks_to_line_end_and_escape_clamps() {
    let mut app = app_on("abc");
    app.handle_ch_normal('l');
    app.handle_ch_normal('l');
    app.handle_ch_normal('l');
    assert_eq!(app.cursor_col(), 3);
    let mut app = app_on("abc");
    app.handle_ch_normal('A');
    assert_eq!(app.mode(), Mode::Insert);
    assert_eq!(app.cursor_col(), 3);
    app.handle_keycode_insert(Key::Esc);
    assert_eq!(app.mode(), Mode::Normal);
    assert_eq!(app.cursor_col(), 2);
    assert_eq!(app.target_col(), Target::Col(2));
}

#[test]
fn open_below_type_and_save_round_trip() {
    let mut app = App::new(chars("new.txt"), None);
    assert_eq!(app.line_count(), 1);
    assert_eq!(line(&app, 0), "");
    app.handle_ch_normal('o');
    assert_eq!(app.mode(), Mode::Insert);
    assert_eq!(app.cursor_row(), 1);
    app.handle_key(Key::Char('h'));
    app.handle_key(Key::Char('i'));
    app.handle_key(Key::Esc);
    assert_eq!(app.mode(), Mode::Normal);
    app.handle_key(Key::Char(':'));
    assert_eq!(app.mode(), Mode::Command);
    app.handle_key(Key::Char('w'));
    app.handle_key(Key::Char('q'));
    let write = app.handle_key(Key::Enter);
    assert!(write);
    assert!(app.should_exit());
    assert_eq!(app.mode(), Mode::Normal);
    assert_eq!(string_of(&app.buffer_text()), "\nhi");
}

#[test]
fn unknown_command_reports_and_returns_to_normal() {
    let mut app = app_on("abc");
    app.handle_ch_normal(':');
    app.handle_key(Key::Char('x'));
    app.handle_key(Key::Char('y'));
    app.handle_key(Key::Char('z'));
    let write = app.handle_key(Key::Enter);
    assert!(!write);
    assert_eq!(string_of(app.command_chars()), "Unknown command: xyz");
    assert_eq!(app.mode(), Mode::Normal);
    assert!(!app.should_exit());
}

#[test]
fn bare_colon_is_an_unknown_command() {
    let mut app = app_on("abc");
    app.handle_ch_normal(':');
    app.handle_key(Key::Enter);
    assert_eq!(string_of(app.command_chars()), "Unknown command: ");
    assert_eq!(app.mode(), Mode::Normal);
}

#[test]
fn quit_command_sets_exit_flag_without_write() {
    let mut app = app_on("abc");
    app.handle_ch_normal(':');
    app.handle_key(Key::Char('q'));
    let write = app.handle_key(Key::Enter);
    assert!(!write);
    assert!(app.should_exit());
}

#[test]
fn qw_writes_and_quits_like_wq() {
    let mut app = app_on("abc");
    app.handle_ch_normal(':');
    app.handle_key(Key::Char('q'));
    app.handle_key(Key::Char('w'));
    let write = app.handle_key(Key::Enter);
    assert!(write);
    assert!(app.should_exit());
}

#[test]
fn write_command_asks_for_a_write_and_keeps_running() {
    let mut app = app_on("abc");
    app.handle_ch_normal(':');
    app.handle_key(Key::Char('w'));
    let write = app.handle_key(Key::Enter);
    assert!(write);
    assert!(!app.should_exit());
}

#[test]
fn write_result_messages() {
    let mut app = app_on("abc");
    app.apply_write_result(true, 1234);
    assert_eq!(string_of(app.command_chars()), "\"test.txt\", 1234KB written");
    app.apply_write_result(false, 0);
    assert_eq!(string_of(app.command_chars()), "Could not write to file.");
}

#[test]
fn write_result_byte_counts_print_in_decimal() {
    let mut app = app_on("abc");
    app.apply_write_result(true, 0);
    assert_eq!(string_of(app.command_chars()), "\"test.txt\", 0KB written");
    app.apply_write_result(true, 18446744073709551615);
    assert_eq!(
        string_of(app.command_chars()),
        "\"test.txt\", 18446744073709551615KB written"
    );
}

#[test]
fn command_backspace_never_eats_the_colon() {
    let mut app = app_on("abc");
    app.handle_ch_normal(':');
    app.handle_key(Key::Char('q'));
    app.handle_key(Key::Backspace);
    assert_eq!(string_of(app.command_chars()), ":");
    app.handle_key(Key::Backspace);
    assert_eq!(string_of(app.command_chars()), ":");
}

#[test]
fn command_escape_abandons_the_command() {
    let mut app = app_on("abc");
    app.handle_ch_normal(':');
    app.handle_key(Key::Char('q'));
    app.handle_key(Key::Esc);
    assert_eq!(string_of(app.command_chars()), "");
    assert_eq!(app.mode(), Mode::Normal);
    assert!(!app.should_exit());
}

#[test]
fn backspace_at_line_start_joins_lines() {
    let mut app = app_on("ab\ncd");
    app.handle_ch_normal('j');
    app.handle_ch_normal('i');
    app.handle_keycode_insert(Key::Backspace);
    assert_eq!(app.line_count(), 1);
    assert_eq!(line(&app, 0), "abcd");
    assert_eq!(app.cursor_row(), 0);
    assert_eq!(app.cursor_col(), 2);
}

#[test]
fn backspace_at_buffer_start_does_nothing() {
    let mut app = app_on("ab");
    app.handle_ch_normal('i');
    app.handle_keycode_insert(Key::Backspace);
    assert_eq!(line(&app, 0), "ab");
    assert_eq!(app.cursor_col(), 0);
}

#[test]
fn x_deletes_under_cursor_and_is_noop_on_empty_line() {
    let mut app = app_on("abc");
    app.handle_ch_normal('x');
    assert_eq!(line(&app, 0), "bc");
    assert_eq!(app.cursor_col(), 0);
    let mut empty = app_on("");
    empty.handle_ch_normal('x');
    assert_eq!(empty.line_count(), 1);
    assert_eq!(line(&empty, 0), "");
}

#[test]
fn x_past_the_end_deletes_the_last_character() {
    let mut app = app_on("ab");
    app.handle_ch_normal('l');
    app.handle_ch_normal('l');
    assert_eq!(app.cursor_col(), 2);
    app.handle_ch_normal('x');
    assert_eq!(line(&app, 0), "a");
    assert_eq!(app.cursor_col(), 0);
}

#[test]
fn jumps_clamp_on_an_empty_line() {
    let mut app = app_on("");
    app.handle_ch_normal('$');
    assert_eq!(app.cursor_col(), 0);
    app.handle_ch_normal('G');
    assert_eq!(app.cursor_row(), 0);
    assert_eq!(app.cursor_col(), 0);
}

#[test]
fn movement_clamps_at_the_edges() {
    let mut app = app_on("a");
    app.handle_ch_normal('h');
    assert_eq!(app.cursor_col(), 0);
    app.handle_ch_normal('k');
    assert_eq!(app.cursor_row(), 0);
    app.handle_ch_normal('j');
    assert_eq!(app.cursor_row(), 0);
}

#[test]
fn g_and_cap_g_jump_to_the_buffer_ends() {
    let mut app = app_on("ab\ncdef");
    app.handle_ch_normal('G');
    assert_eq!(app.cursor_row(), 1);
    assert_eq!(app.cursor_col(), 3);
    assert_eq!(app.target_col(), Target::End);
    app.handle_ch_normal('g');
    assert_eq!(app.cursor_row(), 0);
    assert_eq!(app.cursor_col(), 0);
    assert_eq!(app.target_col(), Target::Col(0));
}

#[test]
fn open_above_keeps_the_row_on_the_new_line() {
    let mut app = app_on("ab");
    app.handle_ch_normal('O');
    assert_eq!(app.mode(), Mode::Insert);
    assert_eq!(app.line_count(), 2);
    assert_eq!(line(&app, 0), "");
    assert_eq!(line(&app, 1), "ab");
    assert_eq!(app.cursor_row(), 0);
    assert_eq!(app.cursor_col(), 0);
}

#[test]
fn a_appends_after_the_cursor_but_not_on_an_empty_line() {
    let mut app = app_on("ab");
    app.handle_ch_normal('a');
    assert_eq!(app.mode(), Mode::Insert);
    assert_eq!(app.cursor_col(), 1);
    let mut empty = app_on("");
    empty.handle_ch_normal('a');
    assert_eq!(empty.cursor_col(), 0);
}

#[test]
fn cap_i_enters_insert_at_line_start() {
    let mut app = app_on("ab");
    app.handle_ch_normal('l');
    app.handle_ch_normal('I');
    assert_eq!(app.mode(), Mode::Insert);
    assert_eq!(app.cursor_col(), 0);
    assert_eq!(app.target_col(), Target::Col(0));
}

#[test]
fn enter_at_line_end_opens_an_empty_line() {
    let mut app = app_on("ab");
    app.handle_ch_normal('A');
    app.handle_keycode_insert(Key::Enter);
    assert_eq!(app.line_count(), 2);
    assert_eq!(line(&app, 0), "ab");
    assert_eq!(line(&app, 1), "");
    assert_eq!(app.cursor_row(), 1);
    assert_eq!(app.cursor_col(), 0);
}

#[test]
fn cursor_position_for_the_terminal() {
    let mut app = app_on("abc");
    assert_eq!(app.get_cur_pos(10), (1, 1));
    app.handle_ch_normal('l');
    app.handle_ch_normal('j');
    assert_eq!(app.get_cur_pos(10), (2, 1));
    app.handle_ch_normal(':');
    app.handle_key(Key::Char('w'));
    assert_eq!(app.get_cur_pos(10), (2, 9));
}

#[test]
fn visible_text_joins_the_viewport() {
    let app = app_on("ab\ncd");
    assert_eq!(string_of(&app.visible_text()), "ab\ncd");
    let one = app_on("xyz");
    assert_eq!(string_of(&one.visible_text()), "xyz");
}

#[test]
fn other_keys_are_ignored_in_every_mode() {
    let mut app = app_on("ab");
    app.handle_key(Key::Other);
    assert_eq!(app.mode(), Mode::Normal);
    assert_eq!(line(&app, 0), "ab");
    app.handle_ch_normal('i');
    app.handle_key(Key::Other);
    assert_eq!(line(&app, 0), "ab");
    app.handle_key(Key::Esc);
    app.handle_ch_normal(':');
    app.handle_key(Key::Other);
    assert_eq!(string_of(app.command_chars()), ":");
}
