//! The editor state machine: one `App` value holds the line buffer, the
//! cursor, the viewport, the mode and the command line, and every keystroke
//! handler mutates it in place.
//!
//! Each handler's contract pins the new state down exactly: the spec functions
//! `step_normal`, `step_insert` and `step_command` are the mathematical
//! transition relation, and every handler ensures its result equals the
//! corresponding step of its old state.

use vstd::prelude::*;

use crate::mode::CmdKind;
use crate::mode::Key;
use crate::mode::Mode;
use crate::mode::Target;
use crate::mode::TargetV;
use crate::text::decimal_digits;
use crate::text::extend_chars;
use crate::text::join_lines;
use crate::text::lines_from_text;
use crate::text::lines_view;
use crate::text::push_decimal;
use crate::text::split_lines;
use crate::text::trim;

verus! {

/// The mathematical image of the whole editor state.
#[verifier::ext_equal]
pub struct EditorV {
    pub file_name: Seq<char>,
    pub lines: Seq<Seq<char>>,
    pub mode: Mode,
    pub exit: bool,
    pub row: int,
    pub col: int,
    pub target: TargetV,
    pub view_top: int,
    pub view_bot: int,
    pub command: Seq<char>,
}

impl EditorV {
    /// The line the cursor is on.
    pub open spec fn cur_line(self) -> Seq<char> {
        self.lines[self.row]
    }

    /// The state invariant: the buffer never loses its last line, the cursor
    /// stays inside the buffer and at most one past the end of its line, the
    /// viewport covers the whole buffer, and a command being composed is never
    /// empty.
    pub open spec fn wf(self) -> bool {
        &&& self.lines.len() >= 1
        &&& 0 <= self.row < self.lines.len()
        &&& 0 <= self.col <= self.cur_line().len()
        &&& self.view_top == 0
        &&& self.view_bot == self.lines.len()
        &&& (self.target matches TargetV::Col(t) ==> t >= 0)
        &&& (self.mode == Mode::Command ==> self.command.len() >= 1)
    }
}

/// The column of the last character of `line`; 0 on an empty line.
pub open spec fn last_index(line: Seq<char>) -> int {
    if line.len() == 0 {
        0
    } else {
        line.len() - 1
    }
}

/// Where a vertical move lands horizontally: the sticky end pins the cursor
/// to the line's last character, a concrete target is clamped to it.
pub open spec fn resolve_col(target: TargetV, line: Seq<char>) -> int {
    match target {
        TargetV::End => last_index(line),
        TargetV::Col(t) => if t > last_index(line) {
            last_index(line)
        } else {
            t
        },
    }
}

/// `h`: one column left, sticky target follows; stops at the start of line.
pub open spec fn step_left(v: EditorV) -> EditorV {
    if v.col > 0 {
        EditorV { col: v.col - 1, target: TargetV::Col(v.col - 1), ..v }
    } else {
        v
    }
}

/// `l`: one column right, sticky target follows; stops one past the last
/// character.
pub open spec fn step_right(v: EditorV) -> EditorV {
    if v.col < v.cur_line().len() {
        EditorV { col: v.col + 1, target: TargetV::Col(v.col + 1), ..v }
    } else {
        v
    }
}

/// `j`: one row down (clamped), column re-derived from the sticky target.
pub open spec fn step_down(v: EditorV) -> EditorV {
    let row = if v.row + 1 < v.lines.len() {
        v.row + 1
    } else {
        v.row
    };
    EditorV { row, col: resolve_col(v.target, v.lines[row]), ..v }
}

/// `k`: one row up (clamped), column re-derived from the sticky target.
pub open spec fn step_up(v: EditorV) -> EditorV {
    let row = if v.row > 0 {
        v.row - 1
    } else {
        0
    };
    EditorV { row, col: resolve_col(v.target, v.lines[row]), ..v }
}

/// `x` in Normal mode: deletes the character under the cursor; a no-op on an
/// empty line. The cursor is clamped back onto the shortened line.
pub open spec fn step_delete_at(v: EditorV) -> EditorV {
    let line = v.cur_line();
    if line.len() == 0 {
        v
    } else {
        let i = if v.col > line.len() - 1 {
            line.len() - 1
        } else {
            v.col
        };
        let shorter = line.remove(i);
        let c = if v.col > last_index(shorter) {
            last_index(shorter)
        } else {
            v.col
        };
        EditorV { lines: v.lines.update(v.row, shorter), col: c, ..v }
    }
}

/// `o`: opens an empty line below the cursor's row, moves onto it and enters
/// Insert mode.
pub open spec fn step_open_below(v: EditorV) -> EditorV {
    EditorV {
        lines: v.lines.insert(v.row + 1, Seq::<char>::empty()),
        row: v.row + 1,
        col: 0,
        mode: Mode::Insert,
        view_bot: v.view_bot + 1,
        ..v
    }
}

/// `O`: opens an empty line above the cursor's row (the cursor stays on its
/// row index, so it rests on the new line) and enters Insert mode.
pub open spec fn step_open_above(v: EditorV) -> EditorV {
    EditorV {
        lines: v.lines.insert(v.row, Seq::<char>::empty()),
        col: 0,
        mode: Mode::Insert,
        view_bot: v.view_bot + 1,
        ..v
    }
}

/// One character pressed in Normal mode: movement, mode changes, `x`, `o`,
/// `O`, and the jumps `0`, `$`, `g`, `G`. Everything else is a no-op.
pub open spec fn step_normal(v: EditorV, ch: char) -> EditorV {
    if ch == ':' {
        EditorV { mode: Mode::Command, command: seq![':'], ..v }
    } else if ch == 'h' {
        step_left(v)
    } else if ch == 'l' {
        step_right(v)
    } else if ch == 'k' {
        step_up(v)
    } else if ch == 'j' {
        step_down(v)
    } else if ch == 'i' {
        EditorV { mode: Mode::Insert, ..v }
    } else if ch == 'I' {
        EditorV { mode: Mode::Insert, col: 0, target: TargetV::Col(0), ..v }
    } else if ch == 'a' {
        let c = if v.col + 1 > v.cur_line().len() {
            v.cur_line().len() as int
        } else {
            v.col + 1
        };
        EditorV { mode: Mode::Insert, col: c, ..v }
    } else if ch == 'A' {
        EditorV {
            mode: Mode::Insert,
            target: TargetV::End,
            col: v.cur_line().len() as int,
            ..v
        }
    } else if ch == '0' {
        EditorV { col: 0, target: TargetV::Col(0), ..v }
    } else if ch == '$' {
        EditorV { target: TargetV::End, col: last_index(v.cur_line()), ..v }
    } else if ch == 'G' {
        let row = v.lines.len() - 1;
        EditorV { row, target: TargetV::End, col: last_index(v.lines[row]), ..v }
    } else if ch == 'g' {
        EditorV { row: 0, col: 0, target: TargetV::Col(0), ..v }
    } else if ch == 'x' {
        step_delete_at(v)
    } else if ch == 'o' {
        step_open_below(v)
    } else if ch == 'O' {
        step_open_above(v)
    } else {
        v
    }
}

/// One keystroke in Normal mode: only characters do anything.
pub open spec fn step_normal_key(v: EditorV, key: Key) -> EditorV {
    match key {
        Key::Char(ch) => step_normal(v, ch),
        _ => v,
    }
}

/// A printable character typed in Insert mode: inserted before the cursor,
/// which advances past it.
pub open spec fn step_insert_char(v: EditorV, ch: char) -> EditorV {
    EditorV {
        lines: v.lines.update(v.row, v.cur_line().insert(v.col, ch)),
        col: v.col + 1,
        ..v
    }
}

/// Backspace in Insert mode: inside a line it removes the character before
/// the cursor; at the start of a line it joins the line into the one above
/// and puts the cursor on the join point; at the start of the buffer it does
/// nothing.
pub open spec fn step_backspace(v: EditorV) -> EditorV {
    if v.col == 0 && v.row > 0 {
        let prev = v.lines[v.row - 1];
        EditorV {
            lines: v.lines.update(v.row - 1, prev + v.cur_line()).remove(v.row),
            row: v.row - 1,
            col: prev.len() as int,
            view_bot: if v.view_bot > 0 {
                v.view_bot - 1
            } else {
                0
            },
            ..v
        }
    } else if v.col == 0 {
        v
    } else {
        EditorV {
            lines: v.lines.update(v.row, v.cur_line().remove(v.col - 1)),
            col: v.col - 1,
            ..v
        }
    }
}

/// Escape out of Insert mode: Normal mode's cursor rests on a character, so
/// the column is clamped to the line's last character and the sticky target
/// resynced to it.
pub open spec fn step_escape_insert(v: EditorV) -> EditorV {
    let c = if v.col > last_index(v.cur_line()) {
        last_index(v.cur_line())
    } else {
        v.col
    };
    EditorV { mode: Mode::Normal, col: c, target: TargetV::Col(c), ..v }
}

/// Enter in Insert mode: the line is split at the cursor, the tail becomes a
/// new line below, and the cursor moves to its start.
pub open spec fn step_split(v: EditorV) -> EditorV {
    EditorV {
        lines: v.lines.update(v.row, v.cur_line().take(v.col)).insert(
            v.row + 1,
            v.cur_line().skip(v.col),
        ),
        row: v.row + 1,
        col: 0,
        view_bot: v.view_bot + 1,
        ..v
    }
}

/// One keystroke in Insert mode; keys the mode does not react to are no-ops.
pub open spec fn step_insert(v: EditorV, key: Key) -> EditorV {
    match key {
        Key::Char(ch) => step_insert_char(v, ch),
        Key::Backspace => step_backspace(v),
        Key::Esc => step_escape_insert(v),
        Key::Enter => step_split(v),
        Key::Other => v,
    }
}

/// What a committed command line asks for, by exact match: `:q`, `:w`, `:wq`
/// (or `:qw`); everything else is unknown.
pub open spec fn spec_command_kind(c: Seq<char>) -> CmdKind {
    if c == seq![':', 'q'] {
        CmdKind::Quit
    } else if c == seq![':', 'w'] {
        CmdKind::Write
    } else if c == seq![':', 'w', 'q'] || c == seq![':', 'q', 'w'] {
        CmdKind::WriteQuit
    } else {
        CmdKind::Unknown
    }
}

/// The fixed head of the message an unknown command leaves in the status line.
pub open spec fn unknown_prefix() -> Seq<char> {
    seq!['U', 'n', 'k', 'n', 'o', 'w', 'n', ' ', 'c', 'o', 'm', 'm', 'a', 'n', 'd', ':', ' ']
}

/// The status message for an unknown command: the text after the colon is
/// echoed back.
pub open spec fn unknown_msg(c: Seq<char>) -> Seq<char> {
    unknown_prefix() + c.skip(1)
}

/// Committing the command line: `:q` asks to exit, `:w` asks for a write,
/// `:wq`/`:qw` both; anything else replaces the command line with the unknown
/// message. The second component says whether the caller owes a write.
pub open spec fn step_commit(v: EditorV) -> (EditorV, bool) {
    match spec_command_kind(v.command) {
        CmdKind::Quit => (EditorV { exit: true, ..v }, false),
        CmdKind::Write => (v, true),
        CmdKind::WriteQuit => (EditorV { exit: true, ..v }, true),
        CmdKind::Unknown => (EditorV { command: unknown_msg(v.command), ..v }, false),
    }
}

/// One keystroke in Command mode: characters accumulate, Backspace never eats
/// the leading colon, Enter commits and returns to Normal mode, Escape
/// abandons the command.
pub open spec fn step_command(v: EditorV, key: Key) -> (EditorV, bool) {
    match key {
        Key::Char(ch) => (EditorV { command: v.command.push(ch), ..v }, false),
        Key::Backspace => (
            if v.command.len() > 1 {
                EditorV { command: v.command.drop_last(), ..v }
            } else {
                v
            },
            false,
        ),
        Key::Enter => {
            let (v2, w) = step_commit(v);
            (EditorV { mode: Mode::Normal, ..v2 }, w)
        },
        Key::Esc => (EditorV { command: Seq::<char>::empty(), mode: Mode::Normal, ..v }, false),
        Key::Other => (v, false),
    }
}

/// One keystroke, routed to the active mode's handler. The second component
/// says whether the caller owes a write of the buffer to disk.
pub open spec fn step(v: EditorV, key: Key) -> (EditorV, bool) {
    match v.mode {
        Mode::Insert => (step_insert(v, key), false),
        Mode::Normal => (step_normal_key(v, key), false),
        Mode::Command => step_command(v, key),
    }
}

/// Where the terminal cursor goes for a frame of the given height.
pub open spec fn spec_cur_pos(v: EditorV, height: int) -> (int, int) {
    if v.mode == Mode::Command {
        (v.command.len() as int, height - 1)
    } else {
        (v.col + 1, v.row + 1)
    }
}

/// The status message a failed write leaves.
pub open spec fn write_fail_msg() -> Seq<char> {
    seq![
        'C',
        'o',
        'u',
        'l',
        'd',
        ' ',
        'n',
        'o',
        't',
        ' ',
        'w',
        'r',
        'i',
        't',
        'e',
        ' ',
        't',
        'o',
        ' ',
        'f',
        'i',
        'l',
        'e',
        '.',
    ]
}

/// The status message a successful write of `bytes` bytes to `name` leaves.
pub open spec fn write_ok_msg(name: Seq<char>, bytes: nat) -> Seq<char> {
    seq!['"'] + name + seq!['"', ',', ' '] + decimal_digits(bytes) + seq![
        'K',
        'B',
        ' ',
        'w',
        'r',
        'i',
        't',
        't',
        'e',
        'n',
    ]
}

/// The write's outcome reported back into the status line.
pub open spec fn step_write_result(v: EditorV, ok: bool, bytes: nat) -> EditorV {
    EditorV {
        command: if ok {
            write_ok_msg(v.file_name, bytes)
        } else {
            write_fail_msg()
        },
        ..v
    }
}

fn command_kind(cmd: &Vec<char>) -> (k: CmdKind)
    ensures
        k == spec_command_kind(cmd@),
{
    if cmd.len() == 2 && cmd[0] == ':' && cmd[1] == 'q' {
        proof {
            assert(cmd@ =~= seq![':', 'q']);
        }
        CmdKind::Quit
    } else if cmd.len() == 2 && cmd[0] == ':' && cmd[1] == 'w' {
        proof {
            assert(cmd@ =~= seq![':', 'w']);
        }
        CmdKind::Write
    } else if cmd.len() == 3 && cmd[0] == ':' && cmd[1] == 'w' && cmd[2] == 'q' {
        proof {
            assert(cmd@ =~= seq![':', 'w', 'q']);
        }
        CmdKind::WriteQuit
    } else if cmd.len() == 3 && cmd[0] == ':' && cmd[1] == 'q' && cmd[2] == 'w' {
        proof {
            assert(cmd@ =~= seq![':', 'q', 'w']);
        }
        CmdKind::WriteQuit
    } else {
        proof {
            assert(cmd@ != seq![':', 'q'] && cmd@ != seq![':', 'w'] && cmd@ != seq![
                ':',
                'w',
                'q',
            ] && cmd@ != seq![':', 'q', 'w']) by {
                if cmd@ == seq![':', 'q'] {
                    assert(cmd@.len() == 2 && cmd@[0] == ':' && cmd@[1] == 'q');
                }
                if cmd@ == seq![':', 'w'] {
                    assert(cmd@.len() == 2 && cmd@[0] == ':' && cmd@[1] == 'w');
                }
                if cmd@ == seq![':', 'w', 'q'] {
                    assert(cmd@.len() == 3 && cmd@[0] == ':' && cmd@[1] == 'w' && cmd@[2] == 'q');
                }
                if cmd@ == seq![':', 'q', 'w'] {
                    assert(cmd@.len() == 3 && cmd@[0] == ':' && cmd@[1] == 'q' && cmd@[2] == 'w');
                }
            }
        }
        CmdKind::Unknown
    }
}

fn unknown_command_message(cmd: &Vec<char>) -> (msg: Vec<char>)
    requires
        cmd@.len() >= 1,
    ensures
        msg@ == unknown_msg(cmd@),
{
    let mut msg: Vec<char> = Vec::new();
    msg.push('U');
    msg.push('n');
    msg.push('k');
    msg.push('n');
    msg.push('o');
    msg.push('w');
    msg.push('n');
    msg.push(' ');
    msg.push('c');
    msg.push('o');
    msg.push('m');
    msg.push('m');
    msg.push('a');
    msg.push('n');
    msg.push('d');
    msg.push(':');
    msg.push(' ');
    proof {
        assert(msg@ =~= unknown_prefix());
        assert(msg@ =~= unknown_prefix() + cmd@.subrange(1, 1));
    }
    let mut i: usize = 1;
    while i < cmd.len()
        invariant
            1 <= i <= cmd@.len(),
            msg@ == unknown_prefix() + cmd@.subrange(1, i as int),
        decreases cmd@.len() - i,
    {
        msg.push(cmd[i]);
        proof {
            assert((unknown_prefix() + cmd@.subrange(1, i as int)).push(cmd@[i as int])
                =~= unknown_prefix() + cmd@.subrange(1, i + 1));
        }
        i += 1;
    }
    proof {
        assert(cmd@.subrange(1, cmd@.len() as int) =~= cmd@.skip(1));
    }
    msg
}

/// The editor. Fields are private; contracts speak of the view `self@`.
pub struct App {
    file_name: Vec<char>,
    contents: Vec<Vec<char>>,
    mode: Mode,
    exit: bool,
    row: usize,
    col: usize,
    target: Target,
    view_top: usize,
    view_bot: usize,
    command: Vec<char>,
}

impl View for App {
    type V = EditorV;

    closed spec fn view(&self) -> EditorV {
        EditorV {
            file_name: self.file_name@,
            lines: lines_view(self.contents@),
            mode: self.mode,
            exit: self.exit,
            row: self.row as int,
            col: self.col as int,
            target: self.target@,
            view_top: self.view_top as int,
            view_bot: self.view_bot as int,
            command: self.command@,
        }
    }
}

impl App {
    /// A fresh editor on `file_name`. `text` is the file's content where the
    /// file could be read; an absent or unreadable file starts as a single
    /// empty line.
    pub fn new(file_name: Vec<char>, text: Option<Vec<char>>) -> (app: App)
        ensures
            app@.wf(),
            app@.file_name == file_name@,
            app@.lines == (match text {
                Some(t) => split_lines(trim(t@)),
                None => seq![Seq::<char>::empty()],
            }),
            app@.mode == Mode::Normal,
            !app@.exit,
            app@.row == 0,
            app@.col == 0,
            app@.target == TargetV::Col(0),
            app@.view_top == 0,
            app@.view_bot == app@.lines.len(),
            app@.command == Seq::<char>::empty(),
    {
        let contents: Vec<Vec<char>> = match text {
            Some(t) => lines_from_text(&t),
            None => {
                let mut v: Vec<Vec<char>> = Vec::new();
                v.push(Vec::new());
                proof {
                    assert(lines_view(v@) =~= seq![Seq::<char>::empty()]);
                }
                v
            },
        };
        let view_bot = contents.len();
        App {
            file_name,
            contents,
            mode: Mode::Normal,
            exit: false,
            row: 0,
            col: 0,
            target: Target::Col(0),
            view_top: 0,
            view_bot,
            command: Vec::new(),
        }
    }

    /// `h` in Normal mode.
    pub fn move_left(&mut self)
        requires
            old(self)@.wf(),
        ensures
            final(self)@ == step_left(old(self)@),
            final(self)@.wf(),
    {
        if self.col > 0 {
            self.col = self.col - 1;
            self.target = Target::Col(self.col);
        }
        proof {
            assert(self@ =~~= step_left(old(self)@));
        }
    }

    /// `l` in Normal mode.
    pub fn move_right(&mut self)
        requires
            old(self)@.wf(),
        ensures
            final(self)@ == step_right(old(self)@),
            final(self)@.wf(),
    {
        if self.col < self.contents[self.row].len() {
            self.col = self.col + 1;
            self.target = Target::Col(self.col);
        }
        proof {
            assert(self@ =~~= step_right(old(self)@));
        }
    }

    /// `j` in Normal mode.
    pub fn move_down(&mut self)
        requires
            old(self)@.wf(),
        ensures
            final(self)@ == step_down(old(self)@),
            final(self)@.wf(),
    {
        if self.row + 1 < self.contents.len() {
            self.row = self.row + 1;
        }
        self.col = self.resolved_col();
        proof {
            assert(self@ =~~= step_down(old(self)@));
        }
    }

    /// `k` in Normal mode.
    pub fn move_up(&mut self)
        requires
            old(self)@.wf(),
        ensures
            final(self)@ == step_up(old(self)@),
            final(self)@.wf(),
    {
        if self.row > 0 {
            self.row = self.row - 1;
        }
        self.col = self.resolved_col();
        proof {
            assert(self@ =~~= step_up(old(self)@));
        }
    }

    /// A printable character typed in Insert mode.
    pub fn handle_ch_insert(&mut self, ch: char)
        requires
            old(self)@.wf(),
        ensures
            final(self)@ == step_insert_char(old(self)@, ch),
            final(self)@.wf(),
    {
        let mut line = self.contents.remove(self.row);
        line.insert(self.col, ch);
        let new_len = line.len();
        self.contents.insert(self.row, line);
        // new_len being a usize bounds col + 1.
        self.col = self.col + 1;
        proof {
            assert(self@ =~~= step_insert_char(old(self)@, ch));
        }
    }

    /// One keystroke in Insert mode.
    pub fn handle_keycode_insert(&mut self, key: Key)
        requires
            old(self)@.wf(),
        ensures
            final(self)@ == step_insert(old(self)@, key),
            final(self)@.wf(),
    {
        match key {
            Key::Char(ch) => {
                self.handle_ch_insert(ch);
            },
            Key::Backspace => {
                if self.col == 0 && self.row > 0 {
                    let tail = self.contents.remove(self.row);
                    let prev_len = self.contents[self.row - 1].len();
                    let mut prev = self.contents.remove(self.row - 1);
                    extend_chars(&mut prev, &tail);
                    self.contents.insert(self.row - 1, prev);
                    self.view_bot = if self.view_bot > 0 {
                        self.view_bot - 1
                    } else {
                        0
                    };
                    self.row = self.row - 1;
                    self.col = prev_len;
                    proof {
                        assert(self@ =~~= step_backspace(old(self)@));
                    }
                } else if self.col > 0 {
                    let mut line = self.contents.remove(self.row);
                    line.remove(self.col - 1);
                    self.contents.insert(self.row, line);
                    self.col = self.col - 1;
                    proof {
                        assert(self@ =~~= step_backspace(old(self)@));
                    }
                } else {
                    proof {
                        assert(self@ =~~= step_backspace(old(self)@));
                    }
                }
            },
            Key::Esc => {
                self.mode = Mode::Normal;
                let len = self.contents[self.row].len();
                let last = if len == 0 {
                    0
                } else {
                    len - 1
                };
                if self.col > last {
                    self.col = last;
                }
                self.target = Target::Col(self.col);
                proof {
                    assert(self@ =~~= step_escape_insert(old(self)@));
                }
            },
            Key::Enter => {
                let mut line = self.contents.remove(self.row);
                let tail = line.split_off(self.col);
                self.contents.insert(self.row, line);
                self.contents.insert(self.row + 1, tail);
                self.row = self.row + 1;
                self.col = 0;
                self.view_bot = self.contents.len();
                proof {
                    assert(self@ =~~= step_split(old(self)@));
                }
            },
            Key::Other => {
                proof {
                    assert(self@ =~~= step_insert(old(self)@, key));
                }
            },
        }
    }

    /// One character pressed in Normal mode.
    pub fn handle_ch_normal(&mut self, ch: char)
        requires
            old(self)@.wf(),
        ensures
            final(self)@ == step_normal(old(self)@, ch),
            final(self)@.wf(),
    {
        match ch {
            ':' => {
                self.mode = Mode::Command;
                let mut c: Vec<char> = Vec::new();
                c.push(':');
                self.command = c;
                proof {
                    assert(self.command@ =~= seq![':']);
                    assert(self@ =~~= step_normal(old(self)@, ch));
                }
            },
            'h' => {
                self.move_left();
                proof {
                    assert(self@ =~~= step_normal(old(self)@, ch));
                }
            },
            'l' => {
                self.move_right();
                proof {
                    assert(self@ =~~= step_normal(old(self)@, ch));
                }
            },
            'k' => {
                self.move_up();
                proof {
                    assert(self@ =~~= step_normal(old(self)@, ch));
                }
            },
            'j' => {
                self.move_down();
                proof {
                    assert(self@ =~~= step_normal(old(self)@, ch));
                }
            },
            'i' => {
                self.mode = Mode::Insert;
                proof {
                    assert(self@ =~~= step_normal(old(self)@, ch));
                }
            },
            'I' => {
                self.mode = Mode::Insert;
                self.col = 0;
                self.target = Target::Col(0);
                proof {
                    assert(self@ =~~= step_normal(old(self)@, ch));
                }
            },
            'a' => {
                self.mode = Mode::Insert;
                let len = self.contents[self.row].len();
                if self.col < len {
                    self.col = self.col + 1;
                }
                proof {
                    assert(self@ =~~= step_normal(old(self)@, ch));
                }
            },
            'A' => {
                self.mode = Mode::Insert;
                self.target = Target::End;
                self.col = self.contents[self.row].len();
                proof {
                    assert(self@ =~~= step_normal(old(self)@, ch));
                }
            },
            '0' => {
                self.col = 0;
                self.target = Target::Col(0);
                proof {
                    assert(self@ =~~= step_normal(old(self)@, ch));
                }
            },
            '$' => {
                self.target = Target::End;
                let len = self.contents[self.row].len();
                self.col = if len == 0 {
                    0
                } else {
                    len - 1
                };
                proof {
                    assert(self@ =~~= step_normal(old(self)@, ch));
                }
            },
            'G' => {
                self.row = self.contents.len() - 1;
                self.target = Target::End;
                let len = self.contents[self.row].len();
                self.col = if len == 0 {
                    0
                } else {
                    len - 1
                };
                proof {
                    assert(self@ =~~= step_normal(old(self)@, ch));
                }
            },
            'g' => {
                self.row = 0;
                self.col = 0;
                self.target = Target::Col(0);
                proof {
                    assert(self@ =~~= step_normal(old(self)@, ch));
                }
            },
            'x' => {
                let len = self.contents[self.row].len();
                if len > 0 {
                    let i = if self.col > len - 1 {
                        len - 1
                    } else {
                        self.col
                    };
                    let mut line = self.contents.remove(self.row);
                    line.remove(i);
                    self.contents.insert(self.row, line);
                    let nlast = if len - 1 == 0 {
                        0
                    } else {
                        len - 2
                    };
                    if self.col > nlast {
                        self.col = nlast;
                    }
                }
                proof {
                    assert(self@ =~~= step_normal(old(self)@, ch));
                }
            },
            'o' => {
                self.contents.insert(self.row + 1, Vec::new());
                self.row = self.row + 1;
                self.col = 0;
                self.mode = Mode::Insert;
                self.view_bot = self.contents.len();
                proof {
                    assert(self@ =~~= step_normal(old(self)@, ch));
                }
            },
            'O' => {
                self.contents.insert(self.row, Vec::new());
                self.col = 0;
                self.mode = Mode::Insert;
                self.view_bot = self.contents.len();
                proof {
                    assert(self@ =~~= step_normal(old(self)@, ch));
                }
            },
            _ => {
                proof {
                    assert(self@ =~~= step_normal(old(self)@, ch));
                }
            },
        }
    }

    /// One keystroke in Normal mode.
    pub fn handle_keycode_normal(&mut self, key: Key)
        requires
            old(self)@.wf(),
        ensures
            final(self)@ == step_normal_key(old(self)@, key),
            final(self)@.wf(),
    {
        match key {
            Key::Char(ch) => {
                self.handle_ch_normal(ch);
            },
            _ => {
                proof {
                    assert(self@ =~~= step_normal_key(old(self)@, key));
                }
            },
        }
    }

    /// Commits the accumulated command line. Returns whether the caller owes
    /// a write of the buffer to the file (`:w`, `:wq`, `:qw`); the caller
    /// reports the outcome back through `apply_write_result`.
    pub fn handle_command(&mut self) -> (write: bool)
        requires
            old(self)@.wf(),
            old(self)@.command.len() >= 1,
        ensures
            final(self)@ == step_commit(old(self)@).0,
            write == step_commit(old(self)@).1,
            final(self)@.wf(),
    {
        match command_kind(&self.command) {
            CmdKind::Quit => {
                self.exit = true;
                proof {
                    assert(self@ =~~= step_commit(old(self)@).0);
                }
                false
            },
            CmdKind::Write => {
                proof {
                    assert(self@ =~~= step_commit(old(self)@).0);
                }
                true
            },
            CmdKind::WriteQuit => {
                self.exit = true;
                proof {
                    assert(self@ =~~= step_commit(old(self)@).0);
                }
                true
            },
            CmdKind::Unknown => {
                self.command = unknown_command_message(&self.command);
                proof {
                    assert(self@ =~~= step_commit(old(self)@).0);
                }
                false
            },
        }
    }

    /// One keystroke in Command mode. Returns whether the caller owes a write.
    pub fn handle_keycode_command(&mut self, key: Key) -> (write: bool)
        requires
            old(self)@.wf(),
            old(self)@.mode == Mode::Command,
        ensures
            final(self)@ == step_command(old(self)@, key).0,
            write == step_command(old(self)@, key).1,
            final(self)@.wf(),
    {
        match key {
            Key::Char(ch) => {
                self.command.push(ch);
                proof {
                    assert(self@ =~~= step_command(old(self)@, key).0);
                }
                false
            },
            Key::Backspace => {
                if self.command.len() > 1 {
                    self.command.pop();
                    proof {
                        assert(self.command@ =~= old(self)@.command.drop_last());
                        assert(self@ =~~= step_command(old(self)@, key).0);
                    }
                }
                false
            },
            Key::Enter => {
                let write = self.handle_command();
                self.mode = Mode::Normal;
                proof {
                    assert(self@ =~~= step_command(old(self)@, key).0);
                }
                write
            },
            Key::Esc => {
                self.command.clear();
                self.mode = Mode::Normal;
                proof {
                    assert(self@ =~~= step_command(old(self)@, key).0);
                }
                false
            },
            Key::Other => false,
        }
    }

    /// One keystroke, routed to the active mode's handler. Returns whether
    /// the caller owes a write of the buffer to the file.
    pub fn handle_key(&mut self, key: Key) -> (write: bool)
        requires
            old(self)@.wf(),
        ensures
            final(self)@ == step(old(self)@, key).0,
            write == step(old(self)@, key).1,
            final(self)@.wf(),
    {
        match self.mode {
            Mode::Insert => {
                self.handle_keycode_insert(key);
                false
            },
            Mode::Normal => {
                self.handle_keycode_normal(key);
                false
            },
            Mode::Command => self.handle_keycode_command(key),
        }
    }

    /// The outcome of the write the caller performed, reported into the
    /// status line: the path and byte count on success, a fixed failure
    /// message otherwise. The buffer itself is untouched either way.
    pub fn apply_write_result(&mut self, ok: bool, bytes: u64)
        requires
            old(self)@.wf(),
        ensures
            final(self)@ == step_write_result(old(self)@, ok, bytes as nat),
            final(self)@.wf(),
    {
        if ok {
            let mut msg: Vec<char> = Vec::new();
            msg.push('"');
            extend_chars(&mut msg, &self.file_name);
            msg.push('"');
            msg.push(',');
            msg.push(' ');
            push_decimal(&mut msg, bytes);
            msg.push('K');
            msg.push('B');
            msg.push(' ');
            msg.push('w');
            msg.push('r');
            msg.push('i');
            msg.push('t');
            msg.push('t');
            msg.push('e');
            msg.push('n');
            proof {
                assert(msg@ =~= write_ok_msg(old(self)@.file_name, bytes as nat));
            }
            self.command = msg;
        } else {
            let mut msg: Vec<char> = Vec::new();
            msg.push('C');
            msg.push('o');
            msg.push('u');
            msg.push('l');
            msg.push('d');
            msg.push(' ');
            msg.push('n');
            msg.push('o');
            msg.push('t');
            msg.push(' ');
            msg.push('w');
            msg.push('r');
            msg.push('i');
            msg.push('t');
            msg.push('e');
            msg.push(' ');
            msg.push('t');
            msg.push('o');
            msg.push(' ');
            msg.push('f');
            msg.push('i');
            msg.push('l');
            msg.push('e');
            msg.push('.');
            proof {
                assert(msg@ =~= write_fail_msg());
            }
            self.command = msg;
        }
        proof {
            assert(self@ =~~= step_write_result(old(self)@, ok, bytes as nat));
        }
    }

    /// Where the terminal cursor goes, inside a one-cell border: at the end
    /// of the command line on the bottom row in Command mode, else one past
    /// the buffer cursor.
    pub fn get_cur_pos(&self, height: usize) -> (pos: (usize, usize))
        requires
            self@.wf(),
            height >= 1,
            self@.col + 1 <= usize::MAX,
            self@.row + 1 <= usize::MAX,
        ensures
            pos.0 as int == spec_cur_pos(self@, height as int).0,
            pos.1 as int == spec_cur_pos(self@, height as int).1,
    {
        match self.mode {
            Mode::Command => (self.command.len(), height - 1),
            _ => (self.col + 1, self.row + 1),
        }
    }

    /// The viewport's slice of the buffer, joined with newlines, ready to be
    /// rendered.
    pub fn visible_text(&self) -> (text: Vec<char>)
        requires
            self@.wf(),
        ensures
            text@ == join_lines(self@.lines.subrange(self@.view_top, self@.view_bot)),
    {
        let ghost lv = self@.lines;
        let ghost top = self@.view_top;
        let mut text: Vec<char> = Vec::new();
        let mut i: usize = self.view_top;
        proof {
            assert(lv.subrange(top, top) =~= Seq::<Seq<char>>::empty());
        }
        while i < self.view_bot
            invariant
                self@.wf(),
                lv == self@.lines,
                top == self@.view_top,
                top <= i <= self@.view_bot,
                text@ == join_lines(lv.subrange(top, i as int)),
            decreases self@.view_bot - i,
        {
            if i > self.view_top {
                text.push('\n');
            }
            extend_chars(&mut text, &self.contents[i]);
            proof {
                assert(lv.subrange(top, i + 1) =~= lv.subrange(top, i as int).push(lv[i as int]));
                if i > top {
                    crate::text::lemma_join_push(lv.subrange(top, i as int), lv[i as int]);
                    assert(join_lines(lv.subrange(top, i as int)) + seq!['\n'] + lv[i as int]
                        =~= (join_lines(lv.subrange(top, i as int)).push('\n')) + lv[i as int]);
                } else {
                    assert(join_lines(lv.subrange(top, i + 1)) == lv[i as int]);
                    assert(Seq::<char>::empty() + lv[i as int] =~= lv[i as int]);
                }
            }
            i += 1;
        }
        text
    }

    /// The whole buffer joined with newlines: what a save writes to disk.
    pub fn buffer_text(&self) -> (text: Vec<char>)
        ensures
            text@ == join_lines(self@.lines),
    {
        let text = crate::text::text_from_lines(&self.contents);
        text
    }

    /// The active mode.
    pub fn mode(&self) -> (m: Mode)
        ensures
            m == self@.mode,
    {
        self.mode
    }

    /// Whether a committed `:q` or `:wq` asked the surrounding loop to stop.
    pub fn should_exit(&self) -> (e: bool)
        ensures
            e == self@.exit,
    {
        self.exit
    }

    /// The cursor's row.
    pub fn cursor_row(&self) -> (r: usize)
        ensures
            r as int == self@.row,
    {
        self.row
    }

    /// The cursor's column.
    pub fn cursor_col(&self) -> (c: usize)
        ensures
            c as int == self@.col,
    {
        self.col
    }

    /// The sticky target column.
    pub fn target_col(&self) -> (t: Target)
        ensures
            t@ == self@.target,
    {
        self.target
    }

    /// How many lines the buffer holds.
    pub fn line_count(&self) -> (n: usize)
        ensures
            n as int == self@.lines.len(),
    {
        self.contents.len()
    }

    /// One line of the buffer.
    pub fn line_at(&self, i: usize) -> (line: &Vec<char>)
        requires
            i < self@.lines.len(),
        ensures
            line@ == self@.lines[i as int],
    {
        &self.contents[i]
    }

    /// The command line as composed, or the last status message.
    pub fn command_chars(&self) -> (c: &Vec<char>)
        ensures
            c@ == self@.command,
    {
        &self.command
    }

    /// The column the sticky target yields on the current line.
    fn resolved_col(&self) -> (c: usize)
        requires
            0 <= self@.row < self@.lines.len(),
        ensures
            c == resolve_col(self@.target, self@.cur_line()),
    {
        let len = self.contents[self.row].len();
        let last = if len == 0 {
            0
        } else {
            len - 1
        };
        match self.target {
            Target::End => last,
            Target::Col(t) => if t > last {
                last
            } else {
                t
            },
        }
    }
}

} // verus!
