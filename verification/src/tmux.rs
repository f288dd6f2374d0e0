//! tmux windows and sessions, and the reading of what tmux prints about them.
use vstd::prelude::*;

use std::time::Duration;

pub use crate::ansi::strip_ansi_codes;

use crate::ansi::strip_ansi_spec;
use crate::clock::{duration_from_secs, duration_of_secs};
use crate::text::{all_digits, digits_value, join_lines, lines_of_joined_lines, splitn_five_fields, chars_of, decimal, lines_of, lines_spec, parse_i64, parse_i64_spec, parse_u32, parse_u32_spec, push_decimal, splitn_of, splitn_spec, string_of};

verus! {

/// One tmux window, as `tmux list-windows` describes it.
#[derive(Debug)]
pub struct TmuxWindow {
    pub session_name: String,
    pub window_index: u32,
    pub window_name: String,
    pub pane_current_command: String,
    /// Unix time of the last activity in the window's active pane.
    pub pane_last_activity: i64,
    pub is_active: bool,
}

/// A tmux session and its windows.
#[derive(Debug)]
pub struct TmuxSession {
    pub name: String,
    pub windows: Vec<TmuxWindow>,
}

/// How recently a window's pane was active.
#[derive(Debug)]
pub enum ActivityStatus {
    /// Active within the last ten seconds.
    Active,
    /// Active within the last minute.
    RecentlyActive,
    /// Idle for longer; the duration is the time since the last activity.
    Idle(Duration),
}

/// The mathematical content of a [`TmuxWindow`].
pub struct WindowView {
    pub session_name: Seq<char>,
    pub window_index: u32,
    pub window_name: Seq<char>,
    pub pane_current_command: Seq<char>,
    pub pane_last_activity: i64,
    pub is_active: bool,
}

/// The mathematical content of a [`TmuxSession`].
pub struct SessionView {
    pub name: Seq<char>,
    pub windows: Seq<WindowView>,
}

impl View for TmuxWindow {
    type V = WindowView;

    open spec fn view(&self) -> WindowView {
        WindowView {
            session_name: self.session_name@,
            window_index: self.window_index,
            window_name: self.window_name@,
            pane_current_command: self.pane_current_command@,
            pane_last_activity: self.pane_last_activity,
            is_active: self.is_active,
        }
    }
}

/// The views of a sequence of windows.
pub open spec fn windows_view(ws: Seq<TmuxWindow>) -> Seq<WindowView> {
    ws.map_values(|w: TmuxWindow| w@)
}

impl View for TmuxSession {
    type V = SessionView;

    open spec fn view(&self) -> SessionView {
        SessionView { name: self.name@, windows: windows_view(self.windows@) }
    }
}

/// The views of a sequence of sessions.
pub open spec fn sessions_view(ss: Seq<TmuxSession>) -> Seq<SessionView> {
    ss.map_values(|s: TmuxSession| s@)
}

impl Clone for TmuxWindow {
    fn clone(&self) -> (r: TmuxWindow)
        ensures
            r@ == self@,
    {
        TmuxWindow {
            session_name: self.session_name.clone(),
            window_index: self.window_index,
            window_name: self.window_name.clone(),
            pane_current_command: self.pane_current_command.clone(),
            pane_last_activity: self.pane_last_activity,
            is_active: self.is_active,
        }
    }
}

impl Clone for ActivityStatus {
    fn clone(&self) -> (r: ActivityStatus)
        ensures
            r == *self,
    {
        match self {
            ActivityStatus::Active => ActivityStatus::Active,
            ActivityStatus::RecentlyActive => ActivityStatus::RecentlyActive,
            ActivityStatus::Idle(d) => ActivityStatus::Idle(d.clone()),
        }
    }
}

impl Clone for TmuxSession {
    fn clone(&self) -> (r: TmuxSession)
        ensures
            r@ == self@,
    {
        let mut windows: Vec<TmuxWindow> = Vec::new();
        for i in 0..self.windows.len()
            invariant
                windows_view(windows@) == windows_view(self.windows@).take(i as int),
        {
            let w = self.windows[i].clone();
            assert(w@ == self.windows@[i as int]@);
            let ghost before = windows@;
            windows.push(w);
            assert(windows_view(windows@) =~= windows_view(before).push(self.windows@[i as int]@));
            assert(windows_view(self.windows@).take(i + 1) =~= windows_view(self.windows@).take(
                i as int,
            ).push(self.windows@[i as int]@));
            assert(windows_view(windows@) =~= windows_view(self.windows@).take(i + 1));
        }
        assert(windows_view(self.windows@).take(self.windows.len() as int) =~= windows_view(
            self.windows@,
        ));
        TmuxSession { name: self.name.clone(), windows }
    }
}

/// The tmux target that names window `w`: `session:index`.
pub open spec fn target_spec(w: WindowView) -> Seq<char> {
    w.session_name + seq![':'] + decimal(w.window_index as nat)
}

/// Whole seconds from the window's last activity to `now`, zero when the activity
/// lies in the future.
pub open spec fn elapsed_secs(w: WindowView, now: i64) -> nat {
    if now - w.pane_last_activity > 0 { (now - w.pane_last_activity) as nat } else { 0 }
}

/// `Ns ago` below a minute, `Nm ago` below an hour, `Nh ago` beyond, each rounded
/// down.
pub open spec fn elapsed_text(e: nat) -> Seq<char> {
    if e < 60 {
        decimal(e) + seq!['s', ' ', 'a', 'g', 'o']
    } else if e < 3600 {
        decimal(e / 60) + seq!['m', ' ', 'a', 'g', 'o']
    } else {
        decimal(e / 3600) + seq!['h', ' ', 'a', 'g', 'o']
    }
}

/// Which status a window has when `now` is the current Unix time.
pub open spec fn activity_spec(w: WindowView, now: i64) -> ActivityStatus {
    let e = elapsed_secs(w, now);
    if e <= 10 {
        ActivityStatus::Active
    } else if e <= 60 {
        ActivityStatus::RecentlyActive
    } else {
        ActivityStatus::Idle(duration_of_secs(e as u64))
    }
}

impl TmuxWindow {
    fn elapsed_at(&self, now: i64) -> (e: u64)
        ensures
            e == elapsed_secs(self@, now),
    {
        let d: i128 = now as i128 - self.pane_last_activity as i128;
        if d > 0 {
            d as u64
        } else {
            0
        }
    }

    /// The activity status when `now` is the current Unix time.
    pub fn activity_status(&self, now: i64) -> (r: ActivityStatus)
        ensures
            r == activity_spec(self@, now),
    {
        let elapsed = self.elapsed_at(now);
        if elapsed <= 10 {
            ActivityStatus::Active
        } else if elapsed <= 60 {
            ActivityStatus::RecentlyActive
        } else {
            ActivityStatus::Idle(duration_from_secs(elapsed))
        }
    }

    /// How long ago the window was active, when `now` is the current Unix time.
    pub fn elapsed_display(&self, now: i64) -> (r: String)
        ensures
            r@ == elapsed_text(elapsed_secs(self@, now)),
    {
        let elapsed = self.elapsed_at(now);
        let mut out: Vec<char> = Vec::new();
        let unit: char;
        if elapsed < 60 {
            push_decimal(&mut out, elapsed);
            unit = 's';
        } else if elapsed < 3600 {
            push_decimal(&mut out, elapsed / 60);
            unit = 'm';
        } else {
            push_decimal(&mut out, elapsed / 3600);
            unit = 'h';
        }
        out.push(unit);
        out.push(' ');
        out.push('a');
        out.push('g');
        out.push('o');
        let ghost e = elapsed as nat;
        assert(out@ =~= elapsed_text(e));
        string_of(&out)
    }

    /// The tmux target of this window: `session:index`.
    pub fn target(&self) -> (r: String)
        ensures
            r@ == target_spec(self@),
    {
        let mut out = chars_of(self.session_name.as_str());
        out.push(':');
        push_decimal(&mut out, self.window_index as u64);
        string_of(&out)
    }
}


/// The window that one line of `tmux list-windows` output describes, for the
/// format `index TAB name TAB command TAB last-activity TAB active-flag`: `None`
/// when the line has fewer than five tab-separated fields. An index or activity
/// time that does not parse counts as zero; the window is active when the last
/// field is exactly `1`.
pub open spec fn window_from_line(session: Seq<char>, line: Seq<char>) -> Option<WindowView> {
    let parts = splitn_spec(line, 5, '\t');
    if parts.len() < 5 {
        None
    } else {
        Some(
            WindowView {
                session_name: session,
                window_index: match parse_u32_spec(parts[0]) {
                    Some(v) => v,
                    None => 0,
                },
                window_name: parts[1],
                pane_current_command: parts[2],
                pane_last_activity: match parse_i64_spec(parts[3]) {
                    Some(v) => v,
                    None => 0,
                },
                is_active: parts[4] == seq!['1'],
            },
        )
    }
}

/// The windows described by `lines`, in order, skipping empty lines and lines
/// that describe no window.
pub open spec fn windows_from_lines(session: Seq<char>, lines: Seq<Seq<char>>) -> Seq<WindowView>
    decreases lines.len(),
{
    if lines.len() == 0 {
        Seq::empty()
    } else {
        let prev = windows_from_lines(session, lines.drop_last());
        let line = lines.last();
        if line.len() == 0 {
            prev
        } else {
            match window_from_line(session, line) {
                Some(w) => prev.push(w),
                None => prev,
            }
        }
    }
}

/// The windows of `session` that a `tmux list-windows` output describes.
pub open spec fn windows_spec(session: Seq<char>, output: Seq<char>) -> Seq<WindowView> {
    windows_from_lines(session, lines_spec(output))
}

/// The non-empty lines among `lines`, in order.
pub open spec fn nonempty_lines(lines: Seq<Seq<char>>) -> Seq<Seq<char>>
    decreases lines.len(),
{
    if lines.len() == 0 {
        Seq::empty()
    } else if lines.last().len() == 0 {
        nonempty_lines(lines.drop_last())
    } else {
        nonempty_lines(lines.drop_last()).push(lines.last())
    }
}

/// The session names in a `tmux list-sessions` output: its non-empty lines.
pub open spec fn session_names_spec(output: Seq<char>) -> Seq<Seq<char>> {
    nonempty_lines(lines_spec(output))
}

/// The characters that `String::from_utf8_lossy` decodes from `bytes`.
pub uninterp spec fn utf8_lossy(bytes: Seq<u8>) -> Seq<char>;

/// `String::from_utf8_lossy(bytes)`, owned: `bytes` read as UTF-8 with each invalid
/// sequence replaced by U+FFFD.
#[verifier::external_body]
fn decode_lossy(bytes: &[u8]) -> (s: String)
    ensures
        s@ == utf8_lossy(bytes@),
{
    String::from_utf8_lossy(bytes).into_owned()
}

fn window_from_line_exec(session: &str, line: &Vec<char>) -> (r: Option<TmuxWindow>)
    ensures
        match r {
            Some(w) => window_from_line(session@, line@) == Some(w@),
            None => window_from_line(session@, line@) is None,
        },
{
    let parts = splitn_of(line, 5, '\t');
    assert(parts@.len() == splitn_spec(line@, 5, '\t').len());
    if parts.len() < 5 {
        return None;
    }
    let ghost ps = splitn_spec(line@, 5, '\t');
    assert(parts@[0]@ == ps[0]);
    assert(parts@[1]@ == ps[1]);
    assert(parts@[2]@ == ps[2]);
    assert(parts@[3]@ == ps[3]);
    assert(parts@[4]@ == ps[4]);
    let window_index = match parse_u32(&parts[0]) {
        Some(v) => v,
        None => 0,
    };
    let pane_last_activity = match parse_i64(&parts[3]) {
        Some(v) => v,
        None => 0,
    };
    let is_active = parts[4].len() == 1 && parts[4][0] == '1';
    assert(is_active <==> ps[4] == seq!['1']) by {
        if ps[4].len() == 1 && ps[4][0] == '1' {
            assert(ps[4] =~= seq!['1']);
        }
    }
    Some(
        TmuxWindow {
            session_name: session.to_owned(),
            window_index,
            window_name: string_of(&parts[1]),
            pane_current_command: string_of(&parts[2]),
            pane_last_activity,
            is_active,
        },
    )
}

/// The windows of `session` that `output`, the text that
/// `tmux list-windows -F "#{window_index}\t#{window_name}\t#{pane_current_command}\t#{pane_last_activity}\t#{window_active}"`
/// printed, describes.
pub fn windows_in(session: &str, output: &str) -> (r: Vec<TmuxWindow>)
    ensures
        windows_view(r@) == windows_spec(session@, output@),
{
    let chars = chars_of(output);
    let lines = lines_of(&chars);
    let ghost ls = lines_spec(output@);
    assert(lines@.len() == ls.len());
    let mut out: Vec<TmuxWindow> = Vec::new();
    for i in 0..lines.len()
        invariant
            lines@.map_values(|l: Vec<char>| l@) == ls,
            windows_view(out@) == windows_from_lines(session@, ls.take(i as int)),
    {
        assert(lines@[i as int]@ == ls[i as int]);
        assert(ls.take(i + 1).drop_last() == ls.take(i as int));
        assert(ls.take(i + 1).last() == ls[i as int]);
        if lines[i].len() > 0 {
            match window_from_line_exec(session, &lines[i]) {
                Some(w) => {
                    let ghost before = out@;
                    out.push(w);
                    assert(windows_view(out@) =~= windows_view(before).push(out@.last()@));
                },
                None => {},
            }
        }
    }
    assert(ls.take(lines@.len() as int) == ls);
    out
}

/// The session names in `output`, the text that
/// `tmux list-sessions -F "#{session_name}"` printed: its non-empty lines.
pub fn session_names_in(output: &str) -> (r: Vec<String>)
    ensures
        r@.map_values(|s: String| s@) == session_names_spec(output@),
{
    let chars = chars_of(output);
    let lines = lines_of(&chars);
    let ghost ls = lines_spec(output@);
    assert(lines@.len() == ls.len());
    let mut out: Vec<String> = Vec::new();
    for i in 0..lines.len()
        invariant
            lines@.map_values(|l: Vec<char>| l@) == ls,
            out@.map_values(|s: String| s@) == nonempty_lines(ls.take(i as int)),
    {
        assert(lines@[i as int]@ == ls[i as int]);
        assert(ls.take(i + 1).drop_last() == ls.take(i as int));
        assert(ls.take(i + 1).last() == ls[i as int]);
        if lines[i].len() > 0 {
            let ghost before = out@;
            out.push(string_of(&lines[i]));
            assert(out@.map_values(|s: String| s@) =~= before.map_values(|s: String| s@).push(
                ls[i as int],
            ));
        }
    }
    assert(ls.take(lines@.len() as int) == ls);
    out
}

/// The session names in the raw bytes that `tmux list-sessions` printed.
pub fn parse_session_names(stdout: &[u8]) -> (r: Vec<String>)
    ensures
        r@.map_values(|s: String| s@) == session_names_spec(utf8_lossy(stdout@)),
{
    let text = decode_lossy(stdout);
    session_names_in(text.as_str())
}

/// The windows of `session` in the raw bytes that `tmux list-windows` printed.
pub fn parse_windows(session: &str, stdout: &[u8]) -> (r: Vec<TmuxWindow>)
    ensures
        windows_view(r@) == windows_spec(session@, utf8_lossy(stdout@)),
{
    let text = decode_lossy(stdout);
    windows_in(session, text.as_str())
}

/// The preview text of a pane from the raw bytes that `tmux capture-pane -p -e`
/// printed: decoded, with its escape sequences removed.
pub fn pane_preview(stdout: &[u8]) -> (r: String)
    ensures
        r@ == strip_ansi_spec(utf8_lossy(stdout@)),
{
    let text = decode_lossy(stdout);
    strip_ansi_codes(text.as_str())
}

proof fn lemma_nonempty_lines_all(ls: Seq<Seq<char>>)
    requires
        forall|k: int| 0 <= k < ls.len() ==> (#[trigger] ls[k]).len() > 0,
    ensures
        nonempty_lines(ls) == ls,
    decreases ls.len(),
{
    if ls.len() > 0 {
        let ls0 = ls.drop_last();
        assert forall|k: int| 0 <= k < ls0.len() implies (#[trigger] ls0[k]).len() > 0 by {
            assert(ls0[k] == ls[k]);
        }
        lemma_nonempty_lines_all(ls0);
        assert(ls[ls.len() - 1] == ls.last());
        assert(ls0.push(ls.last()) =~= ls);
    }
}

/// The session names of an output made of names, one per line, are exactly those
/// names, whole and in order (spaces and all), when each is non-empty, holds no
/// `\n` and does not end with `\r`.
pub proof fn session_names_are_the_lines(names: Seq<Seq<char>>)
    requires
        forall|k: int| 0 <= k < names.len() ==> (#[trigger] names[k]).len() > 0,
        forall|k: int| 0 <= k < names.len() ==> !(#[trigger] names[k]).contains('\n'),
        forall|k: int| 0 <= k < names.len() ==> (#[trigger] names[k]).last() != '\r',
    ensures
        session_names_spec(join_lines(names)) == names,
{
    lines_of_joined_lines(names);
    lemma_nonempty_lines_all(names);
}

/// A line `index TAB name TAB command TAB activity TAB flag` whose first four
/// fields hold no tab describes a window of `session` with exactly that name and
/// command (spaces and all), active exactly when the flag is `1`, with the index
/// and activity time that the fields spell out in decimal.
pub proof fn window_line_fields(
    session: Seq<char>,
    f0: Seq<char>,
    f1: Seq<char>,
    f2: Seq<char>,
    f3: Seq<char>,
    f4: Seq<char>,
)
    requires
        !f0.contains('\t'),
        !f1.contains('\t'),
        !f2.contains('\t'),
        !f3.contains('\t'),
    ensures
        window_from_line(
            session,
            f0 + seq!['\t'] + f1 + seq!['\t'] + f2 + seq!['\t'] + f3 + seq!['\t'] + f4,
        ) matches Some(w) && {
            &&& w.session_name == session
            &&& w.window_name == f1
            &&& w.pane_current_command == f2
            &&& (w.is_active <==> f4 == seq!['1'])
            &&& (f0.len() > 0 && all_digits(f0) && digits_value(f0) <= u32::MAX) ==> w.window_index
                == digits_value(f0)
            &&& (f3.len() > 0 && all_digits(f3) && digits_value(f3) <= i64::MAX) ==> w.pane_last_activity
                == digits_value(f3)
        },
{
    splitn_five_fields(f0, f1, f2, f3, f4);
    if f0.len() > 0 && all_digits(f0) {
        assert(f0[0] != '+');
    }
    if f3.len() > 0 && all_digits(f3) {
        assert(f3[0] != '+' && f3[0] != '-');
    }
}

/// A `tmux list-windows` output of one such line, followed by `\n`, describes
/// exactly the window of that line, when the flag holds no `\n` and does not end
/// with `\r` and no field holds a `\n`.
pub proof fn windows_of_one_line(
    session: Seq<char>,
    f0: Seq<char>,
    f1: Seq<char>,
    f2: Seq<char>,
    f3: Seq<char>,
    f4: Seq<char>,
)
    requires
        !f0.contains('\t'),
        !f1.contains('\t'),
        !f2.contains('\t'),
        !f3.contains('\t'),
        !(f0 + seq!['\t'] + f1 + seq!['\t'] + f2 + seq!['\t'] + f3 + seq!['\t'] + f4).contains('\n'),
        f4.len() == 0 || f4.last() != '\r',
    ensures
        ({
            let line = f0 + seq!['\t'] + f1 + seq!['\t'] + f2 + seq!['\t'] + f3 + seq!['\t'] + f4;
            windows_spec(session, line + seq!['\n']) == seq![window_from_line(session, line)->0]
        }),
{
    let line = f0 + seq!['\t'] + f1 + seq!['\t'] + f2 + seq!['\t'] + f3 + seq!['\t'] + f4;
    window_line_fields(session, f0, f1, f2, f3, f4);
    assert(line.len() > 0);
    assert(line.last() != '\r') by {
        if f4.len() > 0 {
            assert(line.last() == f4.last());
        } else {
            assert(line.last() == '\t');
        }
    }
    let ls = seq![line];
    assert(ls.drop_last() =~= Seq::<Seq<char>>::empty());
    assert(ls.last() == line);
    assert(join_lines(Seq::<Seq<char>>::empty()) =~= Seq::<char>::empty());
    assert(join_lines(ls) =~= line + seq!['\n']);
    assert forall|k: int| 0 <= k < ls.len() implies !(#[trigger] ls[k]).contains('\n') by {
        assert(ls[k] == line);
    }
    assert forall|k: int| 0 <= k < ls.len() implies (#[trigger] ls[k]).len() == 0 || ls[k].last()
        != '\r' by {
        assert(ls[k] == line);
    }
    lines_of_joined_lines(ls);
    assert(lines_spec(line + seq!['\n']) == ls);
    assert(windows_from_lines(session, Seq::<Seq<char>>::empty()) =~= Seq::<WindowView>::empty());
    assert(windows_from_lines(session, ls) =~= seq![window_from_line(session, line)->0]);
}

} // verus!
