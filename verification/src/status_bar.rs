//! Tmux-style status bar drawn on the last terminal row.
//!
//! The bar reports a reduced PTY size so the child sees one row less,
//! and renders a reverse-video status line on the last row. No scroll
//! region or alternate screen: content scrolls naturally. On terminals
//! under five rows the bar is disabled and only the terminal-mode resets
//! are emitted at teardown.

use vstd::prelude::*;

use crate::text::{spec_dec_nat, u64_to_dec, u32_to_dec};
use vstd::utf8::encode_utf8;

verus! {

#[verifier::external_type_specification]
#[verifier::external_body]
pub struct ExInstant(std::time::Instant);

/// Relies on std::time::Instant::now: an opaque monotonic timestamp.
#[verifier::external_body]
fn instant_now() -> (r: std::time::Instant) {
    std::time::Instant::now()
}

/// Relies on std::time::Instant::elapsed: the whole seconds since the
/// instant was taken. The value depends on the clock, so nothing is
/// promised of it.
#[verifier::external_body]
fn elapsed_secs(i: &std::time::Instant) -> (r: u64) {
    i.elapsed().as_secs()
}

/// A duration in whole seconds rendered compactly: seconds under a
/// minute, whole minutes under an hour, else hours and minutes.
pub open spec fn spec_format_duration(secs: nat) -> Seq<char> {
    if secs < 60 {
        spec_dec_nat(secs) + "s"@
    } else if secs < 3600 {
        spec_dec_nat(secs / 60) + "m"@
    } else {
        spec_dec_nat(secs / 3600) + "h"@ + spec_dec_nat((secs % 3600) / 60) + "m"@
    }
}

/// Render a duration in whole seconds compactly: "45s", "5m", "1h1m".
pub fn format_duration(secs: u64) -> (s: String)
    ensures
        s@ == spec_format_duration(secs as nat),
{
    if secs < 60 {
        let mut s = u64_to_dec(secs);
        s.append("s");
        s
    } else if secs < 3600 {
        let mut s = u64_to_dec(secs / 60);
        s.append("m");
        s
    } else {
        let mut s = u64_to_dec(secs / 3600);
        s.append("h");
        s.append(u64_to_dec((secs % 3600) / 60).as_str());
        s.append("m");
        s
    }
}

/// A run of spaces.
pub open spec fn spec_spaces(n: nat) -> Seq<char> {
    Seq::new(n, |i: int| ' ')
}

/// The visible text of the status bar, before padding: session id,
/// status, age, and the detach hint.
pub open spec fn spec_bar_content(id: u32, status: Seq<char>, age: Seq<char>) -> Seq<char> {
    " [cw] session "@ + spec_dec_nat(id as nat) + " | "@ + status + " | "@ + age + " | Ctrl+B d"@
}

/// The bar content padded with spaces to the row width, or truncated to
/// it.
pub open spec fn spec_padded(content: Seq<char>, cols: nat) -> Seq<char> {
    if content.len() >= cols {
        content.subrange(0, cols as int)
    } else {
        content + spec_spaces((cols - content.len()) as nat)
    }
}

/// The whole draw sequence: save cursor, move to the last row, write the
/// padded content in reverse video, restore cursor.
pub open spec fn spec_draw_chars(
    id: u32,
    status: Seq<char>,
    age: Seq<char>,
    cols: u16,
    rows: u16,
) -> Seq<char> {
    "\u{1b}7\u{1b}["@ + spec_dec_nat(rows as nat) + ";1H\u{1b}[7m"@ + spec_padded(
        spec_bar_content(id, status, age),
        cols as nat,
    ) + "\u{1b}[0m\u{1b}8"@
}

/// The teardown sequence: always reset the terminal modes a child may
/// have left on (alternate screen, hidden cursor, Kitty keyboard, focus
/// events, mouse tracking); when the bar was drawn, also clear its row.
pub open spec fn spec_teardown_chars(enabled: bool, rows: u16) -> Seq<char> {
    let resets =
        "\u{1b}[?1049l\u{1b}[?25h\u{1b}[<u\u{1b}[?1004l\u{1b}[?1000l\u{1b}[?1006l"@;
    if enabled {
        resets + "\u{1b}7\u{1b}["@ + spec_dec_nat(rows as nat) + ";1H\u{1b}[2K\u{1b}8"@
    } else {
        resets
    }
}

/// Tmux-style status bar state: the session it reports, the terminal
/// size, and whether the terminal is tall enough for a bar at all.
pub struct StatusBar {
    pub session_id: u32,
    pub status: String,
    pub started: std::time::Instant,
    pub rows: u16,
    pub cols: u16,
    pub enabled: bool,
}

impl StatusBar {
    /// The bar's invariant: it is enabled exactly on terminals of five
    /// rows or more, and reports the running state.
    pub open spec fn wf(&self) -> bool {
        &&& self.enabled == (self.rows >= 5)
        &&& self.status@ == "running"@
    }

    /// A bar for one session on a terminal of the given size.
    pub fn new(session_id: u32, cols: u16, rows: u16) -> (bar: StatusBar)
        ensures
            bar.wf(),
            bar.session_id == session_id,
            bar.cols == cols,
            bar.rows == rows,
            bar.enabled == (rows >= 5),
    {
        StatusBar {
            session_id,
            status: "running".to_owned(),
            started: instant_now(),
            rows,
            cols,
            enabled: rows >= 5,
        }
    }

    /// The PTY size to report to the node: one row shorter when the bar
    /// is enabled, so the child never writes into the bar's row.
    pub fn pty_size(&self) -> (r: (u16, u16))
        requires
            self.wf(),
        ensures
            r == (self.cols, if self.enabled {
                (self.rows - 1) as u16
            } else {
                self.rows
            }),
    {
        if self.enabled {
            (self.cols, self.rows - 1)
        } else {
            (self.cols, self.rows)
        }
    }

    /// The initial render: the draw sequence, or nothing when disabled.
    pub fn setup(&self) -> (out: Vec<u8>)
        requires
            self.wf(),
        ensures
            !self.enabled ==> out@ == Seq::<u8>::empty(),
            self.enabled ==> exists|age: u64|
                out@ == encode_utf8(
                    #[trigger] spec_draw_chars(
                        self.session_id,
                        self.status@,
                        spec_format_duration(age as nat),
                        self.cols,
                        self.rows,
                    ),
                ),
    {
        if !self.enabled {
            return Vec::new();
        }
        self.draw()
    }

    /// Clean up terminal state: reset the modes the child may have
    /// enabled, then clear the bar's row if a bar was drawn.
    pub fn teardown(&self) -> (out: Vec<u8>)
        ensures
            out@ == encode_utf8(spec_teardown_chars(self.enabled, self.rows)),
    {
        let mut s: String =
            "\u{1b}[?1049l\u{1b}[?25h\u{1b}[<u\u{1b}[?1004l\u{1b}[?1000l\u{1b}[?1006l".to_owned();
        if self.enabled {
            s.append("\u{1b}7\u{1b}[");
            s.append(u64_to_dec(self.rows as u64).as_str());
            s.append(";1H\u{1b}[2K\u{1b}8");
        }
        s.as_str().as_bytes_vec()
    }

    /// Draw the status bar: save cursor, render the padded reverse-video
    /// line on the last row, restore cursor. Empty when disabled. The
    /// age shown is whatever the clock says has elapsed since launch.
    pub fn draw(&self) -> (out: Vec<u8>)
        requires
            self.wf(),
        ensures
            !self.enabled ==> out@ == Seq::<u8>::empty(),
            self.enabled ==> exists|age: u64|
                out@ == encode_utf8(
                    #[trigger] spec_draw_chars(
                        self.session_id,
                        self.status@,
                        spec_format_duration(age as nat),
                        self.cols,
                        self.rows,
                    ),
                ),
    {
        if !self.enabled {
            return Vec::new();
        }
        let age = elapsed_secs(&self.started);
        let out = self.render(age);
        proof {
            assert(out@ == encode_utf8(
                spec_draw_chars(
                    self.session_id,
                    self.status@,
                    spec_format_duration(age as nat),
                    self.cols,
                    self.rows,
                ),
            ));
        }
        out
    }

    /// Render the bar for a given age in seconds: the deterministic part
    /// of drawing, once the clock has been read.
    pub fn render(&self, age_secs: u64) -> (out: Vec<u8>)
        ensures
            out@ == encode_utf8(
                spec_draw_chars(
                    self.session_id,
                    self.status@,
                    spec_format_duration(age_secs as nat),
                    self.cols,
                    self.rows,
                ),
            ),
    {
        let age = format_duration(age_secs);
        let mut content: String = " [cw] session ".to_owned();
        content.append(u32_to_dec(self.session_id).as_str());
        content.append(" | ");
        content.append(self.status.as_str());
        content.append(" | ");
        content.append(age.as_str());
        content.append(" | Ctrl+B d");
        let ghost content_view = spec_bar_content(
            self.session_id,
            self.status@,
            spec_format_duration(age_secs as nat),
        );
        proof {
            assert(content@ =~= content_view);
        }
        let cols = self.cols as usize;
        let clen = content.as_str().unicode_len();
        let mut s: String = "\u{1b}7\u{1b}[".to_owned();
        s.append(u64_to_dec(self.rows as u64).as_str());
        s.append(";1H\u{1b}[7m");
        if clen >= cols {
            s.append(content.as_str().substring_char(0, cols));
        } else {
            s.append(content.as_str());
            let mut k: usize = 0;
            proof {
                assert(s@ + spec_spaces(0) =~= s@);
            }
            let ghost base = s@;
            while k < cols - clen
                invariant
                    k <= cols - clen,
                    s@ == base + spec_spaces(k as nat),
                decreases cols - clen - k,
            {
                s.append(" ");
                k = k + 1;
                proof {
                    reveal_strlit(" ");
                    assert(" "@.len() == 1 && " "@[0] == ' ');
                    assert(base + spec_spaces(k as nat) =~= (base + spec_spaces((k - 1) as nat))
                        + " "@);
                }
            }
        }
        proof {
            if content_view.len() >= cols {
                assert(spec_padded(content_view, self.cols as nat) == content_view.subrange(
                    0,
                    cols as int,
                ));
            }
        }
        s.append("\u{1b}[0m\u{1b}8");
        proof {
            assert(s@ =~= spec_draw_chars(
                self.session_id,
                self.status@,
                spec_format_duration(age_secs as nat),
                self.cols,
                self.rows,
            ));
        }
        s.as_str().as_bytes_vec()
    }

    /// Handle a terminal resize: adopt the new size (re-deciding whether
    /// the bar fits) and redraw.
    pub fn resize(&mut self, cols: u16, rows: u16) -> (out: Vec<u8>)
        requires
            old(self).wf(),
        ensures
            final(self).wf(),
            final(self).cols == cols,
            final(self).rows == rows,
            final(self).enabled == (rows >= 5),
            final(self).session_id == old(self).session_id,
            !final(self).enabled ==> out@ == Seq::<u8>::empty(),
            final(self).enabled ==> exists|age: u64|
                out@ == encode_utf8(
                    #[trigger] spec_draw_chars(
                        final(self).session_id,
                        final(self).status@,
                        spec_format_duration(age as nat),
                        cols,
                        rows,
                    ),
                ),
    {
        self.cols = cols;
        self.rows = rows;
        self.enabled = rows >= 5;
        if !self.enabled {
            return Vec::new();
        }
        self.draw()
    }
}

} // verus!
