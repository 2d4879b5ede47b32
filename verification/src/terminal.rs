//! Detach key detection for the interactive client.
//!
//! The detector recognises Ctrl+B followed by `d` (tmux style) in a raw
//! byte stream, in two encodings each: the legacy control byte `0x02`
//! and the Kitty keyboard protocol's `CSI 98;5 u` for Ctrl+B; the plain
//! byte `d` and Kitty's `CSI 100 u` / `CSI 100;1 u` for the `d`. While a
//! prefix is pending, terminal-injected escape sequences (focus events,
//! cursor reports, mouse reports) are buffered and forwarded without
//! cancelling the pending detach.

use vstd::prelude::*;

verus! {

/// Where the detector stands in the byte stream.
#[derive(Debug, Clone, Copy, PartialEq, Eq, Structural)]
pub enum DetectState {
    /// Idle: looking for a legacy `0x02` or the start of a Kitty CSI.
    Normal,
    /// Saw the Ctrl+B prefix: waiting for `d` (escapes are skipped).
    SawPrefix,
    /// Inside `SawPrefix`: saw an escape byte.
    SawPrefixEsc,
    /// Inside `SawPrefix`: consuming a CSI sequence.
    SawPrefixCsi,
    /// From `Normal`: saw an escape byte, might start a Kitty CSI.
    Esc,
    /// From `Normal`: accumulating CSI parameters for the Kitty check.
    Csi,
}

/// The index of the first occurrence of `b` in `s`.
pub open spec fn spec_find_byte(s: Seq<u8>, b: u8) -> Option<int>
    decreases s.len(),
{
    if s.len() == 0 {
        None
    } else if s[0] == b {
        Some(0int)
    } else {
        match spec_find_byte(s.skip(1), b) {
            Some(i) => Some(i + 1),
            None => None,
        }
    }
}

/// The prefix of `s` up to (not including) the first `b`, or all of `s`.
pub open spec fn spec_take_until(s: Seq<u8>, b: u8) -> Seq<u8> {
    match spec_find_byte(s, b) {
        Some(i) => s.subrange(0, i),
        None => s,
    }
}

/// What follows the first `b` in `s`, if `b` occurs at all.
pub open spec fn spec_after_first(s: Seq<u8>, b: u8) -> Option<Seq<u8>> {
    match spec_find_byte(s, b) {
        Some(i) => Some(s.skip(i + 1)),
        None => None,
    }
}

/// Whether every byte is an ASCII decimal digit.
pub open spec fn spec_all_digits(s: Seq<u8>) -> bool {
    forall|i: int| 0 <= i < s.len() ==> 0x30 <= #[trigger] s[i] <= 0x39
}

/// The value of a run of ASCII decimal digits.
pub open spec fn spec_digits_val(s: Seq<u8>) -> int
    decreases s.len(),
{
    if s.len() == 0 {
        0
    } else {
        spec_digits_val(s.drop_last()) * 10 + (s.last() - 0x30)
    }
}

/// A 32-bit decimal number as the standard parser reads it: an optional
/// leading plus sign, then one or more digits, no other bytes, and a
/// value within range.
pub open spec fn spec_parse_u32(s: Seq<u8>) -> Option<u32> {
    let body = if s.len() > 0 && s[0] == 0x2b {
        s.skip(1)
    } else {
        s
    };
    if body.len() == 0 || !spec_all_digits(body) || spec_digits_val(body) > u32::MAX {
        None
    } else {
        Some(spec_digits_val(body) as u32)
    }
}

/// The (codepoint, modifier) of a Kitty `CSI u` parameter run, in the
/// shape `codepoint[:..][;modifier[:..][;..]]`; the modifier defaults to
/// 1 when absent or unreadable, and an unreadable codepoint is a
/// non-match.
pub open spec fn spec_parse_kitty(params: Seq<u8>) -> Option<(u32, u32)> {
    let first = spec_take_until(params, 0x3b);
    match spec_parse_u32(spec_take_until(first, 0x3a)) {
        None => None,
        Some(cp) => {
            let modifier = match spec_after_first(params, 0x3b) {
                None => 1u32,
                Some(rest) => {
                    let mf = spec_take_until(spec_take_until(rest, 0x3b), 0x3a);
                    match spec_parse_u32(mf) {
                        Some(m) => m,
                        None => 1u32,
                    }
                },
            };
            Some((cp, modifier))
        },
    }
}

/// Whether accumulated CSI parameters are Kitty Ctrl+B: codepoint 98
/// (`b`), modifier 5 (1 + Ctrl).
pub open spec fn spec_is_kitty_ctrl_b(params: Seq<u8>) -> bool {
    spec_parse_kitty(params) == Some((98u32, 5u32))
}

/// Whether a buffered CSI sequence `ESC [ params u` is Kitty `d`:
/// codepoint 100, no modifiers.
pub open spec fn spec_is_kitty_d(buf: Seq<u8>) -> bool {
    buf.len() >= 4 && spec_parse_kitty(buf.subrange(2, buf.len() - 1)) == Some((100u32, 1u32))
}

/// One step of the detector: from a state (with its escape buffer and
/// CSI parameters) and one input byte to the next state, whether a
/// detach was recognised, and the bytes to forward to the session.
pub open spec fn spec_feed(
    st: DetectState,
    buf: Seq<u8>,
    params: Seq<u8>,
    byte: u8,
) -> (DetectState, Seq<u8>, Seq<u8>, bool, Seq<u8>) {
    match st {
        DetectState::Normal => {
            if byte == 0x02 {
                (DetectState::SawPrefix, buf, params, false, Seq::empty())
            } else if byte == 0x1b {
                (DetectState::Esc, seq![0x1bu8], params, false, Seq::empty())
            } else {
                (DetectState::Normal, buf, params, false, seq![byte])
            }
        },
        DetectState::SawPrefix => {
            if byte == 0x64 {
                (DetectState::Normal, buf, params, true, Seq::empty())
            } else if byte == 0x1b {
                (DetectState::SawPrefixEsc, seq![0x1bu8], params, false, Seq::empty())
            } else {
                (DetectState::Normal, buf, params, false, seq![0x02u8, byte])
            }
        },
        DetectState::SawPrefixEsc => {
            if byte == 0x5b {
                (DetectState::SawPrefixCsi, buf.push(byte), params, false, Seq::empty())
            } else {
                (DetectState::SawPrefix, Seq::empty(), params, false, buf.push(byte))
            }
        },
        DetectState::SawPrefixCsi => {
            if 0x20 <= byte && byte <= 0x3f {
                (DetectState::SawPrefixCsi, buf.push(byte), params, false, Seq::empty())
            } else if 0x40 <= byte && byte <= 0x7e {
                if byte == 0x75 {
                    if spec_is_kitty_d(buf.push(byte)) {
                        (DetectState::Normal, Seq::empty(), params, true, Seq::empty())
                    } else {
                        (
                            DetectState::Normal,
                            Seq::empty(),
                            params,
                            false,
                            seq![0x02u8] + buf.push(byte),
                        )
                    }
                } else {
                    (DetectState::SawPrefix, Seq::empty(), params, false, buf.push(byte))
                }
            } else {
                (DetectState::Normal, Seq::empty(), params, false, seq![0x02u8] + buf.push(byte))
            }
        },
        DetectState::Esc => {
            if byte == 0x5b {
                (DetectState::Csi, buf.push(byte), Seq::empty(), false, Seq::empty())
            } else {
                (DetectState::Normal, Seq::empty(), params, false, buf.push(byte))
            }
        },
        DetectState::Csi => {
            if 0x30 <= byte && byte <= 0x3f {
                (DetectState::Csi, buf.push(byte), params.push(byte), false, Seq::empty())
            } else if 0x20 <= byte && byte <= 0x2f {
                (DetectState::Csi, buf.push(byte), params, false, Seq::empty())
            } else if 0x40 <= byte && byte <= 0x7e {
                if byte == 0x75 && spec_is_kitty_ctrl_b(params) {
                    (DetectState::SawPrefix, Seq::empty(), Seq::empty(), false, Seq::empty())
                } else {
                    (DetectState::Normal, Seq::empty(), Seq::empty(), false, buf.push(byte))
                }
            } else {
                (DetectState::Normal, Seq::empty(), Seq::empty(), false, buf.push(byte))
            }
        },
    }
}

/// A whole buffer fed byte by byte: stops at the first detach, keeping
/// the bytes forwarded so far.
pub open spec fn spec_feed_all(
    st: DetectState,
    buf: Seq<u8>,
    params: Seq<u8>,
    input: Seq<u8>,
) -> (DetectState, Seq<u8>, Seq<u8>, bool, Seq<u8>)
    decreases input.len(),
{
    if input.len() == 0 {
        (st, buf, params, false, Seq::empty())
    } else {
        let t = spec_feed(st, buf, params, input[0]);
        if t.3 {
            (t.0, t.1, t.2, true, Seq::empty())
        } else {
            let rest = spec_feed_all(t.0, t.1, t.2, input.skip(1));
            (rest.0, rest.1, rest.2, rest.3, t.4 + rest.4)
        }
    }
}

/// Detach key sequence detector: recognises Ctrl+B `d`, legacy or Kitty
/// encoded, buffering and forwarding terminal-injected escape sequences
/// that arrive in between.
#[derive(Debug)]
pub struct DetachDetector {
    /// Where the detector stands.
    pub state: DetectState,
    /// Bytes buffered while parsing escapes (forwarded when the escape
    /// turns out not to be part of a detach).
    pub buf: Vec<u8>,
    /// CSI parameter bytes accumulated for the Kitty Ctrl+B check.
    pub params: Vec<u8>,
}

/// The index of the first occurrence of `b` within `v[start..end]`,
/// counted from the start of that range.
fn find_byte_in(v: &Vec<u8>, start: usize, end: usize, b: u8) -> (r: Option<usize>)
    requires
        start <= end <= v@.len(),
    ensures
        match r {
            Some(i) => start + i < end && Some(i as int) == spec_find_byte(
                v@.subrange(start as int, end as int),
                b,
            ),
            None => spec_find_byte(v@.subrange(start as int, end as int), b) is None,
        },
{
    let ghost whole = v@.subrange(start as int, end as int);
    let mut j: usize = start;
    proof {
        assert(whole.skip(0) =~= whole);
    }
    while j < end
        invariant
            start <= j <= end <= v@.len(),
            whole == v@.subrange(start as int, end as int),
            spec_find_byte(whole, b) == match spec_find_byte(whole.skip(j - start), b) {
                Some(i) => Some(i + (j - start)),
                None => None::<int>,
            },
        decreases end - j,
    {
        proof {
            assert(whole.skip(j - start)[0] == v@[j as int]);
            assert(whole.skip(j - start).skip(1) =~= whole.skip(j + 1 - start));
        }
        if v[j] == b {
            return Some(j - start);
        }
        j = j + 1;
    }
    proof {
        assert(whole.skip(end - start) =~= Seq::<u8>::empty());
    }
    None
}

/// The value of digits grows, or stays, as more digits arrive.
proof fn lemma_digits_val_nonneg(s: Seq<u8>)
    requires
        spec_all_digits(s),
    ensures
        spec_digits_val(s) >= 0,
    decreases s.len(),
{
    if s.len() > 0 {
        assert(spec_all_digits(s.drop_last())) by {
            assert(forall|i: int| 0 <= i < s.len() - 1 ==> s.drop_last()[i] == s[i]);
        }
        lemma_digits_val_nonneg(s.drop_last());
    }
}

/// A prefix of a digit run never exceeds the whole run's value.
proof fn lemma_digits_val_prefix(s: Seq<u8>, i: int)
    requires
        spec_all_digits(s),
        0 <= i <= s.len(),
    ensures
        spec_digits_val(s.subrange(0, i)) <= spec_digits_val(s),
    decreases s.len() - i,
{
    if i == s.len() {
        assert(s.subrange(0, i) =~= s);
    } else {
        lemma_digits_val_prefix(s, i + 1);
        let p = s.subrange(0, i + 1);
        assert(p.drop_last() =~= s.subrange(0, i));
        assert(p.last() == s[i]);
        lemma_digits_val_nonneg(s.subrange(0, i));
        assert(spec_all_digits(s.subrange(0, i))) by {
            assert(forall|k: int| 0 <= k < i ==> s.subrange(0, i)[k] == s[k]);
        }
        assert(spec_digits_val(s.subrange(0, i)) <= spec_digits_val(p));
    }
}

/// Parse a 32-bit decimal number from `v[start..end]`, as the standard
/// parser would: optional leading plus, digits only, in range.
fn parse_u32_in(v: &Vec<u8>, start: usize, end: usize) -> (r: Option<u32>)
    requires
        start <= end <= v@.len(),
    ensures
        r == spec_parse_u32(v@.subrange(start as int, end as int)),
{
    let ghost whole = v@.subrange(start as int, end as int);
    let body_start = if start < end && v[start] == 0x2b {
        start + 1
    } else {
        start
    };
    let ghost body = v@.subrange(body_start as int, end as int);
    proof {
        if start < end && v@[start as int] == 0x2b {
            assert(whole[0] == 0x2b);
            assert(whole.skip(1) =~= body);
        } else {
            assert(whole =~= body);
        }
    }
    if body_start == end {
        return None;
    }
    let mut acc: u64 = 0;
    let mut j: usize = body_start;
    while j < end
        invariant
            start <= body_start <= j <= end <= v@.len(),
            whole == v@.subrange(start as int, end as int),
            body == v@.subrange(body_start as int, end as int),
            body == (if whole.len() > 0 && whole[0] == 0x2b {
                whole.skip(1)
            } else {
                whole
            }),
            spec_all_digits(body.subrange(0, j - body_start)),
            acc == spec_digits_val(body.subrange(0, j - body_start)),
            acc <= u32::MAX,
        decreases end - j,
    {
        let b = v[j];
        if b < 0x30 || b > 0x39 {
            proof {
                assert(body[j - body_start] == b);
                assert(!spec_all_digits(body));
                assert(body.len() > 0);
                assert(spec_parse_u32(whole) is None);
            }
            return None;
        }
        let next: u64 = acc * 10 + (b - 0x30) as u64;
        proof {
            let p = body.subrange(0, j + 1 - body_start);
            assert(p.drop_last() =~= body.subrange(0, j - body_start));
            assert(p.last() == body[j - body_start] && body[j - body_start] == b);
            assert(spec_all_digits(p)) by {
                assert(forall|k: int|
                    0 <= k < p.len() - 1 ==> p[k] == body.subrange(0, j - body_start)[k]);
            }
        }
        if next > 0xffff_ffff {
            proof {
                if spec_all_digits(body) {
                    lemma_digits_val_prefix(body, j + 1 - body_start);
                    assert(spec_digits_val(body.subrange(0, j + 1 - body_start)) == next);
                    assert(spec_digits_val(body) > u32::MAX);
                }
                assert(spec_parse_u32(whole) is None);
            }
            return None;
        }
        acc = next;
        j = j + 1;
    }
    proof {
        assert(body.subrange(0, end - body_start) =~= body);
    }
    Some(acc as u32)
}

/// Parse a Kitty `CSI u` parameter run from `v[start..end]`.
fn parse_kitty_in(v: &Vec<u8>, start: usize, end: usize) -> (r: Option<(u32, u32)>)
    requires
        start <= end <= v@.len(),
    ensures
        r == spec_parse_kitty(v@.subrange(start as int, end as int)),
{
    let ghost params = v@.subrange(start as int, end as int);
    let first_end = match find_byte_in(v, start, end, 0x3b) {
        Some(i) => start + i,
        None => end,
    };
    proof {
        assert(spec_take_until(params, 0x3b) =~= v@.subrange(start as int, first_end as int));
    }
    let cp_end = match find_byte_in(v, start, first_end, 0x3a) {
        Some(i) => start + i,
        None => first_end,
    };
    proof {
        assert(spec_take_until(spec_take_until(params, 0x3b), 0x3a) =~= v@.subrange(
            start as int,
            cp_end as int,
        ));
    }
    let cp = match parse_u32_in(v, start, cp_end) {
        Some(cp) => cp,
        None => {
            return None;
        },
    };
    let modifier: u32 = if first_end < end {
        let m_start = first_end + 1;
        proof {
            assert(spec_after_first(params, 0x3b) == Some(
                v@.subrange(m_start as int, end as int),
            )) by {
                assert(params.skip(first_end - start + 1) =~= v@.subrange(
                    m_start as int,
                    end as int,
                ));
            }
        }
        let ghost rest = v@.subrange(m_start as int, end as int);
        let second_end = match find_byte_in(v, m_start, end, 0x3b) {
            Some(i) => m_start + i,
            None => end,
        };
        proof {
            assert(spec_take_until(rest, 0x3b) =~= v@.subrange(m_start as int, second_end as int));
        }
        let mf_end = match find_byte_in(v, m_start, second_end, 0x3a) {
            Some(i) => m_start + i,
            None => second_end,
        };
        proof {
            assert(spec_take_until(spec_take_until(rest, 0x3b), 0x3a) =~= v@.subrange(
                m_start as int,
                mf_end as int,
            ));
        }
        match parse_u32_in(v, m_start, mf_end) {
            Some(m) => m,
            None => 1,
        }
    } else {
        proof {
            assert(spec_after_first(params, 0x3b) is None);
        }
        1
    };
    Some((cp, modifier))
}

impl DetachDetector {
    /// A fresh detector in the idle state.
    pub fn new() -> (d: DetachDetector)
        ensures
            d.state == DetectState::Normal,
            d.buf@ == Seq::<u8>::empty(),
            d.params@ == Seq::<u8>::empty(),
    {
        DetachDetector { state: DetectState::Normal, buf: Vec::new(), params: Vec::new() }
    }

    /// Feed a single byte. Returns whether a detach was recognised and
    /// the bytes to forward to the session, exactly as the one-step
    /// transition gives them.
    pub fn feed(&mut self, byte: u8) -> (r: (bool, Vec<u8>))
        ensures
            ({
                let t = spec_feed(old(self).state, old(self).buf@, old(self).params@, byte);
                &&& final(self).state == t.0
                &&& final(self).buf@ == t.1
                &&& final(self).params@ == t.2
                &&& r.0 == t.3
                &&& r.1@ == t.4
            }),
    {
        match self.state {
            DetectState::Normal => {
                if byte == 0x02 {
                    self.state = DetectState::SawPrefix;
                    (false, Vec::new())
                } else if byte == 0x1b {
                    self.state = DetectState::Esc;
                    self.buf.clear();
                    self.buf.push(byte);
                    proof {
                        assert(self.buf@ =~= seq![0x1bu8]);
                    }
                    (false, Vec::new())
                } else {
                    let mut fwd: Vec<u8> = Vec::new();
                    fwd.push(byte);
                    proof {
                        assert(fwd@ =~= seq![byte]);
                    }
                    (false, fwd)
                }
            },
            DetectState::SawPrefix => {
                if byte == 0x64 {
                    self.state = DetectState::Normal;
                    (true, Vec::new())
                } else if byte == 0x1b {
                    self.state = DetectState::SawPrefixEsc;
                    self.buf.clear();
                    self.buf.push(byte);
                    proof {
                        assert(self.buf@ =~= seq![0x1bu8]);
                    }
                    (false, Vec::new())
                } else {
                    self.state = DetectState::Normal;
                    let mut fwd: Vec<u8> = Vec::new();
                    fwd.push(0x02);
                    fwd.push(byte);
                    proof {
                        assert(fwd@ =~= seq![0x02u8, byte]);
                    }
                    (false, fwd)
                }
            },
            DetectState::SawPrefixEsc => {
                self.buf.push(byte);
                if byte == 0x5b {
                    self.state = DetectState::SawPrefixCsi;
                    (false, Vec::new())
                } else {
                    self.state = DetectState::SawPrefix;
                    let mut fwd: Vec<u8> = Vec::new();
                    std::mem::swap(&mut fwd, &mut self.buf);
                    (false, fwd)
                }
            },
            DetectState::SawPrefixCsi => {
                self.buf.push(byte);
                if 0x20 <= byte && byte <= 0x3f {
                    (false, Vec::new())
                } else if 0x40 <= byte && byte <= 0x7e {
                    if byte == 0x75 {
                        let is_d = self.buf.len() >= 4 && {
                            let e = self.buf.len() - 1;
                            parse_kitty_in(&self.buf, 2, e) == Some((100u32, 1u32))
                        };
                        if is_d {
                            self.state = DetectState::Normal;
                            self.buf.clear();
                            (true, Vec::new())
                        } else {
                            self.state = DetectState::Normal;
                            let mut fwd: Vec<u8> = Vec::new();
                            fwd.push(0x02);
                            fwd.append(&mut self.buf);
                            proof {
                                assert(fwd@ =~= seq![0x02u8] + old(self).buf@.push(byte));
                            }
                            (false, fwd)
                        }
                    } else {
                        self.state = DetectState::SawPrefix;
                        let mut fwd: Vec<u8> = Vec::new();
                        std::mem::swap(&mut fwd, &mut self.buf);
                        (false, fwd)
                    }
                } else {
                    self.state = DetectState::Normal;
                    let mut fwd: Vec<u8> = Vec::new();
                    fwd.push(0x02);
                    fwd.append(&mut self.buf);
                    proof {
                        assert(fwd@ =~= seq![0x02u8] + old(self).buf@.push(byte));
                    }
                    (false, fwd)
                }
            },
            DetectState::Esc => {
                self.buf.push(byte);
                if byte == 0x5b {
                    self.state = DetectState::Csi;
                    self.params.clear();
                    (false, Vec::new())
                } else {
                    self.state = DetectState::Normal;
                    let mut fwd: Vec<u8> = Vec::new();
                    std::mem::swap(&mut fwd, &mut self.buf);
                    (false, fwd)
                }
            },
            DetectState::Csi => {
                if 0x30 <= byte && byte <= 0x3f {
                    self.buf.push(byte);
                    self.params.push(byte);
                    (false, Vec::new())
                } else if 0x20 <= byte && byte <= 0x2f {
                    self.buf.push(byte);
                    (false, Vec::new())
                } else if 0x40 <= byte && byte <= 0x7e {
                    self.buf.push(byte);
                    let plen = self.params.len();
                    let is_ctrl_b = byte == 0x75 && parse_kitty_in(&self.params, 0, plen) == Some(
                        (98u32, 5u32),
                    );
                    proof {
                        assert(self.params@.subrange(0, self.params@.len() as int)
                            =~= self.params@);
                    }
                    if is_ctrl_b {
                        self.state = DetectState::SawPrefix;
                        self.buf.clear();
                        self.params.clear();
                        (false, Vec::new())
                    } else {
                        self.state = DetectState::Normal;
                        self.params.clear();
                        let mut fwd: Vec<u8> = Vec::new();
                        std::mem::swap(&mut fwd, &mut self.buf);
                        (false, fwd)
                    }
                } else {
                    self.buf.push(byte);
                    self.state = DetectState::Normal;
                    self.params.clear();
                    let mut fwd: Vec<u8> = Vec::new();
                    std::mem::swap(&mut fwd, &mut self.buf);
                    (false, fwd)
                }
            },
        }
    }

    /// Feed a whole buffer, byte by byte: stops at the first detach and
    /// returns the bytes forwarded so far.
    pub fn feed_buf(&mut self, input: &Vec<u8>) -> (r: (bool, Vec<u8>))
        ensures
            ({
                let t = spec_feed_all(old(self).state, old(self).buf@, old(self).params@, input@);
                &&& final(self).state == t.0
                &&& final(self).buf@ == t.1
                &&& final(self).params@ == t.2
                &&& r.0 == t.3
                &&& r.1@ == t.4
            }),
    {
        let ghost t = spec_feed_all(old(self).state, old(self).buf@, old(self).params@, input@);
        let mut forward: Vec<u8> = Vec::new();
        let mut i: usize = 0;
        proof {
            assert(input@.skip(0) =~= input@);
        }
        while i < input.len()
            invariant
                i <= input@.len(),
                t == spec_feed_all(old(self).state, old(self).buf@, old(self).params@, input@),
                ({
                    let rest = spec_feed_all(
                        self.state,
                        self.buf@,
                        self.params@,
                        input@.skip(i as int),
                    );
                    &&& t.0 == rest.0
                    &&& t.1 == rest.1
                    &&& t.2 == rest.2
                    &&& t.3 == rest.3
                    &&& t.4 == forward@ + rest.4
                }),
            decreases input@.len() - i,
        {
            proof {
                assert(input@.skip(i as int)[0] == input@[i as int]);
                assert(input@.skip(i as int).skip(1) =~= input@.skip(i + 1));
            }
            let (detach, bytes) = self.feed(input[i]);
            if detach {
                proof {
                    assert(t.4 =~= forward@);
                }
                return (true, forward);
            }
            let mut bytes = bytes;
            forward.append(&mut bytes);
            i = i + 1;
            proof {
                assert(input@.skip(input@.len() as int) =~= Seq::<u8>::empty());
            }
        }
        proof {
            assert(input@.skip(input@.len() as int) =~= Seq::<u8>::empty());
            assert(t.4 =~= forward@);
        }
        (false, forward)
    }
}

} // verus!
