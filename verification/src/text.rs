//! Small string utilities shared across the crate: decimal rendering of
//! integers, lexicographic comparison, and substring search.

use vstd::prelude::*;

verus! {

/// The ASCII digit character for one decimal digit.
pub open spec fn spec_digit_char(d: int) -> char
    recommends
        0 <= d < 10,
{
    if d == 0 {
        '0'
    } else if d == 1 {
        '1'
    } else if d == 2 {
        '2'
    } else if d == 3 {
        '3'
    } else if d == 4 {
        '4'
    } else if d == 5 {
        '5'
    } else if d == 6 {
        '6'
    } else if d == 7 {
        '7'
    } else if d == 8 {
        '8'
    } else {
        '9'
    }
}

/// The decimal rendering of a natural number, most significant digit
/// first, with no leading zeros (zero itself renders as "0").
pub open spec fn spec_dec_nat(n: nat) -> Seq<char>
    decreases n,
{
    if n < 10 {
        seq![spec_digit_char(n as int)]
    } else {
        spec_dec_nat(n / 10) + seq![spec_digit_char((n % 10) as int)]
    }
}

/// The decimal rendering of a signed number: a leading minus sign when
/// negative, then the digits of its absolute value.
pub open spec fn spec_dec_int(n: int) -> Seq<char> {
    if n < 0 {
        seq!['-'] + spec_dec_nat((-n) as nat)
    } else {
        spec_dec_nat(n as nat)
    }
}

fn digit_str(d: u64) -> (s: &'static str)
    requires
        d < 10,
    ensures
        s@ == seq![spec_digit_char(d as int)],
        s.is_ascii(),
{
    proof {
        reveal_strlit("0");
        reveal_strlit("1");
        reveal_strlit("2");
        reveal_strlit("3");
        reveal_strlit("4");
        reveal_strlit("5");
        reveal_strlit("6");
        reveal_strlit("7");
        reveal_strlit("8");
        reveal_strlit("9");
    }
    match d {
        0 => "0",
        1 => "1",
        2 => "2",
        3 => "3",
        4 => "4",
        5 => "5",
        6 => "6",
        7 => "7",
        8 => "8",
        _ => "9",
    }
}

/// Render a 64-bit unsigned number in decimal.
pub fn u64_to_dec(n: u64) -> (s: String)
    ensures
        s@ == spec_dec_nat(n as nat),
    decreases n,
{
    if n < 10 {
        digit_str(n).to_owned()
    } else {
        let mut s = u64_to_dec(n / 10);
        s.append(digit_str(n % 10));
        s
    }
}

/// Render a 32-bit unsigned number in decimal.
pub fn u32_to_dec(n: u32) -> (s: String)
    ensures
        s@ == spec_dec_nat(n as nat),
{
    u64_to_dec(n as u64)
}

/// Render a 32-bit signed number in decimal, with a minus sign when
/// negative.
pub fn i32_to_dec(n: i32) -> (s: String)
    ensures
        s@ == spec_dec_int(n as int),
{
    if n >= 0 {
        u64_to_dec(n as u64)
    } else {
        let wide: i64 = n as i64;
        let mag: u64 = (-wide) as u64;
        proof {
            assert(mag == -(n as int));
        }
        let mut s = "-".to_owned();
        proof {
            reveal_strlit("-");
        }
        s.append(u64_to_dec(mag).as_str());
        s
    }
}

/// Lexicographic order on character sequences, by code point.
pub open spec fn spec_lex_le(a: Seq<char>, b: Seq<char>) -> bool
    decreases a.len(),
{
    if a.len() == 0 {
        true
    } else if b.len() == 0 {
        false
    } else if a[0] != b[0] {
        (a[0] as u32) < (b[0] as u32)
    } else {
        spec_lex_le(a.skip(1), b.skip(1))
    }
}

/// Compare two strings lexicographically by code point; true when
/// `a` sorts at or before `b`. Agrees with the standard ordering on
/// strings, since UTF-8 byte order follows code-point order.
pub fn str_lex_le(a: &str, b: &str) -> (r: bool)
    ensures
        r == spec_lex_le(a@, b@),
{
    let alen = a.unicode_len();
    let blen = b.unicode_len();
    let mut i: usize = 0;
    proof {
        assert(a@.skip(0) =~= a@);
        assert(b@.skip(0) =~= b@);
    }
    loop
        invariant
            i <= alen,
            i <= blen,
            alen == a@.len(),
            blen == b@.len(),
            a@.subrange(0, i as int) =~= b@.subrange(0, i as int),
            spec_lex_le(a@, b@) == spec_lex_le(a@.skip(i as int), b@.skip(i as int)),
        decreases alen - i,
    {
        if i >= alen {
            return true;
        }
        if i >= blen {
            return false;
        }
        let ca = a.get_char(i);
        let cb = b.get_char(i);
        if ca != cb {
            return (ca as u32) < (cb as u32);
        }
        proof {
            assert(a@.skip(i as int).skip(1) =~= a@.skip(i + 1));
            assert(b@.skip(i as int).skip(1) =~= b@.skip(i + 1));
            assert(a@.subrange(0, i + 1) =~= a@.subrange(0, i as int).push(a@[i as int]));
            assert(b@.subrange(0, i + 1) =~= b@.subrange(0, i as int).push(b@[i as int]));
        }
        i = i + 1;
    }
}

/// Whether `needle` occurs as a contiguous run inside `hay`.
pub open spec fn spec_has_substring(hay: Seq<char>, needle: Seq<char>) -> bool {
    exists|i: int|
        0 <= i && i + needle.len() <= hay.len() && #[trigger] hay.subrange(i, i + needle.len())
            =~= needle
}

/// Substring search: true when `needle` occurs inside `hay`.
pub fn str_has_substring(hay: &str, needle: &str) -> (r: bool)
    ensures
        r == spec_has_substring(hay@, needle@),
{
    let hlen = hay.unicode_len();
    let nlen = needle.unicode_len();
    if nlen > hlen {
        assert(!spec_has_substring(hay@, needle@));
        return false;
    }
    let mut i: usize = 0;
    while i <= hlen - nlen
        invariant
            nlen <= hlen,
            hlen == hay@.len(),
            nlen == needle@.len(),
            i <= hlen - nlen + 1,
            forall|k: int|
                0 <= k < i ==> #[trigger] hay@.subrange(k, k + needle@.len()) !~= needle@,
        decreases hlen - nlen + 1 - i,
    {
        let mut j: usize = 0;
        let mut matched = true;
        while j < nlen
            invariant
                nlen == needle@.len(),
                hlen == hay@.len(),
                i + nlen <= hlen,
                j <= nlen,
                matched <==> (forall|k: int| 0 <= k < j ==> #[trigger] hay@[i + k] == needle@[k]),
            decreases nlen - j,
        {
            if hay.get_char(i + j) != needle.get_char(j) {
                matched = false;
            }
            j = j + 1;
        }
        proof {
            if matched {
                assert forall|k: int| 0 <= k < nlen implies #[trigger] hay@.subrange(
                    i as int,
                    i + nlen,
                )[k] == needle@[k] by {
                    assert(hay@[i + k] == needle@[k]);
                }
                assert(hay@.subrange(i as int, i + nlen) =~= needle@);
            } else {
                assert(exists|k: int| 0 <= k < nlen && #[trigger] hay@[i + k] != needle@[k]);
                let k = choose|k: int| 0 <= k < nlen && #[trigger] hay@[i + k] != needle@[k];
                assert(hay@.subrange(i as int, i + nlen)[k] == hay@[i + k]);
                assert(hay@.subrange(i as int, i + nlen) !~= needle@);
            }
        }
        if matched {
            return true;
        }
        i = i + 1;
    }
    proof {
        assert(forall|k: int|
            0 <= k && k + needle@.len() <= hay@.len() ==> #[trigger] hay@.subrange(
                k,
                k + needle@.len(),
            ) !~= needle@);
    }
    false
}

/// The parts joined with single spaces: how a command vector renders as
/// one display string.
pub open spec fn spec_join_space(parts: Seq<Seq<char>>) -> Seq<char>
    decreases parts.len(),
{
    if parts.len() == 0 {
        Seq::empty()
    } else if parts.len() == 1 {
        parts[0]
    } else {
        spec_join_space(parts.drop_last()) + " "@ + parts.last()
    }
}

/// Join strings with single spaces.
pub fn join_space(parts: &Vec<String>) -> (s: String)
    ensures
        s@ == spec_join_space(parts@.map_values(|p: String| p@)),
{
    let ghost views = parts@.map_values(|p: String| p@);
    let mut s = String::new();
    let mut i: usize = 0;
    proof {
        assert(views.subrange(0, 0) =~= Seq::<Seq<char>>::empty());
    }
    while i < parts.len()
        invariant
            i <= parts@.len(),
            views == parts@.map_values(|p: String| p@),
            s@ == spec_join_space(views.subrange(0, i as int)),
        decreases parts@.len() - i,
    {
        if i > 0 {
            s.append(" ");
        }
        s.append(parts[i].as_str());
        i = i + 1;
        proof {
            let pre = views.subrange(0, i as int);
            assert(pre.drop_last() =~= views.subrange(0, i - 1));
            assert(pre.last() == views[i - 1]);
            if i == 1 {
                assert(s@ == views[0]);
            }
        }
    }
    proof {
        assert(views.subrange(0, views.len() as int) =~= views);
    }
    s
}

/// The characters of a string as a vector.
pub fn chars_of(s: &str) -> (v: Vec<char>)
    ensures
        v@ == s@,
{
    let n = s.unicode_len();
    let mut v: Vec<char> = Vec::new();
    let mut i: usize = 0;
    while i < n
        invariant
            i <= n,
            n == s@.len(),
            v@ == s@.subrange(0, i as int),
        decreases n - i,
    {
        v.push(s.get_char(i));
        i = i + 1;
        proof {
            assert(s@.subrange(0, i as int) =~= s@.subrange(0, i - 1).push(s@[i - 1]));
        }
    }
    proof {
        assert(s@.subrange(0, s@.len() as int) =~= s@);
    }
    v
}

/// A line with its trailing carriage return removed, as line splitting
/// does for lines that were terminated by a newline.
pub open spec fn spec_strip_cr(l: Seq<char>) -> Seq<char> {
    if l.len() > 0 && l.last() == '\r' {
        l.drop_last()
    } else {
        l
    }
}

/// The newline-separated segments of a string, separators removed; the
/// segment after the last newline (possibly empty) is included, so there
/// is always at least one segment.
pub open spec fn spec_segments(s: Seq<char>) -> Seq<Seq<char>>
    decreases s.len(),
{
    if s.len() == 0 {
        seq![Seq::empty()]
    } else if s[0] == '\n' {
        seq![Seq::<char>::empty()] + spec_segments(s.skip(1))
    } else {
        let rest = spec_segments(s.skip(1));
        seq![seq![s[0]] + rest[0]] + rest.skip(1)
    }
}

/// Extending a string by one character extends its last segment, or
/// (for a newline) starts a fresh empty one.
pub proof fn lemma_segments_push(s: Seq<char>, c: char)
    ensures
        spec_segments(s).len() >= 1,
        c == '\n' ==> spec_segments(s.push(c)) == spec_segments(s).push(Seq::<char>::empty()),
        c != '\n' ==> spec_segments(s.push(c)) == spec_segments(s).update(
            spec_segments(s).len() - 1,
            spec_segments(s).last().push(c),
        ),
    decreases s.len(),
{
    reveal_with_fuel(spec_segments, 3);
    if s.len() == 0 {
        assert(s.push(c)[0] == c);
        assert(s.push(c).skip(1) =~~= Seq::<char>::empty());
        if c == '\n' {
            assert(spec_segments(s.push(c)) =~~= spec_segments(s).push(Seq::<char>::empty()));
        } else {
            assert(spec_segments(s.push(c)) =~~= spec_segments(s).update(
                0,
                spec_segments(s).last().push(c),
            ));
        }
    } else {
        lemma_segments_push(s.skip(1), c);
        assert(s.push(c)[0] == s[0]);
        assert(s.push(c).skip(1) =~~= s.skip(1).push(c));
        let rest = spec_segments(s.skip(1));
        let rest2 = spec_segments(s.skip(1).push(c));
        if c == '\n' {
            if s[0] == '\n' {
                assert(spec_segments(s.push(c)) =~~= spec_segments(s).push(Seq::<char>::empty()));
            } else {
                assert(rest2 == rest.push(Seq::<char>::empty()));
                assert(rest2[0] == rest[0]);
                assert(rest2.skip(1) =~~= rest.skip(1).push(Seq::<char>::empty()));
                assert(spec_segments(s.push(c)) =~~= spec_segments(s).push(Seq::<char>::empty()));
            }
        } else {
            if s[0] == '\n' {
                assert(spec_segments(s.push(c)) =~~= spec_segments(s).update(
                    spec_segments(s).len() - 1,
                    spec_segments(s).last().push(c),
                ));
            } else if rest.len() == 1 {
                assert(rest2 == rest.update(0, rest.last().push(c)));
                assert(rest2[0] == rest[0].push(c));
                assert(rest2.skip(1) =~~= Seq::<Seq<char>>::empty());
                assert(spec_segments(s) =~~= seq![seq![s[0]] + rest[0]]);
                assert(spec_segments(s.push(c)) =~~= seq![seq![s[0]] + rest[0].push(c)]);
                assert(seq![s[0]] + rest[0].push(c) =~~= (seq![s[0]] + rest[0]).push(c));
                assert(spec_segments(s.push(c)) =~~= spec_segments(s).update(
                    spec_segments(s).len() - 1,
                    spec_segments(s).last().push(c),
                ));
            } else {
                assert(rest2 == rest.update(rest.len() - 1, rest.last().push(c)));
                assert(rest2[0] == rest[0]);
                assert(rest2.skip(1) =~~= rest.skip(1).update(
                    rest.skip(1).len() - 1,
                    rest.last().push(c),
                ));
                assert(spec_segments(s.push(c)) =~~= spec_segments(s).update(
                    spec_segments(s).len() - 1,
                    spec_segments(s).last().push(c),
                ));
            }
        }
    }
}

/// The lines of a string: newline-separated segments, each terminated
/// segment with a trailing carriage return removed; a final empty
/// segment (from a trailing newline, or an empty string) yields no line.
pub open spec fn spec_lines(s: Seq<char>) -> Seq<Seq<char>> {
    let segs = spec_segments(s);
    let done = segs.drop_last().map_values(|l: Seq<char>| spec_strip_cr(l));
    if segs.last().len() == 0 {
        done
    } else {
        done.push(segs.last())
    }
}

/// Lines joined back with single newlines.
pub open spec fn spec_join_nl(ls: Seq<Seq<char>>) -> Seq<char>
    decreases ls.len(),
{
    if ls.len() == 0 {
        Seq::empty()
    } else if ls.len() == 1 {
        ls[0]
    } else {
        spec_join_nl(ls.drop_last()) + "\n"@ + ls.last()
    }
}

/// The last `n` lines of a string, joined with newlines: the tail view
/// of a log.
pub open spec fn spec_tail_lines(s: Seq<char>, n: nat) -> Seq<char> {
    let ls = spec_lines(s);
    let start = if ls.len() > n {
        ls.len() - n
    } else {
        0int
    };
    spec_join_nl(ls.skip(start))
}

/// The number of lines in a string.
pub fn count_lines(content: &str) -> (n: usize)
    ensures
        n == spec_lines(content@).len(),
{
    let (bounds, _) = line_bounds(content);
    bounds.len()
}

/// The byte ranges are character ranges here: each pair `(a, b)` in the
/// result marks one line of `content` as `content@.subrange(a, b)`, in
/// order.
fn line_bounds(content: &str) -> (r: (Vec<(usize, usize)>, Ghost<Seq<Seq<char>>>))
    ensures
        ({
            let views = r.1@;
            &&& views == spec_lines(content@)
            &&& r.0@.len() == views.len()
            &&& forall|k: int|
                0 <= k < r.0@.len() ==> {
                    let b = #[trigger] r.0@[k];
                    &&& b.0 <= b.1 <= content@.len()
                    &&& content@.subrange(b.0 as int, b.1 as int) == views[k]
                }
        }),
{
    let v = chars_of(content);
    let mut bounds: Vec<(usize, usize)> = Vec::new();
    let mut cur: usize = 0;
    let mut i: usize = 0;
    proof {
        assert(content@.subrange(0, 0) =~= Seq::<char>::empty());
        assert(spec_segments(content@.subrange(0, 0)) == seq![Seq::<char>::empty()]);
        assert(spec_segments(content@.subrange(0, 0)).drop_last() =~= Seq::<Seq<char>>::empty());
        assert(Seq::<Seq<char>>::empty().map_values(|l: Seq<char>| spec_strip_cr(l))
            =~= Seq::<Seq<char>>::empty());
    }
    while i < v.len()
        invariant
            cur <= i <= v@.len(),
            v@ == content@,
            ({
                let segs = spec_segments(content@.subrange(0, i as int));
                let done = segs.drop_last().map_values(|l: Seq<char>| spec_strip_cr(l));
                &&& bounds@.len() == done.len()
                &&& (forall|k: int|
                    0 <= k < bounds@.len() ==> {
                        let b = #[trigger] bounds@[k];
                        &&& b.0 <= b.1 <= content@.len()
                        &&& content@.subrange(b.0 as int, b.1 as int) == done[k]
                    })
                &&& segs.last() == content@.subrange(cur as int, i as int)
            }),
        decreases v@.len() - i,
    {
        let ghost pre = content@.subrange(0, i as int);
        let ghost segs = spec_segments(pre);
        proof {
            lemma_segments_push(pre, content@[i as int]);
            assert(content@.subrange(0, i + 1) =~= pre.push(content@[i as int]));
        }
        if v[i] == '\n' {
            let end = if i > cur && v[i - 1] == '\r' {
                i - 1
            } else {
                i
            };
            proof {
                let seg = content@.subrange(cur as int, i as int);
                assert(spec_strip_cr(seg) == content@.subrange(cur as int, end as int)) by {
                    if i > cur && content@[i - 1] == '\r' {
                        assert(seg.len() > 0 && seg.last() == '\r');
                        assert(seg.drop_last() =~= content@.subrange(cur as int, i - 1));
                    } else {
                        if seg.len() > 0 {
                            assert(seg.last() == content@[i - 1]);
                        }
                    }
                }
                let segs2 = spec_segments(content@.subrange(0, i + 1));
                assert(segs2 == segs.push(Seq::<char>::empty()));
                assert(segs2.drop_last() =~= segs);
                assert(segs.map_values(|l: Seq<char>| spec_strip_cr(l)) =~= segs.drop_last()
                    .map_values(|l: Seq<char>| spec_strip_cr(l)).push(spec_strip_cr(segs.last())));
                assert(segs2.last() == content@.subrange(i + 1, i + 1));
            }
            bounds.push((cur, end));
            cur = i + 1;
        } else {
            proof {
                let segs2 = spec_segments(content@.subrange(0, i + 1));
                assert(segs2 == segs.update(segs.len() - 1, segs.last().push(
                    content@[i as int],
                )));
                assert(segs2.drop_last() =~= segs.drop_last());
                assert(segs2.last() == segs.last().push(content@[i as int]));
                assert(content@.subrange(cur as int, i + 1) =~= content@.subrange(
                    cur as int,
                    i as int,
                ).push(content@[i as int]));
            }
        }
        i = i + 1;
    }
    proof {
        assert(content@.subrange(0, content@.len() as int) =~= content@);
    }
    let ghost segs = spec_segments(content@);
    if cur < v.len() {
        bounds.push((cur, v.len()));
        proof {
            assert(segs.last().len() > 0);
            assert(content@.subrange(cur as int, content@.len() as int) == segs.last());
        }
    } else {
        proof {
            assert(segs.last() =~= Seq::<char>::empty());
        }
    }
    (bounds, Ghost(spec_lines(content@)))
}

/// The last `n` lines of `content`, joined with newlines — the tail of
/// a log, as the log verbs serve it.
pub fn tail_lines(content: &str, n: usize) -> (out: String)
    ensures
        out@ == spec_tail_lines(content@, n as nat),
{
    let (bounds, ghost_lines) = line_bounds(content);
    let ghost lines = ghost_lines@;
    let total = bounds.len();
    let start = if total > n {
        total - n
    } else {
        0
    };
    let mut out = String::new();
    let mut k: usize = start;
    proof {
        assert(lines.skip(start as int).subrange(0, 0) =~= Seq::<Seq<char>>::empty());
    }
    while k < total
        invariant
            start <= k <= total,
            total == bounds@.len(),
            lines == spec_lines(content@),
            bounds@.len() == lines.len(),
            forall|m: int|
                0 <= m < bounds@.len() ==> {
                    let b = #[trigger] bounds@[m];
                    &&& b.0 <= b.1 <= content@.len()
                    &&& content@.subrange(b.0 as int, b.1 as int) == lines[m]
                },
            out@ == spec_join_nl(lines.skip(start as int).subrange(0, k - start)),
        decreases total - k,
    {
        if k > start {
            out.append("\n");
        }
        let b = bounds[k];
        out.append(content.substring_char(b.0, b.1));
        k = k + 1;
        proof {
            let sel = lines.skip(start as int);
            let pre = sel.subrange(0, k - start);
            assert(pre.drop_last() =~= sel.subrange(0, k - 1 - start));
            assert(pre.last() == lines[k - 1]);
            if k - start == 1 {
                assert(out@ == lines[k - 1]);
            }
        }
    }
    proof {
        let sel = lines.skip(start as int);
        assert(sel.subrange(0, sel.len() as int) =~= sel);
        if total <= n {
            assert(start == 0);
        }
    }
    out
}

/// String equality, by contents.
pub fn str_eq(a: &str, b: &str) -> (r: bool)
    ensures
        r == (a@ == b@),
{
    let alen = a.unicode_len();
    let blen = b.unicode_len();
    if alen != blen {
        proof {
            assert(a@ != b@);
        }
        return false;
    }
    let mut i: usize = 0;
    while i < alen
        invariant
            i <= alen,
            alen == a@.len(),
            alen == b@.len(),
            a@.subrange(0, i as int) =~= b@.subrange(0, i as int),
        decreases alen - i,
    {
        if a.get_char(i) != b.get_char(i) {
            proof {
                assert(a@ != b@);
            }
            return false;
        }
        proof {
            assert(a@.subrange(0, i + 1) =~= a@.subrange(0, i as int).push(a@[i as int]));
            assert(b@.subrange(0, i + 1) =~= b@.subrange(0, i as int).push(b@[i as int]));
        }
        i = i + 1;
    }
    proof {
        assert(a@.subrange(0, alen as int) =~= a@);
        assert(b@.subrange(0, alen as int) =~= b@);
    }
    true
}

/// The lexicographic order is reflexive.
pub proof fn lemma_lex_refl(a: Seq<char>)
    ensures
        spec_lex_le(a, a),
    decreases a.len(),
{
    if a.len() > 0 {
        lemma_lex_refl(a.skip(1));
    }
}

/// The lexicographic order is total.
pub proof fn lemma_lex_total(a: Seq<char>, b: Seq<char>)
    ensures
        spec_lex_le(a, b) || spec_lex_le(b, a),
    decreases a.len(),
{
    if a.len() > 0 && b.len() > 0 {
        if a[0] == b[0] {
            lemma_lex_total(a.skip(1), b.skip(1));
        } else {
            vstd::utf8::char_u32_cast(a[0], a[0] as u32);
            vstd::utf8::char_u32_cast(b[0], b[0] as u32);
            assert((a[0] as u32) != (b[0] as u32));
        }
    }
}

/// The lexicographic order is transitive.
pub proof fn lemma_lex_trans(a: Seq<char>, b: Seq<char>, c: Seq<char>)
    requires
        spec_lex_le(a, b),
        spec_lex_le(b, c),
    ensures
        spec_lex_le(a, c),
    decreases a.len() + b.len() + c.len(),
{
    if a.len() > 0 && b.len() > 0 && c.len() > 0 {
        if a[0] == b[0] && b[0] == c[0] {
            lemma_lex_trans(a.skip(1), b.skip(1), c.skip(1));
        }
    }
}

/// Whether every character is an ASCII decimal digit.
pub open spec fn spec_all_digit_chars(s: Seq<char>) -> bool {
    forall|i: int| 0 <= i < s.len() ==> '0' <= #[trigger] s[i] <= '9'
}

/// The value of a run of ASCII digit characters.
pub open spec fn spec_digit_chars_val(s: Seq<char>) -> int
    decreases s.len(),
{
    if s.len() == 0 {
        0
    } else {
        spec_digit_chars_val(s.drop_last()) * 10 + (s.last() as int - '0' as int)
    }
}

/// A 32-bit decimal number as the standard parser reads it from text: an
/// optional leading plus sign, then one or more digits, nothing else,
/// and a value within range.
pub open spec fn spec_parse_u32_chars(s: Seq<char>) -> Option<u32> {
    let body = if s.len() > 0 && s[0] == '+' {
        s.skip(1)
    } else {
        s
    };
    if body.len() == 0 || !spec_all_digit_chars(body) || spec_digit_chars_val(body) > u32::MAX {
        None
    } else {
        Some(spec_digit_chars_val(body) as u32)
    }
}

proof fn lemma_digit_chars_val_nonneg(s: Seq<char>)
    requires
        spec_all_digit_chars(s),
    ensures
        spec_digit_chars_val(s) >= 0,
    decreases s.len(),
{
    if s.len() > 0 {
        assert(spec_all_digit_chars(s.drop_last())) by {
            assert(forall|i: int| 0 <= i < s.len() - 1 ==> s.drop_last()[i] == s[i]);
        }
        lemma_digit_chars_val_nonneg(s.drop_last());
    }
}

proof fn lemma_digit_chars_val_prefix(s: Seq<char>, i: int)
    requires
        spec_all_digit_chars(s),
        0 <= i <= s.len(),
    ensures
        spec_digit_chars_val(s.subrange(0, i)) <= spec_digit_chars_val(s),
    decreases s.len() - i,
{
    if i == s.len() {
        assert(s.subrange(0, i) =~= s);
    } else {
        lemma_digit_chars_val_prefix(s, i + 1);
        let p = s.subrange(0, i + 1);
        assert(p.drop_last() =~= s.subrange(0, i));
        assert(p.last() == s[i]);
        lemma_digit_chars_val_nonneg(s.subrange(0, i));
        assert(spec_all_digit_chars(s.subrange(0, i))) by {
            assert(forall|k: int| 0 <= k < i ==> s.subrange(0, i)[k] == s[k]);
        }
        assert(spec_digit_chars_val(s.subrange(0, i)) <= spec_digit_chars_val(p));
    }
}

/// Parse a 32-bit decimal number from the characters of `s[start..end]`.
pub fn parse_u32_str(s: &str, start: usize, end: usize) -> (r: Option<u32>)
    requires
        start <= end <= s@.len(),
    ensures
        r == spec_parse_u32_chars(s@.subrange(start as int, end as int)),
{
    let ghost whole = s@.subrange(start as int, end as int);
    let body_start = if start < end && s.get_char(start) == '+' {
        start + 1
    } else {
        start
    };
    let ghost body = s@.subrange(body_start as int, end as int);
    proof {
        if start < end && s@[start as int] == '+' {
            assert(whole[0] == '+');
            assert(whole.skip(1) =~= body);
        } else {
            assert(whole =~= body);
        }
    }
    if body_start == end {
        return None;
    }
    let mut acc: u64 = 0;
    let mut j: usize = body_start;
    while j < end
        invariant
            start <= body_start <= j <= end <= s@.len(),
            whole == s@.subrange(start as int, end as int),
            body == s@.subrange(body_start as int, end as int),
            body == (if whole.len() > 0 && whole[0] == '+' {
                whole.skip(1)
            } else {
                whole
            }),
            spec_all_digit_chars(body.subrange(0, j - body_start)),
            acc == spec_digit_chars_val(body.subrange(0, j - body_start)),
            acc <= u32::MAX,
        decreases end - j,
    {
        let c = s.get_char(j);
        if c < '0' || c > '9' {
            proof {
                assert(body[j - body_start] == c);
                assert(!spec_all_digit_chars(body));
            }
            return None;
        }
        let d: u64 = (c as u32) as u64 - 0x30;
        let next: u64 = acc * 10 + d;
        proof {
            let p = body.subrange(0, j + 1 - body_start);
            assert(p.drop_last() =~= body.subrange(0, j - body_start));
            assert(p.last() == body[j - body_start] && body[j - body_start] == c);
            assert(spec_all_digit_chars(p)) by {
                assert(forall|k: int|
                    0 <= k < p.len() - 1 ==> p[k] == body.subrange(0, j - body_start)[k]);
            }
        }
        if next > 0xffff_ffff {
            proof {
                if spec_all_digit_chars(body) {
                    lemma_digit_chars_val_prefix(body, j + 1 - body_start);
                    assert(spec_digit_chars_val(body.subrange(0, j + 1 - body_start)) == next);
                    assert(spec_digit_chars_val(body) > u32::MAX);
                }
            }
            return None;
        }
        acc = next;
        j = j + 1;
    }
    proof {
        assert(body.subrange(0, end - body_start) =~= body);
    }
    Some(acc as u32)
}

/// The index of the first occurrence of `c` in `s`, if any.
pub open spec fn spec_find_char(s: Seq<char>, c: char) -> Option<int>
    decreases s.len(),
{
    if s.len() == 0 {
        None
    } else if s[0] == c {
        Some(0int)
    } else {
        match spec_find_char(s.skip(1), c) {
            Some(i) => Some(i + 1),
            None => None,
        }
    }
}

/// Find the first occurrence of `c` in `s`.
pub fn find_char(s: &str, c: char) -> (r: Option<usize>)
    ensures
        match r {
            Some(i) => i < s@.len() && Some(i as int) == spec_find_char(s@, c),
            None => spec_find_char(s@, c) is None,
        },
{
    let len = s.unicode_len();
    let mut j: usize = 0;
    proof {
        assert(s@.skip(0) =~= s@);
    }
    while j < len
        invariant
            j <= len,
            len == s@.len(),
            spec_find_char(s@, c) == match spec_find_char(s@.skip(j as int), c) {
                Some(i) => Some(i + j),
                None => None::<int>,
            },
        decreases len - j,
    {
        proof {
            assert(s@.skip(j as int)[0] == s@[j as int]);
            assert(s@.skip(j as int).skip(1) =~= s@.skip(j + 1));
        }
        if s.get_char(j) == c {
            return Some(j);
        }
        j = j + 1;
    }
    proof {
        assert(s@.skip(len as int) =~= Seq::<char>::empty());
    }
    None
}

} // verus!
