//! Line folding: a logical content line is split into physical lines of at
//! most 75 octets, each continuation starting with CRLF and one space; and
//! the reverse, which first turns every CRLF into LF and then drops every
//! LF that is followed by a space.

use vstd::prelude::*;
use vstd::utf8::{char_is_scalar, encode_utf8};
use crate::strings::{char_vec, push_range};

verus! {

/// The most octets that a physical line may hold.
pub const LINE_LIMIT: usize = 75;

/// The most octets of content after the leading space of a continuation.
pub const CONTINUATION_LIMIT: usize = 74;

/// The number of octets that UTF-8 takes for `c`.
pub open spec fn utf8_width(c: char) -> int {
    let v = c as u32;
    if v < 0x80 {
        1
    } else if v < 0x800 {
        2
    } else if v < 0x10000 {
        3
    } else {
        4
    }
}

/// Whitespace that a fold point avoids: the characters with the Unicode
/// `White_Space` property, which are those that `char::is_whitespace`
/// accepts.
pub open spec fn is_fold_space(c: char) -> bool {
    let v = c as u32;
    (0x9 <= v && v <= 0xD) || v == 0x20 || v == 0x85 || v == 0xA0 || v == 0x1680 || (0x2000 <= v
        && v <= 0x200A) || v == 0x2028 || v == 0x2029 || v == 0x202F || v == 0x205F || v == 0x3000
}

fn fold_space(c: char) -> (r: bool)
    ensures
        r == is_fold_space(c),
{
    let v = c as u32;
    (0x9 <= v && v <= 0xD) || v == 0x20 || v == 0x85 || v == 0xA0 || v == 0x1680 || (0x2000 <= v
        && v <= 0x200A) || v == 0x2028 || v == 0x2029 || v == 0x202F || v == 0x205F || v == 0x3000
}

/// The number of octets that UTF-8 takes for `s`.
pub open spec fn octets(s: Seq<char>) -> int
    decreases s.len(),
{
    if s.len() == 0 {
        0
    } else {
        utf8_width(s[0]) + octets(s.skip(1))
    }
}

/// How many leading characters of `s` fit in `room` octets.
pub open spec fn fit_count(s: Seq<char>, room: int) -> int
    decreases s.len(),
{
    if s.len() == 0 || utf8_width(s[0]) > room {
        0
    } else {
        1 + fit_count(s.skip(1), room - utf8_width(s[0]))
    }
}

/// Where the physical line that starts `s` ends: after as many characters
/// as fit in `room` octets, one fewer if the next one is whitespace.
pub open spec fn cut_point(s: Seq<char>, room: int) -> int {
    let p = fit_count(s, room);
    if p >= 2 && p < s.len() && is_fold_space(s[p]) {
        p - 1
    } else {
        p
    }
}

/// CRLF followed by one space: the marker between two physical lines.
pub open spec fn fold_marker() -> Seq<char> {
    seq!['\r', '\n', ' ']
}

/// `s` folded, its first physical line holding at most `room` octets.
pub open spec fn folded_from(s: Seq<char>, room: int) -> Seq<char>
    decreases s.len(),
{
    let k = cut_point(s, room);
    if fit_count(s, room) >= s.len() || k <= 0 {
        s
    } else {
        s.take(k) + fold_marker() + folded_from(s.skip(k), CONTINUATION_LIMIT as int)
    }
}

/// A logical line folded for output.
pub open spec fn folded(s: Seq<char>) -> Seq<char> {
    folded_from(s, LINE_LIMIT as int)
}

fn utf8_len(c: char) -> (r: usize)
    ensures
        r == utf8_width(c),
{
    let v = c as u32;
    if v < 0x80 {
        1
    } else if v < 0x800 {
        2
    } else if v < 0x10000 {
        3
    } else {
        4
    }
}

proof fn lemma_fit_step(s: Seq<char>, p: int, room: int)
    requires
        0 <= p < s.len(),
        utf8_width(s[p]) <= room,
    ensures
        fit_count(s.skip(p), room) == 1 + fit_count(s.skip(p + 1), room - utf8_width(s[p])),
{
    assert(s.skip(p).skip(1) =~= s.skip(p + 1));
}

/// Folds a content line: physical lines of at most 75 octets, split only
/// between characters, and moved back by one where it would fall just
/// before whitespace.
pub fn fold_line(line: &str) -> (r: String)
    ensures
        r@ == folded(line@),
{
    let chars = char_vec(line);
    let n = chars.len();
    let mut out = String::new();
    let mut start: usize = 0;
    let mut limit: usize = LINE_LIMIT;
    proof {
        assert(chars@.skip(0) =~= chars@);
        assert(out@ + folded(line@) =~= folded(line@));
    }
    loop
        invariant
            n == chars@.len(),
            chars@ == line@,
            start <= n,
            limit == LINE_LIMIT || limit == CONTINUATION_LIMIT,
            out@ + folded_from(chars@.skip(start as int), limit as int) == folded(line@),
        decreases n - start,
    {
        let ghost rest = chars@.skip(start as int);
        let mut p: usize = start;
        let mut room: usize = limit;
        proof {
            assert(chars@.skip(p as int) =~= rest);
        }
        while p < n && utf8_len(chars[p]) <= room
            invariant
                n == chars@.len(),
                start <= p <= n,
                room <= limit,
                rest == chars@.skip(start as int),
                fit_count(rest, limit as int) == (p - start) + fit_count(
                    chars@.skip(p as int),
                    room as int,
                ),
            decreases n - p,
        {
            proof {
                lemma_fit_step(chars@, p as int, room as int);
            }
            room = room - utf8_len(chars[p]);
            p = p + 1;
        }
        proof {
            assert(fit_count(chars@.skip(p as int), room as int) == 0);
        }
        if p >= n {
            proof {
                assert(rest.len() == n - start);
            }
            push_range(&mut out, &chars, start, n);
            proof {
                assert(chars@.subrange(start as int, n as int) =~= rest);
            }
            return out;
        }
        let mut k: usize = p;
        if p - start >= 2 && fold_space(chars[p]) {
            k = p - 1;
        }
        proof {
            assert(rest[p - start] == chars@[p as int]);
            assert(k - start == cut_point(rest, limit as int));
        }
        if k == start {
            push_range(&mut out, &chars, start, n);
            proof {
                assert(chars@.subrange(start as int, n as int) =~= rest);
            }
            return out;
        }
        push_range(&mut out, &chars, start, k);
        out.push('\r');
        out.push('\n');
        out.push(' ');
        proof {
            assert(chars@.subrange(start as int, k as int) =~= rest.take(k - start));
            assert(rest.skip(k - start) =~= chars@.skip(k as int));
            assert(out@ + folded_from(chars@.skip(k as int), CONTINUATION_LIMIT as int)
                =~= folded(line@));
        }
        start = k;
        limit = CONTINUATION_LIMIT;
    }
}

/// The physical lines that `s` is folded into, without their markers.
pub open spec fn fold_segments(s: Seq<char>, room: int) -> Seq<Seq<char>>
    decreases s.len(),
{
    let k = cut_point(s, room);
    if fit_count(s, room) >= s.len() || k <= 0 {
        seq![s]
    } else {
        seq![s.take(k)] + fold_segments(s.skip(k), CONTINUATION_LIMIT as int)
    }
}

/// Segments joined by the fold marker.
pub open spec fn joined(segs: Seq<Seq<char>>) -> Seq<char>
    decreases segs.len(),
{
    if segs.len() == 0 {
        Seq::empty()
    } else if segs.len() == 1 {
        segs[0]
    } else {
        segs[0] + fold_marker() + joined(segs.skip(1))
    }
}

/// Segments put back together.
pub open spec fn flattened(segs: Seq<Seq<char>>) -> Seq<char>
    decreases segs.len(),
{
    if segs.len() == 0 {
        Seq::empty()
    } else {
        segs[0] + flattened(segs.skip(1))
    }
}

proof fn lemma_octets_concat(a: Seq<char>, b: Seq<char>)
    ensures
        octets(a + b) == octets(a) + octets(b),
    decreases a.len(),
{
    if a.len() == 0 {
        assert(a + b =~= b);
    } else {
        assert((a + b).skip(1) =~= a.skip(1) + b);
        lemma_octets_concat(a.skip(1), b);
    }
}

proof fn lemma_octets_non_negative(a: Seq<char>)
    ensures
        octets(a) >= 0,
    decreases a.len(),
{
    if a.len() > 0 {
        lemma_octets_non_negative(a.skip(1));
    }
}

proof fn lemma_fit_count_bounds(s: Seq<char>, room: int)
    requires
        room >= 0,
    ensures
        0 <= fit_count(s, room) <= s.len(),
        octets(s.take(fit_count(s, room))) <= room,
        s.len() > 0 && room >= 4 ==> fit_count(s, room) >= 1,
        s.len() > 1 && room >= 8 ==> fit_count(s, room) >= 2,
    decreases s.len(),
{
    let p = fit_count(s, room);
    if s.len() == 0 || utf8_width(s[0]) > room {
        assert(s.take(0) =~= Seq::<char>::empty());
    } else {
        let w = utf8_width(s[0]);
        lemma_fit_count_bounds(s.skip(1), room - w);
        let t = s.take(p);
        assert(t.skip(1) =~= s.skip(1).take(p - 1));
        assert(t[0] == s[0]);
    }
}

proof fn lemma_octets_take_mono(s: Seq<char>, a: int, b: int)
    requires
        0 <= a <= b <= s.len(),
    ensures
        octets(s.take(a)) <= octets(s.take(b)),
{
    assert(s.take(b) =~= s.take(a) + s.subrange(a, b));
    lemma_octets_concat(s.take(a), s.subrange(a, b));
    lemma_octets_non_negative(s.subrange(a, b));
}

proof fn lemma_segments(s: Seq<char>, room: int)
    requires
        room >= 4,
    ensures
        folded_from(s, room) == joined(fold_segments(s, room)),
        flattened(fold_segments(s, room)) == s,
        fold_segments(s, room).len() >= 1,
        octets(fold_segments(s, room)[0]) <= room,
        forall|i: int| 1 <= i < fold_segments(s, room).len() ==> octets(#[trigger] fold_segments(s, room)[i]) <= CONTINUATION_LIMIT,
    decreases s.len(),
{
    let k = cut_point(s, room);
    let p = fit_count(s, room);
    lemma_fit_count_bounds(s, room);
    let segs = fold_segments(s, room);
    if p >= s.len() || k <= 0 {
        assert(p == s.len());
        assert(s.take(p) =~= s);
        assert(segs.skip(1) =~= Seq::<Seq<char>>::empty());
        assert(flattened(segs.skip(1)) == Seq::<char>::empty());
        assert(s + Seq::<char>::empty() =~= s);
        assert(flattened(segs) == segs[0] + flattened(segs.skip(1)));
    } else {
        assert(1 <= k <= p);
        lemma_octets_take_mono(s, k, p);
        let rest = s.skip(k);
        lemma_segments(rest, CONTINUATION_LIMIT as int);
        let rs = fold_segments(rest, CONTINUATION_LIMIT as int);
        assert(segs =~= seq![s.take(k)] + rs);
        assert(segs.skip(1) =~= rs);
        assert(segs[0] == s.take(k));
        assert(s.take(k) + rest =~= s);
        assert(flattened(segs) == segs[0] + flattened(segs.skip(1)));
        assert forall|i: int| 1 <= i < segs.len() implies octets(#[trigger] segs[i]) <= CONTINUATION_LIMIT by {
            assert(segs[i] == rs[i - 1]);
        }
    }
}

/// No two whitespace characters stand next to each other in `s`.
pub open spec fn no_adjacent_whitespace(s: Seq<char>) -> bool {
    forall|i: int| 0 <= i < s.len() - 1 ==> !(is_fold_space(#[trigger] s[i]) && is_fold_space(s[i + 1]))
}

proof fn lemma_segments_start(s: Seq<char>, room: int)
    requires
        room >= 8,
        no_adjacent_whitespace(s),
    ensures
        s.len() > 0 ==> fold_segments(s, room)[0].len() > 0 && fold_segments(s, room)[0][0] == s[0],
        forall|i: int| 1 <= i < fold_segments(s, room).len() ==> (#[trigger] fold_segments(s, room)[i]).len() > 0
            && !is_fold_space(fold_segments(s, room)[i][0]),
    decreases s.len(),
{
    let k = cut_point(s, room);
    let p = fit_count(s, room);
    lemma_fit_count_bounds(s, room);
    lemma_segments(s, room);
    let segs = fold_segments(s, room);
    if p >= s.len() || k <= 0 {
    } else {
        assert(s.len() >= 2);
        assert(p >= 2);
        let rest = s.skip(k);
        assert(rest[0] == s[k]);
        assert(!is_fold_space(s[k])) by {
            if k == p - 1 {
                assert(is_fold_space(s[p]));
                assert(!(is_fold_space(s[k]) && is_fold_space(s[k + 1])));
            }
        }
        assert(no_adjacent_whitespace(rest)) by {
            assert forall|i: int| 0 <= i < rest.len() - 1 implies !(is_fold_space(#[trigger] rest[i]) && is_fold_space(rest[i + 1])) by {
                assert(rest[i] == s[i + k]);
                assert(rest[i + 1] == s[i + k + 1]);
            }
        }
        lemma_segments_start(rest, CONTINUATION_LIMIT as int);
        let rs = fold_segments(rest, CONTINUATION_LIMIT as int);
        assert(segs =~= seq![s.take(k)] + rs);
        assert forall|i: int| 1 <= i < segs.len() implies (#[trigger] segs[i]).len() > 0 && !is_fold_space(segs[i][0]) by {
            assert(segs[i] == rs[i - 1]);
        }
    }
}

/// Where no two whitespace characters stand next to each other in a line,
/// no physical line after the first starts with whitespace.
pub proof fn lemma_fold_avoids_whitespace(line: Seq<char>)
    requires
        no_adjacent_whitespace(line),
    ensures
        forall|i: int| 1 <= i < fold_segments(line, LINE_LIMIT as int).len() ==> (#[trigger] fold_segments(line, LINE_LIMIT as int)[i]).len() > 0
            && !is_fold_space(fold_segments(line, LINE_LIMIT as int)[i][0]),
{
    lemma_segments_start(line, LINE_LIMIT as int);
}

/// `octets` is the length of the UTF-8 encoding.
pub proof fn lemma_octets_utf8(s: Seq<char>)
    ensures
        octets(s) == encode_utf8(s).len(),
    decreases s.len(),
{
    if s.len() > 0 {
        lemma_octets_utf8(s.skip(1));
        assert(s.drop_first() =~= s.skip(1));
        char_is_scalar(s[0]);
    }
}

/// Folding: the physical lines, put back together, are the logical line;
/// the first holds at most 75 octets, and each later one at most 74 after
/// its leading space, so every physical line holds at most 75.
pub proof fn lemma_fold_line_lengths(line: Seq<char>)
    ensures
        folded(line) == joined(fold_segments(line, LINE_LIMIT as int)),
        flattened(fold_segments(line, LINE_LIMIT as int)) == line,
        forall|i: int| 0 <= i < fold_segments(line, LINE_LIMIT as int).len() ==>
            encode_utf8(#[trigger] fold_segments(line, LINE_LIMIT as int)[i]).len() <= (if i == 0 { LINE_LIMIT as int } else { CONTINUATION_LIMIT as int }),
{
    lemma_segments(line, LINE_LIMIT as int);
    let segs = fold_segments(line, LINE_LIMIT as int);
    assert forall|i: int| 0 <= i < segs.len() implies encode_utf8(#[trigger] segs[i]).len() <= (if i == 0 { LINE_LIMIT as int } else { CONTINUATION_LIMIT as int }) by {
        lemma_octets_utf8(segs[i]);
    }
}

/// `s` with every occurrence of `pat` replaced by `rep`: occurrences are
/// taken from the left and do not overlap.
pub open spec fn replaced(s: Seq<char>, pat: Seq<char>, rep: Seq<char>) -> Seq<char>
    decreases s.len(),
{
    if pat.len() == 0 || s.len() < pat.len() {
        s
    } else if s.take(pat.len() as int) == pat {
        rep + replaced(s.skip(pat.len() as int), pat, rep)
    } else {
        seq![s[0]] + replaced(s.skip(1), pat, rep)
    }
}

pub open spec fn crlf() -> Seq<char> {
    seq!['\r', '\n']
}

pub open spec fn lf() -> Seq<char> {
    seq!['\n']
}

pub open spec fn lf_space() -> Seq<char> {
    seq!['\n', ' ']
}

/// Text with CRLF made LF and every fold (LF then a space) removed.
pub open spec fn unfolded(s: Seq<char>) -> Seq<char> {
    replaced(replaced(s, crlf(), lf()), lf_space(), Seq::empty())
}

/// Relies on `aho_corasick::AhoCorasick::replace_all`: an automaton built
/// from the one pattern `pat` (default, standard match kind) replaces each
/// of the non-overlapping matches that it finds from left to right by
/// `rep`. A match of a UTF-8 pattern starts and ends on character
/// boundaries, so the statement over characters is the statement over
/// bytes.
#[verifier::external_body]
fn replace_all(s: &str, pat: &str, rep: &str) -> (r: String)
    requires
        pat@.len() > 0,
    ensures
        r@ == replaced(s@, pat@, rep@),
{
    aho_corasick::AhoCorasick::new([pat]).unwrap().replace_all(s, &[rep])
}

/// Turns every CRLF into LF.
fn simplify_line_endings(input: &str) -> (r: String)
    ensures
        r@ == replaced(input@, crlf(), lf()),
{
    proof {
        reveal_strlit("\r\n");
        reveal_strlit("\n");
        assert("\r\n"@ =~= crlf());
        assert("\n"@ =~= lf());
    }
    replace_all(input, "\r\n", "\n")
}

/// Removes every LF that is followed by a space, with the space.
fn unfold(input: &str) -> (r: String)
    ensures
        r@ == replaced(input@, lf_space(), Seq::empty()),
{
    proof {
        reveal_strlit("\n ");
        reveal_strlit("");
        assert("\n "@ =~= lf_space());
        assert(""@ =~= Seq::<char>::empty());
    }
    replace_all(input, "\n ", "")
}

/// Brings line endings to LF and joins folded lines back together.
pub fn normalize(input: &str) -> (r: String)
    ensures
        r@ == unfolded(input@),
{
    let simple = simplify_line_endings(input);
    unfold(simple.as_str())
}

proof fn lemma_replaced_plain_prefix(a: Seq<char>, b: Seq<char>, pat: Seq<char>, rep: Seq<char>)
    requires
        pat.len() > 0,
        !a.contains(pat[0]),
    ensures
        replaced(a + b, pat, rep) == a + replaced(b, pat, rep),
    decreases a.len(),
{
    if a.len() == 0 {
        assert(a + b =~= b);
    } else {
        let ab = a + b;
        assert(ab[0] == a[0]);
        if ab.len() >= pat.len() {
            assert(ab.take(pat.len() as int)[0] == a[0]);
            assert(ab.take(pat.len() as int) != pat);
            assert(ab.skip(1) =~= a.skip(1) + b);
            assert(!a.skip(1).contains(pat[0])) by {
                if a.skip(1).contains(pat[0]) {
                    let j = choose|j: int| 0 <= j < a.skip(1).len() && a.skip(1)[j] == pat[0];
                    assert(a[j + 1] == pat[0]);
                }
            }
            lemma_replaced_plain_prefix(a.skip(1), b, pat, rep);
            assert(a =~= seq![a[0]] + a.skip(1));
            assert(replaced(ab, pat, rep) =~= a + replaced(b, pat, rep));
        } else {
            assert(b.len() < pat.len());
            assert(replaced(b, pat, rep) == b);
        }
    }
}

proof fn lemma_replaced_match_prefix(b: Seq<char>, pat: Seq<char>, rep: Seq<char>)
    requires
        pat.len() > 0,
    ensures
        replaced(pat + b, pat, rep) == rep + replaced(b, pat, rep),
{
    assert((pat + b).take(pat.len() as int) =~= pat);
    assert((pat + b).skip(pat.len() as int) =~= b);
}

/// A logical line: no LF occurs in it.
pub open spec fn is_logical_line(s: Seq<char>) -> bool {
    !s.contains('\n')
}

/// Replacing CRLF leaves a prefix alone that holds no LF, where what
/// follows it does not start with LF.
proof fn lemma_replaced_crlf_prefix(a: Seq<char>, b: Seq<char>)
    requires
        !a.contains('\n'),
        b.len() == 0 || b[0] != '\n',
    ensures
        replaced(a + b, crlf(), lf()) == a + replaced(b, crlf(), lf()),
    decreases a.len(),
{
    if a.len() == 0 {
        assert(a + b =~= b);
    } else {
        let ab = a + b;
        if ab.len() >= 2 {
            assert(ab.take(2)[1] == ab[1]);
            if a.len() >= 2 {
                assert(a[1] != '\n') by {
                    if a[1] == '\n' {
                        assert(a.contains('\n'));
                    }
                }
            } else {
                assert(ab[1] == b[0]);
            }
            assert(ab.take(2) != crlf());
            assert(ab.skip(1) =~= a.skip(1) + b);
            assert(!a.skip(1).contains('\n')) by {
                if a.skip(1).contains('\n') {
                    let j = choose|j: int| 0 <= j < a.skip(1).len() && a.skip(1)[j] == '\n';
                    assert(a[j + 1] == '\n');
                }
            }
            lemma_replaced_crlf_prefix(a.skip(1), b);
            assert(a =~= seq![a[0]] + a.skip(1));
            assert(replaced(ab, crlf(), lf()) =~= a + replaced(b, crlf(), lf()));
        } else {
            assert(b.len() == 0);
            assert(replaced(b, crlf(), lf()) == b);
        }
    }
}

proof fn lemma_unfold_folded_from(s: Seq<char>, room: int)
    requires
        is_logical_line(s),
    ensures
        unfolded(folded_from(s, room)) == s,
    decreases s.len(),
{
    let k = cut_point(s, room);
    if fit_count(s, room) >= s.len() || k <= 0 {
        lemma_replaced_crlf_prefix(s, Seq::empty());
        assert(s + Seq::<char>::empty() =~= s);
        assert(replaced(Seq::<char>::empty(), crlf(), lf()) =~= Seq::<char>::empty());
        lemma_replaced_plain_prefix(s, Seq::empty(), lf_space(), Seq::empty());
        assert(replaced(Seq::<char>::empty(), lf_space(), Seq::<char>::empty()) =~= Seq::<char>::empty());
    } else {
        let head = s.take(k);
        let tail = s.skip(k);
        let inner = folded_from(tail, CONTINUATION_LIMIT as int);
        assert(!head.contains('\n')) by {
            if head.contains('\n') {
                let j = choose|j: int| 0 <= j < head.len() && head[j] == '\n';
                assert(s[j] == '\n');
            }
        }
        assert(is_logical_line(tail)) by {
            if tail.contains('\n') {
                let j = choose|j: int| 0 <= j < tail.len() && tail[j] == '\n';
                assert(s[j + k] == '\n');
            }
        }
        lemma_unfold_folded_from(tail, CONTINUATION_LIMIT as int);
        let f = folded_from(s, room);
        assert(f == head + (crlf() + (seq![' '] + inner))) by {
            assert(f =~= head + (crlf() + (seq![' '] + inner)));
        }
        lemma_replaced_crlf_prefix(head, crlf() + (seq![' '] + inner));
        lemma_replaced_match_prefix(seq![' '] + inner, crlf(), lf());
        assert(!seq![' '].contains('\r')) by {
            if seq![' '].contains('\r') {
                let j = choose|j: int| 0 <= j < 1 && seq![' '][j] == '\r';
            }
        }
        lemma_replaced_plain_prefix(seq![' '], inner, crlf(), lf());
        let r1 = replaced(inner, crlf(), lf());
        assert(replaced(f, crlf(), lf()) == head + (lf_space() + r1)) by {
            assert(head + (lf() + (seq![' '] + r1)) =~= head + (lf_space() + r1));
        }
        lemma_replaced_plain_prefix(head, lf_space() + r1, lf_space(), Seq::empty());
        lemma_replaced_match_prefix(r1, lf_space(), Seq::empty());
        assert(Seq::<char>::empty() + replaced(r1, lf_space(), Seq::empty()) =~= replaced(r1, lf_space(), Seq::empty()));
        assert(head + tail =~= s);
    }
}

proof fn lemma_unfold_folded_line(s: Seq<char>, room: int)
    requires
        is_logical_line(s),
    ensures
        unfolded(folded_from(s, room) + crlf()) == s + lf(),
    decreases s.len(),
{
    let k = cut_point(s, room);
    assert(!lf().contains('\r')) by {
        if lf().contains('\r') {
            let j = choose|j: int| 0 <= j < 1 && lf()[j] == '\r';
        }
    }
    if fit_count(s, room) >= s.len() || k <= 0 {
        lemma_replaced_crlf_prefix(s, crlf());
        lemma_replaced_match_prefix(Seq::empty(), crlf(), lf());
        assert(crlf() + Seq::<char>::empty() =~= crlf());
        assert(replaced(Seq::<char>::empty(), crlf(), lf()) =~= Seq::<char>::empty());
        assert(lf() + Seq::<char>::empty() =~= lf());
        lemma_replaced_plain_prefix(s, lf(), lf_space(), Seq::empty());
        assert(replaced(lf(), lf_space(), Seq::<char>::empty()) == lf());
    } else {
        let head = s.take(k);
        let tail = s.skip(k);
        let inner = folded_from(tail, CONTINUATION_LIMIT as int) + crlf();
        assert(!head.contains('\n')) by {
            if head.contains('\n') {
                let j = choose|j: int| 0 <= j < head.len() && head[j] == '\n';
                assert(s[j] == '\n');
            }
        }
        assert(is_logical_line(tail)) by {
            if tail.contains('\n') {
                let j = choose|j: int| 0 <= j < tail.len() && tail[j] == '\n';
                assert(s[j + k] == '\n');
            }
        }
        lemma_unfold_folded_line(tail, CONTINUATION_LIMIT as int);
        let f = folded_from(s, room) + crlf();
        assert(f == head + (crlf() + (seq![' '] + inner))) by {
            assert(f =~= head + (crlf() + (seq![' '] + inner)));
        }
        lemma_replaced_crlf_prefix(head, crlf() + (seq![' '] + inner));
        lemma_replaced_match_prefix(seq![' '] + inner, crlf(), lf());
        assert(!seq![' '].contains('\r')) by {
            if seq![' '].contains('\r') {
                let j = choose|j: int| 0 <= j < 1 && seq![' '][j] == '\r';
            }
        }
        lemma_replaced_plain_prefix(seq![' '], inner, crlf(), lf());
        let r1 = replaced(inner, crlf(), lf());
        assert(replaced(f, crlf(), lf()) == head + (lf_space() + r1)) by {
            assert(head + (lf() + (seq![' '] + r1)) =~= head + (lf_space() + r1));
        }
        lemma_replaced_plain_prefix(head, lf_space() + r1, lf_space(), Seq::empty());
        lemma_replaced_match_prefix(r1, lf_space(), Seq::empty());
        assert(Seq::<char>::empty() + replaced(r1, lf_space(), Seq::empty()) =~= replaced(r1, lf_space(), Seq::empty()));
        assert(head + (tail + lf()) =~= s + lf());
    }
}

/// Unfolding a folded logical line that ends in CRLF gives the line back,
/// ending in LF.
pub proof fn lemma_unfold_folded_with_crlf(line: Seq<char>)
    requires
        is_logical_line(line),
    ensures
        unfolded(folded(line) + crlf()) == line + lf(),
{
    lemma_unfold_folded_line(line, LINE_LIMIT as int);
}

/// Unfolding a folded logical line gives the line back.
pub proof fn lemma_unfold_fold(line: Seq<char>)
    requires
        is_logical_line(line),
    ensures
        unfolded(folded(line)) == line,
{
    lemma_unfold_folded_from(line, LINE_LIMIT as int);
}

} // verus!
