//! Line classification and rendering.
//!
//! A reply is treated as a sequence of newline-delimited lines.  Each line is
//! classified on its own content alone, in a fixed priority order, and then
//! rewritten according to its class: heading markers are stripped, bullet
//! markers are replaced by a glyph, code fences become labels or dividers,
//! and everything else passes through unchanged.

use crate::style;
use vstd::prelude::*;

verus! {

/// The classification a single line receives.  Exactly one class applies to
/// any line; candidates are tried in the order the variants are listed.
#[derive(Clone, Copy, Debug, PartialEq, Eq, Structural)]
pub enum LineClass {
    Heading1,
    Heading2,
    Heading3,
    CodeFenceClose,
    CodeFenceOpen,
    ShellCommand,
    BulletItem,
    NumberedItem,
    PlainText,
}

/// The characters `str::trim` removes: Unicode `White_Space`.
pub open spec fn spec_is_whitespace(c: char) -> bool {
    c == ' ' || c == '\t' || c == '\n' || c == '\r' || c == '\u{0b}' || c == '\u{0c}'
        || c == '\u{85}' || c == '\u{a0}' || c == '\u{1680}'
        || ('\u{2000}' <= c && c <= '\u{200a}')
        || c == '\u{2028}' || c == '\u{2029}' || c == '\u{202f}' || c == '\u{205f}'
        || c == '\u{3000}'
}

/// Decides whether `c` is whitespace in the sense of `str::trim`.
pub fn is_whitespace_char(c: char) -> (r: bool)
    ensures
        r == spec_is_whitespace(c),
{
    c == ' ' || c == '\t' || c == '\n' || c == '\r' || c == '\u{0b}' || c == '\u{0c}'
        || c == '\u{85}' || c == '\u{a0}' || c == '\u{1680}'
        || ('\u{2000}' <= c && c <= '\u{200a}')
        || c == '\u{2028}' || c == '\u{2029}' || c == '\u{202f}' || c == '\u{205f}'
        || c == '\u{3000}'
}

/// `p` is a prefix of `l`.
pub open spec fn has_prefix(l: Seq<char>, p: Seq<char>) -> bool {
    l.len() >= p.len() && forall|i: int| 0 <= i < p.len() ==> l[i] == #[trigger] p[i]
}

/// The index of the first occurrence of `c` in `l`, or `l.len()` when `c`
/// does not occur.
pub open spec fn spec_find(l: Seq<char>, c: char) -> int
    decreases l.len(),
{
    if l.len() == 0 {
        0
    } else if l[0] == c {
        0
    } else {
        1 + spec_find(l.skip(1), c)
    }
}

/// `spec_find` returns a position within bounds, before which `c` does not
/// occur, and at which `c` stands whenever the position is in range.
pub proof fn lemma_find_bounds(l: Seq<char>, c: char)
    ensures
        0 <= spec_find(l, c) <= l.len(),
        forall|j: int| 0 <= j < spec_find(l, c) ==> l[j] != c,
        spec_find(l, c) < l.len() ==> l[spec_find(l, c)] == c,
    decreases l.len(),
{
    if l.len() == 0 {
    } else if l[0] == c {
    } else {
        lemma_find_bounds(l.skip(1), c);
        assert(forall|j: int| 0 <= j < spec_find(l, c) ==> l[j] != c) by {
            assert forall|j: int| 0 <= j < spec_find(l, c) implies l[j] != c by {
                if j > 0 {
                    assert(l.skip(1)[j - 1] == l[j]);
                }
            }
        }
    }
}

/// A scan that saw no `c` strictly before `k`, and `c` at `k` (or ran off
/// the end), has found `spec_find`.
pub proof fn lemma_find_is(l: Seq<char>, c: char, k: int)
    requires
        0 <= k <= l.len(),
        forall|j: int| 0 <= j < k ==> l[j] != c,
        k < l.len() ==> l[k] == c,
    ensures
        spec_find(l, c) == k,
    decreases l.len(),
{
    if l.len() == 0 {
    } else if k == 0 {
    } else {
        assert(l[0] != c);
        let t = l.skip(1);
        assert forall|j: int| 0 <= j < k - 1 implies t[j] != c by {
            assert(t[j] == l[j + 1]);
        }
        assert(k - 1 < t.len() ==> t[k - 1] == c);
        lemma_find_is(t, c, k - 1);
    }
}

/// The line with leading whitespace removed.
pub open spec fn spec_trim_start(l: Seq<char>) -> Seq<char>
    decreases l.len(),
{
    if l.len() == 0 {
        l
    } else if spec_is_whitespace(l[0]) {
        spec_trim_start(l.skip(1))
    } else {
        l
    }
}

/// A scan that saw only whitespace strictly before `i`, and something else
/// at `i` (or ran off the end), has found where trimming stops.
pub proof fn lemma_trim_start_at(l: Seq<char>, i: int)
    requires
        0 <= i <= l.len(),
        forall|j: int| 0 <= j < i ==> spec_is_whitespace(l[j]),
        i < l.len() ==> !spec_is_whitespace(l[i]),
    ensures
        spec_trim_start(l) == l.skip(i),
    decreases i,
{
    if i == 0 {
        assert(l.skip(0) =~= l);
    } else {
        assert(spec_is_whitespace(l[0]));
        let t = l.skip(1);
        assert forall|j: int| 0 <= j < i - 1 implies spec_is_whitespace(t[j]) by {
            assert(t[j] == l[j + 1]);
        }
        assert(i - 1 < t.len() ==> !spec_is_whitespace(t[i - 1]));
        lemma_trim_start_at(t, i - 1);
        assert(t.skip(i - 1) =~= l.skip(i));
    }
}

/// A character a numbered-list line may consist of: an ASCII digit, a
/// period, or a space.
pub open spec fn spec_is_numbered_char(c: char) -> bool {
    ('0' <= c && c <= '9') || c == '.' || c == ' '
}

/// A numbered-list line: nothing but digits, periods and spaces, with at
/// least one period.
pub open spec fn spec_is_numbered(l: Seq<char>) -> bool {
    (forall|i: int| 0 <= i < l.len() ==> spec_is_numbered_char(#[trigger] l[i]))
        && (exists|i: int| 0 <= i < l.len() && l[i] == '.')
}

/// After trimming leading whitespace the line starts with `$` or `sudo`.
pub open spec fn spec_is_shell(l: Seq<char>) -> bool {
    has_prefix(spec_trim_start(l), seq!['$']) || has_prefix(
        spec_trim_start(l),
        seq!['s', 'u', 'd', 'o'],
    )
}

/// Classifies one line.  The first matching rule wins:
/// headings, code fences, shell commands, bullets, numbered items, plain.
///
/// Classification is deliberately stateless: a fence line with trailing
/// content opens a code block, and a bare fence line is always taken as
/// closing one, so two bare fence lines in a row both render as dividers.
pub open spec fn spec_classify(l: Seq<char>) -> LineClass {
    if has_prefix(l, seq!['#', ' ']) {
        LineClass::Heading1
    } else if has_prefix(l, seq!['#', '#', ' ']) {
        LineClass::Heading2
    } else if has_prefix(l, seq!['#', '#', '#', ' ']) {
        LineClass::Heading3
    } else if has_prefix(l, seq!['`', '`', '`']) {
        if l.len() == 3 {
            LineClass::CodeFenceClose
        } else {
            LineClass::CodeFenceOpen
        }
    } else if spec_is_shell(l) {
        LineClass::ShellCommand
    } else if has_prefix(l, seq!['-', ' ']) || has_prefix(l, seq!['*', ' ']) {
        LineClass::BulletItem
    } else if spec_is_numbered(l) {
        LineClass::NumberedItem
    } else {
        LineClass::PlainText
    }
}

/// The index where leading whitespace of `line` ends.
fn scan_trim_start(line: &str) -> (i: usize)
    ensures
        0 <= i <= line@.len(),
        spec_trim_start(line@) == line@.skip(i as int),
    decreases line@.len(),
{
    let n = line.unicode_len();
    let mut i: usize = 0;
    while i < n && is_whitespace_char(line.get_char(i))
        invariant
            0 <= i <= n,
            n == line@.len(),
            forall|j: int| 0 <= j < i ==> spec_is_whitespace(line@[j]),
        decreases n - i,
    {
        i = i + 1;
    }
    proof {
        lemma_trim_start_at(line@, i as int);
    }
    i
}

/// Decides `spec_is_numbered` for `line`.
fn scan_numbered(line: &str) -> (r: bool)
    ensures
        r == spec_is_numbered(line@),
{
    let n = line.unicode_len();
    let mut i: usize = 0;
    let mut has_dot: bool = false;
    while i < n
        invariant
            0 <= i <= n,
            n == line@.len(),
            forall|j: int| 0 <= j < i ==> spec_is_numbered_char(#[trigger] line@[j]),
            has_dot == exists|j: int| 0 <= j < i && line@[j] == '.',
        decreases n - i,
    {
        let c = line.get_char(i);
        if !(('0' <= c && c <= '9') || c == '.' || c == ' ') {
            proof {
                assert(!spec_is_numbered_char(line@[i as int]));
            }
            return false;
        }
        if c == '.' {
            has_dot = true;
        }
        i = i + 1;
    }
    has_dot
}

/// Classifies one line of text, as `spec_classify` does.
pub fn classify(line: &str) -> (c: LineClass)
    ensures
        c == spec_classify(line@),
{
    let n = line.unicode_len();
    if n >= 2 && line.get_char(0) == '#' && line.get_char(1) == ' ' {
        LineClass::Heading1
    } else if n >= 3 && line.get_char(0) == '#' && line.get_char(1) == '#' && line.get_char(2)
        == ' ' {
        LineClass::Heading2
    } else if n >= 4 && line.get_char(0) == '#' && line.get_char(1) == '#' && line.get_char(2)
        == '#' && line.get_char(3) == ' ' {
        LineClass::Heading3
    } else if n >= 3 && line.get_char(0) == '`' && line.get_char(1) == '`' && line.get_char(2)
        == '`' {
        if n == 3 {
            LineClass::CodeFenceClose
        } else {
            LineClass::CodeFenceOpen
        }
    } else {
        let t = scan_trim_start(line);
        let is_shell = if t < n {
            if line.get_char(t) == '$' {
                true
            } else if n - t >= 4 && line.get_char(t) == 's' && line.get_char(t + 1) == 'u'
                && line.get_char(t + 2) == 'd' && line.get_char(t + 3) == 'o' {
                true
            } else {
                false
            }
        } else {
            false
        };
        proof {
            let tr = spec_trim_start(line@);
            let ti = t as int;
            let p1 = seq!['$'];
            let p4 = seq!['s', 'u', 'd', 'o'];
            assert(p1[0] == '$');
            assert(p4[0] == 's' && p4[1] == 'u' && p4[2] == 'd' && p4[3] == 'o');
            assert(tr.len() == line@.len() - ti);
            assert(forall|j: int| 0 <= j < tr.len() ==> #[trigger] tr[j] == line@[ti + j]);
            if t < n {
                assert(tr[0] == line@[ti]);
                if line@[ti] == '$' {
                    assert(has_prefix(tr, p1)) by {
                        assert forall|i: int| 0 <= i < p1.len() implies tr[i] == p1[i] by {
                            assert(i == 0);
                        }
                    }
                } else {
                    assert(!has_prefix(tr, p1));
                }
                if n - t >= 4 && line@[ti] == 's' && line@[ti + 1] == 'u' && line@[ti + 2] == 'd'
                    && line@[ti + 3] == 'o' {
                    assert(has_prefix(tr, p4)) by {
                        assert forall|i: int| 0 <= i < p4.len() implies tr[i] == p4[i] by {
                            assert(tr[i] == line@[ti + i]);
                        }
                    }
                } else {
                    assert(!has_prefix(tr, p4)) by {
                        if has_prefix(tr, p4) {
                            assert(tr[0] == p4[0] && tr[1] == p4[1] && tr[2] == p4[2] && tr[3]
                                == p4[3]);
                        }
                    }
                }
            } else {
                assert(tr.len() == 0);
                assert(!has_prefix(tr, p1));
                assert(!has_prefix(tr, p4));
            }
            assert(is_shell == spec_is_shell(line@));
        }
        if is_shell {
            LineClass::ShellCommand
        } else if n >= 2 && (line.get_char(0) == '-' || line.get_char(0) == '*') && line.get_char(1)
            == ' ' {
            LineClass::BulletItem
        } else if scan_numbered(line) {
            LineClass::NumberedItem
        } else {
            LineClass::PlainText
        }
    }
}

/// The fixed-width horizontal divider drawn for a closing code fence.
pub open spec fn spec_divider() -> Seq<char> {
    "\u{2500}\u{2500}\u{2500}\u{2500}\u{2500}\u{2500}\u{2500}\u{2500}\u{2500}\u{2500}\u{2500}\u{2500}\u{2500}\u{2500}\u{2500}\u{2500}\u{2500}\u{2500}\u{2500}\u{2500}\u{2500}\u{2500}\u{2500}\u{2500}\u{2500}\u{2500}\u{2500}\u{2500}\u{2500}\u{2500}\u{2500}\u{2500}\u{2500}\u{2500}\u{2500}"@
}

/// What stands before the first period of a numbered line.
pub open spec fn num_label(l: Seq<char>) -> Seq<char> {
    l.subrange(0, spec_find(l, '.'))
}

/// What stands after the first period of a numbered line.
pub open spec fn num_rest(l: Seq<char>) -> Seq<char> {
    l.skip(spec_find(l, '.') + 1)
}

/// The rendered text of one line, without any color or weight styling:
/// heading and bullet markers are stripped or replaced, code fences become
/// a label or a divider, shell commands and bullets are indented, numbered
/// lines are split at their first period, and plain lines pass through.
pub open spec fn spec_render_line(l: Seq<char>) -> Seq<char> {
    match spec_classify(l) {
        LineClass::Heading1 => l.skip(2),
        LineClass::Heading2 => l.skip(3),
        LineClass::Heading3 => l.skip(4),
        LineClass::CodeFenceClose => spec_divider(),
        LineClass::CodeFenceOpen => "Code ("@ + l.skip(3) + ")"@,
        LineClass::ShellCommand => "  "@ + l,
        LineClass::BulletItem => "  \u{2022} "@ + l.skip(2),
        LineClass::NumberedItem => "  "@ + num_label(l) + ". "@ + num_rest(l),
        LineClass::PlainText => l,
    }
}

/// The index of the first occurrence of `c` in `line`, or the length of
/// `line` when `c` does not occur.
fn find_char(line: &str, c: char) -> (i: usize)
    ensures
        i as int == spec_find(line@, c),
{
    let n = line.unicode_len();
    let mut i: usize = 0;
    while i < n
        invariant
            0 <= i <= n,
            n == line@.len(),
            forall|j: int| 0 <= j < i ==> line@[j] != c,
        decreases n - i,
    {
        if line.get_char(i) == c {
            proof {
                lemma_find_is(line@, c, i as int);
            }
            return i;
        }
        i = i + 1;
    }
    proof {
        lemma_find_is(line@, c, n as int);
    }
    n
}

/// A line that holds a period is exactly its label, its first period, and
/// the rest: rejoining the three reproduces the line.
pub proof fn lemma_numbered_rejoin(l: Seq<char>)
    requires
        l.contains('.'),
    ensures
        num_label(l) + seq!['.'] + num_rest(l) == l,
{
    lemma_find_bounds(l, '.');
    let f = spec_find(l, '.');
    assert(f < l.len()) by {
        if f == l.len() {
            let w = choose|i: int| 0 <= i < l.len() && l[i] == '.';
            assert(l[w] != '.');
        }
    }
    assert(l[f] == '.');
    assert(num_label(l) + seq!['.'] + num_rest(l) =~= l);
}

/// Renders one line of text without styling, as `spec_render_line` does.
pub fn render_line(line: &str) -> (r: String)
    ensures
        r@ == spec_render_line(line@),
{
    let n = line.unicode_len();
    match classify(line) {
        LineClass::Heading1 => String::from_str(line.substring_char(2, n)),
        LineClass::Heading2 => String::from_str(line.substring_char(3, n)),
        LineClass::Heading3 => String::from_str(line.substring_char(4, n)),
        LineClass::CodeFenceClose => String::from_str(
            "\u{2500}\u{2500}\u{2500}\u{2500}\u{2500}\u{2500}\u{2500}\u{2500}\u{2500}\u{2500}\u{2500}\u{2500}\u{2500}\u{2500}\u{2500}\u{2500}\u{2500}\u{2500}\u{2500}\u{2500}\u{2500}\u{2500}\u{2500}\u{2500}\u{2500}\u{2500}\u{2500}\u{2500}\u{2500}\u{2500}\u{2500}\u{2500}\u{2500}\u{2500}\u{2500}",
        ),
        LineClass::CodeFenceOpen => {
            let s = String::from_str("Code (");
            let s = s.concat(line.substring_char(3, n));
            s.concat(")")
        },
        LineClass::ShellCommand => {
            let s = String::from_str("  ");
            s.concat(line)
        },
        LineClass::BulletItem => {
            let s = String::from_str("  \u{2022} ");
            s.concat(line.substring_char(2, n))
        },
        LineClass::NumberedItem => {
            let d = find_char(line, '.');
            proof {
                lemma_find_bounds(line@, '.');
                if d as int == line@.len() {
                    let w = choose|i: int| 0 <= i < line@.len() && line@[i] == '.';
                    assert(line@[w] != '.');
                }
            }
            let s = String::from_str("  ");
            let s = s.concat(line.substring_char(0, d));
            let s = s.concat(". ");
            s.concat(line.substring_char(d + 1, n))
        },
        LineClass::PlainText => String::from_str(line),
    }
}

/// The rendered text of a whole sequence of lines, one output line per
/// input line.
pub open spec fn spec_render(ls: Seq<Seq<char>>) -> Seq<Seq<char>> {
    ls.map_values(|l: Seq<char>| spec_render_line(l))
}

/// Rendering preserves the number of lines: no line is dropped or merged.
pub proof fn lemma_render_preserves_len(ls: Seq<Seq<char>>)
    ensures
        spec_render(ls).len() == ls.len(),
{
}

/// Each output line is a function of the corresponding input line alone:
/// classification carries no state from one line to the next, so rendering
/// the same line content always decides the same way, wherever it stands.
pub proof fn lemma_render_pointwise(ls: Seq<Seq<char>>, i: int)
    requires
        0 <= i < ls.len(),
    ensures
        spec_render(ls)[i] == spec_render_line(ls[i]),
{
}

/// Renders every line of `lines`, without styling, as `spec_render` does.
pub fn render(lines: &Vec<String>) -> (out: Vec<String>)
    ensures
        out@.len() == lines@.len(),
        out.deep_view() == spec_render(lines.deep_view()),
{
    let mut out: Vec<String> = Vec::new();
    let mut i: usize = 0;
    let n = lines.len();
    while i < n
        invariant
            0 <= i <= n,
            n == lines@.len(),
            out@.len() == i,
            forall|j: int| 0 <= j < i ==> #[trigger] out@[j]@ == spec_render_line(lines@[j]@),
        decreases n - i,
    {
        let r = render_line(lines[i].as_str());
        out.push(r);
        i = i + 1;
    }
    proof {
        assert(out.deep_view() =~= spec_render(lines.deep_view()));
    }
    out
}

/// The pieces of a text blob between newline characters: a blob of `k`
/// newlines has `k + 1` pieces.
pub open spec fn spec_split_raw(s: Seq<char>) -> Seq<Seq<char>>
    decreases s.len(),
{
    let f = spec_find(s, '\n');
    if 0 <= f && f < s.len() {
        seq![s.subrange(0, f)] + spec_split_raw(s.skip(f + 1))
    } else {
        seq![s]
    }
}

/// The lines of a text blob: the pieces between newline characters, with
/// the empty piece after a trailing newline dropped — except that the
/// empty blob still has one empty line, so no blob has none.
pub open spec fn spec_split_lines(s: Seq<char>) -> Seq<Seq<char>> {
    let raw = spec_split_raw(s);
    if raw.len() > 1 && raw.last() == Seq::<char>::empty() {
        raw.drop_last()
    } else {
        raw
    }
}

/// Splits a text blob into its lines, as `spec_split_lines` does.
pub fn split_lines(s: &str) -> (out: Vec<String>)
    ensures
        out.deep_view() == spec_split_lines(s@),
{
    let n = s.unicode_len();
    let mut out: Vec<String> = Vec::new();
    let mut start: usize = 0;
    let mut i: usize = 0;
    proof {
        assert(s@.skip(0) =~= s@);
        assert(out.deep_view() =~= Seq::<Seq<char>>::empty());
        assert(Seq::<Seq<char>>::empty() + spec_split_raw(s@) =~= spec_split_raw(s@));
    }
    while i < n
        invariant
            0 <= start <= i <= n,
            n == s@.len(),
            forall|j: int| start <= j < i ==> s@[j] != '\n',
            spec_split_raw(s@) == out.deep_view() + spec_split_raw(s@.skip(start as int)),
        decreases n - i,
    {
        if s.get_char(i) == '\n' {
            let piece = String::from_str(s.substring_char(start, i));
            proof {
                let t = s@.skip(start as int);
                assert(forall|j: int| 0 <= j < t.len() ==> #[trigger] t[j] == s@[start + j]);
                lemma_find_is(t, '\n', i - start);
                assert(t.subrange(0, i - start) =~= s@.subrange(start as int, i as int));
                assert(t.skip(i - start + 1) =~= s@.skip(i + 1));
                assert((out.deep_view() + seq![piece@]) + spec_split_raw(s@.skip(i + 1))
                    =~= out.deep_view() + (seq![t.subrange(0, i - start)] + spec_split_raw(
                    t.skip(i - start + 1),
                )));
                assert(out.deep_view().push(piece@) =~= out.deep_view() + seq![piece@]);
            }
            let ghost prev_dv = out.deep_view();
            out.push(piece);
            proof {
                assert(out.deep_view() =~= prev_dv.push(piece@));
            }
            start = i + 1;
        }
        i = i + 1;
    }
    if start == n && out.len() > 0 {
        proof {
            let t = s@.skip(start as int);
            assert(t =~= Seq::<char>::empty());
            let raw = spec_split_raw(s@);
            assert(raw == out.deep_view() + seq![t]);
            assert(raw.last() == t);
            assert(raw.drop_last() =~= out.deep_view());
            assert(out.deep_view() == spec_split_lines(s@));
        }
        return out;
    }
    let piece = String::from_str(s.substring_char(start, n));
    proof {
        let t = s@.skip(start as int);
        assert(forall|j: int| 0 <= j < t.len() ==> #[trigger] t[j] == s@[start + j]);
        lemma_find_is(t, '\n', n - start);
        assert(t =~= s@.subrange(start as int, n as int));
        assert((out.deep_view() + seq![piece@]) =~= out.deep_view() + seq![t]);
        assert(out.deep_view().push(piece@) =~= out.deep_view() + seq![piece@]);
    }
    let ghost prev_dv = out.deep_view();
    out.push(piece);
    proof {
        assert(out.deep_view() =~= prev_dv.push(piece@));
        let raw = spec_split_raw(s@);
        assert(out.deep_view() == raw);
        if raw.len() > 1 && raw.last() == Seq::<char>::empty() {
            let t = s@.skip(start as int);
            assert(raw.last() == t);
            if start < n {
                assert(t.len() > 0);
            } else {
                assert(prev_dv.len() == 0);
                assert(raw.len() == 1);
            }
        }
        assert(out.deep_view() == spec_split_lines(s@));
    }
    out
}

/// One text blob from a sequence of lines, each line terminated by a
/// newline.
pub open spec fn spec_join_lines(ls: Seq<Seq<char>>) -> Seq<char>
    decreases ls.len(),
{
    if ls.len() == 0 {
        Seq::empty()
    } else {
        ls[0] + "\n"@ + spec_join_lines(ls.skip(1))
    }
}

/// Concatenates `lines` into one blob, as `spec_join_lines` does.
pub fn join_lines(lines: &Vec<String>) -> (r: String)
    ensures
        r@ == spec_join_lines(lines.deep_view()),
{
    let mut r = String::new();
    let mut i: usize = 0;
    let n = lines.len();
    proof {
        assert(lines.deep_view().skip(0) =~= lines.deep_view());
        assert(r@ + spec_join_lines(lines.deep_view()) =~= spec_join_lines(lines.deep_view()));
    }
    while i < n
        invariant
            0 <= i <= n,
            n == lines@.len(),
            r@ + spec_join_lines(lines.deep_view().skip(i as int)) == spec_join_lines(
                lines.deep_view(),
            ),
        decreases n - i,
    {
        proof {
            let dv = lines.deep_view();
            let t = dv.skip(i as int);
            assert(t[0] == dv[i as int]);
            assert(t.skip(1) =~= dv.skip(i + 1));
            assert((r@ + dv[i as int] + "\n"@) + spec_join_lines(dv.skip(i + 1)) =~= r@ + (t[0]
                + "\n"@ + spec_join_lines(t.skip(1))));
        }
        r.append(lines[i].as_str());
        r.append("\n");
        i = i + 1;
    }
    proof {
        assert(lines.deep_view().skip(n as int) =~= Seq::<Seq<char>>::empty());
        assert(r@ + Seq::<char>::empty() =~= r@);
    }
    r
}

/// Renders a whole reply without styling: the blob is split into lines,
/// every line is rendered on its own, and the results are joined back, one
/// terminated output line per input line.
pub fn format_output_plain(content: &str) -> (r: String)
    ensures
        r@ == spec_join_lines(spec_render(spec_split_lines(content@))),
{
    let lines = split_lines(content);
    let rendered = render(&lines);
    join_lines(&rendered)
}

/// `out` is `body` with some prefix and suffix around it.
pub open spec fn wraps(out: Seq<char>, body: Seq<char>) -> bool {
    exists|p: Seq<char>, t: Seq<char>| out == p + body + t
}

/// A sequence that avoids a character avoids it in every subrange.
proof fn lemma_avoid_subrange(l: Seq<char>, a: int, b: int, c: char)
    requires
        0 <= a <= b <= l.len(),
        !l.contains(c),
    ensures
        !l.subrange(a, b).contains(c),
{
    if l.subrange(a, b).contains(c) {
        let j = choose|j: int| 0 <= j < l.subrange(a, b).len() && l.subrange(a, b)[j] == c;
        assert(0 <= a + j < l.len() && l[a + j] == c);
        assert(l.contains(c));
    }
}

/// A concatenation of two sequences that avoid a character avoids it too.
proof fn lemma_avoid_concat(x: Seq<char>, y: Seq<char>, c: char)
    requires
        !x.contains(c),
        !y.contains(c),
    ensures
        !(x + y).contains(c),
{
    if (x + y).contains(c) {
        let j = choose|j: int| 0 <= j < (x + y).len() && (x + y)[j] == c;
        if j < x.len() {
            assert(x[j] == c);
            assert(x.contains(c));
        } else {
            assert(y[j - x.len()] == c);
            assert(y.contains(c));
        }
    }
}

/// How a styled output line relates to its input line: the rendered text of
/// `spec_render_line` is present verbatim, with escape sequences allowed
/// around each styled span and nowhere else.  Unstyled spans — the indent
/// and period of a numbered item, the bullet glyph, a plain line — appear
/// exactly.
pub open spec fn spec_styled_line_ok(l: Seq<char>, out: Seq<char>) -> bool {
    match spec_classify(l) {
        LineClass::Heading1 => wraps(out, l.skip(2)),
        LineClass::Heading2 => wraps(out, l.skip(3)),
        LineClass::Heading3 => wraps(out, l.skip(4)),
        LineClass::CodeFenceClose => wraps(out, spec_divider()),
        LineClass::CodeFenceOpen => wraps(out, "Code ("@ + l.skip(3) + ")"@),
        LineClass::ShellCommand => exists|p: Seq<char>, t: Seq<char>| out == "  "@ + p + l + t,
        LineClass::BulletItem => exists|p: Seq<char>, t: Seq<char>|
            out == "  \u{2022} "@ + p + l.skip(2) + t,
        LineClass::NumberedItem => exists|p: Seq<char>, t: Seq<char>|
            out == "  "@ + p + num_label(l) + t + ". "@ + num_rest(l),
        LineClass::PlainText => out == l,
    }
}

/// Renders one line with color and weight styling.  As long as the line
/// holds no escape character of its own, the output is the rendered text
/// of the line with styling around the styled spans.
pub fn render_line_styled(line: &str) -> (r: String)
    ensures
        !line@.contains('\u{1b}') ==> spec_styled_line_ok(line@, r@),
{
    let n = line.unicode_len();
    match classify(line) {
        LineClass::Heading1 => {
            let body = line.substring_char(2, n);
            proof {
                if !line@.contains('\u{1b}') {
                    lemma_avoid_subrange(line@, 2, n as int, '\u{1b}');
                }
            }
            style::paint_bold_blue(body)
        },
        LineClass::Heading2 => {
            let body = line.substring_char(3, n);
            proof {
                if !line@.contains('\u{1b}') {
                    lemma_avoid_subrange(line@, 3, n as int, '\u{1b}');
                }
            }
            style::paint_bold_green(body)
        },
        LineClass::Heading3 => {
            let body = line.substring_char(4, n);
            proof {
                if !line@.contains('\u{1b}') {
                    lemma_avoid_subrange(line@, 4, n as int, '\u{1b}');
                }
            }
            style::paint_bold_yellow(body)
        },
        LineClass::CodeFenceClose => {
            let divider =
                "\u{2500}\u{2500}\u{2500}\u{2500}\u{2500}\u{2500}\u{2500}\u{2500}\u{2500}\u{2500}\u{2500}\u{2500}\u{2500}\u{2500}\u{2500}\u{2500}\u{2500}\u{2500}\u{2500}\u{2500}\u{2500}\u{2500}\u{2500}\u{2500}\u{2500}\u{2500}\u{2500}\u{2500}\u{2500}\u{2500}\u{2500}\u{2500}\u{2500}\u{2500}\u{2500}";
            proof {
                reveal_strlit(
                    "\u{2500}\u{2500}\u{2500}\u{2500}\u{2500}\u{2500}\u{2500}\u{2500}\u{2500}\u{2500}\u{2500}\u{2500}\u{2500}\u{2500}\u{2500}\u{2500}\u{2500}\u{2500}\u{2500}\u{2500}\u{2500}\u{2500}\u{2500}\u{2500}\u{2500}\u{2500}\u{2500}\u{2500}\u{2500}\u{2500}\u{2500}\u{2500}\u{2500}\u{2500}\u{2500}",
                );
                assert(!spec_divider().contains('\u{1b}')) by {
                    if spec_divider().contains('\u{1b}') {
                        let j = choose|j: int|
                            0 <= j < spec_divider().len() && spec_divider()[j] == '\u{1b}';
                    }
                }
            }
            style::paint_dimmed(divider)
        },
        LineClass::CodeFenceOpen => {
            let s = String::from_str("Code (");
            let s = s.concat(line.substring_char(3, n));
            let label = s.concat(")");
            proof {
                if !line@.contains('\u{1b}') {
                    reveal_strlit("Code (");
                    reveal_strlit(")");
                    assert(!"Code ("@.contains('\u{1b}')) by {
                        if "Code ("@.contains('\u{1b}') {
                            let j = choose|j: int|
                                0 <= j < "Code ("@.len() && "Code ("@[j] == '\u{1b}';
                        }
                    }
                    assert(!")"@.contains('\u{1b}')) by {
                        if ")"@.contains('\u{1b}') {
                            let j = choose|j: int| 0 <= j < ")"@.len() && ")"@[j] == '\u{1b}';
                        }
                    }
                    lemma_avoid_subrange(line@, 3, n as int, '\u{1b}');
                    lemma_avoid_concat("Code ("@, line@.skip(3), '\u{1b}');
                    lemma_avoid_concat("Code ("@ + line@.skip(3), ")"@, '\u{1b}');
                }
            }
            style::paint_bold_cyan(label.as_str())
        },
        LineClass::ShellCommand => {
            let painted = style::paint_bold_green(line);
            let s = String::from_str("  ");
            let r = s.concat(painted.as_str());
            proof {
                if !line@.contains('\u{1b}') {
                    let (p, t) = choose|p: Seq<char>, t: Seq<char>| painted@ == p + line@ + t;
                    assert(r@ =~= "  "@ + p + line@ + t);
                }
            }
            r
        },
        LineClass::BulletItem => {
            let body = line.substring_char(2, n);
            let painted = style::paint_white(body);
            let s = String::from_str("  \u{2022} ");
            let r = s.concat(painted.as_str());
            proof {
                if !line@.contains('\u{1b}') {
                    lemma_avoid_subrange(line@, 2, n as int, '\u{1b}');
                    let (p, t) = choose|p: Seq<char>, t: Seq<char>|
                        painted@ == p + line@.skip(2) + t;
                    assert(r@ =~= "  \u{2022} "@ + p + line@.skip(2) + t);
                }
            }
            r
        },
        LineClass::NumberedItem => {
            let d = find_char(line, '.');
            proof {
                lemma_find_bounds(line@, '.');
                if d as int == line@.len() {
                    let w = choose|i: int| 0 <= i < line@.len() && line@[i] == '.';
                    assert(line@[w] != '.');
                }
            }
            let painted = style::paint_cyan(line.substring_char(0, d));
            let s = String::from_str("  ");
            let s = s.concat(painted.as_str());
            let s = s.concat(". ");
            let r = s.concat(line.substring_char(d + 1, n));
            proof {
                if !line@.contains('\u{1b}') {
                    lemma_avoid_subrange(line@, 0, d as int, '\u{1b}');
                    let (p, t) = choose|p: Seq<char>, t: Seq<char>|
                        painted@ == p + num_label(line@) + t;
                    assert(r@ =~= "  "@ + p + num_label(line@) + t + ". "@ + num_rest(line@));
                }
            }
            r
        },
        LineClass::PlainText => String::from_str(line),
    }
}

/// Renders every line of `lines` with styling, one output line per input
/// line.
pub fn render_styled(lines: &Vec<String>) -> (out: Vec<String>)
    ensures
        out@.len() == lines@.len(),
        forall|i: int|
            0 <= i < lines@.len() && !lines.deep_view()[i].contains('\u{1b}')
                ==> spec_styled_line_ok(lines.deep_view()[i], #[trigger] out.deep_view()[i]),
{
    let mut out: Vec<String> = Vec::new();
    let mut i: usize = 0;
    let n = lines.len();
    while i < n
        invariant
            0 <= i <= n,
            n == lines@.len(),
            out@.len() == i,
            forall|j: int|
                0 <= j < i && !lines.deep_view()[j].contains('\u{1b}') ==> spec_styled_line_ok(
                    lines.deep_view()[j],
                    #[trigger] out.deep_view()[j],
                ),
        decreases n - i,
    {
        let r = render_line_styled(lines[i].as_str());
        let ghost prev_dv = out.deep_view();
        out.push(r);
        proof {
            assert(out.deep_view() =~= prev_dv.push(r@));
            assert(lines.deep_view()[i as int] == lines@[i as int]@);
        }
        i = i + 1;
    }
    out
}

/// Renders a whole reply with styling: the blob is split into lines, every
/// line is rendered and styled on its own, and the results are joined back,
/// one terminated output line per input line.  Wherever a line holds no
/// escape character of its own, its output line shows the rendered text
/// verbatim inside the styling.
pub fn format_output(content: &str) -> (r: String)
    ensures
        exists|outs: Seq<Seq<char>>|
            outs.len() == spec_split_lines(content@).len() && (forall|i: int|
                0 <= i < outs.len() && !spec_split_lines(content@)[i].contains('\u{1b}')
                    ==> spec_styled_line_ok(
                    spec_split_lines(content@)[i],
                    #[trigger] outs[i],
                )) && r@ == spec_join_lines(outs),
{
    let lines = split_lines(content);
    let styled = render_styled(&lines);
    let r = join_lines(&styled);
    proof {
        let outs = styled.deep_view();
        assert(outs.len() == spec_split_lines(content@).len());
        assert(forall|i: int|
            0 <= i < outs.len() && !spec_split_lines(content@)[i].contains('\u{1b}')
                ==> spec_styled_line_ok(spec_split_lines(content@)[i], #[trigger] outs[i]));
        assert(r@ == spec_join_lines(outs));
    }
    r
}

} // verus!
