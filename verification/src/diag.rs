use vstd::prelude::*;

use crate::span::Span;
use crate::span::sat_sub;
use crate::strutil::pad_to;
use crate::strutil::push_padded;
use crate::strutil::push_repeat;
use crate::strutil::repeat_char;

verus! {

/// The length of the run up to the next newline starting at `i`.
pub open spec fn line_run_len(s: Seq<char>, i: int) -> nat
    decreases s.len() - i,
{
    if i < 0 || i >= s.len() || s[i] == '\n' {
        0
    } else {
        1 + line_run_len(s, i + 1)
    }
}

/// A line with a trailing carriage return loses it.
pub open spec fn strip_cr(l: Seq<char>) -> Seq<char> {
    if l.len() > 0 && l.last() == '\r' {
        l.drop_last()
    } else {
        l
    }
}

/// The source split into lines from offset `i` on: each line runs up
/// to a newline (losing a trailing carriage return), and text ending
/// in a newline yields no trailing empty line.
pub open spec fn spec_lines_from(s: Seq<char>, i: int) -> Seq<Seq<char>>
    decreases s.len() - i,
    when 0 <= i
{
    if i >= s.len() {
        Seq::empty()
    } else {
        let j = i + line_run_len(s, i);
        let line = strip_cr(s.subrange(i, j));
        if j >= s.len() {
            seq![line]
        } else {
            seq![line] + spec_lines_from(s, j + 1)
        }
    }
}

pub open spec fn spec_lines(s: Seq<char>) -> Seq<Seq<char>> {
    spec_lines_from(s, 0)
}

/// Lines joined by newlines, with no trailing newline.
pub open spec fn join_lines(ls: Seq<Seq<char>>) -> Seq<char>
    decreases ls.len(),
{
    if ls.len() == 0 {
        Seq::empty()
    } else if ls.len() == 1 {
        ls[0]
    } else {
        ls[0] + seq!['\n'] + join_lines(ls.drop_first())
    }
}

/// Lines each followed by a newline.
pub open spec fn cat_lines(ls: Seq<Seq<char>>) -> Seq<char>
    decreases ls.len(),
{
    if ls.len() == 0 {
        Seq::empty()
    } else {
        ls[0] + seq!['\n'] + cat_lines(ls.drop_first())
    }
}

pub open spec fn min2(a: int, b: int) -> int {
    if a <= b {
        a
    } else {
        b
    }
}

/// The marker-arrow phase of the multi-line layout: lines wider than
/// `start_col + 1` pass through verbatim, each consuming one of the
/// `remaining` rows, until the first line that is not wider is padded
/// to `start_col` and capped with a caret. Gives the emitted text,
/// the lines left over, and the rows still remaining.
pub open spec fn arrow_phase(rest: Seq<Seq<char>>, remaining: nat, start_col: int) -> (
    Seq<char>,
    Seq<Seq<char>>,
    nat,
)
    decreases rest.len(),
{
    if rest.len() == 0 {
        (Seq::empty(), rest, remaining)
    } else if rest[0].len() > start_col + 1 {
        let (t, rem, n2) = arrow_phase(
            rest.drop_first(),
            sat_sub(remaining as int, 1) as nat,
            start_col,
        );
        (rest[0] + seq!['\n'] + t, rem, n2)
    } else {
        (pad_to(rest[0], start_col) + seq!['^', '\n'], rest.drop_first(), remaining)
    }
}

/// The vertical-bar rows of the multi-line layout: each line is
/// padded to `start_col` and followed by a bar unless it is wider
/// than `start_col + 1`.
pub open spec fn vertical_rows(ls: Seq<Seq<char>>, start_col: int) -> Seq<char>
    decreases ls.len(),
{
    if ls.len() == 0 {
        Seq::empty()
    } else {
        let bar: Seq<char> = if ls[0].len() > start_col + 1 {
            Seq::empty()
        } else {
            seq!['|']
        };
        pad_to(ls[0], start_col) + bar + seq!['\n'] + vertical_rows(ls.drop_first(), start_col)
    }
}

/// How many source lines the layout emits verbatim before the marker:
/// every line up to and including the span's start line (at least one
/// when any exist).
pub open spec fn lines_taken(n_lines: int, start_line: int) -> int {
    if start_line < 1 {
        min2(1, n_lines)
    } else {
        min2(start_line, n_lines)
    }
}

/// The single-line diagnostic layout: the source lines up to and
/// including the start line, then a marker row of `start_col` spaces,
/// `end_col - start_col` carets, a space, and the message.
pub open spec fn single_line_diag(
    ls: Seq<Seq<char>>,
    start_col: int,
    width: int,
    msg: Seq<char>,
    taken: int,
) -> Seq<char> {
    join_lines(ls.take(taken)) + seq!['\n'] + repeat_char(' ', start_col) + repeat_char('^', width)
        + seq![' '] + msg
}

/// The multi-line diagnostic layout: the source lines up to and
/// including the start line; the marker-arrow phase over the lines
/// after it with `end_line - start_line - 1` rows to spend; that many
/// leftover rows with vertical bars; an upper trailer row of carets
/// and a bar; and a final trailer row carrying a dash-filled span and
/// the message. Column arithmetic that would go negative is clamped
/// to zero.
pub open spec fn multi_line_diag(
    ls: Seq<Seq<char>>,
    span: Span,
    msg: Seq<char>,
) -> Seq<char> {
    let sl = span.start_line as int;
    let sc = span.start_col as int;
    let el = span.end_line as int;
    let ec = span.end_col as int;
    let taken = lines_taken(ls.len() as int, sl);
    let part1 = cat_lines(ls.take(taken));
    let rest = ls.skip(taken);
    let num0 = sat_sub(el - sl, 1) as nat;
    let (arrow_text, rem, num) = arrow_phase(rest, num0, sc);
    let vert = vertical_rows(rem.take(min2(num as int, rem.len() as int)), sc);
    part1 + arrow_text + vert + spec_trailers(span, msg)
}

/// The two trailer rows closing the multi-line layout.
pub open spec fn spec_trailers(span: Span, msg: Seq<char>) -> Seq<char> {
    let sc = span.start_col as int;
    let ec = span.end_col as int;
    let width: int = if ec > sc {
        ec - sc
    } else {
        1
    };
    repeat_char(' ', sat_sub(ec, 1)) + repeat_char('^', width) + repeat_char(' ', sat_sub(sc, ec))
        + seq!['|', '\n'] + repeat_char(' ', sat_sub(ec, 1)) + seq!['|'] + repeat_char(
        ' ',
        width - 1,
    ) + repeat_char('-', sat_sub(sc, ec)) + seq!['|', ' '] + msg
}

/// The diagnostic text for an error at `span` in `template`: the
/// single-line layout when the span sits on one line with a positive
/// width, and the multi-line layout otherwise. All columns, paddings,
/// and line widths count characters, not bytes.
pub open spec fn spec_diagnostic(template: Seq<char>, span: Span, msg: Seq<char>) -> Seq<char> {
    let ls = spec_lines(template);
    if span.start_line == span.end_line && span.end_col > span.start_col {
        single_line_diag(
            ls,
            span.start_col as int,
            span.end_col - span.start_col,
            msg,
            min2(span.start_line as int, ls.len() as int),
        )
    } else {
        multi_line_diag(ls, span, msg)
    }
}

/// How many newlines precede offset `i`.
pub open spec fn count_newlines(s: Seq<char>, i: int) -> nat
    decreases i,
{
    if i <= 0 || i > s.len() {
        0
    } else {
        count_newlines(s, i - 1) + if s[i - 1] == '\n' {
            1nat
        } else {
            0nat
        }
    }
}

/// The 0-indexed column of offset `i`: its distance from the last
/// newline before it.
pub open spec fn col_at(s: Seq<char>, i: int) -> nat
    decreases i,
{
    if i <= 0 || i > s.len() {
        0
    } else if s[i - 1] == '\n' {
        0
    } else {
        col_at(s, i - 1) + 1
    }
}

/// The 1-indexed line of offset `i` (clamped at the machine limit).
pub open spec fn line_at(s: Seq<char>, i: int) -> nat {
    if count_newlines(s, i) + 1 > usize::MAX {
        usize::MAX as nat
    } else {
        count_newlines(s, i) + 1
    }
}

/// The one-character-wide span pointing at offset `pos` (clamped at
/// the machine limit).
pub open spec fn span_at(s: Seq<char>, pos: int) -> Span {
    let line = line_at(s, pos) as usize;
    let col = col_at(s, pos) as usize;
    Span {
        start_line: line,
        start_col: col,
        end_line: line,
        end_col: if col == usize::MAX {
            col
        } else {
            (col + 1) as usize
        },
    }
}

/// Compute the line and column of a character offset.
pub fn line_col_at(s: &str, pos: usize) -> (r: Span)
    requires
        pos <= s@.len(),
    ensures
        r == span_at(s@, pos as int),
        r.start_line == line_at(s@, pos as int),
        r.start_col == col_at(s@, pos as int),
{
    let n = s.unicode_len();
    let mut line: usize = 1;
    let mut col: usize = 0;
    let mut i: usize = 0;
    while i < pos
        invariant
            i <= pos <= n,
            n == s@.len(),
            line == line_at(s@, i as int),
            col == col_at(s@, i as int),
            count_newlines(s@, i as int) <= i,
            col <= i,
        decreases pos - i,
    {
        if s.get_char(i) == '\n' {
            if line < usize::MAX {
                line = line + 1;
            }
            col = 0;
        } else {
            col = col + 1;
        }
        i = i + 1;
    }
    let end_col = if col == usize::MAX {
        col
    } else {
        col + 1
    };
    Span { start_line: line, start_col: col, end_line: line, end_col }
}

pub(crate) fn scan_line(s: &str, i: usize) -> (j: usize)
    requires
        i <= s@.len(),
    ensures
        j as int == i + line_run_len(s@, i as int),
        i <= j <= s@.len(),
{
    let n = s.unicode_len();
    let mut j = i;
    while j < n && s.get_char(j) != '\n'
        invariant
            i <= j <= n,
            n == s@.len(),
            i + line_run_len(s@, i as int) == j + line_run_len(s@, j as int),
        decreases n - j,
    {
        j = j + 1;
    }
    j
}

/// The view of a vector of lines.
pub open spec fn lines_view(v: Seq<String>) -> Seq<Seq<char>> {
    v.map_values(|l: String| l@)
}

fn split_lines_from(s: &str, i: usize, out: &mut Vec<String>)
    requires
        i <= s@.len(),
    ensures
        lines_view(final(out)@) == lines_view(old(out)@) + spec_lines_from(s@, i as int),
    decreases s@.len() - i,
{
    let ghost out0 = lines_view(old(out)@);
    let n = s.unicode_len();
    if i >= n {
        proof {
            assert(lines_view(out@) =~= out0 + spec_lines_from(s@, i as int));
        }
        return;
    }
    let j = scan_line(s, i);
    let line = if j > i && s.get_char(j - 1) == '\r' {
        s.substring_char(i, j - 1).to_owned()
    } else {
        s.substring_char(i, j).to_owned()
    };
    proof {
        if j > i && s@[j - 1] == '\r' {
            assert(s@.subrange(i as int, j as int).last() == s@[j - 1]);
            assert(s@.subrange(i as int, j - 1) =~= s@.subrange(i as int, j as int).drop_last());
        }
        assert(line@ == strip_cr(s@.subrange(i as int, j as int)));
    }
    out.push(line);
    if j >= n {
        proof {
            assert(lines_view(out@) =~= out0 + spec_lines_from(s@, i as int));
        }
        return;
    }
    split_lines_from(s, j + 1, out);
    proof {
        assert(lines_view(out@) =~= out0 + spec_lines_from(s@, i as int));
    }
}

/// Split source text into its lines.
pub fn split_lines(s: &str) -> (r: Vec<String>)
    ensures
        lines_view(r@) == spec_lines(s@),
{
    let mut out: Vec<String> = Vec::new();
    proof {
        assert(lines_view(out@) =~= Seq::<Seq<char>>::empty());
    }
    split_lines_from(s, 0, &mut out);
    proof {
        assert(Seq::<Seq<char>>::empty() + spec_lines(s@) =~= spec_lines(s@));
    }
    out
}

fn emit_joined(lines: &Vec<String>, k: usize, end: usize, out: &mut String)
    requires
        k <= end <= lines@.len(),
    ensures
        final(out)@ == old(out)@ + join_lines(lines_view(lines@).subrange(k as int, end as int)),
    decreases end - k,
{
    let ghost piece = join_lines(lines_view(lines@).subrange(k as int, end as int));
    if k >= end {
        proof {
            assert(out@ + piece =~= out@);
        }
        return;
    }
    proof {
        let sub = lines_view(lines@).subrange(k as int, end as int);
        assert(sub[0] == lines@[k as int]@);
        assert(sub.drop_first() =~= lines_view(lines@).subrange(k + 1 as int, end as int));
    }
    out.append(lines[k].as_str());
    if k + 1 < end {
        out.push('\n');
        emit_joined(lines, k + 1, end, out);
    } else {
        proof {
            assert(join_lines(lines_view(lines@).subrange(k + 1 as int, end as int))
                =~= Seq::<char>::empty());
        }
    }
    proof {
        assert(out@ =~= old(out)@ + piece);
    }
}

fn emit_lines(lines: &Vec<String>, k: usize, end: usize, out: &mut String)
    requires
        k <= end <= lines@.len(),
    ensures
        final(out)@ == old(out)@ + cat_lines(lines_view(lines@).subrange(k as int, end as int)),
    decreases end - k,
{
    let ghost piece = cat_lines(lines_view(lines@).subrange(k as int, end as int));
    if k >= end {
        proof {
            assert(out@ + piece =~= out@);
        }
        return;
    }
    proof {
        let sub = lines_view(lines@).subrange(k as int, end as int);
        assert(sub[0] == lines@[k as int]@);
        assert(sub.drop_first() =~= lines_view(lines@).subrange(k + 1 as int, end as int));
    }
    out.append(lines[k].as_str());
    out.push('\n');
    emit_lines(lines, k + 1, end, out);
    proof {
        assert(out@ =~= old(out)@ + piece);
    }
}

fn emit_arrow_phase(lines: &Vec<String>, k: usize, remaining: usize, start_col: usize, out: &mut
    String) -> (r: (usize, usize))
    requires
        k <= lines@.len(),
    ensures
        ({
            let (t, rem, n2) = arrow_phase(
                lines_view(lines@).skip(k as int),
                remaining as nat,
                start_col as int,
            );
            final(out)@ == old(out)@ + t && k <= r.0 <= lines@.len() && lines_view(lines@).skip(
                r.0 as int,
            ) == rem && r.1 == n2
        }),
    decreases lines@.len() - k,
{
    let ghost rest = lines_view(lines@).skip(k as int);
    if k >= lines.len() {
        proof {
            assert(rest =~= Seq::<Seq<char>>::empty());
            assert(out@ + arrow_phase(rest, remaining as nat, start_col as int).0 =~= out@);
        }
        return (k, remaining);
    }
    proof {
        assert(rest[0] == lines@[k as int]@);
        assert(rest.drop_first() =~= lines_view(lines@).skip(k + 1 as int));
    }
    let line_len = lines[k].as_str().unicode_len();
    if line_len > start_col && line_len - start_col > 1 {
        out.append(lines[k].as_str());
        out.push('\n');
        let next_remaining = if remaining >= 1 {
            remaining - 1
        } else {
            0
        };
        let r = emit_arrow_phase(lines, k + 1, next_remaining, start_col, out);
        proof {
            assert(out@ =~= old(out)@ + arrow_phase(rest, remaining as nat, start_col as int).0);
        }
        r
    } else {
        push_padded(out, lines[k].as_str(), start_col);
        out.push('^');
        out.push('\n');
        proof {
            assert(out@ =~= old(out)@ + arrow_phase(rest, remaining as nat, start_col as int).0);
        }
        (k + 1, remaining)
    }
}

fn emit_vertical(lines: &Vec<String>, k: usize, count: usize, start_col: usize, out: &mut String)
    requires
        k + count <= lines@.len(),
    ensures
        final(out)@ == old(out)@ + vertical_rows(
            lines_view(lines@).subrange(k as int, k + count as int),
            start_col as int,
        ),
    decreases count,
{
    let n_total = lines.len();
    proof {
        assert(k + count <= n_total);
    }
    let ghost piece = vertical_rows(
        lines_view(lines@).subrange(k as int, k + count as int),
        start_col as int,
    );
    if count == 0 {
        proof {
            assert(out@ + piece =~= out@);
        }
        return;
    }
    proof {
        let sub = lines_view(lines@).subrange(k as int, k + count as int);
        assert(sub[0] == lines@[k as int]@);
        assert(sub.drop_first() =~= lines_view(lines@).subrange(k + 1 as int, k + count as int));
    }
    push_padded(out, lines[k].as_str(), start_col);
    let line_len = lines[k].as_str().unicode_len();
    if !(line_len > start_col && line_len - start_col > 1) {
        out.push('|');
    }
    out.push('\n');
    emit_vertical(lines, k + 1, count - 1, start_col, out);
    proof {
        assert(out@ =~= old(out)@ + piece);
    }
}

/// Render the human-readable diagnostic for an error at `span` in
/// `template`.
pub fn format_diagnostic(template: &str, span: Span, message: &str) -> (out: String)
    ensures
        out@ == spec_diagnostic(template@, span, message@),
{
    let lines = split_lines(template);
    if span.start_line == span.end_line && span.end_col > span.start_col {
        format_single_line(&lines, span, message)
    } else {
        format_multi_line(&lines, span, message)
    }
}

fn format_single_line(lines: &Vec<String>, span: Span, message: &str) -> (out: String)
    requires
        span.start_line == span.end_line,
        span.end_col > span.start_col,
    ensures
        out@ == single_line_diag(
            lines_view(lines@),
            span.start_col as int,
            span.end_col - span.start_col,
            message@,
            min2(span.start_line as int, lines@.len() as int),
        ),
{
    let n_lines = lines.len();
    let mut out = String::new();
    let taken = if span.start_line <= n_lines {
        span.start_line
    } else {
        n_lines
    };
    emit_joined(lines, 0, taken, &mut out);
    proof {
        assert(lines_view(lines@).subrange(0, taken as int) =~= lines_view(lines@).take(
            taken as int,
        ));
    }
    out.push('\n');
    push_repeat(&mut out, ' ', span.start_col);
    push_repeat(&mut out, '^', span.end_col - span.start_col);
    out.push(' ');
    out.append(message);
    proof {
        assert(out@ =~= single_line_diag(
            lines_view(lines@),
            span.start_col as int,
            span.end_col - span.start_col,
            message@,
            min2(span.start_line as int, lines@.len() as int),
        ));
    }
    out
}

#[verifier::rlimit(60)]
fn format_multi_line(lines: &Vec<String>, span: Span, message: &str) -> (out: String)
    ensures
        out@ == multi_line_diag(lines_view(lines@), span, message@),
{
    let ghost ls = lines_view(lines@);
    let n_lines = lines.len();
    let mut out = String::new();
    {
        let taken = if n_lines == 0 {
            0
        } else if span.start_line < 1 {
            1
        } else if span.start_line <= n_lines {
            span.start_line
        } else {
            n_lines
        };
        proof {
            assert(taken as int == lines_taken(ls.len() as int, span.start_line as int));
        }
        let ghost part1 = cat_lines(ls.take(taken as int));
        emit_lines(&lines, 0, taken, &mut out);
        proof {
            assert(ls.subrange(0, taken as int) =~= ls.take(taken as int));
            assert(out@ == part1);
        }
        let num0 = if span.end_line > span.start_line {
            span.end_line - span.start_line - 1
        } else {
            0
        };
        proof {
            assert(num0 as int == sat_sub(span.end_line - span.start_line, 1));
        }
        let ghost arrow_result = arrow_phase(
            ls.skip(taken as int),
            num0 as nat,
            span.start_col as int,
        );
        let (k, num) = emit_arrow_phase(&lines, taken, num0, span.start_col, &mut out);
        proof {
            assert(out@ == part1 + arrow_result.0);
            assert(ls.skip(k as int) == arrow_result.1);
            assert(num as nat == arrow_result.2);
        }
        let leftover = n_lines - k;
        let count = if num <= leftover {
            num
        } else {
            leftover
        };
        let ghost vert = vertical_rows(
            arrow_result.1.take(min2(num as int, arrow_result.1.len() as int)),
            span.start_col as int,
        );
        proof {
            let rem = ls.skip(k as int);
            assert(rem.take(min2(num as int, rem.len() as int)) =~= ls.subrange(
                k as int,
                k + count as int,
            ));
        }
        emit_vertical(&lines, k, count, span.start_col, &mut out);
        proof {
            assert(out@ == part1 + arrow_result.0 + vert);
        }
        emit_trailers(span, message, &mut out);
        proof {
            assert(out@ =~= multi_line_diag(lines_view(lines@), span, message@));
        }
        out
    }
}

#[verifier::rlimit(60)]
fn emit_trailers(span: Span, message: &str, out: &mut String)
    ensures
        final(out)@ == old(out)@ + spec_trailers(span, message@),
{
    let width = if span.end_col > span.start_col {
        span.end_col - span.start_col
    } else {
        1
    };
    let before = if span.end_col >= 1 {
        span.end_col - 1
    } else {
        0
    };
    let after = if span.start_col >= span.end_col {
        span.start_col - span.end_col
    } else {
        0
    };
    push_repeat(out, ' ', before);
    push_repeat(out, '^', width);
    push_repeat(out, ' ', after);
    out.push('|');
    out.push('\n');
    push_repeat(out, ' ', before);
    out.push('|');
    push_repeat(out, ' ', width - 1);
    push_repeat(out, '-', after);
    out.push('|');
    out.push(' ');
    out.append(message);
    proof {
        assert(out@ =~= old(out)@ + spec_trailers(span, message@));
    }
}

} // verus!
