use vstd::prelude::*;

use crate::diag::line_run_len;
use crate::parse::body::ident_run_end;
use crate::parse::body::ident_run_len;
use crate::parse::body::is_ident_char;
use crate::parse::body::is_ident_start;
use crate::span::Span;

verus! {

/// One token of the group grammar. String literals carry their value
/// (escape sequences decoded); the token list always ends with `Eof`.
#[derive(Debug)]
pub enum TokenKind {
    Ident(String),
    StrLit(String),
    LParen,
    RParen,
    LBrace,
    RBrace,
    ColonColon,
    Colon,
    Eq,
    Comma,
    Other(char),
    Eof,
}

/// The mathematical shape of a token kind.
pub enum TokenKindModel {
    Ident(Seq<char>),
    StrLit(Seq<char>),
    LParen,
    RParen,
    LBrace,
    RBrace,
    ColonColon,
    Colon,
    Eq,
    Comma,
    Other(char),
    Eof,
}

impl View for TokenKind {
    type V = TokenKindModel;

    open spec fn view(&self) -> TokenKindModel {
        match self {
            TokenKind::Ident(s) => TokenKindModel::Ident(s@),
            TokenKind::StrLit(s) => TokenKindModel::StrLit(s@),
            TokenKind::LParen => TokenKindModel::LParen,
            TokenKind::RParen => TokenKindModel::RParen,
            TokenKind::LBrace => TokenKindModel::LBrace,
            TokenKind::RBrace => TokenKindModel::RBrace,
            TokenKind::ColonColon => TokenKindModel::ColonColon,
            TokenKind::Colon => TokenKindModel::Colon,
            TokenKind::Eq => TokenKindModel::Eq,
            TokenKind::Comma => TokenKindModel::Comma,
            TokenKind::Other(c) => TokenKindModel::Other(*c),
            TokenKind::Eof => TokenKindModel::Eof,
        }
    }
}

#[derive(Debug)]
pub struct Token {
    pub kind: TokenKind,
    pub span: Span,
}

impl View for Token {
    type V = (TokenKindModel, Span);

    open spec fn view(&self) -> (TokenKindModel, Span) {
        (self.kind@, self.span)
    }
}

/// The view of a token vector.
pub open spec fn tokens_view(v: Seq<Token>) -> Seq<(TokenKindModel, Span)> {
    v.map_values(|t: Token| t@)
}

/// A failure to tokenize: the offending span and a short message.
#[derive(Debug)]
pub struct LexError {
    pub span: Span,
    pub message: String,
}

impl View for LexError {
    type V = (Span, Seq<char>);

    open spec fn view(&self) -> (Span, Seq<char>) {
        (self.span, self.message@)
    }
}

/// An increment clamped at the machine limit.
pub open spec fn bump(x: int) -> int {
    if x + 1 > usize::MAX {
        usize::MAX as int
    } else {
        x + 1
    }
}

/// The one-character-wide span at a line and column.
pub open spec fn point_span(line: int, col: int) -> Span {
    Span {
        start_line: line as usize,
        start_col: col as usize,
        end_line: line as usize,
        end_col: bump(col) as usize,
    }
}

/// The span of a token confined to one line.
pub open spec fn run_span(line: int, col: int, width: int) -> Span {
    Span {
        start_line: line as usize,
        start_col: col as usize,
        end_line: line as usize,
        end_col: (col + width) as usize,
    }
}

pub open spec fn msg_unterminated() -> Seq<char> {
    "unterminated string literal"@
}

pub open spec fn msg_invalid_escape() -> Seq<char> {
    "invalid escape"@
}

pub open spec fn msg_unterminated_comment() -> Seq<char> {
    "unterminated block comment"@
}

/// What an escape sequence `\d` stands for.
pub open spec fn escape_of(d: char) -> Option<char> {
    if d == 'n' {
        Some('\n')
    } else if d == 't' {
        Some('\t')
    } else if d == 'r' {
        Some('\r')
    } else if d == '\\' {
        Some('\\')
    } else if d == '"' {
        Some('"')
    } else if d == '\'' {
        Some('\'')
    } else if d == '0' {
        Some('\0')
    } else {
        None
    }
}

/// Scan the rest of a quoted string literal: the decoded value, the
/// offset just after the closing quote, and the line and column
/// there.
pub open spec fn spec_scan_string(s: Seq<char>, i: int, line: int, col: int, acc: Seq<char>)
    -> Result<(Seq<char>, int, int, int), (Span, Seq<char>)>
    decreases s.len() - i,
    when 0 <= i
{
    if i >= s.len() {
        Err((point_span(line, col), msg_unterminated()))
    } else {
        let c = s[i];
        if c == '"' {
            Ok((acc, i + 1, line, col + 1))
        } else if c == '\\' {
            if i + 1 >= s.len() {
                Err((point_span(line, col), msg_unterminated()))
            } else {
                match escape_of(s[i + 1]) {
                    Some(d) => spec_scan_string(s, i + 2, line, col + 2, acc.push(d)),
                    None => Err((run_span(line, col, 2), msg_invalid_escape())),
                }
            }
        } else if c == '\n' {
            spec_scan_string(s, i + 1, bump(line), 0, acc.push('\n'))
        } else {
            spec_scan_string(s, i + 1, line, col + 1, acc.push(c))
        }
    }
}

/// Scan the rest of a heredoc literal (`<< ... >>`): its verbatim
/// value, the offset just after the closing `>>`, and the line and
/// column there.
pub open spec fn spec_scan_heredoc(s: Seq<char>, i: int, line: int, col: int, acc: Seq<char>)
    -> Result<(Seq<char>, int, int, int), (Span, Seq<char>)>
    decreases s.len() - i,
    when 0 <= i
{
    if i >= s.len() {
        Err((point_span(line, col), msg_unterminated()))
    } else if s[i] == '>' && i + 1 < s.len() && s[i + 1] == '>' {
        Ok((acc, i + 2, line, col + 2))
    } else if s[i] == '\n' {
        spec_scan_heredoc(s, i + 1, bump(line), 0, acc.push('\n'))
    } else {
        spec_scan_heredoc(s, i + 1, line, col + 1, acc.push(s[i]))
    }
}

pub proof fn lemma_scan_string_advances(s: Seq<char>, i: int, line: int, col: int, acc: Seq<char>)
    requires
        0 <= i,
    ensures
        spec_scan_string(s, i, line, col, acc) matches Ok((_, i2, _, _)) ==> i < i2 <= s.len(),
    decreases s.len() - i,
{
    if i < s.len() {
        let c = s[i];
        if c == '\\' {
            if i + 1 < s.len() && escape_of(s[i + 1]) is Some {
                lemma_scan_string_advances(
                    s,
                    i + 2,
                    line,
                    col + 2,
                    acc.push(escape_of(s[i + 1]).unwrap()),
                );
            }
        } else if c == '\n' {
            lemma_scan_string_advances(s, i + 1, bump(line), 0, acc.push('\n'));
        } else if c != '"' {
            lemma_scan_string_advances(s, i + 1, line, col + 1, acc.push(c));
        }
    }
}

pub proof fn lemma_scan_heredoc_advances(s: Seq<char>, i: int, line: int, col: int, acc: Seq<char>)
    requires
        0 <= i,
    ensures
        spec_scan_heredoc(s, i, line, col, acc) matches Ok((_, i2, _, _)) ==> i < i2 <= s.len(),
    decreases s.len() - i,
{
    if i < s.len() && !(s[i] == '>' && i + 1 < s.len() && s[i + 1] == '>') {
        if s[i] == '\n' {
            lemma_scan_heredoc_advances(s, i + 1, bump(line), 0, acc.push('\n'));
        } else {
            lemma_scan_heredoc_advances(s, i + 1, line, col + 1, acc.push(s[i]));
        }
    }
}

/// A line run stays within the input.
pub proof fn lemma_line_run_in_range(s: Seq<char>, i: int)
    requires
        0 <= i <= s.len(),
    ensures
        i + line_run_len(s, i) <= s.len(),
    decreases s.len() - i,
{
    if i < s.len() && s[i] != '\n' {
        lemma_line_run_in_range(s, i + 1);
    }
}

/// An identifier run stays within the input.
pub proof fn lemma_ident_run_in_range(s: Seq<char>, i: int)
    requires
        0 <= i <= s.len(),
    ensures
        i + ident_run_len(s, i) <= s.len(),
    decreases s.len() - i,
{
    if i < s.len() && is_ident_char(s[i]) {
        lemma_ident_run_in_range(s, i + 1);
    }
}

/// Skip the rest of a block comment, `i` standing just after the
/// opening `/*` (or after a nested opener): block comments nest, and
/// `depth` counts the openers still unclosed. Gives the offset just
/// after the closing `*/` and the line and column there.
pub open spec fn spec_skip_block(s: Seq<char>, i: int, line: int, col: int, depth: int) -> Result<
    (int, int, int),
    (Span, Seq<char>),
>
    decreases s.len() - i,
    when 0 <= i
{
    if i >= s.len() {
        Err((point_span(line, col), msg_unterminated_comment()))
    } else if s[i] == '*' && i + 1 < s.len() && s[i + 1] == '/' {
        if depth == 1 {
            Ok((i + 2, line, col + 2))
        } else {
            spec_skip_block(s, i + 2, line, col + 2, depth - 1)
        }
    } else if s[i] == '/' && i + 1 < s.len() && s[i + 1] == '*' {
        spec_skip_block(s, i + 2, line, col + 2, depth + 1)
    } else if s[i] == '\n' {
        spec_skip_block(s, i + 1, bump(line), 0, depth)
    } else {
        spec_skip_block(s, i + 1, line, col + 1, depth)
    }
}

pub proof fn lemma_skip_block_advances(s: Seq<char>, i: int, line: int, col: int, depth: int)
    requires
        0 <= i,
    ensures
        spec_skip_block(s, i, line, col, depth) matches Ok((i2, _, _)) ==> i < i2 <= s.len(),
    decreases s.len() - i,
{
    if i < s.len() {
        if s[i] == '*' && i + 1 < s.len() && s[i + 1] == '/' {
            if depth != 1 {
                lemma_skip_block_advances(s, i + 2, line, col + 2, depth - 1);
            }
        } else if s[i] == '/' && i + 1 < s.len() && s[i + 1] == '*' {
            lemma_skip_block_advances(s, i + 2, line, col + 2, depth + 1);
        } else if s[i] == '\n' {
            lemma_skip_block_advances(s, i + 1, bump(line), 0, depth);
        } else {
            lemma_skip_block_advances(s, i + 1, line, col + 1, depth);
        }
    }
}

/// Prepend a token to a tokenization result.
pub open spec fn cons_token(
    t: (TokenKindModel, Span),
    rest: Result<Seq<(TokenKindModel, Span)>, (Span, Seq<char>)>,
) -> Result<Seq<(TokenKindModel, Span)>, (Span, Seq<char>)> {
    match rest {
        Ok(ts) => Ok(seq![t] + ts),
        Err(e) => Err(e),
    }
}

/// Tokenize the group grammar from offset `i` at the given line and
/// column: whitespace and comments (line and nested block) separate
/// tokens, identifiers and keywords are taken alike, string bodies
/// come quoted (with the escapes `\n \t \r \\ \" \' \0`) or as
/// heredocs, and `::` is one token. The result ends with `Eof`.
pub open spec fn spec_lex(s: Seq<char>, i: int, line: int, col: int) -> Result<
    Seq<(TokenKindModel, Span)>,
    (Span, Seq<char>),
>
    decreases s.len() - i,
    when 0 <= i
{
    if i >= s.len() {
        Ok(seq![(TokenKindModel::Eof, point_span(line, col))])
    } else {
        let c = s[i];
        if c == '\n' {
            spec_lex(s, i + 1, bump(line), 0)
        } else if c == ' ' || c == '\t' || c == '\r' {
            spec_lex(s, i + 1, line, col + 1)
        } else if is_ident_start(c) {
            proof {
                assert(ident_run_len(s, i) == 1 + ident_run_len(s, i + 1));
                lemma_ident_run_in_range(s, i);
            }
            let j = ident_run_end(s, i);
            cons_token(
                (TokenKindModel::Ident(s.subrange(i, j)), run_span(line, col, j - i)),
                spec_lex(s, j, line, col + (j - i)),
            )
        } else if c == '"' {
            proof {
                lemma_scan_string_advances(s, i + 1, line, col + 1, Seq::empty());
            }
            match spec_scan_string(s, i + 1, line, col + 1, Seq::empty()) {
                Ok((val, i2, line2, col2)) => cons_token(
                    (
                        TokenKindModel::StrLit(val),
                        Span {
                            start_line: line as usize,
                            start_col: col as usize,
                            end_line: line2 as usize,
                            end_col: col2 as usize,
                        },
                    ),
                    spec_lex(s, i2, line2, col2),
                ),
                Err(e) => Err(e),
            }
        } else if c == '<' && i + 1 < s.len() && s[i + 1] == '<' {
            proof {
                lemma_scan_heredoc_advances(s, i + 2, line, col + 2, Seq::empty());
            }
            match spec_scan_heredoc(s, i + 2, line, col + 2, Seq::empty()) {
                Ok((val, i2, line2, col2)) => cons_token(
                    (
                        TokenKindModel::StrLit(val),
                        Span {
                            start_line: line as usize,
                            start_col: col as usize,
                            end_line: line2 as usize,
                            end_col: col2 as usize,
                        },
                    ),
                    spec_lex(s, i2, line2, col2),
                ),
                Err(e) => Err(e),
            }
        } else if c == '/' && i + 1 < s.len() && s[i + 1] == '/' {
            proof {
                assert(line_run_len(s, i) == 1 + line_run_len(s, i + 1));
                lemma_line_run_in_range(s, i);
            }
            spec_lex(s, i + line_run_len(s, i), line, col + line_run_len(s, i))
        } else if c == '/' && i + 1 < s.len() && s[i + 1] == '*' {
            proof {
                lemma_skip_block_advances(s, i + 2, line, col + 2, 1);
            }
            match spec_skip_block(s, i + 2, line, col + 2, 1) {
                Ok((i2, line2, col2)) => spec_lex(s, i2, line2, col2),
                Err(e) => Err(e),
            }
        } else if c == '(' {
            cons_token(
                (TokenKindModel::LParen, run_span(line, col, 1)),
                spec_lex(s, i + 1, line, col + 1),
            )
        } else if c == ')' {
            cons_token(
                (TokenKindModel::RParen, run_span(line, col, 1)),
                spec_lex(s, i + 1, line, col + 1),
            )
        } else if c == '{' {
            cons_token(
                (TokenKindModel::LBrace, run_span(line, col, 1)),
                spec_lex(s, i + 1, line, col + 1),
            )
        } else if c == '}' {
            cons_token(
                (TokenKindModel::RBrace, run_span(line, col, 1)),
                spec_lex(s, i + 1, line, col + 1),
            )
        } else if c == ',' {
            cons_token(
                (TokenKindModel::Comma, run_span(line, col, 1)),
                spec_lex(s, i + 1, line, col + 1),
            )
        } else if c == '=' {
            cons_token(
                (TokenKindModel::Eq, run_span(line, col, 1)),
                spec_lex(s, i + 1, line, col + 1),
            )
        } else if c == ':' {
            if i + 1 < s.len() && s[i + 1] == ':' {
                cons_token(
                    (TokenKindModel::ColonColon, run_span(line, col, 2)),
                    spec_lex(s, i + 2, line, col + 2),
                )
            } else {
                cons_token(
                    (TokenKindModel::Colon, run_span(line, col, 1)),
                    spec_lex(s, i + 1, line, col + 1),
                )
            }
        } else {
            cons_token(
                (TokenKindModel::Other(c), run_span(line, col, 1)),
                spec_lex(s, i + 1, line, col + 1),
            )
        }
    }
}

/// Tokenize a whole source text.
pub open spec fn spec_lex_source(s: Seq<char>) -> Result<
    Seq<(TokenKindModel, Span)>,
    (Span, Seq<char>),
> {
    spec_lex(s, 0, 1, 0)
}


fn escape_char(d: char) -> (r: Option<char>)
    ensures
        r == escape_of(d),
{
    match d {
        'n' => Some('\n'),
        't' => Some('\t'),
        'r' => Some('\r'),
        '\\' => Some('\\'),
        '"' => Some('"'),
        '\'' => Some('\''),
        '0' => Some('\0'),
        _ => None,
    }
}

fn bump_usize(x: usize) -> (r: usize)
    ensures
        r as int == bump(x as int),
{
    if x < usize::MAX {
        x + 1
    } else {
        x
    }
}

fn make_point_span(line: usize, col: usize) -> (r: Span)
    ensures
        r == point_span(line as int, col as int),
{
    Span {
        start_line: line,
        start_col: col,
        end_line: line,
        end_col: if col < usize::MAX {
            col + 1
        } else {
            col
        },
    }
}

fn scan_string(s: &str, i: usize, line: usize, col: usize, acc: String) -> (r: Result<
    (String, usize, usize, usize),
    LexError,
>)
    requires
        i <= s@.len(),
        col <= i,
    ensures
        match r {
            Ok((val, i2, l2, c2)) => spec_scan_string(
                s@,
                i as int,
                line as int,
                col as int,
                acc@,
            ) matches Ok((vm, im, lm, cm)) && val@ == vm && i2 as int == im && l2 as int == lm
                && c2 as int == cm && i < i2 <= s@.len() && c2 <= i2,
            Err(le) => spec_scan_string(s@, i as int, line as int, col as int, acc@) matches Err(em)
                && le@ == em,
        },
    decreases s@.len() - i,
{
    let n = s.unicode_len();
    if i >= n {
        return Err(LexError {
            span: make_point_span(line, col),
            message: String::from_str("unterminated string literal"),
        });
    }
    let c = s.get_char(i);
    if c == '"' {
        Ok((acc, i + 1, line, col + 1))
    } else if c == '\\' {
        if i + 1 >= n {
            return Err(LexError {
                span: make_point_span(line, col),
                message: String::from_str("unterminated string literal"),
            });
        }
        match escape_char(s.get_char(i + 1)) {
            Some(d) => {
                let mut acc = acc;
                acc.push(d);
                scan_string(s, i + 2, line, col + 2, acc)
            },
            None => Err(LexError {
                span: Span { start_line: line, start_col: col, end_line: line, end_col: col + 2 },
                message: String::from_str("invalid escape"),
            }),
        }
    } else if c == '\n' {
        let mut acc = acc;
        acc.push('\n');
        scan_string(s, i + 1, bump_usize(line), 0, acc)
    } else {
        let mut acc = acc;
        acc.push(c);
        scan_string(s, i + 1, line, col + 1, acc)
    }
}

fn scan_heredoc(s: &str, i: usize, line: usize, col: usize, acc: String) -> (r: Result<
    (String, usize, usize, usize),
    LexError,
>)
    requires
        i <= s@.len(),
        col <= i,
    ensures
        match r {
            Ok((val, i2, l2, c2)) => spec_scan_heredoc(
                s@,
                i as int,
                line as int,
                col as int,
                acc@,
            ) matches Ok((vm, im, lm, cm)) && val@ == vm && i2 as int == im && l2 as int == lm
                && c2 as int == cm && i < i2 <= s@.len() && c2 <= i2,
            Err(le) => spec_scan_heredoc(s@, i as int, line as int, col as int, acc@) matches Err(
                em,
            ) && le@ == em,
        },
    decreases s@.len() - i,
{
    let n = s.unicode_len();
    if i >= n {
        return Err(LexError {
            span: make_point_span(line, col),
            message: String::from_str("unterminated string literal"),
        });
    }
    let c = s.get_char(i);
    if c == '>' && i + 1 < n && s.get_char(i + 1) == '>' {
        Ok((acc, i + 2, line, col + 2))
    } else if c == '\n' {
        let mut acc = acc;
        acc.push('\n');
        scan_heredoc(s, i + 1, bump_usize(line), 0, acc)
    } else {
        let mut acc = acc;
        acc.push(c);
        scan_heredoc(s, i + 1, line, col + 1, acc)
    }
}

fn skip_block(s: &str, i: usize, line: usize, col: usize, depth: u128) -> (r: Result<
    (usize, usize, usize),
    LexError,
>)
    requires
        i <= s@.len(),
        col <= i,
        1 <= depth,
        depth as int <= i as int,
    ensures
        match r {
            Ok((i2, l2, c2)) => spec_skip_block(
                s@,
                i as int,
                line as int,
                col as int,
                depth as int,
            ) matches Ok((im, lm, cm)) && i2 as int == im && l2 as int == lm && c2 as int == cm && i
                < i2 <= s@.len() && c2 <= i2,
            Err(le) => spec_skip_block(s@, i as int, line as int, col as int, depth as int)
                matches Err(em) && le@ == em,
        },
    decreases s@.len() - i,
{
    let n = s.unicode_len();
    if i >= n {
        return Err(LexError {
            span: make_point_span(line, col),
            message: String::from_str("unterminated block comment"),
        });
    }
    let c = s.get_char(i);
    if c == '*' && i + 1 < n && s.get_char(i + 1) == '/' {
        if depth == 1 {
            Ok((i + 2, line, col + 2))
        } else {
            skip_block(s, i + 2, line, col + 2, depth - 1)
        }
    } else if c == '/' && i + 1 < n && s.get_char(i + 1) == '*' {
        skip_block(s, i + 2, line, col + 2, depth + 1)
    } else if c == '\n' {
        skip_block(s, i + 1, bump_usize(line), 0, depth)
    } else {
        skip_block(s, i + 1, line, col + 1, depth)
    }
}

fn lex_from(s: &str, i: usize, line: usize, col: usize, out: &mut Vec<Token>) -> (r: Result<
    (),
    LexError,
>)
    requires
        i <= s@.len(),
        col <= i,
    ensures
        match r {
            Ok(_) => spec_lex(s@, i as int, line as int, col as int) matches Ok(tm) && tokens_view(
                final(out)@,
            ) == tokens_view(old(out)@) + tm,
            Err(le) => spec_lex(s@, i as int, line as int, col as int) matches Err(em) && le@
                == em,
        },
    decreases s@.len() - i,
{
    let ghost out0 = tokens_view(old(out)@);
    let n = s.unicode_len();
    if i >= n {
        out.push(Token { kind: TokenKind::Eof, span: make_point_span(line, col) });
        proof {
            assert(tokens_view(out@) =~= out0 + seq![
                (TokenKindModel::Eof, point_span(line as int, col as int)),
            ]);
        }
        return Ok(());
    }
    let c = s.get_char(i);
    if c == '\n' {
        lex_from(s, i + 1, bump_usize(line), 0, out)
    } else if c == ' ' || c == '\t' || c == '\r' {
        lex_from(s, i + 1, line, col + 1, out)
    } else if crate::parse::body::ident_start(c) {
        proof {
            assert(is_ident_char(s@[i as int]));
            assert(ident_run_len(s@, i as int) == 1 + ident_run_len(s@, i + 1 as int));
            lemma_ident_run_in_range(s@, i as int);
        }
        let j = crate::parse::body::scan_ident(s, i);
        let text = s.substring_char(i, j).to_owned();
        let width = j - i;
        let span = Span { start_line: line, start_col: col, end_line: line, end_col: col + width };
        out.push(Token { kind: TokenKind::Ident(text), span });
        let ghost tok = (
            TokenKindModel::Ident(s@.subrange(i as int, j as int)),
            run_span(line as int, col as int, j - i),
        );
        proof {
            assert(tokens_view(out@) =~= out0 + seq![tok]);
        }
        proof {
            lemma_cons_assoc(out0, tok);
        }
        lex_from(s, j, line, col + width, out)
    } else if c == '"' {
        match scan_string(s, i + 1, line, col + 1, String::new()) {
            Ok((val, i2, l2, c2)) => {
                let ghost vv = val@;
                let span = Span {
                    start_line: line,
                    start_col: col,
                    end_line: l2,
                    end_col: c2,
                };
                out.push(Token { kind: TokenKind::StrLit(val), span });
                let ghost tok = (TokenKindModel::StrLit(vv), span);
                proof {
                    assert(tokens_view(out@) =~= out0 + seq![tok]);
                }
                proof {
                    lemma_cons_assoc(out0, tok);
                }
                lex_from(s, i2, l2, c2, out)
            },
            Err(le) => Err(le),
        }
    } else if c == '<' && i + 1 < n && s.get_char(i + 1) == '<' {
        match scan_heredoc(s, i + 2, line, col + 2, String::new()) {
            Ok((val, i2, l2, c2)) => {
                let ghost vv = val@;
                let span = Span {
                    start_line: line,
                    start_col: col,
                    end_line: l2,
                    end_col: c2,
                };
                out.push(Token { kind: TokenKind::StrLit(val), span });
                let ghost tok = (TokenKindModel::StrLit(vv), span);
                proof {
                    assert(tokens_view(out@) =~= out0 + seq![tok]);
                }
                proof {
                    lemma_cons_assoc(out0, tok);
                }
                lex_from(s, i2, l2, c2, out)
            },
            Err(le) => Err(le),
        }
    } else if c == '/' && i + 1 < n && s.get_char(i + 1) == '/' {
        proof {
            assert(line_run_len(s@, i as int) == 1 + line_run_len(s@, i + 1 as int));
            lemma_line_run_in_range(s@, i as int);
        }
        let j = crate::diag::scan_line(s, i);
        lex_from(s, j, line, col + (j - i), out)
    } else if c == '/' && i + 1 < n && s.get_char(i + 1) == '*' {
        match skip_block(s, i + 2, line, col + 2, 1) {
            Ok((i2, l2, c2)) => lex_from(s, i2, l2, c2, out),
            Err(le) => Err(le),
        }
    } else if c == '(' || c == ')' || c == '{' || c == '}' || c == ',' || c == '=' {
        let kind = if c == '(' {
            TokenKind::LParen
        } else if c == ')' {
            TokenKind::RParen
        } else if c == '{' {
            TokenKind::LBrace
        } else if c == '}' {
            TokenKind::RBrace
        } else if c == ',' {
            TokenKind::Comma
        } else {
            TokenKind::Eq
        };
        let ghost km = kind@;
        let span = Span { start_line: line, start_col: col, end_line: line, end_col: col + 1 };
        out.push(Token { kind, span });
        let ghost tok = (km, span);
        proof {
            assert(tokens_view(out@) =~= out0 + seq![tok]);
        }
        proof {
            lemma_cons_assoc(out0, tok);
        }
        lex_from(s, i + 1, line, col + 1, out)
    } else if c == ':' {
        if i + 1 < n && s.get_char(i + 1) == ':' {
            let span = Span { start_line: line, start_col: col, end_line: line, end_col: col + 2 };
            out.push(Token { kind: TokenKind::ColonColon, span });
            let ghost tok = (TokenKindModel::ColonColon, span);
            proof {
                assert(tokens_view(out@) =~= out0 + seq![tok]);
            }
            proof {
                lemma_cons_assoc(out0, tok);
            }
            lex_from(s, i + 2, line, col + 2, out)
        } else {
            let span = Span { start_line: line, start_col: col, end_line: line, end_col: col + 1 };
            out.push(Token { kind: TokenKind::Colon, span });
            let ghost tok = (TokenKindModel::Colon, span);
            proof {
                assert(tokens_view(out@) =~= out0 + seq![tok]);
            }
            proof {
                lemma_cons_assoc(out0, tok);
            }
            lex_from(s, i + 1, line, col + 1, out)
        }
    } else {
        let span = Span { start_line: line, start_col: col, end_line: line, end_col: col + 1 };
        out.push(Token { kind: TokenKind::Other(c), span });
        let ghost tok = (TokenKindModel::Other(c), span);
        proof {
            assert(tokens_view(out@) =~= out0 + seq![tok]);
        }
        proof {
            lemma_cons_assoc(out0, tok);
        }
        lex_from(s, i + 1, line, col + 1, out)
    }
}

/// Splicing one token in front of a tokenization tail associates.
proof fn lemma_cons_assoc(out0: Seq<(TokenKindModel, Span)>, tok: (TokenKindModel, Span))
    ensures
        forall|rest: Seq<(TokenKindModel, Span)>| #[trigger] ((out0 + seq![tok]) + rest) == out0
            + (seq![tok] + rest),
{
    assert forall|rest: Seq<(TokenKindModel, Span)>| #[trigger] ((out0 + seq![tok]) + rest) == out0
        + (seq![tok] + rest) by {
        assert((out0 + seq![tok]) + rest =~= out0 + (seq![tok] + rest));
    }
}

/// Tokenize a whole source text; the token list ends with `Eof`.
pub(crate) fn lex(s: &str) -> (r: Result<Vec<Token>, LexError>)
    ensures
        match r {
            Ok(v) => spec_lex_source(s@) matches Ok(tm) && tokens_view(v@) == tm,
            Err(le) => spec_lex_source(s@) matches Err(em) && le@ == em,
        },
{
    let mut out: Vec<Token> = Vec::new();
    proof {
        assert(tokens_view(out@) =~= Seq::<(TokenKindModel, Span)>::empty());
    }
    match lex_from(s, 0, 1, 0, &mut out) {
        Ok(_) => {
            proof {
                match spec_lex_source(s@) {
                    Ok(tm) => {
                        assert(Seq::<(TokenKindModel, Span)>::empty() + tm =~= tm);
                    },
                    Err(_) => {},
                }
            }
            Ok(out)
        },
        Err(le) => Err(le),
    }
}


/// Prepending one token adds one to a tokenization's length.
proof fn lemma_count_cons(
    tok: (TokenKindModel, Span),
    r: Result<Seq<(TokenKindModel, Span)>, (Span, Seq<char>)>,
    bound: int,
)
    requires
        r matches Ok(rest) ==> rest.len() <= bound,
    ensures
        cons_token(tok, r) matches Ok(tm) ==> tm.len() <= bound + 1,
{
    match r {
        Ok(rest) => {
            assert((seq![tok] + rest).len() == 1 + rest.len());
        },
        Err(_) => {},
    }
}

/// A tokenization yields at most one token per character, plus the
/// end-of-input token.
#[verifier::rlimit(50)]
pub proof fn lemma_lex_token_count(s: Seq<char>, i: int, line: int, col: int)
    requires
        0 <= i <= s.len(),
    ensures
        spec_lex(s, i, line, col) matches Ok(tm) ==> tm.len() <= s.len() - i + 1,
    decreases s.len() - i,
{
    if i >= s.len() {
    } else {
        let c = s[i];
        if c == '\n' {
            lemma_lex_token_count(s, i + 1, bump(line), 0);
        } else if c == ' ' || c == '\t' || c == '\r' {
            lemma_lex_token_count(s, i + 1, line, col + 1);
        } else if is_ident_start(c) {
            assert(ident_run_len(s, i) == 1 + ident_run_len(s, i + 1));
            lemma_ident_run_in_range(s, i);
            let j = ident_run_end(s, i);
            lemma_lex_token_count(s, j, line, col + (j - i));
            lemma_count_cons(
                (TokenKindModel::Ident(s.subrange(i, j)), run_span(line, col, j - i)),
                spec_lex(s, j, line, col + (j - i)),
                s.len() - j + 1,
            );
        } else if c == '"' {
            lemma_scan_string_advances(s, i + 1, line, col + 1, Seq::empty());
            match spec_scan_string(s, i + 1, line, col + 1, Seq::empty()) {
                Ok((val, i2, line2, col2)) => {
                    lemma_lex_token_count(s, i2, line2, col2);
                    lemma_count_cons(
                        (
                            TokenKindModel::StrLit(val),
                            Span {
                                start_line: line as usize,
                                start_col: col as usize,
                                end_line: line2 as usize,
                                end_col: col2 as usize,
                            },
                        ),
                        spec_lex(s, i2, line2, col2),
                        s.len() - i2 + 1,
                    );
                },
                Err(_) => {},
            }
        } else if c == '<' && i + 1 < s.len() && s[i + 1] == '<' {
            lemma_scan_heredoc_advances(s, i + 2, line, col + 2, Seq::empty());
            match spec_scan_heredoc(s, i + 2, line, col + 2, Seq::empty()) {
                Ok((val, i2, line2, col2)) => {
                    lemma_lex_token_count(s, i2, line2, col2);
                    lemma_count_cons(
                        (
                            TokenKindModel::StrLit(val),
                            Span {
                                start_line: line as usize,
                                start_col: col as usize,
                                end_line: line2 as usize,
                                end_col: col2 as usize,
                            },
                        ),
                        spec_lex(s, i2, line2, col2),
                        s.len() - i2 + 1,
                    );
                },
                Err(_) => {},
            }
        } else if c == '/' && i + 1 < s.len() && s[i + 1] == '/' {
            assert(line_run_len(s, i) == 1 + line_run_len(s, i + 1));
            lemma_line_run_in_range(s, i);
            lemma_lex_token_count(s, i + line_run_len(s, i), line, col + line_run_len(s, i));
        } else if c == '/' && i + 1 < s.len() && s[i + 1] == '*' {
            lemma_skip_block_advances(s, i + 2, line, col + 2, 1);
            match spec_skip_block(s, i + 2, line, col + 2, 1) {
                Ok((i2, line2, col2)) => {
                    lemma_lex_token_count(s, i2, line2, col2);
                },
                Err(_) => {},
            }
        } else if c == '(' || c == ')' || c == '{' || c == '}' || c == ',' || c == '=' {
            lemma_lex_token_count(s, i + 1, line, col + 1);
            let kind = if c == '(' {
                TokenKindModel::LParen
            } else if c == ')' {
                TokenKindModel::RParen
            } else if c == '{' {
                TokenKindModel::LBrace
            } else if c == '}' {
                TokenKindModel::RBrace
            } else if c == ',' {
                TokenKindModel::Comma
            } else {
                TokenKindModel::Eq
            };
            lemma_count_cons(
                (kind, run_span(line, col, 1)),
                spec_lex(s, i + 1, line, col + 1),
                s.len() - i,
            );
        } else if c == ':' {
            if i + 1 < s.len() && s[i + 1] == ':' {
                lemma_lex_token_count(s, i + 2, line, col + 2);
                lemma_count_cons(
                    (TokenKindModel::ColonColon, run_span(line, col, 2)),
                    spec_lex(s, i + 2, line, col + 2),
                    s.len() - i - 1,
                );
            } else {
                lemma_lex_token_count(s, i + 1, line, col + 1);
                lemma_count_cons(
                    (TokenKindModel::Colon, run_span(line, col, 1)),
                    spec_lex(s, i + 1, line, col + 1),
                    s.len() - i,
                );
            }
        } else {
            lemma_lex_token_count(s, i + 1, line, col + 1);
            lemma_count_cons(
                (TokenKindModel::Other(c), run_span(line, col, 1)),
                spec_lex(s, i + 1, line, col + 1),
                s.len() - i,
            );
        }
    }
}

} // verus!
