use vstd::prelude::*;

use crate::parse::lexer::Token;
use crate::parse::lexer::TokenKind;
use crate::parse::lexer::TokenKindModel;
use crate::parse::lexer::tokens_view;
use crate::span::Span;

verus! {

/// One parsed template declaration: its name, declared formal
/// arguments, body text, and the source span of the body literal.
pub struct TemplateDeclModel {
    pub name: Seq<char>,
    pub formal_args: Seq<Seq<char>>,
    pub body: Seq<char>,
    pub body_span: Span,
}

/// A parsed template declaration, before its body is compiled.
#[derive(Debug)]
pub struct RawTemplate {
    pub name: String,
    pub formal_args: Vec<String>,
    pub body: String,
    pub body_span: Span,
}

impl View for RawTemplate {
    type V = TemplateDeclModel;

    open spec fn view(&self) -> TemplateDeclModel {
        TemplateDeclModel {
            name: self.name@,
            formal_args: self.formal_args@.map_values(|a: String| a@),
            body: self.body@,
            body_span: self.body_span,
        }
    }
}

/// The view of a vector of parsed declarations.
pub open spec fn decls_view(v: Seq<RawTemplate>) -> Seq<TemplateDeclModel> {
    v.map_values(|t: RawTemplate| t@)
}

/// A grammar violation: the offending span and a short message.
#[derive(Debug)]
pub struct SyntaxError {
    pub span: Span,
    pub message: String,
}

impl View for SyntaxError {
    type V = (Span, Seq<char>);

    open spec fn view(&self) -> (Span, Seq<char>) {
        (self.span, self.message@)
    }
}

/// The token at index `i`, with end-of-input standing in past the
/// end.
pub open spec fn spec_peek(toks: Seq<(TokenKindModel, Span)>, i: int) -> (TokenKindModel, Span) {
    if 0 <= i < toks.len() {
        toks[i]
    } else {
        (
            TokenKindModel::Eof,
            Span { start_line: 1, start_col: 0, end_line: 1, end_col: 1 },
        )
    }
}

pub open spec fn is_open_delim(k: TokenKindModel) -> bool {
    k is LParen || k is LBrace
}

pub open spec fn is_close_delim(k: TokenKindModel) -> bool {
    k is RParen || k is RBrace
}

/// The index of the delimiter closing the group that is `depth` deep
/// at index `i`, if the delimiters balance.
pub open spec fn spec_match_close(toks: Seq<(TokenKindModel, Span)>, i: int, depth: int) -> Option<
    int,
>
    decreases toks.len() - i,
{
    if i < 0 || i >= toks.len() {
        None
    } else if is_open_delim(toks[i].0) {
        spec_match_close(toks, i + 1, depth + 1)
    } else if is_close_delim(toks[i].0) {
        if depth == 1 {
            Some(i)
        } else {
            spec_match_close(toks, i + 1, depth - 1)
        }
    } else {
        spec_match_close(toks, i + 1, depth)
    }
}

/// The span reported for an unexpected token: an opening delimiter
/// reaches to its matching close, and any other token is itself.
pub open spec fn spec_err_span(toks: Seq<(TokenKindModel, Span)>, i: int) -> Span {
    let (k, sp) = spec_peek(toks, i);
    if is_open_delim(k) {
        match spec_match_close(toks, i + 1, 1) {
            Some(m) => Span {
                start_line: sp.start_line,
                start_col: sp.start_col,
                end_line: toks[m].1.end_line,
                end_col: toks[m].1.end_col,
            },
            None => sp,
        }
    } else {
        sp
    }
}

pub open spec fn msg_expected_static() -> Seq<char> {
    "expected `static`"@
}

pub open spec fn msg_expected_ref() -> Seq<char> {
    "expected `ref`"@
}

pub open spec fn msg_expected_ident() -> Seq<char> {
    "expected identifier"@
}

pub open spec fn msg_expected_lbrace() -> Seq<char> {
    "expected `{`"@
}

pub open spec fn msg_expected_lparen() -> Seq<char> {
    "expected `(`"@
}

pub open spec fn msg_expected_comma() -> Seq<char> {
    "expected `,`"@
}

pub open spec fn msg_expected_coloncolon() -> Seq<char> {
    "expected `::`"@
}

pub open spec fn msg_expected_eq() -> Seq<char> {
    "expected `=`"@
}

pub open spec fn msg_expected_strlit() -> Seq<char> {
    "expected string literal"@
}

pub open spec fn msg_unexpected_token() -> Seq<char> {
    "unexpected token"@
}

/// Parse a declaration's formal-argument list, `i` standing just
/// after the `(` or a `,`: identifiers separated by commas, a
/// trailing comma allowed. Gives the names and the index just after
/// the `)`.
pub open spec fn spec_parse_args(
    toks: Seq<(TokenKindModel, Span)>,
    i: int,
    acc: Seq<Seq<char>>,
) -> Result<(Seq<Seq<char>>, int), (Span, Seq<char>)>
    decreases toks.len() + 2 - i,
{
    if spec_peek(toks, i).0 is RParen {
        Ok((acc, i + 1))
    } else {
        match spec_peek(toks, i).0 {
            TokenKindModel::Ident(a) => {
                if spec_peek(toks, i + 1).0 is Comma {
                    spec_parse_args(toks, i + 2, acc.push(a))
                } else if spec_peek(toks, i + 1).0 is RParen {
                    Ok((acc.push(a), i + 2))
                } else {
                    Err((spec_err_span(toks, i + 1), msg_expected_comma()))
                }
            },
            _ => Err((spec_err_span(toks, i), msg_expected_ident())),
        }
    }
}

/// Parse one template declaration starting at `i`:
/// `name ( args ) ::= "body"`. Gives the declaration and the index
/// just after its body.
pub open spec fn spec_parse_template(toks: Seq<(TokenKindModel, Span)>, i: int) -> Result<
    (TemplateDeclModel, int),
    (Span, Seq<char>),
> {
    match spec_peek(toks, i).0 {
        TokenKindModel::Ident(name) => {
            if spec_peek(toks, i + 1).0 is LParen {
                match spec_parse_args(toks, i + 2, Seq::empty()) {
                    Ok((args, i2)) => {
                        if spec_peek(toks, i2).0 is ColonColon {
                            if spec_peek(toks, i2 + 1).0 is Eq {
                                match spec_peek(toks, i2 + 2).0 {
                                    TokenKindModel::StrLit(body) => Ok(
                                        (
                                            TemplateDeclModel {
                                                name,
                                                formal_args: args,
                                                body,
                                                body_span: spec_peek(toks, i2 + 2).1,
                                            },
                                            i2 + 3,
                                        ),
                                    ),
                                    _ => Err(
                                        (spec_err_span(toks, i2 + 2), msg_expected_strlit()),
                                    ),
                                }
                            } else {
                                Err((spec_err_span(toks, i2 + 1), msg_expected_eq()))
                            }
                        } else {
                            Err((spec_err_span(toks, i2), msg_expected_coloncolon()))
                        }
                    },
                    Err(e) => Err(e),
                }
            } else {
                Err((spec_err_span(toks, i + 1), msg_expected_lparen()))
            }
        },
        _ => Err((spec_err_span(toks, i), msg_expected_ident())),
    }
}

/// A successful argument-list parse moves forward.
pub proof fn lemma_parse_args_advances(toks: Seq<(TokenKindModel, Span)>, i: int, acc: Seq<Seq<char>>)
    ensures
        spec_parse_args(toks, i, acc) matches Ok((_, i2)) ==> i < i2 <= toks.len() + 2,
    decreases toks.len() + 2 - i,
{
    if !(spec_peek(toks, i).0 is RParen) {
        match spec_peek(toks, i).0 {
            TokenKindModel::Ident(a) => {
                if spec_peek(toks, i + 1).0 is Comma {
                    lemma_parse_args_advances(toks, i + 2, acc.push(a));
                }
            },
            _ => {},
        }
    }
}

/// A successful template parse moves forward.
pub proof fn lemma_parse_template_advances(toks: Seq<(TokenKindModel, Span)>, i: int)
    ensures
        spec_parse_template(toks, i) matches Ok((_, i2)) ==> i < i2 <= toks.len() + 5,
{
    match spec_peek(toks, i).0 {
        TokenKindModel::Ident(_) => {
            if spec_peek(toks, i + 1).0 is LParen {
                lemma_parse_args_advances(toks, i + 2, Seq::empty());
            }
        },
        _ => {},
    }
}

/// Parse template declarations from `i` until the stopping token: a
/// closing brace when the list sits inside a braced group, or the end
/// of input for a bare list. Gives the declarations and the index
/// just after the stopping point.
pub open spec fn spec_parse_templates(
    toks: Seq<(TokenKindModel, Span)>,
    i: int,
    acc: Seq<TemplateDeclModel>,
    in_braces: bool,
) -> Result<(Seq<TemplateDeclModel>, int), (Span, Seq<char>)>
    decreases toks.len() + 5 - i,
    when i <= toks.len() + 5
{
    if in_braces && spec_peek(toks, i).0 is RBrace {
        Ok((acc, i + 1))
    } else if !in_braces && spec_peek(toks, i).0 is Eof {
        Ok((acc, i))
    } else {
        proof {
            lemma_parse_template_advances(toks, i);
        }
        match spec_parse_template(toks, i) {
            Ok((tm, i2)) => spec_parse_templates(toks, i2, acc.push(tm), in_braces),
            Err(e) => Err(e),
        }
    }
}

/// The outcome of parsing a whole static group declaration:
/// `[pub] static ref name { templates }`.
pub struct StaticGroupModel {
    pub is_public: bool,
    pub group_name: Seq<char>,
    pub templates: Seq<TemplateDeclModel>,
}

/// Parse a whole static group declaration.
pub open spec fn spec_parse_static(toks: Seq<(TokenKindModel, Span)>) -> Result<
    StaticGroupModel,
    (Span, Seq<char>),
> {
    let is_public = spec_peek(toks, 0).0 == TokenKindModel::Ident("pub"@);
    let i0: int = if is_public {
        1
    } else {
        0
    };
    if spec_peek(toks, i0).0 != TokenKindModel::Ident("static"@) {
        Err((spec_err_span(toks, i0), msg_expected_static()))
    } else if spec_peek(toks, i0 + 1).0 != TokenKindModel::Ident("ref"@) {
        Err((spec_err_span(toks, i0 + 1), msg_expected_ref()))
    } else {
        match spec_peek(toks, i0 + 2).0 {
            TokenKindModel::Ident(name) => {
                if spec_peek(toks, i0 + 3).0 is LBrace {
                    match spec_parse_templates(toks, i0 + 4, Seq::empty(), true) {
                        Ok((ts, i2)) => {
                            if spec_peek(toks, i2).0 is Eof {
                                Ok(StaticGroupModel { is_public, group_name: name, templates: ts })
                            } else {
                                Err((spec_err_span(toks, i2), msg_unexpected_token()))
                            }
                        },
                        Err(e) => Err(e),
                    }
                } else {
                    Err((spec_err_span(toks, i0 + 3), msg_expected_lbrace()))
                }
            },
            _ => Err((spec_err_span(toks, i0 + 2), msg_expected_ident())),
        }
    }
}

/// Parse a bare template list (a group body without the
/// `static ref name { ... }` framing).
pub open spec fn spec_parse_bare(toks: Seq<(TokenKindModel, Span)>) -> Result<
    Seq<TemplateDeclModel>,
    (Span, Seq<char>),
> {
    match spec_parse_templates(toks, 0, Seq::empty(), false) {
        Ok((ts, i2)) => {
            if spec_peek(toks, i2).0 is Eof {
                Ok(ts)
            } else {
                Err((spec_err_span(toks, i2), msg_unexpected_token()))
            }
        },
        Err(e) => Err(e),
    }
}


impl Clone for TokenKind {
    fn clone(&self) -> (r: TokenKind)
        ensures
            r@ == self@,
    {
        match self {
            TokenKind::Ident(s) => TokenKind::Ident(s.clone()),
            TokenKind::StrLit(s) => TokenKind::StrLit(s.clone()),
            TokenKind::LParen => TokenKind::LParen,
            TokenKind::RParen => TokenKind::RParen,
            TokenKind::LBrace => TokenKind::LBrace,
            TokenKind::RBrace => TokenKind::RBrace,
            TokenKind::ColonColon => TokenKind::ColonColon,
            TokenKind::Colon => TokenKind::Colon,
            TokenKind::Eq => TokenKind::Eq,
            TokenKind::Comma => TokenKind::Comma,
            TokenKind::Other(c) => TokenKind::Other(*c),
            TokenKind::Eof => TokenKind::Eof,
        }
    }
}

fn peek(toks: &Vec<Token>, i: usize) -> (r: Token)
    ensures
        r@ == spec_peek(tokens_view(toks@), i as int),
{
    if i < toks.len() {
        Token { kind: toks[i].kind.clone(), span: toks[i].span }
    } else {
        Token {
            kind: TokenKind::Eof,
            span: Span { start_line: 1, start_col: 0, end_line: 1, end_col: 1 },
        }
    }
}

fn is_open_kind(k: &TokenKind) -> (r: bool)
    ensures
        r == is_open_delim(k@),
{
    match k {
        TokenKind::LParen => true,
        TokenKind::LBrace => true,
        _ => false,
    }
}

fn is_close_kind(k: &TokenKind) -> (r: bool)
    ensures
        r == is_close_delim(k@),
{
    match k {
        TokenKind::RParen => true,
        TokenKind::RBrace => true,
        _ => false,
    }
}

#[verifier::loop_isolation(false)]
fn match_close(toks: &Vec<Token>, i: usize) -> (r: Option<usize>)
    ensures
        match r {
            Some(m) => spec_match_close(tokens_view(toks@), i as int, 1) == Some(m as int) && m
                < toks@.len(),
            None => spec_match_close(tokens_view(toks@), i as int, 1) is None,
        },
{
    let n = toks.len();
    let mut j = i;
    let mut d: u128 = 1;
    while j < n
        invariant
            i <= j,
            d >= 1,
            d <= 1 + (j - i),
            spec_match_close(tokens_view(toks@), i as int, 1) == spec_match_close(
                tokens_view(toks@),
                j as int,
                d as int,
            ),
        decreases n - j,
    {
        if is_open_kind(&toks[j].kind) {
            d = d + 1;
        } else if is_close_kind(&toks[j].kind) {
            if d == 1 {
                return Some(j);
            }
            d = d - 1;
        }
        j = j + 1;
    }
    None
}

fn err_span(toks: &Vec<Token>, i: usize) -> (r: Span)
    requires
        i <= toks@.len() + 6,
        toks@.len() + 8 <= usize::MAX,
    ensures
        r == spec_err_span(tokens_view(toks@), i as int),
{
    let t = peek(toks, i);
    if is_open_kind(&t.kind) {
        match match_close(toks, i + 1) {
            Some(m) => Span {
                start_line: t.span.start_line,
                start_col: t.span.start_col,
                end_line: toks[m].span.end_line,
                end_col: toks[m].span.end_col,
            },
            None => t.span,
        }
    } else {
        t.span
    }
}

fn syntax_error(toks: &Vec<Token>, i: usize, message: &str) -> (r: SyntaxError)
    requires
        i <= toks@.len() + 6,
        toks@.len() + 8 <= usize::MAX,
    ensures
        r@ == (spec_err_span(tokens_view(toks@), i as int), message@),
{
    SyntaxError { span: err_span(toks, i), message: message.to_owned() }
}

fn parse_args(toks: &Vec<Token>, i: usize, acc: Vec<String>) -> (r: Result<
    (Vec<String>, usize),
    SyntaxError,
>)
    requires
        i <= toks@.len() + 2,
        toks@.len() + 8 <= usize::MAX,
    ensures
        match r {
            Ok((args, i2)) => spec_parse_args(
                tokens_view(toks@),
                i as int,
                acc@.map_values(|a: String| a@),
            ) matches Ok((am, im)) && args@.map_values(|a: String| a@) == am && i2 as int == im
                && i2 <= toks@.len() + 2,
            Err(se) => spec_parse_args(
                tokens_view(toks@),
                i as int,
                acc@.map_values(|a: String| a@),
            ) matches Err(em) && se@ == em,
        },
    decreases toks@.len() + 2 - i,
{
    let ghost acc0 = acc@.map_values(|a: String| a@);
    let t = peek(toks, i);
    match t.kind {
        TokenKind::RParen => Ok((acc, i + 1)),
        TokenKind::Ident(a) => {
            let t2 = peek(toks, i + 1);
            match t2.kind {
                TokenKind::Comma => {
                    let mut acc = acc;
                    acc.push(a);
                    proof {
                        assert(acc@.map_values(|x: String| x@) =~= acc0.push(a@));
                    }
                    parse_args(toks, i + 2, acc)
                },
                TokenKind::RParen => {
                    let mut acc = acc;
                    acc.push(a);
                    proof {
                        assert(acc@.map_values(|x: String| x@) =~= acc0.push(a@));
                    }
                    Ok((acc, i + 2))
                },
                _ => Err(syntax_error(toks, i + 1, "expected `,`")),
            }
        },
        _ => Err(syntax_error(toks, i, "expected identifier")),
    }
}

fn parse_template_decl(toks: &Vec<Token>, i: usize) -> (r: Result<
    (RawTemplate, usize),
    SyntaxError,
>)
    requires
        i <= toks@.len(),
        toks@.len() + 8 <= usize::MAX,
    ensures
        match r {
            Ok((tm, i2)) => spec_parse_template(tokens_view(toks@), i as int) matches Ok(
                (tmm, im),
            ) && tm@ == tmm && i2 as int == im && i < i2 <= toks@.len() + 5,
            Err(se) => spec_parse_template(tokens_view(toks@), i as int) matches Err(em) && se@
                == em,
        },
{
    let t = peek(toks, i);
    match t.kind {
        TokenKind::Ident(name) => {
            let t1 = peek(toks, i + 1);
            match t1.kind {
                TokenKind::LParen => {
                    let no_args: Vec<String> = Vec::new();
                    proof {
                        assert(no_args@.map_values(|a: String| a@) =~= Seq::<Seq<char>>::empty());
                        lemma_parse_args_advances(tokens_view(toks@), i + 2 as int, Seq::empty());
                    }
                    match parse_args(toks, i + 2, no_args) {
                        Ok((args, i2)) => {
                            let t2 = peek(toks, i2);
                            match t2.kind {
                                TokenKind::ColonColon => {
                                    let t3 = peek(toks, i2 + 1);
                                    match t3.kind {
                                        TokenKind::Eq => {
                                            let t4 = peek(toks, i2 + 2);
                                            match t4.kind {
                                                TokenKind::StrLit(body) => {
                                                    let tm = RawTemplate {
                                                        name,
                                                        formal_args: args,
                                                        body,
                                                        body_span: t4.span,
                                                    };
                                                    Ok((tm, i2 + 3))
                                                },
                                                _ => Err(
                                                    syntax_error(
                                                        toks,
                                                        i2 + 2,
                                                        "expected string literal",
                                                    ),
                                                ),
                                            }
                                        },
                                        _ => Err(syntax_error(toks, i2 + 1, "expected `=`")),
                                    }
                                },
                                _ => Err(syntax_error(toks, i2, "expected `::`")),
                            }
                        },
                        Err(se) => Err(se),
                    }
                },
                _ => Err(syntax_error(toks, i + 1, "expected `(`")),
            }
        },
        _ => Err(syntax_error(toks, i, "expected identifier")),
    }
}

fn parse_templates(toks: &Vec<Token>, i: usize, acc: Vec<RawTemplate>, in_braces: bool) -> (r:
    Result<(Vec<RawTemplate>, usize), SyntaxError>)
    requires
        i <= toks@.len() + 5,
        toks@.len() + 8 <= usize::MAX,
    ensures
        match r {
            Ok((ts, i2)) => spec_parse_templates(
                tokens_view(toks@),
                i as int,
                decls_view(acc@),
                in_braces,
            ) matches Ok((tsm, im)) && decls_view(ts@) == tsm && i2 as int == im && i2 <= toks@.len()
                + 5,
            Err(se) => spec_parse_templates(
                tokens_view(toks@),
                i as int,
                decls_view(acc@),
                in_braces,
            ) matches Err(em) && se@ == em,
        },
    decreases toks@.len() + 5 - i,
{
    let ghost acc0 = decls_view(acc@);
    let t = peek(toks, i);
    let stop = if in_braces {
        matches!(t.kind, TokenKind::RBrace)
    } else {
        matches!(t.kind, TokenKind::Eof)
    };
    if stop {
        if in_braces {
            Ok((acc, i + 1))
        } else {
            Ok((acc, i))
        }
    } else {
        let n = toks.len();
        let i_clamped = if i <= n {
            i
        } else {
            n
        };
        proof {
            if i > toks@.len() {
                assert(spec_peek(tokens_view(toks@), i as int) == spec_peek(
                    tokens_view(toks@),
                    i_clamped as int,
                ));
                assert(spec_parse_template(tokens_view(toks@), i as int) == spec_parse_template(
                    tokens_view(toks@),
                    i_clamped as int,
                ));
            }
        }
        match parse_template_decl(toks, i_clamped) {
            Ok((tm, i2)) => {
                let ghost tmm = tm@;
                let mut acc = acc;
                acc.push(tm);
                proof {
                    assert(decls_view(acc@) =~= acc0.push(tmm));
                    lemma_parse_template_advances(tokens_view(toks@), i as int);
                }
                parse_templates(toks, i2, acc, in_braces)
            },
            Err(se) => Err(se),
        }
    }
}


fn parse_static_tokens(toks: &Vec<Token>) -> (r: Result<
    (bool, String, Vec<RawTemplate>),
    SyntaxError,
>)
    requires
        toks@.len() + 8 <= usize::MAX,
    ensures
        match r {
            Ok((is_public, name, ts)) => spec_parse_static(tokens_view(toks@)) matches Ok(gm)
                && gm.is_public == is_public && gm.group_name == name@ && decls_view(ts@)
                == gm.templates,
            Err(se) => spec_parse_static(tokens_view(toks@)) matches Err(em) && se@ == em,
        },
{
    let t0 = peek(toks, 0);
    let is_public = match &t0.kind {
        TokenKind::Ident(s) => crate::strutil::str_eq(s.as_str(), "pub"),
        _ => false,
    };
    let i0: usize = if is_public {
        1
    } else {
        0
    };
    let t_static = peek(toks, i0);
    let static_ok = match &t_static.kind {
        TokenKind::Ident(s) => crate::strutil::str_eq(s.as_str(), "static"),
        _ => false,
    };
    if !static_ok {
        return Err(syntax_error(toks, i0, "expected `static`"));
    }
    let t_ref = peek(toks, i0 + 1);
    let ref_ok = match &t_ref.kind {
        TokenKind::Ident(s) => crate::strutil::str_eq(s.as_str(), "ref"),
        _ => false,
    };
    if !ref_ok {
        return Err(syntax_error(toks, i0 + 1, "expected `ref`"));
    }
    let t_name = peek(toks, i0 + 2);
    match t_name.kind {
        TokenKind::Ident(name) => {
            let t_brace = peek(toks, i0 + 3);
            match t_brace.kind {
                TokenKind::LBrace => {
                    let no_templates: Vec<RawTemplate> = Vec::new();
                    proof {
                        assert(decls_view(no_templates@) =~= Seq::<TemplateDeclModel>::empty());
                    }
                    match parse_templates(toks, i0 + 4, no_templates, true) {
                        Ok((ts, i2)) => {
                            let t_end = peek(toks, i2);
                            match t_end.kind {
                                TokenKind::Eof => Ok((is_public, name, ts)),
                                _ => Err(syntax_error(toks, i2, "unexpected token")),
                            }
                        },
                        Err(se) => Err(se),
                    }
                },
                _ => Err(syntax_error(toks, i0 + 3, "expected `{`")),
            }
        },
        _ => Err(syntax_error(toks, i0 + 2, "expected identifier")),
    }
}

/// Parse a whole static group declaration from source text:
/// tokenization followed by the group grammar.
pub open spec fn spec_static_source(s: Seq<char>) -> Result<StaticGroupModel, (Span, Seq<char>)> {
    match crate::parse::lexer::spec_lex_source(s) {
        Ok(toks) => spec_parse_static(toks),
        Err(e) => Err(e),
    }
}

/// Parse a bare template list from source text.
pub open spec fn spec_bare_source(s: Seq<char>) -> Result<
    Seq<TemplateDeclModel>,
    (Span, Seq<char>),
> {
    match crate::parse::lexer::spec_lex_source(s) {
        Ok(toks) => spec_parse_bare(toks),
        Err(e) => Err(e),
    }
}

/// A source this long cannot exist on a real machine; contracts about
/// parsing hold below it.
pub open spec fn source_fits(s: Seq<char>) -> bool {
    s.len() + 16 < usize::MAX
}

pub(crate) fn parse_static_source(s: &str) -> (r: Result<
    (bool, String, Vec<RawTemplate>),
    crate::parse::error::Error,
>)
    ensures
        source_fits(s@) ==> match spec_static_source(s@) {
            Ok(gm) => r matches Ok((is_public, name, ts)) && gm.is_public == is_public
                && gm.group_name == name@ && decls_view(ts@) == gm.templates,
            Err((span, msg)) => r matches Err(e) && e.spec_text() == crate::diag::spec_diagnostic(
                s@,
                span,
                msg,
            ),
        },
{
    let n = s.unicode_len();
    if n >= usize::MAX - 16 {
        return Err(
            crate::parse::error::Error::Formatted(String::from_str("template source too large")),
        );
    }
    match crate::parse::lexer::lex(s) {
        Ok(toks) => {
            proof {
                crate::parse::lexer::lemma_lex_token_count(s@, 0, 1, 0);
            }
            match parse_static_tokens(&toks) {
                Ok(x) => Ok(x),
                Err(se) => Err(
                    crate::parse::error::Error::new(s, se.span, se.message.as_str()),
                ),
            }
        },
        Err(le) => Err(crate::parse::error::Error::new(s, le.span, le.message.as_str())),
    }
}

pub(crate) fn parse_bare_source(s: &str) -> (r: Result<
    Vec<RawTemplate>,
    crate::parse::error::Error,
>)
    ensures
        source_fits(s@) ==> match spec_bare_source(s@) {
            Ok(ts) => r matches Ok(v) && decls_view(v@) == ts,
            Err((span, msg)) => r matches Err(e) && e.spec_text() == crate::diag::spec_diagnostic(
                s@,
                span,
                msg,
            ),
        },
{
    let n = s.unicode_len();
    if n >= usize::MAX - 16 {
        return Err(
            crate::parse::error::Error::Formatted(String::from_str("template source too large")),
        );
    }
    match crate::parse::lexer::lex(s) {
        Ok(toks) => {
            proof {
                crate::parse::lexer::lemma_lex_token_count(s@, 0, 1, 0);
            }
            let no_templates: Vec<RawTemplate> = Vec::new();
            proof {
                assert(decls_view(no_templates@) =~= Seq::<TemplateDeclModel>::empty());
            }
            match parse_templates(&toks, 0, no_templates, false) {
                Ok((ts, i2)) => {
                    let t_end = peek(&toks, i2);
                    match t_end.kind {
                        TokenKind::Eof => Ok(ts),
                        _ => Err(
                            {
                                let se = syntax_error(&toks, i2, "unexpected token");
                                crate::parse::error::Error::new(s, se.span, se.message.as_str())
                            },
                        ),
                    }
                },
                Err(se) => Err(
                    crate::parse::error::Error::new(s, se.span, se.message.as_str()),
                ),
            }
        },
        Err(le) => Err(crate::parse::error::Error::new(s, le.span, le.message.as_str())),
    }
}


/// The visibility a group declaration carries.
#[derive(Clone, Copy, Debug, PartialEq, Eq, Structural)]
pub enum Visibility {
    Public,
    Inherited,
}

/// The visibility given to a bare group body.
pub fn public_visibility() -> (r: Visibility)
    ensures
        r == Visibility::Public,
{
    Visibility::Public
}

/// One template declaration with its body compiled: the declaration
/// parts plus the compiled expression sequence.
pub struct ParsedTemplateModel {
    pub name: Seq<char>,
    pub formal_args: Seq<Seq<char>>,
    pub body: Seq<char>,
    pub expressions: Seq<crate::template::ExprModel>,
}

/// A template declaration of a parsed group, its body compiled.
#[derive(Debug)]
pub struct Template {
    pub name: String,
    pub formal_args: Vec<String>,
    pub body: String,
    pub expressions: Vec<crate::template::Expr>,
}

impl View for Template {
    type V = ParsedTemplateModel;

    open spec fn view(&self) -> ParsedTemplateModel {
        ParsedTemplateModel {
            name: self.name@,
            formal_args: self.formal_args@.map_values(|a: String| a@),
            body: self.body@,
            expressions: crate::template::exprs_view(self.expressions@),
        }
    }
}

/// The view of a vector of compiled declarations.
pub open spec fn parsed_view(v: Seq<Template>) -> Seq<ParsedTemplateModel> {
    v.map_values(|t: Template| t@)
}

/// Compile one declaration's body: a grammar violation in the body is
/// reported at the body literal's source span.
pub open spec fn spec_compile_decl(d: TemplateDeclModel) -> Result<
    ParsedTemplateModel,
    (Span, Seq<char>),
> {
    match crate::parse::body::spec_body(d.body) {
        Ok((em, _)) => Ok(
            ParsedTemplateModel {
                name: d.name,
                formal_args: d.formal_args,
                body: d.body,
                expressions: em,
            },
        ),
        Err((_, msg)) => Err((d.body_span, msg)),
    }
}

/// Compile every declaration's body, left to right, stopping at the
/// first failure.
pub open spec fn spec_compile_decls(ds: Seq<TemplateDeclModel>) -> Result<
    Seq<ParsedTemplateModel>,
    (Span, Seq<char>),
>
    decreases ds.len(),
{
    if ds.len() == 0 {
        Ok(Seq::empty())
    } else {
        match spec_compile_decl(ds[0]) {
            Ok(p) => match spec_compile_decls(ds.drop_first()) {
                Ok(rest) => Ok(seq![p] + rest),
                Err(e) => Err(e),
            },
            Err(e) => Err(e),
        }
    }
}

fn compile_decl(d: RawTemplate) -> (r: Result<Template, SyntaxError>)
    ensures
        match r {
            Ok(t) => spec_compile_decl(d@) matches Ok(pm) && t@ == pm,
            Err(se) => spec_compile_decl(d@) matches Err(em) && se@ == em,
        },
{
    match crate::parse::body::parse_body(d.body.as_str()) {
        Ok((expressions, _events)) => {
            let t = Template {
                name: d.name,
                formal_args: d.formal_args,
                body: d.body,
                expressions,
            };
            Ok(t)
        },
        Err(be) => Err(SyntaxError { span: d.body_span, message: be.message }),
    }
}

#[verifier::loop_isolation(false)]
fn compile_decls(ds: Vec<RawTemplate>) -> (r: Result<Vec<Template>, SyntaxError>)
    ensures
        match r {
            Ok(ts) => spec_compile_decls(decls_view(ds@)) matches Ok(pm) && parsed_view(ts@) == pm,
            Err(se) => spec_compile_decls(decls_view(ds@)) matches Err(em) && se@ == em,
        },
{
    let ghost ds0 = decls_view(ds@);
    let mut out: Vec<Template> = Vec::new();
    let mut work = ds;
    let mut k: usize = 0;
    proof {
        assert(ds0.skip(0) =~= ds0);
        assert(parsed_view(out@) =~= Seq::<ParsedTemplateModel>::empty());
    }
    loop
        invariant
            k <= work@.len(),
            ds0.len() == work@.len(),
            forall|j: int| k <= j < ds0.len() ==> work@[j]@ == ds0[j],
            spec_compile_decls(ds0) matches Ok(whole) ==> spec_compile_decls(ds0.skip(k as int))
                matches Ok(rest) && whole == parsed_view(out@) + rest,
            spec_compile_decls(ds0) matches Err(e) ==> spec_compile_decls(ds0.skip(k as int))
                matches Err(e2) && e == e2,
        decreases work@.len() - k,
    {
        if k >= work.len() {
            proof {
                assert(ds0.skip(ds0.len() as int) =~= Seq::<TemplateDeclModel>::empty());
                match spec_compile_decls(ds0) {
                    Ok(whole) => {
                        assert(parsed_view(out@) + Seq::<ParsedTemplateModel>::empty()
                            =~= parsed_view(out@));
                    },
                    Err(_) => {},
                }
            }
            return Ok(out);
        }
        proof {
            assert(ds0.skip(k as int)[0] == ds0[k as int]);
            assert(ds0.skip(k as int).drop_first() =~= ds0.skip(k as int + 1));
        }
        let mut placeholder = RawTemplate {
            name: String::new(),
            formal_args: Vec::new(),
            body: String::new(),
            body_span: Span { start_line: 1, start_col: 0, end_line: 1, end_col: 1 },
        };
        work.set_and_swap(k, &mut placeholder);
        let ghost out_before = parsed_view(out@);
        match compile_decl(placeholder) {
            Ok(t) => {
                let ghost tm = t@;
                out.push(t);
                proof {
                    assert(parsed_view(out@) =~= out_before.push(tm));
                    match spec_compile_decls(ds0.skip(k as int + 1)) {
                        Ok(rest) => {
                            assert(out_before.push(tm) + rest =~= out_before + (seq![tm] + rest));
                        },
                        Err(_) => {},
                    }
                }
                k = k + 1;
            },
            Err(se) => {
                return Err(se);
            },
        }
    }
}

/// The body of a group declaration: its template declarations, each
/// compiled, in declaration order.
#[derive(Debug)]
pub struct GroupBody {
    pub visibility: Visibility,
    pub templates: Vec<Template>,
}

impl GroupBody {
    /// Give out the name-to-compiled-template pairs this body
    /// declares, in declaration order: each declaration's body text,
    /// declared formal arguments, and compiled expressions.
    pub fn templates(self) -> (r: Vec<(String, crate::template::CompiledTemplate)>)
        ensures
            r@.len() == self.templates@.len(),
            forall|k: int| 0 <= k < r@.len() ==> (#[trigger] r@[k]).0@ == self.templates@[k]@.name
                && r@[k].1@ == crate::template::ctm_of(self.templates@[k]@),
    {
        let ghost ts0 = parsed_view(self.templates@);
        let mut out: Vec<(String, crate::template::CompiledTemplate)> = Vec::new();
        let mut work = self.templates;
        let mut k: usize = 0;
        while k < work.len()
            invariant
                k <= work@.len(),
                ts0.len() == work@.len(),
                forall|j: int| k <= j < ts0.len() ==> work@[j]@ == ts0[j],
                out@.len() == k,
                forall|j: int| 0 <= j < k ==> (#[trigger] out@[j]).0@ == ts0[j].name
                    && out@[j].1@ == crate::template::ctm_of(ts0[j]),
            decreases work@.len() - k,
        {
            let mut placeholder = Template {
                name: String::new(),
                formal_args: Vec::new(),
                body: String::new(),
                expressions: Vec::new(),
            };
            work.set_and_swap(k, &mut placeholder);
            let name = placeholder.name;
            let imp = crate::template::CompiledTemplate::with_args(
                placeholder.body,
                placeholder.formal_args,
                placeholder.expressions,
            );
            out.push((name, imp));
            k = k + 1;
        }
        out
    }

    /// Parse a bare template list with the given visibility.
    pub fn new(visibility: Visibility, source: &str) -> (r: Result<
        GroupBody,
        crate::parse::error::Error,
    >)
        ensures
            source_fits(source@) ==> match spec_group_body_source(source@) {
                Ok(ts) => r matches Ok(b) && b.visibility == visibility && parsed_view(
                    b.templates@,
                ) == ts,
                Err((span, msg)) => r matches Err(e) && e.spec_text()
                    == crate::diag::spec_diagnostic(source@, span, msg),
            },
    {
        match parse_bare_source(source) {
            Ok(raws) => match compile_decls(raws) {
                Ok(templates) => Ok(GroupBody { visibility, templates }),
                Err(se) => Err(
                    crate::parse::error::Error::new(source, se.span, se.message.as_str()),
                ),
            },
            Err(e) => Err(e),
        }
    }

    /// Parse a bare template list; the group is public.
    pub fn from_str(source: &str) -> (r: Result<GroupBody, crate::parse::error::Error>)
        ensures
            source_fits(source@) ==> match spec_group_body_source(source@) {
                Ok(ts) => r matches Ok(b) && b.visibility == Visibility::Public && parsed_view(
                    b.templates@,
                ) == ts,
                Err((span, msg)) => r matches Err(e) && e.spec_text()
                    == crate::diag::spec_diagnostic(source@, span, msg),
            },
    {
        GroupBody::new(public_visibility(), source)
    }
}

/// Parse and compile a bare template list from source text.
pub open spec fn spec_group_body_source(s: Seq<char>) -> Result<
    Seq<ParsedTemplateModel>,
    (Span, Seq<char>),
> {
    match spec_bare_source(s) {
        Ok(ds) => spec_compile_decls(ds),
        Err(e) => Err(e),
    }
}

/// Parse and compile a whole static group declaration from source
/// text.
pub open spec fn spec_static_group_source(s: Seq<char>) -> Result<
    (bool, Seq<char>, Seq<ParsedTemplateModel>),
    (Span, Seq<char>),
> {
    match spec_static_source(s) {
        Ok(gm) => match spec_compile_decls(gm.templates) {
            Ok(ts) => Ok((gm.is_public, gm.group_name, ts)),
            Err(e) => Err(e),
        },
        Err(e) => Err(e),
    }
}

impl Default for GroupBody {
    /// An empty, public group body.
    fn default() -> (r: GroupBody)
        ensures
            r.visibility == Visibility::Public,
            r.templates@.len() == 0,
    {
        GroupBody { visibility: public_visibility(), templates: Vec::new() }
    }
}

/// A parsed `static ref name { ... }` group declaration.
#[derive(Debug)]
pub struct Group {
    pub visibility: Visibility,
    pub group_name: String,
    pub group: GroupBody,
}

impl Group {
    /// An empty group declaration under the given name.
    pub fn new(visibility: Visibility, group_name: String) -> (r: Group)
        ensures
            r.visibility == visibility,
            r.group_name == group_name,
            r.group.templates@.len() == 0,
    {
        Group {
            visibility,
            group_name,
            group: GroupBody { visibility, templates: Vec::new() },
        }
    }

    /// A group declaration with the given body.
    pub fn with_group(visibility: Visibility, group_name: String, group: GroupBody) -> (r: Group)
        ensures
            r.visibility == visibility,
            r.group_name == group_name,
            r.group == group,
    {
        Group { visibility, group_name, group }
    }

    /// Parse a whole `static ref name { ... }` declaration; a grammar
    /// violation yields the formatted diagnostic for its source span.
    pub fn parse_str(template: &str) -> (r: Result<Group, crate::parse::error::Error>)
        ensures
            source_fits(template@) ==> match spec_static_group_source(template@) {
                Ok((is_public, name, ts)) => r matches Ok(g) && (g.visibility
                    == Visibility::Public <==> is_public) && g.group_name@ == name && parsed_view(
                    g.group.templates@,
                ) == ts,
                Err((span, msg)) => r matches Err(e) && e.spec_text()
                    == crate::diag::spec_diagnostic(template@, span, msg),
            },
    {
        match parse_static_source(template) {
            Ok((is_public, group_name, raws)) => match compile_decls(raws) {
                Ok(templates) => {
                    let visibility = if is_public {
                        Visibility::Public
                    } else {
                        Visibility::Inherited
                    };
                    Ok(
                        Group {
                            visibility,
                            group_name,
                            group: GroupBody { visibility, templates },
                        },
                    )
                },
                Err(se) => Err(
                    crate::parse::error::Error::new(template, se.span, se.message.as_str()),
                ),
            },
            Err(e) => Err(e),
        }
    }
}

impl PartialEq for Group {
    /// Group declarations compare by name.
    fn eq(&self, other: &Group) -> (r: bool) {
        crate::strutil::str_eq(self.group_name.as_str(), other.group_name.as_str())
    }
}

impl vstd::std_specs::cmp::PartialEqSpecImpl for Group {
    open spec fn obeys_eq_spec() -> bool {
        true
    }

    open spec fn eq_spec(&self, other: &Group) -> bool {
        self.group_name@ == other.group_name@
    }
}

} // verus!
