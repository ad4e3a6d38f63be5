use vstd::prelude::*;

use crate::template::Expr;
use crate::template::ExprModel;

verus! {

/// The grammar rules of the template-body language, used to label
/// parse events.
#[derive(Clone, Copy, Debug, PartialEq, Eq, Structural)]
pub enum Rule {
    TemplateBody,
    Literal,
    Expression,
    FieldReference,
    TemplateInclude,
    Identifier,
}

/// One node of the parse tree in pre-order: its rule and its span as
/// character offsets into the template source (`end` exclusive).
#[derive(Clone, Copy, Debug, PartialEq, Eq, Structural)]
pub struct ParseEvent {
    pub rule: Rule,
    pub start: usize,
    pub end: usize,
}

impl View for ParseEvent {
    type V = (Rule, int, int);

    open spec fn view(&self) -> (Rule, int, int) {
        (self.rule, self.start as int, self.end as int)
    }
}

/// The view of a vector of parse events.
pub open spec fn events_view(v: Seq<ParseEvent>) -> Seq<(Rule, int, int)> {
    v.map_values(|e: ParseEvent| e@)
}

/// A failure to parse a template body: the character offset of the
/// offending position and a short message.
#[derive(Debug)]
pub struct BodyError {
    pub pos: usize,
    pub message: String,
}

impl View for BodyError {
    type V = (int, Seq<char>);

    open spec fn view(&self) -> (int, Seq<char>) {
        (self.pos as int, self.message@)
    }
}

pub open spec fn is_ident_start(c: char) -> bool {
    ('a' as u32 <= c as u32 && c as u32 <= 'z' as u32) || ('A' as u32 <= c as u32 && c as u32
        <= 'Z' as u32) || c == '_'
}

pub open spec fn is_ident_char(c: char) -> bool {
    is_ident_start(c) || ('0' as u32 <= c as u32 && c as u32 <= '9' as u32)
}

pub(crate) fn ident_start(c: char) -> (r: bool)
    ensures
        r == is_ident_start(c),
{
    ('a' <= c && c <= 'z') || ('A' <= c && c <= 'Z') || c == '_'
}

fn ident_char(c: char) -> (r: bool)
    ensures
        r == is_ident_char(c),
{
    ident_start(c) || ('0' <= c && c <= '9')
}

/// The length of the literal run starting at `i`: everything up to
/// the next `<` or the end of input.
pub open spec fn literal_len(s: Seq<char>, i: int) -> nat
    decreases s.len() - i,
{
    if i < 0 || i >= s.len() || s[i] == '<' {
        0
    } else {
        1 + literal_len(s, i + 1)
    }
}

pub open spec fn literal_end(s: Seq<char>, i: int) -> int {
    i + literal_len(s, i)
}

/// The length of the identifier-character run starting at `i`.
pub open spec fn ident_run_len(s: Seq<char>, i: int) -> nat
    decreases s.len() - i,
{
    if i < 0 || i >= s.len() || !is_ident_char(s[i]) {
        0
    } else {
        1 + ident_run_len(s, i + 1)
    }
}

pub open spec fn ident_run_end(s: Seq<char>, i: int) -> int {
    i + ident_run_len(s, i)
}

pub open spec fn msg_unfinished() -> Seq<char> {
    "unfinished template expression"@
}

pub open spec fn msg_expected_identifier() -> Seq<char> {
    "expected identifier"@
}

pub open spec fn msg_expected_gt() -> Seq<char> {
    "expected `>`"@
}

pub open spec fn msg_expected_close_paren() -> Seq<char> {
    "expected `)`"@
}

/// Parse the dotted segments of an attribute path, `i` standing just
/// after a `.`. Gives back the accumulated segments, the end offset
/// of the last segment, the offset just after the closing `>`, and
/// the identifier parse events.
pub open spec fn spec_path(s: Seq<char>, i: int, segs: Seq<Seq<char>>) -> Result<
    (Seq<Seq<char>>, int, int, Seq<(Rule, int, int)>),
    (int, Seq<char>),
>
    decreases s.len() - i,
{
    if i >= s.len() {
        Err((s.len() as int, msg_unfinished()))
    } else if !is_ident_start(s[i]) {
        Err((i, msg_expected_identifier()))
    } else {
        let j = ident_run_end(s, i + 1);
        let seg = s.subrange(i, j);
        if j >= s.len() {
            Err((s.len() as int, msg_unfinished()))
        } else if s[j] == '>' {
            Ok((segs.push(seg), j, j + 1, seq![(Rule::Identifier, i, j)]))
        } else if s[j] == '.' {
            match spec_path(s, j + 1, segs.push(seg)) {
                Ok((sg, last_end, k, ev)) => Ok(
                    (sg, last_end, k, seq![(Rule::Identifier, i, j)] + ev),
                ),
                Err(e) => Err(e),
            }
        } else {
            Err((j, msg_expected_gt()))
        }
    }
}

/// Parse an include's argument names, `i` standing just after the `(`
/// or a `,`. Gives back the accumulated names, the offset of the
/// closing `)`, and the identifier parse events.
pub open spec fn spec_args(s: Seq<char>, i: int, args: Seq<Seq<char>>) -> Result<
    (Seq<Seq<char>>, int, Seq<(Rule, int, int)>),
    (int, Seq<char>),
>
    decreases s.len() - i,
{
    if i >= s.len() {
        Err((s.len() as int, msg_unfinished()))
    } else if s[i] == ')' && args.len() == 0 {
        Ok((args, i, Seq::empty()))
    } else if !is_ident_start(s[i]) {
        Err((i, msg_expected_identifier()))
    } else {
        let j = ident_run_end(s, i + 1);
        let arg = s.subrange(i, j);
        if j >= s.len() {
            Err((s.len() as int, msg_unfinished()))
        } else if s[j] == ')' {
            Ok((args.push(arg), j, seq![(Rule::Identifier, i, j)]))
        } else if s[j] == ',' {
            match spec_args(s, j + 1, args.push(arg)) {
                Ok((ag, close, ev)) => Ok((ag, close, seq![(Rule::Identifier, i, j)] + ev)),
                Err(e) => Err(e),
            }
        } else {
            Err((j, msg_expected_close_paren()))
        }
    }
}

/// Parse one bracketed expression, `lt` standing on the opening `<`:
/// a bare dotted identifier chain becomes an attribute or attribute
/// path, and `identifier ( ... )` becomes an include. Gives back the
/// expression, the offset just after the closing `>`, and the parse
/// events.
pub open spec fn spec_expr(s: Seq<char>, lt: int) -> Result<
    (ExprModel, int, Seq<(Rule, int, int)>),
    (int, Seq<char>),
> {
    let i = lt + 1;
    if i >= s.len() {
        Err((s.len() as int, msg_unfinished()))
    } else if !is_ident_start(s[i]) {
        Err((i, msg_expected_identifier()))
    } else {
        let j = ident_run_end(s, i + 1);
        let name = s.subrange(i, j);
        if j >= s.len() {
            Err((s.len() as int, msg_unfinished()))
        } else if s[j] == '>' {
            Ok(
                (
                    ExprModel::Attribute(name),
                    j + 1,
                    seq![
                        (Rule::Expression, lt, j + 1),
                        (Rule::FieldReference, i, j),
                        (Rule::Identifier, i, j),
                    ],
                ),
            )
        } else if s[j] == '.' {
            match spec_path(s, j + 1, Seq::empty()) {
                Ok((segs, last_end, k, ev)) => Ok(
                    (
                        ExprModel::AttributePath(name, segs),
                        k,
                        seq![
                            (Rule::Expression, lt, k),
                            (Rule::FieldReference, i, last_end),
                            (Rule::Identifier, i, j),
                        ] + ev,
                    ),
                ),
                Err(e) => Err(e),
            }
        } else if s[j] == '(' {
            match spec_args(s, j + 1, Seq::empty()) {
                Ok((args, close, ev)) => {
                    if close + 1 >= s.len() {
                        Err((s.len() as int, msg_unfinished()))
                    } else if s[close + 1] == '>' {
                        Ok(
                            (
                                ExprModel::Include(name, args),
                                close + 2,
                                seq![
                                    (Rule::Expression, lt, close + 2),
                                    (Rule::TemplateInclude, i, close + 1),
                                    (Rule::Identifier, i, j),
                                ] + ev,
                            ),
                        )
                    } else {
                        Err((close + 1, msg_expected_gt()))
                    }
                },
                Err(e) => Err(e),
            }
        } else {
            Err((j, msg_expected_gt()))
        }
    }
}

/// A successful path parse ends past where it started.
proof fn lemma_path_advances(s: Seq<char>, i: int, segs: Seq<Seq<char>>)
    ensures
        spec_path(s, i, segs) matches Ok((_, _, k, _)) ==> k > i,
    decreases s.len() - i,
{
    if i < s.len() && is_ident_start(s[i]) {
        let j = ident_run_end(s, i + 1);
        if j < s.len() && s[j] == '.' {
            lemma_path_advances(s, j + 1, segs.push(s.subrange(i, j)));
        }
    }
}

/// A successful argument-list parse ends at or past where it started.
proof fn lemma_args_advances(s: Seq<char>, i: int, args: Seq<Seq<char>>)
    ensures
        spec_args(s, i, args) matches Ok((_, close, _)) ==> close >= i,
    decreases s.len() - i,
{
    if i < s.len() && !(s[i] == ')' && args.len() == 0) && is_ident_start(s[i]) {
        let j = ident_run_end(s, i + 1);
        if j < s.len() && s[j] == ',' {
            lemma_args_advances(s, j + 1, args.push(s.subrange(i, j)));
        }
    }
}

/// A successful expression parse ends past the opening `<`.
proof fn lemma_expr_advances(s: Seq<char>, lt: int)
    ensures
        spec_expr(s, lt) matches Ok((_, k, _)) ==> k > lt + 1,
{
    let i = lt + 1;
    if i < s.len() && is_ident_start(s[i]) {
        let j = ident_run_end(s, i + 1);
        if j < s.len() && s[j] == '.' {
            lemma_path_advances(s, j + 1, Seq::empty());
        } else if j < s.len() && s[j] == '(' {
            lemma_args_advances(s, j + 1, Seq::empty());
        }
    }
}

/// Parse a template body from offset `i` on: alternating literal runs
/// and bracketed expressions. A body with no `<` is a single literal
/// equal to the whole remaining text.
pub open spec fn spec_body_from(s: Seq<char>, i: int) -> Result<
    (Seq<ExprModel>, Seq<(Rule, int, int)>),
    (int, Seq<char>),
>
    decreases s.len() - i,
    when 0 <= i <= s.len()
    via spec_body_from_decreases
{
    let j = literal_end(s, i);
    let lit = ExprModel::Literal(s.subrange(i, j));
    let litev = (Rule::Literal, i, j);
    if j >= s.len() {
        Ok((seq![lit], seq![litev]))
    } else {
        match spec_expr(s, j) {
            Ok((e, k, ev)) => match spec_body_from(s, k) {
                Ok((rest, restev)) => Ok((seq![lit, e] + rest, seq![litev] + ev + restev)),
                Err(er) => Err(er),
            },
            Err(er) => Err(er),
        }
    }
}

#[via_fn]
proof fn spec_body_from_decreases(s: Seq<char>, i: int) {
    let j = literal_end(s, i);
    if j < s.len() {
        lemma_expr_advances(s, j);
        lemma_expr_in_range(s, j);
    }
}

/// A successful expression parse ends within the input.
proof fn lemma_path_in_range(s: Seq<char>, i: int, segs: Seq<Seq<char>>)
    ensures
        spec_path(s, i, segs) matches Ok((_, _, k, _)) ==> k <= s.len(),
    decreases s.len() - i,
{
    if i < s.len() && is_ident_start(s[i]) {
        let j = ident_run_end(s, i + 1);
        if j < s.len() && s[j] == '.' {
            lemma_path_in_range(s, j + 1, segs.push(s.subrange(i, j)));
        }
    }
}

proof fn lemma_args_in_range(s: Seq<char>, i: int, args: Seq<Seq<char>>)
    ensures
        spec_args(s, i, args) matches Ok((_, close, _)) ==> close < s.len(),
    decreases s.len() - i,
{
    if i < s.len() && !(s[i] == ')' && args.len() == 0) && is_ident_start(s[i]) {
        let j = ident_run_end(s, i + 1);
        if j < s.len() && s[j] == ',' {
            lemma_args_in_range(s, j + 1, args.push(s.subrange(i, j)));
        }
    }
}

proof fn lemma_expr_in_range(s: Seq<char>, lt: int)
    ensures
        spec_expr(s, lt) matches Ok((_, k, _)) ==> k <= s.len(),
{
    let i = lt + 1;
    if i < s.len() && is_ident_start(s[i]) {
        let j = ident_run_end(s, i + 1);
        if j < s.len() && s[j] == '.' {
            lemma_path_in_range(s, j + 1, Seq::empty());
        } else if j < s.len() && s[j] == '(' {
            lemma_args_in_range(s, j + 1, Seq::empty());
        }
    }
}

/// Parse a whole template body: the expression list and the parse
/// tree in pre-order, headed by the body-wide event.
pub open spec fn spec_body(s: Seq<char>) -> Result<
    (Seq<ExprModel>, Seq<(Rule, int, int)>),
    (int, Seq<char>),
> {
    match spec_body_from(s, 0) {
        Ok((exprs, ev)) => Ok((exprs, seq![(Rule::TemplateBody, 0int, s.len() as int)] + ev)),
        Err(e) => Err(e),
    }
}

/// The view of a vector of identifier strings.
pub open spec fn strings_view(v: Seq<String>) -> Seq<Seq<char>> {
    v.map_values(|s: String| s@)
}

fn scan_literal(s: &str, i: usize) -> (j: usize)
    requires
        i <= s@.len(),
    ensures
        j as int == literal_end(s@, i as int),
        i <= j <= s@.len(),
{
    let n = s.unicode_len();
    let mut j = i;
    while j < n && s.get_char(j) != '<'
        invariant
            i <= j <= n,
            n == s@.len(),
            literal_end(s@, i as int) == literal_end(s@, j as int),
        decreases n - j,
    {
        j = j + 1;
    }
    j
}

pub(crate) fn scan_ident(s: &str, i: usize) -> (j: usize)
    requires
        i <= s@.len(),
    ensures
        j as int == ident_run_end(s@, i as int),
        i <= j <= s@.len(),
{
    let n = s.unicode_len();
    let mut j = i;
    while j < n && ident_char(s.get_char(j))
        invariant
            i <= j <= n,
            n == s@.len(),
            ident_run_end(s@, i as int) == ident_run_end(s@, j as int),
        decreases n - j,
    {
        j = j + 1;
    }
    j
}

fn unfinished_error(s: &str) -> (r: BodyError)
    ensures
        r@ == (s@.len() as int, msg_unfinished()),
{
    BodyError { pos: s.unicode_len(), message: String::from_str("unfinished template expression") }
}

fn parse_path(s: &str, i: usize, segs: Vec<String>) -> (r: Result<
    (Vec<String>, usize, usize, Vec<ParseEvent>),
    BodyError,
>)
    requires
        i <= s@.len(),
    ensures
        match r {
            Ok((sg, last_end, k, ev)) => spec_path(s@, i as int, strings_view(segs@)) matches Ok(
                (sgm, lm, km, evm),
            ) && strings_view(sg@) == sgm && last_end as int == lm && k as int == km
                && events_view(ev@) == evm && k <= s@.len(),
            Err(be) => spec_path(s@, i as int, strings_view(segs@)) matches Err(em) && be@ == em
                && be.pos <= s@.len(),
        },
    decreases s@.len() - i,
{
    let ghost segs0 = strings_view(segs@);
    let n = s.unicode_len();
    if i >= n {
        return Err(unfinished_error(s));
    }
    if !ident_start(s.get_char(i)) {
        return Err(BodyError { pos: i, message: String::from_str("expected identifier") });
    }
    let j = scan_ident(s, i + 1);
    let seg = s.substring_char(i, j).to_owned();
    let mut segs = segs;
    if j >= n {
        return Err(unfinished_error(s));
    }
    let cj = s.get_char(j);
    if cj == '>' {
        segs.push(seg);
        let mut ev: Vec<ParseEvent> = Vec::new();
        ev.push(ParseEvent { rule: Rule::Identifier, start: i, end: j });
        proof {
            assert(strings_view(segs@) =~= segs0.push(s@.subrange(i as int, j as int)));
            assert(events_view(ev@) =~= seq![(Rule::Identifier, i as int, j as int)]);
        }
        Ok((segs, j, j + 1, ev))
    } else if cj == '.' {
        segs.push(seg);
        proof {
            assert(strings_view(segs@) =~= segs0.push(s@.subrange(i as int, j as int)));
        }
        match parse_path(s, j + 1, segs) {
            Ok((sg, last_end, k, ev_rest)) => {
                let mut ev: Vec<ParseEvent> = Vec::new();
                ev.push(ParseEvent { rule: Rule::Identifier, start: i, end: j });
                let mut ev_rest = ev_rest;
                let ghost ev_rest0 = events_view(ev_rest@);
                ev.append(&mut ev_rest);
                proof {
                    assert(events_view(ev@) =~= seq![(Rule::Identifier, i as int, j as int)]
                        + ev_rest0);
                }
                Ok((sg, last_end, k, ev))
            },
            Err(e) => Err(e),
        }
    } else {
        Err(BodyError { pos: j, message: String::from_str("expected `>`") })
    }
}

fn parse_args(s: &str, i: usize, args: Vec<String>) -> (r: Result<
    (Vec<String>, usize, Vec<ParseEvent>),
    BodyError,
>)
    requires
        i <= s@.len(),
    ensures
        match r {
            Ok((ag, close, ev)) => spec_args(s@, i as int, strings_view(args@)) matches Ok(
                (agm, cm, evm),
            ) && strings_view(ag@) == agm && close as int == cm && events_view(ev@) == evm && close
                < s@.len(),
            Err(be) => spec_args(s@, i as int, strings_view(args@)) matches Err(em) && be@ == em
                && be.pos <= s@.len(),
        },
    decreases s@.len() - i,
{
    let ghost args0 = strings_view(args@);
    let n = s.unicode_len();
    if i >= n {
        return Err(unfinished_error(s));
    }
    if s.get_char(i) == ')' && args.len() == 0 {
        proof {
            assert(args0.len() == 0);
            assert(events_view(Seq::<ParseEvent>::empty()) =~= Seq::<(Rule, int, int)>::empty());
        }
        let ev: Vec<ParseEvent> = Vec::new();
        return Ok((args, i, ev));
    }
    if !ident_start(s.get_char(i)) {
        return Err(BodyError { pos: i, message: String::from_str("expected identifier") });
    }
    let j = scan_ident(s, i + 1);
    let arg = s.substring_char(i, j).to_owned();
    let mut args = args;
    if j >= n {
        return Err(unfinished_error(s));
    }
    let cj = s.get_char(j);
    if cj == ')' {
        args.push(arg);
        let mut ev: Vec<ParseEvent> = Vec::new();
        ev.push(ParseEvent { rule: Rule::Identifier, start: i, end: j });
        proof {
            assert(strings_view(args@) =~= args0.push(s@.subrange(i as int, j as int)));
            assert(events_view(ev@) =~= seq![(Rule::Identifier, i as int, j as int)]);
        }
        Ok((args, j, ev))
    } else if cj == ',' {
        args.push(arg);
        proof {
            assert(strings_view(args@) =~= args0.push(s@.subrange(i as int, j as int)));
        }
        match parse_args(s, j + 1, args) {
            Ok((ag, close, ev_rest)) => {
                let mut ev: Vec<ParseEvent> = Vec::new();
                ev.push(ParseEvent { rule: Rule::Identifier, start: i, end: j });
                let mut ev_rest = ev_rest;
                let ghost ev_rest0 = events_view(ev_rest@);
                ev.append(&mut ev_rest);
                proof {
                    assert(events_view(ev@) =~= seq![(Rule::Identifier, i as int, j as int)]
                        + ev_rest0);
                }
                Ok((ag, close, ev))
            },
            Err(e) => Err(e),
        }
    } else {
        Err(BodyError { pos: j, message: String::from_str("expected `)`") })
    }
}

fn parse_expr(s: &str, lt: usize) -> (r: Result<(Expr, usize, Vec<ParseEvent>), BodyError>)
    requires
        lt < s@.len(),
    ensures
        match r {
            Ok((e, k, ev)) => spec_expr(s@, lt as int) matches Ok((em, km, evm)) && e@ == em
                && k as int == km && events_view(ev@) == evm && lt < k <= s@.len(),
            Err(be) => spec_expr(s@, lt as int) matches Err(em) && be@ == em && be.pos <= s@.len(),
        },
{
    let n = s.unicode_len();
    let i = lt + 1;
    if i >= n {
        return Err(unfinished_error(s));
    }
    if !ident_start(s.get_char(i)) {
        return Err(BodyError { pos: i, message: String::from_str("expected identifier") });
    }
    let j = scan_ident(s, i + 1);
    let name = s.substring_char(i, j).to_owned();
    if j >= n {
        return Err(unfinished_error(s));
    }
    let cj = s.get_char(j);
    if cj == '>' {
        let mut ev: Vec<ParseEvent> = Vec::new();
        ev.push(ParseEvent { rule: Rule::Expression, start: lt, end: j + 1 });
        ev.push(ParseEvent { rule: Rule::FieldReference, start: i, end: j });
        ev.push(ParseEvent { rule: Rule::Identifier, start: i, end: j });
        proof {
            assert(events_view(ev@) =~= seq![
                (Rule::Expression, lt as int, j + 1 as int),
                (Rule::FieldReference, i as int, j as int),
                (Rule::Identifier, i as int, j as int),
            ]);
        }
        Ok((Expr::Attribute(name), j + 1, ev))
    } else if cj == '.' {
        let empty_segs: Vec<String> = Vec::new();
        proof {
            assert(strings_view(empty_segs@) =~= Seq::<Seq<char>>::empty());
        }
        match parse_path(s, j + 1, empty_segs) {
            Ok((segs, last_end, k, ev_rest)) => {
                proof {
                    lemma_path_advances(s@, j + 1 as int, Seq::empty());
                }
                let mut ev: Vec<ParseEvent> = Vec::new();
                ev.push(ParseEvent { rule: Rule::Expression, start: lt, end: k });
                ev.push(ParseEvent { rule: Rule::FieldReference, start: i, end: last_end });
                ev.push(ParseEvent { rule: Rule::Identifier, start: i, end: j });
                let mut ev_rest = ev_rest;
                let ghost ev_rest0 = events_view(ev_rest@);
                ev.append(&mut ev_rest);
                let e = Expr::AttributePath(name, segs);
                proof {
                    assert(e@ matches ExprModel::AttributePath(nm, p) && nm == s@.subrange(
                        i as int,
                        j as int,
                    ) && p =~= strings_view(segs@));
                    assert(events_view(ev@) =~= seq![
                        (Rule::Expression, lt as int, k as int),
                        (Rule::FieldReference, i as int, last_end as int),
                        (Rule::Identifier, i as int, j as int),
                    ] + ev_rest0);
                }
                Ok((e, k, ev))
            },
            Err(e) => Err(e),
        }
    } else if cj == '(' {
        let empty_args: Vec<String> = Vec::new();
        proof {
            assert(strings_view(empty_args@) =~= Seq::<Seq<char>>::empty());
        }
        match parse_args(s, j + 1, empty_args) {
            Ok((args, close, ev_rest)) => {
                if close + 1 >= n {
                    Err(unfinished_error(s))
                } else if s.get_char(close + 1) == '>' {
                    let mut ev: Vec<ParseEvent> = Vec::new();
                    ev.push(ParseEvent { rule: Rule::Expression, start: lt, end: close + 2 });
                    ev.push(ParseEvent { rule: Rule::TemplateInclude, start: i, end: close + 1 });
                    ev.push(ParseEvent { rule: Rule::Identifier, start: i, end: j });
                    let mut ev_rest = ev_rest;
                    let ghost ev_rest0 = events_view(ev_rest@);
                    ev.append(&mut ev_rest);
                    let e = Expr::Include(name, args);
                    proof {
                        lemma_args_advances(s@, j + 1 as int, Seq::empty());
                        assert(e@ matches ExprModel::Include(nm, p) && nm == s@.subrange(
                            i as int,
                            j as int,
                        ) && p =~= strings_view(args@));
                        assert(events_view(ev@) =~= seq![
                            (Rule::Expression, lt as int, close + 2 as int),
                            (Rule::TemplateInclude, i as int, close + 1 as int),
                            (Rule::Identifier, i as int, j as int),
                        ] + ev_rest0);
                    }
                    Ok((e, close + 2, ev))
                } else {
                    Err(BodyError { pos: close + 1, message: String::from_str("expected `>`") })
                }
            },
            Err(e) => Err(e),
        }
    } else {
        Err(BodyError { pos: j, message: String::from_str("expected `>`") })
    }
}

/// The compiler from template-body source text to the compiled
/// expression sequence.
#[derive(Clone, Copy, Debug)]
pub struct TemplateParser;

fn format_body_error(template: &str, be: BodyError) -> (r: crate::parse::error::Error)
    requires
        be.pos <= template@.len(),
    ensures
        r.spec_text() == crate::diag::spec_diagnostic(
            template@,
            crate::diag::span_at(template@, be.pos as int),
            be.message@,
        ),
{
    let span = crate::diag::line_col_at(template, be.pos);
    crate::parse::error::Error::new(template, span, be.message.as_str())
}

impl TemplateParser {
    /// Compile template-body source text into its expression
    /// sequence; a grammar violation yields the formatted diagnostic
    /// for the offending offset.
    pub fn expressions_of(template: &str) -> (r: Result<Vec<Expr>, crate::parse::error::Error>)
        ensures
            match spec_body(template@) {
                Ok((em, _)) => r matches Ok(v) && crate::template::exprs_view(v@) == em,
                Err((pos, msg)) => r matches Err(e) && e.spec_text()
                    == crate::diag::spec_diagnostic(
                    template@,
                    crate::diag::span_at(template@, pos),
                    msg,
                ),
            },
    {
        match parse_body(template) {
            Ok((exprs, _events)) => Ok(exprs),
            Err(be) => Err(format_body_error(template, be)),
        }
    }

    /// Parse template-body source text into its parse tree, as the
    /// pre-order list of rule spans.
    pub fn parse_events(template: &str) -> (r: Result<
        Vec<ParseEvent>,
        crate::parse::error::Error,
    >)
        ensures
            match spec_body(template@) {
                Ok((_, evm)) => r matches Ok(ev) && events_view(ev@) == evm,
                Err((pos, msg)) => r matches Err(e) && e.spec_text()
                    == crate::diag::spec_diagnostic(
                    template@,
                    crate::diag::span_at(template@, pos),
                    msg,
                ),
            },
    {
        match parse_body(template) {
            Ok((_exprs, events)) => Ok(events),
            Err(be) => Err(format_body_error(template, be)),
        }
    }
}

pub(crate) fn parse_body(s: &str) -> (r: Result<(Vec<Expr>, Vec<ParseEvent>), BodyError>)
    ensures
        match r {
            Ok((exprs, ev)) => spec_body(s@) matches Ok((em, evm)) && crate::template::exprs_view(
                exprs@,
            ) == em && events_view(ev@) == evm,
            Err(be) => spec_body(s@) matches Err(em) && be@ == em && be.pos <= s@.len(),
        },
{
    match parse_body_from(s, 0) {
        Ok((exprs, ev_rest)) => {
            let mut ev: Vec<ParseEvent> = Vec::new();
            ev.push(ParseEvent { rule: Rule::TemplateBody, start: 0, end: s.unicode_len() });
            let mut ev_rest = ev_rest;
            let ghost ev_rest0 = events_view(ev_rest@);
            ev.append(&mut ev_rest);
            proof {
                assert(events_view(ev@) =~= seq![(Rule::TemplateBody, 0int, s@.len() as int)]
                    + ev_rest0);
            }
            Ok((exprs, ev))
        },
        Err(e) => Err(e),
    }
}

fn parse_body_from(s: &str, i: usize) -> (r: Result<(Vec<Expr>, Vec<ParseEvent>), BodyError>)
    requires
        i <= s@.len(),
    ensures
        match r {
            Ok((exprs, ev)) => spec_body_from(s@, i as int) matches Ok((em, evm))
                && crate::template::exprs_view(exprs@) == em && events_view(ev@) == evm,
            Err(be) => spec_body_from(s@, i as int) matches Err(em) && be@ == em && be.pos <= s@.len(),
        },
    decreases s@.len() - i,
{
    let n = s.unicode_len();
    let j = scan_literal(s, i);
    let lit = Expr::Literal(s.substring_char(i, j).to_owned());
    if j >= n {
        let mut exprs: Vec<Expr> = Vec::new();
        exprs.push(lit);
        let mut ev: Vec<ParseEvent> = Vec::new();
        ev.push(ParseEvent { rule: Rule::Literal, start: i, end: j });
        proof {
            let lit_model = ExprModel::Literal(s@.subrange(i as int, j as int));
            assert(crate::template::exprs_view(exprs@) =~= seq![lit_model]);
            assert(events_view(ev@) =~= seq![(Rule::Literal, i as int, j as int)]);
        }
        Ok((exprs, ev))
    } else {
        match parse_expr(s, j) {
            Ok((e, k, ev_expr)) => {
                match parse_body_from(s, k) {
                    Ok((rest, restev)) => {
                        let ghost lit_model = ExprModel::Literal(s@.subrange(i as int, j as int));
                        let ghost e_model = e@;
                        let ghost rest_model = crate::template::exprs_view(rest@);
                        let mut exprs: Vec<Expr> = Vec::new();
                        exprs.push(lit);
                        exprs.push(e);
                        let mut rest = rest;
                        exprs.append(&mut rest);
                        let ghost ev_expr0 = events_view(ev_expr@);
                        let ghost restev0 = events_view(restev@);
                        let mut ev: Vec<ParseEvent> = Vec::new();
                        ev.push(ParseEvent { rule: Rule::Literal, start: i, end: j });
                        let mut ev_expr = ev_expr;
                        ev.append(&mut ev_expr);
                        let mut restev = restev;
                        ev.append(&mut restev);
                        proof {
                            assert(crate::template::exprs_view(exprs@) =~= seq![
                                lit_model,
                                e_model,
                            ] + rest_model);
                            assert(events_view(ev@) =~= seq![(Rule::Literal, i as int, j as int)]
                                + ev_expr0 + restev0);
                        }
                        Ok((exprs, ev))
                    },
                    Err(e) => Err(e),
                }
            },
            Err(e) => Err(e),
        }
    }
}

} // verus!
