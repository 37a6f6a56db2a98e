//! The command language: a pipeline of invocations separated by `|`, each
//! a program name and its arguments (bare words, or single- or
//! double-quoted strings whose quotes are dropped without interpreting
//! escapes); the first invocation may read from `<file`, the last may write
//! to `>file` (truncate) or `>>file` (append). A script holds one command
//! per line; blank lines are skipped.
use crate::ast::{
    Command, CommandView, Invocation, InvocationView, ReadRedirect, Script, Term, WriteRedirect,
    WriteRedirectView, terms_view,
};
use vstd::prelude::*;

verus! {

/// A token of the command language, for contracts.
pub enum Tok {
    Word(Seq<char>),
    Pipe,
    Less,
    Great,
    DGreat,
    Newline,
}

/// A token of the command language.
pub enum Token {
    /// A bare word, or the inside of a quoted string.
    Word(String),
    /// `|`
    Pipe,
    /// `<`
    Less,
    /// `>`
    Great,
    /// `>>`
    DGreat,
    /// The end of a line.
    Newline,
}

impl View for Token {
    type V = Tok;

    open spec fn view(&self) -> Tok {
        match self {
            Token::Word(w) => Tok::Word(w@),
            Token::Pipe => Tok::Pipe,
            Token::Less => Tok::Less,
            Token::Great => Tok::Great,
            Token::DGreat => Tok::DGreat,
            Token::Newline => Tok::Newline,
        }
    }
}

/// The tokens' contents.
pub open spec fn toks_view(t: Seq<Token>) -> Seq<Tok> {
    t.map_values(|k: Token| k@)
}

/// Blanks that separate words within a line.
pub open spec fn is_blank(c: char) -> bool {
    c == ' ' || c == '\t' || c == '\r'
}

/// Characters that end a bare word.
pub open spec fn ends_word(c: char) -> bool {
    is_blank(c) || c == '\n' || c == '|' || c == '<' || c == '>' || c == '\'' || c == '"'
}

/// The position of the first `q` at or after `k`, if any.
pub open spec fn quote_close(s: Seq<char>, q: char, k: int) -> Option<int>
    decreases s.len() - k,
{
    if k < 0 || k >= s.len() {
        None
    } else if s[k] == q {
        Some(k)
    } else {
        quote_close(s, q, k + 1)
    }
}

/// The end of the bare word that may start at `k`: the first position at
/// or after `k` holding a character that ends words, or the end of `s`.
pub open spec fn bare_end(s: Seq<char>, k: int) -> int
    decreases s.len() - k,
{
    if k < 0 || k >= s.len() {
        s.len() as int
    } else if ends_word(s[k]) {
        k
    } else {
        bare_end(s, k + 1)
    }
}

/// `a` followed by the tokens of `o`, if there are any.
pub open spec fn glue(a: Seq<Tok>, o: Option<Seq<Tok>>) -> Option<Seq<Tok>> {
    match o {
        Some(t) => Some(a + t),
        None => None,
    }
}

/// The tokens of `s` from position `i` on, or none when a quoted string is
/// not closed.
pub open spec fn lex_from(s: Seq<char>, i: int) -> Option<Seq<Tok>>
    decreases s.len() - i,
{
    if i < 0 || i >= s.len() {
        Some(seq![])
    } else {
        let c = s[i];
        if is_blank(c) {
            lex_from(s, i + 1)
        } else if c == '\n' {
            glue(seq![Tok::Newline], lex_from(s, i + 1))
        } else if c == '|' {
            glue(seq![Tok::Pipe], lex_from(s, i + 1))
        } else if c == '<' {
            glue(seq![Tok::Less], lex_from(s, i + 1))
        } else if c == '>' {
            if i + 1 < s.len() && s[i + 1] == '>' {
                glue(seq![Tok::DGreat], lex_from(s, i + 2))
            } else {
                glue(seq![Tok::Great], lex_from(s, i + 1))
            }
        } else if c == '\'' || c == '"' {
            match quote_close(s, c, i + 1) {
                Some(j) => if i < j < s.len() {
                    glue(seq![Tok::Word(s.subrange(i + 1, j))], lex_from(s, j + 1))
                } else {
                    None
                },
                None => None,
            }
        } else {
            let j = bare_end(s, i);
            if i < j <= s.len() {
                glue(seq![Tok::Word(s.subrange(i, j))], lex_from(s, j))
            } else {
                None
            }
        }
    }
}

/// The tokens of a whole input.
pub open spec fn spec_lex(s: Seq<char>) -> Option<Seq<Tok>> {
    lex_from(s, 0)
}

proof fn lemma_quote_close_bounds(s: Seq<char>, q: char, k: int)
    requires
        0 <= k,
    ensures
        quote_close(s, q, k) matches Some(j) ==> k <= j < s.len() && s[j] == q,
    decreases s.len() - k,
{
    if k < s.len() && s[k] != q {
        lemma_quote_close_bounds(s, q, k + 1);
    }
}

proof fn lemma_bare_end_bounds(s: Seq<char>, k: int)
    requires
        0 <= k <= s.len(),
    ensures
        k <= bare_end(s, k) <= s.len(),
    decreases s.len() - k,
{
    if k < s.len() && !ends_word(s[k]) {
        lemma_bare_end_bounds(s, k + 1);
    }
}

/// Whether a character ends a bare word.
fn char_ends_word(c: char) -> (r: bool)
    ensures
        r == ends_word(c),
{
    c == ' ' || c == '\t' || c == '\r' || c == '\n' || c == '|' || c == '<' || c == '>' || c
        == '\'' || c == '"'
}

/// Splits a command line into tokens; `None` when a quoted string is not closed.
pub fn lex(s: &str) -> (r: Option<Vec<Token>>)
    ensures
        r is Some <==> spec_lex(s@) is Some,
        r is Some ==> toks_view(r->0@) == spec_lex(s@)->0,
{
    let n = s.unicode_len();
    let mut toks: Vec<Token> = Vec::new();
    let mut i: usize = 0;
    assert(toks_view(toks@) + lex_from(s@, 0)->0 =~= lex_from(s@, 0)->0);
    while i < n
        invariant
            n == s@.len(),
            i <= n,
            spec_lex(s@) == glue(toks_view(toks@), lex_from(s@, i as int)),
        decreases n - i,
    {
        let ghost before = toks_view(toks@);
        let c = s.get_char(i);
        if c == ' ' || c == '\t' || c == '\r' {
            i = i + 1;
        } else if c == '\n' || c == '|' || c == '<' || (c == '>' && !(i + 1 < n && s.get_char(
            i + 1,
        ) == '>')) {
            let t = if c == '\n' {
                Token::Newline
            } else if c == '|' {
                Token::Pipe
            } else if c == '<' {
                Token::Less
            } else {
                Token::Great
            };
            toks.push(t);
            assert(toks_view(toks@) =~= before + seq![t@]);
            assert(glue(before, glue(seq![t@], lex_from(s@, i + 1))) == glue(
                toks_view(toks@),
                lex_from(s@, i + 1),
            )) by {
                if lex_from(s@, i + 1) is Some {
                    assert(before + (seq![t@] + lex_from(s@, i + 1)->0) =~= toks_view(toks@)
                        + lex_from(s@, i + 1)->0);
                }
            }
            i = i + 1;
        } else if c == '>' {
            toks.push(Token::DGreat);
            assert(toks_view(toks@) =~= before + seq![Tok::DGreat]);
            assert(glue(before, glue(seq![Tok::DGreat], lex_from(s@, i + 2))) == glue(
                toks_view(toks@),
                lex_from(s@, i + 2),
            )) by {
                if lex_from(s@, i + 2) is Some {
                    assert(before + (seq![Tok::DGreat] + lex_from(s@, i + 2)->0) =~= toks_view(
                        toks@,
                    ) + lex_from(s@, i + 2)->0);
                }
            }
            i = i + 2;
        } else if c == '\'' || c == '"' {
            let mut j: usize = i + 1;
            proof {
                lemma_quote_close_bounds(s@, c, i + 1);
            }
            while j < n && s.get_char(j) != c
                invariant
                    n == s@.len(),
                    i < j <= n,
                    quote_close(s@, c, i + 1) == quote_close(s@, c, j as int),
                decreases n - j,
            {
                j = j + 1;
            }
            if j == n {
                return None;
            }
            let w = s.substring_char(i + 1, j).to_owned();
            toks.push(Token::Word(w));
            let ghost t = Tok::Word(s@.subrange(i + 1, j as int));
            assert(toks_view(toks@) =~= before + seq![t]);
            assert(glue(before, glue(seq![t], lex_from(s@, j + 1))) == glue(
                toks_view(toks@),
                lex_from(s@, j + 1),
            )) by {
                if lex_from(s@, j + 1) is Some {
                    assert(before + (seq![t] + lex_from(s@, j + 1)->0) =~= toks_view(toks@)
                        + lex_from(s@, j + 1)->0);
                }
            }
            i = j + 1;
        } else {
            let mut j: usize = i;
            while j < n && !char_ends_word(s.get_char(j))
                invariant
                    n == s@.len(),
                    i <= j <= n,
                    bare_end(s@, i as int) == bare_end(s@, j as int),
                decreases n - j,
            {
                j = j + 1;
            }
            assert(bare_end(s@, j as int) == j);
            let w = s.substring_char(i, j).to_owned();
            toks.push(Token::Word(w));
            let ghost t = Tok::Word(s@.subrange(i as int, j as int));
            assert(toks_view(toks@) =~= before + seq![t]);
            assert(glue(before, glue(seq![t], lex_from(s@, j as int))) == glue(
                toks_view(toks@),
                lex_from(s@, j as int),
            )) by {
                if lex_from(s@, j as int) is Some {
                    assert(before + (seq![t] + lex_from(s@, j as int)->0) =~= toks_view(toks@)
                        + lex_from(s@, j as int)->0);
                }
            }
            i = j;
        }
    }
    assert(toks_view(toks@) + seq![] =~= toks_view(toks@));
    Some(toks)
}

/// The groups of `t` between separators `sep`, where `cur` holds the
/// tokens of a group begun before `t`. Empty groups are kept.
pub open spec fn split_by(t: Seq<Tok>, sep: Tok, cur: Seq<Tok>) -> Seq<Seq<Tok>>
    decreases t.len(),
{
    if t.len() == 0 {
        seq![cur]
    } else if t[0] == sep {
        seq![cur] + split_by(t.drop_first(), sep, seq![])
    } else {
        split_by(t.drop_first(), sep, cur.push(t[0]))
    }
}

/// The arguments and redirections that follow a program name, or none when
/// they are not well formed: a redirection needs a word after it, input may
/// be redirected only when `can_in` and output only when `can_out`, each at
/// most once, and no `|` or line end may occur.
pub open spec fn inv_rest(t: Seq<Tok>, can_in: bool, can_out: bool) -> Option<
    (Seq<Seq<char>>, Option<Seq<char>>, Option<WriteRedirectView>),
>
    decreases t.len(),
{
    if t.len() == 0 {
        Some((seq![], None, None))
    } else {
        match t[0] {
            Tok::Word(w) => match inv_rest(t.drop_first(), can_in, can_out) {
                Some((a, r, o)) => Some((seq![w] + a, r, o)),
                None => None,
            },
            Tok::Less => if can_in && t.len() >= 2 && t[1] is Word {
                match inv_rest(t.subrange(2, t.len() as int), can_in, can_out) {
                    Some((a, None, o)) => Some((a, Some(t[1]->Word_0), o)),
                    _ => None,
                }
            } else {
                None
            },
            Tok::Great => if can_out && t.len() >= 2 && t[1] is Word {
                match inv_rest(t.subrange(2, t.len() as int), can_in, can_out) {
                    Some((a, r, None)) => Some(
                        (a, r, Some(WriteRedirectView::TruncateFile(t[1]->Word_0))),
                    ),
                    _ => None,
                }
            } else {
                None
            },
            Tok::DGreat => if can_out && t.len() >= 2 && t[1] is Word {
                match inv_rest(t.subrange(2, t.len() as int), can_in, can_out) {
                    Some((a, r, None)) => Some(
                        (a, r, Some(WriteRedirectView::AppendFile(t[1]->Word_0))),
                    ),
                    _ => None,
                }
            } else {
                None
            },
            _ => None,
        }
    }
}

/// One invocation: a program name, then its arguments and redirections.
pub open spec fn parse_invocation(seg: Seq<Tok>, can_in: bool, can_out: bool) -> Option<
    (InvocationView, Option<Seq<char>>, Option<WriteRedirectView>),
> {
    if seg.len() > 0 && seg[0] is Word {
        match inv_rest(seg.drop_first(), can_in, can_out) {
            Some((a, r, o)) => Some(
                (InvocationView { executable: seg[0]->Word_0, arguments: a }, r, o),
            ),
            None => None,
        }
    } else {
        None
    }
}

/// The pipeline made of the invocations `segs[k..]`; the first of all may
/// redirect input and the last of all output.
pub open spec fn pipeline_from(segs: Seq<Seq<Tok>>, k: int) -> Option<CommandView>
    decreases segs.len() - k,
{
    if k < 0 || k >= segs.len() {
        Some(CommandView { pipeline: seq![], stdin_redirect: None, stdout_redirect: None })
    } else {
        match (parse_invocation(segs[k], k == 0, k == segs.len() - 1), pipeline_from(segs, k + 1)) {
            (Some((inv, r, o)), Some(rest)) => Some(
                CommandView {
                    pipeline: seq![inv] + rest.pipeline,
                    stdin_redirect: if r is Some {
                        r
                    } else {
                        rest.stdin_redirect
                    },
                    stdout_redirect: if o is Some {
                        o
                    } else {
                        rest.stdout_redirect
                    },
                },
            ),
            _ => None,
        }
    }
}

/// The command that a line's tokens form.
pub open spec fn parse_tokens(t: Seq<Tok>) -> Option<CommandView> {
    pipeline_from(split_by(t, Tok::Pipe, seq![]), 0)
}

/// The command that a line forms, if it is well formed.
pub open spec fn spec_parse_command(s: Seq<char>) -> Option<CommandView> {
    match spec_lex(s) {
        Some(t) => parse_tokens(t),
        None => None,
    }
}

/// The commands of the lines `lines[k..]`, skipping lines without tokens.
pub open spec fn script_from(lines: Seq<Seq<Tok>>, k: int) -> Option<Seq<CommandView>>
    decreases lines.len() - k,
{
    if k < 0 || k >= lines.len() {
        Some(seq![])
    } else if lines[k].len() == 0 {
        script_from(lines, k + 1)
    } else {
        match (parse_tokens(lines[k]), script_from(lines, k + 1)) {
            (Some(c), Some(rest)) => Some(seq![c] + rest),
            _ => None,
        }
    }
}

/// The commands of a script, if every line is well formed.
pub open spec fn spec_parse_script(s: Seq<char>) -> Option<Seq<CommandView>> {
    match spec_lex(s) {
        Some(t) => script_from(split_by(t, Tok::Newline, seq![]), 0),
        None => None,
    }
}

/// A command line that is not well formed.
#[derive(Debug)]
pub struct ParseError {
    /// What is wrong with it.
    pub message: String,
}

fn parse_error(m: &str) -> (r: ParseError) {
    let mut message = String::new();
    message.append(m);
    ParseError { message }
}

/// A copy of a token.
fn copy_token(t: &Token) -> (r: Token)
    ensures
        r@ == t@,
{
    match t {
        Token::Word(w) => Token::Word(w.clone()),
        Token::Pipe => Token::Pipe,
        Token::Less => Token::Less,
        Token::Great => Token::Great,
        Token::DGreat => Token::DGreat,
        Token::Newline => Token::Newline,
    }
}

/// The separator: a line end when `newline`, else `|`.
pub open spec fn sep_tok(newline: bool) -> Tok {
    if newline {
        Tok::Newline
    } else {
        Tok::Pipe
    }
}

/// The groups' contents.
pub open spec fn groups_view(g: Seq<Vec<Token>>) -> Seq<Seq<Tok>> {
    g.map_values(|v: Vec<Token>| toks_view(v@))
}

/// Splits tokens into the groups between separators.
fn split_tokens(toks: &Vec<Token>, newline: bool) -> (r: Vec<Vec<Token>>)
    ensures
        groups_view(r@) == split_by(toks_view(toks@), sep_tok(newline), seq![]),
{
    let ghost all = toks_view(toks@);
    let ghost sep = sep_tok(newline);
    let mut groups: Vec<Vec<Token>> = Vec::new();
    let mut cur: Vec<Token> = Vec::new();
    let mut i: usize = 0;
    assert(all.subrange(0, all.len() as int) == all);
    assert(toks_view(cur@) =~= Seq::<Tok>::empty());
    assert(groups_view(groups@) + split_by(all, sep, seq![]) =~= split_by(all, sep, seq![]));
    while i < toks.len()
        invariant
            all == toks_view(toks@),
            sep == sep_tok(newline),
            i <= toks@.len(),
            groups_view(groups@) + split_by(all.subrange(i as int, all.len() as int), sep, toks_view(cur@))
                == split_by(all, sep, seq![]),
        decreases toks.len() - i,
    {
        let ghost rest = all.subrange(i as int, all.len() as int);
        assert(rest[0] == toks@[i as int]@);
        assert(rest.drop_first() == all.subrange(i + 1, all.len() as int));
        let is_sep = match &toks[i] {
            Token::Newline => newline,
            Token::Pipe => !newline,
            _ => false,
        };
        assert(is_sep == (toks@[i as int]@ == sep));
        if is_sep {
            let ghost g0 = groups@;
            let ghost c0 = toks_view(cur@);
            groups.push(cur);
            cur = Vec::new();
            assert(groups_view(groups@) =~= groups_view(g0) + seq![c0]);
            assert(toks_view(cur@) =~= Seq::<Tok>::empty());
            assert(groups_view(groups@) + split_by(all.subrange(i + 1, all.len() as int), sep, toks_view(cur@))
                =~= groups_view(g0) + (seq![c0] + split_by(rest.drop_first(), sep, seq![])));
        } else {
            let ghost c0 = toks_view(cur@);
            cur.push(copy_token(&toks[i]));
            assert(toks_view(cur@) =~= c0.push(rest[0]));
        }
        i = i + 1;
    }
    let ghost g0 = groups@;
    let ghost c0 = toks_view(cur@);
    groups.push(cur);
    assert(groups_view(groups@) =~= groups_view(g0) + seq![c0]);
    groups
}

/// The parts of an invocation after its name.
pub type InvParts = (Vec<Term>, Option<ReadRedirect>, Option<WriteRedirect>);

/// Their contents.
pub open spec fn parts_view(p: InvParts) -> (Seq<Seq<char>>, Option<Seq<char>>, Option<WriteRedirectView>) {
    (
        terms_view(p.0@),
        match p.1 {
            Some(r) => Some(r@),
            None => None,
        },
        match p.2 {
            Some(w) => Some(w@),
            None => None,
        },
    )
}

/// Reads the arguments and redirections in `seg[i..]`.
fn parse_rest(seg: &Vec<Token>, i: usize, can_in: bool, can_out: bool) -> (r: Result<
    InvParts,
    ParseError,
>)
    requires
        i <= seg@.len(),
    ensures
        ({
            let spec_r = inv_rest(toks_view(seg@).subrange(i as int, seg@.len() as int), can_in, can_out);
            &&& r is Ok <==> spec_r is Some
            &&& r is Ok ==> parts_view(r->Ok_0) == spec_r->0
        }),
    decreases seg@.len() - i,
{
    let ghost t = toks_view(seg@).subrange(i as int, seg@.len() as int);
    if i == seg.len() {
        let p: InvParts = (Vec::new(), None, None);
        assert(terms_view(p.0@) =~= Seq::<Seq<char>>::empty());
        return Ok(p);
    }
    assert(t[0] == seg@[i as int]@);
    assert(t.drop_first() == toks_view(seg@).subrange(i + 1, seg@.len() as int));
    match &seg[i] {
        Token::Word(w) => {
            match parse_rest(seg, i + 1, can_in, can_out) {
                Ok((mut args, r, o)) => {
                    let ghost a0 = terms_view(args@);
                    let term = Term::Literal { value: w.clone() };
                    args.insert(0, term);
                    assert(terms_view(args@) =~= seq![w@] + a0);
                    Ok((args, r, o))
                },
                Err(e) => Err(e),
            }
        },
        Token::Less | Token::Great | Token::DGreat => {
            let is_in = match &seg[i] {
                Token::Less => true,
                _ => false,
            };
            if is_in && !can_in {
                return Err(parse_error("cannot redirect input unless it's from the first command in a pipeline"));
            }
            if !is_in && !can_out {
                return Err(parse_error("cannot redirect output unless it's from the last command in a pipeline"));
            }
            if i + 1 >= seg.len() {
                return Err(parse_error("expected a file name after a redirection"));
            }
            assert(t[1] == seg@[i + 1]@);
            assert(t.subrange(2, t.len() as int) == toks_view(seg@).subrange(i + 2, seg@.len() as int));
            let file = match &seg[i + 1] {
                Token::Word(f) => Term::Literal { value: f.clone() },
                _ => {
                    return Err(parse_error("expected a file name after a redirection"));
                },
            };
            match parse_rest(seg, i + 2, can_in, can_out) {
                Ok((args, r, o)) => {
                    match &seg[i] {
                        Token::Less => {
                            if r.is_some() {
                                return Err(parse_error("found conflicting input redirection"));
                            }
                            Ok((args, Some(ReadRedirect::File { file }), o))
                        },
                        Token::Great => {
                            if o.is_some() {
                                return Err(parse_error("found conflicting output redirection"));
                            }
                            Ok((args, r, Some(WriteRedirect::TruncateFile { file })))
                        },
                        _ => {
                            if o.is_some() {
                                return Err(parse_error("found conflicting output redirection"));
                            }
                            Ok((args, r, Some(WriteRedirect::AppendFile { file })))
                        },
                    }
                },
                Err(e) => Err(e),
            }
        },
        Token::Pipe | Token::Newline => Err(parse_error("unexpected token in a command")),
    }
}

/// An invocation and the redirections it carries.
pub type InvResult = (Invocation, Option<ReadRedirect>, Option<WriteRedirect>);

/// Reads one invocation from a group of tokens.
fn parse_inv(seg: &Vec<Token>, can_in: bool, can_out: bool) -> (r: Result<InvResult, ParseError>)
    ensures
        ({
            let spec_r = parse_invocation(toks_view(seg@), can_in, can_out);
            &&& r is Ok <==> spec_r is Some
            &&& r is Ok ==> ({
                let (inv, rr, ww) = r->Ok_0;
                let (sv, sr, sw) = spec_r->0;
                &&& inv@ == sv
                &&& read_view(rr) == sr
                &&& write_view(ww) == sw
            })
        }),
{
    if seg.len() == 0 {
        return Err(parse_error("expected a command"));
    }
    let name = match &seg[0] {
        Token::Word(w) => w.clone(),
        _ => {
            return Err(parse_error("expected a command"));
        },
    };
    assert(toks_view(seg@).drop_first() == toks_view(seg@).subrange(1, seg@.len() as int));
    match parse_rest(seg, 1, can_in, can_out) {
        Ok((arguments, rr, ww)) => {
            let inv = Invocation { executable: Term::Literal { value: name }, arguments };
            Ok((inv, rr, ww))
        },
        Err(e) => Err(e),
    }
}

/// The redirection a command view carries, if any.
pub open spec fn read_view(r: Option<ReadRedirect>) -> Option<Seq<char>> {
    match r {
        Some(x) => Some(x@),
        None => None,
    }
}

/// The redirection a command view carries, if any.
pub open spec fn write_view(w: Option<WriteRedirect>) -> Option<WriteRedirectView> {
    match w {
        Some(x) => Some(x@),
        None => None,
    }
}

/// Reads the pipeline of the groups `segs[k..]`.
fn parse_pipeline(segs: &Vec<Vec<Token>>, k: usize) -> (r: Result<Command, ParseError>)
    requires
        k <= segs@.len(),
    ensures
        ({
            let spec_r = pipeline_from(groups_view(segs@), k as int);
            &&& r is Ok <==> spec_r is Some
            &&& r is Ok ==> r->Ok_0@ == spec_r->0
        }),
    decreases segs@.len() - k,
{
    if k == segs.len() {
        let c = Command { pipeline: Vec::new(), stdin_redirect: None, stdout_redirect: None };
        assert(c@.pipeline =~= Seq::<InvocationView>::empty());
        return Ok(c);
    }
    assert(groups_view(segs@)[k as int] == toks_view(segs@[k as int]@));
    let first = parse_inv(&segs[k], k == 0, k + 1 == segs.len());
    let rest = parse_pipeline(segs, k + 1);
    match (first, rest) {
        (Ok((inv, rr, ww)), Ok(rest)) => {
            let Command { pipeline, stdin_redirect, stdout_redirect } = rest;
            let ghost p0 = pipeline@.map_values(|i: Invocation| i@);
            let ghost v = inv@;
            let mut pipeline = pipeline;
            pipeline.insert(0, inv);
            assert(pipeline@.map_values(|i: Invocation| i@) =~= seq![v] + p0);
            let stdin_redirect = match rr {
                Some(x) => Some(x),
                None => stdin_redirect,
            };
            let stdout_redirect = match ww {
                Some(x) => Some(x),
                None => stdout_redirect,
            };
            Ok(Command { pipeline, stdin_redirect, stdout_redirect })
        },
        (Err(e), _) => Err(e),
        (_, Err(e)) => Err(e),
    }
}

/// Reads a line's tokens as a command.
fn parse_tokens_exec(toks: &Vec<Token>) -> (r: Result<Command, ParseError>)
    ensures
        r is Ok <==> parse_tokens(toks_view(toks@)) is Some,
        r is Ok ==> r->Ok_0@ == parse_tokens(toks_view(toks@))->0,
{
    let segs = split_tokens(toks, false);
    parse_pipeline(&segs, 0)
}

/// Reads the commands of the lines `lines[k..]`, skipping empty lines.
fn parse_lines(lines: &Vec<Vec<Token>>, k: usize) -> (r: Result<Vec<Command>, ParseError>)
    requires
        k <= lines@.len(),
    ensures
        ({
            let spec_r = script_from(groups_view(lines@), k as int);
            &&& r is Ok <==> spec_r is Some
            &&& r is Ok ==> r->Ok_0@.map_values(|c: Command| c@) == spec_r->0
        }),
    decreases lines@.len() - k,
{
    if k == lines.len() {
        let v: Vec<Command> = Vec::new();
        assert(v@.map_values(|c: Command| c@) =~= Seq::<CommandView>::empty());
        return Ok(v);
    }
    assert(groups_view(lines@)[k as int] == toks_view(lines@[k as int]@));
    if lines[k].len() == 0 {
        return parse_lines(lines, k + 1);
    }
    let first = parse_tokens_exec(&lines[k]);
    let rest = parse_lines(lines, k + 1);
    match (first, rest) {
        (Ok(c), Ok(mut cs)) => {
            let ghost v = c@;
            let ghost c0 = cs@.map_values(|c: Command| c@);
            cs.insert(0, c);
            assert(cs@.map_values(|c: Command| c@) =~= seq![v] + c0);
            Ok(cs)
        },
        (Err(e), _) => Err(e),
        (_, Err(e)) => Err(e),
    }
}

/// Reads command lines and scripts.
pub struct Parser {}

impl Parser {
    /// A parser.
    pub fn new() -> (r: Parser) {
        Parser {}
    }

    /// Reads one command line.
    pub fn parse_command(&self, cmd: &str) -> (r: Result<Command, ParseError>)
        ensures
            r is Ok <==> spec_parse_command(cmd@) is Some,
            r is Ok ==> r->Ok_0@ == spec_parse_command(cmd@)->0,
    {
        match lex(cmd) {
            Some(toks) => parse_tokens_exec(&toks),
            None => Err(parse_error("unterminated quoted string")),
        }
    }

    /// Reads a script: one command per line, blank lines skipped.
    pub fn parse_script(&self, script: &str) -> (r: Result<Script, ParseError>)
        ensures
            r is Ok <==> spec_parse_script(script@) is Some,
            r is Ok ==> r->Ok_0@ == spec_parse_script(script@)->0,
    {
        match lex(script) {
            Some(toks) => {
                let lines = split_tokens(&toks, true);
                match parse_lines(&lines, 0) {
                    Ok(commands) => Ok(Script { commands }),
                    Err(e) => Err(e),
                }
            },
            None => Err(parse_error("unterminated quoted string")),
        }
    }
}

} // verus!
