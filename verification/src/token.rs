//! The lexical layer: from the characters of a document to its tokens.
use vstd::prelude::*;

use crate::diagnostic::{Diagnostic, ErrorCode, Span};
use crate::text::{chars_of, same_text};

verus! {

/// What a token is.
#[derive(Clone, Copy, Debug, PartialEq, Eq, Structural)]
pub enum TokenKind {
    /// A word: an ASCII letter or `_`, then ASCII letters, digits and `_`.
    Ident,
    /// A region name: `'` and a word.
    Lifetime,
    /// A number: a digit, then ASCII letters, digits and `_`.
    Literal,
    /// One character of punctuation, brackets included.
    Punct(char),
}

/// A token and its place in the source.
#[derive(Clone, Copy, Debug, PartialEq, Eq, Structural)]
pub struct Token {
    pub kind: TokenKind,
    pub span: Span,
}

/// Whether `c` is white space between tokens.
pub open spec fn is_space(c: char) -> bool {
    c == ' ' || c == '\t' || c == '\n' || c == '\r'
}

/// Whether `c` is a decimal digit.
pub open spec fn is_digit(c: char) -> bool {
    '0' <= c && c <= '9'
}

/// Whether `c` can start a word.
pub open spec fn is_ident_start(c: char) -> bool {
    ('a' <= c && c <= 'z') || ('A' <= c && c <= 'Z') || c == '_'
}

/// Whether `c` can continue a word.
pub open spec fn is_ident_continue(c: char) -> bool {
    is_ident_start(c) || is_digit(c)
}

/// Whether `c` is a character of punctuation that is a token by itself.
pub open spec fn is_punct(c: char) -> bool {
    c == '#' || c == '[' || c == ']' || c == '(' || c == ')' || c == '{' || c == '}' || c == '<'
        || c == '>' || c == ',' || c == ';' || c == '+' || c == '-' || c == '*' || c == ':' || c
        == '=' || c == '&' || c == '!' || c == '?' || c == '.' || c == '/' || c == '%' || c == '^'
        || c == '|' || c == '~' || c == '@' || c == '$'
}

/// How many characters from `i` on are white space, up to the first that
/// is not.
pub open spec fn space_run(src: Seq<char>, i: int) -> nat
    decreases src.len() - i,
{
    if 0 <= i < src.len() && is_space(src[i]) {
        1 + space_run(src, i + 1)
    } else {
        0
    }
}

/// How many characters from `i` on can continue a word, up to the first
/// that cannot.
pub open spec fn ident_run(src: Seq<char>, i: int) -> nat
    decreases src.len() - i,
{
    if 0 <= i < src.len() && is_ident_continue(src[i]) {
        1 + ident_run(src, i + 1)
    } else {
        0
    }
}

/// The kind of the token that starts at `i`, if one does.
pub open spec fn kind_at(src: Seq<char>, i: int) -> Option<TokenKind> {
    let c = src[i];
    if is_ident_start(c) {
        Some(TokenKind::Ident)
    } else if is_digit(c) {
        Some(TokenKind::Literal)
    } else if c == '\'' && i + 1 < src.len() && is_ident_start(src[i + 1]) {
        Some(TokenKind::Lifetime)
    } else if is_punct(c) {
        Some(TokenKind::Punct(c))
    } else {
        None
    }
}

/// The length of the token of kind `kind` that starts at `i`: the longest
/// run of characters that its kind admits.
pub open spec fn len_at(src: Seq<char>, i: int, kind: TokenKind) -> nat {
    match kind {
        TokenKind::Ident | TokenKind::Literal => 1 + ident_run(src, i + 1),
        TokenKind::Lifetime => 2 + ident_run(src, i + 2),
        TokenKind::Punct(_) => 1,
    }
}

/// `rest` with `t` in front, or the error of `rest`.
pub open spec fn after_token(t: Token, rest: Result<Seq<Token>, Diagnostic>) -> Result<
    Seq<Token>,
    Diagnostic,
> {
    match rest {
        Ok(ts) => Ok(seq![t] + ts),
        Err(e) => Err(e),
    }
}

/// The tokens of `src` from position `i` on: white space is skipped, each
/// token is the longest its kind admits, and the first character that
/// starts no token is an error at that character.
pub open spec fn lex_from(src: Seq<char>, i: int) -> Result<Seq<Token>, Diagnostic>
    decreases src.len() - i,
{
    let j = i + space_run(src, i);
    if j >= src.len() || i < 0 {
        Ok(Seq::empty())
    } else {
        match kind_at(src, j) {
            None => Err(
                Diagnostic {
                    code: ErrorCode::UnexpectedCharacter,
                    span: Span { start: j as usize, end: (j + 1) as usize },
                },
            ),
            Some(kind) => {
                let end = j + len_at(src, j, kind);
                proof {
                    lemma_ident_run_bound(src, j + 1);
                    if kind == TokenKind::Lifetime {
                        lemma_ident_run_bound(src, j + 2);
                    }
                }
                after_token(
                    Token { kind, span: Span { start: j as usize, end: end as usize } },
                    lex_from(src, end),
                )
            },
        }
    }
}

/// The tokens of a whole text.
pub open spec fn lex(src: Seq<char>) -> Result<Seq<Token>, Diagnostic> {
    lex_from(src, 0)
}

/// Tokens are not empty, lie within the first `n` characters, and follow
/// one another without overlap.
pub open spec fn tokens_ordered(toks: Seq<Token>, n: int) -> bool {
    &&& forall|k: int|
        0 <= k < toks.len() ==> (#[trigger] toks[k]).span.start < toks[k].span.end <= n
    &&& forall|k: int, l: int|
        0 <= k < l < toks.len() ==> (#[trigger] toks[k]).span.end <= (#[trigger] toks[l]).span.start
}

/// A run of white space ends within the text.
pub proof fn lemma_space_run_bound(src: Seq<char>, i: int)
    requires
        0 <= i <= src.len(),
    ensures
        i + space_run(src, i) <= src.len(),
    decreases src.len() - i,
{
    if i < src.len() && is_space(src[i]) {
        lemma_space_run_bound(src, i + 1);
    }
}

/// A run of word characters ends within the text.
pub proof fn lemma_ident_run_bound(src: Seq<char>, i: int)
    requires
        0 <= i <= src.len(),
    ensures
        i + ident_run(src, i) <= src.len(),
    decreases src.len() - i,
{
    if i < src.len() && is_ident_continue(src[i]) {
        lemma_ident_run_bound(src, i + 1);
    }
}

/// The tokens that lexing gives lie in the text, in order, each after the
/// position that lexing started from.
pub proof fn lemma_lex_ordered(src: Seq<char>, i: int)
    requires
        0 <= i <= src.len() <= usize::MAX,
        lex_from(src, i) is Ok,
    ensures
        tokens_ordered(lex_from(src, i)->Ok_0, src.len() as int),
        forall|k: int|
            0 <= k < lex_from(src, i)->Ok_0.len() ==> i <= (#[trigger] lex_from(
                src,
                i,
            )->Ok_0[k]).span.start,
    decreases src.len() - i,
{
    let j = i + space_run(src, i);
    lemma_space_run_bound(src, i);
    if j < src.len() {
        let kind = kind_at(src, j)->Some_0;
        let end = j + len_at(src, j, kind);
        lemma_ident_run_bound(src, j + 1);
        if kind == TokenKind::Lifetime {
            lemma_ident_run_bound(src, j + 2);
        }
        lemma_lex_ordered(src, end);
        let t = Token { kind, span: Span { start: j as usize, end: end as usize } };
        let rest = lex_from(src, end)->Ok_0;
        let all = lex_from(src, i)->Ok_0;
        assert(all == seq![t] + rest);
        assert forall|k: int| 0 <= k < all.len() implies (#[trigger] all[k]).span.start
            < all[k].span.end <= src.len() && i <= all[k].span.start by {
            if k > 0 {
                assert(all[k] == rest[k - 1]);
            }
        }
        assert forall|k: int, l: int| 0 <= k < l < all.len() implies (#[trigger] all[k]).span.end
            <= (#[trigger] all[l]).span.start by {
            assert(all[l] == rest[l - 1]);
            if k > 0 {
                assert(all[k] == rest[k - 1]);
            }
        }
    }
}

/// Where lexing stands after the first `k` tokens of those it found from
/// position `i` on.
pub open spec fn resumes_at(toks: Seq<Token>, i: int, k: int) -> int {
    if k <= 0 {
        i
    } else {
        toks[k - 1].span.end as int
    }
}

/// The `k`-th token is what lexing finds where it stands after the tokens
/// before it: it starts after the white space there, and has the kind and
/// the length that the characters at its start give.
pub open spec fn found_at(src: Seq<char>, toks: Seq<Token>, i: int, k: int) -> bool {
    let p = resumes_at(toks, i, k);
    let s = p + space_run(src, p);
    &&& s < src.len()
    &&& toks[k].span.start == s
    &&& kind_at(src, s) == Some(toks[k].kind)
    &&& toks[k].span.end == s + len_at(src, s, toks[k].kind)
}

/// Each token that lexing gives is the one it finds where it stands.
pub proof fn lemma_lex_steps(src: Seq<char>, i: int)
    requires
        0 <= i <= src.len() <= usize::MAX,
        lex_from(src, i) is Ok,
    ensures
        ({
            let toks = lex_from(src, i)->Ok_0;
            forall|k: int| 0 <= k < toks.len() ==> #[trigger] found_at(src, toks, i, k)
        }),
    decreases src.len() - i,
{
    let j = i + space_run(src, i);
    lemma_space_run_bound(src, i);
    if j < src.len() {
        let kind = kind_at(src, j)->Some_0;
        let end = j + len_at(src, j, kind);
        lemma_ident_run_bound(src, j + 1);
        if kind == TokenKind::Lifetime {
            lemma_ident_run_bound(src, j + 2);
        }
        lemma_lex_steps(src, end);
        let t = Token { kind, span: Span { start: j as usize, end: end as usize } };
        let rest = lex_from(src, end)->Ok_0;
        let all = lex_from(src, i)->Ok_0;
        assert(all == seq![t] + rest);
        assert forall|k: int| 0 <= k < all.len() implies #[trigger] found_at(src, all, i, k) by {
            if k > 0 {
                assert(all[k] == rest[k - 1]);
                assert(found_at(src, rest, end, k - 1));
                if k > 1 {
                    assert(all[k - 1] == rest[k - 2]);
                }
            }
        }
    }
}

proof fn lemma_space_run_window(src: Seq<char>, a: int, b: int, p: int)
    requires
        0 <= a <= p,
        p + space_run(src, p) < b <= src.len(),
    ensures
        space_run(src.subrange(a, b), p - a) == space_run(src, p),
    decreases src.len() - p,
{
    if is_space(src[p]) {
        lemma_space_run_window(src, a, b, p + 1);
    }
}

proof fn lemma_ident_run_window(src: Seq<char>, a: int, b: int, p: int)
    requires
        0 <= a <= p,
        p + ident_run(src, p) <= b <= src.len(),
    ensures
        ident_run(src.subrange(a, b), p - a) == ident_run(src, p),
    decreases src.len() - p,
{
    if p < b && is_ident_continue(src[p]) {
        lemma_ident_run_window(src, a, b, p + 1);
    }
}

/// Where lexing the text of the tokens `lo..` by itself stands after the
/// tokens before the `k`-th.
pub open spec fn window_resumes_at(toks: Seq<Token>, lo: int, k: int) -> int {
    if k == lo {
        0
    } else {
        toks[k - 1].span.end - toks[lo].span.start
    }
}

/// What lexing the text of the tokens `lo..hi` by itself gives from where
/// it stands after the tokens before the `k`-th.
pub open spec fn window_lexed(src: Seq<char>, toks: Seq<Token>, lo: int, hi: int, k: int) -> Result<
    Seq<Token>,
    Diagnostic,
> {
    lex_from(
        src.subrange(toks[lo].span.start as int, toks[hi - 1].span.end as int),
        window_resumes_at(toks, lo, k),
    )
}

proof fn lemma_lex_window(src: Seq<char>, toks: Seq<Token>, lo: int, hi: int, k: int)
    requires
        src.len() <= usize::MAX,
        tokens_ordered(toks, src.len() as int),
        forall|n: int| 0 <= n < toks.len() ==> #[trigger] found_at(src, toks, 0, n),
        0 <= lo <= k <= hi <= toks.len(),
        lo < hi,
    ensures
        window_lexed(src, toks, lo, hi, k) is Ok,
        window_lexed(src, toks, lo, hi, k)->Ok_0.len() == hi - k,
        forall|n: int|
            0 <= n < hi - k ==> (#[trigger] window_lexed(src, toks, lo, hi, k)->Ok_0[n]).kind
                == toks[k + n].kind,
    decreases hi - k,
{
    let a = toks[lo].span.start as int;
    let b = toks[hi - 1].span.end as int;
    let sub = src.subrange(a, b);
    assert(toks[lo].span.start < toks[lo].span.end);
    if lo < hi - 1 {
        assert(toks[lo].span.end <= toks[hi - 1].span.start);
    }
    assert(toks[hi - 1].span.start < toks[hi - 1].span.end <= src.len());
    if k < hi {
        let t = toks[k];
        let s = t.span.start as int;
        let e = t.span.end as int;
        assert(found_at(src, toks, 0, k));
        assert(s < e <= src.len());
        if k < hi - 1 {
            assert(toks[k].span.end <= toks[hi - 1].span.start);
        }
        if lo < k {
            assert(toks[lo].span.end <= toks[k].span.start);
            assert(toks[k - 1].span.start < toks[k - 1].span.end);
            if lo < k - 1 {
                assert(toks[lo].span.end <= toks[k - 1].span.start);
            }
            assert(toks[k - 1].span.end <= toks[k].span.start);
        }
        let q = if k == lo {
            0
        } else {
            toks[k - 1].span.end - a
        };
        assert(q + space_run(sub, q) == s - a) by {
            if k == lo {
                assert(sub[0] == src[s]);
            } else {
                lemma_space_run_window(src, a, b, toks[k - 1].span.end as int);
            }
        }
        assert(sub[s - a] == src[s]);
        if t.kind == TokenKind::Lifetime {
            assert(sub[s - a + 1] == src[s + 1]);
            lemma_ident_run_window(src, a, b, s + 2);
        }
        if t.kind == TokenKind::Ident || t.kind == TokenKind::Literal {
            lemma_ident_run_window(src, a, b, s + 1);
        }
        assert(kind_at(sub, s - a) == Some(t.kind));
        assert(len_at(sub, s - a, t.kind) == len_at(src, s, t.kind));
        lemma_lex_window(src, toks, lo, hi, k + 1);
        let first = Token {
            kind: t.kind,
            span: Span { start: (s - a) as usize, end: (e - a) as usize },
        };
        assert(window_resumes_at(toks, lo, k + 1) == e - a);
        let rest = window_lexed(src, toks, lo, hi, k + 1)->Ok_0;
        assert(lex_from(sub, q) == after_token(first, lex_from(sub, e - a)));
        let all = window_lexed(src, toks, lo, hi, k)->Ok_0;
        assert(all == seq![first] + rest);
        assert forall|n: int| 0 <= n < hi - k implies (#[trigger] window_lexed(
            src,
            toks,
            lo,
            hi,
            k,
        )->Ok_0[n]).kind == toks[k + n].kind by {
            if n > 0 {
                assert(all[n] == rest[n - 1]);
                assert(rest[n - 1].kind == toks[k + 1 + (n - 1)].kind);
            }
        }
    } else {
        assert(space_run(sub, b - a) == 0);
    }
}

/// The kinds of `toks`, in order.
pub open spec fn kinds_of(toks: Seq<Token>) -> Seq<TokenKind> {
    toks.map_values(|t: Token| t.kind)
}

impl Source {
    /// The text from the start of token `lo` to the end of token `hi - 1`
    /// lexes by itself, into tokens of the kinds that the range holds.
    pub proof fn lemma_range_lexes(self, lo: int, hi: int)
        requires
            self.wf(),
            0 <= lo < hi <= self.tokens.len(),
        ensures
            lex(
                self.word(
                    Span { start: self.tokens[lo].span.start, end: self.tokens[hi - 1].span.end },
                ),
            ) is Ok,
            kinds_of(
                lex(
                    self.word(
                        Span {
                            start: self.tokens[lo].span.start,
                            end: self.tokens[hi - 1].span.end,
                        },
                    ),
                )->Ok_0,
            ) == kinds_of(self.tokens.subrange(lo, hi)),
    {
        assert(lex_from(self.text, 0) == Ok::<Seq<Token>, Diagnostic>(self.tokens));
        lemma_lex_steps(self.text, 0);
        assert(lex_from(self.text, 0)->Ok_0 == self.tokens);
        lemma_lex_window(self.text, self.tokens, lo, hi, lo);
        let found = lex(
            self.word(
                Span { start: self.tokens[lo].span.start, end: self.tokens[hi - 1].span.end },
            ),
        )->Ok_0;
        assert(kinds_of(found) =~= kinds_of(self.tokens.subrange(lo, hi))) by {
            assert(found == window_lexed(self.text, self.tokens, lo, hi, lo)->Ok_0);
            assert forall|n: int| 0 <= n < hi - lo implies kinds_of(found)[n] == kinds_of(
                self.tokens.subrange(lo, hi),
            )[n] by {
                assert(window_lexed(self.text, self.tokens, lo, hi, lo)->Ok_0[n].kind
                    == self.tokens[lo + n].kind);
            }
        }
    }
}

fn space(c: char) -> (b: bool)
    ensures
        b == is_space(c),
{
    c == ' ' || c == '\t' || c == '\n' || c == '\r'
}

fn digit(c: char) -> (b: bool)
    ensures
        b == is_digit(c),
{
    '0' <= c && c <= '9'
}

fn ident_start(c: char) -> (b: bool)
    ensures
        b == is_ident_start(c),
{
    ('a' <= c && c <= 'z') || ('A' <= c && c <= 'Z') || c == '_'
}

fn punct(c: char) -> (b: bool)
    ensures
        b == is_punct(c),
{
    c == '#' || c == '[' || c == ']' || c == '(' || c == ')' || c == '{' || c == '}' || c == '<'
        || c == '>' || c == ',' || c == ';' || c == '+' || c == '-' || c == '*' || c == ':' || c
        == '=' || c == '&' || c == '!' || c == '?' || c == '.' || c == '/' || c == '%' || c == '^'
        || c == '|' || c == '~' || c == '@' || c == '$'
}

/// The first position from `i` on that holds no white space.
fn skip_space(src: &Vec<char>, i: usize) -> (j: usize)
    requires
        i <= src.len(),
    ensures
        j == i + space_run(src@, i as int),
        j <= src.len(),
{
    let mut j = i;
    while j < src.len() && space(src[j])
        invariant
            i <= j <= src.len(),
            j + space_run(src@, j as int) == i + space_run(src@, i as int),
        decreases src.len() - j,
    {
        j += 1;
    }
    j
}

/// The first position from `i` on that cannot continue a word.
fn skip_word(src: &Vec<char>, i: usize) -> (j: usize)
    requires
        i <= src.len(),
    ensures
        j == i + ident_run(src@, i as int),
        j <= src.len(),
{
    let mut j = i;
    while j < src.len() && (ident_start(src[j]) || digit(src[j]))
        invariant
            i <= j <= src.len(),
            j + ident_run(src@, j as int) == i + ident_run(src@, i as int),
        decreases src.len() - j,
    {
        j += 1;
    }
    j
}

/// The kind of the token that starts at `i`, if one does.
fn kind_of(src: &Vec<char>, i: usize) -> (k: Option<TokenKind>)
    requires
        i < src.len(),
    ensures
        k == kind_at(src@, i as int),
{
    let c = src[i];
    if ident_start(c) {
        Some(TokenKind::Ident)
    } else if digit(c) {
        Some(TokenKind::Literal)
    } else if c == '\'' && i + 1 < src.len() && ident_start(src[i + 1]) {
        Some(TokenKind::Lifetime)
    } else if punct(c) {
        Some(TokenKind::Punct(c))
    } else {
        None
    }
}

/// Splits `src` into tokens.
pub fn tokenize(src: &Vec<char>) -> (r: Result<Vec<Token>, Diagnostic>)
    ensures
        match r {
            Ok(toks) => lex(src@) == Ok::<Seq<Token>, Diagnostic>(toks@),
            Err(e) => lex(src@) == Err::<Seq<Token>, Diagnostic>(e),
        },
{
    let mut toks: Vec<Token> = Vec::new();
    let mut i: usize = 0;
    loop
        invariant
            i <= src.len(),
            match lex_from(src@, i as int) {
                Ok(rest) => lex(src@) == Ok::<Seq<Token>, Diagnostic>(toks@ + rest),
                Err(e) => lex(src@) == Err::<Seq<Token>, Diagnostic>(e),
            },
        decreases src.len() - i,
    {
        let j = skip_space(src, i);
        if j >= src.len() {
            proof {
                assert(toks@ + Seq::<Token>::empty() =~= toks@);
            }
            return Ok(toks);
        }
        match kind_of(src, j) {
            None => {
                return Err(
                    Diagnostic::new(ErrorCode::UnexpectedCharacter, Span { start: j, end: j + 1 }),
                );
            },
            Some(kind) => {
                let end = match kind {
                    TokenKind::Ident | TokenKind::Literal => skip_word(src, j + 1),
                    TokenKind::Lifetime => skip_word(src, j + 2),
                    TokenKind::Punct(_) => j + 1,
                };
                let t = Token { kind, span: Span { start: j, end } };
                proof {
                    match lex_from(src@, end as int) {
                        Ok(rest) => {
                            assert(toks@.push(t) + rest =~= toks@ + (seq![t] + rest));
                        },
                        Err(_) => {},
                    }
                }
                toks.push(t);
                i = end;
            },
        }
    }
}

/// The model of an [`Input`]: a text and its tokens.
pub struct Source {
    pub text: Seq<char>,
    pub tokens: Seq<Token>,
}

impl Source {
    /// The tokens are those of the text, and so lie in it, in order.
    pub open spec fn wf(self) -> bool {
        &&& self.text.len() <= usize::MAX
        &&& lex(self.text) == Ok::<Seq<Token>, Diagnostic>(self.tokens)
        &&& tokens_ordered(self.tokens, self.text.len() as int)
    }

    /// The characters that `span` covers.
    pub open spec fn word(self, span: Span) -> Seq<char> {
        self.text.subrange(span.start as int, span.end as int)
    }

    /// Where a finding at token `i` points: at that token where there is
    /// one before `hi`, else at the position just after the token before.
    pub open spec fn place(self, i: int, hi: int) -> Span {
        if 0 <= i < hi && i < self.tokens.len() {
            self.tokens[i].span
        } else {
            self.end_before(i)
        }
    }

    /// The position just after the token before `i`, or the start of the
    /// text where none is before.
    pub open spec fn end_before(self, i: int) -> Span {
        if 0 < i <= self.tokens.len() {
            Span { start: self.tokens[i - 1].span.end, end: self.tokens[i - 1].span.end }
        } else {
            Span { start: 0, end: 0 }
        }
    }
}

/// The source of the text `text`, where it lexes.
pub open spec fn source_of(text: Seq<char>) -> Source {
    Source { text, tokens: lex(text)->Ok_0 }
}

/// A text together with its tokens.
#[derive(Debug)]
pub struct Input {
    text: String,
    tokens: Vec<Token>,
}

impl View for Input {
    type V = Source;

    closed spec fn view(&self) -> Source {
        Source { text: self.text@, tokens: self.tokens@ }
    }
}

impl Input {
    #[verifier::type_invariant]
    spec fn inv(self) -> bool {
        &&& self.text@.len() <= usize::MAX
        &&& lex(self.text@) == Ok::<Seq<Token>, Diagnostic>(self.tokens@)
    }

    /// The tokens are those of the text, and so lie in it, in order.
    pub open spec fn wf(&self) -> bool {
        self@.wf()
    }

    /// Lexes `text`.
    pub fn new(text: &str) -> (r: Result<Input, Diagnostic>)
        ensures
            match r {
                Ok(input) => input@ == source_of(text@) && lex(text@) is Ok && input.wf(),
                Err(e) => lex(text@) == Err::<Seq<Token>, Diagnostic>(e),
            },
    {
        let chars = chars_of(text);
        match tokenize(&chars) {
            Ok(tokens) => {
                proof {
                    lemma_lex_ordered(text@, 0);
                }
                Ok(Input { text: text.to_owned(), tokens })
            },
            Err(e) => Err(e),
        }
    }

    /// The number of tokens.
    pub fn len(&self) -> (n: usize)
        ensures
            n == self@.tokens.len(),
            self.wf(),
    {
        proof {
            use_type_invariant(self);
            lemma_lex_ordered(self.text@, 0);
        }
        self.tokens.len()
    }

    /// The `i`-th token.
    pub fn token(&self, i: usize) -> (t: Token)
        requires
            i < self@.tokens.len(),
        ensures
            t == self@.tokens[i as int],
    {
        self.tokens[i]
    }

    /// Whether the `i`-th token is the punctuation `c`.
    pub fn is_punct(&self, i: usize, c: char) -> (b: bool)
        requires
            i < self@.tokens.len(),
        ensures
            b == (self@.tokens[i as int].kind == TokenKind::Punct(c)),
    {
        match self.tokens[i].kind {
            TokenKind::Punct(d) => c == d,
            _ => false,
        }
    }

    /// Whether the `i`-th token is a word.
    pub fn is_word_token(&self, i: usize) -> (b: bool)
        requires
            i < self@.tokens.len(),
        ensures
            b == (self@.tokens[i as int].kind == TokenKind::Ident),
    {
        match self.tokens[i].kind {
            TokenKind::Ident => true,
            _ => false,
        }
    }

    /// The text that `span` covers.
    pub fn slice(&self, span: Span) -> (s: &str)
        requires
            span.start <= span.end <= self@.text.len(),
        ensures
            s@ == self@.word(span),
    {
        self.text.as_str().substring_char(span.start, span.end)
    }

    /// Whether the `i`-th token is a word and reads `word`.
    pub fn is_word(&self, i: usize, word: &str) -> (b: bool)
        requires
            i < self@.tokens.len(),
        ensures
            b == (self@.tokens[i as int].kind == TokenKind::Ident && self@.word(
                self@.tokens[i as int].span,
            ) == word@),
    {
        proof {
            use_type_invariant(self);
            lemma_lex_ordered(self.text@, 0);
        }
        let t = self.tokens[i];
        match t.kind {
            TokenKind::Ident => same_text(self.slice(t.span), word),
            _ => false,
        }
    }

    /// Where a finding at token `i` of a range that ends at `hi` points.
    pub fn place_of(&self, i: usize, hi: usize) -> (s: Span)
        requires
            hi <= self@.tokens.len(),
            i <= hi,
        ensures
            s == self@.place(i as int, hi as int),
    {
        if i < hi {
            self.tokens[i].span
        } else {
            self.after(i)
        }
    }

    /// The position just after the token before `i`.
    pub fn after(&self, i: usize) -> (s: Span)
        requires
            i <= self@.tokens.len(),
        ensures
            s == self@.end_before(i as int),
    {
        if i > 0 {
            let e = self.tokens[i - 1].span.end;
            Span { start: e, end: e }
        } else {
            Span { start: 0, end: 0 }
        }
    }
}

} // verus!
