//! Separated sequences and bracket matching over tokens: the one place
//! where separators and nesting are handled.
use vstd::prelude::*;

use crate::token::{Input, Source, Token, TokenKind};

verus! {

/// A range `lo..hi` of token indices.
#[derive(Clone, Copy, Debug, PartialEq, Eq, Structural)]
pub struct Piece {
    pub lo: usize,
    pub hi: usize,
}

/// Whether `t` opens a bracket.
pub open spec fn is_open(t: Token) -> bool {
    t.kind == TokenKind::Punct('(') || t.kind == TokenKind::Punct('[') || t.kind
        == TokenKind::Punct('{')
}

/// Whether `t` closes a bracket.
pub open spec fn is_close(t: Token) -> bool {
    t.kind == TokenKind::Punct(')') || t.kind == TokenKind::Punct(']') || t.kind
        == TokenKind::Punct('}')
}

/// Whether token `j` is the `>` of an arrow `->`.
pub open spec fn is_arrow_head(toks: Seq<Token>, j: int) -> bool {
    &&& toks[j].kind == TokenKind::Punct('>')
    &&& j > 0
    &&& toks[j - 1].kind == TokenKind::Punct('-')
    &&& toks[j - 1].span.end == toks[j].span.start
}

/// Whether token `j` closes an angle bracket: a `>` that is no arrow's.
pub open spec fn is_angle_close(toks: Seq<Token>, j: int) -> bool {
    toks[j].kind == TokenKind::Punct('>') && !is_arrow_head(toks, j)
}

/// The bracket depth after token `j`, from depth `d` before it. A closing
/// bracket at depth 0 leaves the depth at 0.
pub open spec fn depth_after(toks: Seq<Token>, j: int, d: int) -> int {
    if is_open(toks[j]) {
        d + 1
    } else if is_close(toks[j]) && d > 0 {
        d - 1
    } else {
        d
    }
}

/// The angle depth after token `j`, from bracket depth `d` and angle depth
/// `a` before it. Angle brackets count only outside of brackets.
pub open spec fn angles_after(toks: Seq<Token>, j: int, d: int, a: int) -> int {
    if d != 0 {
        a
    } else if toks[j].kind == TokenKind::Punct('<') {
        a + 1
    } else if is_angle_close(toks, j) && a > 0 {
        a - 1
    } else {
        a
    }
}

/// The pieces into which the separators `sep` cut the tokens `start..hi`,
/// scanning from `j` at bracket depth `d` and angle depth `a`. Only a
/// separator outside of all brackets and angle brackets cuts. There is
/// always at least one piece; a piece may be empty.
pub open spec fn pieces(
    toks: Seq<Token>,
    start: int,
    j: int,
    hi: int,
    d: int,
    a: int,
    sep: char,
) -> Seq<Piece>
    decreases hi - j,
{
    if j >= hi {
        seq![Piece { lo: start as usize, hi: hi as usize }]
    } else if d == 0 && a == 0 && toks[j].kind == TokenKind::Punct(sep) {
        seq![Piece { lo: start as usize, hi: j as usize }] + pieces(
            toks,
            j + 1,
            j + 1,
            hi,
            0,
            0,
            sep,
        )
    } else {
        pieces(toks, start, j + 1, hi, depth_after(toks, j, d), angles_after(toks, j, d, a), sep)
    }
}

/// The pieces of the tokens `lo..hi`.
pub open spec fn separated(toks: Seq<Token>, lo: int, hi: int, sep: char) -> Seq<Piece> {
    pieces(toks, lo, lo, hi, 0, 0, sep)
}

/// Where the `]` stands that closes a type list, scanning from `j` at
/// bracket depth `d`: `Ok` with its index, or `Err` with the index at
/// which the list breaks off: at another closing bracket or a `;` outside
/// of nested brackets, or at `hi`.
pub open spec fn bracket_close(toks: Seq<Token>, j: int, hi: int, d: int) -> Result<usize, usize>
    decreases hi - j,
{
    if j >= hi {
        Err(hi as usize)
    } else if d == 0 && toks[j].kind == TokenKind::Punct(']') {
        Ok(j as usize)
    } else if d == 0 && (is_close(toks[j]) || toks[j].kind == TokenKind::Punct(';')) {
        Err(j as usize)
    } else {
        bracket_close(toks, j + 1, hi, depth_after(toks, j, d))
    }
}

/// Where the `>` stands that closes a generic parameter list, scanning
/// from `j` at bracket depth `d` and angle depth `a`: `Ok` with its index,
/// or `Err` with the index at which the list breaks off: at a closing
/// bracket or a `;` outside of nested brackets, or at `hi`.
pub open spec fn angle_close(toks: Seq<Token>, j: int, hi: int, d: int, a: int) -> Result<
    usize,
    usize,
>
    decreases hi - j,
{
    if j >= hi {
        Err(hi as usize)
    } else if d == 0 && a <= 1 && is_angle_close(toks, j) {
        Ok(j as usize)
    } else if d == 0 && (is_close(toks[j]) || toks[j].kind == TokenKind::Punct(';')) {
        Err(j as usize)
    } else {
        angle_close(toks, j + 1, hi, depth_after(toks, j, d), angles_after(toks, j, d, a))
    }
}

/// Whether token `i` is a word that reads `word`.
pub open spec fn word_at(src: Source, i: int, word: Seq<char>) -> bool {
    src.tokens[i].kind == TokenKind::Ident && src.word(src.tokens[i].span) == word
}

/// Where a type list that no `]` closes stops being a list of types,
/// scanning the tokens `j..stop` from bracket depth `d`: at the first
/// symbol `sym` outside of nested brackets that is directly followed by
/// `[` or by nothing, which is the symbol of the declaration itself; at
/// `stop` where there is none.
pub open spec fn symbol_break(toks: Seq<Token>, j: int, stop: int, d: int, sym: char) -> int
    decreases stop - j,
{
    if j >= stop {
        stop
    } else if d == 0 && toks[j].kind == TokenKind::Punct(sym) && (j + 1 >= stop || toks[j
        + 1].kind == TokenKind::Punct('[')) {
        j
    } else {
        symbol_break(toks, j + 1, stop, depth_after(toks, j, d), sym)
    }
}

/// Where a generic parameter list that no `>` closes stops being a list of
/// parameters, scanning the tokens `j..stop` from bracket depth `d`: at the
/// first word outside of nested brackets that reads `name` and is directly
/// followed by the word `for`, which is the operation of the declaration
/// itself; at `stop` where there is none.
pub open spec fn operation_break(src: Source, j: int, stop: int, d: int, name: Seq<char>) -> int
    decreases stop - j,
{
    if j >= stop {
        stop
    } else if d == 0 && word_at(src, j, name) && j + 1 < stop && word_at(src, j + 1, "for"@) {
        j
    } else {
        operation_break(src, j + 1, stop, depth_after(src.tokens, j, d), name)
    }
}

/// A break lies in the range that was scanned.
pub proof fn lemma_symbol_break(toks: Seq<Token>, j: int, stop: int, d: int, sym: char)
    requires
        j <= stop,
    ensures
        j <= symbol_break(toks, j, stop, d, sym) <= stop,
    decreases stop - j,
{
    if j < stop {
        lemma_symbol_break(toks, j + 1, stop, depth_after(toks, j, d), sym);
    }
}

/// A break lies in the range that was scanned.
pub proof fn lemma_operation_break(src: Source, j: int, stop: int, d: int, name: Seq<char>)
    requires
        j <= stop,
    ensures
        j <= operation_break(src, j, stop, d, name) <= stop,
    decreases stop - j,
{
    if j < stop {
        lemma_operation_break(src, j + 1, stop, depth_after(src.tokens, j, d), name);
    }
}

/// The pieces lie in the range that was cut, in order, one separator
/// apart, and there is at least one.
pub proof fn lemma_pieces(toks: Seq<Token>, start: int, j: int, hi: int, d: int, a: int, sep: char)
    requires
        0 <= start <= j <= hi <= usize::MAX,
    ensures
        ({
            let ps = pieces(toks, start, j, hi, d, a, sep);
            &&& ps.len() >= 1
            &&& ps.len() <= hi - j + 1
            &&& ps[0].lo == start
            &&& j <= ps[0].hi
            &&& ps.last().hi == hi
            &&& forall|k: int| 0 <= k < ps.len() ==> (#[trigger] ps[k]).lo <= ps[k].hi <= hi
            &&& forall|k: int| 0 <= k < ps.len() - 1 ==> (#[trigger] ps[k]).hi + 1 == ps[k + 1].lo
        }),
    decreases hi - j,
{
    let ps = pieces(toks, start, j, hi, d, a, sep);
    if j >= hi {
    } else if d == 0 && a == 0 && toks[j].kind == TokenKind::Punct(sep) {
        lemma_pieces(toks, j + 1, j + 1, hi, 0, 0, sep);
        let rest = pieces(toks, j + 1, j + 1, hi, 0, 0, sep);
        assert forall|k: int| 0 <= k < ps.len() implies (#[trigger] ps[k]).lo <= ps[k].hi
            <= hi by {
            if k > 0 {
                assert(ps[k] == rest[k - 1]);
            }
        }
        assert forall|k: int| 0 <= k < ps.len() - 1 implies (#[trigger] ps[k]).hi + 1 == ps[k
            + 1].lo by {
            assert(ps[k + 1] == rest[k]);
            if k > 0 {
                assert(ps[k] == rest[k - 1]);
            }
        }
        assert(ps.last() == rest.last());
    } else {
        lemma_pieces(
            toks,
            start,
            j + 1,
            hi,
            depth_after(toks, j, d),
            angles_after(toks, j, d, a),
            sep,
        );
    }
}

/// A closing bracket that was found stands in the range that was scanned.
pub proof fn lemma_bracket_close(toks: Seq<Token>, j: int, hi: int, d: int)
    requires
        0 <= j <= hi <= usize::MAX,
    ensures
        match bracket_close(toks, j, hi, d) {
            Ok(c) => j <= c < hi && toks[c as int].kind == TokenKind::Punct(']'),
            Err(s) => j <= s <= hi,
        },
    decreases hi - j,
{
    if j < hi && !(d == 0 && (is_close(toks[j]) || toks[j].kind == TokenKind::Punct(';'))) {
        lemma_bracket_close(toks, j + 1, hi, depth_after(toks, j, d));
    }
}

/// A closing angle bracket that was found stands in the range that was
/// scanned.
pub proof fn lemma_angle_close(toks: Seq<Token>, j: int, hi: int, d: int, a: int)
    requires
        0 <= j <= hi <= usize::MAX,
    ensures
        match angle_close(toks, j, hi, d, a) {
            Ok(c) => j <= c < hi && toks[c as int].kind == TokenKind::Punct('>'),
            Err(s) => j <= s <= hi,
        },
    decreases hi - j,
{
    if j < hi && !(d == 0 && a <= 1 && is_angle_close(toks, j)) && !(d == 0 && (is_close(toks[j])
        || toks[j].kind == TokenKind::Punct(';'))) {
        lemma_angle_close(
            toks,
            j + 1,
            hi,
            depth_after(toks, j, d),
            angles_after(toks, j, d, a),
        );
    }
}

fn opens(t: Token) -> (b: bool)
    ensures
        b == is_open(t),
{
    match t.kind {
        TokenKind::Punct(c) => c == '(' || c == '[' || c == '{',
        _ => false,
    }
}

fn closes(t: Token) -> (b: bool)
    ensures
        b == is_close(t),
{
    match t.kind {
        TokenKind::Punct(c) => c == ')' || c == ']' || c == '}',
        _ => false,
    }
}

fn angle_closes(input: &Input, j: usize) -> (b: bool)
    requires
        j < input@.tokens.len(),
    ensures
        b == is_angle_close(input@.tokens, j as int),
{
    if !input.is_punct(j, '>') {
        return false;
    }
    if j > 0 && input.is_punct(j - 1, '-') {
        input.token(j - 1).span.end != input.token(j).span.start
    } else {
        true
    }
}

/// One step of the scan: the depths after token `j`.
fn advance(input: &Input, j: usize, d: usize, a: usize) -> (r: (usize, usize))
    requires
        j < input@.tokens.len(),
        j < usize::MAX,
        d <= j,
        a <= j,
    ensures
        r.0 == depth_after(input@.tokens, j as int, d as int),
        r.1 == angles_after(input@.tokens, j as int, d as int, a as int),
        r.0 <= j + 1,
        r.1 <= j + 1,
{
    let t = input.token(j);
    let d2 = if opens(t) {
        d + 1
    } else if closes(t) && d > 0 {
        d - 1
    } else {
        d
    };
    let a2 = if d != 0 {
        a
    } else if input.is_punct(j, '<') {
        a + 1
    } else if a > 0 && angle_closes(input, j) {
        a - 1
    } else {
        a
    };
    (d2, a2)
}

/// Cuts the tokens `lo..hi` at the separators `sep` that stand outside of
/// all brackets and angle brackets. There is always at least one piece; a
/// piece between two adjacent separators is empty.
pub fn split(input: &Input, lo: usize, hi: usize, sep: char) -> (out: Vec<Piece>)
    requires
        lo <= hi <= input@.tokens.len(),
    ensures
        out@ == separated(input@.tokens, lo as int, hi as int, sep),
        out@.len() >= 1,
        out@[0].lo == lo,
        out@.last().hi == hi,
        forall|k: int| 0 <= k < out@.len() ==> lo <= (#[trigger] out@[k]).lo <= out@[k].hi <= hi,
        forall|k: int| 0 <= k < out@.len() - 1 ==> (#[trigger] out@[k]).hi + 1 == out@[k + 1].lo,
{
    let ghost toks = input@.tokens;
    let mut out: Vec<Piece> = Vec::new();
    let mut start = lo;
    let mut j = lo;
    let mut d: usize = 0;
    let mut a: usize = 0;
    while j < hi
        invariant
            lo <= start <= j <= hi <= input@.tokens.len(),
            toks == input@.tokens,
            d <= j,
            a <= j,
            separated(toks, lo as int, hi as int, sep) == out@ + pieces(
                toks,
                start as int,
                j as int,
                hi as int,
                d as int,
                a as int,
                sep,
            ),
        decreases hi - j,
    {
        if d == 0 && a == 0 && input.is_punct(j, sep) {
            let p = Piece { lo: start, hi: j };
            proof {
                let rest = pieces(toks, j + 1, j + 1, hi as int, 0, 0, sep);
                assert(out@.push(p) + rest =~= out@ + (seq![p] + rest));
            }
            out.push(p);
            start = j + 1;
        } else {
            let (d2, a2) = advance(input, j, d, a);
            d = d2;
            a = a2;
        }
        j += 1;
    }
    let p = Piece { lo: start, hi };
    proof {
        assert(out@.push(p) =~= out@ + seq![p]);
        lemma_pieces(toks, lo as int, lo as int, hi as int, 0, 0, sep);
        let ps = separated(toks, lo as int, hi as int, sep);
        assert forall|k: int| 0 <= k < ps.len() implies lo <= (#[trigger] ps[k]).lo by {
            lemma_piece_starts(ps, k);
        }
    }
    out.push(p);
    out
}

/// In a chain of pieces each starts no earlier than the first.
proof fn lemma_piece_starts(ps: Seq<Piece>, k: int)
    requires
        0 <= k < ps.len(),
        forall|i: int| 0 <= i < ps.len() ==> (#[trigger] ps[i]).lo <= ps[i].hi,
        forall|i: int| 0 <= i < ps.len() - 1 ==> (#[trigger] ps[i]).hi + 1 == ps[i + 1].lo,
    ensures
        ps[0].lo <= ps[k].lo,
    decreases k,
{
    if k > 0 {
        lemma_piece_starts(ps, k - 1);
        assert(ps[k - 1].hi + 1 == ps[k].lo);
    }
}

/// Finds the `]` that closes the type list whose first token is `lo`.
pub fn find_bracket_close(input: &Input, lo: usize, hi: usize) -> (r: Result<usize, usize>)
    requires
        lo <= hi <= input@.tokens.len(),
    ensures
        r == bracket_close(input@.tokens, lo as int, hi as int, 0),
        match r {
            Ok(c) => lo <= c < hi && input@.tokens[c as int].kind == TokenKind::Punct(']'),
            Err(s) => lo <= s <= hi,
        },
{
    let ghost toks = input@.tokens;
    let mut j = lo;
    let mut d: usize = 0;
    proof {
        lemma_bracket_close(toks, lo as int, hi as int, 0);
    }
    while j < hi
        invariant
            lo <= j <= hi <= input@.tokens.len(),
            toks == input@.tokens,
            d <= j,
            bracket_close(toks, lo as int, hi as int, 0) == bracket_close(
                toks,
                j as int,
                hi as int,
                d as int,
            ),
        decreases hi - j,
    {
        let t = input.token(j);
        if d == 0 && input.is_punct(j, ']') {
            return Ok(j);
        }
        if d == 0 && (closes(t) || input.is_punct(j, ';')) {
            return Err(j);
        }
        let (d2, _a) = advance(input, j, d, 0);
        d = d2;
        j += 1;
    }
    Err(hi)
}

/// Finds the `>` that closes the generic parameter list whose first token
/// is `lo`.
pub fn find_angle_close(input: &Input, lo: usize, hi: usize) -> (r: Result<usize, usize>)
    requires
        1 <= lo <= hi <= input@.tokens.len(),
    ensures
        r == angle_close(input@.tokens, lo as int, hi as int, 0, 1),
        match r {
            Ok(c) => lo <= c < hi && input@.tokens[c as int].kind == TokenKind::Punct('>'),
            Err(s) => lo <= s <= hi,
        },
{
    let ghost toks = input@.tokens;
    let mut j = lo;
    let mut d: usize = 0;
    let mut a: usize = 1;
    proof {
        lemma_angle_close(toks, lo as int, hi as int, 0, 1);
    }
    while j < hi
        invariant
            1 <= lo <= j <= hi <= input@.tokens.len(),
            toks == input@.tokens,
            d <= j,
            a <= j,
            angle_close(toks, lo as int, hi as int, 0, 1) == angle_close(
                toks,
                j as int,
                hi as int,
                d as int,
                a as int,
            ),
        decreases hi - j,
    {
        let t = input.token(j);
        if d == 0 && a <= 1 && angle_closes(input, j) {
            return Ok(j);
        }
        if d == 0 && (closes(t) || input.is_punct(j, ';')) {
            return Err(j);
        }
        let (d2, a2) = advance(input, j, d, a);
        d = d2;
        a = a2;
        j += 1;
    }
    Err(hi)
}

/// Finds where a type list that no `]` closes stops being a list of types.
pub fn find_symbol_break(input: &Input, lo: usize, stop: usize, sym: char) -> (r: usize)
    requires
        lo <= stop <= input@.tokens.len(),
    ensures
        r == symbol_break(input@.tokens, lo as int, stop as int, 0, sym),
        lo <= r <= stop,
{
    let ghost toks = input@.tokens;
    let mut j = lo;
    let mut d: usize = 0;
    proof {
        lemma_symbol_break(toks, lo as int, stop as int, 0, sym);
    }
    while j < stop
        invariant
            lo <= j <= stop <= input@.tokens.len(),
            toks == input@.tokens,
            d <= j,
            symbol_break(toks, lo as int, stop as int, 0, sym) == symbol_break(
                toks,
                j as int,
                stop as int,
                d as int,
                sym,
            ),
        decreases stop - j,
    {
        if d == 0 && input.is_punct(j, sym) && (j + 1 >= stop || input.is_punct(j + 1, '[')) {
            return j;
        }
        let (d2, _a) = advance(input, j, d, 0);
        d = d2;
        j += 1;
    }
    stop
}

/// Finds where a generic parameter list that no `>` closes stops being a
/// list of parameters.
pub fn find_operation_break(input: &Input, lo: usize, stop: usize, name: &str) -> (r: usize)
    requires
        lo <= stop <= input@.tokens.len(),
    ensures
        r == operation_break(input@, lo as int, stop as int, 0, name@),
        lo <= r <= stop,
{
    let ghost toks = input@.tokens;
    let mut j = lo;
    let mut d: usize = 0;
    proof {
        lemma_operation_break(input@, lo as int, stop as int, 0, name@);
    }
    while j < stop
        invariant
            lo <= j <= stop <= input@.tokens.len(),
            toks == input@.tokens,
            d <= j,
            operation_break(input@, lo as int, stop as int, 0, name@) == operation_break(
                input@,
                j as int,
                stop as int,
                d as int,
                name@,
            ),
        decreases stop - j,
    {
        if d == 0 && j + 1 < stop && input.is_word(j, name) && input.is_word(j + 1, "for") {
            return j;
        }
        let (d2, _a) = advance(input, j, d, 0);
        d = d2;
        j += 1;
    }
    stop
}

} // verus!
