//! Parsing a value from a range of tokens, and a non-empty sequence of
//! such values between separators.
//!
//! What a range of tokens holds is stated as a relation between the range
//! and an outcome, not as a function of the range: whether a text is a
//! type of Rust is asked of a parser outside of this library, and what it
//! answers is not ours to state.
use vstd::prelude::*;

use crate::diagnostic::Diagnostic;
use crate::model::{lemma_models_push, models};
use crate::sequence::{separated, split, Piece};
use crate::token::{lex, Input, Source, Token, TokenKind};

verus! {

/// The outcome of reading a value, with the value taken by its model.
pub open spec fn outcome<T: View>(r: Result<T, Diagnostic>) -> Result<T::V, Diagnostic> {
    match r {
        Ok(x) => Ok(x@),
        Err(e) => Err(e),
    }
}

/// The outcome of reading values, with each value taken by its model.
pub open spec fn outcomes<T: View>(r: Result<Vec<T>, Diagnostic>) -> Result<Seq<T::V>, Diagnostic> {
    match r {
        Ok(values) => Ok(models(values@)),
        Err(e) => Err(e),
    }
}

/// A value that a range of tokens can hold.
pub trait Parse: Sized + View {
    /// Whether `r` is an outcome of reading the tokens `lo..hi` of `src`,
    /// all of them, as one value: the value they hold, or the first thing
    /// that is wrong with them.
    spec fn admits(src: Source, lo: int, hi: int, r: Result<Self::V, Diagnostic>) -> bool;

    /// Reads the value that the tokens `lo..hi` of `input` hold.
    fn parse(input: &Input, lo: usize, hi: usize) -> (r: Result<Self, Diagnostic>)
        requires
            input.wf(),
            lo <= hi <= input@.tokens.len(),
        ensures
            Self::admits(input@, lo as int, hi as int, outcome(r)),
    ;
}

/// Whether reading `pieces` one by one can fail with `e` at the `k`-th:
/// each piece before it holds the value of `before` at its place, and the
/// `k`-th fails with `e`.
pub open spec fn fails_at<T: Parse>(
    src: Source,
    pieces: Seq<Piece>,
    k: int,
    before: Seq<T::V>,
    e: Diagnostic,
) -> bool {
    &&& 0 <= k < pieces.len()
    &&& before.len() == k
    &&& forall|j: int|
        0 <= j < k ==> T::admits(
            src,
            (#[trigger] pieces[j]).lo as int,
            pieces[j].hi as int,
            Ok(before[j]),
        )
    &&& T::admits(src, pieces[k].lo as int, pieces[k].hi as int, Err(e))
}

/// Whether `r` is an outcome of reading `pieces` one by one, in order,
/// up to the first that fails: the values of all of them, or the error of
/// the first that fails.
pub open spec fn each_admits<T: Parse>(
    src: Source,
    pieces: Seq<Piece>,
    r: Result<Seq<T::V>, Diagnostic>,
) -> bool {
    match r {
        Ok(values) => {
            &&& values.len() == pieces.len()
            &&& forall|k: int|
                0 <= k < pieces.len() ==> T::admits(
                    src,
                    (#[trigger] pieces[k]).lo as int,
                    pieces[k].hi as int,
                    Ok(values[k]),
                )
        },
        Err(e) => exists|k: int, before: Seq<T::V>| #[trigger] fails_at::<T>(src, pieces, k, before, e),
    }
}

/// Whether `r` is an outcome of reading the values that the tokens
/// `lo..hi` hold between the separators `sep`: at least one value, and
/// none after the first error.
pub open spec fn punctuated<T: Parse>(
    src: Source,
    lo: int,
    hi: int,
    sep: char,
    r: Result<Seq<T::V>, Diagnostic>,
) -> bool {
    each_admits::<T>(src, separated(src.tokens, lo, hi, sep), r)
}

/// A value of which a non-empty sequence can stand between separators.
pub trait ArgParser: Parse {
    /// Reads the values that the tokens `lo..hi` hold between the
    /// separators `sep` that stand outside of all brackets and angle
    /// brackets. There is at least one value. Reading stops at the first
    /// value that fails, and gives its error.
    fn parse_as_punctuated(input: &Input, lo: usize, hi: usize, sep: char) -> (r: Result<
        Vec<Self>,
        Diagnostic,
    >)
        requires
            input.wf(),
            lo <= hi <= input@.tokens.len(),
        ensures
            punctuated::<Self>(input@, lo as int, hi as int, sep, outcomes(r)),
            r matches Ok(values) ==> values@.len() >= 1,
    {
        let pieces = split(input, lo, hi, sep);
        let mut out: Vec<Self> = Vec::new();
        let mut i: usize = 0;
        while i < pieces.len()
            invariant
                i <= pieces.len(),
                input.wf(),
                lo <= hi <= input@.tokens.len(),
                out@.len() == i,
                pieces@ == separated(input@.tokens, lo as int, hi as int, sep),
                pieces@.len() >= 1,
                forall|k: int|
                    0 <= k < pieces@.len() ==> lo <= (#[trigger] pieces@[k]).lo <= pieces@[k].hi
                        <= hi,
                forall|k: int|
                    0 <= k < i ==> Self::admits(
                        input@,
                        (#[trigger] pieces@[k]).lo as int,
                        pieces@[k].hi as int,
                        Ok(models(out@)[k]),
                    ),
            decreases pieces.len() - i,
        {
            let p = pieces[i];
            match Self::parse(input, p.lo, p.hi) {
                Err(e) => {
                    proof {
                        assert(fails_at::<Self>(input@, pieces@, i as int, models(out@), e));
                    }
                    return Err(e);
                },
                Ok(x) => {
                    proof {
                        lemma_models_push(out@, x);
                    }
                    out.push(x);
                },
            }
            i += 1;
        }
        Ok(out)
    }
}

/// Where the values of a document end: before a last token that is the
/// separator, else at the end.
pub open spec fn body_end(toks: Seq<Token>, sep: char) -> int {
    if toks.len() > 0 && toks.last().kind == TokenKind::Punct(sep) {
        toks.len() - 1
    } else {
        toks.len() as int
    }
}

/// Whether `r` is an outcome of reading the text `text` as values between
/// the separators `sep`, one separator after the last value allowed: the
/// error of lexing, else the error of the first value that fails, else the
/// values, at least one.
pub open spec fn document<T: Parse>(
    text: Seq<char>,
    sep: char,
    r: Result<Seq<T::V>, Diagnostic>,
) -> bool {
    match lex(text) {
        Err(e) => r == Err::<Seq<T::V>, Diagnostic>(e),
        Ok(toks) => punctuated::<T>(Source { text, tokens: toks }, 0, body_end(toks, sep), sep, r),
    }
}

/// Reads the values that `text` holds between the separators `sep`.
pub fn parse_document<T: ArgParser>(text: &str, sep: char) -> (r: Result<Vec<T>, Diagnostic>)
    ensures
        document::<T>(text@, sep, outcomes(r)),
        r matches Ok(values) ==> values@.len() >= 1,
{
    let input = match Input::new(text) {
        Err(e) => {
            return Err(e);
        },
        Ok(input) => input,
    };
    let n = input.len();
    let hi = if n > 0 && input.is_punct(n - 1, sep) {
        n - 1
    } else {
        n
    };
    T::parse_as_punctuated(&input, 0, hi, sep)
}

} // verus!
