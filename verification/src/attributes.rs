//! Annotations in front of a declaration, and their classification against
//! a list of recognized names.
use vstd::prelude::*;

use crate::diagnostic::{Diagnostic, ErrorCode, Span};
use crate::model::{lemma_contains_push, lemma_models_push, models, texts};
use crate::text::same_text;
use crate::token::{Input, Source, TokenKind};

verus! {

/// One annotation `#[name]` or `#[name(flag)]`.
#[derive(Debug)]
pub struct Annotation {
    pub name: String,
    pub flag: Option<String>,
    pub span: Span,
}

/// The model of an [`Annotation`].
pub struct AnnotationView {
    pub name: Seq<char>,
    pub flag: Option<Seq<char>>,
    pub span: Span,
}

impl View for Annotation {
    type V = AnnotationView;

    open spec fn view(&self) -> AnnotationView {
        AnnotationView {
            name: self.name@,
            flag: match self.flag {
                Some(f) => Some(f@),
                None => None,
            },
            span: self.span,
        }
    }
}

impl Clone for Annotation {
    fn clone(&self) -> (r: Self)
        ensures
            r == *self,
    {
        Annotation {
            name: self.name.clone(),
            flag: match &self.flag {
                Some(f) => Some(f.clone()),
                None => None,
            },
            span: self.span,
        }
    }
}

/// The annotations of `attrs` whose name is one of `refs`, in order.
pub open spec fn matching(attrs: Seq<AnnotationView>, refs: Seq<Seq<char>>) -> Seq<AnnotationView> {
    attrs.filter(|a: AnnotationView| refs.contains(a.name))
}

/// The annotations of `attrs` whose name is none of `refs`, in order.
pub open spec fn missing(attrs: Seq<AnnotationView>, refs: Seq<Seq<char>>) -> Seq<AnnotationView> {
    attrs.filter(|a: AnnotationView| !refs.contains(a.name))
}

/// How many annotations of `attrs` are named `name`.
pub open spec fn occurrences(attrs: Seq<AnnotationView>, name: Seq<char>) -> nat {
    attrs.filter(|a: AnnotationView| a.name == name).len()
}

/// Whether `name` counts as present among `attrs`: at least once where
/// duplicates are allowed, exactly once where they are not.
pub open spec fn present(attrs: Seq<AnnotationView>, name: Seq<char>, allow_duplicate: bool) -> bool {
    if allow_duplicate {
        occurrences(attrs, name) >= 1
    } else {
        occurrences(attrs, name) == 1
    }
}

/// The model of an [`AttrIdentFilter`].
pub struct AttrIdentFilterView {
    pub base_attrs: Seq<AnnotationView>,
    pub matches: Seq<AnnotationView>,
    pub misses: Seq<AnnotationView>,
}

/// What classifying `attrs` against `refs` gives.
pub open spec fn classification(attrs: Seq<AnnotationView>, refs: Seq<Seq<char>>) -> AttrIdentFilterView {
    AttrIdentFilterView {
        base_attrs: attrs,
        matches: matching(attrs, refs),
        misses: missing(attrs, refs),
    }
}

/// The annotations of a declaration, split into those that a list of names
/// recognizes and the others.
#[derive(Debug)]
pub struct AttrIdentFilter {
    pub base_attrs: Vec<Annotation>,
    matches: Vec<Annotation>,
    misses: Vec<Annotation>,
}

impl View for AttrIdentFilter {
    type V = AttrIdentFilterView;

    closed spec fn view(&self) -> AttrIdentFilterView {
        AttrIdentFilterView {
            base_attrs: models(self.base_attrs@),
            matches: models(self.matches@),
            misses: models(self.misses@),
        }
    }
}

/// Whether the name of `attr` is one of `references`.
fn is_recognized(attr: &Annotation, references: &Vec<&'static str>) -> (found: bool)
    ensures
        found == texts(references@).contains(attr.name@),
{
    let mut found = false;
    let mut i: usize = 0;
    while i < references.len()
        invariant
            i <= references.len(),
            found == texts(references@.take(i as int)).contains(attr.name@),
        decreases references.len() - i,
    {
        let hit = same_text(attr.name.as_str(), references[i]);
        proof {
            let before = texts(references@.take(i as int));
            let after = texts(references@.take(i + 1));
            assert(after =~= before.push(references@[i as int]@));
            lemma_contains_push(before, references@[i as int]@, attr.name@);
        }
        if hit {
            found = true;
        }
        i += 1;
    }
    proof {
        assert(references@.take(references.len() as int) =~= references@);
    }
    found
}

impl AttrIdentFilter {
    /// Classifies `attrs` against `references`: `matches` holds the
    /// annotations whose name is one of `references`, `misses` the others,
    /// both in the order of `attrs`.
    pub fn filter(attrs: Vec<Annotation>, references: Vec<&'static str>) -> (r: Self)
        ensures
            r@ == classification(models(attrs@), texts(references@)),
    {
        let ghost refs = texts(references@);
        let mut matches: Vec<Annotation> = Vec::new();
        let mut misses: Vec<Annotation> = Vec::new();
        let mut i: usize = 0;
        proof {
            assert(models(attrs@.take(0)) =~= Seq::<AnnotationView>::empty());
            reveal(Seq::filter);
            assert(models(matches@) =~= matching(models(attrs@.take(0)), refs));
            assert(models(misses@) =~= missing(models(attrs@.take(0)), refs));
        }
        while i < attrs.len()
            invariant
                i <= attrs.len(),
                refs == texts(references@),
                models(matches@) == matching(models(attrs@.take(i as int)), refs),
                models(misses@) == missing(models(attrs@.take(i as int)), refs),
            decreases attrs.len() - i,
        {
            let hit = is_recognized(&attrs[i], &references);
            let copy = attrs[i].clone();
            proof {
                let seen = models(attrs@.take(i as int));
                let x = attrs@[i as int]@;
                assert(attrs@.take(i + 1) =~= attrs@.take(i as int).push(attrs@[i as int]));
                lemma_models_push(attrs@.take(i as int), attrs@[i as int]);
                seen.lemma_filter_push(x, |a: AnnotationView| refs.contains(a.name));
                seen.lemma_filter_push(x, |a: AnnotationView| !refs.contains(a.name));
                if hit {
                    lemma_models_push(matches@, copy);
                } else {
                    lemma_models_push(misses@, copy);
                }
            }
            if hit {
                matches.push(copy);
            } else {
                misses.push(copy);
            }
            i += 1;
        }
        proof {
            assert(attrs@.take(attrs.len() as int) =~= attrs@);
        }
        AttrIdentFilter { base_attrs: attrs, matches, misses }
    }

    /// Reads the annotations that stand from token `lo` on and classifies
    /// them against `references`. Also gives the index of the token after
    /// them.
    pub fn parse_filter(input: &Input, lo: usize, hi: usize, references: Vec<&'static str>) -> (r:
        Result<(Self, usize), Diagnostic>)
        requires
            input.wf(),
            lo <= hi <= input@.tokens.len(),
        ensures
            match r {
                Ok((f, next)) => annotations_from(input@, lo as int, hi as int) matches Ok(a) && f@
                    == classification(a.annotations, texts(references@)) && next == a.next && lo
                    <= next <= hi,
                Err(e) => annotations_from(input@, lo as int, hi as int) == Err::<
                    AnnotationsAt,
                    Diagnostic,
                >(e),
            },
    {
        match parse_annotations(input, lo, hi) {
            Ok((base_attrs, next)) => Ok((Self::filter(base_attrs, references), next)),
            Err(e) => Err(e),
        }
    }

    /// Classifies the same annotations against another list of names.
    pub fn refilter(&self, references: Vec<&'static str>) -> (r: Self)
        ensures
            r@ == classification(self@.base_attrs, texts(references@)),
    {
        let attrs = self.base_attrs.clone();
        proof {
            assert(attrs@ =~= self.base_attrs@);
        }
        Self::filter(attrs, references)
    }

    /// All the annotations, in order.
    pub fn base(&self) -> (r: &Vec<Annotation>)
        ensures
            models(r@) == self@.base_attrs,
    {
        &self.base_attrs
    }

    /// The recognized annotations, in order.
    pub fn matches(&self) -> (r: Vec<Annotation>)
        ensures
            models(r@) == self@.matches,
    {
        let r = self.matches.clone();
        proof {
            assert(r@ =~= self.matches@);
        }
        r
    }

    /// The annotations that were not recognized, in order.
    pub fn misses(&self) -> (r: Vec<Annotation>)
        ensures
            models(r@) == self@.misses,
    {
        let r = self.misses.clone();
        proof {
            assert(r@ =~= self.misses@);
        }
        r
    }

    /// Whether the annotation `reference` is present: at least once where
    /// `allow_duplicate` holds, exactly once where it does not. More than
    /// one occurrence with `allow_duplicate` off counts as absent.
    pub fn match_against(&self, reference: &'static str, allow_duplicate: bool) -> (b: bool)
        ensures
            b == present(self@.base_attrs, reference@, allow_duplicate),
    {
        let references: Vec<&'static str> = vec![reference];
        let found = self.refilter(references).matches();
        proof {
            assert(texts(references@) =~= seq![reference@]);
            lemma_matching_one(self@.base_attrs, reference@);
        }
        if allow_duplicate {
            found.len() >= 1
        } else {
            found.len() == 1
        }
    }
}

/// An annotation and the index of the token after it.
pub struct AnnotationAt {
    pub annotation: AnnotationView,
    pub next: int,
}

/// Annotations and the index of the token after them.
pub struct AnnotationsAt {
    pub annotations: Seq<AnnotationView>,
    pub next: int,
}

/// What went wrong at token `i` of an annotation.
pub open spec fn malformed(src: Source, i: int, hi: int) -> Diagnostic {
    Diagnostic { code: ErrorCode::MalformedAnnotation, span: src.place(i, hi) }
}

/// The annotation whose `#` is token `p`: `#[name]` or `#[name(flag)]`.
pub open spec fn annotation_at(src: Source, p: int, hi: int) -> Result<AnnotationAt, Diagnostic> {
    let toks = src.tokens;
    if !(p + 1 < hi && toks[p + 1].kind == TokenKind::Punct('[')) {
        Err(malformed(src, p + 1, hi))
    } else if !(p + 2 < hi && toks[p + 2].kind == TokenKind::Ident) {
        Err(malformed(src, p + 2, hi))
    } else if p + 3 < hi && toks[p + 3].kind == TokenKind::Punct(']') {
        Ok(
            AnnotationAt {
                annotation: AnnotationView {
                    name: src.word(toks[p + 2].span),
                    flag: None,
                    span: Span { start: toks[p].span.start, end: toks[p + 3].span.end },
                },
                next: p + 4,
            },
        )
    } else if !(p + 3 < hi && toks[p + 3].kind == TokenKind::Punct('(')) {
        Err(malformed(src, p + 3, hi))
    } else if !(p + 4 < hi && toks[p + 4].kind == TokenKind::Ident) {
        Err(malformed(src, p + 4, hi))
    } else if !(p + 5 < hi && toks[p + 5].kind == TokenKind::Punct(')')) {
        Err(malformed(src, p + 5, hi))
    } else if !(p + 6 < hi && toks[p + 6].kind == TokenKind::Punct(']')) {
        Err(malformed(src, p + 6, hi))
    } else {
        Ok(
            AnnotationAt {
                annotation: AnnotationView {
                    name: src.word(toks[p + 2].span),
                    flag: Some(src.word(toks[p + 4].span)),
                    span: Span { start: toks[p].span.start, end: toks[p + 6].span.end },
                },
                next: p + 7,
            },
        )
    }
}

/// The annotations that stand from token `p` on, up to the first token
/// that is no `#`, or the first thing that is wrong with one of them.
pub open spec fn annotations_from(src: Source, p: int, hi: int) -> Result<
    AnnotationsAt,
    Diagnostic,
>
    decreases hi - p,
{
    if 0 <= p < hi && src.tokens[p].kind == TokenKind::Punct('#') {
        match annotation_at(src, p, hi) {
            Err(e) => Err(e),
            Ok(first) => match annotations_from(src, first.next, hi) {
                Err(e) => Err(e),
                Ok(rest) => Ok(
                    AnnotationsAt {
                        annotations: seq![first.annotation] + rest.annotations,
                        next: rest.next,
                    },
                ),
            },
        }
    } else {
        Ok(AnnotationsAt { annotations: Seq::empty(), next: p })
    }
}

/// Reads the annotation whose `#` is token `p`.
fn parse_annotation(input: &Input, p: usize, hi: usize) -> (r: Result<(Annotation, usize), Diagnostic>)
    requires
        input.wf(),
        p < hi <= input@.tokens.len(),
    ensures
        match r {
            Ok((a, next)) => annotation_at(input@, p as int, hi as int) == Ok::<
                AnnotationAt,
                Diagnostic,
            >(AnnotationAt { annotation: a@, next: next as int }) && p < next <= hi,
            Err(e) => annotation_at(input@, p as int, hi as int) == Err::<AnnotationAt, Diagnostic>(
                e,
            ),
        },
{
    if !(p + 1 < hi && input.is_punct(p + 1, '[')) {
        return Err(Diagnostic::new(ErrorCode::MalformedAnnotation, input.place_of(p + 1, hi)));
    }
    if !(p + 2 < hi && input.is_word_token(p + 2)) {
        return Err(Diagnostic::new(ErrorCode::MalformedAnnotation, input.place_of(p + 2, hi)));
    }
    let start = input.token(p).span.start;
    let name = input.slice(input.token(p + 2).span).to_owned();
    if p + 3 < hi && input.is_punct(p + 3, ']') {
        let span = Span { start, end: input.token(p + 3).span.end };
        return Ok((Annotation { name, flag: None, span }, p + 4));
    }
    if !(p + 3 < hi && input.is_punct(p + 3, '(')) {
        return Err(Diagnostic::new(ErrorCode::MalformedAnnotation, input.place_of(p + 3, hi)));
    }
    if !(p + 4 < hi && input.is_word_token(p + 4)) {
        return Err(Diagnostic::new(ErrorCode::MalformedAnnotation, input.place_of(p + 4, hi)));
    }
    if !(p + 5 < hi && input.is_punct(p + 5, ')')) {
        return Err(Diagnostic::new(ErrorCode::MalformedAnnotation, input.place_of(p + 5, hi)));
    }
    if !(p + 6 < hi && input.is_punct(p + 6, ']')) {
        return Err(Diagnostic::new(ErrorCode::MalformedAnnotation, input.place_of(p + 6, hi)));
    }
    let flag = input.slice(input.token(p + 4).span).to_owned();
    let span = Span { start, end: input.token(p + 6).span.end };
    Ok((Annotation { name, flag: Some(flag), span }, p + 7))
}

/// Reads the annotations that stand from token `lo` on.
pub fn parse_annotations(input: &Input, lo: usize, hi: usize) -> (r: Result<
    (Vec<Annotation>, usize),
    Diagnostic,
>)
    requires
        input.wf(),
        lo <= hi <= input@.tokens.len(),
    ensures
        match r {
            Ok((attrs, next)) => annotations_from(input@, lo as int, hi as int) == Ok::<
                AnnotationsAt,
                Diagnostic,
            >(AnnotationsAt { annotations: models(attrs@), next: next as int }) && lo <= next
                <= hi,
            Err(e) => annotations_from(input@, lo as int, hi as int) == Err::<
                AnnotationsAt,
                Diagnostic,
            >(e),
        },
{
    let mut out: Vec<Annotation> = Vec::new();
    let mut p = lo;
    proof {
        assert(models(out@) =~= Seq::<AnnotationView>::empty());
        match annotations_from(input@, lo as int, hi as int) {
            Ok(rest) => {
                assert(models(out@) + rest.annotations =~= rest.annotations);
            },
            Err(_) => {},
        }
    }
    while p < hi && input.is_punct(p, '#')
        invariant
            input.wf(),
            lo <= p <= hi <= input@.tokens.len(),
            match annotations_from(input@, p as int, hi as int) {
                Ok(rest) => annotations_from(input@, lo as int, hi as int) == Ok::<
                    AnnotationsAt,
                    Diagnostic,
                >(
                    AnnotationsAt {
                        annotations: models(out@) + rest.annotations,
                        next: rest.next,
                    },
                ),
                Err(e) => annotations_from(input@, lo as int, hi as int) == Err::<
                    AnnotationsAt,
                    Diagnostic,
                >(e),
            },
        decreases hi - p,
    {
        match parse_annotation(input, p, hi) {
            Err(e) => {
                return Err(e);
            },
            Ok((a, next)) => {
                proof {
                    lemma_models_push(out@, a);
                    match annotations_from(input@, next as int, hi as int) {
                        Ok(rest) => {
                            assert(models(out@).push(a@) + rest.annotations =~= models(out@) + (
                            seq![a@] + rest.annotations));
                        },
                        Err(_) => {},
                    }
                }
                out.push(a);
                p = next;
            },
        }
    }
    proof {
        assert(models(out@) + Seq::<AnnotationView>::empty() =~= models(out@));
    }
    Ok((out, p))
}

/// Nothing is recognized, missed or counted among no annotations.
pub proof fn lemma_classify_none(refs: Seq<Seq<char>>, name: Seq<char>)
    ensures
        matching(Seq::empty(), refs) == Seq::<AnnotationView>::empty(),
        missing(Seq::empty(), refs) == Seq::<AnnotationView>::empty(),
        occurrences(Seq::empty(), name) == 0,
{
    reveal(Seq::filter);
}

/// One more annotation goes to `matches` where its name is recognized,
/// else to `misses`, after those that were there; it counts for its own
/// name and no other.
pub proof fn lemma_classify_push(
    attrs: Seq<AnnotationView>,
    a: AnnotationView,
    refs: Seq<Seq<char>>,
    name: Seq<char>,
)
    ensures
        matching(attrs.push(a), refs) == if refs.contains(a.name) {
            matching(attrs, refs).push(a)
        } else {
            matching(attrs, refs)
        },
        missing(attrs.push(a), refs) == if refs.contains(a.name) {
            missing(attrs, refs)
        } else {
            missing(attrs, refs).push(a)
        },
        occurrences(attrs.push(a), name) == occurrences(attrs, name) + if a.name == name {
            1nat
        } else {
            0nat
        },
{
    attrs.lemma_filter_push(a, |x: AnnotationView| refs.contains(x.name));
    attrs.lemma_filter_push(a, |x: AnnotationView| !refs.contains(x.name));
    attrs.lemma_filter_push(a, |x: AnnotationView| x.name == name);
}

/// Every annotation is either recognized or not: `matches` and `misses`
/// together hold as many annotations as there are, and each holds only
/// annotations of the right kind.
pub proof fn lemma_classification_partitions(attrs: Seq<AnnotationView>, refs: Seq<Seq<char>>)
    ensures
        matching(attrs, refs).len() + missing(attrs, refs).len() == attrs.len(),
        forall|k: int|
            0 <= k < matching(attrs, refs).len() ==> refs.contains(
                (#[trigger] matching(attrs, refs)[k]).name,
            ),
        forall|k: int|
            0 <= k < missing(attrs, refs).len() ==> !refs.contains(
                (#[trigger] missing(attrs, refs)[k]).name,
            ),
    decreases attrs.len(),
{
    reveal(Seq::filter);
    if attrs.len() > 0 {
        lemma_classification_partitions(attrs.drop_last(), refs);
    }
}

/// Classifying again against another list gives what classifying the
/// annotations against that list gives at once, whatever the first list
/// was; and classifying again against the same list changes nothing.
pub proof fn lemma_reclassification(
    attrs: Seq<AnnotationView>,
    first: Seq<Seq<char>>,
    second: Seq<Seq<char>>,
)
    ensures
        classification(classification(attrs, first).base_attrs, second) == classification(
            attrs,
            second,
        ),
        classification(classification(attrs, first).base_attrs, first) == classification(
            attrs,
            first,
        ),
{
}

/// An annotation that stands more than once counts as absent where
/// duplicates are not allowed, and as present where they are.
pub proof fn lemma_duplicate_counts_as_absent(attrs: Seq<AnnotationView>, name: Seq<char>)
    requires
        occurrences(attrs, name) >= 2,
    ensures
        !present(attrs, name, false),
        present(attrs, name, true),
{
}

/// Classifying against a single name keeps the annotations of that name.
pub proof fn lemma_matching_one(attrs: Seq<AnnotationView>, name: Seq<char>)
    ensures
        matching(attrs, seq![name]) == attrs.filter(|a: AnnotationView| a.name == name),
        matching(attrs, seq![name]).len() == occurrences(attrs, name),
    decreases attrs.len(),
{
    reveal(Seq::filter);
    if attrs.len() > 0 {
        lemma_matching_one(attrs.drop_last(), name);
        assert(seq![name].contains(attrs.last().name) <==> attrs.last().name == name) by {
            if attrs.last().name == name {
                assert(seq![name][0] == attrs.last().name);
            }
        }
    }
}

} // verus!
