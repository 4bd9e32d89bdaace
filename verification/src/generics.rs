//! Generic parameter lists and the two region parameters `'lhs` and `'rhs`.
use vstd::prelude::*;
use vstd::string::StringExecFns;

use crate::diagnostic::{Diagnostic, ErrorCode, Report, Span};
use crate::model::{lemma_models_push, models};
use crate::text::same_text;

verus! {

/// One generic parameter: its text as written, and, where it is a region
/// parameter such as `'a`, the region's name without the quote.
#[derive(Debug)]
pub struct GenericParam {
    pub text: String,
    pub scope: Option<String>,
}

/// The model of a [`GenericParam`].
pub struct GenericParamView {
    pub text: Seq<char>,
    pub scope: Option<Seq<char>>,
}

impl View for GenericParam {
    type V = GenericParamView;

    open spec fn view(&self) -> GenericParamView {
        GenericParamView {
            text: self.text@,
            scope: match self.scope {
                Some(s) => Some(s@),
                None => None,
            },
        }
    }
}

impl Clone for GenericParam {
    fn clone(&self) -> (r: Self)
        ensures
            r == *self,
    {
        GenericParam {
            text: self.text.clone(),
            scope: match &self.scope {
                Some(s) => Some(s.clone()),
                None => None,
            },
        }
    }
}

/// The generic parameters of a declaration, in the order written, and the
/// place of the list in the source, from `<` to `>`.
#[derive(Debug)]
pub struct Generics {
    pub params: Vec<GenericParam>,
    pub span: Span,
}

/// The model of a [`Generics`].
pub struct GenericsView {
    pub params: Seq<GenericParamView>,
    pub span: Span,
}

impl View for Generics {
    type V = GenericsView;

    open spec fn view(&self) -> GenericsView {
        GenericsView { params: models(self.params@), span: self.span }
    }
}

impl Clone for Generics {
    fn clone(&self) -> (r: Self)
        ensures
            r@ == self@,
    {
        let params = self.params.clone();
        proof {
            assert(params@ =~= self.params@);
        }
        Generics { params, span: self.span }
    }
}

/// The name of the region that a mutated left operand is borrowed for.
pub open spec fn left_scope() -> Seq<char> {
    "lhs"@
}

/// The name of the region that a right operand is borrowed for.
pub open spec fn right_scope() -> Seq<char> {
    "rhs"@
}

/// The parameter `'lhs` that is added where a declaration lacks it.
pub open spec fn left_scope_param() -> GenericParamView {
    GenericParamView { text: "'lhs"@, scope: Some(left_scope()) }
}

/// How many of `params` are the region parameter named `name`.
pub open spec fn scope_count(params: Seq<GenericParamView>, name: Seq<char>) -> nat {
    params.filter(|p: GenericParamView| p.scope == Some(name)).len()
}

/// The outcome of checking the region parameters of `g`: an error where
/// `'lhs` is declared more than once, else whether it is declared.
/// A repeated `'rhs` changes nothing here.
pub open spec fn sanitized(g: GenericsView) -> Result<bool, Diagnostic> {
    if scope_count(g.params, left_scope()) > 1 {
        Err(Diagnostic { code: ErrorCode::DuplicateLeftScope, span: g.span })
    } else {
        Ok(scope_count(g.params, left_scope()) > 0)
    }
}

/// The findings that are recorded on `g` without stopping the declaration:
/// a repeated `'rhs`.
pub open spec fn recorded(g: GenericsView) -> Seq<Diagnostic> {
    if scope_count(g.params, right_scope()) > 1 {
        seq![Diagnostic { code: ErrorCode::DuplicateRightScope, span: g.span }]
    } else {
        Seq::empty()
    }
}

/// The generic parameters that the variants with a mutable left operand
/// use: those of `g`, followed by `'lhs` unless `contains_lhs` says that
/// `g` has it.
pub open spec fn with_left_scope(g: GenericsView, contains_lhs: bool) -> GenericsView {
    if contains_lhs {
        g
    } else {
        GenericsView { params: g.params.push(left_scope_param()), span: g.span }
    }
}

impl GenericParam {
    /// The region parameter `'lhs`.
    pub fn left_scope() -> (p: GenericParam)
        ensures
            p@ == left_scope_param(),
    {
        GenericParam { text: String::from_str("'lhs"), scope: Some(String::from_str("lhs")) }
    }

    /// Whether this is the region parameter named `name`.
    pub fn is_scope(&self, name: &str) -> (b: bool)
        ensures
            b == (self@.scope == Some(name@)),
    {
        match &self.scope {
            Some(s) => same_text(s.as_str(), name),
            None => false,
        }
    }
}

impl Generics {
    /// A list without parameters, placed at `at`.
    pub fn empty(at: usize) -> (g: Generics)
        ensures
            g@.params == Seq::<GenericParamView>::empty(),
            g.span == (Span { start: at, end: at }),
    {
        let g = Generics { params: Vec::new(), span: Span { start: at, end: at } };
        proof {
            assert(models(g.params@) =~= Seq::<GenericParamView>::empty());
        }
        g
    }

    /// How many parameters are the region parameter named `name`.
    pub fn count_scope(&self, name: &str) -> (n: usize)
        ensures
            n == scope_count(self@.params, name@),
    {
        let mut n: usize = 0;
        let mut i: usize = 0;
        proof {
            reveal(Seq::filter);
            assert(models(self.params@.take(0)) =~= Seq::<GenericParamView>::empty());
        }
        while i < self.params.len()
            invariant
                i <= self.params.len(),
                n <= i,
                n == scope_count(models(self.params@.take(i as int)), name@),
            decreases self.params.len() - i,
        {
            let hit = self.params[i].is_scope(name);
            proof {
                let seen = self.params@.take(i as int);
                assert(self.params@.take(i + 1) =~= seen.push(self.params@[i as int]));
                lemma_models_push(seen, self.params@[i as int]);
                models(seen).lemma_filter_push(
                    self.params@[i as int]@,
                    |p: GenericParamView| p.scope == Some(name@),
                );
            }
            if hit {
                n += 1;
            }
            i += 1;
        }
        proof {
            assert(self.params@.take(self.params.len() as int) =~= self.params@);
        }
        n
    }

    /// Checks the region parameters: fails where `'lhs` is declared more
    /// than once, and else says whether it is declared. A repeated `'rhs`
    /// does not fail; [`Generics::report`] records it.
    pub fn sanitize(&self) -> (r: Result<bool, Diagnostic>)
        ensures
            r == sanitized(self@),
    {
        let lhs = self.count_scope("lhs");
        if lhs > 1 {
            Err(Diagnostic::new(ErrorCode::DuplicateLeftScope, self.span))
        } else {
            Ok(lhs > 0)
        }
    }

    /// The findings on the region parameters that do not stop the
    /// declaration, under one heading placed at the list: a repeated `'rhs`.
    pub fn report(&self) -> (r: Report)
        ensures
            r.base == (Diagnostic { code: ErrorCode::GenericsProblem, span: self.span }),
            r.attached@ == recorded(self@),
    {
        let mut r = Report::new(Diagnostic::new(ErrorCode::GenericsProblem, self.span));
        if self.count_scope("rhs") > 1 {
            r.combine(Diagnostic::new(ErrorCode::DuplicateRightScope, self.span));
        }
        r
    }

    /// The generic parameters for the variants with a mutable left operand.
    pub fn with_left_scope(&self, contains_lhs: bool) -> (r: Generics)
        ensures
            r@ == with_left_scope(self@, contains_lhs),
    {
        let mut r = self.clone();
        if !contains_lhs {
            let p = GenericParam::left_scope();
            proof {
                lemma_models_push(r.params@, p);
            }
            r.params.push(p);
        }
        r
    }
}

/// A list that declares `'lhs` more than once fails the check, with an
/// error at the list, whatever else it declares. A list that declares
/// `'rhs` more than once, and `'lhs` at most once, passes it: the repeated
/// `'rhs` is recorded and stops nothing.
pub proof fn lemma_duplicate_scopes(g: GenericsView)
    ensures
        scope_count(g.params, left_scope()) >= 2 ==> sanitized(g) == Err::<bool, Diagnostic>(
            Diagnostic { code: ErrorCode::DuplicateLeftScope, span: g.span },
        ),
        scope_count(g.params, left_scope()) <= 1 ==> sanitized(g) == Ok::<bool, Diagnostic>(
            scope_count(g.params, left_scope()) == 1,
        ),
        scope_count(g.params, right_scope()) >= 2 ==> recorded(g) == seq![
            Diagnostic { code: ErrorCode::DuplicateRightScope, span: g.span },
        ],
        scope_count(g.params, right_scope()) <= 1 ==> recorded(g) == Seq::<Diagnostic>::empty(),
{
}

/// Adding `'lhs` to a list that passed the check gives a list that passes
/// it, has `'lhs` exactly once, and gets nothing added a second time.
pub proof fn lemma_left_scope_added_once(g: GenericsView)
    requires
        sanitized(g) is Ok,
    ensures
        ({
            let m = with_left_scope(g, sanitized(g)->Ok_0);
            &&& scope_count(m.params, left_scope()) == 1
            &&& sanitized(m) == Ok::<bool, Diagnostic>(true)
            &&& with_left_scope(m, true) == m
            &&& sanitized(g)->Ok_0 ==> m == g
        }),
{
    reveal(Seq::filter);
    g.params.lemma_filter_push(
        left_scope_param(),
        |p: GenericParamView| p.scope == Some(left_scope()),
    );
    if !(sanitized(g)->Ok_0) {
        assert(scope_count(g.params, left_scope()) == 0);
    }
}

} // verus!
