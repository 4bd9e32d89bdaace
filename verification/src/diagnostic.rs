//! Source positions and the diagnostics that parsing reports.
use vstd::prelude::*;
use vstd::string::StringExecFns;

verus! {

/// A half-open range `start..end` of character positions in the source text.
#[derive(Clone, Copy, Debug, PartialEq, Eq, Structural)]
pub struct Span {
    pub start: usize,
    pub end: usize,
}

/// The operation a declaration implements.
#[derive(Clone, Copy, Debug, PartialEq, Eq, Structural)]
pub enum Operation {
    /// Elementwise addition, written `Add for [..] + [..]`.
    Add,
    /// Elementwise subtraction, written `Sub for [..] - [..]`.
    Sub,
    /// Dot product, written `Mul for [..] * [..]`.
    Mul,
}

/// How serious a diagnostic is and where it comes from.
#[derive(Clone, Copy, Debug, PartialEq, Eq, Structural)]
pub enum ErrorKind {
    /// The text is not a document of the grammar.
    Syntax,
    /// The text follows the grammar but breaks one of its rules.
    Semantic,
    /// A finding that is recorded together with others and does not by
    /// itself stop a declaration.
    Combined,
}

/// What went wrong.
#[derive(Clone, Copy, Debug, PartialEq, Eq, Structural)]
pub enum ErrorCode {
    /// A character that starts no token.
    UnexpectedCharacter,
    /// An annotation `#[name]` or `#[name(flag)]` is malformed.
    MalformedAnnotation,
    /// The keyword `impl` is missing.
    ExpectedImpl,
    /// A `<` of a generic parameter list is never closed.
    UnclosedGenerics,
    /// A generic parameter is empty.
    ExpectedGenericParam,
    /// A generic parameter is not one of Rust's.
    InvalidGenericParam,
    /// No identifier stands where the operation is named.
    ExpectedIdentifier,
    /// The identifier is not the operation that the declaration's family expects.
    WrongOperation(Operation),
    /// The keyword `for` is missing.
    ExpectedFor,
    /// A type list does not start with `[`.
    ExpectedOpenBracket,
    /// A type list is never closed by `]`.
    UnclosedBracket,
    /// A type in a type list is empty.
    ExpectedType,
    /// A type in a type list is not one of Rust's.
    InvalidType,
    /// A type or a generic parameter is nested deeper than is read.
    NestedTooDeep,
    /// The symbol between the two type lists is not the operation's.
    ExpectedSymbol(Operation),
    /// Tokens follow a complete declaration.
    UnexpectedToken,
    /// The region parameter `'lhs` is declared more than once.
    DuplicateLeftScope,
    /// The region parameter `'rhs` is declared more than once.
    DuplicateRightScope,
    /// The heading under which findings on a generic parameter list are collected.
    GenericsProblem,
}

/// One finding: what went wrong and where.
#[derive(Clone, Copy, Debug, PartialEq, Eq, Structural)]
pub struct Diagnostic {
    pub code: ErrorCode,
    pub span: Span,
}

/// A heading with the findings attached to it.
#[derive(Debug)]
pub struct Report {
    pub base: Diagnostic,
    pub attached: Vec<Diagnostic>,
}

impl Operation {
    /// The identifier that names the operation in a declaration.
    pub open spec fn name_text(self) -> Seq<char> {
        match self {
            Operation::Add => "Add"@,
            Operation::Sub => "Sub"@,
            Operation::Mul => "Mul"@,
        }
    }

    /// The method that an implementation of the operation defines.
    pub open spec fn method_text(self) -> Seq<char> {
        match self {
            Operation::Add => "add"@,
            Operation::Sub => "sub"@,
            Operation::Mul => "mul"@,
        }
    }

    /// The symbol that stands between the two type lists.
    pub open spec fn symbol_char(self) -> char {
        match self {
            Operation::Add => '+',
            Operation::Sub => '-',
            Operation::Mul => '*',
        }
    }

    pub fn name(self) -> (s: &'static str)
        ensures
            s@ == self.name_text(),
    {
        match self {
            Operation::Add => "Add",
            Operation::Sub => "Sub",
            Operation::Mul => "Mul",
        }
    }

    pub fn method(self) -> (s: &'static str)
        ensures
            s@ == self.method_text(),
    {
        match self {
            Operation::Add => "add",
            Operation::Sub => "sub",
            Operation::Mul => "mul",
        }
    }

    pub fn symbol(self) -> (c: char)
        ensures
            c == self.symbol_char(),
    {
        match self {
            Operation::Add => '+',
            Operation::Sub => '-',
            Operation::Mul => '*',
        }
    }

    /// Whether the operation combines two vectors element by element, as
    /// opposed to folding them into one value.
    pub open spec fn is_elementwise(self) -> bool {
        self != Operation::Mul
    }
}

impl ErrorCode {
    /// The kind of diagnostic that a code belongs to.
    pub open spec fn kind_of(self) -> ErrorKind {
        match self {
            ErrorCode::WrongOperation(_) | ErrorCode::DuplicateLeftScope => ErrorKind::Semantic,
            ErrorCode::DuplicateRightScope | ErrorCode::GenericsProblem => ErrorKind::Combined,
            _ => ErrorKind::Syntax,
        }
    }

    /// The part of the message that a code fixes.
    pub open spec fn fixed_text(self) -> Seq<char> {
        match self {
            ErrorCode::UnexpectedCharacter => "unexpected character"@,
            ErrorCode::MalformedAnnotation => "expected an annotation `#[name]` or `#[name(flag)]`"@,
            ErrorCode::ExpectedImpl => "expected `impl`"@,
            ErrorCode::UnclosedGenerics => "expected `>` to close the generic parameters"@,
            ErrorCode::ExpectedGenericParam => "expected a generic parameter"@,
            ErrorCode::InvalidGenericParam => "invalid generic parameter"@,
            ErrorCode::ExpectedIdentifier => "expected identifier"@,
            ErrorCode::WrongOperation(Operation::Add) => "expected trait identifier `Add`"@,
            ErrorCode::WrongOperation(Operation::Sub) => "expected trait identifier `Sub`"@,
            ErrorCode::WrongOperation(Operation::Mul) => "expected trait identifier `Mul`"@,
            ErrorCode::ExpectedFor => "expected `for`"@,
            ErrorCode::ExpectedOpenBracket => "expected `[`"@,
            ErrorCode::UnclosedBracket => "expected `]` to close the type list"@,
            ErrorCode::ExpectedType => "expected a type"@,
            ErrorCode::InvalidType => "invalid type"@,
            ErrorCode::NestedTooDeep => "type or generic parameter nested too deep"@,
            ErrorCode::ExpectedSymbol(Operation::Add) => "expected `+`"@,
            ErrorCode::ExpectedSymbol(Operation::Sub) => "expected `-`"@,
            ErrorCode::ExpectedSymbol(Operation::Mul) => "expected `*`"@,
            ErrorCode::UnexpectedToken => "unexpected token"@,
            ErrorCode::DuplicateLeftScope => "Duplicate definition of required lifetime `'lhs`"@,
            ErrorCode::DuplicateRightScope => "Duplicate definition of required lifetime `'rhs`"@,
            ErrorCode::GenericsProblem => "Problem with generic arguments for implementation"@,
        }
    }
}

impl Diagnostic {
    pub fn new(code: ErrorCode, span: Span) -> (d: Diagnostic)
        ensures
            d == (Diagnostic { code, span }),
    {
        Diagnostic { code, span }
    }

    pub fn kind(&self) -> (k: ErrorKind)
        ensures
            k == self.code.kind_of(),
    {
        match self.code {
            ErrorCode::WrongOperation(_) | ErrorCode::DuplicateLeftScope => ErrorKind::Semantic,
            ErrorCode::DuplicateRightScope | ErrorCode::GenericsProblem => ErrorKind::Combined,
            _ => ErrorKind::Syntax,
        }
    }

    /// Whether the diagnostic stops the document it was found in.
    pub fn is_fatal(&self) -> (b: bool)
        ensures
            b == (self.code.kind_of() != ErrorKind::Combined),
    {
        match self.kind() {
            ErrorKind::Combined => false,
            _ => true,
        }
    }

    /// Whether the span is a range of the characters of `source`.
    pub open spec fn within(self, source: Seq<char>) -> bool {
        self.span.start <= self.span.end <= source.len()
    }

    /// The message of a diagnostic on the text `source`: the text that the
    /// code fixes; for an identifier that is not the expected operation,
    /// followed by `, instead found ` and the identifier, which is what
    /// stands at the span.
    pub open spec fn message_text(self, source: Seq<char>) -> Seq<char> {
        if self.code is WrongOperation && self.within(source) {
            self.code.fixed_text() + ", instead found "@ + source.subrange(
                self.span.start as int,
                self.span.end as int,
            )
        } else {
            self.code.fixed_text()
        }
    }

    /// The text that the code fixes.
    fn fixed(&self) -> (m: String)
        ensures
            m@ == self.code.fixed_text(),
    {
        let text: &'static str = match self.code {
            ErrorCode::UnexpectedCharacter => "unexpected character",
            ErrorCode::MalformedAnnotation => "expected an annotation `#[name]` or `#[name(flag)]`",
            ErrorCode::ExpectedImpl => "expected `impl`",
            ErrorCode::UnclosedGenerics => "expected `>` to close the generic parameters",
            ErrorCode::ExpectedGenericParam => "expected a generic parameter",
            ErrorCode::InvalidGenericParam => "invalid generic parameter",
            ErrorCode::ExpectedIdentifier => "expected identifier",
            ErrorCode::WrongOperation(Operation::Add) => "expected trait identifier `Add`",
            ErrorCode::WrongOperation(Operation::Sub) => "expected trait identifier `Sub`",
            ErrorCode::WrongOperation(Operation::Mul) => "expected trait identifier `Mul`",
            ErrorCode::ExpectedFor => "expected `for`",
            ErrorCode::ExpectedOpenBracket => "expected `[`",
            ErrorCode::UnclosedBracket => "expected `]` to close the type list",
            ErrorCode::ExpectedType => "expected a type",
            ErrorCode::InvalidType => "invalid type",
            ErrorCode::NestedTooDeep => "type or generic parameter nested too deep",
            ErrorCode::ExpectedSymbol(Operation::Add) => "expected `+`",
            ErrorCode::ExpectedSymbol(Operation::Sub) => "expected `-`",
            ErrorCode::ExpectedSymbol(Operation::Mul) => "expected `*`",
            ErrorCode::UnexpectedToken => "unexpected token",
            ErrorCode::DuplicateLeftScope => "Duplicate definition of required lifetime `'lhs`",
            ErrorCode::DuplicateRightScope => "Duplicate definition of required lifetime `'rhs`",
            ErrorCode::GenericsProblem => "Problem with generic arguments for implementation",
        };
        String::from_str(text)
    }

    /// The message for a reader, on the text `source` that the diagnostic
    /// was found in.
    pub fn message(&self, source: &str) -> (m: String)
        ensures
            m@ == self.message_text(source@),
    {
        let mut m = self.fixed();
        let wrong = match self.code {
            ErrorCode::WrongOperation(_) => true,
            _ => false,
        };
        if wrong && self.span.start <= self.span.end && self.span.end <= source.unicode_len() {
            m.append(", instead found ");
            m.append(source.substring_char(self.span.start, self.span.end));
        }
        m
    }
}

impl Report {
    /// A report with a heading and nothing attached.
    pub fn new(base: Diagnostic) -> (r: Report)
        ensures
            r.base == base,
            r.attached@ == Seq::<Diagnostic>::empty(),
    {
        Report { base, attached: Vec::new() }
    }

    /// Attaches one more finding, after those already attached.
    pub fn combine(&mut self, other: Diagnostic)
        ensures
            final(self).base == old(self).base,
            final(self).attached@ == old(self).attached@.push(other),
    {
        self.attached.push(other);
    }

    /// Whether nothing was attached.
    pub fn is_clean(&self) -> (b: bool)
        ensures
            b == (self.attached@.len() == 0),
    {
        self.attached.len() == 0
    }
}

} // verus!
