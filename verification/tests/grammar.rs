use vector_ops::diagnostic::{Diagnostic, ErrorCode, ErrorKind, Operation, Span};
use vector_ops::impl_dot_prod::ImplDotProduct;
use vector_ops::impl_vector_add::ImplVectorAdd;
use vector_ops::impl_vector_sub::ImplVectorSub;
use vector_ops::token::{Input, TokenKind};
use vector_ops::traits::{Add, Mul, Sub};

fn add_error(text: &str) -> Diagnostic {
    ImplVectorAdd::parse(text).unwrap_err()
}

fn at(code: ErrorCode, start: usize, end: usize) -> Diagnostic {
    Diagnostic { code, span: Span { start, end } }
}

#[test]
fn tokens_are_the_longest_of_their_kind() {
    let input = Input::new("impl<'a, T2> Add for [x_1] +\n[42u8]").unwrap();
    let kinds: Vec<(TokenKind, usize, usize)> =
        (0..input.len()).map(|i| input.token(i)).map(|t| (t.kind, t.span.start, t.span.end)).collect();
    assert_eq!(
        kinds,
        vec![
            (TokenKind::Ident, 0, 4),
            (TokenKind::Punct('<'), 4, 5),
            (TokenKind::Lifetime, 5, 7),
            (TokenKind::Punct(','), 7, 8),
            (TokenKind::Ident, 9, 11),
            (TokenKind::Punct('>'), 11, 12),
            (TokenKind::Ident, 13, 16),
            (TokenKind::Ident, 17, 20),
            (TokenKind::Punct('['), 21, 22),
            (TokenKind::Ident, 22, 25),
            (TokenKind::Punct(']'), 25, 26),
            (TokenKind::Punct('+'), 27, 28),
            (TokenKind::Punct('['), 29, 30),
            (TokenKind::Literal, 30, 34),
            (TokenKind::Punct(']'), 34, 35),
        ]
    );
    assert_eq!(input.slice(Span { start: 22, end: 25 }), "x_1");
    assert!(input.is_word(0, "impl"));
    assert!(!input.is_word(0, "imp"));
    assert!(input.is_punct(1, '<'));
}

#[test]
fn an_empty_text_has_no_tokens() {
    assert_eq!(Input::new("").unwrap().len(), 0);
    assert_eq!(Input::new(" \t\r\n").unwrap().len(), 0);
}

#[test]
fn positions_count_characters() {
    let e = Input::new("é \"").err().unwrap();
    assert_eq!(e, at(ErrorCode::UnexpectedCharacter, 0, 1));
    let e = add_error("impl Add for [A] + [B] \"x\"");
    assert_eq!(e, at(ErrorCode::UnexpectedCharacter, 23, 24));
    assert_eq!(e.kind(), ErrorKind::Syntax);
    assert_eq!(e.message("impl Add for [A] + [B] \"x\""), "unexpected character");
}

#[test]
fn a_quote_without_a_name_starts_no_token() {
    assert_eq!(Input::new("impl '1").err().unwrap(), at(ErrorCode::UnexpectedCharacter, 5, 6));
}

#[test]
fn an_empty_document_lacks_its_declaration() {
    assert_eq!(add_error(""), at(ErrorCode::ExpectedImpl, 0, 0));
    assert_eq!(add_error(";"), at(ErrorCode::ExpectedImpl, 0, 0));
    assert_eq!(add_error("Add for [A] + [B]"), at(ErrorCode::ExpectedImpl, 0, 3));
}

#[test]
fn malformed_annotations_are_reported_where_they_break() {
    assert_eq!(add_error("#mut_left impl Add for [A] + [B]"), at(ErrorCode::MalformedAnnotation, 1, 9));
    assert_eq!(add_error("#[mut_left impl Add for [A] + [B]"), at(ErrorCode::MalformedAnnotation, 11, 15));
    assert_eq!(add_error("#[] impl Add for [A] + [B]"), at(ErrorCode::MalformedAnnotation, 2, 3));
    assert_eq!(add_error("#[a(b] impl Add for [A] + [B]"), at(ErrorCode::MalformedAnnotation, 5, 6));
    assert_eq!(add_error("#[a()] impl Add for [A] + [B]"), at(ErrorCode::MalformedAnnotation, 4, 5));
    assert_eq!(add_error("#[a(b) impl Add for [A] + [B]"), at(ErrorCode::MalformedAnnotation, 7, 11));
    assert_eq!(add_error("#"), at(ErrorCode::MalformedAnnotation, 1, 1));
    assert_eq!(add_error("#[mut_left").code, ErrorCode::MalformedAnnotation);
}

#[test]
fn generic_parameter_lists_must_close_and_hold_parameters() {
    assert_eq!(add_error("impl<T Add for [A] + [B]"), at(ErrorCode::UnclosedGenerics, 7, 10));
    assert_eq!(add_error("impl<T: Add<U, Add for [A] + [B]"), at(ErrorCode::UnclosedGenerics, 15, 18));
    let text = "impl<T, U for [A] + [B]";
    assert_eq!(add_error(text), at(ErrorCode::UnclosedGenerics, text.len(), text.len()));
    assert_eq!(add_error("impl<T, U ; impl Add for [A] + [B]"), at(ErrorCode::UnclosedGenerics, 9, 9));
    assert_eq!(add_error("impl<> Add for [A] + [B]"), at(ErrorCode::ExpectedGenericParam, 5, 6));
    assert_eq!(add_error("impl<T,> Add for [A] + [B]"), at(ErrorCode::ExpectedGenericParam, 7, 8));
    assert_eq!(add_error("impl<,T> Add for [A] + [B]"), at(ErrorCode::ExpectedGenericParam, 5, 6));
}

#[test]
fn generic_parameters_are_those_of_rust() {
    assert_eq!(add_error("impl<T, +U> Add for [A] + [B]"), at(ErrorCode::InvalidGenericParam, 8, 10));
    assert_eq!(add_error("impl<T U> Add for [A] + [B]"), at(ErrorCode::InvalidGenericParam, 5, 8));
    let doc = ImplVectorAdd::parse(
        "impl<'a, T: Iterator<Item = (u8, u8)>, F: Fn(T) -> Vec<T>, const N: usize> Add for [A] + [B]",
    )
    .unwrap();
    let params: Vec<&str> =
        doc.args[0].arg.generics.params.iter().map(|p| p.text.as_str()).collect();
    assert_eq!(
        params,
        vec!["'a", "T: Iterator<Item = (u8, u8)>", "F: Fn(T) -> Vec<T>", "const N: usize"]
    );
    assert_eq!(doc.args[0].arg.generics.span, Span { start: 4, end: 74 });
}

#[test]
fn without_generic_parameters_the_list_is_empty() {
    let doc = ImplVectorAdd::parse("impl Add for [A] + [B]").unwrap();
    assert!(doc.args[0].arg.generics.params.is_empty());
    assert_eq!(doc.args[0].arg.generics.span, Span { start: 4, end: 4 });
}

#[test]
fn the_operation_must_be_the_one_of_the_family() {
    let e = add_error("impl<T> Sub for [A] - [B]");
    assert_eq!(e, at(ErrorCode::WrongOperation(Operation::Add), 8, 11));
    assert_eq!(e.kind(), ErrorKind::Semantic);
    assert_eq!(
        e.message("impl<T> Sub for [A] - [B]"),
        "expected trait identifier `Add`, instead found Sub"
    );
    let e = ImplVectorSub::parse("impl<T> Add for [A] + [B]").unwrap_err();
    assert_eq!(e, at(ErrorCode::WrongOperation(Operation::Sub), 8, 11));
    let e = ImplDotProduct::parse("impl<T> mul for [A] * [B]").unwrap_err();
    assert_eq!(e, at(ErrorCode::WrongOperation(Operation::Mul), 8, 11));
    assert_eq!(add_error("impl [A] + [B]"), at(ErrorCode::ExpectedIdentifier, 5, 6));
    assert_eq!(add_error("impl"), at(ErrorCode::ExpectedIdentifier, 4, 4));
}

#[test]
fn a_wrong_operation_is_named_in_the_message() {
    let message = |e: Diagnostic, text: &str| e.message(text);
    let text = "impl<T> Add for [A] - [B]";
    assert_eq!(
        message(ImplVectorSub::parse(text).unwrap_err(), text),
        "expected trait identifier `Sub`, instead found Add"
    );
    let text = "impl<T> Sub for [A] * [B]";
    assert_eq!(
        message(ImplDotProduct::parse(text).unwrap_err(), text),
        "expected trait identifier `Mul`, instead found Sub"
    );
    let text = "sub";
    let input = Input::new(text).unwrap();
    assert_eq!(
        message(Sub::parse(&input, 0, 1).unwrap_err(), text),
        "expected trait identifier `Sub`, instead found sub"
    );
    let text = "Add";
    let input = Input::new(text).unwrap();
    assert_eq!(
        message(Mul::parse(&input, 0, 1).unwrap_err(), text),
        "expected trait identifier `Mul`, instead found Add"
    );
    assert!(Add::parse(&input, 0, 1).is_ok());
    let text = "  Added";
    let input = Input::new(text).unwrap();
    assert_eq!(
        message(Add::parse(&input, 0, 1).unwrap_err(), text),
        "expected trait identifier `Add`, instead found Added"
    );
}

#[test]
fn operation_identifiers_are_read_one_by_one() {
    let input = Input::new("Add Sub Mul +").unwrap();
    let n = input.len();
    assert_eq!(Add::parse(&input, 0, n).unwrap().ident, Span { start: 0, end: 3 });
    assert_eq!(Sub::parse(&input, 1, n).unwrap().ident, Span { start: 4, end: 7 });
    assert_eq!(Mul::parse(&input, 2, n).unwrap().ident, Span { start: 8, end: 11 });
    assert_eq!(Add::parse(&input, 1, n).unwrap_err(), at(ErrorCode::WrongOperation(Operation::Add), 4, 7));
    assert_eq!(Mul::parse(&input, 3, n).unwrap_err(), at(ErrorCode::ExpectedIdentifier, 12, 13));
    assert_eq!(Sub::parse(&input, 4, n).unwrap_err(), at(ErrorCode::ExpectedIdentifier, 13, 13));
    assert_eq!(Add { ident: Span { start: 0, end: 3 } }.to_tokens(), "Add");
    assert_eq!(Sub { ident: Span { start: 0, end: 3 } }.to_tokens(), "Sub");
    assert_eq!(Mul { ident: Span { start: 0, end: 3 } }.to_tokens(), "Mul");
}

#[test]
fn the_keyword_for_and_the_brackets_are_required() {
    assert_eq!(add_error("impl Add [A] + [B]"), at(ErrorCode::ExpectedFor, 9, 10));
    assert_eq!(add_error("impl Add"), at(ErrorCode::ExpectedFor, 8, 8));
    assert_eq!(add_error("impl Add for A + [B]"), at(ErrorCode::ExpectedOpenBracket, 13, 14));
    assert_eq!(add_error("impl Add for [A] + B"), at(ErrorCode::ExpectedOpenBracket, 19, 20));
    assert_eq!(add_error("impl Add for [A] +"), at(ErrorCode::ExpectedOpenBracket, 18, 18));
}

#[test]
fn the_symbol_must_be_the_one_of_the_operation() {
    let e = add_error("impl Add for [A] - [B]");
    assert_eq!(e, at(ErrorCode::ExpectedSymbol(Operation::Add), 17, 18));
    assert_eq!(e.message("impl Add for [A] - [B]"), "expected `+`");
    assert_eq!(
        ImplVectorSub::parse("impl Sub for [A] + [B]").unwrap_err(),
        at(ErrorCode::ExpectedSymbol(Operation::Sub), 17, 18)
    );
    assert_eq!(
        ImplDotProduct::parse("impl Mul for [A] [B]").unwrap_err(),
        at(ErrorCode::ExpectedSymbol(Operation::Mul), 17, 18)
    );
    assert_eq!(add_error("impl Add for [A]"), at(ErrorCode::ExpectedSymbol(Operation::Add), 16, 16));
}

#[test]
fn a_missing_closing_bracket_points_after_the_last_type() {
    assert_eq!(add_error("impl<T> Add for [A, B + [C];"), at(ErrorCode::UnclosedBracket, 21, 21));
    assert_eq!(add_error("impl<T> Add for [A, B + [C]"), at(ErrorCode::UnclosedBracket, 21, 21));
    assert_eq!(
        ImplVectorSub::parse("impl<T> Sub for [A, B - [C]").unwrap_err(),
        at(ErrorCode::UnclosedBracket, 21, 21)
    );
    assert_eq!(
        ImplDotProduct::parse("impl<T> Mul for [A, *const B * [C]").unwrap_err(),
        at(ErrorCode::UnclosedBracket, 28, 28)
    );
    assert_eq!(add_error("impl<T> Add for [A, B +"), at(ErrorCode::UnclosedBracket, 21, 21));
    assert_eq!(add_error("impl<T> Add for [A, dyn B + C"), at(ErrorCode::UnclosedBracket, 29, 29));
    assert_eq!(add_error("impl<T> Add for [A, (B + [C]"), at(ErrorCode::UnclosedBracket, 28, 28));
    assert_eq!(add_error("impl<T> Add for [A] + [B;"), at(ErrorCode::UnclosedBracket, 24, 24));
    assert_eq!(add_error("impl<T> Add for [A] + [B  "), at(ErrorCode::UnclosedBracket, 24, 24));
    assert_eq!(add_error("impl<T> Add for [A) + [B]"), at(ErrorCode::UnclosedBracket, 18, 18));
    let e = add_error("impl<T> Add for [A");
    assert_eq!(e.kind(), ErrorKind::Syntax);
    assert_eq!(e.message("impl<T> Add for [A"), "expected `]` to close the type list");
}

#[test]
fn type_lists_are_not_empty_and_have_no_empty_type() {
    assert_eq!(add_error("impl Add for [] + [B]"), at(ErrorCode::ExpectedType, 14, 15));
    assert_eq!(add_error("impl Add for [A,,B] + [C]"), at(ErrorCode::ExpectedType, 16, 17));
    assert_eq!(add_error("impl Add for [A] + [B,]"), at(ErrorCode::ExpectedType, 22, 23));
}

#[test]
fn types_are_those_of_rust() {
    assert_eq!(add_error("impl Add for [A] + [B, 7]"), at(ErrorCode::InvalidType, 23, 24));
    assert_eq!(add_error("impl Add for [A B] + [C]"), at(ErrorCode::InvalidType, 14, 17));
    assert_eq!(add_error("impl Add for [Vec<(A]>] + [C]"), at(ErrorCode::InvalidType, 14, 22));
    assert_eq!(add_error("impl Add for [Vec<(A>] + [C]").code, ErrorCode::UnclosedBracket);
    let doc = ImplVectorSub::parse(
        "impl<T> Sub for [Vec<(A, B)>, [u8; 4], &'static dyn Fn(A, B) -> Map<K, V>] - [<T as Tr>::Out, *const T]",
    )
    .unwrap();
    let arg = &doc.args[0].arg;
    let lhs: Vec<&str> = arg.lhs_tys.iter().map(|t| t.text.as_str()).collect();
    let rhs: Vec<&str> = arg.rhs_tys.iter().map(|t| t.text.as_str()).collect();
    assert_eq!(lhs, vec!["Vec<(A, B)>", "[u8; 4]", "&'static dyn Fn(A, B) -> Map<K, V>"]);
    assert_eq!(rhs, vec!["<T as Tr>::Out", "*const T"]);
    assert_eq!(arg.lhs_tys[1].span, Span { start: 30, end: 37 });
}

#[test]
fn a_rejected_generic_parameter_comes_before_a_rejected_type() {
    assert_eq!(add_error("impl<+T> Add for [7] + [B]").code, ErrorCode::InvalidGenericParam);
    assert_eq!(add_error("impl<T> Add for [A] + [7, 8]"), at(ErrorCode::InvalidType, 23, 24));
    assert_eq!(add_error("impl<T> Add for [A, 7] + [8]"), at(ErrorCode::InvalidType, 20, 21));
}

#[test]
fn nothing_may_follow_a_declaration() {
    assert_eq!(add_error("impl Add for [A] + [B] C"), at(ErrorCode::UnexpectedToken, 23, 24));
    assert_eq!(add_error("impl Add for [A] + [B] where"), at(ErrorCode::UnexpectedToken, 23, 28));
}

#[test]
fn the_parts_of_a_declaration_keep_their_places() {
    let doc = ImplVectorSub::parse("#[mut_left] impl<T> Sub for [A, B] - [C]").unwrap();
    let full = &doc.args[0];
    assert_eq!(full.mutability.base_attrs[0].span, Span { start: 0, end: 11 });
    assert_eq!(full.mutability.base_attrs[0].name, "mut_left");
    let arg = &full.arg;
    assert_eq!(arg.impl_token, Span { start: 12, end: 16 });
    assert_eq!(arg.generics.span, Span { start: 16, end: 19 });
    assert_eq!(arg.trait_, Sub { ident: Span { start: 20, end: 23 } });
    assert_eq!(arg.for_, Span { start: 24, end: 27 });
    assert_eq!(arg.bracket1, Span { start: 28, end: 34 });
    assert_eq!(arg.minus, Span { start: 35, end: 36 });
    assert_eq!(arg.bracket2, Span { start: 37, end: 40 });
    assert_eq!(arg.lhs_tys[1].span, Span { start: 32, end: 33 });
}

#[test]
fn declarations_are_separated_by_semicolons() {
    let doc = ImplVectorAdd::parse(
        "impl Add for [A] + [B];\n#[mut_left] impl<T> Add for [[T; 2]] + [C, D];",
    )
    .unwrap();
    assert_eq!(doc.args.len(), 2);
    assert_eq!(doc.args[1].arg.lhs_tys[0].text, "[T; 2]");
    assert_eq!(doc.emit().len(), 4 + 2 * 6);
    let one = ImplVectorAdd::parse("impl Add for [A] + [B]").unwrap();
    assert_eq!(one.args.len(), 1);
}

#[test]
fn an_empty_declaration_between_semicolons_is_an_error() {
    assert_eq!(add_error("impl Add for [A] + [B];;"), at(ErrorCode::ExpectedImpl, 23, 23));
    assert_eq!(
        add_error("impl Add for [A] + [B];; impl Add for [C] + [D]"),
        at(ErrorCode::ExpectedImpl, 23, 23)
    );
}

#[test]
fn the_first_failing_declaration_ends_the_document() {
    let e = add_error("impl Add for [A] + [B]; impl Sub for [C] + [D]; impl Add [E] + [F]");
    assert_eq!(e, at(ErrorCode::WrongOperation(Operation::Add), 29, 32));
    let e = add_error("impl Add for [A] + [7]; impl Add [C] + [D]");
    assert_eq!(e, at(ErrorCode::InvalidType, 20, 21));
}

#[test]
fn every_code_has_its_message_and_kind() {
    let d = |code| Diagnostic { code, span: Span { start: 0, end: 0 } };
    assert_eq!(d(ErrorCode::ExpectedImpl).message(""), "expected `impl`");
    assert_eq!(d(ErrorCode::ExpectedFor).message(""), "expected `for`");
    assert_eq!(d(ErrorCode::ExpectedOpenBracket).message(""), "expected `[`");
    assert_eq!(d(ErrorCode::ExpectedType).message(""), "expected a type");
    assert_eq!(d(ErrorCode::InvalidType).message(""), "invalid type");
    assert_eq!(d(ErrorCode::ExpectedIdentifier).message(""), "expected identifier");
    assert_eq!(d(ErrorCode::UnexpectedToken).message(""), "unexpected token");
    assert_eq!(d(ErrorCode::ExpectedGenericParam).message(""), "expected a generic parameter");
    assert_eq!(d(ErrorCode::InvalidGenericParam).message(""), "invalid generic parameter");
    assert_eq!(
        d(ErrorCode::UnclosedGenerics).message(""),
        "expected `>` to close the generic parameters"
    );
    assert_eq!(
        d(ErrorCode::MalformedAnnotation).message(""),
        "expected an annotation `#[name]` or `#[name(flag)]`"
    );
    assert_eq!(d(ErrorCode::ExpectedSymbol(Operation::Sub)).message(""), "expected `-`");
    assert_eq!(d(ErrorCode::ExpectedSymbol(Operation::Mul)).message(""), "expected `*`");
    assert_eq!(
        d(ErrorCode::WrongOperation(Operation::Sub)).message(""),
        "expected trait identifier `Sub`, instead found "
    );
    let found = Diagnostic {
        code: ErrorCode::WrongOperation(Operation::Mul),
        span: Span { start: 5, end: 8 },
    };
    assert_eq!(found.message("impl Add for"), "expected trait identifier `Mul`, instead found Add");
    assert_eq!(found.message("impl"), "expected trait identifier `Mul`");
    let other = Diagnostic { code: ErrorCode::ExpectedFor, span: Span { start: 5, end: 8 } };
    assert_eq!(other.message("impl Add for"), "expected `for`");
    assert_eq!(d(ErrorCode::InvalidType).kind(), ErrorKind::Syntax);
    assert_eq!(d(ErrorCode::WrongOperation(Operation::Mul)).kind(), ErrorKind::Semantic);
    assert_eq!(d(ErrorCode::GenericsProblem).kind(), ErrorKind::Combined);
    assert_eq!(Operation::Add.name(), "Add");
    assert_eq!(Operation::Sub.method(), "sub");
    assert_eq!(Operation::Mul.symbol(), '*');
}
