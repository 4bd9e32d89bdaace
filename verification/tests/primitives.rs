use vector_ops::arg::{parse_document, ArgParser, Parse};
use vector_ops::declaration::{judge, Declaration, Verdicts};
use vector_ops::diagnostic::{Diagnostic, ErrorCode, Operation, Span};
use vector_ops::impl_dot_prod::ImplDotProductArg;
use vector_ops::impl_vector_sub::{FullArg, ImplVectorSubArg};
use vector_ops::outline::{fragments, parse_generics, parse_outline, parse_type_list};
use vector_ops::rust::ParamShape;
use vector_ops::sequence::{
    find_angle_close, find_bracket_close, find_operation_break, find_symbol_break, split, Piece,
};
use vector_ops::text::{chars_of, same_text};
use vector_ops::token::{tokenize, Input};

fn pieces(text: &str, sep: char) -> Vec<(usize, usize)> {
    let input = Input::new(text).unwrap();
    split(&input, 0, input.len(), sep).iter().map(|p| (p.lo, p.hi)).collect()
}

#[test]
fn split_cuts_at_separators_outside_of_brackets() {
    assert_eq!(pieces("a , b , c", ','), vec![(0, 1), (2, 3), (4, 5)]);
    assert_eq!(pieces("a", ','), vec![(0, 1)]);
    assert_eq!(pieces("", ','), vec![(0, 0)]);
    assert_eq!(pieces(",", ','), vec![(0, 0), (1, 1)]);
    assert_eq!(pieces("f ( a , b ) , [ c , d ] , { e , g }", ','), vec![(0, 6), (7, 12), (13, 18)]);
}

#[test]
fn split_skips_separators_inside_angle_brackets() {
    assert_eq!(pieces("M < K , V > , N", ','), vec![(0, 6), (7, 8)]);
    assert_eq!(pieces("A < B < C , D > > , E", ','), vec![(0, 9), (10, 11)]);
}

#[test]
fn an_arrow_closes_no_angle_bracket() {
    assert_eq!(pieces("F < fn ( A ) -> B , C > , D", ','), vec![(0, 12), (13, 14)]);
    assert_eq!(pieces("x -> y , z", ','), vec![(0, 4), (5, 6)]);
    assert_eq!(pieces("A < B - > C , D", ','), vec![(0, 6), (7, 8)]);
}

#[test]
fn a_stray_closing_bracket_leaves_the_depth_at_zero() {
    assert_eq!(pieces("a ) , b > , c", ','), vec![(0, 2), (3, 5), (6, 7)]);
}

#[test]
fn split_works_within_a_range() {
    let input = Input::new("x ; a , b ; y").unwrap();
    let got: Vec<(usize, usize)> = split(&input, 2, 5, ',').iter().map(|p| (p.lo, p.hi)).collect();
    assert_eq!(got, vec![(2, 3), (4, 5)]);
    let whole: Vec<(usize, usize)> =
        split(&input, 0, input.len(), ';').iter().map(|p| (p.lo, p.hi)).collect();
    assert_eq!(whole, vec![(0, 1), (2, 5), (6, 7)]);
}

#[test]
fn the_closing_bracket_is_found_past_nested_ones() {
    let input = Input::new("[ A , [ B ; 2 ] , ( C ) ] + [ D ]").unwrap();
    let n = input.len();
    assert_eq!(find_bracket_close(&input, 1, n), Ok(12));
    assert_eq!(find_bracket_close(&input, 15, n), Ok(16));
    let open = Input::new("[ A , ( B ] ; C").unwrap();
    assert_eq!(find_bracket_close(&open, 1, open.len()), Err(6));
    let broken = Input::new("[ A , B ; C ]").unwrap();
    assert_eq!(find_bracket_close(&broken, 1, broken.len()), Err(4));
    let wrong = Input::new("[ A )").unwrap();
    assert_eq!(find_bracket_close(&wrong, 1, wrong.len()), Err(2));
    let endless = Input::new("[ A , B").unwrap();
    assert_eq!(find_bracket_close(&endless, 1, endless.len()), Err(4));
}

#[test]
fn the_closing_angle_bracket_is_found_past_nested_ones() {
    let input = Input::new("< T : A < B > , F : Fn ( T ) -> U > Add").unwrap();
    assert_eq!(find_angle_close(&input, 1, input.len()), Ok(17));
    let nested = Input::new("< T : A < { 1 > 0 } > >").unwrap();
    assert_eq!(find_angle_close(&nested, 1, nested.len()), Ok(11));
    let endless = Input::new("< T Add for [ A ]").unwrap();
    assert_eq!(find_angle_close(&endless, 1, endless.len()), Err(7));
    let cut = Input::new("< T ; >").unwrap();
    assert_eq!(find_angle_close(&cut, 1, cut.len()), Err(2));
}

#[test]
fn fragments_span_their_tokens() {
    let input = Input::new("ab ,  c d , e").unwrap();
    let ps = split(&input, 0, input.len(), ',');
    assert_eq!(
        fragments(&input, &ps, ErrorCode::ExpectedType),
        Ok(vec![Span { start: 0, end: 2 }, Span { start: 6, end: 9 }, Span { start: 12, end: 13 }])
    );
    let gap = vec![Piece { lo: 0, hi: 1 }, Piece { lo: 1, hi: 1 }, Piece { lo: 3, hi: 3 }];
    assert_eq!(
        fragments(&input, &gap, ErrorCode::ExpectedGenericParam),
        Err(Diagnostic { code: ErrorCode::ExpectedGenericParam, span: Span { start: 3, end: 4 } })
    );
}

#[test]
fn lists_are_read_with_their_places() {
    let input = Input::new("impl<A, B> Add for [X, Y<Z>] + [W]").unwrap();
    let n = input.len();
    let g = parse_generics(&input, 1, n, Operation::Add).unwrap();
    assert_eq!(g.span, Span { start: 4, end: 10 });
    assert_eq!(g.items, vec![Span { start: 5, end: 6 }, Span { start: 8, end: 9 }]);
    assert_eq!(g.next, 6);
    let none = parse_generics(&input, 6, n, Operation::Add).unwrap();
    assert_eq!((none.items.len(), none.next, none.span), (0, 6, Span { start: 10, end: 10 }));
    let l = parse_type_list(&input, 8, n, Operation::Add).unwrap();
    assert_eq!(l.span, Span { start: 19, end: 28 });
    assert_eq!(l.items, vec![Span { start: 20, end: 21 }, Span { start: 23, end: 27 }]);
    assert_eq!(l.next, 16);
    assert_eq!(parse_type_list(&input, 7, n, Operation::Add).unwrap_err().code, ErrorCode::ExpectedOpenBracket);
}

#[test]
fn a_list_that_is_not_closed_ends_with_its_last_type() {
    let input = Input::new("[A,B-[C]").unwrap();
    let e = parse_type_list(&input, 0, input.len(), Operation::Sub).unwrap_err();
    assert_eq!(e, Diagnostic { code: ErrorCode::UnclosedBracket, span: Span { start: 4, end: 4 } });
    let e = parse_type_list(&input, 0, input.len(), Operation::Add).unwrap_err();
    assert_eq!(e, Diagnostic { code: ErrorCode::UnclosedBracket, span: Span { start: 8, end: 8 } });
    assert_eq!(find_symbol_break(&input, 1, input.len(), '-'), 4);
    assert_eq!(find_symbol_break(&input, 1, input.len(), '+'), input.len());
    let nested = Input::new("[A, (B - [C]), D - [E]").unwrap();
    assert_eq!(find_symbol_break(&nested, 1, nested.len(), '-'), 12);
    let generics = Input::new("impl<T: Sub, U Sub for [A] - [B]").unwrap();
    assert_eq!(find_operation_break(&generics, 2, generics.len(), "Sub"), 7);
    assert_eq!(find_operation_break(&generics, 2, generics.len(), "Add"), generics.len());
}

#[test]
fn an_outline_holds_the_places_of_all_parts() {
    let input = Input::new("impl<T> Mul for [A, B] * [C]").unwrap();
    let o = parse_outline(&input, 0, input.len(), Operation::Mul).unwrap();
    assert_eq!(o.impl_token, Span { start: 0, end: 4 });
    assert_eq!(o.generics, Span { start: 4, end: 7 });
    assert_eq!(o.params, vec![Span { start: 5, end: 6 }]);
    assert_eq!(o.trait_, Span { start: 8, end: 11 });
    assert_eq!(o.for_, Span { start: 12, end: 15 });
    assert_eq!(o.bracket1, Span { start: 16, end: 22 });
    assert_eq!(o.lhs, vec![Span { start: 17, end: 18 }, Span { start: 20, end: 21 }]);
    assert_eq!(o.symbol, Span { start: 23, end: 24 });
    assert_eq!(o.bracket2, Span { start: 25, end: 28 });
    assert_eq!(o.rhs, vec![Span { start: 26, end: 27 }]);
}

#[test]
fn an_outline_does_not_ask_whether_the_types_are_rust() {
    let input = Input::new("impl<+> Add for [7 7] + [..]").unwrap();
    assert!(parse_outline(&input, 0, input.len(), Operation::Add).is_ok());
}

fn outline_and_input(text: &str, op: Operation) -> (Input, vector_ops::outline::Outline) {
    let input = Input::new(text).unwrap();
    let o = parse_outline(&input, 0, input.len(), op).unwrap();
    (input, o)
}

#[test]
fn judging_asks_rust_about_every_item() {
    let (input, o) = outline_and_input("impl<'lhs, T, +> Add for [A, 7] + [fn, &B]", Operation::Add);
    let v = judge(&input, &o);
    assert!(matches!(&v.params[0], ParamShape::Region(name) if name == "lhs"));
    assert!(matches!(v.params[1], ParamShape::Plain));
    assert!(matches!(v.params[2], ParamShape::Rejected));
    assert_eq!(v.lhs, vec![true, false]);
    assert_eq!(v.rhs, vec![false, true]);
}

#[test]
fn assembling_goes_by_the_verdicts_it_is_given() {
    let text = "impl<'x, T> Sub for [A, B] - [C]";
    let verdicts = |params: Vec<ParamShape>, lhs: Vec<bool>, rhs: Vec<bool>| Verdicts { params, lhs, rhs };
    let build = |v: Verdicts| {
        let (input, o) = outline_and_input(text, Operation::Sub);
        Declaration::assemble(&input, o, &v, Operation::Sub)
    };
    let ok = build(verdicts(
        vec![ParamShape::Region("lhs".to_string()), ParamShape::Plain],
        vec![true, true],
        vec![true],
    ))
    .unwrap();
    assert!(ok.contains_lhs);
    assert_eq!(ok.generics.params[0].text, "'x");
    assert_eq!(ok.generics.params[0].scope.as_deref(), Some("lhs"));
    assert_eq!(ok.lhs_tys[1].text, "B");
    assert_eq!(ok.operation, Operation::Sub);

    let e = build(verdicts(vec![ParamShape::Plain, ParamShape::Rejected], vec![false, true], vec![false]))
        .unwrap_err();
    assert_eq!(e, Diagnostic { code: ErrorCode::InvalidGenericParam, span: Span { start: 9, end: 10 } });

    let e = build(verdicts(vec![ParamShape::Plain, ParamShape::Plain], vec![true, false], vec![false]))
        .unwrap_err();
    assert_eq!(e, Diagnostic { code: ErrorCode::InvalidType, span: Span { start: 24, end: 25 } });

    let e = build(verdicts(vec![ParamShape::Plain, ParamShape::Plain], vec![true, true], vec![false]))
        .unwrap_err();
    assert_eq!(e, Diagnostic { code: ErrorCode::InvalidType, span: Span { start: 30, end: 31 } });

    let e = build(verdicts(
        vec![ParamShape::Region("lhs".to_string()), ParamShape::Region("lhs".to_string())],
        vec![true, true],
        vec![true],
    ))
    .unwrap_err();
    assert_eq!(e, Diagnostic { code: ErrorCode::DuplicateLeftScope, span: Span { start: 4, end: 11 } });
}

#[test]
fn a_dot_product_does_not_check_its_regions() {
    let (input, o) = outline_and_input("impl<'lhs, 'lhs> Mul for [A] * [B]", Operation::Mul);
    let v = judge(&input, &o);
    let d = Declaration::assemble(&input, o, &v, Operation::Mul).unwrap();
    assert!(!d.contains_lhs);
    let input = Input::new("impl<'lhs, 'lhs> Mul for [A] * [B]").unwrap();
    assert!(ImplDotProductArg::parse(&input, 0, input.len()).is_ok());
}

#[test]
fn a_punctuated_sequence_is_read_piece_by_piece() {
    let input = Input::new("impl Sub for [A] - [B] ; #[mut_left] impl Sub for [C] - [D]").unwrap();
    let args = FullArg::<ImplVectorSubArg>::parse_as_punctuated(&input, 0, input.len(), ';').unwrap();
    assert_eq!(args.len(), 2);
    assert_eq!(args[1].arg.lhs_tys[0].text, "C");
    assert!(args[1].flags().mutate_left);
    let one = FullArg::<ImplVectorSubArg>::parse(&input, 0, 10).unwrap();
    assert_eq!(one.arg.rhs_tys[0].text, "B");
    let e = FullArg::<ImplVectorSubArg>::parse_as_punctuated(&input, 0, input.len(), ',').unwrap_err();
    assert_eq!(e.code, ErrorCode::UnexpectedToken);
    let e = FullArg::<ImplVectorSubArg>::parse(&input, 0, input.len()).unwrap_err();
    assert_eq!(e, Diagnostic { code: ErrorCode::UnexpectedToken, span: Span { start: 23, end: 24 } });
}

#[test]
fn a_document_allows_one_separator_after_its_last_value() {
    let with: Vec<FullArg<ImplVectorSubArg>> = parse_document("impl Sub for [A] - [B];", ';').unwrap();
    let without: Vec<FullArg<ImplVectorSubArg>> = parse_document("impl Sub for [A] - [B]", ';').unwrap();
    assert_eq!(with.len(), 1);
    assert_eq!(without.len(), 1);
    let e = parse_document::<FullArg<ImplVectorSubArg>>("impl Sub for [A] - [B] \u{0}", ';').unwrap_err();
    assert_eq!(e.code, ErrorCode::UnexpectedCharacter);
}

#[test]
fn texts_are_compared_by_their_characters() {
    assert!(same_text("mut_left", "mut_left"));
    assert!(!same_text("mut_left", "mut_lef"));
    assert!(same_text("", ""));
    assert_eq!(chars_of("a\u{e9}'"), vec!['a', '\u{e9}', '\'']);
    assert_eq!(tokenize(&chars_of("a b")).unwrap().len(), 2);
}
