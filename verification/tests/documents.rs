use vector_ops::diagnostic::{ErrorCode, ErrorKind, Operation, Span};
use vector_ops::emit::Ownership;
use vector_ops::impl_dot_prod::ImplDotProduct;
use vector_ops::impl_vector_add::ImplVectorAdd;
use vector_ops::impl_vector_sub::ImplVectorSub;

fn modes(units: &[vector_ops::emit::ImplUnit]) -> Vec<(Ownership, Ownership)> {
    units.iter().map(|u| (u.receiver, u.argument)).collect()
}

#[test]
fn addition_without_annotations_gives_four_implementations() {
    let doc = ImplVectorAdd::parse("impl<T: Clone+Add> Add for [A] + [B];").unwrap();
    assert_eq!(doc.args.len(), 1);
    let units = doc.emit();
    assert_eq!(
        modes(&units),
        vec![
            (Ownership::Owned, Ownership::Owned),
            (Ownership::Owned, Ownership::Ref),
            (Ownership::Ref, Ownership::Owned),
            (Ownership::Ref, Ownership::Ref),
        ]
    );
    for u in &units {
        assert_eq!(u.operation, Operation::Add);
        assert_eq!(u.lhs, "A");
        assert_eq!(u.rhs, "B");
        assert_eq!(u.generics.params.len(), 1);
        assert_eq!(u.generics.params[0].text, "T: Clone+Add");
        assert_eq!(u.generics.params[0].scope, None);
    }
}

#[test]
fn subtraction_with_mut_left_gives_six_implementations() {
    let doc = ImplVectorSub::parse("#[mut_left] impl<'rhs, T> Sub for [A] - [B];").unwrap();
    let arg = &doc.args[0];
    assert!(!arg.arg.contains_lhs);
    let units = doc.emit();
    assert_eq!(units.len(), 6);
    assert_eq!(
        modes(&units)[4..],
        [(Ownership::MutRef, Ownership::Owned), (Ownership::MutRef, Ownership::Ref)]
    );
    for u in &units[..4] {
        let names: Vec<&str> = u.generics.params.iter().map(|p| p.text.as_str()).collect();
        assert_eq!(names, vec!["'rhs", "T"]);
    }
    for u in &units[4..] {
        let names: Vec<&str> = u.generics.params.iter().map(|p| p.text.as_str()).collect();
        assert_eq!(names, vec!["'rhs", "T", "'lhs"]);
        assert_eq!(u.generics.params[2].scope.as_deref(), Some("lhs"));
    }
}

#[test]
fn missing_closing_bracket_is_one_syntax_error_after_the_last_type() {
    let text = "impl<T> Add for [A] + [B, C";
    let e = ImplVectorAdd::parse(text).unwrap_err();
    assert_eq!(e.code, ErrorCode::UnclosedBracket);
    assert_eq!(e.kind(), ErrorKind::Syntax);
    assert_eq!(e.span, Span { start: text.len(), end: text.len() });
}

#[test]
fn dot_product_reads_a_document_of_two_declarations() {
    let doc = ImplDotProduct::parse(
        "impl<T> Mul for [Vector<T>, &Vector<T>] * [Vector<T>]; #[mut_right] impl Mul for [P] * [Q]",
    )
    .unwrap();
    assert_eq!(doc.args.len(), 2);
    assert_eq!(doc.args[0].arg.lhs_tys[1].text, "&Vector<T>");
    let units = doc.emit();
    assert_eq!(units.len(), 2 * 4 + 6);
}

#[test]
fn a_text_that_is_no_type_is_refused() {
    let text = "impl<T> Add for [A, fn] + [B]";
    let e = ImplVectorAdd::parse(text).unwrap_err();
    assert_eq!(e.code, ErrorCode::InvalidType);
    assert_eq!(e.span, Span { start: 20, end: 22 });
}
