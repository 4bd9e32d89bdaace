use vector_ops::diagnostic::{Diagnostic, ErrorCode, ErrorKind, Span};
use vector_ops::generics::{GenericParam, Generics};
use vector_ops::impl_vector_add::ImplVectorAdd;
use vector_ops::impl_vector_sub::ImplVectorSub;

fn region(name: &str) -> GenericParam {
    GenericParam { text: format!("'{}", name), scope: Some(name.to_string()) }
}

fn plain(text: &str) -> GenericParam {
    GenericParam { text: text.to_string(), scope: None }
}

fn list(params: Vec<GenericParam>) -> Generics {
    Generics { params, span: Span { start: 4, end: 20 } }
}

fn texts(g: &Generics) -> Vec<&str> {
    g.params.iter().map(|p| p.text.as_str()).collect()
}

#[test]
fn sanitize_says_whether_the_left_scope_is_declared() {
    assert_eq!(list(vec![plain("T")]).sanitize(), Ok(false));
    assert_eq!(list(vec![]).sanitize(), Ok(false));
    assert_eq!(list(vec![region("lhs"), plain("T")]).sanitize(), Ok(true));
    assert_eq!(list(vec![region("a"), region("rhs")]).sanitize(), Ok(false));
}

#[test]
fn two_left_scopes_are_fatal_at_the_list() {
    let g = list(vec![region("lhs"), plain("T"), region("lhs")]);
    let e = g.sanitize().unwrap_err();
    assert_eq!(e, Diagnostic { code: ErrorCode::DuplicateLeftScope, span: Span { start: 4, end: 20 } });
    assert_eq!(e.kind(), ErrorKind::Semantic);
    assert!(e.is_fatal());
    assert_eq!(e.message(""), "Duplicate definition of required lifetime `'lhs`");
}

#[test]
fn two_right_scopes_are_recorded_and_stop_nothing() {
    let g = list(vec![region("rhs"), region("rhs"), plain("T")]);
    assert_eq!(g.sanitize(), Ok(false));
    let report = g.report();
    assert_eq!(report.base.code, ErrorCode::GenericsProblem);
    assert_eq!(report.base.span, Span { start: 4, end: 20 });
    assert_eq!(
        report.attached,
        vec![Diagnostic { code: ErrorCode::DuplicateRightScope, span: Span { start: 4, end: 20 } }]
    );
    assert!(!report.is_clean());
    assert_eq!(report.attached[0].kind(), ErrorKind::Combined);
    assert!(!report.attached[0].is_fatal());
    assert_eq!(
        report.attached[0].message(""),
        "Duplicate definition of required lifetime `'rhs`"
    );
    assert_eq!(report.base.message(""), "Problem with generic arguments for implementation");
}

#[test]
fn two_left_scopes_are_fatal_even_beside_two_right_scopes() {
    let g = list(vec![region("rhs"), region("lhs"), region("rhs"), region("lhs")]);
    assert_eq!(g.sanitize().unwrap_err().code, ErrorCode::DuplicateLeftScope);
    assert_eq!(g.report().attached.len(), 1);
}

#[test]
fn a_single_right_scope_leaves_the_report_clean() {
    let g = list(vec![region("rhs"), region("lhs")]);
    assert!(g.report().is_clean());
}

#[test]
fn with_left_scope_adds_the_scope_once_at_the_end() {
    let g = list(vec![region("rhs"), plain("T")]);
    let found = g.sanitize().unwrap();
    let m = g.with_left_scope(found);
    assert_eq!(texts(&m), vec!["'rhs", "T", "'lhs"]);
    assert_eq!(m.span, g.span);
    let found_again = m.sanitize().unwrap();
    assert!(found_again);
    let m2 = m.with_left_scope(found_again);
    assert_eq!(texts(&m2), vec!["'rhs", "T", "'lhs"]);
    assert_eq!(m2.count_scope("lhs"), 1);
}

#[test]
fn rendering_puts_region_parameters_first() {
    let g = list(vec![plain("T: Clone"), region("rhs"), plain("const N: usize"), region("lhs")]);
    assert_eq!(g.render(), "<'rhs, 'lhs, T: Clone, const N: usize>");
    assert_eq!(list(vec![]).render(), "");
    assert_eq!(list(vec![plain("T")]).render(), "<T>");
}

#[test]
fn a_declaration_with_two_left_scopes_fails_at_its_parameter_list() {
    let text = "impl<'lhs, T, 'lhs> Sub for [A] - [B]";
    let e = ImplVectorSub::parse(text).unwrap_err();
    assert_eq!(e.code, ErrorCode::DuplicateLeftScope);
    assert_eq!(e.span, Span { start: 4, end: 19 });
    assert!(ImplVectorSub::generate(text).is_err());
}

#[test]
fn a_declaration_with_two_right_scopes_is_read() {
    let doc = ImplVectorAdd::parse("impl<'rhs, 'rhs, T> Add for [A] + [B]").unwrap();
    let arg = &doc.args[0].arg;
    assert_eq!(arg.sanitize_generics(), Ok(false));
    assert_eq!(arg.generics.report().attached.len(), 1);
    assert_eq!(doc.emit().len(), 4);
}

#[test]
fn a_declared_left_scope_is_not_added_again() {
    let doc = ImplVectorSub::parse("#[mut_left] impl<'lhs, T> Sub for [A] - [B]").unwrap();
    let arg = &doc.args[0].arg;
    assert!(arg.contains_lhs);
    assert_eq!(texts(&arg.mut_generics()), vec!["'lhs", "T"]);
    let units = doc.emit();
    assert_eq!(units.len(), 6);
    for u in &units {
        assert_eq!(texts(&u.generics), vec!["'lhs", "T"]);
    }
}

#[test]
fn the_region_name_is_the_one_that_rust_reads() {
    let doc = ImplVectorSub::parse("impl<'lhs: 'rhs, 'rhs, T: 'lhs> Sub for [A] - [B]").unwrap();
    let params = &doc.args[0].arg.generics.params;
    assert_eq!(params[0].scope.as_deref(), Some("lhs"));
    assert_eq!(params[0].text, "'lhs: 'rhs");
    assert_eq!(params[1].scope.as_deref(), Some("rhs"));
    assert_eq!(params[2].scope, None);
    assert!(doc.args[0].arg.contains_lhs);
}
