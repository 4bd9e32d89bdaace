use vector_ops::diagnostic::{Diagnostic, ErrorCode, ErrorKind, Span};
use vector_ops::impl_vector_add::ImplVectorAdd;
use vector_ops::outline::weigh;
use vector_ops::rust::NESTING_LIMIT;
use vector_ops::sequence::Piece;
use vector_ops::token::Input;

fn weight(text: &str) -> usize {
    let input = Input::new(text).unwrap();
    weigh(&input, Piece { lo: 0, hi: input.len() })
}

#[test]
fn lists_weigh_nothing_and_nesting_weighs() {
    assert_eq!(weight("A"), 0);
    assert_eq!(weight("A + B + C"), 0);
    assert_eq!(weight("a::b::c, d"), 0);
    assert_eq!(weight("Vec<T>"), 1);
    assert_eq!(weight("&'a mut T"), 3);
    assert_eq!(weight("fn(A) -> B"), 2);
    assert_eq!(weight("[u8; 4]"), 2);
    assert_eq!(weight("dyn Fn(u8) -> u8 + Send + 'static"), 3);
    assert_eq!(weight("return return 1"), 2);
    assert_eq!(
        weight("T: core::ops::Add<Output = T> + core::ops::Sub<Output = T> + core::ops::Mul<Output = T> + Clone + Default"),
        6
    );
    assert_eq!(weight(""), 0);
}

#[test]
fn a_long_list_of_bounds_is_read() {
    let bounds = vec!["core::marker::Send"; 400].join(" + ");
    let text = format!("impl<T: {}> Add for [A] + [B]", bounds);
    let doc = ImplVectorAdd::parse(&text).unwrap();
    assert_eq!(doc.args[0].arg.generics.params[0].text.len(), 3 + bounds.len());
    let bounds = vec!["core::ops::Add<Output = T>"; 16].join(" + ");
    let text = format!("impl<T: {}> Add for [A] + [B]", bounds);
    assert!(ImplVectorAdd::parse(&text).is_ok());
    let text = "impl<T: core::ops::Add<Output = T> + core::ops::Sub<Output = T> + core::ops::Mul<Output = T> + Clone + Default> Add for [A] + [B]";
    assert!(ImplVectorAdd::parse(text).is_ok());
    let types = vec!["Vector<T>"; 300].join(", ");
    let text = format!("impl<T> Add for [{}] + [B]", types);
    assert_eq!(ImplVectorAdd::parse(&text).unwrap().args[0].arg.lhs_tys.len(), 300);
}

#[test]
fn nesting_up_to_the_limit_is_read() {
    assert_eq!(NESTING_LIMIT, 32);
    let text = format!("impl Add for [{}A] + [B]", "&".repeat(32));
    let doc = ImplVectorAdd::parse(&text).unwrap();
    assert_eq!(doc.args[0].arg.lhs_tys[0].text.len(), 33);
}

#[test]
fn nesting_beyond_the_limit_is_refused_without_being_parsed() {
    let text = format!("impl Add for [A, {}B] + [C]", "&".repeat(33));
    let e = ImplVectorAdd::parse(&text).unwrap_err();
    assert_eq!(e, Diagnostic { code: ErrorCode::NestedTooDeep, span: Span { start: 17, end: 51 } });
    assert_eq!(e.kind(), ErrorKind::Syntax);
    assert_eq!(e.message(&text), "type or generic parameter nested too deep");
    let deep = format!("impl Add for [{}A] + [B]", "&".repeat(100_000));
    assert_eq!(ImplVectorAdd::parse(&deep).unwrap_err().code, ErrorCode::NestedTooDeep);
    let deep = format!("impl<T: {}A{}> Add for [X] + [B]", "V<".repeat(33), ">".repeat(33));
    assert_eq!(ImplVectorAdd::parse(&deep).unwrap_err().code, ErrorCode::NestedTooDeep);
    let deep = format!("impl Add for [[u8; {}1]] + [B]", "return ".repeat(33));
    assert_eq!(ImplVectorAdd::parse(&deep).unwrap_err().code, ErrorCode::NestedTooDeep);
}

#[test]
fn an_empty_type_is_reported_before_one_that_nests_too_deep() {
    let text = format!("impl Add for [, {}B] + [C]", "&".repeat(60));
    assert_eq!(ImplVectorAdd::parse(&text).unwrap_err().code, ErrorCode::ExpectedType);
    let text = format!("impl Add for [{}B, ] + [C]", "&".repeat(60));
    assert_eq!(ImplVectorAdd::parse(&text).unwrap_err().code, ErrorCode::NestedTooDeep);
}

fn parses(text: String) -> bool {
    let r = ImplVectorAdd::parse(&text);
    match &r {
        Ok(_) => true,
        Err(e) => {
            assert_ne!(e.code, ErrorCode::NestedTooDeep, "{}", text);
            false
        }
    }
}

#[test]
fn the_deepest_types_within_the_limit_are_parsed() {
    assert!(parses(format!("impl Add for [{}A] + [B]", "&".repeat(32))));
    assert!(parses(format!("impl Add for [{}A] + [B]", "&'a mut ".repeat(10))));
    assert!(parses(format!("impl Add for [{}A] + [B]", "*const ".repeat(31))));
    assert!(parses(format!("impl Add for [{}A{}] + [B]", "(".repeat(32), ")".repeat(32))));
    assert!(parses(format!("impl Add for [{}A{}] + [B]", "[".repeat(32), "]".repeat(32))));
    assert!(parses(format!("impl Add for [{}A{}] + [B]", "V<".repeat(32), ">".repeat(32))));
    assert!(parses(format!("impl Add for [{}A] + [B]", "fn()->".repeat(16))));
    assert!(parses(format!("impl Add for [{}A{}] + [B]", "<".repeat(8), " as T>::U".repeat(8))));
    assert!(parses(format!("impl Add for [{}A{}] + [B]", "impl F<".repeat(16), ">".repeat(16))));
}

#[test]
fn the_deepest_expressions_within_the_limit_are_parsed() {
    assert!(parses(format!("impl Add for [[u8; {}1]] + [B]", "-".repeat(30))));
    assert!(parses(format!("impl Add for [[u8; {}1]] + [B]", "!".repeat(30))));
    assert!(parses(format!("impl Add for [[u8; {}1{}]] + [B]", "(".repeat(30), ")".repeat(30))));
    assert!(parses(format!("impl Add for [[u8; {}1{}]] + [B]", "{".repeat(30), "}".repeat(30))));
    assert!(parses(format!("impl Add for [V<{}1{}>] + [B]", "{".repeat(31), "}".repeat(31))));
    let _ = parses(format!("impl Add for [[u8; {}1]] + [B]", "return ".repeat(30)));
    let _ = parses(format!("impl Add for [[u8; {}1]] + [B]", "&".repeat(30)));
    let _ = parses(format!("impl Add for [[u8; {}1]] + [B]", "a = ".repeat(15)));
    let _ = parses(format!("impl Add for [[u8; {}1]] + [B]", "||".repeat(15)));
    let _ = parses(format!("impl Add for [[u8; {}1]] + [B]", "if a {} else ".repeat(9)));
    let _ = parses(format!("impl Add for [[u8; 1 {}]] + [B]", "+ 1".repeat(2000)));
}

#[test]
fn the_deepest_generic_parameters_within_the_limit_are_parsed() {
    assert!(parses(format!("impl<T: {}A{}> Add for [X] + [B]", "V<".repeat(32), ">".repeat(32))));
    let _ = parses(format!("impl<T: {}A{}> Add for [X] + [B]", "(".repeat(32), ")".repeat(32)));
    assert!(parses(format!("impl<T = {}A> Add for [X] + [B]", "&".repeat(31))));
    assert!(parses(format!("impl<const N: usize = {{ {}1 }}> Add for [X] + [B]", "-".repeat(28))));
    assert!(parses(format!("impl<{}T> Add for [X] + [B]", "#[a] ".repeat(16))));
}
