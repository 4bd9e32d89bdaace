use vector_ops::attributes::{Annotation, AttrIdentFilter};
use vector_ops::diagnostic::Span;

fn note(name: &str, at: usize) -> Annotation {
    Annotation { name: name.to_string(), flag: None, span: Span { start: at, end: at + 1 } }
}

fn names(attrs: &[Annotation]) -> Vec<(String, usize)> {
    attrs.iter().map(|a| (a.name.clone(), a.span.start)).collect()
}

#[test]
fn filter_splits_into_matches_and_misses_in_order() {
    let attrs = vec![note("doc", 0), note("mut_left", 1), note("inline", 2), note("mut_right", 3)];
    let f = AttrIdentFilter::filter(attrs, vec!["mut_right", "mut_left"]);
    assert_eq!(
        names(&f.matches()),
        vec![("mut_left".to_string(), 1), ("mut_right".to_string(), 3)]
    );
    assert_eq!(names(&f.misses()), vec![("doc".to_string(), 0), ("inline".to_string(), 2)]);
    assert_eq!(f.base_attrs.len(), 4);
    assert_eq!(names(f.base()), names(&f.base_attrs));
}

#[test]
fn filter_with_no_references_misses_everything() {
    let f = AttrIdentFilter::filter(vec![note("mut_left", 0)], vec![]);
    assert!(f.matches().is_empty());
    assert_eq!(f.misses().len(), 1);
}

#[test]
fn refilter_classifies_the_same_annotations_against_another_list() {
    let attrs = vec![note("mut_left", 0), note("mut_only", 1)];
    let first = AttrIdentFilter::filter(attrs, vec!["mut_left"]);
    let second = first.refilter(vec!["mut_only"]);
    assert_eq!(names(&second.matches()), vec![("mut_only".to_string(), 1)]);
    assert_eq!(names(&second.misses()), vec![("mut_left".to_string(), 0)]);
    let again = second.refilter(vec!["mut_left"]);
    assert_eq!(names(&again.matches()), names(&first.matches()));
    assert_eq!(names(&again.misses()), names(&first.misses()));
}

#[test]
fn match_against_finds_a_single_annotation() {
    let f = AttrIdentFilter::filter(vec![note("mut_left", 0), note("doc", 1)], vec![]);
    assert!(f.match_against("mut_left", false));
    assert!(f.match_against("mut_left", true));
    assert!(!f.match_against("mut_right", false));
    assert!(!f.match_against("mut_right", true));
}

#[test]
fn match_against_counts_a_duplicate_as_absent_unless_allowed() {
    let f = AttrIdentFilter::filter(vec![note("mut_left", 0), note("mut_left", 1)], vec![]);
    assert!(!f.match_against("mut_left", false));
    assert!(f.match_against("mut_left", true));
}

#[test]
fn match_against_compares_names_exactly() {
    let f = AttrIdentFilter::filter(vec![note("Mut_left", 0), note("mut_lef", 1)], vec![]);
    assert!(!f.match_against("mut_left", true));
}

#[test]
fn a_flag_does_not_change_the_name_an_annotation_matches() {
    let flagged = Annotation {
        name: "mut_only".to_string(),
        flag: Some("no_std".to_string()),
        span: Span { start: 0, end: 18 },
    };
    let f = AttrIdentFilter::filter(vec![flagged], vec!["mut_only"]);
    assert_eq!(f.matches().len(), 1);
    assert_eq!(f.matches()[0].flag.as_deref(), Some("no_std"));
}
