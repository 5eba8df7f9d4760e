//! Tag set and atom validation behaviour.

use fractal_algebra::atom::{AtomError, FractalAtom, Metadata, TagSet, TagSetError};
use fractal_algebra::traits::SemanticEq;

#[test]
fn new_empty_collection_returns_error() {
    let input: Vec<String> = vec![];
    assert_eq!(TagSet::new(input), Err(TagSetError::EmptyCollection));
}

#[test]
fn new_with_empty_string_tag_returns_error() {
    let input = vec!["".to_string()];
    assert_eq!(TagSet::new(input), Err(TagSetError::EmptyTag("".to_string())));
}

#[test]
fn new_with_whitespace_only_tag_returns_error() {
    let input = vec!["   ".to_string()];
    assert_eq!(TagSet::new(input), Err(TagSetError::EmptyTag("".to_string())));
}

#[test]
fn new_with_duplicate_tags_returns_error() {
    let input = vec!["apple".to_string(), "banana".to_string(), "apple".to_string()];
    assert_eq!(TagSet::new(input), Err(TagSetError::DuplicateTag("apple".to_string())));
}

#[test]
fn new_sorts_tags_successfully() {
    let raw = vec!["  zeta ".to_string(), "alpha".to_string(), "beta".to_string()];
    let tags = TagSet::new(raw).expect("should construct successfully");
    let collected: Vec<String> = tags.iter();
    assert_eq!(collected, vec!["alpha", "beta", "zeta"]);
}

#[test]
fn contains_finds_only_present_tags() {
    let tags = TagSet::new(vec!["water".to_string(), "fire".to_string()]).unwrap();
    assert!(tags.contains("water"));
    assert!(tags.contains("fire"));
    assert!(!tags.contains("earth"));
    assert_eq!(tags.len(), 2);
    assert!(!tags.is_empty());
}

#[test]
fn default_tag_set_holds_untagged() {
    let tags = TagSet::default();
    assert_eq!(tags.iter(), vec!["untagged".to_string()]);
}

#[test]
fn duplicate_after_trimming_is_detected() {
    let input = vec!["apple ".to_string(), " apple".to_string()];
    assert_eq!(TagSet::new(input), Err(TagSetError::DuplicateTag("apple".to_string())));
}

#[test]
fn metadata_validation_requires_domain() {
    let blank = Metadata { domain: "  ".to_string(), description: None };
    match blank.validate() {
        Err(AtomError::InvalidMetadata(m)) => assert_eq!(m, "Domain cannot be empty"),
        _ => panic!("blank domain must be refused"),
    }
    let ok = Metadata { domain: "physics".to_string(), description: None };
    assert!(ok.validate().is_ok());
}

#[test]
fn atom_construction_validates_parts() {
    let tags = TagSet::new(vec!["wave".to_string()]).unwrap();
    let meta = Metadata { domain: "physics".to_string(), description: Some("p".to_string()) };
    let atom = FractalAtom::new(7u64, tags, meta).expect("valid atom");
    assert_eq!(*atom.value(), 7u64);
    assert_eq!(atom.tags(), vec!["wave".to_string()]);
    assert_eq!(atom.metadata().domain, "physics");

    let tags2 = TagSet::new(vec!["wave".to_string()]).unwrap();
    let blank = Metadata { domain: "".to_string(), description: None };
    assert!(FractalAtom::new(7u64, tags2, blank).is_err());
}

#[test]
fn semantic_equality_ignores_values_and_domains() {
    let tags_a = TagSet::new(vec!["wave".to_string()]).unwrap();
    let tags_b = TagSet::new(vec!["wave".to_string()]).unwrap();
    assert!(tags_a.semantic_eq(&tags_b));

    let meta = |d: &str| Metadata {
        domain: d.to_string(),
        description: Some("same".to_string()),
    };
    let a = FractalAtom::new(1u64, tags_a, meta("physics")).unwrap();
    let b = FractalAtom::new(2u64, tags_b, meta("music")).unwrap();
    // Different values and domains, but the same description and tags.
    assert!(a.semantic_eq(&b));
}
