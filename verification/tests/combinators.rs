use graph_morphisms::morphisms::{IdentityMorphism, IsomorphismVerifier, MorphismComposition};

#[test]
fn identity_returns_its_argument() {
    assert_eq!(IdentityMorphism::map(42u32), 42);
    assert_eq!(IdentityMorphism::map("graph"), "graph");
    assert_eq!(IdentityMorphism::map(vec![1, 2, 3]), vec![1, 2, 3]);
}

#[test]
fn compose_runs_the_first_then_the_second() {
    let double_then_succ = MorphismComposition::compose(|x: u32| x * 2, |y: u32| y + 1);
    assert_eq!(double_then_succ(5), 11);
    let succ_then_double = MorphismComposition::compose(|x: u32| x + 1, |y: u32| y * 2);
    assert_eq!(succ_then_double(5), 12);
}

#[test]
fn compose_passes_through_an_intermediate_type() {
    let length_is_even = MorphismComposition::compose(|s: &str| s.len(), |n: usize| n % 2 == 0);
    assert!(length_is_even("edge"));
    assert!(!length_is_even("node!"));
}

#[test]
fn compose_can_be_called_again() {
    let h = MorphismComposition::compose(|x: i64| x - 3, |y: i64| y * y);
    assert_eq!(h(3), 0);
    assert_eq!(h(5), 4);
    assert_eq!(h(5), 4);
}

#[test]
fn compose_with_identity_changes_nothing() {
    let left = MorphismComposition::compose(IdentityMorphism::map::<u8>, |x: u8| x / 2);
    let right = MorphismComposition::compose(|x: u8| x / 2, IdentityMorphism::map::<u8>);
    for x in [0u8, 1, 7, 255] {
        assert_eq!(left(x), x / 2);
        assert_eq!(right(x), x / 2);
    }
}

#[test]
fn compose_is_associative_on_samples() {
    let f = |x: i32| x + 1;
    let g = |x: i32| x * 3;
    let h = |x: i32| x - 7;
    let left = MorphismComposition::compose(MorphismComposition::compose(f, g), h);
    let right = MorphismComposition::compose(f, MorphismComposition::compose(g, h));
    for x in [-4, 0, 9] {
        assert_eq!(left(x), right(x));
        assert_eq!(left(x), (x + 1) * 3 - 7);
    }
}

#[test]
fn inverse_pair_is_verified() {
    let verified = IsomorphismVerifier::verify_isomorphism(|a: i32| a + 1, |b: i32| b - 1, 10, 20);
    assert!(verified);
}

#[test]
fn inverse_pair_between_two_types_is_verified() {
    let to_text = |n: u32| n.to_string();
    let to_number = |s: String| s.parse::<u32>().unwrap();
    assert!(IsomorphismVerifier::verify_isomorphism(to_text, to_number, 17, String::from("4")));
}

#[test]
fn round_trip_that_loses_b_is_rejected() {
    // g(f(3)) = 3, but f(g(3)) = f(1) = 2
    let verified = IsomorphismVerifier::verify_isomorphism(|a: u32| a * 2, |b: u32| b / 2, 3, 3);
    assert!(!verified);
}

#[test]
fn round_trip_that_loses_a_is_rejected() {
    // f(g(4)) = f(8) = 4, but g(f(3)) = g(1) = 2
    let verified = IsomorphismVerifier::verify_isomorphism(|a: u32| a / 2, |b: u32| b * 2, 3, 4);
    assert!(!verified);
}

#[test]
fn verification_holds_only_at_the_sample_points() {
    let halve = |a: u32| a / 2;
    let double = |b: u32| b * 2;
    assert!(IsomorphismVerifier::verify_isomorphism(halve, double, 4, 4));
    assert!(!IsomorphismVerifier::verify_isomorphism(halve, double, 5, 4));
}

#[test]
fn identity_is_its_own_inverse() {
    assert!(IsomorphismVerifier::verify_isomorphism(
        IdentityMorphism::map::<char>,
        IdentityMorphism::map::<char>,
        'a',
        'b'
    ));
}
