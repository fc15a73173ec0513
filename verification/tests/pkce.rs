use assinador::generate_code_verifier;
use assinador::pkce::{generate_pkce_challenge, verifier_from_indices};

#[test]
fn verifier_is_43_chars_and_unreserved() {
    let v = generate_code_verifier();
    assert_eq!(v.len(), 43);
    assert!(v.chars().all(|c| c.is_ascii_alphanumeric() || "-._~".contains(c)));
}

#[test]
fn challenge_matches_known_vector() {
    // RFC 7636 Appendix B.
    let verifier = "dBjftJeZ4CVP-mB92K27uhbUJU1p1r_wW1gFWFOEjXk";
    assert_eq!(
        generate_pkce_challenge(verifier),
        "E9Melhoa2OwvFrEMTJguCHaoeK1t8URWbuGJSstw-cM"
    );
}

#[test]
fn verifiers_differ_between_calls() {
    let a = generate_code_verifier();
    let b = generate_code_verifier();
    let c = generate_code_verifier();
    assert!(a != b || b != c);
}

#[test]
fn verifier_spells_its_indices() {
    let mut idx = vec![0usize; 43];
    idx[1] = 25;
    idx[2] = 26;
    idx[3] = 61;
    idx[4] = 62;
    idx[5] = 65;
    let v = verifier_from_indices(&idx);
    assert_eq!(v.len(), 43);
    assert!(v.starts_with("AZa9-~A"));
}
