use cpf_gen::structs::Cpf;
use cpf_gen::utils::{generate_cpf, validate_cpf};
use unicode_segmentation::UnicodeSegmentation;

#[test]
fn test_generate_cpf_with_starting_seed() {
    assert_eq!(
        generate_cpf(None, Some([2, 8, 0, 0, 1, 2, 3, 8, 9])),
        Cpf {
            cpf: "28001238938".to_string(),
            cpf_formatted: "280.012.389-38".to_string(),
            cpf_state: vec!["PR".to_string(), "SC".to_string()],
        }
    );
}

#[test]
fn test_generate_cpf_with_state_code() {
    let cpf = generate_cpf(Some(9), None);
    assert_eq!(cpf.cpf.graphemes(true).nth(8).unwrap(), "9");
}

#[test]
fn test_validate_generated_cpf() {
    let cpf = generate_cpf(None, None);
    let result = validate_cpf(&cpf.cpf);
    assert_eq!(result.ok(), Some("Valid CPF.".to_string()));
}

#[test]
fn test_validate_cpf() {
    let result = validate_cpf("280.012.389-38");
    assert_eq!(result.ok(), Some("Valid CPF.".to_string()));
}

#[test]
fn test_validate_cpf_invalid() {
    let result = validate_cpf("280.012.389-33");
    assert_eq!(result.ok(), None);
}
