use cpf_gen::paths;
use cpf_gen::structs::{GenCpfInfo, ValidateCpf};
use cpf_gen::utils::{get_state_code, parse_state_code, quantity_to_u32};

#[test]
fn quantity_matches_std_parse() {
    let inputs = [
        "0", "1", "2000", "4294967295", "4294967296", "", "abc", "+7", "-0", "-5", " 5", "5 ",
        "007", "+", "-", "99999999999999999999",
    ];
    for s in inputs {
        let got = quantity_to_u32(&Some(s.to_string()));
        let want = s.parse::<u32>().map_err(|e| e.to_string());
        assert_eq!(got, want, "input {:?}", s);
    }
}

#[test]
fn quantity_defaults_to_one() {
    assert_eq!(quantity_to_u32(&None), Ok(1));
}

#[test]
fn quantity_error_messages() {
    assert_eq!(
        quantity_to_u32(&Some(String::new())).err().unwrap(),
        "cannot parse integer from empty string"
    );
    assert_eq!(
        quantity_to_u32(&Some("12x".to_string())).err().unwrap(),
        "invalid digit found in string"
    );
    assert_eq!(
        quantity_to_u32(&Some("4294967296".to_string())).err().unwrap(),
        "number too large to fit in target type"
    );
    assert_eq!(
        quantity_to_u32(&Some("-2".to_string())).err().unwrap(),
        "invalid digit found in string"
    );
}

#[test]
fn state_code_parsing() {
    assert_eq!(parse_state_code("0"), Ok(0));
    assert_eq!(parse_state_code("9"), Ok(9));
    assert_eq!(parse_state_code("+4"), Ok(4));
    let msg = "Invalid state code. Must be a number between 0 and 9.";
    assert_eq!(parse_state_code("10"), Err(msg.to_string()));
    assert_eq!(parse_state_code("255"), Err(msg.to_string()));
    assert_eq!(parse_state_code("256"), Err(msg.to_string()));
    assert_eq!(parse_state_code("-1"), Err(msg.to_string()));
    assert_eq!(parse_state_code("a"), Err(msg.to_string()));
    assert_eq!(parse_state_code(""), Err(msg.to_string()));
}

#[test]
fn optional_state_code() {
    assert_eq!(get_state_code(&None), Ok(None));
    assert_eq!(get_state_code(&Some("3".to_string())), Ok(Some(3)));
    assert_eq!(
        get_state_code(&Some("12".to_string())),
        Err("Invalid state_code parameter.".to_string())
    );
}

#[test]
fn bulk_request_is_clamped() {
    let query = GenCpfInfo {
        qtd: Some("2000".to_string()),
        state_code: None,
    };
    let resp = paths::new_cpf(&query).unwrap();
    assert_eq!(resp.quantity, Some(1000));
    assert_eq!(resp.cpfs.unwrap().len(), 1000);
    assert_eq!(resp.message, "1000 CPFs generated.");
    assert_eq!(resp.error, None);
}

#[test]
fn default_request_generates_one() {
    let query = GenCpfInfo {
        qtd: None,
        state_code: Some("5".to_string()),
    };
    let resp = paths::new_cpf(&query).unwrap();
    assert_eq!(resp.quantity, Some(1));
    let cpfs = resp.cpfs.unwrap();
    assert_eq!(cpfs.len(), 1);
    assert_eq!(cpfs[0].cpf.as_bytes()[8], b'5');
    assert_eq!(resp.message, "1 CPFs generated.");
}

#[test]
fn bad_quantity_is_rejected() {
    let query = GenCpfInfo {
        qtd: Some("lots".to_string()),
        state_code: None,
    };
    let resp = paths::new_cpf(&query).unwrap_err();
    assert_eq!(resp.cpfs, None);
    assert_eq!(resp.quantity, None);
    assert_eq!(resp.message, "Invalid state_code parameter.");
    assert_eq!(resp.error, Some("invalid digit found in string".to_string()));
}

#[test]
fn bad_state_code_is_rejected() {
    let query = GenCpfInfo {
        qtd: Some("3".to_string()),
        state_code: Some("12".to_string()),
    };
    let resp = paths::new_cpf(&query).unwrap_err();
    assert_eq!(resp.cpfs, None);
    assert_eq!(resp.quantity, None);
    assert_eq!(resp.message, "Invalid state_code parameter.");
    assert_eq!(resp.error, Some("Invalid state_code parameter.".to_string()));
}

#[test]
fn validate_route_without_parameter() {
    let resp = paths::validate_cpf(&ValidateCpf { cpf: None });
    assert!(!resp.is_valid);
    assert_eq!(
        resp.error,
        Some(
            "CPF not provided. Inform the cpf in the query params: '/validate-cpf?cpf=123456789012'"
                .to_string()
        )
    );
}

#[test]
fn validate_route_with_candidates() {
    let ok = paths::validate_cpf(&ValidateCpf {
        cpf: Some("280.012.389-38".to_string()),
    });
    assert!(ok.is_valid);
    assert_eq!(ok.error, None);

    let bad = paths::validate_cpf(&ValidateCpf {
        cpf: Some("280.012.389-33".to_string()),
    });
    assert!(!bad.is_valid);
    assert_eq!(bad.error, Some("Invalid CPF.".to_string()));
}
