//! The responses of the two service routes, built from the raw query
//! parameters. An HTTP layer only extracts the parameters, calls these, and
//! serializes what they return.

use crate::structs::{Cpf, CpfGenResponse, GenCpfInfo, ValidateCpf, ValidateResponse};
use crate::text::{dec_str, parse_err_msg, parse_uint, u64_to_string, NumParseError};
use crate::utils::{
    cpf_valid, gen_cpf_ok, generate_cpf, get_state_code, quantity_to_u32, validate_err_msg,
};
use vstd::prelude::*;

verus! {

/// What parsing the optional quantity parameter gives: an absent parameter
/// means one identifier.
pub open spec fn qty_result(q: Option<String>) -> Result<int, NumParseError> {
    match q {
        None => Ok(1),
        Some(s) => parse_uint(s@, u32::MAX as int),
    }
}

/// Whether the optional region-code parameter is acceptable: absent, or a
/// numeral from zero to nine.
pub open spec fn state_ok(sc: Option<String>) -> bool {
    match sc {
        None => true,
        Some(s) => parse_uint(s@, 255) matches Ok(v) && v <= 9,
    }
}

/// The region digit an acceptable region-code parameter denotes.
pub open spec fn state_val(sc: Option<String>) -> Option<u8> {
    match sc {
        None => None,
        Some(s) => match parse_uint(s@, 255) {
            Ok(v) => Some(v as u8),
            Err(_) => None,
        },
    }
}

/// The requested quantity clamped to the bulk bound of one thousand.
pub open spec fn clamped(v: int) -> int {
    if v > 1000 {
        1000
    } else {
        v
    }
}

/// Builds the response of a generation request: parses the quantity (default
/// one, clamped to one thousand) and the optional region code, and generates
/// that many identifiers; a bad parameter gives the error response instead.
pub fn new_cpf(query_params: &GenCpfInfo) -> (r: Result<CpfGenResponse, CpfGenResponse>)
    ensures
        r is Ok <==> (qty_result(query_params.qtd) is Ok && state_ok(query_params.state_code)),
        r matches Ok(resp) ==> qty_result(query_params.qtd) matches Ok(v) && {
            let q = clamped(v);
            &&& resp.cpfs matches Some(list) && list@.len() == q && (forall|j: int|
                0 <= j < list@.len() ==> gen_cpf_ok(#[trigger] list@[j], state_val(query_params.state_code)))
            &&& resp.message@ == dec_str(q as nat) + " CPFs generated."@
            &&& resp.quantity == Some(q as u32)
            &&& resp.error is None
        },
        r matches Err(resp) ==> {
            &&& resp.cpfs is None
            &&& resp.quantity is None
            &&& resp.message@ == "Invalid state_code parameter."@
            &&& match qty_result(query_params.qtd) {
                Err(e) => resp.error matches Some(m) && m@ == parse_err_msg(e),
                Ok(_) => resp.error matches Some(m) && m@ == "Invalid state_code parameter."@,
            }
        },
{
    let qtd_value = match quantity_to_u32(&query_params.qtd) {
        Ok(v) => v,
        Err(e) => {
            return Err(
                CpfGenResponse {
                    cpfs: None,
                    message: String::from_str("Invalid state_code parameter."),
                    quantity: None,
                    error: Some(e),
                },
            );
        },
    };
    let state = match get_state_code(&query_params.state_code) {
        Ok(s) => s,
        Err(e) => {
            return Err(
                CpfGenResponse {
                    cpfs: None,
                    message: String::from_str("Invalid state_code parameter."),
                    quantity: None,
                    error: Some(e),
                },
            );
        },
    };
    assert(state == state_val(query_params.state_code));
    let q = if qtd_value > 1000 {
        1000
    } else {
        qtd_value
    };
    let mut cpfs: Vec<Cpf> = Vec::new();
    let mut i: u32 = 0;
    while i < q
        invariant
            i <= q,
            q <= 1000,
            cpfs@.len() == i,
            state matches Some(c) ==> c < 10,
            forall|j: int| 0 <= j < cpfs@.len() ==> gen_cpf_ok(#[trigger] cpfs@[j], state),
        decreases q - i,
    {
        cpfs.push(generate_cpf(state, None));
        i = i + 1;
    }
    let mut message = u64_to_string(q as u64);
    message.append(" CPFs generated.");
    Ok(
        CpfGenResponse {
            cpfs: Some(cpfs),
            message,
            quantity: Some(q),
            error: None,
        },
    )
}

/// Builds the response of a validation request: a missing parameter is
/// reported as such; otherwise the candidate is validated and a rejection
/// carries its reason.
pub fn validate_cpf(query: &ValidateCpf) -> (r: ValidateResponse)
    ensures
        query.cpf is None ==> (!r.is_valid && (r.error matches Some(m) && m@
            == "CPF not provided. Inform the cpf in the query params: '/validate-cpf?cpf=123456789012'"@)),
        query.cpf matches Some(c) ==> {
            &&& r.is_valid <==> cpf_valid(c@)
            &&& r.is_valid ==> r.error is None
            &&& !r.is_valid ==> (r.error matches Some(m) && m@ == validate_err_msg(c@))
        },
{
    let cpf_str = match &query.cpf {
        Some(c) => c,
        None => {
            return ValidateResponse {
                is_valid: false,
                error: Some(
                    String::from_str(
                        "CPF not provided. Inform the cpf in the query params: '/validate-cpf?cpf=123456789012'",
                    ),
                ),
            };
        },
    };
    match crate::utils::validate_cpf(cpf_str.as_str()) {
        Ok(_) => ValidateResponse { is_valid: true, error: None },
        Err(error_message) => ValidateResponse { is_valid: false, error: Some(error_message) },
    }
}

} // verus!
