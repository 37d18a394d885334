//! The identifier service: generation, validation, normalization, and the
//! region table.

use crate::checksum::{full_digits, lemma_full_digits_valid, valid_base};
use crate::segment::{
    grapheme_clusters, grapheme_digit, grapheme_is_digit, grapheme_val, graphemes_of,
};
use crate::structs::{Cpf, CpfUtils};
use crate::text::{
    dec_str, digit_str, digit_string, digit_val, is_digit_char, lemma_digit_char_val, parse_u64_bounded,
    parse_uint, spec_digit_char, u64_to_string, NumParseError,
};
use vstd::prelude::*;

verus! {

/// The raw eleven characters of the identifier derived from a base: its nine
/// digits followed by the two check digits, each as a character.
pub open spec fn raw_of(base: Seq<u8>) -> Seq<char> {
    digit_string(full_digits(base))
}

/// The formatted rendering of the identifier derived from a base: the raw
/// characters with a dot after the third and sixth digit and a dash before
/// the check digits.
pub open spec fn formatted_of(base: Seq<u8>) -> Seq<char> {
    let r = raw_of(base);
    r.subrange(0, 3) + seq!['.'] + r.subrange(3, 6) + seq!['.'] + r.subrange(6, 9) + seq!['-']
        + r.subrange(9, 11)
}

/// The region codes that each value of the ninth digit encodes.
pub open spec fn region_names(d: int) -> Seq<Seq<char>> {
    if d == 0 {
        seq!["RS"@]
    } else if d == 1 {
        seq!["DF"@, "GO"@, "MT"@, "MS"@, "TO"@]
    } else if d == 2 {
        seq!["AC"@, "AM"@, "AP"@, "PA"@, "RO"@, "RR"@]
    } else if d == 3 {
        seq!["CE"@, "MA"@, "PI"@]
    } else if d == 4 {
        seq!["AL"@, "PB"@, "PE"@, "RN"@]
    } else if d == 5 {
        seq!["BA"@, "SE"@]
    } else if d == 6 {
        seq!["MG"@]
    } else if d == 7 {
        seq!["ES"@, "RJ"@]
    } else if d == 8 {
        seq!["SP"@]
    } else {
        seq!["PR"@, "SC"@]
    }
}

/// Whether a character is one of the two separators of the formatted
/// rendering.
pub open spec fn is_sep(c: char) -> bool {
    c == '.' || c == '-'
}

/// A character sequence with every `.` and `-` removed.
pub open spec fn strip_fmt(s: Seq<char>) -> Seq<char>
    decreases s.len(),
{
    if s.len() == 0 {
        Seq::empty()
    } else {
        let rest = strip_fmt(s.drop_last());
        if is_sep(s.last()) {
            rest
        } else {
            rest.push(s.last())
        }
    }
}

/// Whether every character of a sequence is an ASCII decimal digit.
pub open spec fn all_digit_str(s: Seq<char>) -> bool {
    forall|i: int| 0 <= i < s.len() ==> is_digit_char(#[trigger] s[i])
}

/// The digit values of a sequence of digit characters.
pub open spec fn char_digit_vals(s: Seq<char>) -> Seq<u8> {
    Seq::new(s.len(), |i: int| digit_val(s[i]) as u8)
}

/// The digit values of the first nine grapheme clusters.
pub open spec fn first9_vals(gs: Seq<Seq<char>>) -> Seq<u8> {
    Seq::new(9, |i: int| grapheme_val(gs[i]))
}

/// Whether a candidate string is a valid identifier: stripped of separators
/// it has exactly eleven grapheme clusters, its first nine are single digits,
/// and the stripped string equals the raw identifier those nine digits derive.
pub open spec fn cpf_valid(s: Seq<char>) -> bool {
    let st = strip_fmt(s);
    let gs = graphemes_of(st);
    &&& gs.len() == 11
    &&& forall|i: int| 0 <= i < 9 ==> grapheme_is_digit(#[trigger] gs[i])
    &&& raw_of(first9_vals(gs)) == st
}

/// The reason a candidate string is rejected.
pub open spec fn validate_err_msg(s: Seq<char>) -> Seq<char> {
    let st = strip_fmt(s);
    let gs = graphemes_of(st);
    if gs.len() != 11 {
        "Invalid CPF. Must have 11 digits. It has "@ + dec_str(gs.len())
    } else if exists|i: int| 0 <= i < 9 && !grapheme_is_digit(#[trigger] gs[i]) {
        "Invalid character in CPF. Must have 11 digits."@
    } else {
        "Invalid CPF."@
    }
}

/// A generated identifier matches a base when its raw string, its formatted
/// string and its region codes all derive from that base.
pub open spec fn cpf_matches_base(c: Cpf, base: Seq<u8>) -> bool {
    &&& c.cpf@ == raw_of(base)
    &&& c.cpf_formatted@ == formatted_of(base)
    &&& c.cpf_state.deep_view() == region_names(base[8] as int)
}

/// What holds of any identifier that `generate_cpf` builds without a given
/// seed: it derives from some valid base, whose ninth digit is the requested
/// region code when one was given.
pub open spec fn gen_cpf_ok(c: Cpf, state_code: Option<u8>) -> bool {
    exists|base: Seq<u8>|
        valid_base(base) && cpf_matches_base(c, base) && (state_code matches Some(sc) ==> base[8]
            == sc)
}

/// Relies on `String::push`: appends the given character to the string.
#[verifier::external_body]
fn push_char(s: &mut String, c: char)
    ensures
        final(s)@ == old(s)@.push(c),
{
    s.push(c);
}

/// Removes every `.` and `-` from a candidate string.
pub fn strip_format(s: &str) -> (r: String)
    ensures
        r@ == strip_fmt(s@),
{
    let n = s.unicode_len();
    let mut out = String::new();
    let mut i: usize = 0;
    while i < n
        invariant
            i <= n,
            n == s@.len(),
            out@ == strip_fmt(s@.take(i as int)),
        decreases n - i,
    {
        let c = s.get_char(i);
        assert(s@.take(i + 1).drop_last() =~= s@.take(i as int));
        assert(s@.take(i + 1).last() == s@[i as int]);
        if !(c == '.' || c == '-') {
            push_char(&mut out, c);
        }
        i = i + 1;
    }
    assert(s@.take(n as int) =~= s@);
    out
}

/// Parses a region code: a decimal numeral that fits in a byte and is at most
/// nine; anything else is rejected with one fixed message.
pub fn parse_state_code(state_code: &str) -> (r: Result<u8, String>)
    ensures
        (parse_uint(state_code@, 255) matches Ok(v) && v <= 9) <==> r is Ok,
        r matches Ok(c) ==> parse_uint(state_code@, 255) == Ok::<int, NumParseError>(c as int),
        r matches Err(m) ==> m@ == "Invalid state code. Must be a number between 0 and 9."@,
{
    match parse_u64_bounded(state_code, 255) {
        Ok(v) => {
            if v > 9 {
                Err(String::from_str("Invalid state code. Must be a number between 0 and 9."))
            } else {
                Ok(v as u8)
            }
        },
        Err(_) => Err(String::from_str("Invalid state code. Must be a number between 0 and 9.")),
    }
}

/// Parses the requested quantity: absent means one; a numeral that does not
/// parse as a 32-bit count is rejected with the standard library's message
/// for its kind of failure.
pub fn quantity_to_u32(quantity: &Option<String>) -> (r: Result<u32, String>)
    ensures
        quantity is None ==> (r matches Ok(v) && v == 1),
        quantity matches Some(q) ==> match parse_uint(q@, u32::MAX as int) {
            Ok(v) => r matches Ok(w) && w as int == v,
            Err(e) => r matches Err(m) && m@ == crate::text::parse_err_msg(e),
        },
{
    match quantity {
        Some(q) => match parse_u64_bounded(q.as_str(), 0xffff_ffff) {
            Ok(v) => Ok(v as u32),
            Err(e) => Err(crate::text::parse_err_string(e)),
        },
        None => Ok(1),
    }
}

/// Parses an optional region code: absent stays absent; a present one must be
/// a digit from zero to nine, else the request is rejected.
pub fn get_state_code(state_code: &Option<String>) -> (r: Result<Option<u8>, String>)
    ensures
        state_code is None ==> (r matches Ok(c) && c is None),
        state_code matches Some(sc) ==> {
            &&& (parse_uint(sc@, 255) matches Ok(v) && v <= 9) <==> r is Ok
            &&& r matches Ok(c) ==> c matches Some(d) && parse_uint(sc@, 255) == Ok::<
                int,
                NumParseError,
            >(d as int) && d <= 9
            &&& r matches Err(m) ==> m@ == "Invalid state_code parameter."@
        },
{
    match state_code {
        Some(code) => match parse_state_code(code.as_str()) {
            Ok(code) => Ok(Some(code)),
            Err(_) => Err(String::from_str("Invalid state_code parameter.")),
        },
        None => Ok(None),
    }
}

/// The region codes encoded by the ninth character of a raw identifier
/// string, looked up by grapheme cluster as the table is defined.
pub fn cpf_state(cpf: &str) -> (r: Vec<String>)
    requires
        cpf@.len() >= 9,
        all_digit_str(cpf@),
    ensures
        r.deep_view() == region_names(digit_val(cpf@[8])),
{
    let gs = grapheme_clusters(cpf);
    assert(gs.deep_view().len() == gs@.len());
    assert(gs@[8]@ =~= seq![cpf@[8]]) by {
        assert(gs.deep_view()[8] == gs@[8]@);
        assert(gs.deep_view()[8] =~= seq![cpf@[8]]);
    }
    let g8 = &gs[8];
    let c = g8.as_str().get_char(0);
    assert(c == cpf@[8]);
    let u = c as u32;
    let d: u8 = (u - 48) as u8;
    assert(d == digit_val(cpf@[8]));
    let r: Vec<String> = match d {
        0 => vec![String::from_str("RS")],
        1 => vec![
            String::from_str("DF"),
            String::from_str("GO"),
            String::from_str("MT"),
            String::from_str("MS"),
            String::from_str("TO"),
        ],
        2 => vec![
            String::from_str("AC"),
            String::from_str("AM"),
            String::from_str("AP"),
            String::from_str("PA"),
            String::from_str("RO"),
            String::from_str("RR"),
        ],
        3 => vec![String::from_str("CE"), String::from_str("MA"), String::from_str("PI")],
        4 => vec![
            String::from_str("AL"),
            String::from_str("PB"),
            String::from_str("PE"),
            String::from_str("RN"),
        ],
        5 => vec![String::from_str("BA"), String::from_str("SE")],
        6 => vec![String::from_str("MG")],
        7 => vec![String::from_str("ES"), String::from_str("RJ")],
        8 => vec![String::from_str("SP")],
        _ => vec![String::from_str("PR"), String::from_str("SC")],
    };
    assert(r.deep_view() =~~= region_names(d as int));
    r
}

/// Generates the identifier of a base: a given seed is used verbatim;
/// otherwise nine random digits are drawn and a given region code overwrites
/// the ninth. The result carries the raw digits, the formatted rendering and
/// the region codes of the ninth digit.
pub fn generate_cpf(state_code: Option<u8>, validate_seed: Option<[u8; 9]>) -> (r: Cpf)
    requires
        state_code matches Some(c) ==> c < 10,
        validate_seed matches Some(s) ==> valid_base(s@),
    ensures
        validate_seed matches Some(s) ==> cpf_matches_base(r, s@),
        validate_seed is None ==> gen_cpf_ok(r, state_code),
        validate_seed is None ==> (state_code matches Some(c) ==> r.cpf@.len() == 11 && digit_val(
            r.cpf@[8],
        ) == c),
{
    let mut cpf_seed = CpfUtils::new(validate_seed, state_code);
    assert(valid_base(cpf_seed.seed@));
    cpf_seed.set_verifier_numbers();
    let verifiers = cpf_seed.get_verifier_numbers();
    let ghost base: Seq<u8> = cpf_seed.seed@;
    proof {
        lemma_full_digits_valid(base);
    }
    let mut digits: Vec<u8> = Vec::new();
    let mut i: usize = 0;
    while i < 9
        invariant
            i <= 9,
            base == cpf_seed.seed@,
            digits@ =~= base.take(i as int),
        decreases 9 - i,
    {
        digits.push(cpf_seed.seed[i]);
        assert(digits@ =~= base.take(i + 1));
        i = i + 1;
    }
    digits.push(verifiers[0]);
    digits.push(verifiers[1]);
    assert(digits@ =~= full_digits(base));
    let mut raw = String::new();
    let mut i: usize = 0;
    while i < 11
        invariant
            i <= 11,
            digits@ == full_digits(base),
            valid_base(base),
            forall|k: int| 0 <= k < 11 ==> digits@[k] < 10,
            raw@ =~= digit_string(digits@).take(i as int),
        decreases 11 - i,
    {
        raw.append(digit_str(digits[i]));
        assert(raw@ =~= digit_string(digits@).take(i + 1));
        i = i + 1;
    }
    assert(raw@ =~= raw_of(base));
    assert(all_digit_str(raw@));
    assert(vstd::utf8::is_ascii_chars(raw@)) by {
        assert(forall|k: int|
            0 <= k < raw@.len() ==> is_digit_char(#[trigger] raw@[k]) ==> '\0' <= raw@[k]
                <= '\u{7f}');
    }
    let raw_str = raw.as_str();
    let mut formatted = String::new();
    formatted.append(raw_str.substring_ascii(0, 3));
    formatted.append(".");
    formatted.append(raw_str.substring_ascii(3, 6));
    formatted.append(".");
    formatted.append(raw_str.substring_ascii(6, 9));
    formatted.append("-");
    formatted.append(raw_str.substring_ascii(9, 11));
    proof {
        reveal_strlit(".");
        reveal_strlit("-");
    }
    assert(formatted@ =~= formatted_of(base));
    let states = cpf_state(raw_str);
    proof {
        lemma_digit_char_val(base[8] as int);
        assert(raw@[8] == spec_digit_char(base[8] as int));
    }
    let result = Cpf { cpf: raw, cpf_formatted: formatted, cpf_state: states };
    proof {
        assert(cpf_matches_base(result, base));
        if validate_seed is None {
            assert(valid_base(base) && cpf_matches_base(result, base) && (
            state_code matches Some(sc) ==> base[8] == sc));
        }
    }
    result
}

/// Validates a candidate string: separators are stripped, the stripped
/// candidate must be exactly eleven grapheme clusters, its first nine must be
/// single digits, and the identifier regenerated from those nine digits must
/// equal the stripped candidate.
pub fn validate_cpf(cpf: &str) -> (r: Result<String, String>)
    ensures
        r is Ok <==> cpf_valid(cpf@),
        r matches Ok(m) ==> m@ == "Valid CPF."@,
        r matches Err(m) ==> m@ == validate_err_msg(cpf@),
        strip_fmt(cpf@).len() == 11 && all_digit_str(strip_fmt(cpf@)) ==> (r is Ok <==> raw_of(
            char_digit_vals(strip_fmt(cpf@).take(9)),
        ) == strip_fmt(cpf@)),
{
    let stripped = strip_format(cpf);
    let ghost st = strip_fmt(cpf@);
    let gs = grapheme_clusters(stripped.as_str());
    let ghost g = graphemes_of(st);
    assert(gs.deep_view().len() == gs@.len());
    proof {
        if st.len() == 11 && all_digit_str(st) {
            assert(g =~~= gs.deep_view());
        }
    }
    if gs.len() != 11 {
        let mut msg = String::from_str("Invalid CPF. Must have 11 digits. It has ");
        let count = u64_to_string(gs.len() as u64);
        msg.append(count.as_str());
        return Err(msg);
    }
    let mut seed: [u8; 9] = [0; 9];
    let mut i: usize = 0;
    while i < 9
        invariant
            i <= 9,
            st == strip_fmt(cpf@),
            g == graphemes_of(st),
            stripped@ == st,
            g == gs.deep_view(),
            g.len() == 11,
            gs@.len() == 11,
            all_digit_str(st) && st.len() == 11 ==> g =~~= Seq::new(
                st.len(),
                |k: int| seq![st[k]],
            ),
            forall|k: int|
                0 <= k < i ==> grapheme_is_digit(#[trigger] g[k]) && seed@[k] == grapheme_val(g[k]),
        decreases 9 - i,
    {
        assert(gs@[i as int]@ == g[i as int]);
        match grapheme_digit(gs[i].as_str()) {
            Some(d) => {
                seed[i] = d;
            },
            None => {
                proof {
                    assert(!grapheme_is_digit(g[i as int]));
                    assert(!grapheme_is_digit(graphemes_of(strip_fmt(cpf@))[i as int]));
                    assert(exists|k: int|
                        0 <= k < 9 && !grapheme_is_digit(
                            #[trigger] graphemes_of(strip_fmt(cpf@))[k],
                        ));
                    if cpf_valid(cpf@) {
                        assert(grapheme_is_digit(graphemes_of(strip_fmt(cpf@))[i as int]));
                    }
                    assert(validate_err_msg(cpf@)
                        == "Invalid character in CPF. Must have 11 digits."@);
                    if st.len() == 11 && all_digit_str(st) {
                        assert(g[i as int] =~= seq![st[i as int]]);
                        assert(false);
                    }
                }
                return Err(String::from_str("Invalid character in CPF. Must have 11 digits."));
            },
        }
        i = i + 1;
    }
    assert(seed@ =~= first9_vals(g));
    assert(valid_base(seed@)) by {
        assert(forall|k: int|
            0 <= k < 9 ==> grapheme_is_digit(#[trigger] g[k]) ==> grapheme_val(g[k]) < 10);
    }
    let generated = generate_cpf(None, Some(seed));
    proof {
        if st.len() == 11 && all_digit_str(st) {
            assert(seed@ =~= char_digit_vals(st.take(9)));
        }
    }
    if generated.cpf == stripped {
        Ok(String::from_str("Valid CPF."))
    } else {
        Err(String::from_str("Invalid CPF."))
    }
}

/// Stripping separators from a string that has none leaves it unchanged.
pub proof fn lemma_strip_all_digits_identity(s: Seq<char>)
    requires
        all_digit_str(s),
    ensures
        strip_fmt(s) == s,
    decreases s.len(),
{
    if s.len() == 0 {
        assert(strip_fmt(s) =~= s);
    } else {
        lemma_strip_all_digits_identity(s.drop_last());
        assert(!is_sep(s.last()));
        assert(strip_fmt(s) =~= s);
    }
}

/// The raw identifier of a valid base is eleven digit characters.
pub proof fn lemma_raw_of_digits(base: Seq<u8>)
    requires
        valid_base(base),
    ensures
        raw_of(base).len() == 11,
        all_digit_str(raw_of(base)),
{
    lemma_full_digits_valid(base);
    assert(forall|i: int|
        0 <= i < 11 ==> is_digit_char(#[trigger] raw_of(base)[i])) by {
        assert(forall|i: int|
            0 <= i < 11 ==> raw_of(base)[i] == spec_digit_char(#[trigger] full_digits(base)[i] as int));
    }
}

/// Round trip: the raw identifier generated from any valid base validates.
/// Stripping changes nothing in it, it is eleven digit characters, and the
/// identifier regenerated from its first nine digits is the identifier
/// itself, so `validate_cpf` accepts exactly it.
pub proof fn lemma_generate_validate_round_trip(base: Seq<u8>)
    requires
        valid_base(base),
    ensures
        strip_fmt(raw_of(base)) == raw_of(base),
        raw_of(base).len() == 11,
        all_digit_str(raw_of(base)),
        raw_of(char_digit_vals(raw_of(base).take(9))) == raw_of(base),
{
    lemma_raw_of_digits(base);
    lemma_strip_all_digits_identity(raw_of(base));
    lemma_full_digits_valid(base);
    assert(char_digit_vals(raw_of(base).take(9)) =~= base) by {
        assert(forall|k: int| 0 <= k < 9 ==> #[trigger] raw_of(base).take(9)[k]
            == spec_digit_char(base[k] as int));
        assert(forall|k: int| 0 <= k < 9 ==> digit_val(spec_digit_char(#[trigger] base[k] as int))
            == base[k]) by {
            assert(forall|d: int| 0 <= d < 10 ==> digit_val(#[trigger] spec_digit_char(d)) == d);
        }
    }
}

/// Stripping distributes over concatenation.
proof fn lemma_strip_concat(a: Seq<char>, b: Seq<char>)
    ensures
        strip_fmt(a + b) == strip_fmt(a) + strip_fmt(b),
    decreases b.len(),
{
    if b.len() == 0 {
        assert(a + b =~= a);
        assert(strip_fmt(a) + strip_fmt(b) =~= strip_fmt(a));
    } else {
        lemma_strip_concat(a, b.drop_last());
        assert((a + b).drop_last() =~= a + b.drop_last());
        assert((a + b).last() == b.last());
        if is_sep(b.last()) {
            assert(strip_fmt(a) + strip_fmt(b) =~= strip_fmt(a) + strip_fmt(b.drop_last()));
        } else {
            assert(strip_fmt(a) + strip_fmt(b) =~= (strip_fmt(a) + strip_fmt(b.drop_last())).push(
                b.last(),
            ));
        }
    }
}

/// The formatted rendering of a valid base strips back to the raw
/// identifier, so a formatted identifier validates exactly as the raw one
/// does.
pub proof fn lemma_formatted_strips_to_raw(base: Seq<u8>)
    requires
        valid_base(base),
    ensures
        strip_fmt(formatted_of(base)) == raw_of(base),
{
    lemma_raw_of_digits(base);
    let r = raw_of(base);
    let dot = seq!['.'];
    let dash = seq!['-'];
    assert(dot.drop_last() =~= Seq::<char>::empty());
    assert(dash.drop_last() =~= Seq::<char>::empty());
    assert(strip_fmt(Seq::<char>::empty()) =~= Seq::<char>::empty());
    assert(strip_fmt(dot) =~= Seq::<char>::empty());
    assert(strip_fmt(dash) =~= Seq::<char>::empty());
    lemma_strip_all_digits_identity(r.subrange(0, 3));
    lemma_strip_all_digits_identity(r.subrange(3, 6));
    lemma_strip_all_digits_identity(r.subrange(6, 9));
    lemma_strip_all_digits_identity(r.subrange(9, 11));
    lemma_strip_concat(r.subrange(0, 3), dot);
    lemma_strip_concat(r.subrange(0, 3) + dot, r.subrange(3, 6));
    lemma_strip_concat(r.subrange(0, 3) + dot + r.subrange(3, 6), dot);
    lemma_strip_concat(r.subrange(0, 3) + dot + r.subrange(3, 6) + dot, r.subrange(6, 9));
    lemma_strip_concat(
        r.subrange(0, 3) + dot + r.subrange(3, 6) + dot + r.subrange(6, 9),
        dash,
    );
    lemma_strip_concat(
        r.subrange(0, 3) + dot + r.subrange(3, 6) + dot + r.subrange(6, 9) + dash,
        r.subrange(9, 11),
    );
    assert(strip_fmt(formatted_of(base)) =~= r);
}

/// A requested region code survives generation: the ninth character of the
/// raw identifier of any base is the character of the base's ninth digit.
pub proof fn lemma_generate_region_digit(base: Seq<u8>)
    requires
        valid_base(base),
    ensures
        raw_of(base)[8] == spec_digit_char(base[8] as int),
        digit_val(raw_of(base)[8]) == base[8],
{
    lemma_full_digits_valid(base);
    lemma_digit_char_val(base[8] as int);
}

/// The region table is total: every digit maps to at least one region code.
pub proof fn lemma_region_table_total()
    ensures
        forall|d: int| 0 <= d <= 9 ==> #[trigger] region_names(d).len() >= 1,
{
}

/// The formatted rendering of a valid base always matches the fixed pattern:
/// fourteen characters, dots after the third and sixth digit, a dash before
/// the last two, digits everywhere else.
pub proof fn lemma_formatted_pattern(base: Seq<u8>)
    requires
        valid_base(base),
    ensures
        formatted_of(base).len() == 14,
        formatted_of(base)[3] == '.',
        formatted_of(base)[7] == '.',
        formatted_of(base)[11] == '-',
        forall|i: int|
            0 <= i < 14 && i != 3 && i != 7 && i != 11 ==> is_digit_char(
                #[trigger] formatted_of(base)[i],
            ),
{
    lemma_raw_of_digits(base);
}

} // verus!
