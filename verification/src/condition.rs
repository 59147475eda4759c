use vstd::prelude::*;

use vstd::string::StrSliceExecFns;
use vstd::utf8::encode_utf8;

verus! {

/// A decoded scale token, e.g. "1ms" per division. The numeric value is kept
/// in hundredths so that the fractional grammar forms ("0.5") need no
/// floating point: value_centi 150 stands for one and a half. unit_mult is
/// the documented multiplier of the unit token: 1 for "s" and "V", 1000 for
/// "ms" and "mV", 1000000 for "us" and "uV".
#[derive(Clone, Debug)]
pub struct ValueUnitPair {
    pub value_centi: u32,
    pub unit_mult: u32,
    pub unit_name: String,
}

/// The mathematical content of a ValueUnitPair.
pub struct ValueUnitModel {
    pub value_centi: int,
    pub unit_mult: int,
    pub unit_name: Seq<char>,
}

impl View for ValueUnitPair {
    type V = ValueUnitModel;

    open spec fn view(&self) -> ValueUnitModel {
        ValueUnitModel {
            value_centi: self.value_centi as int,
            unit_mult: self.unit_mult as int,
            unit_name: self.unit_name@,
        }
    }
}

impl Default for ValueUnitPair {
    fn default() -> (r: Self)
        ensures
            r.value_centi == 0,
            r.unit_mult == 0,
            r.unit_name@ == Seq::<char>::empty(),
    {
        ValueUnitPair { value_centi: 0, unit_mult: 0, unit_name: String::new() }
    }
}

/// Byte of an ASCII decimal digit.
pub open spec fn is_digit(b: u8) -> bool {
    48 <= b <= 57
}

/// Numeric value of an ASCII digit byte.
pub open spec fn digit_val(b: u8) -> int {
    b - 48
}

/// A unit token of the grammar, as matched at some position.
pub struct UnitToken {
    pub len: int,
    pub mult: int,
    pub name: Seq<char>,
}

/// The unit token beginning at position i, if any. The alternatives are
/// tried in the grammar's order mV, V, uV, s, ms, us, so "mV" wins over "V"
/// where both would match.
pub open spec fn unit_token_at(b: Seq<u8>, i: int) -> Option<UnitToken> {
    if i < 0 {
        None
    } else if i + 2 <= b.len() && b[i] == 109 && b[i + 1] == 86 {  // "mV"
        Some(UnitToken { len: 2, mult: 1000, name: seq!['m', 'V'] })
    } else if i + 1 <= b.len() && b[i] == 86 {  // "V"
        Some(UnitToken { len: 1, mult: 1, name: seq!['V'] })
    } else if i + 2 <= b.len() && b[i] == 117 && b[i + 1] == 86 {  // "uV"
        Some(UnitToken { len: 2, mult: 1000000, name: seq!['u', 'V'] })
    } else if i + 1 <= b.len() && b[i] == 115 {  // "s"
        Some(UnitToken { len: 1, mult: 1, name: seq!['s'] })
    } else if i + 2 <= b.len() && b[i] == 109 && b[i + 1] == 115 {  // "ms"
        Some(UnitToken { len: 2, mult: 1000, name: seq!['m', 's'] })
    } else if i + 2 <= b.len() && b[i] == 117 && b[i + 1] == 115 {  // "us"
        Some(UnitToken { len: 2, mult: 1000000, name: seq!['u', 's'] })
    } else {
        None
    }
}

/// Length of the digit run beginning at i, capped at three (the longest
/// integer form of the grammar).
pub open spec fn digit_run3(b: Seq<u8>, i: int) -> int {
    if !(0 <= i < b.len() && is_digit(b[i])) {
        0
    } else if !(i + 1 < b.len() && is_digit(b[i + 1])) {
        1
    } else if !(i + 2 < b.len() && is_digit(b[i + 2])) {
        2
    } else {
        3
    }
}

/// Length of the digit run beginning at i, capped at two (the longest
/// fractional part of the grammar).
pub open spec fn digit_run2(b: Seq<u8>, i: int) -> int {
    if !(0 <= i < b.len() && is_digit(b[i])) {
        0
    } else if !(i + 1 < b.len() && is_digit(b[i + 1])) {
        1
    } else {
        2
    }
}

/// The integer form matches at i: one to three digits immediately followed by
/// a unit token. A longer digit run cannot back off to a shorter one, since
/// no unit token starts with a digit.
pub open spec fn int_match_at(b: Seq<u8>, i: int) -> bool {
    digit_run3(b, i) >= 1 && unit_token_at(b, i + digit_run3(b, i)) is Some
}

/// Value, in hundredths, of the integer form at i.
pub open spec fn int_value_centi_at(b: Seq<u8>, i: int) -> int {
    let l = digit_run3(b, i);
    if l == 1 {
        100 * digit_val(b[i])
    } else if l == 2 {
        100 * (10 * digit_val(b[i]) + digit_val(b[i + 1]))
    } else {
        100 * (100 * digit_val(b[i]) + 10 * digit_val(b[i + 1]) + digit_val(b[i + 2]))
    }
}

/// The fractional form matches at i: the two bytes "0." then one or two
/// digits, immediately followed by a unit token.
pub open spec fn frac_match_at(b: Seq<u8>, i: int) -> bool {
    &&& 0 <= i
    &&& i + 1 < b.len()
    &&& b[i] == 48  // '0'
    &&& b[i + 1] == 46  // '.'
    &&& digit_run2(b, i + 2) >= 1
    &&& unit_token_at(b, i + 2 + digit_run2(b, i + 2)) is Some
}

/// Value, in hundredths, of the fractional form at i.
pub open spec fn frac_value_centi_at(b: Seq<u8>, i: int) -> int {
    if digit_run2(b, i + 2) == 1 {
        10 * digit_val(b[i + 2])
    } else {
        10 * digit_val(b[i + 2]) + digit_val(b[i + 3])
    }
}

/// The grammar matches at position i: a value form immediately followed by a
/// unit token. The integer form is the preferred alternative.
pub open spec fn match_at(b: Seq<u8>, i: int) -> bool {
    int_match_at(b, i) || frac_match_at(b, i)
}

/// Where the unit token of the match at i begins.
pub open spec fn unit_pos_at(b: Seq<u8>, i: int) -> int {
    if int_match_at(b, i) {
        i + digit_run3(b, i)
    } else {
        i + 2 + digit_run2(b, i + 2)
    }
}

/// The decoded pair of the match at position i.
pub open spec fn match_model_at(b: Seq<u8>, i: int) -> ValueUnitModel {
    let tok = unit_token_at(b, unit_pos_at(b, i))->Some_0;
    ValueUnitModel {
        value_centi: if int_match_at(b, i) {
            int_value_centi_at(b, i)
        } else {
            frac_value_centi_at(b, i)
        },
        unit_mult: tok.mult,
        unit_name: tok.name,
    }
}

/// The leftmost position at or after i where the grammar matches.
pub open spec fn first_match_from(b: Seq<u8>, i: int) -> Option<int>
    decreases b.len() - i,
    when 0 <= i
{
    if i >= b.len() {
        None
    } else if match_at(b, i) {
        Some(i)
    } else {
        first_match_from(b, i + 1)
    }
}

/// What parse_unit returns, as a function of the raw bytes of its input:
/// the decoded pair of the leftmost grammar match, if the text has one.
pub open spec fn parse_unit_spec(b: Seq<u8>) -> Option<ValueUnitModel> {
    match first_match_from(b, 0) {
        None => None,
        Some(i) => Some(match_model_at(b, i)),
    }
}

/// Matches a unit token at position i, handing back its byte length, its
/// documented multiplier and its name.
fn unit_token_exec(b: &Vec<u8>, i: usize) -> (r: Option<(usize, u32, String)>)
    requires
        i <= b@.len(),
    ensures
        r is Some <==> unit_token_at(b@, i as int) is Some,
        r matches Some((l, m, name)) ==> {
            let tok = unit_token_at(b@, i as int)->Some_0;
            l == tok.len && m == tok.mult && name@ == tok.name
        },
{
    let two = i < b.len() && i + 1 < b.len();
    if two && b[i] == 109 && b[i + 1] == 86 {
        let name = String::from_str("mV");
        proof {
            reveal_strlit("mV");
            assert(name@ =~= seq!['m', 'V']);
        }
        Some((2, 1000, name))
    } else if i < b.len() && b[i] == 86 {
        let name = String::from_str("V");
        proof {
            reveal_strlit("V");
            assert(name@ =~= seq!['V']);
        }
        Some((1, 1, name))
    } else if two && b[i] == 117 && b[i + 1] == 86 {
        let name = String::from_str("uV");
        proof {
            reveal_strlit("uV");
            assert(name@ =~= seq!['u', 'V']);
        }
        Some((2, 1000000, name))
    } else if i < b.len() && b[i] == 115 {
        let name = String::from_str("s");
        proof {
            reveal_strlit("s");
            assert(name@ =~= seq!['s']);
        }
        Some((1, 1, name))
    } else if two && b[i] == 109 && b[i + 1] == 115 {
        let name = String::from_str("ms");
        proof {
            reveal_strlit("ms");
            assert(name@ =~= seq!['m', 's']);
        }
        Some((2, 1000, name))
    } else if two && b[i] == 117 && b[i + 1] == 115 {
        let name = String::from_str("us");
        proof {
            reveal_strlit("us");
            assert(name@ =~= seq!['u', 's']);
        }
        Some((2, 1000000, name))
    } else {
        None
    }
}

/// Length of the digit run at i, capped at three.
fn digit_run3_exec(b: &Vec<u8>, i: usize) -> (r: usize)
    requires
        i < b@.len(),
    ensures
        r == digit_run3(b@, i as int),
        i + r <= b@.len(),
{
    let len = b.len();
    if !(b[i] >= 48 && b[i] <= 57) {
        0
    } else if !(i + 1 < len && b[i + 1] >= 48 && b[i + 1] <= 57) {
        1
    } else if !(i + 2 < len && b[i + 2] >= 48 && b[i + 2] <= 57) {
        2
    } else {
        3
    }
}

/// Length of the digit run at i, capped at two; i may point past the end.
fn digit_run2_exec(b: &Vec<u8>, i: usize) -> (r: usize)
    requires
        i <= b@.len(),
    ensures
        r == digit_run2(b@, i as int),
        i + r <= b@.len(),
{
    if i < b.len() && b[i] >= 48 && b[i] <= 57 {
        if i + 1 < b.len() && b[i + 1] >= 48 && b[i + 1] <= 57 {
            2
        } else {
            1
        }
    } else {
        0
    }
}

/// Tries the grammar at position i, decoding the pair on a match.
fn try_match_at(b: &Vec<u8>, i: usize) -> (r: Option<ValueUnitPair>)
    requires
        i < b@.len(),
    ensures
        r is Some <==> match_at(b@, i as int),
        r matches Some(p) ==> p@ == match_model_at(b@, i as int),
{
    // integer form: one to three digits then a unit token
    let len = b.len();
    let n = digit_run3_exec(b, i);
    assert(i + n <= b@.len());
    if n >= 1 {
        if let Some((_l, m, name)) = unit_token_exec(b, i + n) {
            let v: u32 = if n == 1 {
                (b[i] - 48) as u32
            } else if n == 2 {
                10 * (b[i] - 48) as u32 + (b[i + 1] - 48) as u32
            } else {
                100 * (b[i] - 48) as u32 + 10 * (b[i + 1] - 48) as u32 + (b[i + 2] - 48) as u32
            };
            return Some(ValueUnitPair { value_centi: 100 * v, unit_mult: m, unit_name: name });
        }
    }
    // fractional form: "0." then one or two digits then a unit token
    if b[i] == 48 && i + 1 < len && b[i + 1] == 46 {
        let f = digit_run2_exec(b, i + 2);
        if f >= 1 {
            if let Some((_l, m, name)) = unit_token_exec(b, i + 2 + f) {
                let v: u32 = if f == 1 {
                    10 * (b[i + 2] - 48) as u32
                } else {
                    10 * (b[i + 2] - 48) as u32 + (b[i + 3] - 48) as u32
                };
                return Some(ValueUnitPair { value_centi: v, unit_mult: m, unit_name: name });
            }
        }
    }
    None
}

/// Decodes the leftmost scale/unit token of the byte text: a numeric literal
/// of one to three digits, or "0." and one or two digits, immediately
/// followed by one of the unit tokens mV, V, uV, s, ms, us. Fails iff the
/// grammar matches nowhere in the text.
pub fn parse_unit_bytes(b: &Vec<u8>) -> (r: Result<ValueUnitPair, ()>)
    ensures
        r matches Ok(p) ==> parse_unit_spec(b@) == Some(p@),
        r is Err ==> parse_unit_spec(b@) is None,
{
    let mut i: usize = 0;
    while i < b.len()
        invariant
            i <= b@.len(),
            first_match_from(b@, 0) == first_match_from(b@, i as int),
        decreases b@.len() - i,
    {
        if let Some(p) = try_match_at(b, i) {
            assert(first_match_from(b@, i as int) == Some(i as int));
            return Ok(p);
        }
        assert(first_match_from(b@, i as int) == first_match_from(b@, i + 1));
        i = i + 1;
    }
    assert(first_match_from(b@, i as int) is None);
    Err(())
}

/// Decodes the leftmost scale/unit token of the text, as parse_unit_bytes
/// does on its UTF-8 bytes.
pub fn parse_unit(parse_string: &str) -> (r: Result<ValueUnitPair, ()>)
    ensures
        r matches Ok(p) ==> parse_unit_spec(encode_utf8(parse_string@)) == Some(p@),
        r is Err ==> parse_unit_spec(encode_utf8(parse_string@)) is None,
{
    let bytes = parse_string.as_bytes_vec();
    parse_unit_bytes(&bytes)
}

/// A value form of the grammar: one to three digits, or "0." then one or
/// two digits.
pub open spec fn valid_value_text(v: Seq<u8>) -> bool {
    ||| (1 <= v.len() <= 3 && forall|j: int| 0 <= j < v.len() ==> is_digit(v[j]))
    ||| (3 <= v.len() <= 4 && v[0] == 48 && v[1] == 46 && forall|j: int|
        2 <= j < v.len() ==> is_digit(v[j]))
}

/// The numeric value of a value form, in hundredths.
pub open spec fn value_centi_of(v: Seq<u8>) -> int {
    if v.len() >= 2 && v[1] == 46 {
        if v.len() == 3 {
            10 * digit_val(v[2])
        } else {
            10 * digit_val(v[2]) + digit_val(v[3])
        }
    } else if v.len() == 1 {
        100 * digit_val(v[0])
    } else if v.len() == 2 {
        100 * (10 * digit_val(v[0]) + digit_val(v[1]))
    } else {
        100 * (100 * digit_val(v[0]) + 10 * digit_val(v[1]) + digit_val(v[2]))
    }
}

/// One of the six unit tokens, as bytes.
pub open spec fn is_unit_token(u: Seq<u8>) -> bool {
    ||| u == seq![109u8, 86u8]  // mV
    ||| u == seq![86u8]  // V
    ||| u == seq![117u8, 86u8]  // uV
    ||| u == seq![115u8]  // s
    ||| u == seq![109u8, 115u8]  // ms
    ||| u == seq![117u8, 115u8]  // us
}

/// The documented multiplier of a unit token: 1 for s and V, 1000 for ms
/// and mV, 1000000 for us and uV.
pub open spec fn documented_mult(u: Seq<u8>) -> int {
    if u == seq![86u8] || u == seq![115u8] {
        1
    } else if u == seq![109u8, 86u8] || u == seq![109u8, 115u8] {
        1000
    } else {
        1000000
    }
}

/// The chars of ASCII token bytes.
pub open spec fn ascii_chars(u: Seq<u8>) -> Seq<char> {
    Seq::new(u.len(), |j: int| u[j] as char)
}

/// Round trip of the unit grammar: every valid value text followed directly
/// by a unit token parses — from its first position — to that value in
/// hundredths and to the token's documented multiplier and name.
pub proof fn lemma_parse_unit_round_trip(v: Seq<u8>, u: Seq<u8>)
    requires
        valid_value_text(v),
        is_unit_token(u),
    ensures
        parse_unit_spec(v + u) == Some(
            ValueUnitModel {
                value_centi: value_centi_of(v),
                unit_mult: documented_mult(u),
                unit_name: ascii_chars(u),
            },
        ),
{
    let b = v + u;
    assert(forall|j: int| 0 <= j < v.len() ==> b[j] == v[j]);
    assert(forall|j: int| 0 <= j < u.len() ==> b[v.len() + j] == u[j]);
    let p = v.len() as int;
    // the unit token is recognized exactly where the value form ends
    let tok = unit_token_at(b, p);
    assert(b[p] == u[0]);
    if u.len() == 2 {
        assert(b[p + 1] == u[1]);
    }
    assert(tok is Some && tok->Some_0.len == u.len() && tok->Some_0.mult == documented_mult(u)
        && tok->Some_0.name =~= ascii_chars(u));
    if 1 <= v.len() <= 3 && forall|j: int| 0 <= j < v.len() ==> is_digit(v[j]) {
        // integer form: the digit run is exactly the value text
        assert(!is_digit(u[0]));
        assert(digit_run3(b, 0) == v.len());
        assert(int_match_at(b, 0));
        assert(int_value_centi_at(b, 0) == value_centi_of(v));
    } else {
        // fractional form: "0." stops the digit run at one and no unit
        // token starts with '.', so only the fractional alternative matches
        assert(v[0] == 48 && v[1] == 46);
        assert(digit_run3(b, 0) == 1);
        assert(unit_token_at(b, 1) is None);
        assert(!int_match_at(b, 0));
        assert(!is_digit(u[0]));
        assert(digit_run2(b, 2) == v.len() - 2);
        assert(frac_match_at(b, 0));
        assert(frac_value_centi_at(b, 0) == value_centi_of(v));
    }
    assert(match_at(b, 0));
    assert(unit_pos_at(b, 0) == p);
    assert(first_match_from(b, 0) == Some(0int));
    assert(match_model_at(b, 0) == ValueUnitModel {
        value_centi: value_centi_of(v),
        unit_mult: documented_mult(u),
        unit_name: ascii_chars(u),
    });
}

proof fn lemma_no_match_from(b: Seq<u8>, i: int)
    requires
        0 <= i <= b.len(),
        forall|j: int| i <= j < b.len() ==> !match_at(b, j),
    ensures
        first_match_from(b, i) is None,
    decreases b.len() - i,
{
    if i < b.len() {
        lemma_no_match_from(b, i + 1);
    }
}

/// Text in which the grammar matches nowhere parses to nothing.
pub proof fn lemma_parse_unit_no_match(b: Seq<u8>)
    requires
        forall|i: int| 0 <= i < b.len() ==> !match_at(b, i),
    ensures
        parse_unit_spec(b) is None,
{
    lemma_no_match_from(b, 0);
}

/// Position of the first comma byte, if any.
pub open spec fn first_comma(b: Seq<u8>) -> Option<int>
    decreases b.len(),
{
    if b.len() == 0 {
        None
    } else if b[0] == 44 {
        Some(0)
    } else {
        match first_comma(b.drop_first()) {
            None => None,
            Some(j) => Some(j + 1),
        }
    }
}

/// The comma-separated fields of the byte text, in order; text without a
/// comma is one field, and every comma separates two (possibly empty)
/// fields.
pub open spec fn split_fields(b: Seq<u8>) -> Seq<Seq<u8>>
    decreases b.len(),
{
    match first_comma(b) {
        None => seq![b],
        Some(i) => if 0 <= i < b.len() {
            seq![b.subrange(0, i)] + split_fields(b.subrange(i + 1, b.len() as int))
        } else {
            seq![b]
        },
    }
}

proof fn lemma_first_comma_some(b: Seq<u8>, i: int)
    requires
        0 <= i < b.len(),
        b[i] == 44,
        forall|j: int| 0 <= j < i ==> b[j] != 44,
    ensures
        first_comma(b) == Some(i),
    decreases i,
{
    if i > 0 {
        let t = b.drop_first();
        assert forall|j: int| 0 <= j < i - 1 implies t[j] != 44 by {
            assert(t[j] == b[j + 1]);
        }
        assert(t[i - 1] == b[i]);
        lemma_first_comma_some(t, i - 1);
    }
}

proof fn lemma_first_comma_none(b: Seq<u8>)
    requires
        forall|j: int| 0 <= j < b.len() ==> b[j] != 44,
    ensures
        first_comma(b) is None,
    decreases b.len(),
{
    if b.len() > 0 {
        let t = b.drop_first();
        assert forall|j: int| 0 <= j < t.len() implies t[j] != 44 by {
            assert(t[j] == b[j + 1]);
        }
        lemma_first_comma_none(t);
    }
}

/// Finds the first comma byte.
fn find_first_comma(b: &Vec<u8>) -> (r: Option<usize>)
    ensures
        r matches Some(i) ==> first_comma(b@) == Some(i as int) && i < b@.len(),
        r is None ==> first_comma(b@) is None,
{
    let mut i: usize = 0;
    while i < b.len()
        invariant
            i <= b@.len(),
            forall|j: int| 0 <= j < i ==> b@[j] != 44,
        decreases b@.len() - i,
    {
        if b[i] == 44 {
            proof {
                lemma_first_comma_some(b@, i as int);
            }
            return Some(i);
        }
        i = i + 1;
    }
    proof {
        lemma_first_comma_none(b@);
    }
    None
}

/// Copies the byte range [from, to).
fn subvec(b: &Vec<u8>, from: usize, to: usize) -> (r: Vec<u8>)
    requires
        from <= to <= b@.len(),
    ensures
        r@ == b@.subrange(from as int, to as int),
{
    let mut r: Vec<u8> = Vec::new();
    let mut i: usize = from;
    while i < to
        invariant
            from <= i <= to,
            to <= b@.len(),
            r@ == b@.subrange(from as int, i as int),
        decreases to - i,
    {
        r.push(b[i]);
        assert(r@ =~= b@.subrange(from as int, i + 1));
        i = i + 1;
    }
    r
}

/// Splits the byte text at every comma, in order.
pub fn split_commas(b: &Vec<u8>) -> (r: Vec<Vec<u8>>)
    ensures
        r@.len() == split_fields(b@).len(),
        forall|k: int| 0 <= k < r@.len() ==> r@[k]@ == split_fields(b@)[k],
    decreases b@.len(),
{
    match find_first_comma(b) {
        None => {
            let whole = subvec(b, 0, b.len());
            let mut r: Vec<Vec<u8>> = Vec::new();
            proof {
                assert(b@.subrange(0, b@.len() as int) =~= b@);
            }
            r.push(whole);
            r
        },
        Some(i) => {
            let len = b.len();
            let head = subvec(b, 0, i);
            let tail = subvec(b, i + 1, len);
            let mut rest = split_commas(&tail);
            let mut r: Vec<Vec<u8>> = Vec::new();
            r.push(head);
            r.append(&mut rest);
            proof {
                assert(split_fields(b@) == seq![b@.subrange(0, i as int)] + split_fields(
                    b@.subrange(i + 1, b@.len() as int),
                ));
            }
            r
        },
    }
}

/// Decodes the time and voltage scale of a condition record: the text is
/// comma-separated; at least twelve fields must be present; the time scale
/// is parsed from field 3 and the voltage scale from field 7. Fails iff a
/// field is missing or does not match the unit grammar.
pub fn get_scale_units(condition_string: &String) -> (r: Result<
    (ValueUnitPair, ValueUnitPair),
    (),
>)
    ensures
        ({
            let fields = split_fields(encode_utf8(condition_string@));
            &&& (r is Ok <==> fields.len() >= 12 && parse_unit_spec(fields[3]) is Some
                && parse_unit_spec(fields[7]) is Some)
            &&& (r matches Ok((t, v)) ==> parse_unit_spec(fields[3]) == Some(t@)
                && parse_unit_spec(fields[7]) == Some(v@))
        }),
{
    let bytes = condition_string.as_str().as_bytes_vec();
    let fields = split_commas(&bytes);
    if fields.len() < 12 {
        return Err(());
    }
    let time_unit = match parse_unit_bytes(&fields[3]) {
        Ok(t) => t,
        Err(_) => {
            return Err(());
        },
    };
    let voltage_unit = match parse_unit_bytes(&fields[7]) {
        Ok(v) => v,
        Err(_) => {
            return Err(());
        },
    };
    Ok((time_unit, voltage_unit))
}

} // verus!
