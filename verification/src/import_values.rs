//! Values read from an institutional upload: UUID text, decimal integers, normalized
//! email addresses, and the field map of one row.
use crate::text::{ascii_lower_seq, chars_of, is_white_space, is_whitespace_char, str_eq};
use vstd::prelude::*;

verus! {

/// An ASCII hexadecimal digit, either case.
pub open spec fn is_hex_digit(c: char) -> bool {
    ('0' <= c <= '9') || ('a' <= c <= 'f') || ('A' <= c <= 'F')
}

/// The hyphenated form: 8-4-4-4-12 hexadecimal digits.
pub open spec fn hyphenated_uuid(s: Seq<char>) -> bool {
    s.len() == 36 && forall|i: int|
        0 <= i < 36 ==> if i == 8 || i == 13 || i == 18 || i == 23 {
            #[trigger] s[i] == '-'
        } else {
            is_hex_digit(s[i])
        }
}

/// The texts `uuid::Uuid::parse_str` accepts: 32 hexadecimal digits; the hyphenated
/// form; the hyphenated form in braces; or `urn:uuid:` in any ASCII case followed by the
/// hyphenated form.
pub open spec fn uuid_text(s: Seq<char>) -> bool {
    ||| (s.len() == 32 && forall|i: int| 0 <= i < 32 ==> #[trigger] is_hex_digit(s[i]))
    ||| hyphenated_uuid(s)
    ||| (s.len() == 38 && s[0] == '{' && s[37] == '}' && hyphenated_uuid(s.subrange(1, 37)))
    ||| (s.len() == 45 && ascii_lower_seq(s.subrange(0, 9)) == "urn:uuid:"@ && hyphenated_uuid(
        s.subrange(9, 45),
    ))
}

/// The 128-bit value that `uuid::Uuid::parse_str` reads from a text it accepts.
pub uninterp spec fn uuid_value(s: Seq<char>) -> u128;

/// `uuid::Uuid::parse_str`, with the UUID as its 128-bit value. The contract states the
/// formats its parser accepts and names the value read.
#[verifier::external_body]
fn parse_uuid_text(value: &str) -> (r: Option<u128>)
    ensures
        r is Some <==> uuid_text(value@),
        r matches Some(v) ==> v == uuid_value(value@),
{
    uuid::Uuid::parse_str(value).ok().map(|u| u.as_u128())
}

/// Whether `value` is a UUID in one of the accepted text forms.
pub fn is_uuid_text(value: &str) -> (b: bool)
    ensures
        b == uuid_text(value@),
{
    parse_uuid_text(value).is_some()
}

/// The UUID written in `value`, if it is one.
pub fn parse_uuid(value: &str) -> (r: Option<u128>)
    ensures
        r is Some <==> uuid_text(value@),
        r matches Some(v) ==> v == uuid_value(value@),
{
    parse_uuid_text(value)
}

/// The lower-case hexadecimal digit for `n`, which is below 16.
pub open spec fn hex_digit_lower(n: int) -> char {
    if n < 10 {
        (48 + n) as char
    } else {
        (87 + n) as char
    }
}

/// How `uuid::Uuid` displays the UUID with value `id`: its 32 hexadecimal digits, lower
/// case and most significant first, in groups of 8-4-4-4-12 joined by hyphens.
pub open spec fn uuid_display(id: u128) -> Seq<char> {
    Seq::new(
        36,
        |i: int|
            if i == 8 || i == 13 || i == 18 || i == 23 {
                '-'
            } else {
                let k = i - (if i < 8 {
                    0int
                } else if i < 13 {
                    1int
                } else if i < 18 {
                    2int
                } else if i < 23 {
                    3int
                } else {
                    4int
                });
                hex_digit_lower(
                    ((id as int) / (vstd::arithmetic::power2::pow2((4 * (31 - k)) as nat) as int))
                        % 16,
                )
            },
    )
}

/// `uuid::Uuid::from_u128(id).to_string()`: the hyphenated lower-case form.
#[verifier::external_body]
pub(crate) fn uuid_string(id: u128) -> (s: String)
    ensures
        s@ == uuid_display(id),
{
    uuid::Uuid::from_u128(id).to_string()
}

/// An ASCII decimal digit.
pub open spec fn is_decimal_digit(c: char) -> bool {
    '0' <= c <= '9'
}

/// The value of a sequence of decimal digits.
pub open spec fn decimal_value(s: Seq<char>) -> int
    decreases s.len(),
{
    if s.len() == 0 {
        0
    } else {
        decimal_value(s.drop_last()) * 10 + (s.last() as int - '0' as int)
    }
}

/// The digits of a decimal text after an optional leading sign.
pub open spec fn unsigned_part(s: Seq<char>) -> Seq<char> {
    if s.len() > 0 && (s[0] == '+' || s[0] == '-') {
        s.drop_first()
    } else {
        s
    }
}

/// Whether every character is a decimal digit.
pub open spec fn all_decimal(d: Seq<char>) -> bool {
    forall|i: int| 0 <= i < d.len() ==> #[trigger] is_decimal_digit(d[i])
}

/// The value `str::parse::<i32>` gives: an optional `+` or `-`, then at least one decimal
/// digit, within the `i32` range.
pub open spec fn i32_text(s: Seq<char>) -> Option<int> {
    let digits = unsigned_part(s);
    if digits.len() == 0 || !all_decimal(digits) {
        None
    } else {
        let v = if s[0] == '-' {
            -decimal_value(digits)
        } else {
            decimal_value(digits)
        };
        if i32::MIN <= v <= i32::MAX {
            Some(v)
        } else {
            None
        }
    }
}

proof fn lemma_decimal_value_nonnegative(s: Seq<char>)
    requires
        forall|k: int| 0 <= k < s.len() ==> #[trigger] is_decimal_digit(s[k]),
    ensures
        0 <= decimal_value(s),
    decreases s.len(),
{
    if s.len() > 0 {
        assert(forall|k: int| 0 <= k < s.drop_last().len() ==> s.drop_last()[k] == s[k]);
        lemma_decimal_value_nonnegative(s.drop_last());
        assert(is_decimal_digit(s[s.len() - 1]));
    }
}

proof fn lemma_decimal_value_grows(s: Seq<char>, i: int)
    requires
        0 <= i <= s.len(),
        forall|k: int| 0 <= k < s.len() ==> #[trigger] is_decimal_digit(s[k]),
    ensures
        decimal_value(s.take(i)) <= decimal_value(s),
    decreases s.len() - i,
{
    if i < s.len() {
        lemma_decimal_value_grows(s, i + 1);
        assert(s.take(i + 1).drop_last() =~= s.take(i));
        assert(s.take(i + 1).last() == s[i]);
        assert(forall|k: int| 0 <= k < s.take(i).len() ==> s.take(i)[k] == s[k]);
        lemma_decimal_value_nonnegative(s.take(i));
        assert(is_decimal_digit(s[i]));
    } else {
        assert(s.take(i) =~= s);
    }
}

/// Parses a decimal `i32` the way `str::parse::<i32>` does.
pub fn parse_i32(value: &str) -> (r: Option<i32>)
    ensures
        match i32_text(value@) {
            Some(v) => r == Some(v as i32),
            None => r is None,
        },
{
    let s = chars_of(value);
    let ghost sv = s@;
    let negative = s.len() > 0 && s[0] == '-';
    let start: usize = if s.len() > 0 && (s[0] == '+' || s[0] == '-') { 1 } else { 0 };
    let ghost digits = unsigned_part(s@);
    assert(digits =~= s@.subrange(start as int, s@.len() as int));
    if start == s.len() {
        return None;
    }
    let mut acc: i64 = 0;
    let mut i: usize = start;
    while i < s.len()
        invariant
            sv == s@,
            sv == value@,
            digits == unsigned_part(value@),
            start <= i <= s@.len(),
            digits == s@.subrange(start as int, s@.len() as int),
            forall|k: int| 0 <= k < i - start ==> #[trigger] is_decimal_digit(digits[k]),
            acc == decimal_value(digits.take(i - start)),
            0 <= acc <= 0x8000_0000,
        decreases s@.len() - i,
    {
        let c = s[i];
        assert(digits[i - start] == c);
        if !('0' <= c && c <= '9') {
            proof {
                assert(!is_decimal_digit(digits[i - start]));
                assert(!all_decimal(digits));
            }
            return None;
        }
        proof {
            assert(digits.take(i - start + 1).drop_last() =~= digits.take(i - start));
            assert(digits.take(i - start + 1).last() == c);
        }
        let d = (c as u32 - '0' as u32) as i64;
        acc = acc * 10 + d;
        assert(acc == decimal_value(digits.take(i - start + 1)));
        if acc > 0x8000_0000 {
            proof {
                if all_decimal(digits) {
                    lemma_decimal_value_grows(digits, i - start + 1);
                    assert(decimal_value(digits) > 0x8000_0000);
                }
            }
            return None;
        }
        i = i + 1;
    }
    assert(digits.take(digits.len() as int) =~= digits);
    if negative {
        Some((0 - acc) as i32)
    } else if acc <= 0x7fff_ffff {
        Some(acc as i32)
    } else {
        None
    }
}

/// Number of occurrences of `c` in `s`.
pub open spec fn count_char(s: Seq<char>, c: char) -> nat
    decreases s.len(),
{
    if s.len() == 0 {
        0
    } else {
        count_char(s.drop_last(), c) + if s.last() == c { 1nat } else { 0nat }
    }
}

/// Index of the first `c` in `s`, or -1.
pub open spec fn first_index_of(s: Seq<char>, c: char, i: int) -> int
    decreases s.len() - i,
{
    if i < 0 || i >= s.len() {
        -1
    } else if s[i] == c {
        i
    } else {
        first_index_of(s, c, i + 1)
    }
}

/// Bytes of the UTF-8 encoding of `c`.
pub open spec fn utf8_width(c: char) -> nat {
    if (c as u32) < 0x80 {
        1
    } else if (c as u32) < 0x800 {
        2
    } else if (c as u32) < 0x10000 {
        3
    } else {
        4
    }
}

/// Bytes of the UTF-8 encoding of `s` (`str::len`).
pub open spec fn utf8_len(s: Seq<char>) -> nat
    decreases s.len(),
{
    if s.len() == 0 {
        0
    } else {
        utf8_len(s.drop_last()) + utf8_width(s.last())
    }
}

proof fn lemma_utf8_len_grows(s: Seq<char>, i: int)
    requires
        0 <= i <= s.len(),
    ensures
        utf8_len(s.take(i)) <= utf8_len(s),
    decreases s.len() - i,
{
    if i < s.len() {
        lemma_utf8_len_grows(s, i + 1);
        assert(s.take(i + 1).drop_last() =~= s.take(i));
    } else {
        assert(s.take(i) =~= s);
    }
}

/// Whether `s` is exactly `n` bytes of UTF-8 (`str::len() == n`).
pub fn utf8_len_is(s: &str, n: usize) -> (b: bool)
    ensures
        b == (utf8_len(s@) == n),
{
    let v = chars_of(s);
    let mut bytes: usize = 0;
    let mut i: usize = 0;
    while i < v.len()
        invariant
            v@ == s@,
            i <= v@.len(),
            bytes <= n,
            bytes == utf8_len(v@.take(i as int)),
        decreases v@.len() - i,
    {
        let c = v[i];
        proof {
            assert(v@.take(i + 1).drop_last() =~= v@.take(i as int));
            assert(v@.take(i + 1).last() == c);
        }
        let u = c as u32;
        let w: usize = if u < 0x80 { 1 } else if u < 0x800 { 2 } else if u < 0x10000 { 3 } else { 4 };
        assert(w == utf8_width(c));
        if w > n - bytes {
            proof {
                lemma_utf8_len_grows(s@, i + 1);
            }
            return false;
        }
        bytes = bytes + w;
        i = i + 1;
    }
    assert(v@.take(i as int) =~= v@);
    bytes == n
}

/// A normalized email address: at most 320 bytes of UTF-8, no white space, exactly one
/// `@` with a non-empty local part before it, and a domain after it that contains a dot
/// and neither starts nor ends with one.
pub open spec fn valid_email_spec(v: Seq<char>) -> bool {
    let at = first_index_of(v, '@', 0);
    let local = v.subrange(0, at);
    let domain = v.subrange(at + 1, v.len() as int);
    &&& utf8_len(v) <= 320
    &&& forall|i: int| 0 <= i < v.len() ==> !#[trigger] is_white_space(v[i])
    &&& count_char(v, '@') == 1
    &&& local.len() > 0
    &&& domain.contains('.')
    &&& domain[0] != '.'
    &&& domain[domain.len() - 1] != '.'
}

proof fn lemma_first_index_found(s: Seq<char>, c: char, i: int, k: int)
    requires
        0 <= i <= k < s.len(),
        s[k] == c,
        forall|j: int| i <= j < k ==> s[j] != c,
    ensures
        first_index_of(s, c, i) == k,
    decreases k - i,
{
    if i < k {
        lemma_first_index_found(s, c, i + 1, k);
    }
}

/// Whether `value` is a normalized email address.
pub fn valid_email(value: &str) -> (b: bool)
    ensures
        b == valid_email_spec(value@),
{
    let s = chars_of(value);
    let ghost v = s@;
    let mut ats: usize = 0;
    let mut at: usize = 0;
    let mut white = false;
    let mut bytes: u64 = 0;
    let mut i: usize = 0;
    while i < s.len()
        invariant
            v == s@,
            v == value@,
            i <= v.len(),
            bytes <= 321,
            bytes == utf8_len(v.take(i as int)) || (bytes == 321 && utf8_len(v.take(i as int)) > 320),
            ats == count_char(v.take(i as int), '@'),
            ats <= i,
            ats > 0 ==> at < i && v[at as int] == '@' && forall|j: int| 0 <= j < at ==> v[j] != '@',
            ats == 0 ==> forall|j: int| 0 <= j < i ==> v[j] != '@',
            white == exists|j: int| 0 <= j < i && #[trigger] is_white_space(v[j]),
        decreases v.len() - i,
    {
        let c = s[i];
        proof {
            assert(v.take(i + 1).drop_last() =~= v.take(i as int));
            assert(v.take(i + 1).last() == c);
        }
        if is_whitespace_char(c) {
            white = true;
        }
        let u = c as u32;
        let w: u64 = if u < 0x80 { 1 } else if u < 0x800 { 2 } else if u < 0x10000 { 3 } else { 4 };
        assert(w == utf8_width(c));
        assert(utf8_len(v.take(i + 1)) == utf8_len(v.take(i as int)) + utf8_width(c));
        if bytes <= 320 {
            bytes = bytes + w;
            if bytes > 320 {
                bytes = 321;
            }
        }
        if c == '@' {
            if ats == 0 {
                at = i;
            }
            ats = ats + 1;
        }
        i = i + 1;
    }
    assert(v.take(v.len() as int) =~= v);
    if bytes > 320 || white || ats != 1 {
        return false;
    }
    proof {
        lemma_first_index_found(v, '@', 0, at as int);
    }
    let ghost domain = v.subrange(at + 1, v.len() as int);
    let len = s.len();
    if at == 0 || at + 1 >= len {
        proof {
            if at + 1 >= len {
                assert(!domain.contains('.'));
            }
        }
        return false;
    }
    if s[at + 1] == '.' || s[len - 1] == '.' {
        assert(domain[0] == s@[at + 1]);
        return false;
    }
    let mut dot = false;
    let mut k: usize = at + 1;
    while k < len
        invariant
            v == s@,
            len == v.len(),
            at + 1 <= k <= len,
            domain == v.subrange(at + 1, v.len() as int),
            dot == exists|j: int| at + 1 <= j < k && v[j] == '.',
        decreases len - k,
    {
        if s[k] == '.' {
            dot = true;
        }
        k = k + 1;
    }
    proof {
        if dot {
            let j = choose|j: int| at + 1 <= j < len && v[j] == '.';
            assert(domain[j - at - 1] == '.');
        } else {
            assert forall|j: int| 0 <= j < domain.len() implies domain[j] != '.' by {
                assert(domain[j] == v[j + at + 1]);
            }
        }
        assert(domain[0] == v[at + 1]);
        assert(domain[domain.len() - 1] == v[len - 1]);
        assert(v.subrange(0, at as int).len() > 0);
    }
    dot
}

/// A stored field value: absent, text, or a flag.
#[derive(Clone, Debug, PartialEq, Eq)]
pub enum FieldValue {
    Null,
    Text(String),
    Flag(bool),
}

/// The mathematical value of a field value.
pub ghost enum FieldView {
    Null,
    Text(Seq<char>),
    Flag(bool),
}

impl View for FieldValue {
    type V = FieldView;

    open spec fn view(&self) -> FieldView {
        match self {
            FieldValue::Null => FieldView::Null,
            FieldValue::Text(s) => FieldView::Text(s@),
            FieldValue::Flag(b) => FieldView::Flag(*b),
        }
    }
}

/// One named field of a row.
#[derive(Clone, Debug)]
pub struct PayloadField {
    pub name: String,
    pub value: FieldValue,
}

/// A copy of a field value.
pub fn clone_value(v: &FieldValue) -> (r: FieldValue)
    ensures
        r@ == v@,
{
    match v {
        FieldValue::Null => FieldValue::Null,
        FieldValue::Text(s) => FieldValue::Text(s.clone()),
        FieldValue::Flag(b) => FieldValue::Flag(*b),
    }
}

/// The fields of a row, by name and value.
pub open spec fn payload_view(p: Seq<PayloadField>) -> Seq<(Seq<char>, FieldView)> {
    p.map_values(|f: PayloadField| (f.name@, f.value@))
}

/// Index of the first field named `name`, from `i`; -1 if none.
pub open spec fn field_index(p: Seq<(Seq<char>, FieldView)>, name: Seq<char>, i: int) -> int
    decreases p.len() - i,
{
    if i < 0 || i >= p.len() {
        -1
    } else if p[i].0 == name {
        i
    } else {
        field_index(p, name, i + 1)
    }
}

/// The value of field `name`, if the row has it.
pub open spec fn payload_get(p: Seq<(Seq<char>, FieldView)>, name: Seq<char>) -> Option<FieldView> {
    let k = field_index(p, name, 0);
    if k >= 0 {
        Some(p[k].1)
    } else {
        None
    }
}

/// The row with field `name` set to `value`: replaced where present, appended otherwise,
/// as in a map.
pub open spec fn payload_set(
    p: Seq<(Seq<char>, FieldView)>,
    name: Seq<char>,
    value: FieldView,
) -> Seq<(Seq<char>, FieldView)> {
    let k = field_index(p, name, 0);
    if k >= 0 {
        p.update(k, (name, value))
    } else {
        p.push((name, value))
    }
}

/// The text of field `name`, if it holds text.
pub open spec fn text_of(p: Seq<(Seq<char>, FieldView)>, name: Seq<char>) -> Option<Seq<char>> {
    match payload_get(p, name) {
        Some(FieldView::Text(s)) => Some(s),
        _ => None,
    }
}

proof fn lemma_field_index_bounds(p: Seq<(Seq<char>, FieldView)>, name: Seq<char>, i: int)
    requires
        0 <= i,
    ensures
        field_index(p, name, i) == -1 || (i <= field_index(p, name, i) < p.len() && p[field_index(
            p,
            name,
            i,
        )].0 == name),
    decreases p.len() - i,
{
    if i < p.len() && p[i].0 != name {
        lemma_field_index_bounds(p, name, i + 1);
    }
}

/// Index of the first field named `name`.
pub fn find_field(p: &Vec<PayloadField>, name: &str) -> (r: Option<usize>)
    ensures
        match r {
            Some(k) => k < p@.len() && k as int == field_index(payload_view(p@), name@, 0),
            None => field_index(payload_view(p@), name@, 0) == -1,
        },
{
    let ghost pv = payload_view(p@);
    let mut i: usize = 0;
    while i < p.len()
        invariant
            pv == payload_view(p@),
            i <= p@.len(),
            field_index(pv, name@, 0) == field_index(pv, name@, i as int),
        decreases p@.len() - i,
    {
        assert(pv[i as int] == (p@[i as int].name@, p@[i as int].value@));
        if str_eq(p[i].name.as_str(), name) {
            return Some(i);
        }
        i = i + 1;
    }
    None
}

/// Sets field `name` to `value`, as in a map.
pub fn set_field(p: &mut Vec<PayloadField>, name: &str, value: FieldValue)
    ensures
        payload_view(final(p)@) == payload_set(payload_view(old(p)@), name@, value@),
{
    let ghost before = payload_view(p@);
    match find_field(p, name) {
        Some(k) => {
            p.set(k, PayloadField { name: name.to_owned(), value });
            assert(payload_view(p@) =~= before.update(k as int, (name@, value@)));
        },
        None => {
            let ghost v = value@;
            p.push(PayloadField { name: name.to_owned(), value });
            assert(payload_view(p@) =~= before.push((name@, v)));
        },
    }
}

/// The text of field `name`, if it holds text.
pub fn field_text(p: &Vec<PayloadField>, name: &str) -> (r: Option<String>)
    ensures
        match r {
            Some(s) => text_of(payload_view(p@), name@) == Some(s@),
            None => text_of(payload_view(p@), name@) is None,
        },
{
    match find_field(p, name) {
        Some(k) => {
            assert(payload_view(p@)[k as int] == (p@[k as int].name@, p@[k as int].value@));
            match &p[k].value {
                FieldValue::Text(s) => Some(s.clone()),
                _ => None,
            }
        },
        None => None,
    }
}

/// The value of field `name`, or `Null` when the row lacks it.
pub fn field_value(p: &Vec<PayloadField>, name: &str) -> (r: FieldValue)
    ensures
        r@ == match payload_get(payload_view(p@), name@) {
            Some(v) => v,
            None => FieldView::Null,
        },
{
    match find_field(p, name) {
        Some(k) => {
            assert(payload_view(p@)[k as int] == (p@[k as int].name@, p@[k as int].value@));
            clone_value(&p[k].value)
        },
        None => FieldValue::Null,
    }
}

} // verus!
