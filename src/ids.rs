use vstd::prelude::*;

verus! {

/// The lower-case hexadecimal digit of `d`, for `0 <= d < 16`.
pub open spec fn hex_digit(d: u128) -> char {
    if d == 0 {
        '0'
    } else if d == 1 {
        '1'
    } else if d == 2 {
        '2'
    } else if d == 3 {
        '3'
    } else if d == 4 {
        '4'
    } else if d == 5 {
        '5'
    } else if d == 6 {
        '6'
    } else if d == 7 {
        '7'
    } else if d == 8 {
        '8'
    } else if d == 9 {
        '9'
    } else if d == 10 {
        'a'
    } else if d == 11 {
        'b'
    } else if d == 12 {
        'c'
    } else if d == 13 {
        'd'
    } else if d == 14 {
        'e'
    } else if d == 15 {
        'f'
    } else {
        'f'
    }
}

/// The 32 hexadecimal digits of `id`, most significant first.
pub open spec fn hex_digits(id: u128) -> Seq<char> {
    Seq::new(32, |i: int| hex_digit((id >> ((124 - 4 * i) as u128)) & 0xf))
}

/// The hyphenated lower-case text of an identity: its 32 hexadecimal digits
/// in groups of 8, 4, 4, 4 and 12, joined by '-'.
pub open spec fn uuid_text_of(id: u128) -> Seq<char> {
    let h = hex_digits(id);
    h.subrange(0, 8) + seq!['-'] + h.subrange(8, 12) + seq!['-'] + h.subrange(12, 16) + seq!['-']
        + h.subrange(16, 20) + seq!['-'] + h.subrange(20, 32)
}

/// Relies on uuid::Uuid::new_v4 for a random identity; nothing is known of the value.
#[verifier::external_body]
pub(crate) fn fresh_id() -> (r: u128) {
    uuid::Uuid::new_v4().as_u128()
}

/// Relies on uuid's `Display` for `Uuid`, which writes the hyphenated
/// lower-case form of the 128-bit value.
#[verifier::external_body]
pub(crate) fn uuid_text(id: u128) -> (r: String)
    ensures
        r@ == uuid_text_of(id),
{
    uuid::Uuid::from_u128(id).to_string()
}

/// The first `n` characters of `s`, or all of it when it is shorter.
pub open spec fn prefix_of(s: Seq<char>, n: nat) -> Seq<char> {
    if s.len() <= n {
        s
    } else {
        s.subrange(0, n as int)
    }
}

/// The display-only correlation signature made from an identity's text.
pub open spec fn signature_text(id: u128) -> Seq<char> {
    "5tZ..."@ + prefix_of(uuid_text_of(id), 8)
}

/// The signature that correlates a ledger entry or a simulated chain call with `id`.
pub fn signature_for(id: u128) -> (r: String)
    ensures
        r@ == signature_text(id),
{
    let text = uuid_text(id);
    let n = text.as_str().unicode_len();
    let cut: usize = if n <= 8 { n } else { 8 };
    let head = text.as_str().substring_char(0, cut);
    let r = String::from_str("5tZ...").concat(head);
    assert(head@ == prefix_of(uuid_text_of(id), 8)) by {
        if n <= 8 {
            assert(text@.subrange(0, n as int) =~= text@);
        }
    }
    r
}

} // verus!
