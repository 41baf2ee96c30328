//! Identifiers, read with the `uuid` crate, and time stamps.

use vstd::prelude::*;

verus! {

/// An instant in UTC, as `chrono::DateTime<Utc>` holds it: whole seconds
/// since the Unix epoch and the nanoseconds past them (up to
/// 1,999,999,999 during a leap second).
#[derive(Clone, Copy, Debug, PartialEq, Eq)]
pub struct Timestamp {
    pub seconds: i64,
    pub nanos: u32,
}

/// The value of a hexadecimal digit, in either case.
pub open spec fn hex_digit_value(c: char) -> Option<nat> {
    if '0' <= c <= '9' {
        Some((c as int - 48) as nat)
    } else if 'a' <= c <= 'f' {
        Some((c as int - 87) as nat)
    } else if 'A' <= c <= 'F' {
        Some((c as int - 55) as nat)
    } else {
        None
    }
}

/// The number that the hexadecimal digits `digits` write, most significant
/// first.
pub open spec fn hex_number(digits: Seq<char>) -> nat
    decreases digits.len(),
{
    if digits.len() == 0 {
        0
    } else {
        hex_number(digits.drop_last()) * 16 + match hex_digit_value(digits.last()) {
            Some(d) => d,
            None => 0,
        }
    }
}

/// Every character of `s` is a hexadecimal digit.
pub open spec fn all_hex(s: Seq<char>) -> bool {
    forall|i: int| 0 <= i < s.len() ==> #[trigger] hex_digit_value(s[i]) is Some
}

/// The hyphenated form of a UUID: 32 hexadecimal digits in groups of 8, 4,
/// 4, 4 and 12, separated by `'-'`.
pub open spec fn is_hyphenated_uuid(t: Seq<char>) -> bool {
    &&& t.len() == 36
    &&& t[8] == '-' && t[13] == '-' && t[18] == '-' && t[23] == '-'
    &&& all_hex(hyphenated_digits(t))
}

/// The 32 digits of a hyphenated UUID, without the hyphens.
pub open spec fn hyphenated_digits(t: Seq<char>) -> Seq<char> {
    t.subrange(0, 8) + t.subrange(9, 13) + t.subrange(14, 18) + t.subrange(19, 23) + t.subrange(
        24,
        36,
    )
}

/// The simple form of a UUID: 32 hexadecimal digits.
pub open spec fn is_simple_uuid(t: Seq<char>) -> bool {
    t.len() == 32 && all_hex(t)
}

/// The value of a hyphenated UUID: its 32 digits read as one number.
pub open spec fn hyphenated_value(t: Seq<char>) -> u128 {
    hex_number(hyphenated_digits(t)) as u128
}

/// The 128-bit value (`Uuid::as_u128`, big-endian) of the UUID that
/// `uuid::Uuid::parse_str` reads from `text`, or `None` when it rejects the
/// text. It accepts the simple, hyphenated, braced and URN forms.
pub uninterp spec fn uuid_value(text: Seq<char>) -> Option<u128>;

/// `Uuid::parse_str(text)`, as the UUID's 128-bit value. The crate reads
/// the simple and the hyphenated form (digits in either case) as the
/// big-endian number their 32 digits write.
#[verifier::external_body]
pub(crate) fn parse_uuid(text: &str) -> (res: Option<u128>)
    ensures
        res == uuid_value(text@),
        is_hyphenated_uuid(text@) ==> res == Some(hyphenated_value(text@)),
        is_simple_uuid(text@) ==> res == Some(hex_number(text@) as u128),
{
    match uuid::Uuid::parse_str(text) {
        Ok(id) => Some(id.as_u128()),
        Err(_) => None,
    }
}

/// The lowest `n` hexadecimal digits of `v`, lower case, most significant
/// first.
pub open spec fn hex_text(v: nat, n: nat) -> Seq<char>
    decreases n,
{
    if n == 0 {
        Seq::<char>::empty()
    } else {
        hex_text(v / 16, (n - 1) as nat).push(hex_char(v % 16))
    }
}

/// The lower-case hexadecimal digit of `d` (below 16).
pub open spec fn hex_char(d: nat) -> char {
    if d < 10 {
        (48 + d) as char
    } else {
        (87 + d) as char
    }
}

/// `16` to the power `n`.
pub open spec fn pow16(n: nat) -> nat
    decreases n,
{
    if n == 0 {
        1
    } else {
        16 * pow16((n - 1) as nat)
    }
}

/// The text of a UUID as the crate writes it (`Uuid::to_string`): the 32
/// lower-case digits of its value, hyphenated 8-4-4-4-12.
pub open spec fn uuid_text(v: u128) -> Seq<char> {
    let d = hex_text(v as nat, 32);
    d.subrange(0, 8) + seq!['-'] + d.subrange(8, 12) + seq!['-'] + d.subrange(12, 16) + seq!['-']
        + d.subrange(16, 20) + seq!['-'] + d.subrange(20, 32)
}

proof fn lemma_pow16_positive(n: nat)
    ensures
        pow16(n) > 0,
    decreases n,
{
    if n > 0 {
        lemma_pow16_positive((n - 1) as nat);
    }
}

proof fn lemma_hex_text(v: nat, n: nat)
    ensures
        hex_text(v, n).len() == n,
        all_hex(hex_text(v, n)),
        hex_number(hex_text(v, n)) == v % pow16(n),
    decreases n,
{
    if n > 0 {
        let m = (n - 1) as nat;
        lemma_hex_text(v / 16, m);
        lemma_pow16_positive(m);
        let prev = hex_text(v / 16, m);
        let t = hex_text(v, n);
        assert(t.drop_last() =~= prev);
        assert(hex_digit_value(hex_char(v % 16)) == Some(v % 16));
        assert forall|i: int| 0 <= i < t.len() implies #[trigger] hex_digit_value(t[i]) is Some by {
            if i < prev.len() {
                assert(t[i] == prev[i]);
            }
        }
        vstd::arithmetic::div_mod::lemma_mod_breakdown(v as int, 16, pow16(m) as int);
    }
}

proof fn lemma_pow16_32()
    ensures
        pow16(32) == 0x1_0000_0000_0000_0000_0000_0000_0000_0000,
{
    assert(pow16(0) == 1);
    assert(pow16(1) == 16);
    assert(pow16(2) == 256);
    assert(pow16(3) == 4096);
    assert(pow16(4) == 65536);
    assert(pow16(5) == 1048576);
    assert(pow16(6) == 16777216);
    assert(pow16(7) == 268435456);
    assert(pow16(8) == 4294967296);
    assert(pow16(9) == 68719476736);
    assert(pow16(10) == 1099511627776);
    assert(pow16(11) == 17592186044416);
    assert(pow16(12) == 281474976710656);
    assert(pow16(13) == 4503599627370496);
    assert(pow16(14) == 72057594037927936);
    assert(pow16(15) == 1152921504606846976);
    assert(pow16(16) == 18446744073709551616);
    assert(pow16(17) == 295147905179352825856);
    assert(pow16(18) == 4722366482869645213696);
    assert(pow16(19) == 75557863725914323419136);
    assert(pow16(20) == 1208925819614629174706176);
    assert(pow16(21) == 19342813113834066795298816);
    assert(pow16(22) == 309485009821345068724781056);
    assert(pow16(23) == 4951760157141521099596496896);
    assert(pow16(24) == 79228162514264337593543950336);
    assert(pow16(25) == 1267650600228229401496703205376);
    assert(pow16(26) == 20282409603651670423947251286016);
    assert(pow16(27) == 324518553658426726783156020576256);
    assert(pow16(28) == 5192296858534827628530496329220096);
    assert(pow16(29) == 83076749736557242056487941267521536);
    assert(pow16(30) == 1329227995784915872903807060280344576);
    assert(pow16(31) == 21267647932558653966460912964485513216);
    assert(pow16(32) == 340282366920938463463374607431768211456);
}

proof fn lemma_uuid_text_digits(d: Seq<char>)
    requires
        d.len() == 32,
    ensures
        ({
            let t = d.subrange(0, 8) + seq!['-'] + d.subrange(8, 12) + seq!['-'] + d.subrange(12, 16)
                + seq!['-'] + d.subrange(16, 20) + seq!['-'] + d.subrange(20, 32);
            &&& t.len() == 36
            &&& t[8] == '-' && t[13] == '-' && t[18] == '-' && t[23] == '-'
            &&& hyphenated_digits(t) == d
        }),
{
    let t = d.subrange(0, 8) + seq!['-'] + d.subrange(8, 12) + seq!['-'] + d.subrange(12, 16)
        + seq!['-'] + d.subrange(16, 20) + seq!['-'] + d.subrange(20, 32);
    assert(t.subrange(0, 8) =~= d.subrange(0, 8));
    assert(t.subrange(9, 13) =~= d.subrange(8, 12));
    assert(t.subrange(14, 18) =~= d.subrange(12, 16));
    assert(t.subrange(19, 23) =~= d.subrange(16, 20));
    assert(t.subrange(24, 36) =~= d.subrange(20, 32));
    assert(hyphenated_digits(t) =~= d);
}

/// The text of a UUID is a hyphenated UUID whose value is that UUID: reading
/// back what is written gives the same value, so distinct values have
/// distinct texts.
pub proof fn lemma_uuid_text_round_trip(v: u128)
    ensures
        is_hyphenated_uuid(uuid_text(v)),
        hyphenated_value(uuid_text(v)) == v,
{
    let d = hex_text(v as nat, 32);
    lemma_hex_text(v as nat, 32);
    lemma_uuid_text_digits(d);
    lemma_pow16_32();
}

} // verus!
