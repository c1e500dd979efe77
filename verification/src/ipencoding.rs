//! The joinable-code encoding: an address and port packed into one number
//! and spelled as letters, base 25, digit `0` as `A` through digit `24`
//! as `Y`. Decoding accepts lower-case letters too and is otherwise
//! strict. Encoding and decoding are a bijection over the whole valid
//! input domain: every endpoint's code decodes back to exactly that
//! endpoint, which is proved below.
use vstd::arithmetic::div_mod::lemma_fundamental_div_mod;
use vstd::arithmetic::div_mod::lemma_fundamental_div_mod_converse;
use vstd::prelude::*;

verus! {

/// An address and port as plain values: the four dotted-quad parts and
/// the port number.
#[derive(Clone, Copy, Debug, PartialEq, Eq, Structural)]
pub struct Ipv4Endpoint {
    pub a: u8,
    pub b: u8,
    pub c: u8,
    pub d: u8,
    pub port: u16,
}

/// Decoding a code or its parts can fail: a number too large for its
/// field, or a character that is no letter.
#[derive(Clone, Copy, Debug, PartialEq, Eq)]
pub enum CodeToIpError {
    /// A decoded field does not fit its place; the offending value.
    Conversion(u128),
    /// A character that is not a letter.
    Char(char),
}

/// The digit value of one letter: `A` through `Z` and `a` through `z`
/// count from 0; anything else is no digit.
pub open spec fn letter_val(c: char) -> int {
    if 65 <= c as u32 <= 90 {
        c as u32 - 65
    } else if 97 <= c as u32 <= 122 {
        c as u32 - 97
    } else {
        -1
    }
}

/// Whether every character of a code is a letter.
pub open spec fn code_ok(s: Seq<char>) -> bool {
    forall|i: int| 0 <= i < s.len() ==> letter_val(#[trigger] s[i]) >= 0
}

/// The position of the first character that is no letter; the length
/// when all are letters.
pub open spec fn first_non_letter(s: Seq<char>) -> int
    decreases s.len(),
{
    if s.len() == 0 {
        0
    } else if letter_val(s[0]) < 0 {
        0
    } else {
        1 + first_non_letter(s.drop_first())
    }
}

/// A character that is no letter, with only letters before it, is the
/// first such character.
proof fn lemma_first_non_letter(s: Seq<char>, k: int)
    requires
        0 <= k < s.len(),
        letter_val(s[k]) < 0,
        forall|j: int| 0 <= j < k ==> letter_val(#[trigger] s[j]) >= 0,
    ensures
        first_non_letter(s) == k,
    decreases k,
{
    if k == 0 {
    } else {
        assert(letter_val(s[0]) >= 0);
        assert(s.drop_first()[k - 1] == s[k]);
        assert forall|j: int| 0 <= j < k - 1 implies letter_val(
            #[trigger] s.drop_first()[j],
        ) >= 0 by {
            assert(s.drop_first()[j] == s[j + 1]);
        }
        lemma_first_non_letter(s.drop_first(), k - 1);
    }
}

/// The number a code spells, most significant digit first, base 25.
pub open spec fn spec_code_val(s: Seq<char>) -> int
    decreases s.len(),
{
    if s.len() == 0 {
        0
    } else {
        spec_code_val(s.drop_last()) * 25 + letter_val(s.last())
    }
}

/// Successive powers of the base.
pub open spec fn pow25(k: nat) -> int
    decreases k,
{
    if k == 0 {
        1int
    } else {
        25 * pow25((k - 1) as nat)
    }
}

/// The number packed from an endpoint's parts: each dotted-quad part in
/// its own block of three decimal digits, the port above them.
pub open spec fn spec_packed(ip: Ipv4Endpoint) -> int {
    ip.d + ip.c * 1_000 + ip.b * 1_000_000 + ip.a * 1_000_000_000 + ip.port
        * 1_000_000_000_000
}

/// A character whose scalar value is at most 127 sits in the ASCII range.
proof fn lemma_char_ascii_range(c: char)
    ensures
        c as u32 <= 127 ==> '\0' <= c <= '\u{7f}',
{
}

proof fn lemma_pow25_pos(k: nat)
    ensures
        pow25(k) >= 1,
    decreases k,
{
    if k > 0 {
        lemma_pow25_pos((k - 1) as nat);
    }
}

/// Prepending one digit raises the rest of the code by one power.
proof fn lemma_code_val_cons(c: char, s: Seq<char>)
    ensures
        spec_code_val(seq![c] + s) == letter_val(c) * pow25(s.len()) + spec_code_val(s),
    decreases s.len(),
{
    if s.len() == 0 {
        assert(seq![c] + s =~= seq![c]);
        assert(seq![c].last() == c);
        assert(seq![c].drop_last() =~= Seq::<char>::empty());
        assert(spec_code_val(Seq::<char>::empty()) == 0);
        assert(spec_code_val(seq![c]) == letter_val(c));
        assert(s =~= Seq::<char>::empty());
        assert(pow25(s.len()) == 1);
    } else {
        assert((seq![c] + s).drop_last() =~= seq![c] + s.drop_last());
        assert((seq![c] + s).last() == s.last());
        lemma_code_val_cons(c, s.drop_last());
        let lv = letter_val(c);
        let p = pow25((s.len() - 1) as nat);
        let v = spec_code_val(s.drop_last());
        assert(spec_code_val(seq![c] + s) == (lv * p + v) * 25 + letter_val(s.last()));
        assert((lv * p + v) * 25 == lv * (25 * p) + v * 25) by (nonlinear_arith);
        assert(pow25(s.len()) == 25 * p);
    }
}

/// Converts a number from 0 to 25 to an upper-case letter; anything
/// larger has none and comes back unchanged.
pub fn int2letter(num: u128) -> (r: Result<char, u128>)
    ensures
        match r {
            Ok(c) => num <= 25 && c as u32 == 65 + num && letter_val(c) == num,
            Err(e) => num > 25 && e == num,
        },
{
    match num {
        0 => Ok('A'),
        1 => Ok('B'),
        2 => Ok('C'),
        3 => Ok('D'),
        4 => Ok('E'),
        5 => Ok('F'),
        6 => Ok('G'),
        7 => Ok('H'),
        8 => Ok('I'),
        9 => Ok('J'),
        10 => Ok('K'),
        11 => Ok('L'),
        12 => Ok('M'),
        13 => Ok('N'),
        14 => Ok('O'),
        15 => Ok('P'),
        16 => Ok('Q'),
        17 => Ok('R'),
        18 => Ok('S'),
        19 => Ok('T'),
        20 => Ok('U'),
        21 => Ok('V'),
        22 => Ok('W'),
        23 => Ok('X'),
        24 => Ok('Y'),
        25 => Ok('Z'),
        _ => Err(num),
    }
}

/// The digit value of an upper-case letter; anything else has none and
/// comes back unchanged.
pub fn letter2int(ltr: char) -> (r: Result<u8, char>)
    ensures
        match r {
            Ok(v) => 65 <= ltr as u32 <= 90 && v == ltr as u32 - 65,
            Err(e) => !(65 <= ltr as u32 <= 90) && e == ltr,
        },
{
    let u = ltr as u32;
    if 65 <= u && u <= 90 {
        Ok((u - 65) as u8)
    } else {
        Err(ltr)
    }
}

/// Spells a number as its letter code, most significant digit first;
/// every number has one, and it spells back to exactly that number. Only
/// the digits `A` through `Y` appear: a base-25 digit never reaches `Z`.
pub fn num_to_code(num: u128) -> (r: Result<String, u128>)
    ensures
        r matches Ok(code) && code_ok(code@) && spec_code_val(code@) == num && code@.len() >= 1,
        r matches Ok(code) ==> (forall|i: int|
            0 <= i < code@.len() ==> 65 <= (#[trigger] code@[i]) as u32 <= 89),
        r matches Ok(code) ==> (code@.len() > 1 ==> code@[0] as u32 > 65),
{
    let ghost n0 = num;
    let mut num = num;
    let mut bytes: Vec<u8> = Vec::new();
    let d0 = (num % 25) as u8;
    bytes.push(65 + d0);
    proof {
        let chars = Seq::new(bytes@.len(), |i: int| bytes@[i] as char);
        assert(chars =~= seq![(65 + d0) as char]);
        assert(chars.last() == (65 + d0) as char);
        assert(chars.drop_last() =~= Seq::<char>::empty());
        assert(spec_code_val(Seq::<char>::empty()) == 0);
        assert(((65 + d0) as char) as u32 == 65 + d0);
        assert(letter_val((65 + d0) as char) == d0);
        assert(spec_code_val(chars) == d0);
        lemma_fundamental_div_mod(n0 as int, 25);
        assert(pow25(0) == 1);
        assert(pow25(1) == 25);
        assert((n0 as int) / 25 * 25 == n0 - d0) by (nonlinear_arith)
            requires
                n0 as int == 25 * ((n0 as int) / 25) + ((n0 as int) % 25),
                d0 == (n0 as int) % 25,
        ;
    }
    num = num / 25;
    while num > 0
        invariant
            bytes@.len() >= 1,
            forall|i: int| 0 <= i < bytes@.len() ==> 65 <= #[trigger] bytes@[i] <= 89,
            num == 0 ==> (bytes@.len() == 1 || bytes@[0] > 65),
            spec_code_val(Seq::new(bytes@.len(), |i: int| bytes@[i] as char)) + num * pow25(
                bytes@.len(),
            ) == n0,
        decreases num,
    {
        let ghost chars = Seq::new(bytes@.len(), |i: int| bytes@[i] as char);
        let ghost numg = num as int;
        let d = (num % 25) as u8;
        bytes.insert(0, 65 + d);
        proof {
            let chars2 = Seq::new(bytes@.len(), |i: int| bytes@[i] as char);
            assert(chars2 =~= seq![(65 + d) as char] + chars);
            lemma_code_val_cons((65 + d) as char, chars);
            lemma_fundamental_div_mod(numg, 25);
            assert((numg / 25) * 25 * pow25(chars.len()) == (numg / 25) * pow25(
                chars.len() + 1,
            )) by (nonlinear_arith)
                requires
                    pow25(chars.len() + 1) == 25 * pow25(chars.len()),
            ;
            assert(d * pow25(chars.len()) + (numg / 25) * 25 * pow25(chars.len()) == numg * pow25(
                chars.len(),
            )) by (nonlinear_arith)
                requires
                    numg == 25 * (numg / 25) + d,
            ;
        }
        num = num / 25;
        proof {
            assert(num < numg) by (nonlinear_arith)
                requires
                    numg > 0 && num == numg / 25,
            ;
        }
    }
    let ghost chars = Seq::new(bytes@.len(), |i: int| bytes@[i] as char);
    proof {
        lemma_pow25_pos(bytes@.len() as nat);
        assert(spec_code_val(chars) == n0);
        assert(vstd::utf8::is_ascii_chars(chars));
        vstd::utf8::is_ascii_chars_encode_utf8(chars);
        assert(vstd::utf8::encode_utf8(chars) =~= bytes@);
        vstd::utf8::encode_utf8_valid_utf8(chars);
        vstd::utf8::encode_utf8_decode_utf8(chars);
    }
    match crate::seri::string_from_utf8(bytes) {
        Some(code) => {
            proof {
                vstd::utf8::encode_utf8_decode_utf8(code@);
                assert(code@ == chars);
                assert forall|i: int| 0 <= i < code@.len() implies 65 <= (
                #[trigger] code@[i]) as u32 <= 89 by {
                    assert(code@[i] == bytes@[i] as char);
                    assert((bytes@[i] as char) as u32 == bytes@[i]);
                }
                if code@.len() > 1 {
                    assert(code@[0] == bytes@[0] as char);
                    assert((bytes@[0] as char) as u32 == bytes@[0]);
                }
            }
            Ok(code)
        },
        None => {
            proof {
                assert(false);
            }
            Err(num)
        },
    }
}

/// Reads a letter code back into its number, most significant digit
/// first, either case accepted. Fails exactly on a character that is no
/// letter, or on a code spelling a number too large to hold; when the
/// failure is a non-letter in an ASCII code, the error carries the first
/// such character.
pub fn code_to_num(code: String) -> (r: Result<u128, char>)
    ensures
        r is Ok <==> code_ok(code@) && spec_code_val(code@) <= u128::MAX,
        r matches Ok(v) ==> v == spec_code_val(code@),
        match r {
            Err(c) => (vstd::utf8::is_ascii_chars(code@) && letter_val(c) < 0) ==> (
            first_non_letter(code@) < code@.len() && c == code@[first_non_letter(code@)]),
            Ok(_) => true,
        },
{
    let bytes = code.as_str().as_bytes();
    if !code.as_str().is_ascii() {
        // A code is letters only; any non-ASCII character disqualifies
        // it. Find one to report.
        let ghost s = code@;
        assert(!vstd::utf8::is_ascii_chars(s));
        proof {
            if code_ok(s) {
                assert forall|i: int|
                    0 <= i < s.len() implies '\0' <= #[trigger] s[i] <= '\u{7f}' by {
                    assert(letter_val(s[i]) >= 0);
                    assert(s[i] as u32 <= 122);
                    lemma_char_ascii_range(s[i]);
                }
                assert(vstd::utf8::is_ascii_chars(s));
            }
        }
        return Err('?');
    }
    proof {
        vstd::utf8::is_ascii_chars_encode_utf8(code@);
    }
    let mut res: u128 = 0;
    let mut i: usize = 0;
    let n = bytes.len();
    while i < n
        invariant
            n == bytes@.len(),
            vstd::utf8::is_ascii_chars(code@),
            bytes@ == vstd::utf8::encode_utf8(code@),
            bytes@ =~= Seq::new(code@.len(), |j: int| code@[j] as u8),
            i <= n,
            code_ok(code@.take(i as int)),
            res == spec_code_val(code@.take(i as int)),
        decreases n - i,
    {
        let b = *vstd::slice::slice_index_get(bytes, i);
        let ghost c = code@[i as int];
        proof {
            assert(b == c as u8);
            assert((c as u32) < 128);
            assert(c as u32 == b);
        }
        let d: u8 = if 65 <= b && b <= 90 {
            b - 65
        } else if 97 <= b && b <= 122 {
            b - 97
        } else {
            proof {
                assert(letter_val(c) < 0);
                assert((b as char) as u32 == b);
                vstd::utf8::char_u32_cast(c, b as u32);
                assert((b as char) == c);
                assert forall|j: int| 0 <= j < i as int implies letter_val(
                    #[trigger] code@[j],
                ) >= 0 by {
                    assert(code@.take(i as int)[j] == code@[j]);
                }
                lemma_first_non_letter(code@, i as int);
            }
            return Err((b as char));
        };
        proof {
            assert(letter_val(c) == d);
        }
        if res > (u128::MAX - (d as u128)) / 25 {
            proof {
                lemma_fundamental_div_mod((u128::MAX - d) as int, 25);
                assert(spec_code_val(code@.take(i as int)) * 25 + d > u128::MAX)
                    by (nonlinear_arith)
                    requires
                        spec_code_val(code@.take(i as int)) > ((u128::MAX - d) as int) / 25,
                        ((u128::MAX - d) as int) == 25 * (((u128::MAX - d) as int) / 25) + (((
                        u128::MAX - d) as int) % 25),
                        0 <= ((u128::MAX - d) as int) % 25 < 25,
                        0 <= d <= 25,
                ;
                if code_ok(code@) {
                    lemma_code_val_monotonic(code@, i as int);
                }
            }
            return Err((b as char));
        }
        proof {
            lemma_fundamental_div_mod((u128::MAX - d) as int, 25);
            assert(res * 25 + d <= u128::MAX) by (nonlinear_arith)
                requires
                    res <= ((u128::MAX - d) as int) / 25,
                    ((u128::MAX - d) as int) == 25 * (((u128::MAX - d) as int) / 25) + (((
                    u128::MAX - d) as int) % 25),
                    0 <= ((u128::MAX - d) as int) % 25 < 25,
                    0 <= d <= 25,
                    res >= 0,
            ;
            assert(code@.take(i + 1 as int).drop_last() =~= code@.take(i as int));
        }
        res = res * 25 + (d as u128);
        i = i + 1;
    }
    proof {
        assert(code@.take(n as int) =~= code@);
    }
    Ok(res)
}

/// The port read back out of a packed number.
pub open spec fn spec_unpack_port(n: int) -> int {
    n / 1_000_000_000_000
}

/// The first address part read back out of a packed number.
pub open spec fn spec_unpack_a(n: int) -> int {
    (n % 1_000_000_000_000) / 1_000_000_000
}

/// The second address part read back out of a packed number.
pub open spec fn spec_unpack_b(n: int) -> int {
    ((n % 1_000_000_000_000) % 1_000_000_000) / 1_000_000
}

/// The third address part read back out of a packed number.
pub open spec fn spec_unpack_c(n: int) -> int {
    (((n % 1_000_000_000_000) % 1_000_000_000) % 1_000_000) / 1_000
}

/// The fourth address part read back out of a packed number.
pub open spec fn spec_unpack_d(n: int) -> int {
    (((n % 1_000_000_000_000) % 1_000_000_000) % 1_000_000) % 1_000
}

/// Whether each part read back fits its field.
pub open spec fn spec_unpack_ok(n: int) -> bool {
    &&& spec_unpack_port(n) <= u16::MAX
    &&& spec_unpack_a(n) <= u8::MAX
    &&& spec_unpack_b(n) <= u8::MAX
    &&& spec_unpack_c(n) <= u8::MAX
    &&& spec_unpack_d(n) <= u8::MAX
}

/// The bijection, number side: packing an endpoint and unpacking the
/// number yields the endpoint's parts again, each in range.
pub proof fn lemma_pack_unpack(ip: Ipv4Endpoint)
    ensures
        spec_unpack_ok(spec_packed(ip)),
        spec_unpack_port(spec_packed(ip)) == ip.port,
        spec_unpack_a(spec_packed(ip)) == ip.a,
        spec_unpack_b(spec_packed(ip)) == ip.b,
        spec_unpack_c(spec_packed(ip)) == ip.c,
        spec_unpack_d(spec_packed(ip)) == ip.d,
{
    let n = spec_packed(ip);
    let r1 = ip.d + ip.c * 1_000 + ip.b * 1_000_000 + ip.a * 1_000_000_000;
    lemma_fundamental_div_mod_converse(n, 1_000_000_000_000, ip.port as int, r1);
    let r2 = ip.d + ip.c * 1_000 + ip.b * 1_000_000;
    lemma_fundamental_div_mod_converse(r1, 1_000_000_000, ip.a as int, r2);
    let r3 = ip.d + ip.c * 1_000;
    lemma_fundamental_div_mod_converse(r2, 1_000_000, ip.b as int, r3);
    lemma_fundamental_div_mod_converse(r3, 1_000, ip.c as int, ip.d as int);
}

/// Packs an endpoint's parts into one number and spells it as a letter
/// code: the joinable form of an address. Every endpoint has one, and it
/// reads back to exactly this endpoint.
pub fn ip_to_code(ip: Ipv4Endpoint) -> (r: Result<String, u128>)
    ensures
        r matches Ok(code) && code_ok(code@) && spec_code_val(code@) == spec_packed(ip),
{
    let combined: u128 = ip.d as u128 + ip.c as u128 * 1_000 + ip.b as u128 * 1_000_000
        + ip.a as u128 * 1_000_000_000 + ip.port as u128 * 1_000_000_000_000;
    num_to_code(combined)
}

/// Reads a letter code back into an endpoint. Fails exactly on a
/// character that is no letter, on a code spelling a number too large to
/// hold, or on a part that does not fit its field; every code produced by
/// `ip_to_code` succeeds.
pub fn code_to_ip_safe(code: String) -> (r: Result<Ipv4Endpoint, CodeToIpError>)
    ensures
        match r {
            Ok(ip) => {
                &&& code_ok(code@) && spec_code_val(code@) <= u128::MAX
                &&& spec_unpack_ok(spec_code_val(code@))
                &&& ip.port == spec_unpack_port(spec_code_val(code@))
                &&& ip.a == spec_unpack_a(spec_code_val(code@))
                &&& ip.b == spec_unpack_b(spec_code_val(code@))
                &&& ip.c == spec_unpack_c(spec_code_val(code@))
                &&& ip.d == spec_unpack_d(spec_code_val(code@))
            },
            Err(CodeToIpError::Char(_)) => !(code_ok(code@) && spec_code_val(code@)
                <= u128::MAX),
            Err(CodeToIpError::Conversion(_)) => code_ok(code@) && spec_code_val(code@)
                <= u128::MAX && !spec_unpack_ok(spec_code_val(code@)),
        },
{
    let combined = match code_to_num(code) {
        Err(c) => {
            return Err(CodeToIpError::Char(c));
        },
        Ok(v) => v,
    };
    let port = combined / 1_000_000_000_000;
    let r1 = combined % 1_000_000_000_000;
    let a = r1 / 1_000_000_000;
    let r2 = r1 % 1_000_000_000;
    let b = r2 / 1_000_000;
    let r3 = r2 % 1_000_000;
    let c = r3 / 1_000;
    let d = r3 % 1_000;
    if port > u16::MAX as u128 {
        return Err(CodeToIpError::Conversion(port));
    }
    if a > u8::MAX as u128 {
        return Err(CodeToIpError::Conversion(a));
    }
    if b > u8::MAX as u128 {
        return Err(CodeToIpError::Conversion(b));
    }
    if c > u8::MAX as u128 {
        return Err(CodeToIpError::Conversion(c));
    }
    if d > u8::MAX as u128 {
        return Err(CodeToIpError::Conversion(d));
    }
    Ok(
        Ipv4Endpoint {
            a: a as u8,
            b: b as u8,
            c: c as u8,
            d: d as u8,
            port: port as u16,
        },
    )
}

/// Reads a letter code that is known to be well formed back into an
/// endpoint; the caller vouches that the code spells a packed endpoint
/// whose every part fits.
pub fn code_to_ip(code: String) -> (r: Ipv4Endpoint)
    requires
        code_ok(code@),
        spec_code_val(code@) <= u128::MAX,
        spec_unpack_ok(spec_code_val(code@)),
    ensures
        r.port == spec_unpack_port(spec_code_val(code@)),
        r.a == spec_unpack_a(spec_code_val(code@)),
        r.b == spec_unpack_b(spec_code_val(code@)),
        r.c == spec_unpack_c(spec_code_val(code@)),
        r.d == spec_unpack_d(spec_code_val(code@)),
{
    let ghost v = spec_code_val(code@);
    match code_to_ip_safe(code) {
        Ok(ip) => ip,
        Err(_) => {
            proof {
                assert(false);
            }
            Ipv4Endpoint { a: 0, b: 0, c: 0, d: 0, port: 0 }
        },
    }
}

/// A longer prefix of letters never spells a smaller number: once the
/// next digit would overflow, the whole code overflows.
proof fn lemma_code_val_monotonic(s: Seq<char>, i: int)
    requires
        0 <= i < s.len(),
        code_ok(s),
    ensures
        spec_code_val(s.take(i)) * 25 + letter_val(s[i]) > u128::MAX ==> spec_code_val(s)
            > u128::MAX,
{
    if spec_code_val(s.take(i)) * 25 + letter_val(s[i]) > u128::MAX {
        lemma_code_val_grows(s, i + 1);
        assert(s.take(i + 1).drop_last() =~= s.take(i));
        assert(s.take(i + 1).last() == s[i]);
    }
}

/// Appending digits to a letter code never shrinks the number it spells.
proof fn lemma_code_val_grows(s: Seq<char>, k: int)
    requires
        0 <= k <= s.len(),
        code_ok(s),
    ensures
        spec_code_val(s) >= spec_code_val(s.take(k)),
        spec_code_val(s.take(k)) >= 0,
    decreases s.len() - k,
{
    if k < s.len() {
        lemma_code_val_grows(s, k + 1);
        assert(s.take(k + 1).drop_last() =~= s.take(k));
        assert(s.take(k + 1).last() == s[k]);
        assert(code_ok(s.take(k))) by {
            assert(forall|i: int| 0 <= i < k ==> s.take(k)[i] == #[trigger] s[i]);
        }
        lemma_code_val_nonneg(s.take(k));
        let v = spec_code_val(s.take(k));
        assert(v * 25 >= v) by (nonlinear_arith)
            requires
                v >= 0,
        ;
    } else {
        assert(s.take(k) =~= s);
        lemma_code_val_nonneg(s);
    }
}

proof fn lemma_code_val_nonneg(s: Seq<char>)
    requires
        code_ok(s),
    ensures
        spec_code_val(s) >= 0,
    decreases s.len(),
{
    if s.len() > 0 {
        assert(code_ok(s.drop_last())) by {
            assert(forall|i: int|
                0 <= i < s.len() - 1 ==> s.drop_last()[i] == #[trigger] s[i]);
        }
        lemma_code_val_nonneg(s.drop_last());
        let v = spec_code_val(s.drop_last());
        assert(v * 25 >= 0) by (nonlinear_arith)
            requires
                v >= 0,
        ;
    }
}

} // verus!
