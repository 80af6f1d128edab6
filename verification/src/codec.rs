//! The build codec: a build becomes a shareable token by rendering its
//! canonical text, spelling every byte as two lowercase hex digits, and
//! base64-encoding the digit string with the URL-safe alphabet and padding.
//! Decoding reverses the three layers in order and reports the first layer
//! that fails as a distinct error.

use vstd::prelude::*;

use crate::jsontext::dec_digits;
use crate::jsontext::halves_digits;
use crate::jsontext::json_of;
use crate::jsontext::json_parsed;
use crate::jsontext::lemma_dec_digits_props;
use crate::jsontext::lemma_json_round_trip;
use crate::jsontext::lit_crafting;
use crate::jsontext::lit_fleet;
use crate::jsontext::lit_head;
use crate::jsontext::lit_points;
use crate::jsontext::lit_rescue;
use crate::jsontext::lit_starpath;
use crate::jsontext::parse_json;
use crate::jsontext::points_list_bytes;
use crate::jsontext::qtrack;
use crate::jsontext::render_json;
use crate::privileges::PrivilegePoint;
use crate::privileges::Privileges;
use crate::CouncilRank;

verus! {

/// Why a token was rejected, by layer, outermost first. Decoding stops at
/// the first failing layer.
#[derive(Clone, Copy, Debug, PartialEq, Eq, Structural)]
pub enum DecodeError {
    /// The token is not valid URL-safe base64.
    InvalidBase64,
    /// The base64 payload is not text.
    InvalidUtf8AfterBase64,
    /// The text is not a well-formed hex digit string.
    InvalidHex,
    /// The hex-decoded bytes are not text.
    InvalidUtf8AfterHex,
    /// The text does not parse as the canonical representation.
    InvalidStructure,
}

/// Point budget above which a build is refused a token, so that the token's
/// byte counts stay far inside address-space limits on any machine.
pub const MAX_TOKEN_POINTS: usize = 10000000;

// ---------------------------------------------------------------------------
// The hex layer, specified exactly.
// ---------------------------------------------------------------------------

/// The lowercase hex digit for a nibble.
pub open spec fn hex_digit_char(n: u8) -> u8 {
    if n < 10 {
        (48 + n) as u8
    } else {
        (87 + n) as u8
    }
}

/// Each byte as two lowercase hex digits, high nibble first.
pub open spec fn hex_of(b: Seq<u8>) -> Seq<u8>
    decreases b.len(),
{
    if b.len() == 0 {
        seq![]
    } else {
        seq![hex_digit_char(b[0] / 16), hex_digit_char(b[0] % 16)] + hex_of(b.skip(1))
    }
}

/// An upper- or lower-case hex digit.
pub open spec fn is_hex_digit(c: u8) -> bool {
    (48 <= c <= 57) || (97 <= c <= 102) || (65 <= c <= 70)
}

/// Value of one hex digit, either case.
pub open spec fn hex_val(c: u8) -> u8 {
    if 48 <= c <= 57 {
        (c - 48) as u8
    } else if 97 <= c {
        (c - 87) as u8
    } else {
        (c - 55) as u8
    }
}

/// A well-formed hex digit string: even length, digits only.
pub open spec fn hex_valid(s: Seq<u8>) -> bool {
    s.len() % 2 == 0 && (forall|i: int| 0 <= i < s.len() ==> is_hex_digit(s[i]))
}

/// The bytes a well-formed hex digit string spells.
pub open spec fn hex_decoded(s: Seq<u8>) -> Seq<u8>
    decreases s.len(),
{
    if s.len() < 2 {
        seq![]
    } else {
        seq![(hex_val(s[0]) * 16 + hex_val(s[1])) as u8] + hex_decoded(s.skip(2))
    }
}

/// Bytes that are all ASCII.
pub open spec fn all_ascii(s: Seq<u8>) -> bool {
    forall|i: int| 0 <= i < s.len() ==> s[i] < 128
}

// ---------------------------------------------------------------------------
// Lemmas about the layers.
// ---------------------------------------------------------------------------

proof fn lemma_all_ascii_concat(a: Seq<u8>, b: Seq<u8>)
    requires
        all_ascii(a),
        all_ascii(b),
    ensures
        all_ascii(a + b),
{
    assert forall|i: int| 0 <= i < (a + b).len() implies (a + b)[i] < 128 by {
        if i < a.len() {
            assert((a + b)[i] == a[i]);
        } else {
            assert((a + b)[i] == b[i - a.len()]);
        }
    }
}

/// ASCII bytes are valid UTF-8.
pub proof fn lemma_ascii_valid_utf8(s: Seq<u8>)
    requires
        all_ascii(s),
    ensures
        vstd::utf8::valid_utf8(s),
{
    assert(s.subrange(0, 0) =~= Seq::<u8>::empty());
    assert(vstd::utf8::valid_utf8(Seq::<u8>::empty()));
    assert(vstd::utf8::partial_valid_utf8(s, 0));
    vstd::utf8::partial_valid_utf8_extend_ascii_block(s, 0, s.len() as int);
    assert(s.subrange(0, s.len() as int) =~= s);
}

/// The hex layer round-trips: the rendering of any bytes is a well-formed
/// ASCII digit string that decodes back to those bytes.
pub proof fn lemma_hex_round_trip(b: Seq<u8>)
    ensures
        hex_of(b).len() == 2 * b.len(),
        hex_valid(hex_of(b)),
        all_ascii(hex_of(b)),
        hex_decoded(hex_of(b)) == b,
    decreases b.len(),
{
    if b.len() == 0 {
        assert(hex_decoded(hex_of(b)) =~= b);
    } else {
        lemma_hex_round_trip(b.skip(1));
        let x = b[0];
        let s = hex_of(b);
        let pair = seq![hex_digit_char(x / 16), hex_digit_char(x % 16)];
        assert(s == pair + hex_of(b.skip(1)));
        assert(is_hex_digit(hex_digit_char(x / 16)) && hex_digit_char(x / 16) < 128);
        assert(is_hex_digit(hex_digit_char(x % 16)) && hex_digit_char(x % 16) < 128);
        assert forall|i: int| 0 <= i < s.len() implies is_hex_digit(s[i]) && s[i] < 128 by {
            if i >= 2 {
                assert(s[i] == hex_of(b.skip(1))[i - 2]);
            }
        }
        assert(hex_val(hex_digit_char(x / 16)) == x / 16);
        assert(hex_val(hex_digit_char(x % 16)) == x % 16);
        vstd::arithmetic::div_mod::lemma_fundamental_div_mod(x as int, 16);
        assert(s.skip(2) =~= hex_of(b.skip(1)));
        assert(hex_decoded(s) == seq![x] + hex_decoded(s.skip(2)));
        assert(hex_decoded(s) =~= b);
    }
}

/// Powers of ten, for digit-count bounds.
spec fn pow10(k: nat) -> nat
    decreases k,
{
    if k == 0 {
        1
    } else {
        10 * pow10((k - 1) as nat)
    }
}

proof fn lemma_dec_digits_len(n: nat, k: nat)
    requires
        n < pow10(k),
        k >= 1,
    ensures
        dec_digits(n).len() <= k,
    decreases k,
{
    if n < 10 {
    } else {
        assert(pow10(k) == 10 * pow10((k - 1) as nat));
        if k == 1 {
            assert(pow10(0) == 1);
            assert(false);
        }
        vstd::arithmetic::div_mod::lemma_fundamental_div_mod(n as int, 10);
        if n / 10 >= pow10((k - 1) as nat) {
            assert(10 * (n / 10) >= 10 * pow10((k - 1) as nat));
            assert(false);
        }
        lemma_dec_digits_len(n / 10, (k - 1) as nat);
    }
}

/// Any machine-word value prints in at most twenty digits.
proof fn lemma_usize_digits_len(n: nat)
    requires
        n <= usize::MAX,
    ensures
        dec_digits(n).len() <= 20,
{
    reveal_with_fuel(pow10, 21);
    assert(pow10(20) == 100000000000000000000);
    assert(n < pow10(20));
    lemma_dec_digits_len(n, 20);
}

proof fn lemma_points_list_len(pts: Seq<PrivilegePoint>)
    ensures
        points_list_bytes(pts).len() <= 19 * pts.len(),
    decreases pts.len(),
{
    if pts.len() == 0 {
    } else if pts.len() == 1 {
        assert(qtrack(pts[0]).len() <= 18);
    } else {
        lemma_points_list_len(pts.drop_last());
        assert(qtrack(pts.last()).len() <= 18);
    }
}

/// The canonical text grows linearly in the history length.
pub proof fn lemma_json_of_len(p: Privileges, pts: Seq<PrivilegePoint>)
    ensures
        json_of(p, pts).len() <= 300 + 20 * pts.len(),
{
    lemma_usize_digits_len(p.concurrent_fleets as nat);
    lemma_usize_digits_len(p.fleet_size as nat);
    lemma_usize_digits_len(p.crafting_capacity as nat);
    lemma_usize_digits_len((p.starpath_pass_halves as nat) / 2);
    lemma_usize_digits_len((p.expedited_rescue_halves as nat) / 2);
    lemma_points_list_len(pts);
}

proof fn lemma_dec_digits_ascii(n: nat)
    ensures
        all_ascii(dec_digits(n)),
{
    lemma_dec_digits_props(n);
    assert forall|i: int| 0 <= i < dec_digits(n).len() implies dec_digits(n)[i] < 128 by {
        assert(crate::jsontext::is_digit(dec_digits(n)[i]));
    }
}

proof fn lemma_halves_digits_ascii(h: nat)
    ensures
        all_ascii(halves_digits(h)),
{
    lemma_dec_digits_ascii(h / 2);
    lemma_all_ascii_concat(dec_digits(h / 2), seq![46u8]);
    lemma_all_ascii_concat(
        dec_digits(h / 2) + seq![46u8],
        seq![(if h % 2 == 1 {
            53u8
        } else {
            48u8
        })],
    );
}

proof fn lemma_qtrack_ascii(t: PrivilegePoint)
    ensures
        all_ascii(qtrack(t)),
{
}

proof fn lemma_points_list_ascii(pts: Seq<PrivilegePoint>)
    ensures
        all_ascii(points_list_bytes(pts)),
    decreases pts.len(),
{
    if pts.len() == 0 {
    } else if pts.len() == 1 {
        lemma_qtrack_ascii(pts[0]);
    } else {
        lemma_points_list_ascii(pts.drop_last());
        lemma_qtrack_ascii(pts.last());
        lemma_all_ascii_concat(points_list_bytes(pts.drop_last()), seq![44u8]);
        lemma_all_ascii_concat(points_list_bytes(pts.drop_last()) + seq![44u8], qtrack(
            pts.last(),
        ));
    }
}

/// The canonical text is pure ASCII.
pub proof fn lemma_json_of_ascii(p: Privileges, pts: Seq<PrivilegePoint>)
    ensures
        all_ascii(json_of(p, pts)),
{
    lemma_dec_digits_ascii(p.concurrent_fleets as nat);
    lemma_dec_digits_ascii(p.fleet_size as nat);
    lemma_dec_digits_ascii(p.crafting_capacity as nat);
    lemma_halves_digits_ascii(p.starpath_pass_halves as nat);
    lemma_halves_digits_ascii(p.expedited_rescue_halves as nat);
    lemma_points_list_ascii(pts);
    let c1 = lit_head();
    let c2 = c1 + dec_digits(p.concurrent_fleets as nat);
    lemma_all_ascii_concat(c1, dec_digits(p.concurrent_fleets as nat));
    let c3 = c2 + lit_fleet();
    lemma_all_ascii_concat(c2, lit_fleet());
    let c4 = c3 + dec_digits(p.fleet_size as nat);
    lemma_all_ascii_concat(c3, dec_digits(p.fleet_size as nat));
    let c5 = c4 + lit_crafting();
    lemma_all_ascii_concat(c4, lit_crafting());
    let c6 = c5 + dec_digits(p.crafting_capacity as nat);
    lemma_all_ascii_concat(c5, dec_digits(p.crafting_capacity as nat));
    let c7 = c6 + lit_starpath();
    lemma_all_ascii_concat(c6, lit_starpath());
    let c8 = c7 + halves_digits(p.starpath_pass_halves as nat);
    lemma_all_ascii_concat(c7, halves_digits(p.starpath_pass_halves as nat));
    let c9 = c8 + lit_rescue();
    lemma_all_ascii_concat(c8, lit_rescue());
    let c10 = c9 + halves_digits(p.expedited_rescue_halves as nat);
    lemma_all_ascii_concat(c9, halves_digits(p.expedited_rescue_halves as nat));
    let c11 = c10 + lit_points();
    lemma_all_ascii_concat(c10, lit_points());
    let c12 = c11 + seq![91u8];
    lemma_all_ascii_concat(c11, seq![91u8]);
    let c13 = c12 + points_list_bytes(pts);
    lemma_all_ascii_concat(c12, points_list_bytes(pts));
    let c14 = c13 + seq![93u8];
    lemma_all_ascii_concat(c13, seq![93u8]);
    lemma_all_ascii_concat(c14, seq![125u8]);
    assert(json_of(p, pts) == c14 + seq![125u8]);
}

// ---------------------------------------------------------------------------
// The base64 layer, named: its exact output takes pages to state, but it is
// a function of the bytes alone, and decode inverts encode.
// ---------------------------------------------------------------------------

/// The URL-safe, padded base64 rendering of bytes.
pub uninterp spec fn base64_url_of(b: Seq<u8>) -> Seq<char>;

/// What URL-safe base64 decoding makes of a string: the bytes it spells, or
/// nothing when it is not valid base64.
pub uninterp spec fn base64_url_decoded(s: Seq<char>) -> Option<Seq<u8>>;

/// Relies on base64's `Engine::encode` with the `URL_SAFE` engine: the
/// padded URL-safe rendering of the bytes, which `Engine::decode` inverts.
#[verifier::external_body]
fn base64_encode(b: &[u8]) -> (r: String)
    requires
        b@.len() <= usize::MAX / 4,
    ensures
        r@ == base64_url_of(b@),
        base64_url_decoded(r@) == Some(b@),
{
    base64::Engine::encode(&base64::engine::general_purpose::URL_SAFE, b)
}

/// Relies on base64's `Engine::decode` with the `URL_SAFE` engine: returns
/// the spelled bytes exactly when the input is valid URL-safe base64.
#[verifier::external_body]
fn base64_decode(s: &str) -> (r: Option<Vec<u8>>)
    ensures
        match r {
            Some(v) => base64_url_decoded(s@) == Some(v@),
            None => base64_url_decoded(s@) is None,
        },
{
    match base64::Engine::decode(&base64::engine::general_purpose::URL_SAFE, s) {
        Ok(v) => Some(v),
        Err(_) => None,
    }
}

/// Relies on hex::encode: two lowercase digits per byte, high nibble first.
#[verifier::external_body]
fn hex_encode_bytes(b: &[u8]) -> (r: Vec<u8>)
    requires
        b@.len() <= usize::MAX / 2,
    ensures
        r@ == hex_of(b@),
{
    hex::encode(b).into_bytes()
}

/// Relies on hex::decode: accepts an even count of upper- or lower-case hex
/// digits and returns the bytes they spell; rejects anything else.
#[verifier::external_body]
fn hex_decode_bytes(b: &[u8]) -> (r: Option<Vec<u8>>)
    ensures
        match r {
            Some(v) => hex_valid(b@) && v@ == hex_decoded(b@),
            None => !hex_valid(b@),
        },
{
    match hex::decode(b) {
        Ok(v) => Some(v),
        Err(_) => None,
    }
}

/// Relies on std's `str::from_utf8`: accepts exactly valid UTF-8.
#[verifier::external_body]
fn utf8_check(b: &[u8]) -> (r: bool)
    ensures
        r == vstd::utf8::valid_utf8(b@),
{
    core::str::from_utf8(b).is_ok()
}

// ---------------------------------------------------------------------------
// The codec itself.
// ---------------------------------------------------------------------------

/// What decoding makes of a token, layer by layer: the first failing layer's
/// error, or the decoded values.
pub open spec fn decode_spec(s: Seq<char>) -> Result<
    (Privileges, Seq<PrivilegePoint>),
    DecodeError,
> {
    match base64_url_decoded(s) {
        None => Err(DecodeError::InvalidBase64),
        Some(hb) => if !vstd::utf8::valid_utf8(hb) {
            Err(DecodeError::InvalidUtf8AfterBase64)
        } else if !hex_valid(hb) {
            Err(DecodeError::InvalidHex)
        } else if !vstd::utf8::valid_utf8(hex_decoded(hb)) {
            Err(DecodeError::InvalidUtf8AfterHex)
        } else {
            match json_parsed(hex_decoded(hb)) {
                None => Err(DecodeError::InvalidStructure),
                Some(v) => Ok(v),
            }
        },
    }
}

/// Serializes a build to its shareable token. The token decodes back to
/// exactly this build: the second clause below is the round-trip contract.
pub fn encode(rank: &CouncilRank) -> (r: String)
    requires
        rank.privilege_points@.len() <= MAX_TOKEN_POINTS,
    ensures
        r@ == base64_url_of(hex_of(json_of(rank.privileges, rank.privilege_points@))),
        decode_spec(r@) == Ok::<(Privileges, Seq<PrivilegePoint>), DecodeError>(
            (rank.privileges, rank.privilege_points@),
        ),
{
    let jb = render_json(&rank.privileges, &rank.privilege_points);
    proof {
        lemma_json_of_len(rank.privileges, rank.privilege_points@);
        lemma_json_of_ascii(rank.privileges, rank.privilege_points@);
        lemma_hex_round_trip(jb@);
        lemma_ascii_valid_utf8(hex_of(jb@));
        lemma_ascii_valid_utf8(jb@);
        lemma_json_round_trip(rank.privileges, rank.privilege_points@);
    }
    let hb = hex_encode_bytes(jb.as_slice());
    base64_encode(hb.as_slice())
}

/// Restores a build from a token, reversing the three layers in order and
/// stopping at the first failing layer with its distinct error.
pub fn decode(token: &str) -> (r: Result<CouncilRank, DecodeError>)
    ensures
        match r {
            Ok(rank) => decode_spec(token@) == Ok::<(Privileges, Seq<PrivilegePoint>), DecodeError>(
                (rank.privileges, rank.privilege_points@),
            ),
            Err(e) => decode_spec(token@) == Err::<(Privileges, Seq<PrivilegePoint>), DecodeError>(
                e,
            ),
        },
{
    let hb = match base64_decode(token) {
        Some(v) => v,
        None => {
            return Err(DecodeError::InvalidBase64);
        },
    };
    if !utf8_check(hb.as_slice()) {
        return Err(DecodeError::InvalidUtf8AfterBase64);
    }
    let jb = match hex_decode_bytes(hb.as_slice()) {
        Some(v) => v,
        None => {
            return Err(DecodeError::InvalidHex);
        },
    };
    if !utf8_check(jb.as_slice()) {
        return Err(DecodeError::InvalidUtf8AfterHex);
    }
    match parse_json(jb.as_slice()) {
        Some(rank) => Ok(rank),
        None => Err(DecodeError::InvalidStructure),
    }
}

} // verus!
