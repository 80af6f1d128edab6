//! The canonical structured text form of a build: a fixed-shape object with
//! the five current track values and the ordered assignment history, written
//! without any whitespace and with the fields in a fixed order.
//!
//! The renderer and the strict parser below are exact inverses of each other;
//! `lemma_json_round_trip` proves it.

use vstd::prelude::*;

use crate::privileges::PrivilegePoint;
use crate::privileges::Privileges;

verus! {

// ---------------------------------------------------------------------------
// The fixed literal segments of the canonical text.
// ---------------------------------------------------------------------------

/// Bytes of `{"privileges":{"concurrent_fleets":`.
pub open spec fn lit_head() -> Seq<u8> {
    seq![123u8, 34, 112, 114, 105, 118, 105, 108, 101, 103, 101, 115, 34, 58, 123, 34, 99,
        111, 110, 99, 117, 114, 114, 101, 110, 116, 95, 102, 108, 101, 101, 116, 115, 34, 58]
}

/// Bytes of `,"fleet_size":`.
pub open spec fn lit_fleet() -> Seq<u8> {
    seq![44u8, 34, 102, 108, 101, 101, 116, 95, 115, 105, 122, 101, 34, 58]
}

/// Bytes of `,"crafting_capacity":`.
pub open spec fn lit_crafting() -> Seq<u8> {
    seq![44u8, 34, 99, 114, 97, 102, 116, 105, 110, 103, 95, 99, 97, 112, 97, 99, 105, 116,
        121, 34, 58]
}

/// Bytes of `,"starpath_pass":`.
pub open spec fn lit_starpath() -> Seq<u8> {
    seq![44u8, 34, 115, 116, 97, 114, 112, 97, 116, 104, 95, 112, 97, 115, 115, 34, 58]
}

/// Bytes of `,"expedited_rescue":`.
pub open spec fn lit_rescue() -> Seq<u8> {
    seq![44u8, 34, 101, 120, 112, 101, 100, 105, 116, 101, 100, 95, 114, 101, 115, 99, 117,
        101, 34, 58]
}

/// Bytes of `},"privilege_points":`.
pub open spec fn lit_points() -> Seq<u8> {
    seq![125u8, 44, 34, 112, 114, 105, 118, 105, 108, 101, 103, 101, 95, 112, 111, 105, 110,
        116, 115, 34, 58]
}

/// The tag bytes of one track, without quotes.
pub open spec fn track_bytes(t: PrivilegePoint) -> Seq<u8> {
    match t {
        PrivilegePoint::ConcurrentFleets => seq![67u8, 111, 110, 99, 117, 114, 114, 101, 110,
            116, 70, 108, 101, 101, 116, 115],
        PrivilegePoint::FleetSize => seq![70u8, 108, 101, 101, 116, 83, 105, 122, 101],
        PrivilegePoint::CraftingCapacity => seq![67u8, 114, 97, 102, 116, 105, 110, 103, 67,
            97, 112, 97, 99, 105, 116, 121],
        PrivilegePoint::StarpathPass => seq![83u8, 116, 97, 114, 112, 97, 116, 104, 80, 97,
            115, 115],
        PrivilegePoint::ExpeditedRescue => seq![69u8, 120, 112, 101, 100, 105, 116, 101, 100,
            82, 101, 115, 99, 117, 101],
    }
}

/// The tag of one track with its surrounding quotes.
pub open spec fn qtrack(t: PrivilegePoint) -> Seq<u8> {
    seq![34u8] + track_bytes(t) + seq![34u8]
}

// ---------------------------------------------------------------------------
// Rendering: values to canonical bytes.
// ---------------------------------------------------------------------------

/// Decimal digits of `n`, most significant first, no leading zeros.
pub open spec fn dec_digits(n: nat) -> Seq<u8>
    decreases n,
{
    if n < 10 {
        seq![(48 + n) as u8]
    } else {
        dec_digits(n / 10).push((48 + n % 10) as u8)
    }
}

/// A half-unit count rendered as a decimal fraction: `h` half-percent units
/// become the digits of `h / 2`, a dot, and `0` or `5`.
pub open spec fn halves_digits(h: nat) -> Seq<u8> {
    dec_digits(h / 2) + seq![46u8] + seq![(if h % 2 == 1 { 53u8 } else { 48u8 })]
}

/// The comma-separated quoted track tags of the history, without brackets.
pub open spec fn points_list_bytes(pts: Seq<PrivilegePoint>) -> Seq<u8>
    decreases pts.len(),
{
    if pts.len() == 0 {
        seq![]
    } else if pts.len() == 1 {
        qtrack(pts[0])
    } else {
        points_list_bytes(pts.drop_last()) + seq![44u8] + qtrack(pts.last())
    }
}

/// The full canonical text of a build.
pub open spec fn json_of(p: Privileges, pts: Seq<PrivilegePoint>) -> Seq<u8> {
    lit_head() + dec_digits(p.concurrent_fleets as nat) + lit_fleet() + dec_digits(
        p.fleet_size as nat,
    ) + lit_crafting() + dec_digits(p.crafting_capacity as nat) + lit_starpath()
        + halves_digits(p.starpath_pass_halves as nat) + lit_rescue() + halves_digits(
        p.expedited_rescue_halves as nat,
    ) + lit_points() + seq![91u8] + points_list_bytes(pts) + seq![93u8] + seq![125u8]
}

// ---------------------------------------------------------------------------
// Exec builders for the literal segments.
// ---------------------------------------------------------------------------

/// Builds the bytes of the object head up to the first value.
pub fn lit_head_vec() -> (r: Vec<u8>)
    ensures
        r@ == lit_head(),
{
    let mut v: Vec<u8> = Vec::new();
    v.push(123);
    v.push(34);
    v.push(112);
    v.push(114);
    v.push(105);
    v.push(118);
    v.push(105);
    v.push(108);
    v.push(101);
    v.push(103);
    v.push(101);
    v.push(115);
    v.push(34);
    v.push(58);
    v.push(123);
    v.push(34);
    v.push(99);
    v.push(111);
    v.push(110);
    v.push(99);
    v.push(117);
    v.push(114);
    v.push(114);
    v.push(101);
    v.push(110);
    v.push(116);
    v.push(95);
    v.push(102);
    v.push(108);
    v.push(101);
    v.push(101);
    v.push(116);
    v.push(115);
    v.push(34);
    v.push(58);
    proof {
        assert(v@ =~= lit_head());
    }
    v
}

/// Builds the bytes of the fleet-size field separator.
pub fn lit_fleet_vec() -> (r: Vec<u8>)
    ensures
        r@ == lit_fleet(),
{
    let mut v: Vec<u8> = Vec::new();
    v.push(44);
    v.push(34);
    v.push(102);
    v.push(108);
    v.push(101);
    v.push(101);
    v.push(116);
    v.push(95);
    v.push(115);
    v.push(105);
    v.push(122);
    v.push(101);
    v.push(34);
    v.push(58);
    proof {
        assert(v@ =~= lit_fleet());
    }
    v
}

/// Builds the bytes of the crafting-capacity field separator.
pub fn lit_crafting_vec() -> (r: Vec<u8>)
    ensures
        r@ == lit_crafting(),
{
    let mut v: Vec<u8> = Vec::new();
    v.push(44);
    v.push(34);
    v.push(99);
    v.push(114);
    v.push(97);
    v.push(102);
    v.push(116);
    v.push(105);
    v.push(110);
    v.push(103);
    v.push(95);
    v.push(99);
    v.push(97);
    v.push(112);
    v.push(97);
    v.push(99);
    v.push(105);
    v.push(116);
    v.push(121);
    v.push(34);
    v.push(58);
    proof {
        assert(v@ =~= lit_crafting());
    }
    v
}

/// Builds the bytes of the starpath-pass field separator.
pub fn lit_starpath_vec() -> (r: Vec<u8>)
    ensures
        r@ == lit_starpath(),
{
    let mut v: Vec<u8> = Vec::new();
    v.push(44);
    v.push(34);
    v.push(115);
    v.push(116);
    v.push(97);
    v.push(114);
    v.push(112);
    v.push(97);
    v.push(116);
    v.push(104);
    v.push(95);
    v.push(112);
    v.push(97);
    v.push(115);
    v.push(115);
    v.push(34);
    v.push(58);
    proof {
        assert(v@ =~= lit_starpath());
    }
    v
}

/// Builds the bytes of the expedited-rescue field separator.
pub fn lit_rescue_vec() -> (r: Vec<u8>)
    ensures
        r@ == lit_rescue(),
{
    let mut v: Vec<u8> = Vec::new();
    v.push(44);
    v.push(34);
    v.push(101);
    v.push(120);
    v.push(112);
    v.push(101);
    v.push(100);
    v.push(105);
    v.push(116);
    v.push(101);
    v.push(100);
    v.push(95);
    v.push(114);
    v.push(101);
    v.push(115);
    v.push(99);
    v.push(117);
    v.push(101);
    v.push(34);
    v.push(58);
    proof {
        assert(v@ =~= lit_rescue());
    }
    v
}

/// Builds the bytes of the history field separator.
pub fn lit_points_vec() -> (r: Vec<u8>)
    ensures
        r@ == lit_points(),
{
    let mut v: Vec<u8> = Vec::new();
    v.push(125);
    v.push(44);
    v.push(34);
    v.push(112);
    v.push(114);
    v.push(105);
    v.push(118);
    v.push(105);
    v.push(108);
    v.push(101);
    v.push(103);
    v.push(101);
    v.push(95);
    v.push(112);
    v.push(111);
    v.push(105);
    v.push(110);
    v.push(116);
    v.push(115);
    v.push(34);
    v.push(58);
    proof {
        assert(v@ =~= lit_points());
    }
    v
}

/// Builds the quoted tag of one track.
pub fn qtrack_vec(t: PrivilegePoint) -> (r: Vec<u8>)
    ensures
        r@ == qtrack(t),
{
    let mut v: Vec<u8> = Vec::new();
    v.push(34);
    match t {
        PrivilegePoint::ConcurrentFleets => {
            v.push(67);
            v.push(111);
            v.push(110);
            v.push(99);
            v.push(117);
            v.push(114);
            v.push(114);
            v.push(101);
            v.push(110);
            v.push(116);
            v.push(70);
            v.push(108);
            v.push(101);
            v.push(101);
            v.push(116);
            v.push(115);
        },
        PrivilegePoint::FleetSize => {
            v.push(70);
            v.push(108);
            v.push(101);
            v.push(101);
            v.push(116);
            v.push(83);
            v.push(105);
            v.push(122);
            v.push(101);
        },
        PrivilegePoint::CraftingCapacity => {
            v.push(67);
            v.push(114);
            v.push(97);
            v.push(102);
            v.push(116);
            v.push(105);
            v.push(110);
            v.push(103);
            v.push(67);
            v.push(97);
            v.push(112);
            v.push(97);
            v.push(99);
            v.push(105);
            v.push(116);
            v.push(121);
        },
        PrivilegePoint::StarpathPass => {
            v.push(83);
            v.push(116);
            v.push(97);
            v.push(114);
            v.push(112);
            v.push(97);
            v.push(116);
            v.push(104);
            v.push(80);
            v.push(97);
            v.push(115);
            v.push(115);
        },
        PrivilegePoint::ExpeditedRescue => {
            v.push(69);
            v.push(120);
            v.push(112);
            v.push(101);
            v.push(100);
            v.push(105);
            v.push(116);
            v.push(101);
            v.push(100);
            v.push(82);
            v.push(101);
            v.push(115);
            v.push(99);
            v.push(117);
            v.push(101);
        },
    }
    v.push(34);
    proof {
        assert(v@ =~= qtrack(t));
    }
    v
}

// ---------------------------------------------------------------------------
// The exec renderer.
// ---------------------------------------------------------------------------

/// Appends the decimal digits of `n`.
pub fn push_dec(out: &mut Vec<u8>, n: usize)
    ensures
        final(out)@ == old(out)@ + dec_digits(n as nat),
    decreases n,
{
    if n < 10 {
        out.push(48 + n as u8);
    } else {
        push_dec(out, n / 10);
        out.push(48 + (n % 10) as u8);
    }
}

/// Appends the decimal-fraction form of `h` half-percent units.
pub fn push_halves(out: &mut Vec<u8>, h: usize)
    ensures
        final(out)@ == old(out)@ + halves_digits(h as nat),
{
    push_dec(out, h / 2);
    out.push(46);
    if h % 2 == 1 {
        out.push(53);
    } else {
        out.push(48);
    }
    proof {
        assert(final(out)@ =~= old(out)@ + halves_digits(h as nat));
    }
}

/// Renders the full canonical text of a build.
pub fn render_json(p: &Privileges, pts: &Vec<PrivilegePoint>) -> (r: Vec<u8>)
    ensures
        r@ == json_of(*p, pts@),
{
    let mut out = lit_head_vec();
    push_dec(&mut out, p.concurrent_fleets);
    let mut seg = lit_fleet_vec();
    out.append(&mut seg);
    push_dec(&mut out, p.fleet_size);
    let mut seg = lit_crafting_vec();
    out.append(&mut seg);
    push_dec(&mut out, p.crafting_capacity);
    let mut seg = lit_starpath_vec();
    out.append(&mut seg);
    push_halves(&mut out, p.starpath_pass_halves);
    let mut seg = lit_rescue_vec();
    out.append(&mut seg);
    push_halves(&mut out, p.expedited_rescue_halves);
    let mut seg = lit_points_vec();
    out.append(&mut seg);
    out.push(91);
    let ghost before_list = out@;
    let mut k: usize = 0;
    while k < pts.len()
        invariant
            k <= pts@.len(),
            out@ == before_list + points_list_bytes(pts@.take(k as int)),
        decreases pts@.len() - k,
    {
        if k > 0 {
            out.push(44);
        }
        let mut tag = qtrack_vec(pts[k]);
        out.append(&mut tag);
        proof {
            let taken = pts@.take(k + 1 as int);
            assert(taken.drop_last() =~= pts@.take(k as int));
            assert(taken.last() == pts@[k as int]);
            if k == 0 {
                assert(points_list_bytes(taken) == qtrack(pts@[0]));
                assert(out@ =~= before_list + points_list_bytes(taken));
            } else {
                assert(points_list_bytes(taken) == points_list_bytes(pts@.take(k as int))
                    + seq![44u8] + qtrack(pts@[k as int]));
                assert(out@ =~= before_list + points_list_bytes(taken));
            }
        }
        k = k + 1;
    }
    out.push(93);
    out.push(125);
    proof {
        assert(pts@.take(pts@.len() as int) =~= pts@);
        assert(out@ =~= json_of(*p, pts@));
    }
    out
}

// ---------------------------------------------------------------------------
// Parsing: canonical bytes back to values. The spec parser below is the
// meaning of the text; the exec functions mirror it exactly.
// ---------------------------------------------------------------------------

/// Position after `lit` when it occurs at `i` in `b`.
pub open spec fn sp_lit(b: Seq<u8>, i: int, lit: Seq<u8>) -> Option<int> {
    if 0 <= i && i + lit.len() <= b.len() && b.subrange(i, i + lit.len()) == lit {
        Some(i + lit.len())
    } else {
        None
    }
}

/// ASCII decimal digit.
pub open spec fn is_digit(c: u8) -> bool {
    48 <= c <= 57
}

/// Numeric value of one digit byte.
pub open spec fn digit_val(c: u8) -> nat {
    if is_digit(c) {
        (c - 48) as nat
    } else {
        0
    }
}

/// Value of a digit string, most significant first.
pub open spec fn dec_val(s: Seq<u8>) -> nat
    decreases s.len(),
{
    if s.len() == 0 {
        0
    } else {
        dec_val(s.drop_last()) * 10 + digit_val(s.last())
    }
}

/// First position at or after `i` that does not hold a digit.
pub open spec fn digits_end(b: Seq<u8>, i: int) -> int
    decreases b.len() - i,
{
    if i < b.len() && is_digit(b[i]) {
        digits_end(b, i + 1)
    } else {
        i
    }
}

/// Parses a canonical unsigned integer at `i`: one or more digits, no
/// leading zero, value within `usize`.
pub open spec fn sp_usize(b: Seq<u8>, i: int) -> Option<(usize, int)> {
    let e = digits_end(b, i);
    if e <= i {
        None
    } else if b[i] == 48 && e > i + 1 {
        None
    } else {
        let v = dec_val(b.subrange(i, e));
        if v <= usize::MAX {
            Some((v as usize, e))
        } else {
            None
        }
    }
}

/// Parses a half-unit count at `i`: a canonical integer, a dot, and a
/// fractional digit `0` or `5`; the result is in half-units.
pub open spec fn sp_halves(b: Seq<u8>, i: int) -> Option<(usize, int)> {
    match sp_usize(b, i) {
        Some((k, j)) => if j + 2 <= b.len() && b[j] == 46 && (b[j + 1] == 48 || b[j + 1]
            == 53) {
            let h = 2 * (k as nat) + (if b[j + 1] == 53 {
                1nat
            } else {
                0nat
            });
            if h <= usize::MAX {
                Some((h as usize, j + 2))
            } else {
                None
            }
        } else {
            None
        },
        None => None,
    }
}

/// Parses one quoted track tag at `i`, trying the five tags in a fixed order.
pub open spec fn sp_track(b: Seq<u8>, i: int) -> Option<(PrivilegePoint, int)> {
    match sp_lit(b, i, qtrack(PrivilegePoint::ConcurrentFleets)) {
        Some(j) => Some((PrivilegePoint::ConcurrentFleets, j)),
        None => match sp_lit(b, i, qtrack(PrivilegePoint::FleetSize)) {
            Some(j) => Some((PrivilegePoint::FleetSize, j)),
            None => match sp_lit(b, i, qtrack(PrivilegePoint::CraftingCapacity)) {
                Some(j) => Some((PrivilegePoint::CraftingCapacity, j)),
                None => match sp_lit(b, i, qtrack(PrivilegePoint::StarpathPass)) {
                    Some(j) => Some((PrivilegePoint::StarpathPass, j)),
                    None => match sp_lit(b, i, qtrack(PrivilegePoint::ExpeditedRescue)) {
                        Some(j) => Some((PrivilegePoint::ExpeditedRescue, j)),
                        None => None,
                    },
                },
            },
        },
    }
}

/// Parses the rest of a non-empty tag list: either the closing bracket, or a
/// comma followed by one more tag and the rest.
pub open spec fn sp_points_rest(b: Seq<u8>, i: int) -> Option<(Seq<PrivilegePoint>, int)>
    decreases b.len() - i,
{
    if i < b.len() && b[i] == 93 {
        Some((seq![], i + 1))
    } else if i < b.len() && b[i] == 44 {
        match sp_track(b, i + 1) {
            Some((t, j)) => if i + 1 < j && j <= b.len() {
                match sp_points_rest(b, j) {
                    Some((rest, e)) => Some((seq![t] + rest, e)),
                    None => None,
                }
            } else {
                None
            },
            None => None,
        }
    } else {
        None
    }
}

/// Parses a bracketed tag list at `i`.
pub open spec fn sp_points(b: Seq<u8>, i: int) -> Option<(Seq<PrivilegePoint>, int)> {
    if 0 <= i && i < b.len() && b[i] == 91 {
        if i + 1 < b.len() && b[i + 1] == 93 {
            Some((seq![], i + 2))
        } else {
            match sp_track(b, i + 1) {
                Some((t, j)) => if i + 1 < j && j <= b.len() {
                    match sp_points_rest(b, j) {
                        Some((rest, e)) => Some((seq![t] + rest, e)),
                        None => None,
                    }
                } else {
                    None
                },
                None => None,
            }
        }
    } else {
        None
    }
}

/// The strict parse of a whole canonical text: the exact field sequence,
/// values that fit, and nothing after the closing brace.
pub open spec fn json_parsed(b: Seq<u8>) -> Option<(Privileges, Seq<PrivilegePoint>)> {
    match sp_lit(b, 0, lit_head()) {
        None => None,
        Some(i1) => match sp_usize(b, i1) {
            None => None,
            Some((cf, i2)) => match sp_lit(b, i2, lit_fleet()) {
                None => None,
                Some(i3) => match sp_usize(b, i3) {
                    None => None,
                    Some((fs, i4)) => match sp_lit(b, i4, lit_crafting()) {
                        None => None,
                        Some(i5) => match sp_usize(b, i5) {
                            None => None,
                            Some((cc, i6)) => match sp_lit(b, i6, lit_starpath()) {
                                None => None,
                                Some(i7) => match sp_halves(b, i7) {
                                    None => None,
                                    Some((sh, i8)) => match sp_lit(b, i8, lit_rescue()) {
                                        None => None,
                                        Some(i9) => match sp_halves(b, i9) {
                                            None => None,
                                            Some((eh, i10)) => match sp_lit(
                                                b,
                                                i10,
                                                lit_points(),
                                            ) {
                                                None => None,
                                                Some(i11) => match sp_points(b, i11) {
                                                    None => None,
                                                    Some((pts, e)) => if e < b.len() && b[e]
                                                        == 125 && e + 1 == b.len() {
                                                        Some(
                                                            (
                                                                Privileges {
                                                                    concurrent_fleets: cf,
                                                                    fleet_size: fs,
                                                                    crafting_capacity: cc,
                                                                    starpath_pass_halves: sh,
                                                                    expedited_rescue_halves: eh,
                                                                },
                                                                pts,
                                                            ),
                                                        )
                                                    } else {
                                                        None
                                                    },
                                                },
                                            },
                                        },
                                    },
                                },
                            },
                        },
                    },
                },
            },
        },
    }
}

// ---------------------------------------------------------------------------
// Parse-of-render lemmas: the strict parser inverts the renderer.
// ---------------------------------------------------------------------------

/// The tag list rendered front-first: a comma and a quoted tag per element.
/// Equal to `points_list_bytes` by `lemma_points_split`; this shape matches
/// the parser's left-to-right walk.
pub open spec fn points_rest_bytes(s: Seq<PrivilegePoint>) -> Seq<u8>
    decreases s.len(),
{
    if s.len() == 0 {
        seq![]
    } else {
        seq![44u8] + qtrack(s[0]) + points_rest_bytes(s.drop_first())
    }
}

/// A literal placed right after `pre` in `b` is found there.
proof fn lemma_sp_lit_at(b: Seq<u8>, pre: Seq<u8>, lit: Seq<u8>, rest: Seq<u8>)
    requires
        b == pre + lit + rest,
    ensures
        sp_lit(b, pre.len() as int, lit) == Some((pre.len() + lit.len()) as int),
{
    assert(b.subrange(pre.len() as int, (pre.len() + lit.len()) as int) =~= lit);
}

/// A literal that differs at `idx` from what stands at `i` in `b` is not
/// found at `i`.
proof fn lemma_sp_lit_mismatch(b: Seq<u8>, i: int, lit: Seq<u8>, actual: Seq<u8>, idx: int)
    requires
        0 <= i,
        0 <= idx < lit.len(),
        idx < actual.len(),
        forall|m: int| 0 <= m < actual.len() ==> i + m < b.len() && b[i + m] == actual[m],
        lit[idx] != actual[idx],
    ensures
        sp_lit(b, i, lit) is None,
{
    if i + lit.len() <= b.len() {
        let sub = b.subrange(i, i + lit.len());
        assert(sub[idx] == b[i + idx]);
        assert(b[i + idx] == actual[idx]);
        if sub == lit {
            assert(sub[idx] == lit[idx]);
            assert(false);
        }
    }
}

/// Shape and value of a rendered decimal: digits only, no leading zero, and
/// reading it back yields `n`.
pub proof fn lemma_dec_digits_props(n: nat)
    ensures
        dec_digits(n).len() >= 1,
        forall|m: int| 0 <= m < dec_digits(n).len() ==> is_digit(dec_digits(n)[m]),
        dec_val(dec_digits(n)) == n,
        n >= 1 ==> dec_digits(n)[0] != 48,
        n < 10 ==> dec_digits(n).len() == 1,
    decreases n,
{
    if n < 10 {
        let s = dec_digits(n);
        assert(s.drop_last() =~= Seq::<u8>::empty());
        assert(dec_val(Seq::<u8>::empty()) == 0);
        assert(dec_val(s) == 0 * 10 + digit_val((48 + n) as u8));
    } else {
        lemma_dec_digits_props(n / 10);
        let s = dec_digits(n);
        assert(s == dec_digits(n / 10).push((48 + n % 10) as u8));
        assert(s.drop_last() =~= dec_digits(n / 10));
        assert(s.last() == (48 + n % 10) as u8);
        assert(digit_val((48 + n % 10) as u8) == n % 10);
        assert(dec_val(s) == dec_val(dec_digits(n / 10)) * 10 + digit_val(s.last()));
        vstd::arithmetic::div_mod::lemma_fundamental_div_mod(n as int, 10);
        assert(s[0] == dec_digits(n / 10)[0]);
    }
}

/// A run of digits bounded by a non-digit ends exactly at the non-digit.
proof fn lemma_digits_end_run(b: Seq<u8>, j: int, e: int)
    requires
        0 <= j <= e <= b.len(),
        forall|m: int| j <= m < e ==> is_digit(b[m]),
        e == b.len() || !is_digit(b[e]),
    ensures
        digits_end(b, j) == e,
    decreases e - j,
{
    if j < e {
        lemma_digits_end_run(b, j + 1, e);
    }
}

/// A rendered decimal placed after `pre` and followed by a non-digit parses
/// back to its value.
proof fn lemma_parse_usize_at(b: Seq<u8>, pre: Seq<u8>, n: nat, rest: Seq<u8>)
    requires
        b == pre + dec_digits(n) + rest,
        n <= usize::MAX,
        rest.len() == 0 || !is_digit(rest[0]),
    ensures
        sp_usize(b, pre.len() as int) == Some(
            (n as usize, (pre.len() + dec_digits(n).len()) as int),
        ),
{
    let i = pre.len() as int;
    let d = dec_digits(n);
    let e = i + d.len();
    lemma_dec_digits_props(n);
    assert(forall|m: int| i <= m < e ==> b[m] == d[m - i]);
    assert(forall|m: int| i <= m < e ==> is_digit(b[m]));
    if e < b.len() {
        assert(b[e] == rest[0]);
    }
    lemma_digits_end_run(b, i, e);
    assert(b.subrange(i, e) =~= d);
    if n >= 10 {
        assert(b[i] == d[0]);
        assert(d[0] != 48);
    }
}

/// A rendered half-unit count placed after `pre` parses back to its value.
proof fn lemma_parse_halves_at(b: Seq<u8>, pre: Seq<u8>, h: nat, rest: Seq<u8>)
    requires
        b == pre + halves_digits(h) + rest,
        h <= usize::MAX,
    ensures
        sp_halves(b, pre.len() as int) == Some(
            (h as usize, (pre.len() + halves_digits(h).len()) as int),
        ),
{
    let i = pre.len() as int;
    let dd = dec_digits(h / 2);
    let bit: u8 = if h % 2 == 1 {
        53u8
    } else {
        48u8
    };
    assert(halves_digits(h) == dd + seq![46u8] + seq![bit]);
    let rest2 = seq![46u8] + seq![bit] + rest;
    assert(b =~= pre + dd + rest2);
    assert(rest2[0] == 46);
    lemma_parse_usize_at(b, pre, h / 2, rest2);
    let j = i + dd.len();
    assert(b[j] == 46);
    assert(b[j + 1] == bit);
    assert(j + 2 <= b.len());
    assert(2 * ((h / 2) as usize as nat) + (if bit == 53 {
        1nat
    } else {
        0nat
    }) == h);
}

/// A rendered quoted tag placed after `pre` parses back to its track; the
/// tags tried earlier in the parser's fixed order all differ from it within
/// their first two tag bytes.
proof fn lemma_parse_track_at(b: Seq<u8>, pre: Seq<u8>, t: PrivilegePoint, rest: Seq<u8>)
    requires
        b == pre + qtrack(t) + rest,
    ensures
        sp_track(b, pre.len() as int) == Some((t, (pre.len() + qtrack(t).len()) as int)),
{
    let i = pre.len() as int;
    lemma_sp_lit_at(b, pre, qtrack(t), rest);
    assert(forall|m: int| 0 <= m < qtrack(t).len() ==> i + m < b.len() && b[i + m] == qtrack(
        t,
    )[m]);
    let q_cf = qtrack(PrivilegePoint::ConcurrentFleets);
    let q_fs = qtrack(PrivilegePoint::FleetSize);
    let q_cc = qtrack(PrivilegePoint::CraftingCapacity);
    let q_sp = qtrack(PrivilegePoint::StarpathPass);
    match t {
        PrivilegePoint::ConcurrentFleets => {
        },
        PrivilegePoint::FleetSize => {
            assert(q_cf[1] == 67 && qtrack(t)[1] == 70);
            lemma_sp_lit_mismatch(b, i, q_cf, qtrack(t), 1);
        },
        PrivilegePoint::CraftingCapacity => {
            assert(q_cf[2] == 111 && qtrack(t)[2] == 114);
            lemma_sp_lit_mismatch(b, i, q_cf, qtrack(t), 2);
            assert(q_fs[1] == 70 && qtrack(t)[1] == 67);
            lemma_sp_lit_mismatch(b, i, q_fs, qtrack(t), 1);
        },
        PrivilegePoint::StarpathPass => {
            assert(q_cf[1] == 67 && q_fs[1] == 70 && q_cc[1] == 67 && qtrack(t)[1] == 83);
            lemma_sp_lit_mismatch(b, i, q_cf, qtrack(t), 1);
            lemma_sp_lit_mismatch(b, i, q_fs, qtrack(t), 1);
            lemma_sp_lit_mismatch(b, i, q_cc, qtrack(t), 1);
        },
        PrivilegePoint::ExpeditedRescue => {
            assert(q_cf[1] == 67 && q_fs[1] == 70 && q_cc[1] == 67 && q_sp[1] == 83 && qtrack(
                t,
            )[1] == 69);
            lemma_sp_lit_mismatch(b, i, q_cf, qtrack(t), 1);
            lemma_sp_lit_mismatch(b, i, q_fs, qtrack(t), 1);
            lemma_sp_lit_mismatch(b, i, q_cc, qtrack(t), 1);
            lemma_sp_lit_mismatch(b, i, q_sp, qtrack(t), 1);
        },
    }
}

/// Appending one tag to the front-first rendering adds a comma and the tag.
proof fn lemma_points_rest_push(s: Seq<PrivilegePoint>, x: PrivilegePoint)
    ensures
        points_rest_bytes(s.push(x)) == points_rest_bytes(s) + seq![44u8] + qtrack(x),
    decreases s.len(),
{
    if s.len() == 0 {
        assert(s.push(x)[0] == x);
        assert(s.push(x).drop_first() =~= s);
        assert(points_rest_bytes(s) == Seq::<u8>::empty());
        assert(points_rest_bytes(s.push(x)) == seq![44u8] + qtrack(x) + points_rest_bytes(s));
        assert(seq![44u8] + qtrack(x) + points_rest_bytes(s) =~= points_rest_bytes(s)
            + seq![44u8] + qtrack(x));
    } else {
        assert(s.push(x)[0] == s[0]);
        assert(s.push(x).drop_first() =~= s.drop_first().push(x));
        lemma_points_rest_push(s.drop_first(), x);
        let a = seq![44u8] + qtrack(s[0]);
        assert(points_rest_bytes(s.push(x)) == a + points_rest_bytes(s.drop_first().push(x)));
        assert(points_rest_bytes(s) == a + points_rest_bytes(s.drop_first()));
        assert(a + (points_rest_bytes(s.drop_first()) + seq![44u8] + qtrack(x))
            =~= points_rest_bytes(s) + seq![44u8] + qtrack(x));
    }
}

/// The back-first rendering of a non-empty tag list equals its first tag
/// followed by the front-first rendering of the rest.
proof fn lemma_points_split(pts: Seq<PrivilegePoint>)
    requires
        pts.len() >= 1,
    ensures
        points_list_bytes(pts) == qtrack(pts[0]) + points_rest_bytes(pts.drop_first()),
    decreases pts.len(),
{
    if pts.len() == 1 {
        assert(pts.drop_first() =~= Seq::<PrivilegePoint>::empty());
        assert(points_list_bytes(pts) =~= qtrack(pts[0]) + points_rest_bytes(
            pts.drop_first(),
        ));
    } else {
        lemma_points_split(pts.drop_last());
        assert(pts.drop_last()[0] == pts[0]);
        lemma_points_rest_push(pts.drop_last().drop_first(), pts.last());
        assert(pts.drop_last().drop_first().push(pts.last()) =~= pts.drop_first());
        assert(points_list_bytes(pts) =~= qtrack(pts[0]) + points_rest_bytes(
            pts.drop_first(),
        ));
    }
}

/// A front-first rendered tag list followed by the closing bracket parses
/// back to the same tags.
#[verifier::rlimit(100)]
#[verifier::spinoff_prover]
proof fn lemma_sp_points_rest_at(
    b: Seq<u8>,
    pre: Seq<u8>,
    s: Seq<PrivilegePoint>,
    rest: Seq<u8>,
)
    requires
        b == pre + points_rest_bytes(s) + seq![93u8] + rest,
    ensures
        sp_points_rest(b, pre.len() as int) == Some(
            (s, (pre.len() + points_rest_bytes(s).len() + 1) as int),
        ),
    decreases s.len(),
{
    let i = pre.len() as int;
    if s.len() == 0 {
        assert(points_rest_bytes(s) =~= Seq::<u8>::empty());
        assert(b[i] == 93);
        assert(sp_points_rest(b, i) == Some((Seq::<PrivilegePoint>::empty(), i + 1)));
    } else {
        let t = s[0];
        assert(points_rest_bytes(s) == seq![44u8] + qtrack(t) + points_rest_bytes(
            s.drop_first(),
        ));
        assert(b[i] == 44);
        let pre2 = pre + seq![44u8];
        let rest2 = points_rest_bytes(s.drop_first()) + seq![93u8] + rest;
        assert(b =~= pre2 + qtrack(t) + rest2);
        lemma_parse_track_at(b, pre2, t, rest2);
        assert(qtrack(t).len() >= 2);
        let pre3 = pre2 + qtrack(t);
        assert(b =~= pre3 + points_rest_bytes(s.drop_first()) + seq![93u8] + rest);
        lemma_sp_points_rest_at(b, pre3, s.drop_first(), rest);
        assert(seq![t] + s.drop_first() =~= s);
    }
}

/// A rendered bracketed tag list placed after `pre` parses back to the same
/// tags.
#[verifier::rlimit(100)]
#[verifier::spinoff_prover]
proof fn lemma_sp_points_at(b: Seq<u8>, pre: Seq<u8>, pts: Seq<PrivilegePoint>, rest: Seq<u8>)
    requires
        b == pre + seq![91u8] + points_list_bytes(pts) + seq![93u8] + rest,
    ensures
        sp_points(b, pre.len() as int) == Some(
            (pts, (pre.len() + 2 + points_list_bytes(pts).len()) as int),
        ),
{
    let i = pre.len() as int;
    assert(b[i] == 91);
    if pts.len() == 0 {
        assert(points_list_bytes(pts) =~= Seq::<u8>::empty());
        assert(b[i + 1] == 93);
        assert(i + 1 < b.len());
    } else {
        lemma_points_split(pts);
        let t = pts[0];
        let pre2 = pre + seq![91u8];
        let rest2 = points_rest_bytes(pts.drop_first()) + seq![93u8] + rest;
        assert(b =~= pre2 + qtrack(t) + rest2);
        assert(qtrack(t)[0] == 34);
        assert(b[i + 1] == 34);
        lemma_parse_track_at(b, pre2, t, rest2);
        assert(qtrack(t).len() >= 2);
        let pre3 = pre2 + qtrack(t);
        assert(b =~= pre3 + points_rest_bytes(pts.drop_first()) + seq![93u8] + rest);
        lemma_sp_points_rest_at(b, pre3, pts.drop_first(), rest);
        assert(seq![t] + pts.drop_first() =~= pts);
    }
}

/// Position after the object head in the canonical text.
pub open spec fn pos1(p: Privileges) -> int {
    lit_head().len() as int
}

/// Position after the first value.
pub open spec fn pos2(p: Privileges) -> int {
    pos1(p) + dec_digits(p.concurrent_fleets as nat).len()
}

/// Position after the fleet-size separator.
pub open spec fn pos3(p: Privileges) -> int {
    pos2(p) + lit_fleet().len()
}

/// Position after the fleet-size value.
pub open spec fn pos4(p: Privileges) -> int {
    pos3(p) + dec_digits(p.fleet_size as nat).len()
}

/// Position after the crafting-capacity separator.
pub open spec fn pos5(p: Privileges) -> int {
    pos4(p) + lit_crafting().len()
}

/// Position after the crafting-capacity value.
pub open spec fn pos6(p: Privileges) -> int {
    pos5(p) + dec_digits(p.crafting_capacity as nat).len()
}

/// Position after the starpath-pass separator.
pub open spec fn pos7(p: Privileges) -> int {
    pos6(p) + lit_starpath().len()
}

/// Position after the starpath-pass value.
pub open spec fn pos8(p: Privileges) -> int {
    pos7(p) + halves_digits(p.starpath_pass_halves as nat).len()
}

/// Position after the expedited-rescue separator.
pub open spec fn pos9(p: Privileges) -> int {
    pos8(p) + halves_digits(p.expedited_rescue_halves as nat).len()
}

/// Position after the history separator.
pub open spec fn pos10(p: Privileges) -> int {
    pos9(p) + lit_rescue().len() + lit_points().len()
}

/// Position after the closing bracket of the history.
pub open spec fn pos11(p: Privileges, pts: Seq<PrivilegePoint>) -> int {
    pos10(p) + 2 + points_list_bytes(pts).len()
}

/// First third of the parse-of-render argument: the head and the two
/// leading integer fields are read back.
#[verifier::rlimit(100)]
#[verifier::spinoff_prover]
proof fn lemma_rt_a(p: Privileges, pts: Seq<PrivilegePoint>)
    ensures
        ({
            let b = json_of(p, pts);
            &&& sp_lit(b, 0, lit_head()) == Some(pos1(p))
            &&& sp_usize(b, pos1(p)) == Some((p.concurrent_fleets, pos2(p)))
            &&& sp_lit(b, pos2(p), lit_fleet()) == Some(pos3(p))
            &&& sp_usize(b, pos3(p)) == Some((p.fleet_size, pos4(p)))
        }),
{
    let b = json_of(p, pts);
    let d1 = dec_digits(p.concurrent_fleets as nat);
    let d2 = dec_digits(p.fleet_size as nat);
    let d3 = dec_digits(p.crafting_capacity as nat);
    let h1 = halves_digits(p.starpath_pass_halves as nat);
    let h2 = halves_digits(p.expedited_rescue_halves as nat);
    let pl = points_list_bytes(pts);
    let c0 = Seq::<u8>::empty();
    let c1 = c0 + lit_head();
    let c2 = c1 + d1;
    let c3 = c2 + lit_fleet();

    let r1 = d1 + lit_fleet() + d2 + lit_crafting() + d3 + lit_starpath() + h1 + lit_rescue()
        + h2 + lit_points() + seq![91u8] + pl + seq![93u8] + seq![125u8];
    assert(b =~= c0 + lit_head() + r1) by {};
    lemma_sp_lit_at(b, c0, lit_head(), r1);

    let r2 = lit_fleet() + d2 + lit_crafting() + d3 + lit_starpath() + h1 + lit_rescue() + h2
        + lit_points() + seq![91u8] + pl + seq![93u8] + seq![125u8];
    assert(b =~= c1 + d1 + r2) by {};
    assert(r2[0] == 44);
    lemma_parse_usize_at(b, c1, p.concurrent_fleets as nat, r2);

    let r3 = d2 + lit_crafting() + d3 + lit_starpath() + h1 + lit_rescue() + h2 + lit_points()
        + seq![91u8] + pl + seq![93u8] + seq![125u8];
    assert(b =~= c2 + lit_fleet() + r3) by {};
    lemma_sp_lit_at(b, c2, lit_fleet(), r3);

    let r4 = lit_crafting() + d3 + lit_starpath() + h1 + lit_rescue() + h2 + lit_points()
        + seq![91u8] + pl + seq![93u8] + seq![125u8];
    assert(b =~= c3 + d2 + r4) by {};
    assert(r4[0] == 44);
    lemma_parse_usize_at(b, c3, p.fleet_size as nat, r4);
}

/// Second third: the crafting-capacity field and the starpath-pass field are
/// read back.
#[verifier::rlimit(100)]
#[verifier::spinoff_prover]
proof fn lemma_rt_b(p: Privileges, pts: Seq<PrivilegePoint>)
    ensures
        ({
            let b = json_of(p, pts);
            &&& sp_lit(b, pos4(p), lit_crafting()) == Some(pos5(p))
            &&& sp_usize(b, pos5(p)) == Some((p.crafting_capacity, pos6(p)))
            &&& sp_lit(b, pos6(p), lit_starpath()) == Some(pos7(p))
            &&& sp_halves(b, pos7(p)) == Some((p.starpath_pass_halves, pos8(p)))
        }),
{
    let b = json_of(p, pts);
    let d1 = dec_digits(p.concurrent_fleets as nat);
    let d2 = dec_digits(p.fleet_size as nat);
    let d3 = dec_digits(p.crafting_capacity as nat);
    let h1 = halves_digits(p.starpath_pass_halves as nat);
    let h2 = halves_digits(p.expedited_rescue_halves as nat);
    let pl = points_list_bytes(pts);
    let c4 = lit_head() + d1 + lit_fleet() + d2;
    let c5 = c4 + lit_crafting();
    let c6 = c5 + d3;
    let c7 = c6 + lit_starpath();
    assert(c4.len() == pos4(p));

    let r5 = d3 + lit_starpath() + h1 + lit_rescue() + h2 + lit_points() + seq![91u8] + pl
        + seq![93u8] + seq![125u8];
    assert(b =~= c4 + lit_crafting() + r5) by {};
    lemma_sp_lit_at(b, c4, lit_crafting(), r5);

    let r6 = lit_starpath() + h1 + lit_rescue() + h2 + lit_points() + seq![91u8] + pl
        + seq![93u8] + seq![125u8];
    assert(b =~= c5 + d3 + r6) by {};
    assert(r6[0] == 44);
    lemma_parse_usize_at(b, c5, p.crafting_capacity as nat, r6);

    let r7 = h1 + lit_rescue() + h2 + lit_points() + seq![91u8] + pl + seq![93u8]
        + seq![125u8];
    assert(b =~= c6 + lit_starpath() + r7) by {};
    lemma_sp_lit_at(b, c6, lit_starpath(), r7);

    let r8 = lit_rescue() + h2 + lit_points() + seq![91u8] + pl + seq![93u8] + seq![125u8];
    assert(b =~= c7 + h1 + r8) by {};
    lemma_parse_halves_at(b, c7, p.starpath_pass_halves as nat, r8);
}

/// Last third: the expedited-rescue field, the history and the closing brace
/// are read back, and nothing follows.
#[verifier::rlimit(100)]
#[verifier::spinoff_prover]
proof fn lemma_rt_c(p: Privileges, pts: Seq<PrivilegePoint>)
    ensures
        ({
            let b = json_of(p, pts);
            &&& sp_lit(b, pos8(p), lit_rescue()) == Some(pos8(p) + lit_rescue().len())
            &&& sp_halves(b, pos8(p) + lit_rescue().len()) == Some(
                (p.expedited_rescue_halves, pos9(p) + lit_rescue().len()),
            )
            &&& sp_lit(b, pos9(p) + lit_rescue().len(), lit_points()) == Some(pos10(p))
            &&& sp_points(b, pos10(p)) == Some((pts, pos11(p, pts)))
            &&& pos11(p, pts) + 1 == b.len()
            &&& b[pos11(p, pts)] == 125
        }),
{
    let b = json_of(p, pts);
    let d1 = dec_digits(p.concurrent_fleets as nat);
    let d2 = dec_digits(p.fleet_size as nat);
    let d3 = dec_digits(p.crafting_capacity as nat);
    let h1 = halves_digits(p.starpath_pass_halves as nat);
    let h2 = halves_digits(p.expedited_rescue_halves as nat);
    let pl = points_list_bytes(pts);
    let c8 = lit_head() + d1 + lit_fleet() + d2 + lit_crafting() + d3 + lit_starpath() + h1;
    let c9 = c8 + lit_rescue();
    let c10 = c9 + h2;
    let c11 = c10 + lit_points();
    assert(c8.len() == pos8(p));

    let r9 = h2 + lit_points() + seq![91u8] + pl + seq![93u8] + seq![125u8];
    assert(b =~= c8 + lit_rescue() + r9) by {};
    lemma_sp_lit_at(b, c8, lit_rescue(), r9);

    let r10 = lit_points() + seq![91u8] + pl + seq![93u8] + seq![125u8];
    assert(b =~= c9 + h2 + r10) by {};
    lemma_parse_halves_at(b, c9, p.expedited_rescue_halves as nat, r10);

    let r11 = seq![91u8] + pl + seq![93u8] + seq![125u8];
    assert(b =~= c10 + lit_points() + r11) by {};
    lemma_sp_lit_at(b, c10, lit_points(), r11);

    let r12 = seq![125u8];
    assert(b =~= c11 + seq![91u8] + pl + seq![93u8] + r12) by {};
    lemma_sp_points_at(b, c11, pts, r12);

    assert(b[pos11(p, pts)] == 125);
    assert(pos11(p, pts) + 1 == b.len());
}

/// The strict parser inverts the renderer: the canonical text of any build
/// parses back to exactly that build.
pub proof fn lemma_json_round_trip(p: Privileges, pts: Seq<PrivilegePoint>)
    ensures
        json_parsed(json_of(p, pts)) == Some((p, pts)),
{
    let b = json_of(p, pts);
    lemma_rt_a(p, pts);
    lemma_rt_b(p, pts);
    lemma_rt_c(p, pts);
    assert(json_parsed(b) == Some(
        (
            Privileges {
                concurrent_fleets: p.concurrent_fleets,
                fleet_size: p.fleet_size,
                crafting_capacity: p.crafting_capacity,
                starpath_pass_halves: p.starpath_pass_halves,
                expedited_rescue_halves: p.expedited_rescue_halves,
            },
            pts,
        ),
    ));
}

// ---------------------------------------------------------------------------
// Supporting lemmas for the exec parser.
// ---------------------------------------------------------------------------

/// The digit run found by `digits_end` stays inside the sequence and holds
/// digits only.
pub proof fn lemma_digits_end_props(b: Seq<u8>, i: int)
    requires
        0 <= i <= b.len(),
    ensures
        i <= digits_end(b, i) <= b.len(),
        forall|m: int| i <= m < digits_end(b, i) ==> is_digit(b[m]),
    decreases b.len() - i,
{
    if i < b.len() && is_digit(b[i]) {
        lemma_digits_end_props(b, i + 1);
    }
}

/// A digit string is worth at least as much as any of its prefixes.
pub proof fn lemma_dec_val_prefix(s: Seq<u8>, m: int)
    requires
        0 <= m <= s.len(),
    ensures
        dec_val(s.take(m)) <= dec_val(s),
    decreases s.len() - m,
{
    if m == s.len() {
        assert(s.take(m) =~= s);
    } else {
        lemma_dec_val_prefix(s, m + 1);
        assert(s.take(m + 1).drop_last() =~= s.take(m));
        assert(dec_val(s.take(m + 1)) == dec_val(s.take(m)) * 10 + digit_val(
            s.take(m + 1).last(),
        ));
    }
}

// ---------------------------------------------------------------------------
// The exec parser.
// ---------------------------------------------------------------------------

/// Whether `pat` occurs at `i` in `b`.
pub fn bytes_match(b: &[u8], i: usize, pat: &[u8]) -> (r: bool)
    requires
        i <= b@.len(),
    ensures
        r == (i + pat@.len() <= b@.len() && b@.subrange(i as int, i + pat@.len()) == pat@),
{
    if b.len() - i < pat.len() {
        return false;
    }
    let mut k: usize = 0;
    while k < pat.len()
        invariant
            i + pat@.len() <= b@.len(),
            b@.len() <= usize::MAX,
            k <= pat@.len(),
            forall|m: int| 0 <= m < k ==> b@[i + m] == pat@[m],
        decreases pat@.len() - k,
    {
        if b[i + k] != pat[k] {
            proof {
                if b@.subrange(i as int, i + pat@.len()) == pat@ {
                    assert(b@.subrange(i as int, i + pat@.len())[k as int] == b@[i + k]);
                    assert(false);
                }
            }
            return false;
        }
        k = k + 1;
    }
    proof {
        assert(b@.subrange(i as int, i + pat@.len()) =~= pat@);
    }
    true
}

/// Position after `pat` when it occurs at `i` in `b`.
pub fn expect_lit(b: &[u8], i: usize, pat: &[u8]) -> (r: Option<usize>)
    requires
        i <= b@.len(),
    ensures
        match r {
            Some(j) => sp_lit(b@, i as int, pat@) == Some(j as int) && i <= j <= b@.len(),
            None => sp_lit(b@, i as int, pat@) is None,
        },
{
    let n = b.len();
    if bytes_match(b, i, pat) {
        proof {
            assert(i + pat@.len() <= n);
        }
        Some(i + pat.len())
    } else {
        None
    }
}

/// Parses a canonical unsigned integer at `i`.
#[verifier::loop_isolation(false)]
pub fn parse_usize(b: &[u8], i: usize) -> (r: Option<(usize, usize)>)
    requires
        i <= b@.len(),
    ensures
        match r {
            Some((v, j)) => sp_usize(b@, i as int) == Some((v, j as int)) && i < j
                <= b@.len(),
            None => sp_usize(b@, i as int) is None,
        },
{
    let ghost gi = i as int;
    let mut e = i;
    while e < b.len() && 48 <= b[e] && b[e] <= 57
        invariant
            i <= e <= b@.len(),
            digits_end(b@, gi) == digits_end(b@, e as int),
        decreases b@.len() - e,
    {
        e = e + 1;
    }
    proof {
        assert(digits_end(b@, e as int) == e);
        lemma_digits_end_props(b@, gi);
    }
    if e == i {
        return None;
    }
    if b[i] == 48 && e > i + 1 {
        return None;
    }
    let mut v: usize = 0;
    let mut k = i;
    while k < e
        invariant
            i <= k <= e <= b@.len(),
            digits_end(b@, gi) == e,
            forall|m: int| gi <= m < e ==> is_digit(b@[m]),
            v == dec_val(b@.subrange(gi, k as int)),
            !(b@[gi] == 48 && e > gi + 1),
            e > gi,
        decreases e - k,
    {
        proof {
            assert(is_digit(b@[k as int]));
        }
        let d = b[k] - 48;
        proof {
            let pre = b@.subrange(gi, k as int);
            let ext = b@.subrange(gi, k + 1);
            assert(ext.drop_last() =~= pre);
            assert(ext.last() == b@[k as int]);
            assert(dec_val(ext) == dec_val(pre) * 10 + digit_val(b@[k as int]));
        }
        let v10 = match v.checked_mul(10) {
            Some(x) => x,
            None => {
                proof {
                    let s = b@.subrange(gi, e as int);
                    lemma_dec_val_prefix(s, k + 1 - gi);
                    assert(s.take(k + 1 - gi) =~= b@.subrange(gi, k + 1));
                    assert(dec_val(s) > usize::MAX);
                }
                return None;
            },
        };
        let vn = match v10.checked_add(d as usize) {
            Some(x) => x,
            None => {
                proof {
                    let s = b@.subrange(gi, e as int);
                    lemma_dec_val_prefix(s, k + 1 - gi);
                    assert(s.take(k + 1 - gi) =~= b@.subrange(gi, k + 1));
                    assert(dec_val(s) > usize::MAX);
                }
                return None;
            },
        };
        v = vn;
        k = k + 1;
    }
    Some((v, e))
}

/// Parses a half-unit count at `i`.
pub fn parse_halves(b: &[u8], i: usize) -> (r: Option<(usize, usize)>)
    requires
        i <= b@.len(),
    ensures
        match r {
            Some((h, j)) => sp_halves(b@, i as int) == Some((h, j as int)) && i < j
                <= b@.len(),
            None => sp_halves(b@, i as int) is None,
        },
{
    let (k, j) = match parse_usize(b, i) {
        Some(p) => p,
        None => {
            return None;
        },
    };
    if b.len() - j < 2 {
        return None;
    }
    if b[j] != 46 {
        return None;
    }
    let frac = b[j + 1];
    if frac != 48 && frac != 53 {
        return None;
    }
    let h2 = match k.checked_mul(2) {
        Some(x) => x,
        None => {
            return None;
        },
    };
    if frac == 53 {
        match h2.checked_add(1) {
            Some(h) => Some((h, j + 2)),
            None => None,
        }
    } else {
        Some((h2, j + 2))
    }
}

/// Parses one quoted track tag at `i`.
pub fn parse_track(b: &[u8], i: usize) -> (r: Option<(PrivilegePoint, usize)>)
    requires
        i <= b@.len(),
    ensures
        match r {
            Some((t, j)) => sp_track(b@, i as int) == Some((t, j as int)) && i < j
                <= b@.len(),
            None => sp_track(b@, i as int) is None,
        },
{
    let pat = qtrack_vec(PrivilegePoint::ConcurrentFleets);
    if let Some(j) = expect_lit(b, i, pat.as_slice()) {
        return Some((PrivilegePoint::ConcurrentFleets, j));
    }
    let pat = qtrack_vec(PrivilegePoint::FleetSize);
    if let Some(j) = expect_lit(b, i, pat.as_slice()) {
        return Some((PrivilegePoint::FleetSize, j));
    }
    let pat = qtrack_vec(PrivilegePoint::CraftingCapacity);
    if let Some(j) = expect_lit(b, i, pat.as_slice()) {
        return Some((PrivilegePoint::CraftingCapacity, j));
    }
    let pat = qtrack_vec(PrivilegePoint::StarpathPass);
    if let Some(j) = expect_lit(b, i, pat.as_slice()) {
        return Some((PrivilegePoint::StarpathPass, j));
    }
    let pat = qtrack_vec(PrivilegePoint::ExpeditedRescue);
    if let Some(j) = expect_lit(b, i, pat.as_slice()) {
        return Some((PrivilegePoint::ExpeditedRescue, j));
    }
    None
}

/// Parses a bracketed tag list at `i`.
#[verifier::loop_isolation(false)]
pub fn parse_points(b: &[u8], i: usize) -> (r: Option<(Vec<PrivilegePoint>, usize)>)
    requires
        i <= b@.len(),
    ensures
        match r {
            Some((v, j)) => sp_points(b@, i as int) == Some((v@, j as int)) && i < j
                <= b@.len(),
            None => sp_points(b@, i as int) is None,
        },
{
    if i >= b.len() || b[i] != 91 {
        return None;
    }
    let first = i + 1;
    if first < b.len() && b[first] == 93 {
        let empty: Vec<PrivilegePoint> = Vec::new();
        proof {
            assert(empty@ =~= Seq::<PrivilegePoint>::empty());
        }
        return Some((empty, first + 1));
    }
    let (t0, cur0) = match parse_track(b, first) {
        Some(p) => p,
        None => {
            return None;
        },
    };
    let mut acc: Vec<PrivilegePoint> = Vec::new();
    acc.push(t0);
    let mut cur = cur0;
    proof {
        assert(acc@ =~= seq![t0]);
    }
    loop
        invariant
            i < cur <= b@.len(),
            (match sp_points_rest(b@, cur as int) {
                Some(pr) => sp_points(b@, i as int) == Some((acc@ + pr.0, pr.1)),
                None => sp_points(b@, i as int) is None,
            }),
        decreases b@.len() - cur,
    {
        if cur < b.len() && b[cur] == 93 {
            proof {
                assert(acc@ + Seq::<PrivilegePoint>::empty() =~= acc@);
            }
            return Some((acc, cur + 1));
        }
        if cur < b.len() && b[cur] == 44 {
            match parse_track(b, cur + 1) {
                Some((t, j2)) => {
                    proof {
                        if sp_points_rest(b@, j2 as int) is Some {
                            let pr = sp_points_rest(b@, j2 as int).unwrap();
                            assert(sp_points_rest(b@, cur as int) == Some(
                                (seq![t] + pr.0, pr.1),
                            ));
                            assert((acc@ + seq![t]) + pr.0 =~= acc@ + (seq![t] + pr.0));
                            assert(acc@.push(t) =~= acc@ + seq![t]);
                        } else {
                            assert(sp_points_rest(b@, cur as int) is None);
                        }
                    }
                    acc.push(t);
                    cur = j2;
                },
                None => {
                    return None;
                },
            }
        } else {
            return None;
        }
    }
}

/// Parses a whole canonical text into a build.
pub fn parse_json(b: &[u8]) -> (r: Option<crate::CouncilRank>)
    ensures
        match r {
            Some(cr) => json_parsed(b@) == Some((cr.privileges, cr.privilege_points@)),
            None => json_parsed(b@) is None,
        },
{
    let pat = lit_head_vec();
    let i1 = match expect_lit(b, 0, pat.as_slice()) {
        Some(j) => j,
        None => {
            return None;
        },
    };
    let (cf, i2) = match parse_usize(b, i1) {
        Some(p) => p,
        None => {
            return None;
        },
    };
    let pat = lit_fleet_vec();
    let i3 = match expect_lit(b, i2, pat.as_slice()) {
        Some(j) => j,
        None => {
            return None;
        },
    };
    let (fs, i4) = match parse_usize(b, i3) {
        Some(p) => p,
        None => {
            return None;
        },
    };
    let pat = lit_crafting_vec();
    let i5 = match expect_lit(b, i4, pat.as_slice()) {
        Some(j) => j,
        None => {
            return None;
        },
    };
    let (cc, i6) = match parse_usize(b, i5) {
        Some(p) => p,
        None => {
            return None;
        },
    };
    let pat = lit_starpath_vec();
    let i7 = match expect_lit(b, i6, pat.as_slice()) {
        Some(j) => j,
        None => {
            return None;
        },
    };
    let (sh, i8) = match parse_halves(b, i7) {
        Some(p) => p,
        None => {
            return None;
        },
    };
    let pat = lit_rescue_vec();
    let i9 = match expect_lit(b, i8, pat.as_slice()) {
        Some(j) => j,
        None => {
            return None;
        },
    };
    let (eh, i10) = match parse_halves(b, i9) {
        Some(p) => p,
        None => {
            return None;
        },
    };
    let pat = lit_points_vec();
    let i11 = match expect_lit(b, i10, pat.as_slice()) {
        Some(j) => j,
        None => {
            return None;
        },
    };
    let (pts, i12) = match parse_points(b, i11) {
        Some(p) => p,
        None => {
            return None;
        },
    };
    if i12 < b.len() && b[i12] == 125 && i12 + 1 == b.len() {
        Some(
            crate::CouncilRank {
                privileges: Privileges {
                    concurrent_fleets: cf,
                    fleet_size: fs,
                    crafting_capacity: cc,
                    starpath_pass_halves: sh,
                    expedited_rescue_halves: eh,
                },
                privilege_points: pts,
            },
        )
    } else {
        None
    }
}

} // verus!
