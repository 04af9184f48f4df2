//! Durable encoding of the updater state: one canonical JSON object, and a
//! decoder for exactly that encoding. Decoding an encoded state yields the
//! original state, so a state file written here always hydrates faithfully.

use vstd::prelude::*;
use vstd::utf8::encode_utf8;

use crate::audit::{json_escape, json_escaped_byte, push_json_escaped};
use crate::strutil::{dec_digits_of, dec_render, hex_digit, push_bytes};
use crate::updater::{Slot, SlotInfo, SlotInfoV, SlotState, StateV, UpdaterState};

verus! {

/// The wire name of a slot state.
pub open spec fn state_name(s: SlotState) -> Seq<u8> {
    match s {
        SlotState::Inactive => encode_utf8("\"INACTIVE\""@),
        SlotState::Staged => encode_utf8("\"STAGED\""@),
        SlotState::Booting => encode_utf8("\"BOOTING\""@),
        SlotState::Active => encode_utf8("\"ACTIVE\""@),
        SlotState::Bad => encode_utf8("\"BAD\""@),
    }
}

/// The wire form of an optional slot.
pub open spec fn slot_opt_bytes(s: Option<Slot>) -> Seq<u8> {
    match s {
        Some(Slot::A) => encode_utf8("\"A\""@),
        Some(Slot::B) => encode_utf8("\"B\""@),
        None => encode_utf8("null"@),
    }
}

/// The wire form of an optional artifact string.
pub open spec fn artifact_bytes(a: Option<Seq<char>>) -> Seq<u8> {
    match a {
        Some(s) => seq![34u8] + json_escape(encode_utf8(s)) + seq![34u8],
        None => encode_utf8("null"@),
    }
}

/// The wire form of one slot record, with its trailing continuation.
pub open spec fn slot_info_bytes_then(info: SlotInfoV, rest: Seq<u8>) -> Seq<u8> {
    encode_utf8("{\"state\":"@) + (state_name(info.state) + (encode_utf8(",\"artifact\":"@) + (
    artifact_bytes(info.artifact) + (encode_utf8(",\"generation\":"@) + (dec_digits_of(
        info.generation as nat,
    ) + (encode_utf8("}"@) + rest))))))
}

/// The wire form of one slot record.
pub open spec fn slot_info_bytes(info: SlotInfoV) -> Seq<u8> {
    slot_info_bytes_then(info, Seq::empty())
}

/// The canonical JSON encoding of the whole state.
pub open spec fn state_bytes(s: StateV) -> Seq<u8> {
    encode_utf8("{\"generation\":"@) + (dec_digits_of(s.generation as nat) + (encode_utf8(
        ",\"active\":"@,
    ) + (slot_opt_bytes(s.active) + (encode_utf8(",\"previous_active\":"@) + (slot_opt_bytes(
        s.previous_active,
    ) + (encode_utf8(",\"staging\":"@) + (slot_opt_bytes(s.staging) + (encode_utf8(
        ",\"last_failed\":"@,
    ) + (slot_opt_bytes(s.last_failed) + (encode_utf8(",\"slots\":{\"A\":"@)
        + slot_info_bytes_then(
        s.slots.a,
        encode_utf8(",\"B\":"@) + slot_info_bytes_then(s.slots.b, encode_utf8("}}"@)),
    )))))))))))
}

fn push_slot_opt(out: &mut Vec<u8>, s: &Option<Slot>)
    ensures
        final(out)@ == old(out)@ + slot_opt_bytes(*s),
{
    match s {
        Some(Slot::A) => push_bytes(out, "\"A\"".as_bytes()),
        Some(Slot::B) => push_bytes(out, "\"B\"".as_bytes()),
        None => push_bytes(out, "null".as_bytes()),
    }
}

fn push_state_name(out: &mut Vec<u8>, state: SlotState)
    ensures
        final(out)@ == old(out)@ + state_name(state),
{
    match state {
        SlotState::Inactive => push_bytes(out, "\"INACTIVE\"".as_bytes()),
        SlotState::Staged => push_bytes(out, "\"STAGED\"".as_bytes()),
        SlotState::Booting => push_bytes(out, "\"BOOTING\"".as_bytes()),
        SlotState::Active => push_bytes(out, "\"ACTIVE\"".as_bytes()),
        SlotState::Bad => push_bytes(out, "\"BAD\"".as_bytes()),
    }
}

fn push_artifact(out: &mut Vec<u8>, artifact: &Option<String>)
    ensures
        final(out)@ == old(out)@ + artifact_bytes(match artifact {
            Some(a) => Some(a@),
            None => None,
        }),
{
    match artifact {
        Some(a) => {
            out.push(34);
            push_json_escaped(out, a.as_str().as_bytes());
            out.push(34);
            assert(out@ =~= old(out)@ + artifact_bytes(Some(a@)));
        },
        None => push_bytes(out, "null".as_bytes()),
    }
}

fn push_slot_info(out: &mut Vec<u8>, info: &SlotInfo)
    ensures
        final(out)@ == old(out)@ + slot_info_bytes(info@),
{
    push_bytes(out, "{\"state\":".as_bytes());
    push_state_name(out, info.state);
    push_bytes(out, ",\"artifact\":".as_bytes());
    push_artifact(out, &info.artifact);
    push_bytes(out, ",\"generation\":".as_bytes());
    let digits = dec_render(info.generation);
    push_bytes(out, digits.as_slice());
    out.push(125);
    proof {
        reveal_strlit("}");
        vstd::utf8::is_ascii_chars_encode_utf8("}"@);
        assert(encode_utf8("}"@) =~= seq![125u8]);
        assert(Seq::<u8>::empty() =~= slot_info_bytes(info@).skip(
            slot_info_bytes(info@).len() as int,
        ));
    }
    assert(out@ =~= old(out)@ + slot_info_bytes(info@));
}

/// Encode a state as its canonical JSON.
#[verifier::rlimit(100)]
pub fn encode_state(s: &UpdaterState) -> (r: Vec<u8>)
    ensures
        r@ == state_bytes(s@),
{
    let mut out: Vec<u8> = Vec::new();
    push_bytes(&mut out, "{\"generation\":".as_bytes());
    let digits = dec_render(s.generation);
    push_bytes(&mut out, digits.as_slice());
    push_bytes(&mut out, ",\"active\":".as_bytes());
    push_slot_opt(&mut out, &s.active);
    push_bytes(&mut out, ",\"previous_active\":".as_bytes());
    push_slot_opt(&mut out, &s.previous_active);
    push_bytes(&mut out, ",\"staging\":".as_bytes());
    push_slot_opt(&mut out, &s.staging);
    push_bytes(&mut out, ",\"last_failed\":".as_bytes());
    push_slot_opt(&mut out, &s.last_failed);
    push_bytes(&mut out, ",\"slots\":{\"A\":".as_bytes());
    push_slot_info(&mut out, &s.slots.a);
    push_bytes(&mut out, ",\"B\":".as_bytes());
    push_slot_info(&mut out, &s.slots.b);
    push_bytes(&mut out, "}}".as_bytes());
    proof {
        let k0 = encode_utf8("{\"generation\":"@);
        let k1 = encode_utf8(",\"active\":"@);
        let k2 = encode_utf8(",\"previous_active\":"@);
        let k3 = encode_utf8(",\"staging\":"@);
        let k4 = encode_utf8(",\"last_failed\":"@);
        let k5 = encode_utf8(",\"slots\":{\"A\":"@);
        let k6 = encode_utf8(",\"B\":"@);
        let k7 = encode_utf8("}}"@);
        let d = dec_digits_of(s@.generation as nat);
        let sa = slot_opt_bytes(s@.active);
        let sp = slot_opt_bytes(s@.previous_active);
        let ss = slot_opt_bytes(s@.staging);
        let sl = slot_opt_bytes(s@.last_failed);
        let ia = slot_info_bytes(s@.slots.a);
        let ib = slot_info_bytes(s@.slots.b);
        let e = Seq::<u8>::empty();
        let l1 = e + k0;
        let l2 = l1 + d;
        let l3 = l2 + k1;
        let l4 = l3 + sa;
        let l5 = l4 + k2;
        let l6 = l5 + sp;
        let l7 = l6 + k3;
        let l8 = l7 + ss;
        let l9 = l8 + k4;
        let l10 = l9 + sl;
        let l11 = l10 + k5;
        let l12 = l11 + ia;
        let l13 = l12 + k6;
        let l14 = l13 + ib;
        assert(out@ == l14 + k7);
        let r12 = slot_info_bytes_then(s@.slots.b, k7);
        lemma_slot_info_then(s@.slots.b, k7);
        lemma_assoc(l13, ib, k7);
        let r11 = k6 + r12;
        lemma_assoc(l12, k6, r12);
        let r10 = slot_info_bytes_then(s@.slots.a, r11);
        lemma_slot_info_then(s@.slots.a, r11);
        lemma_assoc(l11, ia, r11);
        let r9 = k5 + r10;
        lemma_assoc(l10, k5, r10);
        let r8 = sl + r9;
        lemma_assoc(l9, sl, r9);
        let r7 = k4 + r8;
        lemma_assoc(l8, k4, r8);
        let r6 = ss + r7;
        lemma_assoc(l7, ss, r7);
        let r5 = k3 + r6;
        lemma_assoc(l6, k3, r6);
        let r4 = sp + r5;
        lemma_assoc(l5, sp, r5);
        let r3 = k2 + r4;
        lemma_assoc(l4, k2, r4);
        let r2 = sa + r3;
        lemma_assoc(l3, sa, r3);
        let r1 = k1 + r2;
        lemma_assoc(l2, k1, r2);
        let r0 = d + r1;
        lemma_assoc(l1, d, r1);
        assert(out@ == (e + k0) + r0);
        lemma_assoc(e, k0, r0);
        assert(e + (k0 + r0) =~= k0 + r0);
        assert(out@ == state_bytes(s@));
    }
    out
}

/// The rest of the input after a required literal, if it is there.
pub open spec fn expect(s: Seq<u8>, lit: Seq<u8>) -> Option<Seq<u8>> {
    if s.len() >= lit.len() && s.take(lit.len() as int) == lit {
        Some(s.skip(lit.len() as int))
    } else {
        None
    }
}

/// A decimal digit.
pub open spec fn is_digit(b: u8) -> bool {
    48 <= b <= 57
}

/// The length of the leading digit run.
pub open spec fn digit_run(s: Seq<u8>) -> nat
    decreases s.len(),
{
    if s.len() > 0 && is_digit(s[0]) {
        1 + digit_run(s.skip(1))
    } else {
        0
    }
}

/// The value of a digit string, most significant first, onto `acc`.
pub open spec fn digits_value(ds: Seq<u8>, acc: nat) -> nat
    decreases ds.len(),
{
    if ds.len() == 0 {
        acc
    } else {
        digits_value(ds.skip(1), (acc * 10 + (ds[0] - 48)) as nat)
    }
}

/// The parsed number and the rest, when the input starts with digits and the
/// value fits in a `u64`.
pub open spec fn parse_u64(s: Seq<u8>) -> Option<(u64, Seq<u8>)> {
    let k = digit_run(s);
    if k == 0 {
        None
    } else {
        let v = digits_value(s.take(k as int), 0);
        if v <= u64::MAX {
            Some((v as u64, s.skip(k as int)))
        } else {
            None
        }
    }
}

/// The parsed slot option and the rest.
pub open spec fn parse_slot_opt(s: Seq<u8>) -> Option<(Option<Slot>, Seq<u8>)> {
    match expect(s, encode_utf8("\"A\""@)) {
        Some(rest) => Some((Some(Slot::A), rest)),
        None => match expect(s, encode_utf8("\"B\""@)) {
            Some(rest) => Some((Some(Slot::B), rest)),
            None => match expect(s, encode_utf8("null"@)) {
                Some(rest) => Some((None, rest)),
                None => None,
            },
        },
    }
}

/// The parsed slot state and the rest.
pub open spec fn parse_state(s: Seq<u8>) -> Option<(SlotState, Seq<u8>)> {
    match expect(s, encode_utf8("\"INACTIVE\""@)) {
        Some(rest) => Some((SlotState::Inactive, rest)),
        None => match expect(s, encode_utf8("\"STAGED\""@)) {
            Some(rest) => Some((SlotState::Staged, rest)),
            None => match expect(s, encode_utf8("\"BOOTING\""@)) {
                Some(rest) => Some((SlotState::Booting, rest)),
                None => match expect(s, encode_utf8("\"ACTIVE\""@)) {
                    Some(rest) => Some((SlotState::Active, rest)),
                    None => match expect(s, encode_utf8("\"BAD\""@)) {
                        Some(rest) => Some((SlotState::Bad, rest)),
                        None => None,
                    },
                },
            },
        },
    }
}

/// The hex value of a lower-case hex digit byte.
pub open spec fn hex_value(b: u8) -> nat {
    if 48 <= b <= 57 {
        (b - 48) as nat
    } else {
        (b - 87) as nat
    }
}

/// A lower-case hex digit byte.
pub open spec fn is_lower_hex(b: u8) -> bool {
    (48 <= b <= 57) || (97 <= b <= 102)
}

/// The content bytes of a JSON string up to its closing quote, unescaped,
/// and the rest.
pub open spec fn parse_jstr(s: Seq<u8>) -> Option<(Seq<u8>, Seq<u8>)>
    decreases s.len(),
{
    if s.len() == 0 {
        None
    } else if s[0] == 34 {
        Some((Seq::empty(), s.skip(1)))
    } else if s[0] == 92 {
        if s.len() < 2 {
            None
        } else if s[1] == 34 || s[1] == 92 {
            match parse_jstr(s.skip(2)) {
                Some((content, rest)) => Some((seq![s[1]] + content, rest)),
                None => None,
            }
        } else if s[1] == 98 || s[1] == 102 || s[1] == 110 || s[1] == 114 || s[1] == 116 {
            let b: u8 = if s[1] == 98 {
                8
            } else if s[1] == 102 {
                12
            } else if s[1] == 110 {
                10
            } else if s[1] == 114 {
                13
            } else {
                9
            };
            match parse_jstr(s.skip(2)) {
                Some((content, rest)) => Some((seq![b] + content, rest)),
                None => None,
            }
        } else if s[1] == 117 {
            if s.len() < 6 || s[2] != 48 || s[3] != 48 || !is_lower_hex(s[4]) || !is_lower_hex(
                s[5],
            ) {
                None
            } else {
                let b = (hex_value(s[4]) * 16 + hex_value(s[5])) as u8;
                match parse_jstr(s.skip(6)) {
                    Some((content, rest)) => Some((seq![b] + content, rest)),
                    None => None,
                }
            }
        } else {
            None
        }
    } else {
        match parse_jstr(s.skip(1)) {
            Some((content, rest)) => Some((seq![s[0]] + content, rest)),
            None => None,
        }
    }
}

/// The parsed optional artifact and the rest: `null`, or a JSON string whose
/// content must be UTF-8.
pub open spec fn parse_artifact(s: Seq<u8>) -> Option<(Option<Seq<char>>, Seq<u8>)> {
    if expect(s, encode_utf8("null"@)) is Some {
        Some((None, expect(s, encode_utf8("null"@)).unwrap()))
    } else if s.len() > 0 && s[0] == 34 {
        match parse_jstr(s.skip(1)) {
            Some((content, rest)) => if vstd::utf8::valid_utf8(content) {
                Some((Some(vstd::utf8::decode_utf8(content)), rest))
            } else {
                None
            },
            None => None,
        }
    } else {
        None
    }
}

/// The parsed slot record and the rest.
pub open spec fn parse_slot_info(s: Seq<u8>) -> Option<(SlotInfoV, Seq<u8>)> {
    match expect(s, encode_utf8("{\"state\":"@)) {
        None => None,
        Some(s1) => match parse_state(s1) {
            None => None,
            Some((state, s2)) => match expect(s2, encode_utf8(",\"artifact\":"@)) {
                None => None,
                Some(s3) => match parse_artifact(s3) {
                    None => None,
                    Some((artifact, s4)) => match expect(s4, encode_utf8(",\"generation\":"@)) {
                        None => None,
                        Some(s5) => match parse_u64(s5) {
                            None => None,
                            Some((generation, s6)) => match expect(s6, encode_utf8("}"@)) {
                                None => None,
                                Some(s7) => Some((SlotInfoV { state, artifact, generation }, s7)),
                            },
                        },
                    },
                },
            },
        },
    }
}

/// The decoded state, when the bytes are exactly one canonical encoding.
pub open spec fn spec_decode_state(s: Seq<u8>) -> Option<StateV> {
    match expect(s, encode_utf8("{\"generation\":"@)) {
        None => None,
        Some(s1) => match parse_u64(s1) {
            None => None,
            Some((generation, s2)) => match expect(s2, encode_utf8(",\"active\":"@)) {
                None => None,
                Some(s3) => match parse_slot_opt(s3) {
                    None => None,
                    Some((active, s4)) => match expect(s4, encode_utf8(",\"previous_active\":"@)) {
                        None => None,
                        Some(s5) => match parse_slot_opt(s5) {
                            None => None,
                            Some((previous_active, s6)) => match expect(
                                s6,
                                encode_utf8(",\"staging\":"@),
                            ) {
                                None => None,
                                Some(s7) => match parse_slot_opt(s7) {
                                    None => None,
                                    Some((staging, s8)) => match expect(
                                        s8,
                                        encode_utf8(",\"last_failed\":"@),
                                    ) {
                                        None => None,
                                        Some(s9) => match parse_slot_opt(s9) {
                                            None => None,
                                            Some((last_failed, s10)) => spec_decode_slots(
                                                s10,
                                                generation,
                                                active,
                                                previous_active,
                                                staging,
                                                last_failed,
                                            ),
                                        },
                                    },
                                },
                            },
                        },
                    },
                },
            },
        },
    }
}

/// The trailing slots object of the encoding.
pub open spec fn spec_decode_slots(
    s: Seq<u8>,
    generation: u64,
    active: Option<Slot>,
    previous_active: Option<Slot>,
    staging: Option<Slot>,
    last_failed: Option<Slot>,
) -> Option<StateV> {
    match expect(s, encode_utf8(",\"slots\":{\"A\":"@)) {
        None => None,
        Some(s1) => match parse_slot_info(s1) {
            None => None,
            Some((a, s2)) => match expect(s2, encode_utf8(",\"B\":"@)) {
                None => None,
                Some(s3) => match parse_slot_info(s3) {
                    None => None,
                    Some((b, s4)) => match expect(s4, encode_utf8("}}"@)) {
                        None => None,
                        Some(s5) => if s5.len() == 0 {
                            Some(
                                StateV {
                                    generation,
                                    active,
                                    previous_active,
                                    staging,
                                    last_failed,
                                    slots: crate::updater::SlotPairV { a, b },
                                },
                            )
                        } else {
                            None
                        },
                    },
                },
            },
        },
    }
}

/// Concatenation is associative.
proof fn lemma_assoc(a: Seq<u8>, b: Seq<u8>, c: Seq<u8>)
    ensures
        (a + b) + c == a + (b + c),
{
    assert((a + b) + c =~= a + (b + c));
}

/// A slot record's bytes followed by a continuation are the record encoded
/// with that continuation.
#[verifier::rlimit(60)]
proof fn lemma_slot_info_then(info: SlotInfoV, rest: Seq<u8>)
    ensures
        slot_info_bytes(info) + rest == slot_info_bytes_then(info, rest),
{
    assert(slot_info_bytes(info) + rest =~= slot_info_bytes_then(info, rest));
}

/// A literal followed by anything parses back to that anything.
proof fn lemma_expect_round(lit: Seq<u8>, rest: Seq<u8>)
    ensures
        expect(lit + rest, lit) == Some(rest),
{
    assert((lit + rest).take(lit.len() as int) =~= lit);
    assert((lit + rest).skip(lit.len() as int) =~= rest);
}

/// The value of a single digit.
proof fn lemma_digits_value_single(d: u8, acc: nat)
    requires
        is_digit(d),
    ensures
        digits_value(seq![d], acc) == acc * 10 + (d - 48),
{
    let acc2 = (acc * 10 + (d - 48)) as nat;
    assert(seq![d].skip(1) =~= Seq::<u8>::empty());
    assert(digits_value(Seq::<u8>::empty(), acc2) == acc2);
}

/// Digit values compose across concatenation.
proof fn lemma_digits_value_concat(a: Seq<u8>, b: Seq<u8>, acc: nat)
    ensures
        digits_value(a + b, acc) == digits_value(b, digits_value(a, acc)),
    decreases a.len(),
{
    if a.len() == 0 {
        assert(a + b =~= b);
    } else {
        assert((a + b).skip(1) =~= a.skip(1) + b);
        lemma_digits_value_concat(a.skip(1), b, (acc * 10 + (a[0] - 48)) as nat);
    }
}

/// Rendering then folding digits returns the value.
proof fn lemma_digits_value_render(n: nat)
    ensures
        digits_value(dec_digits_of(n), 0) == n,
        forall|acc: nat| #[trigger] digits_value(dec_digits_of(n), acc) == acc * vstd::arithmetic::power::pow(
            10,
            dec_digits_of(n).len() as nat,
        ) + n,
    decreases n,
{
    vstd::arithmetic::power::lemma_pow_positive(10, dec_digits_of(n).len() as nat);
    if n < 10 {
        assert forall|acc: nat| #[trigger] digits_value(dec_digits_of(n), acc) == acc
            * vstd::arithmetic::power::pow(10, dec_digits_of(n).len() as nat) + n by {
            assert(dec_digits_of(n) =~= seq![(48 + n) as u8]);
            lemma_digits_value_single((48 + n) as u8, acc);
            assert(digits_value(dec_digits_of(n), acc) == acc * 10 + n);
            vstd::arithmetic::power::lemma_pow1(10);
        }
        vstd::arithmetic::power::lemma_pow1(10);
        assert(digits_value(dec_digits_of(n), 0) == 0 * vstd::arithmetic::power::pow(10, 1) + n);
    } else {
        lemma_digits_value_render(n / 10);
        let prefix = dec_digits_of(n / 10);
        let plen = prefix.len() as nat;
        assert forall|acc: nat| #[trigger] digits_value(dec_digits_of(n), acc) == acc
            * vstd::arithmetic::power::pow(10, dec_digits_of(n).len() as nat) + n by {
            assert(dec_digits_of(n) =~= prefix + seq![(48 + n % 10) as u8]);
            lemma_digits_value_concat(prefix, seq![(48 + n % 10) as u8], acc);
            assert(digits_value(prefix, acc) == acc * vstd::arithmetic::power::pow(10, plen) + n
                / 10);
            let mid = digits_value(prefix, acc);
            lemma_digits_value_single((48 + n % 10) as u8, mid);
            assert(digits_value(seq![(48 + n % 10) as u8], mid) == mid * 10 + n % 10);
            assert(dec_digits_of(n).len() == plen + 1);
            assert(vstd::arithmetic::power::pow(10, plen + 1) == 10 * vstd::arithmetic::power::pow(
                10,
                plen,
            )) by {
                vstd::arithmetic::power::lemma_pow1(10);
                vstd::arithmetic::power::lemma_pow_adds(10, plen, 1);
            }
            assert((acc * vstd::arithmetic::power::pow(10, plen) + n / 10) * 10 == acc * (10
                * vstd::arithmetic::power::pow(10, plen)) + (n / 10) * 10) by (nonlinear_arith);
        }
        assert(digits_value(dec_digits_of(n), 0) == 0 * vstd::arithmetic::power::pow(
            10,
            dec_digits_of(n).len() as nat,
        ) + n);
    }
}

/// Rendered digits are digits.
proof fn lemma_dec_digits_are_digits(n: nat)
    ensures
        forall|i: int| 0 <= i < dec_digits_of(n).len() ==> is_digit(#[trigger] dec_digits_of(n)[i]),
        dec_digits_of(n).len() >= 1,
    decreases n,
{
    if n < 10 {
        assert(dec_digits_of(n) =~= seq![(48 + n) as u8]);
    } else {
        lemma_dec_digits_are_digits(n / 10);
        let prefix = dec_digits_of(n / 10);
        assert forall|i: int| 0 <= i < dec_digits_of(n).len() implies is_digit(
            #[trigger] dec_digits_of(n)[i],
        ) by {
            if i < prefix.len() {
                assert(dec_digits_of(n)[i] == prefix[i]);
            } else {
                assert(dec_digits_of(n)[i] == (48 + n % 10) as u8);
            }
        }
    }
}

/// The digit run of digits followed by a non-digit is the digits.
proof fn lemma_digit_run_concat(ds: Seq<u8>, rest: Seq<u8>)
    requires
        forall|i: int| 0 <= i < ds.len() ==> is_digit(#[trigger] ds[i]),
        rest.len() == 0 || !is_digit(rest[0]),
    ensures
        digit_run(ds + rest) == ds.len(),
    decreases ds.len(),
{
    if ds.len() == 0 {
        assert(ds + rest =~= rest);
    } else {
        assert((ds + rest).skip(1) =~= ds.skip(1) + rest);
        lemma_digit_run_concat(ds.skip(1), rest);
    }
}

/// A rendered number followed by a non-digit parses back.
proof fn lemma_parse_u64_round(n: u64, rest: Seq<u8>)
    requires
        rest.len() == 0 || !is_digit(rest[0]),
    ensures
        parse_u64(dec_digits_of(n as nat) + rest) == Some((n, rest)),
{
    let ds = dec_digits_of(n as nat);
    lemma_dec_digits_are_digits(n as nat);
    lemma_digit_run_concat(ds, rest);
    lemma_digits_value_render(n as nat);
    assert((ds + rest).take(ds.len() as int) =~= ds);
    assert((ds + rest).skip(ds.len() as int) =~= rest);
}

/// Escaped content followed by the closing quote parses back.
proof fn lemma_parse_jstr_round(content: Seq<u8>, rest: Seq<u8>)
    ensures
        parse_jstr(json_escape(content) + seq![34u8] + rest) == Some((content, rest)),
    decreases content.len(),
{
    if content.len() == 0 {
        assert(json_escape(content) =~= Seq::<u8>::empty());
        assert(json_escape(content) + seq![34u8] + rest =~= seq![34u8] + rest);
        assert((seq![34u8] + rest)[0] == 34);
        assert((seq![34u8] + rest).skip(1) =~= rest);
    } else {
        let b = content[0];
        let tail = content.skip(1);
        lemma_parse_jstr_round(tail, rest);
        let inner = json_escape(tail) + seq![34u8] + rest;
        let whole = json_escape(content) + seq![34u8] + rest;
        assert(json_escape(content) =~= json_escaped_byte(b) + json_escape(tail));
        assert(whole =~= json_escaped_byte(b) + inner);
        if b == 34 || b == 92 {
            assert(whole =~= seq![92u8, b] + inner);
            assert(whole.skip(2) =~= inner);
            assert(seq![whole[1]] + tail =~= content);
        } else if b == 8 || b == 12 || b == 10 || b == 13 || b == 9 {
            assert(whole.skip(2) =~= inner);
            assert(seq![b] + tail =~= content);
        } else if b < 32 {
            assert(whole =~= seq![92u8, 117u8, 48u8, 48u8, hex_digit(b / 16), hex_digit(b % 16)]
                + inner);
            assert(whole.skip(6) =~= inner);
            assert(is_lower_hex(hex_digit(b / 16)));
            assert(is_lower_hex(hex_digit(b % 16)));
            assert(hex_value(hex_digit(b / 16)) == b / 16);
            assert(hex_value(hex_digit(b % 16)) == b % 16);
            assert((hex_value(whole[4]) * 16 + hex_value(whole[5])) as u8 == b);
            assert(seq![b] + tail =~= content);
        } else {
            assert(whole =~= seq![b] + inner);
            assert(whole.skip(1) =~= inner);
            assert(whole[0] != 34 && whole[0] != 92);
            assert(seq![b] + tail =~= content);
        }
    }
}

/// The byte values of the slot and state wire names.
proof fn lemma_wire_names()
    ensures
        encode_utf8("\"A\""@) =~= seq![34u8, 65u8, 34u8],
        encode_utf8("\"B\""@) =~= seq![34u8, 66u8, 34u8],
        encode_utf8("null"@) =~= seq![110u8, 117u8, 108u8, 108u8],
        encode_utf8("\"INACTIVE\""@)[1] == 73u8,
        encode_utf8("\"STAGED\""@)[1] == 83u8,
        encode_utf8("\"BOOTING\""@)[1] == 66u8,
        encode_utf8("\"ACTIVE\""@)[1] == 65u8,
        encode_utf8("\"BAD\""@)[1] == 66u8,
        encode_utf8("\"BOOTING\""@)[2] == 79u8,
        encode_utf8("\"BAD\""@)[2] == 65u8,
        encode_utf8("\"INACTIVE\""@).len() == 10,
        encode_utf8("\"STAGED\""@).len() == 8,
        encode_utf8("\"BOOTING\""@).len() == 9,
        encode_utf8("\"ACTIVE\""@).len() == 8,
        encode_utf8("\"BAD\""@).len() == 5,
        encode_utf8("\"INACTIVE\""@)[0] == 34u8,
        encode_utf8("\"STAGED\""@)[0] == 34u8,
        encode_utf8("\"BOOTING\""@)[0] == 34u8,
        encode_utf8("\"ACTIVE\""@)[0] == 34u8,
        encode_utf8("\"BAD\""@)[0] == 34u8,
        encode_utf8("\"ACTIVE\""@)[2] == 67u8,
        encode_utf8("\"INACTIVE\""@)[2] == 78u8,
        encode_utf8("\"STAGED\""@)[2] == 84u8,
{
    reveal_strlit("\"A\"");
    reveal_strlit("\"B\"");
    reveal_strlit("null");
    reveal_strlit("\"INACTIVE\"");
    reveal_strlit("\"STAGED\"");
    reveal_strlit("\"BOOTING\"");
    reveal_strlit("\"ACTIVE\"");
    reveal_strlit("\"BAD\"");
    vstd::utf8::is_ascii_chars_encode_utf8("\"A\""@);
    vstd::utf8::is_ascii_chars_encode_utf8("\"B\""@);
    vstd::utf8::is_ascii_chars_encode_utf8("null"@);
    vstd::utf8::is_ascii_chars_encode_utf8("\"INACTIVE\""@);
    vstd::utf8::is_ascii_chars_encode_utf8("\"STAGED\""@);
    vstd::utf8::is_ascii_chars_encode_utf8("\"BOOTING\""@);
    vstd::utf8::is_ascii_chars_encode_utf8("\"ACTIVE\""@);
    vstd::utf8::is_ascii_chars_encode_utf8("\"BAD\""@);
}

/// A wire slot option parses back.
proof fn lemma_parse_slot_opt_round(v: Option<Slot>, rest: Seq<u8>)
    requires
        rest.len() == 0 || rest[0] == 44,
    ensures
        parse_slot_opt(slot_opt_bytes(v) + rest) == Some((v, rest)),
{
    lemma_wire_names();
    let s = slot_opt_bytes(v) + rest;
    match v {
        Some(Slot::A) => {
            lemma_expect_round(encode_utf8("\"A\""@), rest);
        },
        Some(Slot::B) => {
            lemma_expect_round(encode_utf8("\"B\""@), rest);
            assert(s[1] == 66);
            assert(expect(s, encode_utf8("\"A\""@)) is None) by {
                if s.len() >= 3 && s.take(3) == encode_utf8("\"A\""@) {
                    assert(s.take(3)[1] == 65);
                }
            }
        },
        None => {
            lemma_expect_round(encode_utf8("null"@), rest);
            assert(s[0] == 110);
            assert(expect(s, encode_utf8("\"A\""@)) is None) by {
                if s.len() >= 3 && s.take(3) == encode_utf8("\"A\""@) {
                    assert(s.take(3)[0] == 34);
                }
            }
            assert(expect(s, encode_utf8("\"B\""@)) is None) by {
                if s.len() >= 3 && s.take(3) == encode_utf8("\"B\""@) {
                    assert(s.take(3)[0] == 34);
                }
            }
        },
    }
}

/// A wire state name parses back.
proof fn lemma_parse_state_round(v: SlotState, rest: Seq<u8>)
    requires
        rest.len() == 0 || rest[0] == 44,
    ensures
        parse_state(state_name(v) + rest) == Some((v, rest)),
{
    lemma_wire_names();
    let s = state_name(v) + rest;
    let inact = encode_utf8("\"INACTIVE\""@);
    let staged = encode_utf8("\"STAGED\""@);
    let booting = encode_utf8("\"BOOTING\""@);
    let active = encode_utf8("\"ACTIVE\""@);
    let bad = encode_utf8("\"BAD\""@);
    match v {
        SlotState::Inactive => {
            lemma_expect_round(inact, rest);
        },
        SlotState::Staged => {
            lemma_expect_round(staged, rest);
            assert(expect(s, inact) is None) by {
                if s.len() >= 10 && s.take(10) == inact {
                    assert(s.take(10)[1] == 73);
                    assert(s[1] == 83);
                }
            }
        },
        SlotState::Booting => {
            lemma_expect_round(booting, rest);
            assert(s[1] == 66);
            assert(expect(s, inact) is None) by {
                if s.len() >= 10 && s.take(10) == inact {
                    assert(s.take(10)[1] == 73);
                }
            }
            assert(expect(s, staged) is None) by {
                if s.len() >= 8 && s.take(8) == staged {
                    assert(s.take(8)[1] == 83);
                }
            }
        },
        SlotState::Active => {
            lemma_expect_round(active, rest);
            assert(s[1] == 65);
            assert(expect(s, inact) is None) by {
                if s.len() >= 10 && s.take(10) == inact {
                    assert(s.take(10)[1] == 73);
                }
            }
            assert(expect(s, staged) is None) by {
                if s.len() >= 8 && s.take(8) == staged {
                    assert(s.take(8)[1] == 83);
                }
            }
            assert(expect(s, booting) is None) by {
                if s.len() >= 9 && s.take(9) == booting {
                    assert(s.take(9)[1] == 66);
                }
            }
        },
        SlotState::Bad => {
            lemma_expect_round(bad, rest);
            assert(s[1] == 66);
            assert(s[2] == 65);
            assert(expect(s, inact) is None) by {
                if s.len() >= 10 && s.take(10) == inact {
                    assert(s.take(10)[1] == 73);
                }
            }
            assert(expect(s, staged) is None) by {
                if s.len() >= 8 && s.take(8) == staged {
                    assert(s.take(8)[1] == 83);
                }
            }
            assert(expect(s, booting) is None) by {
                if s.len() >= 9 && s.take(9) == booting {
                    assert(s.take(9)[2] == 79);
                }
            }
            assert(expect(s, active) is None) by {
                if s.len() >= 8 && s.take(8) == active {
                    assert(s.take(8)[1] == 65);
                }
            }
        },
    }
}

/// A wire artifact parses back.
proof fn lemma_parse_artifact_round(a: Option<Seq<char>>, rest: Seq<u8>)
    requires
        rest.len() == 0 || rest[0] == 44,
    ensures
        parse_artifact(artifact_bytes(a) + rest) == Some((a, rest)),
{
    lemma_wire_names();
    let s = artifact_bytes(a) + rest;
    match a {
        None => {
            lemma_expect_round(encode_utf8("null"@), rest);
        },
        Some(chars) => {
            assert(s[0] == 34);
            assert(expect(s, encode_utf8("null"@)) is None) by {
                if s.len() >= 4 && s.take(4) == encode_utf8("null"@) {
                    assert(s.take(4)[0] == 110);
                }
            }
            let content = encode_utf8(chars);
            assert(s.skip(1) =~= json_escape(content) + seq![34u8] + rest);
            lemma_parse_jstr_round(content, rest);
            vstd::utf8::encode_utf8_valid_utf8(chars);
            vstd::utf8::encode_utf8_decode_utf8(chars);
        },
    }
}

/// A wire slot record parses back.
/// A wire slot record, with its continuation, parses back.
#[verifier::rlimit(100)]
proof fn lemma_parse_slot_info_round(info: SlotInfoV, rest: Seq<u8>)
    requires
        rest.len() == 0 || rest[0] == 44 || rest[0] == 125,
    ensures
        parse_slot_info(slot_info_bytes_then(info, rest)) == Some((info, rest)),
{
    let k0 = encode_utf8("{\"state\":"@);
    let k1 = encode_utf8(",\"artifact\":"@);
    let k2 = encode_utf8(",\"generation\":"@);
    let k3 = encode_utf8("}"@);
    reveal_strlit(",\"artifact\":");
    reveal_strlit(",\"generation\":");
    reveal_strlit("}");
    vstd::utf8::is_ascii_chars_encode_utf8(",\"artifact\":"@);
    vstd::utf8::is_ascii_chars_encode_utf8(",\"generation\":"@);
    vstd::utf8::is_ascii_chars_encode_utf8("}"@);
    let t6 = k3 + rest;
    let t5 = dec_digits_of(info.generation as nat) + t6;
    let t4 = k2 + t5;
    let t3 = artifact_bytes(info.artifact) + t4;
    let t2 = k1 + t3;
    let t1 = state_name(info.state) + t2;
    assert(slot_info_bytes_then(info, rest) == k0 + t1);
    lemma_expect_round(k0, t1);
    assert(t2[0] == 44);
    lemma_parse_state_round(info.state, t2);
    lemma_expect_round(k1, t3);
    assert(t4[0] == 44);
    lemma_parse_artifact_round(info.artifact, t4);
    lemma_expect_round(k2, t5);
    assert(t6[0] == 125);
    lemma_parse_u64_round(info.generation, t6);
    lemma_expect_round(k3, rest);
}

/// The slots tail of the encoding parses back.
#[verifier::rlimit(100)]
#[verifier::spinoff_prover]
proof fn lemma_decode_slots_round(
    a: SlotInfoV,
    b: SlotInfoV,
    generation: u64,
    active: Option<Slot>,
    previous_active: Option<Slot>,
    staging: Option<Slot>,
    last_failed: Option<Slot>,
)
    ensures
        spec_decode_slots(
            encode_utf8(",\"slots\":{\"A\":"@) + slot_info_bytes_then(
                a,
                encode_utf8(",\"B\":"@) + slot_info_bytes_then(b, encode_utf8("}}"@)),
            ),
            generation,
            active,
            previous_active,
            staging,
            last_failed,
        ) == Some(
            StateV {
                generation,
                active,
                previous_active,
                staging,
                last_failed,
                slots: crate::updater::SlotPairV { a, b },
            },
        ),
{
    let k5 = encode_utf8(",\"slots\":{\"A\":"@);
    let k6 = encode_utf8(",\"B\":"@);
    let k7 = encode_utf8("}}"@);
    reveal_strlit(",\"slots\":{\"A\":");
    reveal_strlit(",\"B\":");
    reveal_strlit("}}");
    vstd::utf8::is_ascii_chars_encode_utf8(",\"slots\":{\"A\":"@);
    vstd::utf8::is_ascii_chars_encode_utf8(",\"B\":"@);
    vstd::utf8::is_ascii_chars_encode_utf8("}}"@);
    let t12 = slot_info_bytes_then(b, k7);
    let t11 = slot_info_bytes_then(a, k6 + t12);
    lemma_expect_round(k5, t11);
    assert((k6 + t12)[0] == 44);
    lemma_parse_slot_info_round(a, k6 + t12);
    lemma_expect_round(k6, t12);
    assert(k7[0] == 125);
    lemma_parse_slot_info_round(b, k7);
    lemma_expect_round(k7, Seq::<u8>::empty());
    assert(k7 =~= k7 + Seq::<u8>::empty());
}

/// Round trip of the updater state: decoding an encoded state yields the
/// original state, for every state.
#[verifier::rlimit(100)]
#[verifier::spinoff_prover]
pub proof fn lemma_state_round_trip(s: StateV)
    ensures
        spec_decode_state(state_bytes(s)) == Some(s),
{
    let k0 = encode_utf8("{\"generation\":"@);
    let k1 = encode_utf8(",\"active\":"@);
    let k2 = encode_utf8(",\"previous_active\":"@);
    let k3 = encode_utf8(",\"staging\":"@);
    let k4 = encode_utf8(",\"last_failed\":"@);
    let k5 = encode_utf8(",\"slots\":{\"A\":"@);
    let k6 = encode_utf8(",\"B\":"@);
    let k7 = encode_utf8("}}"@);
    reveal_strlit(",\"active\":");
    reveal_strlit(",\"previous_active\":");
    reveal_strlit(",\"staging\":");
    reveal_strlit(",\"last_failed\":");
    reveal_strlit(",\"slots\":{\"A\":");
    vstd::utf8::is_ascii_chars_encode_utf8(",\"active\":"@);
    vstd::utf8::is_ascii_chars_encode_utf8(",\"previous_active\":"@);
    vstd::utf8::is_ascii_chars_encode_utf8(",\"staging\":"@);
    vstd::utf8::is_ascii_chars_encode_utf8(",\"last_failed\":"@);
    vstd::utf8::is_ascii_chars_encode_utf8(",\"slots\":{\"A\":"@);
    let t12 = slot_info_bytes_then(s.slots.b, k7);
    let t11 = slot_info_bytes_then(s.slots.a, k6 + t12);
    let t10 = k5 + t11;
    let t9 = slot_opt_bytes(s.last_failed) + t10;
    let t8 = k4 + t9;
    let t7 = slot_opt_bytes(s.staging) + t8;
    let t6 = k3 + t7;
    let t5 = slot_opt_bytes(s.previous_active) + t6;
    let t4 = k2 + t5;
    let t3 = slot_opt_bytes(s.active) + t4;
    let t2 = k1 + t3;
    let t1 = dec_digits_of(s.generation as nat) + t2;
    assert(state_bytes(s) == k0 + t1);
    lemma_expect_round(k0, t1);
    assert(t2[0] == 44);
    lemma_parse_u64_round(s.generation, t2);
    lemma_expect_round(k1, t3);
    assert(t4[0] == 44);
    lemma_parse_slot_opt_round(s.active, t4);
    lemma_expect_round(k2, t5);
    assert(t6[0] == 44);
    lemma_parse_slot_opt_round(s.previous_active, t6);
    lemma_expect_round(k3, t7);
    assert(t8[0] == 44);
    lemma_parse_slot_opt_round(s.staging, t8);
    lemma_expect_round(k4, t9);
    assert(t10[0] == 44);
    lemma_parse_slot_opt_round(s.last_failed, t10);
    lemma_decode_slots_round(
        s.slots.a,
        s.slots.b,
        s.generation,
        s.active,
        s.previous_active,
        s.staging,
        s.last_failed,
    );
    assert(s.slots == (crate::updater::SlotPairV { a: s.slots.a, b: s.slots.b }));
}

/// A digit string's value only grows as digits are appended to the
/// accumulator.
proof fn lemma_digits_value_ge_acc(ds: Seq<u8>, acc: nat)
    requires
        forall|k: int| 0 <= k < ds.len() ==> is_digit(#[trigger] ds[k]),
    ensures
        digits_value(ds, acc) >= acc,
    decreases ds.len(),
{
    if ds.len() > 0 {
        assert forall|k: int| 0 <= k < ds.skip(1).len() implies is_digit(
            #[trigger] ds.skip(1)[k],
        ) by {
            assert(ds.skip(1)[k] == ds[k + 1]);
        }
        lemma_digits_value_ge_acc(ds.skip(1), (acc * 10 + (ds[0] - 48)) as nat);
    }
}

/// Advance past an expected literal.
fn expect_exec(s: &[u8], pos: usize, lit: &[u8]) -> (r: Option<usize>)
    requires
        pos <= s@.len(),
    ensures
        match r {
            Some(p) => pos <= p <= s@.len() && expect(s@.skip(pos as int), lit@) == Some(
                s@.skip(p as int),
            ),
            None => expect(s@.skip(pos as int), lit@) is None,
        },
{
    if s.len() - pos < lit.len() {
        return None;
    }
    let window = &s[pos..pos + lit.len()];
    assert(window@ =~= s@.skip(pos as int).take(lit@.len() as int));
    if crate::strutil::bytes_eq(window, lit) {
        proof {
            assert(s@.skip(pos as int).skip(lit@.len() as int) =~= s@.skip(
                pos as int + lit@.len(),
            ));
        }
        Some(pos + lit.len())
    } else {
        None
    }
}

/// Parse a decimal number that fits in a `u64`.
fn parse_u64_exec(s: &[u8], pos: usize) -> (r: Option<(u64, usize)>)
    requires
        pos <= s@.len(),
    ensures
        match r {
            Some((v, p)) => pos <= p <= s@.len() && parse_u64(s@.skip(pos as int)) == Some((
                v,
                s@.skip(p as int),
            )),
            None => parse_u64(s@.skip(pos as int)) is None,
        },
{
    let ghost tail = s@.skip(pos as int);
    let mut i: usize = pos;
    while i < s.len() && 48 <= s[i] && s[i] <= 57
        invariant
            pos <= i <= s@.len(),
            tail == s@.skip(pos as int),
            digit_run(tail) == (i - pos) + digit_run(s@.skip(i as int)),
            forall|k: int| pos <= k < i ==> is_digit(#[trigger] s@[k]),
        decreases s@.len() - i,
    {
        proof {
            assert(s@.skip(i as int)[0] == s@[i as int]);
            assert(s@.skip(i as int).skip(1) =~= s@.skip(i as int + 1));
        }
        i = i + 1;
    }
    proof {
        if i < s@.len() {
            assert(s@.skip(i as int)[0] == s@[i as int]);
        }
        assert(digit_run(s@.skip(i as int)) == 0);
    }
    if i == pos {
        return None;
    }
    let ghost run = (i - pos) as int;
    let ghost ds = tail.take(run);
    proof {
        assert forall|k: int| 0 <= k < ds.len() implies is_digit(#[trigger] ds[k]) by {
            assert(ds[k] == s@[pos + k]);
        }
    }
    let mut v: u64 = 0;
    let mut j: usize = pos;
    proof {
        assert(s@.skip(pos as int).take((i - pos) as int) =~= ds);
    }
    while j < i
        invariant
            pos <= j <= i <= s@.len(),
            tail == s@.skip(pos as int),
            run == (i - pos) as int,
            run > 0,
            digit_run(tail) == run,
            ds == tail.take(run),
            forall|k: int| pos <= k < i ==> is_digit(#[trigger] s@[k]),
            forall|k: int| 0 <= k < ds.len() ==> is_digit(#[trigger] ds[k]),
            digits_value(ds, 0) == digits_value(
                s@.skip(j as int).take((i - j) as int),
                v as nat,
            ),
        decreases i - j,
    {
        let ghost rem = s@.skip(j as int).take((i - j) as int);
        proof {
            assert(rem[0] == s@[j as int]);
            assert(rem.skip(1) =~= s@.skip(j as int + 1).take((i - j - 1) as int));
            assert forall|k: int| 0 <= k < rem.skip(1).len() implies is_digit(
                #[trigger] rem.skip(1)[k],
            ) by {
                assert(rem.skip(1)[k] == s@[j + 1 + k]);
            }
        }
        let d = s[j] - 48;
        if v > (u64::MAX - (d as u64)) / 10 {
            proof {
                assert(v * 10 + d > u64::MAX) by (nonlinear_arith)
                    requires
                        v > (u64::MAX - (d as u64)) / 10,
                        d <= 9,
                ;
                lemma_digits_value_ge_acc(rem.skip(1), (v * 10 + d) as nat);
                assert(digits_value(ds, 0) > u64::MAX);
            }
            return None;
        }
        proof {
            assert(v * 10 + d <= u64::MAX) by (nonlinear_arith)
                requires
                    v <= (u64::MAX - (d as u64)) / 10,
                    d <= 9,
            ;
        }
        v = v * 10 + (d as u64);
        j = j + 1;
    }
    proof {
        assert(s@.skip(j as int).take(0) =~= Seq::<u8>::empty());
        assert(digits_value(ds, 0) == v as nat);
        assert(tail.skip(run) =~= s@.skip(i as int));
    }
    Some((v, i))
}

/// Parse the content of a JSON string after its opening quote, unescaping.
fn parse_jstr_exec(s: &[u8], pos: usize) -> (r: Option<(Vec<u8>, usize)>)
    requires
        pos <= s@.len(),
    ensures
        match r {
            Some((content, p)) => pos <= p <= s@.len() && parse_jstr(s@.skip(pos as int))
                == Some((content@, s@.skip(p as int))),
            None => parse_jstr(s@.skip(pos as int)) is None,
        },
    decreases s@.len() - pos,
{
    let ghost tail = s@.skip(pos as int);
    if pos == s.len() {
        return None;
    }
    proof {
        assert(tail[0] == s@[pos as int]);
    }
    let b0 = s[pos];
    if b0 == 34 {
        proof {
            assert(tail.skip(1) =~= s@.skip(pos as int + 1));
        }
        let content: Vec<u8> = Vec::new();
        assert(content@ =~= Seq::<u8>::empty());
        return Some((content, pos + 1));
    }
    if b0 == 92 {
        if s.len() - pos < 2 {
            return None;
        }
        proof {
            assert(tail[1] == s@[pos as int + 1]);
        }
        let b1 = s[pos + 1];
        if b1 == 34 || b1 == 92 {
            proof {
                assert(tail.skip(2) =~= s@.skip(pos as int + 2));
            }
            match parse_jstr_exec(s, pos + 2) {
                Some((mut content, p)) => {
                    let ghost before = content@;
                    content.insert(0, b1);
                    assert(content@ =~= seq![b1] + before);
                    Some((content, p))
                },
                None => None,
            }
        } else if b1 == 98 || b1 == 102 || b1 == 110 || b1 == 114 || b1 == 116 {
            let ub: u8 = if b1 == 98 {
                8
            } else if b1 == 102 {
                12
            } else if b1 == 110 {
                10
            } else if b1 == 114 {
                13
            } else {
                9
            };
            proof {
                assert(tail.skip(2) =~= s@.skip(pos as int + 2));
            }
            match parse_jstr_exec(s, pos + 2) {
                Some((mut content, p)) => {
                    let ghost before = content@;
                    content.insert(0, ub);
                    assert(content@ =~= seq![ub] + before);
                    Some((content, p))
                },
                None => None,
            }
        } else if b1 == 117 {
            if s.len() - pos < 6 {
                return None;
            }
            proof {
                assert(tail[2] == s@[pos as int + 2]);
                assert(tail[3] == s@[pos as int + 3]);
                assert(tail[4] == s@[pos as int + 4]);
                assert(tail[5] == s@[pos as int + 5]);
            }
            let h4 = s[pos + 4];
            let h5 = s[pos + 5];
            if s[pos + 2] != 48 || s[pos + 3] != 48 || !((48 <= h4 && h4 <= 57) || (97 <= h4
                && h4 <= 102)) || !((48 <= h5 && h5 <= 57) || (97 <= h5 && h5 <= 102)) {
                return None;
            }
            let v4: u8 = if h4 <= 57 {
                h4 - 48
            } else {
                h4 - 87
            };
            let v5: u8 = if h5 <= 57 {
                h5 - 48
            } else {
                h5 - 87
            };
            let ub: u8 = v4 * 16 + v5;
            proof {
                assert(tail.skip(6) =~= s@.skip(pos as int + 6));
                assert(ub == (hex_value(tail[4]) * 16 + hex_value(tail[5])) as u8);
            }
            match parse_jstr_exec(s, pos + 6) {
                Some((mut content, p)) => {
                    let ghost before = content@;
                    content.insert(0, ub);
                    assert(content@ =~= seq![ub] + before);
                    Some((content, p))
                },
                None => None,
            }
        } else {
            None
        }
    } else {
        proof {
            assert(tail.skip(1) =~= s@.skip(pos as int + 1));
        }
        match parse_jstr_exec(s, pos + 1) {
            Some((mut content, p)) => {
                let ghost before = content@;
                content.insert(0, b0);
                assert(content@ =~= seq![b0] + before);
                Some((content, p))
            },
            None => None,
        }
    }
}

/// Parse a slot option: `"A"`, `"B"` or `null`.
fn parse_slot_opt_exec(s: &[u8], pos: usize) -> (r: Option<(Option<Slot>, usize)>)
    requires
        pos <= s@.len(),
    ensures
        match r {
            Some((v, p)) => pos <= p <= s@.len() && parse_slot_opt(s@.skip(pos as int)) == Some(
                (v, s@.skip(p as int)),
            ),
            None => parse_slot_opt(s@.skip(pos as int)) is None,
        },
{
    if let Some(p) = expect_exec(s, pos, "\"A\"".as_bytes()) {
        return Some((Some(Slot::A), p));
    }
    if let Some(p) = expect_exec(s, pos, "\"B\"".as_bytes()) {
        return Some((Some(Slot::B), p));
    }
    if let Some(p) = expect_exec(s, pos, "null".as_bytes()) {
        return Some((None, p));
    }
    None
}

/// Parse a slot state name.
fn parse_state_exec(s: &[u8], pos: usize) -> (r: Option<(SlotState, usize)>)
    requires
        pos <= s@.len(),
    ensures
        match r {
            Some((v, p)) => pos <= p <= s@.len() && parse_state(s@.skip(pos as int)) == Some((
                v,
                s@.skip(p as int),
            )),
            None => parse_state(s@.skip(pos as int)) is None,
        },
{
    if let Some(p) = expect_exec(s, pos, "\"INACTIVE\"".as_bytes()) {
        return Some((SlotState::Inactive, p));
    }
    if let Some(p) = expect_exec(s, pos, "\"STAGED\"".as_bytes()) {
        return Some((SlotState::Staged, p));
    }
    if let Some(p) = expect_exec(s, pos, "\"BOOTING\"".as_bytes()) {
        return Some((SlotState::Booting, p));
    }
    if let Some(p) = expect_exec(s, pos, "\"ACTIVE\"".as_bytes()) {
        return Some((SlotState::Active, p));
    }
    if let Some(p) = expect_exec(s, pos, "\"BAD\"".as_bytes()) {
        return Some((SlotState::Bad, p));
    }
    None
}

/// Parse an optional artifact: `null` or a JSON string of UTF-8 content.
fn parse_artifact_exec(s: &[u8], pos: usize) -> (r: Option<(Option<String>, usize)>)
    requires
        pos <= s@.len(),
    ensures
        match r {
            Some((a, p)) => pos <= p <= s@.len() && parse_artifact(s@.skip(pos as int)) == Some(
                (
                    match a {
                        Some(x) => Some(x@),
                        None => None,
                    },
                    s@.skip(p as int),
                ),
            ),
            None => parse_artifact(s@.skip(pos as int)) is None,
        },
{
    let ghost tail = s@.skip(pos as int);
    if let Some(p) = expect_exec(s, pos, "null".as_bytes()) {
        return Some((None, p));
    }
    if pos == s.len() {
        return None;
    }
    proof {
        assert(tail[0] == s@[pos as int]);
    }
    if s[pos] != 34 {
        return None;
    }
    proof {
        assert(tail.skip(1) =~= s@.skip(pos as int + 1));
    }
    match parse_jstr_exec(s, pos + 1) {
        Some((content, p)) => {
            match crate::crypto::string_from_utf8(content) {
                Ok(text) => {
                    proof {
                        vstd::utf8::encode_utf8_decode_utf8(text@);
                    }
                    Some((Some(text), p))
                },
                Err(()) => None,
            }
        },
        None => None,
    }
}

/// Parse one slot record.
fn parse_slot_info_exec(s: &[u8], pos: usize) -> (r: Option<(SlotInfo, usize)>)
    requires
        pos <= s@.len(),
    ensures
        match r {
            Some((info, p)) => pos <= p <= s@.len() && parse_slot_info(s@.skip(pos as int))
                == Some((info@, s@.skip(p as int))),
            None => parse_slot_info(s@.skip(pos as int)) is None,
        },
{
    let p1 = match expect_exec(s, pos, "{\"state\":".as_bytes()) {
        Some(p) => p,
        None => {
            return None;
        },
    };
    let (state, p2) = match parse_state_exec(s, p1) {
        Some(v) => v,
        None => {
            return None;
        },
    };
    let p3 = match expect_exec(s, p2, ",\"artifact\":".as_bytes()) {
        Some(p) => p,
        None => {
            return None;
        },
    };
    let (artifact, p4) = match parse_artifact_exec(s, p3) {
        Some(v) => v,
        None => {
            return None;
        },
    };
    let p5 = match expect_exec(s, p4, ",\"generation\":".as_bytes()) {
        Some(p) => p,
        None => {
            return None;
        },
    };
    let (generation, p6) = match parse_u64_exec(s, p5) {
        Some(v) => v,
        None => {
            return None;
        },
    };
    let p7 = match expect_exec(s, p6, "}".as_bytes()) {
        Some(p) => p,
        None => {
            return None;
        },
    };
    Some((SlotInfo { state, artifact, generation }, p7))
}

/// Decode a canonical state encoding: exactly the bytes that
/// [`encode_state`] produces hydrate back, and anything else is rejected.
pub fn decode_state(s: &[u8]) -> (r: Option<UpdaterState>)
    ensures
        match r {
            Some(st) => spec_decode_state(s@) == Some(st@),
            None => spec_decode_state(s@) is None,
        },
{
    proof {
        assert(s@.skip(0) =~= s@);
    }
    let p1 = match expect_exec(s, 0, "{\"generation\":".as_bytes()) {
        Some(p) => p,
        None => {
            return None;
        },
    };
    let (generation, p2) = match parse_u64_exec(s, p1) {
        Some(v) => v,
        None => {
            return None;
        },
    };
    let p3 = match expect_exec(s, p2, ",\"active\":".as_bytes()) {
        Some(p) => p,
        None => {
            return None;
        },
    };
    let (active, p4) = match parse_slot_opt_exec(s, p3) {
        Some(v) => v,
        None => {
            return None;
        },
    };
    let p5 = match expect_exec(s, p4, ",\"previous_active\":".as_bytes()) {
        Some(p) => p,
        None => {
            return None;
        },
    };
    let (previous_active, p6) = match parse_slot_opt_exec(s, p5) {
        Some(v) => v,
        None => {
            return None;
        },
    };
    let p7 = match expect_exec(s, p6, ",\"staging\":".as_bytes()) {
        Some(p) => p,
        None => {
            return None;
        },
    };
    let (staging, p8) = match parse_slot_opt_exec(s, p7) {
        Some(v) => v,
        None => {
            return None;
        },
    };
    let p9 = match expect_exec(s, p8, ",\"last_failed\":".as_bytes()) {
        Some(p) => p,
        None => {
            return None;
        },
    };
    let (last_failed, p10) = match parse_slot_opt_exec(s, p9) {
        Some(v) => v,
        None => {
            return None;
        },
    };
    let p11 = match expect_exec(s, p10, ",\"slots\":{\"A\":".as_bytes()) {
        Some(p) => p,
        None => {
            return None;
        },
    };
    let (a, p12) = match parse_slot_info_exec(s, p11) {
        Some(v) => v,
        None => {
            return None;
        },
    };
    let p13 = match expect_exec(s, p12, ",\"B\":".as_bytes()) {
        Some(p) => p,
        None => {
            return None;
        },
    };
    let (b, p14) = match parse_slot_info_exec(s, p13) {
        Some(v) => v,
        None => {
            return None;
        },
    };
    let p15 = match expect_exec(s, p14, "}}".as_bytes()) {
        Some(p) => p,
        None => {
            return None;
        },
    };
    if p15 != s.len() {
        return None;
    }
    Some(
        UpdaterState {
            generation,
            active,
            previous_active,
            staging,
            last_failed,
            slots: crate::updater::SlotPair { a, b },
        },
    )
}

} // verus!
