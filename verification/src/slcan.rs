//! slcan (Lawicel ASCII) protocol codec.
//!
//! Frames are single lines terminated with a carriage return:
//! `t<3-hex id><1-hex dlc><2·dlc hex bytes>` for standard data frames,
//! `T<8-hex id>…` for extended data frames, and `r`/`R` for remote frames
//! that carry a dlc but no data.

use vstd::prelude::*;

use crate::frame::{Frame, IOCapabilities, Protocol};
use crate::strutil::{
    append_hex_digit, append_u64, dec_digit_char, hex_digit_char, spec_hex_str_fixed,
};
use vstd::arithmetic::power::pow;
use vstd::string::{StrSliceExecFns, StringExecFns};

verus! {

/// The value of an ASCII hexadecimal digit character, either case.
pub open spec fn hex_char_val(c: char) -> Option<u8> {
    if c == '0' {
        Some(0u8)
    } else if c == '1' {
        Some(1u8)
    } else if c == '2' {
        Some(2u8)
    } else if c == '3' {
        Some(3u8)
    } else if c == '4' {
        Some(4u8)
    } else if c == '5' {
        Some(5u8)
    } else if c == '6' {
        Some(6u8)
    } else if c == '7' {
        Some(7u8)
    } else if c == '8' {
        Some(8u8)
    } else if c == '9' {
        Some(9u8)
    } else if c == 'A' || c == 'a' {
        Some(10u8)
    } else if c == 'B' || c == 'b' {
        Some(11u8)
    } else if c == 'C' || c == 'c' {
        Some(12u8)
    } else if c == 'D' || c == 'd' {
        Some(13u8)
    } else if c == 'E' || c == 'e' {
        Some(14u8)
    } else if c == 'F' || c == 'f' {
        Some(15u8)
    } else {
        None
    }
}

/// The value of a hexadecimal digit character.
pub fn hex_char_digit(c: char) -> (r: Option<u8>)
    ensures
        r == hex_char_val(c),
{
    match c {
        '0' => Some(0),
        '1' => Some(1),
        '2' => Some(2),
        '3' => Some(3),
        '4' => Some(4),
        '5' => Some(5),
        '6' => Some(6),
        '7' => Some(7),
        '8' => Some(8),
        '9' => Some(9),
        'A' | 'a' => Some(10),
        'B' | 'b' => Some(11),
        'C' | 'c' => Some(12),
        'D' | 'd' => Some(13),
        'E' | 'e' => Some(14),
        'F' | 'f' => Some(15),
        _ => None,
    }
}

/// The value of the hexadecimal run `b[start .. start + n]`, or `None` if
/// any character in the run is not a hexadecimal digit.
pub open spec fn spec_hex_id(b: Seq<char>, start: int, n: int) -> Option<int>
    decreases n,
{
    if n <= 0 {
        Some(0int)
    } else {
        match (spec_hex_id(b, start, n - 1), hex_char_val(b[start + n - 1])) {
            (Some(v), Some(d)) => Some(16 * v + d),
            _ => None,
        }
    }
}

/// A parsed hexadecimal run is a value below `16^n`.
pub proof fn lemma_hex_id_bound(b: Seq<char>, start: int, n: int)
    requires
        n >= 0,
        spec_hex_id(b, start, n) is Some,
    ensures
        (spec_hex_id(b, start, n) matches Some(v) ==> 0 <= v < pow(16, n as nat)),
    decreases n,
{
    if n == 0 {
        vstd::arithmetic::power::lemma_pow0(16);
    } else {
        lemma_hex_id_bound(b, start, n - 1);
        vstd::arithmetic::power::lemma_pow1(16);
        vstd::arithmetic::power::lemma_pow_adds(16, 1, (n - 1) as nat);
        assert(pow(16, n as nat) == 16 * pow(16, (n - 1) as nat));
    }
}

/// A bad digit anywhere in the run makes the whole run fail to parse.
pub proof fn lemma_hex_id_none(b: Seq<char>, start: int, k: int, n: int)
    requires
        0 <= k < n,
        hex_char_val(b[start + k]) is None,
    ensures
        spec_hex_id(b, start, n) is None,
    decreases n,
{
    if k < n - 1 {
        lemma_hex_id_none(b, start, k, n - 1);
    }
}

/// The data bytes decoded from `count` pairs of hexadecimal characters
/// starting at `start`, or `None` if any character is not a digit.
pub open spec fn spec_hex_data(b: Seq<char>, start: int, count: int) -> Option<Seq<u8>>
    decreases count,
{
    if count <= 0 {
        Some(Seq::empty())
    } else {
        match (
            spec_hex_data(b, start, count - 1),
            hex_char_val(b[start + 2 * (count - 1)]),
            hex_char_val(b[start + 2 * (count - 1) + 1]),
        ) {
            (Some(rest), Some(hi), Some(lo)) => Some(rest + seq![(16 * hi + lo) as u8]),
            _ => None,
        }
    }
}

/// A parsed data run has exactly one byte per pair.
pub proof fn lemma_hex_data_len(b: Seq<char>, start: int, n: int)
    requires
        n >= 0,
    ensures
        (spec_hex_data(b, start, n) matches Some(v) ==> v.len() == n),
    decreases n,
{
    if n > 0 {
        lemma_hex_data_len(b, start, n - 1);
    }
}

/// A bad digit in any pair makes the whole data run fail to parse.
pub proof fn lemma_hex_data_none(b: Seq<char>, start: int, k: int, n: int)
    requires
        0 <= k < n,
        hex_char_val(b[start + 2 * k]) is None || hex_char_val(b[start + 2 * k + 1]) is None,
    ensures
        spec_hex_data(b, start, n) is None,
    decreases n,
{
    if k < n - 1 {
        lemma_hex_data_none(b, start, k, n - 1);
    }
}

/// A CAN frame as read off an slcan line.
#[verifier::ext_equal]
pub ghost struct SlcanRecord {
    /// Arbitration identifier.
    pub frame_id: u32,
    /// Data length code; remote frames keep it although they carry no data.
    pub dlc: u8,
    /// Data bytes.
    pub data: Seq<u8>,
    /// Extended (29-bit) identifier.
    pub is_extended: bool,
    /// Remote transmission request.
    pub is_rtr: bool,
}

/// The slcan line grammar.  A line parses to a record exactly when it has a
/// `t`/`T`/`r`/`R` prefix, a well-formed hexadecimal identifier within the
/// 11- or 29-bit range, a dlc of at most 8, and (for data frames) `dlc`
/// well-formed hexadecimal byte pairs.
pub open spec fn slcan_parse(b: Seq<char>) -> Option<SlcanRecord> {
    if b.len() == 0 {
        None
    } else {
        let c = b[0];
        if c != 't' && c != 'T' && c != 'r' && c != 'R' {
            None
        } else {
            let ext = c == 'T' || c == 'R';
            let rtr = c == 'r' || c == 'R';
            let id_len: int = if ext {
                8
            } else {
                3
            };
            if b.len() < 1 + id_len + 1 {
                None
            } else {
                match (spec_hex_id(b, 1, id_len), hex_char_val(b[1 + id_len])) {
                    (Some(id), Some(dlc)) => {
                        if dlc > 8 {
                            None
                        } else if !ext && id > 0x7FF {
                            None
                        } else if ext && id > 0x1FFF_FFFF {
                            None
                        } else if rtr || dlc == 0 {
                            Some(
                                SlcanRecord {
                                    frame_id: id as u32,
                                    dlc,
                                    data: Seq::empty(),
                                    is_extended: ext,
                                    is_rtr: rtr,
                                },
                            )
                        } else if b.len() < 2 + id_len + 2 * dlc {
                            None
                        } else {
                            match spec_hex_data(b, 2 + id_len, dlc as int) {
                                Some(data) => Some(
                                    SlcanRecord {
                                        frame_id: id as u32,
                                        dlc,
                                        data,
                                        is_extended: ext,
                                        is_rtr: rtr,
                                    },
                                ),
                                None => None,
                            }
                        }
                    },
                    _ => None,
                }
            }
        }
    }
}

/// How an exec [`Frame`] corresponds to a parsed slcan record.
pub open spec fn slcan_rec_matches(f: Frame, g: SlcanRecord, timestamp_us: u64) -> bool {
    &&& f.protocol == Protocol::Can
    &&& f.timestamp_us == timestamp_us
    &&& f.frame_id == g.frame_id
    &&& f.bus == 0
    &&& f.dlc == g.dlc
    &&& f.bytes@ == g.data
    &&& f.is_extended == g.is_extended
    &&& f.is_fd == false
    &&& f.is_rtr == g.is_rtr
    &&& f.source_address is None
    &&& f.incomplete is None
    &&& f.direction is None
}

/// Parses the hexadecimal run `line[start .. start + count]`.
fn parse_hex_run(line: &str, start: usize, count: usize) -> (r: Option<u32>)
    requires
        count <= 8,
        start <= 16,
        start + count <= line@.len(),
    ensures
        match r {
            Some(v) => spec_hex_id(line@, start as int, count as int) == Some(v as int),
            None => spec_hex_id(line@, start as int, count as int) is None,
        },
{
    let mut value: u64 = 0;
    let mut j: usize = 0;
    proof {
        vstd::arithmetic::power::lemma_pow0(16);
    }
    while j < count
        invariant
            j <= count,
            count <= 8,
            start <= 16,
            start + count <= line@.len(),
            spec_hex_id(line@, start as int, j as int) == Some(value as int),
            value < pow(16, j as nat),
        decreases count - j,
    {
        proof {
            assert(pow(16, 7) == 0x10000000) by {
                reveal_with_fuel(vstd::arithmetic::power::pow, 10);
            }
            assert(pow(16, j as nat) <= pow(16, 7)) by {
                vstd::arithmetic::power::lemma_pow_increases(16, j as nat, 7);
            }
        }
        let c = line.get_char(start + j);
        match hex_char_digit(c) {
            Some(d) => {
                value = value * 16 + (d as u64);
                j = j + 1;
                proof {
                    vstd::arithmetic::power::lemma_pow1(16);
                    vstd::arithmetic::power::lemma_pow_adds(16, 1, (j - 1) as nat);
                    assert(pow(16, j as nat) == 16 * pow(16, (j - 1) as nat));
                }
            },
            None => {
                proof {
                    lemma_hex_id_none(line@, start as int, j as int, count as int);
                }
                return None;
            },
        }
    }
    proof {
        lemma_hex_id_bound(line@, start as int, count as int);
        assert(pow(16, 8) == 0x1_0000_0000) by {
            reveal_with_fuel(vstd::arithmetic::power::pow, 10);
        }
        assert(pow(16, count as nat) <= pow(16, 8)) by {
            vstd::arithmetic::power::lemma_pow_increases(16, count as nat, 8);
        }
    }
    Some(value as u32)
}

/// Parses `count` pairs of hexadecimal characters starting at `start` into
/// data bytes.
pub fn parse_hex_pairs(line: &str, start: usize, count: usize) -> (r: Option<Vec<u8>>)
    requires
        start + 2 * count <= line@.len(),
        line@.len() <= usize::MAX,
    ensures
        match r {
            Some(v) => spec_hex_data(line@, start as int, count as int) == Some(v@),
            None => spec_hex_data(line@, start as int, count as int) is None,
        },
{
    let mut data: Vec<u8> = Vec::new();
    let mut k: usize = 0;
    while k < count
        invariant
            k <= count,
            start + 2 * count <= line@.len(),
            line@.len() <= usize::MAX,
            spec_hex_data(line@, start as int, k as int) == Some(data@),
        decreases count - k,
    {
        let hi = match hex_char_digit(line.get_char(start + 2 * k)) {
            Some(d) => d,
            None => {
                proof {
                    lemma_hex_data_none(line@, start as int, k as int, count as int);
                }
                return None;
            },
        };
        let lo = match hex_char_digit(line.get_char(start + 2 * k + 1)) {
            Some(d) => d,
            None => {
                proof {
                    lemma_hex_data_none(line@, start as int, k as int, count as int);
                }
                return None;
            },
        };
        data.push(16 * hi + lo);
        k = k + 1;
    }
    Some(data)
}

/// Parses a single slcan line into a frame.  `timestamp_us` is the host
/// time stamped on the frame.
pub fn parse_slcan_frame(line: &str, timestamp_us: u64) -> (r: Option<Frame>)
    ensures
        match (r, slcan_parse(line@)) {
            (Some(f), Some(g)) => slcan_rec_matches(f, g, timestamp_us) && f.can_wf(),
            (None, None) => true,
            _ => false,
        },
{
    let n = line.unicode_len();
    if n == 0 {
        return None;
    }
    let c0 = line.get_char(0);
    let ext: bool;
    let rtr: bool;
    if c0 == 't' {
        ext = false;
        rtr = false;
    } else if c0 == 'T' {
        ext = true;
        rtr = false;
    } else if c0 == 'r' {
        ext = false;
        rtr = true;
    } else if c0 == 'R' {
        ext = true;
        rtr = true;
    } else {
        return None;
    }
    let id_len: usize = if ext {
        8
    } else {
        3
    };
    if n < 1 + id_len + 1 {
        return None;
    }
    let id: u32 = match parse_hex_run(line, 1, id_len) {
        Some(v) => v,
        None => {
            return None;
        },
    };
    let dlc: u8 = match hex_char_digit(line.get_char(1 + id_len)) {
        Some(d) => d,
        None => {
            return None;
        },
    };
    if dlc > 8 {
        return None;
    }
    if !ext && id > 0x7FF {
        return None;
    }
    if ext && id > 0x1FFF_FFFF {
        return None;
    }
    let mut data: Vec<u8> = Vec::new();
    if !rtr && dlc > 0 {
        let start = 2 + id_len;
        let need = start + 2 * (dlc as usize);
        if n < need {
            return None;
        }
        data = match parse_hex_pairs(line, start, dlc as usize) {
            Some(v) => v,
            None => {
                return None;
            },
        };
    }
    proof {
        lemma_hex_data_len(line@, 2 + id_len as int, dlc as int);
    }
    let f = Frame {
        protocol: Protocol::Can,
        timestamp_us,
        frame_id: id,
        bus: 0,
        dlc,
        bytes: data,
        is_extended: ext,
        is_fd: false,
        is_rtr: rtr,
        source_address: None,
        incomplete: None,
        direction: None,
    };
    Some(f)
}

/// The hexadecimal characters of a data payload, two per byte.
pub open spec fn data_hex_chars(data: Seq<u8>) -> Seq<char> {
    Seq::new(
        2 * data.len(),
        |i: int|
            if i % 2 == 0 {
                hex_digit_char((data[i / 2] / 16) as int)
            } else {
                hex_digit_char((data[i / 2] % 16) as int)
            },
    )
}

/// The slcan line (without the trailing carriage return) for a frame.
pub open spec fn spec_slcan_line(id: u32, dlc: u8, data: Seq<u8>, ext: bool, rtr: bool) -> Seq<
    char,
> {
    let prefix = if ext && rtr {
        'R'
    } else if ext {
        'T'
    } else if rtr {
        'r'
    } else {
        't'
    };
    let wire_id: int = if ext {
        id as int
    } else {
        (id & 0x7FF) as int
    };
    let width: nat = if ext {
        8
    } else {
        3
    };
    seq![prefix] + spec_hex_str_fixed(wire_id, width) + seq![hex_digit_char(dlc as int)] + (
    if rtr {
        Seq::empty()
    } else {
        data_hex_chars(data)
    })
}

/// The complete slcan command for a frame: the line plus the carriage
/// return.
pub open spec fn spec_slcan_cmd(id: u32, dlc: u8, data: Seq<u8>, ext: bool, rtr: bool) -> Seq<
    char,
> {
    spec_slcan_line(id, dlc, data, ext, rtr) + seq!['\r']
}

/// Encodes a frame as an slcan command line, trailing carriage return
/// included.  The dlc sent is the payload length capped at 8.
pub fn encode_slcan_frame(frame: &Frame) -> (r: String)
    requires
        frame.bytes@.len() <= 8,
        frame.is_rtr ==> frame.bytes@.len() == 0,
    ensures
        r@ == spec_slcan_cmd(
            frame.frame_id,
            if frame.dlc <= 8 {
                frame.dlc
            } else {
                8
            },
            frame.bytes@,
            frame.is_extended,
            frame.is_rtr,
        ),
{
    proof {
        reveal_strlit("t");
        reveal_strlit("T");
        reveal_strlit("r");
        reveal_strlit("R");
        reveal_strlit("\r");
    }
    let mut s = String::new();
    if frame.is_extended && frame.is_rtr {
        s.append("R");
    } else if frame.is_extended {
        s.append("T");
    } else if frame.is_rtr {
        s.append("r");
    } else {
        s.append("t");
    }
    let ghost prefix = s@;
    if frame.is_extended {
        crate::strutil::append_hex_fixed(&mut s, frame.frame_id, 8);
    } else {
        crate::strutil::append_hex_fixed(&mut s, frame.frame_id & 0x7FF, 3);
    }
    let dlc: u8 = if frame.dlc <= 8 {
        frame.dlc
    } else {
        8
    };
    append_hex_digit(&mut s, dlc);
    let ghost head = s@;
    if !frame.is_rtr {
        let mut k: usize = 0;
        while k < frame.bytes.len()
            invariant
                k <= frame.bytes@.len(),
                frame.bytes@.len() <= 8,
                s@ == head + data_hex_chars(frame.bytes@).take(2 * k as int),
            decreases frame.bytes@.len() - k,
        {
            let b = frame.bytes[k];
            assert(b >> 4 == b / 16 && b & 0xF == b % 16 && b / 16 < 16) by (bit_vector);
            append_hex_digit(&mut s, b >> 4);
            append_hex_digit(&mut s, b & 0xF);
            k = k + 1;
            proof {
                assert(s@ =~= head + data_hex_chars(frame.bytes@).take(2 * k as int));
            }
        }
        proof {
            assert(data_hex_chars(frame.bytes@).take(2 * frame.bytes@.len() as int)
                =~= data_hex_chars(frame.bytes@));
        }
    }
    s.append("\r");
    proof {
        assert(s@ =~= spec_slcan_cmd(
            frame.frame_id,
            if frame.dlc <= 8 {
                frame.dlc
            } else {
                8
            },
            frame.bytes@,
            frame.is_extended,
            frame.is_rtr,
        ));
    }
    s
}

/// Relies on `String::into_bytes`: returns exactly the UTF-8 encoding of
/// the string's characters.
#[verifier::external_body]
fn string_into_bytes(s: String) -> (r: Vec<u8>)
    ensures
        r@ == vstd::utf8::encode_utf8(s@),
{
    s.into_bytes()
}

/// Encodes an outbound CAN frame as slcan command bytes for the serial
/// port.  The payload is truncated to 8 bytes, as the wire dlc is.
pub fn encode_slcan_transmit_frame(frame: &crate::frame::CanTransmitFrame) -> (r: Vec<u8>)
    ensures
        r@ == vstd::utf8::encode_utf8(
            spec_slcan_cmd(
                frame.frame_id,
                if frame.data@.len() <= 8 {
                    frame.data@.len() as u8
                } else {
                    8
                },
                (if frame.data@.len() <= 8 {
                    frame.data@
                } else {
                    frame.data@.take(8)
                }),
                frame.is_extended,
                frame.is_rtr && frame.data@.len() == 0,
            ),
        ),
{
    let dlc: usize = if frame.data.len() <= 8 {
        frame.data.len()
    } else {
        8
    };
    let mut bytes: Vec<u8> = Vec::new();
    let mut k: usize = 0;
    while k < dlc
        invariant
            k <= dlc,
            dlc == if frame.data@.len() <= 8 {
                frame.data@.len() as int
            } else {
                8
            },
            dlc <= frame.data@.len(),
            bytes@ =~= frame.data@.take(dlc as int).take(k as int),
        decreases dlc - k,
    {
        bytes.push(frame.data[k]);
        k = k + 1;
        proof {
            assert(bytes@ =~= frame.data@.take(dlc as int).take(k as int));
        }
    }
    proof {
        assert(bytes@ =~= frame.data@.take(dlc as int));
        if frame.data@.len() <= 8 {
            assert(frame.data@.take(dlc as int) =~= frame.data@);
        }
    }
    let f = Frame {
        protocol: Protocol::Can,
        timestamp_us: 0,
        frame_id: frame.frame_id,
        bus: frame.bus,
        dlc: dlc as u8,
        bytes,
        is_extended: frame.is_extended,
        is_fd: false,
        is_rtr: frame.is_rtr && dlc == 0,
        source_address: None,
        incomplete: None,
        direction: None,
    };
    let s = encode_slcan_frame(&f);
    string_into_bytes(s)
}

/// Every hexadecimal digit character parses back to its value.
pub proof fn lemma_hex_digit_round_trip(d: int)
    requires
        0 <= d < 16,
    ensures
        hex_char_val(hex_digit_char(d)) == Some(d as u8),
{
}

/// The fixed-width rendering has the width it was asked for.
pub proof fn lemma_hex_fixed_len(v: int, w: nat)
    ensures
        spec_hex_str_fixed(v, w).len() == w,
    decreases w,
{
    if w > 0 {
        lemma_hex_fixed_len(v / 16, (w - 1) as nat);
    }
}

/// Parsing a fixed-width hexadecimal rendering recovers the value.
pub proof fn lemma_hex_id_of_fixed(b: Seq<char>, start: int, v: int, w: nat)
    requires
        0 <= start,
        start + w <= b.len(),
        0 <= v < pow(16, w),
        forall|j: int| 0 <= j < w ==> b[start + j] == spec_hex_str_fixed(v, w)[j],
    ensures
        spec_hex_id(b, start, w as int) == Some(v),
    decreases w,
{
    lemma_hex_fixed_len(v, w);
    if w == 0 {
        vstd::arithmetic::power::lemma_pow0(16);
    } else {
        lemma_hex_fixed_len(v / 16, (w - 1) as nat);
        assert(spec_hex_str_fixed(v, w) == spec_hex_str_fixed(v / 16, (w - 1) as nat) + seq![
            hex_digit_char(v % 16),
        ]);
        assert(b[start + (w - 1)] == spec_hex_str_fixed(v, w)[w - 1]);
        assert(spec_hex_str_fixed(v, w)[w - 1] == hex_digit_char(v % 16));
        vstd::arithmetic::power::lemma_pow1(16);
        vstd::arithmetic::power::lemma_pow_adds(16, 1, (w - 1) as nat);
        assert(pow(16, w) == 16 * pow(16, (w - 1) as nat));
        assert(0 <= v / 16 < pow(16, (w - 1) as nat)) by (nonlinear_arith)
            requires
                0 <= v < 16 * pow(16, (w - 1) as nat),
        ;
        assert forall|j: int| 0 <= j < w - 1 implies #[trigger] b[start + j]
            == spec_hex_str_fixed(v / 16, (w - 1) as nat)[j] by {
            assert(b[start + j] == spec_hex_str_fixed(v, w)[j]);
        }
        lemma_hex_id_of_fixed(b, start, v / 16, (w - 1) as nat);
        lemma_hex_digit_round_trip(v % 16);
        assert(spec_hex_id(b, start, w as int) == Some(16 * (v / 16) + v % 16));
    }
}

/// Parsing the hexadecimal rendering of a payload recovers the payload.
pub proof fn lemma_hex_data_of_chars(b: Seq<char>, start: int, data: Seq<u8>, count: int)
    requires
        0 <= start,
        0 <= count <= data.len(),
        start + 2 * data.len() <= b.len(),
        forall|j: int| 0 <= j < 2 * data.len() ==> b[start + j] == data_hex_chars(data)[j],
    ensures
        spec_hex_data(b, start, count) == Some(data.take(count)),
    decreases count,
{
    if count == 0 {
        assert(data.take(0) =~= Seq::<u8>::empty());
    } else {
        lemma_hex_data_of_chars(b, start, data, count - 1);
        let x = data[count - 1];
        assert(b[start + 2 * (count - 1)] == data_hex_chars(data)[2 * (count - 1)]);
        assert(b[start + (2 * (count - 1) + 1)] == data_hex_chars(data)[2 * (count - 1) + 1]);
        assert(data_hex_chars(data)[2 * (count - 1)] == hex_digit_char(x as int / 16));
        assert(data_hex_chars(data)[2 * (count - 1) + 1] == hex_digit_char(x as int % 16));
        lemma_hex_digit_round_trip(x as int / 16);
        lemma_hex_digit_round_trip(x as int % 16);
        assert(16 * (x as int / 16) + x as int % 16 == x as int);
        assert(data.take(count) =~= data.take(count - 1) + seq![x]);
    }
}

/// slcan round trip: parsing the encoded line of any valid standard,
/// extended or remote frame recovers the frame.
pub proof fn lemma_slcan_round_trip(id: u32, dlc: u8, data: Seq<u8>, ext: bool, rtr: bool)
    requires
        dlc <= 8,
        data.len() == if rtr {
            0int
        } else {
            dlc as int
        },
        !ext ==> id <= 0x7FF,
        ext ==> id <= 0x1FFF_FFFF,
    ensures
        slcan_parse(spec_slcan_line(id, dlc, data, ext, rtr)) == Some(
            SlcanRecord { frame_id: id, dlc, data, is_extended: ext, is_rtr: rtr },
        ),
{
    let b = spec_slcan_line(id, dlc, data, ext, rtr);
    let width: nat = if ext {
        8
    } else {
        3
    };
    let wire_id: int = if ext {
        id as int
    } else {
        (id & 0x7FF) as int
    };
    assert(!ext ==> id & 0x7FF == id) by (bit_vector)
        requires
            !ext ==> id <= 0x7FF,
    ;
    lemma_hex_fixed_len(wire_id, width);
    assert(b.len() == 2 + width + if rtr {
        0int
    } else {
        2 * dlc as int
    });
    assert(pow(16, 3) == 0x1000 && pow(16, 8) == 0x1_0000_0000) by {
        reveal_with_fuel(vstd::arithmetic::power::pow, 10);
    }
    assert forall|j: int| 0 <= j < width implies #[trigger] b[1 + j] == spec_hex_str_fixed(
        wire_id,
        width,
    )[j] by {}
    lemma_hex_id_of_fixed(b, 1, wire_id, width);
    assert(hex_char_val(b[1 + width as int]) == Some(dlc)) by {
        lemma_hex_digit_round_trip(dlc as int);
    }
    if !rtr && dlc > 0 {
        assert forall|j: int| 0 <= j < 2 * data.len() implies #[trigger] b[2 + width + j]
            == data_hex_chars(data)[j] by {}
        lemma_hex_data_of_chars(b, 2 + width as int, data, dlc as int);
        assert(data.take(dlc as int) =~= data);
    }
}

/// The slcan bitrate command for a supported CAN bitrate.
pub open spec fn spec_bitrate_cmd(bitrate: u32) -> Option<Seq<char>> {
    if bitrate == 10_000 {
        Some("S0"@)
    } else if bitrate == 20_000 {
        Some("S1"@)
    } else if bitrate == 50_000 {
        Some("S2"@)
    } else if bitrate == 100_000 {
        Some("S3"@)
    } else if bitrate == 125_000 {
        Some("S4"@)
    } else if bitrate == 250_000 {
        Some("S5"@)
    } else if bitrate == 500_000 {
        Some("S6"@)
    } else if bitrate == 750_000 {
        Some("S7"@)
    } else if bitrate == 1_000_000 {
        Some("S8"@)
    } else {
        None
    }
}

/// Looks up the slcan `S0`..`S8` command for a bitrate; any bitrate not in
/// the table is a configuration error.
pub fn find_bitrate_command(bitrate: u32) -> (r: Result<&'static str, String>)
    ensures
        match r {
            Ok(cmd) => spec_bitrate_cmd(bitrate) == Some(cmd@),
            Err(_) => spec_bitrate_cmd(bitrate) is None,
        },
{
    if bitrate == 10_000 {
        Ok("S0")
    } else if bitrate == 20_000 {
        Ok("S1")
    } else if bitrate == 50_000 {
        Ok("S2")
    } else if bitrate == 100_000 {
        Ok("S3")
    } else if bitrate == 125_000 {
        Ok("S4")
    } else if bitrate == 250_000 {
        Ok("S5")
    } else if bitrate == 500_000 {
        Ok("S6")
    } else if bitrate == 750_000 {
        Ok("S7")
    } else if bitrate == 1_000_000 {
        Ok("S8")
    } else {
        proof {
            reveal_strlit("invalid CAN bitrate ");
        }
        let mut m = String::from_str("invalid CAN bitrate ");
        append_u64(&mut m, bitrate as u64);
        Err(m)
    }
}

/// Whether a character is a decimal digit.
pub open spec fn is_dec_char(c: char) -> bool {
    match hex_char_val(c) {
        Some(d) => d < 10,
        None => false,
    }
}

/// Formats a probed firmware version: a plain four-digit reply `abcd`
/// becomes `a.b.cd`; anything else is passed through unchanged.
pub fn format_version(s: &str) -> (r: String)
    ensures
        r@ == if s@.len() == 4 && is_dec_char(s@[0]) && is_dec_char(s@[1]) && is_dec_char(s@[2])
            && is_dec_char(s@[3]) {
            seq![s@[0], '.', s@[1], '.', s@[2], s@[3]]
        } else {
            s@
        },
{
    proof {
        reveal_strlit(".");
    }
    let n = s.unicode_len();
    if n != 4 {
        return s.to_owned();
    }
    let c0 = s.get_char(0);
    let c1 = s.get_char(1);
    let c2 = s.get_char(2);
    let c3 = s.get_char(3);
    let d0 = hex_char_digit(c0);
    let d1 = hex_char_digit(c1);
    let d2 = hex_char_digit(c2);
    let d3 = hex_char_digit(c3);
    match (d0, d1, d2, d3) {
        (Some(v0), Some(v1), Some(v2), Some(v3)) => {
            if v0 < 10 && v1 < 10 && v2 < 10 && v3 < 10 {
                let mut out = String::new();
                crate::strutil::append_dec_digit(&mut out, v0);
                out.append(".");
                crate::strutil::append_dec_digit(&mut out, v1);
                out.append(".");
                crate::strutil::append_dec_digit(&mut out, v2);
                crate::strutil::append_dec_digit(&mut out, v3);
                proof {
                    assert(dec_digit_char(v0 as int) == c0 && dec_digit_char(v1 as int) == c1
                        && dec_digit_char(v2 as int) == c2 && dec_digit_char(v3 as int) == c3);
                    assert(out@ =~= seq![s@[0], '.', s@[1], '.', s@[2], s@[3]]);
                }
                out
            } else {
                s.to_owned()
            }
        },
        _ => s.to_owned(),
    }
}

/// The capability record of an slcan device; transmit is available only
/// outside silent mode.
pub fn slcan_capabilities(silent_mode: bool) -> (r: IOCapabilities)
    ensures
        !r.can_pause,
        !r.supports_time_range,
        r.is_realtime,
        !r.supports_speed_control,
        !r.supports_seek,
        r.can_transmit == !silent_mode,
        !r.can_transmit_serial,
        !r.supports_canfd,
        r.supports_extended_id,
        r.supports_rtr,
        r.available_buses@ =~= seq![0u8],
{
    let mut buses: Vec<u8> = Vec::new();
    buses.push(0);
    proof {
        assert(buses@ =~= seq![0u8]);
    }
    IOCapabilities {
        can_pause: false,
        supports_time_range: false,
        is_realtime: true,
        supports_speed_control: false,
        supports_seek: false,
        can_transmit: !silent_mode,
        can_transmit_serial: false,
        supports_canfd: false,
        supports_extended_id: true,
        supports_rtr: true,
        available_buses: buses,
    }
}

} // verus!
