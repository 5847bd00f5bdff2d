//! Profile records as the core consumes them from settings storage: a
//! heterogeneous connection map of plain values, and its parsing into
//! per-device source configurations.

use vstd::prelude::*;

use crate::framer::{FrameIdConfig, FramingEncoding};
use crate::strutil::str_eq;
use vstd::string::StringExecFns;

verus! {

/// A plain value of a profile's connection map.
#[derive(Clone, Debug)]
pub enum ConnValue {
    /// A string value.
    Text(String),
    /// An integer value.
    Int(i64),
    /// A boolean value.
    Flag(bool),
    /// An array of integers (used for delimiter bytes).
    Ints(Vec<i64>),
}

/// A profile: an external configuration record describing how to open a
/// device.  The core reads it; it does not write it.
#[derive(Clone, Debug)]
pub struct Profile {
    /// Stable profile identifier.
    pub id: String,
    /// Profile kind (`gvret_tcp`, `slcan`, `serial`, ...).
    pub kind: String,
    /// Human-readable name.
    pub name: String,
    /// Connection parameters.
    pub connection: Vec<(String, ConnValue)>,
}

/// The value stored under `key`, newest entry first.
pub open spec fn conn_lookup(conn: Seq<(String, ConnValue)>, key: Seq<char>) -> Option<ConnValue>
    decreases conn.len(),
{
    if conn.len() == 0 {
        None
    } else if conn.last().0@ == key {
        Some(conn.last().1)
    } else {
        conn_lookup(conn.drop_last(), key)
    }
}

/// The string under `key`, if the key holds a string.
pub open spec fn conn_str(conn: Seq<(String, ConnValue)>, key: Seq<char>) -> Option<Seq<char>> {
    match conn_lookup(conn, key) {
        Some(ConnValue::Text(s)) => Some(s@),
        _ => None,
    }
}

/// The integer under `key`, if the key holds an integer.
pub open spec fn conn_int(conn: Seq<(String, ConnValue)>, key: Seq<char>) -> Option<i64> {
    match conn_lookup(conn, key) {
        Some(ConnValue::Int(n)) => Some(n),
        _ => None,
    }
}

/// The boolean under `key`, if the key holds a boolean.
pub open spec fn conn_flag(conn: Seq<(String, ConnValue)>, key: Seq<char>) -> Option<bool> {
    match conn_lookup(conn, key) {
        Some(ConnValue::Flag(b)) => Some(b),
        _ => None,
    }
}

impl Profile {
    /// Looks a key up in the connection map, newest entry first.
    pub fn get(&self, key: &str) -> (r: Option<&ConnValue>)
        ensures
            match (r, conn_lookup(self.connection@, key@)) {
                (Some(a), Some(b)) => *a == b,
                (None, None) => true,
                _ => false,
            },
    {
        let n = self.connection.len();
        let mut i: usize = n;
        proof {
            assert(self.connection@.take(n as int) =~= self.connection@);
        }
        while i > 0
            invariant
                i <= n == self.connection@.len(),
                conn_lookup(self.connection@, key@) == conn_lookup(
                    self.connection@.take(i as int),
                    key@,
                ),
            decreases i,
        {
            proof {
                assert(self.connection@.take(i as int).last() == self.connection@[i - 1]);
                assert(self.connection@.take(i as int).drop_last() =~= self.connection@.take(
                    i - 1,
                ));
            }
            if str_eq(self.connection[i - 1].0.as_str(), key) {
                return Some(&self.connection[i - 1].1);
            }
            i = i - 1;
        }
        proof {
            assert(self.connection@.take(0) =~= Seq::<(String, ConnValue)>::empty());
        }
        None
    }

    /// The string under `key`, if it holds one.
    pub fn get_str(&self, key: &str) -> (r: Option<&String>)
        ensures
            match (r, conn_str(self.connection@, key@)) {
                (Some(a), Some(b)) => a@ == b,
                (None, None) => true,
                _ => false,
            },
    {
        match self.get(key) {
            Some(ConnValue::Text(s)) => Some(s),
            _ => None,
        }
    }

    /// The integer under `key`, or the default.
    pub fn get_int_or(&self, key: &str, default: i64) -> (r: i64)
        ensures
            r == match conn_int(self.connection@, key@) {
                Some(n) => n,
                None => default,
            },
    {
        match self.get(key) {
            Some(ConnValue::Int(n)) => *n,
            _ => default,
        }
    }

    /// The boolean under `key`, or the default.
    pub fn get_flag_or(&self, key: &str, default: bool) -> (r: bool)
        ensures
            r == match conn_flag(self.connection@, key@) {
                Some(b) => b,
                None => default,
            },
    {
        match self.get(key) {
            Some(ConnValue::Flag(b)) => *b,
            _ => default,
        }
    }
}

/// The profile with this id, oldest first.
pub open spec fn spec_find_profile(profiles: Seq<Profile>, id: Seq<char>) -> Option<int>
    decreases profiles.len(),
{
    if profiles.len() == 0 {
        None
    } else if profiles[0].id@ == id {
        Some(0int)
    } else {
        match spec_find_profile(profiles.skip(1), id) {
            Some(i) => Some(i + 1),
            None => None,
        }
    }
}

/// Finds the profile with this id (the first match wins).
pub fn find_profile<'a>(profiles: &'a Vec<Profile>, profile_id: &str) -> (r: Option<&'a Profile>)
    ensures
        match (r, spec_find_profile(profiles@, profile_id@)) {
            (Some(p), Some(i)) => 0 <= i < profiles@.len() && *p == profiles@[i],
            (None, None) => true,
            _ => false,
        },
{
    let n = profiles.len();
    let mut i: usize = 0;
    proof {
        assert(profiles@.skip(0) =~= profiles@);
    }
    while i < n
        invariant
            i <= n == profiles@.len(),
            match spec_find_profile(profiles@, profile_id@) {
                Some(j) => spec_find_profile(profiles@.skip(i as int), profile_id@) == Some(
                    j - i,
                ),
                None => spec_find_profile(profiles@.skip(i as int), profile_id@) is None,
            },
        decreases n - i,
    {
        proof {
            assert(profiles@.skip(i as int)[0] == profiles@[i as int]);
            assert(profiles@.skip(i as int).skip(1) =~= profiles@.skip(i as int + 1));
        }
        if str_eq(profiles[i].id.as_str(), profile_id) {
            return Some(&profiles[i]);
        }
        i = i + 1;
    }
    None
}

/// Parity setting of a serial port.
#[derive(Clone, Copy, Debug, PartialEq, Eq, Structural)]
pub enum Parity {
    /// No parity bit.
    Disabled,
    /// Odd parity.
    Odd,
    /// Even parity.
    Even,
}

impl Default for Parity {
    /// Serial ports default to no parity.
    fn default() -> (r: Parity)
        ensures
            r == Parity::Disabled,
    {
        Parity::Disabled
    }
}

/// Maps a parity name to the setting: `odd` and `even` select a parity,
/// anything else selects none.
pub fn parity_from_str(s: &str) -> (r: Parity)
    ensures
        r == (if s@ == "odd"@ {
            Parity::Odd
        } else if s@ == "even"@ {
            Parity::Even
        } else {
            Parity::Disabled
        }),
{
    if str_eq(s, "odd") {
        Parity::Odd
    } else if str_eq(s, "even") {
        Parity::Even
    } else {
        Parity::Disabled
    }
}

/// Configuration of a serial source in multi-source capture, parsed from a
/// profile with session-level overrides applied.
#[derive(Debug)]
pub struct SerialSourceConfig {
    /// Serial port path.
    pub port: String,
    /// Baud rate.
    pub baud_rate: u32,
    /// Data bits (5..=8).
    pub data_bits: u8,
    /// Stop bits (1 or 2).
    pub stop_bits: u8,
    /// Parity setting.
    pub parity: Parity,
    /// How the byte stream is framed.
    pub framing_encoding: FramingEncoding,
    /// Frame identifier extraction, if configured.
    pub frame_id_config: Option<FrameIdConfig>,
    /// Source address extraction, if configured.
    pub source_address_config: Option<FrameIdConfig>,
    /// Frames shorter than this are discarded.
    pub min_frame_length: usize,
    /// Whether raw bytes are emitted besides frames.
    pub emit_raw_bytes: bool,
}

/// The framing-mode name a session selects: the session override wins,
/// then the profile's `framing_encoding`, then `raw`.
pub open spec fn spec_framing_mode(
    conn: Seq<(String, ConnValue)>,
    framing_encoding_override: Option<&str>,
) -> Seq<char> {
    match framing_encoding_override {
        Some(m) => m@,
        None => match conn_str(conn, "framing_encoding"@) {
            Some(m) => m,
            None => "raw"@,
        },
    }
}

/// The parity a parity name selects: `odd` and `even` name a parity,
/// anything else none.
pub open spec fn spec_parity_of(s: Seq<char>) -> Parity {
    if s == "odd"@ {
        Parity::Odd
    } else if s == "even"@ {
        Parity::Even
    } else {
        Parity::Disabled
    }
}

/// The delimiter bytes of a profile's integer array: the elements within
/// a byte's range, in order.
pub open spec fn spec_delim_bytes(arr: Seq<i64>) -> Seq<u8>
    decreases arr.len(),
{
    if arr.len() == 0 {
        Seq::empty()
    } else {
        let rest = spec_delim_bytes(arr.skip(1));
        if 0 <= arr[0] <= 255 {
            seq![arr[0] as u8] + rest
        } else {
            rest
        }
    }
}

/// The extraction window a profile configures under a key prefix, present
/// exactly when the start-byte key is present: the start byte clamped to
/// `i32`, a width of 2 only when asked for, and big-endian by default.
pub open spec fn spec_extract_cfg(
    conn: Seq<(String, ConnValue)>,
    present: bool,
    start: Option<i64>,
    nbytes: Option<i64>,
    big: Option<bool>,
) -> Option<FrameIdConfig> {
    if present {
        Some(
            FrameIdConfig {
                start_byte: (match start {
                    Some(n) => if i32::MIN <= n <= i32::MAX {
                        n as i32
                    } else {
                        0
                    },
                    None => 0,
                }),
                num_bytes: (if nbytes == Some(2i64) {
                    2
                } else {
                    1
                }),
                big_endian: (match big {
                    Some(b) => b,
                    None => true,
                }),
            },
        )
    } else {
        None
    }
}

/// Parses a profile into a serial source configuration, applying the
/// session-level overrides; a profile without a `port` yields nothing.
/// Defaults: 115200 baud, 8 data bits, 1 stop bit, no parity, raw framing
/// (which implies raw-byte emission), newline delimiter, 1024-byte forced
/// split, and no minimum length.
pub fn parse_profile_for_source(
    profile: &Profile,
    framing_encoding_override: Option<&str>,
    delimiter_override: Option<Vec<u8>>,
    max_frame_length_override: Option<usize>,
    min_frame_length_override: Option<usize>,
    emit_raw_bytes_override: Option<bool>,
) -> (r: Option<SerialSourceConfig>)
    ensures
        r is Some <==> conn_str(profile.connection@, "port"@) is Some,
        r matches Some(cfg) ==> {
            let conn = profile.connection@;
            &&& Some(cfg.port@) == conn_str(conn, "port"@)
            &&& cfg.baud_rate as int == match conn_int(conn, "baud_rate"@) {
                Some(n) => if 0 <= n <= u32::MAX as int {
                    n as int
                } else {
                    115200int
                },
                None => 115200int,
            }
            &&& cfg.data_bits as int == match conn_int(conn, "data_bits"@) {
                Some(n) => if 5 <= n <= 8 {
                    n as int
                } else {
                    8int
                },
                None => 8int,
            }
            &&& cfg.stop_bits as int == match conn_int(conn, "stop_bits"@) {
                Some(n) => if n == 2 {
                    2int
                } else {
                    1int
                },
                None => 1int,
            }
            &&& cfg.min_frame_length as int == match min_frame_length_override {
                Some(n) => n as int,
                None => match conn_int(conn, "min_frame_length"@) {
                    Some(n) => if 0 <= n <= usize::MAX as int {
                        n as int
                    } else {
                        0int
                    },
                    None => 0int,
                },
            }
            &&& cfg.parity == (match conn_str(conn, "parity"@) {
                Some(p) => spec_parity_of(p),
                None => Parity::Disabled,
            })
            &&& ({
                let mode = spec_framing_mode(conn, framing_encoding_override);
                &&& (mode == "slip"@ ==> cfg.framing_encoding is Slip)
                &&& (mode == "modbus_rtu"@ ==> (cfg.framing_encoding matches
                    FramingEncoding::ModbusRtu { device_address, validate_crc } && device_address
                    == (match conn_int(conn, "modbus_device_address"@) {
                    Some(n) => if 0 <= n <= 255 {
                        Some(n as u8)
                    } else {
                        None::<u8>
                    },
                    None => None::<u8>,
                }) && validate_crc == (match conn_flag(conn, "modbus_validate_crc"@) {
                    Some(b) => b,
                    None => true,
                })))
                &&& (mode == "delimiter"@ ==> (cfg.framing_encoding matches
                    FramingEncoding::Delimiter { delimiter, max_length, include_delimiter } && (
                delimiter@ == (match delimiter_override {
                    Some(d) => d@,
                    None => match conn_lookup(conn, "delimiter"@) {
                        Some(ConnValue::Ints(arr)) => spec_delim_bytes(arr@),
                        _ => seq![0x0Au8],
                    },
                })) && (max_length as int == (match max_frame_length_override {
                    Some(n) => n as int,
                    None => match conn_int(conn, "max_frame_length"@) {
                        Some(n) => if 0 <= n <= usize::MAX as int {
                            n as int
                        } else {
                            1024int
                        },
                        None => 1024int,
                    },
                })) && include_delimiter == (match conn_flag(conn, "include_delimiter"@) {
                    Some(b) => b,
                    None => false,
                })))
                &&& (mode != "slip"@ && mode != "modbus_rtu"@ && mode != "delimiter"@
                    ==> cfg.framing_encoding is Raw)
                &&& cfg.emit_raw_bytes == (if mode != "slip"@ && mode != "modbus_rtu"@ && mode
                    != "delimiter"@ {
                    true
                } else {
                    match emit_raw_bytes_override {
                        Some(b) => b,
                        None => false,
                    }
                })
            })
            &&& cfg.frame_id_config == spec_extract_cfg(
                conn,
                conn_lookup(conn, "frame_id_start_byte"@) is Some,
                conn_int(conn, "frame_id_start_byte"@),
                conn_int(conn, "frame_id_bytes"@),
                conn_flag(conn, "frame_id_big_endian"@),
            )
            &&& cfg.source_address_config == spec_extract_cfg(
                conn,
                conn_lookup(conn, "source_address_start_byte"@) is Some,
                conn_int(conn, "source_address_start_byte"@),
                conn_int(conn, "source_address_bytes"@),
                conn_flag(conn, "source_address_big_endian"@),
            )
        },
{
    proof {
        reveal_strlit("slip");
        reveal_strlit("modbus_rtu");
        reveal_strlit("delimiter");
        reveal_strlit("raw");
    }
    let port: String = match self_get_port(profile) {
        Some(p) => p,
        None => {
            return None;
        },
    };
    let baud_i = profile.get_int_or("baud_rate", 115200);
    let baud_rate: u32 = if 0 <= baud_i && baud_i <= u32::MAX as i64 {
        baud_i as u32
    } else {
        115200
    };
    let db = profile.get_int_or("data_bits", 8);
    let data_bits: u8 = if 5 <= db && db <= 8 {
        db as u8
    } else {
        8
    };
    let sb = profile.get_int_or("stop_bits", 1);
    let stop_bits: u8 = if sb == 2 {
        2
    } else {
        1
    };
    let parity: Parity = match profile.get_str("parity") {
        Some(s) => parity_from_str(s.as_str()),
        None => Parity::Disabled,
    };
    // Framing mode: the session override wins over the profile.
    let mode_is_slip: bool;
    let mode_is_modbus: bool;
    let mode_is_delimiter: bool;
    match framing_encoding_override {
        Some(m) => {
            mode_is_slip = str_eq(m, "slip");
            mode_is_modbus = str_eq(m, "modbus_rtu");
            mode_is_delimiter = str_eq(m, "delimiter");
            proof {
                assert(spec_framing_mode(profile.connection@, framing_encoding_override)
                    == m@);
                assert(mode_is_slip == (m@ == "slip"@));
            }
        },
        None => {
            match profile.get_str("framing_encoding") {
                Some(m) => {
                    mode_is_slip = str_eq(m.as_str(), "slip");
                    mode_is_modbus = str_eq(m.as_str(), "modbus_rtu");
                    mode_is_delimiter = str_eq(m.as_str(), "delimiter");
                    proof {
                        assert(spec_framing_mode(profile.connection@, framing_encoding_override)
                            == m@);
                    }
                },
                None => {
                    mode_is_slip = false;
                    mode_is_modbus = false;
                    mode_is_delimiter = false;
                    proof {
                        assert(spec_framing_mode(profile.connection@, framing_encoding_override)
                            == "raw"@);
                    }
                },
            }
        },
    }
    let framing_encoding: FramingEncoding;
    if mode_is_slip {
        framing_encoding = FramingEncoding::Slip;
    } else if mode_is_modbus {
        let da = profile.get_int_or("modbus_device_address", -1);
        let device_address: Option<u8> = if 0 <= da && da <= 255 {
            Some(da as u8)
        } else {
            None
        };
        let validate_crc = profile.get_flag_or("modbus_validate_crc", true);
        framing_encoding = FramingEncoding::ModbusRtu { device_address, validate_crc };
    } else if mode_is_delimiter {
        let delimiter: Vec<u8> = match delimiter_override {
            Some(d) => d,
            None => match profile.get("delimiter") {
                Some(ConnValue::Ints(arr)) => {
                    let mut d: Vec<u8> = Vec::new();
                    let mut k: usize = 0;
                    proof {
                        assert(arr@.skip(0) =~= arr@);
                    }
                    while k < arr.len()
                        invariant
                            k <= arr@.len(),
                            spec_delim_bytes(arr@) =~= d@ + spec_delim_bytes(
                                arr@.skip(k as int),
                            ),
                        decreases arr@.len() - k,
                    {
                        proof {
                            assert(arr@.skip(k as int)[0] == arr@[k as int]);
                            assert(arr@.skip(k as int).skip(1) =~= arr@.skip(k as int + 1));
                        }
                        let v = arr[k];
                        if 0 <= v && v <= 255 {
                            d.push(v as u8);
                        }
                        k = k + 1;
                    }
                    proof {
                        assert(arr@.skip(arr@.len() as int) =~= Seq::<i64>::empty());
                        assert(d@ =~= spec_delim_bytes(arr@));
                    }
                    d
                },
                _ => {
                    let mut d: Vec<u8> = Vec::new();
                    d.push(0x0A);
                    d
                },
            },
        };
        let max_length: usize = match max_frame_length_override {
            Some(n) => n,
            None => {
                let n = profile.get_int_or("max_frame_length", 1024);
                if 0 <= n && (n as u64) <= (usize::MAX as u64) {
                    n as usize
                } else {
                    1024
                }
            },
        };
        let include_delimiter = profile.get_flag_or("include_delimiter", false);
        framing_encoding = FramingEncoding::Delimiter { delimiter, max_length, include_delimiter };
    } else {
        framing_encoding = FramingEncoding::Raw;
    }
    let raw_mode = !mode_is_slip && !mode_is_modbus && !mode_is_delimiter;
    // Frame identifier extraction.
    let frame_id_config: Option<FrameIdConfig> = match profile.get("frame_id_start_byte") {
        Some(_) => {
            let start = profile.get_int_or("frame_id_start_byte", 0);
            let nbytes = profile.get_int_or("frame_id_bytes", 1);
            Some(
                FrameIdConfig {
                    start_byte: if i32::MIN as i64 <= start && start <= i32::MAX as i64 {
                        start as i32
                    } else {
                        0
                    },
                    num_bytes: if nbytes == 2 {
                        2
                    } else {
                        1
                    },
                    big_endian: profile.get_flag_or("frame_id_big_endian", true),
                },
            )
        },
        None => None,
    };
    let source_address_config: Option<FrameIdConfig> = match profile.get(
        "source_address_start_byte",
    ) {
        Some(_) => {
            let start = profile.get_int_or("source_address_start_byte", 0);
            let nbytes = profile.get_int_or("source_address_bytes", 1);
            Some(
                FrameIdConfig {
                    start_byte: if i32::MIN as i64 <= start && start <= i32::MAX as i64 {
                        start as i32
                    } else {
                        0
                    },
                    num_bytes: if nbytes == 2 {
                        2
                    } else {
                        1
                    },
                    big_endian: profile.get_flag_or("source_address_big_endian", true),
                },
            )
        },
        None => None,
    };
    let min_frame_length: usize = match min_frame_length_override {
        Some(n) => n,
        None => {
            let n = profile.get_int_or("min_frame_length", 0);
            if 0 <= n && (n as u64) <= (usize::MAX as u64) {
                n as usize
            } else {
                0
            }
        },
    };
    // Raw framing always emits raw bytes; other modes only on request.
    let emit_raw_bytes: bool = if raw_mode {
        true
    } else {
        match emit_raw_bytes_override {
            Some(b) => b,
            None => false,
        }
    };
    Some(
        SerialSourceConfig {
            port,
            baud_rate,
            data_bits,
            stop_bits,
            parity,
            framing_encoding,
            frame_id_config,
            source_address_config,
            min_frame_length,
            emit_raw_bytes,
        },
    )
}

/// The profile's `port` string, copied out.
fn self_get_port(profile: &Profile) -> (r: Option<String>)
    ensures
        match (r, conn_str(profile.connection@, "port"@)) {
            (Some(a), Some(b)) => a@ == b,
            (None, None) => true,
            _ => false,
        },
{
    proof {
        reveal_strlit("port");
    }
    match profile.get_str("port") {
        Some(s) => Some(crate::buffer_store::duplicate_string(s)),
        None => None,
    }
}

} // verus!
