//! Types and pure helpers of the analytical query layer: result records,
//! the connection-string builder, and the payload diff that locates the
//! changed byte positions between two frames.

use vstd::prelude::*;

use crate::profile::{conn_str, Profile};
use crate::strutil::{append_u64, spec_dec_str};
use vstd::string::StringExecFns;

verus! {

/// One observed change of a single payload byte.
#[derive(Clone, Copy, Debug, PartialEq, Eq, Structural)]
pub struct ByteChangeResult {
    /// When the change was observed, microseconds since the epoch.
    pub timestamp_us: i64,
    /// The byte's previous value.
    pub old_value: u8,
    /// The byte's new value.
    pub new_value: u8,
}

/// One observed change of a frame payload.
#[derive(Clone, Debug)]
pub struct FrameChangeResult {
    /// When the change was observed, microseconds since the epoch.
    pub timestamp_us: i64,
    /// The previous payload.
    pub old_payload: Vec<u8>,
    /// The new payload.
    pub new_payload: Vec<u8>,
    /// The positions at which the payloads differ.
    pub changed_indices: Vec<usize>,
}

/// Statistics reported with query results.
#[derive(Clone, Copy, Debug, PartialEq, Eq, Structural)]
pub struct QueryStats {
    /// Rows fetched from the database.
    pub rows_scanned: usize,
    /// Results after filtering.
    pub results_count: usize,
    /// Query execution time in milliseconds.
    pub execution_time_ms: u64,
}

/// Byte change results with their statistics.
#[derive(Clone, Debug)]
pub struct ByteChangeQueryResult {
    /// The changes found.
    pub results: Vec<ByteChangeResult>,
    /// Query statistics.
    pub stats: QueryStats,
}

/// Frame change results with their statistics.
#[derive(Clone, Debug)]
pub struct FrameChangeQueryResult {
    /// The changes found.
    pub results: Vec<FrameChangeResult>,
    /// Query statistics.
    pub stats: QueryStats,
}

/// A payload byte for comparison: positions past the end read as zero.
pub open spec fn byte_or_zero(s: Seq<u8>, i: int) -> u8 {
    if 0 <= i < s.len() {
        s[i]
    } else {
        0
    }
}

/// The positions at which two payloads differ, zero-padding the shorter
/// one, in ascending order.
pub fn changed_indices(prev: &Vec<u8>, curr: &Vec<u8>) -> (r: Vec<usize>)
    ensures
        forall|a: int, b: int| 0 <= a < b < r@.len() ==> r@[a] < r@[b],
        forall|k: int|
            0 <= k < r@.len() ==> byte_or_zero(prev@, (#[trigger] r@[k]) as int) != byte_or_zero(
                curr@,
                r@[k] as int,
            ),
        forall|i: int|
            0 <= i < (if prev@.len() >= curr@.len() {
                prev@.len() as int
            } else {
                curr@.len() as int
            }) && byte_or_zero(prev@, i) != byte_or_zero(curr@, i) ==> exists|k: int|
                0 <= k < r@.len() && (#[trigger] r@[k]) as int == i,
{
    let max_len: usize = if prev.len() >= curr.len() {
        prev.len()
    } else {
        curr.len()
    };
    let mut r: Vec<usize> = Vec::new();
    let mut i: usize = 0;
    while i < max_len
        invariant
            i <= max_len,
            max_len as int == if prev@.len() >= curr@.len() {
                prev@.len() as int
            } else {
                curr@.len() as int
            },
            forall|a: int, b: int| 0 <= a < b < r@.len() ==> r@[a] < r@[b],
            forall|k: int| 0 <= k < r@.len() ==> (#[trigger] r@[k]) < i,
            forall|k: int|
                0 <= k < r@.len() ==> byte_or_zero(prev@, (#[trigger] r@[k]) as int)
                    != byte_or_zero(curr@, r@[k] as int),
            forall|j: int|
                0 <= j < i && byte_or_zero(prev@, j) != byte_or_zero(curr@, j) ==> exists|k: int|
                    0 <= k < r@.len() && (#[trigger] r@[k]) as int == j,
        decreases max_len - i,
    {
        let p: u8 = if i < prev.len() {
            prev[i]
        } else {
            0
        };
        let c: u8 = if i < curr.len() {
            curr[i]
        } else {
            0
        };
        if p != c {
            let ghost pre = r@;
            r.push(i);
            proof {
                assert(r@.last() == i);
                assert(r@.drop_last() =~= pre);
            }
        }
        i = i + 1;
    }
    r
}

/// Builds the database connection string from a profile's connection map:
/// `host=… port=… dbname=… user=… sslmode=…`, with the password appended
/// when one was obtained from credential storage.  Defaults: `localhost`,
/// 5432, `candor`, `postgres`, `prefer`.
pub fn build_connection_string(profile: &Profile, password: Option<String>) -> (r: String)
    ensures
        ({
            let conn = profile.connection@;
            let host = match conn_str(conn, "host"@) {
                Some(h) => h,
                None => "localhost"@,
            };
            let port: int = match crate::profile::conn_int(conn, "port"@) {
                Some(p) => if 0 <= p <= u16::MAX as int {
                    p as int
                } else {
                    5432int
                },
                None => 5432int,
            };
            let database = match conn_str(conn, "database"@) {
                Some(d) => d,
                None => "candor"@,
            };
            let username = match conn_str(conn, "username"@) {
                Some(u) => u,
                None => "postgres"@,
            };
            let sslmode = match conn_str(conn, "sslmode"@) {
                Some(m) => m,
                None => "prefer"@,
            };
            r@ == "host="@ + host + " port="@ + spec_dec_str(port as nat) + " dbname="@
                + database + " user="@ + username + " sslmode="@ + sslmode + (match password {
                Some(pw) => " password="@ + pw@,
                None => Seq::<char>::empty(),
            })
        }),
{
    proof {
        reveal_strlit("host=");
        reveal_strlit(" port=");
        reveal_strlit(" dbname=");
        reveal_strlit(" user=");
        reveal_strlit(" sslmode=");
        reveal_strlit(" password=");
        reveal_strlit("localhost");
        reveal_strlit("candor");
        reveal_strlit("postgres");
        reveal_strlit("prefer");
    }
    let mut s = String::from_str("host=");
    match profile.get_str("host") {
        Some(h) => s.append(h.as_str()),
        None => s.append("localhost"),
    }
    s.append(" port=");
    let p = profile.get_int_or("port", 5432);
    let port: u64 = if 0 <= p && p <= u16::MAX as i64 {
        p as u64
    } else {
        5432
    };
    append_u64(&mut s, port);
    s.append(" dbname=");
    match profile.get_str("database") {
        Some(d) => s.append(d.as_str()),
        None => s.append("candor"),
    }
    s.append(" user=");
    match profile.get_str("username") {
        Some(u) => s.append(u.as_str()),
        None => s.append("postgres"),
    }
    s.append(" sslmode=");
    match profile.get_str("sslmode") {
        Some(m) => s.append(m.as_str()),
        None => s.append("prefer"),
    }
    match password {
        Some(pw) => {
            s.append(" password=");
            s.append(pw.as_str());
        },
        None => {},
    }
    s
}

} // verus!
