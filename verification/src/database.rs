//! The pure part of the data server's database: buoy kinds and message types,
//! the keys under which events are listed and looked up, and when a buoy's
//! record has to be written.
use vstd::prelude::*;

use crate::decimal::{dec, dec_signed, push_decimal_signed, lemma_dec_digits, is_digit};

verus! {

/// Kind of buoy.
#[derive(Debug, PartialEq, Eq, Clone, Copy, Structural)]
pub enum BuoyType {
    SFY,
    OMB,
    Unknown,
}

/// Kind of message from an OpenMetBuoy.
#[derive(Debug, PartialEq, Eq, Clone, Copy, Structural)]
pub enum OmbMessageType {
    GPS,
    IMU,
    Unknown,
}

pub open spec fn spec_buoy_type_str(t: BuoyType) -> Seq<char> {
    match t {
        BuoyType::SFY => seq!['s', 'f', 'y'],
        BuoyType::OMB => seq!['o', 'm', 'b'],
        BuoyType::Unknown => seq!['u', 'n', 'k', 'n', 'o', 'w', 'n'],
    }
}

pub open spec fn spec_omb_message_type_str(t: OmbMessageType) -> Seq<char> {
    match t {
        OmbMessageType::GPS => seq!['g', 'p', 's'],
        OmbMessageType::IMU => seq!['i', 'm', 'u'],
        OmbMessageType::Unknown => seq!['u', 'n', 'k', 'n', 'o', 'w', 'n'],
    }
}

/// Whether two strings hold the same characters.
fn str_eq(a: &str, b: &str) -> (r: bool)
    ensures
        r == (a@ == b@),
{
    let sa = String::from_str(a);
    let sb = String::from_str(b);
    sa == sb
}

impl BuoyType {
    /// The name of the kind, as stored in the database.
    pub fn to_str(&self) -> (s: &'static str)
        ensures
            s@ == spec_buoy_type_str(*self),
    {
        proof {
            reveal_strlit("sfy");
            assert("sfy"@ =~= seq!['s', 'f', 'y']);
            reveal_strlit("omb");
            assert("omb"@ =~= seq!['o', 'm', 'b']);
            reveal_strlit("unknown");
        }
        match self {
            BuoyType::SFY => "sfy",
            BuoyType::OMB => "omb",
            BuoyType::Unknown => "unknown",
        }
    }

    /// The kind with the given name; names other than `"sfy"` and `"omb"` are
    /// an unknown kind.
    pub fn from_name(s: &str) -> (t: BuoyType)
        ensures
            t == (if s@ == spec_buoy_type_str(BuoyType::SFY) {
                BuoyType::SFY
            } else if s@ == spec_buoy_type_str(BuoyType::OMB) {
                BuoyType::OMB
            } else {
                BuoyType::Unknown
            }),
    {
        proof {
            reveal_strlit("sfy");
            assert("sfy"@ =~= seq!['s', 'f', 'y']);
            reveal_strlit("omb");
            assert("omb"@ =~= seq!['o', 'm', 'b']);
        }
        if str_eq(s, "sfy") {
            BuoyType::SFY
        } else if str_eq(s, "omb") {
            BuoyType::OMB
        } else {
            BuoyType::Unknown
        }
    }
}

impl OmbMessageType {
    /// The name of the message type, as stored in the database.
    pub fn to_str(&self) -> (s: &'static str)
        ensures
            s@ == spec_omb_message_type_str(*self),
    {
        proof {
            reveal_strlit("gps");
            assert("gps"@ =~= seq!['g', 'p', 's']);
            reveal_strlit("imu");
            assert("imu"@ =~= seq!['i', 'm', 'u']);
            reveal_strlit("unknown");
        }
        match self {
            OmbMessageType::GPS => "gps",
            OmbMessageType::IMU => "imu",
            OmbMessageType::Unknown => "unknown",
        }
    }

    /// The message type with the given name; names other than `"gps"` and
    /// `"imu"` are an unknown type.
    pub fn from_name(s: &str) -> (t: OmbMessageType)
        ensures
            t == (if s@ == spec_omb_message_type_str(OmbMessageType::GPS) {
                OmbMessageType::GPS
            } else if s@ == spec_omb_message_type_str(OmbMessageType::IMU) {
                OmbMessageType::IMU
            } else {
                OmbMessageType::Unknown
            }),
    {
        proof {
            reveal_strlit("gps");
            assert("gps"@ =~= seq!['g', 'p', 's']);
            reveal_strlit("imu");
            assert("imu"@ =~= seq!['i', 'm', 'u']);
        }
        if str_eq(s, "gps") {
            OmbMessageType::GPS
        } else if str_eq(s, "imu") {
            OmbMessageType::IMU
        } else {
            OmbMessageType::Unknown
        }
    }
}

/// Reading a buoy kind back from its stored name gives the same kind, except
/// for the unknown kind, which has no name of its own.
pub proof fn lemma_buoy_type_name_round_trip(t: BuoyType)
    ensures
        t != BuoyType::Unknown ==> (if spec_buoy_type_str(t) == spec_buoy_type_str(BuoyType::SFY) {
            BuoyType::SFY
        } else if spec_buoy_type_str(t) == spec_buoy_type_str(BuoyType::OMB) {
            BuoyType::OMB
        } else {
            BuoyType::Unknown
        }) == t,
{
    assert(spec_buoy_type_str(BuoyType::SFY)[0] != spec_buoy_type_str(BuoyType::OMB)[0]);
}

/// Reading a message type back from its stored name gives the same type,
/// except for the unknown type.
pub proof fn lemma_omb_message_type_name_round_trip(t: OmbMessageType)
    ensures
        t != OmbMessageType::Unknown ==> (if spec_omb_message_type_str(t) == spec_omb_message_type_str(OmbMessageType::GPS) {
            OmbMessageType::GPS
        } else if spec_omb_message_type_str(t) == spec_omb_message_type_str(OmbMessageType::IMU) {
            OmbMessageType::IMU
        } else {
            OmbMessageType::Unknown
        }) == t,
{
    assert(spec_omb_message_type_str(OmbMessageType::GPS)[0] != spec_omb_message_type_str(OmbMessageType::IMU)[0]);
}

/// The storage IDs last reported by a buoy.
#[derive(Debug, Clone, Copy, PartialEq, Eq, Structural)]
pub struct StorageInfo {
    pub current_id: Option<u64>,
    pub sent_id: Option<u64>,
}

/// The unsigned integer field `key` of the object field `outer` of the JSON
/// document `data`: `None` when `data` is not JSON or has no field `outer`,
/// `Some(None)` when that field has no unsigned integer field `key`.
pub uninterp spec fn json_nested_u64_field(data: Seq<u8>, outer: Seq<char>, key: Seq<char>) -> Option<Option<u64>>;

/// `serde_json::from_slice` into a `serde_json::Value`, then `Value::get` of
/// `outer`, and on that `Value::get` of `key` and `Value::as_u64`.
#[verifier::external_body]
fn json_nested_u64(data: &[u8], outer: &str, key: &str) -> (r: Option<Option<u64>>)
    ensures
        r == json_nested_u64_field(data@, outer@, key@),
{
    match serde_json::from_slice::<serde_json::Value>(data) {
        Ok(v) => v.get(outer).map(|b| b.get(key).and_then(serde_json::Value::as_u64)),
        Err(_) => None,
    }
}

/// The storage record of a buoy from its stored `storage.db` event: the
/// `current_id` and `sent_id` of the event's `body`. `None` when the event is
/// not JSON or has no `body`.
pub fn storage_info_from_event(data: &[u8]) -> (r: Option<StorageInfo>)
    ensures
        r == (match (
            json_nested_u64_field(data@, seq!['b', 'o', 'd', 'y'], seq!['c', 'u', 'r', 'r', 'e', 'n', 't', '_', 'i', 'd']),
            json_nested_u64_field(data@, seq!['b', 'o', 'd', 'y'], seq!['s', 'e', 'n', 't', '_', 'i', 'd']),
        ) {
            (Some(current_id), Some(sent_id)) => Some(StorageInfo { current_id, sent_id }),
            _ => None,
        }),
{
    proof {
        reveal_strlit("body");
        reveal_strlit("current_id");
        reveal_strlit("sent_id");
        assert("body"@ =~= seq!['b', 'o', 'd', 'y']);
        assert("current_id"@ =~= seq!['c', 'u', 'r', 'r', 'e', 'n', 't', '_', 'i', 'd']);
        assert("sent_id"@ =~= seq!['s', 'e', 'n', 't', '_', 'i', 'd']);
    }
    let current_id = match json_nested_u64(data, "body", "current_id") {
        Some(c) => c,
        None => return None,
    };
    let sent_id = match json_nested_u64(data, "body", "sent_id") {
        Some(s) => s,
        None => return None,
    };
    Some(StorageInfo { current_id, sent_id })
}

/// Errors when appending an event.
#[derive(Debug, Clone, Copy, PartialEq, Eq, Structural)]
pub enum AppendErrors {
    Database,
}

/// Why a buoy's events cannot be read.
#[derive(Debug, Clone, Copy, PartialEq, Eq, Structural)]
pub enum QueryError {
    /// The buoy is not in the database.
    NoSuchBuoy,
    /// The buoy is of an unknown kind.
    UnknownBuoyType,
    /// Storage information is only kept for SFY buoys.
    OnlySfy,
}

/// The key of an event of an SFY buoy: its time of reception and its name,
/// joined by a dash.
pub open spec fn spec_entry_key(received: int, event: Seq<char>) -> Seq<char> {
    dec_signed(received) + seq!['-'] + event
}

/// The key of an event of an OpenMetBuoy: its time of reception, its name and
/// its message type, joined by dashes.
pub open spec fn spec_omb_entry_key(received: int, event: Seq<char>, message_type: Seq<char>) -> Seq<char> {
    dec_signed(received) + seq!['-'] + event + seq!['-'] + message_type
}

/// The name and message type of an OpenMetBuoy event, joined by a dash.
pub open spec fn spec_omb_event_name(event: Seq<char>, message_type: Seq<char>) -> Seq<char> {
    event + seq!['-'] + message_type
}

/// The key of an event of an SFY buoy (`"{received}-{event}"`).
pub fn entry_key(received: i64, event: &str) -> (k: String)
    ensures
        k@ == spec_entry_key(received as int, event@),
{
    let mut k = String::new();
    push_decimal_signed(&mut k, received);
    proof {
        reveal_strlit("-");
    }
    k.append("-");
    k.append(event);
    k
}

/// The key of an event of an OpenMetBuoy (`"{received}-{event}-{message_type}"`).
pub fn omb_entry_key(received: i64, event: &str, message_type: &str) -> (k: String)
    ensures
        k@ == spec_omb_entry_key(received as int, event@, message_type@),
{
    let mut k = entry_key(received, event);
    proof {
        reveal_strlit("-");
    }
    k.append("-");
    k.append(message_type);
    k
}

/// The name and message type of an OpenMetBuoy event (`"{event}-{message_type}"`).
pub fn omb_event_name(event: &str, message_type: &str) -> (k: String)
    ensures
        k@ == spec_omb_event_name(event@, message_type@),
{
    let mut k = String::from_str(event);
    proof {
        reveal_strlit("-");
    }
    k.append("-");
    k.append(message_type);
    k
}

/// Index of the first `c` in `s` at or after `from`, if any.
pub open spec fn find_char(s: Seq<char>, from: int, c: char) -> Option<int>
    decreases s.len() - from,
{
    if from >= s.len() || from < 0 {
        None
    } else if s[from] == c {
        Some(from)
    } else {
        find_char(s, from + 1, c)
    }
}

/// Split `s` at the first `-` at or after `from`: the part before it and the
/// part after it.
pub open spec fn spec_split_dash(s: Seq<char>, from: int) -> Option<(Seq<char>, Seq<char>)> {
    match find_char(s, from, '-') {
        Some(i) => Some((s.subrange(from, i), s.subrange(i + 1, s.len() as int))),
        None => None,
    }
}

/// Position of the first `-` in `s` at or after `from`.
fn find_dash(s: &str, from: usize) -> (r: Option<usize>)
    requires
        from <= s@.len(),
    ensures
        match r {
            Some(i) => find_char(s@, from as int, '-') == Some(i as int) && from <= i < s@.len(),
            None => find_char(s@, from as int, '-') is None,
        },
    decreases s@.len() - from,
{
    let n = s.unicode_len();
    let mut i = from;
    while i < n
        invariant
            from <= i <= n,
            n == s@.len(),
            find_char(s@, from as int, '-') == find_char(s@, i as int, '-'),
        decreases n - i,
    {
        if s.get_char(i) == '-' {
            return Some(i);
        }
        i = i + 1;
    }
    None
}

/// Split the key of an SFY event at its first dash into the time of reception
/// and the event name. `None` when the key has no dash.
pub fn split_entry_key(key: &str) -> (r: Option<(String, String)>)
    ensures
        match spec_split_dash(key@, 0) {
            Some((a, b)) => r matches Some((x, y)) && x@ == a && y@ == b,
            None => r is None,
        },
{
    let n = key.unicode_len();
    match find_dash(key, 0) {
        Some(i) => {
            let a = String::from_str(key.substring_char(0, i));
            let b = String::from_str(key.substring_char(i + 1, n));
            assert(a@ == key@.subrange(0, i as int));
            assert(b@ == key@.subrange(i + 1, key@.len() as int));
            assert(find_char(key@, 0, '-') == Some(i as int));
            assert(spec_split_dash(key@, 0) == Some((a@, b@)));
            Some((a, b))
        },
        None => None,
    }
}

/// Split the key of an OpenMetBuoy event into the time of reception, the event
/// name and the message type, at its first two dashes (the message type may
/// hold dashes). `None` when the key has fewer than two dashes.
pub fn split_omb_entry_key(key: &str) -> (r: Option<(String, String, String)>)
    ensures
        match spec_split_dash(key@, 0) {
            Some((a, rest)) => match find_char(key@, a.len() as int + 1, '-') {
                Some(j) => r matches Some((x, y, z)) && x@ == a && y@ == key@.subrange(a.len() as int + 1, j)
                    && z@ == key@.subrange(j + 1, key@.len() as int),
                None => r is None,
            },
            None => r is None,
        },
{
    let n = key.unicode_len();
    match find_dash(key, 0) {
        Some(i) => {
            assert(key@.subrange(0, i as int).len() == i);
            match find_dash(key, i + 1) {
                Some(j) => {
                    let a = String::from_str(key.substring_char(0, i));
                    let b = String::from_str(key.substring_char(i + 1, j));
                    let c = String::from_str(key.substring_char(j + 1, n));
                    Some((a, b, c))
                },
                None => None,
            }
        },
        None => None,
    }
}

proof fn lemma_find_char_skip(s: Seq<char>, from: int, to: int, c: char)
    requires
        0 <= from <= to <= s.len(),
        forall|k: int| from <= k < to ==> s[k] != c,
    ensures
        find_char(s, from, c) == find_char(s, to, c),
    decreases to - from,
{
    if from < to {
        lemma_find_char_skip(s, from + 1, to, c);
    }
}

/// An event key of an SFY buoy, received at a non-negative time, splits back
/// into the decimal time of reception and the event name.
pub proof fn lemma_entry_key_round_trip(received: int, event: Seq<char>)
    requires
        received >= 0,
    ensures
        spec_split_dash(spec_entry_key(received, event), 0) == Some((dec(received as nat), event)),
{
    let d = dec(received as nat);
    let k = spec_entry_key(received, event);
    lemma_dec_digits(received as nat);
    assert forall|i: int| 0 <= i < d.len() implies k[i] != '-' by {
        assert(k[i] == d[i]);
        assert(is_digit(d[i]));
    }
    lemma_find_char_skip(k, 0, d.len() as int, '-');
    assert(k[d.len() as int] == '-');
    assert(k.subrange(0, d.len() as int) =~= d);
    assert(k.subrange(d.len() as int + 1, k.len() as int) =~= event);
}

/// An event key of an OpenMetBuoy, received at a non-negative time, with an
/// event name without dashes, splits back into its three parts.
pub proof fn lemma_omb_entry_key_round_trip(received: int, event: Seq<char>, message_type: Seq<char>)
    requires
        received >= 0,
        forall|i: int| 0 <= i < event.len() ==> event[i] != '-',
    ensures
        ({
            let k = spec_omb_entry_key(received, event, message_type);
            let d = dec(received as nat);
            &&& spec_split_dash(k, 0) == Some((d, event + seq!['-'] + message_type))
            &&& find_char(k, d.len() as int + 1, '-') == Some(d.len() as int + 1 + event.len() as int)
            &&& k.subrange(d.len() as int + 1, d.len() as int + 1 + event.len() as int) == event
            &&& k.subrange(d.len() as int + 2 + event.len() as int, k.len() as int) == message_type
        }),
{
    let d = dec(received as nat);
    let k = spec_omb_entry_key(received, event, message_type);
    lemma_dec_digits(received as nat);
    assert forall|i: int| 0 <= i < d.len() implies k[i] != '-' by {
        assert(k[i] == d[i]);
        assert(is_digit(d[i]));
    }
    lemma_find_char_skip(k, 0, d.len() as int, '-');
    assert(k[d.len() as int] == '-');
    assert(k.subrange(0, d.len() as int) =~= d);
    assert(k.subrange(d.len() as int + 1, k.len() as int) =~= event + seq!['-'] + message_type);
    let e0 = d.len() as int + 1;
    assert forall|i: int| e0 <= i < e0 + event.len() as int implies k[i] != '-' by {
        assert(k[i] == event[i - e0]);
    }
    lemma_find_char_skip(k, e0, e0 + event.len() as int, '-');
    assert(k[e0 + event.len() as int] == '-');
    assert(k.subrange(e0, e0 + event.len() as int) =~= event);
    assert(k.subrange(e0 + event.len() as int + 1, k.len() as int) =~= message_type);
}

/// What the server knows of a buoy.
pub struct BuoyRecord {
    /// Device identifier (percent-decoded).
    pub dev: String,
    /// Does the buoy exist in the database already.
    pub known: bool,
    pub name: Option<String>,
    pub buoy_type: BuoyType,
}

impl BuoyRecord {
    /// The record of buoy `dev` given its row in the database (name and kind),
    /// if it has one.
    pub fn from_row(dev: String, row: Option<(Option<String>, String)>) -> (b: BuoyRecord)
        ensures
            b.dev@ == dev@,
            b.known == row is Some,
            match row {
                Some((name, kind)) => b.name == name && b.buoy_type == (if kind@ == spec_buoy_type_str(BuoyType::SFY) {
                    BuoyType::SFY
                } else if kind@ == spec_buoy_type_str(BuoyType::OMB) {
                    BuoyType::OMB
                } else {
                    BuoyType::Unknown
                }),
                None => b.name is None && b.buoy_type == BuoyType::Unknown,
            },
    {
        match row {
            Some((name, kind)) => {
                let t = BuoyType::from_name(kind.as_str());
                BuoyRecord { dev, known: true, name, buoy_type: t }
            },
            None => BuoyRecord { dev, known: false, name: None, buoy_type: BuoyType::Unknown },
        }
    }

    /// Prepare appending an event to an SFY buoy with (parsed) name `name`:
    /// the buoy becomes an SFY buoy, and its row has to be (re)written when it
    /// is not known yet or its name changed. Returns whether to write the row.
    pub fn prepare_append(&mut self, name: &Option<String>) -> (write_row: bool)
        ensures
            final(self).buoy_type == BuoyType::SFY,
            final(self).dev == old(self).dev,
            final(self).name == old(self).name,
            write_row == !final(self).known,
            write_row == (!old(self).known || (name is Some && (old(self).name is None
                || old(self).name->0@ != name->0@))),
    {
        self.buoy_type = BuoyType::SFY;
        if let Some(n) = name {
            let same = match &self.name {
                Some(cur) => *cur == *n,
                None => false,
            };
            if !same {
                self.known = false;
            }
        }
        !self.known
    }

    /// Prepare appending a message of an OpenMetBuoy: the buoy becomes an
    /// OpenMetBuoy, and its row has to be written when it is not known yet.
    pub fn prepare_append_omb(&mut self) -> (write_row: bool)
        ensures
            final(self).buoy_type == BuoyType::OMB,
            final(self).dev == old(self).dev,
            final(self).name == old(self).name,
            final(self).known == old(self).known,
            write_row == !old(self).known,
    {
        self.buoy_type = BuoyType::OMB;
        !self.known
    }

    /// The row was written: the buoy is known now.
    pub fn row_written(&mut self)
        ensures
            final(self).known,
            final(self).dev == old(self).dev,
            final(self).name == old(self).name,
            final(self).buoy_type == old(self).buoy_type,
    {
        self.known = true;
    }

    /// Whether the events of the buoy can be read: it must be known and of a
    /// known kind.
    pub fn readable(&self) -> (r: Result<BuoyType, QueryError>)
        ensures
            r == (if !self.known {
                Err::<BuoyType, QueryError>(QueryError::NoSuchBuoy)
            } else if self.buoy_type == BuoyType::Unknown {
                Err::<BuoyType, QueryError>(QueryError::UnknownBuoyType)
            } else {
                Ok::<BuoyType, QueryError>(self.buoy_type)
            }),
    {
        if !self.known {
            Err(QueryError::NoSuchBuoy)
        } else if self.buoy_type == BuoyType::Unknown {
            Err(QueryError::UnknownBuoyType)
        } else {
            Ok(self.buoy_type)
        }
    }

    /// Whether the storage information of the buoy can be read: it must be a
    /// known SFY buoy.
    pub fn storage_info_readable(&self) -> (r: Result<(), QueryError>)
        ensures
            r == (if !self.known {
                Err::<(), QueryError>(QueryError::NoSuchBuoy)
            } else if self.buoy_type != BuoyType::SFY {
                Err::<(), QueryError>(QueryError::OnlySfy)
            } else {
                Ok::<(), QueryError>(())
            }),
    {
        if !self.known {
            Err(QueryError::NoSuchBuoy)
        } else if self.buoy_type != BuoyType::SFY {
            Err(QueryError::OnlySfy)
        } else {
            Ok(())
        }
    }
}

} // verus!
