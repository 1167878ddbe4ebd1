//! Handling of events posted to the data server: which tokens are accepted, how
//! an event body is read, and the names under which devices and events are
//! stored.
use vstd::prelude::*;

verus! {

/// The string field `key` of the JSON object in `body`, when `body` is a JSON
/// document with such a field.
pub uninterp spec fn json_str_field(body: Seq<u8>, key: Seq<char>) -> Option<Seq<char>>;

/// `serde_json::from_slice` into a `serde_json::Value`, then `Value::get` and
/// `Value::as_str`: the string field `key` of the JSON object in `body`; nothing
/// when `body` is not JSON or the field is missing or not a string.
#[verifier::external_body]
fn json_field_str(body: &[u8], key: &str) -> (r: Option<String>)
    ensures
        match r {
            Some(s) => json_str_field(body@, key@) == Some(s@),
            None => json_str_field(body@, key@) is None,
        },
{
    match serde_json::from_slice::<serde_json::Value>(body) {
        Ok(v) => v.get(key).and_then(serde_json::Value::as_str).map(String::from),
        Err(_) => None,
    }
}

/// The device name with percent-encoded bytes decoded (invalid UTF-8 replaced).
pub uninterp spec fn percent_decoded(s: Seq<char>) -> Seq<char>;

/// `percent_encoding::percent_decode_str` and `PercentDecode::decode_utf8_lossy`:
/// decodes `%XX` sequences; a string without `%` comes back unchanged.
#[verifier::external_body]
fn percent_decode(s: &str) -> (r: String)
    ensures
        r@ == percent_decoded(s@),
        !s@.contains('%') ==> r@ == s@,
{
    percent_encoding::percent_decode_str(s).decode_utf8_lossy().to_string()
}

/// Characters that never occur in a sanitized file name: path separators and
/// other characters reserved by file systems, and control characters.
pub open spec fn illegal_in_file_name(c: char) -> bool {
    c == '/' || c == '?' || c == '<' || c == '>' || c == '\\' || c == ':' || c == '*' || c == '|'
        || c == '"' || (c as u32) <= 0x1f || (0x80 <= (c as u32) && (c as u32) <= 0x9f)
}

/// `name` without the characters of `illegal_in_file_name`.
pub open spec fn without_illegal(name: Seq<char>) -> Seq<char> {
    name.filter(|c: char| !illegal_in_file_name(c))
}

/// Whether `c` is the lower-case ASCII letter `lower`, in either case.
pub open spec fn ascii_ci(c: char, lower: char) -> bool {
    c == lower || (c as u32) + 32 == (lower as u32)
}

/// Whether the name begins (in any case) like one of the names that Windows
/// reserves: `con`, `prn`, `aux`, `nul`, `com<digit>`, `lpt<digit>`.
pub open spec fn maybe_windows_reserved(name: Seq<char>) -> bool {
    name.len() >= 3 && {
        ||| ascii_ci(name[0], 'c') && ascii_ci(name[1], 'o') && ascii_ci(name[2], 'n')
        ||| ascii_ci(name[0], 'p') && ascii_ci(name[1], 'r') && ascii_ci(name[2], 'n')
        ||| ascii_ci(name[0], 'a') && ascii_ci(name[1], 'u') && ascii_ci(name[2], 'x')
        ||| ascii_ci(name[0], 'n') && ascii_ci(name[1], 'u') && ascii_ci(name[2], 'l')
        ||| ascii_ci(name[0], 'c') && ascii_ci(name[1], 'o') && ascii_ci(name[2], 'm')
        ||| ascii_ci(name[0], 'l') && ascii_ci(name[1], 'p') && ascii_ci(name[2], 't')
    }
}

/// A name that sanitizing leaves as it is, on every platform: at most 255
/// ASCII characters, not ending in a dot or a space (so not made of dots
/// only), and not beginning like a name that Windows reserves.
pub open spec fn kept_as_is(name: Seq<char>) -> bool {
    &&& name.len() <= 255
    &&& forall|i: int| 0 <= i < name.len() ==> (#[trigger] name[i] as u32) < 0x80
    &&& name.len() > 0 ==> name.last() != '.' && name.last() != ' '
    &&& !maybe_windows_reserved(name)
}

/// `sanitize_filename::sanitize` (default options): deletes the characters of
/// `illegal_in_file_name`, replaces a name of dots only by the empty name, on
/// Windows also deletes reserved names and trailing dots and spaces, and
/// truncates to 255 bytes. So the result holds none of those characters, has
/// at most 255 characters, and is the name without them whenever that is a
/// name the remaining steps leave alone. What the remaining steps do to other
/// names depends on the platform and is not stated.
#[verifier::external_body]
fn sanitize(name: &str) -> (r: String)
    ensures
        forall|i: int| 0 <= i < r@.len() ==> !illegal_in_file_name(#[trigger] r@[i]),
        r@.len() <= 255,
        kept_as_is(without_illegal(name@)) ==> r@ == without_illegal(name@),
{
    sanitize_filename::sanitize(name)
}

/// The device name of a buoy as given in a request, percent-decoded.
pub fn device_name(dev: &str) -> (r: String)
    ensures
        r@ == percent_decoded(dev@),
        !dev@.contains('%') ==> r@ == dev@,
{
    percent_decode(dev)
}

/// Whether `token` is one of the accepted tokens.
pub fn token_accepted(tokens: &Vec<String>, token: &String) -> (r: bool)
    ensures
        r == tokens@.map_values(|t: String| t@).contains(token@),
{
    let ghost views = tokens@.map_values(|t: String| t@);
    let mut i: usize = 0;
    while i < tokens.len()
        invariant
            i <= tokens.len(),
            views == tokens@.map_values(|t: String| t@),
            forall|j: int| 0 <= j < i ==> views[j] != token@,
        decreases tokens.len() - i,
    {
        if tokens[i] == *token {
            assert(views[i as int] == token@);
            return true;
        }
        i = i + 1;
    }
    proof {
        assert forall|j: int| 0 <= j < views.len() implies views[j] != token@ by {}
    }
    false
}

/// The fields of a posted event that the server uses.
#[derive(Debug, Clone, PartialEq, Eq)]
pub struct Event {
    pub event: String,
    pub device: String,
    pub file: Option<String>,
}

/// Why a posted event could not be read.
#[derive(Debug, Clone, Copy, PartialEq, Eq, Structural)]
pub enum EventError {
    /// No `event` field (or the body is not JSON).
    NoEvent,
    /// No `device` field.
    NoDevice,
}

/// Read the `event`, `device` and (optional) `file` fields of a posted event.
pub fn parse_data(body: &[u8]) -> (r: Result<Event, EventError>)
    ensures
        match r {
            Ok(e) => json_str_field(body@, seq!['e', 'v', 'e', 'n', 't']) == Some(e.event@)
                && json_str_field(body@, seq!['d', 'e', 'v', 'i', 'c', 'e']) == Some(e.device@)
                && match e.file {
                    Some(f) => json_str_field(body@, seq!['f', 'i', 'l', 'e']) == Some(f@),
                    None => json_str_field(body@, seq!['f', 'i', 'l', 'e']) is None,
                },
            Err(EventError::NoEvent) => json_str_field(body@, seq!['e', 'v', 'e', 'n', 't']) is None,
            Err(EventError::NoDevice) => json_str_field(body@, seq!['e', 'v', 'e', 'n', 't']) is Some
                && json_str_field(body@, seq!['d', 'e', 'v', 'i', 'c', 'e']) is None,
        },
{
    proof {
        reveal_strlit("event");
        reveal_strlit("device");
        reveal_strlit("file");
        assert("event"@ =~= seq!['e', 'v', 'e', 'n', 't']);
        assert("device"@ =~= seq!['d', 'e', 'v', 'i', 'c', 'e']);
        assert("file"@ =~= seq!['f', 'i', 'l', 'e']);
    }
    let event = match json_field_str(body, "event") {
        Some(e) => e,
        None => return Err(EventError::NoEvent),
    };
    let device = match json_field_str(body, "device") {
        Some(d) => d,
        None => return Err(EventError::NoDevice),
    };
    let file = json_field_str(body, "file");
    Ok(Event { event, device, file })
}

/// The name of the file an event is stored under, before sanitizing:
/// `"{event}_{file}.json"`, with `__unnamed__` for a missing file.
pub open spec fn spec_event_file_name(event: Seq<char>, file: Option<Seq<char>>) -> Seq<char> {
    event + seq!['_'] + (if file is Some {
        file->0
    } else {
        seq!['_', '_', 'u', 'n', 'n', 'a', 'm', 'e', 'd', '_', '_']
    }) + seq!['.', 'j', 's', 'o', 'n']
}

/// The file name an event is stored under: `"{event}_{file}.json"` (with
/// `__unnamed__` for a missing file), sanitized: the illegal characters are
/// deleted, and the name is otherwise kept when `kept_as_is` holds of it.
pub fn event_file_name(event: &Event) -> (r: String)
    ensures
        ({
            let raw = spec_event_file_name(event.event@, match event.file {
                Some(f) => Some(f@),
                None => None,
            });
            &&& forall|i: int| 0 <= i < r@.len() ==> !illegal_in_file_name(#[trigger] r@[i])
            &&& r@.len() <= 255
            &&& kept_as_is(without_illegal(raw)) ==> r@ == without_illegal(raw)
        }),
{
    let name = raw_event_file_name(event);
    sanitize(name.as_str())
}

/// The file name an event is stored under, before sanitizing.
pub fn raw_event_file_name(event: &Event) -> (r: String)
    ensures
        r@ == spec_event_file_name(event.event@, match event.file {
            Some(f) => Some(f@),
            None => None,
        }),
{
    proof {
        reveal_strlit("_");
        reveal_strlit("__unnamed__");
        reveal_strlit(".json");
        assert("__unnamed__"@ =~= seq!['_', '_', 'u', 'n', 'n', 'a', 'm', 'e', 'd', '_', '_']);
        assert(".json"@ =~= seq!['.', 'j', 's', 'o', 'n']);
    }
    let mut name = String::from_str(event.event.as_str());
    name.append("_");
    match &event.file {
        Some(f) => name.append(f.as_str()),
        None => name.append("__unnamed__"),
    }
    name.append(".json");
    name
}

/// The directory name of a device: its name, sanitized (the illegal
/// characters deleted, and the name otherwise kept when `kept_as_is` holds of
/// it).
pub fn device_dir(device: &str) -> (r: String)
    ensures
        forall|i: int| 0 <= i < r@.len() ==> !illegal_in_file_name(#[trigger] r@[i]),
        r@.len() <= 255,
        kept_as_is(without_illegal(device@)) ==> r@ == without_illegal(device@),
{
    sanitize(device)
}

} // verus!
