//! The commands of the control protocol and their decoding from one line of
//! JSON, discriminated by the member `type`.
use vstd::prelude::*;
use vstd::string::StrSliceExecFns;
use crate::json::{Json, find_member, json_of, member, parse_json, same_text};

verus! {

/// What a `SHOW` command carries to the overlay.
#[derive(Debug, Clone, PartialEq, Eq)]
pub struct ShowPayload {
    pub repo_name: String,
    pub style: String,
    pub color_scheme: String,
    /// How long the overlay stays, in milliseconds.
    pub duration: u64,
}

/// What a `CONFIG` command carries. The opacity is kept as the JSON number's
/// text: its range is the sender's business, not checked here.
#[derive(Debug, Clone, PartialEq, Eq)]
pub struct ConfigPayload {
    pub opacity: String,
    pub font_size: String,
}

/// One command of the protocol.
#[allow(inconsistent_fields)]
#[derive(Debug, Clone, PartialEq, Eq)]
pub enum Command {
    Show { payload: ShowPayload },
    Hide,
    Config { payload: ConfigPayload },
    Shutdown,
}

/// Why a line is not a command.
#[derive(Debug, Clone, Copy, PartialEq, Eq, Structural)]
pub enum DecodeError {
    /// The line is not one JSON document.
    NotJson,
    /// The document is not an object.
    NotAnObject,
    /// The object has no member `type` holding a string.
    MissingType,
    /// `type` names no command.
    UnknownType,
    /// `payload` is missing, or one of its members is missing or of the wrong kind.
    BadPayload,
}

pub open spec fn is_digit(c: char) -> bool {
    '0' <= c <= '9'
}

/// The number that a run of decimal digits writes.
pub open spec fn digits_value(s: Seq<char>) -> nat
    decreases s.len(),
{
    if s.len() == 0 {
        0
    } else {
        digits_value(s.drop_last()) * 10 + (s.last() as nat - '0' as nat) as nat
    }
}

/// The unsigned 64-bit integer that a JSON number's text stands for, if it is
/// one: digits only, and within range.
pub open spec fn u64_of_text(s: Seq<char>) -> Option<u64> {
    if s.len() > 0 && (forall|i: int| 0 <= i < s.len() ==> is_digit(#[trigger] s[i]))
        && digits_value(s) <= u64::MAX {
        Some(digits_value(s) as u64)
    } else {
        None
    }
}

pub open spec fn string_member(fields: Seq<(String, Json)>, key: Seq<char>) -> Option<String> {
    match member(fields, key) {
        Some(Json::Str(s)) => Some(s),
        _ => None,
    }
}

pub open spec fn number_member(fields: Seq<(String, Json)>, key: Seq<char>) -> Option<String> {
    match member(fields, key) {
        Some(Json::Number(t)) => Some(t),
        _ => None,
    }
}

pub open spec fn u64_member(fields: Seq<(String, Json)>, key: Seq<char>) -> Option<u64> {
    match number_member(fields, key) {
        Some(t) => u64_of_text(t@),
        None => None,
    }
}

pub open spec fn show_payload_of(p: Json) -> Option<ShowPayload> {
    match p {
        Json::Object(fs) => {
            let f = fs@;
            if string_member(f, "repoName"@) is Some
                && string_member(f, "style"@) is Some
                && string_member(f, "colorScheme"@) is Some
                && u64_member(f, "duration"@) is Some {
                Some(ShowPayload {
                    repo_name: string_member(f, "repoName"@)->0,
                    style: string_member(f, "style"@)->0,
                    color_scheme: string_member(
                        f,
                        "colorScheme"@,
                    )->0,
                    duration: u64_member(f, "duration"@)->0,
                })
            } else {
                None
            }
        },
        _ => None,
    }
}

pub open spec fn config_payload_of(p: Json) -> Option<ConfigPayload> {
    match p {
        Json::Object(fs) => {
            let f = fs@;
            if number_member(f, "opacity"@) is Some
                && string_member(f, "fontSize"@) is Some {
                Some(ConfigPayload {
                    opacity: number_member(f, "opacity"@)->0,
                    font_size: string_member(f, "fontSize"@)->0,
                })
            } else {
                None
            }
        },
        _ => None,
    }
}

/// The command that a JSON document encodes.
pub open spec fn command_of(j: Json) -> Result<Command, DecodeError> {
    match j {
        Json::Object(fs) => {
            let f = fs@;
            let payload = member(f, "payload"@);
            match member(f, "type"@) {
                Some(Json::Str(t)) => {
                    if t@ == "SHOW"@ {
                        match payload {
                            Some(p) => match show_payload_of(p) {
                                Some(sp) => Ok(Command::Show { payload: sp }),
                                None => Err(DecodeError::BadPayload),
                            },
                            None => Err(DecodeError::BadPayload),
                        }
                    } else if t@ == "HIDE"@ {
                        Ok(Command::Hide)
                    } else if t@ == "CONFIG"@ {
                        match payload {
                            Some(p) => match config_payload_of(p) {
                                Some(cp) => Ok(Command::Config { payload: cp }),
                                None => Err(DecodeError::BadPayload),
                            },
                            None => Err(DecodeError::BadPayload),
                        }
                    } else if t@ == "SHUTDOWN"@ {
                        Ok(Command::Shutdown)
                    } else {
                        Err(DecodeError::UnknownType)
                    }
                },
                _ => Err(DecodeError::MissingType),
            }
        },
        _ => Err(DecodeError::NotAnObject),
    }
}

/// The command that one line of input encodes.
pub open spec fn decode_line(line: Seq<char>) -> Result<Command, DecodeError> {
    match json_of(line) {
        Some(j) => command_of(j),
        None => Err(DecodeError::NotJson),
    }
}

/// A longer run of digits never writes a smaller number.
proof fn lemma_digits_prefix(s: Seq<char>, k: int)
    requires
        0 <= k <= s.len(),
    ensures
        digits_value(s.take(k)) <= digits_value(s),
    decreases s.len(),
{
    if k < s.len() {
        assert(s.drop_last().take(k) =~= s.take(k));
        lemma_digits_prefix(s.drop_last(), k);
    } else {
        assert(s.take(k) =~= s);
    }
}

/// Reads the text of a JSON number as an unsigned 64-bit integer.
pub fn u64_from_text(t: &str) -> (r: Option<u64>)
    ensures
        r == u64_of_text(t@),
{
    let n = t.unicode_len();
    if n == 0 {
        return None;
    }
    let mut acc: u64 = 0;
    let mut i: usize = 0;
    while i < n
        invariant
            n == t@.len(),
            i <= n,
            acc as nat == digits_value(t@.take(i as int)),
            forall|j: int| 0 <= j < i ==> is_digit(#[trigger] t@[j]),
        decreases n - i,
    {
        let c = t.get_char(i);
        assert(t@.take(i as int + 1).drop_last() =~= t@.take(i as int));
        if !('0' <= c && c <= '9') {
            assert(!is_digit(t@[i as int]));
            return None;
        }
        let d = (c as u32 - '0' as u32) as u64;
        let next = match acc.checked_mul(10) {
            Some(m) => m.checked_add(d),
            None => None,
        };
        match next {
            Some(v) => {
                acc = v;
            },
            None => {
                proof {
                    lemma_digits_prefix(t@, i as int + 1);
                }
                return None;
            },
        }
        i = i + 1;
    }
    assert(t@.take(n as int) =~= t@);
    Some(acc)
}

/// A copy of the string held by the member `key`, if it holds a string.
pub fn string_from(fields: &Vec<(String, Json)>, key: &str) -> (r: Option<String>)
    ensures
        r == string_member(fields@, key@),
{
    match find_member(fields, key) {
        Some(Json::Str(s)) => Some(s.clone()),
        _ => None,
    }
}

/// A copy of the number text held by the member `key`, if it holds a number.
pub fn number_from(fields: &Vec<(String, Json)>, key: &str) -> (r: Option<String>)
    ensures
        r == number_member(fields@, key@),
{
    match find_member(fields, key) {
        Some(Json::Number(t)) => Some(t.clone()),
        _ => None,
    }
}

/// The unsigned integer held by the member `key`, if it holds one.
pub fn u64_from(fields: &Vec<(String, Json)>, key: &str) -> (r: Option<u64>)
    ensures
        r == u64_member(fields@, key@),
{
    match number_from(fields, key) {
        Some(t) => u64_from_text(t.as_str()),
        None => None,
    }
}

/// Reads the payload of a `SHOW` command.
pub fn show_payload_from(p: &Json) -> (r: Option<ShowPayload>)
    ensures
        r == show_payload_of(*p),
{
    match p {
        Json::Object(fs) => {
            let repo_name = string_from(fs, "repoName");
            let style = string_from(fs, "style");
            let color_scheme = string_from(fs, "colorScheme");
            let duration = u64_from(fs, "duration");
            match (repo_name, style, color_scheme, duration) {
                (Some(repo_name), Some(style), Some(color_scheme), Some(duration)) => Some(
                    ShowPayload { repo_name, style, color_scheme, duration },
                ),
                _ => None,
            }
        },
        _ => None,
    }
}

/// Reads the payload of a `CONFIG` command.
pub fn config_payload_from(p: &Json) -> (r: Option<ConfigPayload>)
    ensures
        r == config_payload_of(*p),
{
    match p {
        Json::Object(fs) => {
            let opacity = number_from(fs, "opacity");
            let font_size = string_from(fs, "fontSize");
            match (opacity, font_size) {
                (Some(opacity), Some(font_size)) => Some(ConfigPayload { opacity, font_size }),
                _ => None,
            }
        },
        _ => None,
    }
}

/// Reads a command from a JSON document: the member `type` names the
/// variant, and `payload` carries its data.
pub fn command_from_json(j: &Json) -> (r: Result<Command, DecodeError>)
    ensures
        r == command_of(*j),
{
    let fs = match j {
        Json::Object(fs) => fs,
        _ => {
            return Err(DecodeError::NotAnObject);
        },
    };
    let tag = match find_member(fs, "type") {
        Some(Json::Str(t)) => t,
        _ => {
            return Err(DecodeError::MissingType);
        },
    };
    let payload = find_member(fs, "payload");
    if same_text(tag.as_str(), "SHOW") {
        match payload {
            Some(p) => match show_payload_from(p) {
                Some(sp) => Ok(Command::Show { payload: sp }),
                None => Err(DecodeError::BadPayload),
            },
            None => Err(DecodeError::BadPayload),
        }
    } else if same_text(tag.as_str(), "HIDE") {
        Ok(Command::Hide)
    } else if same_text(tag.as_str(), "CONFIG") {
        match payload {
            Some(p) => match config_payload_from(p) {
                Some(cp) => Ok(Command::Config { payload: cp }),
                None => Err(DecodeError::BadPayload),
            },
            None => Err(DecodeError::BadPayload),
        }
    } else if same_text(tag.as_str(), "SHUTDOWN") {
        Ok(Command::Shutdown)
    } else {
        Err(DecodeError::UnknownType)
    }
}

/// Decodes one line of input into a command.
pub fn decode_command(line: &str) -> (r: Result<Command, DecodeError>)
    ensures
        r == decode_line(line@),
{
    match parse_json(line) {
        Some(j) => command_from_json(&j),
        None => Err(DecodeError::NotJson),
    }
}

} // verus!
