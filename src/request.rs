use vstd::prelude::*;
use crate::json::{Json, json_get};
use crate::glob_to_regex::chars_of;

verus! {

/// Why a request body was refused.
#[derive(Clone, Copy, Debug, PartialEq, Eq, Structural)]
pub enum RequestError {
    /// The body is not an object, or lacks a string subject or action, or has a
    /// resource that is neither a string nor null.
    InvalidRequestError,
}

/// What a decision request asks: who, doing what, on what (if anything).
#[derive(Debug)]
pub struct AllowedInfo {
    pub subject: String,
    pub action: String,
    pub resource: Option<String>,
}

/// The subject, action and resource that a request body names, where it is valid.
/// A missing, null or empty resource stands for no resource.
pub open spec fn read_request(body: Json) -> Option<(Seq<char>, Seq<char>, Option<Seq<char>>)> {
    match (body, json_get(body, "subject"@), json_get(body, "action"@)) {
        (Json::Object(_), Some(Json::Str(subject)), Some(Json::Str(action))) => match json_get(body, "resource"@) {
            None => Some((subject@, action@, None)),
            Some(Json::Null) => Some((subject@, action@, None)),
            Some(Json::Str(r)) => Some((subject@, action@, if r@.len() == 0 { None } else { Some(r@) })),
            _ => None,
        },
        _ => None,
    }
}

impl AllowedInfo {
    /// Reads a decision request from its JSON body.
    pub fn try_from(value: &Json) -> (r: Result<AllowedInfo, RequestError>)
        ensures
            r is Ok <==> read_request(*value) is Some,
            r matches Ok(info) ==> read_request(*value) == Some((info.subject@, info.action@,
                match info.resource { Some(s) => Some(s@), None => None::<Seq<char>> })),
    {
        match value {
            Json::Object(_) => {},
            _ => {
                return Err(RequestError::InvalidRequestError);
            },
        }
        let subject = match value.get("subject") {
            Some(Json::Str(s)) => s.clone(),
            _ => {
                return Err(RequestError::InvalidRequestError);
            },
        };
        let action = match value.get("action") {
            Some(Json::Str(s)) => s.clone(),
            _ => {
                return Err(RequestError::InvalidRequestError);
            },
        };
        let resource = match value.get("resource") {
            None => None,
            Some(Json::Null) => None,
            Some(Json::Str(s)) => if s.as_str().is_empty() { None } else { Some(s.clone()) },
            _ => {
                return Err(RequestError::InvalidRequestError);
            },
        };
        Ok(AllowedInfo { subject, action, resource })
    }
}

pub open spec fn is_ascii_letter(c: char) -> bool {
    ('A' <= c && c <= 'Z') || ('a' <= c && c <= 'z')
}

/// A character that may follow the first one of an id.
pub open spec fn is_id_char(c: char) -> bool {
    is_ascii_letter(c) || ('0' <= c && c <= '9') || c == '_' || c == '-' || c == '.'
}

/// Whether a text is a valid policy, identity or group id: an ASCII letter, then
/// letters, digits, `_`, `-` or `.`.
pub open spec fn valid_id(s: Seq<char>) -> bool {
    s.len() > 0 && is_ascii_letter(s[0]) && forall|i: int| 1 <= i < s.len() ==> is_id_char(#[trigger] s[i])
}

/// Checks the form of an id.
pub fn is_valid_id(id: &str) -> (r: bool)
    ensures
        r == valid_id(id@),
{
    let chars = chars_of(id);
    if chars.len() == 0 {
        return false;
    }
    let first = chars[0];
    if !(('A' <= first && first <= 'Z') || ('a' <= first && first <= 'z')) {
        return false;
    }
    let mut i: usize = 1;
    while i < chars.len()
        invariant
            chars@ == id@,
            1 <= i <= chars.len(),
            forall|k: int| 1 <= k < i ==> is_id_char(#[trigger] id@[k]),
        decreases chars.len() - i,
    {
        let c = chars[i];
        if !(('A' <= c && c <= 'Z') || ('a' <= c && c <= 'z') || ('0' <= c && c <= '9') || c == '_' || c == '-' || c == '.') {
            return false;
        }
        i = i + 1;
    }
    true
}

} // verus!
