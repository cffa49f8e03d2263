//! The inbound request and the listing call that it asks for.

use vstd::prelude::*;
use vstd::utf8::{encode_scalar, encode_utf8};

verus! {

/// The most entries one listing call may return.
pub const MAX_KEYS: i32 = 1000;

/// One request as it arrives: the container to scan, the prefix that the
/// scanned objects share, and the text to look for, if any.
#[derive(Clone, Debug, PartialEq, Eq)]
pub struct Event {
    pub s3_bucket_name: String,
    pub folder: String,
    pub find: Option<String>,
}

/// What a request asks for, as plain values. The pattern is the bytes that
/// are searched for: the UTF-8 encoding of the text in `find`.
pub struct Request {
    pub container: Seq<char>,
    pub prefix: Seq<char>,
    pub pattern: Option<Seq<u8>>,
}

/// Why a request is turned away before any storage call is made.
#[derive(Clone, Copy, Debug, PartialEq, Eq, Structural)]
pub enum MalformedRequestError {
    /// The container name is empty.
    EmptyContainer,
    /// The prefix is empty.
    EmptyPrefix,
    /// A pattern was given and it is empty.
    EmptyPattern,
}

/// The one listing call of a scan.
#[derive(Clone, Debug, PartialEq, Eq)]
pub struct ListRequest {
    pub container: String,
    pub prefix: String,
    pub max_keys: i32,
}

impl Request {
    /// Container and prefix are non-empty, and so is the pattern where there
    /// is one.
    pub open spec fn well_formed(self) -> bool {
        &&& self.container.len() > 0
        &&& self.prefix.len() > 0
        &&& self.pattern matches Some(bytes) ==> bytes.len() > 0
    }

    /// The first thing wrong with the request, if anything is: the container
    /// is looked at first, then the prefix, then the pattern.
    pub open spec fn defect(self) -> Option<MalformedRequestError> {
        if self.container.len() == 0 {
            Some(MalformedRequestError::EmptyContainer)
        } else if self.prefix.len() == 0 {
            Some(MalformedRequestError::EmptyPrefix)
        } else if self.pattern is Some && self.pattern->0.len() == 0 {
            Some(MalformedRequestError::EmptyPattern)
        } else {
            None
        }
    }
}

impl View for Event {
    type V = Request;

    open spec fn view(&self) -> Request {
        Request {
            container: self.s3_bucket_name@,
            prefix: self.folder@,
            pattern: match self.find {
                Some(text) => Some(encode_utf8(text@)),
                None => None,
            },
        }
    }
}

/// Only the empty text is encoded by no bytes.
proof fn lemma_encoding_is_empty(text: Seq<char>)
    ensures
        encode_utf8(text).len() == 0 <==> text.len() == 0,
{
    if text.len() > 0 {
        assert(encode_scalar(text[0] as u32).len() > 0);
    }
}

impl Event {
    /// Accepts a well-formed request and names the defect of any other.
    pub fn validate(&self) -> (checked: Result<(), MalformedRequestError>)
        ensures
            checked is Ok <==> self@.well_formed(),
            checked matches Err(error) ==> self@.defect() == Some(error),
    {
        if self.s3_bucket_name.as_str().is_empty() {
            return Err(MalformedRequestError::EmptyContainer);
        }
        if self.folder.as_str().is_empty() {
            return Err(MalformedRequestError::EmptyPrefix);
        }
        match &self.find {
            Some(text) => {
                proof {
                    lemma_encoding_is_empty(text@);
                }
                if text.as_str().is_empty() {
                    return Err(MalformedRequestError::EmptyPattern);
                }
            },
            None => {},
        }
        Ok(())
    }

    /// The bytes to search each object for, or `None` where the request only
    /// counts.
    pub fn pattern(&self) -> (pattern: Option<&[u8]>)
        ensures
            match pattern {
                Some(bytes) => self@.pattern == Some(bytes@),
                None => self@.pattern is None,
            },
    {
        match &self.find {
            Some(text) => Some(text.as_str().as_bytes()),
            None => None,
        }
    }

    /// The listing call for this request: its container, its prefix, and the
    /// fixed cap on the number of entries.
    pub fn listing(&self) -> (request: ListRequest)
        ensures
            request.container@ == self@.container,
            request.prefix@ == self@.prefix,
            request.max_keys == MAX_KEYS,
    {
        ListRequest {
            container: self.s3_bucket_name.clone(),
            prefix: self.folder.clone(),
            max_keys: MAX_KEYS,
        }
    }
}

} // verus!
