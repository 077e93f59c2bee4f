//! Program logs with their parts decoded: program ids as the bytes of a
//! public key, data as bytes, compute units as numbers.

use vstd::prelude::*;
use vstd::string::*;
use base64::Engine;
use crate::raw_log::{
    RawCuLog, RawDataLog, RawFailedLog, RawInvokeLog, RawLog, RawLogView, RawProgramLog,
    RawReturnLog, RawSuccessLog,
};
use crate::text::{chars_of, parse_u64, u64_of};

verus! {

/// Whether `c` is a character of the base-58 alphabet: a letter or a digit
/// other than `0`, `O`, `I` and `l`.
pub open spec fn is_base58(c: char) -> bool {
    ('1' <= c && c <= '9') || ('A' <= c && c <= 'H') || ('J' <= c && c <= 'N') || ('P' <= c && c
        <= 'Z') || ('a' <= c && c <= 'k') || ('m' <= c && c <= 'z')
}

/// Whether `pubkey` has the form of a public key in base 58: 32 to 44
/// characters of the base-58 alphabet. Whether it decodes to 32 bytes is not
/// looked at.
pub fn quick_pubkey_check(pubkey: &str) -> (r: bool)
    ensures
        r == (32 <= pubkey@.len() <= 44 && forall|i: int|
            0 <= i < pubkey@.len() ==> is_base58(#[trigger] pubkey@[i])),
{
    let v = chars_of(pubkey);
    let len: usize = v.len();
    if len < 32 || len > 44 {
        return false;
    }
    let mut i: usize = 0;
    while i < len
        invariant
            len == v@.len(),
            v@ == pubkey@,
            i <= len,
            forall|k: int| 0 <= k < i ==> is_base58(#[trigger] v@[k]),
        decreases len - i,
    {
        let c = v[i];
        let ok = ('1' <= c && c <= '9') || ('A' <= c && c <= 'H') || ('J' <= c && c <= 'N') || ('P'
            <= c && c <= 'Z') || ('a' <= c && c <= 'k') || ('m' <= c && c <= 'z');
        if !ok {
            return false;
        }
        i = i + 1;
    }
    true
}

/// Why a line could not be decoded.
#[derive(Debug, Clone, Copy, PartialEq, Eq, Structural)]
pub enum LogParseError {
    /// A program id that is no public key.
    Pubkey,
    /// Data that is no base 64.
    Base64,
    /// A count of compute units that is no number.
    ParseInt,
}

/// `solana_pubkey::ParsePubkeyError`: why a text is no public key.
#[verifier::external_type_specification]
#[verifier::external_body]
pub struct ExParsePubkeyError(solana_pubkey::ParsePubkeyError);

/// `base64::DecodeError`: why a text is no base 64.
#[verifier::external_type_specification]
#[verifier::external_body]
pub struct ExDecodeError(base64::DecodeError);

/// The 32 bytes of the public key that `s` writes in base 58, or `None`
/// where it writes none.
pub uninterp spec fn pubkey_bytes(s: Seq<char>) -> Option<Seq<u8>>;

/// The bytes that `s` writes in standard base 64 with padding, or `None`
/// where it writes none.
pub uninterp spec fn base64_bytes(s: Seq<char>) -> Option<Seq<u8>>;

/// `solana_pubkey::Pubkey::from_str` and `Pubkey::to_bytes`: the 32 bytes of
/// the key that the text writes in base 58, or the error where the text has
/// another character or writes no 32 bytes.
#[verifier::external_body]
pub(crate) fn decode_pubkey(s: &str) -> (r: Result<[u8; 32], solana_pubkey::ParsePubkeyError>)
    ensures
        match r {
            Ok(key) => pubkey_bytes(s@) == Some(key@),
            Err(_) => pubkey_bytes(s@) is None,
        },
{
    match <solana_pubkey::Pubkey as core::str::FromStr>::from_str(s) {
        Ok(key) => Ok(key.to_bytes()),
        Err(e) => Err(e),
    }
}

/// `base64::Engine::decode` of `base64::prelude::BASE64_STANDARD`: the bytes
/// that the text writes in the standard alphabet with padding, or the error
/// where it writes none.
#[verifier::external_body]
pub(crate) fn decode_base64(s: &str) -> (r: Result<Vec<u8>, base64::DecodeError>)
    ensures
        match r {
            Ok(bytes) => base64_bytes(s@) == Some(bytes@),
            Err(_) => base64_bytes(s@) is None,
        },
{
    base64::prelude::BASE64_STANDARD.decode(s)
}

/// The program id of a line: the bytes of the public key that the text
/// writes.
pub fn parse_program_id(s: &str) -> (r: Result<[u8; 32], LogParseError>)
    ensures
        match r {
            Ok(key) => pubkey_bytes(s@) == Some(key@),
            Err(e) => pubkey_bytes(s@) is None && e == LogParseError::Pubkey,
        },
{
    match decode_pubkey(s) {
        Ok(key) => Ok(key),
        Err(_) => Err(LogParseError::Pubkey),
    }
}

/// The data of a line: the bytes that the text writes in base 64.
pub fn parse_data(s: &str) -> (r: Result<Vec<u8>, LogParseError>)
    ensures
        match r {
            Ok(bytes) => base64_bytes(s@) == Some(bytes@),
            Err(e) => base64_bytes(s@) is None && e == LogParseError::Base64,
        },
{
    match decode_base64(s) {
        Ok(bytes) => Ok(bytes),
        Err(_) => Err(LogParseError::Base64),
    }
}

/// The number that `s` writes: decimal digits, with or without a `+` before
/// them.
pub open spec fn units_of(s: Seq<char>) -> Option<u64> {
    if s.len() > 0 && s[0] == '+' {
        u64_of(s.skip(1))
    } else {
        u64_of(s)
    }
}

/// A count of compute units.
pub fn parse_units(s: &str) -> (r: Result<u64, LogParseError>)
    ensures
        match r {
            Ok(n) => units_of(s@) == Some(n),
            Err(e) => units_of(s@) is None && e == LogParseError::ParseInt,
        },
{
    let mut v = chars_of(s);
    if v.len() > 0 && v[0] == '+' {
        let ghost before = v@;
        v.remove(0);
        assert(v@ =~= before.skip(1));
    }
    match parse_u64(&v) {
        Some(n) => Ok(n),
        None => Err(LogParseError::ParseInt),
    }
}

/// `Program <id> invoke [n]`
#[derive(Debug, Clone, PartialEq, Eq)]
pub struct ParsedInvokeLog {
    pub program_id: [u8; 32],
    pub depth: u8,
}

/// `Program <id> success`
#[derive(Debug, Clone, PartialEq, Eq)]
pub struct ParsedSuccessLog {
    pub program_id: [u8; 32],
}

/// `Program <id> failed: <err>`
#[derive(Debug, Clone, PartialEq, Eq)]
pub struct ParsedFailedLog {
    pub program_id: [u8; 32],
    pub err: String,
}

/// `Program log: <msg>`
#[derive(Debug, Clone, PartialEq, Eq)]
pub struct ParsedProgramLog {
    pub msg: String,
}

/// `Program data: <base64>`
#[derive(Debug, Clone, PartialEq, Eq)]
pub struct ParsedDataLog {
    pub data: Vec<u8>,
}

/// `Program return: <id> <base64>`
#[derive(Debug, Clone, PartialEq, Eq)]
pub struct ParsedReturnLog {
    pub program_id: [u8; 32],
    pub data: Vec<u8>,
}

/// `Program <id> consumed <x> of <y> compute units`
#[derive(Debug, Clone, PartialEq, Eq)]
pub struct ParsedCuLog {
    pub program_id: [u8; 32],
    pub consumed: u64,
    pub budget: u64,
}

/// A line of a program log with its parts decoded.
#[derive(Debug, Clone, PartialEq, Eq)]
pub enum ParsedLog {
    Invoke(ParsedInvokeLog),
    Success(ParsedSuccessLog),
    Failed(ParsedFailedLog),
    Log(ParsedProgramLog),
    Data(ParsedDataLog),
    Return(ParsedReturnLog),
    Cu(ParsedCuLog),
    Other(String),
}

/// What a decoded line holds, as plain values.
pub ghost enum ParsedLogView {
    Invoke { program_id: Seq<u8>, depth: u8 },
    Success { program_id: Seq<u8> },
    Failed { program_id: Seq<u8>, err: Seq<char> },
    Log { msg: Seq<char> },
    Data { data: Seq<u8> },
    Return { program_id: Seq<u8>, data: Seq<u8> },
    Cu { program_id: Seq<u8>, consumed: u64, budget: u64 },
    Other(Seq<char>),
}

impl View for ParsedLog {
    type V = ParsedLogView;

    open spec fn view(&self) -> ParsedLogView {
        match self {
            ParsedLog::Invoke(l) => ParsedLogView::Invoke {
                program_id: l.program_id@,
                depth: l.depth,
            },
            ParsedLog::Success(l) => ParsedLogView::Success { program_id: l.program_id@ },
            ParsedLog::Failed(l) => ParsedLogView::Failed {
                program_id: l.program_id@,
                err: l.err@,
            },
            ParsedLog::Log(l) => ParsedLogView::Log { msg: l.msg@ },
            ParsedLog::Data(l) => ParsedLogView::Data { data: l.data@ },
            ParsedLog::Return(l) => ParsedLogView::Return {
                program_id: l.program_id@,
                data: l.data@,
            },
            ParsedLog::Cu(l) => ParsedLogView::Cu {
                program_id: l.program_id@,
                consumed: l.consumed,
                budget: l.budget,
            },
            ParsedLog::Other(s) => ParsedLogView::Other(s@),
        }
    }
}

/// The line `raw` with its parts decoded, or the first part that does not
/// decode: the program id before the data, the units consumed before the
/// budget.
pub open spec fn decoded(raw: RawLogView) -> Result<ParsedLogView, LogParseError> {
    match raw {
        RawLogView::Invoke { program_id, depth, .. } => match pubkey_bytes(program_id) {
            Some(key) => Ok(ParsedLogView::Invoke { program_id: key, depth }),
            None => Err(LogParseError::Pubkey),
        },
        RawLogView::Success { program_id, .. } => match pubkey_bytes(program_id) {
            Some(key) => Ok(ParsedLogView::Success { program_id: key }),
            None => Err(LogParseError::Pubkey),
        },
        RawLogView::Failed { program_id, err, .. } => match pubkey_bytes(program_id) {
            Some(key) => Ok(ParsedLogView::Failed { program_id: key, err }),
            None => Err(LogParseError::Pubkey),
        },
        RawLogView::Log { msg, .. } => Ok(ParsedLogView::Log { msg }),
        RawLogView::Data { data, .. } => match base64_bytes(data) {
            Some(bytes) => Ok(ParsedLogView::Data { data: bytes }),
            None => Err(LogParseError::Base64),
        },
        RawLogView::Return { program_id, data, .. } => match pubkey_bytes(program_id) {
            Some(key) => match base64_bytes(data) {
                Some(bytes) => Ok(ParsedLogView::Return { program_id: key, data: bytes }),
                None => Err(LogParseError::Base64),
            },
            None => Err(LogParseError::Pubkey),
        },
        RawLogView::Cu { program_id, consumed, budget, .. } => match pubkey_bytes(program_id) {
            Some(key) => match units_of(consumed) {
                Some(c) => match units_of(budget) {
                    Some(b) => Ok(ParsedLogView::Cu { program_id: key, consumed: c, budget: b }),
                    None => Err(LogParseError::ParseInt),
                },
                None => Err(LogParseError::ParseInt),
            },
            None => Err(LogParseError::Pubkey),
        },
        RawLogView::Other(raw) => Ok(ParsedLogView::Other(raw)),
    }
}

impl ParsedInvokeLog {
    /// Decodes the parts of the line.
    pub fn from_raw(log: &RawInvokeLog) -> (r: Result<Self, LogParseError>)
        ensures
            match r {
                Ok(l) => decoded(RawLog::Invoke(*log)@) == Ok::<ParsedLogView, LogParseError>(
                    ParsedLog::Invoke(l)@,
                ),
                Err(e) => decoded(RawLog::Invoke(*log)@) == Err::<ParsedLogView, LogParseError>(e),
            },
    {
        Ok(ParsedInvokeLog { program_id: parse_program_id(log.program_id)?, depth: log.depth })
    }
}

impl ParsedSuccessLog {
    /// Decodes the parts of the line.
    pub fn from_raw(log: &RawSuccessLog) -> (r: Result<Self, LogParseError>)
        ensures
            match r {
                Ok(l) => decoded(RawLog::Success(*log)@) == Ok::<ParsedLogView, LogParseError>(
                    ParsedLog::Success(l)@,
                ),
                Err(e) => decoded(RawLog::Success(*log)@) == Err::<ParsedLogView, LogParseError>(
                    e,
                ),
            },
    {
        Ok(ParsedSuccessLog { program_id: parse_program_id(log.program_id)? })
    }
}

impl ParsedFailedLog {
    /// Decodes the parts of the line.
    pub fn from_raw(log: &RawFailedLog) -> (r: Result<Self, LogParseError>)
        ensures
            match r {
                Ok(l) => decoded(RawLog::Failed(*log)@) == Ok::<ParsedLogView, LogParseError>(
                    ParsedLog::Failed(l)@,
                ),
                Err(e) => decoded(RawLog::Failed(*log)@) == Err::<ParsedLogView, LogParseError>(e),
            },
    {
        Ok(
            ParsedFailedLog {
                program_id: parse_program_id(log.program_id)?,
                err: String::from_str(log.err),
            },
        )
    }
}

impl ParsedProgramLog {
    /// Decodes the parts of the line.
    pub fn from_raw(log: &RawProgramLog) -> (r: Result<Self, LogParseError>)
        ensures
            r is Ok,
            decoded(RawLog::Log(*log)@) == Ok::<ParsedLogView, LogParseError>(
                ParsedLog::Log(r->Ok_0)@,
            ),
    {
        Ok(ParsedProgramLog { msg: String::from_str(log.msg) })
    }
}

impl ParsedDataLog {
    /// Decodes the parts of the line.
    pub fn from_raw(log: &RawDataLog) -> (r: Result<Self, LogParseError>)
        ensures
            match r {
                Ok(l) => decoded(RawLog::Data(*log)@) == Ok::<ParsedLogView, LogParseError>(
                    ParsedLog::Data(l)@,
                ),
                Err(e) => decoded(RawLog::Data(*log)@) == Err::<ParsedLogView, LogParseError>(e),
            },
    {
        Ok(ParsedDataLog { data: parse_data(log.data)? })
    }
}

impl ParsedReturnLog {
    /// Decodes the parts of the line.
    pub fn from_raw(log: &RawReturnLog) -> (r: Result<Self, LogParseError>)
        ensures
            match r {
                Ok(l) => decoded(RawLog::Return(*log)@) == Ok::<ParsedLogView, LogParseError>(
                    ParsedLog::Return(l)@,
                ),
                Err(e) => decoded(RawLog::Return(*log)@) == Err::<ParsedLogView, LogParseError>(e),
            },
    {
        Ok(
            ParsedReturnLog {
                program_id: parse_program_id(log.program_id)?,
                data: parse_data(log.data)?,
            },
        )
    }
}

impl ParsedCuLog {
    /// Decodes the parts of the line.
    pub fn from_raw(log: &RawCuLog) -> (r: Result<Self, LogParseError>)
        ensures
            match r {
                Ok(l) => decoded(RawLog::Cu(*log)@) == Ok::<ParsedLogView, LogParseError>(
                    ParsedLog::Cu(l)@,
                ),
                Err(e) => decoded(RawLog::Cu(*log)@) == Err::<ParsedLogView, LogParseError>(e),
            },
    {
        Ok(
            ParsedCuLog {
                program_id: parse_program_id(log.program_id)?,
                consumed: parse_units(log.consumed)?,
                budget: parse_units(log.budget)?,
            },
        )
    }
}

impl ParsedLog {
    /// Decodes the parts of a line.
    pub fn from_raw(raw: &RawLog) -> (r: Result<Self, LogParseError>)
        ensures
            match r {
                Ok(l) => decoded(raw@) == Ok::<ParsedLogView, LogParseError>(l@),
                Err(e) => decoded(raw@) == Err::<ParsedLogView, LogParseError>(e),
            },
    {
        match raw {
            RawLog::Invoke(log) => Ok(ParsedLog::Invoke(ParsedInvokeLog::from_raw(log)?)),
            RawLog::Success(log) => Ok(ParsedLog::Success(ParsedSuccessLog::from_raw(log)?)),
            RawLog::Failed(log) => Ok(ParsedLog::Failed(ParsedFailedLog::from_raw(log)?)),
            RawLog::Log(log) => Ok(ParsedLog::Log(ParsedProgramLog::from_raw(log)?)),
            RawLog::Data(log) => Ok(ParsedLog::Data(ParsedDataLog::from_raw(log)?)),
            RawLog::Return(log) => Ok(ParsedLog::Return(ParsedReturnLog::from_raw(log)?)),
            RawLog::Cu(log) => Ok(ParsedLog::Cu(ParsedCuLog::from_raw(log)?)),
            RawLog::Other(log) => Ok(ParsedLog::Other(String::from_str(log))),
        }
    }
}

} // verus!
