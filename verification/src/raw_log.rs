//! Program logs, line by line: each line is told apart by its form, and its
//! parts are kept as text.

use vstd::prelude::*;
use vstd::string::*;
use crate::text::{
    chars_of, copy_range, parse_u8, range_is, split_once, split_once_in, strip_prefix,
    strip_prefix_in, strip_suffix, strip_suffix_in, trim_range, trimmed, u8_of, Range,
};

verus! {

/// `Program <id> invoke [n]`
#[derive(Debug, Clone, Copy, PartialEq, Eq)]
pub struct RawInvokeLog<'a> {
    pub raw: &'a str,
    pub program_id: &'a str,
    pub depth: u8,
}

/// `Program <id> success`
#[derive(Debug, Clone, Copy, PartialEq, Eq)]
pub struct RawSuccessLog<'a> {
    pub raw: &'a str,
    pub program_id: &'a str,
}

/// `Program <id> failed: <err>`
#[derive(Debug, Clone, Copy, PartialEq, Eq)]
pub struct RawFailedLog<'a> {
    pub raw: &'a str,
    pub program_id: &'a str,
    pub err: &'a str,
}

/// `Program log: <msg>`
#[derive(Debug, Clone, Copy, PartialEq, Eq)]
pub struct RawProgramLog<'a> {
    pub raw: &'a str,
    pub msg: &'a str,
}

/// `Program data: <base64>`
#[derive(Debug, Clone, Copy, PartialEq, Eq)]
pub struct RawDataLog<'a> {
    pub raw: &'a str,
    pub data: &'a str,
}

/// `Program return: <id> <base64>`
#[derive(Debug, Clone, Copy, PartialEq, Eq)]
pub struct RawReturnLog<'a> {
    pub raw: &'a str,
    pub program_id: &'a str,
    pub data: &'a str,
}

/// `Program <id> consumed <x> of <y> compute units`
#[derive(Debug, Clone, Copy, PartialEq, Eq)]
pub struct RawCuLog<'a> {
    pub raw: &'a str,
    pub program_id: &'a str,
    pub consumed: &'a str,
    pub budget: &'a str,
}

/// A line of a program log.
#[derive(Debug, Clone, Copy, PartialEq, Eq)]
pub enum RawLog<'a> {
    Invoke(RawInvokeLog<'a>),
    Success(RawSuccessLog<'a>),
    Failed(RawFailedLog<'a>),
    Log(RawProgramLog<'a>),
    Data(RawDataLog<'a>),
    Return(RawReturnLog<'a>),
    Cu(RawCuLog<'a>),
    Other(&'a str),
}

/// What a line of a program log holds, as plain values. `raw` is the whole
/// line.
pub ghost enum RawLogView {
    Invoke { raw: Seq<char>, program_id: Seq<char>, depth: u8 },
    Success { raw: Seq<char>, program_id: Seq<char> },
    Failed { raw: Seq<char>, program_id: Seq<char>, err: Seq<char> },
    Log { raw: Seq<char>, msg: Seq<char> },
    Data { raw: Seq<char>, data: Seq<char> },
    Return { raw: Seq<char>, program_id: Seq<char>, data: Seq<char> },
    Cu { raw: Seq<char>, program_id: Seq<char>, consumed: Seq<char>, budget: Seq<char> },
    Other(Seq<char>),
}

impl<'a> View for RawLog<'a> {
    type V = RawLogView;

    open spec fn view(&self) -> RawLogView {
        match self {
            RawLog::Invoke(l) => RawLogView::Invoke {
                raw: l.raw@,
                program_id: l.program_id@,
                depth: l.depth,
            },
            RawLog::Success(l) => RawLogView::Success { raw: l.raw@, program_id: l.program_id@ },
            RawLog::Failed(l) => RawLogView::Failed {
                raw: l.raw@,
                program_id: l.program_id@,
                err: l.err@,
            },
            RawLog::Log(l) => RawLogView::Log { raw: l.raw@, msg: l.msg@ },
            RawLog::Data(l) => RawLogView::Data { raw: l.raw@, data: l.data@ },
            RawLog::Return(l) => RawLogView::Return {
                raw: l.raw@,
                program_id: l.program_id@,
                data: l.data@,
            },
            RawLog::Cu(l) => RawLogView::Cu {
                raw: l.raw@,
                program_id: l.program_id@,
                consumed: l.consumed@,
                budget: l.budget@,
            },
            RawLog::Other(s) => RawLogView::Other(s@),
        }
    }
}

/// The byte that `s` writes: decimal digits, with or without a `+` before
/// them.
pub open spec fn depth_of(s: Seq<char>) -> Option<u8> {
    if s.len() > 0 && s[0] == '+' {
        u8_of(s.skip(1))
    } else {
        u8_of(s)
    }
}

/// What follows the program's id in a line `Program <id> <rest>`.
pub open spec fn program_line(raw: Seq<char>, program_id: Seq<char>, rest: Seq<char>) -> RawLogView {
    let depth = match strip_prefix(rest, "invoke ["@) {
        Some(d) => strip_suffix(d, "]"@),
        None => None,
    };
    let units = match strip_prefix(rest, "consumed "@) {
        Some(c) => split_once(c, " of "@),
        None => None,
    };
    if depth is Some {
        match depth_of(depth->Some_0) {
            Some(n) => RawLogView::Invoke { raw, program_id, depth: n },
            None => RawLogView::Other(raw),
        }
    } else if rest == "success"@ {
        RawLogView::Success { raw, program_id }
    } else if strip_prefix(rest, "failed: "@) is Some {
        RawLogView::Failed { raw, program_id, err: strip_prefix(rest, "failed: "@)->Some_0 }
    } else if units is Some {
        match strip_suffix(units->Some_0.1, " compute units"@) {
            Some(budget) => RawLogView::Cu {
                raw,
                program_id,
                consumed: units->Some_0.0,
                budget,
            },
            None => RawLogView::Other(raw),
        }
    } else {
        RawLogView::Other(raw)
    }
}

/// What the line `log` is: by the form of the line without the white space
/// around it. A line of no known form, or of a known form with a part
/// missing, is kept whole as `Other`.
pub open spec fn parsed_line(log: Seq<char>) -> RawLogView {
    let t = trimmed(log);
    if strip_prefix(t, "Program log: "@) is Some {
        RawLogView::Log { raw: log, msg: strip_prefix(t, "Program log: "@)->Some_0 }
    } else if strip_prefix(t, "Program data: "@) is Some {
        RawLogView::Data { raw: log, data: strip_prefix(t, "Program data: "@)->Some_0 }
    } else if strip_prefix(t, "Program return: "@) is Some {
        match split_once(strip_prefix(t, "Program return: "@)->Some_0, " "@) {
            Some((program_id, data)) => RawLogView::Return { raw: log, program_id, data },
            None => RawLogView::Other(log),
        }
    } else if strip_prefix(t, "Program "@) is Some {
        match split_once(strip_prefix(t, "Program "@)->Some_0, " "@) {
            Some((program_id, rest)) => program_line(log, program_id, rest),
            None => RawLogView::Other(log),
        }
    } else {
        RawLogView::Other(log)
    }
}

/// The text of the range `r` of the line `log`, whose characters are `v`.
fn slice<'a>(log: &'a str, v: &Vec<char>, r: Range) -> (s: &'a str)
    requires
        v@ == log@,
        r.within(v@.len()),
    ensures
        s@ == r.of(v@),
{
    log.substring_char(r.lo, r.hi)
}

/// Reads a depth: decimal digits, with or without a `+` before them.
pub fn parse_depth(v: &Vec<char>, r: Range) -> (d: Option<u8>)
    requires
        r.within(v@.len()),
    ensures
        d == depth_of(r.of(v@)),
{
    let digits = if r.lo < r.hi && v[r.lo] == '+' {
        let q = Range { lo: r.lo + 1, hi: r.hi };
        assert(q.of(v@) =~= r.of(v@).skip(1));
        copy_range(v, q)
    } else {
        copy_range(v, r)
    };
    parse_u8(&digits)
}

impl<'a> RawLog<'a> {
    /// The whole line.
    pub open spec fn raw_text(self) -> Seq<char> {
        match self@ {
            RawLogView::Invoke { raw, .. } => raw,
            RawLogView::Success { raw, .. } => raw,
            RawLogView::Failed { raw, .. } => raw,
            RawLogView::Log { raw, .. } => raw,
            RawLogView::Data { raw, .. } => raw,
            RawLogView::Return { raw, .. } => raw,
            RawLogView::Cu { raw, .. } => raw,
            RawLogView::Other(raw) => raw,
        }
    }

    /// The whole line.
    pub fn raw(&self) -> (r: &'a str)
        ensures
            r@ == self.raw_text(),
    {
        match self {
            RawLog::Invoke(l) => l.raw,
            RawLog::Success(l) => l.raw,
            RawLog::Failed(l) => l.raw,
            RawLog::Log(l) => l.raw,
            RawLog::Data(l) => l.raw,
            RawLog::Return(l) => l.raw,
            RawLog::Cu(l) => l.raw,
            RawLog::Other(s) => s,
        }
    }

    /// Tells what a line of a program log is, and parts it.
    pub fn parse(log: &'a str) -> (r: Self)
        ensures
            r@ == parsed_line(log@),
    {
        let v = chars_of(log);
        let t = trim_range(&v);
        match strip_prefix_in(&v, t, &chars_of("Program log: ")) {
            Some(rest) => {
                return RawLog::Log(RawProgramLog { raw: log, msg: slice(log, &v, rest) });
            },
            None => {},
        }
        match strip_prefix_in(&v, t, &chars_of("Program data: ")) {
            Some(rest) => {
                return RawLog::Data(RawDataLog { raw: log, data: slice(log, &v, rest) });
            },
            None => {},
        }
        match strip_prefix_in(&v, t, &chars_of("Program return: ")) {
            Some(rest) => {
                return match split_once_in(&v, rest, &chars_of(" ")) {
                    Some((id, data)) => RawLog::Return(
                        RawReturnLog {
                            raw: log,
                            program_id: slice(log, &v, id),
                            data: slice(log, &v, data),
                        },
                    ),
                    None => RawLog::Other(log),
                };
            },
            None => {},
        }
        match strip_prefix_in(&v, t, &chars_of("Program ")) {
            Some(rest) => match split_once_in(&v, rest, &chars_of(" ")) {
                Some((id, suffix)) => RawLog::parse_program_line(log, &v, id, suffix),
                None => RawLog::Other(log),
            },
            None => RawLog::Other(log),
        }
    }

    /// Tells what a line `Program <id> <rest>` is, from what follows the id.
    pub fn parse_program_line(log: &'a str, v: &Vec<char>, id: Range, suffix: Range) -> (r: Self)
        requires
            v@ == log@,
            id.within(v@.len()),
            suffix.within(v@.len()),
        ensures
            r@ == program_line(log@, id.of(v@), suffix.of(v@)),
    {
        let program_id = slice(log, v, id);
        let depth = match strip_prefix_in(v, suffix, &chars_of("invoke [")) {
            Some(d) => strip_suffix_in(v, d, &chars_of("]")),
            None => None,
        };
        match depth {
            Some(d) => {
                return match parse_depth(v, d) {
                    Some(n) => RawLog::Invoke(RawInvokeLog { raw: log, program_id, depth: n }),
                    None => RawLog::Other(log),
                };
            },
            None => {},
        }
        if range_is(v, suffix, &chars_of("success")) {
            return RawLog::Success(RawSuccessLog { raw: log, program_id });
        }
        match strip_prefix_in(v, suffix, &chars_of("failed: ")) {
            Some(err) => {
                return RawLog::Failed(
                    RawFailedLog { raw: log, program_id, err: slice(log, v, err) },
                );
            },
            None => {},
        }
        let units = match strip_prefix_in(v, suffix, &chars_of("consumed ")) {
            Some(c) => split_once_in(v, c, &chars_of(" of ")),
            None => None,
        };
        match units {
            Some((consumed, of_budget)) => {
                match strip_suffix_in(v, of_budget, &chars_of(" compute units")) {
                    Some(budget) => RawLog::Cu(
                        RawCuLog {
                            raw: log,
                            program_id,
                            consumed: slice(log, v, consumed),
                            budget: slice(log, v, budget),
                        },
                    ),
                    None => RawLog::Other(log),
                }
            },
            None => RawLog::Other(log),
        }
    }
}

} // verus!
