//! The errors of the `bak` tool.
use vstd::prelude::*;
use crate::cross::error::{cross_error_text, CrossError};

verus! {

/// The file operation that failed.
#[derive(Debug, Clone, Copy, PartialEq, Eq, Structural)]
pub enum IoOp {
    Read,
    Write,
    Delete,
    Rename,
    Create,
}

/// The name of an operation, in snake case.
pub open spec fn io_op_text(op: IoOp) -> Seq<char> {
    match op {
        IoOp::Read => "read"@,
        IoOp::Write => "write"@,
        IoOp::Delete => "delete"@,
        IoOp::Rename => "rename"@,
        IoOp::Create => "create"@,
    }
}

impl IoOp {
    /// The name of the operation, as it appears in messages.
    pub fn as_str(&self) -> (r: &'static str)
        ensures
            r@ == io_op_text(*self),
    {
        match self {
            IoOp::Read => "read",
            IoOp::Write => "write",
            IoOp::Delete => "delete",
            IoOp::Rename => "rename",
            IoOp::Create => "create",
        }
    }
}

/// An error of the `bak` tool. Paths are kept as they are shown: highlighted
/// in cyan where the terminal takes colors.
#[derive(Debug)]
pub enum Error {
    IO { op: IoOp, path: String, cause: String },
    Copy { src: String, dest: String, cause: String },
    Index { src: String, index: u8 },
    Cross { source: CrossError },
    Generic { msg: String },
}

/// The escape sequence that starts cyan text.
pub open spec fn cyan_open() -> Seq<char> {
    seq!['\x1b', '[', '3', '6', 'm']
}

/// The escape sequence that resets the style.
pub open spec fn style_reset() -> Seq<char> {
    seq!['\x1b', '[', '0', 'm']
}

/// Whether `t` occurs in `s`.
pub open spec fn occurs_in(t: Seq<char>, s: Seq<char>) -> bool {
    exists|i: int| 0 <= i <= s.len() - t.len() && #[trigger] s.subrange(i, i + t.len()) == t
}

/// `r` is how `s` is shown in cyan: unchanged where colors are off; else
/// between the cyan and reset sequences, unchanged inside when `s` holds no
/// reset sequence of its own.
pub open spec fn shown_cyan(s: Seq<char>, r: Seq<char>) -> bool {
    ||| r == s
    ||| !occurs_in(style_reset(), s) && r == cyan_open() + s + style_reset()
    ||| occurs_in(style_reset(), s) && r.len() >= cyan_open().len() + style_reset().len()
        && r.take(cyan_open().len() as int) == cyan_open()
        && r.skip(r.len() - style_reset().len()) == style_reset()
}

/// `colored::Colorize::cyan` then `to_string`. Whether colors are on depends
/// on the environment and the terminal, so the contract allows both forms;
/// where a reset sequence occurs inside `s`, the crate re-opens the color
/// after it, which is left unsaid here beyond the first and last sequence.
#[verifier::external_body]
fn cyan(s: &str) -> (r: String)
    ensures
        shown_cyan(s@, r@),
{
    colored::Colorize::cyan(s).to_string()
}

/// The message of an error, as the tool prints it.
pub open spec fn error_text(e: Error) -> Seq<char> {
    match e {
        Error::IO { op, path, cause } => "Unable to "@ + io_op_text(op) + " "@ + path@ + ": "@ + cause@,
        Error::Copy { src, dest, cause } => "Unable to copy "@ + src@ + " to "@ + dest@ + ": "@ + cause@,
        Error::Index { src, index } => "Invalid index for "@ + src@ + ": "@ + crate::text::dec(index as nat),
        Error::Cross { source } => cross_error_text(source),
        Error::Generic { msg } => msg@,
    }
}

impl Error {
    /// A failed file operation on `path`.
    pub fn io(op: IoOp, path: &str, cause: &str) -> (r: Self)
        ensures
            r matches Error::IO { op: o, path: p, cause: c } && o == op && shown_cyan(path@, p@) && c@
                == cause@,
    {
        Error::IO { op, path: cyan(path), cause: cause.to_owned() }
    }

    /// An index that names no backup of `source`.
    pub fn index(source: &str, index: u8) -> (r: Self)
        ensures
            r matches Error::Index { src: s, index: i } && shown_cyan(source@, s@) && i == index,
    {
        Error::Index { src: cyan(source), index }
    }

    /// A failed copy of `source` to `destination`.
    pub fn copy(source: &str, destination: &str, cause: &CrossError) -> (r: Self)
        ensures
            r matches Error::Copy { src: s, dest: d, cause: c } && shown_cyan(source@, s@) && shown_cyan(
                destination@,
                d@,
            ) && c@ == cross_error_text(*cause),
    {
        Error::Copy { src: cyan(source), dest: cyan(destination), cause: cause.to_string() }
    }

    /// A plain message.
    pub fn msg(msg: &str) -> (r: Self)
        ensures
            r matches Error::Generic { msg: m } && m@ == msg@,
    {
        Error::Generic { msg: msg.to_owned() }
    }


    /// The message of the error.
    pub fn to_string(&self) -> (r: String)
        ensures
            r@ == error_text(*self),
    {
        match self {
            Error::IO { op, path, cause } => {
                let r = "Unable to ".to_owned().concat(op.as_str()).concat(" ").concat(path.as_str()).concat(
                    ": ",
                ).concat(cause.as_str());
                r
            },
            Error::Copy { src, dest, cause } => {
                "Unable to copy ".to_owned().concat(src.as_str()).concat(" to ").concat(dest.as_str()).concat(
                    ": ",
                ).concat(cause.as_str())
            },
            Error::Index { src, index } => {
                let digits = crate::text::u32_dec(*index as u32);
                let n = crate::text::string_of(&digits);
                "Invalid index for ".to_owned().concat(src.as_str()).concat(": ").concat(n.as_str())
            },
            Error::Cross { source } => source.to_string(),
            Error::Generic { msg } => msg.clone(),
        }
    }
}

impl From<CrossError> for Error {
    fn from(source: CrossError) -> (r: Self) {
        Error::Cross { source }
    }
}

impl vstd::std_specs::convert::FromSpecImpl<CrossError> for Error {
    open spec fn obeys_from_spec() -> bool {
        true
    }

    open spec fn from_spec(source: CrossError) -> Error {
        Error::Cross { source }
    }
}

} // verus!
