//! Delegating an association write to an external helper program: the
//! error it can fail with, and the decision whether a helper file must run
//! through the command interpreter.  Locating and spawning the helper is
//! the platform layer's business.

use vstd::prelude::*;

use crate::text::spec_lower;
use crate::text::str_eq;
use crate::text::to_ascii_lower;

verus! {

#[derive(Debug, Clone, PartialEq, Eq)]
pub enum SetUserFtaError {
    InvalidArgs,
    SpawnFailed(String),
    NonZeroExit { code: Option<i32>, stdout: String, stderr: String },
}

/// The extension of a file name: what follows the last dot, unless the
/// only dot is the leading one.
pub open spec fn spec_name_extension(name: Seq<char>) -> Option<Seq<char>> {
    if exists|k: int| 1 <= k < name.len() && name[k] == '.' {
        let ld = choose|ld: int|
            1 <= ld < name.len() && name[ld] == '.' && (forall|k: int|
                ld < k < name.len() ==> name[k] != '.');
        Some(name.subrange(ld + 1, name.len() as int))
    } else {
        None
    }
}

/// Whether a helper file name names a command script (`.cmd` or `.bat`,
/// in any case), which must run through the command interpreter.  The
/// argument is the file name, not a whole path.
pub fn is_cmd_script(name: &str) -> (r: bool)
    ensures
        r == (match spec_name_extension(name@) {
            Some(e) => spec_lower(e) == "cmd"@ || spec_lower(e) == "bat"@,
            None => false,
        }),
{
    let n = name.unicode_len();
    let mut i: usize = n;
    while i > 1 && name.get_char(i - 1) != '.'
        invariant
            1 <= i <= n == name@.len() || (n == 0 && i == 0),
            forall|k: int| i <= k < n ==> name@[k] != '.',
        decreases i,
    {
        i = i - 1;
    }
    if i <= 1 {
        proof {
            assert(forall|k: int| 1 <= k < name@.len() ==> name@[k] != '.');
        }
        return false;
    }
    let ld = i - 1;
    proof {
        assert(name@[ld as int] == '.');
        let wit = choose|w: int|
            1 <= w < name@.len() && name@[w] == '.' && (forall|k: int|
                w < k < name@.len() ==> name@[k] != '.');
        assert(1 <= ld < name@.len() && name@[ld as int] == '.' && (forall|k: int|
            ld < k < name@.len() ==> name@[k] != '.'));
        assert(wit == ld) by {
            if wit < ld {
                assert(name@[ld as int] != '.');
            }
            if wit > ld {
                assert(name@[wit] != '.');
            }
        }
    }
    let ext = name.substring_char(ld + 1, n);
    let low = to_ascii_lower(ext);
    let r = str_eq(low.as_str(), "cmd") || str_eq(low.as_str(), "bat");
    r
}

impl SetUserFtaError {
    pub open spec fn spec_message(self) -> Seq<char> {
        match self {
            SetUserFtaError::InvalidArgs => "invalid args"@,
            SetUserFtaError::SpawnFailed(msg) => msg@,
            SetUserFtaError::NonZeroExit { code, stdout, stderr } => {
                let head = match code {
                    Some(c) => "SetUserFTA failed (exit="@ + crate::text::spec_dec_signed(c as int)
                        + ")"@,
                    None => "SetUserFTA failed"@,
                };
                if stderr@.len() > 0 {
                    head + ": "@ + stderr@
                } else if stdout@.len() > 0 {
                    head + ": "@ + stdout@
                } else {
                    head
                }
            },
        }
    }

    /// The error as text.
    pub fn message(&self) -> (r: String)
        ensures
            r@ == self.spec_message(),
    {
        match self {
            SetUserFtaError::InvalidArgs => String::from_str("invalid args"),
            SetUserFtaError::SpawnFailed(msg) => msg.clone(),
            SetUserFtaError::NonZeroExit { code, stdout, stderr } => {
                let mut out = match code {
                    Some(c) => {
                        let mut h = String::from_str("SetUserFTA failed (exit=");
                        let digits = crate::text::i64_to_dec(*c as i64);
                        h.append(digits.as_str());
                        h.append(")");
                        h
                    },
                    None => String::from_str("SetUserFTA failed"),
                };
                if stderr.as_str().unicode_len() > 0 {
                    out.append(": ");
                    out.append(stderr.as_str());
                } else if stdout.as_str().unicode_len() > 0 {
                    out.append(": ");
                    out.append(stdout.as_str());
                }
                out
            },
        }
    }
}

} // verus!
