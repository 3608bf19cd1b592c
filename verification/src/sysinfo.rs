//! The system report: whose user this is, which hash scheme is
//! authoritative, whether the protection driver is around, and what an
//! operator should do about it.  The raw values come from the platform
//! layer; this module only assembles and interprets them.

use vstd::prelude::*;

verus! {

/// What the system looks like for this tool.
#[derive(Debug, Clone, PartialEq, Eq)]
pub struct Sysinfo {
    pub sid: Option<String>,
    pub hash_version: Option<u32>,
    pub user_choice_latest_enabled: bool,
    pub ucpd_enabled: Option<bool>,
    pub ucpd_driver_present: Option<bool>,
    pub guidance: Vec<String>,
}

#[derive(Debug, Clone, PartialEq, Eq)]
pub enum SysinfoError {
    WindowsOnly,
    WindowsApiError { api: String, code: u32 },
}

/// Whether a hash-version flag marks the newer scheme as authoritative.
pub open spec fn spec_latest_enabled(hash_version: Option<u32>) -> bool {
    match hash_version {
        Some(v) => v != 0,
        None => false,
    }
}

/// Assembles the report: the newer scheme counts as enabled exactly when
/// the flag is present and nonzero, and in that case the guidance lists the
/// capture/replay workflow and the optional feature-flag workaround.
pub fn build_sysinfo(sid: Option<String>, hash_version: Option<u32>, ucpd_enabled: Option<bool>,
    ucpd_driver_present: Option<bool>) -> (r: Sysinfo)
    ensures
        r.sid == sid,
        r.hash_version == hash_version,
        r.ucpd_enabled == ucpd_enabled,
        r.ucpd_driver_present == ucpd_driver_present,
        r.user_choice_latest_enabled == spec_latest_enabled(hash_version),
        if spec_latest_enabled(hash_version) {
            r.guidance@.len() == 4 && r.guidance@[0]@
                == "HashVersion!=0 detected (UserChoiceLatest enabled): use capture-latest/apply-latest replay for restore."@
                && r.guidance@[1]@
                == "Optional workaround (not required if replay works): ViveTool disable + reboot."@
                && r.guidance@[2]@ == "  vivetool /disable /id:43229420"@ && r.guidance@[3]@
                == "  vivetool /disable /id:27623730"@
        } else {
            r.guidance@.len() == 0
        },
{
    let user_choice_latest_enabled = match hash_version {
        Some(v) => v != 0,
        None => false,
    };
    let mut guidance: Vec<String> = Vec::new();
    if user_choice_latest_enabled {
        guidance.push(
            String::from_str(
                "HashVersion!=0 detected (UserChoiceLatest enabled): use capture-latest/apply-latest replay for restore.",
            ),
        );
        guidance.push(
            String::from_str(
                "Optional workaround (not required if replay works): ViveTool disable + reboot.",
            ),
        );
        guidance.push(String::from_str("  vivetool /disable /id:43229420"));
        guidance.push(String::from_str("  vivetool /disable /id:27623730"));
    }
    Sysinfo {
        sid,
        hash_version,
        user_choice_latest_enabled,
        ucpd_enabled,
        ucpd_driver_present,
        guidance,
    }
}

impl SysinfoError {
    pub open spec fn spec_message(self) -> Seq<char> {
        match self {
            SysinfoError::WindowsOnly => "windows-only"@,
            SysinfoError::WindowsApiError { api, code } => api@ + " failed with "@
                + crate::text::spec_dec(code as int),
        }
    }

    /// The error as text.
    pub fn message(&self) -> (r: String)
        ensures
            r@ == self.spec_message(),
    {
        match self {
            SysinfoError::WindowsOnly => String::from_str("windows-only"),
            SysinfoError::WindowsApiError { api, code } => {
                let mut out = api.clone();
                out.append(" failed with ");
                let digits = crate::text::u64_to_dec(*code as u64);
                out.append(digits.as_str());
                out
            },
        }
    }
}

} // verus!
