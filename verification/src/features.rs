//! Windows feature-configuration records: decoding the packed flag word
//! and selecting a feature by id.  Querying and setting live configurations
//! is the platform layer's business.

use vstd::prelude::*;

verus! {

#[derive(Debug, Copy, Clone, PartialEq, Eq, Structural)]
pub enum FeatureConfigurationType {
    Boot,
    Runtime,
}

#[derive(Debug, Copy, Clone, PartialEq, Eq, Structural)]
pub enum FeatureEnabledState {
    Default,
    Disabled,
    Enabled,
}

/// One decoded feature configuration.
#[derive(Debug, Copy, Clone, PartialEq, Eq)]
pub struct FeatureConfiguration {
    pub feature_id: u32,
    pub priority: u8,
    pub enabled_state: FeatureEnabledState,
    pub variant: u8,
    pub variant_payload_kind: u8,
    pub variant_payload: u32,
}

#[derive(Debug, Clone, PartialEq, Eq)]
pub enum FeatureError {
    WindowsOnly,
    WindowsApiError { api: String, status: i32 },
    NotFound { feature_id: u32 },
}

/// How the packed flag word of a raw configuration decodes.
pub open spec fn spec_decode_config(feature_id: u32, flags: u32, variant_payload: u32)
    -> FeatureConfiguration {
    (FeatureConfiguration {
        feature_id,
        priority: (flags & 0x0F) as u8,
        enabled_state: if (flags >> 4) & 0x03 == 1 {
            FeatureEnabledState::Disabled
        } else if (flags >> 4) & 0x03 == 2 {
            FeatureEnabledState::Enabled
        } else {
            FeatureEnabledState::Default
        },
        variant: ((flags >> 8) & 0x3F) as u8,
        variant_payload_kind: ((flags >> 14) & 0x03) as u8,
        variant_payload,
    })
}

/// Unpacks a raw feature configuration: the low nibble is the priority,
/// bits 4..6 the enabled state, bits 8..14 the variant, bits 14..16 the
/// payload kind.
pub fn decode_config(feature_id: u32, flags: u32, variant_payload: u32) -> (r: FeatureConfiguration)
    ensures
        r == spec_decode_config(feature_id, flags, variant_payload),
{
    proof {
        assert(flags & 0x0F < 0x100 && (flags >> 8) & 0x3F < 0x100 && (flags >> 14) & 0x03 < 0x100)
            by (bit_vector);
    }
    let priority = (flags & 0x0F) as u8;
    let enabled_state_raw = (flags >> 4) & 0x03;
    let variant = ((flags >> 8) & 0x3F) as u8;
    let variant_payload_kind = ((flags >> 14) & 0x03) as u8;
    let enabled_state = if enabled_state_raw == 1 {
        FeatureEnabledState::Disabled
    } else if enabled_state_raw == 2 {
        FeatureEnabledState::Enabled
    } else {
        FeatureEnabledState::Default
    };
    FeatureConfiguration {
        feature_id,
        priority,
        enabled_state,
        variant,
        variant_payload_kind,
        variant_payload,
    }
}

/// The numeric state the kernel interface expects.
pub fn enabled_state_to_rtl(state: FeatureEnabledState) -> (r: u32)
    ensures
        r == (match state {
            FeatureEnabledState::Default => 0u32,
            FeatureEnabledState::Disabled => 1u32,
            FeatureEnabledState::Enabled => 2u32,
        }),
{
    match state {
        FeatureEnabledState::Default => 0,
        FeatureEnabledState::Disabled => 1,
        FeatureEnabledState::Enabled => 2,
    }
}

/// The numeric configuration type the kernel interface expects.
pub fn config_type_to_rtl(ty: FeatureConfigurationType) -> (r: u32)
    ensures
        r == (match ty {
            FeatureConfigurationType::Boot => 0u32,
            FeatureConfigurationType::Runtime => 1u32,
        }),
{
    match ty {
        FeatureConfigurationType::Boot => 0,
        FeatureConfigurationType::Runtime => 1,
    }
}

/// Picks the first configuration with the wanted id out of a full listing,
/// or reports that the id is absent.
pub fn query_feature_configuration(feature_id: u32, all: &Vec<FeatureConfiguration>) -> (r: Result<
    FeatureConfiguration,
    FeatureError,
>)
    ensures
        match r {
            Ok(c) => exists|i: int|
                0 <= i < all@.len() && (#[trigger] all@[i]) == c && c.feature_id == feature_id && (
                forall|j: int| 0 <= j < i ==> (#[trigger] all@[j]).feature_id != feature_id),
            Err(e) => e == (FeatureError::NotFound { feature_id }) && (forall|j: int|
                0 <= j < all@.len() ==> (#[trigger] all@[j]).feature_id != feature_id),
        },
{
    let n = all.len();
    let mut i: usize = 0;
    while i < n
        invariant
            0 <= i <= n == all@.len(),
            forall|j: int| 0 <= j < i ==> (#[trigger] all@[j]).feature_id != feature_id,
        decreases n - i,
    {
        if all[i].feature_id == feature_id {
            return Ok(all[i]);
        }
        i = i + 1;
    }
    Err(FeatureError::NotFound { feature_id })
}

impl FeatureError {
    pub open spec fn spec_message(self) -> Seq<char> {
        match self {
            FeatureError::WindowsOnly => "windows-only"@,
            FeatureError::WindowsApiError { api, status } => api@ + " failed with NTSTATUS "@
                + crate::text::spec_dec_signed(status as int),
            FeatureError::NotFound { feature_id } => "feature id "@ + crate::text::spec_dec(
                feature_id as int,
            ) + " not found"@,
        }
    }

    /// The error as text.
    pub fn message(&self) -> (r: String)
        ensures
            r@ == self.spec_message(),
    {
        match self {
            FeatureError::WindowsOnly => String::from_str("windows-only"),
            FeatureError::WindowsApiError { api, status } => {
                let mut out = api.clone();
                out.append(" failed with NTSTATUS ");
                let digits = crate::text::i64_to_dec(*status as i64);
                out.append(digits.as_str());
                out
            },
            FeatureError::NotFound { feature_id } => {
                let mut out = String::from_str("feature id ");
                let digits = crate::text::u64_to_dec(*feature_id as u64);
                out.append(digits.as_str());
                out.append(" not found");
                out
            },
        }
    }
}

} // verus!
