//! Well-known SDP attribute IDs.
use vstd::prelude::*;

verus! {

/// Service record handle
pub const SERVICE_RECORD_HANDLE: u16 = 0x0000;
/// Service class ID list
pub const SERVICE_CLASS_ID_LIST: u16 = 0x0001;
/// Service record state
pub const SERVICE_RECORD_STATE: u16 = 0x0002;
/// Service ID
pub const SERVICE_ID: u16 = 0x0003;
/// Protocol descriptor list
pub const PROTOCOL_DESCRIPTOR_LIST: u16 = 0x0004;
/// Browse group list
pub const BROWSE_GROUP_LIST: u16 = 0x0005;
/// Language base attribute ID list
pub const LANGUAGE_BASE_ATTRIBUTE_ID_LIST: u16 = 0x0006;
/// Service info time to live
pub const SERVICE_INFO_TIME_TO_LIVE: u16 = 0x0007;
/// Service availability
pub const SERVICE_AVAILABILITY: u16 = 0x0008;
/// Bluetooth profile descriptor list
pub const BLUETOOTH_PROFILE_DESCRIPTOR_LIST: u16 = 0x0009;
/// Documentation URL
pub const DOCUMENTATION_URL: u16 = 0x000A;
/// Client executable URL
pub const CLIENT_EXECUTABLE_URL: u16 = 0x000B;
/// Icon URL
pub const ICON_URL: u16 = 0x000C;
/// Additional protocol descriptor lists
pub const ADDITIONAL_PROTOCOL_DESCRIPTOR_LISTS: u16 = 0x000D;

/// Service name offset (from a language base)
pub const SERVICE_NAME_OFFSET: u16 = 0x0000;
/// Service description offset
pub const SERVICE_DESCRIPTION_OFFSET: u16 = 0x0001;
/// Provider name offset
pub const PROVIDER_NAME_OFFSET: u16 = 0x0002;

/// Default language base (English)
pub const PRIMARY_LANGUAGE_BASE: u16 = 0x0100;

} // verus!
