//! The systemd definition reader and the product-input and kernel-requirement
//! schemas: what systemd would refuse, what the recorded requirements do not
//! accept, and the bounded field types the schemas are built from.

pub mod canonical;
pub mod error;
pub mod field;
pub mod finding;
pub mod kernel;
pub mod manifest;
pub mod payload;
pub mod repart;
pub mod size;
pub mod sysupdate;
pub mod unit;

pub use self::error::DefinitionError;
pub use self::field::FieldError;
pub use self::finding::{Finding, MAX_FINDINGS};
pub use self::repart::{
    ESP_TYPE, KNOWN_KEYS, MAX_DEFINITIONS, PARTITION_SECTION, ROOT_TYPE, RepartDefinition,
    VAR_TYPE, check_repart_set,
};
pub use self::size::{
    ESP_MAX_BYTES, ESP_MIN_BYTES, GIBIBYTE, KIBIBYTE, MAX_SIZE_DIGITS, MEBIBYTE, parse_size,
};
pub use self::sysupdate::{
    AB_INSTANCES, SOURCE_KEYS, SOURCE_SECTION, TARGET_KEYS, TARGET_SECTION, TRANSFER_KEYS,
    TRANSFER_SECTION, TransferDefinition,
};
pub use self::unit::{Entry, MAX_ENTRIES, MAX_LINE_BYTES, MAX_LINES, MAX_SECTIONS, UnitFile};

use vstd::prelude::*;

verus! {

/// The contract version the reviewed definitions are read under. It changes
/// when a key vocabulary or a finding rule changes.
pub const CONTRACT_VERSION: u32 = 1;

} // verus!
