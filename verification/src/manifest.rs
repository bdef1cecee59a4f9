//! The manifest of FFI mode: which symbols start and stop the runtime,
//! the field order and signature kind of the callback struct, and the
//! lanes and ops that stdin may call. The manifest describes shapes only;
//! nothing in it is specific to one application.

use vstd::prelude::*;

verus! {

/// The manifest layout this probe reads.
pub const MANIFEST_SCHEMA_VERSION: u32 = 2;

/// The most fields a callback struct may have; one trampoline of each
/// kind exists per field position.
pub const MAX_CALLBACK_FIELDS: usize = 64;

/// Signature kind of one callback field.
#[derive(Clone, Copy, Debug, PartialEq, Eq, Structural)]
pub enum CallbackKind {
    /// `(json: *const u8, len: usize, user: *mut c_void)`.
    Json,
    /// `(sid: *const c_char, json: *const u8, len: usize, user: *mut c_void)`.
    JsonWithSid,
    /// `(sid: *const c_char, seq: u64, bytes: *const u8, len: usize, user: *mut c_void)`.
    RawWithSeq,
}

/// Argument shape of an ad-hoc op.
#[derive(Clone, Copy, Debug, PartialEq, Eq, Structural)]
pub enum OpKind {
    /// `(handle, *const c_char) -> i32`.
    HandleCstr,
    /// `(handle) -> i32`.
    HandleOnly,
}

/// The symbols that start and stop the runtime.
pub struct Lifecycle {
    /// Returns a handle: `(*const callbacks_struct, *mut user) -> *mut handle`.
    pub start_symbol: String,
    /// Releases a handle: `(*mut handle) -> ()`.
    pub stop_symbol: String,
}

/// One field of the callback struct, in declaration order.
pub struct CallbackField {
    /// Label of the events this callback produces.
    pub name: String,
    pub kind: CallbackKind,
}

/// A send lane: `(handle, json_ptr, json_len) -> i32`.
pub struct Lane {
    /// The `lane` name stdin uses.
    pub name: String,
    pub symbol: String,
}

/// An ad-hoc op.
pub struct Op {
    /// The `name` stdin uses.
    pub name: String,
    pub symbol: String,
    pub kind: OpKind,
}

/// A manifest as read from its JSON file.
pub struct Manifest {
    pub schema_version: u32,
    /// Optional label echoed in control output.
    pub label: Option<String>,
    pub lifecycle: Lifecycle,
    pub callback_struct: Vec<CallbackField>,
    pub lanes: Vec<Lane>,
    pub ops: Vec<Op>,
}

/// Why a manifest is refused.
#[derive(Clone, Copy, Debug, PartialEq, Eq, Structural)]
pub enum ManifestError {
    /// Schema 1 passed the callback struct by value; that ABI is gone.
    RemovedByValueStart,
    /// Any other schema version but the supported one.
    UnsupportedVersion { found: u32, expected: u32 },
    /// More callback fields than there are trampolines.
    TooManyCallbackFields { count: usize, limit: usize },
}

/// The verdict on a manifest with this schema version and this many
/// callback fields: the version is checked first.
pub open spec fn check_spec(schema_version: u32, fields: nat) -> Result<(), ManifestError> {
    if schema_version != MANIFEST_SCHEMA_VERSION {
        if schema_version == 1 {
            Err(ManifestError::RemovedByValueStart)
        } else {
            Err(
                ManifestError::UnsupportedVersion {
                    found: schema_version,
                    expected: MANIFEST_SCHEMA_VERSION,
                },
            )
        }
    } else if fields > MAX_CALLBACK_FIELDS {
        Err(ManifestError::TooManyCallbackFields { count: fields as usize, limit: MAX_CALLBACK_FIELDS })
    } else {
        Ok(())
    }
}

/// Accepts a parsed manifest that this probe can drive.
pub fn check(manifest: &Manifest) -> (r: Result<(), ManifestError>)
    ensures
        r == check_spec(manifest.schema_version, manifest.callback_struct@.len()),
{
    if manifest.schema_version != MANIFEST_SCHEMA_VERSION {
        if manifest.schema_version == 1 {
            return Err(ManifestError::RemovedByValueStart);
        }
        return Err(
            ManifestError::UnsupportedVersion {
                found: manifest.schema_version,
                expected: MANIFEST_SCHEMA_VERSION,
            },
        );
    }
    if manifest.callback_struct.len() > MAX_CALLBACK_FIELDS {
        return Err(
            ManifestError::TooManyCallbackFields {
                count: manifest.callback_struct.len(),
                limit: MAX_CALLBACK_FIELDS,
            },
        );
    }
    Ok(())
}

/// A manifest is accepted exactly when it has the supported schema version
/// and at most as many callback fields as there are trampolines.
pub proof fn law_manifest_accepted(schema_version: u32, fields: nat)
    ensures
        check_spec(schema_version, fields) is Ok <==> (schema_version == MANIFEST_SCHEMA_VERSION
            && fields <= MAX_CALLBACK_FIELDS),
{
}

} // verus!
