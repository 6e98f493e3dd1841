//! Well-known security-provider, object, authority and method identifiers.
//!
//! Every identifier on the wire is an 8-byte value, sent as a byte-string
//! atom.  This module is the one place magic numbers live: a pure,
//! read-only lookup table, so the set of security providers, credential
//! rows and methods the library speaks is explicit and auditable.  An
//! unknown name cannot be asked for: the lookup functions take closed
//! enums, so a missing identifier is a build error, never a runtime one.

use vstd::prelude::*;

verus! {

/// An 8-byte identifier of a security provider, table row, authority or
/// method, held as its integer value and laid out big-endian on the wire.
#[derive(Debug, Clone, Copy, PartialEq, Eq, Structural)]
pub struct Uid {
    pub value: u64,
}

/// The security providers this library opens sessions against.
#[derive(Debug, Clone, Copy, PartialEq, Eq, Structural)]
pub enum SpName {
    Admin,
    Locking,
}

/// The remote methods this library invokes.
#[derive(Debug, Clone, Copy, PartialEq, Eq, Structural)]
pub enum MethodName {
    StartSession,
    SyncSession,
    Get,
    SetValues,
    Authenticate,
}

/// The credential rows a caller may authenticate against.
#[derive(Debug, Clone, Copy, PartialEq, Eq, Structural)]
pub enum AuthorityName {
    Sid,
    Admin1,
    User1,
}

pub open spec fn spec_sp(name: SpName) -> Uid {
    match name {
        SpName::Admin => Uid { value: 0x0000_0205_0000_0001 },
        SpName::Locking => Uid { value: 0x0000_0205_0000_0002 },
    }
}

pub open spec fn spec_method(name: MethodName) -> Uid {
    match name {
        MethodName::StartSession => Uid { value: 0x0000_0000_0000_FF02 },
        MethodName::SyncSession => Uid { value: 0x0000_0000_0000_FF03 },
        MethodName::Get => Uid { value: 0x0000_0006_0000_0016 },
        MethodName::SetValues => Uid { value: 0x0000_0006_0000_0017 },
        MethodName::Authenticate => Uid { value: 0x0000_0006_0000_001C },
    }
}

pub open spec fn spec_authority(name: AuthorityName) -> Uid {
    match name {
        AuthorityName::Sid => Uid { value: 0x0000_0009_0000_0006 },
        AuthorityName::Admin1 => Uid { value: 0x0000_0009_0001_0001 },
        AuthorityName::User1 => Uid { value: 0x0000_0009_0003_0001 },
    }
}

/// The session-manager row that session start-up methods are invoked on.
pub open spec fn spec_session_manager() -> Uid {
    Uid { value: 0x0000_0000_0000_00FF }
}

/// The "this SP" row that in-session methods are invoked on.
pub open spec fn spec_this_sp() -> Uid {
    Uid { value: 0x0000_0000_0000_0001 }
}

/// The global locking range row.
pub open spec fn spec_global_range() -> Uid {
    Uid { value: 0x0000_0802_0000_0001 }
}

pub fn sp(name: SpName) -> (r: Uid)
    ensures
        r == spec_sp(name),
{
    match name {
        SpName::Admin => Uid { value: 0x0000_0205_0000_0001 },
        SpName::Locking => Uid { value: 0x0000_0205_0000_0002 },
    }
}

pub fn method(name: MethodName) -> (r: Uid)
    ensures
        r == spec_method(name),
{
    match name {
        MethodName::StartSession => Uid { value: 0x0000_0000_0000_FF02 },
        MethodName::SyncSession => Uid { value: 0x0000_0000_0000_FF03 },
        MethodName::Get => Uid { value: 0x0000_0006_0000_0016 },
        MethodName::SetValues => Uid { value: 0x0000_0006_0000_0017 },
        MethodName::Authenticate => Uid { value: 0x0000_0006_0000_001C },
    }
}

pub fn authority(name: AuthorityName) -> (r: Uid)
    ensures
        r == spec_authority(name),
{
    match name {
        AuthorityName::Sid => Uid { value: 0x0000_0009_0000_0006 },
        AuthorityName::Admin1 => Uid { value: 0x0000_0009_0001_0001 },
        AuthorityName::User1 => Uid { value: 0x0000_0009_0003_0001 },
    }
}

pub fn session_manager() -> (r: Uid)
    ensures
        r == spec_session_manager(),
{
    Uid { value: 0x0000_0000_0000_00FF }
}

pub fn this_sp() -> (r: Uid)
    ensures
        r == spec_this_sp(),
{
    Uid { value: 0x0000_0000_0000_0001 }
}

pub fn global_range() -> (r: Uid)
    ensures
        r == spec_global_range(),
{
    Uid { value: 0x0000_0802_0000_0001 }
}

/// Column number of the read-lock bit in a locking-range row.
pub const COL_READ_LOCKED: u64 = 7;

/// Column number of the write-lock bit in a locking-range row.
pub const COL_WRITE_LOCKED: u64 = 8;

/// Named key of the start-column field of a read request.
pub const KEY_START_COLUMN: u64 = 3;

/// Named key of the end-column field of a read request.
pub const KEY_END_COLUMN: u64 = 4;

/// Named key of the values list of a write request.
pub const KEY_VALUES: u64 = 1;

} // verus!
