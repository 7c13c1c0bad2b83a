//! CAN identifiers.

use vstd::prelude::*;

verus! {

/// The largest 11-bit identifier.
pub const MAX_STANDARD: u16 = 0x7FF;

/// The largest 29-bit identifier.
pub const MAX_EXTENDED: u32 = 0x1FFF_FFFF;

/// `embedded_can::StandardId::new`, with the identifier it makes read back by
/// `embedded_can::StandardId::as_raw`: a raw value is accepted, and kept as it is, exactly when it
/// fits in 11 bits.
#[verifier::external_body]
fn checked_standard(raw: u16) -> (r: Option<u16>)
    ensures
        r == (if raw <= 0x7FF { Some(raw) } else { None::<u16> }),
{
    embedded_can::StandardId::new(raw).map(|id| id.as_raw())
}

/// `embedded_can::ExtendedId::new`, with the identifier it makes read back by
/// `embedded_can::ExtendedId::as_raw`: a raw value is accepted, and kept as it is, exactly when it
/// fits in 29 bits.
#[verifier::external_body]
fn checked_extended(raw: u32) -> (r: Option<u32>)
    ensures
        r == (if raw <= 0x1FFF_FFFF { Some(raw) } else { None::<u32> }),
{
    embedded_can::ExtendedId::new(raw).map(|id| id.as_raw())
}

/// Standard 11-bit identifier.
#[derive(Debug, Clone, Copy, PartialEq, Eq, Structural)]
pub struct StandardId {
    raw: u16,
}

/// Extended 29-bit identifier.
#[derive(Debug, Clone, Copy, PartialEq, Eq, Structural)]
pub struct ExtendedId {
    raw: u32,
}

/// A CAN identifier.
#[derive(Debug, Clone, Copy, PartialEq, Eq, Structural)]
pub enum Id {
    /// Standard 11-bit identifier.
    Standard(StandardId),
    /// Extended 29-bit identifier.
    Extended(ExtendedId),
}

/// Alias for a CAN identifier.
pub type CanId = Id;

impl View for StandardId {
    type V = u16;

    closed spec fn view(&self) -> u16 {
        self.raw
    }
}

impl View for ExtendedId {
    type V = u32;

    closed spec fn view(&self) -> u32 {
        self.raw
    }
}

impl StandardId {
    #[verifier::type_invariant]
    spec fn in_range(self) -> bool {
        self.raw <= MAX_STANDARD
    }

    /// The identifier with the given raw value.
    pub closed spec fn of(raw: u16) -> StandardId {
        StandardId { raw }
    }

    /// An identifier is given by its raw value.
    pub broadcast proof fn lemma_of(raw: u16)
        ensures
            (#[trigger] StandardId::of(raw))@ == raw,
    {
    }

    /// The identifier with the given raw value, if it is in range.
    pub open spec fn spec_new(raw: u16) -> Option<StandardId> {
        if raw <= MAX_STANDARD {
            Some(StandardId::of(raw))
        } else {
            None
        }
    }

    /// The identifier with the raw value `raw`, if it fits in 11 bits.
    pub fn new(raw: u16) -> (r: Option<StandardId>)
        ensures
            r == (if raw <= MAX_STANDARD { Some(StandardId::of(raw)) } else { None }),
            r == StandardId::spec_new(raw),
            r matches Some(id) ==> id@ == raw,
    {
        match checked_standard(raw) {
            Some(raw) => Some(StandardId { raw }),
            None => None,
        }
    }

    /// The raw value.
    pub fn as_raw(&self) -> (r: u16)
        ensures
            r == self@,
            r <= MAX_STANDARD,
            *self == StandardId::of(r),
    {
        proof {
            use_type_invariant(self);
        }
        self.raw
    }
}

impl ExtendedId {
    #[verifier::type_invariant]
    spec fn in_range(self) -> bool {
        self.raw <= MAX_EXTENDED
    }

    /// The identifier with the given raw value.
    pub closed spec fn of(raw: u32) -> ExtendedId {
        ExtendedId { raw }
    }

    /// An identifier is given by its raw value.
    pub broadcast proof fn lemma_of(raw: u32)
        ensures
            (#[trigger] ExtendedId::of(raw))@ == raw,
    {
    }

    /// The identifier with the given raw value, if it is in range.
    pub open spec fn spec_new(raw: u32) -> Option<ExtendedId> {
        if raw <= MAX_EXTENDED {
            Some(ExtendedId::of(raw))
        } else {
            None
        }
    }

    /// The identifier with the raw value `raw`, if it fits in 29 bits.
    pub fn new(raw: u32) -> (r: Option<ExtendedId>)
        ensures
            r == (if raw <= MAX_EXTENDED { Some(ExtendedId::of(raw)) } else { None }),
            r == ExtendedId::spec_new(raw),
            r matches Some(id) ==> id@ == raw,
    {
        match checked_extended(raw) {
            Some(raw) => Some(ExtendedId { raw }),
            None => None,
        }
    }

    /// The raw value.
    pub fn as_raw(&self) -> (r: u32)
        ensures
            r == self@,
            r <= MAX_EXTENDED,
            *self == ExtendedId::of(r),
    {
        proof {
            use_type_invariant(self);
        }
        self.raw
    }
}

/// Whether a frame with the identifier `actual` is meant for the identifier `expected`: same
/// format, same value.
pub fn id_matches(actual: Id, expected: &Id) -> (r: bool)
    ensures
        r == (actual == *expected),
{
    match (actual, expected) {
        (Id::Standard(a), Id::Standard(b)) => a == *b,
        (Id::Extended(a), Id::Extended(b)) => a == *b,
        _ => false,
    }
}

/// Exactly the values below 2 to the power of 11, and of 29, are identifiers, each with its own value;
/// the two formats have no identifier in common.
pub proof fn law_identifiers(raw: u16, wide: u32)
    ensures
        match StandardId::spec_new(raw) {
            Some(id) => raw < 2048 && id@ == raw,
            None => raw >= 2048,
        },
        match ExtendedId::spec_new(wide) {
            Some(id) => wide < 536_870_912 && id@ == wide,
            None => wide >= 536_870_912,
        },
        Id::Standard(StandardId::of(raw)) != Id::Extended(ExtendedId::of(wide)),
{
}

} // verus!
