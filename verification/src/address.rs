//! Helpers for ISO-TP addressing modes.

use crate::config::IsoTpConfig;
use crate::errors::IsoTpError;
use crate::id::{ExtendedId, Id, MAX_EXTENDED};
use vstd::prelude::*;
use vstd::std_specs::convert::FromSpec;

verus! {

/// Address type used in 29-bit fixed/mixed addressing.
#[derive(Debug, Clone, Copy, PartialEq, Eq, Structural)]
pub enum TargetAddressType {
    /// 1-to-1 communication (physical addressing).
    Physical,
    /// 1-to-n communication (functional addressing).
    Functional,
}

/// Transmit addressing parameters (CAN ID + optional first payload byte).
#[derive(Debug, Clone, Copy, PartialEq, Eq, Structural)]
pub struct TxAddress {
    pub id: Id,
    pub addr: Option<u8>,
}

/// Receive addressing parameters (CAN ID + optional expected first payload byte).
#[derive(Debug, Clone, Copy, PartialEq, Eq, Structural)]
pub struct RxAddress {
    pub id: Id,
    pub addr: Option<u8>,
}

/// Combine a transmit and receive addressing scheme (asymmetric addressing).
#[derive(Debug, Clone, Copy, PartialEq, Eq, Structural)]
pub struct AsymmetricAddress {
    pub tx: TxAddress,
    pub rx: RxAddress,
}

/// Addressing parameters for a single ISO-TP node.
#[derive(Debug, Clone, Copy, PartialEq, Eq, Structural)]
pub struct IsoTpAddress {
    pub tx_id: Id,
    pub rx_id: Id,
    pub tx_addr: Option<u8>,
    pub rx_addr: Option<u8>,
}

/// The high half of the identifiers of normal fixed addressing.
pub open spec fn normal_fixed_base(target_type: TargetAddressType) -> int {
    match target_type {
        TargetAddressType::Physical => 0x18DA,
        TargetAddressType::Functional => 0x18DB,
    }
}

/// The high half of the identifiers of 29-bit mixed addressing.
pub open spec fn mixed_base(target_type: TargetAddressType) -> int {
    match target_type {
        TargetAddressType::Physical => 0x18CE,
        TargetAddressType::Functional => 0x18CD,
    }
}

/// The 29-bit identifier of a frame that goes from node `from` to node `to`: the high half, then
/// the receiver's address, then the sender's.
pub open spec fn fixed_id(base: int, to: u8, from: u8) -> Id {
    Id::Extended(ExtendedId::of((base * 0x1_0000 + to * 0x100 + from) as u32))
}

/// The extended identifier with the given raw value, or an error.
pub open spec fn spec_ext_id(raw: u32) -> Result<Id, IsoTpError<()>> {
    match ExtendedId::spec_new(raw) {
        Some(id) => Ok(Id::Extended(id)),
        None => Err(IsoTpError::InvalidConfig),
    }
}

/// The extended identifier with the raw value `raw`.
pub fn ext_id(raw: u32) -> (r: Result<Id, IsoTpError<()>>)
    ensures
        r == (if raw <= MAX_EXTENDED {
            Ok(Id::Extended(ExtendedId::of(raw)))
        } else {
            Err(IsoTpError::<()>::InvalidConfig)
        }),
        r == spec_ext_id(raw),
{
    match ExtendedId::new(raw) {
        Some(id) => Ok(Id::Extended(id)),
        None => Err(IsoTpError::InvalidConfig),
    }
}

/// The one of two bases that belongs to the address type.
pub fn fixed_base(
    target_type: TargetAddressType,
    physical_base: u32,
    functional_base: u32,
) -> (r: u32)
    ensures
        r == (match target_type {
            TargetAddressType::Physical => physical_base,
            TargetAddressType::Functional => functional_base,
        }),
{
    match target_type {
        TargetAddressType::Physical => physical_base,
        TargetAddressType::Functional => functional_base,
    }
}

/// Put an identifier together from its base and the two address bytes.
fn fixed_raw(base: u32, to: u8, from: u8) -> (r: u32)
    requires
        base % 0x1_0000 == 0,
        base <= 0x1FFF_0000,
    ensures
        r == base + to * 0x100 + from,
        r <= MAX_EXTENDED,
{
    assert(base | ((to as u32) << 8) | (from as u32) == base + to * 0x100 + from) by (bit_vector)
        requires
            base % 0x1_0000 == 0,
            base <= 0x1FFF_0000,
    ;
    base | ((to as u32) << 8) | from as u32
}

impl TxAddress {
    /// Normal addressing.
    pub open spec fn spec_normal(id: Id) -> TxAddress {
        TxAddress { id, addr: None }
    }

    /// Extended addressing.
    pub open spec fn spec_extended(id: Id, target_address: u8) -> TxAddress {
        TxAddress { id, addr: Some(target_address) }
    }

    /// 11-bit mixed addressing.
    pub open spec fn spec_mixed_11(id: Id, address_extension: u8) -> TxAddress {
        TxAddress { id, addr: Some(address_extension) }
    }

    /// Normal fixed addressing.
    pub open spec fn spec_normal_fixed_29(
        source_address: u8,
        target_address: u8,
        target_type: TargetAddressType,
    ) -> TxAddress {
        TxAddress {
            id: fixed_id(normal_fixed_base(target_type), target_address, source_address),
            addr: None,
        }
    }

    /// 29-bit mixed addressing.
    pub open spec fn spec_mixed_29(
        source_address: u8,
        target_address: u8,
        address_extension: u8,
        target_type: TargetAddressType,
    ) -> TxAddress {
        TxAddress {
            id: fixed_id(mixed_base(target_type), target_address, source_address),
            addr: Some(address_extension),
        }
    }

    /// Normal addressing: the identifier alone.
    pub fn normal(id: Id) -> (r: TxAddress)
        ensures
            r == (TxAddress { id, addr: None }),
            r == TxAddress::spec_normal(id),
    {
        TxAddress { id, addr: None }
    }

    /// Extended addressing: the target's address is the first payload byte.
    pub fn extended(id: Id, target_address: u8) -> (r: TxAddress)
        ensures
            r == (TxAddress { id, addr: Some(target_address) }),
            r == TxAddress::spec_extended(id, target_address),
    {
        TxAddress { id, addr: Some(target_address) }
    }

    /// 11-bit mixed addressing: the address extension is the first payload byte.
    pub fn mixed_11(id: Id, address_extension: u8) -> (r: TxAddress)
        ensures
            r == (TxAddress { id, addr: Some(address_extension) }),
            r == TxAddress::spec_mixed_11(id, address_extension),
    {
        TxAddress { id, addr: Some(address_extension) }
    }

    /// Normal fixed addressing: both addresses are in the 29-bit identifier.
    pub fn normal_fixed_29(
        source_address: u8,
        target_address: u8,
        target_type: TargetAddressType,
    ) -> (r: Result<TxAddress, IsoTpError<()>>)
        ensures
            r == Ok::<TxAddress, IsoTpError<()>>(
                TxAddress {
                    id: fixed_id(normal_fixed_base(target_type), target_address, source_address),
                    addr: None,
                },
            ),
            r == Ok::<TxAddress, IsoTpError<()>>(
                TxAddress::spec_normal_fixed_29(source_address, target_address, target_type),
            ),
    {
        let base = fixed_base(target_type, 0x18DA0000, 0x18DB0000);
        let raw = fixed_raw(base, target_address, source_address);
        Ok(TxAddress { id: ext_id(raw)?, addr: None })
    }

    /// 29-bit mixed addressing: both addresses are in the identifier, the address extension is the
    /// first payload byte.
    pub fn mixed_29(
        source_address: u8,
        target_address: u8,
        address_extension: u8,
        target_type: TargetAddressType,
    ) -> (r: Result<TxAddress, IsoTpError<()>>)
        ensures
            r == Ok::<TxAddress, IsoTpError<()>>(
                TxAddress {
                    id: fixed_id(mixed_base(target_type), target_address, source_address),
                    addr: Some(address_extension),
                },
            ),
            r == Ok::<TxAddress, IsoTpError<()>>(
                TxAddress::spec_mixed_29(
                    source_address,
                    target_address,
                    address_extension,
                    target_type,
                ),
            ),
    {
        let base = fixed_base(target_type, 0x18CE0000, 0x18CD0000);
        let raw = fixed_raw(base, target_address, source_address);
        Ok(TxAddress { id: ext_id(raw)?, addr: Some(address_extension) })
    }
}

impl RxAddress {
    /// Normal addressing.
    pub open spec fn spec_normal(id: Id) -> RxAddress {
        RxAddress { id, addr: None }
    }

    /// Extended addressing.
    pub open spec fn spec_extended(id: Id, source_address: u8) -> RxAddress {
        RxAddress { id, addr: Some(source_address) }
    }

    /// 11-bit mixed addressing.
    pub open spec fn spec_mixed_11(id: Id, address_extension: u8) -> RxAddress {
        RxAddress { id, addr: Some(address_extension) }
    }

    /// Normal fixed addressing.
    pub open spec fn spec_normal_fixed_29(
        source_address: u8,
        target_address: u8,
        target_type: TargetAddressType,
    ) -> RxAddress {
        RxAddress {
            id: fixed_id(normal_fixed_base(target_type), source_address, target_address),
            addr: None,
        }
    }

    /// 29-bit mixed addressing.
    pub open spec fn spec_mixed_29(
        source_address: u8,
        target_address: u8,
        address_extension: u8,
        target_type: TargetAddressType,
    ) -> RxAddress {
        RxAddress {
            id: fixed_id(mixed_base(target_type), source_address, target_address),
            addr: Some(address_extension),
        }
    }

    /// Normal addressing: the identifier alone.
    pub fn normal(id: Id) -> (r: RxAddress)
        ensures
            r == (RxAddress { id, addr: None }),
            r == RxAddress::spec_normal(id),
    {
        RxAddress { id, addr: None }
    }

    /// Extended addressing: this node's address is the first payload byte.
    pub fn extended(id: Id, source_address: u8) -> (r: RxAddress)
        ensures
            r == (RxAddress { id, addr: Some(source_address) }),
            r == RxAddress::spec_extended(id, source_address),
    {
        RxAddress { id, addr: Some(source_address) }
    }

    /// 11-bit mixed addressing: the address extension is the first payload byte.
    pub fn mixed_11(id: Id, address_extension: u8) -> (r: RxAddress)
        ensures
            r == (RxAddress { id, addr: Some(address_extension) }),
            r == RxAddress::spec_mixed_11(id, address_extension),
    {
        RxAddress { id, addr: Some(address_extension) }
    }

    /// Normal fixed addressing: frames from the target to this node.
    pub fn normal_fixed_29(
        source_address: u8,
        target_address: u8,
        target_type: TargetAddressType,
    ) -> (r: Result<RxAddress, IsoTpError<()>>)
        ensures
            r == Ok::<RxAddress, IsoTpError<()>>(
                RxAddress {
                    id: fixed_id(normal_fixed_base(target_type), source_address, target_address),
                    addr: None,
                },
            ),
            r == Ok::<RxAddress, IsoTpError<()>>(
                RxAddress::spec_normal_fixed_29(source_address, target_address, target_type),
            ),
    {
        let base = fixed_base(target_type, 0x18DA0000, 0x18DB0000);
        let raw = fixed_raw(base, source_address, target_address);
        Ok(RxAddress { id: ext_id(raw)?, addr: None })
    }

    /// 29-bit mixed addressing: frames from the target to this node.
    pub fn mixed_29(
        source_address: u8,
        target_address: u8,
        address_extension: u8,
        target_type: TargetAddressType,
    ) -> (r: Result<RxAddress, IsoTpError<()>>)
        ensures
            r == Ok::<RxAddress, IsoTpError<()>>(
                RxAddress {
                    id: fixed_id(mixed_base(target_type), source_address, target_address),
                    addr: Some(address_extension),
                },
            ),
            r == Ok::<RxAddress, IsoTpError<()>>(
                RxAddress::spec_mixed_29(
                    source_address,
                    target_address,
                    address_extension,
                    target_type,
                ),
            ),
    {
        let base = fixed_base(target_type, 0x18CE0000, 0x18CD0000);
        let raw = fixed_raw(base, source_address, target_address);
        Ok(RxAddress { id: ext_id(raw)?, addr: Some(address_extension) })
    }
}

impl AsymmetricAddress {
    /// Two one-way schemes together.
    pub open spec fn spec_new(tx: TxAddress, rx: RxAddress) -> AsymmetricAddress {
        AsymmetricAddress { tx, rx }
    }

    /// Put two one-way schemes together.
    pub fn new(tx: TxAddress, rx: RxAddress) -> (r: AsymmetricAddress)
        ensures
            r == (AsymmetricAddress { tx, rx }),
            r == AsymmetricAddress::spec_new(tx, rx),
    {
        AsymmetricAddress { tx, rx }
    }
}

impl From<AsymmetricAddress> for IsoTpAddress {
    fn from(value: AsymmetricAddress) -> (r: IsoTpAddress) {
        IsoTpAddress {
            tx_id: value.tx.id,
            rx_id: value.rx.id,
            tx_addr: value.tx.addr,
            rx_addr: value.rx.addr,
        }
    }
}

impl vstd::std_specs::convert::FromSpecImpl<AsymmetricAddress> for IsoTpAddress {
    open spec fn obeys_from_spec() -> bool {
        true
    }

    open spec fn from_spec(value: AsymmetricAddress) -> IsoTpAddress {
        IsoTpAddress {
            tx_id: value.tx.id,
            rx_id: value.rx.id,
            tx_addr: value.tx.addr,
            rx_addr: value.rx.addr,
        }
    }
}

impl IsoTpAddress {
    /// Normal addressing.
    pub open spec fn spec_normal(tx_id: Id, rx_id: Id) -> IsoTpAddress {
        IsoTpAddress { tx_id, rx_id, tx_addr: None, rx_addr: None }
    }

    /// Extended addressing.
    pub open spec fn spec_extended(
        tx_id: Id,
        rx_id: Id,
        source_address: u8,
        target_address: u8,
    ) -> IsoTpAddress {
        IsoTpAddress {
            tx_id,
            rx_id,
            tx_addr: Some(target_address),
            rx_addr: Some(source_address),
        }
    }

    /// 11-bit mixed addressing.
    pub open spec fn spec_mixed_11(
        tx_id: Id,
        rx_id: Id,
        address_extension: u8,
    ) -> IsoTpAddress {
        IsoTpAddress {
            tx_id,
            rx_id,
            tx_addr: Some(address_extension),
            rx_addr: Some(address_extension),
        }
    }

    /// Normal addressing in both directions.
    pub fn normal(tx_id: Id, rx_id: Id) -> (r: IsoTpAddress)
        ensures
            r == (IsoTpAddress { tx_id, rx_id, tx_addr: None, rx_addr: None }),
            r == IsoTpAddress::spec_normal(tx_id, rx_id),
    {
        IsoTpAddress { tx_id, rx_id, tx_addr: None, rx_addr: None }
    }

    /// Extended addressing in both directions: frames carry the address of their receiver.
    pub fn extended(
        tx_id: Id,
        rx_id: Id,
        source_address: u8,
        target_address: u8,
    ) -> (r: IsoTpAddress)
        ensures
            r == (IsoTpAddress {
                tx_id,
                rx_id,
                tx_addr: Some(target_address),
                rx_addr: Some(source_address),
            }),
            r == IsoTpAddress::spec_extended(tx_id, rx_id, source_address, target_address),
    {
        IsoTpAddress {
            tx_id,
            rx_id,
            tx_addr: Some(target_address),
            rx_addr: Some(source_address),
        }
    }

    /// 11-bit mixed addressing: one address extension for both directions.
    pub fn mixed_11(tx_id: Id, rx_id: Id, address_extension: u8) -> (r: IsoTpAddress)
        ensures
            r == (IsoTpAddress {
                tx_id,
                rx_id,
                tx_addr: Some(address_extension),
                rx_addr: Some(address_extension),
            }),
            r == IsoTpAddress::spec_mixed_11(tx_id, rx_id, address_extension),
    {
        IsoTpAddress {
            tx_id,
            rx_id,
            tx_addr: Some(address_extension),
            rx_addr: Some(address_extension),
        }
    }

    /// The addresses of a node under normal fixed addressing.
    pub open spec fn spec_normal_fixed_29(
        source_address: u8,
        target_address: u8,
        target_type: TargetAddressType,
    ) -> IsoTpAddress {
        let base = normal_fixed_base(target_type);
        IsoTpAddress {
            tx_id: fixed_id(base, target_address, source_address),
            rx_id: fixed_id(base, source_address, target_address),
            tx_addr: None,
            rx_addr: None,
        }
    }

    /// Normal fixed addressing in both directions.
    pub fn normal_fixed_29(
        source_address: u8,
        target_address: u8,
        target_type: TargetAddressType,
    ) -> (r: Result<IsoTpAddress, IsoTpError<()>>)
        ensures
            r == Ok::<IsoTpAddress, IsoTpError<()>>(
                IsoTpAddress::spec_normal_fixed_29(source_address, target_address, target_type),
            ),
    {
        Ok(
            IsoTpAddress::from(
                AsymmetricAddress::new(
                    TxAddress::normal_fixed_29(source_address, target_address, target_type)?,
                    RxAddress::normal_fixed_29(source_address, target_address, target_type)?,
                ),
            ),
        )
    }

    /// The addresses of a node under 29-bit mixed addressing.
    pub open spec fn spec_mixed_29(
        source_address: u8,
        target_address: u8,
        address_extension: u8,
        target_type: TargetAddressType,
    ) -> IsoTpAddress {
        let base = mixed_base(target_type);
        IsoTpAddress {
            tx_id: fixed_id(base, target_address, source_address),
            rx_id: fixed_id(base, source_address, target_address),
            tx_addr: Some(address_extension),
            rx_addr: Some(address_extension),
        }
    }

    /// 29-bit mixed addressing in both directions.
    pub fn mixed_29(
        source_address: u8,
        target_address: u8,
        address_extension: u8,
        target_type: TargetAddressType,
    ) -> (r: Result<IsoTpAddress, IsoTpError<()>>)
        ensures
            r == Ok::<IsoTpAddress, IsoTpError<()>>(
                IsoTpAddress::spec_mixed_29(
                    source_address,
                    target_address,
                    address_extension,
                    target_type,
                ),
            ),
    {
        Ok(
            IsoTpAddress::from(
                AsymmetricAddress::new(
                    TxAddress::mixed_29(
                        source_address,
                        target_address,
                        address_extension,
                        target_type,
                    )?,
                    RxAddress::mixed_29(
                        source_address,
                        target_address,
                        address_extension,
                        target_type,
                    )?,
                ),
            ),
        )
    }
}

impl From<IsoTpAddress> for IsoTpConfig {
    fn from(value: IsoTpAddress) -> (r: IsoTpConfig) {
        IsoTpConfig {
            tx_id: value.tx_id,
            rx_id: value.rx_id,
            tx_addr: value.tx_addr,
            rx_addr: value.rx_addr,
            ..IsoTpConfig::default()
        }
    }
}

impl vstd::std_specs::convert::FromSpecImpl<IsoTpAddress> for IsoTpConfig {
    open spec fn obeys_from_spec() -> bool {
        true
    }

    open spec fn from_spec(value: IsoTpAddress) -> IsoTpConfig {
        IsoTpConfig::baseline(value.tx_id, value.rx_id, value.tx_addr, value.rx_addr)
    }
}

/// Under normal fixed addressing two nodes that name each other hear each other: what one sends is
/// what the other listens for, and the other way round.
pub proof fn law_normal_fixed_29_peers(a: u8, b: u8, target_type: TargetAddressType)
    ensures
        ({
            let here = IsoTpAddress::spec_normal_fixed_29(a, b, target_type);
            let there = IsoTpAddress::spec_normal_fixed_29(b, a, target_type);
            &&& here.tx_id == there.rx_id
            &&& here.rx_id == there.tx_id
            &&& here.tx_addr == there.rx_addr
            &&& here.rx_addr == there.tx_addr
        }),
{
}

/// Under 29-bit mixed addressing two nodes that name each other, with one address extension, hear
/// each other.
pub proof fn law_mixed_29_peers(a: u8, b: u8, extension: u8, target_type: TargetAddressType)
    ensures
        ({
            let here = IsoTpAddress::spec_mixed_29(a, b, extension, target_type);
            let there = IsoTpAddress::spec_mixed_29(b, a, extension, target_type);
            &&& here.tx_id == there.rx_id
            &&& here.rx_id == there.tx_id
            &&& here.tx_addr == there.rx_addr
            &&& here.rx_addr == there.tx_addr
        }),
{
}

/// Fixed identifiers of one base tell every pair of sender and receiver apart.
pub proof fn law_fixed_id_injective(base: int, to: u8, from: u8, to2: u8, from2: u8)
    requires
        0 <= base <= 0x1FFF,
        fixed_id(base, to, from) == fixed_id(base, to2, from2),
    ensures
        to == to2,
        from == from2,
{
    broadcast use ExtendedId::lemma_of;

    let a = (base * 0x1_0000 + to * 0x100 + from) as u32;
    let b = (base * 0x1_0000 + to2 * 0x100 + from2) as u32;
    assert(fixed_id(base, to, from) == Id::Extended(ExtendedId::of(a)));
    assert(ExtendedId::of(a)@ == a && ExtendedId::of(b)@ == b);
}

/// A baseline configuration on fixed identifiers passes validation exactly when the two nodes have
/// different addresses.
pub proof fn law_fixed_config_valid(
    base: int,
    source: u8,
    target: u8,
    tx_addr: Option<u8>,
    rx_addr: Option<u8>,
)
    requires
        0 <= base <= 0x1FFF,
    ensures
        IsoTpConfig::baseline(
            fixed_id(base, target, source),
            fixed_id(base, source, target),
            tx_addr,
            rx_addr,
        ).valid() <==> source != target,
{
    if source != target {
        if fixed_id(base, target, source) == fixed_id(base, source, target) {
            law_fixed_id_injective(base, target, source, source, target);
        }
    }
}

/// The raw value of a 29-bit identifier.
pub open spec fn raw_29(id: Id) -> int {
    match id {
        Id::Extended(extended) => extended@ as int,
        Id::Standard(_) => -1,
    }
}

/// Each direction of an asymmetric address keeps its own identifier and its own address byte.
pub proof fn law_asymmetric_keeps_directions(tx: TxAddress, rx: RxAddress)
    ensures
        <IsoTpAddress as FromSpec<AsymmetricAddress>>::obeys_from_spec(),
        ({
            let both = <IsoTpAddress as FromSpec<AsymmetricAddress>>::from_spec(
                AsymmetricAddress::spec_new(tx, rx),
            );
            &&& both.tx_id == tx.id
            &&& both.tx_addr == tx.addr
            &&& both.rx_id == rx.id
            &&& both.rx_addr == rx.addr
        }),
{
}

/// Each two-way scheme is its two one-way schemes put together.
pub proof fn law_two_way_schemes(
    i: Id,
    j: Id,
    source: u8,
    target: u8,
    extension: u8,
    target_type: TargetAddressType,
)
    ensures
        ({
            let both = |tx: TxAddress, rx: RxAddress|
                <IsoTpAddress as FromSpec<AsymmetricAddress>>::from_spec(
                    AsymmetricAddress::spec_new(tx, rx),
                );
            &&& both(TxAddress::spec_normal(i), RxAddress::spec_normal(j))
                == IsoTpAddress::spec_normal(i, j)
            &&& both(TxAddress::spec_extended(i, target), RxAddress::spec_extended(j, source))
                == IsoTpAddress::spec_extended(i, j, source, target)
            &&& both(TxAddress::spec_mixed_11(i, extension), RxAddress::spec_mixed_11(j, extension))
                == IsoTpAddress::spec_mixed_11(i, j, extension)
            &&& both(
                TxAddress::spec_normal_fixed_29(source, target, target_type),
                RxAddress::spec_normal_fixed_29(source, target, target_type),
            ) == IsoTpAddress::spec_normal_fixed_29(source, target, target_type)
            &&& both(
                TxAddress::spec_mixed_29(source, target, extension, target_type),
                RxAddress::spec_mixed_29(source, target, extension, target_type),
            ) == IsoTpAddress::spec_mixed_29(source, target, extension, target_type)
        }),
{
}

/// The schemes with free identifiers keep them, and say which address byte a frame bears: none under
/// normal addressing, the address of the frame's receiver under extended addressing, the extension
/// under mixed addressing.
pub proof fn law_free_identifier_schemes(i: Id, j: Id, source: u8, target: u8, extension: u8)
    ensures
        ({
            let normal = IsoTpAddress::spec_normal(i, j);
            let extended = IsoTpAddress::spec_extended(i, j, source, target);
            let mixed = IsoTpAddress::spec_mixed_11(i, j, extension);
            &&& normal.tx_id == i && extended.tx_id == i && mixed.tx_id == i
            &&& normal.rx_id == j && extended.rx_id == j && mixed.rx_id == j
            &&& normal.tx_addr is None && normal.rx_addr is None
            &&& extended.tx_addr == Some(target) && extended.rx_addr == Some(source)
            &&& mixed.tx_addr == Some(extension) && mixed.rx_addr == Some(extension)
        }),
        ({
            let here = IsoTpAddress::spec_extended(i, j, source, target);
            let there = IsoTpAddress::spec_extended(j, i, target, source);
            &&& here.tx_id == there.rx_id && here.rx_id == there.tx_id
            &&& here.tx_addr == there.rx_addr && here.rx_addr == there.tx_addr
        }),
{
}

/// The layout of a 29-bit identifier under fixed addressing: the high half tells the scheme and the
/// address type; then come the address of the frame's receiver and that of its sender. Mixed
/// addressing adds the extension as the address byte of both directions, normal fixed addressing has
/// none.
pub proof fn law_fixed_layout(
    source: u8,
    target: u8,
    extension: u8,
    target_type: TargetAddressType,
)
    ensures
        ({
            let physical = target_type is Physical;
            let normal = IsoTpAddress::spec_normal_fixed_29(source, target, target_type);
            let mixed = IsoTpAddress::spec_mixed_29(source, target, extension, target_type);
            let normal_high: int = if physical { 0x18DA } else { 0x18DB };
            let mixed_high: int = if physical { 0x18CE } else { 0x18CD };
            &&& raw_29(normal.tx_id) / 0x1_0000 == normal_high
            &&& raw_29(normal.rx_id) / 0x1_0000 == normal_high
            &&& raw_29(mixed.tx_id) / 0x1_0000 == mixed_high
            &&& raw_29(mixed.rx_id) / 0x1_0000 == mixed_high
            &&& raw_29(normal.tx_id) / 0x100 % 0x100 == target && raw_29(normal.tx_id) % 0x100
                == source
            &&& raw_29(mixed.tx_id) / 0x100 % 0x100 == target && raw_29(mixed.tx_id) % 0x100
                == source
            &&& raw_29(normal.rx_id) / 0x100 % 0x100 == source && raw_29(normal.rx_id) % 0x100
                == target
            &&& raw_29(mixed.rx_id) / 0x100 % 0x100 == source && raw_29(mixed.rx_id) % 0x100
                == target
            &&& normal.tx_addr is None && normal.rx_addr is None
            &&& mixed.tx_addr == Some(extension) && mixed.rx_addr == Some(extension)
        }),
{
    let normal = normal_fixed_base(target_type);
    let mixed = mixed_base(target_type);
    lemma_fixed_layout(normal, target, source);
    lemma_fixed_layout(normal, source, target);
    lemma_fixed_layout(mixed, target, source);
    lemma_fixed_layout(mixed, source, target);
}

proof fn lemma_fixed_layout(base: int, to: u8, from: u8)
    requires
        0 <= base <= 0x1FFF,
    ensures
        raw_29(fixed_id(base, to, from)) / 0x1_0000 == base,
        raw_29(fixed_id(base, to, from)) / 0x100 % 0x100 == to,
        raw_29(fixed_id(base, to, from)) % 0x100 == from,
{
    broadcast use ExtendedId::lemma_of;

    let raw = (base * 0x1_0000 + to * 0x100 + from) as u32;
    assert(ExtendedId::of(raw)@ == raw);
}

/// A configuration made from an address has its identifiers and address bytes, each in its own
/// direction, and is the default one in everything else; it is valid exactly when the directions
/// have different identifiers.
pub proof fn law_config_keeps_address(address: IsoTpAddress)
    ensures
        <IsoTpConfig as FromSpec<IsoTpAddress>>::obeys_from_spec(),
        ({
            let cfg = <IsoTpConfig as FromSpec<IsoTpAddress>>::from_spec(address);
            let plain = IsoTpConfig::spec_default();
            &&& cfg.tx_id == address.tx_id && cfg.rx_id == address.rx_id
            &&& cfg.tx_addr == address.tx_addr && cfg.rx_addr == address.rx_addr
            &&& cfg.block_size == plain.block_size && cfg.st_min == plain.st_min
            &&& cfg.wft_max == plain.wft_max && cfg.padding == plain.padding
            &&& cfg.max_payload_len == plain.max_payload_len
            &&& cfg.rx_buffer_len == plain.rx_buffer_len
            &&& cfg.n_as == plain.n_as && cfg.n_ar == plain.n_ar && cfg.n_bs == plain.n_bs
            &&& cfg.n_br == plain.n_br && cfg.n_cs == plain.n_cs
            &&& cfg.valid() <==> address.tx_id != address.rx_id
        }),
{
}

/// An extended identifier can be made exactly of a value below 2 to the power of 29, and has that
/// value; all others are refused as an invalid configuration.
pub proof fn law_extended_identifier(raw: u32)
    ensures
        match spec_ext_id(raw) {
            Ok(id) => raw < 536_870_912 && raw_29(id) == raw,
            Err(error) => raw >= 536_870_912 && error == IsoTpError::<()>::InvalidConfig,
        },
{
    broadcast use ExtendedId::lemma_of;

}

} // verus!
