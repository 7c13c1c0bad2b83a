use iso_tp::address::{ext_id, fixed_base};
use iso_tp::id::id_matches;
use iso_tp::{
    AsymmetricAddress, Duration, ExtendedId, Id, IsoTpAddress, IsoTpConfig, IsoTpError, RxAddress,
    StandardId, TargetAddressType, TxAddress,
};

fn standard(raw: u16) -> Id {
    Id::Standard(StandardId::new(raw).unwrap())
}

fn extended(raw: u32) -> Id {
    Id::Extended(ExtendedId::new(raw).unwrap())
}

#[test]
fn standard_id_range() {
    assert_eq!(StandardId::new(0).unwrap().as_raw(), 0);
    assert_eq!(StandardId::new(0x7FF).unwrap().as_raw(), 0x7FF);
    assert_eq!(StandardId::new(0x800), None);
    assert_eq!(StandardId::new(0xFFFF), None);
}

#[test]
fn extended_id_range() {
    assert_eq!(ExtendedId::new(0x18DA_F110).unwrap().as_raw(), 0x18DA_F110);
    assert_eq!(ExtendedId::new(0x1FFF_FFFF).unwrap().as_raw(), 0x1FFF_FFFF);
    assert_eq!(ExtendedId::new(0x2000_0000), None);
}

#[test]
fn identifiers_match_by_format_and_value() {
    assert!(id_matches(standard(0x123), &standard(0x123)));
    assert!(!id_matches(standard(0x123), &standard(0x124)));
    assert!(id_matches(extended(0x123), &extended(0x123)));
    assert!(!id_matches(extended(0x123), &extended(0x124)));
    assert!(!id_matches(standard(0x123), &extended(0x123)));
    assert!(!id_matches(extended(0x123), &standard(0x123)));
}

#[test]
fn ext_id_checks_range() {
    assert_eq!(ext_id(0x18DA_0000), Ok(extended(0x18DA_0000)));
    assert_eq!(ext_id(0x2000_0000), Err(IsoTpError::InvalidConfig));
}

#[test]
fn fixed_base_by_address_type() {
    assert_eq!(fixed_base(TargetAddressType::Physical, 7, 9), 7);
    assert_eq!(fixed_base(TargetAddressType::Functional, 7, 9), 9);
}

#[test]
fn normal_addresses() {
    let tx = TxAddress::normal(standard(1));
    let rx = RxAddress::normal(standard(2));
    assert_eq!(tx, TxAddress { id: standard(1), addr: None });
    assert_eq!(rx, RxAddress { id: standard(2), addr: None });
    assert_eq!(
        IsoTpAddress::from(AsymmetricAddress::new(tx, rx)),
        IsoTpAddress::normal(standard(1), standard(2))
    );
}

#[test]
fn extended_addresses() {
    assert_eq!(TxAddress::extended(standard(1), 0x55).addr, Some(0x55));
    assert_eq!(RxAddress::extended(standard(2), 0x66).addr, Some(0x66));
    let address = IsoTpAddress::extended(standard(1), standard(2), 0x66, 0x55);
    assert_eq!(address.tx_addr, Some(0x55));
    assert_eq!(address.rx_addr, Some(0x66));
    assert_eq!(address.tx_id, standard(1));
    assert_eq!(address.rx_id, standard(2));
}

#[test]
fn mixed_11_addresses() {
    assert_eq!(TxAddress::mixed_11(standard(1), 0x77).addr, Some(0x77));
    assert_eq!(RxAddress::mixed_11(standard(2), 0x77).addr, Some(0x77));
    let address = IsoTpAddress::mixed_11(standard(1), standard(2), 0x77);
    assert_eq!(address.tx_addr, Some(0x77));
    assert_eq!(address.rx_addr, Some(0x77));
}

#[test]
fn normal_fixed_identifiers() {
    let physical = TargetAddressType::Physical;
    let functional = TargetAddressType::Functional;
    assert_eq!(
        TxAddress::normal_fixed_29(0xF1, 0x10, physical),
        Ok(TxAddress { id: extended(0x18DA_10F1), addr: None })
    );
    assert_eq!(
        RxAddress::normal_fixed_29(0xF1, 0x10, physical),
        Ok(RxAddress { id: extended(0x18DA_F110), addr: None })
    );
    assert_eq!(
        TxAddress::normal_fixed_29(0xF1, 0x33, functional).unwrap().id,
        extended(0x18DB_33F1)
    );
}

#[test]
fn mixed_29_identifiers() {
    let physical = TargetAddressType::Physical;
    let functional = TargetAddressType::Functional;
    assert_eq!(
        TxAddress::mixed_29(0xF1, 0x10, 0x99, physical),
        Ok(TxAddress { id: extended(0x18CE_10F1), addr: Some(0x99) })
    );
    assert_eq!(
        RxAddress::mixed_29(0xF1, 0x10, 0x99, functional),
        Ok(RxAddress { id: extended(0x18CD_F110), addr: Some(0x99) })
    );
}

#[test]
fn fixed_addressing_peers_hear_each_other() {
    let kind = TargetAddressType::Physical;
    let here = IsoTpAddress::normal_fixed_29(0xF1, 0x10, kind).unwrap();
    let there = IsoTpAddress::normal_fixed_29(0x10, 0xF1, kind).unwrap();
    assert_eq!(here.tx_id, there.rx_id);
    assert_eq!(here.rx_id, there.tx_id);
    let here = IsoTpAddress::mixed_29(0xF1, 0x10, 5, kind).unwrap();
    let there = IsoTpAddress::mixed_29(0x10, 0xF1, 5, kind).unwrap();
    assert_eq!(here.tx_id, there.rx_id);
    assert_eq!(here.rx_id, there.tx_id);
    assert_eq!(here.tx_addr, there.rx_addr);
}

#[test]
fn config_from_address() {
    let address = IsoTpAddress::mixed_29(1, 2, 3, TargetAddressType::Functional).unwrap();
    let cfg = IsoTpConfig::from(address);
    assert_eq!(cfg.tx_id, extended(0x18CD_0201));
    assert_eq!(cfg.rx_id, extended(0x18CD_0102));
    assert_eq!(cfg.tx_addr, Some(3));
    assert_eq!(cfg.rx_addr, Some(3));
    assert_eq!(cfg.max_payload_len, 4095);
    assert_eq!(cfg.n_bs, Duration::from_millis(1000));
    assert_eq!(cfg.validate(), Ok(()));
    let mirrored = IsoTpAddress::normal_fixed_29(4, 4, TargetAddressType::Physical).unwrap();
    assert_eq!(IsoTpConfig::from(mirrored).validate(), Err(()));
}

#[test]
fn default_config() {
    let cfg = IsoTpConfig::default();
    assert_eq!(cfg.tx_id, standard(0));
    assert_eq!(cfg.rx_id, standard(0));
    assert_eq!(cfg.tx_addr, None);
    assert_eq!(cfg.rx_addr, None);
    assert_eq!(cfg.block_size, 0);
    assert_eq!(cfg.st_min, Duration::from_millis(0));
    assert_eq!(cfg.wft_max, 0);
    assert_eq!(cfg.padding, None);
    assert_eq!(cfg.rx_buffer_len, 4095);
    assert_eq!(cfg.n_as, Duration::from_millis(1000));
    assert_eq!(cfg.n_ar, Duration::from_millis(1000));
    assert_eq!(cfg.n_br, Duration::from_millis(1000));
    assert_eq!(cfg.n_cs, Duration::from_millis(1000));
    assert_eq!(cfg.validate(), Err(()));
}

#[test]
fn validation_limits() {
    let good = IsoTpConfig { tx_id: standard(1), ..IsoTpConfig::default() };
    assert_eq!(good.validate(), Ok(()));
    assert_eq!(IsoTpConfig { max_payload_len: 0, ..good.clone() }.validate(), Err(()));
    assert_eq!(
        IsoTpConfig { max_payload_len: 4096, rx_buffer_len: 5000, ..good.clone() }.validate(),
        Err(())
    );
    assert_eq!(IsoTpConfig { rx_buffer_len: 4094, ..good.clone() }.validate(), Err(()));
    assert_eq!(
        IsoTpConfig { max_payload_len: 1, rx_buffer_len: 1, ..good.clone() }.validate(),
        Ok(())
    );
    assert_eq!(IsoTpConfig { rx_id: standard(1), ..good }.validate(), Err(()));
}
