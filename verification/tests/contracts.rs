use lfest::contracts::ContractType;

#[test]
fn contract_type_parse() {
    let p = "XBTUSD";
    let ct = ContractType::parse(p);
    assert_eq!(ct, ContractType::Perpetual);

    let f = "XBTM20";
    let ct = ContractType::parse(f);
    assert_eq!(ct, ContractType::Future);

    let f = "XBTU20";
    let ct = ContractType::parse(f);
    assert_eq!(ct, ContractType::Future);

    let f = "XBTZ20";
    let ct = ContractType::parse(f);
    assert_eq!(ct, ContractType::Future);

    let f = "XBTH20";
    let ct = ContractType::parse(f);
    assert_eq!(ct, ContractType::Future);
}
