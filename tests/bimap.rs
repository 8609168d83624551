use nft_ica::bimap::NftIcaBiMap;
use nft_ica::error::{ContractError, Missing};

#[test]
fn test_nft_ica_bi_map() {
    let mut nft_ica_bi_map = NftIcaBiMap::new();

    nft_ica_bi_map.insert("ica-addr-1".to_string(), "nft-id-1".to_string());
    nft_ica_bi_map.insert("ica-addr-2".to_string(), "nft-id-2".to_string());

    assert_eq!(nft_ica_bi_map.load("ica-addr-1").unwrap(), "nft-id-1");
    assert_eq!(nft_ica_bi_map.load("nft-id-1").unwrap(), "ica-addr-1");
    assert_eq!(nft_ica_bi_map.load("ica-addr-2").unwrap(), "nft-id-2");
    assert_eq!(nft_ica_bi_map.load("nft-id-2").unwrap(), "ica-addr-2");

    nft_ica_bi_map.remove("ica-addr-1");

    assert!(nft_ica_bi_map.load("ica-addr-1").is_err());
    assert!(nft_ica_bi_map.load("nft-id-1").is_err());
    assert_eq!(nft_ica_bi_map.load("ica-addr-2").unwrap(), "nft-id-2");
    assert_eq!(nft_ica_bi_map.load("nft-id-2").unwrap(), "ica-addr-2");

    nft_ica_bi_map.remove("nft-id-2");

    assert!(nft_ica_bi_map.load("ica-addr-1").is_err());
    assert!(nft_ica_bi_map.load("nft-id-1").is_err());
    assert!(nft_ica_bi_map.load("ica-addr-2").is_err());
    assert!(nft_ica_bi_map.load("nft-id-2").is_err());
}

#[test]
fn bimap_missing_key_is_not_found() {
    let map = NftIcaBiMap::new();
    assert_eq!(map.load("absent"), Err(ContractError::NotFound(Missing::BimapEntry)));
    assert_eq!(map.may_load("absent"), None);
}

#[test]
fn bimap_rebinding_drops_stale_partners() {
    let mut map = NftIcaBiMap::new();
    map.insert("ctrl-a".to_string(), "tok-1".to_string());
    map.insert("ctrl-b".to_string(), "tok-1".to_string());
    assert_eq!(map.load("tok-1").unwrap(), "ctrl-b");
    assert_eq!(map.load("ctrl-b").unwrap(), "tok-1");
    assert!(map.load("ctrl-a").is_err());
}

#[test]
fn bimap_round_trip_then_remove_by_token() {
    let mut map = NftIcaBiMap::new();
    map.insert("c".to_string(), "t".to_string());
    assert_eq!(map.load("c").unwrap(), "t");
    assert_eq!(map.load("t").unwrap(), "c");
    map.remove("t");
    assert!(map.load("c").is_err());
    assert!(map.load("t").is_err());
    map.remove("t");
    assert!(map.may_load("c").is_none());
}
