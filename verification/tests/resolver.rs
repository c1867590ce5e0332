use flooring_monitor::resolver::{Collection, CollectionResolver};

#[test]
fn knows_the_nine_collections() {
    let resolver = CollectionResolver::new();
    assert_eq!(resolver.len(), 9);
    let known = [
        ("0xbd3531da5cf5857e7cfaa92426877b022e612cf8", "pudgypenguins"),
        ("0xbc4ca0eda7647a8ab7c2061c2e118a18a936f13d", "boredapeyachtclub"),
        ("0xfd1b0b0dfa524e1fd42e7d51155a663c581bbd50", "y00ts"),
        ("0xed5af388653567af2f388e6224dc7c4b3241c544", "azuki"),
        ("0x8821bee2ba0df28761afff119d66390d594cd280", "degods"),
        ("0x49cf6f5d44e70224e2e23fdcdd2c053f30ada28b", "clonex"),
        ("0x60e4d786628fea6478f785a6d7e704777c86a7c6", "mutant-ape-yacht-club"),
        ("0x8a90cab2b38dba80c64b7734e58ee1db38b8992e", "doodles-official"),
        ("0x23581767a106ae21c074b2276d25e5c3e136a68b", "proof-moonbirds"),
    ];
    for (address, slug) in known {
        assert_eq!(resolver.resolve(address), Some(slug.to_string()), "{}", address);
    }
}

#[test]
fn knows_no_other_address() {
    let resolver = CollectionResolver::new();
    assert_eq!(resolver.resolve("0xb6a37b5d14d502c3ab0ae6f3a0e058bc9517786e"), None);
    assert_eq!(resolver.resolve(""), None);
    assert_eq!(resolver.resolve("pudgypenguins"), None);
    assert_eq!(resolver.resolve("bd3531da5cf5857e7cfaa92426877b022e612cf8"), None);
}

#[test]
fn takes_addresses_in_lower_case_only() {
    let resolver = CollectionResolver::new();
    assert_eq!(resolver.resolve("0xBD3531DA5CF5857E7CFAA92426877B022E612CF8"), None);
    assert_eq!(resolver.resolve("0XBD3531da5cf5857e7cfaa92426877b022e612cf8"), None);
}

#[test]
fn another_table_holds_each_address_once() {
    let line = |address: &str, slug: &str| Collection { address: address.to_string(), slug: slug.to_string() };
    let resolver = CollectionResolver::from_entries(vec![line("0x01", "one"), line("0x02", "two"), line("0x03", "two")]).unwrap();
    assert_eq!(resolver.len(), 3);
    assert_eq!(resolver.resolve("0x01"), Some("one".to_string()));
    assert_eq!(resolver.resolve("0x02"), Some("two".to_string()));
    assert_eq!(resolver.resolve("0x03"), Some("two".to_string()));
    assert_eq!(resolver.resolve("0x04"), None);
    assert_eq!(CollectionResolver::from_entries(vec![]).unwrap().resolve("0x01"), None);
    assert!(CollectionResolver::from_entries(vec![line("0x01", "one"), line("0x02", "two"), line("0x01", "uno")]).is_none());
    assert!(CollectionResolver::from_entries(vec![line("0x01", "one"), line("0x01", "one")]).is_none());
}
