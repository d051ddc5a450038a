use zerobridge::coordinator::token_registry::{
    CanonicalTokenId, RegistryError, TokenConfig, TokenDefinition, TokenRegistry, TokenRepresentation,
};

fn representation(chain_id: u64, chain_name: &str, address: &str, native: bool) -> TokenRepresentation {
    TokenRepresentation {
        chain_id,
        chain_name: chain_name.to_string(),
        address: address.to_string(),
        decimals: None,
        native,
        wrapped_version: None,
    }
}

fn definition(symbol: &str, name: &str, decimals: u8, representations: Vec<TokenRepresentation>) -> TokenDefinition {
    TokenDefinition { symbol: symbol.to_string(), name: name.to_string(), decimals, representations }
}

fn sample() -> TokenConfig {
    TokenConfig {
        tokens: vec![
            definition(
                "ETH",
                "Ethereum",
                18,
                vec![
                    representation(1, "Ethereum", "0x0000000000000000000000000000000000000000", true),
                    representation(8453, "Base", "0x0000000000000000000000000000000000000000", true),
                ],
            ),
            definition(
                "USDC",
                "USD Coin",
                6,
                vec![
                    representation(1, "Ethereum", "0xA0b86991c6218b36c1d19D4a2e9Eb0cE3606eB48", false),
                    representation(8453, "Base", "0x833589fCD6eDb6E08f4c7C32D4f71b54bdA02913", false),
                ],
            ),
        ],
    }
}

#[test]
fn test_token_registry_loading() {
    let registry = TokenRegistry::load(&sample()).unwrap();

    assert_eq!(registry.token_count(), 2);

    // Test ETH lookup
    let eth_on_ethereum = registry.get_token_for_chain(1, "0x0000000000000000000000000000000000000000").unwrap();
    assert!(eth_on_ethereum.native);

    // Test USDC lookup
    let usdc_on_base = registry.get_token_for_chain(8453, "0x833589fCD6eDb6E08f4c7C32D4f71b54bdA02913").unwrap();
    assert_eq!(usdc_on_base.decimals, 6);
}

#[test]
fn canonical_id_is_a_digest_of_the_upper_cased_symbol() {
    assert_eq!(TokenRegistry::compute_canonical_id("ETH").0, "c4a3ea76c7702a079a4fe46f21833d2f");
    assert_eq!(TokenRegistry::compute_canonical_id("eth").0, "c4a3ea76c7702a079a4fe46f21833d2f");
    assert_eq!(TokenRegistry::compute_canonical_id("USDC").0, "43cb54c87b710c14874055b3f0c553d4");
}

#[test]
fn lookups_fold_the_case_of_addresses() {
    let registry = TokenRegistry::load(&sample()).unwrap();
    let token = registry.get_token_for_chain(8453, "0x833589FCD6EDB6E08F4C7C32D4F71B54BDA02913").unwrap();
    // The representation keeps the address as it was written.
    assert_eq!(token.address, "0x833589fCD6eDb6E08f4c7C32D4f71b54bdA02913");
    assert_eq!(token.chain_name, "Base");
    assert!(registry.is_supported(1, "0xa0b86991c6218b36c1d19d4a2e9eb0ce3606eb48"));
    assert!(!registry.is_supported(8453, "0xa0b86991c6218b36c1d19d4a2e9eb0ce3606eb48"));
    let id = registry.get_canonical_id(1, "0xA0B86991C6218B36C1D19D4A2E9EB0CE3606EB48").unwrap();
    assert_eq!(id.0, "43cb54c87b710c14874055b3f0c553d4");
    assert!(registry.get_canonical_id(2, "0xa0b86991c6218b36c1d19d4a2e9eb0ce3606eb48").is_none());
}

#[test]
fn lookups_by_canonical_id() {
    let registry = TokenRegistry::load(&sample()).unwrap();
    let usdc = CanonicalTokenId("43cb54c87b710c14874055b3f0c553d4".to_string());
    let unknown = CanonicalTokenId("00".to_string());

    let mappings = registry.get_all_representations(&usdc).unwrap();
    assert_eq!(mappings.symbol, "USDC");
    assert_eq!(mappings.name, "USD Coin");
    assert_eq!(mappings.decimals, 6);
    assert_eq!(mappings.representations.len(), 2);
    assert!(registry.get_all_representations(&unknown).is_none());

    assert_eq!(registry.get_supported_chains(&usdc), vec![1, 8453]);
    assert_eq!(registry.get_supported_chains(&unknown), Vec::<u64>::new());

    assert_eq!(registry.get_token_by_id(&usdc, 8453).unwrap().address, "0x833589fCD6eDb6E08f4c7C32D4f71b54bdA02913");
    assert_eq!(registry.get_token_by_id(&usdc, 10).err(), Some(RegistryError::NotOnChain));
    assert_eq!(registry.get_token_by_id(&unknown, 1).err(), Some(RegistryError::NotFound));
    assert_eq!(registry.get_token_for_chain(1, "0xdead").err(), Some(RegistryError::NotFound));
}

#[test]
fn a_representation_can_have_decimals_of_its_own() {
    let mut config = sample();
    config.tokens[1].representations[1].decimals = Some(8);
    config.tokens[1].representations[1].wrapped_version = Some("wUSDC".to_string());
    let registry = TokenRegistry::load(&config).unwrap();
    let base = registry.get_token_for_chain(8453, "0x833589fcd6edb6e08f4c7c32d4f71b54bda02913").unwrap();
    assert_eq!(base.decimals, 8);
    assert_eq!(base.wrapped_version.as_deref(), Some("wUSDC"));
    let mainnet = registry.get_token_for_chain(1, "0xa0b86991c6218b36c1d19d4a2e9eb0ce3606eb48").unwrap();
    assert_eq!(mainnet.decimals, 6);
}

#[test]
fn one_address_under_two_ids_is_refused() {
    let mut config = sample();
    // The address of USDC on Base, in another case, listed under ETH too.
    config.tokens[0].representations.push(representation(
        8453,
        "Base",
        "0x833589FCD6EDB6E08F4C7C32D4F71B54BDA02913",
        false,
    ));
    assert_eq!(TokenRegistry::load(&config).err(), Some(RegistryError::ConfigError));
}

#[test]
fn one_address_twice_under_one_id_is_accepted() {
    let mut config = sample();
    config.tokens[1].representations.push(representation(
        8453,
        "Base",
        "0x833589FCD6EDB6E08F4C7C32D4F71B54BDA02913",
        false,
    ));
    let registry = TokenRegistry::load(&config).unwrap();
    assert_eq!(registry.token_count(), 2);
    // Of two representations at one chain address the first is found.
    let base = registry.get_token_for_chain(8453, "0x833589fcd6edb6e08f4c7c32d4f71b54bda02913").unwrap();
    assert_eq!(base.address, "0x833589fCD6eDb6E08f4c7C32D4f71b54bdA02913");
}

#[test]
fn the_last_definition_of_a_symbol_is_in_force() {
    let mut config = sample();
    // The same symbol in another case has the same canonical id.
    config.tokens.push(definition(
        "usdc",
        "USD Coin again",
        7,
        vec![representation(1, "Ethereum", "0xA0b86991c6218b36c1d19D4a2e9Eb0cE3606eB48", false)],
    ));
    let registry = TokenRegistry::load(&config).unwrap();
    assert_eq!(registry.token_count(), 2);
    let mainnet = registry.get_token_for_chain(1, "0xa0b86991c6218b36c1d19d4a2e9eb0ce3606eb48").unwrap();
    assert_eq!(mainnet.decimals, 7);
    // The definition in force is not on Base: the address there is no longer registered.
    assert_eq!(
        registry.get_token_for_chain(8453, "0x833589fcd6edb6e08f4c7c32d4f71b54bda02913").err(),
        Some(RegistryError::NotFound)
    );
    assert!(!registry.is_supported(8453, "0x833589fcd6edb6e08f4c7c32d4f71b54bda02913"));
    assert!(registry.get_canonical_id(8453, "0x833589fcd6edb6e08f4c7c32d4f71b54bda02913").is_none());
    let usdc = CanonicalTokenId("43cb54c87b710c14874055b3f0c553d4".to_string());
    assert_eq!(registry.get_supported_chains(&usdc), vec![1]);
}

#[test]
fn a_token_is_found_at_the_address_asked_for() {
    // One token with two addresses on one chain, and one of them on another chain too.
    let config = TokenConfig {
        tokens: vec![definition(
            "USDT",
            "Tether",
            6,
            vec![
                representation(1, "Ethereum", "0xAA", false),
                representation(1, "Ethereum bridged", "0xBB", false),
                representation(10, "Optimism", "0xbb", false),
            ],
        )],
    };
    let registry = TokenRegistry::load(&config).unwrap();

    let first = registry.get_token_for_chain(1, "0xaa").unwrap();
    assert_eq!((first.chain_id, first.address.as_str(), first.chain_name.as_str()), (1, "0xAA", "Ethereum"));
    let second = registry.get_token_for_chain(1, "0xbb").unwrap();
    assert_eq!((second.chain_id, second.address.as_str(), second.chain_name.as_str()), (1, "0xBB", "Ethereum bridged"));
    let elsewhere = registry.get_token_for_chain(10, "0xBB").unwrap();
    assert_eq!((elsewhere.chain_id, elsewhere.address.as_str(), elsewhere.chain_name.as_str()), (10, "0xbb", "Optimism"));

    // The same address on another chain does not match.
    assert_eq!(registry.get_token_for_chain(10, "0xaa").err(), Some(RegistryError::NotFound));
    assert_eq!(registry.get_token_for_chain(8453, "0xbb").err(), Some(RegistryError::NotFound));

    // By canonical id the first representation on the chain is found.
    let id = registry.get_canonical_id(1, "0xBb").unwrap();
    assert_eq!(registry.get_token_by_id(id, 1).unwrap().address, "0xAA");
}

#[test]
fn an_empty_registry() {
    let registry = TokenRegistry::load(&TokenConfig { tokens: vec![] }).unwrap();
    assert_eq!(registry.token_count(), 0);
    assert!(!registry.is_supported(1, "0x0"));
}
