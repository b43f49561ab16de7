use agentalpha::{
    register_provider, update_provider, AgentAlphaError, Event, Ledger, Provider, Pubkey,
    RegisterProvider, UpdateProvider,
};

fn registry_key(tag: u8) -> Pubkey {
    Pubkey::new([tag; 32])
}

fn registry_text(len: usize) -> String {
    "n".repeat(len)
}

fn registry_register(
    ledger: &mut Ledger,
    owner: u8,
    name: String,
    endpoint: String,
    categories: Vec<u8>,
) -> Result<(), AgentAlphaError> {
    register_provider(
        ledger,
        RegisterProvider { authority: registry_key(owner), now: 100 },
        name,
        endpoint,
        categories,
        7,
    )
}

fn registry_with_provider(owner: u8) -> Ledger {
    let mut ledger = Ledger::new(registry_key(200));
    assert_eq!(
        registry_register(
            &mut ledger,
            owner,
            String::from("first"),
            String::from("https://first.example"),
            vec![3],
        ),
        Ok(())
    );
    ledger
}

#[test]
fn new_ledger_is_empty() {
    let ledger = Ledger::new(registry_key(200));
    assert_eq!(ledger.reporter(), registry_key(200));
    assert!(ledger.provider(&registry_key(1)).is_none());
    assert!(ledger.commitment(&registry_key(1), &[0u8; 32]).is_none());
    assert!(ledger.events().is_empty());
}

#[test]
fn second_registration_of_an_owner_fails() {
    let mut ledger = registry_with_provider(1);
    assert_eq!(
        registry_register(
            &mut ledger,
            1,
            String::from("second"),
            String::from("https://second.example"),
            vec![],
        ),
        Err(AgentAlphaError::IdentityAlreadyRegistered)
    );
    let provider = ledger.provider(&registry_key(1)).expect("registered");
    assert_eq!(provider.name, "first");
    assert_eq!(provider.endpoint, "https://first.example");
    assert_eq!(provider.categories, vec![3]);
    assert_eq!(ledger.events().len(), 1);
}

#[test]
fn second_registration_fails_before_its_data_is_looked_at() {
    let mut ledger = registry_with_provider(1);
    assert_eq!(
        registry_register(&mut ledger, 1, registry_text(65), registry_text(300), vec![0; 9]),
        Err(AgentAlphaError::IdentityAlreadyRegistered)
    );
}

#[test]
fn other_owners_register_independently() {
    let mut ledger = registry_with_provider(1);
    assert_eq!(
        registry_register(&mut ledger, 2, String::from("other"), String::new(), vec![]),
        Ok(())
    );
    assert_eq!(ledger.provider(&registry_key(1)).expect("registered").name, "first");
    let other = ledger.provider(&registry_key(2)).expect("registered");
    assert_eq!(other.name, "other");
    assert_eq!(other.endpoint, "");
    assert!(other.categories.is_empty());
    assert_eq!(other.authority, registry_key(2));
    assert_eq!(ledger.events().len(), 2);
}

#[test]
fn name_of_64_characters_is_accepted_and_65_rejected() {
    let mut ledger = Ledger::new(registry_key(200));
    assert_eq!(
        registry_register(&mut ledger, 1, registry_text(64), String::new(), vec![]),
        Ok(())
    );
    assert_eq!(
        registry_register(&mut ledger, 2, registry_text(65), String::new(), vec![]),
        Err(AgentAlphaError::NameTooLong)
    );
    assert!(ledger.provider(&registry_key(2)).is_none());
    assert_eq!(ledger.events().len(), 1);
}

#[test]
fn endpoint_of_256_characters_is_accepted_and_257_rejected() {
    let mut ledger = Ledger::new(registry_key(200));
    assert_eq!(
        registry_register(&mut ledger, 1, String::from("a"), registry_text(256), vec![]),
        Ok(())
    );
    assert_eq!(
        registry_register(&mut ledger, 2, String::from("a"), registry_text(257), vec![]),
        Err(AgentAlphaError::EndpointTooLong)
    );
    assert!(ledger.provider(&registry_key(2)).is_none());
}

#[test]
fn eight_categories_are_accepted_and_nine_rejected() {
    let mut ledger = Ledger::new(registry_key(200));
    assert_eq!(
        registry_register(&mut ledger, 1, String::from("a"), String::new(), vec![1; 8]),
        Ok(())
    );
    assert_eq!(
        registry_register(&mut ledger, 2, String::from("a"), String::new(), vec![1; 9]),
        Err(AgentAlphaError::TooManyCategories)
    );
    assert!(ledger.provider(&registry_key(2)).is_none());
}

#[test]
fn listing_limits_are_checked_name_first() {
    let mut ledger = Ledger::new(registry_key(200));
    assert_eq!(
        registry_register(&mut ledger, 1, registry_text(65), registry_text(257), vec![0; 9]),
        Err(AgentAlphaError::NameTooLong)
    );
    assert_eq!(
        registry_register(&mut ledger, 1, registry_text(1), registry_text(257), vec![0; 9]),
        Err(AgentAlphaError::EndpointTooLong)
    );
    assert!(ledger.events().is_empty());
}

#[test]
fn name_length_counts_characters() {
    let mut ledger = Ledger::new(registry_key(200));
    let name: String = "\u{00e9}".repeat(64);
    assert_eq!(name.len(), 128);
    assert_eq!(registry_register(&mut ledger, 1, name, String::new(), vec![]), Ok(()));
    let longer: String = "\u{00e9}".repeat(65);
    assert_eq!(
        registry_register(&mut ledger, 2, longer, String::new(), vec![]),
        Err(AgentAlphaError::NameTooLong)
    );
}

#[test]
fn update_replaces_only_the_supplied_fields() {
    let mut ledger = registry_with_provider(1);
    let ctx = UpdateProvider { provider: registry_key(1), authority: registry_key(1), now: 250 };
    assert_eq!(
        update_provider(&mut ledger, ctx, None, Some(String::from("https://moved.example")), None),
        Ok(())
    );
    {
        let provider = ledger.provider(&registry_key(1)).expect("registered");
        assert_eq!(provider.name, "first");
        assert_eq!(provider.endpoint, "https://moved.example");
        assert_eq!(provider.price_lamports, 7);
        assert_eq!(provider.created_at, 100);
        assert_eq!(provider.updated_at, 250);
    }
    let ctx = UpdateProvider { provider: registry_key(1), authority: registry_key(1), now: 300 };
    assert_eq!(
        update_provider(&mut ledger, ctx, Some(String::from("renamed")), None, Some(99)),
        Ok(())
    );
    let provider = ledger.provider(&registry_key(1)).expect("registered");
    assert_eq!(provider.name, "renamed");
    assert_eq!(provider.endpoint, "https://moved.example");
    assert_eq!(provider.price_lamports, 99);
    assert_eq!(provider.categories, vec![3]);
    assert_eq!(provider.total_signals, 0);
    assert_eq!(provider.created_at, 100);
    assert_eq!(provider.updated_at, 300);
    assert_eq!(ledger.events().len(), 1);
}

#[test]
fn update_without_fields_only_stamps_the_record() {
    let mut ledger = registry_with_provider(1);
    let ctx = UpdateProvider { provider: registry_key(1), authority: registry_key(1), now: 777 };
    assert_eq!(update_provider(&mut ledger, ctx, None, None, None), Ok(()));
    let provider = ledger.provider(&registry_key(1)).expect("registered");
    assert_eq!(provider.name, "first");
    assert_eq!(provider.endpoint, "https://first.example");
    assert_eq!(provider.price_lamports, 7);
    assert_eq!(provider.updated_at, 777);
}

#[test]
fn update_by_another_principal_is_unauthorized() {
    let mut ledger = registry_with_provider(1);
    let ctx = UpdateProvider { provider: registry_key(1), authority: registry_key(2), now: 250 };
    assert_eq!(
        update_provider(&mut ledger, ctx, Some(String::from("stolen")), None, Some(0)),
        Err(AgentAlphaError::Unauthorized)
    );
    let provider = ledger.provider(&registry_key(1)).expect("registered");
    assert_eq!(provider.name, "first");
    assert_eq!(provider.price_lamports, 7);
    assert_eq!(provider.updated_at, 100);
}

#[test]
fn update_of_an_unknown_provider_is_unauthorized() {
    let mut ledger = registry_with_provider(1);
    let ctx = UpdateProvider { provider: registry_key(9), authority: registry_key(9), now: 250 };
    assert_eq!(
        update_provider(&mut ledger, ctx, None, None, Some(1)),
        Err(AgentAlphaError::Unauthorized)
    );
    assert!(ledger.provider(&registry_key(9)).is_none());
}

#[test]
fn update_with_a_field_too_long_changes_nothing() {
    let mut ledger = registry_with_provider(1);
    let ctx = UpdateProvider { provider: registry_key(1), authority: registry_key(1), now: 250 };
    assert_eq!(
        update_provider(&mut ledger, ctx, Some(registry_text(65)), None, Some(1)),
        Err(AgentAlphaError::NameTooLong)
    );
    assert_eq!(
        update_provider(
            &mut ledger,
            ctx,
            Some(String::from("fine")),
            Some(registry_text(257)),
            Some(1)
        ),
        Err(AgentAlphaError::EndpointTooLong)
    );
    let provider = ledger.provider(&registry_key(1)).expect("registered");
    assert_eq!(provider.name, "first");
    assert_eq!(provider.endpoint, "https://first.example");
    assert_eq!(provider.price_lamports, 7);
    assert_eq!(provider.updated_at, 100);
}

#[test]
fn update_accepts_fields_at_their_limits() {
    let mut ledger = registry_with_provider(1);
    let ctx = UpdateProvider { provider: registry_key(1), authority: registry_key(1), now: 250 };
    assert_eq!(
        update_provider(
            &mut ledger,
            ctx,
            Some(registry_text(64)),
            Some(registry_text(256)),
            Some(u64::MAX)
        ),
        Ok(())
    );
    let provider = ledger.provider(&registry_key(1)).expect("registered");
    assert_eq!(provider.name, registry_text(64));
    assert_eq!(provider.endpoint, registry_text(256));
    assert_eq!(provider.price_lamports, u64::MAX);
}

#[test]
fn provider_record_is_made_and_updated_on_its_own() {
    let made = Provider::create(
        registry_key(5),
        String::from("solo"),
        String::from("https://solo.example"),
        vec![4, 4],
        12,
        40,
    );
    let mut provider = made.expect("within limits");
    assert_eq!(provider.authority, registry_key(5));
    assert_eq!(provider.categories, vec![4, 4]);
    assert_eq!(provider.created_at, 40);
    assert_eq!(provider.apply_update(Some(registry_text(65)), None, None, 50), Err(AgentAlphaError::NameTooLong));
    assert_eq!(provider.updated_at, 40);
    assert_eq!(provider.apply_update(None, None, Some(13), 50), Ok(()));
    assert_eq!(provider.price_lamports, 13);
    assert_eq!(provider.updated_at, 50);
    assert!(matches!(
        Provider::create(registry_key(5), registry_text(65), String::new(), vec![], 0, 0),
        Err(AgentAlphaError::NameTooLong)
    ));
}

#[test]
fn registration_is_logged_with_the_listing() {
    let ledger = registry_with_provider(1);
    match &ledger.events()[0] {
        Event::ProviderRegistered(e) => {
            assert_eq!(e.provider, registry_key(1));
            assert_eq!(e.authority, registry_key(1));
            assert_eq!(e.name, "first");
            assert_eq!(e.endpoint, "https://first.example");
        }
        other => panic!("unexpected entry {:?}", other),
    }
}

#[test]
fn identities_compare_by_their_bytes() {
    let mut bytes = [7u8; 32];
    let a = Pubkey::new(bytes);
    assert_eq!(a.to_bytes(), bytes);
    assert!(a.same_as(&Pubkey::new([7u8; 32])));
    assert!(a == Pubkey::new([7u8; 32]));
    bytes[31] = 8;
    assert!(!a.same_as(&Pubkey::new(bytes)));
    assert!(a != Pubkey::new(bytes));
    assert!(agentalpha::bytes32_eq(&bytes, &bytes));
    assert!(!agentalpha::bytes32_eq(&bytes, &[7u8; 32]));
    let mut first = [7u8; 32];
    first[0] = 0;
    assert!(!agentalpha::bytes32_eq(&first, &[7u8; 32]));
}

#[test]
fn failures_have_distinct_stable_codes() {
    let all = [
        AgentAlphaError::NameTooLong,
        AgentAlphaError::EndpointTooLong,
        AgentAlphaError::TooManyCategories,
        AgentAlphaError::TokenTooLong,
        AgentAlphaError::InvalidDirection,
        AgentAlphaError::InvalidTimeframe,
        AgentAlphaError::InvalidConfidence,
        AgentAlphaError::InvalidOutcome,
        AgentAlphaError::AlreadyRevealed,
        AgentAlphaError::NotRevealed,
        AgentAlphaError::HashMismatch,
        AgentAlphaError::AlreadyResolved,
        AgentAlphaError::IdentityAlreadyRegistered,
        AgentAlphaError::DuplicateCommitment,
        AgentAlphaError::Unauthorized,
        AgentAlphaError::UnknownCommitment,
    ];
    for (i, e) in all.iter().enumerate() {
        assert_eq!(e.code(), 6000 + i as u32);
    }
    assert_eq!(AgentAlphaError::NameTooLong.code(), 6000);
    assert_eq!(AgentAlphaError::HashMismatch.code(), 6010);
    assert_eq!(AgentAlphaError::AlreadyResolved.code(), 6011);
}
