use cw721_ledger::errors::ContractError;
use cw721_ledger::state::{LedgerState, DAY_NS};
use cw721_ledger::types::{
    token_owner_idx, BlockInfo, CollectionInfoExtension, CollectionInfoExtensionMsg,
    EmptyExtension, Expiration, InstantiateMsg, NftInfo, OwnershipAction, OwnershipState,
    RoyaltyInfo,
};
use cw721_ledger::update::Update;
use cw721_ledger::validate::Validate;

fn s(x: &str) -> String {
    x.to_string()
}

fn block(height: u64, time: u64) -> BlockInfo {
    BlockInfo { height, time }
}

fn ext(description: &str, royalty_bps: Option<u64>) -> CollectionInfoExtension {
    CollectionInfoExtension {
        description: s(description),
        image: s("https://example.com/image.png"),
        external_link: None,
        explicit_content: None,
        start_trading_time: None,
        royalty_info: royalty_bps.map(|share| RoyaltyInfo {
            payment_address: s("payee"),
            share,
        }),
    }
}

fn msg_with(extension: Option<CollectionInfoExtension>) -> InstantiateMsg {
    InstantiateMsg {
        expiration_days: 365,
        name: s("collection_name"),
        symbol: s("collection_symbol"),
        collection_info_extension: extension,
        minter: Some(s("minter")),
        creator: Some(s("creator")),
        withdraw_address: None,
    }
}

fn fresh() -> LedgerState {
    LedgerState::instantiate(msg_with(None), &s("deployer"), &block(1, 1_000)).unwrap()
}

fn mint(state: &mut LedgerState, id: &str, owner: &str, at: &BlockInfo) {
    state
        .mint(&s("minter"), s(id), s(owner), None, None, at)
        .unwrap();
}

#[test]
fn instantiate_requires_minimum_expiration() {
    let mut msg = msg_with(None);
    msg.expiration_days = 0;
    let err = LedgerState::instantiate(msg, &s("mrt"), &block(1, 1)).unwrap_err();
    assert_eq!(err, ContractError::ExpirationPolicy);
}

#[test]
fn instantiate_sets_roles_and_metadata() {
    let state = fresh();
    assert_eq!(state.token_count(), 0);
    assert_eq!(
        state.get_minter_ownership(),
        OwnershipState::Held { owner: s("minter") }
    );
    assert_eq!(
        state.get_creator_ownership(),
        OwnershipState::Held { owner: s("creator") }
    );
    let info = state.get_collection_info();
    assert_eq!(info.name, s("collection_name"));
    assert_eq!(info.symbol, s("collection_symbol"));
    assert_eq!(info.updated_at, 1_000);
    assert_eq!(state.get_withdraw_address(), None);
}

#[test]
fn instantiate_defaults_roles_to_sender() {
    let mut msg = msg_with(None);
    msg.minter = None;
    msg.creator = None;
    let state = LedgerState::instantiate(msg, &s("deployer"), &block(1, 1)).unwrap();
    assert_eq!(
        state.get_minter_ownership(),
        OwnershipState::Held { owner: s("deployer") }
    );
    assert_eq!(
        state.get_creator_ownership(),
        OwnershipState::Held { owner: s("deployer") }
    );
}

#[test]
fn description_bounds_at_instantiation() {
    let err = LedgerState::instantiate(msg_with(Some(ext("", None))), &s("d"), &block(1, 1))
        .unwrap_err();
    assert_eq!(err, ContractError::CollectionDescriptionEmpty);

    let exact = "d".repeat(512);
    assert!(LedgerState::instantiate(msg_with(Some(ext(&exact, None))), &s("d"), &block(1, 1))
        .is_ok());

    let over = "d".repeat(513);
    let err = LedgerState::instantiate(msg_with(Some(ext(&over, None))), &s("d"), &block(1, 1))
        .unwrap_err();
    assert_eq!(err, ContractError::CollectionDescriptionTooLong);
}

#[test]
fn image_and_link_must_parse_as_urls() {
    let mut bad = ext("fine", None);
    bad.image = s("not a url");
    assert_eq!(bad.validate().unwrap_err(), ContractError::InvalidUrl);

    let mut linked = ext("fine", None);
    linked.external_link = Some(s("also not a url"));
    assert_eq!(linked.validate().unwrap_err(), ContractError::InvalidUrl);

    linked.external_link = Some(s("https://example.com/about"));
    assert!(linked.validate().is_ok());
}

#[test]
fn mint_requires_minter_role() {
    let mut state = fresh();
    let err = state
        .mint(&s("stranger"), s("t1"), s("alice"), None, None, &block(1, 1))
        .unwrap_err();
    assert_eq!(err, ContractError::Unauthorized);
}

#[test]
fn mint_rejects_taken_id_and_empty_owner() {
    let mut state = fresh();
    let b = block(1, 1);
    mint(&mut state, "t1", "alice", &b);
    let err = state
        .mint(&s("minter"), s("t1"), s("bob"), None, None, &b)
        .unwrap_err();
    assert_eq!(err, ContractError::AlreadyExists);
    let err = state
        .mint(&s("minter"), s("t2"), s(""), None, None, &b)
        .unwrap_err();
    assert_eq!(err, ContractError::InvalidInput);
}

#[test]
fn token_count_tracks_mints_and_burns() {
    let mut state = fresh();
    let b = block(1, 1);
    mint(&mut state, "t1", "alice", &b);
    mint(&mut state, "t2", "alice", &b);
    mint(&mut state, "t3", "bob", &b);
    assert_eq!(state.token_count(), 3);
    state.burn(&s("alice"), &s("t1"), &b).unwrap();
    state.burn(&s("bob"), &s("t3"), &b).unwrap();
    assert_eq!(state.token_count(), 1);
    // a burn beyond the stored tokens fails instead of underflowing
    let err = state.burn(&s("bob"), &s("t3"), &b).unwrap_err();
    assert_eq!(err, ContractError::NotFound);
}

#[test]
fn transfer_clears_all_approvals() {
    let mut state = fresh();
    let b = block(10, 10_000);
    mint(&mut state, "t1", "alice", &b);
    state
        .approve(&s("alice"), s("spender1"), &s("t1"), None, &b)
        .unwrap();
    state
        .approve(&s("alice"), s("spender2"), &s("t1"), None, &b)
        .unwrap();
    assert_eq!(
        state.approvals(&s("t1"), true, true, &b).unwrap().approvals.len(),
        2
    );
    state.transfer_nft(&s("alice"), s("bob"), &s("t1"), &b).unwrap();
    let owner = state.owner_of(&s("t1"), true, true, &b).unwrap();
    assert_eq!(owner.owner, s("bob"));
    assert_eq!(owner.approvals.len(), 0);
}

#[test]
fn transfer_authorization() {
    let mut state = fresh();
    let b = block(10, 10_000);
    mint(&mut state, "t1", "alice", &b);
    let err = state
        .transfer_nft(&s("mallory"), s("mallory"), &s("t1"), &b)
        .unwrap_err();
    assert_eq!(err, ContractError::Unauthorized);
    let err = state
        .transfer_nft(&s("alice"), s("bob"), &s("nope"), &b)
        .unwrap_err();
    assert_eq!(err, ContractError::NotFound);

    // an unexpired approval lets the spender transfer
    state
        .approve(
            &s("alice"),
            s("spender"),
            &s("t1"),
            Some(Expiration::AtHeight(100)),
            &b,
        )
        .unwrap();
    state
        .transfer_nft(&s("spender"), s("carol"), &s("t1"), &b)
        .unwrap();
    assert_eq!(state.owner_of(&s("t1"), true, true, &b).unwrap().owner, s("carol"));

    // a blanket operator grant works the same way
    state
        .approve_all(&s("carol"), s("operator"), None, &b)
        .unwrap();
    state
        .transfer_nft(&s("operator"), s("dave"), &s("t1"), &b)
        .unwrap();
    assert_eq!(state.owner_of(&s("t1"), true, true, &b).unwrap().owner, s("dave"));
}

#[test]
fn expired_approval_is_stored_but_inactive() {
    let mut state = fresh();
    let now = block(100, 100_000);
    mint(&mut state, "t1", "alice", &now);
    // the expiration lies in the past, yet the write is accepted
    state
        .approve(
            &s("alice"),
            s("latecomer"),
            &s("t1"),
            Some(Expiration::AtTime(99_999)),
            &now,
        )
        .unwrap();
    let visible = state.approvals(&s("t1"), false, true, &now).unwrap();
    assert_eq!(visible.approvals.len(), 0);
    let all = state.approvals(&s("t1"), true, true, &now).unwrap();
    assert_eq!(all.approvals.len(), 1);
    assert_eq!(all.approvals[0].spender, s("latecomer"));
    // the approval query filters it the same way
    let err = state
        .approval(&s("t1"), &s("latecomer"), false, true, &now)
        .unwrap_err();
    assert_eq!(err, ContractError::NotFound);
    // and it grants no transfer rights
    let err = state
        .transfer_nft(&s("latecomer"), s("x"), &s("t1"), &now)
        .unwrap_err();
    assert_eq!(err, ContractError::Unauthorized);
}

#[test]
fn revoke_is_idempotent() {
    let mut state = fresh();
    let b = block(1, 1);
    mint(&mut state, "t1", "alice", &b);
    state
        .approve(&s("alice"), s("spender"), &s("t1"), None, &b)
        .unwrap();
    state.revoke(&s("alice"), &s("spender"), &s("t1"), &b).unwrap();
    assert_eq!(
        state.approvals(&s("t1"), true, true, &b).unwrap().approvals.len(),
        0
    );
    // revoking an approval that is not there is a no-op
    state.revoke(&s("alice"), &s("spender"), &s("t1"), &b).unwrap();
}

#[test]
fn royalty_delta_and_ceiling() {
    let mut state = LedgerState::instantiate(
        msg_with(Some(ext("arts", Some(500)))),
        &s("d"),
        &block(1, 1),
    )
    .unwrap();
    let b = block(2, 2);
    let royalty_msg = |share: u64| CollectionInfoExtensionMsg {
        description: None,
        image: None,
        external_link: None,
        explicit_content: None,
        start_trading_time: None,
        royalty_info: Some(RoyaltyInfo { payment_address: s("payee"), share }),
    };

    // prior 5%, proposed 8%: more than the 2-point cap
    let err = state
        .update_collection_info(&s("creator"), &royalty_msg(800), &b)
        .unwrap_err();
    assert_eq!(err, ContractError::RoyaltyShareDeltaTooBig);

    // an increase of exactly the cap is accepted
    state
        .update_collection_info(&s("creator"), &royalty_msg(700), &b)
        .unwrap();
    let stored = state.get_collection_info().extension.unwrap();
    assert_eq!(stored.royalty_info.unwrap().share, 700);
    assert_eq!(state.get_collection_info().updated_at, 2);

    // a share above the 10% ceiling is rejected regardless of the delta
    let err = state
        .update_collection_info(&s("creator"), &royalty_msg(1100), &b)
        .unwrap_err();
    assert!(matches!(
        err,
        ContractError::RoyaltyShareDeltaTooBig | ContractError::RoyaltyShareTooHigh
    ));
    let mut near = LedgerState::instantiate(
        msg_with(Some(ext("arts", Some(950)))),
        &s("d"),
        &block(1, 1),
    )
    .unwrap();
    let err = near
        .update_collection_info(&s("creator"), &royalty_msg(1100), &b)
        .unwrap_err();
    assert_eq!(err, ContractError::RoyaltyShareTooHigh);
}

#[test]
fn update_rejects_bad_descriptions_in_full() {
    let mut state = LedgerState::instantiate(
        msg_with(Some(ext("initial words", None))),
        &s("d"),
        &block(1, 1),
    )
    .unwrap();
    let b = block(2, 2);
    let desc_msg = |d: &str| CollectionInfoExtensionMsg {
        description: Some(s(d)),
        image: None,
        external_link: None,
        explicit_content: None,
        start_trading_time: None,
        royalty_info: None,
    };

    let err = state
        .update_collection_info(&s("creator"), &desc_msg(""), &b)
        .unwrap_err();
    assert_eq!(err, ContractError::CollectionDescriptionEmpty);
    // the rejected update left the store untouched
    assert_eq!(
        state.get_collection_info().extension.unwrap().description,
        s("initial words")
    );
    assert_eq!(state.get_collection_info().updated_at, 1);

    let exact = "e".repeat(512);
    state
        .update_collection_info(&s("creator"), &desc_msg(&exact), &b)
        .unwrap();
    assert_eq!(state.get_collection_info().extension.unwrap().description, exact);

    let over = "e".repeat(513);
    let err = state
        .update_collection_info(&s("creator"), &desc_msg(&over), &b)
        .unwrap_err();
    assert_eq!(err, ContractError::CollectionDescriptionTooLong);

    let err = state
        .update_collection_info(&s("impostor"), &desc_msg("hi"), &b)
        .unwrap_err();
    assert_eq!(err, ContractError::Unauthorized);
}

#[test]
fn update_engine_merges_only_named_fields() {
    let current = ext("kept description", Some(300));
    let msg = CollectionInfoExtensionMsg {
        description: None,
        image: Some(s("https://example.com/next.png")),
        external_link: None,
        explicit_content: Some(true),
        start_trading_time: None,
        royalty_info: None,
    };
    let merged = current.update(&msg).unwrap();
    assert_eq!(merged.description, s("kept description"));
    assert_eq!(merged.image, s("https://example.com/next.png"));
    assert_eq!(merged.explicit_content, Some(true));
    assert_eq!(merged.royalty_info.unwrap().share, 300);
}

#[test]
fn pages_of_two_over_five_tokens() {
    let mut state = fresh();
    let b = block(1, 1);
    // minted out of order; enumeration must come back sorted
    for id in ["d", "b", "e", "a", "c"] {
        mint(&mut state, id, "alice", &b);
    }
    mint(&mut state, "x", "someone_else", &b);

    let mut pages: Vec<Vec<String>> = Vec::new();
    let mut cursor: Option<String> = None;
    loop {
        let page = state.tokens(&s("alice"), &cursor, Some(2), true, &b).tokens;
        if page.is_empty() {
            break;
        }
        cursor = page.last().cloned();
        pages.push(page);
    }
    assert_eq!(pages.len(), 3);
    assert_eq!(pages[0], vec![s("a"), s("b")]);
    assert_eq!(pages[1], vec![s("c"), s("d")]);
    assert_eq!(pages[2], vec![s("e")]);

    let all = state.all_tokens(&None, Some(30), true, &b).tokens;
    assert_eq!(all, vec![s("a"), s("b"), s("c"), s("d"), s("e"), s("x")]);
}

#[test]
fn expired_tokens_hidden_unless_asked_for() {
    let mut state = fresh();
    let minted_at = block(1, 1_000);
    mint(&mut state, "t1", "alice", &minted_at);
    let much_later = block(9, 1_000 + 365 * DAY_NS);
    // hidden by default once the expiration window has passed
    let err = state.owner_of(&s("t1"), true, false, &much_later).unwrap_err();
    assert_eq!(err, ContractError::NotFound);
    assert!(state.nft_info(&s("t1"), false, &much_later).is_err());
    assert_eq!(state.tokens(&s("alice"), &None, None, false, &much_later).tokens.len(), 0);
    // visible again with the flag
    assert_eq!(
        state.owner_of(&s("t1"), true, true, &much_later).unwrap().owner,
        s("alice")
    );
    assert_eq!(state.tokens(&s("alice"), &None, None, true, &much_later).tokens.len(), 1);
    // and visible without it right before the window closes
    let just_before = block(9, 999 + 365 * DAY_NS);
    assert!(state.owner_of(&s("t1"), true, false, &just_before).is_ok());
}

#[test]
fn operator_grants_and_pagination() {
    let mut state = fresh();
    let b = block(5, 5_000);
    state
        .approve_all(&s("alice"), s("op_b"), Some(Expiration::Never), &b)
        .unwrap();
    state
        .approve_all(&s("alice"), s("op_a"), Some(Expiration::AtTime(4_000)), &b)
        .unwrap();
    state.approve_all(&s("alice"), s("op_c"), None, &b).unwrap();
    state.approve_all(&s("zed"), s("op_z"), None, &b).unwrap();

    // an expired grant reads as absent unless asked for
    let err = state.operator(&s("alice"), &s("op_a"), false, &b).unwrap_err();
    assert_eq!(err, ContractError::NotFound);
    let shown = state.operator(&s("alice"), &s("op_a"), true, &b).unwrap();
    assert_eq!(shown.approval.expires, Expiration::AtTime(4_000));

    let active = state.operators(&s("alice"), false, &None, None, &b).operators;
    assert_eq!(active.len(), 2);
    assert_eq!(active[0].spender, s("op_b"));
    assert_eq!(active[1].spender, s("op_c"));

    let paged = state.operators(&s("alice"), true, &Some(s("op_a")), Some(1), &b).operators;
    assert_eq!(paged.len(), 1);
    assert_eq!(paged[0].spender, s("op_b"));

    state.revoke_all(&s("alice"), &s("op_c"), &b).unwrap();
    assert!(state.operator(&s("alice"), &s("op_c"), true, &b).is_err());
    // revoking an absent grant is a no-op
    state.revoke_all(&s("alice"), &s("op_c"), &b).unwrap();
}

#[test]
fn two_phase_ownership_transfer() {
    let mut state = fresh();
    let b = block(10, 10_000);
    let err = state
        .update_minter_ownership(
            &s("mallory"),
            OwnershipAction::TransferOwnership { new_owner: s("next"), expiry: None },
            &b,
        )
        .unwrap_err();
    assert_eq!(err, ContractError::Unauthorized);

    state
        .update_minter_ownership(
            &s("minter"),
            OwnershipAction::TransferOwnership { new_owner: s("next"), expiry: None },
            &b,
        )
        .unwrap();
    // the proposal alone does not move the role
    let err = state
        .mint(&s("next"), s("t1"), s("alice"), None, None, &b)
        .unwrap_err();
    assert_eq!(err, ContractError::Unauthorized);

    let err = state
        .update_minter_ownership(&s("mallory"), OwnershipAction::AcceptOwnership, &b)
        .unwrap_err();
    assert_eq!(err, ContractError::Unauthorized);
    state
        .update_minter_ownership(&s("next"), OwnershipAction::AcceptOwnership, &b)
        .unwrap();
    assert_eq!(
        state.get_minter_ownership(),
        OwnershipState::Held { owner: s("next") }
    );
    state
        .mint(&s("next"), s("t1"), s("alice"), None, None, &b)
        .unwrap();

    // an expired proposal cannot be accepted
    state
        .update_minter_ownership(
            &s("next"),
            OwnershipAction::TransferOwnership {
                new_owner: s("slow"),
                expiry: Some(Expiration::AtHeight(5)),
            },
            &b,
        )
        .unwrap();
    let err = state
        .update_minter_ownership(&s("slow"), OwnershipAction::AcceptOwnership, &b)
        .unwrap_err();
    assert_eq!(err, ContractError::ExpirationPolicy);

    // renouncing leaves the role unheld and minting impossible
    state
        .update_minter_ownership(&s("next"), OwnershipAction::RenounceOwnership, &b)
        .unwrap();
    assert_eq!(state.get_minter_ownership(), OwnershipState::Unset);
    let err = state
        .mint(&s("next"), s("t2"), s("alice"), None, None, &b)
        .unwrap_err();
    assert_eq!(err, ContractError::Unauthorized);
    // accepting with no pending proposal reads as not found
    let err = state
        .update_creator_ownership(&s("anyone"), OwnershipAction::AcceptOwnership, &b)
        .unwrap_err();
    assert_eq!(err, ContractError::NotFound);
}

#[test]
fn withdraw_address_lifecycle() {
    let mut state = fresh();
    let err = state
        .set_withdraw_address(&s("mallory"), s("pay_here"))
        .unwrap_err();
    assert_eq!(err, ContractError::Unauthorized);
    let err = state.set_withdraw_address(&s("creator"), s("")).unwrap_err();
    assert_eq!(err, ContractError::InvalidInput);
    state.set_withdraw_address(&s("creator"), s("pay_here")).unwrap();
    assert_eq!(state.get_withdraw_address(), Some(s("pay_here")));
    state.remove_withdraw_address(&s("creator")).unwrap();
    assert_eq!(state.get_withdraw_address(), None);
    // clearing an absent address is a no-op
    state.remove_withdraw_address(&s("creator")).unwrap();
}

#[test]
fn approval_replaces_earlier_grant_for_same_spender() {
    let mut state = fresh();
    let b = block(1, 1);
    mint(&mut state, "t1", "alice", &b);
    state
        .approve(
            &s("alice"),
            s("spender"),
            &s("t1"),
            Some(Expiration::AtHeight(10)),
            &b,
        )
        .unwrap();
    state
        .approve(
            &s("alice"),
            s("spender"),
            &s("t1"),
            Some(Expiration::AtHeight(20)),
            &b,
        )
        .unwrap();
    let all = state.approvals(&s("t1"), true, true, &b).unwrap().approvals;
    assert_eq!(all.len(), 1);
    assert_eq!(all[0].expires, Expiration::AtHeight(20));
    // only the owner may approve or revoke
    let err = state
        .approve(&s("spender"), s("other"), &s("t1"), None, &b)
        .unwrap_err();
    assert_eq!(err, ContractError::Unauthorized);
    let err = state.revoke(&s("spender"), &s("spender"), &s("t1"), &b).unwrap_err();
    assert_eq!(err, ContractError::Unauthorized);
}

#[test]
fn nft_info_reports_stored_record() {
    let mut state = fresh();
    let b = block(1, 77);
    state
        .mint(
            &s("minter"),
            s("t1"),
            s("alice"),
            Some(s("ipfs://tokens/1.json")),
            None,
            &b,
        )
        .unwrap();
    let info = state.nft_info(&s("t1"), true, &b).unwrap();
    assert_eq!(info.token_uri, Some(s("ipfs://tokens/1.json")));
    assert_eq!(info.extension, None);
    let both = state.all_nft_info(&s("t1"), true, true, &b).unwrap();
    assert_eq!(both.access.owner, s("alice"));
    assert_eq!(both.info.token_uri, Some(s("ipfs://tokens/1.json")));
}

#[test]
fn owner_index_extractor_returns_owner() {
    let info = NftInfo {
        owner: s("alice"),
        approvals: vec![],
        token_uri: None,
        extension: None,
    };
    assert_eq!(token_owner_idx(&info), &s("alice"));
}

#[test]
fn empty_extension_trivially_validates_and_updates() {
    assert!(EmptyExtension.validate().is_ok());
    assert!(Some(EmptyExtension).validate().is_ok());
    assert!(None::<EmptyExtension>.validate().is_ok());
    assert_eq!(EmptyExtension.update(&EmptyExtension).unwrap(), EmptyExtension);
    assert_eq!(
        Some(EmptyExtension).update(&EmptyExtension).unwrap(),
        Some(EmptyExtension)
    );
    assert_eq!(
        None::<EmptyExtension>.update(&EmptyExtension).unwrap(),
        Some(EmptyExtension)
    );
}

#[test]
fn error_messages_name_their_cause() {
    assert_eq!(ContractError::Unauthorized.message(), s("unauthorized"));
    assert_eq!(
        ContractError::RoyaltyShareDeltaTooBig.message(),
        s("share increase cannot be greater than 2%")
    );
    assert_eq!(
        ContractError::Underflow.message(),
        s("token count underflow")
    );
}
