use nft_contract::{Address, DataKey, Error, NFTContract, NFTDetail};

const CONTRACT: Address = Address { id: 1 };
const ADMIN: Address = Address { id: 2 };
const MINTER: Address = Address { id: 3 };
const RECEIVER: Address = Address { id: 4 };
const STRANGER: Address = Address { id: 5 };

const LONG_URI: &str = "https://cdn.pixabay.com/photo/2017/09/12/11/56/universe-2742113_1280.jpg";

fn create_contract() -> NFTContract {
    let mut ledger = NFTContract::new(CONTRACT);
    ledger
        .initialize(ADMIN, String::from("ART NFT"), String::from("ANFT"))
        .unwrap();
    ledger
}

struct Setup {
    ledger: NFTContract,
    minter: Address,
    token_uri: String,
    token_id: u128,
}

impl Setup {
    fn new() -> Self {
        let mut ledger = create_contract();
        let minter = MINTER;
        let token_uri = String::from(LONG_URI);
        let token_id = ledger
            .mint(&vec![minter], minter, token_uri.clone())
            .unwrap();
        Setup { ledger, minter, token_uri, token_id }
    }
}

#[test]
fn test_mint() {
    let setup = Setup::new();
    let expected_nft = NFTDetail { owner: setup.minter, uri: setup.token_uri.clone() };
    let nft_detail = setup.ledger.get_nft_detail(setup.token_id);
    assert_eq!(expected_nft.owner, nft_detail.owner);
    assert_eq!(expected_nft.uri, nft_detail.uri);
}

#[test]
fn test_nft_transfer_from() {
    let mut setup = Setup::new();
    let receiver = RECEIVER;
    setup
        .ledger
        .transfer_from(&vec![setup.minter], setup.minter, receiver, setup.token_id)
        .unwrap();
    let nft_detail = setup.ledger.get_nft_detail(setup.token_id);
    assert_eq!(receiver, nft_detail.owner);
}

#[test]
fn test_burn() {
    let mut setup = Setup::new();
    setup.ledger.burn(&vec![setup.minter], setup.minter, setup.token_id).unwrap();
    let nft_detail = setup.ledger.get_nft_detail(setup.token_id);
    let expected_uri = String::from("");
    assert_eq!(CONTRACT, nft_detail.owner);
    assert_eq!(&expected_uri, &nft_detail.uri);
}

#[test]
fn initialize_sets_name_symbol_and_admin() {
    let ledger = create_contract();
    assert_eq!(ledger.name(), Ok(String::from("ART NFT")));
    assert_eq!(ledger.symbol(), Ok(String::from("ANFT")));
    assert_eq!(ledger.read_administrator(), Ok(ADMIN));
    assert!(ledger.has_administrator());
    assert!(ledger.has(&DataKey::Admin));
    assert!(ledger.has(&DataKey::Metadata));
    assert!(!ledger.has(&DataKey::Counter));
}

#[test]
fn uninitialized_ledger_reports_not_initialized() {
    let ledger = NFTContract::new(CONTRACT);
    assert!(!ledger.has_administrator());
    assert_eq!(ledger.read_administrator(), Err(Error::NotInitialized));
    assert_eq!(ledger.name(), Err(Error::NotInitialized));
    assert_eq!(ledger.symbol(), Err(Error::NotInitialized));
}

#[test]
fn second_initialize_fails_whatever_the_arguments() {
    let mut ledger = create_contract();
    assert_eq!(
        ledger.initialize(STRANGER, String::from("OTHER"), String::from("O")),
        Err(Error::AlreadyInitialized)
    );
    assert_eq!(
        ledger.initialize(ADMIN, String::from("ART NFT"), String::from("ANFT")),
        Err(Error::AlreadyInitialized)
    );
    assert_eq!(ledger.read_administrator(), Ok(ADMIN));
    assert_eq!(ledger.name(), Ok(String::from("ART NFT")));
}

#[test]
fn first_mint_returns_two_and_records_the_token() {
    let mut ledger = create_contract();
    let uri = "https://example.com/art.jpg";
    assert_eq!(ledger.last_token_id(), 1);
    assert_eq!(ledger.mint(&vec![MINTER], MINTER, String::from(uri)), Ok(2));
    let detail = ledger.get_nft_detail(2);
    assert_eq!(detail.owner, MINTER);
    assert_eq!(detail.uri, uri);
    assert_eq!(ledger.last_token_id(), 2);
    assert!(ledger.has(&DataKey::Counter));
    assert!(ledger.has(&DataKey::Token(2)));
    assert!(!ledger.has(&DataKey::Token(3)));
}

#[test]
fn mint_ids_strictly_increase() {
    let mut ledger = create_contract();
    let a = ledger.mint(&vec![MINTER], MINTER, String::from("a")).unwrap();
    let b = ledger.mint(&vec![RECEIVER], RECEIVER, String::from("b")).unwrap();
    ledger.burn(&vec![MINTER], MINTER, a).unwrap();
    let c = ledger.mint(&vec![MINTER], MINTER, String::from("c")).unwrap();
    assert_eq!((a, b, c), (2, 3, 4));
    assert_eq!(ledger.get_nft_detail(c).uri, "c");
}

#[test]
fn never_minted_id_reads_as_unowned() {
    let ledger = create_contract();
    for id in [0u128, 1, 2, 99, u128::MAX] {
        let detail = ledger.get_nft_detail(id);
        assert_eq!(detail.owner, CONTRACT);
        assert_eq!(detail.uri, "");
    }
}

#[test]
fn transfer_then_burn_by_new_owner() {
    let mut setup = Setup::new();
    let t = setup.token_id;
    setup.ledger.transfer_from(&vec![MINTER], MINTER, RECEIVER, t).unwrap();
    assert_eq!(setup.ledger.get_nft_detail(t).uri, LONG_URI);
    assert_eq!(setup.ledger.burn(&vec![MINTER], MINTER, t), Err(Error::InvalidSender));
    setup.ledger.burn(&vec![RECEIVER], RECEIVER, t).unwrap();
    let detail = setup.ledger.get_nft_detail(t);
    assert_eq!(detail.owner, CONTRACT);
    assert_eq!(detail.uri, "");
}

#[test]
fn mint_rejects_unauthorized_contract_and_empty_uri() {
    let mut ledger = create_contract();
    assert_eq!(
        ledger.mint(&vec![STRANGER], MINTER, String::from("u")),
        Err(Error::Unauthorized)
    );
    assert_eq!(
        ledger.mint(&vec![CONTRACT], CONTRACT, String::from("u")),
        Err(Error::InvalidRecipient)
    );
    assert_eq!(ledger.mint(&vec![MINTER], MINTER, String::new()), Err(Error::EmptyURI));
    assert_eq!(ledger.last_token_id(), 1);
    assert!(!ledger.has(&DataKey::Counter));
}

#[test]
fn unauthorized_calls_change_nothing() {
    let mut setup = Setup::new();
    let t = setup.token_id;
    assert_eq!(setup.ledger.burn(&vec![], MINTER, t), Err(Error::Unauthorized));
    assert_eq!(
        setup.ledger.transfer_from(&vec![RECEIVER], MINTER, RECEIVER, t),
        Err(Error::Unauthorized)
    );
    let detail = setup.ledger.get_nft_detail(t);
    assert_eq!(detail.owner, MINTER);
    assert_eq!(detail.uri, LONG_URI);
    assert_eq!(setup.ledger.last_token_id(), t);
}

#[test]
fn non_owner_cannot_burn_or_transfer() {
    let mut setup = Setup::new();
    let t = setup.token_id;
    assert_eq!(setup.ledger.burn(&vec![STRANGER], STRANGER, t), Err(Error::InvalidSender));
    assert_eq!(
        setup.ledger.transfer_from(&vec![STRANGER], STRANGER, RECEIVER, t),
        Err(Error::InvalidSender)
    );
    assert_eq!(setup.ledger.burn(&vec![MINTER], MINTER, 77), Err(Error::InvalidSender));
    assert_eq!(setup.ledger.has_nft_owner(STRANGER, t), true);
    assert_eq!(setup.ledger.has_nft_owner(MINTER, t), false);
}

#[test]
fn ledger_identity_cannot_act_on_unowned_tokens() {
    let mut setup = Setup::new();
    let t = setup.token_id;
    setup.ledger.burn(&vec![MINTER], MINTER, t).unwrap();
    assert_eq!(
        setup.ledger.burn(&vec![CONTRACT], CONTRACT, t),
        Err(Error::NotContractAddress)
    );
    assert_eq!(
        setup.ledger.transfer_from(&vec![CONTRACT], CONTRACT, RECEIVER, 50),
        Err(Error::NotContractAddress)
    );
    assert_eq!(setup.ledger.get_nft_detail(50).owner, CONTRACT);
}

#[test]
fn authorization_checks_the_acting_identity() {
    assert!(nft_contract::is_authorized(&vec![ADMIN, MINTER], MINTER));
    assert!(!nft_contract::is_authorized(&vec![ADMIN, RECEIVER], MINTER));
    assert!(!nft_contract::is_authorized(&vec![], MINTER));
}
