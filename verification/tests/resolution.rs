use paykit_lib::get_payment_list;
use paykit_lib::memory::MemoryStore;
use paykit_lib::paths::contact_marker_path;
use paykit_lib::paths::contacts_list_address;
use paykit_lib::paths::is_pseudo_dir;
use paykit_lib::paths::payment_endpoint_address;
use paykit_lib::paths::payment_endpoint_path;
use paykit_lib::paths::payment_list_address;
use paykit_lib::paths::trailing_segment;
use paykit_lib::paths::PAYKIT_PATH_PREFIX;
use paykit_lib::paths::PUBKY_FOLLOWS_PATH;
use paykit_lib::resolve::aggregate_payments;
use paykit_lib::resolve::classify_fetch;
use paykit_lib::resolve::classify_listing;
use paykit_lib::resolve::is_not_found_status;
use paykit_lib::resolve::resolve_contact_listing;
use paykit_lib::resolve::resolve_payment_listing;
use paykit_lib::resolve::FetchOutcome;
use paykit_lib::resolve::ListingOutcome;
use paykit_lib::resolve::ResourceEntry;
use paykit_lib::EndpointData;
use paykit_lib::MethodId;
use paykit_lib::PaykitError;
use paykit_lib::PublicKey;
use paykit_lib::SupportedPayments;

fn entry(path: &str, address: &str) -> ResourceEntry {
    ResourceEntry { path: path.into(), address: address.into() }
}

#[test]
fn addresses_follow_the_convention() {
    let payee = PublicKey("alice".into());
    let method = MethodId("lightning".into());

    assert_eq!(PAYKIT_PATH_PREFIX, "/pub/paykit.app/v0/");
    assert_eq!(PUBKY_FOLLOWS_PATH, "/pub/pubky.app/follows/");
    assert_eq!(payment_list_address(&payee), "pubkyalice/pub/paykit.app/v0/");
    assert_eq!(
        payment_endpoint_address(&payee, &method),
        "pubkyalice/pub/paykit.app/v0/lightning"
    );
    assert_eq!(contacts_list_address(&payee), "pubkyalice/pub/pubky.app/follows/");
    assert_eq!(payment_endpoint_path(&method), "/pub/paykit.app/v0/lightning");
    assert_eq!(
        contact_marker_path(&PublicKey("bob".into())),
        "/pub/pubky.app/follows/bob"
    );
}

#[test]
fn trailing_segments_are_extracted() {
    assert_eq!(trailing_segment("a/b/c").as_deref(), Some("c"));
    assert_eq!(trailing_segment("lightning").as_deref(), Some("lightning"));
    assert_eq!(trailing_segment("a/b/"), None);
    assert_eq!(trailing_segment(""), None);
    assert!(is_pseudo_dir("a/b/"));
    assert!(!is_pseudo_dir("a/b"));
    assert!(!is_pseudo_dir(""));
}

#[test]
fn payment_listing_skips_pseudo_directories() {
    let entries = vec![
        entry("pubkyalice/pub/paykit.app/v0/nested/", "pubkyalice/pub/paykit.app/v0/nested/"),
        entry("pubkyalice/pub/paykit.app/v0/onchain", "pubkyalice/pub/paykit.app/v0/onchain"),
    ];
    let resolved = resolve_payment_listing(&entries).unwrap();
    assert_eq!(resolved.len(), 1);
    assert_eq!(resolved[0].0, MethodId("onchain".into()));
    assert_eq!(resolved[0].1, "pubkyalice/pub/paykit.app/v0/onchain");
}

#[test]
fn malformed_payment_entry_fails_the_operation() {
    let entries = vec![entry("", "")];
    let err = resolve_payment_listing(&entries).unwrap_err();
    match err {
        PaykitError::Transport(msg) => {
            assert_eq!(msg, "invalid resource returned for supported payment entry")
        },
        _ => panic!("expected a transport error"),
    }
}

#[test]
fn contact_listing_reads_trailing_segments_as_keys() {
    let key_a = pubky::Keypair::random().public_key().z32();
    let key_b = pubky::Keypair::random().public_key().z32();
    let path_a = format!("pubkyalice/pub/pubky.app/follows/{key_a}");
    let path_b = format!("pubkyalice/pub/pubky.app/follows/{key_b}");
    let entries = vec![
        entry(&path_a, &path_a),
        entry("pubkyalice/pub/pubky.app/follows/sub/", "pubkyalice/pub/pubky.app/follows/sub/"),
        entry(&path_b, &path_b),
    ];
    let contacts = resolve_contact_listing(&entries).unwrap();
    assert_eq!(contacts.len(), 2);
    assert!(contacts.contains(&PublicKey(key_a)));
    assert!(contacts.contains(&PublicKey(key_b)));
}

#[test]
fn malformed_contact_entry_fails_the_operation() {
    let entries = vec![entry("", "")];
    let err = resolve_contact_listing(&entries).unwrap_err();
    match err {
        PaykitError::Transport(msg) => {
            assert_eq!(msg, "invalid resource returned for contact entry")
        },
        _ => panic!("expected a transport error"),
    }
}

#[test]
fn unparsable_contact_name_fails_the_operation() {
    let entries = vec![entry(
        "pubkyalice/pub/pubky.app/follows/not-a-key",
        "pubkyalice/pub/pubky.app/follows/not-a-key",
    )];
    let err = resolve_contact_listing(&entries).unwrap_err();
    match err {
        PaykitError::Transport(msg) => {
            assert!(msg.starts_with("invalid contact entry 'not-a-key': "))
        },
        _ => panic!("expected a transport error"),
    }
}

#[test]
fn fetch_classification_applies_absence_policy() {
    assert_eq!(
        classify_fetch(FetchOutcome::Fetched("payload".into()), "fetch endpoint").unwrap(),
        Some("payload".to_string())
    );
    assert_eq!(
        classify_fetch(FetchOutcome::Fetched(String::new()), "fetch endpoint").unwrap(),
        None
    );
    assert_eq!(classify_fetch(FetchOutcome::Absent, "fetch endpoint").unwrap(), None);
    let err = classify_fetch(FetchOutcome::Failed("timeout".into()), "fetch endpoint").unwrap_err();
    match err {
        PaykitError::Transport(msg) => assert_eq!(msg, "fetch endpoint: timeout"),
        _ => panic!("expected a transport error"),
    }
}

#[test]
fn listing_classification_applies_absence_policy() {
    let listed = classify_listing(
        ListingOutcome::Listed(vec![entry("a/b", "a/b")]),
        "list supported payments",
    )
    .unwrap();
    assert_eq!(listed.len(), 1);
    assert_eq!(listed[0].path, "a/b");

    let absent = classify_listing(ListingOutcome::Absent, "list supported payments").unwrap();
    assert!(absent.is_empty());

    let err = classify_listing(ListingOutcome::Failed("refused".into()), "list supported payments")
        .unwrap_err();
    match err {
        PaykitError::Transport(msg) => assert_eq!(msg, "list supported payments: refused"),
        _ => panic!("expected a transport error"),
    }
}

#[test]
fn not_found_statuses_read_as_absence() {
    assert!(is_not_found_status(404));
    assert!(is_not_found_status(410));
    assert!(!is_not_found_status(200));
    assert!(!is_not_found_status(500));
    assert!(!is_not_found_status(403));
}

#[test]
fn aggregation_skips_gaps_and_keeps_the_latest() {
    let lightning = MethodId("lightning".into());
    let onchain = MethodId("onchain".into());
    let gone = MethodId("gone".into());
    let blank = MethodId("blank".into());
    let items = vec![
        (lightning.clone(), Some(EndpointData("first".into()))),
        (gone.clone(), None),
        (blank.clone(), Some(EndpointData(String::new()))),
        (onchain.clone(), Some(EndpointData("addr".into()))),
        (lightning.clone(), Some(EndpointData("latest".into()))),
    ];
    let payments = aggregate_payments(items);
    assert_eq!(payments.len(), 2);
    assert_eq!(payments.get(&lightning), Some(&EndpointData("latest".into())));
    assert_eq!(payments.get(&onchain), Some(&EndpointData("addr".into())));
    assert_eq!(payments.get(&gone), None);
    assert_eq!(payments.get(&blank), None);
}

#[test]
fn supported_payments_behaves_as_a_map() {
    let mut payments = SupportedPayments::new();
    assert!(payments.is_empty());
    assert_eq!(payments.len(), 0);

    let method = MethodId("onchain".into());
    payments.insert(method.clone(), EndpointData("one".into()));
    payments.insert(MethodId("lightning".into()), EndpointData("two".into()));
    payments.insert(method.clone(), EndpointData("three".into()));

    assert_eq!(payments.len(), 2);
    assert!(!payments.is_empty());
    assert_eq!(payments.get(&method), Some(&EndpointData("three".into())));
    assert_eq!(payments.entries().len(), 2);
}

#[test]
fn deeper_entries_resolve_as_directories_and_are_skipped() {
    let owner = PublicKey("alice".into());
    let mut store = MemoryStore::new(owner.clone());

    let mut nested = payment_list_address(&owner);
    nested.push_str("wallet/primary");
    store.put(nested, "deep".into());

    let mut direct = payment_list_address(&owner);
    direct.push_str("onchain");
    store.put(direct.clone(), "{\"address\":\"bc1...\"}".into());

    let listing = store.list_shallow(&payment_list_address(&owner));
    assert_eq!(listing.len(), 2);
    assert!(listing.iter().any(|e| is_pseudo_dir(&e.path)));
    assert!(listing.iter().any(|e| e.path == direct));

    let list = get_payment_list(&store, &owner).unwrap();
    assert_eq!(list.len(), 1);
    assert_eq!(
        list.get(&MethodId("onchain".into())),
        Some(&EndpointData("{\"address\":\"bc1...\"}".into()))
    );
}

#[test]
fn store_get_put_delete_round_trip() {
    let owner = PublicKey("alice".into());
    let mut store = MemoryStore::new(owner);

    let addr = String::from("pubkyalice/pub/paykit.app/v0/onchain");
    assert_eq!(store.get(&addr), None);
    store.put(addr.clone(), "one".into());
    assert_eq!(store.get(&addr).as_deref(), Some("one"));
    store.put(addr.clone(), "two".into());
    assert_eq!(store.get(&addr).as_deref(), Some("two"));
    assert!(store.delete(&addr));
    assert_eq!(store.get(&addr), None);
    assert!(!store.delete(&addr));
}
