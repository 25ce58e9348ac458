use paykit_lib::get_known_contacts;
use paykit_lib::get_payment_endpoint;
use paykit_lib::get_payment_list;
use paykit_lib::map_transport_error;
use paykit_lib::memory::MemoryStore;
use paykit_lib::paths::contacts_list_address;
use paykit_lib::remove_payment_endpoint;
use paykit_lib::set_payment_endpoint;
use paykit_lib::EndpointData;
use paykit_lib::MethodId;
use paykit_lib::PaykitError;
use paykit_lib::PublicKey;

fn test_key() -> PublicKey {
    PublicKey(String::from("o1gg96ewuojmopcjbz8895478wdtxtzzuxnfjjz8o8e77csa1ngo"))
}

fn fresh_store() -> (MemoryStore, PublicKey) {
    let owner = test_key();
    (MemoryStore::new(owner.clone()), owner)
}

#[test]
fn endpoint_round_trip_and_update() {
    let (mut store, public_key) = fresh_store();

    let method = MethodId("onchain".into());
    let endpoint = EndpointData("{\"address\":\"bc1...\"}".into());

    set_payment_endpoint(&mut store, method.clone(), endpoint.clone()).unwrap();

    let fetched = get_payment_endpoint(&store, &public_key, &method).unwrap();
    assert_eq!(fetched, Some(endpoint.clone()));

    let list = get_payment_list(&store, &public_key).unwrap();
    assert_eq!(list.len(), 1);
    assert_eq!(list.get(&method), Some(&endpoint));

    let new_endpoint = EndpointData("{\"address\":\"1c1...\"}".into());
    set_payment_endpoint(&mut store, method.clone(), new_endpoint.clone()).unwrap();

    let updated = get_payment_endpoint(&store, &public_key, &method).unwrap();
    assert_eq!(updated, Some(new_endpoint.clone()));

    let list = get_payment_list(&store, &public_key).unwrap();
    assert_eq!(list.len(), 1);
    assert_eq!(list.get(&method), Some(&new_endpoint));
}

#[test]
fn missing_endpoint_returns_none() {
    let (store, public_key) = fresh_store();
    let method = MethodId("bolt11".into());

    let missing = get_payment_endpoint(&store, &public_key, &method).unwrap();
    assert!(missing.is_none());
}

#[test]
fn list_reflects_additions_and_removals() {
    let (mut store, public_key) = fresh_store();

    let onchain = MethodId("onchain".into());
    let lightning = MethodId("lightning".into());
    let onchain_data = EndpointData("{\"address\":\"bc1...\"}".into());
    let lightning_data = EndpointData("{\"bolt11\":\"ln...\"}".into());

    set_payment_endpoint(&mut store, onchain.clone(), onchain_data.clone()).unwrap();
    set_payment_endpoint(&mut store, lightning.clone(), lightning_data.clone()).unwrap();

    let list = get_payment_list(&store, &public_key).unwrap();
    assert_eq!(list.len(), 2);
    assert_eq!(list.get(&onchain), Some(&onchain_data));
    assert_eq!(list.get(&lightning), Some(&lightning_data));

    remove_payment_endpoint(&mut store, onchain.clone()).unwrap();
    let list = get_payment_list(&store, &public_key).unwrap();
    assert_eq!(list.len(), 1);
    assert_eq!(list.get(&onchain), None);
    assert_eq!(list.get(&lightning), Some(&lightning_data));

    remove_payment_endpoint(&mut store, lightning.clone()).unwrap();
    let empty = get_payment_list(&store, &public_key).unwrap();
    assert!(empty.is_empty());
}

#[test]
fn removing_missing_endpoint_is_error() {
    let (mut store, _public_key) = fresh_store();
    let method = MethodId("unused".into());

    remove_payment_endpoint(&mut store, method)
        .expect_err("removing non-existent endpoint should fail");
}

#[test]
fn lists_known_contacts() {
    let (mut store, public_key) = fresh_store();

    let contacts = get_known_contacts(&store, &public_key).unwrap();
    assert!(contacts.is_empty());

    // Seed two contacts as empty marker files under the follows directory;
    // marker names must parse as real public keys.
    let contact_a = PublicKey(pubky::Keypair::random().public_key().z32());
    let contact_b = PublicKey(pubky::Keypair::random().public_key().z32());
    assert_ne!(contact_a, contact_b);
    let mut marker_a = contacts_list_address(&public_key);
    marker_a.push_str(&contact_a.0);
    let mut marker_b = contacts_list_address(&public_key);
    marker_b.push_str(&contact_b.0);
    store.put(marker_a, String::new());
    store.put(marker_b, String::new());

    let contacts = get_known_contacts(&store, &public_key).unwrap();
    assert_eq!(contacts.len(), 2);
    assert!(contacts.contains(&contact_a));
    assert!(contacts.contains(&contact_b));
}

#[test]
fn unpublished_payee_reads_as_empty() {
    let (store, public_key) = fresh_store();
    let other = PublicKey(String::from("someoneelse"));

    let list = get_payment_list(&store, &public_key).unwrap();
    assert!(list.is_empty());
    let list = get_payment_list(&store, &other).unwrap();
    assert!(list.is_empty());
    let endpoint = get_payment_endpoint(&store, &other, &MethodId("lightning".into())).unwrap();
    assert!(endpoint.is_none());
}

#[test]
fn empty_payload_reads_as_absent() {
    let (mut store, public_key) = fresh_store();
    let method = MethodId("onchain".into());

    set_payment_endpoint(&mut store, method.clone(), EndpointData(String::new())).unwrap();

    let fetched = get_payment_endpoint(&store, &public_key, &method).unwrap();
    assert!(fetched.is_none());
    let list = get_payment_list(&store, &public_key).unwrap();
    assert!(list.is_empty());
}

#[test]
fn removal_leaves_other_payees_methods_untouched() {
    let (mut store, public_key) = fresh_store();
    let keep = MethodId("keep".into());
    let drop = MethodId("drop".into());
    let keep_data = EndpointData("kept payload".into());

    set_payment_endpoint(&mut store, keep.clone(), keep_data.clone()).unwrap();
    set_payment_endpoint(&mut store, drop.clone(), EndpointData("gone".into())).unwrap();
    remove_payment_endpoint(&mut store, drop.clone()).unwrap();

    assert_eq!(
        get_payment_endpoint(&store, &public_key, &keep).unwrap(),
        Some(keep_data)
    );
    assert!(get_payment_endpoint(&store, &public_key, &drop).unwrap().is_none());
}

#[test]
fn transport_error_gets_operation_label() {
    let labelled = map_transport_error("get_payment_list", PaykitError::Transport("boom".into()));
    match labelled {
        PaykitError::Transport(msg) => assert_eq!(msg, "get_payment_list: boom"),
        _ => panic!("expected a transport error"),
    }

    let other = map_transport_error("get_payment_list", PaykitError::Unimplemented("feature"));
    assert!(matches!(other, PaykitError::Unimplemented("feature")));
}

#[test]
fn error_messages_are_readable() {
    assert_eq!(
        PaykitError::Transport("no route".into()).message(),
        "transport error: no route"
    );
    assert_eq!(
        PaykitError::Unimplemented("sweep").message(),
        "sweep is not implemented yet"
    );
}
