use reserves_verifier::bytes::{append_bytes, copy_bytes};
use reserves_verifier::error::VerifyError;
use reserves_verifier::model::{Network, Output, Unspent};
use reserves_verifier::resolver::{
    accept_addresses, confirmation_threshold, resolve_output, retain_settled, select_network,
};

fn list(addresses: &[&str]) -> Vec<String> {
    addresses.iter().map(|a| a.to_string()).collect()
}

fn entry(tag: u8, position: u64, height: u64) -> Unspent {
    Unspent { txid: [tag; 32], position, height }
}

fn heights(listing: &Vec<Unspent>) -> Vec<u64> {
    listing.iter().map(|entry| entry.height).collect()
}

#[test]
fn ledger_follows_the_first_address() {
    assert_eq!(select_network(&list(&["2Mtkk3kjyN8hgdGXPuJCNnwS3BBY4K2frhY"])), Network::Testnet);
    assert_eq!(select_network(&list(&["1BvBMSEYstWetqTFn5Au4m4GFg7xJaNVN2"])), Network::Mainnet);
    assert_eq!(
        select_network(&list(&["1BvBMSEYstWetqTFn5Au4m4GFg7xJaNVN2", "2Mtkk3kjyN8hgdGXPuJCNnwS3BBY4K2frhY"])),
        Network::Mainnet
    );
    assert_eq!(
        select_network(&list(&["2Mtkk3kjyN8hgdGXPuJCNnwS3BBY4K2frhY", "1BvBMSEYstWetqTFn5Au4m4GFg7xJaNVN2"])),
        Network::Testnet
    );
    assert_eq!(select_network(&list(&["tb1qanjjv4cs20dgv32vncrxw702l8g4qtn2m9wn7d"])), Network::Mainnet);
    assert_eq!(select_network(&list(&[""])), Network::Mainnet);
    assert_eq!(select_network(&list(&[])), Network::Mainnet);
}

#[test]
fn addresses_are_parsed_into_their_scripts() {
    let scripts = accept_addresses(&list(&[
        "2Mtkk3kjyN8hgdGXPuJCNnwS3BBY4K2frhY",
        "tb1qanjjv4cs20dgv32vncrxw702l8g4qtn2m9wn7d",
        "1BvBMSEYstWetqTFn5Au4m4GFg7xJaNVN2",
    ]))
    .unwrap();
    assert_eq!(scripts.len(), 3);
    assert_eq!(scripts[0], vec![
        0xa9, 0x14, 0x10, 0x8d, 0x48, 0x07, 0xe9, 0x68, 0xd5, 0x16, 0x2e, 0xc9, 0xce, 0x2c, 0xa0,
        0x8b, 0xa8, 0xee, 0x04, 0x02, 0x5e, 0x14, 0x87,
    ]);
    assert_eq!(scripts[1], vec![
        0x00, 0x14, 0xec, 0xe5, 0x26, 0x57, 0x10, 0x53, 0xda, 0x86, 0x45, 0x4c, 0x9e, 0x06, 0x67,
        0x79, 0xea, 0xf9, 0xd1, 0x50, 0x2e, 0x6a,
    ]);
    assert_eq!(scripts[2], vec![
        0x76, 0xa9, 0x14, 0x77, 0xbf, 0xf2, 0x0c, 0x60, 0xe5, 0x22, 0xdf, 0xaa, 0x33, 0x50, 0xc3,
        0x9b, 0x03, 0x0a, 0x5d, 0x00, 0x4e, 0x83, 0x9a, 0x88, 0xac,
    ]);
}

#[test]
fn no_address_is_refused() {
    assert_eq!(accept_addresses(&list(&[])), Err(VerifyError::NoAddressProvided));
}

#[test]
fn first_unparsable_address_is_reported() {
    assert_eq!(accept_addresses(&list(&["nonsense"])), Err(VerifyError::InvalidAddress(0)));
    assert_eq!(accept_addresses(&list(&[""])), Err(VerifyError::InvalidAddress(0)));
    assert_eq!(
        accept_addresses(&list(&[
            "2Mtkk3kjyN8hgdGXPuJCNnwS3BBY4K2frhY",
            "2Mtkk3kjyN8hgdGXPuJCNnwS3BBY4K2frhZ",
            "nonsense",
        ])),
        Err(VerifyError::InvalidAddress(1))
    );
}

#[test]
fn threshold_is_the_height_less_the_confirmations() {
    assert_eq!(confirmation_threshold(800_000, 3), 799_997);
    assert_eq!(confirmation_threshold(3, 3), 0);
    assert_eq!(confirmation_threshold(2, 3), 0);
    assert_eq!(confirmation_threshold(0, 0), 0);
    assert_eq!(confirmation_threshold(u64::MAX, 0), u64::MAX);
    assert_eq!(confirmation_threshold(0, u64::MAX), 0);
}

#[test]
fn confirmed_entries_up_to_the_threshold_are_kept_in_order() {
    let listing = vec![
        entry(1, 0, 0),
        entry(2, 0, 100),
        entry(3, 0, 97),
        entry(4, 0, 98),
        entry(5, 0, 1),
        entry(6, 0, 97),
    ];
    let kept = retain_settled(&listing, confirmation_threshold(100, 3));
    assert_eq!(heights(&kept), vec![97, 1, 97]);
    assert_eq!(kept[0].txid, [3; 32]);
    assert_eq!(kept[1].txid, [5; 32]);
    assert_eq!(kept[2].txid, [6; 32]);
    assert_eq!(listing.len(), 6);
}

#[test]
fn nothing_is_kept_below_a_threshold_of_zero() {
    let listing = vec![entry(1, 0, 0), entry(2, 0, 1)];
    assert!(retain_settled(&listing, 0).is_empty());
    assert!(retain_settled(&Vec::new(), 10).is_empty());
}

#[test]
fn record_takes_the_output_at_the_listed_position() {
    let outputs = vec![
        Output { value: 5, script_pubkey: vec![1] },
        Output { value: 6, script_pubkey: vec![2, 3] },
    ];
    let record = resolve_output(&entry(9, 1, 77), &outputs).unwrap();
    assert_eq!(record.outpoint.txid, [9; 32]);
    assert_eq!(record.outpoint.vout, 1);
    assert_eq!(record.output.value, 6);
    assert_eq!(record.output.script_pubkey, vec![2, 3]);
    assert_eq!(record.height, 77);
    let copy = record.clone();
    assert_eq!(copy.output.script_pubkey, vec![2, 3]);
    assert_eq!(copy.outpoint.vout, 1);
}

#[test]
fn entry_that_points_past_the_outputs_does_not_fit_the_chain() {
    let outputs = vec![Output { value: 5, script_pubkey: vec![1] }];
    assert!(matches!(resolve_output(&entry(9, 1, 77), &outputs), Err(VerifyError::ChainQueryError)));
    assert!(matches!(
        resolve_output(&entry(9, 0, 77), &Vec::new()),
        Err(VerifyError::ChainQueryError)
    ));
    assert!(matches!(
        resolve_output(&entry(9, 1 << 32, 77), &outputs),
        Err(VerifyError::ChainQueryError)
    ));
    assert!(matches!(
        resolve_output(&entry(9, u64::MAX, 77), &outputs),
        Err(VerifyError::ChainQueryError)
    ));
}

#[test]
fn bytes_are_copied_and_appended() {
    assert_eq!(copy_bytes(&[1, 2, 3]), vec![1, 2, 3]);
    assert_eq!(copy_bytes(&[]), Vec::<u8>::new());
    let mut bytes = vec![1, 2];
    append_bytes(&mut bytes, &[3, 4]);
    append_bytes(&mut bytes, &[]);
    assert_eq!(bytes, vec![1, 2, 3, 4]);
}
