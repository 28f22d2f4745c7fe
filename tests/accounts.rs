use dtp::accounts::{funder_from_hex, generate, provision, same_address, Address};
use dtp::error::{ConfigIssue, DtpError};

fn key(last: u8) -> [u8; 32] {
    let mut k = [0u8; 32];
    k[31] = last;
    k
}

fn hex_address(s: &str) -> Address {
    let mut bytes = [0u8; 20];
    for i in 0..20 {
        bytes[i] = u8::from_str_radix(&s[2 * i..2 * i + 2], 16).unwrap();
    }
    Address { bytes }
}

fn all_distinct(addrs: &[Address]) -> bool {
    let mut v: Vec<[u8; 20]> = addrs.iter().map(|a| a.bytes).collect();
    v.sort();
    v.dedup();
    v.len() == addrs.len()
}

#[test]
fn generate_zero_accounts() {
    assert_eq!(generate(0).unwrap().len(), 0);
}

#[test]
fn generate_one_account() {
    let v = generate(1).unwrap();
    assert_eq!(v.len(), 1);
}

#[test]
fn generate_thousand_distinct_accounts() {
    let v = generate(1000).unwrap();
    assert_eq!(v.len(), 1000);
    let addrs: Vec<Address> = v.iter().map(|a| a.address()).collect();
    assert!(all_distinct(&addrs));
}

#[test]
fn provision_derives_known_addresses() {
    let v = provision(&vec![key(1), key(2)]).unwrap();
    assert_eq!(v[0].address(), hex_address("7e5f4552091a69125d5dfcb7b8c2659029395bdf"));
    assert_eq!(v[1].address(), hex_address("2b5ad5c4795c026514f8317c7a215e218dccd6cf"));
    assert_eq!(v[0].secret(), key(1));
}

#[test]
fn provision_refuses_zero_key() {
    let r = provision(&vec![key(1), [0u8; 32]]);
    assert_eq!(r.unwrap_err(), DtpError::Configuration(ConfigIssue::MalformedPrivateKey));
}

#[test]
fn provision_refuses_key_at_curve_order() {
    let order: [u8; 32] = [
        0xFF, 0xFF, 0xFF, 0xFF, 0xFF, 0xFF, 0xFF, 0xFF, 0xFF, 0xFF, 0xFF, 0xFF, 0xFF, 0xFF, 0xFF,
        0xFE, 0xBA, 0xAE, 0xDC, 0xE6, 0xAF, 0x48, 0xA0, 0x3B, 0xBF, 0xD2, 0x5E, 0x8C, 0xD0, 0x36,
        0x41, 0x41,
    ];
    let r = provision(&vec![order]);
    assert_eq!(r.unwrap_err(), DtpError::Configuration(ConfigIssue::MalformedPrivateKey));
    let mut below = order;
    below[31] = 0x40;
    assert!(provision(&vec![below]).is_ok());
}

#[test]
fn provision_refuses_duplicate_keys() {
    let r = provision(&vec![key(1), key(2), key(1)]);
    assert_eq!(r.unwrap_err(), DtpError::DuplicateAddress);
}

#[test]
fn same_address_compares_bytes() {
    let a = hex_address("7e5f4552091a69125d5dfcb7b8c2659029395bdf");
    let mut b = a;
    assert!(same_address(&a, &b));
    b.bytes[19] ^= 1;
    assert!(!same_address(&a, &b));
}

#[test]
fn funder_from_hex_accepts_prefixed_and_bare_keys() {
    let k = "ac0974bec39a17e36ba4a6b4d238ff944bacb478cbed5efcae784d7bf4f2ff80";
    let expected = hex_address("f39fd6e51aad88f6f4ce6ab8827279cfffb92266");
    assert_eq!(funder_from_hex(k).unwrap().address(), expected);
    assert_eq!(funder_from_hex(&format!("0x{}", k)).unwrap().address(), expected);
    assert_eq!(funder_from_hex(&k.to_uppercase()).unwrap().address(), expected);
}

#[test]
fn funder_from_hex_refuses_malformed_keys() {
    let bad = DtpError::Configuration(ConfigIssue::MalformedPrivateKey);
    assert_eq!(funder_from_hex("abc").unwrap_err(), bad);
    assert_eq!(funder_from_hex("zz").unwrap_err(), bad);
    assert_eq!(funder_from_hex("0x0102").unwrap_err(), bad);
    assert_eq!(funder_from_hex(&"00".repeat(32)).unwrap_err(), bad);
}

#[test]
fn generate_small_counts_always_succeed() {
    for n in 0..=1 {
        let v = generate(n).unwrap();
        assert_eq!(v.len(), n);
    }
}
