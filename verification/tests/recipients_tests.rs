use pushkind_emailer::model::{Group, GroupRecipient, Recipient, RecipientField};
use pushkind_emailer::recipients::{
    classify_recipient_entry, get_hub_all_recipients, group_list, parse_i32_bytes,
    parse_recipients_csv, split_bytes, trim_bytes, RecipientEntry,
};

#[test]
fn trim_removes_ascii_whitespace() {
    assert_eq!(trim_bytes(b"  a b \t"), b"a b".to_vec());
    assert_eq!(trim_bytes(b"\r\nx\r\n"), b"x".to_vec());
    assert_eq!(trim_bytes(b"   "), Vec::<u8>::new());
    assert_eq!(trim_bytes(b""), Vec::<u8>::new());
    assert_eq!(trim_bytes(b"plain"), b"plain".to_vec());
}

#[test]
fn split_keeps_empty_segments() {
    assert_eq!(split_bytes(b"a,b,,c", b','), vec![
        b"a".to_vec(),
        b"b".to_vec(),
        Vec::new(),
        b"c".to_vec()
    ]);
    assert_eq!(split_bytes(b"", b','), vec![Vec::<u8>::new()]);
}

#[test]
fn group_names_are_trimmed_and_non_empty() {
    assert_eq!(group_list(b" g1, g2 ,,  ,g3"), vec![
        b"g1".to_vec(),
        b"g2".to_vec(),
        b"g3".to_vec()
    ]);
    assert_eq!(group_list(b""), Vec::<Vec<u8>>::new());
}

#[test]
fn decimal_parsing_matches_str_parse() {
    let cases: [&[u8]; 12] = [
        b"0", b"42", b"+7", b"-7", b"007", b"00000000000042", b"2147483647", b"-2147483648",
        b"2147483648", b"-2147483649", b"12x", b"",
    ];
    for s in cases {
        let expected = std::str::from_utf8(s).unwrap().parse::<i32>().ok();
        assert_eq!(parse_i32_bytes(s), expected, "input {:?}", s);
    }
    assert_eq!(parse_i32_bytes(b"+"), None);
    assert_eq!(parse_i32_bytes(b"-"), None);
    assert_eq!(parse_i32_bytes(b" 5"), None);
}

#[test]
fn entries_are_addresses_or_group_ids() {
    assert_eq!(
        classify_recipient_entry(b" alice@x.io "),
        RecipientEntry::Address(b"alice@x.io".to_vec())
    );
    assert_eq!(classify_recipient_entry(b"42"), RecipientEntry::Group(42));
    assert_eq!(classify_recipient_entry(b"none"), RecipientEntry::Invalid);
    assert_eq!(classify_recipient_entry(b""), RecipientEntry::Invalid);
}

#[test]
fn csv_rows_become_recipients() {
    let text = b"name,email,groups,city\nAlice,alice@x.io,\"g1, g2\",Berlin\nBob,bob@x.io,,\n";
    let recipients = parse_recipients_csv(text).expect("well-formed CSV expected");
    assert_eq!(recipients.len(), 2);
    let alice = &recipients[0];
    assert_eq!(alice.name, b"Alice".to_vec());
    assert_eq!(alice.email, b"alice@x.io".to_vec());
    assert_eq!(alice.groups, vec![b"g1".to_vec(), b"g2".to_vec()]);
    assert_eq!(alice.optional_fields, vec![(b"city".to_vec(), b"Berlin".to_vec())]);
    let bob = &recipients[1];
    assert_eq!(bob.name, b"Bob".to_vec());
    assert_eq!(bob.email, b"bob@x.io".to_vec());
    assert!(bob.groups.is_empty());
    assert!(bob.optional_fields.is_empty());
}

#[test]
fn ragged_csv_is_rejected() {
    assert_eq!(parse_recipients_csv(b"a,b\n1,2,3\n"), None);
}

#[test]
fn recipients_page_join() {
    let recipients = vec![
        Recipient {
            id: 1,
            name: b"Alice".to_vec(),
            email: b"alice@x.io".to_vec(),
            hub_id: 3,
            created_at: None,
            updated_at: None,
        },
        Recipient {
            id: 2,
            name: b"Bob".to_vec(),
            email: b"bob@x.io".to_vec(),
            hub_id: 3,
            created_at: None,
            updated_at: None,
        },
    ];
    let fields = vec![
        RecipientField { recipient_id: 1, field: b"city".to_vec(), value: b"Berlin".to_vec() },
        RecipientField { recipient_id: 2, field: b"city".to_vec(), value: b"Paris".to_vec() },
        RecipientField { recipient_id: 1, field: b"vip".to_vec(), value: b"yes".to_vec() },
    ];
    let groups = vec![
        Group { id: 10, name: b"g10".to_vec(), hub_id: 3, created_at: None, updated_at: None },
        Group { id: 11, name: b"g11".to_vec(), hub_id: 3, created_at: None, updated_at: None },
    ];
    let links = vec![
        GroupRecipient { group_id: 11, recipient_id: 1 },
        GroupRecipient { group_id: 10, recipient_id: 1 },
        GroupRecipient { group_id: 99, recipient_id: 2 }, // unknown group is skipped
    ];
    let details = get_hub_all_recipients(&recipients, &fields, &links, &groups);
    assert_eq!(details.len(), 2);
    assert_eq!(details[0].recipient.name, b"Alice".to_vec());
    assert_eq!(details[0].fields.len(), 2);
    assert_eq!(details[0].fields[0].value, b"Berlin".to_vec());
    assert_eq!(details[0].fields[1].field, b"vip".to_vec());
    assert_eq!(details[0].groups.len(), 2);
    assert_eq!(details[0].groups[0].id, 11);
    assert_eq!(details[0].groups[1].id, 10);
    assert_eq!(details[1].recipient.name, b"Bob".to_vec());
    assert_eq!(details[1].fields.len(), 1);
    assert!(details[1].groups.is_empty());
}
