//! Tests of the aggregator: summing per contributor, skipping entries
//! that do not decode, and the empty cases.

use oss_bot::aggregate::{aggregate, Attachment, Message};
use oss_bot::codec::Field;

fn field(title: &str, value: &str) -> Field {
    Field { title: Some(title.to_string()), value: Some(value.to_string()) }
}

fn entry(author: &str, hours: &str) -> Message {
    Message {
        attachments: Some(vec![Attachment {
            fields: Some(vec![
                field("Author", author),
                field("Time", hours),
                field("Office", "Germany"),
                field("URL", "https://example.com/"),
                field("Description", "work"),
            ]),
        }]),
    }
}

#[test]
fn aggregate_sums_and_skips_bad_entry() {
    let undecodable = Message {
        attachments: Some(vec![Attachment {
            fields: Some(vec![field("Bogus", "nope")]),
        }]),
    };
    let messages = vec![
        entry("alice", "2"),
        entry("alice", "3"),
        undecodable,
        entry("alice", "5"),
    ];
    let totals = aggregate(&messages);
    assert_eq!(totals.get("alice"), Some(10));
    assert_eq!(totals.len(), 1);
}

#[test]
fn aggregate_empty_returns_empty_mapping() {
    let messages: Vec<Message> = Vec::new();
    let totals = aggregate(&messages);
    assert_eq!(totals.len(), 0);
    assert_eq!(totals.get("alice"), None);
}

#[test]
fn aggregate_skips_messages_without_attachments_or_fields() {
    let messages = vec![
        Message { attachments: None },
        Message { attachments: Some(vec![Attachment { fields: None }]) },
        entry("bob", "7"),
    ];
    let totals = aggregate(&messages);
    assert_eq!(totals.get("bob"), Some(7));
    assert_eq!(totals.len(), 1);
}

#[test]
fn aggregate_keeps_users_apart_and_sums_negatives() {
    let messages = vec![
        entry("alice", "2"),
        entry("bob", "4"),
        entry("alice", "-1"),
    ];
    let totals = aggregate(&messages);
    assert_eq!(totals.get("alice"), Some(1));
    assert_eq!(totals.get("bob"), Some(4));
    assert_eq!(totals.len(), 2);
}

#[test]
fn aggregate_entries_expose_the_totals() {
    let messages = vec![entry("alice", "2"), entry("bob", "4")];
    let totals = aggregate(&messages);
    let mut pairs: Vec<(String, i64)> = totals.entries().clone();
    pairs.sort();
    assert_eq!(
        pairs,
        vec![("alice".to_string(), 2), ("bob".to_string(), 4)]
    );
}
