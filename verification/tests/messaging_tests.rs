use job_board::board::JobBoard;
use job_board::enums::{AccountType, BoardError};

fn board_with_two() -> (JobBoard, String, String) {
    let mut b = JobBoard::new(Some("server-secret".to_owned()));
    let a = b
        .register("a@x.com", "pw", "Alice", "A", AccountType::Student)
        .unwrap()
        .identifier
        .clone();
    let c = b
        .register("b@x.com", "pw", "Bert", "B", AccountType::Employer)
        .unwrap()
        .identifier
        .clone();
    (b, a, c)
}

#[test]
fn send_requires_a_known_sender() {
    let (mut b, _a, c) = board_with_two();
    let r = b.send("bogus", &c, "hello", None, None);
    assert_eq!(r.err(), Some(BoardError::InvalidCredential));
}

#[test]
fn read_flag_flips_only_on_the_receivers_retrieval() {
    let (mut b, alice, bert) = board_with_two();
    b.send(&alice, &bert, "hello", None, None).unwrap();

    // The sender's own retrieval shows the message unread and does not mark it.
    let from_alice = b.list_between(&alice, &bert).unwrap();
    assert_eq!(from_alice.len(), 1);
    assert_eq!(from_alice[0].content, "hello");
    assert!(!from_alice[0].read);

    let from_alice_again = b.list_between(&alice, &bert).unwrap();
    assert!(!from_alice_again[0].read);

    // The receiver's first retrieval still returns the stored (unread)
    // snapshot, and marks the message read as the same step.
    let from_bert = b.list_between(&bert, &alice).unwrap();
    assert_eq!(from_bert.len(), 1);
    assert!(!from_bert[0].read);

    let from_bert_again = b.list_between(&bert, &alice).unwrap();
    assert!(from_bert_again[0].read);
}

#[test]
fn conversation_is_returned_in_arrival_order_to_both_sides() {
    let (mut b, alice, bert) = board_with_two();
    b.send(&alice, &bert, "one", None, None).unwrap();
    b.send(&bert, &alice, "two", None, None).unwrap();
    b.send(&alice, &bert, "three", Some("text".to_owned()), Some("file.png".to_owned())).unwrap();

    let msgs = b.list_between(&alice, &bert).unwrap();
    assert_eq!(msgs.len(), 3);
    assert_eq!(msgs[0].content, "one");
    assert_eq!(msgs[1].content, "two");
    assert_eq!(msgs[2].content, "three");
    assert!(msgs[0].id < msgs[1].id && msgs[1].id < msgs[2].id);
    assert_eq!(msgs[2].message_type.as_deref(), Some("text"));
    assert_eq!(msgs[2].file_url.as_deref(), Some("file.png"));

    let same = b.list_between(&bert, &alice).unwrap();
    assert_eq!(same.len(), 3);
    assert_eq!(same[0].content, "one");

    assert_eq!(b.list_between("bogus", &alice).err(), Some(BoardError::InvalidCredential));
}

#[test]
fn conversations_list_counterparts_once_with_unread_flag() {
    let mut b = JobBoard::new(Some("server-secret".to_owned()));
    let alice = b
        .register("a@x.com", "pw", "Alice", "A", AccountType::Student)
        .unwrap()
        .identifier
        .clone();
    let bert = b
        .register("b@x.com", "pw", "Bert", "B", AccountType::Employer)
        .unwrap()
        .identifier
        .clone();
    let cora = b
        .register("c@x.com", "pw", "Cora", "C", AccountType::Student)
        .unwrap()
        .identifier
        .clone();

    b.send(&alice, &bert, "to bert 1", None, None).unwrap();
    b.send(&bert, &alice, "to alice", None, None).unwrap();
    b.send(&alice, &bert, "to bert 2", None, None).unwrap();
    b.send(&cora, &alice, "hi from cora", None, None).unwrap();

    let convs = b.list_conversations(&alice).unwrap();
    assert_eq!(convs.len(), 2);
    assert_eq!(convs[0].counterpart_id, bert);
    assert_eq!(convs[0].first_name, "Bert");
    assert_eq!(convs[0].last_content, "to bert 2");
    assert!(convs[0].unread);
    assert_eq!(convs[1].counterpart_id, cora);
    assert_eq!(convs[1].last_content, "hi from cora");
    assert!(convs[1].unread);

    // Retrieving the conversation clears the unread flag for that counterpart.
    b.list_between(&alice, &bert).unwrap();
    let convs = b.list_conversations(&alice).unwrap();
    assert!(!convs[0].unread);
    assert!(convs[1].unread);

    // Bert has exactly one counterpart, with nothing unread after reading.
    let bert_convs = b.list_conversations(&bert).unwrap();
    assert_eq!(bert_convs.len(), 1);
    assert_eq!(bert_convs[0].counterpart_id, alice);

    assert_eq!(b.list_conversations("bogus").err(), Some(BoardError::InvalidCredential));
}

#[test]
fn message_errors_map_to_http_statuses() {
    assert_eq!(BoardError::InvalidCredential.http_status(), 401);
    assert_eq!(BoardError::AuthFailure.http_status(), 401);
    assert_eq!(BoardError::DuplicateEmail.http_status(), 409);
    assert_eq!(BoardError::StoreError.http_status(), 500);
}
