use vstd::prelude::*;

use crate::board::account_index;
use crate::board::email_taken;
use crate::board::identifier_taken;
use crate::board::JobBoard;
use crate::messaging::between_of;
use crate::messaging::is_between;
use crate::messaging::mark_read;
use crate::messaging::mark_read_one;
use crate::postings::accepted_postings;
use crate::postings::posting_index;
use crate::records::Account;
use crate::records::Message;
use crate::records::Posting;

verus! {

/// A registered identifier resolves to exactly one account. In the state a
/// successful `register` leaves behind — the old accounts plus the new
/// account `a`, whose identifier was not taken before — the identifier
/// resolves to `a`, no other account carries it, and the email is now taken,
/// so by `register`'s contract a second registration with the same email
/// fails with `DuplicateEmail`.
pub proof fn lemma_registration_resolves_uniquely(b0: JobBoard, b1: JobBoard, a: Account)
    requires
        b0.wf(),
        b1.wf(),
        b1.accounts@ == b0.accounts@.push(a),
        !identifier_taken(b0.accounts@, a.identifier@),
    ensures
        b1.resolve_spec(a.identifier@) == Some(a),
        forall|i: int|
            0 <= i < b1.accounts@.len() && (#[trigger] b1.accounts@[i]).identifier@
                == a.identifier@ ==> b1.accounts@[i] == a,
        email_taken(b1.accounts@, a.email@),
{
    let n = b0.accounts@.len() as int;
    assert(b1.accounts@[n] == a);
    assert(identifier_taken(b1.accounts@, a.identifier@));
    let j = account_index(b1.accounts@, a.identifier@);
    assert(0 <= j < b1.accounts@.len() && b1.accounts@[j].identifier@ == a.identifier@);
    assert(j == n);
    assert forall|i: int|
        0 <= i < b1.accounts@.len() && (#[trigger] b1.accounts@[i]).identifier@ == a.identifier@
        implies b1.accounts@[i] == a by {
        assert(i == n);
    }
    assert(b1.accounts@[n].email@ == a.email@);
}

/// A fresh registration can immediately log in, and only with its own
/// password. In the state a successful `register` leaves behind, the email
/// looks up the new account `a`, whose stored hash `register` guarantees to
/// verify against the registered password — so by `authenticate`'s contract
/// the same password succeeds, any password that does not verify fails with
/// `AuthFailure`, and an unknown email fails with the very same error.
pub proof fn lemma_registered_account_can_authenticate(b0: JobBoard, b1: JobBoard, a: Account)
    requires
        b0.wf(),
        b1.wf(),
        b1.accounts@ == b0.accounts@.push(a),
        !email_taken(b0.accounts@, a.email@),
    ensures
        b1.email_lookup(a.email@) == Some(a),
{
    let n = b0.accounts@.len() as int;
    assert(b1.accounts@[n] == a);
    assert(email_taken(b1.accounts@, a.email@));
    let j = crate::board::email_index(b1.accounts@, a.email@);
    assert(0 <= j < b1.accounts@.len() && b1.accounts@[j].email@ == a.email@);
    assert(j == n);
}

/// Every element of the public listing's content comes from the posting
/// list itself.
proof fn lemma_accepted_from_postings(postings: Seq<Posting>, x: int)
    requires
        0 <= x < accepted_postings(postings).len(),
    ensures
        postings.contains(accepted_postings(postings)[x]),
    decreases postings.len(),
{
    reveal(Seq::<_>::filter);
    if postings.len() > 0 {
        let rest = postings.drop_last();
        if x < accepted_postings(rest).len() {
            lemma_accepted_from_postings(rest, x);
            let y = choose|y: int| 0 <= y < rest.len() && rest[y] == accepted_postings(rest)[x];
            assert(postings[y] == accepted_postings(postings)[x]);
        } else {
            assert(accepted_postings(postings)[x] == postings.last());
        }
    }
}

/// A posting that is not in the Accepted state is invisible to the public:
/// the public listing's content — which `list_public`'s contract fixes as
/// exactly the accepted postings — holds nothing with its id. So a freshly
/// created posting (Pending) is absent, and one an administrator rejected
/// stays absent.
pub proof fn lemma_undecided_or_rejected_invisible(b: JobBoard, id: i64)
    requires
        b.wf(),
        crate::postings::has_posting(b.postings@, id),
        !(b.postings@[posting_index(b.postings@, id)].status is Accepted),
    ensures
        forall|x: int|
            0 <= x < accepted_postings(b.postings@).len() ==> (#[trigger] accepted_postings(
                b.postings@,
            )[x]).id != id,
{
    broadcast use vstd::seq_lib::group_filter_ensures;

    let k = posting_index(b.postings@, id);
    assert(0 <= k < b.postings@.len() && b.postings@[k].id == id);
    assert forall|x: int| 0 <= x < accepted_postings(b.postings@).len() implies (
    #[trigger] accepted_postings(b.postings@)[x]).id != id by {
        let e = accepted_postings(b.postings@)[x];
        assert(e.status is Accepted);
        lemma_accepted_from_postings(b.postings@, x);
        let y = choose|y: int| 0 <= y < b.postings@.len() && b.postings@[y] == e;
        if e.id == id {
            assert(y == k);
        }
    }
}

/// A posting in the Accepted state is visible to the public: it is part of
/// the public listing's content, which `list_public`'s contract fixes as
/// exactly the accepted postings. So after `moderate(id, Accept)` the
/// posting appears in `list_public`.
pub proof fn lemma_accepted_visible(b: JobBoard, id: i64)
    requires
        b.wf(),
        crate::postings::has_posting(b.postings@, id),
        b.postings@[posting_index(b.postings@, id)].status is Accepted,
    ensures
        accepted_postings(b.postings@).contains(b.postings@[posting_index(b.postings@, id)]),
{
    broadcast use vstd::seq_lib::group_filter_ensures;

    let k = posting_index(b.postings@, id);
    assert(0 <= k < b.postings@.len() && b.postings@[k].id == id);
}

/// The ledger is append-only and read flags are monotone: a retrieval — the
/// only operation that rewrites stored messages — keeps every message's
/// identity, direction, content and time, never clears a read flag, and sets
/// one only on messages addressed to the retrieving account.
pub proof fn lemma_retrieval_only_sets_read_flags(
    msgs: Seq<Message>,
    a: Seq<char>,
    b: Seq<char>,
    x: int,
)
    requires
        0 <= x < msgs.len(),
    ensures
        mark_read(msgs, a, b).len() == msgs.len(),
        mark_read(msgs, a, b)[x].id == msgs[x].id,
        mark_read(msgs, a, b)[x].sender_id == msgs[x].sender_id,
        mark_read(msgs, a, b)[x].receiver_id == msgs[x].receiver_id,
        mark_read(msgs, a, b)[x].content == msgs[x].content,
        mark_read(msgs, a, b)[x].timestamp == msgs[x].timestamp,
        msgs[x].read ==> mark_read(msgs, a, b)[x].read,
        mark_read(msgs, a, b)[x].read != msgs[x].read ==> msgs[x].receiver_id@ == a
            && msgs[x].sender_id@ == b,
{
    assert(mark_read(msgs, a, b)[x] == mark_read_one(msgs[x], a, b));
}

/// The read-receipt round trip. After a message from `a` to `b` is appended
/// unread — the state a successful `send` leaves behind — the conversation
/// between the two ends with that message, still unread, so `list_between`
/// returns it with `read == false`. The sender's own retrieval
/// (`list_between(a, b)`, which marks messages *addressed to* `a`) leaves it
/// untouched; only the receiver's retrieval (`list_between(b, a)`) flips it
/// to read.
pub proof fn lemma_message_read_round_trip(msgs: Seq<Message>, m: Message, a: Seq<char>, b: Seq<
    char,
>)
    requires
        m.sender_id@ == a,
        m.receiver_id@ == b,
        !m.read,
        a != b,
    ensures
        between_of(msgs.push(m), a, b).len() > 0,
        between_of(msgs.push(m), a, b).last() == m,
        !between_of(msgs.push(m), a, b).last().read,
        mark_read(msgs.push(m), a, b)[msgs.len() as int] == m,
        mark_read(msgs.push(m), b, a)[msgs.len() as int] == (Message { read: true, ..m }),
{
    reveal(Seq::<_>::filter);
    let all = msgs.push(m);
    assert(all.drop_last() =~= msgs);
    assert(all.last() == m);
    assert(is_between(m, a, b));
    assert(between_of(all, a, b) == between_of(msgs, a, b).push(m));
    assert(mark_read(all, a, b)[msgs.len() as int] == mark_read_one(m, a, b));
    assert(mark_read_one(m, a, b) == m);
    assert(mark_read(all, b, a)[msgs.len() as int] == mark_read_one(m, b, a));
    assert(mark_read_one(m, b, a) == (Message { read: true, ..m }));
}

} // verus!
