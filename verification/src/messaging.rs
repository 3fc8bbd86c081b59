use vstd::prelude::*;

use crate::board::account_index;
use crate::board::identifier_taken;
use crate::board::JobBoard;
use crate::clock;
use crate::enums::BoardError;
use crate::records::Account;
use crate::records::Message;

verus! {

/// Whether a message belongs to the conversation between `a` and `b`,
/// whichever direction it went.
pub open spec fn is_between(m: Message, a: Seq<char>, b: Seq<char>) -> bool {
    (m.sender_id@ == a && m.receiver_id@ == b) || (m.sender_id@ == b && m.receiver_id@ == a)
}

/// The conversation between `a` and `b`: its messages in ledger order, which
/// is the order of arrival.
pub open spec fn between_of(msgs: Seq<Message>, a: Seq<char>, b: Seq<char>) -> Seq<Message> {
    msgs.filter(|m: Message| is_between(m, a, b))
}

/// One message after a retrieval by `a` of the conversation with `b`: a
/// message from `b` to `a` is now read; any other message is untouched. A
/// read flag never goes back from true to false.
pub open spec fn mark_read_one(m: Message, a: Seq<char>, b: Seq<char>) -> Message {
    if m.receiver_id@ == a && m.sender_id@ == b {
        Message { read: true, ..m }
    } else {
        m
    }
}

/// The whole ledger after a retrieval by `a` of the conversation with `b`.
pub open spec fn mark_read(msgs: Seq<Message>, a: Seq<char>, b: Seq<char>) -> Seq<Message> {
    msgs.map_values(|m: Message| mark_read_one(m, a, b))
}

/// Whether any message from `c` to `me` is still unread.
pub open spec fn has_unread_from(msgs: Seq<Message>, me: Seq<char>, c: Seq<char>) -> bool {
    exists|k: int|
        0 <= k < msgs.len() && (#[trigger] msgs[k]).sender_id@ == c && msgs[k].receiver_id@ == me
            && !msgs[k].read
}

/// The counterpart a message connects `me` with, if `me` took part in it.
pub open spec fn counterpart_of(m: Message, me: Seq<char>) -> Option<Seq<char>> {
    if m.sender_id@ == me {
        Some(m.receiver_id@)
    } else if m.receiver_id@ == me {
        Some(m.sender_id@)
    } else {
        None
    }
}

/// The distinct counterparts `me` has exchanged messages with and that still
/// resolve to an account, each listed once, in order of first contact.
pub open spec fn known_counterparts(
    msgs: Seq<Message>,
    accounts: Seq<Account>,
    me: Seq<char>,
) -> Seq<Seq<char>>
    decreases msgs.len(),
{
    if msgs.len() == 0 {
        Seq::empty()
    } else {
        let rest = known_counterparts(msgs.drop_last(), accounts, me);
        match counterpart_of(msgs.last(), me) {
            Some(c) => if identifier_taken(accounts, c) && !rest.contains(c) {
                rest.push(c)
            } else {
                rest
            },
            None => rest,
        }
    }
}

/// One conversation as the listing shows it: the counterpart's identity, the
/// most recent message either way, and whether anything from the counterpart
/// is still unread.
#[derive(Debug)]
pub struct ConversationSummary {
    pub counterpart_id: String,
    pub first_name: String,
    pub last_name: String,
    pub pfp: String,
    pub last_content: String,
    pub last_timestamp: i64,
    pub unread: bool,
}

/// Whether a summary entry tells the truth about the board from `me`'s side:
/// the counterpart resolves and the identity fields are that account's, the
/// conversation is nonempty, the shown message is its most recent one, and
/// the unread flag says whether any message from the counterpart to `me` is
/// unread.
pub open spec fn entry_ok(board: JobBoard, me: Seq<char>, e: ConversationSummary) -> bool {
    let c = e.counterpart_id@;
    let u = board.accounts@[account_index(board.accounts@, c)];
    let pair = between_of(board.messages@, me, c);
    &&& identifier_taken(board.accounts@, c)
    &&& e.first_name@ == u.first_name@
    &&& e.last_name@ == u.last_name@
    &&& e.pfp@ == u.profile.pfp@
    &&& pair.len() > 0
    &&& e.last_content@ == pair.last().content@
    &&& e.last_timestamp == pair.last().timestamp
    &&& e.unread == has_unread_from(board.messages@, me, c)
}

/// The counterpart identifiers of a listing, in listing order.
pub open spec fn counterpart_ids(v: Seq<ConversationSummary>) -> Seq<Seq<char>> {
    v.map_values(|e: ConversationSummary| e.counterpart_id@)
}

/// Whether some entry of the listing already names this counterpart.
fn contains_counterpart(v: &Vec<ConversationSummary>, c: &String) -> (r: bool)
    ensures
        r == exists|x: int|
            0 <= x < v@.len() && (#[trigger] v@[x]).counterpart_id@ == c@,
{
    let mut x: usize = 0;
    while x < v.len()
        invariant
            x <= v@.len(),
            forall|y: int| 0 <= y < x ==> (#[trigger] v@[y]).counterpart_id@ != c@,
        decreases v@.len() - x,
    {
        if v[x].counterpart_id == *c {
            return true;
        }
        x += 1;
    }
    false
}

impl JobBoard {
    /// The most recent message of the conversation between `a` and `b`.
    fn last_between(&self, a: &str, b: &str) -> (r: Message)
        requires
            between_of(self.messages@, a@, b@).len() > 0,
        ensures
            r == between_of(self.messages@, a@, b@).last(),
    {
        let a_s: String = a.to_owned();
        let b_s: String = b.to_owned();
        let mut cur: Option<Message> = None;
        let mut i: usize = 0;
        proof {
            reveal(Seq::<_>::filter);
            assert(between_of(self.messages@.take(0), a@, b@) =~= Seq::<Message>::empty());
        }
        while i < self.messages.len()
            invariant
                i <= self.messages@.len(),
                a_s@ == a@,
                b_s@ == b@,
                match cur {
                    Some(m) => between_of(self.messages@.take(i as int), a@, b@).len() > 0 && m
                        == between_of(self.messages@.take(i as int), a@, b@).last(),
                    None => between_of(self.messages@.take(i as int), a@, b@).len() == 0,
                },
            decreases self.messages@.len() - i,
        {
            proof {
                reveal(Seq::<_>::filter);
                assert(self.messages@.take(i as int + 1).drop_last() =~= self.messages@.take(
                    i as int,
                ));
                assert(self.messages@.take(i as int + 1).last() == self.messages@[i as int]);
            }
            let m = &self.messages[i];
            if (m.sender_id == a_s && m.receiver_id == b_s) || (m.sender_id == b_s
                && m.receiver_id == a_s) {
                cur = Some(self.messages[i].clone());
            }
            i += 1;
        }
        proof {
            assert(self.messages@.take(self.messages@.len() as int) =~= self.messages@);
        }
        cur.unwrap()
    }

    /// Whether any message from `c` to `me` is still unread.
    fn any_unread_from(&self, me: &str, c: &str) -> (r: bool)
        ensures
            r == has_unread_from(self.messages@, me@, c@),
    {
        let me_s: String = me.to_owned();
        let c_s: String = c.to_owned();
        let mut found = false;
        let mut i: usize = 0;
        while i < self.messages.len()
            invariant
                i <= self.messages@.len(),
                me_s@ == me@,
                c_s@ == c@,
                found == has_unread_from(self.messages@.take(i as int), me@, c@),
            decreases self.messages@.len() - i,
        {
            let ghost pre = self.messages@.take(i as int);
            let ghost post = self.messages@.take(i as int + 1);
            let m = &self.messages[i];
            let hit = m.sender_id == c_s && m.receiver_id == me_s && !m.read;
            proof {
                if hit {
                    assert(post[i as int] == self.messages@[i as int]);
                    assert(has_unread_from(post, me@, c@));
                } else if !found {
                    if has_unread_from(post, me@, c@) {
                        let k = choose|k: int|
                            0 <= k < post.len() && (#[trigger] post[k]).sender_id@ == c@
                                && post[k].receiver_id@ == me@ && !post[k].read;
                        if k < i as int {
                            assert(pre[k] == post[k]);
                            assert(has_unread_from(pre, me@, c@));
                        } else {
                            assert(post[k] == self.messages@[i as int]);
                        }
                        assert(false);
                    }
                } else {
                    let k = choose|k: int|
                        0 <= k < pre.len() && (#[trigger] pre[k]).sender_id@ == c@
                            && pre[k].receiver_id@ == me@ && !pre[k].read;
                    assert(post[k] == pre[k]);
                    assert(has_unread_from(post, me@, c@));
                }
            }
            if hit {
                found = true;
            }
            i += 1;
        }
        proof {
            assert(self.messages@.take(self.messages@.len() as int) =~= self.messages@);
        }
        found
    }

    /// One entry per distinct account the caller has exchanged messages with,
    /// in order of first contact, each carrying that account's identity, the
    /// conversation's most recent message, and whether anything from that
    /// account to the caller is still unread. The caller must resolve
    /// (`InvalidCredential` otherwise). A counterpart identifier that
    /// resolves to no account is left out.
    pub fn list_conversations(&self, caller: &str) -> (r: Result<
        Vec<ConversationSummary>,
        BoardError,
    >)
        requires
            self.wf(),
        ensures
            match r {
                Ok(v) => {
                    &&& identifier_taken(self.accounts@, caller@)
                    &&& counterpart_ids(v@) == known_counterparts(
                        self.messages@,
                        self.accounts@,
                        caller@,
                    )
                    &&& forall|x: int|
                        0 <= x < v@.len() ==> entry_ok(*self, caller@, #[trigger] v@[x])
                },
                Err(e) => e == BoardError::InvalidCredential && !identifier_taken(
                    self.accounts@,
                    caller@,
                ),
            },
    {
        if self.find_account(caller).is_none() {
            return Err(BoardError::InvalidCredential);
        }
        let caller_s: String = caller.to_owned();
        let mut out: Vec<ConversationSummary> = Vec::new();
        let mut i: usize = 0;
        proof {
            assert(counterpart_ids(out@) =~= known_counterparts(
                self.messages@.take(0),
                self.accounts@,
                caller@,
            ));
        }
        while i < self.messages.len()
            invariant
                self.wf(),
                i <= self.messages@.len(),
                caller_s@ == caller@,
                identifier_taken(self.accounts@, caller@),
                counterpart_ids(out@) == known_counterparts(
                    self.messages@.take(i as int),
                    self.accounts@,
                    caller@,
                ),
                forall|x: int| 0 <= x < out@.len() ==> entry_ok(*self, caller@, #[trigger] out@[x]),
            decreases self.messages@.len() - i,
        {
            let ghost pre = self.messages@.take(i as int);
            let ghost post = self.messages@.take(i as int + 1);
            let ghost known_pre = known_counterparts(pre, self.accounts@, caller@);
            proof {
                assert(post.drop_last() =~= pre);
                assert(post.last() == self.messages@[i as int]);
            }
            let m = &self.messages[i];
            let other: Option<String> = if m.sender_id == caller_s {
                Some(m.receiver_id.clone())
            } else if m.receiver_id == caller_s {
                Some(m.sender_id.clone())
            } else {
                None
            };
            match other {
                None => {
                    proof {
                        assert(counterpart_of(self.messages@[i as int], caller@) is None);
                        assert(known_counterparts(post, self.accounts@, caller@) == known_pre);
                    }
                },
                Some(c) => {
                    proof {
                        assert(counterpart_of(self.messages@[i as int], caller@) == Some(c@));
                    }
                    if contains_counterpart(&out, &c) {
                        proof {
                            let x = choose|x: int|
                                0 <= x < out@.len() && (#[trigger] out@[x]).counterpart_id@ == c@;
                            assert(counterpart_ids(out@)[x] == c@);
                            assert(known_pre.contains(c@));
                            assert(known_counterparts(post, self.accounts@, caller@) == known_pre);
                        }
                    } else {
                        match self.find_account(c.as_str()) {
                            None => {
                                proof {
                                    assert(!identifier_taken(self.accounts@, c@));
                                    assert(known_counterparts(post, self.accounts@, caller@)
                                        == known_pre);
                                }
                            },
                            Some(u) => {
                                proof {
                                    broadcast use vstd::seq_lib::group_filter_ensures;

                                    assert(identifier_taken(self.accounts@, c@));
                                    let uu = account_index(self.accounts@, c@);
                                    assert(0 <= uu < self.accounts@.len()
                                        && self.accounts@[uu].identifier@ == c@);
                                    assert(uu == u as int);
                                    assert(is_between(self.messages@[i as int], caller@, c@));
                                    assert(between_of(self.messages@, caller@, c@).contains(
                                        self.messages@[i as int],
                                    ));
                                    if !known_pre.contains(c@) {
                                        assert(known_counterparts(post, self.accounts@, caller@)
                                            == known_pre.push(c@));
                                    } else {
                                        let x = choose|x: int|
                                            0 <= x < known_pre.len() && known_pre[x] == c@;
                                        assert(counterpart_ids(out@)[x] == c@);
                                        assert(out@[x].counterpart_id@ == c@);
                                        assert(false);
                                    }
                                }
                                let last = self.last_between(caller, c.as_str());
                                let unread = self.any_unread_from(caller, c.as_str());
                                let entry = ConversationSummary {
                                    counterpart_id: c.clone(),
                                    first_name: self.accounts[u].first_name.clone(),
                                    last_name: self.accounts[u].last_name.clone(),
                                    pfp: self.accounts[u].profile.pfp.clone(),
                                    last_content: last.content.clone(),
                                    last_timestamp: last.timestamp,
                                    unread,
                                };
                                let ghost out0 = out@;
                                out.push(entry);
                                proof {
                                    assert(entry_ok(*self, caller@, entry));
                                    assert(counterpart_ids(out@) =~= counterpart_ids(out0).push(
                                        c@,
                                    ));
                                }
                            },
                        }
                    }
                },
            }
            i += 1;
        }
        proof {
            assert(self.messages@.take(self.messages@.len() as int) =~= self.messages@);
        }
        Ok(out)
    }

    /// Appends a message to the ledger. The sender must resolve
    /// (`InvalidCredential` otherwise); the receiver field is stored as
    /// given, ungated, as is the free-form content. The message starts
    /// unread. `StoreError` happens only when the id counter is exhausted.
    pub fn send(
        &mut self,
        sender: &str,
        receiver: &str,
        content: &str,
        message_type: Option<String>,
        file_url: Option<String>,
    ) -> (r: Result<&Message, BoardError>)
        requires
            old(self).wf(),
        ensures
            final(self).wf(),
            final(self).secret == old(self).secret,
            final(self).accounts == old(self).accounts,
            final(self).postings == old(self).postings,
            final(self).applications == old(self).applications,
            final(self).next_posting_id == old(self).next_posting_id,
            final(self).next_application_id == old(self).next_application_id,
            r is Err ==> *final(self) == *old(self),
            match r {
                Ok(m) => {
                    &&& identifier_taken(old(self).accounts@, sender@)
                    &&& final(self).messages@ == old(self).messages@.push(*m)
                    &&& final(self).next_message_id == old(self).next_message_id + 1
                    &&& m.id == old(self).next_message_id
                    &&& m.sender_id@ == sender@
                    &&& m.receiver_id@ == receiver@
                    &&& m.content@ == content@
                    &&& !m.read
                    &&& m.message_type == message_type
                    &&& m.file_url == file_url
                },
                Err(e) => if !identifier_taken(old(self).accounts@, sender@) {
                    e == BoardError::InvalidCredential
                } else {
                    e == BoardError::StoreError && old(self).next_message_id == i64::MAX
                },
            },
    {
        let ghost before = *self;
        if self.find_account(sender).is_none() {
            return Err(BoardError::InvalidCredential);
        }
        if self.next_message_id == i64::MAX {
            return Err(BoardError::StoreError);
        }
        let now = clock::now_unix();
        let message = Message {
            id: self.next_message_id,
            sender_id: sender.to_owned(),
            receiver_id: receiver.to_owned(),
            content: content.to_owned(),
            timestamp: now,
            read: false,
            message_type,
            file_url,
        };
        let ghost added = message;
        self.messages.push(message);
        self.next_message_id = self.next_message_id + 1;
        proof {
            let m0 = before.messages@;
            let m1 = self.messages@;
            assert(m1 == m0.push(added));
            assert forall|x: int, y: int| 0 <= x < y < m1.len() implies (#[trigger] m1[x].id) < (
            #[trigger] m1[y].id) by {
                if y < m0.len() {
                    assert(m0[x].id < m0[y].id);
                } else {
                    assert(0 < m0[x].id < before.next_message_id);
                }
            }
        }
        let n = self.messages.len();
        Ok(&self.messages[n - 1])
    }

    /// Retrieves the conversation between the caller and `other`, in ledger
    /// order, as it stood when the call began; as the same step, every
    /// message from `other` to the caller is marked read. A message the
    /// caller sent is never marked by this call — it flips to read only when
    /// `other` retrieves the conversation from the other side. The caller
    /// must resolve (`InvalidCredential` otherwise, and nothing changes).
    pub fn list_between(&mut self, caller: &str, other: &str) -> (r: Result<
        Vec<Message>,
        BoardError,
    >)
        requires
            old(self).wf(),
        ensures
            final(self).wf(),
            final(self).secret == old(self).secret,
            final(self).accounts == old(self).accounts,
            final(self).postings == old(self).postings,
            final(self).applications == old(self).applications,
            final(self).next_posting_id == old(self).next_posting_id,
            final(self).next_application_id == old(self).next_application_id,
            final(self).next_message_id == old(self).next_message_id,
            r is Err ==> *final(self) == *old(self),
            match r {
                Ok(v) => {
                    &&& identifier_taken(old(self).accounts@, caller@)
                    &&& v@ == between_of(old(self).messages@, caller@, other@)
                    &&& final(self).messages@ == mark_read(old(self).messages@, caller@, other@)
                },
                Err(e) => e == BoardError::InvalidCredential && !identifier_taken(
                    old(self).accounts@,
                    caller@,
                ),
            },
    {
        let ghost before = *self;
        if self.find_account(caller).is_none() {
            return Err(BoardError::InvalidCredential);
        }
        let caller_s: String = caller.to_owned();
        let other_s: String = other.to_owned();
        let mut out: Vec<Message> = Vec::new();
        let mut i: usize = 0;
        proof {
            reveal(Seq::<_>::filter);
            assert(between_of(self.messages@.take(0), caller@, other@) =~= Seq::<
                Message,
            >::empty());
        }
        while i < self.messages.len()
            invariant
                *self == before,
                i <= self.messages@.len(),
                caller_s@ == caller@,
                other_s@ == other@,
                out@ == between_of(self.messages@.take(i as int), caller@, other@),
            decreases self.messages@.len() - i,
        {
            proof {
                reveal(Seq::<_>::filter);
                assert(self.messages@.take(i as int + 1).drop_last() =~= self.messages@.take(
                    i as int,
                ));
                assert(self.messages@.take(i as int + 1).last() == self.messages@[i as int]);
            }
            let m = &self.messages[i];
            if (m.sender_id == caller_s && m.receiver_id == other_s) || (m.sender_id == other_s
                && m.receiver_id == caller_s) {
                out.push(self.messages[i].clone());
            }
            i += 1;
        }
        proof {
            assert(self.messages@.take(self.messages@.len() as int) =~= self.messages@);
        }
        let mut j: usize = 0;
        while j < self.messages.len()
            invariant
                self.secret == before.secret,
                self.accounts == before.accounts,
                self.postings == before.postings,
                self.applications == before.applications,
                self.next_posting_id == before.next_posting_id,
                self.next_application_id == before.next_application_id,
                self.next_message_id == before.next_message_id,
                j <= self.messages@.len(),
                caller_s@ == caller@,
                other_s@ == other@,
                self.messages@.len() == before.messages@.len(),
                forall|x: int|
                    0 <= x < j ==> (#[trigger] self.messages@[x]) == mark_read_one(
                        before.messages@[x],
                        caller@,
                        other@,
                    ),
                forall|x: int|
                    j <= x < self.messages@.len() ==> (#[trigger] self.messages@[x])
                        == before.messages@[x],
            decreases self.messages@.len() - j,
        {
            let mark = self.messages[j].receiver_id == caller_s && self.messages[j].sender_id
                == other_s;
            if mark {
                self.messages[j].read = true;
            }
            j += 1;
        }
        proof {
            assert(self.messages@ =~= mark_read(before.messages@, caller@, other@));
            assert forall|x: int, y: int| 0 <= x < y < self.messages@.len() implies (
            #[trigger] self.messages@[x].id) < (#[trigger] self.messages@[y].id) by {
                assert(before.messages@[x].id < before.messages@[y].id);
            }
            assert forall|x: int| 0 <= x < self.messages@.len() implies 0 < (
            #[trigger] self.messages@[x].id) < self.next_message_id by {
                assert(0 < before.messages@[x].id < before.next_message_id);
            }
        }
        Ok(out)
    }
}

} // verus!
