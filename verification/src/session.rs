//! Records of conversations kept on disk: what a session holds, how it changes
//! as messages come, and in which order sessions are listed.
use vstd::prelude::*;
use crate::subagent::{lemma_lex_asym, lemma_lex_total, lemma_lex_trans, lex_less, lex_lt};
use crate::text::{chars_of, owned};

verus! {

/// A conversation kept on disk.
#[derive(Debug, Clone)]
pub struct Session {
    pub id: String,
    pub title: String,
    pub agent_id: String,
    /// When it was created (RFC 3339).
    pub created_at: String,
    /// When it last changed (RFC 3339).
    pub updated_at: String,
    pub message_count: usize,
}

/// One stored message of a session.
#[derive(Debug, Clone)]
pub struct SessionMessage {
    pub role: String,
    pub content: String,
    /// The JSON text of the tool calls, if any.
    pub tool_calls: Option<String>,
    pub tool_call_id: Option<String>,
    pub timestamp: String,
}

impl Session {
    /// The record of a new session with id `id`, created at `now`.
    pub fn new_record(id: &str, agent_id: &str, now: &str) -> (r: Session)
        ensures
            r.id@ == id@,
            r.title@ == "New Session"@,
            r.agent_id@ == agent_id@,
            r.created_at@ == now@,
            r.updated_at@ == now@,
            r.message_count == 0,
    {
        Session {
            id: owned(id),
            title: owned("New Session"),
            agent_id: owned(agent_id),
            created_at: owned(now),
            updated_at: owned(now),
            message_count: 0,
        }
    }

    /// Counts one more message, stored at `now`.
    pub fn note_message(&mut self, now: &str)
        requires
            old(self).message_count < usize::MAX,
        ensures
            final(self).message_count == old(self).message_count + 1,
            final(self).updated_at@ == now@,
            final(self).id == old(self).id,
            final(self).title == old(self).title,
            final(self).agent_id == old(self).agent_id,
            final(self).created_at == old(self).created_at,
    {
        self.message_count = self.message_count + 1;
        self.updated_at = owned(now);
    }

    /// Gives the session a new title at `now`.
    pub fn retitle(&mut self, title: &str, now: &str)
        ensures
            final(self).title@ == title@,
            final(self).updated_at@ == now@,
            final(self).id == old(self).id,
            final(self).agent_id == old(self).agent_id,
            final(self).created_at == old(self).created_at,
            final(self).message_count == old(self).message_count,
    {
        self.title = owned(title);
        self.updated_at = owned(now);
    }
}

/// `x` placed into the list `sorted` (latest first) after every session
/// updated at the same time or later.
pub open spec fn insert_by_recency(sorted: Seq<Session>, x: Session) -> Seq<Session>
    decreases sorted.len(),
{
    if sorted.len() == 0 {
        seq![x]
    } else if lex_lt(sorted.last().updated_at@, x.updated_at@) {
        insert_by_recency(sorted.drop_last(), x).push(sorted.last())
    } else {
        sorted.push(x)
    }
}

/// The sessions from the latest update to the oldest; sessions updated at the
/// same time keep their order (a stable sort).
pub open spec fn by_recency(s: Seq<Session>) -> Seq<Session>
    decreases s.len(),
{
    if s.len() == 0 {
        Seq::empty()
    } else {
        insert_by_recency(by_recency(s.drop_last()), s.last())
    }
}

/// Sorts sessions from the latest update to the oldest, keeping the order of
/// sessions updated at the same time.
pub fn sort_by_recency(sessions: Vec<Session>) -> (r: Vec<Session>)
    ensures
        r@ == by_recency(sessions@),
{
    let ghost all = sessions@;
    let n = sessions.len();
    assert(all.len() == n);
    let mut rest = sessions;
    let mut sorted: Vec<Session> = Vec::new();
    let mut i: usize = 0;
    assert(all.skip(0) =~= all);
    while rest.len() > 0
        invariant
            i + rest.len() == all.len(),
            all.len() <= usize::MAX,
            rest@ == all.skip(i as int),
            sorted@ == by_recency(all.take(i as int)),
        decreases rest.len(),
    {
        let x = rest.remove(0);
        assert(x == all[i as int]);
        assert(rest@ =~= all.skip(i + 1));
        let key = chars_of(x.updated_at.as_str());
        let ghost s0 = sorted@;
        let mut p = sorted.len();
        assert(s0.take(p as int) =~= s0);
        assert(s0.skip(p as int) =~= Seq::<Session>::empty());
        while p > 0
            invariant_except_break
                p <= sorted.len(),
                sorted@ == s0,
                key@ == x.updated_at@,
                insert_by_recency(s0, x) == insert_by_recency(s0.take(p as int), x) + s0.skip(p as int),
            ensures
                p <= sorted.len(),
                sorted@ == s0,
                insert_by_recency(s0, x) == if p == 0 {
                    seq![x] + s0
                } else {
                    s0.take(p as int).push(x) + s0.skip(p as int)
                },
            decreases p,
        {
            let k = chars_of(sorted[p - 1].updated_at.as_str());
            let ghost pre = s0.take(p as int);
            assert(pre.last() == s0[p - 1]);
            assert(pre.drop_last() =~= s0.take(p - 1));
            if !lex_less(k.as_slice(), key.as_slice()) {
                break;
            }
            assert(insert_by_recency(pre, x) == insert_by_recency(s0.take(p - 1), x).push(s0[p - 1]));
            assert(insert_by_recency(s0.take(p - 1), x).push(s0[p - 1]) + s0.skip(p as int) =~= insert_by_recency(
                s0.take(p - 1),
                x,
            ) + s0.skip(p - 1));
            p -= 1;
            if p == 0 {
                assert(s0.take(0) =~= Seq::<Session>::empty());
            }
        }
        sorted.insert(p, x);
        proof {
            if p == 0 {
                assert(sorted@ =~= seq![x] + s0);
            } else {
                assert(sorted@ =~= s0.take(p as int).push(x) + s0.skip(p as int));
            }
            assert(all.take(i + 1).drop_last() =~= all.take(i as int));
            assert(all.take(i + 1).last() == x);
        }
        i += 1;
    }
    assert(all.take(i as int) =~= all);
    sorted
}

/// The sessions are listed latest first: none was updated before one listed
/// after it.
pub open spec fn latest_first(s: Seq<Session>) -> bool {
    forall|i: int, j: int|
        0 <= i < j < s.len() ==> !lex_lt(#[trigger] s[i].updated_at@, #[trigger] s[j].updated_at@)
}

/// "Not before" is transitive.
proof fn lemma_not_before_trans(a: Seq<char>, b: Seq<char>, c: Seq<char>)
    requires
        !lex_lt(a, b),
        !lex_lt(b, c),
    ensures
        !lex_lt(a, c),
{
    lemma_lex_total(a, b);
    lemma_lex_total(b, c);
    if lex_lt(a, c) {
        if lex_lt(b, a) {
            lemma_lex_trans(b, a, c);
        }
        if lex_lt(c, b) {
            lemma_lex_trans(a, c, b);
        }
    }
}

proof fn lemma_insert_by_recency(sorted: Seq<Session>, x: Session)
    requires
        latest_first(sorted),
    ensures
        latest_first(insert_by_recency(sorted, x)),
        insert_by_recency(sorted, x).to_multiset() =~= sorted.to_multiset().insert(x),
    decreases sorted.len(),
{
    broadcast use vstd::seq_lib::group_to_multiset_ensures;

    if sorted.len() == 0 {
        assert(seq![x] =~= sorted.push(x));
    } else if lex_lt(sorted.last().updated_at@, x.updated_at@) {
        let front = sorted.drop_last();
        let last = sorted.last();
        assert(sorted =~= front.push(last));
        assert(latest_first(front)) by {
            assert forall|i: int, j: int| 0 <= i < j < front.len() implies !lex_lt(
                #[trigger] front[i].updated_at@,
                #[trigger] front[j].updated_at@,
            ) by {
                assert(front[i] == sorted[i] && front[j] == sorted[j]);
            }
        }
        lemma_insert_by_recency(front, x);
        let r1 = insert_by_recency(front, x);
        let r = r1.push(last);
        assert forall|i: int, j: int| 0 <= i < j < r.len() implies !lex_lt(
            #[trigger] r[i].updated_at@,
            #[trigger] r[j].updated_at@,
        ) by {
            if j < r1.len() {
                assert(r[i] == r1[i] && r[j] == r1[j]);
            } else {
                let e = r1[i];
                assert(r[i] == e && r[j] == last);
                assert(r1.contains(e));
                assert(r1.to_multiset().count(e) > 0);
                if e == x {
                    lemma_lex_asym(last.updated_at@, x.updated_at@);
                } else {
                    assert(front.to_multiset().count(e) > 0);
                    assert(front.contains(e));
                    let k = choose|k: int| 0 <= k < front.len() && front[k] == e;
                    assert(sorted[k] == e);
                    assert(sorted[sorted.len() - 1] == last);
                }
            }
        }
        assert(r.to_multiset() =~= sorted.to_multiset().insert(x));
    } else {
        let last = sorted.last();
        let r = sorted.push(x);
        assert forall|i: int, j: int| 0 <= i < j < r.len() implies !lex_lt(
            #[trigger] r[i].updated_at@,
            #[trigger] r[j].updated_at@,
        ) by {
            if j < sorted.len() {
                assert(r[i] == sorted[i] && r[j] == sorted[j]);
            } else {
                assert(r[i] == sorted[i] && r[j] == x);
                if i < sorted.len() - 1 {
                    assert(sorted[sorted.len() - 1] == last);
                    assert(!lex_lt(sorted[i].updated_at@, sorted[sorted.len() - 1].updated_at@));
                    lemma_not_before_trans(sorted[i].updated_at@, last.updated_at@, x.updated_at@);
                }
            }
        }
    }
}

/// Listing sessions keeps every session once and puts the most recently
/// updated first.
pub proof fn law_sessions_latest_first(s: Seq<Session>)
    ensures
        latest_first(by_recency(s)),
        by_recency(s).to_multiset() =~= s.to_multiset(),
    decreases s.len(),
{
    broadcast use vstd::seq_lib::group_to_multiset_ensures;

    if s.len() > 0 {
        law_sessions_latest_first(s.drop_last());
        lemma_insert_by_recency(by_recency(s.drop_last()), s.last());
        assert(s =~= s.drop_last().push(s.last()));
    }
}

} // verus!
