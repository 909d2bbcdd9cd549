//! Per-user conversation histories.
//!
//! The store maps a user identifier to the ordered turns of that user's
//! dialogue.  A history is created lazily on the first turn from a user,
//! only ever grows, and is never truncated or evicted.

use vstd::prelude::*;

verus! {

/// The speaker of one turn.
#[derive(Clone, Copy, PartialEq, Eq, Structural, Debug)]
pub enum Role {
    System,
    User,
    Assistant,
}

/// One role-tagged message of a conversation, immutable once appended.
#[derive(Debug)]
pub struct Turn {
    pub role: Role,
    pub content: String,
}

/// A turn as contracts speak of it: the role and the character sequence.
pub ghost struct TurnV {
    pub role: Role,
    pub content: Seq<char>,
}

impl View for Turn {
    type V = TurnV;

    open spec fn view(&self) -> TurnV {
        TurnV { role: self.role, content: self.content@ }
    }
}

impl DeepView for Turn {
    type V = TurnV;

    open spec fn deep_view(&self) -> TurnV {
        self.view()
    }
}

impl Turn {
    /// A user turn with the given text.
    pub fn user(content: String) -> (t: Turn)
        ensures
            t@ == (TurnV { role: Role::User, content: content@ }),
    {
        Turn { role: Role::User, content }
    }

    /// An assistant turn with the given text.
    pub fn assistant(content: String) -> (t: Turn)
        ensures
            t@ == (TurnV { role: Role::Assistant, content: content@ }),
    {
        Turn { role: Role::Assistant, content }
    }

    /// A system turn with the given text.
    pub fn system(content: String) -> (t: Turn)
        ensures
            t@ == (TurnV { role: Role::System, content: content@ }),
    {
        Turn { role: Role::System, content }
    }

    /// A turn with the same role and the same text.
    pub fn duplicate(&self) -> (t: Turn)
        ensures
            t@ == self@,
    {
        Turn { role: self.role, content: self.content.clone() }
    }
}

/// No user appears twice.
pub open spec fn distinct_users(s: Seq<(Seq<char>, Seq<TurnV>)>) -> bool {
    forall|i: int, j: int| 0 <= i < j < s.len() ==> s[i].0 != s[j].0
}

/// Some entry belongs to user `u`.
pub open spec fn contains_user(s: Seq<(Seq<char>, Seq<TurnV>)>, u: Seq<char>) -> bool {
    exists|i: int| 0 <= i < s.len() && #[trigger] s[i].0 == u
}

/// The history stored for `u`: the first entry under that user, or the
/// empty history when the user has not talked yet.
pub open spec fn spec_history_of(s: Seq<(Seq<char>, Seq<TurnV>)>, u: Seq<char>) -> Seq<TurnV>
    decreases s.len(),
{
    if s.len() == 0 {
        Seq::empty()
    } else if s.first().0 == u {
        s.first().1
    } else {
        spec_history_of(s.drop_first(), u)
    }
}

/// When the entry of `u` stands at `m` and no earlier entry is `u`'s, the
/// history of `u` is that entry's.
proof fn lemma_history_found(s: Seq<(Seq<char>, Seq<TurnV>)>, u: Seq<char>, m: int)
    requires
        0 <= m < s.len(),
        s[m].0 == u,
        forall|j: int| 0 <= j < m ==> s[j].0 != u,
    ensures
        spec_history_of(s, u) == s[m].1,
    decreases m,
{
    if m > 0 {
        let rest = s.drop_first();
        assert(forall|j: int| 0 <= j < m - 1 ==> rest[j].0 == s[j + 1].0);
        lemma_history_found(rest, u, m - 1);
    }
}

/// A user with no entry has the empty history.
proof fn lemma_history_missing(s: Seq<(Seq<char>, Seq<TurnV>)>, u: Seq<char>)
    requires
        forall|j: int| 0 <= j < s.len() ==> s[j].0 != u,
    ensures
        spec_history_of(s, u) == Seq::<TurnV>::empty(),
    decreases s.len(),
{
    if s.len() > 0 {
        let rest = s.drop_first();
        assert(forall|j: int| 0 <= j < rest.len() ==> rest[j].0 == s[j + 1].0);
        lemma_history_missing(rest, u);
    }
}

/// The per-user dialogue state.
pub struct ConversationStore {
    users: Vec<(String, Vec<Turn>)>,
}

impl ConversationStore {
    /// The stored entries: user identifier and turns, in creation order.
    pub closed spec fn entries(&self) -> Seq<(Seq<char>, Seq<TurnV>)> {
        self.users.deep_view()
    }

    /// The store never holds two entries for one user.
    pub open spec fn wf(&self) -> bool {
        distinct_users(self.entries())
    }

    /// Whether the user has an entry.
    pub open spec fn spec_contains(&self, u: Seq<char>) -> bool {
        contains_user(self.entries(), u)
    }

    /// The user's history; empty when the user has not talked yet.
    pub open spec fn spec_history(&self, u: Seq<char>) -> Seq<TurnV> {
        spec_history_of(self.entries(), u)
    }

    /// An empty store.
    pub fn new() -> (r: ConversationStore)
        ensures
            r.wf(),
            r.entries() == Seq::<(Seq<char>, Seq<TurnV>)>::empty(),
            forall|u: Seq<char>| #[trigger] r.spec_history(u) == Seq::<TurnV>::empty(),
    {
        let r = ConversationStore { users: Vec::new() };
        proof {
            assert(r.entries() =~= Seq::<(Seq<char>, Seq<TurnV>)>::empty());
        }
        r
    }

    /// Appends one turn to the user's history, creating the history at
    /// its first turn; no other user's history changes.
    pub fn append_turn(&mut self, user: &String, turn: Turn)
        requires
            old(self).wf(),
        ensures
            final(self).wf(),
            final(self).spec_history(user@) == old(self).spec_history(user@).push(turn@),
            forall|u2: Seq<char>|
                u2 != user@ ==> #[trigger] final(self).spec_history(u2) == old(self).spec_history(
                    u2,
                ),
            forall|u2: Seq<char>|
                #[trigger] final(self).spec_contains(u2) <==> old(self).spec_contains(u2) || u2
                    == user@,
    {
        let ghost t = turn@;
        let mut i: usize = 0;
        while i < self.users.len()
            invariant
                i <= self.users@.len(),
                forall|j: int| 0 <= j < i ==> #[trigger] self.entries()[j].0 != user@,
                old(self).wf(),
                *self == *old(self),
                turn@ == t,
            decreases self.users@.len() - i,
        {
            if self.users[i].0 == *user {
                let key = self.users[i].0.clone();
                let mut hist = copy_turns(&self.users[i].1);
                hist.push(turn);
                proof {
                    let olds = old(self).entries();
                    let pre = old(self).users@[i as int].1;
                    let target = olds[i as int].1.push(t);
                    assert(olds[i as int] == old(self).users@[i as int].deep_view());
                    assert(olds[i as int].1 == pre.deep_view());
                    assert forall|j: int| 0 <= j < target.len() implies hist.deep_view()[j]
                        == target[j] by {
                        assert(hist.deep_view()[j] == hist@[j]@);
                        if j < target.len() - 1 {
                            assert(hist@[j]@ == pre@[j]@);
                            assert(pre.deep_view()[j] == pre@[j]@);
                        } else {
                            assert(hist@[j]@ == t);
                        }
                    }
                    assert(hist.deep_view() =~= target);
                }
                let ghost hv = hist.deep_view();
                let ghost kv = key@;
                self.users.set(i, (key, hist));
                proof {
                    let olds = old(self).entries();
                    let news = self.entries();
                    assert(news[i as int] == (kv, hv));
                    assert(news =~= olds.update(i as int, (user@, olds[i as int].1.push(t))));
                    assert forall|p: int, q: int|
                        0 <= p < q < news.len() implies news[p].0 != news[q].0 by {
                        assert(olds[p].0 != olds[q].0);
                    }
                    assert forall|u2: Seq<char>| #[trigger] contains_user(news, u2)
                        == (contains_user(olds, u2) || u2 == user@) by {
                        if contains_user(news, u2) {
                            let m = choose|m: int|
                                0 <= m < news.len() && #[trigger] news[m].0 == u2;
                            assert(olds[m].0 == u2);
                        }
                        if contains_user(olds, u2) {
                            let m = choose|m: int|
                                0 <= m < olds.len() && #[trigger] olds[m].0 == u2;
                            assert(news[m].0 == u2);
                        }
                        if u2 == user@ {
                            assert(news[i as int].0 == u2);
                        }
                    }
                    assert forall|u2: Seq<char>|
                        u2 != user@ implies #[trigger] spec_history_of(news, u2)
                        == spec_history_of(olds, u2) by {
                        if contains_user(olds, u2) {
                            let m = choose|m: int|
                                0 <= m < olds.len() && #[trigger] olds[m].0 == u2;
                            assert(forall|j: int| 0 <= j < m ==> olds[j].0 != u2);
                            assert(m != i);
                            assert(forall|j: int| 0 <= j < m ==> news[j].0 == olds[j].0);
                            lemma_history_found(olds, u2, m);
                            lemma_history_found(news, u2, m);
                        } else {
                            assert(forall|j: int| 0 <= j < olds.len() ==> olds[j].0 != u2);
                            assert(forall|j: int| 0 <= j < news.len() ==> news[j].0 != u2);
                            lemma_history_missing(olds, u2);
                            lemma_history_missing(news, u2);
                        }
                    }
                    assert(forall|j: int| 0 <= j < i ==> #[trigger] olds[j].0 != user@);
                    lemma_history_found(olds, user@, i as int);
                    lemma_history_found(news, user@, i as int);
                }
                return;
            }
            i = i + 1;
        }
        let mut hist: Vec<Turn> = Vec::new();
        hist.push(turn);
        self.users.push((user.clone(), hist));
        proof {
            let olds = old(self).entries();
            let news = self.entries();
            assert(hist.deep_view() =~= seq![t]);
            assert(news =~= olds.push((user@, seq![t])));
            assert(forall|j: int| 0 <= j < olds.len() ==> #[trigger] olds[j].0 != user@);
            assert forall|p: int, q: int| 0 <= p < q < news.len() implies news[p].0
                != news[q].0 by {
                if q < olds.len() {
                    assert(olds[p].0 != olds[q].0);
                } else {
                    assert(news[q].0 == user@ && news[p].0 == olds[p].0);
                }
            }
            assert forall|u2: Seq<char>| #[trigger] contains_user(news, u2) == (contains_user(
                olds,
                u2,
            ) || u2 == user@) by {
                if contains_user(news, u2) {
                    let m = choose|m: int| 0 <= m < news.len() && #[trigger] news[m].0 == u2;
                    if m < olds.len() {
                        assert(olds[m].0 == u2);
                    }
                }
                if contains_user(olds, u2) {
                    let m = choose|m: int| 0 <= m < olds.len() && #[trigger] olds[m].0 == u2;
                    assert(news[m].0 == u2);
                }
                if u2 == user@ {
                    assert(news[news.len() - 1].0 == u2);
                }
            }
            assert forall|u2: Seq<char>| u2 != user@ implies #[trigger] spec_history_of(news, u2)
                == spec_history_of(olds, u2) by {
                if contains_user(olds, u2) {
                    let m = choose|m: int| 0 <= m < olds.len() && #[trigger] olds[m].0 == u2;
                    assert(forall|j: int| 0 <= j < m ==> olds[j].0 != u2);
                    assert(forall|j: int| 0 <= j < m ==> news[j].0 == olds[j].0);
                    lemma_history_found(olds, u2, m);
                    lemma_history_found(news, u2, m);
                } else {
                    assert(forall|j: int| 0 <= j < news.len() ==> news[j].0 != u2);
                    lemma_history_missing(olds, u2);
                    lemma_history_missing(news, u2);
                }
            }
            lemma_history_missing(olds, user@);
            lemma_history_found(news, user@, news.len() - 1);
        }
    }

    /// A copy of the user's stored turns; empty when the user has not
    /// talked yet.
    pub fn turns_of(&self, user: &String) -> (r: Vec<Turn>)
        requires
            self.wf(),
        ensures
            r.deep_view() == self.spec_history(user@),
    {
        let mut i: usize = 0;
        while i < self.users.len()
            invariant
                i <= self.users@.len(),
                forall|j: int| 0 <= j < i ==> #[trigger] self.entries()[j].0 != user@,
                self.wf(),
            decreases self.users@.len() - i,
        {
            if self.users[i].0 == *user {
                let r = copy_turns(&self.users[i].1);
                proof {
                    assert(forall|j: int| 0 <= j < i ==> #[trigger] self.entries()[j].0 != user@);
                    lemma_history_found(self.entries(), user@, i as int);
                }
                return r;
            }
            i = i + 1;
        }
        let r: Vec<Turn> = Vec::new();
        proof {
            lemma_history_missing(self.entries(), user@);
            assert(r.deep_view() =~= Seq::<TurnV>::empty());
        }
        r
    }
}

/// Copies a list of turns, keeping roles and texts.
pub(crate) fn copy_turns(v: &Vec<Turn>) -> (r: Vec<Turn>)
    ensures
        r.deep_view() == v.deep_view(),
        r@.len() == v@.len(),
        forall|j: int| 0 <= j < v@.len() ==> #[trigger] r@[j]@ == v@[j]@,
{
    let mut r: Vec<Turn> = Vec::new();
    let mut i: usize = 0;
    while i < v.len()
        invariant
            i <= v@.len(),
            r@.len() == i,
            forall|j: int| 0 <= j < i ==> #[trigger] r@[j]@ == v@[j]@,
        decreases v@.len() - i,
    {
        r.push(v[i].duplicate());
        i = i + 1;
    }
    proof {
        assert(r.deep_view() =~= v.deep_view());
    }
    r
}

/// One successful chat exchange appends the user's text and then the
/// assistant's reply to a history.
pub open spec fn spec_exchange(hist: Seq<TurnV>, text: Seq<char>, reply: Seq<char>) -> Seq<TurnV> {
    hist.push(TurnV { role: Role::User, content: text }).push(
        TurnV { role: Role::Assistant, content: reply },
    )
}

/// Two exchanges on a fresh history leave exactly four turns: the first
/// user text, the first reply, the second user text, the second reply, in
/// that order.
pub proof fn lemma_two_exchanges(t1: Seq<char>, r1: Seq<char>, t2: Seq<char>, r2: Seq<char>)
    ensures
        spec_exchange(spec_exchange(Seq::empty(), t1, r1), t2, r2) == seq![
            TurnV { role: Role::User, content: t1 },
            TurnV { role: Role::Assistant, content: r1 },
            TurnV { role: Role::User, content: t2 },
            TurnV { role: Role::Assistant, content: r2 },
        ],
{
    assert(spec_exchange(spec_exchange(Seq::empty(), t1, r1), t2, r2) =~= seq![
        TurnV { role: Role::User, content: t1 },
        TurnV { role: Role::Assistant, content: r1 },
        TurnV { role: Role::User, content: t2 },
        TurnV { role: Role::Assistant, content: r2 },
    ]);
}

} // verus!
