//! The capability registry and the system-prompt composer.
//!
//! `SystemMsg` holds the fixed intro text and the capabilities advertised by
//! other bus participants: a mapping from capability name to description,
//! last write wins on a duplicate name, never evicted.  Rendering produces
//! the system-role text sent ahead of every provider call: the intro, then a
//! fenced block with one structured record per capability.

use vstd::prelude::*;

use crate::text::{spec_join, join_with, occurs_at};
use crate::text::{lemma_join_push, lemma_join_contains_part, lemma_concat_subrange_left,
    lemma_concat_subrange_right};

verus! {

/// No capability name appears twice.
pub open spec fn distinct_keys(s: Seq<(Seq<char>, Seq<char>)>) -> bool {
    forall|i: int, j: int| 0 <= i < j < s.len() ==> s[i].0 != s[j].0
}

/// Some entry carries the capability name `k`.
pub open spec fn contains_cap(s: Seq<(Seq<char>, Seq<char>)>, k: Seq<char>) -> bool {
    exists|i: int| 0 <= i < s.len() && #[trigger] s[i].0 == k
}

/// The description stored under name `k`: the first entry with that name,
/// or nothing.
pub open spec fn spec_cap_of(s: Seq<(Seq<char>, Seq<char>)>, k: Seq<char>) -> Option<Seq<char>>
    decreases s.len(),
{
    if s.len() == 0 {
        None
    } else if s.first().0 == k {
        Some(s.first().1)
    } else {
        spec_cap_of(s.drop_first(), k)
    }
}

/// How many entries carry the name `k`.
pub open spec fn cap_count(s: Seq<(Seq<char>, Seq<char>)>, k: Seq<char>) -> nat
    decreases s.len(),
{
    if s.len() == 0 {
        0
    } else {
        (if s.first().0 == k {
            1nat
        } else {
            0nat
        }) + cap_count(s.drop_first(), k)
    }
}

/// Upserting: the first entry named `k` is replaced by `(k, v)`; when none
/// is, `(k, v)` is appended.
pub open spec fn spec_upsert(
    s: Seq<(Seq<char>, Seq<char>)>,
    k: Seq<char>,
    v: Seq<char>,
) -> Seq<(Seq<char>, Seq<char>)>
    decreases s.len(),
{
    if s.len() == 0 {
        seq![(k, v)]
    } else if s.first().0 == k {
        seq![(k, v)] + s.drop_first()
    } else {
        seq![s.first()] + spec_upsert(s.drop_first(), k, v)
    }
}

/// When the first entry named `k` stands at `m`, upserting replaces
/// exactly that entry.
proof fn lemma_upsert_found(
    s: Seq<(Seq<char>, Seq<char>)>,
    k: Seq<char>,
    v: Seq<char>,
    m: int,
)
    requires
        0 <= m < s.len(),
        s[m].0 == k,
        forall|j: int| 0 <= j < m ==> s[j].0 != k,
    ensures
        spec_upsert(s, k, v) == s.update(m, (k, v)),
    decreases m,
{
    if m == 0 {
        assert(spec_upsert(s, k, v) =~= s.update(0, (k, v)));
    } else {
        let rest = s.drop_first();
        assert(forall|j: int| 0 <= j < m - 1 ==> rest[j].0 == s[j + 1].0);
        lemma_upsert_found(rest, k, v, m - 1);
        assert(seq![s.first()] + rest.update(m - 1, (k, v)) =~= s.update(m, (k, v)));
    }
}

/// When no entry is named `k`, upserting appends `(k, v)`.
proof fn lemma_upsert_missing(s: Seq<(Seq<char>, Seq<char>)>, k: Seq<char>, v: Seq<char>)
    requires
        forall|j: int| 0 <= j < s.len() ==> s[j].0 != k,
    ensures
        spec_upsert(s, k, v) == s.push((k, v)),
    decreases s.len(),
{
    if s.len() == 0 {
        assert(spec_upsert(s, k, v) =~= s.push((k, v)));
    } else {
        let rest = s.drop_first();
        assert(forall|j: int| 0 <= j < rest.len() ==> rest[j].0 == s[j + 1].0);
        lemma_upsert_missing(rest, k, v);
        assert(seq![s.first()] + rest.push((k, v)) =~= s.push((k, v)));
    }
}

/// One rendered capability record: `{ "cap": <name>, "msg": <description> }`.
pub open spec fn spec_record(cap: Seq<char>, msg: Seq<char>) -> Seq<char> {
    "{ \"cap\": \""@ + cap + "\", \"msg\": \""@ + msg + "\" }"@
}

/// The records of all entries, in registry order.
pub open spec fn spec_records(caps: Seq<(Seq<char>, Seq<char>)>) -> Seq<Seq<char>> {
    caps.map_values(|p: (Seq<char>, Seq<char>)| spec_record(p.0, p.1))
}

/// The full system-role text: the intro, then the records in a fenced
/// block, comma-and-newline joined.
pub open spec fn spec_render(intro: Seq<char>, caps: Seq<(Seq<char>, Seq<char>)>) -> Seq<char> {
    intro + "\n```\n["@ + spec_join(spec_records(caps), ",\n"@) + "]\n```"@
}

/// One line of the debug listing: `<name>: <description>`.
pub open spec fn spec_listing_entry(cap: Seq<char>, msg: Seq<char>) -> Seq<char> {
    cap + ": "@ + msg
}

/// The debug listing: every entry's line, comma-joined.
pub open spec fn spec_listing(caps: Seq<(Seq<char>, Seq<char>)>) -> Seq<char> {
    spec_join(
        caps.map_values(|p: (Seq<char>, Seq<char>)| spec_listing_entry(p.0, p.1)),
        ", "@,
    )
}

/// The fixed intro plus the capability registry.
pub struct SystemMsg {
    intro: String,
    capabilities: Vec<(String, String)>,
}

impl SystemMsg {
    /// The intro text, as a character sequence.
    pub closed spec fn spec_intro(&self) -> Seq<char> {
        self.intro@
    }

    /// The registry's entries, name and description, in insertion order.
    pub closed spec fn caps(&self) -> Seq<(Seq<char>, Seq<char>)> {
        self.capabilities.deep_view()
    }

    /// The registry never holds two entries under one name.
    pub open spec fn wf(&self) -> bool {
        distinct_keys(self.caps())
    }

    /// An empty registry around the given intro text.
    pub fn new(intro: String) -> (r: SystemMsg)
        ensures
            r.wf(),
            r.spec_intro() == intro@,
            r.caps() == Seq::<(Seq<char>, Seq<char>)>::empty(),
    {
        let r = SystemMsg { intro, capabilities: Vec::new() };
        proof {
            assert(r.caps() =~= Seq::<(Seq<char>, Seq<char>)>::empty());
        }
        r
    }

    /// Records that a peer advertises capability `cap` with description
    /// `msg`; a later advertisement under the same name overwrites the
    /// earlier description.
    pub fn update_capability(&mut self, cap: &str, msg: &str)
        requires
            old(self).wf(),
        ensures
            final(self).wf(),
            final(self).spec_intro() == old(self).spec_intro(),
            final(self).caps() == spec_upsert(old(self).caps(), cap@, msg@),
    {
        let key: String = cap.to_owned();
        let value: String = msg.to_owned();
        let mut i: usize = 0;
        while i < self.capabilities.len()
            invariant
                i <= self.capabilities@.len(),
                forall|j: int| 0 <= j < i ==> #[trigger] self.caps()[j].0 != key@,
                key@ == cap@,
                value@ == msg@,
                old(self).wf(),
                *self == *old(self),
            decreases self.capabilities@.len() - i,
        {
            if self.capabilities[i].0 == key {
                self.capabilities.set(i, (key, value));
                proof {
                    assert(self.caps() =~= old(self).caps().update(i as int, (cap@, msg@)));
                    lemma_upsert_found(old(self).caps(), cap@, msg@, i as int);
                    assert forall|p: int, q: int|
                        0 <= p < q < self.caps().len() implies self.caps()[p].0
                        != self.caps()[q].0 by {
                        assert(old(self).caps()[p].0 != old(self).caps()[q].0);
                        if p != i && q != i {
                        } else if p == i {
                            assert(old(self).caps()[p].0 == cap@);
                        } else {
                            assert(old(self).caps()[q].0 == cap@);
                        }
                    }
                }
                return;
            }
            i = i + 1;
        }
        self.capabilities.push((key, value));
        proof {
            assert(self.caps() =~= old(self).caps().push((cap@, msg@)));
            lemma_upsert_missing(old(self).caps(), cap@, msg@);
        }
    }

    /// Renders one capability as its structured record.
    pub fn map_capability(cap: &String, msg: &String) -> (r: String)
        ensures
            r@ == spec_record(cap@, msg@),
    {
        let mut r = String::from_str("{ \"cap\": \"");
        r.append(cap.as_str());
        r.append("\", \"msg\": \"");
        r.append(msg.as_str());
        r.append("\" }");
        r
    }

    /// The system-role text for the current registry state: the intro,
    /// then a fenced block with one record per capability.
    pub fn render(&self) -> (r: String)
        ensures
            r@ == spec_render(self.spec_intro(), self.caps()),
    {
        let mut records: Vec<String> = Vec::new();
        let mut i: usize = 0;
        while i < self.capabilities.len()
            invariant
                i <= self.capabilities@.len(),
                records@.len() == i,
                forall|j: int|
                    0 <= j < i ==> #[trigger] records@[j]@ == spec_record(
                        self.caps()[j].0,
                        self.caps()[j].1,
                    ),
            decreases self.capabilities@.len() - i,
        {
            let rec = SystemMsg::map_capability(&self.capabilities[i].0, &self.capabilities[i].1);
            records.push(rec);
            i = i + 1;
        }
        proof {
            assert(records.deep_view() =~= spec_records(self.caps()));
        }
        let joined = join_with(&records, ",\n");
        let mut r = self.intro.clone();
        r.append("\n```\n[");
        r.append(joined.as_str());
        r.append("]\n```");
        r
    }

    /// The introspection listing: every capability as `<name>: <description>`,
    /// comma-joined, in registry order.
    pub fn listing(&self) -> (r: String)
        ensures
            r@ == spec_listing(self.caps()),
    {
        let mut lines: Vec<String> = Vec::new();
        let mut i: usize = 0;
        while i < self.capabilities.len()
            invariant
                i <= self.capabilities@.len(),
                lines@.len() == i,
                forall|j: int|
                    0 <= j < i ==> #[trigger] lines@[j]@ == spec_listing_entry(
                        self.caps()[j].0,
                        self.caps()[j].1,
                    ),
            decreases self.capabilities@.len() - i,
        {
            let mut line = self.capabilities[i].0.clone();
            line.append(": ");
            line.append(self.capabilities[i].1.as_str());
            lines.push(line);
            i = i + 1;
        }
        proof {
            assert(lines.deep_view() =~= self.caps().map_values(
                |p: (Seq<char>, Seq<char>)| spec_listing_entry(p.0, p.1),
            ));
        }
        join_with(&lines, ", ")
    }

    /// The raw name/description pairs, in registry order.
    pub fn entries(&self) -> (r: &Vec<(String, String)>)
        ensures
            r.deep_view() == self.caps(),
    {
        &self.capabilities
    }
}

/// No entry carries `k` when no entry's name is `k`.
proof fn lemma_absent(s: Seq<(Seq<char>, Seq<char>)>, k: Seq<char>)
    requires
        forall|j: int| 0 <= j < s.len() ==> #[trigger] s[j].0 != k,
    ensures
        cap_count(s, k) == 0,
        spec_cap_of(s, k) is None,
    decreases s.len(),
{
    if s.len() > 0 {
        let rest = s.drop_first();
        assert(forall|j: int| 0 <= j < rest.len() ==> #[trigger] rest[j].0 == s[j + 1].0);
        lemma_absent(rest, k);
    }
}

/// Distinctness carries over to the tail, whose names all differ from the
/// head's.
proof fn lemma_distinct_drop(s: Seq<(Seq<char>, Seq<char>)>)
    requires
        distinct_keys(s),
        s.len() > 0,
    ensures
        distinct_keys(s.drop_first()),
        forall|j: int| 0 <= j < s.drop_first().len() ==> #[trigger] s.drop_first()[j].0
            != s.first().0,
{
    let rest = s.drop_first();
    assert forall|j: int| 0 <= j < rest.len() implies #[trigger] rest[j].0 != s.first().0 by {
        assert(rest[j] == s[j + 1]);
    }
    assert forall|p: int, q: int| 0 <= p < q < rest.len() implies rest[p].0 != rest[q].0 by {
        assert(rest[p] == s[p + 1] && rest[q] == s[q + 1]);
    }
}

/// A head whose name is fresh keeps a distinct tail distinct.
proof fn lemma_distinct_cons(a: (Seq<char>, Seq<char>), rest: Seq<(Seq<char>, Seq<char>)>)
    requires
        distinct_keys(rest),
        !contains_cap(rest, a.0),
    ensures
        distinct_keys(seq![a] + rest),
{
    let s = seq![a] + rest;
    assert forall|p: int, q: int| 0 <= p < q < s.len() implies s[p].0 != s[q].0 by {
        if p == 0 {
            assert(s[q] == rest[q - 1]);
            assert(rest[q - 1].0 != a.0);
        } else {
            assert(s[p] == rest[p - 1] && s[q] == rest[q - 1]);
        }
    }
}

/// Upserting introduces `k` and no other name.
proof fn lemma_upsert_contains(
    s: Seq<(Seq<char>, Seq<char>)>,
    k: Seq<char>,
    v: Seq<char>,
    k2: Seq<char>,
)
    ensures
        contains_cap(spec_upsert(s, k, v), k2) <==> (contains_cap(s, k2) || k2 == k),
    decreases s.len(),
{
    let u = spec_upsert(s, k, v);
    if s.len() == 0 {
        assert(u == seq![(k, v)]);
        assert(u[0].0 == k);
        assert(contains_cap(u, k2) <==> k2 == k);
    } else if s.first().0 == k {
        let rest = s.drop_first();
        assert(u == seq![(k, v)] + rest);
        assert(u[0].0 == k);
        assert forall|i: int| 0 <= i < u.len() && u[i].0 == k2 implies contains_cap(s, k2) || k2
            == k by {
            if i > 0 {
                assert(u[i] == s[i]);
            }
        }
        if contains_cap(s, k2) || k2 == k {
            if k2 == k {
                assert(u[0].0 == k2);
            } else {
                let i = choose|i: int| 0 <= i < s.len() && #[trigger] s[i].0 == k2;
                assert(i > 0 && u[i] == s[i]);
            }
        }
    } else {
        let rest = s.drop_first();
        lemma_upsert_contains(rest, k, v, k2);
        assert(u == seq![s.first()] + spec_upsert(rest, k, v));
        assert forall|i: int| 0 <= i < u.len() && u[i].0 == k2 implies contains_cap(s, k2) || k2
            == k by {
            if i == 0 {
                assert(s[0].0 == k2);
            } else {
                assert(u[i] == spec_upsert(rest, k, v)[i - 1]);
                assert(contains_cap(spec_upsert(rest, k, v), k2));
                if contains_cap(rest, k2) {
                    let j = choose|j: int| 0 <= j < rest.len() && #[trigger] rest[j].0 == k2;
                    assert(s[j + 1].0 == k2);
                }
            }
        }
        if contains_cap(s, k2) || k2 == k {
            if k2 == k || !(s[0].0 == k2) {
                if contains_cap(s, k2) && s[0].0 != k2 {
                    let i = choose|i: int| 0 <= i < s.len() && #[trigger] s[i].0 == k2;
                    assert(rest[i - 1].0 == k2);
                    assert(contains_cap(rest, k2));
                }
                assert(contains_cap(spec_upsert(rest, k, v), k2));
                let j = choose|j: int|
                    0 <= j < spec_upsert(rest, k, v).len() && #[trigger] spec_upsert(
                        rest,
                        k,
                        v,
                    )[j].0 == k2;
                assert(u[j + 1].0 == k2);
            } else {
                assert(u[0].0 == k2);
            }
        }
    }
}

/// What one upsert does to the registry: the name now carries exactly one
/// entry with the new description, and every other name is untouched.
pub proof fn lemma_upsert_effect(s: Seq<(Seq<char>, Seq<char>)>, k: Seq<char>, v: Seq<char>)
    requires
        distinct_keys(s),
    ensures
        distinct_keys(spec_upsert(s, k, v)),
        cap_count(spec_upsert(s, k, v), k) == 1,
        spec_cap_of(spec_upsert(s, k, v), k) == Some(v),
        forall|k2: Seq<char>|
            k2 != k ==> #[trigger] spec_cap_of(spec_upsert(s, k, v), k2) == spec_cap_of(s, k2),
    decreases s.len(),
{
    let u = spec_upsert(s, k, v);
    if s.len() == 0 {
        assert(u == seq![(k, v)]);
        assert(u.first() == (k, v));
        assert(u.drop_first() =~= Seq::<(Seq<char>, Seq<char>)>::empty());
        assert(cap_count(u.drop_first(), k) == 0);
        assert(cap_count(u, k) == 1);
        assert forall|k2: Seq<char>| k2 != k implies #[trigger] spec_cap_of(u, k2)
            == spec_cap_of(s, k2) by {
            assert(spec_cap_of(u, k2) == spec_cap_of(u.drop_first(), k2));
        }
    } else if s.first().0 == k {
        let rest = s.drop_first();
        lemma_distinct_drop(s);
        lemma_absent(rest, k);
        assert(u == seq![(k, v)] + rest);
        assert(u.first() == (k, v));
        assert(u.drop_first() =~= rest);
        assert(cap_count(u, k) == 1 + cap_count(rest, k));
        lemma_distinct_cons((k, v), rest);
        assert forall|k2: Seq<char>| k2 != k implies #[trigger] spec_cap_of(u, k2)
            == spec_cap_of(s, k2) by {
            assert(spec_cap_of(u, k2) == spec_cap_of(rest, k2));
            assert(spec_cap_of(s, k2) == spec_cap_of(rest, k2));
        }
    } else {
        let rest = s.drop_first();
        lemma_distinct_drop(s);
        lemma_upsert_effect(rest, k, v);
        assert(u == seq![s.first()] + spec_upsert(rest, k, v));
        assert(u.first() == s.first());
        assert(u.drop_first() =~= spec_upsert(rest, k, v));
        assert(cap_count(u, k) == cap_count(spec_upsert(rest, k, v), k));
        assert(spec_cap_of(u, k) == spec_cap_of(spec_upsert(rest, k, v), k));
        lemma_upsert_contains(rest, k, v, s.first().0);
        lemma_distinct_cons(s.first(), spec_upsert(rest, k, v));
        assert forall|k2: Seq<char>| k2 != k implies #[trigger] spec_cap_of(u, k2)
            == spec_cap_of(s, k2) by {
            if s.first().0 != k2 {
                assert(spec_cap_of(u, k2) == spec_cap_of(spec_upsert(rest, k, v), k2));
                assert(spec_cap_of(s, k2) == spec_cap_of(rest, k2));
            }
        }
    }
}

/// Registering the same capability name twice leaves exactly one entry
/// under that name, carrying the latest description; every other name
/// keeps its description.
pub proof fn lemma_last_write_wins(
    s: Seq<(Seq<char>, Seq<char>)>,
    k: Seq<char>,
    d1: Seq<char>,
    d2: Seq<char>,
)
    requires
        distinct_keys(s),
    ensures
        cap_count(spec_upsert(spec_upsert(s, k, d1), k, d2), k) == 1,
        spec_cap_of(spec_upsert(spec_upsert(s, k, d1), k, d2), k) == Some(d2),
        forall|k2: Seq<char>|
            k2 != k ==> #[trigger] spec_cap_of(spec_upsert(spec_upsert(s, k, d1), k, d2), k2)
                == spec_cap_of(s, k2),
{
    lemma_upsert_effect(s, k, d1);
    lemma_upsert_effect(spec_upsert(s, k, d1), k, d2);
}

/// The record of entry `i` stands verbatim somewhere in the rendered text.
pub open spec fn render_has_record(
    intro: Seq<char>,
    caps: Seq<(Seq<char>, Seq<char>)>,
    i: int,
) -> bool {
    exists|off: int| occurs_at(spec_render(intro, caps), spec_record(caps[i].0, caps[i].1), off)
}

/// The rendered system text starts with the intro and contains one
/// structured record for every registry entry, whatever order the entries
/// were folded in.
pub proof fn lemma_render_shape(intro: Seq<char>, caps: Seq<(Seq<char>, Seq<char>)>)
    ensures
        intro.is_prefix_of(spec_render(intro, caps)),
        forall|i: int| 0 <= i < caps.len() ==> #[trigger] render_has_record(intro, caps, i),
{
    let head = intro + "\n```\n["@;
    let joined = spec_join(spec_records(caps), ",\n"@);
    let tail = "]\n```"@;
    let r = spec_render(intro, caps);
    assert(r == head + joined + tail);
    assert(r.subrange(0, intro.len() as int) =~= intro);
    assert forall|i: int| 0 <= i < caps.len() implies #[trigger] render_has_record(
        intro,
        caps,
        i,
    ) by {
        let rec = spec_record(caps[i].0, caps[i].1);
        assert(spec_records(caps)[i] == rec);
        lemma_join_contains_part(spec_records(caps), ",\n"@, i);
        let off = choose|off: int| occurs_at(joined, rec, off);
        assert(r.subrange(head.len() + off, head.len() + off + rec.len()) =~= joined.subrange(
            off,
            off + rec.len(),
        ));
        assert(occurs_at(r, rec, head.len() + off));
    }
}

} // verus!
