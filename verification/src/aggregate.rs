//! The aggregator: a single pass over fetched channel messages that
//! decodes each attachment's field list and sums hours per contributor.
//! An entry that does not decode is skipped, never an error: historical
//! data may hold manual edits or older shapes, and one bad entry must not
//! abort the rest.

use vstd::prelude::*;

use crate::codec::{decode, decode_spec, Field, FieldV};
use crate::text::str_eq;

verus! {

/// One attachment of a fetched message; its field list may be absent.
#[derive(Debug, Clone, PartialEq)]
pub struct Attachment {
    pub fields: Option<Vec<Field>>,
}

#[verifier::ext_equal]
pub ghost struct AttachmentV {
    pub fields: Option<Seq<FieldV>>,
}

impl DeepView for Attachment {
    type V = AttachmentV;

    open spec fn deep_view(&self) -> AttachmentV {
        AttachmentV { fields: self.fields.deep_view() }
    }
}

/// One fetched message; its attachment list may be absent.
#[derive(Debug, Clone, PartialEq)]
pub struct Message {
    pub attachments: Option<Vec<Attachment>>,
}

#[verifier::ext_equal]
pub ghost struct MessageV {
    pub attachments: Option<Seq<AttachmentV>>,
}

impl DeepView for Message {
    type V = MessageV;

    open spec fn deep_view(&self) -> MessageV {
        MessageV { attachments: self.attachments.deep_view() }
    }
}

/// Adds `h` to the total of `name`, starting at zero for a new name.
pub open spec fn bump(m: Map<Seq<char>, int>, name: Seq<char>, h: int) -> Map<Seq<char>, int> {
    m.insert(name, (if m.contains_key(name) { m[name] } else { 0 }) + h)
}

/// One attachment's contribution: its decoded record's hours under the
/// record's contributor name, or nothing when there is no field list or
/// the list does not decode.
pub open spec fn agg_att(m: Map<Seq<char>, int>, a: AttachmentV) -> Map<Seq<char>, int> {
    match a.fields {
        None => m,
        Some(fs) => match decode_spec(fs) {
            Ok(r) => bump(m, r.username, r.hours as int),
            Err(_) => m,
        },
    }
}

pub open spec fn agg_atts(m: Map<Seq<char>, int>, atts: Seq<AttachmentV>) -> Map<Seq<char>, int>
    decreases atts.len(),
{
    if atts.len() == 0 {
        m
    } else {
        agg_att(agg_atts(m, atts.drop_last()), atts.last())
    }
}

pub open spec fn agg_msg(m: Map<Seq<char>, int>, msg: MessageV) -> Map<Seq<char>, int> {
    match msg.attachments {
        None => m,
        Some(atts) => agg_atts(m, atts),
    }
}

pub open spec fn agg_msgs(m: Map<Seq<char>, int>, msgs: Seq<MessageV>) -> Map<Seq<char>, int>
    decreases msgs.len(),
{
    if msgs.len() == 0 {
        m
    } else {
        agg_msg(agg_msgs(m, msgs.drop_last()), msgs.last())
    }
}

/// The per-contributor hour totals of a message sequence.
pub open spec fn aggregate_spec(msgs: Seq<MessageV>) -> Map<Seq<char>, int> {
    agg_msgs(Map::empty(), msgs)
}

/// An empty message sequence aggregates to the empty mapping.
pub proof fn lemma_aggregate_empty()
    ensures
        aggregate_spec(Seq::<MessageV>::empty()) == Map::<Seq<char>, int>::empty(),
{
}

/// How many attachments a message carries.
pub open spec fn attachment_count(msg: MessageV) -> nat {
    match msg.attachments {
        None => 0,
        Some(atts) => atts.len(),
    }
}

/// How many attachments a message sequence carries in all.
pub open spec fn total_attachments(msgs: Seq<MessageV>) -> nat
    decreases msgs.len(),
{
    if msgs.len() == 0 {
        0
    } else {
        total_attachments(msgs.drop_last()) + attachment_count(msgs.last())
    }
}

/// A prefix carries no more attachments than the whole.
pub proof fn lemma_total_attachments_take_le(msgs: Seq<MessageV>, i: int)
    requires
        0 <= i <= msgs.len(),
    ensures
        total_attachments(msgs.take(i)) <= total_attachments(msgs),
    decreases msgs.len(),
{
    if i < msgs.len() {
        assert(msgs.take(i) =~= msgs.drop_last().take(i));
        lemma_total_attachments_take_le(msgs.drop_last(), i);
    } else {
        assert(msgs.take(i) =~= msgs);
    }
}

/// Every total of the mapping lies within `b` of zero.
pub open spec fn map_bounded(m: Map<Seq<char>, int>, b: int) -> bool {
    forall|k: Seq<char>| #[trigger] m.contains_key(k) ==> -b <= m[k] <= b
}

/// A bump of at most one record's hours widens a bound by at most one
/// record's worth.
pub proof fn lemma_bump_bounded(m: Map<Seq<char>, int>, name: Seq<char>, h: int, b: int)
    requires
        map_bounded(m, b),
        b >= 0,
        -0x8000 <= h <= 0x8000,
    ensures
        map_bounded(bump(m, name, h), b + 0x8000),
{
    let m2 = bump(m, name, h);
    assert forall|k: Seq<char>| #[trigger] m2.contains_key(k) implies -(b + 0x8000) <= m2[k] <= b
        + 0x8000 by {
        if k != name {
            assert(m.contains_key(k));
        }
    }
}

/// The totals, stored as one entry per contributor name.
pub struct Aggregate {
    entries: Vec<(String, i64)>,
}

/// The mapping a list of (name, total) entries stands for, later entries
/// overriding earlier ones.
pub open spec fn entries_map(s: Seq<(Seq<char>, i64)>) -> Map<Seq<char>, int>
    decreases s.len(),
{
    if s.len() == 0 {
        Map::empty()
    } else {
        entries_map(s.drop_last()).insert(s.last().0, s.last().1 as int)
    }
}

/// No two entries share a name.
pub open spec fn distinct_keys(s: Seq<(Seq<char>, i64)>) -> bool {
    forall|i: int, j: int| 0 <= i < j < s.len() ==> (#[trigger] s[i]).0 != (#[trigger] s[j]).0
}

/// A name none of the entries carries is not in the mapping.
proof fn lemma_entries_map_absent(s: Seq<(Seq<char>, i64)>, k: Seq<char>)
    requires
        forall|i: int| 0 <= i < s.len() ==> (#[trigger] s[i]).0 != k,
    ensures
        !entries_map(s).contains_key(k),
    decreases s.len(),
{
    if s.len() > 0 {
        lemma_entries_map_absent(s.drop_last(), k);
    }
}

/// With distinct names, the mapping reads each entry's total back.
proof fn lemma_entries_map_index(s: Seq<(Seq<char>, i64)>, i: int)
    requires
        distinct_keys(s),
        0 <= i < s.len(),
    ensures
        entries_map(s).contains_key(s[i].0),
        entries_map(s)[s[i].0] == s[i].1 as int,
    decreases s.len(),
{
    if i == s.len() - 1 {
    } else {
        lemma_entries_map_index(s.drop_last(), i);
    }
}

/// With distinct names, overwriting entry `i` is inserting its name.
proof fn lemma_entries_map_update(s: Seq<(Seq<char>, i64)>, i: int, v: i64)
    requires
        distinct_keys(s),
        0 <= i < s.len(),
    ensures
        entries_map(s.update(i, (s[i].0, v))) == entries_map(s).insert(s[i].0, v as int),
    decreases s.len(),
{
    let s2 = s.update(i, (s[i].0, v));
    if i == s.len() - 1 {
        assert(s2.drop_last() =~= s.drop_last());
        assert(entries_map(s2) =~= entries_map(s).insert(s[i].0, v as int));
    } else {
        assert(s2.drop_last() =~= s.drop_last().update(i, (s[i].0, v)));
        lemma_entries_map_update(s.drop_last(), i, v);
        assert(s.drop_last()[i] == s[i]);
        assert(s2.last() == s.last());
        assert(entries_map(s2) == entries_map(s.drop_last()).insert(s[i].0, v as int).insert(
            s.last().0,
            s.last().1 as int,
        ));
        assert(s[i].0 != s.last().0);
        assert(entries_map(s.drop_last()).insert(s[i].0, v as int).insert(
            s.last().0,
            s.last().1 as int,
        ) =~= entries_map(s).insert(s[i].0, v as int));
    }
}

/// With distinct names, the mapping has one key per entry.
proof fn lemma_entries_map_dom(s: Seq<(Seq<char>, i64)>)
    requires
        distinct_keys(s),
    ensures
        entries_map(s).dom().finite(),
        entries_map(s).dom().len() == s.len(),
    decreases s.len(),
{
    if s.len() == 0 {
        assert(entries_map(s).dom() =~= Set::<Seq<char>>::empty());
    } else {
        lemma_entries_map_dom(s.drop_last());
        lemma_entries_map_absent(s.drop_last(), s.last().0);
        assert(entries_map(s).dom() =~= entries_map(s.drop_last()).dom().insert(s.last().0));
    }
}

impl Aggregate {
    /// Entry names are pairwise distinct.
    pub closed spec fn wf(&self) -> bool {
        distinct_keys(self.entries.deep_view())
    }

    /// The mapping from contributor name to hour total.
    pub closed spec fn view(&self) -> Map<Seq<char>, int> {
        entries_map(self.entries.deep_view())
    }

    /// An empty aggregate.
    pub fn new() -> (r: Aggregate)
        ensures
            r.wf(),
            r@ == Map::<Seq<char>, int>::empty(),
    {
        Aggregate { entries: Vec::new() }
    }

    /// The number of contributors with a total.
    pub fn len(&self) -> (n: usize)
        requires
            self.wf(),
        ensures
            n == self@.dom().len(),
    {
        proof {
            lemma_entries_map_dom(self.entries.deep_view());
        }
        self.entries.len()
    }

    /// The total recorded for a contributor name, if any.
    pub fn get(&self, name: &str) -> (r: Option<i64>)
        requires
            self.wf(),
        ensures
            r is Some <==> self@.contains_key(name@),
            r matches Some(v) ==> self@[name@] == v as int,
    {
        let ghost eseq = self.entries.deep_view();
        let mut i: usize = 0;
        while i < self.entries.len()
            invariant
                self.wf(),
                i <= self.entries.len(),
                eseq == self.entries.deep_view(),
                eseq.len() == self.entries.len(),
                forall|j: int| 0 <= j < i ==> (#[trigger] eseq[j]).0 != name@,
            decreases self.entries.len() - i,
        {
            if str_eq(self.entries[i].0.as_str(), name) {
                proof {
                    lemma_entries_map_index(eseq, i as int);
                }
                return Some(self.entries[i].1);
            }
            i += 1;
        }
        proof {
            lemma_entries_map_absent(eseq, name@);
        }
        None
    }

    /// The entries as stored; the order carries no meaning.
    pub fn entries(&self) -> (r: &Vec<(String, i64)>)
        ensures
            entries_map(r.deep_view()) == self@,
            self.wf() ==> distinct_keys(r.deep_view()),
    {
        &self.entries
    }

    /// Adds `h` to the total of `name`, starting at zero for a new name.
    fn add_hours(&mut self, name: &String, h: i64)
        requires
            old(self).wf(),
            old(self)@.contains_key(name@) ==> i64::MIN <= old(self)@[name@] + h <= i64::MAX,
        ensures
            final(self).wf(),
            final(self)@ == bump(old(self)@, name@, h as int),
    {
        let ghost eseq = self.entries.deep_view();
        let mut i: usize = 0;
        while i < self.entries.len()
            invariant
                *self == *old(self),
                i <= self.entries.len(),
                eseq == self.entries.deep_view(),
                eseq.len() == self.entries.len(),
                distinct_keys(eseq),
                entries_map(eseq) == old(self)@,
                old(self)@.contains_key(name@) ==> i64::MIN <= old(self)@[name@] + h
                    <= i64::MAX,
                forall|j: int| 0 <= j < i ==> (#[trigger] eseq[j]).0 != name@,
            decreases self.entries.len() - i,
        {
            if str_eq(self.entries[i].0.as_str(), name) {
                proof {
                    lemma_entries_map_index(eseq, i as int);
                }
                let key = self.entries[i].0.clone();
                let total = self.entries[i].1;
                let new_total = total + h;
                self.entries.set(i, (key, new_total));
                proof {
                    assert(self.entries.deep_view() =~= eseq.update(
                        i as int,
                        (name@, new_total),
                    ));
                    lemma_entries_map_update(eseq, i as int, new_total);
                    assert(distinct_keys(eseq.update(i as int, (name@, new_total)))) by {
                        let s2 = eseq.update(i as int, (name@, new_total));
                        assert(forall|a: int| 0 <= a < s2.len() ==> (#[trigger] s2[a]).0
                            == eseq[a].0);
                    }
                }
                return ;
            }
            i += 1;
        }
        proof {
            lemma_entries_map_absent(eseq, name@);
        }
        self.entries.push((name.clone(), h));
        proof {
            assert(self.entries.deep_view() =~= eseq.push((name@, h)));
            assert(self.entries.deep_view().drop_last() =~= eseq);
            assert(distinct_keys(eseq.push((name@, h)))) by {
                let s2 = eseq.push((name@, h));
                assert(forall|a: int| 0 <= a < eseq.len() ==> (#[trigger] s2[a]).0 == eseq[a].0);
                assert(s2[s2.len() - 1].0 == name@);
            }
        }
    }
}

/// Folds a fetched message sequence into per-contributor hour totals:
/// each attachment's field list is decoded, a decoded record adds its
/// hours under its contributor name, and anything without a field list or
/// without a decodable one is skipped.
pub fn aggregate(messages: &Vec<Message>) -> (r: Aggregate)
    requires
        total_attachments(messages.deep_view()) <= 0x1000_0000_0000,
    ensures
        r.wf(),
        r@ == aggregate_spec(messages.deep_view()),
{
    let ghost mseq = messages.deep_view();
    let mut totals = Aggregate::new();
    let mut i: usize = 0;
    while i < messages.len()
        invariant
            i <= messages.len(),
            mseq == messages.deep_view(),
            mseq.len() == messages.len(),
            total_attachments(mseq) <= 0x1000_0000_0000,
            totals.wf(),
            totals@ == agg_msgs(Map::empty(), mseq.take(i as int)),
            map_bounded(totals@, 0x8000 * (total_attachments(mseq.take(i as int)) as int)),
        decreases messages.len() - i,
    {
        proof {
            assert(mseq.take(i + 1).drop_last() =~= mseq.take(i as int));
            assert(mseq.take(i + 1).last() == mseq[i as int]);
        }
        let ghost ti = total_attachments(mseq.take(i as int)) as int;
        match &messages[i].attachments {
            None => {
                proof {
                    assert(mseq[i as int] == messages[i as int].deep_view());
                    assert(attachment_count(mseq[i as int]) == 0);
                }
            },
            Some(atts) => {
                let ghost aseq = atts.deep_view();
                proof {
                    assert(mseq[i as int] == messages[i as int].deep_view());
                    assert(attachment_count(mseq[i as int]) == aseq.len());
                    lemma_total_attachments_take_le(mseq, i + 1);
                    assert(total_attachments(mseq.take(i + 1)) == total_attachments(
                        mseq.take(i as int),
                    ) + aseq.len());
                }
                let mut j: usize = 0;
                while j < atts.len()
                    invariant
                        j <= atts.len(),
                        aseq == atts.deep_view(),
                        aseq.len() == atts.len(),
                        0 <= ti,
                        ti == total_attachments(mseq.take(i as int)) as int,
                        ti + aseq.len() <= total_attachments(mseq) as int,
                        total_attachments(mseq) <= 0x1000_0000_0000,
                        totals.wf(),
                        totals@ == agg_atts(
                            agg_msgs(Map::empty(), mseq.take(i as int)),
                            aseq.take(j as int),
                        ),
                        map_bounded(totals@, 0x8000 * (ti + j)),
                    decreases atts.len() - j,
                {
                    proof {
                        assert(aseq.take(j + 1).drop_last() =~= aseq.take(j as int));
                        assert(aseq.take(j + 1).last() == aseq[j as int]);
                    }
                    match &atts[j].fields {
                        None => {},
                        Some(fields) => {
                            match decode(fields) {
                                Ok(rec) => {
                                    proof {
                                        lemma_bump_bounded(
                                            totals@,
                                            rec.username@,
                                            rec.hours as int,
                                            0x8000 * (ti + j),
                                        );
                                    }
                                    totals.add_hours(&rec.username, rec.hours as i64);
                                },
                                Err(_) => {},
                            }
                        },
                    }
                    j += 1;
                }
                proof {
                    assert(aseq.take(aseq.len() as int) =~= aseq);
                }
            },
        }
        i += 1;
    }
    proof {
        assert(mseq.take(i as int) =~= mseq);
    }
    totals
}

} // verus!
