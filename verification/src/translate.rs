//! The store translator: visits every entry exactly once, decodes the stored
//! record at its expected legacy schema, applies the per-record upgrade, and
//! writes the result back under the same key.  An entry whose record is not
//! in the expected legacy shape fails to decode and is dropped by the
//! in-place rewrite — a known data-loss risk of this design, surfaced to the
//! caller as a per-entry failure count rather than papered over.

use vstd::prelude::*;
use crate::record::{
    AccountStatus, NicknameView, OldNickname, Record, RecordView, lemma_rfind_space_in_range,
    record_wf, split_name, split_view,
};
use crate::store::{Entry, EntryView, Store, entries_wf, keys_unique};

verus! {

/// Which one-version step a translation performs.
#[derive(Clone, Copy, Debug, PartialEq, Eq, Structural)]
pub enum Step {
    /// Schema 0 to schema 1: split each raw name on its last space.
    ToV1,
    /// Schema 1 to schema 2: add the default `Active` status to each name.
    ToV2,
}

/// The version a step migrates the store to.
pub open spec fn step_target(step: Step) -> u32 {
    match step {
        Step::ToV1 => 1,
        Step::ToV2 => 2,
    }
}

/// What upgrading one record under a step yields; `None` when the record is
/// not in the legacy shape the step expects (a decode failure).
pub open spec fn migrate_record(step: Step, r: RecordView) -> Option<RecordView> {
    match step {
        Step::ToV1 => match r {
            RecordView::Raw(name) => Some(RecordView::Named(split_view(name))),
            _ => None,
        },
        Step::ToV2 => match r {
            RecordView::Named(n) => Some(
                RecordView::Current(NicknameView { name: n, status: AccountStatus::Active }),
            ),
            _ => None,
        },
    }
}

/// A record decodes under a step when it is in the legacy shape the step
/// expects.
pub open spec fn decodable(step: Step, r: RecordView) -> bool {
    migrate_record(step, r) is Some
}

/// The shape every record holds after a step has rewritten it: split under
/// schema 1; split with the single permitted status, `Active`, under schema
/// 2.  No migration ever produces `Inactive` or `Undefined`.
pub open spec fn migrated_shape(step: Step, r: RecordView) -> bool {
    match step {
        Step::ToV1 => r is Named,
        Step::ToV2 => match r {
            RecordView::Current(c) => c.status == AccountStatus::Active,
            _ => false,
        },
    }
}

/// What upgrading one entry yields: the record is rewritten, the key and the
/// deposit are untouched.
pub open spec fn migrate_entry_view(step: Step, e: EntryView) -> Option<EntryView> {
    match migrate_record(step, e.record) {
        Some(r) => Some(EntryView { key: e.key, record: r, deposit: e.deposit }),
        None => None,
    }
}

/// What a whole-store translation yields: every entry upgraded in order,
/// entries that fail to decode dropped.
pub open spec fn translate_seq(step: Step, s: Seq<EntryView>) -> Seq<EntryView>
    decreases s.len(),
{
    if s.len() == 0 {
        s
    } else {
        let rest = translate_seq(step, s.drop_first());
        match migrate_entry_view(step, s.first()) {
            Some(e) => seq![e] + rest,
            None => rest,
        }
    }
}

/// Translation consumes its input one entry at the front at a time; this
/// restates it one entry at the back at a time.
pub proof fn lemma_translate_push(step: Step, s: Seq<EntryView>, e: EntryView)
    ensures
        translate_seq(step, s.push(e)) == translate_seq(step, s) + (match migrate_entry_view(
            step,
            e,
        ) {
            Some(x) => seq![x],
            None => Seq::<EntryView>::empty(),
        }),
    decreases s.len(),
{
    let tail = (match migrate_entry_view(step, e) {
        Some(x) => seq![x],
        None => Seq::<EntryView>::empty(),
    });
    if s.len() == 0 {
        assert(s.push(e).drop_first() =~= s);
        assert(s.push(e).first() == e);
        assert(translate_seq(step, s.push(e)) =~= translate_seq(step, s) + tail);
    } else {
        assert(s.push(e).drop_first() =~= s.drop_first().push(e));
        assert(s.push(e).first() == s.first());
        lemma_translate_push(step, s.drop_first(), e);
        assert(translate_seq(step, s.push(e)) =~= translate_seq(step, s) + tail);
    }
}

/// A translated store is never larger than the store it came from.
pub proof fn lemma_translate_len_le(step: Step, s: Seq<EntryView>)
    ensures
        translate_seq(step, s).len() <= s.len(),
    decreases s.len(),
{
    if s.len() > 0 {
        lemma_translate_len_le(step, s.drop_first());
    }
}

/// Count preservation: when every entry decodes, translation drops nothing —
/// the result has exactly one entry per input entry, at the same position,
/// with the same key and the same deposit.
pub proof fn lemma_count_preservation(step: Step, s: Seq<EntryView>)
    requires
        forall|i: int| 0 <= i < s.len() ==> decodable(step, #[trigger] s[i].record),
    ensures
        translate_seq(step, s).len() == s.len(),
        forall|i: int| 0 <= i < s.len() ==> translate_seq(step, s)[i] == migrate_entry_view(
            step,
            s[i],
        ).unwrap(),
        forall|i: int| 0 <= i < s.len() ==> #[trigger] translate_seq(step, s)[i].key == s[i].key,
        forall|i: int| 0 <= i < s.len() ==> #[trigger] translate_seq(step, s)[i].deposit
            == s[i].deposit,
    decreases s.len(),
{
    if s.len() > 0 {
        assert(decodable(step, s[0].record));
        assert(forall|i: int|
            0 <= i < s.drop_first().len() ==> decodable(
                step,
                #[trigger] s.drop_first()[i].record,
            )) by {
            assert(forall|i: int|
                0 <= i < s.drop_first().len() ==> #[trigger] s.drop_first()[i] == s[i + 1]);
        }
        lemma_count_preservation(step, s.drop_first());
        assert(forall|i: int|
            1 <= i < s.len() ==> #[trigger] translate_seq(step, s)[i] == translate_seq(
                step,
                s.drop_first(),
            )[i - 1]);
    }
}

/// No translated entry carries a key that was absent from the input.
pub proof fn lemma_translate_key_absent(step: Step, s: Seq<EntryView>, k: u64)
    requires
        forall|i: int| 0 <= i < s.len() ==> (#[trigger] s[i].key) != k,
    ensures
        forall|j: int|
            0 <= j < translate_seq(step, s).len() ==> (#[trigger] translate_seq(step, s)[j].key)
                != k,
    decreases s.len(),
{
    if s.len() > 0 {
        assert(forall|i: int|
            0 <= i < s.drop_first().len() ==> (#[trigger] s.drop_first()[i].key) != k) by {
            assert(forall|i: int|
                0 <= i < s.drop_first().len() ==> #[trigger] s.drop_first()[i] == s[i + 1]);
        }
        lemma_translate_key_absent(step, s.drop_first(), k);
    }
}

/// Status defaulting: every record a translation leaves behind is in the
/// migrated shape — after the step to schema 2, every record's status field
/// holds `Active` and nothing else.
pub proof fn lemma_status_defaulting(step: Step, s: Seq<EntryView>)
    ensures
        forall|j: int|
            0 <= j < translate_seq(step, s).len() ==> migrated_shape(
                step,
                #[trigger] translate_seq(step, s)[j].record,
            ),
    decreases s.len(),
{
    if s.len() > 0 {
        lemma_status_defaulting(step, s.drop_first());
        let t = translate_seq(step, s);
        let trest = translate_seq(step, s.drop_first());
        match migrate_entry_view(step, s.first()) {
            Some(e) => {
                assert(forall|j: int| 0 < j < t.len() ==> #[trigger] t[j] == trest[j - 1]);
                assert(t[0] == e);
            },
            None => {},
        }
    }
}

/// Upgrading a record within the capacity bound yields a record within the
/// capacity bound: split segments are never longer than the raw name.
pub proof fn lemma_migrate_record_wf(step: Step, r: RecordView, max: int)
    requires
        record_wf(r, max),
        decodable(step, r),
    ensures
        record_wf(migrate_record(step, r).unwrap(), max),
{
    match step {
        Step::ToV1 => {
            let name = r->Raw_0;
            lemma_rfind_space_in_range(name);
        },
        Step::ToV2 => {},
    }
}

/// Translation preserves well-formedness: keys stay unique and every record
/// stays within the capacity bound.
pub proof fn lemma_translate_wf(step: Step, s: Seq<EntryView>, max: int)
    requires
        entries_wf(s, max),
    ensures
        entries_wf(translate_seq(step, s), max),
    decreases s.len(),
{
    if s.len() > 0 {
        let rest = s.drop_first();
        assert(forall|i: int| 0 <= i < rest.len() ==> #[trigger] rest[i] == s[i + 1]);
        lemma_translate_wf(step, rest, max);
        let t = translate_seq(step, s);
        let trest = translate_seq(step, rest);
        match migrate_entry_view(step, s.first()) {
            Some(e) => {
                lemma_migrate_record_wf(step, s[0].record, max);
                assert(forall|i: int| 0 <= i < rest.len() ==> (#[trigger] rest[i].key) != s[0].key);
                lemma_translate_key_absent(step, rest, s[0].key);
                assert(t == seq![e] + trest);
                assert(forall|j: int| 0 <= j < trest.len() ==> #[trigger] t[j + 1] == trest[j]);
                assert(t[0] == e);
                assert(keys_unique(t)) by {
                    assert(forall|i: int, j: int|
                        0 < i < j < t.len() ==> #[trigger] t[i].key != #[trigger] t[j].key) by {
                        assert(forall|i: int| 0 < i < t.len() ==> #[trigger] t[i] == trest[i - 1]);
                    }
                    assert(forall|j: int| 0 < j < t.len() ==> t[0].key != #[trigger] t[j].key) by {
                        assert(forall|i: int| 0 < i < t.len() ==> #[trigger] t[i] == trest[i - 1]);
                    }
                }
                assert(forall|i: int| 0 <= i < t.len() ==> record_wf(#[trigger] t[i].record, max))
                    by {
                    assert(forall|i: int| 0 < i < t.len() ==> #[trigger] t[i] == trest[i - 1]);
                }
            },
            None => {},
        }
    }
}

/// Upgrade one entry, keeping its key and deposit; `None` when its record is
/// not in the legacy shape this step expects.
pub fn migrate_entry(step: Step, e: Entry) -> (r: Option<Entry>)
    ensures
        match r {
            Some(x) => migrate_entry_view(step, e@) == Some(x@),
            None => migrate_entry_view(step, e@) is None,
        },
{
    match step {
        Step::ToV1 => match e.record {
            Record::Raw(name) => {
                let nick = split_name(&name);
                Some(Entry { key: e.key, record: Record::Named(nick), deposit: e.deposit })
            },
            Record::Named(_) => None,
            Record::Current(_) => None,
        },
        Step::ToV2 => match e.record {
            Record::Named(n) => {
                let old_nick = OldNickname { first: n.first, last: n.last };
                let upgraded = old_nick.migrate_to_v2();
                Some(Entry { key: e.key, record: Record::Current(upgraded), deposit: e.deposit })
            },
            Record::Raw(_) => None,
            Record::Current(_) => None,
        },
    }
}

/// Rewrite every entry of the store in place under the given step.
///
/// Returns how many entries were decoded and rewritten, and how many failed
/// to decode and were dropped; the two always account for every entry the
/// store held.
pub fn translate_all(step: Step, store: &mut Store) -> (r: (u64, u64))
    requires
        old(store).wf(),
        old(store)@.len() < u64::MAX,
    ensures
        final(store)@ == translate_seq(step, old(store)@),
        final(store).max_len == old(store).max_len,
        final(store).wf(),
        r.0 == translate_seq(step, old(store)@).len(),
        r.0 + r.1 == old(store)@.len(),
{
    let ghost orig = store@;
    let ghost omax = store.max_len;
    let mut out: Vec<Entry> = Vec::new();
    let mut migrated: u64 = 0;
    let mut dropped: u64 = 0;
    let ghost mut k: int = 0;
    proof {
        assert(store@.subrange(0, 0) =~= Seq::<EntryView>::empty());
        assert(out@.map_values(|x: Entry| x@) =~= Seq::<EntryView>::empty());
    }
    while store.entries.len() > 0
        invariant
            0 <= k <= orig.len(),
            orig.len() < u64::MAX,
            store@ == orig.subrange(k, orig.len() as int),
            store.max_len == omax,
            out@.map_values(|x: Entry| x@) == translate_seq(step, orig.subrange(0, k)),
            migrated == translate_seq(step, orig.subrange(0, k)).len(),
            migrated + dropped == k,
        decreases store@.len(),
    {
        let ghost prev_store = store@;
        let ghost prev_entries = store.entries@;
        let ghost prefix = orig.subrange(0, k);
        let e = store.entries.remove(0);
        let ghost ev = e@;
        proof {
            assert(ev == prev_store[0]);
            assert(store.entries@ == prev_entries.remove(0));
            assert forall|i: int| 0 <= i < store@.len() implies store@[i] == prev_store[i + 1] by {
                assert(store@[i] == store.entries@[i]@);
                assert(store.entries@[i] == prev_entries[i + 1]);
                assert(prev_store[i + 1] == prev_entries[i + 1]@);
            }
            assert(store@ =~= orig.subrange(k + 1, orig.len() as int));
            assert(orig.subrange(0, k + 1) =~= prefix.push(ev));
            lemma_translate_push(step, prefix, ev);
            lemma_translate_len_le(step, prefix);
        }
        match migrate_entry(step, e) {
            Some(x) => {
                let ghost prev_out = out@.map_values(|y: Entry| y@);
                out.push(x);
                proof {
                    assert(out@.map_values(|y: Entry| y@) =~= prev_out.push(x@));
                    assert(translate_seq(step, orig.subrange(0, k + 1)) =~= prev_out.push(x@));
                }
                migrated = migrated + 1;
            },
            None => {
                proof {
                    assert(translate_seq(step, orig.subrange(0, k + 1)) == translate_seq(
                        step,
                        prefix,
                    ) + Seq::<EntryView>::empty());
                    assert(translate_seq(step, orig.subrange(0, k + 1)) =~= translate_seq(
                        step,
                        prefix,
                    ));
                }
                dropped = dropped + 1;
            },
        }
        proof {
            k = k + 1;
        }
    }
    proof {
        assert(orig.subrange(0, orig.len() as int) =~= orig);
        assert(store@ =~= Seq::<EntryView>::empty());
    }
    store.entries = out;
    proof {
        lemma_translate_wf(step, orig, omax as int);
    }
    (migrated, dropped)
}

} // verus!
