//! Old recordings: which ones a retention period would delete, how much
//! space that frees, and how the cleanup is reported.

use vstd::prelude::*;

use crate::text::{chars_of, concat, string_of};
use crate::ui_lang::msg;

verus! {

/// Longest retention period, in days (ten years).
pub const MAX_DAYS: u32 = 3650;

/// Nanoseconds in a day.
pub const DAY_NANOS: i64 = 86_400_000_000_000;

/// One recording that the period would delete.
pub struct RetentionItem {
    pub id: String,
    pub title: String,
    pub started_at: String,
    pub bytes: u64,
}

/// What a cleanup would delete.
pub struct RetentionPreview {
    pub days: u32,
    pub count: usize,
    pub bytes: u64,
    pub items: Vec<RetentionItem>,
}

/// What a cleanup did.
pub struct RetentionCleanupResult {
    pub deleted: usize,
    pub bytes_freed: u64,
    pub errors: Vec<String>,
}

/// A stored recording as the retention reads it: when it started (in
/// nanoseconds since the epoch, and written as RFC 3339) and the size of its
/// folder.
pub struct RecordingAge {
    pub id: String,
    pub title: String,
    pub started_at: String,
    pub started_nanos: i64,
    pub bytes: u64,
}

/// The retention period in force: the one asked for, else the configured
/// one, never more than ten years.
pub fn effective_days(requested: Option<u32>, configured: u32) -> (r: u32)
    ensures
        r == (match requested {
            Some(d) => if d > MAX_DAYS {
                MAX_DAYS
            } else {
                d
            },
            None => if configured > MAX_DAYS {
                MAX_DAYS
            } else {
                configured
            },
        }),
{
    let d = match requested {
        Some(d) => d,
        None => configured,
    };
    if d > MAX_DAYS {
        MAX_DAYS
    } else {
        d
    }
}

/// The instant before which recordings go: `days` before `now`.
pub open spec fn cutoff_of(now_nanos: i64, days: u32) -> int {
    now_nanos - days * DAY_NANOS
}

/// Saturating sum of sizes.
pub open spec fn sat_add(a: u64, b: u64) -> u64 {
    if a + b > u64::MAX {
        u64::MAX
    } else {
        (a + b) as u64
    }
}

/// The recordings that started before the cutoff, in order.
pub open spec fn expired(recs: Seq<RecordingAge>, cutoff: int) -> Seq<RecordingAge>
    decreases recs.len(),
{
    if recs.len() == 0 {
        Seq::empty()
    } else if recs.last().started_nanos < cutoff {
        expired(recs.drop_last(), cutoff).push(recs.last())
    } else {
        expired(recs.drop_last(), cutoff)
    }
}

/// The saturating total size of some recordings.
pub open spec fn total_bytes(recs: Seq<RecordingAge>) -> u64
    decreases recs.len(),
{
    if recs.len() == 0 {
        0
    } else {
        sat_add(total_bytes(recs.drop_last()), recs.last().bytes)
    }
}

/// An item as plain values.
pub open spec fn item_fields(i: RetentionItem) -> (Seq<char>, Seq<char>, Seq<char>, u64) {
    (i.id@, i.title@, i.started_at@, i.bytes)
}

/// A recording as the item it would become.
pub open spec fn age_fields(r: RecordingAge) -> (Seq<char>, Seq<char>, Seq<char>, u64) {
    (r.id@, r.title@, r.started_at@, r.bytes)
}

/// The plain sum of some sizes.
pub open spec fn sum_of(sizes: Seq<u64>) -> int {
    sizes.fold_left(0int, |acc: int, x: u64| acc + x)
}

proof fn lemma_total_is_capped_sum(recs: Seq<RecordingAge>)
    ensures
        total_bytes(recs) == (if sum_of(recs.map_values(|a: RecordingAge| a.bytes)) <= u64::MAX {
            sum_of(recs.map_values(|a: RecordingAge| a.bytes))
        } else {
            u64::MAX as int
        }),
        sum_of(recs.map_values(|a: RecordingAge| a.bytes)) >= 0,
    decreases recs.len(),
{
    if recs.len() > 0 {
        lemma_total_is_capped_sum(recs.drop_last());
        assert(recs.map_values(|a: RecordingAge| a.bytes).drop_last() =~= recs.drop_last().map_values(
            |a: RecordingAge| a.bytes,
        ));
    }
}

/// The size a preview reports is the sum of the sizes of the recordings it
/// lists, or `u64::MAX` when that sum does not fit; it counts exactly the
/// recordings it lists.
pub proof fn lemma_preview_bytes_are_the_sum(
    days: u32,
    now_nanos: i64,
    recs: Seq<RecordingAge>,
    r: RetentionPreview,
)
    requires
        days == 0 ==> r.count == 0 && r.bytes == 0 && r.items@.len() == 0,
        days > 0 ==> {
            let gone = expired(recs, cutoff_of(now_nanos, days));
            &&& r.items@.map_values(|i: RetentionItem| item_fields(i)) == gone.map_values(
                |a: RecordingAge| age_fields(a),
            )
            &&& r.count == gone.len()
            &&& r.bytes == total_bytes(gone)
        },
    ensures
        r.count == r.items@.len(),
        ({
            let sum = sum_of(r.items@.map_values(|i: RetentionItem| i.bytes));
            r.bytes == (if sum <= u64::MAX {
                sum
            } else {
                u64::MAX as int
            })
        }),
{
    let sizes = r.items@.map_values(|i: RetentionItem| i.bytes);
    if days == 0 {
        assert(sizes =~= Seq::<u64>::empty());
    } else {
        let gone = expired(recs, cutoff_of(now_nanos, days));
        let fi = r.items@.map_values(|i: RetentionItem| item_fields(i));
        let fa = gone.map_values(|a: RecordingAge| age_fields(a));
        assert(fi.len() == fa.len());
        assert(sizes =~= gone.map_values(|a: RecordingAge| a.bytes)) by {
            assert forall|k: int| 0 <= k < sizes.len() implies sizes[k] == gone[k].bytes by {
                assert(fi[k] == fa[k]);
            }
        }
        lemma_total_is_capped_sum(gone);
    }
}

/// What a cleanup with this period would delete: nothing for a period of
/// 0; otherwise every recording started more than `days` before `now`.
pub fn preview(days: u32, now_nanos: i64, recs: &Vec<RecordingAge>) -> (r: RetentionPreview)
    requires
        days <= MAX_DAYS,
    ensures
        r.days == days,
        days == 0 ==> r.count == 0 && r.bytes == 0 && r.items@.len() == 0,
        days > 0 ==> {
            let gone = expired(recs@, cutoff_of(now_nanos, days));
            &&& r.items@.map_values(|i: RetentionItem| item_fields(i)) == gone.map_values(
                |a: RecordingAge| age_fields(a),
            )
            &&& r.count == gone.len()
            &&& r.bytes == total_bytes(gone)
        },
{
    if days == 0 {
        return RetentionPreview { days, count: 0, bytes: 0, items: Vec::new() };
    }
    let d = days as i128;
    assert(0 <= d * 86_400_000_000_000 <= 3650 * 86_400_000_000_000) by (nonlinear_arith)
        requires
            0 <= d <= 3650,
    ;
    let span: i128 = d * (DAY_NANOS as i128);
    let cutoff: i128 = (now_nanos as i128) - span;
    let ghost c = cutoff_of(now_nanos, days);
    assert(cutoff == c);
    let mut items: Vec<RetentionItem> = Vec::new();
    let mut bytes: u64 = 0;
    let mut i: usize = 0;
    while i < recs.len()
        invariant
            i <= recs@.len(),
            cutoff == c,
            items@.map_values(|i: RetentionItem| item_fields(i)) == expired(
                recs@.take(i as int),
                c,
            ).map_values(|a: RecordingAge| age_fields(a)),
            bytes == total_bytes(expired(recs@.take(i as int), c)),
            items@.len() == expired(recs@.take(i as int), c).len(),
        decreases recs@.len() - i,
    {
        let rec = &recs[i];
        assert(recs@.take(i + 1).drop_last() =~= recs@.take(i as int));
        if (rec.started_nanos as i128) < cutoff {
            let ghost prev_items = items@;
            let ghost prev_gone = expired(recs@.take(i as int), c);
            bytes = if bytes as u128 + rec.bytes as u128 > u64::MAX as u128 {
                u64::MAX
            } else {
                bytes + rec.bytes
            };
            items.push(
                RetentionItem {
                    id: rec.id.clone(),
                    title: rec.title.clone(),
                    started_at: rec.started_at.clone(),
                    bytes: rec.bytes,
                },
            );
            assert(expired(recs@.take(i + 1), c) == prev_gone.push(recs@[i as int]));
            assert(prev_gone.push(recs@[i as int]).drop_last() =~= prev_gone);
            assert(items@.map_values(|i: RetentionItem| item_fields(i)) =~= prev_items.map_values(
                |i: RetentionItem| item_fields(i),
            ).push(age_fields(recs@[i as int])));
            assert(prev_gone.push(recs@[i as int]).map_values(|a: RecordingAge| age_fields(a))
                =~= prev_gone.map_values(|a: RecordingAge| age_fields(a)).push(
                age_fields(recs@[i as int]),
            ));
        }
        i += 1;
    }
    assert(recs@.take(recs@.len() as int) =~= recs@);
    let count = items.len();
    RetentionPreview { days, count, bytes, items }
}

/// In the interface's language.
pub open spec fn in_lang(en: bool, es: Seq<char>, english: Seq<char>) -> Seq<char> {
    if en {
        english
    } else {
        es
    }
}

/// May a cleanup run? Only when confirmed, and not during a recording or a
/// dictation.
pub fn cleanup_gate(en: bool, confirm: bool, recording_active: bool, dictation_active: bool) -> (r:
    Result<(), String>)
    ensures
        !confirm ==> (r matches Err(m) && m@ == in_lang(
            en,
            "La limpieza requiere confirmación explícita."@,
            "Cleanup requires explicit confirmation."@,
        )),
        confirm && (recording_active || dictation_active) ==> (r matches Err(m) && m@ == in_lang(
            en,
            "Termina la grabación o el dictado antes de limpiar datos."@,
            "Finish recording or dictation before cleaning data."@,
        )),
        confirm && !recording_active && !dictation_active ==> r is Ok,
{
    if !confirm {
        return Err(
            msg(en, "La limpieza requiere confirmación explícita.", "Cleanup requires explicit confirmation."),
        );
    }
    if recording_active || dictation_active {
        return Err(
            msg(
                en,
                "Termina la grabación o el dictado antes de limpiar datos.",
                "Finish recording or dictation before cleaning data.",
            ),
        );
    }
    Ok(())
}

/// The period of the automatic cleanup, when it runs: only when enabled and
/// with a period.
pub fn auto_cleanup_days(auto_cleanup: bool, days: u32) -> (r: Option<u32>)
    ensures
        r == (if auto_cleanup && days > 0 {
            Some(days)
        } else {
            None::<u32>
        }),
{
    if !auto_cleanup || days == 0 {
        None
    } else {
        Some(days)
    }
}

impl RetentionCleanupResult {
    /// Nothing done yet.
    pub fn new() -> (r: RetentionCleanupResult)
        ensures
            r.deleted == 0,
            r.bytes_freed == 0,
            r.errors@.len() == 0,
    {
        RetentionCleanupResult { deleted: 0, bytes_freed: 0, errors: Vec::new() }
    }

    /// One recording deleted, of this size.
    pub fn record_deleted(&mut self, bytes: u64)
        requires
            old(self).deleted < usize::MAX,
        ensures
            final(self).deleted == old(self).deleted + 1,
            final(self).bytes_freed == sat_add(old(self).bytes_freed, bytes),
            final(self).errors@ == old(self).errors@,
    {
        self.deleted = self.deleted + 1;
        self.bytes_freed = if self.bytes_freed as u128 + bytes as u128 > u64::MAX as u128 {
            u64::MAX
        } else {
            self.bytes_freed + bytes
        };
    }

    /// One recording that could not be deleted: `title: reason`.
    pub fn record_error(&mut self, title: &str, reason: &str)
        ensures
            final(self).deleted == old(self).deleted,
            final(self).bytes_freed == old(self).bytes_freed,
            final(self).errors@.len() == old(self).errors@.len() + 1,
            final(self).errors@.drop_last() == old(self).errors@,
            final(self).errors@.last()@ == title@ + ": "@ + reason@,
    {
        let a = concat(&chars_of(title), &chars_of(": "));
        let b = concat(&a, &chars_of(reason));
        self.errors.push(string_of(&b));
        assert(self.errors@.drop_last() =~= old(self).errors@);
    }
}

/// Why a folder was not deleted although it exists: it resolves outside the
/// recordings folder.
pub fn outside_reason() -> (r: &'static str)
    ensures
        r@ == "ruta fuera del directorio permitido"@,
{
    "ruta fuera del directorio permitido"
}

} // verus!
