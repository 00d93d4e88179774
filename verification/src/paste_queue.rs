//! Texts waiting to be pasted when no window can take them yet: a bounded
//! queue, oldest first.

use vstd::prelude::*;

use crate::ids::{new_uuid, uuid_shaped};
use crate::text::{chars_of, same_chars, string_of, take_chars, trim, trimmed};

verus! {

/// Most texts kept waiting; the oldest go first.
pub const MAX_ITEMS: usize = 20;

/// Longest preview of a queued text, in characters.
pub const PREVIEW_CHARS: usize = 120;

/// One waiting text.
#[derive(Debug)]
pub struct PasteQueueItem {
    pub id: String,
    pub text: String,
    pub created_at_ms: u64,
}

/// What happened to a text handed for pasting.
#[derive(Debug, Clone, Copy, PartialEq, Eq, Structural)]
pub enum PasteOutcome {
    Pasted,
    Queued,
}

/// An item as plain values.
pub open spec fn item_view(i: PasteQueueItem) -> (Seq<char>, Seq<char>, u64) {
    (i.id@, i.text@, i.created_at_ms)
}

/// The items of a list as plain values.
pub open spec fn item_views(v: Seq<PasteQueueItem>) -> Seq<(Seq<char>, Seq<char>, u64)> {
    v.map_values(|i: PasteQueueItem| item_view(i))
}

/// The waiting texts, oldest first.
pub struct PasteQueue {
    pub items: Vec<PasteQueueItem>,
}

/// The last `MAX_ITEMS` of a list.
pub open spec fn last_allowed<T>(s: Seq<T>) -> Seq<T> {
    if s.len() > MAX_ITEMS {
        s.skip(s.len() - MAX_ITEMS)
    } else {
        s
    }
}

fn copy_item(i: &PasteQueueItem) -> (r: PasteQueueItem)
    ensures
        item_view(r) == item_view(*i),
{
    PasteQueueItem { id: i.id.clone(), text: i.text.clone(), created_at_ms: i.created_at_ms }
}

/// Paste now when some window can take it, else wait in the queue.
pub fn paste_outcome(has_target: bool) -> (r: PasteOutcome)
    ensures
        r == (if has_target {
            PasteOutcome::Pasted
        } else {
            PasteOutcome::Queued
        }),
{
    if has_target {
        PasteOutcome::Pasted
    } else {
        PasteOutcome::Queued
    }
}

/// What the interface shows of a queued text: its first characters.
pub fn queued_preview(text: &str) -> (r: String)
    ensures
        r@ == (if text@.len() <= PREVIEW_CHARS {
            text@
        } else {
            text@.take(PREVIEW_CHARS as int)
        }),
{
    string_of(&take_chars(&chars_of(text), PREVIEW_CHARS))
}

impl PasteQueue {
    /// An empty queue.
    pub fn new() -> (q: PasteQueue)
        ensures
            q.items@.len() == 0,
    {
        PasteQueue { items: Vec::new() }
    }

    /// Queues a text, trimmed, stamped `now` and with a fresh id, behind the
    /// others; the oldest are dropped beyond `MAX_ITEMS`. A blank text is
    /// refused.
    pub fn enqueue(&mut self, text: &str, now: u64) -> (r: Result<PasteQueueItem, String>)
        ensures
            trimmed(text@).len() == 0 ==> (r matches Err(m) && m@ == "Texto vacío"@) && item_views(
                final(self).items@,
            ) == item_views(old(self).items@),
            trimmed(text@).len() > 0 ==> (r matches Ok(item) && {
                &&& item.text@ == trimmed(text@)
                &&& item.created_at_ms == now
                &&& uuid_shaped(item.id@)
                &&& item_views(final(self).items@) == last_allowed(
                    item_views(old(self).items@).push(item_view(item)),
                )
            }),
    {
        let t = trim(&chars_of(text));
        if t.len() == 0 {
            return Err(String::from_str("Texto vacío"));
        }
        let item = PasteQueueItem { id: new_uuid(), text: string_of(&t), created_at_ms: now };
        let ghost start = item_views(self.items@).push(item_view(item));
        self.items.push(copy_item(&item));
        assert(item_views(self.items@) =~= start);
        let ghost dropped: int = 0;
        while self.items.len() > MAX_ITEMS
            invariant
                0 <= dropped <= start.len(),
                self.items@.len() == start.len() - dropped,
                item_views(self.items@) == start.skip(dropped),
                dropped > 0 ==> start.len() - dropped >= MAX_ITEMS,
            decreases self.items@.len(),
        {
            let ghost before = item_views(self.items@);
            self.items.remove(0);
            proof {
                assert(item_views(self.items@) =~= before.drop_first());
                assert(before.drop_first() =~= start.skip(dropped + 1));
                dropped = dropped + 1;
            }
        }
        proof {
            if start.len() > MAX_ITEMS {
                assert(dropped == start.len() - MAX_ITEMS);
            } else {
                assert(dropped == 0);
                assert(start.skip(0) =~= start);
            }
        }
        Ok(item)
    }

    /// Takes the oldest text out of the queue, if any.
    pub fn pop_front(&mut self) -> (r: Option<String>)
        ensures
            old(self).items@.len() == 0 ==> r is None && final(self).items@.len() == 0,
            old(self).items@.len() > 0 ==> (r matches Some(t) && t@ == old(self).items@[0].text@)
                && item_views(final(self).items@) == item_views(old(self).items@).drop_first(),
    {
        if self.items.len() == 0 {
            return None;
        }
        let ghost before = item_views(self.items@);
        let first = self.items.remove(0);
        assert(item_views(self.items@) =~= before.drop_first());
        Some(first.text)
    }

    /// Removes the first item with this id; the message when there is none.
    pub fn dismiss(&mut self, id: &str) -> (r: Result<(), String>)
        ensures
            r is Ok <==> exists|k: int| 0 <= k < old(self).items@.len() && (#[trigger] old(self).items@[k]).id@ == id@,
            r is Err ==> (r matches Err(m) && m@ == "Ítem no encontrado"@) && item_views(final(self).items@)
                == item_views(old(self).items@),
            r is Ok ==> exists|k: int|
                0 <= k < old(self).items@.len() && (#[trigger] old(self).items@[k]).id@ == id@ && (forall|j: int|
                    0 <= j < k ==> (#[trigger] old(self).items@[j]).id@ != id@) && item_views(final(self).items@)
                    == item_views(old(self).items@).remove(k),
    {
        let want = chars_of(id);
        let mut k: usize = 0;
        while k < self.items.len()
            invariant
                k <= self.items@.len(),
                want@ == id@,
                self.items@ == old(self).items@,
                forall|j: int| 0 <= j < k ==> (#[trigger] self.items@[j]).id@ != id@,
            decreases self.items@.len() - k,
        {
            if same_chars(&chars_of(self.items[k].id.as_str()), &want) {
                let ghost before = self.items@;
                self.items.remove(k);
                assert(item_views(self.items@) =~= item_views(before).remove(k as int));
                return Ok(());
            }
            k += 1;
        }
        Err(String::from_str("Ítem no encontrado"))
    }

    /// Takes the first item with this id out of the queue, to paste it now;
    /// the message when there is none.
    pub fn take(&mut self, id: &str) -> (r: Result<String, String>)
        ensures
            r is Ok <==> exists|k: int| 0 <= k < old(self).items@.len() && (#[trigger] old(self).items@[k]).id@ == id@,
            r is Err ==> (r matches Err(m) && m@ == "Ítem no encontrado"@) && item_views(final(self).items@)
                == item_views(old(self).items@),
            r matches Ok(t) ==> exists|k: int|
                0 <= k < old(self).items@.len() && (#[trigger] old(self).items@[k]).id@ == id@ && (forall|j: int|
                    0 <= j < k ==> (#[trigger] old(self).items@[j]).id@ != id@) && t@ == old(self).items@[k].text@
                    && item_views(final(self).items@) == item_views(old(self).items@).remove(k),
    {
        let want = chars_of(id);
        let mut k: usize = 0;
        while k < self.items.len()
            invariant
                k <= self.items@.len(),
                want@ == id@,
                self.items@ == old(self).items@,
                forall|j: int| 0 <= j < k ==> (#[trigger] self.items@[j]).id@ != id@,
            decreases self.items@.len() - k,
        {
            if same_chars(&chars_of(self.items[k].id.as_str()), &want) {
                let ghost before = self.items@;
                let item = self.items.remove(k);
                assert(item_views(self.items@) =~= item_views(before).remove(k as int));
                return Ok(item.text);
            }
            k += 1;
        }
        Err(String::from_str("Ítem no encontrado"))
    }

    /// Empties the queue.
    pub fn clear(&mut self)
        ensures
            final(self).items@.len() == 0,
    {
        self.items.clear();
    }

    /// The waiting texts, oldest first.
    pub fn list(&self) -> (r: Vec<PasteQueueItem>)
        ensures
            item_views(r@) == item_views(self.items@),
    {
        let mut r: Vec<PasteQueueItem> = Vec::new();
        let mut i: usize = 0;
        while i < self.items.len()
            invariant
                i <= self.items@.len(),
                item_views(r@) == item_views(self.items@.take(i as int)),
            decreases self.items@.len() - i,
        {
            let ghost prev = r@;
            r.push(copy_item(&self.items[i]));
            assert(item_views(r@) =~= item_views(prev).push(item_view(self.items@[i as int])));
            assert(item_views(self.items@.take(i + 1)) =~= item_views(self.items@.take(i as int)).push(
                item_view(self.items@[i as int]),
            ));
            i += 1;
        }
        assert(self.items@.take(self.items@.len() as int) =~= self.items@);
        r
    }
}

/// The queue never holds more than `MAX_ITEMS` texts after an enqueue, and
/// the text just queued is the newest one kept.
pub proof fn lemma_enqueue_bounded(before: Seq<(Seq<char>, Seq<char>, u64)>, item: (Seq<char>, Seq<char>, u64))
    ensures
        last_allowed(before.push(item)).len() <= MAX_ITEMS,
        last_allowed(before.push(item)).last() == item,
        last_allowed(before.push(item)).len() == (if before.len() + 1 > MAX_ITEMS {
            MAX_ITEMS as int
        } else {
            before.len() + 1 as int
        }),
{
}

} // verus!
