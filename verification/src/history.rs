//! Transcript history: newest first, at most `MAX_ENTRIES` entries; older ones
//! fall off. Ids are "<unix ms>-<counter>", made unique against the entries held.

use vstd::prelude::*;
use crate::text::{decimal, decimal_string, lemma_decimal_len};

verus! {

/// Most entries kept (newest first).
pub const MAX_ENTRIES: usize = 50;

/// One transcription.
#[derive(Debug)]
pub struct Entry {
    pub id: String,
    /// The final text (after AI post-processing, if any).
    pub text: String,
    /// Unix seconds.
    pub created_at: i64,
    /// Number of characters of `text`.
    pub chars: usize,
    /// Speech model that produced the transcript.
    pub model: String,
    /// "cleanup" | "summarize" | "translate_en" when AI post-processing succeeded.
    pub ai_action: Option<String>,
    /// The raw transcript, when AI ran and changed it.
    pub raw_text: Option<String>,
}

fn clone_opt(o: &Option<String>) -> (r: Option<String>)
    ensures
        r == *o,
{
    match o {
        Some(s) => Some(s.clone()),
        None => None,
    }
}

impl Clone for Entry {
    fn clone(&self) -> (r: Self)
        ensures
            r == *self,
    {
        Entry {
            id: self.id.clone(),
            text: self.text.clone(),
            created_at: self.created_at,
            chars: self.chars,
            model: self.model.clone(),
            ai_action: clone_opt(&self.ai_action),
            raw_text: clone_opt(&self.raw_text),
        }
    }
}

/// The history held in memory.
#[derive(Debug)]
pub struct History {
    entries: Vec<Entry>,
    /// Counter for ids made within one millisecond.
    next_counter: u32,
}

pub open spec fn opt_view(o: Option<&str>) -> Option<Seq<char>> {
    match o {
        Some(s) => Some(s@),
        None => None,
    }
}

pub open spec fn opt_string_view(o: Option<String>) -> Option<Seq<char>> {
    match o {
        Some(s) => Some(s@),
        None => None,
    }
}

/// "<ms>-<counter>".
pub open spec fn id_text(ms: u128, counter: u32) -> Seq<char> {
    decimal(ms as nat) + seq!['-'] + decimal(counter as nat)
}

/// The counter `k` steps after `c`, wrapping like an atomic counter.
pub open spec fn counter_plus(c: u32, k: nat) -> u32 {
    ((c + k) % 0x1_0000_0000) as u32
}

/// Some entry carries the id `id`.
pub open spec fn id_taken(entries: Seq<Entry>, id: Seq<char>) -> bool {
    exists|i: int| 0 <= i < entries.len() && (#[trigger] entries[i]).id@ == id
}

/// No two entries share an id.
pub open spec fn unique_ids(s: Seq<Entry>) -> bool {
    forall|i: int, j: int| 0 <= i < j < s.len() ==> (#[trigger] s[i]).id@ != (#[trigger] s[j]).id@
}

/// The entries without those whose id is `id`, in order.
pub open spec fn without_id(s: Seq<Entry>, id: Seq<char>) -> Seq<Entry>
    decreases s.len(),
{
    if s.len() == 0 {
        s
    } else if s.last().id@ == id {
        without_id(s.drop_last(), id)
    } else {
        without_id(s.drop_last(), id).push(s.last())
    }
}

/// An entry whose id is not `id`.
pub open spec fn other_id(id: Seq<char>) -> spec_fn(Entry) -> bool {
    |e: Entry| e.id@ != id
}

/// The text of the first entry with id `id`.
pub open spec fn text_of(s: Seq<Entry>, id: Seq<char>) -> Option<Seq<char>>
    decreases s.len(),
{
    if s.len() == 0 {
        None
    } else if s[0].id@ == id {
        Some(s[0].text@)
    } else {
        text_of(s.drop_first(), id)
    }
}

impl View for History {
    type V = Seq<Entry>;

    closed spec fn view(&self) -> Seq<Entry> {
        self.entries@
    }
}

impl History {
    /// The counter that the next id starts from.
    pub closed spec fn counter(&self) -> u32 {
        self.next_counter
    }

    /// At most `MAX_ENTRIES` entries.
    pub open spec fn wf(&self) -> bool {
        self@.len() <= MAX_ENTRIES
    }

    /// The history from what was stored (`None`: no file, or a file that does not parse):
    /// the stored entries, cut to the newest `MAX_ENTRIES`.
    pub fn load(stored: Option<Vec<Entry>>) -> (h: History)
        ensures
            h.wf(),
            h.counter() == 0,
            h@ == (match stored {
                Some(v) => if v@.len() <= MAX_ENTRIES {
                    v@
                } else {
                    v@.subrange(0, MAX_ENTRIES as int)
                },
                None => Seq::empty(),
            }),
    {
        let mut entries = match stored {
            Some(v) => v,
            None => Vec::new(),
        };
        entries.truncate(MAX_ENTRIES);
        History { entries, next_counter: 0 }
    }

    /// All entries, newest first.
    pub fn entries(&self) -> (r: Vec<Entry>)
        ensures
            r@ == self@,
    {
        let mut r: Vec<Entry> = Vec::new();
        let mut i: usize = 0;
        while i < self.entries.len()
            invariant
                i <= self.entries@.len(),
                r@ =~= self.entries@.subrange(0, i as int),
            decreases self.entries@.len() - i,
        {
            r.push(self.entries[i].clone());
            i = i + 1;
        }
        r
    }

    /// The text of the entry with id `id`.
    pub fn find_text(&self, id: &str) -> (r: Option<String>)
        ensures
            opt_string_view(r) == text_of(self@, id@),
    {
        let n = self.entries.len();
        let mut i: usize = 0;
        assert(self.entries@.subrange(0, n as int) =~= self.entries@);
        while i < n
            invariant
                n == self.entries@.len(),
                i <= n,
                text_of(self.entries@, id@) == text_of(
                    self.entries@.subrange(i as int, n as int),
                    id@,
                ),
            decreases n - i,
        {
            let ghost rest = self.entries@.subrange(i as int, n as int);
            assert(rest.drop_first() =~= self.entries@.subrange(i + 1, n as int));
            if crate::text::str_eq(self.entries[i].id.as_str(), id) {
                return Some(self.entries[i].text.clone());
            }
            i = i + 1;
        }
        None
    }

    /// Removes the entries with id `id`; "entry not found" when there is none.
    pub fn remove(&mut self, id: &str) -> (r: Result<(), String>)
        requires
            old(self).wf(),
        ensures
            final(self).wf(),
            final(self)@ == without_id(old(self)@, id@),
            final(self)@ == old(self)@.filter(other_id(id@)),
            final(self).counter() == old(self).counter(),
            r is Ok <==> id_taken(old(self)@, id@),
            r matches Err(m) ==> m@ == "entry not found"@,
    {
        let n = self.entries.len();
        let mut kept: Vec<Entry> = Vec::new();
        let mut i: usize = 0;
        let ghost old_entries = self.entries@;
        while i < n
            invariant
                n == self.entries@.len(),
                old_entries == self.entries@,
                i <= n,
                kept@ == without_id(old_entries.subrange(0, i as int), id@),
                kept@.len() <= i,
                kept@.len() == i <==> !id_taken(old_entries.subrange(0, i as int), id@),
            decreases n - i,
        {
            let ghost pre = old_entries.subrange(0, i as int);
            let ghost cur = old_entries.subrange(0, i + 1);
            assert(cur.drop_last() =~= pre);
            assert(cur.last() == old_entries[i as int]);
            if !crate::text::str_eq(self.entries[i].id.as_str(), id) {
                kept.push(self.entries[i].clone());
                assert(id_taken(pre, id@) ==> id_taken(cur, id@)) by {
                    if id_taken(pre, id@) {
                        let j = choose|j: int| 0 <= j < pre.len() && (#[trigger] pre[j]).id@ == id@;
                        assert(cur[j] == pre[j]);
                    }
                }
                assert(id_taken(cur, id@) ==> id_taken(pre, id@)) by {
                    if id_taken(cur, id@) {
                        let j = choose|j: int| 0 <= j < cur.len() && (#[trigger] cur[j]).id@ == id@;
                        assert(j < i);
                        assert(pre[j] == cur[j]);
                    }
                }
            } else {
                assert(cur[i as int].id@ == id@);
            }
            i = i + 1;
        }
        assert(old_entries.subrange(0, n as int) =~= old_entries);
        proof {
            law_remove_keeps_order(old_entries, id@);
        }
        let found = kept.len() != n;
        self.entries = kept;
        if found {
            Ok(())
        } else {
            Err(String::from_str("entry not found"))
        }
    }

    /// Removes every entry.
    pub fn clear(&mut self)
        ensures
            final(self).wf(),
            final(self)@ == Seq::<Entry>::empty(),
            final(self).counter() == old(self).counter(),
    {
        self.entries.clear();
    }

    /// Records a transcription at unix time `ms` (milliseconds) / `created_at` (seconds):
    /// the new entry goes first and the list is cut to `MAX_ENTRIES`. Its id is
    /// "<ms>-<counter>" for the first counter value, from the current one on, whose id no
    /// entry carries; the counter moves past it.
    pub fn record(
        &mut self,
        ms: u128,
        created_at: i64,
        text: &str,
        raw_text: Option<&str>,
        model: &str,
        ai_action: Option<&str>,
    )
        requires
            old(self).wf(),
        ensures
            final(self).wf(),
            final(self)@.len() == if old(self)@.len() < MAX_ENTRIES {
                old(self)@.len() + 1
            } else {
                MAX_ENTRIES as nat
            },
            forall|i: int| 1 <= i < final(self)@.len() ==> final(self)@[i] == old(self)@[i - 1],
            final(self)@[0].text@ == text@,
            final(self)@[0].created_at == created_at,
            final(self)@[0].chars == text@.len(),
            final(self)@[0].model@ == model@,
            opt_string_view(final(self)@[0].ai_action) == opt_view(ai_action),
            opt_string_view(final(self)@[0].raw_text) == opt_view(raw_text),
            !id_taken(old(self)@, final(self)@[0].id@),
            unique_ids(old(self)@) ==> unique_ids(final(self)@),
            exists|k: nat|
                #![trigger counter_plus(old(self).counter(), k)]
                {
                    &&& k <= old(self)@.len()
                    &&& final(self)@[0].id@ == id_text(ms, counter_plus(old(self).counter(), k))
                    &&& forall|j: nat|
                        j < k ==> id_taken(
                            old(self)@,
                            id_text(ms, #[trigger] counter_plus(old(self).counter(), j)),
                        )
                    &&& final(self).counter() == counter_plus(old(self).counter(), k + 1)
                },
    {
        let ghost old_entries = self.entries@;
        let ghost c0 = self.next_counter;
        let mut count = self.next_counter;
        self.next_counter = self.next_counter.wrapping_add(1);
        let mut id = format_id(ms, count);
        let mut k: usize = 0;
        proof {
            assert(count == counter_plus(c0, 0));
            assert(self.next_counter == counter_plus(c0, 1));
        }
        while id_taken_exec(&self.entries, &id)
            invariant
                self.entries@ == old_entries,
                old_entries.len() <= MAX_ENTRIES,
                k <= old_entries.len(),
                count == counter_plus(c0, k as nat),
                self.next_counter == counter_plus(c0, k as nat + 1),
                id@ == id_text(ms, count),
                forall|j: nat|
                    j < k ==> id_taken(old_entries, id_text(ms, #[trigger] counter_plus(c0, j))),
            decreases old_entries.len() - k,
        {
            let ghost k0 = k as nat;
            proof {
                assert(id_taken(old_entries, id_text(ms, counter_plus(c0, k0))));
                lemma_tried_ids_fit(old_entries, ms, c0, k0);
                lemma_counter_next(c0, k0 + 1);
            }
            count = self.next_counter;
            self.next_counter = self.next_counter.wrapping_add(1);
            id = format_id(ms, count);
            k = k + 1;
            proof {
                assert forall|j: nat| j < k implies id_taken(
                    old_entries,
                    id_text(ms, #[trigger] counter_plus(c0, j)),
                ) by {
                    if j == k0 {
                        assert(id_taken(old_entries, id_text(ms, counter_plus(c0, k0))));
                    }
                }
            }
        }
        let chars = text.unicode_len();
        let entry = Entry {
            id,
            text: String::from_str(text),
            created_at,
            chars,
            model: String::from_str(model),
            ai_action: match ai_action {
                Some(a) => Some(String::from_str(a)),
                None => None,
            },
            raw_text: match raw_text {
                Some(r) => Some(String::from_str(r)),
                None => None,
            },
        };
        let ghost new_id = entry.id@;
        self.entries.insert(0, entry);
        self.entries.truncate(MAX_ENTRIES);
        proof {
            assert(self.entries@[0].id@ == new_id);
            assert(new_id == id_text(ms, counter_plus(c0, k as nat)));
            let kk = k as nat;
            assert({
                &&& kk <= old_entries.len()
                &&& self.entries@[0].id@ == id_text(ms, counter_plus(c0, kk))
                &&& forall|j: nat|
                    j < kk ==> id_taken(old_entries, id_text(ms, #[trigger] counter_plus(c0, j)))
                &&& self.next_counter == counter_plus(c0, kk + 1)
            });
            assert(old(self).counter() == c0);
            assert(unique_ids(old_entries) ==> unique_ids(self@)) by {
                if unique_ids(old_entries) {
                    assert forall|i: int, j: int| 0 <= i < j < self@.len() implies (
                    #[trigger] self@[i]).id@ != (#[trigger] self@[j]).id@ by {
                        if i == 0 {
                            assert(old_entries[j - 1] == self@[j]);
                        } else {
                            assert(old_entries[i - 1] == self@[i]);
                            assert(old_entries[j - 1] == self@[j]);
                        }
                    }
                }
            }
            assert(old(self)@ == old_entries);
            assert(exists|k: nat|
                #![trigger counter_plus(old(self).counter(), k)]
                {
                    &&& k <= old(self)@.len()
                    &&& self@[0].id@ == id_text(ms, counter_plus(old(self).counter(), k))
                    &&& forall|j: nat|
                        j < k ==> id_taken(
                            old(self)@,
                            id_text(ms, #[trigger] counter_plus(old(self).counter(), j)),
                        )
                    &&& self.counter() == counter_plus(old(self).counter(), k + 1)
                }) by {
                assert(counter_plus(old(self).counter(), kk) == counter_plus(c0, kk));
            }
        }
    }
}

/// "<ms>-<counter>" as a string.
fn format_id(ms: u128, counter: u32) -> (s: String)
    ensures
        s@ == id_text(ms, counter),
{
    let mut s = decimal_string(ms);
    proof {
        reveal_strlit("-");
    }
    s.append("-");
    let c = decimal_string(counter as u128);
    s.append(c.as_str());
    s
}

fn id_taken_exec(entries: &Vec<Entry>, id: &String) -> (r: bool)
    ensures
        r == id_taken(entries@, id@),
{
    let mut i: usize = 0;
    while i < entries.len()
        invariant
            i <= entries@.len(),
            forall|j: int| 0 <= j < i ==> entries@[j].id@ != id@,
        decreases entries@.len() - i,
    {
        if entries[i].id == *id {
            return true;
        }
        i = i + 1;
    }
    false
}

proof fn lemma_digit_char_injective(a: nat, b: nat)
    requires
        a < 10,
        b < 10,
        crate::text::digit_char(a) == crate::text::digit_char(b),
    ensures
        a == b,
{
}

/// Different numbers have different decimal renderings.
pub proof fn lemma_decimal_injective(a: nat, b: nat)
    requires
        decimal(a) == decimal(b),
    ensures
        a == b,
    decreases a,
{
    lemma_decimal_len(a);
    lemma_decimal_len(b);
    if a < 10 {
        if b >= 10 {
            lemma_decimal_len(b / 10);
        }
        assert(b < 10);
        assert(decimal(a)[0] == decimal(b)[0]);
        assert(decimal(b)[0] == crate::text::digit_char(b));
        lemma_digit_char_injective(a, b);
    } else {
        if b < 10 {
            lemma_decimal_len(a / 10);
        }
        let da = decimal(a);
        let db = decimal(b);
        assert(da.last() == db.last());
        assert(da.drop_last() =~= decimal(a / 10));
        assert(db.drop_last() =~= decimal(b / 10));
        lemma_digit_char_injective(a % 10, b % 10);
        lemma_decimal_injective(a / 10, b / 10);
    }
}

/// The ids of one millisecond differ when their counters differ.
pub proof fn lemma_id_text_injective(ms: u128, c1: u32, c2: u32)
    requires
        id_text(ms, c1) == id_text(ms, c2),
    ensures
        c1 == c2,
{
    let p = decimal(ms as nat) + seq!['-'];
    let a = id_text(ms, c1);
    let b = id_text(ms, c2);
    assert(a.subrange(p.len() as int, a.len() as int) =~= decimal(c1 as nat));
    assert(b.subrange(p.len() as int, b.len() as int) =~= decimal(c2 as nat));
    lemma_decimal_injective(c1 as nat, c2 as nat);
}

/// One step of the counter: `counter_plus(c, k + 1)` is `counter_plus(c, k)` plus one,
/// wrapping at `u32::MAX`.
proof fn lemma_counter_next(c: u32, k: nat)
    ensures
        counter_plus(c, k + 1) == if counter_plus(c, k) == u32::MAX {
            0
        } else {
            counter_plus(c, k) + 1
        },
{
    let m: int = 0x1_0000_0000;
    let a: int = c + k;
    vstd::arithmetic::div_mod::lemma_add_mod_noop(a, 1, m);
}

/// Pigeonhole for the id search: when the ids of the counters `c0 .. c0+k` are all
/// taken by entries, there are more than `k` entries.
proof fn lemma_tried_ids_fit(entries: Seq<Entry>, ms: u128, c0: u32, k: nat)
    requires
        entries.len() <= MAX_ENTRIES,
        k <= MAX_ENTRIES,
        forall|j: nat| j <= k ==> id_taken(entries, id_text(ms, #[trigger] counter_plus(c0, j))),
    ensures
        k < entries.len(),
{
    let tried = Seq::new(k + 1, |j: int| id_text(ms, counter_plus(c0, j as nat)));
    let ids = entries.map_values(|e: Entry| e.id@);
    assert(tried.no_duplicates()) by {
        assert forall|x: int, y: int| 0 <= x < tried.len() && 0 <= y < tried.len() && x != y implies tried[x]
            != tried[y] by {
            if tried[x] == tried[y] {
                lemma_id_text_injective(ms, counter_plus(c0, x as nat), counter_plus(c0, y as nat));
                assert(counter_plus(c0, x as nat) != counter_plus(c0, y as nat));
            }
        }
    }
    tried.unique_seq_to_set();
    ids.lemma_cardinality_of_set();
    assert(tried.to_set().subset_of(ids.to_set())) by {
        assert forall|t: Seq<char>| tried.to_set().contains(t) implies ids.to_set().contains(t) by {
            let x = choose|x: int| 0 <= x < tried.len() && tried[x] == t;
            assert(id_taken(entries, id_text(ms, counter_plus(c0, x as nat))));
            let i = choose|i: int|
                0 <= i < entries.len() && (#[trigger] entries[i]).id@ == id_text(
                    ms,
                    counter_plus(c0, x as nat),
                );
            assert(ids[i] == t);
        }
    }
    vstd::set_lib::lemma_len_subset(tried.to_set(), ids.to_set());
}

/// The newest entry is found by its id: copying it right after recording gives
/// back the recorded text.
pub proof fn law_recorded_text_is_found(entries: Seq<Entry>)
    requires
        entries.len() >= 1,
    ensures
        text_of(entries, entries[0].id@) == Some(entries[0].text@),
{
}

/// After removing an id no entry carries it.
pub proof fn law_removed_id_is_gone(s: Seq<Entry>, id: Seq<char>)
    ensures
        !id_taken(without_id(s, id), id),
    decreases s.len(),
{
    if s.len() > 0 {
        law_removed_id_is_gone(s.drop_last(), id);
        let r = without_id(s.drop_last(), id);
        if s.last().id@ != id {
            assert forall|i: int| 0 <= i < r.push(s.last()).len() implies (#[trigger] r.push(
                s.last(),
            )[i]).id@ != id by {
                if i < r.len() {
                    assert(r.push(s.last())[i] == r[i]);
                }
            }
        }
    }
}

/// Removing an id that no entry carries changes nothing.
pub proof fn law_remove_missing_id_changes_nothing(s: Seq<Entry>, id: Seq<char>)
    requires
        !id_taken(s, id),
    ensures
        without_id(s, id) == s,
    decreases s.len(),
{
    if s.len() > 0 {
        assert(!id_taken(s.drop_last(), id)) by {
            if id_taken(s.drop_last(), id) {
                let i = choose|i: int| 0 <= i < s.drop_last().len() && (#[trigger] s.drop_last()[i]).id@ == id;
                assert(s[i] == s.drop_last()[i]);
            }
        }
        law_remove_missing_id_changes_nothing(s.drop_last(), id);
        assert(s.last() == s[s.len() - 1]);
        assert(s.drop_last().push(s.last()) =~= s);
    }
}

/// Removing keeps every other entry, in order: the entries whose id differs.
pub proof fn law_remove_keeps_others(s: Seq<Entry>, id: Seq<char>, e: Entry)
    requires
        s.contains(e),
        e.id@ != id,
    ensures
        without_id(s, id).contains(e),
    decreases s.len(),
{
    if s.last() == e {
        assert(without_id(s, id).last() == e);
    } else {
        let i = choose|i: int| 0 <= i < s.len() && s[i] == e;
        assert(i < s.len() - 1);
        assert(s.drop_last()[i] == e);
        law_remove_keeps_others(s.drop_last(), id, e);
        let r = without_id(s.drop_last(), id);
        let j = choose|j: int| 0 <= j < r.len() && r[j] == e;
        if s.last().id@ != id {
            assert(r.push(s.last())[j] == e);
        }
    }
}

/// Removal keeps exactly the entries whose id differs, in their order: the history
/// after removing `id` is the subsequence of the entries with other ids.
pub proof fn law_remove_keeps_order(s: Seq<Entry>, id: Seq<char>)
    ensures
        without_id(s, id) == s.filter(other_id(id)),
    decreases s.len(),
{
    let pred = other_id(id);
    reveal(Seq::filter);
    if s.len() == 0 {
        assert(s.filter(pred) == s);
    } else {
        law_remove_keeps_order(s.drop_last(), id);
        assert(s.filter(pred) == if pred(s.last()) {
            s.drop_last().filter(pred).push(s.last())
        } else {
            s.drop_last().filter(pred)
        });
    }
}

} // verus!
