use vstd::multiset::Multiset;
use vstd::prelude::*;

use crate::name_cache::{native_name, FileNameU16Cache};
use crate::source::DirectoryEntry;
use crate::status::{hresult_from_win32, win32_hresult, ERROR_INSUFFICIENT_BUFFER};

verus! {

broadcast use vstd::seq_lib::group_to_multiset_ensures;

/// What a name comparison must give for a listing to be sorted by it: it may
/// always be called, it answers the same for the same pair, and it never
/// places each of two entries after the other.
pub open spec fn compare_is_consistent<C: Fn(&DirectoryEntry, &DirectoryEntry) -> i32>(
    compare: C,
) -> bool {
    &&& forall|a: &DirectoryEntry, b: &DirectoryEntry| #[trigger] compare.requires((a, b))
    &&& forall|a: &DirectoryEntry, b: &DirectoryEntry, r: i32, s: i32|
        #[trigger] compare.ensures((a, b), r) && #[trigger] compare.ensures((a, b), s) ==> r == s
    &&& forall|a: &DirectoryEntry, b: &DirectoryEntry, r: i32, s: i32|
        #[trigger] compare.ensures((a, b), r) && #[trigger] compare.ensures((b, a), s) && r > 0
            ==> s < 0
}

/// No entry of `s` is ordered after its successor.
pub open spec fn sorted_by<C: Fn(&DirectoryEntry, &DirectoryEntry) -> i32>(
    compare: C,
    s: Seq<DirectoryEntry>,
) -> bool {
    forall|i: int, r: i32|
        0 <= i < s.len() - 1 && #[trigger] compare.ensures((&s[i], &s[i + 1]), r) ==> r <= 0
}

/// Sorts a listing by the host's name order.
pub fn sort_entries<C: Fn(&DirectoryEntry, &DirectoryEntry) -> i32>(
    entries: Vec<DirectoryEntry>,
    compare: &C,
) -> (r: Vec<DirectoryEntry>)
    requires
        compare_is_consistent(*compare),
    ensures
        r@.to_multiset() == entries@.to_multiset(),
        sorted_by(*compare, r@),
{
    let mut rest = entries;
    let mut out: Vec<DirectoryEntry> = Vec::new();
    while rest.len() > 0
        invariant
            compare_is_consistent(*compare),
            rest@.to_multiset().add(out@.to_multiset()) == entries@.to_multiset(),
            sorted_by(*compare, out@),
        decreases rest.len(),
    {
        let ghost rest_before = rest@;
        let x = rest.pop().unwrap();
        assert(rest_before == rest@.push(x));
        let mut j: usize = out.len();
        while j > 0
            invariant
                compare_is_consistent(*compare),
                sorted_by(*compare, out@),
                j <= out.len(),
                j < out.len() ==> exists|r: i32|
                    #[trigger] compare.ensures((&out@[j as int], &x), r) && r > 0,
            ensures
                j <= out.len(),
                j < out.len() ==> exists|r: i32|
                    #[trigger] compare.ensures((&out@[j as int], &x), r) && r > 0,
                j > 0 ==> forall|r: i32|
                    #[trigger] compare.ensures((&out@[j - 1], &x), r) ==> r <= 0,
            decreases j,
        {
            let c = compare(&out[j - 1], &x);
            if c <= 0 {
                break;
            }
            j = j - 1;
            assert(compare.ensures((&out@[j as int], &x), c));
        }
        let ghost before = out@;
        out.insert(j, x);
        proof {
            let n = out@.len();
            assert forall|i: int, r: i32|
                0 <= i < n - 1 && #[trigger] compare.ensures((&out@[i], &out@[i + 1]), r) implies r
                <= 0 by {
                if i + 1 < j {
                    assert(out@[i] == before[i] && out@[i + 1] == before[i + 1]);
                } else if i + 1 == j {
                    assert(out@[i] == before[i]);
                    assert(out@[i + 1] == x);
                } else if i == j {
                    assert(out@[i] == x);
                    assert(out@[i + 1] == before[i]);
                    let s = choose|s: i32| #[trigger] compare.ensures((&before[j as int], &x), s) && s > 0;
                    assert(compare.ensures((&x, &before[j as int]), r));
                    assert(compare.ensures((&before[j as int], &x), s));
                } else {
                    assert(out@[i] == before[i - 1] && out@[i + 1] == before[i]);
                    assert(compare.ensures((&before[i - 1], &before[(i - 1) + 1]), r));
                }
            }
            assert(rest_before.to_multiset() == rest@.to_multiset().insert(x));
            assert(out@.to_multiset() == before.to_multiset().insert(x));
            assert(rest@.to_multiset().add(out@.to_multiset()) =~= rest_before.to_multiset().add(
                before.to_multiset(),
            ));
        }
    }
    proof {
        assert(rest@ =~= Seq::<DirectoryEntry>::empty());
        assert(rest@.to_multiset() =~= Multiset::<DirectoryEntry>::empty());
        assert(rest@.to_multiset().add(out@.to_multiset()) =~= out@.to_multiset());
    }
    out
}

/// The host's name order is a total order: every pair has an answer, the
/// answers for the two orders of a pair have opposite signs, and "not after"
/// is transitive.
pub open spec fn compare_is_total_order<C: Fn(&DirectoryEntry, &DirectoryEntry) -> i32>(
    compare: C,
) -> bool {
    &&& compare_is_consistent(compare)
    &&& forall|a: &DirectoryEntry, b: &DirectoryEntry| #[trigger]
        compare.requires((a, b)) ==> exists|r: i32| #[trigger] compare.ensures((a, b), r)
    &&& forall|a: &DirectoryEntry, b: &DirectoryEntry, r: i32, s: i32|
        #[trigger] compare.ensures((a, b), r) && #[trigger] compare.ensures((b, a), s) ==> (r < 0
            <==> s > 0)
    &&& forall|a: &DirectoryEntry, b: &DirectoryEntry, c: &DirectoryEntry, r: i32, s: i32, t: i32|
        #[trigger] compare.ensures((a, b), r) && #[trigger] compare.ensures((b, c), s)
            && #[trigger] compare.ensures((a, c), t) && r <= 0 && s <= 0 ==> t <= 0
}

/// No two distinct entries of `s` tie under `compare`.
pub open spec fn ties_only_equal<C: Fn(&DirectoryEntry, &DirectoryEntry) -> i32>(
    compare: C,
    s: Seq<DirectoryEntry>,
) -> bool {
    forall|i: int, j: int, r: i32|
        0 <= i < s.len() && 0 <= j < s.len() && #[trigger] compare.ensures((&s[i], &s[j]), r) && r
            == 0 ==> s[i] == s[j]
}

proof fn lemma_sorted_pairwise<C: Fn(&DirectoryEntry, &DirectoryEntry) -> i32>(
    compare: C,
    s: Seq<DirectoryEntry>,
    i: int,
    j: int,
)
    requires
        compare_is_total_order(compare),
        sorted_by(compare, s),
        0 <= i <= j < s.len(),
    ensures
        forall|t: i32| #[trigger] compare.ensures((&s[i], &s[j]), t) ==> t <= 0,
    decreases j - i,
{
    if i == j {
        assert forall|t: i32| #[trigger] compare.ensures((&s[i], &s[j]), t) implies t <= 0 by {
            if t > 0 {
                // the same pair in the other order answers the same, so it
                // would have to be both positive and negative
                assert(compare.ensures((&s[j], &s[i]), t));
            }
        }
    } else {
        lemma_sorted_pairwise(compare, s, i, j - 1);
        assert(compare.requires((&s[i], &s[j - 1])));
        assert(compare.requires((&s[j - 1], &s[(j - 1) + 1])));
        let r = choose|r: i32| #[trigger] compare.ensures((&s[i], &s[j - 1]), r);
        let q = choose|q: i32| #[trigger] compare.ensures((&s[j - 1], &s[(j - 1) + 1]), q);
        assert(compare.ensures((&s[j - 1], &s[j]), q));
        assert forall|t: i32| #[trigger] compare.ensures((&s[i], &s[j]), t) implies t <= 0 by {
            assert(compare.ensures((&s[i], &s[j - 1]), r));
        }
    }
}

/// Sorting is deterministic: two orderings of one listing that are both
/// sorted by the host's name order are the same ordering, as long as no two
/// distinct entries of the listing tie. Listing a directory again, with the
/// source unchanged, gives the entries in the same order.
pub proof fn lemma_sorted_listing_unique<C: Fn(&DirectoryEntry, &DirectoryEntry) -> i32>(
    compare: C,
    a: Seq<DirectoryEntry>,
    b: Seq<DirectoryEntry>,
)
    requires
        compare_is_total_order(compare),
        ties_only_equal(compare, a),
        a.to_multiset() == b.to_multiset(),
        sorted_by(compare, a),
        sorted_by(compare, b),
    ensures
        a == b,
    decreases a.len(),
{
    assert(a.to_multiset().len() == a.len());
    assert(b.to_multiset().len() == b.len());
    if a.len() == 0 {
        assert(b.len() == 0);
        assert(a =~= b);
    } else {
        assert(b.len() == a.len());
        assert(a.to_multiset().count(b[0]) > 0);
        assert(b.to_multiset().count(a[0]) > 0);
        let k = choose|k: int| 0 <= k < a.len() && a[k] == b[0];
        let m = choose|m: int| 0 <= m < b.len() && b[m] == a[0];
        lemma_sorted_pairwise(compare, a, 0, k);
        lemma_sorted_pairwise(compare, b, 0, m);
        assert(compare.requires((&a[0], &b[0])));
        assert(compare.requires((&b[0], &a[0])));
        let r = choose|r: i32| #[trigger] compare.ensures((&a[0], &b[0]), r);
        let s = choose|s: i32| #[trigger] compare.ensures((&b[0], &a[0]), s);
        assert(compare.ensures((&a[0], &a[k]), r));
        assert(compare.ensures((&b[0], &b[m]), s));
        assert(r == 0);
        assert(compare.ensures((&a[0], &a[k]), r));
        assert(a[0] == b[0]);
        let a1 = a.drop_first();
        let b1 = b.drop_first();
        assert(a == seq![a[0]] + a1);
        assert(b == seq![b[0]] + b1);
        assert(a.remove(0) == a1);
        assert(b.remove(0) == b1);
        assert(a1.to_multiset() == b1.to_multiset());
        assert forall|i: int, t: i32|
            0 <= i < a1.len() - 1 && #[trigger] compare.ensures((&a1[i], &a1[i + 1]), t) implies t
            <= 0 by {
            assert(compare.ensures((&a[i + 1], &a[(i + 1) + 1]), t));
        }
        assert forall|i: int, t: i32|
            0 <= i < b1.len() - 1 && #[trigger] compare.ensures((&b1[i], &b1[i + 1]), t) implies t
            <= 0 by {
            assert(compare.ensures((&b[i + 1], &b[(i + 1) + 1]), t));
        }
        assert forall|i: int, j: int, t: i32|
            0 <= i < a1.len() && 0 <= j < a1.len() && #[trigger] compare.ensures(
                (&a1[i], &a1[j]),
                t,
            ) && t == 0 implies a1[i] == a1[j] by {
            assert(compare.ensures((&a[i + 1], &a[j + 1]), t));
        }
        lemma_sorted_listing_unique(compare, a1, b1);
    }
}

/// What became of the entry under the cursor during a listing request.
#[derive(Debug, Clone, Copy, PartialEq, Eq, Structural)]
pub enum EntryOutcome {
    /// The entry does not match the active search expression.
    FilteredOut,
    /// The entry was written to the host's output buffer.
    Written,
    /// The host's output buffer has no room left for the entry.
    BufferFull,
    /// Writing the entry failed with this status.
    Failed(i32),
}

/// What a listing request does after one entry.
#[derive(Debug, Clone, Copy, PartialEq, Eq, Structural)]
pub enum EnumerationStep {
    /// Go on with the next entry.
    Continue,
    /// The request is complete.
    Done,
    /// The request fails with this status.
    Failed(i32),
}

/// The outcome of writing an entry, given the host's answer: the
/// insufficient-buffer status is the buffer-full signal.
pub open spec fn fill_outcome(result: Result<(), i32>) -> EntryOutcome {
    match result {
        Ok(_) => EntryOutcome::Written,
        Err(code) => if code == win32_hresult(ERROR_INSUFFICIENT_BUFFER) {
            EntryOutcome::BufferFull
        } else {
            EntryOutcome::Failed(code)
        },
    }
}

/// The cursor after an outcome: the entry is used up when it was written or
/// filtered out, and stays current otherwise.
pub open spec fn next_cursor(cursor: nat, len: nat, outcome: EntryOutcome) -> nat {
    match outcome {
        EntryOutcome::FilteredOut | EntryOutcome::Written => if cursor < len {
            cursor + 1
        } else {
            cursor
        },
        _ => cursor,
    }
}

/// The step after an outcome; with `single_entry` a request ends after one
/// written entry.
pub open spec fn next_step(outcome: EntryOutcome, single_entry: bool) -> EnumerationStep {
    match outcome {
        EntryOutcome::FilteredOut => EnumerationStep::Continue,
        EntryOutcome::Written => if single_entry {
            EnumerationStep::Done
        } else {
            EnumerationStep::Continue
        },
        EntryOutcome::BufferFull => EnumerationStep::Done,
        EntryOutcome::Failed(code) => EnumerationStep::Failed(code),
    }
}

/// The search expression after a request begins: a non-empty new expression
/// (stored zero-terminated) replaces the old one; without one, a restart
/// clears it.
pub open spec fn next_filter(
    old_filter: Option<Seq<u16>>,
    restart: bool,
    given: Option<Seq<u16>>,
) -> Option<Seq<u16>> {
    match given {
        Some(e) if e.len() > 0 => Some(e.push(0)),
        _ => if restart {
            None
        } else {
            old_filter
        },
    }
}

/// The cursor after a session at `cursor` meets `outcomes` in turn.
pub open spec fn cursor_after(len: nat, cursor: nat, outcomes: Seq<EntryOutcome>) -> nat
    decreases outcomes.len(),
{
    if outcomes.len() == 0 {
        cursor
    } else {
        cursor_after(len, next_cursor(cursor, len, outcomes[0]), outcomes.drop_first())
    }
}

/// The entries written when a session over `entries` at `cursor` meets
/// `outcomes` in turn, across any number of requests.
pub open spec fn written_entries(
    entries: Seq<DirectoryEntry>,
    cursor: nat,
    outcomes: Seq<EntryOutcome>,
) -> Seq<DirectoryEntry>
    decreases outcomes.len(),
{
    if outcomes.len() == 0 {
        Seq::empty()
    } else {
        let rest = written_entries(
            entries,
            next_cursor(cursor, entries.len(), outcomes[0]),
            outcomes.drop_first(),
        );
        if outcomes[0] == EntryOutcome::Written && cursor < entries.len() {
            seq![entries[cursor as int]] + rest
        } else {
            rest
        }
    }
}

/// Without a search expression, the entries that a session writes are the
/// entries of its snapshot from where it started up to where its cursor
/// ends, in order: none is lost, repeated or reordered, whatever the
/// buffer-full signals and failures in between.
pub proof fn lemma_written_entries_in_order(
    entries: Seq<DirectoryEntry>,
    cursor: nat,
    outcomes: Seq<EntryOutcome>,
)
    requires
        cursor <= entries.len(),
        forall|i: int| 0 <= i < outcomes.len() ==> outcomes[i] != EntryOutcome::FilteredOut,
    ensures
        cursor <= cursor_after(entries.len(), cursor, outcomes) <= entries.len(),
        written_entries(entries, cursor, outcomes) == entries.subrange(
            cursor as int,
            cursor_after(entries.len(), cursor, outcomes) as int,
        ),
    decreases outcomes.len(),
{
    if outcomes.len() > 0 {
        let next = next_cursor(cursor, entries.len(), outcomes[0]);
        let rest = outcomes.drop_first();
        assert forall|i: int| 0 <= i < rest.len() implies rest[i] != EntryOutcome::FilteredOut by {
            assert(rest[i] == outcomes[i + 1]);
        }
        lemma_written_entries_in_order(entries, next, rest);
        let end = cursor_after(entries.len(), cursor, outcomes);
        if outcomes[0] == EntryOutcome::Written && cursor < entries.len() {
            assert(seq![entries[cursor as int]] + entries.subrange(next as int, end as int)
                =~= entries.subrange(cursor as int, end as int));
        }
    } else {
        assert(entries.subrange(cursor as int, cursor as int) =~= Seq::<DirectoryEntry>::empty());
    }
}

/// A listing that runs to its end without a search expression hands the
/// host every entry that the source returned, each once: the same entries,
/// whatever their order.
pub proof fn lemma_complete_listing(
    listing: Seq<DirectoryEntry>,
    snapshot: Seq<DirectoryEntry>,
    outcomes: Seq<EntryOutcome>,
)
    requires
        snapshot.to_multiset() == listing.to_multiset(),
        forall|i: int| 0 <= i < outcomes.len() ==> outcomes[i] != EntryOutcome::FilteredOut,
        cursor_after(snapshot.len(), 0, outcomes) == snapshot.len(),
    ensures
        written_entries(snapshot, 0, outcomes).to_multiset() == listing.to_multiset(),
{
    lemma_written_entries_in_order(snapshot, 0, outcomes);
    assert(snapshot.subrange(0, snapshot.len() as int) =~= snapshot);
}

impl EntryOutcome {
    pub fn from_fill_result(result: Result<(), i32>) -> (r: EntryOutcome)
        ensures
            r == fill_outcome(result),
    {
        match result {
            Ok(_) => EntryOutcome::Written,
            Err(code) => {
                if code == hresult_from_win32(ERROR_INSUFFICIENT_BUFFER) {
                    EntryOutcome::BufferFull
                } else {
                    EntryOutcome::Failed(code)
                }
            },
        }
    }
}

/// One directory listing session: a sorted snapshot of the listing taken
/// when the session starts, a cursor into it, and an optional search
/// expression.
pub struct DirectoryIteration {
    id: u128,
    entries: Vec<DirectoryEntry>,
    current_entry: usize,
    name_cache: FileNameU16Cache,
    search_expression: Option<Vec<u16>>,
}

impl DirectoryIteration {
    pub closed spec fn id_spec(&self) -> u128 {
        self.id
    }

    /// The sorted snapshot.
    pub closed spec fn entries_spec(&self) -> Seq<DirectoryEntry> {
        self.entries@
    }

    /// The position of the next entry to offer.
    pub closed spec fn cursor(&self) -> nat {
        self.current_entry as nat
    }

    /// The active search expression, zero-terminated.
    pub closed spec fn filter(&self) -> Option<Seq<u16>> {
        match self.search_expression {
            Some(e) => Some(e@),
            None => None,
        }
    }

    pub closed spec fn wf(&self) -> bool {
        &&& self.current_entry <= self.entries.len()
        &&& self.name_cache.wf()
    }

    /// Starts a session over `entries`, sorted by the host's name order.
    pub fn from_unsorted<C: Fn(&DirectoryEntry, &DirectoryEntry) -> i32>(
        id: u128,
        entries: Vec<DirectoryEntry>,
        compare: &C,
    ) -> (r: Self)
        requires
            compare_is_consistent(*compare),
        ensures
            r.wf(),
            r.id_spec() == id,
            r.entries_spec().to_multiset() == entries@.to_multiset(),
            sorted_by(*compare, r.entries_spec()),
            r.cursor() == 0,
            r.filter() == None::<Seq<u16>>,
    {
        let entries = sort_entries(entries, compare);
        DirectoryIteration {
            id,
            entries,
            current_entry: 0,
            name_cache: FileNameU16Cache::new(),
            search_expression: None,
        }
    }

    pub fn id(&self) -> (r: u128)
        ensures
            r == self.id_spec(),
    {
        self.id
    }

    /// The entry under the cursor, if any is left.
    pub fn peek_entry(&mut self) -> (r: Option<&DirectoryEntry>)
        requires
            old(self).wf(),
        ensures
            *final(self) == *old(self),
            old(self).cursor() < old(self).entries_spec().len() ==> r == Some(
                &old(self).entries_spec()[old(self).cursor() as int],
            ),
            old(self).cursor() >= old(self).entries_spec().len() ==> r.is_none(),
    {
        let index = self.current_entry;
        if index < self.entries.len() {
            Some(&self.entries[index])
        } else {
            None
        }
    }

    /// Moves the cursor past the current entry.
    pub fn consume_entry(&mut self)
        requires
            old(self).wf(),
        ensures
            final(self).wf(),
            final(self).cursor() == next_cursor(
                old(self).cursor(),
                old(self).entries_spec().len(),
                EntryOutcome::Written,
            ),
            final(self).entries_spec() == old(self).entries_spec(),
            final(self).filter() == old(self).filter(),
            final(self).id_spec() == old(self).id_spec(),
    {
        if self.current_entry < self.entries.len() {
            self.current_entry = self.current_entry + 1;
        }
    }

    /// Rewinds to the first entry and clears the search expression.
    pub fn reset_enumeration(&mut self)
        requires
            old(self).wf(),
        ensures
            final(self).wf(),
            final(self).cursor() == 0,
            final(self).filter() == None::<Seq<u16>>,
            final(self).entries_spec() == old(self).entries_spec(),
            final(self).id_spec() == old(self).id_spec(),
    {
        self.search_expression = None;
        self.current_entry = 0;
    }

    /// Begins a listing request: `restart` rewinds the session and clears
    /// the search expression, and a non-empty `search_expression` (given
    /// without its terminating zero) replaces the active one.
    pub fn begin_get(&mut self, restart: bool, search_expression: Option<Vec<u16>>)
        requires
            old(self).wf(),
        ensures
            final(self).wf(),
            final(self).cursor() == if restart {
                0
            } else {
                old(self).cursor()
            },
            final(self).filter() == next_filter(
                old(self).filter(),
                restart,
                match search_expression {
                    Some(e) => Some(e@),
                    None => None,
                },
            ),
            final(self).entries_spec() == old(self).entries_spec(),
            final(self).id_spec() == old(self).id_spec(),
    {
        if restart {
            self.reset_enumeration();
        }
        match search_expression {
            Some(mut expression) => {
                if expression.len() > 0 {
                    expression.push(0);
                    self.search_expression = Some(expression);
                }
            },
            None => {},
        }
    }

    /// The active search expression, zero-terminated.
    pub fn search_expression(&self) -> (r: Option<&Vec<u16>>)
        ensures
            match r {
                Some(e) => self.filter() == Some(e@),
                None => self.filter() == None::<Seq<u16>>,
            },
    {
        match &self.search_expression {
            Some(e) => Some(e),
            None => None,
        }
    }

    /// The native form of the current entry's name, if an entry is left.
    pub fn current_file_name(&mut self) -> (r: Option<&[u16]>)
        requires
            old(self).wf(),
        ensures
            final(self).wf(),
            final(self).cursor() == old(self).cursor(),
            final(self).filter() == old(self).filter(),
            final(self).entries_spec() == old(self).entries_spec(),
            final(self).id_spec() == old(self).id_spec(),
            match r {
                Some(n) => old(self).cursor() < old(self).entries_spec().len() && n@ == native_name(
                    old(self).entries_spec()[old(self).cursor() as int].name_view(),
                ),
                None => old(self).cursor() >= old(self).entries_spec().len(),
            },
    {
        let index = self.current_entry;
        if index < self.entries.len() {
            let name = self.entries[index].name_string();
            Some(self.name_cache.get_or_cache(name))
        } else {
            None
        }
    }

    /// Records what became of the current entry and says how the request
    /// goes on.
    pub fn advance(&mut self, outcome: EntryOutcome, single_entry: bool) -> (r: EnumerationStep)
        requires
            old(self).wf(),
        ensures
            final(self).wf(),
            final(self).cursor() == next_cursor(
                old(self).cursor(),
                old(self).entries_spec().len(),
                outcome,
            ),
            r == next_step(outcome, single_entry),
            final(self).filter() == old(self).filter(),
            final(self).entries_spec() == old(self).entries_spec(),
            final(self).id_spec() == old(self).id_spec(),
    {
        match outcome {
            EntryOutcome::FilteredOut => {
                self.consume_entry();
                EnumerationStep::Continue
            },
            EntryOutcome::Written => {
                self.consume_entry();
                if single_entry {
                    EnumerationStep::Done
                } else {
                    EnumerationStep::Continue
                }
            },
            EntryOutcome::BufferFull => EnumerationStep::Done,
            EntryOutcome::Failed(code) => EnumerationStep::Failed(code),
        }
    }
}

} // verus!
