use std::collections::VecDeque;
use vstd::prelude::*;

verus! {

/// How many lines a history keeps unless told otherwise.
pub const HISTORY_SIZE: usize = 100;

/// Submitted lines, most recent first, at most `capacity` of them, and the
/// browse cursor: `None` when not browsing, else the index of the entry shown.
pub struct History {
    entries: VecDeque<String>,
    cursor: Option<usize>,
    capacity: usize,
}

/// What `push` makes of the entries `e` of a history of capacity `cap`.
pub open spec fn pushed(e: Seq<Seq<char>>, line: Seq<char>, cap: nat) -> Seq<Seq<char>> {
    if e.len() >= cap {
        seq![line] + e.take(cap - 1)
    } else {
        seq![line] + e
    }
}

/// The cursor after Up in a history of `n` entries.
pub open spec fn cursor_after_up(c: Option<usize>, n: nat) -> Option<usize> {
    match c {
        None => if n > 0 {
            Some(0usize)
        } else {
            None
        },
        Some(i) => if i + 1 < n {
            Some((i + 1) as usize)
        } else {
            Some(i)
        },
    }
}

/// The cursor after Down.
pub open spec fn cursor_after_down(c: Option<usize>) -> Option<usize> {
    match c {
        None => None,
        Some(i) => if i == 0 {
            None
        } else {
            Some((i - 1) as usize)
        },
    }
}

/// The cursor after `k` presses of Up, starting from `c`.
pub open spec fn cursor_after_ups(c: Option<usize>, n: nat, k: nat) -> Option<usize>
    decreases k,
{
    if k == 0 {
        c
    } else {
        cursor_after_up(cursor_after_ups(c, n, (k - 1) as nat), n)
    }
}

/// The entries after pushing each of `lines` in turn, starting from `e`.
pub open spec fn pushed_all(e: Seq<Seq<char>>, lines: Seq<Seq<char>>, cap: nat) -> Seq<Seq<char>>
    decreases lines.len(),
{
    if lines.len() == 0 {
        e
    } else {
        pushed(pushed_all(e, lines.drop_last(), cap), lines.last(), cap)
    }
}

/// Pushing lines into an empty history keeps the `cap` most recent of them,
/// most recent first: the older ones are evicted.
pub proof fn lemma_push_keeps_most_recent(lines: Seq<Seq<char>>, cap: nat)
    requires
        cap > 0,
    ensures
        ({
            let r = pushed_all(Seq::empty(), lines, cap);
            &&& r.len() == if lines.len() < cap {
                lines.len()
            } else {
                cap
            }
            &&& forall|i: int| 0 <= i < r.len() ==> #[trigger] r[i] == lines[lines.len() - 1 - i]
        }),
    decreases lines.len(),
{
    if lines.len() > 0 {
        let prev = lines.drop_last();
        lemma_push_keeps_most_recent(prev, cap);
        let p = pushed_all(Seq::empty(), prev, cap);
        let r = pushed_all(Seq::empty(), lines, cap);
        assert(forall|i: int| 0 <= i < p.len() ==> #[trigger] p[i] == prev[prev.len() - 1 - i]);
        assert forall|i: int| 0 <= i < r.len() implies #[trigger] r[i] == lines[lines.len() - 1 - i] by {
            if i > 0 {
                assert(r[i] == p[i - 1]);
            }
        }
    }
}

/// Browsing up: from the bottom, `n` presses of Up in a history of `n`
/// entries reach the oldest entry, and one more press stays there.
pub proof fn lemma_up_reaches_oldest(n: nat)
    requires
        0 < n <= usize::MAX,
    ensures
        cursor_after_ups(None, n, n) == Some((n - 1) as usize),
        cursor_after_ups(None, n, n + 1) == cursor_after_ups(None, n, n),
{
    lemma_ups_count(n, n);
}

proof fn lemma_ups_count(n: nat, k: nat)
    requires
        0 < k <= n <= usize::MAX,
    ensures
        cursor_after_ups(None, n, k) == Some((k - 1) as usize),
    decreases k,
{
    if k > 1 {
        lemma_ups_count(n, (k - 1) as nat);
    } else {
        assert(cursor_after_ups(None, n, 0) is None);
    }
    assert(cursor_after_ups(None, n, k) == cursor_after_up(
        cursor_after_ups(None, n, (k - 1) as nat),
        n,
    ));
}

/// Browsing down: when not browsing Down changes nothing, and from any entry
/// but the most recent it moves exactly one step toward it.
pub proof fn lemma_down_steps(c: Option<usize>)
    ensures
        c is None ==> cursor_after_down(c) is None,
        c is Some && c->Some_0 > 0 ==> cursor_after_down(c) == Some((c->Some_0 - 1) as usize),
{
}

impl History {
    /// The entries' texts, most recent first.
    pub closed spec fn entries(&self) -> Seq<Seq<char>> {
        self.entries@.map_values(|s: String| s@)
    }

    /// The browse cursor.
    pub closed spec fn cursor(&self) -> Option<usize> {
        self.cursor
    }

    /// The most entries kept.
    pub closed spec fn capacity(&self) -> nat {
        self.capacity as nat
    }

    /// The capacity is positive, is not exceeded, and the cursor, when
    /// browsing, points at an entry.
    pub open spec fn wf(&self) -> bool {
        &&& self.capacity() > 0
        &&& self.entries().len() <= self.capacity()
        &&& (self.cursor() matches Some(i) ==> i < self.entries().len())
    }

    /// An empty history that keeps at most `capacity` lines.
    pub fn new(capacity: usize) -> (r: History)
        requires
            capacity > 0,
        ensures
            r.wf(),
            r.entries() == Seq::<Seq<char>>::empty(),
            r.cursor() is None,
            r.capacity() == capacity,
    {
        let r = History { entries: VecDeque::new(), cursor: None, capacity };
        assert(r.entries() =~= Seq::<Seq<char>>::empty());
        r
    }

    pub fn len(&self) -> (r: usize)
        ensures
            r == self.entries().len(),
    {
        self.entries.len()
    }

    pub fn is_empty(&self) -> (r: bool)
        ensures
            r == (self.entries().len() == 0),
    {
        self.entries.len() == 0
    }

    /// The browse cursor: `None` when not browsing.
    pub fn browse_cursor(&self) -> (r: Option<usize>)
        ensures
            r == self.cursor(),
    {
        self.cursor
    }

    /// The entry at `i`, most recent first.
    pub fn get(&self, i: usize) -> (r: Option<String>)
        ensures
            i < self.entries().len() ==> r is Some && r->Some_0@ == self.entries()[i as int],
            i >= self.entries().len() ==> r is None,
    {
        if i < self.entries.len() {
            Some(self.entries[i].clone())
        } else {
            None
        }
    }

    /// Puts `line` first, dropping the oldest entry when the history is full,
    /// and stops browsing.
    pub fn push(&mut self, line: String)
        requires
            old(self).wf(),
        ensures
            final(self).wf(),
            final(self).entries() == pushed(old(self).entries(), line@, old(self).capacity()),
            final(self).cursor() is None,
            final(self).capacity() == old(self).capacity(),
    {
        let ghost e0 = self.entries@;
        if self.entries.len() >= self.capacity {
            self.entries.pop_back();
        }
        let ghost e1 = self.entries@;
        self.entries.push_front(line);
        self.cursor = None;
        proof {
            let cap = self.capacity as nat;
            let m0 = e0.map_values(|s: String| s@);
            if e0.len() >= cap {
                assert(e1 =~= e0.take(cap - 1));
                assert(self.entries() =~= seq![line@] + m0.take(cap - 1));
            } else {
                assert(self.entries() =~= seq![line@] + m0);
            }
        }
    }

    /// Shows the next older entry: from "not browsing" the most recent one.
    /// Returns the entry now shown, or `None` when the history is empty or the
    /// oldest entry is already shown, in which case nothing changes.
    pub fn browse_up(&mut self) -> (r: Option<String>)
        requires
            old(self).wf(),
        ensures
            final(self).wf(),
            final(self).entries() == old(self).entries(),
            final(self).capacity() == old(self).capacity(),
            old(self).entries().len() == 0 ==> r is None && final(self).cursor() is None,
            old(self).entries().len() > 0 && old(self).cursor() is None ==> final(self).cursor()
                == Some(0usize),
            old(self).cursor() is Some && old(self).cursor()->Some_0 + 1 < old(self).entries().len()
                ==> final(self).cursor() == Some((old(self).cursor()->Some_0 + 1) as usize),
            old(self).cursor() is Some
                && old(self).cursor()->Some_0 + 1 >= old(self).entries().len()
                ==> r is None && final(self).cursor() == old(self).cursor(),
            r is Some ==> final(self).cursor() is Some
                && r->Some_0@ == final(self).entries()[final(self).cursor()->Some_0 as int],
            r is None ==> *final(self) == *old(self),
            r is Some <==> final(self).cursor() != old(self).cursor(),
            final(self).cursor() == cursor_after_up(old(self).cursor(), old(self).entries().len()),
    {
        let next: usize = match self.cursor {
            None => 0,
            Some(i) => i + 1,
        };
        if next < self.entries.len() {
            self.cursor = Some(next);
            Some(self.entries[next].clone())
        } else {
            None
        }
    }

    /// Shows the next newer entry. From the most recent one it stops browsing
    /// and returns the empty line; when not browsing it returns `None` and
    /// nothing changes.
    pub fn browse_down(&mut self) -> (r: Option<String>)
        requires
            old(self).wf(),
        ensures
            final(self).wf(),
            final(self).entries() == old(self).entries(),
            final(self).capacity() == old(self).capacity(),
            old(self).cursor() is None ==> r is None && *final(self) == *old(self),
            final(self).cursor() == cursor_after_down(old(self).cursor()),
            old(self).cursor() == Some(0usize) ==> r is Some && r->Some_0@ == Seq::<char>::empty()
                && final(self).cursor() is None,
            old(self).cursor() is Some && old(self).cursor()->Some_0 > 0 ==> final(self).cursor()
                == Some((old(self).cursor()->Some_0 - 1) as usize) && r is Some && r->Some_0@
                == old(self).entries()[old(self).cursor()->Some_0 - 1],
    {
        match self.cursor {
            None => None,
            Some(i) => {
                if i == 0 {
                    self.cursor = None;
                    Some(String::new())
                } else {
                    self.cursor = Some(i - 1);
                    Some(self.entries[i - 1].clone())
                }
            },
        }
    }
}

} // verus!
