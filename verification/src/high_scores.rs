//! The top-10 leaderboard: records kept sorted by descending score,
//! ties broken by insertion order, names sanitized on entry. Reading
//! and rewriting the persisted file belongs to the presentation layer.

use vstd::prelude::*;
use vstd::string::{StrSliceExecFns, StringExecFns};
use crate::text::{dec_rep, int_rep, int_to_string, sanitize_name, sanitized};

verus! {

/// One leaderboard record.
#[derive(Clone, Debug)]
pub struct HighScoreEntry {
    pub name: String,
    pub score: i32,
}

/// The mathematical view of a record: the name's characters and the
/// score.
pub struct EntryV {
    pub name: Seq<char>,
    pub score: int,
}

impl View for HighScoreEntry {
    type V = EntryV;

    open spec fn view(&self) -> EntryV {
        EntryV { name: self.name@, score: self.score as int }
    }
}

/// The views of a list of records, in order.
pub open spec fn entry_views(s: Seq<HighScoreEntry>) -> Seq<EntryV> {
    Seq::new(s.len(), |i: int| s[i]@)
}

/// Scores never increase along the table.
pub open spec fn sorted_desc(s: Seq<EntryV>) -> bool {
    forall|i: int, j: int| 0 <= i <= j < s.len() ==> s[i].score >= s[j].score
}

/// Whether a score is high enough to enter the table: any score enters
/// a table that is not full; a full table asks for strictly more than
/// its lowest entry.
pub open spec fn spec_qualifies(s: Seq<EntryV>, score: int) -> bool {
    s.len() < 10 || score > s.last().score
}

/// The sorted position for a new score: after every entry with an
/// equal or higher score, so equal scores keep their insertion order.
pub open spec fn insert_pos(s: Seq<EntryV>, score: int) -> int
    decreases s.len(),
{
    if s.len() == 0 {
        0
    } else if s[0].score >= score {
        1 + insert_pos(s.drop_first(), score)
    } else {
        0
    }
}

/// A record placed at its sorted position, with the table then cut
/// back to ten entries.
pub open spec fn spec_insert_entry(s: Seq<EntryV>, e: EntryV) -> Seq<EntryV> {
    let t = s.insert(insert_pos(s, e.score), e);
    if t.len() <= 10 {
        t
    } else {
        t.take(10)
    }
}

/// What recording a score does to the table: the entered name is
/// sanitized and the record inserted at its sorted position.
pub open spec fn spec_add_score(s: Seq<EntryV>, name: Seq<char>, score: int) -> Seq<EntryV> {
    spec_insert_entry(s, EntryV { name: sanitized(name), score })
}

/// The table restored from a stored list, record by record.
pub open spec fn restored(s: Seq<EntryV>) -> Seq<EntryV>
    decreases s.len(),
{
    if s.len() == 0 {
        Seq::empty()
    } else {
        spec_insert_entry(restored(s.drop_last()), s.last())
    }
}

pub proof fn lemma_insert_pos_bounds(s: Seq<EntryV>, score: int)
    ensures
        0 <= insert_pos(s, score) <= s.len(),
    decreases s.len(),
{
    if s.len() > 0 && s[0].score >= score {
        lemma_insert_pos_bounds(s.drop_first(), score);
    }
}

proof fn lemma_insert_pos_at(s: Seq<EntryV>, score: int, idx: int)
    requires
        0 <= idx <= s.len(),
        forall|k: int| 0 <= k < idx ==> (#[trigger] s[k]).score >= score,
        idx == s.len() || s[idx].score < score,
    ensures
        insert_pos(s, score) == idx,
    decreases idx,
{
    if idx == 0 {
        if s.len() > 0 {
            assert(s[0].score < score);
        }
    } else {
        assert(s[0].score >= score);
        let d = s.drop_first();
        assert(forall|k: int| 0 <= k < idx - 1 ==> (#[trigger] d[k]).score >= score);
        lemma_insert_pos_at(d, score, idx - 1);
    }
}

/// Inserting at the sorted position keeps the table sorted.
pub proof fn lemma_insert_entry_sorted(s: Seq<EntryV>, e: EntryV)
    requires
        sorted_desc(s),
    ensures
        sorted_desc(spec_insert_entry(s, e)),
        spec_insert_entry(s, e).len() == if s.len() < 10 {
            s.len() as int + 1
        } else {
            10int
        },
{
    lemma_insert_pos_bounds(s, e.score);
    let pos = insert_pos(s, e.score);
    let t = s.insert(pos, e);
    s.insert_ensures(pos, e);
    assert(forall|k: int| 0 <= k < pos ==> (#[trigger] s[k]).score >= e.score) by {
        lemma_insert_pos_ge(s, e.score);
    }
    assert(pos == s.len() || s[pos].score < e.score) by {
        lemma_insert_pos_lt(s, e.score);
    }
    assert forall|i: int, j: int| 0 <= i <= j < t.len() implies t[i].score >= t[j].score by {
        let si = if i < pos {
            s[i]
        } else if i == pos {
            e
        } else {
            s[i - 1]
        };
        let sj = if j < pos {
            s[j]
        } else if j == pos {
            e
        } else {
            s[j - 1]
        };
        assert(t[i] == si && t[j] == sj);
    }
    if t.len() > 10 {
        assert(sorted_desc(t.take(10)));
    }
}

/// Every entry before the sorted position has at least the new score.
proof fn lemma_insert_pos_ge(s: Seq<EntryV>, score: int)
    ensures
        forall|k: int|
            0 <= k < insert_pos(s, score) ==> (#[trigger] s[k]).score >= score,
    decreases s.len(),
{
    lemma_insert_pos_bounds(s, score);
    if s.len() > 0 && s[0].score >= score {
        let d = s.drop_first();
        lemma_insert_pos_ge(d, score);
        assert forall|k: int|
            0 <= k < insert_pos(s, score) implies (#[trigger] s[k]).score >= score by {
            if k > 0 {
                assert(d[k - 1] == s[k]);
            }
        }
    }
}

/// The entry at the sorted position, if any, has less than the new
/// score.
proof fn lemma_insert_pos_lt(s: Seq<EntryV>, score: int)
    ensures
        insert_pos(s, score) == s.len() || s[insert_pos(s, score)].score < score,
    decreases s.len(),
{
    lemma_insert_pos_bounds(s, score);
    if s.len() > 0 && s[0].score >= score {
        let d = s.drop_first();
        lemma_insert_pos_lt(d, score);
        lemma_insert_pos_bounds(d, score);
        if insert_pos(d, score) < d.len() {
            assert(d[insert_pos(d, score)] == s[1 + insert_pos(d, score)]);
        }
    }
}

/// Once the table is full, a score equal to the current tenth entry
/// does not qualify: entry asks for strictly more.
pub proof fn lemma_equal_tenth_does_not_qualify(s: Seq<EntryV>, score: int)
    requires
        s.len() == 10,
        score == s.last().score,
    ensures
        !spec_qualifies(s, score),
{
}

/// Recording a score keeps at most ten records, sorted by descending
/// score.
pub proof fn lemma_add_score_keeps_top_ten(s: Seq<EntryV>, name: Seq<char>, score: int)
    requires
        sorted_desc(s),
        s.len() <= 10,
    ensures
        spec_add_score(s, name, score).len() <= 10,
        sorted_desc(spec_add_score(s, name, score)),
{
    lemma_insert_entry_sorted(s, EntryV { name: sanitized(name), score });
}

/// In a sorted table of pairwise distinct scores the order is strictly
/// descending.
pub proof fn lemma_distinct_strictly_descending(s: Seq<EntryV>)
    requires
        sorted_desc(s),
        forall|i: int, j: int|
            0 <= i < j < s.len() ==> (#[trigger] s[i]).score != (#[trigger] s[j]).score,
    ensures
        forall|i: int, j: int|
            0 <= i < j < s.len() ==> (#[trigger] s[i]).score > (#[trigger] s[j]).score,
{
}

/// A qualifying record entering a full table takes its sorted position
/// and pushes out exactly the lowest entry: the table keeps the top
/// ten by value.
pub proof fn lemma_qualifying_insert_drops_lowest(s: Seq<EntryV>, e: EntryV)
    requires
        sorted_desc(s),
        s.len() == 10,
        e.score > s.last().score,
    ensures
        insert_pos(s, e.score) <= 9,
        spec_insert_entry(s, e) == s.insert(insert_pos(s, e.score), e).take(10),
        s.insert(insert_pos(s, e.score), e)[10] == s[9],
{
    let pos = insert_pos(s, e.score);
    lemma_insert_pos_bounds(s, e.score);
    lemma_insert_pos_ge(s, e.score);
    if pos == 10 {
        assert(s[9].score >= e.score);
        assert(s[9] == s.last());
    }
    s.insert_ensures(pos, e);
}

/// A record whose score does not exceed the lowest entry of a full
/// table leaves the table unchanged.
pub proof fn lemma_no_qualify_no_change(s: Seq<EntryV>, e: EntryV)
    requires
        sorted_desc(s),
        s.len() == 10,
        e.score <= s.last().score,
    ensures
        spec_insert_entry(s, e) == s,
{
    assert(forall|k: int| 0 <= k < 10 ==> (#[trigger] s[k]).score >= e.score);
    lemma_insert_pos_at(s, e.score, 10);
    let t = s.insert(10, e);
    s.insert_ensures(10, e);
    assert(t.take(10) =~= s);
}

/// The session leaderboard.
#[derive(Debug)]
pub struct HighScores {
    pub entries: Vec<HighScoreEntry>,
}

impl View for HighScores {
    type V = Seq<EntryV>;

    open spec fn view(&self) -> Seq<EntryV> {
        Seq::new(self.entries@.len(), |i: int| self.entries@[i]@)
    }
}

impl HighScores {
    /// At most ten records, sorted by descending score.
    pub open spec fn wf(self) -> bool {
        self@.len() <= 10 && sorted_desc(self@)
    }

    /// An empty leaderboard.
    pub fn new() -> (r: HighScores)
        ensures
            r@ == Seq::<EntryV>::empty(),
            r.wf(),
    {
        let r = HighScores { entries: Vec::new() };
        proof {
            assert(r@ =~= Seq::<EntryV>::empty());
        }
        r
    }

    /// Whether a score enters the table: always while the table is not
    /// full, otherwise only if strictly above the lowest entry.
    pub fn qualifies(&self, score: i32) -> (r: bool)
        ensures
            r == spec_qualifies(self@, score as int),
    {
        self.entries.len() < 10 || score > self.entries[self.entries.len() - 1].score
    }

    /// Places one record at its sorted position and cuts the table back
    /// to ten entries.
    fn insert_entry(&mut self, entry: HighScoreEntry)
        requires
            old(self).wf(),
        ensures
            final(self)@ == spec_insert_entry(old(self)@, entry@),
            final(self).wf(),
    {
        let ghost s0 = self@;
        let mut idx: usize = 0;
        while idx < self.entries.len() && self.entries[idx].score >= entry.score
            invariant
                self == old(self),
                0 <= idx <= self.entries@.len(),
                forall|k: int| 0 <= k < idx ==> (#[trigger] self@[k]).score >= entry@.score,
            decreases self.entries@.len() - idx,
        {
            idx = idx + 1;
        }
        proof {
            lemma_insert_pos_at(s0, entry@.score, idx as int);
            lemma_insert_entry_sorted(s0, entry@);
        }
        self.entries.insert(idx, entry);
        proof {
            assert(self@ =~= s0.insert(idx as int, entry@));
        }
        if self.entries.len() > 10 {
            let ghost t = self@;
            self.entries.truncate(10);
            proof {
                assert(self@ =~= t.take(10));
            }
        }
    }

    /// Records a score under the sanitized form of the entered name.
    pub fn add_score(&mut self, name: String, score: i32)
        requires
            old(self).wf(),
        ensures
            final(self)@ == spec_add_score(old(self)@, name@, score as int),
            final(self).wf(),
    {
        let trimmed_name = sanitize_name(name.as_str());
        self.insert_entry(HighScoreEntry { name: trimmed_name, score });
    }

    /// Rebuilds a table from stored records, one sorted insertion per
    /// record. Well-formed stored tables come back unchanged; anything
    /// else is normalized on the way in.
    pub fn from_entries(list: Vec<HighScoreEntry>) -> (r: HighScores)
        ensures
            r@ == restored(entry_views(list@)),
            r.wf(),
    {
        let ghost l = entry_views(list@);
        let mut rest = list;
        let mut r = HighScores::new();
        let n = rest.len();
        proof {
            assert(l.take(0) =~= Seq::<EntryV>::empty());
        }
        let mut i: usize = 0;
        while i < n
            invariant
                n == l.len(),
                0 <= i <= n,
                rest@.len() == n - i,
                forall|k: int| 0 <= k < n - i ==> (#[trigger] rest@[k])@ == l[k + i],
                r@ == restored(l.take(i as int)),
                r.wf(),
            decreases n - i,
        {
            let ghost prev = rest@;
            let e = rest.remove(0);
            proof {
                assert(e@ == l[i as int]);
                assert forall|k: int|
                    0 <= k < n - i - 1 implies (#[trigger] rest@[k])@ == l[k + i + 1] by {
                    assert(rest@[k] == prev[k + 1]);
                }
            }
            r.insert_entry(e);
            proof {
                assert(l.take(i as int + 1).drop_last() =~= l.take(i as int));
                assert(l.take(i as int + 1).last() == l[i as int]);
            }
            i = i + 1;
        }
        proof {
            assert(l.take(n as int) =~= l);
        }
        r
    }

    /// The formatted table, one line per record: rank, name and score.
    pub fn display(&self) -> (r: Vec<String>)
        requires
            self.wf(),
        ensures
            r@.len() == self@.len(),
            forall|i: int| 0 <= i < r@.len() ==> (#[trigger] r@[i])@ == line_rep(i, self@[i]),
    {
        let mut r: Vec<String> = Vec::new();
        let n = self.entries.len();
        let mut i: usize = 0;
        while i < n
            invariant
                n == self.entries@.len() <= 10,
                0 <= i <= n,
                r@.len() == i,
                forall|k: int| 0 <= k < i ==> (#[trigger] r@[k])@ == line_rep(k, self@[k]),
            decreases n - i,
        {
            let mut line = int_to_string(i as i64 + 1);
            line.append(": ");
            line.append(self.entries[i].name.as_str());
            line.append(" - ");
            let sc = int_to_string(self.entries[i].score as i64);
            line.append(sc.as_str());
            proof {
                assert(line@ =~= line_rep(i as int, self@[i as int]));
            }
            r.push(line);
            i = i + 1;
        }
        r
    }
}

/// One displayed line: the one-based rank, the name, and the score.
pub open spec fn line_rep(i: int, e: EntryV) -> Seq<char> {
    dec_rep((i + 1) as nat) + ": "@ + e.name + " - "@ + int_rep(e.score)
}

} // verus!
