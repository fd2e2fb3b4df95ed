use vstd::prelude::*;
use crate::difficulty::Difficulty;

verus! {

broadcast use vstd::seq_lib::group_seq_lib_default;

/// How many entries each difficulty keeps in the high-score table.
pub const MAX_SCORES_PER_DIFFICULTY: usize = 5;

/// One line of the high-score table.
#[derive(Clone, Debug, PartialEq, Eq)]
pub struct ScoreEntry {
    pub player_name: String,
    pub score: u32,
    pub difficulty: Difficulty,
    /// Seconds since the Unix epoch at which the entry was made.
    pub timestamp: i64,
}

pub open spec fn at_level(d: Difficulty) -> spec_fn(ScoreEntry) -> bool {
    |e: ScoreEntry| e.difficulty == d
}

/// The entries of `s` at difficulty `d`, in their order in `s`.
pub open spec fn bucket(s: Seq<ScoreEntry>, d: Difficulty) -> Seq<ScoreEntry> {
    s.filter(at_level(d))
}

/// The index of the first entry of `s` that scores below `score`, or the
/// length of `s` if there is none.
pub open spec fn slot(s: Seq<ScoreEntry>, score: u32) -> int
    decreases s.len(),
{
    if s.len() == 0 {
        0
    } else if s[0].score < score {
        0
    } else {
        1 + slot(s.drop_first(), score)
    }
}

/// `e` placed after every leading entry of `s` that scores at least as much.
pub open spec fn rank_insert(s: Seq<ScoreEntry>, e: ScoreEntry) -> Seq<ScoreEntry> {
    s.insert(slot(s, e.score), e)
}

/// `s` ordered by descending score; entries with equal scores keep their
/// order in `s`.
pub open spec fn ranked(s: Seq<ScoreEntry>) -> Seq<ScoreEntry>
    decreases s.len(),
{
    if s.len() == 0 {
        s
    } else {
        rank_insert(ranked(s.drop_last()), s.last())
    }
}

/// The first `MAX_SCORES_PER_DIFFICULTY` entries of `s`.
pub open spec fn top(s: Seq<ScoreEntry>) -> Seq<ScoreEntry> {
    if s.len() > MAX_SCORES_PER_DIFFICULTY {
        s.take(MAX_SCORES_PER_DIFFICULTY as int)
    } else {
        s
    }
}

/// The table that `s` becomes: for Easy, Medium, Hard and Expert in turn, the
/// best entries of that difficulty by descending score.
pub open spec fn pruned(s: Seq<ScoreEntry>) -> Seq<ScoreEntry> {
    top(ranked(bucket(s, Difficulty::Easy))) + top(ranked(bucket(s, Difficulty::Medium))) + top(
        ranked(bucket(s, Difficulty::Hard)),
    ) + top(ranked(bucket(s, Difficulty::Expert)))
}

pub open spec fn sorted_desc(s: Seq<ScoreEntry>) -> bool {
    forall|i: int, j: int| 0 <= i < j < s.len() ==> s[i].score >= s[j].score
}

/// Each difficulty holds at most `MAX_SCORES_PER_DIFFICULTY` entries, best first.
pub open spec fn table_ok(s: Seq<ScoreEntry>) -> bool {
    forall|d: Difficulty|
        #![trigger bucket(s, d)]
        bucket(s, d).len() <= MAX_SCORES_PER_DIFFICULTY && sorted_desc(bucket(s, d))
}

proof fn lemma_slot(s: Seq<ScoreEntry>, score: u32)
    ensures
        0 <= slot(s, score) <= s.len(),
        forall|k: int| 0 <= k < slot(s, score) ==> s[k].score >= score,
        slot(s, score) < s.len() ==> s[slot(s, score)].score < score,
    decreases s.len(),
{
    if s.len() > 0 && s[0].score >= score {
        lemma_slot(s.drop_first(), score);
        assert forall|k: int| 0 <= k < slot(s, score) implies s[k].score >= score by {
            if k > 0 {
                assert(s[k] == s.drop_first()[k - 1]);
            }
        }
    }
}

proof fn lemma_slot_at(s: Seq<ScoreEntry>, score: u32, i: int)
    requires
        0 <= i <= s.len(),
        forall|k: int| 0 <= k < i ==> s[k].score >= score,
        i == s.len() || s[i].score < score,
    ensures
        slot(s, score) == i,
    decreases i,
{
    if i > 0 {
        let t = s.drop_first();
        assert forall|k: int| 0 <= k < i - 1 implies t[k].score >= score by {
            assert(t[k] == s[k + 1]);
        }
        if i < s.len() {
            assert(t[i - 1] == s[i]);
        }
        lemma_slot_at(t, score, i - 1);
    }
}

proof fn lemma_rank_insert(s: Seq<ScoreEntry>, e: ScoreEntry)
    requires
        sorted_desc(s),
    ensures
        sorted_desc(rank_insert(s, e)),
        rank_insert(s, e).len() == s.len() + 1,
        forall|i: int|
            0 <= i < rank_insert(s, e).len() ==> #[trigger] rank_insert(s, e)[i] == e || s.contains(
                rank_insert(s, e)[i],
            ),
{
    let p = slot(s, e.score);
    lemma_slot(s, e.score);
    s.insert_ensures(p, e);
    let r = rank_insert(s, e);
    assert forall|i: int| 0 <= i < r.len() implies #[trigger] r[i] == e || s.contains(r[i]) by {
        if i < p {
            assert(r[i] == s[i]);
        } else if i > p {
            assert(r[(i - 1) + 1] == s[i - 1]);
        }
    }
    assert forall|i: int, j: int| 0 <= i < j < r.len() implies r[i].score >= r[j].score by {
        if j < p {
            assert(r[i] == s[i] && r[j] == s[j]);
        } else if j == p {
            assert(r[i] == s[i]);
        } else if i < p {
            assert(r[i] == s[i] && r[(j - 1) + 1] == s[j - 1]);
        } else if i == p {
            assert(r[(j - 1) + 1] == s[j - 1]);
            assert(s[p].score < e.score);
        } else {
            assert(r[(i - 1) + 1] == s[i - 1] && r[(j - 1) + 1] == s[j - 1]);
        }
    }
}

/// Ranking rearranges the entries (the same multiset) in descending order of
/// score.
pub proof fn lemma_ranked(s: Seq<ScoreEntry>)
    ensures
        sorted_desc(ranked(s)),
        ranked(s).len() == s.len(),
        ranked(s).to_multiset() == s.to_multiset(),
        forall|i: int| 0 <= i < ranked(s).len() ==> s.contains(#[trigger] ranked(s)[i]),
    decreases s.len(),
{
    broadcast use vstd::seq_lib::group_to_multiset_ensures;

    if s.len() > 0 {
        let t = s.drop_last();
        lemma_ranked(t);
        lemma_rank_insert(ranked(t), s.last());
        lemma_slot(ranked(t), s.last().score);
        s.lemma_add_last_back();
        assert(ranked(s).to_multiset() == ranked(t).to_multiset().insert(s.last()));
        assert(s.to_multiset() == t.to_multiset().insert(s.last()));
        let r = ranked(s);
        assert forall|i: int| 0 <= i < r.len() implies s.contains(#[trigger] r[i]) by {
            if r[i] == s.last() {
                assert(s[s.len() - 1] == r[i]);
            } else {
                assert(ranked(t).contains(r[i]));
                let k = choose|k: int| 0 <= k < ranked(t).len() && ranked(t)[k] == r[i];
                assert(t.contains(ranked(t)[k]));
                let j = choose|j: int| 0 <= j < t.len() && t[j] == r[i];
                assert(s[j] == t[j]);
            }
        }
    }
}

proof fn lemma_filter_all(s: Seq<ScoreEntry>, d: Difficulty)
    requires
        forall|i: int| 0 <= i < s.len() ==> #[trigger] s[i].difficulty == d,
    ensures
        bucket(s, d) == s,
    decreases s.len(),
{
    if s.len() > 0 {
        let t = s.drop_last();
        lemma_filter_all(t, d);
        t.lemma_filter_push(s.last(), at_level(d));
        assert(t.push(s.last()) == s);
    }
}

proof fn lemma_filter_none(s: Seq<ScoreEntry>, d: Difficulty)
    requires
        forall|i: int| 0 <= i < s.len() ==> #[trigger] s[i].difficulty != d,
    ensures
        bucket(s, d) == Seq::<ScoreEntry>::empty(),
    decreases s.len(),
{
    if s.len() > 0 {
        let t = s.drop_last();
        lemma_filter_none(t, d);
        t.lemma_filter_push(s.last(), at_level(d));
        assert(t.push(s.last()) == s);
    }
}

/// The part of `pruned` that comes from difficulty `d`, with what the
/// other difficulties' parts leave of a filter for `d`.
proof fn lemma_part(s: Seq<ScoreEntry>, level: Difficulty, d: Difficulty)
    ensures
        level == d ==> bucket(top(ranked(bucket(s, level))), d) == top(ranked(bucket(s, level))),
        level != d ==> bucket(top(ranked(bucket(s, level))), d) == Seq::<ScoreEntry>::empty(),
        sorted_desc(top(ranked(bucket(s, level)))),
        top(ranked(bucket(s, level))).len() <= MAX_SCORES_PER_DIFFICULTY,
{
    let b = bucket(s, level);
    lemma_ranked(b);
    let part = top(ranked(b));
    assert forall|i: int| 0 <= i < part.len() implies #[trigger] part[i].difficulty == level by {
        assert(part[i] == ranked(b)[i]);
        assert(b.contains(ranked(b)[i]));
        let j = choose|j: int| 0 <= j < b.len() && b[j] == part[i];
        s.lemma_filter_pred(at_level(level), j);
    }
    if level == d {
        lemma_filter_all(part, d);
    } else {
        lemma_filter_none(part, d);
    }
}

/// What a filter for difficulty `d` keeps of `pruned(s)`: the best entries of
/// difficulty `d` in `s`.
pub proof fn lemma_pruned_bucket(s: Seq<ScoreEntry>, d: Difficulty)
    ensures
        bucket(pruned(s), d) == top(ranked(bucket(s, d))),
{
    let e = top(ranked(bucket(s, Difficulty::Easy)));
    let m = top(ranked(bucket(s, Difficulty::Medium)));
    let h = top(ranked(bucket(s, Difficulty::Hard)));
    let x = top(ranked(bucket(s, Difficulty::Expert)));
    lemma_part(s, Difficulty::Easy, d);
    lemma_part(s, Difficulty::Medium, d);
    lemma_part(s, Difficulty::Hard, d);
    lemma_part(s, Difficulty::Expert, d);
    let p = at_level(d);
    Seq::filter_distributes_over_add(e + m + h, x, p);
    Seq::filter_distributes_over_add(e + m, h, p);
    Seq::filter_distributes_over_add(e, m, p);
    let parts = bucket(e, d) + bucket(m, d) + bucket(h, d) + bucket(x, d);
    assert(bucket(pruned(s), d) == parts);
    match d {
        Difficulty::Easy => assert(parts =~= e),
        Difficulty::Medium => assert(parts =~= m),
        Difficulty::Hard => assert(parts =~= h),
        Difficulty::Expert => assert(parts =~= x),
    }
}

/// The high-score table that `pruned` makes holds at most
/// `MAX_SCORES_PER_DIFFICULTY` entries of each difficulty, in descending order
/// of score.
pub proof fn lemma_pruned_table_ok(s: Seq<ScoreEntry>)
    ensures
        table_ok(pruned(s)),
{
    assert forall|d: Difficulty|
        #![trigger bucket(pruned(s), d)]
        bucket(pruned(s), d).len() <= MAX_SCORES_PER_DIFFICULTY && sorted_desc(
            bucket(pruned(s), d),
        ) by {
        lemma_pruned_bucket(s, d);
        lemma_part(s, d, d);
    }
}

/// Ranking a sequence that is already in descending order leaves it as it is.
proof fn lemma_ranked_sorted(s: Seq<ScoreEntry>)
    requires
        sorted_desc(s),
    ensures
        ranked(s) == s,
    decreases s.len(),
{
    if s.len() > 0 {
        let t = s.drop_last();
        lemma_ranked_sorted(t);
        lemma_slot_at(t, s.last().score, t.len() as int);
        assert(t.insert(t.len() as int, s.last()) =~= s);
    }
}

/// A new entry that scores below all `MAX_SCORES_PER_DIFFICULTY` entries of
/// its difficulty in a valid table is dropped: every difficulty keeps exactly
/// the entries it had.
pub proof fn lemma_low_score_dropped(table: Seq<ScoreEntry>, e: ScoreEntry)
    requires
        table_ok(table),
        bucket(table, e.difficulty).len() == MAX_SCORES_PER_DIFFICULTY,
        forall|i: int|
            0 <= i < bucket(table, e.difficulty).len() ==> e.score < #[trigger] bucket(
                table,
                e.difficulty,
            )[i].score,
    ensures
        forall|d: Difficulty| #[trigger] bucket(pruned(table.push(e)), d) == bucket(table, d),
{
    assert forall|d: Difficulty| #[trigger] bucket(pruned(table.push(e)), d) == bucket(table, d) by {
        lemma_low_score_bucket(table, e, d);
    }
}

proof fn lemma_low_score_bucket(table: Seq<ScoreEntry>, e: ScoreEntry, d: Difficulty)
    requires
        sorted_desc(bucket(table, d)),
        bucket(table, d).len() <= MAX_SCORES_PER_DIFFICULTY,
        e.difficulty == d ==> bucket(table, d).len() == MAX_SCORES_PER_DIFFICULTY,
        e.difficulty == d ==> forall|i: int|
            0 <= i < bucket(table, d).len() ==> e.score < #[trigger] bucket(table, d)[i].score,
    ensures
        bucket(pruned(table.push(e)), d) == bucket(table, d),
{
    let b = bucket(table, d);
    lemma_pruned_bucket(table.push(e), d);
    table.lemma_filter_push(e, at_level(d));
    lemma_ranked_sorted(b);
    if e.difficulty == d {
        assert(bucket(table.push(e), d) == b.push(e));
        assert(b.push(e).drop_last() =~= b);
        assert(ranked(b.push(e)) == rank_insert(b, e));
        lemma_slot_at(b, e.score, b.len() as int);
        assert(b.insert(b.len() as int, e) =~= b.push(e));
        assert(b.push(e).take(MAX_SCORES_PER_DIFFICULTY as int) =~= b);
    } else {
        assert(bucket(table.push(e), d) == b);
    }
}

/// The index in `bucket` before which an entry scoring `score` goes.
fn find_slot(bucket: &Vec<ScoreEntry>, score: u32) -> (r: usize)
    ensures
        r == slot(bucket@, score),
{
    let mut i: usize = 0;
    while i < bucket.len() && bucket[i].score >= score
        invariant
            i <= bucket@.len(),
            forall|k: int| 0 <= k < i ==> bucket@[k].score >= score,
        decreases bucket@.len() - i,
    {
        i = i + 1;
    }
    proof {
        lemma_slot_at(bucket@, score, i as int);
    }
    i
}

fn rank_into(bucket: &mut Vec<ScoreEntry>, e: ScoreEntry)
    ensures
        final(bucket)@ == rank_insert(old(bucket)@, e),
{
    let at = find_slot(bucket, e.score);
    proof {
        lemma_slot(bucket@, e.score);
    }
    bucket.insert(at, e);
}

/// The entries of `entries` split by difficulty, each part ranked.
fn rank_by_level(entries: Vec<ScoreEntry>) -> (r: (
    Vec<ScoreEntry>,
    Vec<ScoreEntry>,
    Vec<ScoreEntry>,
    Vec<ScoreEntry>,
))
    ensures
        r.0@ == ranked(bucket(entries@, Difficulty::Easy)),
        r.1@ == ranked(bucket(entries@, Difficulty::Medium)),
        r.2@ == ranked(bucket(entries@, Difficulty::Hard)),
        r.3@ == ranked(bucket(entries@, Difficulty::Expert)),
{
    let ghost all = entries@;
    let ghost mut n: int = 0;
    let mut rest = entries;
    let mut easy: Vec<ScoreEntry> = Vec::new();
    let mut medium: Vec<ScoreEntry> = Vec::new();
    let mut hard: Vec<ScoreEntry> = Vec::new();
    let mut expert: Vec<ScoreEntry> = Vec::new();
    proof {
        let none = all.take(0);
        assert forall|d: Difficulty| #[trigger] bucket(none, d) =~= Seq::<ScoreEntry>::empty() by {
            none.lemma_filter_len(at_level(d));
        }
        assert(ranked(bucket(none, Difficulty::Easy)) =~= easy@);
        assert(ranked(bucket(none, Difficulty::Medium)) =~= medium@);
        assert(ranked(bucket(none, Difficulty::Hard)) =~= hard@);
        assert(ranked(bucket(none, Difficulty::Expert)) =~= expert@);
    }
    while rest.len() > 0
        invariant
            0 <= n <= all.len(),
            rest@ == all.subrange(n, all.len() as int),
            easy@ == ranked(bucket(all.take(n), Difficulty::Easy)),
            medium@ == ranked(bucket(all.take(n), Difficulty::Medium)),
            hard@ == ranked(bucket(all.take(n), Difficulty::Hard)),
            expert@ == ranked(bucket(all.take(n), Difficulty::Expert)),
        decreases rest@.len(),
    {
        let e = rest.remove(0);
        proof {
            assert(e == all[n]);
            let before = all.take(n);
            assert(all.take(n + 1) =~= before.push(e));
            before.lemma_filter_push(e, at_level(Difficulty::Easy));
            before.lemma_filter_push(e, at_level(Difficulty::Medium));
            before.lemma_filter_push(e, at_level(Difficulty::Hard));
            before.lemma_filter_push(e, at_level(Difficulty::Expert));
            let b = bucket(before, e.difficulty).push(e);
            assert(b.drop_last() =~= bucket(before, e.difficulty));
            n = n + 1;
            assert(rest@ =~= all.subrange(n, all.len() as int));
        }
        match e.difficulty {
            Difficulty::Easy => rank_into(&mut easy, e),
            Difficulty::Medium => rank_into(&mut medium, e),
            Difficulty::Hard => rank_into(&mut hard, e),
            Difficulty::Expert => rank_into(&mut expert, e),
        }
    }
    proof {
        assert(all.take(n) =~= all);
    }
    (easy, medium, hard, expert)
}

/// Orders `entries` into a high-score table: per difficulty (Easy, Medium,
/// Hard, Expert in turn), the best `MAX_SCORES_PER_DIFFICULTY` by descending
/// score, ties in their earlier order.
pub fn rank_scores(entries: Vec<ScoreEntry>) -> (r: Vec<ScoreEntry>)
    ensures
        r@ == pruned(entries@),
        table_ok(r@),
{
    let ghost all = entries@;
    let (mut easy, mut medium, mut hard, mut expert) = rank_by_level(entries);
    easy.truncate(MAX_SCORES_PER_DIFFICULTY);
    medium.truncate(MAX_SCORES_PER_DIFFICULTY);
    hard.truncate(MAX_SCORES_PER_DIFFICULTY);
    expert.truncate(MAX_SCORES_PER_DIFFICULTY);
    easy.append(&mut medium);
    easy.append(&mut hard);
    easy.append(&mut expert);
    proof {
        assert(easy@ =~= pruned(all));
        lemma_pruned_table_ok(all);
    }
    easy
}

/// Adds `entry` to the high-score table `table` and keeps, per difficulty, the
/// best `MAX_SCORES_PER_DIFFICULTY` by descending score.
pub fn insert_high_score(table: Vec<ScoreEntry>, entry: ScoreEntry) -> (r: Vec<ScoreEntry>)
    ensures
        r@ == pruned(table@.push(entry)),
        table_ok(r@),
{
    let mut all = table;
    all.push(entry);
    rank_scores(all)
}

} // verus!
