use vstd::prelude::*;
use crate::constants::MAX_HIGH_SCORES;
use crate::text::push_char;

verus! {

/// One line of the high-score table.
#[derive(Clone, Debug)]
pub struct HighScoreEntry {
    pub name: String,
    pub score: u32,
}

impl HighScoreEntry {
    pub fn new(name: String, score: u32) -> (e: HighScoreEntry)
        ensures
            e.name == name,
            e.score == score,
    {
        HighScoreEntry { name, score }
    }
}

/// The scores never increase along the sequence.
pub open spec fn sorted_desc(s: Seq<HighScoreEntry>) -> bool {
    forall|i: int, j: int| #![trigger s[i], s[j]] 0 <= i < j < s.len() ==> s[i].score >= s[j].score
}

/// A score earns a place: the table has room, or the score beats an entry.
pub open spec fn qualifies(s: Seq<HighScoreEntry>, score: u32) -> bool {
    s.len() < MAX_HIGH_SCORES || exists|i: int| 0 <= i < s.len() && (#[trigger] s[i]).score < score
}

/// The length of the leading run of entries whose score is at least `score`:
/// where a new entry with that score goes, after the entries it does not beat.
pub open spec fn rank(s: Seq<HighScoreEntry>, score: u32) -> int
    decreases s.len(),
{
    if s.len() == 0 {
        0
    } else if s[0].score >= score {
        1 + rank(s.drop_first(), score)
    } else {
        0
    }
}

/// The table after admitting `e`: inserted at its rank, then cut to the
/// capacity.
pub open spec fn admitted(s: Seq<HighScoreEntry>, e: HighScoreEntry) -> Seq<HighScoreEntry> {
    let t = s.insert(rank(s, e.score), e);
    if t.len() > MAX_HIGH_SCORES {
        t.take(MAX_HIGH_SCORES as int)
    } else {
        t
    }
}

/// The rank of a score: the entries before it score at least as much, and
/// the entry at it, if any, scores less.
pub proof fn lemma_rank(s: Seq<HighScoreEntry>, score: u32)
    ensures
        0 <= rank(s, score) <= s.len(),
        forall|k: int| 0 <= k < rank(s, score) ==> (#[trigger] s[k]).score >= score,
        rank(s, score) < s.len() ==> s[rank(s, score)].score < score,
    decreases s.len(),
{
    if s.len() > 0 && s[0].score >= score {
        lemma_rank(s.drop_first(), score);
        assert forall|k: int| 0 <= k < rank(s, score) implies (#[trigger] s[k]).score >= score by {
            if k > 0 {
                assert(s[k] == s.drop_first()[k - 1]);
            }
        }
    }
}

/// Admitting an entry into a sorted table keeps it sorted and within
/// capacity.
pub proof fn lemma_admitted_sorted(s: Seq<HighScoreEntry>, e: HighScoreEntry)
    requires
        sorted_desc(s),
        s.len() <= MAX_HIGH_SCORES,
    ensures
        sorted_desc(admitted(s, e)),
        admitted(s, e).len() == (if s.len() < MAX_HIGH_SCORES { s.len() + 1 } else { MAX_HIGH_SCORES as nat }),
{
    lemma_rank(s, e.score);
    let i = rank(s, e.score);
    let t = s.insert(i, e);
    let a = admitted(s, e);
    assert forall|x: int, y: int| #![trigger a[x], a[y]] 0 <= x < y < a.len() implies a[x].score
        >= a[y].score by {
        assert(a[x] == t[x]);
        assert(a[y] == t[y]);
        if y < i {
        } else if y == i {
            assert(t[x] == s[x]);
        } else if x < i {
            assert(t[y] == s[y - 1]);
        } else if x == i {
            assert(t[y] == s[y - 1]);
            if y - 1 > i {
                assert(s[i].score >= s[y - 1].score);
            }
        } else {
            assert(t[x] == s[x - 1]);
            assert(t[y] == s[y - 1]);
        }
    }
}

/// A table with room admits any score; a full table turns away a score that
/// beats no entry; and a full table that admits a score drops its lowest
/// entry, keeping exactly `MAX_HIGH_SCORES` entries, best first.
pub proof fn lemma_high_score_admission(s: Seq<HighScoreEntry>, e: HighScoreEntry)
    requires
        sorted_desc(s),
        s.len() <= MAX_HIGH_SCORES,
    ensures
        s.len() < MAX_HIGH_SCORES ==> qualifies(s, e.score),
        s.len() == MAX_HIGH_SCORES && (forall|i: int| 0 <= i < s.len() ==> (#[trigger] s[i]).score >= e.score)
            ==> !qualifies(s, e.score),
        s.len() == MAX_HIGH_SCORES && qualifies(s, e.score) ==> {
            &&& admitted(s, e).len() == MAX_HIGH_SCORES
            &&& sorted_desc(admitted(s, e))
            &&& admitted(s, e) == s.drop_last().insert(rank(s, e.score), e)
        },
{
    lemma_admitted_sorted(s, e);
    lemma_rank(s, e.score);
    if s.len() == MAX_HIGH_SCORES && qualifies(s, e.score) {
        let i = rank(s, e.score);
        let j = choose|j: int| 0 <= j < s.len() && (#[trigger] s[j]).score < e.score;
        if i == s.len() {
            assert(s[j].score >= e.score);
        }
        assert(admitted(s, e) =~= s.drop_last().insert(i, e));
    }
}

/// The table after offering `e`: admitted when it qualifies, else unchanged.
pub open spec fn offered(s: Seq<HighScoreEntry>, e: HighScoreEntry) -> Seq<HighScoreEntry> {
    if qualifies(s, e.score) {
        admitted(s, e)
    } else {
        s
    }
}

/// The table after offering each entry of `es` in order.
pub open spec fn offer_all(s: Seq<HighScoreEntry>, es: Seq<HighScoreEntry>) -> Seq<HighScoreEntry>
    decreases es.len(),
{
    if es.len() == 0 {
        s
    } else {
        offer_all(offered(s, es[0]), es.drop_first())
    }
}

/// The ranking of `(name, score)` entries, best score first, at most
/// `MAX_HIGH_SCORES` long.
#[derive(Clone, Debug)]
pub struct HighScores {
    entries: Vec<HighScoreEntry>,
}

impl HighScores {
    /// The entries, best first.
    pub closed spec fn list(&self) -> Seq<HighScoreEntry> {
        self.entries@
    }

    /// Within capacity and sorted by score, best first.
    pub open spec fn wf(&self) -> bool {
        self.list().len() <= MAX_HIGH_SCORES && sorted_desc(self.list())
    }

    /// An empty table.
    pub fn new() -> (h: HighScores)
        ensures
            h.wf(),
            h.list() == Seq::<HighScoreEntry>::empty(),
    {
        HighScores { entries: Vec::new() }
    }

    /// Whether `score` would earn a place in the table.
    pub fn would_qualify(&self, score: u32) -> (r: bool)
        requires
            self.wf(),
        ensures
            r == qualifies(self.list(), score),
    {
        if self.entries.len() < MAX_HIGH_SCORES {
            return true;
        }
        let mut i: usize = 0;
        while i < self.entries.len()
            invariant
                i <= self.list().len(),
                forall|k: int| 0 <= k < i ==> (#[trigger] self.list()[k]).score >= score,
            decreases self.list().len() - i,
        {
            if self.entries[i].score < score {
                return true;
            }
            i = i + 1;
        }
        false
    }

    /// Admits `(name, score)` when the score qualifies: the entry goes after
    /// every entry with a score at least as high, and the lowest entry drops
    /// out when the table overflows. Returns whether it was admitted.
    pub fn add_score(&mut self, name: String, score: u32) -> (r: bool)
        requires
            old(self).wf(),
        ensures
            final(self).wf(),
            r == qualifies(old(self).list(), score),
            r ==> final(self).list() == admitted(old(self).list(), HighScoreEntry { name, score }),
            !r ==> final(self).list() == old(self).list(),
    {
        if !self.would_qualify(score) {
            return false;
        }
        let ghost s = self.list();
        let e = HighScoreEntry { name, score };
        let mut i: usize = 0;
        assert(s.subrange(0, s.len() as int) =~= s);
        while i < self.entries.len() && self.entries[i].score >= score
            invariant
                s == self.list(),
                sorted_desc(s),
                i <= s.len(),
                forall|k: int| 0 <= k < i ==> (#[trigger] s[k]).score >= score,
                rank(s, score) == i + rank(s.subrange(i as int, s.len() as int), score),
            decreases s.len() - i,
        {
            proof {
                let tail = s.subrange(i as int, s.len() as int);
                assert(tail.drop_first() =~= s.subrange(i + 1, s.len() as int));
            }
            i = i + 1;
        }
        proof {
            let tail = s.subrange(i as int, s.len() as int);
            if i < s.len() {
                assert(tail[0] == s[i as int]);
            }
            assert(rank(tail, score) == 0);
        }
        self.entries.insert(i, e);
        if self.entries.len() > MAX_HIGH_SCORES {
            self.entries.truncate(MAX_HIGH_SCORES);
        }
        proof {
            lemma_admitted_sorted(s, e);
            assert(self.list() =~= admitted(s, e));
        }
        true
    }

    /// The entries, best first.
    pub fn entries(&self) -> (r: &[HighScoreEntry])
        ensures
            r@ == self.list(),
    {
        self.entries.as_slice()
    }

    /// A table made by offering each of the given entries in turn, as when
    /// a stored list is read back.
    pub fn from_entries(entries: Vec<HighScoreEntry>) -> (h: HighScores)
        ensures
            h.wf(),
            h.list() == offer_all(Seq::empty(), entries@),
    {
        let mut h = HighScores::new();
        let mut rest = entries;
        while rest.len() > 0
            invariant
                h.wf(),
                offer_all(h.list(), rest@) == offer_all(Seq::empty(), entries@),
            decreases rest@.len(),
        {
            let ghost before = rest@;
            let e = rest.remove(0);
            assert(rest@ =~= before.drop_first());
            h.add_score(e.name, e.score);
        }
        h
    }
}

/// The decimal digit character of `d`.
pub open spec fn digit_char(d: int) -> char {
    seq!['0', '1', '2', '3', '4', '5', '6', '7', '8', '9'][d]
}

/// The decimal numeral of `n`, without leading zeros.
pub open spec fn decimal(n: nat) -> Seq<char>
    decreases n,
{
    if n < 10 {
        seq![digit_char(n as int)]
    } else {
        decimal(n / 10).push(digit_char((n % 10) as int))
    }
}

/// The first `i` characters of `s` written out with a comma before each
/// character, other than the first, that has a multiple of three characters
/// from it to the end.
pub open spec fn commas_upto(s: Seq<char>, i: int) -> Seq<char>
    decreases i,
{
    if i <= 0 {
        Seq::empty()
    } else if i - 1 > 0 && (s.len() - (i - 1)) % 3 == 0 {
        commas_upto(s, i - 1) + seq![',', s[i - 1]]
    } else {
        commas_upto(s, i - 1).push(s[i - 1])
    }
}

/// The score with its digits grouped by three with commas.
pub open spec fn grouped(n: nat) -> Seq<char> {
    commas_upto(decimal(n), decimal(n).len() as int)
}

fn digit(d: u32) -> (c: char)
    requires
        d < 10,
    ensures
        c == digit_char(d as int),
{
    match d {
        0 => '0',
        1 => '1',
        2 => '2',
        3 => '3',
        4 => '4',
        5 => '5',
        6 => '6',
        7 => '7',
        8 => '8',
        _ => '9',
    }
}

/// The score in decimal, with a comma between each group of three digits
/// counted from the right ("1,000,000").
pub fn format_score(score: u32) -> (r: String)
    ensures
        r@ == grouped(score as nat),
{
    let mut digits: Vec<char> = Vec::new();
    digits.push(digit(score % 10));
    let mut m: u32 = score / 10;
    while m > 0
        invariant
            m == 0 ==> decimal(score as nat) == digits@,
            m > 0 ==> decimal(score as nat) == decimal(m as nat) + digits@,
        decreases m,
    {
        let ghost old_digits = digits@;
        digits.insert(0, digit(m % 10));
        proof {
            if m >= 10 {
                assert(decimal(m as nat) == decimal((m / 10) as nat).push(digit_char((m % 10) as int)));
                assert(decimal((m / 10) as nat) + digits@ =~= decimal(m as nat) + old_digits);
            } else {
                assert(digits@ =~= decimal(m as nat) + old_digits);
            }
        }
        m = m / 10;
    }
    let ghost s = digits@;
    let len = digits.len();
    let mut out = String::new();
    let mut i: usize = 0;
    while i < len
        invariant
            s == digits@,
            len == s.len(),
            i <= len,
            out@ == commas_upto(s, i as int),
        decreases len - i,
    {
        if i > 0 && (len - i) % 3 == 0 {
            push_char(&mut out, ',');
        }
        push_char(&mut out, digits[i]);
        i = i + 1;
        assert(out@ =~= commas_upto(s, i as int));
    }
    out
}

} // verus!
