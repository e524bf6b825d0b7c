use rand::Rng;
use vstd::prelude::*;

verus! {

/// Counters gathered over a session, handed to whatever persists them.
#[derive(Debug, Copy, Clone, PartialEq, Eq, Structural)]
pub struct Stats {
    pub bertrand_killed: u64,
    pub shots: u64,
    pub powerups_activated: u64,
    pub hits_taken: u64,
    pub time_played: u64,
}

/// What the score service needs to know of a player and of the game.
#[derive(Clone)]
pub struct Credentials {
    pub username: String,
    pub user_token: String,
    pub game_id: String,
    pub private_key: String,
}

/// A movement intent: one of the four direction keys.
#[derive(Debug, Clone, Copy, PartialEq, Eq, Structural)]
pub enum Movement {
    Up,
    Down,
    Right,
    Left,
}

/// The way a character looks.
#[derive(Debug, Clone, Copy, PartialEq, Eq, Structural)]
pub enum Facing {
    Up,
    Down,
    Left,
    Right,
}

/// `x + n`, held at `u64::MAX`.
pub open spec fn sat_add(x: u64, n: u64) -> u64 {
    if x + n > u64::MAX {
        u64::MAX
    } else {
        (x + n) as u64
    }
}

/// Every counter at zero.
pub open spec fn zero_stats() -> Stats {
    Stats { bertrand_killed: 0, shots: 0, powerups_activated: 0, hits_taken: 0, time_played: 0 }
}

impl Stats {
    pub fn new() -> (r: Stats)
        ensures
            r == zero_stats(),
    {
        Stats { bertrand_killed: 0, shots: 0, powerups_activated: 0, hits_taken: 0, time_played: 0 }
    }
}

/// A uniform random draw in `0..=max`.
/// Relies on rand::Rng::gen_range over rand::thread_rng: the value lies in the
/// inclusive range, which is never empty here.
#[verifier::external_body]
pub fn rand(max: u64) -> (r: u64)
    ensures
        r <= max,
{
    rand::thread_rng().gen_range(0..=max)
}

/// A draw in `low..=high`.
pub fn rand_between(low: u64, high: u64) -> (r: u64)
    requires
        low <= high,
    ensures
        low <= r <= high,
{
    low + rand(high - low)
}

/// The index of the first element of `s` that meets `p`, or `s.len()` if none does.
pub open spec fn first_index<T>(s: Seq<T>, p: spec_fn(T) -> bool) -> int
    decreases s.len(),
{
    if s.len() == 0 {
        0
    } else if p(s[0]) {
        0
    } else {
        1 + first_index(s.drop_first(), p)
    }
}

pub proof fn lemma_first_index_range<T>(s: Seq<T>, p: spec_fn(T) -> bool)
    ensures
        0 <= first_index(s, p) <= s.len(),
    decreases s.len(),
{
    if s.len() > 0 && !p(s[0]) {
        lemma_first_index_range(s.drop_first(), p);
    }
}

pub proof fn lemma_first_index<T>(s: Seq<T>, p: spec_fn(T) -> bool, k: int)
    requires
        0 <= k <= s.len(),
        forall|j: int| 0 <= j < k ==> !p(#[trigger] s[j]),
        k < s.len() ==> p(s[k]),
    ensures
        first_index(s, p) == k,
    decreases k,
{
    if k > 0 {
        assert(!p(s[0]));
        let t = s.drop_first();
        assert forall|j: int| 0 <= j < k - 1 implies !p(#[trigger] t[j]) by {
            assert(!p(s[j + 1]));
        }
        if k < s.len() {
            assert(t[k - 1] == s[k]);
        }
        lemma_first_index(t, p, k - 1);
    }
}

/// Filtering a prefix one element longer.
pub proof fn lemma_filter_step<T>(s: Seq<T>, i: int, p: spec_fn(T) -> bool)
    requires
        0 <= i < s.len(),
    ensures
        s.subrange(0, i + 1).filter(p) == if p(s[i]) {
            s.subrange(0, i).filter(p).push(s[i])
        } else {
            s.subrange(0, i).filter(p)
        },
{
    reveal(Seq::filter);
    assert(s.subrange(0, i + 1).drop_last() =~= s.subrange(0, i));
    assert(s.subrange(0, i + 1).last() == s[i]);
}

} // verus!
