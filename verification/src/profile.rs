//! The ladder of quality configurations and the moves along it.

use vstd::prelude::*;
use crate::config::VideoConfig;

verus! {

/// Why a ladder or a frame table was rejected at load time.
#[derive(Debug, Clone, Copy, PartialEq, Eq, Structural)]
pub enum LoadError {
    /// The ladder holds no configuration.
    EmptyLadder,
    /// The ladder holds this configuration twice.
    DuplicateConfig(VideoConfig),
    /// The frame table has no size for this configuration of the ladder at
    /// this frame index.
    MissingFrame(VideoConfig, usize),
}

/// The factor of the multiplicative decrease, `num / den`, strictly between
/// zero and one.
#[derive(Debug, Clone, Copy, PartialEq, Eq, Structural)]
pub struct Decrease {
    num: usize,
    den: usize,
}

impl Decrease {
    pub closed spec fn num(&self) -> int {
        self.num as int
    }

    pub closed spec fn den(&self) -> int {
        self.den as int
    }

    pub open spec fn wf(&self) -> bool {
        0 < self.num() < self.den()
    }

    /// The factor `num / den`, if it lies strictly between zero and one.
    pub fn new(num: usize, den: usize) -> (r: Option<Decrease>)
        ensures
            r.is_some() <==> 0 < num < den,
            r matches Some(d) ==> d.wf() && d.num() == num && d.den() == den,
    {
        if 0 < num && num < den {
            Some(Decrease { num, den })
        } else {
            None
        }
    }

    /// One half, the customary factor.
    pub fn half() -> (d: Decrease)
        ensures
            d.wf(),
            d.num() == 1,
            d.den() == 2,
    {
        Decrease { num: 1, den: 2 }
    }
}

/// The index after one step up a ladder of `len` rungs.
pub open spec fn advanced(i: int, len: int) -> int {
    if i + 1 < len {
        i + 1
    } else {
        len - 1
    }
}

/// The index after a multiplicative decrease: `i` times the factor, rounded
/// down.
pub open spec fn adjusted(i: int, by: Decrease) -> int {
    (i * by.num()) / by.den()
}

/// A decrease never leaves the ladder and never climbs; from any rung above
/// the lowest it goes strictly down.
pub proof fn lemma_adjusted_bounds(i: int, by: Decrease)
    requires
        0 <= i,
        by.wf(),
    ensures
        0 <= adjusted(i, by) <= i,
        i > 0 ==> adjusted(i, by) < i,
{
    let n = by.num();
    let d = by.den();
    assert(0 <= i * n) by (nonlinear_arith)
        requires
            0 <= i,
            0 < n,
    ;
    assert(i * n <= i * d) by (nonlinear_arith)
        requires
            0 <= i,
            n < d,
    ;
    assert(i > 0 ==> i * n < i * d) by (nonlinear_arith)
        requires
            n < d,
    ;
    assert(0 <= (i * n) / d) by (nonlinear_arith)
        requires
            0 <= i * n,
            0 < d,
    ;
    vstd::arithmetic::div_mod::lemma_div_is_ordered(i * n, i * d, d);
    vstd::arithmetic::div_mod::lemma_div_multiples_vanish(i, d);
    assert((i * d) / d == i) by {
        vstd::arithmetic::mul::lemma_mul_is_commutative(i, d);
    }
    if i > 0 {
        // i * n <= i * d - 1 < i * d, and (i * d - 1) / d == i - 1
        vstd::arithmetic::div_mod::lemma_div_is_ordered(i * n, i * d - 1, d);
        assert((i * d - 1) / d == i - 1) by {
            assert(i * d - 1 == (i - 1) * d + (d - 1)) by (nonlinear_arith);
            vstd::arithmetic::div_mod::lemma_fundamental_div_mod_converse(
                i * d - 1,
                d,
                i - 1,
                d - 1,
            );
        }
    }
}

/// Whether `j` is the first index of `s` whose item already occurs before it.
pub open spec fn first_repeat(s: Seq<VideoConfig>, j: int) -> bool {
    &&& 0 <= j < s.len()
    &&& s.take(j).no_duplicates()
    &&& s.take(j).contains(s[j])
}

/// The ladder: the configurations from the lowest quality, at index 0, to the
/// highest, at the last index. No configuration occurs twice.
pub struct Profile {
    configs: Vec<VideoConfig>,
}

impl View for Profile {
    type V = Seq<VideoConfig>;

    closed spec fn view(&self) -> Seq<VideoConfig> {
        self.configs@
    }
}

impl Profile {
    /// A ladder has at least one rung and no rung twice.
    pub open spec fn wf(&self) -> bool {
        &&& 1 <= self@.len() <= usize::MAX
        &&& self@.no_duplicates()
    }

    /// The ladder made of `configs` in their order. An empty list and a list
    /// that repeats a configuration are rejected; the error names the first
    /// configuration that repeats an earlier one.
    pub fn new(configs: Vec<VideoConfig>) -> (r: Result<Profile, LoadError>)
        ensures
            r.is_ok() <==> configs@.len() >= 1 && configs@.no_duplicates(),
            match r {
                Ok(p) => p.wf() && p@ == configs@,
                Err(LoadError::EmptyLadder) => configs@.len() == 0,
                Err(LoadError::DuplicateConfig(c)) => exists|j: int|
                    #[trigger] first_repeat(configs@, j) && c == configs@[j],
                Err(LoadError::MissingFrame(_, _)) => false,
            },
    {
        if configs.len() == 0 {
            return Err(LoadError::EmptyLadder);
        }
        let mut j: usize = 1;
        while j < configs.len()
            invariant
                1 <= j <= configs.len(),
                configs@.take(j as int).no_duplicates(),
            decreases configs.len() - j,
        {
            let mut i: usize = 0;
            while i < j
                invariant
                    0 <= i <= j < configs.len(),
                    configs@.take(j as int).no_duplicates(),
                    forall|k: int| 0 <= k < i ==> configs@[k] != configs@[j as int],
                decreases j - i,
            {
                if configs[i] == configs[j] {
                    proof {
                        let before = configs@.take(j as int);
                        assert(before[i as int] == configs@[j as int]);
                        assert(first_repeat(configs@, j as int));
                    }
                    return Err(LoadError::DuplicateConfig(configs[j]));
                }
                i += 1;
            }
            proof {
                let shorter = configs@.take(j as int);
                let longer = configs@.take(j + 1);
                assert forall|a: int, b: int|
                    0 <= a < longer.len() && 0 <= b < longer.len() && a != b implies longer[a]
                    != longer[b] by {
                    if a < j && b < j {
                        assert(shorter[a] != shorter[b]);
                    }
                }
            }
            j += 1;
        }
        assert(configs@.take(configs@.len() as int) == configs@);
        Ok(Profile { configs })
    }

    /// The number of rungs.
    pub fn len(&self) -> (n: usize)
        ensures
            n == self@.len(),
    {
        self.configs.len()
    }

    /// The configuration at rung `i`.
    pub fn nth(&self, i: usize) -> (c: VideoConfig)
        requires
            i < self@.len(),
        ensures
            c == self@[i as int],
    {
        self.configs[i]
    }

    /// The configuration of the highest quality.
    pub fn last_config(&self) -> (c: VideoConfig)
        requires
            self.wf(),
        ensures
            c == self@[self@.len() - 1],
    {
        self.configs[self.configs.len() - 1]
    }

    /// The rung that holds `c`, if the ladder has it.
    pub fn position(&self, c: VideoConfig) -> (r: Option<usize>)
        ensures
            r.is_some() <==> self@.contains(c),
            r matches Some(i) ==> i < self@.len() && self@[i as int] == c && forall|k: int|
                0 <= k < i ==> self@[k] != c,
    {
        let mut i: usize = 0;
        while i < self.configs.len()
            invariant
                0 <= i <= self.configs.len(),
                forall|k: int| 0 <= k < i ==> self@[k] != c,
            decreases self.configs.len() - i,
        {
            if self.configs[i] == c {
                return Some(i);
            }
            i += 1;
        }
        None
    }

    /// The rung that holds `c`, which the ladder must have.
    pub fn index_of(&self, c: VideoConfig) -> (i: usize)
        requires
            self@.contains(c),
        ensures
            i < self@.len(),
            self@[i as int] == c,
            forall|k: int| 0 <= k < i ==> self@[k] != c,
    {
        match self.position(c) {
            Some(i) => i,
            None => vstd::pervasive::unreached(),
        }
    }

    /// One rung up from `i`, staying on the top rung.
    pub fn advance(&self, i: usize) -> (next: usize)
        requires
            self.wf(),
            i < self@.len(),
        ensures
            next == advanced(i as int, self@.len() as int),
            next < self@.len(),
    {
        let len = self.configs.len();
        if i + 1 < len {
            i + 1
        } else {
            len - 1
        }
    }

    /// The rung reached from `i` by a multiplicative decrease.
    pub fn adjust(&self, i: usize, by: Decrease) -> (next: usize)
        requires
            by.wf(),
            i < self@.len(),
        ensures
            next == adjusted(i as int, by),
            next <= i,
    {
        proof {
            lemma_adjusted_bounds(i as int, by);
            assert(0 <= i * by.num <= u128::MAX) by (nonlinear_arith)
                requires
                    0 <= i <= u64::MAX,
                    0 <= by.num <= u64::MAX,
            ;
        }
        let wide: u128 = (i as u128) * (by.num as u128) / (by.den as u128);
        wide as usize
    }
}

/// In a well-formed ladder a configuration sits on one rung only.
pub proof fn law_rungs_distinct(p: Profile, i: int, j: int)
    requires
        p.wf(),
        0 <= i < p@.len(),
        0 <= j < p@.len(),
        p@[i] == p@[j],
    ensures
        i == j,
{
}

} // verus!
