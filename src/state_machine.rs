//! The system lifecycle: five states, a matrix of observed transitions and a
//! matrix of inferred transition probabilities. Probabilities are exact
//! fractions: a row holds one numerator per target state over a shared
//! denominator, and a row with denominator 0 stands for all zeros.
use vstd::prelude::*;

verus! {

/// Number of states.
pub const N_STATES: usize = 5;

/// One whole score, in millionths.
pub const ONE: i128 = 1_000_000;

/// Least weight a likely target keeps (0.1).
pub const WEIGHT_FLOOR: i128 = 100_000;

/// Largest weight imbalance gives to trading (0.9).
pub const WEIGHT_CAP: i128 = 900_000;

/// Volatility above which an analyzing system may cool down (0.7).
pub const HIGH_VOLATILITY: i128 = 700_000;

/// Milliseconds an accumulating system waits before it counts as stable.
pub const STABLE_AFTER_MS: u64 = 5_000;

#[derive(Debug, Clone, Copy, PartialEq, Eq, Structural)]
pub enum SystemState {
    Booting,
    Accumulating,
    Analyzing,
    Trading,
    Cooldown,
}

pub open spec fn state_index(s: SystemState) -> nat {
    match s {
        SystemState::Booting => 0,
        SystemState::Accumulating => 1,
        SystemState::Analyzing => 2,
        SystemState::Trading => 3,
        SystemState::Cooldown => 4,
    }
}

impl SystemState {
    /// The state's stable index, 0 to 4 in declaration order.
    pub fn to_index(self) -> (r: usize)
        ensures
            r == state_index(self),
            r < N_STATES,
    {
        match self {
            SystemState::Booting => 0,
            SystemState::Accumulating => 1,
            SystemState::Analyzing => 2,
            SystemState::Trading => 3,
            SystemState::Cooldown => 4,
        }
    }

    /// All states, in index order.
    pub fn all() -> (r: Vec<SystemState>)
        ensures
            r@ == seq![
                SystemState::Booting,
                SystemState::Accumulating,
                SystemState::Analyzing,
                SystemState::Trading,
                SystemState::Cooldown,
            ],
    {
        let mut r: Vec<SystemState> = Vec::new();
        r.push(SystemState::Booting);
        r.push(SystemState::Accumulating);
        r.push(SystemState::Analyzing);
        r.push(SystemState::Trading);
        r.push(SystemState::Cooldown);
        r
    }
}

impl Default for SystemState {
    fn default() -> (r: Self)
        ensures
            r == SystemState::Booting,
    {
        SystemState::Booting
    }
}

/// A probability distribution over target states as exact fractions.
#[derive(Clone, Debug)]
pub struct ProbabilityRow {
    pub numerators: Vec<u64>,
    pub denominator: u128,
}

pub open spec fn seq_sum(s: Seq<u64>) -> int
    decreases s.len(),
{
    if s.len() == 0 {
        0
    } else {
        seq_sum(s.drop_last()) + s.last() as int
    }
}

pub open spec fn sum_of(s: Seq<int>) -> int
    decreases s.len(),
{
    if s.len() == 0 {
        0
    } else {
        sum_of(s.drop_last()) + s.last()
    }
}

pub open spec fn max_of(a: int, b: int) -> int {
    if a >= b {
        a
    } else {
        b
    }
}

pub open spec fn min_of(a: int, b: int) -> int {
    if a <= b {
        a
    } else {
        b
    }
}

pub open spec fn abs_of(a: int) -> int {
    if a >= 0 {
        a
    } else {
        -a
    }
}

/// Weights of the targets from state `s` given spread, imbalance and
/// volatility scores (millionths), before normalization.
pub open spec fn inferred_weights(s: SystemState, spread: int, imbalance: int, volatility: int) -> Seq<int> {
    match s {
        SystemState::Booting | SystemState::Accumulating => seq![
            0,
            max_of(spread, WEIGHT_FLOOR as int),
            max_of(ONE - spread, WEIGHT_FLOOR as int),
            0,
            0,
        ],
        SystemState::Analyzing => seq![
            0,
            0,
            max_of(ONE - abs_of(imbalance), WEIGHT_FLOOR as int),
            min_of(abs_of(imbalance), WEIGHT_CAP as int),
            if volatility > HIGH_VOLATILITY {
                volatility
            } else {
                0
            },
        ],
        SystemState::Trading => seq![
            0,
            0,
            0,
            max_of(ONE - volatility, WEIGHT_FLOOR as int),
            max_of(volatility, WEIGHT_FLOOR as int),
        ],
        SystemState::Cooldown => seq![
            0,
            0,
            max_of(ONE - volatility, WEIGHT_FLOOR as int),
            0,
            max_of(volatility, WEIGHT_FLOOR as int),
        ],
    }
}

pub struct StateMachine {
    pub current_state: SystemState,
    pub last_transition_ms: u64,
    /// Observed transition counts, row-major: `[from * 5 + to]`.
    pub transition_matrix: Vec<u64>,
    /// Inferred probabilities, one row per source state.
    pub inferred_matrix: Vec<ProbabilityRow>,
}

impl StateMachine {
    pub open spec fn wf(&self) -> bool {
        &&& self.transition_matrix@.len() == N_STATES * N_STATES
        &&& self.inferred_matrix@.len() == N_STATES
        &&& forall|i: int| 0 <= i < N_STATES ==> (#[trigger] self.inferred_matrix@[i]).numerators@.len() == N_STATES
        &&& forall|i: int| 0 <= i < N_STATES ==> #[trigger] self.observed(i, i) == 0
    }

    /// How many transitions from state index `i` to `j` were recorded.
    pub open spec fn observed(&self, i: int, j: int) -> u64 {
        self.transition_matrix@[i * 5 + j]
    }

    pub open spec fn row_counts(&self, i: int) -> Seq<u64> {
        self.transition_matrix@.subrange(i * 5, i * 5 + 5)
    }

    /// A machine in `Booting` with no recorded transition, started at `now_ms`.
    pub fn new(now_ms: u64) -> (r: Self)
        ensures
            r.wf(),
            r.current_state == SystemState::Booting,
            r.last_transition_ms == now_ms,
            forall|k: int| 0 <= k < 25 ==> r.transition_matrix@[k] == 0,
            forall|i: int| 0 <= i < 5 ==> (#[trigger] r.inferred_matrix@[i]).denominator == 0,
    {
        let mut counts: Vec<u64> = Vec::new();
        let mut k: usize = 0;
        while k < 25
            invariant
                k <= 25,
                counts@.len() == k,
                forall|m: int| 0 <= m < k ==> counts@[m] == 0,
            decreases 25 - k,
        {
            counts.push(0);
            k = k + 1;
        }
        let mut rows: Vec<ProbabilityRow> = Vec::new();
        let mut i: usize = 0;
        while i < 5
            invariant
                i <= 5,
                rows@.len() == i,
                forall|m: int| 0 <= m < i ==> (#[trigger] rows@[m]).denominator == 0 && rows@[m].numerators@.len() == 5,
            decreases 5 - i,
        {
            rows.push(zero_row());
            i = i + 1;
        }
        StateMachine {
            current_state: SystemState::Booting,
            last_transition_ms: now_ms,
            transition_matrix: counts,
            inferred_matrix: rows,
        }
    }

    pub fn get_state(&self) -> (r: SystemState)
        ensures
            r == self.current_state,
    {
        self.current_state
    }

    /// Moves to `new_state` at `now_ms`, counting the transition (the count
    /// stays at `u64::MAX` once there). A move to the current state changes
    /// nothing: neither a count nor the time of the last transition.
    pub fn transition_to(&mut self, new_state: SystemState, now_ms: u64)
        requires
            old(self).wf(),
        ensures
            final(self).wf(),
            final(self).inferred_matrix@ == old(self).inferred_matrix@,
            new_state == old(self).current_state ==> {
                &&& final(self).current_state == old(self).current_state
                &&& final(self).last_transition_ms == old(self).last_transition_ms
                &&& final(self).transition_matrix@ == old(self).transition_matrix@
            },
            new_state != old(self).current_state ==> {
                let k = state_index(old(self).current_state) * 5 + state_index(new_state);
                let c = old(self).transition_matrix@[k as int];
                &&& final(self).current_state == new_state
                &&& final(self).last_transition_ms == now_ms
                &&& final(self).transition_matrix@ == old(self).transition_matrix@.update(
                    k as int,
                    if c < u64::MAX {
                        (c + 1) as u64
                    } else {
                        c
                    },
                )
            },
    {
        if self.current_state != new_state {
            let from = self.current_state.to_index();
            let to = new_state.to_index();
            let k: usize = from * 5 + to;
            let ghost before = *self;
            let c: u64 = self.transition_matrix[k];
            let next: u64 = if c < u64::MAX {
                c + 1
            } else {
                c
            };
            self.transition_matrix.set(k, next);
            self.current_state = new_state;
            self.last_transition_ms = now_ms;
            assert forall|i: int| 0 <= i < N_STATES implies #[trigger] self.observed(i, i) == 0 by {
                if i * 5 + i == k {
                    assert(from == i && to == i) by (nonlinear_arith)
                        requires k == from * 5 + to, k == i * 5 + i, from < 5, to < 5, 0 <= i < 5;
                }
                assert(before.observed(i, i) == 0);
            }
        }
    }

    /// Observed transition probabilities: row `i` holds the counts of
    /// transitions out of state `i` over their total, so every row with a
    /// non-zero total sums to exactly one.
    pub fn get_transition_probabilities(&self) -> (r: Vec<ProbabilityRow>)
        requires
            self.wf(),
        ensures
            r@.len() == 5,
            forall|i: int| 0 <= i < 5 ==> (#[trigger] r@[i]).numerators@ == self.row_counts(i),
            forall|i: int| 0 <= i < 5 ==> (#[trigger] r@[i]).denominator as int == seq_sum(self.row_counts(i)),
            forall|i: int| 0 <= i < 5 && (#[trigger] r@[i]).denominator > 0 ==> seq_sum(r@[i].numerators@)
                == r@[i].denominator,
    {
        let mut rows: Vec<ProbabilityRow> = Vec::new();
        let mut i: usize = 0;
        while i < 5
            invariant
                i <= 5,
                self.wf(),
                rows@.len() == i,
                forall|m: int| 0 <= m < i ==> (#[trigger] rows@[m]).numerators@ == self.row_counts(m),
                forall|m: int| 0 <= m < i ==> (#[trigger] rows@[m]).denominator as int == seq_sum(self.row_counts(m)),
            decreases 5 - i,
        {
            let mut nums: Vec<u64> = Vec::new();
            let mut total: u128 = 0;
            let mut j: usize = 0;
            while j < 5
                invariant
                    i < 5,
                    j <= 5,
                    self.wf(),
                    nums@ == self.row_counts(i as int).take(j as int),
                    total as int == seq_sum(nums@),
                    total <= j * 0xffff_ffff_ffff_ffffu128,
                decreases 5 - j,
            {
                let c = self.transition_matrix[i * 5 + j];
                proof {
                    assert(self.row_counts(i as int).take(j + 1) =~= self.row_counts(i as int).take(j as int).push(c));
                }
                nums.push(c);
                assert(nums@.drop_last() =~= self.row_counts(i as int).take(j as int));
                total = total + c as u128;
                j = j + 1;
            }
            assert(self.row_counts(i as int).take(5) =~= self.row_counts(i as int));
            rows.push(ProbabilityRow { numerators: nums, denominator: total });
            i = i + 1;
        }
        rows
    }

    /// Inferred probabilities, one row per source state.
    pub fn get_inferred_probabilities(&self) -> (r: Vec<ProbabilityRow>)
        requires
            self.wf(),
        ensures
            r@.len() == 5,
            forall|i: int| 0 <= i < 5 ==> (#[trigger] r@[i]).numerators@ == self.inferred_matrix@[i].numerators@,
            forall|i: int| 0 <= i < 5 ==> (#[trigger] r@[i]).denominator == self.inferred_matrix@[i].denominator,
    {
        let mut rows: Vec<ProbabilityRow> = Vec::new();
        let mut i: usize = 0;
        while i < 5
            invariant
                i <= 5,
                self.wf(),
                rows@.len() == i,
                forall|m: int| 0 <= m < i ==> (#[trigger] rows@[m]).numerators@ == self.inferred_matrix@[m].numerators@,
                forall|m: int| 0 <= m < i ==> (#[trigger] rows@[m]).denominator == self.inferred_matrix@[m].denominator,
            decreases 5 - i,
        {
            let row = &self.inferred_matrix[i];
            let mut nums: Vec<u64> = Vec::new();
            let mut j: usize = 0;
            while j < row.numerators.len()
                invariant
                    j <= row.numerators@.len(),
                    nums@ == row.numerators@.take(j as int),
                decreases row.numerators@.len() - j,
            {
                nums.push(row.numerators[j]);
                assert(row.numerators@.take(j + 1) =~= row.numerators@.take(j as int).push(row.numerators@[j as int]));
                j = j + 1;
            }
            assert(row.numerators@.take(j as int) =~= row.numerators@);
            rows.push(ProbabilityRow { numerators: nums, denominator: row.denominator });
            i = i + 1;
        }
        rows
    }

    /// Replaces the current state's inferred row with the weights that the
    /// spread, imbalance and volatility scores (millionths) give it (see
    /// `inferred_weights`), over their sum.
    pub fn update_inferred_probabilities(&mut self, spread_score: i64, imbalance_score: i64, volatility_score: i64)
        requires
            old(self).wf(),
        ensures
            final(self).wf(),
            final(self).current_state == old(self).current_state,
            final(self).last_transition_ms == old(self).last_transition_ms,
            final(self).transition_matrix@ == old(self).transition_matrix@,
            ({
                let idx = state_index(old(self).current_state) as int;
                let w = inferred_weights(
                    old(self).current_state,
                    spread_score as int,
                    imbalance_score as int,
                    volatility_score as int,
                );
                &&& final(self).inferred_matrix@.len() == 5
                &&& forall|i: int| 0 <= i < 5 && i != idx ==> #[trigger] final(self).inferred_matrix@[i]
                    == old(self).inferred_matrix@[i]
                &&& forall|j: int| 0 <= j < 5 ==> final(self).inferred_matrix@[idx].numerators@[j] as int
                    == #[trigger] w[j]
                &&& final(self).inferred_matrix@[idx].denominator as int == sum_of(w)
                &&& sum_of(w) > 0
            }),
    {
        let spread: i128 = spread_score as i128;
        let volatility: i128 = volatility_score as i128;
        let imbalance: i128 = if imbalance_score >= 0 {
            imbalance_score as i128
        } else {
            -(imbalance_score as i128)
        };
        let mut w: [i128; 5] = [0, 0, 0, 0, 0];
        match self.current_state {
            SystemState::Booting | SystemState::Accumulating => {
                w[1] = max_i(spread, WEIGHT_FLOOR);
                w[2] = max_i(ONE - spread, WEIGHT_FLOOR);
            },
            SystemState::Analyzing => {
                w[2] = max_i(ONE - imbalance, WEIGHT_FLOOR);
                w[3] = if imbalance <= WEIGHT_CAP {
                    imbalance
                } else {
                    WEIGHT_CAP
                };
                if volatility > HIGH_VOLATILITY {
                    w[4] = volatility;
                }
            },
            SystemState::Trading => {
                w[3] = max_i(ONE - volatility, WEIGHT_FLOOR);
                w[4] = max_i(volatility, WEIGHT_FLOOR);
            },
            SystemState::Cooldown => {
                w[2] = max_i(ONE - volatility, WEIGHT_FLOOR);
                w[4] = max_i(volatility, WEIGHT_FLOOR);
            },
        }
        let ghost ws = inferred_weights(
            self.current_state,
            spread_score as int,
            imbalance_score as int,
            volatility_score as int,
        );
        assert(ws.len() == 5);
        assert(forall|m: int| 0 <= m < 5 ==> w@[m] as int == #[trigger] ws[m]);
        let mut nums: Vec<u64> = Vec::new();
        let mut total: u128 = 0;
        let mut j: usize = 0;
        while j < 5
            invariant
                j <= 5,
                self.wf(),
                *self == *old(self),
                forall|m: int| 0 <= m < 5 ==> w@[m] as int == #[trigger] ws[m],
                ws.len() == 5,
                forall|m: int| 0 <= m < 5 ==> 0 <= #[trigger] ws[m] <= u64::MAX,
                nums@.len() == j,
                forall|m: int| 0 <= m < j ==> nums@[m] as int == #[trigger] ws[m],
                total as int == sum_of(ws.take(j as int)),
                total <= j * 0xffff_ffff_ffff_ffffu128,
            decreases 5 - j,
        {
            let v: u64 = w[j] as u64;
            assert(ws.take(j + 1).drop_last() =~= ws.take(j as int));
            nums.push(v);
            total = total + v as u128;
            j = j + 1;
        }
        assert(ws.take(5) =~= ws);
        proof {
            lemma_weights_positive(ws);
        }
        let idx = self.current_state.to_index();
        self.inferred_matrix.set(idx, ProbabilityRow { numerators: nums, denominator: total });
        assert forall|i: int| 0 <= i < N_STATES implies #[trigger] self.observed(i, i) == 0 by {
            assert(old(self).observed(i, i) == 0);
        }
    }

    /// Whether the system may move on: outside `Accumulating` always; in
    /// `Accumulating` once at least five seconds have passed since the last
    /// transition.
    pub fn is_stable(&self, now_ms: u64) -> (r: bool)
        ensures
            r == (self.current_state != SystemState::Accumulating || now_ms as int
                >= self.last_transition_ms as int + STABLE_AFTER_MS as int),
    {
        match self.current_state {
            SystemState::Accumulating => now_ms >= self.last_transition_ms && now_ms
                - self.last_transition_ms >= STABLE_AFTER_MS,
            _ => true,
        }
    }
}

fn zero_row() -> (r: ProbabilityRow)
    ensures
        r.denominator == 0,
        r.numerators@.len() == 5,
        forall|j: int| 0 <= j < 5 ==> r.numerators@[j] == 0,
{
    let mut nums: Vec<u64> = Vec::new();
    let mut j: usize = 0;
    while j < 5
        invariant
            j <= 5,
            nums@.len() == j,
            forall|m: int| 0 <= m < j ==> nums@[m] == 0,
        decreases 5 - j,
    {
        nums.push(0);
        j = j + 1;
    }
    ProbabilityRow { numerators: nums, denominator: 0 }
}

fn max_i(a: i128, b: i128) -> (r: i128)
    ensures
        r == max_of(a as int, b as int),
{
    if a >= b {
        a
    } else {
        b
    }
}

proof fn lemma_weights_positive(ws: Seq<int>)
    requires
        ws.len() == 5,
        forall|m: int| 0 <= m < 5 ==> 0 <= #[trigger] ws[m],
        exists|m: int| 0 <= m < 5 && #[trigger] ws[m] > 0,
    ensures
        sum_of(ws) > 0,
{
    reveal_with_fuel(sum_of, 6);
    assert(ws.drop_last().drop_last().drop_last().drop_last().drop_last().len() == 0);
}

} // verus!
