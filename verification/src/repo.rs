//! Append-only ledger of verification attempts and the weighted provider
//! ranking computed from it.
use crate::Error;
use vstd::prelude::*;

verus! {

/// Terminal outcome of a verification attempt, in a fixed total order of
/// increasing cost: success on the first SMS challenge is cheapest, total
/// failure (`Unreachable`) costs the most.
#[derive(PartialEq, Eq, Structural, Hash, Copy, Clone, Debug)]
pub enum VerificationStep {
    FirstSMS,
    SecondSMS,
    FirstTextToSpeech,
    SecondTextToSpeech,
    Unreachable,
}

/// Position of a step in the fixed cost order; indexes the step-weight table.
pub open spec fn step_index(s: VerificationStep) -> int {
    match s {
        VerificationStep::FirstSMS => 0,
        VerificationStep::SecondSMS => 1,
        VerificationStep::FirstTextToSpeech => 2,
        VerificationStep::SecondTextToSpeech => 3,
        VerificationStep::Unreachable => 4,
    }
}

/// One immutable record of a completed attempt: which carrier ran it, for
/// which phone number, when it completed (milliseconds since the epoch), and
/// the step it terminated at.
#[derive(Clone)]
pub struct VerificationEntry {
    pub carrier: String,
    pub number: String,
    pub time_ms: i64,
    pub step: VerificationStep,
}

/// Mathematical value of a `VerificationEntry`.
pub struct EntryView {
    pub carrier: Seq<char>,
    pub number: Seq<char>,
    pub time_ms: int,
    pub step: VerificationStep,
}

impl View for VerificationEntry {
    type V = EntryView;

    open spec fn view(&self) -> EntryView {
        EntryView {
            carrier: self.carrier@,
            number: self.number@,
            time_ms: self.time_ms as int,
            step: self.step,
        }
    }
}

/// The step-weight table read in step order must never decrease: cheaper
/// outcomes carry lower weights, total failure the highest.
pub open spec fn weights_ascending(w: Seq<u32>) -> bool {
    forall|i: int| 0 <= i < w.len() - 1 ==> #[trigger] w[i] <= w[i + 1]
}

/// The weight the table `w` assigns to step `s`.
pub open spec fn spec_weight_of(w: Seq<u32>, s: VerificationStep) -> u32
    recommends
        w.len() == 5,
{
    w[step_index(s)]
}

/// Number of attempts recorded for carrier `c` in `entries`.
pub open spec fn carrier_attempts(entries: Seq<EntryView>, c: Seq<char>) -> nat
    decreases entries.len(),
{
    if entries.len() == 0 {
        0
    } else {
        carrier_attempts(entries.drop_last(), c) + (if entries.last().carrier == c {
            1nat
        } else {
            0nat
        })
    }
}

/// Sum of the weights that the table `w` assigns to the steps of the
/// attempts recorded for carrier `c` in `entries`.
pub open spec fn carrier_weight_sum(entries: Seq<EntryView>, w: Seq<u32>, c: Seq<char>) -> nat
    decreases entries.len(),
{
    if entries.len() == 0 {
        0
    } else {
        carrier_weight_sum(entries.drop_last(), w, c) + (if entries.last().carrier == c {
            spec_weight_of(w, entries.last().step) as nat
        } else {
            0nat
        })
    }
}

/// Appending one entry raises its own carrier's attempt count by one and its
/// weight sum by the entry's step weight, and leaves every other carrier's
/// statistics unchanged.
proof fn lemma_group_push(entries: Seq<EntryView>, e: EntryView, w: Seq<u32>, c: Seq<char>)
    ensures
        carrier_attempts(entries.push(e), c) == carrier_attempts(entries, c) + (if e.carrier == c {
            1nat
        } else {
            0nat
        }),
        carrier_weight_sum(entries.push(e), w, c) == carrier_weight_sum(entries, w, c) + (
        if e.carrier == c {
            spec_weight_of(w, e.step) as nat
        } else {
            0nat
        }),
{
    assert(entries.push(e).drop_last() =~= entries);
    assert(entries.push(e).last() == e);
}

/// The attempt count for any carrier never exceeds the number of entries,
/// and the weight sum never exceeds the number of entries times the largest
/// representable weight.
proof fn lemma_group_bounds(entries: Seq<EntryView>, w: Seq<u32>, c: Seq<char>)
    ensures
        carrier_attempts(entries, c) <= entries.len(),
        carrier_weight_sum(entries, w, c) <= entries.len() * 0xffff_ffffnat,
    decreases entries.len(),
{
    if entries.len() > 0 {
        lemma_group_bounds(entries.drop_last(), w, c);
    }
}

/// A ranking row: a carrier identifier together with the sum of the weights
/// of its recorded outcomes and the number of those outcomes. The mean
/// weight the ranking orders by is `weighted_sum / attempts`; keeping the
/// exact pair avoids rounding inside the core.
#[derive(Debug)]
pub struct RankEntry {
    pub carrier: String,
    pub weighted_sum: u128,
    pub attempts: usize,
}

/// Mathematical value of a `RankEntry`.
pub struct RankEntryView {
    pub carrier: Seq<char>,
    pub weighted_sum: nat,
    pub attempts: nat,
}

impl View for RankEntry {
    type V = RankEntryView;

    open spec fn view(&self) -> RankEntryView {
        RankEntryView {
            carrier: self.carrier@,
            weighted_sum: self.weighted_sum as nat,
            attempts: self.attempts as nat,
        }
    }
}

/// `a` ranks at or before `b`: `a`'s mean weight is at most `b`'s. Stated by
/// cross-multiplication, so no division by the attempt counts is needed.
pub open spec fn score_le(a: RankEntryView, b: RankEntryView) -> bool {
    a.weighted_sum * b.attempts <= b.weighted_sum * a.attempts
}

/// Some row of `g` belongs to carrier `c`.
pub open spec fn has_carrier(g: Seq<RankEntry>, c: Seq<char>) -> bool {
    exists|i: int| 0 <= i < g.len() && g[i]@.carrier == c
}

/// Every row of `g` carries exactly the attempt count and weight sum that
/// `entries` records for its carrier, and belongs to a carrier with at least
/// one recorded attempt.
pub open spec fn rank_rows_exact(g: Seq<RankEntry>, entries: Seq<EntryView>, w: Seq<u32>) -> bool {
    forall|i: int|
        0 <= i < g.len() ==> {
            &&& (#[trigger] g[i])@.attempts == carrier_attempts(entries, g[i]@.carrier)
            &&& g[i]@.weighted_sum == carrier_weight_sum(entries, w, g[i]@.carrier)
            &&& g[i]@.attempts > 0
        }
}

/// No two rows of `g` belong to the same carrier.
pub open spec fn distinct_carriers(g: Seq<RankEntry>) -> bool {
    forall|i: int, j: int|
        0 <= i < j < g.len() ==> (#[trigger] g[i])@.carrier != (#[trigger] g[j])@.carrier
}

/// Every carrier with a recorded attempt in `entries` has a row in `g`.
pub open spec fn covers_carriers(g: Seq<RankEntry>, entries: Seq<EntryView>) -> bool {
    forall|k: int| 0 <= k < entries.len() ==> has_carrier(g, (#[trigger] entries[k]).carrier)
}

/// The rows of `g` are in ascending order of mean weight.
pub open spec fn sorted_by_score(g: Seq<RankEntry>) -> bool {
    forall|i: int, j: int|
        0 <= i <= j < g.len() ==> score_le((#[trigger] g[i])@, (#[trigger] g[j])@)
}

/// A carrier none of whose attempts appear in `entries` has zero attempts
/// and zero weight sum there.
proof fn lemma_absent_carrier_zero(entries: Seq<EntryView>, w: Seq<u32>, c: Seq<char>)
    requires
        forall|k: int| 0 <= k < entries.len() ==> (#[trigger] entries[k]).carrier != c,
    ensures
        carrier_attempts(entries, c) == 0,
        carrier_weight_sum(entries, w, c) == 0,
    decreases entries.len(),
{
    if entries.len() > 0 {
        lemma_absent_carrier_zero(entries.drop_last(), w, c);
    }
}

/// Index of the row for carrier `c` in `groups`, if there is one.
fn find_group(groups: &Vec<RankEntry>, c: &String) -> (r: Option<usize>)
    ensures
        match r {
            Some(i) => i < groups@.len() && groups@[i as int]@.carrier == c@,
            None => forall|i: int| 0 <= i < groups@.len() ==> (#[trigger] groups@[i])@.carrier
                != c@,
        },
{
    let mut i: usize = 0;
    while i < groups.len()
        invariant
            i <= groups@.len(),
            forall|j: int| 0 <= j < i ==> (#[trigger] groups@[j])@.carrier != c@,
        decreases groups@.len() - i,
    {
        if groups[i].carrier == *c {
            return Some(i);
        }
        i += 1;
    }
    None
}

/// Cross-multiplied mean comparison agrees with comparing the quotients
/// first and, on a quotient tie, the cross-multiplied remainders. This lets
/// the executable comparison stay within `u128` for any operand sizes.
proof fn lemma_score_le_by_division(sa: int, ca: int, sb: int, cb: int)
    requires
        0 <= sa,
        0 < ca,
        0 <= sb,
        0 < cb,
    ensures
        (sa * cb <= sb * ca) <==> (sa / ca < sb / cb || (sa / ca == sb / cb && (sa % ca) * cb <= (
        sb % cb) * ca)),
{
    let qa = sa / ca;
    let ra = sa % ca;
    let qb = sb / cb;
    let rb = sb % cb;
    vstd::arithmetic::div_mod::lemma_fundamental_div_mod(sa, ca);
    vstd::arithmetic::div_mod::lemma_fundamental_div_mod(sb, cb);
    vstd::arithmetic::div_mod::lemma_mod_bound(sa, ca);
    vstd::arithmetic::div_mod::lemma_mod_bound(sb, cb);
    if qa < qb {
        assert(sa * cb < sb * ca) by (nonlinear_arith)
            requires
                sa == ca * qa + ra,
                sb == cb * qb + rb,
                0 <= ra < ca,
                0 <= rb,
                0 < ca,
                0 < cb,
                qa < qb,
        ;
    } else if qb < qa {
        assert(sb * ca < sa * cb) by (nonlinear_arith)
            requires
                sa == ca * qa + ra,
                sb == cb * qb + rb,
                0 <= rb < cb,
                0 <= ra,
                0 < ca,
                0 < cb,
                qb < qa,
        ;
    } else {
        assert(sa * cb - sb * ca == ra * cb - rb * ca) by (nonlinear_arith)
            requires
                sa == ca * qa + ra,
                sb == cb * qb + rb,
                qa == qb,
        ;
    }
}

/// The ranking order is total: of any two rows, one ranks at or before the
/// other.
proof fn lemma_score_total(a: RankEntryView, b: RankEntryView)
    ensures
        score_le(a, b) || score_le(b, a),
{
}

/// The ranking order is transitive (for rows with at least one attempt, the
/// only rows the ranking produces).
proof fn lemma_score_le_trans(a: RankEntryView, b: RankEntryView, c: RankEntryView)
    requires
        score_le(a, b),
        score_le(b, c),
        b.attempts > 0,
    ensures
        score_le(a, c),
{
    let sa = a.weighted_sum as int;
    let ca = a.attempts as int;
    let sb = b.weighted_sum as int;
    let cb = b.attempts as int;
    let sc = c.weighted_sum as int;
    let cc = c.attempts as int;
    assert(sa * cc <= sc * ca) by (nonlinear_arith)
        requires
            sa * cb <= sb * ca,
            sb * cc <= sc * cb,
            0 < cb,
            0 <= sa,
            0 <= ca,
            0 <= sb,
            0 <= sc,
            0 <= cc,
    ;
}

/// `a` ranks at or before `b`: `a`'s mean weight is at most `b`'s. The exact
/// comparison of the two rational means, free of rounding and of overflow.
fn score_leq(a: &RankEntry, b: &RankEntry) -> (r: bool)
    requires
        a@.attempts > 0,
        b@.attempts > 0,
    ensures
        r == score_le(a@, b@),
{
    let ca = a.attempts as u128;
    let cb = b.attempts as u128;
    let qa = a.weighted_sum / ca;
    let ra = a.weighted_sum % ca;
    let qb = b.weighted_sum / cb;
    let rb = b.weighted_sum % cb;
    proof {
        lemma_score_le_by_division(
            a@.weighted_sum as int,
            a@.attempts as int,
            b@.weighted_sum as int,
            b@.attempts as int,
        );
        assert(ra * cb <= 0xffff_ffff_ffff_ffff * 0xffff_ffff_ffff_ffff) by (nonlinear_arith)
            requires
                0 <= ra < 0x1_0000_0000_0000_0000,
                0 <= cb <= 0xffff_ffff_ffff_ffff,
        ;
        assert(rb * ca <= 0xffff_ffff_ffff_ffff * 0xffff_ffff_ffff_ffff) by (nonlinear_arith)
            requires
                0 <= rb < 0x1_0000_0000_0000_0000,
                0 <= ca <= 0xffff_ffff_ffff_ffff,
        ;
    }
    if qa < qb {
        true
    } else if qb < qa {
        false
    } else {
        ra * cb <= rb * ca
    }
}

/// Sorts the rows into ascending mean weight by insertion, keeping exactly
/// the rows it was given.
fn sort_by_mean(rows: Vec<RankEntry>) -> (r: Vec<RankEntry>)
    requires
        forall|i: int| 0 <= i < rows@.len() ==> (#[trigger] rows@[i])@.attempts > 0,
    ensures
        r@.to_multiset() == rows@.to_multiset(),
        sorted_by_score(r@),
{
    broadcast use vstd::seq_lib::group_to_multiset_ensures;
    broadcast use vstd::multiset::group_multiset_axioms;

    let ghost orig = rows@;
    let mut rows = rows;
    let mut out: Vec<RankEntry> = Vec::new();
    proof {
        assert(out@.to_multiset().add(rows@.to_multiset()) =~= orig.to_multiset());
    }
    while rows.len() > 0
        invariant
            out@.to_multiset().add(rows@.to_multiset()) =~= orig.to_multiset(),
            sorted_by_score(out@),
            forall|i: int| 0 <= i < out@.len() ==> (#[trigger] out@[i])@.attempts > 0,
            forall|i: int| 0 <= i < rows@.len() ==> (#[trigger] rows@[i])@.attempts > 0,
        decreases rows@.len(),
    {
        let ghost before = rows@;
        let e = rows.pop().unwrap();
        proof {
            assert(before.drop_last() =~= rows@);
            assert(before =~= rows@.push(e));
            rows@.to_multiset_ensures();
            assert(rows@.push(e).to_multiset() =~= rows@.to_multiset().insert(e));
            assert(before.to_multiset() =~= rows@.to_multiset().insert(e));
        }
        let mut p: usize = 0;
        while p < out.len() && score_leq(&out[p], &e)
            invariant
                p <= out@.len(),
                forall|j: int| 0 <= j < p ==> score_le((#[trigger] out@[j])@, e@),
                sorted_by_score(out@),
                forall|i: int| 0 <= i < out@.len() ==> (#[trigger] out@[i])@.attempts > 0,
                e@.attempts > 0,
            decreases out@.len() - p,
        {
            p += 1;
        }
        let ghost old_out = out@;
        proof {
            if p < old_out.len() {
                lemma_score_total(old_out[p as int]@, e@);
            }
        }
        out.insert(p, e);
        proof {
            let new_out = out@;
            // the inserted sequence keeps exactly the old rows plus `e`
            assert(new_out =~= old_out.subrange(0, p as int).push(e) + old_out.subrange(
                p as int,
                old_out.len() as int,
            ));
            assert(old_out =~= old_out.subrange(0, p as int) + old_out.subrange(
                p as int,
                old_out.len() as int,
            ));
            vstd::seq_lib::lemma_multiset_commutative(
                old_out.subrange(0, p as int).push(e),
                old_out.subrange(p as int, old_out.len() as int),
            );
            vstd::seq_lib::lemma_multiset_commutative(
                old_out.subrange(0, p as int),
                old_out.subrange(p as int, old_out.len() as int),
            );
            old_out.subrange(0, p as int).to_multiset_ensures();
            assert(old_out.subrange(0, p as int).push(e).to_multiset() =~= old_out.subrange(
                0,
                p as int,
            ).to_multiset().insert(e));
            assert(new_out.to_multiset() =~= old_out.subrange(
                0,
                p as int,
            ).to_multiset().insert(e).add(
                old_out.subrange(p as int, old_out.len() as int).to_multiset(),
            ));
            assert(old_out.to_multiset() =~= old_out.subrange(0, p as int).to_multiset().add(
                old_out.subrange(p as int, old_out.len() as int).to_multiset(),
            ));
            assert(new_out.to_multiset() =~= old_out.to_multiset().insert(e));
            assert(new_out.to_multiset().add(rows@.to_multiset()) =~= orig.to_multiset());
            // sortedness of the extended sequence
            assert forall|i: int, j: int| 0 <= i <= j < new_out.len() implies score_le(
                (#[trigger] new_out[i])@,
                (#[trigger] new_out[j])@,
            ) by {
                let pi = p as int;
                if j < pi {
                    assert(new_out[i] == old_out[i] && new_out[j] == old_out[j]);
                } else if i < pi && j == pi {
                    assert(new_out[i] == old_out[i] && new_out[j] == e);
                } else if i < pi && j > pi {
                    assert(new_out[i] == old_out[i] && new_out[j] == old_out[j - 1]);
                } else if i == pi && j == pi {
                    assert(score_le(e@, e@));
                } else if i == pi && j > pi {
                    assert(new_out[j] == old_out[j - 1]);
                    if pi < old_out.len() {
                        lemma_score_le_trans(e@, old_out[pi]@, old_out[j - 1]@);
                    }
                } else {
                    assert(new_out[i] == old_out[i - 1] && new_out[j] == old_out[j - 1]);
                }
            }
        }
    }
    out
}

/// Repository of attempt outcomes: the dispatcher appends one entry per
/// dispatched attempt, and the read path asks for the per-carrier ranking.
pub trait VerificationRepo: Sized {
    /// Appends one completed attempt to the log. An implementation backed by
    /// real storage may fail; failure must be surfaced, not swallowed.
    fn store_attempt(&mut self, entry: VerificationEntry) -> Result<(), Error>;

    /// The carriers seen so far, each with its weighted outcome statistics,
    /// ordered by ascending mean weight (best-performing carrier first).
    fn get_provider_rank(&self) -> Vec<RankEntry>;
}

/// In-memory `VerificationRepo`: a growing vector of entries plus the
/// step-weight table fixed at construction.
pub struct VerificationKeeper {
    entries: Vec<VerificationEntry>,
    step_weights: [u32; 5],
}

/// Mathematical value of a `VerificationKeeper`.
pub struct KeeperView {
    pub entries: Seq<EntryView>,
    pub weights: Seq<u32>,
}

impl View for VerificationKeeper {
    type V = KeeperView;

    closed spec fn view(&self) -> KeeperView {
        KeeperView {
            entries: self.entries@.map_values(|e: VerificationEntry| e@),
            weights: self.step_weights@,
        }
    }
}

impl VerificationKeeper {
    /// Builds a keeper from the five step weights, given in step order.
    /// Construction succeeds exactly when the weights never decrease along
    /// that order; the log starts empty.
    pub fn new(step_values: [u32; 5]) -> (r: Result<VerificationKeeper, Error>)
        ensures
            r is Ok <==> weights_ascending(step_values@),
            r matches Ok(k) ==> k@.entries == Seq::<EntryView>::empty() && k@.weights
                == step_values@ && weights_ascending(k@.weights),
            r matches Err(e) ==> e == Error::ConfigurationError,
    {
        if step_values[0] <= step_values[1] && step_values[1] <= step_values[2] && step_values[2]
            <= step_values[3] && step_values[3] <= step_values[4] {
            let keeper = VerificationKeeper { entries: Vec::new(), step_weights: step_values };
            proof {
                assert(keeper@.entries =~= Seq::<EntryView>::empty());
            }
            Ok(keeper)
        } else {
            Err(Error::ConfigurationError)
        }
    }

    /// The weight the keeper's table assigns to `step`.
    fn weight_of(&self, step: VerificationStep) -> (w: u32)
        ensures
            w == spec_weight_of(self@.weights, step),
    {
        match step {
            VerificationStep::FirstSMS => self.step_weights[0],
            VerificationStep::SecondSMS => self.step_weights[1],
            VerificationStep::FirstTextToSpeech => self.step_weights[2],
            VerificationStep::SecondTextToSpeech => self.step_weights[3],
            VerificationStep::Unreachable => self.step_weights[4],
        }
    }

    /// One row per carrier that appears in the log, in order of first
    /// appearance, each carrying that carrier's exact attempt count and
    /// weight sum.
    fn group_by_carrier(&self) -> (g: Vec<RankEntry>)
        ensures
            rank_rows_exact(g@, self@.entries, self@.weights),
            distinct_carriers(g@),
            covers_carriers(g@, self@.entries),
    {
        let ghost all = self@.entries;
        let ghost w = self@.weights;
        let mut g: Vec<RankEntry> = Vec::new();
        let mut k: usize = 0;
        while k < self.entries.len()
            invariant
                k <= self.entries.len(),
                all == self@.entries,
                w == self@.weights,
                all.len() == self.entries.len(),
                rank_rows_exact(g@, all.subrange(0, k as int), w),
                distinct_carriers(g@),
                covers_carriers(g@, all.subrange(0, k as int)),
            decreases self.entries.len() - k,
        {
            let ghost prefix = all.subrange(0, k as int);
            let ghost e = all[k as int];
            let entry = &self.entries[k];
            let wt = self.weight_of(entry.step);
            proof {
                assert(entry@ == e);
                assert(all.subrange(0, (k + 1) as int) =~= prefix.push(e));
            }
            match find_group(&g, &entry.carrier) {
                Some(i) => {
                    let ghost old_g = g@;
                    proof {
                        lemma_group_bounds(prefix, w, e.carrier);
                        assert(prefix.len() * 0xffff_ffffnat + 0xffff_ffffnat <= (prefix.len()
                            + 1) * 0xffff_ffffnat) by (nonlinear_arith);
                        assert((prefix.len() + 1) * 0xffff_ffffnat <= 0xffff_ffff_ffff_ffffnat
                            * 0xffff_ffffnat) by (nonlinear_arith)
                            requires
                                prefix.len() + 1 <= 0xffff_ffff_ffff_ffffnat,
                        ;
                    }
                    let row = RankEntry {
                        carrier: entry.carrier.clone(),
                        weighted_sum: g[i].weighted_sum + (wt as u128),
                        attempts: g[i].attempts + 1,
                    };
                    g[i] = row;
                    proof {
                        assert(g@ == old_g.update(i as int, row));
                        assert forall|idx: int| 0 <= idx < g@.len() implies {
                            &&& (#[trigger] g@[idx])@.attempts == carrier_attempts(
                                prefix.push(e),
                                g@[idx]@.carrier,
                            )
                            &&& g@[idx]@.weighted_sum == carrier_weight_sum(
                                prefix.push(e),
                                w,
                                g@[idx]@.carrier,
                            )
                            &&& g@[idx]@.attempts > 0
                        } by {
                            lemma_group_push(prefix, e, w, g@[idx]@.carrier);
                            if idx != i {
                                assert(old_g[idx]@.carrier != old_g[i as int]@.carrier);
                            }
                        }
                        assert forall|k2: int| 0 <= k2 < prefix.push(e).len() implies has_carrier(
                            g@,
                            (#[trigger] prefix.push(e)[k2]).carrier,
                        ) by {
                            if k2 < prefix.len() {
                                assert(has_carrier(old_g, prefix[k2].carrier));
                                let j = choose|j: int|
                                    0 <= j < old_g.len() && old_g[j]@.carrier
                                        == prefix[k2].carrier;
                                assert(g@[j]@.carrier == prefix[k2].carrier);
                            } else {
                                assert(g@[i as int]@.carrier == e.carrier);
                            }
                        }
                    }
                }
                None => {
                    let ghost old_g = g@;
                    let row = RankEntry {
                        carrier: entry.carrier.clone(),
                        weighted_sum: wt as u128,
                        attempts: 1,
                    };
                    g.push(row);
                    proof {
                        assert forall|k2: int| 0 <= k2 < prefix.len() implies (#[trigger] prefix[
                            k2]).carrier != e.carrier by {
                            if prefix[k2].carrier == e.carrier {
                                assert(has_carrier(old_g, prefix[k2].carrier));
                            }
                        }
                        lemma_absent_carrier_zero(prefix, w, e.carrier);
                        assert forall|idx: int| 0 <= idx < g@.len() implies {
                            &&& (#[trigger] g@[idx])@.attempts == carrier_attempts(
                                prefix.push(e),
                                g@[idx]@.carrier,
                            )
                            &&& g@[idx]@.weighted_sum == carrier_weight_sum(
                                prefix.push(e),
                                w,
                                g@[idx]@.carrier,
                            )
                            &&& g@[idx]@.attempts > 0
                        } by {
                            lemma_group_push(prefix, e, w, g@[idx]@.carrier);
                        }
                        assert forall|k2: int| 0 <= k2 < prefix.push(e).len() implies has_carrier(
                            g@,
                            (#[trigger] prefix.push(e)[k2]).carrier,
                        ) by {
                            if k2 < prefix.len() {
                                assert(has_carrier(old_g, prefix[k2].carrier));
                                let j = choose|j: int|
                                    0 <= j < old_g.len() && old_g[j]@.carrier
                                        == prefix[k2].carrier;
                                assert(g@[j]@.carrier == prefix[k2].carrier);
                            } else {
                                assert(g@[g@.len() - 1]@.carrier == e.carrier);
                            }
                        }
                    }
                }
            }
            k += 1;
        }
        proof {
            assert(all.subrange(0, all.len() as int) =~= all);
        }
        g
    }
}

impl VerificationRepo for VerificationKeeper {
    /// Appends the entry to the in-memory log. This backend cannot fail: the
    /// result is always `Ok`, and the log afterwards is the old log with the
    /// entry at its end. The `Result` models a persistent backend whose
    /// failures would surface here.
    fn store_attempt(&mut self, entry: VerificationEntry) -> (r: Result<(), Error>)
        ensures
            r is Ok,
            final(self)@.entries == old(self)@.entries.push(entry@),
            final(self)@.weights == old(self)@.weights,
    {
        let ghost prior = self@.entries;
        self.entries.push(entry);
        proof {
            assert(self@.entries =~= prior.push(entry@));
        }
        Ok(())
    }

    /// Groups the log by carrier and returns one row per carrier that has at
    /// least one recorded attempt, carrying that carrier's exact attempt
    /// count and weight sum, sorted by ascending mean weight. A carrier with
    /// no attempts does not appear. The order of rows with equal mean weight
    /// is fixed by the insertion sort over the first-appearance grouping, so
    /// it is deterministic within a call, but not otherwise specified.
    fn get_provider_rank(&self) -> (r: Vec<RankEntry>)
        ensures
            rank_rows_exact(r@, self@.entries, self@.weights),
            distinct_carriers(r@),
            covers_carriers(r@, self@.entries),
            sorted_by_score(r@),
    {
        broadcast use vstd::seq_lib::group_to_multiset_ensures;
        broadcast use vstd::multiset::group_multiset_axioms;

        let groups = self.group_by_carrier();
        let r = sort_by_mean(groups);
        proof {
            let gs = groups@;
            let rs = r@;
            gs.to_multiset_ensures();
            rs.to_multiset_ensures();
            // rows of distinct carriers are distinct values
            assert forall|i: int, j: int|
                0 <= i < gs.len() && 0 <= j < gs.len() && i != j implies (#[trigger] gs[i])
                != (#[trigger] gs[j]) by {
                if i < j {
                    assert(gs[i]@.carrier != gs[j]@.carrier);
                } else {
                    assert(gs[j]@.carrier != gs[i]@.carrier);
                }
            }
            gs.lemma_multiset_has_no_duplicates();
            rs.lemma_multiset_has_no_duplicates_conv();
            // every output row is one of the grouped rows
            assert forall|i: int| 0 <= i < rs.len() implies {
                &&& (#[trigger] rs[i])@.attempts == carrier_attempts(self@.entries, rs[i]@.carrier)
                &&& rs[i]@.weighted_sum == carrier_weight_sum(
                    self@.entries,
                    self@.weights,
                    rs[i]@.carrier,
                )
                &&& rs[i]@.attempts > 0
            } by {
                assert(rs.contains(rs[i]));
                assert(gs.to_multiset().count(rs[i]) > 0);
                assert(gs.contains(rs[i]));
            }
            assert forall|i: int, j: int| 0 <= i < j < rs.len() implies (#[trigger] rs[i])@.carrier
                != (#[trigger] rs[j])@.carrier by {
                assert(rs[i] != rs[j]);
                assert(rs.contains(rs[i]) && rs.contains(rs[j]));
                assert(gs.to_multiset().count(rs[i]) > 0 && gs.to_multiset().count(rs[j]) > 0);
                assert(gs.contains(rs[i]) && gs.contains(rs[j]));
                let gi = choose|gi: int| 0 <= gi < gs.len() && gs[gi] == rs[i];
                let gj = choose|gj: int| 0 <= gj < gs.len() && gs[gj] == rs[j];
                assert(gi != gj);
            }
            assert forall|k: int| 0 <= k < self@.entries.len() implies has_carrier(
                rs,
                (#[trigger] self@.entries[k]).carrier,
            ) by {
                let c = self@.entries[k].carrier;
                assert(has_carrier(gs, c));
                let gi = choose|gi: int| 0 <= gi < gs.len() && gs[gi]@.carrier == c;
                assert(gs.contains(gs[gi]));
                assert(rs.to_multiset().count(gs[gi]) > 0);
                assert(rs.contains(gs[gi]));
                let ri = choose|ri: int| 0 <= ri < rs.len() && rs[ri] == gs[gi];
                assert(rs[ri]@.carrier == c);
            }
        }
        r
    }
}

} // verus!
