//! Dispatches phone-number verification attempts across a pool of telecom
//! providers, records every outcome in an append-only ledger, and ranks the
//! providers by the weighted mean of their recorded outcomes.
use vstd::prelude::*;
use vstd::string::StringExecFns;

pub mod provider;
pub mod repo;

use crate::provider::{MockTelecomProvider, TelecomProvider};
use crate::repo::{
    covers_carriers, distinct_carriers, rank_rows_exact, sorted_by_score, RankEntry,
    VerificationKeeper, VerificationRepo, VerificationStep,
};

verus! {

/// Error taxonomy of the library. Construction-time errors
/// (`ConfigurationError`, `UnsupportedStrategy`) are fatal to startup;
/// `PersistenceFailure` models a ledger backend that could not record an
/// attempt.
#[derive(PartialEq, Eq, Structural, Clone, Copy, Debug)]
pub enum Error {
    ConfigurationError,
    UnsupportedStrategy,
    PersistenceFailure,
}

impl Error {
    /// A human-readable description of the error.
    pub fn message(&self) -> (m: String)
        ensures
            m@.len() > 0,
    {
        proof {
            reveal_strlit("probability must be a number between 0 and 100, and step weights must ascend");
            reveal_strlit("balancer strategy is not supported yet");
            reveal_strlit("failed to record the attempt");
        }
        match self {
            Error::ConfigurationError => "probability must be a number between 0 and 100, and step weights must ascend".to_owned(),
            Error::UnsupportedStrategy => "balancer strategy is not supported yet".to_owned(),
            Error::PersistenceFailure => "failed to record the attempt".to_owned(),
        }
    }
}

/// The balancer strategy selected at startup. `Best` is recognized but not
/// implemented; constructing a server with it fails with
/// `Error::UnsupportedStrategy`.
#[derive(PartialEq, Eq, Structural, Clone, Copy, Debug)]
pub enum BalancerType {
    RoundRobin,
    Best,
}

impl BalancerType {
    /// Parses a strategy selector: `"rr"` and `"round-robin"` select
    /// round-robin, `"b"` and `"best"` select the (unimplemented) best-provider
    /// strategy; anything else is a configuration error.
    pub fn parse(s: &str) -> (r: Result<BalancerType, Error>)
        ensures
            (s@ == "rr"@ || s@ == "round-robin"@) ==> r == Ok::<BalancerType, Error>(BalancerType::RoundRobin),
            (s@ == "b"@ || s@ == "best"@) ==> r == Ok::<BalancerType, Error>(BalancerType::Best),
            !(s@ == "rr"@ || s@ == "round-robin"@ || s@ == "b"@ || s@ == "best"@)
                ==> r == Err::<BalancerType, Error>(Error::ConfigurationError),
    {
        proof {
            reveal_strlit("rr");
            reveal_strlit("round-robin");
            reveal_strlit("b");
            reveal_strlit("best");
            // the selectors differ pairwise already in length
            assert(("rr")@.len() == 2);
            assert(("b")@.len() == 1);
            assert(("best")@.len() == 4);
            assert(("round-robin")@.len() == 11);
        }
        let v = s.to_owned();
        if v == "rr".to_owned() || v == "round-robin".to_owned() {
            Ok(BalancerType::RoundRobin)
        } else if v == "b".to_owned() || v == "best".to_owned() {
            Ok(BalancerType::Best)
        } else {
            Err(Error::ConfigurationError)
        }
    }
}

impl core::str::FromStr for BalancerType {
    type Err = Error;

    /// Parses as `BalancerType::parse` does; that function carries the
    /// contract.
    fn from_str(s: &str) -> Result<BalancerType, Error> {
        BalancerType::parse(s)
    }
}

/// Process configuration: the balancer strategy and the port the surrounding
/// server listens on.
#[derive(PartialEq, Debug)]
pub struct Command {
    /// strategy in selecting what telecom provider handles a verification attempt
    pub balancer: BalancerType,
    /// the port that the telecom verification service runs on
    pub port: String,
}

/// Strategy that picks which pool index serves the next attempt. The
/// round-robin variant below is the only implemented strategy; a
/// best-provider variant would implement the same contract with read access
/// to the ranking data.
pub trait Balancer: Sized {
    /// Picks the pool index that serves the next attempt. The pool must be
    /// non-empty: the dispatcher short-circuits before consulting the
    /// balancer when it is not.
    fn next_idx(&mut self, carrier_len: usize) -> (idx: usize)
        requires
            carrier_len > 0,
        ensures
            idx < carrier_len,
    ;
}

/// Picks indices cyclically: a counter is returned, then advanced by one
/// modulo the pool size.
#[derive(Debug)]
pub struct RoundRobinBalancer {
    cur_idx: usize,
}

impl View for RoundRobinBalancer {
    type V = nat;

    closed spec fn view(&self) -> nat {
        self.cur_idx as nat
    }
}

impl RoundRobinBalancer {
    /// A fresh balancer starts at index 0.
    pub fn new() -> (b: RoundRobinBalancer)
        ensures
            b@ == 0,
    {
        RoundRobinBalancer { cur_idx: 0 }
    }
}

/// Advancing a round-robin counter commutes with reducing it modulo the pool
/// size: `((c % n) + 1) % n == (c + 1) % n`.
proof fn lemma_round_robin_step(c: int, n: int)
    requires
        n > 0,
    ensures
        ((c % n) + 1) % n == (c + 1) % n,
{
    vstd::arithmetic::div_mod::lemma_add_mod_noop_right(1, c, n);
    assert((1 + c % n) % n == (1 + c) % n);
}

impl Balancer for RoundRobinBalancer {
    fn next_idx(&mut self, carrier_len: usize) -> (idx: usize)
        ensures
            idx == old(self)@ % (carrier_len as nat),
            final(self)@ == (old(self)@ + 1) % (carrier_len as nat),
    {
        let idx = self.cur_idx % carrier_len;
        proof {
            lemma_round_robin_step(old(self)@ as int, carrier_len as int);
        }
        self.cur_idx = (idx + 1) % carrier_len;
        idx
    }
}

/// The index a round-robin balancer whose counter holds `start` returns on
/// its `i`-th subsequent call over a constant pool of `n` providers. By
/// `RoundRobinBalancer::next_idx`'s contract, a balancer with `self@ ==
/// start` returns exactly this sequence of indices: consecutive, ascending,
/// wrapping at `n`.
pub open spec fn round_robin_index(start: nat, i: nat, n: nat) -> int
    recommends
        n > 0,
{
    ((start + i) as int) % (n as int)
}

/// How many of the first `m` calls of a round-robin balancer started at
/// `start` over a pool of `n` providers return index `j`.
pub open spec fn round_robin_hits(start: nat, m: nat, n: nat, j: int) -> nat
    decreases m,
{
    if m == 0 {
        0
    } else {
        round_robin_hits(start, (m - 1) as nat, n, j) + (if round_robin_index(
            start,
            (m - 1) as nat,
            n,
        ) == j {
            1nat
        } else {
            0nat
        })
    }
}

/// The hit count over `a + b` calls splits into the hits of the first `a`
/// calls and the hits of the `b` calls made from the counter value reached
/// after them.
proof fn lemma_round_robin_hits_split(start: nat, a: nat, b: nat, n: nat, j: int)
    ensures
        round_robin_hits(start, (a + b) as nat, n, j) == round_robin_hits(start, a, n, j)
            + round_robin_hits((start + a) as nat, b, n, j),
    decreases b,
{
    if b > 0 {
        lemma_round_robin_hits_split(start, a, (b - 1) as nat, n, j);
    }
}

/// Among any `m <= n` consecutive round-robin calls, index `j` is returned
/// once if the call that yields it falls inside the window, and never
/// otherwise.
proof fn lemma_round_robin_hits_prefix(start: nat, m: nat, n: nat, j: int)
    requires
        n >= 1,
        m <= n,
        0 <= j < n,
    ensures
        round_robin_hits(start, m, n, j) == if (j - start) % (n as int) < m {
            1int
        } else {
            0int
        },
    decreases m,
{
    let ni = n as int;
    let t = (j - start) % ni;
    vstd::arithmetic::div_mod::lemma_mod_bound(j - start, ni);
    if m > 0 {
        lemma_round_robin_hits_prefix(start, (m - 1) as nat, n, j);
        let d = m - 1;
        // the call at offset `t` is the one that returns `j` ...
        vstd::arithmetic::div_mod::lemma_add_mod_noop_right(start as int, j - start, ni);
        vstd::arithmetic::div_mod::lemma_small_mod(j as nat, n);
        assert((start + t) % ni == j);
        // ... and no other offset below `n` does
        if d != t {
            if (start + d) % ni == j {
                vstd::arithmetic::div_mod::lemma_mod_equivalence(start + d, start + t, ni);
                let e = d - t;
                if e > 0 {
                    vstd::arithmetic::div_mod::lemma_small_mod(e as nat, n);
                } else {
                    vstd::arithmetic::div_mod::lemma_mod_add_multiples_vanish(e, ni);
                    vstd::arithmetic::div_mod::lemma_small_mod((e + ni) as nat, n);
                }
                assert(false);
            }
        }
    }
}

/// Caller input for one verification attempt: an opaque phone number and
/// the submission instant in milliseconds since the Unix epoch. Immutable
/// once constructed; the core performs no validation on the number.
#[derive(Debug, PartialEq, Clone)]
pub struct VerificationRequest {
    pub number: String,
    pub time_ms: i64,
}

/// Caller-facing outcome of one attempt: exactly one of a freshly issued
/// verification token (success) or an error message (failure).
#[derive(Debug, PartialEq, Clone)]
pub struct VerificationResponse {
    pub token: Option<String>,
    pub error: Option<String>,
}

/// Ranking snapshot: one row per carrier with recorded attempts, ascending
/// by mean weight.
#[derive(Debug)]
pub struct RankResponse {
    pub rank: Vec<RankEntry>,
}

/// Relies on chrono's `Utc::now` and `DateTime::timestamp`: the current
/// wall-clock instant as whole seconds since the Unix epoch. Nothing is
/// promised of the value; it is whatever the machine's clock says.
#[verifier::external_body]
fn now_seconds() -> i64 {
    chrono::Utc::now().timestamp()
}

/// One decimal digit as text.
fn digit_str(d: u8) -> (s: &'static str)
    requires
        d < 10,
    ensures
        s@.len() == 1,
{
    proof {
        reveal_strlit("0");
        reveal_strlit("1");
        reveal_strlit("2");
        reveal_strlit("3");
        reveal_strlit("4");
        reveal_strlit("5");
        reveal_strlit("6");
        reveal_strlit("7");
        reveal_strlit("8");
        reveal_strlit("9");
    }
    match d {
        0 => "0",
        1 => "1",
        2 => "2",
        3 => "3",
        4 => "4",
        5 => "5",
        6 => "6",
        7 => "7",
        8 => "8",
        _ => "9",
    }
}

/// Appends the decimal digits of `n`, most significant first.
fn push_decimal(s: &mut String, n: u64)
    ensures
        final(s)@.len() > old(s)@.len(),
    decreases n,
{
    if n >= 10 {
        push_decimal(s, n / 10);
        s.append(digit_str((n % 10) as u8));
    } else {
        s.append(digit_str(n as u8));
    }
}

/// The decimal rendering of a timestamp, sign included.
fn decimal_string(t: i64) -> (s: String)
    ensures
        s@.len() > 0,
{
    let mut s = String::new();
    if t < 0 {
        proof {
            reveal_strlit("-");
        }
        s.append("-");
        let mag: u64 = ((-(t + 1)) as u64) + 1;
        push_decimal(&mut s, mag);
    } else {
        push_decimal(&mut s, t as u64);
    }
    s
}

/// The opaque bearer token issued for a successful attempt: a fixed prefix,
/// the phone number, and the issuing timestamp in seconds. Callers may rely
/// on nothing but its non-emptiness.
fn build_token(number: &String, ts_seconds: i64) -> (t: String)
    ensures
        t@.len() > 0,
{
    proof {
        reveal_strlit("Authorization: Bearer ey");
        assert(("Authorization: Bearer ey")@.len() == 24);
    }
    let mut t = "Authorization: Bearer ey".to_owned();
    t.append(number.as_str());
    let ts = decimal_string(ts_seconds);
    t.append(ts.as_str());
    t
}

/// The executable balancer walks the model: a `RoundRobinBalancer` whose
/// counter holds the model value `(start + i) % n` returns exactly
/// `round_robin_index(start, i, n)` from `next_idx` over a pool of `n`, and
/// its counter afterwards holds the model value for call `i + 1`. By
/// induction from a counter `start`, the `i`-th of a run of calls returns
/// `round_robin_index(start, i, n)`.
pub proof fn lemma_round_robin_model_step(start: nat, i: nat, n: nat)
    requires
        n > 0,
    ensures
        round_robin_index(start, i, n) % (n as int) == round_robin_index(start, i, n),
        (round_robin_index(start, i, n) + 1) % (n as int) == round_robin_index(
            start,
            (i + 1) as nat,
            n,
        ),
{
    vstd::arithmetic::div_mod::lemma_mod_bound((start + i) as int, n as int);
    vstd::arithmetic::div_mod::lemma_small_mod(round_robin_index(start, i, n) as nat, n);
    lemma_round_robin_step((start + i) as int, n as int);
}

/// Strict cyclic fairness of the round-robin strategy: over `k * n`
/// consecutive calls with a constant pool of `n >= 1` providers, every index
/// `j < n` is returned exactly `k` times, whatever counter value the window
/// starts from.
pub proof fn lemma_round_robin_fairness(start: nat, k: nat, n: nat, j: int)
    requires
        n >= 1,
        0 <= j < n,
    ensures
        round_robin_hits(start, (k * n) as nat, n, j) == k,
    decreases k,
{
    if k > 0 {
        let prev = ((k - 1) * n) as nat;
        assert((k - 1) * (n as int) >= 0 && (k - 1) * (n as int) + n == k * (n as int))
            by (nonlinear_arith)
            requires
                k >= 1,
                n >= 1,
        ;
        assert(prev + n == k * n);
        lemma_round_robin_fairness(start, (k - 1) as nat, n, j);
        lemma_round_robin_hits_split(start, prev, n, n, j);
        lemma_round_robin_hits_prefix((start + prev) as nat, n, n, j);
        vstd::arithmetic::div_mod::lemma_mod_bound(j - (start + prev), n as int);
        assert(round_robin_hits(start, (prev + n) as nat, n, j) == k);
    } else {
        assert(k * n == 0) by (nonlinear_arith)
            requires
                k == 0,
        ;
    }
}

/// The dispatcher: the only component that sees the provider pool, the
/// balancer, and the ledger together. One instance serves the whole
/// process; the surrounding server guards it with its own lock.
pub struct VerificationServer {
    carriers: Vec<MockTelecomProvider>,
    balancer: RoundRobinBalancer,
    repo: VerificationKeeper,
}

impl VerificationServer {
    /// The configured provider pool, as mathematical values, in pool order.
    pub closed spec fn spec_carriers(&self) -> Seq<crate::provider::ProviderView> {
        self.carriers@.map_values(|p: MockTelecomProvider| p@)
    }

    /// The balancer's counter.
    pub closed spec fn spec_counter(&self) -> nat {
        self.balancer@
    }

    /// The ledger's contents.
    pub closed spec fn spec_ledger(&self) -> crate::repo::KeeperView {
        self.repo@
    }

    /// Internal consistency: with a non-empty pool the balancer counter
    /// stays below the pool size.
    pub open spec fn wf(&self) -> bool {
        self.spec_carriers().len() > 0 ==> self.spec_counter() < self.spec_carriers().len()
    }

    /// Builds the server from the strategy selector, the provider pool, and
    /// the ledger. Only the round-robin strategy is implemented: selecting
    /// the best-provider strategy fails with `Error::UnsupportedStrategy`.
    pub fn new(
        client_mode: BalancerType,
        carriers: Vec<MockTelecomProvider>,
        repo: VerificationKeeper,
    ) -> (r: Result<VerificationServer, Error>)
        ensures
            r is Ok <==> client_mode == BalancerType::RoundRobin,
            r matches Ok(s) ==> {
                &&& s.spec_carriers() == carriers@.map_values(|p: MockTelecomProvider| p@)
                &&& s.spec_counter() == 0
                &&& s.spec_ledger() == repo@
                &&& s.wf()
            },
            r matches Err(e) ==> e == Error::UnsupportedStrategy,
    {
        match client_mode {
            BalancerType::RoundRobin => Ok(
                VerificationServer { carriers, balancer: RoundRobinBalancer::new(), repo },
            ),
            BalancerType::Best => Err(Error::UnsupportedStrategy),
        }
    }

    /// Handles one verification attempt.
    ///
    /// With an empty pool the call short-circuits: the balancer is never
    /// consulted, the ledger is untouched, and the caller gets the
    /// no-carriers failure outcome. Otherwise the balancer picks the next
    /// pool index, that provider runs its cascade, the outcome is appended
    /// to the ledger, and the caller gets a token exactly when the cascade
    /// succeeded: a successful outcome always carries a non-empty token, a
    /// failure outcome never carries one.
    pub fn handle_request(&mut self, request: &VerificationRequest) -> (r: Result<
        VerificationResponse,
        Error,
    >)
        requires
            old(self).wf(),
        ensures
            final(self).wf(),
            r is Ok,
            final(self).spec_carriers() == old(self).spec_carriers(),
            final(self).spec_ledger().weights == old(self).spec_ledger().weights,
            r matches Ok(resp) ==> {
                &&& (resp.token is Some <==> resp.error is None)
                &&& (resp.token matches Some(t) ==> t@.len() > 0)
            },
            old(self).spec_carriers().len() == 0 ==> {
                &&& *final(self) == *old(self)
                &&& (r matches Ok(resp) ==> resp.token is None && (resp.error matches Some(m)
                    && m@ == "no carriers found"@))
            },
            old(self).spec_carriers().len() > 0 ==> {
                let n = old(self).spec_carriers().len();
                let chosen = old(self).spec_carriers()[old(self).spec_counter() as int];
                &&& final(self).spec_counter() == (old(self).spec_counter() + 1) % n
                &&& exists|e: crate::repo::EntryView|
                    {
                        &&& e.carrier == chosen.name
                        &&& e.number == request.number@
                        &&& final(self).spec_ledger().entries == old(
                            self,
                        ).spec_ledger().entries.push(e)
                        &&& (chosen.chance_sms == 100 ==> e.step == VerificationStep::FirstSMS)
                        &&& (chosen.chance_sms == 0 && chosen.chance_voice == 0 ==> e.step
                            == VerificationStep::Unreachable)
                        &&& (r matches Ok(resp) ==> (resp.error is Some <==> e.step
                            == VerificationStep::Unreachable) && (resp.error matches Some(m)
                            ==> m@ == "verification unsuccessful"@))
                    }
            },
    {
        if self.carriers.len() == 0 {
            return Ok(
                VerificationResponse { token: None, error: Some("no carriers found".to_owned()) },
            );
        }
        let n = self.carriers.len();
        let idx = self.balancer.next_idx(n);
        proof {
            vstd::arithmetic::div_mod::lemma_small_mod(old(self).spec_counter(), n as nat);
            vstd::arithmetic::div_mod::lemma_mod_bound(
                (old(self).spec_counter() + 1) as int,
                n as int,
            );
        }
        let carrier = &self.carriers[idx];
        let entry = carrier.verify(&request.number);
        let step = entry.step;
        let ghost e_view = entry@;
        match self.repo.store_attempt(entry) {
            Ok(_) => {},
            Err(err) => {
                return Err(err);
            },
        }
        let resp = match step {
            VerificationStep::Unreachable => VerificationResponse {
                token: None,
                error: Some("verification unsuccessful".to_owned()),
            },
            _ => VerificationResponse {
                token: Some(build_token(&request.number, now_seconds())),
                error: None,
            },
        };
        proof {
            assert(e_view.carrier == old(self).spec_carriers()[old(
                self,
            ).spec_counter() as int].name);
            assert(self.spec_ledger().entries == old(self).spec_ledger().entries.push(e_view));
        }
        Ok(resp)
    }

    /// A ranking snapshot: delegates to the ledger's ranking and touches
    /// neither the balancer nor any provider. One row per carrier with at
    /// least one recorded attempt, carrying its exact attempt count and
    /// weight sum, ascending by mean weight.
    pub fn get_provider_rank(&self) -> (r: RankResponse)
        ensures
            rank_rows_exact(r.rank@, self.spec_ledger().entries, self.spec_ledger().weights),
            distinct_carriers(r.rank@),
            covers_carriers(r.rank@, self.spec_ledger().entries),
            sorted_by_score(r.rank@),
    {
        RankResponse { rank: self.repo.get_provider_rank() }
    }
}

} // verus!
