//! Simulated telecom carrier: runs the four-challenge verification cascade
//! (SMS twice, then voice twice) with configured success chances and reports
//! the terminal step.
use crate::repo::{VerificationEntry, VerificationStep};
use crate::Error;
use rand::RngExt;
use vstd::prelude::*;

verus! {

/// The step the fallback cascade terminates at, given the two success
/// chances and the four uniform percent draws: the first draw that falls
/// below its chance decides, and if none does the number is unreachable.
pub open spec fn spec_step_of_draws(
    chance_sms: u8,
    chance_voice: u8,
    d1: u8,
    d2: u8,
    d3: u8,
    d4: u8,
) -> VerificationStep {
    if d1 < chance_sms {
        VerificationStep::FirstSMS
    } else if d2 < chance_sms {
        VerificationStep::SecondSMS
    } else if d3 < chance_voice {
        VerificationStep::FirstTextToSpeech
    } else if d4 < chance_voice {
        VerificationStep::SecondTextToSpeech
    } else {
        VerificationStep::Unreachable
    }
}

/// Relies on rand's `rng()` and `RngExt::random_range`: a sample from the
/// range `0..100` lies in it, in particular strictly below 100.
#[verifier::external_body]
fn draw_percent() -> (r: u8)
    ensures
        r < 100,
{
    rand::rng().random_range(0..100)
}

/// Relies on chrono's `Utc::now` and `DateTime::timestamp_millis`: the
/// current wall-clock instant as milliseconds since the Unix epoch. Nothing
/// is promised of the value; it is whatever the machine's clock says.
#[verifier::external_body]
pub(crate) fn now_millis() -> i64 {
    chrono::Utc::now().timestamp_millis()
}

/// Resolves the verification cascade from the four draws. This is the seam
/// between the random source and the verified logic: whatever the draws
/// were, the returned step is exactly the one the cascade prescribes, so a
/// deterministic sequence of draws exercises every step.
pub fn resolve_step(chance_sms: u8, chance_voice: u8, d1: u8, d2: u8, d3: u8, d4: u8) -> (s:
    VerificationStep)
    ensures
        s == spec_step_of_draws(chance_sms, chance_voice, d1, d2, d3, d4),
{
    if d1 < chance_sms {
        VerificationStep::FirstSMS
    } else if d2 < chance_sms {
        VerificationStep::SecondSMS
    } else if d3 < chance_voice {
        VerificationStep::FirstTextToSpeech
    } else if d4 < chance_voice {
        VerificationStep::SecondTextToSpeech
    } else {
        VerificationStep::Unreachable
    }
}

/// A provider whose SMS chance is 100 resolves every attempt on the first
/// SMS step, whatever its voice chance and whatever the draws (every draw is
/// below 100).
pub proof fn lemma_certain_sms_first_step(
    chance_voice: u8,
    d1: u8,
    d2: u8,
    d3: u8,
    d4: u8,
)
    requires
        d1 < 100,
    ensures
        spec_step_of_draws(100, chance_voice, d1, d2, d3, d4) == VerificationStep::FirstSMS,
{
}

/// A provider with zero SMS chance and zero voice chance resolves every
/// attempt as unreachable: no draw can fall below zero.
pub proof fn lemma_zero_chances_unreachable(d1: u8, d2: u8, d3: u8, d4: u8)
    ensures
        spec_step_of_draws(0, 0, d1, d2, d3, d4) == VerificationStep::Unreachable,
{
}

/// A telecom carrier: runs the verification cascade for a phone number and
/// reports the terminal step in an entry that carries the carrier's own
/// name.
pub trait TelecomProvider: Sized {
    /// The carrier's identifying name.
    spec fn spec_name(&self) -> Seq<char>;

    /// One SMS challenge; true on success.
    fn send_sms(&self, number: &String) -> bool;

    /// One voice challenge; true on success.
    fn send_voice(&self, number: &String) -> bool;

    /// Runs the cascade for `number` and reports the terminal step. The
    /// returned entry names this carrier and the number it was given.
    fn verify(&self, number: &String) -> (e: VerificationEntry)
        ensures
            e@.carrier == self.spec_name(),
            e@.number == number@,
    ;

    /// The carrier's identifying name.
    fn get_name(&self) -> (n: String)
        ensures
            n@ == self.spec_name(),
    ;
}

/// Simulates one carrier: each SMS challenge succeeds with `chance_sms`
/// percent probability and each voice challenge with `chance_voice` percent,
/// all trials independent.
pub struct MockTelecomProvider {
    name: String,
    chance_sms: u8,
    chance_voice: u8,
}

/// Mathematical value of a `MockTelecomProvider`.
pub struct ProviderView {
    pub name: Seq<char>,
    pub chance_sms: u8,
    pub chance_voice: u8,
}

impl View for MockTelecomProvider {
    type V = ProviderView;

    closed spec fn view(&self) -> ProviderView {
        ProviderView {
            name: self.name@,
            chance_sms: self.chance_sms,
            chance_voice: self.chance_voice,
        }
    }
}

impl MockTelecomProvider {
    /// Builds a provider. Construction succeeds exactly when both success
    /// chances are percentages, that is at most 100.
    pub fn new(name: &str, chance_sms: u8, chance_voice: u8) -> (r: Result<
        MockTelecomProvider,
        Error,
    >)
        ensures
            r is Ok <==> chance_sms <= 100 && chance_voice <= 100,
            r matches Ok(p) ==> p@.name == name@ && p@.chance_sms == chance_sms && p@.chance_voice
                == chance_voice,
            r matches Err(e) ==> e == Error::ConfigurationError,
    {
        if chance_sms > 100 || chance_voice > 100 {
            return Err(Error::ConfigurationError);
        }
        Ok(MockTelecomProvider { name: name.to_owned(), chance_sms, chance_voice })
    }
}

impl TelecomProvider for MockTelecomProvider {
    open spec fn spec_name(&self) -> Seq<char> {
        self@.name
    }

    /// One simulated SMS challenge: succeeds when a fresh percent draw falls
    /// below the configured chance, so a chance of 100 always succeeds and a
    /// chance of 0 never does.
    fn send_sms(&self, _number: &String) -> (b: bool)
        ensures
            self@.chance_sms == 100 ==> b,
            self@.chance_sms == 0 ==> !b,
    {
        let d = draw_percent();
        d < self.chance_sms
    }

    /// One simulated voice challenge, with the voice chance.
    fn send_voice(&self, _number: &String) -> (b: bool)
        ensures
            self@.chance_voice == 100 ==> b,
            self@.chance_voice == 0 ==> !b,
    {
        let d = draw_percent();
        d < self.chance_voice
    }

    /// Runs the cascade: four fresh percent draws, resolved by
    /// `resolve_step`. The entry's step is the cascade's outcome for some
    /// four draws below 100; with a certain SMS chance it is always
    /// `FirstSMS`, and with both chances zero always `Unreachable`. The
    /// entry's timestamp is the clock's current instant.
    fn verify(&self, number: &String) -> (e: VerificationEntry)
        ensures
            e@.carrier == self.spec_name(),
            e@.number == number@,
            exists|d1: u8, d2: u8, d3: u8, d4: u8|
                d1 < 100 && d2 < 100 && d3 < 100 && d4 < 100 && e@.step == spec_step_of_draws(
                    self@.chance_sms,
                    self@.chance_voice,
                    d1,
                    d2,
                    d3,
                    d4,
                ),
            self@.chance_sms == 100 ==> e@.step == VerificationStep::FirstSMS,
            self@.chance_sms == 0 && self@.chance_voice == 0 ==> e@.step
                == VerificationStep::Unreachable,
    {
        let d1 = draw_percent();
        let d2 = draw_percent();
        let d3 = draw_percent();
        let d4 = draw_percent();
        let step = resolve_step(self.chance_sms, self.chance_voice, d1, d2, d3, d4);
        proof {
            assert(d1 < 100 && d2 < 100 && d3 < 100 && d4 < 100 && step == spec_step_of_draws(
                self@.chance_sms,
                self@.chance_voice,
                d1,
                d2,
                d3,
                d4,
            ));
            if self@.chance_sms == 100 {
                lemma_certain_sms_first_step(self@.chance_voice, d1, d2, d3, d4);
            }
            if self@.chance_sms == 0 && self@.chance_voice == 0 {
                lemma_zero_chances_unreachable(d1, d2, d3, d4);
            }
        }
        VerificationEntry {
            carrier: self.name.clone(),
            number: number.clone(),
            time_ms: now_millis(),
            step,
        }
    }

    fn get_name(&self) -> (n: String) {
        self.name.clone()
    }
}

} // verus!
