//! Whether a notification goes out, and when.
//!
//! A notification whose profit is not above the threshold is suppressed.
//! After a delivery has failed nothing more is sent until the cooldown has
//! passed; the notification that failed is dropped, not sent again.

use crate::amount::Amount;
use vstd::prelude::*;

verus! {

/// How many seconds nothing is sent after a failed delivery, unless
/// configured otherwise.
pub const DEFAULT_COOLDOWN_SECONDS: u64 = 35;

/// What to do with a notification now.
#[derive(Clone, Copy, Debug, PartialEq, Eq, Structural)]
pub enum Verdict {
    /// Do not send it: its profit is not above the threshold.
    Suppress,
    /// Send it now.
    Deliver,
    /// Wait this many seconds first: a delivery failed and the cooldown has
    /// not passed.
    Defer { seconds: u64 },
}

/// What became of a notification.
#[derive(Clone, Copy, Debug, PartialEq, Eq, Structural)]
pub enum Outcome {
    Sent,
    Suppressed,
    Failed,
}

/// What stands before the channel: the profit threshold, the cooldown, and
/// when a delivery last failed, if one did.
#[derive(Clone, Copy, Debug)]
pub struct Notifier {
    pub minimum_profit: Amount,
    pub cooldown_seconds: u64,
    pub failed_at: Option<u64>,
}

/// A [`Notifier`] over mathematical values. Times are seconds on a clock
/// that does not run backwards.
pub struct NotifierView {
    pub minimum_profit: int,
    pub cooldown_seconds: nat,
    pub failed_at: Option<nat>,
}

impl View for Notifier {
    type V = NotifierView;

    open spec fn view(&self) -> NotifierView {
        NotifierView {
            minimum_profit: self.minimum_profit@,
            cooldown_seconds: self.cooldown_seconds as nat,
            failed_at: match self.failed_at {
                Some(at) => Some(at as nat),
                None => None,
            },
        }
    }
}

/// Whether a profit is suppressed: it is not above the threshold. A profit
/// equal to the threshold is suppressed.
pub open spec fn is_suppressed(total_profit: int, minimum_profit: int) -> bool {
    total_profit <= minimum_profit
}

/// The seconds that have passed at `now` since `since`; none where the clock
/// reads less than `since`.
pub open spec fn elapsed(since: nat, now: nat) -> nat {
    if now >= since {
        (now - since) as nat
    } else {
        0
    }
}

/// The seconds of cooldown that are left at `now`; none where no delivery
/// failed or the cooldown has passed.
pub open spec fn cooldown_left(notifier: NotifierView, now: nat) -> nat {
    match notifier.failed_at {
        Some(at) => if elapsed(at, now) < notifier.cooldown_seconds {
            (notifier.cooldown_seconds - elapsed(at, now)) as nat
        } else {
            0
        },
        None => 0,
    }
}

/// What to do at `now` with a notification of the given profit.
pub open spec fn verdict_of(notifier: NotifierView, total_profit: int, now: nat) -> Verdict {
    if is_suppressed(total_profit, notifier.minimum_profit) {
        Verdict::Suppress
    } else if cooldown_left(notifier, now) > 0 {
        Verdict::Defer { seconds: cooldown_left(notifier, now) as u64 }
    } else {
        Verdict::Deliver
    }
}

/// The notifier after a delivery attempt at `now`: a failure starts the
/// cooldown, a success changes nothing.
pub open spec fn after_attempt(notifier: NotifierView, delivered: bool, now: nat) -> NotifierView {
    if delivered {
        notifier
    } else {
        NotifierView { failed_at: Some(now), ..notifier }
    }
}

/// What became of a notification that got `verdict`, given whether the
/// delivery, if one was made, went through. A deferred notification is
/// delivered after its wait.
pub open spec fn outcome_of(verdict: Verdict, delivered: bool) -> Outcome {
    match verdict {
        Verdict::Suppress => Outcome::Suppressed,
        _ => if delivered {
            Outcome::Sent
        } else {
            Outcome::Failed
        },
    }
}

/// After a delivery has failed at `failed_at`, a notification that comes
/// later, but before the cooldown has passed, is not delivered at once: it
/// is deferred, or suppressed for its profit.
pub proof fn lemma_no_delivery_during_cooldown(
    notifier: NotifierView,
    failed_at: nat,
    now: nat,
    total_profit: int,
)
    requires
        failed_at <= now < failed_at + notifier.cooldown_seconds,
    ensures
        verdict_of(after_attempt(notifier, false, failed_at), total_profit, now)
            != Verdict::Deliver,
        !is_suppressed(total_profit, notifier.minimum_profit) ==> verdict_of(
            after_attempt(notifier, false, failed_at),
            total_profit,
            now,
        ) is Defer,
{
}

/// Once the cooldown has passed, a notification whose profit is above the
/// threshold is delivered.
pub proof fn lemma_delivery_after_cooldown(
    notifier: NotifierView,
    failed_at: nat,
    now: nat,
    total_profit: int,
)
    requires
        now >= failed_at + notifier.cooldown_seconds,
        total_profit > notifier.minimum_profit,
    ensures
        verdict_of(after_attempt(notifier, false, failed_at), total_profit, now)
            == Verdict::Deliver,
{
}

/// A notification is suppressed exactly where its profit is not above the
/// threshold, whatever the time and whatever failed before; a profit equal
/// to the threshold is suppressed.
pub proof fn lemma_suppressed_at_or_below_threshold(
    notifier: NotifierView,
    total_profit: int,
    now: nat,
)
    ensures
        verdict_of(notifier, total_profit, now) == Verdict::Suppress <==> total_profit
            <= notifier.minimum_profit,
        verdict_of(notifier, notifier.minimum_profit, now) == Verdict::Suppress,
{
}

impl Notifier {
    /// A notifier with the given threshold and cooldown, before any
    /// delivery.
    pub fn new(minimum_profit: Amount, cooldown_seconds: u64) -> (r: Notifier)
        ensures
            r@ == (NotifierView {
                minimum_profit: minimum_profit@,
                cooldown_seconds: cooldown_seconds as nat,
                failed_at: None,
            }),
    {
        Notifier { minimum_profit, cooldown_seconds, failed_at: None }
    }

    /// A notifier with the given threshold and the cooldown of
    /// [`DEFAULT_COOLDOWN_SECONDS`].
    pub fn with_default_cooldown(minimum_profit: Amount) -> (r: Notifier)
        ensures
            r@ == (NotifierView {
                minimum_profit: minimum_profit@,
                cooldown_seconds: DEFAULT_COOLDOWN_SECONDS as nat,
                failed_at: None,
            }),
    {
        Notifier::new(minimum_profit, DEFAULT_COOLDOWN_SECONDS)
    }

    /// What to do at `now` with a notification of the profit
    /// `total_profit`: suppress it where the profit is not above the
    /// threshold, else defer it for the rest of a running cooldown, else
    /// deliver it.
    pub fn verdict(&self, total_profit: Amount, now: u64) -> (r: Verdict)
        ensures
            r == verdict_of(self@, total_profit@, now as nat),
            r is Suppress <==> total_profit@ <= self@.minimum_profit,
    {
        if total_profit.at_most(&self.minimum_profit) {
            return Verdict::Suppress;
        }
        match self.failed_at {
            Some(at) => {
                let passed: u64 = if now >= at {
                    now - at
                } else {
                    0
                };
                if passed < self.cooldown_seconds {
                    Verdict::Defer { seconds: self.cooldown_seconds - passed }
                } else {
                    Verdict::Deliver
                }
            },
            None => Verdict::Deliver,
        }
    }

    /// Takes note of a delivery attempt that was made at `now`. A failure
    /// starts the cooldown.
    pub fn record_attempt(&mut self, delivered: bool, now: u64) -> (r: Outcome)
        ensures
            final(self)@ == after_attempt(old(self)@, delivered, now as nat),
            r == outcome_of(Verdict::Deliver, delivered),
    {
        if delivered {
            Outcome::Sent
        } else {
            self.failed_at = Some(now);
            Outcome::Failed
        }
    }
}

/// What became of a notification that got `verdict`, given whether the
/// delivery, if one was made, went through.
pub fn outcome(verdict: Verdict, delivered: bool) -> (r: Outcome)
    ensures
        r == outcome_of(verdict, delivered),
{
    match verdict {
        Verdict::Suppress => Outcome::Suppressed,
        _ => if delivered {
            Outcome::Sent
        } else {
            Outcome::Failed
        },
    }
}

} // verus!
