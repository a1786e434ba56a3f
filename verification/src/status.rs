//! The status of a recycle and the order in which it may change.

use vstd::prelude::*;
use crate::text::str_eq;

verus! {

/// Where a recycle stands in its life cycle.
#[derive(Debug, Clone, Copy, PartialEq, Eq, Structural)]
pub enum RecycleStatus {
    AwaitingDeposit,
    Confirming,
    Confirmed,
    Paid,
    Failed,
    /// Deposit received but not eligible for a payout; kept as a donation.
    Donation,
}

impl RecycleStatus {
    /// The literal under which the status is persisted.
    pub open spec fn text(self) -> Seq<char> {
        match self {
            RecycleStatus::AwaitingDeposit => "awaiting_deposit"@,
            RecycleStatus::Confirming => "confirming"@,
            RecycleStatus::Confirmed => "confirmed"@,
            RecycleStatus::Paid => "paid"@,
            RecycleStatus::Failed => "failed"@,
            RecycleStatus::Donation => "donation"@,
        }
    }

    /// The status that a persisted literal stands for. Text that is no
    /// status literal reads as `Failed`.
    pub open spec fn parse(s: Seq<char>) -> RecycleStatus {
        if s == "awaiting_deposit"@ {
            RecycleStatus::AwaitingDeposit
        } else if s == "confirming"@ {
            RecycleStatus::Confirming
        } else if s == "confirmed"@ {
            RecycleStatus::Confirmed
        } else if s == "paid"@ {
            RecycleStatus::Paid
        } else if s == "donation"@ {
            RecycleStatus::Donation
        } else {
            RecycleStatus::Failed
        }
    }

    /// The name shown to a user.
    pub open spec fn label(self) -> Seq<char> {
        match self {
            RecycleStatus::AwaitingDeposit => "Awaiting Deposit"@,
            RecycleStatus::Confirming => "Confirming"@,
            RecycleStatus::Confirmed => "Confirmed"@,
            RecycleStatus::Paid => "Paid"@,
            RecycleStatus::Failed => "Failed"@,
            RecycleStatus::Donation => "Donation Received"@,
        }
    }

    /// No transition leaves a terminal status.
    pub open spec fn is_terminal(self) -> bool {
        self == RecycleStatus::Paid || self == RecycleStatus::Failed || self
            == RecycleStatus::Donation
    }

    /// The statuses that the deposit monitor works on.
    pub open spec fn is_pending(self) -> bool {
        self == RecycleStatus::AwaitingDeposit || self == RecycleStatus::Confirming
    }

    /// How far along the life cycle a status is.
    pub open spec fn rank(self) -> nat {
        match self {
            RecycleStatus::AwaitingDeposit => 0,
            RecycleStatus::Confirming => 1,
            RecycleStatus::Confirmed => 2,
            RecycleStatus::Paid => 3,
            RecycleStatus::Failed => 3,
            RecycleStatus::Donation => 3,
        }
    }

    /// The transitions of the state machine: one step from `self` to `next`.
    pub open spec fn may_become(self, next: RecycleStatus) -> bool {
        match self {
            RecycleStatus::AwaitingDeposit => next == RecycleStatus::Confirming || next
                == RecycleStatus::Confirmed || next == RecycleStatus::Donation,
            RecycleStatus::Confirming => next == RecycleStatus::Confirming || next
                == RecycleStatus::Confirmed || next == RecycleStatus::Donation,
            RecycleStatus::Confirmed => next == RecycleStatus::Paid || next
                == RecycleStatus::Failed,
            RecycleStatus::Paid => false,
            RecycleStatus::Failed => false,
            RecycleStatus::Donation => false,
        }
    }

    /// What one operation may do to a status: leave it, or take one step.
    pub open spec fn stays_or_advances(self, next: RecycleStatus) -> bool {
        self == next || self.may_become(next)
    }

    pub fn as_str(&self) -> (s: &'static str)
        ensures
            s@ == self.text(),
    {
        match self {
            RecycleStatus::AwaitingDeposit => "awaiting_deposit",
            RecycleStatus::Confirming => "confirming",
            RecycleStatus::Confirmed => "confirmed",
            RecycleStatus::Paid => "paid",
            RecycleStatus::Failed => "failed",
            RecycleStatus::Donation => "donation",
        }
    }

    pub fn from_str(s: &str) -> (status: RecycleStatus)
        ensures
            status == RecycleStatus::parse(s@),
    {
        if str_eq(s, "awaiting_deposit") {
            RecycleStatus::AwaitingDeposit
        } else if str_eq(s, "confirming") {
            RecycleStatus::Confirming
        } else if str_eq(s, "confirmed") {
            RecycleStatus::Confirmed
        } else if str_eq(s, "paid") {
            RecycleStatus::Paid
        } else if str_eq(s, "donation") {
            RecycleStatus::Donation
        } else {
            RecycleStatus::Failed
        }
    }

    pub fn display_name(&self) -> (s: &'static str)
        ensures
            s@ == self.label(),
    {
        match self {
            RecycleStatus::AwaitingDeposit => "Awaiting Deposit",
            RecycleStatus::Confirming => "Confirming",
            RecycleStatus::Confirmed => "Confirmed",
            RecycleStatus::Paid => "Paid",
            RecycleStatus::Failed => "Failed",
            RecycleStatus::Donation => "Donation Received",
        }
    }

    pub fn terminal(&self) -> (r: bool)
        ensures
            r == self.is_terminal(),
    {
        match self {
            RecycleStatus::Paid | RecycleStatus::Failed | RecycleStatus::Donation => true,
            _ => false,
        }
    }

    pub fn pending(&self) -> (r: bool)
        ensures
            r == self.is_pending(),
    {
        match self {
            RecycleStatus::AwaitingDeposit | RecycleStatus::Confirming => true,
            _ => false,
        }
    }
}

/// The six status literals differ from each other.
pub proof fn lemma_status_literals_distinct()
    ensures
        forall|a: RecycleStatus, b: RecycleStatus| a.text() == b.text() ==> a == b,
{
    reveal_strlit("awaiting_deposit");
    reveal_strlit("confirming");
    reveal_strlit("confirmed");
    reveal_strlit("paid");
    reveal_strlit("failed");
    reveal_strlit("donation");
    assert forall|a: RecycleStatus, b: RecycleStatus| a.text() == b.text() implies a == b by {
        if a != b {
            assert(a.text().len() != b.text().len() || a.text()[0] != b.text()[0] || a.text()[4]
                != b.text()[4]);
        }
    }
}

/// Reading back the literal of a status gives that status.
pub proof fn lemma_parse_inverts_text(status: RecycleStatus)
    ensures
        RecycleStatus::parse(status.text()) == status,
{
    lemma_status_literals_distinct();
    assert(RecycleStatus::AwaitingDeposit.text() == "awaiting_deposit"@);
    assert(RecycleStatus::Confirming.text() == "confirming"@);
    assert(RecycleStatus::Confirmed.text() == "confirmed"@);
    assert(RecycleStatus::Paid.text() == "paid"@);
    assert(RecycleStatus::Donation.text() == "donation"@);
}

/// One step of the state machine never leads to an earlier status, and the
/// only step that keeps the rank is `confirming` to `confirming`.
pub proof fn lemma_step_moves_forward(from: RecycleStatus, to: RecycleStatus)
    requires
        from.may_become(to),
    ensures
        from.rank() <= to.rank(),
        !from.is_terminal(),
        from.rank() == to.rank() ==> from == RecycleStatus::Confirming && to
            == RecycleStatus::Confirming,
{
}

/// Over any history in which each status follows the one before by staying
/// or by one step, a later status is never behind an earlier one, and a
/// terminal status, once reached, is kept for good.
pub proof fn lemma_history_moves_forward(history: Seq<RecycleStatus>, i: int, j: int)
    requires
        forall|k: int|
            0 <= k < history.len() - 1 ==> (#[trigger] history[k]).stays_or_advances(
                history[k + 1],
            ),
        0 <= i <= j < history.len(),
    ensures
        history[i].rank() <= history[j].rank(),
        history[i].is_terminal() ==> history[j] == history[i],
        history[i].rank() == history[j].rank() ==> history[i] == history[j],
    decreases j - i,
{
    if i < j {
        lemma_history_moves_forward(history, i, j - 1);
        assert(history[j - 1].stays_or_advances(history[j - 1 + 1]));
    }
}

} // verus!
