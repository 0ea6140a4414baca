//! Cleaning a token list: which token directories are removed, and the counts
//! reported per chain.

use vstd::prelude::*;

verus! {

/// What becomes of a token directory, by the status its description gives.
#[derive(PartialEq, Eq, Structural, Clone, Copy, Debug)]
pub enum StatusAction {
    /// The token is abandoned: its directory is removed.
    RemoveAbandoned,
    /// The token is spam: its directory is removed.
    RemoveSpam,
    /// Any other status: the token stays.
    Keep,
}

/// The action for a status text.
pub open spec fn status_action(status: Seq<char>) -> StatusAction {
    if status == "abandoned"@ {
        StatusAction::RemoveAbandoned
    } else if status == "spam"@ {
        StatusAction::RemoveSpam
    } else {
        StatusAction::Keep
    }
}

/// Decides what becomes of a token from its status.
pub fn classify_status(status: &String) -> (res: StatusAction)
    ensures
        res == status_action(status@),
{
    let abandoned = "abandoned".to_owned();
    let spam = "spam".to_owned();
    if *status == abandoned {
        StatusAction::RemoveAbandoned
    } else if *status == spam {
        StatusAction::RemoveSpam
    } else {
        StatusAction::Keep
    }
}

/// The counts reported for one chain after cleaning.
#[derive(PartialEq, Eq, Structural, Clone, Copy, Debug)]
pub struct CleanupTally {
    pub active: u64,
    pub removed_abandoned: u64,
    pub removed_spam: u64,
}

/// The counts after one more token with the given action.
pub open spec fn tally_after(t: CleanupTally, a: StatusAction) -> CleanupTally {
    match a {
        StatusAction::RemoveAbandoned => CleanupTally { removed_abandoned: (t.removed_abandoned + 1) as u64, ..t },
        StatusAction::RemoveSpam => CleanupTally { removed_spam: (t.removed_spam + 1) as u64, ..t },
        StatusAction::Keep => CleanupTally { active: (t.active + 1) as u64, ..t },
    }
}

/// Whether one more token of any kind can still be counted.
pub open spec fn tally_has_room(t: CleanupTally) -> bool {
    &&& t.active < u64::MAX
    &&& t.removed_abandoned < u64::MAX
    &&& t.removed_spam < u64::MAX
}

impl CleanupTally {
    /// All counts zero.
    pub fn new() -> (res: CleanupTally)
        ensures
            res.active == 0,
            res.removed_abandoned == 0,
            res.removed_spam == 0,
    {
        CleanupTally { active: 0, removed_abandoned: 0, removed_spam: 0 }
    }

    /// Whether one more token of any kind can still be counted.
    pub fn has_room(&self) -> (res: bool)
        ensures
            res == tally_has_room(*self),
    {
        self.active < u64::MAX && self.removed_abandoned < u64::MAX && self.removed_spam < u64::MAX
    }

    /// Counts one more token with the given action.
    pub fn record(&mut self, action: StatusAction)
        requires
            tally_has_room(*old(self)),
        ensures
            *final(self) == tally_after(*old(self), action),
            action == StatusAction::RemoveAbandoned ==> final(self).removed_abandoned == old(self).removed_abandoned + 1
                && final(self).removed_spam == old(self).removed_spam && final(self).active == old(self).active,
            action == StatusAction::RemoveSpam ==> final(self).removed_spam == old(self).removed_spam + 1
                && final(self).removed_abandoned == old(self).removed_abandoned && final(self).active == old(self).active,
            action == StatusAction::Keep ==> final(self).active == old(self).active + 1
                && final(self).removed_abandoned == old(self).removed_abandoned && final(self).removed_spam == old(self).removed_spam,
    {
        match action {
            StatusAction::RemoveAbandoned => self.removed_abandoned = self.removed_abandoned + 1,
            StatusAction::RemoveSpam => self.removed_spam = self.removed_spam + 1,
            StatusAction::Keep => self.active = self.active + 1,
        }
    }
}

/// Each token recorded is counted once, under its action: the total of the
/// three counts grows by exactly one.
pub proof fn lemma_tally_counts_each_once(t: CleanupTally, a: StatusAction)
    requires
        tally_has_room(t),
    ensures
        tally_after(t, a).active + tally_after(t, a).removed_abandoned + tally_after(t, a).removed_spam
            == t.active + t.removed_abandoned + t.removed_spam + 1,
        (a == StatusAction::Keep) == (tally_after(t, a).active == t.active + 1),
{
}

/// Recording a token raises the counter of its own action by one and leaves
/// the other two counters as they were, whatever the counts so far.
pub proof fn lemma_tally_record_own_counter(t: CleanupTally, a: StatusAction)
    requires
        tally_has_room(t),
    ensures
        a == StatusAction::RemoveAbandoned ==> tally_after(t, a).removed_abandoned == t.removed_abandoned + 1
            && tally_after(t, a).removed_spam == t.removed_spam && tally_after(t, a).active == t.active,
        a == StatusAction::RemoveSpam ==> tally_after(t, a).removed_spam == t.removed_spam + 1
            && tally_after(t, a).removed_abandoned == t.removed_abandoned && tally_after(t, a).active == t.active,
        a == StatusAction::Keep ==> tally_after(t, a).active == t.active + 1
            && tally_after(t, a).removed_abandoned == t.removed_abandoned && tally_after(t, a).removed_spam == t.removed_spam,
{
}

/// The counts after recording the actions of `s`, in order, from zero.
pub open spec fn tally_of(s: Seq<StatusAction>) -> CleanupTally
    decreases s.len(),
{
    if s.len() == 0 {
        CleanupTally { active: 0, removed_abandoned: 0, removed_spam: 0 }
    } else {
        tally_after(tally_of(s.drop_last()), s.last())
    }
}

/// How many entries of `s` are the action `a`.
pub open spec fn action_count(s: Seq<StatusAction>, a: StatusAction) -> nat
    decreases s.len(),
{
    if s.len() == 0 {
        0
    } else {
        action_count(s.drop_last(), a) + if s.last() == a { 1nat } else { 0nat }
    }
}

/// After recording a chain's tokens, each count is the number of tokens with
/// that action: kept tokens as active, abandoned and spam ones as removed.
pub proof fn lemma_tally_of_counts(s: Seq<StatusAction>)
    requires
        s.len() < u64::MAX,
    ensures
        tally_of(s).active == action_count(s, StatusAction::Keep),
        tally_of(s).removed_abandoned == action_count(s, StatusAction::RemoveAbandoned),
        tally_of(s).removed_spam == action_count(s, StatusAction::RemoveSpam),
        action_count(s, StatusAction::Keep) + action_count(s, StatusAction::RemoveAbandoned) + action_count(
            s,
            StatusAction::RemoveSpam,
        ) == s.len(),
    decreases s.len(),
{
    if s.len() > 0 {
        lemma_tally_of_counts(s.drop_last());
    }
}

} // verus!
