use crate::addresses::Address;
use crate::indexer::RepoError;
use crate::path::path_text;
use crate::store::FoundAddress;
use vstd::prelude::*;

verus! {

/// The pause after each hit, in milliseconds.
pub const COOLDOWN_MILLIS: u64 = 2000;

/// Why checking one address failed.
#[derive(Clone, Debug, PartialEq, Eq)]
pub enum CheckerError {
    RepoError(RepoError),
    /// The notification could not be sent; the record was kept.
    TelegramError(String),
}

/// Where the check of one derived address stands.
#[derive(Clone, Copy, Debug, PartialEq, Eq, Structural)]
pub enum CheckPhase {
    AwaitLookup,
    AwaitRecord,
    AwaitNotify,
    AwaitCooldown,
    Done,
}

/// What the store, the notification channel or the clock answered.
#[derive(Debug)]
pub enum CheckEvent {
    /// Whether the address is in the corpus.
    LookedUp(Result<bool, RepoError>),
    /// The insert of the found-address record, with the rows it added.
    Recorded(Result<usize, RepoError>),
    /// The notification was sent, or why not.
    Notified(Result<(), String>),
    /// The cooldown is over.
    CooledDown,
}

/// What to do next.
#[derive(Debug)]
pub enum CheckAction {
    /// Ask whether the address is in the corpus.
    Lookup(String),
    /// Insert the found-address record.
    Record(FoundAddress),
    /// Send this notification text.
    Notify(String),
    /// Wait this many milliseconds.
    Cooldown(u64),
    /// The check is over: whether the address was a hit, or the failure.
    Finish(Result<bool, CheckerError>),
}

/// The text of the notification for a found address.
pub open spec fn notification_text(address: Seq<char>) -> Seq<char> {
    "Found a new address "@ + address
}

/// The check of one derived address against the corpus.
pub struct AddressCheck {
    pub found: FoundAddress,
    pub notify: bool,
    pub notify_error: Option<String>,
    pub phase: CheckPhase,
}

impl AddressCheck {
    /// The record that a hit stores.
    pub open spec fn record(&self) -> FoundAddress {
        self.found
    }

    /// Whether a hit is notified.
    pub open spec fn notifies(&self) -> bool {
        self.notify
    }

    /// A notification failure waiting to be reported.
    pub open spec fn notify_error(&self) -> Option<String> {
        self.notify_error
    }

    /// Whether the current phase waits for this kind of answer.
    pub open spec fn accepts(&self, event: CheckEvent) -> bool {
        match (self.phase, event) {
            (CheckPhase::AwaitLookup, CheckEvent::LookedUp(_)) => true,
            (CheckPhase::AwaitRecord, CheckEvent::Recorded(_)) => true,
            (CheckPhase::AwaitNotify, CheckEvent::Notified(_)) => true,
            (CheckPhase::AwaitCooldown, CheckEvent::CooledDown) => true,
            _ => false,
        }
    }

    /// Takes the answer to the last action and returns the next one. A miss
    /// ends the check; a hit is recorded, notified when a channel is
    /// configured, and followed by the cooldown. A store failure ends the
    /// check with the error; a notification failure is reported after the
    /// cooldown and does not undo the record.
    pub fn step(&mut self, event: CheckEvent) -> (r: CheckAction)
        requires
            old(self).accepts(event),
        ensures
            final(self).record() == old(self).record(),
            final(self).notifies() == old(self).notifies(),
            (event is LookedUp || event is Recorded) ==> final(self).notify_error() == old(self).notify_error(),
            event matches CheckEvent::LookedUp(Ok(false)) ==> {
                &&& final(self).phase == CheckPhase::Done
                &&& r matches CheckAction::Finish(Ok(false))
            },
            event matches CheckEvent::LookedUp(Ok(true)) ==> {
                &&& final(self).phase == CheckPhase::AwaitRecord
                &&& r matches CheckAction::Record(f) && f@ == old(self).record()@
            },
            event matches CheckEvent::LookedUp(Err(e)) ==> {
                &&& final(self).phase == CheckPhase::Done
                &&& r matches CheckAction::Finish(Err(CheckerError::RepoError(e2))) && e2 == e
            },
            (event is Recorded && event->Recorded_0 is Ok && old(self).notifies()) ==> {
                &&& final(self).phase == CheckPhase::AwaitNotify
                &&& r matches CheckAction::Notify(t) && t@ == notification_text(old(self).record().address@)
            },
            (event is Recorded && event->Recorded_0 is Ok && !old(self).notifies()) ==> {
                &&& final(self).phase == CheckPhase::AwaitCooldown
                &&& r == CheckAction::Cooldown(COOLDOWN_MILLIS)
            },
            event matches CheckEvent::Recorded(Err(e)) ==> {
                &&& final(self).phase == CheckPhase::Done
                &&& r matches CheckAction::Finish(Err(CheckerError::RepoError(e2))) && e2 == e
            },
            event matches CheckEvent::Notified(Ok(_)) ==> {
                &&& final(self).phase == CheckPhase::AwaitCooldown
                &&& r == CheckAction::Cooldown(COOLDOWN_MILLIS)
                &&& final(self).notify_error() is None
            },
            event matches CheckEvent::Notified(Err(m)) ==> {
                &&& final(self).phase == CheckPhase::AwaitCooldown
                &&& r == CheckAction::Cooldown(COOLDOWN_MILLIS)
                &&& final(self).notify_error() == Some(m)
            },
            event is CooledDown ==> {
                &&& final(self).phase == CheckPhase::Done
                &&& final(self).notify_error() is None
                &&& match old(self).notify_error() {
                    Some(m) => r matches CheckAction::Finish(Err(CheckerError::TelegramError(m2))) && m2 == m,
                    None => r matches CheckAction::Finish(Ok(true)),
                }
            },
    {
        match event {
            CheckEvent::LookedUp(Ok(false)) => {
                self.phase = CheckPhase::Done;
                CheckAction::Finish(Ok(false))
            },
            CheckEvent::LookedUp(Ok(true)) => {
                self.phase = CheckPhase::AwaitRecord;
                CheckAction::Record(self.found.clone_record())
            },
            CheckEvent::LookedUp(Err(e)) => {
                self.phase = CheckPhase::Done;
                CheckAction::Finish(Err(CheckerError::RepoError(e)))
            },
            CheckEvent::Recorded(Ok(_)) => {
                if self.notify {
                    self.phase = CheckPhase::AwaitNotify;
                    let mut text = "Found a new address ".to_string();
                    text.append(self.found.address.as_str());
                    CheckAction::Notify(text)
                } else {
                    self.phase = CheckPhase::AwaitCooldown;
                    CheckAction::Cooldown(COOLDOWN_MILLIS)
                }
            },
            CheckEvent::Recorded(Err(e)) => {
                self.phase = CheckPhase::Done;
                CheckAction::Finish(Err(CheckerError::RepoError(e)))
            },
            CheckEvent::Notified(Ok(_)) => {
                self.phase = CheckPhase::AwaitCooldown;
                self.notify_error = None;
                CheckAction::Cooldown(COOLDOWN_MILLIS)
            },
            CheckEvent::Notified(Err(m)) => {
                self.phase = CheckPhase::AwaitCooldown;
                self.notify_error = Some(m);
                CheckAction::Cooldown(COOLDOWN_MILLIS)
            },
            CheckEvent::CooledDown => {
                self.phase = CheckPhase::Done;
                match self.notify_error.take() {
                    Some(m) => CheckAction::Finish(Err(CheckerError::TelegramError(m))),
                    None => CheckAction::Finish(Ok(true)),
                }
            },
        }
    }
}

/// Starts checking a derived address: the first action looks it up. On a
/// hit, the record holds the address, the path's text and the mnemonic.
pub fn check_address(address: &Address, notify: bool) -> (r: (AddressCheck, CheckAction))
    ensures
        r.0.phase == CheckPhase::AwaitLookup,
        r.0.notifies() == notify,
        r.0.notify_error() is None,
        r.0.record()@ == (address.address@, path_text(address.derivation_path@), address.mnemonic@),
        r.1 matches CheckAction::Lookup(a) && a@ == address.address@,
{
    let found = FoundAddress {
        address: address.address.clone(),
        derivation_path: address.derivation_path.to_text(),
        mnemonic: address.mnemonic.clone(),
    };
    (
        AddressCheck { found, notify, notify_error: None, phase: CheckPhase::AwaitLookup },
        CheckAction::Lookup(address.address.clone()),
    )
}

} // verus!
