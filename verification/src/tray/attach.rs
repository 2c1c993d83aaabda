//! Which link to the dongle to use, and when to look for another.

use vstd::prelude::*;

verus! {

/// How often the menu is rebuilt, and how often a missing dongle is retried, in
/// milliseconds.
pub const REFRESH_MS: u64 = 2000;

/// Ceiling on the wait between capture retries once one has failed for a reason
/// other than missing permission.
pub const MAX_CAPTURE_BACKOFF_MS: u64 = 60_000;

/// How long a wireless scan runs before giving up and letting the next poll
/// start another.
pub const SCAN_FOR_MS: u64 = 6000;

/// How long to wait between wireless scans when none has succeeded. Scanning is
/// not free, and a dongle that is simply switched off should not cost a
/// continuous scan all day.
pub const SCAN_EVERY_MS: u64 = 20_000;

/// What a poll should do about the dongle link.
#[derive(Debug, Clone, Copy, PartialEq, Eq, Structural)]
pub enum Attach {
    /// A working link is held. Leave it alone.
    Hold,
    /// Nothing is attached. Look for a dongle.
    Open,
    /// A link is held but the device behind it is gone, or a better one has
    /// turned up. Reopen into the handle every consumer already holds.
    Reopen,
}

/// Decide from the only facts that matter.
///
/// Attachment alone is not health: after an unplug the link is still held, so
/// "is something attached?" would answer yes forever and the port would never
/// be reopened.
///
/// `cable_available` is separate from health because a working wireless link is
/// not a reason to ignore a cable that has just been plugged in. The cable is
/// fifty times faster, so a healthy link is not necessarily the right one.
pub fn decide_attach(attached: bool, link_failed: bool, cable_available: bool) -> (r: Attach)
    ensures
        r == Attach::Open <==> !attached,
        r == Attach::Hold <==> attached && !link_failed && !cable_available,
        r == Attach::Reopen <==> attached && (link_failed || cable_available),
{
    if !attached {
        Attach::Open
    } else if link_failed || cable_available {
        Attach::Reopen
    } else {
        Attach::Hold
    }
}

/// What came of looking for the cable.
#[derive(Debug, Clone, Copy, PartialEq, Eq, Structural)]
pub enum CableLook {
    Absent,
    Opened,
    /// Present but unopenable is usually another process holding it. Not worth
    /// a wireless scan.
    Busy,
}

/// What has come of a wireless scan.
#[derive(Debug, Clone, Copy, PartialEq, Eq, Structural)]
pub enum ScanLook {
    /// It found a dongle.
    Found,
    /// It found none.
    Nothing,
    /// It is still running.
    Running,
    /// It ended without a word.
    Lost,
}

/// What to do for a link.
#[derive(Debug, Clone, Copy, PartialEq, Eq, Structural)]
pub enum Find {
    /// Use the cable that was opened.
    Cable,
    /// Use the dongle that the scan found.
    Wireless,
    /// Start a scan.
    Scan,
    /// Wait for the next poll.
    Wait,
}

/// The search for a link over the air. It happens beside the menu: a freeze of
/// the menu bar every poll is worse than not finding the dongle.
#[derive(Debug, Clone, Copy, PartialEq, Eq, Structural)]
pub struct Search {
    /// A scan is in flight.
    pub searching: bool,
    /// When the next one may start, in milliseconds.
    pub next_scan: u64,
}

/// `now` and a pause after it, at most the largest time there is.
pub open spec fn later_by(now: u64, pause: u64) -> u64 {
    if now + pause > u64::MAX {
        u64::MAX
    } else {
        (now + pause) as u64
    }
}

fn after_pause(now: u64, pause: u64) -> (r: u64)
    ensures
        r == later_by(now, pause),
{
    if now > u64::MAX - pause {
        u64::MAX
    } else {
        now + pause
    }
}

impl Search {
    /// What to do for a link, preferring the cable: it opens at once and is two
    /// orders of magnitude faster once open. Wireless is the fallback for when
    /// the dongle is somewhere else entirely.
    pub open spec fn find(self, cable: CableLook, scan: ScanLook, now: u64) -> Find {
        if cable == CableLook::Opened {
            Find::Cable
        } else if cable == CableLook::Busy {
            Find::Wait
        } else if self.searching {
            if scan == ScanLook::Found {
                Find::Wireless
            } else {
                Find::Wait
            }
        } else if now < self.next_scan {
            Find::Wait
        } else {
            Find::Scan
        }
    }

    /// The search after that.
    pub open spec fn after(self, cable: CableLook, scan: ScanLook, now: u64) -> Search {
        if cable == CableLook::Opened {
            Search { searching: false, ..self }
        } else if cable == CableLook::Busy {
            self
        } else if self.searching {
            match scan {
                ScanLook::Running => self,
                ScanLook::Found => Search { searching: false, ..self },
                _ => Search { searching: false, next_scan: later_by(now, SCAN_EVERY_MS) },
            }
        } else if now < self.next_scan {
            self
        } else {
            Search { searching: true, ..self }
        }
    }

    /// Produce a link, or what to do for one. Waiting is not a failure: the
    /// next poll asks again.
    pub fn find_link(&mut self, cable: CableLook, scan: ScanLook, now: u64) -> (r: Find)
        ensures
            r == old(self).find(cable, scan, now),
            *final(self) == old(self).after(cable, scan, now),
    {
        match cable {
            CableLook::Opened => {
                self.searching = false;
                return Find::Cable;
            },
            CableLook::Busy => {
                return Find::Wait;
            },
            CableLook::Absent => {},
        }
        if self.searching {
            return match scan {
                ScanLook::Found => {
                    self.searching = false;
                    Find::Wireless
                },
                ScanLook::Running => Find::Wait,
                _ => {
                    self.searching = false;
                    self.next_scan = after_pause(now, SCAN_EVERY_MS);
                    Find::Wait
                },
            };
        }
        if now < self.next_scan {
            return Find::Wait;
        }
        self.searching = true;
        Find::Scan
    }

    /// Never two scans at once, never a scan while a cable is there, and after
    /// one that found nothing none for a while.
    pub proof fn law_scans_do_not_pile_up(self, cable: CableLook, scan: ScanLook, now: u64)
        ensures
            self.find(cable, scan, now) == Find::Scan ==> !self.searching && cable
                == CableLook::Absent && now >= self.next_scan,
            self.find(cable, scan, now) == Find::Scan <==> !self.searching && self.after(
                cable,
                scan,
                now,
            ).searching,
            self.searching && cable == CableLook::Absent && scan == ScanLook::Nothing ==> self.after(
                cable,
                scan,
                now,
            ).next_scan == later_by(now, SCAN_EVERY_MS),
    {
    }
}

/// When capture may next be attempted.
#[derive(Debug, Clone, Copy, PartialEq, Eq, Structural)]
pub struct CaptureRetry {
    /// In milliseconds.
    pub next_try: u64,
    pub backoff: u64,
}

/// What came of an attempt to capture.
#[derive(Debug, Clone, Copy, PartialEq, Eq, Structural)]
pub enum CaptureTry {
    /// The system has not granted permission yet.
    Untrusted,
    Started,
    /// Trusted and still failing means something other than permission.
    Failed,
}

impl CaptureRetry {
    /// The wait after an attempt.
    pub open spec fn after_try(self, outcome: CaptureTry, now: u64) -> CaptureRetry {
        match outcome {
            CaptureTry::Untrusted => CaptureRetry { next_try: later_by(now, REFRESH_MS), ..self },
            CaptureTry::Started => CaptureRetry { backoff: REFRESH_MS, ..self },
            CaptureTry::Failed => CaptureRetry {
                next_try: later_by(now, self.backoff),
                backoff: if 2 * self.backoff > MAX_CAPTURE_BACKOFF_MS {
                    MAX_CAPTURE_BACKOFF_MS
                } else {
                    (2 * self.backoff) as u64
                },
            },
        }
    }

    /// Whether to attempt it now: there is a link to capture for, nothing is
    /// captured yet, and the wait is over.
    pub fn is_due(&self, linked: bool, capturing: bool, now: u64) -> (r: bool)
        ensures
            r == (linked && !capturing && now >= self.next_try),
    {
        linked && !capturing && now >= self.next_try
    }

    /// Note what came of an attempt. A failure doubles the wait, up to a
    /// ceiling, so a persistent one does not repeat the same complaint forever.
    pub fn tried(&mut self, outcome: CaptureTry, now: u64)
        ensures
            *final(self) == old(self).after_try(outcome, now),
    {
        match outcome {
            CaptureTry::Untrusted => {
                self.next_try = after_pause(now, REFRESH_MS);
            },
            CaptureTry::Started => {
                self.backoff = REFRESH_MS;
            },
            CaptureTry::Failed => {
                self.next_try = after_pause(now, self.backoff);
                self.backoff = if self.backoff > MAX_CAPTURE_BACKOFF_MS / 2 {
                    MAX_CAPTURE_BACKOFF_MS
                } else {
                    2 * self.backoff
                };
            },
        }
    }
}

impl Search {
    /// What is done for a link, told by what was seen: an open cable is used; a
    /// cable that is held elsewhere is waited for; without one, a dongle that a
    /// scan found is used, and a scan is started where none runs and the pause
    /// since the last is over.
    pub proof fn law_what_is_done_for_a_link(self, cable: CableLook, scan: ScanLook, now: u64)
        ensures
            ({
                let does = self.find(cable, scan, now);
                let after = self.after(cable, scan, now);
                let absent = cable == CableLook::Absent;
                let ended = scan == ScanLook::Nothing || scan == ScanLook::Lost;
                &&& does == Find::Cable <==> cable == CableLook::Opened
                &&& does == Find::Wireless <==> absent && self.searching && scan == ScanLook::Found
                &&& does == Find::Scan <==> absent && !self.searching && now >= self.next_scan
                &&& after.searching <==> (does == Find::Scan || (self.searching && cable
                    != CableLook::Opened && !(absent && scan != ScanLook::Running)))
                &&& absent && self.searching && ended ==> {
                    &&& after.next_scan >= now
                    &&& now <= u64::MAX - 20000 ==> after.next_scan == now + 20000
                    &&& now > u64::MAX - 20000 ==> after.next_scan == u64::MAX
                }
                &&& !(absent && self.searching && ended) ==> after.next_scan == self.next_scan
            }),
    {
    }
}

impl CaptureRetry {
    /// A failure is tried again after the wait, which then doubles but never
    /// gets longer than a minute; a missing permission is looked for again in
    /// two seconds; and a start makes the wait two seconds again.
    pub proof fn law_how_long_until_the_next_try(self, outcome: CaptureTry, now: u64)
        requires
            now <= 0x7FFF_FFFF_FFFF_FFFF,
            self.backoff <= 60000,
        ensures
            ({
                let after = self.after_try(outcome, now);
                &&& after.backoff <= 60000
                &&& outcome == CaptureTry::Failed ==> after.next_try == now + self.backoff
                &&& outcome == CaptureTry::Failed && self.backoff <= 30000 ==> after.backoff == 2
                    * self.backoff
                &&& outcome == CaptureTry::Failed && self.backoff > 30000 ==> after.backoff == 60000
                &&& outcome == CaptureTry::Untrusted ==> after.next_try == now + 2000
                    && after.backoff == self.backoff
                &&& outcome == CaptureTry::Started ==> after.backoff == 2000 && after.next_try
                    == self.next_try
            }),
    {
    }
}

} // verus!
