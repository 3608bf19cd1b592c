//! The guard state machine: per rule, it watches the effective handler,
//! reports drift, repairs it while repair is allowed, and falls back to
//! monitor-only mode with bounded exponential backoff once the OS rejects a
//! repair.
//!
//! The loop around it performs the reads and writes; the machine itself
//! only decides.  Policy during a backoff window: the effective value is
//! still checked every cycle (so a match can clear the backoff early), only
//! the repair write is withheld.

use vstd::prelude::*;

verus! {

#[derive(Debug, Clone, Copy, PartialEq, Eq, Structural)]
pub enum GuardStatus {
    Okay,
    Tampered,
    Applied,
    Rejected,
}

#[derive(Debug, Clone, Copy, PartialEq, Eq, Structural)]
pub enum GuardMode {
    AutoRestore,
    MonitorOnly,
}

/// One observable event of the guard, as the presentation layer logs it.
#[derive(Debug, Clone)]
pub struct GuardEvent {
    pub status: GuardStatus,
    pub effective: Option<String>,
    pub target: String,
    pub mode: Option<GuardMode>,
    pub backoff_seconds: Option<u64>,
}

/// The per-rule state the guard loop owns: repair failures so far, the
/// deadline before which no repair is retried, whether only the operator
/// may repair, and the last emission for de-duplication.
#[derive(Debug, Clone)]
pub struct GuardState {
    pub failures: u32,
    pub next_allowed_ms: u128,
    pub manual_only: bool,
    pub last_emitted: Option<(GuardStatus, Option<String>)>,
}

/// `GuardState` over views, for stating transitions.
pub struct GuardStateModel {
    pub failures: u32,
    pub next_allowed_ms: u128,
    pub manual_only: bool,
    pub last_emitted: Option<(GuardStatus, Option<Seq<char>>)>,
}

/// `GuardEvent` over views.
pub struct GuardEventModel {
    pub status: GuardStatus,
    pub effective: Option<Seq<char>>,
    pub target: Seq<char>,
    pub mode: Option<GuardMode>,
    pub backoff_seconds: Option<u64>,
}

pub open spec fn opt_str_view(o: Option<String>) -> Option<Seq<char>> {
    match o {
        Some(s) => Some(s@),
        None => None,
    }
}

impl GuardState {
    pub open spec fn model(self) -> GuardStateModel {
        (GuardStateModel {
            failures: self.failures,
            next_allowed_ms: self.next_allowed_ms,
            manual_only: self.manual_only,
            last_emitted: match self.last_emitted {
                Some((st, eff)) => Some((st, opt_str_view(eff))),
                None => None,
            },
        })
    }
}

impl GuardEvent {
    pub open spec fn model(self) -> GuardEventModel {
        (GuardEventModel {
            status: self.status,
            effective: opt_str_view(self.effective),
            target: self.target@,
            mode: self.mode,
            backoff_seconds: self.backoff_seconds,
        })
    }
}

pub open spec fn opt_ev_model(o: Option<GuardEvent>) -> Option<GuardEventModel> {
    match o {
        Some(ev) => Some(ev.model()),
        None => None,
    }
}

/// Whether the observed effective handler is the rule's target.
pub open spec fn spec_effective_matches(eff: Option<Seq<char>>, target: Seq<char>) -> bool {
    match eff {
        Some(e) => e == target,
        None => false,
    }
}

/// The backoff after `failures` rejected repairs:
/// `min(30 * 2^(min(failures - 1, 4)), 600)` seconds, none before the
/// first failure.
pub open spec fn spec_backoff_seconds(failures: u32) -> u64 {
    if failures == 0 {
        0
    } else {
        let shift = if failures - 1 < 4 {
            (failures - 1) as u64
        } else {
            4u64
        };
        let secs = (30 * (1u64 << shift)) as u64;
        if secs < 600 {
            secs
        } else {
            600
        }
    }
}

/// The deadline `secs` seconds after `now_ms`, saturating.
pub open spec fn spec_backoff_deadline(now_ms: u128, secs: u64) -> u128 {
    if now_ms + secs * 1000 > u128::MAX {
        u128::MAX
    } else {
        (now_ms + secs * 1000) as u128
    }
}

/// The observation step: clears the backoff and reports `Okay` on a match;
/// otherwise reports `Tampered`, tagged with the mode that follows, and
/// decides whether a repair write may be attempted now.  Every report is
/// de-duplicated against the last emission.
pub open spec fn spec_observe(st: GuardStateModel, eff: Option<Seq<char>>, target: Seq<char>,
    monitor_only: bool, now_ms: u128) -> (GuardStateModel, Option<GuardEventModel>, bool) {
    if spec_effective_matches(eff, target) {
        let ev = if st.last_emitted != Some((GuardStatus::Okay, eff)) {
            Some(GuardEventModel {
                status: GuardStatus::Okay,
                effective: eff,
                target: target,
                mode: None,
                backoff_seconds: None,
            })
        } else {
            None
        };
        (GuardStateModel {
            failures: 0,
            next_allowed_ms: 0,
            manual_only: false,
            last_emitted: Some((GuardStatus::Okay, eff)),
        }, ev, false)
    } else {
        let manual = monitor_only || st.manual_only;
        let mode = if manual {
            GuardMode::MonitorOnly
        } else {
            GuardMode::AutoRestore
        };
        let ev = if st.last_emitted != Some((GuardStatus::Tampered, eff)) {
            Some(GuardEventModel {
                status: GuardStatus::Tampered,
                effective: eff,
                target: target,
                mode: Some(mode),
                backoff_seconds: None,
            })
        } else {
            None
        };
        ((GuardStateModel { last_emitted: Some((GuardStatus::Tampered, eff)), ..st }), ev, !manual
            && now_ms >= st.next_allowed_ms)
    }
}

/// The step after a repair write: a match reports `Applied` and clears the
/// backoff; a mismatch counts the failure, reports `Rejected` with the new
/// backoff, and turns the rule manual-only.
pub open spec fn spec_after_repair(st: GuardStateModel, after: Option<Seq<char>>,
    target: Seq<char>, now_ms: u128) -> (GuardStateModel, Option<GuardEventModel>) {
    if spec_effective_matches(after, target) {
        let ev = if st.last_emitted != Some((GuardStatus::Applied, after)) {
            Some(GuardEventModel {
                status: GuardStatus::Applied,
                effective: after,
                target: target,
                mode: None,
                backoff_seconds: None,
            })
        } else {
            None
        };
        (GuardStateModel {
            failures: 0,
            next_allowed_ms: 0,
            manual_only: false,
            last_emitted: Some((GuardStatus::Applied, after)),
        }, ev)
    } else {
        let failures = if st.failures == u32::MAX {
            st.failures
        } else {
            (st.failures + 1) as u32
        };
        let secs = spec_backoff_seconds(failures);
        let ev = if st.last_emitted != Some((GuardStatus::Rejected, after)) {
            Some(GuardEventModel {
                status: GuardStatus::Rejected,
                effective: after,
                target: target,
                mode: Some(GuardMode::MonitorOnly),
                backoff_seconds: Some(secs),
            })
        } else {
            None
        };
        (GuardStateModel {
            failures: failures,
            next_allowed_ms: spec_backoff_deadline(now_ms, secs),
            manual_only: true,
            last_emitted: Some((GuardStatus::Rejected, after)),
        }, ev)
    }
}

fn opt_str_eq(a: &Option<String>, b: &Option<String>) -> (r: bool)
    ensures
        r == (opt_str_view(*a) == opt_str_view(*b)),
{
    if a.is_some() && b.is_some() {
        let x = a.as_ref().unwrap();
        let y = b.as_ref().unwrap();
        x.eq(y)
    } else {
        a.is_none() && b.is_none()
    }
}

fn same_last(last: &Option<(GuardStatus, Option<String>)>, status: GuardStatus, eff: &Option<
    String,
>) -> (r: bool)
    ensures
        r == (match *last {
            Some((s, ref e)) => Some((s, opt_str_view(*e))) == Some(
                (status, opt_str_view(*eff)),
            ),
            None => false,
        }),
{
    match last {
        Some((s, e)) => *s == status && opt_str_eq(e, eff),
        None => false,
    }
}

/// The exact backoff schedule.
pub fn backoff_seconds(failures: u32) -> (r: u64)
    ensures
        r == spec_backoff_seconds(failures),
{
    if failures == 0 {
        return 0;
    }
    let shift: u64 = if failures - 1 < 4 {
        (failures - 1) as u64
    } else {
        4
    };
    proof {
        assert(1u64 << shift <= 16 && 1u64 << shift >= 1) by (bit_vector)
            requires
                shift <= 4,
        ;
    }
    let secs = 30 * (1u64 << shift);
    if secs < 600 {
        secs
    } else {
        600
    }
}

impl GuardState {
    /// A fresh rule state: no failures, no backoff, nothing emitted yet.
    pub fn new() -> (r: GuardState)
        ensures
            r.failures == 0,
            r.next_allowed_ms == 0,
            !r.manual_only,
            r.last_emitted is None,
    {
        GuardState { failures: 0, next_allowed_ms: 0, manual_only: false, last_emitted: None }
    }

    /// One observation of the effective handler.  Returns the event to
    /// report, if it is not a duplicate, and whether the loop should
    /// attempt a repair write now.
    pub fn observe(&mut self, effective: Option<String>, target: &String, monitor_only: bool,
        now_ms: u128) -> (r: (Option<GuardEvent>, bool))
        ensures
            ({
                let (m, e, rep) = spec_observe(
                    old(self).model(),
                    opt_str_view(effective),
                    target@,
                    monitor_only,
                    now_ms,
                );
                final(self).model() == m && opt_ev_model(r.0) == e && r.1 == rep
            }),
    {
        let matches_target = match &effective {
            Some(e) => e.eq(target),
            None => false,
        };
        if matches_target {
            let dup = same_last(&self.last_emitted, GuardStatus::Okay, &effective);
            self.failures = 0;
            self.next_allowed_ms = 0;
            self.manual_only = false;
            self.last_emitted = Some((GuardStatus::Okay, clone_opt_string(&effective)));
            let ev = if !dup {
                Some(GuardEvent {
                    status: GuardStatus::Okay,
                    effective,
                    target: target.clone(),
                    mode: None,
                    backoff_seconds: None,
                })
            } else {
                None
            };
            (ev, false)
        } else {
            let manual = monitor_only || self.manual_only;
            let mode = if manual {
                GuardMode::MonitorOnly
            } else {
                GuardMode::AutoRestore
            };
            let dup = same_last(&self.last_emitted, GuardStatus::Tampered, &effective);
            let repair = !manual && now_ms >= self.next_allowed_ms;
            self.last_emitted = Some((GuardStatus::Tampered, clone_opt_string(&effective)));
            let ev = if !dup {
                Some(GuardEvent {
                    status: GuardStatus::Tampered,
                    effective,
                    target: target.clone(),
                    mode: Some(mode),
                    backoff_seconds: None,
                })
            } else {
                None
            };
            (ev, repair)
        }
    }

    /// The follow-up after a repair write, with the effective handler as
    /// re-read afterwards.
    pub fn after_repair(&mut self, after: Option<String>, target: &String, now_ms: u128) -> (r:
        Option<GuardEvent>)
        ensures
            ({
                let (m, e) = spec_after_repair(
                    old(self).model(),
                    opt_str_view(after),
                    target@,
                    now_ms,
                );
                final(self).model() == m && opt_ev_model(r) == e
            }),
    {
        let matches_target = match &after {
            Some(e) => e.eq(target),
            None => false,
        };
        if matches_target {
            let dup = same_last(&self.last_emitted, GuardStatus::Applied, &after);
            self.failures = 0;
            self.next_allowed_ms = 0;
            self.manual_only = false;
            self.last_emitted = Some((GuardStatus::Applied, clone_opt_string(&after)));
            if !dup {
                Some(GuardEvent {
                    status: GuardStatus::Applied,
                    effective: after,
                    target: target.clone(),
                    mode: None,
                    backoff_seconds: None,
                })
            } else {
                None
            }
        } else {
            let failures = if self.failures == u32::MAX {
                self.failures
            } else {
                self.failures + 1
            };
            let secs = backoff_seconds(failures);
            let dup = same_last(&self.last_emitted, GuardStatus::Rejected, &after);
            self.failures = failures;
            self.next_allowed_ms = now_ms.saturating_add(secs as u128 * 1000);
            self.manual_only = true;
            self.last_emitted = Some((GuardStatus::Rejected, clone_opt_string(&after)));
            if !dup {
                Some(GuardEvent {
                    status: GuardStatus::Rejected,
                    effective: after,
                    target: target.clone(),
                    mode: Some(GuardMode::MonitorOnly),
                    backoff_seconds: Some(secs),
                })
            } else {
                None
            }
        }
    }
}

fn clone_opt_string(o: &Option<String>) -> (r: Option<String>)
    ensures
        opt_str_view(r) == opt_str_view(*o),
{
    match o {
        Some(s) => Some(s.clone()),
        None => None,
    }
}

/// Two consecutive observations of the same (status, effective) pair emit
/// the event at most once: the second observation is always silent.
pub proof fn lemma_observe_dedup(st: GuardStateModel, eff: Option<Seq<char>>, target: Seq<char>,
    monitor_only: bool, now1: u128, now2: u128)
    ensures
        ({
            let (m1, e1, r1) = spec_observe(st, eff, target, monitor_only, now1);
            let (m2, e2, r2) = spec_observe(m1, eff, target, monitor_only, now2);
            e2 is None
        }),
{
}

/// A match clears the backoff entirely, reports at most an `Okay`, and
/// never asks for a repair write.
pub proof fn lemma_observe_ok(st: GuardStateModel, eff: Option<Seq<char>>, target: Seq<char>,
    monitor_only: bool, now_ms: u128)
    requires
        spec_effective_matches(eff, target),
    ensures
        ({
            let (m, e, rep) = spec_observe(st, eff, target, monitor_only, now_ms);
            !rep && m.failures == 0 && m.next_allowed_ms == 0 && !m.manual_only && (match e {
                Some(ev) => ev.status == GuardStatus::Okay && st.last_emitted != Some(
                    (GuardStatus::Okay, eff),
                ),
                None => st.last_emitted == Some((GuardStatus::Okay, eff)),
            })
        }),
{
}

/// A fresh mismatch with repair allowed reports exactly one `Tampered` in
/// auto-restore mode and asks for the repair; a successful repair then
/// reports exactly one `Applied` and clears the backoff.
pub proof fn lemma_tamper_then_applied(st: GuardStateModel, eff: Option<Seq<char>>,
    after: Option<Seq<char>>, target: Seq<char>, now_ms: u128)
    requires
        !spec_effective_matches(eff, target),
        spec_effective_matches(after, target),
        !st.manual_only,
        now_ms >= st.next_allowed_ms,
        st.last_emitted != Some((GuardStatus::Tampered, eff)),
    ensures
        ({
            let (m1, e1, rep) = spec_observe(st, eff, target, false, now_ms);
            let (m2, e2) = spec_after_repair(m1, after, target, now_ms);
            rep && (match e1 {
                Some(ev) => ev.status == GuardStatus::Tampered && ev.mode == Some(
                    GuardMode::AutoRestore,
                ),
                None => false,
            }) && (match e2 {
                Some(ev) => ev.status == GuardStatus::Applied,
                None => false,
            }) && m2.failures == 0 && m2.next_allowed_ms == 0 && !m2.manual_only
        }),
{
}

/// A rejected repair reports exactly one `Rejected` with the computed
/// backoff, turns the rule manual-only, and every later observation within
/// that state withholds the repair write.
pub proof fn lemma_rejected_backoff(st: GuardStateModel, after: Option<Seq<char>>,
    target: Seq<char>, now_ms: u128)
    requires
        !spec_effective_matches(after, target),
        st.last_emitted != Some((GuardStatus::Rejected, after)),
    ensures
        ({
            let (m, e) = spec_after_repair(st, after, target, now_ms);
            m.manual_only && (match e {
                Some(ev) => ev.status == GuardStatus::Rejected && ev.backoff_seconds == Some(
                    spec_backoff_seconds(m.failures),
                ) && ev.mode == Some(GuardMode::MonitorOnly),
                None => false,
            }) && (forall|eff2: Option<Seq<char>>, t2: Seq<char>, mo2: bool, now2: u128|
                !(#[trigger] spec_observe(m, eff2, t2, mo2, now2)).2)
        }),
{
}

/// An `Okay` observed after a rejection clears manual-only mode and the
/// failure count.
pub proof fn lemma_ok_clears_rejection(st: GuardStateModel, after: Option<Seq<char>>,
    eff: Option<Seq<char>>, target: Seq<char>, now1: u128, now2: u128, monitor_only: bool)
    requires
        !spec_effective_matches(after, target),
        spec_effective_matches(eff, target),
    ensures
        ({
            let (m1, e1) = spec_after_repair(st, after, target, now1);
            let (m2, e2, rep) = spec_observe(m1, eff, target, monitor_only, now2);
            m2.failures == 0 && !m2.manual_only && m2.next_allowed_ms == 0 && !rep
        }),
{
}

} // verus!
