use vstd::prelude::*;

use crate::config::Config;
use crate::errors::DeployError;
use crate::text::blank;
use crate::text::is_blank;

verus! {

// ---------------------------------------------------------------------------
// The restart workflow: four stages in strict order.  Each stage must
// succeed before the next begins, except the final log tail, whose failure
// is swallowed.
// ---------------------------------------------------------------------------

/// One stage of the restart workflow.
#[derive(Clone, Copy, Debug, PartialEq, Eq, Structural)]
pub enum RestartStage {
    /// Stop the remote application.
    Shutdown,
    /// Run the whole deploy pipeline.
    Redeploy,
    /// Start the remote application again.
    Startup,
    /// Tail the remote log, best-effort.
    ShowLog,
}

/// The fixed order of the stages.
pub open spec fn restart_order() -> Seq<RestartStage> {
    seq![
        RestartStage::Shutdown,
        RestartStage::Redeploy,
        RestartStage::Startup,
        RestartStage::ShowLog,
    ]
}

/// Whether a failure of this stage halts the workflow.  Tailing the log is
/// best-effort and never load-bearing.
pub open spec fn stage_fatal(s: RestartStage) -> bool {
    !(s is ShowLog)
}

/// The stages a run issues, starting at stage `i`, when `outcomes[j]` says
/// whether stage `j` succeeds.
pub open spec fn restart_trace_from(outcomes: Seq<bool>, i: int) -> Seq<RestartStage>
    decreases restart_order().len() - i,
{
    if i < 0 || i >= restart_order().len() {
        Seq::empty()
    } else {
        let s = restart_order()[i];
        if (i < outcomes.len() && outcomes[i]) || !stage_fatal(s) {
            seq![s] + restart_trace_from(outcomes, i + 1)
        } else {
            seq![s]
        }
    }
}

/// The stages a whole run issues.
pub open spec fn restart_trace(outcomes: Seq<bool>) -> Seq<RestartStage> {
    restart_trace_from(outcomes, 0)
}

pub open spec fn restart_ok_from(outcomes: Seq<bool>, i: int) -> bool
    decreases restart_order().len() - i,
{
    if i < 0 || i >= restart_order().len() {
        true
    } else if (i < outcomes.len() && outcomes[i]) || !stage_fatal(restart_order()[i]) {
        restart_ok_from(outcomes, i + 1)
    } else {
        false
    }
}

/// Whether a whole run succeeds: no fatal stage fails.
pub open spec fn restart_ok(outcomes: Seq<bool>) -> bool {
    restart_ok_from(outcomes, 0)
}

/// Stage gating: when the shutdown stage fails, the redeploy,
/// startup and show-log stages are never issued, and the workflow fails.
pub proof fn lemma_shutdown_failure_gates(outcomes: Seq<bool>)
    requires
        outcomes.len() == restart_order().len(),
        !outcomes[0],
    ensures
        restart_trace(outcomes) == seq![RestartStage::Shutdown],
        !restart_ok(outcomes),
{
    assert(restart_trace(outcomes) =~= seq![RestartStage::Shutdown]);
}

/// The best-effort log tail: when the first three stages
/// succeed, the workflow succeeds and all four stages run, whatever the
/// show-log stage does.
pub proof fn lemma_showlog_best_effort(outcomes: Seq<bool>)
    requires
        outcomes.len() == restart_order().len(),
        outcomes[0],
        outcomes[1],
        outcomes[2],
    ensures
        restart_ok(outcomes),
        restart_trace(outcomes) == restart_order(),
{
    assert(restart_trace_from(outcomes, 4) =~= Seq::<RestartStage>::empty());
    assert(restart_ok_from(outcomes, 4));
    assert(restart_trace_from(outcomes, 3) =~= seq![RestartStage::ShowLog]);
    assert(restart_ok_from(outcomes, 3));
    assert(restart_trace_from(outcomes, 2) =~= seq![RestartStage::Startup, RestartStage::ShowLog]);
    assert(restart_ok_from(outcomes, 2));
    assert(restart_trace_from(outcomes, 1) =~= seq![
        RestartStage::Redeploy,
        RestartStage::Startup,
        RestartStage::ShowLog,
    ]);
    assert(restart_ok_from(outcomes, 1));
    assert(restart_trace(outcomes) =~= restart_order());
}

/// Drives one restart run, stage by stage: the caller performs each issued
/// stage on the one open session and reports how it went.
pub struct RestartWorkflow {
    pos: usize,
    failure: Option<DeployError>,
}

impl RestartWorkflow {
    /// Index of the next stage to issue.
    pub closed spec fn spec_pos(&self) -> int {
        self.pos as int
    }

    /// The error of the fatal stage that halted the run, if one has.
    pub closed spec fn spec_failure(&self) -> Option<DeployError> {
        self.failure
    }

    pub open spec fn wf(&self) -> bool {
        0 <= self.spec_pos() <= restart_order().len()
    }

    /// Still in progress: not halted, stages left.
    pub open spec fn running(&self) -> bool {
        self.spec_failure() is None && self.spec_pos() < restart_order().len()
    }

    pub fn new() -> (r: RestartWorkflow)
        ensures
            r.wf(),
            r.spec_pos() == 0,
            r.spec_failure() is None,
    {
        RestartWorkflow { pos: 0, failure: None }
    }

    /// The stage to perform next, or `None` once the run has finished or
    /// halted.
    pub fn next_stage(&self) -> (r: Option<RestartStage>)
        requires
            self.wf(),
        ensures
            r is Some <==> self.running(),
            r matches Some(s) ==> s == restart_order()[self.spec_pos()],
    {
        if self.failure.is_some() {
            return None;
        }
        let s = if self.pos == 0 {
            RestartStage::Shutdown
        } else if self.pos == 1 {
            RestartStage::Redeploy
        } else if self.pos == 2 {
            RestartStage::Startup
        } else if self.pos == 3 {
            RestartStage::ShowLog
        } else {
            return None;
        };
        Some(s)
    }

    /// Records the outcome of the stage just issued: success advances, a
    /// failure of shutdown, redeploy or startup halts the run, a show-log
    /// failure is swallowed.
    pub fn report(&mut self, outcome: Result<(), DeployError>)
        requires
            old(self).wf(),
            old(self).running(),
        ensures
            final(self).wf(),
            outcome is Ok ==> final(self).spec_pos() == old(self).spec_pos() + 1
                && final(self).spec_failure() is None,
            outcome matches Err(e) ==> (stage_fatal(restart_order()[old(self).spec_pos()])
                ==> final(self).spec_failure() == Some(e)
                && final(self).spec_pos() == old(self).spec_pos()),
            outcome is Err && !stage_fatal(restart_order()[old(self).spec_pos()])
                ==> final(self).spec_pos() == old(self).spec_pos() + 1
                && final(self).spec_failure() is None,
    {
        match outcome {
            Ok(_) => {
                self.pos += 1;
            },
            Err(e) => {
                if self.pos == 3 {
                    proof {
                        assert(!stage_fatal(restart_order()[self.spec_pos()]));
                    }
                    self.pos += 1;
                } else {
                    proof {
                        assert(stage_fatal(restart_order()[self.spec_pos()]));
                    }
                    self.failure = Some(e);
                }
            },
        }
    }

    /// The error that halted the run, if any.
    pub fn halted(&self) -> (r: &Option<DeployError>)
        ensures
            r == self.spec_failure(),
    {
        &self.failure
    }
}

/// Replays a whole restart run against given stage outcomes (`true` = the
/// stage succeeded), returning the stages issued in order and whether the
/// run as a whole succeeded.
pub fn simulate_restart(outcomes: &Vec<bool>) -> (r: (Vec<RestartStage>, bool))
    ensures
        r.0@ == restart_trace(outcomes@),
        r.1 == restart_ok(outcomes@),
{
    let mut issued: Vec<RestartStage> = Vec::new();
    let mut w = RestartWorkflow::new();
    let mut i: usize = 0;
    while i < 4
        invariant
            w.wf(),
            w.spec_failure() is None,
            i == w.spec_pos(),
            i <= 4,
            restart_order().len() == 4,
            restart_trace(outcomes@) == issued@ + restart_trace_from(outcomes@, i as int),
            restart_ok(outcomes@) == restart_ok_from(outcomes@, i as int),
        decreases 4 - i,
    {
        let stage = match w.next_stage() {
            Some(s) => s,
            None => {
                proof {
                    assert(false);
                }
                RestartStage::ShowLog
            },
        };
        issued.push(stage);
        let ok = i < outcomes.len() && outcomes[i];
        if ok {
            w.report(Ok(()));
        } else {
            let fatal = stage != RestartStage::ShowLog;
            if fatal {
                proof {
                    assert(restart_trace_from(outcomes@, i as int) =~= seq![stage]);
                }
                return (issued, false);
            }
            w.report(Err(DeployError::Fs { detail: String::new() }));
        }
        proof {
            assert(restart_trace_from(outcomes@, i as int) =~= seq![stage] + restart_trace_from(
                outcomes@,
                i + 1,
            ));
            assert(issued@ + restart_trace_from(outcomes@, i + 1) =~= (issued@.drop_last()
                + seq![stage]) + restart_trace_from(outcomes@, i + 1));
        }
        i += 1;
    }
    (issued, true)
}

// ---------------------------------------------------------------------------
// Resolving each stage's command
// ---------------------------------------------------------------------------

/// The command a stage runs: `sh {explicit}` for a configured, non-blank
/// override; otherwise the stage's conventional fallback script through a
/// login shell, so that inherited PATH lookup finds it.
pub open spec fn resolved_command(explicit: Option<Seq<char>>, fallback: Seq<char>) -> Seq<char> {
    match explicit {
        Some(c) => if !blank(c) {
            "sh "@ + c
        } else {
            "bash -lc "@ + fallback
        },
        None => "bash -lc "@ + fallback,
    }
}

/// Resolves one stage's explicit-or-fallback command.
pub fn resolve_stage_command(explicit: Option<&String>, fallback: &str) -> (cmd: String)
    ensures
        cmd@ == resolved_command(crate::config::opt_ref_view(explicit), fallback@),
{
    match explicit {
        Some(c) => {
            if !is_blank(c.as_str()) {
                let mut s = "sh ".to_owned();
                s.append(c.as_str());
                return s;
            }
        },
        None => {},
    }
    let mut s = "bash -lc ".to_owned();
    s.append(fallback);
    s
}

/// The remote command one restart stage issues, from the configuration:
/// `None` for the redeploy stage, which runs the deploy pipeline instead of
/// a single remote command.
pub fn stage_command(cfg: &Config, stage: RestartStage) -> (r: Option<String>)
    ensures
        r is None <==> stage is Redeploy,
        stage is Shutdown ==> (r matches Some(c) && c@ == resolved_command(
            crate::config::opt_str_view(cfg.shutdown_cmd),
            "shutdown.sh"@,
        )),
        stage is Startup ==> (r matches Some(c) && c@ == resolved_command(
            crate::config::opt_str_view(cfg.startup_cmd),
            "startup.sh"@,
        )),
        stage is ShowLog ==> (r matches Some(c) && c@ == resolved_command(
            crate::config::opt_str_view(cfg.showlog_cmd),
            "showLogs.sh"@,
        )),
{
    match stage {
        RestartStage::Shutdown => Some(resolve_stage_command(cfg.shutdown_cmd.as_ref(), "shutdown.sh")),
        RestartStage::Redeploy => None,
        RestartStage::Startup => Some(resolve_stage_command(cfg.startup_cmd.as_ref(), "startup.sh")),
        RestartStage::ShowLog => Some(resolve_stage_command(cfg.showlog_cmd.as_ref(), "showLogs.sh")),
    }
}

} // verus!
