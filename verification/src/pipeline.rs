use vstd::prelude::*;

use crate::config::Config;
use crate::errors::DeployError;
use crate::text::blank;
use crate::text::is_blank;

verus! {

// ---------------------------------------------------------------------------
// The deploy pipeline: archive, upload, extract, clean up — in that order,
// aborting on the first failure of any step but the best-effort cleanup.
// ---------------------------------------------------------------------------

/// One step of the deploy pipeline.
#[derive(Clone, Copy, Debug, PartialEq, Eq, Structural)]
pub enum DeployStep {
    /// Archive the local apps tree into a scratch archive.
    ArchiveApps,
    /// Archive the local config-home tree into a scratch archive.
    ArchiveCfgHome,
    /// Upload the apps archive to the remote apps directory.
    UploadApps,
    /// Upload the config-home archive to the remote config directory.
    UploadCfgHome,
    /// Unpack and delete the apps archive on the remote host.
    ExtractApps,
    /// Unpack and delete the config-home archive on the remote host.
    ExtractCfgHome,
    /// Delete the two local scratch archives.
    CleanupLocal,
}

/// The fixed order of the pipeline.
pub open spec fn deploy_order() -> Seq<DeployStep> {
    seq![
        DeployStep::ArchiveApps,
        DeployStep::ArchiveCfgHome,
        DeployStep::UploadApps,
        DeployStep::UploadCfgHome,
        DeployStep::ExtractApps,
        DeployStep::ExtractCfgHome,
        DeployStep::CleanupLocal,
    ]
}

/// Whether a failure of this step aborts the pipeline.  Only the local
/// cleanup is best-effort: its failure is ignored.
pub open spec fn step_fatal(s: DeployStep) -> bool {
    !(s is CleanupLocal)
}

/// The steps a run issues, starting at step `i`, when `outcomes[j]` says
/// whether step `j` succeeds: each step runs only after every earlier step
/// has either succeeded or failed harmlessly.
pub open spec fn deploy_trace_from(outcomes: Seq<bool>, i: int) -> Seq<DeployStep>
    decreases deploy_order().len() - i,
{
    if i < 0 || i >= deploy_order().len() {
        Seq::empty()
    } else {
        let s = deploy_order()[i];
        if (i < outcomes.len() && outcomes[i]) || !step_fatal(s) {
            seq![s] + deploy_trace_from(outcomes, i + 1)
        } else {
            seq![s]
        }
    }
}

/// The steps a whole run issues.
pub open spec fn deploy_trace(outcomes: Seq<bool>) -> Seq<DeployStep> {
    deploy_trace_from(outcomes, 0)
}

pub open spec fn deploy_ok_from(outcomes: Seq<bool>, i: int) -> bool
    decreases deploy_order().len() - i,
{
    if i < 0 || i >= deploy_order().len() {
        true
    } else if (i < outcomes.len() && outcomes[i]) || !step_fatal(deploy_order()[i]) {
        deploy_ok_from(outcomes, i + 1)
    } else {
        false
    }
}

/// Whether a whole run succeeds: no fatal step fails.
pub open spec fn deploy_ok(outcomes: Seq<bool>) -> bool {
    deploy_ok_from(outcomes, 0)
}

/// Pipeline ordering: when the steps before `k` succeed and the
/// fatal step `k` fails, exactly the steps up to and including `k` are
/// issued — in particular, a failure of the first remote extraction means
/// the second extraction command is never issued — and the pipeline fails.
pub proof fn lemma_deploy_failure_halts(outcomes: Seq<bool>, k: int)
    requires
        outcomes.len() == deploy_order().len(),
        0 <= k < deploy_order().len(),
        !outcomes[k],
        step_fatal(deploy_order()[k]),
        forall|j: int| 0 <= j < k ==> outcomes[j],
    ensures
        deploy_trace(outcomes) == deploy_order().take(k + 1),
        !deploy_ok(outcomes),
        forall|j: int|
            k < j < deploy_order().len() ==> !deploy_trace(outcomes).contains(deploy_order()[j]),
{
    lemma_deploy_failure_halts_from(outcomes, k, 0);
    assert(deploy_order().subrange(0, k + 1) =~= deploy_order().take(k + 1));
    assert forall|j: int| k < j < deploy_order().len() implies !deploy_trace(outcomes).contains(
        deploy_order()[j],
    ) by {
        if deploy_trace(outcomes).contains(deploy_order()[j]) {
            let idx = choose|idx: int|
                0 <= idx < deploy_trace(outcomes).len() && deploy_trace(outcomes)[idx]
                    == deploy_order()[j];
            assert(deploy_trace(outcomes)[idx] == deploy_order().take(k + 1)[idx]);
            assert(deploy_order().take(k + 1)[idx] == deploy_order()[idx]);
            assert(deploy_order()[idx] != deploy_order()[j]);
        }
    }
}

proof fn lemma_deploy_failure_halts_from(outcomes: Seq<bool>, k: int, i: int)
    requires
        outcomes.len() == deploy_order().len(),
        0 <= i <= k < deploy_order().len(),
        !outcomes[k],
        step_fatal(deploy_order()[k]),
        forall|j: int| i <= j < k ==> outcomes[j],
    ensures
        deploy_trace_from(outcomes, i) == deploy_order().subrange(i, k + 1),
        !deploy_ok_from(outcomes, i),
    decreases k - i,
{
    if i == k {
        assert(deploy_trace_from(outcomes, i) =~= deploy_order().subrange(i, k + 1));
    } else {
        lemma_deploy_failure_halts_from(outcomes, k, i + 1);
        assert(deploy_trace_from(outcomes, i) =~= deploy_order().subrange(i, k + 1));
    }
}

/// Drives one pipeline run.  The caller asks for the next step, performs it
/// (this is where the archiver, the file transfer and the remote commands
/// act), and reports the outcome; the machine decides whether the run goes
/// on.
pub struct DeployPipeline {
    pos: usize,
    failure: Option<DeployError>,
}

impl DeployPipeline {
    /// Index of the next step to issue.
    pub closed spec fn spec_pos(&self) -> int {
        self.pos as int
    }

    /// The error of the fatal step that aborted the run, if one has.
    pub closed spec fn spec_failure(&self) -> Option<DeployError> {
        self.failure
    }

    pub open spec fn wf(&self) -> bool {
        0 <= self.spec_pos() <= deploy_order().len()
    }

    /// Still in progress: not aborted, steps left.
    pub open spec fn running(&self) -> bool {
        self.spec_failure() is None && self.spec_pos() < deploy_order().len()
    }

    pub fn new() -> (r: DeployPipeline)
        ensures
            r.wf(),
            r.spec_pos() == 0,
            r.spec_failure() is None,
    {
        DeployPipeline { pos: 0, failure: None }
    }

    /// The step to perform next, or `None` once the run has finished or
    /// aborted.
    pub fn next_step(&self) -> (r: Option<DeployStep>)
        requires
            self.wf(),
        ensures
            r is Some <==> self.running(),
            r matches Some(s) ==> s == deploy_order()[self.spec_pos()],
    {
        if self.failure.is_some() {
            return None;
        }
        let s = if self.pos == 0 {
            DeployStep::ArchiveApps
        } else if self.pos == 1 {
            DeployStep::ArchiveCfgHome
        } else if self.pos == 2 {
            DeployStep::UploadApps
        } else if self.pos == 3 {
            DeployStep::UploadCfgHome
        } else if self.pos == 4 {
            DeployStep::ExtractApps
        } else if self.pos == 5 {
            DeployStep::ExtractCfgHome
        } else if self.pos == 6 {
            DeployStep::CleanupLocal
        } else {
            return None;
        };
        Some(s)
    }

    /// Records the outcome of the step just issued: success advances, a
    /// fatal failure aborts the whole run, a cleanup failure is ignored.
    pub fn report(&mut self, outcome: Result<(), DeployError>)
        requires
            old(self).wf(),
            old(self).running(),
        ensures
            final(self).wf(),
            outcome is Ok ==> final(self).spec_pos() == old(self).spec_pos() + 1
                && final(self).spec_failure() is None,
            outcome matches Err(e) ==> (step_fatal(deploy_order()[old(self).spec_pos()])
                ==> final(self).spec_failure() == Some(e)
                && final(self).spec_pos() == old(self).spec_pos()),
            outcome is Err && !step_fatal(deploy_order()[old(self).spec_pos()])
                ==> final(self).spec_pos() == old(self).spec_pos() + 1
                && final(self).spec_failure() is None,
    {
        match outcome {
            Ok(_) => {
                self.pos += 1;
            },
            Err(e) => {
                if self.pos == 6 {
                    proof {
                        assert(!step_fatal(deploy_order()[self.spec_pos()]));
                    }
                    self.pos += 1;
                } else {
                    proof {
                        assert(step_fatal(deploy_order()[self.spec_pos()]));
                    }
                    self.failure = Some(e);
                }
            },
        }
    }

    /// The error that aborted the run, if any.
    pub fn aborted(&self) -> (r: &Option<DeployError>)
        ensures
            r == self.spec_failure(),
    {
        &self.failure
    }
}

/// Replays a whole pipeline run against given step outcomes (`true` = the
/// step succeeded), returning the steps issued in order and whether the run
/// as a whole succeeded.
pub fn simulate_deploy(outcomes: &Vec<bool>) -> (r: (Vec<DeployStep>, bool))
    ensures
        r.0@ == deploy_trace(outcomes@),
        r.1 == deploy_ok(outcomes@),
{
    let mut issued: Vec<DeployStep> = Vec::new();
    let mut p = DeployPipeline::new();
    let mut i: usize = 0;
    while i < 7
        invariant
            p.wf(),
            p.spec_failure() is None,
            i == p.spec_pos(),
            i <= 7,
            deploy_order().len() == 7,
            deploy_trace(outcomes@) == issued@ + deploy_trace_from(outcomes@, i as int),
            deploy_ok(outcomes@) == deploy_ok_from(outcomes@, i as int),
        decreases 7 - i,
    {
        let step = match p.next_step() {
            Some(s) => s,
            None => {
                proof {
                    assert(false);
                }
                DeployStep::CleanupLocal
            },
        };
        issued.push(step);
        let ok = i < outcomes.len() && outcomes[i];
        if ok {
            p.report(Ok(()));
        } else {
            let fatal = step != DeployStep::CleanupLocal;
            if fatal {
                proof {
                    assert(deploy_trace_from(outcomes@, i as int) =~= seq![step]);
                }
                return (issued, false);
            }
            p.report(Err(DeployError::Fs { detail: String::new() }));
        }
        proof {
            assert(deploy_trace_from(outcomes@, i as int) =~= seq![step] + deploy_trace_from(
                outcomes@,
                i + 1,
            ));
            assert(issued@ + deploy_trace_from(outcomes@, i + 1) =~= (issued@.drop_last()
                + seq![step]) + deploy_trace_from(outcomes@, i + 1));
        }
        i += 1;
    }
    (issued, true)
}

// ---------------------------------------------------------------------------
// The texts the pipeline hands to the transport
// ---------------------------------------------------------------------------

/// The fixed name of the apps scratch archive.
pub fn apps_archive_name() -> (r: &'static str)
    ensures
        r@ == "apps.tar.gz"@,
{
    "apps.tar.gz"
}

/// The fixed name of the config-home scratch archive.
pub fn cfg_archive_name() -> (r: &'static str)
    ensures
        r@ == "cfgHome.tar.gz"@,
{
    "cfgHome.tar.gz"
}

/// The remote path an uploaded archive lands at.
pub fn remote_archive_path(remote_dir: &String, archive_name: &str) -> (r: String)
    ensures
        r@ == remote_dir@ + seq!['/'] + archive_name@,
{
    proof {
        reveal_strlit("/");
    }
    let mut s = remote_dir.clone();
    s.append("/");
    s.append(archive_name);
    proof {
        assert(seq!['/'] =~= "/"@);
    }
    s
}

/// The remote command that unpacks an uploaded archive in place and then
/// removes it: the `&&` chain deletes the archive only after a successful
/// extraction.
pub fn extract_command(remote_dir: &String, archive_name: &str) -> (r: String)
    ensures
        r@ == "cd "@ + remote_dir@ + " && tar -xzvf "@ + archive_name@ + " && rm -f "@
            + archive_name@,
{
    let mut s = "cd ".to_owned();
    s.append(remote_dir.as_str());
    s.append(" && tar -xzvf ");
    s.append(archive_name);
    s.append(" && rm -f ");
    s.append(archive_name);
    s
}

/// After a plain deploy (not a restart), an explicitly configured, non-blank
/// shutdown command — and only that — is run, as `sh {command}`.  There is
/// no fallback script in this workflow, and the shutdown follows the
/// redeploy rather than preceding it: the two entry points deliberately
/// differ.
pub fn post_deploy_shutdown(cfg: &Config) -> (r: Option<String>)
    ensures
        r is Some <==> (cfg.shutdown_cmd matches Some(c) && !blank(c@)),
        r matches Some(cmd) ==> (cfg.shutdown_cmd matches Some(c) && cmd@ == "sh "@ + c@),
{
    match &cfg.shutdown_cmd {
        Some(c) => {
            if !is_blank(c.as_str()) {
                let mut s = "sh ".to_owned();
                s.append(c.as_str());
                Some(s)
            } else {
                None
            }
        },
        None => None,
    }
}

} // verus!
