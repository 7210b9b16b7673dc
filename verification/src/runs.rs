//! The registry of agent runs in progress: one live run per session, and
//! runs that can be cancelled by id.
use vstd::prelude::*;
use crate::strmap::StrMap;
use crate::text::{owned, str_is};

verus! {

/// An agent run in progress: its session, and whether it was cancelled.
pub struct ActiveRun {
    pub session_id: String,
    pub cancelled: bool,
}

/// The runs in progress, by run id.
pub struct AgentRunRegistry {
    runs: StrMap<ActiveRun>,
}

impl View for AgentRunRegistry {
    type V = Map<Seq<char>, ActiveRun>;

    closed spec fn view(&self) -> Map<Seq<char>, ActiveRun> {
        self.runs@
    }
}

/// Whether a run of a session is in progress and not cancelled.
pub open spec fn live_run(m: Map<Seq<char>, ActiveRun>, run: Seq<char>, session: Seq<char>) -> bool {
    m.contains_key(run) && m[run].session_id@ == session && !m[run].cancelled
}

/// Whether a session has a live run.
pub open spec fn session_busy(m: Map<Seq<char>, ActiveRun>, session: Seq<char>) -> bool {
    exists|run: Seq<char>| #[trigger] live_run(m, run, session)
}

/// Whether every session has at most one live run.
pub open spec fn one_live_run_per_session(m: Map<Seq<char>, ActiveRun>) -> bool {
    forall|a: Seq<char>, b: Seq<char>, s: Seq<char>|
        #[trigger] live_run(m, a, s) && #[trigger] live_run(m, b, s) ==> a == b
}

impl AgentRunRegistry {
    /// No runs in progress.
    pub fn new() -> (r: Self)
        ensures
            r@ == Map::<Seq<char>, ActiveRun>::empty(),
    {
        AgentRunRegistry { runs: StrMap::new() }
    }

    /// Whether a session has a live run.
    pub fn has_live_run(&self, session_id: &str) -> (r: bool)
        ensures
            r == session_busy(self@, session_id@),
    {
        let n = self.runs.key_count();
        let mut i: usize = 0;
        while i < n
            invariant
                i <= n,
                n == self.runs.key_list().len(),
                forall|j: int|
                    0 <= j < i ==> !live_run(self@, #[trigger] self.runs.key_list()[j], session_id@),
            decreases n - i,
        {
            let (k, run) = self.runs.entry_at(i);
            if !run.cancelled && str_is(run.session_id.as_str(), session_id) {
                assert(live_run(self@, self.runs.key_list()[i as int], session_id@));
                return true;
            }
            i += 1;
        }
        proof {
            if session_busy(self@, session_id@) {
                let run = choose|run: Seq<char>| #[trigger] live_run(self@, run, session_id@);
                let j = choose|j: int| 0 <= j < self.runs.key_list().len() && self.runs.key_list()[j] == run;
                assert(!live_run(self@, self.runs.key_list()[j], session_id@));
            }
        }
        false
    }

    /// Starts a run of a session, unless the session already has a live
    /// run.
    pub fn start_run(&mut self, run_id: &str, session_id: &str) -> (r: Result<(), String>)
        ensures
            session_busy(old(self)@, session_id@) ==> (r matches Err(e) && e@
                == "当前会话已有任务正在运行，请等待完成或取消。"@ && final(self)@ == old(self)@),
            !session_busy(old(self)@, session_id@) ==> (r is Ok && final(self)@.dom() == old(self)@.dom().insert(
                run_id@,
            ) && live_run(final(self)@, run_id@, session_id@) && forall|k: Seq<char>|
                k != run_id@ && #[trigger] old(self)@.contains_key(k) ==> final(self)@[k] == old(self)@[k]),
            one_live_run_per_session(old(self)@) ==> one_live_run_per_session(final(self)@),
    {
        if self.has_live_run(session_id) {
            return Err(owned("当前会话已有任务正在运行，请等待完成或取消。"));
        }
        let ghost m0 = self@;
        self.runs.insert(run_id, ActiveRun { session_id: owned(session_id), cancelled: false });
        proof {
            if one_live_run_per_session(m0) {
                assert forall|a: Seq<char>, b: Seq<char>, s: Seq<char>|
                    #[trigger] live_run(self@, a, s) && #[trigger] live_run(self@, b, s) implies a == b by {
                    if a != run_id@ {
                        assert(live_run(m0, a, s));
                    }
                    if b != run_id@ {
                        assert(live_run(m0, b, s));
                    }
                    if a != run_id@ && b == run_id@ {
                        assert(session_busy(m0, session_id@));
                    }
                    if a == run_id@ && b != run_id@ {
                        assert(session_busy(m0, session_id@));
                    }
                }
            }
        }
        Ok(())
    }

    /// Ends a run.
    pub fn finish_run(&mut self, run_id: &str)
        ensures
            final(self)@ == old(self)@.remove(run_id@),
            one_live_run_per_session(old(self)@) ==> one_live_run_per_session(final(self)@),
    {
        let ghost m0 = self@;
        self.runs.remove(run_id);
        proof {
            if one_live_run_per_session(m0) {
                assert forall|a: Seq<char>, b: Seq<char>, s: Seq<char>|
                    #[trigger] live_run(self@, a, s) && #[trigger] live_run(self@, b, s) implies a == b by {
                    assert(live_run(m0, a, s) && live_run(m0, b, s));
                }
            }
        }
    }

    /// Cancels a run in progress; an unknown run is an error.
    pub fn cancel_run(&mut self, run_id: &str) -> (r: Result<(), String>)
        ensures
            old(self)@.contains_key(run_id@) ==> (r is Ok && final(self)@.dom() == old(self)@.dom()
                && final(self)@[run_id@].cancelled && final(self)@[run_id@].session_id@ == old(
                self,
            )@[run_id@].session_id@ && forall|k: Seq<char>|
                k != run_id@ && #[trigger] old(self)@.contains_key(k) ==> final(self)@[k] == old(self)@[k]),
            !old(self)@.contains_key(run_id@) ==> (r matches Err(e) && e@ == "未找到正在运行的 Agent Run"@
                && final(self)@ == old(self)@),
            one_live_run_per_session(old(self)@) ==> one_live_run_per_session(final(self)@),
    {
        let session = match self.runs.get_ref(run_id) {
            Some(run) => run.session_id.clone(),
            None => return Err(owned("未找到正在运行的 Agent Run")),
        };
        let ghost m0 = self@;
        self.runs.insert(run_id, ActiveRun { session_id: session, cancelled: true });
        proof {
            assert(self@.dom() =~= m0.dom());
            if one_live_run_per_session(m0) {
                assert forall|a: Seq<char>, b: Seq<char>, s: Seq<char>|
                    #[trigger] live_run(self@, a, s) && #[trigger] live_run(self@, b, s) implies a == b by {
                    assert(live_run(m0, a, s) && live_run(m0, b, s));
                }
            }
        }
        Ok(())
    }

    /// Whether a run was cancelled (false for an unknown run).
    pub fn is_cancelled(&self, run_id: &str) -> (r: bool)
        ensures
            r == (self@.contains_key(run_id@) && self@[run_id@].cancelled),
    {
        match self.runs.get_ref(run_id) {
            Some(run) => run.cancelled,
            None => false,
        }
    }
}

/// Once a session's live run is cancelled or finished, the session can
/// start a run again.
pub proof fn lemma_session_free_after_run_ends(m: Map<Seq<char>, ActiveRun>, run: Seq<char>, session: Seq<char>)
    requires
        one_live_run_per_session(m),
        live_run(m, run, session),
    ensures
        !session_busy(m.remove(run), session),
        forall|c: ActiveRun| c.cancelled ==> !session_busy(#[trigger] m.insert(run, c), session),
{
    assert forall|r: Seq<char>| !#[trigger] live_run(m.remove(run), r, session) by {
        if live_run(m.remove(run), r, session) {
            assert(live_run(m, r, session));
        }
    }
    assert forall|c: ActiveRun| c.cancelled implies !session_busy(#[trigger] m.insert(run, c), session) by {
        assert forall|r: Seq<char>| !#[trigger] live_run(m.insert(run, c), r, session) by {
            if live_run(m.insert(run, c), r, session) {
                assert(r != run);
                assert(live_run(m, r, session));
            }
        }
    }
}

} // verus!
