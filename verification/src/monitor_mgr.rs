//! Bookkeeping of the monitor pool: which workspaces currently have a monitor
//! child recorded. The decisions (spawn, skip, refuse, terminate) are made
//! here; the process control itself happens outside and reports back through
//! `confirm_started` and `terminate_entry`.

use vstd::prelude::*;
use crate::model::{WorkspaceInformation, str_eq};

verus! {

pub struct MonitorManagerError {
    pub msg: String,
}

impl MonitorManagerError {
    pub fn new(msg: String) -> (r: MonitorManagerError)
        ensures
            r.msg == msg,
    {
        MonitorManagerError { msg }
    }
}

/// What starting a monitor for a workspace amounts to.
pub enum StartPlan {
    /// The workspace has no remote workspaces: starting is a no-op success.
    NoRemotes,
    /// A monitor for this workspace is already recorded: starting fails.
    AlreadyRunning,
    /// A child must be spawned and handed the workspace description.
    Spawn,
}

/// The table of workspaces with a recorded monitor child.
pub struct MonitorManager {
    names: Vec<String>,
}

pub open spec fn contains_monitor(s: Seq<Seq<char>>, name: Seq<char>) -> bool {
    exists|i: int| 0 <= i < s.len() && s[i] == name
}

impl View for MonitorManager {
    type V = Seq<Seq<char>>;

    closed spec fn view(&self) -> Seq<Seq<char>> {
        self.names@.map_values(|n: String| n@)
    }
}

impl MonitorManager {
    /// The recorded names are pairwise distinct.
    pub open spec fn wf(&self) -> bool {
        forall|i: int, j: int| 0 <= i < j < self@.len() ==> self@[i] != self@[j]
    }

    /// An empty table: no monitor is recorded.
    pub fn init() -> (r: MonitorManager)
        ensures
            r@ == Seq::<Seq<char>>::empty(),
            r.wf(),
    {
        let r = MonitorManager { names: Vec::new() };
        proof {
            assert(r@ =~= Seq::<Seq<char>>::empty());
        }
        r
    }

    /// Whether a monitor is recorded for `name`.
    pub fn contains(&self, name: &String) -> (r: bool)
        ensures
            r == contains_monitor(self@, name@),
    {
        let n = self.names.len();
        let mut i: usize = 0;
        while i < n
            invariant
                i <= n,
                n == self.names.len(),
                forall|k: int| 0 <= k < i as int ==> self@[k] != name@,
            decreases n - i,
        {
            proof {
                assert(self@[i as int] == self.names@[i as int]@);
            }
            if str_eq(&self.names[i], name) {
                return true;
            }
            i = i + 1;
        }
        false
    }

    /// The decision `startMonitor` makes: a workspace without remote
    /// workspaces needs no child; a recorded workspace refuses a second
    /// child; anything else calls for a spawn.
    pub fn start_plan(&self, workspace: &WorkspaceInformation) -> (p: StartPlan)
        ensures
            (p is NoRemotes) == (workspace@.remotes.len() == 0),
            (p is AlreadyRunning) == (workspace@.remotes.len() > 0 && contains_monitor(
                self@,
                workspace@.name,
            )),
            (p is Spawn) == (workspace@.remotes.len() > 0 && !contains_monitor(
                self@,
                workspace@.name,
            )),
    {
        if workspace.remote_workspaces.len() == 0 {
            StartPlan::NoRemotes
        } else if self.contains(&workspace.name) {
            StartPlan::AlreadyRunning
        } else {
            StartPlan::Spawn
        }
    }

    /// The error text for a refused second monitor.
    pub fn already_running_message(workspace_name: &String) -> (r: String)
        ensures
            r@ == "A monitor for workspace '"@ + workspace_name@ + "' already exists!"@,
    {
        crate::registry::msg2("A monitor for workspace '", workspace_name, "' already exists!")
    }

    /// Records a monitor that was successfully spawned.
    pub fn confirm_started(&mut self, name: String)
        requires
            !contains_monitor(old(self)@, name@),
        ensures
            final(self)@ == old(self)@.push(name@),
            old(self).wf() ==> final(self).wf(),
    {
        self.names.push(name);
        proof {
            assert(self@ =~= old(self)@.push(name@));
        }
    }

    /// Drops the record for `name`; reports whether one was present. The
    /// original child, if any, is for the caller to kill and reap.
    pub fn terminate_entry(&mut self, name: &String) -> (was_present: bool)
        ensures
            final(self)@ == old(self)@.filter(|n: Seq<char>| n != name@),
            was_present == contains_monitor(old(self)@, name@),
            old(self).wf() ==> final(self).wf(),
            !contains_monitor(final(self)@, name@),
    {
        let ghost s = self@;
        let ghost pred = |n: Seq<char>| n != name@;
        let n = self.names.len();
        let mut kept: Vec<String> = Vec::new();
        let mut was_present = false;
        let mut i: usize = 0;
        while i < n
            invariant
                i <= n,
                n == self.names.len(),
                s == self@,
                pred == (|n: Seq<char>| n != name@),
                kept@.map_values(|x: String| x@) == s.take(i as int).filter(pred),
                was_present == exists|k: int| 0 <= k < i as int && s[k] == name@,
            decreases n - i,
        {
            proof {
                assert(s.take(i as int + 1).drop_last() =~= s.take(i as int));
                assert(s.take(i as int + 1).last() == s[i as int]);
                assert(s[i as int] == self.names@[i as int]@);
                reveal(Seq::filter);
            }
            if str_eq(&self.names[i], name) {
                was_present = true;
            } else {
                kept.push(self.names[i].clone());
            }
            proof {
                assert(kept@.map_values(|x: String| x@) =~= s.take(i as int + 1).filter(pred));
            }
            i = i + 1;
        }
        proof {
            assert(s.take(n as int) =~= s);
        }
        self.names = kept;
        proof {
            if forall|a: int, b: int| 0 <= a < b < s.len() ==> s[a] != s[b] {
                crate::registry::lemma_filter_distinct(s, pred, |x: Seq<char>| x);
            }
            assert forall|k: int| 0 <= k < self@.len() implies self@[k] != name@ by {
                Seq::lemma_filter_pred(s, pred, k);
            }
        }
        was_present
    }

    /// How many monitors are recorded.
    pub fn len(&self) -> (r: usize)
        ensures
            r as int == self@.len(),
    {
        self.names.len()
    }
}

} // verus!
