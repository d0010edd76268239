//! What `doctor` concludes from its checks: whether the stack is healthy
//! enough for the round trip, whether the probe came back first, whether a
//! client's configuration names the server, and the exit status.

use vstd::prelude::*;

use crate::cli::forget::same_text;
use crate::text::chars_of;

verus! {

/// The outcome of one check.
#[derive(Debug, Clone, Copy, PartialEq, Eq, Structural)]
pub enum CheckStatus {
    Pass,
    Warn,
    Fail,
}

impl CheckStatus {
    /// The name of the status in the JSON report.
    pub fn name(&self) -> (s: &'static str)
        ensures
            s@ == match *self {
                CheckStatus::Pass => "pass"@,
                CheckStatus::Warn => "warn"@,
                CheckStatus::Fail => "fail"@,
            },
    {
        match self {
            CheckStatus::Pass => "pass",
            CheckStatus::Warn => "warn",
            CheckStatus::Fail => "fail",
        }
    }

    /// The mark printed before the check: `✓` when it passed, `✗` when it
    /// failed, `!` for a warning.
    pub fn icon(&self) -> (s: &'static str)
        ensures
            s@ == match *self {
                CheckStatus::Pass => "✓"@,
                CheckStatus::Fail => "✗"@,
                CheckStatus::Warn => "!"@,
            },
    {
        match self {
            CheckStatus::Pass => "✓",
            CheckStatus::Fail => "✗",
            CheckStatus::Warn => "!",
        }
    }
}

/// Whether some check failed.
pub open spec fn any_failed(statuses: Seq<CheckStatus>) -> bool {
    exists|i: int| 0 <= i < statuses.len() && statuses[i] == CheckStatus::Fail
}

/// Whether no check so far failed, so that the round trip is worth running.
pub fn stack_healthy(statuses: &Vec<CheckStatus>) -> (b: bool)
    ensures
        b == !any_failed(statuses@),
{
    let mut i: usize = 0;
    while i < statuses.len()
        invariant
            i <= statuses.len(),
            forall|k: int| 0 <= k < i ==> statuses@[k] != CheckStatus::Fail,
        decreases statuses.len() - i,
    {
        if statuses[i] == CheckStatus::Fail {
            return false;
        }
        i = i + 1;
    }
    true
}

/// The exit status of `doctor`: 0 when every check passed or warned, 1 when
/// one or more failed.
pub fn exit_code(statuses: &Vec<CheckStatus>) -> (c: i32)
    ensures
        c == if any_failed(statuses@) {
            1i32
        } else {
            0i32
        },
{
    if stack_healthy(statuses) {
        0
    } else {
        1
    }
}

/// The verdict of the round trip on the id of the top result of recalling
/// the probe: it must be the probe itself.
pub open spec fn recall_verdict_spec(top: Option<Seq<char>>, expected: Seq<char>) -> Result<(), Seq<char>> {
    match top {
        None => Err("recall returned no results"@),
        Some(found) => if found == expected {
            Ok(())
        } else {
            Err("recall returned a different memory ("@ + found + ")"@)
        },
    }
}

/// Checks that recalling the probe gave the probe back first.
pub fn recall_verdict(top: Option<&str>, expected: &str) -> (r: Result<(), String>)
    ensures
        match recall_verdict_spec(
            match top {
                Some(t) => Some(t@),
                None => None,
            },
            expected@,
        ) {
            Ok(()) => r is Ok,
            Err(m) => r is Err && r->Err_0@ == m,
        },
{
    match top {
        None => Err("recall returned no results".to_owned()),
        Some(found) => if same_text(found, expected) {
            Ok(())
        } else {
            let mut m = "recall returned a different memory (".to_owned();
            crate::text::push_all(&mut m, found);
            crate::text::push_all(&mut m, ")");
            Err(m)
        },
    }
}

/// Where the round trip of `doctor` stands: storing the probe, recalling
/// it (its id known), forgetting it (the verdict known), or finished.
#[derive(Debug)]
pub enum ProbeState {
    Storing,
    Recalling { id: String },
    Forgetting { verdict: Result<(), String> },
    Finished,
}

/// What came back from the step `doctor` just took.
#[derive(Debug)]
pub enum ProbeEvent {
    /// The probe was stored under this id, or storing it failed.
    Stored(Result<String, String>),
    /// The id of the top result of recalling the probe (`None` when there
    /// was none), or the recall failed.
    Recalled(Result<Option<String>, String>),
    /// The probe was forgotten (whether that succeeded does not matter).
    Forgot,
}

/// What `doctor` does next.
#[derive(Debug)]
pub enum ProbeAction {
    /// Recall the probe by its text.
    Recall,
    /// Forget the memory with this id.
    Forget { id: String },
    /// Report the round trip as passed or failed with this message.
    Report(Result<(), String>),
}

/// Whether the event answers the step taken in the state.
pub open spec fn probe_event_fits(state: ProbeState, event: ProbeEvent) -> bool {
    match state {
        ProbeState::Storing => event is Stored,
        ProbeState::Recalling { .. } => event is Recalled,
        ProbeState::Forgetting { .. } => event is Forgot,
        ProbeState::Finished => false,
    }
}

/// The views of an outcome.
pub open spec fn outcome_view(r: Result<(), String>) -> Result<(), Seq<char>> {
    match r {
        Ok(()) => Ok(()),
        Err(e) => Err(e@),
    }
}

/// The round trip as a machine: a failed store is reported at once; a
/// stored probe is recalled; whatever the recall gave, the probe is then
/// forgotten, so that it never lingers; and the verdict (the recall's error,
/// or whether the probe came back first) is reported after that.
pub fn probe_step(state: ProbeState, event: ProbeEvent) -> (r: (ProbeState, ProbeAction))
    requires
        probe_event_fits(state, event),
    ensures
        match (state, event) {
            (ProbeState::Storing, ProbeEvent::Stored(Err(e))) => {
                &&& r.0 is Finished
                &&& (r.1 matches ProbeAction::Report(Err(m)) && m@ == e@)
            },
            (ProbeState::Storing, ProbeEvent::Stored(Ok(id))) => {
                &&& (r.0 matches ProbeState::Recalling { id: j } && j@ == id@)
                &&& r.1 is Recall
            },
            (ProbeState::Recalling { id }, ProbeEvent::Recalled(Err(e))) => {
                &&& (r.0 matches ProbeState::Forgetting { verdict: v } && outcome_view(v) == Err::<
                    (),
                    Seq<char>,
                >(e@))
                &&& (r.1 matches ProbeAction::Forget { id: j } && j@ == id@)
            },
            (ProbeState::Recalling { id }, ProbeEvent::Recalled(Ok(top))) => {
                &&& (r.0 matches ProbeState::Forgetting { verdict: v } && outcome_view(v)
                    == recall_verdict_spec(
                    match top {
                        Some(t) => Some(t@),
                        None => None,
                    },
                    id@,
                ))
                &&& (r.1 matches ProbeAction::Forget { id: j } && j@ == id@)
            },
            (ProbeState::Forgetting { verdict }, ProbeEvent::Forgot) => {
                &&& r.0 is Finished
                &&& (r.1 matches ProbeAction::Report(v) && outcome_view(v) == outcome_view(verdict))
            },
            _ => false,
        },
{
    match state {
        ProbeState::Storing => match event {
            ProbeEvent::Stored(Err(e)) => (ProbeState::Finished, ProbeAction::Report(Err(e))),
            ProbeEvent::Stored(Ok(id)) => (ProbeState::Recalling { id }, ProbeAction::Recall),
            _ => (ProbeState::Finished, ProbeAction::Recall),
        },
        ProbeState::Recalling { id } => match event {
            ProbeEvent::Recalled(Err(e)) => (
                ProbeState::Forgetting { verdict: Err(e) },
                ProbeAction::Forget { id },
            ),
            ProbeEvent::Recalled(Ok(top)) => {
                let verdict = match &top {
                    Some(t) => recall_verdict(Some(t.as_str()), id.as_str()),
                    None => recall_verdict(None, id.as_str()),
                };
                (ProbeState::Forgetting { verdict }, ProbeAction::Forget { id })
            },
            _ => (ProbeState::Finished, ProbeAction::Recall),
        },
        ProbeState::Forgetting { verdict } => (ProbeState::Finished, ProbeAction::Report(verdict)),
        ProbeState::Finished => (ProbeState::Finished, ProbeAction::Recall),
    }
}

/// Whether `t` occurs in `s`.
pub open spec fn contains_text(s: Seq<char>, t: Seq<char>) -> bool {
    exists|i: int| 0 <= i && i + t.len() <= s.len() && #[trigger] s.subrange(i, i + t.len()) == t
}

/// Whether a client's configuration file names the server: its text
/// contains `"memori"`, quotes included.
pub fn mentions_server(config: &str) -> (b: bool)
    ensures
        b == contains_text(config@, "\"memori\""@),
{
    let s = chars_of(config);
    let t = chars_of("\"memori\"");
    proof {
        reveal_strlit("\"memori\"");
    }
    if t.len() > s.len() {
        proof {
            assert forall|i: int| 0 <= i && i + t@.len() <= s@.len() implies #[trigger] s@.subrange(
                i,
                i + t@.len(),
            ) != t@ by {}
        }
        return false;
    }
    let mut i: usize = 0;
    while i <= s.len() - t.len()
        invariant
            t.len() <= s.len(),
            t.len() == 8,
            i <= s.len() - t.len() + 1,
            s@ == config@,
            t@ == "\"memori\""@,
            forall|k: int| 0 <= k < i ==> #[trigger] s@.subrange(k, k + t@.len()) != t@,
        decreases s.len() - i,
    {
        let mut j: usize = 0;
        let mut same = true;
        proof {
            assert(s@.subrange(i as int, i as int) =~= t@.take(0));
        }
        while j < t.len()
            invariant
                i + t.len() <= s.len(),
                j <= t.len(),
                same <==> s@.subrange(i as int, i + j) == t@.take(j as int),
            decreases t.len() - j,
        {
            proof {
                assert(s@.subrange(i as int, i + j + 1) == s@.subrange(i as int, i + j).push(s@[i + j]));
                assert(t@.take(j + 1) == t@.take(j as int).push(t@[j as int]));
                if s@.subrange(i as int, i + j + 1) == t@.take(j + 1) {
                    assert(s@.subrange(i as int, i + j + 1).drop_last() == s@.subrange(i as int, i + j));
                    assert(t@.take(j + 1).drop_last() == t@.take(j as int));
                    assert(s@.subrange(i as int, i + j + 1)[j as int] == s@[i + j]);
                }
            }
            if s[i + j] != t[j] {
                same = false;
            }
            j = j + 1;
        }
        proof {
            assert(t@.take(t@.len() as int) =~= t@);
        }
        if same {
            return true;
        }
        i = i + 1;
    }
    proof {
        assert forall|k: int| 0 <= k && k + t@.len() <= s@.len() implies #[trigger] s@.subrange(
            k,
            k + t@.len(),
        ) != t@ by {
            assert(k < i);
        }
    }
    false
}

} // verus!
