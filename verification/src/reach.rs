//! Reachability of a host before its ports are swept, and the advisory that
//! is given once when the probe lacks the privilege to run.

use vstd::prelude::*;

verus! {

/// Seconds a reachability probe may take.
pub const PING_TIMEOUT_SECS: u64 = 1;

/// What a reachability probe found out about a host.
#[derive(Clone, Copy, Debug, PartialEq, Eq, Structural)]
pub enum Reachability {
    /// The host answered.
    Reachable,
    /// The host did not answer: its ports are not swept.
    Unreachable,
    /// The probe could not be sent for lack of privilege: nothing is known,
    /// and the ports are swept as if the host had answered.
    PermissionDenied,
}

/// The error of the `ping` crate. Nothing is known of a value of it but the
/// text that it displays.
#[verifier::external_type_specification]
#[verifier::external_body]
pub struct ExPingError(ping::Error);

/// `pattern` stands in `text` at index `at`.
pub open spec fn occurs_at(pattern: Seq<char>, text: Seq<char>, at: int) -> bool {
    &&& 0 <= at
    &&& at + pattern.len() <= text.len()
    &&& text.subrange(at, at + pattern.len()) == pattern
}

/// `pattern` stands somewhere in `text`.
pub open spec fn occurs_in(pattern: Seq<char>, text: Seq<char>) -> bool {
    exists|at: int| occurs_at(pattern, text, at)
}

/// The message of a failed probe names an operating-system error that stands
/// for missing privilege.
pub open spec fn lacks_privilege(message: Seq<char>) -> bool {
    occurs_in("(os error 1)"@, message) || occurs_in("(os error 10060)"@, message)
}

/// What a failed probe with this message says about the host.
pub open spec fn failure_meaning(message: Seq<char>) -> Reachability {
    if lacks_privilege(message) {
        Reachability::PermissionDenied
    } else {
        Reachability::Unreachable
    }
}

fn chars_of(text: &str) -> (chars: Vec<char>)
    ensures
        chars@ == text@,
{
    let mut chars: Vec<char> = Vec::new();
    for c in it: text.chars()
        invariant
            chars@ == it.seq().take(it.index()),
            it.seq() == text@,
    {
        chars.push(c);
    }
    chars
}

fn stands_at(pattern: &Vec<char>, text: &Vec<char>, at: usize) -> (found: bool)
    requires
        at + pattern.len() <= text.len(),
    ensures
        found == occurs_at(pattern@, text@, at as int),
{
    let mut k: usize = 0;
    while k < pattern.len()
        invariant
            k <= pattern.len(),
            at + pattern.len() <= text.len(),
            forall|i: int| 0 <= i < k ==> text@[at + i] == pattern@[i],
        decreases pattern.len() - k,
    {
        if text[at + k] != pattern[k] {
            return false;
        }
        k += 1;
    }
    assert(text@.subrange(at as int, at + pattern.len()) =~= pattern@);
    true
}

fn found_in(needle: &Vec<char>, hay: &Vec<char>) -> (found: bool)
    ensures
        found == occurs_in(needle@, hay@),
{
    if needle.len() > hay.len() {
        return false;
    }
    let last: usize = hay.len() - needle.len();
    let mut at: usize = 0;
    loop
        invariant
            last == hay.len() - needle.len(),
            at <= last,
            forall|k: int| 0 <= k < at ==> !occurs_at(needle@, hay@, k),
        decreases last - at,
    {
        if stands_at(needle, hay, at) {
            return true;
        }
        if at == last {
            return false;
        }
        at += 1;
    }
}

/// Whether `pattern` stands somewhere in `text`.
pub fn mentions(text: &str, pattern: &str) -> (found: bool)
    ensures
        found == occurs_in(pattern@, text@),
{
    found_in(&chars_of(pattern), &chars_of(text))
}

/// Reads the message of a failed reachability probe: missing privilege where
/// it names one of the two operating-system errors that stand for it, an
/// unreachable host otherwise.
pub fn classify_failure(message: &str) -> (meaning: Reachability)
    ensures
        meaning == failure_meaning(message@),
{
    let text = chars_of(message);
    if found_in(&chars_of("(os error 1)"), &text) || found_in(&chars_of("(os error 10060)"), &text) {
        Reachability::PermissionDenied
    } else {
        Reachability::Unreachable
    }
}

/// Reads the result of a reachability probe. A probe that succeeded found the
/// host reachable; one that failed is read by the text of its error (see
/// [`classify_failure`]), which depends on the operating system.
pub fn classify_ping(result: &Result<(), ping::Error>) -> (meaning: Reachability)
    ensures
        result is Ok <==> meaning == Reachability::Reachable,
{
    match result {
        Ok(_) => Reachability::Reachable,
        Err(error) => {
            let message = error.to_string();
            classify_failure(message.as_str())
        },
    }
}

/// The advisory that is given once in a run where a reachability probe lacks
/// the privilege to be sent.
pub const PRIVILEGE_ADVISORY: &'static str =
    "Try using sudo or run as administrator to use ping for faster network responses";

/// Whether the advisory about missing privilege was given in this run.
pub struct SudoWarningLatch {
    fired: bool,
}

/// Whether a latch has fired once [`SudoWarningLatch::advise`] was called on
/// it with each of `denied` in turn.
pub open spec fn fired_after(fired: bool, denied: Seq<bool>) -> bool {
    fired || denied.contains(true)
}

/// How often the advisory is handed out while [`SudoWarningLatch::advise`]
/// is called with each of `denied` in turn.
pub open spec fn advisories(fired: bool, denied: Seq<bool>) -> nat
    decreases denied.len(),
{
    if denied.len() == 0 {
        0
    } else {
        let earlier = denied.drop_last();
        advisories(fired, earlier) + if denied.last() && !fired_after(fired, earlier) {
            1nat
        } else {
            0nat
        }
    }
}

/// However many probes lack privilege in one run, the advisory is given
/// once: never on a latch that has fired, and on a new latch exactly once if
/// any probe was denied.
pub proof fn lemma_one_advisory(fired: bool, denied: Seq<bool>)
    ensures
        advisories(fired, denied) == if !fired && denied.contains(true) {
            1nat
        } else {
            0nat
        },
    decreases denied.len(),
{
    if denied.len() > 0 {
        let earlier = denied.drop_last();
        lemma_one_advisory(fired, earlier);
        // a claim was denied exactly if an earlier one or the last one was
        if earlier.contains(true) {
            let i = choose|i: int| 0 <= i < earlier.len() && earlier[i];
            assert(denied[i]);
        }
        if denied.last() {
            assert(denied[denied.len() - 1]);
        }
        if denied.contains(true) {
            let i = choose|i: int| 0 <= i < denied.len() && denied[i];
            assert(i < earlier.len() ==> earlier[i]);
        }
    }
}

impl SudoWarningLatch {
    /// Whether the advisory was given.
    pub closed spec fn has_fired(&self) -> bool {
        self.fired
    }

    /// A latch for a new run: the advisory was not given.
    pub fn new() -> (latch: SudoWarningLatch)
        ensures
            !latch.has_fired(),
    {
        SudoWarningLatch { fired: false }
    }

    /// Claims the advisory. The first call on a latch returns `true`: the
    /// caller gives the advisory. Every later call returns `false`.
    pub fn fire(&mut self) -> (first: bool)
        ensures
            first == !old(self).has_fired(),
            final(self).has_fired(),
    {
        let first = !self.fired;
        self.fired = true;
        first
    }

    /// The advisory to give now, if any: where `denied` says that a
    /// reachability probe just lacked privilege, the latch is claimed, and
    /// the text is handed out to the first that claims it. Where `denied` is
    /// not set, nothing changes.
    pub fn advise(&mut self, denied: bool) -> (advisory: Option<&'static str>)
        ensures
            advisory is Some <==> denied && !old(self).has_fired(),
            advisory is Some ==> advisory == Some(PRIVILEGE_ADVISORY),
            final(self).has_fired() == (old(self).has_fired() || denied),
    {
        if denied && self.fire() {
            Some(PRIVILEGE_ADVISORY)
        } else {
            None
        }
    }
}

} // verus!
