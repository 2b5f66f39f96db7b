//! Choosing one of several candidates by a timed keyboard prompt.
use vstd::prelude::*;

verus! {

/// How long the prompt waits for a key before taking the default.
pub const SELECTION_TIMEOUT_US: u64 = 5_000_000;

/// How long the platform stalls after a poll that found no key.
pub const POLL_INTERVAL_US: u64 = 10_000;

/// A key as the console reported it.
#[derive(Clone, Copy, Debug, PartialEq, Eq, Structural)]
pub enum KeyEvent {
    Printable(char),
    Escape,
    /// Any other special key (arrows, function keys, ...).
    OtherSpecial,
}

/// The result of one non-blocking read of the console.
#[derive(Clone, Copy, Debug, PartialEq, Eq, Structural)]
pub enum PollEvent {
    Key(KeyEvent),
    /// No key was waiting.
    NoKey,
    /// The console reported a device error.
    ReadError,
}

/// What the platform layer does next while the prompt runs.
#[derive(Clone, Copy, Debug, PartialEq, Eq, Structural)]
pub enum SelectAction {
    /// Read the console again at once.
    Poll,
    /// Stall for this many microseconds, then read the console again.
    Stall(u64),
    /// The candidate at this zero-based index is chosen.
    Select(usize),
    /// The user asked to abort the whole boot.
    Abort,
}

/// The outcome of running the prompt over a recorded stream of reads.
#[derive(Clone, Copy, Debug, PartialEq, Eq, Structural)]
pub enum Resolution {
    /// The candidate at this zero-based index was chosen.
    Selected(usize),
    Aborted,
    /// The stream ended before a decision.
    Pending,
}

/// The candidate that a printable key picks among `n`: digits `1` to `9`
/// that name a candidate pick it (zero-based), anything else picks none.
pub open spec fn digit_choice(c: char, n: nat) -> Option<nat> {
    let v = c as u32;
    if '1' as u32 <= v <= '9' as u32 && v - '0' as u32 <= n {
        Some((v - '1' as u32) as nat)
    } else {
        None
    }
}

pub open spec fn is_confirm(c: char) -> bool {
    c == '\r' || c == '\n'
}

/// A read that neither decides nor takes time: a key that the prompt ignores.
pub open spec fn is_ignored_key(e: PollEvent, n: nat) -> bool {
    match e {
        PollEvent::Key(KeyEvent::OtherSpecial) => true,
        PollEvent::Key(KeyEvent::Printable(c)) => digit_choice(c, n) is None && !is_confirm(c),
        _ => false,
    }
}

/// One transition of the prompt among `n` candidates that has waited
/// `waited` microseconds: the new wait and the action.
pub open spec fn step_spec(n: nat, waited: nat, e: PollEvent) -> (nat, SelectAction) {
    match e {
        PollEvent::Key(KeyEvent::Printable(c)) => match digit_choice(c, n) {
            Some(i) => (waited, SelectAction::Select(i as usize)),
            None => if is_confirm(c) {
                (waited, SelectAction::Select(0))
            } else {
                (waited, SelectAction::Poll)
            },
        },
        PollEvent::Key(KeyEvent::Escape) => (waited, SelectAction::Abort),
        PollEvent::Key(KeyEvent::OtherSpecial) => (waited, SelectAction::Poll),
        PollEvent::NoKey => if waited >= SELECTION_TIMEOUT_US {
            (waited, SelectAction::Select(0))
        } else {
            ((waited + POLL_INTERVAL_US) as nat, SelectAction::Stall(POLL_INTERVAL_US))
        },
        PollEvent::ReadError => (waited, SelectAction::Select(0)),
    }
}

/// Runs the prompt over `events`: the outcome and how many reads it took.
pub open spec fn run_spec(n: nat, waited: nat, events: Seq<PollEvent>) -> (Resolution, nat)
    decreases events.len(),
{
    if events.len() == 0 {
        (Resolution::Pending, 0)
    } else {
        let (w, a) = step_spec(n, waited, events[0]);
        match a {
            SelectAction::Select(i) => (Resolution::Selected(i), 1),
            SelectAction::Abort => (Resolution::Aborted, 1),
            _ => {
                let (r, k) = run_spec(n, w, events.drop_first());
                (r, k + 1)
            },
        }
    }
}

/// Choosing among `n` candidates: one is taken without reading anything,
/// several go through the prompt from a zero wait.
pub open spec fn resolve_spec(n: nat, events: Seq<PollEvent>) -> (Resolution, nat) {
    if n == 1 {
        (Resolution::Selected(0), 0)
    } else {
        run_spec(n, 0, events)
    }
}

/// The prompt's state: the number of candidates and the time waited so far.
pub struct Selector {
    pub candidates: usize,
    pub waited_us: u64,
}

impl Selector {
    pub open spec fn wf(&self) -> bool {
        &&& self.candidates >= 1
        &&& self.waited_us <= SELECTION_TIMEOUT_US
        &&& self.waited_us % POLL_INTERVAL_US == 0
    }

    pub fn new(candidates: usize) -> (r: Selector)
        requires
            candidates >= 1,
        ensures
            r.wf(),
            r.candidates == candidates,
            r.waited_us == 0,
    {
        Selector { candidates, waited_us: 0 }
    }

    /// Whether the choice needs the prompt at all.
    pub fn needs_input(&self) -> (r: bool)
        ensures
            r == (self.candidates > 1),
    {
        self.candidates > 1
    }

    /// Handles one read of the console.
    pub fn step(&mut self, event: PollEvent) -> (a: SelectAction)
        requires
            old(self).wf(),
        ensures
            final(self).wf(),
            final(self).candidates == old(self).candidates,
            (final(self).waited_us as nat, a) == step_spec(
                old(self).candidates as nat,
                old(self).waited_us as nat,
                event,
            ),
    {
        match event {
            PollEvent::Key(KeyEvent::Printable(c)) => {
                let v = c as u32;
                if v >= '1' as u32 && v <= '9' as u32 && ((v - '0' as u32) as usize) <= self.candidates {
                    SelectAction::Select((v - '1' as u32) as usize)
                } else if c == '\r' || c == '\n' {
                    SelectAction::Select(0)
                } else {
                    SelectAction::Poll
                }
            },
            PollEvent::Key(KeyEvent::Escape) => SelectAction::Abort,
            PollEvent::Key(KeyEvent::OtherSpecial) => SelectAction::Poll,
            PollEvent::NoKey => {
                if self.waited_us >= SELECTION_TIMEOUT_US {
                    SelectAction::Select(0)
                } else {
                    self.waited_us = self.waited_us + POLL_INTERVAL_US;
                    SelectAction::Stall(POLL_INTERVAL_US)
                }
            },
            PollEvent::ReadError => SelectAction::Select(0),
        }
    }
}

/// Resolves a choice among `candidates` from a recorded stream of console
/// reads: the outcome and how many reads were consumed.
pub fn resolve(candidates: usize, events: &Vec<PollEvent>) -> (r: (Resolution, usize))
    requires
        candidates >= 1,
    ensures
        (r.0, r.1 as nat) == resolve_spec(candidates as nat, events@),
{
    let mut sel = Selector::new(candidates);
    if !sel.needs_input() {
        return (Resolution::Selected(0), 0);
    }
    let ghost ev = events@;
    let mut i: usize = 0;
    assert(ev.skip(0) =~= ev);
    while i < events.len()
        invariant
            sel.wf(),
            sel.candidates == candidates,
            candidates > 1,
            ev == events@,
            i <= ev.len(),
            run_spec(candidates as nat, 0, ev) == (
                run_spec(candidates as nat, sel.waited_us as nat, ev.skip(i as int)).0,
                run_spec(candidates as nat, sel.waited_us as nat, ev.skip(i as int)).1 + i as nat,
            ),
        decreases ev.len() - i,
    {
        let ghost w = sel.waited_us as nat;
        assert(ev.skip(i as int)[0] == ev[i as int]);
        assert(ev.skip(i as int).drop_first() =~= ev.skip(i + 1));
        match sel.step(events[i]) {
            SelectAction::Select(k) => {
                return (Resolution::Selected(k), i + 1);
            },
            SelectAction::Abort => {
                return (Resolution::Aborted, i + 1);
            },
            _ => {},
        }
        i += 1;
    }
    assert(ev.skip(i as int).len() == 0);
    (Resolution::Pending, i)
}

/// Polls of an empty console that it takes for the prompt to time out.
pub const TIMEOUT_POLLS: u64 = 500;

/// One candidate is chosen at once, without reading the console.
pub proof fn lemma_single_candidate(events: Seq<PollEvent>)
    ensures
        resolve_spec(1, events) == (Resolution::Selected(0), 0nat),
{
}

proof fn lemma_run_digit(n: nat, w: nat, prefix: Seq<PollEvent>, c: char, k: nat, rest: Seq<PollEvent>)
    requires
        1 <= k <= n,
        k <= 9,
        c as u32 == '0' as u32 + k,
        forall|i: int| 0 <= i < prefix.len() ==> is_ignored_key(#[trigger] prefix[i], n),
    ensures
        run_spec(n, w, prefix + seq![PollEvent::Key(KeyEvent::Printable(c))] + rest).0
            == Resolution::Selected((k - 1) as usize),
    decreases prefix.len(),
{
    let events = prefix + seq![PollEvent::Key(KeyEvent::Printable(c))] + rest;
    if prefix.len() == 0 {
        assert(events[0] == PollEvent::Key(KeyEvent::Printable(c)));
    } else {
        let tail = prefix.drop_first();
        assert(events[0] == prefix[0]);
        assert(events.drop_first() =~= tail + seq![PollEvent::Key(KeyEvent::Printable(c))] + rest);
        assert forall|i: int| 0 <= i < tail.len() implies is_ignored_key(#[trigger] tail[i], n) by {
            assert(tail[i] == prefix[i + 1]);
        }
        lemma_run_digit(n, w, tail, c, k, rest);
    }
}

/// A digit key that names candidate `k` chooses it, whatever ignored keys
/// came before it and whatever follows.
pub proof fn lemma_digit_selects(n: nat, prefix: Seq<PollEvent>, c: char, k: nat, rest: Seq<PollEvent>)
    requires
        1 <= k <= n,
        k <= 9,
        c as u32 == '0' as u32 + k,
        forall|i: int| 0 <= i < prefix.len() ==> is_ignored_key(#[trigger] prefix[i], n),
    ensures
        resolve_spec(n, prefix + seq![PollEvent::Key(KeyEvent::Printable(c))] + rest).0
            == Resolution::Selected((k - 1) as usize),
{
    if n != 1 {
        lemma_run_digit(n, 0, prefix, c, k, rest);
    }
}

proof fn lemma_run_timeout(n: nat, m: nat, events: Seq<PollEvent>)
    requires
        m <= TIMEOUT_POLLS,
        events.len() > m,
        forall|i: int| 0 <= i <= m ==> #[trigger] events[i] == PollEvent::NoKey,
    ensures
        run_spec(n, (SELECTION_TIMEOUT_US - POLL_INTERVAL_US * m) as nat, events)
            == (Resolution::Selected(0), m + 1),
    decreases m,
{
    assert(events[0] == PollEvent::NoKey);
    if m > 0 {
        let tail = events.drop_first();
        assert forall|i: int| 0 <= i <= m - 1 implies #[trigger] tail[i] == PollEvent::NoKey by {
            assert(tail[i] == events[i + 1]);
        }
        lemma_run_timeout(n, (m - 1) as nat, tail);
    }
}

/// With several candidates and an empty console for the whole timeout, the
/// first candidate is chosen, on the read after the last stall.
pub proof fn lemma_timeout_selects_first(n: nat, events: Seq<PollEvent>)
    requires
        n >= 2,
        events.len() > TIMEOUT_POLLS,
        forall|i: int| 0 <= i <= TIMEOUT_POLLS ==> #[trigger] events[i] == PollEvent::NoKey,
    ensures
        resolve_spec(n, events) == (Resolution::Selected(0), (TIMEOUT_POLLS + 1) as nat),
{
    lemma_run_timeout(n, TIMEOUT_POLLS as nat, events);
}

proof fn lemma_run_escape(n: nat, w: nat, prefix: Seq<PollEvent>, rest: Seq<PollEvent>)
    requires
        w + POLL_INTERVAL_US * prefix.len() <= SELECTION_TIMEOUT_US,
        forall|i: int| 0 <= i < prefix.len() ==> is_ignored_key(#[trigger] prefix[i], n) || prefix[i] == PollEvent::NoKey,
    ensures
        run_spec(n, w, prefix + seq![PollEvent::Key(KeyEvent::Escape)] + rest).0 == Resolution::Aborted,
    decreases prefix.len(),
{
    let events = prefix + seq![PollEvent::Key(KeyEvent::Escape)] + rest;
    if prefix.len() == 0 {
        assert(events[0] == PollEvent::Key(KeyEvent::Escape));
    } else {
        let tail = prefix.drop_first();
        assert(events[0] == prefix[0]);
        assert(events.drop_first() =~= tail + seq![PollEvent::Key(KeyEvent::Escape)] + rest);
        assert forall|i: int| 0 <= i < tail.len() implies is_ignored_key(#[trigger] tail[i], n) || tail[i] == PollEvent::NoKey by {
            assert(tail[i] == prefix[i + 1]);
        }
        let w2 = step_spec(n, w, prefix[0]).0;
        lemma_run_escape(n, w2, tail, rest);
    }
}

/// With several candidates, Escape aborts when it comes before any choice
/// and before the timeout: after keys that the prompt ignores and at most
/// as many empty reads as the timeout allows.
pub proof fn lemma_escape_aborts(n: nat, prefix: Seq<PollEvent>, rest: Seq<PollEvent>)
    requires
        n >= 2,
        prefix.len() <= TIMEOUT_POLLS,
        forall|i: int| 0 <= i < prefix.len() ==> is_ignored_key(#[trigger] prefix[i], n) || prefix[i] == PollEvent::NoKey,
    ensures
        resolve_spec(n, prefix + seq![PollEvent::Key(KeyEvent::Escape)] + rest).0 == Resolution::Aborted,
{
    lemma_run_escape(n, 0, prefix, rest);
}

} // verus!
