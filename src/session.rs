//! One invocation, as a state machine: parse every token up front, load the
//! last universe if the request is stateful, fold the directives, transmit,
//! and persist only what was transmitted. Whoever drives the session does the
//! loading, transmitting and persisting, and reports back with an `Event`.

use crate::directive::{
    apply_directives, channels_in_range, fold_directives, initial_mode, is_stateful_request,
    lemma_fold_keeps_unnamed, lemma_fold_without_sigils, names_channel, parse_args,
    spec_is_stateful, spec_parse_arg, Directive, DEFAULT_ENABLE_VALUE,
};
use crate::store::{decode_universe, decoded_state};
use vstd::prelude::*;

verus! {

/// The universe with every channel off.
pub open spec fn blank_universe() -> Seq<u8> {
    Seq::new(512, |i: int| 0u8)
}

/// The universe a request starts from, and whether a warning is owed: a
/// stateful request starts from what the store held, or from all zero with a
/// warning where the store gave nothing usable; any other request starts
/// from all zero.
pub open spec fn starting_universe(stateful: bool, stored: Option<Seq<u8>>) -> (Seq<u8>, bool) {
    if !stateful {
        (blank_universe(), false)
    } else {
        match stored {
            Some(bytes) => match decoded_state(bytes) {
                Some(u) => (u, false),
                None => (blank_universe(), true),
            },
            None => (blank_universe(), true),
        }
    }
}

/// The universe that a request sends, given what the store held.
pub open spec fn request_universe(ds: Seq<Directive>, stored: Option<Seq<u8>>) -> Seq<u8> {
    fold_directives(starting_universe(spec_is_stateful(ds), stored).0, initial_mode(), ds)
}

/// A universe with every channel off.
fn blank() -> (r: [u8; 512])
    ensures
        r@ == blank_universe(),
{
    let r = [0u8; 512];
    assert(r@ =~= blank_universe());
    r
}

/// A request without sigils ignores the store: it sends its named channels
/// at the default level and every other channel off, whatever was stored.
pub proof fn lemma_plain_request_is_snapshot(ds: Seq<Directive>, stored: Option<Seq<u8>>, c: int)
    requires
        channels_in_range(ds),
        !spec_is_stateful(ds),
        0 <= c < 512,
    ensures
        request_universe(ds, stored).len() == 512,
        request_universe(ds, stored)[c] == if names_channel(ds, c) {
            DEFAULT_ENABLE_VALUE
        } else {
            0u8
        },
{
    lemma_fold_keeps_unnamed(blank_universe(), initial_mode(), ds, c);
    lemma_fold_without_sigils(blank_universe(), ds, c);
}

/// A stateful request starts from the universe the store held: it folds its
/// directives over it, and a channel that none names keeps its stored level.
pub proof fn lemma_stateful_request_edits_stored(ds: Seq<Directive>, stored: Seq<u8>, c: int)
    requires
        channels_in_range(ds),
        spec_is_stateful(ds),
        stored.len() == 512,
        0 <= c < 512,
    ensures
        request_universe(ds, Some(stored)) == fold_directives(stored, initial_mode(), ds),
        !names_channel(ds, c) ==> request_universe(ds, Some(stored))[c] == stored[c],
{
    lemma_fold_keeps_unnamed(stored, initial_mode(), ds, c);
}

/// A stateful request whose store cannot be read starts from all zero, with a
/// warning.
pub proof fn lemma_unreadable_store_starts_blank(ds: Seq<Directive>)
    requires
        spec_is_stateful(ds),
    ensures
        starting_universe(spec_is_stateful(ds), None) == (blank_universe(), true),
        request_universe(ds, None) == fold_directives(blank_universe(), initial_mode(), ds),
{
}

/// Where a session stands.
#[derive(Clone, Copy, Debug, PartialEq, Eq, Structural)]
pub enum Phase {
    /// Waiting for the stored universe.
    AwaitingState,
    /// Waiting for the outcome of the transmission.
    Transmitting,
    /// Waiting for the outcome of persisting.
    Persisting,
    /// Over.
    Done,
}

/// Why an invocation failed after its tokens parsed.
#[derive(Clone, Copy, Debug, PartialEq, Eq, Structural)]
pub enum Failure {
    /// The serial bridge refused an operation.
    Device,
    /// The universe was sent but could not be persisted.
    StateWrite,
}

/// What the driver reports.
#[derive(Debug)]
pub enum Event {
    /// The store held these bytes.
    StateLoaded(Vec<u8>),
    /// The store could not be read.
    StateUnavailable,
    /// The universe was transmitted.
    Transmitted,
    /// The transmission failed.
    TransmitFailed,
    /// The universe was persisted.
    Persisted,
    /// Persisting failed.
    PersistFailed,
}

/// What the driver does next.
#[derive(Clone, Copy, Debug)]
pub enum Step {
    /// Read the stored universe.
    LoadState,
    /// Warn that no stored universe could be used, if `warn_missing_state`,
    /// then transmit `universe`.
    Transmit { universe: [u8; 512], warn_missing_state: bool },
    /// Persist `universe`.
    Persist { universe: [u8; 512] },
    /// The invocation is over, with this result.
    Finish(Result<(), Failure>),
}

/// The phase in which a session takes `ev`.
pub open spec fn phase_for(ev: Event) -> Phase {
    match ev {
        Event::StateLoaded(_) => Phase::AwaitingState,
        Event::StateUnavailable => Phase::AwaitingState,
        Event::Transmitted => Phase::Transmitting,
        Event::TransmitFailed => Phase::Transmitting,
        Event::Persisted => Phase::Persisting,
        Event::PersistFailed => Phase::Persisting,
    }
}

impl Event {
    /// The phase in which a session takes this event.
    pub fn phase(&self) -> (r: Phase)
        ensures
            r == phase_for(*self),
    {
        match self {
            Event::StateLoaded(_) => Phase::AwaitingState,
            Event::StateUnavailable => Phase::AwaitingState,
            Event::Transmitted => Phase::Transmitting,
            Event::TransmitFailed => Phase::Transmitting,
            Event::Persisted => Phase::Persisting,
            Event::PersistFailed => Phase::Persisting,
        }
    }
}

/// What the store handed over, as a `StateLoaded` or `StateUnavailable` event
/// tells it.
pub open spec fn stored_of(ev: Event) -> Option<Seq<u8>> {
    match ev {
        Event::StateLoaded(bytes) => Some(bytes@),
        _ => None,
    }
}

/// A running invocation.
pub struct Session {
    directives: Vec<Directive>,
    universe: [u8; 512],
    phase: Phase,
}

impl Session {
    /// Where the session stands.
    pub closed spec fn spec_phase(&self) -> Phase {
        self.phase
    }

    /// The parsed directives of the request.
    pub closed spec fn directives(&self) -> Seq<Directive> {
        self.directives@
    }

    /// The universe to transmit and persist, once it is known.
    pub closed spec fn universe(&self) -> Seq<u8> {
        self.universe@
    }

    /// Every directive names a channel of the universe.
    pub closed spec fn wf(&self) -> bool {
        channels_in_range(self.directives@)
    }

    /// Where the session stands.
    pub fn phase(&self) -> (r: Phase)
        ensures
            r == self.spec_phase(),
    {
        self.phase
    }

    /// Starts an invocation from its tokens. Any token that is not a channel
    /// directive fails the whole invocation before the store or the device
    /// is touched. A stateful request asks first for the stored universe;
    /// any other request transmits its directives folded over all zero.
    pub fn begin(args: &Vec<String>) -> (r: Result<(Session, Step), String>)
        ensures
            r is Ok <==> forall|i: int|
                0 <= i < args@.len() ==> (#[trigger] spec_parse_arg(args@[i]@)) is Some,
            r matches Ok((s, step)) ==> {
                &&& s.wf()
                &&& s.directives().len() == args@.len()
                &&& forall|i: int|
                    0 <= i < args@.len() ==> s.directives()[i] == (#[trigger] spec_parse_arg(
                        args@[i]@,
                    ))->Some_0
                &&& spec_is_stateful(s.directives()) ==> s.spec_phase() == Phase::AwaitingState
                    && step is LoadState
                &&& !spec_is_stateful(s.directives()) ==> {
                    &&& s.spec_phase() == Phase::Transmitting
                    &&& s.universe() == request_universe(s.directives(), None)
                    &&& step matches Step::Transmit { universe, warn_missing_state }
                    &&& universe@ == s.universe()
                    &&& !warn_missing_state
                }
            },
    {
        let directives = match parse_args(args) {
            Ok(ds) => ds,
            Err(e) => {
                return Err(e);
            },
        };
        let mut universe = blank();
        if is_stateful_request(&directives) {
            let s = Session { directives, universe, phase: Phase::AwaitingState };
            Ok((s, Step::LoadState))
        } else {
            apply_directives(&mut universe, &directives);
            let s = Session { directives, universe, phase: Phase::Transmitting };
            Ok((s, Step::Transmit { universe, warn_missing_state: false }))
        }
    }

    /// Takes what the driver reports and says what to do next. The stored
    /// universe, or all zero with a warning, is folded and transmitted; a
    /// transmitted universe is persisted; a failed transmission ends the
    /// invocation without touching the store.
    pub fn on_event(&mut self, ev: Event) -> (step: Step)
        requires
            old(self).wf(),
            old(self).spec_phase() == phase_for(ev),
        ensures
            final(self).wf(),
            final(self).directives() == old(self).directives(),
            phase_for(ev) == Phase::AwaitingState ==> {
                let (base, warn) = starting_universe(true, stored_of(ev));
                &&& final(self).spec_phase() == Phase::Transmitting
                &&& final(self).universe() == fold_directives(base, initial_mode(), old(self).directives())
                &&& step matches Step::Transmit { universe, warn_missing_state }
                &&& universe@ == final(self).universe()
                &&& warn_missing_state == warn
            },
            ev is Transmitted ==> {
                &&& final(self).spec_phase() == Phase::Persisting
                &&& final(self).universe() == old(self).universe()
                &&& step matches Step::Persist { universe }
                &&& universe@ == old(self).universe()
            },
            ev is TransmitFailed ==> final(self).spec_phase() == Phase::Done && step == Step::Finish(
                Err(Failure::Device),
            ),
            ev is Persisted ==> final(self).spec_phase() == Phase::Done && step == Step::Finish(
                Ok(()),
            ),
            ev is PersistFailed ==> final(self).spec_phase() == Phase::Done && step == Step::Finish(
                Err(Failure::StateWrite),
            ),
    {
        match ev {
            Event::StateLoaded(bytes) => {
                let (base, warn) = match decode_universe(&bytes) {
                    Ok(u) => (u, false),
                    Err(_) => (blank(), true),
                };
                self.load_and_fold(base, warn)
            },
            Event::StateUnavailable => {
                self.load_and_fold(blank(), true)
            },
            Event::Transmitted => {
                self.phase = Phase::Persisting;
                Step::Persist { universe: self.universe }
            },
            Event::TransmitFailed => {
                self.phase = Phase::Done;
                Step::Finish(Err(Failure::Device))
            },
            Event::Persisted => {
                self.phase = Phase::Done;
                Step::Finish(Ok(()))
            },
            Event::PersistFailed => {
                self.phase = Phase::Done;
                Step::Finish(Err(Failure::StateWrite))
            },
        }
    }

    fn load_and_fold(&mut self, base: [u8; 512], warn: bool) -> (step: Step)
        requires
            old(self).wf(),
        ensures
            final(self).wf(),
            final(self).directives() == old(self).directives(),
            final(self).spec_phase() == Phase::Transmitting,
            final(self).universe() == fold_directives(base@, initial_mode(), old(self).directives()),
            step matches Step::Transmit { universe, warn_missing_state } && universe@
                == final(self).universe() && warn_missing_state == warn,
    {
        let mut universe = base;
        apply_directives(&mut universe, &self.directives);
        self.universe = universe;
        self.phase = Phase::Transmitting;
        Step::Transmit { universe, warn_missing_state: warn }
    }
}

} // verus!
