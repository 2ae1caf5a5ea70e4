//! Decoding straight into packed little-endian event records, for consumers
//! that want two byte arrays (DVS records and trigger records) rather than
//! event values.
use crate::adapters::{self, evt3};
use crate::adapters::evt3::{dvs_of, run_clock, run_events, run_state, triggers_of, words_of, DecoderState};
use crate::types::{DvsEvent, SliceView, TriggerEvent};
use vstd::prelude::*;

verus! {

/// The packed records of `evs`, one after the other.
pub open spec fn dvs_records(evs: Seq<DvsEvent>) -> Seq<u8>
    decreases evs.len(),
{
    if evs.len() == 0 {
        seq![]
    } else {
        dvs_records(evs.drop_last()) + evs.last().layout()
    }
}

/// The packed records of `evs`, one after the other.
pub open spec fn trigger_records(evs: Seq<TriggerEvent>) -> Seq<u8>
    decreases evs.len(),
{
    if evs.len() == 0 {
        seq![]
    } else {
        trigger_records(evs.drop_last()) + evs.last().layout()
    }
}

/// A decoder together with the records it has produced and not yet handed out.
pub struct Adapter {
    inner: evt3::Adapter,
    dvs_events: Vec<u8>,
    trigger_events: Vec<u8>,
}

impl View for Adapter {
    /// The decoder's state, the DVS records and the trigger records.
    type V = (DecoderState, Seq<u8>, Seq<u8>);

    closed spec fn view(&self) -> (DecoderState, Seq<u8>, Seq<u8>) {
        (self.inner@, self.dvs_events@, self.trigger_events@)
    }
}

impl From<adapters::Adapter> for Adapter {
    fn from(adapter: adapters::Adapter) -> (r: Self)
        ensures
            r@ == (match adapter {
                adapters::Adapter::Evt3(a) => a@,
            }, Seq::<u8>::empty(), Seq::<u8>::empty()),
    {
        match adapter {
            adapters::Adapter::Evt3(inner) => Adapter {
                inner,
                dvs_events: Vec::new(),
                trigger_events: Vec::new(),
            },
        }
    }
}

impl vstd::std_specs::convert::FromSpecImpl<adapters::Adapter> for Adapter {
    open spec fn obeys_from_spec() -> bool {
        false
    }

    /// Not stated here: the records live in vectors, which a spec value cannot
    /// build; `from`'s own contract says what it returns.
    open spec fn from_spec(adapter: adapters::Adapter) -> Adapter {
        arbitrary()
    }
}

fn append_dvs(out: &mut Vec<u8>, evs: &Vec<DvsEvent>)
    ensures
        final(out)@ == old(out)@ + dvs_records(evs@),
{
    let mut i: usize = 0;
    while i < evs.len()
        invariant
            i <= evs@.len(),
            out@ == old(out)@ + dvs_records(evs@.take(i as int)),
        decreases evs@.len() - i,
    {
        let mut bytes = evs[i].as_bytes();
        out.append(&mut bytes);
        proof {
            assert(evs@.take(i + 1).drop_last() =~= evs@.take(i as int));
        }
        i = i + 1;
    }
    assert(evs@.take(i as int) =~= evs@);
}

fn append_triggers(out: &mut Vec<u8>, evs: &Vec<TriggerEvent>)
    ensures
        final(out)@ == old(out)@ + trigger_records(evs@),
{
    let mut i: usize = 0;
    while i < evs.len()
        invariant
            i <= evs@.len(),
            out@ == old(out)@ + trigger_records(evs@.take(i as int)),
        decreases evs@.len() - i,
    {
        let mut bytes = evs[i].as_bytes();
        out.append(&mut bytes);
        proof {
            assert(evs@.take(i + 1).drop_last() =~= evs@.take(i as int));
        }
        i = i + 1;
    }
    assert(evs@.take(i as int) =~= evs@);
}

impl Adapter {
    pub fn current_t(&self) -> (r: u64)
        ensures
            r == evt3::candidate_t(self@.0),
    {
        self.inner.current_t()
    }

    /// Advances the clock over `slice` without producing records.
    pub fn consume(&mut self, slice: &[u8])
        ensures
            final(self)@ == (run_clock(old(self)@.0, words_of(slice@)), old(self)@.1, old(self)@.2),
    {
        self.inner.consume(slice);
    }

    /// Decodes `slice` and appends the packed records of its events.
    pub fn push(&mut self, slice: &[u8])
        ensures
            final(self)@.0 == run_state(old(self)@.0, words_of(slice@)),
            final(self)@.1 == old(self)@.1 + dvs_records(
                dvs_of(run_events(old(self)@.0, words_of(slice@))),
            ),
            final(self)@.2 == old(self)@.2 + trigger_records(
                triggers_of(run_events(old(self)@.0, words_of(slice@))),
            ),
    {
        let mut dvs: Vec<DvsEvent> = Vec::new();
        let mut triggers: Vec<TriggerEvent> = Vec::new();
        self.inner.convert(slice, &mut dvs, &mut triggers);
        assert(dvs@ =~= dvs_of(run_events(old(self)@.0, words_of(slice@))));
        assert(triggers@ =~= triggers_of(run_events(old(self)@.0, words_of(slice@))));
        append_dvs(&mut self.dvs_events, &dvs);
        append_triggers(&mut self.trigger_events, &triggers);
    }

    /// Hands out the records produced so far, DVS then trigger, and starts afresh.
    pub fn take(&mut self) -> (r: (Vec<u8>, Vec<u8>))
        ensures
            r.0@ == old(self)@.1,
            r.1@ == old(self)@.2,
            final(self)@ == (old(self)@.0, Seq::<u8>::empty(), Seq::<u8>::empty()),
    {
        let mut dvs: Vec<u8> = Vec::new();
        let mut triggers: Vec<u8> = Vec::new();
        std::mem::swap(&mut self.dvs_events, &mut dvs);
        std::mem::swap(&mut self.trigger_events, &mut triggers);
        (dvs, triggers)
    }
}

} // verus!
