//! Streaming decoder for the EVT3 wire format: little-endian 16-bit words whose
//! high nibble selects an operation and whose low 12 bits carry its field.
use crate::types::{DvsEvent, DvsPolarity, TriggerEvent, TriggerPolarity};
use vstd::prelude::*;

verus! {

/// Everything the decoder remembers between two words.
#[derive(Debug, Clone, Copy, PartialEq, Eq, Structural)]
pub struct DecoderState {
    /// Timestamp of the events emitted now; never decreases.
    pub t: u64,
    /// Number of 24-bit wraparounds of the sensor clock seen so far.
    pub overflows: u32,
    pub previous_msb_t: u16,
    pub previous_lsb_t: u16,
    pub x: u16,
    pub y: u16,
    pub width: u16,
    pub height: u16,
    pub polarity: DvsPolarity,
}

/// One decoded event, in emission order.
#[derive(Debug, Clone, Copy, PartialEq, Eq, Structural)]
pub enum Event {
    Dvs(DvsEvent),
    Trigger(TriggerEvent),
}

impl Event {
    pub open spec fn time(self) -> u64 {
        match self {
            Event::Dvs(e) => e.t,
            Event::Trigger(e) => e.t,
        }
    }
}

/// The `i`-th little-endian word of a byte stream.
pub open spec fn word_at(bytes: Seq<u8>, i: int) -> u16 {
    (bytes[2 * i] as int + bytes[2 * i + 1] as int * 256) as u16
}

/// The words of a byte stream; an odd trailing byte is ignored.
pub open spec fn words_of(bytes: Seq<u8>) -> Seq<u16> {
    Seq::new(bytes.len() / 2, |i: int| word_at(bytes, i))
}

pub open spec fn opcode(word: u16) -> u16 {
    word / 0x1000
}

/// `previous_lsb | previous_msb << 12 | overflows << 24`.
pub open spec fn candidate_t(s: DecoderState) -> int {
    s.previous_lsb_t + s.previous_msb_t * 0x1000 + s.overflows * 0x100_0000
}

/// Adopts the composite timestamp unless it would move time backwards.
pub open spec fn adopt(s: DecoderState) -> DecoderState {
    if candidate_t(s) >= s.t {
        DecoderState { t: candidate_t(s) as u64, ..s }
    } else {
        s
    }
}

pub open spec fn on_lsb(s: DecoderState, lsb: u16) -> DecoderState {
    if lsb != s.previous_lsb_t {
        adopt(DecoderState { previous_lsb_t: lsb, ..s })
    } else {
        s
    }
}

/// The clock fields after an MSB word: a small forward step is taken, a large
/// backward step is a wraparound of the 24-bit clock, anything else is ignored.
pub open spec fn msb_fields(s: DecoderState, msb: u16) -> DecoderState {
    if msb > s.previous_msb_t {
        if msb - s.previous_msb_t < 0x800 {
            DecoderState { previous_lsb_t: 0, previous_msb_t: msb, ..s }
        } else {
            s
        }
    } else if s.previous_msb_t - msb > 0x800 {
        DecoderState {
            overflows: s.overflows.wrapping_add(1),
            previous_lsb_t: 0,
            previous_msb_t: msb,
            ..s
        }
    } else {
        s
    }
}

pub open spec fn on_msb(s: DecoderState, msb: u16) -> DecoderState {
    if msb != s.previous_msb_t {
        adopt(msb_fields(s, msb))
    } else {
        s
    }
}

/// The effect of one word on the clock fields alone.
pub open spec fn clock_step(s: DecoderState, word: u16) -> DecoderState {
    if opcode(word) == 6 {
        on_lsb(s, word % 0x1000)
    } else if opcode(word) == 8 {
        on_msb(s, word % 0x1000)
    } else {
        s
    }
}

pub open spec fn polarity_of(word: u16) -> DvsPolarity {
    if (word / 0x800) % 2 == 1 {
        DvsPolarity::On
    } else {
        DvsPolarity::Off
    }
}

/// Mask width of a pixel-mask opcode (12 for `0100`, 8 for `0101`).
pub open spec fn mask_width(word: u16) -> u16 {
    if opcode(word) == 4 {
        12
    } else {
        8
    }
}

/// Whether the current position lies on the sensor grid.
pub open spec fn on_grid(s: DecoderState) -> bool {
    s.x < s.width && s.y < s.height
}

/// The number of mask bits that may be inspected at the current column.
pub open spec fn mask_span(s: DecoderState, word: u16) -> u16
    recommends
        s.x < s.width,
{
    if ((s.width - s.x) as u16) < mask_width(word) {
        (s.width - s.x) as u16
    } else {
        mask_width(word)
    }
}

/// The decoder state after one word.
pub open spec fn next_state(s: DecoderState, word: u16) -> DecoderState {
    let op = opcode(word);
    if op == 0 {
        let y = word % 0x800;
        DecoderState { y: if y < s.height { (s.height - 1 - y) as u16 } else { y }, ..s }
    } else if op == 2 || op == 3 {
        DecoderState { x: word % 0x800, polarity: polarity_of(word), ..s }
    } else if op == 4 || op == 5 {
        if on_grid(s) {
            DecoderState { x: s.x.wrapping_add(mask_width(word)), ..s }
        } else {
            s
        }
    } else {
        clock_step(s, word)
    }
}

/// The DVS events of the mask bits `i..n` of `m`, bit `i` standing for column `s.x + i`.
pub open spec fn mask_events(s: DecoderState, m: nat, i: nat, n: nat) -> Seq<DvsEvent>
    decreases n - i,
{
    if i >= n {
        seq![]
    } else {
        let here = if m % 2 == 1 {
            seq![DvsEvent { t: s.t, x: (s.x + i) as u16, y: s.y, polarity: s.polarity }]
        } else {
            seq![]
        };
        here + mask_events(s, m / 2, i + 1, n)
    }
}

pub open spec fn as_dvs_events(evs: Seq<DvsEvent>) -> Seq<Event> {
    evs.map_values(|e: DvsEvent| Event::Dvs(e))
}

/// The events that one word emits from state `s`.
pub open spec fn word_events(s: DecoderState, word: u16) -> Seq<Event> {
    let op = opcode(word);
    if op == 2 {
        let x = word % 0x800;
        if x < s.width && s.y < s.height {
            seq![Event::Dvs(DvsEvent { t: s.t, x, y: s.y, polarity: polarity_of(word) })]
        } else {
            seq![]
        }
    } else if op == 4 || op == 5 {
        if on_grid(s) {
            as_dvs_events(mask_events(s, word as nat, 0, mask_span(s, word) as nat))
        } else {
            seq![]
        }
    } else if op == 10 {
        seq![
            Event::Trigger(
                TriggerEvent {
                    t: s.t,
                    id: ((word / 0x100) % 0x10) as u8,
                    polarity: if word % 2 == 1 {
                        TriggerPolarity::Rising
                    } else {
                        TriggerPolarity::Falling
                    },
                },
            ),
        ]
    } else {
        seq![]
    }
}

/// The decoder state after a run of words.
pub open spec fn run_state(s: DecoderState, words: Seq<u16>) -> DecoderState
    decreases words.len(),
{
    if words.len() == 0 {
        s
    } else {
        next_state(run_state(s, words.drop_last()), words.last())
    }
}

/// The events that a run of words emits, in order.
pub open spec fn run_events(s: DecoderState, words: Seq<u16>) -> Seq<Event>
    decreases words.len(),
{
    if words.len() == 0 {
        seq![]
    } else {
        run_events(s, words.drop_last()) + word_events(
            run_state(s, words.drop_last()),
            words.last(),
        )
    }
}

/// The decoder state after a run of words whose addresses and events are skipped.
pub open spec fn run_clock(s: DecoderState, words: Seq<u16>) -> DecoderState
    decreases words.len(),
{
    if words.len() == 0 {
        s
    } else {
        clock_step(run_clock(s, words.drop_last()), words.last())
    }
}

/// The DVS events among `evs`, in order.
pub open spec fn dvs_of(evs: Seq<Event>) -> Seq<DvsEvent>
    decreases evs.len(),
{
    if evs.len() == 0 {
        seq![]
    } else {
        dvs_of(evs.drop_last()) + match evs.last() {
            Event::Dvs(e) => seq![e],
            Event::Trigger(_) => seq![],
        }
    }
}

/// The trigger events among `evs`, in order.
pub open spec fn triggers_of(evs: Seq<Event>) -> Seq<TriggerEvent>
    decreases evs.len(),
{
    if evs.len() == 0 {
        seq![]
    } else {
        triggers_of(evs.drop_last()) + match evs.last() {
            Event::Trigger(e) => seq![e],
            Event::Dvs(_) => seq![],
        }
    }
}

/// Two states that agree on the timestamp fields.
pub open spec fn same_clock(a: DecoderState, b: DecoderState) -> bool {
    a.t == b.t && a.previous_lsb_t == b.previous_lsb_t && a.previous_msb_t == b.previous_msb_t
        && a.overflows == b.overflows
}

proof fn lemma_filters_concat(a: Seq<Event>, b: Seq<Event>)
    ensures
        dvs_of(a + b) == dvs_of(a) + dvs_of(b),
        triggers_of(a + b) == triggers_of(a) + triggers_of(b),
    decreases b.len(),
{
    if b.len() == 0 {
        assert(a + b =~= a);
        assert(dvs_of(a) + dvs_of(b) =~= dvs_of(a));
        assert(triggers_of(a) + triggers_of(b) =~= triggers_of(a));
    } else {
        assert((a + b).drop_last() =~= a + b.drop_last());
        assert((a + b).last() == b.last());
        lemma_filters_concat(a, b.drop_last());
        match b.last() {
            Event::Dvs(e) => {
                assert(dvs_of(a + b) =~= dvs_of(a) + dvs_of(b));
                assert(triggers_of(a + b) =~= triggers_of(a) + triggers_of(b));
            },
            Event::Trigger(e) => {
                assert(dvs_of(a + b) =~= dvs_of(a) + dvs_of(b));
                assert(triggers_of(a + b) =~= triggers_of(a) + triggers_of(b));
            },
        }
    }
}

proof fn lemma_dvs_only(evs: Seq<DvsEvent>)
    ensures
        dvs_of(as_dvs_events(evs)) == evs,
        triggers_of(as_dvs_events(evs)) == Seq::<TriggerEvent>::empty(),
    decreases evs.len(),
{
    if evs.len() == 0 {
        assert(as_dvs_events(evs) =~= Seq::<Event>::empty());
    } else {
        assert(as_dvs_events(evs).drop_last() =~= as_dvs_events(evs.drop_last()));
        lemma_dvs_only(evs.drop_last());
        assert(dvs_of(as_dvs_events(evs)) =~= evs);
        assert(triggers_of(as_dvs_events(evs)) =~= Seq::<TriggerEvent>::empty());
    }
}

proof fn lemma_single_event(e: Event)
    ensures
        dvs_of(seq![e]) == match e {
            Event::Dvs(d) => seq![d],
            Event::Trigger(_) => Seq::<DvsEvent>::empty(),
        },
        triggers_of(seq![e]) == match e {
            Event::Trigger(g) => seq![g],
            Event::Dvs(_) => Seq::<TriggerEvent>::empty(),
        },
{
    let one = seq![e];
    assert(one.drop_last() =~= Seq::<Event>::empty());
    assert(one.last() == e);
    assert(dvs_of(one.drop_last()) == Seq::<DvsEvent>::empty());
    assert(triggers_of(one.drop_last()) == Seq::<TriggerEvent>::empty());
    match e {
        Event::Dvs(d) => {
            assert(dvs_of(one) =~= seq![d]);
            assert(triggers_of(one) =~= Seq::<TriggerEvent>::empty());
        },
        Event::Trigger(g) => {
            assert(dvs_of(one) =~= Seq::<DvsEvent>::empty());
            assert(triggers_of(one) =~= seq![g]);
        },
    }
}

impl DecoderState {
    /// `previous_lsb | previous_msb << 12 | overflows << 24`, as arithmetic.
    fn composite_t(&self) -> (r: u64)
        ensures
            r == candidate_t(*self),
    {
        (self.previous_lsb_t as u64) + (self.previous_msb_t as u64) * 0x1000 + (self.overflows as u64)
            * 0x100_0000
    }

    fn adopt(&mut self)
        ensures
            *final(self) == adopt(*old(self)),
    {
        let candidate = self.composite_t();
        if candidate >= self.t {
            self.t = candidate;
        }
    }

    /// Applies a word to the clock fields only.
    fn tick(&mut self, word: u16)
        ensures
            *final(self) == clock_step(*old(self), word),
    {
        let op = word / 0x1000;
        if op == 6 {
            let lsb = word % 0x1000;
            if lsb != self.previous_lsb_t {
                self.previous_lsb_t = lsb;
                self.adopt();
            }
        } else if op == 8 {
            let msb = word % 0x1000;
            if msb != self.previous_msb_t {
                if msb > self.previous_msb_t {
                    if msb - self.previous_msb_t < 0x800 {
                        self.previous_lsb_t = 0;
                        self.previous_msb_t = msb;
                    }
                } else if self.previous_msb_t - msb > 0x800 {
                    self.overflows = self.overflows.wrapping_add(1);
                    self.previous_lsb_t = 0;
                    self.previous_msb_t = msb;
                }
                self.adopt();
            }
        }
    }

    /// Applies a word to the whole state.
    fn step(&mut self, word: u16)
        ensures
            *final(self) == next_state(*old(self), word),
    {
        let op = word / 0x1000;
        if op == 0 {
            let y = word % 0x800;
            self.y = if y < self.height {
                self.height - 1 - y
            } else {
                y
            };
        } else if op == 2 || op == 3 {
            self.x = word % 0x800;
            self.polarity = if (word / 0x800) % 2 == 1 {
                DvsPolarity::On
            } else {
                DvsPolarity::Off
            };
        } else if op == 4 || op == 5 {
            if self.x < self.width && self.y < self.height {
                let width: u16 = if op == 4 {
                    12
                } else {
                    8
                };
                self.x = self.x.wrapping_add(width);
            }
        } else {
            self.tick(word);
        }
    }

    /// The number of mask bits that may be inspected at the current column.
    fn span(&self, word: u16) -> (r: u16)
        requires
            self.x < self.width,
            opcode(word) == 4 || opcode(word) == 5,
        ensures
            r == mask_span(*self, word),
            self.x + r <= self.width,
            r <= 12,
    {
        let width: u16 = if word / 0x1000 == 4 {
            12
        } else {
            8
        };
        let room = self.width - self.x;
        if room < width {
            room
        } else {
            width
        }
    }

    fn emit_mask(&self, word: u16, n: u16, dvs_events: &mut Vec<DvsEvent>)
        requires
            self.x + n <= self.width,
        ensures
            final(dvs_events)@ == old(dvs_events)@ + mask_events(*self, word as nat, 0, n as nat),
    {
        let mut m = word;
        let mut bit: u16 = 0;
        let ghost done: Seq<DvsEvent> = seq![];
        while bit < n
            invariant
                bit <= n,
                self.x + n <= self.width,
                dvs_events@ == old(dvs_events)@ + done,
                done + mask_events(*self, m as nat, bit as nat, n as nat) == mask_events(
                    *self,
                    word as nat,
                    0,
                    n as nat,
                ),
            decreases n - bit,
        {
            let ghost rest = mask_events(*self, m as nat / 2, bit as nat + 1, n as nat);
            if m % 2 == 1 {
                let e = DvsEvent { t: self.t, x: self.x + bit, y: self.y, polarity: self.polarity };
                dvs_events.push(e);
                proof {
                    assert(done + seq![e] + rest =~= done + (seq![e] + rest));
                    done = done + seq![e];
                }
            } else {
                assert(done + (Seq::<DvsEvent>::empty() + rest) =~= done + rest);
            }
            m = m / 2;
            bit = bit + 1;
        }
    }

    fn count_mask(&self, word: u16, n: u16) -> (r: usize)
        ensures
            r == mask_events(*self, word as nat, 0, n as nat).len(),
            r <= n,
    {
        let mut m = word;
        let mut bit: u16 = 0;
        let mut count: usize = 0;
        while bit < n
            invariant
                bit <= n,
                count <= bit,
                count + mask_events(*self, m as nat, bit as nat, n as nat).len() == mask_events(
                    *self,
                    word as nat,
                    0,
                    n as nat,
                ).len(),
            decreases n - bit,
        {
            if m % 2 == 1 {
                count = count + 1;
            }
            m = m / 2;
            bit = bit + 1;
        }
        count
    }

    /// Appends the events of one word to the two outputs.
    fn emit(&self, word: u16, dvs_events: &mut Vec<DvsEvent>, trigger_events: &mut Vec<TriggerEvent>)
        ensures
            final(dvs_events)@ == old(dvs_events)@ + dvs_of(word_events(*self, word)),
            final(trigger_events)@ == old(trigger_events)@ + triggers_of(word_events(*self, word)),
    {
        let op = word / 0x1000;
        if op == 2 {
            let x = word % 0x800;
            if x < self.width && self.y < self.height {
                let polarity = if (word / 0x800) % 2 == 1 {
                    DvsPolarity::On
                } else {
                    DvsPolarity::Off
                };
                let e = DvsEvent { t: self.t, x, y: self.y, polarity };
                dvs_events.push(e);
                proof {
                    lemma_single_event(Event::Dvs(e));
                }
            } else {
                assert(dvs_of(word_events(*self, word)) =~= Seq::<DvsEvent>::empty());
                assert(triggers_of(word_events(*self, word)) =~= Seq::<TriggerEvent>::empty());
            }
        } else if op == 4 || op == 5 {
            if self.x < self.width && self.y < self.height {
                let n = self.span(word);
                self.emit_mask(word, n, dvs_events);
                proof {
                    lemma_dvs_only(mask_events(*self, word as nat, 0, n as nat));
                }
            }
        } else if op == 10 {
            let e = TriggerEvent {
                t: self.t,
                id: ((word / 0x100) % 0x10) as u8,
                polarity: if word % 2 == 1 {
                    TriggerPolarity::Rising
                } else {
                    TriggerPolarity::Falling
                },
            };
            trigger_events.push(e);
            proof {
                lemma_single_event(Event::Trigger(e));
            }
        }
        assert(final(dvs_events)@ =~= old(dvs_events)@ + dvs_of(word_events(*self, word)));
        assert(final(trigger_events)@ =~= old(trigger_events)@ + triggers_of(word_events(*self, word)));
    }

    /// The number of DVS and trigger events of one word.
    fn count(&self, word: u16) -> (r: (usize, usize))
        ensures
            r.0 == dvs_of(word_events(*self, word)).len(),
            r.1 == triggers_of(word_events(*self, word)).len(),
            r.0 <= 12,
            r.1 <= 1,
    {
        let op = word / 0x1000;
        if op == 2 {
            let x = word % 0x800;
            if x < self.width && self.y < self.height {
                proof {
                    lemma_single_event(word_events(*self, word)[0]);
                    assert(word_events(*self, word) =~= seq![word_events(*self, word)[0]]);
                }
                (1, 0)
            } else {
                (0, 0)
            }
        } else if op == 4 || op == 5 {
            if self.x < self.width && self.y < self.height {
                let n = self.span(word);
                proof {
                    lemma_dvs_only(mask_events(*self, word as nat, 0, n as nat));
                }
                (self.count_mask(word, n), 0)
            } else {
                (0, 0)
            }
        } else if op == 10 {
            proof {
                lemma_single_event(word_events(*self, word)[0]);
                assert(word_events(*self, word) =~= seq![word_events(*self, word)[0]]);
            }
            (0, 1)
        } else {
            (0, 0)
        }
    }
}

fn read_word(slice: &[u8], index: usize) -> (r: u16)
    requires
        index < slice@.len() / 2,
    ensures
        r == words_of(slice@)[index as int],
{
    let len = slice.len();
    assert(2 * index + 1 < slice@.len()) by (nonlinear_arith)
        requires
            index < slice@.len() / 2,
    ;
    slice[2 * index] as u16 + (slice[2 * index + 1] as u16) * 256
}

/// The EVT3 decoder: a position on the sensor grid, a polarity and a clock that
/// persist across calls, so that a stream may be fed in pieces.
#[derive(Debug, Clone, Copy)]
pub struct Adapter {
    state: DecoderState,
}

impl View for Adapter {
    type V = DecoderState;

    closed spec fn view(&self) -> DecoderState {
        self.state
    }
}

impl Adapter {
    /// A decoder for a sensor of the given size, at time zero.
    pub fn from_dimensions(width: u16, height: u16) -> (r: Self)
        ensures
            r@ == (DecoderState {
                t: 0,
                overflows: 0,
                previous_msb_t: 0,
                previous_lsb_t: 0,
                x: 0,
                y: 0,
                width,
                height,
                polarity: DvsPolarity::Off,
            }),
    {
        Adapter {
            state: DecoderState {
                t: 0,
                overflows: 0,
                previous_msb_t: 0,
                previous_lsb_t: 0,
                x: 0,
                y: 0,
                width,
                height,
                polarity: DvsPolarity::Off,
            },
        }
    }

    /// The exact numbers of DVS and trigger events that `convert` would emit
    /// for `slice` from the current state.
    pub fn events_lengths(&self, slice: &[u8]) -> (r: (usize, usize))
        requires
            slice@.len() <= usize::MAX / 6,
        ensures
            r.0 == dvs_of(run_events(self@, words_of(slice@))).len(),
            r.1 == triggers_of(run_events(self@, words_of(slice@))).len(),
    {
        let ghost words = words_of(slice@);
        let count = slice.len() / 2;
        let mut state = self.state;
        let mut dvs: usize = 0;
        let mut triggers: usize = 0;
        let mut index: usize = 0;
        while index < count
            invariant
                index <= count,
                count == slice@.len() / 2,
                count <= usize::MAX / 12,
                words == words_of(slice@),
                state == run_state(self@, words.take(index as int)),
                dvs == dvs_of(run_events(self@, words.take(index as int))).len(),
                triggers == triggers_of(run_events(self@, words.take(index as int))).len(),
                dvs <= 12 * index,
                triggers <= index,
            decreases count - index,
        {
            let word = read_word(slice, index);
            let ghost before = state;
            let (d, g) = state.count(word);
            state.step(word);
            proof {
                assert(words.take(index + 1).drop_last() =~= words.take(index as int));
                lemma_filters_concat(
                    run_events(self@, words.take(index as int)),
                    word_events(before, word),
                );
            }
            dvs = dvs + d;
            triggers = triggers + g;
            index = index + 1;
        }
        assert(words.take(count as int) =~= words);
        (dvs, triggers)
    }

    /// `previous_lsb | previous_msb << 12 | overflows << 24`.
    pub fn current_t(&self) -> (r: u64)
        ensures
            r == candidate_t(self@),
    {
        self.state.composite_t()
    }

    /// Decodes `slice`, appending its DVS events to `dvs_events` and its trigger
    /// events to `trigger_events`, in emission order.
    pub fn convert(
        &mut self,
        slice: &[u8],
        dvs_events: &mut Vec<DvsEvent>,
        trigger_events: &mut Vec<TriggerEvent>,
    )
        ensures
            final(self)@ == run_state(old(self)@, words_of(slice@)),
            final(dvs_events)@ == old(dvs_events)@ + dvs_of(
                run_events(old(self)@, words_of(slice@)),
            ),
            final(trigger_events)@ == old(trigger_events)@ + triggers_of(
                run_events(old(self)@, words_of(slice@)),
            ),
    {
        let ghost start = self@;
        let ghost words = words_of(slice@);
        let count = slice.len() / 2;
        let mut index: usize = 0;
        while index < count
            invariant
                index <= count,
                count == slice@.len() / 2,
                words == words_of(slice@),
                start == old(self)@,
                self@ == run_state(start, words.take(index as int)),
                dvs_events@ == old(dvs_events)@ + dvs_of(run_events(start, words.take(index as int))),
                trigger_events@ == old(trigger_events)@ + triggers_of(
                    run_events(start, words.take(index as int)),
                ),
            decreases count - index,
        {
            let word = read_word(slice, index);
            let ghost before = self@;
            self.state.emit(word, dvs_events, trigger_events);
            self.state.step(word);
            proof {
                assert(words.take(index + 1).drop_last() =~= words.take(index as int));
                lemma_filters_concat(
                    run_events(start, words.take(index as int)),
                    word_events(before, word),
                );
            }
            index = index + 1;
        }
        assert(words.take(count as int) =~= words);
    }

    /// Advances the clock over `slice` as `convert` would, skipping addresses and
    /// events: a way to drop a backlog without losing the timeline.
    pub fn consume(&mut self, slice: &[u8])
        ensures
            final(self)@ == run_clock(old(self)@, words_of(slice@)),
    {
        let ghost start = self@;
        let ghost words = words_of(slice@);
        let count = slice.len() / 2;
        let mut index: usize = 0;
        while index < count
            invariant
                index <= count,
                count == slice@.len() / 2,
                words == words_of(slice@),
                start == old(self)@,
                self@ == run_clock(start, words.take(index as int)),
            decreases count - index,
        {
            let word = read_word(slice, index);
            self.state.tick(word);
            proof {
                assert(words.take(index + 1).drop_last() =~= words.take(index as int));
            }
            index = index + 1;
        }
        assert(words.take(count as int) =~= words);
    }
}

proof fn lemma_mask_events(s: DecoderState, m: nat, i: nat, n: nat)
    requires
        s.x + n <= 0xFFFF,
    ensures
        forall|k: int|
            0 <= k < mask_events(s, m, i, n).len() ==> {
                let e = #[trigger] mask_events(s, m, i, n)[k];
                &&& e.t == s.t
                &&& e.y == s.y
                &&& s.x <= e.x < s.x + n
            },
    decreases n - i,
{
    if i < n {
        lemma_mask_events(s, m / 2, i + 1, n);
    }
}

/// Facts about a single word: its events carry the current time and lie on the
/// grid, the clock does not go back, and the sensor size is kept.
proof fn lemma_word(s: DecoderState, word: u16)
    ensures
        next_state(s, word).t >= s.t,
        next_state(s, word).width == s.width,
        next_state(s, word).height == s.height,
        forall|k: int|
            0 <= k < word_events(s, word).len() ==> (#[trigger] word_events(s, word)[k]).time()
                == s.t,
        forall|k: int|
            0 <= k < word_events(s, word).len() ==> match #[trigger] word_events(s, word)[k] {
                Event::Dvs(e) => e.x < s.width && e.y < s.height,
                Event::Trigger(_) => true,
            },
{
    let op = opcode(word);
    if (op == 4 || op == 5) && on_grid(s) {
        let n = mask_span(s, word);
        lemma_mask_events(s, word as nat, 0, n as nat);
    }
}

/// Decoded events come out in time order, and none is later than the clock.
pub proof fn lemma_events_in_time_order(s: DecoderState, words: Seq<u16>)
    ensures
        forall|i: int, j: int|
            0 <= i <= j < run_events(s, words).len() ==> (#[trigger] run_events(s, words)[i]).time()
                <= (#[trigger] run_events(s, words)[j]).time(),
        forall|i: int|
            0 <= i < run_events(s, words).len() ==> (#[trigger] run_events(s, words)[i]).time()
                <= run_state(s, words).t,
        run_state(s, words).t >= s.t,
    decreases words.len(),
{
    if words.len() > 0 {
        let prefix = words.drop_last();
        lemma_events_in_time_order(s, prefix);
        let before = run_state(s, prefix);
        lemma_word(before, words.last());
        let a = run_events(s, prefix);
        let b = word_events(before, words.last());
        assert(run_events(s, words) == a + b);
        assert forall|i: int, j: int|
            0 <= i <= j < run_events(s, words).len() implies (
            #[trigger] run_events(s, words)[i]).time() <= (
            #[trigger] run_events(s, words)[j]).time() by {
            if j < a.len() {
                assert(a[i] == run_events(s, words)[i]);
                assert(a[j] == run_events(s, words)[j]);
            } else if i < a.len() {
                assert(a[i] == run_events(s, words)[i]);
                assert(b[j - a.len()] == run_events(s, words)[j]);
            } else {
                assert(b[i - a.len()] == run_events(s, words)[i]);
                assert(b[j - a.len()] == run_events(s, words)[j]);
            }
        }
        assert forall|i: int|
            0 <= i < run_events(s, words).len() implies (#[trigger] run_events(
                s,
                words,
            )[i]).time() <= run_state(s, words).t by {
            if i < a.len() {
                assert(a[i] == run_events(s, words)[i]);
            } else {
                assert(b[i - a.len()] == run_events(s, words)[i]);
            }
        }
    }
}

/// Every decoded DVS event lies on the sensor grid, and the sensor size never changes.
pub proof fn lemma_events_on_grid(s: DecoderState, words: Seq<u16>)
    ensures
        run_state(s, words).width == s.width,
        run_state(s, words).height == s.height,
        forall|i: int|
            0 <= i < run_events(s, words).len() ==> match #[trigger] run_events(s, words)[i] {
                Event::Dvs(e) => e.x < s.width && e.y < s.height,
                Event::Trigger(_) => true,
            },
    decreases words.len(),
{
    if words.len() > 0 {
        let prefix = words.drop_last();
        lemma_events_on_grid(s, prefix);
        let before = run_state(s, prefix);
        lemma_word(before, words.last());
        let a = run_events(s, prefix);
        let b = word_events(before, words.last());
        assert(run_events(s, words) == a + b);
        assert forall|i: int| 0 <= i < run_events(s, words).len() implies match #[trigger] run_events(
            s,
            words,
        )[i] {
            Event::Dvs(e) => e.x < s.width && e.y < s.height,
            Event::Trigger(_) => true,
        } by {
            if i < a.len() {
                assert(a[i] == run_events(s, words)[i]);
            } else {
                assert(b[i - a.len()] == run_events(s, words)[i]);
            }
        }
    }
}

proof fn lemma_step_clock(a: DecoderState, b: DecoderState, word: u16)
    requires
        same_clock(a, b),
    ensures
        same_clock(next_state(a, word), clock_step(b, word)),
        clock_step(b, word).x == b.x,
        clock_step(b, word).y == b.y,
        clock_step(b, word).polarity == b.polarity,
        clock_step(b, word).width == b.width,
        clock_step(b, word).height == b.height,
{
}

/// Skipping a stream with `consume` leaves the clock exactly where decoding it
/// with `convert` would, and leaves the position, polarity and sensor size alone.
pub proof fn lemma_consume_keeps_clock(s: DecoderState, words: Seq<u16>)
    ensures
        same_clock(run_state(s, words), run_clock(s, words)),
        run_clock(s, words).x == s.x,
        run_clock(s, words).y == s.y,
        run_clock(s, words).polarity == s.polarity,
        run_clock(s, words).width == s.width,
        run_clock(s, words).height == s.height,
    decreases words.len(),
{
    if words.len() > 0 {
        lemma_consume_keeps_clock(s, words.drop_last());
        lemma_step_clock(
            run_state(s, words.drop_last()),
            run_clock(s, words.drop_last()),
            words.last(),
        );
    }
}

proof fn lemma_run_concat(s: DecoderState, u: Seq<u16>, v: Seq<u16>)
    ensures
        run_state(s, u + v) == run_state(run_state(s, u), v),
        run_events(s, u + v) == run_events(s, u) + run_events(run_state(s, u), v),
    decreases v.len(),
{
    if v.len() == 0 {
        assert(u + v =~= u);
        assert(run_events(s, u) + run_events(run_state(s, u), v) =~= run_events(s, u));
    } else {
        assert((u + v).drop_last() =~= u + v.drop_last());
        assert((u + v).last() == v.last());
        lemma_run_concat(s, u, v.drop_last());
        assert(run_events(s, u + v) =~= run_events(s, u) + run_events(run_state(s, u), v));
    }
}

/// Feeding a stream in two pieces, split at an even offset, gives the same final
/// state and the same events, in the same order, as feeding it whole.
pub proof fn lemma_split_stream(s: DecoderState, a: Seq<u8>, b: Seq<u8>)
    requires
        a.len() % 2 == 0,
    ensures
        words_of(a + b) == words_of(a) + words_of(b),
        run_state(s, words_of(a + b)) == run_state(run_state(s, words_of(a)), words_of(b)),
        run_events(s, words_of(a + b)) == run_events(s, words_of(a)) + run_events(
            run_state(s, words_of(a)),
            words_of(b),
        ),
{
    assert(words_of(a + b) =~= words_of(a) + words_of(b));
    lemma_run_concat(s, words_of(a), words_of(b));
}

} // verus!
