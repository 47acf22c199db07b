//! The input that waits for a render target's next pass, and the state of
//! text composition (IME) that decides which events are put into it.

use vstd::prelude::*;

verus! {

/// `egui::Event`, an input event of the UI toolkit. Verus does not look
/// inside; the bridge only carries such events to the pass.
#[verifier::external_type_specification]
#[verifier::external_body]
pub struct ExToolkitEvent(egui::Event);

/// A change of the state of text composition.
#[derive(Clone, Copy, Debug, PartialEq, Eq, Structural)]
pub enum ImeEvent {
    /// Composition began.
    Enabled,
    /// Composition ended.
    Disabled,
}

/// An event in a render target's input buffer.
#[derive(Debug)]
pub enum InputEvent {
    /// Text composition began or ended.
    Ime(ImeEvent),
    /// Any other event, as the toolkit takes it.
    Toolkit(egui::Event),
}

/// The events that wait for the next pass of a render target.
#[derive(Debug)]
pub struct EguiInput {
    /// The events, oldest first.
    pub events: Vec<InputEvent>,
}

impl EguiInput {
    /// An empty buffer.
    pub fn new() -> (r: Self)
        ensures
            r.events@ == Seq::<InputEvent>::empty(),
    {
        EguiInput { events: Vec::new() }
    }

    /// Takes the events out for a pass, oldest first, and leaves the buffer
    /// empty.
    pub fn take(&mut self) -> (events: Vec<InputEvent>)
        ensures
            events@ == old(self).events@,
            final(self).events@ == Seq::<InputEvent>::empty(),
    {
        let mut events: Vec<InputEvent> = Vec::new();
        events.append(&mut self.events);
        proof {
            assert(events@ =~= old(self).events@);
        }
        events
    }
}

impl Default for EguiInput {
    /// An empty buffer.
    fn default() -> (r: Self)
        ensures
            r.events@ == Seq::<InputEvent>::empty(),
    {
        EguiInput::new()
    }
}

/// The event that asking for composition to be on (`enable`) or off puts
/// into the buffer when the flag says `sent`: none if the toolkit was told
/// as much already.
pub open spec fn ime_event_for(sent: bool, enable: bool) -> Option<ImeEvent> {
    if enable && !sent {
        Some(ImeEvent::Enabled)
    } else if !enable && sent {
        Some(ImeEvent::Disabled)
    } else {
        None
    }
}

/// The events that a run of requests puts into the buffer, starting from
/// the flag `sent`. Each request asks for composition to be on (`true`) or
/// off.
pub open spec fn ime_events(sent: bool, requests: Seq<bool>) -> Seq<ImeEvent>
    decreases requests.len(),
{
    if requests.len() == 0 {
        Seq::empty()
    } else {
        let before = ime_events(sent, requests.drop_last());
        match ime_event_for(ime_flag(sent, requests.drop_last()), requests.last()) {
            Some(event) => before.push(event),
            None => before,
        }
    }
}

/// The flag after a run of requests: what the last request asked for, or
/// the flag from before if there was none.
pub open spec fn ime_flag(sent: bool, requests: Seq<bool>) -> bool {
    if requests.len() == 0 {
        sent
    } else {
        requests.last()
    }
}

/// The state of a render target's UI context that the bridge keeps beside
/// the toolkit's own.
#[derive(Clone, Copy, Debug, PartialEq, Eq, Structural)]
pub struct EguiContext {
    /// The touch that acts as the pointer, while there is one.
    pub pointer_touch_id: Option<u64>,
    /// Whether the toolkit was told that composition is on, and not yet
    /// that it is off again.
    pub has_sent_ime_enabled: bool,
}

impl EguiContext {
    /// The state of a new context: no touch, composition off.
    pub fn new() -> (r: Self)
        ensures
            r == (EguiContext { pointer_touch_id: None, has_sent_ime_enabled: false }),
    {
        EguiContext { pointer_touch_id: None, has_sent_ime_enabled: false }
    }

    /// Tells the toolkit that composition is on, unless it was told
    /// already: the event goes to the end of `input` once for each stretch
    /// of composition.
    pub fn ime_event_enable(&mut self, input: &mut EguiInput)
        ensures
            final(self).has_sent_ime_enabled,
            final(self).pointer_touch_id == old(self).pointer_touch_id,
            final(input).events@ == (match ime_event_for(old(self).has_sent_ime_enabled, true) {
                Some(event) => old(input).events@.push(InputEvent::Ime(event)),
                None => old(input).events@,
            }),
    {
        if !self.has_sent_ime_enabled {
            input.events.push(InputEvent::Ime(ImeEvent::Enabled));
            self.has_sent_ime_enabled = true;
        }
    }

    /// Tells the toolkit that composition is off, unless it is off as far
    /// as the toolkit knows.
    pub fn ime_event_disable(&mut self, input: &mut EguiInput)
        ensures
            !final(self).has_sent_ime_enabled,
            final(self).pointer_touch_id == old(self).pointer_touch_id,
            final(input).events@ == (match ime_event_for(old(self).has_sent_ime_enabled, false) {
                Some(event) => old(input).events@.push(InputEvent::Ime(event)),
                None => old(input).events@,
            }),
    {
        if self.has_sent_ime_enabled {
            input.events.push(InputEvent::Ime(ImeEvent::Disabled));
            self.has_sent_ime_enabled = false;
        }
    }
}

/// A stage in the life of a touch.
#[derive(Clone, Copy, Debug, PartialEq, Eq, Structural)]
pub enum TouchPhase {
    /// The finger came down.
    Started,
    /// The finger moved.
    Moved,
    /// The finger was lifted.
    Ended,
    /// The host gave the touch up.
    Canceled,
}

/// What the pointer does when a touch is reported. One touch at a time
/// stands in for the mouse.
#[derive(Clone, Copy, Debug, PartialEq, Eq, Structural)]
pub enum PointerAction {
    /// Another touch acts as the pointer: the pointer does nothing.
    Ignore,
    /// The pointer moves to the touch, then its button goes down.
    Press,
    /// The pointer moves to the touch.
    Move,
    /// The button of the pointer goes up, then the pointer is gone.
    Release,
    /// The pointer is gone.
    Gone,
}

impl EguiContext {
    /// Whether the touch `id` acts as the pointer or may begin to: no touch
    /// does so yet, or this one does.
    pub open spec fn follows(self, id: u64) -> bool {
        self.pointer_touch_id is None || self.pointer_touch_id == Some(id)
    }

    /// The touch that acts as the pointer after the touch `id` was reported
    /// in `phase`.
    pub open spec fn touch_after(self, id: u64, phase: TouchPhase) -> Option<u64> {
        if !self.follows(id) {
            self.pointer_touch_id
        } else {
            match phase {
                TouchPhase::Started => Some(id),
                TouchPhase::Moved => self.pointer_touch_id,
                TouchPhase::Ended | TouchPhase::Canceled => None,
            }
        }
    }

    /// What the pointer does when the touch `id` is reported in `phase`.
    pub open spec fn action_for(self, id: u64, phase: TouchPhase) -> PointerAction {
        if !self.follows(id) {
            PointerAction::Ignore
        } else {
            match phase {
                TouchPhase::Started => PointerAction::Press,
                TouchPhase::Moved => PointerAction::Move,
                TouchPhase::Ended => PointerAction::Release,
                TouchPhase::Canceled => PointerAction::Gone,
            }
        }
    }

    /// Takes note of a touch and says what the pointer does for it.
    ///
    /// The first touch that comes down acts as the pointer until it is
    /// lifted or given up; touches that come down meanwhile are not
    /// followed.
    pub fn touch(&mut self, id: u64, phase: TouchPhase) -> (action: PointerAction)
        ensures
            action == old(self).action_for(id, phase),
            final(self).pointer_touch_id == old(self).touch_after(id, phase),
            final(self).has_sent_ime_enabled == old(self).has_sent_ime_enabled,
    {
        let followed = match self.pointer_touch_id {
            None => true,
            Some(current) => current == id,
        };
        if !followed {
            return PointerAction::Ignore;
        }
        match phase {
            TouchPhase::Started => {
                self.pointer_touch_id = Some(id);
                PointerAction::Press
            },
            TouchPhase::Moved => PointerAction::Move,
            TouchPhase::Ended => {
                self.pointer_touch_id = None;
                PointerAction::Release
            },
            TouchPhase::Canceled => {
                self.pointer_touch_id = None;
                PointerAction::Gone
            },
        }
    }
}

impl Default for EguiContext {
    /// The state of a new context: no touch, composition off.
    fn default() -> (r: Self)
        ensures
            r == (EguiContext { pointer_touch_id: None, has_sent_ime_enabled: false }),
    {
        EguiContext::new()
    }
}

/// What to do with a render target's pass in this frame.
#[derive(Debug)]
pub enum PassStart {
    /// Begin the pass with these events; the buffer was emptied.
    Begin(Vec<InputEvent>),
    /// The target is driven by host code: leave it alone.
    Manual,
}

/// Starts the pass of a render target: hands the waiting events over and
/// empties the buffer, unless the target is run manually, in which case the
/// buffer is left as it is for the host code that drives the pass.
pub fn begin_pass_system(run_manually: bool, input: &mut EguiInput) -> (start: PassStart)
    ensures
        run_manually ==> start is Manual && final(input).events@ == old(input).events@,
        !run_manually ==> final(input).events@ == Seq::<InputEvent>::empty() && (start matches PassStart::Begin(
            events,
        ) && events@ == old(input).events@),
{
    if run_manually {
        PassStart::Manual
    } else {
        PassStart::Begin(input.take())
    }
}

/// However often composition is asked to be on or off, the events that
/// reach the toolkit alternate: after `Enabled` comes `Disabled` and the
/// other way round, and the first one is the opposite of what the toolkit
/// knew before. So each stretch of composition is announced once.
pub proof fn lemma_ime_events_alternate(sent: bool, requests: Seq<bool>)
    ensures
        ({
            let events = ime_events(sent, requests);
            &&& events.len() <= requests.len()
            &&& events.len() > 0 ==> events[0] == (if sent {
                ImeEvent::Disabled
            } else {
                ImeEvent::Enabled
            })
            &&& events.len() > 0 ==> events.last() == (if ime_flag(sent, requests) {
                ImeEvent::Enabled
            } else {
                ImeEvent::Disabled
            })
            &&& events.len() == 0 ==> ime_flag(sent, requests) == sent
            &&& forall|i: int| 0 <= i < events.len() - 1 ==> #[trigger] events[i] != events[i + 1]
        }),
    decreases requests.len(),
{
    if requests.len() > 0 {
        lemma_ime_events_alternate(sent, requests.drop_last());
    }
}

} // verus!
