//! The device readers: what an input event means, and when a reader grabs its device, waits,
//! reads and stops.

use crate::codes::{BTN_MODE, REL_WHEEL, REL_X, REL_Y};
use crate::session::Msg;
use vstd::prelude::*;

verus! {

/// An input event, as far as it concerns the merging: what it is about, its code and value.
#[derive(Debug, Clone, Copy, PartialEq, Eq, Structural)]
pub enum RawEvent {
    Key(u16, i32),
    RelativeAxis(u16, i32),
    AbsoluteAxis(u16, i32),
    Other,
}

/// The event type of buttons and keys.
pub const EV_KEY: u16 = 0x01;

/// The event type of relative axes.
pub const EV_REL: u16 = 0x02;

/// The event type of absolute axes.
pub const EV_ABS: u16 = 0x03;

/// What an event of this type, code and value is about.
pub open spec fn event_kind(event_type: u16, code: u16, value: i32) -> RawEvent {
    if event_type == EV_KEY {
        RawEvent::Key(code, value)
    } else if event_type == EV_REL {
        RawEvent::RelativeAxis(code, value)
    } else if event_type == EV_ABS {
        RawEvent::AbsoluteAxis(code, value)
    } else {
        RawEvent::Other
    }
}

/// Calls `evdev::InputEvent::destructure` on the event with this type, code and value. Claimed
/// of it: the summary is a key for type 1, a relative axis for type 2 and an absolute axis for
/// type 3, each with the event's own code and value, and none of these for any other type.
#[verifier::external_body]
fn destructure(event_type: u16, code: u16, value: i32) -> (r: RawEvent)
    ensures
        r == event_kind(event_type, code, value),
{
    match evdev::InputEvent::new(event_type, code, value).destructure() {
        evdev::EventSummary::Key(_, c, v) => RawEvent::Key(c.0, v),
        evdev::EventSummary::RelativeAxis(_, c, v) => RawEvent::RelativeAxis(c.0, v),
        evdev::EventSummary::AbsoluteAxis(_, c, v) => RawEvent::AbsoluteAxis(c.0, v),
        _ => RawEvent::Other,
    }
}

/// -1, 0 or 1: which way a value points.
pub open spec fn sign(v: i32) -> i32 {
    if v > 0 {
        1i32
    } else if v < 0 {
        (-1) as i32
    } else {
        0i32
    }
}

/// The message that a mouse event gives.
pub open spec fn mouse_message(ev: RawEvent) -> Option<Msg> {
    match ev {
        RawEvent::RelativeAxis(code, v) => if code == REL_X {
            Some(Msg::MouseRel(v, 0))
        } else if code == REL_Y {
            Some(Msg::MouseRel(0, v))
        } else if code == REL_WHEEL && v != 0 {
            Some(Msg::MouseWheel(sign(v)))
        } else {
            None
        },
        RawEvent::Key(code, v) => Some(Msg::MouseButton(code, v != 0)),
        RawEvent::AbsoluteAxis(code, v) => Some(Msg::PadAbs(code, v)),
        RawEvent::Other => None,
    }
}

/// The message that a gamepad event gives. The PS button toggles when it is pressed, and is
/// never forwarded as a button.
pub open spec fn pad_message(ev: RawEvent) -> Option<Msg> {
    match ev {
        RawEvent::Key(code, v) => if code != BTN_MODE {
            Some(Msg::PadKey(code, v))
        } else if v == 1 {
            Some(Msg::TogglePs)
        } else {
            None
        },
        RawEvent::AbsoluteAxis(code, v) => Some(Msg::PadAbs(code, v)),
        RawEvent::RelativeAxis(_, _) => None,
        RawEvent::Other => None,
    }
}

/// The message that an event gives, if any.
pub fn interpret(is_mouse: bool, ev: RawEvent) -> (r: Option<Msg>)
    ensures
        is_mouse ==> r == mouse_message(ev),
        !is_mouse ==> r == pad_message(ev),
{
    match ev {
        RawEvent::RelativeAxis(code, val) => if !is_mouse {
            None
        } else {
            match code {
                REL_X => Some(Msg::MouseRel(val, 0)),
                REL_Y => Some(Msg::MouseRel(0, val)),
                REL_WHEEL => if val > 0 {
                    Some(Msg::MouseWheel(1))
                } else if val < 0 {
                    Some(Msg::MouseWheel(-1))
                } else {
                    None
                },
                _ => None,
            }
        },
        RawEvent::Key(code, val) => if is_mouse {
            Some(Msg::MouseButton(code, val != 0))
        } else if code == BTN_MODE {
            if val == 1 {
                Some(Msg::TogglePs)
            } else {
                None
            }
        } else {
            Some(Msg::PadKey(code, val))
        },
        RawEvent::AbsoluteAxis(code, val) => Some(Msg::PadAbs(code, val)),
        RawEvent::Other => None,
    }
}

/// The message that an event as the kernel reports it gives, if any.
pub fn read_event(is_mouse: bool, event_type: u16, code: u16, value: i32) -> (r: Option<Msg>)
    ensures
        is_mouse ==> r == mouse_message(event_kind(event_type, code, value)),
        !is_mouse ==> r == pad_message(event_kind(event_type, code, value)),
{
    interpret(is_mouse, destructure(event_type, code, value))
}

/// An input event as the kernel reports it.
#[derive(Debug, Clone, Copy, PartialEq, Eq, Structural)]
pub struct Report {
    pub event_type: u16,
    pub code: u16,
    pub value: i32,
}

/// The message that a report gives, if any.
pub open spec fn report_message(is_mouse: bool, e: Report) -> Option<Msg> {
    if is_mouse {
        mouse_message(event_kind(e.event_type, e.code, e.value))
    } else {
        pad_message(event_kind(e.event_type, e.code, e.value))
    }
}

/// The messages that a batch of reports gives, in the order of the reports.
pub open spec fn batch_messages(is_mouse: bool, reports: Seq<Report>) -> Seq<Msg>
    decreases reports.len(),
{
    if reports.len() == 0 {
        Seq::empty()
    } else {
        let before = batch_messages(is_mouse, reports.drop_last());
        match report_message(is_mouse, reports.last()) {
            Some(m) => before.push(m),
            None => before,
        }
    }
}

/// What a reader is called in messages to the user.
pub fn dev_kind(is_mouse: bool) -> (r: &'static str)
    ensures
        is_mouse ==> r@ == "mouse"@,
        !is_mouse ==> r@ == "pad"@,
{
    if is_mouse {
        "mouse"
    } else {
        "pad"
    }
}

/// A reader and whether its device is grabbed.
#[derive(Debug, Clone, Copy, PartialEq, Eq, Structural)]
pub struct Reader {
    pub is_mouse: bool,
    pub grabbed: bool,
}

/// What a reader does before it waits for input.
#[derive(Debug, Clone, Copy, PartialEq, Eq, Structural)]
pub enum Plan {
    Stop,
    Wait,
    /// Grab the device, then wait.
    GrabAndWait,
    /// Release the device, then wait.
    UngrabAndWait,
}

/// What came out of waiting for input.
#[derive(Debug, Clone, Copy, PartialEq, Eq, Structural)]
pub enum PollOutcome {
    TimedOut,
    Ready,
    Interrupted,
    Failed,
}

/// What a reader does after it has waited.
#[derive(Debug, Clone, Copy, PartialEq, Eq, Structural)]
pub enum AfterPoll {
    /// Start over: see whether to stop or to grab.
    StartOver,
    Read,
    /// Report the failure and stop.
    Fail,
}

/// The reader once it has made its plan. A mouse goes with the active flag.
pub open spec fn after_plan(r: Reader, quit: bool, active: bool) -> Reader {
    if r.is_mouse && !quit {
        Reader { grabbed: active, ..r }
    } else {
        r
    }
}

/// What a reader does before it waits: it stops when asked to, and grabs or releases its device
/// where that changes.
pub open spec fn plan_of(r: Reader, quit: bool, active: bool) -> Plan {
    let grabbed = after_plan(r, quit, active).grabbed;
    if quit {
        Plan::Stop
    } else if grabbed == r.grabbed {
        Plan::Wait
    } else if grabbed {
        Plan::GrabAndWait
    } else {
        Plan::UngrabAndWait
    }
}

/// The reader after it has planned so many times, with these flags for quit and active.
pub open spec fn after_plans(r: Reader, flags: Seq<(bool, bool)>) -> Reader
    decreases flags.len(),
{
    if flags.len() == 0 {
        r
    } else {
        after_plan(after_plans(r, flags.drop_last()), flags.last().0, flags.last().1)
    }
}

/// However often the session is paused and resumed, the gamepad stays grabbed.
pub proof fn pad_stays_grabbed(r: Reader, flags: Seq<(bool, bool)>)
    requires
        !r.is_mouse,
    ensures
        after_plans(r, flags) == r,
    decreases flags.len(),
{
    if flags.len() > 0 {
        pad_stays_grabbed(r, flags.drop_last());
    }
}

/// A mouse that goes on reading is grabbed exactly while the session is active, whatever came
/// before: pausing frees the cursor.
pub proof fn mouse_follows_active(r: Reader, flags: Seq<(bool, bool)>)
    requires
        r.is_mouse,
        flags.len() > 0,
        !flags.last().0,
    ensures
        after_plans(r, flags).grabbed == flags.last().1,
{
    lemma_plans_keep_kind(r, flags.drop_last());
}

/// A reader stays the reader of its kind of device.
proof fn lemma_plans_keep_kind(r: Reader, flags: Seq<(bool, bool)>)
    ensures
        after_plans(r, flags).is_mouse == r.is_mouse,
    decreases flags.len(),
{
    if flags.len() > 0 {
        lemma_plans_keep_kind(r, flags.drop_last());
    }
}

impl Reader {
    /// A reader whose device has just been grabbed.
    pub fn new(is_mouse: bool) -> (r: Reader)
        ensures
            r.is_mouse == is_mouse,
            r.grabbed,
    {
        Reader { is_mouse, grabbed: true }
    }

    /// What to do next. Mice follow the active flag, so that pausing frees the cursor; the
    /// gamepad stays grabbed for its whole lifetime.
    pub fn plan(&mut self, quit: bool, active: bool) -> (r: Plan)
        ensures
            *final(self) == after_plan(*old(self), quit, active),
            r == plan_of(*old(self), quit, active),
    {
        if quit {
            return Plan::Stop;
        }
        if self.is_mouse && active != self.grabbed {
            self.grabbed = active;
            if active {
                Plan::GrabAndWait
            } else {
                Plan::UngrabAndWait
            }
        } else {
            Plan::Wait
        }
    }
}

/// What a reader does after it has waited for input.
pub open spec fn poll_leads_to(outcome: PollOutcome) -> AfterPoll {
    match outcome {
        PollOutcome::Ready => AfterPoll::Read,
        PollOutcome::Failed => AfterPoll::Fail,
        _ => AfterPoll::StartOver,
    }
}

/// What a reader does after it has waited for input.
pub fn after_poll(outcome: PollOutcome) -> (r: AfterPoll)
    ensures
        r == poll_leads_to(outcome),
{
    match outcome {
        PollOutcome::TimedOut => AfterPoll::StartOver,  // to see quit and active again
        PollOutcome::Ready => AfterPoll::Read,
        PollOutcome::Interrupted => AfterPoll::StartOver,
        PollOutcome::Failed => AfterPoll::Fail,
    }
}

/// What came out of reading.
#[derive(Debug, Clone, Copy, PartialEq, Eq, Structural)]
pub enum FetchOutcome {
    Fetched,
    Failed,
}

/// What a reader does after it has read.
#[derive(Debug, Clone, Copy, PartialEq, Eq, Structural)]
pub enum AfterFetch {
    /// Forward what was read.
    Forward,
    /// Report the failure and stop.
    Fail,
}

/// What a reader does after it has read.
pub open spec fn fetch_leads_to(outcome: FetchOutcome) -> AfterFetch {
    match outcome {
        FetchOutcome::Fetched => AfterFetch::Forward,
        FetchOutcome::Failed => AfterFetch::Fail,
    }
}

/// What a reader does after it has read.
pub fn after_fetch(outcome: FetchOutcome) -> (r: AfterFetch)
    ensures
        r == fetch_leads_to(outcome),
{
    match outcome {
        FetchOutcome::Fetched => AfterFetch::Forward,
        FetchOutcome::Failed => AfterFetch::Fail,
    }
}

/// What came out of sending a message.
#[derive(Debug, Clone, Copy, PartialEq, Eq, Structural)]
pub enum SendOutcome {
    Sent,
    /// Nobody receives any more.
    Closed,
}

/// A batch on its way to the main loop.
pub struct Forwarding {
    pub messages: Vec<Msg>,
    /// How many of the messages have been sent.
    pub sent: usize,
    /// Nobody receives any more: the rest of the batch is dropped, and the reader stops.
    pub stopped: bool,
}

/// A batch on its way, as mathematical values.
#[verifier::ext_equal]
pub struct ForwardingState {
    pub messages: Seq<Msg>,
    pub sent: int,
    pub stopped: bool,
}

impl View for Forwarding {
    type V = ForwardingState;

    open spec fn view(&self) -> ForwardingState {
        ForwardingState {
            messages: self.messages@,
            sent: self.sent as int,
            stopped: self.stopped,
        }
    }
}

/// The message to send next; nothing at the end of the batch, or once nobody receives.
pub open spec fn next_message(f: ForwardingState) -> Option<Msg> {
    if !f.stopped && 0 <= f.sent < f.messages.len() {
        Some(f.messages[f.sent])
    } else {
        None
    }
}

/// The batch once the next message was offered, with this outcome.
pub open spec fn after_send(f: ForwardingState, outcome: SendOutcome) -> ForwardingState {
    if next_message(f) is None {
        f
    } else {
        match outcome {
            SendOutcome::Sent => ForwardingState { sent: f.sent + 1, ..f },
            SendOutcome::Closed => ForwardingState { stopped: true, ..f },
        }
    }
}

impl Forwarding {
    /// The messages of a batch, none of them sent yet.
    pub fn new(is_mouse: bool, reports: &Vec<Report>) -> (r: Forwarding)
        ensures
            r@ == (ForwardingState {
                messages: batch_messages(is_mouse, reports@),
                sent: 0,
                stopped: false,
            }),
    {
        let mut messages: Vec<Msg> = Vec::new();
        for i in 0..reports.len()
            invariant
                messages@ == batch_messages(is_mouse, reports@.take(i as int)),
        {
            let e = reports[i];
            proof {
                assert(reports@.take(i + 1).drop_last() == reports@.take(i as int));
            }
            if let Some(m) = read_event(is_mouse, e.event_type, e.code, e.value) {
                messages.push(m);
            }
        }
        assert(reports@.take(reports@.len() as int) == reports@);
        Forwarding { messages, sent: 0, stopped: false }
    }

    /// The message to send next, if one is left.
    pub fn next_to_send(&self) -> (r: Option<Msg>)
        ensures
            r == next_message(self@),
    {
        if !self.stopped && self.sent < self.messages.len() {
            Some(self.messages[self.sent])
        } else {
            None
        }
    }

    /// The next message was offered, with this outcome.
    pub fn record(&mut self, outcome: SendOutcome)
        ensures
            final(self)@ == after_send(old(self)@, outcome),
    {
        if !self.stopped && self.sent < self.messages.len() {
            match outcome {
                SendOutcome::Sent => {
                    self.sent = self.sent + 1;
                },
                SendOutcome::Closed => {
                    self.stopped = true;
                },
            }
        }
    }
}

/// The batch after messages were offered with these outcomes.
pub open spec fn after_sends(f: ForwardingState, outcomes: Seq<SendOutcome>) -> ForwardingState
    decreases outcomes.len(),
{
    if outcomes.len() == 0 {
        f
    } else {
        after_send(after_sends(f, outcomes.drop_last()), outcomes.last())
    }
}

/// While somebody receives, a batch is sent message by message in its own order, up to its end,
/// and the reader goes on.
pub proof fn batch_is_sent_in_order(f: ForwardingState, outcomes: Seq<SendOutcome>)
    requires
        f.sent == 0,
        !f.stopped,
        outcomes.len() <= f.messages.len(),
        forall|i: int| 0 <= i < outcomes.len() ==> #[trigger] outcomes[i] == SendOutcome::Sent,
    ensures
        !after_sends(f, outcomes).stopped,
        after_sends(f, outcomes).messages == f.messages,
        next_message(after_sends(f, outcomes)) == if outcomes.len() < f.messages.len() {
            Some(f.messages[outcomes.len() as int])
        } else {
            None
        },
        after_sends(f, outcomes).sent == outcomes.len(),
    decreases outcomes.len(),
{
    if outcomes.len() > 0 {
        let earlier = outcomes.drop_last();
        assert forall|i: int| 0 <= i < earlier.len() implies #[trigger] earlier[i]
            == SendOutcome::Sent by {
            assert(earlier[i] == outcomes[i]);
        }
        batch_is_sent_in_order(f, earlier);
        assert(outcomes[outcomes.len() - 1] == SendOutcome::Sent);
    }
}

/// Once nobody receives, the rest of the batch is dropped: nothing is offered any more, and the
/// reader stays stopped.
pub proof fn closed_channel_ends_the_batch(f: ForwardingState, outcomes: Seq<SendOutcome>)
    requires
        next_message(f) is Some,
    ensures
        ({
            let closed = after_send(f, SendOutcome::Closed);
            &&& closed.stopped
            &&& closed.sent == f.sent
            &&& next_message(closed) is None
            &&& after_sends(closed, outcomes) == closed
        }),
    decreases outcomes.len(),
{
    if outcomes.len() > 0 {
        closed_channel_ends_the_batch(f, outcomes.drop_last());
    }
}

/// A point in a reader's round at which it may come to its end.
#[derive(Debug, Clone, Copy, PartialEq, Eq, Structural)]
pub enum Point {
    Planned(Plan),
    Polled(AfterPoll),
    Fetched(AfterFetch),
    /// The batch was forwarded; holds whether that was stopped because nobody receives.
    Forwarded(bool),
}

/// Whether a reader goes on.
#[derive(Debug, Clone, Copy, PartialEq, Eq, Structural)]
pub enum Course {
    GoOn,
    /// Release the device, as the last thing that is done to it.
    ReleaseAndStop,
}

/// A reader's course from a point of its round: it ends where it is asked to, where waiting or
/// reading fails, and where nobody receives.
pub open spec fn course_of(point: Point) -> Course {
    match point {
        Point::Planned(Plan::Stop) => Course::ReleaseAndStop,
        Point::Polled(AfterPoll::Fail) => Course::ReleaseAndStop,
        Point::Fetched(AfterFetch::Fail) => Course::ReleaseAndStop,
        Point::Forwarded(true) => Course::ReleaseAndStop,
        _ => Course::GoOn,
    }
}

/// The reader at a point of its round: once it stops, it holds its device no longer.
pub open spec fn after_point(r: Reader, point: Point) -> Reader {
    match course_of(point) {
        Course::GoOn => r,
        Course::ReleaseAndStop => Reader { grabbed: false, ..r },
    }
}

impl Reader {
    /// Whether to go on from this point. Every way out releases the device.
    pub fn course(&mut self, point: Point) -> (r: Course)
        ensures
            r == course_of(point),
            *final(self) == after_point(*old(self), point),
    {
        let stop = match point {
            Point::Planned(plan) => matches!(plan, Plan::Stop),
            Point::Polled(after) => matches!(after, AfterPoll::Fail),
            Point::Fetched(after) => matches!(after, AfterFetch::Fail),
            Point::Forwarded(stopped) => stopped,
        };
        if stop {
            self.grabbed = false;
            Course::ReleaseAndStop
        } else {
            Course::GoOn
        }
    }
}

/// What a round of a reader meets with: the flags, and what came out of waiting, reading and
/// forwarding, as far as it gets to them.
pub struct Round {
    pub quit: bool,
    pub active: bool,
    pub poll: PollOutcome,
    pub fetch: FetchOutcome,
    /// Forwarding was stopped because nobody receives.
    pub closed: bool,
}

/// The point at which a round ends: the first one with which the reader stops, or from which
/// there is nothing more to do in the round.
pub open spec fn end_of_round(r: Reader, round: Round) -> Point {
    let planned = Point::Planned(plan_of(r, round.quit, round.active));
    let polled = Point::Polled(poll_leads_to(round.poll));
    let fetched = Point::Fetched(fetch_leads_to(round.fetch));
    if course_of(planned) == Course::ReleaseAndStop {
        planned
    } else if poll_leads_to(round.poll) != AfterPoll::Read {
        polled
    } else if fetch_leads_to(round.fetch) != AfterFetch::Forward {
        fetched
    } else {
        Point::Forwarded(round.closed)
    }
}

/// The reader comes to its end in this round.
pub open spec fn stops(r: Reader, round: Round) -> bool {
    course_of(end_of_round(r, round)) == Course::ReleaseAndStop
}

/// What is done to a device.
#[derive(Debug, Clone, Copy, PartialEq, Eq, Structural)]
pub enum Action {
    Grab,
    Release,
}

/// What a plan does to the device.
pub open spec fn plan_actions(plan: Plan) -> Seq<Action> {
    match plan {
        Plan::GrabAndWait => seq![Action::Grab],
        Plan::UngrabAndWait => seq![Action::Release],
        _ => Seq::empty(),
    }
}

/// What a round does to the device: what its plan does, and the release where the reader stops.
pub open spec fn round_actions(r: Reader, round: Round) -> Seq<Action> {
    plan_actions(plan_of(r, round.quit, round.active)) + if stops(r, round) {
        seq![Action::Release]
    } else {
        Seq::empty()
    }
}

/// The reader after a round.
pub open spec fn after_round(r: Reader, round: Round) -> Reader {
    after_point(after_plan(r, round.quit, round.active), end_of_round(r, round))
}

/// The reader after all the rounds.
pub open spec fn after_rounds(r: Reader, rounds: Seq<Round>) -> Reader
    decreases rounds.len(),
{
    if rounds.len() == 0 {
        r
    } else {
        after_round(after_rounds(r, rounds.drop_last()), rounds.last())
    }
}

/// What all the rounds do to the device.
pub open spec fn actions(r: Reader, rounds: Seq<Round>) -> Seq<Action>
    decreases rounds.len(),
{
    if rounds.len() == 0 {
        Seq::empty()
    } else {
        actions(r, rounds.drop_last()) + round_actions(
            after_rounds(r, rounds.drop_last()),
            rounds.last(),
        )
    }
}

/// The reader can get through the rounds: it stops in none of them but the last.
pub open spec fn is_run(r: Reader, rounds: Seq<Round>) -> bool
    decreases rounds.len(),
{
    rounds.len() <= 1 || (is_run(r, rounds.drop_last()) && !stops(
        after_rounds(r, rounds.drop_last().drop_last()),
        rounds.drop_last().last(),
    ))
}

/// The reader has come to its end.
pub open spec fn has_stopped(r: Reader, rounds: Seq<Round>) -> bool {
    rounds.len() > 0 && stops(after_rounds(r, rounds.drop_last()), rounds.last())
}

/// When a reader comes to its end: when it is asked to, when waiting fails, when reading fails,
/// and when nobody receives; and then only.
pub proof fn ways_out(r: Reader, round: Round)
    ensures
        stops(r, round) <==> round.quit || round.poll == PollOutcome::Failed || (round.poll
            == PollOutcome::Ready && (round.fetch == FetchOutcome::Failed || round.closed)),
{
}

/// Whichever way a reader comes to its end, the last thing that it does to its device is to
/// release it.
pub proof fn every_way_out_releases(r: Reader, rounds: Seq<Round>)
    requires
        has_stopped(r, rounds),
    ensures
        actions(r, rounds).len() > 0,
        actions(r, rounds).last() == Action::Release,
        !after_rounds(r, rounds).grabbed,
{
}

/// The gamepad is released at the reader's end, and never before: however often the session is
/// paused, nothing else is done to it.
pub proof fn gamepad_is_released_at_the_end_only(r: Reader, rounds: Seq<Round>)
    requires
        !r.is_mouse,
        is_run(r, rounds),
    ensures
        has_stopped(r, rounds) ==> actions(r, rounds) == seq![Action::Release],
        !has_stopped(r, rounds) ==> actions(r, rounds) == Seq::<Action>::empty() && after_rounds(
            r,
            rounds,
        ) == r,
    decreases rounds.len(),
{
    if rounds.len() > 0 {
        gamepad_is_released_at_the_end_only(r, rounds.drop_last());
    }
}

/// Whether a device is grabbed after these actions.
pub open spec fn grabbed_after(grabbed: bool, done: Seq<Action>) -> bool {
    if done.len() == 0 {
        grabbed
    } else {
        done.last() == Action::Grab
    }
}

/// A reader always knows whether its device is grabbed.
pub proof fn reader_knows_its_grab(r: Reader, rounds: Seq<Round>)
    ensures
        after_rounds(r, rounds).grabbed == grabbed_after(r.grabbed, actions(r, rounds)),
    decreases rounds.len(),
{
    if rounds.len() > 0 {
        reader_knows_its_grab(r, rounds.drop_last());
    }
}

/// What a mouse reports becomes these messages, whatever the value: motion on either axis, the
/// wheel's direction, buttons that are down for every value but 0.
pub proof fn mouse_reports_become_messages(code: u16, value: i32)
    ensures
        report_message(true, Report { event_type: 2, code: 0x00, value }) == Some(
            Msg::MouseRel(value, 0),
        ),
        report_message(true, Report { event_type: 2, code: 0x01, value }) == Some(
            Msg::MouseRel(0, value),
        ),
        value > 0 ==> report_message(true, Report { event_type: 2, code: 0x08, value }) == Some(
            Msg::MouseWheel(1),
        ),
        value < 0 ==> report_message(true, Report { event_type: 2, code: 0x08, value }) == Some(
            Msg::MouseWheel((-1) as i32),
        ),
        report_message(true, Report { event_type: 2, code: 0x08, value: 0 }) is None,
        code != 0x00 && code != 0x01 && code != 0x08 ==> report_message(
            true,
            Report { event_type: 2, code, value },
        ) is None,
        report_message(true, Report { event_type: 1, code, value }) == Some(
            Msg::MouseButton(code, value != 0),
        ),
{
}

/// What a gamepad reports becomes these messages: every button with its own value, but that the
/// PS button toggles when it is pressed and does nothing else, and no motion.
pub proof fn gamepad_reports_become_messages(code: u16, value: i32)
    ensures
        code != 0x13c ==> report_message(false, Report { event_type: 1, code, value }) == Some(
            Msg::PadKey(code, value),
        ),
        report_message(false, Report { event_type: 1, code: 0x13c, value: 1 }) == Some(
            Msg::TogglePs,
        ),
        value != 1 ==> report_message(false, Report { event_type: 1, code: 0x13c, value }) is None,
        report_message(false, Report { event_type: 2, code, value }) is None,
{
}

/// Absolute axes are passed on with their own value, and what is neither a button nor an axis is
/// not passed on, from either device.
pub proof fn axes_are_passed_on_and_nothing_else(
    is_mouse: bool,
    event_type: u16,
    code: u16,
    value: i32,
)
    ensures
        report_message(is_mouse, Report { event_type: 3, code, value }) == Some(
            Msg::PadAbs(code, value),
        ),
        event_type == 0 || event_type > 3 ==> report_message(
            is_mouse,
            Report { event_type, code, value },
        ) is None,
{
}

/// A batch gives the messages of its reports one after the other: none is lost, added or moved.
pub proof fn batches_give_all_messages_in_order(
    is_mouse: bool,
    first: Seq<Report>,
    second: Seq<Report>,
    e: Report,
)
    ensures
        batch_messages(is_mouse, first + second) == batch_messages(is_mouse, first)
            + batch_messages(is_mouse, second),
        batch_messages(is_mouse, seq![e]) == match report_message(is_mouse, e) {
            Some(m) => seq![m],
            None => Seq::empty(),
        },
        batch_messages(is_mouse, Seq::empty()) == Seq::<Msg>::empty(),
    decreases second.len(),
{
    assert(seq![e].drop_last() == Seq::<Report>::empty());
    assert(batch_messages(is_mouse, seq![e].drop_last()) == Seq::<Msg>::empty());
    if second.len() == 0 {
        assert(first + second == first);
    } else {
        assert((first + second).drop_last() == first + second.drop_last());
        batches_give_all_messages_in_order(is_mouse, first, second.drop_last(), e);
    }
}

/// A reader stops when it is asked to and then only. A mouse grabs when the session has become
/// active and releases when it has been paused; a gamepad does neither.
pub proof fn plans_follow_the_flags(r: Reader, quit: bool, active: bool)
    ensures
        plan_of(r, quit, active) == Plan::Stop <==> quit,
        plan_of(r, quit, active) == Plan::GrabAndWait <==> !quit && r.is_mouse && active
            && !r.grabbed,
        plan_of(r, quit, active) == Plan::UngrabAndWait <==> !quit && r.is_mouse && !active
            && r.grabbed,
        after_plan(r, quit, active).is_mouse == r.is_mouse,
        r.is_mouse && !quit ==> after_plan(r, quit, active).grabbed == active,
        !r.is_mouse || quit ==> after_plan(r, quit, active).grabbed == r.grabbed,
{
}

/// Only input is read, only what was read is forwarded, and a failure of either is reported.
pub proof fn outcomes_lead_on(poll: PollOutcome, fetch: FetchOutcome)
    ensures
        poll_leads_to(poll) == AfterPoll::Read <==> poll == PollOutcome::Ready,
        poll_leads_to(poll) == AfterPoll::Fail <==> poll == PollOutcome::Failed,
        fetch_leads_to(fetch) == AfterFetch::Fail <==> fetch == FetchOutcome::Failed,
{
}

/// A reader that goes on from a point keeps its device as it has it; one that stops does not hold
/// it any more.
pub proof fn stopping_lets_go(r: Reader, point: Point)
    ensures
        course_of(point) == Course::ReleaseAndStop <==> point == Point::Planned(Plan::Stop) || point
            == Point::Polled(AfterPoll::Fail) || point == Point::Fetched(AfterFetch::Fail) || point
            == Point::Forwarded(true),
        course_of(point) == Course::GoOn ==> after_point(r, point) == r,
        course_of(point) == Course::ReleaseAndStop ==> !after_point(r, point).grabbed,
        after_point(r, point).is_mouse == r.is_mouse,
{
}

/// The next message is the first that was not sent, while somebody receives; sending it moves on
/// by one, and neither changes the batch.
pub proof fn sending_moves_on_by_one(f: ForwardingState, outcome: SendOutcome)
    ensures
        !f.stopped && 0 <= f.sent < f.messages.len() ==> next_message(f) == Some(
            f.messages[f.sent],
        ) && after_send(f, SendOutcome::Sent).sent == f.sent + 1 && !after_send(
            f,
            SendOutcome::Sent,
        ).stopped && after_send(f, SendOutcome::Closed).stopped,
        f.stopped || f.sent >= f.messages.len() ==> next_message(f) is None && after_send(
            f,
            outcome,
        ) == f,
        after_send(f, outcome).messages == f.messages,
{
}

} // verus!
