//! `wlr-screencopy`: screenshots and screen recording.

use crate::geometry::{to_u32, wrapped_u32, Point, Rectangle, Size};
use crate::output::{find_output, output_named, output_views, Output, OutputView};
use crate::search::first_match;
use crate::state::BlueState;
use std::collections::{HashMap, VecDeque};
use vstd::prelude::*;

verus! {

broadcast use vstd::std_specs::hash::group_hash_axioms;

/// The version of the protocol that is offered.
pub const SCREENCOPY_VERSION: u32 = 3;

/// A frame whose client has asked for a copy.
#[derive(Debug)]
pub struct PendingCapture {
    pub frame: u64,
    pub buffer: u64,
    pub output_name: String,
    /// The client wants the copy only once the output has changed.
    pub with_damage: bool,
}

/// The captures that wait for the next frame of their output. They are served by
/// the next render pass, not when they are asked for.
#[derive(Debug)]
pub struct ScreencopyState {
    pub global: u64,
    /// The name of the output that each frame was created for, by frame.
    pub frames: HashMap<u64, String>,
    pub pending: VecDeque<PendingCapture>,
}

/// The data of the global.
#[derive(Debug, Clone, Copy, PartialEq, Eq, Structural)]
pub struct ScreencopyGlobalData;

/// A request on the manager. An output that is not known has no name.
#[derive(Debug, Clone, PartialEq, Eq)]
pub enum ManagerRequest {
    CaptureOutput { output_name: Option<String> },
    CaptureOutputRegion {
        output_name: Option<String>,
        x: i32,
        y: i32,
        width: i32,
        height: i32,
    },
    Destroy,
    Other,
}

/// A request on a frame.
#[derive(Debug, Clone, Copy, PartialEq, Eq, Structural)]
pub enum FrameRequest {
    Copy { buffer: u64 },
    CopyWithDamage { buffer: u64 },
    Destroy,
    Other,
}

/// An event that is sent on a frame.
#[derive(Debug, Clone, Copy, PartialEq, Eq, Structural)]
pub enum FrameEvent {
    /// The shape of an ARGB8888 buffer that the client has to bring.
    Buffer { width: u32, height: u32, stride: u32 },
    BufferDone,
    /// Flags, none of which are set.
    Flags,
    Damage { x: u32, y: u32, width: u32, height: u32 },
    Ready { seconds_high: u32, seconds_low: u32, nanoseconds: u32 },
    Failed,
}

/// The output names of frames, as sequences of characters.
pub open spec fn frame_names(frames: Map<u64, String>) -> Map<u64, Seq<char>> {
    frames.map_values(|name: String| name@)
}

/// Tells the captures of one frame.
pub open spec fn is_of_frame(frame: u64) -> spec_fn(PendingCapture) -> bool {
    |c: PendingCapture| c.frame == frame
}

/// The name that is known for the output of `frame`: that of an earlier capture
/// of the same frame that still waits, or else that of the output that the frame was
/// created for. A frame that is not known has none.
pub open spec fn frame_output_name(
    frames: Map<u64, Seq<char>>,
    pending: Seq<PendingCapture>,
    frame: u64,
) -> Seq<char> {
    match first_match(pending, is_of_frame(frame)) {
        Some(p) => p.output_name@,
        None => if frames.contains_key(frame) {
            frames[frame]
        } else {
            Seq::empty()
        },
    }
}

/// Whether a capture is served by a pass over the output `name`. One that asks
/// for damage waits until there is some.
pub open spec fn is_due(capture: PendingCapture, name: Seq<char>, damaged: bool) -> bool {
    capture.output_name@ == name && (capture.with_damage ==> damaged)
}

/// Whether a pass has changed anything.
pub open spec fn is_damaged(damage: Option<Vec<Rectangle>>) -> bool {
    damage matches Some(rects) && rects@.len() > 0
}

/// The size that is offered for a capture of `output`: that of the region, or that
/// of the current mode. Without a mode there is none.
pub open spec fn capture_size(output: OutputView, region: Option<Rectangle>) -> Option<(i32, i32)> {
    match output.current_mode {
        Some(mode) => match region {
            Some(r) => Some((r.size.w, r.size.h)),
            None => Some((mode.size.w, mode.size.h)),
        },
        None => None,
    }
}

/// [`capture_size`] of the output that is named `name`.
pub open spec fn offered_size(
    outputs: Seq<OutputView>,
    name: Seq<char>,
    region: Option<Rectangle>,
) -> Option<(i32, i32)> {
    match output_named(outputs, name) {
        Some(output) => capture_size(output, region),
        None => None,
    }
}

/// Whether a row of the offered buffer can be counted in bytes.
pub open spec fn offer_fits(
    outputs: Seq<OutputView>,
    name: Seq<char>,
    region: Option<Rectangle>,
) -> bool {
    offered_size(outputs, name, region) matches Some((w, _)) ==> wrapped_u32(w) * 4 <= u32::MAX
}

/// What is sent for a new frame: the shape of the buffer to bring, with four
/// bytes for each pixel, or a failure.
pub open spec fn offer_events(
    outputs: Seq<OutputView>,
    name: Seq<char>,
    region: Option<Rectangle>,
) -> Seq<FrameEvent> {
    match offered_size(outputs, name, region) {
        Some((w, h)) => seq![
            FrameEvent::Buffer {
                width: wrapped_u32(w) as u32,
                height: wrapped_u32(h) as u32,
                stride: (wrapped_u32(w) * 4) as u32,
            },
            FrameEvent::BufferDone,
        ],
        None => seq![FrameEvent::Failed],
    }
}

/// The name and the region that a request on the manager captures.
pub open spec fn captured(request: ManagerRequest) -> Option<(Seq<char>, Option<Rectangle>)> {
    match request {
        ManagerRequest::CaptureOutput { output_name } => Some((name_or_empty(output_name), None)),
        ManagerRequest::CaptureOutputRegion { output_name, x, y, width, height } => Some(
            (
                name_or_empty(output_name),
                Some(
                    Rectangle { loc: Point { x, y }, size: Size { w: width, h: height } },
                ),
            ),
        ),
        _ => None,
    }
}

/// The characters of a name, none where there is no name.
pub open spec fn name_or_empty(name: Option<String>) -> Seq<char> {
    match name {
        Some(n) => n@,
        None => Seq::empty(),
    }
}

/// The event that reports a damaged rectangle.
pub open spec fn damage_event(r: Rectangle) -> FrameEvent {
    FrameEvent::Damage {
        x: wrapped_u32(r.loc.x) as u32,
        y: wrapped_u32(r.loc.y) as u32,
        width: wrapped_u32(r.size.w) as u32,
        height: wrapped_u32(r.size.h) as u32,
    }
}

/// The events that report what a pass has changed, for a capture that asks.
pub open spec fn damage_events(with_damage: bool, damage: Option<Vec<Rectangle>>) -> Seq<
    FrameEvent,
> {
    match damage {
        Some(rects) if with_damage => rects@.map_values(|r: Rectangle| damage_event(r)),
        _ => Seq::empty(),
    }
}

/// What is sent on a frame that was served at the given time since the epoch.
pub open spec fn capture_events(
    copied: bool,
    with_damage: bool,
    damage: Option<Vec<Rectangle>>,
    seconds: u64,
    nanoseconds: u32,
) -> Seq<FrameEvent> {
    if copied {
        seq![FrameEvent::Flags] + damage_events(with_damage, damage) + seq![
            FrameEvent::Ready {
                seconds_high: (seconds / 0x1_0000_0000) as u32,
                seconds_low: (seconds % 0x1_0000_0000) as u32,
                nanoseconds,
            },
        ]
    } else {
        seq![FrameEvent::Failed]
    }
}

impl ScreencopyState {
    /// Nothing waits yet.
    pub fn new(global: u64) -> (state: Self)
        ensures
            state.global == global,
            state.frames@ == Map::<u64, String>::empty(),
            state.pending@ == Seq::<PendingCapture>::empty(),
    {
        ScreencopyState { global, frames: HashMap::new(), pending: VecDeque::new() }
    }

    /// The global that clients bind.
    pub fn global_id(&self) -> (global: u64)
        ensures
            global == self.global,
    {
        self.global
    }

    fn output_name_of(&self, frame: u64) -> (name: String)
        ensures
            name@ == frame_output_name(frame_names(self.frames@), self.pending@, frame),
    {
        let ghost p = is_of_frame(frame);
        for i in 0..self.pending.len()
            invariant
                p == is_of_frame(frame),
                forall|j: int| 0 <= j < i ==> !p(#[trigger] self.pending@[j]),
        {
            if self.pending[i].frame == frame {
                proof {
                    crate::search::first_match_at(self.pending@, p, i as int);
                }
                return self.pending[i].output_name.clone();
            }
        }
        proof {
            crate::search::first_match_none(self.pending@, p);
        }
        match self.frames.get(&frame) {
            Some(name) => name.clone(),
            None => String::new(),
        }
    }

    fn request_copy(&mut self, frame: u64, buffer: u64, with_damage: bool)
        ensures
            asks_for_copy(
                frame_names(old(self).frames@),
                old(self).pending@,
                final(self).pending@,
                frame,
                buffer,
                with_damage,
            ),
            *final(self) == (ScreencopyState { pending: final(self).pending, ..*old(self) }),
    {
        let output_name = self.output_name_of(frame);
        self.pending.push_back(PendingCapture { frame, buffer, output_name, with_damage });
    }

    fn destroy_frame(&mut self, frame: u64)
        ensures
            frame_names(final(self).frames@) == frame_names(old(self).frames@).remove(frame),
            final(self).pending@ == old(self).pending@.filter(
                |c: PendingCapture| c.frame != frame,
            ),
            final(self).global == old(self).global,
    {
        self.frames.remove(&frame);
        assert(frame_names(self.frames@) =~= frame_names(old(self).frames@).remove(frame));
        let ghost all = self.pending@;
        let ghost p = |c: PendingCapture| c.frame != frame;
        let count: usize = self.pending.len();
        let mut kept: VecDeque<PendingCapture> = VecDeque::new();
        assert(all.take(0).filter(p) =~= kept@) by {
            reveal(Seq::filter);
        }
        for i in 0..count
            invariant
                p == (|c: PendingCapture| c.frame != frame),
                count == all.len(),
                self.global == old(self).global,
                frame_names(self.frames@) == frame_names(old(self).frames@).remove(frame),
                self.pending@ == all.skip(i as int),
                kept@ == all.take(i as int).filter(p),
        {
            proof {
                crate::search::filter_step(all, p, i as int);
                assert(all.skip(i as int)[0] == all[i as int]);
            }
            match self.pending.pop_front() {
                Some(capture) => {
                    if capture.frame != frame {
                        kept.push_back(capture);
                    }
                },
                None => {},
            }
            assert(self.pending@ =~= all.skip(i + 1));
        }
        assert(all.take(count as int) =~= all);
        self.pending = kept;
    }

    /// Takes in a request on a frame.
    pub fn handle_frame_request(&mut self, frame: u64, request: FrameRequest)
        ensures
            final(self).global == old(self).global,
            frame_names(final(self).frames@) == match request {
                FrameRequest::Destroy => frame_names(old(self).frames@).remove(frame),
                _ => frame_names(old(self).frames@),
            },
            match request {
                FrameRequest::Copy { buffer } => asks_for_copy(
                    frame_names(old(self).frames@),
                    old(self).pending@,
                    final(self).pending@,
                    frame,
                    buffer,
                    false,
                ),
                FrameRequest::CopyWithDamage { buffer } => asks_for_copy(
                    frame_names(old(self).frames@),
                    old(self).pending@,
                    final(self).pending@,
                    frame,
                    buffer,
                    true,
                ),
                FrameRequest::Destroy => final(self).pending@ == old(self).pending@.filter(
                    |c: PendingCapture| c.frame != frame,
                ),
                FrameRequest::Other => final(self).pending@ == old(self).pending@,
            },
            request is Copy || request is CopyWithDamage <==> final(self).pending@.len() > old(
                self,
            ).pending@.len(),
            request is Copy ==> !final(self).pending@.last().with_damage,
            request is CopyWithDamage ==> final(self).pending@.last().with_damage,
            request matches FrameRequest::Copy { buffer } ==> final(self).pending@.last().buffer
                == buffer && final(self).pending@.last().frame == frame,
            request matches FrameRequest::CopyWithDamage { buffer } ==> {
                &&& final(self).pending@.last().buffer == buffer
                &&& final(self).pending@.last().frame == frame
            },
            request is Destroy ==> forall|i: int|
                0 <= i < final(self).pending@.len() ==> (#[trigger] final(self).pending@[i]).frame
                    != frame,
    {
        match request {
            FrameRequest::Copy { buffer } => self.request_copy(frame, buffer, false),
            FrameRequest::CopyWithDamage { buffer } => self.request_copy(frame, buffer, true),
            FrameRequest::Destroy => {
                self.destroy_frame(frame);
                proof {
                    let all = old(self).pending@;
                    let p = |c: PendingCapture| c.frame != frame;
                    crate::search::filter_is_not_longer(all, p);
                    assert forall|i: int| 0 <= i < self.pending@.len() implies (
                    #[trigger] self.pending@[i]).frame != frame by {
                        assert(self.pending@.contains(self.pending@[i]));
                        crate::search::filter_membership(all, p, self.pending@[i]);
                    }
                }
            },
            FrameRequest::Other => {},
        }
    }
}

/// Whether one more capture waits, at the end of the queue.
pub open spec fn asks_for_copy(
    frames: Map<u64, Seq<char>>,
    before: Seq<PendingCapture>,
    after: Seq<PendingCapture>,
    frame: u64,
    buffer: u64,
    with_damage: bool,
) -> bool {
    let capture = after.last();
    &&& after == before.push(capture)
    &&& capture.frame == frame
    &&& capture.buffer == buffer
    &&& capture.output_name@ == frame_output_name(frames, before, frame)
    &&& capture.with_damage == with_damage
}

/// Offers the shape of a buffer for a capture of the output that is named `name`,
/// or of a region of it.
pub fn send_buffer_offer(outputs: &Vec<Output>, name: &str, region: Option<Rectangle>) -> (events:
    Vec<FrameEvent>)
    requires
        offer_fits(output_views(outputs@), name@, region),
    ensures
        events@ == offer_events(output_views(outputs@), name@, region),
{
    let mut events: Vec<FrameEvent> = Vec::new();
    match find_output(outputs, name) {
        Some(i) => match outputs[i].current_mode {
            Some(mode) => {
                let size = match region {
                    Some(r) => r.size,
                    None => mode.size,
                };
                let width: u32 = to_u32(size.w);
                let height: u32 = to_u32(size.h);
                events.push(FrameEvent::Buffer { width, height, stride: width * 4 });
                events.push(FrameEvent::BufferDone);
            },
            None => {
                events.push(FrameEvent::Failed);
            },
        },
        None => {
            events.push(FrameEvent::Failed);
        },
    }
    assert(events@ =~= offer_events(output_views(outputs@), name@, region));
    events
}

/// Takes in a request on the manager. `frame` is the new frame, if one is asked for: the
/// events go to it, and it is remembered which output it is of.
pub fn handle_manager_request(state: &mut BlueState, frame: u64, request: ManagerRequest) -> (events:
    Vec<FrameEvent>)
    requires
        captured(request) matches Some((name, region)) ==> offer_fits(
            output_views(old(state).outputs@),
            name,
            region,
        ),
    ensures
        events@ == match captured(request) {
            Some((name, region)) => offer_events(output_views(old(state).outputs@), name, region),
            None => Seq::empty(),
        },
        frame_names(final(state).screencopy_state.frames@) == match captured(request) {
            Some((name, _)) => frame_names(old(state).screencopy_state.frames@).insert(frame, name),
            None => frame_names(old(state).screencopy_state.frames@),
        },
        *final(state) == (BlueState {
            screencopy_state: ScreencopyState {
                frames: final(state).screencopy_state.frames,
                ..old(state).screencopy_state
            },
            ..*old(state)
        }),
{
    let (output_name, region): (Option<String>, Option<Rectangle>) = match request {
        ManagerRequest::CaptureOutput { output_name } => (output_name, None),
        ManagerRequest::CaptureOutputRegion { output_name, x, y, width, height } => (
            output_name,
            Some(Rectangle { loc: Point { x, y }, size: Size { w: width, h: height } }),
        ),
        _ => {
            return Vec::new();
        },
    };
    let name = match output_name {
        Some(n) => n,
        None => String::new(),
    };
    let events = send_buffer_offer(&state.outputs, name.as_str(), region);
    let ghost before = frame_names(state.screencopy_state.frames@);
    state.screencopy_state.frames.insert(frame, name);
    assert(frame_names(state.screencopy_state.frames@) =~= before.insert(frame, name@));
    events
}

/// Takes out the captures that are served by a pass over the output that is named
/// `output_name`. `damage` is what the pass has changed. The others keep waiting,
/// in the same order.
pub fn service_screencopy(
    screencopy: &mut ScreencopyState,
    output_name: &str,
    damage: &Option<Vec<Rectangle>>,
) -> (due: Vec<PendingCapture>)
    ensures
        *final(screencopy) == (ScreencopyState {
            pending: final(screencopy).pending,
            ..*old(screencopy)
        }),
        due@ == old(screencopy).pending@.filter(
            |c: PendingCapture| is_due(c, output_name@, is_damaged(*damage)),
        ),
        final(screencopy).pending@ == old(screencopy).pending@.filter(
            |c: PendingCapture| !is_due(c, output_name@, is_damaged(*damage)),
        ),
{
    let damaged = match damage {
        Some(rects) => rects.len() > 0,
        None => false,
    };
    let name = output_name.to_string();
    let ghost all = screencopy.pending@;
    let ghost p = |c: PendingCapture| is_due(c, output_name@, is_damaged(*damage));
    let ghost q = |c: PendingCapture| !is_due(c, output_name@, is_damaged(*damage));
    let count: usize = screencopy.pending.len();
    let mut due: Vec<PendingCapture> = Vec::new();
    let mut remaining: VecDeque<PendingCapture> = VecDeque::new();
    proof {
        reveal(Seq::filter);
        assert(all.take(0).filter(p) =~= due@);
        assert(all.take(0).filter(q) =~= remaining@);
    }
    for i in 0..count
        invariant
            p == (|c: PendingCapture| is_due(c, output_name@, is_damaged(*damage))),
            q == (|c: PendingCapture| !is_due(c, output_name@, is_damaged(*damage))),
            damaged == is_damaged(*damage),
            name@ == output_name@,
            count == all.len(),
            *screencopy == (ScreencopyState { pending: screencopy.pending, ..*old(screencopy) }),
            screencopy.pending@ == all.skip(i as int),
            due@ == all.take(i as int).filter(p),
            remaining@ == all.take(i as int).filter(q),
    {
        proof {
            crate::search::filter_step(all, p, i as int);
            crate::search::filter_step(all, q, i as int);
            assert(all.skip(i as int)[0] == all[i as int]);
        }
        match screencopy.pending.pop_front() {
            Some(capture) => {
                if capture.output_name != name {
                    remaining.push_back(capture);
                } else if capture.with_damage && !damaged {
                    remaining.push_back(capture);
                } else {
                    due.push(capture);
                }
            },
            None => {},
        }
        assert(screencopy.pending@ =~= all.skip(i + 1));
    }
    assert(all.take(count as int) =~= all);
    screencopy.pending = remaining;
    due
}

/// Copies as many bytes of `pixels` as `buffer` can hold. What `buffer` has beyond
/// them stays.
pub fn copy_pixels(buffer: &mut [u8], pixels: &[u8])
    ensures
        final(buffer)@.len() == old(buffer)@.len(),
        forall|i: int|
            0 <= i < final(buffer)@.len() ==> #[trigger] final(buffer)@[i] == if i
                < pixels@.len() {
                pixels@[i]
            } else {
                old(buffer)@[i]
            },
        pixels@.len() <= old(buffer)@.len() ==> final(buffer)@.take(pixels@.len() as int)
            == pixels@,
        pixels@.len() <= old(buffer)@.len() ==> final(buffer)@.skip(pixels@.len() as int) == old(
            buffer,
        )@.skip(pixels@.len() as int),
        pixels@.len() >= old(buffer)@.len() ==> final(buffer)@ == pixels@.take(
            old(buffer)@.len() as int,
        ),
{
    let count: usize = if pixels.len() < buffer.len() {
        pixels.len()
    } else {
        buffer.len()
    };
    for i in 0..count
        invariant
            count <= pixels@.len(),
            count <= buffer@.len(),
            buffer@.len() == old(buffer)@.len(),
            forall|j: int|
                0 <= j < buffer@.len() ==> #[trigger] buffer@[j] == if j < i {
                    pixels@[j]
                } else {
                    old(buffer)@[j]
                },
    {
        buffer[i] = pixels[i];
    }
}

/// Reports to a frame that was served. `copied` says whether the pixels have
/// reached the client's buffer; the time is that since the epoch.
pub fn report_capture(
    copied: bool,
    with_damage: bool,
    damage: &Option<Vec<Rectangle>>,
    seconds: u64,
    nanoseconds: u32,
) -> (events: Vec<FrameEvent>)
    ensures
        events@ == capture_events(copied, with_damage, *damage, seconds, nanoseconds),
{
    let mut events: Vec<FrameEvent> = Vec::new();
    if !copied {
        events.push(FrameEvent::Failed);
        return events;
    }
    events.push(FrameEvent::Flags);
    match damage {
        Some(rects) => {
            if with_damage {
                let ghost reported = rects@.map_values(|r: Rectangle| damage_event(r));
                for i in 0..rects.len()
                    invariant
                        reported == rects@.map_values(|r: Rectangle| damage_event(r)),
                        events@ == seq![FrameEvent::Flags] + reported.take(i as int),
                {
                    let r = rects[i];
                    events.push(
                        FrameEvent::Damage {
                            x: to_u32(r.loc.x),
                            y: to_u32(r.loc.y),
                            width: to_u32(r.size.w),
                            height: to_u32(r.size.h),
                        },
                    );
                    assert(reported.take(i + 1) =~= reported.take(i as int).push(
                        reported[i as int],
                    ));
                }
                assert(reported.take(rects@.len() as int) =~= reported);
            }
        },
        None => {},
    }
    let high: u64 = seconds / 0x1_0000_0000;
    let low: u64 = seconds % 0x1_0000_0000;
    events.push(
        FrameEvent::Ready { seconds_high: high as u32, seconds_low: low as u32, nanoseconds },
    );
    assert(events@ =~= capture_events(copied, with_damage, *damage, seconds, nanoseconds));
    events
}

/// A pass loses no capture: those that it serves and those that keep waiting are
/// all that there were.
pub proof fn a_pass_loses_no_capture(pending: Seq<PendingCapture>, name: Seq<char>, damaged: bool)
    ensures
        pending.filter(|c: PendingCapture| is_due(c, name, damaged)).to_multiset().add(
            pending.filter(|c: PendingCapture| !is_due(c, name, damaged)).to_multiset(),
        ) == pending.to_multiset(),
{
    let p = |c: PendingCapture| is_due(c, name, damaged);
    crate::search::filter_splits(pending, p);
    assert((|c: PendingCapture| !p(c)) =~= (|c: PendingCapture| !is_due(c, name, damaged)));
}

/// A second pass right after the first, with the same damage, serves nothing.
pub proof fn nothing_is_served_twice(pending: Seq<PendingCapture>, name: Seq<char>, damaged: bool)
    ensures
        pending.filter(|c: PendingCapture| !is_due(c, name, damaged)).filter(
            |c: PendingCapture| is_due(c, name, damaged),
        ) == Seq::<PendingCapture>::empty(),
{
    let p = |c: PendingCapture| is_due(c, name, damaged);
    crate::search::filtered_out_is_gone(pending, p);
    assert((|c: PendingCapture| !p(c)) =~= (|c: PendingCapture| !is_due(c, name, damaged)));
}

/// A plain copy is served by the next pass over its output. A copy with damage is
/// served by the next pass that has changed something, and by no other.
pub proof fn damage_wakes_a_waiting_capture(capture: PendingCapture, damaged: bool)
    ensures
        !capture.with_damage ==> is_due(capture, capture.output_name@, damaged),
        capture.with_damage ==> (is_due(capture, capture.output_name@, damaged) <==> damaged),
{
}

/// A capture of an output is served by the next pass over that output: a plain copy in
/// any case, a copy with damage if the pass has changed something.
pub proof fn a_capture_is_served_by_its_output(
    frames: Map<u64, Seq<char>>,
    before: Seq<PendingCapture>,
    after: Seq<PendingCapture>,
    frame: u64,
    name: Seq<char>,
    buffer: u64,
    with_damage: bool,
    damaged: bool,
)
    requires
        first_match(before, is_of_frame(frame)) is None,
        asks_for_copy(frames.insert(frame, name), before, after, frame, buffer, with_damage),
        with_damage ==> damaged,
    ensures
        after.filter(|c: PendingCapture| is_due(c, name, damaged)).contains(after.last()),
        after.last().frame == frame && after.last().buffer == buffer,
{
    assert(after[after.len() - 1] == after.last());
    crate::search::filter_membership(
        after,
        |c: PendingCapture| is_due(c, name, damaged),
        after.last(),
    );
}

/// Whether every capture that waits is of the output that its frame was created for.
pub open spec fn names_agree(frames: Map<u64, Seq<char>>, pending: Seq<PendingCapture>) -> bool {
    forall|i: int|
        0 <= i < pending.len() && frames.contains_key((#[trigger] pending[i]).frame)
            ==> pending[i].output_name@ == frames[pending[i].frame]
}

proof fn fewer_captures_agree(
    frames: Map<u64, Seq<char>>,
    pending: Seq<PendingCapture>,
    p: spec_fn(PendingCapture) -> bool,
)
    requires
        names_agree(frames, pending),
    ensures
        names_agree(frames, pending.filter(p)),
{
    let kept = pending.filter(p);
    assert forall|i: int|
        0 <= i < kept.len() && frames.contains_key((#[trigger] kept[i]).frame) implies kept[i].output_name@
        == frames[kept[i].frame] by {
        assert(kept.contains(kept[i]));
        crate::search::filter_membership(pending, p, kept[i]);
        let j = choose|j: int| 0 <= j < pending.len() && pending[j] == kept[i];
        assert(pending[j].output_name@ == frames[pending[j].frame]);
    }
}

/// A capture that waits stays with the output of its frame: whether a frame is created,
/// copied, served or destroyed.
pub proof fn captures_stay_with_their_output(
    frames: Map<u64, Seq<char>>,
    pending: Seq<PendingCapture>,
    after: Seq<PendingCapture>,
    frame: u64,
    name: Seq<char>,
    buffer: u64,
    with_damage: bool,
    damaged: bool,
)
    requires
        names_agree(frames, pending),
    ensures
        first_match(pending, is_of_frame(frame)) is None ==> names_agree(
            frames.insert(frame, name),
            pending,
        ),
        asks_for_copy(frames, pending, after, frame, buffer, with_damage) ==> names_agree(
            frames,
            after,
        ),
        names_agree(frames, pending.filter(|c: PendingCapture| !is_due(c, name, damaged))),
        names_agree(frames.remove(frame), pending.filter(|c: PendingCapture| c.frame != frame)),
{
    crate::search::first_match_meaning(pending, is_of_frame(frame));
    if first_match(pending, is_of_frame(frame)) is None {
        assert forall|i: int|
            0 <= i < pending.len() && frames.insert(frame, name).contains_key(
                (#[trigger] pending[i]).frame,
            ) implies pending[i].output_name@ == frames.insert(frame, name)[pending[i].frame] by {
            assert(!is_of_frame(frame)(pending[i]));
        }
    }
    if asks_for_copy(frames, pending, after, frame, buffer, with_damage) {
        if first_match(pending, is_of_frame(frame)) is Some {
            let c = first_match(pending, is_of_frame(frame))->0;
            let j = choose|j: int| 0 <= j < pending.len() && pending[j] == c;
            assert(pending[j].frame == frame);
        }
        assert forall|i: int|
            0 <= i < after.len() && frames.contains_key(
                (#[trigger] after[i]).frame,
            ) implies after[i].output_name@ == frames[after[i].frame] by {
            if i < pending.len() {
                assert(after[i] == pending[i]);
            }
        }
    }
    fewer_captures_agree(frames, pending, |c: PendingCapture| !is_due(c, name, damaged));
    fewer_captures_agree(frames, pending, |c: PendingCapture| c.frame != frame);
}

/// The two halves of the time that a frame is reported with make up the seconds.
pub proof fn reported_seconds_are_whole(
    with_damage: bool,
    damage: Option<Vec<Rectangle>>,
    seconds: u64,
    nanoseconds: u32,
)
    ensures
        capture_events(true, with_damage, damage, seconds, nanoseconds).last() matches FrameEvent::Ready {
            seconds_high,
            seconds_low,
            ..
        } && seconds_high * 0x1_0000_0000 + seconds_low == seconds,
{
    assert(seconds / 0x1_0000_0000 <= u32::MAX);
    assert(seconds % 0x1_0000_0000 <= u32::MAX);
}

/// A frame is told of its end exactly once, and last: it is ready or it has
/// failed.
pub proof fn a_served_frame_ends_once(
    copied: bool,
    with_damage: bool,
    damage: Option<Vec<Rectangle>>,
    seconds: u64,
    nanoseconds: u32,
    i: int,
)
    requires
        0 <= i < capture_events(copied, with_damage, damage, seconds, nanoseconds).len(),
    ensures
        ({
            let events = capture_events(copied, with_damage, damage, seconds, nanoseconds);
            (events[i] is Ready || events[i] is Failed) <==> i == events.len() - 1
        }),
{
}

/// A destroyed frame is never served.
pub proof fn a_destroyed_frame_is_not_served(
    pending: Seq<PendingCapture>,
    frame: u64,
    capture: PendingCapture,
)
    ensures
        pending.filter(|c: PendingCapture| c.frame != frame).contains(capture) <==> (
        pending.contains(capture) && capture.frame != frame),
{
    crate::search::filter_membership(pending, |c: PendingCapture| c.frame != frame, capture);
}

/// A pass serves exactly the captures of its output that it owes: every plain copy, and
/// every copy with damage if some rectangle was changed, however many there are. A pass that
/// has changed no rectangle serves no copy with damage, and no pass serves a capture of
/// another output.
pub proof fn a_pass_serves_what_it_owes(
    pending: Seq<PendingCapture>,
    name: Seq<char>,
    damage: Option<Vec<Rectangle>>,
    capture: PendingCapture,
)
    requires
        pending.contains(capture),
    ensures
        ({
            let due = pending.filter(|c: PendingCapture| is_due(c, name, is_damaged(damage)));
            let waiting = pending.filter(|c: PendingCapture| !is_due(c, name, is_damaged(damage)));
            &&& capture.output_name@ == name && !capture.with_damage ==> due.contains(capture)
            &&& capture.output_name@ == name && (damage matches Some(rects) && exists|i: int|
                0 <= i < rects@.len() && #[trigger] rects@[i] == rects@[i]) ==> due.contains(capture)
            &&& capture.with_damage && (damage matches Some(rects) ==> rects@.len() == 0)
                ==> !due.contains(capture) && waiting.contains(capture)
            &&& capture.output_name@ != name ==> !due.contains(capture) && waiting.contains(capture)
            &&& due.contains(capture) <==> !waiting.contains(capture)
        }),
{
    crate::search::filter_membership(
        pending,
        |c: PendingCapture| is_due(c, name, is_damaged(damage)),
        capture,
    );
    crate::search::filter_membership(
        pending,
        |c: PendingCapture| !is_due(c, name, is_damaged(damage)),
        capture,
    );
}

/// A pass counts as having changed something exactly if it names a rectangle, and naming
/// more rectangles never takes that back.
pub proof fn more_damage_is_still_damage(few: Vec<Rectangle>, more: Vec<Rectangle>, r: Rectangle)
    requires
        more@ == few@.push(r),
    ensures
        is_damaged(Some(more)),
        is_damaged(Some(few)) <==> few@ != Seq::<Rectangle>::empty(),
        !is_damaged(None),
{
    if few@.len() == 0 {
        assert(few@ =~= Seq::<Rectangle>::empty());
    }
}

/// A frame is offered a buffer exactly if the output of that name has a mode. The buffer is
/// as large as the region that is asked for, or as the mode where none is; a row has four
/// bytes for each pixel.
pub proof fn offered_buffers_hold_the_capture(
    outputs: Seq<OutputView>,
    name: Seq<char>,
    region: Option<Rectangle>,
)
    requires
        offer_fits(outputs, name, region),
    ensures
        ({
            let events = offer_events(outputs, name, region);
            match output_named(outputs, name) {
                Some(output) if output.current_mode is Some => {
                    let size = match region {
                        Some(r) => r.size,
                        None => output.current_mode->0.size,
                    };
                    &&& events.len() == 2
                    &&& events[0] matches FrameEvent::Buffer { width, height, stride } && {
                        &&& size.w >= 0 ==> width == size.w
                        &&& size.h >= 0 ==> height == size.h
                        &&& stride == 4 * width
                        &&& size.w < 0 ==> width == size.w + 0x1_0000_0000
                        &&& size.h < 0 ==> height == size.h + 0x1_0000_0000
                    }
                    &&& events[1] == FrameEvent::BufferDone
                },
                _ => events.len() == 1 && events[0] == FrameEvent::Failed,
            }
        }),
{
}

/// A capture of an output is one of all of it, and a capture of a region is one of exactly
/// that region, each of the output that is named. No other request captures anything.
pub proof fn requests_capture_what_they_name(request: ManagerRequest)
    ensures
        captured(request) is Some <==> request is CaptureOutput || request is CaptureOutputRegion,
        captured(request) matches Some((name, region)) ==> match request {
            ManagerRequest::CaptureOutput { output_name } => {
                &&& region is None
                &&& output_name matches Some(n) ==> name == n@
                &&& output_name is None ==> name.len() == 0
            },
            ManagerRequest::CaptureOutputRegion { output_name, x, y, width, height } => {
                &&& region matches Some(r) && r.loc.x == x && r.loc.y == y && r.size.w == width
                    && r.size.h == height
                &&& output_name matches Some(n) ==> name == n@
                &&& output_name is None ==> name.len() == 0
            },
            _ => false,
        },
{
}

/// A frame that nothing waits for is of the output that it was created for, and of none where
/// it is not known. One that something waits for stays with the output of what waits longest.
pub proof fn frames_are_of_the_output_they_were_created_for(
    frames: Map<u64, Seq<char>>,
    pending: Seq<PendingCapture>,
    frame: u64,
    k: int,
)
    ensures
        (forall|i: int| 0 <= i < pending.len() ==> (#[trigger] pending[i]).frame != frame) ==> {
            &&& frames.contains_key(frame) ==> frame_output_name(frames, pending, frame)
                == frames[frame]
            &&& !frames.contains_key(frame) ==> frame_output_name(frames, pending, frame).len() == 0
        },
        0 <= k < pending.len() && pending[k].frame == frame && (forall|i: int|
            0 <= i < k ==> (#[trigger] pending[i]).frame != frame) ==> frame_output_name(
            frames,
            pending,
            frame,
        ) == pending[k].output_name@,
{
    let p = is_of_frame(frame);
    if forall|i: int| 0 <= i < pending.len() ==> (#[trigger] pending[i]).frame != frame {
        crate::search::first_match_none(pending, p);
    }
    if 0 <= k < pending.len() && pending[k].frame == frame && (forall|i: int|
        0 <= i < k ==> (#[trigger] pending[i]).frame != frame) {
        crate::search::first_match_at(pending, p, k);
    }
}

/// A frame whose pixels were copied is told its flags first, then, if it asked, each damaged
/// rectangle in order and as it is, and last the time. One whose pixels were not copied is
/// told of the failure and of nothing else.
pub proof fn served_frames_are_told_what_changed(
    copied: bool,
    with_damage: bool,
    damage: Option<Vec<Rectangle>>,
    seconds: u64,
    nanoseconds: u32,
    i: int,
)
    ensures
        ({
            let events = capture_events(copied, with_damage, damage, seconds, nanoseconds);
            let told = if with_damage && damage is Some {
                damage->0@.len()
            } else {
                0
            };
            &&& !copied ==> events.len() == 1 && events[0] == FrameEvent::Failed
            &&& copied ==> events.len() == told + 2 && events[0] == FrameEvent::Flags
            &&& copied ==> (events.last() matches FrameEvent::Ready { nanoseconds: n, .. } && n
                == nanoseconds)
            &&& copied && 0 <= i < told ==> (events[i + 1] matches FrameEvent::Damage {
                x,
                y,
                width,
                height,
            } && {
                let r = damage->0@[i];
                &&& r.loc.x >= 0 ==> x == r.loc.x
                &&& r.loc.y >= 0 ==> y == r.loc.y
                &&& r.size.w >= 0 ==> width == r.size.w
                &&& r.size.h >= 0 ==> height == r.size.h
                &&& r.loc.x < 0 ==> x == r.loc.x + 0x1_0000_0000
                &&& r.loc.y < 0 ==> y == r.loc.y + 0x1_0000_0000
                &&& r.size.w < 0 ==> width == r.size.w + 0x1_0000_0000
                &&& r.size.h < 0 ==> height == r.size.h + 0x1_0000_0000
            })
        }),
{
}

/// A copy that is asked for waits last, with the buffer it names, and the others keep their
/// places.
pub proof fn copies_wait_their_turn(
    frames: Map<u64, Seq<char>>,
    before: Seq<PendingCapture>,
    after: Seq<PendingCapture>,
    frame: u64,
    buffer: u64,
    with_damage: bool,
    i: int,
)
    requires
        asks_for_copy(frames, before, after, frame, buffer, with_damage),
    ensures
        after.len() == before.len() + 1,
        0 <= i < before.len() ==> after[i] == before[i],
        after.last().frame == frame,
        after.last().buffer == buffer,
        after.last().with_damage == with_damage,
        after.last().output_name@ == frame_output_name(frames, before, frame),
{
}

/// A buffer is offered for every capture up to a quarter of what a row can count.
pub proof fn ordinary_captures_can_be_offered(
    outputs: Seq<OutputView>,
    name: Seq<char>,
    region: Option<Rectangle>,
)
    requires
        region matches Some(r) ==> 0 <= r.size.w <= 0x3fff_ffff,
        output_named(outputs, name) matches Some(o) ==> (o.current_mode matches Some(m) ==> 0
            <= m.size.w <= 0x3fff_ffff),
    ensures
        offer_fits(outputs, name, region),
{
}

/// The output names of frames are theirs.
pub proof fn frames_keep_their_names(frames: Map<u64, String>, frame: u64)
    ensures
        frame_names(frames).contains_key(frame) <==> frames.contains_key(frame),
        frames.contains_key(frame) ==> frame_names(frames)[frame] == frames[frame]@,
{
}

} // verus!
