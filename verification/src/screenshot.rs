//! Screenshot captures: from a key press to a named PNG.
use vstd::prelude::*;
use vstd::string::*;

use crate::gpu::is_bgra;
use crate::gpu::Format;
use crate::text::decimal_text;

verus! {

/// A capture whose GPU copy was recorded during a given frame. `buffer` is the
/// caller's handle of the read-back buffer.
pub struct PendingCapture {
    pub frame: usize,
    pub buffer: u64,
    pub width: u32,
    pub height: u32,
    pub bgra: bool,
    pub target: Option<String>,
}

/// Tracks one-shot captures between arming and the result on disk.
pub struct ScreenshotCapture {
    pub armed: bool,
    pub target: Option<String>,
    pub pending: Vec<PendingCapture>,
    /// An entry, the buffer it read, for each encode started whose result was not drained.
    pub in_flight: Vec<u64>,
}

/// What a [`ScreenshotCapture`] holds.
pub struct CaptureState {
    pub armed: bool,
    pub target: Option<Seq<char>>,
    pub pending: Seq<PendingCapture>,
    pub in_flight: nat,
}

impl CaptureState {
    /// A capture is somewhere between armed and written to disk.
    pub open spec fn saving(self) -> bool {
        self.armed || self.pending.len() > 0 || self.in_flight > 0
    }

    /// The state once a key press armed a capture.
    pub open spec fn after_arm(self) -> CaptureState {
        CaptureState { armed: true, ..self }
    }

    /// The state once a capture to `path` was asked for.
    pub open spec fn after_arm_to(self, path: Seq<char>) -> CaptureState {
        CaptureState { armed: true, target: Some(path), ..self }
    }

    /// The state once `capture` was recorded.
    pub open spec fn after_record(self, capture: PendingCapture) -> CaptureState {
        CaptureState {
            armed: false,
            target: None,
            pending: self.pending.push(capture),
            in_flight: self.in_flight,
        }
    }

    /// The captures recorded for `frame`, oldest first.
    pub open spec fn ready(self, frame: usize) -> Seq<PendingCapture> {
        self.pending.filter(|c: PendingCapture| c.frame == frame)
    }

    /// The state once the captures of `frame` went to the encoder.
    pub open spec fn after_collect(self, frame: usize) -> CaptureState {
        CaptureState {
            pending: self.pending.filter(|c: PendingCapture| c.frame != frame),
            in_flight: self.in_flight + self.ready(frame).len(),
            ..self
        }
    }

    /// The state once `count` encoder results came back.
    pub open spec fn after_drain(self, count: nat) -> CaptureState {
        CaptureState {
            in_flight: if self.in_flight >= count {
                (self.in_flight - count) as nat
            } else {
                0
            },
            ..self
        }
    }
}

impl View for ScreenshotCapture {
    type V = CaptureState;

    open spec fn view(&self) -> CaptureState {
        CaptureState {
            armed: self.armed,
            target: crate::text::opt_text(self.target),
            pending: self.pending@,
            in_flight: self.in_flight@.len(),
        }
    }
}

/// The entries of a result batch that carry a result, in order.
pub open spec fn kept_results(batch: Seq<Option<Result<String, String>>>) -> Seq<
    Result<String, String>,
>
    decreases batch.len(),
{
    if batch.len() == 0 {
        Seq::empty()
    } else {
        let head = kept_results(batch.drop_last());
        match batch.last() {
            Some(result) => head.push(result),
            None => head,
        }
    }
}

impl ScreenshotCapture {
    pub fn new() -> (capture: Self)
        ensures
            capture@ == (CaptureState {
                armed: false,
                target: None,
                pending: Seq::empty(),
                in_flight: 0,
            }),
    {
        ScreenshotCapture { armed: false, target: None, pending: Vec::new(), in_flight: Vec::new() }
    }

    /// Arms a one-shot capture, recorded on the next presented frame.
    pub fn arm(&mut self)
        ensures
            final(self)@ == old(self)@.after_arm(),
    {
        self.armed = true;
    }

    /// Arms a capture to a chosen path. Refused while another one is under way.
    pub fn arm_to(&mut self, path: String) -> (outcome: Result<(), String>)
        ensures
            outcome is Err <==> old(self)@.saving(),
            outcome is Ok ==> final(self)@ == old(self)@.after_arm_to(path@),
            outcome is Err ==> final(self)@ == old(self)@ && outcome->Err_0@
                == "Another screenshot is in flight"@,
    {
        if self.saving() {
            return Err("Another screenshot is in flight".to_owned());
        }
        self.target = Some(path);
        self.armed = true;
        Ok(())
    }

    /// A capture is somewhere between armed and written to disk.
    pub fn saving(&self) -> (busy: bool)
        ensures
            busy == self@.saving(),
    {
        self.armed || self.pending.len() > 0 || self.in_flight.len() > 0
    }

    /// Takes in a batch of encoder messages and hands out the results in it.
    pub fn drain_results(&mut self, batch: Vec<Option<Result<String, String>>>) -> (results: Vec<
        Result<String, String>,
    >)
        ensures
            final(self)@ == old(self)@.after_drain(batch@.len()),
            results@ == kept_results(batch@),
    {
        let left: usize = self.in_flight.len().saturating_sub(batch.len());
        self.in_flight.truncate(left);
        let ghost all = batch@;
        let mut rest = batch;
        let mut reversed: Vec<Result<String, String>> = Vec::new();
        let mut results: Vec<Result<String, String>> = Vec::new();
        while rest.len() > 0
            invariant
                rest@.is_prefix_of(all),
                kept_results(all) == kept_results(rest@) + reversed@.reverse(),
            decreases rest@.len(),
        {
            let ghost before = rest@;
            let ghost tail = reversed@;
            let last = rest.pop();
            if let Some(Some(result)) = last {
                reversed.push(result);
                assert(reversed@.reverse() =~= seq![result] + tail.reverse());
            }
            assert(before.drop_last() =~= rest@);
            assert(kept_results(all) =~= kept_results(rest@) + reversed@.reverse());
        }
        assert(kept_results(all) =~= reversed@.reverse());
        let ghost tail = reversed@;
        while reversed.len() > 0
            invariant
                tail.reverse() == results@ + reversed@.reverse(),
            decreases reversed@.len(),
        {
            let ghost before = reversed@;
            let ghost done = results@;
            if let Some(result) = reversed.pop() {
                results.push(result);
                assert(before.reverse() =~= seq![result] + reversed@.reverse());
                assert(done + before.reverse() =~= results@ + reversed@.reverse());
            }
        }
        assert(reversed@.reverse() =~= Seq::empty());
        results
    }

    /// Records the copy of the presented image if a capture is armed.
    pub fn record_if_armed(
        &mut self,
        frame: usize,
        buffer: u64,
        width: u32,
        height: u32,
        format: Format,
    ) -> (recorded: bool)
        ensures
            recorded == old(self).armed,
            !recorded ==> *final(self) == *old(self),
            recorded ==> final(self)@ == old(self)@.after_record(
                (PendingCapture {
                    frame,
                    buffer,
                    width,
                    height,
                    bgra: format == Format::B8G8R8A8Srgb || format == Format::B8G8R8A8Unorm,
                    target: old(self).target,
                }),
            ),
    {
        if !self.armed {
            return false;
        }
        self.armed = false;
        let target = self.target.take();
        self.pending.push(
            PendingCapture { frame, buffer, width, height, bgra: is_bgra(format), target },
        );
        true
    }

    /// Takes out every capture recorded for `frame`, whose fence has signalled.
    pub fn collect_ready(&mut self, frame: usize) -> (ready: Vec<PendingCapture>)
        ensures
            ready@ == old(self)@.ready(frame),
            final(self)@ == old(self)@.after_collect(frame),
    {
        let ghost all = self.pending@;
        let ghost mut seen: int = 0;
        let ghost here = |c: PendingCapture| c.frame == frame;
        let ghost elsewhere = |c: PendingCapture| c.frame != frame;
        let mut ready: Vec<PendingCapture> = Vec::new();
        let mut i: usize = 0;
        proof {
            assert(all.take(0) =~= Seq::empty());
            reveal(Seq::filter);
            assert(all.skip(0) =~= all);
            assert(all.take(0).filter(elsewhere) + all.skip(0) =~= all);
        }
        while i < self.pending.len()
            invariant
                all == old(self).pending@,
                0 <= seen <= all.len(),
                here == (|c: PendingCapture| c.frame == frame),
                elsewhere == (|c: PendingCapture| c.frame != frame),
                ready@ == all.take(seen).filter(here),
                self.pending@ == all.take(seen).filter(elsewhere) + all.skip(seen),
                i == all.take(seen).filter(elsewhere).len(),
                self.armed == old(self).armed,
                self.target == old(self).target,
                self.in_flight@.len() == old(self).in_flight@.len() + ready@.len(),
            decreases all.len() - seen,
        {
            let ghost kept = all.take(seen).filter(elsewhere);
            proof {
                reveal(Seq::filter);
                assert(all.take(seen + 1).drop_last() =~= all.take(seen));
                assert(all.take(seen + 1).last() == all[seen]);
                assert(self.pending@[i as int] == all.skip(seen)[0]);
                assert(all.skip(seen)[0] == all[seen]);
            }
            if self.pending[i].frame == frame {
                let capture = self.pending.remove(i);
                self.in_flight.push(capture.buffer);
                ready.push(capture);
                assert(self.pending@ =~= kept + all.skip(seen + 1));
            } else {
                assert(self.pending@ =~= kept.push(all[seen]) + all.skip(seen + 1));
                i = i + 1;
            }
            proof {
                seen = seen + 1;
            }
        }
        assert(all.take(all.len() as int) =~= all);
        assert(seen == all.len());
        assert(all.skip(seen) =~= Seq::empty());
        assert(self.pending@ =~= all.filter(elsewhere));
        ready
    }

    /// Hands out every capture still waiting (teardown).
    pub fn destroy(&mut self) -> (dropped: Vec<PendingCapture>)
        ensures
            dropped@ == old(self)@.pending,
            final(self)@ == (CaptureState { pending: Seq::empty(), ..old(self)@ }),
    {
        let mut dropped: Vec<PendingCapture> = Vec::new();
        std::mem::swap(&mut dropped, &mut self.pending);
        dropped
    }
}

/// From an idle capture: arm, record, collect and drain lead back to idle, with
/// `saving` set at every step in between.
pub proof fn law_capture_cycle(start: CaptureState, capture: PendingCapture)
    requires
        !start.saving(),
    ensures
        start.after_arm().saving(),
        start.after_arm().after_record(capture).saving(),
        start.after_arm().after_record(capture).ready(capture.frame) == seq![capture],
        start.after_arm().after_record(capture).after_collect(capture.frame).saving(),
        !start.after_arm().after_record(capture).after_collect(capture.frame).after_drain(
            1,
        ).saving(),
{
    reveal(Seq::filter);
    let recorded = start.after_arm().after_record(capture);
    assert(recorded.pending =~= seq![capture]);
    assert(recorded.pending.drop_last() =~= Seq::empty());
    assert(recorded.ready(capture.frame) =~= seq![capture]);
    let elsewhere = |c: PendingCapture| c.frame != capture.frame;
    assert(Seq::<PendingCapture>::empty().filter(elsewhere) =~= Seq::empty());
    assert(recorded.pending.filter(elsewhere) =~= Seq::empty());
}

proof fn lemma_filter_splits(pending: Seq<PendingCapture>, frame: usize)
    ensures
        ({
            let here = pending.filter(|c: PendingCapture| c.frame == frame);
            let elsewhere = pending.filter(|c: PendingCapture| c.frame != frame);
            &&& pending.len() == here.len() + elsewhere.len()
            &&& pending.to_multiset() == here.to_multiset().add(elsewhere.to_multiset())
        }),
    decreases pending.len(),
{
    broadcast use vstd::seq_lib::group_to_multiset_ensures;

    reveal(Seq::filter);
    let here = |c: PendingCapture| c.frame == frame;
    let elsewhere = |c: PendingCapture| c.frame != frame;
    if pending.len() > 0 {
        let head = pending.drop_last();
        let last = pending.last();
        lemma_filter_splits(head, frame);
        assert(pending =~= head.push(last));
        assert(pending.to_multiset() =~= head.to_multiset().insert(last));
        if here(last) {
            assert(pending.filter(here) == head.filter(here).push(last));
            assert(pending.filter(elsewhere) == head.filter(elsewhere));
        } else {
            assert(pending.filter(here) == head.filter(here));
            assert(pending.filter(elsewhere) == head.filter(elsewhere).push(last));
        }
        assert(pending.to_multiset() =~= pending.filter(here).to_multiset().add(
            pending.filter(elsewhere).to_multiset(),
        ));
    } else {
        assert(pending.to_multiset() =~= pending.filter(here).to_multiset().add(
            pending.filter(elsewhere).to_multiset(),
        ));
    }
}

/// Collecting a frame sends each of its captures to the encoder once and keeps the
/// others in their order: none is lost, none is sent twice, and as many more are in
/// flight as were sent. Whether a capture is being saved does not change, nor what is
/// armed.
pub proof fn law_collecting_loses_nothing(state: CaptureState, frame: usize)
    ensures
        ({
            let after = state.after_collect(frame);
            let sent = state.ready(frame);
            &&& after.pending == state.pending.filter(|c: PendingCapture| c.frame != frame)
            &&& state.pending.to_multiset() == sent.to_multiset().add(after.pending.to_multiset())
            &&& state.pending.len() == sent.len() + after.pending.len()
            &&& after.in_flight == state.in_flight + sent.len()
            &&& after.saving() == state.saving()
            &&& after.armed == state.armed
            &&& after.target == state.target
        }),
{
    lemma_filter_splits(state.pending, frame);
}

/// Collecting one frame leaves the captures of every other frame alone.
pub proof fn law_collect_keeps_other_frames(state: CaptureState, frame: usize, other: usize)
    requires
        frame != other,
    ensures
        state.after_collect(frame).ready(other) == state.ready(other),
{
    lemma_filter_keeps_other(state.pending, frame, other);
}

proof fn lemma_filter_keeps_other(pending: Seq<PendingCapture>, frame: usize, other: usize)
    requires
        frame != other,
    ensures
        pending.filter(|c: PendingCapture| c.frame != frame).filter(
            |c: PendingCapture| c.frame == other,
        ) == pending.filter(|c: PendingCapture| c.frame == other),
    decreases pending.len(),
{
    reveal(Seq::filter);
    let rest = |c: PendingCapture| c.frame != frame;
    let want = |c: PendingCapture| c.frame == other;
    if pending.len() > 0 {
        let head = pending.drop_last();
        lemma_filter_keeps_other(head, frame, other);
        if rest(pending.last()) {
            let kept = head.filter(rest).push(pending.last());
            assert(kept.drop_last() =~= head.filter(rest));
            assert(kept.last() == pending.last());
        }
    }
}

/// Bytes of a read-back buffer for an image of four-byte pixels.
pub fn readback_size(width: u32, height: u32) -> (size: u64)
    requires
        width * height * 4 <= u64::MAX,
    ensures
        size == width * height * 4,
{
    assert(width * height <= u64::MAX / 4);
    width as u64 * height as u64 * 4
}

/// What an encoder sends back: nothing where the capture had a chosen target,
/// whose caller is answered directly.
pub fn queued_result(has_target: bool, result: Result<String, String>) -> (message: Option<
    Result<String, String>,
>)
    ensures
        message == (if has_target {
            None
        } else {
            Some(result)
        }),
{
    if has_target {
        None
    } else {
        Some(result)
    }
}

/// Red, green and blue of each whole four-byte pixel, in that order.
pub open spec fn rgb_of(pixels: Seq<u8>, bgra: bool) -> Seq<u8> {
    Seq::new(
        (pixels.len() / 4) * 3,
        |i: int|
            pixels[4 * (i / 3) + (if bgra {
                2 - i % 3
            } else {
                i % 3
            })],
    )
}

/// Drops alpha and puts the channels in red, green, blue order.
pub fn to_rgb(pixels: &[u8], bgra: bool) -> (rgb: Vec<u8>)
    ensures
        rgb@ == rgb_of(pixels@, bgra),
{
    let mut rgb: Vec<u8> = Vec::new();
    let count: usize = pixels.len() / 4;
    let mut p: usize = 0;
    while p < count
        invariant
            count == pixels@.len() / 4,
            pixels@.len() == pixels.len(),
            p <= count,
            rgb@.len() == 3 * p,
            forall|i: int| 0 <= i < 3 * p ==> rgb@[i] == #[trigger] rgb_of(pixels@, bgra)[i],
        decreases count - p,
    {
        let ghost before = rgb@;
        let base: usize = p * 4;
        if bgra {
            rgb.push(pixels[base + 2]);
            rgb.push(pixels[base + 1]);
            rgb.push(pixels[base]);
        } else {
            rgb.push(pixels[base]);
            rgb.push(pixels[base + 1]);
            rgb.push(pixels[base + 2]);
        }
        assert forall|i: int| 0 <= i < 3 * (p + 1) implies rgb@[i] == #[trigger] rgb_of(
            pixels@,
            bgra,
        )[i] by {
            if i >= 3 * p {
                assert(i / 3 == p);
                assert(i % 3 == i - 3 * p);
            } else {
                assert(rgb@[i] == before[i]);
            }
        }
        p = p + 1;
    }
    assert(rgb@ =~= rgb_of(pixels@, bgra));
    rgb
}

/// The PNG file of an eight-bit RGB image, or the encoder's message.
pub uninterp spec fn png_rgb(width: u32, height: u32, rgb: Seq<u8>) -> Result<Seq<u8>, Seq<char>>;

/// The views of an encoder outcome.
pub open spec fn png_outcome(outcome: Result<Vec<u8>, String>) -> Result<Seq<u8>, Seq<char>> {
    match outcome {
        Ok(bytes) => Ok(bytes@),
        Err(message) => Err(message@),
    }
}

/// Encodes with `png::Encoder`: RGB, eight bits, default compression, into
/// memory. The outcome depends on the arguments alone; the encoder refuses an
/// empty image and data whose length is not that of the image.
#[verifier::external_body]
fn encode_png(width: u32, height: u32, rgb: &[u8]) -> (outcome: Result<Vec<u8>, String>)
    requires
        width * height * 3 < usize::MAX,
    ensures
        png_outcome(outcome) == png_rgb(width, height, rgb@),
        outcome is Ok ==> width > 0 && height > 0 && rgb@.len() == width * height * 3,
{
    let mut bytes = Vec::new();
    let mut encoder = png::Encoder::new(&mut bytes, width, height);
    encoder.set_color(png::ColorType::Rgb);
    encoder.set_depth(png::BitDepth::Eight);
    let mut writer = encoder.write_header().map_err(|e| e.to_string())?;
    writer.write_image_data(rgb).map_err(|e| e.to_string())?;
    writer.finish().map_err(|e| e.to_string())?;
    Ok(bytes)
}

/// The file contents for one read-back image.
pub fn encode_screenshot(pixels: &[u8], width: u32, height: u32, bgra: bool) -> (outcome: Result<
    Vec<u8>,
    String,
>)
    requires
        width * height * 3 < usize::MAX,
    ensures
        png_outcome(outcome) == png_rgb(width, height, rgb_of(pixels@, bgra)),
        outcome is Ok ==> width > 0 && height > 0 && pixels@.len() / 4 == width * height,
{
    let rgb = to_rgb(pixels, bgra);
    encode_png(width, height, rgb.as_slice())
}

/// The `n`-th name tried for a time stamp: the counter shows from the second on.
pub open spec fn candidate(stamp: Seq<char>, n: nat) -> Seq<char> {
    if n == 1 {
        stamp + ".png"@
    } else {
        stamp + "_"@ + crate::text::decimal(n) + ".png"@
    }
}

/// The search for a file name nobody uses.
pub struct NameSearch {
    pub stamp: String,
    pub n: u32,
}

impl NameSearch {
    pub fn new(stamp: String) -> (search: Self)
        ensures
            search.stamp == stamp,
            search.n == 1,
    {
        NameSearch { stamp, n: 1 }
    }

    /// The name to try now.
    pub fn name(&self) -> (name: String)
        ensures
            name@ == candidate(self.stamp@, self.n as nat),
    {
        let mut name = self.stamp.clone();
        if self.n == 1 {
            name.append(".png");
        } else {
            name.append("_");
            let count = decimal_text(self.n);
            name.append(count.as_str());
            name.append(".png");
        }
        name
    }

    /// The tried name exists: go on to the next.
    pub fn taken(&mut self)
        requires
            old(self).n < u32::MAX,
        ensures
            final(self).n == old(self).n + 1,
            final(self).stamp == old(self).stamp,
    {
        self.n = self.n + 1;
    }
}

/// No name is tried twice.
pub proof fn law_candidates_differ(stamp: Seq<char>, a: nat, b: nat)
    requires
        1 <= a < b,
    ensures
        candidate(stamp, a) != candidate(stamp, b),
{
    reveal_strlit("_");
    reveal_strlit(".png");
    crate::text::lemma_decimal_nonempty(b);
    let x = candidate(stamp, a);
    let y = candidate(stamp, b);
    if a == 1 {
        assert(x.len() < y.len());
    } else if x == y {
        let da = crate::text::decimal(a);
        let db = crate::text::decimal(b);
        let from = (stamp + "_"@).len() as int;
        assert(x.subrange(from, x.len() - 4) =~= da);
        assert(y.subrange(from, y.len() - 4) =~= db);
        crate::text::law_decimal_is_injective(a, b);
    }
}

/// Asking for a capture arms one and touches nothing that is under way; asking for one to
/// a path gives it that target.
pub proof fn law_asking_arms_a_capture(state: CaptureState, path: Seq<char>)
    ensures
        state.after_arm().armed && state.after_arm_to(path).armed,
        state.after_arm().target == state.target,
        state.after_arm_to(path).target == Some(path),
        state.after_arm().pending == state.pending,
        state.after_arm_to(path).pending == state.pending,
        state.after_arm().in_flight == state.in_flight,
        state.after_arm_to(path).in_flight == state.in_flight,
{
}

/// Recording a capture uses up what was armed and puts it behind those that wait for
/// their frame.
pub proof fn law_recording_uses_up_the_arming(state: CaptureState, capture: PendingCapture, i: int)
    ensures
        ({
            let after = state.after_record(capture);
            &&& !after.armed
            &&& after.target is None
            &&& after.in_flight == state.in_flight
            &&& after.pending.len() == state.pending.len() + 1
            &&& after.pending.last() == capture
            &&& 0 <= i < state.pending.len() ==> after.pending[i] == state.pending[i]
        }),
{
}

/// Every result that comes back ends one encode, and none is ended that was not begun.
pub proof fn law_results_end_their_encode(state: CaptureState, count: nat)
    ensures
        ({
            let after = state.after_drain(count);
            &&& after.in_flight <= state.in_flight
            &&& count <= state.in_flight ==> after.in_flight + count == state.in_flight
            &&& count > state.in_flight ==> after.in_flight == 0
            &&& after.pending == state.pending
            &&& after.armed == state.armed
            &&& after.target == state.target
            &&& after.saving() <==> state.armed || state.pending.len() != 0 || state.in_flight
                > count
        }),
{
}

/// The results of a batch are handed on in order, and what carries none is left out.
pub proof fn law_results_are_handed_on(batch: Seq<Option<Result<String, String>>>)
    ensures
        kept_results(batch) == batch.filter(
            |r: Option<Result<String, String>>| r is Some,
        ).map_values(|r: Option<Result<String, String>>| r->0),
    decreases batch.len(),
{
    reveal(Seq::filter);
    let some = |r: Option<Result<String, String>>| r is Some;
    let inner = |r: Option<Result<String, String>>| r->0;
    if batch.len() > 0 {
        law_results_are_handed_on(batch.drop_last());
        assert(kept_results(batch) =~= batch.filter(some).map_values(inner));
    } else {
        assert(kept_results(batch) =~= batch.filter(some).map_values(inner));
    }
}

/// Each whole pixel gives its red, its green and its blue, in whichever order the surface
/// holds them, and its alpha is dropped.
pub proof fn law_colours_come_red_first(pixels: Seq<u8>, bgra: bool, p: int)
    requires
        0 <= p < pixels.len() / 4,
    ensures
        ({
            let rgb = rgb_of(pixels, bgra);
            &&& rgb.len() == 3 * (pixels.len() / 4)
            &&& rgb[3 * p + 1] == pixels[4 * p + 1]
            &&& !bgra ==> rgb[3 * p] == pixels[4 * p] && rgb[3 * p + 2] == pixels[4 * p + 2]
            &&& bgra ==> rgb[3 * p] == pixels[4 * p + 2] && rgb[3 * p + 2] == pixels[4 * p]
        }),
{
    assert((3 * p) / 3 == p && (3 * p) % 3 == 0);
    assert((3 * p + 1) / 3 == p && (3 * p + 1) % 3 == 1);
    assert((3 * p + 2) / 3 == p && (3 * p + 2) % 3 == 2);
}

/// A name is the time stamp and, from the second try on, the number of the try behind an
/// underscore.
pub proof fn law_candidates_name_their_stamp(stamp: Seq<char>, n: nat)
    requires
        n >= 1,
    ensures
        ({
            let name = candidate(stamp, n);
            let rest = name.skip(stamp.len() as int);
            &&& name.len() > stamp.len()
            &&& name.take(stamp.len() as int) == stamp
            &&& n == 1 ==> rest == seq!['.', 'p', 'n', 'g']
            &&& n > 1 ==> rest == seq!['_'] + crate::text::decimal(n) + seq!['.', 'p', 'n', 'g']
        }),
{
    reveal_strlit("_");
    reveal_strlit(".png");
    let name = candidate(stamp, n);
    assert(".png"@ =~= seq!['.', 'p', 'n', 'g']);
    assert("_"@ =~= seq!['_']);
    assert(name.take(stamp.len() as int) =~= stamp);
    if n == 1 {
        assert(name.skip(stamp.len() as int) =~= ".png"@);
    } else {
        assert(name.skip(stamp.len() as int) =~= seq!['_'] + crate::text::decimal(n) + seq![
            '.',
            'p',
            'n',
            'g',
        ]);
    }
}

} // verus!
