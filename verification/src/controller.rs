use crate::info::{spec_update, InfoView, Infomation, TelemetryEvent};
use crate::pose::Pose;
use vstd::prelude::*;

verus! {

/// Minimum wall-clock interval between two redraws, in milliseconds.
pub const REDRAW_INTERVAL_MS: u64 = 10;

/// The character for one decimal digit value.
pub open spec fn spec_digit_char(d: int) -> char {
    ((48 + d) as u8) as char
}

/// The decimal rendering of a nonnegative integer: most significant
/// digit first, no leading zeros, a single '0' for zero.
pub open spec fn spec_decimal(n: int) -> Seq<char>
    decreases n,
{
    if n < 10 {
        seq![spec_digit_char(n)]
    } else {
        spec_decimal(n / 10).push(spec_digit_char(n % 10))
    }
}

/// Relies on itoa::Buffer::format, which renders an unsigned integer
/// in decimal exactly as libcore does: most significant digit first,
/// no leading zeros, "0" for zero.
#[verifier::external_body]
fn wpm_decimal(n: u16) -> (r: String)
    ensures
        r@ == spec_decimal(n as int),
{
    let mut buffer = itoa::Buffer::new();
    String::from(buffer.format(n))
}

/// What one redraw paints: the decimal typing-speed text for the
/// "wpm:" label and the pose bitmap to blit.
pub struct Frame {
    pub wpm_text: String,
    pub pose: Pose,
}

/// The pose owed for a redraw: while typing speed is nonzero the
/// animation alternates on the parity bit (odd parity raises both
/// paws); at zero speed the display rests in the default pose.
pub open spec fn spec_pose_for(wpm: u16, up: bool) -> Pose {
    if wpm != 0 {
        if up {
            Pose::BothUp
        } else {
            Pose::Default
        }
    } else {
        Pose::Default
    }
}

/// The parity bit after a redraw: flipped while typing, reset to even
/// the moment typing speed is zero, so the idle pose never flickers.
pub open spec fn spec_parity_after(wpm: u16, up: bool) -> bool {
    if wpm != 0 {
        !up
    } else {
        false
    }
}

/// While typing speed stays nonzero, two consecutive redraws never
/// show the same frame: the pose alternates between resting and
/// both-paws-raised.
pub proof fn lemma_animation_alternates(wpm: u16, up: bool)
    requires
        wpm != 0,
    ensures
        spec_pose_for(wpm, spec_parity_after(wpm, up)) != spec_pose_for(wpm, up),
{
}

/// Whether a redraw is due at `now_ms`: always for the very first
/// event (no redraw has happened yet), afterwards only when at least
/// the minimum interval has passed since the last redraw.
pub open spec fn spec_redraw_due(last: Option<u64>, now_ms: u64) -> bool {
    match last {
        None => true,
        Some(t) => now_ms - t >= REDRAW_INTERVAL_MS,
    }
}

/// Once a redraw has happened at time `t`, no further redraw is due
/// before a full throttle interval has passed.
pub proof fn lemma_throttle_interval(t: u64, now_ms: u64)
    requires
        spec_redraw_due(Some(t), now_ms),
    ensures
        now_ms >= t + REDRAW_INTERVAL_MS,
{
}

/// Compose one redraw from the current snapshot. The text is the
/// decimal rendering of the typing speed, the pose follows the
/// parity rule, and the snapshot's parity bit advances for the next
/// frame; nothing else in the snapshot changes.
pub fn compose_frame(info: &mut Infomation) -> (f: Frame)
    ensures
        f.wpm_text@ == spec_decimal(old(info)@.wpm as int),
        f.pose == spec_pose_for(old(info)@.wpm, old(info)@.up),
        final(info)@ == (InfoView {
            up: spec_parity_after(old(info)@.wpm, old(info)@.up),
            ..old(info)@
        }),
{
    let wpm_text = wpm_decimal(info.wpm);
    let pose: Pose;
    if info.wpm != 0 {
        pose = if info.up {
            Pose::BothUp
        } else {
            Pose::Default
        };
        info.up = !info.up;
    } else {
        pose = Pose::Default;
        info.up = false;
    }
    Frame { wpm_text, pose }
}

/// A monochrome surface the controller hands finished frames to: the
/// concrete display transport implements this at the system's edge.
pub trait DisplayDriver {
    /// Clear the whole surface to the background color.
    fn clear(&mut self);

    /// Draw one composed frame: the static labels, the typing-speed
    /// text and the selected pose bitmap.
    fn draw(&mut self, frame: &Frame);

    /// Commit the drawn frame to the hardware.
    fn flush(&mut self);
}

/// The runtime state machine: consumes telemetry events one at a
/// time, keeps the snapshot current, and throttles redraws to the
/// minimum interval.
pub struct DisplayController {
    pub info: Infomation,
    /// Time of the last redraw in milliseconds, absent until the
    /// first redraw so that the very first event always redraws.
    pub last_update: Option<u64>,
}

impl DisplayController {
    /// A controller for `peripheral_count` split peripherals, with a
    /// fresh all-defaults snapshot and no redraw performed yet.
    pub fn new(peripheral_count: usize) -> (r: DisplayController)
        ensures
            r.info@ == crate::info::spec_fresh_info(peripheral_count as nat),
            r.last_update is None,
    {
        DisplayController { info: Infomation::new(peripheral_count), last_update: None }
    }

    /// Consume one telemetry event arriving at `now_ms`: apply it to
    /// the snapshot, then redraw only if the throttle allows it,
    /// returning the composed frame when it does.
    pub fn process_event(&mut self, event: &TelemetryEvent, now_ms: u64) -> (f: Option<Frame>)
        ensures
            ({
                let updated = spec_update(old(self).info@, *event);
                if spec_redraw_due(old(self).last_update, now_ms) {
                    &&& f is Some
                    &&& f->Some_0.wpm_text@ == spec_decimal(updated.wpm as int)
                    &&& f->Some_0.pose == spec_pose_for(updated.wpm, updated.up)
                    &&& final(self).info@ == InfoView {
                        up: spec_parity_after(updated.wpm, updated.up),
                        ..updated
                    }
                    &&& final(self).last_update == Some(now_ms)
                } else {
                    &&& f is None
                    &&& final(self).info@ == updated
                    &&& final(self).last_update == old(self).last_update
                }
            }),
    {
        self.info.update_info(event);
        let due: bool = match self.last_update {
            None => true,
            Some(t) => now_ms >= t && now_ms - t >= REDRAW_INTERVAL_MS,
        };
        if due {
            let frame = compose_frame(&mut self.info);
            self.last_update = Some(now_ms);
            Some(frame)
        } else {
            None
        }
    }

    /// Consume one event and, when a redraw is due, paint it on the
    /// driver: clear, draw the frame, flush. Returns whether a redraw
    /// happened.
    pub fn run_step<D: DisplayDriver>(
        &mut self,
        driver: &mut D,
        event: &TelemetryEvent,
        now_ms: u64,
    ) -> (redrew: bool)
        ensures
            redrew == spec_redraw_due(old(self).last_update, now_ms),
            ({
                let updated = spec_update(old(self).info@, *event);
                if spec_redraw_due(old(self).last_update, now_ms) {
                    &&& final(self).info@ == InfoView {
                        up: spec_parity_after(updated.wpm, updated.up),
                        ..updated
                    }
                    &&& final(self).last_update == Some(now_ms)
                } else {
                    &&& final(self).info@ == updated
                    &&& final(self).last_update == old(self).last_update
                }
            }),
    {
        let frame = self.process_event(event, now_ms);
        match frame {
            Some(f) => {
                driver.clear();
                driver.draw(&f);
                driver.flush();
                true
            },
            None => false,
        }
    }
}

} // verus!
