//! The chart's state: the sample log, the viewport, the interaction
//! flags and the link cadence, with every mutation specified exactly.
//!
//! The host calls in once per timer tick (request cadence, byte
//! ingestion) and once per input event (keys, mouse, scroll); it reads
//! the fields back to draw. Coordinates follow `crate::units`: the time
//! axis in micro-(seconds since process start), the value axis in
//! micro-picoamps, pixel values plain.

use vstd::prelude::*;

use crate::config::Config;
use crate::framing::frames_of;
use crate::framing::rest_of;
use crate::framing::take_frames;
use crate::framing::views_of;
use crate::parse::frame_ok;
use crate::parse::frame_val;
use crate::parse::parse_frame;
use crate::units::clamp_coord;
use crate::units::clamp_span;
use crate::units::mul_div;
use crate::units::sat_coord;
use crate::units::sat_span;
use crate::units::spec_mul_div;
use crate::units::COORD_MAX;
use crate::units::INTERVAL_MAX;
use crate::units::ONE;
use crate::units::PIXEL_MAX;
use crate::units::TIME_MAX;
use crate::units::VALUE_MAX;

verus! {

/// One reading: when it arrived and what it was.
#[derive(Clone, Copy, Debug, PartialEq, Eq, Structural)]
pub struct Sample {
    /// Micro-seconds since process start, taken from a monotonic clock.
    pub time: i64,
    /// Micro-picoamps.
    pub value: i64,
}

/// A color the renderer uses; the core only stores it.
#[derive(Clone, Copy, Debug, PartialEq, Eq, Structural)]
pub struct Rgb {
    pub red: u8,
    pub green: u8,
    pub blue: u8,
}

/// What a key-down asks the host to do beyond the state change already
/// applied.
#[derive(Clone, Copy, Debug, PartialEq, Eq, Structural)]
pub enum KeyAction {
    /// Nothing further.
    NoAction,
    /// Redraw the chart.
    Redraw,
    /// Reload the configuration, call `App::reset_view` with it, and
    /// redraw.
    ResetRequested,
}

/// The sample log is ordered by time and every entry is in range.
pub open spec fn log_wf(s: Seq<Sample>) -> bool {
    &&& forall|i: int, j: int|
        0 <= i <= j < s.len() ==> #[trigger] s[i].time <= #[trigger] s[j].time
    &&& forall|i: int|
        0 <= i < s.len() ==> 0 <= (#[trigger] s[i]).time <= TIME_MAX && -VALUE_MAX <= s[i].value
            <= VALUE_MAX
}

/// Time of the newest sample, or zero for an empty log.
pub open spec fn last_time(s: Seq<Sample>) -> int {
    if s.len() == 0 {
        0
    } else {
        s.last().time as int
    }
}

pub struct App {
    /// The append-only sample log.
    pub data: Vec<Sample>,
    /// Bytes received but not yet resolved into a frame.
    pub buffer: Vec<u8>,
    /// Left edge of the viewport on the time axis.
    pub x: i64,
    /// Bottom edge of the viewport on the value axis.
    pub y: i64,
    /// Width of the viewport: time-axis span, always positive.
    pub w: i64,
    /// Height of the viewport: value-axis span, always positive.
    pub h: i64,
    /// Last known mouse position, in pixels.
    pub mx: i64,
    pub my: i64,
    /// Pixel space reserved for the value-axis labels.
    pub left_pad: i64,
    pub left_pad_min: i64,
    /// Pixel space reserved for the time-axis labels.
    pub bottom_pad: i64,
    pub bottom_pad_min: i64,
    /// Modifier keys currently held.
    pub shift: bool,
    pub ctrl: bool,
    /// Mouse buttons currently held; any of them engages dragging.
    pub ml: bool,
    pub mr: bool,
    pub mm: bool,
    /// Interval between measurement requests, in micro-seconds.
    pub min_sample_time: i64,
    /// When the last request went out, micro-seconds since start.
    pub previous_sample_time: i64,
    /// Whether axis-label space is reduced to a minimum.
    pub minimal: bool,
    /// Whether the viewport follows newly appended samples.
    pub follow: bool,
    /// Whether the value axis is drawn upside down.
    pub vertical_flip: bool,
    pub bg_color: Rgb,
    pub fg_color: Rgb,
    pub data_color: Rgb,
    pub data_stroke_width: u32,
}

impl App {
    /// The state invariant every operation preserves: both spans are
    /// positive, every stored quantity is in range, and the log is
    /// ordered.
    pub open spec fn wf(self) -> bool {
        &&& -COORD_MAX <= self.x <= COORD_MAX
        &&& -COORD_MAX <= self.y <= COORD_MAX
        &&& 1 <= self.w <= COORD_MAX
        &&& 1 <= self.h <= COORD_MAX
        &&& -PIXEL_MAX <= self.mx <= PIXEL_MAX
        &&& -PIXEL_MAX <= self.my <= PIXEL_MAX
        &&& 0 <= self.left_pad <= PIXEL_MAX
        &&& 0 <= self.left_pad_min <= PIXEL_MAX
        &&& 0 <= self.bottom_pad <= PIXEL_MAX
        &&& 0 <= self.bottom_pad_min <= PIXEL_MAX
        &&& 0 <= self.min_sample_time <= INTERVAL_MAX
        &&& 0 <= self.previous_sample_time <= TIME_MAX
        &&& log_wf(self.data@)
    }

    /// A fresh chart over the configured default window: empty log,
    /// empty byte queue, follow enabled, white-on-black palette.
    pub fn new(cfg: &Config) -> (app: App)
        requires
            cfg.wf(),
        ensures
            app.wf(),
            app.data@.len() == 0,
            app.buffer@.len() == 0,
            app.x == 0,
            app.y == cfg.default_min_picoamps,
            app.w == cfg.default_window_time,
            app.h == cfg.default_max_picoamps - cfg.default_min_picoamps,
            app.mx == 0 && app.my == 0,
            app.left_pad == 70 && app.left_pad_min == 45,
            app.bottom_pad == 35 && app.bottom_pad_min == 0,
            !app.shift && !app.ctrl && !app.ml && !app.mr && !app.mm,
            app.min_sample_time == cfg.time_between_samples,
            app.previous_sample_time == 0,
            !app.minimal && app.follow && !app.vertical_flip,
            app.bg_color == (Rgb { red: 0, green: 0, blue: 0 }),
            app.fg_color == (Rgb { red: 255, green: 255, blue: 255 }),
            app.data_color == (Rgb { red: 255, green: 0, blue: 0 }),
            app.data_stroke_width == cfg.stroke_width,
    {
        App {
            data: Vec::new(),
            buffer: Vec::new(),
            x: 0,
            y: cfg.default_min_picoamps,
            w: cfg.default_window_time,
            h: cfg.default_max_picoamps - cfg.default_min_picoamps,
            mx: 0,
            my: 0,
            left_pad: 70,
            left_pad_min: 45,
            bottom_pad: 35,
            bottom_pad_min: 0,
            shift: false,
            ctrl: false,
            ml: false,
            mr: false,
            mm: false,
            min_sample_time: cfg.time_between_samples,
            previous_sample_time: 0,
            minimal: false,
            follow: true,
            vertical_flip: false,
            bg_color: Rgb { red: 0, green: 0, blue: 0 },
            fg_color: Rgb { red: 255, green: 255, blue: 255 },
            data_color: Rgb { red: 255, green: 0, blue: 0 },
            data_stroke_width: cfg.stroke_width,
        }
    }

    /// The left pad in force, depending on the minimal-labels toggle.
    pub open spec fn spec_left_pad(self) -> int {
        if self.minimal {
            self.left_pad_min as int
        } else {
            self.left_pad as int
        }
    }

    /// The bottom pad in force, depending on the minimal-labels toggle.
    pub open spec fn spec_bottom_pad(self) -> int {
        if self.minimal {
            self.bottom_pad_min as int
        } else {
            self.bottom_pad as int
        }
    }

    pub fn get_left_pad(&self) -> (r: i64)
        ensures
            r == self.spec_left_pad(),
    {
        if self.minimal {
            self.left_pad_min
        } else {
            self.left_pad
        }
    }

    pub fn get_bottom_pad(&self) -> (r: i64)
        ensures
            r == self.spec_bottom_pad(),
    {
        if self.minimal {
            self.bottom_pad_min
        } else {
            self.bottom_pad
        }
    }

    /// Micro-(time units) of one pixel column of the plot area.
    pub fn x_scale_factor(&self, width: u32) -> (r: i64)
        requires
            self.wf(),
            self.spec_left_pad() < width <= PIXEL_MAX,
        ensures
            r == self.w as int / (width - self.spec_left_pad()),
    {
        let we = width as i64 - self.get_left_pad();
        ((self.w as u64) / (we as u64)) as i64
    }

    /// Micro-picoamps of one pixel row of the plot area.
    pub fn y_scale_factor(&self, height: u32) -> (r: i64)
        requires
            self.wf(),
            self.spec_bottom_pad() < height <= PIXEL_MAX,
        ensures
            r == self.h as int / (height - self.spec_bottom_pad()),
    {
        let he = height as i64 - self.get_bottom_pad();
        ((self.h as u64) / (he as u64)) as i64
    }

    /// The visible time interval, left edge first.
    pub fn time_axis_range(&self) -> (r: (i64, i64))
        requires
            self.wf(),
        ensures
            r.0 == self.x,
            r.1 == self.x + self.w,
    {
        (self.x, self.x + self.w)
    }

    /// The visible value interval in drawing order: bottom edge first,
    /// or top edge first when the axis is flipped.
    pub fn value_axis_range(&self) -> (r: (i64, i64))
        requires
            self.wf(),
        ensures
            !self.vertical_flip ==> r.0 == self.y && r.1 == self.y + self.h,
            self.vertical_flip ==> r.0 == self.y + self.h && r.1 == self.y,
    {
        if self.vertical_flip {
            (self.y + self.h, self.y)
        } else {
            (self.y, self.y + self.h)
        }
    }

    /// Record that a measurement request went out now.
    pub fn note_request(&mut self, now: i64)
        requires
            old(self).wf(),
            0 <= now <= TIME_MAX,
        ensures
            final(self).wf(),
            *final(self) == (App { previous_sample_time: now, ..*old(self) }),
    {
        self.previous_sample_time = now;
    }

    /// Whether so long has passed since the last request that the host's
    /// periodic timer must have died and needs to be re-armed: more than
    /// ten sampling intervals.
    pub fn needs_timer_restart(&self, now: i64) -> (r: bool)
        requires
            self.wf(),
            0 <= now <= TIME_MAX,
        ensures
            r == (now - self.previous_sample_time > 10 * self.min_sample_time),
    {
        now - self.previous_sample_time > 10 * self.min_sample_time
    }

    /// The sampling interval as the host timer wants it, in
    /// milliseconds.
    pub fn timer_interval_ms(&self) -> (r: u32)
        requires
            self.wf(),
        ensures
            r == self.min_sample_time as int / 1000,
    {
        ((self.min_sample_time as u64) / 1000) as u32
    }

    /// Apply one key press: modifier flags, display toggles, palette
    /// choices, or a request to reset the view from fresh configuration.
    pub fn on_key_down(&mut self, key_code: u32) -> (r: KeyAction)
        requires
            old(self).wf(),
        ensures
            final(self).wf(),
            key_code == 16 ==> *final(self) == (App { shift: true, ..*old(self) }) && r
                == KeyAction::NoAction,
            key_code == 17 ==> *final(self) == (App { ctrl: true, ..*old(self) }) && r
                == KeyAction::NoAction,
            key_code == 73 ==> *final(self) == (App { minimal: !old(self).minimal, ..*old(self) })
                && r == KeyAction::Redraw,
            key_code == 70 ==> *final(self) == (App { follow: !old(self).follow, ..*old(self) })
                && r == KeyAction::NoAction,
            key_code == 89 ==> *final(self) == (App {
                vertical_flip: !old(self).vertical_flip,
                ..*old(self)
            }) && r == KeyAction::Redraw,
            key_code == 68 ==> *final(self) == (App {
                bg_color: Rgb { red: 0, green: 0, blue: 0 },
                fg_color: Rgb { red: 255, green: 255, blue: 255 },
                ..*old(self)
            }) && r == KeyAction::Redraw,
            key_code == 76 ==> *final(self) == (App {
                bg_color: Rgb { red: 255, green: 255, blue: 255 },
                fg_color: Rgb { red: 0, green: 0, blue: 0 },
                ..*old(self)
            }) && r == KeyAction::Redraw,
            key_code == 83 ==> *final(self) == (App {
                bg_color: Rgb { red: 255, green: 239, blue: 207 },
                fg_color: Rgb { red: 0, green: 0, blue: 0 },
                ..*old(self)
            }) && r == KeyAction::Redraw,
            key_code == 32 ==> *final(self) == *old(self) && r == KeyAction::ResetRequested,
            !(key_code == 16 || key_code == 17 || key_code == 73 || key_code == 70 || key_code
                == 89 || key_code == 68 || key_code == 76 || key_code == 83 || key_code == 32)
                ==> *final(self) == *old(self) && r == KeyAction::NoAction,
    {
        match key_code {
            // Shift
            16 => {
                self.shift = true;
                KeyAction::NoAction
            },
            // Ctrl
            17 => {
                self.ctrl = true;
                KeyAction::NoAction
            },
            // I: toggle minimal axis labels
            73 => {
                self.minimal = !self.minimal;
                KeyAction::Redraw
            },
            // F: toggle follow mode
            70 => {
                self.follow = !self.follow;
                KeyAction::NoAction
            },
            // Y: flip the value axis
            89 => {
                self.vertical_flip = !self.vertical_flip;
                KeyAction::Redraw
            },
            // D: dark palette
            68 => {
                self.bg_color = Rgb { red: 0, green: 0, blue: 0 };
                self.fg_color = Rgb { red: 255, green: 255, blue: 255 };
                KeyAction::Redraw
            },
            // L: light palette
            76 => {
                self.bg_color = Rgb { red: 255, green: 255, blue: 255 };
                self.fg_color = Rgb { red: 0, green: 0, blue: 0 };
                KeyAction::Redraw
            },
            // S: sepia palette
            83 => {
                self.bg_color = Rgb { red: 255, green: 239, blue: 207 };
                self.fg_color = Rgb { red: 0, green: 0, blue: 0 };
                KeyAction::Redraw
            },
            // Space: reset the view from fresh configuration
            32 => KeyAction::ResetRequested,
            _ => KeyAction::NoAction,
        }
    }

    /// Release a modifier key.
    pub fn on_key_up(&mut self, key_code: u32)
        requires
            old(self).wf(),
        ensures
            final(self).wf(),
            key_code == 16 ==> *final(self) == (App { shift: false, ..*old(self) }),
            key_code == 17 ==> *final(self) == (App { ctrl: false, ..*old(self) }),
            !(key_code == 16 || key_code == 17) ==> *final(self) == *old(self),
    {
        match key_code {
            16 => {
                self.shift = false;
            },
            17 => {
                self.ctrl = false;
            },
            _ => {},
        }
    }

    pub fn on_mouse_left_down(&mut self)
        requires
            old(self).wf(),
        ensures
            final(self).wf(),
            *final(self) == (App { ml: true, ..*old(self) }),
    {
        self.ml = true;
    }

    pub fn on_mouse_middle_down(&mut self)
        requires
            old(self).wf(),
        ensures
            final(self).wf(),
            *final(self) == (App { mm: true, ..*old(self) }),
    {
        self.mm = true;
    }

    pub fn on_mouse_right_down(&mut self)
        requires
            old(self).wf(),
        ensures
            final(self).wf(),
            *final(self) == (App { mr: true, ..*old(self) }),
    {
        self.mr = true;
    }

    pub fn on_mouse_left_up(&mut self)
        requires
            old(self).wf(),
        ensures
            final(self).wf(),
            *final(self) == (App { ml: false, ..*old(self) }),
    {
        self.ml = false;
    }

    pub fn on_mouse_middle_up(&mut self)
        requires
            old(self).wf(),
        ensures
            final(self).wf(),
            *final(self) == (App { mm: false, ..*old(self) }),
    {
        self.mm = false;
    }

    pub fn on_mouse_right_up(&mut self)
        requires
            old(self).wf(),
        ensures
            final(self).wf(),
            *final(self) == (App { mr: false, ..*old(self) }),
    {
        self.mr = false;
    }

    /// Restore the viewport from configuration: default spans, follow
    /// re-enabled, and the time window moved so the newest sample is
    /// just inside the right edge (or to the origin on an empty log).
    pub fn reset_view(&mut self, cfg: &Config)
        requires
            old(self).wf(),
            cfg.wf(),
        ensures
            final(self).wf(),
            final(self).follow,
            final(self).w == cfg.default_window_time,
            final(self).h == cfg.default_max_picoamps - cfg.default_min_picoamps,
            final(self).y == cfg.default_min_picoamps,
            final(self).x == if last_time(old(self).data@) - cfg.default_window_time + ONE > 0 {
                last_time(old(self).data@) - cfg.default_window_time + ONE
            } else {
                0
            },
            final(self).min_sample_time == cfg.time_between_samples,
            *final(self) == (App {
                follow: true,
                x: final(self).x,
                y: final(self).y,
                w: final(self).w,
                h: final(self).h,
                min_sample_time: final(self).min_sample_time,
                ..*old(self)
            }),
    {
        self.follow = true;
        self.w = cfg.default_window_time;
        self.h = cfg.default_max_picoamps - cfg.default_min_picoamps;
        self.y = cfg.default_min_picoamps;
        let lt: i64 = if self.data.len() > 0 {
            self.data[self.data.len() - 1].time
        } else {
            0
        };
        let moved = lt - self.w + ONE;
        self.x = if moved > 0 {
            moved
        } else {
            0
        };
        self.min_sample_time = cfg.time_between_samples;
    }

    /// Append one reading and, in follow mode, shift the time window
    /// after it and grow the value window around it.
    pub fn append_sample(&mut self, time: i64, value: i64)
        requires
            old(self).wf(),
            0 <= time <= TIME_MAX,
            last_time(old(self).data@) <= time,
            -VALUE_MAX <= value <= VALUE_MAX,
        ensures
            final(self).wf(),
            final(self).data@ == old(self).data@.push(Sample { time, value }),
            old(self).follow ==> viewport_of(*final(self)) == follow_step(
                viewport_of(*old(self)),
                time as int,
                value as int,
            ),
            !old(self).follow ==> final(self).x == old(self).x && final(self).y == old(self).y
                && final(self).h == old(self).h,
            final(self).w == old(self).w,
            *final(self) == (App {
                data: final(self).data,
                x: final(self).x,
                y: final(self).y,
                h: final(self).h,
                ..*old(self)
            }),
    {
        proof {
            let s = self.data@;
            let t = s.push(Sample { time, value });
            assert forall|i: int, j: int|
                0 <= i <= j < t.len() implies #[trigger] t[i].time <= #[trigger] t[j].time by {
                if j < s.len() {
                    assert(s[i].time <= s[j].time);
                } else if i < s.len() {
                    assert(s[i].time <= s[s.len() - 1].time);
                }
            }
        }
        self.data.push(Sample { time, value });
        if self.follow {
            if time < self.x {
                self.x = time - ONE;
            } else if time > self.x + self.w {
                self.x = time - self.w + ONE;
            }
            if value < self.y {
                let nh = clamp_span((self.h as i128) + (self.y as i128) - (value as i128));
                self.h = nh;
                self.y = value;
            } else if value > self.y + self.h {
                let nh = clamp_span((value as i128) - (self.y as i128));
                self.h = nh;
            }
        }
    }

    /// Take newly read bytes, resolve every complete frame in the queue,
    /// and append one sample per well-formed frame, in frame order, all
    /// stamped `now`; in follow mode the viewport tracks each appended
    /// sample in turn. Malformed frames are dropped; the unterminated
    /// tail stays queued.
    pub fn ingest_bytes(&mut self, bytes: &Vec<u8>, now: i64)
        requires
            old(self).wf(),
            0 <= now <= TIME_MAX,
            last_time(old(self).data@) <= now,
        ensures
            final(self).wf(),
            final(self).buffer@ == rest_of(old(self).buffer@ + bytes@),
            final(self).data@.len() == old(self).data@.len() + ingested_values(
                old(self).buffer@ + bytes@,
            ).len(),
            forall|k: int|
                0 <= k < old(self).data@.len() ==> final(self).data@[k] == old(self).data@[k],
            forall|k: int|
                0 <= k < ingested_values(old(self).buffer@ + bytes@).len() ==> (#[trigger] final(
                    self
                ).data@[old(self).data@.len() + k]).time == now && final(self).data@[old(
                    self
                ).data@.len() + k].value == ingested_values(old(self).buffer@ + bytes@)[k],
            old(self).follow ==> viewport_of(*final(self)) == follow_fold(
                viewport_of(*old(self)),
                ingested_values(old(self).buffer@ + bytes@),
                now as int,
            ),
            !old(self).follow ==> final(self).x == old(self).x && final(self).y == old(self).y
                && final(self).h == old(self).h,
            final(self).w == old(self).w,
            *final(self) == (App {
                data: final(self).data,
                buffer: final(self).buffer,
                x: final(self).x,
                y: final(self).y,
                h: final(self).h,
                ..*old(self)
            }),
    {
        let ghost q = old(self).buffer@ + bytes@;
        self.buffer.extend_from_slice(bytes.as_slice());
        assert(self.buffer@ == q);
        let frames = take_frames(&mut self.buffer);
        let ghost views = views_of(frames@);
        let ghost data0 = self.data@;
        let ghost vp0 = viewport_of(*self);
        let ghost follow0 = self.follow;
        let ghost pre = *self;
        let n = frames.len();
        let mut i: usize = 0;
        while i < n
            invariant
                i <= n == frames@.len(),
                views == views_of(frames@),
                views == frames_of(q),
                self.buffer@ == rest_of(q),
                follow0 == pre.follow,
                vp0 == viewport_of(pre),
                data0 == pre.data@,
                self.wf(),
                0 <= now <= TIME_MAX,
                self.data@.len() == data0.len() + parsed_values(views.take(i as int)).len(),
                forall|k: int| 0 <= k < data0.len() ==> self.data@[k] == data0[k],
                forall|k: int|
                    0 <= k < parsed_values(views.take(i as int)).len() ==> (#[trigger] self.data@[data0.len() + k]).time
                        == now && self.data@[data0.len() + k].value == parsed_values(
                        views.take(i as int),
                    )[k],
                last_time(self.data@) <= now,
                follow0 ==> viewport_of(*self) == follow_fold(
                    vp0,
                    parsed_values(views.take(i as int)),
                    now as int,
                ),
                !follow0 ==> self.x == vp0.0 && self.y == vp0.1 && self.h == vp0.3,
                self.w == vp0.2,
                *self == (App {
                    data: self.data,
                    buffer: self.buffer,
                    x: self.x,
                    y: self.y,
                    h: self.h,
                    ..pre
                }),
            decreases n - i,
        {
            proof {
                assert(views.take(i + 1).drop_last() =~= views.take(i as int));
                assert(views.take(i + 1).last() == views[i as int]);
                assert(frames@[i as int]@ == views[i as int]);
            }
            match parse_frame(&frames[i]) {
                Some(v) => {
                    self.append_sample(now, v);
                    proof {
                        assert(parsed_values(views.take(i + 1)) =~= parsed_values(
                            views.take(i as int),
                        ) + seq![frame_val(views[i as int])]);
                        assert(parsed_values(views.take(i + 1)).drop_last() =~= parsed_values(
                            views.take(i as int),
                        ));
                        assert(parsed_values(views.take(i + 1)).last() == frame_val(
                            views[i as int],
                        ));
                    }
                },
                None => {
                    proof {
                        assert(parsed_values(views.take(i + 1)) =~= parsed_values(
                            views.take(i as int),
                        ));
                    }
                },
            }
            i = i + 1;
        }
        proof {
            assert(views.take(n as int) =~= views);
        }
    }

    /// Track the pointer; while a button is held, pan the viewport by
    /// the pixel delta scaled to domain units (value axis inverted
    /// unless flipped).
    pub fn on_mouse_move(&mut self, mouse_x: i16, mouse_y: i16, width: u32, height: u32) -> (redraw:
        bool)
        requires
            old(self).wf(),
            old(self).spec_left_pad() < width <= PIXEL_MAX,
            old(self).spec_bottom_pad() < height <= PIXEL_MAX,
        ensures
            final(self).wf(),
            final(self).mx == mouse_x && final(self).my == mouse_y,
            redraw == (old(self).ml || old(self).mr || old(self).mm),
            redraw ==> final(self).x == sat_coord(
                old(self).x - spec_mul_div(
                    mouse_x - old(self).mx,
                    old(self).w as int,
                    width - old(self).spec_left_pad(),
                ),
            ) && final(self).y == (if old(self).vertical_flip {
                sat_coord(
                    old(self).y - spec_mul_div(
                        mouse_y - old(self).my,
                        old(self).h as int,
                        height - old(self).spec_bottom_pad(),
                    ),
                )
            } else {
                sat_coord(
                    old(self).y + spec_mul_div(
                        mouse_y - old(self).my,
                        old(self).h as int,
                        height - old(self).spec_bottom_pad(),
                    ),
                )
            }),
            !redraw ==> final(self).x == old(self).x && final(self).y == old(self).y,
            *final(self) == (App {
                mx: final(self).mx,
                my: final(self).my,
                x: final(self).x,
                y: final(self).y,
                ..*old(self)
            }),
    {
        let dx = mouse_x as i64 - self.mx;
        let dy = mouse_y as i64 - self.my;
        let dragging = self.ml || self.mr || self.mm;
        if dragging {
            let we = width as i64 - self.get_left_pad();
            let he = height as i64 - self.get_bottom_pad();
            let tx = mul_div(dx as i128, self.w as i128, we as i128);
            let ty = mul_div(dy as i128, self.h as i128, he as i128);
            self.x = clamp_coord(self.x as i128 - tx);
            self.y = if self.vertical_flip {
                clamp_coord(self.y as i128 - ty)
            } else {
                clamp_coord(self.y as i128 + ty)
            };
        }
        self.mx = mouse_x as i64;
        self.my = mouse_y as i64;
        dragging
    }

    /// Apply one scroll-wheel event: shift held zooms the time axis
    /// about the cursor, ctrl held zooms the value axis about the
    /// cursor, and no modifier pans the time axis.
    pub fn on_scroll(&mut self, scroll_distance: i16, width: u32, height: u32) -> (redraw: bool)
        requires
            old(self).wf(),
            old(self).spec_left_pad() < width <= PIXEL_MAX,
            old(self).spec_bottom_pad() < height <= PIXEL_MAX,
        ensures
            final(self).wf(),
            redraw,
            old(self).shift ==> final(self).w == zoom_span(old(self).w as int, scroll_distance as int)
                && final(self).x == zoom_origin(
                old(self).x as int,
                old(self).w as int,
                old(self).mx - old(self).spec_left_pad(),
                width - old(self).spec_left_pad(),
                scroll_distance as int,
            ) && final(self).y == old(self).y && final(self).h == old(self).h,
            !old(self).shift && old(self).ctrl ==> final(self).h == zoom_span(
                old(self).h as int,
                scroll_distance as int,
            ) && final(self).y == zoom_origin(
                old(self).y as int,
                old(self).h as int,
                if old(self).vertical_flip {
                    old(self).my as int
                } else {
                    height - old(self).my - old(self).spec_bottom_pad()
                },
                height - old(self).spec_bottom_pad(),
                scroll_distance as int,
            ) && final(self).x == old(self).x && final(self).w == old(self).w,
            !old(self).shift && !old(self).ctrl ==> final(self).x == sat_coord(
                old(self).x - spec_mul_div(
                    500 * scroll_distance as int,
                    old(self).w as int,
                    2000 * (width - old(self).spec_left_pad()),
                ),
            ) && final(self).y == old(self).y && final(self).w == old(self).w && final(self).h
                == old(self).h,
            *final(self) == (App {
                x: final(self).x,
                y: final(self).y,
                w: final(self).w,
                h: final(self).h,
                ..*old(self)
            }),
    {
        let sd = scroll_distance as i64;
        if self.shift {
            let lp = self.get_left_pad();
            let we = width as i64 - lp;
            let px = self.mx - lp;
            let a = self.x as i128 + mul_div(px as i128, self.w as i128, we as i128);
            let nw = clamp_span(mul_div(self.w as i128, (2000 - sd) as i128, 2000));
            let nx = clamp_coord(a - mul_div(px as i128, nw as i128, we as i128));
            self.w = nw;
            self.x = nx;
        } else if self.ctrl {
            let bp = self.get_bottom_pad();
            let he = height as i64 - bp;
            let py = if self.vertical_flip {
                self.my
            } else {
                height as i64 - self.my - bp
            };
            let a = self.y as i128 + mul_div(py as i128, self.h as i128, he as i128);
            let nh = clamp_span(mul_div(self.h as i128, (2000 - sd) as i128, 2000));
            let ny = clamp_coord(a - mul_div(py as i128, nh as i128, he as i128));
            self.h = nh;
            self.y = ny;
        } else {
            let lp = self.get_left_pad();
            let we = width as i64 - lp;
            let t = mul_div(500 * sd as i128, self.w as i128, 2000 * we as i128);
            self.x = clamp_coord(self.x as i128 - t);
        }
        true
    }
}

/// A span zoomed by one scroll notch count `sd`: scaled by
/// `(2000 - sd) / 2000` and clamped positive, so zooming can never
/// collapse or flip a span.
pub open spec fn zoom_span(s: int, sd: int) -> int {
    sat_span(spec_mul_div(s, 2000 - sd, 2000))
}

/// The domain coordinate under a cursor `px` pixels into a plot area
/// `e` pixels wide, for a viewport edge `o` and span `s`.
pub open spec fn anchor_pos(o: int, s: int, px: int, e: int) -> int {
    o + spec_mul_div(px, s, e)
}

/// The viewport edge after an anchor-preserving zoom: placed so the
/// domain coordinate under the cursor is the same before and after.
pub open spec fn zoom_origin(o: int, s: int, px: int, e: int, sd: int) -> int {
    sat_coord(anchor_pos(o, s, px, e) - spec_mul_div(px, zoom_span(s, sd), e))
}

/// Follow policy on the time axis: a sample outside the window shifts
/// the window so the sample sits one unit inside the nearer edge.
pub open spec fn follow_x(x: int, w: int, t: int) -> int {
    if t < x {
        t - ONE
    } else if t > x + w {
        t - w + ONE
    } else {
        x
    }
}

/// Autoscale on the value axis, bottom edge: a sample below the window
/// becomes the new bottom; the window never shrinks.
pub open spec fn follow_y(y: int, h: int, v: int) -> int {
    if v < y {
        v
    } else {
        y
    }
}

/// Autoscale on the value axis, span: grown just enough to reach a
/// sample outside, never shrunk.
pub open spec fn follow_h(y: int, h: int, v: int) -> int {
    if v < y {
        sat_span(h + (y - v))
    } else if v > y + h {
        sat_span(v - y)
    } else {
        h
    }
}

/// One sample's effect on the viewport `(x, y, w, h)` in follow mode.
pub open spec fn follow_step(vp: (int, int, int, int), t: int, v: int) -> (int, int, int, int) {
    (follow_x(vp.0, vp.2, t), follow_y(vp.1, vp.3, v), vp.2, follow_h(vp.1, vp.3, v))
}

/// The viewport after appending each value of `vals` at time `t` in
/// follow mode, in order.
pub open spec fn follow_fold(vp: (int, int, int, int), vals: Seq<int>, t: int) -> (
    int,
    int,
    int,
    int,
)
    decreases vals.len(),
{
    if vals.len() == 0 {
        vp
    } else {
        follow_step(follow_fold(vp, vals.drop_last(), t), t, vals.last())
    }
}

/// The decoded values of the well-formed frames, in order.
pub open spec fn parsed_values(frames: Seq<Seq<u8>>) -> Seq<int>
    decreases frames.len(),
{
    if frames.len() == 0 {
        seq![]
    } else {
        parsed_values(frames.drop_last()) + (if frame_ok(frames.last()) {
            seq![frame_val(frames.last())]
        } else {
            seq![]
        })
    }
}

/// The sample values a byte queue yields once its complete frames are
/// resolved.
pub open spec fn ingested_values(q: Seq<u8>) -> Seq<int> {
    parsed_values(frames_of(q))
}

/// The viewport rectangle of a chart state.
pub open spec fn viewport_of(a: App) -> (int, int, int, int) {
    (a.x as int, a.y as int, a.w as int, a.h as int)
}

/// Decoding distributes over concatenation of frame lists.
pub proof fn lemma_parsed_values_append(a: Seq<Seq<u8>>, b: Seq<Seq<u8>>)
    ensures
        parsed_values(a + b) == parsed_values(a) + parsed_values(b),
    decreases b.len(),
{
    if b.len() == 0 {
        assert(a + b =~= a);
        assert(parsed_values(a) + parsed_values(b) =~= parsed_values(a));
    } else {
        lemma_parsed_values_append(a, b.drop_last());
        assert((a + b).drop_last() =~= a + b.drop_last());
        assert((a + b).last() == b.last());
        let tail = if frame_ok(b.last()) {
            seq![frame_val(b.last())]
        } else {
            seq![]
        };
        assert(parsed_values(a) + parsed_values(b) =~= (parsed_values(a) + parsed_values(
            b.drop_last(),
        )) + tail);
    }
}

/// Feeding the byte stream in two chunks yields the same decoded sample
/// values, in the same order, as feeding it at once: the first chunk
/// yields its own values, and the second chunk, prepended with the first
/// chunk's unterminated tail, yields the remainder; the leftovers agree
/// too.
pub proof fn lemma_chunked_feed_values(q1: Seq<u8>, q2: Seq<u8>)
    ensures
        ingested_values(q1 + q2) == ingested_values(q1) + ingested_values(rest_of(q1) + q2),
        rest_of(q1 + q2) == rest_of(rest_of(q1) + q2),
{
    crate::framing::lemma_feed_split(q1, q2);
    lemma_parsed_values_append(frames_of(q1), frames_of(rest_of(q1) + q2));
}

/// Sample times are non-decreasing in every well-formed chart state,
/// whatever sequence of appends produced it.
pub proof fn lemma_log_times_nondecreasing(a: App)
    requires
        a.wf(),
    ensures
        forall|i: int, j: int|
            0 <= i <= j < a.data@.len() ==> #[trigger] a.data@[i].time <= #[trigger] a.data@[j].time,
{
}

/// Follow mode shows a sample newer than the visible window: the window
/// moves to exactly one unit past the sample, and the sample's time lies
/// inside the new window. (A window narrower than one unit cannot hold
/// the sample together with the one-unit margin.)
pub proof fn lemma_follow_shows_new_sample(x: int, w: int, t: int)
    requires
        ONE <= w,
        t > x + w,
    ensures
        follow_x(x, w, t) == t - w + ONE,
        follow_x(x, w, t) <= t <= follow_x(x, w, t) + w,
{
}

/// An anchor-preserving zoom is exactly that: as long as the new edge
/// needs no clamping, the domain coordinate under the cursor after the
/// zoom equals the one before it.
pub proof fn lemma_zoom_preserves_anchor(o: int, s: int, px: int, e: int, sd: int)
    requires
        e > 0,
        -COORD_MAX <= anchor_pos(o, s, px, e) - spec_mul_div(px, zoom_span(s, sd), e) <= COORD_MAX,
    ensures
        anchor_pos(zoom_origin(o, s, px, e, sd), zoom_span(s, sd), px, e) == anchor_pos(
            o,
            s,
            px,
            e,
        ),
{
}

/// Both spans are strictly positive in every well-formed chart state,
/// after any sequence of zoom, pan, follow and reset operations.
pub proof fn lemma_spans_positive(a: App)
    requires
        a.wf(),
    ensures
        a.w > 0 && a.h > 0,
{
}

} // verus!
