//! The blue-shift light: telemetry samples in, MOZA RPM-LED commands out.
//!
//! Each tick takes the rev-ratio reading of the freshest sample, decides the
//! LEDs to show, swaps the colour table (with the LEDs dark) when flash mode
//! changes, and resends the mask when it changes or a heartbeat is due.
use vstd::prelude::*;
use crate::config::Rgb;
use crate::device::moza_led::{LedCommand, CommandView, MozaLedDevice, commands_view};
use crate::led::blue_shift::{
    BlueShiftMapper, MapperView, RatioReading, LedOutput, mapper_step, elapsed_ms,
};
use crate::telemetry::engine::EngineSample;
use crate::telemetry::pc2::{sample_from_datagram, spec_sample_from_datagram};

verus! {

/// LEDs on the wheel's RPM bar.
pub const LED_COUNT: usize = 10;

/// A sample older than this no longer drives the LEDs.
pub const IDLE_TIMEOUT_MS: u64 = 2000;

/// The mask is resent at least this often.
pub const HEARTBEAT_MS: u64 = 250;

/// Status lines are due this often.
pub const STATUS_INTERVAL_MS: u64 = 1000;

/// The shortest blink half-period.
pub const MIN_FLASH_MS: u64 = 40;

/// The UDP port Automobilista 2 sends telemetry to.
pub const AMS2_PORT: u16 = 5606;

/// The normal colour table: green, then yellow, orange and red towards the limit.
pub open spec fn spec_default_normal_colors() -> Seq<Rgb> {
    seq![
        [0u8, 255u8, 0u8],
        [0u8, 255u8, 0u8],
        [0u8, 255u8, 0u8],
        [0u8, 255u8, 0u8],
        [255u8, 255u8, 0u8],
        [255u8, 255u8, 0u8],
        [255u8, 255u8, 0u8],
        [255u8, 128u8, 0u8],
        [255u8, 0u8, 0u8],
        [255u8, 0u8, 0u8],
    ]
}

/// The normal colour table (see `spec_default_normal_colors`).
pub fn default_normal_colors() -> (colors: Vec<Rgb>)
    ensures
        colors@ == spec_default_normal_colors(),
{
    let colors: Vec<Rgb> = vec![
        [0, 255, 0],
        [0, 255, 0],
        [0, 255, 0],
        [0, 255, 0],
        [255, 255, 0],
        [255, 255, 0],
        [255, 255, 0],
        [255, 128, 0],
        [255, 0, 0],
        [255, 0, 0],
    ];
    assert(colors@ =~= spec_default_normal_colors());
    colors
}

/// The flash colour when none is configured: blue.
pub fn default_flash_color() -> (color: Rgb)
    ensures
        color@ == seq![0u8, 0u8, 255u8],
{
    let color: Rgb = [0, 0, 255];
    assert(color@ =~= seq![0u8, 0u8, 255u8]);
    color
}

/// An engine sample and when it arrived.
#[derive(Debug, Clone, Copy, PartialEq, Eq, Structural)]
pub struct TimedSample {
    pub sample: EngineSample,
    pub received_ms: u64,
}

/// What one tick decided.
#[derive(Debug)]
pub struct Tick {
    /// Commands to send to the wheel, in order.
    pub commands: Vec<LedCommand>,
    /// The LED frame of this tick.
    pub output: LedOutput,
    /// A status line is due.
    pub report_status: bool,
}

/// The state of a shift light, as contracts see it.
pub struct ShiftLightView {
    pub led_count: nat,
    pub mapper: MapperView,
    pub normal_colors: Seq<Rgb>,
    pub flash_colors: Seq<Rgb>,
    pub latest: Option<TimedSample>,
    pub last_mask: Option<u32>,
    pub last_send_ms: nat,
    pub last_status_ms: nat,
}

/// Drives a wheel's RPM LEDs from telemetry.
#[derive(Debug)]
pub struct ShiftLight {
    device: MozaLedDevice,
    mapper: BlueShiftMapper,
    normal_colors: Vec<Rgb>,
    flash_colors: Vec<Rgb>,
    latest: Option<TimedSample>,
    last_mask: Option<u32>,
    last_send_ms: u64,
    last_status_ms: u64,
}

impl View for ShiftLight {
    type V = ShiftLightView;

    closed spec fn view(&self) -> ShiftLightView {
        ShiftLightView {
            led_count: self.device@,
            mapper: self.mapper@,
            normal_colors: self.normal_colors@,
            flash_colors: self.flash_colors@,
            latest: self.latest,
            last_mask: self.last_mask,
            last_send_ms: self.last_send_ms as nat,
            last_status_ms: self.last_status_ms as nat,
        }
    }
}

/// The sample that drives the LEDs at `now_ms`: the latest one, unless it is
/// older than the idle timeout.
pub open spec fn spec_active_sample(v: ShiftLightView, now_ms: nat) -> Option<EngineSample> {
    match v.latest {
        Some(t) => if elapsed_ms(now_ms, t.received_ms as nat) < IDLE_TIMEOUT_MS {
            Some(t.sample)
        } else {
            None
        },
        None => None,
    }
}

/// Whether the mask goes out this tick: after a colour swap, when it differs from
/// the last one sent, or when the heartbeat is due.
pub open spec fn mask_due(v: ShiftLightView, out: LedOutput, now_ms: nat) -> bool {
    out.flash_changed || v.last_mask != Some(out.mask) || elapsed_ms(now_ms, v.last_send_ms)
        >= HEARTBEAT_MS
}

/// Whether a status line is due.
pub open spec fn status_due(v: ShiftLightView, now_ms: nat) -> bool {
    elapsed_ms(now_ms, v.last_status_ms) >= STATUS_INTERVAL_MS
}

/// The commands of one tick: on a flash-mode change, all LEDs off and the colour
/// table of the new mode; then the mask, when due.
pub open spec fn tick_commands(v: ShiftLightView, r: RatioReading, now_ms: nat) -> Seq<CommandView> {
    let out = mapper_step(v.mapper, r, now_ms).1;
    let swap = if out.flash_changed {
        seq![
            CommandView::SetMask(0, v.led_count),
            CommandView::UploadColors(if out.flash_mode { v.flash_colors } else { v.normal_colors }),
        ]
    } else {
        Seq::empty()
    };
    let send = if mask_due(v, out, now_ms) {
        seq![CommandView::SetMask(out.mask, v.led_count)]
    } else {
        Seq::empty()
    };
    swap + send
}

/// The state after one tick.
pub open spec fn tick_state(v: ShiftLightView, r: RatioReading, now_ms: nat) -> ShiftLightView {
    let (mapper, out) = mapper_step(v.mapper, r, now_ms);
    let due = mask_due(v, out, now_ms);
    ShiftLightView {
        mapper,
        last_mask: if due { Some(out.mask) } else { v.last_mask },
        last_send_ms: if due { now_ms } else { v.last_send_ms },
        last_status_ms: if status_due(v, now_ms) { now_ms } else { v.last_status_ms },
        ..v
    }
}

/// A colour table is only ever uploaded with every LED off: right after the
/// command that turns them all off.
pub proof fn law_colors_swap_in_the_dark(v: ShiftLightView, r: RatioReading, now_ms: nat, k: int)
    requires
        0 <= k < tick_commands(v, r, now_ms).len(),
        tick_commands(v, r, now_ms)[k] is UploadColors,
    ensures
        k > 0,
        tick_commands(v, r, now_ms)[k - 1] == CommandView::SetMask(0, v.led_count),
{
}

/// Entering flash mode uploads the flash table, leaving it restores the normal
/// one, and either is followed by the frame's mask.
pub proof fn law_swap_uploads_table_of_new_mode(v: ShiftLightView, r: RatioReading, now_ms: nat)
    requires
        mapper_step(v.mapper, r, now_ms).1.flash_changed,
    ensures
        ({
            let out = mapper_step(v.mapper, r, now_ms).1;
            let cmds = tick_commands(v, r, now_ms);
            &&& cmds.len() == 3
            &&& cmds[1] == CommandView::UploadColors(
                if out.flash_mode { v.flash_colors } else { v.normal_colors },
            )
            &&& cmds[2] == CommandView::SetMask(out.mask, v.led_count)
        }),
{
}

/// When the heartbeat is due, the frame's mask goes out.
pub proof fn law_heartbeat_resends_mask(v: ShiftLightView, r: RatioReading, now_ms: nat)
    requires
        elapsed_ms(now_ms, v.last_send_ms) >= HEARTBEAT_MS,
    ensures
        tick_commands(v, r, now_ms).len() > 0,
        tick_commands(v, r, now_ms).last() == CommandView::SetMask(
            mapper_step(v.mapper, r, now_ms).1.mask,
            v.led_count,
        ),
{
}

/// A frame equal to the last one sent, in the same mode and before the heartbeat,
/// sends nothing.
pub proof fn law_unchanged_frame_sends_nothing(v: ShiftLightView, r: RatioReading, now_ms: nat)
    requires
        !mapper_step(v.mapper, r, now_ms).1.flash_changed,
        v.last_mask == Some(mapper_step(v.mapper, r, now_ms).1.mask),
        elapsed_ms(now_ms, v.last_send_ms) < HEARTBEAT_MS,
    ensures
        tick_commands(v, r, now_ms).len() == 0,
{
}

/// Without a colour swap, a frame whose mask differs from the last mask sent is
/// sent at once, as the only command of the tick.
pub proof fn law_changed_mask_sent_at_once(v: ShiftLightView, r: RatioReading, now_ms: nat)
    requires
        !mapper_step(v.mapper, r, now_ms).1.flash_changed,
        v.last_mask != Some(mapper_step(v.mapper, r, now_ms).1.mask),
    ensures
        tick_commands(v, r, now_ms) == seq![
            CommandView::SetMask(mapper_step(v.mapper, r, now_ms).1.mask, v.led_count),
        ],
{
    assert(tick_commands(v, r, now_ms) =~= seq![
        CommandView::SetMask(mapper_step(v.mapper, r, now_ms).1.mask, v.led_count),
    ]);
}

/// The remembered last mask and send time change only through a mask the tick
/// sends: a tick that sends a mask records that mask and its own time as the last
/// send, a tick that sends nothing leaves both as they were.
pub proof fn law_send_record_follows_commands(v: ShiftLightView, r: RatioReading, now_ms: nat)
    ensures
        tick_commands(v, r, now_ms).len() > 0 ==> ({
            &&& tick_commands(v, r, now_ms).last() == CommandView::SetMask(
                tick_state(v, r, now_ms).last_mask->0,
                v.led_count,
            )
            &&& tick_state(v, r, now_ms).last_mask == Some(mapper_step(v.mapper, r, now_ms).1.mask)
            &&& tick_state(v, r, now_ms).last_send_ms == now_ms
        }),
        tick_commands(v, r, now_ms).len() == 0 ==> ({
            &&& tick_state(v, r, now_ms).last_mask == v.last_mask
            &&& tick_state(v, r, now_ms).last_send_ms == v.last_send_ms
        }),
{
}

/// After a tick that sends a mask, a later tick (before the heartbeat period has
/// passed since it) that shows the same mask without a colour swap sends nothing.
pub proof fn law_no_resend_within_heartbeat(
    v: ShiftLightView,
    r1: RatioReading,
    t1: nat,
    r2: RatioReading,
    t2: nat,
)
    requires
        tick_commands(v, r1, t1).len() > 0,
        t1 <= t2 < t1 + HEARTBEAT_MS,
        !mapper_step(tick_state(v, r1, t1).mapper, r2, t2).1.flash_changed,
        mapper_step(tick_state(v, r1, t1).mapper, r2, t2).1.mask == mapper_step(v.mapper, r1, t1).1.mask,
    ensures
        tick_commands(tick_state(v, r1, t1), r2, t2).len() == 0,
{
    law_send_record_follows_commands(v, r1, t1);
    let v2 = tick_state(v, r1, t1);
    assert(v2.led_count == v.led_count);
    law_unchanged_frame_sends_nothing(v2, r2, t2);
}

/// A status line is due once the status interval has passed since the last one,
/// and the tick that reports it starts the next interval.
pub proof fn law_status_once_per_interval(v: ShiftLightView, r: RatioReading, now_ms: nat)
    requires
        now_ms >= v.last_status_ms,
    ensures
        status_due(v, now_ms) <==> now_ms >= v.last_status_ms + STATUS_INTERVAL_MS,
        status_due(v, now_ms) ==> tick_state(v, r, now_ms).last_status_ms == now_ms,
        !status_due(v, now_ms) ==> tick_state(v, r, now_ms).last_status_ms == v.last_status_ms,
{
}

/// A tick changes nothing but the mapper and the send and status records: the
/// colour tables, LED count and latest sample stay as they were.
pub proof fn law_tick_keeps_configuration(v: ShiftLightView, r: RatioReading, now_ms: nat)
    ensures
        tick_state(v, r, now_ms).led_count == v.led_count,
        tick_state(v, r, now_ms).normal_colors == v.normal_colors,
        tick_state(v, r, now_ms).flash_colors == v.flash_colors,
        tick_state(v, r, now_ms).latest == v.latest,
        tick_state(v, r, now_ms).mapper == mapper_step(v.mapper, r, now_ms).0,
{
}

/// After every tick the last mask sent is the mask of that tick's frame.
pub proof fn law_wheel_shows_current_frame(v: ShiftLightView, r: RatioReading, now_ms: nat)
    ensures
        tick_state(v, r, now_ms).last_mask == Some(mapper_step(v.mapper, r, now_ms).1.mask),
{
}

/// Every mask a tick sends addresses the bar's configured LED count.
pub proof fn law_masks_address_led_count(v: ShiftLightView, r: RatioReading, now_ms: nat, k: int)
    requires
        0 <= k < tick_commands(v, r, now_ms).len(),
        tick_commands(v, r, now_ms)[k] is SetMask,
    ensures
        tick_commands(v, r, now_ms)[k]->1 == v.led_count,
{
}

/// A sample drives the LEDs for the idle timeout after it arrived, and no longer.
pub proof fn law_samples_expire(v: ShiftLightView, now_ms: nat)
    requires
        v.latest is Some,
        now_ms >= v.latest->0.received_ms,
    ensures
        spec_active_sample(v, now_ms) is Some <==> now_ms - v.latest->0.received_ms < IDLE_TIMEOUT_MS,
        spec_active_sample(v, now_ms) is Some ==> spec_active_sample(v, now_ms) == Some(
            v.latest->0.sample,
        ),
{
}

impl ShiftLight {
    /// A shift light for a `LED_COUNT`-LED bar with the given normal colour table,
    /// flashing in `flash_color` with blink half-period `flash_ms` (at least
    /// `MIN_FLASH_MS`), started at `now_ms`.
    pub fn new(normal_colors: Vec<Rgb>, flash_color: Rgb, flash_ms: u64, now_ms: u64) -> (light: Self)
        ensures
            light@.led_count == LED_COUNT,
            light@.mapper == (MapperView {
                led_count: LED_COUNT as nat,
                flash_period_ms: if flash_ms < MIN_FLASH_MS { MIN_FLASH_MS as nat } else { flash_ms as nat },
                flash_mode: false,
                flash_started_ms: now_ms as nat,
            }),
            light@.normal_colors == normal_colors@,
            light@.flash_colors == Seq::new(LED_COUNT as nat, |i: int| flash_color),
            light@.latest is None,
            light@.last_mask is None,
            light@.last_send_ms == now_ms,
            light@.last_status_ms == now_ms,
    {
        let period: u64 = if flash_ms < MIN_FLASH_MS { MIN_FLASH_MS } else { flash_ms };
        let mut flash_colors: Vec<Rgb> = Vec::new();
        for i in 0..LED_COUNT
            invariant
                flash_colors@ == Seq::new(i as nat, |j: int| flash_color),
        {
            flash_colors.push(flash_color);
            assert(flash_colors@ =~= Seq::new((i + 1) as nat, |j: int| flash_color));
        }
        ShiftLight {
            device: MozaLedDevice::open(LED_COUNT),
            mapper: BlueShiftMapper::new(LED_COUNT, period, now_ms),
            normal_colors,
            flash_colors,
            latest: None,
            last_mask: None,
            last_send_ms: now_ms,
            last_status_ms: now_ms,
        }
    }

    /// The blink half-period in milliseconds.
    pub fn flash_period_ms(&self) -> (period: u64)
        ensures
            period == self@.mapper.flash_period_ms,
    {
        self.mapper.flash_period_ms()
    }

    /// The commands that take over the wheel: telemetry mode, the normal colour
    /// table, all LEDs off.
    pub fn startup_commands(&self) -> (commands: Vec<LedCommand>)
        ensures
            commands_view(commands@) == seq![
                CommandView::EnableRpmTelemetry,
                CommandView::UploadColors(self@.normal_colors),
                CommandView::SetMask(0, self@.led_count),
            ],
    {
        self.device.initialize(self.normal_colors.as_slice())
    }

    /// Take in a datagram received at `now_ms`; an engine sample in it becomes the
    /// latest sample, anything else is ignored.
    pub fn on_datagram(&mut self, data: &[u8], now_ms: u64)
        ensures
            final(self)@ == (ShiftLightView {
                latest: match spec_sample_from_datagram(data@) {
                    Some(s) => Some(TimedSample { sample: s, received_ms: now_ms }),
                    None => old(self)@.latest,
                },
                ..old(self)@
            }),
    {
        if let Some(sample) = sample_from_datagram(data) {
            self.latest = Some(TimedSample { sample, received_ms: now_ms });
        }
    }

    /// The sample that drives the LEDs at `now_ms`, if any.
    pub fn active_sample(&self, now_ms: u64) -> (sample: Option<EngineSample>)
        ensures
            sample == spec_active_sample(self@, now_ms as nat),
    {
        match self.latest {
            Some(t) => {
                let elapsed: u64 = if now_ms >= t.received_ms { now_ms - t.received_ms } else { 0 };
                if elapsed < IDLE_TIMEOUT_MS {
                    Some(t.sample)
                } else {
                    None
                }
            },
            None => None,
        }
    }

    /// One tick at `now_ms` with the reading of the active sample.
    pub fn tick(&mut self, reading: RatioReading, now_ms: u64) -> (tick: Tick)
        ensures
            tick.output == mapper_step(old(self)@.mapper, reading, now_ms as nat).1,
            commands_view(tick.commands@) == tick_commands(old(self)@, reading, now_ms as nat),
            tick.report_status == status_due(old(self)@, now_ms as nat),
            final(self)@ == tick_state(old(self)@, reading, now_ms as nat),
    {
        let ghost v = self@;
        let output = self.mapper.update(reading, now_ms);
        let mut commands: Vec<LedCommand> = Vec::new();

        if output.flash_changed {
            // Turn everything off before changing the runtime colour table.
            commands.push(self.device.set_mask(0));
            if output.flash_mode {
                commands.push(self.device.set_colors(self.flash_colors.as_slice()));
            } else {
                commands.push(self.device.set_colors(self.normal_colors.as_slice()));
            }
            self.last_mask = None;
        }
        let since_send: u64 = if now_ms >= self.last_send_ms { now_ms - self.last_send_ms } else { 0 };
        let due = match self.last_mask {
            Some(m) => m != output.mask || since_send >= HEARTBEAT_MS,
            None => true,
        };
        if due {
            commands.push(self.device.set_mask(output.mask));
            self.last_mask = Some(output.mask);
            self.last_send_ms = now_ms;
        }

        let since_status: u64 = if now_ms >= self.last_status_ms {
            now_ms - self.last_status_ms
        } else {
            0
        };
        let report_status = since_status >= STATUS_INTERVAL_MS;
        if report_status {
            self.last_status_ms = now_ms;
        }
        assert(commands_view(commands@) =~= tick_commands(v, reading, now_ms as nat));
        Tick { commands, output, report_status }
    }
}

} // verus!
