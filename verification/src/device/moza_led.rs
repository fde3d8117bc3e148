//! Semantic RPM-LED commands for a MOZA wheel.
//!
//! The device keeps callers independent of the concrete MOZA commands used to
//! enable telemetry mode, upload runtime colours, and drive the LED mask: each
//! method says which command to send, and the serial link sends it.
use vstd::prelude::*;
use crate::config::Rgb;

verus! {

/// One command for the wheel's RPM LEDs.
#[derive(Debug, PartialEq, Eq)]
pub enum LedCommand {
    /// Put the RPM LEDs under host (telemetry) control.
    EnableRpmTelemetry,
    /// Upload the temporary runtime RPM colour table.
    UploadColors(Vec<Rgb>),
    /// Light the LEDs of `mask` out of `led_count`.
    SetMask { mask: u32, led_count: usize },
}

/// A command as contracts see it.
pub enum CommandView {
    EnableRpmTelemetry,
    UploadColors(Seq<Rgb>),
    SetMask(u32, nat),
}

impl View for LedCommand {
    type V = CommandView;

    open spec fn view(&self) -> CommandView {
        match self {
            LedCommand::EnableRpmTelemetry => CommandView::EnableRpmTelemetry,
            LedCommand::UploadColors(colors) => CommandView::UploadColors(colors@),
            LedCommand::SetMask { mask, led_count } => CommandView::SetMask(*mask, *led_count as nat),
        }
    }
}

/// The views of a list of commands.
pub open spec fn commands_view(commands: Seq<LedCommand>) -> Seq<CommandView> {
    commands.map_values(|c: LedCommand| c@)
}

/// A copy of a colour table.
fn copy_colors(colors: &[Rgb]) -> (copy: Vec<Rgb>)
    ensures
        copy@ == colors@,
{
    let mut copy: Vec<Rgb> = Vec::new();
    for i in 0..colors.len()
        invariant
            copy@ == colors@.take(i as int),
    {
        copy.push(colors[i]);
        assert(colors@.take(i + 1) =~= colors@.take(i as int).push(colors@[i as int]));
    }
    assert(colors@.take(colors@.len() as int) =~= colors@);
    copy
}

/// RPM-LED facade of a MOZA wheel with a configured number of LEDs.
#[derive(Debug)]
pub struct MozaLedDevice {
    led_count: usize,
}

impl View for MozaLedDevice {
    /// The configured LED count.
    type V = nat;

    closed spec fn view(&self) -> nat {
        self.led_count as nat
    }
}

impl MozaLedDevice {
    /// The facade of a wheel whose RPM bar has `led_count` LEDs.
    pub fn open(led_count: usize) -> (device: Self)
        ensures
            device@ == led_count as nat,
    {
        MozaLedDevice { led_count }
    }

    /// Enable host-driven RPM LEDs, install the initial colour table, and start
    /// with all LEDs off: the commands, in the order to send them.
    pub fn initialize(&self, colors: &[Rgb]) -> (commands: Vec<LedCommand>)
        ensures
            commands_view(commands@) == seq![
                CommandView::EnableRpmTelemetry,
                CommandView::UploadColors(colors@),
                CommandView::SetMask(0, self@),
            ],
    {
        let mut commands: Vec<LedCommand> = Vec::new();
        commands.push(LedCommand::EnableRpmTelemetry);
        commands.push(self.set_colors(colors));
        commands.push(self.set_mask(0));
        assert(commands_view(commands@) =~= seq![
            CommandView::EnableRpmTelemetry,
            CommandView::UploadColors(colors@),
            CommandView::SetMask(0, self@),
        ]);
        commands
    }

    /// Upload the temporary runtime RPM colour table.
    pub fn set_colors(&self, colors: &[Rgb]) -> (command: LedCommand)
        ensures
            command@ == CommandView::UploadColors(colors@),
    {
        LedCommand::UploadColors(copy_colors(colors))
    }

    /// Set the logical LED mask using this device's configured LED count.
    pub fn set_mask(&self, mask: u32) -> (command: LedCommand)
        ensures
            command@ == CommandView::SetMask(mask, self@),
    {
        LedCommand::SetMask { mask, led_count: self.led_count }
    }
}

} // verus!
