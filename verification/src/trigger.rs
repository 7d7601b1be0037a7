//! Trigger, clock and synchronisation settings of the DAQ trigger panel, and
//! how a start trigger is expressed in a trigger configuration request.

use vstd::prelude::*;

verus! {

/// Trigger source options.
#[derive(Debug, Clone, Copy, PartialEq, Eq, Structural, Default)]
pub enum TriggerSource {
    #[default]
    Software,
    /// External trigger on a PFI line
    PFI0,
    PFI1,
    PFI2,
    PFI3,
    /// RTSI bus trigger
    RTSI0,
    RTSI1,
    /// Internal timer
    InternalClock,
    /// Analog trigger (threshold crossing)
    AnalogTrigger,
}

pub open spec fn trigger_source_label(s: TriggerSource) -> Seq<char> {
    match s {
        TriggerSource::Software => "Software"@,
        TriggerSource::PFI0 => "PFI0"@,
        TriggerSource::PFI1 => "PFI1"@,
        TriggerSource::PFI2 => "PFI2"@,
        TriggerSource::PFI3 => "PFI3"@,
        TriggerSource::RTSI0 => "RTSI0"@,
        TriggerSource::RTSI1 => "RTSI1"@,
        TriggerSource::InternalClock => "Internal Clock"@,
        TriggerSource::AnalogTrigger => "Analog Trigger"@,
    }
}

impl TriggerSource {
    pub fn label(self) -> (s: &'static str)
        ensures
            s@ == trigger_source_label(self),
    {
        match self {
            TriggerSource::Software => "Software",
            TriggerSource::PFI0 => "PFI0",
            TriggerSource::PFI1 => "PFI1",
            TriggerSource::PFI2 => "PFI2",
            TriggerSource::PFI3 => "PFI3",
            TriggerSource::RTSI0 => "RTSI0",
            TriggerSource::RTSI1 => "RTSI1",
            TriggerSource::InternalClock => "Internal Clock",
            TriggerSource::AnalogTrigger => "Analog Trigger",
        }
    }

    /// Every trigger source, in menu order.
    pub fn all() -> (v: &'static [TriggerSource])
        ensures
            v@ == seq![
                TriggerSource::Software,
                TriggerSource::PFI0,
                TriggerSource::PFI1,
                TriggerSource::PFI2,
                TriggerSource::PFI3,
                TriggerSource::RTSI0,
                TriggerSource::RTSI1,
                TriggerSource::InternalClock,
                TriggerSource::AnalogTrigger,
            ],
    {
        &[
            TriggerSource::Software,
            TriggerSource::PFI0,
            TriggerSource::PFI1,
            TriggerSource::PFI2,
            TriggerSource::PFI3,
            TriggerSource::RTSI0,
            TriggerSource::RTSI1,
            TriggerSource::InternalClock,
            TriggerSource::AnalogTrigger,
        ]
    }
}

/// Trigger edge polarity.
#[derive(Debug, Clone, Copy, PartialEq, Eq, Structural, Default)]
pub enum TriggerPolarity {
    #[default]
    Rising,
    Falling,
    Either,
}

pub open spec fn trigger_polarity_label(p: TriggerPolarity) -> Seq<char> {
    match p {
        TriggerPolarity::Rising => "Rising Edge"@,
        TriggerPolarity::Falling => "Falling Edge"@,
        TriggerPolarity::Either => "Either Edge"@,
    }
}

impl TriggerPolarity {
    pub fn label(self) -> (s: &'static str)
        ensures
            s@ == trigger_polarity_label(self),
    {
        match self {
            TriggerPolarity::Rising => "Rising Edge",
            TriggerPolarity::Falling => "Falling Edge",
            TriggerPolarity::Either => "Either Edge",
        }
    }

    /// Every polarity, in menu order.
    pub fn all() -> (v: &'static [TriggerPolarity])
        ensures
            v@ == seq![TriggerPolarity::Rising, TriggerPolarity::Falling, TriggerPolarity::Either],
    {
        &[TriggerPolarity::Rising, TriggerPolarity::Falling, TriggerPolarity::Either]
    }
}

/// Clock source for timed acquisition.
#[derive(Debug, Clone, Copy, PartialEq, Eq, Structural, Default)]
pub enum ClockSource {
    #[default]
    Internal20MHz,
    Internal100kHz,
    ExternalPFI0,
    ExternalRTSI0,
}

pub open spec fn clock_source_label(c: ClockSource) -> Seq<char> {
    match c {
        ClockSource::Internal20MHz => "Internal 20MHz"@,
        ClockSource::Internal100kHz => "Internal 100kHz"@,
        ClockSource::ExternalPFI0 => "External (PFI0)"@,
        ClockSource::ExternalRTSI0 => "External (RTSI0)"@,
    }
}

impl ClockSource {
    pub fn label(self) -> (s: &'static str)
        ensures
            s@ == clock_source_label(self),
    {
        match self {
            ClockSource::Internal20MHz => "Internal 20MHz",
            ClockSource::Internal100kHz => "Internal 100kHz",
            ClockSource::ExternalPFI0 => "External (PFI0)",
            ClockSource::ExternalRTSI0 => "External (RTSI0)",
        }
    }

    /// Every clock source, in menu order.
    pub fn all() -> (v: &'static [ClockSource])
        ensures
            v@ == seq![
                ClockSource::Internal20MHz,
                ClockSource::Internal100kHz,
                ClockSource::ExternalPFI0,
                ClockSource::ExternalRTSI0,
            ],
    {
        &[
            ClockSource::Internal20MHz,
            ClockSource::Internal100kHz,
            ClockSource::ExternalPFI0,
            ClockSource::ExternalRTSI0,
        ]
    }
}

/// Tab selection of the trigger panel.
#[derive(Debug, Clone, Copy, PartialEq, Eq, Structural, Default)]
pub enum TriggerTab {
    #[default]
    AnalogInput,
    AnalogOutput,
    Counter,
    Timing,
}

pub open spec fn trigger_tab_label(t: TriggerTab) -> Seq<char> {
    match t {
        TriggerTab::AnalogInput => "Analog Input"@,
        TriggerTab::AnalogOutput => "Analog Output"@,
        TriggerTab::Counter => "Counter"@,
        TriggerTab::Timing => "Timing/Sync"@,
    }
}

impl TriggerTab {
    pub fn label(self) -> (s: &'static str)
        ensures
            s@ == trigger_tab_label(self),
    {
        match self {
            TriggerTab::AnalogInput => "Analog Input",
            TriggerTab::AnalogOutput => "Analog Output",
            TriggerTab::Counter => "Counter",
            TriggerTab::Timing => "Timing/Sync",
        }
    }

    /// Every tab, in display order.
    pub fn all() -> (v: &'static [TriggerTab])
        ensures
            v@ == seq![TriggerTab::AnalogInput, TriggerTab::AnalogOutput, TriggerTab::Counter, TriggerTab::Timing],
    {
        &[TriggerTab::AnalogInput, TriggerTab::AnalogOutput, TriggerTab::Counter, TriggerTab::Timing]
    }
}

/// Multi-device synchronisation mode.
#[derive(Debug, Clone, Copy, PartialEq, Eq, Structural, Default)]
pub enum SyncMode {
    #[default]
    Standalone,
    Master,
    Slave,
}

pub open spec fn sync_mode_label(m: SyncMode) -> Seq<char> {
    match m {
        SyncMode::Standalone => "Standalone"@,
        SyncMode::Master => "Master"@,
        SyncMode::Slave => "Slave"@,
    }
}

impl SyncMode {
    pub fn label(self) -> (s: &'static str)
        ensures
            s@ == sync_mode_label(self),
    {
        match self {
            SyncMode::Standalone => "Standalone",
            SyncMode::Master => "Master",
            SyncMode::Slave => "Slave",
        }
    }

    /// Every synchronisation mode, in menu order.
    pub fn all() -> (v: &'static [SyncMode])
        ensures
            v@ == seq![SyncMode::Standalone, SyncMode::Master, SyncMode::Slave],
    {
        &[SyncMode::Standalone, SyncMode::Master, SyncMode::Slave]
    }
}

/// Trigger source kind of a trigger configuration request.
#[derive(Debug, Clone, Copy, PartialEq, Eq, Structural)]
pub enum RequestTriggerSource {
    Software,
    External,
    Analog,
}

/// Trigger edge of a trigger configuration request.
#[derive(Debug, Clone, Copy, PartialEq, Eq, Structural)]
pub enum RequestTriggerEdge {
    Rising,
    Falling,
    Either,
}

/// The start-trigger part of a trigger configuration request.
#[derive(Debug, Clone, Copy, PartialEq, Eq, Structural)]
pub struct TriggerRequestFields {
    pub source: RequestTriggerSource,
    pub edge: RequestTriggerEdge,
    pub pfi_pin: u32,
    pub retriggerable: bool,
}

/// Request source kind of a panel trigger source: software and the internal
/// clock start in software, PFI and RTSI lines are external, the analog
/// trigger is analog.
pub open spec fn request_source_of(s: TriggerSource) -> RequestTriggerSource {
    match s {
        TriggerSource::Software | TriggerSource::InternalClock => RequestTriggerSource::Software,
        TriggerSource::AnalogTrigger => RequestTriggerSource::Analog,
        _ => RequestTriggerSource::External,
    }
}

/// PFI pin number of a panel trigger source (0 for sources that are not PFI lines).
pub open spec fn pfi_pin_of(s: TriggerSource) -> u32 {
    match s {
        TriggerSource::PFI1 => 1,
        TriggerSource::PFI2 => 2,
        TriggerSource::PFI3 => 3,
        _ => 0,
    }
}

/// The request's PFI pin is the line the user picked: for a source whose
/// label reads `PFI` and a digit, the pin is that digit; every other source
/// gives pin 0. So distinct PFI lines give distinct pins, and a PFI line is
/// always an external trigger.
pub proof fn law_pfi_pin_matches_line(s: TriggerSource, t: TriggerSource)
    ensures
        trigger_source_label(s).len() == 4 && trigger_source_label(s).take(3) == "PFI"@ ==> {
            &&& pfi_pin_of(s) as int == trigger_source_label(s)[3] as int - '0' as int
            &&& request_source_of(s) == RequestTriggerSource::External
        },
        !(trigger_source_label(s).len() == 4 && trigger_source_label(s).take(3) == "PFI"@) ==> pfi_pin_of(s) == 0,
        trigger_source_label(s).take(3) == "PFI"@ && trigger_source_label(t).take(3) == "PFI"@ && pfi_pin_of(s)
            == pfi_pin_of(t) ==> s == t,
{
    reveal_strlit("PFI");
    reveal_strlit("PFI0");
    reveal_strlit("PFI1");
    reveal_strlit("PFI2");
    reveal_strlit("PFI3");
    reveal_strlit("Software");
    reveal_strlit("RTSI0");
    reveal_strlit("RTSI1");
    reveal_strlit("Internal Clock");
    reveal_strlit("Analog Trigger");
    assert("Software"@.take(3) != "PFI"@) by {
        assert("Software"@.take(3)[0] != "PFI"@[0]);
    }
    assert("RTSI0"@.take(3) != "PFI"@) by {
        assert("RTSI0"@.take(3)[0] != "PFI"@[0]);
    }
    assert("RTSI1"@.take(3) != "PFI"@) by {
        assert("RTSI1"@.take(3)[0] != "PFI"@[0]);
    }
    assert("Internal Clock"@.take(3) != "PFI"@) by {
        assert("Internal Clock"@.take(3)[0] != "PFI"@[0]);
    }
    assert("Analog Trigger"@.take(3) != "PFI"@) by {
        assert("Analog Trigger"@.take(3)[0] != "PFI"@[0]);
    }
    assert("PFI0"@.take(3) =~= "PFI"@);
    assert("PFI1"@.take(3) =~= "PFI"@);
    assert("PFI2"@.take(3) =~= "PFI"@);
    assert("PFI3"@.take(3) =~= "PFI"@);
}

/// Builds the start-trigger fields of the configuration request from the
/// analog-input start source, polarity and re-trigger setting.
pub fn trigger_request_fields(
    start_source: TriggerSource,
    start_polarity: TriggerPolarity,
    retrigger: bool,
) -> (f: TriggerRequestFields)
    ensures
        f.source == request_source_of(start_source),
        f.edge == (match start_polarity {
            TriggerPolarity::Rising => RequestTriggerEdge::Rising,
            TriggerPolarity::Falling => RequestTriggerEdge::Falling,
            TriggerPolarity::Either => RequestTriggerEdge::Either,
        }),
        f.pfi_pin == pfi_pin_of(start_source),
        f.retriggerable == retrigger,
{
    let source = match start_source {
        TriggerSource::Software | TriggerSource::InternalClock => RequestTriggerSource::Software,
        TriggerSource::PFI0
        | TriggerSource::PFI1
        | TriggerSource::PFI2
        | TriggerSource::PFI3
        | TriggerSource::RTSI0
        | TriggerSource::RTSI1 => RequestTriggerSource::External,
        TriggerSource::AnalogTrigger => RequestTriggerSource::Analog,
    };
    let edge = match start_polarity {
        TriggerPolarity::Rising => RequestTriggerEdge::Rising,
        TriggerPolarity::Falling => RequestTriggerEdge::Falling,
        TriggerPolarity::Either => RequestTriggerEdge::Either,
    };
    let pfi_pin: u32 = match start_source {
        TriggerSource::PFI0 => 0,
        TriggerSource::PFI1 => 1,
        TriggerSource::PFI2 => 2,
        TriggerSource::PFI3 => 3,
        _ => 0,
    };
    TriggerRequestFields { source, edge, pfi_pin, retriggerable: retrigger }
}

} // verus!
