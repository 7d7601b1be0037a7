//! Display option enums of the image viewer: colormap, contrast mode and
//! intensity scale, with their user-visible labels.

use vstd::prelude::*;

verus! {

/// Colormap for image display.
#[derive(Debug, Clone, Copy, PartialEq, Eq, Structural, Default)]
pub enum Colormap {
    #[default]
    Grayscale,
    Viridis,
    Inferno,
    Plasma,
    Magma,
}

/// Label of a colormap.
pub open spec fn colormap_label(c: Colormap) -> Seq<char> {
    match c {
        Colormap::Grayscale => "Grayscale"@,
        Colormap::Viridis => "Viridis"@,
        Colormap::Inferno => "Inferno"@,
        Colormap::Plasma => "Plasma"@,
        Colormap::Magma => "Magma"@,
    }
}

impl Colormap {
    pub fn label(self) -> (s: &'static str)
        ensures
            s@ == colormap_label(self),
    {
        match self {
            Colormap::Grayscale => "Grayscale",
            Colormap::Viridis => "Viridis",
            Colormap::Inferno => "Inferno",
            Colormap::Plasma => "Plasma",
            Colormap::Magma => "Magma",
        }
    }
}

/// Contrast enhancement mode.
#[derive(Debug, Clone, Copy, PartialEq, Eq, Structural, Default)]
pub enum ContrastMode {
    /// Manual min/max control
    #[default]
    Manual,
    /// Simple min/max from all pixels
    AutoSimple,
    /// Percentile-based (ignores outliers)
    AutoPercentile,
    /// Histogram equalization
    HistogramEq,
    /// Contrast-limited histogram equalization
    Clahe,
}

/// Label of a contrast mode.
pub open spec fn contrast_mode_label(m: ContrastMode) -> Seq<char> {
    match m {
        ContrastMode::Manual => "Manual"@,
        ContrastMode::AutoSimple => "Auto (Simple)"@,
        ContrastMode::AutoPercentile => "Auto (Percentile)"@,
        ContrastMode::HistogramEq => "Histogram Eq"@,
        ContrastMode::Clahe => "CLAHE"@,
    }
}

impl ContrastMode {
    pub fn label(self) -> (s: &'static str)
        ensures
            s@ == contrast_mode_label(self),
    {
        match self {
            ContrastMode::Manual => "Manual",
            ContrastMode::AutoSimple => "Auto (Simple)",
            ContrastMode::AutoPercentile => "Auto (Percentile)",
            ContrastMode::HistogramEq => "Histogram Eq",
            ContrastMode::Clahe => "CLAHE",
        }
    }

    /// Every contrast mode, in menu order.
    pub fn all() -> (v: &'static [ContrastMode])
        ensures
            v@ == seq![
                ContrastMode::Manual,
                ContrastMode::AutoSimple,
                ContrastMode::AutoPercentile,
                ContrastMode::HistogramEq,
                ContrastMode::Clahe,
            ],
    {
        &[
            ContrastMode::Manual,
            ContrastMode::AutoSimple,
            ContrastMode::AutoPercentile,
            ContrastMode::HistogramEq,
            ContrastMode::Clahe,
        ]
    }
}

/// Scale mode for pixel intensity mapping.
#[derive(Debug, Clone, Copy, PartialEq, Eq, Structural, Default)]
pub enum ScaleMode {
    #[default]
    Linear,
    Log,
    Sqrt,
}

/// Label of a scale mode.
pub open spec fn scale_mode_label(m: ScaleMode) -> Seq<char> {
    match m {
        ScaleMode::Linear => "Linear"@,
        ScaleMode::Log => "Log"@,
        ScaleMode::Sqrt => "Sqrt"@,
    }
}

impl ScaleMode {
    pub fn label(self) -> (s: &'static str)
        ensures
            s@ == scale_mode_label(self),
    {
        match self {
            ScaleMode::Linear => "Linear",
            ScaleMode::Log => "Log",
            ScaleMode::Sqrt => "Sqrt",
        }
    }
}

} // verus!
