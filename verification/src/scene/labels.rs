//! Diagnostic labels for GPU debug annotations.
use super::batch::PrimitiveBatch;
use super::plan::{range_len, FilterRenderTarget, RenderCommand};
use vstd::prelude::*;
use vstd::string::StringExecFns;

verus! {

/// The character of a decimal digit.
pub open spec fn digit_char(d: int) -> char {
    if d == 0 {
        '0'
    } else if d == 1 {
        '1'
    } else if d == 2 {
        '2'
    } else if d == 3 {
        '3'
    } else if d == 4 {
        '4'
    } else if d == 5 {
        '5'
    } else if d == 6 {
        '6'
    } else if d == 7 {
        '7'
    } else if d == 8 {
        '8'
    } else {
        '9'
    }
}

/// The decimal notation of `n`, without leading zeros.
pub open spec fn decimal(n: nat) -> Seq<char>
    decreases n,
{
    if n < 10 {
        seq![digit_char(n as int)]
    } else {
        decimal(n / 10) + seq![digit_char((n % 10) as int)]
    }
}

fn digit_str(d: usize) -> (r: &'static str)
    requires
        d < 10,
    ensures
        r@ == seq![digit_char(d as int)],
{
    proof {
        reveal_strlit("0");
        reveal_strlit("1");
        reveal_strlit("2");
        reveal_strlit("3");
        reveal_strlit("4");
        reveal_strlit("5");
        reveal_strlit("6");
        reveal_strlit("7");
        reveal_strlit("8");
        reveal_strlit("9");
    }
    if d == 0 {
        "0"
    } else if d == 1 {
        "1"
    } else if d == 2 {
        "2"
    } else if d == 3 {
        "3"
    } else if d == 4 {
        "4"
    } else if d == 5 {
        "5"
    } else if d == 6 {
        "6"
    } else if d == 7 {
        "7"
    } else if d == 8 {
        "8"
    } else {
        "9"
    }
}

/// Appends the decimal notation of `n`.
pub fn push_decimal(text: &mut String, n: usize)
    ensures
        final(text)@ == old(text)@ + decimal(n as nat),
    decreases n,
{
    if n >= 10 {
        push_decimal(text, n / 10);
    }
    text.append(digit_str(n % 10));
    proof {
        if n < 10 {
            assert(n % 10 == n);
        }
    }
}

/// The label of a batch: its kind, how many primitives it draws, and its atlas texture.
pub open spec fn batch_label(batch: PrimitiveBatch) -> Seq<char> {
    match batch {
        PrimitiveBatch::Shadows { range, smoothed } => (if smoothed {
            "smoothed "@
        } else {
            ""@
        }) + "shadows ("@ + decimal(range_len(range) as nat) + ")"@,
        PrimitiveBatch::Quads { range, smoothed } => (if smoothed {
            "smoothed "@
        } else {
            ""@
        }) + "quads ("@ + decimal(range_len(range) as nat) + ")"@,
        PrimitiveBatch::Paths { range, .. } => "paths ("@ + decimal(range_len(range) as nat) + ")"@,
        PrimitiveBatch::Underlines(range) => "underlines ("@ + decimal(range_len(range) as nat)
            + ")"@,
        PrimitiveBatch::MonochromeSprites { texture_id, range } => "monochrome sprites ("@
            + decimal(range_len(range) as nat) + ") on atlas "@ + decimal(texture_id.index as nat),
        PrimitiveBatch::SubpixelSprites { texture_id, range } => "subpixel sprites ("@ + decimal(
            range_len(range) as nat,
        ) + ") on atlas "@ + decimal(texture_id.index as nat),
        PrimitiveBatch::PolychromeSprites { texture_id, range, smoothed } => (if smoothed {
            "smoothed "@
        } else {
            ""@
        }) + "polychrome sprites ("@ + decimal(range_len(range) as nat) + ") on atlas "@
            + decimal(texture_id.index as nat),
        PrimitiveBatch::Surfaces(range) => "surfaces ("@ + decimal(range_len(range) as nat) + ")"@,
        PrimitiveBatch::BackdropFilters(range) => "backdrop filters ("@ + decimal(
            range_len(range) as nat,
        ) + ")"@,
        PrimitiveBatch::FilterBoundary(index) => "filter boundary ("@ + decimal(index as nat)
            + ")"@,
    }
}

/// The label of a command: its batch's label, or which filter group it begins or ends.
pub open spec fn command_label(command: RenderCommand) -> Seq<char> {
    match command {
        RenderCommand::Batch(batch) => batch_label(batch),
        RenderCommand::BeginFilter { target, .. } => match target {
            FilterRenderTarget::Isolated(index) => "begin filter group ("@ + decimal(index.0 as nat)
                + ")"@,
            FilterRenderTarget::Inline => "begin inline filter group"@,
        },
        RenderCommand::EndFilter { target, .. } => match target {
            FilterRenderTarget::Isolated(index) => "end filter group ("@ + decimal(index.0 as nat)
                + ")"@,
            FilterRenderTarget::Inline => "end inline filter group"@,
        },
    }
}

fn range_count(range: &core::ops::Range<usize>) -> (r: usize)
    ensures
        r == range_len(*range),
{
    if range.start < range.end {
        range.end - range.start
    } else {
        0
    }
}

fn counted(prefix: &str, count: usize, suffix: &str) -> (r: String)
    ensures
        r@ == prefix@ + decimal(count as nat) + suffix@,
{
    let mut text = String::from_str(prefix);
    push_decimal(&mut text, count);
    text.append(suffix);
    text
}

fn smoothing_prefix(smoothed: bool) -> (r: String)
    ensures
        r@ == if smoothed {
            "smoothed "@
        } else {
            ""@
        },
{
    if smoothed {
        String::from_str("smoothed ")
    } else {
        String::from_str("")
    }
}

impl PrimitiveBatch {
    /// A diagnostic label suitable for GPU debug annotations.
    pub fn label(&self) -> (r: String)
        ensures
            r@ == batch_label(*self),
    {
        match self {
            PrimitiveBatch::Shadows { range, smoothed } => {
                let mut text = smoothing_prefix(*smoothed);
                text.append(counted("shadows (", range_count(range), ")").as_str());
                text
            },
            PrimitiveBatch::Quads { range, smoothed } => {
                let mut text = smoothing_prefix(*smoothed);
                text.append(counted("quads (", range_count(range), ")").as_str());
                text
            },
            PrimitiveBatch::Paths { range, .. } => counted("paths (", range_count(range), ")"),
            PrimitiveBatch::Underlines(range) => counted("underlines (", range_count(range), ")"),
            PrimitiveBatch::MonochromeSprites { texture_id, range } => {
                let mut text = counted("monochrome sprites (", range_count(range), ") on atlas ");
                push_decimal(&mut text, texture_id.index as usize);
                text
            },
            PrimitiveBatch::SubpixelSprites { texture_id, range } => {
                let mut text = counted("subpixel sprites (", range_count(range), ") on atlas ");
                push_decimal(&mut text, texture_id.index as usize);
                text
            },
            PrimitiveBatch::PolychromeSprites { texture_id, range, smoothed } => {
                let mut text = smoothing_prefix(*smoothed);
                text.append(
                    counted("polychrome sprites (", range_count(range), ") on atlas ").as_str(),
                );
                push_decimal(&mut text, texture_id.index as usize);
                text
            },
            PrimitiveBatch::Surfaces(range) => counted("surfaces (", range_count(range), ")"),
            PrimitiveBatch::BackdropFilters(range) => counted(
                "backdrop filters (",
                range_count(range),
                ")",
            ),
            PrimitiveBatch::FilterBoundary(index) => counted("filter boundary (", *index, ")"),
        }
    }
}

impl RenderCommand {
    /// A diagnostic label suitable for GPU debug annotations.
    pub fn label(&self) -> (r: String)
        ensures
            r@ == command_label(*self),
    {
        match self {
            RenderCommand::Batch(batch) => batch.label(),
            RenderCommand::BeginFilter { target, .. } => match target {
                FilterRenderTarget::Isolated(index) => counted(
                    "begin filter group (",
                    index.as_usize(),
                    ")",
                ),
                FilterRenderTarget::Inline => String::from_str("begin inline filter group"),
            },
            RenderCommand::EndFilter { target, .. } => match target {
                FilterRenderTarget::Isolated(index) => counted(
                    "end filter group (",
                    index.as_usize(),
                    ")",
                ),
                FilterRenderTarget::Inline => String::from_str("end inline filter group"),
            },
        }
    }
}

} // verus!
