//! Sample normalization: every supported raw encoding is mapped to an exact
//! rational amplitude `norm_num(fmt, raw) / fmt_den(fmt)`.

use vstd::prelude::*;

verus! {

/// The closed set of raw sample encodings the pipelines accept.
#[derive(Clone, Copy, PartialEq, Eq, Structural, Debug)]
pub enum SampleFormat {
    Signed16,
    Unsigned16,
    Signed24,
    Signed32,
}

/// Full-scale denominator of a format: a raw value `r` stands for the
/// amplitude `norm_num(fmt, r) / fmt_den(fmt)`.
pub open spec fn fmt_den(fmt: SampleFormat) -> int {
    match fmt {
        SampleFormat::Signed16 => 0x7FFF,
        SampleFormat::Unsigned16 => 0xFFFF,
        SampleFormat::Signed24 => 0x80_0000,
        SampleFormat::Signed32 => 0x7FFF_FFFF,
    }
}

/// The raw values a format can carry.
pub open spec fn raw_in_range(fmt: SampleFormat, raw: int) -> bool {
    match fmt {
        SampleFormat::Signed16 => -0x8000 <= raw <= 0x7FFF,
        SampleFormat::Unsigned16 => 0 <= raw <= 0xFFFF,
        SampleFormat::Signed24 => -0x80_0000 <= raw <= 0x7F_FFFF,
        SampleFormat::Signed32 => i32::MIN <= raw <= i32::MAX,
    }
}

/// Numerator of the normalized amplitude. Signed formats divide the raw
/// value by full scale; unsigned 16-bit is first divided by 65535 and then
/// rescaled by `x 2 - 1`, which is the rational `(2 raw - 65535) / 65535`.
pub open spec fn norm_num(fmt: SampleFormat, raw: int) -> int {
    match fmt {
        SampleFormat::Unsigned16 => 2 * raw - 0xFFFF,
        _ => raw,
    }
}

/// A block of normalized numerators over denominator `den`: every entry is
/// within two units of full scale (one unit covers the asymmetric minimum of
/// two's-complement formats, the second the downmixer's incomplete frames).
pub open spec fn wave_wf(s: Seq<i64>, den: int) -> bool {
    &&& 1 <= den <= 0xFFFF_FFFF
    &&& forall|i: int| 0 <= i < s.len() ==> -den - 2 <= #[trigger] s[i] <= den
}

/// A freshly normalized block: every numerator is within one unit of full
/// scale (the one unit covers the asymmetric minimum of two's-complement
/// formats). Implies `wave_wf`.
pub open spec fn norm_wf(s: Seq<i64>, den: int) -> bool {
    &&& 1 <= den <= 0x7FFF_FFFF
    &&& forall|i: int| 0 <= i < s.len() ==> -den - 1 <= #[trigger] s[i] <= den
}

/// The numerators of a whole raw block normalized in format `fmt`.
pub open spec fn norm_seq(fmt: SampleFormat, raw: Seq<i32>) -> Seq<i64> {
    raw.map_values(|v: i32| norm_num(fmt, v as int) as i64)
}

/// Full-scale denominator of `fmt`, as a run-time value.
pub fn den_of(fmt: SampleFormat) -> (d: u64)
    ensures
        d as int == fmt_den(fmt),
{
    match fmt {
        SampleFormat::Signed16 => 0x7FFF,
        SampleFormat::Unsigned16 => 0xFFFF,
        SampleFormat::Signed24 => 0x80_0000,
        SampleFormat::Signed32 => 0x7FFF_FFFF,
    }
}

/// Normalizes one raw sample to the numerator of its canonical amplitude.
pub fn normalize_sample(fmt: SampleFormat, raw: i32) -> (num: i64)
    requires
        raw_in_range(fmt, raw as int),
    ensures
        num as int == norm_num(fmt, raw as int),
{
    match fmt {
        SampleFormat::Unsigned16 => 2 * (raw as i64) - 0xFFFF,
        _ => raw as i64,
    }
}

/// Normalizes a whole block; the result is elementwise `norm_num` over the
/// input and satisfies the block bound for the format's denominator.
pub fn normalize_block(fmt: SampleFormat, raw: &Vec<i32>) -> (out: Vec<i64>)
    requires
        forall|i: int| 0 <= i < raw@.len() ==> raw_in_range(fmt, #[trigger] raw@[i] as int),
    ensures
        out@.len() == raw@.len(),
        forall|i: int| 0 <= i < raw@.len() ==> #[trigger] out@[i] as int == norm_num(fmt, raw@[i] as int),
        norm_wf(out@, fmt_den(fmt)),
        wave_wf(out@, fmt_den(fmt)),
{
    let mut out: Vec<i64> = Vec::new();
    let mut k: usize = 0;
    while k < raw.len()
        invariant
            k <= raw@.len(),
            out@.len() == k,
            forall|i: int| 0 <= i < raw@.len() ==> raw_in_range(fmt, #[trigger] raw@[i] as int),
            forall|i: int| 0 <= i < k ==> #[trigger] out@[i] as int == norm_num(fmt, raw@[i] as int),
            forall|i: int| 0 <= i < k ==> -fmt_den(fmt) - 1 <= #[trigger] out@[i] <= fmt_den(fmt),
        decreases raw@.len() - k,
    {
        let num = normalize_sample(fmt, raw[k]);
        out.push(num);
        k = k + 1;
    }
    out
}

/// Law: a normalized sample never exceeds full scale upward and undershoots
/// it by at most one least-significant step; away from the asymmetric
/// two's-complement minimum it lies exactly in `[-1.0, 1.0]` (as the
/// rational `norm_num / fmt_den`), and a raw zero maps to exactly zero for
/// the signed formats.
pub proof fn lemma_normalized_sample_bounds(fmt: SampleFormat, raw: int)
    requires
        raw_in_range(fmt, raw),
    ensures
        -fmt_den(fmt) - 1 <= norm_num(fmt, raw) <= fmt_den(fmt),
        !(fmt == SampleFormat::Signed16 && raw == -0x8000) && !(fmt == SampleFormat::Signed32
            && raw == i32::MIN) ==> -fmt_den(fmt) <= norm_num(fmt, raw) <= fmt_den(fmt),
        fmt != SampleFormat::Unsigned16 && raw == 0 ==> norm_num(fmt, raw) == 0,
{
}

} // verus!
