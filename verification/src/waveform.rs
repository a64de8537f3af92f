//! The waveform of a mono stream of signed 16-bit little-endian samples: the loudest sample in
//! each of a fixed number of bins.

use vstd::prelude::*;

use crate::args::{add_words, words};
use crate::error::{failure, AppError, Failure};
use crate::number::decimal;

verus! {

/// How many bins a waveform has.
pub const WAVEFORM_BINS: usize = 240;

/// How many samples of the decoded stream make up one second.
pub const SAMPLE_RATE: u32 = 8000;

/// The FFmpeg arguments that decode the audio of a video to such a stream, at the sample rate, on
/// standard output.
pub open spec fn waveform_query(path: Seq<char>) -> Seq<Seq<char>> {
    seq![
        "-i"@,
        path,
        "-vn"@,
        "-ac"@,
        "1"@,
        "-ar"@,
        "8000"@,
        "-f"@,
        "s16le"@,
        "pipe:1"@,
    ]
}

/// Makes the FFmpeg arguments that decode the audio of the video at `path`.
pub fn waveform_args(path: &str) -> (args: Vec<String>)
    ensures
        words(args@) == waveform_query(path@),
{
    let mut args: Vec<String> = Vec::new();
    let list: [&str; 10] = [
        "-i",
        path,
        "-vn",
        "-ac",
        "1",
        "-ar",
        "8000",
        "-f",
        "s16le",
        "pipe:1",
    ];
    add_words(&mut args, list.as_slice());
    assert(words(args@) =~= waveform_query(path@));
    args
}

/// How many whole samples the bytes hold.
pub open spec fn sample_count(bytes: Seq<u8>) -> int {
    bytes.len() as int / 2
}

/// The `k`-th sample.
pub open spec fn sample(bytes: Seq<u8>, k: int) -> int {
    let raw = bytes[2 * k] + 0x100 * bytes[2 * k + 1];
    if raw >= 0x8000 {
        raw - 0x1_0000
    } else {
        raw
    }
}

/// How loud the `k`-th sample is.
pub open spec fn magnitude(bytes: Seq<u8>, k: int) -> int {
    if sample(bytes, k) < 0 {
        -sample(bytes, k)
    } else {
        sample(bytes, k)
    }
}

/// The loudest of the samples from `from` up to `to`, and 0 when there are none.
pub open spec fn peak(bytes: Seq<u8>, from: int, to: int) -> int
    decreases to - from,
{
    if to <= from {
        0
    } else {
        let before = peak(bytes, from, to - 1);
        if magnitude(bytes, to - 1) > before {
            magnitude(bytes, to - 1)
        } else {
            before
        }
    }
}

/// The smaller of two numbers.
pub open spec fn at_most(x: int, limit: int) -> int {
    if x < limit {
        x
    } else {
        limit
    }
}

/// The loudest sample in bin `k`: bins take `per_bin` samples each, the last one that has any
/// takes what is left, and a bin behind the end of the stream is silent.
pub open spec fn bin_peak(bytes: Seq<u8>, per_bin: int, k: int) -> int {
    peak(bytes, k * per_bin, at_most((k + 1) * per_bin, sample_count(bytes)))
}

/// How many samples go into a bin when the stream has about `total_samples` of them.
pub open spec fn bin_width(total_samples: int) -> int {
    if total_samples / WAVEFORM_BINS as int >= 1 {
        total_samples / WAVEFORM_BINS as int
    } else {
        1
    }
}

/// Computes how many samples go into a bin.
pub fn samples_per_bin(total_samples: usize) -> (per_bin: usize)
    ensures
        per_bin == bin_width(total_samples as int),
{
    let even: usize = total_samples / WAVEFORM_BINS;
    if even >= 1 {
        even
    } else {
        1
    }
}

/// Samples that come later do not change a peak.
proof fn lemma_peak_of_longer(bytes: Seq<u8>, longer: Seq<u8>, from: int, to: int)
    requires
        0 <= from,
        2 * to <= bytes.len(),
        bytes.is_prefix_of(longer),
    ensures
        peak(bytes, from, to) == peak(longer, from, to),
    decreases to - from,
{
    if from < to {
        lemma_peak_of_longer(bytes, longer, from, to - 1);
    }
}

/// A peak is at least as loud as every sample it stands for, and as loud as one of them.
pub proof fn law_peak_is_the_loudest(bytes: Seq<u8>, from: int, to: int)
    ensures
        forall|k: int| from <= k < to ==> #[trigger] magnitude(bytes, k) <= peak(bytes, from, to),
        peak(bytes, from, to) == 0 || exists|k: int|
            from <= k < to && #[trigger] magnitude(bytes, k) == peak(bytes, from, to),
    decreases to - from,
{
    if from < to {
        law_peak_is_the_loudest(bytes, from, to - 1);
    }
}

/// Every sample counts, up to the end of the last bin: the bin that it falls into is at least as
/// loud.
pub proof fn law_every_sample_counts(bytes: Seq<u8>, per_bin: int, k: int)
    requires
        per_bin >= 1,
        0 <= k < sample_count(bytes),
        k < WAVEFORM_BINS * per_bin,
    ensures
        0 <= k / per_bin < WAVEFORM_BINS,
        magnitude(bytes, k) <= bin_peak(bytes, per_bin, k / per_bin),
{
    let bin = k / per_bin;
    assert(0 <= bin < WAVEFORM_BINS && bin * per_bin <= k < (bin + 1) * per_bin) by (nonlinear_arith)
        requires
            per_bin >= 1,
            0 <= k < WAVEFORM_BINS * per_bin,
            bin == k / per_bin,
    ;
    law_peak_is_the_loudest(bytes, bin * per_bin, at_most((bin + 1) * per_bin, sample_count(bytes)));
}

/// What came of reading from the stream.
#[derive(Debug)]
pub enum StreamRead {
    /// The next bytes; none at the end of the stream.
    Data(Vec<u8>),
    /// The stream could not be read.
    Failed { cause: String },
}

/// Collects a waveform from a stream that arrives in chunks of any size.
pub struct WaveformBuilder {
    per_bin: usize,
    peaks: Vec<u16>,
    current_peak: u16,
    samples_in_bin: usize,
    leftover: Option<u8>,
    heard: Ghost<Seq<u8>>,
}

impl View for WaveformBuilder {
    type V = Seq<u8>;

    /// All bytes that have been fed in.
    closed spec fn view(&self) -> Seq<u8> {
        self.heard@
    }
}

impl WaveformBuilder {
    /// How many samples go into a bin.
    pub closed spec fn width(&self) -> int {
        self.per_bin as int
    }

    /// The state agrees with the bytes that have been fed in.
    pub closed spec fn wf(&self) -> bool {
        let bytes = self.heard@;
        let done = self.peaks@.len() as int;
        &&& self.per_bin >= 1
        &&& done <= WAVEFORM_BINS
        &&& done * self.per_bin <= sample_count(bytes)
        &&& forall|k: int|
            0 <= k < done ==> #[trigger] self.peaks@[k] == peak(
                bytes,
                k * self.per_bin,
                (k + 1) * self.per_bin,
            )
        &&& done < WAVEFORM_BINS ==> {
            &&& self.samples_in_bin < self.per_bin
            &&& done * self.per_bin + self.samples_in_bin == sample_count(bytes)
            &&& self.current_peak == peak(bytes, done * self.per_bin, sample_count(bytes))
        }
        &&& self.leftover == if bytes.len() % 2 == 0 {
            None
        } else {
            Some(bytes.last())
        }
    }

    /// Starts a waveform whose bins take `per_bin` samples each.
    pub fn new(per_bin: usize) -> (builder: WaveformBuilder)
        requires
            per_bin >= 1,
        ensures
            builder.wf(),
            builder.width() == per_bin,
            builder@ == Seq::<u8>::empty(),
    {
        WaveformBuilder {
            per_bin,
            peaks: Vec::new(),
            current_peak: 0,
            samples_in_bin: 0,
            leftover: None,
            heard: Ghost(Seq::empty()),
        }
    }

    /// Takes in one byte.
    fn feed_byte(&mut self, byte: u8)
        requires
            old(self).wf(),
        ensures
            final(self).wf(),
            final(self).width() == old(self).width(),
            final(self)@ == old(self)@.push(byte),
    {
        let ghost before = self.heard@;
        let ghost bytes = before.push(byte);
        let ghost done = self.peaks@.len() as int;
        proof {
            self.heard@ = bytes;
            assert(before.is_prefix_of(bytes));
            assert forall|k: int| 0 <= k < done implies #[trigger] self.peaks@[k] == peak(
                bytes,
                k * self.per_bin,
                (k + 1) * self.per_bin,
            ) by {
                assert(0 <= k * self.per_bin && (k + 1) * self.per_bin <= done * self.per_bin)
                    by (nonlinear_arith)
                    requires
                        0 <= k < done,
                        self.per_bin >= 1,
                ;
                lemma_peak_of_longer(before, bytes, k * self.per_bin, (k + 1) * self.per_bin);
            }
            assert(0 <= done * self.per_bin) by (nonlinear_arith)
                requires
                    done >= 0,
                    self.per_bin >= 1,
            ;
            lemma_peak_of_longer(before, bytes, done * self.per_bin, sample_count(before));
        }
        match self.leftover {
            None => {
                self.leftover = Some(byte);
            },
            Some(low) => {
                self.leftover = None;
                let raw: u32 = low as u32 + 0x100 * byte as u32;
                let loud: u16 = if raw >= 0x8000 {
                    (0x1_0000 - raw) as u16
                } else {
                    raw as u16
                };
                let ghost at = sample_count(before);
                assert(sample_count(bytes) == at + 1);
                assert(bytes[2 * at] == low && bytes[2 * at + 1] == byte);
                assert(loud == magnitude(bytes, at));
                if self.peaks.len() < WAVEFORM_BINS {
                    if loud > self.current_peak {
                        self.current_peak = loud;
                    }
                    self.samples_in_bin = self.samples_in_bin + 1;
                    assert(self.current_peak == peak(bytes, done * self.per_bin, at + 1));
                    if self.samples_in_bin >= self.per_bin {
                        self.peaks.push(self.current_peak);
                        self.current_peak = 0;
                        self.samples_in_bin = 0;
                        assert((done + 1) * self.per_bin == done * self.per_bin + self.per_bin)
                            by (nonlinear_arith);
                    }
                }
            },
        }
    }

    /// Takes in the next chunk of the stream.
    pub fn feed(&mut self, chunk: &[u8])
        requires
            old(self).wf(),
        ensures
            final(self).wf(),
            final(self).width() == old(self).width(),
            final(self)@ == old(self)@ + chunk@,
    {
        let n: usize = chunk.len();
        let ghost start = self@;
        for i in 0..n
            invariant
                n == chunk@.len(),
                self.wf(),
                self.width() == old(self).width(),
                self@ =~= start + chunk@.take(i as int),
        {
            self.feed_byte(chunk[i]);
        }
        assert(chunk@.take(n as int) =~= chunk@);
    }

    /// Takes in what came of a read and decides whether to read on: until the end of the stream.
    /// A stream that cannot be read has no waveform.
    pub fn take_in(&mut self, read: StreamRead) -> (more: Result<bool, AppError>)
        requires
            old(self).wf(),
        ensures
            final(self).wf(),
            final(self).width() == old(self).width(),
            match read {
                StreamRead::Data(bytes) => {
                    &&& final(self)@ == old(self)@ + bytes@
                    &&& more matches Ok(yes) && yes == (bytes@.len() > 0)
                },
                StreamRead::Failed { cause } => {
                    &&& final(self)@ == old(self)@
                    &&& failure(more) == Some(
                        Failure::Io("Failed to read FFmpeg output: "@ + cause@),
                    )
                },
            },
    {
        match read {
            StreamRead::Data(bytes) => {
                self.feed(bytes.as_slice());
                Ok(bytes.len() > 0)
            },
            StreamRead::Failed { cause } => Err(AppError::output_unreadable(cause.as_str())),
        }
    }

    /// Ends the stream and returns the loudest sample of each bin.
    pub fn finish(self) -> (peaks: Vec<u16>)
        requires
            self.wf(),
        ensures
            peaks@.len() == WAVEFORM_BINS,
            forall|k: int|
                0 <= k < WAVEFORM_BINS ==> #[trigger] peaks@[k] == bin_peak(self@, self.width(), k),
    {
        let ghost bytes = self.heard@;
        let ghost per_bin = self.per_bin as int;
        let ghost done = self.peaks@.len() as int;
        let samples_in_bin: usize = self.samples_in_bin;
        let current_peak: u16 = self.current_peak;
        let mut peaks: Vec<u16> = self.peaks;
        proof {
            assert forall|k: int| 0 <= k < done implies #[trigger] peaks@[k] == bin_peak(
                bytes,
                per_bin,
                k,
            ) by {
                assert((k + 1) * per_bin <= done * per_bin) by (nonlinear_arith)
                    requires
                        k < done,
                        per_bin >= 1,
                ;
            }
        }
        if samples_in_bin > 0 && peaks.len() < WAVEFORM_BINS {
            assert((done + 1) * per_bin == done * per_bin + per_bin) by (nonlinear_arith);
            peaks.push(current_peak);
        }
        let ghost filled = peaks@.len() as int;
        assert(filled < WAVEFORM_BINS ==> sample_count(bytes) <= filled * per_bin) by {
            assert((done + 1) * per_bin == done * per_bin + per_bin) by (nonlinear_arith);
        }
        while peaks.len() < WAVEFORM_BINS
            invariant
                per_bin >= 1,
                filled <= peaks@.len() <= WAVEFORM_BINS,
                filled < WAVEFORM_BINS ==> sample_count(bytes) <= filled * per_bin,
                forall|k: int|
                    0 <= k < peaks@.len() ==> #[trigger] peaks@[k] == bin_peak(bytes, per_bin, k),
            decreases WAVEFORM_BINS - peaks@.len(),
        {
            let ghost k = peaks@.len() as int;
            assert(filled * per_bin <= k * per_bin) by (nonlinear_arith)
                requires
                    filled <= k,
                    per_bin >= 1,
            ;
            peaks.push(0);
        }
        peaks
    }
}

/// The waveform of a stream that has no duration: silence.
pub fn flat_waveform() -> (peaks: Vec<u16>)
    ensures
        peaks@ == Seq::new(WAVEFORM_BINS as nat, |k: int| 0u16),
{
    let mut peaks: Vec<u16> = Vec::new();
    while peaks.len() < WAVEFORM_BINS
        invariant
            peaks@.len() <= WAVEFORM_BINS,
            forall|k: int| 0 <= k < peaks@.len() ==> peaks@[k] == 0,
        decreases WAVEFORM_BINS - peaks@.len(),
    {
        peaks.push(0);
    }
    assert(peaks@ =~= Seq::new(WAVEFORM_BINS as nat, |k: int| 0u16));
    peaks
}

/// The largest of the peaks, by which a waveform is scaled; 0 when there are none.
pub fn loudest(peaks: &[u16]) -> (max: u16)
    ensures
        forall|k: int| 0 <= k < peaks@.len() ==> #[trigger] peaks@[k] <= max,
        max == 0 || peaks@.contains(max),
{
    let mut max: u16 = 0;
    let n: usize = peaks.len();
    for i in 0..n
        invariant
            n == peaks@.len(),
            forall|k: int| 0 <= k < i ==> #[trigger] peaks@[k] <= max,
            max == 0 || peaks@.contains(max),
    {
        if peaks[i] > max {
            max = peaks[i];
            assert(peaks@[i as int] == max);
        }
    }
    max
}

/// Bytes hold one sample for every two of them.
pub proof fn law_two_bytes_are_a_sample(bytes: Seq<u8>)
    ensures
        2 * sample_count(bytes) <= bytes.len() < 2 * sample_count(bytes) + 2,
{
}

/// A sample that is written as two bytes, the less significant first and negative ones as their
/// complement to `2^16`, is read as it was written, and is as loud as its absolute value.
pub proof fn law_sample_is_read(bytes: Seq<u8>, k: int, value: i16)
    requires
        0 <= k,
        2 * k + 1 < bytes.len(),
        bytes[2 * k] == value as int % 0x100,
        bytes[2 * k + 1] == value as int / 0x100 % 0x100,
    ensures
        sample(bytes, k) == value,
        magnitude(bytes, k) == if value >= 0 {
            value as int
        } else {
            -value
        },
{
}

/// A bin is at least as loud as every sample in it, and as loud as one of them unless it is silent.
/// The samples of a bin are the `per_bin` ones at its place in the stream, as far as there are any.
pub proof fn law_bin_is_as_loud_as_its_samples(bytes: Seq<u8>, per_bin: int, bin: int)
    requires
        per_bin >= 1,
        bin >= 0,
    ensures
        forall|k: int|
            bin * per_bin <= k < bin * per_bin + per_bin && 2 * k + 1 < bytes.len()
                ==> #[trigger] magnitude(bytes, k) <= bin_peak(bytes, per_bin, bin),
        bin_peak(bytes, per_bin, bin) == 0 || exists|k: int|
            bin * per_bin <= k < bin * per_bin + per_bin && 2 * k + 1 < bytes.len()
                && #[trigger] magnitude(bytes, k) == bin_peak(bytes, per_bin, bin),
{
    assert((bin + 1) * per_bin == bin * per_bin + per_bin) by (nonlinear_arith);
    assert(0 <= bin * per_bin) by (nonlinear_arith)
        requires
            per_bin >= 1,
            bin >= 0,
    ;
    law_peak_is_the_loudest(
        bytes,
        bin * per_bin,
        at_most((bin + 1) * per_bin, sample_count(bytes)),
    );
}

/// The bins span the stream: they need no more samples than there are, if there is one for each
/// bin, and fewer samples than there are bins fall behind the last one.
pub proof fn law_bins_span_the_stream(total: int)
    requires
        total >= 0,
    ensures
        bin_width(total) >= 1,
        240 * bin_width(total) <= total || (total < 240 && bin_width(total) == 1),
        total < 240 * (bin_width(total) + 1),
        WAVEFORM_BINS == 240,
{
}

/// FFmpeg decodes the audio of the video alone, to one channel of 8000 samples a second, each of 16
/// bits, on its standard output.
pub proof fn law_waveform_call(path: Seq<char>)
    ensures
        ({
            let args = waveform_query(path);
            &&& args.len() == 10
            &&& args[0] == "-i"@ && args[1] == path
            &&& args[2] == "-vn"@
            &&& args[3] == "-ac"@ && args[4] == "1"@
            &&& args[5] == "-ar"@ && args[6] == decimal(SAMPLE_RATE as nat)
            &&& args[7] == "-f"@ && args[8] == "s16le"@
            &&& args[9] == "pipe:1"@
            &&& SAMPLE_RATE == 8000
        }),
{
    reveal_strlit("8000");
    reveal_with_fuel(decimal, 5);
    assert(decimal(8000) =~= "8000"@);
}

} // verus!
