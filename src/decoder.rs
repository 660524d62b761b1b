//! Decoding of the device's output stream, for each log format.

use vstd::prelude::*;

use crate::error::MonitorError;
use crate::markers::{addresses_from, addresses_in};

verus! {

/// How the device's output is to be read; chosen once per session.
#[derive(Clone, Copy, Debug, PartialEq, Eq, Structural)]
pub enum LogFormat {
    /// Frames of a compact binary log encoding that only the firmware image
    /// can render.
    Defmt,
    /// Plain text, passed through as it comes; the code addresses in each
    /// complete line are collected for symbol lookup.
    Serial,
}

/// One piece of decoded output, in the order it is to be shown.
#[derive(Debug, PartialEq, Eq)]
pub enum OutputItem {
    /// A byte of text, shown as it came.
    Text(u8),
    /// A code address found in the line just ended, to be annotated there.
    Address(u32),
    /// A complete structured frame, without its terminating zero byte.
    Frame(Vec<u8>),
}

/// The meaning of an output item, with a frame as a sequence.
pub enum Emitted {
    Text(u8),
    Address(u32),
    Frame(Seq<u8>),
}

impl OutputItem {
    pub open spec fn view(&self) -> Emitted {
        match self {
            OutputItem::Text(b) => Emitted::Text(*b),
            OutputItem::Address(a) => Emitted::Address(*a),
            OutputItem::Frame(f) => Emitted::Frame(f@),
        }
    }
}

/// What the decoder has produced so far, in order.
pub struct DecodedOutput {
    pub items: Vec<OutputItem>,
}

/// Consumes device bytes chunk by chunk; it holds the line (`Serial`) or the
/// frame (`Defmt`) that has begun but not ended.
pub struct OutputDecoder {
    pub format: LogFormat,
    pub pending: Vec<u8>,
}

/// The delimiter that ends a structured frame.
pub const FRAME_END: u8 = 0;

/// The byte that ends a line of text.
pub const LINE_END: u8 = 0x0a;

/// The whole state of decoding: what was produced, and the pending line or
/// frame.
pub struct DecodeState {
    pub out: Seq<Emitted>,
    pub pending: Seq<u8>,
}

/// Annotations for a list of addresses.
pub open spec fn annotations(addrs: Seq<u32>) -> Seq<Emitted> {
    addrs.map_values(|a: u32| Emitted::Address(a))
}

/// Effect of one byte. Text goes out at once; when a line ends, the
/// addresses found in it follow the line end.
pub open spec fn step(st: DecodeState, b: u8, format: LogFormat) -> DecodeState {
    match format {
        LogFormat::Serial => if b == LINE_END {
            DecodeState {
                out: st.out.push(Emitted::Text(b)) + annotations(addresses_from(st.pending, 0)),
                pending: Seq::empty(),
            }
        } else {
            DecodeState { out: st.out.push(Emitted::Text(b)), pending: st.pending.push(b) }
        },
        LogFormat::Defmt => if b == FRAME_END {
            DecodeState { out: st.out.push(Emitted::Frame(st.pending)), pending: Seq::empty() }
        } else {
            DecodeState { pending: st.pending.push(b), ..st }
        },
    }
}

/// Effect of a stream of bytes, one after the other.
pub open spec fn step_all(st: DecodeState, bytes: Seq<u8>, format: LogFormat) -> DecodeState
    decreases bytes.len(),
{
    if bytes.len() == 0 {
        st
    } else {
        step(step_all(st, bytes.drop_last(), format), bytes.last(), format)
    }
}

/// Effect of feeding a list of chunks, each in one call.
pub open spec fn feed_chunks(st: DecodeState, chunks: Seq<Seq<u8>>, format: LogFormat) -> DecodeState
    decreases chunks.len(),
{
    if chunks.len() == 0 {
        st
    } else {
        feed_chunks(step_all(st, chunks[0], format), chunks.drop_first(), format)
    }
}

/// The items of an output, as their meanings.
pub open spec fn items_of(out: &DecodedOutput) -> Seq<Emitted> {
    out.items@.map_values(|i: OutputItem| i@)
}

/// The decoding state held by a decoder and its output together.
pub open spec fn state_of(dec: &OutputDecoder, out: &DecodedOutput) -> DecodeState {
    DecodeState { out: items_of(out), pending: dec.pending@ }
}

/// Feeding `a` and then `b` has the effect of feeding `a + b`.
pub proof fn lemma_step_all_append(st: DecodeState, a: Seq<u8>, b: Seq<u8>, format: LogFormat)
    ensures
        step_all(step_all(st, a, format), b, format) == step_all(st, a + b, format),
    decreases b.len(),
{
    if b.len() == 0 {
        assert(a + b =~= a);
    } else {
        lemma_step_all_append(st, a, b.drop_last(), format);
        assert((a + b).drop_last() =~= a + b.drop_last());
        assert((a + b).last() == b.last());
    }
}

/// Feeding chunks one by one has the effect of feeding their concatenation.
pub proof fn lemma_feed_chunks_flatten(st: DecodeState, chunks: Seq<Seq<u8>>, format: LogFormat)
    ensures
        feed_chunks(st, chunks, format) == step_all(st, chunks.flatten(), format),
    decreases chunks.len(),
{
    if chunks.len() > 0 {
        lemma_feed_chunks_flatten(step_all(st, chunks[0], format), chunks.drop_first(), format);
        lemma_step_all_append(st, chunks[0], chunks.drop_first().flatten(), format);
    }
}

/// Chunk-boundary independence: two ways of cutting the same byte stream into
/// chunks give the same output, item for item in the same order, and leave
/// the same pending line or frame.
pub proof fn lemma_chunk_boundary_independence(
    st: DecodeState,
    chunks1: Seq<Seq<u8>>,
    chunks2: Seq<Seq<u8>>,
    format: LogFormat,
)
    requires
        chunks1.flatten() == chunks2.flatten(),
    ensures
        feed_chunks(st, chunks1, format) == feed_chunks(st, chunks2, format),
{
    lemma_feed_chunks_flatten(st, chunks1, format);
    lemma_feed_chunks_flatten(st, chunks2, format);
}

/// A state with nothing produced yet and `pending` waiting.
pub open spec fn fresh(pending: Seq<u8>) -> DecodeState {
    DecodeState { out: Seq::empty(), pending }
}

/// What a caller sees that feeds each chunk into a fresh output, starting
/// with `pending` held by the decoder: the outputs of the calls one after
/// the other.
pub open spec fn chunk_outputs(pending: Seq<u8>, chunks: Seq<Seq<u8>>, format: LogFormat) -> Seq<
    Emitted,
>
    decreases chunks.len(),
{
    if chunks.len() == 0 {
        Seq::empty()
    } else {
        let st = step_all(fresh(pending), chunks[0], format);
        st.out + chunk_outputs(st.pending, chunks.drop_first(), format)
    }
}

/// Decoding only appends to what was produced before.
pub proof fn lemma_step_all_appends(st: DecodeState, bytes: Seq<u8>, format: LogFormat)
    ensures
        step_all(st, bytes, format).out == st.out + step_all(fresh(st.pending), bytes, format).out,
        step_all(st, bytes, format).pending == step_all(fresh(st.pending), bytes, format).pending,
    decreases bytes.len(),
{
    if bytes.len() == 0 {
        assert(st.out + Seq::<Emitted>::empty() =~= st.out);
    } else {
        lemma_step_all_appends(st, bytes.drop_last(), format);
        let x = step_all(st, bytes.drop_last(), format);
        let y = step_all(fresh(st.pending), bytes.drop_last(), format);
        let b = bytes.last();
        match format {
            LogFormat::Serial => {
                if b == LINE_END {
                    assert(step(x, b, format).out =~= st.out + step(y, b, format).out);
                } else {
                    assert(step(x, b, format).out =~= st.out + step(y, b, format).out);
                }
            },
            LogFormat::Defmt => {
                assert(step(x, b, format).out =~= st.out + step(y, b, format).out);
            },
        }
    }
}

/// Feeding chunks into fresh outputs shows what feeding their concatenation
/// in one call shows.
pub proof fn lemma_chunk_outputs_flatten(pending: Seq<u8>, chunks: Seq<Seq<u8>>, format: LogFormat)
    ensures
        chunk_outputs(pending, chunks, format) == step_all(
            fresh(pending),
            chunks.flatten(),
            format,
        ).out,
    decreases chunks.len(),
{
    if chunks.len() > 0 {
        let s0 = step_all(fresh(pending), chunks[0], format);
        let rest = chunks.drop_first();
        lemma_chunk_outputs_flatten(s0.pending, rest, format);
        lemma_step_all_appends(s0, rest.flatten(), format);
        lemma_step_all_append(fresh(pending), chunks[0], rest.flatten(), format);
    } else {
        assert(chunks.flatten() =~= Seq::<u8>::empty());
    }
}

/// Chunk-boundary independence of what is shown: a caller that feeds each
/// chunk into a fresh output and shows it before the next read shows the same
/// items in the same order however the stream was cut, since a partial line
/// or frame waits in the decoder.
pub proof fn lemma_shown_output_chunk_independent(
    chunks1: Seq<Seq<u8>>,
    chunks2: Seq<Seq<u8>>,
    format: LogFormat,
)
    requires
        chunks1.flatten() == chunks2.flatten(),
    ensures
        chunk_outputs(Seq::empty(), chunks1, format) == chunk_outputs(Seq::empty(), chunks2, format),
{
    lemma_chunk_outputs_flatten(Seq::empty(), chunks1, format);
    lemma_chunk_outputs_flatten(Seq::empty(), chunks2, format);
}

impl DecodedOutput {
    /// An output with nothing in it.
    pub fn new() -> (r: DecodedOutput)
        ensures
            r.items@ == Seq::<OutputItem>::empty(),
    {
        DecodedOutput { items: Vec::new() }
    }
}

impl OutputDecoder {
    /// A decoder for `format`; the structured format needs the firmware image.
    pub fn new(format: LogFormat, firmware: Option<&[u8]>) -> (r: Result<OutputDecoder, MonitorError>)
        ensures
            format == LogFormat::Defmt && firmware.is_none() <==> r == Err::<
                OutputDecoder,
                MonitorError,
            >(MonitorError::MissingFirmwareImage),
            !(format == LogFormat::Defmt && firmware.is_none()) ==> r.is_ok(),
            r.is_ok() ==> r.unwrap().format == format && r.unwrap().pending@ == Seq::<u8>::empty(),
    {
        match (format, firmware) {
            (LogFormat::Defmt, None) => Err(MonitorError::MissingFirmwareImage),
            _ => Ok(OutputDecoder { format, pending: Vec::new() }),
        }
    }

    /// Consumes a chunk of device bytes: text is passed on, complete frames
    /// are emitted, the rest of a frame waits for the next chunk.
    pub fn feed(&mut self, bytes: &[u8], out: &mut DecodedOutput)
        ensures
            final(self).format == old(self).format,
            state_of(final(self), final(out)) == step_all(
                state_of(old(self), old(out)),
                bytes@,
                old(self).format,
            ),
    {
        let ghost start = state_of(self, out);
        let mut i: usize = 0;
        while i < bytes.len()
            invariant
                i <= bytes@.len(),
                self.format == old(self).format,
                state_of(self, out) == step_all(start, bytes@.subrange(0, i as int), self.format),
            decreases bytes@.len() - i,
        {
            let b = bytes[i];
            let ghost before = state_of(self, out);
            match self.format {
                LogFormat::Serial => {
                    out.items.push(OutputItem::Text(b));
                    if b == LINE_END {
                        let found = addresses_in(self.pending.as_slice());
                        let ghost base = items_of(out);
                        let mut k: usize = 0;
                        while k < found.len()
                            invariant
                                k <= found@.len(),
                                items_of(out) == base + annotations(found@.subrange(0, k as int)),
                            decreases found@.len() - k,
                        {
                            let ghost prev = items_of(out);
                            out.items.push(OutputItem::Address(found[k]));
                            assert(items_of(out) =~= prev.push(Emitted::Address(found@[k as int])));
                            assert(found@.subrange(0, k + 1) =~= found@.subrange(0, k as int).push(
                                found@[k as int],
                            ));
                            assert(annotations(found@.subrange(0, k + 1)) =~= annotations(
                                found@.subrange(0, k as int),
                            ).push(Emitted::Address(found@[k as int])));
                            assert(items_of(out) =~= base + annotations(
                                found@.subrange(0, k + 1),
                            ));
                            k = k + 1;
                        }
                        assert(found@.subrange(0, found@.len() as int) =~= found@);
                        self.pending.clear();
                        assert(items_of(out) =~= before.out.push(Emitted::Text(b)) + annotations(
                            addresses_from(before.pending, 0),
                        ));
                    } else {
                        self.pending.push(b);
                        assert(items_of(out) =~= before.out.push(Emitted::Text(b)));
                    }
                },
                LogFormat::Defmt => {
                    if b == FRAME_END {
                        let mut frame: Vec<u8> = Vec::new();
                        std::mem::swap(&mut frame, &mut self.pending);
                        out.items.push(OutputItem::Frame(frame));
                        assert(items_of(out) =~= before.out.push(Emitted::Frame(before.pending)));
                    } else {
                        self.pending.push(b);
                    }
                },
            }
            proof {
                let pre = bytes@.subrange(0, i as int + 1);
                assert(pre.drop_last() =~= bytes@.subrange(0, i as int));
                assert(pre.last() == b);
                assert(state_of(self, out) == step(before, b, self.format));
            }
            i = i + 1;
        }
        assert(bytes@.subrange(0, bytes@.len() as int) =~= bytes@);
    }
}

} // verus!
