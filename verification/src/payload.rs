//! Recovery of a payload from the pixel bytes of an image.
//!
//! The scanlines of the image, read one after another, form one stream of
//! bytes. Its first four bytes give, little-endian, the length of the
//! payload; the payload follows at once and what comes after it is ignored.
//! Where one scanline ends and the next begins has no meaning: the stream is
//! what counts.
//!
//! [`PayloadExtractor`] takes the scanlines as they arrive and says after
//! each what to do next; [`extract`] does the same for scanlines that are
//! all at hand.
use vstd::prelude::*;
use vstd::slice::slice_subrange;
use vstd::slice::slice_to_vec;

verus! {

/// Number of bytes in the length prefix.
pub const PREFIX_LEN: usize = 4;

/// Seconds to wait before asking again for a scanline that was not yet there.
pub const BACKOFF_SECONDS: u64 = 1;

/// The number that four bytes spell, least significant byte first.
pub open spec fn le_value(bytes: Seq<u8>) -> nat
    recommends
        bytes.len() == 4,
{
    (bytes[0] as nat) + 256 * (bytes[1] as nat) + 65536 * (bytes[2] as nat) + 16777216 * (
    bytes[3] as nat)
}

/// The four bytes that spell `value`, least significant byte first.
pub open spec fn le_bytes(value: nat) -> Seq<u8>
    recommends
        value <= u32::MAX,
{
    seq![
        (value % 256) as u8,
        (value / 256 % 256) as u8,
        (value / 65536 % 256) as u8,
        (value / 16777216 % 256) as u8,
    ]
}

/// The stream that carries `payload`: its length, then its bytes.
pub open spec fn framed(payload: Seq<u8>) -> Seq<u8>
    recommends
        payload.len() <= u32::MAX,
{
    le_bytes(payload.len()) + payload
}

/// The payload length that `stream` announces in its first four bytes.
pub open spec fn announced(stream: Seq<u8>) -> nat
    recommends
        stream.len() >= 4,
{
    le_value(stream.take(4))
}

/// Whether `stream` holds its prefix and all the payload bytes it announces.
pub open spec fn complete(stream: Seq<u8>) -> bool {
    stream.len() >= 4 && stream.len() - 4 >= announced(stream)
}

/// The payload bytes that `stream` has brought so far: nothing before the
/// prefix is whole, then what follows the prefix, up to the announced length.
pub open spec fn delivered(stream: Seq<u8>) -> Seq<u8> {
    if stream.len() < 4 {
        Seq::empty()
    } else if complete(stream) {
        stream.subrange(4, 4 + announced(stream) as int)
    } else {
        stream.skip(4)
    }
}

/// The payload of `stream`, if the stream is long enough to hold it.
pub open spec fn payload_of(stream: Seq<u8>) -> Option<Seq<u8>> {
    if complete(stream) {
        Some(delivered(stream))
    } else {
        None
    }
}

/// The stream that `rows` form when read one after another.
pub open spec fn joined(rows: Seq<Vec<u8>>) -> Seq<u8>
    decreases rows.len(),
{
    if rows.len() == 0 {
        Seq::empty()
    } else {
        joined(rows.drop_last()) + rows.last()@
    }
}

/// Why an extraction came to nothing.
#[derive(Clone, Copy, Debug, PartialEq, Eq, Structural)]
pub enum ExtractError {
    /// The image ended before it had brought the announced number of bytes.
    InsufficientData,
    /// The image could not be decoded.
    Malformed,
}

impl ExtractError {
    /// The error in words.
    pub fn message(&self) -> (text: &'static str)
        ensures
            *self == ExtractError::InsufficientData ==> text@ == "insufficient data"@,
            *self == ExtractError::Malformed ==> text@ == "malformed image"@,
    {
        match self {
            ExtractError::InsufficientData => "insufficient data",
            ExtractError::Malformed => "malformed image",
        }
    }
}

/// What the scanline source answered when asked for the next row.
#[derive(Clone, Debug, PartialEq, Eq)]
pub enum Scanline {
    /// The bytes of the next row.
    Row(Vec<u8>),
    /// The image has no more rows.
    End,
    /// The row is not there yet; it may be later.
    Stalled,
    /// The image cannot be decoded any further.
    Broken,
}

impl Scanline {
    /// The bytes that the answer adds to the stream.
    pub open spec fn bytes(self) -> Seq<u8> {
        match self {
            Scanline::Row(row) => row@,
            _ => Seq::empty(),
        }
    }
}

/// What the caller of [`PayloadExtractor::step`] is to do next.
#[derive(Clone, Debug, PartialEq, Eq)]
pub enum Directive {
    /// Append these bytes to the output and ask for the next row.
    Write(Vec<u8>),
    /// Append these bytes to the output and stop: the payload is whole.
    Finish(Vec<u8>),
    /// Wait this many seconds and ask for the next row again.
    Pause(u64),
    /// Give up with this error.
    Fail(ExtractError),
}

impl Directive {
    /// The bytes that the directive adds to the output.
    pub open spec fn bytes(self) -> Seq<u8> {
        match self {
            Directive::Write(out) => out@,
            Directive::Finish(out) => out@,
            _ => Seq::empty(),
        }
    }
}

/// Extending a stream keeps the payload bytes it had brought and appends to
/// them; a stream that was complete stays so and brings nothing more.
pub proof fn lemma_delivered_grows(stream: Seq<u8>, more: Seq<u8>)
    ensures
        delivered(stream).is_prefix_of(delivered(stream + more)),
        complete(stream) ==> complete(stream + more) && delivered(stream + more) == delivered(
            stream,
        ),
{
}

/// Four bytes spell the number they were made from.
pub proof fn lemma_le_round_trip(value: nat)
    requires
        value <= u32::MAX,
    ensures
        le_bytes(value).len() == 4,
        le_value(le_bytes(value)) == value,
{
}

/// A framed payload is recovered whole, whatever follows it in the stream
/// and wherever the stream is cut into rows.
pub proof fn lemma_framed_payload_is_recovered(payload: Seq<u8>, trailing: Seq<u8>)
    requires
        payload.len() <= u32::MAX,
    ensures
        payload_of(framed(payload) + trailing) == Some(payload),
{
    lemma_le_round_trip(payload.len());
}

/// Reading one more row extends the stream by that row.
pub proof fn lemma_joined_push(rows: Seq<Vec<u8>>, row: Vec<u8>)
    ensures
        joined(rows.push(row)) == joined(rows) + row@,
{
    assert(rows.push(row).drop_last() =~= rows);
}

/// The number spelt by four bytes, least significant first.
fn le_decode(bytes: &Vec<u8>) -> (value: u32)
    requires
        bytes@.len() == 4,
    ensures
        value == le_value(bytes@),
{
    let b0: u32 = bytes[0] as u32;
    let b1: u32 = bytes[1] as u32;
    let b2: u32 = bytes[2] as u32;
    let b3: u32 = bytes[3] as u32;
    b0 + 256 * b1 + 65536 * b2 + 16777216 * b3
}

/// Takes the scanlines of an image one by one and hands out the payload
/// bytes as they come. Its view is the stream of all bytes taken so far.
pub struct PayloadExtractor {
    seen: Ghost<Seq<u8>>,
    prefix: Vec<u8>,
    owed: usize,
}

impl View for PayloadExtractor {
    type V = Seq<u8>;

    closed spec fn view(&self) -> Seq<u8> {
        self.seen@
    }
}

impl PayloadExtractor {
    /// The prefix holds the first bytes of the stream, four at most, and once
    /// it is whole `owed` counts the payload bytes still to come.
    #[verifier::type_invariant]
    spec fn inv(&self) -> bool {
        &&& self.prefix@ == if self.seen@.len() < 4 {
            self.seen@
        } else {
            self.seen@.take(4)
        }
        &&& self.seen@.len() >= 4 ==> self.owed == announced(self.seen@) - delivered(
            self.seen@,
        ).len()
    }

    /// An extractor that has taken no byte yet.
    pub fn new() -> (extractor: Self)
        ensures
            extractor@ == Seq::<u8>::empty(),
    {
        PayloadExtractor { seen: Ghost(Seq::empty()), prefix: Vec::new(), owed: 0 }
    }

    /// Whether the payload has been handed out in full.
    pub fn is_complete(&self) -> (done: bool)
        ensures
            done == complete(self@),
    {
        proof {
            use_type_invariant(self);
        }
        self.prefix.len() == PREFIX_LEN && self.owed == 0
    }

    /// How many payload bytes are still to come, once the prefix has told.
    pub fn missing(&self) -> (owed: Option<usize>)
        ensures
            self@.len() < 4 ==> owed is None,
            self@.len() >= 4 ==> owed == Some(
                (announced(self@) - delivered(self@).len()) as usize,
            ),
    {
        proof {
            use_type_invariant(self);
        }
        if self.prefix.len() == PREFIX_LEN {
            Some(self.owed)
        } else {
            None
        }
    }

    /// Takes the bytes of one row and returns the payload bytes among them.
    pub fn accept(&mut self, row: &[u8]) -> (out: Vec<u8>)
        ensures
            final(self)@ == old(self)@ + row@,
            delivered(final(self)@) == delivered(old(self)@) + out@,
    {
        proof {
            use_type_invariant(&*self);
        }
        let ghost before = self.seen@;
        let ghost after = before + row@;
        let had: usize = self.prefix.len();
        let mut prefix: Vec<u8> = slice_to_vec(self.prefix.as_slice());
        let mut at: usize = 0;
        while prefix.len() < PREFIX_LEN && at < row.len()
            invariant
                at <= row@.len(),
                had <= 4,
                prefix@.len() == had + at,
                prefix@.len() <= 4,
                prefix@ == self.prefix@ + row@.take(at as int),
            decreases row@.len() - at,
        {
            prefix.push(row[at]);
            at += 1;
        }
        assert(prefix@ == if after.len() < 4 {
            after
        } else {
            after.take(4)
        });
        if prefix.len() < PREFIX_LEN {
            *self = PayloadExtractor { seen: Ghost(after), prefix, owed: 0 };
            return Vec::new();
        }
        let owed: usize = if had < PREFIX_LEN {
            le_decode(&prefix) as usize
        } else {
            self.owed
        };
        let rest: usize = row.len() - at;
        let taken: usize = if rest < owed {
            rest
        } else {
            owed
        };
        let out = slice_to_vec(slice_subrange(row, at, at + taken));
        *self = PayloadExtractor { seen: Ghost(after), prefix, owed: owed - taken };
        out
    }

    /// Takes the answer of the scanline source and says what to do next.
    ///
    /// A row is searched for payload bytes, which are to be written; the
    /// directive is `Finish` as soon as the payload is whole. The end of the
    /// image before that is an error, a stall is waited out for
    /// [`BACKOFF_SECONDS`], and an image that cannot be decoded is given up.
    pub fn step(&mut self, event: Scanline) -> (directive: Directive)
        ensures
            final(self)@ == old(self)@ + event.bytes(),
            delivered(final(self)@) == delivered(old(self)@) + directive.bytes(),
            match event {
                Scanline::Row(_) => if complete(final(self)@) {
                    directive is Finish
                } else {
                    directive is Write
                },
                Scanline::End => if complete(old(self)@) {
                    directive is Finish
                } else {
                    directive == Directive::Fail(ExtractError::InsufficientData)
                },
                Scanline::Stalled => directive == Directive::Pause(BACKOFF_SECONDS),
                Scanline::Broken => directive == Directive::Fail(ExtractError::Malformed),
            },
    {
        match event {
            Scanline::Row(row) => {
                let out = self.accept(row.as_slice());
                if self.is_complete() {
                    Directive::Finish(out)
                } else {
                    Directive::Write(out)
                }
            },
            Scanline::End => {
                if self.is_complete() {
                    Directive::Finish(Vec::new())
                } else {
                    Directive::Fail(ExtractError::InsufficientData)
                }
            },
            Scanline::Stalled => Directive::Pause(BACKOFF_SECONDS),
            Scanline::Broken => Directive::Fail(ExtractError::Malformed),
        }
    }
}

/// The payload carried by `rows`, the scanlines of a whole image in order.
///
/// Fails with `InsufficientData`, and with nothing else, exactly when the
/// rows together are shorter than the prefix and the length it announces.
pub fn extract(rows: &Vec<Vec<u8>>) -> (result: Result<Vec<u8>, ExtractError>)
    ensures
        match result {
            Ok(payload) => payload_of(joined(rows@)) == Some(payload@),
            Err(error) => error == ExtractError::InsufficientData && payload_of(joined(rows@))
                is None,
        },
{
    let mut extractor = PayloadExtractor::new();
    let mut payload: Vec<u8> = Vec::new();
    let mut i: usize = 0;
    while i < rows.len()
        invariant
            i <= rows@.len(),
            extractor@ == joined(rows@.take(i as int)),
            payload@ == delivered(extractor@),
        decreases rows@.len() - i,
    {
        let mut out = extractor.accept(rows[i].as_slice());
        payload.append(&mut out);
        proof {
            lemma_joined_push(rows@.take(i as int), rows@[i as int]);
            assert(rows@.take(i as int).push(rows@[i as int]) =~= rows@.take(i + 1));
        }
        i += 1;
    }
    assert(rows@.take(i as int) =~= rows@);
    if extractor.is_complete() {
        Ok(payload)
    } else {
        Err(ExtractError::InsufficientData)
    }
}

} // verus!
