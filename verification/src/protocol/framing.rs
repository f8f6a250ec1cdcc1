//! Length-delimited frames: four bytes of big-endian length, then the payload.

use vstd::prelude::*;

use crate::text::{contains_text, decimal, decimal_text, law_occurrences_split_the_text};

verus! {

/// The largest frame that is read where nothing else is said.
pub const DEFAULT_MAX_FRAME_SIZE: usize = 8_388_608;

/// Why a frame could not be read or written.
#[derive(Debug, PartialEq, Eq)]
pub enum FrameError {
    Io(String),
    TooLarge { actual: usize, maximum: usize },
    Serialization(String),
}

/// What a [`FrameError`] says.
pub enum FrameErrorView {
    Io(Seq<char>),
    TooLarge { actual: usize, maximum: usize },
    Serialization(Seq<char>),
}

impl View for FrameError {
    type V = FrameErrorView;

    open spec fn view(&self) -> FrameErrorView {
        match self {
            FrameError::Io(text) => FrameErrorView::Io(text@),
            FrameError::TooLarge { actual, maximum } => FrameErrorView::TooLarge {
                actual: *actual,
                maximum: *maximum,
            },
            FrameError::Serialization(text) => FrameErrorView::Serialization(text@),
        }
    }
}

impl FrameErrorView {
    /// The sentence shown to a person.
    pub open spec fn sentence(self) -> Seq<char> {
        match self {
            FrameErrorView::Io(text) => "transport I/O failed: "@ + text,
            FrameErrorView::TooLarge { actual, maximum } => "frame length "@ + decimal(
                actual as nat,
            ) + " exceeds maximum "@ + decimal(maximum as nat),
            FrameErrorView::Serialization(text) => "message serialization failed: "@ + text,
        }
    }
}

impl FrameError {
    /// The sentence shown to a person.
    pub fn describe(&self) -> (sentence: String)
        ensures
            sentence@ == self@.sentence(),
    {
        match self {
            FrameError::Io(text) => "transport I/O failed: ".to_owned().concat(text.as_str()),
            FrameError::TooLarge { actual, maximum } => {
                let actual = decimal_text(*actual as u128);
                let maximum = decimal_text(*maximum as u128);
                "frame length ".to_owned().concat(actual.as_str()).concat(
                    " exceeds maximum ",
                ).concat(maximum.as_str())
            },
            FrameError::Serialization(text) => "message serialization failed: ".to_owned().concat(
                text.as_str(),
            ),
        }
    }
}

/// The number that four big-endian bytes stand for.
pub open spec fn big_endian(bytes: Seq<u8>) -> nat {
    (bytes[0] * 16_777_216 + bytes[1] * 65_536 + bytes[2] * 256 + bytes[3]) as nat
}

/// The four big-endian bytes of a number.
pub open spec fn big_endian_bytes(n: u32) -> Seq<u8> {
    seq![
        (n / 16_777_216) as u8,
        ((n / 65_536) % 256) as u8,
        ((n / 256) % 256) as u8,
        (n % 256) as u8,
    ]
}

proof fn lemma_big_endian(n: u32)
    ensures
        big_endian(big_endian_bytes(n)) == n,
{
    assert(n / 16_777_216 <= 255) by (bit_vector);
    assert(n == (n / 16_777_216) * 16_777_216 + ((n / 65_536) % 256) * 65_536 + ((n / 256) % 256)
        * 256 + n % 256) by (bit_vector);
}

/// A payload as it is sent.
pub open spec fn frame_of(payload: Seq<u8>) -> Seq<u8> {
    big_endian_bytes(payload.len() as u32) + payload
}

/// The bytes of one frame. A payload whose length four bytes cannot tell is
/// refused.
pub fn encode_frame(payload: &Vec<u8>) -> (frame: Result<Vec<u8>, FrameError>)
    ensures
        match frame {
            Ok(bytes) => payload@.len() <= u32::MAX && bytes@ == frame_of(payload@),
            Err(error) => payload@.len() > u32::MAX && error@ == (FrameErrorView::TooLarge {
                actual: payload@.len() as usize,
                maximum: u32::MAX as usize,
            }),
        },
{
    let length: usize = payload.len();
    if length as u64 > u32::MAX as u64 {
        return Err(FrameError::TooLarge { actual: length, maximum: u32::MAX as usize });
    }
    let n: u32 = length as u32;
    proof {
        assert(n / 16_777_216 <= 255) by (bit_vector);
    }
    let mut bytes: Vec<u8> = Vec::new();
    bytes.push((n / 16_777_216) as u8);
    bytes.push(((n / 65_536) % 256) as u8);
    bytes.push(((n / 256) % 256) as u8);
    bytes.push((n % 256) as u8);
    assert(bytes@ =~= big_endian_bytes(n));
    let mut i: usize = 0;
    while i < payload.len()
        invariant
            i <= payload@.len(),
            bytes@ == big_endian_bytes(n) + payload@.take(i as int),
        decreases payload.len() - i,
    {
        bytes.push(payload[i]);
        i += 1;
        assert(payload@.take(i as int) =~= payload@.take(i - 1).push(payload@[i - 1]));
    }
    assert(payload@.take(i as int) =~= payload@);
    Ok(bytes)
}

/// What stands at the beginning of a stream.
pub enum Parsed {
    /// Not a whole frame yet.
    Incomplete,
    /// A header that announces more than the maximum.
    TooLarge(nat),
    /// A payload, and what follows it.
    Frame(Seq<u8>, Seq<u8>),
}

/// What stands at the beginning of a stream.
pub open spec fn parse(stream: Seq<u8>, maximum: usize) -> Parsed {
    if stream.len() < 4 {
        Parsed::Incomplete
    } else {
        let length = big_endian(stream);
        if length > maximum {
            Parsed::TooLarge(length)
        } else if stream.len() < 4 + length {
            Parsed::Incomplete
        } else {
            Parsed::Frame(stream.subrange(4, 4 + length as int), stream.skip(4 + length as int))
        }
    }
}

/// The bytes of a stream that were read and not yet taken.
pub struct FrameReader {
    bytes: Vec<u8>,
}

impl View for FrameReader {
    type V = Seq<u8>;

    closed spec fn view(&self) -> Seq<u8> {
        self.bytes@
    }
}

impl FrameReader {
    /// A stream of which nothing was read.
    pub fn new() -> (reader: Self)
        ensures
            reader@ == Seq::<u8>::empty(),
    {
        FrameReader { bytes: Vec::new() }
    }

    /// Takes in what was read from the stream.
    pub fn feed(&mut self, chunk: &[u8])
        ensures
            final(self)@ == old(self)@ + chunk@,
    {
        let n: usize = chunk.len();
        let mut i: usize = 0;
        assert(old(self)@ + chunk@.take(0) =~= old(self)@);
        while i < n
            invariant
                i <= n == chunk@.len(),
                self@ == old(self)@ + chunk@.take(i as int),
            decreases n - i,
        {
            self.bytes.push(chunk[i]);
            i += 1;
            assert(chunk@.take(i as int) =~= chunk@.take(i - 1).push(chunk@[i - 1]));
            assert(self@ =~= old(self)@ + chunk@.take(i as int));
        }
        assert(chunk@.take(n as int) =~= chunk@);
    }

    /// Takes the payload of the next frame, or `None` where more must be read.
    pub fn next(&mut self, maximum: usize) -> (payload: Result<Option<Vec<u8>>, FrameError>)
        ensures
            match parse(old(self)@, maximum) {
                Parsed::Incomplete => payload == Ok::<Option<Vec<u8>>, FrameError>(None)
                    && final(self)@ == old(self)@,
                Parsed::TooLarge(length) => payload matches Err(error) && error@ == (
                FrameErrorView::TooLarge { actual: length as usize, maximum }) && final(self)@
                    == old(self)@,
                Parsed::Frame(content, rest) => payload matches Ok(Some(bytes)) && bytes@
                    == content && final(self)@ == rest,
            },
    {
        if self.bytes.len() < 4 {
            return Ok(None);
        }
        let (a, b, c, d) = (self.bytes[0], self.bytes[1], self.bytes[2], self.bytes[3]);
        let announced: u32 = a as u32 * 16_777_216 + b as u32 * 65_536 + c as u32 * 256 + d as u32;
        let length: usize = announced as usize;
        assert(length == big_endian(self@));
        if length > maximum {
            return Err(FrameError::TooLarge { actual: length, maximum });
        }
        if self.bytes.len() - 4 < length {
            return Ok(None);
        }
        let end: usize = 4 + length;
        let ghost all = self@;
        let mut payload: Vec<u8> = Vec::new();
        let mut i: usize = 4;
        while i < end
            invariant
                4 <= i <= end == 4 + length,
                end <= self.bytes@.len(),
                self@ == all,
                payload@ == all.subrange(4, i as int),
            decreases end - i,
        {
            payload.push(self.bytes[i]);
            i += 1;
            assert(all.subrange(4, i as int) =~= all.subrange(4, i - 1).push(all[i - 1]));
        }
        let mut rest: Vec<u8> = Vec::new();
        let total: usize = self.bytes.len();
        while i < total
            invariant
                end <= i <= total,
                total == self.bytes@.len(),
                self@ == all,
                rest@ == all.subrange(end as int, i as int),
            decreases total - i,
        {
            rest.push(self.bytes[i]);
            i += 1;
            assert(all.subrange(end as int, i as int) =~= all.subrange(end as int, i - 1).push(
                all[i - 1],
            ));
        }
        assert(all.subrange(end as int, total as int) =~= all.skip(end as int));
        self.bytes = rest;
        Ok(Some(payload))
    }

    /// The stream has ended: cleanly between frames, or inside one.
    pub fn finish(&self) -> (end: Result<(), FrameError>)
        ensures
            match end {
                Ok(_) => self@.len() == 0,
                Err(error) => self@.len() > 0 && error@ == FrameErrorView::Io(
                    "unexpected end of file"@,
                ),
            },
    {
        if self.bytes.len() == 0 {
            Ok(())
        } else {
            Err(FrameError::Io("unexpected end of file".to_owned()))
        }
    }
}

/// What is written is read: a frame at the beginning of a stream gives its
/// payload back and leaves what follows.
pub proof fn law_frames_round_trip(payload: Seq<u8>, rest: Seq<u8>, maximum: usize)
    requires
        payload.len() <= maximum,
        payload.len() <= u32::MAX,
    ensures
        parse(frame_of(payload) + rest, maximum) == Parsed::Frame(payload, rest),
{
    let n = payload.len() as u32;
    let stream = frame_of(payload) + rest;
    lemma_big_endian(n);
    assert(big_endian(stream) == big_endian(big_endian_bytes(n)));
    assert(stream.subrange(4, 4 + payload.len() as int) =~= payload);
    assert(stream.skip(4 + payload.len() as int) =~= rest);
}

/// A frame longer than the maximum is refused by its header alone.
pub proof fn law_oversized_frames_are_refused(payload: Seq<u8>, rest: Seq<u8>, maximum: usize)
    requires
        maximum < payload.len() <= u32::MAX,
    ensures
        parse(frame_of(payload) + rest, maximum) == Parsed::TooLarge(payload.len()),
{
    let n = payload.len() as u32;
    lemma_big_endian(n);
    assert(big_endian(frame_of(payload) + rest) == big_endian(big_endian_bytes(n)));
}

/// How a stream is cut into reads makes no difference: what was decided on some
/// bytes stays decided when more arrive.
pub proof fn law_reads_do_not_matter(stream: Seq<u8>, more: Seq<u8>, maximum: usize)
    ensures
        match parse(stream, maximum) {
            Parsed::Incomplete => true,
            Parsed::TooLarge(length) => parse(stream + more, maximum) == Parsed::TooLarge(length),
            Parsed::Frame(payload, rest) => parse(stream + more, maximum) == Parsed::Frame(
                payload,
                rest + more,
            ),
        },
{
    if stream.len() >= 4 {
        assert(big_endian(stream + more) == big_endian(stream));
        if let Parsed::Frame(payload, rest) = parse(stream, maximum) {
            let end = 4 + big_endian(stream);
            assert((stream + more).subrange(4, end as int) =~= payload);
            assert((stream + more).skip(end as int) =~= rest + more);
        }
    }
}

/// The frames of some payloads, one after another.
pub open spec fn frames_of(payloads: Seq<Seq<u8>>) -> Seq<u8>
    decreases payloads.len(),
{
    if payloads.len() == 0 {
        Seq::empty()
    } else {
        frame_of(payloads[0]) + frames_of(payloads.skip(1))
    }
}

/// The payloads that reading a stream to its end gives, and what is left of it.
pub open spec fn read_all(stream: Seq<u8>, maximum: usize) -> (Seq<Seq<u8>>, Seq<u8>)
    decreases stream.len(),
{
    match parse(stream, maximum) {
        Parsed::Frame(payload, rest) => if rest.len() < stream.len() {
            let (more, left) = read_all(rest, maximum);
            (seq![payload] + more, left)
        } else {
            (Seq::empty(), stream)
        },
        _ => (Seq::empty(), stream),
    }
}

/// Messages that were written one after another are read one after another, and
/// nothing is left of the stream.
pub proof fn law_consecutive_frames_are_read_in_order(payloads: Seq<Seq<u8>>, maximum: usize)
    requires
        forall|i: int|
            0 <= i < payloads.len() ==> (#[trigger] payloads[i]).len() <= maximum
                && payloads[i].len() <= u32::MAX,
    ensures
        read_all(frames_of(payloads), maximum) == (payloads, Seq::<u8>::empty()),
    decreases payloads.len(),
{
    if payloads.len() > 0 {
        let rest = payloads.skip(1);
        assert forall|i: int| 0 <= i < rest.len() implies (#[trigger] rest[i]).len() <= maximum
            && rest[i].len() <= u32::MAX by {
            assert(rest[i] == payloads[i + 1]);
        }
        law_consecutive_frames_are_read_in_order(rest, maximum);
        law_frames_round_trip(payloads[0], frames_of(rest), maximum);
        assert(seq![payloads[0]] + rest =~= payloads);
    } else {
        assert(payloads =~= Seq::empty());
    }
}

/// The sentence of an error keeps what was said of it: the text, or both
/// numbers.
pub proof fn law_frame_sentences_keep_the_message(error: FrameErrorView)
    ensures
        match error {
            FrameErrorView::Io(text) => text.is_suffix_of(error.sentence()),
            FrameErrorView::Serialization(text) => text.is_suffix_of(error.sentence()),
            FrameErrorView::TooLarge { actual, maximum } => contains_text(
                error.sentence(),
                decimal(actual as nat),
            ) && decimal(maximum as nat).is_suffix_of(error.sentence()),
        },
{
    let sentence = error.sentence();
    match error {
        FrameErrorView::Io(text) => {
            assert(sentence.subrange(sentence.len() - text.len(), sentence.len() as int) =~= text);
        },
        FrameErrorView::Serialization(text) => {
            assert(sentence.subrange(sentence.len() - text.len(), sentence.len() as int) =~= text);
        },
        FrameErrorView::TooLarge { actual, maximum } => {
            let most = decimal(maximum as nat);
            law_occurrences_split_the_text(
                "frame length "@,
                decimal(actual as nat),
                " exceeds maximum "@ + most,
            );
            assert("frame length "@ + decimal(actual as nat) + (" exceeds maximum "@ + most)
                =~= sentence);
            assert(sentence.subrange(sentence.len() - most.len(), sentence.len() as int) =~= most);
        },
    }
}

} // verus!
