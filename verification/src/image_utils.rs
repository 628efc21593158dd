//! Resolving one remote image: the name of its cache file, the decoded pixel
//! buffer, and the steps from cache lookup to a settled result.

use crate::jpeg_frames::{is_lossless_jpeg, lossless_jpeg};
use crate::text::{chars_of, string_of};
use vstd::prelude::*;

verus! {

/// Where the last path segment of `url` starts: behind its last `'/'`, or at
/// the front if it has none.
pub open spec fn segment_start(url: Seq<char>) -> int
    decreases url.len(),
{
    if url.len() == 0 {
        0
    } else if url.last() == '/' {
        url.len() as int
    } else {
        segment_start(url.drop_last())
    }
}

/// The last path segment of `url`: what follows its last `'/'`.
pub open spec fn last_segment(url: Seq<char>) -> Seq<char> {
    url.subrange(segment_start(url), url.len() as int)
}

/// The last segment starts inside `url`, directly behind a `'/'` unless at
/// the front, and holds no `'/'` itself.
pub proof fn lemma_segment_start(url: Seq<char>)
    ensures
        0 <= segment_start(url) <= url.len(),
        segment_start(url) > 0 ==> url[segment_start(url) - 1] == '/',
        forall|i: int| segment_start(url) <= i < url.len() ==> url[i] != '/',
    decreases url.len(),
{
    if url.len() > 0 && url.last() != '/' {
        let front = url.drop_last();
        lemma_segment_start(front);
        assert forall|i: int| segment_start(url) <= i < url.len() implies url[i] != '/' by {
            if i < front.len() {
                assert(front[i] == url[i]);
            }
        }
        if segment_start(url) > 0 {
            assert(front[segment_start(front) - 1] == url[segment_start(url) - 1]);
        }
    }
}

/// The name of the cache file for the resource at `url`: the URL's last path
/// segment.
pub fn cache_file_name(url: &str) -> (name: String)
    ensures
        name@ == last_segment(url@),
        !name@.contains('/'),
{
    let chars = chars_of(url);
    let mut start: usize = 0;
    let mut i: usize = 0;
    while i < chars.len()
        invariant
            i <= chars.len(),
            start == segment_start(chars@.take(i as int)),
            start <= i,
        decreases chars.len() - i,
    {
        assert(chars@.take(i + 1).drop_last() =~= chars@.take(i as int));
        if chars[i] == '/' {
            start = i + 1;
        }
        i += 1;
    }
    assert(chars@.take(chars.len() as int) =~= chars@);
    let name = string_of(&chars, start, chars.len());
    proof {
        lemma_segment_start(url@);
        if name@.contains('/') {
            let j = choose|j: int| 0 <= j < name@.len() && name@[j] == '/';
            assert(url@[start + j] == '/');
        }
    }
    name
}

/// A decoded image as a value: its size and its samples.
pub struct PixelGrid {
    pub width: nat,
    pub height: nat,
    /// Four samples a pixel (red, green, blue, straight alpha), row by row.
    pub rgba: Seq<u8>,
}

/// A decoded image: RGBA8 samples in row-major order, four for each pixel.
#[derive(Debug)]
pub struct PixelBuffer {
    width: u32,
    height: u32,
    rgba: Vec<u8>,
}

impl View for PixelBuffer {
    type V = PixelGrid;

    closed spec fn view(&self) -> PixelGrid {
        PixelGrid { width: self.width as nat, height: self.height as nat, rgba: self.rgba@ }
    }
}

impl PixelBuffer {
    #[verifier::type_invariant]
    spec fn filled(self) -> bool {
        self.rgba.len() == 4 * self.width * self.height
    }

    /// The buffer of the given size over `rgba`, if `rgba` holds four samples
    /// for each pixel and no more.
    pub fn from_raw(width: u32, height: u32, rgba: Vec<u8>) -> (buffer: Option<PixelBuffer>)
        ensures
            buffer is Some <==> rgba.len() == 4 * width * height,
            buffer matches Some(b) ==> b@ == (PixelGrid {
                width: width as nat,
                height: height as nat,
                rgba: rgba@,
            }),
    {
        assert(0 <= width * height <= 0xffff_fffe_0000_0001 && 4 * width * height == 4 * (width
            * height)) by (nonlinear_arith)
            requires
                0 <= width <= 0xffff_ffff,
                0 <= height <= 0xffff_ffff,
        ;
        let pixels: u64 = (width as u64) * (height as u64);
        if pixels <= u64::MAX / 4 && (rgba.len() as u64) == 4 * pixels {
            Some(PixelBuffer { width, height, rgba })
        } else {
            None
        }
    }

    /// The number of pixels in a row.
    pub fn width(&self) -> (width: u32)
        ensures
            width == self@.width,
    {
        self.width
    }

    /// The number of rows.
    pub fn height(&self) -> (height: u32)
        ensures
            height == self@.height,
    {
        self.height
    }

    /// The samples, four for each pixel, row by row.
    pub fn as_raw(&self) -> (rgba: &Vec<u8>)
        ensures
            rgba@ == self@.rgba,
            rgba.len() == 4 * self@.width * self@.height,
    {
        proof {
            use_type_invariant(self);
        }
        &self.rgba
    }
}

/// Why bytes gave no pixel buffer.
#[derive(Clone, Copy, Debug, PartialEq, Eq, Structural)]
pub enum DecodeError {
    /// The decoder read no picture out of the bytes.
    Unrecognized,
    /// The bytes are a JPEG file with a lossless frame; such files are
    /// turned away before the decoder sees them.
    LosslessJpeg,
    /// The samples do not fill the size that came with them.
    Inconsistent,
}

/// Why a resource gave no pixel buffer in a round.
#[derive(Clone, Copy, Debug, PartialEq, Eq, Structural)]
pub enum FetchError {
    /// The network gave no bytes for the resource.
    Unavailable,
    /// The resolved bytes could not be decoded.
    Undecodable(DecodeError),
}

/// Calls `image::load_from_memory` on the bytes and hands out the picture's
/// `width()`, `height()` and `to_rgba8().into_raw()`; a refusal by the
/// decoder comes out as `None`. Trusted: the samples are four for each pixel
/// of the size handed out. Nothing else is claimed of the outcome: the
/// samples of a JPEG file depend on the machine that decodes it. On a JPEG
/// file with a lossless frame the decoder can panic, so `requires` leaves
/// those out. The decoder takes the first frame header that it meets for the
/// file's, and meets it as `first_frame` does: behind the start-of-image
/// marker it passes over what stands before a marker, and over tables, the
/// restart interval, comments and application data by their lengths; any
/// other marker before the frame, a short length or the end of the bytes
/// makes it refuse. It decodes lossless only where that frame has the code
/// `0xC3`. The decoder refuses a picture of more than 512 MiB, so its RGBA8
/// form fits a vector where addresses have 64 bits.
#[verifier::external_body]
fn decode_rgba(encoded: &Vec<u8>) -> (raw: Option<(u32, u32, Vec<u8>)>)
    requires
        !lossless_jpeg(encoded@),
    ensures
        raw matches Some((width, height, rgba)) ==> rgba.len() == 4 * width * height,
{
    match image::load_from_memory(encoded.as_slice()) {
        Ok(picture) => Some((picture.width(), picture.height(), picture.to_rgba8().into_raw())),
        Err(_) => None,
    }
}

/// The pixel buffer that a decoder's raw result stands for.
pub open spec fn decode_outcome(raw: Option<(u32, u32, Seq<u8>)>) -> Result<
    PixelGrid,
    DecodeError,
> {
    match raw {
        None => Err(DecodeError::Unrecognized),
        Some((width, height, rgba)) => if rgba.len() == 4 * width * height {
            Ok(PixelGrid { width: width as nat, height: height as nat, rgba })
        } else {
            Err(DecodeError::Inconsistent)
        },
    }
}

/// Whether `result` is `expected`, the buffer taken by its view.
pub open spec fn decoded_as(
    result: Result<PixelBuffer, DecodeError>,
    expected: Result<PixelGrid, DecodeError>,
) -> bool {
    match result {
        Ok(buffer) => expected == Ok::<PixelGrid, DecodeError>(buffer@),
        Err(e) => expected == Err::<PixelGrid, DecodeError>(e),
    }
}

/// Turns a decoder's raw result into a pixel buffer, checking that the
/// samples fill the reported size.
pub fn pixel_buffer_from_raw(raw: Option<(u32, u32, Vec<u8>)>) -> (result: Result<
    PixelBuffer,
    DecodeError,
>)
    ensures
        decoded_as(
            result,
            decode_outcome(
                match raw {
                    Some((width, height, rgba)) => Some((width, height, rgba@)),
                    None => None,
                },
            ),
        ),
{
    match raw {
        None => Err(DecodeError::Unrecognized),
        Some((width, height, rgba)) => match PixelBuffer::from_raw(width, height, rgba) {
            Some(buffer) => Ok(buffer),
            None => Err(DecodeError::Inconsistent),
        },
    }
}

/// What holds of every decoding of `encoded`: a JPEG file with a lossless
/// frame is turned away as such; of other bytes the decoder makes a pixel
/// buffer or reads no picture.
pub open spec fn decoded_from(
    encoded: Seq<u8>,
    result: Result<PixelBuffer, DecodeError>,
) -> bool {
    if lossless_jpeg(encoded) {
        result == Err::<PixelBuffer, DecodeError>(DecodeError::LosslessJpeg)
    } else {
        result is Ok || result == Err::<PixelBuffer, DecodeError>(DecodeError::Unrecognized)
    }
}

/// Decodes encoded image bytes (PNG or JPEG) into a pixel buffer. Which
/// pixels come out is the decoder's matter; `pixel_buffer_from_raw` says
/// what becomes of what the decoder hands out.
pub fn decode(encoded: &Vec<u8>) -> (result: Result<PixelBuffer, DecodeError>)
    ensures
        decoded_from(encoded@, result),
{
    if is_lossless_jpeg(encoded) {
        Err(DecodeError::LosslessJpeg)
    } else {
        pixel_buffer_from_raw(decode_rgba(encoded))
    }
}

/// Why image bytes could not be brought into PNG form.
#[derive(Clone, Copy, Debug, PartialEq, Eq, Structural)]
pub enum ImageError {
    /// The bytes could not be decoded.
    Decoding(DecodeError),
    /// The decoded picture could not be written as PNG.
    Encoding,
}

/// The PNG file that the `image` crate writes for an RGBA8 picture of the
/// given size, or nothing where it refuses.
pub uninterp spec fn png_encoding(width: u32, height: u32, rgba: Seq<u8>) -> Option<Seq<u8>>;

/// Calls `image::codecs::png::PngEncoder::new` on an empty vector and then
/// `write_image` with the samples, the size and `ColorType::Rgba8`. Trusted:
/// what is written is a function of the size and the samples alone, named
/// `png_encoding`; an error of the encoder comes out as `None`. The encoder
/// panics unless the samples fill the size, which `requires` rules out.
#[verifier::external_body]
fn encode_png(width: u32, height: u32, rgba: &Vec<u8>) -> (png: Option<Vec<u8>>)
    requires
        rgba.len() == 4 * width * height,
    ensures
        match png {
            Some(bytes) => png_encoding(width, height, rgba@) == Some(bytes@),
            None => png_encoding(width, height, rgba@) is None,
        },
{
    let mut file: Vec<u8> = Vec::new();
    let encoder = image::codecs::png::PngEncoder::new(&mut file);
    match image::ImageEncoder::write_image(
        encoder,
        rgba.as_slice(),
        width,
        height,
        image::ColorType::Rgba8,
    ) {
        Ok(()) => Some(file),
        Err(_) => None,
    }
}

/// Writes a pixel buffer as a PNG file.
pub fn encode_pixel_buffer(buffer: &PixelBuffer) -> (result: Result<Vec<u8>, ImageError>)
    ensures
        match result {
            Ok(png) => png_encoding(buffer@.width as u32, buffer@.height as u32, buffer@.rgba)
                == Some(png@),
            Err(e) => e == ImageError::Encoding && png_encoding(
                buffer@.width as u32,
                buffer@.height as u32,
                buffer@.rgba,
            ) is None,
        },
{
    match encode_png(buffer.width(), buffer.height(), buffer.as_raw()) {
        Some(png) => Ok(png),
        None => Err(ImageError::Encoding),
    }
}

/// Brings encoded image bytes into PNG form: decodes them and writes the
/// pixels as an RGBA8 PNG file. The file is what `encode_pixel_buffer` gives
/// for the pixels that the decoder made of the bytes.
pub fn encode_image(image_data: &Vec<u8>) -> (result: Result<Vec<u8>, ImageError>)
    ensures
        lossless_jpeg(image_data@) ==> result == Err::<Vec<u8>, ImageError>(
            ImageError::Decoding(DecodeError::LosslessJpeg),
        ),
        !lossless_jpeg(image_data@) ==> match result {
            Ok(png) => exists|width: u32, height: u32, rgba: Seq<u8>|
                rgba.len() == 4 * width * height && #[trigger] png_encoding(width, height, rgba)
                    == Some(png@),
            Err(e) => e == ImageError::Decoding(DecodeError::Unrecognized) || e
                == ImageError::Encoding,
        },
{
    match decode(image_data) {
        Err(e) => Err(ImageError::Decoding(e)),
        Ok(buffer) => {
            let width = buffer.width();
            let height = buffer.height();
            let samples = buffer.as_raw();
            let result = encode_pixel_buffer(&buffer);
            proof {
                if result is Ok {
                    assert(samples@.len() == 4 * width * height);
                    assert(png_encoding(width, height, samples@) == Some(result->Ok_0@));
                }
            }
            result
        },
    }
}

/// How far the resolution of one resource has come.
#[derive(Clone, Copy, Debug, PartialEq, Eq, Structural)]
pub enum ResolveState {
    /// The byte cache has been asked and has not answered yet.
    AwaitingCache,
    /// The network has been asked and has not answered yet.
    AwaitingNetwork,
    /// The resource is resolved or given up for this round.
    Settled,
}

/// What the byte cache or the network answered.
#[derive(Debug)]
pub enum ResolveEvent {
    /// The byte cache holds these bytes for the resource.
    CacheHit(Vec<u8>),
    /// The byte cache holds nothing readable for the resource.
    CacheMiss,
    /// The network delivered these bytes.
    Fetched(Vec<u8>),
    /// The network delivered nothing.
    FetchFailed,
}

/// What is to be done next for a resource.
#[derive(Debug)]
pub enum ResolveAction {
    /// Look the file of this name up in the byte cache.
    Lookup(String),
    /// Get the resource from the network.
    Fetch,
    /// The resource is settled: write `store`, if any, to the byte cache (a
    /// failure to do so is not fatal) and hand on `outcome`.
    Finish { store: Option<Vec<u8>>, outcome: Result<PixelBuffer, FetchError> },
    /// The event did not answer what was asked; nothing is to be done.
    Ignore,
}

/// What holds of the outcome for resolved bytes, whatever the decoder made
/// of them: a JPEG file with a lossless frame is given up as such; other
/// bytes give a pixel buffer or are given up as unrecognized. The network is
/// never blamed.
pub open spec fn settled_from(
    encoded: Seq<u8>,
    outcome: Result<PixelBuffer, FetchError>,
) -> bool {
    if lossless_jpeg(encoded) {
        outcome == Err::<PixelBuffer, FetchError>(
            FetchError::Undecodable(DecodeError::LosslessJpeg),
        )
    } else {
        outcome is Ok || outcome == Err::<PixelBuffer, FetchError>(
            FetchError::Undecodable(DecodeError::Unrecognized),
        )
    }
}

/// Starts the resolution of the resource at `url`: the byte cache is to be
/// asked for the file named by the URL's last path segment.
pub fn begin_load(url: &str) -> (step: (ResolveState, ResolveAction))
    ensures
        step.0 == ResolveState::AwaitingCache,
        step.1 matches ResolveAction::Lookup(name) && name@ == last_segment(url@),
{
    (ResolveState::AwaitingCache, ResolveAction::Lookup(cache_file_name(url)))
}

/// Settles a resource whose bytes have been decoded: `store`, if any, is to
/// be written to the byte cache, and the decoder's result is handed on, a
/// failure as `Undecodable`.
pub fn settle(decoded: Result<PixelBuffer, DecodeError>, store: Option<Vec<u8>>) -> (action:
    ResolveAction)
    ensures
        action == (ResolveAction::Finish {
            store,
            outcome: match decoded {
                Ok(buffer) => Ok(buffer),
                Err(e) => Err(FetchError::Undecodable(e)),
            },
        }),
{
    let outcome = match decoded {
        Ok(buffer) => Ok(buffer),
        Err(e) => Err(FetchError::Undecodable(e)),
    };
    ResolveAction::Finish { store, outcome }
}

/// Takes the resolution of one resource one step further.
///
/// Bytes from the byte cache are decoded as they are, and the network is not
/// asked. On a miss the network is asked; what it delivers is decoded and is
/// to be stored in the byte cache, whether or not it decodes. Where the
/// network delivers nothing the resource is given up for this round. An event
/// that does not answer what `state` waits for changes nothing. What the
/// decoder makes of the bytes is handed on as `settle` says.
pub fn load_image(state: ResolveState, event: ResolveEvent) -> (step: (
    ResolveState,
    ResolveAction,
))
    ensures
        match (state, event) {
            (ResolveState::AwaitingCache, ResolveEvent::CacheHit(bytes)) => {
                &&& step.0 == ResolveState::Settled
                &&& step.1 matches ResolveAction::Finish { store, outcome } && store is None
                    && settled_from(bytes@, outcome)
            },
            (ResolveState::AwaitingCache, ResolveEvent::CacheMiss) => {
                &&& step.0 == ResolveState::AwaitingNetwork
                &&& step.1 is Fetch
            },
            (ResolveState::AwaitingNetwork, ResolveEvent::Fetched(bytes)) => {
                &&& step.0 == ResolveState::Settled
                &&& step.1 matches ResolveAction::Finish { store, outcome } && store == Some(bytes)
                    && settled_from(bytes@, outcome)
            },
            (ResolveState::AwaitingNetwork, ResolveEvent::FetchFailed) => {
                &&& step.0 == ResolveState::Settled
                &&& step.1 == (ResolveAction::Finish {
                    store: None,
                    outcome: Err(FetchError::Unavailable),
                })
            },
            _ => step.0 == state && step.1 is Ignore,
        },
        event is CacheHit ==> !(step.1 is Fetch),
        step.1 is Fetch ==> state == ResolveState::AwaitingCache && event is CacheMiss,
{
    match state {
        ResolveState::AwaitingCache => match event {
            ResolveEvent::CacheHit(bytes) => {
                let decoded = decode(&bytes);
                (ResolveState::Settled, settle(decoded, None))
            },
            ResolveEvent::CacheMiss => (ResolveState::AwaitingNetwork, ResolveAction::Fetch),
            _ => (state, ResolveAction::Ignore),
        },
        ResolveState::AwaitingNetwork => match event {
            ResolveEvent::Fetched(bytes) => {
                let decoded = decode(&bytes);
                (ResolveState::Settled, settle(decoded, Some(bytes)))
            },
            ResolveEvent::FetchFailed => (
                ResolveState::Settled,
                ResolveAction::Finish { store: None, outcome: Err(FetchError::Unavailable) },
            ),
            _ => (state, ResolveAction::Ignore),
        },
        ResolveState::Settled => (state, ResolveAction::Ignore),
    }
}

/// An entry of the cache directory.
#[derive(Debug)]
pub struct CacheDirEntry {
    /// The entry's file name.
    pub name: String,
    /// Whether the entry is a regular file.
    pub is_file: bool,
}

/// The names of the regular files among `entries`, in their order.
pub open spec fn regular_files(entries: Seq<CacheDirEntry>) -> Seq<Seq<char>> {
    entries.filter_map(
        |e: CacheDirEntry|
            if e.is_file {
                Some(e.name@)
            } else {
                None
            },
    )
}

/// Says which entries of the cache directory a clearing of the cache is to
/// remove: every regular file directly in it, and nothing else.
pub fn clear_cache(entries: &Vec<CacheDirEntry>) -> (doomed: Vec<String>)
    ensures
        doomed.deep_view() == regular_files(entries@),
{
    let mut doomed: Vec<String> = Vec::new();
    let mut i: usize = 0;
    while i < entries.len()
        invariant
            i <= entries.len(),
            doomed.deep_view() == regular_files(entries@.take(i as int)),
        decreases entries.len() - i,
    {
        let ghost pick = |e: CacheDirEntry|
            if e.is_file {
                Some(e.name@)
            } else {
                None
            };
        proof {
            entries@.lemma_filter_map_take_succ(pick, i as int);
        }
        if entries[i].is_file {
            let ghost before = doomed.deep_view();
            doomed.push(entries[i].name.clone());
            assert(doomed.deep_view() =~= before + seq![entries@[i as int].name@]);
        }
        i += 1;
    }
    assert(entries@.take(entries.len() as int) =~= entries@);
    doomed
}

} // verus!
