//! Decoding of uploaded payloads: the data-URL framing of an uploaded image,
//! base64, and the raster of little-endian single-precision samples that a
//! correction delta carries. Samples are held as their bit patterns.

use crate::schema::CorrectionPatternDeltas;
use crate::text::chars_of;
use vstd::prelude::*;
use vstd::string::*;

verus! {

/// The error of the base64 decoder.
#[verifier::external_type_specification]
#[verifier::external_body]
pub struct ExDecodeError(base64::DecodeError);

/// What decoding `text` as standard base64 gives: the bytes, or `None` where
/// the decoder rejects the text.
pub uninterp spec fn base64_decoding(text: Seq<char>) -> Option<Seq<u8>>;

/// Calls `base64::decode`, which decodes with the standard alphabet and
/// padding. The contract names the outcome: the bytes returned are the
/// decoding of the text, and an error means that the text has none.
#[verifier::external_body]
fn decode_base64(text: &str) -> (decoded: Result<Vec<u8>, base64::DecodeError>)
    ensures
        match decoded {
            Ok(bytes) => base64_decoding(text@) == Some(bytes@),
            Err(_) => base64_decoding(text@) is None,
        },
{
    base64::decode(text)
}

/// `pattern` stands in `s` at `i`.
pub open spec fn matches_at(s: Seq<char>, pattern: Seq<char>, i: int) -> bool {
    &&& 0 <= i
    &&& i + pattern.len() <= s.len()
    &&& s.subrange(i, i + pattern.len()) == pattern
}

/// `i` is the first place at or behind `from` at which `pattern` stands in
/// `s`.
pub open spec fn is_first_match(s: Seq<char>, pattern: Seq<char>, from: int, i: int) -> bool {
    &&& from <= i
    &&& matches_at(s, pattern, i)
    &&& forall|j: int| from <= j < i ==> !matches_at(s, pattern, j)
}

/// Whether `pattern` stands in `s` at or behind `from`.
pub open spec fn has_match(s: Seq<char>, pattern: Seq<char>, from: int) -> bool {
    exists|i: int| is_first_match(s, pattern, from, i)
}

/// The first place at or behind `from` at which `pattern` stands in `s`,
/// where there is one.
pub open spec fn first_match(s: Seq<char>, pattern: Seq<char>, from: int) -> int {
    choose|i: int| is_first_match(s, pattern, from, i)
}

fn stands_at(s: &Vec<char>, pattern: &Vec<char>, i: usize) -> (yes: bool)
    requires
        i + pattern@.len() <= s@.len(),
    ensures
        yes == matches_at(s@, pattern@, i as int),
{
    let n: usize = s.len();
    let mut k: usize = 0;
    while k < pattern.len()
        invariant
            n == s@.len(),
            i + pattern@.len() <= s@.len(),
            k <= pattern@.len(),
            forall|j: int| 0 <= j < k ==> s@[i + j] == pattern@[j],
        decreases pattern@.len() - k,
    {
        if s[i + k] != pattern[k] {
            assert(s@.subrange(i as int, i + pattern@.len())[k as int] != pattern@[k as int]);
            return false;
        }
        k += 1;
    }
    assert(s@.subrange(i as int, i + pattern@.len()) =~= pattern@);
    true
}

/// Finds the first place at or behind `from` at which `pattern` stands in
/// `s`.
pub fn find(s: &Vec<char>, pattern: &Vec<char>, from: usize) -> (found: Option<usize>)
    ensures
        match found {
            Some(i) => is_first_match(s@, pattern@, from as int, i as int) && first_match(
                s@,
                pattern@,
                from as int,
            ) == i,
            None => !has_match(s@, pattern@, from as int),
        },
{
    if pattern.len() > s.len() {
        assert forall|i: int| !is_first_match(s@, pattern@, from as int, i) by {}
        return None;
    }
    let last: usize = s.len() - pattern.len();
    let mut i: usize = from;
    while i <= last
        invariant
            last == s@.len() - pattern@.len(),
            from <= i,
            forall|j: int| from <= j < i ==> !matches_at(s@, pattern@, j),
        ensures
            forall|j: int| from <= j <= last ==> !matches_at(s@, pattern@, j),
        decreases last - i,
    {
        if stands_at(s, pattern, i) {
            proof {
                let c = first_match(s@, pattern@, from as int);
                assert(is_first_match(s@, pattern@, from as int, i as int));
                assert(is_first_match(s@, pattern@, from as int, c));
                if c < i {
                    assert(!matches_at(s@, pattern@, c));
                } else if i < c {
                    assert(!matches_at(s@, pattern@, i as int));
                }
            }
            return Some(i);
        }
        if i == last {
            break ;
        }
        i += 1;
    }
    assert forall|k: int| !is_first_match(s@, pattern@, from as int, k) by {
        if from <= k && k + pattern@.len() <= s@.len() {
            assert(!matches_at(s@, pattern@, k));
        }
    }
    None
}

/// What lies in `s` between `from` and the next occurrence of `pattern`, or
/// the end where there is none.
pub open spec fn piece_from(s: Seq<char>, pattern: Seq<char>, from: int) -> Seq<char> {
    if has_match(s, pattern, from) {
        s.subrange(from, first_match(s, pattern, from))
    } else {
        s.skip(from)
    }
}

/// Why an uploaded image was not accepted.
#[derive(Debug, Clone, Copy, PartialEq, Eq)]
pub enum ImageDataError {
    /// The payload has no `;base64,` and so no body.
    MissingBody,
    /// The header has no slash and so names no extension.
    MissingExtension,
    /// The body is not base64.
    Encoding,
}

/// The mark between the header and the body of an uploaded image.
pub open spec fn body_mark() -> Seq<char> {
    ";base64,"@
}

/// The extension and the body of an uploaded image. The header is what
/// stands in front of the first mark, the body what stands between the first
/// mark and the second, or the end; the extension is what stands in the
/// header between the first slash and the second, or the end.
pub open spec fn image_parts_of(data: Seq<char>) -> Result<(Seq<char>, Seq<char>), ImageDataError> {
    if !has_match(data, body_mark(), 0) {
        Err(ImageDataError::MissingBody)
    } else {
        let p = first_match(data, body_mark(), 0);
        let header = data.take(p);
        if !has_match(header, "/"@, 0) {
            Err(ImageDataError::MissingExtension)
        } else {
            Ok(
                (
                    piece_from(header, "/"@, first_match(header, "/"@, 0) + 1),
                    piece_from(data, body_mark(), p + body_mark().len()),
                ),
            )
        }
    }
}

fn piece(text: &str, s: &Vec<char>, pattern: &Vec<char>, from: usize) -> (part: String)
    requires
        s@ == text@,
        from <= s@.len(),
    ensures
        part@ == piece_from(text@, pattern@, from as int),
{
    match find(s, pattern, from) {
        Some(end) => String::from_str(text.substring_char(from, end)),
        None => {
            let part: String = String::from_str(text.substring_char(from, s.len()));
            assert(text@.subrange(from as int, s@.len() as int) =~= text@.skip(from as int));
            part
        },
    }
}

/// Splits the payload of an uploaded image into the extension and the
/// base64 body.
pub fn split_image_data(data: &str) -> (parts: Result<(String, String), ImageDataError>)
    ensures
        match parts {
            Ok((extension, body)) => image_parts_of(data@) == Ok::<
                (Seq<char>, Seq<char>),
                ImageDataError,
            >((extension@, body@)),
            Err(e) => image_parts_of(data@) == Err::<(Seq<char>, Seq<char>), ImageDataError>(e),
        },
{
    proof {
        reveal_strlit("/");
        reveal_strlit(";base64,");
    }
    let s: Vec<char> = chars_of(data);
    let mark: Vec<char> = chars_of(";base64,");
    let slash: Vec<char> = chars_of("/");
    match find(&s, &mark, 0) {
        None => Err(ImageDataError::MissingBody),
        Some(p) => {
            let header: &str = data.substring_char(0, p);
            assert(header@ =~= data@.take(p as int));
            let h: Vec<char> = chars_of(header);
            match find(&h, &slash, 0) {
                None => Err(ImageDataError::MissingExtension),
                Some(q) => {
                    let extension: String = piece(header, &h, &slash, q + 1);
                    let total: usize = s.len();
                    assert(matches_at(s@, mark@, p as int));
                    assert(p + mark@.len() <= total);
                    let body: String = piece(data, &s, &mark, p + mark.len());
                    Ok((extension, body))
                },
            }
        },
    }
}

/// An uploaded image: the extension under which it is stored, and its
/// bytes.
#[derive(Debug, Clone, PartialEq, Eq)]
pub struct ImageData {
    pub extension: String,
    pub bytes: Vec<u8>,
}

/// What an uploaded image holds, given what its body decodes to.
pub open spec fn image_of(data: Seq<char>) -> Result<(Seq<char>, Seq<u8>), ImageDataError> {
    match image_parts_of(data) {
        Err(e) => Err(e),
        Ok((extension, body)) => match base64_decoding(body) {
            None => Err(ImageDataError::Encoding),
            Some(bytes) => Ok((extension, bytes)),
        },
    }
}

/// The image from its parts and the outcome of decoding its body.
pub fn image_from_parts(extension: String, decoded: Option<Vec<u8>>) -> (image: Result<
    ImageData,
    ImageDataError,
>)
    ensures
        match decoded {
            Some(bytes) => image == Ok::<ImageData, ImageDataError>(
                ImageData { extension, bytes },
            ),
            None => image == Err::<ImageData, ImageDataError>(ImageDataError::Encoding),
        },
{
    match decoded {
        Some(bytes) => Ok(ImageData { extension, bytes }),
        None => Err(ImageDataError::Encoding),
    }
}

/// Decodes the payload of an uploaded image.
pub fn decode_image_data(data: &str) -> (image: Result<ImageData, ImageDataError>)
    ensures
        match image {
            Ok(i) => image_of(data@) == Ok::<(Seq<char>, Seq<u8>), ImageDataError>(
                (i.extension@, i.bytes@),
            ),
            Err(e) => image_of(data@) == Err::<(Seq<char>, Seq<u8>), ImageDataError>(e),
        },
{
    match split_image_data(data) {
        Err(e) => Err(e),
        Ok((extension, body)) => {
            let decoded: Option<Vec<u8>> = match decode_base64(body.as_str()) {
                Ok(bytes) => Some(bytes),
                Err(_) => None,
            };
            image_from_parts(extension, decoded)
        },
    }
}

/// The number that four bytes spell, the lowest byte first.
pub open spec fn le_word(b0: u8, b1: u8, b2: u8, b3: u8) -> int {
    b0 + 256 * b1 + 65536 * b2 + 16777216 * b3
}

/// The samples that a run of bytes spells, four bytes each; bytes left over
/// at the end are dropped.
pub open spec fn le_samples(bytes: Seq<u8>) -> Seq<u32> {
    Seq::new(
        (bytes.len() / 4) as nat,
        |i: int| le_word(bytes[4 * i], bytes[4 * i + 1], bytes[4 * i + 2], bytes[4 * i + 3]) as u32,
    )
}

/// The four bytes of sample `i / 4`, one after the other.
pub open spec fn le_byte(samples: Seq<u32>, i: int) -> u8 {
    let word = samples[i / 4];
    if i % 4 == 0 {
        (word % 256) as u8
    } else if i % 4 == 1 {
        (word / 256 % 256) as u8
    } else if i % 4 == 2 {
        (word / 65536 % 256) as u8
    } else {
        (word / 16777216) as u8
    }
}

/// The bytes that spell a run of samples, the lowest byte of each first.
pub open spec fn le_bytes(samples: Seq<u32>) -> Seq<u8> {
    Seq::new(4 * samples.len(), |i: int| le_byte(samples, i))
}

/// Spelling samples as bytes and reading the bytes back gives the samples,
/// bit for bit.
pub proof fn lemma_samples_round_trip(samples: Seq<u32>)
    ensures
        le_samples(le_bytes(samples)) == samples,
{
    let bytes = le_bytes(samples);
    assert(bytes.len() / 4 == samples.len());
    assert forall|i: int| 0 <= i < samples.len() implies le_samples(bytes)[i] == samples[i] by {
        let w = samples[i];
        assert((4 * i) / 4 == i && (4 * i) % 4 == 0);
        assert((4 * i + 1) / 4 == i && (4 * i + 1) % 4 == 1);
        assert((4 * i + 2) / 4 == i && (4 * i + 2) % 4 == 2);
        assert((4 * i + 3) / 4 == i && (4 * i + 3) % 4 == 3);
        assert(bytes[4 * i] == (w % 256) as u8);
        assert(bytes[4 * i + 1] == (w / 256 % 256) as u8);
        assert(bytes[4 * i + 2] == (w / 65536 % 256) as u8);
        assert(bytes[4 * i + 3] == (w / 16777216) as u8);
        assert(w % 256 + 256 * (w / 256 % 256) + 65536 * (w / 65536 % 256) + 16777216 * (w
            / 16777216) == w);
    }
    assert(le_samples(bytes) =~= samples);
}

/// Reads the samples that a run of bytes spells.
pub fn samples_from_le_bytes(bytes: &Vec<u8>) -> (samples: Vec<u32>)
    ensures
        samples@ == le_samples(bytes@),
{
    let total: usize = bytes.len();
    let count: usize = total / 4;
    let mut samples: Vec<u32> = Vec::new();
    let mut i: usize = 0;
    while i < count
        invariant
            total == bytes@.len(),
            count == bytes@.len() / 4,
            i <= count,
            samples@.len() == i,
            forall|j: int| 0 <= j < i ==> samples@[j] == le_samples(bytes@)[j],
        decreases count - i,
    {
        assert(4 * i + 3 < bytes@.len());
        let b0: u32 = bytes[4 * i] as u32;
        let b1: u32 = bytes[4 * i + 1] as u32;
        let b2: u32 = bytes[4 * i + 2] as u32;
        let b3: u32 = bytes[4 * i + 3] as u32;
        samples.push(b0 + 256 * b1 + 65536 * b2 + 16777216 * b3);
        i += 1;
    }
    assert(samples@ =~= le_samples(bytes@));
    samples
}

/// A raster of samples, row by row.
#[derive(Debug, Clone, PartialEq, Eq)]
pub struct Raster {
    pub shape: [usize; 2],
    pub samples: Vec<u32>,
}

impl Raster {
    /// The raster holds one sample for each place of its shape.
    pub open spec fn wf(&self) -> bool {
        self.samples@.len() == self.shape[0] * self.shape[1]
    }
}

/// Why a correction delta was not accepted.
#[derive(Debug, Clone, Copy, PartialEq, Eq)]
pub enum RasterError {
    /// The image data is not base64.
    Encoding,
    /// The number of samples is not that of the shape.
    Shape,
}

/// The raster of a shape from the bytes of its samples: there is one exactly
/// where the bytes spell as many samples as the shape has places.
pub fn raster_from_bytes(bytes: &Vec<u8>, shape: [usize; 2]) -> (raster: Result<
    Raster,
    RasterError,
>)
    ensures
        match raster {
            Ok(r) => r.shape == shape && r.samples@ == le_samples(bytes@) && r.wf(),
            Err(e) => e == RasterError::Shape,
        },
        raster is Ok <==> le_samples(bytes@).len() == shape[0] * shape[1],
{
    let samples: Vec<u32> = samples_from_le_bytes(bytes);
    let count: usize = samples.len();
    match shape[0].checked_mul(shape[1]) {
        Some(places) => {
            if places == count {
                Ok(Raster { shape, samples })
            } else {
                Err(RasterError::Shape)
            }
        },
        None => Err(RasterError::Shape),
    }
}

/// The raster from the outcome of decoding the image data of a delta.
pub fn raster_from_decoded(decoded: Option<Vec<u8>>, shape: [usize; 2]) -> (raster: Result<
    Raster,
    RasterError,
>)
    ensures
        match decoded {
            None => raster == Err::<Raster, RasterError>(RasterError::Encoding),
            Some(bytes) => match raster {
                Ok(r) => r.shape == shape && r.samples@ == le_samples(bytes@) && r.wf(),
                Err(e) => e == RasterError::Shape && le_samples(bytes@).len() != shape[0]
                    * shape[1],
            },
        },
        decoded matches Some(bytes) && le_samples(bytes@).len() == shape[0] * shape[1]
            ==> raster is Ok,
{
    match decoded {
        None => Err(RasterError::Encoding),
        Some(bytes) => raster_from_bytes(&bytes, shape),
    }
}

/// Decodes the raster of a correction delta: base64, then little-endian
/// samples, row by row in the given shape.
pub fn decode_raster(deltas: &CorrectionPatternDeltas) -> (raster: Result<Raster, RasterError>)
    ensures
        match base64_decoding(deltas.imagedata@) {
            None => raster == Err::<Raster, RasterError>(RasterError::Encoding),
            Some(bytes) => match raster {
                Ok(r) => r.shape == deltas.shape_xy && r.samples@ == le_samples(bytes) && r.wf(),
                Err(e) => e == RasterError::Shape && le_samples(bytes).len()
                    != deltas.shape_xy[0] * deltas.shape_xy[1],
            },
        },
{
    let decoded: Option<Vec<u8>> = match decode_base64(deltas.imagedata.as_str()) {
        Ok(bytes) => Some(bytes),
        Err(_) => None,
    };
    raster_from_decoded(decoded, deltas.shape_xy)
}

} // verus!
