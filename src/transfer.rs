use vstd::prelude::*;

use ndarray::{Array3, ArrayView3};
use ndarray_npy::{ViewNpyError, ViewNpyExt, WriteNpyError, WriteNpyExt};

use crate::image::{fits_grid, ImageData, ImageKind};

verus! {

#[verifier::external_type_specification]
#[verifier::external_body]
pub struct ExWriteNpyError(WriteNpyError);

#[verifier::external_type_specification]
#[verifier::external_body]
pub struct ExViewNpyError(ViewNpyError);

/// Why an image could not be handed over or taken in.
#[derive(Clone, Copy, Debug, PartialEq, Eq, Structural)]
pub enum TransferError {
    /// The array's elements are not unsigned bytes.
    WrongElementType,
    /// The array has neither two nor three dimensions.
    WrongDimensions,
    /// The array has neither one nor three channels.
    WrongChannels,
    /// The array has no rows or no columns.
    EmptyImage,
    /// The sample count differs from what the shape announces.
    LengthMismatch,
    /// The bytes are not a `.npy` array of unsigned bytes with three dimensions.
    Undecodable,
    /// Temporary storage could not be created or written.
    ResourceUnavailable,
    /// The viewer could not be started.
    LaunchFailed,
}

impl TransferError {
    pub open spec fn is_invalid_input_spec(&self) -> bool {
        !(self is ResourceUnavailable || self is LaunchFailed)
    }

    /// Whether the fault lies in the data handed over rather than in the
    /// environment.
    pub fn is_invalid_input(&self) -> (r: bool)
        ensures
            r == self.is_invalid_input_spec(),
    {
        match self {
            TransferError::ResourceUnavailable => false,
            TransferError::LaunchFailed => false,
            _ => true,
        }
    }
}

/// An array offered by a producer: its shape, whether its elements are
/// unsigned bytes, and its samples in row-major order.
pub struct ArrayInput {
    pub shape: Vec<usize>,
    pub is_u8: bool,
    pub data: Vec<u8>,
}

/// `(height, width, channels)` of an acceptable array, or why it is refused.
/// A two-dimensional array counts as one channel.
pub open spec fn array_verdict(shape: Seq<usize>, is_u8: bool, len: nat) -> Result<
    (usize, usize, usize),
    TransferError,
> {
    if !is_u8 {
        Err(TransferError::WrongElementType)
    } else if shape.len() != 2 && shape.len() != 3 {
        Err(TransferError::WrongDimensions)
    } else {
        let c: usize = if shape.len() == 2 {
            1
        } else {
            shape[2]
        };
        if c != 1 && c != 3 {
            Err(TransferError::WrongChannels)
        } else if shape[0] == 0 || shape[1] == 0 {
            Err(TransferError::EmptyImage)
        } else if len != shape[0] * shape[1] * c {
            Err(TransferError::LengthMismatch)
        } else {
            Ok((shape[0], shape[1], c))
        }
    }
}

/// `array_verdict` of an offered array.
pub open spec fn verdict_of(a: ArrayInput) -> Result<(usize, usize, usize), TransferError> {
    array_verdict(a.shape@, a.is_u8, a.data@.len())
}

/// The `.npy` bytes of a standard-layout array of unsigned bytes with shape
/// `(height, width, channels)` and these samples.
pub uninterp spec fn npy_u8_bytes(height: usize, width: usize, channels: usize, data: Seq<u8>) -> Seq<u8>;

/// What a `.npy` file in memory holds when it is a three-dimensional array of
/// unsigned bytes: its shape and its samples in row-major order.
pub uninterp spec fn npy_u8_view(bytes: Seq<u8>) -> Option<(usize, usize, usize, Seq<u8>)>;

/// First byte of the `.npy` magic string `\x93NUMPY`, then the rest.
pub const NPY_MAGIC_0: u8 = 0x93;

pub const NPY_MAGIC_N: u8 = 78;

pub const NPY_MAGIC_U: u8 = 85;

pub const NPY_MAGIC_M: u8 = 77;

pub const NPY_MAGIC_P: u8 = 80;

pub const NPY_MAGIC_Y: u8 = 89;

/// The bytes start with the `.npy` magic string.
pub open spec fn npy_magic(b: Seq<u8>) -> bool {
    &&& b.len() >= 6
    &&& b[0] == NPY_MAGIC_0
    &&& b[1] == NPY_MAGIC_N
    &&& b[2] == NPY_MAGIC_U
    &&& b[3] == NPY_MAGIC_M
    &&& b[4] == NPY_MAGIC_P
    &&& b[5] == NPY_MAGIC_Y
}

/// Where the samples start, when the preamble names format version 1.0
/// (two length bytes) or 2.0 / 3.0 (four), all little-endian; `None` for any
/// other preamble.
pub open spec fn npy_data_offset(b: Seq<u8>) -> Option<int> {
    if npy_magic(b) && b.len() >= 10 && b[6] == 1 && b[7] == 0 {
        Some(10 + b[8] + 256 * b[9])
    } else if npy_magic(b) && b.len() >= 12 && (b[6] == 2 || b[6] == 3) && b[7] == 0 {
        Some(12 + b[8] + 256 * b[9] + 65536 * b[10] + 16777216 * b[11])
    } else {
        None
    }
}

/// Some byte follows the header, or the preamble is not one of a `.npy` file.
pub open spec fn npy_payload_present(b: Seq<u8>) -> bool {
    match npy_data_offset(b) {
        Some(o) => o < b.len(),
        None => true,
    }
}

/// Largest number of opening brackets (`(`, `[`, `{`) taken in a header.
/// The header is parsed recursively, and with backtracking between a dict
/// and a set, so its nesting has to stay small; a header as written holds
/// one `{` and one `(`.
pub const MAX_HEADER_OPENINGS: u64 = 8;

pub open spec fn is_opening(c: u8) -> bool {
    c == 40 || c == 91 || c == 123
}

/// Number of opening brackets in `s`.
pub open spec fn openings(s: Seq<u8>) -> nat
    decreases s.len(),
{
    if s.len() == 0 {
        0
    } else {
        openings(s.drop_last()) + if is_opening(s.last()) {
            1nat
        } else {
            0nat
        }
    }
}

/// Where the header text starts once `npy_data_offset` has found a preamble.
pub open spec fn npy_header_start(b: Seq<u8>) -> int {
    if b[6] == 1 {
        10
    } else {
        12
    }
}

/// The header text, where there is one within the bytes, holds at most
/// `MAX_HEADER_OPENINGS` opening brackets.
pub open spec fn npy_header_shallow(b: Seq<u8>) -> bool {
    match npy_data_offset(b) {
        Some(o) => o <= b.len() ==> openings(b.subrange(npy_header_start(b), o))
            <= MAX_HEADER_OPENINGS,
        None => true,
    }
}

/// Relies on ndarray_npy::WriteNpyExt::write_npy, writing into memory: a
/// preamble and header with element type `|u1`, C order and the shape, then
/// the samples. Writing into a `Vec` fails only on a header too long for the
/// format, which no three-dimensional shape reaches.
#[verifier::external_body]
fn npy_encode(height: usize, width: usize, channels: usize, data: &Vec<u8>) -> (r: Result<
    Vec<u8>,
    WriteNpyError,
>)
    requires
        height > 0,
        width > 0,
        channels > 0,
        data@.len() == height * width * channels,
    ensures
        r is Ok,
        r matches Ok(b) ==> b@ == npy_u8_bytes(height, width, channels, data@),
        r matches Ok(b) ==> npy_payload_present(b@),
        r matches Ok(b) ==> npy_header_shallow(b@),
{
    let arr = Array3::from_shape_vec((height, width, channels), data.clone()).unwrap();
    let mut out: Vec<u8> = Vec::new();
    match arr.write_npy(&mut out) {
        Ok(()) => Ok(out),
        Err(e) => Err(e),
    }
}

/// Relies on ndarray_npy::ViewNpyExt::view_npy for a three-dimensional array
/// of unsigned bytes, over the bytes in memory; the samples are copied out in
/// row-major order. It reads back what write_npy wrote. Without a sample
/// after the header it could panic (a zero axis beside huge ones), and a
/// deeply nested header would exhaust the stack of its recursive parser, so
/// both cases are kept from it.
#[verifier::external_body]
fn npy_decode(bytes: &Vec<u8>) -> (r: Result<(usize, usize, usize, Vec<u8>), ViewNpyError>)
    requires
        npy_payload_present(bytes@),
        npy_header_shallow(bytes@),
    ensures
        r is Ok <==> npy_u8_view(bytes@) is Some,
        r matches Ok((h, w, c, d)) ==> d@.len() == h * w * c && npy_u8_view(bytes@) == Some(
            (h, w, c, d@),
        ),
        forall|h: usize, w: usize, c: usize, d: Seq<u8>|
            h > 0 && w > 0 && c > 0 && d.len() == h * w * c && npy_header_shallow(bytes@) && bytes@
                == #[trigger] npy_u8_bytes(
                h,
                w,
                c,
                d,
            ) ==> (r is Ok && r->Ok_0.0 == h && r->Ok_0.1 == w && r->Ok_0.2 == c && r->Ok_0.3@
                == d),
{
    match ArrayView3::<u8>::view_npy(bytes.as_slice()) {
        Ok(arr) => {
            let (h, w, c) = arr.dim();
            Ok((h, w, c, arr.iter().copied().collect()))
        },
        Err(e) => Err(e),
    }
}

/// Whether the header text of a `.npy` preamble holds at most
/// `MAX_HEADER_OPENINGS` opening brackets; `true` for bytes whose preamble is
/// not one of a `.npy` file or whose header runs past the end.
pub fn npy_header_is_shallow(bytes: &Vec<u8>) -> (r: bool)
    ensures
        r == npy_header_shallow(bytes@),
{
    let n = bytes.len();
    if n < 6 || bytes[0] != NPY_MAGIC_0 || bytes[1] != NPY_MAGIC_N || bytes[2] != NPY_MAGIC_U
        || bytes[3] != NPY_MAGIC_M || bytes[4] != NPY_MAGIC_P || bytes[5] != NPY_MAGIC_Y {
        return true;
    }
    let start: usize;
    let offset: u64;
    if n >= 10 && bytes[6] == 1 && bytes[7] == 0 {
        start = 10;
        offset = 10 + bytes[8] as u64 + 256 * bytes[9] as u64;
    } else if n >= 12 && (bytes[6] == 2 || bytes[6] == 3) && bytes[7] == 0 {
        start = 12;
        offset = 12 + bytes[8] as u64 + 256 * bytes[9] as u64 + 65536 * bytes[10] as u64
            + 16777216 * bytes[11] as u64;
    } else {
        return true;
    }
    if offset > n as u64 {
        return true;
    }
    let end = offset as usize;
    let ghost b = bytes@;
    assert(npy_data_offset(b) == Some(end as int));
    assert(b.subrange(start as int, start as int) =~= Seq::<u8>::empty());
    let mut count: u64 = 0;
    let mut i: usize = start;
    while i < end
        invariant
            b == bytes@,
            start <= i <= end <= b.len(),
            start == npy_header_start(b),
            npy_data_offset(b) == Some(end as int),
            count == openings(b.subrange(start as int, i as int)),
            count <= MAX_HEADER_OPENINGS,
        decreases end - i,
    {
        let c = bytes[i];
        assert(b.subrange(start as int, i + 1).drop_last() =~= b.subrange(start as int, i as int));
        assert(b.subrange(start as int, i + 1).last() == c);
        if c == 40 || c == 91 || c == 123 {
            if count == MAX_HEADER_OPENINGS {
                proof {
                    assert(openings(b.subrange(start as int, i + 1)) == count + 1);
                    lemma_openings_grow(b, start as int, i as int + 1, end as int);
                }
                return false;
            }
            count = count + 1;
        }
        i = i + 1;
    }
    true
}

/// Counting openings over a longer range never gives fewer.
pub proof fn lemma_openings_grow(b: Seq<u8>, lo: int, mid: int, hi: int)
    requires
        0 <= lo <= mid <= hi <= b.len(),
    ensures
        openings(b.subrange(lo, mid)) <= openings(b.subrange(lo, hi)),
    decreases hi - mid,
{
    if mid < hi {
        lemma_openings_grow(b, lo, mid, hi - 1);
        assert(b.subrange(lo, hi).drop_last() =~= b.subrange(lo, hi - 1));
    }
}

/// Whether some byte follows the header of a `.npy` preamble; `true` for
/// bytes whose preamble is not one of a `.npy` file.
pub fn has_npy_payload(bytes: &Vec<u8>) -> (r: bool)
    ensures
        r == npy_payload_present(bytes@),
{
    let n = bytes.len();
    if n < 6 || bytes[0] != NPY_MAGIC_0 || bytes[1] != NPY_MAGIC_N || bytes[2] != NPY_MAGIC_U
        || bytes[3] != NPY_MAGIC_M || bytes[4] != NPY_MAGIC_P || bytes[5] != NPY_MAGIC_Y {
        return true;
    }
    if n >= 10 && bytes[6] == 1 && bytes[7] == 0 {
        let offset: u64 = 10 + bytes[8] as u64 + 256 * bytes[9] as u64;
        return offset < n as u64;
    }
    if n >= 12 && (bytes[6] == 2 || bytes[6] == 3) && bytes[7] == 0 {
        let offset: u64 = 12 + bytes[8] as u64 + 256 * bytes[9] as u64 + 65536 * bytes[10] as u64
            + 16777216 * bytes[11] as u64;
        return offset < n as u64;
    }
    true
}

/// Checks an offered array: `(height, width, channels)` when it can be shown.
pub fn check_array(shape: &Vec<usize>, is_u8: bool, len: usize) -> (r: Result<
    (usize, usize, usize),
    TransferError,
>)
    ensures
        r == array_verdict(shape@, is_u8, len as nat),
{
    if !is_u8 {
        return Err(TransferError::WrongElementType);
    }
    if shape.len() != 2 && shape.len() != 3 {
        return Err(TransferError::WrongDimensions);
    }
    let c: usize = if shape.len() == 2 {
        1
    } else {
        shape[2]
    };
    if c != 1 && c != 3 {
        return Err(TransferError::WrongChannels);
    }
    if shape[0] == 0 || shape[1] == 0 {
        return Err(TransferError::EmptyImage);
    }
    if !fits_grid(shape[1], shape[0], c, len) {
        assert(shape[1] * shape[0] * c == shape[0] * shape[1] * c) by (nonlinear_arith);
        return Err(TransferError::LengthMismatch);
    }
    assert(shape[1] * shape[0] * c == shape[0] * shape[1] * c) by (nonlinear_arith);
    Ok((shape[0], shape[1], c))
}

/// The `.npy` bytes of an offered array: the refusal of `check_array`, or
/// the encoding of an accepted array.
pub fn encode_array(input: &ArrayInput) -> (r: Result<Vec<u8>, TransferError>)
    ensures
        array_verdict(input.shape@, input.is_u8, input.data@.len()) matches Err(e) ==> r == Err::<
            Vec<u8>,
            TransferError,
        >(e),
        array_verdict(input.shape@, input.is_u8, input.data@.len()) matches Ok((h, w, c)) ==> (
        r matches Ok(b) && b@ == npy_u8_bytes(h, w, c, input.data@) && npy_payload_present(b@)
            && npy_header_shallow(b@)),
{
    match check_array(&input.shape, input.is_u8, input.data.len()) {
        Err(e) => Err(e),
        Ok((h, w, c)) => match npy_encode(h, w, c, &input.data) {
            Ok(b) => Ok(b),
            Err(_) => Err(TransferError::ResourceUnavailable),
        },
    }
}

/// All arrays are checked before any is encoded: the first refused one
/// decides the error and nothing is produced; otherwise every array is
/// encoded, in order.
pub fn encode_arrays(inputs: &Vec<ArrayInput>) -> (r: Result<Vec<Vec<u8>>, TransferError>)
    ensures
        r is Ok <==> forall|i: int| 0 <= i < inputs@.len() ==> #[trigger] verdict_of(inputs@[i]) is Ok,
        r matches Err(e) ==> exists|i: int|
            0 <= i < inputs@.len() && #[trigger] verdict_of(inputs@[i]) == Err::<
                (usize, usize, usize),
                TransferError,
            >(e) && forall|j: int| 0 <= j < i ==> (#[trigger] verdict_of(inputs@[j])) is Ok,
        r matches Ok(files) ==> {
            &&& files@.len() == inputs@.len()
            &&& forall|i: int|
                0 <= i < inputs@.len() ==> (#[trigger] verdict_of(inputs@[i]) matches Ok((h, w, c))
                    && files@[i]@ == npy_u8_bytes(h, w, c, inputs@[i].data@)
                    && npy_payload_present(files@[i]@) && npy_header_shallow(files@[i]@))
        },
{
    let n = inputs.len();
    let mut i: usize = 0;
    while i < n
        invariant
            n == inputs@.len(),
            i <= n,
            forall|j: int|
                0 <= j < i ==> #[trigger] verdict_of(inputs@[j]) is Ok,
        decreases n - i,
    {
        let a = &inputs[i];
        match check_array(&a.shape, a.is_u8, a.data.len()) {
            Err(e) => {
                assert(verdict_of(inputs@[i as int]) == Err::<(usize, usize, usize), TransferError>(e));
                return Err(e);
            },
            Ok(_) => {
                assert(verdict_of(inputs@[i as int]) is Ok);
            },
        }
        i = i + 1;
    }
    let mut files: Vec<Vec<u8>> = Vec::with_capacity(n);
    let mut k: usize = 0;
    while k < n
        invariant
            n == inputs@.len(),
            k <= n,
            files@.len() == k,
            forall|j: int|
                0 <= j < n ==> #[trigger] verdict_of(inputs@[j]) is Ok,
            forall|j: int|
                0 <= j < k ==> (#[trigger] verdict_of(inputs@[j]) matches Ok((h, w, c))
                    && files@[j]@ == npy_u8_bytes(h, w, c, inputs@[j].data@)
                    && npy_payload_present(files@[j]@) && npy_header_shallow(files@[j]@)),
        decreases n - k,
    {
        assert(verdict_of(inputs@[k as int]) is Ok);
        match encode_array(&inputs[k]) {
            Err(e) => {
                return Err(e);
            },
            Ok(b) => {
                files.push(b);
                assert(files@[k as int] == b);
            },
        }
        k = k + 1;
    }
    Ok(files)
}

/// `r` is the image taken in from an array of this shape and these samples:
/// one channel gives `OneChannel`, three give `ThreeChannel`, and a zero
/// dimension or another channel count is refused.
pub open spec fn image_of_array(
    h: usize,
    w: usize,
    c: usize,
    d: Seq<u8>,
    r: Result<ImageKind, TransferError>,
) -> bool {
    if h == 0 || w == 0 {
        r == Err::<ImageKind, TransferError>(TransferError::EmptyImage)
    } else if c == 1 {
        r matches Ok(img) && img is OneChannel && img.data().height == h && img.data().width == w
            && img.data().pixels@ == d
    } else if c == 3 {
        r matches Ok(img) && img is ThreeChannel && img.data().height == h && img.data().width == w
            && img.data().pixels@ == d
    } else {
        r == Err::<ImageKind, TransferError>(TransferError::WrongChannels)
    }
}

/// Bytes written for an array of unsigned bytes, with a sample after the
/// header, are taken in as that array.
pub open spec fn decodes_to(bytes: Seq<u8>, r: Result<ImageKind, TransferError>) -> bool {
    forall|h: usize, w: usize, c: usize, d: Seq<u8>|
        h > 0 && w > 0 && c > 0 && d.len() == h * w * c && npy_payload_present(bytes)
            && npy_header_shallow(bytes) && bytes
            == #[trigger] npy_u8_bytes(h, w, c, d) ==> image_of_array(h, w, c, d, r)
}

/// An image from the bytes of a `.npy` file. `EmptyImage` when nothing
/// follows the header; `Undecodable` when the header nests more than
/// `MAX_HEADER_OPENINGS` brackets or the bytes are not a `.npy` array of
/// unsigned bytes with three dimensions; otherwise as `image_of_array` says.
pub fn image_from_npy(bytes: &Vec<u8>) -> (r: Result<ImageKind, TransferError>)
    ensures
        r matches Ok(img) ==> img.wf(),
        !npy_payload_present(bytes@) ==> r == Err::<ImageKind, TransferError>(
            TransferError::EmptyImage,
        ),
        npy_payload_present(bytes@) && !npy_header_shallow(bytes@) ==> r == Err::<
            ImageKind,
            TransferError,
        >(TransferError::Undecodable),
        npy_payload_present(bytes@) && npy_header_shallow(bytes@) ==> match npy_u8_view(bytes@) {
            None => r == Err::<ImageKind, TransferError>(TransferError::Undecodable),
            Some((h, w, c, d)) => image_of_array(h, w, c, d, r),
        },
        decodes_to(bytes@, r),
{
    if !has_npy_payload(bytes) {
        return Err(TransferError::EmptyImage);
    }
    if !npy_header_is_shallow(bytes) {
        return Err(TransferError::Undecodable);
    }
    match npy_decode(bytes) {
        Err(_) => Err(TransferError::Undecodable),
        Ok((h, w, c, d)) => {
            if h == 0 || w == 0 {
                Err(TransferError::EmptyImage)
            } else if c == 1 {
                assert(h * w * c == w * h * 1) by (nonlinear_arith)
                    requires
                        c == 1,
                ;
                Ok(ImageKind::OneChannel(ImageData { width: w, height: h, pixels: d }))
            } else if c == 3 {
                assert(h * w * c == w * h * 3) by (nonlinear_arith)
                    requires
                        c == 3,
                ;
                Ok(ImageKind::ThreeChannel(ImageData { width: w, height: h, pixels: d }))
            } else {
                Err(TransferError::WrongChannels)
            }
        },
    }
}

/// Round trip: the bytes that `encode_array` gives for an accepted array are
/// taken in by `image_from_npy` as an image of that height, width and
/// samples, one-channel for one channel and three-channel for three.
pub proof fn lemma_npy_round_trip(
    input: ArrayInput,
    bytes: Seq<u8>,
    r: Result<ImageKind, TransferError>,
)
    requires
        verdict_of(input) matches Ok((h, w, c)) && bytes == npy_u8_bytes(h, w, c, input.data@),
        npy_payload_present(bytes),
        npy_header_shallow(bytes),
        decodes_to(bytes, r),
    ensures
        verdict_of(input) matches Ok((h, w, c)) && (r matches Ok(img) && img.channels() == c
            && img.data().height == h && img.data().width == w && img.data().pixels@
            == input.data@),
{
    let (h, w, c) = verdict_of(input)->Ok_0;
    assert(input.data@.len() == h * w * c);
    assert(image_of_array(h, w, c, input.data@, r));
}

/// Whether `path` names a `.npy` file: its last component has a stem and the
/// extension `npy`.
pub open spec fn has_npy_extension(path: Seq<u8>) -> bool {
    &&& path.len() > 4
    &&& path[path.len() - 5] != SLASH
    &&& path.subrange(path.len() - 4, path.len() as int) == seq![DOT, LOWER_N, LOWER_P, LOWER_Y]
}

pub const SLASH: u8 = 47;

pub const DOT: u8 = 46;

pub const LOWER_N: u8 = 110;

pub const LOWER_P: u8 = 112;

pub const LOWER_Y: u8 = 121;

/// Whether the file at `path` is taken in as a `.npy` array rather than as
/// an ordinary image file.
pub fn is_npy_path(path: &Vec<u8>) -> (r: bool)
    ensures
        r == has_npy_extension(path@),
{
    let n = path.len();
    if n <= 4 {
        return false;
    }
    let r = path[n - 5] != SLASH && path[n - 4] == DOT && path[n - 3] == LOWER_N && path[n - 2]
        == LOWER_P && path[n - 1] == LOWER_Y;
    let ghost tail = path@.subrange(n - 4, n as int);
    assert(tail[0] == path@[n - 4] && tail[1] == path@[n - 3] && tail[2] == path@[n - 2] && tail[3]
        == path@[n - 1]);
    if r {
        assert(tail =~= seq![DOT, LOWER_N, LOWER_P, LOWER_Y]);
    }
    r
}

/// Everything taken in, or the position and error of the first failure:
/// a session starts with all of its images or not at all.
pub fn collect_images(results: Vec<Result<ImageKind, TransferError>>) -> (r: Result<
    Vec<ImageKind>,
    (usize, TransferError),
>)
    ensures
        r matches Ok(imgs) ==> {
            &&& imgs@.len() == results@.len()
            &&& forall|i: int| 0 <= i < results@.len() ==> #[trigger] results@[i] == Ok::<
                ImageKind,
                TransferError,
            >(imgs@[i])
        },
        r is Ok <==> forall|i: int| 0 <= i < results@.len() ==> (#[trigger] results@[i]) is Ok,
        r matches Err((k, e)) ==> {
            &&& k < results@.len()
            &&& results@[k as int] == Err::<ImageKind, TransferError>(e)
            &&& forall|i: int| 0 <= i < k ==> (#[trigger] results@[i]) is Ok
        },
{
    let ghost src = results@;
    let total = results.len();
    let mut rest = results;
    let mut imgs: Vec<ImageKind> = Vec::new();
    let mut k: usize = 0;
    while rest.len() > 0
        invariant
            k + rest@.len() == src.len(),
            total == src.len(),
            src == results@,
            rest@ == src.skip(k as int),
            imgs@.len() == k,
            forall|i: int| 0 <= i < k ==> #[trigger] src[i] == Ok::<ImageKind, TransferError>(imgs@[i]),
        decreases rest@.len(),
    {
        let first = rest.remove(0);
        assert(first == src[k as int]);
        match first {
            Ok(img) => {
                imgs.push(img);
                assert(rest@ =~= src.skip(k + 1));
                k = k + 1;
            },
            Err(e) => {
                assert forall|i: int| 0 <= i < k implies (#[trigger] src[i]) is Ok by {
                    assert(src[i] == Ok::<ImageKind, TransferError>(imgs@[i]));
                }
                assert(!(src[k as int] is Ok));
                return Err((k, e));
            },
        }
    }
    assert forall|i: int| 0 <= i < src.len() implies (#[trigger] src[i]) is Ok by {
        assert(src[i] == Ok::<ImageKind, TransferError>(imgs@[i]));
    }
    Ok(imgs)
}

} // verus!
