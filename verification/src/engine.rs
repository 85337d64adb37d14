//! The background-removal step: what an engine's failures are called and
//! say, how the outcome of an external engine process is judged, and the
//! native pipeline (decode the input, remove the background, encode PNG).
use vstd::prelude::*;
use vstd::string::*;
use image::{DynamicImage, ImageError};
use crate::text::{append_signed_decimal, prefixed, signed_decimal};

verus! {

/// Why removing a background failed.
#[derive(Debug, PartialEq, Eq)]
pub enum EngineError {
    /// The engine binary is missing or cannot be run.
    EngineUnavailable(String),
    /// The external engine exited with this non-zero code (`-1` when it
    /// reported none).
    NonZeroExit(i32),
    /// Spawning or talking to the external engine failed; the text of the
    /// I/O error.
    SpawnFailed(String),
    /// The native model could not be loaded.
    ModelLoad(String),
    /// The input bytes are not a decodable image.
    Decode(String),
    /// The native model failed on the image.
    Native(String),
    /// The result could not be encoded as PNG.
    Encode(String),
}

/// The text that describes an engine error.
pub open spec fn engine_error_text(e: EngineError) -> Seq<char> {
    match e {
        EngineError::EngineUnavailable(s) => "engine binary not found or not executable: "@ + s@,
        EngineError::NonZeroExit(code) => "engine returned non-zero exit code: "@
            + signed_decimal(code as int),
        EngineError::SpawnFailed(s) => "failed to spawn engine: "@ + s@,
        EngineError::ModelLoad(s) => "failed to load native model: "@ + s@,
        EngineError::Decode(s) => "failed to decode input image: "@ + s@,
        EngineError::Native(s) => "native background removal failed: "@ + s@,
        EngineError::Encode(s) => "failed to encode PNG: "@ + s@,
    }
}

impl EngineError {
    /// The text that describes this error.
    pub fn message(&self) -> (r: String)
        ensures
            r@ == engine_error_text(*self),
    {
        match self {
            EngineError::EngineUnavailable(s) => prefixed(
                "engine binary not found or not executable: ",
                s,
            ),
            EngineError::NonZeroExit(code) => {
                let mut r = String::from_str("engine returned non-zero exit code: ");
                append_signed_decimal(&mut r, *code as i64);
                r
            },
            EngineError::SpawnFailed(s) => prefixed("failed to spawn engine: ", s),
            EngineError::ModelLoad(s) => prefixed("failed to load native model: ", s),
            EngineError::Decode(s) => prefixed("failed to decode input image: ", s),
            EngineError::Native(s) => prefixed("native background removal failed: ", s),
            EngineError::Encode(s) => prefixed("failed to encode PNG: ", s),
        }
    }
}

/// The eight bytes that every PNG file starts with.
pub open spec fn png_signature() -> Seq<u8> {
    seq![137u8, 80u8, 78u8, 71u8, 13u8, 10u8, 26u8, 10u8]
}

/// What an external engine must write for its output to count: a PNG
/// file, which starts with the PNG signature.
pub open spec fn not_png_text() -> Seq<char> {
    "the external engine's output is not a PNG image"@
}

/// Whether `bytes` start with the PNG signature.
pub fn starts_with_png_signature(bytes: &[u8]) -> (r: bool)
    ensures
        r == png_signature().is_prefix_of(bytes@),
{
    let sig: [u8; 8] = [137u8, 80u8, 78u8, 71u8, 13u8, 10u8, 26u8, 10u8];
    assert(sig@ =~= png_signature());
    if bytes.len() < 8 {
        return false;
    }
    let mut i: usize = 0;
    while i < 8
        invariant
            i <= 8 <= bytes@.len(),
            sig@ == png_signature(),
            forall|j: int| 0 <= j < i ==> bytes@[j] == png_signature()[j],
        decreases 8 - i,
    {
        if bytes[i] != sig[i] {
            return false;
        }
        i = i + 1;
    }
    true
}

/// The outcome of running an external engine process: its standard output
/// when it exited successfully and wrote a PNG file (one that starts with
/// the PNG signature); an `Encode` error when it exited successfully with
/// anything else; else the exit code it reported (`-1` when it reported
/// none, as when a signal ended it).
pub fn external_outcome(success: bool, code: Option<i32>, stdout: Vec<u8>) -> (r: Result<
    Vec<u8>,
    EngineError,
>)
    ensures
        success && png_signature().is_prefix_of(stdout@) ==> r == Ok::<Vec<u8>, EngineError>(
            stdout,
        ),
        success && !png_signature().is_prefix_of(stdout@) ==> (r matches Err(
            EngineError::Encode(m),
        ) && m@ == not_png_text()),
        !success ==> r == Err::<Vec<u8>, EngineError>(
            EngineError::NonZeroExit(
                match code {
                    Some(c) => c,
                    None => -1i32,
                },
            ),
        ),
{
    if !success {
        let c: i32 = match code {
            Some(c) => c,
            None => -1,
        };
        return Err(EngineError::NonZeroExit(c));
    }
    if !starts_with_png_signature(stdout.as_slice()) {
        return Err(EngineError::Encode(String::from_str("the external engine's output is not a PNG image")));
    }
    Ok(stdout)
}

#[verifier::external_type_specification]
#[verifier::external_body]
pub struct ExDynamicImage(DynamicImage);

#[verifier::external_type_specification]
#[verifier::external_body]
pub struct ExImageError(ImageError);

/// Whether `img` is a decoding of `bytes` by the `image` crate (with the
/// format guessed from the bytes). A relation, not a function: which
/// formats decode depends on the decoders registered in the process.
pub uninterp spec fn decodes_to(bytes: Seq<u8>, img: DynamicImage) -> bool;

/// `image::load_from_memory`: guesses the format of `bytes` from their
/// first bytes and decodes them. Stated: an image it returns is a decoding
/// of exactly these bytes. Not stated: which bytes decode (that depends on
/// the decoders registered in the process).
#[verifier::external_body]
fn load_from_memory(bytes: &[u8]) -> (r: Result<DynamicImage, ImageError>)
    ensures
        r matches Ok(img) ==> decodes_to(bytes@, img),
{
    image::load_from_memory(bytes)
}

/// The PNG file that the `image` crate's PNG encoder makes of an image,
/// or `None` when it cannot encode it (as for an image without pixels).
pub uninterp spec fn png_encoding(img: DynamicImage) -> Option<Seq<u8>>;

/// `DynamicImage::write_to` with `ImageFormat::Png`, into an empty
/// in-memory buffer, which is returned. The encoding is a function of the
/// image alone (the encoder's settings are fixed), so its result is named
/// `png_encoding`. The PNG encoder writes the PNG signature before anything
/// else, so on success the bytes start with it.
#[verifier::external_body]
fn write_png(img: &DynamicImage) -> (r: Result<Vec<u8>, ImageError>)
    ensures
        r is Ok <==> png_encoding(*img) is Some,
        r matches Ok(bytes) ==> png_encoding(*img) == Some(bytes@),
        r matches Ok(bytes) ==> png_signature().is_prefix_of(bytes@),
{
    let mut png = std::io::Cursor::new(Vec::new());
    img.write_to(&mut png, image::ImageFormat::Png)?;
    Ok(png.into_inner())
}

/// The text of an image error (its `Display`). Nothing is stated of it.
#[verifier::external_body]
fn image_error_text(err: &ImageError) -> String {
    err.to_string()
}

/// Decodes the input bytes of an image: the image is a decoding of these
/// bytes; a failure is a `Decode` error.
pub fn decode_input(input_bytes: &[u8]) -> (r: Result<DynamicImage, EngineError>)
    ensures
        r matches Ok(img) ==> decodes_to(input_bytes@, img),
        r matches Err(e) ==> e is Decode,
{
    match load_from_memory(input_bytes) {
        Ok(img) => Ok(img),
        Err(err) => Err(EngineError::Decode(image_error_text(&err))),
    }
}

/// Encodes an image as PNG: the bytes are the image's PNG encoding, which
/// starts with the PNG signature; when the image has no PNG encoding, an
/// `Encode` error.
pub fn encode_png(img: &DynamicImage) -> (r: Result<Vec<u8>, EngineError>)
    ensures
        r is Ok <==> png_encoding(*img) is Some,
        r matches Ok(bytes) ==> png_encoding(*img) == Some(bytes@) && png_signature().is_prefix_of(
            bytes@,
        ),
        r matches Err(e) ==> e is Encode,
{
    match write_png(img) {
        Ok(bytes) => Ok(bytes),
        Err(err) => Err(EngineError::Encode(image_error_text(&err))),
    }
}

/// Runs `remover` (the background-removal model) on a decoded image and
/// encodes its output as PNG. A failure of the remover is returned
/// unchanged; when the remover's output has no PNG encoding, an `Encode`
/// error; on success, the PNG encoding of the remover's output.
pub fn remove_and_encode<F>(image: &DynamicImage, remover: F) -> (r: Result<Vec<u8>, EngineError>) where
    F: FnOnce(&DynamicImage) -> Result<DynamicImage, EngineError>,

    requires
        remover.requires((image,)),
    ensures
        r matches Ok(bytes) ==> png_signature().is_prefix_of(bytes@) && exists|out: DynamicImage|
            #[trigger] remover.ensures((image,), Ok::<DynamicImage, EngineError>(out))
                && png_encoding(out) == Some(bytes@),
        r matches Err(e) ==> remover.ensures((image,), Err::<DynamicImage, EngineError>(e)) || (
        e is Encode && exists|out: DynamicImage|
            #[trigger] remover.ensures((image,), Ok::<DynamicImage, EngineError>(out))
                && png_encoding(out) is None),
{
    let result = remover(image);
    match result {
        Ok(out) => {
            let r = encode_png(&out);
            assert(remover.ensures((image,), Ok::<DynamicImage, EngineError>(out)));
            r
        },
        Err(e) => {
            let r = Err(e);
            assert(remover.ensures((image,), Err::<DynamicImage, EngineError>(r->Err_0)));
            r
        },
    }
}

/// The rest of the native pipeline once decoding has been tried: a decode
/// failure is returned as it is, without running the remover; a decoded
/// image goes through `remove_and_encode`.
pub fn remove_background_from_decoded<F>(decoded: Result<DynamicImage, EngineError>, remover: F) -> (r:
    Result<Vec<u8>, EngineError>) where F: FnOnce(&DynamicImage) -> Result<DynamicImage, EngineError>
    requires
        forall|img: &DynamicImage| remover.requires((img,)),
    ensures
        decoded matches Err(e) ==> r == Err::<Vec<u8>, EngineError>(e),
        decoded matches Ok(image) ==> {
            &&& r matches Ok(bytes) ==> png_signature().is_prefix_of(bytes@) && exists|
                out: DynamicImage,
            |
                #[trigger] remover.ensures((&image,), Ok::<DynamicImage, EngineError>(out))
                    && png_encoding(out) == Some(bytes@)
            &&& r matches Err(e) ==> remover.ensures(
                (&image,),
                Err::<DynamicImage, EngineError>(e),
            ) || (e is Encode && exists|out: DynamicImage|
                #[trigger] remover.ensures((&image,), Ok::<DynamicImage, EngineError>(out))
                    && png_encoding(out) is None)
        },
{
    match decoded {
        Ok(image) => remove_and_encode(&image, remover),
        Err(e) => Err(e),
    }
}

/// The native pipeline: decode `input_bytes`, hand the image to `remover`
/// (the background-removal model), and encode the remover's output as PNG.
/// A decode failure is a `Decode` error (and the remover is not run, as
/// `remove_background_from_decoded` states), a failure of the remover is
/// returned unchanged, an output without a PNG encoding is an `Encode`
/// error; on success, the PNG encoding of what the remover made of a
/// decoding of `input_bytes`.
pub fn remove_background_with_native<F>(input_bytes: &[u8], remover: F) -> (r: Result<
    Vec<u8>,
    EngineError,
>) where F: FnOnce(&DynamicImage) -> Result<DynamicImage, EngineError>
    requires
        forall|img: &DynamicImage| remover.requires((img,)),
    ensures
        r matches Ok(bytes) ==> png_signature().is_prefix_of(bytes@) && exists|
            img: DynamicImage,
            out: DynamicImage,
        |
            decodes_to(input_bytes@, img) && #[trigger] remover.ensures(
                (&img,),
                Ok::<DynamicImage, EngineError>(out),
            ) && png_encoding(out) == Some(bytes@),
        r matches Err(e) ==> e is Decode || (exists|img: DynamicImage|
            decodes_to(input_bytes@, img) && #[trigger] remover.ensures(
                (&img,),
                Err::<DynamicImage, EngineError>(e),
            )) || (e is Encode && exists|img: DynamicImage, out: DynamicImage|
            decodes_to(input_bytes@, img) && #[trigger] remover.ensures(
                (&img,),
                Ok::<DynamicImage, EngineError>(out),
            ) && png_encoding(out) is None),
{
    let decoded = decode_input(input_bytes);
    let r = remove_background_from_decoded(decoded, remover);
    proof {
        if decoded is Ok {
            let image = decoded->Ok_0;
            if r is Ok {
                let out = choose|out: DynamicImage|
                    #[trigger] remover.ensures((&image,), Ok::<DynamicImage, EngineError>(out))
                        && png_encoding(out) == Some(r->Ok_0@);
                assert(remover.ensures((&image,), Ok::<DynamicImage, EngineError>(out)));
            } else {
                let e = r->Err_0;
                if !remover.ensures((&image,), Err::<DynamicImage, EngineError>(e)) {
                    let out = choose|out: DynamicImage|
                        #[trigger] remover.ensures((&image,), Ok::<DynamicImage, EngineError>(out))
                            && png_encoding(out) is None;
                    assert(remover.ensures((&image,), Ok::<DynamicImage, EngineError>(out)));
                }
            }
        }
    }
    r
}

} // verus!
