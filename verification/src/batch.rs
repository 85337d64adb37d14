//! The batch run over a directory of images: which engine it uses, which
//! files it takes, where each result goes, how a bounded pool of workers is
//! scheduled, and the lines it reports.
use vstd::prelude::*;
use vstd::string::*;
use crate::engine::{engine_error_text, EngineError};
use crate::path::{file_name_of, last_dot, last_segment, lemma_file_stem_shape, lemma_last_segment_after_separator, name_extension, name_stem, strip_trailing, chars_of, extension, extension_of, file_stem, file_stem_of, join, join_of};
use crate::text::{append_decimal, decimal};

verus! {

broadcast use vstd::string::group_string_axioms;

// ---------------------------------------------------------------------------
// The engine a run is configured with
// ---------------------------------------------------------------------------

/// The engine named by a configuration.
#[derive(Debug, PartialEq, Eq)]
pub enum EngineConfigKind {
    /// An external program, by path, that reads an image on its standard
    /// input and writes the PNG result on its standard output.
    External(String),
    /// The native model, by the path of its ONNX file.
    Native(String),
}

/// The background-removal engine a batch run uses.
pub struct EngineConfig {
    kind: EngineConfigKind,
}

impl EngineConfig {
    /// The engine this configuration names.
    pub closed spec fn engine(&self) -> EngineConfigKind {
        self.kind
    }

    /// A configuration for the external engine program at `engine_path`.
    pub fn external(engine_path: String) -> (c: Self)
        ensures
            c.engine() == EngineConfigKind::External(engine_path),
    {
        EngineConfig { kind: EngineConfigKind::External(engine_path) }
    }

    /// A configuration for the native engine with the model at `model_path`.
    pub fn native(model_path: String) -> (c: Self)
        ensures
            c.engine() == EngineConfigKind::Native(model_path),
    {
        EngineConfig { kind: EngineConfigKind::Native(model_path) }
    }

    /// The engine this configuration names.
    pub fn kind(&self) -> (k: &EngineConfigKind)
        ensures
            *k == self.engine(),
    {
        &self.kind
    }
}

// ---------------------------------------------------------------------------
// Which files are images, and where their results go
// ---------------------------------------------------------------------------

/// `c` with ASCII upper case letters turned into lower case.
pub open spec fn ascii_lower(c: char) -> char {
    if 'A' <= c && c <= 'Z' {
        (((c as u32) + 32) as u8) as char
    } else {
        c
    }
}

/// `s` with ASCII upper case letters turned into lower case.
pub open spec fn lowered(s: Seq<char>) -> Seq<char> {
    s.map_values(|c: char| ascii_lower(c))
}

/// Whether `ext` is the extension of a supported image format: `jpg`,
/// `jpeg`, `png` or `webp`, in any case. (Lowering only ASCII letters
/// accepts the same extensions as full Unicode lowering: the only other
/// character that lowers to an ASCII letter is the Kelvin sign, to `k`,
/// which no supported extension holds.)
pub open spec fn supported_extension(ext: Seq<char>) -> bool {
    let e = lowered(ext);
    ||| e == seq!['j', 'p', 'g']
    ||| e == seq!['j', 'p', 'e', 'g']
    ||| e == seq!['p', 'n', 'g']
    ||| e == seq!['w', 'e', 'b', 'p']
}

/// Whether the file at `path` is taken as an input image: its extension is
/// that of a supported format.
pub open spec fn supported_image(path: Seq<char>) -> bool {
    match extension_of(path) {
        Some(ext) => supported_extension(ext),
        None => false,
    }
}

fn lower_char(c: char) -> (r: char)
    ensures
        r == ascii_lower(c),
{
    if 'A' <= c && c <= 'Z' {
        let b: u8 = ((c as u32) + 32) as u8;
        b as char
    } else {
        c
    }
}

/// Whether `s` lowered equals `lit`.
fn lowered_equals(s: &Vec<char>, lit: &Vec<char>) -> (r: bool)
    ensures
        r == (lowered(s@) == lit@),
{
    if s.len() != lit.len() {
        assert(lowered(s@).len() != lit@.len());
        return false;
    }
    let mut i: usize = 0;
    while i < s.len()
        invariant
            i <= s@.len() == lit@.len(),
            forall|j: int| 0 <= j < i ==> ascii_lower(s@[j]) == lit@[j],
        decreases s@.len() - i,
    {
        if lower_char(s[i]) != lit[i] {
            assert(lowered(s@)[i as int] != lit@[i as int]);
            return false;
        }
        i = i + 1;
    }
    assert(lowered(s@) =~= lit@);
    true
}

/// Whether the file at `path` has a supported image extension (`jpg`,
/// `jpeg`, `png`, `webp`, in any case).
pub fn is_supported_image(path: &str) -> (r: bool)
    ensures
        r == supported_image(path@),
{
    match extension(path) {
        Some(ext) => {
            let e = chars_of(ext);
            let jpg = vec!['j', 'p', 'g'];
            let jpeg = vec!['j', 'p', 'e', 'g'];
            let png = vec!['p', 'n', 'g'];
            let webp = vec!['w', 'e', 'b', 'p'];
            assert(jpg@ =~= seq!['j', 'p', 'g']);
            assert(jpeg@ =~= seq!['j', 'p', 'e', 'g']);
            assert(png@ =~= seq!['p', 'n', 'g']);
            assert(webp@ =~= seq!['w', 'e', 'b', 'p']);
            lowered_equals(&e, &jpg) || lowered_equals(&e, &jpeg) || lowered_equals(&e, &png)
                || lowered_equals(&e, &webp)
        },
        None => false,
    }
}

/// Whether a path is taken as an image does not depend on the case of
/// the ASCII letters of its extension: two paths whose extensions are the
/// same text once lowered (such as `x.jpeg` and `x.JpEg`) are both images
/// or both not.
pub proof fn image_test_ignores_extension_case(p: Seq<char>, q: Seq<char>)
    requires
        extension_of(p) is Some,
        extension_of(q) is Some,
        lowered(extension_of(p)->0) == lowered(extension_of(q)->0),
    ensures
        supported_image(p) == supported_image(q),
{
}

/// The views of a sequence of strings.
pub open spec fn texts(s: Seq<String>) -> Seq<Seq<char>> {
    s.map_values(|x: String| x@)
}

/// The paths of `listing` that are supported images, in listing order.
pub open spec fn selected_images(listing: Seq<Seq<char>>) -> Seq<Seq<char>>
    decreases listing.len(),
{
    if listing.len() == 0 {
        Seq::empty()
    } else if supported_image(listing.last()) {
        selected_images(listing.drop_last()).push(listing.last())
    } else {
        selected_images(listing.drop_last())
    }
}

/// The entries of a directory listing that a run processes: the supported
/// images, in listing order; other files are skipped silently.
pub fn select_images(listing: &Vec<String>) -> (r: Vec<String>)
    ensures
        texts(r@) == selected_images(texts(listing@)),
{
    let mut r: Vec<String> = Vec::new();
    let mut i: usize = 0;
    while i < listing.len()
        invariant
            i <= listing@.len(),
            texts(r@) == selected_images(texts(listing@.take(i as int))),
        decreases listing@.len() - i,
    {
        let ghost before = texts(listing@.take(i as int));
        let ghost after = texts(listing@.take(i + 1));
        assert(after.drop_last() =~= before);
        assert(after.last() == listing@[i as int]@);
        if is_supported_image(listing[i].as_str()) {
            r.push(listing[i].clone());
            assert(texts(r@) =~= selected_images(before).push(listing@[i as int]@));
        }
        i = i + 1;
    }
    assert(listing@.take(listing@.len() as int) =~= listing@);
    r
}

proof fn lemma_selected_contains(listing: Seq<Seq<char>>, x: Seq<char>)
    ensures
        selected_images(listing).contains(x) <==> (listing.contains(x) && supported_image(x)),
    decreases listing.len(),
{
    if listing.len() > 0 {
        let rest = listing.drop_last();
        lemma_selected_contains(rest, x);
        assert(listing =~= rest.push(listing.last()));
        if listing.contains(x) && x != listing.last() {
            let k = choose|k: int| 0 <= k < listing.len() && listing[k] == x;
            assert(k < listing.len() - 1);
            assert(rest[k] == x);
        }
        if rest.contains(x) {
            let k = choose|k: int| 0 <= k < rest.len() && rest[k] == x;
            assert(listing[k] == x);
        }
        if supported_image(listing.last()) {
            let sel = selected_images(rest);
            if sel.push(listing.last()).contains(x) && x != listing.last() {
                let k = choose|k: int| 0 <= k < sel.len() + 1 && sel.push(listing.last())[k] == x;
                assert(sel[k] == x);
            }
            if sel.contains(x) {
                let k = choose|k: int| 0 <= k < sel.len() && sel[k] == x;
                assert(sel.push(listing.last())[k] == x);
            }
            assert(sel.push(listing.last())[sel.len() as int] == listing.last());
        }
        assert(listing[listing.len() - 1] == listing.last());
    }
}

/// Every supported image of a listing is selected and nothing else: the
/// selection is the listing filtered by the image test, in listing order,
/// and an entry is in the selection exactly when it is in the listing and
/// is a supported image.
pub proof fn selection_is_listing_filtered(listing: Seq<Seq<char>>)
    ensures
        selected_images(listing) == listing.filter(|x: Seq<char>| supported_image(x)),
        forall|x: Seq<char>|
            #[trigger] selected_images(listing).contains(x) <==> (listing.contains(x)
                && supported_image(x)),
    decreases listing.len(),
{
    reveal_with_fuel(Seq::<_>::filter, 1);
    if listing.len() > 0 {
        selection_is_listing_filtered(listing.drop_last());
    }
    assert forall|x: Seq<char>|
        #[trigger] selected_images(listing).contains(x) <==> (listing.contains(x)
            && supported_image(x)) by {
        lemma_selected_contains(listing, x);
    }
}

/// The image test accepts exactly the four extensions `jpg`, `jpeg`,
/// `png` and `webp` once lowered, and nothing else: a path without an
/// extension, or with any other extension, is not an image.
pub proof fn images_are_exactly_four_extensions(p: Seq<char>)
    ensures
        supported_image(p) <==> (extension_of(p) is Some && {
            let e = lowered(extension_of(p)->0);
            ||| e == seq!['j', 'p', 'g']
            ||| e == seq!['j', 'p', 'e', 'g']
            ||| e == seq!['p', 'n', 'g']
            ||| e == seq!['w', 'e', 'b', 'p']
        }),
{
}

/// Lowering changes only the ASCII capitals `A` to `Z`, each into the
/// letter 32 code points further on (its small letter), and keeps the
/// length.
pub proof fn lowering_changes_only_ascii_capitals(s: Seq<char>)
    ensures
        lowered(s).len() == s.len(),
        forall|i: int|
            0 <= i < s.len() ==> if 'A' <= s[i] && s[i] <= 'Z' {
                (#[trigger] lowered(s)[i]) as u32 == s[i] as u32 + 32
            } else {
                lowered(s)[i] == s[i]
            },
{
    assert forall|i: int|
        0 <= i < s.len() implies if 'A' <= s[i] && s[i] <= 'Z' {
            (#[trigger] lowered(s)[i]) as u32 == s[i] as u32 + 32
        } else {
            lowered(s)[i] == s[i]
        } by {
        let c = s[i];
        if 'A' <= c && c <= 'Z' {
            let v: u32 = c as u32;
            assert(65 <= v <= 90);
            let b: u8 = (v + 32) as u8;
            assert(b as u32 == v + 32);
        }
    }
}

/// The suffix of every output file name.
pub open spec fn png_suffix() -> Seq<char> {
    seq!['.', 'p', 'n', 'g']
}

/// Where the result for `input` is written in `output_dir`: the input's
/// file stem with a `.png` extension, when the input has a file stem.
pub open spec fn output_path_of(input: Seq<char>, output_dir: Seq<char>) -> Option<Seq<char>> {
    match file_stem_of(input) {
        Some(stem) => Some(join_of(output_dir, stem + png_suffix())),
        None => None,
    }
}

/// Why a batch step failed.
#[derive(Debug, PartialEq, Eq)]
pub enum BatchError {
    /// The input path (given here) has no file stem to name the output by.
    NoFileStem(String),
}

/// The text that describes a batch error.
pub open spec fn batch_error_text(e: BatchError) -> Seq<char> {
    match e {
        BatchError::NoFileStem(p) => "cannot extract file stem from "@ + p@,
    }
}

impl BatchError {
    /// The text that describes this error.
    pub fn message(&self) -> (r: String)
        ensures
            r@ == batch_error_text(*self),
    {
        match self {
            BatchError::NoFileStem(p) => {
                let mut r = String::from_str("cannot extract file stem from ");
                r.append(p.as_str());
                r
            },
        }
    }
}

/// The output path for `input_path` in `output_dir`: the same basename with
/// a `.png` extension. Fails, naming the input, when the input has no file
/// stem.
pub fn build_output_path(input_path: &str, output_dir: &str) -> (r: Result<String, BatchError>)
    ensures
        match output_path_of(input_path@, output_dir@) {
            Some(out) => r matches Ok(p) && p@ == out,
            None => r matches Err(BatchError::NoFileStem(p)) && p@ == input_path@,
        },
{
    match file_stem(input_path) {
        Some(stem) => {
            let mut name = String::from_str(stem);
            name.append(".png");
            proof {
                reveal_strlit(".png");
                assert(".png"@ =~= png_suffix());
            }
            Ok(join(output_dir, name.as_str()))
        },
        None => Err(BatchError::NoFileStem(String::from_str(input_path))),
    }
}

/// The extension that every output carries.
pub open spec fn png_extension() -> Seq<char> {
    seq!['p', 'n', 'g']
}

/// Outputs always use `.png` and keep the input's basename: whenever an
/// input has an output path, that path lies in the output directory, its
/// file stem is the input's file stem, its extension is `png`, and it is
/// itself a supported image.
pub proof fn output_keeps_basename_as_png(input: Seq<char>, output_dir: Seq<char>)
    requires
        output_path_of(input, output_dir) is Some,
    ensures
        output_dir.is_prefix_of(output_path_of(input, output_dir)->0),
        file_stem_of(output_path_of(input, output_dir)->0) == file_stem_of(input),
        extension_of(output_path_of(input, output_dir)->0) == Some(png_extension()),
        supported_image(output_path_of(input, output_dir)->0),
{
    let stem = file_stem_of(input)->0;
    lemma_file_stem_shape(input);
    let name = stem + png_suffix();
    let out = join_of(output_dir, name);
    assert forall|i: int| 0 <= i < name.len() implies name[i] != '/' by {
        if i < stem.len() {
            assert(name[i] == stem[i]);
        }
    }
    // the output ends with the name, after a separator (or nothing)
    let sep: Seq<char> = if output_dir.len() == 0 {
        Seq::empty()
    } else if output_dir.last() == '/' {
        output_dir
    } else {
        output_dir + seq!['/']
    };
    assert(out =~= sep + name);
    assert(output_dir.is_prefix_of(out)) by {
        assert forall|i: int| 0 <= i < output_dir.len() implies out[i] == output_dir[i] by {
            assert(sep[i] == output_dir[i]);
        }
    }
    lemma_last_segment_after_separator(sep, name);
    assert(out.last() == 'g');
    assert(strip_trailing(out) == out);
    assert(name.len() != 2);
    assert(file_name_of(out) == Some(name));
    // the last dot of the name is the one before `png`
    let n: int = stem.len() as int;
    assert(name.drop_last() =~= stem + seq!['.', 'p', 'n']);
    assert((stem + seq!['.', 'p', 'n']).drop_last() =~= stem + seq!['.', 'p']);
    assert((stem + seq!['.', 'p']).drop_last() =~= stem + seq!['.']);
    assert((stem + seq!['.']).last() == '.');
    assert(last_dot(stem + seq!['.']) == Some(n));
    assert((stem + seq!['.', 'p']).last() == 'p');
    assert((stem + seq!['.', 'p', 'n']).last() == 'n');
    assert(last_dot(stem + seq!['.', 'p']) == Some(n));
    assert(last_dot(stem + seq!['.', 'p', 'n']) == Some(n));
    assert(name.last() == 'g');
    assert(last_dot(name) == Some(n));
    assert(name.take(n) =~= stem);
    assert(name.skip(n + 1) =~= png_extension());
    assert(name_stem(name) == stem);
    assert(name_extension(name) == Some(png_extension()));
    assert(lowered(png_extension()) =~= png_extension());
}

} // verus!
