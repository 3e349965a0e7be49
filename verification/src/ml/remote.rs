//! The decisions around remote model providers: which image types a vision
//! chat accepts, which settings a provider is built with, and what the
//! continuous treatments send until a request fails.
use vstd::prelude::*;
use vstd::string::StringExecFns;
use crate::text::same_text;

verus! {

/// The image types a vision chat sends.
#[derive(Clone, Copy, PartialEq, Eq, Structural)]
pub enum ImageMime {
    Jpeg,
    Png,
    Gif,
    Webp,
}

/// `s` in lowercase as `str::to_lowercase` gives it (by the Unicode
/// `Lowercase` property).
pub uninterp spec fn lowercase_of(s: Seq<char>) -> Seq<char>;

/// `str::to_lowercase`. Claims the named result.
#[verifier::external_body]
fn to_lowercase(s: &str) -> (r: String)
    ensures
        r@ == lowercase_of(s@),
{
    s.to_lowercase()
}

/// The image type named `lower` (already in lowercase): `jpeg` or `jpg`,
/// `png`, `gif`, `webp`.
pub open spec fn mime_named(lower: Seq<char>) -> Option<ImageMime> {
    if lower == seq!['j', 'p', 'e', 'g'] || lower == seq!['j', 'p', 'g'] {
        Some(ImageMime::Jpeg)
    } else if lower == seq!['p', 'n', 'g'] {
        Some(ImageMime::Png)
    } else if lower == seq!['g', 'i', 'f'] {
        Some(ImageMime::Gif)
    } else if lower == seq!['w', 'e', 'b', 'p'] {
        Some(ImageMime::Webp)
    } else {
        None
    }
}

/// The message for an image type that is not supported.
pub open spec fn unsupported_message(lower: Seq<char>) -> Seq<char> {
    seq!['u', 'n', 's', 'u', 'p', 'p', 'o', 'r', 't', 'e', 'd', ' ', 'm', 'i', 'm', 'e', ' ', 't', 'y', 'p', 'e', ':', ' ']
        + lower
}

/// The image type for a type name already in lowercase, or the message
/// that it is not supported.
pub fn mime_from_lowercase(lower: &str) -> (r: Result<ImageMime, String>)
    ensures
        match r {
            Ok(m) => mime_named(lower@) == Some(m),
            Err(e) => mime_named(lower@) is None && e@ == unsupported_message(lower@),
        },
{
    proof {
        reveal_strlit("jpeg");
        reveal_strlit("jpg");
        reveal_strlit("png");
        reveal_strlit("gif");
        reveal_strlit("webp");
        reveal_strlit("unsupported mime type: ");
        assert("jpeg"@ =~= seq!['j', 'p', 'e', 'g']);
        assert("jpg"@ =~= seq!['j', 'p', 'g']);
        assert("png"@ =~= seq!['p', 'n', 'g']);
        assert("gif"@ =~= seq!['g', 'i', 'f']);
        assert("webp"@ =~= seq!['w', 'e', 'b', 'p']);
    }
    if same_text(lower, "jpeg") || same_text(lower, "jpg") {
        Ok(ImageMime::Jpeg)
    } else if same_text(lower, "png") {
        Ok(ImageMime::Png)
    } else if same_text(lower, "gif") {
        Ok(ImageMime::Gif)
    } else if same_text(lower, "webp") {
        Ok(ImageMime::Webp)
    } else {
        let mut e = "unsupported mime type: ".to_string();
        e.append(lower);
        assert(e@ =~= unsupported_message(lower@));
        Err(e)
    }
}

/// The image type a vision chat sends for the type name `mime`, in any
/// case, or the message that it is not supported.
pub fn image_mime(mime: &str) -> (r: Result<ImageMime, String>)
    ensures
        match r {
            Ok(m) => mime_named(lowercase_of(mime@)) == Some(m),
            Err(e) => mime_named(lowercase_of(mime@)) is None && e@ == unsupported_message(
                lowercase_of(mime@),
            ),
        },
{
    let lower = to_lowercase(mime);
    mime_from_lowercase(lower.as_str())
}

/// The settings a remote language model provider is built with, beyond its
/// backend: each one only where it is given (a text setting where it is not
/// empty).
pub struct ProviderSettings {
    pub api_key: Option<String>,
    pub base_url: Option<String>,
    pub model: Option<String>,
    pub system: Option<String>,
    pub max_tokens: Option<u32>,
    pub timeout: Option<u64>,
}

/// A text setting where it is not empty.
pub open spec fn given(s: Seq<char>) -> Option<Seq<char>> {
    if s.len() == 0 {
        None
    } else {
        Some(s)
    }
}

/// The view of an optional string.
pub open spec fn opt_text(o: Option<String>) -> Option<Seq<char>> {
    match o {
        Some(s) => Some(s@),
        None => None,
    }
}

fn given_text(s: String) -> (r: Option<String>)
    ensures
        opt_text(r) == given(s@),
{
    if s.as_str().unicode_len() == 0 {
        None
    } else {
        Some(s)
    }
}

/// The settings a provider is built with from the model's parameters; the
/// maximum number of tokens is taken on 32 bits.
pub fn provider_settings(
    api_key: Option<String>,
    base_url: String,
    model: String,
    system: String,
    max_tokens: Option<u64>,
    timeout: Option<u64>,
) -> (r: ProviderSettings)
    ensures
        r.api_key == api_key,
        opt_text(r.base_url) == given(base_url@),
        opt_text(r.model) == given(model@),
        opt_text(r.system) == given(system@),
        r.max_tokens == match max_tokens {
            Some(m) => Some(m as u32),
            None => None,
        },
        r.timeout == timeout,
{
    ProviderSettings {
        api_key,
        base_url: given_text(base_url),
        model: given_text(model),
        system: given_text(system),
        max_tokens: match max_tokens {
            Some(m) => Some(m as u32),
            None => None,
        },
        timeout,
    }
}

/// One thing a continuous treatment sends for one input: the result of its
/// request, or `failed` with the error message.
pub enum Sent {
    Output(String),
    Failed(String),
}

/// The message sent when the provider could not be built.
pub open spec fn not_initialized_message() -> Seq<char> {
    seq!['p', 'r', 'o', 'v', 'i', 'd', 'e', 'r', ' ', 'n', 'o', 't', ' ', 'i', 'n', 'i', 't', 'i', 'a', 'l', 'i', 'z', 'e', 'd']
}

/// What is sent for one request's result.
pub open spec fn sent_matches(s: Sent, result: Result<String, String>) -> bool {
    match (s, result) {
        (Sent::Output(o), Ok(v)) => o@ == v@,
        (Sent::Failed(m), Err(e)) => m@ == e@,
        _ => false,
    }
}

/// What a continuous treatment (`chat`, `transcribeContinuous`,
/// `synthesize`) sends, given whether its provider was built and the
/// results its requests get, one per input in order: each result in its
/// place, a failure as `failed` with its error, processing going on with the
/// next input. Without a provider, the first input gets `failed` with
/// `provider not initialized` and the treatment ends.
pub fn continuous_report(initialized: bool, results: &Vec<Result<String, String>>) -> (r: Vec<Sent>)
    ensures
        initialized ==> r@.len() == results@.len() && forall|k: int|
            0 <= k < r@.len() ==> sent_matches(#[trigger] r@[k], results@[k]),
        !initialized ==> r@.len() == (if results@.len() == 0 { 0int } else { 1int }),
        !initialized && r@.len() > 0 ==> (r@[0] matches Sent::Failed(m) && m@ == not_initialized_message()),
{
    let mut r: Vec<Sent> = Vec::new();
    if !initialized {
        if results.len() > 0 {
            proof {
                reveal_strlit("provider not initialized");
            }
            let m = "provider not initialized".to_string();
            assert(m@ =~= not_initialized_message());
            r.push(Sent::Failed(m));
        }
        return r;
    }
    let mut i: usize = 0;
    while i < results.len()
        invariant
            i <= results@.len(),
            r@.len() == i,
            forall|k: int| 0 <= k < i ==> sent_matches(#[trigger] r@[k], results@[k]),
        decreases results@.len() - i,
    {
        match &results[i] {
            Ok(v) => r.push(Sent::Output(v.clone())),
            Err(e) => r.push(Sent::Failed(e.clone())),
        }
        i = i + 1;
    }
    r
}

/// The segments a continuous transcription sends a request for: the
/// non-empty ones, in order.
pub open spec fn nonempty_of(segments: Seq<Seq<u8>>) -> Seq<Seq<u8>>
    decreases segments.len(),
{
    if segments.len() == 0 {
        Seq::empty()
    } else if segments.last().len() == 0 {
        nonempty_of(segments.drop_last())
    } else {
        nonempty_of(segments.drop_last()).push(segments.last())
    }
}

/// The audio segments that are transcribed: empty ones are skipped.
pub fn segments_to_transcribe(segments: &Vec<Vec<u8>>) -> (r: Vec<Vec<u8>>)
    ensures
        r@.map_values(|s: Vec<u8>| s@) == nonempty_of(segments@.map_values(|s: Vec<u8>| s@)),
{
    let ghost all = segments@.map_values(|s: Vec<u8>| s@);
    let mut r: Vec<Vec<u8>> = Vec::new();
    let mut i: usize = 0;
    while i < segments.len()
        invariant
            i <= segments@.len(),
            all == segments@.map_values(|s: Vec<u8>| s@),
            r@.map_values(|s: Vec<u8>| s@) == nonempty_of(all.subrange(0, i as int)),
        decreases segments@.len() - i,
    {
        let ghost r0 = r@;
        assert(all.subrange(0, i + 1).drop_last() =~= all.subrange(0, i as int));
        assert(all.subrange(0, i + 1).last() == segments@[i as int]@);
        if segments[i].len() > 0 {
            r.push(segments[i].clone());
            assert(r@.map_values(|s: Vec<u8>| s@) =~= r0.map_values(|s: Vec<u8>| s@).push(segments@[i as int]@));
        }
        i = i + 1;
    }
    assert(all.subrange(0, segments@.len() as int) =~= all);
    r
}

} // verus!
