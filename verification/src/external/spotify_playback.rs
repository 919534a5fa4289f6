//! Choosing the audio that a Spotify track is streamed from.

use vstd::prelude::*;
use vstd::string::*;

verus! {

/// How many bytes of a header stand before the Ogg stream in decrypted audio.
pub const SPOTIFY_OGG_HEADER: u64 = 0xa7;

pub const NO_SUPPORTED_FORMAT: &'static str = "spotify track has no supported audio format";

/// The formats that can be streamed, by their rate in kbit/s.
#[derive(Clone, Copy, Debug, PartialEq, Eq, Structural)]
pub enum OggFormat {
    Vorbis160,
    Vorbis96,
    Vorbis320,
}

pub open spec fn offers(formats: Seq<OggFormat>, f: OggFormat) -> bool {
    formats.contains(f)
}

/// The best format for the device among those on offer.
pub open spec fn preferred(formats: Seq<OggFormat>) -> Option<OggFormat> {
    if offers(formats, OggFormat::Vorbis160) {
        Some(OggFormat::Vorbis160)
    } else if offers(formats, OggFormat::Vorbis96) {
        Some(OggFormat::Vorbis96)
    } else if offers(formats, OggFormat::Vorbis320) {
        Some(OggFormat::Vorbis320)
    } else {
        None
    }
}

fn has_format(formats: &Vec<OggFormat>, f: OggFormat) -> (r: bool)
    ensures
        r == offers(formats@, f),
{
    let mut i: usize = 0;
    while i < formats.len()
        invariant
            i <= formats@.len(),
            forall|k: int| 0 <= k < i ==> formats@[k] != f,
        decreases formats@.len() - i,
    {
        if formats[i] == f {
            assert(formats@[i as int] == f);
            return true;
        }
        i += 1;
    }
    false
}

/// The best format for the device among those that a track has.
pub fn choose_format(formats: &Vec<OggFormat>) -> (r: Result<OggFormat, String>)
    ensures
        match preferred(formats@) {
            Some(f) => r == Ok::<OggFormat, String>(f),
            None => r is Err && r->Err_0@ == NO_SUPPORTED_FORMAT@,
        },
{
    if has_format(formats, OggFormat::Vorbis160) {
        Ok(OggFormat::Vorbis160)
    } else if has_format(formats, OggFormat::Vorbis96) {
        Ok(OggFormat::Vorbis96)
    } else if has_format(formats, OggFormat::Vorbis320) {
        Ok(OggFormat::Vorbis320)
    } else {
        Err(String::from_str(NO_SUPPORTED_FORMAT))
    }
}

/// The middle quality is taken where it is offered, the low one without it, and the high one only
/// without either; what is taken is offered.
pub proof fn law_middle_quality_goes_first(formats: Seq<OggFormat>)
    ensures
        preferred(formats) matches Some(f) ==> formats.contains(f),
        preferred(formats) is None <==> formats.len() == 0,
        formats.contains(OggFormat::Vorbis160) ==> preferred(formats) == Some(OggFormat::Vorbis160),
        formats.contains(OggFormat::Vorbis96) && !formats.contains(OggFormat::Vorbis160) ==> preferred(
            formats,
        ) == Some(OggFormat::Vorbis96),
{
    if formats.len() > 0 {
        assert(formats.contains(formats[0]));
    }
}

} // verus!
