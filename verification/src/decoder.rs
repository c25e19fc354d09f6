use vstd::prelude::*;

use lewton::inside_ogg::OggStreamReader;
use std::io::Cursor;

verus! {

#[verifier::external_type_specification]
#[verifier::external_body]
pub struct ExVorbisError(lewton::VorbisError);

/// lewton's Ogg Vorbis stream reader over an in-memory byte buffer.
#[verifier::external_body]
pub struct SourceReader {
    inner: OggStreamReader<Cursor<Vec<u8>>>,
}

/// Whether the byte buffer opens as an Ogg Vorbis stream: reading its three
/// headers succeeds or fails deterministically in the bytes alone.
pub uninterp spec fn ogg_headers_ok(bytes: Seq<u8>) -> bool;

/// The channel count declared by the identification header of the bytes.
pub uninterp spec fn vorbis_channel_count(bytes: Seq<u8>) -> u8;

/// The sample rate, in Hz, declared by the identification header of the
/// bytes.
pub uninterp spec fn vorbis_sample_rate(bytes: Seq<u8>) -> u32;

/// The interleaved PCM packets a clean decode of the bytes yields, in
/// stream order.
pub uninterp spec fn vorbis_packets(bytes: Seq<u8>) -> Seq<Seq<i16>>;

/// The channel count a reader's current identification header declares.
pub uninterp spec fn dec_channels(r: SourceReader) -> u8;

/// The sample rate a reader's current identification header declares.
pub uninterp spec fn dec_rate(r: SourceReader) -> u32;

/// The decoded packets a reader has still to yield, oldest first, assuming
/// the rest of its stream decodes cleanly.
pub uninterp spec fn dec_pending(r: SourceReader) -> Seq<Seq<i16>>;

/// Whether the next pull on the reader succeeds.  The reader draws from an
/// in-memory buffer, so each pull's outcome is determined by the reader's
/// state alone.
pub uninterp spec fn dec_next_ok(r: SourceReader) -> bool;

/// Whether every remaining pull on the reader succeeds, to the end of the
/// stream and beyond.
pub uninterp spec fn dec_all_ok(r: SourceReader) -> bool;

/// Whether a fresh reader over the bytes decodes the whole stream without
/// error, a function of the bytes alone.
pub uninterp spec fn vorbis_decodes_cleanly(bytes: Seq<u8>) -> bool;

/// Relies on `OggStreamReader::new` from lewton: it reads the three Vorbis
/// headers from the buffer, failing exactly when they are malformed, and a
/// successful open has validated a nonzero channel count and sample rate
/// and stands before the first audio packet.
#[verifier::external_body]
pub(crate) fn open_source(bytes: Vec<u8>) -> (r: Result<SourceReader, lewton::VorbisError>)
    ensures
        r is Ok <==> ogg_headers_ok(bytes@),
        r matches Ok(rd) ==> {
            &&& dec_channels(rd) == vorbis_channel_count(bytes@)
            &&& dec_rate(rd) == vorbis_sample_rate(bytes@)
            &&& dec_pending(rd) == vorbis_packets(bytes@)
            &&& (dec_all_ok(rd) <==> vorbis_decodes_cleanly(bytes@))
            &&& dec_channels(rd) >= 1
            &&& dec_rate(rd) >= 1
        },
{
    match OggStreamReader::new(Cursor::new(bytes)) {
        Ok(inner) => Ok(SourceReader { inner }),
        Err(e) => Err(e),
    }
}

/// Relies on the public `ident_hdr.audio_channels` field of lewton's
/// reader, the channel count its current identification header declares.
#[verifier::external_body]
pub(crate) fn source_channels(r: &SourceReader) -> (c: u8)
    ensures
        c == dec_channels(*r),
{
    r.inner.ident_hdr.audio_channels
}

/// Relies on the public `ident_hdr.audio_sample_rate` field of lewton's
/// reader, the sample rate its current identification header declares.
#[verifier::external_body]
pub(crate) fn source_sample_rate(r: &SourceReader) -> (c: u32)
    ensures
        c == dec_rate(*r),
{
    r.inner.ident_hdr.audio_sample_rate
}

/// Relies on `OggStreamReader::read_dec_packet_itl` from lewton: it yields
/// the next decoded interleaved packet, signals end of stream with `None`
/// exactly when no packet remains, and surfaces read or decode failures as
/// errors.  Each pull's outcome is determined by the reader's state; after
/// the end of the stream every further pull succeeds, returning `None`
/// again.
#[verifier::external_body]
pub(crate) fn read_packet(r: &mut SourceReader) -> (res: Result<Option<Vec<i16>>, lewton::VorbisError>)
    ensures
        res is Err <==> !dec_next_ok(*old(r)),
        dec_all_ok(*old(r)) ==> res is Ok && dec_all_ok(*final(r)),
        res matches Ok(Some(samples)) ==> {
            &&& dec_pending(*old(r)).len() > 0
            &&& samples@ == dec_pending(*old(r)).first()
            &&& dec_pending(*final(r)) == dec_pending(*old(r)).drop_first()
        },
        res matches Ok(None) ==> {
            &&& dec_pending(*old(r)).len() == 0
            &&& dec_pending(*final(r)).len() == 0
            &&& dec_next_ok(*final(r))
        },
{
    r.inner.read_dec_packet_itl()
}

} // verus!
