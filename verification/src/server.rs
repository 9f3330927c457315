//! The streaming server's pipeline description.
use vstd::prelude::*;
use vstd::string::*;

use crate::args::encoding_args::RateControl;
use crate::text::{decimal_string, digits_value, lemma_decimal_digits, spec_decimal};

verus! {

/// The GStreamer pipeline the server runs: screen capture of `monitor` at
/// `fps`, conversion, the `encoder` element at `bitrate` kbit/s, H.264
/// parsing, RTP payloading and the WebRTC sink.
pub open spec fn spec_pipeline_description(monitor: u32, fps: u32, encoder: Seq<char>, bitrate: u32) -> Seq<
    char,
> {
    "d3d11screencapturesrc monitor-index="@ + spec_decimal(monitor as nat)
        + " ! video/x-raw(memory:D3D11Memory),framerate="@ + spec_decimal(fps as nat)
        + "/1 ! d3d11convert ! "@ + encoder + " bitrate="@ + spec_decimal(bitrate as nat)
        + " ! h264parse ! rtph264pay pt=96 config-interval=-1 ! webrtcbin name=sendrecv bundle-policy=max-bundle stun-server=stun://stun.l.google.com:19302"@
}

/// Whether `d` holds, from index `i`, a run of ASCII digits worth `n` that ends
/// before a character that is no digit.
pub open spec fn number_at(d: Seq<char>, i: int, n: nat) -> bool {
    exists|k: int|
        #![trigger d.subrange(i, k)]
        i < k < d.len() && !('0' <= d[k] <= '9') && (forall|j: int| i <= j < k ==> '0' <= #[trigger] d[j] <= '9')
            && digits_value(d.subrange(i, k)) == n
}

/// Whether `d` holds `key` right before index `i`.
pub open spec fn key_before(d: Seq<char>, i: int, key: Seq<char>) -> bool {
    key.len() <= i <= d.len() && d.subrange(i - key.len(), i) == key
}

proof fn lemma_number_in(a: Seq<char>, n: nat, rest: Seq<char>)
    requires
        rest.len() > 0,
        !('0' <= rest[0] <= '9'),
    ensures
        number_at(a + spec_decimal(n) + rest, a.len() as int, n),
{
    lemma_decimal_digits(n);
    let dn = spec_decimal(n);
    let d = a + dn + rest;
    let k = (a.len() + dn.len()) as int;
    assert(d[k] == rest[0]);
    assert(d.subrange(a.len() as int, k) =~= dn);
    assert forall|j: int| a.len() <= j < k implies '0' <= #[trigger] d[j] <= '9' by {
        assert(d[j] == dn[j - a.len()]);
    }
}

/// The pipeline description captures the monitor it is given, at the frame
/// rate it is given, and encodes with the encoder element and at the bit rate
/// it is given: right after `monitor-index=`, `framerate=` and `bitrate=`
/// stand the decimal numbers of the monitor, the frame rate and the bit rate,
/// and the encoder element stands between `d3d11convert ! ` and ` bitrate=`.
pub proof fn lemma_pipeline_reads_back(monitor: u32, fps: u32, encoder: Seq<char>, bitrate: u32)
    ensures
        ({
            let d = spec_pipeline_description(monitor, fps, encoder, bitrate);
            &&& exists|i: int| key_before(d, i, "monitor-index="@) && number_at(d, i, monitor as nat)
            &&& exists|i: int| key_before(d, i, "framerate="@) && number_at(d, i, fps as nat)
            &&& exists|i: int| key_before(d, i, "bitrate="@) && number_at(d, i, bitrate as nat)
            &&& exists|i: int|
                key_before(d, i, "d3d11convert ! "@) && i + encoder.len() <= d.len() && d.subrange(
                    i,
                    i + encoder.len(),
                ) == encoder && key_before(d, i + encoder.len() + " bitrate="@.len(), " bitrate="@)
        }),
{
    let p1 = "d3d11screencapturesrc monitor-index="@;
    let p2 = " ! video/x-raw(memory:D3D11Memory),framerate="@;
    let p3 = "/1 ! d3d11convert ! "@;
    let p4 = " bitrate="@;
    let p5 = " ! h264parse ! rtph264pay pt=96 config-interval=-1 ! webrtcbin name=sendrecv bundle-policy=max-bundle stun-server=stun://stun.l.google.com:19302"@;
    reveal_strlit("d3d11screencapturesrc monitor-index=");
    reveal_strlit(" ! video/x-raw(memory:D3D11Memory),framerate=");
    reveal_strlit("/1 ! d3d11convert ! ");
    reveal_strlit(" bitrate=");
    reveal_strlit(" ! h264parse ! rtph264pay pt=96 config-interval=-1 ! webrtcbin name=sendrecv bundle-policy=max-bundle stun-server=stun://stun.l.google.com:19302");
    reveal_strlit("monitor-index=");
    reveal_strlit("framerate=");
    reveal_strlit("bitrate=");
    reveal_strlit("d3d11convert ! ");
    let dm = spec_decimal(monitor as nat);
    let df = spec_decimal(fps as nat);
    let db = spec_decimal(bitrate as nat);
    let d = spec_pipeline_description(monitor, fps, encoder, bitrate);
    assert(d == p1 + dm + p2 + df + p3 + encoder + p4 + db + p5);

    let r1 = p2 + df + p3 + encoder + p4 + db + p5;
    assert(d =~= p1 + dm + r1);
    assert(r1[0] == p2[0]);
    lemma_number_in(p1, monitor as nat, r1);
    let i1 = p1.len() as int;
    assert(d.subrange(i1 - 14, i1) =~= "monitor-index="@);
    assert(key_before(d, i1, "monitor-index="@) && number_at(d, i1, monitor as nat));

    let a2 = p1 + dm + p2;
    let r2 = p3 + encoder + p4 + db + p5;
    assert(d =~= a2 + df + r2);
    assert(r2[0] == p3[0]);
    lemma_number_in(a2, fps as nat, r2);
    let i2 = a2.len() as int;
    assert(d.subrange(i2 - 10, i2) =~= "framerate="@);
    assert(key_before(d, i2, "framerate="@) && number_at(d, i2, fps as nat));

    let a3 = p1 + dm + p2 + df + p3 + encoder + p4;
    assert(d =~= a3 + db + p5);
    assert(p5[0] == ' ');
    lemma_number_in(a3, bitrate as nat, p5);
    let i3 = a3.len() as int;
    assert(d.subrange(i3 - 8, i3) =~= "bitrate="@);
    assert(key_before(d, i3, "bitrate="@) && number_at(d, i3, bitrate as nat));

    let a4 = p1 + dm + p2 + df + p3;
    let i4 = a4.len() as int;
    assert(d.subrange(i4 - 15, i4) =~= "d3d11convert ! "@);
    assert(d.subrange(i4, i4 + encoder.len()) =~= encoder);
    assert(d.subrange(i4 + encoder.len(), i4 + encoder.len() + 9) =~= " bitrate="@);
    assert(key_before(d, i4, "d3d11convert ! "@) && i4 + encoder.len() <= d.len() && d.subrange(
        i4,
        i4 + encoder.len(),
    ) == encoder && key_before(d, i4 + encoder.len() + " bitrate="@.len(), " bitrate="@));
}

/// The GStreamer pipeline description the server launches.
pub fn pipeline_description(monitor: u32, fps: u32, encoder: &str, bitrate: u32) -> (r: String)
    ensures
        r@ == spec_pipeline_description(monitor, fps, encoder@, bitrate),
{
    let m = decimal_string(monitor as u64);
    let f = decimal_string(fps as u64);
    let b = decimal_string(bitrate as u64);
    let s = String::from_str("d3d11screencapturesrc monitor-index=");
    let s = s.concat(m.as_str());
    let s = s.concat(" ! video/x-raw(memory:D3D11Memory),framerate=");
    let s = s.concat(f.as_str());
    let s = s.concat("/1 ! d3d11convert ! ");
    let s = s.concat(encoder);
    let s = s.concat(" bitrate=");
    let s = s.concat(b.as_str());
    s.concat(
        " ! h264parse ! rtph264pay pt=96 config-interval=-1 ! webrtcbin name=sendrecv bundle-policy=max-bundle stun-server=stun://stun.l.google.com:19302",
    )
}

/// The bit rate (kbit/s) the encoder element is given under rate control `rc`:
/// the target of a constant or variable bit rate, and 8000 under constant
/// quantisation, which names no bit rate.
pub open spec fn spec_stream_bitrate(rc: RateControl) -> u32 {
    match rc {
        RateControl::CBR(c) => c.target_bitrate,
        RateControl::VBR(v) => v.target_bitrate,
        RateControl::CQP(_) => 8000,
    }
}

/// The bit rate (kbit/s) the encoder element is given under rate control `rc`.
pub fn stream_bitrate(rc: &RateControl) -> (r: u32)
    ensures
        r == spec_stream_bitrate(*rc),
{
    match rc {
        RateControl::CBR(c) => c.target_bitrate,
        RateControl::VBR(v) => v.target_bitrate,
        RateControl::CQP(_) => 8000,
    }
}

} // verus!
