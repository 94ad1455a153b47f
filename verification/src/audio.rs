//! Audio output helpers: volume scaling of PCM samples and the byte layout
//! expected by the system PCM player (interleaved signed 16-bit little
//! endian).
use vstd::prelude::*;

verus! {

/// Division truncating toward zero, as Rust's `/` on signed integers.
pub open spec fn div_trunc(a: int, b: int) -> int {
    if a >= 0 {
        a / b
    } else {
        -((-a) / b)
    }
}

/// A sample attenuated by `volume` percent (volumes above 100 count as 100).
pub open spec fn scaled(s: i16, volume: u8) -> int {
    let v: int = if volume < 100 {
        volume as int
    } else {
        100
    };
    if v == 100 {
        s as int
    } else {
        div_trunc(s * v, 100)
    }
}

/// Two's complement 16-bit pattern of a sample.
pub open spec fn pattern(x: int) -> int {
    if x < 0 {
        x + 65536
    } else {
        x
    }
}

/// The little-endian bytes of the attenuated samples.
pub open spec fn pcm_bytes(samples: Seq<i16>, volume: u8) -> Seq<u8> {
    Seq::new(
        2 * samples.len(),
        |i: int|
            {
                let p = pattern(scaled(samples[i / 2], volume));
                if i % 2 == 0 {
                    (p % 256) as u8
                } else {
                    (p / 256) as u8
                }
            },
    )
}

/// Attenuates interleaved samples by `volume` (0..=100) and lays them out
/// as little-endian bytes for the PCM player.
pub fn scale_samples(samples: &[i16], volume: u8) -> (r: Vec<u8>)
    requires
        2 * samples@.len() <= usize::MAX,
    ensures
        r@ == pcm_bytes(samples@, volume),
{
    let v: i32 = if volume < 100 {
        volume as i32
    } else {
        100
    };
    let mut out: Vec<u8> = Vec::new();
    let mut i: usize = 0;
    while i < samples.len()
        invariant
            i <= samples@.len(),
            2 * samples@.len() <= usize::MAX,
            v == (if volume < 100 {
                volume as int
            } else {
                100
            }),
            out@.len() == 2 * i,
            forall|k: int| 0 <= k < 2 * i ==> out@[k] == pcm_bytes(samples@, volume)[k],
        decreases samples@.len() - i,
    {
        let s = samples[i];
        let q: i32 = if v == 100 {
            s as i32
        } else {
            assert(-3276800 <= (s as int) * (v as int) <= 3276700) by (nonlinear_arith)
                requires
                    -32768 <= s <= 32767,
                    0 <= v <= 100,
            ;
            let m = (s as i32) * v;
            if m >= 0 {
                m / 100
            } else {
                -((-m) / 100)
            }
        };
        assert(q == scaled(s, volume));
        assert(-32768 <= q <= 32767) by (nonlinear_arith)
            requires
                q == scaled(s, volume),
                -32768 <= s <= 32767,
        ;
        let u: u32 = if q < 0 {
            (q + 65536) as u32
        } else {
            q as u32
        };
        out.push((u % 256) as u8);
        out.push((u / 256) as u8);
        i = i + 1;
    }
    assert(out@ =~= pcm_bytes(samples@, volume));
    out
}

/// At full volume (or above) the samples pass through unchanged.
pub proof fn law_full_volume_passes_through(s: i16, volume: u8)
    requires
        volume >= 100,
    ensures
        scaled(s, volume) == s as int,
{
}

/// At volume 0 every sample is silence.
pub proof fn law_zero_volume_is_silent(s: i16)
    ensures
        scaled(s, 0) == 0,
{
}

/// Attenuation never amplifies: the scaled sample has the sign of the
/// input sample and no larger magnitude.
pub proof fn law_attenuation_bounded(s: i16, volume: u8)
    ensures
        s >= 0 ==> 0 <= scaled(s, volume) <= s,
        s < 0 ==> s <= scaled(s, volume) <= 0,
{
    let v: int = if volume < 100 {
        volume as int
    } else {
        100
    };
    if v < 100 {
        if s >= 0 {
            assert(0 <= (s * v) / 100 <= s) by (nonlinear_arith)
                requires
                    0 <= s,
                    0 <= v < 100,
            ;
        } else {
            assert(0 <= ((-s) * v) / 100 <= -s) by (nonlinear_arith)
                requires
                    s < 0,
                    0 <= v < 100,
            ;
            assert(-(s * v) == (-s) * v) by (nonlinear_arith);
        }
    }
}

} // verus!
