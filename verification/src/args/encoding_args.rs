//! Encoder tuning options: the latency/quality trade-off and the rate control
//! mode.
use vstd::prelude::*;

use crate::text::{
    chars_eq, chars_of, lemma_decimal_digits, lemma_parse_decimal, lemma_split_concat,
    lemma_split_no_sep, parse_u32, spec_decimal, spec_parse_u32, spec_split, split_chars,
};

verus! {

#[derive(Debug, Clone, Copy, PartialEq, Eq)]
pub enum LatencyControl {
    LowestLatency,
    HighestQuality,
}

impl Default for LatencyControl {
    fn default() -> (r: Self)
        ensures
            r == LatencyControl::LowestLatency,
    {
        LatencyControl::LowestLatency
    }
}

#[derive(Debug, Clone, Copy, PartialEq, Eq)]
pub struct CbrConfig {
    pub target_bitrate: u32,
}

#[derive(Debug, Clone, Copy, PartialEq, Eq)]
pub struct VbrConfig {
    pub target_bitrate: u32,
    pub max_bitrate: u32,
}

#[derive(Debug, Clone, Copy, PartialEq, Eq)]
pub struct CqpConfig {
    pub quality: u32,
}

#[derive(Debug, Clone, Copy, PartialEq, Eq)]
pub enum RateControl {
    CBR(CbrConfig),
    VBR(VbrConfig),
    CQP(CqpConfig),
}

/// The number `s` spells, or `default` if it spells none.
pub open spec fn number_or(s: Seq<char>, default: u32) -> u32 {
    match spec_parse_u32(s) {
        Some(v) => v,
        None => default,
    }
}

/// The rate control a text such as `cbr:8000`, `vbr:6000:12000` or `cqp:28`
/// names. Each number that does not parse takes its default (8000, 6000 and
/// 12000, 28); any other text is constant bit rate at 8000.
pub open spec fn spec_rate_control(s: Seq<char>) -> RateControl {
    let p = spec_split(s, ':');
    if p.len() == 2 && p[0] == "cbr"@ {
        RateControl::CBR(CbrConfig { target_bitrate: number_or(p[1], 8000) })
    } else if p.len() == 3 && p[0] == "vbr"@ {
        RateControl::VBR(
            VbrConfig { target_bitrate: number_or(p[1], 6000), max_bitrate: number_or(p[2], 12000) },
        )
    } else if p.len() == 2 && p[0] == "cqp"@ {
        RateControl::CQP(CqpConfig { quality: number_or(p[1], 28) })
    } else {
        RateControl::CBR(CbrConfig { target_bitrate: 8000 })
    }
}

/// The decimal text of a number has no `:`.
proof fn lemma_decimal_one_piece(n: u32)
    ensures
        spec_split(spec_decimal(n as nat), ':') == seq![spec_decimal(n as nat)],
{
    lemma_decimal_digits(n as nat);
    let d = spec_decimal(n as nat);
    assert forall|i: int| 0 <= i < d.len() implies #[trigger] d[i] != ':' by {
        assert('0' <= d[i] <= '9');
    }
    lemma_split_no_sep(d, ':');
}

/// The rate control texts the options print read back to the numbers printed:
/// `cbr:<t>`, `vbr:<t>:<m>` and `cqp:<q>` give exactly `t`, `t` and `m`, and
/// `q`.
pub proof fn lemma_rate_control_reads_back(t: u32, m: u32, q: u32)
    ensures
        spec_rate_control("cbr:"@ + spec_decimal(t as nat)) == RateControl::CBR(
            CbrConfig { target_bitrate: t },
        ),
        spec_rate_control("vbr:"@ + spec_decimal(t as nat) + ":"@ + spec_decimal(m as nat))
            == RateControl::VBR(VbrConfig { target_bitrate: t, max_bitrate: m }),
        spec_rate_control("cqp:"@ + spec_decimal(q as nat)) == RateControl::CQP(
            CqpConfig { quality: q },
        ),
{
    reveal_strlit("cbr:");
    reveal_strlit("vbr:");
    reveal_strlit("cqp:");
    reveal_strlit(":");
    reveal_strlit("cbr");
    reveal_strlit("vbr");
    reveal_strlit("cqp");
    let dt = spec_decimal(t as nat);
    let dm = spec_decimal(m as nat);
    let dq = spec_decimal(q as nat);
    lemma_decimal_one_piece(t);
    lemma_decimal_one_piece(m);
    lemma_decimal_one_piece(q);
    lemma_parse_decimal(t);
    lemma_parse_decimal(m);
    lemma_parse_decimal(q);
    lemma_split_no_sep("cbr"@, ':');
    lemma_split_no_sep("vbr"@, ':');
    lemma_split_no_sep("cqp"@, ':');

    assert("cbr:"@ + dt =~= "cbr"@ + seq![':'] + dt);
    lemma_split_concat("cbr"@, dt, ':');
    assert(spec_split("cbr:"@ + dt, ':') =~= seq!["cbr"@, dt]);

    assert("cqp:"@ + dq =~= "cqp"@ + seq![':'] + dq);
    lemma_split_concat("cqp"@, dq, ':');
    assert(spec_split("cqp:"@ + dq, ':') =~= seq!["cqp"@, dq]);

    let tail = dt + seq![':'] + dm;
    lemma_split_concat(dt, dm, ':');
    assert(spec_split(tail, ':') =~= seq![dt, dm]);
    assert("vbr:"@ + dt + ":"@ + dm =~= "vbr"@ + seq![':'] + tail);
    lemma_split_concat("vbr"@, tail, ':');
    assert(spec_split("vbr:"@ + dt + ":"@ + dm, ':') =~= seq!["vbr"@, dt, dm]);
}

/// A rate control text whose numbers do not parse takes the defaults: 8000
/// kbit/s for constant bit rate, 6000 and 12000 for variable bit rate,
/// quality 28 for constant quantisation; a text naming no mode is constant
/// bit rate at 8000.
pub proof fn lemma_rate_control_defaults(x: Seq<char>, t: Seq<char>)
    requires
        forall|i: int| 0 <= i < x.len() ==> #[trigger] x[i] != ':',
        spec_parse_u32(x) is None,
    ensures
        spec_rate_control("cbr:"@ + x) == RateControl::CBR(CbrConfig { target_bitrate: 8000 }),
        spec_rate_control("vbr:"@ + x + ":"@ + x) == RateControl::VBR(
            VbrConfig { target_bitrate: 6000, max_bitrate: 12000 },
        ),
        spec_rate_control("cqp:"@ + x) == RateControl::CQP(CqpConfig { quality: 28 }),
        spec_split(t, ':')[0] != "cbr"@ && spec_split(t, ':')[0] != "vbr"@ && spec_split(t, ':')[0]
            != "cqp"@ ==> spec_rate_control(t) == RateControl::CBR(CbrConfig { target_bitrate: 8000 }),
{
    reveal_strlit("cbr:");
    reveal_strlit("vbr:");
    reveal_strlit("cqp:");
    reveal_strlit(":");
    reveal_strlit("cbr");
    reveal_strlit("vbr");
    reveal_strlit("cqp");
    lemma_split_no_sep(x, ':');
    lemma_split_no_sep("cbr"@, ':');
    lemma_split_no_sep("vbr"@, ':');
    lemma_split_no_sep("cqp"@, ':');
    assert("cbr:"@ + x =~= "cbr"@ + seq![':'] + x);
    lemma_split_concat("cbr"@, x, ':');
    assert(spec_split("cbr:"@ + x, ':') =~= seq!["cbr"@, x]);
    assert("cqp:"@ + x =~= "cqp"@ + seq![':'] + x);
    lemma_split_concat("cqp"@, x, ':');
    assert(spec_split("cqp:"@ + x, ':') =~= seq!["cqp"@, x]);
    let tail = x + seq![':'] + x;
    lemma_split_concat(x, x, ':');
    assert(spec_split(tail, ':') =~= seq![x, x]);
    assert("vbr:"@ + x + ":"@ + x =~= "vbr"@ + seq![':'] + tail);
    lemma_split_concat("vbr"@, tail, ':');
    assert(spec_split("vbr:"@ + x + ":"@ + x, ':') =~= seq!["vbr"@, x, x]);
}

fn number_or_exec(s: &[char], default: u32) -> (r: u32)
    ensures
        r == number_or(s@, default),
{
    match parse_u32(s) {
        Some(v) => v,
        None => default,
    }
}

impl RateControl {
    /// Parses a rate control text like `cbr:8000`, `vbr:6000:12000` or `cqp:28`.
    pub fn parse(s: &str) -> (r: Self)
        ensures
            r == spec_rate_control(s@),
    {
        let text = chars_of(s);
        let parts = split_chars(&text, ':');
        let cbr = chars_of("cbr");
        let vbr = chars_of("vbr");
        let cqp = chars_of("cqp");
        if parts.len() == 2 && chars_eq(&parts[0], &cbr) {
            RateControl::CBR(CbrConfig { target_bitrate: number_or_exec(&parts[1], 8000) })
        } else if parts.len() == 3 && chars_eq(&parts[0], &vbr) {
            RateControl::VBR(
                VbrConfig {
                    target_bitrate: number_or_exec(&parts[1], 6000),
                    max_bitrate: number_or_exec(&parts[2], 12000),
                },
            )
        } else if parts.len() == 2 && chars_eq(&parts[0], &cqp) {
            RateControl::CQP(CqpConfig { quality: number_or_exec(&parts[1], 28) })
        } else {
            RateControl::CBR(CbrConfig { target_bitrate: 8000 })
        }
    }
}

} // verus!
