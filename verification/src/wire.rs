//! Canonical binary wire format of an `ImageSpec`: a length-delimited
//! sequence of tagged operation records. The format is tag-tolerant: a record
//! kind unknown to this decoder parses as an ignorable entry, and unknown
//! fields inside a record are skipped by wire type.
//!
//! The spec-level encoder `enc_image_spec` is the canonical definition of the
//! format; `decode_wire` is the spec-level parser for arbitrary byte strings,
//! and `lemma_wire_round_trip` proves that it inverts the encoder.

use vstd::prelude::*;
use crate::pb::{ImageSpec, Spec, SpecData, Resize, ResizeType, SampleFilter, Filter};
use vstd::arithmetic::div_mod::{
    lemma_fundamental_div_mod, lemma_div_is_ordered, lemma_div_multiples_vanish,
};

verus! {

// ---------------------------------------------------------------------------
// Base-128 varints
// ---------------------------------------------------------------------------

/// Little-endian base-128 encoding: low seven bits first, the high bit of a
/// byte marks that more bytes follow.
pub open spec fn enc_varint(n: u64) -> Seq<u8>
    decreases n,
{
    if n < 128 {
        seq![n as u8]
    } else {
        seq![(n % 128 + 128) as u8] + enc_varint(n / 128)
    }
}

/// Parses a varint from the front of `s`, returning the value and the rest.
/// Fails on an empty or truncated buffer and on a value past `u64::MAX`.
pub open spec fn parse_varint(s: Seq<u8>) -> Option<(u64, Seq<u8>)>
    decreases s.len(),
{
    if s.len() == 0 {
        None
    } else if s[0] < 128 {
        Some((s[0] as u64, s.drop_first()))
    } else {
        match parse_varint(s.drop_first()) {
            None => None,
            Some((hi, rest)) => {
                let low = (s[0] - 128) as u64;
                if hi <= (u64::MAX - low) / 128 {
                    Some(((low + 128 * hi) as u64, rest))
                } else {
                    None
                }
            },
        }
    }
}

/// The continuation guard admits exactly the values that fit in a `u64`.
proof fn lemma_varint_guard(low: u64, hi: u64)
    requires
        low < 128,
        hi <= (u64::MAX - low) / 128,
    ensures
        128 * hi + low <= u64::MAX,
{
    lemma_fundamental_div_mod((u64::MAX - low) as int, 128);
    assert(128 * hi <= 128 * ((u64::MAX - low) as int / 128)) by (nonlinear_arith)
        requires
            hi <= (u64::MAX - low) as int / 128,
    {
    }
}

proof fn lemma_varint_guard_holds(low: u64, hi: u64)
    requires
        low < 128,
        128 * hi + low <= u64::MAX,
    ensures
        hi <= (u64::MAX - low) / 128,
{
    lemma_div_multiples_vanish(hi as int, 128);
    lemma_div_is_ordered(128 * (hi as int), (u64::MAX - low) as int, 128);
}

/// Parsing inverts encoding, whatever follows the encoded bytes.
pub proof fn lemma_parse_enc_varint(n: u64, rest: Seq<u8>)
    ensures
        parse_varint(enc_varint(n) + rest) == Some((n, rest)),
    decreases n,
{
    let s = enc_varint(n) + rest;
    if n < 128 {
        assert(s[0] == n as u8);
        assert(s.drop_first() =~= rest);
    } else {
        lemma_parse_enc_varint(n / 128, rest);
        assert(s[0] == (n % 128 + 128) as u8);
        assert(s.drop_first() =~= enc_varint(n / 128) + rest);
        let low = (s[0] - 128) as u64;
        let hi = (n / 128) as u64;
        lemma_fundamental_div_mod(n as int, 128);
        assert(low == n % 128);
        assert(128 * hi + low == n);
        lemma_varint_guard_holds(low, hi);
    }
}

// ---------------------------------------------------------------------------
// Executable varint encoding and decoding
// ---------------------------------------------------------------------------

/// Appends the varint encoding of `n` to `out`.
pub fn push_varint(out: &mut Vec<u8>, n: u64)
    ensures
        final(out)@ == old(out)@ + enc_varint(n),
    decreases n,
{
    if n < 128 {
        out.push(n as u8);
        assert(out@ =~= old(out)@ + enc_varint(n));
    } else {
        let b: u8 = (n % 128 + 128) as u8;
        out.push(b);
        push_varint(out, n / 128);
        assert(out@ =~= old(out)@ + enc_varint(n));
    }
}

/// Reads a varint from `data` starting at `i`, never looking past `end`.
/// Agrees exactly with `parse_varint` on the byte range `[i, end)`.
pub fn read_varint(data: &Vec<u8>, i: usize, end: usize) -> (r: Option<(u64, usize)>)
    requires
        i <= end <= data@.len(),
    ensures
        match r {
            Some((v, j)) => i < j <= end && parse_varint(data@.subrange(i as int, end as int))
                == Some((v, data@.subrange(j as int, end as int))),
            None => parse_varint(data@.subrange(i as int, end as int)) is None,
        },
    decreases end - i,
{
    let ghost s = data@.subrange(i as int, end as int);
    if i == end {
        return None;
    }
    let b = data[i];
    assert(s[0] == b);
    assert(s.drop_first() =~= data@.subrange(i + 1, end as int));
    if b < 128 {
        Some((b as u64, i + 1))
    } else {
        match read_varint(data, i + 1, end) {
            None => None,
            Some((hi, j)) => {
                let low: u64 = (b - 128) as u64;
                if hi <= (u64::MAX - low) / 128 {
                    proof {
                        lemma_varint_guard(low, hi);
                    }
                    Some((low + 128 * hi, j))
                } else {
                    None
                }
            },
        }
    }
}


// ---------------------------------------------------------------------------
// Operation records: spec-level encoding
// ---------------------------------------------------------------------------

/// Wire code of a resize type; `Normal` is the default code 0.
pub open spec fn rtype_code(t: ResizeType) -> u64 {
    match t {
        ResizeType::Normal => 0,
        ResizeType::SeamCarve => 1,
    }
}

/// A decoder maps an unknown resize-type code to the default.
pub open spec fn rtype_of_code(n: u64) -> ResizeType {
    if n == 1 {
        ResizeType::SeamCarve
    } else {
        ResizeType::Normal
    }
}

/// Wire code of a sampling filter; `Undefined` is the default code 0.
pub open spec fn sfilter_code(f: SampleFilter) -> u64 {
    match f {
        SampleFilter::Undefined => 0,
        SampleFilter::Nearest => 1,
        SampleFilter::Triangle => 2,
        SampleFilter::CatmullRom => 3,
        SampleFilter::Gaussian => 4,
        SampleFilter::Lanczos3 => 5,
    }
}

/// A decoder maps an unknown sampling-filter code to the sentinel.
pub open spec fn sfilter_of_code(n: u64) -> SampleFilter {
    if n == 1 {
        SampleFilter::Nearest
    } else if n == 2 {
        SampleFilter::Triangle
    } else if n == 3 {
        SampleFilter::CatmullRom
    } else if n == 4 {
        SampleFilter::Gaussian
    } else if n == 5 {
        SampleFilter::Lanczos3
    } else {
        SampleFilter::Undefined
    }
}

/// Wire code of a named filter; `Unspecified` is the default code 0.
pub open spec fn filter_code(f: Filter) -> u64 {
    match f {
        Filter::Unspecified => 0,
        Filter::Oceanic => 1,
        Filter::Islands => 2,
        Filter::Marine => 3,
    }
}

/// A decoder maps an unknown named-filter code to the no-op sentinel.
pub open spec fn filter_of_code(n: u64) -> Filter {
    if n == 1 {
        Filter::Oceanic
    } else if n == 2 {
        Filter::Islands
    } else if n == 3 {
        Filter::Marine
    } else {
        Filter::Unspecified
    }
}

/// Body of a resize record: fields 1..4 in order, defaults omitted.
pub open spec fn enc_resize(r: Resize) -> Seq<u8> {
    (if r.width != 0 {
        seq![8u8] + enc_varint(r.width as u64)
    } else {
        Seq::<u8>::empty()
    }) + (if r.height != 0 {
        seq![16u8] + enc_varint(r.height as u64)
    } else {
        Seq::<u8>::empty()
    }) + (if r.rtype != ResizeType::Normal {
        seq![24u8] + enc_varint(rtype_code(r.rtype))
    } else {
        Seq::<u8>::empty()
    }) + (if r.filter != SampleFilter::Undefined {
        seq![32u8] + enc_varint(sfilter_code(r.filter))
    } else {
        Seq::<u8>::empty()
    })
}

/// Body of a named-filter record: field 1, default omitted.
pub open spec fn enc_filter_msg(f: Filter) -> Seq<u8> {
    if f != Filter::Unspecified {
        seq![8u8] + enc_varint(filter_code(f))
    } else {
        Seq::<u8>::empty()
    }
}

/// Body of one pipeline step: the record kind is the field number of a
/// length-delimited sub-record (1 resize, 2 filter); an unrecognized step
/// encodes as an empty body.
pub open spec fn enc_spec_msg(s: Spec) -> Seq<u8> {
    match s.data {
        None => Seq::<u8>::empty(),
        Some(SpecData::Resize(r)) => seq![10u8] + enc_varint(enc_resize(r).len() as u64)
            + enc_resize(r),
        Some(SpecData::Filter(f)) => seq![18u8] + enc_varint(enc_filter_msg(f).len() as u64)
            + enc_filter_msg(f),
    }
}

/// One length-delimited entry of the pipeline sequence (field 1).
pub open spec fn enc_spec_entry(s: Spec) -> Seq<u8> {
    seq![10u8] + enc_varint(enc_spec_msg(s).len() as u64) + enc_spec_msg(s)
}

/// The canonical wire bytes of a whole pipeline.
pub open spec fn enc_image_spec(specs: Seq<Spec>) -> Seq<u8>
    decreases specs.len(),
{
    if specs.len() == 0 {
        Seq::<u8>::empty()
    } else {
        enc_spec_entry(specs[0]) + enc_image_spec(specs.drop_first())
    }
}

// ---------------------------------------------------------------------------
// Operation records: spec-level parsing
// ---------------------------------------------------------------------------

/// The empty resize record: every field at its default.
pub open spec fn default_resize() -> Resize {
    Resize {
        width: 0,
        height: 0,
        rtype: ResizeType::Normal,
        filter: SampleFilter::Undefined,
    }
}

/// Applies one varint field of a resize record; unknown fields are ignored.
pub open spec fn set_resize_field(r: Resize, field: u64, v: u64) -> Resize {
    if field == 1 {
        Resize { width: v as u32, ..r }
    } else if field == 2 {
        Resize { height: v as u32, ..r }
    } else if field == 3 {
        Resize { rtype: rtype_of_code(v), ..r }
    } else if field == 4 {
        Resize { filter: sfilter_of_code(v), ..r }
    } else {
        r
    }
}

/// Skips one field of an unknown number according to its wire type.
/// Returns the rest of the buffer, or `None` when the buffer is truncated or
/// the wire type is not one a varint-and-length format can carry.
pub open spec fn skip_unknown(wire: u64, s: Seq<u8>) -> Option<Seq<u8>> {
    if wire == 0 {
        match parse_varint(s) {
            None => None,
            Some((v, rest)) => Some(rest),
        }
    } else if wire == 1 {
        if s.len() >= 8 {
            Some(s.skip(8))
        } else {
            None
        }
    } else if wire == 2 {
        match parse_varint(s) {
            None => None,
            Some((len, rest)) => if len <= rest.len() {
                Some(rest.skip(len as int))
            } else {
                None
            },
        }
    } else if wire == 5 {
        if s.len() >= 4 {
            Some(s.skip(4))
        } else {
            None
        }
    } else {
        None
    }
}

/// Parses a whole resize-record body. Recognized fields are varints; fields
/// of other numbers are skipped; a recognized field with the wrong wire type,
/// a field number 0 or a truncated buffer is malformed.
pub open spec fn parse_resize_body(s: Seq<u8>, acc: Resize) -> Option<Resize>
    decreases s.len(),
{
    if s.len() == 0 {
        Some(acc)
    } else {
        match parse_varint(s) {
            None => None,
            Some((tag, r1)) => {
                let field = tag / 8;
                let wire = tag % 8;
                if field == 0 {
                    None
                } else if 1 <= field <= 4 {
                    if wire != 0 {
                        None
                    } else {
                        match parse_varint(r1) {
                            None => None,
                            Some((v, r2)) => if r2.len() < s.len() {
                                parse_resize_body(r2, set_resize_field(acc, field, v))
                            } else {
                                None
                            },
                        }
                    }
                } else {
                    match skip_unknown(wire, r1) {
                        None => None,
                        Some(r2) => if r2.len() < s.len() {
                            parse_resize_body(r2, acc)
                        } else {
                            None
                        },
                    }
                }
            },
        }
    }
}

/// Parses a whole named-filter-record body.
pub open spec fn parse_filter_body(s: Seq<u8>, acc: Filter) -> Option<Filter>
    decreases s.len(),
{
    if s.len() == 0 {
        Some(acc)
    } else {
        match parse_varint(s) {
            None => None,
            Some((tag, r1)) => {
                let field = tag / 8;
                let wire = tag % 8;
                if field == 0 {
                    None
                } else if field == 1 {
                    if wire != 0 {
                        None
                    } else {
                        match parse_varint(r1) {
                            None => None,
                            Some((v, r2)) => if r2.len() < s.len() {
                                parse_filter_body(r2, filter_of_code(v))
                            } else {
                                None
                            },
                        }
                    }
                } else {
                    match skip_unknown(wire, r1) {
                        None => None,
                        Some(r2) => if r2.len() < s.len() {
                            parse_filter_body(r2, acc)
                        } else {
                            None
                        },
                    }
                }
            },
        }
    }
}

/// Parses a whole pipeline-step body. The two recognized record kinds are
/// length-delimited sub-records; a step whose fields are all of unknown
/// numbers parses as the ignorable step `data == None`.
pub open spec fn parse_spec_body(s: Seq<u8>, acc: Spec) -> Option<Spec>
    decreases s.len(),
{
    if s.len() == 0 {
        Some(acc)
    } else {
        match parse_varint(s) {
            None => None,
            Some((tag, r1)) => {
                let field = tag / 8;
                let wire = tag % 8;
                if field == 0 {
                    None
                } else if field == 1 || field == 2 {
                    if wire != 2 {
                        None
                    } else {
                        match parse_varint(r1) {
                            None => None,
                            Some((len, r2)) => if len <= r2.len() {
                                let body = r2.take(len as int);
                                let rest = r2.skip(len as int);
                                let data = if field == 1 {
                                    match parse_resize_body(body, default_resize()) {
                                        None => None,
                                        Some(r) => Some(Some(SpecData::Resize(r))),
                                    }
                                } else {
                                    match parse_filter_body(body, Filter::Unspecified) {
                                        None => None,
                                        Some(f) => Some(Some(SpecData::Filter(f))),
                                    }
                                };
                                match data {
                                    None => None,
                                    Some(d) => if rest.len() < s.len() {
                                        parse_spec_body(rest, Spec { data: d })
                                    } else {
                                        None
                                    },
                                }
                            } else {
                                None
                            },
                        }
                    }
                } else {
                    match skip_unknown(wire, r1) {
                        None => None,
                        Some(r2) => if r2.len() < s.len() {
                            parse_spec_body(r2, acc)
                        } else {
                            None
                        },
                    }
                }
            },
        }
    }
}

/// Parses the whole pipeline: a sequence of length-delimited step entries
/// (field 1); fields of other numbers are skipped.
pub open spec fn parse_image_spec_body(s: Seq<u8>, acc: Seq<Spec>) -> Option<Seq<Spec>>
    decreases s.len(),
{
    if s.len() == 0 {
        Some(acc)
    } else {
        match parse_varint(s) {
            None => None,
            Some((tag, r1)) => {
                let field = tag / 8;
                let wire = tag % 8;
                if field == 0 {
                    None
                } else if field == 1 {
                    if wire != 2 {
                        None
                    } else {
                        match parse_varint(r1) {
                            None => None,
                            Some((len, r2)) => if len <= r2.len() {
                                let body = r2.take(len as int);
                                let rest = r2.skip(len as int);
                                match parse_spec_body(body, Spec { data: None }) {
                                    None => None,
                                    Some(sp) => if rest.len() < s.len() {
                                        parse_image_spec_body(rest, acc.push(sp))
                                    } else {
                                        None
                                    },
                                }
                            } else {
                                None
                            },
                        }
                    }
                } else {
                    match skip_unknown(wire, r1) {
                        None => None,
                        Some(r2) => if r2.len() < s.len() {
                            parse_image_spec_body(r2, acc)
                        } else {
                            None
                        },
                    }
                }
            },
        }
    }
}

/// The spec-level decoder of the whole wire format.
pub open spec fn decode_wire(s: Seq<u8>) -> Option<Seq<Spec>> {
    parse_image_spec_body(s, Seq::<Spec>::empty())
}


// ---------------------------------------------------------------------------
// Round trip: the parser inverts the encoder
// ---------------------------------------------------------------------------

proof fn lemma_enc_varint_len_aux(n: u64, k: nat)
    requires
        1 <= k,
        (n as nat) < vstd::arithmetic::power::pow(128, k),
    ensures
        1 <= enc_varint(n).len() <= k,
    decreases k,
{
    if n >= 128 {
        let p = vstd::arithmetic::power::pow(128, (k - 1) as nat);
        vstd::arithmetic::power::lemma_pow1(128);
        vstd::arithmetic::power::lemma_pow_adds(128, 1, (k - 1) as nat);
        assert(vstd::arithmetic::power::pow(128, k) == 128 * p);
        vstd::arithmetic::power::lemma_pow_positive(128, (k - 1) as nat);
        assert((n as int) / 128 < p) by (nonlinear_arith)
            requires
                (n as int) < 128 * p,
                p > 0,
        {
        }
        lemma_enc_varint_len_aux(n / 128, (k - 1) as nat);
    }
}

/// A varint takes between one and ten bytes.
pub proof fn lemma_enc_varint_len(n: u64)
    ensures
        1 <= enc_varint(n).len() <= 10,
{
    vstd::arithmetic::power2::lemma2_to64();
    vstd::arithmetic::power2::lemma_pow2(7);
    vstd::arithmetic::power2::lemma_pow2(70);
    vstd::arithmetic::power::lemma_pow_multiplies(2, 7, 10);
    vstd::arithmetic::power2::lemma_pow2_strictly_increases(64, 70);
    assert((u64::MAX as nat) < vstd::arithmetic::power::pow(128, 10));
    lemma_enc_varint_len_aux(n, 10);
}

/// Bounds for the record bodies, so that their lengths fit a `u64` exactly.
pub proof fn lemma_enc_resize_len(r: Resize)
    ensures
        enc_resize(r).len() <= 44,
{
    lemma_enc_varint_len(r.width as u64);
    lemma_enc_varint_len(r.height as u64);
    lemma_enc_varint_len(rtype_code(r.rtype));
    lemma_enc_varint_len(sfilter_code(r.filter));
}

pub proof fn lemma_enc_filter_len(f: Filter)
    ensures
        enc_filter_msg(f).len() <= 11,
{
    lemma_enc_varint_len(filter_code(f));
}

pub proof fn lemma_enc_spec_msg_len(s: Spec)
    ensures
        enc_spec_msg(s).len() <= 55,
{
    match s.data {
        None => {},
        Some(SpecData::Resize(r)) => {
            lemma_enc_resize_len(r);
            lemma_enc_varint_len(enc_resize(r).len() as u64);
        },
        Some(SpecData::Filter(f)) => {
            lemma_enc_filter_len(f);
            lemma_enc_varint_len(enc_filter_msg(f).len() as u64);
        },
    }
}

/// One recognized varint field of a resize record parses and recurses.
proof fn lemma_resize_field_step(tagbyte: u8, field: u64, v: u64, rest: Seq<u8>, acc: Resize)
    requires
        1 <= field <= 4,
        tagbyte == field * 8,
    ensures
        parse_resize_body(seq![tagbyte] + enc_varint(v) + rest, acc) == parse_resize_body(
            rest,
            set_resize_field(acc, field, v),
        ),
{
    let s = seq![tagbyte] + enc_varint(v) + rest;
    assert(s[0] == tagbyte);
    assert(tagbyte < 128);
    assert(s.drop_first() =~= enc_varint(v) + rest);
    lemma_parse_enc_varint(v, rest);
    assert(tagbyte as u64 / 8 == field && tagbyte as u64 % 8 == 0);
    assert(rest.len() < s.len());
}

/// A resize body parses back to the record it encodes.
pub proof fn lemma_parse_enc_resize(r: Resize)
    ensures
        parse_resize_body(enc_resize(r), default_resize()) == Some(r),
{
    let c1 = if r.width != 0 {
        seq![8u8] + enc_varint(r.width as u64)
    } else {
        Seq::<u8>::empty()
    };
    let c2 = if r.height != 0 {
        seq![16u8] + enc_varint(r.height as u64)
    } else {
        Seq::<u8>::empty()
    };
    let c3 = if r.rtype != ResizeType::Normal {
        seq![24u8] + enc_varint(rtype_code(r.rtype))
    } else {
        Seq::<u8>::empty()
    };
    let c4 = if r.filter != SampleFilter::Undefined {
        seq![32u8] + enc_varint(sfilter_code(r.filter))
    } else {
        Seq::<u8>::empty()
    };
    let t4 = c4;
    let t3 = c3 + t4;
    let t2 = c2 + t3;
    let t1 = c1 + t2;
    assert(enc_resize(r) =~= t1);
    let acc0 = default_resize();
    let acc1 = Resize { width: r.width, ..acc0 };
    let acc2 = Resize { height: r.height, ..acc1 };
    let acc3 = Resize { rtype: r.rtype, ..acc2 };
    let acc4 = Resize { filter: r.filter, ..acc3 };
    assert(acc4 == r);
    if r.width != 0 {
        assert(t1 =~= seq![8u8] + enc_varint(r.width as u64) + t2);
        lemma_resize_field_step(8u8, 1, r.width as u64, t2, acc0);
        assert(set_resize_field(acc0, 1, r.width as u64) == acc1);
    } else {
        assert(t1 =~= t2);
        assert(acc1 == acc0);
    }
    assert(parse_resize_body(t1, acc0) == parse_resize_body(t2, acc1));
    if r.height != 0 {
        assert(t2 =~= seq![16u8] + enc_varint(r.height as u64) + t3);
        lemma_resize_field_step(16u8, 2, r.height as u64, t3, acc1);
        assert(set_resize_field(acc1, 2, r.height as u64) == acc2);
    } else {
        assert(t2 =~= t3);
        assert(acc2 == acc1);
    }
    assert(parse_resize_body(t2, acc1) == parse_resize_body(t3, acc2));
    if r.rtype != ResizeType::Normal {
        assert(t3 =~= seq![24u8] + enc_varint(rtype_code(r.rtype)) + t4);
        lemma_resize_field_step(24u8, 3, rtype_code(r.rtype), t4, acc2);
        assert(rtype_of_code(rtype_code(r.rtype)) == r.rtype);
        assert(set_resize_field(acc2, 3, rtype_code(r.rtype)) == acc3);
    } else {
        assert(t3 =~= t4);
        assert(acc3 == acc2);
    }
    assert(parse_resize_body(t3, acc2) == parse_resize_body(t4, acc3));
    if r.filter != SampleFilter::Undefined {
        assert(t4 =~= seq![32u8] + enc_varint(sfilter_code(r.filter)) + Seq::<u8>::empty());
        lemma_resize_field_step(32u8, 4, sfilter_code(r.filter), Seq::<u8>::empty(), acc3);
        assert(sfilter_of_code(sfilter_code(r.filter)) == r.filter);
        assert(set_resize_field(acc3, 4, sfilter_code(r.filter)) == acc4);
    } else {
        assert(t4 =~= Seq::<u8>::empty());
        assert(acc4 == acc3);
    }
    assert(parse_resize_body(t4, acc3) == Some(acc4));
}

/// A named-filter body parses back to the filter it encodes.
pub proof fn lemma_parse_enc_filter(f: Filter)
    ensures
        parse_filter_body(enc_filter_msg(f), Filter::Unspecified) == Some(f),
{
    if f != Filter::Unspecified {
        let s = enc_filter_msg(f);
        assert(s =~= seq![8u8] + enc_varint(filter_code(f)) + Seq::<u8>::empty());
        assert(s[0] == 8u8);
        assert(s.drop_first() =~= enc_varint(filter_code(f)) + Seq::<u8>::empty());
        lemma_parse_enc_varint(filter_code(f), Seq::<u8>::empty());
        assert(filter_of_code(filter_code(f)) == f);
        assert(parse_filter_body(Seq::<u8>::empty(), filter_of_code(filter_code(f)))
            == Some(f));
    }
}

/// A pipeline-step body parses back to the step it encodes.
#[verifier::rlimit(50)]
pub proof fn lemma_parse_enc_spec(s: Spec)
    ensures
        parse_spec_body(enc_spec_msg(s), Spec { data: None }) == Some(s),
{
    match s.data {
        None => {},
        Some(SpecData::Resize(r)) => {
            let body = enc_resize(r);
            lemma_enc_resize_len(r);
            let len = body.len() as u64;
            assert(len == body.len());
            let bytes = enc_spec_msg(s);
            assert(bytes =~= seq![10u8] + (enc_varint(len) + body));
            assert(bytes[0] == 10u8);
            assert(bytes.drop_first() =~= enc_varint(len) + body);
            lemma_parse_enc_varint(len, body);
            assert(body.take(len as int) =~= body);
            assert(body.skip(len as int) =~= Seq::<u8>::empty());
            lemma_parse_enc_resize(r);
            assert(parse_spec_body(
                Seq::<u8>::empty(),
                Spec { data: Some(SpecData::Resize(r)) },
            ) == Some(s));
        },
        Some(SpecData::Filter(f)) => {
            let body = enc_filter_msg(f);
            lemma_enc_filter_len(f);
            let len = body.len() as u64;
            assert(len == body.len());
            let bytes = enc_spec_msg(s);
            assert(bytes =~= seq![18u8] + (enc_varint(len) + body));
            assert(bytes[0] == 18u8);
            assert(bytes.drop_first() =~= enc_varint(len) + body);
            lemma_parse_enc_varint(len, body);
            assert(body.take(len as int) =~= body);
            assert(body.skip(len as int) =~= Seq::<u8>::empty());
            lemma_parse_enc_filter(f);
            assert(parse_spec_body(
                Seq::<u8>::empty(),
                Spec { data: Some(SpecData::Filter(f)) },
            ) == Some(s));
        },
    }
}

#[verifier::rlimit(50)]
proof fn lemma_parse_image_aux(specs: Seq<Spec>, acc: Seq<Spec>)
    ensures
        parse_image_spec_body(enc_image_spec(specs), acc) == Some(acc + specs),
    decreases specs.len(),
{
    if specs.len() == 0 {
        assert(acc + specs =~= acc);
    } else {
        let head = specs[0];
        let tail = specs.drop_first();
        let msg = enc_spec_msg(head);
        lemma_enc_spec_msg_len(head);
        let len = msg.len() as u64;
        assert(len == msg.len());
        let tail_enc = enc_image_spec(tail);
        let bytes = enc_image_spec(specs);
        assert(bytes =~= seq![10u8] + (enc_varint(len) + (msg + tail_enc)));
        assert(bytes[0] == 10u8);
        assert(bytes.drop_first() =~= enc_varint(len) + (msg + tail_enc));
        lemma_parse_enc_varint(len, msg + tail_enc);
        assert((msg + tail_enc).take(len as int) =~= msg);
        assert((msg + tail_enc).skip(len as int) =~= tail_enc);
        lemma_parse_enc_spec(head);
        lemma_enc_varint_len(len);
        assert(tail_enc.len() < bytes.len());
        lemma_parse_image_aux(tail, acc.push(head));
        assert(acc.push(head) + tail =~= acc + specs);
    }
}

/// The wire format round-trips: decoding the canonical encoding of any
/// pipeline yields exactly that pipeline.
pub proof fn lemma_wire_round_trip(specs: Seq<Spec>)
    ensures
        decode_wire(enc_image_spec(specs)) == Some(specs),
{
    lemma_parse_image_aux(specs, Seq::<Spec>::empty());
    assert(Seq::<Spec>::empty() + specs =~= specs);
}


// ---------------------------------------------------------------------------
// Executable encoding
// ---------------------------------------------------------------------------

fn exec_rtype_code(t: ResizeType) -> (n: u64)
    ensures
        n == rtype_code(t),
{
    match t {
        ResizeType::Normal => 0,
        ResizeType::SeamCarve => 1,
    }
}

fn exec_sfilter_code(f: SampleFilter) -> (n: u64)
    ensures
        n == sfilter_code(f),
{
    match f {
        SampleFilter::Undefined => 0,
        SampleFilter::Nearest => 1,
        SampleFilter::Triangle => 2,
        SampleFilter::CatmullRom => 3,
        SampleFilter::Gaussian => 4,
        SampleFilter::Lanczos3 => 5,
    }
}

fn exec_filter_code(f: Filter) -> (n: u64)
    ensures
        n == filter_code(f),
{
    match f {
        Filter::Unspecified => 0,
        Filter::Oceanic => 1,
        Filter::Islands => 2,
        Filter::Marine => 3,
    }
}

/// Appends all of `s` to `out`.
fn push_bytes(out: &mut Vec<u8>, s: &Vec<u8>)
    ensures
        final(out)@ == old(out)@ + s@,
{
    let mut i: usize = 0;
    while i < s.len()
        invariant
            i <= s@.len(),
            out@ == old(out)@ + s@.take(i as int),
        decreases s@.len() - i,
    {
        out.push(s[i]);
        assert(out@ =~= old(out)@ + s@.take(i + 1));
        i = i + 1;
    }
    assert(out@ =~= old(out)@ + s@);
}

/// Appends the canonical resize-record body.
#[verifier::rlimit(50)]
fn encode_resize_body(r: &Resize, out: &mut Vec<u8>)
    ensures
        final(out)@ == old(out)@ + enc_resize(*r),
{
    let ghost c1 = if r.width != 0 {
        seq![8u8] + enc_varint(r.width as u64)
    } else {
        Seq::<u8>::empty()
    };
    let ghost c2 = if r.height != 0 {
        seq![16u8] + enc_varint(r.height as u64)
    } else {
        Seq::<u8>::empty()
    };
    let ghost c3 = if r.rtype != ResizeType::Normal {
        seq![24u8] + enc_varint(rtype_code(r.rtype))
    } else {
        Seq::<u8>::empty()
    };
    let ghost c4 = if r.filter != SampleFilter::Undefined {
        seq![32u8] + enc_varint(sfilter_code(r.filter))
    } else {
        Seq::<u8>::empty()
    };
    if r.width != 0 {
        out.push(8);
        push_varint(out, r.width as u64);
    }
    assert(out@ =~= old(out)@ + c1);
    let ghost o1 = out@;
    if r.height != 0 {
        out.push(16);
        push_varint(out, r.height as u64);
    }
    assert(out@ =~= o1 + c2);
    let ghost o2 = out@;
    if !matches!(r.rtype, ResizeType::Normal) {
        out.push(24);
        let c = exec_rtype_code(r.rtype);
        push_varint(out, c);
    }
    assert(out@ =~= o2 + c3);
    let ghost o3 = out@;
    if !matches!(r.filter, SampleFilter::Undefined) {
        out.push(32);
        let c = exec_sfilter_code(r.filter);
        push_varint(out, c);
    }
    assert(out@ =~= o3 + c4);
    assert(out@ =~= old(out)@ + enc_resize(*r));
}

/// Appends the canonical named-filter-record body.
fn encode_filter_body(f: Filter, out: &mut Vec<u8>)
    ensures
        final(out)@ == old(out)@ + enc_filter_msg(f),
{
    if !matches!(f, Filter::Unspecified) {
        out.push(8);
        let c = exec_filter_code(f);
        push_varint(out, c);
        assert(out@ =~= old(out)@ + enc_filter_msg(f));
    } else {
        assert(out@ =~= old(out)@ + enc_filter_msg(f));
    }
}

/// Appends the canonical pipeline-step body.
fn encode_spec_body(s: &Spec, out: &mut Vec<u8>)
    ensures
        final(out)@ == old(out)@ + enc_spec_msg(*s),
{
    match s.data {
        None => {
            assert(out@ =~= old(out)@ + enc_spec_msg(*s));
        },
        Some(SpecData::Resize(r)) => {
            let mut body: Vec<u8> = Vec::new();
            encode_resize_body(&r, &mut body);
            assert(body@ =~= enc_resize(r));
            out.push(10);
            push_varint(out, body.len() as u64);
            push_bytes(out, &body);
            assert(out@ =~= old(out)@ + enc_spec_msg(*s));
        },
        Some(SpecData::Filter(f)) => {
            let mut body: Vec<u8> = Vec::new();
            encode_filter_body(f, &mut body);
            assert(body@ =~= enc_filter_msg(f));
            out.push(18);
            push_varint(out, body.len() as u64);
            push_bytes(out, &body);
            assert(out@ =~= old(out)@ + enc_spec_msg(*s));
        },
    }
}

proof fn lemma_enc_image_concat(a: Seq<Spec>, b: Seq<Spec>)
    ensures
        enc_image_spec(a + b) == enc_image_spec(a) + enc_image_spec(b),
    decreases a.len(),
{
    if a.len() == 0 {
        assert(a + b =~= b);
        assert(Seq::<u8>::empty() + enc_image_spec(b) =~= enc_image_spec(b));
        assert(enc_image_spec(a) =~= Seq::<u8>::empty());
    } else {
        assert((a + b)[0] == a[0]);
        assert((a + b).drop_first() =~= a.drop_first() + b);
        lemma_enc_image_concat(a.drop_first(), b);
        assert(enc_spec_entry(a[0]) + (enc_image_spec(a.drop_first()) + enc_image_spec(b))
            =~= (enc_spec_entry(a[0]) + enc_image_spec(a.drop_first())) + enc_image_spec(b));
    }
}

proof fn lemma_enc_image_one(s: Spec)
    ensures
        enc_image_spec(seq![s]) == enc_spec_entry(s),
{
    assert(seq![s].len() == 1);
    assert(seq![s][0] == s);
    assert(seq![s].drop_first() =~= Seq::<Spec>::empty());
    assert(enc_image_spec(Seq::<Spec>::empty()) =~= Seq::<u8>::empty());
    assert(enc_image_spec(seq![s]) =~= enc_spec_entry(s) + enc_image_spec(seq![s].drop_first()));
    assert(enc_spec_entry(s) + Seq::<u8>::empty() =~= enc_spec_entry(s));
}

/// Encodes a whole pipeline into its canonical wire bytes.
pub fn encode_wire(img: &ImageSpec) -> (out: Vec<u8>)
    ensures
        out@ == enc_image_spec(img.specs@),
{
    let mut out: Vec<u8> = Vec::new();
    let mut i: usize = 0;
    while i < img.specs.len()
        invariant
            i <= img.specs@.len(),
            out@ == enc_image_spec(img.specs@.take(i as int)),
        decreases img.specs@.len() - i,
    {
        let sp = img.specs[i];
        let mut body: Vec<u8> = Vec::new();
        encode_spec_body(&sp, &mut body);
        let ghost before = out@;
        out.push(10);
        push_varint(&mut out, body.len() as u64);
        push_bytes(&mut out, &body);
        proof {
            assert(out@ =~= before + enc_spec_entry(sp));
            lemma_enc_image_concat(img.specs@.take(i as int), seq![sp]);
            lemma_enc_image_one(sp);
            assert(img.specs@.take(i as int) + seq![sp] =~= img.specs@.take(i + 1));
        }
        i = i + 1;
    }
    assert(img.specs@.take(img.specs@.len() as int) =~= img.specs@);
    out
}


// ---------------------------------------------------------------------------
// Executable decoding
// ---------------------------------------------------------------------------

fn exec_rtype_of_code(n: u64) -> (t: ResizeType)
    ensures
        t == rtype_of_code(n),
{
    if n == 1 {
        ResizeType::SeamCarve
    } else {
        ResizeType::Normal
    }
}

fn exec_sfilter_of_code(n: u64) -> (f: SampleFilter)
    ensures
        f == sfilter_of_code(n),
{
    if n == 1 {
        SampleFilter::Nearest
    } else if n == 2 {
        SampleFilter::Triangle
    } else if n == 3 {
        SampleFilter::CatmullRom
    } else if n == 4 {
        SampleFilter::Gaussian
    } else if n == 5 {
        SampleFilter::Lanczos3
    } else {
        SampleFilter::Undefined
    }
}

fn exec_filter_of_code(n: u64) -> (f: Filter)
    ensures
        f == filter_of_code(n),
{
    if n == 1 {
        Filter::Oceanic
    } else if n == 2 {
        Filter::Islands
    } else if n == 3 {
        Filter::Marine
    } else {
        Filter::Unspecified
    }
}

/// Skips one field of an unknown number starting at `j`; agrees exactly with
/// `skip_unknown` on the byte range `[j, end)`.
fn skip_field(data: &Vec<u8>, wire: u64, j: usize, end: usize) -> (r: Option<usize>)
    requires
        j <= end <= data@.len(),
    ensures
        match r {
            Some(j2) => j < j2 <= end && skip_unknown(wire, data@.subrange(j as int, end as int))
                == Some(data@.subrange(j2 as int, end as int)),
            None => skip_unknown(wire, data@.subrange(j as int, end as int)) is None,
        },
{
    let ghost s = data@.subrange(j as int, end as int);
    if wire == 0 {
        match read_varint(data, j, end) {
            None => None,
            Some((_v, j2)) => Some(j2),
        }
    } else if wire == 1 {
        if end - j >= 8 {
            assert(s.skip(8) =~= data@.subrange(j + 8, end as int));
            Some(j + 8)
        } else {
            None
        }
    } else if wire == 2 {
        match read_varint(data, j, end) {
            None => None,
            Some((len, j2)) => {
                let rem = end - j2;
                if len <= rem as u64 {
                    let j3 = j2 + (len as usize);
                    assert(data@.subrange(j2 as int, end as int).skip(len as int) =~= data@.subrange(
                        j3 as int,
                        end as int,
                    ));
                    Some(j3)
                } else {
                    None
                }
            },
        }
    } else if wire == 5 {
        if end - j >= 4 {
            assert(s.skip(4) =~= data@.subrange(j + 4, end as int));
            Some(j + 4)
        } else {
            None
        }
    } else {
        None
    }
}

/// Parses a resize-record body occupying exactly `[start, end)` of `data`.
fn decode_resize_body(data: &Vec<u8>, start: usize, end: usize) -> (r: Option<Resize>)
    requires
        start <= end <= data@.len(),
    ensures
        r == parse_resize_body(data@.subrange(start as int, end as int), default_resize()),
{
    let mut acc = Resize {
        width: 0,
        height: 0,
        rtype: ResizeType::Normal,
        filter: SampleFilter::Undefined,
    };
    let mut i: usize = start;
    while i < end
        invariant
            start <= i <= end <= data@.len(),
            parse_resize_body(data@.subrange(start as int, end as int), default_resize())
                == parse_resize_body(data@.subrange(i as int, end as int), acc),
        decreases end - i,
    {
        let ghost s_i = data@.subrange(i as int, end as int);
        let (tag, j) = match read_varint(data, i, end) {
            None => {
                return None;
            },
            Some(p) => p,
        };
        let field = tag / 8;
        let wire = tag % 8;
        if field == 0 {
            return None;
        } else if field <= 4 {
            if wire != 0 {
                return None;
            }
            match read_varint(data, j, end) {
                None => {
                    return None;
                },
                Some((v, j2)) => {
                    assert(data@.subrange(j2 as int, end as int).len() < s_i.len());
                    if field == 1 {
                        acc = Resize { width: v as u32, ..acc };
                    } else if field == 2 {
                        acc = Resize { height: v as u32, ..acc };
                    } else if field == 3 {
                        acc = Resize { rtype: exec_rtype_of_code(v), ..acc };
                    } else {
                        acc = Resize { filter: exec_sfilter_of_code(v), ..acc };
                    }
                    i = j2;
                },
            }
        } else {
            match skip_field(data, wire, j, end) {
                None => {
                    return None;
                },
                Some(j2) => {
                    assert(data@.subrange(j2 as int, end as int).len() < s_i.len());
                    i = j2;
                },
            }
        }
    }
    assert(data@.subrange(i as int, end as int) =~= Seq::<u8>::empty());
    Some(acc)
}

/// Parses a named-filter-record body occupying exactly `[start, end)`.
fn decode_filter_body(data: &Vec<u8>, start: usize, end: usize) -> (r: Option<Filter>)
    requires
        start <= end <= data@.len(),
    ensures
        r == parse_filter_body(data@.subrange(start as int, end as int), Filter::Unspecified),
{
    let mut acc = Filter::Unspecified;
    let mut i: usize = start;
    while i < end
        invariant
            start <= i <= end <= data@.len(),
            parse_filter_body(data@.subrange(start as int, end as int), Filter::Unspecified)
                == parse_filter_body(data@.subrange(i as int, end as int), acc),
        decreases end - i,
    {
        let ghost s_i = data@.subrange(i as int, end as int);
        let (tag, j) = match read_varint(data, i, end) {
            None => {
                return None;
            },
            Some(p) => p,
        };
        let field = tag / 8;
        let wire = tag % 8;
        if field == 0 {
            return None;
        } else if field == 1 {
            if wire != 0 {
                return None;
            }
            match read_varint(data, j, end) {
                None => {
                    return None;
                },
                Some((v, j2)) => {
                    assert(data@.subrange(j2 as int, end as int).len() < s_i.len());
                    acc = exec_filter_of_code(v);
                    i = j2;
                },
            }
        } else {
            match skip_field(data, wire, j, end) {
                None => {
                    return None;
                },
                Some(j2) => {
                    assert(data@.subrange(j2 as int, end as int).len() < s_i.len());
                    i = j2;
                },
            }
        }
    }
    assert(data@.subrange(i as int, end as int) =~= Seq::<u8>::empty());
    Some(acc)
}

/// Parses a pipeline-step body occupying exactly `[start, end)`.
fn decode_spec_body(data: &Vec<u8>, start: usize, end: usize) -> (r: Option<Spec>)
    requires
        start <= end <= data@.len(),
    ensures
        r == parse_spec_body(data@.subrange(start as int, end as int), Spec { data: None }),
{
    let mut acc = Spec { data: None };
    let mut i: usize = start;
    while i < end
        invariant
            start <= i <= end <= data@.len(),
            parse_spec_body(data@.subrange(start as int, end as int), Spec { data: None })
                == parse_spec_body(data@.subrange(i as int, end as int), acc),
        decreases end - i,
    {
        let ghost s_i = data@.subrange(i as int, end as int);
        let (tag, j) = match read_varint(data, i, end) {
            None => {
                return None;
            },
            Some(p) => p,
        };
        let field = tag / 8;
        let wire = tag % 8;
        if field == 0 {
            return None;
        } else if field == 1 || field == 2 {
            if wire != 2 {
                return None;
            }
            match read_varint(data, j, end) {
                None => {
                    return None;
                },
                Some((len, j2)) => {
                    let rem = end - j2;
                    if len <= rem as u64 {
                        let bend = j2 + (len as usize);
                        assert(data@.subrange(j2 as int, end as int).take(len as int)
                            =~= data@.subrange(j2 as int, bend as int));
                        assert(data@.subrange(j2 as int, end as int).skip(len as int)
                            =~= data@.subrange(bend as int, end as int));
                        if field == 1 {
                            match decode_resize_body(data, j2, bend) {
                                None => {
                                    return None;
                                },
                                Some(rz) => {
                                    acc = Spec { data: Some(SpecData::Resize(rz)) };
                                },
                            }
                        } else {
                            match decode_filter_body(data, j2, bend) {
                                None => {
                                    return None;
                                },
                                Some(fl) => {
                                    acc = Spec { data: Some(SpecData::Filter(fl)) };
                                },
                            }
                        }
                        assert(data@.subrange(bend as int, end as int).len() < s_i.len());
                        i = bend;
                    } else {
                        return None;
                    }
                },
            }
        } else {
            match skip_field(data, wire, j, end) {
                None => {
                    return None;
                },
                Some(j2) => {
                    assert(data@.subrange(j2 as int, end as int).len() < s_i.len());
                    i = j2;
                },
            }
        }
    }
    assert(data@.subrange(i as int, end as int) =~= Seq::<u8>::empty());
    Some(acc)
}

/// Decodes whole wire bytes into the pipeline steps they carry; `None` is
/// exactly the spec-level parse failure.
pub fn decode_wire_bytes(data: &Vec<u8>) -> (r: Option<ImageSpec>)
    ensures
        match r {
            Some(m) => decode_wire(data@) == Some(m.specs@),
            None => decode_wire(data@) is None,
        },
{
    let end = data.len();
    let mut acc: Vec<Spec> = Vec::new();
    let mut i: usize = 0;
    assert(data@.subrange(0, end as int) =~= data@);
    while i < end
        invariant
            i <= end == data@.len(),
            parse_image_spec_body(data@, Seq::<Spec>::empty())
                == parse_image_spec_body(data@.subrange(i as int, end as int), acc@),
        decreases end - i,
    {
        let ghost s_i = data@.subrange(i as int, end as int);
        let (tag, j) = match read_varint(data, i, end) {
            None => {
                return None;
            },
            Some(p) => p,
        };
        let field = tag / 8;
        let wire = tag % 8;
        if field == 0 {
            return None;
        } else if field == 1 {
            if wire != 2 {
                return None;
            }
            match read_varint(data, j, end) {
                None => {
                    return None;
                },
                Some((len, j2)) => {
                    let rem = end - j2;
                    if len <= rem as u64 {
                        let bend = j2 + (len as usize);
                        assert(data@.subrange(j2 as int, end as int).take(len as int)
                            =~= data@.subrange(j2 as int, bend as int));
                        assert(data@.subrange(j2 as int, end as int).skip(len as int)
                            =~= data@.subrange(bend as int, end as int));
                        match decode_spec_body(data, j2, bend) {
                            None => {
                                return None;
                            },
                            Some(sp) => {
                                acc.push(sp);
                            },
                        }
                        assert(data@.subrange(bend as int, end as int).len() < s_i.len());
                        i = bend;
                    } else {
                        return None;
                    }
                },
            }
        } else {
            match skip_field(data, wire, j, end) {
                None => {
                    return None;
                },
                Some(j2) => {
                    assert(data@.subrange(j2 as int, end as int).len() < s_i.len());
                    i = j2;
                },
            }
        }
    }
    assert(data@.subrange(i as int, end as int) =~= Seq::<u8>::empty());
    Some(ImageSpec { specs: acc })
}

} // verus!
