//! The persisted snapshot format: a library is serialized as a byte blob —
//! a record count, then each record field by field, with every integer as
//! eight little-endian bytes and every string as its length followed by its
//! UTF-8 bytes. Encoding and decoding are defined as specification functions,
//! the executable coders implement them exactly, and decoding an encoded
//! library provably yields the records back unchanged.

use vstd::bytes::{
    lemma_auto_spec_u64_to_from_le_bytes, spec_u64_from_le_bytes, spec_u64_to_le_bytes,
    u64_from_le_bytes, u64_to_le_bytes,
};
use vstd::prelude::*;
use vstd::slice::{slice_subrange, slice_to_vec};
use vstd::utf8::{decode_utf8, encode_utf8, encode_utf8_decode_utf8, encode_utf8_valid_utf8,
    valid_utf8};

use crate::media::{
    Date, Media, MediaType, MediaView, State, Status, TimeOfDay, Weekday, strings_view,
};
use crate::search::views;

verus! {

// ---------------------------------------------------------------------------
// The encoding, as specification functions.
// ---------------------------------------------------------------------------
/// One integer, as eight little-endian bytes.
pub open spec fn enc_u64(x: u64) -> Seq<u8> {
    spec_u64_to_le_bytes(x)
}

/// One string: the length of its UTF-8 form, then the UTF-8 bytes.
pub open spec fn enc_str(s: Seq<char>) -> Seq<u8> {
    enc_u64(encode_utf8(s).len() as u64) + encode_utf8(s)
}

/// A run of strings, each by `enc_str`, in order.
pub open spec fn enc_strs(ss: Seq<Seq<char>>) -> Seq<u8>
    decreases ss.len(),
{
    if ss.len() == 0 {
        Seq::empty()
    } else {
        enc_str(ss[0]) + enc_strs(ss.drop_first())
    }
}

/// The wire tag of a media type.
pub open spec fn media_type_tag(t: MediaType) -> u64 {
    match t {
        MediaType::Anime => 0,
        MediaType::TVShow => 1,
        MediaType::Game => 2,
    }
}

/// The wire tag of a release status.
pub open spec fn status_tag(s: Status) -> u64 {
    match s {
        Status::OnGoing => 0,
        Status::Finished => 1,
        Status::Upcoming => 2,
    }
}

/// The wire tag of a consumption state.
pub open spec fn state_tag(s: State) -> u64 {
    match s {
        State::NotStarted => 0,
        State::InProgress => 1,
        State::Completed => 2,
        State::OnHold => 3,
        State::Dropped => 4,
    }
}

/// The wire tag of a weekday, counted from one; zero stands for none.
pub open spec fn weekday_tag(d: Weekday) -> u64 {
    match d {
        Weekday::Monday => 1,
        Weekday::Tuesday => 2,
        Weekday::Wednesday => 3,
        Weekday::Thursday => 4,
        Weekday::Friday => 5,
        Weekday::Saturday => 6,
        Weekday::Sunday => 7,
    }
}

/// An optional broadcast day: its tag, or zero for none.
pub open spec fn enc_opt_weekday(d: Option<Weekday>) -> Seq<u8> {
    match d {
        None => enc_u64(0),
        Some(w) => enc_u64(weekday_tag(w)),
    }
}

/// An optional broadcast time: a presence flag, then hour, minute and second.
pub open spec fn enc_opt_time(t: Option<TimeOfDay>) -> Seq<u8> {
    match t {
        None => enc_u64(0),
        Some(t) => enc_u64(1) + (enc_u64(t.hour as u64) + (enc_u64(t.minute as u64) + enc_u64(
            t.second as u64,
        ))),
    }
}

/// An optional counter: a presence flag, then the value.
pub open spec fn enc_opt_u32(x: Option<u32>) -> Seq<u8> {
    match x {
        None => enc_u64(0),
        Some(v) => enc_u64(1) + enc_u64(v as u64),
    }
}

/// A calendar date: year, month, day.
pub open spec fn enc_date(d: Date) -> Seq<u8> {
    enc_u64(d.year as u64) + (enc_u64(d.month as u64) + enc_u64(d.day as u64))
}

/// One record, field by field.
pub open spec fn enc_media(m: MediaView) -> Seq<u8> {
    enc_str(m.title) + (enc_u64(m.alt_titles.len() as u64) + (enc_strs(m.alt_titles) + (enc_u64(
        media_type_tag(m.media_type),
    ) + (enc_date(m.release_date) + (enc_u64(status_tag(m.status)) + (enc_opt_weekday(
        m.broadcast_day,
    ) + (enc_opt_time(m.broadcast_time) + (enc_opt_u32(m.current) + (enc_opt_u32(m.total) + (
    enc_opt_u32(m.total_out) + enc_u64(state_tag(m.state))))))))))))
}

/// A run of records, each by `enc_media`, in order.
pub open spec fn enc_medias(vs: Seq<MediaView>) -> Seq<u8>
    decreases vs.len(),
{
    if vs.len() == 0 {
        Seq::empty()
    } else {
        enc_media(vs[0]) + enc_medias(vs.drop_first())
    }
}

/// A whole library: the record count, then the records.
pub open spec fn enc_lib(vs: Seq<MediaView>) -> Seq<u8> {
    enc_u64(vs.len() as u64) + enc_medias(vs)
}

/// A string short enough for its byte length to ride in one integer.
pub open spec fn str_encodable(s: Seq<char>) -> bool {
    encode_utf8(s).len() <= u64::MAX
}

/// A record whose strings and string count fit the wire format.
pub open spec fn media_encodable(m: MediaView) -> bool {
    &&& str_encodable(m.title)
    &&& m.alt_titles.len() <= u64::MAX
    &&& forall|i: int| 0 <= i < m.alt_titles.len() ==> str_encodable(#[trigger] m.alt_titles[i])
}

/// A library whose record count and records fit the wire format. Every
/// library held in memory does: the executable encoder establishes this.
pub open spec fn lib_encodable(vs: Seq<MediaView>) -> bool {
    &&& vs.len() <= u64::MAX
    &&& forall|i: int| 0 <= i < vs.len() ==> media_encodable(#[trigger] vs[i])
}

// ---------------------------------------------------------------------------
// The decoding, as specification functions. Positions index into the whole
// buffer; `None` means the buffer is not a well-formed snapshot.
// ---------------------------------------------------------------------------
/// Reads one integer at `p`.
pub open spec fn dec_u64(b: Seq<u8>, p: int) -> Option<(u64, int)> {
    if 0 <= p && p + 8 <= b.len() {
        Some((spec_u64_from_le_bytes(b.subrange(p, p + 8)), p + 8))
    } else {
        None
    }
}

/// Reads one length-prefixed UTF-8 string at `p`.
pub open spec fn dec_str(b: Seq<u8>, p: int) -> Option<(Seq<char>, int)> {
    match dec_u64(b, p) {
        Some((n, q)) => if q + n <= b.len() {
            let bytes = b.subrange(q, q + n);
            if valid_utf8(bytes) {
                Some((decode_utf8(bytes), q + n))
            } else {
                None
            }
        } else {
            None
        },
        None => None,
    }
}

/// Reads `count` strings in a row starting at `p`.
pub open spec fn dec_strs(b: Seq<u8>, p: int, count: nat) -> Option<(Seq<Seq<char>>, int)>
    decreases count,
{
    if count == 0 {
        Some((Seq::empty(), p))
    } else {
        match dec_str(b, p) {
            Some((s, q)) => match dec_strs(b, q, (count - 1) as nat) {
                Some((ss, e)) => Some((seq![s] + ss, e)),
                None => None,
            },
            None => None,
        }
    }
}

/// Reads a media-type tag at `p`.
pub open spec fn dec_media_type(b: Seq<u8>, p: int) -> Option<(MediaType, int)> {
    match dec_u64(b, p) {
        Some((t, q)) => if t == 0 {
            Some((MediaType::Anime, q))
        } else if t == 1 {
            Some((MediaType::TVShow, q))
        } else if t == 2 {
            Some((MediaType::Game, q))
        } else {
            None
        },
        None => None,
    }
}

/// Reads a release-status tag at `p`.
pub open spec fn dec_status(b: Seq<u8>, p: int) -> Option<(Status, int)> {
    match dec_u64(b, p) {
        Some((t, q)) => if t == 0 {
            Some((Status::OnGoing, q))
        } else if t == 1 {
            Some((Status::Finished, q))
        } else if t == 2 {
            Some((Status::Upcoming, q))
        } else {
            None
        },
        None => None,
    }
}

/// Reads a consumption-state tag at `p`.
pub open spec fn dec_state(b: Seq<u8>, p: int) -> Option<(State, int)> {
    match dec_u64(b, p) {
        Some((t, q)) => if t == 0 {
            Some((State::NotStarted, q))
        } else if t == 1 {
            Some((State::InProgress, q))
        } else if t == 2 {
            Some((State::Completed, q))
        } else if t == 3 {
            Some((State::OnHold, q))
        } else if t == 4 {
            Some((State::Dropped, q))
        } else {
            None
        },
        None => None,
    }
}

/// Reads an optional broadcast day at `p`.
pub open spec fn dec_opt_weekday(b: Seq<u8>, p: int) -> Option<(Option<Weekday>, int)> {
    match dec_u64(b, p) {
        Some((t, q)) => if t == 0 {
            Some((None, q))
        } else if t == 1 {
            Some((Some(Weekday::Monday), q))
        } else if t == 2 {
            Some((Some(Weekday::Tuesday), q))
        } else if t == 3 {
            Some((Some(Weekday::Wednesday), q))
        } else if t == 4 {
            Some((Some(Weekday::Thursday), q))
        } else if t == 5 {
            Some((Some(Weekday::Friday), q))
        } else if t == 6 {
            Some((Some(Weekday::Saturday), q))
        } else if t == 7 {
            Some((Some(Weekday::Sunday), q))
        } else {
            None
        },
        None => None,
    }
}

/// Reads an optional broadcast time at `p`.
pub open spec fn dec_opt_time(b: Seq<u8>, p: int) -> Option<(Option<TimeOfDay>, int)> {
    match dec_u64(b, p) {
        Some((flag, q)) => if flag == 0 {
            Some((None, q))
        } else if flag == 1 {
            match dec_u64(b, q) {
                Some((h, q1)) => if h <= u8::MAX {
                    match dec_u64(b, q1) {
                        Some((mi, q2)) => if mi <= u8::MAX {
                            match dec_u64(b, q2) {
                                Some((se, q3)) => if se <= u8::MAX {
                                    Some((
                                        Some(
                                            TimeOfDay {
                                                hour: h as u8,
                                                minute: mi as u8,
                                                second: se as u8,
                                            },
                                        ),
                                        q3,
                                    ))
                                } else {
                                    None
                                },
                                None => None,
                            }
                        } else {
                            None
                        },
                        None => None,
                    }
                } else {
                    None
                },
                None => None,
            }
        } else {
            None
        },
        None => None,
    }
}

/// Reads an optional counter at `p`.
pub open spec fn dec_opt_u32(b: Seq<u8>, p: int) -> Option<(Option<u32>, int)> {
    match dec_u64(b, p) {
        Some((flag, q)) => if flag == 0 {
            Some((None, q))
        } else if flag == 1 {
            match dec_u64(b, q) {
                Some((v, q1)) => if v <= u32::MAX {
                    Some((Some(v as u32), q1))
                } else {
                    None
                },
                None => None,
            }
        } else {
            None
        },
        None => None,
    }
}

/// Reads a calendar date at `p`.
pub open spec fn dec_date(b: Seq<u8>, p: int) -> Option<(Date, int)> {
    match dec_u64(b, p) {
        Some((y, q)) => if y <= u16::MAX {
            match dec_u64(b, q) {
                Some((mo, q1)) => if mo <= u8::MAX {
                    match dec_u64(b, q1) {
                        Some((d, q2)) => if d <= u8::MAX {
                            Some((Date { year: y as u16, month: mo as u8, day: d as u8 }, q2))
                        } else {
                            None
                        },
                        None => None,
                    }
                } else {
                    None
                },
                None => None,
            }
        } else {
            None
        },
        None => None,
    }
}

/// Reads one record at `p`.
pub open spec fn dec_media(b: Seq<u8>, p: int) -> Option<(MediaView, int)> {
    match dec_str(b, p) {
        Some((title, p1)) => match dec_u64(b, p1) {
            Some((altn, p2)) => match dec_strs(b, p2, altn as nat) {
                Some((alts, p3)) => match dec_media_type(b, p3) {
                    Some((mt, p4)) => match dec_date(b, p4) {
                        Some((date, p5)) => match dec_status(b, p5) {
                            Some((st, p6)) => match dec_opt_weekday(b, p6) {
                                Some((bd, p7)) => match dec_opt_time(b, p7) {
                                    Some((bt, p8)) => match dec_opt_u32(b, p8) {
                                        Some((cur, p9)) => match dec_opt_u32(b, p9) {
                                            Some((tot, p10)) => match dec_opt_u32(b, p10) {
                                                Some((toto, p11)) => match dec_state(b, p11) {
                                                    Some((ust, p12)) => Some(
                                                        (
                                                            MediaView {
                                                                title,
                                                                alt_titles: alts,
                                                                media_type: mt,
                                                                release_date: date,
                                                                status: st,
                                                                broadcast_day: bd,
                                                                broadcast_time: bt,
                                                                current: cur,
                                                                total: tot,
                                                                total_out: toto,
                                                                state: ust,
                                                            },
                                                            p12,
                                                        ),
                                                    ),
                                                    None => None,
                                                },
                                                None => None,
                                            },
                                            None => None,
                                        },
                                        None => None,
                                    },
                                    None => None,
                                },
                                None => None,
                            },
                            None => None,
                        },
                        None => None,
                    },
                    None => None,
                },
                None => None,
            },
            None => None,
        },
        None => None,
    }
}

/// Reads `count` records in a row starting at `p`.
pub open spec fn dec_medias(b: Seq<u8>, p: int, count: nat) -> Option<(Seq<MediaView>, int)>
    decreases count,
{
    if count == 0 {
        Some((Seq::empty(), p))
    } else {
        match dec_media(b, p) {
            Some((m, q)) => match dec_medias(b, q, (count - 1) as nat) {
                Some((vs, e)) => Some((seq![m] + vs, e)),
                None => None,
            },
            None => None,
        }
    }
}

/// Reads a whole snapshot: the count, the records, and nothing after them.
/// `None` means the blob is not a well-formed snapshot.
pub open spec fn dec_lib(b: Seq<u8>) -> Option<Seq<MediaView>> {
    match dec_u64(b, 0) {
        Some((n, q)) => match dec_medias(b, q, n as nat) {
            Some((vs, e)) => if e == b.len() {
                Some(vs)
            } else {
                None
            },
            None => None,
        },
        None => None,
    }
}

// ---------------------------------------------------------------------------
// Round-trip lemmas: decoding reads back exactly what encoding wrote.
// ---------------------------------------------------------------------------
/// A window of `b` that equals a concatenation splits into its two halves.
proof fn lemma_split_prefix(b: Seq<u8>, p: int, x: Seq<u8>, y: Seq<u8>)
    requires
        0 <= p,
        p + x.len() + y.len() <= b.len(),
        b.subrange(p, p + x.len() + y.len()) == x + y,
    ensures
        b.subrange(p, p + x.len()) == x,
        b.subrange(p + x.len(), p + x.len() + y.len()) == y,
{
    assert(b.subrange(p, p + x.len()) =~= x) by {
        assert forall|i: int| 0 <= i < x.len() implies b.subrange(p, p + x.len())[i] == x[i] by {
            assert((x + y)[i] == b.subrange(p, p + x.len() + y.len())[i]);
        }
    }
    assert(b.subrange(p + x.len(), p + x.len() + y.len()) =~= y) by {
        assert forall|i: int| 0 <= i < y.len() implies b.subrange(
            p + x.len(),
            p + x.len() + y.len(),
        )[i] == y[i] by {
            assert((x + y)[x.len() + i] == y[i]);
            assert(b.subrange(p, p + x.len() + y.len())[x.len() + i] == b[p + x.len() + i]);
            assert(b.subrange(p + x.len(), p + x.len() + y.len())[i] == b[p + x.len() + i]);
        }
    }
}

/// An integer written at `p` reads back as itself.
proof fn lemma_dec_u64_at(b: Seq<u8>, p: int, x: u64)
    requires
        0 <= p,
        p + enc_u64(x).len() <= b.len(),
        b.subrange(p, p + enc_u64(x).len()) == enc_u64(x),
    ensures
        enc_u64(x).len() == 8,
        dec_u64(b, p) == Some((x, p + 8)),
{
    lemma_auto_spec_u64_to_from_le_bytes();
}

/// A string written at `p` reads back as itself.
proof fn lemma_dec_str_at(b: Seq<u8>, p: int, s: Seq<char>)
    requires
        str_encodable(s),
        0 <= p,
        p + enc_str(s).len() <= b.len(),
        b.subrange(p, p + enc_str(s).len()) == enc_str(s),
    ensures
        dec_str(b, p) == Some((s, p + enc_str(s).len())),
{
    lemma_auto_spec_u64_to_from_le_bytes();
    let bytes = encode_utf8(s);
    let n = bytes.len() as u64;
    assert(enc_str(s) == enc_u64(n) + bytes);
    lemma_split_prefix(b, p, enc_u64(n), bytes);
    lemma_dec_u64_at(b, p, n);
    assert(b.subrange(p + 8, p + 8 + n as int) == bytes);
    encode_utf8_valid_utf8(s);
    encode_utf8_decode_utf8(s);
}

/// A run of strings written at `p` reads back as itself.
proof fn lemma_dec_strs_at(b: Seq<u8>, p: int, ss: Seq<Seq<char>>)
    requires
        forall|i: int| 0 <= i < ss.len() ==> str_encodable(#[trigger] ss[i]),
        0 <= p,
        p + enc_strs(ss).len() <= b.len(),
        b.subrange(p, p + enc_strs(ss).len()) == enc_strs(ss),
    ensures
        dec_strs(b, p, ss.len()) == Some((ss, p + enc_strs(ss).len())),
    decreases ss.len(),
{
    if ss.len() == 0 {
        assert(ss =~= Seq::<Seq<char>>::empty());
    } else {
        let head = enc_str(ss[0]);
        let tail = enc_strs(ss.drop_first());
        assert(enc_strs(ss) == head + tail);
        lemma_split_prefix(b, p, head, tail);
        lemma_dec_str_at(b, p, ss[0]);
        lemma_dec_strs_at(b, p + head.len(), ss.drop_first());
        assert(seq![ss[0]] + ss.drop_first() =~= ss);
    }
}

/// A date written at `p` reads back as itself.
proof fn lemma_dec_date_at(b: Seq<u8>, p: int, d: Date)
    requires
        0 <= p,
        p + enc_date(d).len() <= b.len(),
        b.subrange(p, p + enc_date(d).len()) == enc_date(d),
    ensures
        enc_date(d).len() == 24,
        dec_date(b, p) == Some((d, p + enc_date(d).len())),
{
    lemma_auto_spec_u64_to_from_le_bytes();
    let x = enc_u64(d.year as u64);
    let y = enc_u64(d.month as u64) + enc_u64(d.day as u64);
    lemma_split_prefix(b, p, x, y);
    lemma_dec_u64_at(b, p, d.year as u64);
    lemma_split_prefix(b, p + 8, enc_u64(d.month as u64), enc_u64(d.day as u64));
    lemma_dec_u64_at(b, p + 8, d.month as u64);
    lemma_dec_u64_at(b, p + 16, d.day as u64);
}

/// An optional weekday written at `p` reads back as itself.
proof fn lemma_dec_opt_weekday_at(b: Seq<u8>, p: int, d: Option<Weekday>)
    requires
        0 <= p,
        p + enc_opt_weekday(d).len() <= b.len(),
        b.subrange(p, p + enc_opt_weekday(d).len()) == enc_opt_weekday(d),
    ensures
        enc_opt_weekday(d).len() == 8,
        dec_opt_weekday(b, p) == Some((d, p + enc_opt_weekday(d).len())),
{
    lemma_auto_spec_u64_to_from_le_bytes();
    match d {
        None => {
            lemma_dec_u64_at(b, p, 0);
        },
        Some(w) => {
            lemma_dec_u64_at(b, p, weekday_tag(w));
        },
    }
}

/// An optional time written at `p` reads back as itself.
proof fn lemma_dec_opt_time_at(b: Seq<u8>, p: int, t: Option<TimeOfDay>)
    requires
        0 <= p,
        p + enc_opt_time(t).len() <= b.len(),
        b.subrange(p, p + enc_opt_time(t).len()) == enc_opt_time(t),
    ensures
        dec_opt_time(b, p) == Some((t, p + enc_opt_time(t).len())),
{
    lemma_auto_spec_u64_to_from_le_bytes();
    match t {
        None => {
            lemma_dec_u64_at(b, p, 0);
        },
        Some(t0) => {
            let rest = enc_u64(t0.hour as u64) + (enc_u64(t0.minute as u64) + enc_u64(
                t0.second as u64,
            ));
            lemma_split_prefix(b, p, enc_u64(1), rest);
            lemma_dec_u64_at(b, p, 1);
            lemma_split_prefix(
                b,
                p + 8,
                enc_u64(t0.hour as u64),
                enc_u64(t0.minute as u64) + enc_u64(t0.second as u64),
            );
            lemma_dec_u64_at(b, p + 8, t0.hour as u64);
            lemma_split_prefix(b, p + 16, enc_u64(t0.minute as u64), enc_u64(t0.second as u64));
            lemma_dec_u64_at(b, p + 16, t0.minute as u64);
            lemma_dec_u64_at(b, p + 24, t0.second as u64);
        },
    }
}

/// An optional counter written at `p` reads back as itself.
proof fn lemma_dec_opt_u32_at(b: Seq<u8>, p: int, x: Option<u32>)
    requires
        0 <= p,
        p + enc_opt_u32(x).len() <= b.len(),
        b.subrange(p, p + enc_opt_u32(x).len()) == enc_opt_u32(x),
    ensures
        dec_opt_u32(b, p) == Some((x, p + enc_opt_u32(x).len())),
{
    lemma_auto_spec_u64_to_from_le_bytes();
    match x {
        None => {
            lemma_dec_u64_at(b, p, 0);
        },
        Some(v) => {
            lemma_split_prefix(b, p, enc_u64(1), enc_u64(v as u64));
            lemma_dec_u64_at(b, p, 1);
            lemma_dec_u64_at(b, p + 8, v as u64);
        },
    }
}

/// One record written at `p` reads back as itself.
#[verifier::rlimit(100)]
proof fn lemma_dec_media_at(b: Seq<u8>, p: int, m: MediaView)
    requires
        media_encodable(m),
        0 <= p,
        p + enc_media(m).len() <= b.len(),
        b.subrange(p, p + enc_media(m).len()) == enc_media(m),
    ensures
        dec_media(b, p) == Some((m, p + enc_media(m).len())),
{
    lemma_auto_spec_u64_to_from_le_bytes();
    let e1 = enc_str(m.title);
    let e2 = enc_u64(m.alt_titles.len() as u64);
    let e3 = enc_strs(m.alt_titles);
    let e4 = enc_u64(media_type_tag(m.media_type));
    let e5 = enc_date(m.release_date);
    let e6 = enc_u64(status_tag(m.status));
    let e7 = enc_opt_weekday(m.broadcast_day);
    let e8 = enc_opt_time(m.broadcast_time);
    let e9 = enc_opt_u32(m.current);
    let e10 = enc_opt_u32(m.total);
    let e11 = enc_opt_u32(m.total_out);
    let e12 = enc_u64(state_tag(m.state));
    let p1 = p + e1.len();
    let p2 = p1 + e2.len();
    let p3 = p2 + e3.len();
    let p4 = p3 + e4.len();
    let p5 = p4 + e5.len();
    let p6 = p5 + e6.len();
    let p7 = p6 + e7.len();
    let p8 = p7 + e8.len();
    let p9 = p8 + e9.len();
    let p10 = p9 + e10.len();
    let p11 = p10 + e11.len();
    let p12 = p11 + e12.len();
    lemma_split_prefix(
        b,
        p,
        e1,
        e2 + (e3 + (e4 + (e5 + (e6 + (e7 + (e8 + (e9 + (e10 + (e11 + e12))))))))),
    );
    lemma_dec_str_at(b, p, m.title);
    lemma_split_prefix(b, p1, e2, e3 + (e4 + (e5 + (e6 + (e7 + (e8 + (e9 + (e10 + (e11 + e12)))))))));
    lemma_dec_u64_at(b, p1, m.alt_titles.len() as u64);
    lemma_split_prefix(b, p2, e3, e4 + (e5 + (e6 + (e7 + (e8 + (e9 + (e10 + (e11 + e12))))))));
    lemma_dec_strs_at(b, p2, m.alt_titles);
    lemma_split_prefix(b, p3, e4, e5 + (e6 + (e7 + (e8 + (e9 + (e10 + (e11 + e12)))))));
    lemma_dec_u64_at(b, p3, media_type_tag(m.media_type));
    lemma_split_prefix(b, p4, e5, e6 + (e7 + (e8 + (e9 + (e10 + (e11 + e12))))));
    lemma_dec_date_at(b, p4, m.release_date);
    lemma_split_prefix(b, p5, e6, e7 + (e8 + (e9 + (e10 + (e11 + e12)))));
    lemma_dec_u64_at(b, p5, status_tag(m.status));
    lemma_split_prefix(b, p6, e7, e8 + (e9 + (e10 + (e11 + e12))));
    lemma_dec_opt_weekday_at(b, p6, m.broadcast_day);
    lemma_split_prefix(b, p7, e8, e9 + (e10 + (e11 + e12)));
    lemma_dec_opt_time_at(b, p7, m.broadcast_time);
    lemma_split_prefix(b, p8, e9, e10 + (e11 + e12));
    lemma_dec_opt_u32_at(b, p8, m.current);
    lemma_split_prefix(b, p9, e10, e11 + e12);
    lemma_dec_opt_u32_at(b, p9, m.total);
    lemma_split_prefix(b, p10, e11, e12);
    lemma_dec_opt_u32_at(b, p10, m.total_out);
    lemma_dec_u64_at(b, p11, state_tag(m.state));
    assert(dec_media(b, p) == Some((m, p12)));
}

/// A run of records written at `p` reads back as itself.
proof fn lemma_dec_medias_at(b: Seq<u8>, p: int, vs: Seq<MediaView>)
    requires
        forall|i: int| 0 <= i < vs.len() ==> media_encodable(#[trigger] vs[i]),
        0 <= p,
        p + enc_medias(vs).len() <= b.len(),
        b.subrange(p, p + enc_medias(vs).len()) == enc_medias(vs),
    ensures
        dec_medias(b, p, vs.len()) == Some((vs, p + enc_medias(vs).len())),
    decreases vs.len(),
{
    if vs.len() == 0 {
        assert(vs =~= Seq::<MediaView>::empty());
    } else {
        let head = enc_media(vs[0]);
        let tail = enc_medias(vs.drop_first());
        assert(enc_medias(vs) == head + tail);
        lemma_split_prefix(b, p, head, tail);
        lemma_dec_media_at(b, p, vs[0]);
        lemma_dec_medias_at(b, p + head.len(), vs.drop_first());
        assert(seq![vs[0]] + vs.drop_first() =~= vs);
    }
}

/// Law: persistence round-trips. Decoding the encoding of any library that
/// fits the wire format yields exactly the same records, in the same order,
/// with the same field values.
pub proof fn lemma_library_round_trip(vs: Seq<MediaView>)
    requires
        lib_encodable(vs),
    ensures
        dec_lib(enc_lib(vs)) == Some(vs),
{
    lemma_auto_spec_u64_to_from_le_bytes();
    let b = enc_lib(vs);
    let n = vs.len() as u64;
    assert(b == enc_u64(n) + enc_medias(vs));
    assert(b.subrange(0, b.len() as int) =~= b);
    lemma_split_prefix(b, 0, enc_u64(n), enc_medias(vs));
    lemma_dec_u64_at(b, 0, n);
    lemma_dec_medias_at(b, 8, vs);
}

// ---------------------------------------------------------------------------
// The executable coders. Each implements its specification function exactly.
// ---------------------------------------------------------------------------
/// Appends one integer in wire form.
fn push_u64(out: &mut Vec<u8>, x: u64)
    ensures
        final(out)@ == old(out)@ + enc_u64(x),
{
    let mut bs = u64_to_le_bytes(x);
    out.append(&mut bs);
}

/// Appends one string in wire form.
fn push_str(out: &mut Vec<u8>, s: &str)
    ensures
        final(out)@ == old(out)@ + enc_str(s@),
        str_encodable(s@),
{
    let bytes: &[u8] = s.as_bytes();
    let n: usize = bytes.len();
    push_u64(out, n as u64);
    let mut bv = slice_to_vec(bytes);
    out.append(&mut bv);
    proof {
        assert(out@ =~= old(out)@ + enc_str(s@));
    }
}

/// The wire tag of a media type.
fn media_type_tag_of(t: MediaType) -> (r: u64)
    ensures
        r == media_type_tag(t),
{
    match t {
        MediaType::Anime => 0,
        MediaType::TVShow => 1,
        MediaType::Game => 2,
    }
}

/// The wire tag of a release status.
fn status_tag_of(s: Status) -> (r: u64)
    ensures
        r == status_tag(s),
{
    match s {
        Status::OnGoing => 0,
        Status::Finished => 1,
        Status::Upcoming => 2,
    }
}

/// The wire tag of a consumption state.
fn state_tag_of(s: State) -> (r: u64)
    ensures
        r == state_tag(s),
{
    match s {
        State::NotStarted => 0,
        State::InProgress => 1,
        State::Completed => 2,
        State::OnHold => 3,
        State::Dropped => 4,
    }
}

/// The wire tag of a weekday.
fn weekday_tag_of(d: Weekday) -> (r: u64)
    ensures
        r == weekday_tag(d),
{
    match d {
        Weekday::Monday => 1,
        Weekday::Tuesday => 2,
        Weekday::Wednesday => 3,
        Weekday::Thursday => 4,
        Weekday::Friday => 5,
        Weekday::Saturday => 6,
        Weekday::Sunday => 7,
    }
}

/// Appending one string to a run extends its encoding at the end.
proof fn lemma_enc_strs_push(ss: Seq<Seq<char>>, x: Seq<char>)
    ensures
        enc_strs(ss.push(x)) == enc_strs(ss) + enc_str(x),
    decreases ss.len(),
{
    reveal_with_fuel(enc_strs, 3);
    if ss.len() == 0 {
        assert(ss.push(x)[0] == x);
        assert(ss.push(x).drop_first() =~= Seq::<Seq<char>>::empty());
        assert(enc_strs(ss.push(x)) =~= enc_strs(ss) + enc_str(x));
    } else {
        assert(ss.push(x)[0] == ss[0]);
        assert(ss.push(x).drop_first() =~= ss.drop_first().push(x));
        lemma_enc_strs_push(ss.drop_first(), x);
        assert(enc_strs(ss.push(x)) == enc_str(ss[0]) + enc_strs(ss.drop_first().push(x)));
        assert(enc_strs(ss.push(x)) =~= enc_strs(ss) + enc_str(x));
    }
}

/// Appending one record to a run extends its encoding at the end.
proof fn lemma_enc_medias_push(vs: Seq<MediaView>, m: MediaView)
    ensures
        enc_medias(vs.push(m)) == enc_medias(vs) + enc_media(m),
    decreases vs.len(),
{
    reveal_with_fuel(enc_medias, 3);
    if vs.len() == 0 {
        assert(vs.push(m)[0] == m);
        assert(vs.push(m).drop_first() =~= Seq::<MediaView>::empty());
        assert(enc_medias(vs.push(m)) =~= enc_medias(vs) + enc_media(m));
    } else {
        assert(vs.push(m)[0] == vs[0]);
        assert(vs.push(m).drop_first() =~= vs.drop_first().push(m));
        lemma_enc_medias_push(vs.drop_first(), m);
        assert(enc_medias(vs.push(m)) == enc_media(vs[0]) + enc_medias(vs.drop_first().push(m)));
        assert(enc_medias(vs.push(m)) =~= enc_medias(vs) + enc_media(m));
    }
}

/// Appends a calendar date in wire form.
fn push_date(out: &mut Vec<u8>, d: Date)
    ensures
        final(out)@ == old(out)@ + enc_date(d),
{
    push_u64(out, d.year as u64);
    push_u64(out, d.month as u64);
    push_u64(out, d.day as u64);
    proof {
        assert(final(out)@ =~= old(out)@ + enc_date(d));
    }
}

/// Appends an optional broadcast day in wire form.
fn push_opt_weekday(out: &mut Vec<u8>, d: Option<Weekday>)
    ensures
        final(out)@ == old(out)@ + enc_opt_weekday(d),
{
    match d {
        None => push_u64(out, 0),
        Some(w) => push_u64(out, weekday_tag_of(w)),
    }
}

/// Appends an optional broadcast time in wire form.
fn push_opt_time(out: &mut Vec<u8>, t: Option<TimeOfDay>)
    ensures
        final(out)@ == old(out)@ + enc_opt_time(t),
{
    match t {
        None => push_u64(out, 0),
        Some(t0) => {
            push_u64(out, 1);
            push_u64(out, t0.hour as u64);
            push_u64(out, t0.minute as u64);
            push_u64(out, t0.second as u64);
            proof {
                assert(final(out)@ =~= old(out)@ + enc_opt_time(t));
            }
        },
    }
}

/// Appends an optional counter in wire form.
fn push_opt_u32(out: &mut Vec<u8>, x: Option<u32>)
    ensures
        final(out)@ == old(out)@ + enc_opt_u32(x),
{
    match x {
        None => push_u64(out, 0),
        Some(v) => {
            push_u64(out, 1);
            push_u64(out, v as u64);
            proof {
                assert(final(out)@ =~= old(out)@ + enc_opt_u32(x));
            }
        },
    }
}

/// Appends the run of alternate titles in wire form.
fn push_alt_titles(out: &mut Vec<u8>, m: &Media)
    ensures
        final(out)@ == old(out)@ + enc_strs(m@.alt_titles),
        m@.alt_titles.len() <= u64::MAX,
        forall|k: int| 0 <= k < m@.alt_titles.len() ==> str_encodable(#[trigger] m@.alt_titles[k]),
{
    let ghost base = out@;
    let mut i: usize = 0;
    while i < m.alt_titles.len()
        invariant
            i <= m.alt_titles@.len(),
            m@.alt_titles == strings_view(m.alt_titles@),
            m@.alt_titles.len() == m.alt_titles@.len(),
            out@ == base + enc_strs(m@.alt_titles.take(i as int)),
            forall|k: int| 0 <= k < i ==> str_encodable(#[trigger] m@.alt_titles[k]),
        decreases m.alt_titles@.len() - i,
    {
        let ghost prev = m@.alt_titles.take(i as int);
        push_str(out, m.alt_titles[i].as_str());
        i = i + 1;
        proof {
            let cur = m@.alt_titles.take(i as int);
            assert(m@.alt_titles[i - 1] == m.alt_titles@[i - 1]@);
            assert(cur =~= prev.push(m@.alt_titles[i - 1]));
            lemma_enc_strs_push(prev, m@.alt_titles[i - 1]);
            assert(out@ =~= base + enc_strs(cur));
        }
    }
    proof {
        assert(m@.alt_titles.take(m@.alt_titles.len() as int) =~= m@.alt_titles);
    }
}

/// Concatenation of byte sequences associates.
proof fn lemma_assoc(x: Seq<u8>, y: Seq<u8>, z: Seq<u8>)
    ensures
        (x + y) + z == x + (y + z),
{
    assert((x + y) + z =~= x + (y + z));
}

/// Appends one record in wire form.
fn push_media(out: &mut Vec<u8>, m: &Media)
    ensures
        final(out)@ == old(out)@ + enc_media(m@),
        media_encodable(m@),
{
    push_str(out, m.title.as_str());
    push_u64(out, m.alt_titles.len() as u64);
    push_alt_titles(out, m);
    push_u64(out, media_type_tag_of(m.media_type));
    push_date(out, m.release_date);
    push_u64(out, status_tag_of(m.status));
    push_opt_weekday(out, m.broadcast_day);
    push_opt_time(out, m.broadcast_time);
    push_opt_u32(out, m.current);
    push_opt_u32(out, m.total);
    push_opt_u32(out, m.total_out);
    push_u64(out, state_tag_of(m.state));
    proof {
        let o0 = old(out)@;
        let e1 = enc_str(m@.title);
        let e2 = enc_u64(m@.alt_titles.len() as u64);
        let e3 = enc_strs(m@.alt_titles);
        let e4 = enc_u64(media_type_tag(m@.media_type));
        let e5 = enc_date(m@.release_date);
        let e6 = enc_u64(status_tag(m@.status));
        let e7 = enc_opt_weekday(m@.broadcast_day);
        let e8 = enc_opt_time(m@.broadcast_time);
        let e9 = enc_opt_u32(m@.current);
        let e10 = enc_opt_u32(m@.total);
        let e11 = enc_opt_u32(m@.total_out);
        let e12 = enc_u64(state_tag(m@.state));
        let r12 = e12;
        let r11 = e11 + r12;
        let r10 = e10 + r11;
        let r9 = e9 + r10;
        let r8 = e8 + r9;
        let r7 = e7 + r8;
        let r6 = e6 + r7;
        let r5 = e5 + r6;
        let r4 = e4 + r5;
        let r3 = e3 + r4;
        let r2 = e2 + r3;
        let r1 = e1 + r2;
        assert(enc_media(m@) == r1);
        lemma_assoc(o0, e1, r2);
        lemma_assoc(o0 + e1, e2, r3);
        lemma_assoc(o0 + e1 + e2, e3, r4);
        lemma_assoc(o0 + e1 + e2 + e3, e4, r5);
        lemma_assoc(o0 + e1 + e2 + e3 + e4, e5, r6);
        lemma_assoc(o0 + e1 + e2 + e3 + e4 + e5, e6, r7);
        lemma_assoc(o0 + e1 + e2 + e3 + e4 + e5 + e6, e7, r8);
        lemma_assoc(o0 + e1 + e2 + e3 + e4 + e5 + e6 + e7, e8, r9);
        lemma_assoc(o0 + e1 + e2 + e3 + e4 + e5 + e6 + e7 + e8, e9, r10);
        lemma_assoc(o0 + e1 + e2 + e3 + e4 + e5 + e6 + e7 + e8 + e9, e10, r11);
        lemma_assoc(o0 + e1 + e2 + e3 + e4 + e5 + e6 + e7 + e8 + e9 + e10, e11, r12);
        assert(final(out)@ == o0 + e1 + e2 + e3 + e4 + e5 + e6 + e7 + e8 + e9 + e10 + e11 + e12);
    }
}

/// Serializes a sequence of records into the snapshot wire form.
pub fn encode_library(records: &Vec<Media>) -> (out: Vec<u8>)
    ensures
        out@ == enc_lib(views(records@)),
        lib_encodable(views(records@)),
{
    let ghost vs = views(records@);
    let mut out: Vec<u8> = Vec::new();
    push_u64(&mut out, records.len() as u64);
    proof {
        assert(out@ =~= enc_u64(vs.len() as u64));
    }
    let mut i: usize = 0;
    while i < records.len()
        invariant
            i <= records@.len(),
            vs == views(records@),
            vs.len() == records@.len(),
            out@ == enc_u64(vs.len() as u64) + enc_medias(vs.take(i as int)),
            forall|k: int| 0 <= k < i ==> media_encodable(#[trigger] vs[k]),
        decreases records@.len() - i,
    {
        let ghost prev = vs.take(i as int);
        push_media(&mut out, &records[i]);
        i = i + 1;
        proof {
            let cur = vs.take(i as int);
            assert(vs[i - 1] == records@[i - 1]@);
            assert(cur =~= prev.push(vs[i - 1]));
            lemma_enc_medias_push(prev, vs[i - 1]);
            assert(out@ =~= enc_u64(vs.len() as u64) + enc_medias(cur));
        }
    }
    proof {
        assert(vs.take(vs.len() as int) =~= vs);
    }
    out
}

/// Relies on `String::from_utf8`: it succeeds exactly on well-formed UTF-8
/// input and returns the string those bytes spell.
#[verifier::external_body]
fn string_from_utf8(v: Vec<u8>) -> (r: Option<String>)
    ensures
        r is Some <==> valid_utf8(v@),
        r matches Some(s) ==> s@ == decode_utf8(v@),
{
    String::from_utf8(v).ok()
}

/// Reads one integer of the wire form.
fn read_u64(buf: &Vec<u8>, pos: usize) -> (r: Option<(u64, usize)>)
    ensures
        r matches Some((x, q)) ==> dec_u64(buf@, pos as int) == Some((x, q as int)),
        r is None ==> dec_u64(buf@, pos as int) is None,
{
    if buf.len() >= 8 && pos <= buf.len() - 8 {
        let s = slice_subrange(buf.as_slice(), pos, pos + 8);
        let x = u64_from_le_bytes(s);
        Some((x, pos + 8))
    } else {
        None
    }
}

/// Reads one string of the wire form.
fn read_str(buf: &Vec<u8>, pos: usize) -> (r: Option<(String, usize)>)
    ensures
        r matches Some((s, q)) ==> dec_str(buf@, pos as int) == Some((s@, q as int)),
        r is None ==> dec_str(buf@, pos as int) is None,
{
    match read_u64(buf, pos) {
        None => None,
        Some((n, p1)) => {
            if n > (buf.len() - p1) as u64 {
                None
            } else {
                let nn = n as usize;
                let sl = slice_subrange(buf.as_slice(), p1, p1 + nn);
                let bytes = slice_to_vec(sl);
                match string_from_utf8(bytes) {
                    Some(s) => Some((s, p1 + nn)),
                    None => None,
                }
            }
        },
    }
}


/// Reads a media-type tag of the wire form.
fn read_media_type(buf: &Vec<u8>, pos: usize) -> (r: Option<(MediaType, usize)>)
    ensures
        r matches Some((t, q)) ==> dec_media_type(buf@, pos as int) == Some((t, q as int)),
        r is None ==> dec_media_type(buf@, pos as int) is None,
{
    match read_u64(buf, pos) {
        None => None,
        Some((t, q)) => {
            if t == 0 {
                Some((MediaType::Anime, q))
            } else if t == 1 {
                Some((MediaType::TVShow, q))
            } else if t == 2 {
                Some((MediaType::Game, q))
            } else {
                None
            }
        },
    }
}

/// Reads a release-status tag of the wire form.
fn read_status(buf: &Vec<u8>, pos: usize) -> (r: Option<(Status, usize)>)
    ensures
        r matches Some((t, q)) ==> dec_status(buf@, pos as int) == Some((t, q as int)),
        r is None ==> dec_status(buf@, pos as int) is None,
{
    match read_u64(buf, pos) {
        None => None,
        Some((t, q)) => {
            if t == 0 {
                Some((Status::OnGoing, q))
            } else if t == 1 {
                Some((Status::Finished, q))
            } else if t == 2 {
                Some((Status::Upcoming, q))
            } else {
                None
            }
        },
    }
}

/// Reads a consumption-state tag of the wire form.
fn read_state(buf: &Vec<u8>, pos: usize) -> (r: Option<(State, usize)>)
    ensures
        r matches Some((t, q)) ==> dec_state(buf@, pos as int) == Some((t, q as int)),
        r is None ==> dec_state(buf@, pos as int) is None,
{
    match read_u64(buf, pos) {
        None => None,
        Some((t, q)) => {
            if t == 0 {
                Some((State::NotStarted, q))
            } else if t == 1 {
                Some((State::InProgress, q))
            } else if t == 2 {
                Some((State::Completed, q))
            } else if t == 3 {
                Some((State::OnHold, q))
            } else if t == 4 {
                Some((State::Dropped, q))
            } else {
                None
            }
        },
    }
}

/// Reads an optional broadcast day of the wire form.
fn read_opt_weekday(buf: &Vec<u8>, pos: usize) -> (r: Option<(Option<Weekday>, usize)>)
    ensures
        r matches Some((d, q)) ==> dec_opt_weekday(buf@, pos as int) == Some((d, q as int)),
        r is None ==> dec_opt_weekday(buf@, pos as int) is None,
{
    match read_u64(buf, pos) {
        None => None,
        Some((t, q)) => {
            if t == 0 {
                Some((None, q))
            } else if t == 1 {
                Some((Some(Weekday::Monday), q))
            } else if t == 2 {
                Some((Some(Weekday::Tuesday), q))
            } else if t == 3 {
                Some((Some(Weekday::Wednesday), q))
            } else if t == 4 {
                Some((Some(Weekday::Thursday), q))
            } else if t == 5 {
                Some((Some(Weekday::Friday), q))
            } else if t == 6 {
                Some((Some(Weekday::Saturday), q))
            } else if t == 7 {
                Some((Some(Weekday::Sunday), q))
            } else {
                None
            }
        },
    }
}

/// Reads an optional broadcast time of the wire form.
fn read_opt_time(buf: &Vec<u8>, pos: usize) -> (r: Option<(Option<TimeOfDay>, usize)>)
    ensures
        r matches Some((t, q)) ==> dec_opt_time(buf@, pos as int) == Some((t, q as int)),
        r is None ==> dec_opt_time(buf@, pos as int) is None,
{
    match read_u64(buf, pos) {
        None => None,
        Some((flag, q)) => {
            if flag == 0 {
                Some((None, q))
            } else if flag == 1 {
                match read_u64(buf, q) {
                    None => None,
                    Some((h, q1)) => {
                        if h > 255 {
                            return None;
                        }
                        match read_u64(buf, q1) {
                            None => None,
                            Some((mi, q2)) => {
                                if mi > 255 {
                                    return None;
                                }
                                match read_u64(buf, q2) {
                                    None => None,
                                    Some((se, q3)) => {
                                        if se > 255 {
                                            return None;
                                        }
                                        Some(
                                            (
                                                Some(
                                                    TimeOfDay {
                                                        hour: h as u8,
                                                        minute: mi as u8,
                                                        second: se as u8,
                                                    },
                                                ),
                                                q3,
                                            ),
                                        )
                                    },
                                }
                            },
                        }
                    },
                }
            } else {
                None
            }
        },
    }
}

/// Reads an optional counter of the wire form.
fn read_opt_u32(buf: &Vec<u8>, pos: usize) -> (r: Option<(Option<u32>, usize)>)
    ensures
        r matches Some((x, q)) ==> dec_opt_u32(buf@, pos as int) == Some((x, q as int)),
        r is None ==> dec_opt_u32(buf@, pos as int) is None,
{
    match read_u64(buf, pos) {
        None => None,
        Some((flag, q)) => {
            if flag == 0 {
                Some((None, q))
            } else if flag == 1 {
                match read_u64(buf, q) {
                    None => None,
                    Some((v, q1)) => {
                        if v > 0xffff_ffff {
                            None
                        } else {
                            Some((Some(v as u32), q1))
                        }
                    },
                }
            } else {
                None
            }
        },
    }
}

/// Reads a calendar date of the wire form.
fn read_date(buf: &Vec<u8>, pos: usize) -> (r: Option<(Date, usize)>)
    ensures
        r matches Some((d, q)) ==> dec_date(buf@, pos as int) == Some((d, q as int)),
        r is None ==> dec_date(buf@, pos as int) is None,
{
    match read_u64(buf, pos) {
        None => None,
        Some((y, q)) => {
            if y > 0xffff {
                return None;
            }
            match read_u64(buf, q) {
                None => None,
                Some((mo, q1)) => {
                    if mo > 255 {
                        return None;
                    }
                    match read_u64(buf, q1) {
                        None => None,
                        Some((d, q2)) => {
                            if d > 255 {
                                None
                            } else {
                                Some((Date { year: y as u16, month: mo as u8, day: d as u8 }, q2))
                            }
                        },
                    }
                },
            }
        },
    }
}

/// Reads a run of `count` strings of the wire form.
fn read_strs(buf: &Vec<u8>, pos: usize, count: u64) -> (r: Option<(Vec<String>, usize)>)
    ensures
        r matches Some((v, q)) ==> dec_strs(buf@, pos as int, count as nat) == Some(
            (strings_view(v@), q as int),
        ),
        r is None ==> dec_strs(buf@, pos as int, count as nat) is None,
    decreases count,
{
    if count == 0 {
        let v: Vec<String> = Vec::new();
        proof {
            assert(strings_view(v@) =~= Seq::<Seq<char>>::empty());
        }
        Some((v, pos))
    } else {
        match read_str(buf, pos) {
            None => None,
            Some((s, q)) => {
                match read_strs(buf, q, count - 1) {
                    None => None,
                    Some((mut v, e)) => {
                        let ghost tail = strings_view(v@);
                        v.insert(0, s);
                        proof {
                            assert(strings_view(v@) =~= seq![s@] + tail);
                        }
                        Some((v, e))
                    },
                }
            },
        }
    }
}

/// Reads one record of the wire form.
fn read_media(buf: &Vec<u8>, pos: usize) -> (r: Option<(Media, usize)>)
    ensures
        r matches Some((m, q)) ==> dec_media(buf@, pos as int) == Some((m@, q as int)),
        r is None ==> dec_media(buf@, pos as int) is None,
{
    let (title, p1) = match read_str(buf, pos) {
        None => {
            return None;
        },
        Some(x) => x,
    };
    let (altn, p2) = match read_u64(buf, p1) {
        None => {
            return None;
        },
        Some(x) => x,
    };
    let (alts, p3) = match read_strs(buf, p2, altn) {
        None => {
            return None;
        },
        Some(x) => x,
    };
    let (mt, p4) = match read_media_type(buf, p3) {
        None => {
            return None;
        },
        Some(x) => x,
    };
    let (date, p5) = match read_date(buf, p4) {
        None => {
            return None;
        },
        Some(x) => x,
    };
    let (st, p6) = match read_status(buf, p5) {
        None => {
            return None;
        },
        Some(x) => x,
    };
    let (bd, p7) = match read_opt_weekday(buf, p6) {
        None => {
            return None;
        },
        Some(x) => x,
    };
    let (bt, p8) = match read_opt_time(buf, p7) {
        None => {
            return None;
        },
        Some(x) => x,
    };
    let (cur, p9) = match read_opt_u32(buf, p8) {
        None => {
            return None;
        },
        Some(x) => x,
    };
    let (tot, p10) = match read_opt_u32(buf, p9) {
        None => {
            return None;
        },
        Some(x) => x,
    };
    let (toto, p11) = match read_opt_u32(buf, p10) {
        None => {
            return None;
        },
        Some(x) => x,
    };
    let (ust, p12) = match read_state(buf, p11) {
        None => {
            return None;
        },
        Some(x) => x,
    };
    let m = Media {
        title,
        alt_titles: alts,
        media_type: mt,
        release_date: date,
        status: st,
        broadcast_day: bd,
        broadcast_time: bt,
        current: cur,
        total: tot,
        total_out: toto,
        state: ust,
    };
    Some((m, p12))
}

/// Reads a run of `count` records of the wire form.
fn read_medias(buf: &Vec<u8>, pos: usize, count: u64) -> (r: Option<(Vec<Media>, usize)>)
    ensures
        r matches Some((v, q)) ==> dec_medias(buf@, pos as int, count as nat) == Some(
            (views(v@), q as int),
        ),
        r is None ==> dec_medias(buf@, pos as int, count as nat) is None,
    decreases count,
{
    if count == 0 {
        let v: Vec<Media> = Vec::new();
        proof {
            assert(views(v@) =~= Seq::<MediaView>::empty());
        }
        Some((v, pos))
    } else {
        match read_media(buf, pos) {
            None => None,
            Some((m, q)) => {
                match read_medias(buf, q, count - 1) {
                    None => None,
                    Some((mut v, e)) => {
                        let ghost tail = views(v@);
                        v.insert(0, m);
                        proof {
                            assert(views(v@) =~= seq![m@] + tail);
                        }
                        Some((v, e))
                    },
                }
            },
        }
    }
}

/// Deserializes a snapshot blob. The result is the decoded records exactly
/// when the blob is a well-formed snapshot, and nothing otherwise.
pub fn decode_library(buf: &Vec<u8>) -> (r: Option<Vec<Media>>)
    ensures
        r matches Some(v) ==> dec_lib(buf@) == Some(views(v@)),
        r is None ==> dec_lib(buf@) is None,
{
    match read_u64(buf, 0) {
        None => None,
        Some((n, q)) => {
            match read_medias(buf, q, n) {
                None => None,
                Some((v, e)) => {
                    if e == buf.len() {
                        Some(v)
                    } else {
                        None
                    }
                },
            }
        },
    }
}


} // verus!
