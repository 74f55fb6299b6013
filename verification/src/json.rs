//! Byte-level building blocks of the wire format.
//!
//! The submission is JSON text, produced here directly as bytes. A
//! string field is emitted inside double quotes with the standard JSON
//! escapes: `"` and `\` get a backslash, the common control characters
//! get their two-character short forms, the remaining control bytes
//! become `\u00XX`, and every other byte — including the bytes of a
//! multi-byte UTF-8 character, all of which are at least 0x80 — passes
//! through unchanged.

use vstd::prelude::*;

verus! {

/// The bytes of an ASCII-only character sequence, one byte per
/// character.
pub open spec fn ascii(s: Seq<char>) -> Seq<u8> {
    Seq::new(s.len(), |i: int| s[i] as u8)
}

/// The lower-case hexadecimal digit for a value below 16.
pub open spec fn spec_hex_digit(d: u8) -> u8
    recommends
        d < 16,
{
    if d < 10 {
        (48 + d) as u8  // '0'..='9'
    } else {
        (87 + d) as u8  // 'a'..='f'
    }
}

/// How one byte of a string field is emitted inside a JSON string.
pub open spec fn escape_byte(b: u8) -> Seq<u8> {
    if b == 34 {  // '"'
        seq![92u8, 34u8]
    } else if b == 92 {  // '\'
        seq![92u8, 92u8]
    } else if b == 8 {  // backspace
        seq![92u8, 98u8]
    } else if b == 9 {  // tab
        seq![92u8, 116u8]
    } else if b == 10 {  // line feed
        seq![92u8, 110u8]
    } else if b == 12 {  // form feed
        seq![92u8, 102u8]
    } else if b == 13 {  // carriage return
        seq![92u8, 114u8]
    } else if b < 32 {  // other control bytes: \u00XX
        seq![92u8, 117u8, 48u8, 48u8, spec_hex_digit((b / 16) as u8), spec_hex_digit((b % 16) as u8)]
    } else {
        seq![b]
    }
}

/// A whole string field, escaped byte by byte.
pub open spec fn escaped(s: Seq<u8>) -> Seq<u8>
    decreases s.len(),
{
    if s.len() == 0 {
        Seq::empty()
    } else {
        escaped(s.drop_last()) + escape_byte(s.last())
    }
}

/// The value of a lower-case hexadecimal digit byte.
pub open spec fn hex_val(c: u8) -> u8 {
    if 48 <= c <= 57 {
        (c - 48) as u8
    } else if 97 <= c <= 102 {
        (c - 87) as u8
    } else {
        0
    }
}

/// Reads an escaped JSON string body back into its raw bytes: the
/// left inverse of [`escaped`]. On input that is not the output of
/// `escaped` the result is unspecified garbage.
pub open spec fn unescape(s: Seq<u8>) -> Seq<u8>
    decreases s.len(),
{
    if s.len() == 0 {
        Seq::empty()
    } else if s[0] == 92 {
        if s.len() == 1 {
            Seq::empty()
        } else if s[1] == 34 {
            seq![34u8] + unescape(s.skip(2))
        } else if s[1] == 92 {
            seq![92u8] + unescape(s.skip(2))
        } else if s[1] == 98 {
            seq![8u8] + unescape(s.skip(2))
        } else if s[1] == 116 {
            seq![9u8] + unescape(s.skip(2))
        } else if s[1] == 110 {
            seq![10u8] + unescape(s.skip(2))
        } else if s[1] == 102 {
            seq![12u8] + unescape(s.skip(2))
        } else if s[1] == 114 {
            seq![13u8] + unescape(s.skip(2))
        } else if s[1] == 117 && s.len() >= 6 {
            seq![(hex_val(s[4]) * 16 + hex_val(s[5])) as u8] + unescape(s.skip(6))
        } else {
            Seq::empty()
        }
    } else {
        seq![s[0]] + unescape(s.skip(1))
    }
}

/// [`escaped`] consumed from the front: the first byte's escape, then
/// the rest.
pub proof fn lemma_escaped_left(s: Seq<u8>)
    requires
        s.len() > 0,
    ensures
        escaped(s) == escape_byte(s[0]) + escaped(s.drop_first()),
    decreases s.len(),
{
    if s.len() == 1 {
        assert(s.drop_last() =~= Seq::<u8>::empty());
        assert(s.drop_first() =~= Seq::<u8>::empty());
        assert(escaped(s) =~= escape_byte(s[0]) + escaped(s.drop_first()));
    } else {
        lemma_escaped_left(s.drop_last());
        assert(s.drop_last()[0] == s[0]);
        assert(s.drop_last().drop_first() =~= s.drop_first().drop_last());
        assert(s.drop_first().last() == s.last());
        assert(escaped(s) =~= escape_byte(s[0]) + escaped(s.drop_first()));
    }
}

/// Escaping loses nothing: reading the escaped text back yields the
/// original bytes. With [`lemma_single_shape`] and the fixed frame
/// this is what lets a decoder of the wire text recover the track's
/// fields exactly.
///
/// [`lemma_single_shape`]: crate::encode::lemma_single_shape
pub proof fn lemma_escaped_lossless(s: Seq<u8>)
    ensures
        unescape(escaped(s)) == s,
    decreases s.len(),
{
    if s.len() == 0 {
        assert(escaped(s) =~= Seq::<u8>::empty());
        assert(unescape(escaped(s)) =~= s);
    } else {
        let b = s[0];
        let rest = s.drop_first();
        lemma_escaped_left(s);
        lemma_escaped_lossless(rest);
        let e = escape_byte(b);
        let w = escaped(s);
        assert(w == e + escaped(rest));
        if b == 34 || b == 92 || b == 8 || b == 9 || b == 10 || b == 12 || b == 13 {
            assert(e.len() == 2 && e[0] == 92);
            assert(w[0] == 92 && w[1] == e[1]);
            assert(w.skip(2) =~= escaped(rest));
            assert(unescape(w) == seq![b] + unescape(w.skip(2)));
        } else if b < 32 {
            assert(e.len() == 6 && e[0] == 92 && e[1] == 117);
            assert(w[0] == 92 && w[1] == 117 && w.len() >= 6);
            assert(w[4] == spec_hex_digit((b / 16) as u8) && w[5] == spec_hex_digit(
                (b % 16) as u8,
            ));
            assert(hex_val(w[4]) == b / 16);
            assert(hex_val(w[5]) == b % 16);
            vstd::arithmetic::div_mod::lemma_fundamental_div_mod(b as int, 16);
            assert(hex_val(w[4]) * 16 + hex_val(w[5]) == b);
            assert(w.skip(6) =~= escaped(rest));
            assert(unescape(w) == seq![b] + unescape(w.skip(6)));
        } else {
            assert(e =~= seq![b]);
            assert(w[0] == b && b != 92);
            assert(w.skip(1) =~= escaped(rest));
            assert(unescape(w) == seq![b] + unescape(w.skip(1)));
        }
        assert(seq![b] + rest =~= s);
        assert(unescape(w) =~= s);
    }
}

/// How many bytes a left-to-right scanner of a JSON string body
/// consumes before stopping at a bare (unescaped) quote: a quote
/// stops it, a backslash makes it swallow two bytes, anything else
/// one.
pub open spec fn scan_len(s: Seq<u8>) -> nat
    decreases s.len(),
{
    if s.len() == 0 {
        0
    } else if s[0] == 34 {
        0
    } else if s[0] == 92 {
        if s.len() == 1 {
            1
        } else {
            2 + scan_len(s.skip(2))
        }
    } else {
        1 + scan_len(s.skip(1))
    }
}

/// An escaped field never holds a bare quote: a scanner starting at
/// the field's first byte stops exactly at the closing quote behind
/// it. This is what lets a decoder find the end of each field.
pub proof fn lemma_scan_past_escaped(s: Seq<u8>, t: Seq<u8>)
    requires
        t.len() > 0,
        t[0] == 34,
    ensures
        scan_len(escaped(s) + t) == escaped(s).len(),
    decreases s.len(),
{
    if s.len() == 0 {
        assert(escaped(s) + t =~= t);
    } else {
        let b = s[0];
        let rest = s.drop_first();
        lemma_escaped_left(s);
        lemma_scan_past_escaped(rest, t);
        let e = escape_byte(b);
        let w = escaped(s) + t;
        let w2 = escaped(rest) + t;
        assert(escaped(s) == e + escaped(rest));
        assert(w =~= e + w2);
        if b == 34 || b == 92 || b == 8 || b == 9 || b == 10 || b == 12 || b == 13 {
            assert(e.len() == 2 && e[0] == 92);
            assert(w[0] == 92 && w.len() >= 2);
            assert(w.skip(2) =~= w2);
            assert(scan_len(w) == 2 + scan_len(w2));
        } else if b < 32 {
            let h1 = spec_hex_digit((b / 16) as u8);
            let h2 = spec_hex_digit((b % 16) as u8);
            assert(e.len() == 6 && e[0] == 92 && e[1] == 117 && e[2] == 48 && e[3] == 48 && e[4]
                == h1 && e[5] == h2);
            assert(48 <= h1 <= 57 || 97 <= h1 <= 102);
            assert(48 <= h2 <= 57 || 97 <= h2 <= 102);
            assert(w[0] == 92 && w[2] == 48 && w[3] == 48 && w[4] == h1 && w[5] == h2);
            assert(w.len() >= 6);
            assert(w.skip(2)[0] == w[2] && w.skip(3)[0] == w[3] && w.skip(4)[0] == w[4] && w.skip(
                5,
            )[0] == w[5]);
            assert(w.skip(2).skip(1) =~= w.skip(3));
            assert(w.skip(3).skip(1) =~= w.skip(4));
            assert(w.skip(4).skip(1) =~= w.skip(5));
            assert(w.skip(5).skip(1) =~= w.skip(6));
            assert(w.skip(6) =~= w2);
            assert(scan_len(w) == 2 + scan_len(w.skip(2)));
            assert(scan_len(w.skip(2)) == 1 + scan_len(w.skip(3)));
            assert(scan_len(w.skip(3)) == 1 + scan_len(w.skip(4)));
            assert(scan_len(w.skip(4)) == 1 + scan_len(w.skip(5)));
            assert(scan_len(w.skip(5)) == 1 + scan_len(w.skip(6)));
        } else {
            assert(e =~= seq![b]);
            assert(w[0] == b && b != 34 && b != 92);
            assert(w.skip(1) =~= w2);
            assert(scan_len(w) == 1 + scan_len(w2));
        }
    }
}

/// Two fields with the same escaped text are the same field.
pub proof fn lemma_escaped_injective(a: Seq<u8>, b: Seq<u8>)
    requires
        escaped(a) == escaped(b),
    ensures
        a == b,
{
    lemma_escaped_lossless(a);
    lemma_escaped_lossless(b);
}

/// An escaped field followed by text that opens with a quote can be
/// split back apart in only one way.
pub proof fn lemma_escaped_prefix_injective(f1: Seq<u8>, r1: Seq<u8>, f2: Seq<u8>, r2: Seq<u8>)
    requires
        escaped(f1) + r1 == escaped(f2) + r2,
        r1.len() > 0,
        r1[0] == 34,
        r2.len() > 0,
        r2[0] == 34,
    ensures
        f1 == f2,
        r1 == r2,
{
    lemma_scan_past_escaped(f1, r1);
    lemma_scan_past_escaped(f2, r2);
    let u = escaped(f1) + r1;
    let m = escaped(f1).len();
    assert(escaped(f2).len() == m);
    assert(escaped(f1) =~= u.subrange(0, m as int));
    assert(escaped(f2) =~= u.subrange(0, m as int));
    lemma_escaped_injective(f1, f2);
    assert(r1 =~= u.skip(m as int));
    assert(r2 =~= u.skip(m as int));
}

/// The track-metadata object determines the fields it was built
/// from, even when followed by arbitrary trailing text: a decoder
/// scanning for each field's closing quote recovers artist, title and
/// album exactly.
#[verifier::rlimit(50)]
pub proof fn lemma_track_json_prefix_injective(
    a1: Seq<u8>,
    t1: Seq<u8>,
    l1: Seq<u8>,
    s1: Seq<u8>,
    a2: Seq<u8>,
    t2: Seq<u8>,
    l2: Seq<u8>,
    s2: Seq<u8>,
)
    requires
        track_json(a1, t1, l1) + s1 == track_json(a2, t2, l2) + s2,
    ensures
        a1 == a2,
        t1 == t2,
        l1 == l2,
        s1 == s2,
{
    reveal_strlit("\",\"track_name\":\"");
    reveal_strlit("\",\"release_name\":\"");
    reveal_strlit("\"}");
    let ktit = title_key();
    let kalb = album_key();
    let tt = track_tail();
    assert(ktit[0] == 34 && ktit.len() > 0);
    assert(kalb[0] == 34 && kalb.len() > 0);
    assert(tt[0] == 34 && tt.len() > 0);

    let w = track_json(a1, t1, l1) + s1;
    let ka = artist_key().len();
    let r1 = ktit + escaped(t1) + kalb + escaped(l1) + tt + s1;
    let r2 = ktit + escaped(t2) + kalb + escaped(l2) + tt + s2;
    let u = w.skip(ka as int);
    assert(w =~= artist_key() + (escaped(a1) + r1));
    assert(w =~= artist_key() + (escaped(a2) + r2));
    assert(u =~= escaped(a1) + r1);
    assert(u =~= escaped(a2) + r2);
    assert(r1[0] == 34 && r1.len() > 0);
    assert(r2[0] == 34 && r2.len() > 0);
    lemma_escaped_prefix_injective(a1, r1, a2, r2);

    let p1 = kalb + escaped(l1) + tt + s1;
    let p2 = kalb + escaped(l2) + tt + s2;
    assert(r1 =~= ktit + (escaped(t1) + p1));
    assert(r2 =~= ktit + (escaped(t2) + p2));
    assert(escaped(t1) + p1 =~= r1.skip(ktit.len() as int));
    assert(escaped(t2) + p2 =~= r2.skip(ktit.len() as int));
    assert(p1[0] == 34 && p1.len() > 0);
    assert(p2[0] == 34 && p2.len() > 0);
    lemma_escaped_prefix_injective(t1, p1, t2, p2);

    let q1 = tt + s1;
    let q2 = tt + s2;
    assert(p1 =~= kalb + (escaped(l1) + q1));
    assert(p2 =~= kalb + (escaped(l2) + q2));
    assert(escaped(l1) + q1 =~= p1.skip(kalb.len() as int));
    assert(escaped(l2) + q2 =~= p2.skip(kalb.len() as int));
    assert(q1[0] == 34 && q1.len() > 0);
    assert(q2[0] == 34 && q2.len() > 0);
    lemma_escaped_prefix_injective(l1, q1, l2, q2);

    assert(s1 =~= q1.skip(tt.len() as int));
    assert(s2 =~= q2.skip(tt.len() as int));
    assert(s1 =~= s2);
}

/// The decimal digits of a non-negative number, most significant
/// first.
pub open spec fn dec_rep(n: nat) -> Seq<u8>
    decreases n,
{
    if n < 10 {
        seq![(48 + n) as u8]
    } else {
        dec_rep(n / 10) + seq![(48 + n % 10) as u8]
    }
}

/// The number a run of decimal digit bytes denotes.
pub open spec fn dec_value(s: Seq<u8>) -> nat
    decreases s.len(),
{
    if s.len() == 0 {
        0
    } else {
        dec_value(s.drop_last()) * 10 + (if s.last() >= 48 {
            (s.last() - 48) as nat
        } else {
            0
        })
    }
}

/// The decimal rendering denotes exactly the number it was made from:
/// a decoder reading the digits back gets the original value.
pub proof fn lemma_dec_rep_value(n: nat)
    ensures
        dec_value(dec_rep(n)) == n,
    decreases n,
{
    if n < 10 {
        assert(dec_rep(n).drop_last() =~= Seq::<u8>::empty());
        assert(dec_value(Seq::<u8>::empty()) == 0);
        assert(dec_rep(n).last() == (48 + n) as u8);
    } else {
        lemma_dec_rep_value(n / 10);
        let d = dec_rep(n);
        assert(d.drop_last() =~= dec_rep(n / 10));
        vstd::arithmetic::div_mod::lemma_fundamental_div_mod(n as int, 10);
        assert(0 <= n % 10 < 10);
        assert(d.last() == (48 + n % 10) as u8);
        assert(d.last() >= 48);
        assert((d.last() - 48) as nat == n % 10);
        assert(dec_value(d) == dec_value(dec_rep(n / 10)) * 10 + n % 10);
    }
}

/// A decimal rendering is never empty and consists of ASCII digits
/// only.
pub proof fn lemma_dec_rep_digits(n: nat)
    ensures
        dec_rep(n).len() >= 1,
        forall|i: int| 0 <= i < dec_rep(n).len() ==> 48 <= #[trigger] dec_rep(n)[i] <= 57,
    decreases n,
{
    if n >= 10 {
        lemma_dec_rep_digits(n / 10);
    }
}

/// The opening of a completed listen: it fixes `listen_type` to
/// `"single"`, wraps the payload in a list, and introduces the
/// `listened_at` field.
pub open spec fn single_head() -> Seq<u8> {
    ascii("{\"listen_type\":\"single\",\"payload\":[{\"listened_at\":"@)
}

/// The key that introduces the track-metadata object.
pub open spec fn meta_key() -> Seq<u8> {
    ascii(",\"track_metadata\":"@)
}

/// The closing of a completed listen: record, list and envelope.
pub open spec fn single_tail() -> Seq<u8> {
    ascii("}]}"@)
}

/// The opening of a "currently playing" notice: it fixes `listen_type`
/// to `"playing_now"` and holds a single unwrapped record whose only
/// key is the track metadata — no `listened_at` at all.
pub open spec fn now_head() -> Seq<u8> {
    ascii("{\"listen_type\":\"playing_now\",\"payload\":{\"track_metadata\":"@)
}

/// The closing of a "currently playing" notice: record and envelope.
pub open spec fn now_tail() -> Seq<u8> {
    ascii("}}"@)
}

/// Opens the metadata object and the `artist_name` value.
pub open spec fn artist_key() -> Seq<u8> {
    ascii("{\"artist_name\":\""@)
}

/// Closes the artist value and opens the `track_name` value.
pub open spec fn title_key() -> Seq<u8> {
    ascii("\",\"track_name\":\""@)
}

/// Closes the title value and opens the `release_name` value.
pub open spec fn album_key() -> Seq<u8> {
    ascii("\",\"release_name\":\""@)
}

/// Closes the album value and the metadata object.
pub open spec fn track_tail() -> Seq<u8> {
    ascii("\"}"@)
}

/// The track-metadata object: the three fields under their wire names
/// `artist_name`, `track_name` and `release_name`, in that fixed
/// order, each escaped.
pub open spec fn track_json(artist: Seq<u8>, title: Seq<u8>, album: Seq<u8>) -> Seq<u8> {
    artist_key() + escaped(artist) + title_key() + escaped(title) + album_key() + escaped(album)
        + track_tail()
}

/// The whole `single` submission text for a track (given as the UTF-8
/// bytes of its fields) counted at `listened_at`.
pub open spec fn single_json(
    artist: Seq<u8>,
    title: Seq<u8>,
    album: Seq<u8>,
    listened_at: u64,
) -> Seq<u8> {
    single_head() + dec_rep(listened_at as nat) + meta_key() + track_json(artist, title, album)
        + single_tail()
}

/// The whole `playing_now` submission text for a track. It carries no
/// timestamp, whatever the clock reads.
pub open spec fn playing_now_json(artist: Seq<u8>, title: Seq<u8>, album: Seq<u8>) -> Seq<u8> {
    now_head() + track_json(artist, title, album) + now_tail()
}

/// Appends the bytes of an ASCII-only literal.
pub(crate) fn push_lit(out: &mut Vec<u8>, s: &str)
    requires
        vstd::utf8::is_ascii_chars(s@),
    ensures
        final(out)@ == old(out)@ + ascii(s@),
{
    let bytes = s.as_bytes();
    proof {
        vstd::string::is_ascii_spec_bytes(s);
        assert(bytes@ =~= ascii(s@));
    }
    let ghost pre: Seq<u8> = out@;
    let n = bytes.len();
    let mut i: usize = 0;
    while i < n
        invariant
            n == bytes@.len(),
            i <= n,
            out@ == pre + bytes@.take(i as int),
        decreases n - i,
    {
        out.push(bytes[i]);
        proof {
            assert(bytes@.take(i as int + 1) =~= bytes@.take(i as int).push(bytes@[i as int]));
            assert(out@ =~= pre + bytes@.take(i as int + 1));
        }
        i = i + 1;
    }
    proof {
        assert(bytes@.take(n as int) =~= bytes@);
    }
}

/// The lower-case hexadecimal digit for a value below 16.
fn hex_digit(d: u8) -> (r: u8)
    requires
        d < 16,
    ensures
        r == spec_hex_digit(d),
{
    if d < 10 {
        48 + d
    } else {
        87 + d
    }
}

/// Appends a string field's bytes with JSON escaping applied.
pub(crate) fn push_escaped(out: &mut Vec<u8>, bytes: &[u8])
    ensures
        final(out)@ == old(out)@ + escaped(bytes@),
{
    let ghost pre: Seq<u8> = out@;
    let n = bytes.len();
    let mut i: usize = 0;
    while i < n
        invariant
            n == bytes@.len(),
            i <= n,
            out@ == pre + escaped(bytes@.take(i as int)),
        decreases n - i,
    {
        let ghost prev: Seq<u8> = out@;
        let b = bytes[i];
        if b == 34 {
            out.push(92);
            out.push(34);
        } else if b == 92 {
            out.push(92);
            out.push(92);
        } else if b == 8 {
            out.push(92);
            out.push(98);
        } else if b == 9 {
            out.push(92);
            out.push(116);
        } else if b == 10 {
            out.push(92);
            out.push(110);
        } else if b == 12 {
            out.push(92);
            out.push(102);
        } else if b == 13 {
            out.push(92);
            out.push(114);
        } else if b < 32 {
            out.push(92);
            out.push(117);
            out.push(48);
            out.push(48);
            out.push(hex_digit(b / 16));
            out.push(hex_digit(b % 16));
        } else {
            out.push(b);
        }
        proof {
            assert(out@ =~= prev + escape_byte(bytes@[i as int]));
            let taken = bytes@.take(i as int + 1);
            assert(taken.drop_last() =~= bytes@.take(i as int));
            assert(taken.last() == bytes@[i as int]);
            assert(out@ =~= pre + escaped(taken));
        }
        i = i + 1;
    }
    proof {
        assert(bytes@.take(n as int) =~= bytes@);
    }
}

/// Appends the decimal digits of `n`, most significant first.
pub(crate) fn push_dec(out: &mut Vec<u8>, n: u64)
    ensures
        final(out)@ == old(out)@ + dec_rep(n as nat),
    decreases n,
{
    if n >= 10 {
        push_dec(out, n / 10);
        out.push(48 + (n % 10) as u8);
        proof {
            assert(out@ =~= old(out)@ + dec_rep(n as nat));
        }
    } else {
        out.push(48 + n as u8);
        proof {
            assert(out@ =~= old(out)@ + dec_rep(n as nat));
        }
    }
}

} // verus!
