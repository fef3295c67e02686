//! The `application/x-www-form-urlencoded` grammar of the subscription
//! form body: `&`-separated segments, each split at its first `=` into a
//! key and a value, both percent-decoded, with `+` standing for a space.
//!
//! A `%` escape carries two hexadecimal digits and decodes to the
//! character with that code; a `%` not followed by two such digits makes
//! the whole body undecodable. Multi-byte sequences are not recombined:
//! each escaped byte stands for its own code point, which is exact for
//! ASCII bodies.

use vstd::prelude::*;

verus! {

/// A hexadecimal digit as a percent escape accepts it, either case.
pub open spec fn is_url_hex(c: char) -> bool {
    (48 <= c as u32 <= 57) || (65 <= c as u32 <= 70) || (97 <= c as u32 <= 102)
}

/// The value of a hexadecimal digit.
pub open spec fn url_hex_val(c: char) -> int {
    if 48 <= c as u32 <= 57 {
        c as u32 - 48
    } else if 65 <= c as u32 <= 70 {
        c as u32 - 55
    } else {
        c as u32 - 87
    }
}

/// The character a two-digit percent escape decodes to.
pub open spec fn percent_char(a: char, b: char) -> char {
    ((16 * url_hex_val(a) + url_hex_val(b)) as u8) as char
}

/// Percent-decoding of a whole string: `+` becomes a space, a valid `%`
/// escape becomes its character, everything else stands as is; an invalid
/// escape makes the result `None`.
pub open spec fn percent_decoded(s: Seq<char>) -> Option<Seq<char>>
    decreases s.len(),
{
    if s.len() == 0 {
        Some(Seq::empty())
    } else if s[0] == '+' {
        match percent_decoded(s.skip(1)) {
            Some(r) => Some(seq![' '] + r),
            None => None,
        }
    } else if s[0] == '%' {
        if s.len() >= 3 && is_url_hex(s[1]) && is_url_hex(s[2]) {
            match percent_decoded(s.skip(3)) {
                Some(r) => Some(seq![percent_char(s[1], s[2])] + r),
                None => None,
            }
        } else {
            None
        }
    } else {
        match percent_decoded(s.skip(1)) {
            Some(r) => Some(seq![s[0]] + r),
            None => None,
        }
    }
}

/// `prefix` already decoded, `rest` still to decode.
pub open spec fn decode_continuation(prefix: Seq<char>, rest: Seq<char>) -> Option<Seq<char>> {
    match percent_decoded(rest) {
        Some(r) => Some(prefix + r),
        None => None,
    }
}

/// Relies on `alloc::string::String::push`: appends exactly the one
/// character.
#[verifier::external_body]
fn push_char(s: &mut String, c: char)
    ensures
        final(s)@ == old(s)@.push(c),
{
    s.push(c);
}

fn url_hex_digit_val(c: char) -> (v: Option<u8>)
    ensures
        match v {
            Some(x) => is_url_hex(c) && x == url_hex_val(c) && x < 16,
            None => !is_url_hex(c),
        },
{
    let n = c as u32;
    if 48 <= n && n <= 57 {
        Some((n - 48) as u8)
    } else if 65 <= n && n <= 70 {
        Some((n - 55) as u8)
    } else if 97 <= n && n <= 102 {
        Some((n - 87) as u8)
    } else {
        None
    }
}

/// Percent-decodes one string; `None` exactly on an invalid escape.
pub fn percent_decode(s: &str) -> (r: Option<String>)
    ensures
        match r {
            Some(d) => percent_decoded(s@) == Some(d@),
            None => percent_decoded(s@) is None,
        },
{
    let len = s.unicode_len();
    let mut out = String::new();
    let mut i: usize = 0;
    proof {
        assert(s@.skip(0) =~= s@);
        if percent_decoded(s@) is Some {
            assert(Seq::<char>::empty() + percent_decoded(s@).unwrap() =~= percent_decoded(
                s@,
            ).unwrap());
        }
    }
    while i < len
        invariant
            0 <= i <= len,
            len == s@.len(),
            percent_decoded(s@) == decode_continuation(out@, s@.skip(i as int)),
        decreases len - i,
    {
        let c = s.get_char(i);
        let ghost prev_out = out@;
        if c == '+' {
            push_char(&mut out, ' ');
            proof {
                assert(s@.skip(i as int)[0] == '+');
                assert(s@.skip(i as int).skip(1) =~= s@.skip(i as int + 1));
                assert(prev_out.push(' ') =~= prev_out + seq![' ']);
                if percent_decoded(s@.skip(i as int + 1)) is Some {
                    let rest = percent_decoded(s@.skip(i as int + 1)).unwrap();
                    assert(prev_out + (seq![' '] + rest) =~= (prev_out + seq![' ']) + rest);
                }
            }
        } else if c == '%' {
            if len - i < 3 {
                proof {
                    assert(s@.skip(i as int)[0] == '%');
                    assert(s@.skip(i as int).len() < 3);
                }
                return None;
            }
            let hi = match url_hex_digit_val(s.get_char(i + 1)) {
                Some(hi) => hi,
                None => {
                    proof {
                        assert(s@.skip(i as int)[0] == '%');
                        assert(s@.skip(i as int)[1] == s@[i as int + 1]);
                    }
                    return None;
                },
            };
            let lo = match url_hex_digit_val(s.get_char(i + 2)) {
                Some(lo) => lo,
                None => {
                    proof {
                        assert(s@.skip(i as int)[0] == '%');
                        assert(s@.skip(i as int)[2] == s@[i as int + 2]);
                    }
                    return None;
                },
            };
            let decoded = (16 * hi + lo) as char;
            push_char(&mut out, decoded);
            proof {
                assert(s@.skip(i as int)[0] == '%');
                assert(s@.skip(i as int)[1] == s@[i as int + 1]);
                assert(s@.skip(i as int)[2] == s@[i as int + 2]);
                assert(s@.skip(i as int).skip(3) =~= s@.skip(i as int + 3));
                assert(decoded == percent_char(s@[i as int + 1], s@[i as int + 2]));
                assert(prev_out.push(decoded) =~= prev_out + seq![decoded]);
                if percent_decoded(s@.skip(i as int + 3)) is Some {
                    let rest = percent_decoded(s@.skip(i as int + 3)).unwrap();
                    assert(prev_out + (seq![decoded] + rest) =~= (prev_out + seq![decoded]) + rest);
                }
            }
            i += 2;
        } else {
            push_char(&mut out, c);
            proof {
                assert(s@.skip(i as int)[0] == c);
                assert(s@.skip(i as int).skip(1) =~= s@.skip(i as int + 1));
                assert(prev_out.push(c) =~= prev_out + seq![c]);
                if percent_decoded(s@.skip(i as int + 1)) is Some {
                    let rest = percent_decoded(s@.skip(i as int + 1)).unwrap();
                    assert(prev_out + (seq![c] + rest) =~= (prev_out + seq![c]) + rest);
                }
            }
        }
        i += 1;
    }
    proof {
        assert(s@.skip(len as int) =~= Seq::<char>::empty());
    }
    Some(out)
}

} // verus!

verus! {

/// The `&`-separated segments of a body. An empty body is one empty
/// segment; separators at the edges or next to each other yield empty
/// segments, which decode to an empty key and value and are ignored by
/// any lookup.
pub open spec fn split_segments(s: Seq<char>) -> Seq<Seq<char>>
    decreases s.len(),
{
    if s.len() == 0 {
        seq![Seq::<char>::empty()]
    } else if s[0] == '&' {
        seq![Seq::<char>::empty()] + split_segments(s.skip(1))
    } else {
        let rest = split_segments(s.skip(1));
        seq![seq![s[0]] + rest[0]] + rest.skip(1)
    }
}

/// A segment split at its first `=`: the key before it and the value
/// after it. A segment without `=` is all key, with an empty value.
pub open spec fn split_pair(p: Seq<char>) -> (Seq<char>, Seq<char>)
    decreases p.len(),
{
    if p.len() == 0 {
        (Seq::<char>::empty(), Seq::<char>::empty())
    } else if p[0] == '=' {
        (Seq::<char>::empty(), p.skip(1))
    } else {
        let rest = split_pair(p.skip(1));
        (seq![p[0]] + rest.0, rest.1)
    }
}

/// The decoded key/value pair of one segment: the segment split at its
/// first `=`, both sides percent-decoded; `None` when either side has an
/// invalid escape.
pub open spec fn decoded_pair(p: Seq<char>) -> Option<(Seq<char>, Seq<char>)> {
    match (percent_decoded(split_pair(p).0), percent_decoded(split_pair(p).1)) {
        (Some(k), Some(v)) => Some((k, v)),
        _ => None,
    }
}

/// There is always at least one segment.
pub proof fn lemma_split_segments_len(s: Seq<char>)
    ensures
        split_segments(s).len() >= 1,
    decreases s.len(),
{
    if s.len() == 0 {
    } else if s[0] == '&' {
        lemma_split_segments_len(s.skip(1));
    } else {
        lemma_split_segments_len(s.skip(1));
    }
}

/// Splitting a string whose first separator stands at `a` peels the
/// prefix off as the first segment.
pub proof fn lemma_split_segments_peel(s: Seq<char>, a: int)
    requires
        0 <= a < s.len(),
        s[a] == '&',
        forall|j: int| 0 <= j < a ==> s[j] != '&',
    ensures
        split_segments(s) =~= seq![s.take(a)] + split_segments(s.skip(a + 1)),
    decreases a,
{
    lemma_split_segments_len(s.skip(1));
    if a == 0 {
        assert(s.take(0) =~= Seq::<char>::empty());
        assert(s.skip(1) =~= s.skip(a + 1));
    } else {
        lemma_split_segments_peel(s.skip(1), a - 1);
        assert(s.skip(1).skip(a) =~= s.skip(a + 1));
        let rest = split_segments(s.skip(1));
        assert(rest[0] == s.skip(1).take(a - 1));
        assert(seq![s[0]] + s.skip(1).take(a - 1) =~= s.take(a));
        assert(rest.skip(1) =~= split_segments(s.skip(a + 1)));
    }
}

/// Splitting a string without separators yields the string itself as the
/// only segment.
pub proof fn lemma_split_segments_whole(s: Seq<char>)
    requires
        forall|j: int| 0 <= j < s.len() ==> s[j] != '&',
    ensures
        split_segments(s) =~= seq![s],
    decreases s.len(),
{
    if s.len() == 0 {
        assert(s =~= Seq::<char>::empty());
    } else {
        lemma_split_segments_whole(s.skip(1));
        let rest = split_segments(s.skip(1));
        assert(rest[0] == s.skip(1));
        assert(seq![s[0]] + s.skip(1) =~= s);
        assert(rest.skip(1) =~= Seq::<Seq<char>>::empty());
    }
}

/// A segment whose first `=` stands at `e` splits into what is before and
/// after it.
pub proof fn lemma_split_pair_at(p: Seq<char>, e: int)
    requires
        0 <= e < p.len(),
        p[e] == '=',
        forall|j: int| 0 <= j < e ==> p[j] != '=',
    ensures
        split_pair(p).0 =~= p.take(e),
        split_pair(p).1 =~= p.skip(e + 1),
    decreases e,
{
    if e == 0 {
        assert(p.take(0) =~= Seq::<char>::empty());
        assert(p.skip(1) =~= p.skip(e + 1));
    } else {
        lemma_split_pair_at(p.skip(1), e - 1);
        assert(p.skip(1).skip(e) =~= p.skip(e + 1));
        assert(seq![p[0]] + p.skip(1).take(e - 1) =~= p.take(e));
    }
}

/// A segment without `=` is all key.
pub proof fn lemma_split_pair_whole(p: Seq<char>)
    requires
        forall|j: int| 0 <= j < p.len() ==> p[j] != '=',
    ensures
        split_pair(p).0 =~= p,
        split_pair(p).1 =~= Seq::<char>::empty(),
    decreases p.len(),
{
    if p.len() == 0 {
    } else {
        lemma_split_pair_whole(p.skip(1));
        assert(seq![p[0]] + p.skip(1) =~= p);
    }
}

/// Splits a body into its `&`-separated segments.
pub fn split_form_segments(body: &str) -> (segs: Vec<String>)
    ensures
        segs@.len() == split_segments(body@).len(),
        forall|k: int| 0 <= k < segs@.len() ==> #[trigger] segs@[k]@ == split_segments(body@)[k],
{
    let len = body.unicode_len();
    let mut segs: Vec<String> = Vec::new();
    let mut start: usize = 0;
    let mut i: usize = 0;
    proof {
        assert(body@.skip(0) =~= body@);
    }
    while i < len
        invariant
            0 <= start <= i <= len,
            len == body@.len(),
            forall|j: int| start <= j < i ==> body@[j] != '&',
            split_segments(body@).len() == segs@.len() + split_segments(
                body@.skip(start as int),
            ).len(),
            forall|k: int| 0 <= k < segs@.len() ==> #[trigger] segs@[k]@ == split_segments(body@)[k],
            forall|m: int|
                0 <= m < split_segments(body@.skip(start as int)).len() ==> #[trigger] split_segments(
                    body@.skip(start as int),
                )[m] == split_segments(body@)[segs@.len() + m],
        decreases len - i,
    {
        if body.get_char(i) == '&' {
            let seg = body.substring_char(start, i);
            let ghost old_count = segs@.len();
            segs.push(String::from_str(seg));
            proof {
                let tail = body@.skip(start as int);
                assert(tail[i - start as int] == '&');
                assert forall|j: int| 0 <= j < i - start as int implies tail[j] != '&' by {
                    assert(tail[j] == body@[start + j]);
                }
                lemma_split_segments_peel(tail, i - start as int);
                assert(tail.take(i - start as int) =~= seg@);
                assert(tail.skip(i - start as int + 1) =~= body@.skip(i as int + 1));
                assert(split_segments(tail)[0] == seg@);
                assert(segs@[old_count as int]@ == split_segments(body@)[old_count as int]);
                assert forall|m: int|
                    0 <= m < split_segments(body@.skip(i as int + 1)).len() implies #[trigger] split_segments(
                    body@.skip(i as int + 1),
                )[m] == split_segments(body@)[segs@.len() + m] by {
                    assert(split_segments(tail)[m + 1] == split_segments(
                        body@.skip(i as int + 1),
                    )[m]);
                }
            }
            start = i + 1;
        }
        i += 1;
    }
    let seg = body.substring_char(start, len);
    let ghost old_count = segs@.len();
    segs.push(String::from_str(seg));
    proof {
        let tail = body@.skip(start as int);
        assert forall|j: int| 0 <= j < tail.len() implies tail[j] != '&' by {
            assert(tail[j] == body@[start + j]);
        }
        lemma_split_segments_whole(tail);
        assert(tail =~= seg@);
        assert(split_segments(tail)[0] == tail);
        assert(segs@[old_count as int]@ == split_segments(body@)[old_count as int]);
    }
    segs
}

/// Splits one segment at its first `=` into key and value.
pub fn split_segment_pair(segment: &str) -> (kv: (String, String))
    ensures
        kv.0@ == split_pair(segment@).0,
        kv.1@ == split_pair(segment@).1,
{
    let len = segment.unicode_len();
    let mut e: usize = 0;
    while e < len
        invariant
            0 <= e <= len,
            len == segment@.len(),
            forall|j: int| 0 <= j < e ==> segment@[j] != '=',
        decreases len - e,
    {
        if segment.get_char(e) == '=' {
            let key = segment.substring_char(0, e);
            let value = segment.substring_char(e + 1, len);
            proof {
                lemma_split_pair_at(segment@, e as int);
                assert(key@ =~= segment@.take(e as int));
                assert(value@ =~= segment@.skip(e as int + 1));
            }
            return (String::from_str(key), String::from_str(value));
        }
        e += 1;
    }
    proof {
        lemma_split_pair_whole(segment@);
    }
    (String::from_str(segment), String::new())
}

} // verus!
