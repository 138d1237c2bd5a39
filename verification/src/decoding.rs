//! Character counting: the bytes of a source are decoded as UTF-8, and the
//! character count is the number of decoded code points. Malformed bytes are
//! the one failure the counting engine itself can hit.
use vstd::prelude::*;
use vstd::utf8::*;

verus! {

/// After a valid prefix of `i` bytes, a malformed first scalar at `i` makes
/// the whole input malformed.
proof fn lemma_reject_at(s: Seq<u8>, i: int)
    requires
        0 <= i < s.len(),
        partial_valid_utf8(s, i),
        !valid_first_scalar(s.subrange(i, s.len() as int)),
    ensures
        !valid_utf8(s),
{
    let rest = s.subrange(i, s.len() as int);
    assert(rest.len() > 0);
    assert(!valid_utf8(rest));
    partial_valid_partial_invalid_utf8(s, i);
}

/// Extending a valid prefix by one whole scalar of `w` bytes keeps it valid
/// and decodes to exactly one more character.
proof fn lemma_accept_scalar(s: Seq<u8>, i: int, w: int)
    requires
        0 <= i,
        1 <= w,
        i + w <= s.len(),
        partial_valid_utf8(s, i),
        valid_first_scalar(s.subrange(i, s.len() as int)),
        length_of_first_scalar(s.subrange(i, s.len() as int)) == w,
        !is_continuation_byte(s[i]),
    ensures
        partial_valid_utf8(s, i + w),
        decode_utf8(s.subrange(0, i + w)).len() == decode_utf8(s.subrange(0, i)).len() + 1,
{
    partial_valid_utf8_extend(s, i);
    let p = s.subrange(0, i + w);
    assert(valid_utf8(p));
    assert(p[i] == s[i]);
    is_char_boundary_iff_not_is_continuation_byte(p, i);
    decode_utf8_split(p, i);
    valid_utf8_split(p, i);
    assert(p.subrange(0, i) =~= s.subrange(0, i));
    let sc = p.subrange(i, p.len() as int);
    assert(valid_utf8(sc));
    assert(sc.len() == w);
    let rest = s.subrange(i, s.len() as int);
    assert(sc[0] == rest[0]);
    assert(valid_first_scalar(sc));
    assert(length_of_first_scalar(sc) == w);
    assert(pop_first_scalar(sc) =~= Seq::<u8>::empty());
    assert(valid_utf8(Seq::<u8>::empty()));
    assert(decode_utf8(Seq::<u8>::empty()) =~= Seq::<char>::empty());
    assert(decode_utf8(sc) == seq![decode_first_scalar(sc) as char] + decode_utf8(
        pop_first_scalar(sc),
    ));
    assert(decode_utf8(sc).len() == 1);
}

/// A valid text never decodes to more characters than it has bytes, and it
/// decodes to exactly as many iff every byte is a single-byte (ASCII)
/// character.
pub proof fn lemma_chars_le_bytes(s: Seq<u8>)
    requires
        valid_utf8(s),
    ensures
        decode_utf8(s).len() <= s.len(),
        decode_utf8(s).len() == s.len() <==> (forall|i: int| 0 <= i < s.len() ==> s[i] < 0x80),
    decreases s.len(),
{
    if s.len() > 0 {
        let w = length_of_first_scalar(s);
        let rest = pop_first_scalar(s);
        assert(1 <= w <= 4 && w <= s.len());
        assert(rest.len() == s.len() - w);
        assert(forall|j: int| 0 <= j < rest.len() ==> rest[j] == s[j + w]);
        lemma_chars_le_bytes(rest);
        assert(decode_utf8(s) == seq![decode_first_scalar(s) as char] + decode_utf8(rest));
        if w == 1 {
            assert(is_leading_byte_width_1(s[0]));
            if decode_utf8(s).len() == s.len() {
                assert(forall|i: int| 0 <= i < s.len() ==> s[i] < 0x80) by {
                    assert(forall|j: int| 0 <= j < rest.len() ==> rest[j] < 0x80);
                    assert(forall|i: int| 1 <= i < s.len() ==> s[i] == rest[i - 1]);
                }
            }
            if forall|i: int| 0 <= i < s.len() ==> s[i] < 0x80 {
                assert(forall|j: int| 0 <= j < rest.len() ==> rest[j] < 0x80);
            }
        } else {
            assert(s[0] >= 0xc0);
            assert(decode_utf8(s).len() < s.len());
        }
    }
}

/// Count the UTF-8 decoded characters of `input`, or report that the bytes
/// are not a valid UTF-8 encoding.
pub fn count_chars(input: &[u8]) -> (r: Option<usize>)
    ensures
        r is Some <==> valid_utf8(input@),
        r is Some ==> r->0 == decode_utf8(input@).len(),
{
    let ghost s = input@;
    let len = input.len();
    let mut chars: usize = 0;
    let mut i: usize = 0;
    proof {
        assert(s.subrange(0, 0) =~= Seq::<u8>::empty());
    }
    while i < len
        invariant
            i <= len,
            len == s.len(),
            s == input@,
            chars <= i,
            partial_valid_utf8(s, i as int),
            chars == decode_utf8(s.subrange(0, i as int)).len(),
        decreases len - i,
    {
        let ghost rest = s.subrange(i as int, s.len() as int);
        proof {
            assert(rest[0] == s[i as int]);
        }
        let b0 = input[i];
        let w: usize;
        if b0 < 0x80 {
            // One-byte scalar.
            proof {
                assert(b0 & 0x7f <= 0x7f) by (bit_vector);
                assert(decode_first_codepoint(rest) == codepoint_width_1(b0));
                assert(valid_first_scalar(rest));
                assert(length_of_first_scalar(rest) == 1);
            }
            w = 1;
        } else if b0 < 0xc2 {
            // A stray continuation byte, or the two overlong two-byte leads.
            proof {
                if valid_leading_and_continuation_bytes_first_codepoint(rest) {
                    assert(0xc0 <= b0 <= 0xc1);
                    let c1 = rest[1];
                    let x = (b0 & 0x1f) as u32;
                    let y = (c1 & 0x3f) as u32;
                    assert(b0 & 0x1f <= 1) by (bit_vector)
                        requires
                            0xc0 <= b0 <= 0xc1,
                    ;
                    assert(c1 & 0x3f <= 0x3f) by (bit_vector);
                    assert(x <= 1 && y <= 0x3f ==> ((x << 6) | y) < 0x80) by (bit_vector);
                    assert(decode_first_codepoint(rest) == codepoint_width_2(b0, rest[1]));
                    assert(!not_overlong_encoding(decode_first_codepoint(rest), 2));
                }
                lemma_reject_at(s, i as int);
            }
            return None;
        } else if b0 <= 0xdf {
            // Two-byte scalar: the lead is 0xc2..=0xdf, so the value is in
            // 0x80..=0x7ff, which is neither overlong nor a surrogate.
            if len - i < 2 {
                proof {
                    lemma_reject_at(s, i as int);
                }
                return None;
            }
            let b1 = input[i + 1];
            if !(0x80 <= b1 && b1 <= 0xbf) {
                proof {
                    assert(rest[1] == s[i as int + 1]);
                    lemma_reject_at(s, i as int);
                }
                return None;
            }
            proof {
                assert(rest[1] == s[i as int + 1]);
                let x = (b0 & 0x1f) as u32;
                let y = (b1 & 0x3f) as u32;
                assert(b0 & 0x1f >= 2) by (bit_vector)
                    requires
                        0xc2 <= b0 <= 0xdf,
                ;
                assert(b0 & 0x1f <= 0x1f) by (bit_vector);
                assert(b1 & 0x3f <= 0x3f) by (bit_vector);
                assert(2 <= x <= 0x1f && y <= 0x3f ==> 0x80 <= ((x << 6) | y) <= 0x7ff)
                    by (bit_vector);
                assert(decode_first_codepoint(rest) == codepoint_width_2(b0, b1));
                assert(valid_first_scalar(rest));
                assert(length_of_first_scalar(rest) == 2);
            }
            w = 2;
        } else if b0 <= 0xef {
            // Three-byte scalar: the decoded value must be at least 0x800
            // (no overlong form) and outside the surrogate range.
            if len - i < 3 {
                proof {
                    lemma_reject_at(s, i as int);
                }
                return None;
            }
            let b1 = input[i + 1];
            let b2 = input[i + 2];
            proof {
                assert(rest[1] == s[i as int + 1]);
                assert(rest[2] == s[i as int + 2]);
            }
            if !(0x80 <= b1 && b1 <= 0xbf) || !(0x80 <= b2 && b2 <= 0xbf) {
                proof {
                    lemma_reject_at(s, i as int);
                }
                return None;
            }
            let cp: u32 = (((b0 & 0x0f) as u32) << 12) | (((b1 & 0x3f) as u32) << 6) | ((b2
                & 0x3f) as u32);
            proof {
                assert(decode_first_codepoint(rest) == codepoint_width_3(b0, b1, b2));
                assert(cp == codepoint_width_3(b0, b1, b2));
            }
            if cp < 0x800 || (0xd800 <= cp && cp <= 0xdfff) {
                proof {
                    lemma_reject_at(s, i as int);
                }
                return None;
            }
            proof {
                assert(valid_first_scalar(rest));
                assert(length_of_first_scalar(rest) == 3);
            }
            w = 3;
        } else if b0 <= 0xf4 {
            // Four-byte scalar: the decoded value must lie in the planes
            // 0x10000..=0x10ffff.
            if len - i < 4 {
                proof {
                    lemma_reject_at(s, i as int);
                }
                return None;
            }
            let b1 = input[i + 1];
            let b2 = input[i + 2];
            let b3 = input[i + 3];
            proof {
                assert(rest[1] == s[i as int + 1]);
                assert(rest[2] == s[i as int + 2]);
                assert(rest[3] == s[i as int + 3]);
            }
            if !(0x80 <= b1 && b1 <= 0xbf) || !(0x80 <= b2 && b2 <= 0xbf) || !(0x80 <= b3 && b3
                <= 0xbf) {
                proof {
                    lemma_reject_at(s, i as int);
                }
                return None;
            }
            let cp: u32 = (((b0 & 0x07) as u32) << 18) | (((b1 & 0x3f) as u32) << 12) | (((b2
                & 0x3f) as u32) << 6) | ((b3 & 0x3f) as u32);
            proof {
                assert(decode_first_codepoint(rest) == codepoint_width_4(b0, b1, b2, b3));
                assert(cp == codepoint_width_4(b0, b1, b2, b3));
            }
            if cp < 0x10000 || cp > 0x10ffff {
                proof {
                    lemma_reject_at(s, i as int);
                }
                return None;
            }
            proof {
                assert(valid_first_scalar(rest));
                assert(length_of_first_scalar(rest) == 4);
            }
            w = 4;
        } else {
            // Leads 0xf5..=0xf7 can only encode values past 0x10ffff, and
            // 0xf8..=0xff is no UTF-8 lead at all.
            proof {
                if valid_leading_and_continuation_bytes_first_codepoint(rest) {
                    assert(0xf5 <= b0 <= 0xf7);
                    let c1 = rest[1];
                    let c2 = rest[2];
                    let c3 = rest[3];
                    let x = (b0 & 0x07) as u32;
                    let y1 = (c1 & 0x3f) as u32;
                    let y2 = (c2 & 0x3f) as u32;
                    let y3 = (c3 & 0x3f) as u32;
                    assert(5 <= b0 & 0x07 <= 7) by (bit_vector)
                        requires
                            0xf5 <= b0 <= 0xf7,
                    ;
                    assert(c1 & 0x3f <= 0x3f && c2 & 0x3f <= 0x3f && c3 & 0x3f <= 0x3f)
                        by (bit_vector);
                    assert(5 <= x <= 7 && y1 <= 0x3f && y2 <= 0x3f && y3 <= 0x3f ==> ((x << 18) | (
                    y1 << 12) | (y2 << 6) | y3) >= 0x140000) by (bit_vector);
                    assert(decode_first_codepoint(rest) == codepoint_width_4(b0, c1, c2, c3));
                    assert(!not_overlong_encoding(decode_first_codepoint(rest), 4));
                }
                lemma_reject_at(s, i as int);
            }
            return None;
        }
        proof {
            lemma_accept_scalar(s, i as int, w as int);
        }
        chars = chars + 1;
        i = i + w;
    }
    proof {
        assert(s.subrange(0, len as int) =~= s);
    }
    Some(chars)
}

} // verus!
