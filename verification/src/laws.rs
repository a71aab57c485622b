//! The codec laws: every request the decoder accepts is well formed, and
//! re-decoding an encoded request gives the same request back.

use vstd::prelude::*;
use vstd::utf8::{
    valid_utf8, valid_utf8_concat, valid_utf8_split,
    is_char_boundary_iff_not_is_continuation_byte, is_continuation_byte, is_leading_byte_width_1,
    valid_first_scalar, length_of_first_scalar, pop_first_scalar,
};
use crate::octets::{
    CR, LF, SP, COLON, ascii, is_wsb, trim_front, trim_back, trimmed, find_byte, find_crlf,
    find_blank, is_crlf_at, is_blank_at, no_crlf, split_crlf, split_sp, join_crlf, lower_seq,
    lemma_find_byte, lemma_find_byte_is, lemma_find_byte_none,
    lemma_find_crlf, lemma_find_crlf_is, lemma_find_crlf_none, lemma_find_blank,
    lemma_find_blank_is, lemma_trim_front_at, lemma_trim_back_at, lemma_trim_noop,
};
use crate::http::{HttpMethod, HttpVersion, ReqModel, header_index, lemma_header_index_none};
use crate::parse::{
    method_token, version_token, spec_parse_method, spec_parse_version, spec_lines,
    spec_parse_request_line, spec_parse_headers, spec_cl, spec_body, head_split, spec_decode,
};
use crate::encode::{header_line, emit_headers, start_line, spec_encode};

verus! {

/// No space anywhere in `s`.
pub open spec fn no_sp(s: Seq<u8>) -> bool {
    forall|j: int| 0 <= j < s.len() ==> s[j] != SP
}

/// No colon anywhere in `s`.
pub open spec fn no_colon(s: Seq<u8>) -> bool {
    forall|j: int| 0 <= j < s.len() ==> s[j] != COLON
}

/// An ASCII byte opens a scalar of width one, so popping it drops it.
proof fn lemma_pop_ascii(s: Seq<u8>)
    requires
        s.len() > 0,
        s[0] < 0x80,
    ensures
        valid_first_scalar(s) || !valid_utf8(s),
        valid_utf8(s) ==> pop_first_scalar(s) =~= s.drop_first(),
        valid_utf8(s) ==> valid_utf8(s.drop_first()),
{
    if valid_utf8(s) {
        let b0 = s[0];
        assert(is_leading_byte_width_1(b0)) by (bit_vector)
            requires
                b0 < 0x80,
        ;
        assert(length_of_first_scalar(s) == 1);
        assert(pop_first_scalar(s) =~= s.drop_first());
    }
}

/// Bytes below 0x80 are never continuation bytes.
proof fn lemma_ascii_not_continuation(b: u8)
    requires
        b < 0x80,
    ensures
        !is_continuation_byte(b),
{
    assert(!is_continuation_byte(b)) by (bit_vector)
        requires
            b < 0x80,
    ;
}

/// A sequence of ASCII bytes is valid UTF-8.
pub proof fn lemma_ascii_valid(s: Seq<u8>)
    requires
        forall|j: int| 0 <= j < s.len() ==> s[j] < 0x80,
    ensures
        valid_utf8(s),
    decreases s.len(),
{
    if s.len() > 0 {
        let b0 = s[0];
        assert(is_leading_byte_width_1(b0)) by (bit_vector)
            requires
                b0 < 0x80,
        ;
        assert(valid_first_scalar(s));
        assert(length_of_first_scalar(s) == 1);
        assert(pop_first_scalar(s) =~= s.drop_first());
        lemma_ascii_valid(s.drop_first());
    }
}

/// A subrange of a valid UTF-8 sequence delimited by ASCII bytes (or the
/// ends of the sequence) is itself valid UTF-8.
pub proof fn lemma_valid_piece(s: Seq<u8>, a: int, b: int)
    requires
        valid_utf8(s),
        0 <= a <= b <= s.len(),
        a == 0 || s[a - 1] < 0x80,
        b == s.len() || s[b] < 0x80,
    ensures
        valid_utf8(s.subrange(a, b)),
{
    let pre = s.subrange(0, b);
    if b == s.len() {
        assert(pre =~= s);
    } else {
        lemma_ascii_not_continuation(s[b]);
        is_char_boundary_iff_not_is_continuation_byte(s, b);
        valid_utf8_split(s, b);
    }
    if a == 0 {
        assert(s.subrange(a, b) =~= pre);
    } else {
        assert(pre[a - 1] == s[a - 1]);
        lemma_ascii_not_continuation(pre[a - 1]);
        if a - 1 < pre.len() {
            is_char_boundary_iff_not_is_continuation_byte(pre, a - 1);
            valid_utf8_split(pre, a - 1);
            let tail = pre.subrange(a - 1, b);
            assert(valid_utf8(tail));
            assert(tail.len() > 0);
            assert(tail[0] == s[a - 1]);
            lemma_pop_ascii(tail);
            assert(tail.drop_first() =~= s.subrange(a, b));
        } else {
            // a - 1 == b, so the subrange is empty
            assert(s.subrange(a, b) =~= Seq::<u8>::empty());
        }
    }
}

/// Trimming preserves UTF-8 validity.
pub proof fn lemma_trim_front_valid(s: Seq<u8>)
    requires
        valid_utf8(s),
    ensures
        valid_utf8(trim_front(s)),
    decreases s.len(),
{
    if s.len() > 0 && is_wsb(s[0]) {
        lemma_pop_ascii(s);
        lemma_trim_front_valid(s.drop_first());
    }
}

pub proof fn lemma_trim_back_valid(s: Seq<u8>)
    requires
        valid_utf8(s),
    ensures
        valid_utf8(trim_back(s)),
    decreases s.len(),
{
    if s.len() > 0 && is_wsb(s.last()) {
        lemma_valid_piece(s, 0, s.len() - 1);
        assert(s.drop_last() =~= s.subrange(0, s.len() - 1));
        lemma_trim_back_valid(s.drop_last());
    }
}

pub proof fn lemma_trimmed_valid(s: Seq<u8>)
    requires
        valid_utf8(s),
    ensures
        valid_utf8(trimmed(s)),
{
    lemma_trim_front_valid(s);
    lemma_trim_back_valid(trim_front(s));
}

/// Trimming never introduces a CRLF pair.
pub proof fn lemma_trim_front_no_crlf(s: Seq<u8>)
    requires
        no_crlf(s),
    ensures
        no_crlf(trim_front(s)),
    decreases s.len(),
{
    if s.len() > 0 && is_wsb(s[0]) {
        let t = s.drop_first();
        assert forall|j: int| !is_crlf_at(t, j) by {
            if is_crlf_at(t, j) {
                assert(is_crlf_at(s, j + 1));
            }
        }
        lemma_trim_front_no_crlf(t);
    }
}

pub proof fn lemma_trim_back_no_crlf(s: Seq<u8>)
    requires
        no_crlf(s),
    ensures
        no_crlf(trim_back(s)),
    decreases s.len(),
{
    if s.len() > 0 && is_wsb(s.last()) {
        let t = s.drop_last();
        assert forall|j: int| !is_crlf_at(t, j) by {
            if is_crlf_at(t, j) {
                assert(is_crlf_at(s, j));
            }
        }
        lemma_trim_back_no_crlf(t);
    }
}

pub proof fn lemma_trimmed_no_crlf(s: Seq<u8>)
    requires
        no_crlf(s),
    ensures
        no_crlf(trimmed(s)),
{
    lemma_trim_front_no_crlf(s);
    lemma_trim_back_no_crlf(trim_front(s));
}

/// The first byte of a nonempty trim_front result is not whitespace.
proof fn lemma_trim_front_first(s: Seq<u8>)
    ensures
        trim_front(s).len() > 0 ==> !is_wsb(trim_front(s)[0]),
    decreases s.len(),
{
    if s.len() > 0 && is_wsb(s[0]) {
        lemma_trim_front_first(s.drop_first());
    }
}

/// The last byte of a nonempty trim_back result is not whitespace.
proof fn lemma_trim_back_last(s: Seq<u8>)
    ensures
        trim_back(s).len() > 0 ==> !is_wsb(trim_back(s).last()),
    decreases s.len(),
{
    if s.len() > 0 && is_wsb(s.last()) {
        lemma_trim_back_last(s.drop_last());
    }
}

/// trim_back keeps the first byte of its argument.
proof fn lemma_trim_back_first(s: Seq<u8>)
    ensures
        trim_back(s).len() > 0 ==> trim_back(s)[0] == s[0],
    decreases s.len(),
{
    if s.len() > 0 && is_wsb(s.last()) {
        lemma_trim_back_first(s.drop_last());
    }
}

/// A trimmed sequence is empty or bounded by non-whitespace, so trimming
/// it again changes nothing.
pub proof fn lemma_trimmed_idempotent(s: Seq<u8>)
    ensures
        trimmed(trimmed(s)) == trimmed(s),
        trimmed(s).len() > 0 ==> !is_wsb(trimmed(s)[0]) && !is_wsb(trimmed(s).last()),
{
    let t = trimmed(s);
    lemma_trim_front_first(s);
    lemma_trim_back_last(trim_front(s));
    lemma_trim_back_first(trim_front(s));
    if t.len() > 0 {
        assert(!is_wsb(t.last()));
        assert(t[0] == trim_front(s)[0]);
        assert(!is_wsb(t[0]));
    }
    lemma_trim_noop(t);
}

/// A line of the split is nonempty and free of spaces, CRLF pairs; it is
/// valid UTF-8 when the whole is.
pub proof fn lemma_split_sp_inherit(s: Seq<u8>)
    requires
        valid_utf8(s),
        no_crlf(s),
    ensures
        forall|k: int| 0 <= k < split_sp(s).len() ==> (#[trigger] split_sp(s)[k]).len() > 0
            && no_sp(split_sp(s)[k]) && no_crlf(split_sp(s)[k]) && valid_utf8(split_sp(s)[k]),
    decreases s.len(),
{
    if s.len() == 0 {
    } else if s[0] == SP {
        lemma_pop_ascii(s);
        let t = s.drop_first();
        assert forall|j: int| !is_crlf_at(t, j) by {
            if is_crlf_at(t, j) {
                assert(is_crlf_at(s, j + 1));
            }
        }
        lemma_split_sp_inherit(t);
        assert(split_sp(s) == split_sp(t));
    } else {
        let i = find_byte(s, SP);
        lemma_find_byte(s, SP);
        if i == -1 {
            assert(split_sp(s) == seq![s]);
        } else {
            let tok = s.subrange(0, i);
            let rest = s.subrange(i, s.len() as int);
            lemma_ascii_not_continuation(s[i]);
            is_char_boundary_iff_not_is_continuation_byte(s, i);
            valid_utf8_split(s, i);
            assert(valid_utf8(tok));
            assert(valid_utf8(rest));
            assert forall|j: int| !is_crlf_at(tok, j) by {
                if is_crlf_at(tok, j) {
                    assert(is_crlf_at(s, j));
                }
            }
            assert forall|j: int| !is_crlf_at(rest, j) by {
                if is_crlf_at(rest, j) {
                    assert(is_crlf_at(s, j + i));
                }
            }
            lemma_split_sp_inherit(rest);
            assert(split_sp(s) == seq![tok] + split_sp(rest));
            assert(tok.len() > 0);
            assert(no_sp(tok));
            assert forall|k: int| 0 <= k < split_sp(s).len() implies (#[trigger] split_sp(s)[k]).len()
                > 0 && no_sp(split_sp(s)[k]) && no_crlf(split_sp(s)[k]) && valid_utf8(
                split_sp(s)[k],
            ) by {
                if k > 0 {
                    assert(split_sp(s)[k] == split_sp(rest)[k - 1]);
                }
            }
        }
    }
}

/// Every line of the CRLF split is free of CRLF pairs and valid UTF-8
/// when the whole is.
pub proof fn lemma_split_crlf_inherit(s: Seq<u8>)
    requires
        valid_utf8(s),
    ensures
        forall|k: int| 0 <= k < split_crlf(s).len() ==> no_crlf(#[trigger] split_crlf(s)[k])
            && valid_utf8(split_crlf(s)[k]),
    decreases s.len(),
{
    let i = find_crlf(s);
    lemma_find_crlf(s);
    if i == -1 {
        assert(split_crlf(s) == seq![s]);
    } else {
        let line = s.subrange(0, i);
        let rest = s.subrange(i + 2, s.len() as int);
        lemma_ascii_not_continuation(s[i]);
        is_char_boundary_iff_not_is_continuation_byte(s, i);
        valid_utf8_split(s, i);
        assert(valid_utf8(line));
        let tail = s.subrange(i, s.len() as int);
        assert(valid_utf8(tail));
        lemma_pop_ascii(tail);
        let tail1 = tail.drop_first();
        assert(tail1[0] == LF);
        lemma_pop_ascii(tail1);
        assert(tail1.drop_first() =~= rest);
        assert(valid_utf8(rest));
        assert forall|j: int| !is_crlf_at(line, j) by {
            if is_crlf_at(line, j) {
                assert(is_crlf_at(s, j));
            }
        }
        lemma_split_crlf_inherit(rest);
        assert(split_crlf(s) == seq![line] + split_crlf(rest));
        assert forall|k: int| 0 <= k < split_crlf(s).len() implies no_crlf(
            #[trigger] split_crlf(s)[k],
        ) && valid_utf8(split_crlf(s)[k]) by {
            if k > 0 {
                assert(split_crlf(s)[k] == split_crlf(rest)[k - 1]);
            }
        }
    }
}

/// A line fit to join: nonempty and free of CRLF pairs.
pub open spec fn line_ok(l: Seq<u8>) -> bool {
    l.len() > 0 && no_crlf(l)
}

/// Joining lines that each hold no CRLF and splitting again is the
/// identity.
pub proof fn lemma_split_join(lines: Seq<Seq<u8>>)
    requires
        lines.len() > 0,
        forall|k: int| 0 <= k < lines.len() ==> no_crlf(#[trigger] lines[k]),
    ensures
        split_crlf(join_crlf(lines)) == lines,
    decreases lines.len(),
{
    if lines.len() == 1 {
        lemma_find_crlf_none(lines[0]);
        assert(split_crlf(join_crlf(lines)) =~= lines);
    } else {
        let l = lines[0];
        let rest = lines.drop_first();
        let s = join_crlf(lines);
        assert(s == l + seq![CR, LF] + join_crlf(rest));
        assert(is_crlf_at(s, l.len() as int));
        assert forall|j: int| 0 <= j < l.len() implies !is_crlf_at(s, j) by {
            if is_crlf_at(s, j) {
                if j + 1 < l.len() {
                    assert(is_crlf_at(l, j));
                } else {
                    assert(s[j + 1] == CR);
                }
            }
        }
        lemma_find_crlf_is(s, l.len() as int);
        assert(s.subrange(0, l.len() as int) =~= l);
        assert(s.subrange(l.len() as int + 2, s.len() as int) =~= join_crlf(rest));
        lemma_split_join(rest);
        assert(split_crlf(s) == seq![l] + split_crlf(join_crlf(rest)));
        assert(split_crlf(s) =~= lines);
    }
}

/// Joining valid UTF-8 lines yields valid UTF-8.
pub proof fn lemma_join_valid(lines: Seq<Seq<u8>>)
    requires
        forall|k: int| 0 <= k < lines.len() ==> valid_utf8(#[trigger] lines[k]),
    ensures
        valid_utf8(join_crlf(lines)),
    decreases lines.len(),
{
    if lines.len() == 0 {
    } else if lines.len() == 1 {
        assert(join_crlf(lines) == lines[0]);
    } else {
        let sep = seq![CR, LF];
        lemma_ascii_valid(sep);
        lemma_join_valid(lines.drop_first());
        valid_utf8_concat(lines[0], sep);
        valid_utf8_concat(lines[0] + sep, join_crlf(lines.drop_first()));
    }
}

/// The head terminator of an encoded request sits exactly where the
/// joined lines end.
pub proof fn lemma_blank_encoded(lines: Seq<Seq<u8>>, body: Seq<u8>)
    requires
        lines.len() > 0,
        forall|k: int| 0 <= k < lines.len() ==> line_ok(#[trigger] lines[k]),
    ensures
        find_blank(join_crlf(lines) + seq![CR, LF, CR, LF] + body) == join_crlf(lines).len(),
    decreases lines.len(),
{
    let s = join_crlf(lines) + seq![CR, LF, CR, LF] + body;
    if lines.len() == 1 {
        let l = lines[0];
        assert(join_crlf(lines) == l);
        assert(is_blank_at(s, l.len() as int));
        assert forall|j: int| 0 <= j < l.len() implies !is_blank_at(s, j) by {
            if is_blank_at(s, j) {
                if j + 1 < l.len() {
                    assert(is_crlf_at(l, j));
                } else {
                    assert(s[j + 1] == CR);
                }
            }
        }
        lemma_find_blank_is(s, l.len() as int);
    } else {
        let l = lines[0];
        let rest = lines.drop_first();
        let s2 = join_crlf(rest) + seq![CR, LF, CR, LF] + body;
        lemma_blank_encoded(rest, body);
        lemma_find_blank(s2);
        let t2 = join_crlf(rest).len() as int;
        assert(is_blank_at(s2, t2));
        assert(s =~= l + seq![CR, LF] + s2);
        let t = l.len() + 2 + t2;
        assert(join_crlf(lines) == l + seq![CR, LF] + join_crlf(rest));
        assert(t == join_crlf(lines).len());
        assert(is_blank_at(s, t)) by {
            assert(s[t] == s2[t2]);
            assert(s[t + 1] == s2[t2 + 1]);
            assert(s[t + 2] == s2[t2 + 2]);
            assert(s[t + 3] == s2[t2 + 3]);
        }
        assert forall|j: int| 0 <= j < t implies !is_blank_at(s, j) by {
            if is_blank_at(s, j) {
                if j + 1 < l.len() {
                    assert(is_crlf_at(l, j));
                } else if j + 1 == l.len() {
                    assert(s[j + 1] == CR);
                } else if j == l.len() {
                    // the CRLF after the first line, followed by the start
                    // of the second line: that line is nonempty and holds
                    // no CRLF pair
                    let r0 = rest[0];
                    assert(r0.len() > 0);
                    if r0.len() >= 2 {
                        assert(join_crlf(rest)[0] == r0[0]);
                        assert(join_crlf(rest)[1] == r0[1]);
                        assert(s[j + 2] == r0[0]);
                        assert(s[j + 3] == r0[1]);
                        assert(is_crlf_at(r0, 0));
                    } else {
                        assert(join_crlf(rest)[0] == r0[0]);
                        assert(s[j + 2] == r0[0]);
                        if rest.len() == 1 {
                            assert(s[j + 3] == s2[1]);
                            assert(s2[1] == CR);
                        } else {
                            assert(join_crlf(rest) == r0 + seq![CR, LF] + join_crlf(
                                rest.drop_first(),
                            ));
                            assert(s[j + 3] == CR);
                        }
                    }
                } else if j == l.len() + 1 {
                    assert(s[j] == LF);
                } else {
                    let j2 = j - l.len() - 2;
                    assert(is_blank_at(s2, j2)) by {
                        assert(s[j] == s2[j2]);
                        assert(s[j + 1] == s2[j2 + 1]);
                        assert(s[j + 2] == s2[j2 + 2]);
                        assert(s[j + 3] == s2[j2 + 3]);
                    }
                }
            }
        }
        lemma_find_blank_is(s, t);
    }
}

/// A wire token: nonempty ASCII with no whitespace bytes.
pub open spec fn tok_ok(t: Seq<u8>) -> bool {
    t.len() > 0 && forall|j: int| 0 <= j < t.len() ==> t[j] < 0x80 && !is_wsb(#[trigger] t[j])
}

proof fn lemma_method_token_ok(m: HttpMethod)
    ensures
        tok_ok(method_token(m)),
{
    reveal_strlit("OPTIONS");
    reveal_strlit("GET");
    reveal_strlit("HEAD");
    reveal_strlit("POST");
    reveal_strlit("PUT");
    reveal_strlit("DELETE");
    reveal_strlit("TRACE");
    reveal_strlit("CONNECT");
    reveal_strlit("PATCH");
    match m {
        HttpMethod::Options => {
            let t = method_token(m);
            assert(t.len() == 7);
            assert(t[0] == 79); assert(t[1] == 80); assert(t[2] == 84); assert(t[3] == 73); assert(t[4] == 79); assert(t[5] == 78); assert(t[6] == 83);
            assert forall|j: int| 0 <= j < t.len() implies t[j] < 0x80 && !is_wsb(#[trigger] t[j]) by {
                if j == 0 { } else if j == 1 { } else if j == 2 { } else if j == 3 { } else if j == 4 { } else if j == 5 { } else if j == 6 { }
            }
        },
        HttpMethod::Get => {
            let t = method_token(m);
            assert(t.len() == 3);
            assert(t[0] == 71); assert(t[1] == 69); assert(t[2] == 84);
            assert forall|j: int| 0 <= j < t.len() implies t[j] < 0x80 && !is_wsb(#[trigger] t[j]) by {
                if j == 0 { } else if j == 1 { } else if j == 2 { }
            }
        },
        HttpMethod::Head => {
            let t = method_token(m);
            assert(t.len() == 4);
            assert(t[0] == 72); assert(t[1] == 69); assert(t[2] == 65); assert(t[3] == 68);
            assert forall|j: int| 0 <= j < t.len() implies t[j] < 0x80 && !is_wsb(#[trigger] t[j]) by {
                if j == 0 { } else if j == 1 { } else if j == 2 { } else if j == 3 { }
            }
        },
        HttpMethod::Post => {
            let t = method_token(m);
            assert(t.len() == 4);
            assert(t[0] == 80); assert(t[1] == 79); assert(t[2] == 83); assert(t[3] == 84);
            assert forall|j: int| 0 <= j < t.len() implies t[j] < 0x80 && !is_wsb(#[trigger] t[j]) by {
                if j == 0 { } else if j == 1 { } else if j == 2 { } else if j == 3 { }
            }
        },
        HttpMethod::Put => {
            let t = method_token(m);
            assert(t.len() == 3);
            assert(t[0] == 80); assert(t[1] == 85); assert(t[2] == 84);
            assert forall|j: int| 0 <= j < t.len() implies t[j] < 0x80 && !is_wsb(#[trigger] t[j]) by {
                if j == 0 { } else if j == 1 { } else if j == 2 { }
            }
        },
        HttpMethod::Delete => {
            let t = method_token(m);
            assert(t.len() == 6);
            assert(t[0] == 68); assert(t[1] == 69); assert(t[2] == 76); assert(t[3] == 69); assert(t[4] == 84); assert(t[5] == 69);
            assert forall|j: int| 0 <= j < t.len() implies t[j] < 0x80 && !is_wsb(#[trigger] t[j]) by {
                if j == 0 { } else if j == 1 { } else if j == 2 { } else if j == 3 { } else if j == 4 { } else if j == 5 { }
            }
        },
        HttpMethod::Trace => {
            let t = method_token(m);
            assert(t.len() == 5);
            assert(t[0] == 84); assert(t[1] == 82); assert(t[2] == 65); assert(t[3] == 67); assert(t[4] == 69);
            assert forall|j: int| 0 <= j < t.len() implies t[j] < 0x80 && !is_wsb(#[trigger] t[j]) by {
                if j == 0 { } else if j == 1 { } else if j == 2 { } else if j == 3 { } else if j == 4 { }
            }
        },
        HttpMethod::Connect => {
            let t = method_token(m);
            assert(t.len() == 7);
            assert(t[0] == 67); assert(t[1] == 79); assert(t[2] == 78); assert(t[3] == 78); assert(t[4] == 69); assert(t[5] == 67); assert(t[6] == 84);
            assert forall|j: int| 0 <= j < t.len() implies t[j] < 0x80 && !is_wsb(#[trigger] t[j]) by {
                if j == 0 { } else if j == 1 { } else if j == 2 { } else if j == 3 { } else if j == 4 { } else if j == 5 { } else if j == 6 { }
            }
        },
        HttpMethod::Patch => {
            let t = method_token(m);
            assert(t.len() == 5);
            assert(t[0] == 80); assert(t[1] == 65); assert(t[2] == 84); assert(t[3] == 67); assert(t[4] == 72);
            assert forall|j: int| 0 <= j < t.len() implies t[j] < 0x80 && !is_wsb(#[trigger] t[j]) by {
                if j == 0 { } else if j == 1 { } else if j == 2 { } else if j == 3 { } else if j == 4 { }
            }
        },
    }
}

proof fn lemma_version_token_ok(v: HttpVersion)
    ensures
        tok_ok(version_token(v)),
{
    reveal_strlit("HTTP/1.0");
    reveal_strlit("HTTP/1.1");
}

/// Parsing the canonical form of a method gives the method back.
pub proof fn lemma_method_roundtrip(m: HttpMethod)
    ensures
        spec_parse_method(method_token(m)) == Some(m),
{
    reveal_strlit("OPTIONS");
    reveal_strlit("GET");
    reveal_strlit("HEAD");
    reveal_strlit("POST");
    reveal_strlit("PUT");
    reveal_strlit("DELETE");
    reveal_strlit("TRACE");
    reveal_strlit("CONNECT");
    reveal_strlit("PATCH");
    assert(method_token(HttpMethod::Options).len() == 7);
    assert(method_token(HttpMethod::Get).len() == 3);
    assert(method_token(HttpMethod::Head).len() == 4);
    assert(method_token(HttpMethod::Post).len() == 4);
    assert(method_token(HttpMethod::Put).len() == 3);
    assert(method_token(HttpMethod::Delete).len() == 6);
    assert(method_token(HttpMethod::Trace).len() == 5);
    assert(method_token(HttpMethod::Connect).len() == 7);
    assert(method_token(HttpMethod::Patch).len() == 5);
    assert(lower_seq(method_token(HttpMethod::Options))[0] == 111);
    assert(lower_seq(method_token(HttpMethod::Get))[0] == 103);
    assert(lower_seq(method_token(HttpMethod::Head))[0] == 104);
    assert(lower_seq(method_token(HttpMethod::Post))[0] == 112);
    assert(lower_seq(method_token(HttpMethod::Put))[0] == 112);
    assert(lower_seq(method_token(HttpMethod::Delete))[0] == 100);
    assert(lower_seq(method_token(HttpMethod::Trace))[0] == 116);
    assert(lower_seq(method_token(HttpMethod::Connect))[0] == 99);
    assert(lower_seq(method_token(HttpMethod::Patch))[0] == 112);
    assert(lower_seq(method_token(HttpMethod::Options)).len() == 7);
    assert(lower_seq(method_token(HttpMethod::Get)).len() == 3);
    assert(lower_seq(method_token(HttpMethod::Head)).len() == 4);
    assert(lower_seq(method_token(HttpMethod::Post)).len() == 4);
    assert(lower_seq(method_token(HttpMethod::Put)).len() == 3);
    assert(lower_seq(method_token(HttpMethod::Delete)).len() == 6);
    assert(lower_seq(method_token(HttpMethod::Trace)).len() == 5);
    assert(lower_seq(method_token(HttpMethod::Connect)).len() == 7);
    assert(lower_seq(method_token(HttpMethod::Patch)).len() == 5);
    match m {
        HttpMethod::Options => {
            assert(spec_parse_method(method_token(HttpMethod::Options)) == Some(HttpMethod::Options));
        },
        HttpMethod::Get => {
            assert(spec_parse_method(method_token(HttpMethod::Get)) == Some(HttpMethod::Get));
        },
        HttpMethod::Head => {
            assert(spec_parse_method(method_token(HttpMethod::Head)) == Some(HttpMethod::Head));
        },
        HttpMethod::Post => {
            assert(spec_parse_method(method_token(HttpMethod::Post)) == Some(HttpMethod::Post));
        },
        HttpMethod::Put => {
            assert(spec_parse_method(method_token(HttpMethod::Put)) == Some(HttpMethod::Put));
        },
        HttpMethod::Delete => {
            assert(spec_parse_method(method_token(HttpMethod::Delete)) == Some(HttpMethod::Delete));
        },
        HttpMethod::Trace => {
            assert(spec_parse_method(method_token(HttpMethod::Trace)) == Some(HttpMethod::Trace));
        },
        HttpMethod::Connect => {
            assert(spec_parse_method(method_token(HttpMethod::Connect)) == Some(HttpMethod::Connect));
        },
        HttpMethod::Patch => {
            assert(spec_parse_method(method_token(HttpMethod::Patch)) == Some(HttpMethod::Patch));
        },
    }
}

/// Parsing the canonical form of a version gives the version back.
pub proof fn lemma_version_roundtrip(v: HttpVersion)
    ensures
        spec_parse_version(version_token(v)) == Some(v),
{
    reveal_strlit("HTTP/1.0");
    reveal_strlit("HTTP/1.1");
    assert(lower_seq(version_token(HttpVersion::Http10))[7] == 48);
    assert(lower_seq(version_token(HttpVersion::Http11))[7] == 49);
    match v {
        HttpVersion::Http10 => {
            assert(spec_parse_version(version_token(HttpVersion::Http10)) == Some(
                HttpVersion::Http10,
            ));
        },
        HttpVersion::Http11 => {
            assert(spec_parse_version(version_token(HttpVersion::Http11)) == Some(
                HttpVersion::Http11,
            ));
        },
    }
}

/// Splitting a canonical start line on spaces gives its three tokens.
proof fn lemma_start_tokens(mt: Seq<u8>, uri: Seq<u8>, vt: Seq<u8>)
    requires
        tok_ok(mt),
        tok_ok(vt),
        uri.len() > 0,
        no_sp(uri),
    ensures
        split_sp(mt + seq![SP] + uri + seq![SP] + vt) == seq![mt, uri, vt],
{
    let s = mt + seq![SP] + uri + seq![SP] + vt;
    assert(s[0] == mt[0]);
    assert(s[0] != SP);
    assert(s[mt.len() as int] == SP);
    assert forall|j: int| 0 <= j < mt.len() implies s[j] != SP by {
        assert(s[j] == mt[j]);
    }
    lemma_find_byte_is(s, SP, mt.len() as int);
    assert(s.subrange(0, mt.len() as int) =~= mt);
    let s1 = s.subrange(mt.len() as int, s.len() as int);
    assert(split_sp(s) == seq![mt] + split_sp(s1));
    assert(s1[0] == SP);
    let s2 = s1.drop_first();
    assert(split_sp(s1) == split_sp(s2));
    assert(s2 =~= uri + seq![SP] + vt);
    assert(s2[0] == uri[0]);
    assert(s2[0] != SP);
    assert(s2[uri.len() as int] == SP);
    assert forall|j: int| 0 <= j < uri.len() implies s2[j] != SP by {
        assert(s2[j] == uri[j]);
    }
    lemma_find_byte_is(s2, SP, uri.len() as int);
    assert(s2.subrange(0, uri.len() as int) =~= uri);
    let s3 = s2.subrange(uri.len() as int, s2.len() as int);
    assert(split_sp(s2) == seq![uri] + split_sp(s3));
    assert(s3[0] == SP);
    let s4 = s3.drop_first();
    assert(split_sp(s3) == split_sp(s4));
    assert(s4 =~= vt);
    assert(s4[0] != SP);
    lemma_find_byte_none(s4, SP);
    assert(split_sp(s4) == seq![s4]);
    assert(split_sp(s) =~= seq![mt, uri, vt]);
}

/// Trimming keeps the absence of a byte.
proof fn lemma_trim_front_keeps(s: Seq<u8>, c: u8)
    requires
        forall|j: int| 0 <= j < s.len() ==> s[j] != c,
    ensures
        forall|j: int| 0 <= j < trim_front(s).len() ==> trim_front(s)[j] != c,
    decreases s.len(),
{
    if s.len() > 0 && is_wsb(s[0]) {
        let t = s.drop_first();
        assert forall|j: int| 0 <= j < t.len() implies t[j] != c by {
            assert(t[j] == s[j + 1]);
        }
        lemma_trim_front_keeps(t, c);
        assert(trim_front(s) == trim_front(t));
    }
}

proof fn lemma_trim_back_keeps(s: Seq<u8>, c: u8)
    requires
        forall|j: int| 0 <= j < s.len() ==> s[j] != c,
    ensures
        forall|j: int| 0 <= j < trim_back(s).len() ==> trim_back(s)[j] != c,
    decreases s.len(),
{
    if s.len() > 0 && is_wsb(s.last()) {
        let t = s.drop_last();
        assert forall|j: int| 0 <= j < t.len() implies t[j] != c by {
            assert(t[j] == s[j]);
        }
        lemma_trim_back_keeps(t, c);
        assert(trim_back(s) == trim_back(t));
    }
}

pub proof fn lemma_trimmed_keeps(s: Seq<u8>, c: u8)
    requires
        forall|j: int| 0 <= j < s.len() ==> s[j] != c,
    ensures
        forall|j: int| 0 <= j < trimmed(s).len() ==> trimmed(s)[j] != c,
{
    lemma_trim_front_keeps(s, c);
    lemma_trim_back_keeps(trim_front(s), c);
}

/// A well-formed header pair: the name holds no colon and no CRLF, the
/// value no CRLF, both are trimmed and valid UTF-8.
pub open spec fn header_wf(p: (Seq<u8>, Seq<u8>)) -> bool {
    &&& no_crlf(p.0) && no_colon(p.0) && trimmed(p.0) == p.0 && valid_utf8(p.0)
    &&& no_crlf(p.1) && trimmed(p.1) == p.1 && valid_utf8(p.1)
}

/// Header names are pairwise distinct up to ASCII case.
pub open spec fn headers_distinct(hs: Seq<(Seq<u8>, Seq<u8>)>) -> bool {
    forall|i: int, j: int| 0 <= i < j < hs.len() ==> lower_seq(#[trigger] hs[i].0) != lower_seq(
        #[trigger] hs[j].0,
    )
}

/// A well-formed request: the decoder produces only such requests, and
/// the encoder inverts the decoder on them.
pub open spec fn req_wf(m: ReqModel) -> bool {
    &&& m.uri.len() > 0 && no_sp(m.uri) && no_crlf(m.uri) && valid_utf8(m.uri)
    &&& forall|k: int| 0 <= k < m.headers.len() ==> header_wf(#[trigger] m.headers[k])
    &&& headers_distinct(m.headers)
    &&& spec_cl(m.headers) >= m.body.len()
}

/// Folding well-formed header lines preserves well-formedness and
/// distinctness of the accumulated list.
proof fn lemma_parse_headers_wf(lines: Seq<Seq<u8>>, acc: Seq<(Seq<u8>, Seq<u8>)>)
    requires
        forall|k: int| 0 <= k < lines.len() ==> no_crlf(#[trigger] lines[k]) && valid_utf8(
            lines[k],
        ),
        forall|k: int| 0 <= k < acc.len() ==> header_wf(#[trigger] acc[k]),
        headers_distinct(acc),
        spec_parse_headers(lines, acc) is Ok,
    ensures
        forall|k: int| 0 <= k < spec_parse_headers(lines, acc)->Ok_0.len() ==> header_wf(
            #[trigger] spec_parse_headers(lines, acc)->Ok_0[k],
        ),
        headers_distinct(spec_parse_headers(lines, acc)->Ok_0),
    decreases lines.len(),
{
    if lines.len() > 0 {
        let line = lines[0];
        let ci = find_byte(line, COLON);
        lemma_find_byte(line, COLON);
        let pre = line.subrange(0, ci);
        let post = line.subrange(ci + 1, line.len() as int);
        let name = trimmed(pre);
        let value = trimmed(post);
        assert forall|j: int| 0 <= j < pre.len() implies pre[j] != COLON by {
            assert(pre[j] == line[j]);
        }
        lemma_trimmed_keeps(pre, COLON);
        assert forall|j: int| !is_crlf_at(pre, j) by {
            if is_crlf_at(pre, j) {
                assert(is_crlf_at(line, j));
            }
        }
        lemma_trimmed_no_crlf(pre);
        assert forall|j: int| !is_crlf_at(post, j) by {
            if is_crlf_at(post, j) {
                assert(is_crlf_at(line, j + ci + 1));
            }
        }
        lemma_trimmed_no_crlf(post);
        lemma_valid_piece(line, 0, ci);
        lemma_valid_piece(line, ci + 1, line.len() as int);
        lemma_trimmed_valid(pre);
        lemma_trimmed_valid(post);
        lemma_trimmed_idempotent(pre);
        lemma_trimmed_idempotent(post);
        assert(header_wf((name, value)));
        let idx = header_index(acc, name);
        crate::http::lemma_header_index(acc, name);
        if idx == -1 {
            let acc2 = acc.push((name, value));
            assert forall|k: int| 0 <= k < acc2.len() implies header_wf(#[trigger] acc2[k]) by {
                if k < acc.len() {
                    assert(acc2[k] == acc[k]);
                }
            }
            assert(headers_distinct(acc2));
            lemma_parse_headers_wf(lines.drop_first(), acc2);
        } else {
            let merged = acc[idx].1 + seq![44u8] + value;
            let acc2 = acc.update(idx, (acc[idx].0, merged));
            assert forall|j: int| !is_crlf_at(merged, j) by {
                if is_crlf_at(merged, j) {
                    let a = acc[idx].1;
                    if j + 1 < a.len() {
                        assert(is_crlf_at(a, j));
                    } else if j + 1 == a.len() {
                        assert(merged[j + 1] == a.last());
                        assert(merged[j] == a[j]);
                    } else if j == a.len() {
                        assert(merged[j] == 44u8);
                    } else if j == a.len() + 1 {
                        assert(merged[j] == a.last() || true);
                        if a.len() + 1 < merged.len() && j + 1 < merged.len() {
                            assert(merged[j] == value[0]);
                            assert(is_crlf_at(value, 0) || value[0] != CR || merged[j + 1]
                                != LF);
                            assert(is_crlf_at(value, j - a.len() - 1));
                        }
                    } else {
                        assert(is_crlf_at(value, j - a.len() - 1));
                    }
                }
            }
            assert(valid_utf8(merged)) by {
                lemma_ascii_valid(seq![44u8]);
                valid_utf8_concat(acc[idx].1, seq![44u8]);
                valid_utf8_concat(acc[idx].1 + seq![44u8], value);
                assert((acc[idx].1 + seq![44u8]) + value =~= merged);
            }
            assert(trimmed(merged) == merged) by {
                lemma_trimmed_idempotent(acc[idx].1);
                lemma_trimmed_idempotent(post);
                if acc[idx].1.len() > 0 {
                    assert(merged[0] == acc[idx].1[0]);
                    assert(!is_wsb(merged[0]));
                } else {
                    assert(merged[0] == 44u8);
                }
                if value.len() > 0 {
                    assert(merged.last() == value.last());
                } else {
                    assert(merged.last() == 44u8);
                }
                lemma_trim_noop(merged);
            }
            assert(header_wf((acc[idx].0, merged)));
            assert forall|k: int| 0 <= k < acc2.len() implies header_wf(#[trigger] acc2[k]) by {
                if k != idx {
                    assert(acc2[k] == acc[k]);
                }
            }
            assert(headers_distinct(acc2)) by {
                assert forall|i: int, j: int| 0 <= i < j < acc2.len() implies lower_seq(
                    #[trigger] acc2[i].0,
                ) != lower_seq(#[trigger] acc2[j].0) by {
                    assert(acc2[i].0 == acc[i].0);
                    assert(acc2[j].0 == acc[j].0);
                }
            }
            lemma_parse_headers_wf(lines.drop_first(), acc2);
        }
    }
}

/// Whatever the decoder accepts is well formed.
pub proof fn lemma_decode_wf(b: Seq<u8>)
    requires
        spec_decode(b) is Ok,
    ensures
        req_wf(spec_decode(b)->Ok_0),
{
    let head = head_split(b).0;
    let rest = head_split(b).1;
    let lines = spec_lines(head);
    lemma_split_crlf_inherit(head);
    assert forall|k: int| 0 <= k < lines.len() implies no_crlf(#[trigger] lines[k]) && valid_utf8(
        lines[k],
    ) by {
        assert(lines[k] == trimmed(split_crlf(head)[k]));
        lemma_trimmed_no_crlf(split_crlf(head)[k]);
        lemma_trimmed_valid(split_crlf(head)[k]);
    }
    let line0 = lines[0];
    let toks = split_sp(line0);
    lemma_split_sp_inherit(line0);
    let hs = spec_parse_headers(lines.drop_first(), Seq::empty())->Ok_0;
    assert forall|k: int| 0 <= k < lines.drop_first().len() implies no_crlf(
        #[trigger] lines.drop_first()[k],
    ) && valid_utf8(lines.drop_first()[k]) by {
        assert(lines.drop_first()[k] == lines[k + 1]);
    }
    lemma_parse_headers_wf(lines.drop_first(), Seq::empty());
    let m = spec_decode(b)->Ok_0;
    assert(m.uri == toks[1]);
    assert(m.headers == hs);
    assert(m.body == spec_body(hs, rest));
}

/// The wire lines of a header list.
pub open spec fn header_lines(hs: Seq<(Seq<u8>, Seq<u8>)>) -> Seq<Seq<u8>> {
    hs.map_values(|p: (Seq<u8>, Seq<u8>)| header_line(p))
}

/// The same lines after per-line trimming.
pub open spec fn trimmed_header_lines(hs: Seq<(Seq<u8>, Seq<u8>)>) -> Seq<Seq<u8>> {
    hs.map_values(|p: (Seq<u8>, Seq<u8>)| trimmed(header_line(p)))
}

/// Folding the trimmed lines of well-formed, distinct headers appends
/// them to the accumulator unchanged.
proof fn lemma_parse_encoded_headers(hs: Seq<(Seq<u8>, Seq<u8>)>, acc: Seq<(Seq<u8>, Seq<u8>)>)
    requires
        forall|k: int| 0 <= k < hs.len() ==> header_wf(#[trigger] hs[k]),
        headers_distinct(hs),
        forall|i: int, j: int|
            0 <= i < acc.len() && 0 <= j < hs.len() ==> lower_seq(#[trigger] acc[i].0)
                != lower_seq(#[trigger] hs[j].0),
    ensures
        spec_parse_headers(trimmed_header_lines(hs), acc) == Ok::<
            _,
            crate::http::HttpParseError,
        >(acc + hs),
    decreases hs.len(),
{
    let lines = trimmed_header_lines(hs);
    if hs.len() == 0 {
        assert(acc + hs =~= acc);
        assert(lines.len() == 0);
    } else {
        let p = hs[0];
        let hl = header_line(p);
        lemma_trimmed_idempotent(p.0);
        lemma_trimmed_idempotent(p.1);
        // hl = p.0 + [COLON, SP] + p.1; its trim and colon split
        assert(hl[0] == if p.0.len() > 0 { p.0[0] } else { COLON });
        assert(!is_wsb(hl[0]));
        let lt = trimmed(hl);
        if p.1.len() > 0 {
            assert(hl.last() == p.1.last());
            assert(!is_wsb(hl.last()));
            lemma_trim_noop(hl);
            assert(lt == hl);
        } else {
            assert(hl =~= p.0 + seq![COLON, SP]);
            lemma_trim_front_at(hl, 0);
            assert(trim_front(hl) == hl.subrange(0, hl.len() as int));
            assert(hl.subrange(0, hl.len() as int) =~= hl);
            assert forall|k: int| p.0.len() + 1 <= k < hl.len() implies is_wsb(hl[k]) by {
                assert(hl[k] == SP);
            }
            assert(hl[p.0.len() as int] == COLON);
            lemma_trim_back_at(hl, p.0.len() as int + 1);
            assert(lt =~= p.0 + seq![COLON]);
        }
        // the first colon of lt sits right after the name
        assert(lt[p.0.len() as int] == COLON);
        assert forall|j: int| 0 <= j < p.0.len() implies lt[j] != COLON by {
            assert(lt[j] == p.0[j]);
        }
        lemma_find_byte_is(lt, COLON, p.0.len() as int);
        let pre = lt.subrange(0, p.0.len() as int);
        assert(pre =~= p.0);
        let name = trimmed(pre);
        assert(name == p.0);
        let post = lt.subrange(p.0.len() as int + 1, lt.len() as int);
        let value = trimmed(post);
        if p.1.len() > 0 {
            assert(post =~= seq![SP] + p.1);
            assert(trim_front(post) == trim_front(post.drop_first()));
            assert(post.drop_first() =~= p.1);
            assert(trim_front(p.1) == p.1);
            assert(value == trim_back(p.1));
            assert(trim_back(trim_front(p.1)) == p.1);
            assert(value == p.1);
        } else {
            assert(post =~= Seq::<u8>::empty());
            assert(value =~= p.1);
        }
        let idx = header_index(acc, name);
        lemma_header_index_none(acc, name);
        assert(idx == -1);
        let acc2 = acc.push((name, value));
        assert(acc2 =~= acc.push(p));
        assert forall|i: int, j: int|
            0 <= i < acc2.len() && 0 <= j < hs.drop_first().len() implies lower_seq(
            #[trigger] acc2[i].0,
        ) != lower_seq(#[trigger] hs.drop_first()[j].0) by {
            assert(hs.drop_first()[j] == hs[j + 1]);
            if i < acc.len() {
                assert(acc2[i] == acc[i]);
            } else {
                assert(acc2[i] == hs[0]);
            }
        }
        assert forall|k: int| 0 <= k < hs.drop_first().len() implies header_wf(
            #[trigger] hs.drop_first()[k],
        ) by {
            assert(hs.drop_first()[k] == hs[k + 1]);
        }
        assert(headers_distinct(hs.drop_first())) by {
            assert forall|i: int, j: int| 0 <= i < j < hs.drop_first().len() implies lower_seq(
                #[trigger] hs.drop_first()[i].0,
            ) != lower_seq(#[trigger] hs.drop_first()[j].0) by {
                assert(hs.drop_first()[i] == hs[i + 1]);
                assert(hs.drop_first()[j] == hs[j + 1]);
            }
        }
        lemma_parse_encoded_headers(hs.drop_first(), acc2);
        assert(lines.drop_first() =~= trimmed_header_lines(hs.drop_first()));
        assert(spec_parse_headers(lines, acc) == spec_parse_headers(lines.drop_first(), acc2));
        assert(acc2 + hs.drop_first() =~= acc + hs);
    }
}

/// A well-formed header pair makes a joinable, valid line.
proof fn lemma_header_line_ok(p: (Seq<u8>, Seq<u8>))
    requires
        header_wf(p),
    ensures
        line_ok(header_line(p)),
        valid_utf8(header_line(p)),
{
    let hl = header_line(p);
    let a = p.0.len() as int;
    assert forall|j: int| !is_crlf_at(hl, j) by {
        if is_crlf_at(hl, j) {
            if j + 1 < a {
                assert(hl[j] == p.0[j]);
                assert(hl[j + 1] == p.0[j + 1]);
                assert(is_crlf_at(p.0, j));
            } else if j + 1 == a {
                assert(hl[j + 1] == COLON);
            } else if j == a {
                assert(hl[j] == COLON);
            } else if j == a + 1 {
                assert(hl[j] == SP);
            } else {
                assert(hl[j] == p.1[j - a - 2]);
                assert(hl[j + 1] == p.1[j - a - 1]);
                assert(is_crlf_at(p.1, j - a - 2));
            }
        }
    }
    assert(valid_utf8(hl)) by {
        lemma_ascii_valid(seq![COLON, SP]);
        valid_utf8_concat(p.0, seq![COLON, SP]);
        valid_utf8_concat(p.0 + seq![COLON, SP], p.1);
    }
}

/// The start line of a well-formed request is joinable, valid, and
/// bounded by non-whitespace.
proof fn lemma_start_line_ok(m: ReqModel)
    requires
        req_wf(m),
    ensures
        line_ok(start_line(m.method, m.uri, m.version)),
        valid_utf8(start_line(m.method, m.uri, m.version)),
        !is_wsb(start_line(m.method, m.uri, m.version)[0]),
        !is_wsb(start_line(m.method, m.uri, m.version).last()),
{
    let mt = method_token(m.method);
    let vt = version_token(m.version);
    lemma_method_token_ok(m.method);
    lemma_version_token_ok(m.version);
    let sl = start_line(m.method, m.uri, m.version);
    let a = mt.len() as int;
    let u = m.uri.len() as int;
    assert(sl[0] == mt[0]);
    assert(sl.last() == vt.last());
    assert forall|j: int| !is_crlf_at(sl, j) by {
        if is_crlf_at(sl, j) {
            if j < a {
                assert(sl[j] == mt[j]);
            } else if j == a {
                assert(sl[j] == SP);
            } else if j < a + 1 + u {
                assert(sl[j] == m.uri[j - a - 1]);
                if j + 1 < a + 1 + u {
                    assert(sl[j + 1] == m.uri[j - a]);
                    assert(is_crlf_at(m.uri, j - a - 1));
                } else {
                    assert(sl[j + 1] == SP);
                }
            } else if j == a + 1 + u {
                assert(sl[j] == SP);
            } else {
                assert(sl[j] == vt[j - a - 2 - u]);
            }
        }
    }
    assert(valid_utf8(sl)) by {
        lemma_ascii_valid(mt);
        lemma_ascii_valid(vt);
        lemma_ascii_valid(seq![SP]);
        valid_utf8_concat(mt, seq![SP]);
        valid_utf8_concat(mt + seq![SP], m.uri);
        valid_utf8_concat(mt + seq![SP] + m.uri, seq![SP]);
        valid_utf8_concat(mt + seq![SP] + m.uri + seq![SP], vt);
    }
}

/// The header block is the joined header lines followed by one CRLF.
proof fn lemma_emit_join(hs: Seq<(Seq<u8>, Seq<u8>)>)
    ensures
        hs.len() == 0 ==> emit_headers(hs) == Seq::<u8>::empty(),
        hs.len() > 0 ==> emit_headers(hs) =~= join_crlf(header_lines(hs)) + seq![CR, LF],
    decreases hs.len(),
{
    if hs.len() == 1 {
        assert(header_lines(hs).len() == 1);
        assert(join_crlf(header_lines(hs)) == header_lines(hs)[0]);
        assert(emit_headers(hs.drop_first()) == Seq::<u8>::empty());
        assert(emit_headers(hs) =~= header_line(hs[0]) + seq![CR, LF]);
    } else if hs.len() > 1 {
        lemma_emit_join(hs.drop_first());
        let ls = header_lines(hs);
        assert(ls.len() == hs.len());
        assert(ls.drop_first() =~= header_lines(hs.drop_first()));
        assert(join_crlf(ls) == ls[0] + seq![CR, LF] + join_crlf(ls.drop_first()));
        assert(emit_headers(hs) =~= join_crlf(ls) + seq![CR, LF]);
    }
}

/// Encoding a well-formed request and decoding the bytes gives the same
/// request back.
pub proof fn lemma_encode_decode(m: ReqModel)
    requires
        req_wf(m),
    ensures
        spec_decode(spec_encode(m)) == Ok::<ReqModel, crate::http::HttpParseError>(m),
{
    let mt = method_token(m.method);
    let vt = version_token(m.version);
    lemma_method_token_ok(m.method);
    lemma_version_token_ok(m.version);
    lemma_start_line_ok(m);
    let sl = start_line(m.method, m.uri, m.version);
    let hlines = header_lines(m.headers);
    let lines = seq![sl] + hlines;
    assert forall|k: int| 0 <= k < lines.len() implies line_ok(#[trigger] lines[k]) && valid_utf8(
        lines[k],
    ) by {
        if k > 0 {
            assert(lines[k] == header_line(m.headers[k - 1]));
            lemma_header_line_ok(m.headers[k - 1]);
        }
    }
    let b = spec_encode(m);
    lemma_emit_join(m.headers);
    assert(b =~= join_crlf(lines) + seq![CR, LF, CR, LF] + m.body) by {
        if m.headers.len() == 0 {
            assert(lines.len() == 1);
            assert(join_crlf(lines) == lines[0]);
            assert(lines[0] == sl);
        } else {
            assert(lines.drop_first() =~= hlines);
            assert(join_crlf(lines) == sl + seq![CR, LF] + join_crlf(hlines));
        }
    }
    lemma_blank_encoded(lines, m.body);
    let head = head_split(b).0;
    let rest = head_split(b).1;
    assert(find_blank(b) == join_crlf(lines).len());
    assert(head =~= join_crlf(lines));
    assert(rest =~= m.body);
    lemma_join_valid(lines);
    assert(valid_utf8(head));
    lemma_split_join(lines);
    assert(split_crlf(head) == lines);
    // the trimmed lines: the start line is bounded by non-whitespace
    assert(spec_lines(head)[0] == trimmed(sl));
    lemma_trim_noop(sl);
    assert(spec_lines(head)[0] == sl);
    // the start line splits into its three tokens
    lemma_start_tokens(mt, m.uri, vt);
    lemma_method_roundtrip(m.method);
    lemma_version_roundtrip(m.version);
    assert(spec_parse_request_line(sl) == Ok::<_, crate::http::HttpParseError>(
        (m.method, m.uri, m.version),
    ));
    // the header lines fold back to the header list
    assert(spec_lines(head).drop_first() =~= trimmed_header_lines(m.headers)) by {
        assert(spec_lines(head).len() == lines.len());
        assert forall|k: int| 0 <= k < m.headers.len() implies spec_lines(head).drop_first()[k]
            == trimmed_header_lines(m.headers)[k] by {
            assert(spec_lines(head)[k + 1] == trimmed(lines[k + 1]));
            assert(lines[k + 1] == header_line(m.headers[k]));
        }
    }
    lemma_parse_encoded_headers(m.headers, Seq::empty());
    assert(Seq::<(Seq<u8>, Seq<u8>)>::empty() + m.headers =~= m.headers);
    assert(spec_parse_headers(spec_lines(head).drop_first(), Seq::empty()) == Ok::<
        _,
        crate::http::HttpParseError,
    >(m.headers));
    // the declared length covers the whole body
    assert(spec_body(m.headers, rest) =~= m.body);
    assert(spec_decode(b) is Ok);
    assert(spec_decode(b)->Ok_0 =~~= m);
}

/// Decoding is idempotent across the encoder: whatever the decoder
/// accepts, encoding it and decoding again yields the same request.
pub proof fn lemma_decode_idempotent(b: Seq<u8>)
    requires
        spec_decode(b) is Ok,
    ensures
        spec_decode(spec_encode(spec_decode(b)->Ok_0)) == spec_decode(b),
{
    lemma_decode_wf(b);
    lemma_encode_decode(spec_decode(b)->Ok_0);
}

} // verus!
