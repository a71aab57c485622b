//! Byte-sequence utilities shared by the wire codec: whitespace trimming,
//! delimiter search, line and token splitting, ASCII case folding.

use vstd::prelude::*;

verus! {

pub const CR: u8 = 13;
pub const LF: u8 = 10;
pub const SP: u8 = 32;
pub const HT: u8 = 9;
pub const COLON: u8 = 58;

/// Whitespace for the purposes of line and token trimming.
pub open spec fn is_wsb(b: u8) -> bool {
    b == SP || b == HT || b == CR || b == LF
}

pub open spec fn trim_front(s: Seq<u8>) -> Seq<u8>
    decreases s.len(),
{
    if s.len() > 0 && is_wsb(s[0]) {
        trim_front(s.drop_first())
    } else {
        s
    }
}

pub open spec fn trim_back(s: Seq<u8>) -> Seq<u8>
    decreases s.len(),
{
    if s.len() > 0 && is_wsb(s.last()) {
        trim_back(s.drop_last())
    } else {
        s
    }
}

/// The sequence with leading and trailing whitespace removed.
pub open spec fn trimmed(s: Seq<u8>) -> Seq<u8> {
    trim_back(trim_front(s))
}

pub proof fn lemma_trim_front_at(s: Seq<u8>, i: int)
    requires
        0 <= i <= s.len(),
        forall|k: int| 0 <= k < i ==> is_wsb(s[k]),
        i == s.len() || !is_wsb(s[i]),
    ensures
        trim_front(s) == s.subrange(i, s.len() as int),
    decreases i,
{
    if i == 0 {
        assert(trim_front(s) == s.subrange(0, s.len() as int)) by {
            if s.len() > 0 && is_wsb(s[0]) {
            } else {
                assert(s == s.subrange(0, s.len() as int));
            }
        }
    } else {
        let t = s.drop_first();
        assert(forall|k: int| 0 <= k < i - 1 ==> is_wsb(t[k]));
        lemma_trim_front_at(t, i - 1);
        assert(t.subrange(i - 1, t.len() as int) == s.subrange(i, s.len() as int));
    }
}

pub proof fn lemma_trim_back_at(s: Seq<u8>, j: int)
    requires
        0 <= j <= s.len(),
        forall|k: int| j <= k < s.len() ==> is_wsb(s[k]),
        j == 0 || !is_wsb(s[j - 1]),
    ensures
        trim_back(s) == s.subrange(0, j),
    decreases s.len() - j,
{
    if j == s.len() {
        if s.len() > 0 && is_wsb(s.last()) {
        } else {
            assert(s == s.subrange(0, s.len() as int));
        }
    } else {
        let t = s.drop_last();
        assert(is_wsb(s.last()));
        lemma_trim_back_at(t, j);
        assert(t.subrange(0, j) == s.subrange(0, j));
    }
}

/// Trimming a sequence that starts and ends with non-whitespace changes nothing.
pub proof fn lemma_trim_noop(s: Seq<u8>)
    requires
        s.len() == 0 || (!is_wsb(s[0]) && !is_wsb(s.last())),
    ensures
        trimmed(s) == s,
{
    lemma_trim_front_at(s, 0);
    assert(s.subrange(0, s.len() as int) == s);
    lemma_trim_back_at(s, s.len() as int);
}

/// Copy of `s[i..j]`.
pub fn subv(s: &[u8], i: usize, j: usize) -> (r: Vec<u8>)
    requires
        i <= j <= s@.len(),
    ensures
        r@ == s@.subrange(i as int, j as int),
{
    let mut r: Vec<u8> = Vec::new();
    let mut k: usize = i;
    while k < j
        invariant
            i <= k <= j <= s@.len(),
            r@ == s@.subrange(i as int, k as int),
        decreases j - k,
    {
        r.push(s[k]);
        k = k + 1;
        assert(r@ == s@.subrange(i as int, k as int));
    }
    r
}

/// Leading and trailing whitespace removed.
pub fn trim(s: &[u8]) -> (r: Vec<u8>)
    ensures
        r@ == trimmed(s@),
{
    let n = s.len();
    let mut i: usize = 0;
    while i < n && (s[i] == SP || s[i] == HT || s[i] == CR || s[i] == LF)
        invariant
            0 <= i <= n == s@.len(),
            forall|k: int| 0 <= k < i ==> is_wsb(s@[k]),
        decreases n - i,
    {
        i = i + 1;
    }
    let mut j: usize = n;
    while j > i && (s[j - 1] == SP || s[j - 1] == HT || s[j - 1] == CR || s[j - 1] == LF)
        invariant
            i <= j <= n == s@.len(),
            forall|k: int| 0 <= k < i ==> is_wsb(s@[k]),
            forall|k: int| j <= k < n ==> is_wsb(s@[k]),
        decreases j,
    {
        j = j - 1;
    }
    proof {
        if i == n {
            // everything is whitespace; j == i == n is impossible unless j == i
            lemma_trim_front_at(s@, i as int);
            lemma_trim_back_at(s@.subrange(i as int, n as int), 0);
            assert(s@.subrange(i as int, n as int).subrange(0, 0) == s@.subrange(
                i as int,
                i as int,
            ));
        } else {
            lemma_trim_front_at(s@, i as int);
            let t = s@.subrange(i as int, n as int);
            assert(forall|k: int| (j - i) <= k < t.len() ==> is_wsb(t[k]));
            assert(j > i ==> !is_wsb(t[j - i - 1]));
            lemma_trim_back_at(t, j - i);
            assert(t.subrange(0, j - i) == s@.subrange(i as int, j as int));
        }
    }
    subv(s, i, j)
}

/// Index of the first occurrence of byte `c`, or -1.
pub open spec fn find_byte(s: Seq<u8>, c: u8) -> int
    decreases s.len(),
{
    if s.len() == 0 {
        -1
    } else if s[0] == c {
        0
    } else {
        let r = find_byte(s.drop_first(), c);
        if r == -1 {
            -1
        } else {
            r + 1
        }
    }
}

pub proof fn lemma_find_byte(s: Seq<u8>, c: u8)
    ensures
        find_byte(s, c) == -1 ==> forall|j: int| 0 <= j < s.len() ==> s[j] != c,
        find_byte(s, c) != -1 ==> 0 <= find_byte(s, c) < s.len() && s[find_byte(s, c)] == c
            && forall|j: int| 0 <= j < find_byte(s, c) ==> s[j] != c,
    decreases s.len(),
{
    if s.len() > 0 && s[0] != c {
        let t = s.drop_first();
        lemma_find_byte(t, c);
        if find_byte(t, c) == -1 {
            assert forall|j: int| 0 <= j < s.len() implies s[j] != c by {
                if j > 0 {
                    assert(t[j - 1] == s[j]);
                }
            }
        } else {
            assert(s[find_byte(s, c)] == t[find_byte(t, c)]);
            assert forall|j: int| 0 <= j < find_byte(s, c) implies s[j] != c by {
                if j > 0 {
                    assert(t[j - 1] == s[j]);
                }
            }
        }
    }
}

pub proof fn lemma_find_byte_is(s: Seq<u8>, c: u8, i: int)
    requires
        0 <= i < s.len(),
        s[i] == c,
        forall|j: int| 0 <= j < i ==> s[j] != c,
    ensures
        find_byte(s, c) == i,
    decreases i,
{
    if i > 0 {
        lemma_find_byte_is(s.drop_first(), c, i - 1);
    }
}

pub proof fn lemma_find_byte_none(s: Seq<u8>, c: u8)
    requires
        forall|j: int| 0 <= j < s.len() ==> s[j] != c,
    ensures
        find_byte(s, c) == -1,
    decreases s.len(),
{
    if s.len() > 0 {
        lemma_find_byte_none(s.drop_first(), c);
    }
}

/// True when a CRLF pair sits at position `j` of `s`.
pub open spec fn is_crlf_at(s: Seq<u8>, j: int) -> bool {
    0 <= j && j + 2 <= s.len() && s[j] == CR && s[j + 1] == LF
}

/// `s` holds no CRLF pair anywhere.
pub open spec fn no_crlf(s: Seq<u8>) -> bool {
    forall|j: int| !is_crlf_at(s, j)
}

/// Index of the first CRLF pair, or -1.
pub open spec fn find_crlf(s: Seq<u8>) -> int
    decreases s.len(),
{
    if s.len() < 2 {
        -1
    } else if s[0] == CR && s[1] == LF {
        0
    } else {
        let r = find_crlf(s.drop_first());
        if r == -1 {
            -1
        } else {
            r + 1
        }
    }
}

pub proof fn lemma_find_crlf(s: Seq<u8>)
    ensures
        find_crlf(s) == -1 ==> no_crlf(s),
        find_crlf(s) != -1 ==> is_crlf_at(s, find_crlf(s)) && forall|j: int|
            0 <= j < find_crlf(s) ==> !is_crlf_at(s, j),
    decreases s.len(),
{
    if s.len() >= 2 && !(s[0] == CR && s[1] == LF) {
        lemma_find_crlf(s.drop_first());
        let t = s.drop_first();
        assert(forall|j: int| is_crlf_at(s, j) ==> j >= 1 && is_crlf_at(t, j - 1));
    } else if s.len() < 2 {
        assert forall|j: int| !is_crlf_at(s, j) by {
            if is_crlf_at(s, j) {
                assert(j + 2 <= s.len() && j >= 0);
            }
        }
    }
}

pub proof fn lemma_find_crlf_is(s: Seq<u8>, i: int)
    requires
        is_crlf_at(s, i),
        forall|j: int| 0 <= j < i ==> !is_crlf_at(s, j),
    ensures
        find_crlf(s) == i,
    decreases i,
{
    if i > 0 {
        let t = s.drop_first();
        assert(is_crlf_at(t, i - 1));
        assert forall|j: int| 0 <= j < i - 1 implies !is_crlf_at(t, j) by {
            if is_crlf_at(t, j) {
                assert(is_crlf_at(s, j + 1));
            }
        }
        lemma_find_crlf_is(t, i - 1);
        assert(!is_crlf_at(s, 0));
    }
}

pub proof fn lemma_find_crlf_none(s: Seq<u8>)
    requires
        no_crlf(s),
    ensures
        find_crlf(s) == -1,
    decreases s.len(),
{
    if s.len() >= 2 {
        assert(!is_crlf_at(s, 0));
        let t = s.drop_first();
        assert(forall|j: int| is_crlf_at(t, j) ==> is_crlf_at(s, j + 1));
        lemma_find_crlf_none(t);
    }
}

/// True when the CRLF CRLF head terminator sits at position `j` of `s`.
pub open spec fn is_blank_at(s: Seq<u8>, j: int) -> bool {
    0 <= j && j + 4 <= s.len() && s[j] == CR && s[j + 1] == LF && s[j + 2] == CR && s[j + 3] == LF
}

/// Index of the first CRLF CRLF, or -1.
pub open spec fn find_blank(s: Seq<u8>) -> int
    decreases s.len(),
{
    if s.len() < 4 {
        -1
    } else if s[0] == CR && s[1] == LF && s[2] == CR && s[3] == LF {
        0
    } else {
        let r = find_blank(s.drop_first());
        if r == -1 {
            -1
        } else {
            r + 1
        }
    }
}

pub proof fn lemma_find_blank(s: Seq<u8>)
    ensures
        find_blank(s) == -1 ==> forall|j: int| !is_blank_at(s, j),
        find_blank(s) != -1 ==> is_blank_at(s, find_blank(s)) && forall|j: int|
            0 <= j < find_blank(s) ==> !is_blank_at(s, j),
    decreases s.len(),
{
    if s.len() >= 4 && !(s[0] == CR && s[1] == LF && s[2] == CR && s[3] == LF) {
        lemma_find_blank(s.drop_first());
        let t = s.drop_first();
        assert(forall|j: int| is_blank_at(s, j) ==> j >= 1 && is_blank_at(t, j - 1));
    } else if s.len() < 4 {
        assert forall|j: int| !is_blank_at(s, j) by {
            if is_blank_at(s, j) {
                assert(j + 4 <= s.len() && j >= 0);
            }
        }
    }
}

pub proof fn lemma_find_blank_is(s: Seq<u8>, i: int)
    requires
        is_blank_at(s, i),
        forall|j: int| 0 <= j < i ==> !is_blank_at(s, j),
    ensures
        find_blank(s) == i,
    decreases i,
{
    if i > 0 {
        let t = s.drop_first();
        assert(is_blank_at(t, i - 1));
        assert forall|j: int| 0 <= j < i - 1 implies !is_blank_at(t, j) by {
            if is_blank_at(t, j) {
                assert(is_blank_at(s, j + 1));
            }
        }
        lemma_find_blank_is(t, i - 1);
        assert(!is_blank_at(s, 0));
    }
}

/// First occurrence of byte `c`, scanning left to right.
pub fn find_byte_idx(s: &[u8], c: u8) -> (r: Option<usize>)
    ensures
        r is Some ==> find_byte(s@, c) == r->Some_0 as int,
        r is None ==> find_byte(s@, c) == -1,
{
    let n = s.len();
    let mut i: usize = 0;
    while i < n
        invariant
            0 <= i <= n == s@.len(),
            forall|j: int| 0 <= j < i ==> s@[j] != c,
        decreases n - i,
    {
        if s[i] == c {
            proof {
                lemma_find_byte_is(s@, c, i as int);
            }
            return Some(i);
        }
        i = i + 1;
    }
    proof {
        lemma_find_byte_none(s@, c);
    }
    None
}

/// First CRLF pair, scanning left to right.
pub fn find_crlf_idx(s: &[u8]) -> (r: Option<usize>)
    ensures
        r is Some ==> find_crlf(s@) == r->Some_0 as int,
        r is None ==> find_crlf(s@) == -1,
{
    let n = s.len();
    if n < 2 {
        proof {
            lemma_find_crlf(s@);
            if find_crlf(s@) != -1 {
                assert(is_crlf_at(s@, find_crlf(s@)));
            }
        }
        return None;
    }
    let mut i: usize = 0;
    while i + 1 < n
        invariant
            0 <= i,
            i + 1 <= n == s@.len(),
            forall|j: int| 0 <= j < i ==> !is_crlf_at(s@, j),
        decreases n - i,
    {
        if s[i] == CR && s[i + 1] == LF {
            proof {
                lemma_find_crlf_is(s@, i as int);
            }
            return Some(i);
        }
        proof {
            assert(!is_crlf_at(s@, i as int));
        }
        i = i + 1;
    }
    proof {
        assert(forall|j: int| is_crlf_at(s@, j) ==> j < n - 1);
        lemma_find_crlf_none(s@);
    }
    None
}

/// First CRLF CRLF, scanning left to right.
pub fn find_blank_idx(s: &[u8]) -> (r: Option<usize>)
    ensures
        r is Some ==> find_blank(s@) == r->Some_0 as int,
        r is None ==> find_blank(s@) == -1,
{
    let n = s.len();
    if n < 4 {
        proof {
            lemma_find_blank(s@);
            if find_blank(s@) != -1 {
                assert(is_blank_at(s@, find_blank(s@)));
            }
        }
        return None;
    }
    let mut i: usize = 0;
    while i + 3 < n
        invariant
            0 <= i,
            i + 3 <= n == s@.len(),
            forall|j: int| 0 <= j < i ==> !is_blank_at(s@, j),
        decreases n - i,
    {
        if s[i] == CR && s[i + 1] == LF && s[i + 2] == CR && s[i + 3] == LF {
            proof {
                lemma_find_blank_is(s@, i as int);
            }
            return Some(i);
        }
        proof {
            assert(!is_blank_at(s@, i as int));
        }
        i = i + 1;
    }
    proof {
        assert(forall|j: int| is_blank_at(s@, j) ==> j < n - 3);
        lemma_find_blank(s@);
        if find_blank(s@) != -1 {
            assert(is_blank_at(s@, find_blank(s@)));
        }
    }
    None
}

/// The lines of `s`, split on CRLF pairs; the final piece has no CRLF.
pub open spec fn split_crlf(s: Seq<u8>) -> Seq<Seq<u8>>
    decreases s.len(),
    via split_crlf_decreases
{
    let i = find_crlf(s);
    if i == -1 {
        seq![s]
    } else {
        seq![s.subrange(0, i)] + split_crlf(s.subrange(i + 2, s.len() as int))
    }
}

#[via_fn]
proof fn split_crlf_decreases(s: Seq<u8>) {
    lemma_find_crlf(s);
}

/// The nonempty tokens of `s`, split on runs of spaces.
pub open spec fn split_sp(s: Seq<u8>) -> Seq<Seq<u8>>
    decreases s.len(),
    via split_sp_decreases
{
    if s.len() == 0 {
        Seq::empty()
    } else if s[0] == SP {
        split_sp(s.drop_first())
    } else {
        let i = find_byte(s, SP);
        if i == -1 {
            seq![s]
        } else {
            seq![s.subrange(0, i)] + split_sp(s.subrange(i, s.len() as int))
        }
    }
}

#[via_fn]
proof fn split_sp_decreases(s: Seq<u8>) {
    lemma_find_byte(s, SP);
}

/// The given pieces joined with CRLF pairs between them.
pub open spec fn join_crlf(lines: Seq<Seq<u8>>) -> Seq<u8>
    decreases lines.len(),
{
    if lines.len() == 0 {
        Seq::empty()
    } else if lines.len() == 1 {
        lines[0]
    } else {
        lines[0] + seq![CR, LF] + join_crlf(lines.drop_first())
    }
}

/// The lines of `s`, split on CRLF pairs.
pub fn split_crlf_vec(s: &[u8]) -> (r: Vec<Vec<u8>>)
    ensures
        r.deep_view() == split_crlf(s@),
{
    let n = s.len();
    let mut out: Vec<Vec<u8>> = Vec::new();
    let mut pos: usize = 0;
    proof {
        assert(s@.subrange(0, n as int) =~= s@);
        assert(out.deep_view() + split_crlf(s@) =~= split_crlf(s@));
    }
    loop
        invariant
            pos <= n == s@.len(),
            split_crlf(s@) == out.deep_view() + split_crlf(s@.subrange(pos as int, n as int)),
        decreases n - pos,
    {
        let rest = &s[pos..n];
        let ghost rem = s@.subrange(pos as int, n as int);
        let ghost prev = out.deep_view();
        match find_crlf_idx(rest) {
            Some(i) => {
                proof {
                    lemma_find_crlf(rem);
                    assert(is_crlf_at(rem, i as int));
                }
                let piece = subv(s, pos, pos + i);
                out.push(piece);
                proof {
                    let tail = rem.subrange(i as int + 2, rem.len() as int);
                    assert(split_crlf(rem) == seq![rem.subrange(0, i as int)] + split_crlf(tail));
                    assert(rem.subrange(0, i as int) =~= s@.subrange(pos as int, pos + i));
                    assert(tail =~= s@.subrange(pos + i + 2, n as int));
                    assert(out.deep_view() =~~= prev + seq![s@.subrange(pos as int, pos + i)]);
                    assert(out.deep_view() + split_crlf(s@.subrange(pos + i + 2, n as int))
                        =~= prev + split_crlf(rem));
                }
                pos = pos + i + 2;
            },
            None => {
                let piece = subv(s, pos, n);
                out.push(piece);
                proof {
                    assert(split_crlf(rem) == seq![rem]);
                    assert(out.deep_view() =~~= prev + seq![rem]);
                    assert(out.deep_view() =~= prev + split_crlf(rem));
                }
                return out;
            },
        }
    }
}

/// The nonempty tokens of `s`, split on runs of spaces.
pub fn split_sp_vec(s: &[u8]) -> (r: Vec<Vec<u8>>)
    ensures
        r.deep_view() == split_sp(s@),
{
    let n = s.len();
    let mut out: Vec<Vec<u8>> = Vec::new();
    let mut pos: usize = 0;
    proof {
        assert(s@.subrange(0, n as int) =~= s@);
        assert(out.deep_view() + split_sp(s@) =~= split_sp(s@));
    }
    while pos < n
        invariant
            pos <= n == s@.len(),
            split_sp(s@) == out.deep_view() + split_sp(s@.subrange(pos as int, n as int)),
        decreases n - pos,
    {
        let ghost rem = s@.subrange(pos as int, n as int);
        let ghost prev = out.deep_view();
        if s[pos] == SP {
            proof {
                assert(rem[0] == SP);
                assert(split_sp(rem) == split_sp(rem.drop_first()));
                assert(rem.drop_first() =~= s@.subrange(pos as int + 1, n as int));
            }
            pos = pos + 1;
        } else {
            let rest = &s[pos..n];
            match find_byte_idx(rest, SP) {
                Some(i) => {
                    proof {
                        lemma_find_byte(rem, SP);
                        assert(rem[0] != SP);
                    }
                    let piece = subv(s, pos, pos + i);
                    out.push(piece);
                    proof {
                        let tail = rem.subrange(i as int, rem.len() as int);
                        assert(split_sp(rem) == seq![rem.subrange(0, i as int)] + split_sp(tail));
                        assert(rem.subrange(0, i as int) =~= s@.subrange(pos as int, pos + i));
                        assert(tail =~= s@.subrange(pos + i, n as int));
                        assert(out.deep_view() =~~= prev + seq![s@.subrange(pos as int, pos + i)]);
                        assert(out.deep_view() + split_sp(s@.subrange(pos + i, n as int))
                            =~= prev + split_sp(rem));
                    }
                    pos = pos + i;
                },
                None => {
                    let piece = subv(s, pos, n);
                    out.push(piece);
                    proof {
                        assert(rem[0] != SP);
                        assert(split_sp(rem) == seq![rem]);
                        assert(out.deep_view() =~~= prev + seq![rem]);
                        let empt = s@.subrange(n as int, n as int);
                        assert(split_sp(empt) =~= Seq::<Seq<u8>>::empty());
                        assert(out.deep_view() + split_sp(empt) =~= prev + split_sp(rem));
                    }
                    pos = n;
                },
            }
        }
    }
    proof {
        let empt = s@.subrange(n as int, n as int);
        assert(split_sp(empt) =~= Seq::<Seq<u8>>::empty());
        assert(out.deep_view() + split_sp(empt) =~= out.deep_view());
    }
    out
}

/// ASCII lower-casing of one byte.
pub open spec fn lower(b: u8) -> u8 {
    if 65 <= b <= 90 {
        (b + 32) as u8
    } else {
        b
    }
}

pub open spec fn lower_seq(s: Seq<u8>) -> Seq<u8> {
    s.map_values(|b: u8| lower(b))
}

/// ASCII-case-insensitive equality of two byte strings.
pub fn eq_ignore_case(a: &[u8], b: &[u8]) -> (r: bool)
    ensures
        r <==> lower_seq(a@) == lower_seq(b@),
{
    let n = a.len();
    if n != b.len() {
        proof {
            assert(lower_seq(a@).len() != lower_seq(b@).len());
        }
        return false;
    }
    let mut i: usize = 0;
    while i < n
        invariant
            0 <= i <= n == a@.len() == b@.len(),
            forall|k: int| 0 <= k < i ==> lower(a@[k]) == lower(b@[k]),
        decreases n - i,
    {
        let ab = a[i];
        let bb = b[i];
        let al = if 65 <= ab && ab <= 90 { ab + 32 } else { ab };
        let bl = if 65 <= bb && bb <= 90 { bb + 32 } else { bb };
        if al != bl {
            proof {
                assert(lower_seq(a@)[i as int] != lower_seq(b@)[i as int]);
            }
            return false;
        }
        i = i + 1;
    }
    proof {
        assert(lower_seq(a@) =~= lower_seq(b@));
    }
    true
}

/// Exact equality of two byte strings.
pub fn eq_bytes(a: &[u8], b: &[u8]) -> (r: bool)
    ensures
        r <==> a@ == b@,
{
    let n = a.len();
    if n != b.len() {
        return false;
    }
    let mut i: usize = 0;
    while i < n
        invariant
            0 <= i <= n == a@.len() == b@.len(),
            forall|k: int| 0 <= k < i ==> a@[k] == b@[k],
        decreases n - i,
    {
        if a[i] != b[i] {
            return false;
        }
        i = i + 1;
    }
    proof {
        assert(a@ =~= b@);
    }
    true
}

/// The bytes of an ASCII character sequence.
pub open spec fn ascii(s: Seq<char>) -> Seq<u8> {
    Seq::new(s.len(), |i: int| s[i] as u8)
}

/// The bytes of an ASCII string literal.
pub fn sbytes(s: &str) -> (r: Vec<u8>)
    requires
        s.is_ascii(),
    ensures
        r@ == ascii(s@),
{
    proof {
        vstd::string::is_ascii_spec_bytes(s);
    }
    let bs = s.as_bytes();
    subv(bs, 0, bs.len())
}

/// Decimal digits.
pub open spec fn is_digit(b: u8) -> bool {
    48 <= b <= 57
}

pub open spec fn all_digits(s: Seq<u8>) -> bool {
    forall|j: int| 0 <= j < s.len() ==> is_digit(#[trigger] s[j])
}

/// The value of a decimal digit string.
pub open spec fn digits_val(s: Seq<u8>) -> nat
    decreases s.len(),
{
    if s.len() == 0 {
        0
    } else {
        (digits_val(s.drop_last()) * 10 + (s.last() - 48)) as nat
    }
}

pub open spec fn pow10(n: nat) -> nat
    decreases n,
{
    if n == 0 {
        1
    } else {
        10 * pow10((n - 1) as nat)
    }
}

pub proof fn lemma_digits_val_bound(s: Seq<u8>)
    requires
        all_digits(s),
    ensures
        digits_val(s) < pow10(s.len()),
    decreases s.len(),
{
    if s.len() > 0 {
        let t = s.drop_last();
        assert(all_digits(t));
        lemma_digits_val_bound(t);
        assert(is_digit(s.last()));
    }
}

/// The value of a decimal digit string of at most 18 digits, or `None`
/// when the string is empty, longer than that, or not all digits.
pub fn dec_value(s: &[u8]) -> (r: Option<u64>)
    ensures
        r is Some <==> 1 <= s@.len() <= 18 && all_digits(s@),
        r is Some ==> r->Some_0 as nat == digits_val(s@),
{
    let n = s.len();
    if n == 0 || n > 18 {
        return None;
    }
    let mut acc: u64 = 0;
    let mut i: usize = 0;
    proof {
        assert(s@.subrange(0, 0) =~= Seq::<u8>::empty());
    }
    while i < n
        invariant
            0 <= i <= n == s@.len(),
            n <= 18,
            all_digits(s@.subrange(0, i as int)),
            acc as nat == digits_val(s@.subrange(0, i as int)),
            (acc as nat) < pow10(i as nat),
        decreases n - i,
    {
        let b = s[i];
        if b < 48 || b > 57 {
            return None;
        }
        proof {
            let pre = s@.subrange(0, i as int);
            let post = s@.subrange(0, i as int + 1);
            assert(post.drop_last() =~= pre);
            assert(post.last() == s@[i as int]);
            assert(pow10(i as nat + 1) == 10 * pow10(i as nat));
            lemma_pow10_le(i as nat + 1, 18);
            assert(pow10(18) == 1000000000000000000) by {
                reveal_with_fuel(pow10, 19);
            }
        }
        acc = acc * 10 + ((b - 48) as u64);
        i = i + 1;
    }
    proof {
        assert(s@.subrange(0, n as int) =~= s@);
    }
    Some(acc)
}

pub proof fn lemma_pow10_le(a: nat, b: nat)
    requires
        a <= b,
    ensures
        pow10(a) <= pow10(b),
    decreases b,
{
    if a < b {
        lemma_pow10_le(a, (b - 1) as nat);
        assert(pow10(b) == 10 * pow10((b - 1) as nat));
    }
}

/// The decimal digit string of a number.
pub open spec fn dec_digits(n: nat) -> Seq<u8>
    decreases n,
{
    if n < 10 {
        seq![(48 + n) as u8]
    } else {
        dec_digits(n / 10) + seq![(48 + n % 10) as u8]
    }
}

/// Formats a number in decimal.
pub fn u64_to_dec(n: u64) -> (r: Vec<u8>)
    ensures
        r@ == dec_digits(n as nat),
    decreases n,
{
    if n < 10 {
        let mut v: Vec<u8> = Vec::new();
        v.push(48 + (n as u8));
        proof {
            assert(v@ =~= dec_digits(n as nat));
        }
        v
    } else {
        let mut v = u64_to_dec(n / 10);
        v.push(48 + ((n % 10) as u8));
        proof {
            assert(v@ =~= dec_digits(n as nat));
        }
        v
    }
}

} // verus!
