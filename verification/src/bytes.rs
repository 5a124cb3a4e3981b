//! Byte-string primitives shared by the comment scanner and the layout
//! renderer.  All document text is handled as UTF-8 bytes, because the parser
//! reports spans as byte offsets; every operation here mirrors the byte-level
//! behaviour of the corresponding `str` operation on ASCII input.

use vstd::prelude::*;

verus! {

pub const B_TAB: u8 = 9;

pub const B_NL: u8 = 10;

pub const B_CR: u8 = 13;

pub const B_SP: u8 = 32;

pub const B_PERCENT: u8 = 37;

pub const B_LPAREN: u8 = 40;

pub const B_BACKSLASH: u8 = 92;

pub const B_LBRACE: u8 = 123;

pub const B_LT: u8 = 60;

pub const B_SEMI: u8 = 59;

pub const B_COMMA: u8 = 44;

/// Whitespace test on one byte; matches `char::is_whitespace` for the ASCII
/// range (space, tab, line feed, vertical tab, form feed, carriage return).
pub open spec fn is_ws(b: u8) -> bool {
    b == B_SP || b == B_TAB || b == B_NL || b == B_CR || b == 11 || b == 12
}

pub fn ws_byte(b: u8) -> (r: bool)
    ensures
        r == is_ws(b),
{
    b == B_SP || b == B_TAB || b == B_NL || b == B_CR || b == 11 || b == 12
}

/// The byte sequence of an ASCII string literal.
pub open spec fn ascii_of(s: Seq<char>) -> Seq<u8> {
    Seq::new(s.len(), |i: int| s[i] as u8)
}

/// Turns an ASCII string literal into its byte vector.
pub fn lit(s: &str) -> (v: Vec<u8>)
    requires
        vstd::string::is_ascii(s),
    ensures
        v@ == ascii_of(s@),
        v@.len() == s@.len(),
{
    broadcast use vstd::string::is_ascii_spec_bytes;

    let v = vstd::string::StrSliceExecFns::as_bytes_vec(s);
    proof {
        assert(v@ =~= ascii_of(s@));
    }
    v
}

/// Appends all bytes of `src` to `dst`.
pub fn app(dst: &mut Vec<u8>, src: &Vec<u8>)
    ensures
        final(dst)@ == old(dst)@ + src@,
{
    let mut i: usize = 0;
    while i < src.len()
        invariant
            0 <= i <= src@.len(),
            dst@ == old(dst)@ + src@.subrange(0, i as int),
        decreases src@.len() - i,
    {
        dst.push(src[i]);
        i += 1;
    }
    assert(dst@ =~= old(dst)@ + src@);
}

/// Concatenation that consumes its left operand.
pub fn cat(a: Vec<u8>, b: &Vec<u8>) -> (r: Vec<u8>)
    ensures
        r@ == a@ + b@,
{
    let mut a = a;
    app(&mut a, b);
    a
}

/// A copy of `v[from..to]`.
pub fn subvec(v: &Vec<u8>, from: usize, to: usize) -> (r: Vec<u8>)
    requires
        from <= to <= v@.len(),
    ensures
        r@ == v@.subrange(from as int, to as int),
{
    let mut r: Vec<u8> = Vec::new();
    let mut i: usize = from;
    while i < to
        invariant
            from <= i <= to <= v@.len(),
            r@ == v@.subrange(from as int, i as int),
        decreases to - i,
    {
        r.push(v[i]);
        assert(r@ =~= v@.subrange(from as int, i + 1 as int));
        i += 1;
    }
    r
}

/// `n` copies of the byte `b`.
pub open spec fn spec_repeat(b: u8, n: int) -> Seq<u8> {
    Seq::new(if n < 0 { 0 } else { n as nat }, |i: int| b)
}

pub fn repeat_byte(b: u8, n: usize) -> (r: Vec<u8>)
    ensures
        r@ == spec_repeat(b, n as int),
{
    let mut r: Vec<u8> = Vec::new();
    let mut i: usize = 0;
    while i < n
        invariant
            0 <= i <= n,
            r@ == spec_repeat(b, i as int),
        decreases n - i,
    {
        r.push(b);
        assert(r@ =~= spec_repeat(b, i + 1 as int));
        i += 1;
    }
    r
}

/// Index of the first occurrence of `b` in `s`, or `-1` if absent.
pub open spec fn spec_find(s: Seq<u8>, b: u8) -> int
    decreases s.len(),
{
    if s.len() == 0 {
        -1
    } else if s[0] == b {
        0
    } else {
        let r = spec_find(s.subrange(1, s.len() as int), b);
        if r < 0 {
            -1
        } else {
            r + 1
        }
    }
}

pub proof fn lemma_find_at(s: Seq<u8>, b: u8, i: int)
    requires
        0 <= i <= s.len(),
        forall|j: int| 0 <= j < i ==> s[j] != b,
        i < s.len() ==> s[i] == b,
    ensures
        i < s.len() ==> spec_find(s, b) == i,
        i == s.len() ==> spec_find(s, b) == -1,
    decreases i + 1,
{
    if s.len() == 0 {
    } else if s[0] == b {
    } else {
        let t = s.subrange(1, s.len() as int);
        lemma_find_at(t, b, i - 1);
    }
}

pub fn find_byte(v: &Vec<u8>, b: u8) -> (r: Option<usize>)
    ensures
        match r {
            Some(i) => spec_find(v@, b) == i as int && i < v@.len() && v@[i as int] == b,
            None => spec_find(v@, b) == -1,
        },
{
    let mut i: usize = 0;
    while i < v.len()
        invariant
            0 <= i <= v@.len(),
            forall|j: int| 0 <= j < i ==> v@[j] != b,
        decreases v@.len() - i,
    {
        if v[i] == b {
            proof {
                lemma_find_at(v@, b, i as int);
            }
            return Some(i);
        }
        i += 1;
    }
    proof {
        lemma_find_at(v@, b, v@.len() as int);
    }
    None
}

/// `s` with leading whitespace removed.
pub open spec fn spec_trim_start(s: Seq<u8>) -> Seq<u8>
    decreases s.len(),
{
    if s.len() > 0 && is_ws(s[0]) {
        spec_trim_start(s.subrange(1, s.len() as int))
    } else {
        s
    }
}

/// `s` with trailing whitespace removed.
pub open spec fn spec_trim_end(s: Seq<u8>) -> Seq<u8>
    decreases s.len(),
{
    if s.len() > 0 && is_ws(s[s.len() - 1]) {
        spec_trim_end(s.subrange(0, s.len() - 1))
    } else {
        s
    }
}

pub open spec fn spec_trim(s: Seq<u8>) -> Seq<u8> {
    spec_trim_end(spec_trim_start(s))
}

pub proof fn lemma_trim_start_at(s: Seq<u8>, i: int)
    requires
        0 <= i <= s.len(),
        forall|j: int| 0 <= j < i ==> is_ws(s[j]),
        i < s.len() ==> !is_ws(s[i]),
    ensures
        spec_trim_start(s) == s.subrange(i, s.len() as int),
    decreases i + 1,
{
    if s.len() > 0 && is_ws(s[0]) {
        let t = s.subrange(1, s.len() as int);
        if i == 0 {
            assert(false);
        } else {
            lemma_trim_start_at(t, i - 1);
            assert(t.subrange(i - 1, t.len() as int) =~= s.subrange(i, s.len() as int));
        }
    } else {
        assert(i == 0);
        assert(s.subrange(0, s.len() as int) =~= s);
    }
}

pub proof fn lemma_trim_end_at(s: Seq<u8>, i: int)
    requires
        0 <= i <= s.len(),
        forall|j: int| i <= j < s.len() ==> is_ws(s[j]),
        i > 0 ==> !is_ws(s[i - 1]),
    ensures
        spec_trim_end(s) == s.subrange(0, i),
    decreases s.len(),
{
    if s.len() > 0 && is_ws(s[s.len() - 1]) {
        let t = s.subrange(0, s.len() - 1);
        if i == s.len() {
            assert(false);
        } else {
            lemma_trim_end_at(t, i);
            assert(t.subrange(0, i) =~= s.subrange(0, i));
        }
    } else {
        assert(i == s.len());
        assert(s.subrange(0, s.len() as int) =~= s);
    }
}

pub fn trim_start(v: &Vec<u8>) -> (r: Vec<u8>)
    ensures
        r@ == spec_trim_start(v@),
{
    let mut i: usize = 0;
    while i < v.len() && ws_byte(v[i])
        invariant
            0 <= i <= v@.len(),
            forall|j: int| 0 <= j < i ==> is_ws(v@[j]),
        decreases v@.len() - i,
    {
        i += 1;
    }
    proof {
        lemma_trim_start_at(v@, i as int);
    }
    subvec(v, i, v.len())
}

pub fn trim_end(v: &Vec<u8>) -> (r: Vec<u8>)
    ensures
        r@ == spec_trim_end(v@),
{
    let mut i: usize = v.len();
    while i > 0 && ws_byte(v[i - 1])
        invariant
            0 <= i <= v@.len(),
            forall|j: int| i <= j < v@.len() ==> is_ws(v@[j]),
        decreases i,
    {
        i -= 1;
    }
    proof {
        lemma_trim_end_at(v@, i as int);
    }
    subvec(v, 0, i)
}

pub fn trim(v: &Vec<u8>) -> (r: Vec<u8>)
    ensures
        r@ == spec_trim(v@),
{
    let t = trim_start(v);
    trim_end(&t)
}

pub fn starts_with(v: &Vec<u8>, p: &Vec<u8>) -> (r: bool)
    ensures
        r == p@.is_prefix_of(v@),
{
    if p.len() > v.len() {
        return false;
    }
    let mut i: usize = 0;
    while i < p.len()
        invariant
            0 <= i <= p@.len() <= v@.len(),
            forall|j: int| 0 <= j < i ==> v@[j] == p@[j],
        decreases p@.len() - i,
    {
        if v[i] != p[i] {
            assert(!p@.is_prefix_of(v@));
            return false;
        }
        i += 1;
    }
    assert(p@ =~= v@.subrange(0, p@.len() as int));
    true
}

pub fn ends_with(v: &Vec<u8>, p: &Vec<u8>) -> (r: bool)
    ensures
        r == p@.is_suffix_of(v@),
{
    if p.len() > v.len() {
        return false;
    }
    let off: usize = v.len() - p.len();
    let mut k: usize = off;
    while k < v.len()
        invariant
            off + p@.len() == v@.len(),
            off <= k <= v@.len(),
            forall|j: int| 0 <= j < k - off ==> v@[off + j] == p@[j],
        decreases v@.len() - k,
    {
        if v[k] != p[k - off] {
            assert(!p@.is_suffix_of(v@));
            return false;
        }
        k += 1;
    }
    assert(p@ =~= v@.subrange(off as int, v@.len() as int));
    true
}

pub fn eq_bytes(a: &Vec<u8>, b: &Vec<u8>) -> (r: bool)
    ensures
        r == (a@ == b@),
{
    if a.len() != b.len() {
        return false;
    }
    let mut i: usize = 0;
    while i < a.len()
        invariant
            a@.len() == b@.len(),
            0 <= i <= a@.len(),
            forall|j: int| 0 <= j < i ==> a@[j] == b@[j],
        decreases a@.len() - i,
    {
        if a[i] != b[i] {
            return false;
        }
        i += 1;
    }
    assert(a@ =~= b@);
    true
}

/// `s` with trailing line feeds removed.
pub open spec fn spec_trim_end_nl(s: Seq<u8>) -> Seq<u8>
    decreases s.len(),
{
    if s.len() > 0 && s[s.len() - 1] == B_NL {
        spec_trim_end_nl(s.subrange(0, s.len() - 1))
    } else {
        s
    }
}

pub proof fn lemma_trim_end_nl_at(s: Seq<u8>, i: int)
    requires
        0 <= i <= s.len(),
        forall|j: int| i <= j < s.len() ==> s[j] == B_NL,
        i > 0 ==> s[i - 1] != B_NL,
    ensures
        spec_trim_end_nl(s) == s.subrange(0, i),
    decreases s.len(),
{
    if s.len() > 0 && s[s.len() - 1] == B_NL {
        let t = s.subrange(0, s.len() - 1);
        if i == s.len() {
            assert(false);
        } else {
            lemma_trim_end_nl_at(t, i);
            assert(t.subrange(0, i) =~= s.subrange(0, i));
        }
    } else {
        assert(i == s.len());
        assert(s.subrange(0, s.len() as int) =~= s);
    }
}

/// What remains after trimming trailing line feeds never ends in one.
pub proof fn lemma_trim_end_nl_free(s: Seq<u8>)
    ensures
        spec_trim_end_nl(s).len() > 0 ==> spec_trim_end_nl(s)[spec_trim_end_nl(s).len() - 1]
            != B_NL,
    decreases s.len(),
{
    if s.len() > 0 && s[s.len() - 1] == B_NL {
        lemma_trim_end_nl_free(s.subrange(0, s.len() - 1));
    }
}

pub fn trim_end_nl(v: &Vec<u8>) -> (r: Vec<u8>)
    ensures
        r@ == spec_trim_end_nl(v@),
{
    let mut i: usize = v.len();
    while i > 0 && v[i - 1] == B_NL
        invariant
            0 <= i <= v@.len(),
            forall|j: int| i <= j < v@.len() ==> v@[j] == B_NL,
        decreases i,
    {
        i -= 1;
    }
    proof {
        lemma_trim_end_nl_at(v@, i as int);
    }
    subvec(v, 0, i)
}

/// First byte of `s`, or `0` when `s` is empty.
pub open spec fn first_byte(s: Seq<u8>) -> u8 {
    if s.len() > 0 {
        s[0]
    } else {
        0
    }
}

/// Last byte of `s`, or `0` when `s` is empty.
pub open spec fn last_byte(s: Seq<u8>) -> u8 {
    if s.len() > 0 {
        s[s.len() - 1]
    } else {
        0
    }
}

} // verus!

verus! {

/// Index of the first whitespace byte in `s`, or `-1` if there is none.
pub open spec fn spec_find_ws(s: Seq<u8>) -> int
    decreases s.len(),
{
    if s.len() == 0 {
        -1
    } else if is_ws(s[0]) {
        0
    } else {
        let r = spec_find_ws(s.subrange(1, s.len() as int));
        if r < 0 {
            -1
        } else {
            r + 1
        }
    }
}

pub proof fn lemma_find_ws_at(s: Seq<u8>, i: int)
    requires
        0 <= i <= s.len(),
        forall|j: int| 0 <= j < i ==> !is_ws(s[j]),
        i < s.len() ==> is_ws(s[i]),
    ensures
        i < s.len() ==> spec_find_ws(s) == i,
        i == s.len() ==> spec_find_ws(s) == -1,
    decreases i + 1,
{
    if s.len() == 0 {
    } else if is_ws(s[0]) {
    } else {
        lemma_find_ws_at(s.subrange(1, s.len() as int), i - 1);
    }
}

/// The pieces of `s` between occurrences of `b` (empty pieces kept), as
/// `split` yields them.
pub open spec fn spec_split(s: Seq<u8>, b: u8) -> Seq<Seq<u8>>
    decreases s.len(),
{
    let p = spec_find(s, b);
    if p < 0 || p >= s.len() {
        seq![s]
    } else {
        seq![s.subrange(0, p)] + spec_split(s.subrange(p + 1, s.len() as int), b)
    }
}

/// The pieces of `s` between whitespace bytes (empty pieces kept).
pub open spec fn spec_split_ws(s: Seq<u8>) -> Seq<Seq<u8>>
    decreases s.len(),
{
    let p = spec_find_ws(s);
    if p < 0 || p >= s.len() {
        seq![s]
    } else {
        seq![s.subrange(0, p)] + spec_split_ws(s.subrange(p + 1, s.len() as int))
    }
}

pub open spec fn piece_views(ps: Seq<Vec<u8>>) -> Seq<Seq<u8>> {
    ps.map_values(|p: Vec<u8>| p@)
}

pub proof fn lemma_piece_views(ps: Seq<Vec<u8>>)
    ensures
        piece_views(ps).len() == ps.len(),
        forall|i: int| 0 <= i < ps.len() ==> piece_views(ps)[i] == (#[trigger] ps[i])@,
{
}

/// Splits on a byte, keeping empty pieces, as `str::split` does.
pub fn split_byte(v: &Vec<u8>, b: u8) -> (r: Vec<Vec<u8>>)
    ensures
        piece_views(r@) == spec_split(v@, b),
{
    let mut r: Vec<Vec<u8>> = Vec::new();
    let mut st: usize = 0;
    let mut i: usize = 0;
    proof {
        assert(v@.subrange(0, v@.len() as int) =~= v@);
        assert(piece_views(r@) =~= Seq::<Seq<u8>>::empty());
    }
    while i < v.len()
        invariant
            0 <= st <= i <= v@.len(),
            forall|j: int| st <= j < i ==> v@[j] != b,
            spec_split(v@, b) == piece_views(r@) + spec_split(
                v@.subrange(st as int, v@.len() as int),
                b,
            ),
        decreases v@.len() - i,
    {
        if v[i] == b {
            let ghost tail = v@.subrange(st as int, v@.len() as int);
            proof {
                lemma_find_at(tail, b, i - st);
                assert(tail.subrange(0, i - st) =~= v@.subrange(st as int, i as int));
                assert(tail.subrange(i - st + 1, tail.len() as int) =~= v@.subrange(
                    i + 1,
                    v@.len() as int,
                ));
            }
            let piece = subvec(v, st, i);
            let ghost prev = r@;
            r.push(piece);
            proof {
                lemma_piece_views(prev);
                lemma_piece_views(r@);
                assert(piece_views(r@) =~= piece_views(prev) + seq![v@.subrange(
                    st as int,
                    i as int,
                )]);
            }
            st = i + 1;
        }
        i += 1;
    }
    let ghost tail = v@.subrange(st as int, v@.len() as int);
    proof {
        lemma_find_at(tail, b, v@.len() - st);
    }
    let piece = subvec(v, st, v.len());
    let ghost prev = r@;
    r.push(piece);
    proof {
        lemma_piece_views(prev);
        lemma_piece_views(r@);
        assert(piece_views(r@) =~= piece_views(prev) + seq![tail]);
    }
    r
}

/// Splits on whitespace bytes, keeping empty pieces.
pub fn split_ws(v: &Vec<u8>) -> (r: Vec<Vec<u8>>)
    ensures
        piece_views(r@) == spec_split_ws(v@),
{
    let mut r: Vec<Vec<u8>> = Vec::new();
    let mut st: usize = 0;
    let mut i: usize = 0;
    proof {
        assert(v@.subrange(0, v@.len() as int) =~= v@);
        assert(piece_views(r@) =~= Seq::<Seq<u8>>::empty());
    }
    while i < v.len()
        invariant
            0 <= st <= i <= v@.len(),
            forall|j: int| st <= j < i ==> !is_ws(v@[j]),
            spec_split_ws(v@) == piece_views(r@) + spec_split_ws(
                v@.subrange(st as int, v@.len() as int),
            ),
        decreases v@.len() - i,
    {
        if ws_byte(v[i]) {
            let ghost tail = v@.subrange(st as int, v@.len() as int);
            proof {
                lemma_find_ws_at(tail, i - st);
                assert(tail.subrange(0, i - st) =~= v@.subrange(st as int, i as int));
                assert(tail.subrange(i - st + 1, tail.len() as int) =~= v@.subrange(
                    i + 1,
                    v@.len() as int,
                ));
            }
            let piece = subvec(v, st, i);
            let ghost prev = r@;
            r.push(piece);
            proof {
                lemma_piece_views(prev);
                lemma_piece_views(r@);
                assert(piece_views(r@) =~= piece_views(prev) + seq![v@.subrange(
                    st as int,
                    i as int,
                )]);
            }
            st = i + 1;
        }
        i += 1;
    }
    let ghost tail = v@.subrange(st as int, v@.len() as int);
    proof {
        lemma_find_ws_at(tail, v@.len() - st);
    }
    let piece = subvec(v, st, v.len());
    let ghost prev = r@;
    r.push(piece);
    proof {
        lemma_piece_views(prev);
        lemma_piece_views(r@);
        assert(piece_views(r@) =~= piece_views(prev) + seq![tail]);
    }
    r
}

/// Each piece trimmed of surrounding whitespace.
pub open spec fn spec_map_trim(ps: Seq<Seq<u8>>) -> Seq<Seq<u8>> {
    ps.map_values(|p: Seq<u8>| spec_trim(p))
}

pub fn map_trim(ps: &Vec<Vec<u8>>) -> (r: Vec<Vec<u8>>)
    ensures
        piece_views(r@) == spec_map_trim(piece_views(ps@)),
{
    let mut r: Vec<Vec<u8>> = Vec::new();
    let mut i: usize = 0;
    while i < ps.len()
        invariant
            0 <= i <= ps@.len(),
            r@.len() == i,
            forall|j: int| 0 <= j < i ==> (#[trigger] r@[j])@ == spec_trim(ps@[j]@),
        decreases ps@.len() - i,
    {
        let t = trim(&ps[i]);
        r.push(t);
        i += 1;
    }
    proof {
        lemma_piece_views(r@);
        lemma_piece_views(ps@);
        assert(piece_views(r@) =~= spec_map_trim(piece_views(ps@)));
    }
    r
}

/// The non-empty pieces, in order, from index `i` on.
pub open spec fn spec_keep_from(ps: Seq<Seq<u8>>, i: int) -> Seq<Seq<u8>>
    decreases ps.len() - i,
{
    if i < 0 || i >= ps.len() {
        Seq::empty()
    } else {
        (if ps[i].len() > 0 {
            seq![ps[i]]
        } else {
            Seq::empty()
        }) + spec_keep_from(ps, i + 1)
    }
}

pub open spec fn spec_keep(ps: Seq<Seq<u8>>) -> Seq<Seq<u8>> {
    spec_keep_from(ps, 0)
}

pub fn keep_nonempty(ps: &Vec<Vec<u8>>) -> (r: Vec<Vec<u8>>)
    ensures
        piece_views(r@) == spec_keep(piece_views(ps@)),
{
    let mut r: Vec<Vec<u8>> = Vec::new();
    let mut i: usize = 0;
    while i < ps.len()
        invariant
            0 <= i <= ps@.len(),
            spec_keep(piece_views(ps@)) == piece_views(r@) + spec_keep_from(
                piece_views(ps@),
                i as int,
            ),
        decreases ps@.len() - i,
    {
        proof {
            lemma_piece_views(ps@);
        }
        if ps[i].len() > 0 {
            let p = subvec(&ps[i], 0, ps[i].len());
            let ghost prev = r@;
            r.push(p);
            proof {
                lemma_piece_views(prev);
                lemma_piece_views(r@);
                assert(ps@[i as int]@.subrange(0, ps@[i as int]@.len() as int) =~= ps@[i as int]@);
                assert(piece_views(r@) =~= piece_views(prev) + seq![piece_views(ps@)[i as int]]);
            }
        }
        i += 1;
        proof {
            assert(spec_keep(piece_views(ps@)) =~= piece_views(r@) + spec_keep_from(
                piece_views(ps@),
                i as int,
            ));
        }
    }
    r
}

/// The pieces from index `i` on, each preceded by the separator.
pub open spec fn spec_join_from(ps: Seq<Seq<u8>>, sep: Seq<u8>, i: int) -> Seq<u8>
    decreases ps.len() - i,
{
    if i < 0 || i >= ps.len() {
        Seq::empty()
    } else {
        sep + ps[i] + spec_join_from(ps, sep, i + 1)
    }
}

/// The pieces joined by the separator.
pub open spec fn spec_join(ps: Seq<Seq<u8>>, sep: Seq<u8>) -> Seq<u8> {
    if ps.len() == 0 {
        Seq::empty()
    } else {
        ps[0] + spec_join_from(ps, sep, 1)
    }
}

pub fn join(ps: &Vec<Vec<u8>>, sep: &Vec<u8>) -> (r: Vec<u8>)
    ensures
        r@ == spec_join(piece_views(ps@), sep@),
{
    proof {
        lemma_piece_views(ps@);
    }
    if ps.len() == 0 {
        return Vec::new();
    }
    let mut r = subvec(&ps[0], 0, ps[0].len());
    proof {
        assert(r@ =~= piece_views(ps@)[0]);
    }
    let mut i: usize = 1;
    while i < ps.len()
        invariant
            1 <= i <= ps@.len(),
            forall|j: int| 0 <= j < ps@.len() ==> piece_views(ps@)[j] == (#[trigger] ps@[j])@,
            piece_views(ps@).len() == ps@.len(),
            spec_join(piece_views(ps@), sep@) == r@ + spec_join_from(
                piece_views(ps@),
                sep@,
                i as int,
            ),
        decreases ps@.len() - i,
    {
        crate::bytes::app(&mut r, sep);
        crate::bytes::app(&mut r, &ps[i]);
        i += 1;
        proof {
            assert(spec_join(piece_views(ps@), sep@) =~= r@ + spec_join_from(
                piece_views(ps@),
                sep@,
                i as int,
            ));
        }
    }
    proof {
        assert(r@ =~= spec_join(piece_views(ps@), sep@));
    }
    r
}

/// `s` with every whitespace byte removed.
pub open spec fn spec_remove_ws(s: Seq<u8>) -> Seq<u8>
    decreases s.len(),
{
    if s.len() == 0 {
        Seq::empty()
    } else {
        (if is_ws(s[0]) {
            Seq::empty()
        } else {
            seq![s[0]]
        }) + spec_remove_ws(s.subrange(1, s.len() as int))
    }
}

pub fn remove_ws(v: &Vec<u8>) -> (r: Vec<u8>)
    ensures
        r@ == spec_remove_ws(v@),
{
    let mut r: Vec<u8> = Vec::new();
    let mut i: usize = 0;
    proof {
        assert(v@.subrange(0, v@.len() as int) =~= v@);
    }
    while i < v.len()
        invariant
            0 <= i <= v@.len(),
            spec_remove_ws(v@) == r@ + spec_remove_ws(v@.subrange(i as int, v@.len() as int)),
        decreases v@.len() - i,
    {
        proof {
            lemma_remove_ws_step(v@, i as int);
        }
        if !ws_byte(v[i]) {
            r.push(v[i]);
        }
        i += 1;
    }
    proof {
        assert(r@ =~= spec_remove_ws(v@));
    }
    r
}

proof fn lemma_remove_ws_step(s: Seq<u8>, i: int)
    requires
        0 <= i < s.len(),
    ensures
        spec_remove_ws(s.subrange(i, s.len() as int)) == (if is_ws(s[i]) {
            Seq::<u8>::empty()
        } else {
            seq![s[i]]
        }) + spec_remove_ws(s.subrange(i + 1, s.len() as int)),
{
    let t = s.subrange(i, s.len() as int);
    assert(t.subrange(1, t.len() as int) =~= s.subrange(i + 1, s.len() as int));
}

} // verus!
