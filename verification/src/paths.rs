//! Byte-string model of file paths: separator and dot splitting (directory,
//! file name, stem, extension), the hidden-name test, ASCII lowercasing, and
//! a lexicographic order used to keep file lists deterministic.

use vstd::prelude::*;

verus! {

/// Path separator byte.
pub open spec fn sep() -> u8 {
    47u8
}

/// Dot byte, splitting a file name into stem and extension.
pub open spec fn dot() -> u8 {
    46u8
}

/// Index of the last occurrence of `c` in `s`, or -1 when absent.
pub open spec fn last_pos(s: Seq<u8>, c: u8) -> int
    decreases s.len(),
{
    if s.len() == 0 {
        -1
    } else if s.last() == c {
        s.len() - 1
    } else {
        last_pos(s.drop_last(), c)
    }
}

pub proof fn lemma_last_pos(s: Seq<u8>, c: u8)
    ensures
        -1 <= last_pos(s, c) < s.len(),
        last_pos(s, c) >= 0 ==> s[last_pos(s, c)] == c,
        forall|j: int| last_pos(s, c) < j < s.len() ==> s[j] != c,
    decreases s.len(),
{
    if s.len() > 0 && s.last() != c {
        lemma_last_pos(s.drop_last(), c);
        if last_pos(s, c) >= 0 {
            assert(s[last_pos(s, c)] == s.drop_last()[last_pos(s, c)]);
        }
        assert forall|j: int| last_pos(s, c) < j < s.len() implies s[j] != c by {
            if j < s.len() - 1 {
                assert(s[j] == s.drop_last()[j]);
            } else {
                assert(s[j] == s.last());
            }
        }
    }
}

/// The file name: everything after the last separator (the whole path when
/// there is none).
pub open spec fn file_name(p: Seq<u8>) -> Seq<u8> {
    p.skip(last_pos(p, sep()) + 1)
}

/// The directory prefix, up to and including the last separator (empty when
/// there is none). Two paths share a directory exactly when these agree.
pub open spec fn dir_of(p: Seq<u8>) -> Seq<u8> {
    p.take(last_pos(p, sep()) + 1)
}

/// A name is hidden when it starts with a dot; this covers both plain
/// dotfiles and sidecar names that start with a dot then an underscore.
pub open spec fn is_hidden_name(name: Seq<u8>) -> bool {
    name.len() > 0 && name[0] == dot()
}

/// Index of the dot splitting stem from extension within a file name, or -1
/// when the name has no extension. A dot in first position does not count:
/// such a name is all stem.
pub open spec fn ext_dot_pos(name: Seq<u8>) -> int {
    if last_pos(name, dot()) > 0 {
        last_pos(name, dot())
    } else {
        -1
    }
}

/// The stem of a file name: the part before its extension dot.
pub open spec fn stem_of_name(name: Seq<u8>) -> Seq<u8> {
    if ext_dot_pos(name) >= 0 {
        name.take(ext_dot_pos(name))
    } else {
        name
    }
}

/// The extension of a file name (empty when there is none), not lowercased.
pub open spec fn raw_ext_of_name(name: Seq<u8>) -> Seq<u8> {
    if ext_dot_pos(name) >= 0 {
        name.skip(ext_dot_pos(name) + 1)
    } else {
        Seq::empty()
    }
}

/// ASCII lowercasing of one byte.
pub open spec fn lower_byte(b: u8) -> u8 {
    if 65 <= b <= 90 {
        (b + 32) as u8
    } else {
        b
    }
}

/// ASCII lowercasing of a byte string.
pub open spec fn lower(s: Seq<u8>) -> Seq<u8> {
    s.map_values(|b: u8| lower_byte(b))
}

/// The lowercased extension of a full path.
pub open spec fn ext_of_path(p: Seq<u8>) -> Seq<u8> {
    lower(raw_ext_of_name(file_name(p)))
}

/// The stem of a full path.
pub open spec fn stem_of_path(p: Seq<u8>) -> Seq<u8> {
    stem_of_name(file_name(p))
}

/// Index of the last occurrence of `c` in `v`, if any.
pub fn find_last(v: &Vec<u8>, c: u8) -> (r: Option<usize>)
    ensures
        match r {
            Some(i) => i == last_pos(v@, c),
            None => last_pos(v@, c) == -1,
        },
{
    let mut i: usize = v.len();
    proof {
        assert(v@.take(v@.len() as int) =~= v@);
    }
    while i > 0
        invariant
            i <= v@.len(),
            last_pos(v@, c) == last_pos(v@.take(i as int), c),
        decreases i,
    {
        i = i - 1;
        proof {
            assert(v@.take(i + 1).last() == v@[i as int]);
            assert(v@.take(i + 1).drop_last() =~= v@.take(i as int));
        }
        if v[i] == c {
            return Some(i);
        }
    }
    None
}

/// Copy of the byte range `[from, to)` of `v`.
pub fn sub_bytes(v: &Vec<u8>, from: usize, to: usize) -> (r: Vec<u8>)
    requires
        from <= to <= v@.len(),
    ensures
        r@ == v@.subrange(from as int, to as int),
{
    let mut out: Vec<u8> = Vec::new();
    let mut i: usize = from;
    while i < to
        invariant
            from <= i <= to <= v@.len(),
            out@ == v@.subrange(from as int, i as int),
        decreases to - i,
    {
        out.push(v[i]);
        proof {
            assert(out@ =~= v@.subrange(from as int, i + 1));
        }
        i = i + 1;
    }
    out
}

/// The file name of a path, as a fresh byte string.
pub fn file_name_of(p: &Vec<u8>) -> (r: Vec<u8>)
    ensures
        r@ == file_name(p@),
{
    proof {
        lemma_last_pos(p@, sep());
    }
    let n: usize = p.len();
    let start: usize = match find_last(p, 47u8) {
        Some(i) => i + 1,
        None => 0,
    };
    let r = sub_bytes(p, start, n);
    proof {
        assert(r@ =~= file_name(p@));
    }
    r
}

/// The directory prefix of a path, up to and including the last separator.
pub fn dir_of_path(p: &Vec<u8>) -> (r: Vec<u8>)
    ensures
        r@ == dir_of(p@),
{
    proof {
        lemma_last_pos(p@, sep());
    }
    let n: usize = p.len();
    let end: usize = match find_last(p, 47u8) {
        Some(i) => i + 1,
        None => 0,
    };
    let r = sub_bytes(p, 0, end);
    proof {
        assert(r@ =~= dir_of(p@));
    }
    r
}

/// Whether the path's file name is hidden.
pub fn path_has_hidden_name(p: &Vec<u8>) -> (r: bool)
    ensures
        r == is_hidden_name(file_name(p@)),
{
    let name = file_name_of(p);
    name.len() > 0 && name[0] == 46u8
}

/// The stem of the path's file name.
pub fn stem_of(p: &Vec<u8>) -> (r: Vec<u8>)
    ensures
        r@ == stem_of_path(p@),
{
    let name = file_name_of(p);
    proof {
        lemma_last_pos(name@, dot());
    }
    match find_last(&name, 46u8) {
        Some(i) if i > 0 => sub_bytes(&name, 0, i),
        _ => name,
    }
}

/// The lowercased extension of the path's file name (empty when none).
pub fn ext_of(p: &Vec<u8>) -> (r: Vec<u8>)
    ensures
        r@ == ext_of_path(p@),
{
    let name = file_name_of(p);
    proof {
        lemma_last_pos(name@, dot());
    }
    let n: usize = name.len();
    let raw: Vec<u8> = match find_last(&name, 46u8) {
        Some(i) if i > 0 => sub_bytes(&name, i + 1, n),
        _ => Vec::new(),
    };
    proof {
        assert(raw@ =~= raw_ext_of_name(file_name(p@)));
    }
    let mut out: Vec<u8> = Vec::new();
    let mut i: usize = 0;
    while i < raw.len()
        invariant
            i <= raw@.len(),
            out@ == lower(raw@.take(i as int)),
        decreases raw@.len() - i,
    {
        let b = raw[i];
        if 65 <= b && b <= 90 {
            out.push(b + 32);
        } else {
            out.push(b);
        }
        proof {
            assert(out@ =~= lower(raw@.take(i + 1)));
        }
        i = i + 1;
    }
    proof {
        assert(raw@.take(raw@.len() as int) =~= raw@);
    }
    out
}

/// Appends `src` to `dst`.
pub fn append_bytes(dst: &mut Vec<u8>, src: &Vec<u8>)
    ensures
        final(dst)@ == old(dst)@ + src@,
{
    let mut i: usize = 0;
    proof {
        assert(dst@ =~= old(dst)@ + src@.take(0));
    }
    while i < src.len()
        invariant
            i <= src@.len(),
            dst@ == old(dst)@ + src@.take(i as int),
        decreases src@.len() - i,
    {
        dst.push(src[i]);
        proof {
            assert(old(dst)@ + src@.take(i as int) + seq![src@[i as int]] =~= old(dst)@
                + src@.take(i + 1));
        }
        i = i + 1;
    }
    proof {
        assert(src@.take(src@.len() as int) =~= src@);
    }
}

/// Byte-string equality.
pub fn eq_bytes(a: &Vec<u8>, b: &Vec<u8>) -> (r: bool)
    ensures
        r == (a@ == b@),
{
    if a.len() != b.len() {
        return false;
    }
    let mut i: usize = 0;
    while i < a.len()
        invariant
            i <= a@.len(),
            a@.len() == b@.len(),
            forall|j: int| 0 <= j < i ==> a@[j] == b@[j],
        decreases a@.len() - i,
    {
        if a[i] != b[i] {
            return false;
        }
        i = i + 1;
    }
    proof {
        assert(a@ =~= b@);
    }
    true
}

/// A fresh copy of a byte string.
pub fn clone_bytes(v: &Vec<u8>) -> (r: Vec<u8>)
    ensures
        r@ == v@,
{
    let mut out: Vec<u8> = Vec::new();
    let mut i: usize = 0;
    while i < v.len()
        invariant
            i <= v@.len(),
            out@ == v@.take(i as int),
        decreases v@.len() - i,
    {
        out.push(v[i]);
        proof {
            assert(out@ =~= v@.take(i + 1));
        }
        i = i + 1;
    }
    proof {
        assert(v@.take(v@.len() as int) =~= v@);
    }
    out
}

/// Lexicographic order on byte strings, with a shorter prefix first.
pub open spec fn lex_leq(a: Seq<u8>, b: Seq<u8>) -> bool
    decreases a.len(),
{
    if a.len() == 0 {
        true
    } else if b.len() == 0 {
        false
    } else if a[0] < b[0] {
        true
    } else if a[0] > b[0] {
        false
    } else {
        lex_leq(a.drop_first(), b.drop_first())
    }
}

pub proof fn lemma_lex_refl(a: Seq<u8>)
    ensures
        lex_leq(a, a),
    decreases a.len(),
{
    if a.len() > 0 {
        lemma_lex_refl(a.drop_first());
    }
}

pub proof fn lemma_lex_antisym(a: Seq<u8>, b: Seq<u8>)
    requires
        lex_leq(a, b),
        lex_leq(b, a),
    ensures
        a == b,
    decreases a.len(),
{
    if a.len() == 0 {
        assert(b.len() == 0);
        assert(a =~= b);
    } else {
        lemma_lex_antisym(a.drop_first(), b.drop_first());
        assert(a =~= seq![a[0]] + a.drop_first());
        assert(b =~= seq![b[0]] + b.drop_first());
    }
}

pub proof fn lemma_lex_trans(a: Seq<u8>, b: Seq<u8>, c: Seq<u8>)
    requires
        lex_leq(a, b),
        lex_leq(b, c),
    ensures
        lex_leq(a, c),
    decreases a.len(),
{
    if a.len() > 0 && b.len() > 0 && c.len() > 0 {
        if a[0] == b[0] && b[0] == c[0] {
            lemma_lex_trans(a.drop_first(), b.drop_first(), c.drop_first());
        }
    }
}

pub proof fn lemma_lex_total(a: Seq<u8>, b: Seq<u8>)
    ensures
        lex_leq(a, b) || lex_leq(b, a),
    decreases a.len(),
{
    if a.len() > 0 && b.len() > 0 && a[0] == b[0] {
        lemma_lex_total(a.drop_first(), b.drop_first());
    }
}

/// Compares two byte strings in the lexicographic order.
pub fn lex_le(a: &Vec<u8>, b: &Vec<u8>) -> (r: bool)
    ensures
        r == lex_leq(a@, b@),
{
    let mut i: usize = 0;
    proof {
        assert(a@.skip(0) =~= a@);
        assert(b@.skip(0) =~= b@);
    }
    loop
        invariant
            i <= a@.len(),
            i <= b@.len(),
            lex_leq(a@, b@) == lex_leq(a@.skip(i as int), b@.skip(i as int)),
        decreases a@.len() - i,
    {
        if i == a.len() {
            return true;
        }
        if i == b.len() {
            return false;
        }
        let x = a[i];
        let y = b[i];
        proof {
            assert(a@.skip(i as int)[0] == a@[i as int]);
            assert(b@.skip(i as int)[0] == b@[i as int]);
            assert(a@.skip(i as int).drop_first() =~= a@.skip(i + 1));
            assert(b@.skip(i as int).drop_first() =~= b@.skip(i + 1));
        }
        if x < y {
            return true;
        }
        if x > y {
            return false;
        }
        i = i + 1;
    }
}

} // verus!
