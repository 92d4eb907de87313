//! Parsing of the branch/tracking header line of textual status data:
//! `## <local>[...<remote>[ [ahead N[, ]][behind M]]]`.
//!
//! The local branch name may be absent (unborn HEAD); the remote and the
//! bracketed ahead/behind suffix are optional. Fields that fail to parse are
//! treated as absent, never as zero.

use vstd::prelude::*;

use crate::summary::DivergenceCount;
use crate::text::{
    all_digits, digits_val, find_pat, find_pat_from, is_digit, is_match_at, lemma_find_pat_from,
    match_at, parse_u64, sub_bytes,
};

verus! {

/// The `...` separator between the local and the remote branch name.
pub open spec fn dots() -> Seq<u8> {
    seq![46u8, 46u8, 46u8]
}

/// The ` [` opener of the divergence suffix.
pub open spec fn bracket_open() -> Seq<u8> {
    seq![32u8, 91u8]
}

/// The `ahead ` field tag.
pub open spec fn ahead_tag() -> Seq<u8> {
    seq![97u8, 104u8, 101u8, 97u8, 100u8, 32u8]
}

/// The `behind ` field tag.
pub open spec fn behind_tag() -> Seq<u8> {
    seq![98u8, 101u8, 104u8, 105u8, 110u8, 100u8, 32u8]
}

/// The `, ` separator between the two fields.
pub open spec fn comma_sep() -> Seq<u8> {
    seq![44u8, 32u8]
}

/// The line starts with the `## ` header marker.
pub open spec fn header_ok(l: Seq<u8>) -> bool {
    l.len() >= 3 && l[0] == 35 && l[1] == 35 && l[2] == 32
}

/// The line's content after the `## ` marker.
pub open spec fn header_rest(l: Seq<u8>) -> Seq<u8> {
    l.skip(3)
}

/// The local branch name a header line carries: the content up to `...`, or
/// the whole content when no separator follows. Absent when the line is no
/// header or the name is empty.
pub open spec fn header_name_bytes(l: Seq<u8>) -> Option<Seq<u8>> {
    if !header_ok(l) {
        None
    } else {
        let r = header_rest(l);
        let i = find_pat_from(r, dots(), 0);
        if i == -1 {
            if r.len() == 0 {
                None
            } else {
                Some(r)
            }
        } else if i == 0 {
            None
        } else {
            Some(r.take(i))
        }
    }
}

/// One `ahead N` or `behind M` field: the tag, then one or more digits.
pub open spec fn parse_field(f: Seq<u8>) -> Option<(bool, nat)> {
    if match_at(f, ahead_tag(), 0) {
        let d = f.skip(6);
        if d.len() > 0 && all_digits(d) {
            Some((true, digits_val(d)))
        } else {
            None
        }
    } else if match_at(f, behind_tag(), 0) {
        let d = f.skip(7);
        if d.len() > 0 && all_digits(d) {
            Some((false, digits_val(d)))
        } else {
            None
        }
    } else {
        None
    }
}

/// The bracket content: `ahead N`, `behind M`, or `ahead N, behind M`.
/// A missing field stands for zero; a malformed content yields nothing.
pub open spec fn parse_bracket(inner: Seq<u8>) -> Option<(nat, nat)> {
    let k = find_pat_from(inner, comma_sep(), 0);
    if k == -1 {
        match parse_field(inner) {
            Some(f) => if f.0 {
                Some((f.1, 0))
            } else {
                Some((0, f.1))
            },
            None => None,
        }
    } else {
        match (parse_field(inner.take(k)), parse_field(inner.skip(k + 2))) {
            (Some(f1), Some(f2)) => if f1.0 && !f2.0 {
                Some((f1.1, f2.1))
            } else {
                None
            },
            _ => None,
        }
    }
}

/// The ahead/behind divergence a header line carries: present only when a
/// remote separator is followed by a well-formed ` [...]` suffix at the end
/// of the line.
pub open spec fn header_divergence(l: Seq<u8>) -> Option<(nat, nat)> {
    if !header_ok(l) {
        None
    } else {
        let r = header_rest(l);
        let i = find_pat_from(r, dots(), 0);
        if i == -1 {
            None
        } else {
            let tail = r.skip(i + 3);
            let j = find_pat_from(tail, bracket_open(), 0);
            if j == -1 {
                None
            } else if tail.len() == 0 || tail.last() != 93 {
                None
            } else {
                parse_bracket(tail.subrange(j + 2, tail.len() - 1))
            }
        }
    }
}

/// What a header line yields: the branch name bytes and the divergence.
pub struct ParsedHeader {
    pub name: Option<Vec<u8>>,
    pub divergence: Option<DivergenceCount>,
}

/// Parses one `ahead N` / `behind M` field. Absent when the field is
/// malformed or its value does not fit in a `u64`.
fn parse_field_exec(f: &[u8]) -> (r: Option<(bool, u64)>)
    ensures
        r is Some <==> (parse_field(f@) is Some && parse_field(f@).unwrap().1 <= u64::MAX),
        r is Some ==> r.unwrap().0 == parse_field(f@).unwrap().0 && r.unwrap().1 == parse_field(f@).unwrap().1,
{
    let ahead = ahead_vec();
    let behind = behind_vec();
    if f.len() >= 6 && is_match_at(f, ahead.as_slice(), 0) {
        let d = sub_bytes(f, 6, f.len());
        proof {
            assert(d@ =~= f@.skip(6));
        }
        match parse_u64(d.as_slice()) {
            Some(v) => Some((true, v)),
            None => None,
        }
    } else if f.len() >= 7 && is_match_at(f, behind.as_slice(), 0) {
        let d = sub_bytes(f, 7, f.len());
        proof {
            assert(d@ =~= f@.skip(7));
        }
        match parse_u64(d.as_slice()) {
            Some(v) => Some((false, v)),
            None => None,
        }
    } else {
        None
    }
}

/// Parses the bracket content into divergence counts. Absent when the
/// content is malformed or a count does not fit in a `u64`.
fn parse_bracket_exec(inner: &[u8]) -> (r: Option<DivergenceCount>)
    ensures
        r is Some <==> (parse_bracket(inner@) is Some && parse_bracket(inner@).unwrap().0 <= u64::MAX
            && parse_bracket(inner@).unwrap().1 <= u64::MAX),
        r is Some ==> r->0.ahead == parse_bracket(inner@).unwrap().0
            && r->0.behind == parse_bracket(inner@).unwrap().1,
{
    let comma = comma_vec();
    match find_pat(inner, comma.as_slice(), 0) {
        None => {
            match parse_field_exec(inner) {
                Some(f) => {
                    if f.0 {
                        Some(DivergenceCount { ahead: f.1, behind: 0 })
                    } else {
                        Some(DivergenceCount { ahead: 0, behind: f.1 })
                    }
                },
                None => None,
            }
        },
        Some(k) => {
            proof {
                lemma_find_pat_from(inner@, comma_sep(), 0);
            }
            let n = inner.len();
            let f1 = sub_bytes(inner, 0, k);
            let f2 = sub_bytes(inner, k + 2, n);
            proof {
                assert(f1@ =~= inner@.take(k as int));
                assert(f2@ =~= inner@.skip(k + 2));
            }
            match (parse_field_exec(f1.as_slice()), parse_field_exec(f2.as_slice())) {
                (Some(g1), Some(g2)) => {
                    if g1.0 && !g2.0 {
                        Some(DivergenceCount { ahead: g1.1, behind: g2.1 })
                    } else {
                        None
                    }
                },
                _ => None,
            }
        },
    }
}

/// Parses a branch/tracking header line. The name is present exactly when
/// the line is a header with a non-empty local branch name; the divergence is
/// present exactly when a well-formed bracket suffix closes the line and both
/// counts fit in a `u64`.
pub fn parse_header(l: &[u8]) -> (h: ParsedHeader)
    ensures
        (h.name is Some) == (header_name_bytes(l@) is Some),
        h.name is Some ==> h.name.unwrap()@ == header_name_bytes(l@).unwrap(),
        (h.divergence is Some <==> (header_divergence(l@) is Some
            && header_divergence(l@).unwrap().0 <= u64::MAX
            && header_divergence(l@).unwrap().1 <= u64::MAX)),
        h.divergence is Some ==> h.divergence->0.ahead == header_divergence(l@).unwrap().0
            && h.divergence->0.behind == header_divergence(l@).unwrap().1,
{
    if l.len() < 3 || l[0] != 35 || l[1] != 35 || l[2] != 32 {
        return ParsedHeader { name: None, divergence: None };
    }
    let r = sub_bytes(l, 3, l.len());
    proof {
        assert(r@ =~= header_rest(l@));
    }
    let dotv = dots_vec();
    match find_pat(r.as_slice(), dotv.as_slice(), 0) {
        None => {
            let name = if r.len() == 0 {
                None
            } else {
                Some(r)
            };
            ParsedHeader { name, divergence: None }
        },
        Some(i) => {
            proof {
                lemma_find_pat_from(r@, dots(), 0);
            }
            let name = if i == 0 {
                None
            } else {
                Some(sub_bytes(r.as_slice(), 0, i))
            };
            proof {
                if i > 0 {
                    assert(r@.subrange(0, i as int) =~= r@.take(i as int));
                }
            }
            let tail = sub_bytes(r.as_slice(), i + 3, r.len());
            proof {
                assert(tail@ =~= r@.skip(i + 3));
            }
            let brv = bracket_vec();
            let divergence = match find_pat(tail.as_slice(), brv.as_slice(), 0) {
                None => None,
                Some(j) => {
                    proof {
                        lemma_find_pat_from(tail@, bracket_open(), 0);
                    }
                    if tail[tail.len() - 1] != 93 {
                        None
                    } else {
                        proof {
                            assert(tail@.subrange(j as int, j + 2)[1] == tail@[j + 1]);
                            assert(tail@[j + 1] == 91);
                            assert(j + 2 <= tail@.len() - 1) by {
                                if j + 1 == tail@.len() - 1 {
                                    assert(tail@.last() == 91);
                                }
                            }
                        }
                        let inner = sub_bytes(tail.as_slice(), j + 2, tail.len() - 1);
                        proof {
                            assert(inner@ =~= tail@.subrange(j + 2, tail@.len() - 1));
                        }
                        parse_bracket_exec(inner.as_slice())
                    }
                },
            };
            ParsedHeader { name, divergence }
        },
    }
}

/// The `...` separator, as an executable vector.
fn dots_vec() -> (v: Vec<u8>)
    ensures
        v@ == dots(),
{
    let mut v: Vec<u8> = Vec::new();
    v.push(46);
    v.push(46);
    v.push(46);
    proof {
        assert(v@ =~= dots());
    }
    v
}

/// The ` [` opener, as an executable vector.
fn bracket_vec() -> (v: Vec<u8>)
    ensures
        v@ == bracket_open(),
{
    let mut v: Vec<u8> = Vec::new();
    v.push(32);
    v.push(91);
    proof {
        assert(v@ =~= bracket_open());
    }
    v
}

/// The `ahead ` tag, as an executable vector.
fn ahead_vec() -> (v: Vec<u8>)
    ensures
        v@ == ahead_tag(),
{
    let mut v: Vec<u8> = Vec::new();
    v.push(97);
    v.push(104);
    v.push(101);
    v.push(97);
    v.push(100);
    v.push(32);
    proof {
        assert(v@ =~= ahead_tag());
    }
    v
}

/// The `behind ` tag, as an executable vector.
fn behind_vec() -> (v: Vec<u8>)
    ensures
        v@ == behind_tag(),
{
    let mut v: Vec<u8> = Vec::new();
    v.push(98);
    v.push(101);
    v.push(104);
    v.push(105);
    v.push(110);
    v.push(100);
    v.push(32);
    proof {
        assert(v@ =~= behind_tag());
    }
    v
}

/// The `, ` separator, as an executable vector.
fn comma_vec() -> (v: Vec<u8>)
    ensures
        v@ == comma_sep(),
{
    let mut v: Vec<u8> = Vec::new();
    v.push(44);
    v.push(32);
    proof {
        assert(v@ =~= comma_sep());
    }
    v
}

/// The position `k` holds the first occurrence of `p` in `s`.
proof fn lemma_find_pat_at(s: Seq<u8>, p: Seq<u8>, k: int)
    requires
        p.len() >= 1,
        0 <= k,
        match_at(s, p, k),
        forall|j: int| 0 <= j < k ==> !match_at(s, p, j),
    ensures
        find_pat_from(s, p, 0) == k,
{
    lemma_find_pat_from(s, p, 0);
    let r = find_pat_from(s, p, 0);
    if r == -1 {
        assert(!match_at(s, p, k));
    } else if r < k {
        assert(!match_at(s, p, r));
    } else if r > k {
        assert(!match_at(s, p, k));
    }
}

/// The bracket content of a header line with both fields.
pub open spec fn bracket_inner(da: Seq<u8>, db: Seq<u8>) -> Seq<u8> {
    ahead_tag() + da + comma_sep() + behind_tag() + db
}

/// A fully formed header line assembled from its parts: marker, local name,
/// separator, remote name, and a bracket suffix with both fields.
pub open spec fn header_line(
    name: Seq<u8>,
    remote: Seq<u8>,
    da: Seq<u8>,
    db: Seq<u8>,
) -> Seq<u8> {
    seq![35u8, 35u8, 32u8] + name + dots() + remote + bracket_open() + bracket_inner(da, db)
        + seq![93u8]
}

/// Every well-formed header line parses back to exactly its parts: the local
/// branch name and both divergence counts. The name holds no dot, the remote
/// no space, and each count is a non-empty digit string.
#[verifier::rlimit(100)]
pub proof fn lemma_header_round_trip(name: Seq<u8>, remote: Seq<u8>, da: Seq<u8>, db: Seq<u8>)
    requires
        name.len() > 0,
        forall|k: int| 0 <= k < name.len() ==> name[k] != 46,
        forall|k: int| 0 <= k < remote.len() ==> remote[k] != 32,
        da.len() > 0,
        all_digits(da),
        db.len() > 0,
        all_digits(db),
    ensures
        header_name_bytes(header_line(name, remote, da, db)) == Some(name),
        header_divergence(header_line(name, remote, da, db))
            == Some((digits_val(da), digits_val(db))),
{
    let l = header_line(name, remote, da, db);
    let inner = bracket_inner(da, db);
    let r = header_rest(l);
    assert(header_ok(l));
    assert(r =~= name + dots() + remote + bracket_open() + inner + seq![93u8]);

    // The separator stands right after the name, and nowhere earlier.
    let i = name.len() as int;
    assert(r.subrange(i, i + 3) =~= dots());
    assert forall|j: int| 0 <= j < i implies !match_at(r, dots(), j) by {
        if match_at(r, dots(), j) {
            assert(r.subrange(j, j + 3)[0] == r[j]);
            assert(r[j] == name[j]);
        }
    }
    lemma_find_pat_at(r, dots(), i);
    assert(r.take(i) =~= name);

    // The bracket opener stands right after the remote, and nowhere earlier.
    let tail = r.skip(i + 3);
    assert(tail =~= remote + bracket_open() + inner + seq![93u8]);
    let j = remote.len() as int;
    assert(tail.subrange(j, j + 2) =~= bracket_open());
    assert forall|k: int| 0 <= k < j implies !match_at(tail, bracket_open(), k) by {
        if match_at(tail, bracket_open(), k) {
            assert(tail.subrange(k, k + 2)[0] == tail[k]);
            assert(tail[k] == remote[k]);
        }
    }
    lemma_find_pat_at(tail, bracket_open(), j);
    assert(tail.last() == 93);
    assert(tail.subrange(j + 2, tail.len() - 1) =~= inner);

    // The field separator stands right after the first count, and nowhere
    // earlier: tag letters and digits are no commas.
    let k = 6 + da.len() as int;
    assert(inner.subrange(k, k + 2) =~= comma_sep());
    assert forall|q: int| 0 <= q < k implies !match_at(inner, comma_sep(), q) by {
        if match_at(inner, comma_sep(), q) {
            assert(inner.subrange(q, q + 2)[0] == inner[q]);
            if q < 6 {
                assert(inner[q] == ahead_tag()[q]);
            } else {
                assert(inner[q] == da[q - 6]);
                assert(is_digit(da[q - 6]));
            }
        }
    }
    lemma_find_pat_at(inner, comma_sep(), k);

    // The first field is the ahead count.
    let f1 = inner.take(k);
    assert(f1.subrange(0, 6) =~= ahead_tag());
    assert(match_at(f1, ahead_tag(), 0));
    assert(f1.skip(6) =~= da);
    assert(parse_field(f1) == Some((true, digits_val(da))));

    // The second field is the behind count.
    let f2 = inner.skip(k + 2);
    assert(f2 =~= behind_tag() + db);
    assert(!match_at(f2, ahead_tag(), 0)) by {
        if match_at(f2, ahead_tag(), 0) {
            assert(f2.subrange(0, 6)[0] == f2[0]);
        }
    }
    assert(f2.subrange(0, 7) =~= behind_tag());
    assert(match_at(f2, behind_tag(), 0));
    assert(f2.skip(7) =~= db);
    assert(parse_field(f2) == Some((false, digits_val(db))));

    assert(parse_bracket(inner) == Some((digits_val(da), digits_val(db))));
}

/// A header with no bracket suffix yields no divergence, whether or not a
/// remote is present.
pub proof fn lemma_no_bracket_no_divergence(l: Seq<u8>)
    requires
        forall|k: int| 0 <= k < l.len() ==> l[k] != 91,
    ensures
        header_divergence(l) is None,
{
    if header_ok(l) {
        let r = header_rest(l);
        let i = find_pat_from(r, dots(), 0);
        if i != -1 {
            let tail = r.skip(i + 3);
            lemma_find_pat_from(r, dots(), 0);
            let j = find_pat_from(tail, bracket_open(), 0);
            if j != -1 {
                lemma_find_pat_from(r, dots(), 0);
                lemma_find_pat_from(tail, bracket_open(), 0);
                assert(match_at(tail, bracket_open(), j));
                assert(tail.subrange(j, j + 2)[1] == tail[j + 1]);
                assert(tail[j + 1] == 91);
                assert(tail[j + 1] == r[i + 3 + j + 1]);
                assert(r[i + 3 + j + 1] == l[3 + i + 3 + j + 1]);
            }
        }
    }
}

} // verus!
