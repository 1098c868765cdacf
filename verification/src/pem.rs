//! A verified reader for PEM files: text made of lines, where each
//! section lies between a `-----BEGIN <label>-----` line and the matching
//! `-----END <label>-----` line and holds the base64 of its DER bytes.
//! Lines outside sections are ignored; a section whose base64 does not
//! decode makes the whole file invalid.  The grammar is specified by the
//! `spec_*` functions, and the executable reader returns exactly what
//! they say.

use vstd::prelude::*;

verus! {

// ---------------------------------------------------------------------------
// Base64
// ---------------------------------------------------------------------------

/// The value of a base64 character, or a negative number when `c` is not
/// one.  `=` is padding, not a value.
pub open spec fn b64_val(c: u8) -> int {
    if 65 <= c <= 90 {  // 'A'..'Z'
        c - 65
    } else if 97 <= c <= 122 {  // 'a'..'z'
        c - 97 + 26
    } else if 48 <= c <= 57 {  // '0'..'9'
        c - 48 + 52
    } else if c == 43 {  // '+'
        62
    } else if c == 47 {  // '/'
        63
    } else {
        -1
    }
}

/// Whether `c` carries a base64 value.
pub open spec fn is_b64(c: u8) -> bool {
    b64_val(c) >= 0
}

/// The bytes encoded by a base64 text: whole groups of four characters,
/// with `=` padding allowed only in the final group.
pub open spec fn spec_b64_decode(s: Seq<u8>) -> Option<Seq<u8>>
    decreases s.len(),
{
    if s.len() == 0 {
        Option::Some(Seq::empty())
    } else if s.len() < 4 {
        Option::None
    } else if !is_b64(s[0]) || !is_b64(s[1]) {
        Option::None
    } else {
        let c0 = b64_val(s[0]);
        let c1 = b64_val(s[1]);
        if s.len() == 4 && s[2] == 61 && s[3] == 61 {  // "..=="
            Option::Some(seq![(c0 * 4 + c1 / 16) as u8])
        } else if s.len() == 4 && s[3] == 61 && is_b64(s[2]) {  // "...="
            let c2 = b64_val(s[2]);
            Option::Some(seq![(c0 * 4 + c1 / 16) as u8, ((c1 % 16) * 16 + c2 / 4) as u8])
        } else if is_b64(s[2]) && is_b64(s[3]) {
            let c2 = b64_val(s[2]);
            let c3 = b64_val(s[3]);
            match spec_b64_decode(s.skip(4)) {
                Option::Some(rest) => Option::Some(
                    seq![
                        (c0 * 4 + c1 / 16) as u8,
                        ((c1 % 16) * 16 + c2 / 4) as u8,
                        ((c2 % 4) * 64 + c3) as u8,
                    ] + rest,
                ),
                Option::None => Option::None,
            }
        } else {
            Option::None
        }
    }
}

/// The value of a base64 character, executably.
fn b64_digit(c: u8) -> (r: Option<u8>)
    ensures
        r is Some <==> is_b64(c),
        r matches Some(v) ==> v == b64_val(c) && v < 64,
{
    if 65 <= c && c <= 90 {
        Some(c - 65)
    } else if 97 <= c && c <= 122 {
        Some(c - 97 + 26)
    } else if 48 <= c && c <= 57 {
        Some(c - 48 + 52)
    } else if c == 43 {
        Some(62)
    } else if c == 47 {
        Some(63)
    } else {
        None
    }
}

/// Decodes a base64 text, per `spec_b64_decode`.
pub fn b64_decode(s: &Vec<u8>) -> (r: Option<Vec<u8>>)
    ensures
        (match r {
            Option::Some(out) => spec_b64_decode(s@) == Option::Some(out@),
            Option::None => spec_b64_decode(s@) is None,
        }),
{
    let n = s.len();
    let mut out: Vec<u8> = Vec::new();
    let mut k: usize = 0;
    proof {
        assert(s@.skip(0) =~= s@);
    }
    loop
        invariant
            0 <= k <= n,
            n == s@.len(),
            (match spec_b64_decode(s@.skip(k as int)) {
                Option::Some(rest) => spec_b64_decode(s@) == Option::Some(out@ + rest),
                Option::None => spec_b64_decode(s@) is None,
            }),
        decreases n - k,
    {
        let ghost tail = s@.skip(k as int);
        if k == n {
            proof {
                assert(tail =~= Seq::<u8>::empty());
                assert(out@ + Seq::<u8>::empty() =~= out@);
            }
            return Some(out);
        }
        if n - k < 4 {
            proof {
                assert(tail.len() == n - k);
            }
            return None;
        }
        proof {
            assert(tail[0] == s@[k as int]);
            assert(tail[1] == s@[k + 1]);
            assert(tail[2] == s@[k + 2]);
            assert(tail[3] == s@[k + 3]);
            assert(tail.len() == n - k);
        }
        let c0 = match b64_digit(s[k]) {
            Some(v) => v,
            None => {
                return None;
            },
        };
        let c1 = match b64_digit(s[k + 1]) {
            Some(v) => v,
            None => {
                return None;
            },
        };
        if n - k == 4 && s[k + 2] == 61 && s[k + 3] == 61 {
            out.push(c0 * 4 + c1 / 16);
            proof {
                assert(out@ =~= out@.subrange(0, out@.len() - 1) + seq![(b64_val(tail[0]) * 4
                    + b64_val(tail[1]) / 16) as u8]);
            }
            return Some(out);
        }
        if n - k == 4 && s[k + 3] == 61 {
            let c2 = match b64_digit(s[k + 2]) {
                Some(v) => v,
                None => {
                    return None;
                },
            };
            let ghost before = out@;
            out.push(c0 * 4 + c1 / 16);
            out.push((c1 % 16) * 16 + c2 / 4);
            proof {
                assert(out@ =~= before + seq![(b64_val(tail[0]) * 4 + b64_val(tail[1]) / 16) as u8,
                    ((b64_val(tail[1]) % 16) * 16 + b64_val(tail[2]) / 4) as u8]);
            }
            return Some(out);
        }
        let c2 = match b64_digit(s[k + 2]) {
            Some(v) => v,
            None => {
                return None;
            },
        };
        let c3 = match b64_digit(s[k + 3]) {
            Some(v) => v,
            None => {
                return None;
            },
        };
        let ghost before = out@;
        out.push(c0 * 4 + c1 / 16);
        out.push((c1 % 16) * 16 + c2 / 4);
        out.push((c2 % 4) * 64 + c3);
        proof {
            assert(tail.skip(4) =~= s@.skip(k + 4));
            let ghost group = seq![(b64_val(tail[0]) * 4 + b64_val(tail[1]) / 16) as u8, ((b64_val(
                tail[1],
            ) % 16) * 16 + b64_val(tail[2]) / 4) as u8, ((b64_val(tail[2]) % 4) * 64 + b64_val(
                tail[3],
            )) as u8];
            assert(out@ =~= before + group);
            assert(match spec_b64_decode(s@.skip(k + 4)) {
                Option::Some(rest2) => before + (group + rest2) =~= out@ + rest2,
                Option::None => true,
            });
        }
        k = k + 4;
    }
}

// ---------------------------------------------------------------------------
// Lines
// ---------------------------------------------------------------------------

/// The position of the newline that ends the line starting at `i`, or the
/// end of the input.
pub open spec fn line_end(s: Seq<u8>, i: int) -> int
    decreases s.len() - i when 0 <= i <= s.len()
{
    if i < s.len() && s[i] != 10 {
        line_end(s, i + 1)
    } else {
        i
    }
}

/// The bytes of the line starting at `i`, with a trailing carriage return
/// stripped.
pub open spec fn line_content(s: Seq<u8>, i: int) -> Seq<u8> {
    let body = s.subrange(i, line_end(s, i));
    if body.len() > 0 && body.last() == 13 {
        body.drop_last()
    } else {
        body
    }
}

/// The start of the line after the one starting at `i`.
pub open spec fn next_line_start(s: Seq<u8>, i: int) -> int {
    let e = line_end(s, i);
    if e < s.len() {
        e + 1
    } else {
        e
    }
}

/// The position of the newline ending the current line, executably.
fn find_line_end(s: &Vec<u8>, i: usize) -> (r: usize)
    requires
        i <= s@.len(),
    ensures
        r == line_end(s@, i as int),
        i <= r <= s@.len(),
{
    let n = s.len();
    let mut cur: usize = i;
    while cur < n && s[cur] != 10
        invariant
            i <= cur <= n,
            n == s@.len(),
            line_end(s@, i as int) == line_end(s@, cur as int),
        decreases n - cur,
    {
        cur = cur + 1;
    }
    cur
}

/// Whether the bytes in `s[i..e)` equal `lit`.
fn region_matches(s: &Vec<u8>, i: usize, e: usize, lit: &[u8]) -> (r: bool)
    requires
        i <= e <= s@.len(),
    ensures
        r == (s@.subrange(i as int, e as int) == lit@),
{
    let m = lit.len();
    if e - i != m {
        proof {
            assert(s@.subrange(i as int, e as int).len() != lit@.len());
        }
        return false;
    }
    let mut k: usize = 0;
    while k < m
        invariant
            0 <= k <= m,
            m == lit@.len(),
            i + m == e <= s@.len(),
            forall|j: int| 0 <= j < k ==> s@.subrange(i as int, e as int)[j] == lit@[j],
        decreases m - k,
    {
        if s[i + k] != lit[k] {
            proof {
                assert(s@.subrange(i as int, e as int)[k as int] != lit@[k as int]);
            }
            return false;
        }
        k = k + 1;
    }
    proof {
        assert(s@.subrange(i as int, e as int) =~= lit@);
    }
    true
}

// ---------------------------------------------------------------------------
// Sections
// ---------------------------------------------------------------------------

/// The base64 text of a section body: the lines from `i` up to the line
/// that equals `endl`, concatenated, together with the position after
/// that line.  `None` when the input ends before the section does.
pub open spec fn spec_pem_body(s: Seq<u8>, i: int, endl: Seq<u8>) -> Option<(Seq<u8>, int)>
    decreases s.len() - i when 0 <= i <= s.len()
{
    if i >= s.len() {
        Option::None
    } else {
        let j = next_line_start(s, i);
        if j <= i || j > s.len() {
            Option::None
        } else if line_content(s, i) == endl {
            Option::Some((Seq::empty(), j))
        } else {
            match spec_pem_body(s, j, endl) {
                Option::Some((rest, e)) => Option::Some((line_content(s, i) + rest, e)),
                Option::None => Option::None,
            }
        }
    }
}

/// The decoded bodies of all sections framed by `begin` and `endl`
/// lines, in order.  Text outside sections is ignored; an unterminated
/// section or an undecodable body invalidates the file.
pub open spec fn spec_pem(s: Seq<u8>, i: int, begin: Seq<u8>, endl: Seq<u8>) -> Option<
    Seq<Seq<u8>>,
>
    decreases s.len() - i when 0 <= i <= s.len()
{
    if i >= s.len() {
        Option::Some(Seq::empty())
    } else {
        let j = next_line_start(s, i);
        if j <= i || j > s.len() {
            Option::None
        } else if line_content(s, i) == begin {
            match spec_pem_body(s, j, endl) {
                Option::Some((text, e)) => {
                    if e <= i || e > s.len() {
                        Option::None
                    } else {
                        match spec_b64_decode(text) {
                            Option::Some(der) => match spec_pem(s, e, begin, endl) {
                                Option::Some(rest) => Option::Some(seq![der] + rest),
                                Option::None => Option::None,
                            },
                            Option::None => Option::None,
                        }
                    }
                },
                Option::None => Option::None,
            }
        } else {
            spec_pem(s, j, begin, endl)
        }
    }
}

/// The views of a sequence of byte vectors, elementwise.
pub open spec fn views_of(xs: Seq<Vec<u8>>) -> Seq<Seq<u8>>
    decreases xs.len(),
{
    if xs.len() == 0 {
        Seq::empty()
    } else {
        seq![xs[0]@] + views_of(xs.drop_first())
    }
}

/// Taking views commutes with appending one vector.
proof fn lemma_views_push(xs: Seq<Vec<u8>>, v: Vec<u8>)
    ensures
        views_of(xs.push(v)) == views_of(xs) + seq![v@],
    decreases xs.len(),
{
    if xs.len() == 0 {
        assert(xs.push(v) =~= seq![v]);
        assert(seq![v].drop_first() =~= Seq::<Vec<u8>>::empty());
        assert(views_of(Seq::<Vec<u8>>::empty()) =~= Seq::<Seq<u8>>::empty());
        assert(views_of(xs) + seq![v@] =~= seq![v@]);
        assert(seq![v][0] == v);
        assert(views_of(seq![v]) == seq![v@] + views_of(Seq::<Vec<u8>>::empty()));
        assert(seq![v@] + Seq::<Seq<u8>>::empty() =~= seq![v@]);
    } else {
        assert(xs.push(v).drop_first() =~= xs.drop_first().push(v));
        lemma_views_push(xs.drop_first(), v);
        assert(seq![xs[0]@] + (views_of(xs.drop_first()) + seq![v@]) =~= (seq![xs[0]@] + views_of(
            xs.drop_first(),
        )) + seq![v@]);
    }
}

/// Element `k` of the views of a sequence of vectors is the view of
/// element `k`.
pub proof fn lemma_views_index(xs: Seq<Vec<u8>>)
    ensures
        views_of(xs).len() == xs.len(),
        forall|k: int| 0 <= k < xs.len() ==> views_of(xs)[k] == xs[k]@,
    decreases xs.len(),
{
    if xs.len() > 0 {
        lemma_views_index(xs.drop_first());
        assert forall|k: int| 0 <= k < xs.len() implies views_of(xs)[k] == xs[k]@ by {
            if k > 0 {
                assert(xs.drop_first()[k - 1] == xs[k]);
            }
        }
    }
}

/// Reads all sections framed by `begin` and `endl` lines, per `spec_pem`.
pub fn pem_sections(s: &Vec<u8>, begin: &[u8], endl: &[u8]) -> (r: Option<Vec<Vec<u8>>>)
    ensures
        (match r {
            Option::Some(out) => spec_pem(s@, 0, begin@, endl@) == Option::Some(views_of(out@)),
            Option::None => spec_pem(s@, 0, begin@, endl@) is None,
        }),
{
    let n = s.len();
    let mut out: Vec<Vec<u8>> = Vec::new();
    let mut pos: usize = 0;
    loop
        invariant
            0 <= pos <= n,
            n == s@.len(),
            (match spec_pem(s@, pos as int, begin@, endl@) {
                Option::Some(rest) => spec_pem(s@, 0, begin@, endl@) == Option::Some(
                    views_of(out@) + rest,
                ),
                Option::None => spec_pem(s@, 0, begin@, endl@) is None,
            }),
        decreases n - pos,
    {
        if pos >= n {
            proof {
                assert(views_of(out@) + Seq::<Seq<u8>>::empty() =~= views_of(out@));
            }
            return Some(out);
        }
        let le = find_line_end(s, pos);
        let ce: usize = if le > pos && s[le - 1] == 13 {
            le - 1
        } else {
            le
        };
        proof {
            if le > pos && s@[le - 1] == 13 {
                assert(s@.subrange(pos as int, le as int).last() == s@[le - 1]);
                assert(s@.subrange(pos as int, le as int).drop_last() =~= s@.subrange(
                    pos as int,
                    ce as int,
                ));
            }
            assert(line_content(s@, pos as int) == s@.subrange(pos as int, ce as int));
        }
        let next: usize = if le < n {
            le + 1
        } else {
            le
        };
        if region_matches(s, pos, ce, begin) {
            let mut text: Vec<u8> = Vec::new();
            let mut bpos: usize = next;
            let mut done: bool = false;
            let ghost pos_e = pos as int;
            while !done
                invariant
                    pos <= n,
                    n == s@.len(),
                    !done ==> pos == pos_e && pos < bpos <= n && pos < n,
                    !done ==> next == next_line_start(s@, pos as int) && pos < next <= n,
                    !done ==> line_content(s@, pos as int) == begin@,
                    !done ==> (match spec_pem_body(s@, bpos as int, endl@) {
                        Option::Some((restb, e)) => spec_pem_body(s@, next as int, endl@)
                            == Option::Some((text@ + restb, e)),
                        Option::None => spec_pem_body(s@, next as int, endl@) is None,
                    }),
                    done ==> pos_e < pos,
                    (match spec_pem(s@, pos as int, begin@, endl@) {
                        Option::Some(rest) => spec_pem(s@, 0, begin@, endl@) == Option::Some(
                            views_of(out@) + rest,
                        ),
                        Option::None => spec_pem(s@, 0, begin@, endl@) is None,
                    }),
                decreases n - bpos + (if done { 0int } else { 1 }),
            {
                if bpos >= n {
                    return None;
                }
                let le2 = find_line_end(s, bpos);
                let ce2: usize = if le2 > bpos && s[le2 - 1] == 13 {
                    le2 - 1
                } else {
                    le2
                };
                proof {
                    if le2 > bpos && s@[le2 - 1] == 13 {
                        assert(s@.subrange(bpos as int, le2 as int).last() == s@[le2 - 1]);
                        assert(s@.subrange(bpos as int, le2 as int).drop_last() =~= s@.subrange(
                            bpos as int,
                            ce2 as int,
                        ));
                    }
                    assert(line_content(s@, bpos as int) == s@.subrange(bpos as int, ce2 as int));
                }
                let next2: usize = if le2 < n {
                    le2 + 1
                } else {
                    le2
                };
                proof {
                    assert(next2 == next_line_start(s@, bpos as int));
                }
                if region_matches(s, bpos, ce2, endl) {
                    proof {
                        assert(spec_pem_body(s@, bpos as int, endl@) == Option::Some(
                            (Seq::<u8>::empty(), next2 as int),
                        ));
                        assert(text@ + Seq::<u8>::empty() =~= text@);
                        assert(spec_pem_body(s@, next as int, endl@) == Option::Some(
                            (text@, next2 as int),
                        ));
                    }
                    match b64_decode(&text) {
                        Option::None => {
                            return None;
                        },
                        Option::Some(der) => {
                            let ghost old_out = out@;
                            proof {
                                lemma_views_push(out@, der);
                                assert(match spec_pem(s@, next2 as int, begin@, endl@) {
                                    Option::Some(rest2) => views_of(old_out) + (seq![der@] + rest2)
                                        =~= views_of(old_out.push(der)) + rest2,
                                    Option::None => true,
                                });
                            }
                            out.push(der);
                            pos = next2;
                            done = true;
                        },
                    }
                } else {
                    let ghost old_text = text@;
                    let mut q: usize = bpos;
                    while q < ce2
                        invariant
                            bpos <= q <= ce2 <= n,
                            n == s@.len(),
                            text@ == old_text + s@.subrange(bpos as int, q as int),
                        decreases ce2 - q,
                    {
                        proof {
                            assert((old_text + s@.subrange(bpos as int, q as int)).push(
                                s@[q as int],
                            ) =~= old_text + s@.subrange(bpos as int, q + 1));
                        }
                        text.push(s[q]);
                        q = q + 1;
                    }
                    proof {
                        assert(text@ == old_text + line_content(s@, bpos as int));
                        assert(match spec_pem_body(s@, next2 as int, endl@) {
                            Option::Some((restb2, e2)) => old_text + (line_content(
                                s@,
                                bpos as int,
                            ) + restb2) =~= text@ + restb2,
                            Option::None => true,
                        });
                    }
                    bpos = next2;
                }
            }
        } else {
            pos = next;
        }
    }
}

} // verus!
