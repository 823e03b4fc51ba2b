//! The resorter: turns the deduplicated line set into a sequence ordered by
//! descending embedded timestamp, comparing the fixed sixteen-character
//! stamp substring of each line as plain text.

use vstd::multiset::Multiset;
use vstd::prelude::*;

verus! {

/// The sixteen characters after the leading bracket: `YYYY-MM-DD HH:MM`.
/// Because the stamp is fixed-width, comparing it as text compares it
/// chronologically.
pub open spec fn stamp_key(s: Seq<char>) -> Seq<char> {
    s.subrange(1, 17)
}

/// Lexicographic order on character sequences, by code point, with a prefix
/// ordered before its extensions.
pub open spec fn lex_le(a: Seq<char>, b: Seq<char>) -> bool
    decreases a.len(),
{
    if a.len() == 0 {
        true
    } else if b.len() == 0 {
        false
    } else if (a[0] as u32) < (b[0] as u32) {
        true
    } else if (a[0] as u32) > (b[0] as u32) {
        false
    } else {
        lex_le(a.drop_first(), b.drop_first())
    }
}

/// `lex_le` is total: of any two sequences, one is ordered below the other.
pub proof fn lemma_lex_le_total(a: Seq<char>, b: Seq<char>)
    ensures
        lex_le(a, b) || lex_le(b, a),
    decreases a.len(),
{
    if a.len() == 0 || b.len() == 0 {
    } else if (a[0] as u32) == (b[0] as u32) {
        lemma_lex_le_total(a.drop_first(), b.drop_first());
    }
}

/// `lex_le` is reflexive.
pub proof fn lemma_lex_le_refl(a: Seq<char>)
    ensures
        lex_le(a, a),
    decreases a.len(),
{
    if a.len() > 0 {
        lemma_lex_le_refl(a.drop_first());
    }
}

/// `lex_le` is transitive.
pub proof fn lemma_lex_le_trans(a: Seq<char>, b: Seq<char>, c: Seq<char>)
    requires
        lex_le(a, b),
        lex_le(b, c),
    ensures
        lex_le(a, c),
    decreases a.len(),
{
    if a.len() == 0 {
    } else if b.len() == 0 {
    } else if c.len() == 0 {
    } else {
        if (a[0] as u32) == (b[0] as u32) && (b[0] as u32) == (c[0] as u32) {
            lemma_lex_le_trans(a.drop_first(), b.drop_first(), c.drop_first());
        }
    }
}

/// A sequence of lines ordered by descending stamp: every later line's
/// stamp is at or below every earlier line's.
pub open spec fn sorted_desc(s: Seq<Seq<char>>) -> bool {
    forall|i: int, j: int|
        0 <= i < j < s.len() ==> lex_le(stamp_key(#[trigger] s[j]), stamp_key(#[trigger] s[i]))
}

/// The texts of a sequence of lines.
pub open spec fn line_views(s: Seq<String>) -> Seq<Seq<char>> {
    Seq::new(s.len(), |i: int| s[i]@)
}

/// Decides `lex_le` on two string slices.
fn lex_le_exec(a: &str, b: &str) -> (r: bool)
    ensures
        r == lex_le(a@, b@),
    decreases a@.len(),
{
    let alen = a.unicode_len();
    let blen = b.unicode_len();
    if alen == 0 {
        true
    } else if blen == 0 {
        false
    } else {
        let ca = a.get_char(0);
        let cb = b.get_char(0);
        if (ca as u32) < (cb as u32) {
            true
        } else if (ca as u32) > (cb as u32) {
            false
        } else {
            let r = lex_le_exec(a.substring_char(1, alen), b.substring_char(1, blen));
            proof {
                assert(a@.subrange(1, a@.len() as int) =~= a@.drop_first());
                assert(b@.subrange(1, b@.len() as int) =~= b@.drop_first());
            }
            r
        }
    }
}

/// Compares two whole lines by their stamp substrings.
fn stamp_le(a: &String, b: &String) -> (r: bool)
    requires
        a@.len() >= 17,
        b@.len() >= 17,
    ensures
        r == lex_le(stamp_key(a@), stamp_key(b@)),
{
    let ka = a.as_str().substring_char(1, 17);
    let kb = b.as_str().substring_char(1, 17);
    lex_le_exec(ka, kb)
}

/// `x` stands somewhere before `y` in `s`.
pub open spec fn precedes_in(s: Seq<String>, x: String, y: String) -> bool {
    exists|i: int, j: int| 0 <= i < j < s.len() && s[i] == x && s[j] == y
}

/// Sorts lines by descending stamp substring, stably: the result is a
/// permutation of the input in which lines sharing a stamp keep their
/// input order, so equal inputs always sort to the same output.
fn sort_desc(input: Vec<String>) -> (r: Vec<String>)
    requires
        forall|i: int| 0 <= i < input@.len() ==> (#[trigger] input@[i]@).len() >= 17,
    ensures
        r@.to_multiset() == input@.to_multiset(),
        sorted_desc(line_views(r@)),
        forall|i: int, j: int|
            0 <= i < j < r@.len() && stamp_key(#[trigger] r@[i]@) == stamp_key(#[trigger] r@[j]@)
                ==> precedes_in(input@, r@[i], r@[j]),
{
    broadcast use vstd::prelude::Seq::to_multiset_ensures;

    let mut rest = input;
    let mut out: Vec<String> = Vec::new();
    proof {
        broadcast use vstd::multiset::group_multiset_axioms;

        out@.to_multiset_ensures();
        vstd::multiset::lemma_multiset_empty_len::<String>(out@.to_multiset());
        assert(out@.to_multiset().add(rest@.to_multiset()) =~= input@.to_multiset());
    }
    while rest.len() > 0
        invariant
            forall|i: int| 0 <= i < rest@.len() ==> (#[trigger] rest@[i]@).len() >= 17,
            forall|i: int| 0 <= i < out@.len() ==> (#[trigger] out@[i]@).len() >= 17,
            out@.to_multiset().add(rest@.to_multiset()) == input@.to_multiset(),
            sorted_desc(line_views(out@)),
            forall|i: int, j: int|
                0 <= i < out@.len() && 0 <= j < rest@.len() ==> lex_le(
                    stamp_key(#[trigger] rest@[j]@),
                    stamp_key(#[trigger] out@[i]@),
                ),
            forall|j: int, j2: int|
                0 <= j < j2 < rest@.len() ==> precedes_in(
                    input@,
                    #[trigger] rest@[j],
                    #[trigger] rest@[j2],
                ),
            forall|i: int, j: int|
                0 <= i < out@.len() && 0 <= j < rest@.len() && stamp_key(#[trigger] out@[i]@)
                    == stamp_key(#[trigger] rest@[j]@) ==> precedes_in(input@, out@[i], rest@[j]),
            forall|i: int, i2: int|
                0 <= i < i2 < out@.len() && stamp_key(#[trigger] out@[i]@) == stamp_key(
                    #[trigger] out@[i2]@,
                ) ==> precedes_in(input@, out@[i], out@[i2]),
        decreases rest@.len(),
    {
        let mut best: usize = 0;
        let mut k: usize = 1;
        proof {
            lemma_lex_le_refl(stamp_key(rest@[0]@));
        }
        while k < rest.len()
            invariant
                forall|i: int| 0 <= i < rest@.len() ==> (#[trigger] rest@[i]@).len() >= 17,
                rest@.len() > 0,
                best < k,
                k <= rest@.len(),
                forall|j: int|
                    0 <= j < k ==> lex_le(
                        stamp_key(#[trigger] rest@[j]@),
                        stamp_key(rest@[best as int]@),
                    ),
                forall|j: int|
                    0 <= j < best ==> !lex_le(
                        stamp_key(rest@[best as int]@),
                        stamp_key(#[trigger] rest@[j]@),
                    ),
            decreases rest@.len() - k,
        {
            if stamp_le(&rest[k], &rest[best]) {
                // the earliest maximum is kept: a line tying the current
                // best never displaces it
            } else {
                proof {
                    lemma_lex_le_total(stamp_key(rest@[k as int]@), stamp_key(rest@[best as int]@));
                    assert forall|j: int| 0 <= j < k + 1 implies lex_le(
                        stamp_key(#[trigger] rest@[j]@),
                        stamp_key(rest@[k as int]@),
                    ) by {
                        if j < k {
                            lemma_lex_le_trans(
                                stamp_key(rest@[j]@),
                                stamp_key(rest@[best as int]@),
                                stamp_key(rest@[k as int]@),
                            );
                        } else {
                            lemma_lex_le_refl(stamp_key(rest@[k as int]@));
                        }
                    }
                    assert forall|j: int| 0 <= j < k implies !lex_le(
                        stamp_key(rest@[k as int]@),
                        stamp_key(#[trigger] rest@[j]@),
                    ) by {
                        if lex_le(stamp_key(rest@[k as int]@), stamp_key(rest@[j]@)) {
                            lemma_lex_le_trans(
                                stamp_key(rest@[k as int]@),
                                stamp_key(rest@[j]@),
                                stamp_key(rest@[best as int]@),
                            );
                        }
                    }
                }
                best = k;
            }
            k += 1;
        }
        let ghost old_out = out@;
        let ghost old_rest = rest@;
        let x = rest.remove(best);
        out.push(x);
        proof {
            assert(out@ =~= old_out.push(x));
            assert(out@.to_multiset().add(rest@.to_multiset()) =~= input@.to_multiset()) by {
                broadcast use vstd::multiset::group_multiset_axioms;

                vstd::seq_lib::to_multiset_remove::<String>(old_rest, best as int);
                vstd::seq_lib::to_multiset_build::<String>(old_out, x);
                assert(rest@ =~= old_rest.remove(best as int));
                old_rest.to_multiset_ensures();
                assert(old_rest.to_multiset().contains(x));
            }
            assert forall|i: int, j: int|
                0 <= i < j < line_views(out@).len() implies lex_le(
                stamp_key(line_views(out@)[j]),
                stamp_key(line_views(out@)[i]),
            ) by {
                assert(line_views(out@)[i] == out@[i]@);
                assert(line_views(out@)[j] == out@[j]@);
                assert(out@[i] == old_out[i]);
                if j < out@.len() - 1 {
                    assert(line_views(old_out)[i] == old_out[i]@);
                    assert(line_views(old_out)[j] == old_out[j]@);
                    assert(lex_le(
                        stamp_key(line_views(old_out)[j]),
                        stamp_key(line_views(old_out)[i]),
                    ));
                } else {
                    assert(out@[j] == x);
                    assert(x == old_rest[best as int]);
                    assert(lex_le(stamp_key(old_rest[best as int]@), stamp_key(old_out[i]@)));
                }
            }
            assert forall|i: int, j: int|
                0 <= i < out@.len() && 0 <= j < rest@.len() implies lex_le(
                stamp_key(#[trigger] rest@[j]@),
                stamp_key(#[trigger] out@[i]@),
            ) by {
                let j0 = if j < best { j } else { j + 1 };
                assert(rest@[j] == old_rest[j0]);
                assert(lex_le(stamp_key(old_rest[j0]@), stamp_key(old_rest[best as int]@)));
                if i < out@.len() - 1 {
                    assert(out@[i] == old_out[i]);
                    assert(lex_le(stamp_key(old_rest[best as int]@), stamp_key(old_out[i]@)));
                    lemma_lex_le_trans(
                        stamp_key(old_rest[j0]@),
                        stamp_key(old_rest[best as int]@),
                        stamp_key(old_out[i]@),
                    );
                } else {
                    assert(out@[i] == x);
                    assert(x == old_rest[best as int]);
                }
            }
            assert forall|j: int, j2: int|
                0 <= j < j2 < rest@.len() implies precedes_in(
                input@,
                #[trigger] rest@[j],
                #[trigger] rest@[j2],
            ) by {
                let j0 = if j < best { j } else { j + 1 };
                let j20 = if j2 < best { j2 } else { j2 + 1 };
                assert(rest@[j] == old_rest[j0]);
                assert(rest@[j2] == old_rest[j20]);
                assert(precedes_in(input@, old_rest[j0], old_rest[j20]));
            }
            assert forall|i: int, j: int|
                0 <= i < out@.len() && 0 <= j < rest@.len() && stamp_key(#[trigger] out@[i]@)
                    == stamp_key(#[trigger] rest@[j]@) implies precedes_in(
                input@,
                out@[i],
                rest@[j],
            ) by {
                let j0 = if j < best { j } else { j + 1 };
                assert(rest@[j] == old_rest[j0]);
                if i < out@.len() - 1 {
                    assert(out@[i] == old_out[i]);
                    assert(stamp_key(old_out[i]@) == stamp_key(old_rest[j0]@));
                    assert(precedes_in(input@, old_out[i], old_rest[j0]));
                } else {
                    assert(out@[i] == x);
                    assert(x == old_rest[best as int]);
                    if j0 < best {
                        lemma_lex_le_refl(stamp_key(old_rest[best as int]@));
                        assert(lex_le(
                            stamp_key(old_rest[best as int]@),
                            stamp_key(old_rest[j0]@),
                        ));
                        assert(false);
                    } else {
                        assert(precedes_in(input@, old_rest[best as int], old_rest[j0]));
                    }
                }
            }
            assert forall|i: int, i2: int|
                0 <= i < i2 < out@.len() && stamp_key(#[trigger] out@[i]@) == stamp_key(
                #[trigger] out@[i2]@,
            ) implies precedes_in(input@, out@[i], out@[i2]) by {
                assert(out@[i] == old_out[i]);
                if i2 < out@.len() - 1 {
                    assert(out@[i2] == old_out[i2]);
                    assert(precedes_in(input@, old_out[i], old_out[i2]));
                } else {
                    assert(out@[i2] == x);
                    assert(x == old_rest[best as int]);
                    assert(stamp_key(old_out[i]@) == stamp_key(old_rest[best as int]@));
                    assert(precedes_in(input@, old_out[i], old_rest[best as int]));
                }
            }
        }
    }
    proof {
        broadcast use vstd::multiset::group_multiset_axioms;

        rest@.to_multiset_ensures();
        assert(rest@.to_multiset().len() == 0);
        vstd::multiset::lemma_multiset_empty_len::<String>(rest@.to_multiset());
        assert(rest@.to_multiset() =~= Multiset::<String>::empty());
        assert(out@.to_multiset() =~= input@.to_multiset());
    }
    out
}

/// Converts the deduplicated set into the ordered digest: a permutation of
/// the stored lines, sorted by descending stamp substring, with lines that
/// share a stamp kept in their stored order — the tie rule that makes the
/// resort deterministic. The set itself is left as it was.
pub fn log_distant(logs: &mut crate::logset::LogSet) -> (r: Vec<String>)
    requires
        old(logs).wf(),
    ensures
        *final(logs) == *old(logs),
        r@.to_multiset() == old(logs).lines@.to_multiset(),
        r@.len() == old(logs).lines@.len(),
        forall|x: String| r@.contains(x) <==> old(logs).lines@.contains(x),
        sorted_desc(line_views(r@)),
        forall|i: int, j: int|
            0 <= i < j < r@.len() && stamp_key(#[trigger] r@[i]@) == stamp_key(#[trigger] r@[j]@)
                ==> precedes_in(old(logs).lines@, r@[i], r@[j]),
{
    broadcast use vstd::prelude::Seq::to_multiset_ensures;

    let n = logs.lines.len();
    let mut copy: Vec<String> = Vec::new();
    let mut i: usize = 0;
    while i < n
        invariant
            n == logs.lines@.len(),
            old(logs).wf(),
            *logs == *old(logs),
            i <= n,
            copy@ =~= logs.lines@.take(i as int),
        decreases n - i,
    {
        copy.push(logs.lines[i].clone());
        proof {
            assert(copy@ =~= logs.lines@.take(i + 1));
        }
        i += 1;
    }
    proof {
        assert(copy@ =~= logs.lines@);
        assert(forall|i: int| 0 <= i < copy@.len() ==> (#[trigger] copy@[i]@).len() >= 17);
    }
    let ghost cv = copy@;
    let r = sort_desc(copy);
    proof {
        r@.to_multiset_ensures();
        cv.to_multiset_ensures();
        assert(r@.len() == old(logs).lines@.len());
        assert forall|x: String| r@.contains(x) <==> old(logs).lines@.contains(x) by {
            assert(r@.to_multiset().count(x) == cv.to_multiset().count(x));
        }
    }
    r
}

/// Chronological order on two local stamps, most significant field first.
pub open spec fn chrono_le(
    ya: int, ma: int, da: int, ha: int, mia: int,
    yb: int, mb: int, db: int, hb: int, mib: int,
) -> bool {
    if ya != yb { ya < yb }
    else if ma != mb { ma < mb }
    else if da != db { da < db }
    else if ha != hb { ha < hb }
    else { mia <= mib }
}

proof fn lemma_digit_char_value(d: int)
    requires 0 <= d < 10,
    ensures crate::strfmt::digit_char(d) as u32 == 48 + d,
{
}

/// On equal-width zero-padded renderings, text order is number order.
#[verifier::rlimit(100)]
proof fn lemma_two_digits_le(m: int, n: int)
    requires 0 <= m < 100, 0 <= n < 100,
    ensures lex_le(crate::strfmt::two_digits(m), crate::strfmt::two_digits(n)) == (m <= n),
{
    lemma_digit_char_value(m / 10);
    lemma_digit_char_value(m % 10);
    lemma_digit_char_value(n / 10);
    lemma_digit_char_value(n % 10);
    let a = crate::strfmt::two_digits(m);
    let b = crate::strfmt::two_digits(n);
    assert(a.drop_first() =~= seq![crate::strfmt::digit_char(m % 10)]);
    assert(b.drop_first() =~= seq![crate::strfmt::digit_char(n % 10)]);
    reveal_with_fuel(lex_le, 3);
}

#[verifier::rlimit(100)]
proof fn lemma_four_digits_le(m: int, n: int)
    requires 0 <= m < 10000, 0 <= n < 10000,
    ensures lex_le(crate::strfmt::four_digits(m), crate::strfmt::four_digits(n)) == (m <= n),
{
    lemma_digit_char_value(m / 1000);
    lemma_digit_char_value((m / 100) % 10);
    lemma_digit_char_value((m / 10) % 10);
    lemma_digit_char_value(m % 10);
    lemma_digit_char_value(n / 1000);
    lemma_digit_char_value((n / 100) % 10);
    lemma_digit_char_value((n / 10) % 10);
    lemma_digit_char_value(n % 10);
    let a = crate::strfmt::four_digits(m);
    let b = crate::strfmt::four_digits(n);
    assert(a.drop_first() =~= seq![
        crate::strfmt::digit_char((m / 100) % 10),
        crate::strfmt::digit_char((m / 10) % 10),
        crate::strfmt::digit_char(m % 10),
    ]);
    assert(a.drop_first().drop_first() =~= seq![
        crate::strfmt::digit_char((m / 10) % 10),
        crate::strfmt::digit_char(m % 10),
    ]);
    assert(a.drop_first().drop_first().drop_first() =~= seq![crate::strfmt::digit_char(m % 10)]);
    assert(b.drop_first() =~= seq![
        crate::strfmt::digit_char((n / 100) % 10),
        crate::strfmt::digit_char((n / 10) % 10),
        crate::strfmt::digit_char(n % 10),
    ]);
    assert(b.drop_first().drop_first() =~= seq![
        crate::strfmt::digit_char((n / 10) % 10),
        crate::strfmt::digit_char(n % 10),
    ]);
    assert(b.drop_first().drop_first().drop_first() =~= seq![crate::strfmt::digit_char(n % 10)]);
    reveal_with_fuel(lex_le, 5);
}

/// Sharing a prefix, two sequences order as their suffixes do.
proof fn lemma_lex_le_common_prefix(p: Seq<char>, a: Seq<char>, b: Seq<char>)
    ensures lex_le(p + a, p + b) == lex_le(a, b),
    decreases p.len(),
{
    if p.len() == 0 {
        assert(p + a =~= a);
        assert(p + b =~= b);
    } else {
        assert((p + a).drop_first() =~= p.drop_first() + a);
        assert((p + b).drop_first() =~= p.drop_first() + b);
        lemma_lex_le_common_prefix(p.drop_first(), a, b);
    }
}

/// When equally long leading segments are strictly ordered, they decide the
/// order of the whole sequences, whatever follows.
proof fn lemma_lex_le_strict_segment(a: Seq<char>, b: Seq<char>, s: Seq<char>, t: Seq<char>)
    requires
        a.len() == b.len(),
        lex_le(a, b),
        !lex_le(b, a),
    ensures
        lex_le(a + s, b + t),
        !lex_le(b + t, a + s),
    decreases a.len(),
{
    if a.len() == 0 {
    } else if (a[0] as u32) < (b[0] as u32) {
    } else {
        assert((a + s).drop_first() =~= a.drop_first() + s);
        assert((b + t).drop_first() =~= b.drop_first() + t);
        lemma_lex_le_strict_segment(a.drop_first(), b.drop_first(), s, t);
    }
}

/// The data-model invariant of the log line: because the stamp is rendered
/// fixed-width with zero padding, comparing two stamps as text is the same
/// as comparing them chronologically, field by field.
#[verifier::rlimit(100)]
pub proof fn lemma_stamp_order_is_chronological(
    ya: int, ma: int, da: int, ha: int, mia: int,
    yb: int, mb: int, db: int, hb: int, mib: int,
)
    requires
        0 <= ya < 10000, 0 <= ma < 100, 0 <= da < 100, 0 <= ha < 100, 0 <= mia < 100,
        0 <= yb < 10000, 0 <= mb < 100, 0 <= db < 100, 0 <= hb < 100, 0 <= mib < 100,
    ensures
        lex_le(
            crate::strfmt::stamp_chars(ya, ma, da, ha, mia),
            crate::strfmt::stamp_chars(yb, mb, db, hb, mib),
        ) == chrono_le(ya, ma, da, ha, mia, yb, mb, db, hb, mib),
{
    let fy_a = crate::strfmt::four_digits(ya);
    let fy_b = crate::strfmt::four_digits(yb);
    let rest_a = seq!['-'] + crate::strfmt::two_digits(ma) + seq!['-']
        + crate::strfmt::two_digits(da) + seq![' '] + crate::strfmt::two_digits(ha) + seq![':']
        + crate::strfmt::two_digits(mia);
    let rest_b = seq!['-'] + crate::strfmt::two_digits(mb) + seq!['-']
        + crate::strfmt::two_digits(db) + seq![' '] + crate::strfmt::two_digits(hb) + seq![':']
        + crate::strfmt::two_digits(mib);
    assert(crate::strfmt::stamp_chars(ya, ma, da, ha, mia) =~= fy_a + rest_a);
    assert(crate::strfmt::stamp_chars(yb, mb, db, hb, mib) =~= fy_b + rest_b);
    if ya != yb {
        lemma_four_digits_le(ya, yb);
        lemma_four_digits_le(yb, ya);
        if ya < yb {
            lemma_lex_le_strict_segment(fy_a, fy_b, rest_a, rest_b);
        } else {
            lemma_lex_le_strict_segment(fy_b, fy_a, rest_b, rest_a);
        }
    } else {
        lemma_lex_le_common_prefix(fy_a + seq!['-'], rest_a.skip(1), rest_b.skip(1));
        assert((fy_a + seq!['-']) + rest_a.skip(1) =~= fy_a + rest_a);
        assert((fy_a + seq!['-']) + rest_b.skip(1) =~= fy_b + rest_b);
        lemma_stamp_tail_order(ma, da, ha, mia, mb, db, hb, mib);
        assert(rest_a.skip(1) =~= crate::strfmt::two_digits(ma) + seq!['-']
            + crate::strfmt::two_digits(da) + seq![' '] + crate::strfmt::two_digits(ha)
            + seq![':'] + crate::strfmt::two_digits(mia));
        assert(rest_b.skip(1) =~= crate::strfmt::two_digits(mb) + seq!['-']
            + crate::strfmt::two_digits(db) + seq![' '] + crate::strfmt::two_digits(hb)
            + seq![':'] + crate::strfmt::two_digits(mib));
    }
}

/// The tail of the stamp, month through minute, also orders as text exactly
/// as it orders chronologically.
#[verifier::rlimit(100)]
proof fn lemma_stamp_tail_order(
    ma: int, da: int, ha: int, mia: int,
    mb: int, db: int, hb: int, mib: int,
)
    requires
        0 <= ma < 100, 0 <= da < 100, 0 <= ha < 100, 0 <= mia < 100,
        0 <= mb < 100, 0 <= db < 100, 0 <= hb < 100, 0 <= mib < 100,
    ensures
        lex_le(
            crate::strfmt::two_digits(ma) + seq!['-'] + crate::strfmt::two_digits(da) + seq![' ']
                + crate::strfmt::two_digits(ha) + seq![':'] + crate::strfmt::two_digits(mia),
            crate::strfmt::two_digits(mb) + seq!['-'] + crate::strfmt::two_digits(db) + seq![' ']
                + crate::strfmt::two_digits(hb) + seq![':'] + crate::strfmt::two_digits(mib),
        ) == (if ma != mb { ma < mb } else if da != db { da < db } else if ha != hb { ha < hb }
            else { mia <= mib }),
{
    let ta = seq!['-'] + crate::strfmt::two_digits(da) + seq![' '] + crate::strfmt::two_digits(ha)
        + seq![':'] + crate::strfmt::two_digits(mia);
    let tb = seq!['-'] + crate::strfmt::two_digits(db) + seq![' '] + crate::strfmt::two_digits(hb)
        + seq![':'] + crate::strfmt::two_digits(mib);
    let la = crate::strfmt::two_digits(ma) + seq!['-'] + crate::strfmt::two_digits(da) + seq![' ']
        + crate::strfmt::two_digits(ha) + seq![':'] + crate::strfmt::two_digits(mia);
    let lb = crate::strfmt::two_digits(mb) + seq!['-'] + crate::strfmt::two_digits(db) + seq![' ']
        + crate::strfmt::two_digits(hb) + seq![':'] + crate::strfmt::two_digits(mib);
    assert(la =~= crate::strfmt::two_digits(ma) + ta);
    assert(lb =~= crate::strfmt::two_digits(mb) + tb);
    if ma != mb {
        lemma_two_digits_le(ma, mb);
        lemma_two_digits_le(mb, ma);
        if ma < mb {
            lemma_lex_le_strict_segment(crate::strfmt::two_digits(ma), crate::strfmt::two_digits(mb), ta, tb);
        } else {
            lemma_lex_le_strict_segment(crate::strfmt::two_digits(mb), crate::strfmt::two_digits(ma), tb, ta);
        }
    } else {
        lemma_lex_le_common_prefix(
            crate::strfmt::two_digits(ma) + seq!['-'],
            ta.skip(1),
            tb.skip(1),
        );
        assert((crate::strfmt::two_digits(ma) + seq!['-']) + ta.skip(1) =~= la);
        assert((crate::strfmt::two_digits(ma) + seq!['-']) + tb.skip(1) =~= lb);
        lemma_stamp_time_order(da, ha, mia, db, hb, mib);
        assert(ta.skip(1) =~= crate::strfmt::two_digits(da) + seq![' ']
            + crate::strfmt::two_digits(ha) + seq![':'] + crate::strfmt::two_digits(mia));
        assert(tb.skip(1) =~= crate::strfmt::two_digits(db) + seq![' ']
            + crate::strfmt::two_digits(hb) + seq![':'] + crate::strfmt::two_digits(mib));
    }
}

/// Day, hour and minute order as text exactly as they order in time.
#[verifier::rlimit(100)]
proof fn lemma_stamp_time_order(da: int, ha: int, mia: int, db: int, hb: int, mib: int)
    requires
        0 <= da < 100, 0 <= ha < 100, 0 <= mia < 100,
        0 <= db < 100, 0 <= hb < 100, 0 <= mib < 100,
    ensures
        lex_le(
            crate::strfmt::two_digits(da) + seq![' '] + crate::strfmt::two_digits(ha) + seq![':']
                + crate::strfmt::two_digits(mia),
            crate::strfmt::two_digits(db) + seq![' '] + crate::strfmt::two_digits(hb) + seq![':']
                + crate::strfmt::two_digits(mib),
        ) == (if da != db { da < db } else if ha != hb { ha < hb } else { mia <= mib }),
{
    let ta = seq![' '] + crate::strfmt::two_digits(ha) + seq![':'] + crate::strfmt::two_digits(mia);
    let tb = seq![' '] + crate::strfmt::two_digits(hb) + seq![':'] + crate::strfmt::two_digits(mib);
    let la = crate::strfmt::two_digits(da) + seq![' '] + crate::strfmt::two_digits(ha) + seq![':']
        + crate::strfmt::two_digits(mia);
    let lb = crate::strfmt::two_digits(db) + seq![' '] + crate::strfmt::two_digits(hb) + seq![':']
        + crate::strfmt::two_digits(mib);
    assert(la =~= crate::strfmt::two_digits(da) + ta);
    assert(lb =~= crate::strfmt::two_digits(db) + tb);
    if da != db {
        lemma_two_digits_le(da, db);
        lemma_two_digits_le(db, da);
        if da < db {
            lemma_lex_le_strict_segment(crate::strfmt::two_digits(da), crate::strfmt::two_digits(db), ta, tb);
        } else {
            lemma_lex_le_strict_segment(crate::strfmt::two_digits(db), crate::strfmt::two_digits(da), tb, ta);
        }
    } else {
        lemma_lex_le_common_prefix(
            crate::strfmt::two_digits(da) + seq![' '],
            ta.skip(1),
            tb.skip(1),
        );
        assert((crate::strfmt::two_digits(da) + seq![' ']) + ta.skip(1) =~= la);
        assert((crate::strfmt::two_digits(da) + seq![' ']) + tb.skip(1) =~= lb);
        lemma_stamp_minute_order(ha, mia, hb, mib);
        assert(ta.skip(1) =~= crate::strfmt::two_digits(ha) + seq![':']
            + crate::strfmt::two_digits(mia));
        assert(tb.skip(1) =~= crate::strfmt::two_digits(hb) + seq![':']
            + crate::strfmt::two_digits(mib));
    }
}

/// Hour and minute order as text exactly as they order in time.
#[verifier::rlimit(100)]
proof fn lemma_stamp_minute_order(ha: int, mia: int, hb: int, mib: int)
    requires
        0 <= ha < 100, 0 <= mia < 100, 0 <= hb < 100, 0 <= mib < 100,
    ensures
        lex_le(
            crate::strfmt::two_digits(ha) + seq![':'] + crate::strfmt::two_digits(mia),
            crate::strfmt::two_digits(hb) + seq![':'] + crate::strfmt::two_digits(mib),
        ) == (if ha != hb { ha < hb } else { mia <= mib }),
{
    let ta = seq![':'] + crate::strfmt::two_digits(mia);
    let tb = seq![':'] + crate::strfmt::two_digits(mib);
    let la = crate::strfmt::two_digits(ha) + seq![':'] + crate::strfmt::two_digits(mia);
    let lb = crate::strfmt::two_digits(hb) + seq![':'] + crate::strfmt::two_digits(mib);
    assert(la =~= crate::strfmt::two_digits(ha) + ta);
    assert(lb =~= crate::strfmt::two_digits(hb) + tb);
    if ha != hb {
        lemma_two_digits_le(ha, hb);
        lemma_two_digits_le(hb, ha);
        if ha < hb {
            lemma_lex_le_strict_segment(crate::strfmt::two_digits(ha), crate::strfmt::two_digits(hb), ta, tb);
        } else {
            lemma_lex_le_strict_segment(crate::strfmt::two_digits(hb), crate::strfmt::two_digits(ha), tb, ta);
        }
    } else {
        lemma_lex_le_common_prefix(
            crate::strfmt::two_digits(ha) + seq![':'],
            ta.skip(1),
            tb.skip(1),
        );
        assert((crate::strfmt::two_digits(ha) + seq![':']) + ta.skip(1) =~= la);
        assert((crate::strfmt::two_digits(ha) + seq![':']) + tb.skip(1) =~= lb);
        lemma_two_digits_le(mia, mib);
        assert(ta.skip(1) =~= crate::strfmt::two_digits(mia));
        assert(tb.skip(1) =~= crate::strfmt::two_digits(mib));
    }
}

/// Corollary for whole log lines: comparing two formatted lines by their
/// stamp substrings, as the resorter does, compares the commits they render
/// chronologically.
pub proof fn lemma_digest_order_is_chronological(
    ya: int, ma: int, da: int, ha: int, mia: int, sa: Seq<char>,
    yb: int, mb: int, db: int, hb: int, mib: int, sb: Seq<char>,
)
    requires
        0 <= ya < 10000, 0 <= ma < 100, 0 <= da < 100, 0 <= ha < 100, 0 <= mia < 100,
        0 <= yb < 10000, 0 <= mb < 100, 0 <= db < 100, 0 <= hb < 100, 0 <= mib < 100,
    ensures
        lex_le(
            stamp_key(crate::strfmt::line_chars(ya, ma, da, ha, mia, sa)),
            stamp_key(crate::strfmt::line_chars(yb, mb, db, hb, mib, sb)),
        ) == chrono_le(ya, ma, da, ha, mia, yb, mb, db, hb, mib),
{
    crate::strfmt::lemma_line_shape(ya, ma, da, ha, mia, sa);
    crate::strfmt::lemma_line_shape(yb, mb, db, hb, mib, sb);
    lemma_stamp_order_is_chronological(ya, ma, da, ha, mia, yb, mb, db, hb, mib);
}

} // verus!
