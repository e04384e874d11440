//! URL slugs for school names: lowercase ASCII letters and digits in runs
//! joined by single dashes.

use vstd::prelude::*;
use crate::text::{
    ascii_lowercase_seq, ascii_uppercase_seq, chars_of, is_ascii_alphanumeric, is_ascii_upper, is_ascii_text,
    spec_is_ascii_alphanumeric, spec_is_white_space, string_of, trim, trim_end_spec,
    trim_spec, trim_start_spec, lowercase_of,
};

verus! {

/// A character of the lowered name as the slug sees it: ASCII letters and
/// digits stay, everything else becomes a separator.
pub open spec fn slug_char(c: char) -> char {
    if spec_is_ascii_alphanumeric(c) {
        c
    } else {
        '-'
    }
}

pub open spec fn slug_chars(s: Seq<char>) -> Seq<char> {
    s.map_values(|c: char| slug_char(c))
}

/// The pieces of `s` between dashes, as `str::split('-')` yields them
/// (empty pieces included; always at least one piece).
pub open spec fn split_dash(s: Seq<char>) -> Seq<Seq<char>>
    decreases s.len(),
{
    if s.len() == 0 {
        seq![Seq::<char>::empty()]
    } else {
        let parts = split_dash(s.drop_last());
        if s.last() == '-' {
            parts.push(Seq::<char>::empty())
        } else {
            parts.update(parts.len() - 1, parts.last().push(s.last()))
        }
    }
}

/// The non-empty pieces, in order.
pub open spec fn nonempty_parts(p: Seq<Seq<char>>) -> Seq<Seq<char>>
    decreases p.len(),
{
    if p.len() == 0 {
        p
    } else {
        let rest = nonempty_parts(p.drop_last());
        if p.last().len() > 0 {
            rest.push(p.last())
        } else {
            rest
        }
    }
}

/// The pieces joined with one dash between neighbours.
pub open spec fn join_dash(p: Seq<Seq<char>>) -> Seq<char>
    decreases p.len(),
{
    if p.len() == 0 {
        Seq::<char>::empty()
    } else if p.len() == 1 {
        p[0]
    } else {
        join_dash(p.drop_last()) + seq!['-'] + p.last()
    }
}

/// The slug of an already lowercased name: map to slug characters, split at
/// dashes, drop the empty pieces, join with dashes.
pub open spec fn slug_of(lowered: Seq<char>) -> Seq<char> {
    join_dash(nonempty_parts(split_dash(slug_chars(lowered))))
}

/// The slug of a school name: trimmed, lowercased, then `slug_of`.
pub open spec fn slugify_spec(value: Seq<char>) -> Seq<char> {
    slug_of(lowercase_of(trim_spec(value)))
}

/// A well-formed slug: only ASCII letters, digits and dashes; no dash at
/// either end and never two dashes in a row.
pub open spec fn is_slug(s: Seq<char>) -> bool {
    &&& forall|i: int| 0 <= i < s.len() ==> #[trigger] s[i] == '-' || spec_is_ascii_alphanumeric(s[i])
    &&& s.len() > 0 ==> s[0] != '-' && s.last() != '-'
    &&& forall|i: int| 0 <= i < s.len() - 1 ==> !(#[trigger] s[i] == '-' && s[i + 1] == '-')
}

pub open spec fn dash_free(s: Seq<char>) -> bool {
    forall|i: int| 0 <= i < s.len() ==> #[trigger] s[i] != '-'
}

pub open spec fn alnum_only(s: Seq<char>) -> bool {
    forall|i: int| 0 <= i < s.len() ==> spec_is_ascii_alphanumeric(#[trigger] s[i])
}

pub open spec fn all_nonempty(p: Seq<Seq<char>>) -> bool {
    forall|i: int| 0 <= i < p.len() ==> (#[trigger] p[i]).len() > 0
}

proof fn lemma_split_len(s: Seq<char>)
    ensures
        split_dash(s).len() >= 1,
    decreases s.len(),
{
    if s.len() > 0 {
        lemma_split_len(s.drop_last());
    }
}

proof fn lemma_nonempty_push(p: Seq<Seq<char>>, x: Seq<char>)
    ensures
        nonempty_parts(p.push(x)) == if x.len() > 0 {
            nonempty_parts(p).push(x)
        } else {
            nonempty_parts(p)
        },
{
    assert(p.push(x).drop_last() =~= p);
}

proof fn lemma_nonempty_all(p: Seq<Seq<char>>)
    ensures
        all_nonempty(nonempty_parts(p)),
        forall|i: int|
            0 <= i < nonempty_parts(p).len() ==> exists|j: int|
                0 <= j < p.len() && #[trigger] nonempty_parts(p)[i] == p[j],
    decreases p.len(),
{
    if p.len() > 0 {
        lemma_nonempty_all(p.drop_last());
        let rest = nonempty_parts(p.drop_last());
        let r = nonempty_parts(p);
        assert forall|i: int| 0 <= i < r.len() implies exists|j: int|
            0 <= j < p.len() && #[trigger] r[i] == p[j] by {
            if i < rest.len() {
                let j = choose|j: int| 0 <= j < p.drop_last().len() && rest[i] == p.drop_last()[j];
                assert(r[i] == p[j]);
            } else {
                assert(r[i] == p[p.len() - 1]);
            }
        }
    }
}

proof fn lemma_nonempty_id(p: Seq<Seq<char>>)
    requires
        all_nonempty(p),
    ensures
        nonempty_parts(p) == p,
    decreases p.len(),
{
    if p.len() > 0 {
        lemma_nonempty_id(p.drop_last());
        assert(p.drop_last().push(p.last()) =~= p);
    }
}

proof fn lemma_join_push(p: Seq<Seq<char>>, x: Seq<char>)
    ensures
        join_dash(p.push(x)) == if p.len() == 0 {
            x
        } else {
            join_dash(p) + seq!['-'] + x
        },
{
    assert(p.push(x).drop_last() =~= p);
}

proof fn lemma_join_empty_iff(p: Seq<Seq<char>>)
    requires
        all_nonempty(p),
    ensures
        (join_dash(p).len() == 0) <==> (p.len() == 0),
    decreases p.len(),
{
    if p.len() > 1 {
        assert(p.last() == p[p.len() - 1]);
    } else if p.len() == 1 {
        assert(p[0].len() > 0);
    }
}

proof fn lemma_split_dash_free(s: Seq<char>)
    ensures
        forall|i: int| 0 <= i < split_dash(s).len() ==> dash_free(#[trigger] split_dash(s)[i]),
    decreases s.len(),
{
    if s.len() > 0 {
        lemma_split_dash_free(s.drop_last());
        lemma_split_len(s.drop_last());
        let parts = split_dash(s.drop_last());
        if s.last() != '-' {
            let np = parts.last().push(s.last());
            assert(dash_free(parts.last()));
            assert(dash_free(np));
        }
    }
}

proof fn lemma_split_of_dash_free(s: Seq<char>)
    requires
        dash_free(s),
    ensures
        split_dash(s) == seq![s],
    decreases s.len(),
{
    if s.len() > 0 {
        lemma_split_of_dash_free(s.drop_last());
        assert(s.last() == s[s.len() - 1]);
        assert(s.drop_last().push(s.last()) =~= s);
        assert(split_dash(s) =~= seq![s]);
    } else {
        assert(s =~= Seq::<char>::empty());
    }
}

proof fn lemma_split_concat(a: Seq<char>, b: Seq<char>)
    ensures
        split_dash(a + seq!['-'] + b) == split_dash(a) + split_dash(b),
    decreases b.len(),
{
    let ab = a + seq!['-'] + b;
    if b.len() == 0 {
        assert(ab.drop_last() =~= a);
        assert(split_dash(a).push(Seq::<char>::empty()) =~= split_dash(a) + split_dash(b));
    } else {
        let b1 = b.drop_last();
        lemma_split_concat(a, b1);
        lemma_split_len(b1);
        assert(ab.drop_last() =~= a + seq!['-'] + b1);
        assert(ab.last() == b.last());
        let left = split_dash(a);
        let right = split_dash(b1);
        if b.last() == '-' {
            assert((left + right).push(Seq::<char>::empty()) =~= left + right.push(
                Seq::<char>::empty(),
            ));
        } else {
            let lr = left + right;
            assert(lr.last() == right.last());
            assert(lr.update(lr.len() - 1, lr.last().push(b.last())) =~= left + right.update(
                right.len() - 1,
                right.last().push(b.last()),
            ));
        }
    }
}

proof fn lemma_split_join(p: Seq<Seq<char>>)
    requires
        p.len() >= 1,
        forall|i: int| 0 <= i < p.len() ==> dash_free(#[trigger] p[i]),
    ensures
        split_dash(join_dash(p)) == p,
    decreases p.len(),
{
    if p.len() == 1 {
        lemma_split_of_dash_free(p[0]);
        assert(p =~= seq![p[0]]);
    } else {
        let q = p.drop_last();
        lemma_split_join(q);
        lemma_split_concat(join_dash(q), p.last());
        lemma_split_of_dash_free(p.last());
        assert(q + seq![p.last()] =~= p);
    }
}

proof fn lemma_join_is_slug(p: Seq<Seq<char>>)
    requires
        forall|i: int| 0 <= i < p.len() ==> alnum_only(#[trigger] p[i]),
        all_nonempty(p),
    ensures
        is_slug(join_dash(p)),
    decreases p.len(),
{
    if p.len() == 1 {
        assert(alnum_only(p[0]));
        assert(p[0].len() > 0);
    } else if p.len() > 1 {
        let q = p.drop_last();
        let x = p.last();
        lemma_join_is_slug(q);
        lemma_join_empty_iff(q);
        assert(alnum_only(x));
        assert(x.len() > 0);
        let j = join_dash(q);
        let s = j + seq!['-'] + x;
        assert(j.len() > 0);
        assert forall|i: int| 0 <= i < s.len() implies #[trigger] s[i] == '-'
            || spec_is_ascii_alphanumeric(s[i]) by {
            if i < j.len() {
                assert(s[i] == j[i]);
            } else if i > j.len() {
                assert(s[i] == x[i - j.len() - 1]);
            }
        }
        assert forall|i: int| 0 <= i < s.len() - 1 implies !(#[trigger] s[i] == '-' && s[i + 1]
            == '-') by {
            if i < j.len() - 1 {
                assert(s[i] == j[i] && s[i + 1] == j[i + 1]);
            } else if i == j.len() - 1 {
                assert(s[i] == j.last());
            } else if i == j.len() {
                assert(s[i + 1] == x[0]);
            } else {
                assert(s[i] == x[i - j.len() - 1]);
            }
        }
        assert(s[0] == j[0]);
        assert(s.last() == x.last());
    }
}

proof fn lemma_slug_parts(lowered: Seq<char>)
    ensures
        all_nonempty(nonempty_parts(split_dash(slug_chars(lowered)))),
        forall|i: int|
            0 <= i < nonempty_parts(split_dash(slug_chars(lowered))).len() ==> alnum_only(
                #[trigger] nonempty_parts(split_dash(slug_chars(lowered)))[i],
            ),
{
    let m = slug_chars(lowered);
    let sp = split_dash(m);
    let q = nonempty_parts(sp);
    lemma_nonempty_all(sp);
    lemma_split_dash_free(m);
    lemma_split_chars(m);
    assert forall|i: int| 0 <= i < q.len() implies alnum_only(#[trigger] q[i]) by {
        let j = choose|j: int| 0 <= j < sp.len() && q[i] == sp[j];
        assert(dash_free(sp[j]));
        assert forall|k: int| 0 <= k < q[i].len() implies spec_is_ascii_alphanumeric(
            #[trigger] q[i][k],
        ) by {
            assert(q[i][k] == sp[j][k]);
            assert(sp[j][k] == '-' || spec_is_ascii_alphanumeric(sp[j][k]));
        }
    }
}

/// Every character of every piece is a character of `s`.
proof fn lemma_split_chars(s: Seq<char>)
    requires
        forall|i: int| 0 <= i < s.len() ==> #[trigger] s[i] == '-' || spec_is_ascii_alphanumeric(s[i]),
    ensures
        forall|i: int, k: int|
            0 <= i < split_dash(s).len() && 0 <= k < split_dash(s)[i].len() ==> (
            #[trigger] split_dash(s)[i][k] == '-' || spec_is_ascii_alphanumeric(split_dash(s)[i][k])),
    decreases s.len(),
{
    if s.len() > 0 {
        let t = s.drop_last();
        assert forall|i: int| 0 <= i < t.len() implies #[trigger] t[i] == '-'
            || spec_is_ascii_alphanumeric(t[i]) by {
            assert(t[i] == s[i]);
        }
        lemma_split_chars(t);
        lemma_split_len(t);
        assert(s.last() == s[s.len() - 1]);
    }
}

/// A slug made by `slug_of` is well formed.
pub proof fn lemma_slug_well_formed(lowered: Seq<char>)
    ensures
        is_slug(slug_of(lowered)),
{
    lemma_slug_parts(lowered);
    lemma_join_is_slug(nonempty_parts(split_dash(slug_chars(lowered))));
}

/// A well-formed slug built from pieces is its own slug.
proof fn lemma_slug_of_join(q: Seq<Seq<char>>)
    requires
        forall|i: int| 0 <= i < q.len() ==> alnum_only(#[trigger] q[i]),
        all_nonempty(q),
    ensures
        slug_of(join_dash(q)) == join_dash(q),
{
    let s = join_dash(q);
    lemma_join_is_slug(q);
    assert(slug_chars(s) =~= s);
    if q.len() == 0 {
        assert(split_dash(s) =~= seq![Seq::<char>::empty()]);
        lemma_nonempty_push(Seq::<Seq<char>>::empty(), Seq::<char>::empty());
        assert(seq![Seq::<char>::empty()] =~= Seq::<Seq<char>>::empty().push(Seq::<char>::empty()));
    } else {
        assert forall|i: int| 0 <= i < q.len() implies dash_free(#[trigger] q[i]) by {
            assert(alnum_only(q[i]));
        }
        lemma_split_join(q);
        lemma_nonempty_id(q);
    }
}

/// Taking the slug of a slug changes nothing.
pub proof fn lemma_slug_idempotent(lowered: Seq<char>)
    ensures
        slug_of(slug_of(lowered)) == slug_of(lowered),
{
    lemma_slug_parts(lowered);
    lemma_slug_of_join(nonempty_parts(split_dash(slug_chars(lowered))));
}

/// Whether no character of `s` is an ASCII capital letter.
pub open spec fn no_ascii_upper(s: Seq<char>) -> bool {
    forall|i: int| 0 <= i < s.len() ==> !is_ascii_upper(#[trigger] s[i])
}

/// Whether some character of `s` is an ASCII letter or digit.
pub open spec fn has_ascii_alphanumeric(s: Seq<char>) -> bool {
    exists|i: int| 0 <= i < s.len() && spec_is_ascii_alphanumeric(#[trigger] s[i])
}

/// Every character of every piece satisfies what every character of `s` does.
proof fn lemma_split_chars_pred(s: Seq<char>, p: spec_fn(char) -> bool)
    requires
        forall|i: int| 0 <= i < s.len() ==> p(#[trigger] s[i]),
    ensures
        forall|i: int, k: int|
            0 <= i < split_dash(s).len() && 0 <= k < split_dash(s)[i].len() ==> p(
                #[trigger] split_dash(s)[i][k],
            ),
    decreases s.len(),
{
    if s.len() > 0 {
        let t = s.drop_last();
        assert forall|i: int| 0 <= i < t.len() implies p(#[trigger] t[i]) by {
            assert(t[i] == s[i]);
        }
        lemma_split_chars_pred(t, p);
        lemma_split_len(t);
        assert(s.last() == s[s.len() - 1]);
    }
}

/// Every character of the join satisfies `p` when every piece's does and `p('-')`.
proof fn lemma_join_chars_pred(q: Seq<Seq<char>>, p: spec_fn(char) -> bool)
    requires
        p('-'),
        forall|i: int, k: int| 0 <= i < q.len() && 0 <= k < q[i].len() ==> p(#[trigger] q[i][k]),
    ensures
        forall|k: int| 0 <= k < join_dash(q).len() ==> p(#[trigger] join_dash(q)[k]),
    decreases q.len(),
{
    if q.len() == 1 {
        assert forall|k: int| 0 <= k < join_dash(q).len() implies p(#[trigger] join_dash(q)[k]) by {
            assert(q[0][k] == join_dash(q)[k]);
        }
    } else if q.len() > 1 {
        let r = q.drop_last();
        assert forall|i: int, k: int| 0 <= i < r.len() && 0 <= k < r[i].len() implies p(
            #[trigger] r[i][k],
        ) by {
            assert(r[i] == q[i]);
        }
        lemma_join_chars_pred(r, p);
        let j = join_dash(r);
        let x = q.last();
        let s = j + seq!['-'] + x;
        assert forall|k: int| 0 <= k < s.len() implies p(#[trigger] s[k]) by {
            if k < j.len() {
                assert(s[k] == j[k]);
            } else if k > j.len() {
                assert(s[k] == x[k - j.len() - 1]);
                assert(x == q[q.len() - 1]);
            }
        }
    }
}

/// The non-empty pieces keep only characters of the pieces.
proof fn lemma_nonempty_chars_pred(p: Seq<Seq<char>>, pr: spec_fn(char) -> bool)
    requires
        forall|i: int, k: int| 0 <= i < p.len() && 0 <= k < p[i].len() ==> pr(#[trigger] p[i][k]),
    ensures
        forall|i: int, k: int|
            0 <= i < nonempty_parts(p).len() && 0 <= k < nonempty_parts(p)[i].len() ==> pr(
                #[trigger] nonempty_parts(p)[i][k],
            ),
{
    lemma_nonempty_all(p);
    assert forall|i: int, k: int|
        0 <= i < nonempty_parts(p).len() && 0 <= k < nonempty_parts(p)[i].len() implies pr(
        #[trigger] nonempty_parts(p)[i][k],
    ) by {
        let j = choose|j: int| 0 <= j < p.len() && nonempty_parts(p)[i] == p[j];
        assert(nonempty_parts(p)[i][k] == p[j][k]);
    }
}

/// A slug has no ASCII capital letter when the lowered name has none.
pub proof fn lemma_slug_keeps_no_upper(lowered: Seq<char>)
    requires
        no_ascii_upper(lowered),
    ensures
        no_ascii_upper(slug_of(lowered)),
{
    let pr = |c: char| !is_ascii_upper(c);
    let m = slug_chars(lowered);
    assert forall|i: int| 0 <= i < m.len() implies pr(#[trigger] m[i]) by {
        assert(m[i] == slug_char(lowered[i]));
    }
    lemma_split_chars_pred(m, pr);
    lemma_nonempty_chars_pred(split_dash(m), pr);
    lemma_join_chars_pred(nonempty_parts(split_dash(m)), pr);
    assert forall|i: int| 0 <= i < slug_of(lowered).len() implies !is_ascii_upper(
        #[trigger] slug_of(lowered)[i],
    ) by {
        assert(pr(slug_of(lowered)[i]));
    }
}

/// Whether every piece is empty.
pub open spec fn all_empty(p: Seq<Seq<char>>) -> bool {
    forall|i: int| 0 <= i < p.len() ==> (#[trigger] p[i]).len() == 0
}

proof fn lemma_nonempty_parts_empty_iff(p: Seq<Seq<char>>)
    ensures
        (nonempty_parts(p).len() == 0) <==> all_empty(p),
    decreases p.len(),
{
    if p.len() > 0 {
        lemma_nonempty_parts_empty_iff(p.drop_last());
        assert(p.last() == p[p.len() - 1]);
        if all_empty(p) {
            assert forall|i: int| 0 <= i < p.drop_last().len() implies (#[trigger] p.drop_last()[i]).len() == 0 by {
                assert(p.drop_last()[i] == p[i]);
            }
        }
        if all_empty(p.drop_last()) && p.last().len() == 0 {
            assert forall|i: int| 0 <= i < p.len() implies (#[trigger] p[i]).len() == 0 by {
                if i < p.len() - 1 {
                    assert(p[i] == p.drop_last()[i]);
                }
            }
        }
    }
}

proof fn lemma_split_all_empty_iff(s: Seq<char>)
    ensures
        all_empty(split_dash(s)) <==> dash_only(s),
    decreases s.len(),
{
    if s.len() > 0 {
        let t = s.drop_last();
        lemma_split_all_empty_iff(t);
        lemma_split_len(t);
        let pt = split_dash(t);
        assert(s.last() == s[s.len() - 1]);
        if s.last() == '-' {
            let ps = pt.push(Seq::<char>::empty());
            if dash_only(t) {
                assert forall|i: int| 0 <= i < s.len() implies #[trigger] s[i] == '-' by {
                    if i < t.len() {
                        assert(s[i] == t[i]);
                    }
                }
                assert forall|i: int| 0 <= i < ps.len() implies (#[trigger] ps[i]).len() == 0 by {
                    if i < pt.len() {
                        assert(ps[i] == pt[i]);
                    }
                }
            } else {
                let k = choose|k: int| 0 <= k < t.len() && t[k] != '-';
                assert(s[k] == t[k]);
                let w = choose|w: int| 0 <= w < pt.len() && pt[w].len() != 0;
                assert(ps[w] == pt[w]);
            }
        } else {
            let ps = split_dash(s);
            assert(ps[ps.len() - 1].len() > 0);
        }
    }
}

pub open spec fn dash_only(s: Seq<char>) -> bool {
    forall|i: int| 0 <= i < s.len() ==> #[trigger] s[i] == '-'
}

/// A slug is empty exactly when the lowered name has no ASCII letter or digit.
pub proof fn lemma_slug_empty_iff(lowered: Seq<char>)
    ensures
        (slug_of(lowered).len() == 0) <==> !has_ascii_alphanumeric(lowered),
{
    let m = slug_chars(lowered);
    let sp = split_dash(m);
    lemma_split_all_empty_iff(m);
    lemma_nonempty_parts_empty_iff(sp);
    lemma_nonempty_all(sp);
    lemma_join_empty_iff(nonempty_parts(sp));
    if has_ascii_alphanumeric(lowered) {
        let i = choose|i: int| 0 <= i < lowered.len() && spec_is_ascii_alphanumeric(lowered[i]);
        assert(m[i] == lowered[i]);
    } else {
        assert forall|i: int| 0 <= i < m.len() implies #[trigger] m[i] == '-' by {
            assert(!spec_is_ascii_alphanumeric(lowered[i]));
        }
    }
}

proof fn lemma_join_split(s: Seq<char>)
    ensures
        join_dash(split_dash(s)) == s,
    decreases s.len(),
{
    if s.len() > 0 {
        let t = s.drop_last();
        lemma_join_split(t);
        lemma_split_len(t);
        let pt = split_dash(t);
        assert(t.push(s.last()) =~= s);
        if s.last() == '-' {
            lemma_join_push(pt, Seq::<char>::empty());
            assert(join_dash(pt) + seq!['-'] + Seq::<char>::empty() =~= s);
        } else {
            let n = pt.len();
            let ps = pt.update(n - 1, pt.last().push(s.last()));
            let front = pt.drop_last();
            assert(pt =~= front.push(pt.last()));
            assert(ps =~= front.push(pt.last().push(s.last())));
            lemma_join_push(front, pt.last());
            lemma_join_push(front, pt.last().push(s.last()));
            if front.len() == 0 {
                assert(join_dash(ps) =~= s);
            } else {
                assert(join_dash(front) + seq!['-'] + pt.last().push(s.last()) =~= (join_dash(front)
                    + seq!['-'] + pt.last()).push(s.last()));
            }
        }
    } else {
        assert(split_dash(s) =~= seq![Seq::<char>::empty()]);
    }
}

/// For text without a leading dash or two dashes in a row: every piece but
/// the last is non-empty, and so is the last unless the text ends in a dash.
proof fn lemma_split_parts_nonempty(s: Seq<char>)
    requires
        s.len() > 0 ==> s[0] != '-',
        forall|i: int| 0 <= i < s.len() - 1 ==> !(#[trigger] s[i] == '-' && s[i + 1] == '-'),
    ensures
        forall|i: int| 0 <= i < split_dash(s).len() - 1 ==> (#[trigger] split_dash(s)[i]).len() > 0,
        s.len() > 0 && s.last() != '-' ==> split_dash(s).last().len() > 0,
    decreases s.len(),
{
    if s.len() > 0 {
        let t = s.drop_last();
        assert forall|i: int| 0 <= i < t.len() - 1 implies !(#[trigger] t[i] == '-' && t[i + 1] == '-') by {
            assert(t[i] == s[i] && t[i + 1] == s[i + 1]);
        }
        if t.len() > 0 {
            assert(t[0] == s[0]);
        }
        lemma_split_parts_nonempty(t);
        lemma_split_len(t);
        assert(s.last() == s[s.len() - 1]);
        if s.last() == '-' {
            assert(t.len() > 0);
            assert(t.last() == s[s.len() - 2]);
            assert(t.last() != '-');
        }
    }
}

/// A well-formed slug without capital letters is its own slug, its own trim
/// and its own lowercase form.
pub proof fn lemma_lower_slug_fixed(s: Seq<char>)
    requires
        is_slug(s),
        no_ascii_upper(s),
    ensures
        slug_of(s) == s,
        trim_spec(s) == s,
        is_ascii_text(s),
        ascii_lowercase_seq(s) == s,
{
    assert(slug_chars(s) =~= s);
    lemma_join_split(s);
    let sp = split_dash(s);
    lemma_split_len(s);
    if s.len() > 0 {
        lemma_split_parts_nonempty(s);
        assert(s.last() == s[s.len() - 1]);
        assert forall|i: int| 0 <= i < sp.len() implies (#[trigger] sp[i]).len() > 0 by {
            if i == sp.len() - 1 {
                assert(sp[i] == sp.last());
            }
        }
        lemma_nonempty_id(sp);
        assert(!spec_is_white_space(s[0]));
        assert(!spec_is_white_space(s.last()));
        assert(trim_start_spec(s) == s);
        assert(trim_end_spec(s) == s);
    } else {
        assert(sp =~= seq![Seq::<char>::empty()]);
        lemma_nonempty_push(Seq::<Seq<char>>::empty(), Seq::<char>::empty());
        assert(seq![Seq::<char>::empty()] =~= Seq::<Seq<char>>::empty().push(Seq::<char>::empty()));
    }
    assert(ascii_lowercase_seq(s) =~= s);
}

proof fn lemma_trim_start_upper(s: Seq<char>)
    ensures
        trim_start_spec(ascii_uppercase_seq(s)) == ascii_uppercase_seq(trim_start_spec(s)),
    decreases s.len(),
{
    let u = ascii_uppercase_seq(s);
    if s.len() > 0 {
        assert(u[0] == crate::text::ascii_upper(s[0]));
        assert(spec_is_white_space(u[0]) == spec_is_white_space(s[0]));
        if spec_is_white_space(s[0]) {
            assert(u.drop_first() =~= ascii_uppercase_seq(s.drop_first()));
            lemma_trim_start_upper(s.drop_first());
        }
    }
}

proof fn lemma_trim_end_upper(s: Seq<char>)
    ensures
        trim_end_spec(ascii_uppercase_seq(s)) == ascii_uppercase_seq(trim_end_spec(s)),
    decreases s.len(),
{
    let u = ascii_uppercase_seq(s);
    if s.len() > 0 {
        assert(u.last() == crate::text::ascii_upper(s.last()));
        assert(spec_is_white_space(u.last()) == spec_is_white_space(s.last()));
        if spec_is_white_space(s.last()) {
            assert(u.drop_last() =~= ascii_uppercase_seq(s.drop_last()));
            lemma_trim_end_upper(s.drop_last());
        }
    }
}

proof fn lemma_trim_start_part(s: Seq<char>)
    ensures
        exists|k: int| 0 <= k <= s.len() && trim_start_spec(s) == s.subrange(k, s.len() as int),
    decreases s.len(),
{
    if s.len() > 0 && spec_is_white_space(s[0]) {
        lemma_trim_start_part(s.drop_first());
        let k = choose|k: int|
            0 <= k <= s.drop_first().len() && trim_start_spec(s.drop_first())
                == s.drop_first().subrange(k, s.drop_first().len() as int);
        assert(s.drop_first().subrange(k, s.drop_first().len() as int) =~= s.subrange(
            k + 1,
            s.len() as int,
        ));
    } else {
        assert(s.subrange(0, s.len() as int) =~= s);
    }
}

proof fn lemma_trim_end_part(s: Seq<char>)
    ensures
        exists|k: int| 0 <= k <= s.len() && trim_end_spec(s) == s.subrange(0, k),
    decreases s.len(),
{
    if s.len() > 0 && spec_is_white_space(s.last()) {
        lemma_trim_end_part(s.drop_last());
        let k = choose|k: int|
            0 <= k <= s.drop_last().len() && trim_end_spec(s.drop_last())
                == s.drop_last().subrange(0, k);
        assert(s.drop_last().subrange(0, k) =~= s.subrange(0, k));
    } else {
        assert(s.subrange(0, s.len() as int) =~= s);
    }
}

/// Trimming ASCII text leaves ASCII text.
pub proof fn lemma_trim_ascii(s: Seq<char>)
    requires
        is_ascii_text(s),
    ensures
        is_ascii_text(trim_spec(s)),
{
    lemma_trim_start_part(s);
    let k = choose|k: int| 0 <= k <= s.len() && trim_start_spec(s) == s.subrange(k, s.len() as int);
    let t = trim_start_spec(s);
    assert forall|i: int| 0 <= i < t.len() implies (#[trigger] t[i] as u32) < 128 by {
        assert(t[i] == s[i + k]);
    }
    lemma_trim_end_part(t);
    let j = choose|j: int| 0 <= j <= t.len() && trim_end_spec(t) == t.subrange(0, j);
    let e = trim_end_spec(t);
    assert forall|i: int| 0 <= i < e.len() implies (#[trigger] e[i] as u32) < 128 by {
        assert(e[i] == t[i]);
    }
}

/// For ASCII names, the slug does not depend on letter case: the slug of a
/// name written in capitals (`str::to_ascii_uppercase`) is the slug of the
/// name.
pub proof fn lemma_slug_ignores_ascii_case(value: Seq<char>)
    ensures
        slug_of(ascii_lowercase_seq(trim_spec(ascii_uppercase_seq(value)))) == slug_of(
            ascii_lowercase_seq(trim_spec(value)),
        ),
        is_ascii_text(value) ==> is_ascii_text(ascii_uppercase_seq(value)),
{
    lemma_trim_start_upper(value);
    lemma_trim_end_upper(trim_start_spec(value));
    let t = trim_spec(value);
    assert(ascii_lowercase_seq(ascii_uppercase_seq(t)) =~= ascii_lowercase_seq(t));
}

/// Slugifying a slug changes nothing, so slugifying twice is slugifying
/// once, wherever the lowered name has no ASCII capital letter (always so
/// for what `str::to_lowercase` returns, and for ASCII names).
pub proof fn lemma_slugify_idempotent(value: Seq<char>)
    requires
        no_ascii_upper(lowercase_of(trim_spec(value))),
    ensures
        slugify_spec(slugify_spec(value)) == slugify_spec(value),
{
    let l = lowercase_of(trim_spec(value));
    lemma_slug_well_formed(l);
    lemma_slug_keeps_no_upper(l);
    lemma_lower_slug_fixed(slug_of(l));
}

/// An ASCII name lowers to a text without capital letters.
pub proof fn lemma_ascii_lowered_has_no_upper(value: Seq<char>)
    requires
        is_ascii_text(value),
    ensures
        no_ascii_upper(lowercase_of(trim_spec(value))),
{
    lemma_trim_ascii(value);
}

/// An ASCII name and its ASCII upper-case form have the same slug.
pub proof fn lemma_slugify_ignores_ascii_case(value: Seq<char>)
    requires
        is_ascii_text(value),
    ensures
        slugify_spec(ascii_uppercase_seq(value)) == slugify_spec(value),
{
    lemma_slug_ignores_ascii_case(value);
    lemma_trim_ascii(value);
    lemma_trim_ascii(ascii_uppercase_seq(value));
}

/// Upper-casing the ASCII letters of a text is ASCII text exactly when the
/// text is, and on ASCII text lowering undoes it.
proof fn lemma_lowercase_ignores_ascii_upper(t: Seq<char>)
    ensures
        is_ascii_text(ascii_uppercase_seq(t)) == is_ascii_text(t),
        is_ascii_text(t) ==> lowercase_of(ascii_uppercase_seq(t)) == lowercase_of(t),
{
    let u = ascii_uppercase_seq(t);
    assert forall|i: int| 0 <= i < t.len() implies ((#[trigger] u[i] as u32) < 128) == ((
    t[i] as u32) < 128) by {}
    if !is_ascii_text(t) {
        let i = choose|i: int| 0 <= i < t.len() && !((t[i] as u32) < 128);
        assert(!((u[i] as u32) < 128));
    }
    if is_ascii_text(t) {
        assert(ascii_lowercase_seq(u) =~= ascii_lowercase_seq(t));
    }
}

/// The slug of an already lowercased name (see `slug_of`).
pub fn slug_from_lowercase(lowered: &str) -> (slug: String)
    ensures
        slug@ == slug_of(lowered@),
{
    let v = chars_of(lowered);
    let n = v.len();
    let mut out: Vec<char> = Vec::new();
    let mut cur: Vec<char> = Vec::new();
    let ghost mut parts: Seq<Seq<char>> = Seq::empty();
    let mut i: usize = 0;
    assert(slug_chars(v@.take(0)) =~= Seq::<char>::empty());
    while i < n
        invariant
            n == v@.len(),
            0 <= i <= n,
            split_dash(slug_chars(v@.take(i as int))) == parts.push(cur@),
            out@ == join_dash(nonempty_parts(parts)),
            all_nonempty(nonempty_parts(parts)),
        decreases n - i,
    {
        let c = v[i];
        let ghost before = slug_chars(v@.take(i as int));
        let ghost after = slug_chars(v@.take(i + 1));
        assert(after.drop_last() =~= before);
        assert(after.last() == slug_char(c));
        proof {
            lemma_join_empty_iff(nonempty_parts(parts));
            lemma_nonempty_push(parts, cur@);
            lemma_join_push(nonempty_parts(parts), cur@);
            lemma_nonempty_all(parts.push(cur@));
        }
        if is_ascii_alphanumeric(c) {
            assert(parts.push(cur@).update(parts.len() as int, cur@.push(c)) =~= parts.push(
                cur@.push(c),
            ));
            cur.push(c);
        } else {
            proof {
                parts = parts.push(cur@);
            }
            if cur.len() > 0 {
                if out.len() > 0 {
                    out.push('-');
                }
                out.append(&mut cur);
            }
            cur = Vec::new();
        }
        i = i + 1;
    }
    proof {
        lemma_join_empty_iff(nonempty_parts(parts));
        lemma_nonempty_push(parts, cur@);
        lemma_join_push(nonempty_parts(parts), cur@);
        assert(v@.take(n as int) =~= v@);
    }
    if cur.len() > 0 {
        if out.len() > 0 {
            out.push('-');
        }
        out.append(&mut cur);
    }
    string_of(&out)
}

/// The slug the store keys a school by: the name trimmed, lowercased, and
/// reduced to dash-separated runs of ASCII letters and digits. The slug is
/// well formed and has no capital letters; it is empty exactly when the
/// lowered name has no ASCII letter or digit; and a slug given back to
/// `slugify` comes back unchanged, so slugifying twice is slugifying once;
/// and the name with its ASCII letters upper-cased has the same slug.
pub fn slugify(value: &str) -> (slug: String)
    ensures
        slug@ == slugify_spec(value@),
        is_slug(slug@),
        no_ascii_upper(slug@),
        (slug@.len() == 0) <==> !has_ascii_alphanumeric(lowercase_of(trim_spec(value@))),
        is_slug(value@) && no_ascii_upper(value@) ==> slug@ == value@,
        is_ascii_text(value@) ==> slug@ == slug_of(ascii_lowercase_seq(trim_spec(value@))),
        slugify_spec(ascii_uppercase_seq(value@)) == slugify_spec(value@),
{
    let trimmed = trim(value);
    let lowered = trimmed.as_str().to_lowercase();
    proof {
        lemma_lowercase_ignores_ascii_upper(trimmed@);
        lemma_trim_start_upper(value@);
        lemma_trim_end_upper(trim_start_spec(value@));
        assert(trim_spec(ascii_uppercase_seq(value@)) == ascii_uppercase_seq(trimmed@));
        lemma_slug_well_formed(lowered@);
        lemma_slug_keeps_no_upper(lowered@);
        lemma_slug_empty_iff(lowered@);
        if is_slug(value@) && no_ascii_upper(value@) {
            lemma_lower_slug_fixed(value@);
        }
        if is_ascii_text(value@) {
            lemma_trim_ascii(value@);
        }
    }
    slug_from_lowercase(lowered.as_str())
}

} // verus!
