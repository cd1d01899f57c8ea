//! Verified text utilities: the string operations the loop's logic is built
//! on. Strings are viewed as sequences of characters (`Seq<char>`).

use vstd::prelude::*;

verus! {

/// Relies on `String::push`: appends one character to the end of the string.
#[verifier::external_body]
pub fn push_char(s: &mut String, c: char)
    ensures
        final(s)@ == old(s)@.push(c),
{
    s.push(c)
}

/// The characters of `pat` occur in `s` starting at position `i`.
pub open spec fn matches_at(s: Seq<char>, pat: Seq<char>, i: int) -> bool {
    0 <= i && i + pat.len() <= s.len() && s.subrange(i, i + pat.len()) == pat
}

/// Whether two string slices hold the same characters.
pub fn str_eq(a: &str, b: &str) -> (r: bool)
    ensures
        r == (a@ == b@),
{
    let alen = a.unicode_len();
    let blen = b.unicode_len();
    if alen != blen {
        assert(a@ != b@);
        return false;
    }
    let mut i: usize = 0;
    while i < alen
        invariant
            i <= alen,
            alen == a@.len(),
            alen == b@.len(),
            forall|j: int| 0 <= j < i ==> a@[j] == b@[j],
        decreases alen - i,
    {
        if a.get_char(i) != b.get_char(i) {
            assert(a@ != b@);
            return false;
        }
        i = i + 1;
    }
    assert(a@ =~= b@);
    true
}

/// Builds a fresh `String` out of two pieces.
pub fn str2(a: &str, b: &str) -> (r: String)
    ensures
        r@ == a@ + b@,
{
    let mut s = String::from_str(a);
    s.append(b);
    s
}

/// Builds a fresh `String` out of three pieces.
pub fn str3(a: &str, b: &str, c: &str) -> (r: String)
    ensures
        r@ == a@ + b@ + c@,
{
    let mut s = String::from_str(a);
    s.append(b);
    s.append(c);
    s
}

/// Builds a fresh `String` out of four pieces.
pub fn str4(a: &str, b: &str, c: &str, d: &str) -> (r: String)
    ensures
        r@ == a@ + b@ + c@ + d@,
{
    let mut s = String::from_str(a);
    s.append(b);
    s.append(c);
    s.append(d);
    s
}

/// Whether `pat` matches `s` at position `i`, checked character by character.
pub fn match_at(s: &str, pat: &str, i: usize, slen: usize, plen: usize) -> (r: bool)
    requires
        slen == s@.len(),
        plen == pat@.len(),
        i <= slen,
    ensures
        r == matches_at(s@, pat@, i as int),
{
    if plen > slen - i {
        assert(!matches_at(s@, pat@, i as int));
        return false;
    }
    let mut j: usize = 0;
    while j < plen
        invariant
            j <= plen,
            i + plen <= slen,
            slen == s@.len(),
            plen == pat@.len(),
            forall|k: int| 0 <= k < j ==> s@[i + k] == pat@[k],
        decreases plen - j,
    {
        if s.get_char(i + j) != pat.get_char(j) {
            assert(s@.subrange(i as int, i + plen)[j as int] == s@[i + j]);
            assert(!matches_at(s@, pat@, i as int));
            return false;
        }
        j = j + 1;
    }
    assert(s@.subrange(i as int, i + plen) =~= pat@);
    true
}

/// Index of the first (leftmost) occurrence of `pat` in `s`, if any.
pub fn find_sub(s: &str, pat: &str) -> (r: Option<usize>)
    ensures
        match r {
            Some(i) => matches_at(s@, pat@, i as int) && forall|j: int|
                0 <= j < i ==> !matches_at(s@, pat@, j),
            None => forall|j: int| !matches_at(s@, pat@, j),
        },
{
    let slen = s.unicode_len();
    let plen = pat.unicode_len();
    if plen > slen {
        assert(forall|j: int| !matches_at(s@, pat@, j));
        return None;
    }
    if plen == 0 {
        assert(s@.subrange(0, 0) =~= pat@);
        return Some(0);
    }
    let mut i: usize = 0;
    while i <= slen - plen
        invariant
            0 < plen <= slen,
            slen == s@.len(),
            plen == pat@.len(),
            i <= slen,
            forall|j: int| 0 <= j < i ==> !matches_at(s@, pat@, j),
        decreases slen - i,
    {
        if match_at(s, pat, i, slen, plen) {
            return Some(i);
        }
        i = i + 1;
    }
    assert(forall|j: int| !matches_at(s@, pat@, j));
    None
}

/// `s` with every occurrence of `pat` replaced by `rep`, leftmost first,
/// without rescanning what a replacement produced. An empty pattern leaves
/// the text unchanged.
pub open spec fn replace_seq(s: Seq<char>, pat: Seq<char>, rep: Seq<char>) -> Seq<char>
    decreases s.len(),
{
    if pat.len() == 0 || s.len() == 0 {
        s
    } else if matches_at(s, pat, 0) {
        rep + replace_seq(s.skip(pat.len() as int), pat, rep)
    } else {
        seq![s[0]] + replace_seq(s.skip(1), pat, rep)
    }
}

proof fn lemma_replace_step_match(s: Seq<char>, pat: Seq<char>, rep: Seq<char>, i: int)
    requires
        pat.len() > 0,
        0 <= i <= s.len(),
        matches_at(s, pat, i),
    ensures
        replace_seq(s.skip(i), pat, rep) == rep + replace_seq(s.skip(i + pat.len()), pat, rep),
{
    assert(s.skip(i).subrange(0, pat.len() as int) =~= s.subrange(i, i + pat.len()));
    assert(matches_at(s.skip(i), pat, 0));
    assert(s.skip(i).skip(pat.len() as int) =~= s.skip(i + pat.len()));
}

proof fn lemma_replace_step_char(s: Seq<char>, pat: Seq<char>, rep: Seq<char>, i: int)
    requires
        pat.len() > 0,
        0 <= i < s.len(),
        !matches_at(s, pat, i),
    ensures
        replace_seq(s.skip(i), pat, rep) == seq![s[i]] + replace_seq(s.skip(i + 1), pat, rep),
{
    if matches_at(s.skip(i), pat, 0) {
        assert(s.subrange(i, i + pat.len()) =~= s.skip(i).subrange(0, pat.len() as int));
        assert(matches_at(s, pat, i));
    }
    assert(s.skip(i)[0] == s[i]);
    assert(s.skip(i).skip(1) =~= s.skip(i + 1));
}

/// Replaces every occurrence of `pat` in `s` by `rep`: literal,
/// non-recursive, all occurrences, leftmost first.
pub fn replace_all(s: &str, pat: &str, rep: &str) -> (r: String)
    requires
        pat@.len() > 0,
    ensures
        r@ == replace_seq(s@, pat@, rep@),
{
    let slen = s.unicode_len();
    let plen = pat.unicode_len();
    let mut out = String::new();
    let mut i: usize = 0;
    proof {
        assert(s@.skip(0) =~= s@);
        assert(out@ + replace_seq(s@, pat@, rep@) =~= replace_seq(s@, pat@, rep@));
    }
    while i < slen
        invariant
            plen == pat@.len(),
            plen > 0,
            slen == s@.len(),
            i <= slen,
            replace_seq(s@, pat@, rep@) == out@ + replace_seq(s@.skip(i as int), pat@, rep@),
        decreases slen - i,
    {
        if match_at(s, pat, i, slen, plen) {
            proof {
                lemma_replace_step_match(s@, pat@, rep@, i as int);
                assert(out@ + (rep@ + replace_seq(s@.skip(i + plen), pat@, rep@)) =~= (out@
                    + rep@) + replace_seq(s@.skip(i + plen), pat@, rep@));
            }
            out.append(rep);
            i = i + plen;
        } else {
            let c = s.get_char(i);
            proof {
                lemma_replace_step_char(s@, pat@, rep@, i as int);
                assert(out@ + (seq![s@[i as int]] + replace_seq(s@.skip(i + 1), pat@, rep@))
                    =~= out@.push(s@[i as int]) + replace_seq(s@.skip(i + 1), pat@, rep@));
            }
            push_char(&mut out, c);
            i = i + 1;
        }
    }
    proof {
        assert(s@.skip(slen as int) =~= Seq::<char>::empty());
        assert(out@ + replace_seq(s@.skip(slen as int), pat@, rep@) =~= out@);
    }
    out
}

/// The index of the first binding whose (nonempty) placeholder matches at
/// the head of `s`, scanning the bindings from position `k` on.
pub open spec fn match_head_from(
    s: Seq<char>,
    vars: Seq<(Seq<char>, Seq<char>)>,
    k: int,
) -> Option<int>
    decreases vars.len() - k,
{
    if k < 0 || k >= vars.len() {
        None
    } else if vars[k].0.len() > 0 && matches_at(s, vars[k].0, 0) {
        Some(k)
    } else {
        match_head_from(s, vars, k + 1)
    }
}

/// Simultaneous, single-pass substitution: the template is scanned once,
/// left to right; wherever a placeholder stands, its replacement is
/// emitted and the scan continues after the placeholder. Replacements are
/// never rescanned, so a placeholder arriving inside a bound value stays
/// literal.
pub open spec fn subst_multi(t: Seq<char>, vars: Seq<(Seq<char>, Seq<char>)>) -> Seq<char>
    decreases t.len(),
{
    if t.len() == 0 {
        t
    } else {
        match match_head_from(t, vars, 0) {
            Some(k) => if 0 <= k < vars.len() && 0 < vars[k].0.len() <= t.len() {
                vars[k].1 + subst_multi(t.skip(vars[k].0.len() as int), vars)
            } else {
                t
            },
            None => seq![t[0]] + subst_multi(t.skip(1), vars),
        }
    }
}

proof fn lemma_matches_at_skip(t: Seq<char>, p: Seq<char>, i: int)
    requires
        0 <= i <= t.len(),
    ensures
        matches_at(t.skip(i), p, 0) == matches_at(t, p, i),
{
    if i + p.len() <= t.len() {
        assert(t.skip(i).subrange(0, p.len() as int) =~= t.subrange(i, i + p.len()));
    }
}

proof fn lemma_match_head_some(s: Seq<char>, vars: Seq<(Seq<char>, Seq<char>)>, m: int, k: int)
    requires
        0 <= m <= k < vars.len(),
        vars[k].0.len() > 0,
        matches_at(s, vars[k].0, 0),
        forall|j: int| m <= j < k ==> !(vars[j].0.len() > 0 && matches_at(s, #[trigger] vars[j].0, 0)),
    ensures
        match_head_from(s, vars, m) == Some(k),
    decreases k - m,
{
    if m < k {
        lemma_match_head_some(s, vars, m + 1, k);
    }
}

proof fn lemma_match_head_none(s: Seq<char>, vars: Seq<(Seq<char>, Seq<char>)>, m: int)
    requires
        0 <= m,
        forall|j: int|
            m <= j < vars.len() ==> !(vars[j].0.len() > 0 && matches_at(s, #[trigger] vars[j].0, 0)),
    ensures
        match_head_from(s, vars, m) is None,
    decreases vars.len() - m,
{
    if m < vars.len() {
        lemma_match_head_none(s, vars, m + 1);
    }
}

proof fn lemma_subst_step_match(t: Seq<char>, vars: Seq<(Seq<char>, Seq<char>)>, i: int, k: int)
    requires
        0 <= i <= t.len(),
        0 <= k < vars.len(),
        vars[k].0.len() > 0,
        matches_at(t, vars[k].0, i),
        forall|j: int| 0 <= j < k ==> !(vars[j].0.len() > 0 && matches_at(t, #[trigger] vars[j].0, i)),
    ensures
        subst_multi(t.skip(i), vars) == vars[k].1 + subst_multi(t.skip(i + vars[k].0.len()), vars),
{
    let s = t.skip(i);
    lemma_matches_at_skip(t, vars[k].0, i);
    assert forall|j: int| 0 <= j < k implies !(vars[j].0.len() > 0 && matches_at(
        s,
        #[trigger] vars[j].0,
        0,
    )) by {
        lemma_matches_at_skip(t, vars[j].0, i);
    }
    lemma_match_head_some(s, vars, 0, k);
    assert(s.len() > 0);
    assert(s.skip(vars[k].0.len() as int) =~= t.skip(i + vars[k].0.len()));
}

proof fn lemma_subst_step_char(t: Seq<char>, vars: Seq<(Seq<char>, Seq<char>)>, i: int)
    requires
        0 <= i < t.len(),
        forall|j: int|
            0 <= j < vars.len() ==> !(vars[j].0.len() > 0 && matches_at(t, #[trigger] vars[j].0, i)),
    ensures
        subst_multi(t.skip(i), vars) == seq![t[i]] + subst_multi(t.skip(i + 1), vars),
{
    let s = t.skip(i);
    assert forall|j: int| 0 <= j < vars.len() implies !(vars[j].0.len() > 0 && matches_at(
        s,
        #[trigger] vars[j].0,
        0,
    )) by {
        lemma_matches_at_skip(t, vars[j].0, i);
    }
    lemma_match_head_none(s, vars, 0);
    assert(s[0] == t[i]);
    assert(s.skip(1) =~= t.skip(i + 1));
}

proof fn lemma_no_match_skip(t: Seq<char>, p: Seq<char>, d: int)
    requires
        0 <= d <= t.len(),
        forall|i: int| !matches_at(t, p, i),
    ensures
        forall|i: int| !matches_at(t.skip(d), p, i),
{
    assert forall|i: int| !matches_at(t.skip(d), p, i) by {
        if 0 <= i && i + p.len() <= t.len() - d {
            if matches_at(t.skip(d), p, i) {
                assert(t.subrange(d + i, d + i + p.len()) =~= t.skip(d).subrange(i, i + p.len()));
                assert(matches_at(t, p, d + i));
            }
        }
    }
}

proof fn lemma_head_push(
    s: Seq<char>,
    vars: Seq<(Seq<char>, Seq<char>)>,
    p: Seq<char>,
    r: Seq<char>,
    m: int,
)
    requires
        0 <= m <= vars.len(),
        !matches_at(s, p, 0),
    ensures
        match_head_from(s, vars.push((p, r)), m) == match_head_from(s, vars, m),
    decreases vars.len() - m,
{
    let vars2 = vars.push((p, r));
    if m == vars.len() {
        assert(vars2[m] == (p, r));
        assert(match_head_from(s, vars2, m + 1) is None);
    } else {
        assert(vars2[m] == vars[m]);
        lemma_head_push(s, vars, p, r, m + 1);
    }
}

/// A binding whose placeholder occurs nowhere in the template changes
/// nothing: substitution reads only the template, never the bound values.
pub proof fn lemma_subst_extra_var(
    t: Seq<char>,
    vars: Seq<(Seq<char>, Seq<char>)>,
    p: Seq<char>,
    r: Seq<char>,
)
    requires
        forall|i: int| !matches_at(t, p, i),
    ensures
        subst_multi(t, vars.push((p, r))) == subst_multi(t, vars),
    decreases t.len(),
{
    if t.len() > 0 {
        let vars2 = vars.push((p, r));
        assert(!matches_at(t, p, 0));
        lemma_head_push(t, vars, p, r, 0);
        match match_head_from(t, vars, 0) {
            Some(k) => {
                assert(0 <= k < vars.len() && vars[k].0.len() > 0 && matches_at(t, vars[k].0, 0))
                    by {
                    lemma_match_head_bounds(t, vars, 0);
                }
                assert(vars2[k] == vars[k]);
                let d = vars[k].0.len() as int;
                lemma_no_match_skip(t, p, d);
                lemma_subst_extra_var(t.skip(d), vars, p, r);
            },
            None => {
                lemma_no_match_skip(t, p, 1);
                lemma_subst_extra_var(t.skip(1), vars, p, r);
            },
        }
    }
}

proof fn lemma_match_head_bounds(s: Seq<char>, vars: Seq<(Seq<char>, Seq<char>)>, m: int)
    requires
        0 <= m,
    ensures
        match match_head_from(s, vars, m) {
            Some(k) => m <= k < vars.len() && vars[k].0.len() > 0 && matches_at(s, vars[k].0, 0),
            None => true,
        },
    decreases vars.len() - m,
{
    if m < vars.len() {
        lemma_match_head_bounds(s, vars, m + 1);
    }
}

/// The placeholder-to-value view of an executable binding list.
pub open spec fn pairs_view(vars: Seq<(String, String)>) -> Seq<(Seq<char>, Seq<char>)> {
    vars.map_values(|p: (String, String)| (p.0@, p.1@))
}

fn find_matching_var(template: &str, vars: &Vec<(String, String)>, i: usize, tlen: usize) -> (r:
    Option<usize>)
    requires
        tlen == template@.len(),
        i <= tlen,
    ensures
        match r {
            Some(k) => {
                &&& k < vars@.len()
                &&& vars@[k as int].0@.len() > 0
                &&& matches_at(template@, vars@[k as int].0@, i as int)
                &&& forall|j: int|
                    0 <= j < k ==> !(#[trigger] pairs_view(vars@)[j].0.len() > 0 && matches_at(
                        template@,
                        pairs_view(vars@)[j].0,
                        i as int,
                    ))
            },
            None => forall|j: int|
                0 <= j < vars@.len() ==> !(#[trigger] pairs_view(vars@)[j].0.len() > 0
                    && matches_at(template@, pairs_view(vars@)[j].0, i as int)),
        },
{
    let mut k: usize = 0;
    while k < vars.len()
        invariant
            k <= vars@.len(),
            tlen == template@.len(),
            i <= tlen,
            forall|j: int|
                0 <= j < k ==> !(#[trigger] pairs_view(vars@)[j].0.len() > 0 && matches_at(
                    template@,
                    pairs_view(vars@)[j].0,
                    i as int,
                )),
        decreases vars@.len() - k,
    {
        let pat = vars[k].0.as_str();
        let plen = pat.unicode_len();
        if plen > 0 && match_at(template, pat, i, tlen, plen) {
            proof {
                assert(pairs_view(vars@)[k as int].0 == vars@[k as int].0@);
            }
            return Some(k);
        }
        proof {
            assert(pairs_view(vars@)[k as int].0 == vars@[k as int].0@);
        }
        k = k + 1;
    }
    None
}

/// Binds every variable in one pass over the template alone: literal,
/// all occurrences, non-recursive — bound values are emitted verbatim
/// and never scanned for placeholders themselves.
pub fn subst_vars(template: &str, vars: &Vec<(String, String)>) -> (r: String)
    ensures
        r@ == subst_multi(template@, pairs_view(vars@)),
{
    let ghost pv = pairs_view(vars@);
    let tlen = template.unicode_len();
    let mut out = String::new();
    let mut i: usize = 0;
    proof {
        assert(template@.skip(0) =~= template@);
        assert(out@ + subst_multi(template@, pv) =~= subst_multi(template@, pv));
    }
    while i < tlen
        invariant
            i <= tlen,
            tlen == template@.len(),
            pv == pairs_view(vars@),
            subst_multi(template@, pv) == out@ + subst_multi(template@.skip(i as int), pv),
        decreases tlen - i,
    {
        match find_matching_var(template, vars, i, tlen) {
            Some(k) => {
                let pat_len = vars[k].0.as_str().unicode_len();
                proof {
                    assert(pv[k as int].0 == vars@[k as int].0@);
                    assert(pv[k as int].1 == vars@[k as int].1@);
                    lemma_subst_step_match(template@, pv, i as int, k as int);
                    assert(out@ + (pv[k as int].1 + subst_multi(
                        template@.skip(i + pv[k as int].0.len()),
                        pv,
                    )) =~= (out@ + pv[k as int].1) + subst_multi(
                        template@.skip(i + pv[k as int].0.len()),
                        pv,
                    ));
                }
                out.append(vars[k].1.as_str());
                i = i + pat_len;
            },
            None => {
                let c = template.get_char(i);
                proof {
                    lemma_subst_step_char(template@, pv, i as int);
                    assert(out@ + (seq![template@[i as int]] + subst_multi(
                        template@.skip(i + 1),
                        pv,
                    )) =~= out@.push(template@[i as int]) + subst_multi(template@.skip(i + 1), pv));
                }
                push_char(&mut out, c);
                i = i + 1;
            },
        }
    }
    proof {
        assert(template@.skip(tlen as int) =~= Seq::<char>::empty());
        assert(out@ + subst_multi(template@.skip(tlen as int), pv) =~= out@);
    }
    out
}

/// The Unicode white-space characters, the set `str::trim` removes.
pub open spec fn is_ws(c: char) -> bool {
    (c as u32) == 0x20 || (0x9 <= (c as u32) && (c as u32) <= 0xD) || (c as u32) == 0x85
        || (c as u32) == 0xA0 || (c as u32) == 0x1680 || (0x2000 <= (c as u32) && (c as u32)
        <= 0x200A) || (c as u32) == 0x2028 || (c as u32) == 0x2029 || (c as u32) == 0x202F || (
    c as u32) == 0x205F || (c as u32) == 0x3000
}

/// Executable test for `is_ws`.
pub fn is_ws_char(c: char) -> (r: bool)
    ensures
        r == is_ws(c),
{
    let u = c as u32;
    u == 0x20 || (0x9 <= u && u <= 0xD) || u == 0x85 || u == 0xA0 || u == 0x1680 || (0x2000 <= u
        && u <= 0x200A) || u == 0x2028 || u == 0x2029 || u == 0x202F || u == 0x205F || u == 0x3000
}

/// `s` without its leading white space.
pub open spec fn trim_start_seq(s: Seq<char>) -> Seq<char>
    decreases s.len(),
{
    if s.len() > 0 && is_ws(s[0]) {
        trim_start_seq(s.skip(1))
    } else {
        s
    }
}

/// `s` without its trailing white space.
pub open spec fn trim_end_seq(s: Seq<char>) -> Seq<char>
    decreases s.len(),
{
    if s.len() > 0 && is_ws(s[s.len() - 1]) {
        trim_end_seq(s.take(s.len() - 1))
    } else {
        s
    }
}

/// `s` without leading and trailing white space, as `str::trim` leaves it.
pub open spec fn trim_seq(s: Seq<char>) -> Seq<char> {
    trim_end_seq(trim_start_seq(s))
}

proof fn lemma_trim_start(s: Seq<char>, k: int)
    requires
        0 <= k <= s.len(),
        forall|j: int| 0 <= j < k ==> is_ws(s[j]),
        k == s.len() || !is_ws(s[k]),
    ensures
        trim_start_seq(s) == s.skip(k),
    decreases k,
{
    if k == 0 {
        assert(s.skip(0) =~= s);
    } else {
        assert(is_ws(s[0]));
        lemma_trim_start(s.skip(1), k - 1);
        assert(s.skip(1).skip(k - 1) =~= s.skip(k));
    }
}

proof fn lemma_trim_end(s: Seq<char>, m: int)
    requires
        0 <= m <= s.len(),
        forall|j: int| m <= j < s.len() ==> is_ws(s[j]),
        m == 0 || !is_ws(s[m - 1]),
    ensures
        trim_end_seq(s) == s.take(m),
    decreases s.len() - m,
{
    if m == s.len() {
        assert(s.take(m) =~= s);
    } else {
        assert(is_ws(s[s.len() - 1]));
        lemma_trim_end(s.take(s.len() - 1), m);
        assert(s.take(s.len() - 1).take(m) =~= s.take(m));
    }
}

/// White space stripped from both ends, exactly as `str::trim` does it.
pub fn trim_str(s: &str) -> (r: &str)
    ensures
        r@ == trim_seq(s@),
{
    let slen = s.unicode_len();
    let mut a: usize = 0;
    loop
        invariant
            a <= slen,
            slen == s@.len(),
            forall|j: int| 0 <= j < a ==> is_ws(s@[j]),
        ensures
            a <= slen,
            slen == s@.len(),
            forall|j: int| 0 <= j < a ==> is_ws(s@[j]),
            a == slen || !is_ws(s@[a as int]),
        decreases slen - a,
    {
        if a == slen {
            break;
        }
        if !is_ws_char(s.get_char(a)) {
            break;
        }
        a = a + 1;
    }
    let mut b: usize = slen;
    loop
        invariant
            a <= b <= slen,
            slen == s@.len(),
            forall|j: int| b <= j < slen ==> is_ws(s@[j]),
        ensures
            a <= b <= slen,
            forall|j: int| b <= j < slen ==> is_ws(s@[j]),
            b == a || !is_ws(s@[b - 1]),
        decreases b,
    {
        if b == a {
            break;
        }
        if !is_ws_char(s.get_char(b - 1)) {
            break;
        }
        b = b - 1;
    }
    let r = s.substring_char(a, b);
    proof {
        lemma_trim_start(s@, a as int);
        let t = s@.skip(a as int);
        lemma_trim_end(t, b - a as int);
        assert(t.take(b - a as int) =~= s@.subrange(a as int, b as int));
    }
    r
}

/// ASCII lower-casing of one character; everything else is left alone.
pub open spec fn lower_char(c: char) -> char {
    if 0x41 <= (c as u32) && (c as u32) <= 0x5A {
        ((c as u32) + 0x20) as char
    } else {
        c
    }
}

/// Executable ASCII lower-casing of one character.
pub fn lower_char_x(c: char) -> (r: char)
    ensures
        r == lower_char(c),
{
    match c {
        'A' => 'a',
        'B' => 'b',
        'C' => 'c',
        'D' => 'd',
        'E' => 'e',
        'F' => 'f',
        'G' => 'g',
        'H' => 'h',
        'I' => 'i',
        'J' => 'j',
        'K' => 'k',
        'L' => 'l',
        'M' => 'm',
        'N' => 'n',
        'O' => 'o',
        'P' => 'p',
        'Q' => 'q',
        'R' => 'r',
        'S' => 's',
        'T' => 't',
        'U' => 'u',
        'V' => 'v',
        'W' => 'w',
        'X' => 'x',
        'Y' => 'y',
        'Z' => 'z',
        _ => c,
    }
}

/// `pat` (given in lower case) is a prefix of `s`, compared after ASCII
/// lower-casing `s`.
pub open spec fn starts_with_lower(s: Seq<char>, pat: Seq<char>) -> bool {
    pat.len() <= s.len() && forall|j: int| 0 <= j < pat.len() ==> lower_char(s[j]) == pat[j]
}

/// Executable test for `starts_with_lower`.
pub fn starts_with_ci(s: &str, pat: &str) -> (r: bool)
    ensures
        r == starts_with_lower(s@, pat@),
{
    let slen = s.unicode_len();
    let plen = pat.unicode_len();
    if plen > slen {
        return false;
    }
    let mut j: usize = 0;
    while j < plen
        invariant
            j <= plen <= slen,
            slen == s@.len(),
            plen == pat@.len(),
            forall|k: int| 0 <= k < j ==> lower_char(s@[k]) == pat@[k],
        decreases plen - j,
    {
        if lower_char_x(s.get_char(j)) != pat.get_char(j) {
            return false;
        }
        j = j + 1;
    }
    true
}

/// `pat` (given in lower case) occurs somewhere in `s`, compared after ASCII
/// lower-casing `s`.
pub open spec fn contains_lower(s: Seq<char>, pat: Seq<char>) -> bool {
    exists|i: int| 0 <= i <= s.len() - pat.len() && starts_with_lower(s.skip(i), pat)
}

/// Executable test for `contains_lower`.
pub fn contains_ci(s: &str, pat: &str) -> (r: bool)
    ensures
        r == contains_lower(s@, pat@),
{
    let slen = s.unicode_len();
    let plen = pat.unicode_len();
    if plen > slen {
        assert(!contains_lower(s@, pat@));
        return false;
    }
    if plen == 0 {
        assert(starts_with_lower(s@.skip(0), pat@));
        assert(contains_lower(s@, pat@));
        return true;
    }
    let mut i: usize = 0;
    while i <= slen - plen
        invariant
            0 < plen <= slen,
            slen == s@.len(),
            plen == pat@.len(),
            i <= slen,
            forall|k: int| 0 <= k < i ==> !starts_with_lower(s@.skip(k), pat@),
        decreases slen - i,
    {
        let sub = s.substring_char(i, slen);
        if starts_with_ci(sub, pat) {
            assert(s@.subrange(i as int, slen as int) =~= s@.skip(i as int));
            return true;
        }
        assert(s@.subrange(i as int, slen as int) =~= s@.skip(i as int));
        i = i + 1;
    }
    assert(!contains_lower(s@, pat@));
    false
}

/// The character for one decimal digit.
pub open spec fn digit_spec(d: nat) -> char {
    if d == 0 {
        '0'
    } else if d == 1 {
        '1'
    } else if d == 2 {
        '2'
    } else if d == 3 {
        '3'
    } else if d == 4 {
        '4'
    } else if d == 5 {
        '5'
    } else if d == 6 {
        '6'
    } else if d == 7 {
        '7'
    } else if d == 8 {
        '8'
    } else {
        '9'
    }
}

/// The decimal rendering of `n`, most significant digit first, no sign and
/// no leading zeros.
pub open spec fn dec_spec(n: nat) -> Seq<char>
    decreases n,
{
    if n < 10 {
        seq![digit_spec(n)]
    } else {
        dec_spec(n / 10) + seq![digit_spec(n % 10)]
    }
}

fn digit_char(d: u64) -> (r: char)
    requires
        d < 10,
    ensures
        r == digit_spec(d as nat),
{
    if d == 0 {
        '0'
    } else if d == 1 {
        '1'
    } else if d == 2 {
        '2'
    } else if d == 3 {
        '3'
    } else if d == 4 {
        '4'
    } else if d == 5 {
        '5'
    } else if d == 6 {
        '6'
    } else if d == 7 {
        '7'
    } else if d == 8 {
        '8'
    } else {
        '9'
    }
}

/// Decimal rendering of an unsigned number.
pub fn u64_to_dec(n: u64) -> (r: String)
    ensures
        r@ == dec_spec(n as nat),
    decreases n,
{
    if n < 10 {
        let mut s = String::new();
        push_char(&mut s, digit_char(n));
        proof {
            assert(Seq::<char>::empty().push(digit_spec(n as nat)) =~= seq![
                digit_spec(n as nat),
            ]);
        }
        s
    } else {
        let mut s = u64_to_dec(n / 10);
        push_char(&mut s, digit_char(n % 10));
        proof {
            assert(dec_spec((n / 10) as nat).push(digit_spec((n % 10) as nat)) =~= dec_spec(
                (n / 10) as nat,
            ) + seq![digit_spec((n % 10) as nat)]);
        }
        s
    }
}

/// The decimal rendering of a signed number: a minus sign for negatives,
/// then the digits.
pub open spec fn dec_i64_spec(n: int) -> Seq<char> {
    if n < 0 {
        seq!['-'] + dec_spec((-n) as nat)
    } else {
        dec_spec(n as nat)
    }
}

/// Decimal rendering of a signed number.
pub fn i64_to_dec(n: i64) -> (r: String)
    ensures
        r@ == dec_i64_spec(n as int),
{
    if n >= 0 {
        u64_to_dec(n as u64)
    } else {
        let mag: u64 = if n == i64::MIN {
            9_223_372_036_854_775_808u64
        } else {
            (-n) as u64
        };
        let digits = u64_to_dec(mag);
        let mut s = String::new();
        push_char(&mut s, '-');
        s.append(digits.as_str());
        proof {
            assert(Seq::<char>::empty().push('-') =~= seq!['-']);
        }
        s
    }
}

/// The rendering of `n` padded with zeros on the left to at least three
/// digits, as the `{:03}` format does it.
pub open spec fn pad3_spec(n: nat) -> Seq<char> {
    if n >= 100 {
        dec_spec(n)
    } else if n >= 10 {
        seq!['0'] + dec_spec(n)
    } else {
        seq!['0', '0'] + dec_spec(n)
    }
}

/// Zero-padded three-digit rendering of `n`.
pub fn u64_to_pad3(n: u64) -> (r: String)
    ensures
        r@ == pad3_spec(n as nat),
{
    let digits = u64_to_dec(n);
    if n >= 100 {
        digits
    } else if n >= 10 {
        let r = str2("0", digits.as_str());
        proof {
            assert("0"@ =~= seq!['0']) by {
                reveal_strlit("0");
            }
        }
        r
    } else {
        let r = str2("00", digits.as_str());
        proof {
            assert("00"@ =~= seq!['0', '0']) by {
                reveal_strlit("00");
            }
        }
        r
    }
}

/// The numeric value of a decimal digit character, if it is one.
pub open spec fn digit_val(c: char) -> Option<nat> {
    if 0x30 <= (c as u32) && (c as u32) <= 0x39 {
        Some(((c as u32) - 0x30) as nat)
    } else {
        None
    }
}

/// Executable digit value.
pub fn digit_val_x(c: char) -> (r: Option<u32>)
    ensures
        match r {
            Some(v) => digit_val(c) == Some(v as nat),
            None => digit_val(c) is None,
        },
{
    let u = c as u32;
    if 0x30 <= u && u <= 0x39 {
        Some(u - 0x30)
    } else {
        None
    }
}

/// Index of the first occurrence of `pat` in `s`, defined recursively.
pub open spec fn find_spec(s: Seq<char>, pat: Seq<char>) -> Option<int>
    decreases s.len(),
{
    if matches_at(s, pat, 0) {
        Some(0)
    } else if s.len() == 0 {
        None
    } else {
        match find_spec(s.skip(1), pat) {
            Some(i) => Some(i + 1),
            None => None,
        }
    }
}

proof fn lemma_matches_shift(s: Seq<char>, pat: Seq<char>, k: int)
    requires
        0 <= k,
        s.len() >= 1,
    ensures
        matches_at(s, pat, k + 1) == matches_at(s.skip(1), pat, k),
{
    if k + 1 + pat.len() <= s.len() {
        assert(s.skip(1).subrange(k, k + pat.len()) =~= s.subrange(k + 1, k + 1 + pat.len()));
    }
}

/// Ties the search's first-match characterisation to `find_spec`.
pub proof fn lemma_find_spec_some(s: Seq<char>, pat: Seq<char>, i: int)
    requires
        matches_at(s, pat, i),
        forall|j: int| 0 <= j < i ==> !matches_at(s, pat, j),
    ensures
        find_spec(s, pat) == Some(i),
    decreases i,
{
    if i == 0 {
    } else {
        assert(!matches_at(s, pat, 0));
        assert(s.len() > 0);
        lemma_matches_shift(s, pat, i - 1);
        assert forall|j: int| 0 <= j < i - 1 implies !matches_at(s.skip(1), pat, j) by {
            lemma_matches_shift(s, pat, j);
        }
        lemma_find_spec_some(s.skip(1), pat, i - 1);
    }
}

/// A search that finds nothing means `find_spec` is `None`.
pub proof fn lemma_find_spec_none(s: Seq<char>, pat: Seq<char>)
    requires
        forall|j: int| !matches_at(s, pat, j),
    ensures
        find_spec(s, pat) is None,
    decreases s.len(),
{
    assert(!matches_at(s, pat, 0));
    if s.len() > 0 {
        assert forall|j: int| !matches_at(s.skip(1), pat, j) by {
            if 0 <= j {
                lemma_matches_shift(s, pat, j);
            }
        }
        lemma_find_spec_none(s.skip(1), pat);
    }
}

/// One hexadecimal digit, in lower case.
pub open spec fn hex_digit_spec(d: nat) -> char {
    if d < 10 {
        digit_spec(d)
    } else if d == 10 {
        'a'
    } else if d == 11 {
        'b'
    } else if d == 12 {
        'c'
    } else if d == 13 {
        'd'
    } else if d == 14 {
        'e'
    } else {
        'f'
    }
}

fn hex_digit_char(d: u32) -> (r: char)
    requires
        d < 16,
    ensures
        r == hex_digit_spec(d as nat),
{
    if d == 0 {
        '0'
    } else if d == 1 {
        '1'
    } else if d == 2 {
        '2'
    } else if d == 3 {
        '3'
    } else if d == 4 {
        '4'
    } else if d == 5 {
        '5'
    } else if d == 6 {
        '6'
    } else if d == 7 {
        '7'
    } else if d == 8 {
        '8'
    } else if d == 9 {
        '9'
    } else if d == 10 {
        'a'
    } else if d == 11 {
        'b'
    } else if d == 12 {
        'c'
    } else if d == 13 {
        'd'
    } else if d == 14 {
        'e'
    } else {
        'f'
    }
}

/// The hexadecimal rendering of `n`, lower case, no leading zeros.
pub open spec fn hex_spec(n: nat) -> Seq<char>
    decreases n,
{
    if n < 16 {
        seq![hex_digit_spec(n)]
    } else {
        hex_spec(n / 16) + seq![hex_digit_spec(n % 16)]
    }
}

/// Hexadecimal rendering of an unsigned number.
pub fn u32_to_hex(n: u32) -> (r: String)
    ensures
        r@ == hex_spec(n as nat),
    decreases n,
{
    if n < 16 {
        let mut s = String::new();
        push_char(&mut s, hex_digit_char(n));
        proof {
            assert(Seq::<char>::empty().push(hex_digit_spec(n as nat)) =~= seq![
                hex_digit_spec(n as nat),
            ]);
        }
        s
    } else {
        let mut s = u32_to_hex(n / 16);
        push_char(&mut s, hex_digit_char(n % 16));
        proof {
            assert(hex_spec((n / 16) as nat).push(hex_digit_spec((n % 16) as nat)) =~= hex_spec(
                (n / 16) as nat,
            ) + seq![hex_digit_spec((n % 16) as nat)]);
        }
        s
    }
}

/// The Unicode format characters (category Cf): invisible controls such
/// as the bidirectional overrides, joiners and tag characters.
pub open spec fn is_fmt(u: u32) -> bool {
    u == 0xAD || (0x600 <= u && u <= 0x605) || u == 0x61C || u == 0x6DD || u == 0x70F || (0x890
        <= u && u <= 0x891) || u == 0x8E2 || u == 0x180E || (0x200B <= u && u <= 0x200F) || (
    0x202A <= u && u <= 0x202E) || (0x2060 <= u && u <= 0x206F) || u == 0xFEFF || (0xFFF9 <= u && u
        <= 0xFFFB) || u == 0x110BD || u == 0x110CD || (0x13430 <= u && u <= 0x1343F) || (0x1BCA0
        <= u && u <= 0x1BCA3) || (0x1D173 <= u && u <= 0x1D17A) || u == 0xE0001 || (0xE0020 <= u
        && u <= 0xE007F)
}

fn is_fmt_char(u: u32) -> (r: bool)
    ensures
        r == is_fmt(u),
{
    u == 0xAD || (0x600 <= u && u <= 0x605) || u == 0x61C || u == 0x6DD || u == 0x70F || (0x890
        <= u && u <= 0x891) || u == 0x8E2 || u == 0x180E || (0x200B <= u && u <= 0x200F) || (
    0x202A <= u && u <= 0x202E) || (0x2060 <= u && u <= 0x206F) || u == 0xFEFF || (0xFFF9 <= u && u
        <= 0xFFFB) || u == 0x110BD || u == 0x110CD || (0x13430 <= u && u <= 0x1343F) || (0x1BCA0
        <= u && u <= 0x1BCA3) || (0x1D173 <= u && u <= 0x1D17A) || u == 0xE0001 || (0xE0020 <= u
        && u <= 0xE007F)
}

/// How one character is written inside a quoted literal: the library's
/// canonical quoting. Backslash escapes for the quote, the backslash and
/// the common controls; the other ASCII and Latin-1 controls and the
/// Unicode format characters (the invisible bidirectional overrides
/// among them) as `\u{...}`; everything else stands as itself.
pub open spec fn quote_char(c: char) -> Seq<char> {
    if c == '"' {
        seq!['\\', '"']
    } else if c == '\\' {
        seq!['\\', '\\']
    } else if c == '\n' {
        seq!['\\', 'n']
    } else if c == '\r' {
        seq!['\\', 'r']
    } else if c == '\t' {
        seq!['\\', 't']
    } else if (c as u32) < 0x20 || (0x7F <= (c as u32) && (c as u32) <= 0x9F) || is_fmt(
        c as u32,
    ) {
        seq!['\\', 'u', '{'] + hex_spec((c as u32) as nat) + seq!['}']
    } else {
        seq![c]
    }
}

/// The body of a quoted literal.
pub open spec fn quote_seq(s: Seq<char>) -> Seq<char>
    decreases s.len(),
{
    if s.len() == 0 {
        Seq::<char>::empty()
    } else {
        quote_char(s[0]) + quote_seq(s.skip(1))
    }
}

/// `s` written as a quoted literal: `"` + escaped body + `"`.
pub open spec fn quoted(s: Seq<char>) -> Seq<char> {
    seq!['"'] + quote_seq(s) + seq!['"']
}

proof fn lemma_quote_seq_step(s: Seq<char>, i: int)
    requires
        0 <= i < s.len(),
    ensures
        quote_seq(s.skip(i)) == quote_char(s[i]) + quote_seq(s.skip(i + 1)),
{
    assert(s.skip(i).len() > 0);
    assert(s.skip(i)[0] == s[i]);
    assert(s.skip(i).skip(1) =~= s.skip(i + 1));
}

fn push_quote_char(out: &mut String, c: char)
    ensures
        final(out)@ == old(out)@ + quote_char(c),
{
    let u = c as u32;
    if c == '"' {
        out.append("\\\"");
        proof {
            reveal_strlit("\\\"");
            assert("\\\""@ =~= seq!['\\', '"']);
        }
    } else if c == '\\' {
        out.append("\\\\");
        proof {
            reveal_strlit("\\\\");
            assert("\\\\"@ =~= seq!['\\', '\\']);
        }
    } else if c == '\n' {
        out.append("\\n");
        proof {
            reveal_strlit("\\n");
            assert("\\n"@ =~= seq!['\\', 'n']);
        }
    } else if c == '\r' {
        out.append("\\r");
        proof {
            reveal_strlit("\\r");
            assert("\\r"@ =~= seq!['\\', 'r']);
        }
    } else if c == '\t' {
        out.append("\\t");
        proof {
            reveal_strlit("\\t");
            assert("\\t"@ =~= seq!['\\', 't']);
        }
    } else if u < 0x20 || (0x7F <= u && u <= 0x9F) || is_fmt_char(u) {
        out.append("\\u{");
        proof {
            reveal_strlit("\\u{");
            assert("\\u{"@ =~= seq!['\\', 'u', '{']);
        }
        let hex = u32_to_hex(u);
        out.append(hex.as_str());
        push_char(out, '}');
        proof {
            assert(old(out)@ + quote_char(c) =~= out@);
        }
    } else {
        push_char(out, c);
        proof {
            assert(old(out)@.push(c) =~= old(out)@ + seq![c]);
        }
    }
}

/// `s` as a quoted literal, escapes included.
pub fn quote_str(s: &str) -> (r: String)
    ensures
        r@ == quoted(s@),
{
    let slen = s.unicode_len();
    let mut out = String::new();
    push_char(&mut out, '"');
    proof {
        assert(out@ =~= seq!['"']);
        assert(s@.skip(0) =~= s@);
    }
    let mut i: usize = 0;
    while i < slen
        invariant
            i <= slen,
            slen == s@.len(),
            out@ == seq!['"'] + quote_seq(s@.take(i as int)),
        decreases slen - i,
    {
        let c = s.get_char(i);
        proof {
            lemma_quote_prefix(s@, i as int);
        }
        push_quote_char(&mut out, c);
        i = i + 1;
    }
    push_char(&mut out, '"');
    proof {
        assert(s@.take(slen as int) =~= s@);
        assert((seq!['"'] + quote_seq(s@)).push('"') =~= quoted(s@));
    }
    out
}

proof fn lemma_quote_prefix(s: Seq<char>, i: int)
    requires
        0 <= i < s.len(),
    ensures
        quote_seq(s.take(i + 1)) == quote_seq(s.take(i)) + quote_char(s[i]),
    decreases i,
{
    if i == 0 {
        assert(s.take(0) =~= Seq::<char>::empty());
        assert(quote_seq(s.take(0)) == Seq::<char>::empty());
        assert(s.take(1)[0] == s[0]);
        assert(s.take(1).skip(1) =~= s.take(0));
        assert(quote_seq(s.take(1)) == quote_char(s[0]) + quote_seq(s.take(0)));
        assert(quote_char(s[0]) + Seq::<char>::empty() =~= quote_char(s[0]));
        assert(Seq::<char>::empty() + quote_char(s[0]) =~= quote_char(s[0]));
    } else {
        lemma_quote_prefix(s.skip(1), i - 1);
        assert(s.take(i + 1)[0] == s[0]);
        assert(s.take(i + 1).skip(1) =~= s.skip(1).take(i));
        assert(s.take(i).skip(1) =~= s.skip(1).take(i - 1));
        assert(s.take(i)[0] == s[0]);
        assert(s.skip(1)[i - 1] == s[i]);
        assert(quote_seq(s.take(i + 1)) == quote_char(s[0]) + quote_seq(s.skip(1).take(i)));
        assert(quote_char(s[0]) + (quote_seq(s.skip(1).take(i - 1)) + quote_char(s[i])) =~= (
        quote_char(s[0]) + quote_seq(s.skip(1).take(i - 1))) + quote_char(s[i]));
        assert(quote_seq(s.take(i)) == quote_char(s[0]) + quote_seq(s.skip(1).take(i - 1)));
    }
}

/// How one character is written inside a JSON string, as `serde_json`
/// writes it.
pub open spec fn json_char(c: char) -> Seq<char> {
    if c == '"' {
        seq!['\\', '"']
    } else if c == '\\' {
        seq!['\\', '\\']
    } else if (c as u32) == 0x8 {
        seq!['\\', 'b']
    } else if c == '\t' {
        seq!['\\', 't']
    } else if c == '\n' {
        seq!['\\', 'n']
    } else if (c as u32) == 0xC {
        seq!['\\', 'f']
    } else if c == '\r' {
        seq!['\\', 'r']
    } else if (c as u32) < 0x20 {
        seq!['\\', 'u', '0', '0', hex_digit_spec(((c as u32) / 16) as nat), hex_digit_spec(
            ((c as u32) % 16) as nat,
        )]
    } else {
        seq![c]
    }
}

/// The body of a JSON string literal.
pub open spec fn json_seq(s: Seq<char>) -> Seq<char>
    decreases s.len(),
{
    if s.len() == 0 {
        Seq::<char>::empty()
    } else {
        json_char(s[0]) + json_seq(s.skip(1))
    }
}

/// `s` as a JSON string literal, quotes included.
pub open spec fn json_quoted(s: Seq<char>) -> Seq<char> {
    seq!['"'] + json_seq(s) + seq!['"']
}

fn push_json_char(out: &mut String, c: char)
    ensures
        final(out)@ == old(out)@ + json_char(c),
{
    let u = c as u32;
    if c == '"' {
        out.append("\\\"");
        proof {
            reveal_strlit("\\\"");
            assert("\\\""@ =~= seq!['\\', '"']);
        }
    } else if c == '\\' {
        out.append("\\\\");
        proof {
            reveal_strlit("\\\\");
            assert("\\\\"@ =~= seq!['\\', '\\']);
        }
    } else if u == 0x8 {
        out.append("\\b");
        proof {
            reveal_strlit("\\b");
            assert("\\b"@ =~= seq!['\\', 'b']);
        }
    } else if c == '\t' {
        out.append("\\t");
        proof {
            reveal_strlit("\\t");
            assert("\\t"@ =~= seq!['\\', 't']);
        }
    } else if c == '\n' {
        out.append("\\n");
        proof {
            reveal_strlit("\\n");
            assert("\\n"@ =~= seq!['\\', 'n']);
        }
    } else if u == 0xC {
        out.append("\\f");
        proof {
            reveal_strlit("\\f");
            assert("\\f"@ =~= seq!['\\', 'f']);
        }
    } else if c == '\r' {
        out.append("\\r");
        proof {
            reveal_strlit("\\r");
            assert("\\r"@ =~= seq!['\\', 'r']);
        }
    } else if u < 0x20 {
        out.append("\\u00");
        proof {
            reveal_strlit("\\u00");
            assert("\\u00"@ =~= seq!['\\', 'u', '0', '0']);
        }
        push_char(out, hex_digit_char(u / 16));
        push_char(out, hex_digit_char(u % 16));
        proof {
            assert(old(out)@ + json_char(c) =~= out@);
        }
    } else {
        push_char(out, c);
        proof {
            assert(old(out)@.push(c) =~= old(out)@ + seq![c]);
        }
    }
}

proof fn lemma_json_prefix(s: Seq<char>, i: int)
    requires
        0 <= i < s.len(),
    ensures
        json_seq(s.take(i + 1)) == json_seq(s.take(i)) + json_char(s[i]),
    decreases i,
{
    if i == 0 {
        assert(s.take(0) =~= Seq::<char>::empty());
        assert(json_seq(s.take(0)) == Seq::<char>::empty());
        assert(s.take(1)[0] == s[0]);
        assert(s.take(1).skip(1) =~= s.take(0));
        assert(json_seq(s.take(1)) == json_char(s[0]) + json_seq(s.take(0)));
        assert(json_char(s[0]) + Seq::<char>::empty() =~= json_char(s[0]));
        assert(Seq::<char>::empty() + json_char(s[0]) =~= json_char(s[0]));
    } else {
        lemma_json_prefix(s.skip(1), i - 1);
        assert(s.take(i + 1)[0] == s[0]);
        assert(s.take(i + 1).skip(1) =~= s.skip(1).take(i));
        assert(s.take(i).skip(1) =~= s.skip(1).take(i - 1));
        assert(s.take(i)[0] == s[0]);
        assert(s.skip(1)[i - 1] == s[i]);
        assert(json_seq(s.take(i + 1)) == json_char(s[0]) + json_seq(s.skip(1).take(i)));
        assert(json_char(s[0]) + (json_seq(s.skip(1).take(i - 1)) + json_char(s[i])) =~= (json_char(
            s[0],
        ) + json_seq(s.skip(1).take(i - 1))) + json_char(s[i]));
        assert(json_seq(s.take(i)) == json_char(s[0]) + json_seq(s.skip(1).take(i - 1)));
    }
}

/// Appends `s` as a JSON string literal to `out`.
pub fn append_json_quoted(out: &mut String, s: &str)
    ensures
        final(out)@ == old(out)@ + json_quoted(s@),
{
    let slen = s.unicode_len();
    push_char(out, '"');
    proof {
        assert(out@ =~= old(out)@ + seq!['"']);
        assert(s@.take(0) =~= Seq::<char>::empty());
    }
    let mut i: usize = 0;
    while i < slen
        invariant
            i <= slen,
            slen == s@.len(),
            out@ == old(out)@ + seq!['"'] + json_seq(s@.take(i as int)),
        decreases slen - i,
    {
        let c = s.get_char(i);
        proof {
            lemma_json_prefix(s@, i as int);
            assert((old(out)@ + seq!['"'] + json_seq(s@.take(i as int))) + json_char(s@[i as int])
                =~= old(out)@ + seq!['"'] + (json_seq(s@.take(i as int)) + json_char(
                s@[i as int],
            )));
        }
        push_json_char(out, c);
        i = i + 1;
    }
    push_char(out, '"');
    proof {
        assert(s@.take(slen as int) =~= s@);
        assert((old(out)@ + seq!['"'] + json_seq(s@)).push('"') =~= old(out)@ + json_quoted(s@));
    }
}

/// The tail of a joined list: the separator, then each further block.
pub open spec fn join_tail(bs: Seq<Seq<char>>, sep: Seq<char>) -> Seq<char>
    decreases bs.len(),
{
    if bs.len() == 0 {
        Seq::<char>::empty()
    } else {
        sep + bs[0] + join_tail(bs.skip(1), sep)
    }
}

/// Blocks joined by a separator; empty when there are no blocks.
pub open spec fn join_open(bs: Seq<Seq<char>>, sep: Seq<char>) -> Seq<char> {
    if bs.len() == 0 {
        Seq::<char>::empty()
    } else {
        bs[0] + join_tail(bs.skip(1), sep)
    }
}

proof fn lemma_join_tail_snoc(bs: Seq<Seq<char>>, b: Seq<char>, sep: Seq<char>)
    ensures
        join_tail(bs.push(b), sep) == join_tail(bs, sep) + (sep + b),
    decreases bs.len(),
{
    if bs.len() == 0 {
        assert(bs.push(b)[0] == b);
        assert(bs.push(b).skip(1) =~= Seq::<Seq<char>>::empty());
        assert(join_tail(bs.push(b).skip(1), sep) == Seq::<char>::empty());
        assert(sep + b + Seq::<char>::empty() =~= sep + b);
        assert(join_tail(bs, sep) == Seq::<char>::empty());
        assert(Seq::<char>::empty() + (sep + b) =~= sep + b);
    } else {
        lemma_join_tail_snoc(bs.skip(1), b, sep);
        assert(bs.push(b)[0] == bs[0]);
        assert(bs.push(b).skip(1) =~= bs.skip(1).push(b));
        assert(join_tail(bs.push(b), sep) == sep + bs[0] + join_tail(bs.skip(1).push(b), sep));
        assert(sep + bs[0] + (join_tail(bs.skip(1), sep) + (sep + b)) =~= (sep + bs[0] + join_tail(
            bs.skip(1),
            sep,
        )) + (sep + b));
    }
}

/// How a join grows when one more block is added at the end.
pub proof fn lemma_join_open_snoc(bs: Seq<Seq<char>>, b: Seq<char>, sep: Seq<char>)
    ensures
        bs.len() == 0 ==> join_open(bs.push(b), sep) == b,
        bs.len() > 0 ==> join_open(bs.push(b), sep) == join_open(bs, sep) + (sep + b),
{
    if bs.len() == 0 {
        assert(bs.push(b)[0] == b);
        assert(bs.push(b).skip(1) =~= Seq::<Seq<char>>::empty());
        assert(b + Seq::<char>::empty() =~= b);
    } else {
        lemma_join_tail_snoc(bs.skip(1), b, sep);
        assert(bs.push(b)[0] == bs[0]);
        assert(bs.push(b).skip(1) =~= bs.skip(1).push(b));
        assert(bs[0] + (join_tail(bs.skip(1), sep) + (sep + b)) =~= (bs[0] + join_tail(
            bs.skip(1),
            sep,
        )) + (sep + b));
    }
}

/// The tail of a quoted list: `, "item"` for each remaining element.
pub open spec fn debug_tail(ss: Seq<Seq<char>>) -> Seq<char>
    decreases ss.len(),
{
    if ss.len() == 0 {
        Seq::<char>::empty()
    } else {
        seq![',', ' '] + quoted(ss[0]) + debug_tail(ss.skip(1))
    }
}

/// A list of strings written as `["a", "b"]`, each element quoted.
pub open spec fn debug_list(ss: Seq<Seq<char>>) -> Seq<char> {
    if ss.len() == 0 {
        seq!['[', ']']
    } else {
        seq!['['] + quoted(ss[0]) + debug_tail(ss.skip(1)) + seq![']']
    }
}

proof fn lemma_debug_tail_prefix(ss: Seq<Seq<char>>, i: int)
    requires
        0 <= i < ss.len(),
    ensures
        debug_tail(ss.take(i + 1)) == debug_tail(ss.take(i)) + (seq![',', ' '] + quoted(ss[i])),
    decreases i,
{
    if i == 0 {
        assert(ss.take(0) =~= Seq::<Seq<char>>::empty());
        assert(debug_tail(ss.take(0)) == Seq::<char>::empty());
        assert(ss.take(1)[0] == ss[0]);
        assert(ss.take(1).skip(1) =~= ss.take(0));
        assert(debug_tail(ss.take(1)) == seq![',', ' '] + quoted(ss[0]) + debug_tail(ss.take(0)));
        assert(seq![',', ' '] + quoted(ss[0]) + Seq::<char>::empty() =~= seq![',', ' '] + quoted(
            ss[0],
        ));
        assert(Seq::<char>::empty() + (seq![',', ' '] + quoted(ss[0])) =~= seq![',', ' '] + quoted(
            ss[0],
        ));
    } else {
        lemma_debug_tail_prefix(ss.skip(1), i - 1);
        assert(ss.take(i + 1)[0] == ss[0]);
        assert(ss.take(i + 1).skip(1) =~= ss.skip(1).take(i));
        assert(ss.take(i).skip(1) =~= ss.skip(1).take(i - 1));
        assert(ss.take(i)[0] == ss[0]);
        assert(ss.skip(1)[i - 1] == ss[i]);
        assert(debug_tail(ss.take(i + 1)) == seq![',', ' '] + quoted(ss[0]) + debug_tail(
            ss.skip(1).take(i),
        ));
        assert(debug_tail(ss.take(i)) == seq![',', ' '] + quoted(ss[0]) + debug_tail(
            ss.skip(1).take(i - 1),
        ));
        assert(seq![',', ' '] + quoted(ss[0]) + (debug_tail(ss.skip(1).take(i - 1)) + (seq![
            ',',
            ' ',
        ] + quoted(ss[i]))) =~= (seq![',', ' '] + quoted(ss[0]) + debug_tail(
            ss.skip(1).take(i - 1),
        )) + (seq![',', ' '] + quoted(ss[i])));
    }
}

/// A command rendered as a quoted list, the way a string-vector debug
/// print shows it.
pub fn render_command_list(items: &Vec<String>) -> (r: String)
    ensures
        r@ == debug_list(items.deep_view()),
{
    let ghost v = items.deep_view();
    if items.len() == 0 {
        let r = String::from_str("[]");
        proof {
            reveal_strlit("[]");
            assert(v =~= Seq::<Seq<char>>::empty());
            assert("[]"@ =~= seq!['[', ']']);
        }
        return r;
    }
    let mut out = String::from_str("[");
    proof {
        reveal_strlit("[");
        assert("["@ =~= seq!['[']);
    }
    let first = quote_str(items[0].as_str());
    out.append(first.as_str());
    proof {
        assert(v[0] == items@[0]@);
        assert(v.skip(1).take(0) =~= Seq::<Seq<char>>::empty());
        assert(debug_tail(v.skip(1).take(0)) == Seq::<char>::empty());
        assert(seq!['['] + quoted(v[0]) + Seq::<char>::empty() =~= seq!['['] + quoted(v[0]));
    }
    let mut i: usize = 1;
    while i < items.len()
        invariant
            1 <= i <= items.len(),
            v == items.deep_view(),
            v.len() == items.len(),
            out@ == seq!['['] + quoted(v[0]) + debug_tail(v.skip(1).take(i - 1)),
        decreases items.len() - i,
    {
        out.append(", ");
        let q = quote_str(items[i].as_str());
        out.append(q.as_str());
        proof {
            reveal_strlit(", ");
            assert(", "@ =~= seq![',', ' ']);
            lemma_debug_tail_prefix(v.skip(1), i - 1);
            assert(v.skip(1)[i - 1] == v[i as int]);
            assert(v[i as int] == items@[i as int]@);
            assert((seq!['['] + quoted(v[0]) + debug_tail(v.skip(1).take(i - 1))) + seq![',', ' ']
                + quoted(v[i as int]) =~= seq!['['] + quoted(v[0]) + (debug_tail(
                v.skip(1).take(i - 1),
            ) + (seq![',', ' '] + quoted(v[i as int]))));
        }
        i = i + 1;
    }
    out.append("]");
    proof {
        reveal_strlit("]");
        assert("]"@ =~= seq![']']);
        assert(v.skip(1).take(i - 1) =~= v.skip(1));
        assert((seq!['['] + quoted(v[0]) + debug_tail(v.skip(1))) + seq![']'] =~= seq!['[']
            + quoted(v[0]) + debug_tail(v.skip(1)) + seq![']']);
    }
    out
}

/// The tail of a compact JSON string array: `,"item"` for each remaining
/// element.
pub open spec fn json_list_tail(ss: Seq<Seq<char>>) -> Seq<char>
    decreases ss.len(),
{
    if ss.len() == 0 {
        Seq::<char>::empty()
    } else {
        seq![','] + json_quoted(ss[0]) + json_list_tail(ss.skip(1))
    }
}

/// A list of strings as a compact JSON array.
pub open spec fn json_list(ss: Seq<Seq<char>>) -> Seq<char> {
    if ss.len() == 0 {
        seq!['[', ']']
    } else {
        seq!['['] + json_quoted(ss[0]) + json_list_tail(ss.skip(1)) + seq![']']
    }
}

proof fn lemma_json_list_tail_prefix(ss: Seq<Seq<char>>, i: int)
    requires
        0 <= i < ss.len(),
    ensures
        json_list_tail(ss.take(i + 1)) == json_list_tail(ss.take(i)) + (seq![','] + json_quoted(
            ss[i],
        )),
    decreases i,
{
    if i == 0 {
        assert(ss.take(0) =~= Seq::<Seq<char>>::empty());
        assert(json_list_tail(ss.take(0)) == Seq::<char>::empty());
        assert(ss.take(1)[0] == ss[0]);
        assert(ss.take(1).skip(1) =~= ss.take(0));
        assert(json_list_tail(ss.take(1)) == seq![','] + json_quoted(ss[0]) + json_list_tail(
            ss.take(0),
        ));
        assert(seq![','] + json_quoted(ss[0]) + Seq::<char>::empty() =~= seq![','] + json_quoted(
            ss[0],
        ));
        assert(Seq::<char>::empty() + (seq![','] + json_quoted(ss[0])) =~= seq![','] + json_quoted(
            ss[0],
        ));
    } else {
        lemma_json_list_tail_prefix(ss.skip(1), i - 1);
        assert(ss.take(i + 1)[0] == ss[0]);
        assert(ss.take(i + 1).skip(1) =~= ss.skip(1).take(i));
        assert(ss.take(i).skip(1) =~= ss.skip(1).take(i - 1));
        assert(ss.take(i)[0] == ss[0]);
        assert(ss.skip(1)[i - 1] == ss[i]);
        assert(json_list_tail(ss.take(i + 1)) == seq![','] + json_quoted(ss[0]) + json_list_tail(
            ss.skip(1).take(i),
        ));
        assert(json_list_tail(ss.take(i)) == seq![','] + json_quoted(ss[0]) + json_list_tail(
            ss.skip(1).take(i - 1),
        ));
        assert(seq![','] + json_quoted(ss[0]) + (json_list_tail(ss.skip(1).take(i - 1)) + (seq![
            ',',
        ] + json_quoted(ss[i]))) =~= (seq![','] + json_quoted(ss[0]) + json_list_tail(
            ss.skip(1).take(i - 1),
        )) + (seq![','] + json_quoted(ss[i])));
    }
}

/// A vector of strings rendered as a compact JSON array.
pub fn render_json_string_list(items: &Vec<String>) -> (r: String)
    ensures
        r@ == json_list(items.deep_view()),
{
    let ghost v = items.deep_view();
    if items.len() == 0 {
        let r = String::from_str("[]");
        proof {
            reveal_strlit("[]");
            assert(v =~= Seq::<Seq<char>>::empty());
            assert("[]"@ =~= seq!['[', ']']);
        }
        return r;
    }
    let mut out = String::from_str("[");
    proof {
        reveal_strlit("[");
        assert("["@ =~= seq!['[']);
    }
    append_json_quoted(&mut out, items[0].as_str());
    proof {
        assert(v[0] == items@[0]@);
        assert(v.skip(1).take(0) =~= Seq::<Seq<char>>::empty());
        assert(json_list_tail(v.skip(1).take(0)) == Seq::<char>::empty());
        assert(seq!['['] + json_quoted(v[0]) + Seq::<char>::empty() =~= seq!['['] + json_quoted(
            v[0],
        ));
    }
    let mut i: usize = 1;
    while i < items.len()
        invariant
            1 <= i <= items.len(),
            v == items.deep_view(),
            v.len() == items.len(),
            out@ == seq!['['] + json_quoted(v[0]) + json_list_tail(v.skip(1).take(i - 1)),
        decreases items.len() - i,
    {
        out.append(",");
        append_json_quoted(&mut out, items[i].as_str());
        proof {
            reveal_strlit(",");
            assert(","@ =~= seq![',']);
            lemma_json_list_tail_prefix(v.skip(1), i - 1);
            assert(v.skip(1)[i - 1] == v[i as int]);
            assert(v[i as int] == items@[i as int]@);
            assert((seq!['['] + json_quoted(v[0]) + json_list_tail(v.skip(1).take(i - 1))) + seq![
                ',',
            ] + json_quoted(v[i as int]) =~= seq!['['] + json_quoted(v[0]) + (json_list_tail(
                v.skip(1).take(i - 1),
            ) + (seq![','] + json_quoted(v[i as int]))));
        }
        i = i + 1;
    }
    out.append("]");
    proof {
        reveal_strlit("]");
        assert("]"@ =~= seq![']']);
        assert(v.skip(1).take(i - 1) =~= v.skip(1));
        assert((seq!['['] + json_quoted(v[0]) + json_list_tail(v.skip(1))) + seq![']'] =~= seq![
            '[',
        ] + json_quoted(v[0]) + json_list_tail(v.skip(1)) + seq![']']);
    }
    out
}

/// `s` as a JSON string literal.
pub fn json_quote_str(s: &str) -> (r: String)
    ensures
        r@ == json_quoted(s@),
{
    let mut out = String::new();
    append_json_quoted(&mut out, s);
    proof {
        assert(Seq::<char>::empty() + json_quoted(s@) =~= json_quoted(s@));
    }
    out
}

} // verus!
