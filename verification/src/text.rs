//! Character-level text utilities on which the prompt, progress and memory
//! logic is built.
use vstd::prelude::*;

verus! {

broadcast use vstd::string::group_string_axioms;

/// Appends one character to a `String` (`String::push`).
#[verifier::external_body]
fn string_push(s: &mut String, c: char)
    ensures
        final(s)@ == old(s)@.push(c),
{
    s.push(c);
}

/// The characters of `s`, in order.
pub fn chars_of(s: &str) -> (v: Vec<char>)
    ensures
        v@ == s@,
{
    let mut v: Vec<char> = Vec::new();
    for c in it: s.chars()
        invariant
            it.seq() == s@,
            v@ == it.seq().take(it.index() as int),
    {
        v.push(c);
        assert(it.seq().take(it.index() + 1) =~= it.seq().take(it.index() as int).push(c));
    }
    v
}

/// The string made of the characters in `v`.
pub fn string_of_chars(v: &Vec<char>) -> (s: String)
    ensures
        s@ == v@,
{
    let mut s = String::new();
    let mut i: usize = 0;
    while i < v.len()
        invariant
            i <= v.len(),
            s@ == v@.take(i as int),
        decreases v.len() - i,
    {
        string_push(&mut s, v[i]);
        assert(v@.take(i + 1) =~= v@.take(i as int).push(v@[i as int]));
        i = i + 1;
    }
    assert(v@.take(v.len() as int) =~= v@);
    s
}


/// `p` occurs in `s` starting at position `i`.
pub open spec fn occurs_at(s: Seq<char>, i: int, p: Seq<char>) -> bool {
    0 <= i && i + p.len() <= s.len() && s.subrange(i, i + p.len()) == p
}

/// `p` occurs somewhere in `s`.
pub open spec fn contains_seq(s: Seq<char>, p: Seq<char>) -> bool {
    exists|i: int| occurs_at(s, i, p)
}

/// Every occurrence of the non-empty pattern `p` in `s`, taken from left to
/// right without overlap, replaced by `r`.
pub open spec fn replace_all(s: Seq<char>, p: Seq<char>, r: Seq<char>) -> Seq<char>
    decreases s.len(),
{
    if p.len() == 0 || s.len() == 0 {
        s
    } else if occurs_at(s, 0, p) {
        r + replace_all(s.skip(p.len() as int), p, r)
    } else {
        seq![s[0]] + replace_all(s.skip(1), p, r)
    }
}

/// Containment of texts is transitive.
pub proof fn lemma_contains_trans(a: Seq<char>, b: Seq<char>, c: Seq<char>)
    requires
        contains_seq(a, b),
        contains_seq(b, c),
    ensures
        contains_seq(a, c),
{
    let i = choose|i: int| occurs_at(a, i, b);
    let j = choose|j: int| occurs_at(b, j, c);
    assert(a.subrange(i + j, i + j + c.len()) =~= b.subrange(j, j + c.len()));
    assert(occurs_at(a, i + j, c));
}

/// Where no occurrence of `p` starts within `x`, replacing in `x + y`
/// leaves `x` as it is.
pub proof fn lemma_replace_clear_prefix(x: Seq<char>, y: Seq<char>, p: Seq<char>, r: Seq<char>)
    requires
        p.len() > 0,
        forall|i: int| 0 <= i < x.len() ==> !occurs_at(x + y, i, p),
    ensures
        replace_all(x + y, p, r) == x + replace_all(y, p, r),
    decreases x.len(),
{
    if x.len() > 0 {
        let s = x + y;
        assert(!occurs_at(s, 0, p));
        let x1 = x.skip(1);
        assert(s.skip(1) =~= x1 + y);
        assert forall|i: int| 0 <= i < x1.len() implies !occurs_at(x1 + y, i, p) by {
            if occurs_at(x1 + y, i, p) {
                assert(s.subrange(i + 1, i + 1 + p.len()) =~= (x1 + y).subrange(i, i + p.len()));
                assert(occurs_at(s, i + 1, p));
            }
        }
        lemma_replace_clear_prefix(x1, y, p, r);
        assert(s =~= seq![s[0]] + s.skip(1));
        assert(seq![s[0]] + x1 =~= x);
    } else {
        assert(x + y =~= y);
    }
}

/// A line of `t` (the text `x` between two newlines, at `k`) comes through
/// a replacement of `p`, which holds no newline, whole: as `r` where it is
/// `p`, unchanged where `p` does not occur in it.
pub proof fn lemma_replace_keeps_line(t: Seq<char>, k: int, x: Seq<char>, p: Seq<char>, r: Seq<char>)
    requires
        p.len() > 0,
        forall|j: int| 0 <= j < p.len() ==> p[j] != '\n',
        x == p || forall|i: int| !occurs_at(x, i, p),
        0 <= k,
        k + x.len() + 2 <= t.len(),
        t.subrange(k, k + x.len() + 2) == seq!['\n'] + x + seq!['\n'],
    ensures
        contains_seq(replace_all(t, p, r), seq!['\n'] + (if x == p { r } else { x }) + seq!['\n']),
    decreases t.len(),
{
    let line = seq!['\n'] + x + seq!['\n'];
    let out_line = seq!['\n'] + (if x == p { r } else { x }) + seq!['\n'];
    assert(t[k] == line[0]);
    if occurs_at(t, 0, p) {
        if k < p.len() {
            assert(t.subrange(0, p.len() as int)[k] == t[k]);
            assert(false);
        }
        let t2 = t.skip(p.len() as int);
        assert(t2.subrange(k - p.len(), k - p.len() + x.len() + 2) =~= t.subrange(k, k + x.len() + 2));
        lemma_replace_keeps_line(t2, k - p.len(), x, p, r);
        let rest = replace_all(t2, p, r);
        let i = choose|i: int| occurs_at(rest, i, out_line);
        assert((r + rest).subrange(r.len() + i, r.len() + i + out_line.len()) =~= rest.subrange(i, i + out_line.len()));
        assert(occurs_at(r + rest, r.len() + i, out_line));
    } else if k > 0 {
        let t1 = t.skip(1);
        assert(t1.subrange(k - 1, k - 1 + x.len() + 2) =~= t.subrange(k, k + x.len() + 2));
        lemma_replace_keeps_line(t1, k - 1, x, p, r);
        let rest = replace_all(t1, p, r);
        let i = choose|i: int| occurs_at(rest, i, out_line);
        assert((seq![t[0]] + rest).subrange(1 + i, 1 + i + out_line.len()) =~= rest.subrange(i, i + out_line.len()));
        assert(occurs_at(seq![t[0]] + rest, 1 + i, out_line));
    } else {
        let after = t.skip(x.len() as int + 1);
        assert(k == 0);
        assert forall|i: int| 0 <= i < x.len() + 2 implies t[i] == line[i] by {
            assert(t.subrange(0, x.len() + 2int)[i] == t[i]);
        }
        assert(line[x.len() + 1int] == '\n');
        assert(after[0] == t[x.len() + 1int]);
        assert forall|i: int| 0 <= i < x.len() implies t[1 + i] == x[i] by {
            assert(line[1 + i] == x[i]);
        }
        assert(t.skip(1) =~= x + after);
        let nl_rest = replace_all(after, p, r);
        assert(!occurs_at(after, 0, p)) by {
            if occurs_at(after, 0, p) {
                assert(after.subrange(0, p.len() as int)[0] == p[0]);
            }
        }
        assert(nl_rest =~= seq!['\n'] + replace_all(after.skip(1), p, r));
        let mid = if x == p { r } else { x };
        if x == p {
            assert(occurs_at(x + after, 0, p)) by {
                assert((x + after).subrange(0, p.len() as int) =~= x);
            }
            assert((x + after).skip(p.len() as int) =~= after);
            assert(replace_all(t.skip(1), p, r) == r + nl_rest);
        } else {
            assert forall|i: int| 0 <= i < x.len() implies !occurs_at(x + after, i, p) by {
                if occurs_at(x + after, i, p) {
                    if i + p.len() <= x.len() {
                        assert(x.subrange(i, i + p.len()) =~= (x + after).subrange(i, i + p.len()));
                        assert(occurs_at(x, i, p));
                    } else {
                        assert((x + after).subrange(i, i + p.len())[x.len() - i] == (x + after)[x.len() as int]);
                        assert((x + after)[x.len() as int] == '\n');
                    }
                }
            }
            lemma_replace_clear_prefix(x, after, p, r);
        }
        let out = replace_all(t, p, r);
        assert(out =~= seq![t[0]] + (mid + nl_rest));
        assert(out.subrange(0, out_line.len() as int) =~= out_line);
        assert(occurs_at(out, 0, out_line));
    }
}

/// The texts in `parts` with `sep` between consecutive ones.
pub open spec fn join_seqs(parts: Seq<Seq<char>>, sep: Seq<char>) -> Seq<char>
    decreases parts.len(),
{
    if parts.len() == 0 {
        Seq::empty()
    } else if parts.len() == 1 {
        parts[0]
    } else {
        join_seqs(parts.drop_last(), sep) + sep + parts.last()
    }
}

/// The views of a sequence of strings.
pub open spec fn string_views(v: Seq<String>) -> Seq<Seq<char>> {
    v.map_values(|s: String| s@)
}

/// Whether `p` occurs in `v` at position `i`.
fn occurs_at_exec(v: &Vec<char>, i: usize, p: &Vec<char>) -> (b: bool)
    requires
        i <= v.len(),
    ensures
        b == occurs_at(v@, i as int, p@),
{
    if p.len() > v.len() - i {
        return false;
    }
    let mut k: usize = 0;
    while k < p.len()
        invariant
            k <= p.len(),
            i + p.len() <= v.len(),
            forall|j: int| 0 <= j < k ==> v@[i + j] == p@[j],
        decreases p.len() - k,
    {
        if v[i + k] != p[k] {
            assert(v@.subrange(i as int, i + p.len())[k as int] != p@[k as int]);
            return false;
        }
        k = k + 1;
    }
    assert(v@.subrange(i as int, i + p.len()) =~= p@);
    true
}

/// Whether `p` occurs in `s` (`str::contains`).
pub fn contains_text(s: &str, p: &str) -> (b: bool)
    ensures
        b == contains_seq(s@, p@),
{
    let sv = chars_of(s);
    let pv = chars_of(p);
    if pv.len() > sv.len() {
        assert forall|i: int| !occurs_at(s@, i, p@) by {}
        return false;
    }
    let last = sv.len() - pv.len();
    let mut i: usize = 0;
    loop
        invariant
            i <= last,
            last + pv@.len() == sv@.len(),
            sv@ == s@,
            pv@ == p@,
            forall|j: int| 0 <= j < i ==> !occurs_at(s@, j, p@),
        ensures
            forall|j: int| 0 <= j <= last ==> !occurs_at(s@, j, p@),
        decreases last - i,
    {
        if occurs_at_exec(&sv, i, &pv) {
            return true;
        }
        if i == last {
            break;
        }
        i = i + 1;
    }
    assert forall|j: int| !occurs_at(s@, j, p@) by {
        if 0 <= j <= last {
        }
    }
    false
}

/// Two texts are equal.
pub fn text_eq(a: &str, b: &str) -> (r: bool)
    ensures
        r == (a@ == b@),
{
    let av = chars_of(a);
    let bv = chars_of(b);
    if av.len() != bv.len() {
        return false;
    }
    let mut i: usize = 0;
    while i < av.len()
        invariant
            av.len() == bv.len(),
            av@ == a@,
            bv@ == b@,
            i <= av.len(),
            forall|j: int| 0 <= j < i ==> av@[j] == bv@[j],
        decreases av.len() - i,
    {
        if av[i] != bv[i] {
            assert(a@[i as int] != b@[i as int]);
            return false;
        }
        i = i + 1;
    }
    assert(av@ =~= bv@);
    true
}

proof fn lemma_replace_all_step(s: Seq<char>, i: int, p: Seq<char>, r: Seq<char>)
    requires
        p.len() > 0,
        0 <= i < s.len(),
    ensures
        occurs_at(s, i, p) ==> replace_all(s.skip(i), p, r) == r + replace_all(
            s.skip(i + p.len()),
            p,
            r,
        ),
        !occurs_at(s, i, p) ==> replace_all(s.skip(i), p, r) == seq![s[i]] + replace_all(
            s.skip(i + 1),
            p,
            r,
        ),
{
    let t = s.skip(i);
    if i + p.len() <= s.len() {
        assert(t.subrange(0, p.len() as int) =~= s.subrange(i, i + p.len()));
    }
    if occurs_at(s, i, p) {
        assert(t.skip(p.len() as int) =~= s.skip(i + p.len()));
    } else {
        assert(t.skip(1) =~= s.skip(i + 1));
    }
}

/// `s` with every occurrence of the non-empty pattern `p`, from left to
/// right, replaced by `r` (`str::replace`).
pub fn replace_text(s: &str, p: &str, r: &str) -> (out: String)
    requires
        p@.len() > 0,
    ensures
        out@ == replace_all(s@, p@, r@),
{
    let sv = chars_of(s);
    let pv = chars_of(p);
    let rv = chars_of(r);
    let mut out: Vec<char> = Vec::new();
    let mut i: usize = 0;
    assert(sv@.skip(0) =~= sv@);
    while i < sv.len()
        invariant
            i <= sv.len(),
            sv@ == s@,
            pv@ == p@,
            rv@ == r@,
            p@.len() > 0,
            out@ + replace_all(sv@.skip(i as int), pv@, rv@) == replace_all(sv@, pv@, rv@),
        decreases sv.len() - i,
    {
        proof {
            lemma_replace_all_step(sv@, i as int, pv@, rv@);
        }
        if occurs_at_exec(&sv, i, &pv) {
            let mut k: usize = 0;
            let ghost before = out@;
            while k < rv.len()
                invariant
                    k <= rv.len(),
                    out@ == before + rv@.take(k as int),
                decreases rv.len() - k,
            {
                out.push(rv[k]);
                assert(rv@.take(k + 1) =~= rv@.take(k as int).push(rv@[k as int]));
                k = k + 1;
            }
            assert(rv@.take(rv.len() as int) =~= rv@);
            assert(out@ + replace_all(sv@.skip(i + pv.len()), pv@, rv@) =~= before + (rv@
                + replace_all(sv@.skip(i + pv.len()), pv@, rv@)));
            i = i + pv.len();
        } else {
            let ghost before = out@;
            out.push(sv[i]);
            assert(out@ + replace_all(sv@.skip(i + 1), pv@, rv@) =~= before + (seq![sv@[i as int]]
                + replace_all(sv@.skip(i + 1), pv@, rv@)));
            i = i + 1;
        }
    }
    assert(sv@.skip(sv.len() as int) =~= Seq::<char>::empty());
    assert(out@ + Seq::<char>::empty() =~= out@);
    string_of_chars(&out)
}

/// The strings in `parts` joined with `sep` between consecutive ones
/// (`[String]::join`).
pub fn join_texts(parts: &Vec<String>, sep: &str) -> (out: String)
    ensures
        out@ == join_seqs(string_views(parts@), sep@),
{
    let mut out = String::new();
    let mut i: usize = 0;
    while i < parts.len()
        invariant
            i <= parts.len(),
            out@ == join_seqs(string_views(parts@).take(i as int), sep@),
        decreases parts.len() - i,
    {
        let ghost views = string_views(parts@);
        assert(views.take(i + 1).drop_last() =~= views.take(i as int));
        if i > 0 {
            out.append(sep);
        } else {
            assert(views.take(0) =~= Seq::<Seq<char>>::empty());
        }
        out.append(parts[i].as_str());
        i = i + 1;
    }
    assert(string_views(parts@).take(parts.len() as int) =~= string_views(parts@));
    out
}


/// `a` comes strictly before `b` in lexicographic order of characters, the
/// order of `str` and `String` comparison.
pub open spec fn text_before(a: Seq<char>, b: Seq<char>) -> bool
    decreases a.len(),
{
    if a.len() == 0 {
        b.len() > 0
    } else if b.len() == 0 {
        false
    } else if a[0] != b[0] {
        a[0] < b[0]
    } else {
        text_before(a.skip(1), b.skip(1))
    }
}

/// Lexicographic order is a strict total order.
pub proof fn lemma_text_before_order(a: Seq<char>, b: Seq<char>, c: Seq<char>)
    ensures
        !text_before(a, a),
        text_before(a, b) ==> !text_before(b, a),
        text_before(a, b) && text_before(b, c) ==> text_before(a, c),
        a != b ==> text_before(a, b) || text_before(b, a),
    decreases a.len(),
{
    if a.len() > 0 && b.len() > 0 && c.len() > 0 {
        lemma_text_before_order(a.skip(1), b.skip(1), c.skip(1));
    } else if a.len() > 0 && b.len() > 0 {
        lemma_text_before_order(a.skip(1), b.skip(1), b.skip(1));
    } else if a.len() > 0 {
        lemma_text_before_order(a.skip(1), a.skip(1), a.skip(1));
    }
    if a.len() == 0 && b.len() == 0 {
        assert(a =~= b);
    }
    if a != b && a.len() > 0 && b.len() > 0 && a[0] == b[0] {
        assert(a.skip(1) != b.skip(1)) by {
            if a.skip(1) == b.skip(1) {
                assert(a =~= seq![a[0]] + a.skip(1));
                assert(b =~= seq![b[0]] + b.skip(1));
            }
        }
    }
}

/// Whether `a` comes strictly before `b` (`a < b` on strings).
pub fn text_lt(a: &str, b: &str) -> (r: bool)
    ensures
        r == text_before(a@, b@),
{
    let av = chars_of(a);
    let bv = chars_of(b);
    let mut i: usize = 0;
    assert(av@.skip(0) =~= av@);
    assert(bv@.skip(0) =~= bv@);
    loop
        invariant
            i <= av.len(),
            i <= bv.len(),
            av@ == a@,
            bv@ == b@,
            text_before(a@, b@) == text_before(av@.skip(i as int), bv@.skip(i as int)),
        decreases av.len() - i,
    {
        if i == av.len() {
            return i < bv.len();
        }
        if i == bv.len() {
            return false;
        }
        let x = av[i];
        let y = bv[i];
        assert(av@.skip(i as int)[0] == x);
        assert(bv@.skip(i as int)[0] == y);
        if x != y {
            return x < y;
        }
        assert(av@.skip(i as int).skip(1) =~= av@.skip(i + 1));
        assert(bv@.skip(i as int).skip(1) =~= bv@.skip(i + 1));
        i = i + 1;
    }
}


/// The text `a` followed by `b`.
pub fn concat2(a: &str, b: &str) -> (out: String)
    ensures
        out@ == a@ + b@,
{
    let mut out = String::new();
    out.append(a);
    out.append(b);
    out
}

/// A copy of `a`.
pub fn text_copy(a: &str) -> (out: String)
    ensures
        out@ == a@,
{
    let mut out = String::new();
    out.append(a);
    assert(Seq::<char>::empty() + a@ =~= a@);
    out
}

} // verus!
