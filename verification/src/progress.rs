//! Cleaning of the progress lines that a model download prints, so that they
//! can be shown to the user.
use vstd::prelude::*;
use vstd::string::StrSliceExecFns;
use crate::text::{chars_of, string_of_chars, join_seqs};

verus! {

/// An ASCII letter.
pub open spec fn is_ascii_letter(c: char) -> bool {
    ('a' <= c && c <= 'z') || ('A' <= c && c <= 'Z')
}

/// An ASCII letter or digit.
pub open spec fn is_ascii_alnum(c: char) -> bool {
    is_ascii_letter(c) || ('0' <= c && c <= '9')
}

/// ASCII whitespace as Rust's `char::is_ascii_whitespace` has it: space,
/// tab, line feed, form feed and carriage return.
pub open spec fn is_ascii_space(c: char) -> bool {
    c == ' ' || c == '\t' || c == '\n' || c == '\x0C' || c == '\r'
}

/// The punctuation that a progress line keeps.
pub open spec fn is_progress_punct(c: char) -> bool {
    c == '.' || c == ',' || c == ':' || c == '%' || c == '/' || c == '-' || c == '_' || c == '('
        || c == ')'
}

/// A character that survives cleaning.
pub open spec fn is_kept_char(c: char) -> bool {
    is_ascii_alnum(c) || is_ascii_space(c) || is_progress_punct(c)
}

/// Position just after the terminal escape sequence whose parameters start at
/// `j`: after the first ASCII letter at or after `j`, or the end of `s`.
pub open spec fn escape_end(s: Seq<char>, j: int) -> int
    decreases s.len() - j,
{
    if j >= s.len() {
        s.len() as int
    } else if is_ascii_letter(s[j]) {
        j + 1
    } else {
        escape_end(s, j + 1)
    }
}

/// An escape sequence (ESC followed by `[`) starts at `i`.
pub open spec fn escape_at(s: Seq<char>, i: int) -> bool {
    0 <= i && i + 1 < s.len() && s[i] == '\x1b' && s[i + 1] == '['
}

/// The characters of `s` from `i` on that cleaning keeps, each escape
/// sequence standing as one space.
pub open spec fn kept_from(s: Seq<char>, i: int) -> Seq<char>
    decreases s.len() - i, 0int,
{
    if i < 0 || i >= s.len() {
        Seq::empty()
    } else if escape_at(s, i) {
        proof {
            lemma_escape_end_bounds(s, i + 2);
        }
        seq![' '] + kept_from(s, escape_end(s, i + 2))
    } else if is_kept_char(s[i]) {
        seq![s[i]] + kept_from(s, i + 1)
    } else {
        kept_from(s, i + 1)
    }
}

/// The leading run of non-space characters of `t`.
pub open spec fn first_word(t: Seq<char>) -> Seq<char>
    decreases t.len(),
{
    if t.len() == 0 || is_ascii_space(t[0]) {
        Seq::empty()
    } else {
        seq![t[0]] + first_word(t.skip(1))
    }
}

/// The maximal runs of non-space characters of `t`, in order
/// (`str::split_whitespace` on text made of kept characters).
pub open spec fn words(t: Seq<char>) -> Seq<Seq<char>>
    decreases t.len(),
{
    if t.len() == 0 {
        Seq::empty()
    } else if is_ascii_space(t[0]) {
        words(t.skip(1))
    } else {
        proof {
            lemma_first_word_len(t);
        }
        seq![first_word(t)] + words(t.skip(first_word(t).len() as int))
    }
}

/// The words of `t` joined by single spaces
/// (`split_whitespace().collect::<Vec<_>>().join(" ")`).
pub open spec fn normalized(t: Seq<char>) -> Seq<char> {
    join_seqs(words(t), seq![' '])
}

/// The cleaned form of a progress line: the words of what it keeps, joined
/// by single spaces.
pub open spec fn cleaned(s: Seq<char>) -> Seq<char> {
    normalized(kept_from(s, 0))
}

/// Text in cleaned form: non-empty words of kept, non-space characters with
/// one space between consecutive words.
pub open spec fn is_clean_word(w: Seq<char>) -> bool {
    w.len() > 0 && forall|k: int| 0 <= k < w.len() ==> is_kept_char(#[trigger] w[k]) && !is_ascii_space(w[k])
}

pub proof fn lemma_escape_end_bounds(s: Seq<char>, j: int)
    ensures
        j <= escape_end(s, j) || j > s.len(),
        escape_end(s, j) <= s.len() || j > s.len(),
        j < escape_end(s, j) || j >= s.len(),
    decreases s.len() - j,
{
    if j < s.len() && !is_ascii_letter(s[j]) {
        lemma_escape_end_bounds(s, j + 1);
    }
}

pub proof fn lemma_first_word_len(t: Seq<char>)
    ensures
        first_word(t).len() <= t.len(),
        t.len() > 0 && !is_ascii_space(t[0]) ==> first_word(t).len() > 0,
        first_word(t) == t.take(first_word(t).len() as int),
        first_word(t).len() < t.len() ==> is_ascii_space(t[first_word(t).len() as int]),
        forall|k: int| 0 <= k < first_word(t).len() ==> !is_ascii_space(#[trigger] t[k]),
    decreases t.len(),
{
    if t.len() > 0 && !is_ascii_space(t[0]) {
        lemma_first_word_len(t.skip(1));
        let w = first_word(t.skip(1));
        assert(first_word(t) =~= t.take(w.len() as int + 1)) by {
            assert(w =~= t.skip(1).take(w.len() as int));
        }
        assert forall|k: int| 0 <= k < first_word(t).len() implies !is_ascii_space(#[trigger] t[k]) by {
            if k > 0 {
                assert(t[k] == t.skip(1)[k - 1]);
            }
        }
        if first_word(t).len() < t.len() {
            assert(t[first_word(t).len() as int] == t.skip(1)[w.len() as int]);
        }
    }
}

/// ASCII letter test on a character.
fn is_letter_exec(c: char) -> (b: bool)
    ensures
        b == is_ascii_letter(c),
{
    ('a' <= c && c <= 'z') || ('A' <= c && c <= 'Z')
}

fn is_space_exec(c: char) -> (b: bool)
    ensures
        b == is_ascii_space(c),
{
    c == ' ' || c == '\t' || c == '\n' || c == '\x0C' || c == '\r'
}

fn is_kept_exec(c: char) -> (b: bool)
    ensures
        b == is_kept_char(c),
{
    is_letter_exec(c) || ('0' <= c && c <= '9') || is_space_exec(c) || c == '.' || c == ','
        || c == ':' || c == '%' || c == '/' || c == '-' || c == '_' || c == '(' || c == ')'
}

/// The kept characters of `s`, escape sequences standing as spaces.
fn kept_chars(s: &Vec<char>) -> (out: Vec<char>)
    ensures
        out@ == kept_from(s@, 0),
{
    let mut out: Vec<char> = Vec::new();
    let mut i: usize = 0;
    while i < s.len()
        invariant
            i <= s.len(),
            out@ + kept_from(s@, i as int) == kept_from(s@, 0),
        decreases s.len() - i,
    {
        let ghost before = out@;
        if s[i] == '\x1b' && i + 1 < s.len() && s[i + 1] == '[' {
            let mut j: usize = i + 2;
            proof {
                lemma_escape_end_bounds(s@, i + 2);
            }
            while j < s.len() && !is_letter_exec(s[j])
                invariant
                    i + 2 <= j <= s.len(),
                    escape_end(s@, j as int) == escape_end(s@, i + 2),
                decreases s.len() - j,
            {
                j = j + 1;
            }
            if j < s.len() {
                j = j + 1;
            }
            out.push(' ');
            assert(out@ + kept_from(s@, j as int) =~= before + (seq![' '] + kept_from(s@, j as int)));
            i = j;
        } else {
            if is_kept_exec(s[i]) {
                out.push(s[i]);
                assert(out@ + kept_from(s@, i + 1) =~= before + (seq![s@[i as int]] + kept_from(s@, i + 1)));
            }
            i = i + 1;
        }
    }
    assert(out@ + kept_from(s@, s.len() as int) =~= out@);
    out
}


/// Joining a first part in front of at least one more.
pub proof fn lemma_join_cons(w: Seq<char>, ws: Seq<Seq<char>>, sep: Seq<char>)
    requires
        ws.len() > 0,
    ensures
        join_seqs(seq![w] + ws, sep) == w + sep + join_seqs(ws, sep),
    decreases ws.len(),
{
    let all = seq![w] + ws;
    assert(all.len() >= 2);
    assert(all.last() == ws.last());
    assert(join_seqs(all, sep) == join_seqs(all.drop_last(), sep) + sep + all.last());
    if ws.len() == 1 {
        assert(all.drop_last() =~= seq![w]);
        assert(join_seqs(seq![w], sep) == w);
        assert(join_seqs(ws, sep) == ws[0]);
    } else {
        lemma_join_cons(w, ws.drop_last(), sep);
        assert(all.drop_last() =~= seq![w] + ws.drop_last());
        assert(join_seqs(ws, sep) == join_seqs(ws.drop_last(), sep) + sep + ws.last());
        assert(w + sep + join_seqs(ws, sep) =~= w + sep + join_seqs(ws.drop_last(), sep) + sep
            + ws.last());
    }
}

/// Collapses the text `t` into its words separated by single spaces.
fn normalize_chars(t: &Vec<char>) -> (out: Vec<char>)
    ensures
        out@ == normalized(t@),
{
    let mut out: Vec<char> = Vec::new();
    let mut i: usize = 0;
    let ghost sep = seq![' '];
    assert(t@.skip(0) =~= t@);
    while i < t.len()
        invariant
            i <= t.len(),
            sep == seq![' '],
            normalized(t@) == (if out@.len() == 0 {
                normalized(t@.skip(i as int))
            } else if words(t@.skip(i as int)).len() == 0 {
                out@
            } else {
                out@ + sep + normalized(t@.skip(i as int))
            }),
        decreases t.len() - i,
    {
        let ghost u = t@.skip(i as int);
        if is_space_exec(t[i]) {
            assert(u.skip(1) =~= t@.skip(i + 1));
            i = i + 1;
        } else {
            let mut j: usize = i;
            while j < t.len() && !is_space_exec(t[j])
                invariant
                    i <= j <= t.len(),
                    forall|k: int| i <= k < j ==> !is_ascii_space(#[trigger] t@[k]),
                decreases t.len() - j,
            {
                j = j + 1;
            }
            proof {
                lemma_first_word_len(u);
                let fw = first_word(u);
                if fw.len() < j - i {
                    assert(u[fw.len() as int] == t@[i + fw.len()]);
                } else if fw.len() > j - i {
                    assert(u[j - i] == t@[j as int]);
                }
                assert(fw.len() == j - i);
                assert(fw =~= t@.subrange(i as int, j as int));
                assert(u.skip(fw.len() as int) =~= t@.skip(j as int));
                assert(words(u) == seq![fw] + words(t@.skip(j as int)));
                if words(t@.skip(j as int)).len() > 0 {
                    lemma_join_cons(fw, words(t@.skip(j as int)), sep);
                } else {
                    assert(seq![fw] + words(t@.skip(j as int)) =~= seq![fw]);
                }
            }
            let ghost before = out@;
            if out.len() > 0 {
                out.push(' ');
            }
            let ghost mid = out@;
            let mut k: usize = i;
            while k < j
                invariant
                    i <= k <= j <= t.len(),
                    out@ == mid + t@.subrange(i as int, k as int),
                decreases j - k,
            {
                out.push(t[k]);
                assert(t@.subrange(i as int, k + 1) =~= t@.subrange(i as int, k as int).push(t@[k as int]));
                k = k + 1;
            }
            proof {
                let fw = t@.subrange(i as int, j as int);
                if before.len() > 0 {
                    assert(out@ =~= before + sep + fw);
                } else {
                    assert(out@ =~= fw);
                }
                if words(t@.skip(j as int)).len() > 0 {
                    assert(out@ + sep + normalized(t@.skip(j as int)) =~= (if before.len() == 0 {
                        Seq::empty()
                    } else {
                        before + sep
                    }) + (fw + sep + normalized(t@.skip(j as int))));
                }
            }
            i = j;
        }
    }
    assert(t@.skip(t.len() as int) =~= Seq::<char>::empty());
    out
}

/// Cleans a progress line printed by the model download: drops terminal
/// escape sequences (ESC `[` up to and including the next ASCII letter, each
/// acting as a word break) and every character other than ASCII letters,
/// digits, whitespace and `. , : % / - _ ( )`, then collapses whitespace into
/// single spaces with none at either end.
///
/// Every byte of a multi-byte UTF-8 character is outside ASCII, so working on
/// characters drops exactly what working on bytes drops.
pub fn clean_progress_text(text: &str) -> (out: String)
    ensures
        out@ == cleaned(text@),
{
    let chars = chars_of(text);
    let kept = kept_chars(&chars);
    let norm = normalize_chars(&kept);
    string_of_chars(&norm)
}


/// All characters of `t` survive cleaning.
pub open spec fn all_kept(t: Seq<char>) -> bool {
    forall|k: int| 0 <= k < t.len() ==> is_kept_char(#[trigger] t[k])
}

proof fn lemma_kept_from_all_kept(s: Seq<char>, i: int)
    ensures
        all_kept(kept_from(s, i)),
    decreases s.len() - i,
{
    if i < 0 || i >= s.len() {
    } else if escape_at(s, i) {
        lemma_escape_end_bounds(s, i + 2);
        lemma_kept_from_all_kept(s, escape_end(s, i + 2));
        let r = kept_from(s, escape_end(s, i + 2));
        assert forall|k: int| 0 <= k < (seq![' '] + r).len() implies is_kept_char(
            #[trigger] (seq![' '] + r)[k],
        ) by {
            if k > 0 {
                assert((seq![' '] + r)[k] == r[k - 1]);
            }
        }
    } else if is_kept_char(s[i]) {
        lemma_kept_from_all_kept(s, i + 1);
        let r = kept_from(s, i + 1);
        assert forall|k: int| 0 <= k < (seq![s[i]] + r).len() implies is_kept_char(
            #[trigger] (seq![s[i]] + r)[k],
        ) by {
            if k > 0 {
                assert((seq![s[i]] + r)[k] == r[k - 1]);
            }
        }
    } else {
        lemma_kept_from_all_kept(s, i + 1);
    }
}

proof fn lemma_kept_from_identity(t: Seq<char>, i: int)
    requires
        all_kept(t),
        0 <= i <= t.len(),
    ensures
        kept_from(t, i) == t.skip(i),
    decreases t.len() - i,
{
    if i < t.len() {
        assert(is_kept_char(t[i]));
        lemma_kept_from_identity(t, i + 1);
        assert(t.skip(i) =~= seq![t[i]] + t.skip(i + 1));
    } else {
        assert(t.skip(i) =~= Seq::<char>::empty());
    }
}

proof fn lemma_words_clean(t: Seq<char>)
    requires
        all_kept(t),
    ensures
        forall|k: int| 0 <= k < words(t).len() ==> is_clean_word(#[trigger] words(t)[k]),
    decreases t.len(),
{
    if t.len() == 0 {
    } else if is_ascii_space(t[0]) {
        assert(all_kept(t.skip(1))) by {
            assert forall|k: int| 0 <= k < t.skip(1).len() implies is_kept_char(#[trigger] t.skip(1)[k]) by {
                assert(t.skip(1)[k] == t[k + 1]);
            }
        }
        lemma_words_clean(t.skip(1));
        assert(words(t) == words(t.skip(1)));
    } else {
        lemma_first_word_len(t);
        let fw = first_word(t);
        let rest = t.skip(fw.len() as int);
        assert(all_kept(rest)) by {
            assert forall|k: int| 0 <= k < rest.len() implies is_kept_char(#[trigger] rest[k]) by {
                assert(rest[k] == t[k + fw.len()]);
            }
        }
        lemma_words_clean(rest);
        assert(words(t) == seq![fw] + words(rest));
        assert(is_clean_word(fw)) by {
            assert forall|k: int| 0 <= k < fw.len() implies is_kept_char(#[trigger] fw[k])
                && !is_ascii_space(fw[k]) by {
                assert(fw[k] == t[k]);
            }
        }
        assert forall|k: int| 0 <= k < words(t).len() implies is_clean_word(#[trigger] words(t)[k]) by {
            if k > 0 {
                assert(words(t)[k] == words(rest)[k - 1]);
            }
        }
    }
}

proof fn lemma_first_word_of_word(w: Seq<char>, tail: Seq<char>)
    requires
        forall|k: int| 0 <= k < w.len() ==> !is_ascii_space(#[trigger] w[k]),
        tail.len() == 0 || is_ascii_space(tail[0]),
    ensures
        first_word(w + tail) == w,
    decreases w.len(),
{
    if w.len() == 0 {
        assert(w + tail =~= tail);
    } else {
        assert((w + tail).skip(1) =~= w.skip(1) + tail);
        lemma_first_word_of_word(w.skip(1), tail);
        assert(w =~= seq![w[0]] + w.skip(1));
    }
}

proof fn lemma_words_of_join(ws: Seq<Seq<char>>)
    requires
        forall|k: int| 0 <= k < ws.len() ==> is_clean_word(#[trigger] ws[k]),
    ensures
        words(join_seqs(ws, seq![' '])) == ws,
    decreases ws.len(),
{
    let sep = seq![' '];
    if ws.len() == 0 {
        assert(words(Seq::<char>::empty()) =~= Seq::<Seq<char>>::empty());
    } else {
        let w = ws[0];
        let rest = ws.skip(1);
        assert(ws =~= seq![w] + rest);
        assert(is_clean_word(w));
        assert forall|k: int| 0 <= k < rest.len() implies is_clean_word(#[trigger] rest[k]) by {
            assert(rest[k] == ws[k + 1]);
        }
        lemma_words_of_join(rest);
        if rest.len() == 0 {
            assert(join_seqs(ws, sep) == w);
            lemma_first_word_of_word(w, Seq::empty());
            assert(w + Seq::<char>::empty() =~= w);
            assert(w.skip(w.len() as int) =~= Seq::<char>::empty());
            assert(words(w) =~= seq![w] + Seq::<Seq<char>>::empty());
        } else {
            lemma_join_cons(w, rest, sep);
            let j = join_seqs(rest, sep);
            let t = w + sep + j;
            lemma_first_word_of_word(w, sep + j);
            assert(t =~= w + (sep + j));
            assert(t[0] == w[0]);
            assert(t.skip(w.len() as int) =~= sep + j);
            assert((sep + j).skip(1) =~= j);
            assert(words(sep + j) == words(j));
            assert(words(t) == seq![w] + words(j));
        }
    }
}

/// The ASCII characters of `t`, in order.
pub open spec fn ascii_only(t: Seq<char>) -> Seq<char>
    decreases t.len(),
{
    if t.len() == 0 {
        Seq::empty()
    } else if t[0] <= '\x7f' {
        seq![t[0]] + ascii_only(t.skip(1))
    } else {
        ascii_only(t.skip(1))
    }
}

/// The kept characters of a text without escape sequences, in order.
spec fn keep_all(t: Seq<char>) -> Seq<char>
    decreases t.len(),
{
    if t.len() == 0 {
        Seq::empty()
    } else if is_kept_char(t[0]) {
        seq![t[0]] + keep_all(t.skip(1))
    } else {
        keep_all(t.skip(1))
    }
}

/// Without an escape character, cleaning keeps the kept characters.
proof fn lemma_kept_without_escape(s: Seq<char>, i: int)
    requires
        0 <= i <= s.len(),
        forall|k: int| 0 <= k < s.len() ==> s[k] != '\x1b',
    ensures
        kept_from(s, i) == keep_all(s.skip(i)),
    decreases s.len() - i,
{
    if i < s.len() {
        lemma_kept_without_escape(s, i + 1);
        assert(s.skip(i)[0] == s[i]);
        assert(s.skip(i).skip(1) =~= s.skip(i + 1));
    } else {
        assert(s.skip(i).len() == 0);
    }
}

/// Dropping the characters beyond ASCII changes nothing that is kept, and
/// brings in no escape character.
proof fn lemma_keep_all_ascii(t: Seq<char>)
    ensures
        keep_all(ascii_only(t)) == keep_all(t),
        (forall|k: int| 0 <= k < t.len() ==> t[k] != '\x1b') ==> forall|k: int|
            0 <= k < ascii_only(t).len() ==> ascii_only(t)[k] != '\x1b',
    decreases t.len(),
{
    if t.len() > 0 {
        lemma_keep_all_ascii(t.skip(1));
        let rest = ascii_only(t.skip(1));
        if t[0] <= '\x7f' {
            let a = seq![t[0]] + rest;
            assert(a[0] == t[0]);
            assert(a.skip(1) =~= rest);
            if forall|k: int| 0 <= k < t.len() ==> t[k] != '\x1b' {
                assert forall|k: int| 0 <= k < t.skip(1).len() implies t.skip(1)[k] != '\x1b' by {
                    assert(t.skip(1)[k] == t[k + 1]);
                }
                assert forall|k: int| 0 <= k < a.len() implies a[k] != '\x1b' by {
                    if k > 0 {
                        assert(a[k] == rest[k - 1]);
                    }
                }
            }
        } else {
            if forall|k: int| 0 <= k < t.len() ==> t[k] != '\x1b' {
                assert forall|k: int| 0 <= k < t.skip(1).len() implies t.skip(1)[k] != '\x1b' by {
                    assert(t.skip(1)[k] == t[k + 1]);
                }
            }
        }
    }
}

/// On a line without escape characters, the characters beyond ASCII are
/// dropped outright: cleaning the line gives what cleaning its ASCII
/// characters alone gives (none of them stands as a space between words).
pub proof fn lemma_clean_drops_non_ascii(s: Seq<char>)
    requires
        forall|k: int| 0 <= k < s.len() ==> s[k] != '\x1b',
    ensures
        cleaned(s) == cleaned(ascii_only(s)),
{
    let a = ascii_only(s);
    lemma_keep_all_ascii(s);
    lemma_kept_without_escape(s, 0);
    lemma_kept_without_escape(a, 0);
    assert(s.skip(0) =~= s);
    assert(a.skip(0) =~= a);
}

/// A character that a progress line keeps as it is: an ASCII letter or
/// digit, ASCII whitespace, or one of `. , : % / - _ ( )`.
pub open spec fn is_progress_text_char(c: char) -> bool {
    ||| 'a' <= c <= 'z'
    ||| 'A' <= c <= 'Z'
    ||| '0' <= c <= '9'
    ||| c == ' ' || c == '\t' || c == '\n' || c == '\x0C' || c == '\r'
    ||| c == '.' || c == ',' || c == ':' || c == '%' || c == '/' || c == '-' || c == '_' || c == '(' || c == ')'
}

/// A text made of kept characters keeps them all.
proof fn lemma_keep_all_of_kept(t: Seq<char>)
    requires
        forall|k: int| 0 <= k < t.len() ==> is_progress_text_char(#[trigger] t[k]),
    ensures
        keep_all(t) == t,
    decreases t.len(),
{
    if t.len() > 0 {
        assert forall|k: int| 0 <= k < t.skip(1).len() implies is_progress_text_char(#[trigger] t.skip(1)[k]) by {
            assert(t.skip(1)[k] == t[k + 1]);
        }
        lemma_keep_all_of_kept(t.skip(1));
        assert(is_progress_text_char(t[0]));
        assert(t =~= seq![t[0]] + t.skip(1));
    }
}

/// Cleaning keeps exactly the ASCII letters and digits, ASCII whitespace and
/// the punctuation `. , : % / - _ ( )`, so a line made only of those
/// characters loses none of them: cleaning only puts its words one space
/// apart.
pub proof fn lemma_clean_keeps_progress_text(s: Seq<char>)
    requires
        forall|k: int| 0 <= k < s.len() ==> is_progress_text_char(#[trigger] s[k]),
    ensures
        forall|c: char| #[trigger] is_kept_char(c) <==> is_progress_text_char(c),
        cleaned(s) == normalized(s),
{
    assert forall|k: int| 0 <= k < s.len() implies s[k] != '\x1b' by {
        assert(is_progress_text_char(s[k]));
    }
    lemma_kept_without_escape(s, 0);
    assert(s.skip(0) =~= s);
    lemma_keep_all_of_kept(s);
}

/// Cleaning is idempotent: a cleaned line is left as it is.
pub proof fn lemma_clean_idempotent(s: Seq<char>)
    ensures
        cleaned(cleaned(s)) == cleaned(s),
{
    let t = kept_from(s, 0);
    lemma_kept_from_all_kept(s, 0);
    lemma_words_clean(t);
    let o = cleaned(s);
    lemma_words_of_join(words(t));
    lemma_join_all_kept(words(t));
    lemma_kept_from_identity(o, 0);
    assert(o.skip(0) =~= o);
}

proof fn lemma_join_all_kept(ws: Seq<Seq<char>>)
    requires
        forall|k: int| 0 <= k < ws.len() ==> is_clean_word(#[trigger] ws[k]),
    ensures
        all_kept(join_seqs(ws, seq![' '])),
    decreases ws.len(),
{
    let sep = seq![' '];
    if ws.len() == 0 {
    } else if ws.len() == 1 {
        assert(is_clean_word(ws[0]));
    } else {
        assert forall|k: int| 0 <= k < ws.drop_last().len() implies is_clean_word(
            #[trigger] ws.drop_last()[k],
        ) by {
            assert(ws.drop_last()[k] == ws[k]);
        }
        lemma_join_all_kept(ws.drop_last());
        let a = join_seqs(ws.drop_last(), sep);
        let l = ws.last();
        assert(is_clean_word(ws[ws.len() - 1]));
        assert forall|k: int| 0 <= k < (a + sep + l).len() implies is_kept_char(
            #[trigger] (a + sep + l)[k],
        ) by {
            if k < a.len() {
                assert((a + sep + l)[k] == a[k]);
            } else if k == a.len() {
                assert((a + sep + l)[k] == ' ');
            } else {
                assert((a + sep + l)[k] == l[k - a.len() - 1]);
            }
        }
    }
}

/// Text in which every character survives cleaning and each whitespace
/// character is a single space between two non-space characters.
pub open spec fn single_spaced(t: Seq<char>) -> bool {
    forall|k: int|
        0 <= k < t.len() ==> is_kept_char(#[trigger] t[k]) && (is_ascii_space(t[k]) ==> (t[k] == ' ' && 0 < k
            && k + 1 < t.len() && !is_ascii_space(t[k - 1]) && !is_ascii_space(t[k + 1])))
}

proof fn lemma_join_single_spaced(ws: Seq<Seq<char>>)
    requires
        forall|k: int| 0 <= k < ws.len() ==> is_clean_word(#[trigger] ws[k]),
    ensures
        single_spaced(join_seqs(ws, seq![' '])),
        ws.len() > 0 ==> join_seqs(ws, seq![' ']).len() > 0 && !is_ascii_space(
            join_seqs(ws, seq![' ']).last(),
        ) && !is_ascii_space(join_seqs(ws, seq![' '])[0]),
    decreases ws.len(),
{
    let sep = seq![' '];
    if ws.len() == 0 {
    } else if ws.len() == 1 {
        let w = ws[0];
        assert(is_clean_word(w));
        assert(join_seqs(ws, sep) == w);
        assert(!is_ascii_space(w[w.len() - 1]));
    } else {
        let init = ws.drop_last();
        assert forall|k: int| 0 <= k < init.len() implies is_clean_word(#[trigger] init[k]) by {
            assert(init[k] == ws[k]);
        }
        lemma_join_single_spaced(init);
        let a = join_seqs(init, sep);
        let l = ws.last();
        assert(is_clean_word(ws[ws.len() - 1]));
        let t = a + sep + l;
        assert(join_seqs(ws, sep) == t);
        assert forall|k: int| 0 <= k < t.len() implies is_kept_char(#[trigger] t[k]) && (is_ascii_space(t[k])
            ==> (t[k] == ' ' && 0 < k && k + 1 < t.len() && !is_ascii_space(t[k - 1]) && !is_ascii_space(
            t[k + 1],
        ))) by {
            if k < a.len() {
                assert(t[k] == a[k]);
                if k > 0 {
                    assert(t[k - 1] == a[k - 1]);
                }
                if k + 1 < a.len() {
                    assert(t[k + 1] == a[k + 1]);
                }
            } else if k == a.len() {
                assert(t[k] == ' ');
                assert(t[k - 1] == a[a.len() - 1]);
                assert(t[k + 1] == l[0]);
            } else {
                assert(t[k] == l[k - a.len() - 1]);
            }
        }
        assert(t.last() == l[l.len() - 1]);
        assert(t[0] == a[0]);
    }
}

/// A cleaned line is in single-spaced form: only characters that survive
/// cleaning, no whitespace but single spaces between words, none at either
/// end.
pub proof fn lemma_cleaned_single_spaced(s: Seq<char>)
    ensures
        single_spaced(cleaned(s)),
{
    let t = kept_from(s, 0);
    lemma_kept_from_all_kept(s, 0);
    lemma_words_clean(t);
    lemma_join_single_spaced(words(t));
}

/// The message that a line of download progress shows, if any: none for an
/// empty line or one that cleans to nothing.
pub fn progress_message(line: &str) -> (msg: Option<String>)
    ensures
        line@.len() == 0 ==> msg is None,
        line@.len() > 0 ==> (msg is None <==> cleaned(line@).len() == 0),
        msg matches Some(m) ==> m@ == cleaned(line@),
{
    let chars = chars_of(line);
    if chars.len() == 0 {
        return None;
    }
    let cleaned_line = clean_progress_text(line);
    if cleaned_line.as_str().unicode_len() == 0 {
        None
    } else {
        Some(cleaned_line)
    }
}

} // verus!
