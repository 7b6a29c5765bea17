//! Text helpers: characters of a string, replacing a pattern, comparing
//! strings, and writing integers in decimal.

use vstd::prelude::*;

verus! {

/// `String::push`: appends one character.
#[verifier::external_body]
pub(crate) fn push_char(s: &mut String, c: char)
    ensures
        final(s)@ == old(s)@.push(c),
{
    s.push(c)
}

/// The characters of `s`, in order.
pub fn chars_of(s: &str) -> (v: Vec<char>)
    ensures
        v@ == s@,
{
    let mut v: Vec<char> = Vec::new();
    for c in it: s.chars()
        invariant
            v@ == it.seq().take(it.index() as int),
            it.seq() == s@,
    {
        v.push(c);
    }
    v
}

/// The string made of the characters `v`.
pub fn string_of(v: &Vec<char>) -> (s: String)
    ensures
        s@ == v@,
{
    let mut s = String::new();
    for i in 0..v.len()
        invariant
            s@ == v@.take(i as int),
    {
        push_char(&mut s, v[i]);
        assert(v@.take(i + 1) =~= v@.take(i as int).push(v@[i as int]));
    }
    assert(v@.take(v.len() as int) =~= v@);
    s
}

/// `s` with every occurrence of the non-empty `pat` replaced by `rep`,
/// matches taken from the left without overlapping (as `str::replace`
/// does).
pub open spec fn replace_all(s: Seq<char>, pat: Seq<char>, rep: Seq<char>) -> Seq<char>
    decreases s.len(),
{
    if s.len() == 0 {
        Seq::empty()
    } else if 0 < pat.len() <= s.len() && s.take(pat.len() as int) == pat {
        rep + replace_all(s.skip(pat.len() as int), pat, rep)
    } else {
        seq![s[0]] + replace_all(s.skip(1), pat, rep)
    }
}

/// Replacing a single character by text that does not hold it leaves no
/// occurrence of that character.
pub proof fn lemma_replace_char_gone(s: Seq<char>, c: char, rep: Seq<char>)
    requires
        !rep.contains(c),
    ensures
        !replace_all(s, seq![c], rep).contains(c),
    decreases s.len(),
{
    if s.len() > 0 {
        if s.take(1) == seq![c] {
            lemma_replace_char_gone(s.skip(1), c, rep);
            assert(!(rep + replace_all(s.skip(1), seq![c], rep)).contains(c)) by {
                let t = rep + replace_all(s.skip(1), seq![c], rep);
                assert forall|i: int| 0 <= i < t.len() implies t[i] != c by {
                    if i < rep.len() {
                        assert(rep[i] == t[i]);
                    } else {
                        assert(replace_all(s.skip(1), seq![c], rep)[i - rep.len()] == t[i]);
                    }
                }
            }
        } else {
            assert(s[0] != c) by {
                if s[0] == c {
                    assert(s.take(1) =~= seq![c]);
                }
            }
            lemma_replace_char_gone(s.skip(1), c, rep);
            let t = seq![s[0]] + replace_all(s.skip(1), seq![c], rep);
            assert forall|i: int| 0 <= i < t.len() implies t[i] != c by {
                if i > 0 {
                    assert(replace_all(s.skip(1), seq![c], rep)[i - 1] == t[i]);
                }
            }
        }
    }
}

/// Replacing a pattern by text at least as long never shortens a string.
pub proof fn lemma_replace_not_shorter(s: Seq<char>, pat: Seq<char>, rep: Seq<char>)
    requires
        0 < pat.len() <= rep.len(),
    ensures
        replace_all(s, pat, rep).len() >= s.len(),
    decreases s.len(),
{
    if s.len() > 0 {
        if pat.len() <= s.len() && s.take(pat.len() as int) == pat {
            lemma_replace_not_shorter(s.skip(pat.len() as int), pat, rep);
        } else {
            lemma_replace_not_shorter(s.skip(1), pat, rep);
        }
    }
}

/// A string without the first character of a pattern is left as it is.
pub proof fn lemma_replace_absent(s: Seq<char>, pat: Seq<char>, rep: Seq<char>)
    requires
        pat.len() > 0,
        !s.contains(pat[0]),
    ensures
        replace_all(s, pat, rep) == s,
    decreases s.len(),
{
    if s.len() > 0 {
        if pat.len() <= s.len() && s.take(pat.len() as int) == pat {
            assert(s[0] == s.take(pat.len() as int)[0]);
        }
        assert(!s.skip(1).contains(pat[0])) by {
            if s.skip(1).contains(pat[0]) {
                let j = choose|j: int| 0 <= j < s.skip(1).len() && s.skip(1)[j] == pat[0];
                assert(s[j + 1] == pat[0]);
            }
        }
        lemma_replace_absent(s.skip(1), pat, rep);
        assert(seq![s[0]] + s.skip(1) =~= s);
    } else {
        assert(s =~= Seq::<char>::empty());
    }
}

/// Replacing never brings in a character that neither the string nor the
/// replacement holds.
pub proof fn lemma_replace_no_new_char(s: Seq<char>, pat: Seq<char>, rep: Seq<char>, d: char)
    requires
        !s.contains(d),
        !rep.contains(d),
    ensures
        !replace_all(s, pat, rep).contains(d),
    decreases s.len(),
{
    if s.len() > 0 {
        let k: int = if 0 < pat.len() <= s.len() && s.take(pat.len() as int) == pat { pat.len() as int } else { 1 };
        let head = if k == 1 && !(0 < pat.len() <= s.len() && s.take(pat.len() as int) == pat) { seq![s[0]] } else { rep };
        assert(!s.skip(k).contains(d)) by {
            if s.skip(k).contains(d) {
                let j = choose|j: int| 0 <= j < s.skip(k).len() && s.skip(k)[j] == d;
                assert(s[j + k] == d);
            }
        }
        lemma_replace_no_new_char(s.skip(k), pat, rep, d);
        let rest = replace_all(s.skip(k), pat, rep);
        assert(!head.contains(d)) by {
            if head =~= seq![s[0]] && head.contains(d) {
                assert(head[0] == s[0]);
            }
        }
        let t = head + rest;
        assert(replace_all(s, pat, rep) == t);
        assert forall|i: int| 0 <= i < t.len() implies t[i] != d by {
            if i < head.len() {
                assert(t[i] == head[i]);
            } else {
                assert(t[i] == rest[i - head.len()]);
            }
        }
    }
}

/// Replacing a single character works piece by piece.
pub proof fn lemma_replace_char_concat(a: Seq<char>, b: Seq<char>, c: char, rep: Seq<char>)
    ensures
        replace_all(a + b, seq![c], rep) == replace_all(a, seq![c], rep) + replace_all(b, seq![c], rep),
    decreases a.len(),
{
    if a.len() == 0 {
        assert(a + b =~= b);
        assert(replace_all(a, seq![c], rep) =~= Seq::<char>::empty());
        assert(Seq::<char>::empty() + replace_all(b, seq![c], rep) =~= replace_all(b, seq![c], rep));
    } else {
        let ab = a + b;
        assert(ab[0] == a[0]);
        assert(ab.skip(1) =~= a.skip(1) + b);
        assert(ab.take(1) =~= seq![a[0]]);
        assert(a.take(1) =~= seq![a[0]]);
        lemma_replace_char_concat(a.skip(1), b, c, rep);
        if a[0] == c {
            assert(replace_all(ab, seq![c], rep) == rep + replace_all(ab.skip(1), seq![c], rep));
            assert(replace_all(a, seq![c], rep) == rep + replace_all(a.skip(1), seq![c], rep));
            assert(rep + (replace_all(a.skip(1), seq![c], rep) + replace_all(b, seq![c], rep)) =~= (rep + replace_all(
                a.skip(1),
                seq![c],
                rep,
            )) + replace_all(b, seq![c], rep));
        } else {
            assert(ab.take(1) != seq![c]) by {
                assert(ab.take(1)[0] != seq![c][0]);
            }
            assert(a.take(1) != seq![c]) by {
                assert(a.take(1)[0] != seq![c][0]);
            }
            assert(seq![a[0]] + (replace_all(a.skip(1), seq![c], rep) + replace_all(b, seq![c], rep)) =~= (seq![a[0]]
                + replace_all(a.skip(1), seq![c], rep)) + replace_all(b, seq![c], rep));
        }
    }
}

/// Replacing a single character in a one-character string.
pub proof fn lemma_replace_char_single(ch: char, c: char, rep: Seq<char>)
    ensures
        replace_all(seq![ch], seq![c], rep) == if ch == c {
            rep
        } else {
            seq![ch]
        },
{
    let s = seq![ch];
    assert(s.take(1) =~= s);
    assert(s.skip(1) =~= Seq::<char>::empty());
    assert(replace_all(Seq::<char>::empty(), seq![c], rep) =~= Seq::<char>::empty());
    if ch == c {
        assert(s =~= seq![c]);
        assert(rep + Seq::<char>::empty() =~= rep);
    } else {
        assert(s.take(1) != seq![c]) by {
            assert(s.take(1)[0] != seq![c][0]);
        }
        assert(seq![ch] + Seq::<char>::empty() =~= seq![ch]);
    }
}

/// Whether `pat` occurs in `s` at position `i`.
fn matches_at(s: &Vec<char>, i: usize, pat: &Vec<char>) -> (b: bool)
    requires
        i <= s.len(),
    ensures
        b == (pat.len() <= s.len() - i && s@.skip(i as int).take(pat.len() as int) == pat@),
{
    if pat.len() > s.len() - i {
        return false;
    }
    let mut k: usize = 0;
    while k < pat.len()
        invariant
            pat.len() <= s.len() - i,
            k <= pat.len(),
            forall|j: int| 0 <= j < k ==> s@[i + j] == pat@[j],
        decreases pat.len() - k,
    {
        if s[i + k] != pat[k] {
            assert(s@.skip(i as int).take(pat.len() as int)[k as int] != pat@[k as int]);
            return false;
        }
        k += 1;
    }
    assert(s@.skip(i as int).take(pat.len() as int) =~= pat@);
    true
}

/// `str::replace` for a non-empty pattern, on characters.
pub fn replace(s: &str, pat: &Vec<char>, rep: &Vec<char>) -> (r: String)
    requires
        pat.len() > 0,
    ensures
        r@ == replace_all(s@, pat@, rep@),
{
    let cs = chars_of(s);
    let mut out: Vec<char> = Vec::new();
    let mut i: usize = 0;
    assert(s@.skip(0) =~= s@);
    assert(out@ + replace_all(s@, pat@, rep@) =~= replace_all(s@, pat@, rep@));
    while i < cs.len()
        invariant
            cs@ == s@,
            pat.len() > 0,
            i <= cs.len(),
            replace_all(s@, pat@, rep@) == out@ + replace_all(s@.skip(i as int), pat@, rep@),
        decreases cs.len() - i,
    {
        let ghost rest = s@.skip(i as int);
        let ghost before = out@;
        if matches_at(&cs, i, pat) {
            assert(rest.take(pat@.len() as int) == pat@);
            for k in 0..rep.len()
                invariant
                    out@ == before + rep@.take(k as int),
            {
                out.push(rep[k]);
                assert(rep@.take(k + 1) =~= rep@.take(k as int).push(rep@[k as int]));
            }
            assert(rep@.take(rep.len() as int) =~= rep@);
            assert(rest.skip(pat@.len() as int) =~= s@.skip(i + pat.len()));
            i = i + pat.len();
        } else {
            assert(rest.skip(1) =~= s@.skip(i + 1));
            out.push(cs[i]);
            i = i + 1;
        }
    }
    assert(s@.skip(i as int) =~= Seq::<char>::empty());
    string_of(&out)
}

/// Whether the two strings hold the same characters.
pub fn same_text(a: &str, b: &str) -> (r: bool)
    ensures
        r == (a@ == b@),
{
    let x = chars_of(a);
    let y = chars_of(b);
    if x.len() != y.len() {
        return false;
    }
    let mut i: usize = 0;
    while i < x.len()
        invariant
            x@ == a@,
            y@ == b@,
            x.len() == y.len(),
            i <= x.len(),
            forall|j: int| 0 <= j < i ==> x@[j] == y@[j],
        decreases x.len() - i,
    {
        if x[i] != y[i] {
            return false;
        }
        i += 1;
    }
    assert(x@ =~= y@);
    true
}

/// The character of the decimal digit `d`.
pub open spec fn digit_char(d: int) -> char {
    ((48 + d) as u8) as char
}

/// The decimal digits of `n`, without leading zeros (`0` is `"0"`).
pub open spec fn digits(n: nat) -> Seq<char>
    decreases n,
{
    if n < 10 {
        seq![digit_char(n as int)]
    } else {
        digits(n / 10).push(digit_char((n % 10) as int))
    }
}

/// `n` written in decimal, with a leading `-` when negative, as `Display`
/// writes integers.
pub open spec fn decimal(n: int) -> Seq<char> {
    if n < 0 {
        seq!['-'] + digits((-n) as nat)
    } else {
        digits(n as nat)
    }
}

fn push_digits(s: &mut String, m: u64)
    ensures
        final(s)@ == old(s)@ + digits(m as nat),
    decreases m,
{
    if m >= 10 {
        push_digits(s, m / 10);
    }
    let d = (m % 10) as u8;
    push_char(s, (48u8 + d) as char);
    assert(digits(m as nat) == if m < 10 { seq![digit_char(m as int)] } else { digits((m / 10) as nat).push(digit_char((m % 10) as int)) });
    if m < 10 {
        assert(m % 10 == m);
    }
}

/// Appends `n` in decimal.
pub fn push_decimal(s: &mut String, n: i64)
    ensures
        final(s)@ == old(s)@ + decimal(n as int),
{
    if n < 0 {
        push_char(s, '-');
        let m = (0i128 - n as i128) as u64;
        push_digits(s, m);
        assert(old(s)@.push('-') + digits(m as nat) =~= old(s)@ + (seq!['-'] + digits(m as nat)));
    } else {
        push_digits(s, n as u64);
    }
}

} // verus!
