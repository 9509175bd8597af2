//! Character-level plumbing: conversions between `String` and `Vec<char>`,
//! ASCII case folding, and a lexicographic order on character sequences.

use vstd::prelude::*;
use vstd::string::*;

verus! {

/// Collects the characters of a string slice into a vector.
pub fn chars_of_str(s: &str) -> (v: Vec<char>)
    ensures
        v@ == s@,
{
    let n = s.unicode_len();
    let mut v: Vec<char> = Vec::new();
    let mut i: usize = 0;
    while i < n
        invariant
            n == s@.len(),
            i <= n,
            v@ == s@.take(i as int),
        decreases n - i,
    {
        v.push(s.get_char(i));
        i = i + 1;
        proof {
            assert(v@ =~= s@.take(i as int));
        }
    }
    proof {
        assert(s@.take(n as int) =~= s@);
    }
    v
}

/// Relies on `String::push`: appends the given character to the end of the string.
#[verifier::external_body]
fn push_char(s: &mut String, c: char)
    ensures
        final(s)@ == old(s)@.push(c),
{
    s.push(c)
}

/// Builds a `String` whose characters are exactly those of the vector.
pub fn string_of_chars(v: &Vec<char>) -> (s: String)
    ensures
        s@ == v@,
{
    let mut s = String::new();
    let mut i: usize = 0;
    while i < v.len()
        invariant
            i <= v@.len(),
            s@ == v@.take(i as int),
        decreases v@.len() - i,
    {
        push_char(&mut s, v[i]);
        i = i + 1;
        proof {
            assert(s@ =~= v@.take(i as int));
        }
    }
    proof {
        assert(v@.take(v@.len() as int) =~= v@);
    }
    s
}

/// Character-for-character equality of two string slices.
pub fn str_eq(a: &str, b: &str) -> (r: bool)
    ensures
        r == (a@ == b@),
{
    let na = a.unicode_len();
    let nb = b.unicode_len();
    if na != nb {
        return false;
    }
    let mut i: usize = 0;
    while i < na
        invariant
            na == a@.len(),
            na == b@.len(),
            i <= na,
            forall|k: int| 0 <= k < i ==> a@[k] == b@[k],
        decreases na - i,
    {
        if a.get_char(i) != b.get_char(i) {
            return false;
        }
        i = i + 1;
    }
    proof {
        assert(a@ =~= b@);
    }
    true
}

/// True of the ASCII capital letters.
pub open spec fn is_ascii_upper(c: char) -> bool {
    65 <= c as u32 <= 90
}

/// The lower-case counterpart of an ASCII capital letter; any other character
/// is left unchanged.
pub open spec fn lower_char_spec(c: char) -> char {
    if is_ascii_upper(c) {
        ((c as u32) + 32) as char
    } else {
        c
    }
}

/// Folds one ASCII capital letter to lower case.
pub fn lower_char(c: char) -> (r: char)
    ensures
        r == lower_char_spec(c),
{
    let u = c as u32;
    if 65 <= u && u <= 90 {
        let r = match c {
            'A' => 'a',
            'B' => 'b',
            'C' => 'c',
            'D' => 'd',
            'E' => 'e',
            'F' => 'f',
            'G' => 'g',
            'H' => 'h',
            'I' => 'i',
            'J' => 'j',
            'K' => 'k',
            'L' => 'l',
            'M' => 'm',
            'N' => 'n',
            'O' => 'o',
            'P' => 'p',
            'Q' => 'q',
            'R' => 'r',
            'S' => 's',
            'T' => 't',
            'U' => 'u',
            'V' => 'v',
            'W' => 'w',
            'X' => 'x',
            'Y' => 'y',
            'Z' => 'z',
            _ => c,
        };
        proof {
            vstd::utf8::char_u32_cast(c, c as u32);
        }
        r
    } else {
        c
    }
}

/// Lexicographic order on character sequences, by code point.
pub open spec fn lex_le(a: Seq<char>, b: Seq<char>) -> bool
    decreases a.len(),
{
    if a.len() == 0 {
        true
    } else if b.len() == 0 {
        false
    } else if (a[0] as u32) < (b[0] as u32) {
        true
    } else if (a[0] as u32) > (b[0] as u32) {
        false
    } else {
        lex_le(a.drop_first(), b.drop_first())
    }
}

/// Strict lexicographic order on character sequences.
pub open spec fn lex_lt(a: Seq<char>, b: Seq<char>) -> bool {
    lex_le(a, b) && a != b
}

/// The lexicographic order relates every pair of character sequences.
pub proof fn lemma_lex_total(a: Seq<char>, b: Seq<char>)
    ensures
        lex_le(a, b) || lex_le(b, a),
    decreases a.len(),
{
    if a.len() == 0 || b.len() == 0 {
    } else if (a[0] as u32) == (b[0] as u32) {
        lemma_lex_total(a.drop_first(), b.drop_first());
    }
}

/// Two character sequences below each other are equal.
pub proof fn lemma_lex_antisym(a: Seq<char>, b: Seq<char>)
    requires
        lex_le(a, b),
        lex_le(b, a),
    ensures
        a == b,
    decreases a.len(),
{
    if a.len() == 0 {
        assert(b.len() == 0);
        assert(a =~= b);
    } else {
        assert((a[0] as u32) == (b[0] as u32));
        vstd::utf8::char_u32_cast(a[0], a[0] as u32);
        vstd::utf8::char_u32_cast(b[0], b[0] as u32);
        assert(a[0] == b[0]);
        lemma_lex_antisym(a.drop_first(), b.drop_first());
        assert(a =~= seq![a[0]] + a.drop_first());
        assert(b =~= seq![b[0]] + b.drop_first());
    }
}

/// The lexicographic order is transitive.
pub proof fn lemma_lex_trans(a: Seq<char>, b: Seq<char>, c: Seq<char>)
    requires
        lex_le(a, b),
        lex_le(b, c),
    ensures
        lex_le(a, c),
    decreases a.len(),
{
    if a.len() == 0 || b.len() == 0 || c.len() == 0 {
    } else if (a[0] as u32) == (b[0] as u32) && (b[0] as u32) == (c[0] as u32) {
        lemma_lex_trans(a.drop_first(), b.drop_first(), c.drop_first());
    }
}

/// Decides `lex_le` on two strings.
pub fn string_le(a: &String, b: &String) -> (r: bool)
    ensures
        r == lex_le(a@, b@),
{
    let na = a.as_str().unicode_len();
    let nb = b.as_str().unicode_len();
    let mut i: usize = 0;
    proof {
        assert(a@.skip(0) =~= a@);
        assert(b@.skip(0) =~= b@);
    }
    while i < na && i < nb
        invariant
            na == a@.len(),
            nb == b@.len(),
            i <= na,
            i <= nb,
            lex_le(a@, b@) == lex_le(a@.skip(i as int), b@.skip(i as int)),
        decreases na - i,
    {
        let ca = a.as_str().get_char(i);
        let cb = b.as_str().get_char(i);
        proof {
            assert(a@.skip(i as int)[0] == a@[i as int]);
            assert(b@.skip(i as int)[0] == b@[i as int]);
        }
        if (ca as u32) < (cb as u32) {
            return true;
        }
        if (ca as u32) > (cb as u32) {
            return false;
        }
        proof {
            assert(a@.skip(i as int).drop_first() =~= a@.skip(i + 1));
            assert(b@.skip(i as int).drop_first() =~= b@.skip(i + 1));
        }
        i = i + 1;
    }
    proof {
        if i >= na {
            assert(a@.skip(i as int).len() == 0);
        } else {
            assert(b@.skip(i as int).len() == 0);
            assert(a@.skip(i as int).len() > 0);
        }
    }
    i >= na
}

/// True when some string of the sequence has exactly these characters.
pub open spec fn has_str(v: Seq<String>, x: Seq<char>) -> bool {
    exists|i: int| 0 <= i < v.len() && v[i]@ == x
}

/// Ascending strict lexicographic order, which also rules out duplicates.
pub open spec fn strings_strictly_sorted(v: Seq<String>) -> bool {
    forall|i: int, j: int| 0 <= i < j < v.len() ==> lex_lt(#[trigger] v[i]@, #[trigger] v[j]@)
}

/// The index at which `x` belongs in the sorted vector: everything before it
/// is strictly below `x`.
fn lower_bound(out: &Vec<String>, x: &String) -> (j: usize)
    requires
        strings_strictly_sorted(out@),
    ensures
        j <= out@.len(),
        forall|k: int| 0 <= k < j ==> lex_lt(#[trigger] out@[k]@, x@),
        j < out@.len() ==> lex_le(x@, out@[j as int]@),
{
    let mut j: usize = 0;
    while j < out.len()
        invariant
            j <= out@.len(),
            strings_strictly_sorted(out@),
            forall|k: int| 0 <= k < j ==> lex_lt(#[trigger] out@[k]@, x@),
        decreases out@.len() - j,
    {
        let below = string_le(&out[j], x);
        let back = string_le(x, &out[j]);
        if !below {
            proof {
                lemma_lex_total(x@, out@[j as int]@);
            }
            return j;
        }
        if back {
            proof {
                lemma_lex_antisym(out@[j as int]@, x@);
            }
            return j;
        }
        j = j + 1;
    }
    j
}

/// Inserts `x` into a sorted vector unless an equal string is already there.
fn insert_unique(out: &mut Vec<String>, x: String)
    requires
        strings_strictly_sorted(old(out)@),
    ensures
        strings_strictly_sorted(final(out)@),
        forall|y: Seq<char>|
            #![trigger has_str(final(out)@, y)]
            #![trigger has_str(old(out)@, y)]
            has_str(final(out)@, y) == (has_str(old(out)@, y) || y == x@),
{
    let j = lower_bound(out, &x);
    if j < out.len() {
        if crate::text::str_eq(out[j].as_str(), x.as_str()) {
            proof {
                assert(has_str(out@, x@));
            }
            return ;
        }
    }
    let ghost prior = out@;
    out.insert(j, x);
    proof {
        prior.insert_ensures(j as int, x);
        assert forall|p: int, q: int| 0 <= p < q < out@.len() implies lex_lt(
            #[trigger] out@[p]@,
            #[trigger] out@[q]@,
        ) by {
            let a = out@[p]@;
            let b = out@[q]@;
            if p < j && q == j {
                // a is below x
            } else if p == j && q > j {
                // x is at most prior[q - 1]; and not equal to it
                assert(out@[q] == prior[q - 1]);
                if j < prior.len() {
                    if prior[j as int]@ == b {
                        assert(lex_le(a, b));
                        assert(a != b);
                    } else {
                        assert(lex_lt(prior[j as int]@, b));
                        lemma_lex_trans(a, prior[j as int]@, b);
                        if a == b {
                            lemma_lex_antisym(prior[j as int]@, b);
                        }
                    }
                }
            } else if p < j && q > j {
                assert(out@[q] == prior[q - 1]);
                assert(lex_lt(a, x@));
                if j < prior.len() {
                    if prior[j as int]@ == b {
                        lemma_lex_trans(a, x@, b);
                        if a == b {
                            lemma_lex_antisym(a, x@);
                        }
                    } else {
                        assert(lex_lt(prior[j as int]@, b));
                        lemma_lex_trans(a, x@, prior[j as int]@);
                        lemma_lex_trans(a, prior[j as int]@, b);
                        if a == b {
                            lemma_lex_antisym(a, prior[j as int]@);
                        }
                    }
                }
            } else if p < j && q < j {
                assert(out@[p] == prior[p]);
                assert(out@[q] == prior[q]);
            } else {
                assert(p > j || (p == j && q == j));
                assert(out@[p] == prior[p - 1]);
                assert(out@[q] == prior[q - 1]);
            }
        }
        assert forall|y: Seq<char>|
            has_str(out@, y) == (has_str(prior, y) || y == x@) by {
            if has_str(out@, y) {
                let i = choose|i: int| 0 <= i < out@.len() && out@[i]@ == y;
                if i < j {
                    assert(out@[i] == prior[i]);
                    assert(has_str(prior, y));
                } else if i == j {
                    assert(y == x@);
                } else {
                    assert(out@[i] == prior[i - 1]);
                    assert(has_str(prior, y));
                }
            }
            if has_str(prior, y) {
                let i = choose|i: int| 0 <= i < prior.len() && prior[i]@ == y;
                if i < j {
                    assert(out@[i]@ == y);
                    assert(has_str(out@, y));
                } else {
                    assert(out@[i + 1]@ == y);
                    assert(has_str(out@, y));
                }
            }
            if y == x@ {
                assert(out@[j as int]@ == y);
                assert(has_str(out@, y));
            }
        }
    }
}

/// Sorts a list of strings ascending and drops duplicates: the result is the
/// strictly ascending enumeration of the distinct strings of the input.
pub fn sort_dedup_strings(v: &Vec<String>) -> (r: Vec<String>)
    ensures
        strings_strictly_sorted(r@),
        forall|y: Seq<char>|
            #![trigger has_str(r@, y)]
            #![trigger has_str(v@, y)]
            has_str(r@, y) == has_str(v@, y),
{
    let mut out: Vec<String> = Vec::new();
    let mut i: usize = 0;
    while i < v.len()
        invariant
            i <= v@.len(),
            strings_strictly_sorted(out@),
            forall|y: Seq<char>|
                #![trigger has_str(out@, y)]
                has_str(out@, y) == has_str(v@.take(i as int), y),
        decreases v@.len() - i,
    {
        let ghost before = out@;
        insert_unique(&mut out, v[i].clone());
        i = i + 1;
        proof {
            assert forall|y: Seq<char>| #![trigger has_str(out@, y)]
                has_str(out@, y) == has_str(v@.take(i as int), y) by {
                assert(has_str(out@, y) == (has_str(before, y) || y == v@[i - 1]@));
                if has_str(v@.take(i as int), y) {
                    let k = choose|k: int| 0 <= k < i && v@.take(i as int)[k]@ == y;
                    if k < i - 1 {
                        assert(v@.take(i - 1)[k]@ == y);
                        assert(has_str(v@.take(i - 1), y));
                    } else {
                        assert(y == v@[i - 1]@);
                    }
                }
                if has_str(before, y) {
                    let k = choose|k: int| 0 <= k < i - 1 && #[trigger] v@.take(i - 1)[k]@ == y;
                    assert(v@.take(i as int)[k]@ == y);
                    assert(has_str(v@.take(i as int), y));
                }
                if y == v@[i - 1]@ {
                    assert(v@.take(i as int)[i - 1]@ == y);
                    assert(has_str(v@.take(i as int), y));
                }
            }
        }
    }
    proof {
        assert(v@.take(v@.len() as int) =~= v@);
    }
    out
}

/// Two strictly sorted string lists with the same member strings are the same
/// list: sorting and deduplication make the manifest deterministic.
pub proof fn lemma_sorted_dedup_unique(a: Seq<String>, b: Seq<String>)
    requires
        strings_strictly_sorted(a),
        strings_strictly_sorted(b),
        forall|y: Seq<char>| has_str(a, y) == has_str(b, y),
    ensures
        a.len() == b.len(),
        forall|i: int| 0 <= i < a.len() ==> a[i]@ == b[i]@,
    decreases a.len(),
{
    if a.len() == 0 {
        if b.len() > 0 {
            assert(has_str(b, b[0]@));
            assert(has_str(a, b[0]@));
        }
    } else if b.len() == 0 {
        assert(has_str(a, a[0]@));
        assert(has_str(b, a[0]@));
    } else {
        // the heads are equal: each head is a member of the other list, and
        // everything past a head is strictly above it
        assert(has_str(a, a[0]@));
        assert(has_str(b, a[0]@));
        assert(has_str(b, b[0]@));
        assert(has_str(a, b[0]@));
        let ia = choose|i: int| 0 <= i < a.len() && a[i]@ == b[0]@;
        let ib = choose|i: int| 0 <= i < b.len() && b[i]@ == a[0]@;
        if ia > 0 {
            assert(lex_lt(a[0]@, a[ia]@));
        }
        if ib > 0 {
            assert(lex_lt(b[0]@, b[ib]@));
        }
        if a[0]@ != b[0]@ {
            assert(lex_lt(a[0]@, b[0]@) || lex_lt(b[0]@, a[0]@));
            lemma_lex_antisym(a[0]@, b[0]@);
        }
        let at = a.drop_first();
        let bt = b.drop_first();
        assert forall|y: Seq<char>| has_str(at, y) == has_str(bt, y) by {
            if has_str(at, y) {
                let i = choose|i: int| 0 <= i < at.len() && at[i]@ == y;
                assert(a[i + 1]@ == y);
                assert(has_str(a, y));
                assert(has_str(b, y));
                let k = choose|k: int| 0 <= k < b.len() && b[k]@ == y;
                assert(lex_lt(a[0]@, a[i + 1]@));
                if k == 0 {
                    assert(y == b[0]@);
                    assert(y == a[0]@);
                    assert(lex_lt(a[0]@, y));
                }
                assert(k > 0);
                assert(bt[k - 1]@ == y);
                assert(has_str(bt, y));
            }
            if has_str(bt, y) {
                let i = choose|i: int| 0 <= i < bt.len() && bt[i]@ == y;
                assert(b[i + 1]@ == y);
                assert(has_str(b, y));
                assert(has_str(a, y));
                let k = choose|k: int| 0 <= k < a.len() && a[k]@ == y;
                assert(lex_lt(b[0]@, b[i + 1]@));
                if k == 0 {
                    assert(y == a[0]@);
                    assert(y == b[0]@);
                    assert(lex_lt(b[0]@, y));
                }
                assert(k > 0);
                assert(at[k - 1]@ == y);
                assert(has_str(at, y));
            }
        }
        lemma_sorted_dedup_unique(at, bt);
        assert forall|i: int| 0 <= i < a.len() implies a[i]@ == b[i]@ by {
            if i > 0 {
                assert(at[i - 1]@ == bt[i - 1]@);
            }
        }
    }
}

} // verus!
