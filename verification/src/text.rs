//! Character-sequence utilities shared by the version order, the
//! display rendering and the list-valued profile fields.

use vstd::prelude::*;

verus! {

/// Lexicographic (code-point) order on character sequences.  This is
/// the order in which alphanumeric pre-release identifiers compare.
pub open spec fn text_lt(a: Seq<char>, b: Seq<char>) -> bool
    decreases a.len(),
{
    if b.len() == 0 {
        false
    } else if a.len() == 0 {
        true
    } else if a[0] == b[0] {
        text_lt(a.drop_first(), b.drop_first())
    } else {
        (a[0] as u32) < (b[0] as u32)
    }
}

/// The lexicographic order never puts a sequence below itself.
pub proof fn lemma_text_lt_irreflexive(a: Seq<char>)
    ensures
        !text_lt(a, a),
    decreases a.len(),
{
    if a.len() > 0 {
        lemma_text_lt_irreflexive(a.drop_first());
    }
}

/// Distinct characters have distinct code points.
proof fn lemma_char_codepoints_differ(c1: char, c2: char)
    requires
        c1 != c2,
    ensures
        (c1 as u32) != (c2 as u32),
{
}

/// Any two character sequences are ordered or equal.
pub proof fn lemma_text_lt_trichotomy(a: Seq<char>, b: Seq<char>)
    ensures
        text_lt(a, b) || text_lt(b, a) || a == b,
    decreases a.len(),
{
    if b.len() == 0 && a.len() == 0 {
        assert(a =~= b);
    } else if b.len() == 0 {
        assert(text_lt(b, a));
    } else if a.len() == 0 {
        assert(text_lt(a, b));
    } else if a[0] == b[0] {
        lemma_text_lt_trichotomy(a.drop_first(), b.drop_first());
        if text_lt(a.drop_first(), b.drop_first()) {
            assert(text_lt(a, b));
        } else if text_lt(b.drop_first(), a.drop_first()) {
            assert(text_lt(b, a));
        } else {
            assert(a.drop_first() == b.drop_first());
            assert(a.len() == b.len());
            assert forall|i: int| 0 <= i < a.len() implies a[i] == b[i] by {
                if i > 0 {
                    assert(a.drop_first()[i - 1] == b.drop_first()[i - 1]);
                    assert(a[i] == a.drop_first()[i - 1]);
                    assert(b[i] == b.drop_first()[i - 1]);
                }
            }
            assert(a =~= b);
        }
    } else {
        lemma_char_codepoints_differ(a[0], b[0]);
        if (a[0] as u32) < (b[0] as u32) {
            assert(text_lt(a, b));
        } else {
            assert(text_lt(b, a));
        }
    }
}

/// The lexicographic order is transitive.
pub proof fn lemma_text_lt_transitive(a: Seq<char>, b: Seq<char>, c: Seq<char>)
    requires
        text_lt(a, b),
        text_lt(b, c),
    ensures
        text_lt(a, c),
    decreases a.len() + b.len() + c.len(),
{
    if a.len() > 0 && b.len() > 0 && c.len() > 0 {
        if a[0] == b[0] && b[0] == c[0] {
            lemma_text_lt_transitive(a.drop_first(), b.drop_first(), c.drop_first());
        }
    }
}

/// Decides `text_lt` on string slices by stepping over their characters.
pub fn str_lt(a: &str, b: &str) -> (r: bool)
    ensures
        r == text_lt(a@, b@),
{
    let a_len = a.unicode_len();
    let b_len = b.unicode_len();
    proof {
        assert(a@.skip(0) =~= a@);
        assert(b@.skip(0) =~= b@);
    }
    let mut i: usize = 0;
    loop
        invariant
            i <= a_len,
            i <= b_len,
            a_len == a@.len(),
            b_len == b@.len(),
            text_lt(a@, b@) == text_lt(a@.skip(i as int), b@.skip(i as int)),
        decreases a_len - i,
    {
        if i == b_len {
            assert(b@.skip(i as int).len() == 0);
            return false;
        }
        if i == a_len {
            assert(a@.skip(i as int).len() == 0);
            return true;
        }
        let ca = a.get_char(i);
        let cb = b.get_char(i);
        if ca == cb {
            proof {
                assert(a@.skip(i as int)[0] == ca);
                assert(b@.skip(i as int)[0] == cb);
                assert(a@.skip(i as int).drop_first() =~= a@.skip(i + 1));
                assert(b@.skip(i as int).drop_first() =~= b@.skip(i + 1));
            }
            i = i + 1;
        } else {
            assert(a@.skip(i as int)[0] == ca);
            assert(b@.skip(i as int)[0] == cb);
            return (ca as u32) < (cb as u32);
        }
    }
}

/// Decides view equality of two string slices.
pub fn str_eq(a: &str, b: &str) -> (r: bool)
    ensures
        r == (a@ == b@),
{
    let a_len = a.unicode_len();
    let b_len = b.unicode_len();
    if a_len != b_len {
        return false;
    }
    let mut i: usize = 0;
    while i < a_len
        invariant
            i <= a_len,
            a_len == a@.len(),
            b_len == b@.len(),
            a_len == b_len,
            forall|j: int| 0 <= j < i ==> a@[j] == b@[j],
        decreases a_len - i,
    {
        if a.get_char(i) != b.get_char(i) {
            return false;
        }
        i = i + 1;
    }
    proof {
        assert(a@ =~= b@);
    }
    true
}

/// The character for one decimal digit.
pub open spec fn digit_char(d: int) -> char {
    if d == 0 {
        '0'
    } else if d == 1 {
        '1'
    } else if d == 2 {
        '2'
    } else if d == 3 {
        '3'
    } else if d == 4 {
        '4'
    } else if d == 5 {
        '5'
    } else if d == 6 {
        '6'
    } else if d == 7 {
        '7'
    } else if d == 8 {
        '8'
    } else {
        '9'
    }
}

/// Decimal rendering of a number, most significant digit first.
pub open spec fn dec_rep(n: nat) -> Seq<char>
    decreases n,
{
    if n < 10 {
        seq![digit_char(n as int)]
    } else {
        dec_rep(n / 10).push(digit_char((n % 10) as int))
    }
}

fn digit_str(d: u64) -> (r: String)
    requires
        d < 10,
    ensures
        r@ =~= seq![digit_char(d as int)],
{
    if d == 0 {
        proof { reveal_strlit("0"); }
        let r = String::from_str("0");
        proof { assert(r@ =~= seq![digit_char(d as int)]); }
        r
    } else if d == 1 {
        proof { reveal_strlit("1"); }
        let r = String::from_str("1");
        proof { assert(r@ =~= seq![digit_char(d as int)]); }
        r
    } else if d == 2 {
        proof { reveal_strlit("2"); }
        let r = String::from_str("2");
        proof { assert(r@ =~= seq![digit_char(d as int)]); }
        r
    } else if d == 3 {
        proof { reveal_strlit("3"); }
        let r = String::from_str("3");
        proof { assert(r@ =~= seq![digit_char(d as int)]); }
        r
    } else if d == 4 {
        proof { reveal_strlit("4"); }
        let r = String::from_str("4");
        proof { assert(r@ =~= seq![digit_char(d as int)]); }
        r
    } else if d == 5 {
        proof { reveal_strlit("5"); }
        let r = String::from_str("5");
        proof { assert(r@ =~= seq![digit_char(d as int)]); }
        r
    } else if d == 6 {
        proof { reveal_strlit("6"); }
        let r = String::from_str("6");
        proof { assert(r@ =~= seq![digit_char(d as int)]); }
        r
    } else if d == 7 {
        proof { reveal_strlit("7"); }
        let r = String::from_str("7");
        proof { assert(r@ =~= seq![digit_char(d as int)]); }
        r
    } else if d == 8 {
        proof { reveal_strlit("8"); }
        let r = String::from_str("8");
        proof { assert(r@ =~= seq![digit_char(d as int)]); }
        r
    } else {
        proof { reveal_strlit("9"); }
        let r = String::from_str("9");
        proof { assert(r@ =~= seq![digit_char(d as int)]); }
        r
    }
}

/// Rendering of a boolean.
pub open spec fn bool_text(b: bool) -> Seq<char> {
    if b {
        "true"@
    } else {
        "false"@
    }
}

/// Renders a boolean, matching `bool_text`.
pub fn bool_to_string(b: bool) -> (r: String)
    ensures
        r@ == bool_text(b),
{
    if b {
        String::from_str("true")
    } else {
        String::from_str("false")
    }
}

/// Whether all entries of a text list are pairwise distinct.
pub open spec fn distinct_texts(s: Seq<Seq<char>>) -> bool {
    forall|i: int, j: int| 0 <= i < j < s.len() ==> s[i] != s[j]
}

/// How often a text occurs in a list.
pub open spec fn occurrences(s: Seq<Seq<char>>, c: Seq<char>) -> nat
    decreases s.len(),
{
    if s.len() == 0 {
        0
    } else {
        occurrences(s.drop_last(), c) + (if s.last() == c {
            1nat
        } else {
            0nat
        })
    }
}

/// A list with a text appended unless it is already present.
pub open spec fn add_unique_text(s: Seq<Seq<char>>, c: Seq<char>) -> Seq<Seq<char>> {
    if s.contains(c) {
        s
    } else {
        s.push(c)
    }
}

/// A list with every occurrence of a text removed, order otherwise kept.
pub open spec fn remove_text_spec(s: Seq<Seq<char>>, c: Seq<char>) -> Seq<Seq<char>>
    decreases s.len(),
{
    if s.len() == 0 {
        s
    } else if s.last() == c {
        remove_text_spec(s.drop_last(), c)
    } else {
        remove_text_spec(s.drop_last(), c).push(s.last())
    }
}

/// A text absent from a list occurs zero times in it.
pub proof fn lemma_occurrences_absent(s: Seq<Seq<char>>, c: Seq<char>)
    requires
        !s.contains(c),
    ensures
        occurrences(s, c) == 0,
    decreases s.len(),
{
    if s.len() > 0 {
        assert(s.last() == s[s.len() - 1]);
        assert(s.last() != c);
        assert forall|i: int| 0 <= i < s.drop_last().len() implies s.drop_last()[i] != c by {
            assert(s.drop_last()[i] == s[i]);
        }
        lemma_occurrences_absent(s.drop_last(), c);
    }
}

/// In a duplicate-free list, a present text occurs exactly once.
pub proof fn lemma_occurrences_distinct(s: Seq<Seq<char>>, c: Seq<char>)
    requires
        distinct_texts(s),
        s.contains(c),
    ensures
        occurrences(s, c) == 1,
    decreases s.len(),
{
    let last = s.len() - 1;
    if s.last() == c {
        assert forall|i: int| 0 <= i < s.drop_last().len() implies s.drop_last()[i] != c by {
            assert(s.drop_last()[i] == s[i]);
            assert(s[i] != s[last]);
        }
        lemma_occurrences_absent(s.drop_last(), c);
    } else {
        let w = choose|i: int| 0 <= i < s.len() && s[i] == c;
        assert(s.drop_last()[w] == c);
        assert(s.drop_last().contains(c));
        assert forall|i: int, j: int| 0 <= i < j < s.drop_last().len() implies s.drop_last()[i]
            != s.drop_last()[j] by {
            assert(s.drop_last()[i] == s[i]);
            assert(s.drop_last()[j] == s[j]);
        }
        lemma_occurrences_distinct(s.drop_last(), c);
    }
}

/// Appending a fresh text keeps a list duplicate free.
pub proof fn lemma_push_distinct(s: Seq<Seq<char>>, c: Seq<char>)
    requires
        distinct_texts(s),
        !s.contains(c),
    ensures
        distinct_texts(s.push(c)),
{
    assert forall|i: int, j: int| 0 <= i < j < s.push(c).len() implies s.push(c)[i] != s.push(c)[j]
        by {
        if j < s.len() {
            assert(s.push(c)[i] == s[i]);
            assert(s.push(c)[j] == s[j]);
        } else {
            assert(s.push(c)[j] == c);
            assert(s.push(c)[i] == s[i]);
        }
    }
}

/// After removal a text is gone from the list.
pub proof fn lemma_remove_text_gone(s: Seq<Seq<char>>, c: Seq<char>)
    ensures
        !remove_text_spec(s, c).contains(c),
        occurrences(remove_text_spec(s, c), c) == 0,
    decreases s.len(),
{
    if s.len() > 0 {
        lemma_remove_text_gone(s.drop_last(), c);
        if s.last() != c {
            let r = remove_text_spec(s.drop_last(), c).push(s.last());
            assert(r.drop_last() =~= remove_text_spec(s.drop_last(), c));
            assert forall|i: int| 0 <= i < r.len() implies r[i] != c by {
                if i < r.len() - 1 {
                    assert(r[i] == remove_text_spec(s.drop_last(), c)[i]);
                }
            }
        }
    }
}

/// Removing one text leaves the occurrence count of any other unchanged.
pub proof fn lemma_remove_text_other(s: Seq<Seq<char>>, c: Seq<char>, b: Seq<char>)
    requires
        b != c,
    ensures
        occurrences(remove_text_spec(s, c), b) == occurrences(s, b),
    decreases s.len(),
{
    if s.len() > 0 {
        lemma_remove_text_other(s.drop_last(), c, b);
        if s.last() != c {
            let r = remove_text_spec(s.drop_last(), c).push(s.last());
            assert(r.drop_last() =~= remove_text_spec(s.drop_last(), c));
        }
    }
}

/// Decides membership of a text in a list of strings.
pub fn contains_text(v: &Vec<String>, t: &str) -> (r: bool)
    ensures
        r == v.deep_view().contains(t@),
{
    let mut i: usize = 0;
    while i < v.len()
        invariant
            i <= v.len(),
            v.deep_view().len() == v@.len(),
            forall|j: int| 0 <= j < i ==> v.deep_view()[j] != t@,
        decreases v.len() - i,
    {
        assert(v.deep_view()[i as int] == v@[i as int]@);
        if str_eq(v[i].as_str(), t) {
            assert(v.deep_view().contains(t@));
            return true;
        }
        i = i + 1;
    }
    assert(!v.deep_view().contains(t@));
    false
}

/// Decides deep-view equality of two lists of strings.
pub fn texts_equal(a: &Vec<String>, b: &Vec<String>) -> (r: bool)
    ensures
        r == (a.deep_view() == b.deep_view()),
{
    if a.len() != b.len() {
        assert(a.deep_view().len() != b.deep_view().len());
        return false;
    }
    let mut i: usize = 0;
    while i < a.len()
        invariant
            i <= a.len(),
            a@.len() == b@.len(),
            a.deep_view().len() == a@.len(),
            b.deep_view().len() == b@.len(),
            forall|j: int| 0 <= j < i ==> a.deep_view()[j] == b.deep_view()[j],
        decreases a.len() - i,
    {
        assert(a.deep_view()[i as int] == a@[i as int]@);
        assert(b.deep_view()[i as int] == b@[i as int]@);
        if !str_eq(a[i].as_str(), b[i].as_str()) {
            return false;
        }
        i = i + 1;
    }
    proof {
        assert(a.deep_view() =~= b.deep_view());
    }
    true
}

/// Clones an optional string, keeping its deep view.
pub fn clone_opt_text(o: &Option<String>) -> (r: Option<String>)
    ensures
        r.deep_view() == o.deep_view(),
{
    match o {
        Some(s) => Some(s.clone()),
        None => None,
    }
}

/// Clones a list of strings, keeping its deep view.
pub fn clone_texts(v: &Vec<String>) -> (r: Vec<String>)
    ensures
        r.deep_view() == v.deep_view(),
{
    let mut r: Vec<String> = Vec::new();
    let mut i: usize = 0;
    while i < v.len()
        invariant
            i <= v.len(),
            r@.len() == i,
            forall|j: int| 0 <= j < i ==> r@[j]@ == v@[j]@,
        decreases v.len() - i,
    {
        r.push(v[i].clone());
        i = i + 1;
    }
    proof {
        assert forall|k: int| 0 <= k < r@.len() implies r.deep_view()[k] == v.deep_view()[k] by {
            assert(r@[k]@ == v@[k]@);
        }
        assert(r.deep_view() =~= v.deep_view());
    }
    r
}

/// Removes every occurrence of a text from a list of strings.
pub fn remove_text(v: &mut Vec<String>, t: &str) -> (removed: bool)
    ensures
        final(v).deep_view() == remove_text_spec(old(v).deep_view(), t@),
        removed == old(v).deep_view().contains(t@),
{
    let mut out: Vec<String> = Vec::new();
    let mut found = false;
    let mut i: usize = 0;
    while i < v.len()
        invariant
            i <= v.len(),
            *v == *old(v),
            v.deep_view().len() == v@.len(),
            out.deep_view() =~= remove_text_spec(v.deep_view().take(i as int), t@),
            found == exists|j: int| 0 <= j < i && v.deep_view()[j] == t@,
        decreases v.len() - i,
    {
        proof {
            assert(v.deep_view()[i as int] == v@[i as int]@);
            assert(v.deep_view().take(i + 1).drop_last() =~= v.deep_view().take(i as int));
            assert(v.deep_view().take(i + 1).last() == v.deep_view()[i as int]);
        }
        if str_eq(v[i].as_str(), t) {
            found = true;
        } else {
            let ghost pre_out = out;
            out.push(v[i].clone());
            proof {
                crate::deep::lemma_deep_push(pre_out, out, v@[i as int]);
                assert(out.deep_view() =~= remove_text_spec(v.deep_view().take(i + 1), t@));
            }
        }
        i = i + 1;
    }
    proof {
        assert(v.deep_view().take(v@.len() as int) =~= v.deep_view());
    }
    *v = out;
    found
}

/// The tail of a comma-joined list: every entry after the first,
/// each preceded by a separator.
pub open spec fn joined_tail(s: Seq<Seq<char>>) -> Seq<char>
    decreases s.len(),
{
    if s.len() == 0 {
        Seq::empty()
    } else {
        joined_tail(s.drop_last()) + ", "@ + s.last()
    }
}

/// A text list joined with `", "` between entries.
pub open spec fn texts_joined(s: Seq<Seq<char>>) -> Seq<char> {
    if s.len() == 0 {
        Seq::empty()
    } else {
        s[0] + joined_tail(s.skip(1))
    }
}

/// Joins a list of strings with `", "`, matching `texts_joined`.
pub fn join_comma(v: &Vec<String>) -> (r: String)
    ensures
        r@ == texts_joined(v.deep_view()),
{
    if v.len() == 0 {
        let r = String::new();
        proof {
            assert(r@ =~= texts_joined(v.deep_view()));
        }
        return r;
    }
    let mut s = v[0].clone();
    proof {
        assert(v.deep_view()[0] == v@[0]@);
        assert(joined_tail(v.deep_view().skip(1).take(0)) =~= Seq::<char>::empty());
        assert(s@ =~= v.deep_view()[0] + joined_tail(v.deep_view().skip(1).take(0)));
    }
    let mut i: usize = 1;
    while i < v.len()
        invariant
            1 <= i <= v.len(),
            v.deep_view().len() == v@.len(),
            v@.len() > 0,
            s@ == v.deep_view()[0] + joined_tail(v.deep_view().skip(1).take(i - 1)),
        decreases v.len() - i,
    {
        s.append(", ");
        s.append(v[i].as_str());
        proof {
            let parts = v.deep_view().skip(1);
            assert(parts.take(i as int).drop_last() =~= parts.take(i - 1));
            assert(parts.take(i as int).last() == v.deep_view()[i as int]);
            assert(v.deep_view()[i as int] == v@[i as int]@);
            assert(s@ =~= v.deep_view()[0] + joined_tail(parts.take(i as int)));
        }
        i = i + 1;
    }
    proof {
        assert(v.deep_view().skip(1).take(v@.len() - 1) =~= v.deep_view().skip(1));
    }
    s
}

/// Renders a number in decimal, matching `dec_rep`.
pub fn u64_to_string(n: u64) -> (r: String)
    ensures
        r@ == dec_rep(n as nat),
    decreases n,
{
    if n < 10 {
        digit_str(n)
    } else {
        let mut s = u64_to_string(n / 10);
        let d = digit_str(n % 10);
        s.append(d.as_str());
        proof {
            assert(s@ =~= dec_rep((n / 10) as nat).push(digit_char((n % 10) as int)));
        }
        s
    }
}

} // verus!
