use vstd::prelude::*;

verus! {

broadcast use vstd::seq_lib::group_to_multiset_ensures;

/// What `str::trim` makes of a string: leading and trailing white space
/// removed.
pub uninterp spec fn trimmed(s: Seq<char>) -> Seq<char>;

/// What `str::to_uppercase` makes of a string.
pub uninterp spec fn upper_of(s: Seq<char>) -> Seq<char>;

/// The canonical form of an identifier: trimmed, then upper-cased.
pub open spec fn canonical(s: Seq<char>) -> Seq<char> {
    upper_of(trimmed(s))
}

/// `a` sorts before or equal to `b`, comparing characters by code point,
/// a proper prefix first.
pub open spec fn lex_le(a: Seq<char>, b: Seq<char>) -> bool
    decreases a.len(),
{
    if a.len() == 0 {
        true
    } else if b.len() == 0 {
        false
    } else if a[0] != b[0] {
        (a[0] as u32) < (b[0] as u32)
    } else {
        lex_le(a.drop_first(), b.drop_first())
    }
}

/// The pieces joined back together with `sep` between them.
pub open spec fn joined(pieces: Seq<Seq<char>>, sep: char) -> Seq<char>
    decreases pieces.len(),
{
    if pieces.len() == 0 {
        Seq::empty()
    } else if pieces.len() == 1 {
        pieces[0]
    } else {
        joined(pieces.drop_last(), sep).push(sep) + pieces.last()
    }
}

/// The views of a sequence of strings.
pub open spec fn views(v: Seq<String>) -> Seq<Seq<char>> {
    v.map_values(|s: String| s@)
}

/// No two strings of `v` have the same text.
pub open spec fn distinct_texts(v: Seq<String>) -> bool {
    forall|i: int, j: int| 0 <= i < v.len() && 0 <= j < v.len() && i != j ==> #[trigger] v[i]@
        != #[trigger] v[j]@
}

/// Relies on `str::trim`: the string without leading and trailing white
/// space.
#[verifier::external_body]
fn trim_text(s: &str) -> (r: String)
    ensures
        r@ == trimmed(s@),
{
    s.trim().to_string()
}

/// Relies on `str::to_uppercase`: the upper-case form of the string; an
/// empty string stays empty and a non-empty one stays non-empty.
#[verifier::external_body]
fn upper_text(s: &str) -> (r: String)
    ensures
        r@ == upper_of(s@),
        s@.len() == 0 <==> r@.len() == 0,
{
    s.to_uppercase()
}

/// Relies on `str::split` with a `char` pattern: the pieces between the
/// separators, in order, the empty ones included; joined again with the
/// separator they give back the input, and none holds the separator.
#[verifier::external_body]
fn split_on(s: &str, sep: char) -> (r: Vec<String>)
    ensures
        r@.len() >= 1,
        joined(views(r@), sep) == s@,
        forall|i: int| 0 <= i < r@.len() ==> !(#[trigger] r@[i]@).contains(sep),
{
    s.split(sep).map(|p: &str| p.to_string()).collect()
}

/// Relies on `slice::sort` on strings: the same strings, reordered so that
/// each sorts before or equal to the next; `str`'s order compares the UTF-8
/// bytes, which orders characters by code point.
#[verifier::external_body]
fn sort_texts(v: &mut Vec<String>)
    ensures
        final(v)@.to_multiset() == old(v)@.to_multiset(),
        forall|i: int, j: int| 0 <= i < j < final(v)@.len() ==> lex_le(
            #[trigger] final(v)@[i]@,
            #[trigger] final(v)@[j]@,
        ),
{
    v.sort()
}

/// Sorting keeps the texts and keeps them distinct.
proof fn lemma_permutation_keeps_texts(a: Seq<String>, b: Seq<String>)
    requires
        a.to_multiset() == b.to_multiset(),
        distinct_texts(a),
    ensures
        distinct_texts(b),
        forall|x: Seq<char>| views(a).contains(x) <==> views(b).contains(x),
{
    assert forall|i: int, j: int| 0 <= i < a.len() && 0 <= j < a.len() && i != j implies a[i]
        != a[j] by {
        assert(a[i]@ != a[j]@);
    }
    assert(a.no_duplicates());
    a.lemma_multiset_has_no_duplicates();
    b.lemma_multiset_has_no_duplicates_conv();
    assert forall|i: int, j: int| 0 <= i < b.len() && 0 <= j < b.len() && i != j implies #[trigger] b[i]@
        != #[trigger] b[j]@ by {
        assert(b.contains(b[i]));
        assert(b.contains(b[j]));
        assert(b.to_multiset().contains(b[i]));
        assert(a.to_multiset().contains(b[j]));
        let ia = choose|ia: int| 0 <= ia < a.len() && a[ia] == b[i];
        let ja = choose|ja: int| 0 <= ja < a.len() && a[ja] == b[j];
        assert(b[i] != b[j]);
    }
    assert forall|x: Seq<char>| views(a).contains(x) implies views(b).contains(x) by {
        let k = choose|k: int| 0 <= k < views(a).len() && views(a)[k] == x;
        assert(a.contains(a[k]));
        assert(b.to_multiset().contains(a[k]));
        let m = choose|m: int| 0 <= m < b.len() && b[m] == a[k];
        assert(views(b)[m] == x);
    }
    assert forall|x: Seq<char>| views(b).contains(x) implies views(a).contains(x) by {
        let k = choose|k: int| 0 <= k < views(b).len() && views(b)[k] == x;
        assert(b.contains(b[k]));
        assert(a.to_multiset().contains(b[k]));
        let m = choose|m: int| 0 <= m < a.len() && a[m] == b[k];
        assert(views(a)[m] == x);
    }
}

/// Whether some string of `v` has the text `t`.
fn has_text(v: &Vec<String>, t: &String) -> (r: bool)
    ensures
        r == views(v@).contains(t@),
{
    let mut i: usize = 0;
    while i < v.len()
        invariant
            i <= v@.len(),
            forall|k: int| 0 <= k < i ==> v@[k]@ != t@,
        decreases v@.len() - i,
    {
        if v[i] == *t {
            assert(views(v@)[i as int] == t@);
            return true;
        }
        i = i + 1;
    }
    assert forall|k: int| 0 <= k < views(v@).len() implies views(v@)[k] != t@ by {
        assert(views(v@)[k] == v@[k]@);
    }
    false
}

/// The canonical identifiers of `ids`: each trimmed and upper-cased, the
/// empty ones dropped, each kept once, in sorted order.
///
/// An identifier is in the result exactly when it is the non-empty canonical
/// form of some input; no two results are equal, and each sorts before the
/// next.
pub fn normalize(ids: &Vec<String>) -> (r: Vec<String>)
    ensures
        forall|x: Seq<char>| #[trigger] views(r@).contains(x) <==> (x.len() > 0 && exists|j: int|
            0 <= j < ids@.len() && x == canonical(#[trigger] ids@[j]@)),
        distinct_texts(r@),
        forall|i: int, j: int| 0 <= i < j < r@.len() ==> lex_le(
            #[trigger] r@[i]@,
            #[trigger] r@[j]@,
        ),
{
    let mut out: Vec<String> = Vec::new();
    let mut i: usize = 0;
    while i < ids.len()
        invariant
            i <= ids@.len(),
            distinct_texts(out@),
            forall|x: Seq<char>| #[trigger] views(out@).contains(x) <==> (x.len() > 0 && exists|j: int|
                0 <= j < i && x == canonical(#[trigger] ids@[j]@)),
        decreases ids@.len() - i,
    {
        let t = trim_text(ids[i].as_str());
        let u = upper_text(t.as_str());
        let ghost before = out@;
        if !u.as_str().is_empty() && !has_text(&out, &u) {
            proof {
                assert forall|k: int| 0 <= k < before.len() implies before[k]@ != u@ by {
                    assert(views(before)[k] == before[k]@);
                }
            }
            out.push(u);
            proof {
                assert(views(out@) =~= views(before).push(u@));
            }
        }
        proof {
            let ii = i as int;
            assert(u@ == canonical(ids@[ii]@));
            assert(out@ == before || (out@ == before.push(u) && u@.len() > 0));
            assert(out@ == before ==> (u@.len() == 0 || views(before).contains(u@)));
            assert forall|x: Seq<char>| #[trigger] views(out@).contains(x) implies (x.len() > 0
                && exists|j: int| 0 <= j < ii + 1 && x == canonical(#[trigger] ids@[j]@)) by {
                let k = choose|k: int| 0 <= k < views(out@).len() && views(out@)[k] == x;
                if k < before.len() {
                    assert(views(before)[k] == x);
                    assert(views(before).contains(x));
                } else {
                    assert(x == u@);
                    assert(x == canonical(ids@[ii]@));
                }
            }
            assert forall|x: Seq<char>| (x.len() > 0 && exists|j: int| 0 <= j < ii + 1 && x
                == canonical(#[trigger] ids@[j]@)) implies #[trigger] views(out@).contains(x) by {
                let j = choose|j: int| 0 <= j < ii + 1 && x == canonical(#[trigger] ids@[j]@);
                if j < ii {
                    assert(views(before).contains(x));
                    let k = choose|k: int| 0 <= k < views(before).len() && views(before)[k] == x;
                    assert(views(out@)[k] == x);
                } else if views(before).contains(x) {
                    let k = choose|k: int| 0 <= k < views(before).len() && views(before)[k] == x;
                    assert(views(out@)[k] == x);
                } else {
                    assert(x == u@);
                    assert(views(out@)[before.len() as int] == x);
                }
            }
        }
        i = i + 1;
    }
    let ghost unsorted = out@;
    sort_texts(&mut out);
    proof {
        lemma_permutation_keeps_texts(unsorted, out@);
    }
    out
}

/// `r` holds the canonical identifiers of the comma-separated `list`, as
/// `normalize` gives them for the pieces between the commas.
pub open spec fn is_parsed_list(list: Seq<char>, r: Seq<String>) -> bool {
    &&& exists|pieces: Seq<String>| {
        &&& joined(views(pieces), ',') == list
        &&& forall|i: int| 0 <= i < pieces.len() ==> !(#[trigger] pieces[i]@).contains(',')
        &&& forall|x: Seq<char>| #[trigger] views(r).contains(x) <==> (x.len() > 0 && exists|j: int|
            0 <= j < pieces.len() && x == canonical(#[trigger] pieces[j]@))
    }
    &&& distinct_texts(r)
    &&& forall|i: int, j: int| 0 <= i < j < r.len() ==> lex_le(#[trigger] r[i]@, #[trigger] r[j]@)
}

/// The canonical identifiers of a comma-separated list.
pub fn parse_list(list: &str) -> (r: Vec<String>)
    ensures
        is_parsed_list(list@, r@),
{
    let pieces = split_on(list, ',');
    let r = normalize(&pieces);
    assert(is_parsed_list(list@, r@)) by {
        let ps = pieces@;
        assert(joined(views(ps), ',') == list@);
    }
    r
}

} // verus!
