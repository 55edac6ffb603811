//! String helpers: character-wise equality, membership in a list of
//! strings, and splitting a path into its `/`-separated segments.

use vstd::prelude::*;
use vstd::string::StrSliceExecFns;

verus! {

/// The views of a sequence of strings, each as its sequence of characters.
pub open spec fn views_of(strs: Seq<String>) -> Seq<Seq<char>> {
    Seq::new(strs.len(), |i: int| strs[i]@)
}

/// Character-by-character string equality, stated over the string views.
pub fn str_eq(a: &str, b: &str) -> (r: bool)
    ensures
        r == (a@ == b@),
{
    let a_len = a.unicode_len();
    let b_len = b.unicode_len();
    if a_len != b_len {
        return false;
    }
    let mut i: usize = 0;
    while i < a_len
        invariant
            a_len == a@.len(),
            a_len == b@.len(),
            i <= a_len,
            forall|j: int| 0 <= j < i ==> a@[j] == b@[j],
        decreases a_len - i,
    {
        if a.get_char(i) != b.get_char(i) {
            return false;
        }
        i += 1;
    }
    proof {
        assert(a@ =~= b@);
    }
    true
}

/// Whether the view of `needle` occurs among the views of `haystack`.
pub fn contains_str(haystack: &Vec<String>, needle: &str) -> (r: bool)
    ensures
        r == views_of(haystack@).contains(needle@),
{
    let mut i: usize = 0;
    while i < haystack.len()
        invariant
            i <= haystack@.len(),
            forall|j: int| 0 <= j < i ==> views_of(haystack@)[j] != needle@,
        decreases haystack@.len() - i,
    {
        if str_eq(haystack[i].as_str(), needle) {
            proof {
                assert(views_of(haystack@)[i as int] == needle@);
            }
            return true;
        }
        i += 1;
    }
    proof {
        assert(forall|j: int| 0 <= j < views_of(haystack@).len() ==> views_of(haystack@)[j] != needle@);
    }
    false
}

/// The segments of `s` split on `/`, as `str::split('/')` yields them:
/// an empty string is one empty segment, and adjacent separators enclose
/// an empty segment.
pub open spec fn split_slash(s: Seq<char>) -> Seq<Seq<char>>
    decreases s.len(),
{
    if s.len() == 0 {
        seq![Seq::<char>::empty()]
    } else if s[0] == '/' {
        seq![Seq::<char>::empty()] + split_slash(s.subrange(1, s.len() as int))
    } else {
        let rest = split_slash(s.subrange(1, s.len() as int));
        seq![seq![s[0]] + rest[0]] + rest.subrange(1, rest.len() as int)
    }
}

/// A split always yields at least one segment.
pub proof fn lemma_split_slash_nonempty(s: Seq<char>)
    ensures
        split_slash(s).len() >= 1,
    decreases s.len(),
{
    if s.len() != 0 {
        lemma_split_slash_nonempty(s.subrange(1, s.len() as int));
    }
}

/// Appending one character either extends the last segment or, for the
/// separator, opens a new empty segment.
pub proof fn lemma_split_slash_push(s: Seq<char>, c: char)
    ensures
        c == '/' ==> split_slash(s.push(c)) =~~= split_slash(s) + seq![Seq::<char>::empty()],
        c != '/' ==> split_slash(s.push(c)) =~~= split_slash(s).update(
            split_slash(s).len() - 1,
            split_slash(s).last().push(c),
        ),
    decreases s.len(),
{
    reveal_with_fuel(split_slash, 3);
    lemma_split_slash_nonempty(s);
    if s.len() == 0 {
        assert(s =~= Seq::<char>::empty());
        assert(s.push(c) =~= seq![c]);
        assert(seq![c].subrange(1, 1) =~= Seq::<char>::empty());
        if c != '/' {
            assert(seq![c] + Seq::<char>::empty() =~= seq![c]);
        }
    } else {
        let t = s.subrange(1, s.len() as int);
        lemma_split_slash_nonempty(t);
        lemma_split_slash_push(t, c);
        let sp = s.push(c);
        assert(sp[0] == s[0]);
        assert(sp.subrange(1, sp.len() as int) =~= t.push(c));
        if s[0] == '/' {
            assert(split_slash(sp) == seq![Seq::<char>::empty()] + split_slash(t.push(c)));
        } else {
            let rest = split_slash(t);
            let rest2 = split_slash(t.push(c));
            assert(split_slash(sp) == seq![seq![s[0]] + rest2[0]] + rest2.subrange(
                1,
                rest2.len() as int,
            ));
            if c == '/' {
                assert(rest2 =~~= rest + seq![Seq::<char>::empty()]);
                assert(rest2[0] == rest[0]);
                assert(rest2.subrange(1, rest2.len() as int) =~~= rest.subrange(
                    1,
                    rest.len() as int,
                ) + seq![Seq::<char>::empty()]);
            } else {
                assert(rest2 =~~= rest.update(rest.len() - 1, rest.last().push(c)));
                if rest.len() == 1 {
                    assert(rest2[0] == rest[0].push(c));
                    assert(seq![s[0]] + rest[0].push(c) =~= (seq![s[0]] + rest[0]).push(c));
                    assert(rest2.subrange(1, rest2.len() as int) =~= Seq::<Seq<char>>::empty());
                } else {
                    assert(rest2[0] == rest[0]);
                    assert(rest2.subrange(1, rest2.len() as int) =~~= rest.subrange(
                        1,
                        rest.len() as int,
                    ).update(rest.len() - 2, rest.last().push(c)));
                }
            }
        }
    }
}

/// Split a path string into its `/`-separated segments.
pub fn split_path(s: &str) -> (segs: Vec<String>)
    ensures
        views_of(segs@) == split_slash(s@),
{
    let len = s.unicode_len();
    let mut segs: Vec<String> = Vec::new();
    let mut start: usize = 0;
    let mut i: usize = 0;
    proof {
        assert(s@.subrange(0, 0) =~= Seq::<char>::empty());
        assert(views_of(segs@) + seq![s@.subrange(0, 0)] =~~= split_slash(s@.subrange(0, 0)));
    }
    while i < len
        invariant
            len == s@.len(),
            start <= i <= len,
            views_of(segs@) + seq![s@.subrange(start as int, i as int)] =~~= split_slash(
                s@.subrange(0, i as int),
            ),
        decreases len - i,
    {
        let c = s.get_char(i);
        proof {
            assert(s@.subrange(0, i + 1) =~= s@.subrange(0, i as int).push(s@[i as int]));
            lemma_split_slash_push(s@.subrange(0, i as int), s@[i as int]);
        }
        if c == '/' {
            let piece = s.substring_char(start, i);
            let ghost old_segs = segs@;
            segs.push(piece.to_owned());
            proof {
                assert(views_of(segs@) =~~= views_of(old_segs) + seq![
                    s@.subrange(start as int, i as int),
                ]);
                assert(views_of(segs@) + seq![s@.subrange(i + 1, i + 1)] =~~= split_slash(
                    s@.subrange(0, i + 1),
                ));
            }
            start = i + 1;
        } else {
            proof {
                let whole = views_of(segs@) + seq![s@.subrange(start as int, i as int)];
                assert(whole.last() == s@.subrange(start as int, i as int));
                assert(whole.update(whole.len() - 1, whole.last().push(s@[i as int])) =~~= views_of(
                    segs@,
                ) + seq![s@.subrange(start as int, i as int).push(s@[i as int])]);
                assert(s@.subrange(start as int, i as int).push(s@[i as int]) =~= s@.subrange(
                    start as int,
                    i + 1,
                ));
                assert(views_of(segs@) + seq![s@.subrange(start as int, i + 1)] =~~= split_slash(
                    s@.subrange(0, i + 1),
                ));
            }
        }
        i += 1;
    }
    let piece = s.substring_char(start, len);
    let ghost old_segs = segs@;
    segs.push(piece.to_owned());
    proof {
        assert(s@.subrange(0, len as int) =~= s@);
        assert(views_of(segs@) =~~= views_of(old_segs) + seq![s@.subrange(start as int, len as int)]);
        assert(views_of(segs@) =~~= split_slash(s@));
    }
    segs
}

} // verus!
