//! Line-oriented `KEY=value` text: the index files this program writes and the
//! desktop entries it reads.

use vstd::prelude::*;
use crate::text::{has_prefix, find_char, slice_to_vec, find_ch, lemma_find_from_bounds, chars_of, starts_with, string_of};

verus! {

/// A line as `str::lines` hands it out: without its `\n`, and without a `\r`
/// that stood right before that `\n`.
pub open spec fn line_body(l: Seq<char>) -> Seq<char> {
    if l.len() > 0 && l.last() == '\r' {
        l.drop_last()
    } else {
        l
    }
}

/// The lines of a text, as `str::lines` splits it: at each `\n` (dropping a
/// `\r` before it); a final line ending is optional and makes no empty line.
pub open spec fn lines(s: Seq<char>) -> Seq<Seq<char>>
    decreases s.len(),
{
    if s.len() == 0 {
        seq![]
    } else {
        match find_char(s, '\n') {
            Some(i) => if 0 <= i < s.len() {
                seq![line_body(s.take(i))] + lines(s.skip(i + 1))
            } else {
                seq![]
            },
            None => seq![s],
        }
    }
}

/// The value after `key` on the last line among `ls` that starts with `key`.
pub open spec fn last_field(ls: Seq<Seq<char>>, key: Seq<char>) -> Option<Seq<char>>
    decreases ls.len(),
{
    if ls.len() == 0 {
        None
    } else if has_prefix(ls.last(), key) {
        Some(ls.last().skip(key.len() as int))
    } else {
        last_field(ls.drop_last(), key)
    }
}

/// The value after `key` on the first line among `ls` that starts with `key`.
pub open spec fn first_field(ls: Seq<Seq<char>>, key: Seq<char>) -> Option<Seq<char>>
    decreases ls.len(),
{
    if ls.len() == 0 {
        None
    } else if has_prefix(ls[0], key) {
        Some(ls[0].skip(key.len() as int))
    } else {
        first_field(ls.skip(1), key)
    }
}

/// A field's value, or nothing when the field is absent.
pub open spec fn or_empty(o: Option<Seq<char>>) -> Seq<char> {
    match o {
        Some(v) => v,
        None => seq![],
    }
}

/// The character views of a vector of character vectors.
pub open spec fn vecs_view(v: Seq<Vec<char>>) -> Seq<Seq<char>> {
    v.map_values(|x: Vec<char>| x@)
}

/// Pushing onto a vector of character vectors pushes its view.
pub proof fn lemma_vecs_view_push(r: Seq<Vec<char>>, x: Vec<char>)
    ensures
        vecs_view(r.push(x)) == vecs_view(r).push(x@),
{
    assert(vecs_view(r.push(x)) =~= vecs_view(r).push(x@));
}

/// Pushing onto a vector of strings pushes its view.
pub proof fn lemma_strings_view_push(r: Seq<String>, x: String)
    ensures
        crate::text::strings_view(r.push(x)) == crate::text::strings_view(r).push(x@),
{
    assert(crate::text::strings_view(r.push(x)) =~= crate::text::strings_view(r).push(x@));
}

/// Splits a text into lines as `str::lines` does.
pub fn lines_of(s: &[char]) -> (r: Vec<Vec<char>>)
    ensures
        vecs_view(r@) == lines(s@),
{
    let mut r: Vec<Vec<char>> = Vec::new();
    let mut start: usize = 0;
    assert(s@.skip(0) =~= s@);
    while start < s.len()
        invariant
            start <= s.len(),
            lines(s@) == vecs_view(r@) + lines(s@.skip(start as int)),
        decreases s.len() - start,
    {
        let rest = slice_to_vec(s, start, s.len());
        assert(rest@ =~= s@.skip(start as int));
        match find_ch(&rest, '\n') {
            Some(i) => {
                proof { lemma_find_from_bounds(rest@, seq!['\n'], 0); }
                let mut line = slice_to_vec(&rest, 0, i);
                assert(line@ =~= rest@.take(i as int));
                if line.len() > 0 && line[line.len() - 1] == '\r' {
                    line.pop();
                }
                proof {
                    assert(rest@.skip(i + 1) =~= s@.skip(start + i + 1));
                    assert(vecs_view(r@.push(line)) =~= vecs_view(r@) + seq![line@]);
                }
                r.push(line);
                start = start + i + 1;
            },
            None => {
                proof {
                    assert(vecs_view(r@.push(rest)) =~= vecs_view(r@) + seq![rest@]);
                    assert(s@.skip(s.len() as int) =~= Seq::<char>::empty());
                }
                r.push(rest);
                start = s.len();
            },
        }
    }
    proof {
        assert(s@.skip(start as int) =~= Seq::<char>::empty());
        assert(vecs_view(r@) + Seq::<Seq<char>>::empty() =~= vecs_view(r@));
    }
    r
}

/// The value of the last `key` line among `ls`.
pub fn last_field_of(ls: &Vec<Vec<char>>, key: &str) -> (r: Option<Vec<char>>)
    ensures
        match r {
            Some(v) => last_field(vecs_view(ls@), key@) == Some(v@),
            None => last_field(vecs_view(ls@), key@) is None,
        },
{
    let k = chars_of(key);
    let mut i = ls.len();
    assert(vecs_view(ls@).take(i as int) =~= vecs_view(ls@));
    loop
        invariant
            i <= ls.len(),
            k@ == key@,
            last_field(vecs_view(ls@), key@) == last_field(vecs_view(ls@).take(i as int), key@),
        decreases i,
    {
        if i == 0 {
            return None;
        }
        proof {
            assert(vecs_view(ls@).take(i as int).drop_last() =~= vecs_view(ls@).take(i - 1));
        }
        if starts_with(&ls[i - 1], &k) {
            let v = slice_to_vec(&ls[i - 1], k.len(), ls[i - 1].len());
            assert(v@ =~= ls@[i - 1]@.skip(k@.len() as int));
            return Some(v);
        }
        i = i - 1;
    }
}

/// The value of the first `key` line among `ls`.
pub fn first_field_of(ls: &Vec<Vec<char>>, key: &str) -> (r: Option<Vec<char>>)
    ensures
        match r {
            Some(v) => first_field(vecs_view(ls@), key@) == Some(v@),
            None => first_field(vecs_view(ls@), key@) is None,
        },
{
    let k = chars_of(key);
    let mut i: usize = 0;
    assert(vecs_view(ls@).skip(0) =~= vecs_view(ls@));
    while i < ls.len()
        invariant
            i <= ls.len(),
            k@ == key@,
            first_field(vecs_view(ls@), key@) == first_field(vecs_view(ls@).skip(i as int), key@),
        decreases ls.len() - i,
    {
        assert(vecs_view(ls@).skip(i as int)[0] == ls@[i as int]@);
        if starts_with(&ls[i], &k) {
            let v = slice_to_vec(&ls[i], k.len(), ls[i].len());
            assert(v@ =~= ls@[i as int]@.skip(k@.len() as int));
            return Some(v);
        }
        assert(vecs_view(ls@).skip(i as int).skip(1) =~= vecs_view(ls@).skip(i + 1));
        i = i + 1;
    }
    assert(vecs_view(ls@).skip(i as int) =~= Seq::<Seq<char>>::empty());
    None
}

/// The value of the last `key` line, as a string; empty when there is none.
pub fn last_field_or_empty(ls: &Vec<Vec<char>>, key: &str) -> (r: String)
    ensures
        r@ == or_empty(last_field(vecs_view(ls@), key@)),
{
    match last_field_of(ls, key) {
        Some(v) => string_of(&v),
        None => {
            let e: Vec<char> = Vec::new();
            assert(e@ =~= Seq::<char>::empty());
            string_of(&e)
        },
    }
}

} // verus!
