//! The summary at the end of a session: the JPEG files found in the session's
//! export folder, by name, in sorted order.
use vstd::prelude::*;
use vstd::relations::sorted_by;
use crate::paths::{file_name_or_default, file_name_or_empty, is_jpg, spec_is_jpg};
use crate::text::{lemma_text_order_is_total, lex_le, str_le, text_order, texts};

verus! {

broadcast use vstd::seq_lib::group_to_multiset_ensures;

proof fn lemma_insert_to_multiset(s: Seq<Seq<char>>, p: int, a: Seq<char>)
    requires
        0 <= p <= s.len(),
    ensures
        s.insert(p, a).to_multiset() == s.to_multiset().insert(a),
{
    let t = s.insert(p, a);
    assert(t.remove(p) =~= s);
    assert(t.remove(p).to_multiset() =~= t.to_multiset().remove(a));
    assert(t.to_multiset().count(a) > 0) by {
        assert(t[p] == a);
        assert(t.contains(a));
    }
    assert(t.to_multiset() =~= t.to_multiset().remove(a).insert(a));
}

/// `v` sorted in the order of `str`, as `Vec::sort` sorts strings.
pub fn sort_texts(v: Vec<String>) -> (r: Vec<String>)
    ensures
        texts(r@) == texts(v@).sort_by(text_order()),
{
    let ghost input = texts(v@);
    let mut r: Vec<String> = Vec::new();
    let n = v.len();
    proof {
        lemma_text_order_is_total();
    }
    for i in 0..n
        invariant
            n == v@.len(),
            input == texts(v@),
            vstd::relations::total_ordering(text_order()),
            sorted_by(texts(r@), text_order()),
            texts(r@).to_multiset() == input.take(i as int).to_multiset(),
    {
        let x = &v[i];
        let mut p: usize = 0;
        while p < r.len() && str_le(r[p].as_str(), x.as_str())
            invariant
                p <= r@.len(),
                forall|k: int| 0 <= k < p ==> lex_le(#[trigger] r@[k]@, x@),
            decreases r@.len() - p,
        {
            p = p + 1;
        }
        let ghost old_texts = texts(r@);
        r.insert(p, x.clone());
        proof {
            let t = texts(r@);
            assert(t =~= old_texts.insert(p as int, x@));
            lemma_insert_to_multiset(old_texts, p as int, x@);
            assert(input.take(i + 1) =~= input.take(i as int).push(x@));
            assert forall|a: int, b: int| 0 <= a < b < t.len() implies #[trigger] text_order()(t[a], t[b]) by {
                if b < p {
                    assert(text_order()(old_texts[a], old_texts[b]));
                } else if a < p && b == p {
                    assert(lex_le(r@[a]@, x@));
                } else if a < p && b > p {
                    assert(text_order()(old_texts[a], old_texts[b - 1]));
                } else if a == p {
                    assert(!lex_le(old_texts[p as int], x@));
                    assert(text_order()(old_texts[p as int], x@) || text_order()(x@, old_texts[p as int]));
                    assert(text_order()(x@, old_texts[p as int]));
                    if b - 1 > p {
                        assert(text_order()(old_texts[p as int], old_texts[b - 1]));
                    }
                } else {
                    assert(text_order()(old_texts[a - 1], old_texts[b - 1]));
                }
            }
        }
    }
    proof {
        assert(input.take(n as int) =~= input);
        input.lemma_sort_by_ensures(text_order());
        vstd::seq_lib::lemma_sorted_unique(texts(r@), input.sort_by(text_order()), text_order());
    }
    r
}

/// The names of the JPEG files among `files` (paths of the export folder's
/// files), in their order.
pub open spec fn jpg_names(files: Seq<Seq<char>>) -> Seq<Seq<char>> {
    files.filter(|p: Seq<char>| spec_is_jpg(p)).map_values(|p: Seq<char>| file_name_or_empty(p))
}

/// The exports listed at the end of a session, given the paths of the files in
/// its export folder: the names of those whose extension is `jpg` in any case,
/// sorted.
pub fn export_names(files: Vec<String>) -> (r: Vec<String>)
    ensures
        texts(r@) == jpg_names(texts(files@)).sort_by(text_order()),
{
    let ghost views = texts(files@);
    let mut names: Vec<String> = Vec::new();
    let n = files.len();
    for i in 0..n
        invariant
            n == files@.len(),
            views == texts(files@),
            texts(names@) == jpg_names(views.take(i as int)),
    {
        let file = &files[i];
        proof {
            assert(views.take(i + 1) =~= views.take(i as int).push(views[i as int]));
            views.take(i as int).lemma_filter_push(views[i as int], |p: Seq<char>| spec_is_jpg(p));
        }
        if is_jpg(file.as_str()) {
            let ghost before = texts(names@);
            names.push(file_name_or_default(file.as_str()));
            let ghost f = views.take(i as int).filter(|p: Seq<char>| spec_is_jpg(p));
            assert(f.push(file@).map_values(|p: Seq<char>| file_name_or_empty(p))
                =~= f.map_values(|p: Seq<char>| file_name_or_empty(p)).push(file_name_or_empty(file@)));
            assert(texts(names@) =~= before.push(file_name_or_empty(file@)));
        }
    }
    assert(views.take(n as int) =~= views);
    sort_texts(names)
}

} // verus!
