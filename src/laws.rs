use vstd::prelude::*;
use lofty::picture::PictureType;
use lofty::tag::ItemKey;
use crate::engine::{
    cover_first_order, fallback_mime, head_writes, image_of, is_cover_view, item_writes, items_after, lemma_filter_idempotent,
    lemma_filter_twice, middle_writes, new_cover, normalized, not_cover_picture, not_cover_view,
    pictures_after, replace_item, replaced_pictures, sorted_images, stored_of, tail_writes,
    with_cover, with_number, with_position, with_text, TextWrite,
};
use crate::lofty_specs::{ItemEntry, PictureEntry, ValueModel};
use crate::model::{AudioImageType, AudioTagsView, ImageView};
use crate::text::{
    decimal, joined, lemma_split_comma, lemma_split_extend, lemma_split_no_comma,
    lemma_trimmed_after_space, lemma_trimmed_unchanged, list_separator, no_edge_white,
    split_commas, split_trimmed,
};

verus! {

/// Every case of the taxonomy comes back from the external role it maps to.
pub proof fn law_picture_type_round_trip(x: AudioImageType)
    ensures
        AudioImageType::spec_from_picture_type(x.spec_picture_type()) == x,
{
}

proof fn lemma_cover_first_order_head(s: Seq<ImageView>)
    requires
        exists|i: int| 0 <= i < cover_first_order(s).len() && (#[trigger] cover_first_order(s)[i]).pic_type
            == AudioImageType::CoverFront,
    ensures
        cover_first_order(s)[0].pic_type == AudioImageType::CoverFront,
{
    let c = s.filter(is_cover_view());
    let o = s.filter(not_cover_view());
    let i = choose|i: int| 0 <= i < cover_first_order(s).len() && (#[trigger] cover_first_order(s)[i]).pic_type
        == AudioImageType::CoverFront;
    if c.len() == 0 {
        assert(cover_first_order(s) =~= o);
        s.lemma_filter_pred(not_cover_view(), i);
        assert(false);
    } else {
        s.lemma_filter_pred(is_cover_view(), 0);
    }
}

/// Whenever a read gives any cover-front image, the first image is one.
pub proof fn law_normalized_cover_first(items: Seq<ItemEntry>, pics: Seq<PictureEntry>)
    ensures
        match normalized(items, pics).all_images {
            Some(l) => (exists|i: int| 0 <= i < l.len() && (#[trigger] l[i]).pic_type
                == AudioImageType::CoverFront) ==> l[0].pic_type == AudioImageType::CoverFront,
            None => true,
        },
{
    let l = sorted_images(pics);
    if exists|i: int| 0 <= i < l.len() && (#[trigger] l[i]).pic_type == AudioImageType::CoverFront {
        lemma_cover_first_order_head(pics.map_values(|p: PictureEntry| image_of(p)));
    }
}

/// Whenever a full or cover-only replacement leaves any cover-front picture, the first
/// picture is one.
pub proof fn law_replacement_cover_first(t: AudioTagsView, pics: Seq<PictureEntry>)
    requires
        t.all_images is Some || t.image is Some,
    ensures
        ({
            let r = pictures_after(t, pics);
            (exists|i: int| 0 <= i < r.len() && (#[trigger] r[i]).pic_type == PictureType::CoverFront)
                ==> r[0].pic_type == PictureType::CoverFront
        }),
{
    match t.all_images {
        Some(l) => {
            let r = replaced_pictures(l);
            let o = cover_first_order(l);
            if exists|i: int| 0 <= i < r.len() && (#[trigger] r[i]).pic_type == PictureType::CoverFront {
                let i = choose|i: int| 0 <= i < r.len() && (#[trigger] r[i]).pic_type == PictureType::CoverFront;
                assert(r[i] == stored_of(o[i]));
                assert(o[i].pic_type == AudioImageType::CoverFront);
                lemma_cover_first_order_head(l);
                assert(r[0] == stored_of(o[0]));
            }
        },
        None => {
            let r = pictures_after(t, pics);
            assert(r[0].pic_type == PictureType::CoverFront);
        },
    }
}

/// Joining a list with a comma and a space, then splitting at commas and trimming, gives
/// the list back, where no value holds a comma or starts or ends with whitespace.
pub proof fn law_join_split_round_trip(l: Seq<Seq<char>>)
    requires
        l.len() > 0,
        forall|i: int| 0 <= i < l.len() ==> !(#[trigger] l[i]).contains(','),
        forall|i: int| 0 <= i < l.len() ==> no_edge_white(#[trigger] l[i]),
    ensures
        split_trimmed(joined(l, list_separator())) == l,
    decreases l.len(),
{
    if l.len() == 1 {
        lemma_split_no_comma(l[0]);
        lemma_trimmed_unchanged(l[0]);
        assert(split_trimmed(l[0]) =~= l);
    } else {
        let p = l.drop_last();
        let x = l.last();
        assert(no_edge_white(x));
        assert(!x.contains(','));
        law_join_split_round_trip(p);
        let j = joined(p, list_separator());
        let b = seq![' '] + x;
        assert(!b.contains(',')) by {
            if b.contains(',') {
                let i = choose|i: int| 0 <= i < b.len() && b[i] == ',';
                assert(i > 0);
                assert(x[i - 1] == ',');
            }
        }
        assert(joined(l, list_separator()) =~= j.push(',') + b);
        lemma_split_comma(j);
        lemma_split_extend(j.push(','), b);
        let sj = split_commas(j);
        assert(split_commas(j.push(',') + b) =~= sj.push(b)) by {
            assert(sj.push(Seq::empty()).last() + b =~= b);
        }
        lemma_trimmed_after_space(x);
        assert(split_trimmed(joined(l, list_separator())) =~= split_trimmed(j).push(x));
    }
}

/// Whether some write of `w` has key `k`.
pub open spec fn in_writes(w: Seq<TextWrite>, k: ItemKey) -> bool {
    exists|i: int| 0 <= i < w.len() && (#[trigger] w[i]).0 == k
}

/// The items that the writes of `w` append, for a format that stores the keys `keys`.
pub open spec fn new_items(keys: Set<ItemKey>, w: Seq<TextWrite>) -> Seq<ItemEntry>
    decreases w.len(),
{
    if w.len() == 0 {
        Seq::empty()
    } else {
        let p = new_items(keys, w.drop_last());
        if keys.contains(w.last().0) {
            p.push(ItemEntry { key: w.last().0, value: ValueModel::Text(w.last().1) })
        } else {
            p
        }
    }
}

/// The place of each key that a model writes in the order of the writes.
pub open spec fn rank(k: ItemKey) -> int {
    match k {
        ItemKey::TrackTitle => 0,
        ItemKey::TrackArtist => 1,
        ItemKey::TrackArtists => 2,
        ItemKey::AlbumTitle => 3,
        ItemKey::Year => 4,
        ItemKey::RecordingDate => 5,
        ItemKey::Genre => 6,
        ItemKey::TrackNumber => 7,
        ItemKey::TrackTotal => 8,
        ItemKey::DiscNumber => 9,
        ItemKey::DiscTotal => 10,
        ItemKey::AlbumArtist => 11,
        ItemKey::Comment => 12,
        _ => 13,
    }
}

pub open spec fn ranked(w: Seq<TextWrite>) -> bool {
    forall|i: int, j: int| 0 <= i < j < w.len() ==> rank((#[trigger] w[i]).0) < rank((#[trigger] w[j]).0)
}

pub open spec fn below(w: Seq<TextWrite>, r: int) -> bool {
    forall|i: int| 0 <= i < w.len() ==> rank((#[trigger] w[i]).0) < r
}

proof fn lemma_filter_keep_all<A>(s: Seq<A>, p: spec_fn(A) -> bool)
    requires
        forall|i: int| 0 <= i < s.len() ==> p(#[trigger] s[i]),
    ensures
        s.filter(p) == s,
    decreases s.len(),
{
    reveal(Seq::filter);
    if s.len() > 0 {
        lemma_filter_keep_all(s.drop_last(), p);
        assert(s.drop_last().push(s.last()) =~= s);
        s.drop_last().lemma_filter_push(s.last(), p);
    } else {
        assert(s.filter(p) =~= s);
    }
}

proof fn lemma_filter_drop_all<A>(s: Seq<A>, p: spec_fn(A) -> bool)
    requires
        forall|i: int| 0 <= i < s.len() ==> !p(#[trigger] s[i]),
    ensures
        s.filter(p) == Seq::<A>::empty(),
    decreases s.len(),
{
    reveal(Seq::filter);
    if s.len() > 0 {
        lemma_filter_drop_all(s.drop_last(), p);
        assert(s.drop_last().push(s.last()) =~= s);
        s.drop_last().lemma_filter_push(s.last(), p);
    } else {
        assert(s.filter(p) =~= Seq::<A>::empty());
    }
}

proof fn lemma_new_items_keys(keys: Set<ItemKey>, w: Seq<TextWrite>)
    ensures
        forall|j: int| 0 <= j < new_items(keys, w).len() ==> in_writes(w, (#[trigger] new_items(keys, w)[j]).key),
    decreases w.len(),
{
    if w.len() > 0 {
        let v = w.drop_last();
        lemma_new_items_keys(keys, v);
        assert forall|j: int| 0 <= j < new_items(keys, w).len() implies in_writes(w, (#[trigger] new_items(keys, w)[j]).key) by {
            if j < new_items(keys, v).len() {
                let k = new_items(keys, v)[j].key;
                assert(in_writes(v, k));
                let i = choose|i: int| 0 <= i < v.len() && (#[trigger] v[i]).0 == k;
                assert(w[i] == v[i]);
            } else {
                assert(w[w.len() - 1].0 == new_items(keys, w)[j].key);
            }
        }
    }
}

/// The items after a run of writes with distinct keys: every item with a written key
/// removed, then the new items appended.
proof fn lemma_closed_form(items: Seq<ItemEntry>, keys: Set<ItemKey>, w: Seq<TextWrite>)
    requires
        ranked(w),
    ensures
        items_after(items, keys, w) == items.filter(|e: ItemEntry| !in_writes(w, e.key)) + new_items(keys, w),
    decreases w.len(),
{
    let pw = |e: ItemEntry| !in_writes(w, e.key);
    if w.len() == 0 {
        lemma_filter_keep_all(items, pw);
        assert(items + Seq::<ItemEntry>::empty() =~= items);
    } else {
        let v = w.drop_last();
        let x = w.last();
        assert(ranked(v)) by {
            assert forall|i: int, j: int| 0 <= i < j < v.len() implies rank((#[trigger] v[i]).0) < rank((#[trigger] v[j]).0) by {
                assert(v[i] == w[i] && v[j] == w[j]);
            }
        }
        lemma_closed_form(items, keys, v);
        let pv = |e: ItemEntry| !in_writes(v, e.key);
        let pk = |e: ItemEntry| e.key != x.0;
        let a = items.filter(pv);
        let n = new_items(keys, v);
        Seq::filter_distributes_over_add(a, n, pk);
        lemma_filter_twice(items, pv, pk);
        assert forall|k: ItemKey| in_writes(w, k) <==> (in_writes(v, k) || k == x.0) by {
            if in_writes(w, k) {
                let i = choose|i: int| 0 <= i < w.len() && (#[trigger] w[i]).0 == k;
                if i < v.len() {
                    assert(v[i] == w[i]);
                }
            }
            if in_writes(v, k) {
                let i = choose|i: int| 0 <= i < v.len() && (#[trigger] v[i]).0 == k;
                assert(w[i] == v[i]);
            }
            if k == x.0 {
                assert(w[w.len() - 1].0 == k);
            }
        }
        assert((|e: ItemEntry| pv(e) && pk(e)) =~= pw);
        lemma_new_items_keys(keys, v);
        assert forall|j: int| 0 <= j < n.len() implies pk(#[trigger] n[j]) by {
            let k = n[j].key;
            assert(in_writes(v, k));
            let i = choose|i: int| 0 <= i < v.len() && (#[trigger] v[i]).0 == k;
            assert(w[i] == v[i]);
            assert(rank(w[i].0) < rank(w[w.len() - 1].0));
        }
        lemma_filter_keep_all(n, pk);
        if keys.contains(x.0) {
            assert((a + n).filter(pk).push(ItemEntry { key: x.0, value: ValueModel::Text(x.1) })
                =~= items.filter(pw) + new_items(keys, w));
        } else {
            assert((a + n).filter(pk) =~= items.filter(pw) + new_items(keys, w));
        }
    }
}

proof fn lemma_ranked_push(w: Seq<TextWrite>, x: TextWrite)
    requires
        ranked(w),
        below(w, rank(x.0)),
    ensures
        ranked(w.push(x)),
        below(w.push(x), rank(x.0) + 1),
{
    let u = w.push(x);
    assert forall|i: int, j: int| 0 <= i < j < u.len() implies rank((#[trigger] u[i]).0) < rank((#[trigger] u[j]).0) by {
        assert(u[i] == w[i]);
        if j < w.len() {
            assert(u[j] == w[j]);
        }
    }
    assert forall|i: int| 0 <= i < u.len() implies rank((#[trigger] u[i]).0) < rank(x.0) + 1 by {
        if i < w.len() {
            assert(u[i] == w[i]);
        }
    }
}

proof fn lemma_with_text_ranked(w: Seq<TextWrite>, k: ItemKey, v: Option<Seq<char>>)
    requires
        ranked(w),
        below(w, rank(k)),
    ensures
        ranked(with_text(w, k, v)),
        below(with_text(w, k, v), rank(k) + 1),
{
    if let Some(t) = v {
        lemma_ranked_push(w, (k, t));
    }
}

proof fn lemma_with_number_ranked(w: Seq<TextWrite>, k: ItemKey, v: Option<u32>)
    requires
        ranked(w),
        below(w, rank(k)),
    ensures
        ranked(with_number(w, k, v)),
        below(with_number(w, k, v), rank(k) + 1),
{
    if let Some(n) = v {
        lemma_ranked_push(w, (k, decimal(n as nat)));
    }
}

proof fn lemma_item_writes_ranked(t: AudioTagsView)
    ensures
        ranked(item_writes(t)),
{
    let w0 = Seq::<TextWrite>::empty();
    lemma_with_text_ranked(w0, ItemKey::TrackTitle, t.title);
    let w1 = with_text(w0, ItemKey::TrackTitle, t.title);
    let w2 = match t.artists {
        Some(a) => if a.len() > 0 {
            w1.push((ItemKey::TrackArtist, a[0])).push(
                (ItemKey::TrackArtists, joined(a, list_separator())),
            )
        } else {
            w1
        },
        None => w1,
    };
    if let Some(a) = t.artists {
        if a.len() > 0 {
            lemma_ranked_push(w1, (ItemKey::TrackArtist, a[0]));
            lemma_ranked_push(w1.push((ItemKey::TrackArtist, a[0])), (ItemKey::TrackArtists, joined(a, list_separator())));
        }
    }
    assert(ranked(w2) && below(w2, 3));
    lemma_with_text_ranked(w2, ItemKey::AlbumTitle, t.album);
    let w3 = head_writes(t, w0);
    assert(w3 == with_text(w2, ItemKey::AlbumTitle, t.album));
    lemma_with_number_ranked(w3, ItemKey::Year, t.year);
    let w4 = with_number(w3, ItemKey::Year, t.year);
    lemma_with_number_ranked(w4, ItemKey::RecordingDate, t.year);
    let w5 = with_number(w4, ItemKey::RecordingDate, t.year);
    lemma_with_text_ranked(w5, ItemKey::Genre, t.genre);
    let w6 = with_text(w5, ItemKey::Genre, t.genre);
    if let Some(p) = t.track {
        lemma_with_number_ranked(w6, ItemKey::TrackNumber, p.no);
        lemma_with_number_ranked(with_number(w6, ItemKey::TrackNumber, p.no), ItemKey::TrackTotal, p.of);
    }
    let w7 = middle_writes(t, w3);
    assert(w7 == with_position(w6, ItemKey::TrackNumber, ItemKey::TrackTotal, t.track));
    assert(ranked(w7) && below(w7, 9));
    if let Some(p) = t.disc {
        lemma_with_number_ranked(w7, ItemKey::DiscNumber, p.no);
        lemma_with_number_ranked(with_number(w7, ItemKey::DiscNumber, p.no), ItemKey::DiscTotal, p.of);
    }
    let w8 = with_position(w7, ItemKey::DiscNumber, ItemKey::DiscTotal, t.disc);
    assert(ranked(w8) && below(w8, 11));
    let w9 = match t.album_artists {
        Some(a) => if a.len() > 0 {
            w8.push((ItemKey::AlbumArtist, joined(a, list_separator())))
        } else {
            w8
        },
        None => w8,
    };
    if let Some(a) = t.album_artists {
        if a.len() > 0 {
            lemma_ranked_push(w8, (ItemKey::AlbumArtist, joined(a, list_separator())));
        }
    }
    assert(ranked(w9) && below(w9, 12));
    lemma_with_text_ranked(w9, ItemKey::Comment, t.comment);
    assert(item_writes(t) == with_text(w9, ItemKey::Comment, t.comment));
}

/// Writing the same model twice onto a tag leaves the items and pictures that writing it
/// once leaves.
pub proof fn law_rewrite_idempotent(
    t: AudioTagsView,
    items: Seq<ItemEntry>,
    keys: Set<ItemKey>,
    pics: Seq<PictureEntry>,
)
    ensures
        items_after(items_after(items, keys, item_writes(t)), keys, item_writes(t)) == items_after(
            items,
            keys,
            item_writes(t),
        ),
        pictures_after(t, pictures_after(t, pics)) == pictures_after(t, pics),
{
    let w = item_writes(t);
    lemma_item_writes_ranked(t);
    let pw = |e: ItemEntry| !in_writes(w, e.key);
    let a = items.filter(pw);
    let n = new_items(keys, w);
    lemma_closed_form(items, keys, w);
    lemma_closed_form(a + n, keys, w);
    Seq::filter_distributes_over_add(a, n, pw);
    lemma_filter_idempotent(items, pw);
    lemma_new_items_keys(keys, w);
    lemma_filter_drop_all(n, pw);
    assert(a + Seq::<ItemEntry>::empty() =~= a);
    match t.all_images {
        Some(l) => {},
        None => match t.image {
            Some(i) => {
                let c = new_cover(i.data, i.description, fallback_mime(i));
                let f = pics.filter(not_cover_picture());
                Seq::filter_distributes_over_add(seq![c], f, not_cover_picture());
                lemma_filter_drop_all(seq![c], not_cover_picture());
                lemma_filter_idempotent(pics, not_cover_picture());
                assert(Seq::<PictureEntry>::empty() + f =~= f);
            },
            None => {},
        },
    }
}

} // verus!
