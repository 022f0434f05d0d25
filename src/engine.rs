use vstd::prelude::*;
use lofty::picture::{MimeType, PictureType};
use lofty::tag::{ItemKey, ItemValue, Tag};
use vstd::slice::slice_to_vec;
use crate::lofty_specs::{
    artist_of, album_of, comment_of, disc_no, disc_of, first_number, first_text, genre_of,
    item_values, mime_from_str, mime_from_text, mime_text, mime_to_string, picture_at,
    picture_count, push_picture, same_items, sniff_mime, sniffed_mime, tag_items, tag_pictures,
    take_picture, tag_keys, remove_key, insert_text, push_text, same_pictures,
    title_of, track_no, track_of, value_model, year_of, year_value, ItemEntry, PictureEntry,
    StoredPicture, ValueModel,
};
use crate::model::{
    copy_opt_text, images, opt_image, opt_text, texts, AudioImageType, AudioTags, AudioTagsView, Image, ImageView,
    Position,
};
use crate::text::{
    decimal, decimal_text, join_list, joined, list_separator, push_split_trimmed, split_trimmed,
};

verus! {

/// Whether an image plays the cover-front role.
pub open spec fn is_cover_view() -> spec_fn(ImageView) -> bool {
    |i: ImageView| i.pic_type == AudioImageType::CoverFront
}

pub open spec fn not_cover_view() -> spec_fn(ImageView) -> bool {
    |i: ImageView| i.pic_type != AudioImageType::CoverFront
}

/// The images with every cover-front image first, each group in the order it came in.
pub open spec fn cover_first_order(s: Seq<ImageView>) -> Seq<ImageView> {
    s.filter(is_cover_view()) + s.filter(not_cover_view())
}

/// The text of a value, or nothing where it holds none.
pub open spec fn text_or_empty(v: ValueModel) -> Seq<char> {
    match v {
        ValueModel::Text(s) => s,
        _ => Seq::empty(),
    }
}

/// The values of a sequence of items, each split at commas and trimmed, in order.
pub open spec fn split_values(vals: Seq<ValueModel>) -> Seq<Seq<char>>
    decreases vals.len(),
{
    if vals.len() == 0 {
        Seq::empty()
    } else {
        split_values(vals.drop_last()) + split_trimmed(text_or_empty(vals.last()))
    }
}

/// The values held by the items with key `k`, in order.
pub open spec fn key_values(items: Seq<ItemEntry>, k: ItemKey) -> Seq<ValueModel> {
    items.filter(|e: ItemEntry| e.key == k).map_values(|e: ItemEntry| e.value)
}

/// The list values of key `k`.
pub open spec fn list_of(items: Seq<ItemEntry>, k: ItemKey) -> Seq<Seq<char>> {
    split_values(key_values(items, k))
}

/// The artists of a tag: its multi-value artists item, or else its single artist.
pub open spec fn artists_of(items: Seq<ItemEntry>) -> Seq<Seq<char>> {
    let multi = list_of(items, ItemKey::TrackArtists);
    if multi.len() > 0 {
        multi
    } else {
        match first_text(items, ItemKey::TrackArtist) {
            Some(a) => seq![a],
            None => Seq::empty(),
        }
    }
}

/// A position, present where either of its members is known.
pub open spec fn position_of(no: Option<u32>, of: Option<u32>) -> Option<Position> {
    if no is None && of is None {
        None
    } else {
        Some(Position { no, of })
    }
}

/// The image that a stored picture reads as.
pub open spec fn image_of(p: PictureEntry) -> ImageView {
    ImageView {
        data: p.data,
        pic_type: AudioImageType::spec_from_picture_type(p.pic_type),
        mime_type: match p.mime_type {
            Some(m) => Some(mime_text(m)),
            None => None,
        },
        description: p.description,
    }
}

/// All pictures of a tag as images, cover-front first.
pub open spec fn sorted_images(pics: Seq<PictureEntry>) -> Seq<ImageView> {
    cover_first_order(pics.map_values(|p: PictureEntry| image_of(p)))
}

/// The first image where it is the cover-front image.
pub open spec fn cover_of(all: Seq<ImageView>) -> Option<ImageView> {
    if all.len() > 0 && all[0].pic_type == AudioImageType::CoverFront {
        Some(all[0])
    } else {
        None
    }
}

/// The uniform model of a tag with these items and pictures.
pub open spec fn normalized(items: Seq<ItemEntry>, pics: Seq<PictureEntry>) -> AudioTagsView {
    let all = sorted_images(pics);
    AudioTagsView {
        title: first_text(items, ItemKey::TrackTitle),
        artists: Some(artists_of(items)),
        album: first_text(items, ItemKey::AlbumTitle),
        year: year_of(items),
        genre: first_text(items, ItemKey::Genre),
        track: position_of(
            first_number(items, ItemKey::TrackNumber),
            first_number(items, ItemKey::TrackTotal),
        ),
        album_artists: Some(list_of(items, ItemKey::AlbumArtist)),
        comment: first_text(items, ItemKey::Comment),
        disc: position_of(
            first_number(items, ItemKey::DiscNumber),
            first_number(items, ItemKey::DiscTotal),
        ),
        image: cover_of(all),
        all_images: if all.len() == 0 {
            None
        } else {
            Some(all)
        },
    }
}

/// The values of the items with key `item_key`, each split at commas and trimmed.
pub fn get_values_from_item(tag: &Tag, item_key: &ItemKey) -> (r: Vec<String>)
    ensures
        texts(r@) == list_of(tag_items(*tag), *item_key),
{
    let values = item_values(tag, item_key);
    let ghost vals = values@.map_values(|v: ItemValue| value_model(v));
    let mut result: Vec<String> = Vec::new();
    let mut i: usize = 0;
    while i < values.len()
        invariant
            i <= values@.len(),
            vals == values@.map_values(|v: ItemValue| value_model(v)),
            texts(result@) == split_values(vals.subrange(0, i as int)),
        decreases values@.len() - i,
    {
        let ghost pre = vals.subrange(0, i as int);
        assert(vals.subrange(0, i + 1).drop_last() =~= pre);
        let text: &str = match &values[i] {
            ItemValue::Text(s) => s.as_str(),
            _ => "",
        };
        proof {
            assert(vals[i as int] == value_model(values@[i as int]));
            if !(values@[i as int] is Text) {
                reveal_strlit("");
                assert(text@ =~= Seq::<char>::empty());
            }
        }
        push_split_trimmed(text, &mut result);
        i = i + 1;
    }
    assert(vals.subrange(0, vals.len() as int) =~= vals);
    result
}

/// The images with every cover-front image first, each group kept in the order it came in.
pub fn cover_first(list: &Vec<Image>) -> (r: Vec<Image>)
    ensures
        images(r@) == cover_first_order(images(list@)),
{
    let ghost all = images(list@);
    let mut covers: Vec<Image> = Vec::new();
    let mut rest: Vec<Image> = Vec::new();
    let mut i: usize = 0;
    while i < list.len()
        invariant
            i <= list@.len(),
            all == images(list@),
            images(covers@) == all.subrange(0, i as int).filter(is_cover_view()),
            images(rest@) == all.subrange(0, i as int).filter(not_cover_view()),
        decreases list@.len() - i,
    {
        let img = list[i].duplicate();
        proof {
            assert(all.subrange(0, i + 1) =~= all.subrange(0, i as int).push(all[i as int]));
            all.subrange(0, i as int).lemma_filter_push(all[i as int], is_cover_view());
            all.subrange(0, i as int).lemma_filter_push(all[i as int], not_cover_view());
        }
        let ghost c = covers@;
        let ghost o = rest@;
        if img.pic_type.is_cover_front() {
            covers.push(img);
            assert(images(covers@) =~= images(c).push(all[i as int]));
        } else {
            rest.push(img);
            assert(images(rest@) =~= images(o).push(all[i as int]));
        }
        i = i + 1;
    }
    assert(all.subrange(0, list@.len() as int) =~= all);
    let ghost c = covers@;
    let ghost o = rest@;
    covers.append(&mut rest);
    assert(images(covers@) =~= images(c) + images(o));
    covers
}

/// Whether a stored picture plays the cover-front role.
pub open spec fn cover_picture() -> spec_fn(PictureEntry) -> bool {
    |p: PictureEntry| p.pic_type == PictureType::CoverFront
}

pub open spec fn not_cover_picture() -> spec_fn(PictureEntry) -> bool {
    |p: PictureEntry| p.pic_type != PictureType::CoverFront
}

/// The MIME type found by sniffing `data`, or `default` where sniffing finds none.
pub open spec fn sniffed_or(data: Seq<u8>, default: MimeType) -> MimeType {
    match sniffed_mime(data) {
        Some(m) => mime_from_text(m),
        None => default,
    }
}

/// The cover-front picture that a cover-only replacement stores.
pub open spec fn new_cover(
    data: Seq<u8>,
    description: Option<Seq<char>>,
    default: MimeType,
) -> PictureEntry {
    PictureEntry {
        pic_type: PictureType::CoverFront,
        mime_type: Some(sniffed_or(data, default)),
        description,
        data,
    }
}

/// The pictures after a cover-only replacement: the new cover, then every other picture
/// that is not a cover-front picture, in the order they were held.
pub open spec fn with_cover(pics: Seq<PictureEntry>, cover: PictureEntry) -> Seq<PictureEntry> {
    seq![cover] + pics.filter(not_cover_picture())
}

/// The picture that an image is stored as.
pub open spec fn stored_of(i: ImageView) -> PictureEntry {
    PictureEntry {
        pic_type: i.pic_type.spec_picture_type(),
        mime_type: match i.mime_type {
            Some(m) => Some(mime_from_text(m)),
            None => None,
        },
        description: i.description,
        data: i.data,
    }
}

/// The pictures after a full replacement by `list`.
pub open spec fn replaced_pictures(list: Seq<ImageView>) -> Seq<PictureEntry> {
    cover_first_order(list).map_values(|i: ImageView| stored_of(i))
}

pub open spec fn stored_views(v: Seq<StoredPicture>) -> Seq<PictureEntry> {
    v.map_values(|p: StoredPicture| p@)
}

pub fn is_cover_picture(p: &PictureType) -> (r: bool)
    ensures
        r == (*p == PictureType::CoverFront),
{
    match p {
        PictureType::CoverFront => true,
        _ => false,
    }
}

/// Replaces the cover-front picture of a tag: every existing cover-front picture is removed,
/// and the new one, with its MIME type found by sniffing `image_data` (or `default_mime_type`
/// where sniffing finds none), is put first; the other pictures follow in their order.
pub fn add_cover_image(
    primary_tag: &mut Tag,
    image_data: &[u8],
    image_description: Option<String>,
    default_mime_type: MimeType,
)
    ensures
        tag_pictures(*final(primary_tag)) == with_cover(
            tag_pictures(*old(primary_tag)),
            new_cover(image_data@, opt_text(image_description), default_mime_type),
        ),
        same_items(*final(primary_tag), *old(primary_tag)),
{
    let ghost start = *primary_tag;
    let ghost old_pics = tag_pictures(*primary_tag);
    let buf = slice_to_vec(image_data);
    let mime_type = match sniff_mime(&buf) {
        Some(m) => mime_from_str(m.as_str()),
        None => default_mime_type,
    };
    let len = picture_count(primary_tag);
    let mut kept: Vec<StoredPicture> = Vec::new();
    let mut i: usize = 0;
    while i < len
        invariant
            i <= len == old_pics.len(),
            tag_pictures(*primary_tag) == old_pics.subrange(i as int, len as int),
            stored_views(kept@) == old_pics.subrange(0, i as int).filter(not_cover_picture()),
            same_items(*primary_tag, start),
        decreases len - i,
    {
        let ghost cur = tag_pictures(*primary_tag);
        let current_picture = take_picture(primary_tag, 0);
        proof {
            assert(cur.remove(0) =~= old_pics.subrange(i + 1, len as int));
            assert(old_pics.subrange(0, i + 1) =~= old_pics.subrange(0, i as int).push(old_pics[i as int]));
            old_pics.subrange(0, i as int).lemma_filter_push(old_pics[i as int], not_cover_picture());
        }
        let ghost k = kept@;
        if !is_cover_picture(&current_picture.pic_type) {
            kept.push(current_picture);
            assert(stored_views(kept@) =~= stored_views(k).push(old_pics[i as int]));
        }
        i = i + 1;
    }
    assert(old_pics.subrange(0, len as int) =~= old_pics);
    let cover = StoredPicture {
        pic_type: PictureType::CoverFront,
        mime_type: Some(mime_type),
        description: image_description,
        data: buf,
    };
    assert(cover@ == new_cover(image_data@, opt_text(image_description), default_mime_type));
    assert(tag_pictures(*primary_tag) =~= Seq::<PictureEntry>::empty());
    push_picture(primary_tag, cover);
    let ghost rest = stored_views(kept@);
    let ghost head = seq![cover@];
    assert(tag_pictures(*primary_tag) =~= head);
    let mut j: usize = 0;
    let total = kept.len();
    while kept.len() > 0
        invariant
            j + kept@.len() == total == rest.len(),
            stored_views(kept@) == rest.subrange(j as int, total as int),
            tag_pictures(*primary_tag) == head + rest.subrange(0, j as int),
            same_items(*primary_tag, start),
        decreases kept@.len(),
    {
        let ghost k = kept@;
        let p = kept.remove(0);
        assert(stored_views(k)[0] == p@);
        assert(stored_views(kept@) =~= stored_views(k).subrange(1, k.len() as int));
        assert(stored_views(kept@) =~= rest.subrange(j + 1, total as int));
        assert(p@ == rest[j as int]);
        push_picture(primary_tag, p);
        assert(head + rest.subrange(0, j + 1) =~= (head + rest.subrange(0, j as int)).push(rest[j as int]));
        j = j + 1;
    }
    assert(rest.subrange(0, total as int) =~= rest);
}

/// Replaces every picture of a tag by `list`, cover-front images first, each group in the
/// order it came in.
pub fn replace_all_pictures(primary_tag: &mut Tag, list: &Vec<Image>)
    ensures
        tag_pictures(*final(primary_tag)) == replaced_pictures(images(list@)),
        same_items(*final(primary_tag), *old(primary_tag)),
{
    let ghost start = *primary_tag;
    let sorted = cover_first(list);
    let ghost order = images(sorted@);
    let len = picture_count(primary_tag);
    let ghost old_pics = tag_pictures(*primary_tag);
    let mut i: usize = len;
    while i > 0
        invariant
            i <= len == old_pics.len(),
            tag_pictures(*primary_tag) == old_pics.subrange(0, i as int),
            same_items(*primary_tag, start),
        decreases i,
    {
        i = i - 1;
        let ghost cur = tag_pictures(*primary_tag);
        let _ = take_picture(primary_tag, i);
        assert(cur.remove(i as int) =~= old_pics.subrange(0, i as int));
    }
    assert(tag_pictures(*primary_tag) =~= Seq::<PictureEntry>::empty());
    let mut j: usize = 0;
    while j < sorted.len()
        invariant
            j <= sorted@.len(),
            order == images(sorted@),
            tag_pictures(*primary_tag) == order.subrange(0, j as int).map_values(
                |v: ImageView| stored_of(v),
            ),
            same_items(*primary_tag, start),
        decreases sorted@.len() - j,
    {
        let image = &sorted[j];
        let mime_type = match &image.mime_type {
            Some(s) => Some(mime_from_str(s.as_str())),
            None => None,
        };
        let picture = StoredPicture {
            pic_type: image.pic_type.build_picture_type(),
            mime_type,
            description: copy_opt_text(&image.description),
            data: image.data.clone(),
        };
        assert(picture@ == stored_of(order[j as int]));
        push_picture(primary_tag, picture);
        assert(order.subrange(0, j + 1).map_values(|v: ImageView| stored_of(v)) =~= order.subrange(
            0,
            j as int,
        ).map_values(|v: ImageView| stored_of(v)).push(stored_of(order[j as int])));
        j = j + 1;
    }
    assert(order.subrange(0, sorted@.len() as int) =~= order);
}

/// Reads a tag that may be absent: an absent tag reads as the model with every field absent.
pub fn normalize(tag: Option<&Tag>) -> (r: AudioTags)
    ensures
        r@ == match tag {
            Some(t) => normalized(tag_items(*t), tag_pictures(*t)),
            None => AudioTagsView::absent(),
        },
{
    match tag {
        Some(t) => AudioTags::from_tag(t),
        None => AudioTags::absent(),
    }
}

/// One write of a text item: its key and its text.
pub type TextWrite = (ItemKey, Seq<char>);

/// The items after the items with key `k` are removed and, where the format stores `k`,
/// one holding `t` is appended.
pub open spec fn replace_item(
    items: Seq<ItemEntry>,
    keys: Set<ItemKey>,
    k: ItemKey,
    t: Seq<char>,
) -> Seq<ItemEntry> {
    let rest = items.filter(|e: ItemEntry| e.key != k);
    if keys.contains(k) {
        rest.push(ItemEntry { key: k, value: ValueModel::Text(t) })
    } else {
        rest
    }
}

/// The items after each write of `w` in turn.
pub open spec fn items_after(
    items: Seq<ItemEntry>,
    keys: Set<ItemKey>,
    w: Seq<TextWrite>,
) -> Seq<ItemEntry>
    decreases w.len(),
{
    if w.len() == 0 {
        items
    } else {
        replace_item(items_after(items, keys, w.drop_last()), keys, w.last().0, w.last().1)
    }
}

pub open spec fn with_text(w: Seq<TextWrite>, k: ItemKey, v: Option<Seq<char>>) -> Seq<TextWrite> {
    match v {
        Some(t) => w.push((k, t)),
        None => w,
    }
}

pub open spec fn with_number(w: Seq<TextWrite>, k: ItemKey, v: Option<u32>) -> Seq<TextWrite> {
    match v {
        Some(n) => w.push((k, decimal(n as nat))),
        None => w,
    }
}

pub open spec fn with_position(
    w: Seq<TextWrite>,
    no_key: ItemKey,
    of_key: ItemKey,
    p: Option<Position>,
) -> Seq<TextWrite> {
    match p {
        Some(p) => with_number(with_number(w, no_key, p.no), of_key, p.of),
        None => w,
    }
}

/// The writes of the title, artists and album, after `w`.
pub open spec fn head_writes(t: AudioTagsView, w: Seq<TextWrite>) -> Seq<TextWrite> {
    let w = with_text(w, ItemKey::TrackTitle, t.title);
    let w = match t.artists {
        Some(a) => if a.len() > 0 {
            w.push((ItemKey::TrackArtist, a[0])).push(
                (ItemKey::TrackArtists, joined(a, list_separator())),
            )
        } else {
            w
        },
        None => w,
    };
    with_text(w, ItemKey::AlbumTitle, t.album)
}

/// The writes of the year, genre and track, after `w`.
pub open spec fn middle_writes(t: AudioTagsView, w: Seq<TextWrite>) -> Seq<TextWrite> {
    let w = with_number(with_number(w, ItemKey::Year, t.year), ItemKey::RecordingDate, t.year);
    let w = with_text(w, ItemKey::Genre, t.genre);
    with_position(w, ItemKey::TrackNumber, ItemKey::TrackTotal, t.track)
}

/// The writes of the disc, album artists and comment, after `w`.
pub open spec fn tail_writes(t: AudioTagsView, w: Seq<TextWrite>) -> Seq<TextWrite> {
    let w = with_position(w, ItemKey::DiscNumber, ItemKey::DiscTotal, t.disc);
    let w = match t.album_artists {
        Some(a) => if a.len() > 0 {
            w.push((ItemKey::AlbumArtist, joined(a, list_separator())))
        } else {
            w
        },
        None => w,
    };
    with_text(w, ItemKey::Comment, t.comment)
}

/// The item writes that a model makes, in the order they are made. Absent fields, and
/// present but empty lists, write nothing.
pub open spec fn item_writes(t: AudioTagsView) -> Seq<TextWrite> {
    tail_writes(t, middle_writes(t, head_writes(t, Seq::empty())))
}

/// The MIME type that a cover-only replacement falls back to.
pub open spec fn fallback_mime(i: ImageView) -> MimeType {
    match i.mime_type {
        Some(m) => mime_from_text(m),
        None => MimeType::Jpeg,
    }
}

/// The pictures after a model is written: all of `all_images` where it is present, else
/// a cover-only replacement by `image` where that is present, else unchanged.
pub open spec fn pictures_after(t: AudioTagsView, pics: Seq<PictureEntry>) -> Seq<PictureEntry> {
    match t.all_images {
        Some(l) => replaced_pictures(l),
        None => match t.image {
            Some(i) => with_cover(pics, new_cover(i.data, i.description, fallback_mime(i))),
            None => pics,
        },
    }
}

pub proof fn lemma_filter_twice<A>(s: Seq<A>, p: spec_fn(A) -> bool, q: spec_fn(A) -> bool)
    ensures
        s.filter(p).filter(q) == s.filter(|x: A| p(x) && q(x)),
    decreases s.len(),
{
    reveal(Seq::filter);
    if s.len() > 0 {
        let t = s.drop_last();
        let x = s.last();
        lemma_filter_twice(t, p, q);
        assert(s =~= t.push(x));
        t.lemma_filter_push(x, p);
        t.lemma_filter_push(x, |y: A| p(y) && q(y));
        t.filter(p).lemma_filter_push(x, q);
    } else {
        assert(s.filter(p) =~= Seq::<A>::empty());
        assert(s.filter(p).filter(q) =~= Seq::<A>::empty());
        assert(s.filter(|x: A| p(x) && q(x)) =~= Seq::<A>::empty());
    }
}

pub proof fn lemma_filter_idempotent<A>(s: Seq<A>, p: spec_fn(A) -> bool)
    ensures
        s.filter(p).filter(p) == s.filter(p),
{
    lemma_filter_twice(s, p, p);
    assert((|x: A| p(x) && p(x)) =~= p);
}

pub proof fn lemma_items_after_push(
    items: Seq<ItemEntry>,
    keys: Set<ItemKey>,
    w: Seq<TextWrite>,
    x: TextWrite,
)
    ensures
        items_after(items, keys, w.push(x)) == replace_item(items_after(items, keys, w), keys, x.0, x.1),
{
    assert(w.push(x).drop_last() =~= w);
}

/// Replaces the items with key `k` by one holding `text`.
fn replace_text(tag: &mut Tag, k: ItemKey, text: String)
    ensures
        tag_items(*final(tag)) == replace_item(tag_items(*old(tag)), tag_keys(*old(tag)), k, text@),
        same_pictures(*final(tag), *old(tag)),
{
    let ghost s = tag_items(*tag);
    remove_key(tag, &k);
    insert_text(tag, k, text);
    proof {
        lemma_filter_idempotent(s, |e: ItemEntry| e.key != k);
    }
}

/// Replaces the items with key `k` by one holding `text`, appended after the removal.
fn replace_pushed(tag: &mut Tag, k: ItemKey, text: String)
    ensures
        tag_items(*final(tag)) == replace_item(tag_items(*old(tag)), tag_keys(*old(tag)), k, text@),
        same_pictures(*final(tag), *old(tag)),
{
    remove_key(tag, &k);
    push_text(tag, k, text);
}

impl Image {
    /// The image that a stored picture reads as.
    pub fn from_picture(picture: &StoredPicture) -> (r: Self)
        ensures
            r@ == image_of(picture@),
    {
        Image {
            data: picture.data.clone(),
            pic_type: AudioImageType::from_picture_type(&picture.pic_type),
            mime_type: match &picture.mime_type {
                Some(m) => Some(mime_to_string(m)),
                None => None,
            },
            description: copy_opt_text(&picture.description),
        }
    }
}

impl AudioTags {
    /// Reads a tag into the uniform model.
    pub fn from_tag(tag: &Tag) -> (r: Self)
        ensures
            r@ == normalized(tag_items(*tag), tag_pictures(*tag)),
            r@.track is None <==> (first_number(tag_items(*tag), ItemKey::TrackNumber) is None
                && first_number(tag_items(*tag), ItemKey::TrackTotal) is None),
            r@.disc is None <==> (first_number(tag_items(*tag), ItemKey::DiscNumber) is None
                && first_number(tag_items(*tag), ItemKey::DiscTotal) is None),
            match r@.image {
                Some(x) => r@.all_images is Some && r@.all_images->0.len() > 0
                    && r@.all_images->0[0] == x && x.pic_type == AudioImageType::CoverFront,
                None => !(r@.all_images is Some && r@.all_images->0.len() > 0
                    && r@.all_images->0[0].pic_type == AudioImageType::CoverFront),
            },
            r@.all_images is Some ==> r@.all_images->0.len() > 0,
    {
        let ghost items = tag_items(*tag);
        let ghost pics = tag_pictures(*tag);
        let mut artists_values = get_values_from_item(tag, &ItemKey::TrackArtists);
        if artists_values.len() == 0 {
            if let Some(artist) = artist_of(tag) {
                artists_values.push(artist);
                assert(texts(artists_values@) =~= seq![first_text(items, ItemKey::TrackArtist)->0]);
            }
        }
        assert(texts(artists_values@) == artists_of(items));
        let album_artists_values = get_values_from_item(tag, &ItemKey::AlbumArtist);
        let mut stored: Vec<Image> = Vec::new();
        let n = picture_count(tag);
        let mut i: usize = 0;
        while i < n
            invariant
                i <= n == pics.len(),
                pics == tag_pictures(*tag),
                images(stored@) == pics.subrange(0, i as int).map_values(|p: PictureEntry| image_of(p)),
            decreases n - i,
        {
            let picture = picture_at(tag, i);
            let ghost before = stored@;
            stored.push(Image::from_picture(&picture));
            assert(images(stored@) =~= images(before).push(image_of(pics[i as int])));
            assert(pics.subrange(0, i + 1).map_values(|p: PictureEntry| image_of(p))
                =~= pics.subrange(0, i as int).map_values(|p: PictureEntry| image_of(p)).push(image_of(pics[i as int])));
            i = i + 1;
        }
        assert(pics.subrange(0, n as int) =~= pics);
        assert(images(stored@) == pics.map_values(|p: PictureEntry| image_of(p)));
        let all_images = cover_first(&stored);
        assert(images(all_images@) == sorted_images(pics));
        let image = if all_images.len() > 0 && all_images[0].pic_type.is_cover_front() {
            Some(all_images[0].duplicate())
        } else {
            None
        };
        assert(opt_image(image) == cover_of(images(all_images@)));
        let track_no = track_no(tag);
        let track_of = track_of(tag);
        let disc_no = disc_no(tag);
        let disc_of = disc_of(tag);
        let ghost all = images(all_images@);
        let r = AudioTags {
            title: title_of(tag),
            artists: Some(artists_values),
            album: album_of(tag),
            year: year_value(tag),
            genre: genre_of(tag),
            track: if track_no.is_none() && track_of.is_none() {
                None
            } else {
                Some(Position { no: track_no, of: track_of })
            },
            album_artists: Some(album_artists_values),
            comment: comment_of(tag),
            disc: if disc_no.is_none() && disc_of.is_none() {
                None
            } else {
                Some(Position { no: disc_no, of: disc_of })
            },
            image,
            all_images: if all_images.len() == 0 {
                None
            } else {
                Some(all_images)
            },
        };
        assert(r@.all_images == normalized(items, pics).all_images);
        assert(r@.track == normalized(items, pics).track);
        assert(r@.disc == normalized(items, pics).disc);
        assert(r@ == normalized(items, pics));
        r
    }

    /// Writes the title, artists and album, continuing the writes `w0` made since the items were `items0`.
    fn write_head(
        &self,
        primary_tag: &mut Tag,
        Ghost(items0): Ghost<Seq<ItemEntry>>,
        Ghost(w0): Ghost<Seq<TextWrite>>,
    )
        requires
            tag_items(*old(primary_tag)) == items_after(items0, tag_keys(*old(primary_tag)), w0),
        ensures
            tag_items(*final(primary_tag)) == items_after(
                items0,
                tag_keys(*old(primary_tag)),
                head_writes(self@, w0),
            ),
            same_pictures(*final(primary_tag), *old(primary_tag)),
    {
        let ghost keys = tag_keys(*primary_tag);
        let ghost mut w: Seq<TextWrite> = w0;
        if let Some(title) = &self.title {
            replace_text(primary_tag, ItemKey::TrackTitle, title.clone());
            proof {
                lemma_items_after_push(items0, keys, w, (ItemKey::TrackTitle, title@));
                w = w.push((ItemKey::TrackTitle, title@));
            }
        }
        if let Some(artists) = &self.artists {
            if artists.len() > 0 {
                let ghost a = texts(artists@);
                replace_pushed(primary_tag, ItemKey::TrackArtist, artists[0].clone());
                proof {
                    lemma_items_after_push(items0, keys, w, (ItemKey::TrackArtist, a[0]));
                    w = w.push((ItemKey::TrackArtist, a[0]));
                }
                let joined_text = join_list(artists);
                replace_pushed(primary_tag, ItemKey::TrackArtists, joined_text);
                proof {
                    let x = (ItemKey::TrackArtists, joined(a, list_separator()));
                    lemma_items_after_push(items0, keys, w, x);
                    w = w.push(x);
                }
            }
        }
        if let Some(album) = &self.album {
            replace_text(primary_tag, ItemKey::AlbumTitle, album.clone());
            proof {
                lemma_items_after_push(items0, keys, w, (ItemKey::AlbumTitle, album@));
                w = w.push((ItemKey::AlbumTitle, album@));
            }
        }
        assert(w == head_writes(self@, w0));
    }

    /// Writes the year, genre and track, continuing the writes `w0` made since the items were `items0`.
    fn write_middle(
        &self,
        primary_tag: &mut Tag,
        Ghost(items0): Ghost<Seq<ItemEntry>>,
        Ghost(w0): Ghost<Seq<TextWrite>>,
    )
        requires
            tag_items(*old(primary_tag)) == items_after(items0, tag_keys(*old(primary_tag)), w0),
        ensures
            tag_items(*final(primary_tag)) == items_after(
                items0,
                tag_keys(*old(primary_tag)),
                middle_writes(self@, w0),
            ),
            same_pictures(*final(primary_tag), *old(primary_tag)),
    {
        let ghost keys = tag_keys(*primary_tag);
        let ghost mut w: Seq<TextWrite> = w0;
        if let Some(year) = self.year {
            replace_text(primary_tag, ItemKey::Year, decimal_text(year));
            proof {
                let x = (ItemKey::Year, decimal(year as nat));
                lemma_items_after_push(items0, keys, w, x);
                w = w.push(x);
            }
            replace_text(primary_tag, ItemKey::RecordingDate, decimal_text(year));
            proof {
                let x = (ItemKey::RecordingDate, decimal(year as nat));
                lemma_items_after_push(items0, keys, w, x);
                w = w.push(x);
            }
        }
        if let Some(genre) = &self.genre {
            replace_text(primary_tag, ItemKey::Genre, genre.clone());
            proof {
                lemma_items_after_push(items0, keys, w, (ItemKey::Genre, genre@));
                w = w.push((ItemKey::Genre, genre@));
            }
        }
        if let Some(track) = &self.track {
            if let Some(no) = track.no {
                replace_text(primary_tag, ItemKey::TrackNumber, decimal_text(no));
                proof {
                    let x = (ItemKey::TrackNumber, decimal(no as nat));
                    lemma_items_after_push(items0, keys, w, x);
                    w = w.push(x);
                }
            }
            if let Some(of) = track.of {
                replace_text(primary_tag, ItemKey::TrackTotal, decimal_text(of));
                proof {
                    let x = (ItemKey::TrackTotal, decimal(of as nat));
                    lemma_items_after_push(items0, keys, w, x);
                    w = w.push(x);
                }
            }
        }
        assert(w == middle_writes(self@, w0));
    }

    /// Writes the disc, album artists and comment, continuing the writes `w0` made since the items were `items0`.
    fn write_tail(
        &self,
        primary_tag: &mut Tag,
        Ghost(items0): Ghost<Seq<ItemEntry>>,
        Ghost(w0): Ghost<Seq<TextWrite>>,
    )
        requires
            tag_items(*old(primary_tag)) == items_after(items0, tag_keys(*old(primary_tag)), w0),
        ensures
            tag_items(*final(primary_tag)) == items_after(
                items0,
                tag_keys(*old(primary_tag)),
                tail_writes(self@, w0),
            ),
            same_pictures(*final(primary_tag), *old(primary_tag)),
    {
        let ghost keys = tag_keys(*primary_tag);
        let ghost mut w: Seq<TextWrite> = w0;
        if let Some(disc) = &self.disc {
            if let Some(no) = disc.no {
                replace_text(primary_tag, ItemKey::DiscNumber, decimal_text(no));
                proof {
                    let x = (ItemKey::DiscNumber, decimal(no as nat));
                    lemma_items_after_push(items0, keys, w, x);
                    w = w.push(x);
                }
            }
            if let Some(of) = disc.of {
                replace_text(primary_tag, ItemKey::DiscTotal, decimal_text(of));
                proof {
                    let x = (ItemKey::DiscTotal, decimal(of as nat));
                    lemma_items_after_push(items0, keys, w, x);
                    w = w.push(x);
                }
            }
        }
        if let Some(album_artists) = &self.album_artists {
            if album_artists.len() > 0 {
                let joined_text = join_list(album_artists);
                replace_pushed(primary_tag, ItemKey::AlbumArtist, joined_text);
                proof {
                    let x = (ItemKey::AlbumArtist, joined(texts(album_artists@), list_separator()));
                    lemma_items_after_push(items0, keys, w, x);
                    w = w.push(x);
                }
            }
        }
        if let Some(comment) = &self.comment {
            replace_text(primary_tag, ItemKey::Comment, comment.clone());
            proof {
                lemma_items_after_push(items0, keys, w, (ItemKey::Comment, comment@));
                w = w.push((ItemKey::Comment, comment@));
            }
        }
        assert(w == tail_writes(self@, w0));
    }

    /// The model with every field absent.
    pub fn absent() -> (r: Self)
        ensures
            r@ == AudioTagsView::absent(),
    {
        AudioTags {
            title: None,
            artists: None,
            album: None,
            year: None,
            genre: None,
            track: None,
            album_artists: None,
            comment: None,
            disc: None,
            image: None,
            all_images: None,
        }
    }

    /// A model that holds only a cover-front image with these bytes, no MIME type and no
    /// description: writing it replaces the cover alone.
    pub fn cover_only(image_data: Vec<u8>) -> (r: Self)
        ensures
            r@ == (AudioTagsView {
                image: Some(
                    ImageView {
                        data: image_data@,
                        pic_type: AudioImageType::CoverFront,
                        mime_type: None,
                        description: None,
                    },
                ),
                ..AudioTagsView::absent()
            }),
    {
        let mut r = Self::absent();
        r.image = Some(
            Image {
                data: image_data,
                pic_type: AudioImageType::CoverFront,
                mime_type: None,
                description: None,
            },
        );
        r
    }

    /// Writes the model onto a tag. Every present field replaces the items of its keys; an
    /// absent field leaves them as they are. Pictures are replaced as `pictures_after` says.
    pub fn to_tag(&self, primary_tag: &mut Tag)
        ensures
            tag_items(*final(primary_tag)) == items_after(
                tag_items(*old(primary_tag)),
                tag_keys(*old(primary_tag)),
                item_writes(self@),
            ),
            tag_pictures(*final(primary_tag)) == pictures_after(self@, tag_pictures(*old(primary_tag))),
            tag_keys(*final(primary_tag)) == tag_keys(*old(primary_tag)),
    {
        let ghost items0 = tag_items(*primary_tag);
        let ghost t = self@;
        let ghost w0: Seq<TextWrite> = Seq::empty();
        self.write_head(primary_tag, Ghost(items0), Ghost(w0));
        let ghost w1 = head_writes(t, w0);
        self.write_middle(primary_tag, Ghost(items0), Ghost(w1));
        let ghost w2 = middle_writes(t, w1);
        self.write_tail(primary_tag, Ghost(items0), Ghost(w2));
        if let Some(all_images) = &self.all_images {
            replace_all_pictures(primary_tag, all_images);
        } else if let Some(image) = &self.image {
            let default_mime_type = match &image.mime_type {
                Some(s) => mime_from_str(s.as_str()),
                None => MimeType::Jpeg,
            };
            add_cover_image(
                primary_tag,
                image.data.as_slice(),
                copy_opt_text(&image.description),
                default_mime_type,
            );
        }
    }
}

} // verus!
