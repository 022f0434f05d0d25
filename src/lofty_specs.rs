use vstd::prelude::*;
use lofty::picture::{MimeType, Picture, PictureType};
use lofty::tag::{Accessor, ItemKey, ItemValue, Tag, TagItem};
use crate::model::opt_text;
use crate::text::{leading_year, parsed_u32};

verus! {

#[verifier::external_type_specification]
pub struct ExPictureType(PictureType);

#[verifier::external_type_specification]
pub struct ExMimeType(MimeType);

#[verifier::external_type_specification]
pub struct ExItemKey(ItemKey);

#[verifier::external_type_specification]
pub struct ExItemValue(ItemValue);

#[verifier::external_type_specification]
#[verifier::external_body]
pub struct ExTag(Tag);

/// The value of a tag item, with its strings as character sequences.
pub ghost enum ValueModel {
    Text(Seq<char>),
    Locator(Seq<char>),
    Binary(Seq<u8>),
}

pub open spec fn value_model(v: ItemValue) -> ValueModel {
    match v {
        ItemValue::Text(s) => ValueModel::Text(s@),
        ItemValue::Locator(s) => ValueModel::Locator(s@),
        ItemValue::Binary(b) => ValueModel::Binary(b@),
    }
}

/// One item of a tag: its key and its value.
pub ghost struct ItemEntry {
    pub key: ItemKey,
    pub value: ValueModel,
}

/// One picture of a tag.
pub ghost struct PictureEntry {
    pub pic_type: PictureType,
    pub mime_type: Option<MimeType>,
    pub description: Option<Seq<char>>,
    pub data: Seq<u8>,
}

/// The items of a tag, in the order the tag holds them.
pub uninterp spec fn tag_items(t: Tag) -> Seq<ItemEntry>;

/// The pictures of a tag, in the order the tag holds them.
pub uninterp spec fn tag_pictures(t: Tag) -> Seq<PictureEntry>;

/// The item keys that the tag's container format can store.
pub uninterp spec fn tag_keys(t: Tag) -> Set<ItemKey>;

/// The MIME type that `MimeType::from_str` gives for a string.
pub uninterp spec fn mime_from_text(s: Seq<char>) -> MimeType;

/// The MIME type that content sniffing finds in a byte sequence, if it recognises one.
pub uninterp spec fn sniffed_mime(data: Seq<u8>) -> Option<Seq<char>>;

/// The text of the first item with key `k`, if that item holds text.
pub open spec fn first_text(items: Seq<ItemEntry>, k: ItemKey) -> Option<Seq<char>> {
    let found = items.filter(|e: ItemEntry| e.key == k);
    if found.len() > 0 {
        match found[0].value {
            ValueModel::Text(s) => Some(s),
            _ => None,
        }
    } else {
        None
    }
}

/// The number held as text by the first item with key `k`.
pub open spec fn first_number(items: Seq<ItemEntry>, k: ItemKey) -> Option<u32> {
    match first_text(items, k) {
        Some(s) => parsed_u32(s),
        None => None,
    }
}

/// The year of a tag: read from its year item, or else from its recording date.
pub open spec fn year_of(items: Seq<ItemEntry>) -> Option<u32> {
    let date = match first_text(items, ItemKey::Year) {
        Some(s) => Some(s),
        None => first_text(items, ItemKey::RecordingDate),
    };
    match date {
        Some(s) => leading_year(s),
        None => None,
    }
}

/// The text that `MimeType`'s `Display` writes.
pub open spec fn mime_text(m: MimeType) -> Seq<char> {
    match m {
        MimeType::Jpeg => seq!['i', 'm', 'a', 'g', 'e', '/', 'j', 'p', 'e', 'g'],
        MimeType::Png => seq!['i', 'm', 'a', 'g', 'e', '/', 'p', 'n', 'g'],
        MimeType::Tiff => seq!['i', 'm', 'a', 'g', 'e', '/', 't', 'i', 'f', 'f'],
        MimeType::Bmp => seq!['i', 'm', 'a', 'g', 'e', '/', 'b', 'm', 'p'],
        MimeType::Gif => seq!['i', 'm', 'a', 'g', 'e', '/', 'g', 'i', 'f'],
        MimeType::Unknown(s) => s@,
        _ => Seq::empty(),
    }
}

/// A picture taken out of a tag, or to be put into one, as plain values.
pub struct StoredPicture {
    pub pic_type: PictureType,
    pub mime_type: Option<MimeType>,
    pub description: Option<String>,
    pub data: Vec<u8>,
}

impl View for StoredPicture {
    type V = PictureEntry;

    open spec fn view(&self) -> PictureEntry {
        PictureEntry {
            pic_type: self.pic_type,
            mime_type: self.mime_type,
            description: opt_text(self.description),
            data: self.data@,
        }
    }
}

/// Nothing but the items changed.
pub open spec fn same_pictures(a: Tag, b: Tag) -> bool {
    &&& tag_pictures(a) == tag_pictures(b)
    &&& tag_keys(a) == tag_keys(b)
}

/// Nothing but the pictures changed.
pub open spec fn same_items(a: Tag, b: Tag) -> bool {
    &&& tag_items(a) == tag_items(b)
    &&& tag_keys(a) == tag_keys(b)
}

/// Relies on `Tag::pictures`: the number of pictures.
#[verifier::external_body]
pub(crate) fn picture_count(t: &Tag) -> (r: usize)
    ensures
        r == tag_pictures(*t).len(),
{
    t.pictures().len()
}

/// Relies on `Tag::pictures` and `Picture`'s getters: the picture at `i`, field by field.
#[verifier::external_body]
pub(crate) fn picture_at(t: &Tag, i: usize) -> (r: StoredPicture)
    requires
        i < tag_pictures(*t).len(),
    ensures
        r@ == tag_pictures(*t)[i as int],
{
    let p = &t.pictures()[i];
    StoredPicture {
        pic_type: p.pic_type(),
        mime_type: p.mime_type().cloned(),
        description: p.description().map(|d| d.to_string()),
        data: p.data().to_vec(),
    }
}

/// Relies on `Tag::remove_picture`: takes the picture at `i` out, keeping the others in order.
#[verifier::external_body]
pub(crate) fn take_picture(t: &mut Tag, i: usize) -> (r: StoredPicture)
    requires
        i < tag_pictures(*old(t)).len(),
    ensures
        r@ == tag_pictures(*old(t))[i as int],
        tag_pictures(*final(t)) == tag_pictures(*old(t)).remove(i as int),
        same_items(*final(t), *old(t)),
{
    let p = t.remove_picture(i);
    StoredPicture {
        pic_type: p.pic_type(),
        mime_type: p.mime_type().cloned(),
        description: p.description().map(|d| d.to_string()),
        data: p.data().to_vec(),
    }
}

/// Relies on `Picture::new_unchecked` and `Tag::push_picture`: appends the picture.
#[verifier::external_body]
pub(crate) fn push_picture(t: &mut Tag, p: StoredPicture)
    ensures
        tag_pictures(*final(t)) == tag_pictures(*old(t)).push(p@),
        same_items(*final(t), *old(t)),
{
    t.push_picture(Picture::new_unchecked(p.pic_type, p.mime_type, p.description, p.data))
}

/// Relies on `Tag::remove_key`: drops every item with key `k`.
#[verifier::external_body]
pub(crate) fn remove_key(t: &mut Tag, k: &ItemKey)
    ensures
        tag_items(*final(t)) == tag_items(*old(t)).filter(|e: ItemEntry| e.key != *k),
        same_pictures(*final(t), *old(t)),
{
    t.remove_key(k)
}

/// Relies on `Tag::insert_text`: where the format stores key `k`, replaces its items by one
/// holding `text`; elsewhere changes nothing.
#[verifier::external_body]
pub(crate) fn insert_text(t: &mut Tag, k: ItemKey, text: String) -> (r: bool)
    ensures
        r == tag_keys(*old(t)).contains(k),
        tag_items(*final(t)) == if r {
            tag_items(*old(t)).filter(|e: ItemEntry| e.key != k).push(
                ItemEntry { key: k, value: ValueModel::Text(text@) },
            )
        } else {
            tag_items(*old(t))
        },
        same_pictures(*final(t), *old(t)),
{
    t.insert_text(k, text)
}

/// Relies on `TagItem::new` and `Tag::push`: where the format stores key `k`, appends an
/// item holding `text`; elsewhere changes nothing.
#[verifier::external_body]
pub(crate) fn push_text(t: &mut Tag, k: ItemKey, text: String) -> (r: bool)
    ensures
        r == tag_keys(*old(t)).contains(k),
        tag_items(*final(t)) == if r {
            tag_items(*old(t)).push(ItemEntry { key: k, value: ValueModel::Text(text@) })
        } else {
            tag_items(*old(t))
        },
        same_pictures(*final(t), *old(t)),
{
    t.push(TagItem::new(k, ItemValue::Text(text)))
}

/// Relies on `Tag::get_items`: the values of the items with key `k`, in order.
#[verifier::external_body]
pub(crate) fn item_values(t: &Tag, k: &ItemKey) -> (r: Vec<ItemValue>)
    ensures
        r@.map_values(|v: ItemValue| value_model(v)) == tag_items(*t).filter(
            |e: ItemEntry| e.key == *k,
        ).map_values(|e: ItemEntry| e.value),
{
    t.get_items(k).map(|i| i.value().clone()).collect()
}

/// Relies on `Accessor::title` of `Tag`.
#[verifier::external_body]
pub(crate) fn title_of(t: &Tag) -> (r: Option<String>)
    ensures
        opt_text(r) == first_text(tag_items(*t), ItemKey::TrackTitle),
{
    t.title().map(|s| s.to_string())
}

/// Relies on `Accessor::artist` of `Tag`.
#[verifier::external_body]
pub(crate) fn artist_of(t: &Tag) -> (r: Option<String>)
    ensures
        opt_text(r) == first_text(tag_items(*t), ItemKey::TrackArtist),
{
    t.artist().map(|s| s.to_string())
}

/// Relies on `Accessor::album` of `Tag`.
#[verifier::external_body]
pub(crate) fn album_of(t: &Tag) -> (r: Option<String>)
    ensures
        opt_text(r) == first_text(tag_items(*t), ItemKey::AlbumTitle),
{
    t.album().map(|s| s.to_string())
}

/// Relies on `Accessor::genre` of `Tag`.
#[verifier::external_body]
pub(crate) fn genre_of(t: &Tag) -> (r: Option<String>)
    ensures
        opt_text(r) == first_text(tag_items(*t), ItemKey::Genre),
{
    t.genre().map(|s| s.to_string())
}

/// Relies on `Accessor::comment` of `Tag`.
#[verifier::external_body]
pub(crate) fn comment_of(t: &Tag) -> (r: Option<String>)
    ensures
        opt_text(r) == first_text(tag_items(*t), ItemKey::Comment),
{
    t.comment().map(|s| s.to_string())
}

/// Relies on `Accessor::year` of `Tag`.
#[verifier::external_body]
pub(crate) fn year_value(t: &Tag) -> (r: Option<u32>)
    ensures
        r == year_of(tag_items(*t)),
{
    t.year()
}

/// Relies on `Accessor::track` of `Tag`.
#[verifier::external_body]
pub(crate) fn track_no(t: &Tag) -> (r: Option<u32>)
    ensures
        r == first_number(tag_items(*t), ItemKey::TrackNumber),
{
    t.track()
}

/// Relies on `Accessor::track_total` of `Tag`.
#[verifier::external_body]
pub(crate) fn track_of(t: &Tag) -> (r: Option<u32>)
    ensures
        r == first_number(tag_items(*t), ItemKey::TrackTotal),
{
    t.track_total()
}

/// Relies on `Accessor::disk` of `Tag`.
#[verifier::external_body]
pub(crate) fn disc_no(t: &Tag) -> (r: Option<u32>)
    ensures
        r == first_number(tag_items(*t), ItemKey::DiscNumber),
{
    t.disk()
}

/// Relies on `Accessor::disk_total` of `Tag`.
#[verifier::external_body]
pub(crate) fn disc_of(t: &Tag) -> (r: Option<u32>)
    ensures
        r == first_number(tag_items(*t), ItemKey::DiscTotal),
{
    t.disk_total()
}

/// Relies on `MimeType::from_str`: the known image types, matched without regard to case,
/// and any other string kept as it is.
#[verifier::external_body]
pub(crate) fn mime_from_str(s: &str) -> (r: MimeType)
    ensures
        r == mime_from_text(s@),
        s@ == mime_text(MimeType::Jpeg) ==> r == MimeType::Jpeg,
        s@ == mime_text(MimeType::Png) ==> r == MimeType::Png,
        s@ == mime_text(MimeType::Tiff) ==> r == MimeType::Tiff,
        s@ == mime_text(MimeType::Bmp) ==> r == MimeType::Bmp,
        s@ == mime_text(MimeType::Gif) ==> r == MimeType::Gif,
{
    MimeType::from_str(s)
}

/// Relies on `MimeType`'s `Display`.
#[verifier::external_body]
pub(crate) fn mime_to_string(m: &MimeType) -> (r: String)
    ensures
        r@ == mime_text(*m),
{
    m.to_string()
}

/// Relies on `infer::get`: the MIME type of the content kind it recognises in `data`.
#[verifier::external_body]
pub(crate) fn sniff_mime(data: &Vec<u8>) -> (r: Option<String>)
    ensures
        opt_text(r) == sniffed_mime(data@),
{
    infer::get(data).map(|kind| kind.mime_type().to_string())
}

} // verus!
