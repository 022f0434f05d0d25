use vstd::prelude::*;
use lofty::picture::PictureType;

verus! {

/// An ordinal pair such as track number / track count.
#[derive(Debug, PartialEq, Clone)]
pub struct Position {
    pub no: Option<u32>,
    pub of: Option<u32>,
}

/// The role an embedded picture plays.
#[derive(Debug, PartialEq, Eq, Clone, Copy, Structural)]
pub enum AudioImageType {
    Icon,
    OtherIcon,
    CoverFront,
    CoverBack,
    Leaflet,
    Media,
    LeadArtist,
    Artist,
    Conductor,
    Band,
    Composer,
    Lyricist,
    RecordingLocation,
    DuringRecording,
    DuringPerformance,
    ScreenCapture,
    BrightFish,
    Illustration,
    BandLogo,
    PublisherLogo,
    Other,
}

/// An embedded picture: its bytes, role, advisory MIME type and description.
#[derive(Debug, PartialEq, Clone)]
pub struct Image {
    pub data: Vec<u8>,
    pub pic_type: AudioImageType,
    pub mime_type: Option<String>,
    pub description: Option<String>,
}

/// The uniform, format-agnostic metadata of an audio file.
#[derive(Debug, PartialEq, Clone, Default)]
pub struct AudioTags {
    pub title: Option<String>,
    pub artists: Option<Vec<String>>,
    pub album: Option<String>,
    pub year: Option<u32>,
    pub genre: Option<String>,
    pub track: Option<Position>,
    pub album_artists: Option<Vec<String>>,
    pub comment: Option<String>,
    pub disc: Option<Position>,
    pub image: Option<Image>,
    pub all_images: Option<Vec<Image>>,
}

pub open spec fn opt_text(o: Option<String>) -> Option<Seq<char>> {
    match o {
        Some(s) => Some(s@),
        None => None,
    }
}

pub open spec fn texts(v: Seq<String>) -> Seq<Seq<char>> {
    v.map_values(|s: String| s@)
}

pub open spec fn opt_texts(o: Option<Vec<String>>) -> Option<Seq<Seq<char>>> {
    match o {
        Some(v) => Some(texts(v@)),
        None => None,
    }
}

/// What an `Image` holds, with its strings as character sequences.
pub ghost struct ImageView {
    pub data: Seq<u8>,
    pub pic_type: AudioImageType,
    pub mime_type: Option<Seq<char>>,
    pub description: Option<Seq<char>>,
}

impl View for Image {
    type V = ImageView;

    open spec fn view(&self) -> ImageView {
        ImageView {
            data: self.data@,
            pic_type: self.pic_type,
            mime_type: opt_text(self.mime_type),
            description: opt_text(self.description),
        }
    }
}

pub open spec fn images(v: Seq<Image>) -> Seq<ImageView> {
    v.map_values(|i: Image| i@)
}

pub open spec fn opt_image(o: Option<Image>) -> Option<ImageView> {
    match o {
        Some(i) => Some(i@),
        None => None,
    }
}

pub open spec fn opt_images(o: Option<Vec<Image>>) -> Option<Seq<ImageView>> {
    match o {
        Some(v) => Some(images(v@)),
        None => None,
    }
}

/// What an `AudioTags` holds, with its strings as character sequences.
pub ghost struct AudioTagsView {
    pub title: Option<Seq<char>>,
    pub artists: Option<Seq<Seq<char>>>,
    pub album: Option<Seq<char>>,
    pub year: Option<u32>,
    pub genre: Option<Seq<char>>,
    pub track: Option<Position>,
    pub album_artists: Option<Seq<Seq<char>>>,
    pub comment: Option<Seq<char>>,
    pub disc: Option<Position>,
    pub image: Option<ImageView>,
    pub all_images: Option<Seq<ImageView>>,
}

impl View for AudioTags {
    type V = AudioTagsView;

    open spec fn view(&self) -> AudioTagsView {
        AudioTagsView {
            title: opt_text(self.title),
            artists: opt_texts(self.artists),
            album: opt_text(self.album),
            year: self.year,
            genre: opt_text(self.genre),
            track: self.track,
            album_artists: opt_texts(self.album_artists),
            comment: opt_text(self.comment),
            disc: self.disc,
            image: opt_image(self.image),
            all_images: opt_images(self.all_images),
        }
    }
}

impl AudioTagsView {
    /// The view of `AudioTags::default()`: every field absent.
    pub open spec fn absent() -> AudioTagsView {
        AudioTagsView {
            title: None,
            artists: None,
            album: None,
            year: None,
            genre: None,
            track: None,
            album_artists: None,
            comment: None,
            disc: None,
            image: None,
            all_images: None,
        }
    }
}

pub fn copy_opt_text(o: &Option<String>) -> (r: Option<String>)
    ensures
        opt_text(r) == opt_text(*o),
{
    match o {
        Some(s) => Some(s.clone()),
        None => None,
    }
}

impl Image {
    /// A copy of the image that holds the same bytes and strings.
    pub fn duplicate(&self) -> (r: Image)
        ensures
            r@ == self@,
    {
        Image {
            data: self.data.clone(),
            pic_type: self.pic_type,
            mime_type: copy_opt_text(&self.mime_type),
            description: copy_opt_text(&self.description),
        }
    }
}

impl AudioImageType {
    /// The external picture role of each case; `Other` maps to the external catch-all.
    pub open spec fn spec_picture_type(self) -> PictureType {
        match self {
            AudioImageType::Icon => PictureType::Icon,
            AudioImageType::OtherIcon => PictureType::OtherIcon,
            AudioImageType::CoverFront => PictureType::CoverFront,
            AudioImageType::CoverBack => PictureType::CoverBack,
            AudioImageType::Leaflet => PictureType::Leaflet,
            AudioImageType::Media => PictureType::Media,
            AudioImageType::LeadArtist => PictureType::LeadArtist,
            AudioImageType::Artist => PictureType::Artist,
            AudioImageType::Conductor => PictureType::Conductor,
            AudioImageType::Band => PictureType::Band,
            AudioImageType::Composer => PictureType::Composer,
            AudioImageType::Lyricist => PictureType::Lyricist,
            AudioImageType::RecordingLocation => PictureType::RecordingLocation,
            AudioImageType::DuringRecording => PictureType::DuringRecording,
            AudioImageType::DuringPerformance => PictureType::DuringPerformance,
            AudioImageType::ScreenCapture => PictureType::ScreenCapture,
            AudioImageType::BrightFish => PictureType::BrightFish,
            AudioImageType::Illustration => PictureType::Illustration,
            AudioImageType::BandLogo => PictureType::BandLogo,
            AudioImageType::PublisherLogo => PictureType::PublisherLogo,
            AudioImageType::Other => PictureType::Other,
        }
    }

    /// The case for an external role: every role without a case of its own is `Other`.
    pub open spec fn spec_from_picture_type(p: PictureType) -> AudioImageType {
        match p {
            PictureType::Icon => AudioImageType::Icon,
            PictureType::OtherIcon => AudioImageType::OtherIcon,
            PictureType::CoverFront => AudioImageType::CoverFront,
            PictureType::CoverBack => AudioImageType::CoverBack,
            PictureType::Leaflet => AudioImageType::Leaflet,
            PictureType::Media => AudioImageType::Media,
            PictureType::LeadArtist => AudioImageType::LeadArtist,
            PictureType::Artist => AudioImageType::Artist,
            PictureType::Conductor => AudioImageType::Conductor,
            PictureType::Band => AudioImageType::Band,
            PictureType::Composer => AudioImageType::Composer,
            PictureType::Lyricist => AudioImageType::Lyricist,
            PictureType::RecordingLocation => AudioImageType::RecordingLocation,
            PictureType::DuringRecording => AudioImageType::DuringRecording,
            PictureType::DuringPerformance => AudioImageType::DuringPerformance,
            PictureType::ScreenCapture => AudioImageType::ScreenCapture,
            PictureType::BrightFish => AudioImageType::BrightFish,
            PictureType::Illustration => AudioImageType::Illustration,
            PictureType::BandLogo => AudioImageType::BandLogo,
            PictureType::PublisherLogo => AudioImageType::PublisherLogo,
            _ => AudioImageType::Other,
        }
    }

    pub fn from_picture_type(picture_type: &PictureType) -> (r: Self)
        ensures
            r == Self::spec_from_picture_type(*picture_type),
    {
        match picture_type {
            PictureType::Icon => Self::Icon,
            PictureType::OtherIcon => Self::OtherIcon,
            PictureType::CoverFront => Self::CoverFront,
            PictureType::CoverBack => Self::CoverBack,
            PictureType::Leaflet => Self::Leaflet,
            PictureType::Media => Self::Media,
            PictureType::LeadArtist => Self::LeadArtist,
            PictureType::Artist => Self::Artist,
            PictureType::Conductor => Self::Conductor,
            PictureType::Band => Self::Band,
            PictureType::Composer => Self::Composer,
            PictureType::Lyricist => Self::Lyricist,
            PictureType::RecordingLocation => Self::RecordingLocation,
            PictureType::DuringRecording => Self::DuringRecording,
            PictureType::DuringPerformance => Self::DuringPerformance,
            PictureType::ScreenCapture => Self::ScreenCapture,
            PictureType::BrightFish => Self::BrightFish,
            PictureType::Illustration => Self::Illustration,
            PictureType::BandLogo => Self::BandLogo,
            PictureType::PublisherLogo => Self::PublisherLogo,
            _ => Self::Other,
        }
    }

    pub fn build_picture_type(&self) -> (r: PictureType)
        ensures
            r == self.spec_picture_type(),
    {
        match self {
            AudioImageType::Icon => PictureType::Icon,
            AudioImageType::OtherIcon => PictureType::OtherIcon,
            AudioImageType::CoverFront => PictureType::CoverFront,
            AudioImageType::CoverBack => PictureType::CoverBack,
            AudioImageType::Leaflet => PictureType::Leaflet,
            AudioImageType::Media => PictureType::Media,
            AudioImageType::LeadArtist => PictureType::LeadArtist,
            AudioImageType::Artist => PictureType::Artist,
            AudioImageType::Conductor => PictureType::Conductor,
            AudioImageType::Band => PictureType::Band,
            AudioImageType::Composer => PictureType::Composer,
            AudioImageType::Lyricist => PictureType::Lyricist,
            AudioImageType::RecordingLocation => PictureType::RecordingLocation,
            AudioImageType::DuringRecording => PictureType::DuringRecording,
            AudioImageType::DuringPerformance => PictureType::DuringPerformance,
            AudioImageType::ScreenCapture => PictureType::ScreenCapture,
            AudioImageType::BrightFish => PictureType::BrightFish,
            AudioImageType::Illustration => PictureType::Illustration,
            AudioImageType::BandLogo => PictureType::BandLogo,
            AudioImageType::PublisherLogo => PictureType::PublisherLogo,
            AudioImageType::Other => PictureType::Other,
        }
    }

    pub fn is_cover_front(&self) -> (r: bool)
        ensures
            r == (*self == AudioImageType::CoverFront),
    {
        match self {
            AudioImageType::CoverFront => true,
            _ => false,
        }
    }
}

} // verus!
