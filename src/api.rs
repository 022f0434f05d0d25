use vstd::prelude::*;
use crate::model::{AudioImageType, Position};

verus! {

/// A position as the host binding exchanges it.
#[derive(Debug, PartialEq, Clone)]
pub struct ApiPosition {
    pub no: Option<u32>,
    pub of: Option<u32>,
}

impl ApiPosition {
    pub fn from_position(position: Position) -> (r: Self)
        ensures
            r.no == position.no,
            r.of == position.of,
    {
        Self { no: position.no, of: position.of }
    }

    pub fn into_position(self) -> (r: Position)
        ensures
            r.no == self.no,
            r.of == self.of,
    {
        Position { no: self.no, of: self.of }
    }
}

/// A picture role as the host binding exchanges it: one case for each case of
/// `AudioImageType`.
#[derive(Debug, PartialEq, Eq, Clone, Copy, Structural)]
pub enum ApiAudioImageType {
    Icon,
    OtherIcon,
    CoverFront,
    CoverBack,
    Leaflet,
    Media,
    LeadArtist,
    Artist,
    Conductor,
    Band,
    Composer,
    Lyricist,
    RecordingLocation,
    DuringRecording,
    DuringPerformance,
    ScreenCapture,
    BrightFish,
    Illustration,
    BandLogo,
    PublisherLogo,
    Other,
}

impl ApiAudioImageType {
    /// The binding case of the same name.
    pub open spec fn spec_from(t: AudioImageType) -> ApiAudioImageType {
        match t {
            AudioImageType::Icon => ApiAudioImageType::Icon,
            AudioImageType::OtherIcon => ApiAudioImageType::OtherIcon,
            AudioImageType::CoverFront => ApiAudioImageType::CoverFront,
            AudioImageType::CoverBack => ApiAudioImageType::CoverBack,
            AudioImageType::Leaflet => ApiAudioImageType::Leaflet,
            AudioImageType::Media => ApiAudioImageType::Media,
            AudioImageType::LeadArtist => ApiAudioImageType::LeadArtist,
            AudioImageType::Artist => ApiAudioImageType::Artist,
            AudioImageType::Conductor => ApiAudioImageType::Conductor,
            AudioImageType::Band => ApiAudioImageType::Band,
            AudioImageType::Composer => ApiAudioImageType::Composer,
            AudioImageType::Lyricist => ApiAudioImageType::Lyricist,
            AudioImageType::RecordingLocation => ApiAudioImageType::RecordingLocation,
            AudioImageType::DuringRecording => ApiAudioImageType::DuringRecording,
            AudioImageType::DuringPerformance => ApiAudioImageType::DuringPerformance,
            AudioImageType::ScreenCapture => ApiAudioImageType::ScreenCapture,
            AudioImageType::BrightFish => ApiAudioImageType::BrightFish,
            AudioImageType::Illustration => ApiAudioImageType::Illustration,
            AudioImageType::BandLogo => ApiAudioImageType::BandLogo,
            AudioImageType::PublisherLogo => ApiAudioImageType::PublisherLogo,
            AudioImageType::Other => ApiAudioImageType::Other,
        }
    }

    /// The model case of the same name.
    pub open spec fn spec_into(self) -> AudioImageType {
        match self {
            ApiAudioImageType::Icon => AudioImageType::Icon,
            ApiAudioImageType::OtherIcon => AudioImageType::OtherIcon,
            ApiAudioImageType::CoverFront => AudioImageType::CoverFront,
            ApiAudioImageType::CoverBack => AudioImageType::CoverBack,
            ApiAudioImageType::Leaflet => AudioImageType::Leaflet,
            ApiAudioImageType::Media => AudioImageType::Media,
            ApiAudioImageType::LeadArtist => AudioImageType::LeadArtist,
            ApiAudioImageType::Artist => AudioImageType::Artist,
            ApiAudioImageType::Conductor => AudioImageType::Conductor,
            ApiAudioImageType::Band => AudioImageType::Band,
            ApiAudioImageType::Composer => AudioImageType::Composer,
            ApiAudioImageType::Lyricist => AudioImageType::Lyricist,
            ApiAudioImageType::RecordingLocation => AudioImageType::RecordingLocation,
            ApiAudioImageType::DuringRecording => AudioImageType::DuringRecording,
            ApiAudioImageType::DuringPerformance => AudioImageType::DuringPerformance,
            ApiAudioImageType::ScreenCapture => AudioImageType::ScreenCapture,
            ApiAudioImageType::BrightFish => AudioImageType::BrightFish,
            ApiAudioImageType::Illustration => AudioImageType::Illustration,
            ApiAudioImageType::BandLogo => AudioImageType::BandLogo,
            ApiAudioImageType::PublisherLogo => AudioImageType::PublisherLogo,
            ApiAudioImageType::Other => AudioImageType::Other,
        }
    }

    pub fn from_audio_image_type(audio_image_type: AudioImageType) -> (r: Self)
        ensures
            r == Self::spec_from(audio_image_type),
    {
        match audio_image_type {
            AudioImageType::Icon => Self::Icon,
            AudioImageType::OtherIcon => Self::OtherIcon,
            AudioImageType::CoverFront => Self::CoverFront,
            AudioImageType::CoverBack => Self::CoverBack,
            AudioImageType::Leaflet => Self::Leaflet,
            AudioImageType::Media => Self::Media,
            AudioImageType::LeadArtist => Self::LeadArtist,
            AudioImageType::Artist => Self::Artist,
            AudioImageType::Conductor => Self::Conductor,
            AudioImageType::Band => Self::Band,
            AudioImageType::Composer => Self::Composer,
            AudioImageType::Lyricist => Self::Lyricist,
            AudioImageType::RecordingLocation => Self::RecordingLocation,
            AudioImageType::DuringRecording => Self::DuringRecording,
            AudioImageType::DuringPerformance => Self::DuringPerformance,
            AudioImageType::ScreenCapture => Self::ScreenCapture,
            AudioImageType::BrightFish => Self::BrightFish,
            AudioImageType::Illustration => Self::Illustration,
            AudioImageType::BandLogo => Self::BandLogo,
            AudioImageType::PublisherLogo => Self::PublisherLogo,
            AudioImageType::Other => Self::Other,
        }
    }

    pub fn into_audio_image_type(self) -> (r: AudioImageType)
        ensures
            r == self.spec_into(),
    {
        match self {
            Self::Icon => AudioImageType::Icon,
            Self::OtherIcon => AudioImageType::OtherIcon,
            Self::CoverFront => AudioImageType::CoverFront,
            Self::CoverBack => AudioImageType::CoverBack,
            Self::Leaflet => AudioImageType::Leaflet,
            Self::Media => AudioImageType::Media,
            Self::LeadArtist => AudioImageType::LeadArtist,
            Self::Artist => AudioImageType::Artist,
            Self::Conductor => AudioImageType::Conductor,
            Self::Band => AudioImageType::Band,
            Self::Composer => AudioImageType::Composer,
            Self::Lyricist => AudioImageType::Lyricist,
            Self::RecordingLocation => AudioImageType::RecordingLocation,
            Self::DuringRecording => AudioImageType::DuringRecording,
            Self::DuringPerformance => AudioImageType::DuringPerformance,
            Self::ScreenCapture => AudioImageType::ScreenCapture,
            Self::BrightFish => AudioImageType::BrightFish,
            Self::Illustration => AudioImageType::Illustration,
            Self::BandLogo => AudioImageType::BandLogo,
            Self::PublisherLogo => AudioImageType::PublisherLogo,
            Self::Other => AudioImageType::Other,
        }
    }
}

} // verus!
