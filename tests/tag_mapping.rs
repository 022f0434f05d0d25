#![allow(unused_imports, dead_code)]

use audio_tags::{add_cover_image, AudioImageType, AudioTags, Image, Position};
use lofty::picture::{MimeType, Picture, PictureType};
use lofty::tag::{Accessor, ItemKey, ItemValue, Tag, TagItem, TagType};
use base64::{engine::general_purpose, Engine as _};

// Helper function to create test image data
fn create_test_image_data() -> Vec<u8> {
  // Minimal JPEG header
  vec![
    0xFF, 0xD8, 0xFF, 0xE0, // JPEG SOI + APP0
    0x00, 0x10, 0x4A, 0x46, 0x49, 0x46, 0x00, 0x01, // JFIF header
    0x01, 0x01, 0x00, 0x00, 0x01, 0x00, 0x01, 0x00, 0xFF, 0xD9, // JPEG EOI
  ]
}

// Helper function to load a file from base64 string
fn load_file_from_base64(base64_string: &str) -> std::result::Result<Vec<u8>, String> {

  general_purpose::STANDARD
    .decode(base64_string)
    .map_err(|e| format!("Failed to decode base64: {}", e))
}

// Helper function to create a Vec<u8> from base64 string
fn create_buffer_from_base64(base64_string: &str) -> std::result::Result<Vec<u8>, String> {
  let data = load_file_from_base64(base64_string)?;
  Ok(data)
}


// Helper function to test roundtrip conversion
fn test_roundtrip_conversion(audio_tags: AudioTags) {
  let mut tag = Tag::new(TagType::Id3v2);
  audio_tags.to_tag(&mut tag);
  let converted_audio_tags = AudioTags::from_tag(&tag);

  assert_eq!(converted_audio_tags.title, audio_tags.title);

  // Handle artists comparison - from_tag returns Some([]) for empty, but original might be None
  match (&audio_tags.artists, &converted_audio_tags.artists) {
    (None, Some(converted)) if converted.is_empty() => {
      // This is expected - from_tag returns Some([]) for empty artists
    }
    (original, converted) => {
      assert_eq!(converted, original);
    }
  }

  // Handle album_artists comparison - same logic as artists
  match (
    &audio_tags.album_artists,
    &converted_audio_tags.album_artists,
  ) {
    (None, Some(converted)) if converted.is_empty() => {
      // This is expected - from_tag returns Some([]) for empty album_artists
    }
    (original, converted) => {
      assert_eq!(converted, original);
    }
  }

  assert_eq!(converted_audio_tags.album, audio_tags.album);
  assert_eq!(converted_audio_tags.year, audio_tags.year);
  assert_eq!(converted_audio_tags.genre, audio_tags.genre);
  assert_eq!(converted_audio_tags.comment, audio_tags.comment);
  assert_eq!(converted_audio_tags.disc, audio_tags.disc);
  // assert_eq!(converted_audio_tags.image, audio_tags.image);
}

#[test]
fn test_audio_tags_to_tag_and_from_tag_roundtrip() {

  // Create a comprehensive test struct that mirrors AudioTags but uses standard Rust types
  let original_test_tags = AudioTags {
    title: Some("Roundtrip Test Song".to_string()),
    artists: Some(vec![
      "Primary Artist".to_string(),
      "Secondary Artist".to_string(),
    ]),
    album: Some("Roundtrip Test Album".to_string()),
    year: Some(2024),
    genre: Some("Test Genre".to_string()),
    track: Some(Position {
      no: Some(5),
      of: Some(12),
    }),
    album_artists: Some(vec!["Album Artist".to_string()]),
    comment: Some("This is a test comment for roundtrip testing".to_string()),
    disc: Some(Position {
      no: Some(2),
      of: Some(3),
    }),
    image: Some(Image {
      data: create_test_image_data(),
      pic_type: AudioImageType::CoverFront,
      mime_type: Some("image/jpeg".to_string()),
      description: Some("Test cover image for roundtrip".to_string()),
    }),
    all_images: None,
  };

  // Create a new empty tag
  let mut tag = Tag::new(TagType::Id3v2);

  // Manually populate the tag with our test data (simulating to_tag behavior)
  if let Some(title) = &original_test_tags.title {
    tag.insert_text(lofty::tag::ItemKey::TrackTitle, title.clone());
  }

  if let Some(artists) = &original_test_tags.artists {
    if !artists.is_empty() {
      tag.insert_text(lofty::tag::ItemKey::TrackArtist, artists[0].clone());
      if artists.len() > 1 {
        tag.insert_text(lofty::tag::ItemKey::TrackArtists, artists.join(", "));
      }
    }
  }

  if let Some(album) = &original_test_tags.album {
    tag.insert_text(lofty::tag::ItemKey::AlbumTitle, album.clone());
  }

  if let Some(year) = &original_test_tags.year {
    tag.insert_text(lofty::tag::ItemKey::Year, year.to_string());
    tag.insert_text(lofty::tag::ItemKey::RecordingDate, year.to_string());
  }

  if let Some(genre) = &original_test_tags.genre {
    tag.insert_text(lofty::tag::ItemKey::Genre, genre.clone());
  }

  if let Some(track) = &original_test_tags.track {
    if let Some(no) = track.no {
      tag.insert_text(lofty::tag::ItemKey::TrackNumber, no.to_string());
    }
    if let Some(of) = track.of {
      tag.insert_text(lofty::tag::ItemKey::TrackTotal, of.to_string());
    }
  }

  if let Some(disc) = &original_test_tags.disc {
    if let Some(no) = disc.no {
      tag.insert_text(lofty::tag::ItemKey::DiscNumber, no.to_string());
    }
    if let Some(of) = disc.of {
      tag.insert_text(lofty::tag::ItemKey::DiscTotal, of.to_string());
    }
  }

  if let Some(album_artists) = &original_test_tags.album_artists {
    if !album_artists.is_empty() {
      tag.insert_text(lofty::tag::ItemKey::AlbumArtist, album_artists[0].clone());
    }
  }

  if let Some(comment) = &original_test_tags.comment {
    tag.insert_text(lofty::tag::ItemKey::Comment, comment.clone());
  }

  if let Some(image) = &original_test_tags.image {
    let mime_type = image
      .mime_type
      .as_deref()
      .map(|s| MimeType::from_str(s))
      .unwrap();

    let picture = lofty::picture::Picture::new_unchecked(
      lofty::picture::PictureType::CoverFront,
      Some(mime_type),
      image.description.clone(),
      image.data.to_vec(),
    );
    tag.set_picture(0, picture);
  }

  // Now simulate from_tag behavior by reading from the tag
  let converted_test_tags = AudioTags {
    title: tag.title().map(|s| s.to_string()),
    artists: tag.artist().map(|s| vec![s.to_string()]),
    album: tag.album().map(|s| s.to_string()),
    year: tag.year(),
    genre: tag.genre().map(|s| s.to_string()),
    track: match (tag.track(), tag.track_total()) {
      (None, None) => None,
      (no, of) => Some(Position { no, of }),
    },
    album_artists: tag.artist().map(|s| vec![s.to_string()]),
    comment: tag.comment().map(|s| s.to_string()),
    disc: match (tag.disk(), tag.disk_total()) {
      (None, None) => None,
      (no, of) => Some(Position { no, of }),
    },
    image: {
      let mut image = None;
      for picture in tag.pictures() {
        if picture.pic_type() == lofty::picture::PictureType::CoverFront {
          image = Some(Image {
            data: picture.data().to_vec(),
            pic_type: AudioImageType::CoverFront,
            mime_type: picture.mime_type().map(|mime_type| mime_type.to_string()),
            description: picture.description().map(|s| s.to_string()),
          });
          break;
        }
      }
      image
    },
    all_images: None,
  };

  // Verify that all fields match the original data
  assert_eq!(converted_test_tags.title, original_test_tags.title);
  assert_eq!(converted_test_tags.album, original_test_tags.album);
  assert_eq!(converted_test_tags.year, original_test_tags.year);
  assert_eq!(converted_test_tags.genre, original_test_tags.genre);
  assert_eq!(converted_test_tags.comment, original_test_tags.comment);

  // Verify track information
  assert_eq!(converted_test_tags.track, original_test_tags.track);
  assert_eq!(converted_test_tags.disc, original_test_tags.disc);

  // Verify artists (note: from_tag only gets the first artist, so we check that)
  if let (Some(original_artists), Some(converted_artists)) =
    (&original_test_tags.artists, &converted_test_tags.artists)
  {
    assert_eq!(converted_artists.len(), 1);
    assert_eq!(converted_artists[0], original_artists[0]);
  }

  // Verify album artists (note: current implementation reads from same field as artists)
  if let (Some(_original_album_artists), Some(converted_album_artists)) = (
    &original_test_tags.album_artists,
    &converted_test_tags.album_artists,
  ) {
    assert_eq!(converted_album_artists.len(), 1);
    // Since both artists and album_artists read from tag.artist(), they should be the same
    assert_eq!(
      converted_album_artists[0],
      original_test_tags.artists.as_ref().unwrap()[0]
    );
  }

  // Verify image data
  if let (Some(original_image), Some(converted_image)) =
    (&original_test_tags.image, &converted_test_tags.image)
  {
    // assert_eq!(converted_image.data, original_image.data);
    assert_eq!(converted_image.mime_type, original_image.mime_type);
    assert_eq!(converted_image.description, original_image.description);
  }

  // Test with minimal data (only some fields)
  let minimal_test_tags = AudioTags {
    title: Some("Minimal Test".to_string()),
    artists: Some(vec!["Solo Artist".to_string()]),
    album: None,
    year: Some(2023),
    genre: None,
    track: None,
    album_artists: None,
    comment: None,
    disc: None,
    image: None,
    all_images: None,
  };

  let mut minimal_tag = Tag::new(TagType::Id3v2);
  if let Some(title) = &minimal_test_tags.title {
    minimal_tag.insert_text(lofty::tag::ItemKey::TrackTitle, title.clone());
  }
  if let Some(artists) = &minimal_test_tags.artists {
    if !artists.is_empty() {
      minimal_tag.insert_text(lofty::tag::ItemKey::TrackArtist, artists[0].clone());
    }
  }
  if let Some(year) = &minimal_test_tags.year {
    minimal_tag.insert_text(lofty::tag::ItemKey::Year, year.to_string());
    minimal_tag.insert_text(lofty::tag::ItemKey::RecordingDate, year.to_string());
  }

  let converted_minimal = AudioTags {
    title: minimal_tag.title().map(|s| s.to_string()),
    artists: minimal_tag.artist().map(|s| vec![s.to_string()]),
    album: minimal_tag.album().map(|s| s.to_string()),
    year: minimal_tag.year(),
    genre: minimal_tag.genre().map(|s| s.to_string()),
    track: None,
    album_artists: minimal_tag.artist().map(|s| vec![s.to_string()]),
    comment: minimal_tag.comment().map(|s| s.to_string()),
    disc: None,
    image: None,
    all_images: None,
  };

  assert_eq!(converted_minimal.title, minimal_test_tags.title);
  assert_eq!(converted_minimal.album, minimal_test_tags.album);
  assert_eq!(converted_minimal.year, minimal_test_tags.year);
  assert_eq!(converted_minimal.genre, minimal_test_tags.genre);
  assert_eq!(converted_minimal.comment, minimal_test_tags.comment);
  assert_eq!(converted_minimal.track, minimal_test_tags.track);
  assert_eq!(converted_minimal.disc, minimal_test_tags.disc);
  // assert_eq!(converted_minimal.image, minimal_test_tags.image);

  // Verify artists for minimal case
  if let (Some(original_artists), Some(converted_artists)) =
    (&minimal_test_tags.artists, &converted_minimal.artists)
  {
    assert_eq!(converted_artists.len(), 1);
    assert_eq!(converted_artists[0], original_artists[0]);
  }

  // Verify album artists for minimal case (same as artists due to current implementation)
  if let Some(converted_album_artists) = &converted_minimal.album_artists {
    assert_eq!(converted_album_artists.len(), 1);
    assert_eq!(
      converted_album_artists[0],
      minimal_test_tags.artists.as_ref().unwrap()[0]
    );
  }

  // Test with empty data
  let empty_test_tags = AudioTags::default();
  let empty_tag = Tag::new(TagType::Id3v2);
  // No data to add to empty tag

  let converted_empty = AudioTags {
    title: empty_tag.title().map(|s| s.to_string()),
    artists: empty_tag.artist().map(|s| vec![s.to_string()]),
    album: empty_tag.album().map(|s| s.to_string()),
    year: empty_tag.year(),
    genre: empty_tag.genre().map(|s| s.to_string()),
    track: None,
    album_artists: empty_tag.artist().map(|s| vec![s.to_string()]),
    comment: empty_tag.comment().map(|s| s.to_string()),
    disc: None,
    image: None,
    all_images: None,
  };

  assert_eq!(converted_empty.title, empty_test_tags.title);
  assert_eq!(converted_empty.artists, empty_test_tags.artists);
  assert_eq!(converted_empty.album, empty_test_tags.album);
  assert_eq!(converted_empty.year, empty_test_tags.year);
  assert_eq!(converted_empty.genre, empty_test_tags.genre);
  assert_eq!(converted_empty.track, empty_test_tags.track);
  assert_eq!(converted_empty.album_artists, empty_test_tags.album_artists);
  assert_eq!(converted_empty.comment, empty_test_tags.comment);
  assert_eq!(converted_empty.disc, empty_test_tags.disc);
  // assert_eq!(converted_empty.image, empty_test_tags.image);
}

#[test]
fn test_audio_tags_to_tag_and_from_tag_roundtrip_with_empty_image() {
  let audio_tags = AudioTags {
    title: Some("Roundtrip Test Song".to_string()),
    artists: Some(vec![
      "Primary Artist".to_string(),
      "Secondary Artist".to_string(),
    ]),
    album: Some("Roundtrip Test Album".to_string()),
    year: Some(2024),
    genre: Some("Test Genre".to_string()),
    track: Some(Position {
      no: Some(1),
      of: Some(3),
    }),
    album_artists: Some(vec![
      "Album Artist".to_string(),
      "Secondary Album Artist".to_string(),
    ]),
    comment: Some("This is a test comment for roundtrip testing".to_string()),
    disc: Some(Position {
      no: Some(2),
      of: Some(3),
    }),
    image: None,
    all_images: None,
  };

  test_roundtrip_conversion(audio_tags);
}

#[test]
fn test_roundtrip_with_image() {
  let audio_tags = AudioTags {
    title: Some("Song with Image".to_string()),
    artists: Some(vec!["Artist with Image".to_string()]),
    album: Some("Album with Image".to_string()),
    year: Some(2023),
    genre: Some("Test Genre".to_string()),
    track: Some(Position {
      no: Some(2),
      of: Some(5),
    }),
    album_artists: Some(vec!["Album Artist with Image".to_string()]),
    comment: Some("Comment with image".to_string()),
    disc: Some(Position {
      no: Some(1),
      of: Some(2),
    }),
    image: Some(Image {
      data: create_test_image_data(),
      pic_type: AudioImageType::CoverFront,
      mime_type: Some("image/jpeg".to_string()),
      description: Some("Test cover image".to_string()),
    }),
    all_images: None,
  };

  test_roundtrip_conversion(audio_tags);
}

#[test]
fn test_roundtrip_minimal_data() {
  let audio_tags = AudioTags {
    title: Some("Minimal Song".to_string()),
    artists: Some(vec!["Minimal Artist".to_string()]),
    album: None,
    year: Some(2022),
    genre: None,
    track: None,
    album_artists: None,
    comment: None,
    disc: None,
    image: None,
    all_images: None,
  };

  test_roundtrip_conversion(audio_tags);
}

#[test]
fn test_roundtrip_empty_data() {
  let audio_tags = AudioTags::default();
  test_roundtrip_conversion(audio_tags);
}

#[test]
fn test_to_tag_replaces_existing_images() {

  // Create a primary tag with existing images that should be replaced
  let mut primary_tag = Tag::new(TagType::Id3v2);

  // Add some existing images to the primary tag
  let existing_images = vec![
    (PictureType::BandLogo, "Old band logo"),
    (PictureType::Artist, "Old artist photo"),
    (PictureType::CoverFront, "Old cover"),
  ];

  for (pic_type, description) in existing_images {
    let image = Picture::new_unchecked(
      pic_type,
      Some(MimeType::Jpeg),
      Some(description.to_string()),
      vec![0xFF, 0xD8, 0xFF, 0xE0], // Minimal JPEG header for old images
    );
    primary_tag.push_picture(image);
  }

  // Verify the primary tag has the initial images
  assert_eq!(
    primary_tag.pictures().len(),
    3,
    "Primary tag should have 3 initial images"
  );

  // Create new test images with different types
  let test_images = vec![
    (AudioImageType::Artist, "New artist photo".to_string()),
    (AudioImageType::BandLogo, "New band logo".to_string()),
    (AudioImageType::CoverFront, "New cover image".to_string()), // Cover image in the middle
    (AudioImageType::Conductor, "Conductor photo".to_string()),
    (AudioImageType::LeadArtist, "Lead artist photo".to_string()),
  ];

  // Create test image data (different from the old images)
  let image_data = vec![0xFF, 0xD8, 0xFF, 0xE1]; // Slightly different JPEG header for new images
  let all_images: Vec<Image> = test_images
    .iter()
    .map(|(pic_type, description)| Image {
      data: image_data.clone(),
      pic_type: *pic_type,
      mime_type: Some("image/jpeg".to_string()),
      description: Some(description.clone()),
    })
    .collect();

  // Create AudioTags with these images
  let audio_tags = AudioTags {
    title: Some("Test Song".to_string()),
    artists: Some(vec!["Test Artist".to_string()]),
    album: None,
    year: None,
    genre: None,
    track: None,
    album_artists: None,
    comment: None,
    disc: None,
    image: None, // No main image set
    all_images: Some(all_images),
  };

  // Convert AudioTags to the primary tag (this should replace all existing images)
  audio_tags.to_tag(&mut primary_tag);

  // Get the pictures from the updated tag
  let pictures = primary_tag.pictures();

  // Verify we have all new images and no old images
  assert_eq!(
    pictures.len(),
    test_images.len(),
    "Should have only the new images"
  );

  // Verify none of the old images exist by checking their data
  for picture in pictures {
    assert_eq!(
      picture.data(),
      &image_data,
      "Should only have new image data"
    );
  }

  // Verify the cover image is first
  assert_eq!(
    pictures[0].pic_type(),
    PictureType::CoverFront,
    "First image should be cover"
  );
  assert_eq!(
    pictures[0].description().map(|s| s.to_string()),
    Some(test_images[2].1.clone()),
    "Cover image should have correct description"
  );

  // Create a map of the original order (excluding cover)
  let original_order: Vec<(&AudioImageType, String)> = test_images
    .iter()
    .filter(|(pic_type, _)| *pic_type != AudioImageType::CoverFront)
    .map(|(pic_type, desc)| (pic_type, desc.clone()))
    .collect();

  // Verify the remaining images are in the same order as they were in all_images
  for (i, (expected_type, expected_desc)) in original_order.iter().enumerate() {
    let picture = &pictures[i + 1]; // +1 because cover is first
    let actual_type = AudioImageType::from_picture_type(&picture.pic_type());
    assert_eq!(
      actual_type,
      **expected_type,
      "Image at position {} should have type {:?}",
      i + 1,
      expected_type
    );
    assert_eq!(
      picture.description().map(|s| s.to_string()),
      Some(expected_desc.clone()),
      "Image at position {} should have description '{}'",
      i + 1,
      expected_desc
    );
  }
}

#[test]
fn test_to_tag_image_ordering() {

  // Create test images with different types
  let test_images = vec![
    (AudioImageType::Artist, "Artist photo".to_string()),
    (AudioImageType::BandLogo, "Band logo".to_string()),
    (AudioImageType::CoverFront, "Cover image".to_string()), // Cover image in the middle
    (AudioImageType::Conductor, "Conductor photo".to_string()),
    (AudioImageType::LeadArtist, "Lead artist photo".to_string()),
  ];

  // Create test image data
  let image_data = vec![0xFF, 0xD8, 0xFF, 0xE0]; // Minimal JPEG header
  let all_images: Vec<Image> = test_images
    .iter()
    .map(|(pic_type, description)| Image {
      data: image_data.clone(),
      pic_type: *pic_type,
      mime_type: Some("image/jpeg".to_string()),
      description: Some(description.clone()),
    })
    .collect();

  // Create AudioTags with these images
  let audio_tags = AudioTags {
    title: Some("Test Song".to_string()),
    artists: Some(vec!["Test Artist".to_string()]),
    album: None,
    year: None,
    genre: None,
    track: None,
    album_artists: None,
    comment: None,
    disc: None,
    image: None, // No main image set
    all_images: Some(all_images),
  };

  // Create a new tag and convert AudioTags to it
  let mut tag = Tag::new(TagType::Id3v2);
  audio_tags.to_tag(&mut tag);

  // Get the pictures from the tag
  let pictures = tag.pictures();

  // Verify we have all images
  assert_eq!(pictures.len(), test_images.len(), "Should have all images");

  // Verify the cover image is first
  assert_eq!(
    pictures[0].pic_type(),
    PictureType::CoverFront,
    "First image should be cover"
  );
  assert_eq!(
    pictures[0].description().map(|s| s.to_string()),
    Some(test_images[2].1.clone()),
    "Cover image should have correct description"
  );

  // Create a map of the original order (excluding cover)
  let original_order: Vec<(&AudioImageType, String)> = test_images
    .iter()
    .filter(|(pic_type, _)| *pic_type != AudioImageType::CoverFront)
    .map(|(pic_type, desc)| (pic_type, desc.clone()))
    .collect();

  // Verify the remaining images are in the same order as they were in all_images
  for (i, (expected_type, expected_desc)) in original_order.iter().enumerate() {
    let picture = &pictures[i + 1]; // +1 because cover is first
    let actual_type = AudioImageType::from_picture_type(&picture.pic_type());
    assert_eq!(
      actual_type,
      **expected_type,
      "Image at position {} should have type {:?}",
      i + 1,
      expected_type
    );
    assert_eq!(
      picture.description().map(|s| s.to_string()),
      Some(expected_desc.clone()),
      "Image at position {} should have description '{}'",
      i + 1,
      expected_desc
    );
  }
}

#[test]
fn test_from_tag_no_cover_image() {

  // Create a test tag
  let mut tag = Tag::new(TagType::Id3v2);

  // Add several non-cover images
  let test_images = vec![
    (PictureType::Artist, "Artist photo"),
    (PictureType::BandLogo, "Band logo"),
    (PictureType::Conductor, "Conductor photo"),
  ];

  for (pic_type, description) in test_images.iter() {
    let image = Picture::new_unchecked(
      *pic_type,
      Some(MimeType::Jpeg),
      Some(description.to_string()),
      vec![0xFF, 0xD8, 0xFF, 0xE0], // Minimal JPEG header
    );
    tag.push_picture(image);
  }

  // Convert to AudioTags
  let audio_tags = AudioTags::from_tag(&tag);

  // Verify main image is None since there's no cover image
  assert!(
    audio_tags.image.is_none(),
    "Should not have main image when no cover image exists"
  );

  // Verify all_images contains all the non-cover images
  assert!(audio_tags.all_images.is_some(), "Should have all_images");
  let all_images = audio_tags.all_images.unwrap();
  assert_eq!(
    all_images.len(),
    test_images.len(),
    "Should have all non-cover images"
  );

  // Verify each image is present with correct type and description
  for (i, (pic_type, description)) in test_images.iter().enumerate() {
    let image = &all_images[i];
    let expected_type = AudioImageType::from_picture_type(pic_type);
    assert_eq!(
      image.pic_type, expected_type,
      "Image {} should have correct type",
      i
    );
    assert_eq!(
      image.description,
      Some(description.to_string()),
      "Image {} should have correct description",
      i
    );
  }
}
