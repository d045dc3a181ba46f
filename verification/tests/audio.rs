use ncm_lyric::audio::{
    parse_audio_info, AudioInfo, MetadataRevision, Tag, TagKey, Visual, VisualKey,
};

fn tag(key: Option<TagKey>, value: &str) -> Tag {
    Tag { std_key: key, value: value.to_string() }
}

fn visual(media_type: &str, usage: Option<VisualKey>, data: &[u8]) -> Visual {
    Visual { media_type: media_type.to_string(), usage, data: data.to_vec() }
}

#[test]
fn no_revisions_give_empty_information() {
    let info = parse_audio_info(&Vec::new());
    assert_eq!(info, AudioInfo::default());
    assert_eq!(info.name, "");
    assert_eq!(info.cover, None);
}

#[test]
fn tags_fill_their_fields() {
    let revision = MetadataRevision {
        tags: vec![
            tag(Some(TagKey::TrackTitle), "Title"),
            tag(Some(TagKey::Artist), "Artist"),
            tag(Some(TagKey::Album), "Album"),
            tag(Some(TagKey::Lyrics), "La la"),
            tag(Some(TagKey::Comment), "163 key(Don't modify):abc"),
            tag(Some(TagKey::Other), "other"),
            tag(None, "unknown"),
        ],
        visuals: Vec::new(),
    };
    let info = parse_audio_info(&vec![revision]);
    assert_eq!(info.name, "Title");
    assert_eq!(info.artist, "Artist");
    assert_eq!(info.album, "Album");
    assert_eq!(info.lyric, "La la");
    assert_eq!(info.comment, "163 key(Don't modify):abc");
    assert_eq!(info.cover, None);
    assert_eq!(info.cover_media_type, "");
}

#[test]
fn later_tags_and_revisions_replace_earlier_ones() {
    let first = MetadataRevision {
        tags: vec![tag(Some(TagKey::TrackTitle), "old"), tag(Some(TagKey::Artist), "kept")],
        visuals: Vec::new(),
    };
    let second = MetadataRevision {
        tags: vec![tag(Some(TagKey::TrackTitle), "newer"), tag(Some(TagKey::TrackTitle), "newest")],
        visuals: Vec::new(),
    };
    let info = parse_audio_info(&vec![first, second]);
    assert_eq!(info.name, "newest");
    assert_eq!(info.artist, "kept");
}

#[test]
fn only_visual_is_the_cover_whatever_its_usage() {
    let revision = MetadataRevision {
        tags: Vec::new(),
        visuals: vec![visual("image/png", Some(VisualKey::Other), &[1, 2, 3])],
    };
    let info = parse_audio_info(&vec![revision]);
    assert_eq!(info.cover_media_type, "image/png");
    assert_eq!(info.cover, Some(vec![1, 2, 3]));
    let revision = MetadataRevision { tags: Vec::new(), visuals: vec![visual("image/gif", None, &[])] };
    let info = parse_audio_info(&vec![revision]);
    assert_eq!(info.cover_media_type, "image/gif");
    assert_eq!(info.cover, Some(Vec::new()));
}

#[test]
fn of_several_visuals_the_last_front_cover_counts() {
    let revision = MetadataRevision {
        tags: Vec::new(),
        visuals: vec![
            visual("image/a", Some(VisualKey::FrontCover), &[1]),
            visual("image/b", Some(VisualKey::Other), &[2]),
            visual("image/c", Some(VisualKey::FrontCover), &[3]),
            visual("image/d", None, &[4]),
        ],
    };
    let info = parse_audio_info(&vec![revision]);
    assert_eq!(info.cover_media_type, "image/c");
    assert_eq!(info.cover, Some(vec![3]));
}

#[test]
fn several_visuals_without_front_cover_keep_the_earlier_cover() {
    let first = MetadataRevision {
        tags: Vec::new(),
        visuals: vec![visual("image/first", None, &[9])],
    };
    let second = MetadataRevision {
        tags: Vec::new(),
        visuals: vec![visual("image/a", None, &[1]), visual("image/b", Some(VisualKey::Other), &[2])],
    };
    let info = parse_audio_info(&vec![first, second]);
    assert_eq!(info.cover_media_type, "image/first");
    assert_eq!(info.cover, Some(vec![9]));
}
