//! The metadata of an audio file, gathered from the revisions that a
//! container reader yields.
//!
//! A file's metadata comes as a sequence of revisions, oldest first. Each
//! revision holds tags and visuals. Later values replace earlier ones.

use vstd::prelude::*;

verus! {

/// The standard meaning of a tag, as far as this library reads it.
#[derive(Debug, Clone, Copy, PartialEq, Eq)]
pub enum TagKey {
    TrackTitle,
    Artist,
    Album,
    Lyrics,
    Comment,
    Other,
}

/// The standard usage of a visual, as far as this library reads it.
#[derive(Debug, Clone, Copy, PartialEq, Eq)]
pub enum VisualKey {
    FrontCover,
    Other,
}

/// A key/value pair of metadata. `std_key` is absent where the reader did not
/// recognize the key.
#[derive(Debug, Clone, PartialEq, Eq)]
pub struct Tag {
    pub std_key: Option<TagKey>,
    pub value: String,
}

/// Mathematical value of a [`Tag`].
pub ghost struct TagView {
    pub std_key: Option<TagKey>,
    pub value: Seq<char>,
}

impl View for Tag {
    type V = TagView;

    open spec fn view(&self) -> TagView {
        TagView { std_key: self.std_key, value: self.value@ }
    }
}

impl DeepView for Tag {
    type V = TagView;

    open spec fn deep_view(&self) -> TagView {
        self@
    }
}

/// An embedded picture.
#[derive(Debug, Clone, PartialEq, Eq)]
pub struct Visual {
    pub media_type: String,
    pub usage: Option<VisualKey>,
    pub data: Vec<u8>,
}

/// Mathematical value of a [`Visual`].
pub ghost struct VisualView {
    pub media_type: Seq<char>,
    pub usage: Option<VisualKey>,
    pub data: Seq<u8>,
}

impl View for Visual {
    type V = VisualView;

    open spec fn view(&self) -> VisualView {
        VisualView { media_type: self.media_type@, usage: self.usage, data: self.data@ }
    }
}

impl DeepView for Visual {
    type V = VisualView;

    open spec fn deep_view(&self) -> VisualView {
        self@
    }
}

/// One revision of a file's metadata.
#[derive(Debug, Clone, PartialEq, Eq)]
pub struct MetadataRevision {
    pub tags: Vec<Tag>,
    pub visuals: Vec<Visual>,
}

/// Mathematical value of a [`MetadataRevision`].
pub ghost struct MetadataRevisionView {
    pub tags: Seq<TagView>,
    pub visuals: Seq<VisualView>,
}

impl View for MetadataRevision {
    type V = MetadataRevisionView;

    open spec fn view(&self) -> MetadataRevisionView {
        MetadataRevisionView { tags: self.tags.deep_view(), visuals: self.visuals.deep_view() }
    }
}

impl DeepView for MetadataRevision {
    type V = MetadataRevisionView;

    open spec fn deep_view(&self) -> MetadataRevisionView {
        self@
    }
}

/// What is known of an audio file from its metadata.
#[derive(Debug, Clone, PartialEq, Eq)]
pub struct AudioInfo {
    pub name: String,
    pub artist: String,
    pub album: String,
    pub lyric: String,
    pub cover_media_type: String,
    pub cover: Option<Vec<u8>>,
    pub comment: String,
}

/// Mathematical value of an [`AudioInfo`].
pub ghost struct AudioInfoView {
    pub name: Seq<char>,
    pub artist: Seq<char>,
    pub album: Seq<char>,
    pub lyric: Seq<char>,
    pub cover_media_type: Seq<char>,
    pub cover: Option<Seq<u8>>,
    pub comment: Seq<char>,
}

impl View for AudioInfo {
    type V = AudioInfoView;

    open spec fn view(&self) -> AudioInfoView {
        AudioInfoView {
            name: self.name@,
            artist: self.artist@,
            album: self.album@,
            lyric: self.lyric@,
            cover_media_type: self.cover_media_type@,
            cover: match self.cover {
                Some(data) => Some(data@),
                None => None,
            },
            comment: self.comment@,
        }
    }
}

impl Default for AudioInfo {
    fn default() -> (info: AudioInfo)
        ensures
            info@ == audio_info(Seq::empty(), Seq::empty()),
    {
        let info = AudioInfo {
            name: String::new(),
            artist: String::new(),
            album: String::new(),
            lyric: String::new(),
            cover_media_type: String::new(),
            cover: None,
            comment: String::new(),
        };
        assert(info@.name =~= Seq::<char>::empty());
        info
    }
}

/// The value of the last of `tags` that has the standard key `key`, empty
/// where none has it.
pub open spec fn last_value(tags: Seq<TagView>, key: TagKey) -> Seq<char>
    decreases tags.len(),
{
    if tags.len() == 0 {
        Seq::empty()
    } else if tags.last().std_key == Some(key) {
        tags.last().value
    } else {
        last_value(tags.drop_last(), key)
    }
}

/// The visuals of a front cover among `visuals`, in order.
pub open spec fn front_covers(visuals: Seq<VisualView>) -> Seq<VisualView>
    decreases visuals.len(),
{
    if visuals.len() == 0 {
        Seq::empty()
    } else if visuals.last().usage == Some(VisualKey::FrontCover) {
        front_covers(visuals.drop_last()).push(visuals.last())
    } else {
        front_covers(visuals.drop_last())
    }
}

/// The visuals of a revision that can serve as the cover: its only visual,
/// whatever its usage, or else its front covers.
pub open spec fn cover_candidates(revision: MetadataRevisionView) -> Seq<VisualView> {
    if revision.visuals.len() == 1 {
        revision.visuals
    } else {
        front_covers(revision.visuals)
    }
}

/// The tags of all revisions, in order.
pub open spec fn all_tags(revisions: Seq<MetadataRevisionView>) -> Seq<TagView>
    decreases revisions.len(),
{
    if revisions.len() == 0 {
        Seq::empty()
    } else {
        all_tags(revisions.drop_last()) + revisions.last().tags
    }
}

/// The cover candidates of all revisions, in order.
pub open spec fn all_covers(revisions: Seq<MetadataRevisionView>) -> Seq<VisualView>
    decreases revisions.len(),
{
    if revisions.len() == 0 {
        Seq::empty()
    } else {
        all_covers(revisions.drop_last()) + cover_candidates(revisions.last())
    }
}

/// The information that a sequence of tags and a sequence of cover candidates
/// give: of each, the last one counts.
pub open spec fn audio_info(tags: Seq<TagView>, covers: Seq<VisualView>) -> AudioInfoView {
    AudioInfoView {
        name: last_value(tags, TagKey::TrackTitle),
        artist: last_value(tags, TagKey::Artist),
        album: last_value(tags, TagKey::Album),
        lyric: last_value(tags, TagKey::Lyrics),
        cover_media_type: if covers.len() == 0 {
            Seq::empty()
        } else {
            covers.last().media_type
        },
        cover: if covers.len() == 0 {
            None
        } else {
            Some(covers.last().data)
        },
        comment: last_value(tags, TagKey::Comment),
    }
}

fn copy_bytes(data: &Vec<u8>) -> (copy: Vec<u8>)
    ensures
        copy@ == data@,
{
    let mut copy: Vec<u8> = Vec::new();
    let mut i: usize = 0;
    while i < data.len()
        invariant
            i <= data.len(),
            copy@ == data@.take(i as int),
        decreases data.len() - i,
    {
        copy.push(data[i]);
        assert(data@.take(i + 1) =~= data@.take(i as int).push(data@[i as int]));
        i += 1;
    }
    assert(data@.take(i as int) =~= data@);
    copy
}

fn set_cover(info: &mut AudioInfo, visual: &Visual, Ghost(tags): Ghost<Seq<TagView>>, Ghost(covers): Ghost<Seq<VisualView>>)
    requires
        old(info)@ == audio_info(tags, covers),
    ensures
        final(info)@ == audio_info(tags, covers.push(visual@)),
{
    info.cover_media_type = visual.media_type.clone();
    info.cover = Some(copy_bytes(&visual.data));
}

fn read_visuals(info: &mut AudioInfo, visuals: &Vec<Visual>, Ghost(tags): Ghost<Seq<TagView>>, Ghost(covers): Ghost<Seq<VisualView>>)
    requires
        old(info)@ == audio_info(tags, covers),
    ensures
        final(info)@ == audio_info(
            tags,
            covers + cover_candidates(
                MetadataRevisionView { tags: Seq::empty(), visuals: visuals.deep_view() },
            ),
        ),
{
    let ghost all = visuals.deep_view();
    if visuals.len() == 1 {
        set_cover(info, &visuals[0], Ghost(tags), Ghost(covers));
        assert(covers.push(visuals@[0]@) =~= covers + all);
    } else {
        let mut j: usize = 0;
        assert(covers + front_covers(all.take(0)) =~= covers);
        while j < visuals.len()
            invariant
                j <= visuals.len(),
                all == visuals.deep_view(),
                info@ == audio_info(tags, covers + front_covers(all.take(j as int))),
            decreases visuals.len() - j,
        {
            let ghost seen = all.take(j as int);
            let ghost next = all.take(j + 1);
            assert(next.drop_last() =~= seen);
            assert(next.last() == visuals@[j as int]@);
            match visuals[j].usage {
                Some(VisualKey::FrontCover) => {
                    set_cover(info, &visuals[j], Ghost(tags), Ghost(covers + front_covers(seen)));
                    assert((covers + front_covers(seen)).push(visuals@[j as int]@) =~= covers
                        + front_covers(next));
                },
                _ => {},
            }
            j += 1;
        }
        assert(all.take(j as int) =~= all);
    }
}

fn read_tag(info: &mut AudioInfo, tag: &Tag, Ghost(tags): Ghost<Seq<TagView>>, Ghost(covers): Ghost<Seq<VisualView>>)
    requires
        old(info)@ == audio_info(tags, covers),
    ensures
        final(info)@ == audio_info(tags.push(tag@), covers),
{
    let ghost more = tags.push(tag@);
    assert(more.drop_last() =~= tags);
    match tag.std_key {
        Some(TagKey::TrackTitle) => {
            info.name = tag.value.clone();
        },
        Some(TagKey::Artist) => {
            info.artist = tag.value.clone();
        },
        Some(TagKey::Album) => {
            info.album = tag.value.clone();
        },
        Some(TagKey::Lyrics) => {
            info.lyric = tag.value.clone();
        },
        Some(TagKey::Comment) => {
            info.comment = tag.value.clone();
        },
        _ => {},
    }
}

fn read_revision(info: &mut AudioInfo, revision: &MetadataRevision, Ghost(tags): Ghost<Seq<TagView>>, Ghost(covers): Ghost<Seq<VisualView>>)
    requires
        old(info)@ == audio_info(tags, covers),
    ensures
        final(info)@ == audio_info(tags + revision@.tags, covers + cover_candidates(revision@)),
{
    read_visuals(info, &revision.visuals, Ghost(tags), Ghost(covers));
    let ghost covers = covers + cover_candidates(revision@);
    let ghost all = revision.tags.deep_view();
    let mut t: usize = 0;
    assert(tags + all.take(0) =~= tags);
    while t < revision.tags.len()
        invariant
            t <= revision.tags.len(),
            all == revision.tags.deep_view(),
            info@ == audio_info(tags + all.take(t as int), covers),
        decreases revision.tags.len() - t,
    {
        read_tag(info, &revision.tags[t], Ghost(tags + all.take(t as int)), Ghost(covers));
        assert((tags + all.take(t as int)).push(revision.tags@[t as int]@) =~= tags + all.take(
            t + 1,
        ));
        t += 1;
    }
    assert(all.take(t as int) =~= all);
}

/// Gathers the information of a file from its metadata revisions, oldest
/// first.
///
/// Title, artist, album, lyrics and comment each come from the last tag with
/// that standard key. The cover is the last cover candidate: a revision's only
/// visual counts whatever its usage, and of several visuals those that are a
/// front cover. What no revision gives stays empty.
pub fn parse_audio_info(revisions: &Vec<MetadataRevision>) -> (info: AudioInfo)
    ensures
        info@ == audio_info(all_tags(revisions.deep_view()), all_covers(revisions.deep_view())),
{
    let ghost all = revisions.deep_view();
    let mut info = AudioInfo::default();
    let mut k: usize = 0;
    assert(all.take(0) =~= Seq::<MetadataRevisionView>::empty());
    while k < revisions.len()
        invariant
            k <= revisions.len(),
            all == revisions.deep_view(),
            info@ == audio_info(all_tags(all.take(k as int)), all_covers(all.take(k as int))),
        decreases revisions.len() - k,
    {
        let ghost seen = all.take(k as int);
        let ghost next = all.take(k + 1);
        assert(next.drop_last() =~= seen);
        assert(next.last() == revisions@[k as int]@);
        read_revision(&mut info, &revisions[k], Ghost(all_tags(seen)), Ghost(all_covers(seen)));
        k += 1;
    }
    assert(all.take(k as int) =~= all);
    info
}

} // verus!
