//! Photo metadata: the fixed list of Exif tags that are extracted, and the
//! named rendering of the values found.
use vstd::prelude::*;
use crate::models::{clone_opt, opt_view};

verus! {

/// The Exif tags that a photo's metadata is read from.
#[derive(Debug, Clone, Copy, PartialEq, Eq, Structural)]
pub enum MetaTag {
    DateTimeOriginal,
    Model,
    ExposureTime,
    FNumber,
    FocalLength,
    FocalLengthIn35mmFilm,
    Flash,
}

pub open spec fn tag_list_spec() -> Seq<MetaTag> {
    seq![
        MetaTag::DateTimeOriginal,
        MetaTag::Model,
        MetaTag::ExposureTime,
        MetaTag::FNumber,
        MetaTag::FocalLength,
        MetaTag::FocalLengthIn35mmFilm,
        MetaTag::Flash,
    ]
}

/// Every tag that is extracted, in display order.
pub fn tag_list() -> (r: Vec<MetaTag>)
    ensures
        r@ == tag_list_spec(),
{
    let r = vec![
        MetaTag::DateTimeOriginal,
        MetaTag::Model,
        MetaTag::ExposureTime,
        MetaTag::FNumber,
        MetaTag::FocalLength,
        MetaTag::FocalLengthIn35mmFilm,
        MetaTag::Flash,
    ];
    assert(r@ =~= tag_list_spec());
    r
}

/// What the Exif attributes of the file held in `data` give as the text of
/// `tag`.
pub uninterp spec fn exif_text_of(data: Seq<u8>, tag: MetaTag) -> Option<Seq<char>>;

/// Relies on `exif::Reader::read_from_container`, reading from the bytes in
/// memory, then on `exif::Exif::get_field` for the primary image and on the
/// field's `display_value`: the text of `tag`, or nothing when the data holds
/// no readable Exif attributes (as empty data does) or they lack the tag.
#[verifier::external_body]
fn exif_text(data: &[u8], tag: MetaTag) -> (r: Option<String>)
    ensures
        opt_view(r) == exif_text_of(data@, tag),
        data@.len() == 0 ==> r is None,
{
    let t = match tag {
        MetaTag::DateTimeOriginal => exif::Tag::DateTimeOriginal,
        MetaTag::Model => exif::Tag::Model,
        MetaTag::ExposureTime => exif::Tag::ExposureTime,
        MetaTag::FNumber => exif::Tag::FNumber,
        MetaTag::FocalLength => exif::Tag::FocalLength,
        MetaTag::FocalLengthIn35mmFilm => exif::Tag::FocalLengthIn35mmFilm,
        MetaTag::Flash => exif::Tag::Flash,
    };
    let attributes = exif::Reader::new().read_from_container(&mut std::io::Cursor::new(data)).ok()?;
    let field = attributes.get_field(t, exif::In::PRIMARY)?;
    Some(field.display_value().to_string())
}

/// The metadata of one photo; a tag that the file lacks has no value.
#[derive(Debug, Default)]
pub struct PhotoMetadata {
    pub creation_date: Option<String>,
    pub camera: Option<String>,
    pub exposure_time: Option<String>,
    pub aperture: Option<String>,
    pub focal_length: Option<String>,
    pub focal_length_in_35mm: Option<String>,
    pub flash: Option<String>,
}

impl PhotoMetadata {
    pub fn new() -> (r: PhotoMetadata)
        ensures
            forall|t: MetaTag| r.value_of(t) is None,
    {
        PhotoMetadata {
            creation_date: None,
            camera: None,
            exposure_time: None,
            aperture: None,
            focal_length: None,
            focal_length_in_35mm: None,
            flash: None,
        }
    }

    /// The value recorded for `tag`.
    pub open spec fn value_of(&self, tag: MetaTag) -> Option<Seq<char>> {
        match tag {
            MetaTag::DateTimeOriginal => opt_view(self.creation_date),
            MetaTag::Model => opt_view(self.camera),
            MetaTag::ExposureTime => opt_view(self.exposure_time),
            MetaTag::FNumber => opt_view(self.aperture),
            MetaTag::FocalLength => opt_view(self.focal_length),
            MetaTag::FocalLengthIn35mmFilm => opt_view(self.focal_length_in_35mm),
            MetaTag::Flash => opt_view(self.flash),
        }
    }

    /// Records `value` for `tag`, leaving the other tags as they were.
    pub fn set_tag(&mut self, tag: MetaTag, value: Option<String>)
        ensures
            final(self).value_of(tag) == opt_view(value),
            forall|t: MetaTag| t != tag ==> final(self).value_of(t) == old(self).value_of(t),
    {
        match tag {
            MetaTag::DateTimeOriginal => self.creation_date = value,
            MetaTag::Model => self.camera = value,
            MetaTag::ExposureTime => self.exposure_time = value,
            MetaTag::FNumber => self.aperture = value,
            MetaTag::FocalLength => self.focal_length = value,
            MetaTag::FocalLengthIn35mmFilm => self.focal_length_in_35mm = value,
            MetaTag::Flash => self.flash = value,
        }
    }

    /// The metadata of the image file held in `data`: for each tag, the
    /// text its Exif attributes give. A file without readable Exif
    /// attributes gives no value for any tag; it is not an error.
    pub fn extract_exif(data: &Vec<u8>) -> (r: PhotoMetadata)
        ensures
            forall|t: MetaTag| #[trigger] r.value_of(t) == exif_text_of(data@, t),
            data@.len() == 0 ==> forall|t: MetaTag| #[trigger] r.value_of(t) is None,
    {
        let mut r = PhotoMetadata::new();
        let tags = tag_list();
        let mut i: usize = 0;
        while i < tags.len()
            invariant
                i <= tags@.len(),
                tags@ == tag_list_spec(),
                forall|k: int| 0 <= k < i ==> r.value_of(#[trigger] tags@[k]) == exif_text_of(data@, tags@[k]),
                data@.len() == 0 ==> forall|t: MetaTag| #[trigger] r.value_of(t) is None,
            decreases tags@.len() - i,
        {
            let tag = tags[i];
            r.set_tag(tag, exif_text(data.as_slice(), tag));
            i = i + 1;
        }
        assert forall|t: MetaTag| #[trigger] r.value_of(t) == exif_text_of(data@, t) by {
            match t {
                MetaTag::DateTimeOriginal => assert(tags@[0] == t),
                MetaTag::Model => assert(tags@[1] == t),
                MetaTag::ExposureTime => assert(tags@[2] == t),
                MetaTag::FNumber => assert(tags@[3] == t),
                MetaTag::FocalLength => assert(tags@[4] == t),
                MetaTag::FocalLengthIn35mmFilm => assert(tags@[5] == t),
                MetaTag::Flash => assert(tags@[6] == t),
            }
        }
        r
    }
}

/// The label that a tag is shown under.
pub open spec fn label_of(tag: MetaTag) -> Seq<char> {
    match tag {
        MetaTag::DateTimeOriginal => seq!['D', 'a', 't', 'e'],
        MetaTag::Model => seq!['C', 'a', 'm', 'e', 'r', 'a'],
        MetaTag::ExposureTime => seq!['E', 'x', 'p', 'o', 's', 'u', 'r', 'e'],
        MetaTag::FNumber => seq!['A', 'p', 'e', 'r', 't', 'u', 'r', 'e'],
        MetaTag::FocalLength => seq!['F', 'o', 'c', 'a', 'l', ' ', 'l', 'e', 'n', 'g', 't', 'h'],
        MetaTag::FocalLengthIn35mmFilm => seq![
            'F', 'o', 'c', 'a', 'l', ' ', 'l', 'e', 'n', 'g', 't', 'h', ' ', 'i', 'n', ' ', '3', '5', 'm', 'm',
        ],
        MetaTag::Flash => seq!['F', 'l', 'a', 's', 'h'],
    }
}

pub fn label(tag: MetaTag) -> (r: String)
    ensures
        r@ == label_of(tag),
{
    let s = match tag {
        MetaTag::DateTimeOriginal => "Date",
        MetaTag::Model => "Camera",
        MetaTag::ExposureTime => "Exposure",
        MetaTag::FNumber => "Aperture",
        MetaTag::FocalLength => "Focal length",
        MetaTag::FocalLengthIn35mmFilm => "Focal length in 35mm",
        MetaTag::Flash => "Flash",
    };
    proof {
        reveal_strlit("Date");
        reveal_strlit("Camera");
        reveal_strlit("Exposure");
        reveal_strlit("Aperture");
        reveal_strlit("Focal length");
        reveal_strlit("Focal length in 35mm");
        reveal_strlit("Flash");
    }
    let r = String::from_str(s);
    assert(r@ =~= label_of(tag));
    r
}

/// The labelled values of the tags in `tags` that have one, in that order.
pub open spec fn named_values(m: PhotoMetadata, tags: Seq<MetaTag>) -> Seq<(Seq<char>, Seq<char>)>
    decreases tags.len(),
{
    if tags.len() == 0 {
        Seq::empty()
    } else {
        let rest = named_values(m, tags.drop_last());
        match m.value_of(tags.last()) {
            Some(v) => rest.push((label_of(tags.last()), v)),
            None => rest,
        }
    }
}

pub open spec fn pairs_view(v: Seq<(String, String)>) -> Seq<(Seq<char>, Seq<char>)> {
    v.map_values(|p: (String, String)| (p.0@, p.1@))
}

impl PhotoMetadata {
    fn value_for(&self, tag: MetaTag) -> (r: Option<String>)
        ensures
            opt_view(r) == self.value_of(tag),
    {
        match tag {
            MetaTag::DateTimeOriginal => clone_opt(&self.creation_date),
            MetaTag::Model => clone_opt(&self.camera),
            MetaTag::ExposureTime => clone_opt(&self.exposure_time),
            MetaTag::FNumber => clone_opt(&self.aperture),
            MetaTag::FocalLength => clone_opt(&self.focal_length),
            MetaTag::FocalLengthIn35mmFilm => clone_opt(&self.focal_length_in_35mm),
            MetaTag::Flash => clone_opt(&self.flash),
        }
    }

    /// The (label, value) pairs of the tags that have a value, in display
    /// order.
    pub fn get_named_metadata(&self) -> (r: Vec<(String, String)>)
        ensures
            pairs_view(r@) == named_values(*self, tag_list_spec()),
    {
        let tags = tag_list();
        let mut r: Vec<(String, String)> = Vec::new();
        let mut i: usize = 0;
        assert(tags@.subrange(0, 0) =~= Seq::<MetaTag>::empty());
        assert(pairs_view(r@) =~= Seq::empty());
        while i < tags.len()
            invariant
                tags@ == tag_list_spec(),
                i <= tags@.len(),
                pairs_view(r@) == named_values(*self, tags@.subrange(0, i as int)),
            decreases tags@.len() - i,
        {
            let tag = tags[i];
            assert(tags@.subrange(0, i + 1).drop_last() =~= tags@.subrange(0, i as int));
            let ghost r0 = r@;
            match self.value_for(tag) {
                Some(v) => {
                    r.push((label(tag), v));
                    assert(pairs_view(r@) =~= pairs_view(r0).push((label_of(tag), self.value_of(tag)->Some_0)));
                },
                None => {},
            }
            i = i + 1;
        }
        assert(tags@.subrange(0, tags@.len() as int) =~= tags@);
        r
    }
}

} // verus!
