//! What a clipboard holds: text and images.

use vstd::prelude::*;
use crate::text::same_text;

verus! {

/// The image encodings that the clipboard exchanges, from the most to the least likely to be
/// pasted.
#[derive(Clone, Copy, Debug, PartialEq, Eq, Structural, Hash)]
pub enum ImageFormat {
    Png,
    Jpeg,
    Webp,
    Gif,
    Svg,
    Bmp,
    Tiff,
    Ico,
    Pnm,
}

/// The number of image formats.
pub const FORMAT_COUNT: usize = 9;

/// The formats in their order of preference.
pub open spec fn format_order() -> Seq<ImageFormat> {
    seq![
        ImageFormat::Png,
        ImageFormat::Jpeg,
        ImageFormat::Webp,
        ImageFormat::Gif,
        ImageFormat::Svg,
        ImageFormat::Bmp,
        ImageFormat::Tiff,
        ImageFormat::Ico,
        ImageFormat::Pnm,
    ]
}

/// The format that a mime type names, or nothing when it names none.
pub open spec fn format_of_mime(mime: Seq<char>) -> Option<ImageFormat> {
    if mime == "image/png"@ {
        Some(ImageFormat::Png)
    } else if mime == "image/jpeg"@ || mime == "image/jpg"@ {
        Some(ImageFormat::Jpeg)
    } else if mime == "image/webp"@ {
        Some(ImageFormat::Webp)
    } else if mime == "image/gif"@ {
        Some(ImageFormat::Gif)
    } else if mime == "image/svg+xml"@ {
        Some(ImageFormat::Svg)
    } else if mime == "image/bmp"@ {
        Some(ImageFormat::Bmp)
    } else if mime == "image/tiff"@ || mime == "image/tif"@ {
        Some(ImageFormat::Tiff)
    } else if mime == "image/ico"@ {
        Some(ImageFormat::Ico)
    } else if mime == "image/x-portable-anymap"@ {
        Some(ImageFormat::Pnm)
    } else {
        None
    }
}

impl ImageFormat {
    /// The mime type under which the format is offered.
    pub open spec fn mime(self) -> Seq<char> {
        match self {
            ImageFormat::Png => "image/png"@,
            ImageFormat::Jpeg => "image/jpeg"@,
            ImageFormat::Webp => "image/webp"@,
            ImageFormat::Gif => "image/gif"@,
            ImageFormat::Svg => "image/svg+xml"@,
            ImageFormat::Bmp => "image/bmp"@,
            ImageFormat::Tiff => "image/tiff"@,
            ImageFormat::Ico => "image/ico"@,
            ImageFormat::Pnm => "image/x-portable-anymap"@,
        }
    }

    /// The place of the format in [`format_order`].
    pub open spec fn rank(self) -> int {
        match self {
            ImageFormat::Png => 0,
            ImageFormat::Jpeg => 1,
            ImageFormat::Webp => 2,
            ImageFormat::Gif => 3,
            ImageFormat::Svg => 4,
            ImageFormat::Bmp => 5,
            ImageFormat::Tiff => 6,
            ImageFormat::Ico => 7,
            ImageFormat::Pnm => 8,
        }
    }

    /// The format at a place in the order of preference.
    pub fn at(index: usize) -> (format: Option<ImageFormat>)
        ensures
            format == if index < FORMAT_COUNT {
                Some(format_order()[index as int])
            } else {
                None
            },
    {
        match index {
            0 => Some(ImageFormat::Png),
            1 => Some(ImageFormat::Jpeg),
            2 => Some(ImageFormat::Webp),
            3 => Some(ImageFormat::Gif),
            4 => Some(ImageFormat::Svg),
            5 => Some(ImageFormat::Bmp),
            6 => Some(ImageFormat::Tiff),
            7 => Some(ImageFormat::Ico),
            8 => Some(ImageFormat::Pnm),
            _ => None,
        }
    }

    /// The place of the format in the order of preference.
    pub fn index(self) -> (index: usize)
        ensures
            index == self.rank(),
            index < FORMAT_COUNT,
            format_order()[index as int] == self,
    {
        match self {
            ImageFormat::Png => 0,
            ImageFormat::Jpeg => 1,
            ImageFormat::Webp => 2,
            ImageFormat::Gif => 3,
            ImageFormat::Svg => 4,
            ImageFormat::Bmp => 5,
            ImageFormat::Tiff => 6,
            ImageFormat::Ico => 7,
            ImageFormat::Pnm => 8,
        }
    }

    /// Returns the mime type of the format.
    pub fn mime_type(self) -> (mime: &'static str)
        ensures
            mime@ == self.mime(),
    {
        match self {
            ImageFormat::Png => "image/png",
            ImageFormat::Jpeg => "image/jpeg",
            ImageFormat::Webp => "image/webp",
            ImageFormat::Gif => "image/gif",
            ImageFormat::Svg => "image/svg+xml",
            ImageFormat::Bmp => "image/bmp",
            ImageFormat::Tiff => "image/tiff",
            ImageFormat::Ico => "image/ico",
            ImageFormat::Pnm => "image/x-portable-anymap",
        }
    }

    /// Returns the format that a mime type names.
    pub fn from_mime_type(mime_type: &str) -> (format: Option<ImageFormat>)
        ensures
            format == format_of_mime(mime_type@),
    {
        if same_text(mime_type, "image/png") {
            Some(ImageFormat::Png)
        } else if same_text(mime_type, "image/jpeg") || same_text(mime_type, "image/jpg") {
            Some(ImageFormat::Jpeg)
        } else if same_text(mime_type, "image/webp") {
            Some(ImageFormat::Webp)
        } else if same_text(mime_type, "image/gif") {
            Some(ImageFormat::Gif)
        } else if same_text(mime_type, "image/svg+xml") {
            Some(ImageFormat::Svg)
        } else if same_text(mime_type, "image/bmp") {
            Some(ImageFormat::Bmp)
        } else if same_text(mime_type, "image/tiff") || same_text(mime_type, "image/tif") {
            Some(ImageFormat::Tiff)
        } else if same_text(mime_type, "image/ico") {
            Some(ImageFormat::Ico)
        } else if same_text(mime_type, "image/x-portable-anymap") {
            Some(ImageFormat::Pnm)
        } else {
            None
        }
    }
}

/// The mime type of a format names that format.
pub proof fn mime_type_names_its_format(format: ImageFormat)
    ensures
        format_of_mime(format.mime()) == Some(format),
{
    reveal_strlit("image/png");
    reveal_strlit("image/jpeg");
    reveal_strlit("image/jpg");
    reveal_strlit("image/webp");
    reveal_strlit("image/gif");
    reveal_strlit("image/svg+xml");
    reveal_strlit("image/bmp");
    reveal_strlit("image/tiff");
    reveal_strlit("image/tif");
    reveal_strlit("image/ico");
    reveal_strlit("image/x-portable-anymap");
    let mime = format.mime();
    assert(mime.len() == 9 ==> mime[6] == 'p' || mime[6] == 'g' || mime[6] == 'b' || mime[6]
        == 'i');
    assert(mime.len() == 10 ==> mime[6] == 'j' || mime[6] == 'w' || mime[6] == 't');
    assert("image/jpg"@[6] == 'j');
    assert("image/tif"@[6] == 't');
    assert("image/jpeg"@[6] == 'j');
    assert("image/webp"@[6] == 'w');
    assert("image/tiff"@[6] == 't');
    assert("image/png"@[6] == 'p');
    assert("image/gif"@[6] == 'g');
    assert("image/bmp"@[6] == 'b');
    assert("image/ico"@[6] == 'i');
}

/// Formats with the same mime type are the same format.
pub proof fn mime_types_are_distinct(a: ImageFormat, b: ImageFormat)
    requires
        a.mime() == b.mime(),
    ensures
        a == b,
{
    mime_type_names_its_format(a);
    mime_type_names_its_format(b);
}

/// An encoded image.
#[derive(Debug)]
pub struct Image {
    /// The encoding of the bytes.
    pub format: ImageFormat,
    /// The encoded image.
    pub bytes: Vec<u8>,
    /// An identifier taken from the bytes.
    pub id: u64,
}

/// The value of an [`Image`].
#[verifier::ext_equal]
pub struct ImageModel {
    pub format: ImageFormat,
    pub bytes: Seq<u8>,
    pub id: u64,
}

impl View for Image {
    type V = ImageModel;

    open spec fn view(&self) -> ImageModel {
        ImageModel { format: self.format, bytes: self.bytes@, id: self.id }
    }
}

impl Clone for Image {
    fn clone(&self) -> (copy: Self)
        ensures
            copy@ == self@,
    {
        Image { format: self.format, bytes: copy_bytes(&self.bytes), id: self.id }
    }
}

/// A copy of some bytes.
pub fn copy_bytes(bytes: &Vec<u8>) -> (copy: Vec<u8>)
    ensures
        copy@ == bytes@,
{
    let copy = bytes.clone();
    assert(copy@ =~= bytes@);
    copy
}

/// A text and what the application keeps beside it.
#[derive(Debug)]
pub struct ClipboardString {
    pub text: String,
    pub metadata: Option<String>,
}

/// One entry of a clipboard.
#[derive(Debug)]
pub enum ClipboardEntry {
    String(ClipboardString),
    Image(Image),
}

/// The value of a [`ClipboardEntry`].
#[verifier::ext_equal]
pub enum EntryModel {
    Text { text: Seq<char>, metadata: Option<Seq<char>> },
    Image(ImageModel),
}

/// The text in an optional string.
pub open spec fn optional_text(text: Option<String>) -> Option<Seq<char>> {
    match text {
        Some(text) => Some(text@),
        None => None,
    }
}

impl View for ClipboardEntry {
    type V = EntryModel;

    open spec fn view(&self) -> EntryModel {
        match self {
            ClipboardEntry::String(string) => EntryModel::Text {
                text: string.text@,
                metadata: optional_text(string.metadata),
            },
            ClipboardEntry::Image(image) => EntryModel::Image(image@),
        }
    }
}

impl Clone for ClipboardEntry {
    fn clone(&self) -> (copy: Self)
        ensures
            copy@ == self@,
    {
        match self {
            ClipboardEntry::String(string) => {
                let metadata = match &string.metadata {
                    Some(metadata) => Some(metadata.clone()),
                    None => None,
                };
                ClipboardEntry::String(ClipboardString { text: string.text.clone(), metadata })
            },
            ClipboardEntry::Image(image) => ClipboardEntry::Image(image.clone()),
        }
    }
}

/// The contents of a clipboard.
#[derive(Debug)]
pub struct ClipboardItem {
    pub entries: Vec<ClipboardEntry>,
}

/// The texts of the entries, one after the other.
pub open spec fn joined_text(entries: Seq<EntryModel>) -> Seq<char>
    decreases entries.len(),
{
    if entries.len() == 0 {
        Seq::empty()
    } else {
        joined_text(entries.drop_last()) + match entries.last() {
            EntryModel::Text { text, .. } => text,
            EntryModel::Image(_) => Seq::empty(),
        }
    }
}

/// The text of an item: that of its entries, unless it is empty.
pub open spec fn item_text(entries: Seq<EntryModel>) -> Option<Seq<char>> {
    if joined_text(entries).len() > 0 {
        Some(joined_text(entries))
    } else {
        None
    }
}

impl View for ClipboardItem {
    type V = Seq<EntryModel>;

    open spec fn view(&self) -> Seq<EntryModel> {
        self.entries@.map_values(|entry: ClipboardEntry| entry@)
    }
}

impl Clone for ClipboardItem {
    fn clone(&self) -> (copy: Self)
        ensures
            copy@ == self@,
    {
        let mut entries: Vec<ClipboardEntry> = Vec::new();
        let mut i: usize = 0;
        while i < self.entries.len()
            invariant
                i <= self.entries@.len(),
                entries@.len() == i,
                forall|j: int| 0 <= j < i ==> (#[trigger] entries@[j])@ == self.entries@[j]@,
            decreases self.entries@.len() - i,
        {
            entries.push(self.entries[i].clone());
            i += 1;
        }
        let copy = ClipboardItem { entries };
        assert(copy@ =~= self@);
        copy
    }
}

impl ClipboardItem {
    /// An item that holds one text.
    pub fn new_string(text: String) -> (item: Self)
        ensures
            item@ == seq![EntryModel::Text { text: text@, metadata: None }],
    {
        let ghost view = text@;
        let mut entries: Vec<ClipboardEntry> = Vec::new();
        entries.push(ClipboardEntry::String(ClipboardString { text, metadata: None }));
        let item = ClipboardItem { entries };
        assert(item@ =~= seq![EntryModel::Text { text: view, metadata: None }]);
        item
    }

    /// An item that holds one image.
    pub fn new_image(image: &Image) -> (item: Self)
        ensures
            item@ == seq![EntryModel::Image(image@)],
    {
        let mut entries: Vec<ClipboardEntry> = Vec::new();
        entries.push(ClipboardEntry::Image(image.clone()));
        let item = ClipboardItem { entries };
        assert(item@ =~= seq![EntryModel::Image(image@)]);
        item
    }

    /// Returns the entries of the item.
    pub fn entries(&self) -> (entries: &Vec<ClipboardEntry>)
        ensures
            *entries == self.entries,
    {
        &self.entries
    }

    /// Joins the texts of the item, so that they can be pasted as one. Returns `None` when
    /// there is no text.
    pub fn text(&self) -> (text: Option<String>)
        ensures
            optional_text(text) == item_text(self@),
    {
        let mut answer = String::new();
        let mut i: usize = 0;
        while i < self.entries.len()
            invariant
                i <= self.entries@.len(),
                answer@ == joined_text(self@.take(i as int)),
            decreases self.entries@.len() - i,
        {
            proof {
                assert(self@.take(i + 1).drop_last() =~= self@.take(i as int));
                assert(self@.take(i + 1).last() == self.entries@[i as int]@);
            }
            match &self.entries[i] {
                ClipboardEntry::String(string) => {
                    answer.append(string.text.as_str());
                },
                ClipboardEntry::Image(_) => {
                    assert(answer@ + Seq::<char>::empty() =~= answer@);
                },
            }
            i += 1;
        }
        assert(self@.take(i as int) =~= self@);
        if answer.as_str().is_empty() {
            None
        } else {
            Some(answer)
        }
    }
}

} // verus!
