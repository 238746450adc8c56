//! What other programs put on a clipboard, and how it is read.

use vstd::prelude::*;
use crate::item::{
    format_order, ClipboardEntry, ClipboardItem, EntryModel, Image, ImageFormat,
    ImageModel, FORMAT_COUNT,
};
use crate::mime::{allowed_text_mimes, is_allowed_text_mime_type, string_views};
use crate::png::hash;
use crate::text::{decode_text, replaced, same_text, utf8_text, with_line_feeds};

verus! {

/// An offer of another program, of a kind `T` that the display server knows, with the mime
/// types under which it can be received.
#[derive(Debug)]
pub struct DataOffer<T> {
    pub inner: T,
    pub mime_types: Vec<String>,
}

impl<T: Clone> Clone for DataOffer<T> {
    /// The same offer, of as many mime types.
    fn clone(&self) -> (copy: Self)
        ensures
            cloned(self.inner, copy.inner),
            copy.mimes() == self.mimes(),
    {
        let mut mime_types: Vec<String> = Vec::new();
        let mut i: usize = 0;
        while i < self.mime_types.len()
            invariant
                i <= self.mime_types@.len(),
                mime_types@.len() == i,
                forall|j: int|
                    0 <= j < i ==> (#[trigger] mime_types@[j])@ == self.mime_types@[j]@,
            decreases self.mime_types@.len() - i,
        {
            mime_types.push(self.mime_types[i].clone());
            i += 1;
        }
        let copy = DataOffer { inner: self.inner.clone(), mime_types };
        assert(copy.mimes() =~= self.mimes());
        copy
    }
}

/// Which part of an offer is being received.
#[derive(Clone, Copy, Debug, PartialEq, Eq, Structural)]
pub enum ReadStage {
    Text,
    Image(ImageFormat),
}

/// What a reader of an offer does next.
pub enum ReadStep {
    /// Reading is over, with an item or with nothing.
    Done(Option<ClipboardItem>),
    /// Receive the data of a mime type, and report what came.
    Receive { mime_type: String, stage: ReadStage },
}

/// The value of a [`ReadStep`].
#[verifier::ext_equal]
pub enum StepModel {
    Done(Option<Seq<EntryModel>>),
    Receive { mime: Seq<char>, stage: ReadStage },
}

/// The value of an optional item.
pub open spec fn optional_item(item: Option<ClipboardItem>) -> Option<Seq<EntryModel>> {
    match item {
        Some(item) => Some(item@),
        None => None,
    }
}

/// The bytes of an optional reply.
pub open spec fn optional_bytes(bytes: Option<Vec<u8>>) -> Option<Seq<u8>> {
    match bytes {
        Some(bytes) => Some(bytes@),
        None => None,
    }
}

impl View for ReadStep {
    type V = StepModel;

    open spec fn view(&self) -> StepModel {
        match self {
            ReadStep::Done(item) => StepModel::Done(optional_item(*item)),
            ReadStep::Receive { mime_type, stage } => StepModel::Receive {
                mime: mime_type@,
                stage: *stage,
            },
        }
    }
}

/// The first of some mime types under which text is accepted.
pub open spec fn first_text_mime(mimes: Seq<Seq<char>>) -> Option<Seq<char>>
    decreases mimes.len(),
{
    if mimes.len() == 0 {
        None
    } else if allowed_text_mimes().contains(mimes[0]) {
        Some(mimes[0])
    } else {
        first_text_mime(mimes.skip(1))
    }
}

/// The first format, from a place in the order of preference on, whose mime type is offered.
pub open spec fn next_format(mimes: Seq<Seq<char>>, from: int) -> Option<ImageFormat>
    decreases FORMAT_COUNT - from,
{
    if from < 0 || from >= FORMAT_COUNT {
        None
    } else if mimes.contains(format_order()[from].mime()) {
        Some(format_order()[from])
    } else {
        next_format(mimes, from + 1)
    }
}

/// The step that tries the images of an offer, from a place in the order of preference on.
pub open spec fn image_step(mimes: Seq<Seq<char>>, from: int) -> StepModel {
    match next_format(mimes, from) {
        Some(format) => StepModel::Receive {
            mime: format.mime(),
            stage: ReadStage::Image(format),
        },
        None => StepModel::Done(None),
    }
}

/// The step with which an offer begins to be read.
pub open spec fn first_step(mimes: Seq<Seq<char>>) -> StepModel {
    match first_text_mime(mimes) {
        Some(mime) => StepModel::Receive { mime, stage: ReadStage::Text },
        None => image_step(mimes, 0),
    }
}

/// The item of a received text: its lines end in line feeds alone. Bytes that are no text give
/// none.
pub open spec fn text_item(bytes: Seq<u8>) -> Option<Seq<EntryModel>> {
    match utf8_text(bytes) {
        Some(text) => Some(
            seq![EntryModel::Text { text: replaced(text, "\r\n"@, "\n"@), metadata: None }],
        ),
        None => None,
    }
}

/// The item of a received image.
pub open spec fn image_item(format: ImageFormat, bytes: Seq<u8>, id: u64) -> Seq<EntryModel> {
    seq![EntryModel::Image(ImageModel { format, bytes, id })]
}

/// The step that follows a reply, `None` when nothing could be received.
pub open spec fn next_step(
    mimes: Seq<Seq<char>>,
    stage: ReadStage,
    reply: Option<Seq<u8>>,
    id: u64,
) -> StepModel {
    match stage {
        ReadStage::Text => match reply {
            Some(bytes) if text_item(bytes) is Some => StepModel::Done(text_item(bytes)),
            _ => image_step(mimes, 0),
        },
        ReadStage::Image(format) => match reply {
            Some(bytes) => StepModel::Done(Some(image_item(format, bytes, id))),
            None => image_step(mimes, format.rank() + 1),
        },
    }
}

impl<T> DataOffer<T> {
    /// The mime types under which the offer can be received.
    pub open spec fn mimes(&self) -> Seq<Seq<char>> {
        string_views(self.mime_types@)
    }

    /// An offer of which no mime type is known yet.
    pub fn new(offer: T) -> (data_offer: Self)
        ensures
            data_offer.inner == offer,
            data_offer.mimes() == Seq::<Seq<char>>::empty(),
    {
        let data_offer = DataOffer { inner: offer, mime_types: Vec::new() };
        assert(data_offer.mimes() =~= Seq::empty());
        data_offer
    }

    /// Notes one more mime type of the offer.
    pub fn add_mime_type(&mut self, mime_type: String)
        ensures
            final(self).inner == old(self).inner,
            final(self).mimes() == old(self).mimes().push(mime_type@),
    {
        self.mime_types.push(mime_type);
        assert(self.mimes() =~= old(self).mimes().push(mime_type@));
    }

    /// Whether the offer can be received under a mime type.
    pub fn has_mime_type(&self, mime_type: &str) -> (found: bool)
        ensures
            found == self.mimes().contains(mime_type@),
    {
        let mut i: usize = 0;
        while i < self.mime_types.len()
            invariant
                i <= self.mime_types@.len(),
                forall|j: int| 0 <= j < i ==> (#[trigger] self.mimes()[j]) != mime_type@,
            decreases self.mime_types@.len() - i,
        {
            assert(self.mimes()[i as int] == self.mime_types@[i as int]@);
            if same_text(self.mime_types[i].as_str(), mime_type) {
                return true;
            }
            i += 1;
        }
        false
    }

    /// Begins to read the offer: its text, when it has text, else its images.
    pub fn read_text(&self) -> (step: ReadStep)
        ensures
            step@ == first_step(self.mimes()),
    {
        let mut i: usize = 0;
        assert(self.mimes().skip(0) =~= self.mimes());
        while i < self.mime_types.len()
            invariant
                i <= self.mime_types@.len(),
                first_text_mime(self.mimes().skip(i as int)) == first_text_mime(self.mimes()),
            decreases self.mime_types@.len() - i,
        {
            assert(self.mimes().skip(i as int)[0] == self.mime_types@[i as int]@);
            assert(self.mimes().skip(i as int).skip(1) =~= self.mimes().skip(i + 1));
            if is_allowed_text_mime_type(self.mime_types[i].as_str()) {
                return ReadStep::Receive {
                    mime_type: self.mime_types[i].clone(),
                    stage: ReadStage::Text,
                };
            }
            i += 1;
        }
        assert(self.mimes().skip(i as int).len() == 0);
        self.read_image(0)
    }

    /// Goes on with the images of the offer, from a place in the order of preference on.
    pub fn read_image(&self, from: usize) -> (step: ReadStep)
        ensures
            step@ == image_step(self.mimes(), from as int),
    {
        let mut i: usize = from;
        while i < FORMAT_COUNT
            invariant
                from <= i,
                from <= FORMAT_COUNT ==> i <= FORMAT_COUNT,
                next_format(self.mimes(), i as int) == next_format(self.mimes(), from as int),
            decreases FORMAT_COUNT - i,
        {
            match ImageFormat::at(i) {
                Some(format) => {
                    if self.has_mime_type(format.mime_type()) {
                        return ReadStep::Receive {
                            mime_type: format.mime_type().to_owned(),
                            stage: ReadStage::Image(format),
                        };
                    }
                },
                None => {},
            }
            i += 1;
        }
        ReadStep::Done(None)
    }

    /// Goes on once the data of a mime type is received, `None` when it could not be.
    pub fn received(&self, stage: ReadStage, bytes: Option<Vec<u8>>) -> (step: ReadStep)
        ensures
            exists|id: u64|
                step@ == #[trigger] next_step(self.mimes(), stage, optional_bytes(bytes), id),
    {
        let id: u64 = match (stage, &bytes) {
            (ReadStage::Image(_), Some(bytes)) => hash(bytes),
            _ => 0,
        };
        self.received_as(stage, bytes, id)
    }

    /// Goes on once the data of a mime type is received, with a given identifier for an image.
    pub fn received_as(&self, stage: ReadStage, bytes: Option<Vec<u8>>, id: u64) -> (step:
        ReadStep)
        ensures
            step@ == next_step(self.mimes(), stage, optional_bytes(bytes), id),
    {
        match stage {
            ReadStage::Text => {
                let item = match bytes {
                    Some(bytes) => text_from_bytes(bytes),
                    None => None,
                };
                match item {
                    Some(item) => ReadStep::Done(Some(item)),
                    None => self.read_image(0),
                }
            },
            ReadStage::Image(format) => match bytes {
                Some(bytes) => {
                    let mut entries: Vec<ClipboardEntry> = Vec::new();
                    entries.push(ClipboardEntry::Image(Image { format, bytes, id }));
                    let item = ClipboardItem { entries };
                    assert(item@ =~= image_item(format, bytes@, id));
                    ReadStep::Done(Some(item))
                },
                None => self.read_image(format.index() + 1),
            },
        }
    }
}

/// The item of a received text.
pub fn text_from_bytes(bytes: Vec<u8>) -> (item: Option<ClipboardItem>)
    ensures
        optional_item(item) == text_item(bytes@),
{
    match decode_text(bytes) {
        Some(text) => {
            let result = with_line_feeds(text.as_str());
            Some(ClipboardItem::new_string(result))
        },
        None => None,
    }
}

/// A selection of another program, and what was last read of it.
pub struct ExternalSelection<T> {
    pub cached_read: Option<ClipboardItem>,
    pub current_offer: Option<DataOffer<T>>,
}

impl<T> ExternalSelection<T> {
    /// A selection without an offer.
    pub fn new() -> (selection: Self)
        ensures
            selection.cached_read is None,
            selection.current_offer is None,
    {
        ExternalSelection { cached_read: None, current_offer: None }
    }

    /// Puts an offer, or none, in place of the present one. What was read of that is
    /// forgotten, however much the two are alike.
    pub fn set_offer(&mut self, offer: Option<DataOffer<T>>)
        ensures
            final(self).cached_read is None,
            final(self).current_offer == offer,
    {
        self.cached_read = None;
        self.current_offer = offer;
    }
}

} // verus!
