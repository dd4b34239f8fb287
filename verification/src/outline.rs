//! Feed lists: outline documents whose entries name feeds.

use vstd::prelude::*;
use crate::podchiver::{feed_document, podcast_of, text_in, Podcast, PodcastView};

verus! {

/// What an outline document holds of one of its top-level entries.
pub struct OutlineEntry {
    /// The text shown for the entry: the feed's name.
    pub text: Seq<char>,
    /// The address of the feed, where the entry names one.
    pub xml_url: Option<Seq<char>>,
}

/// One top-level entry of an outline document, as it was read.
pub struct FeedOutline {
    pub text: String,
    pub xml_url: Option<String>,
}

impl View for FeedOutline {
    type V = OutlineEntry;

    open spec fn view(&self) -> OutlineEntry {
        OutlineEntry { text: self.text@, xml_url: text_in(self.xml_url) }
    }
}

/// What `outlines` hold.
pub open spec fn outline_entries(outlines: Seq<FeedOutline>) -> Seq<OutlineEntry> {
    outlines.map_values(|outline: FeedOutline| outline@)
}

/// A feed to fetch: its name in the list, and its address.
pub struct FeedRequest {
    pub title: String,
    pub url: String,
}

/// What a [`FeedRequest`] stands for.
pub struct FeedRequestView {
    pub title: Seq<char>,
    pub url: Seq<char>,
}

impl View for FeedRequest {
    type V = FeedRequestView;

    open spec fn view(&self) -> FeedRequestView {
        FeedRequestView { title: self.title@, url: self.url@ }
    }
}

/// What `requests` stand for.
pub open spec fn request_views(requests: Seq<FeedRequest>) -> Seq<FeedRequestView> {
    requests.map_values(|request: FeedRequest| request@)
}

/// Why a document could not be read as a feed list.
#[derive(Clone, Copy, Debug, PartialEq, Eq)]
pub enum OutlineParseError {
    /// The body of the document has no entry.
    BodyHasNoOutlines,
    /// The document could not be read.
    Io,
    /// The document states a version other than 1.0, 1.1 and 2.0.
    UnsupportedVersion,
    /// The document is not the XML of an outline.
    Xml,
}

/// The error of `opml::OPML::from_str`.
#[verifier::external_type_specification]
#[verifier::external_body]
pub struct ExOpmlError(opml::Error);

/// What `opml::OPML::from_str` reads from the document `xml`: of each
/// top-level entry of the body in turn, the text and the feed's address; or
/// `None` where it reports an error.
pub uninterp spec fn outline_document(xml: Seq<char>) -> Option<Seq<OutlineEntry>>;

/// Calls `opml::OPML::from_str` on `xml`. From the document it returns, the
/// text and the feed's address of every top-level entry of the body are moved
/// over, in their order. What the call reads is not stated here, only named.
#[verifier::external_body]
fn read_outlines(xml: &str) -> (outlines: Result<Vec<FeedOutline>, opml::Error>)
    ensures
        outlines matches Ok(o) ==> outline_document(xml@) == Some(outline_entries(o@)),
        outlines is Err ==> outline_document(xml@) is None,
{
    let document = opml::OPML::from_str(xml)?;
    Ok(
        document.body.outlines.into_iter().map(
            |outline| FeedOutline { text: outline.text, xml_url: outline.xml_url },
        ).collect(),
    )
}

/// Tells the variants of `opml::Error` apart. Nothing is claimed of which
/// variant a document gives.
#[verifier::external_body]
fn outline_error_kind(error: &opml::Error) -> OutlineParseError {
    match error {
        opml::Error::BodyHasNoOutlines => OutlineParseError::BodyHasNoOutlines,
        opml::Error::IoError(_) => OutlineParseError::Io,
        opml::Error::UnsupportedVersion(_) => OutlineParseError::UnsupportedVersion,
        opml::Error::XmlError(_) => OutlineParseError::Xml,
    }
}

/// Whether `entry` names a feed.
pub open spec fn names_feed(entry: OutlineEntry) -> bool {
    entry.xml_url is Some
}

/// [`names_feed`], as a predicate to filter by.
pub open spec fn naming_feed() -> spec_fn(OutlineEntry) -> bool {
    |entry: OutlineEntry| names_feed(entry)
}

/// The request for the feed that `entry` names.
pub open spec fn request_of(entry: OutlineEntry) -> FeedRequestView {
    FeedRequestView { title: entry.text, url: entry.xml_url->0 }
}

/// [`request_of`], as a function to map by.
pub open spec fn to_request() -> spec_fn(OutlineEntry) -> FeedRequestView {
    |entry: OutlineEntry| request_of(entry)
}

/// The feeds to fetch for `entries`: one for every entry that names a feed,
/// in the order of the entries.
pub open spec fn requests_of(entries: Seq<OutlineEntry>) -> Seq<FeedRequestView> {
    entries.filter(naming_feed()).map_values(to_request())
}

/// The podcasts that one entry of a feed list gives: the one that `body`
/// describes, where the entry names a feed, its document `body` was fetched,
/// and the document can be read as a feed; none otherwise.
pub open spec fn podcasts_of_outline(entry: OutlineEntry, body: Option<Seq<char>>) -> Seq<
    PodcastView,
> {
    match (entry.xml_url, body) {
        (Some(url), Some(xml)) => match feed_document(xml) {
            Some(document) => seq![podcast_of(document)],
            None => Seq::empty(),
        },
        _ => Seq::empty(),
    }
}

/// What `podcasts` stand for.
pub open spec fn podcast_views(podcasts: Seq<Podcast>) -> Seq<PodcastView> {
    podcasts.map_values(|podcast: Podcast| podcast@)
}

/// Reads the outline document `xml` as a feed list: its top-level entries,
/// in the order of the document.
pub fn parse_outlines(xml: &str) -> (outlines: Result<Vec<FeedOutline>, OutlineParseError>)
    ensures
        outlines is Ok <==> outline_document(xml@) is Some,
        outlines matches Ok(o) ==> outline_entries(o@) == outline_document(xml@)->0,
{
    match read_outlines(xml) {
        Ok(outlines) => Ok(outlines),
        Err(error) => Err(outline_error_kind(&error)),
    }
}

/// The feeds to fetch for a feed list: one for every entry that names a
/// feed, in the order of the list. Entries without an address are passed
/// over.
pub fn feed_requests(outlines: &Vec<FeedOutline>) -> (requests: Vec<FeedRequest>)
    ensures
        request_views(requests@) == requests_of(outline_entries(outlines@)),
{
    let ghost entries = outline_entries(outlines@);
    let mut requests: Vec<FeedRequest> = Vec::new();
    proof {
        reveal(Seq::filter);
        assert(request_views(requests@) =~= requests_of(entries.take(0)));
    }
    let mut i: usize = 0;
    while i < outlines.len()
        invariant
            i <= outlines.len(),
            entries == outline_entries(outlines@),
            request_views(requests@) == requests_of(entries.take(i as int)),
        decreases outlines.len() - i,
    {
        let outline = &outlines[i];
        let ghost done = entries.take(i as int);
        let ghost entry = outline@;
        let ghost before = request_views(requests@);
        proof {
            assert(entry == entries[i as int]);
            assert(entries.take(i + 1) =~= done.push(entry));
            done.lemma_filter_push(entry, naming_feed());
        }
        match &outline.xml_url {
            Some(url) => {
                let request = FeedRequest { title: outline.text.clone(), url: url.clone() };
                requests.push(request);
                proof {
                    assert(request_views(requests@) =~= before.push(request_of(entry)));
                    assert(done.filter(naming_feed()).push(entry).map_values(to_request())
                        =~= done.filter(naming_feed()).map_values(to_request()).push(
                        request_of(entry),
                    ));
                }
            },
            None => {},
        }
        i += 1;
    }
    proof {
        assert(entries.take(outlines@.len() as int) =~= entries);
    }
    requests
}

/// The podcasts that one entry of a feed list gives.
///
/// `body` is the document fetched from the address that the entry names, or
/// `None` where nothing was fetched. A document that cannot be read as a
/// feed gives no podcast, and no error: the other entries are not affected.
pub fn process_outline(outline: &FeedOutline, body: Option<&str>) -> (podcasts: Vec<Podcast>)
    ensures
        podcast_views(podcasts@) == podcasts_of_outline(
            outline@,
            match body {
                Some(xml) => Some(xml@),
                None => None,
            },
        ),
        podcasts@.len() <= 1,
{
    let mut podcasts: Vec<Podcast> = Vec::new();
    assert(podcast_views(podcasts@) =~= Seq::<PodcastView>::empty());
    if outline.xml_url.is_some() {
        match body {
            Some(xml) => match Podcast::new(xml) {
                Ok(podcast) => {
                    podcasts.push(podcast);
                    assert(podcast_views(podcasts@) =~= seq![podcast@]);
                },
                Err(_) => {},
            },
            None => {},
        }
    }
    podcasts
}

} // verus!
