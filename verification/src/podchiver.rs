//! Feeds and their episodes: what a feed document holds, which of its items
//! become episodes, and the names under which an episode and a feed are
//! saved.

use vstd::prelude::*;
use crate::rfc2822::{moment_of_text, parse_timestamp};
use crate::sanitize::{
    all_path_safe,
    decode_entities,
    entities_decoded,
    path_safe,
    sanitize_string,
    sanitized,
    strip_unsafe,
};
use crate::text::{chars_of, push_chars};
use crate::timestamp::{moment_in, stamp_text, Moment, Timestamp};

verus! {

/// The text in `text`, where there is one.
pub open spec fn text_in(text: Option<String>) -> Option<Seq<char>> {
    match text {
        Some(t) => Some(t@),
        None => None,
    }
}

/// What a feed document holds of one item.
pub struct ItemDocument {
    pub title: Option<Seq<char>>,
    /// The publication date, as the document writes it.
    pub pub_date: Option<Seq<char>>,
    /// The address of the enclosed media file.
    pub enclosure_url: Option<Seq<char>>,
}

/// What a feed document holds: the channel's title, and its items in the
/// order of the document.
pub struct FeedDocument {
    pub title: Seq<char>,
    pub items: Seq<ItemDocument>,
}

/// One item of a feed document, as it was read.
pub struct RawItem {
    pub title: Option<String>,
    pub pub_date: Option<String>,
    pub enclosure_url: Option<String>,
}

impl View for RawItem {
    type V = ItemDocument;

    open spec fn view(&self) -> ItemDocument {
        ItemDocument {
            title: text_in(self.title),
            pub_date: text_in(self.pub_date),
            enclosure_url: text_in(self.enclosure_url),
        }
    }
}

/// A feed document, as it was read.
pub struct RawChannel {
    pub title: String,
    pub items: Vec<RawItem>,
}

/// What `items` hold.
pub open spec fn item_documents(items: Seq<RawItem>) -> Seq<ItemDocument> {
    items.map_values(|item: RawItem| item@)
}

impl View for RawChannel {
    type V = FeedDocument;

    open spec fn view(&self) -> FeedDocument {
        FeedDocument { title: self.title@, items: item_documents(self.items@) }
    }
}

/// Why a document could not be read as a feed.
#[derive(Clone, Copy, Debug, PartialEq, Eq)]
pub enum FeedParseError {
    /// Some bytes of the document are not UTF-8.
    Utf8,
    /// The document is not well-formed XML.
    Xml,
    /// The document does not begin with an `rss` element.
    InvalidStartTag,
    /// The document ends before a channel is complete.
    Eof,
}

/// The error of `rss::Channel::read_from`.
#[verifier::external_type_specification]
#[verifier::external_body]
pub struct ExRssError(rss::Error);

/// What `rss::Channel::read_from` reads from the document `xml`: the
/// channel's title and, of each item in turn, the title, the publication date
/// and the enclosure's address; or `None` where it reports an error.
pub uninterp spec fn feed_document(xml: Seq<char>) -> Option<FeedDocument>;

/// The path of the address `url`, as `url::Url::parse` and then `Url::path`
/// give it; or `None` where `url` does not parse as an absolute address.
pub uninterp spec fn url_path(url: Seq<char>) -> Option<Seq<char>>;

/// Calls `rss::Channel::read_from` on the bytes of `xml`. From the channel
/// it returns, the title is moved over, and of every item the title, the
/// publication date and the address of the enclosure, in the order of the
/// items. What the call reads is not stated here, only named.
#[verifier::external_body]
fn read_channel(xml: &str) -> (channel: Result<RawChannel, rss::Error>)
    ensures
        channel matches Ok(c) ==> feed_document(xml@) == Some(c@),
        channel is Err ==> feed_document(xml@) is None,
{
    let channel = rss::Channel::read_from(xml.as_bytes())?;
    let items = channel.items.into_iter().map(
        |item| RawItem {
            title: item.title,
            pub_date: item.pub_date,
            enclosure_url: item.enclosure.map(|enclosure| enclosure.url),
        },
    ).collect();
    Ok(RawChannel { title: channel.title, items })
}

/// Tells the variants of `rss::Error` apart. Nothing is claimed of which
/// variant a document gives.
#[verifier::external_body]
fn error_kind(error: &rss::Error) -> FeedParseError {
    match error {
        rss::Error::Utf8(_) => FeedParseError::Utf8,
        rss::Error::Xml(_) => FeedParseError::Xml,
        rss::Error::InvalidStartTag => FeedParseError::InvalidStartTag,
        rss::Error::Eof => FeedParseError::Eof,
    }
}

/// Calls `url::Url::parse` on `url` and, where that succeeds, `Url::path` on
/// the result. What the calls give is not stated here, only named.
#[verifier::external_body]
fn path_of_url(url: &str) -> (path: Option<String>)
    ensures
        text_in(path) == url_path(url@),
{
    match url::Url::parse(url) {
        Ok(parsed) => Some(parsed.path().to_string()),
        Err(_) => None,
    }
}

/// What an [`Episode`] stands for.
pub struct EpisodeView {
    pub title: Option<Seq<char>>,
    pub url: Seq<char>,
    pub publish_time: Option<Moment>,
}

/// What a [`Podcast`] stands for.
pub struct PodcastView {
    pub title: Seq<char>,
    pub episodes: Seq<EpisodeView>,
}

/// One episode of a podcast: a media file at an address, with the title and
/// the time of publication where the feed gives them.
pub struct Episode {
    pub title: Option<String>,
    pub url: String,
    pub publish_time: Option<Timestamp>,
}

impl View for Episode {
    type V = EpisodeView;

    open spec fn view(&self) -> EpisodeView {
        EpisodeView {
            title: text_in(self.title),
            url: self.url@,
            publish_time: moment_in(self.publish_time),
        }
    }
}

/// A podcast: its title, and its episodes in the order of the feed.
pub struct Podcast {
    pub title: String,
    pub episodes: Vec<Episode>,
}

/// What `episodes` stand for.
pub open spec fn episode_views(episodes: Seq<Episode>) -> Seq<EpisodeView> {
    episodes.map_values(|episode: Episode| episode@)
}

impl View for Podcast {
    type V = PodcastView;

    open spec fn view(&self) -> PodcastView {
        PodcastView { title: self.title@, episodes: episode_views(self.episodes@) }
    }
}

/// Whether `episode` can be fetched: its address parses.
pub open spec fn is_fetchable(episode: EpisodeView) -> bool {
    url_path(episode.url) is Some
}

/// Whether `item` becomes an episode: it has an enclosure, and the
/// enclosure's address parses.
pub open spec fn is_usable(item: ItemDocument) -> bool {
    item.enclosure_url matches Some(url) && url_path(url) is Some
}

/// [`is_usable`], as a predicate to filter by.
pub open spec fn usable() -> spec_fn(ItemDocument) -> bool {
    |item: ItemDocument| is_usable(item)
}

/// The time that `item` was published at: what its date denotes, where it has
/// a date and the date denotes a moment.
pub open spec fn publish_time_of(item: ItemDocument) -> Option<Moment> {
    match item.pub_date {
        Some(date) => moment_of_text(date),
        None => None,
    }
}

/// The episode that a usable `item` becomes.
pub open spec fn episode_of(item: ItemDocument) -> EpisodeView {
    EpisodeView {
        title: item.title,
        url: item.enclosure_url->0,
        publish_time: publish_time_of(item),
    }
}

/// [`episode_of`], as a function to map by.
pub open spec fn to_episode() -> spec_fn(ItemDocument) -> EpisodeView {
    |item: ItemDocument| episode_of(item)
}

/// The episodes that `items` become: one of every usable item, in the order
/// of the items.
pub open spec fn episodes_of(items: Seq<ItemDocument>) -> Seq<EpisodeView> {
    items.filter(usable()).map_values(to_episode())
}

/// The podcast that `document` describes.
pub open spec fn podcast_of(document: FeedDocument) -> PodcastView {
    PodcastView { title: document.title, episodes: episodes_of(document.items) }
}

/// The number of `items` that do not become an episode.
pub open spec fn unusable_count(items: Seq<ItemDocument>) -> nat
    decreases items.len(),
{
    if items.len() == 0 {
        0
    } else if is_usable(items.last()) {
        unusable_count(items.drop_last())
    } else {
        unusable_count(items.drop_last()) + 1
    }
}

/// The number of `items` that have no enclosure.
pub open spec fn without_enclosure_count(items: Seq<ItemDocument>) -> nat
    decreases items.len(),
{
    if items.len() == 0 {
        0
    } else if items.last().enclosure_url is Some {
        without_enclosure_count(items.drop_last())
    } else {
        without_enclosure_count(items.drop_last()) + 1
    }
}

/// The places in `items` of the items that become episodes, in rising order.
pub open spec fn usable_positions(items: Seq<ItemDocument>) -> Seq<int>
    decreases items.len(),
{
    if items.len() == 0 {
        Seq::empty()
    } else if is_usable(items.last()) {
        usable_positions(items.drop_last()).push(items.len() - 1)
    } else {
        usable_positions(items.drop_last())
    }
}

/// Of the items of a feed, exactly the usable ones become episodes, each
/// once, and in the order in which the items stand: the episodes are as many
/// as the items less the unusable ones, and the episode at each place is made
/// of the usable item at the corresponding place, these places rising.
pub proof fn lemma_episodes_keep_order(items: Seq<ItemDocument>)
    ensures
        episodes_of(items).len() + unusable_count(items) == items.len(),
        usable_positions(items).len() == episodes_of(items).len(),
        forall|k: int|
            #![trigger usable_positions(items)[k]]
            0 <= k < usable_positions(items).len() ==> {
                &&& 0 <= usable_positions(items)[k] < items.len()
                &&& is_usable(items[usable_positions(items)[k]])
                &&& episodes_of(items)[k] == episode_of(items[usable_positions(items)[k]])
            },
        forall|j: int, k: int|
            0 <= j < k < usable_positions(items).len() ==> usable_positions(items)[j]
                < usable_positions(items)[k],
        forall|i: int|
            0 <= i < items.len() && is_usable(items[i]) ==> usable_positions(items).contains(i),
    decreases items.len(),
{
    reveal(Seq::filter);
    if items.len() == 0 {
        assert(episodes_of(items) =~= Seq::<EpisodeView>::empty());
    } else {
        let init = items.drop_last();
        let last = items.last();
        lemma_episodes_keep_order(init);
        assert(init.push(last) =~= items);
        init.lemma_filter_push(last, usable());
        let places = usable_positions(items);
        if is_usable(last) {
            assert(episodes_of(items) =~= episodes_of(init).push(episode_of(last)));
            assert(places[places.len() - 1] == items.len() - 1);
        } else {
            assert(episodes_of(items) =~= episodes_of(init));
        }
        assert forall|k: int| #![trigger places[k]] 0 <= k < places.len() implies {
            &&& 0 <= places[k] < items.len()
            &&& is_usable(items[places[k]])
            &&& episodes_of(items)[k] == episode_of(items[places[k]])
        } by {
            if k < usable_positions(init).len() {
                assert(places[k] == usable_positions(init)[k]);
                assert(items[places[k]] == init[places[k]]);
            }
        }
        assert forall|j: int, k: int| 0 <= j < k < places.len() implies places[j] < places[k] by {
            assert(places[j] == usable_positions(init)[j]);
            if k < usable_positions(init).len() {
                assert(places[k] == usable_positions(init)[k]);
            }
        }
        assert forall|i: int| 0 <= i < items.len() && is_usable(items[i]) implies places.contains(
            i,
        ) by {
            if i < init.len() {
                assert(init[i] == items[i]);
                assert(usable_positions(init).contains(i));
                let k = choose|k: int|
                    0 <= k < usable_positions(init).len() && usable_positions(init)[k] == i;
                assert(places[k] == i);
            } else {
                assert(places[places.len() - 1] == i);
            }
        }
    }
}

/// Where every enclosure that a feed names has an address that parses, the
/// episodes are as many as the items less those without an enclosure.
pub proof fn lemma_episode_count(items: Seq<ItemDocument>)
    requires
        forall|i: int|
            0 <= i < items.len() && (#[trigger] items[i]).enclosure_url is Some ==> is_usable(
                items[i],
            ),
    ensures
        episodes_of(items).len() == items.len() - without_enclosure_count(items),
        unusable_count(items) == without_enclosure_count(items),
    decreases items.len(),
{
    lemma_episodes_keep_order(items);
    if items.len() > 0 {
        let init = items.drop_last();
        assert forall|i: int|
            0 <= i < init.len() && (#[trigger] init[i]).enclosure_url is Some implies is_usable(
            init[i],
        ) by {
            assert(init[i] == items[i]);
        }
        lemma_episode_count(init);
        lemma_episodes_keep_order(init);
        assert(items.last() == items[items.len() - 1]);
    }
}

/// The name given to an episode for which none can be derived.
pub open spec fn fallback_name() -> Seq<char> {
    seq!['o', 'u', 't']
}

/// The extension of the file at `path`: what follows the last `.` of the
/// path, or `None` where the path has no `.`.
pub open spec fn extension_of(path: Seq<char>) -> Option<Seq<char>>
    decreases path.len(),
{
    if path.len() == 0 {
        None
    } else if path.last() == '.' {
        Some(Seq::empty())
    } else {
        match extension_of(path.drop_last()) {
            Some(extension) => Some(extension.push(path.last())),
            None => None,
        }
    }
}

/// What is put before the name of an episode published at `time`: the time
/// in compact UTC notation and an underscore, where a prefix is asked for and
/// the time is known; nothing otherwise.
pub open spec fn date_prefix(time: Option<Moment>, use_date_prefix: bool) -> Seq<char> {
    match time {
        Some(moment) => if use_date_prefix {
            stamp_text(moment) + seq!['_']
        } else {
            Seq::empty()
        },
        None => Seq::empty(),
    }
}

/// The file name of an episode, from its title with the character references
/// decoded, the path of its address, and its time of publication.
///
/// Where the title is missing, the address did not parse, or the path has no
/// extension, the name is the fallback. Otherwise it is the date prefix, the
/// title without the characters that no path segment may hold, a `.`, and the
/// extension.
pub open spec fn filename_from(
    decoded_title: Option<Seq<char>>,
    path: Option<Seq<char>>,
    time: Option<Moment>,
    use_date_prefix: bool,
) -> Seq<char> {
    match (decoded_title, path) {
        (Some(title), Some(path)) => match extension_of(path) {
            Some(extension) => date_prefix(time, use_date_prefix) + title.filter(path_safe())
                + seq!['.'] + extension,
            None => fallback_name(),
        },
        _ => fallback_name(),
    }
}

/// `title` with its character references decoded, where there is a title.
pub open spec fn decoded_title(title: Option<Seq<char>>) -> Option<Seq<char>> {
    match title {
        Some(t) => Some(entities_decoded(t)),
        None => None,
    }
}

/// The file name of `episode`.
pub open spec fn filename_of(episode: EpisodeView, use_date_prefix: bool) -> Seq<char> {
    filename_from(
        decoded_title(episode.title),
        url_path(episode.url),
        episode.publish_time,
        use_date_prefix,
    )
}

/// The extension of a path is what follows its last `.`: it holds no `.`
/// itself. A path has no extension exactly where it holds no `.`.
pub proof fn lemma_extension_of(path: Seq<char>)
    ensures
        extension_of(path) is None <==> !path.contains('.'),
        extension_of(path) matches Some(extension) ==> {
            &&& !extension.contains('.')
            &&& extension.len() < path.len()
            &&& path[path.len() - extension.len() - 1] == '.'
            &&& extension == path.skip(path.len() - extension.len())
        },
    decreases path.len(),
{
    if path.len() == 0 {
        assert(!path.contains('.'));
    } else if path.last() == '.' {
        assert(path[path.len() - 1] == '.');
        assert(path.contains('.'));
        assert(path.skip(path.len() as int) =~= Seq::<char>::empty());
        assert(!Seq::<char>::empty().contains('.'));
    } else {
        let init = path.drop_last();
        lemma_extension_of(init);
        match extension_of(init) {
            Some(rest) => {
                let extension = rest.push(path.last());
                let dot = init.len() - rest.len() - 1;
                assert(init[dot] == '.');
                assert(path[dot] == '.');
                assert(path.contains('.'));
                assert(extension =~= path.skip(path.len() - extension.len()));
                assert forall|i: int| 0 <= i < extension.len() implies extension[i] != '.' by {
                    if i < rest.len() {
                        assert(rest.contains(rest[i]));
                    }
                }
            },
            None => {
                assert forall|i: int| 0 <= i < path.len() implies path[i] != '.' by {
                    if i < init.len() {
                        assert(init.contains(init[i]));
                    }
                }
            },
        }
    }
}

/// Whether no name can be derived from the given parts, so that the
/// fallback is used: the title is missing, the address did not parse, or the
/// path has no extension.
pub open spec fn needs_fallback(decoded_title: Option<Seq<char>>, path: Option<Seq<char>>) -> bool {
    decoded_title is None || path is None || extension_of(path->0) is None
}

/// The fallback name is given only where no name can be derived: every
/// derived name holds a `.`, and the fallback holds none.
pub proof fn lemma_fallback_is_distinct(
    decoded_title: Option<Seq<char>>,
    path: Option<Seq<char>>,
    time: Option<Moment>,
    use_date_prefix: bool,
)
    ensures
        filename_from(decoded_title, path, time, use_date_prefix) == fallback_name()
            <==> needs_fallback(decoded_title, path),
        !needs_fallback(decoded_title, path) ==> filename_from(
            decoded_title,
            path,
            time,
            use_date_prefix,
        ).contains('.'),
{
    if !needs_fallback(decoded_title, path) {
        let front = date_prefix(time, use_date_prefix) + decoded_title->0.filter(path_safe());
        let extension = extension_of(path->0)->0;
        let name = filename_from(decoded_title, path, time, use_date_prefix);
        assert(name == front + seq!['.'] + extension);
        assert(name[front.len() as int] == '.');
        assert(name.contains('.'));
        assert(!fallback_name().contains('.')) by {
            assert(fallback_name().len() == 3);
            assert(fallback_name()[0] == 'o');
            assert(fallback_name()[1] == 'u');
            assert(fallback_name()[2] == 't');
        }
    }
}

/// Where `path` has a `.` just before `from` and none from there on, its
/// extension is what stands from `from` on.
proof fn lemma_extension_after_last_dot(path: Seq<char>, from: int)
    requires
        1 <= from <= path.len(),
        path[from - 1] == '.',
        forall|k: int| from <= k < path.len() ==> path[k] != '.',
    ensures
        extension_of(path) == Some(path.skip(from)),
    decreases path.len(),
{
    if from == path.len() {
        assert(path.skip(from) =~= Seq::<char>::empty());
    } else {
        let init = path.drop_last();
        lemma_extension_after_last_dot(init, from);
        assert(init.skip(from).push(path.last()) =~= path.skip(from));
    }
}

/// A path without a `.` has no extension.
proof fn lemma_extension_without_dot(path: Seq<char>)
    requires
        forall|k: int| 0 <= k < path.len() ==> path[k] != '.',
    ensures
        extension_of(path) is None,
    decreases path.len(),
{
    if path.len() > 0 {
        lemma_extension_without_dot(path.drop_last());
    }
}

/// The extension of the file at `path`.
pub fn file_extension(path: &Vec<char>) -> (extension: Option<Vec<char>>)
    ensures
        (match extension {
            Some(e) => Some(e@),
            None => None,
        }) == extension_of(path@),
{
    let mut from: usize = path.len();
    while from > 0 && path[from - 1] != '.'
        invariant
            from <= path.len(),
            forall|k: int| from <= k < path.len() ==> path@[k] != '.',
        decreases from,
    {
        from -= 1;
    }
    if from == 0 {
        proof {
            lemma_extension_without_dot(path@);
        }
        None
    } else {
        proof {
            lemma_extension_after_last_dot(path@, from as int);
        }
        let mut extension: Vec<char> = Vec::new();
        let mut i: usize = from;
        while i < path.len()
            invariant
                from <= i <= path.len(),
                extension@ == path@.subrange(from as int, i as int),
            decreases path.len() - i,
        {
            extension.push(path[i]);
            i += 1;
            assert(extension@ =~= path@.subrange(from as int, i as int));
        }
        assert(extension@ =~= path@.skip(from as int));
        Some(extension)
    }
}

/// The name given to an episode for which none can be derived.
pub fn fallback() -> (name: String)
    ensures
        name@ == fallback_name(),
{
    let mut name = String::new();
    name.push('o');
    name.push('u');
    name.push('t');
    assert(name@ =~= fallback_name());
    name
}

/// Puts the file name of an episode together.
///
/// `decoded_title` is the episode's title with its character references
/// decoded, `path` the path of its address where the address parsed, and
/// `publish_time` its time of publication.
pub fn compose_filename(
    decoded_title: Option<&str>,
    path: Option<&str>,
    publish_time: Option<Timestamp>,
    use_date_prefix: bool,
) -> (name: String)
    ensures
        name@ == filename_from(
            match decoded_title {
                Some(t) => Some(t@),
                None => None,
            },
            match path {
                Some(p) => Some(p@),
                None => None,
            },
            moment_in(publish_time),
            use_date_prefix,
        ),
{
    let (title, path) = match (decoded_title, path) {
        (Some(title), Some(path)) => (title, path),
        _ => { return fallback(); },
    };
    let path_chars = chars_of(path);
    let extension = match file_extension(&path_chars) {
        Some(extension) => extension,
        None => { return fallback(); },
    };
    let mut name = String::new();
    match publish_time {
        Some(time) => {
            if use_date_prefix {
                time.push_stamp(&mut name);
                let ghost stamp = name@;
                name.push('_');
                assert(name@ =~= stamp_text(time@) + seq!['_']);
            }
        },
        None => {},
    }
    assert(name@ =~= date_prefix(moment_in(publish_time), use_date_prefix));
    let kept = strip_unsafe(title);
    let kept_chars = chars_of(kept.as_str());
    push_chars(&mut name, &kept_chars);
    let ghost titled = name@;
    name.push('.');
    assert(name@ =~= titled + seq!['.']);
    push_chars(&mut name, &extension);
    name
}

/// Makes an episode of `item`, where it is usable.
///
/// `url_parses` says whether the address of the item's enclosure parses. The
/// result is `None` where the item has no enclosure or its address does not
/// parse. A date that is missing or not understood leaves the episode
/// without a time of publication.
pub fn episode_from(item: RawItem, url_parses: bool) -> (episode: Option<Episode>)
    ensures
        episode is Some <==> item@.enclosure_url is Some && url_parses,
        episode matches Some(e) ==> e@ == episode_of(item@),
{
    let url = match item.enclosure_url {
        Some(url) => url,
        None => { return None; },
    };
    if !url_parses {
        return None;
    }
    let publish_time = match &item.pub_date {
        Some(date) => parse_timestamp(date.as_str()),
        None => None,
    };
    Some(Episode { title: item.title, url, publish_time })
}

impl Episode {
    /// The name under which the episode is saved.
    ///
    /// It is the title, made safe for a path, a `.`, and the extension of the
    /// file that the address names. With `use_date_prefix`, and where the
    /// time of publication is known, that time stands before it, as
    /// `YYYYMMDD-HHMMSSZ_`. The extension is taken as the address has it, and
    /// is not made safe. An episode without a title, or with an address that
    /// does not parse or names no extension, gets the fallback name `out`;
    /// episodes that get it share it.
    pub fn filename(&self, use_date_prefix: bool) -> (name: String)
        ensures
            name@ == filename_of(self@, use_date_prefix),
    {
        let path = path_of_url(self.url.as_str());
        let decoded = match &self.title {
            Some(title) => Some(decode_entities(title.as_str())),
            None => None,
        };
        compose_filename(
            match &decoded {
                Some(title) => Some(title.as_str()),
                None => None,
            },
            match &path {
                Some(path) => Some(path.as_str()),
                None => None,
            },
            self.publish_time,
            use_date_prefix,
        )
    }

    /// Whether the episode's address parses, as it does for every episode
    /// that was read from a feed.
    pub fn is_fetchable(&self) -> (r: bool)
        ensures
            r == is_fetchable(self@),
    {
        path_of_url(self.url.as_str()).is_some()
    }
}

impl Podcast {
    /// Reads the feed document `xml`.
    ///
    /// Every item with an enclosure whose address parses becomes an episode;
    /// the others are passed over. The order of the document is kept. The
    /// result is an error where the document cannot be read as a feed at all.
    pub fn new(xml: &str) -> (podcast: Result<Podcast, FeedParseError>)
        ensures
            podcast is Ok <==> feed_document(xml@) is Some,
            podcast matches Ok(p) ==> p@ == podcast_of(feed_document(xml@)->0) && forall|i: int|
                0 <= i < p@.episodes.len() ==> is_fetchable(#[trigger] p@.episodes[i]),
    {
        match read_channel(xml) {
            Ok(channel) => Ok(Podcast::from_channel(channel)),
            Err(error) => Err(error_kind(&error)),
        }
    }

    /// The podcast that the feed document `channel` describes.
    pub fn from_channel(channel: RawChannel) -> (podcast: Podcast)
        ensures
            podcast@ == podcast_of(channel@),
            forall|i: int|
                0 <= i < podcast@.episodes.len() ==> is_fetchable(#[trigger] podcast@.episodes[i]),
    {
        let ghost documents = item_documents(channel.items@);
        let title = channel.title;
        let items = channel.items;
        let ghost all = items@;
        let mut episodes: Vec<Episode> = Vec::new();
        proof {
            reveal(Seq::filter);
            assert(episode_views(episodes@) =~= episodes_of(documents.take(0)));
        }
        for item in it: items
            invariant
                it.seq() == all,
                documents == item_documents(all),
                episode_views(episodes@) == episodes_of(documents.take(it.index())),
                forall|i: int|
                    0 <= i < episodes@.len() ==> is_fetchable(
                        #[trigger] episode_views(episodes@)[i],
                    ),
        {
            let ghost done = documents.take(it.index());
            let ghost document = item@;
            proof {
                assert(document == documents[it.index()]);
                assert(documents.take(it.index() + 1) =~= done.push(document));
                done.lemma_filter_push(document, usable());
            }
            let parses = match &item.enclosure_url {
                Some(url) => path_of_url(url.as_str()).is_some(),
                None => false,
            };
            let ghost before = episode_views(episodes@);
            match episode_from(item, parses) {
                Some(episode) => {
                    episodes.push(episode);
                    proof {
                        assert(episode_views(episodes@) =~= before.push(episode@));
                        assert(done.filter(usable()).push(document).map_values(to_episode())
                            =~= done.filter(usable()).map_values(to_episode()).push(
                            episode_of(document),
                        ));
                    }
                },
                None => {},
            }
        }
        proof {
            assert(documents.take(documents.len() as int) =~= documents);
        }
        Podcast { title, episodes }
    }

    /// The name of the directory that the podcast's episodes are saved in, as
    /// one path segment: the title, made safe for a path. It is empty where
    /// nothing of the title is safe.
    pub fn dir_name(&self) -> (name: String)
        ensures
            name@ == sanitized(self@.title),
            all_path_safe(name@),
    {
        sanitize_string(self.title.as_str())
    }
}

} // verus!
