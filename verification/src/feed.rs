//! Builds the syndication feed's content from a catalog: the fixed channel
//! metadata, and one item per talk with its absolute audio URL, its
//! description text, and its publication date rendered in RFC 2822 form.
//! Serializing this value into feed XML is a consumer's concern.
use vstd::prelude::*;

use crate::dates::TalkDateTime;
use crate::dom::opt_view;
use crate::scrape::{Talk, TalkInfo};
use chrono::TimeZone;

verus! {

/// The root all relative talk paths hang from.
pub open spec fn talks_root() -> Seq<char> {
    "https://www.dhammatalks.org"@
}

pub open spec fn is_leap_year(y: int) -> bool {
    (y % 4 == 0 && y % 100 != 0) || y % 400 == 0
}

pub open spec fn days_in_month(y: int, m: int) -> int {
    if m == 2 {
        if is_leap_year(y) {
            29
        } else {
            28
        }
    } else if m == 4 || m == 6 || m == 9 || m == 11 {
        30
    } else {
        31
    }
}

pub open spec fn valid_ymd(y: int, m: int, d: int) -> bool {
    1 <= m <= 12 && 1 <= d <= days_in_month(y, m)
}

/// Whether a date-time can be rendered in RFC 2822 form: a real proleptic
/// Gregorian calendar date in the four-digit-year range the format allows,
/// a real clock time, and an offset of less than a day.
pub open spec fn renderable(d: TalkDateTime) -> bool {
    &&& 0 <= d.year <= 9999
    &&& valid_ymd(d.year as int, d.month as int, d.day as int)
    &&& d.hour <= 23
    &&& d.minute <= 59
    &&& d.second <= 59
    &&& -86400 < d.utc_offset_secs < 86400
}

/// The RFC 2822 rendering of a date-time, as chrono writes it; a function
/// of the date-time value alone.
pub uninterp spec fn rfc2822_of(
    year: int,
    month: int,
    day: int,
    hour: int,
    minute: int,
    second: int,
    offset_secs: int,
) -> Seq<char>;

pub open spec fn date_rfc2822(d: TalkDateTime) -> Seq<char> {
    rfc2822_of(
        d.year as int,
        d.month as int,
        d.day as int,
        d.hour as int,
        d.minute as int,
        d.second as int,
        d.utc_offset_secs as int,
    )
}

/// Relies on chrono: `FixedOffset::east_opt` accepts exactly the offsets of
/// less than a day; `TimeZone::with_ymd_and_hms` on a fixed offset yields a
/// single value exactly when the calendar date and clock time are valid, and
/// `None` otherwise; `DateTime::to_rfc2822` writes a rendering that depends
/// on the date-time value alone, and panics outside years 0 through 9999,
/// which the precondition rules out.
#[verifier::external_body]
fn to_rfc2822(d: &TalkDateTime) -> (r: Option<String>)
    requires
        0 <= d.year <= 9999,
    ensures
        r is Some <==> renderable(*d),
        r matches Some(s) ==> s@ == rfc2822_of(
            d.year as int,
            d.month as int,
            d.day as int,
            d.hour as int,
            d.minute as int,
            d.second as int,
            d.utc_offset_secs as int,
        ),
{
    match chrono::FixedOffset::east_opt(d.utc_offset_secs) {
        None => None,
        Some(off) => match off.with_ymd_and_hms(
            d.year,
            d.month as u32,
            d.day as u32,
            d.hour as u32,
            d.minute as u32,
            d.second as u32,
        ) {
            chrono::MappedLocalTime::Single(dt) => Some(dt.to_rfc2822()),
            chrono::MappedLocalTime::Ambiguous(dt, _) => Some(dt.to_rfc2822()),
            chrono::MappedLocalTime::None => None,
        },
    }
}

/// Relies on chrono's `Utc::now` and `DateTime::to_rfc2822`: the value
/// depends on the system clock, so nothing is promised of it. A clock year
/// past 9999 would make the rendering panic; no running clock reaches it.
#[verifier::external_body]
fn now_rfc2822() -> String {
    chrono::Utc::now().to_rfc2822()
}

/// One feed item, as plain text fields: everything a feed serializer puts
/// into an entry. The URL serves as link, enclosure and stable identifier.
pub struct FeedItem {
    pub title: String,
    pub url: String,
    pub description: String,
    /// The broadcast date in RFC 2822 form; absent when the decoded date is
    /// not a real calendar date.
    pub pub_date: Option<String>,
}

/// The description text of one item: a fixed sentence naming the talk, and
/// a pointer to the transcript when the talk has one.
pub open spec fn item_desc(title: Seq<char>, transcript: Option<Seq<char>>) -> Seq<char> {
    let base = "A talk by Thanissaro Bhikkhu entitled \""@ + title + "\""@;
    match transcript {
        Some(t) => base + "\n\nTranscript available at: "@ + talks_root() + t + "\n"@,
        None => base,
    }
}

/// What one feed item holds of its talk: the title as it stands, the
/// absolute URL, the description text, and the RFC 2822 date exactly when
/// the talk's date is renderable.
pub open spec fn item_matches_talk(it: FeedItem, t: Talk) -> bool {
    &&& it.title@ == t.title@
    &&& it.url@ == talks_root() + t.mp3@
    &&& it.description@ == item_desc(t.title@, opt_view(t.transcript))
    &&& (match it.pub_date {
        Some(p) => renderable(t.date) && p@ == date_rfc2822(t.date),
        None => !renderable(t.date),
    })
}

/// Builds the feed item for one talk.
pub fn talk_into_item(t: &Talk) -> (it: FeedItem)
    ensures
        item_matches_talk(it, *t),
{
    let url = String::from_str("https://www.dhammatalks.org").concat(t.mp3.as_str());
    let mut description = String::from_str("A talk by Thanissaro Bhikkhu entitled \"");
    description.append(t.title.as_str());
    description.append("\"");
    match &t.transcript {
        Some(tr) => {
            description.append("\n\nTranscript available at: ");
            description.append("https://www.dhammatalks.org");
            description.append(tr.as_str());
            description.append("\n");
        },
        None => {},
    }
    assert(description@ =~= item_desc(t.title@, opt_view(t.transcript)));
    let pub_date: Option<String> = if 0 <= t.date.year && t.date.year <= 9999 {
        to_rfc2822(&t.date)
    } else {
        None
    };
    FeedItem { title: t.title.clone(), url, description, pub_date }
}

/// Maps the talks, in order, to their feed items.
pub fn talks_into_items(talks: &Vec<Talk>) -> (r: Vec<FeedItem>)
    ensures
        r@.len() == talks@.len(),
        forall|i: int| 0 <= i < talks@.len() ==> item_matches_talk(r@[i], #[trigger] talks@[i]),
{
    let mut items: Vec<FeedItem> = Vec::new();
    let mut i: usize = 0;
    while i < talks.len()
        invariant
            i <= talks@.len(),
            items@.len() == i,
            forall|k: int| 0 <= k < i ==> item_matches_talk(items@[k], #[trigger] talks@[k]),
        decreases talks@.len() - i,
    {
        let it = talk_into_item(&talks[i]);
        items.push(it);
        i = i + 1;
    }
    items
}

/// The whole feed as plain text fields: the fixed channel metadata, the
/// publication date stamped from the clock, and one item per talk.
pub struct Feed {
    pub title: String,
    pub link: String,
    pub description: String,
    pub language: String,
    pub webmaster: String,
    pub category: String,
    pub category_domain: String,
    pub itunes_author: String,
    pub itunes_image: String,
    pub itunes_category: String,
    pub itunes_subcategory: String,
    /// The moment of generation in RFC 2822 form; drawn from the clock, so
    /// nothing is stated of it.
    pub pub_date: String,
    pub items: Vec<FeedItem>,
}

/// Builds the feed for a catalog: fixed channel metadata and one item per
/// talk, in catalog order.
pub fn generate_feed(archive: &TalkInfo) -> (f: Feed)
    ensures
        f.title@ == "Dhammatalks.org Evening Talks"@,
        f.link@ == "http://dhammatalks.org"@,
        f.description@ == archive.description@,
        f.language@ == "en-us"@,
        f.webmaster@ == "dhammatalks.feedback@gmail.com"@,
        f.category@ == "Society/Religion and Spirituality/Buddhism"@,
        f.category_domain@ == "https://dmoz-odp.org"@,
        f.itunes_author@ == "Thanissaro Bhikkhu"@,
        f.itunes_image@ == "http://mwc10.github.io/dt-backup/dt_art.jpeg"@,
        f.itunes_category@ == "Religion & Spirituality"@,
        f.itunes_subcategory@ == "Buddhism"@,
        f.items@.len() == archive.talks@.len(),
        forall|i: int|
            0 <= i < archive.talks@.len() ==> item_matches_talk(
                f.items@[i],
                #[trigger] archive.talks@[i],
            ),
{
    let items = talks_into_items(&archive.talks);
    Feed {
        title: String::from_str("Dhammatalks.org Evening Talks"),
        link: String::from_str("http://dhammatalks.org"),
        description: archive.description.clone(),
        language: String::from_str("en-us"),
        webmaster: String::from_str("dhammatalks.feedback@gmail.com"),
        category: String::from_str("Society/Religion and Spirituality/Buddhism"),
        category_domain: String::from_str("https://dmoz-odp.org"),
        itunes_author: String::from_str("Thanissaro Bhikkhu"),
        itunes_image: String::from_str("http://mwc10.github.io/dt-backup/dt_art.jpeg"),
        itunes_category: String::from_str("Religion & Spirituality"),
        itunes_subcategory: String::from_str("Buddhism"),
        pub_date: now_rfc2822(),
        items,
    }
}

} // verus!
