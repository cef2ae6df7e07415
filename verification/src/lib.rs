//! Turns one parsed HTML listing page into a structured catalog of audio-talk
//! records, inferring each record's broadcast date from its encoded filename.
//! The page is handed in as an owned [`dom::Doc`] tree; the catalog comes out
//! as a [`scrape::TalkInfo`] value that downstream consumers (a feed
//! serializer, a landing-page renderer) read.
pub mod dates;
pub mod dom;
pub mod feed;
pub mod scrape;
pub mod splash;
