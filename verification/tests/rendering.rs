use talk_catalog::dates::TalkDateTime;
use talk_catalog::feed::{generate_feed, talk_into_item, talks_into_items};
use talk_catalog::scrape::{Talk, TalkInfo};
use talk_catalog::splash::create_index;

use chrono::TimeZone;

fn date(year: i32, month: u8, day: u8) -> TalkDateTime {
    TalkDateTime {
        year,
        month,
        day,
        hour: 18,
        minute: 0,
        second: 0,
        utc_offset_secs: -28800,
    }
}

fn talk(mp3: &str, title: &str, d: TalkDateTime, transcript: Option<&str>) -> Talk {
    Talk {
        date: d,
        title: title.to_string(),
        mp3: mp3.to_string(),
        transcript: transcript.map(|s| s.to_string()),
    }
}

#[test]
fn item_fields_from_talk() {
    let t = talk(
        "/Archive/y2020/200115_one.mp3",
        "First Talk",
        date(2020, 1, 15),
        None,
    );
    let it = talk_into_item(&t);
    assert_eq!(it.title, "First Talk");
    assert_eq!(
        it.url,
        "https://www.dhammatalks.org/Archive/y2020/200115_one.mp3"
    );
    assert_eq!(
        it.description,
        "A talk by Thanissaro Bhikkhu entitled \"First Talk\""
    );
    assert_eq!(it.pub_date.as_deref(), Some("Wed, 15 Jan 2020 18:00:00 -0800"));
}

#[test]
fn item_description_names_the_transcript() {
    let t = talk(
        "/Archive/y2020/200115_one.mp3",
        "First Talk",
        date(2020, 1, 15),
        Some("/transcripts/one.pdf"),
    );
    let it = talk_into_item(&t);
    assert_eq!(
        it.description,
        "A talk by Thanissaro Bhikkhu entitled \"First Talk\"\n\n\
         Transcript available at: https://www.dhammatalks.org/transcripts/one.pdf\n"
    );
}

#[test]
fn item_date_agrees_with_chrono() {
    let t = talk("/Archive/y2005/050301.mp3", "A Talk", date(2005, 3, 1), None);
    let it = talk_into_item(&t);
    let expected = chrono::FixedOffset::east_opt(-28800)
        .unwrap()
        .with_ymd_and_hms(2005, 3, 1, 18, 0, 0)
        .unwrap()
        .to_rfc2822();
    assert_eq!(it.pub_date, Some(expected));
}

#[test]
fn item_of_impossible_date_has_no_pub_date() {
    // Month 13 is carried through decoding but is no calendar date.
    let t = talk("/Archive/odd/991340.mp3", "Odd", date(2099, 13, 40), None);
    let it = talk_into_item(&t);
    assert_eq!(it.pub_date, None);
}

#[test]
fn feed_channel_fields() {
    let info = TalkInfo {
        description: "Evening talks.".to_string(),
        talks: vec![talk(
            "/Archive/y2020/200115_one.mp3",
            "First Talk",
            date(2020, 1, 15),
            None,
        )],
    };
    let f = generate_feed(&info);
    assert_eq!(f.title, "Dhammatalks.org Evening Talks");
    assert_eq!(f.link, "http://dhammatalks.org");
    assert_eq!(f.description, "Evening talks.");
    assert_eq!(f.language, "en-us");
    assert_eq!(f.webmaster, "dhammatalks.feedback@gmail.com");
    assert_eq!(f.category, "Society/Religion and Spirituality/Buddhism");
    assert_eq!(f.category_domain, "https://dmoz-odp.org");
    assert_eq!(f.itunes_author, "Thanissaro Bhikkhu");
    assert_eq!(f.itunes_image, "http://mwc10.github.io/dt-backup/dt_art.jpeg");
    assert_eq!(f.itunes_category, "Religion & Spirituality");
    assert_eq!(f.itunes_subcategory, "Buddhism");
    assert_eq!(f.items.len(), 1);
    assert!(!f.pub_date.is_empty());
}

#[test]
fn items_keep_talk_order() {
    let talks = vec![
        talk("/Archive/a/200101_a.mp3", "A", date(2020, 1, 1), None),
        talk("/Archive/b/200102_b.mp3", "B", date(2020, 1, 2), None),
    ];
    let items = talks_into_items(&talks);
    assert_eq!(items.len(), 2);
    assert_eq!(items[0].url, "https://www.dhammatalks.org/Archive/a/200101_a.mp3");
    assert_eq!(items[1].url, "https://www.dhammatalks.org/Archive/b/200102_b.mp3");
}

#[test]
fn index_page_lists_talks_and_transcripts() {
    let info = TalkInfo {
        description: "Evening talks.".to_string(),
        talks: vec![
            talk(
                "/Archive/y2020/200115_one.mp3",
                "First Talk",
                date(2020, 1, 15),
                Some("/transcripts/one.pdf"),
            ),
            talk(
                "/Archive/y2005/050301_two.mp3",
                "Second Talk",
                date(2005, 3, 1),
                None,
            ),
        ],
    };
    let page = create_index(&info);
    assert!(page.starts_with("<html>"));
    assert!(page.ends_with("\n    </body>\n</html>\n"));
    let talks_line_one = "            <li>January 15, 2020 — <a href=\"https://www.dhammatalks.org/Archive/y2020/200115_one.mp3\">First Talk</a></li>\n";
    // A single-digit day is padded with a space, as the long date format has it.
    let talks_line_two = "            <li>March  1, 2005 — <a href=\"https://www.dhammatalks.org/Archive/y2005/050301_two.mp3\">Second Talk</a></li>\n";
    let trans_line = "            <li>January 15, 2020 — <a href=\"https://www.dhammatalks.org/transcripts/one.pdf\">First Talk</a></li>\n";
    let expected_lists = format!(
        "        <h2>Recent Talks</h2>\n        <ul>\n{}{}        </ul>\n        <h2>Recent Transcripts</h2>\n        <ul>\n{}        </ul>\n\n    </body>\n</html>\n",
        talks_line_one, talks_line_two, trans_line
    );
    assert!(page.ends_with(&expected_lists));
}

#[test]
fn index_page_lists_at_most_five_entries() {
    let mut talks = Vec::new();
    for day in 1..=7u8 {
        let mp3 = format!("/Archive/y2020/20011{}_t.mp3", day);
        talks.push(talk(
            &mp3,
            "T",
            date(2020, 1, day),
            if day >= 2 { Some("/tr.pdf") } else { None },
        ));
    }
    let info = TalkInfo {
        description: "d".to_string(),
        talks,
    };
    let page = create_index(&info);
    let entries = page.matches("<li>").count();
    // Five recent talks and five transcripts.
    assert_eq!(entries, 10);
    // The transcript list starts with the first talk that has one.
    assert!(page.contains("January  2, 2020"));
}

#[test]
fn date_label_agrees_with_chrono() {
    let info = TalkInfo {
        description: "d".to_string(),
        talks: vec![talk(
            "/Archive/y2005/050301_two.mp3",
            "Second Talk",
            date(2005, 3, 1),
            None,
        )],
    };
    let page = create_index(&info);
    let expected = chrono::FixedOffset::east_opt(-28800)
        .unwrap()
        .with_ymd_and_hms(2005, 3, 1, 18, 0, 0)
        .unwrap()
        .format("%B %e, %Y")
        .to_string();
    assert!(page.contains(&expected));
}
