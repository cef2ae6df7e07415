use talk_catalog::dates::{get_date, DateError, TalkDateTime};
use talk_catalog::dom::{Doc, Elem, MarkupNode};
use talk_catalog::scrape::{ScrapeError, TalkInfo};

fn text(s: &str) -> MarkupNode {
    MarkupNode::Text(s.to_string())
}

fn elem(
    tag: &str,
    id: Option<&str>,
    classes: &[&str],
    href: Option<&str>,
    children: Vec<MarkupNode>,
) -> MarkupNode {
    MarkupNode::Element(Elem {
        tag: tag.to_string(),
        id: id.map(|s| s.to_string()),
        classes: classes.iter().map(|s| s.to_string()).collect(),
        href: href.map(|s| s.to_string()),
        children,
    })
}

fn description_div(desc: &str) -> MarkupNode {
    elem(
        "div",
        Some("content"),
        &[],
        None,
        vec![elem(
            "div",
            None,
            &["archive"],
            None,
            vec![elem("div", None, &["full"], None, vec![text(desc)])],
        )],
    )
}

fn audio_link(href: Option<&str>, texts: Vec<MarkupNode>) -> MarkupNode {
    elem("a", None, &["audio"], href, texts)
}

fn date(year: i32, month: u8, day: u8) -> TalkDateTime {
    TalkDateTime {
        year,
        month,
        day,
        hour: 18,
        minute: 0,
        second: 0,
        utc_offset_secs: -28800,
    }
}

#[test]
fn date_from_valid_path() {
    let d = get_date("/Archive/2020s/200115_talk.mp3").unwrap();
    assert_eq!(d, date(2020, 1, 15));
}

#[test]
fn date_day_falls_back_when_non_numeric() {
    let d = get_date("/Archive/2005s/0503xx.mp3").unwrap();
    assert_eq!(d, date(2005, 3, 1));
}

#[test]
fn date_day_falls_back_when_missing() {
    let d = get_date("/Archive/2005s/0503").unwrap();
    assert_eq!(d, date(2005, 3, 1));
}

#[test]
fn date_month_not_range_checked() {
    let d = get_date("/Archive/odd/991340_talk.mp3").unwrap();
    assert_eq!(d, date(2099, 13, 40));
}

#[test]
fn date_rejects_wrong_base_directory() {
    assert_eq!(
        get_date("/Elsewhere/2020s/200115.mp3"),
        Err(DateError::BaseNotArchive)
    );
}

#[test]
fn date_rejects_short_paths() {
    assert_eq!(get_date(""), Err(DateError::MissingArchiveDir));
    assert_eq!(get_date("/Archive"), Err(DateError::MissingYearDir));
    assert_eq!(get_date("/Archive/2020s"), Err(DateError::MissingFilename));
}

#[test]
fn date_rejects_non_numeric_year_and_month() {
    assert_eq!(
        get_date("/Archive/2020s/2x0115.mp3"),
        Err(DateError::BadYear)
    );
    assert_eq!(get_date("/Archive/2020s/2"), Err(DateError::BadYear));
    assert_eq!(
        get_date("/Archive/2020s/20x115.mp3"),
        Err(DateError::BadMonth)
    );
    assert_eq!(get_date("/Archive/2020s/200"), Err(DateError::BadMonth));
}

#[test]
fn date_segments_after_the_third_are_ignored() {
    // The segment examined as a file name is the third after the anchor.
    assert_eq!(
        get_date("/Archive/2020s/200115/extra"),
        Ok(date(2020, 1, 15))
    );
}

fn full_doc() -> Doc {
    Doc {
        roots: vec![elem(
            "html",
            None,
            &[],
            None,
            vec![elem(
                "body",
                None,
                &[],
                None,
                vec![
                    description_div("Evening talks from the archive."),
                    elem(
                        "div",
                        None,
                        &["talks"],
                        None,
                        vec![
                            audio_link(
                                Some("/Archive/y2020/200115_one.mp3"),
                                vec![text("Jan 15, 2020"), text("  First Talk  ")],
                            ),
                            elem("a", None, &[], Some("/transcripts/one.pdf"), vec![]),
                            text("\n"),
                            audio_link(
                                Some("/Archive/y2020/200116_two.mp3"),
                                vec![text("Jan 16, 2020"), text("Second Talk")],
                            ),
                            text("\n"),
                            audio_link(
                                Some("/Archive/y2005/0503xx_three.mp3"),
                                vec![text("Mar 2005"), text("Third Talk")],
                            ),
                        ],
                    ),
                ],
            )],
        )],
    }
}

#[test]
fn catalog_from_full_page() {
    let doc = full_doc();
    let info = TalkInfo::from_archive(&doc).unwrap();
    assert_eq!(info.description, "Evening talks from the archive.");
    assert_eq!(info.talks.len(), 3);

    assert_eq!(info.talks[0].mp3, "/Archive/y2020/200115_one.mp3");
    assert_eq!(info.talks[0].title, "First Talk");
    assert_eq!(info.talks[0].date, date(2020, 1, 15));
    assert_eq!(
        info.talks[0].transcript.as_deref(),
        Some("/transcripts/one.pdf")
    );

    assert_eq!(info.talks[1].mp3, "/Archive/y2020/200116_two.mp3");
    assert_eq!(info.talks[1].transcript, None);

    assert_eq!(info.talks[2].date, date(2005, 3, 1));
}

#[test]
fn talks_keep_document_order() {
    let doc = full_doc();
    let info = TalkInfo::from_archive(&doc).unwrap();
    let paths: Vec<&str> = info.talks.iter().map(|t| t.mp3.as_str()).collect();
    assert_eq!(
        paths,
        vec![
            "/Archive/y2020/200115_one.mp3",
            "/Archive/y2020/200116_two.mp3",
            "/Archive/y2005/0503xx_three.mp3",
        ]
    );
}

#[test]
fn extraction_is_deterministic() {
    let doc = full_doc();
    let a = TalkInfo::from_archive(&doc).unwrap();
    let b = TalkInfo::from_archive(&doc).unwrap();
    assert_eq!(a, b);
}

#[test]
fn empty_talk_list_is_not_an_error() {
    let doc = Doc {
        roots: vec![description_div("Just a description.")],
    };
    let info = TalkInfo::from_archive(&doc).unwrap();
    assert_eq!(info.description, "Just a description.");
    assert!(info.talks.is_empty());
}

#[test]
fn missing_description_fails_even_with_good_talks() {
    let doc = Doc {
        roots: vec![audio_link(
            Some("/Archive/y2020/200115_one.mp3"),
            vec![text("Jan 15, 2020"), text("First Talk")],
        )],
    };
    assert_eq!(
        TalkInfo::from_archive(&doc),
        Err(ScrapeError::MissingDescription)
    );
}

#[test]
fn empty_description_text_fails() {
    let doc = Doc {
        roots: vec![description_div("")],
    };
    assert_eq!(
        TalkInfo::from_archive(&doc),
        Err(ScrapeError::MissingDescription)
    );
}

#[test]
fn bad_base_directory_aborts_the_whole_catalog() {
    let doc = Doc {
        roots: vec![
            description_div("A description."),
            audio_link(
                Some("/Archive/y2020/200115_one.mp3"),
                vec![text("Jan 15, 2020"), text("Good Talk")],
            ),
            audio_link(
                Some("/Elsewhere/y2020/200116_two.mp3"),
                vec![text("Jan 16, 2020"), text("Bad Talk")],
            ),
        ],
    };
    assert_eq!(
        TalkInfo::from_archive(&doc),
        Err(ScrapeError::BadDate {
            mp3: "/Elsewhere/y2020/200116_two.mp3".to_string(),
            err: DateError::BaseNotArchive,
        })
    );
}

#[test]
fn audio_link_without_href_fails() {
    let doc = Doc {
        roots: vec![
            description_div("A description."),
            audio_link(None, vec![text("Jan 15, 2020"), text("A Talk")]),
        ],
    };
    assert_eq!(TalkInfo::from_archive(&doc), Err(ScrapeError::MissingMp3));
}

#[test]
fn audio_link_without_second_text_fails() {
    let doc = Doc {
        roots: vec![
            description_div("A description."),
            audio_link(
                Some("/Archive/y2020/200115_one.mp3"),
                vec![text("Jan 15, 2020")],
            ),
        ],
    };
    assert_eq!(TalkInfo::from_archive(&doc), Err(ScrapeError::MissingTitle));
}

#[test]
fn whitespace_only_title_fails() {
    let doc = Doc {
        roots: vec![
            description_div("A description."),
            audio_link(
                Some("/Archive/y2020/200115_one.mp3"),
                vec![text("Jan 15, 2020"), text("   \n  ")],
            ),
        ],
    };
    assert_eq!(TalkInfo::from_archive(&doc), Err(ScrapeError::MissingTitle));
}

#[test]
fn text_sibling_does_not_become_a_transcript() {
    let doc = Doc {
        roots: vec![
            description_div("A description."),
            audio_link(
                Some("/Archive/y2020/200115_one.mp3"),
                vec![text("Jan 15, 2020"), text("A Talk")],
            ),
            text("not an element"),
            elem("a", None, &[], Some("/transcripts/stray.pdf"), vec![]),
        ],
    };
    let info = TalkInfo::from_archive(&doc).unwrap();
    assert_eq!(info.talks[0].transcript, None);
}

#[test]
fn title_text_may_come_from_a_nested_element() {
    // Text fragments are collected from all descendants in document order.
    let doc = Doc {
        roots: vec![
            description_div("A description."),
            elem(
                "a",
                None,
                &["audio", "other"],
                Some("/Archive/y2020/200115_one.mp3"),
                vec![
                    elem("span", None, &[], None, vec![text("Jan 15, 2020")]),
                    elem("b", None, &[], None, vec![text("Nested Title")]),
                ],
            ),
        ],
    };
    let info = TalkInfo::from_archive(&doc).unwrap();
    assert_eq!(info.talks[0].title, "Nested Title");
}

#[test]
fn plain_anchor_and_other_classes_are_not_audio_links() {
    let doc = Doc {
        roots: vec![
            description_div("A description."),
            elem("a", None, &[], Some("/Archive/y/200101.mp3"), vec![]),
            elem("a", None, &["video"], Some("/Archive/y/200102.mp3"), vec![]),
            elem("div", None, &["audio"], Some("/Archive/y/200103.mp3"), vec![]),
        ],
    };
    let info = TalkInfo::from_archive(&doc).unwrap();
    assert!(info.talks.is_empty());
}

#[test]
fn error_messages_name_stage_and_input() {
    assert_eq!(
        ScrapeError::MissingDescription.message(),
        "couldn't find description"
    );
    assert_eq!(
        ScrapeError::MissingMp3.message(),
        "missing link to talk mp3"
    );
    assert_eq!(
        ScrapeError::MissingTitle.message(),
        "no talk title after date text node"
    );
    assert_eq!(
        ScrapeError::BadDate {
            mp3: "/Elsewhere/y/200101.mp3".to_string(),
            err: DateError::BaseNotArchive,
        }
        .message(),
        "getting date from \"/Elsewhere/y/200101.mp3\": base directory is not \"Archive\""
    );
    assert_eq!(DateError::MissingArchiveDir.message(), "missing archive directory");
    assert_eq!(DateError::MissingYearDir.message(), "missing year directory");
    assert_eq!(DateError::MissingFilename.message(), "missing mp3 file name");
    assert_eq!(DateError::BadYear.message(), "parsing year");
    assert_eq!(DateError::BadMonth.message(), "parsing month");
}
